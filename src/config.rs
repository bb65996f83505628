//! The linker configuration: one directory per line, comments, blank lines, and
//! lines that pull in further configuration files by a glob pattern.
use vstd::prelude::*;
use crate::text::{is_space, space, trim, trim_start, solid, skip_spaces, trim_bounds};

verus! {

/// The directive word that starts a nesting line.
pub open spec fn keyword() -> Seq<char> {
    seq!['i', 'n', 'c', 'l', 'u', 'd', 'e']
}

/// Length of the directive word.
pub const KEYWORD_LEN: usize = 7;

/// Whether a trimmed line is blank or a comment.
pub open spec fn is_ignored(t: Seq<char>) -> bool {
    t.len() == 0 || t[0] == '#'
}

/// The glob pattern of a trimmed line of the form `<keyword> <spaces> <pattern>`,
/// where the pattern holds no whitespace.
pub open spec fn nested_pattern(t: Seq<char>) -> Option<Seq<char>> {
    if t.len() > KEYWORD_LEN && t.subrange(0, KEYWORD_LEN as int) == keyword()
        && is_space(t[KEYWORD_LEN as int]) {
        let p = trim_start(t.subrange(KEYWORD_LEN as int, t.len() as int));
        if p.len() > 0 && solid(p) {
            Some(p)
        } else {
            None
        }
    } else {
        None
    }
}

/// What a line of a configuration file is.
#[derive(Debug)]
pub enum LineKind {
    /// Blank or a comment.
    Ignored,
    /// Pulls in the files that the glob pattern matches.
    Nested(String),
    /// A directory to search, trimmed.
    Directory(String),
}

/// Whether `k` is the kind of the raw line `s`.
pub open spec fn kind_matches(s: Seq<char>, k: LineKind) -> bool {
    let t = trim(s);
    if is_ignored(t) {
        k is Ignored
    } else if nested_pattern(t) is Some {
        k matches LineKind::Nested(p) && p@ == nested_pattern(t)->Some_0
    } else {
        k matches LineKind::Directory(d) && d@ == t
    }
}

fn str_to_string(s: &str) -> (r: String)
    ensures
        r@ == s@,
{
    s.to_owned()
}

/// Tells what a raw line of a configuration file is.
pub fn classify_line(line: &str) -> (r: LineKind)
    ensures
        kind_matches(line@, r),
{
    let (a, b) = trim_bounds(line);
    let t = line.substring_char(a, b);
    let n = t.unicode_len();
    if n == 0 || t.get_char(0) == '#' {
        return LineKind::Ignored;
    }
    if n > KEYWORD_LEN && t.get_char(0) == 'i' && t.get_char(1) == 'n' && t.get_char(2) == 'c'
        && t.get_char(3) == 'l' && t.get_char(4) == 'u' && t.get_char(5) == 'd'
        && t.get_char(6) == 'e' && space(t.get_char(KEYWORD_LEN)) {
        assert(t@.subrange(0, KEYWORD_LEN as int) =~= keyword());
        let c = skip_spaces(t, KEYWORD_LEN);
        let mut k: usize = c;
        let mut ok = c < n;
        while k < n
            invariant
                c <= k <= n,
                n == t@.len(),
                ok == (c < n && forall|j: int| c <= j < k ==> !is_space(t@[j])),
            decreases n - k,
        {
            if space(t.get_char(k)) {
                ok = false;
            }
            k = k + 1;
        }
        let ghost p = t@.subrange(c as int, n as int);
        if ok {
            assert(solid(p)) by {
                assert forall|j: int| 0 <= j < p.len() implies !is_space(#[trigger] p[j]) by {
                    assert(p[j] == t@[c + j]);
                }
            }
            return LineKind::Nested(str_to_string(t.substring_char(c, n)));
        }
        assert(!(p.len() > 0 && solid(p))) by {
            if p.len() > 0 {
                let j = choose|j: int| c <= j < n && is_space(t@[j]);
                assert(p[j - c] == t@[j]);
            }
        }
    } else {
        assert(!(t@.len() > KEYWORD_LEN && t@.subrange(0, KEYWORD_LEN as int) == keyword()
            && is_space(t@[KEYWORD_LEN as int]))) by {
            if t@.len() > KEYWORD_LEN && t@.subrange(0, KEYWORD_LEN as int) == keyword() {
                assert(t@[0] == t@.subrange(0, KEYWORD_LEN as int)[0]);
                assert(t@[1] == t@.subrange(0, KEYWORD_LEN as int)[1]);
                assert(t@[2] == t@.subrange(0, KEYWORD_LEN as int)[2]);
                assert(t@[3] == t@.subrange(0, KEYWORD_LEN as int)[3]);
                assert(t@[4] == t@.subrange(0, KEYWORD_LEN as int)[4]);
                assert(t@[5] == t@.subrange(0, KEYWORD_LEN as int)[5]);
                assert(t@[6] == t@.subrange(0, KEYWORD_LEN as int)[6]);
            }
        }
    }
    LineKind::Directory(str_to_string(t))
}


/// One line of a configuration file, with what the file system said of it: for a
/// directory line, whether the directory exists; for a nesting line, the lines of every
/// file that its pattern matched, file after file in match order.
#[derive(Debug)]
pub struct ConfigLine {
    pub text: String,
    pub exists: bool,
    pub nested: Vec<ConfigLine>,
}

/// Why a configuration was refused.
#[derive(Debug)]
pub enum ConfigError {
    /// A line that is neither blank, a comment, nor a nesting line names no existing
    /// directory; holds the trimmed line.
    NotADirectory(String),
}

/// The search paths that the first `n` lines of `lines` give, depth first, or the first
/// line (in that order) that names no existing directory.
pub open spec fn expand_upto(lines: Seq<ConfigLine>, n: nat) -> Result<Seq<Seq<char>>, Seq<char>>
    decreases lines, n,
{
    if n == 0 || n > lines.len() {
        Ok(Seq::empty())
    } else {
        match expand_upto(lines, (n - 1) as nat) {
            Err(e) => Err(e),
            Ok(before) => {
                let l = lines[n - 1];
                let t = trim(l.text@);
                if is_ignored(t) {
                    Ok(before)
                } else if nested_pattern(t) is Some {
                    match expand_upto(l.nested@, l.nested@.len()) {
                        Err(e) => Err(e),
                        Ok(inner) => Ok(before + inner),
                    }
                } else if l.exists {
                    Ok(before.push(t))
                } else {
                    Err(t)
                }
            },
        }
    }
}

/// The search paths that the lines of a configuration file give.
pub open spec fn expand(lines: Seq<ConfigLine>) -> Result<Seq<Seq<char>>, Seq<char>> {
    expand_upto(lines, lines.len())
}

/// The text of each string.
pub open spec fn texts(v: Seq<String>) -> Seq<Seq<char>> {
    v.map_values(|s: String| s@)
}

/// Once a prefix of the lines fails, every longer prefix fails the same way.
pub proof fn lemma_error_persists(lines: Seq<ConfigLine>, i: nat, n: nat)
    requires
        i <= n <= lines.len(),
        expand_upto(lines, i) is Err,
    ensures
        expand_upto(lines, n) == expand_upto(lines, i),
    decreases n - i,
{
    if n > i {
        lemma_error_persists(lines, i, (n - 1) as nat);
    }
}

/// The trimmed text of each line.
pub open spec fn trimmed_lines(lines: Seq<ConfigLine>) -> Seq<Seq<char>> {
    lines.map_values(|l: ConfigLine| trim(l.text@))
}

/// The lines that name a directory: neither blank nor comments.
pub open spec fn listed(lines: Seq<ConfigLine>) -> Seq<Seq<char>> {
    trimmed_lines(lines).filter(|t: Seq<char>| !is_ignored(t))
}

proof fn lemma_plain_prefix(lines: Seq<ConfigLine>, n: nat)
    requires
        n <= lines.len(),
        forall|i: int| 0 <= i < lines.len() ==> nested_pattern(#[trigger] trim(lines[i].text@)) is None,
        forall|i: int| 0 <= i < lines.len() && !is_ignored(#[trigger] trim(lines[i].text@)) ==> lines[i].exists,
    ensures
        expand_upto(lines, n) == Ok::<Seq<Seq<char>>, Seq<char>>(listed(lines.subrange(0, n as int))),
    decreases n,
{
    reveal(Seq::filter);
    let sub = trimmed_lines(lines.subrange(0, n as int));
    if n == 0 {
        assert(sub =~= Seq::<Seq<char>>::empty());
    } else {
        lemma_plain_prefix(lines, (n - 1) as nat);
        assert(sub.drop_last() =~= trimmed_lines(lines.subrange(0, n - 1)));
        assert(sub.last() == trim(lines[n - 1].text@));
    }
}

/// A configuration with no nesting line, whose directory lines all exist, resolves to its
/// lines that are neither blank nor comments, trimmed, in file order.
pub proof fn lemma_plain_config(lines: Seq<ConfigLine>)
    requires
        forall|i: int| 0 <= i < lines.len() ==> nested_pattern(#[trigger] trim(lines[i].text@)) is None,
        forall|i: int| 0 <= i < lines.len() && !is_ignored(#[trigger] trim(lines[i].text@)) ==> lines[i].exists,
    ensures
        expand(lines) == Ok::<Seq<Seq<char>>, Seq<char>>(listed(lines)),
{
    lemma_plain_prefix(lines, lines.len());
    assert(lines.subrange(0, lines.len() as int) =~= lines);
}

/// The outcome of resolving `a`, then `b`: the first error, or the two lists joined.
pub open spec fn then_expand(
    a: Result<Seq<Seq<char>>, Seq<char>>,
    b: Result<Seq<Seq<char>>, Seq<char>>,
) -> Result<Seq<Seq<char>>, Seq<char>> {
    match a {
        Err(e) => Err(e),
        Ok(x) => match b {
            Err(e) => Err(e),
            Ok(y) => Ok(x + y),
        },
    }
}

proof fn lemma_prefix_same(a: Seq<ConfigLine>, b: Seq<ConfigLine>, m: nat)
    requires
        m <= a.len(),
    ensures
        expand_upto(a + b, m) == expand_upto(a, m),
    decreases m,
{
    if m > 0 {
        lemma_prefix_same(a, b, (m - 1) as nat);
        assert((a + b)[m - 1] == a[m - 1]);
    }
}

proof fn lemma_join_upto(a: Seq<ConfigLine>, b: Seq<ConfigLine>, k: nat)
    requires
        k <= b.len(),
    ensures
        expand_upto(a + b, a.len() + k) == then_expand(expand(a), expand_upto(b, k)),
    decreases k,
{
    if k == 0 {
        lemma_prefix_same(a, b, a.len());
        if let Ok(x) = expand(a) {
            assert(x + Seq::<Seq<char>>::empty() =~= x);
        }
    } else {
        lemma_join_upto(a, b, (k - 1) as nat);
        assert((a + b)[a.len() + k - 1] == b[k - 1]);
        if let Ok(x) = expand(a) {
            if let Ok(y) = expand_upto(b, (k - 1) as nat) {
                let l = b[k - 1];
                let t = trim(l.text@);
                if !is_ignored(t) && nested_pattern(t) is Some {
                    if let Ok(z) = expand_upto(l.nested@, l.nested@.len()) {
                        assert(x + y + z =~= x + (y + z));
                    }
                } else if !is_ignored(t) && l.exists {
                    assert((x + y).push(t) =~= x + y.push(t));
                }
            }
        }
    }
}

/// Resolving two runs of lines one after the other gives the first error, or the two
/// lists of paths joined in order.
pub proof fn lemma_expand_concat(a: Seq<ConfigLine>, b: Seq<ConfigLine>)
    ensures
        expand(a + b) == then_expand(expand(a), expand(b)),
{
    lemma_join_upto(a, b, b.len());
}

/// The paths of the files that a nesting line matched stand, depth first and in match
/// order, exactly where that line stands: between the paths of the lines before it and
/// those of the lines after it.
pub proof fn lemma_nested_in_place(before: Seq<ConfigLine>, l: ConfigLine, after: Seq<ConfigLine>)
    requires
        nested_pattern(trim(l.text@)) is Some,
    ensures
        expand(before + seq![l] + after)
            == then_expand(then_expand(expand(before), expand(l.nested@)), expand(after)),
{
    let t = trim(l.text@);
    assert(t[0] == t.subrange(0, KEYWORD_LEN as int)[0]);
    lemma_expand_concat(before + seq![l], after);
    lemma_expand_concat(before, seq![l]);
    let one = seq![l];
    assert(expand_upto(one, 0) == Ok::<Seq<Seq<char>>, Seq<char>>(Seq::empty()));
    if let Ok(z) = expand(l.nested@) {
        assert(Seq::<Seq<char>>::empty() + z =~= z);
    }
}

/// Whether `r` is the outcome that `expand(lines)` describes.
pub open spec fn config_matches(lines: Seq<ConfigLine>, r: Result<Vec<String>, ConfigError>) -> bool {
    match expand(lines) {
        Ok(p) => r matches Ok(v) && texts(v@) == p,
        Err(e) => r matches Err(ConfigError::NotADirectory(d)) && d@ == e,
    }
}

/// Resolves the lines of a configuration file into the ordered list of search paths:
/// directory lines in order, and in place of each nesting line the paths of the files it
/// matched. No path is dropped as a duplicate.
pub fn resolve_config(lines: &Vec<ConfigLine>) -> (r: Result<Vec<String>, ConfigError>)
    ensures
        config_matches(lines@, r),
    decreases lines@,
{
    let mut out: Vec<String> = Vec::new();
    let mut i: usize = 0;
    assert(texts(out@) =~= Seq::<Seq<char>>::empty());
    while i < lines.len()
        invariant
            i <= lines@.len(),
            expand_upto(lines@, i as nat) == Ok::<Seq<Seq<char>>, Seq<char>>(texts(out@)),
        decreases lines@.len() - i,
    {
        let l = &lines[i];
        let kind = classify_line(l.text.as_str());
        match kind {
            LineKind::Ignored => {},
            LineKind::Nested(_) => {
                proof {
                    assert(decreases_to!(lines@ => lines@[i as int]));
                }
                match resolve_config(&l.nested) {
                    Err(e) => {
                        proof {
                            lemma_error_persists(lines@, (i + 1) as nat, lines@.len());
                        }
                        return Err(e);
                    },
                    Ok(inner) => {
                        let ghost before = out@;
                        let mut j: usize = 0;
                        assert(texts(before) + texts(inner@.subrange(0, 0)) =~= texts(before));
                        while j < inner.len()
                            invariant
                                j <= inner@.len(),
                                texts(out@) == texts(before) + texts(inner@.subrange(0, j as int)),
                            decreases inner@.len() - j,
                        {
                            let ghost prev = out@;
                            let item = inner[j].clone();
                            assert(item@ == inner@[j as int]@);
                            out.push(item);
                            assert(texts(out@) =~= texts(prev).push(item@));
                            assert(inner@.subrange(0, j + 1) =~= inner@.subrange(0, j as int).push(inner@[j as int]));
                            assert(texts(inner@.subrange(0, j + 1)) =~= texts(inner@.subrange(0, j as int)).push(item@));
                            assert(texts(out@) =~= texts(before) + texts(inner@.subrange(0, j + 1)));
                            j = j + 1;
                        }
                        assert(inner@.subrange(0, inner@.len() as int) =~= inner@);
                    },
                }
            },
            LineKind::Directory(d) => {
                if !l.exists {
                    proof {
                        lemma_error_persists(lines@, (i + 1) as nat, lines@.len());
                    }
                    return Err(ConfigError::NotADirectory(d));
                }
                let ghost before = out@;
                out.push(d);
                assert(texts(out@) =~= texts(before).push(trim(l.text@)));
            },
        }
        i = i + 1;
    }
    assert(lines@.len() == lines.len());
    Ok(out)
}

} // verus!
