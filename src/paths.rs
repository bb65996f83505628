//! Path strings: joining and taking an absolute path below a root.
use vstd::prelude::*;

verus! {

/// `s` without its leading slashes.
pub open spec fn strip_slashes(s: Seq<char>) -> Seq<char>
    decreases s.len(),
{
    if s.len() > 0 && s[0] == '/' {
        strip_slashes(s.drop_first())
    } else {
        s
    }
}

/// `b` appended to `a` with one separator between them, unless `a` is empty or already
/// ends with a separator.
pub open spec fn join(a: Seq<char>, b: Seq<char>) -> Seq<char> {
    if a.len() == 0 {
        b
    } else if a.last() == '/' {
        a + b
    } else {
        a + seq!['/'] + b
    }
}

/// Where library `name` would sit in search directory `dir`, relative to the root.
pub open spec fn relative_path(dir: Seq<char>, name: Seq<char>) -> Seq<char> {
    join(strip_slashes(dir), name)
}

/// Where library `name` would sit in search directory `dir`, with the root prefixed.
pub open spec fn candidate_path(root: Seq<char>, dir: Seq<char>, name: Seq<char>) -> Seq<char> {
    join(root, relative_path(dir, name))
}

/// Joins two path strings.
pub fn join_paths(a: &str, b: &str) -> (r: String)
    ensures
        r@ == join(a@, b@),
{
    let n = a.unicode_len();
    let mut r = String::from_str(a);
    if n > 0 && a.get_char(n - 1) != '/' {
        let sep = "/";
        proof {
            reveal_strlit("/");
        }
        r.append(sep);
    }
    r.append(b);
    r
}

/// Library `name` in search directory `dir`, relative to the root.
pub fn relative_to_root(dir: &str, name: &str) -> (r: String)
    ensures
        r@ == relative_path(dir@, name@),
{
    let n = dir.unicode_len();
    let mut a: usize = 0;
    assert(dir@.subrange(0, n as int) =~= dir@);
    while a < n && dir.get_char(a) == '/'
        invariant
            a <= n,
            n == dir@.len(),
            strip_slashes(dir@) == strip_slashes(dir@.subrange(a as int, n as int)),
        decreases n - a,
    {
        assert(dir@.subrange(a as int, n as int).drop_first() =~= dir@.subrange(a + 1, n as int));
        a = a + 1;
    }
    join_paths(dir.substring_char(a, n), name)
}

/// Library `name` in search directory `dir`, below `root`.
pub fn candidate(root: &str, dir: &str, name: &str) -> (r: String)
    ensures
        r@ == candidate_path(root@, dir@, name@),
{
    let rel = relative_to_root(dir, name);
    join_paths(root, rel.as_str())
}

} // verus!
