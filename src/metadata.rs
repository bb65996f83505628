//! Dynamic-linking metadata of a binary: the libraries it needs and its own search paths.
use vstd::prelude::*;
use crate::config::texts;

verus! {

/// What the object parser finds in a file's bytes: `None` when it cannot parse them;
/// `Some(None)` for an object of another container format; for an ELF object, the names
/// of its needed libraries and its runtime search paths, each in dynamic-table order.
pub uninterp spec fn object_links(bytes: Seq<u8>) -> Option<Option<(Seq<Seq<char>>, Seq<Seq<char>>)>>;

/// The parser's findings, as plain values.
pub enum ParsedObject {
    Elf { needed: Vec<String>, rpaths: Vec<String> },
    OtherFormat,
    Malformed,
}

/// The findings that `p` stands for, over plain values.
pub open spec fn parsed_view(p: ParsedObject) -> Option<Option<(Seq<Seq<char>>, Seq<Seq<char>>)>> {
    match p {
        ParsedObject::Elf { needed, rpaths } => Some(Some((texts(needed@), texts(rpaths@)))),
        ParsedObject::OtherFormat => Some(None),
        ParsedObject::Malformed => None,
    }
}

/// Relies on goblin::Object::parse, and on the `libraries` (DT_NEEDED strings) and
/// `rpaths` (DT_RPATH strings) of the ELF object it returns, both in dynamic-table order.
/// The findings depend on the bytes alone.
#[verifier::external_body]
fn parse_object(bytes: &[u8]) -> (r: ParsedObject)
    ensures
        parsed_view(r) == object_links(bytes@),
{
    match goblin::Object::parse(bytes) {
        Ok(goblin::Object::Elf(elf)) => ParsedObject::Elf {
            needed: elf.libraries.iter().map(|s| s.to_string()).collect(),
            rpaths: elf.rpaths.iter().map(|s| s.to_string()).collect(),
        },
        Ok(_) => ParsedObject::OtherFormat,
        Err(_) => ParsedObject::Malformed,
    }
}

/// The libraries a binary needs and the search paths it adds, in table order.
pub struct Links {
    pub needed: Vec<String>,
    pub search_paths: Vec<String>,
}

/// Why a binary's metadata could not be read.
#[derive(Debug)]
pub enum MetadataError {
    /// The bytes could not be parsed as an object file.
    Malformed,
    /// The object is of another container format than ELF.
    UnsupportedFileType,
}

/// Whether `r` is the outcome that the parser's findings `found` call for.
pub open spec fn links_match(
    found: Option<Option<(Seq<Seq<char>>, Seq<Seq<char>>)>>,
    r: Result<Links, MetadataError>,
) -> bool {
    match found {
        None => r matches Err(MetadataError::Malformed),
        Some(None) => r matches Err(MetadataError::UnsupportedFileType),
        Some(Some((n, p))) => r matches Ok(l) && texts(l.needed@) == n && texts(l.search_paths@)
            == p,
    }
}

/// Turns the parser's findings into the binary's links, or the error they call for.
pub fn links_of(parsed: ParsedObject) -> (r: Result<Links, MetadataError>)
    ensures
        links_match(parsed_view(parsed), r),
{
    match parsed {
        ParsedObject::Elf { needed, rpaths } => Ok(Links { needed, search_paths: rpaths }),
        ParsedObject::OtherFormat => Err(MetadataError::UnsupportedFileType),
        ParsedObject::Malformed => Err(MetadataError::Malformed),
    }
}

/// Extracts the needed library names and the runtime search paths from a binary's bytes.
/// A binary without a dynamic section gives two empty lists.
pub fn extract_dependencies(bytes: &[u8]) -> (r: Result<Links, MetadataError>)
    ensures
        links_match(object_links(bytes@), r),
{
    let parsed = parse_object(bytes);
    links_of(parsed)
}

} // verus!
