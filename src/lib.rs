//! Transitive shared-library dependency resolution for ELF binaries.
use vstd::prelude::*;

pub mod args;
pub mod config;
pub mod ident;
pub mod metadata;
pub mod paths;
pub mod resolver;
pub mod text;

use crate::args::Opt;
use crate::config::{ConfigError, ConfigLine, config_matches, expand, resolve_config, texts};
use crate::ident::{IdentError, architecture_class, ident_matches};
use crate::metadata::{MetadataError, extract_dependencies, links_match, object_links};
use crate::resolver::{Phase, Resolver};

verus! {

/// A failure that ends a run before resolution starts.
#[derive(Debug)]
pub enum RunError {
    Config(ConfigError),
    Ident(IdentError),
    Metadata(MetadataError),
}

/// Whether `r` is the resolver that starts a run below `sysroot`, from the search paths
/// `paths` and a root binary of class `class` whose links are `links`.
pub open spec fn starts_run(
    r: Resolver,
    sysroot: Seq<char>,
    paths: Seq<Seq<char>>,
    class: crate::ident::ArchClass,
    links: (Seq<Seq<char>>, Seq<Seq<char>>),
) -> bool {
    &&& r.wf()
    &&& r.sysroot@ == sysroot
    &&& texts(r.search_paths@) == paths + links.1
    &&& r.root_class == class
    &&& texts(r.queue@) == links.0
    &&& r.head == 0
    &&& r.next_path == 0
    &&& r.phase == Phase::Idle
    &&& r.records@.len() == 0
}

/// Starts a run for the binary that `options` names: resolves the configuration, reads
/// the root binary's class from its identification header, then its links from its
/// contents. A failure at any of these is fatal and is returned, in that order.
pub fn run(options: &Opt, config: &Vec<ConfigLine>, root_header: &[u8], root_contents: &[u8]) -> (r: Result<Resolver, RunError>)
    ensures
        expand(config@) is Err ==> (r matches Err(RunError::Config(e)) && config_matches(config@, Err(e))),
        expand(config@) is Ok && !ident_matches(root_header@, Ok(crate::ident::ArchClass::Elf32))
            && !ident_matches(root_header@, Ok(crate::ident::ArchClass::Elf64)) ==> (r matches Err(
            RunError::Ident(e)) && ident_matches(root_header@, Err(e))),
        forall|c: crate::ident::ArchClass|
            expand(config@) is Ok && #[trigger] ident_matches(root_header@, Ok(c)) ==> match object_links(root_contents@) {
                Some(Some(l)) => r matches Ok(res) && starts_run(res, options.sysroot@, expand(config@)->Ok_0, c, l),
                found => r matches Err(RunError::Metadata(e)) && links_match(found, Err(e)),
            },
{
    let paths = match resolve_config(config) {
        Ok(p) => p,
        Err(e) => {
            return Err(RunError::Config(e));
        },
    };
    let class = match architecture_class(root_header) {
        Ok(c) => c,
        Err(e) => {
            return Err(RunError::Ident(e));
        },
    };
    let links = match extract_dependencies(root_contents) {
        Ok(l) => l,
        Err(e) => {
            return Err(RunError::Metadata(e));
        },
    };
    let ghost lp = links.search_paths@;
    let res = Resolver::new(options.sysroot.clone(), paths, class, links);
    assert(texts(res.search_paths@) =~= texts(paths@) + texts(lp));
    Ok(res)
}

} // verus!
