//! The options of a run.
use vstd::prelude::*;

verus! {

/// What a run is asked to do: the configuration file to read, the root directory that
/// search paths are taken below, and the binary whose dependencies are resolved.
pub struct Opt {
    pub confpath: String,
    pub sysroot: String,
    pub path: String,
}

} // verus!
