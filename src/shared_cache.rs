//! Parameters of a cache shared between processes.

use vstd::prelude::*;

verus! {

/// How a shared cache is created.
pub struct Params {
    /// The cache file.
    pub path: String,
    /// The owner of the cache files.
    pub owner: u32,
    /// The group of the cache files.
    pub group: u32,
    /// The permission bits of the cache files.
    pub entry_mode: u32,
    /// How many older versions to keep.
    pub keep_old: u32,
}

} // verus!
