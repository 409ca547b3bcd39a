//! Precomputed membership cache built by a prior traversal of the dump.

use vstd::prelude::*;

use crate::ids::WikiStrId;

verus! {

/// Cached identifier lists from a prior search over the dump: the identifiers
/// of all known manufacturers and of all entry classes.
#[derive(Clone, Debug)]
pub struct Wikidata {
    /// Manufacturer identifiers.
    pub manufacturer_ids: Vec<WikiStrId>,
    /// All entry classes.
    pub classes: Vec<WikiStrId>,
}

impl Default for Wikidata {
    /// An empty cache: no manufacturers, no classes.
    fn default() -> (r: Self)
        ensures
            r.manufacturer_ids@.len() == 0,
            r.classes@.len() == 0,
    {
        Wikidata { manufacturer_ids: Vec::new(), classes: Vec::new() }
    }
}

} // verus!
