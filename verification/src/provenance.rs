//! Crucible's provenance marker.

use vstd::prelude::*;

verus! {

/// Marker type identifying facts emitted by crucible.
#[derive(Debug, Clone, Copy, PartialEq, Eq, Hash)]
pub struct Crucible;

impl Crucible {
    /// The stable provenance string of every crucible fact.
    pub fn as_str(&self) -> (s: &'static str)
        ensures
            s@ == "crucible"@,
    {
        "crucible"
    }
}

/// Canonical provenance constant for crucible.
pub const CRUCIBLE_PROVENANCE: Crucible = Crucible;

} // verus!
