//! Choosing the image home that the Hyperlight backend runs from.

use vstd::prelude::*;

verus! {

/// What a directory that may be an image home was found to hold.
#[derive(Clone, Copy, Debug, PartialEq, Eq, Structural)]
pub struct HomeProbe {
    /// A warmed snapshot that this build loads.
    pub has_snapshot: bool,
    /// The files to warm a snapshot from.
    pub has_source: bool,
}

/// Whether the backend can run from a home.
pub open spec fn is_usable(p: HomeProbe) -> bool {
    p.has_snapshot || p.has_source
}

/// The first home that the backend can run from, of those that were looked at in order.
pub fn resolve_home(probes: &Vec<HomeProbe>) -> (r: Option<usize>)
    ensures
        match r {
            Some(i) => {
                &&& i < probes@.len()
                &&& is_usable(probes@[i as int])
                &&& forall|j: int| 0 <= j < i ==> !is_usable(#[trigger] probes@[j])
            },
            None => forall|j: int| 0 <= j < probes@.len() ==> !is_usable(#[trigger] probes@[j]),
        },
{
    let mut i: usize = 0;
    while i < probes.len()
        invariant
            i <= probes@.len(),
            forall|j: int| 0 <= j < i ==> !is_usable(#[trigger] probes@[j]),
        decreases probes@.len() - i,
    {
        if probes[i].has_snapshot || probes[i].has_source {
            return Some(i);
        }
        i += 1;
    }
    None
}

/// A home can be run from unless it holds neither a snapshot nor the files to warm one from.
pub proof fn unusable_homes_hold_nothing(p: HomeProbe)
    ensures
        !is_usable(p) <==> !p.has_snapshot && !p.has_source,
{
}

} // verus!
