//! Names of inbounds and outbounds.

use vstd::prelude::*;

verus! {

/// The name of an inbound or an outbound. The empty tag names nothing:
/// any number of endpoints may carry it.
pub type Tag = String;

/// What a map from tags to positions says of a tag.
pub open spec fn lookup(m: Map<Seq<char>, usize>, tag: Seq<char>) -> Option<usize> {
    if m.contains_key(tag) {
        Some(m[tag])
    } else {
        None
    }
}

} // verus!
