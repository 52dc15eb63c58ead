//! Model versions and replica identifiers.
use vstd::prelude::*;

verus! {

/// A model version. Later versions have larger numbers.
#[derive(Clone, Copy, Debug, PartialEq, Eq, PartialOrd, Ord, Structural)]
pub struct ModelVersion(pub u64);

/// The identifier of a node in the replica set.
#[derive(Clone, Copy, Debug, PartialEq, Eq, Hash, Structural)]
pub struct NodeId(pub u32);

/// The later of two versions.
pub open spec fn later(a: ModelVersion, b: ModelVersion) -> ModelVersion {
    if b.0 > a.0 {
        b
    } else {
        a
    }
}

} // verus!
