//! Kinds of harvestable resources on the map.
use vstd::prelude::*;

verus! {

/// What a resource tile yields.
#[derive(Debug, Clone, Copy, PartialEq, Eq, Structural)]
pub enum ResourceKind {
    Berry,
}

} // verus!
