//! Towns of the game world.
use vstd::prelude::*;

verus! {

/// The number that identifies a town.
#[derive(Clone, Copy, PartialEq, Eq, Hash, Debug, Structural)]
pub struct TownId(pub(crate) u32);

/// A town: its identifier and, if it has one, its display name.
#[derive(Clone, Debug)]
pub struct Town {
    id: String,
    name: Option<String>,
}

} // verus!
