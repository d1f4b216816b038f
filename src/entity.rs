use vstd::prelude::*;

verus! {

/// An entity identifier: the index of its storage slot and the generation
/// that slot had when the entity was created.
#[derive(Clone, Copy, Debug, PartialEq, Eq, Structural)]
pub struct Entity {
    pub index: u32,
    pub generation: u32,
}

impl Entity {
    pub fn new(index: u32, generation: u32) -> (r: Entity)
        ensures
            r.index == index,
            r.generation == generation,
    {
        Entity { index, generation }
    }
}

} // verus!
