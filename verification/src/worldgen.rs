use vstd::prelude::*;

verus! {

/// The structures placed at points of interest.
#[derive(Clone, Copy, PartialEq, Eq, Structural, Debug)]
pub enum PoiStructure {
    ConsortVillage,
    ImpArena,
}

/// Points of interest alternate between consort villages (even positions)
/// and imp arenas (odd positions).
pub fn place_poi_structures(index: usize) -> (structure: PoiStructure)
    ensures
        structure == if index % 2 == 0 { PoiStructure::ConsortVillage } else { PoiStructure::ImpArena },
{
    if index % 2 == 0 {
        PoiStructure::ConsortVillage
    } else {
        PoiStructure::ImpArena
    }
}

} // verus!
