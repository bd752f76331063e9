use vstd::prelude::*;

verus! {

/// Address of one tile inside one zoom level's grid.
#[derive(PartialEq, Eq, Structural, Hash, Debug, Clone, Copy)]
pub struct VectorTileID {
    pub x: u32,
    pub y: u32,
    pub z: u32,
}

} // verus!
