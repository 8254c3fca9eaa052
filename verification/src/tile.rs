//! Tile coordinates and the messages the pipeline stages pass: a fetched
//! tile and a transformed tile, each carrying the dense rank that fixes the
//! output order.

use vstd::prelude::*;

verus! {

/// A tile coordinate: zoom level, column, row.
#[derive(Clone, Copy, Debug, PartialEq, Eq, Structural)]
pub struct Tile {
    pub z: u8,
    pub x: u32,
    pub y: u32,
}

/// The deterministic total order on tiles: ascending zoom, then column,
/// then row.
pub open spec fn tile_lt(a: Tile, b: Tile) -> bool {
    ||| a.z < b.z
    ||| (a.z == b.z && a.x < b.x)
    ||| (a.z == b.z && a.x == b.x && a.y < b.y)
}

impl Tile {
    /// Whether this tile comes before `other` in the deterministic order.
    pub fn lt(&self, other: &Tile) -> (r: bool)
        ensures
            r == tile_lt(*self, *other),
    {
        self.z < other.z || (self.z == other.z && (self.x < other.x || (self.x == other.x
            && self.y < other.y)))
    }
}

/// A fetched tile: its dense rank, its coordinate, and its raw bytes.
#[derive(Debug)]
pub struct ReadTileMsg {
    pub index: usize,
    pub tile: Tile,
    pub tile_data: Vec<u8>,
}

/// A transformed tile: the same rank and coordinate, and the transformed
/// bytes.
#[derive(Debug)]
pub struct WriteTileMsg {
    pub index: usize,
    pub tile: Tile,
    pub tile_data: Vec<u8>,
}

} // verus!
