use vstd::prelude::*;

verus! {

/// Shape `m x n x k` of a tile matmul: `m x k` times `k x n`.
#[derive(Clone, Copy, Debug, PartialEq, Eq, Structural)]
pub struct TileSize {
    pub m: u32,
    pub n: u32,
    pub k: u32,
}

impl TileSize {
    pub fn new(m: u32, n: u32, k: u32) -> (r: TileSize)
        ensures
            r == (TileSize { m, n, k }),
    {
        TileSize { m, n, k }
    }
}

} // verus!

verus! {

impl TileSize {
    /// Builds a tile size from an `(m, n, k)` triple.
    pub fn from_tuple(value: (u32, u32, u32)) -> (r: TileSize)
        ensures
            r == (TileSize { m: value.0, n: value.1, k: value.2 }),
    {
        TileSize { m: value.0, n: value.1, k: value.2 }
    }
}

/// What a kernel component needs from the cube it runs in.
#[derive(Clone, Copy, Debug, PartialEq, Eq, Structural)]
pub enum CubeDimResource {
    /// A number of units (threads).
    Units(u32),
    /// A number of planes.
    Planes(u32),
}

/// A configuration that cannot be run, with the reason.
#[derive(Debug)]
pub struct InvalidConfigError {
    pub message: String,
}

} // verus!
