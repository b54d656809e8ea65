//! Error values returned by the tilemap core.

use vstd::prelude::*;

verus! {

/// Every failure of the core is one of these recoverable values; no
/// operation panics on malformed input.
#[derive(Clone, Copy, Debug, PartialEq, Eq)]
pub enum TilemapError {
    /// A tile position lies outside the layer's declared bounds
    /// (`MapSize * ChunkSize` tiles in each axis).
    OutOfBounds,
    /// A layer id was registered twice.
    DuplicateLayer,
    /// A layer id is not registered.
    UnknownLayer,
    /// A texture-atlas index exceeds the atlas capacity derived from the
    /// texture and tile sizes.
    InvalidTextureIndex,
    /// An attempt to change a layer's settings after tiles were written.
    LayerSettingsImmutable,
}

} // verus!
