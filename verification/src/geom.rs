//! Tile positions, tiles, and per-layer settings.
//!
//! All coordinates are integers. A layer is a grid of `MapSize` chunks,
//! each chunk a grid of `ChunkSize` tiles; a tile position is therefore
//! valid when it lies below `MapSize * ChunkSize` in both axes. The texture
//! atlas is addressed by index: the atlas holds
//! `(TextureSize.width / TileSize.width) * (TextureSize.height / TileSize.height)`
//! tiles, in row-major order.

use vstd::prelude::*;

verus! {

/// Position of a tile within a layer, in tiles, unique per layer.
#[derive(Clone, Copy, Debug, PartialEq, Eq, Structural)]
pub struct TilePos {
    pub x: u32,
    pub y: u32,
}

impl TilePos {
    pub fn new(x: u32, y: u32) -> (r: TilePos)
        ensures
            r.x == x,
            r.y == y,
    {
        TilePos { x, y }
    }
}

/// Coordinate of a chunk within a layer, in chunks:
/// `ChunkCoord = floor(TilePos / ChunkSize)`.
#[derive(Clone, Copy, Debug, PartialEq, Eq, Structural)]
pub struct ChunkCoord {
    pub x: u32,
    pub y: u32,
}

/// An RGBA tint applied to one tile.
#[derive(Clone, Copy, Debug, PartialEq, Eq, Structural)]
pub struct TileColor {
    pub r: u8,
    pub g: u8,
    pub b: u8,
    pub a: u8,
}

/// One tile slot's content: a texture-atlas index, flip flags, and an
/// optional color tint.
#[derive(Clone, Copy, Debug, PartialEq, Eq)]
pub struct Tile {
    pub texture_index: u32,
    pub flip_x: bool,
    pub flip_y: bool,
    pub color: Option<TileColor>,
}

impl Tile {
    /// A tile with the given atlas index and no flags or tint.
    pub fn with_index(texture_index: u32) -> (r: Tile)
        ensures
            r.texture_index == texture_index,
            !r.flip_x,
            !r.flip_y,
            r.color is None,
    {
        Tile { texture_index, flip_x: false, flip_y: false, color: None }
    }
}

impl Default for Tile {
    /// The default tile: atlas index 0, no flags, no tint.
    fn default() -> (r: Tile)
        ensures
            r.texture_index == 0,
            !r.flip_x,
            !r.flip_y,
            r.color is None,
    {
        Tile { texture_index: 0, flip_x: false, flip_y: false, color: None }
    }
}

/// Size of a layer in chunks.
#[derive(Clone, Copy, Debug, PartialEq, Eq, Structural)]
pub struct MapSize {
    pub width: u32,
    pub height: u32,
}

/// Size of a chunk in tiles.
#[derive(Clone, Copy, Debug, PartialEq, Eq, Structural)]
pub struct ChunkSize {
    pub width: u32,
    pub height: u32,
}

/// Size of one rendered tile, in render units.
#[derive(Clone, Copy, Debug, PartialEq, Eq, Structural)]
pub struct TileSize {
    pub width: u32,
    pub height: u32,
}

/// Size of the texture atlas, in pixels. One atlas cell is `TileSize`
/// pixels, so the column count is `width / TileSize.width`.
#[derive(Clone, Copy, Debug, PartialEq, Eq, Structural)]
pub struct TextureSize {
    pub width: u32,
    pub height: u32,
}

/// Immutable per-layer settings: layer bound in chunks, chunk size in
/// tiles, rendered tile size, and atlas dimensions.
#[derive(Clone, Copy, Debug, PartialEq, Eq, Structural)]
pub struct LayerSettings {
    pub map_size: MapSize,
    pub chunk_size: ChunkSize,
    pub tile_size: TileSize,
    pub texture_size: TextureSize,
}

impl LayerSettings {
    /// Number of atlas columns.
    pub open spec fn atlas_cols(self) -> int {
        self.texture_size.width as int / self.tile_size.width as int
    }

    /// Number of atlas rows.
    pub open spec fn atlas_rows(self) -> int {
        self.texture_size.height as int / self.tile_size.height as int
    }

    /// Number of tile textures the atlas can address; a tile's
    /// `texture_index` must lie below this.
    pub open spec fn atlas_capacity(self) -> int {
        self.atlas_cols() * self.atlas_rows()
    }

    /// Width of the layer in tiles.
    pub open spec fn tiles_w(self) -> int {
        self.map_size.width as int * self.chunk_size.width as int
    }

    /// Height of the layer in tiles.
    pub open spec fn tiles_h(self) -> int {
        self.map_size.height as int * self.chunk_size.height as int
    }

    /// Number of chunk slots in the layer.
    pub open spec fn chunk_count(self) -> int {
        self.map_size.width as int * self.map_size.height as int
    }

    /// Number of tile slots in one chunk.
    pub open spec fn slots_per_chunk(self) -> int {
        self.chunk_size.width as int * self.chunk_size.height as int
    }

    /// A settings value is usable when every dimension is positive and the
    /// derived tile grid still fits machine integers.
    pub open spec fn valid(self) -> bool {
        &&& self.map_size.width >= 1
        &&& self.map_size.height >= 1
        &&& self.chunk_size.width >= 1
        &&& self.chunk_size.height >= 1
        &&& self.tile_size.width >= 1
        &&& self.tile_size.height >= 1
        &&& self.tiles_w() <= u32::MAX
        &&& self.tiles_h() <= u32::MAX
        &&& self.chunk_count() <= u32::MAX
        &&& self.slots_per_chunk() <= u32::MAX
    }

    /// Whether a tile position lies inside the layer's declared bounds.
    pub open spec fn pos_in_bounds(self, x: int, y: int) -> bool {
        0 <= x < self.tiles_w() && 0 <= y < self.tiles_h()
    }

    pub fn new(
        map_size: MapSize,
        chunk_size: ChunkSize,
        tile_size: TileSize,
        texture_size: TextureSize,
    ) -> (r: LayerSettings)
        ensures
            r.map_size == map_size,
            r.chunk_size == chunk_size,
            r.tile_size == tile_size,
            r.texture_size == texture_size,
    {
        LayerSettings { map_size, chunk_size, tile_size, texture_size }
    }

    /// Runtime check of `valid`, for callers configured from outside data.
    pub fn is_valid(&self) -> (b: bool)
        ensures
            b == self.valid(),
    {
        let s = *self;
        s.map_size.width >= 1 && s.map_size.height >= 1 && s.chunk_size.width >= 1
            && s.chunk_size.height >= 1 && s.tile_size.width >= 1 && s.tile_size.height >= 1
            && crate::math::mul_u32(s.map_size.width, s.chunk_size.width) <= u32::MAX as u64
            && crate::math::mul_u32(s.map_size.height, s.chunk_size.height) <= u32::MAX as u64
            && crate::math::mul_u32(s.map_size.width, s.map_size.height) <= u32::MAX as u64
            && crate::math::mul_u32(s.chunk_size.width, s.chunk_size.height) <= u32::MAX as u64
    }
}

} // verus!
