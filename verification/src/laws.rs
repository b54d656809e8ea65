//! Laws that tie the core's operations together, proved from the same
//! relations the operations' contracts use.

use vstd::prelude::*;
use crate::error::TilemapError;
use crate::geom::Tile;
use crate::geom::TilePos;
use crate::layer::Layer;
use crate::mesh::ChunkMesh;
use crate::mesh::rebuild_post;

verus! {

/// Round trip: after a successful `set_tile`, `get_tile` at the same
/// position returns the written tile. `set_tile` reports its effect as
/// `set_tile_ok_post`, and `get_tile` returns exactly `tile_at`.
pub proof fn lemma_set_then_get(pre: Layer, post: Layer, pos: TilePos, tile: Tile)
    requires
        pre.set_tile_ok_post(post, pos, tile),
    ensures
        post.tile_at(pos.x as int, pos.y as int) == Some(tile),
{
}

/// A write outside the declared `MapSize * ChunkSize` bounds fails with
/// `OutOfBounds` and leaves the store exactly as it was.
pub proof fn lemma_out_of_bounds_write_rejected(
    pre: Layer,
    post: Layer,
    pos: TilePos,
    tile: Tile,
    r: Result<(), TilemapError>,
)
    requires
        pre.set_tile_post(post, pos, tile, r),
        !pre.settings.pos_in_bounds(pos.x as int, pos.y as int),
    ensures
        r == Err::<(), TilemapError>(TilemapError::OutOfBounds),
        post == pre,
{
}

/// Rebuilding twice in a row without intervening writes: the first
/// rebuild leaves every chunk clean, so the second finds an empty dirty
/// set, produces no batch, and changes no tile.
pub proof fn lemma_rebuild_idempotent(
    a: Layer,
    b: Layer,
    c: Layer,
    m1: Seq<ChunkMesh>,
    m2: Seq<ChunkMesh>,
)
    requires
        rebuild_post(a, b, m1),
        rebuild_post(b, c, m2),
    ensures
        b.dirty_keys().len() == 0,
        m2.len() == 0,
        forall|x: int, y: int| #[trigger] c.tile_at(x, y) == b.tile_at(x, y),
{
    b.lemma_no_dirty_keys(b.chunks@.len() as int);
}

} // verus!
