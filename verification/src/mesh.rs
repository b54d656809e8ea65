//! The mesh builder: turns dirty chunks into renderable quad batches.
//!
//! Every occupied tile slot of a dirty chunk becomes one axis-aligned quad
//! at `tile_pos * TileSize`, with a texture rectangle derived from the
//! tile's atlas index. Geometry is kept in integers: positions and sizes
//! in render units, texture rectangles in atlas pixels. The rendering host
//! divides the texture rectangle by the atlas dimensions to reach the unit
//! interval. Within a chunk, quads appear row-major by local slot; empty
//! slots produce no geometry.

use vstd::prelude::*;
use crate::geom::ChunkCoord;
use crate::geom::LayerSettings;
use crate::geom::Tile;
use crate::geom::TileColor;
use crate::layer::Chunk;
use crate::layer::Layer;
use crate::layer::key_coord;
use crate::layer::lemma_chunk_key_bounds;
use crate::math::lemma_div_bound;
use crate::math::mul_u32;

verus! {

/// A rectangle of the texture atlas, in pixels.
#[derive(Clone, Copy, Debug, PartialEq, Eq, Structural)]
pub struct UvRect {
    pub u_min: u64,
    pub v_min: u64,
    pub u_max: u64,
    pub v_max: u64,
}

/// One tile's quad: position and size in render units, texture rectangle
/// in atlas pixels, plus the tile's flip flags and tint.
#[derive(Clone, Copy, Debug, PartialEq, Eq)]
pub struct TileQuad {
    pub x: u64,
    pub y: u64,
    pub width: u64,
    pub height: u64,
    pub uv: UvRect,
    pub flip_x: bool,
    pub flip_y: bool,
    pub color: Option<TileColor>,
}

/// The rebuilt batch for one chunk.
pub struct ChunkMesh {
    pub coord: ChunkCoord,
    pub quads: Vec<TileQuad>,
}

/// The quad the mesh builder emits for the tile at tile coordinates
/// `(tx, ty)`.
pub open spec fn spec_quad(s: LayerSettings, tx: int, ty: int, tile: Tile) -> TileQuad {
    let tw = s.tile_size.width as int;
    let th = s.tile_size.height as int;
    let col = tile.texture_index as int % s.atlas_cols();
    let row = tile.texture_index as int / s.atlas_cols();
    TileQuad {
        x: (tx * tw) as u64,
        y: (ty * th) as u64,
        width: tw as u64,
        height: th as u64,
        uv: UvRect {
            u_min: (col * tw) as u64,
            v_min: (row * th) as u64,
            u_max: (col * tw + tw) as u64,
            v_max: (row * th + th) as u64,
        },
        flip_x: tile.flip_x,
        flip_y: tile.flip_y,
        color: tile.color,
    }
}

/// The x tile coordinate of local slot `i` of the chunk at `coord`.
pub open spec fn slot_tile_x(s: LayerSettings, coord: ChunkCoord, i: int) -> int {
    coord.x as int * s.chunk_size.width as int + i % (s.chunk_size.width as int)
}

/// The y tile coordinate of local slot `i` of the chunk at `coord`.
pub open spec fn slot_tile_y(s: LayerSettings, coord: ChunkCoord, i: int) -> int {
    coord.y as int * s.chunk_size.height as int + i / (s.chunk_size.width as int)
}

/// The quads emitted for the first `n` slots of a chunk, row-major,
/// skipping empty slots.
pub open spec fn chunk_quads_upto(
    s: LayerSettings,
    coord: ChunkCoord,
    tiles: Seq<Option<Tile>>,
    n: int,
) -> Seq<TileQuad>
    decreases n,
{
    if n <= 0 {
        Seq::empty()
    } else {
        let rest = chunk_quads_upto(s, coord, tiles, n - 1);
        match tiles[n - 1] {
            Some(t) => rest.push(
                spec_quad(s, slot_tile_x(s, coord, n - 1), slot_tile_y(s, coord, n - 1), t),
            ),
            None => rest,
        }
    }
}

/// All quads emitted for a chunk.
pub open spec fn chunk_quads(s: LayerSettings, coord: ChunkCoord, tiles: Seq<Option<Tile>>) -> Seq<
    TileQuad,
> {
    chunk_quads_upto(s, coord, tiles, tiles.len() as int)
}

/// What `rebuild_dirty` guarantees: tiles and chunk allocation are
/// untouched, every dirty flag is cleared, and the batches list exactly
/// the chunks that were dirty, in ascending row-major chunk order, each
/// with the quads of its tiles.
pub open spec fn rebuild_post(pre: Layer, post: Layer, meshes: Seq<ChunkMesh>) -> bool {
    &&& post.settings == pre.settings
    &&& post.chunks@.len() == pre.chunks@.len()
    &&& forall|x: int, y: int| #[trigger] post.tile_at(x, y) == pre.tile_at(x, y)
    &&& forall|k: int| !post.chunk_dirty(k)
    &&& forall|k: int| #[trigger] post.chunk_allocated(k) == pre.chunk_allocated(k)
    &&& meshes.len() == pre.dirty_keys().len()
    &&& forall|i: int|
        0 <= i < meshes.len() ==> {
            let k = pre.dirty_keys()[i];
            &&& (#[trigger] meshes[i]).coord == key_coord(pre.settings, k)
            &&& pre.chunk_allocated(k)
            &&& meshes[i].quads@ == chunk_quads(
                pre.settings,
                key_coord(pre.settings, k),
                pre.chunks@[k]->0.tiles@,
            )
        }
}

/// Rebuild every dirty chunk of the layer into a quad batch and clear its
/// dirty flag; clean chunks and all tile data are left untouched. The
/// batches come in ascending row-major chunk order.
pub fn rebuild_dirty(layer: &mut Layer) -> (r: Vec<ChunkMesh>)
    requires
        old(layer).wf(),
    ensures
        final(layer).wf(),
        rebuild_post(*old(layer), *final(layer), r@),
{
    let n: usize = layer.chunks.len();
    let mut meshes: Vec<ChunkMesh> = Vec::new();
    let mut k: usize = 0;
    while k < n
        invariant
            layer.wf(),
            layer.settings == old(layer).settings,
            n == layer.chunks@.len(),
            old(layer).chunks@.len() == n,
            k <= n,
            forall|x: int, y: int| #[trigger] layer.tile_at(x, y) == old(layer).tile_at(x, y),
            forall|j: int| k <= j < n ==> layer.chunks@[j] == old(layer).chunks@[j],
            forall|j: int| 0 <= j < k ==> !layer.chunk_dirty(j),
            forall|j: int| #[trigger] layer.chunk_allocated(j) == old(layer).chunk_allocated(j),
            meshes@.len() == old(layer).dirty_keys_upto(k as int).len(),
            forall|i: int|
                0 <= i < meshes@.len() ==> {
                    let kk = old(layer).dirty_keys_upto(k as int)[i];
                    &&& (#[trigger] meshes@[i]).coord == key_coord(old(layer).settings, kk)
                    &&& old(layer).chunk_allocated(kk)
                    &&& meshes@[i].quads@ == chunk_quads(
                        old(layer).settings,
                        key_coord(old(layer).settings, kk),
                        old(layer).chunks@[kk]->0.tiles@,
                    )
                },
        decreases n - k,
    {
        let ghost pre_iter = *layer;
        let is_dirty: bool = match &layer.chunks[k] {
            Some(c) => c.dirty,
            None => false,
        };
        proof {
            assert(is_dirty == old(layer).chunk_dirty(k as int));
        }
        if is_dirty {
            let mw: u32 = layer.settings.map_size.width;
            let cx: u32 = (k as u64 % (mw as u64)) as u32;
            let cy: u32 = (k as u64 / (mw as u64)) as u32;
            proof {
                let mwi = mw as int;
                assert(0 <= (k as int) % mwi < mwi) by (nonlinear_arith)
                    requires
                        mwi >= 1,
                        k >= 0,
                ;
                assert((k as int) < (layer.settings.map_size.height as int) * mwi)
                    by (nonlinear_arith)
                    requires
                        (k as int) < mwi * (layer.settings.map_size.height as int),
                        mwi >= 1,
                ;
                lemma_div_bound(k as int, mwi, layer.settings.map_size.height as int);
            }
            let coord = ChunkCoord { x: cx, y: cy };
            proof {
                assert(coord == key_coord(layer.settings, k as int));
            }
            let quads: Vec<TileQuad> = match &layer.chunks[k] {
                Some(c) => build_chunk_quads(&layer.settings, coord, c),
                None => Vec::new(),
            };
            meshes.push(ChunkMesh { coord, quads });
            match &mut layer.chunks[k] {
                Some(c) => {
                    c.dirty = false;
                },
                None => {},
            }
            proof {
                assert(layer.chunks@ =~= pre_iter.chunks@.update(
                    k as int,
                    layer.chunks@[k as int],
                ));
                assert forall|x: int, y: int| #[trigger] layer.tile_at(x, y) == pre_iter.tile_at(
                    x,
                    y,
                ) by {
                    if layer.settings.pos_in_bounds(x, y) {
                        lemma_chunk_key_bounds(layer.settings, x, y);
                    }
                }
            }
        }
        k = k + 1;
        proof {
            assert forall|j: int| 0 <= j < k implies !layer.chunk_dirty(j) by {
                assert(pre_iter.chunk_dirty(j) == old(layer).chunk_dirty(j) || j < k - 1);
                if j == k - 1 {
                    if !is_dirty {
                        assert(pre_iter.chunks@[j] == old(layer).chunks@[j]);
                        assert(!pre_iter.chunk_dirty(j));
                    }
                } else {
                    assert(!pre_iter.chunk_dirty(j));
                    assert(layer.chunks@[j] == pre_iter.chunks@[j]);
                }
            }
            assert forall|j: int| #[trigger] layer.chunk_allocated(j) == old(
                layer,
            ).chunk_allocated(j) by {
                assert(pre_iter.chunk_allocated(j) == old(layer).chunk_allocated(j));
                if 0 <= j < n && j != k - 1 {
                    assert(layer.chunks@[j] == pre_iter.chunks@[j]);
                }
            }
            let keys_prev = old(layer).dirty_keys_upto(k as int - 1);
            let keys_cur = old(layer).dirty_keys_upto(k as int);
            if old(layer).chunk_dirty(k as int - 1) {
                assert(keys_cur == keys_prev.push(k as int - 1));
            } else {
                assert(keys_cur == keys_prev);
            }
        }
    }
    proof {
        assert(old(layer).dirty_keys_upto(n as int) == old(layer).dirty_keys());
        assert forall|j: int| !layer.chunk_dirty(j) by {
            if 0 <= j < n {
            }
        }
    }
    meshes
}

/// Build the quad batch for one chunk.
fn build_chunk_quads(s: &LayerSettings, coord: ChunkCoord, c: &Chunk) -> (r: Vec<TileQuad>)
    requires
        s.valid(),
        c.wf(*s),
        coord.x < s.map_size.width,
        coord.y < s.map_size.height,
    ensures
        r@ == chunk_quads(*s, coord, c.tiles@),
{
    let cw: u32 = s.chunk_size.width;
    let ch: u32 = s.chunk_size.height;
    let tw: u32 = s.tile_size.width;
    let th: u32 = s.tile_size.height;
    let n: usize = c.tiles.len();
    let mut r: Vec<TileQuad> = Vec::new();
    let mut i: usize = 0;
    while i < n
        invariant
            s.valid(),
            c.wf(*s),
            coord.x < s.map_size.width,
            coord.y < s.map_size.height,
            cw == s.chunk_size.width,
            ch == s.chunk_size.height,
            tw == s.tile_size.width,
            th == s.tile_size.height,
            n == c.tiles@.len(),
            i <= n,
            r@ == chunk_quads_upto(*s, coord, c.tiles@, i as int),
        decreases n - i,
    {
        let slot: Option<Tile> = c.tiles[i];
        match slot {
            Some(t) => {
                let iu: u64 = i as u64;
                let lx: u64 = iu % (cw as u64);
                let ly: u64 = iu / (cw as u64);
                proof {
                    assert(0 <= (i as int) % (cw as int) < (cw as int)) by (nonlinear_arith)
                        requires
                            cw >= 1,
                            i >= 0,
                    ;
                    assert((i as int) < (ch as int) * (cw as int)) by (nonlinear_arith)
                        requires
                            (i as int) < (cw as int) * (ch as int),
                    ;
                    lemma_div_bound(i as int, cw as int, ch as int);
                    assert((coord.x as int) * (cw as int) + (lx as int) < (
                    s.map_size.width as int) * (cw as int)) by (nonlinear_arith)
                        requires
                            coord.x < s.map_size.width,
                            (lx as int) < (cw as int),
                            cw >= 1,
                    ;
                    assert((coord.y as int) * (ch as int) + (ly as int) < (
                    s.map_size.height as int) * (ch as int)) by (nonlinear_arith)
                        requires
                            coord.y < s.map_size.height,
                            (ly as int) < (ch as int),
                            ch >= 1,
                    ;
                }
                let tx: u64 = mul_u32(coord.x, cw) + lx;
                let ty: u64 = mul_u32(coord.y, ch) + ly;
                let x64: u64 = mul_u32(tx as u32, tw);
                let y64: u64 = mul_u32(ty as u32, th);
                let cols: u32 = s.texture_size.width / tw;
                proof {
                    assert(t.texture_index < s.atlas_capacity());
                    assert(s.atlas_cols() >= 1) by (nonlinear_arith)
                        requires
                            s.atlas_cols() * s.atlas_rows() > 0,
                            s.atlas_cols() >= 0,
                            s.atlas_rows() >= 0,
                    ;
                    assert(s.atlas_cols() >= 0 && s.atlas_rows() >= 0) by (nonlinear_arith)
                        requires
                            s.atlas_cols() == s.texture_size.width as int / (
                            s.tile_size.width as int),
                            s.atlas_rows() == s.texture_size.height as int / (
                            s.tile_size.height as int),
                            s.tile_size.width >= 1,
                            s.tile_size.height >= 1,
                            s.texture_size.width >= 0,
                            s.texture_size.height >= 0,
                    ;
                }
                let col: u32 = t.texture_index % cols;
                let row: u32 = t.texture_index / cols;
                let u_min: u64 = mul_u32(col, tw);
                let v_min: u64 = mul_u32(row, th);
                proof {
                    assert(u_min + tw <= u64::MAX && v_min + th <= u64::MAX) by (nonlinear_arith)
                        requires
                            u_min == (col as int) * (tw as int),
                            v_min == (row as int) * (th as int),
                            col <= u32::MAX,
                            row <= u32::MAX,
                            tw <= u32::MAX,
                            th <= u32::MAX,
                    ;
                }
                let quad = TileQuad {
                    x: x64,
                    y: y64,
                    width: tw as u64,
                    height: th as u64,
                    uv: UvRect {
                        u_min,
                        v_min,
                        u_max: u_min + (tw as u64),
                        v_max: v_min + (th as u64),
                    },
                    flip_x: t.flip_x,
                    flip_y: t.flip_y,
                    color: t.color,
                };
                proof {
                    assert(quad == spec_quad(
                        *s,
                        slot_tile_x(*s, coord, i as int),
                        slot_tile_y(*s, coord, i as int),
                        t,
                    ));
                }
                r.push(quad);
            },
            None => {},
        }
        i = i + 1;
    }
    r
}

} // verus!
