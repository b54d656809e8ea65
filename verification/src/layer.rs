//! The chunk store: one layer's tiles, held in lazily created chunks.
//!
//! A layer owns one slot per chunk coordinate, `None` until the first tile
//! write touches that chunk. Each chunk owns a dense row-major array of
//! tile slots and a dirty flag; the flag is set by tile writes and cleared
//! only by the mesh builder after a successful rebuild.

use vstd::prelude::*;
use crate::error::TilemapError;
use crate::geom::ChunkCoord;
use crate::geom::LayerSettings;
use crate::geom::Tile;
use crate::geom::TilePos;
use crate::math::lemma_decompose_unique;
use crate::math::lemma_div_bound;
use crate::math::mul_u32;

verus! {

/// Index of the chunk slot that holds the tile at `(x, y)`: chunks are
/// numbered row-major over the chunk grid.
pub open spec fn chunk_key(s: LayerSettings, x: int, y: int) -> int {
    (y / s.chunk_size.height as int) * s.map_size.width as int + x / s.chunk_size.width as int
}

/// Index of the tile slot within its chunk: slots are numbered row-major
/// over the chunk's tile grid.
pub open spec fn slot_index(s: LayerSettings, x: int, y: int) -> int {
    (y % s.chunk_size.height as int) * s.chunk_size.width as int + x % s.chunk_size.width as int
}

/// The chunk coordinate stored at chunk slot `k`.
pub open spec fn key_coord(s: LayerSettings, k: int) -> ChunkCoord {
    ChunkCoord {
        x: (k % s.map_size.width as int) as u32,
        y: (k / s.map_size.width as int) as u32,
    }
}

/// For an in-bounds tile position, chunk slot and tile slot are in range,
/// as are the chunk coordinate's components.
pub proof fn lemma_chunk_key_bounds(s: LayerSettings, x: int, y: int)
    requires
        s.valid(),
        s.pos_in_bounds(x, y),
    ensures
        0 <= x / (s.chunk_size.width as int) < (s.map_size.width as int),
        0 <= y / (s.chunk_size.height as int) < (s.map_size.height as int),
        0 <= x % (s.chunk_size.width as int) < (s.chunk_size.width as int),
        0 <= y % (s.chunk_size.height as int) < (s.chunk_size.height as int),
        0 <= chunk_key(s, x, y) < s.chunk_count(),
        0 <= slot_index(s, x, y) < s.slots_per_chunk(),
{
    let cw = s.chunk_size.width as int;
    let ch = s.chunk_size.height as int;
    let mw = s.map_size.width as int;
    let mh = s.map_size.height as int;
    lemma_div_bound(x, cw, mw);
    lemma_div_bound(y, ch, mh);
    assert(0 <= x % cw < cw) by (nonlinear_arith)
        requires
            cw >= 1,
            x >= 0,
    ;
    assert(0 <= y % ch < ch) by (nonlinear_arith)
        requires
            ch >= 1,
            y >= 0,
    ;
    assert((y / ch) * mw + x / cw < mh * mw) by (nonlinear_arith)
        requires
            0 <= y / ch < mh,
            0 <= x / cw < mw,
            mw >= 1,
    ;
    assert(0 <= (y / ch) * mw) by (nonlinear_arith)
        requires
            0 <= y / ch,
            mw >= 1,
    ;
    assert((y % ch) * cw + x % cw < ch * cw) by (nonlinear_arith)
        requires
            0 <= y % ch < ch,
            0 <= x % cw < cw,
            cw >= 1,
    ;
    assert(0 <= (y % ch) * cw) by (nonlinear_arith)
        requires
            0 <= y % ch,
            cw >= 1,
    ;
}

/// Two in-bounds tile positions with the same chunk slot and the same
/// tile slot are the same position.
pub proof fn lemma_pos_unique(s: LayerSettings, x1: int, y1: int, x2: int, y2: int)
    requires
        s.valid(),
        s.pos_in_bounds(x1, y1),
        s.pos_in_bounds(x2, y2),
        chunk_key(s, x1, y1) == chunk_key(s, x2, y2),
        slot_index(s, x1, y1) == slot_index(s, x2, y2),
    ensures
        x1 == x2,
        y1 == y2,
{
    let cw = s.chunk_size.width as int;
    let ch = s.chunk_size.height as int;
    let mw = s.map_size.width as int;
    lemma_chunk_key_bounds(s, x1, y1);
    lemma_chunk_key_bounds(s, x2, y2);
    lemma_decompose_unique(mw, y1 / ch, x1 / cw, y2 / ch, x2 / cw);
    lemma_decompose_unique(cw, y1 % ch, x1 % cw, y2 % ch, x2 % cw);
    vstd::arithmetic::div_mod::lemma_fundamental_div_mod(x1, cw);
    vstd::arithmetic::div_mod::lemma_fundamental_div_mod(x2, cw);
    vstd::arithmetic::div_mod::lemma_fundamental_div_mod(y1, ch);
    vstd::arithmetic::div_mod::lemma_fundamental_div_mod(y2, ch);
    assert(x1 == x2) by (nonlinear_arith)
        requires
            x1 == cw * (x1 / cw) + x1 % cw,
            x2 == cw * (x2 / cw) + x2 % cw,
            x1 / cw == x2 / cw,
            x1 % cw == x2 % cw,
    ;
    assert(y1 == y2) by (nonlinear_arith)
        requires
            y1 == ch * (y1 / ch) + y1 % ch,
            y2 == ch * (y2 / ch) + y2 % ch,
            y1 / ch == y2 / ch,
            y1 % ch == y2 % ch,
    ;
}

/// A fixed-size block of tile slots, plus the dirty flag consumed by the
/// mesh builder.
pub struct Chunk {
    /// Row-major tile slots; `None` marks a slot that was never written.
    pub tiles: Vec<Option<Tile>>,
    /// Whether this chunk changed since the last mesh rebuild.
    pub dirty: bool,
}

impl Chunk {
    /// A chunk is well formed for its layer's settings when it has exactly
    /// one slot per tile and every written tile fits the atlas.
    pub open spec fn wf(self, s: LayerSettings) -> bool {
        &&& self.tiles@.len() == s.slots_per_chunk()
        &&& forall|i: int|
            0 <= i < self.tiles@.len() ==> ((#[trigger] self.tiles@[i]) matches Some(t)
                ==> t.texture_index < s.atlas_capacity())
    }

    /// A fresh chunk: every slot empty, not dirty.
    pub fn new(s: &LayerSettings) -> (c: Chunk)
        requires
            s.valid(),
        ensures
            c.wf(*s),
            c.tiles@.len() == s.slots_per_chunk(),
            forall|i: int| 0 <= i < c.tiles@.len() ==> c.tiles@[i] is None,
            !c.dirty,
    {
        let total: u64 = mul_u32(s.chunk_size.width, s.chunk_size.height);
        let n: usize = total as usize;
        let mut tiles: Vec<Option<Tile>> = Vec::new();
        while tiles.len() < n
            invariant
                n as int == s.slots_per_chunk(),
                tiles@.len() <= n,
                forall|i: int| 0 <= i < tiles@.len() ==> tiles@[i] is None,
            decreases n - tiles.len(),
        {
            tiles.push(None);
        }
        Chunk { tiles, dirty: false }
    }
}

/// One layer of the map: immutable settings plus one lazily filled chunk
/// slot per chunk coordinate.
pub struct Layer {
    /// The layer's immutable settings.
    pub settings: LayerSettings,
    /// One slot per chunk coordinate, row-major; `None` until the first
    /// write into that chunk.
    pub chunks: Vec<Option<Chunk>>,
}

impl Layer {
    /// Internal invariant: valid settings, one chunk slot per chunk
    /// coordinate, and every allocated chunk well formed.
    pub open spec fn wf(self) -> bool {
        &&& self.settings.valid()
        &&& self.chunks@.len() == self.settings.chunk_count()
        &&& forall|k: int|
            0 <= k < self.chunks@.len() ==> ((#[trigger] self.chunks@[k]) matches Some(c)
                ==> c.wf(self.settings))
    }

    /// Whether the chunk at slot `k` has been created.
    pub open spec fn chunk_allocated(self, k: int) -> bool {
        0 <= k < self.chunks@.len() && self.chunks@[k] is Some
    }

    /// Whether the chunk at slot `k` changed since the last rebuild.
    pub open spec fn chunk_dirty(self, k: int) -> bool {
        self.chunk_allocated(k) && self.chunks@[k]->0.dirty
    }

    /// Whether any chunk has been created, i.e. any tile was ever written.
    pub open spec fn any_chunk_allocated(self) -> bool {
        exists|k: int| self.chunk_allocated(k)
    }

    /// The tile stored at `(x, y)`: `None` outside the bounds, in a chunk
    /// never written, or in a slot never written.
    pub open spec fn tile_at(self, x: int, y: int) -> Option<Tile> {
        if self.settings.pos_in_bounds(x, y) {
            match self.chunks@[chunk_key(self.settings, x, y)] {
                Some(c) => c.tiles@[slot_index(self.settings, x, y)],
                None => None,
            }
        } else {
            None
        }
    }

    /// How a successful `set_tile` changes the layer: the written position
    /// now holds the tile, its chunk is dirty, and nothing else moved.
    pub open spec fn set_tile_ok_post(self, post: Layer, pos: TilePos, tile: Tile) -> bool {
        &&& post.settings == self.settings
        &&& post.tile_at(pos.x as int, pos.y as int) == Some(tile)
        &&& forall|x: int, y: int|
            !(x == pos.x as int && y == pos.y as int) ==> #[trigger] post.tile_at(x, y)
                == self.tile_at(x, y)
        &&& post.chunk_dirty(chunk_key(self.settings, pos.x as int, pos.y as int))
        &&& forall|k: int|
            k != chunk_key(self.settings, pos.x as int, pos.y as int)
                ==> #[trigger] post.chunk_dirty(k) == self.chunk_dirty(k)
        &&& forall|k: int|
            k != chunk_key(self.settings, pos.x as int, pos.y as int)
                ==> #[trigger] post.chunk_allocated(k) == self.chunk_allocated(k)
        &&& post.chunk_allocated(chunk_key(self.settings, pos.x as int, pos.y as int))
    }

    /// The full contract of `set_tile`: success exactly on an in-bounds
    /// position and an index the atlas can address; each failure names its
    /// cause and leaves the layer unchanged.
    pub open spec fn set_tile_post(
        self,
        post: Layer,
        pos: TilePos,
        tile: Tile,
        r: Result<(), TilemapError>,
    ) -> bool {
        match r {
            Ok(_) => {
                &&& self.settings.pos_in_bounds(pos.x as int, pos.y as int)
                &&& tile.texture_index < self.settings.atlas_capacity()
                &&& self.set_tile_ok_post(post, pos, tile)
            },
            Err(e) => {
                &&& post == self
                &&& (e == TilemapError::OutOfBounds <==> !self.settings.pos_in_bounds(
                    pos.x as int,
                    pos.y as int,
                ))
                &&& (e == TilemapError::InvalidTextureIndex <==> self.settings.pos_in_bounds(
                    pos.x as int,
                    pos.y as int,
                ) && tile.texture_index >= self.settings.atlas_capacity())
                &&& (e == TilemapError::OutOfBounds || e == TilemapError::InvalidTextureIndex)
            },
        }
    }

    /// Write `tile` at `pos`, creating the chunk on first touch and
    /// marking it dirty. Fails with `OutOfBounds` outside the layer's
    /// declared bounds and with `InvalidTextureIndex` when the atlas
    /// cannot address `tile.texture_index`; failures leave the layer
    /// unchanged.
    pub fn set_tile(&mut self, pos: TilePos, tile: Tile) -> (r: Result<(), TilemapError>)
        requires
            old(self).wf(),
        ensures
            final(self).wf(),
            old(self).set_tile_post(*final(self), pos, tile, r),
    {
        let s = self.settings;
        let tiles_w: u64 = mul_u32(s.map_size.width, s.chunk_size.width);
        let tiles_h: u64 = mul_u32(s.map_size.height, s.chunk_size.height);
        if !((pos.x as u64) < tiles_w && (pos.y as u64) < tiles_h) {
            return Err(TilemapError::OutOfBounds);
        }
        let cols: u32 = s.texture_size.width / s.tile_size.width;
        let rows: u32 = s.texture_size.height / s.tile_size.height;
        let capacity: u64 = mul_u32(cols, rows);
        if (tile.texture_index as u64) >= capacity {
            return Err(TilemapError::InvalidTextureIndex);
        }
        let cx: u32 = pos.x / s.chunk_size.width;
        let cy: u32 = pos.y / s.chunk_size.height;
        let lx: u32 = pos.x % s.chunk_size.width;
        let ly: u32 = pos.y % s.chunk_size.height;
        proof {
            lemma_chunk_key_bounds(s, pos.x as int, pos.y as int);
        }
        let key_hi: u64 = mul_u32(cy, s.map_size.width);
        proof {
            assert(key_hi + cx < s.chunk_count()) by (nonlinear_arith)
                requires
                    key_hi == (cy as int) * (s.map_size.width as int),
                    cy < s.map_size.height,
                    cx < s.map_size.width,
                    s.map_size.width >= 1,
                    s.chunk_count() == (s.map_size.width as int) * (s.map_size.height as int),
            ;
        }
        let k: usize = (key_hi + (cx as u64)) as usize;
        let slot_hi: u64 = mul_u32(ly, s.chunk_size.width);
        proof {
            assert(slot_hi + lx < s.slots_per_chunk()) by (nonlinear_arith)
                requires
                    slot_hi == (ly as int) * (s.chunk_size.width as int),
                    ly < s.chunk_size.height,
                    lx < s.chunk_size.width,
                    s.chunk_size.width >= 1,
                    s.slots_per_chunk() == (s.chunk_size.width as int) * (
                    s.chunk_size.height as int),
            ;
        }
        let slot: usize = (slot_hi + (lx as u64)) as usize;
        let ghost kk = chunk_key(s, pos.x as int, pos.y as int);
        let ghost ss = slot_index(s, pos.x as int, pos.y as int);
        assert(k as int == kk);
        assert(slot as int == ss);
        let mut taken: Option<Chunk> = None;
        core::mem::swap(&mut self.chunks[k], &mut taken);
        let mut c: Chunk = match taken {
            Some(c0) => c0,
            None => Chunk::new(&s),
        };
        c.tiles[slot] = Some(tile);
        c.dirty = true;
        self.chunks[k] = Some(c);
        proof {
            let pre = *old(self);
            let post = *self;
            assert(post.chunks@ =~= pre.chunks@.update(kk, Some(c)));
            assert forall|x: int, y: int|
                !(x == pos.x as int && y == pos.y as int) implies #[trigger] post.tile_at(x, y)
                == pre.tile_at(x, y) by {
                if s.pos_in_bounds(x, y) {
                    lemma_chunk_key_bounds(s, x, y);
                    let k2 = chunk_key(s, x, y);
                    let s2 = slot_index(s, x, y);
                    if k2 == kk {
                        if s2 == ss {
                            lemma_pos_unique(s, x, y, pos.x as int, pos.y as int);
                        }
                    }
                }
            }
        }
        Ok(())
    }

    /// Read the tile at `pos`: `None` outside the bounds or where nothing
    /// was ever written.
    pub fn get_tile(&self, pos: TilePos) -> (r: Option<Tile>)
        requires
            self.wf(),
        ensures
            r == self.tile_at(pos.x as int, pos.y as int),
    {
        let s = self.settings;
        let tiles_w: u64 = mul_u32(s.map_size.width, s.chunk_size.width);
        let tiles_h: u64 = mul_u32(s.map_size.height, s.chunk_size.height);
        if !((pos.x as u64) < tiles_w && (pos.y as u64) < tiles_h) {
            return None;
        }
        proof {
            lemma_chunk_key_bounds(s, pos.x as int, pos.y as int);
        }
        let cx: u32 = pos.x / s.chunk_size.width;
        let cy: u32 = pos.y / s.chunk_size.height;
        let lx: u32 = pos.x % s.chunk_size.width;
        let ly: u32 = pos.y % s.chunk_size.height;
        let k: usize = (mul_u32(cy, s.map_size.width) + (cx as u64)) as usize;
        let slot: usize = (mul_u32(ly, s.chunk_size.width) + (lx as u64)) as usize;
        proof {
            assert(k as int == chunk_key(s, pos.x as int, pos.y as int));
            assert(slot as int == slot_index(s, pos.x as int, pos.y as int));
        }
        match &self.chunks[k] {
            Some(c) => c.tiles[slot],
            None => None,
        }
    }

    /// The chunk slots below `n` that are dirty, in ascending order.
    pub open spec fn dirty_keys_upto(self, n: int) -> Seq<int>
        decreases n,
    {
        if n <= 0 {
            Seq::empty()
        } else if self.chunk_dirty(n - 1) {
            self.dirty_keys_upto(n - 1).push(n - 1)
        } else {
            self.dirty_keys_upto(n - 1)
        }
    }

    /// All dirty chunk slots, in ascending order.
    pub open spec fn dirty_keys(self) -> Seq<int> {
        self.dirty_keys_upto(self.chunks@.len() as int)
    }

    /// Every entry of `dirty_keys_upto(n)` is a dirty slot below `n`, and
    /// the entries are sorted strictly ascending.
    pub proof fn lemma_dirty_keys_upto_range(self, n: int)
        ensures
            forall|i: int|
                0 <= i < self.dirty_keys_upto(n).len() ==> self.chunk_dirty(
                    #[trigger] self.dirty_keys_upto(n)[i],
                ) && self.dirty_keys_upto(n)[i] < n,
            forall|i: int, j: int|
                0 <= i < j < self.dirty_keys_upto(n).len() ==> self.dirty_keys_upto(n)[i]
                    < self.dirty_keys_upto(n)[j],
        decreases n,
    {
        if n > 0 {
            self.lemma_dirty_keys_upto_range(n - 1);
            let prev = self.dirty_keys_upto(n - 1);
            let cur = self.dirty_keys_upto(n);
            if self.chunk_dirty(n - 1) {
                assert(cur == prev.push(n - 1));
                assert forall|i: int| 0 <= i < cur.len() implies self.chunk_dirty(
                    #[trigger] cur[i],
                ) && cur[i] < n by {
                    if i < prev.len() {
                        assert(cur[i] == prev[i]);
                    } else {
                        assert(cur[i] == n - 1);
                    }
                }
            } else {
                assert(cur == prev);
            }
        }
    }

    /// A layer with no dirty chunk has no dirty keys.
    pub proof fn lemma_no_dirty_keys(self, n: int)
        requires
            forall|k: int| !self.chunk_dirty(k),
        ensures
            self.dirty_keys_upto(n).len() == 0,
        decreases n,
    {
        if n > 0 {
            self.lemma_no_dirty_keys(n - 1);
        }
    }

    /// The coordinates of the chunks that changed since the last rebuild,
    /// in ascending row-major order.
    pub fn dirty_chunks(&self) -> (r: Vec<ChunkCoord>)
        requires
            self.wf(),
        ensures
            r@.len() == self.dirty_keys().len(),
            forall|i: int|
                0 <= i < r@.len() ==> #[trigger] r@[i] == key_coord(
                    self.settings,
                    self.dirty_keys()[i],
                ),
    {
        let mut r: Vec<ChunkCoord> = Vec::new();
        let n: usize = self.chunks.len();
        let mut k: usize = 0;
        while k < n
            invariant
                self.wf(),
                n == self.chunks@.len(),
                k <= n,
                r@.len() == self.dirty_keys_upto(k as int).len(),
                forall|i: int|
                    0 <= i < r@.len() ==> #[trigger] r@[i] == key_coord(
                        self.settings,
                        self.dirty_keys_upto(k as int)[i],
                    ),
            decreases n - k,
        {
            let is_dirty: bool = match &self.chunks[k] {
                Some(c) => c.dirty,
                None => false,
            };
            if is_dirty {
                let cx: u32 = (k as u64 % (self.settings.map_size.width as u64)) as u32;
                let cy: u32 = (k as u64 / (self.settings.map_size.width as u64)) as u32;
                proof {
                    let mw = self.settings.map_size.width as int;
                    assert(0 <= (k as int) % mw < mw) by (nonlinear_arith)
                        requires
                            mw >= 1,
                            k >= 0,
                    ;
                    assert((k as int) < self.settings.chunk_count());
                    assert((k as int) < (self.settings.map_size.height as int) * mw)
                        by (nonlinear_arith)
                        requires
                            (k as int) < (self.settings.map_size.width as int) * (
                            self.settings.map_size.height as int),
                            mw == self.settings.map_size.width as int,
                    ;
                    lemma_div_bound(k as int, mw, self.settings.map_size.height as int);
                }
                r.push(ChunkCoord { x: cx, y: cy });
            }
            k = k + 1;
        }
        r
    }

    /// The number of chunk slots, for indexed iteration over the grid.
    pub fn chunk_slot_count(&self) -> (n: usize)
        requires
            self.wf(),
        ensures
            n == self.chunks@.len(),
    {
        self.chunks.len()
    }

    /// Indexed, restartable access to the chunk grid: the chunk stored at
    /// slot `k` and its coordinate, or `None` while that chunk was never
    /// written. Walking `0..chunk_slot_count()` visits every chunk once,
    /// in ascending row-major order.
    pub fn chunk_entry(&self, k: usize) -> (r: Option<(ChunkCoord, &Chunk)>)
        requires
            self.wf(),
            k < self.chunks@.len(),
        ensures
            match r {
                Some(e) => self.chunk_allocated(k as int) && e.0 == key_coord(
                    self.settings,
                    k as int,
                ) && *e.1 == self.chunks@[k as int]->0,
                None => !self.chunk_allocated(k as int),
            },
    {
        let mw: u32 = self.settings.map_size.width;
        match &self.chunks[k] {
            Some(c) => {
                let cx: u32 = (k as u64 % (mw as u64)) as u32;
                let cy: u32 = (k as u64 / (mw as u64)) as u32;
                proof {
                    let mwi = mw as int;
                    assert(0 <= (k as int) % mwi < mwi) by (nonlinear_arith)
                        requires
                            mwi >= 1,
                            k >= 0,
                    ;
                    assert((k as int) < (self.settings.map_size.height as int) * mwi)
                        by (nonlinear_arith)
                        requires
                            (k as int) < mwi * (self.settings.map_size.height as int),
                            mwi >= 1,
                    ;
                    lemma_div_bound(k as int, mwi, self.settings.map_size.height as int);
                }
                Some((ChunkCoord { x: cx, y: cy }, c))
            },
            None => None,
        }
    }

    /// Replace the layer's settings. Settings are immutable once tiles
    /// exist: if any chunk was ever written, the call fails with
    /// `LayerSettingsImmutable` and changes nothing. On success the layer
    /// is reset to a fresh, empty chunk grid under the new settings.
    pub fn set_settings(&mut self, settings: LayerSettings) -> (r: Result<(), TilemapError>)
        requires
            old(self).wf(),
            settings.valid(),
        ensures
            final(self).wf(),
            match r {
                Ok(_) => {
                    &&& !old(self).any_chunk_allocated()
                    &&& final(self).settings == settings
                    &&& forall|k: int| !final(self).chunk_allocated(k)
                    &&& forall|x: int, y: int| final(self).tile_at(x, y) is None
                },
                Err(e) => {
                    &&& e == TilemapError::LayerSettingsImmutable
                    &&& old(self).any_chunk_allocated()
                    &&& *final(self) == *old(self)
                },
            },
    {
        let n: usize = self.chunks.len();
        let mut k: usize = 0;
        while k < n
            invariant
                self.wf(),
                n == self.chunks@.len(),
                k <= n,
                forall|j: int| 0 <= j < k ==> !self.chunk_allocated(j),
            decreases n - k,
        {
            let allocated: bool = match &self.chunks[k] {
                Some(_) => true,
                None => false,
            };
            if allocated {
                proof {
                    assert(self.chunk_allocated(k as int));
                }
                return Err(TilemapError::LayerSettingsImmutable);
            }
            k = k + 1;
        }
        let fresh = Layer::new(settings);
        *self = fresh;
        Ok(())
    }

    /// A fresh layer: no chunk created, every tile empty.
    pub fn new(settings: LayerSettings) -> (l: Layer)
        requires
            settings.valid(),
        ensures
            l.wf(),
            l.settings == settings,
            forall|k: int| !l.chunk_allocated(k),
            forall|x: int, y: int| l.tile_at(x, y) is None,
    {
        let total: u64 = mul_u32(settings.map_size.width, settings.map_size.height);
        let n: usize = total as usize;
        let mut chunks: Vec<Option<Chunk>> = Vec::new();
        while chunks.len() < n
            invariant
                n as int == settings.chunk_count(),
                chunks@.len() <= n,
                forall|k: int| 0 <= k < chunks@.len() ==> chunks@[k] is None,
            decreases n - chunks.len(),
        {
            chunks.push(None);
        }
        let l = Layer { settings, chunks };
        proof {
            assert forall|x: int, y: int| l.tile_at(x, y) is None by {
                if l.settings.pos_in_bounds(x, y) {
                    lemma_chunk_key_bounds(l.settings, x, y);
                }
            }
        }
        l
    }
}

} // verus!
