//! The layer index: an ordered collection of layers keyed by a small
//! integer id.
//!
//! Layer order is insertion order and determines draw order. The map also
//! records which texture handles were reported ready by the asset system,
//! so the rendering host can switch them to nearest-neighbour sampling;
//! recording the handle is the core's only reaction to that event.

use vstd::prelude::*;
use crate::error::TilemapError;
use crate::geom::LayerSettings;
use crate::geom::Tile;
use crate::geom::TilePos;
use crate::layer::Layer;
use crate::mesh::ChunkMesh;
use crate::mesh::rebuild_dirty;
use crate::mesh::rebuild_post;

verus! {

/// Receipt for a registered layer.
#[derive(Clone, Copy, Debug, PartialEq, Eq, Structural)]
pub struct LayerHandle {
    pub id: u32,
}

/// One registered layer and its id.
pub struct LayerEntry {
    pub id: u32,
    pub layer: Layer,
}

/// The rebuilt batches of one layer, produced by `advance_frame`.
pub struct LayerMeshes {
    pub id: u32,
    pub meshes: Vec<ChunkMesh>,
}

/// A map: layers in draw order, each under a unique id, plus the queue of
/// texture handles waiting for nearest-neighbour sampling.
pub struct TileMap {
    pub layers: Vec<LayerEntry>,
    pub nearest_pending: Vec<u64>,
}

impl TileMap {
    /// Internal invariant: every layer well formed, every id unique.
    pub open spec fn wf(self) -> bool {
        &&& forall|i: int| 0 <= i < self.layers@.len() ==> (#[trigger] self.layers@[i]).layer.wf()
        &&& forall|i: int, j: int|
            0 <= i < j < self.layers@.len() ==> (#[trigger] self.layers@[i]).id != (
            #[trigger] self.layers@[j]).id
    }

    /// Whether a layer with this id is registered.
    pub open spec fn has_layer(self, id: u32) -> bool {
        exists|i: int| 0 <= i < self.layers@.len() && (#[trigger] self.layers@[i]).id == id
    }

    /// The position of the layer with this id (meaningful only when
    /// `has_layer(id)`; ids are unique, so it is determined).
    pub open spec fn index_of(self, id: u32) -> int {
        choose|i: int| 0 <= i < self.layers@.len() && (#[trigger] self.layers@[i]).id == id
    }

    /// The layer registered under this id.
    pub open spec fn spec_layer(self, id: u32) -> Layer {
        self.layers@[self.index_of(id)].layer
    }

    /// An empty map: no layers, no pending texture handles.
    pub fn new() -> (m: TileMap)
        ensures
            m.wf(),
            m.layers@.len() == 0,
            m.nearest_pending@.len() == 0,
    {
        TileMap { layers: Vec::new(), nearest_pending: Vec::new() }
    }

    /// Find the position of a layer id.
    fn find(&self, id: u32) -> (r: Option<usize>)
        requires
            self.wf(),
        ensures
            match r {
                Some(i) => self.has_layer(id) && 0 <= i < self.layers@.len()
                    && self.layers@[i as int].id == id && i as int == self.index_of(id),
                None => !self.has_layer(id),
            },
    {
        let n: usize = self.layers.len();
        let mut i: usize = 0;
        while i < n
            invariant
                self.wf(),
                n == self.layers@.len(),
                i <= n,
                forall|j: int| 0 <= j < i ==> (#[trigger] self.layers@[j]).id != id,
            decreases n - i,
        {
            if self.layers[i].id == id {
                proof {
                    let w = self.index_of(id);
                    assert(0 <= w < self.layers@.len() && self.layers@[w].id == id);
                    if w != i as int {
                        if w < i as int {
                            assert(self.layers@[w].id != self.layers@[i as int].id);
                        } else {
                            assert(self.layers@[i as int].id != self.layers@[w].id);
                        }
                    }
                }
                return Some(i);
            }
            i = i + 1;
        }
        None
    }

    /// Register a layer under `id` with the given settings. Fails with
    /// `DuplicateLayer`, changing nothing, exactly when the id is taken;
    /// otherwise the new layer is appended, empty, at the end of the draw
    /// order.
    pub fn add_layer(&mut self, id: u32, settings: LayerSettings) -> (r: Result<
        LayerHandle,
        TilemapError,
    >)
        requires
            old(self).wf(),
            settings.valid(),
        ensures
            final(self).wf(),
            match r {
                Ok(h) => {
                    &&& !old(self).has_layer(id)
                    &&& h.id == id
                    &&& final(self).has_layer(id)
                    &&& final(self).layers@.len() == old(self).layers@.len() + 1
                    &&& forall|i: int|
                        0 <= i < old(self).layers@.len() ==> final(self).layers@[i] == old(
                            self,
                        ).layers@[i]
                    &&& final(self).layers@.last().id == id
                    &&& final(self).layers@.last().layer.settings == settings
                    &&& forall|x: int, y: int| final(self).layers@.last().layer.tile_at(x, y) is None
                    &&& forall|k: int| !final(self).layers@.last().layer.chunk_allocated(k)
                    &&& final(self).nearest_pending@ == old(self).nearest_pending@
                },
                Err(e) => {
                    &&& e == TilemapError::DuplicateLayer
                    &&& old(self).has_layer(id)
                    &&& *final(self) == *old(self)
                },
            },
    {
        match self.find(id) {
            Some(_) => Err(TilemapError::DuplicateLayer),
            None => {
                let layer = Layer::new(settings);
                self.layers.push(LayerEntry { id, layer });
                proof {
                    let n = self.layers@.len() - 1;
                    assert(self.layers@[n].id == id);
                }
                Ok(LayerHandle { id })
            },
        }
    }

    /// Borrow the layer registered under `id`; fails with `UnknownLayer`
    /// when the id is not registered.
    pub fn layer(&self, id: u32) -> (r: Result<&Layer, TilemapError>)
        requires
            self.wf(),
        ensures
            match r {
                Ok(l) => self.has_layer(id) && *l == self.spec_layer(id) && l.wf(),
                Err(e) => e == TilemapError::UnknownLayer && !self.has_layer(id),
            },
    {
        match self.find(id) {
            Some(i) => Ok(&self.layers[i].layer),
            None => Err(TilemapError::UnknownLayer),
        }
    }

    /// Write a tile on the layer registered under `id`: `UnknownLayer` if
    /// the id is not registered, otherwise exactly `Layer::set_tile` on
    /// that layer, with every other layer untouched.
    pub fn set_tile(&mut self, id: u32, pos: TilePos, tile: Tile) -> (r: Result<(), TilemapError>)
        requires
            old(self).wf(),
        ensures
            final(self).wf(),
            !old(self).has_layer(id) ==> r == Err::<(), TilemapError>(TilemapError::UnknownLayer)
                && *final(self) == *old(self),
            old(self).has_layer(id) ==> {
                let idx = old(self).index_of(id);
                &&& final(self).layers@.len() == old(self).layers@.len()
                &&& forall|i: int|
                    0 <= i < old(self).layers@.len() && i != idx ==> final(self).layers@[i] == old(
                        self,
                    ).layers@[i]
                &&& final(self).layers@[idx].id == id
                &&& old(self).layers@[idx].layer.set_tile_post(
                    final(self).layers@[idx].layer,
                    pos,
                    tile,
                    r,
                )
                &&& final(self).nearest_pending@ == old(self).nearest_pending@
            },
    {
        match self.find(id) {
            Some(i) => {
                let entry = &mut self.layers[i];
                entry.layer.set_tile(pos, tile)
            },
            None => Err(TilemapError::UnknownLayer),
        }
    }

    /// Read a tile from the layer registered under `id`.
    pub fn get_tile(&self, id: u32, pos: TilePos) -> (r: Result<Option<Tile>, TilemapError>)
        requires
            self.wf(),
        ensures
            match r {
                Ok(t) => self.has_layer(id) && t == self.spec_layer(id).tile_at(
                    pos.x as int,
                    pos.y as int,
                ),
                Err(e) => e == TilemapError::UnknownLayer && !self.has_layer(id),
            },
    {
        match self.find(id) {
            Some(i) => Ok(self.layers[i].layer.get_tile(pos)),
            None => Err(TilemapError::UnknownLayer),
        }
    }

    /// Rebuild the dirty chunks of the layer registered under `id`.
    pub fn rebuild_layer(&mut self, id: u32) -> (r: Result<Vec<ChunkMesh>, TilemapError>)
        requires
            old(self).wf(),
        ensures
            final(self).wf(),
            match r {
                Ok(meshes) => {
                    let idx = old(self).index_of(id);
                    &&& old(self).has_layer(id)
                    &&& final(self).layers@.len() == old(self).layers@.len()
                    &&& forall|i: int|
                        0 <= i < old(self).layers@.len() && i != idx ==> final(self).layers@[i]
                            == old(self).layers@[i]
                    &&& final(self).layers@[idx].id == id
                    &&& rebuild_post(
                        old(self).layers@[idx].layer,
                        final(self).layers@[idx].layer,
                        meshes@,
                    )
                    &&& final(self).nearest_pending@ == old(self).nearest_pending@
                },
                Err(e) => {
                    &&& e == TilemapError::UnknownLayer
                    &&& !old(self).has_layer(id)
                    &&& *final(self) == *old(self)
                },
            },
    {
        match self.find(id) {
            Some(i) => {
                let entry = &mut self.layers[i];
                let meshes = rebuild_dirty(&mut entry.layer);
                Ok(meshes)
            },
            None => Err(TilemapError::UnknownLayer),
        }
    }

    /// Rebuild every layer's dirty chunks, in draw order: one batch list
    /// per layer, even when it is empty.
    pub fn advance_frame(&mut self) -> (r: Vec<LayerMeshes>)
        requires
            old(self).wf(),
        ensures
            final(self).wf(),
            final(self).layers@.len() == old(self).layers@.len(),
            final(self).nearest_pending@ == old(self).nearest_pending@,
            r@.len() == old(self).layers@.len(),
            forall|i: int|
                0 <= i < old(self).layers@.len() ==> {
                    &&& (#[trigger] r@[i]).id == old(self).layers@[i].id
                    &&& final(self).layers@[i].id == old(self).layers@[i].id
                    &&& rebuild_post(
                        old(self).layers@[i].layer,
                        final(self).layers@[i].layer,
                        r@[i].meshes@,
                    )
                },
    {
        let n: usize = self.layers.len();
        let mut r: Vec<LayerMeshes> = Vec::new();
        let mut i: usize = 0;
        while i < n
            invariant
                self.wf(),
                n == self.layers@.len(),
                old(self).layers@.len() == n,
                self.nearest_pending@ == old(self).nearest_pending@,
                i <= n,
                r@.len() == i,
                forall|j: int| i <= j < n ==> self.layers@[j] == old(self).layers@[j],
                forall|j: int|
                    0 <= j < i ==> {
                        &&& (#[trigger] r@[j]).id == old(self).layers@[j].id
                        &&& self.layers@[j].id == old(self).layers@[j].id
                        &&& rebuild_post(
                            old(self).layers@[j].layer,
                            self.layers@[j].layer,
                            r@[j].meshes@,
                        )
                    },
            decreases n - i,
        {
            let id: u32 = self.layers[i].id;
            let entry = &mut self.layers[i];
            let meshes = rebuild_dirty(&mut entry.layer);
            r.push(LayerMeshes { id, meshes });
            i = i + 1;
        }
        r
    }

    /// Replace the settings of the layer registered under `id`. Settings
    /// are immutable once the layer holds tiles: the call then fails with
    /// `LayerSettingsImmutable` and changes nothing.
    pub fn set_layer_settings(&mut self, id: u32, settings: LayerSettings) -> (r: Result<
        (),
        TilemapError,
    >)
        requires
            old(self).wf(),
            settings.valid(),
        ensures
            final(self).wf(),
            !old(self).has_layer(id) ==> r == Err::<(), TilemapError>(TilemapError::UnknownLayer)
                && *final(self) == *old(self),
            old(self).has_layer(id) ==> {
                let idx = old(self).index_of(id);
                &&& final(self).layers@.len() == old(self).layers@.len()
                &&& forall|i: int|
                    0 <= i < old(self).layers@.len() && i != idx ==> final(self).layers@[i] == old(
                        self,
                    ).layers@[i]
                &&& final(self).layers@[idx].id == id
                &&& match r {
                    Ok(_) => {
                        &&& !old(self).layers@[idx].layer.any_chunk_allocated()
                        &&& final(self).layers@[idx].layer.settings == settings
                        &&& forall|x: int, y: int|
                            final(self).layers@[idx].layer.tile_at(x, y) is None
                    },
                    Err(e) => {
                        &&& e == TilemapError::LayerSettingsImmutable
                        &&& old(self).layers@[idx].layer.any_chunk_allocated()
                        &&& final(self).layers@[idx] == old(self).layers@[idx]
                    },
                }
                &&& final(self).nearest_pending@ == old(self).nearest_pending@
            },
    {
        match self.find(id) {
            Some(i) => {
                let entry = &mut self.layers[i];
                entry.layer.set_settings(settings)
            },
            None => Err(TilemapError::UnknownLayer),
        }
    }

    /// Record that the asset system reported a texture handle ready, so
    /// the host should configure it for nearest-neighbour sampling.
    pub fn note_texture_ready(&mut self, handle: u64)
        requires
            old(self).wf(),
        ensures
            final(self).wf(),
            final(self).nearest_pending@ == old(self).nearest_pending@.push(handle),
            final(self).layers == old(self).layers,
    {
        self.nearest_pending.push(handle);
    }

    /// Hand out, and forget, the texture handles recorded since the last
    /// call: the host configures each for nearest-neighbour sampling.
    pub fn take_nearest_updates(&mut self) -> (r: Vec<u64>)
        requires
            old(self).wf(),
        ensures
            final(self).wf(),
            r@ == old(self).nearest_pending@,
            final(self).nearest_pending@.len() == 0,
            final(self).layers == old(self).layers,
    {
        let mut out: Vec<u64> = Vec::new();
        core::mem::swap(&mut self.nearest_pending, &mut out);
        out
    }

    /// Create a map holding a single empty layer under id 0: the one-time
    /// setup call of a host that draws one tile plane.
    pub fn initialize(settings: LayerSettings) -> (m: TileMap)
        requires
            settings.valid(),
        ensures
            m.wf(),
            m.layers@.len() == 1,
            m.has_layer(0),
            m.layers@[0].id == 0,
            m.layers@[0].layer.settings == settings,
            forall|x: int, y: int| m.layers@[0].layer.tile_at(x, y) is None,
            forall|k: int| !m.layers@[0].layer.chunk_allocated(k),
            m.nearest_pending@.len() == 0,
    {
        let mut m = TileMap::new();
        let added = m.add_layer(0, settings);
        proof {
            assert(added is Ok);
        }
        m
    }
}

} // verus!
