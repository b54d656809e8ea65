//! A chunked-tilemap storage and rendering core.
//!
//! A map owns an ordered collection of layers; each layer owns a sparse grid
//! of fixed-size chunks of tiles, created lazily on first write. Tile writes
//! mark the touched chunk dirty; the mesh builder turns dirty chunks into
//! renderable quad batches and clears the dirty flags. All geometry is kept
//! in integer units (render units for positions, atlas pixels for texture
//! coordinates); scaling texture coordinates into the unit interval is left
//! to the rendering host.

pub mod error;
pub mod geom;
pub mod laws;
pub mod layer;
pub mod math;
pub mod mesh;
pub mod tilemap;
