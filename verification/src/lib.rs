//! Tile acquisition and decoding for a vector map client.
//!
//! The library decides and decodes; it does no input or output of its own.
//!
//! - `wire` states the wire format on byte sequences, `pbf` reads it with a
//!   cursor, and `encode` writes it and proves that reading undoes writing.
//! - `vector_tile_model`, `tile_layer`, `tile_feature`, `tile_value` and
//!   `tile_geometry` decode a tile, layer by layer, down to the rings of its
//!   geometry; `geometry_stream` proves what a written command stream decodes
//!   to.
//! - `coverage` names the tiles of the grid that cover a viewport.
//! - `tile_url` fills in the address of a tile and reads tile and source back
//!   from an address; `tile_address` proves that the one undoes the other.
//! - `tile_cache` keeps the state of every tile, and `vector_tile_manager`
//!   decides what to fetch and what a fetch that has come back changes.
//! - `manifest`, `manifest_model` and `style_model` hold what a style and
//!   the manifests of its tile sources say, and what to do about it.

pub mod coverage;
pub mod encode;
pub mod geometry_stream;
pub mod manifest;
pub mod manifest_model;
pub mod map_error;
pub mod pbf;
pub mod style_model;
pub mod tile_address;
pub mod tile_cache;
pub mod tile_feature;
pub mod tile_geometry;
pub mod tile_layer;
pub mod tile_url;
pub mod tile_value;
pub mod vector_tile_id;
pub mod vector_tile_manager;
pub mod vector_tile_model;
pub mod views;
pub mod wire;
