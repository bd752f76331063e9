//! A decoded tile: the layers of one tile, as its bytes give them.

use crate::pbf::parses;
use crate::pbf::Parsed;
use crate::pbf::Pbf;
use crate::pbf::PbfView;
use crate::tile_feature::nested;
use crate::tile_layer::spec_layer;
use crate::tile_layer::LayerView;
use crate::tile_layer::VectorTileLayer;
use crate::views::lemma_views_empty;
use crate::views::lemma_views_push;
use crate::views::views;
use crate::wire::key_field;
use crate::wire::lemma_reads_consume;
use crate::wire::spec_chunk;
use crate::wire::spec_next;
use crate::wire::spec_skip_value;
use crate::wire::PbfError;
use vstd::prelude::*;

verus! {

/// Field of a tile message that holds a layer message.
pub const TILE_LAYER: u32 = 3;

/// A decoded tile.
#[derive(Debug, Clone, PartialEq)]
pub struct VectorTileModel {
    pub layers: Vec<VectorTileLayer>,
}

/// A tile as the contracts see it.
pub struct TileView {
    pub layers: Seq<LayerView>,
}

impl View for VectorTileModel {
    type V = TileView;

    open spec fn view(&self) -> TileView {
        TileView { layers: views(self.layers@) }
    }
}

/// Decodes what is left of a tile message, `acc` being the layers found so
/// far: each layer field adds a layer, any other field is stepped over.
pub open spec fn spec_tile_run(c: PbfView, acc: TileView) -> Parsed<TileView>
    decreases c.bytes.len(),
{
    match spec_next(c.bytes) {
        Err(e) => Parsed { outcome: Err(e), cursor: c },
        Ok(None) => Parsed { outcome: Ok(acc), cursor: c },
        Ok(Some((key, rest))) => {
            let at = PbfView { bytes: rest, value: key, tag: key_field(key) };
            proof {
                lemma_reads_consume(c.bytes);
                lemma_reads_consume(rest);
            }
            if at.tag == TILE_LAYER {
                match spec_chunk(rest) {
                    Ok((msg, rest2)) => match spec_layer(msg) {
                        Ok(layer) => spec_tile_run(
                            at.with_bytes(rest2),
                            TileView { layers: acc.layers.push(layer) },
                        ),
                        Err(e) => Parsed { outcome: Err(e), cursor: at.with_bytes(rest2) },
                    },
                    Err(e) => Parsed { outcome: Err(e), cursor: at },
                }
            } else {
                match spec_skip_value(rest, key) {
                    Ok(rest2) => spec_tile_run(at.with_bytes(rest2), acc),
                    Err(e) => Parsed { outcome: Err(e), cursor: at },
                }
            }
        },
    }
}

/// The tile that the bytes `bytes` hold, or why they hold none.
pub open spec fn spec_tile(bytes: Seq<u8>) -> Result<TileView, PbfError> {
    spec_tile_run(nested(bytes), TileView { layers: Seq::empty() }).outcome
}

impl VectorTileModel {
    /// Decodes a tile from a cursor over its bytes.
    pub fn parse(data: &mut Pbf) -> (r: Result<VectorTileModel, PbfError>)
        ensures
            parses(spec_tile_run(old(data)@, TileView { layers: Seq::empty() }), r, final(data)@),
    {
        let mut layers: Vec<VectorTileLayer> = Vec::new();
        proof {
            lemma_views_empty::<VectorTileLayer>();
        }
        loop
            invariant
                spec_tile_run(old(data)@, TileView { layers: Seq::empty() }) == spec_tile_run(
                    data@,
                    TileView { layers: views(layers@) },
                ),
            decreases data@.bytes.len(),
        {
            proof {
                lemma_reads_consume(data@.bytes);
            }
            match data.next() {
                Ok(true) => {},
                Ok(false) => {
                    return Ok(VectorTileModel { layers });
                },
                Err(e) => {
                    return Err(e);
                },
            }
            proof {
                lemma_reads_consume(data@.bytes);
            }
            if data.tag() == TILE_LAYER {
                let mut msg = match data.message() {
                    Ok(msg) => msg,
                    Err(e) => {
                        return Err(e);
                    },
                };
                match VectorTileLayer::parse(&mut msg) {
                    Ok(layer) => {
                        proof {
                            lemma_views_push(layers@, layer);
                        }
                        layers.push(layer);
                    },
                    Err(e) => {
                        return Err(e);
                    },
                }
            } else {
                match data.skip() {
                    Ok(()) => {},
                    Err(e) => {
                        return Err(e);
                    },
                }
            }
        }
    }

    /// Decodes a tile from its bytes. Bytes that are no tile give the error at
    /// which decoding stopped, and no part of a tile.
    pub fn decode(bytes: Vec<u8>) -> (r: Result<VectorTileModel, PbfError>)
        ensures
            match spec_tile(bytes@) {
                Ok(tile) => r is Ok && r->Ok_0@ == tile,
                Err(e) => r is Err && r->Err_0 == e,
            },
    {
        let mut data = Pbf::new(bytes);
        VectorTileModel::parse(&mut data)
    }
}

} // verus!
