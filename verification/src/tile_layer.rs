//! One layer of a tile: a name, an extent, the tables of attribute keys and
//! values, and the features.

use crate::pbf::parses;
use crate::pbf::Parsed;
use crate::pbf::Pbf;
use crate::pbf::PbfView;
use crate::tile_feature::nested;
use crate::tile_feature::spec_feature;
use crate::tile_feature::FeatureView;
use crate::tile_feature::VectorTileFeature;
use crate::tile_value::spec_value;
use crate::tile_value::ValueView;
use crate::tile_value::VectorTileValue;
use crate::views::lemma_views_empty;
use crate::views::lemma_views_push;
use crate::views::views;
use crate::wire::key_field;
use crate::wire::lemma_reads_consume;
use crate::wire::spec_chunk;
use crate::wire::spec_next;
use crate::wire::spec_skip_value;
use crate::wire::spec_string;
use crate::wire::spec_varint32;
use crate::wire::PbfError;
use vstd::prelude::*;

verus! {

/// Field of a layer message that holds its name.
pub const LAYER_NAME: u32 = 1;

/// Field that holds a feature message.
pub const LAYER_FEATURE: u32 = 2;

/// Field that holds an attribute key.
pub const LAYER_KEY: u32 = 3;

/// Field that holds an attribute value message.
pub const LAYER_VALUE: u32 = 4;

/// Field that holds the extent.
pub const LAYER_EXTENT: u32 = 5;

/// The extent of a layer that names none.
pub const DEFAULT_EXTENT: u32 = 4096;

/// A layer. Its geometry is in integer units; `extent` of them span the tile.
#[derive(Debug, Clone, PartialEq)]
pub struct VectorTileLayer {
    pub name: String,
    pub features: Vec<VectorTileFeature>,
    pub keys: Vec<String>,
    pub values: Vec<VectorTileValue>,
    pub extent: u32,
}

/// A layer as the contracts see it.
pub struct LayerView {
    pub name: Seq<char>,
    pub features: Seq<FeatureView>,
    pub keys: Seq<Seq<char>>,
    pub values: Seq<ValueView>,
    pub extent: u32,
}

impl LayerView {
    /// The layer of an empty message.
    pub open spec fn empty() -> LayerView {
        LayerView {
            name: Seq::empty(),
            features: Seq::empty(),
            keys: Seq::empty(),
            values: Seq::empty(),
            extent: DEFAULT_EXTENT,
        }
    }
}

impl View for VectorTileLayer {
    type V = LayerView;

    open spec fn view(&self) -> LayerView {
        LayerView {
            name: self.name@,
            features: views(self.features@),
            keys: views(self.keys@),
            values: views(self.values@),
            extent: self.extent,
        }
    }
}

/// Decodes what is left of a layer message, `acc` being the layer found so
/// far. A name or an extent met again takes the place of the earlier one;
/// features, keys and values add up in the order met; any other field is
/// stepped over.
pub open spec fn spec_layer_run(c: PbfView, acc: LayerView) -> Parsed<LayerView>
    decreases c.bytes.len(),
{
    match spec_next(c.bytes) {
        Err(e) => Parsed { outcome: Err(e), cursor: c },
        Ok(None) => Parsed { outcome: Ok(acc), cursor: c },
        Ok(Some((key, rest))) => {
            let at = PbfView { bytes: rest, value: key, tag: key_field(key) };
            proof {
                lemma_reads_consume(c.bytes);
                lemma_reads_consume(rest);
            }
            if at.tag == LAYER_NAME {
                match spec_string(rest) {
                    Ok((name, rest2)) => spec_layer_run(
                        at.with_bytes(rest2),
                        LayerView { name, ..acc },
                    ),
                    Err(e) => Parsed { outcome: Err(e), cursor: at },
                }
            } else if at.tag == LAYER_FEATURE {
                match spec_chunk(rest) {
                    Ok((msg, rest2)) => match spec_feature(msg) {
                        Ok(feature) => spec_layer_run(
                            at.with_bytes(rest2),
                            LayerView { features: acc.features.push(feature), ..acc },
                        ),
                        Err(e) => Parsed { outcome: Err(e), cursor: at.with_bytes(rest2) },
                    },
                    Err(e) => Parsed { outcome: Err(e), cursor: at },
                }
            } else if at.tag == LAYER_KEY {
                match spec_string(rest) {
                    Ok((k, rest2)) => spec_layer_run(
                        at.with_bytes(rest2),
                        LayerView { keys: acc.keys.push(k), ..acc },
                    ),
                    Err(e) => Parsed { outcome: Err(e), cursor: at },
                }
            } else if at.tag == LAYER_VALUE {
                match spec_chunk(rest) {
                    Ok((msg, rest2)) => match spec_value(msg) {
                        Ok(value) => spec_layer_run(
                            at.with_bytes(rest2),
                            LayerView { values: acc.values.push(value), ..acc },
                        ),
                        Err(e) => Parsed { outcome: Err(e), cursor: at.with_bytes(rest2) },
                    },
                    Err(e) => Parsed { outcome: Err(e), cursor: at },
                }
            } else if at.tag == LAYER_EXTENT {
                match spec_varint32(rest) {
                    Ok((extent, rest2)) => spec_layer_run(
                        at.with_bytes(rest2),
                        LayerView { extent, ..acc },
                    ),
                    Err(e) => Parsed { outcome: Err(e), cursor: at },
                }
            } else {
                match spec_skip_value(rest, key) {
                    Ok(rest2) => spec_layer_run(at.with_bytes(rest2), acc),
                    Err(e) => Parsed { outcome: Err(e), cursor: at },
                }
            }
        },
    }
}

/// The layer that the message `bytes` holds.
pub open spec fn spec_layer(bytes: Seq<u8>) -> Result<LayerView, PbfError> {
    spec_layer_run(nested(bytes), LayerView::empty()).outcome
}

impl VectorTileLayer {
    /// Decodes a layer message. A layer that names no extent has 4096.
    pub fn parse(data: &mut Pbf) -> (r: Result<VectorTileLayer, PbfError>)
        ensures
            parses(spec_layer_run(old(data)@, LayerView::empty()), r, final(data)@),
    {
        let mut layer = VectorTileLayer {
            name: String::new(),
            features: Vec::new(),
            keys: Vec::new(),
            values: Vec::new(),
            extent: DEFAULT_EXTENT,
        };
        proof {
            lemma_views_empty::<VectorTileFeature>();
            lemma_views_empty::<String>();
            lemma_views_empty::<VectorTileValue>();
        }
        loop
            invariant
                spec_layer_run(old(data)@, LayerView::empty()) == spec_layer_run(data@, layer@),
            decreases data@.bytes.len(),
        {
            proof {
                lemma_reads_consume(data@.bytes);
            }
            match data.next() {
                Ok(true) => {},
                Ok(false) => {
                    return Ok(layer);
                },
                Err(e) => {
                    return Err(e);
                },
            }
            proof {
                lemma_reads_consume(data@.bytes);
            }
            let field = data.tag();
            if field == LAYER_NAME {
                match data.string() {
                    Ok(name) => {
                        layer.name = name;
                    },
                    Err(e) => {
                        return Err(e);
                    },
                }
            } else if field == LAYER_FEATURE {
                let mut msg = match data.message() {
                    Ok(msg) => msg,
                    Err(e) => {
                        return Err(e);
                    },
                };
                match VectorTileFeature::parse(&mut msg) {
                    Ok(feature) => {
                        proof {
                            lemma_views_push(layer.features@, feature);
                        }
                        layer.features.push(feature);
                    },
                    Err(e) => {
                        return Err(e);
                    },
                }
            } else if field == LAYER_KEY {
                match data.string() {
                    Ok(key) => {
                        proof {
                            lemma_views_push(layer.keys@, key);
                        }
                        layer.keys.push(key);
                    },
                    Err(e) => {
                        return Err(e);
                    },
                }
            } else if field == LAYER_VALUE {
                let mut msg = match data.message() {
                    Ok(msg) => msg,
                    Err(e) => {
                        return Err(e);
                    },
                };
                match VectorTileValue::parse(&mut msg) {
                    Ok(value) => {
                        proof {
                            lemma_views_push(layer.values@, value);
                        }
                        layer.values.push(value);
                    },
                    Err(e) => {
                        return Err(e);
                    },
                }
            } else if field == LAYER_EXTENT {
                match data.varint32() {
                    Ok(extent) => {
                        layer.extent = extent;
                    },
                    Err(e) => {
                        return Err(e);
                    },
                }
            } else {
                match data.skip() {
                    Ok(()) => {},
                    Err(e) => {
                        return Err(e);
                    },
                }
            }
        }
    }
}

} // verus!
