//! One feature of a layer: an identifier, a kind of geometry, attribute tags
//! and the geometry itself.

use crate::pbf::parses;
use crate::pbf::Parsed;
use crate::pbf::Pbf;
use crate::pbf::PbfView;
use crate::tile_geometry::spec_geometry;
use crate::tile_geometry::Ring;
use crate::tile_geometry::VectorTileGeometry;
use crate::views::lemma_views_empty;
use crate::views::lemma_views_push;
use crate::views::views;
use crate::wire::key_field;
use crate::wire::lemma_reads_consume;
use crate::wire::spec_chunk;
use crate::wire::spec_next;
use crate::wire::spec_skip_value;
use crate::wire::spec_varint32;
use crate::wire::spec_varint64;
use crate::wire::PbfError;
use std::collections::HashMap;
use vstd::prelude::*;

verus! {

broadcast use vstd::std_specs::hash::group_hash_axioms;

/// Field of a feature message that holds its identifier.
pub const FEATURE_ID: u32 = 1;

/// Field that holds the packed tags.
pub const FEATURE_TAGS: u32 = 2;

/// Field that holds the kind of geometry.
pub const FEATURE_TYPE: u32 = 3;

/// Field that holds a geometry command stream.
pub const FEATURE_GEOMETRY: u32 = 4;

/// Kind of geometry: points.
pub const GEOM_POINT: u32 = 1;

/// Kind of geometry: lines.
pub const GEOM_LINE: u32 = 2;

/// Kind of geometry: polygons.
pub const GEOM_POLYGON: u32 = 3;

/// A feature. Each tag maps the index of a key to the index of a value, both
/// in the tables of the layer that holds the feature.
#[derive(Debug, Clone, PartialEq)]
pub struct VectorTileFeature {
    pub id: u64,
    pub geom_type: u32,
    pub tags: HashMap<u32, u32>,
    pub geometry: Vec<VectorTileGeometry>,
}

/// A feature as the contracts see it.
pub struct FeatureView {
    pub id: u64,
    pub geom_type: u32,
    pub tags: Map<u32, u32>,
    pub geometry: Seq<Seq<Ring>>,
}

impl FeatureView {
    /// The feature of an empty message.
    pub open spec fn empty() -> FeatureView {
        FeatureView { id: 0, geom_type: 0, tags: Map::empty(), geometry: Seq::empty() }
    }
}

impl View for VectorTileFeature {
    type V = FeatureView;

    open spec fn view(&self) -> FeatureView {
        FeatureView {
            id: self.id,
            geom_type: self.geom_type,
            tags: self.tags@,
            geometry: views(self.geometry@),
        }
    }
}

/// A fresh cursor over the bytes of a nested message.
pub open spec fn nested(bytes: Seq<u8>) -> PbfView {
    PbfView { bytes, value: 0, tag: 0 }
}

/// Decodes what is left of a packed tag list into `acc`: key index and value
/// index in turn, a later pair for the same key taking the place of an earlier
/// one. A key index with no value index after it fails with `OddTagCount`.
pub open spec fn spec_tags_run(c: PbfView, acc: Map<u32, u32>) -> Parsed<Map<u32, u32>>
    decreases c.bytes.len(),
{
    if c.bytes.len() == 0 {
        Parsed { outcome: Ok(acc), cursor: c }
    } else {
        match spec_varint32(c.bytes) {
            Err(e) => Parsed { outcome: Err(e), cursor: c },
            Ok((key, rest)) => if rest.len() == 0 {
                Parsed { outcome: Err(PbfError::OddTagCount), cursor: c.with_bytes(rest) }
            } else {
                match spec_varint32(rest) {
                    Err(e) => Parsed { outcome: Err(e), cursor: c.with_bytes(rest) },
                    Ok((value, rest2)) => {
                        proof {
                            lemma_reads_consume(c.bytes);
                            lemma_reads_consume(rest);
                        }
                        spec_tags_run(c.with_bytes(rest2), acc.insert(key, value))
                    },
                }
            },
        }
    }
}

/// Decodes what is left of a feature message, `acc` being the feature found so
/// far. An identifier or a kind met again takes the place of the earlier one;
/// tag lists add up; each geometry field adds a geometry; any other field is
/// stepped over.
pub open spec fn spec_feature_run(c: PbfView, acc: FeatureView) -> Parsed<FeatureView>
    decreases c.bytes.len(),
{
    match spec_next(c.bytes) {
        Err(e) => Parsed { outcome: Err(e), cursor: c },
        Ok(None) => Parsed { outcome: Ok(acc), cursor: c },
        Ok(Some((key, rest))) => {
            let at = PbfView { bytes: rest, value: key, tag: key_field(key) };
            proof {
                lemma_reads_consume(c.bytes);
                lemma_reads_consume(rest);
            }
            if at.tag == FEATURE_ID {
                match spec_varint64(rest) {
                    Ok((id, rest2)) => spec_feature_run(
                        at.with_bytes(rest2),
                        FeatureView { id, ..acc },
                    ),
                    Err(e) => Parsed { outcome: Err(e), cursor: at },
                }
            } else if at.tag == FEATURE_TAGS {
                match spec_chunk(rest) {
                    Ok((msg, rest2)) => match spec_tags_run(nested(msg), acc.tags).outcome {
                        Ok(tags) => spec_feature_run(
                            at.with_bytes(rest2),
                            FeatureView { tags, ..acc },
                        ),
                        Err(e) => Parsed { outcome: Err(e), cursor: at.with_bytes(rest2) },
                    },
                    Err(e) => Parsed { outcome: Err(e), cursor: at },
                }
            } else if at.tag == FEATURE_TYPE {
                match spec_varint32(rest) {
                    Ok((geom_type, rest2)) => spec_feature_run(
                        at.with_bytes(rest2),
                        FeatureView { geom_type, ..acc },
                    ),
                    Err(e) => Parsed { outcome: Err(e), cursor: at },
                }
            } else if at.tag == FEATURE_GEOMETRY {
                match spec_chunk(rest) {
                    Ok((msg, rest2)) => match spec_geometry(msg) {
                        Ok(rings) => spec_feature_run(
                            at.with_bytes(rest2),
                            FeatureView { geometry: acc.geometry.push(rings), ..acc },
                        ),
                        Err(e) => Parsed { outcome: Err(e), cursor: at.with_bytes(rest2) },
                    },
                    Err(e) => Parsed { outcome: Err(e), cursor: at },
                }
            } else {
                match spec_skip_value(rest, key) {
                    Ok(rest2) => spec_feature_run(at.with_bytes(rest2), acc),
                    Err(e) => Parsed { outcome: Err(e), cursor: at },
                }
            }
        },
    }
}

/// The feature that the message `bytes` holds.
pub open spec fn spec_feature(bytes: Seq<u8>) -> Result<FeatureView, PbfError> {
    spec_feature_run(nested(bytes), FeatureView::empty()).outcome
}

impl VectorTileFeature {
    /// Decodes a feature message.
    pub fn parse(data: &mut Pbf) -> (r: Result<VectorTileFeature, PbfError>)
        ensures
            parses(spec_feature_run(old(data)@, FeatureView::empty()), r, final(data)@),
    {
        let mut id: u64 = 0;
        let mut geom_type: u32 = 0;
        let mut tags: HashMap<u32, u32> = HashMap::new();
        let mut geometry: Vec<VectorTileGeometry> = Vec::new();
        proof {
            lemma_views_empty::<VectorTileGeometry>();
        }
        loop
            invariant
                spec_feature_run(old(data)@, FeatureView::empty()) == spec_feature_run(
                    data@,
                    FeatureView { id, geom_type, tags: tags@, geometry: views(geometry@) },
                ),
            decreases data@.bytes.len(),
        {
            proof {
                lemma_reads_consume(data@.bytes);
            }
            match data.next() {
                Ok(true) => {},
                Ok(false) => {
                    return Ok(VectorTileFeature { id, geom_type, tags, geometry });
                },
                Err(e) => {
                    return Err(e);
                },
            }
            proof {
                lemma_reads_consume(data@.bytes);
            }
            let field = data.tag();
            if field == FEATURE_ID {
                match data.varint64() {
                    Ok(v) => {
                        id = v;
                    },
                    Err(e) => {
                        return Err(e);
                    },
                }
            } else if field == FEATURE_TAGS {
                let mut msg = match data.message() {
                    Ok(msg) => msg,
                    Err(e) => {
                        return Err(e);
                    },
                };
                match VectorTileFeature::parse_tags(tags, &mut msg) {
                    Ok(more) => {
                        tags = more;
                    },
                    Err(e) => {
                        return Err(e);
                    },
                }
            } else if field == FEATURE_TYPE {
                match data.varint32() {
                    Ok(v) => {
                        geom_type = v;
                    },
                    Err(e) => {
                        return Err(e);
                    },
                }
            } else if field == FEATURE_GEOMETRY {
                let mut msg = match data.message() {
                    Ok(msg) => msg,
                    Err(e) => {
                        return Err(e);
                    },
                };
                match VectorTileGeometry::parse(&mut msg) {
                    Ok(g) => {
                        proof {
                            lemma_views_push(geometry@, g);
                        }
                        geometry.push(g);
                    },
                    Err(e) => {
                        return Err(e);
                    },
                }
            } else {
                match data.skip() {
                    Ok(()) => {},
                    Err(e) => {
                        return Err(e);
                    },
                }
            }
        }
    }

    /// Decodes a packed tag list and adds its pairs to `tags`.
    fn parse_tags(tags: HashMap<u32, u32>, data: &mut Pbf) -> (r: Result<
        HashMap<u32, u32>,
        PbfError,
    >)
        ensures
            parses(spec_tags_run(old(data)@, tags@), r, final(data)@),
    {
        let ghost first = tags@;
        let mut acc = tags;
        while data.has_next()
            invariant
                first == tags@,
                spec_tags_run(old(data)@, first) == spec_tags_run(data@, acc@),
            decreases data@.bytes.len(),
        {
            proof {
                lemma_reads_consume(data@.bytes);
            }
            let tag_key = match data.varint32() {
                Ok(k) => k,
                Err(e) => {
                    return Err(e);
                },
            };
            if !data.has_next() {
                return Err(PbfError::OddTagCount);
            }
            proof {
                lemma_reads_consume(data@.bytes);
            }
            let tag_val = match data.varint32() {
                Ok(v) => v,
                Err(e) => {
                    return Err(e);
                },
            };
            acc.insert(tag_key, tag_val);
        }
        Ok(acc)
    }
}

} // verus!
