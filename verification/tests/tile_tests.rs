use std::collections::HashMap;
use vector_map::encode::encode_fixed32;
use vector_map::encode::encode_fixed64;
use vector_map::encode::encode_varint;
use vector_map::encode::zigzag_encode;
use vector_map::encode::zigzag_encode32;
use vector_map::pbf::Pbf;
use vector_map::tile_feature::VectorTileFeature;
use vector_map::tile_geometry::VectorTileGeometry;
use vector_map::tile_layer::VectorTileLayer;
use vector_map::tile_value::VectorTileValue;
use vector_map::vector_tile_model::VectorTileModel;
use vector_map::wire::PbfError;

fn key(field: u32, wire: u32) -> Vec<u8> {
    encode_varint(((field << 3) | wire) as u64)
}

fn varint_field(field: u32, v: u64) -> Vec<u8> {
    let mut out = key(field, 0);
    out.extend(encode_varint(v));
    out
}

fn bytes_field(field: u32, payload: &[u8]) -> Vec<u8> {
    let mut out = key(field, 2);
    out.extend(encode_varint(payload.len() as u64));
    out.extend_from_slice(payload);
    out
}

fn command(cmd: u32, count: u32) -> Vec<u8> {
    encode_varint(((count << 3) | cmd) as u64)
}

fn offset(d: i32) -> Vec<u8> {
    encode_varint(zigzag_encode32(d) as u64)
}

fn stream(parts: &[Vec<u8>]) -> Vec<u8> {
    let mut out = Vec::new();
    for part in parts {
        out.extend_from_slice(part);
    }
    out
}

fn geometry_of(bytes: Vec<u8>) -> Result<VectorTileGeometry, PbfError> {
    let mut p = Pbf::new(bytes);
    VectorTileGeometry::parse(&mut p)
}

fn triangle() -> Vec<u8> {
    stream(&[
        command(1, 1),
        offset(10),
        offset(20),
        command(2, 2),
        offset(5),
        offset(-5),
        offset(-15),
        offset(25),
        command(7, 1),
    ])
}

fn sample_feature() -> Vec<u8> {
    stream(&[
        varint_field(1, 77),
        bytes_field(2, &[0, 0, 1, 1]),
        varint_field(3, 3),
        bytes_field(4, &triangle()),
    ])
}

fn sample_layer() -> Vec<u8> {
    stream(&[
        bytes_field(1, b"roads"),
        bytes_field(2, &sample_feature()),
        bytes_field(3, b"kind"),
        bytes_field(3, b"lanes"),
        bytes_field(4, &bytes_field(1, b"street")),
        bytes_field(4, &varint_field(5, 2)),
        varint_field(5, 4096),
    ])
}

#[test]
fn closed_ring_has_four_points_and_ends_where_it_began() {
    let g = geometry_of(triangle()).unwrap();
    assert_eq!(g.geom_set.len(), 1);
    let ring = &g.geom_set[0];
    assert_eq!(ring.len(), 4);
    assert_eq!(ring[3], ring[0]);
    assert_eq!(*ring, vec![(10, 20), (15, 15), (0, 40), (10, 20)]);
}

#[test]
fn empty_stream_has_no_ring() {
    let g = geometry_of(Vec::new()).unwrap();
    assert!(g.geom_set.is_empty());
}

#[test]
fn points_without_close_path_are_given() {
    let g = geometry_of(stream(&[command(1, 1), offset(3), offset(4)])).unwrap();
    assert_eq!(g.geom_set, vec![vec![(3, 4)]]);
}

#[test]
fn each_move_to_starts_a_ring() {
    let bytes = stream(&[
        command(1, 3),
        offset(1),
        offset(1),
        offset(2),
        offset(2),
        offset(-4),
        offset(0),
    ]);
    let g = geometry_of(bytes).unwrap();
    assert_eq!(g.geom_set, vec![vec![(1, 1)], vec![(3, 3)], vec![(-1, 3)]]);
}

#[test]
fn offsets_run_on_from_ring_to_ring() {
    let bytes = stream(&[
        command(1, 1),
        offset(100),
        offset(100),
        command(2, 1),
        offset(10),
        offset(0),
        command(7, 1),
        command(1, 1),
        offset(1),
        offset(1),
        command(2, 1),
        offset(0),
        offset(5),
    ]);
    let g = geometry_of(bytes).unwrap();
    assert_eq!(
        g.geom_set,
        vec![vec![(100, 100), (110, 100), (100, 100)], vec![(111, 101), (111, 106)]]
    );
}

#[test]
fn close_path_without_a_ring_does_nothing() {
    let g = geometry_of(command(7, 1)).unwrap();
    assert!(g.geom_set.is_empty());
    let twice = geometry_of(stream(&[
        command(1, 1),
        offset(1),
        offset(2),
        command(7, 2),
        command(7, 1),
    ]))
    .unwrap();
    assert_eq!(twice.geom_set, vec![vec![(1, 2), (1, 2)]]);
}

#[test]
fn header_with_count_zero_runs_nothing() {
    let g = geometry_of(stream(&[command(2, 0), command(1, 1), offset(7), offset(8)])).unwrap();
    assert_eq!(g.geom_set, vec![vec![(7, 8)]]);
}

#[test]
fn stream_that_ends_before_the_count_is_cut_short() {
    let g = geometry_of(stream(&[command(2, 5), offset(1), offset(1)])).unwrap();
    assert_eq!(g.geom_set, vec![vec![(1, 1)]]);
}

#[test]
fn unknown_command_fails() {
    for cmd in [0u32, 3, 4, 5, 6] {
        assert_eq!(geometry_of(command(cmd, 1)), Err(PbfError::UnknownGeometryCommand));
    }
    assert_eq!(
        geometry_of(stream(&[command(1, 1), offset(1), offset(1), command(3, 0)])),
        Err(PbfError::UnknownGeometryCommand)
    );
}

#[test]
fn point_cut_in_half_fails() {
    assert_eq!(
        geometry_of(stream(&[command(1, 1), offset(1)])),
        Err(PbfError::MalformedVarint)
    );
    assert_eq!(
        geometry_of(stream(&[command(1, 1), vec![0x80]])),
        Err(PbfError::MalformedVarint)
    );
}

#[test]
fn extreme_offsets_add_up_without_wrapping() {
    let bytes = stream(&[
        command(1, 1),
        offset(i32::MAX),
        offset(i32::MIN),
        command(2, 2),
        offset(i32::MAX),
        offset(i32::MIN),
        offset(i32::MAX),
        offset(i32::MIN),
    ]);
    let g = geometry_of(bytes).unwrap();
    let x = i32::MAX as i128;
    let y = i32::MIN as i128;
    assert_eq!(g.geom_set, vec![vec![(x, y), (2 * x, 2 * y), (3 * x, 3 * y)]]);
}

#[test]
fn value_of_each_kind() {
    let cases: Vec<(Vec<u8>, VectorTileValue)> = vec![
        (Vec::new(), VectorTileValue::NoValue),
        (bytes_field(1, b"park"), VectorTileValue::StringVal(String::from("park"))),
        (
            stream(&[key(2, 5), encode_fixed32(1.5f32.to_bits())]),
            VectorTileValue::Float32Val(1.5f32.to_bits()),
        ),
        (
            stream(&[key(3, 1), encode_fixed64((-2.25f64).to_bits())]),
            VectorTileValue::Float64Val((-2.25f64).to_bits()),
        ),
        (varint_field(4, zigzag_encode(-12)), VectorTileValue::Int64Val(-12)),
        (varint_field(5, u64::MAX), VectorTileValue::UInt64Val(u64::MAX)),
        (varint_field(6, zigzag_encode(i64::MIN)), VectorTileValue::SInt64Val(i64::MIN)),
        (stream(&[key(7, 0), vec![1]]), VectorTileValue::BoolVal(true)),
        (stream(&[key(7, 0), vec![0]]), VectorTileValue::BoolVal(false)),
    ];
    for (bytes, expected) in cases {
        let mut p = Pbf::new(bytes);
        assert_eq!(VectorTileValue::parse(&mut p), Ok(expected));
        assert!(!p.has_next());
    }
}

#[test]
fn last_value_of_a_message_stands() {
    let bytes = stream(&[bytes_field(1, b"a"), varint_field(5, 9), varint_field(99, 1)]);
    let mut p = Pbf::new(bytes);
    assert_eq!(VectorTileValue::parse(&mut p), Ok(VectorTileValue::UInt64Val(9)));
}

#[test]
fn value_with_bad_text_fails() {
    let mut p = Pbf::new(bytes_field(1, &[0xFF, 0xFE]));
    assert_eq!(VectorTileValue::parse(&mut p), Err(PbfError::InvalidEncoding));
    let mut q = Pbf::new(stream(&[key(2, 5), vec![1, 2]]));
    assert_eq!(VectorTileValue::parse(&mut q), Err(PbfError::OutOfRange));
}

#[test]
fn feature_fields_are_read() {
    let mut p = Pbf::new(sample_feature());
    let f = VectorTileFeature::parse(&mut p).unwrap();
    assert_eq!(f.id, 77);
    assert_eq!(f.geom_type, 3);
    let mut tags = HashMap::new();
    tags.insert(0, 0);
    tags.insert(1, 1);
    assert_eq!(f.tags, tags);
    assert_eq!(f.geometry.len(), 1);
    assert_eq!(f.geometry[0].geom_set, vec![vec![(10, 20), (15, 15), (0, 40), (10, 20)]]);
}

#[test]
fn empty_feature_has_defaults() {
    let mut p = Pbf::new(Vec::new());
    let f = VectorTileFeature::parse(&mut p).unwrap();
    assert_eq!(f.id, 0);
    assert_eq!(f.geom_type, 0);
    assert!(f.tags.is_empty());
    assert!(f.geometry.is_empty());
}

#[test]
fn later_tag_for_a_key_takes_the_place_of_an_earlier() {
    let bytes = stream(&[bytes_field(2, &[4, 1, 5, 2]), bytes_field(2, &[4, 9])]);
    let mut p = Pbf::new(bytes);
    let f = VectorTileFeature::parse(&mut p).unwrap();
    let mut tags = HashMap::new();
    tags.insert(4, 9);
    tags.insert(5, 2);
    assert_eq!(f.tags, tags);
}

#[test]
fn odd_number_of_tag_indices_fails() {
    let mut p = Pbf::new(bytes_field(2, &[0, 0, 1]));
    assert_eq!(VectorTileFeature::parse(&mut p), Err(PbfError::OddTagCount));
    let mut q = Pbf::new(bytes_field(2, &[7]));
    assert_eq!(VectorTileFeature::parse(&mut q), Err(PbfError::OddTagCount));
}

#[test]
fn feature_with_bad_geometry_fails() {
    let mut p = Pbf::new(bytes_field(4, &command(4, 1)));
    assert_eq!(VectorTileFeature::parse(&mut p), Err(PbfError::UnknownGeometryCommand));
}

#[test]
fn layer_fields_are_read() {
    let mut p = Pbf::new(sample_layer());
    let layer = VectorTileLayer::parse(&mut p).unwrap();
    assert_eq!(layer.name, "roads");
    assert_eq!(layer.extent, 4096);
    assert_eq!(layer.keys, vec![String::from("kind"), String::from("lanes")]);
    assert_eq!(
        layer.values,
        vec![VectorTileValue::StringVal(String::from("street")), VectorTileValue::UInt64Val(2)]
    );
    assert_eq!(layer.features.len(), 1);
    assert_eq!(layer.features[0].id, 77);
}

#[test]
fn layer_without_extent_has_4096() {
    let mut p = Pbf::new(bytes_field(1, b"water"));
    let layer = VectorTileLayer::parse(&mut p).unwrap();
    assert_eq!(layer.extent, 4096);
    assert_eq!(layer.name, "water");
    assert!(layer.features.is_empty());
    assert!(layer.keys.is_empty());
    assert!(layer.values.is_empty());
}

#[test]
fn layer_extent_is_read() {
    let mut p = Pbf::new(varint_field(5, 512));
    let layer = VectorTileLayer::parse(&mut p).unwrap();
    assert_eq!(layer.extent, 512);
}

#[test]
fn layer_with_bad_name_fails() {
    let mut p = Pbf::new(bytes_field(1, &[0xC0]));
    assert_eq!(VectorTileLayer::parse(&mut p), Err(PbfError::InvalidEncoding));
}

#[test]
fn tile_layers_are_read_and_other_fields_stepped_over() {
    let bytes = stream(&[
        varint_field(1, 5),
        bytes_field(3, &sample_layer()),
        bytes_field(9, b"ignored"),
        stream(&[key(2, 5), vec![0; 4]]),
        stream(&[key(4, 1), vec![0; 8]]),
        bytes_field(3, &bytes_field(1, b"water")),
    ]);
    let tile = VectorTileModel::decode(bytes).unwrap();
    assert_eq!(tile.layers.len(), 2);
    assert_eq!(tile.layers[0].name, "roads");
    assert_eq!(tile.layers[1].name, "water");
}

#[test]
fn empty_bytes_are_an_empty_tile() {
    let tile = VectorTileModel::decode(Vec::new()).unwrap();
    assert!(tile.layers.is_empty());
}

#[test]
fn parse_leaves_the_cursor_at_the_end() {
    let mut p = Pbf::new(bytes_field(3, &sample_layer()));
    let tile = VectorTileModel::parse(&mut p).unwrap();
    assert_eq!(tile.layers.len(), 1);
    assert!(!p.has_next());
    assert_eq!(p.tag(), 3);
}

#[test]
fn tile_truncated_mid_varint_fails() {
    let mut bytes = bytes_field(3, &sample_layer());
    bytes.push(0x80);
    assert_eq!(VectorTileModel::decode(bytes), Err(PbfError::MalformedVarint));
    assert_eq!(VectorTileModel::decode(vec![0x1A, 0x85]), Err(PbfError::MalformedVarint));
    assert_eq!(VectorTileModel::decode(vec![0xFF]), Err(PbfError::MalformedVarint));
}

#[test]
fn tile_cut_anywhere_never_decodes_to_more_than_the_whole() {
    let whole = stream(&[bytes_field(3, &sample_layer()), bytes_field(3, &sample_layer())]);
    let full = VectorTileModel::decode(whole.clone()).unwrap();
    for cut in 0..whole.len() {
        match VectorTileModel::decode(whole[..cut].to_vec()) {
            Ok(tile) => assert!(tile.layers.len() < full.layers.len()),
            Err(e) => assert!(matches!(
                e,
                PbfError::OutOfRange | PbfError::MalformedVarint
            )),
        }
    }
}

#[test]
fn tile_with_layer_longer_than_the_bytes_fails() {
    assert_eq!(VectorTileModel::decode(vec![0x1A, 0x05, 0x01]), Err(PbfError::OutOfRange));
}

#[test]
fn tile_with_unknown_wire_type_fails() {
    assert_eq!(VectorTileModel::decode(vec![0x0B]), Err(PbfError::UnknownWireType));
}

#[test]
fn tile_with_bad_layer_fails_whole() {
    let bad_layer = bytes_field(2, &bytes_field(4, &command(5, 1)));
    let bytes = stream(&[bytes_field(3, &sample_layer()), bytes_field(3, &bad_layer)]);
    assert_eq!(VectorTileModel::decode(bytes), Err(PbfError::UnknownGeometryCommand));
}

#[test]
fn point_at_the_extent_is_one_when_divided_by_it() {
    let geometry = stream(&[command(1, 1), offset(4096), offset(0)]);
    let feature = stream(&[varint_field(3, 1), bytes_field(4, &geometry)]);
    let layer = stream(&[bytes_field(2, &feature), varint_field(5, 4096)]);
    let tile = VectorTileModel::decode(bytes_field(3, &layer)).unwrap();
    let layer = &tile.layers[0];
    let point = layer.features[0].geometry[0].geom_set[0][0];
    assert_eq!(point, (4096, 0));
    let normalized = (
        point.0 as f32 / layer.extent as f32,
        point.1 as f32 / layer.extent as f32,
    );
    assert_eq!(normalized, (1.0, 0.0));
}
