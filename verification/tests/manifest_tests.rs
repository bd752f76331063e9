use vector_map::manifest::convert_uber_url;
use vector_map::manifest::load_manifest;
use vector_map::manifest::manifest_notice;
use vector_map::manifest::manifest_type_of;
use vector_map::manifest::ManifestAction;
use vector_map::manifest::ManifestError;
use vector_map::manifest::SourceEntry;
use vector_map::manifest_model::ManifestFields;
use vector_map::manifest_model::ManifestModel;
use vector_map::manifest_model::ManifestType;

fn no_fields() -> ManifestFields {
    ManifestFields {
        name: None,
        scheme: None,
        minzoom: None,
        maxzoom: None,
        tilezooms: None,
        tilejson: None,
        prefetchable: None,
        priority: None,
        bounds: None,
        center: None,
        tiles: None,
    }
}

fn lists_only() -> ManifestFields {
    ManifestFields {
        tilezooms: Some(Vec::new()),
        bounds: Some(Vec::new()),
        center: Some(Vec::new()),
        tiles: Some(Vec::new()),
        ..no_fields()
    }
}

fn full_fields() -> ManifestFields {
    ManifestFields {
        name: Some(String::from("composite")),
        scheme: Some(String::from("xyz")),
        minzoom: Some(2),
        maxzoom: Some(-16),
        tilezooms: Some(vec![Some(10), None, Some(12)]),
        tilejson: Some(String::from("2.2.0")),
        prefetchable: Some(true),
        priority: Some(7),
        bounds: Some(vec![Some((-180.0f64).to_bits()), None]),
        center: Some(vec![Some(37.75f64.to_bits())]),
        tiles: Some(vec![Some(String::from("https://h/{z}/{x}/{y}/COMPOSITE")), None]),
    }
}

#[test]
fn new_manifest_is_empty() {
    let m = ManifestModel::new();
    assert_eq!(m.kind, ManifestType::Vector);
    assert_eq!(m.name, "");
    assert_eq!(m.scheme, "");
    assert_eq!(m.minzoom, 0);
    assert_eq!(m.maxzoom, 0);
    assert!(m.tilezooms.is_empty());
    assert_eq!(m.tilejson, "");
    assert!(!m.prefetchable);
    assert_eq!(m.priority, 0);
    assert!(m.bounds.is_empty());
    assert!(m.center.is_empty());
    assert!(m.tiles.is_empty());
}

#[test]
fn manifest_takes_the_members_of_its_document() {
    let m = ManifestModel::parse(&ManifestType::Raster, &full_fields()).unwrap();
    assert_eq!(m.kind, ManifestType::Raster);
    assert_eq!(m.name, "composite");
    assert_eq!(m.scheme, "xyz");
    assert_eq!(m.minzoom, 2);
    assert_eq!(m.maxzoom, -16);
    assert_eq!(m.tilezooms, vec![10, 0, 12]);
    assert_eq!(m.tilejson, "2.2.0");
    assert!(m.prefetchable);
    assert_eq!(m.priority, 7);
    assert_eq!(m.bounds, vec![(-180.0f64).to_bits(), 0]);
    assert_eq!(f64::from_bits(m.bounds[1]), 0.0);
    assert_eq!(f64::from_bits(m.center[0]), 37.75);
    assert_eq!(m.tiles, vec![String::from("https://h/{z}/{x}/{y}/COMPOSITE"), String::new()]);
}

#[test]
fn wanting_members_have_their_defaults() {
    let m = ManifestModel::parse(&ManifestType::Vector, &lists_only()).unwrap();
    assert_eq!(m, ManifestModel::new());
    let unset = ManifestFields { prefetchable: Some(false), ..lists_only() };
    assert!(!ManifestModel::parse(&ManifestType::Vector, &unset).unwrap().prefetchable);
}

#[test]
fn manifest_without_one_of_its_lists_is_none() {
    assert!(ManifestModel::parse(&ManifestType::Vector, &no_fields()).is_none());
    let cases = [
        ManifestFields { tilezooms: None, ..full_fields() },
        ManifestFields { bounds: None, ..full_fields() },
        ManifestFields { center: None, ..full_fields() },
        ManifestFields { tiles: None, ..full_fields() },
    ];
    for fields in cases.iter() {
        assert!(ManifestModel::parse(&ManifestType::Vector, fields).is_none());
    }
}

#[test]
fn discovery_address_goes_to_the_service() {
    assert_eq!(
        convert_uber_url("/tile-discovery-api/v1/composite"),
        "REMOVED/rt/msd/v1/composite"
    );
    assert_eq!(convert_uber_url("/tile-discovery-api"), "REMOVED/rt/msd");
}

#[test]
fn other_address_stays() {
    assert_eq!(convert_uber_url("https://h/sources/composite"), "https://h/sources/composite");
    assert_eq!(convert_uber_url("/tile-discovery-ap"), "/tile-discovery-ap");
    assert_eq!(convert_uber_url("x/tile-discovery-api/v1"), "x/tile-discovery-api/v1");
    assert_eq!(convert_uber_url(""), "");
}

#[test]
fn only_the_word_raster_names_raster_tiles() {
    assert_eq!(manifest_type_of("raster"), ManifestType::Raster);
    assert_eq!(manifest_type_of("vector"), ManifestType::Vector);
    assert_eq!(manifest_type_of("Raster"), ManifestType::Vector);
    assert_eq!(manifest_type_of(""), ManifestType::Vector);
}

#[test]
fn source_with_a_url_has_its_manifest_fetched() {
    let entry = SourceEntry {
        kind: Some(String::from("vector")),
        has_url: true,
        url: Some(String::from("/tile-discovery-api/m")),
        fields: no_fields(),
    };
    assert_eq!(load_manifest(&entry), Ok(ManifestAction::Fetch(String::from("REMOVED/rt/msd/m"))));
}

#[test]
fn source_without_a_url_is_its_manifest() {
    let entry = SourceEntry {
        kind: Some(String::from("raster")),
        has_url: false,
        url: None,
        fields: full_fields(),
    };
    let expected = ManifestModel::parse(&ManifestType::Raster, &full_fields()).unwrap();
    assert_eq!(load_manifest(&entry), Ok(ManifestAction::Use(expected)));
    let vector = SourceEntry { kind: Some(String::from("anything")), ..entry };
    match load_manifest(&vector) {
        Ok(ManifestAction::Use(model)) => assert_eq!(model.kind, ManifestType::Vector),
        other => panic!("{:?}", other),
    }
}

#[test]
fn source_that_cannot_be_acted_on_says_why() {
    let no_type = SourceEntry { kind: None, has_url: true, url: Some(String::new()), fields: full_fields() };
    assert_eq!(load_manifest(&no_type), Err(ManifestError::NoType));
    let bad_url = SourceEntry {
        kind: Some(String::from("vector")),
        has_url: true,
        url: None,
        fields: full_fields(),
    };
    assert_eq!(load_manifest(&bad_url), Err(ManifestError::UrlNotText));
    let incomplete = SourceEntry {
        kind: Some(String::from("vector")),
        has_url: false,
        url: None,
        fields: no_fields(),
    };
    assert_eq!(load_manifest(&incomplete), Err(ManifestError::Incomplete));
}

#[test]
fn notice_holds_the_first_template_and_the_zooms() {
    let m = ManifestModel::parse(&ManifestType::Vector, &full_fields()).unwrap();
    assert_eq!(
        manifest_notice(&m),
        Some((String::from("https://h/{z}/{x}/{y}/COMPOSITE"), vec![10, 0, 12]))
    );
    assert_eq!(manifest_notice(&ManifestModel::new()), None);
}

#[test]
fn style_head_takes_the_members_of_its_document() {
    let fields = vector_map::style_model::StyleFields {
        name: Some(String::from("day")),
        minzoom: Some(1),
        maxzoom: Some(22),
        sprite: Some(String::from("https://h/sprite")),
        glyphs: None,
        has_layers: true,
        has_sources: true,
    };
    let head = vector_map::style_model::StyleModel::parse(&fields).unwrap();
    assert_eq!(head.name, "day");
    assert_eq!(head.min_zoom, 1);
    assert_eq!(head.max_zoom, 22);
    assert_eq!(head.sprite_url, "https://h/sprite");
    assert_eq!(head.glyph_template_url, "");
}

#[test]
fn style_without_layers_or_sources_is_none() {
    let fields = vector_map::style_model::StyleFields {
        name: None,
        minzoom: None,
        maxzoom: None,
        sprite: None,
        glyphs: None,
        has_layers: true,
        has_sources: true,
    };
    let head = vector_map::style_model::StyleModel::parse(&fields).unwrap();
    assert_eq!(head, vector_map::style_model::StyleModel::new());
    let no_layers = vector_map::style_model::StyleFields { has_layers: false, ..fields.clone() };
    assert!(vector_map::style_model::StyleModel::parse(&no_layers).is_none());
    let no_sources = vector_map::style_model::StyleFields { has_sources: false, ..fields };
    assert!(vector_map::style_model::StyleModel::parse(&no_sources).is_none());
}
