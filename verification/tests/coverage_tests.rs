use vector_map::coverage::get_covered_tiles;
use vector_map::coverage::TileRange;
use vector_map::vector_tile_id::VectorTileID;

const TILE_SIZE: f32 = 512.0;

fn project(lat: f32, long: f32, zoom: u32) -> (f32, f32) {
    let k = 2u32.pow(zoom) as f32 / TILE_SIZE;
    let x = (180.0 + long) * TILE_SIZE / 360.0;
    let merc = 180.0 / std::f64::consts::PI
        * (std::f64::consts::PI / 4.0 + (lat as f64) * std::f64::consts::PI / 360.0)
            .tan()
            .ln();
    let y = ((180.0 - merc) * (TILE_SIZE as f64) / 360.0) as f32;
    (x * k, y * k)
}

fn range_of(center: (f32, f32), zoom: u32, viewport: (u32, u32)) -> TileRange {
    let (tile_x, tile_y) = project(center.0, center.1, zoom);
    let dx = viewport.0 as f32 / 2.0 / TILE_SIZE;
    let dy = viewport.1 as f32 / 2.0 / TILE_SIZE;
    TileRange {
        min_x: (tile_x - dx).floor() as u32,
        min_y: (tile_y - dy).floor() as u32,
        max_x: (tile_x + dx).floor() as u32,
        max_y: (tile_y + dy).floor() as u32,
        z: zoom,
    }
}

#[test]
fn viewport_over_san_francisco_is_covered_by_a_rectangle_around_its_centre() {
    let center = (37.75f32, -122.39f32);
    let (tile_x, tile_y) = project(center.0, center.1, 10);
    let range = range_of(center, 10, (900, 900));
    let tiles = get_covered_tiles(range);
    assert!(!tiles.is_empty());
    let centre = VectorTileID { x: tile_x.floor() as u32, y: tile_y.floor() as u32, z: 10 };
    assert_eq!(centre, VectorTileID { x: 163, y: 395, z: 10 });
    assert!(tiles.contains(&centre));
    let width = (range.max_x - range.min_x + 1) as usize;
    let height = (range.max_y - range.min_y + 1) as usize;
    assert_eq!(tiles.len(), width * height);
    for y in range.min_y..=range.max_y {
        for x in range.min_x..=range.max_x {
            assert!(tiles.contains(&VectorTileID { x, y, z: 10 }));
        }
    }
    assert_eq!(range, TileRange { min_x: 162, min_y: 395, max_x: 164, max_y: 396, z: 10 });
}

#[test]
fn tiles_come_row_by_row() {
    let tiles = get_covered_tiles(TileRange { min_x: 162, min_y: 395, max_x: 164, max_y: 396, z: 10 });
    assert_eq!(
        tiles,
        vec![
            VectorTileID { x: 162, y: 395, z: 10 },
            VectorTileID { x: 163, y: 395, z: 10 },
            VectorTileID { x: 164, y: 395, z: 10 },
            VectorTileID { x: 162, y: 396, z: 10 },
            VectorTileID { x: 163, y: 396, z: 10 },
            VectorTileID { x: 164, y: 396, z: 10 },
        ]
    );
}

#[test]
fn one_tile_covers_a_viewport_inside_it() {
    let tiles = get_covered_tiles(TileRange { min_x: 5, min_y: 6, max_x: 5, max_y: 6, z: 3 });
    assert_eq!(tiles, vec![VectorTileID { x: 5, y: 6, z: 3 }]);
}

#[test]
fn corners_out_of_order_cover_nothing() {
    assert!(get_covered_tiles(TileRange { min_x: 2, min_y: 0, max_x: 1, max_y: 5, z: 1 }).is_empty());
    assert!(get_covered_tiles(TileRange { min_x: 0, min_y: 5, max_x: 5, max_y: 4, z: 1 }).is_empty());
}

#[test]
fn range_at_the_edge_of_the_grid_is_covered() {
    let top = u32::MAX;
    let tiles = get_covered_tiles(
        TileRange { min_x: top - 1, min_y: top, max_x: top, max_y: top, z: 32 },
    );
    assert_eq!(
        tiles,
        vec![VectorTileID { x: top - 1, y: top, z: 32 }, VectorTileID { x: top, y: top, z: 32 }]
    );
}

#[test]
fn no_tile_is_named_twice() {
    let tiles = get_covered_tiles(TileRange { min_x: 10, min_y: 20, max_x: 14, max_y: 23, z: 7 });
    assert_eq!(tiles.len(), 20);
    for i in 0..tiles.len() {
        for j in 0..i {
            assert_ne!(tiles[i], tiles[j]);
        }
    }
}
