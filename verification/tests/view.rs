use map_tiles::view::{TileView, TileViewIterator, WORLD_ONE};

/// Converts a latitude and longitude (degrees) to fixed-point world
/// coordinates with the spherical-Mercator projection.
fn world_from_lat_lon(lat: f64, lon: f64) -> (u64, u64) {
    let pi = std::f64::consts::PI;
    let x = (lon + 180.0) / 360.0;
    let lat_rads = pi * lat / 180.0;
    let y = (pi - f64::atanh(f64::sin(lat_rads))) / (2.0 * pi);
    (
        (x * WORLD_ONE as f64) as u64,
        (y * WORLD_ONE as f64) as u64,
    )
}

/// The fixed-point pixel size of a window `window_width` pixels wide at
/// fractional zoom `zoom`.
fn pixel_size_fixed(zoom: f64, window_width: f64) -> u64 {
    ((1.0 / 2f64.powf(zoom) / window_width) * WORLD_ONE as f64) as u64
}

fn assert_tiles_visible(
    view: &TileView,
    tile_size: u32,
    sw: u32,
    sh: u32,
    x_start: u32,
    x_len: u32,
    y_start: u32,
    y_len: u32,
) {
    let mut it = view.tile_iter(tile_size, sw, sh);
    let max_tile = 1u32 << it.tile_zoom;
    let mut rendered = Vec::new();
    while let Some(t) = it.next() {
        rendered.push(t);
    }
    for x in x_start..x_start + x_len {
        for y in y_start..y_start + y_len {
            let expect = (x % max_tile, y % max_tile);
            assert!(
                rendered.contains(&expect),
                "Tile {:?} not rendered (got {:?})",
                expect,
                rendered
            );
        }
    }
}

#[test]
fn tile_view() {
    let mut view = TileView::new(
        WORLD_ONE / 2,
        WORLD_ONE / 2,
        pixel_size_fixed(0.0, 1000.0),
    );
    // Center the world and use zoom level 0 - the whole world is visible.
    // With a screen 1000 pixels wide, we need at least 1000 pixels wide of
    // tiles to look nice. Because our virtual tiles are 256x256, we need 4
    // of them to fill the screen (1024 pixels): zoom level 2 = 2^2 tiles.
    assert_eq!(view.tile_zoom_level(256), 2);
    assert_eq!(view.tile_zoom_level(200), 3);

    assert_eq!(view.tile_zoom_level(512), 1);

    // At zoom level 2 with a 500 pixel window we need 2 tiles for the
    // window, so each tile is at zoom level 3.
    view.set_zoom(2, 500);
    assert_eq!(view.tile_zoom_level(256), 3);
    assert_eq!(view.tile_zoom_level(128), 4);
}

#[test]
fn tile_view_it() {
    let mut it = TileViewIterator {
        max_tile: 2,
        first_x: 0,
        first_y: 0,
        tiles_horizontally: 2,
        tiles_vertically: 2,
        tile_zoom: 1,
        tile_offset_x: 0,
        tile_offset_y: 0,
        tile_size: 0,
        idx_x: 0,
        idx_y: 0,
    };
    assert_eq!(it.next(), Some((0, 0)));
    assert_eq!(it.next(), Some((0, 1)));
    assert_eq!(it.next(), Some((1, 0)));
    assert_eq!(it.next(), Some((1, 1)));
    assert_eq!(it.next(), None);
}

#[test]
fn tile_it_1() {
    let screen_width = 500.0;
    let screen_height = 500.0;
    // Use a tiny bit of zoom to force a deeper level to be chosen
    let view = TileView::new(
        WORLD_ONE / 2,
        WORLD_ONE / 2,
        pixel_size_fixed(0.001, screen_width),
    );
    assert_tiles_visible(
        &view,
        256,
        screen_width as u32,
        screen_height as u32,
        0,
        2,
        0,
        2,
    );
}

#[test]
fn tile_it_2() {
    let screen_width = 500.0;
    let screen_height = 500.0;

    let view = TileView::new(
        WORLD_ONE / 2,
        WORLD_ONE / 2,
        pixel_size_fixed(1.0, screen_width),
    );
    assert_tiles_visible(
        &view,
        256,
        screen_width as u32,
        screen_height as u32,
        1,
        2,
        1,
        2,
    );
}

#[test]
fn enumeration_count_matches_block() {
    let mut it = TileViewIterator {
        max_tile: 4,
        first_x: 3,
        first_y: 2,
        tiles_horizontally: 3,
        tiles_vertically: 2,
        tile_zoom: 2,
        tile_offset_x: 0,
        tile_offset_y: 0,
        tile_size: 0,
        idx_x: 0,
        idx_y: 0,
    };
    let tiles = it.collect_tiles();
    assert_eq!(tiles.len(), 6);
    assert_eq!(tiles, vec![(3, 2), (3, 3), (0, 2), (0, 3), (1, 2), (1, 3)]);
    assert_eq!(it.next(), None);
}

#[test]
fn viewport_scenario_east_coast() {
    let (cx, cy) = world_from_lat_lon(29.18796, -81.04923);
    let view = TileView::new(cx, cy, pixel_size_fixed(8.0, 1080.0 / 2.0));
    let mut it = view.tile_iter(256, 1080, 540);
    let wide = it.tiles_horizontally as u64;
    let high = it.tiles_vertically as u64;
    let max_tile = 1u32 << it.tile_zoom;
    let mut count = 0u64;
    while let Some((x, y)) = it.next() {
        assert!(x < max_tile && y < max_tile);
        count += 1;
    }
    assert!(count > 0);
    assert_eq!(count, wide * high);
}

#[test]
fn zoom_level_never_rises_with_pixel_size() {
    let mut last = u32::MAX;
    for px in [16u64, 31, 100, 5000, 4_294_967, 500_000_000, WORLD_ONE] {
        let view = TileView::new(0, 0, px);
        let z = view.tile_zoom_level(256);
        assert!(z <= last, "zoom grew from {} to {} at pixel size {}", last, z, px);
        last = z;
    }
}

#[test]
fn camera_wraps_at_world_seam() {
    let mut view = TileView::new(10, 10, 1000);
    view.move_camera_pixels(-1, 0);
    // The centre moved 1000 world units west of 10, wrapping to the far
    // east side; observe it through the viewport's top left corner.
    let wv = view.get_world_viewport(2, 2);
    assert_eq!(wv.top_left.x, WORLD_ONE as i64 - 990 - 1000);
    assert_eq!(wv.top_left.y, 10 - 1000);
    assert!(wv.top_left.x <= wv.bottom_right.x);
    assert!(wv.top_left.y <= wv.bottom_right.y);
}

#[test]
fn multiply_zoom_applies_within_limits() {
    let mut view = TileView::new(0, 0, 1_000_000);
    view.multiply_zoom(WORLD_ONE * 2);
    // Pixel size doubled; the viewport's top left moved accordingly.
    assert_eq!(view.get_world_viewport(2, 2).top_left.x, -2_000_000);
}

#[test]
fn multiply_zoom_refuses_zooming_too_far_out() {
    let mut view = TileView::new(0, 0, 40_000_000);
    view.multiply_zoom(WORLD_ONE * 2);
    // 80 million world units per pixel would shrink the world below 100
    // pixels across: the change is dropped.
    assert_eq!(view.get_world_viewport(2, 2).top_left.x, -40_000_000);
}

#[test]
fn multiply_zoom_refuses_zooming_too_far_in() {
    let mut view = TileView::new(0, 0, 32);
    view.multiply_zoom(WORLD_ONE / 4);
    // 8 world units per pixel is past the zoom-in guard: unchanged.
    assert_eq!(view.get_world_viewport(2, 2).top_left.x, -32);
}
