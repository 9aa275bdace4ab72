use map_tiles::backend::ReadinessStatus;
use map_tiles::disk_cache::{
    get_tile_path, satellite_cache_data, weather_cache_data, CacheDecision, DiskCache,
};
use map_tiles::tile::TileId;

#[test]
fn tile_path_layout() {
    let p = get_tile_path(".cache/satellite", "jpg", TileId::new(5, 7, 3));
    assert_eq!(p, "./.cache/satellite/3/5/7.jpg");
}

#[test]
fn tile_path_multi_digit_coordinates() {
    let p = get_tile_path("tiles", "png", TileId::new(16_777_215, 0, 31));
    assert_eq!(p, "./tiles/31/16777215/0.png");
    let q = get_tile_path("tiles", "png", TileId::new(10, 205, 20));
    assert_eq!(q, "./tiles/20/10/205.png");
}

#[test]
fn cache_configurations() {
    let satellite = satellite_cache_data();
    assert_eq!(satellite.folder_name, ".cache/satellite");
    assert_eq!(satellite.image_extension, "jpg");
    assert_eq!(satellite.invalidate_time, 2_592_000);
    let weather = weather_cache_data();
    assert_eq!(weather.folder_name, ".cache/weather");
    assert_eq!(weather.image_extension, "png");
    assert_eq!(weather.invalidate_time, 300);
}

#[test]
fn disk_cache_invalidation() {
    let cache = DiskCache::new(weather_cache_data(), true);
    // A missing file falls through to the next tier.
    assert_eq!(cache.cache_decision(false, None), CacheDecision::Miss);
    // A file older than the invalidation threshold is removed and treated
    // as a miss; a file within the threshold is served without a fetch.
    assert_eq!(cache.cache_decision(true, Some(301)), CacheDecision::Remove);
    assert_eq!(cache.cache_decision(true, Some(300)), CacheDecision::Serve);
    assert_eq!(cache.cache_decision(true, Some(0)), CacheDecision::Serve);
    // A file whose age cannot be read is served as well.
    assert_eq!(cache.cache_decision(true, None), CacheDecision::Serve);
}

#[test]
fn disk_cache_readiness_is_existence() {
    let cache = DiskCache::new(satellite_cache_data(), false);
    assert_eq!(cache.readiness(true), ReadinessStatus::Available);
    assert_eq!(cache.readiness(false), ReadinessStatus::NotAvailable);
}

#[test]
fn disk_cache_file_paths() {
    let cache = DiskCache::new(satellite_cache_data(), false);
    let p = cache.tile_file_path(TileId::new(1, 2, 3));
    assert_eq!(p, "./.cache/satellite/3/1/2.jpg");
}
