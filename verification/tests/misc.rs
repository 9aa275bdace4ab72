use map_tiles::backend::{load_tile, TileError};
use map_tiles::perf::PerformanceData;
use map_tiles::plane::{Airline, PlaneType};
use map_tiles::profiler::{profile_scope, take_profile_data, Profiler};
use map_tiles::strfmt::StringFormatter;
use map_tiles::weather::{
    next_weather_action, weather_transition, WeatherAction, WeatherDataState, WeatherEvent,
};

#[test]
fn plane_labels() {
    assert_eq!(PlaneType::Commercial.to_str(), "Commercial");
    assert_eq!(PlaneType::Cargo.to_str(), "Cargo");
    assert_eq!(PlaneType::Unknown.to_str(), "Unkown");
    assert_eq!(Airline::American.to_str(), "American Airlines");
    assert_eq!(Airline::Spirit.to_str(), "Spirit Airlines");
    assert_eq!(Airline::Southwest.to_str(), "Southwest Airlines");
    assert_eq!(Airline::United.to_str(), "United Airlines");
    assert_eq!(Airline::Delta.to_str(), "Delta Airlines");
    assert_eq!(Airline::All.to_str(), "Unknown");
    assert_eq!(Airline::Other.to_str(), "Unknown");
}

#[test]
fn weather_actions() {
    assert_eq!(
        next_weather_action(WeatherDataState::Uninitialized, 0),
        WeatherAction::StartInit
    );
    assert_eq!(
        next_weather_action(WeatherDataState::Initializing, 0),
        WeatherAction::WaitForInit
    );
    assert_eq!(
        next_weather_action(WeatherDataState::Available, 301),
        WeatherAction::StartRefresh
    );
    assert_eq!(
        next_weather_action(WeatherDataState::Available, 300),
        WeatherAction::RenderFrame
    );
    assert_eq!(
        next_weather_action(WeatherDataState::AvailableUpdating, 10_000),
        WeatherAction::RenderFrame
    );
}

#[test]
fn weather_transitions() {
    assert_eq!(
        weather_transition(WeatherDataState::Uninitialized, WeatherEvent::InitStarted),
        WeatherDataState::Initializing
    );
    assert_eq!(
        weather_transition(WeatherDataState::Initializing, WeatherEvent::InitSucceeded),
        WeatherDataState::Available
    );
    assert_eq!(
        weather_transition(WeatherDataState::Initializing, WeatherEvent::InitFailed),
        WeatherDataState::Uninitialized
    );
    assert_eq!(
        weather_transition(WeatherDataState::Available, WeatherEvent::RefreshStarted),
        WeatherDataState::AvailableUpdating
    );
    assert_eq!(
        weather_transition(WeatherDataState::AvailableUpdating, WeatherEvent::RefreshFinished),
        WeatherDataState::Available
    );
    // An event that lost its race changes nothing.
    assert_eq!(
        weather_transition(WeatherDataState::Available, WeatherEvent::InitSucceeded),
        WeatherDataState::Available
    );
    assert_eq!(
        weather_transition(WeatherDataState::Uninitialized, WeatherEvent::RefreshFinished),
        WeatherDataState::Uninitialized
    );
}

#[test]
fn profiler_records_scopes() {
    let mut p = Profiler::new();
    let guard = profile_scope(&mut p, "draw", 100);
    guard.end(&mut p, 250);
    let guard = profile_scope(&mut p, "draw", 300);
    guard.end(&mut p, 450);
    let guard = profile_scope(&mut p, "fetch", 500);
    guard.end(&mut p, 520);
    let data = take_profile_data(&mut p);
    assert_eq!(data.len(), 2);
    assert_eq!(data[0].0, "draw");
    assert_eq!(data[0].1.get_samples(), &vec![150u64, 150]);
    assert_eq!(data[1].0, "fetch");
    assert_eq!(data[1].1.get_samples(), &vec![20u64]);
    assert_eq!(take_profile_data(&mut p).len(), 0);
}

#[test]
fn string_formatter_caps_writes() {
    let mut f: StringFormatter<8> = StringFormatter::new();
    assert!(f.write_str("hello").is_ok());
    assert!(f.write_str("world").is_err());
    assert_eq!(f.as_str(), "hello");
    assert!(f.write_str("abc").is_ok());
    assert_eq!(f.as_str(), "helloabc");
    assert!(f.write_str("x").is_err());
    f.clear();
    assert_eq!(f.as_str(), "");
    assert!(f.write_str("again").is_ok());
    assert_eq!(f.as_str(), "again");
}

#[test]
fn string_formatter_accepts_empty_pieces() {
    let mut f: StringFormatter<2> = StringFormatter::new();
    assert!(f.write_str("").is_ok());
    assert!(f.write_str("ab").is_ok());
    assert!(f.write_str("").is_ok());
    assert_eq!(f.as_str(), "ab");
}

#[test]
fn perf_snapshot_of_fresh_counters_is_zero() {
    let d = PerformanceData::new();
    let s = d.snapshot();
    assert_eq!(s.tile_decode_nanos, 0);
    assert_eq!(s.tile_upload_nanos, 0);
    assert_eq!(s.backend_request_nanos.len(), 0);
}

#[test]
fn perf_snapshot_averages() {
    let mut d = PerformanceData::new();
    d.set_counts(7, 8, 9, 3);
    d.add_decode_sample(10);
    d.add_decode_sample(30);
    d.add_upload_sample(5);
    d.add_backend_sample("Disk", 100);
    d.add_backend_sample("Disk", 200);
    d.add_backend_sample("Satellite Requester", 400);
    let s = d.snapshot();
    assert_eq!(s.tiles_rendered, 7);
    assert_eq!(s.tiles_on_gpu, 8);
    assert_eq!(s.tiles_in_memory, 9);
    assert_eq!(s.zoom, 3);
    assert_eq!(s.tile_decode_nanos, 20);
    assert_eq!(s.tile_upload_nanos, 5);
    assert_eq!(s.backend_request_nanos.len(), 2);
    assert_eq!(s.backend_request_nanos[0].0, "Disk");
    assert_eq!(s.backend_request_nanos[0].1, 150);
    assert_eq!(s.backend_request_nanos[1].0, "Satellite Requester");
    assert_eq!(s.backend_request_nanos[1].1, 400);
}

#[test]
fn perf_window_forgets_old_samples() {
    let mut d = PerformanceData::new();
    for i in 0..20u64 {
        d.add_decode_sample(i);
    }
    // Only the newest 16 samples (4..=19) remain: their mean floors to 11.
    assert_eq!(d.snapshot().tile_decode_nanos, 11);
}

#[test]
fn tile_decode_square_round_trip() {
    let pixels: Vec<u8> = vec![
        255, 0, 0, 255, 0, 255, 0, 255, 0, 0, 255, 255, 255, 255, 255, 255,
    ];
    let mut png: Vec<u8> = Vec::new();
    image::png::PngEncoder::new(&mut png)
        .encode(&pixels, 2, 2, image::ColorType::Rgba8)
        .unwrap();
    let tex = match load_tile(&png) {
        Ok(t) => t,
        Err(e) => panic!("decode failed: {:?}", e),
    };
    assert_eq!(tex.width, 2);
    assert_eq!(tex.height, 2);
    assert_eq!(tex.pixels, pixels);
}

#[test]
fn tile_decode_rejects_non_square() {
    let pixels: Vec<u8> = vec![255, 0, 0, 255, 0, 255, 0, 255];
    let mut png: Vec<u8> = Vec::new();
    image::png::PngEncoder::new(&mut png)
        .encode(&pixels, 2, 1, image::ColorType::Rgba8)
        .unwrap();
    assert!(matches!(load_tile(&png), Err(TileError::Image)));
}

#[test]
fn tile_decode_rejects_garbage() {
    let garbage: Vec<u8> = vec![1, 2, 3, 4];
    assert!(matches!(load_tile(&garbage), Err(TileError::Image)));
}
