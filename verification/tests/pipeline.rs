use map_tiles::pipeline::{pipelines, TilePipeline};
use map_tiles::tile::TileId;

#[test]
fn request_dedup() {
    let mut p = TilePipeline::new(vec![None, Some(128)]);
    let t = TileId::new(3, 4, 5);
    // Two queries for the same missing tile enqueue exactly one fetch.
    assert_eq!(p.get_tile(t), None);
    assert_eq!(p.get_tile(t), None);
    let requests = p.take_requests();
    assert_eq!(requests.len(), 1);
    assert_eq!(requests[0], t);
    // Completing the fetch serves the handle from then on, with no new
    // requests.
    p.update(vec![(t, Some(42))]);
    assert_eq!(p.get_tile(t), Some(42));
    assert_eq!(p.take_requests().len(), 0);
}

#[test]
fn exhausted_fetch_marks_tile_unavailable() {
    let mut p = TilePipeline::new(vec![None]);
    let t = TileId::new(0, 0, 0);
    assert_eq!(p.get_tile(t), None);
    let _ = p.take_requests();
    p.update(vec![(t, None)]);
    // The tile stays answered as unavailable and is not refetched.
    assert_eq!(p.get_tile(t), None);
    assert_eq!(p.take_requests().len(), 0);
}

#[test]
fn distinct_tiles_fetch_independently() {
    let mut p = TilePipeline::new(vec![None, Some(128)]);
    let a = TileId::new(1, 1, 4);
    let b = TileId::new(2, 1, 4);
    assert_eq!(p.get_tile(a), None);
    assert_eq!(p.get_tile(b), None);
    let requests = p.take_requests();
    assert_eq!(requests.len(), 2);
    p.update(vec![(a, Some(7)), (b, None)]);
    assert_eq!(p.get_tile(a), Some(7));
    assert_eq!(p.get_tile(b), None);
}

#[test]
fn pipeline_tile_size_is_first_known() {
    let mut p = TilePipeline::new(vec![None, Some(128)]);
    assert_eq!(p.tile_size(), Some(128));
    assert_eq!(p.tile_size(), Some(128));

    let mut q = TilePipeline::new(vec![None, None]);
    assert_eq!(q.tile_size(), None);

    let mut both = TilePipeline::new(vec![Some(256), Some(512)]);
    assert_eq!(both.tile_size(), Some(256));
}

#[test]
fn empty_update_changes_nothing() {
    let mut p = TilePipeline::new(vec![Some(256)]);
    let t = TileId::new(0xff_ffff, 0xff_ffff, 31);
    assert_eq!(p.get_tile(t), None);
    p.update(vec![]);
    // Still pending: no completion has arrived.
    assert_eq!(p.get_tile(t), None);
    assert_eq!(p.take_requests(), vec![t]);
}

#[test]
fn default_pipelines_report_remote_sizes() {
    let all = pipelines();
    let mut satellite = all.satellite;
    let mut weather = all.weather;
    assert_eq!(satellite.tile_size(), Some(128));
    assert_eq!(weather.tile_size(), Some(512));
    assert_eq!(satellite.take_requests().len(), 0);
    assert_eq!(weather.take_requests().len(), 0);
}
