use map_tiles::pipeline::{tile_coord_to_u64, u64_to_tile_coord};
use map_tiles::tile::TileId;

#[test]
fn test_u64_and_tile() {
    let test_vector = [
        (TileId { x: 0, y: 0, zoom: 0 }, 0u64),
        (TileId { x: 0, y: 0, zoom: 15 }, 0b1111),
        (TileId { x: 0, y: 5, zoom: 3 }, 0b101_00011),
        (
            TileId { x: 7, y: 1, zoom: 9 },
            0b111_00000000_00000000_00000001_01001,
        ),
    ];
    for (tile, bits) in test_vector {
        assert_eq!(bits, tile_coord_to_u64(tile));
        assert_eq!(tile, u64_to_tile_coord(bits));
    }
}

#[test]
fn tile_and_intmap() {
    let tile = TileId { x: 7, y: 1, zoom: 9 };
    let bits = tile_coord_to_u64(tile);
    let mut map = std::collections::HashMap::new();
    map.insert(bits, true);

    let bits = tile_coord_to_u64(tile);

    assert_eq!(*map.get(&bits).unwrap(), true);
}

#[test]
fn codec_round_trip_sweep() {
    for zoom in 0..32u32 {
        for (x, y) in [(0u32, 0u32), (1, 2), (4095, 77), (0xff_ffff, 0xff_ffff)] {
            let tile = TileId::new(x, y, zoom);
            assert_eq!(u64_to_tile_coord(tile_coord_to_u64(tile)), tile);
        }
    }
}
