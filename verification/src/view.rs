use vstd::prelude::*;

use crate::MAX_ZOOM_LEVEL;
use vstd::arithmetic::div_mod::*;
use vstd::arithmetic::mul::*;
use vstd::arithmetic::power2::*;
use vstd::bits::*;

verus! {

/// One world width (and height) in fixed-point world units. A world
/// coordinate `w` stands for the fraction `w / WORLD_ONE` of the world.
pub const WORLD_ONE: u64 = 0x1_0000_0000;

/// The smallest pixel size the camera state accepts: about `2^-28` of the
/// world per pixel, the depth the camera's zoom-in guard protects.
pub const MIN_PIXEL_SIZE: u64 = 16;

/// `multiply_zoom` never switches to a pixel size at or below this bound
/// (zooming in past tile coordinates of `2^-28` would lose precision).
pub const ZOOM_IN_LIMIT: u64 = 17;

/// `multiply_zoom` never switches to a pixel size at or above this bound,
/// which keeps the whole world at least 100 pixels across.
pub const ZOOM_OUT_LIMIT: u64 = 42_949_672;

/// A position in fixed-point world coordinates. `(0, 0)` is the north-west
/// corner of the world, `(WORLD_ONE, WORLD_ONE)` the south-east corner;
/// values outside that square address neighbouring copies of the world.
#[derive(Copy, Clone, Debug, PartialEq, Eq, Structural)]
pub struct WorldPoint {
    pub x: i64,
    pub y: i64,
}

/// The viewport of the camera in unbounded world coordinates.
#[derive(Copy, Clone, Debug, PartialEq, Eq, Structural)]
pub struct WorldViewport {
    /// The top left of the viewport.
    pub top_left: WorldPoint,
    /// The bottom right of the viewport.
    pub bottom_right: WorldPoint,
}

impl WorldViewport {
    /// The corners are always ordered: the top left lies at or before the
    /// bottom right on both axes.
    pub open spec fn wf(self) -> bool {
        self.top_left.x <= self.bottom_right.x && self.top_left.y <= self.bottom_right.y
    }
}

/// The camera state of the map: where the view is centred and how much of
/// the world one screen pixel spans.
pub struct TileView {
    /// The centre of the view, wrapped into `[0, WORLD_ONE)` on both axes.
    center_x: u64,
    center_y: u64,
    /// The span of one screen pixel in world units.
    pixel_size: u64,
}

/// Whether `z` is the covering zoom level for pixel size `px` and tile
/// pixel size `ts`: the smallest zoom at which one tile pixel is no larger
/// than one screen pixel, so tiles are never rendered below native
/// resolution.
pub open spec fn is_tile_zoom(px: u64, ts: u32, z: u32) -> bool {
    &&& px * ts * pow2(z as nat) >= WORLD_ONE
    &&& z > 0 ==> px * ts * pow2((z - 1) as nat) < WORLD_ONE
}

/// Whether `z` is what `tile_zoom_level` answers: the covering zoom
/// level, clamped to `MAX_ZOOM_LEVEL` so the tile count stays bounded.
pub open spec fn is_chosen_tile_zoom(px: u64, ts: u32, z: u32) -> bool {
    exists|z0: u32|
        #[trigger] is_tile_zoom(px, ts, z0) && z == (if z0 < MAX_ZOOM_LEVEL {
            z0
        } else {
            MAX_ZOOM_LEVEL
        })
}

impl TileView {
    /// The x coordinate of the camera centre, in `[0, WORLD_ONE)`.
    pub closed spec fn center_x(self) -> u64 {
        self.center_x
    }

    /// The y coordinate of the camera centre, in `[0, WORLD_ONE)`.
    pub closed spec fn center_y(self) -> u64 {
        self.center_y
    }

    /// The span of one screen pixel in world units.
    pub closed spec fn pixel_size(self) -> u64 {
        self.pixel_size
    }

    pub open spec fn wf(self) -> bool {
        &&& self.center_x() < WORLD_ONE
        &&& self.center_y() < WORLD_ONE
        &&& MIN_PIXEL_SIZE <= self.pixel_size() <= WORLD_ONE
    }

    /// Creates a camera at the given centre with the given pixel size.
    pub fn new(center_x: u64, center_y: u64, pixel_size: u64) -> (v: Self)
        requires
            center_x < WORLD_ONE,
            center_y < WORLD_ONE,
            MIN_PIXEL_SIZE <= pixel_size <= WORLD_ONE,
        ensures
            v.wf(),
            v.center_x() == center_x,
            v.center_y() == center_y,
            v.pixel_size() == pixel_size,
    {
        TileView { center_x, center_y, pixel_size }
    }

    /// Sets the pixel size so that a window `window_width` pixels wide
    /// spans `1 / 2^zoom` of the world.
    pub fn set_zoom(&mut self, zoom: u32, window_width: u32)
        requires
            old(self).wf(),
            zoom < 32,
            1 <= window_width,
            16 * window_width * pow2(zoom as nat) <= WORLD_ONE,
        ensures
            final(self).wf(),
            final(self).center_x() == old(self).center_x(),
            final(self).center_y() == old(self).center_y(),
            final(self).pixel_size() == WORLD_ONE as int / pow2(zoom as nat) as int
                / window_width as int,
    {
        proof {
            lemma_pow2_pos(zoom as nat);
            lemma_u64_shr_is_div(WORLD_ONE, zoom as u64);
        }
        let window_size: u64 = WORLD_ONE >> (zoom as u64);
        let new_pixel_size: u64 = window_size / (window_width as u64);
        proof {
            let p = pow2(zoom as nat) as int;
            let w = window_width as int;
            assert(window_size == WORLD_ONE as int / p);
            assert(16 <= new_pixel_size) by {
                assert(window_size >= 16 * w) by {
                    lemma_div_multiples_vanish(16 * w, p);
                    assert(p * (16 * w) == 16 * w * p) by (nonlinear_arith);
                    lemma_div_is_ordered(p * (16 * w), WORLD_ONE as int, p);
                }
                assert((16 * w) / w == 16) by {
                    lemma_div_multiples_vanish(16, w);
                }
                lemma_div_is_ordered(16 * w, window_size as int, w);
            }
            assert(new_pixel_size <= window_size) by {
                lemma_div_nonincreasing(window_size as int, w);
            }
            assert(window_size <= WORLD_ONE) by {
                lemma_div_nonincreasing(WORLD_ONE as int, p);
            }
        }
        self.pixel_size = new_pixel_size;
    }

    /// Returns what zoom is visible based on the pixel size of a tile.
    ///
    /// The zoom level is always rounded up, so that pixels on a tile are
    /// always smaller than physical pixels and no blurry interpolation is
    /// needed; it is clamped to `MAX_ZOOM_LEVEL` to avoid unbounded tile
    /// counts.
    pub fn tile_zoom_level(&self, tile_size: u32) -> (z: u32)
        requires
            self.wf(),
            1 <= tile_size <= 65536,
        ensures
            is_chosen_tile_zoom(self.pixel_size(), tile_size, z),
            z <= MAX_ZOOM_LEVEL,
    {
        let px: u64 = self.pixel_size;
        proof {
            lemma_mul_upper_bound(px as int, WORLD_ONE as int, tile_size as int, 65536);
            assert(px * tile_size >= 16 * 1) by (nonlinear_arith)
                requires
                    px >= 16,
                    tile_size >= 1,
            ;
            lemma2_to64();
            assert(pow2(0) == 1);
        }
        let mut acc: u64 = px * (tile_size as u64);
        let mut z: u32 = 0;
        while acc < WORLD_ONE
            invariant
                MIN_PIXEL_SIZE <= px <= WORLD_ONE,
                1 <= tile_size <= 65536,
                acc == px * tile_size * pow2(z as nat),
                z > 0 ==> px * tile_size * pow2((z - 1) as nat) < WORLD_ONE,
                z <= 32,
                acc >= 16,
            decreases 33 - z,
        {
            proof {
                lemma_pow2_adds(z as nat, 1);
                lemma2_to64();
                assert(px * tile_size * (pow2(z as nat) * 2) == (px * tile_size * pow2(z as nat))
                    * 2) by (nonlinear_arith);
                assert(z < 32) by {
                    if z == 32 {
                        assert(pow2(32) == 0x1_0000_0000);
                        assert(px * tile_size * pow2(32 as nat) >= 16 * pow2(32))
                            by (nonlinear_arith)
                            requires
                                px >= 16,
                                tile_size >= 1,
                        ;
                    }
                }
            }
            acc = acc * 2;
            z = z + 1;
        }
        proof {
            assert(z <= 28) by {
                if z > 28 {
                    lemma_pow2_adds(28, (z - 1 - 28) as nat);
                    lemma_pow2_pos((z - 1 - 28) as nat);
                    lemma2_to64();
                    assert(pow2((z - 1) as nat) >= pow2(28)) by (nonlinear_arith)
                        requires
                            pow2((z - 1) as nat) == pow2(28) * pow2((z - 1 - 28) as nat),
                            pow2((z - 1 - 28) as nat) >= 1,
                            pow2(28) >= 0,
                    ;
                    assert(px * tile_size * pow2((z - 1) as nat) >= 16 * 1 * pow2(28))
                        by (nonlinear_arith)
                        requires
                            px >= 16,
                            tile_size >= 1,
                            pow2((z - 1) as nat) >= pow2(28),
                    ;
                    assert(16 * pow2(28) == 0x1_0000_0000) by {
                        lemma2_to64();
                        lemma2_to64_rest();
                    }
                }
            }
            assert(is_tile_zoom(px, tile_size, z));
        }
        if z < MAX_ZOOM_LEVEL {
            z
        } else {
            MAX_ZOOM_LEVEL
        }
    }

    /// Multiplies the pixel size by `multiplier`, a fixed-point factor
    /// scaled by `WORLD_ONE` (so `WORLD_ONE` itself leaves the zoom
    /// unchanged). The change is dropped when it would let the world shrink
    /// below about 100 pixels across, or zoom in past tile coordinates of
    /// about `2^-28`.
    pub fn multiply_zoom(&mut self, multiplier: u64)
        requires
            old(self).wf(),
        ensures
            final(self).wf(),
            final(self).center_x() == old(self).center_x(),
            final(self).center_y() == old(self).center_y(),
            ({
                let new_px = old(self).pixel_size() * multiplier / (WORLD_ONE as int);
                if ZOOM_IN_LIMIT < new_px < ZOOM_OUT_LIMIT {
                    final(self).pixel_size() == new_px
                } else {
                    final(self).pixel_size() == old(self).pixel_size()
                }
            }),
    {
        proof {
            lemma_mul_upper_bound(
                self.pixel_size as int,
                WORLD_ONE as int,
                multiplier as int,
                u64::MAX as int,
            );
        }
        let wide: u128 = (self.pixel_size as u128) * (multiplier as u128);
        let new_pixel_size_wide: u128 = wide / (WORLD_ONE as u128);
        let lo: u128 = ZOOM_IN_LIMIT as u128;
        let hi: u128 = ZOOM_OUT_LIMIT as u128;
        if lo < new_pixel_size_wide && new_pixel_size_wide < hi {
            self.pixel_size = new_pixel_size_wide as u64;
        }
    }

    /// Moves the camera by a whole number of screen pixels on each axis,
    /// wrapping around the world seam.
    pub fn move_camera_pixels(&mut self, dx: i64, dy: i64)
        requires
            old(self).wf(),
            -0x10_0000 <= dx <= 0x10_0000,
            -0x10_0000 <= dy <= 0x10_0000,
        ensures
            final(self).wf(),
            final(self).pixel_size() == old(self).pixel_size(),
            final(self).center_x() == (old(self).center_x() + dx * old(self).pixel_size()) % (
            WORLD_ONE as int),
            final(self).center_y() == (old(self).center_y() + dy * old(self).pixel_size()) % (
            WORLD_ONE as int),
    {
        let px: u64 = self.pixel_size;
        self.center_x = Self::shift_coordinate(self.center_x, dx, px);
        self.center_y = Self::shift_coordinate(self.center_y, dy, px);
    }

    /// One axis of a camera move: `c + d * px`, wrapped into
    /// `[0, WORLD_ONE)`.
    fn shift_coordinate(c: u64, d: i64, px: u64) -> (r: u64)
        requires
            c < WORLD_ONE,
            -0x10_0000 <= d <= 0x10_0000,
            px <= WORLD_ONE,
        ensures
            r == (c + d * px) % (WORLD_ONE as int),
    {
        if d >= 0 {
            proof {
                lemma_mul_upper_bound(d as int, 0x10_0000, px as int, WORLD_ONE as int);
            }
            let a: u64 = (d as u64) * px;
            proof {
                assert(a == d * px);
            }
            (c + a) % WORLD_ONE
        } else {
            proof {
                lemma_mul_upper_bound(-d as int, 0x10_0000, px as int, WORLD_ONE as int);
            }
            let s: u64 = ((-d) as u64) * px;
            let r: u64 = s % WORLD_ONE;
            proof {
                assert(s == (-d) * px);
                assert(d * px == -(s as int)) by (nonlinear_arith)
                    requires
                        s == (-d) * px,
                ;
                lemma_sub_mod_is_add_complement(c as int, s as int, WORLD_ONE as int);
            }
            (c + (WORLD_ONE - r)) % WORLD_ONE
        }
    }

    /// Calculates where the top left and bottom right of the viewport lie
    /// in world coordinates, for a window of the given pixel dimensions.
    pub fn get_world_viewport(&self, screen_width: u32, screen_height: u32) -> (v: WorldViewport)
        requires
            self.wf(),
            1 <= screen_width <= 65536,
            1 <= screen_height <= 65536,
        ensures
            v.wf(),
            v.top_left.x == self.center_x() - screen_width * self.pixel_size() / 2,
            v.top_left.y == self.center_y() - screen_height * self.pixel_size() / 2,
            v.bottom_right.x == self.center_x() + screen_width * self.pixel_size() / 2,
            v.bottom_right.y == self.center_y() + screen_height * self.pixel_size() / 2,
    {
        proof {
            lemma_mul_upper_bound(screen_width as int, 65536, self.pixel_size as int, WORLD_ONE as int);
            lemma_mul_upper_bound(screen_height as int, 65536, self.pixel_size as int, WORLD_ONE as int);
        }
        let half_w: u64 = (screen_width as u64) * self.pixel_size / 2;
        let half_h: u64 = (screen_height as u64) * self.pixel_size / 2;
        WorldViewport {
            top_left: WorldPoint {
                x: self.center_x as i64 - half_w as i64,
                y: self.center_y as i64 - half_h as i64,
            },
            bottom_right: WorldPoint {
                x: self.center_x as i64 + half_w as i64,
                y: self.center_y as i64 + half_h as i64,
            },
        }
    }

    /// One axis of the tile enumeration, for a camera coordinate `c` and
    /// half the viewport's span `half`: the grid column (or row) under the
    /// viewport's near edge, that edge's position within its tile (scaled
    /// by `WORLD_ONE`), and how many tiles cover the span plus a one-tile
    /// safety margin.
    fn axis_tiles(c: u64, half: u64, m: u64) -> (r: (u32, u64, u32))
        requires
            c < WORLD_ONE,
            half <= 0x1_0000_0000_0000,
            1 <= m <= 0x10_0000,
            2 * half * m < 0x2_0000 * WORLD_ONE,
        ensures
            ({
                let one = WORLD_ONE as int;
                let f = (c - half) % one;
                &&& r.0 == f * m / one
                &&& r.1 == f * m % one
                &&& r.2 == (2 * half * m + (one - 1)) / one + 1
                &&& r.0 < m
                &&& r.1 < WORLD_ONE
                &&& 1 <= r.2 <= 0x2_0001
            }),
    {
        let rem: u64 = half % WORLD_ONE;
        let f: u64 = (c + (WORLD_ONE - rem)) % WORLD_ONE;
        proof {
            lemma_sub_mod_is_add_complement(c as int, half as int, WORLD_ONE as int);
            lemma_mul_upper_bound(f as int, WORLD_ONE as int - 1, m as int, 0x10_0000);
        }
        let tl_tiles: u64 = f * m;
        let first: u64 = tl_tiles / WORLD_ONE;
        let offset: u64 = tl_tiles % WORLD_ONE;
        proof {
            assert(tl_tiles < m * WORLD_ONE) by (nonlinear_arith)
                requires
                    tl_tiles == f * m,
                    f < WORLD_ONE,
                    m >= 1,
            ;
            lemma_multiply_divide_lt(tl_tiles as int, WORLD_ONE as int, m as int);
        }
        let span: u64 = 2 * half;
        proof {
            lemma_mul_upper_bound(span as int, 0x2_0000_0000_0000, m as int, 0x10_0000);
        }
        let wide: u128 = (span as u128) * (m as u128);
        let count_wide: u128 = (wide + (WORLD_ONE - 1) as u128) / (WORLD_ONE as u128);
        proof {
            assert(wide + (WORLD_ONE - 1) < (0x2_0000 + 1) * WORLD_ONE) by (nonlinear_arith)
                requires
                    wide < 0x2_0000 * (WORLD_ONE as u128),
            ;
            lemma_multiply_divide_lt(
                wide as int + (WORLD_ONE - 1) as int,
                WORLD_ONE as int,
                0x2_0000int + 1,
            );
        }
        let count: u32 = count_wide as u32 + 1;
        (first as u32, offset, count)
    }

    /// Enumerates the tiles in view for a window of the given pixel
    /// dimensions, with the zoom level that `tile_zoom_level` picks for
    /// `tile_size`, and the placement data the renderer needs.
    pub fn tile_iter(&self, tile_size: u32, screen_width: u32, screen_height: u32) -> (it:
        TileViewIterator)
        requires
            self.wf(),
            1 <= tile_size <= 65536,
            1 <= screen_width <= 65536,
            1 <= screen_height <= 65536,
        ensures
            it.wf(),
            tile_iter_post(*self, tile_size, screen_width, screen_height, it),
    {
        let px: u64 = self.pixel_size;
        let tile_zoom: u32 = self.tile_zoom_level(tile_size);
        proof {
            lemma_u64_pow2_no_overflow(tile_zoom as nat);
            lemma_u64_shl_is_mul(1u64, tile_zoom as u64);
            if tile_zoom < 20 {
                lemma_pow2_strictly_increases(tile_zoom as nat, 20);
            }
            lemma2_to64();
            let z_star = choose|z0: u32|
                #[trigger] is_tile_zoom(px, tile_size, z0) && tile_zoom == (if z0 < MAX_ZOOM_LEVEL {
                    z0
                } else {
                    MAX_ZOOM_LEVEL
                });
            lemma_pixel_zoom_bound(px, tile_size, z_star, tile_zoom);
        }
        let m: u64 = 1u64 << (tile_zoom as u64);
        proof {
            lemma_mul_upper_bound(
                screen_width as int,
                65536,
                self.pixel_size as int,
                WORLD_ONE as int,
            );
            lemma_mul_upper_bound(
                screen_height as int,
                65536,
                self.pixel_size as int,
                WORLD_ONE as int,
            );
        }
        let half_w: u64 = (screen_width as u64) * px / 2;
        let half_h: u64 = (screen_height as u64) * px / 2;
        proof {
            Self::lemma_half_span_bound(screen_width as int, px as int, m as int, half_w as int);
            Self::lemma_half_span_bound(screen_height as int, px as int, m as int, half_h as int);
        }
        let (first_x, frac_x, tiles_wide) = Self::axis_tiles(self.center_x, half_w, m);
        let (first_y, frac_y, tiles_high) = Self::axis_tiles(self.center_y, half_h, m);
        proof {
            assert(m * px >= 16) by (nonlinear_arith)
                requires
                    m >= 1,
                    px >= 16,
            ;
            assert((m as u128) * (px as u128) <= 0x10_0000 * 0x1_0000_0000) by (nonlinear_arith)
                requires
                    m <= 0x10_0000u64,
                    px <= 0x1_0000_0000u64,
            ;
        }
        let denom: u128 = (m as u128) * (px as u128);
        let tile_size_wide: u128 = 0x1_0000_0000_0000_0000u128 / denom;
        proof {
            assert((denom as int) * 0x1000_0000_0000_0001 >= 16 * 0x1000_0000_0000_0001int)
                by (nonlinear_arith)
                requires
                    denom >= 16,
            ;
            lemma_multiply_divide_lt(
                0x1_0000_0000_0000_0000,
                denom as int,
                0x1000_0000_0000_0001int,
            );
            lemma_div_by_self(denom as int);
            lemma_div_is_ordered(denom as int, 0x1_0000_0000_0000_0000, denom as int);
        }
        let tile_size_px: u64 = tile_size_wide as u64;
        proof {
            lemma_mul_upper_bound(
                frac_x as int,
                WORLD_ONE as int - 1,
                tile_size_px as int,
                0x1000_0000_0000_0000,
            );
            lemma_mul_upper_bound(
                frac_y as int,
                WORLD_ONE as int - 1,
                tile_size_px as int,
                0x1000_0000_0000_0000,
            );
            assert((frac_x as u128) * (tile_size_px as u128) < (WORLD_ONE as u128) * (
            tile_size_px as u128)) by (nonlinear_arith)
                requires
                    frac_x < WORLD_ONE,
                    tile_size_px >= 1,
            ;
            assert((frac_y as u128) * (tile_size_px as u128) < (WORLD_ONE as u128) * (
            tile_size_px as u128)) by (nonlinear_arith)
                requires
                    frac_y < WORLD_ONE,
                    tile_size_px >= 1,
            ;
            lemma_multiply_divide_lt(
                (frac_x as u128 * tile_size_px as u128) as int,
                WORLD_ONE as int,
                tile_size_px as int,
            );
            lemma_multiply_divide_lt(
                (frac_y as u128 * tile_size_px as u128) as int,
                WORLD_ONE as int,
                tile_size_px as int,
            );
        }
        let off_x: u64 = ((frac_x as u128) * (tile_size_px as u128) / (WORLD_ONE as u128)) as u64;
        let off_y: u64 = ((frac_y as u128) * (tile_size_px as u128) / (WORLD_ONE as u128)) as u64;
        TileViewIterator {
            max_tile: m as u32,
            first_x,
            first_y,
            tiles_horizontally: tiles_wide,
            tiles_vertically: tiles_high,
            tile_zoom,
            tile_offset_x: -(off_x as i64),
            tile_offset_y: -(off_y as i64),
            tile_size: tile_size_px,
            idx_x: 0,
            idx_y: 0,
        }
    }

    /// `2 * half * m` stays under `2^17` world widths when `half` spans at
    /// most half a window of `px`-sized pixels.
    proof fn lemma_half_span_bound(screen: int, px: int, m: int, half: int)
        requires
            1 <= screen <= 65536,
            16 <= px <= WORLD_ONE,
            half == screen * px / 2,
            1 <= m,
            px * m < 2 * WORLD_ONE,
        ensures
            2 * half * m < 0x2_0000 * WORLD_ONE,
            half <= 0x1_0000_0000_0000,
    {
        assert(2 * half <= screen * px) by {
            lemma_fundamental_div_mod(screen * px, 2);
        }
        assert(screen * px * m < 65536 * (2 * WORLD_ONE)) by (nonlinear_arith)
            requires
                screen <= 65536,
                px * m < 2 * WORLD_ONE,
                px >= 0,
                m >= 1,
                screen >= 1,
        ;
        assert(2 * half * m <= screen * px * m) by (nonlinear_arith)
            requires
                2 * half <= screen * px,
                m >= 1,
        ;
        assert(half <= 0x1_0000_0000_0000) by {
            lemma_mul_upper_bound(screen, 65536, px, WORLD_ONE as int);
            lemma_div_is_ordered(screen * px, 65536 * WORLD_ONE, 2);
        }
    }
}

/// How `tile_iter`'s result relates to the camera, the tile pixel size and
/// the window: the zoom is the one `tile_zoom_level` picks; the first tile
/// is the one under the viewport's top left corner; and the tile counts
/// cover the viewport's span with a one-tile safety margin on each axis,
/// so partially visible edge tiles are always included.
pub open spec fn tile_iter_post(
    v: TileView,
    ts: u32,
    sw: u32,
    sh: u32,
    it: TileViewIterator,
) -> bool {
    let px = v.pixel_size() as int;
    let one = WORLD_ONE as int;
    let m = it.max_tile as int;
    let half_w = sw * px / 2;
    let half_h = sh * px / 2;
    let f_x = (v.center_x() - half_w) % one;
    let f_y = (v.center_y() - half_h) % one;
    &&& is_chosen_tile_zoom(v.pixel_size(), ts, it.tile_zoom)
    &&& it.max_tile == pow2(it.tile_zoom as nat)
    &&& it.first_x == f_x * m / one
    &&& it.first_y == f_y * m / one
    &&& it.tiles_horizontally == (2 * half_w * m + (one - 1)) / one + 1
    &&& it.tiles_vertically == (2 * half_h * m + (one - 1)) / one + 1
    &&& it.tile_size == 0x1_0000_0000_0000_0000int / (m * px)
    &&& it.tile_offset_x == -((f_x * m % one) * it.tile_size / one)
    &&& it.tile_offset_y == -((f_y * m % one) * it.tile_size / one)
    &&& it.idx_x == 0
    &&& it.idx_y == 0
}

/// The clamped zoom level never makes a tile span less than half a pixel:
/// `px * 2^zoom` stays below two world widths.
proof fn lemma_pixel_zoom_bound(px: u64, ts: u32, z_star: u32, zoom: u32)
    requires
        MIN_PIXEL_SIZE <= px <= WORLD_ONE,
        1 <= ts,
        is_tile_zoom(px, ts, z_star),
        zoom == (if z_star < MAX_ZOOM_LEVEL {
            z_star
        } else {
            MAX_ZOOM_LEVEL
        }),
    ensures
        px * pow2(zoom as nat) < 2 * WORLD_ONE,
{
    lemma2_to64();
    if zoom == 0 {
        assert(pow2(0) == 1);
    } else {
        assert(z_star >= zoom > 0);
        assert(px * ts * pow2((z_star - 1) as nat) < WORLD_ONE);
        assert(pow2(zoom as nat) <= pow2(z_star as nat)) by {
            if zoom < z_star {
                lemma_pow2_strictly_increases(zoom as nat, z_star as nat);
            }
        }
        lemma_pow2_adds((z_star - 1) as nat, 1);
        assert(pow2(1) == 2);
        assert(px * pow2(zoom as nat) < 2 * WORLD_ONE) by (nonlinear_arith)
            requires
                px * ts * pow2((z_star - 1) as nat) < WORLD_ONE,
                pow2(zoom as nat) <= pow2(z_star as nat),
                pow2(z_star as nat) == pow2((z_star - 1) as nat) * 2,
                ts >= 1,
                px >= 0,
                pow2((z_star - 1) as nat) >= 0,
        ;
    }
}

/// Walks the positions of all the tiles currently in view, returning their
/// grid coordinates for rendering: the cartesian product of
/// `first_x..first_x + tiles_horizontally` and
/// `first_y..first_y + tiles_vertically`, each coordinate taken modulo
/// `max_tile` so the enumeration wraps at the world seam.
#[derive(Copy, Clone, Debug, PartialEq, Eq, Structural)]
pub struct TileViewIterator {
    /// The number of tiles along each world axis at this zoom:
    /// `2^tile_zoom`.
    pub max_tile: u32,
    /// The column of the first (leftmost) tile, before the modulo.
    pub first_x: u32,
    /// The row of the first (topmost) tile, before the modulo.
    pub first_y: u32,
    /// The number of tiles to render horizontally.
    pub tiles_horizontally: u32,
    /// The number of tiles to render vertically.
    pub tiles_vertically: u32,
    /// The zoom level of the tiles in this iterator.
    pub tile_zoom: u32,
    /// The pixel offset from the viewport's top left corner to the first
    /// tile's top left corner, in fixed-point pixels (scaled by
    /// `WORLD_ONE`).
    pub tile_offset_x: i64,
    pub tile_offset_y: i64,
    /// The size of a tile in fixed-point pixels (scaled by `WORLD_ONE`).
    pub tile_size: u64,
    /// The column of the next tile to emit, counted from `first_x`.
    pub idx_x: u32,
    /// The row of the next tile to emit, counted from `first_y`.
    pub idx_y: u32,
}

impl TileViewIterator {
    pub open spec fn wf(self) -> bool {
        &&& 1 <= self.max_tile
        &&& 1 <= self.tiles_vertically
        &&& self.idx_y < self.tiles_vertically
        &&& self.idx_x <= self.tiles_horizontally
        &&& self.first_x + self.tiles_horizontally <= u32::MAX
        &&& self.first_y + self.tiles_vertically <= u32::MAX
    }

    /// The tile coordinate emitted for column `i` and row `j` of the
    /// enumerated block: wrapped into the `max_tile × max_tile` grid.
    pub open spec fn tile_at(self, i: int, j: int) -> (u32, u32) {
        (
            ((self.first_x + i) % (self.max_tile as int)) as u32,
            ((self.first_y + j) % (self.max_tile as int)) as u32,
        )
    }

    /// Whether the enumeration emits the grid coordinate `(tx, ty)`.
    pub open spec fn emits(self, tx: u32, ty: u32) -> bool {
        exists|i: int, j: int|
            0 <= i < self.tiles_horizontally && 0 <= j < self.tiles_vertically && #[trigger] self
                .tile_at(i, j) == (tx, ty)
    }

    /// How one `next` call relates the iterator's state before and after,
    /// and its result: the block is walked column by column, top to
    /// bottom, and exhaustion answers `None` without moving.
    pub open spec fn next_rel(pre: Self, post: Self, r: Option<(u32, u32)>) -> bool {
        &&& post.max_tile == pre.max_tile
        &&& post.first_x == pre.first_x
        &&& post.first_y == pre.first_y
        &&& post.tiles_horizontally == pre.tiles_horizontally
        &&& post.tiles_vertically == pre.tiles_vertically
        &&& post.tile_zoom == pre.tile_zoom
        &&& post.tile_offset_x == pre.tile_offset_x
        &&& post.tile_offset_y == pre.tile_offset_y
        &&& post.tile_size == pre.tile_size
        &&& if pre.idx_x == pre.tiles_horizontally {
            &&& r is None
            &&& post == pre
        } else {
            &&& r == Some(pre.tile_at(pre.idx_x as int, pre.idx_y as int))
            &&& if pre.idx_y + 1 == pre.tiles_vertically {
                post.idx_y == 0 && post.idx_x == pre.idx_x + 1
            } else {
                post.idx_y == pre.idx_y + 1 && post.idx_x == pre.idx_x
            }
        }
    }

    /// Emits the next visible tile's grid coordinate, or `None` once the
    /// whole block has been walked.
    pub fn next(&mut self) -> (r: Option<(u32, u32)>)
        requires
            old(self).wf(),
        ensures
            final(self).wf(),
            Self::next_rel(*old(self), *final(self), r),
    {
        if self.idx_x == self.tiles_horizontally {
            None
        } else {
            let tx: u32 = (self.first_x + self.idx_x) % self.max_tile;
            let ty: u32 = (self.first_y + self.idx_y) % self.max_tile;
            if self.idx_y + 1 == self.tiles_vertically {
                self.idx_y = 0;
                self.idx_x = self.idx_x + 1;
            } else {
                self.idx_y = self.idx_y + 1;
            }
            Some((tx, ty))
        }
    }

    /// Law (whole enumeration): a fresh iterator yields exactly
    /// `tiles_horizontally * tiles_vertically` coordinates, column by
    /// column, before running dry; this walks it and hands the block back
    /// as one list.
    pub fn collect_tiles(&mut self) -> (r: Vec<(u32, u32)>)
        requires
            old(self).wf(),
            old(self).idx_x == 0,
            old(self).idx_y == 0,
        ensures
            final(self).wf(),
            r@.len() == old(self).tiles_horizontally * old(self).tiles_vertically,
            forall|k: int|
                0 <= k < r@.len() ==> #[trigger] r@[k] == old(self).tile_at(
                    k / (old(self).tiles_vertically as int),
                    k % (old(self).tiles_vertically as int),
                ),
    {
        let mut r: Vec<(u32, u32)> = Vec::new();
        while self.idx_x < self.tiles_horizontally
            invariant
                self.wf(),
                self.max_tile == old(self).max_tile,
                self.first_x == old(self).first_x,
                self.first_y == old(self).first_y,
                self.tiles_horizontally == old(self).tiles_horizontally,
                self.tiles_vertically == old(self).tiles_vertically,
                r@.len() == self.idx_x * self.tiles_vertically + self.idx_y,
                self.idx_x == self.tiles_horizontally ==> self.idx_y == 0,
                forall|k: int|
                    0 <= k < r@.len() ==> #[trigger] r@[k] == old(self).tile_at(
                        k / (old(self).tiles_vertically as int),
                        k % (old(self).tiles_vertically as int),
                    ),
            decreases self.tiles_horizontally * self.tiles_vertically - self.idx_x
                * self.tiles_vertically - self.idx_y,
        {
            let ghost pre = *self;
            proof {
                assert(pre.idx_x * pre.tiles_vertically + pre.idx_y < pre.tiles_horizontally
                    * pre.tiles_vertically) by (nonlinear_arith)
                    requires
                        pre.idx_x < pre.tiles_horizontally,
                        pre.idx_y < pre.tiles_vertically,
                        pre.idx_x >= 0,
                        pre.tiles_vertically >= 1,
                ;
            }
            match self.next() {
                Some(tile) => {
                    proof {
                        lemma_fundamental_div_mod_converse(
                            pre.idx_x * pre.tiles_vertically + pre.idx_y,
                            pre.tiles_vertically as int,
                            pre.idx_x as int,
                            pre.idx_y as int,
                        );
                        if pre.idx_y + 1 == pre.tiles_vertically {
                            assert(self.idx_x * self.tiles_vertically + self.idx_y == pre.idx_x
                                * pre.tiles_vertically + pre.idx_y + 1) by (nonlinear_arith)
                                requires
                                    self.idx_x == pre.idx_x + 1,
                                    self.idx_y == 0,
                                    self.tiles_vertically == pre.tiles_vertically,
                                    pre.idx_y + 1 == pre.tiles_vertically,
                            ;
                        }
                    }
                    r.push(tile);
                },
                None => {
                    proof {
                        assert(false);
                    }
                },
            }
        }
        r
    }
}

/// Law: zooming out never raises the chosen tile zoom level — a larger
/// pixel size never picks a deeper zoom than a smaller one.
pub proof fn lemma_tile_zoom_monotonic(px1: u64, px2: u64, ts: u32, z1: u32, z2: u32)
    requires
        1 <= ts,
        px1 <= px2,
        is_tile_zoom(px1, ts, z1),
        is_tile_zoom(px2, ts, z2),
    ensures
        z2 <= z1,
{
    if z2 > z1 {
        assert(px2 * ts * pow2((z2 - 1) as nat) < WORLD_ONE);
        assert(pow2(z1 as nat) <= pow2((z2 - 1) as nat)) by {
            if z1 < z2 - 1 {
                lemma_pow2_strictly_increases(z1 as nat, (z2 - 1) as nat);
            }
        }
        assert(px1 * ts * pow2(z1 as nat) <= px2 * ts * pow2((z2 - 1) as nat))
            by (nonlinear_arith)
            requires
                px1 <= px2,
                ts >= 1,
                pow2(z1 as nat) <= pow2((z2 - 1) as nat),
                px1 >= 0,
                pow2(z1 as nat) >= 0,
        ;
    }
}

/// Law: the clamp keeps the monotonicity — `tile_zoom_level`'s answer,
/// clamping included, never rises when the pixel size grows.
pub proof fn lemma_chosen_tile_zoom_monotonic(px1: u64, px2: u64, ts: u32, z1: u32, z2: u32)
    requires
        1 <= ts,
        px1 <= px2,
        is_chosen_tile_zoom(px1, ts, z1),
        is_chosen_tile_zoom(px2, ts, z2),
    ensures
        z2 <= z1,
{
    let z01 = choose|z0: u32|
        #[trigger] is_tile_zoom(px1, ts, z0) && z1 == (if z0 < MAX_ZOOM_LEVEL {
            z0
        } else {
            MAX_ZOOM_LEVEL
        });
    let z02 = choose|z0: u32|
        #[trigger] is_tile_zoom(px2, ts, z0) && z2 == (if z0 < MAX_ZOOM_LEVEL {
            z0
        } else {
            MAX_ZOOM_LEVEL
        });
    lemma_tile_zoom_monotonic(px1, px2, ts, z01, z02);
}

/// Law: the covering tile zoom level is unique — any two zoom levels that
/// both fit one pixel size are the same.
pub proof fn lemma_tile_zoom_unique(px: u64, ts: u32, z1: u32, z2: u32)
    requires
        1 <= ts,
        is_tile_zoom(px, ts, z1),
        is_tile_zoom(px, ts, z2),
    ensures
        z1 == z2,
{
    lemma_tile_zoom_monotonic(px, px, ts, z1, z2);
    lemma_tile_zoom_monotonic(px, px, ts, z2, z1);
}

/// The grid index (column or row) of the tile containing the world
/// coordinate `w`, on a `m × m` grid: the world position is wrapped into
/// `[0, WORLD_ONE)` and scaled to tile units.
pub open spec fn tile_index_of(w: int, m: int) -> int {
    (w % (WORLD_ONE as int)) * m / (WORLD_ONE as int)
}

/// `(x + y) / d` overshoots the sum of the separate quotients by at most
/// one.
proof fn lemma_div_add_le(x: int, y: int, d: int)
    requires
        0 <= x,
        0 <= y,
        0 < d,
    ensures
        (x + y) / d <= x / d + y / d + 1,
{
    let qx = x / d;
    let rx = x % d;
    let qy = y / d;
    let ry = y % d;
    lemma_fundamental_div_mod(x, d);
    lemma_fundamental_div_mod(y, d);
    lemma_mod_division_less_than_divisor(x, d);
    lemma_mod_division_less_than_divisor(y, d);
    if rx + ry < d {
        assert(x + y == (qx + qy) * d + (rx + ry)) by (nonlinear_arith)
            requires
                x == d * qx + rx,
                y == d * qy + ry,
        ;
        lemma_fundamental_div_mod_converse_div(x + y, d, qx + qy, rx + ry);
    } else {
        assert(x + y == (qx + qy + 1) * d + (rx + ry - d)) by (nonlinear_arith)
            requires
                x == d * qx + rx,
                y == d * qy + ry,
        ;
        lemma_fundamental_div_mod_converse_div(x + y, d, qx + qy + 1, rx + ry - d);
    }
}

/// Rounding up by adding `d - 1` before dividing: the result is the floor
/// quotient, plus one when the division is inexact.
proof fn lemma_ceil_div(x: int, d: int)
    requires
        0 <= x,
        0 < d,
    ensures
        x % d == 0 ==> (x + d - 1) / d == x / d,
        x % d != 0 ==> (x + d - 1) / d == x / d + 1,
{
    let q = x / d;
    let r = x % d;
    lemma_fundamental_div_mod(x, d);
    lemma_mod_division_less_than_divisor(x, d);
    if r == 0 {
        assert(x + d - 1 == q * d + (d - 1)) by (nonlinear_arith)
            requires
                x == d * q + r,
                r == 0,
        ;
        lemma_fundamental_div_mod_converse_div(x + d - 1, d, q, d - 1);
    } else {
        assert(x + d - 1 == (q + 1) * d + (r - 1)) by (nonlinear_arith)
            requires
                x == d * q + r,
        ;
        lemma_fundamental_div_mod_converse_div(x + d - 1, d, q + 1, r - 1);
    }
}

/// Wrapping then scaling commutes with scaling then wrapping: the tile
/// index of a wrapped coordinate is the unwrapped tile count taken modulo
/// the grid size.
proof fn lemma_tile_index_wraps(q: int, m: int)
    requires
        0 <= q,
        1 <= m,
    ensures
        (q % (WORLD_ONE as int)) * m / (WORLD_ONE as int) == (q * m / (WORLD_ONE as int)) % m,
{
    let one = WORLD_ONE as int;
    let a = q / one;
    let r = q % one;
    lemma_fundamental_div_mod(q, one);
    lemma_mod_division_less_than_divisor(q, one);
    assert(q * m == (a * m) * one + r * m) by (nonlinear_arith)
        requires
            q == one * a + r,
    ;
    assert(q * m / one == r * m / one + a * m) by {
        lemma_hoist_over_denominator(r * m, a * m, WORLD_ONE as nat);
    }
    assert(r * m < one * m) by (nonlinear_arith)
        requires
            r < one,
            m >= 1,
    ;
    lemma_multiply_divide_lt(r * m, one, m);
    assert(r * m / one >= 0) by {
        lemma_div_pos_is_pos(r * m, one);
        lemma_mul_nonnegative(r, m);
    }
    assert((a * m + r * m / one) % m == (r * m / one) % m) by {
        lemma_mul_is_commutative(a, m);
        lemma_mod_multiples_vanish(a, r * m / one, m);
    }
    lemma_small_mod((r * m / one) as nat, m as nat);
}

/// One axis of the coverage law: every coordinate within `span` of `tl` is
/// on a tile whose index appears among `count` consecutive indices
/// starting at `tl`'s own tile, whenever `count` covers the span in tile
/// units with one tile to spare.
proof fn lemma_axis_coverage(tl: int, span: int, m: int, first: int, count: int, p: int)
    requires
        1 <= m,
        0 <= span,
        first == tile_index_of(tl, m),
        count >= (span * m + (WORLD_ONE as int - 1)) / (WORLD_ONE as int) + 1,
        tl <= p <= tl + span,
    ensures
        exists|i: int| 0 <= i <= count - 1 && #[trigger] ((first + i) % m) == tile_index_of(p, m),
{
    let one = WORLD_ONE as int;
    let f = tl % one;
    let d = p - tl;
    let q = f + d;
    lemma_fundamental_div_mod(tl, one);
    lemma_mod_division_less_than_divisor(tl, one);
    assert(p % one == q % one) by {
        assert(p == one * (tl / one) + q);
        lemma_mod_multiples_vanish(tl / one, q, one);
    }
    let t_u = q * m / one;
    assert(tile_index_of(p, m) == t_u % m) by {
        lemma_tile_index_wraps(q, m);
    }
    assert(first == f * m / one);
    assert(f * m <= q * m && q * m <= (f + span) * m) by (nonlinear_arith)
        requires
            f <= q,
            q <= f + span,
            m >= 1,
    ;
    lemma_mul_nonnegative(f, m);
    assert(first <= t_u) by {
        lemma_div_is_ordered(f * m, q * m, one);
    }
    let i = t_u - first;
    assert((first + i) % m == tile_index_of(p, m));
    assert((f + span) * m == f * m + span * m) by (nonlinear_arith);
    lemma_mul_nonnegative(span, m);
    assert(t_u <= (f * m + span * m) / one) by {
        lemma_div_is_ordered(q * m, f * m + span * m, one);
    }
    lemma_ceil_div(span * m, one);
    if span * m % one == 0 {
        let k = span * m / one;
        assert(span * m == k * one) by {
            lemma_fundamental_div_mod(span * m, one);
        }
        assert((f * m + span * m) / one == first + k) by {
            lemma_hoist_over_denominator(f * m, k, WORLD_ONE as nat);
        }
        assert(i <= k);
        assert(count >= k + 1);
    } else {
        assert((f * m + span * m) / one <= first + span * m / one + 1) by {
            lemma_div_add_le(f * m, span * m, one);
        }
        assert(i <= span * m / one + 1);
        assert(count >= span * m / one + 2);
    }
    assert(0 <= i <= count - 1 && (first + i) % m == tile_index_of(p, m));
}

/// Law (tile coverage): for any viewport, every world point the window
/// shows lies on a tile that the enumeration emits — the grid never has a
/// gap at a screen edge, and wrapping at the world seam is accounted for.
pub proof fn lemma_tile_coverage(
    v: TileView,
    ts: u32,
    sw: u32,
    sh: u32,
    it: TileViewIterator,
    p: WorldPoint,
)
    requires
        v.wf(),
        1 <= ts <= 65536,
        1 <= sw <= 65536,
        1 <= sh <= 65536,
        tile_iter_post(v, ts, sw, sh, it),
        it.wf(),
        v.center_x() - sw * v.pixel_size() / 2 <= p.x <= v.center_x() + sw * v.pixel_size() / 2,
        v.center_y() - sh * v.pixel_size() / 2 <= p.y <= v.center_y() + sh * v.pixel_size() / 2,
    ensures
        it.emits(
            tile_index_of(p.x as int, it.max_tile as int) as u32,
            tile_index_of(p.y as int, it.max_tile as int) as u32,
        ),
{
    let one = WORLD_ONE as int;
    let m = it.max_tile as int;
    let half_w = sw * v.pixel_size() / 2;
    let half_h = sh * v.pixel_size() / 2;
    let tl_x = v.center_x() - half_w;
    let tl_y = v.center_y() - half_h;
    lemma_pow2_pos(it.tile_zoom as nat);
    assert(half_w >= 0 && half_h >= 0) by {
        lemma_mul_nonnegative(sw as int, v.pixel_size() as int);
        lemma_mul_nonnegative(sh as int, v.pixel_size() as int);
        lemma_div_pos_is_pos(sw * v.pixel_size(), 2);
        lemma_div_pos_is_pos(sh * v.pixel_size(), 2);
    }
    lemma_axis_coverage(
        tl_x,
        2 * half_w,
        m,
        it.first_x as int,
        it.tiles_horizontally as int,
        p.x as int,
    );
    lemma_axis_coverage(
        tl_y,
        2 * half_h,
        m,
        it.first_y as int,
        it.tiles_vertically as int,
        p.y as int,
    );
    let i = choose|i: int|
        0 <= i <= it.tiles_horizontally - 1 && #[trigger] ((it.first_x + i) % m) == tile_index_of(
            p.x as int,
            m,
        );
    let j = choose|j: int|
        0 <= j <= it.tiles_vertically - 1 && #[trigger] ((it.first_y + j) % m) == tile_index_of(
            p.y as int,
            m,
        );
    assert(0 <= (it.first_x + i) % m < m && 0 <= (it.first_y + j) % m < m) by {
        lemma_mod_division_less_than_divisor(it.first_x + i, m);
        lemma_mod_division_less_than_divisor(it.first_y + j, m);
    }
    assert(it.tile_at(i, j) == (
        tile_index_of(p.x as int, m) as u32,
        tile_index_of(p.y as int, m) as u32,
    ));
}

/// `(c - s) % m` computed without leaving the nonnegative range:
/// adding the complement of `s % m` is the same as subtracting `s`.
proof fn lemma_sub_mod_is_add_complement(c: int, s: int, m: int)
    requires
        m > 0,
        c >= 0,
        s >= 0,
    ensures
        (c + (m - s % m)) % m == (c - s) % m,
{
    let q = s / m;
    let r = s % m;
    lemma_fundamental_div_mod(s, m);
    assert(c + (m - r) == c - s + m * (q + 1)) by (nonlinear_arith)
        requires
            s == m * q + r,
    ;
    lemma_mod_multiples_vanish(q + 1, c - s, m);
}

} // verus!
