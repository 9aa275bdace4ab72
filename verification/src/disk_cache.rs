use vstd::prelude::*;

use crate::backend::ReadinessStatus;
use crate::tile::TileId;
use vstd::arithmetic::div_mod::lemma_div_decreases;
use vstd::string::StringExecFns;

verus! {

/// The character for one decimal digit.
pub open spec fn decimal_digit(d: nat) -> char {
    if d == 0 {
        '0'
    } else if d == 1 {
        '1'
    } else if d == 2 {
        '2'
    } else if d == 3 {
        '3'
    } else if d == 4 {
        '4'
    } else if d == 5 {
        '5'
    } else if d == 6 {
        '6'
    } else if d == 7 {
        '7'
    } else if d == 8 {
        '8'
    } else {
        '9'
    }
}

/// The decimal digits of `n`, most significant first, with no leading
/// zeros (just "0" for zero).
pub open spec fn decimal(n: nat) -> Seq<char>
    decreases n,
{
    if n < 10 {
        seq![decimal_digit(n)]
    } else {
        decimal(n / 10) + seq![decimal_digit(n % 10)]
    }
}

/// Appends the character of one decimal digit.
fn push_digit(s: &mut String, d: u32)
    requires
        d < 10,
    ensures
        final(s)@ == old(s)@ + seq![decimal_digit(d as nat)],
{
    proof {
        reveal_strlit("0");
        reveal_strlit("1");
        reveal_strlit("2");
        reveal_strlit("3");
        reveal_strlit("4");
        reveal_strlit("5");
        reveal_strlit("6");
        reveal_strlit("7");
        reveal_strlit("8");
        reveal_strlit("9");
    }
    let c: &str = if d == 0 {
        "0"
    } else if d == 1 {
        "1"
    } else if d == 2 {
        "2"
    } else if d == 3 {
        "3"
    } else if d == 4 {
        "4"
    } else if d == 5 {
        "5"
    } else if d == 6 {
        "6"
    } else if d == 7 {
        "7"
    } else if d == 8 {
        "8"
    } else {
        "9"
    };
    proof {
        assert(c@ =~= seq![decimal_digit(d as nat)]);
    }
    s.append(c);
}

/// Appends the decimal digits of `n`, most significant first.
pub fn push_decimal(s: &mut String, n: u32)
    ensures
        final(s)@ == old(s)@ + decimal(n as nat),
    decreases n,
{
    if n >= 10 {
        proof {
            lemma_div_decreases(n as int, 10);
        }
        push_decimal(s, n / 10);
        push_digit(s, n % 10);
        proof {
            assert(final(s)@ =~= old(s)@ + decimal(n as nat));
        }
    } else {
        push_digit(s, n);
    }
}

/// The path under which a tile is cached:
/// `./<folder>/<zoom>/<x>/<y>.<extension>`.
pub open spec fn tile_path(folder: Seq<char>, extension: Seq<char>, tile: TileId) -> Seq<char> {
    "./"@ + folder + "/"@ + decimal(tile.zoom as nat) + "/"@ + decimal(tile.x as nat) + "/"@
        + decimal(tile.y as nat) + "."@ + extension
}

/// Builds the cache file path of `tile` under `folder_name`.
pub fn get_tile_path(folder_name: &str, extension: &str, tile: TileId) -> (r: String)
    ensures
        r@ == tile_path(folder_name@, extension@, tile),
{
    let mut s: String = String::new();
    s.append("./");
    s.append(folder_name);
    s.append("/");
    push_decimal(&mut s, tile.zoom);
    s.append("/");
    push_decimal(&mut s, tile.x);
    s.append("/");
    push_decimal(&mut s, tile.y);
    s.append(".");
    s.append(extension);
    proof {
        assert(s@ =~= tile_path(folder_name@, extension@, tile));
    }
    s
}

/// Configuration of one on-disk tile cache: where it lives, what file
/// type it stores, and how old a cached file may grow before it is
/// thrown away (in seconds).
#[derive(Copy, Clone)]
pub struct DiskCacheData {
    pub folder_name: &'static str,
    pub image_extension: &'static str,
    pub invalidate_time: u64,
}

/// The disk cache used for satellite imagery: jpg files, kept for one
/// month.
pub fn satellite_cache_data() -> (d: DiskCacheData)
    ensures
        d.folder_name@ == ".cache/satellite"@,
        d.image_extension@ == "jpg"@,
        d.invalidate_time == 2_592_000,
{
    DiskCacheData {
        folder_name: ".cache/satellite",
        image_extension: "jpg",
        invalidate_time: 2_592_000,
    }
}

/// The disk cache used for weather imagery: png files, kept for five
/// minutes.
pub fn weather_cache_data() -> (d: DiskCacheData)
    ensures
        d.folder_name@ == ".cache/weather"@,
        d.image_extension@ == "png"@,
        d.invalidate_time == 300,
{
    DiskCacheData { folder_name: ".cache/weather", image_extension: "png", invalidate_time: 300 }
}

/// What the cache tier should do with a requested tile's file.
#[derive(Copy, Clone, Debug, PartialEq, Eq, Structural)]
pub enum CacheDecision {
    /// No cached file: fall through to the next backend tier.
    Miss,
    /// The cached file is fresh: serve its bytes.
    Serve,
    /// The cached file outlived `invalidate_time`: delete it and fall
    /// through to the next backend tier.
    Remove,
}

/// The file-backed tile cache tier.
pub struct DiskCache {
    inner: DiskCacheData,
    ignore_transparent_tiles: bool,
}

impl DiskCache {
    /// This cache's configuration.
    pub closed spec fn data(self) -> DiskCacheData {
        self.inner
    }

    /// Whether fully transparent tiles of this cache are skipped when
    /// rendered.
    pub closed spec fn ignores_transparent_tiles(self) -> bool {
        self.ignore_transparent_tiles
    }

    /// Creates a cache tier over `data`'s folder.
    pub fn new(data: DiskCacheData, ignore_transparent_tiles: bool) -> (c: Self)
        ensures
            c.data() == data,
            c.ignores_transparent_tiles() == ignore_transparent_tiles,
    {
        DiskCache { inner: data, ignore_transparent_tiles }
    }

    /// The cache file path of `tile` for this cache.
    pub fn tile_file_path(&self, tile: TileId) -> (r: String)
        ensures
            r@ == tile_path(self.data().folder_name@, self.data().image_extension@, tile),
    {
        get_tile_path(self.inner.folder_name, self.inner.image_extension, tile)
    }

    /// Decides what to do with a tile's cache file: a missing file is a
    /// miss, a file strictly older than `invalidate_time` is removed and
    /// treated as a miss, and every other file — including one whose age
    /// could not be read — is served. `age_secs` is the seconds since the
    /// file was last written, when the file exists and its age is known.
    pub fn cache_decision(&self, file_exists: bool, age_secs: Option<u64>) -> (d: CacheDecision)
        ensures
            d == (if !file_exists {
                CacheDecision::Miss
            } else {
                match age_secs {
                    Some(age) => if age > self.data().invalidate_time {
                        CacheDecision::Remove
                    } else {
                        CacheDecision::Serve
                    },
                    None => CacheDecision::Serve,
                }
            }),
    {
        if !file_exists {
            CacheDecision::Miss
        } else {
            match age_secs {
                Some(age) => {
                    if age > self.inner.invalidate_time {
                        CacheDecision::Remove
                    } else {
                        CacheDecision::Serve
                    }
                },
                None => CacheDecision::Serve,
            }
        }
    }

    /// The readiness probe of the cache tier: a metadata-only existence
    /// check.
    pub fn readiness(&self, file_exists: bool) -> (r: ReadinessStatus)
        ensures
            r == (if file_exists {
                ReadinessStatus::Available
            } else {
                ReadinessStatus::NotAvailable
            }),
    {
        if file_exists {
            ReadinessStatus::Available
        } else {
            ReadinessStatus::NotAvailable
        }
    }
}

} // verus!
