use vstd::prelude::*;

use crate::tile::TileId;
use std::collections::HashMap;

verus! {

broadcast use vstd::std_specs::hash::group_hash_axioms;

// A tile key packs the zoom level into the low 5 bits and the two axes into
// 24-bit fields above it: `x << 29 | y << 5 | zoom`.
const ZOOM_BITS: u64 = 5;
const COORD_BITS: u64 = 24;
const Y_OFFSET: u64 = ZOOM_BITS;
const X_OFFSET: u64 = COORD_BITS + ZOOM_BITS;
const ZOOM_MASK: u64 = 0x1f;
const COORD_MASK: u64 = 0xff_ffff;

/// The packed 64-bit key of a tile coordinate.
pub open spec fn key_of(tile: TileId) -> u64 {
    (tile.x as u64) << 29 | (tile.y as u64) << 5 | (tile.zoom as u64)
}

/// The tile coordinate a packed 64-bit key stands for.
pub open spec fn tile_of(bits: u64) -> TileId {
    TileId {
        x: ((bits >> 29) & 0xff_ffff) as u32,
        y: ((bits >> 5) & 0xff_ffff) as u32,
        zoom: (bits & 0x1f) as u32,
    }
}

/// Law: decoding the key of any in-range tile coordinate gives that
/// coordinate back.
pub proof fn lemma_tile_key_round_trip(tile: TileId)
    requires
        tile.wf(),
    ensures
        tile_of(key_of(tile)) == tile,
{
    let x = tile.x;
    let y = tile.y;
    let zoom = tile.zoom;
    let bits = key_of(tile);
    assert({
        let b = (x as u64) << 29 | (y as u64) << 5 | (zoom as u64);
        ((b >> 29) & 0xff_ffff) as u32 == x && ((b >> 5) & 0xff_ffff) as u32 == y && (b
            & 0x1f) as u32 == zoom
    }) by (bit_vector)
        requires
            x < 0x100_0000u32 && y < 0x100_0000u32 && zoom < 32u32,
    ;
}

/// Law: two in-range tile coordinates with the same key are the same tile.
pub proof fn lemma_tile_key_injective(t1: TileId, t2: TileId)
    requires
        t1.wf(),
        t2.wf(),
        key_of(t1) == key_of(t2),
    ensures
        t1 == t2,
{
    lemma_tile_key_round_trip(t1);
    lemma_tile_key_round_trip(t2);
}

/// Encodes a tile coordinate into a u64.
pub fn tile_coord_to_u64(tile: TileId) -> (bits: u64)
    requires
        tile.wf(),
    ensures
        bits == key_of(tile),
        tile_of(bits) == tile,
{
    proof {
        lemma_tile_key_round_trip(tile);
    }
    let x: u64 = tile.x as u64;
    let y: u64 = tile.y as u64;
    let zoom: u64 = tile.zoom as u64;
    x << X_OFFSET | y << Y_OFFSET | zoom
}

/// Decodes a tile coordinate from a u64.
pub fn u64_to_tile_coord(bits: u64) -> (tile: TileId)
    ensures
        tile == tile_of(bits),
        tile.wf(),
{
    let zoom: u64 = bits & ZOOM_MASK;
    let y: u64 = (bits >> Y_OFFSET) & COORD_MASK;
    let x: u64 = (bits >> X_OFFSET) & COORD_MASK;
    proof {
        let b = bits;
        assert(b & 0x1f < 32u64 && (b >> 5) & 0xff_ffff < 0x100_0000u64 && (b >> 29) & 0xff_ffff
            < 0x100_0000u64) by (bit_vector);
    }
    TileId { x: x as u32, y: y as u32, zoom: zoom as u32 }
}

/// The state a requested tile is in, kept per packed tile key.
///
/// A tile becomes `Pending` when it is first requested, and moves exactly
/// once to `Cached` (holding the renderer's texture handle) or to
/// `NotAvailable` when its fetch completes.
#[derive(Copy, Clone, Debug, PartialEq, Eq, Structural)]
pub enum CachedTile {
    NotAvailable,
    Pending,
    Cached(u64),
}

/// What a finished fetch settles a tile's entry to: the uploaded texture
/// handle, or `NotAvailable` when every backend came up empty.
pub open spec fn settled(outcome: Option<u64>) -> CachedTile {
    match outcome {
        Some(handle) => CachedTile::Cached(handle),
        None => CachedTile::NotAvailable,
    }
}

/// The cache after a batch of fetch completions has been folded in,
/// front first.
pub open spec fn apply_completions(
    m: Map<u64, CachedTile>,
    s: Seq<(TileId, Option<u64>)>,
) -> Map<u64, CachedTile>
    decreases s.len(),
{
    if s.len() == 0 {
        m
    } else {
        apply_completions(m.insert(key_of(s[0].0), settled(s[0].1)), s.drop_first())
    }
}

proof fn lemma_apply_completions_snoc(m: Map<u64, CachedTile>, s: Seq<(TileId, Option<u64>)>, c: (TileId, Option<u64>))
    ensures
        apply_completions(m, s.push(c)) == apply_completions(m, s).insert(key_of(c.0), settled(c.1)),
    decreases s.len(),
{
    if s.len() == 0 {
        let e = Seq::<(TileId, Option<u64>)>::empty();
        assert(s.push(c).drop_first() =~= e);
        assert(s.push(c)[0] == c);
        assert(apply_completions(m.insert(key_of(c.0), settled(c.1)), e) == m.insert(
            key_of(c.0),
            settled(c.1),
        ));
    } else {
        assert(s.push(c)[0] == s[0]);
        assert(s.push(c).drop_first() =~= s.drop_first().push(c));
        lemma_apply_completions_snoc(m.insert(key_of(s[0].0), settled(s[0].1)), s.drop_first(), c);
    }
}

/// The tile size the pipeline reports: the first backend, in priority
/// order, whose tile size is known.
pub open spec fn first_backend_size(sizes: Seq<Option<u32>>) -> Option<u32>
    decreases sizes.len(),
{
    if sizes.len() == 0 {
        None
    } else if sizes[0] is Some {
        sizes[0]
    } else {
        first_backend_size(sizes.drop_first())
    }
}

/// Holds multiple levels of cache for requesting tiles in a generic manner,
/// de-duplicating tile requests so that only one is ever outstanding per
/// tile.
///
/// The asynchronous side stays outside the library: a runner drains
/// [`TilePipeline::take_requests`], walks the backends for each taken tile,
/// and hands the outcomes back through [`TilePipeline::update`].
pub struct TilePipeline {
    /// Statically known tile sizes of the backends, in priority order
    /// (first backend queried first).
    backend_sizes: Vec<Option<u32>>,
    /// The per-key state of every tile ever requested.
    cache: HashMap<u64, CachedTile>,
    /// Requests not yet taken by the fetch runner, oldest first.
    queue: Vec<TileId>,
    /// The remembered answer of `tile_size`, filled on first success.
    known_size: Option<u32>,
}

impl TilePipeline {
    /// The per-key tile states.
    pub closed spec fn cache(self) -> Map<u64, CachedTile> {
        self.cache@
    }

    /// The fetch requests not yet taken by the runner, oldest first.
    pub closed spec fn requests(self) -> Seq<TileId> {
        self.queue@
    }

    /// The backends' statically known tile sizes, in priority order.
    pub closed spec fn sizes(self) -> Seq<Option<u32>> {
        self.backend_sizes@
    }

    pub closed spec fn wf(self) -> bool {
        &&& forall|i: int|
            0 <= i < self.queue@.len() ==> (#[trigger] self.queue@[i]).wf()
        &&& forall|i: int|
            0 <= i < self.queue@.len() ==> self.cache@.contains_key(
                key_of(#[trigger] self.queue@[i]),
            )
        &&& forall|i: int, j: int|
            0 <= i < j < self.queue@.len() ==> self.queue@[i] != self.queue@[j]
        &&& match self.known_size {
            Some(s) => first_backend_size(self.backend_sizes@) == Some(s),
            None => true,
        }
    }

    /// Creates a new pipeline over backends whose statically known tile
    /// sizes are given in priority order.
    pub fn new(backend_sizes: Vec<Option<u32>>) -> (p: Self)
        ensures
            p.wf(),
            p.cache() == Map::<u64, CachedTile>::empty(),
            p.requests() == Seq::<TileId>::empty(),
            p.sizes() == backend_sizes@,
    {
        let p = TilePipeline {
            backend_sizes,
            cache: HashMap::new(),
            queue: Vec::new(),
            known_size: None,
        };
        proof {
            assert(p.cache@ =~= Map::<u64, CachedTile>::empty());
            assert(p.queue@ =~= Seq::<TileId>::empty());
        }
        p
    }

    /// How one `get_tile` call relates the pipeline's state before and
    /// after, and its result: a hit answers from the per-tile state alone,
    /// a miss marks the tile `Pending` and enqueues exactly one fetch.
    pub open spec fn get_tile_post(
        pre: TilePipeline,
        post: TilePipeline,
        tile: TileId,
        r: Option<u64>,
    ) -> bool {
        let k = key_of(tile);
        &&& post.sizes() == pre.sizes()
        &&& if pre.cache().contains_key(k) {
            &&& post.cache() == pre.cache()
            &&& post.requests() == pre.requests()
            &&& r == (match pre.cache()[k] {
                CachedTile::Cached(handle) => Some(handle),
                _ => None::<u64>,
            })
        } else {
            &&& post.cache() == pre.cache().insert(k, CachedTile::Pending)
            &&& post.requests() == pre.requests().push(tile)
            &&& r is None
        }
    }

    /// Fetches the texture handle of `tile`, or starts loading it:
    /// on a miss the tile is marked `Pending` and one fetch request is
    /// enqueued, and this and every later call answer `None` until the
    /// fetch completes.
    pub fn get_tile(&mut self, tile: TileId) -> (r: Option<u64>)
        requires
            old(self).wf(),
            tile.wf(),
        ensures
            final(self).wf(),
            Self::get_tile_post(*old(self), *final(self), tile, r),
    {
        let k: u64 = tile_coord_to_u64(tile);
        match self.cache.get(&k) {
            Some(state) => {
                match state {
                    CachedTile::Cached(handle) => Some(*handle),
                    _ => None,
                }
            },
            None => {
                self.queue.push(tile);
                self.cache.insert(k, CachedTile::Pending);
                None
            },
        }
    }

    /// Law: a second `get_tile` for a tile whose first request is still
    /// unresolved enqueues nothing — over both calls exactly one fetch
    /// request leaves the pipeline.
    pub proof fn lemma_request_dedup(
        p0: TilePipeline,
        p1: TilePipeline,
        r1: Option<u64>,
        p2: TilePipeline,
        r2: Option<u64>,
        tile: TileId,
    )
        requires
            !p0.cache().contains_key(key_of(tile)),
            Self::get_tile_post(p0, p1, tile, r1),
            Self::get_tile_post(p1, p2, tile, r2),
        ensures
            p1.requests() == p0.requests().push(tile),
            p2.requests() == p1.requests(),
            r1 is None,
            r2 is None,
    {
    }

    /// Hands the queued fetch requests to the asynchronous runner, leaving
    /// the queue empty. Every taken tile is in-range and no tile is handed
    /// out twice.
    pub fn take_requests(&mut self) -> (r: Vec<TileId>)
        requires
            old(self).wf(),
        ensures
            final(self).wf(),
            r@ == old(self).requests(),
            final(self).requests() == Seq::<TileId>::empty(),
            final(self).cache() == old(self).cache(),
            final(self).sizes() == old(self).sizes(),
            forall|i: int| 0 <= i < r@.len() ==> (#[trigger] r@[i]).wf(),
            forall|i: int, j: int| 0 <= i < j < r@.len() ==> r@[i] != r@[j],
    {
        let mut taken: Vec<TileId> = Vec::new();
        core::mem::swap(&mut taken, &mut self.queue);
        taken
    }

    /// Folds a batch of finished fetches into the cache: each tile's entry
    /// becomes `Cached` with its uploaded texture handle, or `NotAvailable`
    /// when every backend came up empty. The caller bounds the batch to its
    /// per-frame budget.
    pub fn update(&mut self, completions: Vec<(TileId, Option<u64>)>)
        requires
            old(self).wf(),
            forall|i: int|
                0 <= i < completions@.len() ==> (#[trigger] completions@[i]).0.wf(),
        ensures
            final(self).wf(),
            final(self).cache() == apply_completions(old(self).cache(), completions@),
            final(self).requests() == old(self).requests(),
            final(self).sizes() == old(self).sizes(),
    {
        let ghost pre = *self;
        let mut i: usize = 0;
        while i < completions.len()
            invariant
                pre.wf(),
                self.wf(),
                i <= completions@.len(),
                forall|j: int|
                    0 <= j < completions@.len() ==> (#[trigger] completions@[j]).0.wf(),
                self.cache() == apply_completions(pre.cache(), completions@.take(i as int)),
                self.requests() == pre.requests(),
                self.sizes() == pre.sizes(),
                self.known_size == pre.known_size,
            decreases completions@.len() - i,
        {
            let (tile, outcome) = completions[i];
            let k: u64 = tile_coord_to_u64(tile);
            let entry: CachedTile = match outcome {
                Some(handle) => CachedTile::Cached(handle),
                None => CachedTile::NotAvailable,
            };
            self.cache.insert(k, entry);
            proof {
                lemma_apply_completions_snoc(
                    pre.cache(),
                    completions@.take(i as int),
                    completions@[i as int],
                );
                assert(completions@.take(i + 1) =~= completions@.take(i as int).push(
                    completions@[i as int],
                ));
            }
            i = i + 1;
        }
        proof {
            assert(completions@.take(completions@.len() as int) =~= completions@);
        }
    }

    /// Returns the size of tiles served by this pipeline: the first
    /// backend, in priority order, whose size is known; `None` when no
    /// backend knows its size. The answer is remembered after the first
    /// successful lookup.
    pub fn tile_size(&mut self) -> (r: Option<u32>)
        requires
            old(self).wf(),
        ensures
            final(self).wf(),
            r == first_backend_size(old(self).sizes()),
            final(self).cache() == old(self).cache(),
            final(self).requests() == old(self).requests(),
            final(self).sizes() == old(self).sizes(),
    {
        match self.known_size {
            Some(s) => Some(s),
            None => {
                let mut i: usize = 0;
                let n: usize = self.backend_sizes.len();
                proof {
                    assert(self.backend_sizes@.skip(0) =~= self.backend_sizes@);
                }
                while i < n
                    invariant
                        *self == *old(self),
                        old(self).wf(),
                        n == self.backend_sizes@.len(),
                        i <= n,
                        first_backend_size(self.backend_sizes@) == first_backend_size(
                            self.backend_sizes@.skip(i as int),
                        ),
                    decreases n - i,
                {
                    match self.backend_sizes[i] {
                        Some(s) => {
                            proof {
                                assert(self.backend_sizes@.skip(i as int)[0] == self.backend_sizes@[
                                    i as int
                                ]);
                                assert(first_backend_size(self.backend_sizes@.skip(i as int))
                                    == Some(s));
                            }
                            self.known_size = Some(s);
                            return Some(s);
                        },
                        None => {
                            proof {
                                assert(self.backend_sizes@.skip(i as int).drop_first()
                                    =~= self.backend_sizes@.skip(i + 1));
                                assert(self.backend_sizes@.skip(i as int)[0] == self.backend_sizes@[
                                    i as int
                                ]);
                            }
                            i = i + 1;
                        },
                    }
                }
                proof {
                    assert(self.backend_sizes@.skip(n as int) =~= Seq::<Option<u32>>::empty());
                }
                None
            },
        }
    }
}

/// One tile pipeline per imagery kind, each backed by a disk cache tier
/// before its remote tier.
pub struct Pipelines {
    pub satellite: TilePipeline,
    pub weather: TilePipeline,
}

/// The default pipelines: for each imagery kind, a disk-cache tier whose
/// tile size is only known at runtime, then the remote tier with its fixed
/// tile size (128 px satellite imagery, 512 px weather imagery).
pub fn pipelines() -> (p: Pipelines)
    ensures
        p.satellite.wf(),
        p.weather.wf(),
        p.satellite.cache() == Map::<u64, CachedTile>::empty(),
        p.weather.cache() == Map::<u64, CachedTile>::empty(),
        p.satellite.requests() == Seq::<TileId>::empty(),
        p.weather.requests() == Seq::<TileId>::empty(),
        p.satellite.sizes() =~= seq![None::<u32>, Some(128u32)],
        p.weather.sizes() =~= seq![None::<u32>, Some(512u32)],
{
    let mut satellite_sizes: Vec<Option<u32>> = Vec::new();
    satellite_sizes.push(None);
    satellite_sizes.push(Some(128));
    let mut weather_sizes: Vec<Option<u32>> = Vec::new();
    weather_sizes.push(None);
    weather_sizes.push(Some(512));
    Pipelines {
        satellite: TilePipeline::new(satellite_sizes),
        weather: TilePipeline::new(weather_sizes),
    }
}

} // verus!
