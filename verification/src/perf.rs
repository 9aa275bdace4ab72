use vstd::prelude::*;

verus! {

/// How many samples each moving-average window retains.
pub const SAMPLE_WINDOW: usize = 16;

/// The sum of a window's samples.
pub open spec fn sample_sum(s: Seq<u64>) -> int
    decreases s.len(),
{
    if s.len() == 0 {
        0
    } else {
        sample_sum(s.drop_first()) + s[0]
    }
}

/// The moving average of a window: the mean of its samples, zero while it
/// is empty.
pub open spec fn window_average(s: Seq<u64>) -> int {
    if s.len() == 0 {
        0
    } else {
        sample_sum(s) / s.len() as int
    }
}

proof fn lemma_sample_sum_snoc(s: Seq<u64>, x: u64)
    ensures
        sample_sum(s.push(x)) == sample_sum(s) + x,
    decreases s.len(),
{
    if s.len() == 0 {
        assert(s.push(x).drop_first() =~= Seq::<u64>::empty());
        assert(s.push(x)[0] == x);
        assert(sample_sum(Seq::<u64>::empty()) == 0);
        assert(sample_sum(s) == 0);
    } else {
        assert(s.push(x)[0] == s[0]);
        assert(s.push(x).drop_first() =~= s.drop_first().push(x));
        lemma_sample_sum_snoc(s.drop_first(), x);
    }
}

proof fn lemma_sample_sum_bounds(s: Seq<u64>)
    ensures
        0 <= sample_sum(s) <= s.len() * u64::MAX,
    decreases s.len(),
{
    if s.len() == 0 {
    } else {
        lemma_sample_sum_bounds(s.drop_first());
        assert((s.len() - 1) * u64::MAX + u64::MAX == s.len() * u64::MAX) by (nonlinear_arith);
    }
}

/// The window after taking one more sample: a full window forgets its
/// oldest sample first.
pub open spec fn window_after(s: Seq<u64>, x: u64) -> Seq<u64> {
    if s.len() < SAMPLE_WINDOW {
        s.push(x)
    } else {
        s.drop_first().push(x)
    }
}

/// Appends a sample to a window, keeping at most `SAMPLE_WINDOW` entries.
fn push_window(w: &mut Vec<u64>, x: u64)
    requires
        old(w)@.len() <= SAMPLE_WINDOW,
    ensures
        final(w)@ == window_after(old(w)@, x),
        final(w)@.len() <= SAMPLE_WINDOW,
{
    if w.len() == SAMPLE_WINDOW {
        w.remove(0);
        proof {
            assert(w@ =~= old(w)@.drop_first());
        }
    }
    w.push(x);
}

/// The mean of a window's samples, zero while it is empty.
fn average(v: &Vec<u64>) -> (r: u64)
    requires
        v@.len() <= SAMPLE_WINDOW,
    ensures
        r == window_average(v@),
{
    let n: usize = v.len();
    if n == 0 {
        return 0u64;
    }
    let mut acc: u128 = 0;
    let mut i: usize = 0;
    proof {
        assert(v@.take(0) =~= Seq::<u64>::empty());
        lemma_sample_sum_bounds(v@);
    }
    while i < n
        invariant
            n == v@.len() <= SAMPLE_WINDOW,
            i <= n,
            acc == sample_sum(v@.take(i as int)),
            acc <= i * (u64::MAX as int),
        decreases n - i,
    {
        proof {
            lemma_sample_sum_snoc(v@.take(i as int), v@[i as int]);
            assert(v@.take(i + 1) =~= v@.take(i as int).push(v@[i as int]));
            assert(i * (u64::MAX as int) + u64::MAX == (i + 1) * (u64::MAX as int))
                by (nonlinear_arith);
        }
        acc = acc + (v[i] as u128);
        i = i + 1;
    }
    proof {
        assert(v@.take(n as int) =~= v@);
        assert(sample_sum(v@) / (n as int) <= u64::MAX as int) by {
            lemma_sample_sum_bounds(v@);
            vstd::arithmetic::div_mod::lemma_div_is_ordered(
                sample_sum(v@),
                n * (u64::MAX as int),
                n as int,
            );
            vstd::arithmetic::div_mod::lemma_div_multiples_vanish(u64::MAX as int, n as int);
            assert((n as int) * (u64::MAX as int) == n * (u64::MAX as int));
        }
    }
    (acc / (n as u128)) as u64
}

/// The live per-frame performance counters of the map: updated as tiles
/// are fetched, decoded and uploaded. An explicit object handed to the
/// pipeline rather than process-wide state, so a recording or no-op sink
/// can be injected. Times are nanoseconds.
pub struct PerformanceData {
    tiles_rendered: usize,
    tiles_on_gpu: usize,
    tiles_in_memory: usize,
    zoom: u32,
    backend_request_nanos: Vec<(String, Vec<u64>)>,
    tile_decode_nanos: Vec<u64>,
    tile_upload_nanos: Vec<u64>,
}

/// A point-in-time copy of the performance counters, with each sample
/// window reduced to its moving average.
pub struct PerformanceDataSnapshot {
    pub tiles_rendered: usize,
    pub tiles_on_gpu: usize,
    pub tiles_in_memory: usize,
    pub zoom: u32,
    pub backend_request_nanos: Vec<(String, u64)>,
    pub tile_decode_nanos: u64,
    pub tile_upload_nanos: u64,
}

impl Default for PerformanceData {
    fn default() -> (d: Self)
        ensures
            d.wf(),
            d.tiles_rendered() == 0,
            d.tiles_on_gpu() == 0,
            d.tiles_in_memory() == 0,
            d.zoom() == 0,
            d.backend_windows() == Seq::<(Seq<char>, Seq<u64>)>::empty(),
            d.decode_window() == Seq::<u64>::empty(),
            d.upload_window() == Seq::<u64>::empty(),
    {
        Self::new()
    }
}

impl PerformanceData {
    /// How many tiles the last frame drew.
    pub closed spec fn tiles_rendered(self) -> usize {
        self.tiles_rendered
    }

    /// How many tiles sit on the GPU.
    pub closed spec fn tiles_on_gpu(self) -> usize {
        self.tiles_on_gpu
    }

    /// How many tiles sit decoded in memory.
    pub closed spec fn tiles_in_memory(self) -> usize {
        self.tiles_in_memory
    }

    /// The tile zoom level of the last frame.
    pub closed spec fn zoom(self) -> u32 {
        self.zoom
    }

    /// Publishes the frame's scalar counters.
    pub fn set_counts(
        &mut self,
        tiles_rendered: usize,
        tiles_on_gpu: usize,
        tiles_in_memory: usize,
        zoom: u32,
    )
        requires
            old(self).wf(),
        ensures
            final(self).wf(),
            final(self).tiles_rendered() == tiles_rendered,
            final(self).tiles_on_gpu() == tiles_on_gpu,
            final(self).tiles_in_memory() == tiles_in_memory,
            final(self).zoom() == zoom,
            final(self).backend_windows() == old(self).backend_windows(),
            final(self).decode_window() == old(self).decode_window(),
            final(self).upload_window() == old(self).upload_window(),
    {
        self.tiles_rendered = tiles_rendered;
        self.tiles_on_gpu = tiles_on_gpu;
        self.tiles_in_memory = tiles_in_memory;
        self.zoom = zoom;
        proof {
            assert(self.backend_windows() =~= old(self).backend_windows());
        }
    }

    /// The per-backend sample windows: backend name and its samples.
    pub closed spec fn backend_windows(self) -> Seq<(Seq<char>, Seq<u64>)> {
        self.backend_request_nanos@.map(
            |i: int, e: (String, Vec<u64>)| (e.0@, e.1@),
        )
    }

    /// The decode-time sample window.
    pub closed spec fn decode_window(self) -> Seq<u64> {
        self.tile_decode_nanos@
    }

    /// The upload-time sample window.
    pub closed spec fn upload_window(self) -> Seq<u64> {
        self.tile_upload_nanos@
    }

    pub closed spec fn wf(self) -> bool {
        &&& self.tile_decode_nanos@.len() <= SAMPLE_WINDOW
        &&& self.tile_upload_nanos@.len() <= SAMPLE_WINDOW
        &&& forall|i: int|
            0 <= i < self.backend_request_nanos@.len() ==> (
            #[trigger] self.backend_request_nanos@[i]).1@.len() <= SAMPLE_WINDOW
        &&& forall|i: int, j: int|
            0 <= i < j < self.backend_request_nanos@.len() ==> (
            #[trigger] self.backend_request_nanos@[i]).0@ != (
            #[trigger] self.backend_request_nanos@[j]).0@
    }

    /// Fresh counters: everything zero, no samples.
    pub fn new() -> (d: Self)
        ensures
            d.wf(),
            d.tiles_rendered() == 0,
            d.tiles_on_gpu() == 0,
            d.tiles_in_memory() == 0,
            d.zoom() == 0,
            d.backend_windows() == Seq::<(Seq<char>, Seq<u64>)>::empty(),
            d.decode_window() == Seq::<u64>::empty(),
            d.upload_window() == Seq::<u64>::empty(),
    {
        let d = PerformanceData {
            tiles_rendered: 0,
            tiles_on_gpu: 0,
            tiles_in_memory: 0,
            zoom: 0,
            backend_request_nanos: Vec::new(),
            tile_decode_nanos: Vec::new(),
            tile_upload_nanos: Vec::new(),
        };
        proof {
            assert(d.backend_windows() =~= Seq::<(Seq<char>, Seq<u64>)>::empty());
        }
        d
    }

    /// Records how long decoding one tile took.
    pub fn add_decode_sample(&mut self, nanos: u64)
        requires
            old(self).wf(),
        ensures
            final(self).wf(),
            final(self).decode_window() == window_after(old(self).decode_window(), nanos),
            final(self).upload_window() == old(self).upload_window(),
            final(self).backend_windows() == old(self).backend_windows(),
    {
        push_window(&mut self.tile_decode_nanos, nanos);
        proof {
            assert(self.backend_windows() =~= old(self).backend_windows());
        }
    }

    /// Records how long uploading one tile to the GPU took.
    pub fn add_upload_sample(&mut self, nanos: u64)
        requires
            old(self).wf(),
        ensures
            final(self).wf(),
            final(self).upload_window() == window_after(old(self).upload_window(), nanos),
            final(self).decode_window() == old(self).decode_window(),
            final(self).backend_windows() == old(self).backend_windows(),
    {
        push_window(&mut self.tile_upload_nanos, nanos);
        proof {
            assert(self.backend_windows() =~= old(self).backend_windows());
        }
    }

    /// Records how long one backend request took, under the backend's
    /// name; a name seen for the first time gets its own window.
    pub fn add_backend_sample(&mut self, name: &str, nanos: u64)
        requires
            old(self).wf(),
        ensures
            final(self).wf(),
            final(self).decode_window() == old(self).decode_window(),
            final(self).upload_window() == old(self).upload_window(),
            ({
                let pre = old(self).backend_windows();
                let post = final(self).backend_windows();
                if exists|i: int| 0 <= i < pre.len() && (#[trigger] pre[i]).0 == name@ {
                    ({
                        let i = choose|i: int|
                            0 <= i < pre.len() && (#[trigger] pre[i]).0 == name@;
                        post == pre.update(i, (pre[i].0, window_after(pre[i].1, nanos)))
                    })
                } else {
                    post == pre.push((name@, seq![nanos]))
                }
            }),
    {
        let ghost pre = *self;
        let key: String = name.to_owned();
        let mut i: usize = 0;
        let n: usize = self.backend_request_nanos.len();
        while i < n
            invariant
                *self == pre,
                pre == *old(self),
                pre.wf(),
                n == self.backend_request_nanos@.len(),
                i <= n,
                key@ == name@,
                forall|j: int|
                    0 <= j < i ==> (#[trigger] self.backend_windows()[j]).0 != name@,
            decreases n - i,
        {
            proof {
                assert(self.backend_windows()[i as int] == (
                    self.backend_request_nanos@[i as int].0@,
                    self.backend_request_nanos@[i as int].1@,
                ));
            }
            if self.backend_request_nanos[i].0.eq(&key) {
                push_window(&mut self.backend_request_nanos[i].1, nanos);
                proof {
                    let e = pre.backend_windows()[i as int];
                    assert(self.backend_windows() =~= pre.backend_windows().update(
                        i as int,
                        (e.0, window_after(e.1, nanos)),
                    ));
                    assert(exists|j: int|
                        0 <= j < pre.backend_windows().len() && (#[trigger] pre.backend_windows()[
                        j]).0 == name@);
                    let c = choose|j: int|
                        0 <= j < pre.backend_windows().len() && (#[trigger] pre.backend_windows()[
                        j]).0 == name@;
                    if c < i {
                        assert(pre.backend_windows()[c].0 != name@);
                    } else if c > i {
                        assert(pre.backend_request_nanos@[i as int].0@
                            != pre.backend_request_nanos@[c].0@);
                        assert(pre.backend_windows()[c].0 == pre.backend_request_nanos@[c].0@);
                    }
                    assert(c == i);
                    assert forall|a: int, b: int|
                        0 <= a < b < self.backend_request_nanos@.len() implies (
                    #[trigger] self.backend_request_nanos@[a]).0@ != (
                    #[trigger] self.backend_request_nanos@[b]).0@ by {
                        assert(pre.backend_request_nanos@[a].0@
                            != pre.backend_request_nanos@[b].0@);
                        assert(self.backend_request_nanos@[a].0@
                            == pre.backend_request_nanos@[a].0@);
                        assert(self.backend_request_nanos@[b].0@
                            == pre.backend_request_nanos@[b].0@);
                    }
                }
                return ;
            }
            i = i + 1;
        }
        let mut window: Vec<u64> = Vec::new();
        window.push(nanos);
        self.backend_request_nanos.push((key, window));
        proof {
            assert(self.backend_windows() =~= pre.backend_windows().push((name@, seq![nanos])));
            assert forall|a: int, b: int|
                0 <= a < b < self.backend_request_nanos@.len() implies (
            #[trigger] self.backend_request_nanos@[a]).0@ != (
            #[trigger] self.backend_request_nanos@[b]).0@ by {
                if b < self.backend_request_nanos@.len() - 1 {
                    assert(pre.backend_request_nanos@[a].0@ != pre.backend_request_nanos@[b].0@);
                } else {
                    assert(self.backend_request_nanos@[b].0@ == name@);
                    assert(pre.backend_windows()[a].0 != name@);
                    assert(pre.backend_windows()[a].0 == pre.backend_request_nanos@[a].0@);
                }
            }
        }
    }

    /// Reduces the counters to a snapshot: the scalar counters copied,
    /// and every sample window replaced by its moving average.
    pub fn snapshot(&self) -> (r: PerformanceDataSnapshot)
        requires
            self.wf(),
        ensures
            r.tiles_rendered == self.tiles_rendered(),
            r.tiles_on_gpu == self.tiles_on_gpu(),
            r.tiles_in_memory == self.tiles_in_memory(),
            r.zoom == self.zoom(),
            r.tile_decode_nanos == window_average(self.decode_window()),
            r.tile_upload_nanos == window_average(self.upload_window()),
            r.backend_request_nanos@.len() == self.backend_windows().len(),
            forall|i: int|
                0 <= i < self.backend_windows().len() ==> {
                    &&& (#[trigger] r.backend_request_nanos@[i]).0@ == self.backend_windows()[i].0
                    &&& r.backend_request_nanos@[i].1 == window_average(
                        self.backend_windows()[i].1,
                    )
                },
    {
        let mut averages: Vec<(String, u64)> = Vec::new();
        let mut i: usize = 0;
        let n: usize = self.backend_request_nanos.len();
        while i < n
            invariant
                self.wf(),
                n == self.backend_request_nanos@.len(),
                i <= n,
                averages@.len() == i,
                forall|j: int|
                    0 <= j < i ==> {
                        &&& (#[trigger] averages@[j]).0@ == self.backend_windows()[j].0
                        &&& averages@[j].1 == window_average(self.backend_windows()[j].1)
                    },
            decreases n - i,
        {
            proof {
                assert(self.backend_windows()[i as int] == (
                    self.backend_request_nanos@[i as int].0@,
                    self.backend_request_nanos@[i as int].1@,
                ));
            }
            let name: String = self.backend_request_nanos[i].0.clone();
            let avg: u64 = average(&self.backend_request_nanos[i].1);
            averages.push((name, avg));
            i = i + 1;
        }
        PerformanceDataSnapshot {
            tiles_rendered: self.tiles_rendered,
            tiles_on_gpu: self.tiles_on_gpu,
            tiles_in_memory: self.tiles_in_memory,
            zoom: self.zoom,
            backend_request_nanos: averages,
            tile_decode_nanos: average(&self.tile_decode_nanos),
            tile_upload_nanos: average(&self.tile_upload_nanos),
        }
    }
}

} // verus!
