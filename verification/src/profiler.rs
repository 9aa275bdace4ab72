use vstd::prelude::*;

verus! {

/// A group of associated samples that correspond with the length of an
/// operation, in nanoseconds.
pub struct NamedSample {
    completed: Vec<u64>,
    in_progress: Option<u64>,
}

impl NamedSample {
    /// The durations of the finished scopes recorded under this name.
    pub closed spec fn completed(self) -> Seq<u64> {
        self.completed@
    }

    /// The start time of the currently open scope, if one is open.
    pub closed spec fn in_progress(self) -> Option<u64> {
        self.in_progress
    }

    /// The finished durations recorded under this name.
    pub fn get_samples(&self) -> (r: &Vec<u64>)
        ensures
            r@ == self.completed(),
    {
        &self.completed
    }
}

/// The view of a sample list: for each entry its name, its finished
/// durations, and the start time of its open scope if any.
pub open spec fn sample_views(s: Seq<(String, NamedSample)>) -> Seq<
    (Seq<char>, Seq<u64>, Option<u64>),
> {
    s.map(|i: int, e: (String, NamedSample)| (e.0@, e.1.completed(), e.1.in_progress()))
}

/// Collects named timing samples. An explicit object rather than hidden
/// global state, and the timestamps come in as arguments (nanoseconds on
/// the caller's monotonic clock), so the collected data is a pure
/// function of the calls made.
pub struct Profiler {
    samples: Vec<(String, NamedSample)>,
}

/// A profiling guard for one open scope; handing it back to the profiler
/// ends the scope, so the end timestamp is recorded on every exit path
/// that returns the guard.
pub struct ScopeSampler {
    name: String,
}

impl ScopeSampler {
    /// The scope name this guard closes.
    pub closed spec fn name(self) -> Seq<char> {
        self.name@
    }

    /// Ends this sample at `now_nanos`, recording the elapsed time under
    /// the guard's name and leaving that name with no open scope.
    pub fn end(self, p: &mut Profiler, now_nanos: u64)
        requires
            old(p).wf(),
            old(p).has_name(self.name()),
            ({
                let e = old(p).entries()[old(p).index_of(self.name())];
                e.2 is Some && e.2->0 <= now_nanos
            }),
        ensures
            final(p).wf(),
            ({
                let i = old(p).index_of(self.name());
                let e = old(p).entries()[i];
                final(p).entries() == old(p).entries().update(
                    i,
                    (e.0, e.1.push((now_nanos - e.2->0) as u64), None::<u64>),
                )
            }),
    {
        let ghost pre = *p;
        match p.find(&self.name) {
            Some(i) => {
                proof {
                    Profiler::lemma_index_unique(pre, self.name@, i as int);
                }
                let start: u64 = match p.samples[i].1.in_progress {
                    Some(s) => s,
                    None => {
                        proof {
                            assert(false);
                        }
                        0
                    },
                };
                p.samples[i].1.completed.push(now_nanos - start);
                p.samples[i].1.in_progress = None;
                proof {
                    let e = pre.entries()[i as int];
                    assert(p.entries() =~= pre.entries().update(
                        i as int,
                        (e.0, e.1.push((now_nanos - e.2->0) as u64), None::<u64>),
                    ));
                    pre.lemma_update_keeps_wf(
                        *p,
                        i as int,
                        (e.0, e.1.push((now_nanos - e.2->0) as u64), None::<u64>),
                    );
                }
            },
            None => {
                proof {
                    assert(false);
                }
            },
        }
    }
}

impl Profiler {
    /// The recorded entries: name, finished durations, open start time.
    pub closed spec fn entries(self) -> Seq<(Seq<char>, Seq<u64>, Option<u64>)> {
        sample_views(self.samples@)
    }

    /// Whether a scope name has an entry.
    pub open spec fn has_name(self, name: Seq<char>) -> bool {
        exists|i: int|
            0 <= i < self.entries().len() && (#[trigger] self.entries()[i]).0 == name
    }

    /// The index of a name's entry (meaningful when `has_name` holds; by
    /// `wf` it is then unique).
    pub open spec fn index_of(self, name: Seq<char>) -> int {
        choose|i: int|
            0 <= i < self.entries().len() && (#[trigger] self.entries()[i]).0 == name
    }

    /// Each scope name owns at most one entry.
    pub open spec fn wf(self) -> bool {
        forall|i: int, j: int|
            0 <= i < j < self.entries().len() ==> (#[trigger] self.entries()[i]).0 != (
            #[trigger] self.entries()[j]).0
    }

    /// An entry found at `i` is the entry `index_of` names.
    proof fn lemma_index_unique(self, name: Seq<char>, i: int)
        requires
            self.wf(),
            0 <= i < self.entries().len(),
            self.entries()[i].0 == name,
        ensures
            self.has_name(name),
            self.index_of(name) == i,
    {
        assert(self.has_name(name));
        let j = self.index_of(name);
        if i < j {
            assert(self.entries()[i].0 != self.entries()[j].0);
        } else if j < i {
            assert(self.entries()[j].0 != self.entries()[i].0);
        }
    }

    /// Updating an entry without changing its name keeps names unique.
    proof fn lemma_update_keeps_wf(
        self,
        post: Profiler,
        i: int,
        e: (Seq<char>, Seq<u64>, Option<u64>),
    )
        requires
            self.wf(),
            0 <= i < self.entries().len(),
            e.0 == self.entries()[i].0,
            post.entries() == self.entries().update(i, e),
        ensures
            post.wf(),
    {
        assert forall|a: int, b: int|
            0 <= a < b < post.entries().len() implies (#[trigger] post.entries()[a]).0 != (
        #[trigger] post.entries()[b]).0 by {
            assert(post.entries()[a].0 == self.entries()[a].0);
            assert(post.entries()[b].0 == self.entries()[b].0);
        }
    }

    /// An empty profiler.
    pub fn new() -> (p: Self)
        ensures
            p.wf(),
            p.entries() == Seq::<(Seq<char>, Seq<u64>, Option<u64>)>::empty(),
    {
        let p = Profiler { samples: Vec::new() };
        proof {
            assert(p.entries() =~= Seq::<(Seq<char>, Seq<u64>, Option<u64>)>::empty());
        }
        p
    }

    /// Finds the entry recorded under `name`.
    fn find(&self, name: &String) -> (r: Option<usize>)
        requires
            self.wf(),
        ensures
            match r {
                Some(i) => i < self.entries().len() && self.entries()[i as int].0 == name@
                    && self.has_name(name@) && self.index_of(name@) == i,
                None => !self.has_name(name@),
            },
    {
        let mut i: usize = 0;
        let n: usize = self.samples.len();
        while i < n
            invariant
                self.wf(),
                n == self.samples@.len(),
                i <= n,
                forall|j: int| 0 <= j < i ==> (#[trigger] self.entries()[j]).0 != name@,
            decreases n - i,
        {
            proof {
                assert(self.entries()[i as int] == (
                    self.samples@[i as int].0@,
                    self.samples@[i as int].1.completed(),
                    self.samples@[i as int].1.in_progress(),
                ));
            }
            if self.samples[i].0.eq(name) {
                proof {
                    self.lemma_index_unique(name@, i as int);
                }
                return Some(i);
            }
            i = i + 1;
        }
        None
    }
}

/// Begins a sampling scope under `name` at `now_nanos`: the name's entry
/// is created on first use, and its open-scope start is set. Ending the
/// returned guard adds one sample under `name`; repeated scopes
/// accumulate. A name whose scope is already open must be ended first
/// (reopening a scope that is still open is a programming error).
pub fn profile_scope(p: &mut Profiler, name: &'static str, now_nanos: u64) -> (g: ScopeSampler)
    requires
        old(p).wf(),
        old(p).has_name(name@) ==> old(p).entries()[old(p).index_of(name@)].2 is None,
    ensures
        final(p).wf(),
        g.name() == name@,
        if old(p).has_name(name@) {
            ({
                let i = old(p).index_of(name@);
                let e = old(p).entries()[i];
                final(p).entries() == old(p).entries().update(i, (e.0, e.1, Some(now_nanos)))
            })
        } else {
            final(p).entries() == old(p).entries().push(
                (name@, Seq::<u64>::empty(), Some(now_nanos)),
            )
        },
{
    let ghost pre = *p;
    let key: String = name.to_owned();
    match p.find(&key) {
        Some(i) => {
            p.samples[i].1.in_progress = Some(now_nanos);
            proof {
                let e = pre.entries()[i as int];
                assert(p.entries() =~= pre.entries().update(
                    i as int,
                    (e.0, e.1, Some(now_nanos)),
                ));
                pre.lemma_update_keeps_wf(*p, i as int, (e.0, e.1, Some(now_nanos)));
            }
        },
        None => {
            let sample = NamedSample { completed: Vec::new(), in_progress: Some(now_nanos) };
            p.samples.push((key, sample));
            proof {
                assert(p.entries() =~= pre.entries().push(
                    (name@, Seq::<u64>::empty(), Some(now_nanos)),
                ));
                assert forall|a: int, b: int|
                    0 <= a < b < p.entries().len() implies (#[trigger] p.entries()[a]).0 != (
                #[trigger] p.entries()[b]).0 by {
                    if b < p.entries().len() - 1 {
                        assert(pre.entries()[a].0 != pre.entries()[b].0);
                    } else {
                        assert(p.entries()[b].0 == name@);
                        assert(pre.entries()[a].0 != name@);
                    }
                }
            }
            return ScopeSampler { name: name.to_owned() };
        },
    }
    ScopeSampler { name: name.to_owned() }
}

/// Takes every recorded entry, leaving the profiler empty. Called once
/// per frame to publish the samples gathered by `profile_scope`.
pub fn take_profile_data(p: &mut Profiler) -> (r: Vec<(String, NamedSample)>)
    requires
        old(p).wf(),
    ensures
        final(p).wf(),
        sample_views(r@) == old(p).entries(),
        final(p).entries() == Seq::<(Seq<char>, Seq<u64>, Option<u64>)>::empty(),
{
    let mut taken: Vec<(String, NamedSample)> = Vec::new();
    core::mem::swap(&mut taken, &mut p.samples);
    proof {
        assert(p.entries() =~= Seq::<(Seq<char>, Seq<u64>, Option<u64>)>::empty());
    }
    taken
}

} // verus!
