use vstd::prelude::*;

use crate::cache::{expired_keys, refreshed, swept, Cache, CacheMap};
use crate::in_flight::InFlight;

verus! {

/// Why a request for a target did not end with an artifact.
#[derive(Clone, Copy, Debug, PartialEq, Eq, Structural)]
pub enum BuildError {
    /// The target identifier is not one that can be built.
    InvalidTarget,
    /// The source could not be fetched.
    FetchFailed,
    /// The toolchain exited with this non-zero status.
    ToolchainFailed(i32),
    /// The toolchain reported success but the artifact is missing.
    ArtifactNotFound,
    /// A bounded wait for another request's build ran out.
    Timeout,
}

/// What a request for a target does next.
pub enum Step {
    /// The artifact is cached at this location: hand it out.
    Serve(String),
    /// Another request is building the target: wait, then ask again.
    Wait,
    /// This request now holds the claim on the target and must build it, then
    /// report the outcome with `Coordinator::finish`.
    Build,
}

/// The mathematical value of a `Step`.
pub enum StepView {
    Serve(Seq<char>),
    Wait,
    Build,
}

impl View for Step {
    type V = StepView;

    open spec fn view(&self) -> StepView {
        match self {
            Step::Serve(loc) => StepView::Serve(loc@),
            Step::Wait => StepView::Wait,
            Step::Build => StepView::Build,
        }
    }
}

/// What a coordinator holds: the cached artifacts and the targets being built.
pub struct CoordinatorView {
    pub entries: CacheMap,
    pub building: Set<Seq<char>>,
}

/// The step that a request for `t` takes in state `s`: a cached artifact is
/// served; otherwise a running build is waited for; otherwise the request
/// builds.
pub open spec fn step_for(s: CoordinatorView, t: Seq<char>) -> StepView {
    if s.entries.contains_key(t) {
        StepView::Serve(s.entries[t].0)
    } else if s.building.contains(t) {
        StepView::Wait
    } else {
        StepView::Build
    }
}

/// The state after a request for `t` at `now`: a hit touches the entry, a
/// wait changes nothing, and a build claims `t`.
pub open spec fn after_lookup(s: CoordinatorView, t: Seq<char>, now: u64) -> CoordinatorView {
    if s.entries.contains_key(t) {
        CoordinatorView { entries: refreshed(s.entries, t, now), building: s.building }
    } else if s.building.contains(t) {
        s
    } else {
        CoordinatorView { entries: s.entries, building: s.building.insert(t) }
    }
}

/// The state after the build of `t` ended at `now` with `outcome`: the claim
/// is released either way, and only a success is cached.
pub open spec fn after_finish(
    s: CoordinatorView,
    t: Seq<char>,
    outcome: Result<Seq<char>, BuildError>,
    now: u64,
) -> CoordinatorView {
    CoordinatorView {
        entries: match outcome {
            Ok(loc) => s.entries.insert(t, (loc, now)),
            Err(_) => s.entries,
        },
        building: s.building.remove(t),
    }
}

/// The view of a build outcome.
pub open spec fn outcome_view(o: Result<String, BuildError>) -> Result<Seq<char>, BuildError> {
    match o {
        Ok(loc) => Ok(loc@),
        Err(e) => Err(e),
    }
}

/// Decides, for each request, whether it is served from the cache, waits for
/// a running build, or builds; one build per target at a time.
///
/// The cache and the set of running builds are held together so that the
/// check of the one and the claim in the other are a single step.
pub struct Coordinator {
    cache: Cache,
    building: InFlight,
}

impl View for Coordinator {
    type V = CoordinatorView;

    closed spec fn view(&self) -> CoordinatorView {
        CoordinatorView { entries: self.cache@, building: self.building@ }
    }
}

impl Coordinator {
    /// The cache's idle timeout, in nanoseconds.
    pub closed spec fn ttl(&self) -> u64 {
        self.cache.ttl()
    }

    /// A coordinator with an empty cache whose entries expire after
    /// `data_timeout` nanoseconds without a read (never, if it is zero), and
    /// no build running.
    pub fn new(data_timeout: u64) -> (r: Self)
        ensures
            r@.entries == crate::cache::no_entries(),
            r@.building == Set::<Seq<char>>::empty(),
            r.ttl() == data_timeout,
    {
        Coordinator { cache: Cache::new(data_timeout), building: InFlight::new() }
    }

    /// Takes the next step for a request for `target` at `now`.
    pub fn lookup(&mut self, target: &String, now: u64) -> (r: Step)
        ensures
            r@ == step_for(old(self)@, target@),
            final(self)@ == after_lookup(old(self)@, target@, now),
            final(self).ttl() == old(self).ttl(),
    {
        match self.cache.get(target, now) {
            Some(loc) => Step::Serve(loc),
            None => {
                if self.building.claim(target.clone()) {
                    Step::Build
                } else {
                    assert(self.building@ =~= old(self).building@);
                    Step::Wait
                }
            },
        }
    }

    /// Whether a build of `target` is running.
    pub fn is_building(&self, target: &String) -> (r: bool)
        ensures
            r == self@.building.contains(target@),
    {
        self.building.contains(target)
    }

    /// Ends the build of `target` at `now`: its claim is released whatever the
    /// outcome, a success is cached, and the outcome is handed back.
    pub fn finish(&mut self, target: &String, outcome: Result<String, BuildError>, now: u64) -> (r:
        Result<String, BuildError>)
        ensures
            final(self)@ == after_finish(old(self)@, target@, outcome_view(outcome), now),
            final(self).ttl() == old(self).ttl(),
            outcome_view(r) == outcome_view(outcome),
    {
        self.building.release(target);
        match outcome {
            Ok(loc) => {
                self.cache.insert(target.clone(), loc.clone(), now);
                Ok(loc)
            },
            Err(e) => Err(e),
        }
    }

    /// Removes the cache entries that have expired at `now` and returns their
    /// keys, each once; the running builds are untouched.
    pub fn evict_expired(&mut self, now: u64) -> (r: Vec<String>)
        ensures
            final(self)@.entries == swept(old(self)@.entries, now, old(self).ttl()),
            final(self)@.building == old(self)@.building,
            final(self).ttl() == old(self).ttl(),
            forall|i: int| 0 <= i < r@.len() ==> expired_keys(old(self)@.entries, now, old(self).ttl()).contains(#[trigger] r@[i]@),
            forall|k: Seq<char>| #[trigger]
                expired_keys(old(self)@.entries, now, old(self).ttl()).contains(k) ==> exists|i: int|
                    0 <= i < r@.len() && #[trigger] r@[i]@ == k,
            forall|i: int, j: int| 0 <= i < j < r@.len() ==> r@[i]@ != r@[j]@,
    {
        self.cache.evict_expired(now)
    }
}

/// The state after requests for `t` at each of `times`, in order.
pub open spec fn after_lookups(s: CoordinatorView, t: Seq<char>, times: Seq<u64>) -> CoordinatorView
    decreases times.len(),
{
    if times.len() == 0 {
        s
    } else {
        after_lookups(after_lookup(s, t, times[0]), t, times.drop_first())
    }
}

proof fn lemma_waiting_changes_nothing(s: CoordinatorView, t: Seq<char>, times: Seq<u64>)
    requires
        !s.entries.contains_key(t),
        s.building.contains(t),
    ensures
        after_lookups(s, t, times) == s,
    decreases times.len(),
{
    if times.len() > 0 {
        lemma_waiting_changes_nothing(s, t, times.drop_first());
    }
}

proof fn lemma_hits_stay_hits(s: CoordinatorView, t: Seq<char>, times: Seq<u64>)
    requires
        s.entries.contains_key(t),
    ensures
        after_lookups(s, t, times).entries.contains_key(t),
        after_lookups(s, t, times).entries[t].0 == s.entries[t].0,
    decreases times.len(),
{
    if times.len() > 0 {
        lemma_hits_stay_hits(after_lookup(s, t, times[0]), t, times.drop_first());
    }
}

/// Single flight: when `t` is neither cached nor being built, the first
/// request builds it; any number of requests that come while that build runs
/// all wait and change nothing, so no second build starts; once the build
/// succeeds with `loc`, every one of any number of requests is served `loc`.
pub proof fn lemma_single_flight(
    s: CoordinatorView,
    t: Seq<char>,
    loc: Seq<char>,
    now_claim: u64,
    waits: Seq<u64>,
    now_done: u64,
    reads: Seq<u64>,
)
    requires
        !s.entries.contains_key(t),
        !s.building.contains(t),
    ensures
        step_for(s, t) == StepView::Build,
        step_for(after_lookup(s, t, now_claim), t) == StepView::Wait,
        after_lookups(after_lookup(s, t, now_claim), t, waits) == after_lookup(s, t, now_claim),
        forall|n: int|
            0 <= n <= reads.len() ==> step_for(
                #[trigger] after_lookups(
                    after_finish(after_lookups(after_lookup(s, t, now_claim), t, waits), t, Ok(loc), now_done),
                    t,
                    reads.take(n),
                ),
                t,
            ) == StepView::Serve(loc),
{
    let s1 = after_lookup(s, t, now_claim);
    assert(s1.building.contains(t));
    lemma_waiting_changes_nothing(s1, t, waits);
    let s2 = after_finish(s1, t, Ok(loc), now_done);
    assert(s2.entries.contains_key(t) && s2.entries[t].0 == loc);
    assert forall|n: int| 0 <= n <= reads.len() implies step_for(
        #[trigger] after_lookups(s2, t, reads.take(n)),
        t,
    ) == StepView::Serve(loc) by {
        lemma_hits_stay_hits(s2, t, reads.take(n));
    }
}

/// A failed build releases its claim and caches nothing, so the next request
/// for the same target builds again instead of waiting or being served.
pub proof fn lemma_release_on_failure(s: CoordinatorView, t: Seq<char>, e: BuildError, now: u64)
    requires
        !s.entries.contains_key(t),
    ensures
        !after_finish(s, t, Err(e), now).building.contains(t),
        after_finish(s, t, Err(e), now).entries == s.entries,
        step_for(after_finish(s, t, Err(e), now), t) == StepView::Build,
{
}

} // verus!
