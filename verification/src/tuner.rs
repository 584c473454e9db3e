//! The autotuning engine: benchmark every candidate once per key and device,
//! remember the fastest, and dispatch to it from then on.

use vstd::prelude::*;
use crate::error::{CandidateFailure, TuneError};
use crate::tune_key::CubeAutotuneKey;

verus! {

/// Identity of a tuning scope: a compute client, one of its devices, and a
/// logical session. Decisions are never shared between scopes.
#[derive(Clone, Copy, Debug, PartialEq, Eq, Hash, Structural)]
pub struct CubeTuneId {
    pub client: u64,
    pub device: u64,
    pub session: u64,
}

/// What benchmarking one candidate gave.
#[derive(Clone, Copy, Debug, PartialEq, Eq, Hash, Structural)]
pub enum Outcome {
    /// The candidate ran; its measured time in nanoseconds.
    Measured(u64),
    /// The candidate declined or failed.
    Failed(CandidateFailure),
}

/// What the cache holds for a key on a device.
#[derive(Clone, Copy, Debug, PartialEq, Eq, Hash, Structural)]
pub enum Decision {
    /// The index, in registration order, of the fastest candidate.
    Winner(usize),
    /// Every candidate declined or failed.
    AllFailed,
}

/// Where a decision is stored: a tuning scope and a key.
pub type Slot = (CubeTuneId, CubeAutotuneKey);

/// Whether candidate `w` ran and no candidate beat it: every other candidate
/// that ran took longer, or as long and was registered later.
pub open spec fn is_fastest(outcomes: Seq<Outcome>, w: int) -> bool {
    &&& 0 <= w < outcomes.len()
    &&& outcomes[w] is Measured
    &&& forall|j: int|
        0 <= j < outcomes.len() && (#[trigger] outcomes[j]) is Measured ==> {
            ||| outcomes[w]->Measured_0 < outcomes[j]->Measured_0
            ||| (outcomes[w]->Measured_0 == outcomes[j]->Measured_0 && w <= j)
        }
}

/// Whether no candidate ran.
pub open spec fn all_failed(outcomes: Seq<Outcome>) -> bool {
    forall|j: int| 0 <= j < outcomes.len() ==> (#[trigger] outcomes[j]) is Failed
}

/// The decision after benchmarking: the candidate with the lowest measured
/// time, the first registered among equals; none when no candidate ran.
pub open spec fn fastest(outcomes: Seq<Outcome>) -> Decision {
    if exists|w: int| is_fastest(outcomes, w) {
        Decision::Winner((choose|w: int| is_fastest(outcomes, w)) as usize)
    } else {
        Decision::AllFailed
    }
}

/// At most one candidate is the fastest.
pub proof fn lemma_is_fastest_unique(outcomes: Seq<Outcome>, v: int, w: int)
    requires
        is_fastest(outcomes, v),
        is_fastest(outcomes, w),
    ensures
        v == w,
{
}

/// The candidate that no other beats is the decision.
pub proof fn lemma_fastest_is(outcomes: Seq<Outcome>, w: usize)
    requires
        is_fastest(outcomes, w as int),
    ensures
        fastest(outcomes) == Decision::Winner(w),
{
    let c = choose|c: int| is_fastest(outcomes, c);
    lemma_is_fastest_unique(outcomes, c, w as int);
}

/// Whenever some candidate ran, one of them is the fastest.
pub proof fn lemma_fastest_exists(outcomes: Seq<Outcome>, i: int)
    requires
        0 <= i < outcomes.len(),
        outcomes[i] is Measured,
    ensures
        exists|w: int| is_fastest(outcomes, w),
    decreases outcomes.len(),
{
    let init = outcomes.drop_last();
    let n = outcomes.len() - 1;
    assert forall|j: int| 0 <= j < init.len() implies init[j] == outcomes[j] by {}
    if exists|k: int| 0 <= k < n && outcomes[k] is Measured {
        let k = choose|k: int| 0 <= k < n && outcomes[k] is Measured;
        lemma_fastest_exists(init, k);
        let v = choose|v: int| is_fastest(init, v);
        assert(init[v] == outcomes[v]);
        if outcomes[n] is Measured && outcomes[n]->Measured_0 < outcomes[v]->Measured_0 {
            assert forall|j: int|
                0 <= j < outcomes.len() && (#[trigger] outcomes[j]) is Measured implies {
                ||| outcomes[n]->Measured_0 < outcomes[j]->Measured_0
                ||| (outcomes[n]->Measured_0 == outcomes[j]->Measured_0 && n <= j)
            } by {
                if j < n {
                    assert(init[j] is Measured);
                }
            }
            assert(is_fastest(outcomes, n));
        } else {
            assert forall|j: int|
                0 <= j < outcomes.len() && (#[trigger] outcomes[j]) is Measured implies {
                ||| outcomes[v]->Measured_0 < outcomes[j]->Measured_0
                ||| (outcomes[v]->Measured_0 == outcomes[j]->Measured_0 && v <= j)
            } by {
                if j < n {
                    assert(init[j] is Measured);
                }
            }
            assert(is_fastest(outcomes, v));
        }
    } else {
        assert(i == n);
        assert(is_fastest(outcomes, n));
    }
}

/// `fastest` names no winner exactly when no candidate ran.
pub proof fn lemma_fastest_none(outcomes: Seq<Outcome>)
    ensures
        fastest(outcomes) is AllFailed <==> all_failed(outcomes),
{
    if !all_failed(outcomes) {
        let i = choose|i: int| 0 <= i < outcomes.len() && !(outcomes[i] is Failed);
        lemma_fastest_exists(outcomes, i);
    }
}

/// A registry in which one candidate ran has a winner.
pub proof fn lemma_success_gives_winner(outcomes: Seq<Outcome>, i: int)
    requires
        0 <= i < outcomes.len(),
        outcomes[i] is Measured,
    ensures
        fastest(outcomes) is Winner,
{
    lemma_fastest_exists(outcomes, i);
}

/// A registry in which no candidate ran has no winner.
pub proof fn lemma_all_failed_gives_none(outcomes: Seq<Outcome>)
    requires
        all_failed(outcomes),
    ensures
        fastest(outcomes) == Decision::AllFailed,
{
}

/// Picks the fastest candidate from the outcomes of a benchmark, given in
/// registration order: the lowest measured time wins, and of two equal times
/// the one registered first.
pub fn select_fastest(outcomes: &Vec<Outcome>) -> (r: Decision)
    ensures
        r == fastest(outcomes@),
        match r {
            Decision::Winner(w) => is_fastest(outcomes@, w as int),
            Decision::AllFailed => all_failed(outcomes@),
        },
{
    let mut best: Decision = Decision::AllFailed;
    let mut best_time: u64 = 0;
    let mut i: usize = 0;
    while i < outcomes.len()
        invariant
            i <= outcomes.len(),
            match best {
                Decision::Winner(w) => is_fastest(outcomes@.take(i as int), w as int)
                    && outcomes@[w as int] == Outcome::Measured(best_time),
                Decision::AllFailed => all_failed(outcomes@.take(i as int)),
            },
        decreases outcomes.len() - i,
    {
        let ghost seen = outcomes@.take(i as int);
        let ghost next = outcomes@.take(i as int + 1);
        proof {
            assert forall|j: int| 0 <= j < i implies seen[j] == next[j] by {}
        }
        match outcomes[i] {
            Outcome::Measured(t) => {
                let better: bool = match best {
                    Decision::AllFailed => true,
                    Decision::Winner(_) => t < best_time,
                };
                if better {
                    proof {
                        assert forall|j: int|
                            0 <= j < next.len() && (#[trigger] next[j]) is Measured implies {
                            ||| next[i as int]->Measured_0 < next[j]->Measured_0
                            ||| (next[i as int]->Measured_0 == next[j]->Measured_0 && i <= j)
                        } by {
                            if j < i {
                                assert(seen[j] is Measured);
                            }
                        }
                    }
                    best = Decision::Winner(i);
                    best_time = t;
                } else {
                    proof {
                        let w = best->Winner_0 as int;
                        assert forall|j: int|
                            0 <= j < next.len() && (#[trigger] next[j]) is Measured implies {
                            ||| next[w]->Measured_0 < next[j]->Measured_0
                            ||| (next[w]->Measured_0 == next[j]->Measured_0 && w <= j)
                        } by {
                            if j < i {
                                assert(seen[j] is Measured);
                            }
                        }
                    }
                }
            },
            Outcome::Failed(_) => {
                proof {
                    match best {
                        Decision::Winner(w) => {
                            assert forall|j: int|
                                0 <= j < next.len() && (#[trigger] next[j]) is Measured implies {
                                ||| next[w as int]->Measured_0 < next[j]->Measured_0
                                ||| (next[w as int]->Measured_0 == next[j]->Measured_0 && w <= j)
                            } by {
                                assert(seen[j] is Measured);
                            }
                        },
                        Decision::AllFailed => {
                            assert forall|j: int| 0 <= j < next.len() implies (
                            #[trigger] next[j]) is Failed by {
                                if j < i {
                                    assert(seen[j] is Failed);
                                }
                            }
                        },
                    }
                }
            },
        }
        i = i + 1;
    }
    proof {
        assert(outcomes@.take(outcomes.len() as int) =~= outcomes@);
        match best {
            Decision::Winner(w) => {
                lemma_fastest_is(outcomes@, w);
            },
            Decision::AllFailed => {},
        }
    }
    best
}

/// The cache after an attempt to store `decision` in `slot`: the first
/// decision stored in a slot stays.
pub open spec fn recorded(cache: Map<Slot, Decision>, slot: Slot, decision: Decision) -> Map<
    Slot,
    Decision,
> {
    if cache.contains_key(slot) {
        cache
    } else {
        cache.insert(slot, decision)
    }
}

/// One stored decision.
#[derive(Clone, Copy, Debug)]
struct CacheEntry {
    id: CubeTuneId,
    key: CubeAutotuneKey,
    decision: Decision,
}

/// The map that a list of entries stands for; of two entries for one slot
/// the earlier counts.
spec fn entries_map(entries: Seq<CacheEntry>) -> Map<Slot, Decision>
    decreases entries.len(),
{
    if entries.len() == 0 {
        Map::empty()
    } else {
        entries_map(entries.skip(1)).insert((entries[0].id, entries[0].key), entries[0].decision)
    }
}

/// A slot that no entry names is not in the map.
proof fn lemma_entries_absent(entries: Seq<CacheEntry>, slot: Slot)
    requires
        forall|j: int| 0 <= j < entries.len() ==> (entries[j].id, entries[j].key) != slot,
    ensures
        !entries_map(entries).contains_key(slot),
    decreases entries.len(),
{
    if entries.len() > 0 {
        let rest = entries.skip(1);
        assert forall|j: int| 0 <= j < rest.len() implies (rest[j].id, rest[j].key) != slot by {
            assert(rest[j] == entries[j + 1]);
        }
        lemma_entries_absent(rest, slot);
    }
}

/// The first entry that names a slot gives the slot's decision.
proof fn lemma_entries_first(entries: Seq<CacheEntry>, slot: Slot, i: int)
    requires
        0 <= i < entries.len(),
        (entries[i].id, entries[i].key) == slot,
        forall|j: int| 0 <= j < i ==> (entries[j].id, entries[j].key) != slot,
    ensures
        entries_map(entries).contains_key(slot),
        entries_map(entries)[slot] == entries[i].decision,
    decreases entries.len(),
{
    if i > 0 {
        let rest = entries.skip(1);
        assert forall|j: int| 0 <= j < i - 1 implies (rest[j].id, rest[j].key) != slot by {
            assert(rest[j] == entries[j + 1]);
        }
        assert(rest[i - 1] == entries[i]);
        lemma_entries_first(rest, slot, i - 1);
    }
}

/// Appending an entry for a slot that no entry names inserts it.
proof fn lemma_entries_push(entries: Seq<CacheEntry>, e: CacheEntry)
    requires
        forall|j: int| 0 <= j < entries.len() ==> (entries[j].id, entries[j].key) != (e.id, e.key),
    ensures
        entries_map(entries.push(e)) == entries_map(entries).insert((e.id, e.key), e.decision),
    decreases entries.len(),
{
    let grown = entries.push(e);
    if entries.len() == 0 {
        assert(grown.skip(1) =~= Seq::<CacheEntry>::empty());
        assert(grown[0] == e);
        assert(entries_map(grown.skip(1)) == Map::<Slot, Decision>::empty());
    } else {
        let rest = entries.skip(1);
        assert forall|j: int| 0 <= j < rest.len() implies (rest[j].id, rest[j].key) != (
            e.id,
            e.key,
        ) by {
            assert(rest[j] == entries[j + 1]);
        }
        lemma_entries_push(rest, e);
        assert(grown.skip(1) =~= rest.push(e));
        assert(grown[0] == entries[0]);
        assert(entries_map(grown) =~= entries_map(entries).insert((e.id, e.key), e.decision));
    }
}

/// Every stored winner is a registered candidate.
proof fn lemma_entries_in_range(entries: Seq<CacheEntry>, candidates: usize, slot: Slot)
    requires
        forall|j: int|
            0 <= j < entries.len() ==> (#[trigger] entries[j].decision matches Decision::Winner(w)
                ==> w < candidates),
        entries_map(entries).contains_key(slot),
    ensures
        entries_map(entries)[slot] matches Decision::Winner(w) ==> w < candidates,
    decreases entries.len(),
{
    if entries.len() > 0 {
        if (entries[0].id, entries[0].key) != slot {
            let rest = entries.skip(1);
            assert forall|j: int| 0 <= j < rest.len() implies (
            #[trigger] rest[j].decision matches Decision::Winner(w) ==> w < candidates) by {
                assert(rest[j] == entries[j + 1]);
            }
            lemma_entries_in_range(rest, candidates, slot);
        }
    }
}

/// The result of a call that was dispatched to a candidate.
#[derive(Debug)]
pub struct Execution<T> {
    /// What the candidate returned.
    pub output: T,
    /// The index of the candidate that ran, in registration order.
    pub candidate: usize,
    /// Whether this call benchmarked the candidates first.
    pub benchmarked: bool,
}

/// Whether `outcomes` is what benchmarking the `candidates` on `synthetic`
/// with `bench` may give: one outcome per candidate, in registration order.
pub open spec fn benchmark_of<C, In, B: Fn(C, &In) -> Outcome>(
    outcomes: Seq<Outcome>,
    candidates: Seq<C>,
    synthetic: In,
    bench: B,
) -> bool {
    &&& outcomes.len() == candidates.len()
    &&& forall|i: int|
        0 <= i < candidates.len() ==> call_ensures(
            bench,
            (candidates[i], &synthetic),
            #[trigger] outcomes[i],
        )
}

/// Benchmarks every candidate in registration order on the same synthetic
/// operands and records what each gave.
pub fn benchmark<C: Copy, In, B: Fn(C, &In) -> Outcome>(
    candidates: &Vec<C>,
    synthetic: &In,
    bench: &B,
) -> (r: Vec<Outcome>)
    requires
        forall|i: int|
            0 <= i < candidates@.len() ==> call_requires(*bench, (#[trigger] candidates@[i], synthetic)),
    ensures
        benchmark_of(r@, candidates@, *synthetic, *bench),
{
    let mut outcomes: Vec<Outcome> = Vec::new();
    let mut i: usize = 0;
    while i < candidates.len()
        invariant
            i <= candidates@.len(),
            outcomes@.len() == i,
            forall|j: int|
                0 <= j < candidates@.len() ==> call_requires(
                    *bench,
                    (#[trigger] candidates@[j], synthetic),
                ),
            forall|j: int|
                0 <= j < i ==> call_ensures(
                    *bench,
                    (candidates@[j], synthetic),
                    #[trigger] outcomes@[j],
                ),
        decreases candidates.len() - i,
    {
        let outcome = bench(candidates[i], synthetic);
        outcomes.push(outcome);
        i = i + 1;
    }
    outcomes
}

/// What a call returns once the decision for its key is `decision`: with no
/// winner the call fails; with a winner it returns what that candidate made
/// of the real operands, or reports that candidate's failure.
pub open spec fn dispatched<C, T, R: FnOnce(C) -> Result<T, CandidateFailure>>(
    decision: Decision,
    benchmarked: bool,
    candidates: Seq<C>,
    run: R,
    r: Result<Execution<T>, TuneError>,
) -> bool {
    match decision {
        Decision::AllFailed => r matches Err(e) && e == TuneError::AllCandidatesFailed,
        Decision::Winner(w) => match r {
            Ok(e) => {
                &&& w < candidates.len()
                &&& e.candidate == w
                &&& e.benchmarked == benchmarked
                &&& call_ensures(run, (candidates[w as int],), Ok::<T, CandidateFailure>(e.output))
            },
            Err(TuneError::KernelFailed(f)) => w < candidates.len() && call_ensures(
                run,
                (candidates[w as int],),
                Err::<T, CandidateFailure>(f),
            ),
            Err(_) => false,
        },
    }
}

/// What a call does whose key the cache does not hold, given what planning
/// the synthetic operands gave. A failed plan fails the call and leaves the
/// cache alone. Otherwise the cache gains the decision of one benchmark of all
/// candidates on the planned operands, and the call is dispatched by it.
pub open spec fn benchmarked_with<C, In, T, B: Fn(C, &In) -> Outcome, R: FnOnce(C) -> Result<
    T,
    CandidateFailure,
>>(
    before: Map<Slot, Decision>,
    after: Map<Slot, Decision>,
    slot: Slot,
    candidates: Seq<C>,
    plan: Result<In, TuneError>,
    bench: B,
    run: R,
    r: Result<Execution<T>, TuneError>,
) -> bool {
    match plan {
        Err(e) => after == before && (r matches Err(x) && x == e),
        Ok(synthetic) => exists|outcomes: Seq<Outcome>|
            {
                &&& #[trigger] benchmark_of(outcomes, candidates, synthetic, bench)
                &&& after == before.insert(slot, fastest(outcomes))
                &&& dispatched(fastest(outcomes), true, candidates, run, r)
            },
    }
}

/// What one call of the engine does to the cache and returns. A key that is
/// cached leaves the cache as it is and is dispatched by the cached decision:
/// nothing is planned and nothing is benchmarked. Only a key that is not
/// cached has synthetic operands planned, as `planned` allows, and is
/// benchmarked on them.
pub open spec fn executed<C, In, T, B: Fn(C, &In) -> Outcome, R: FnOnce(C) -> Result<
    T,
    CandidateFailure,
>>(
    before: Map<Slot, Decision>,
    after: Map<Slot, Decision>,
    slot: Slot,
    candidates: Seq<C>,
    planned: spec_fn(Result<In, TuneError>) -> bool,
    bench: B,
    run: R,
    r: Result<Execution<T>, TuneError>,
) -> bool {
    if before.contains_key(slot) {
        after == before && dispatched(before[slot], false, candidates, run, r)
    } else {
        exists|plan: Result<In, TuneError>|
            planned(plan) && #[trigger] benchmarked_with(
                before,
                after,
                slot,
                candidates,
                plan,
                bench,
                run,
                r,
            )
    }
}

/// What one call of a tunable operation does, from the key that its
/// parameters have. Parameters without a key fail the call and leave the
/// cache alone; otherwise the engine runs for the key.
pub open spec fn tuned<C, In, T, B: Fn(C, &In) -> Outcome, R: FnOnce(C) -> Result<
    T,
    CandidateFailure,
>>(
    before: Map<Slot, Decision>,
    after: Map<Slot, Decision>,
    id: CubeTuneId,
    key: Result<CubeAutotuneKey, TuneError>,
    candidates: Seq<C>,
    planned: spec_fn(Result<In, TuneError>) -> bool,
    bench: B,
    run: R,
    r: Result<Execution<T>, TuneError>,
) -> bool {
    match key {
        Err(e) => after == before && (r matches Err(x) && x == e),
        Ok(k) => executed(before, after, (id, k), candidates, planned, bench, run, r),
    }
}

/// The plans that a planning function may give.
pub open spec fn plans_of<In, G: FnOnce() -> Result<In, TuneError>>(plan: G) -> spec_fn(
    Result<In, TuneError>,
) -> bool {
    |p: Result<In, TuneError>| call_ensures(plan, (), p)
}

/// A call that meets a plan predicate meets every weaker one.
pub proof fn lemma_executed_weakens<C, In, T, B, R>(
    before: Map<Slot, Decision>,
    after: Map<Slot, Decision>,
    slot: Slot,
    candidates: Seq<C>,
    planned: spec_fn(Result<In, TuneError>) -> bool,
    weaker: spec_fn(Result<In, TuneError>) -> bool,
    bench: B,
    run: R,
    r: Result<Execution<T>, TuneError>,
) where B: Fn(C, &In) -> Outcome, R: FnOnce(C) -> Result<T, CandidateFailure>
    requires
        executed(before, after, slot, candidates, planned, bench, run, r),
        forall|plan: Result<In, TuneError>| #[trigger] planned(plan) ==> weaker(plan),
    ensures
        executed(before, after, slot, candidates, weaker, bench, run, r),
{
    if !before.contains_key(slot) {
        let plan = choose|plan: Result<In, TuneError>|
            planned(plan) && #[trigger] benchmarked_with(
                before,
                after,
                slot,
                candidates,
                plan,
                bench,
                run,
                r,
            );
        assert(weaker(plan));
    }
}

/// Hands the call to the candidate that a decision names, or fails it where
/// the decision names none.
fn dispatch<C, T, R>(decision: Decision, benchmarked: bool, candidates: &Vec<C>, run: R) -> (r:
    Result<Execution<T>, TuneError>) where C: Copy, R: FnOnce(C) -> Result<T, CandidateFailure>
    requires
        decision matches Decision::Winner(w) ==> w < candidates@.len(),
        forall|i: int|
            0 <= i < candidates@.len() ==> call_requires(run, (#[trigger] candidates@[i],)),
    ensures
        dispatched(decision, benchmarked, candidates@, run, r),
{
    match decision {
        Decision::AllFailed => Err(TuneError::AllCandidatesFailed),
        Decision::Winner(candidate) => match run(candidates[candidate]) {
            Ok(output) => Ok(Execution { output, candidate, benchmarked }),
            Err(failure) => Err(TuneError::KernelFailed(failure)),
        },
    }
}

/// The autotune cache of one operation family: for each tuning scope and key
/// the decision that the first benchmark of that key in that scope gave.
/// Decisions are kept in the order they were taken and found by a linear
/// search: anchoring keeps the number of keys of a family small.
pub struct Tuner {
    candidates: usize,
    entries: Vec<CacheEntry>,
}

impl View for Tuner {
    type V = Map<Slot, Decision>;

    closed spec fn view(&self) -> Map<Slot, Decision> {
        entries_map(self.entries@)
    }
}

impl Tuner {
    /// The cache is well formed when every stored winner is a registered
    /// candidate.
    pub closed spec fn wf(&self) -> bool {
        forall|j: int|
            0 <= j < self.entries@.len() ==> (
            #[trigger] self.entries@[j].decision matches Decision::Winner(w) ==> w
                < self.candidates)
    }

    /// The number of registered candidates.
    pub closed spec fn registered(&self) -> nat {
        self.candidates as nat
    }

    /// An empty cache for an operation family with `candidates` registered
    /// candidates.
    pub fn new(candidates: usize) -> (t: Self)
        ensures
            t.wf(),
            t@ == Map::<Slot, Decision>::empty(),
            t.registered() == candidates,
    {
        Tuner { candidates, entries: Vec::new() }
    }

    /// The number of registered candidates.
    pub fn candidates(&self) -> (n: usize)
        ensures
            n == self.registered(),
    {
        self.candidates
    }

    /// The decision cached for `key` in scope `id`, if there is one. A cached
    /// winner is always a registered candidate.
    pub fn lookup(&self, id: &CubeTuneId, key: &CubeAutotuneKey) -> (r: Option<Decision>)
        requires
            self.wf(),
        ensures
            r == if self@.contains_key((*id, *key)) {
                Some(self@[(*id, *key)])
            } else {
                None::<Decision>
            },
            r matches Some(Decision::Winner(w)) ==> w < self.registered(),
    {
        let mut i: usize = 0;
        while i < self.entries.len()
            invariant
                self.wf(),
                i <= self.entries@.len(),
                forall|j: int|
                    0 <= j < i ==> (self.entries@[j].id, self.entries@[j].key) != (*id, *key),
            decreases self.entries.len() - i,
        {
            let entry = &self.entries[i];
            if entry.id == *id && entry.key == *key {
                proof {
                    lemma_entries_first(self.entries@, (*id, *key), i as int);
                    lemma_entries_in_range(self.entries@, self.candidates, (*id, *key));
                }
                return Some(entry.decision);
            }
            i = i + 1;
        }
        proof {
            lemma_entries_absent(self.entries@, (*id, *key));
        }
        None
    }

    /// Stores `decision` for `key` in scope `id` unless a decision is already
    /// there: the first write wins. Returns the decision that the cache now
    /// holds for the slot.
    pub fn record(&mut self, id: &CubeTuneId, key: &CubeAutotuneKey, decision: Decision) -> (r:
        Decision)
        requires
            old(self).wf(),
            decision matches Decision::Winner(w) ==> w < old(self).registered(),
        ensures
            final(self).wf(),
            final(self)@ == recorded(old(self)@, (*id, *key), decision),
            final(self)@.contains_key((*id, *key)),
            r == final(self)@[(*id, *key)],
            r matches Decision::Winner(w) ==> w < final(self).registered(),
            final(self).registered() == old(self).registered(),
    {
        match self.lookup(id, key) {
            Some(cached) => cached,
            None => {
                proof {
                    assert forall|j: int| 0 <= j < self.entries@.len() implies (
                        self.entries@[j].id,
                        self.entries@[j].key,
                    ) != (*id, *key) by {
                        if (self.entries@[j].id, self.entries@[j].key) == (*id, *key) {
                            lemma_entries_some(self.entries@, (*id, *key), j);
                        }
                    }
                    lemma_entries_push(
                        self.entries@,
                        CacheEntry { id: *id, key: *key, decision },
                    );
                }
                self.entries.push(CacheEntry { id: *id, key: *key, decision });
                decision
            },
        }
    }

    /// Runs one call of a tunable operation. A key that is cached in scope
    /// `id` is dispatched at once: `run` gets the cached winner and applies it
    /// to the real operands, or the call fails when the cache says that no
    /// candidate is usable. Only a key that is not cached has its synthetic
    /// operands planned by `plan`; every candidate is then benchmarked on
    /// them, in registration order, the fastest is cached, and the call is
    /// dispatched by that decision.
    pub fn execute<C, In, T, G, B, R>(
        &mut self,
        id: &CubeTuneId,
        key: &CubeAutotuneKey,
        candidates: &Vec<C>,
        plan: G,
        bench: &B,
        run: R,
    ) -> (r: Result<Execution<T>, TuneError>) where
        C: Copy,
        G: FnOnce() -> Result<In, TuneError>,
        B: Fn(C, &In) -> Outcome,
        R: FnOnce(C) -> Result<T, CandidateFailure>,

        requires
            old(self).wf(),
            candidates@.len() == old(self).registered(),
            call_requires(plan, ()),
            forall|i: int, synthetic: In|
                0 <= i < candidates@.len() && call_ensures(
                    plan,
                    (),
                    Ok::<In, TuneError>(synthetic),
                ) ==> #[trigger] call_requires(*bench, (candidates@[i], &synthetic)),
            forall|i: int|
                0 <= i < candidates@.len() ==> call_requires(run, (#[trigger] candidates@[i],)),
        ensures
            final(self).wf(),
            final(self).registered() == old(self).registered(),
            executed(
                old(self)@,
                final(self)@,
                (*id, *key),
                candidates@,
                plans_of(plan),
                *bench,
                run,
                r,
            ),
    {
        let ghost before = self@;
        match self.lookup(id, key) {
            Some(cached) => dispatch(cached, false, candidates, run),
            None => {
                let planned = plan();
                let ghost given = planned;
                assert(plans_of(plan)(given));
                match planned {
                    Err(e) => {
                        let r = Err(e);
                        assert(benchmarked_with(
                            before,
                            self@,
                            (*id, *key),
                            candidates@,
                            given,
                            *bench,
                            run,
                            r,
                        ));
                        r
                    },
                    Ok(synthetic) => {
                        let outcomes = benchmark(candidates, &synthetic, bench);
                        let chosen = select_fastest(&outcomes);
                        let decision = self.record(id, key, chosen);
                        let r = dispatch(decision, true, candidates, run);
                        assert(benchmarked_with(
                            before,
                            self@,
                            (*id, *key),
                            candidates@,
                            given,
                            *bench,
                            run,
                            r,
                        )) by {
                            assert(benchmark_of(outcomes@, candidates@, synthetic, *bench));
                        }
                        r
                    },
                }
            },
        }
    }
}

/// A slot that some entry names is in the map.
proof fn lemma_entries_some(entries: Seq<CacheEntry>, slot: Slot, i: int)
    requires
        0 <= i < entries.len(),
        (entries[i].id, entries[i].key) == slot,
    ensures
        entries_map(entries).contains_key(slot),
    decreases entries.len(),
{
    if i > 0 {
        let rest = entries.skip(1);
        assert(rest[i - 1] == entries[i]);
        lemma_entries_some(rest, slot, i - 1);
    }
}

/// The winner of a benchmark is a candidate that ran.
pub proof fn lemma_winner_ran(outcomes: Seq<Outcome>, w: usize)
    requires
        outcomes.len() <= usize::MAX,
        fastest(outcomes) == Decision::Winner(w),
    ensures
        w < outcomes.len(),
        outcomes[w as int] is Measured,
{
    let c = choose|c: int| is_fastest(outcomes, c);
    assert(is_fastest(outcomes, c));
}

/// A call whose plans never fail, and any call that returns a result, leaves
/// a decision for its key in the cache.
pub proof fn lemma_call_caches<C, In, T, B, R>(
    before: Map<Slot, Decision>,
    after: Map<Slot, Decision>,
    slot: Slot,
    candidates: Seq<C>,
    planned: spec_fn(Result<In, TuneError>) -> bool,
    bench: B,
    run: R,
    r: Result<Execution<T>, TuneError>,
) where B: Fn(C, &In) -> Outcome, R: FnOnce(C) -> Result<T, CandidateFailure>
    requires
        executed(before, after, slot, candidates, planned, bench, run, r),
        r is Ok || forall|p: Result<In, TuneError>| #[trigger] planned(p) ==> p is Ok,
    ensures
        after.contains_key(slot),
{
}

/// Cache convergence: once a call has cached a decision for a key, the next
/// call for that key in that scope leaves the cache as it is, plans and
/// benchmarks nothing, and is dispatched by the same decision: to the same
/// candidate, or to the same failure.
pub proof fn lemma_second_call_reuses<C, In, T, B1, R1, B2, R2>(
    c0: Map<Slot, Decision>,
    c1: Map<Slot, Decision>,
    c2: Map<Slot, Decision>,
    slot: Slot,
    candidates: Seq<C>,
    first: (spec_fn(Result<In, TuneError>) -> bool, B1, R1, Result<Execution<T>, TuneError>),
    second: (spec_fn(Result<In, TuneError>) -> bool, B2, R2, Result<Execution<T>, TuneError>),
) where
    B1: Fn(C, &In) -> Outcome,
    R1: FnOnce(C) -> Result<T, CandidateFailure>,
    B2: Fn(C, &In) -> Outcome,
    R2: FnOnce(C) -> Result<T, CandidateFailure>,

    requires
        executed(c0, c1, slot, candidates, first.0, first.1, first.2, first.3),
        executed(c1, c2, slot, candidates, second.0, second.1, second.2, second.3),
        c1.contains_key(slot),
    ensures
        c2 == c1,
        second.3 matches Ok(e2) ==> !e2.benchmarked && c1[slot] == Decision::Winner(e2.candidate),
        first.3 matches Ok(e1) ==> c1[slot] == Decision::Winner(e1.candidate),
        c1[slot] == Decision::AllFailed <==> (second.3 matches Err(e) && e
            == TuneError::AllCandidatesFailed),
{
}

/// Whether `later` holds every decision of `earlier` unchanged.
pub open spec fn extends(later: Map<Slot, Decision>, earlier: Map<Slot, Decision>) -> bool {
    forall|slot: Slot| #[trigger]
        earlier.contains_key(slot) ==> later.contains_key(slot) && later[slot] == earlier[slot]
}

/// A cached decision is final: no call, for whatever key and scope, changes
/// or removes a decision that the cache holds.
pub proof fn lemma_decision_is_final<C, In, T, B, R>(
    before: Map<Slot, Decision>,
    after: Map<Slot, Decision>,
    called: Slot,
    candidates: Seq<C>,
    planned: spec_fn(Result<In, TuneError>) -> bool,
    bench: B,
    run: R,
    r: Result<Execution<T>, TuneError>,
) where B: Fn(C, &In) -> Outcome, R: FnOnce(C) -> Result<T, CandidateFailure>
    requires
        executed(before, after, called, candidates, planned, bench, run, r),
    ensures
        extends(after, before),
{
}

/// Caches that come one after the other in a history of calls extend their
/// predecessors.
pub proof fn lemma_extends_transitive(
    first: Map<Slot, Decision>,
    second: Map<Slot, Decision>,
    third: Map<Slot, Decision>,
)
    requires
        extends(second, first),
        extends(third, second),
    ensures
        extends(third, first),
{
    assert forall|slot: Slot| #[trigger] first.contains_key(slot) implies third.contains_key(slot)
        && third[slot] == first[slot] by {
        assert(second.contains_key(slot));
    }
}

/// Each key is benchmarked at most once per scope: in any cache that extends
/// one which holds the key, a call for that key does not benchmark, leaves
/// the cache as it is, and is dispatched by the decision taken then.
pub proof fn lemma_benchmarked_at_most_once<C, In, T, B, R>(
    earlier: Map<Slot, Decision>,
    before: Map<Slot, Decision>,
    after: Map<Slot, Decision>,
    slot: Slot,
    candidates: Seq<C>,
    planned: spec_fn(Result<In, TuneError>) -> bool,
    bench: B,
    run: R,
    r: Result<Execution<T>, TuneError>,
) where B: Fn(C, &In) -> Outcome, R: FnOnce(C) -> Result<T, CandidateFailure>
    requires
        earlier.contains_key(slot),
        extends(before, earlier),
        executed(before, after, slot, candidates, planned, bench, run, r),
    ensures
        after == before,
        after[slot] == earlier[slot],
        r matches Ok(e) ==> !e.benchmarked && earlier[slot] == Decision::Winner(e.candidate),
        earlier[slot] == Decision::AllFailed ==> (r matches Err(e) && e
            == TuneError::AllCandidatesFailed),
{
}

/// Scopes are isolated: a call in one scope neither adds nor changes a
/// decision of any other slot.
pub proof fn lemma_other_slots_untouched<C, In, T, B, R>(
    before: Map<Slot, Decision>,
    after: Map<Slot, Decision>,
    called: Slot,
    candidates: Seq<C>,
    planned: spec_fn(Result<In, TuneError>) -> bool,
    bench: B,
    run: R,
    r: Result<Execution<T>, TuneError>,
    slot: Slot,
) where B: Fn(C, &In) -> Outcome, R: FnOnce(C) -> Result<T, CandidateFailure>
    requires
        executed(before, after, called, candidates, planned, bench, run, r),
        slot != called,
    ensures
        after.contains_key(slot) == before.contains_key(slot),
        before.contains_key(slot) ==> after[slot] == before[slot],
{
}

/// The first write wins: once a decision is stored for a slot, storing
/// another one there changes nothing, so racing writers converge on a single
/// winner.
pub proof fn lemma_first_write_wins(
    cache: Map<Slot, Decision>,
    slot: Slot,
    first: Decision,
    second: Decision,
)
    ensures
        recorded(recorded(cache, slot, first), slot, second) == recorded(cache, slot, first),
        recorded(cache, slot, first).contains_key(slot),
        !cache.contains_key(slot) ==> recorded(cache, slot, first)[slot] == first,
{
}

/// If one candidate always runs on the planned operands, a call never fails
/// for want of candidates, whether or not the key is cached, as long as the
/// cache does not already hold a failure for the key. What the cache holds
/// for the key afterwards is again a winner, so the same is true of every
/// later call: a cache that started empty never reports
/// `AllCandidatesFailed` for such a key.
pub proof fn lemma_usable_candidate_wins<C, In, T, B, R>(
    before: Map<Slot, Decision>,
    after: Map<Slot, Decision>,
    slot: Slot,
    candidates: Seq<C>,
    planned: spec_fn(Result<In, TuneError>) -> bool,
    bench: B,
    run: R,
    r: Result<Execution<T>, TuneError>,
    i: int,
) where B: Fn(C, &In) -> Outcome, R: FnOnce(C) -> Result<T, CandidateFailure>
    requires
        executed(before, after, slot, candidates, planned, bench, run, r),
        before.contains_key(slot) ==> before[slot] is Winner,
        0 <= i < candidates.len(),
        forall|synthetic: In, o: Outcome|
            planned(Ok(synthetic)) && #[trigger] call_ensures(
                bench,
                (candidates[i], &synthetic),
                o,
            ) ==> o is Measured,
        forall|p: Result<In, TuneError>|
            #[trigger] planned(p) ==> !(p matches Err(e) && e == TuneError::AllCandidatesFailed),
    ensures
        !(r matches Err(e) && e == TuneError::AllCandidatesFailed),
        after.contains_key(slot) ==> after[slot] is Winner,
{
    if !before.contains_key(slot) {
        let plan = choose|plan: Result<In, TuneError>|
            planned(plan) && #[trigger] benchmarked_with(
                before,
                after,
                slot,
                candidates,
                plan,
                bench,
                run,
                r,
            );
        if let Ok(synthetic) = plan {
            let outcomes = choose|outcomes: Seq<Outcome>|
                {
                    &&& #[trigger] benchmark_of(outcomes, candidates, synthetic, bench)
                    &&& after == before.insert(slot, fastest(outcomes))
                    &&& dispatched(fastest(outcomes), true, candidates, run, r)
                };
            assert(outcomes[i] is Measured);
            lemma_success_gives_winner(outcomes, i);
        }
    }
}

/// If every candidate declines or fails on the planned operands, a call
/// fails with `AllCandidatesFailed`, whether or not the key is cached, as
/// long as the cache does not already hold a winner for the key. What the
/// cache holds for the key afterwards is that failure, never a winner, so
/// the same is true of every later call.
pub proof fn lemma_all_declined_fails<C, In, T, B, R>(
    before: Map<Slot, Decision>,
    after: Map<Slot, Decision>,
    slot: Slot,
    candidates: Seq<C>,
    planned: spec_fn(Result<In, TuneError>) -> bool,
    bench: B,
    run: R,
    r: Result<Execution<T>, TuneError>,
) where B: Fn(C, &In) -> Outcome, R: FnOnce(C) -> Result<T, CandidateFailure>
    requires
        executed(before, after, slot, candidates, planned, bench, run, r),
        before.contains_key(slot) ==> before[slot] == Decision::AllFailed,
        forall|p: Result<In, TuneError>| #[trigger] planned(p) ==> p is Ok,
        forall|j: int, synthetic: In, o: Outcome|
            0 <= j < candidates.len() && planned(Ok(synthetic)) && #[trigger] call_ensures(
                bench,
                (candidates[j], &synthetic),
                o,
            ) ==> o is Failed,
    ensures
        r matches Err(e) && e == TuneError::AllCandidatesFailed,
        after.contains_key(slot),
        after[slot] == Decision::AllFailed,
        extends(after, before),
{
    if !before.contains_key(slot) {
        let plan = choose|plan: Result<In, TuneError>|
            planned(plan) && #[trigger] benchmarked_with(
                before,
                after,
                slot,
                candidates,
                plan,
                bench,
                run,
                r,
            );
        let synthetic = plan->Ok_0;
        let outcomes = choose|outcomes: Seq<Outcome>|
            {
                &&& #[trigger] benchmark_of(outcomes, candidates, synthetic, bench)
                &&& after == before.insert(slot, fastest(outcomes))
                &&& dispatched(fastest(outcomes), true, candidates, run, r)
            };
        assert forall|j: int| 0 <= j < outcomes.len() implies (
        #[trigger] outcomes[j]) is Failed by {
            assert(call_ensures(bench, (candidates[j], &synthetic), outcomes[j]));
        }
        lemma_all_failed_gives_none(outcomes);
    }
}

/// A candidate that always declines or fails on the planned operands is
/// never chosen: unless the cache already names it, no call caches it as the
/// winner or dispatches to it.
pub proof fn lemma_failing_candidate_never_wins<C, In, T, B, R>(
    before: Map<Slot, Decision>,
    after: Map<Slot, Decision>,
    slot: Slot,
    candidates: Seq<C>,
    planned: spec_fn(Result<In, TuneError>) -> bool,
    bench: B,
    run: R,
    r: Result<Execution<T>, TuneError>,
    i: usize,
) where B: Fn(C, &In) -> Outcome, R: FnOnce(C) -> Result<T, CandidateFailure>
    requires
        executed(before, after, slot, candidates, planned, bench, run, r),
        candidates.len() <= usize::MAX,
        i < candidates.len(),
        !(before.contains_key(slot) && before[slot] == Decision::Winner(i)),
        forall|synthetic: In, o: Outcome|
            planned(Ok(synthetic)) && #[trigger] call_ensures(
                bench,
                (candidates[i as int], &synthetic),
                o,
            ) ==> o is Failed,
    ensures
        !(after.contains_key(slot) && after[slot] == Decision::Winner(i)),
        r matches Ok(e) ==> e.candidate != i,
{
    if !before.contains_key(slot) {
        let plan = choose|plan: Result<In, TuneError>|
            planned(plan) && #[trigger] benchmarked_with(
                before,
                after,
                slot,
                candidates,
                plan,
                bench,
                run,
                r,
            );
        if let Ok(synthetic) = plan {
            let outcomes = choose|outcomes: Seq<Outcome>|
                {
                    &&& #[trigger] benchmark_of(outcomes, candidates, synthetic, bench)
                    &&& after == before.insert(slot, fastest(outcomes))
                    &&& dispatched(fastest(outcomes), true, candidates, run, r)
                };
            if fastest(outcomes) == Decision::Winner(i) {
                lemma_winner_ran(outcomes, i);
                assert(call_ensures(bench, (candidates[i as int], &synthetic), outcomes[i as int]));
            }
        }
    }
}

/// Parameters without a key fail the call at once and leave the cache as it
/// was.
pub proof fn lemma_invalid_parameters_fail_fast<C, In, T, B, R>(
    before: Map<Slot, Decision>,
    after: Map<Slot, Decision>,
    id: CubeTuneId,
    candidates: Seq<C>,
    planned: spec_fn(Result<In, TuneError>) -> bool,
    bench: B,
    run: R,
    r: Result<Execution<T>, TuneError>,
) where B: Fn(C, &In) -> Outcome, R: FnOnce(C) -> Result<T, CandidateFailure>
    requires
        tuned(
            before,
            after,
            id,
            Err(TuneError::InvalidKeyParameters),
            candidates,
            planned,
            bench,
            run,
            r,
        ),
    ensures
        after == before,
        r matches Err(e) && e == TuneError::InvalidKeyParameters,
{
}

/// One call in a history of calls on one cache: the slot it was made for, the
/// plans it could get, its two closures, and what it returned.
#[verifier::reject_recursive_types(In)]
pub struct Call<In, T, B, R> {
    pub slot: Slot,
    pub planned: spec_fn(Result<In, TuneError>) -> bool,
    pub bench: B,
    pub run: R,
    pub result: Result<Execution<T>, TuneError>,
}

/// Whether call `i` of a history took the cache from its state `i` to its
/// state `i + 1`.
pub open spec fn is_step<C, In, T, B: Fn(C, &In) -> Outcome, R: FnOnce(C) -> Result<
    T,
    CandidateFailure,
>>(
    caches: Seq<Map<Slot, Decision>>,
    calls: Seq<Call<In, T, B, R>>,
    candidates: Seq<C>,
    i: int,
) -> bool {
    executed(
        caches[i],
        caches[i + 1],
        calls[i].slot,
        candidates,
        calls[i].planned,
        calls[i].bench,
        calls[i].run,
        calls[i].result,
    )
}

/// Whether `calls` is a history of sequential calls on a cache that started
/// empty, and `caches` the states that the cache went through.
pub open spec fn is_history<C, In, T, B: Fn(C, &In) -> Outcome, R: FnOnce(C) -> Result<
    T,
    CandidateFailure,
>>(caches: Seq<Map<Slot, Decision>>, calls: Seq<Call<In, T, B, R>>, candidates: Seq<C>) -> bool {
    &&& caches.len() == calls.len() + 1
    &&& caches[0] == Map::<Slot, Decision>::empty()
    &&& forall|i: int| 0 <= i < calls.len() ==> #[trigger] is_step(caches, calls, candidates, i)
}

/// Whether candidate `c` runs whenever call `i` benchmarks it on planned
/// operands.
pub open spec fn always_runs<C, In, T, B: Fn(C, &In) -> Outcome, R>(
    call: Call<In, T, B, R>,
    c: C,
) -> bool {
    forall|synthetic: In, o: Outcome|
        (call.planned)(Ok(synthetic)) && #[trigger] call_ensures(call.bench, (c, &synthetic), o)
            ==> o is Measured
}

/// Whether candidate `c` declines or fails whenever call `i` benchmarks it on
/// planned operands.
pub open spec fn always_fails<C, In, T, B: Fn(C, &In) -> Outcome, R>(
    call: Call<In, T, B, R>,
    c: C,
) -> bool {
    forall|synthetic: In, o: Outcome|
        (call.planned)(Ok(synthetic)) && #[trigger] call_ensures(call.bench, (c, &synthetic), o)
            ==> o is Failed
}

/// Whether planning never fails in a call.
pub open spec fn always_plans<In, T, B, R>(call: Call<In, T, B, R>) -> bool {
    forall|p: Result<In, TuneError>| #[trigger] (call.planned)(p) ==> p is Ok
}

/// In every history, a key for which one candidate always runs never fails
/// for want of candidates: no call for it returns `AllCandidatesFailed`, be
/// it the call that benchmarks or a later one.
pub proof fn lemma_history_usable_candidate<C, In, T, B, R>(
    caches: Seq<Map<Slot, Decision>>,
    calls: Seq<Call<In, T, B, R>>,
    candidates: Seq<C>,
    slot: Slot,
    c: int,
    n: int,
) where B: Fn(C, &In) -> Outcome, R: FnOnce(C) -> Result<T, CandidateFailure>
    requires
        is_history(caches, calls, candidates),
        0 <= c < candidates.len(),
        0 <= n <= calls.len(),
        forall|i: int|
            0 <= i < calls.len() && (#[trigger] calls[i]).slot == slot ==> always_runs(
                calls[i],
                candidates[c],
            ) && always_plans(calls[i]),
    ensures
        caches[n].contains_key(slot) ==> caches[n][slot] is Winner,
        forall|i: int|
            0 <= i < n && (#[trigger] calls[i]).slot == slot ==> !(calls[i].result matches Err(e)
                && e == TuneError::AllCandidatesFailed),
    decreases n,
{
    if n > 0 {
        lemma_history_usable_candidate(caches, calls, candidates, slot, c, n - 1);
        let last = n - 1;
        assert(is_step(caches, calls, candidates, last));
        if calls[last].slot == slot {
            assert(always_runs(calls[last], candidates[c]));
            assert(always_plans(calls[last]));
            lemma_usable_candidate_wins(
                caches[last],
                caches[last + 1],
                slot,
                candidates,
                calls[last].planned,
                calls[last].bench,
                calls[last].run,
                calls[last].result,
                c,
            );
        } else {
            lemma_other_slots_untouched(
                caches[last],
                caches[last + 1],
                calls[last].slot,
                candidates,
                calls[last].planned,
                calls[last].bench,
                calls[last].run,
                calls[last].result,
                slot,
            );
        }
    }
}

/// In every history, a key for which every candidate always declines or
/// fails is never served: every call for it returns `AllCandidatesFailed`,
/// be it the call that benchmarks or a later one, and the cache never holds a
/// winner for it.
pub proof fn lemma_history_all_failing<C, In, T, B, R>(
    caches: Seq<Map<Slot, Decision>>,
    calls: Seq<Call<In, T, B, R>>,
    candidates: Seq<C>,
    slot: Slot,
    n: int,
) where B: Fn(C, &In) -> Outcome, R: FnOnce(C) -> Result<T, CandidateFailure>
    requires
        is_history(caches, calls, candidates),
        0 <= n <= calls.len(),
        forall|i: int, c: int|
            0 <= i < calls.len() && (#[trigger] calls[i]).slot == slot && 0 <= c < candidates.len()
                ==> always_fails(calls[i], #[trigger] candidates[c]),
        forall|i: int|
            0 <= i < calls.len() && (#[trigger] calls[i]).slot == slot ==> always_plans(calls[i]),
    ensures
        caches[n].contains_key(slot) ==> caches[n][slot] == Decision::AllFailed,
        forall|i: int|
            0 <= i < n && (#[trigger] calls[i]).slot == slot ==> (calls[i].result matches Err(e)
                && e == TuneError::AllCandidatesFailed),
    decreases n,
{
    if n > 0 {
        lemma_history_all_failing(caches, calls, candidates, slot, n - 1);
        let last = n - 1;
        assert(is_step(caches, calls, candidates, last));
        if calls[last].slot == slot {
            assert(always_plans(calls[last]));
            assert forall|j: int, synthetic: In, o: Outcome|
                0 <= j < candidates.len() && (calls[last].planned)(Ok(synthetic))
                    && #[trigger] call_ensures(
                    calls[last].bench,
                    (candidates[j], &synthetic),
                    o,
                ) implies o is Failed by {
                assert(always_fails(calls[last], candidates[j]));
            }
            lemma_all_declined_fails(
                caches[last],
                caches[last + 1],
                slot,
                candidates,
                calls[last].planned,
                calls[last].bench,
                calls[last].run,
                calls[last].result,
            );
        } else {
            lemma_other_slots_untouched(
                caches[last],
                caches[last + 1],
                calls[last].slot,
                candidates,
                calls[last].planned,
                calls[last].bench,
                calls[last].run,
                calls[last].result,
                slot,
            );
        }
    }
}

/// In every history, each key is benchmarked at most once per scope, and
/// every call for it is dispatched by the decision of that one benchmark: of
/// two calls for one key that return a result, the later one did not
/// benchmark and ran the same candidate as the earlier one.
pub proof fn lemma_history_benchmarks_once<C, In, T, B, R>(
    caches: Seq<Map<Slot, Decision>>,
    calls: Seq<Call<In, T, B, R>>,
    candidates: Seq<C>,
    i: int,
    j: int,
) where B: Fn(C, &In) -> Outcome, R: FnOnce(C) -> Result<T, CandidateFailure>
    requires
        is_history(caches, calls, candidates),
        0 <= i < j < calls.len(),
        calls[i].slot == calls[j].slot,
        caches[i + 1].contains_key(calls[i].slot),
    ensures
        caches[j].contains_key(calls[i].slot),
        caches[j][calls[i].slot] == caches[i + 1][calls[i].slot],
        caches[j + 1] == caches[j],
        calls[j].result matches Ok(later) ==> !later.benchmarked,
        calls[i].result is Ok && calls[j].result is Ok ==> calls[i].result->Ok_0.candidate
            == calls[j].result->Ok_0.candidate,
        (calls[i].result matches Err(e) && e == TuneError::AllCandidatesFailed) ==> (
        calls[j].result matches Err(e) && e == TuneError::AllCandidatesFailed),
    decreases j - i,
{
    let slot = calls[i].slot;
    assert(is_step(caches, calls, candidates, i));
    assert(is_step(caches, calls, candidates, j));
    if j > i + 1 {
        lemma_history_keeps_decisions(caches, calls, candidates, i, j);
    }
}

/// In every history a decision, once cached, is in every later state of the
/// cache.
pub proof fn lemma_history_keeps_decisions<C, In, T, B, R>(
    caches: Seq<Map<Slot, Decision>>,
    calls: Seq<Call<In, T, B, R>>,
    candidates: Seq<C>,
    i: int,
    j: int,
) where B: Fn(C, &In) -> Outcome, R: FnOnce(C) -> Result<T, CandidateFailure>
    requires
        is_history(caches, calls, candidates),
        0 <= i < j <= calls.len(),
        caches[i + 1].contains_key(calls[i].slot),
    ensures
        caches[j].contains_key(calls[i].slot),
        caches[j][calls[i].slot] == caches[i + 1][calls[i].slot],
    decreases j - i,
{
    if j > i + 1 {
        lemma_history_keeps_decisions(caches, calls, candidates, i, j - 1);
        assert(is_step(caches, calls, candidates, j - 1));
    }
}

} // verus!
