//! A model of a whole probing run: any number of workers sharing one probe,
//! interleaved in any order. Each step of a worker is one call of
//! [`crate::probe::AxisProbe::claim`] or [`crate::probe::AxisProbe::report`],
//! as their contracts describe it.

use vstd::prelude::*;
use crate::probe::{ProbeOutcome, LimitResult, ProbeState, initial_state, claimed, recorded, limit_of, count_of};

verus! {

/// What one worker of a run is doing.
pub enum WorkerState {
    /// About to claim an index.
    Ready,
    /// Checking the address of the index it claimed.
    Checking(nat),
    /// Done.
    Stopped,
}

/// The shared probe state and one entry per worker.
pub struct RunState<E> {
    pub probe: ProbeState<E>,
    pub workers: Seq<WorkerState>,
}

/// A run of `n` workers that have not started yet.
pub open spec fn run_start<E>(n: nat) -> RunState<E> {
    RunState { probe: initial_state(), workers: Seq::new(n, |i: int| WorkerState::Ready) }
}

/// One move of worker `w`. A ready worker claims an index, or stops when the
/// counter is exhausted. A checking worker reports what `oracle` answers for
/// its index and goes on only if the address exists.
pub open spec fn run_step<E>(s: RunState<E>, w: int, oracle: spec_fn(nat) -> ProbeOutcome<E>) -> RunState<E> {
    if 0 <= w < s.workers.len() {
        match s.workers[w] {
            WorkerState::Ready => if s.probe.next < usize::MAX {
                RunState {
                    probe: claimed(s.probe),
                    workers: s.workers.update(w, WorkerState::Checking(s.probe.next)),
                }
            } else {
                RunState { workers: s.workers.update(w, WorkerState::Stopped), ..s }
            },
            WorkerState::Checking(v) => RunState {
                probe: ProbeState { result: recorded(s.probe.result, v, oracle(v)), ..s.probe },
                workers: s.workers.update(
                    w,
                    if oracle(v) is Found { WorkerState::Ready } else { WorkerState::Stopped },
                ),
            },
            WorkerState::Stopped => s,
        }
    } else {
        s
    }
}

/// The state after the workers named by `schedule` moved, in that order.
pub open spec fn run_schedule<E>(s: RunState<E>, schedule: Seq<int>, oracle: spec_fn(nat) -> ProbeOutcome<E>) -> RunState<E>
    decreases schedule.len(),
{
    if schedule.len() == 0 {
        s
    } else {
        run_schedule(run_step(s, schedule[0], oracle), schedule.drop_first(), oracle)
    }
}

/// Every worker has stopped.
pub open spec fn all_stopped<E>(s: RunState<E>) -> bool {
    forall|w: int| 0 <= w < s.workers.len() ==> #[trigger] s.workers[w] is Stopped
}

/// An endpoint where the addresses of 1 to `k` exist and all later ones are
/// proven absent.
pub open spec fn extent_oracle<E>(k: nat) -> spec_fn(nat) -> ProbeOutcome<E> {
    |v: nat| if 1 <= v <= k { ProbeOutcome::Found } else { ProbeOutcome::Boundary }
}

/// As [`extent_oracle`], but the check of `k + 1` fails with `e`.
pub open spec fn fault_oracle<E>(k: nat, e: E) -> spec_fn(nat) -> ProbeOutcome<E> {
    |v: nat|
        if 1 <= v <= k {
            ProbeOutcome::Found
        } else if v == k + 1 {
            ProbeOutcome::Failed(e)
        } else {
            ProbeOutcome::Boundary
        }
}

spec fn checking<E>(s: RunState<E>, v: nat) -> bool {
    exists|w: int| 0 <= w < s.workers.len() && s.workers[w] == WorkerState::Checking(v)
}

spec fn some_stopped<E>(s: RunState<E>) -> bool {
    exists|w: int| 0 <= w < s.workers.len() && #[trigger] s.workers[w] is Stopped
}

spec fn counter_inv<E>(s: RunState<E>, n: nat, k: nat) -> bool {
    &&& s.workers.len() == n
    &&& 1 <= s.probe.next <= usize::MAX
    &&& forall|w: int| 0 <= w < s.workers.len() && #[trigger] s.workers[w] is Checking
        ==> 1 <= s.workers[w]->Checking_0 < s.probe.next
    &&& some_stopped(s) ==> (k + 1 < s.probe.next || s.probe.next == usize::MAX)
}

spec fn extent_inv<E>(s: RunState<E>, n: nat, k: nat) -> bool {
    &&& counter_inv(s, n, k)
    &&& s.probe.result is Bound
    &&& k + 1 <= s.probe.result->Bound_0
    &&& (k + 1 < s.probe.next && !checking(s, k + 1))
        ==> s.probe.result == LimitResult::<E>::Bound((k + 1) as usize)
}

spec fn fault_inv<E>(s: RunState<E>, n: nat, k: nat, e: E) -> bool {
    &&& counter_inv(s, n, k)
    &&& s.probe.result is Bound ==> k + 2 <= s.probe.result->Bound_0
    &&& s.probe.result is Failure ==> s.probe.result == LimitResult::Failure(e)
    &&& (k + 1 < s.probe.next && !checking(s, k + 1)) ==> s.probe.result == LimitResult::Failure(e)
}

proof fn lemma_counter_step<E>(s: RunState<E>, w: int, n: nat, k: nat, oracle: spec_fn(nat) -> ProbeOutcome<E>)
    requires
        k < usize::MAX,
        counter_inv(s, n, k),
        forall|v: nat| #![trigger oracle(v)] 1 <= v ==> ((oracle(v) is Found) <==> v <= k),
    ensures
        counter_inv(run_step(s, w, oracle), n, k),
{
    let t = run_step(s, w, oracle);
    if some_stopped(t) {
        let u = choose|u: int| 0 <= u < t.workers.len() && #[trigger] t.workers[u] is Stopped;
        if u != w {
            assert(s.workers[u] is Stopped);
        } else if s.workers[w] is Checking {
            let v = s.workers[w]->Checking_0;
            assert(1 <= v);
        }
    }
}

/// A move of worker `w` that was not checking `v` leaves every other
/// worker checking `v` as it was; a ready worker goes on to check the index
/// it claimed.
proof fn lemma_step_keeps_checking<E>(s: RunState<E>, w: int, v: nat, oracle: spec_fn(nat) -> ProbeOutcome<E>)
    requires
        0 <= w < s.workers.len(),
        s.workers[w] != WorkerState::Checking(v),
    ensures
        checking(s, v) ==> checking(run_step(s, w, oracle), v),
        s.workers[w] is Ready && s.probe.next < usize::MAX
            ==> run_step(s, w, oracle).workers[w] == WorkerState::Checking(s.probe.next),
{
    let t = run_step(s, w, oracle);
    if checking(s, v) {
        let u = choose|u: int| 0 <= u < s.workers.len() && s.workers[u] == WorkerState::Checking(v);
        assert(t.workers[u] == s.workers[u]);
    }
}

proof fn lemma_extent_step<E>(s: RunState<E>, w: int, n: nat, k: nat)
    requires
        k < usize::MAX,
        extent_inv(s, n, k),
    ensures
        extent_inv(run_step(s, w, extent_oracle(k)), n, k),
{
    let oracle = extent_oracle::<E>(k);
    lemma_counter_step(s, w, n, k, oracle);
    if 0 <= w < s.workers.len() && s.workers[w] != WorkerState::Checking(k + 1) {
        lemma_step_keeps_checking(s, w, k + 1, oracle);
    }
}

proof fn lemma_fault_step<E>(s: RunState<E>, w: int, n: nat, k: nat, e: E)
    requires
        k + 1 < usize::MAX,
        fault_inv(s, n, k, e),
    ensures
        fault_inv(run_step(s, w, fault_oracle(k, e)), n, k, e),
{
    let oracle = fault_oracle::<E>(k, e);
    lemma_counter_step(s, w, n, k, oracle);
    if 0 <= w < s.workers.len() && s.workers[w] != WorkerState::Checking(k + 1) {
        lemma_step_keeps_checking(s, w, k + 1, oracle);
    }
}

/// Once every worker of a run with one worker at least has stopped, one has
/// stopped and none is checking anything.
proof fn lemma_stopped_run<E>(end: RunState<E>, v: nat)
    requires
        end.workers.len() >= 1,
    ensures
        all_stopped(end) ==> some_stopped(end) && !checking(end, v),
{
    if all_stopped(end) {
        assert(end.workers[0] is Stopped);
        if checking(end, v) {
            let u = choose|u: int| 0 <= u < end.workers.len() && end.workers[u] == WorkerState::Checking(v);
            assert(end.workers[u] is Stopped);
        }
    }
}

proof fn lemma_extent_schedule<E>(s: RunState<E>, schedule: Seq<int>, n: nat, k: nat)
    requires
        k < usize::MAX,
        extent_inv(s, n, k),
    ensures
        extent_inv(run_schedule(s, schedule, extent_oracle(k)), n, k),
    decreases schedule.len(),
{
    if schedule.len() > 0 {
        lemma_extent_step(s, schedule[0], n, k);
        lemma_extent_schedule(run_step(s, schedule[0], extent_oracle(k)), schedule.drop_first(), n, k);
    }
}

proof fn lemma_fault_schedule<E>(s: RunState<E>, schedule: Seq<int>, n: nat, k: nat, e: E)
    requires
        k + 1 < usize::MAX,
        fault_inv(s, n, k, e),
    ensures
        fault_inv(run_schedule(s, schedule, fault_oracle(k, e)), n, k, e),
    decreases schedule.len(),
{
    if schedule.len() > 0 {
        lemma_fault_step(s, schedule[0], n, k, e);
        lemma_fault_schedule(run_step(s, schedule[0], fault_oracle(k, e)), schedule.drop_first(), n, k, e);
    }
}

/// Where the addresses of 1 to `k` exist and every later one is proven
/// absent, a run of any positive number of workers, interleaved in any
/// order, ends with the limit `k`, and so with the cell count `k + 1`, once
/// every worker has stopped.
pub proof fn lemma_probe_finds_extent<E>(n: nat, k: nat, schedule: Seq<int>)
    requires
        1 <= n,
        k < usize::MAX,
    ensures
        ({
            let end = run_schedule(run_start::<E>(n), schedule, extent_oracle(k));
            all_stopped(end) ==> limit_of(end.probe.result) == Ok::<usize, E>(k as usize)
                && count_of(end.probe.result) == Ok::<usize, E>((k + 1) as usize)
        }),
{
    let start = run_start::<E>(n);
    assert(!some_stopped(start));
    assert(!checking(start, k + 1));
    lemma_extent_schedule(start, schedule, n, k);
    let end = run_schedule(start, schedule, extent_oracle(k));
    lemma_stopped_run(end, k + 1);
}

/// Where the addresses of 1 to `k` exist, the check of `k + 1` fails with
/// `e` and every later address is proven absent, a run of any positive
/// number of workers ends with the failure `e` once every worker has
/// stopped, whatever successes were confirmed before it.
pub proof fn lemma_probe_keeps_fault<E>(n: nat, k: nat, e: E, schedule: Seq<int>)
    requires
        1 <= n,
        k + 1 < usize::MAX,
    ensures
        ({
            let end = run_schedule(run_start::<E>(n), schedule, fault_oracle(k, e));
            all_stopped(end) ==> limit_of(end.probe.result) == Err::<usize, E>(e)
        }),
{
    let start = run_start::<E>(n);
    assert(!some_stopped(start));
    assert(!checking(start, k + 1));
    lemma_fault_schedule(start, schedule, n, k, e);
    let end = run_schedule(start, schedule, fault_oracle(k, e));
    lemma_stopped_run(end, k + 1);
}

/// At every step of `schedule`, the worker moved is one that has not
/// stopped.
pub open spec fn moves_active_workers<E>(s: RunState<E>, schedule: Seq<int>, oracle: spec_fn(nat) -> ProbeOutcome<E>) -> bool
    decreases schedule.len(),
{
    schedule.len() == 0 || (
        0 <= schedule[0] < s.workers.len()
        && !(s.workers[schedule[0]] is Stopped)
        && moves_active_workers(run_step(s, schedule[0], oracle), schedule.drop_first(), oracle)
    )
}

spec fn weight(w: WorkerState, k: nat) -> int {
    match w {
        WorkerState::Ready => 2,
        WorkerState::Checking(v) => if v <= k { 3 } else { 1 },
        WorkerState::Stopped => 0,
    }
}

spec fn total_weight(ws: Seq<WorkerState>, k: nat) -> int
    decreases ws.len(),
{
    if ws.len() == 0 {
        0
    } else {
        total_weight(ws.drop_last(), k) + weight(ws.last(), k)
    }
}

/// Twice the indices up to `k` not yet handed out, plus the weights of the
/// workers; every move lowers it.
spec fn potential<E>(s: RunState<E>, k: nat) -> int {
    2 * (k + 1 - if s.probe.next < k + 1 { s.probe.next as int } else { (k + 1) as int }) + total_weight(s.workers, k)
}

proof fn lemma_total_update(ws: Seq<WorkerState>, i: int, x: WorkerState, k: nat)
    requires
        0 <= i < ws.len(),
    ensures
        total_weight(ws.update(i, x), k) == total_weight(ws, k) - weight(ws[i], k) + weight(x, k),
    decreases ws.len(),
{
    if i == ws.len() - 1 {
        assert(ws.update(i, x).drop_last() =~= ws.drop_last());
    } else {
        lemma_total_update(ws.drop_last(), i, x, k);
        assert(ws.update(i, x).drop_last() =~= ws.drop_last().update(i, x));
    }
}

proof fn lemma_total_nonnegative(ws: Seq<WorkerState>, k: nat)
    ensures
        total_weight(ws, k) >= 0,
    decreases ws.len(),
{
    if ws.len() > 0 {
        lemma_total_nonnegative(ws.drop_last(), k);
    }
}

proof fn lemma_total_start(n: nat, k: nat)
    ensures
        total_weight(Seq::new(n, |i: int| WorkerState::Ready), k) == 2 * n,
    decreases n,
{
    if n > 0 {
        lemma_total_start((n - 1) as nat, k);
        assert(Seq::new(n, |i: int| WorkerState::Ready).drop_last() =~= Seq::new((n - 1) as nat, |i: int| WorkerState::Ready));
    }
}

proof fn lemma_move_lowers_potential<E>(s: RunState<E>, w: int, k: nat, oracle: spec_fn(nat) -> ProbeOutcome<E>)
    requires
        0 <= w < s.workers.len(),
        !(s.workers[w] is Stopped),
        forall|v: nat| #[trigger] oracle(v) is Found ==> v <= k,
    ensures
        potential(run_step(s, w, oracle), k) < potential(s, k),
{
    let t = run_step(s, w, oracle);
    lemma_total_update(s.workers, w, t.workers[w], k);
    assert(t.workers =~= s.workers.update(w, t.workers[w]));
}

proof fn lemma_active_run_bounded<E>(s: RunState<E>, schedule: Seq<int>, k: nat, oracle: spec_fn(nat) -> ProbeOutcome<E>)
    requires
        moves_active_workers(s, schedule, oracle),
        forall|v: nat| #[trigger] oracle(v) is Found ==> v <= k,
    ensures
        schedule.len() <= potential(s, k),
    decreases schedule.len(),
{
    lemma_total_nonnegative(s.workers, k);
    if schedule.len() > 0 {
        lemma_move_lowers_potential(s, schedule[0], k, oracle);
        lemma_active_run_bounded(run_step(s, schedule[0], oracle), schedule.drop_first(), k, oracle);
    }
}

/// Where no address past `k` exists (whatever its check reports), a run of
/// `n` workers that only ever moves a worker that has not stopped makes at
/// most `2 · (k + n)` moves: every run comes to the point where all workers
/// have stopped.
pub proof fn lemma_probe_run_ends<E>(n: nat, k: nat, oracle: spec_fn(nat) -> ProbeOutcome<E>, schedule: Seq<int>)
    requires
        forall|v: nat| #[trigger] oracle(v) is Found ==> v <= k,
        moves_active_workers(run_start::<E>(n), schedule, oracle),
    ensures
        schedule.len() <= 2 * (k + n),
{
    lemma_total_start(n, k);
    lemma_active_run_bounded(run_start::<E>(n), schedule, k, oracle);
}

} // verus!
