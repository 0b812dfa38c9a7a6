//! Discovery of the extent of one axis.
//!
//! Workers share one [`AxisProbe`]: each claims the next candidate index,
//! checks whether the address for it exists, and reports the outcome. The
//! probe keeps the smallest index found to be out of range, unless a terminal
//! failure was reported, which is kept for good.

use vstd::prelude::*;

verus! {

/// What one existence check reported for a probed index.
pub enum ProbeOutcome<E> {
    /// The address exists.
    Found,
    /// The address is proven absent: the index lies past the end of the axis.
    Boundary,
    /// Any other failure (transport, server fault, malformed response).
    Failed(E),
}

/// The accumulated outcome of one probing run.
pub enum LimitResult<E> {
    /// The smallest index reported out of range so far
    /// (`usize::MAX` while none has been).
    Bound(usize),
    /// A terminal failure; once recorded it is never replaced.
    Failure(E),
}

/// The abstract state of a probe: the next index to hand out and the
/// accumulated result.
pub struct ProbeState<E> {
    pub next: nat,
    pub result: LimitResult<E>,
}

/// The state that a probe starts in.
pub open spec fn initial_state<E>() -> ProbeState<E> {
    ProbeState { next: 1, result: LimitResult::Bound(usize::MAX) }
}

/// The state after one claim: the counter moves on unless it is exhausted.
pub open spec fn claimed<E>(s: ProbeState<E>) -> ProbeState<E> {
    if s.next < usize::MAX {
        ProbeState { next: s.next + 1, ..s }
    } else {
        s
    }
}

/// The result after `outcome` was reported for `index`: a terminal failure
/// is kept; otherwise a failure replaces the bound, and a boundary replaces it
/// when it is not above it.
pub open spec fn recorded<E>(r: LimitResult<E>, index: nat, outcome: ProbeOutcome<E>) -> LimitResult<E> {
    match r {
        LimitResult::Failure(_) => r,
        LimitResult::Bound(b) => match outcome {
            ProbeOutcome::Found => r,
            ProbeOutcome::Boundary => if index <= b { LimitResult::Bound(index as usize) } else { r },
            ProbeOutcome::Failed(e) => LimitResult::Failure(e),
        },
    }
}

/// The limit that a result stands for: the largest index below the bound,
/// or the failure.
pub open spec fn limit_of<E>(r: LimitResult<E>) -> Result<usize, E> {
    match r {
        LimitResult::Bound(b) => Ok((b - 1) as usize),
        LimitResult::Failure(e) => Err(e),
    }
}

/// The cell count that a result stands for: one more than its limit.
pub open spec fn count_of<E>(r: LimitResult<E>) -> Result<usize, E> {
    match limit_of(r) {
        Ok(l) => Ok((l + 1) as usize),
        Err(e) => Err(e),
    }
}

/// Maps a response to a probe outcome: a client-class status (400 to 499)
/// proves the address absent, every other error is terminal.
pub fn classify<E>(response: Result<(), E>, error_status: Option<u16>) -> (r: ProbeOutcome<E>)
    ensures
        response is Ok ==> r is Found,
        response is Err ==> match error_status {
            Some(c) if 400 <= c < 500 => r is Boundary,
            _ => r == ProbeOutcome::Failed(response->Err_0),
        },
{
    match response {
        Ok(()) => ProbeOutcome::Found,
        Err(e) => match error_status {
            Some(c) if 400 <= c && c < 500 => ProbeOutcome::Boundary,
            _ => ProbeOutcome::Failed(e),
        },
    }
}

/// Shared state of the workers probing one axis.
pub struct AxisProbe<E> {
    next: usize,
    result: LimitResult<E>,
}

impl<E> View for AxisProbe<E> {
    type V = ProbeState<E>;

    closed spec fn view(&self) -> ProbeState<E> {
        ProbeState { next: self.next as nat, result: self.result }
    }
}

impl<E> AxisProbe<E> {
    #[verifier::type_invariant]
    spec fn well_formed(&self) -> bool {
        &&& 1 <= self.next
        &&& match self.result {
            LimitResult::Bound(b) => 1 <= b,
            LimitResult::Failure(_) => true,
        }
    }

    /// A probe whose counter starts at 1, with no bound seen yet.
    pub fn new() -> (p: Self)
        ensures
            p@ == initial_state::<E>(),
    {
        AxisProbe { next: 1, result: LimitResult::Bound(usize::MAX) }
    }

    /// Hands out the next candidate index; `None` once the counter is
    /// exhausted. No index is handed out twice and none is skipped.
    pub fn claim(&mut self) -> (r: Option<usize>)
        ensures
            final(self)@ == claimed(old(self)@),
            old(self)@.next < usize::MAX ==> r is Some && r->0 == old(self)@.next,
            old(self)@.next == usize::MAX ==> r is None,
    {
        proof { use_type_invariant(&*self); }
        if self.next < usize::MAX {
            let v = self.next;
            self.next = v + 1;
            Some(v)
        } else {
            None
        }
    }

    /// Records the outcome of the check of `index`, an index handed out by
    /// [`AxisProbe::claim`]. Returns whether the worker goes on probing.
    pub fn report(&mut self, index: usize, outcome: ProbeOutcome<E>) -> (go_on: bool)
        requires
            1 <= index < old(self)@.next,
        ensures
            go_on == (outcome is Found),
            final(self)@ == (ProbeState { result: recorded(old(self)@.result, index as nat, outcome), ..old(self)@ }),
    {
        proof { use_type_invariant(&*self); }
        let go_on = match outcome {
            ProbeOutcome::Found => true,
            _ => false,
        };
        match outcome {
            ProbeOutcome::Found => {},
            ProbeOutcome::Boundary => {
                if let LimitResult::Bound(b) = self.result {
                    if index <= b {
                        self.result = LimitResult::Bound(index);
                    }
                }
            },
            ProbeOutcome::Failed(e) => {
                if let LimitResult::Bound(_) = self.result {
                    self.result = LimitResult::Failure(e);
                }
            },
        }
        go_on
    }

    /// The discovered limit: one below the smallest index reported out of
    /// range, or the terminal failure.
    pub fn finish(self) -> (r: Result<usize, E>)
        ensures
            r == limit_of(self@.result),
            r is Ok ==> r->Ok_0 < usize::MAX,
    {
        proof { use_type_invariant(&self); }
        match self.result {
            LimitResult::Bound(b) => Ok(b - 1),
            LimitResult::Failure(e) => Err(e),
        }
    }

    /// The number of cells along the probed axis: cells are numbered from 0,
    /// so one more than the discovered limit; or the terminal failure.
    pub fn finish_count(self) -> (r: Result<usize, E>)
        ensures
            r == count_of(self@.result),
    {
        proof { use_type_invariant(&self); }
        match self.result {
            LimitResult::Bound(b) => Ok(b),
            LimitResult::Failure(e) => Err(e),
        }
    }
}

} // verus!
