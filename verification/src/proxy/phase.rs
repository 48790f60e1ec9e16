//! The order of the phases of one request.

use crate::proxy::request_filters::Decision;
use crate::proxy::ProxyError;
use vstd::prelude::*;

verus! {

/// Where the handling of a request stands.
#[derive(Debug, Clone, Copy, PartialEq, Eq, Structural)]
pub enum Phase {
    /// Rate limits and request filters are about to run.
    RequestFilter,
    /// An upstream is about to be selected.
    UpstreamPeer,
    /// The request that goes upstream is about to be modified.
    UpstreamRequestFilter,
    /// The response that came from upstream is about to be modified.
    UpstreamResponseFilter,
    /// No phase is left to run.
    Done,
}

/// How a phase ended.
#[derive(Debug, Clone, Copy, PartialEq, Eq, Structural)]
pub enum PhaseResult {
    /// The request goes on to the next phase.
    Continue,
    /// The phase has answered the request.
    Complete,
    /// The phase has failed, and the engine answers for it.
    Failed,
}

/// The phase that follows `phase` once it ended with `result`. A phase that
/// did not let the request go on is the last one.
pub open spec fn phase_after(phase: Phase, result: PhaseResult) -> Phase {
    if result != PhaseResult::Continue {
        Phase::Done
    } else {
        match phase {
            Phase::RequestFilter => Phase::UpstreamPeer,
            Phase::UpstreamPeer => Phase::UpstreamRequestFilter,
            Phase::UpstreamRequestFilter => Phase::UpstreamResponseFilter,
            Phase::UpstreamResponseFilter => Phase::Done,
            Phase::Done => Phase::Done,
        }
    }
}

/// The four phases, in the order in which a request goes through them.
pub open spec fn phase_order() -> Seq<Phase> {
    seq![
        Phase::RequestFilter,
        Phase::UpstreamPeer,
        Phase::UpstreamRequestFilter,
        Phase::UpstreamResponseFilter,
    ]
}

/// The phases that run, starting at `from`, when the phases end with
/// `results`, one after the other.
pub open spec fn phases_run(from: Phase, results: Seq<PhaseResult>) -> Seq<Phase>
    decreases results.len(),
{
    if from == Phase::Done || results.len() == 0 {
        Seq::empty()
    } else {
        seq![from] + phases_run(
            phase_after(from, results[0]),
            results.subrange(1, results.len() as int),
        )
    }
}

impl Phase {
    /// The first phase of every request.
    pub fn first() -> (r: Phase)
        ensures
            r == Phase::RequestFilter,
    {
        Phase::RequestFilter
    }

    /// The phase that follows this one once it ended with `result`.
    pub fn next(self, result: PhaseResult) -> (r: Phase)
        ensures
            r == phase_after(self, result),
    {
        match result {
            PhaseResult::Continue => match self {
                Phase::RequestFilter => Phase::UpstreamPeer,
                Phase::UpstreamPeer => Phase::UpstreamRequestFilter,
                Phase::UpstreamRequestFilter => Phase::UpstreamResponseFilter,
                Phase::UpstreamResponseFilter => Phase::Done,
                Phase::Done => Phase::Done,
            },
            _ => Phase::Done,
        }
    }
}

impl PhaseResult {
    /// How the request phase ended, given what it decided.
    pub fn of_decision(decision: &Result<Decision, ProxyError>) -> (r: PhaseResult)
        ensures
            r == (match *decision {
                Ok(Decision::Continue) => PhaseResult::Continue,
                Ok(Decision::Respond(_)) => PhaseResult::Complete,
                Err(_) => PhaseResult::Failed,
            }),
    {
        match decision {
            Ok(Decision::Continue) => PhaseResult::Continue,
            Ok(Decision::Respond(_)) => PhaseResult::Complete,
            Err(_) => PhaseResult::Failed,
        }
    }
}

/// Whatever the phases decide, the phases that run are the first phases of
/// the order, none left out and none twice; a request that every phase lets
/// go on runs through exactly the four phases of the order.
pub proof fn lemma_phase_order(results: Seq<PhaseResult>)
    ensures
        phases_run(Phase::RequestFilter, results).len() <= 4,
        phases_run(Phase::RequestFilter, results).len() <= results.len(),
        forall|i: int|
            0 <= i < phases_run(Phase::RequestFilter, results).len() ==> phases_run(
                Phase::RequestFilter,
                results,
            )[i] == phase_order()[i],
        results.len() >= 4 && (forall|i: int| 0 <= i < 4 ==> results[i] == PhaseResult::Continue)
            ==> phases_run(Phase::RequestFilter, results) == phase_order(),
        forall|i: int|
            0 <= i < phases_run(Phase::RequestFilter, results).len() - 1 ==> results[i]
                == PhaseResult::Continue,
{
    lemma_phases_from(0, results);
    assert(phase_order().subrange(0, 4) =~= phase_order());
}

/// The position of a phase in the order; four for `Done`.
pub open spec fn phase_index(phase: Phase) -> int {
    match phase {
        Phase::RequestFilter => 0,
        Phase::UpstreamPeer => 1,
        Phase::UpstreamRequestFilter => 2,
        Phase::UpstreamResponseFilter => 3,
        Phase::Done => 4,
    }
}

/// The phase at a position of the order; `Done` after the last.
pub open spec fn phase_at(index: int) -> Phase {
    if index == 0 {
        Phase::RequestFilter
    } else if index == 1 {
        Phase::UpstreamPeer
    } else if index == 2 {
        Phase::UpstreamRequestFilter
    } else if index == 3 {
        Phase::UpstreamResponseFilter
    } else {
        Phase::Done
    }
}

proof fn lemma_phases_from(k: int, results: Seq<PhaseResult>)
    requires
        0 <= k <= 4,
    ensures
        phases_run(phase_at(k), results).len() <= 4 - k,
        phases_run(phase_at(k), results).len() <= results.len(),
        forall|i: int|
            0 <= i < phases_run(phase_at(k), results).len() ==> phases_run(phase_at(k), results)[i]
                == phase_order()[k + i],
        results.len() >= 4 - k && (forall|i: int|
            0 <= i < 4 - k ==> results[i] == PhaseResult::Continue) ==> phases_run(
            phase_at(k),
            results,
        ) == phase_order().subrange(k, 4),
        forall|i: int|
            0 <= i < phases_run(phase_at(k), results).len() - 1 ==> results[i]
                == PhaseResult::Continue,
    decreases results.len(),
{
    let from = phase_at(k);
    if from == Phase::Done || results.len() == 0 {
        if results.len() >= 4 - k && k < 4 {
        } else {
            assert(phases_run(from, results) =~= Seq::empty());
            if k == 4 {
                assert(phase_order().subrange(4, 4) =~= Seq::empty());
            }
        }
    } else {
        let rest = results.subrange(1, results.len() as int);
        let next = phase_after(from, results[0]);
        if results[0] == PhaseResult::Continue {
            assert(next == phase_at(k + 1));
            lemma_phases_from(k + 1, rest);
            assert forall|i: int| 0 <= i < phases_run(from, results).len() - 1 implies results[i]
                == PhaseResult::Continue by {
                if i > 0 {
                    assert(rest[i - 1] == results[i]);
                }
            }
            if results.len() >= 4 - k && (forall|i: int|
                0 <= i < 4 - k ==> results[i] == PhaseResult::Continue) {
                assert forall|i: int| 0 <= i < 4 - (k + 1) implies rest[i]
                    == PhaseResult::Continue by {
                    assert(rest[i] == results[i + 1]);
                }
                assert(phases_run(from, results) =~= phase_order().subrange(k, 4));
            }
        } else {
            assert(next == Phase::Done);
            assert(phases_run(next, rest) =~= Seq::empty());
        }
    }
}

} // verus!
