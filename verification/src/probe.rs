//! Per-probe retry logic: one scan task is attempted up to `tries` times;
//! a successful connect settles Open at once, a resource-exhaustion failure
//! settles fatally at once, and any other failure (refused, reset,
//! unreachable, timed out) is retried immediately until the budget is spent,
//! whereupon the task settles Closed.
//!
//! The caller performs the actual connect attempts and classifies each one;
//! the decision after every attempt is taken here.

use vstd::prelude::*;

use crate::{PortState, Settlement};

verus! {

/// The classification of one connect attempt, as observed by the caller.
#[derive(Clone, Copy, Debug, PartialEq, Eq, Structural)]
pub enum AttemptOutcome {
    /// The connection was established (and is to be closed gracefully).
    Connected,
    /// A per-attempt failure: refused, reset, unreachable, or timed out.
    Transient,
    /// The process-wide "too many open files" condition.
    FatalResource,
}

/// What a probe does after one attempt.
#[derive(Clone, Copy, Debug, PartialEq, Eq, Structural)]
pub enum ProbeStep {
    /// Attempt again immediately.
    Retry,
    /// The task is settled.
    Settle(Settlement),
}

/// Index of the first attempt outcome that is not transient, or the length
/// if all are.
pub open spec fn first_non_transient(a: Seq<AttemptOutcome>) -> int
    decreases a.len(),
{
    if a.len() == 0 {
        0
    } else if a[0] != AttemptOutcome::Transient {
        0
    } else {
        1 + first_non_transient(a.drop_first())
    }
}

pub proof fn lemma_first_non_transient(a: Seq<AttemptOutcome>)
    ensures
        0 <= first_non_transient(a) <= a.len(),
        first_non_transient(a) < a.len() ==> a[first_non_transient(a)]
            != AttemptOutcome::Transient,
        forall|k: int|
            0 <= k < first_non_transient(a) ==> a[k] == AttemptOutcome::Transient,
    decreases a.len(),
{
    if a.len() > 0 && a[0] == AttemptOutcome::Transient {
        let rest = a.drop_first();
        lemma_first_non_transient(rest);
        assert forall|k: int| 0 <= k < first_non_transient(a) implies a[k]
            == AttemptOutcome::Transient by {
            if k >= 1 {
                assert(a[k] == rest[k - 1]);
                assert(rest[k - 1] == AttemptOutcome::Transient);
            }
        }
    }
}

/// The terminal state of a probe with budget `tries` replayed against the
/// attempt outcomes `a`: how many attempts it makes, and how it settles.
pub open spec fn spec_probe(tries: int, a: Seq<AttemptOutcome>) -> (int, Settlement) {
    let i = first_non_transient(a);
    if i >= tries {
        (tries, Settlement::Finished(PortState::Closed))
    } else if a[i] == AttemptOutcome::Connected {
        (i + 1, Settlement::Finished(PortState::Open))
    } else {
        (i + 1, Settlement::Fatal)
    }
}

/// The decision after one attempt: success settles Open, resource
/// exhaustion settles fatally, a transient failure is retried while budget
/// remains and settles Closed on the last try.
pub fn probe_decide(tries: u8, attempts_done: u8, outcome: AttemptOutcome) -> (r: ProbeStep)
    requires
        1 <= tries,
        attempts_done < tries,
    ensures
        outcome == AttemptOutcome::Connected ==> r == ProbeStep::Settle(
            Settlement::Finished(PortState::Open),
        ),
        outcome == AttemptOutcome::FatalResource ==> r == ProbeStep::Settle(Settlement::Fatal),
        outcome == AttemptOutcome::Transient && attempts_done + 1 < tries ==> r
            == ProbeStep::Retry,
        outcome == AttemptOutcome::Transient && attempts_done + 1 == tries ==> r
            == ProbeStep::Settle(Settlement::Finished(PortState::Closed)),
{
    match outcome {
        AttemptOutcome::Connected => ProbeStep::Settle(Settlement::Finished(PortState::Open)),
        AttemptOutcome::FatalResource => ProbeStep::Settle(Settlement::Fatal),
        AttemptOutcome::Transient => {
            if attempts_done + 1 < tries {
                ProbeStep::Retry
            } else {
                ProbeStep::Settle(Settlement::Finished(PortState::Closed))
            }
        },
    }
}

/// How a whole probe ran: the attempts it used and how it settled.
#[derive(Clone, Copy, Debug, PartialEq, Eq, Structural)]
pub struct ProbeReplay {
    pub attempts_used: u8,
    pub settlement: Settlement,
}

/// Replays a probe against a recorded outcome per possible attempt; one
/// recorded outcome is needed for each attempt the budget allows.
pub fn run_probe(tries: u8, attempts: &Vec<AttemptOutcome>) -> (r: ProbeReplay)
    requires
        1 <= tries,
        attempts@.len() >= tries,
    ensures
        (r.attempts_used as int, r.settlement) == spec_probe(tries as int, attempts@),
{
    proof {
        lemma_first_non_transient(attempts@);
    }
    let mut ntry: u8 = 0;
    while ntry < tries
        invariant
            1 <= tries,
            ntry < tries,
            attempts@.len() >= tries,
            forall|k: int| 0 <= k < ntry ==> attempts@[k] == AttemptOutcome::Transient,
        decreases tries - ntry,
    {
        let outcome = attempts[ntry as usize];
        match probe_decide(tries, ntry, outcome) {
            ProbeStep::Retry => {
                proof {
                    lemma_first_non_transient(attempts@);
                }
                ntry = ntry + 1;
            },
            ProbeStep::Settle(s) => {
                proof {
                    lemma_first_non_transient(attempts@);
                    let i = first_non_transient(attempts@);
                    assert(attempts@[ntry as int] == outcome);
                    if outcome == AttemptOutcome::Transient {
                        // Last try: every attempt within budget was transient.
                        assert(ntry + 1 == tries);
                        if i < tries {
                            if i < ntry {
                                assert(attempts@[i] == AttemptOutcome::Transient);
                            } else {
                                assert(i == ntry as int);
                            }
                            assert(attempts@[i] != AttemptOutcome::Transient);
                            assert(false);
                        }
                    } else {
                        // The first non-transient attempt is this one.
                        if i < ntry as int {
                            assert(attempts@[i] == AttemptOutcome::Transient);
                            assert(attempts@[i] != AttemptOutcome::Transient);
                        }
                        if i > ntry as int {
                            assert(attempts@[ntry as int] == AttemptOutcome::Transient);
                        }
                        assert(i == ntry as int);
                    }
                }
                return ProbeReplay { attempts_used: ntry + 1, settlement: s };
            },
        }
    }
    // probe_decide settles on the last try, so the loop cannot finish.
    proof {
        assert(false);
    }
    ProbeReplay { attempts_used: tries, settlement: Settlement::Finished(PortState::Closed) }
}

/// Law: a probe whose every attempt fails transiently makes exactly `tries`
/// attempts and settles Closed.
pub proof fn lemma_retry_exhaustion(tries: int, a: Seq<AttemptOutcome>)
    requires
        1 <= tries <= a.len(),
        forall|k: int| 0 <= k < a.len() ==> a[k] == AttemptOutcome::Transient,
    ensures
        spec_probe(tries, a) == (tries, Settlement::Finished(PortState::Closed)),
{
    lemma_first_non_transient(a);
}

/// Law: a probe that first connects on attempt `j` within its budget makes
/// exactly `j` attempts and settles Open.
pub proof fn lemma_open_after_attempt(tries: int, a: Seq<AttemptOutcome>, j: int)
    requires
        1 <= j <= tries <= a.len(),
        a[j - 1] == AttemptOutcome::Connected,
        forall|k: int| 0 <= k < j - 1 ==> a[k] == AttemptOutcome::Transient,
    ensures
        spec_probe(tries, a) == (j, Settlement::Finished(PortState::Open)),
{
    lemma_first_non_transient(a);
    let i = first_non_transient(a);
    if i < j - 1 {
        assert(a[i] == AttemptOutcome::Transient);
    }
    if i > j - 1 {
        assert(a[j - 1] == AttemptOutcome::Transient);
    }
}

} // verus!
