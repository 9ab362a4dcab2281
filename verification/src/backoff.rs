//! The freshness and backoff engine.
//!
//! Once per host tick the engine decides whether the held snapshot is stale,
//! whether a fetch may be attempted, and how to react to the outcome of a
//! fetch. Failures start a cooldown of `2^backoff_exponent` seconds and bump
//! the exponent, capped at 10 (a longest wait of 1024 seconds); an accepted
//! snapshot resets the exponent to 2 and the cooldown to 0.

use vstd::prelude::*;
use vstd::arithmetic::power2::{pow2, lemma_pow2_unfold, lemma_pow2_strictly_increases, lemma2_to64};
use crate::schedule_data::{RotationData, spec_primary_end};
use crate::rm_structure::CoreError;

verus! {

/// Smallest backoff exponent; the value after an accepted fetch.
pub const BACKOFF_EXPONENT_FLOOR: u32 = 2;

/// Largest backoff exponent; caps the cooldown at 1024 seconds.
pub const BACKOFF_EXPONENT_CAP: u32 = 10;

/// What the engine asks its caller to do on one tick.
#[derive(Clone, Copy, Debug, PartialEq, Eq, Structural)]
pub enum TickAction {
    /// No snapshot is held: populate from the store, then the network.
    Populate,
    /// The held snapshot's primary group has no events; treated as a failure.
    PrimaryMissing,
    /// The held snapshot is still fresh: nothing to do.
    Fresh,
    /// Stale, but a cooldown is running: wait this tick out.
    Wait,
    /// Stale and no cooldown: fetch a replacement snapshot.
    Fetch,
}

/// How a completed fetch attempt was classified.
#[derive(Clone, Copy, Debug, PartialEq, Eq, Structural)]
pub enum FetchClass {
    /// The replacement was fresh and has been accepted.
    Accepted,
    /// The replacement parsed but its first primary event had already ended:
    /// the upstream has not rolled over yet.
    Premature,
    /// The replacement parsed but had no primary event at all.
    Malformed,
    /// The fetch or the parse itself failed.
    FetchFailed,
}

impl FetchClass {
    /// The error a classified attempt reports under the core's taxonomy:
    /// transport failure, malformed payload, or premature data; an accepted
    /// fetch reports none. Premature data is logged at a milder severity
    /// than the failures, but all three back off alike.
    pub fn to_error(self) -> (r: Option<CoreError>)
        ensures
            r == match self {
                FetchClass::Accepted => None::<CoreError>,
                FetchClass::Premature => Some(CoreError::PrematureData),
                FetchClass::Malformed => Some(CoreError::ParseFailure),
                FetchClass::FetchFailed => Some(CoreError::FetchFailure),
            },
    {
        match self {
            FetchClass::Accepted => None,
            FetchClass::Premature => Some(CoreError::PrematureData),
            FetchClass::Malformed => Some(CoreError::ParseFailure),
            FetchClass::FetchFailed => Some(CoreError::FetchFailure),
        }
    }
}

pub struct FreshnessEngine {
    pub snapshot: Option<RotationData>,
    /// Seconds left before another fetch may be attempted.
    pub cooldown_remaining: u64,
    pub backoff_exponent: u32,
    /// Slack, in seconds, granted past an event's end before the snapshot
    /// counts as stale; absorbs clock and propagation skew.
    pub grace_seconds: u64,
}

impl FreshnessEngine {
    pub open spec fn wf(self) -> bool {
        BACKOFF_EXPONENT_FLOOR <= self.backoff_exponent <= BACKOFF_EXPONENT_CAP
    }

    /// A snapshot is fresh when its first primary event has not yet ended,
    /// or ended no more than `grace` seconds ago.
    pub open spec fn spec_is_fresh(s: RotationData, now: i64, grace: u64) -> bool {
        match spec_primary_end(s) {
            Some(end) => now as int <= end as int + grace as int,
            None => false,
        }
    }

    /// The decision taken on one tick, given the current time.
    pub open spec fn spec_decide(self, now: i64) -> TickAction {
        match self.snapshot {
            None => TickAction::Populate,
            Some(s) => match spec_primary_end(s) {
                None => TickAction::PrimaryMissing,
                Some(_) => if Self::spec_is_fresh(s, now, self.grace_seconds) {
                    TickAction::Fresh
                } else if self.cooldown_remaining > 0 {
                    TickAction::Wait
                } else {
                    TickAction::Fetch
                },
            },
        }
    }

    /// The state after a failed or premature fetch attempt: a fresh cooldown
    /// starts only if none is running, and only then does the exponent grow.
    pub open spec fn spec_fail(self) -> FreshnessEngine {
        if self.cooldown_remaining == 0 {
            FreshnessEngine {
                cooldown_remaining: pow2(self.backoff_exponent as nat) as u64,
                backoff_exponent: if self.backoff_exponent < BACKOFF_EXPONENT_CAP {
                    (self.backoff_exponent + 1) as u32
                } else {
                    BACKOFF_EXPONENT_CAP
                },
                ..self
            }
        } else {
            self
        }
    }

    /// The state after one waiting tick: the cooldown shrinks by one second,
    /// floored at zero.
    pub open spec fn spec_wait(self) -> FreshnessEngine {
        FreshnessEngine {
            cooldown_remaining: if self.cooldown_remaining > 0 {
                (self.cooldown_remaining - 1) as u64
            } else {
                0
            },
            ..self
        }
    }

    /// The state after `n` waiting ticks.
    pub open spec fn spec_wait_n(self, n: nat) -> FreshnessEngine
        decreases n,
    {
        if n == 0 {
            self
        } else {
            self.spec_wait_n((n - 1) as nat).spec_wait()
        }
    }

    /// The state after `n` further failed attempts.
    pub open spec fn spec_fail_n(self, n: nat) -> FreshnessEngine
        decreases n,
    {
        if n == 0 {
            self
        } else {
            self.spec_fail_n((n - 1) as nat).spec_fail()
        }
    }

    /// The engine starts with no snapshot, no cooldown, and the floor exponent.
    pub fn new(grace_seconds: u64) -> (r: FreshnessEngine)
        ensures
            r.snapshot is None,
            r.cooldown_remaining == 0,
            r.backoff_exponent == BACKOFF_EXPONENT_FLOOR,
            r.grace_seconds == grace_seconds,
            r.wf(),
    {
        FreshnessEngine {
            snapshot: None,
            cooldown_remaining: 0,
            backoff_exponent: BACKOFF_EXPONENT_FLOOR,
            grace_seconds,
        }
    }

    /// Decide what this tick should do. Performs no transition itself.
    pub fn decide(&self, now: i64) -> (r: TickAction)
        ensures
            r == self.spec_decide(now),
    {
        match &self.snapshot {
            None => TickAction::Populate,
            Some(s) => {
                match s.primary_end() {
                    None => TickAction::PrimaryMissing,
                    Some(end) => {
                        if is_fresh_end(end, now, self.grace_seconds) {
                            TickAction::Fresh
                        } else if self.cooldown_remaining > 0 {
                            TickAction::Wait
                        } else {
                            TickAction::Fetch
                        }
                    },
                }
            },
        }
    }

    /// Absorb the result of the unconditional first population attempt.
    /// Population precedes the backoff machinery: the cooldown and the
    /// exponent are untouched whether or not a snapshot arrived.
    pub fn on_populate(&mut self, loaded: Option<RotationData>)
        ensures
            final(self).snapshot == (if loaded is Some { loaded } else { old(self).snapshot }),
            final(self).cooldown_remaining == old(self).cooldown_remaining,
            final(self).backoff_exponent == old(self).backoff_exponent,
            final(self).grace_seconds == old(self).grace_seconds,
    {
        if let Some(s) = loaded {
            self.snapshot = Some(s);
        }
    }

    /// Record a failed or premature attempt (the step behind `spec_fail`).
    pub fn note_failure(&mut self)
        requires
            old(self).wf(),
        ensures
            *final(self) == old(self).spec_fail(),
            final(self).wf(),
            final(self).backoff_exponent <= BACKOFF_EXPONENT_CAP,
    {
        if self.cooldown_remaining == 0 {
            self.cooldown_remaining = pow2_u64(self.backoff_exponent);
            self.backoff_exponent = if self.backoff_exponent < BACKOFF_EXPONENT_CAP {
                self.backoff_exponent + 1
            } else {
                BACKOFF_EXPONENT_CAP
            };
        }
    }

    /// Spend one tick of a running cooldown.
    pub fn wait_tick(&mut self)
        ensures
            *final(self) == old(self).spec_wait(),
    {
        if self.cooldown_remaining > 0 {
            self.cooldown_remaining = self.cooldown_remaining - 1;
        }
    }

    /// Classify a completed fetch attempt and apply its transition: an
    /// accepted snapshot replaces the held one and resets the backoff
    /// machinery entirely; everything else counts as a failure.
    pub fn on_fetch_result(&mut self, fetched: Option<RotationData>, now: i64) -> (r: FetchClass)
        requires
            old(self).wf(),
        ensures
            final(self).wf(),
            final(self).grace_seconds == old(self).grace_seconds,
            match fetched {
                None => {
                    &&& r == FetchClass::FetchFailed
                    &&& *final(self) == old(self).spec_fail()
                },
                Some(s) => {
                    if spec_primary_end(s) is None {
                        &&& r == FetchClass::Malformed
                        &&& *final(self) == old(self).spec_fail()
                    } else if !Self::spec_is_fresh(s, now, old(self).grace_seconds) {
                        &&& r == FetchClass::Premature
                        &&& *final(self) == old(self).spec_fail()
                    } else {
                        &&& r == FetchClass::Accepted
                        &&& final(self).snapshot == Some(s)
                        &&& final(self).cooldown_remaining == 0
                        &&& final(self).backoff_exponent == BACKOFF_EXPONENT_FLOOR
                    }
                },
            },
    {
        match fetched {
            None => {
                self.note_failure();
                FetchClass::FetchFailed
            },
            Some(s) => {
                match s.primary_end() {
                    None => {
                        self.note_failure();
                        FetchClass::Malformed
                    },
                    Some(end) => {
                        if is_fresh_end(end, now, self.grace_seconds) {
                            self.snapshot = Some(s);
                            self.cooldown_remaining = 0;
                            self.backoff_exponent = BACKOFF_EXPONENT_FLOOR;
                            FetchClass::Accepted
                        } else {
                            self.note_failure();
                            FetchClass::Premature
                        }
                    },
                }
            },
        }
    }
}

/// Whether an event that ends at `end` is still fresh at `now`, given the
/// grace window.
fn is_fresh_end(end: i64, now: i64, grace: u64) -> (r: bool)
    ensures
        r == (now as int <= end as int + grace as int),
{
    (now as i128) <= (end as i128) + (grace as i128)
}

/// `2^e` for the small exponents the backoff machinery uses.
pub fn pow2_u64(e: u32) -> (r: u64)
    requires
        e <= BACKOFF_EXPONENT_CAP,
    ensures
        r == pow2(e as nat),
        r <= 1024,
{
    proof {
        lemma2_to64();
    }
    let mut r: u64 = 1;
    let mut i: u32 = 0;
    while i < e
        invariant
            i <= e,
            r == pow2(i as nat),
        decreases e - i,
    {
        proof {
            if (i as nat) < 10 {
                lemma_pow2_strictly_increases(i as nat, 10);
            }
            lemma_pow2_unfold((i + 1) as nat);
        }
        r = r * 2;
        i = i + 1;
    }
    proof {
        if (e as nat) < 10 {
            lemma_pow2_strictly_increases(e as nat, 10);
        }
    }
    r
}

/// After a failure that starts a cooldown, the cooldown is exactly
/// `2^backoff_exponent` before any waiting tick has run, stays above zero
/// through the next `2^backoff_exponent - 1` waiting ticks, and reaches
/// exactly zero after `2^backoff_exponent` of them.
pub proof fn lemma_failure_cooldown_runs_full(s: FreshnessEngine)
    requires
        s.wf(),
        s.cooldown_remaining == 0,
    ensures
        s.spec_fail().cooldown_remaining == pow2(s.backoff_exponent as nat),
        forall|m: nat|
            m < pow2(s.backoff_exponent as nat) ==> #[trigger] s.spec_fail().spec_wait_n(
                m,
            ).cooldown_remaining == pow2(s.backoff_exponent as nat) - m,
        s.spec_fail().spec_wait_n(pow2(s.backoff_exponent as nat)).cooldown_remaining == 0,
{
    lemma2_to64();
    let f = s.spec_fail();
    assert(f.cooldown_remaining == pow2(s.backoff_exponent as nat));
    assert forall|m: nat| m <= f.cooldown_remaining implies #[trigger] f.spec_wait_n(
        m,
    ).cooldown_remaining == f.cooldown_remaining - m by {
        lemma_wait_n_drains(f, m);
    }
}

/// Waiting `m` ticks with `m` no more than the running cooldown leaves
/// exactly `cooldown - m` seconds of cooldown.
pub proof fn lemma_wait_n_drains(s: FreshnessEngine, m: nat)
    requires
        m <= s.cooldown_remaining,
    ensures
        s.spec_wait_n(m).cooldown_remaining == s.cooldown_remaining - m,
    decreases m,
{
    if m > 0 {
        lemma_wait_n_drains(s, (m - 1) as nat);
    }
}

/// However many consecutive failures occur, the exponent never passes the
/// cap, so no single cooldown a failure starts exceeds 2^10 = 1024 seconds.
pub proof fn lemma_exponent_never_exceeds_cap(s: FreshnessEngine, n: nat)
    requires
        s.wf(),
    ensures
        s.spec_fail_n(n).wf(),
        s.spec_fail_n(n).backoff_exponent <= BACKOFF_EXPONENT_CAP,
    decreases n,
{
    if n > 0 {
        lemma_exponent_never_exceeds_cap(s, (n - 1) as nat);
    }
}

} // verus!
