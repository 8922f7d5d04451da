//! The path-state hysteresis of the adaptive observer: a reported state
//! changes only after repeated confident observations of another state,
//! and a saved state is trusted only while it is fresh.
use vstd::prelude::*;

use crate::text::str_eq;

verus! {

/// What the observer concludes about the network path.
#[derive(Debug, Clone, Copy, PartialEq, Eq, Structural)]
pub enum PathState {
    Stable,
    Bufferbloat,
    LossyWireless,
    HighBdp,
    Congested,
    ProxyConstrained,
    Unknown,
}

/// Confident observations of a new state needed before it is reported.
pub const REQUIRED_SAMPLES: u8 = 3;

/// Least confidence of an observation that counts.
pub const MIN_CONFIDENCE: u8 = 60;

/// Longest time a saved runtime state is trusted, in seconds.
pub const RUNTIME_STATE_MAX_AGE_SECONDS: u64 = 120;

/// Small state machine that prevents a transient sample from flipping the
/// reported path state.
#[derive(Debug, Clone, Copy, PartialEq, Eq, Structural)]
pub struct HysteresisClassifier {
    pub current: PathState,
    pub pending: Option<PathState>,
    pub pending_count: u8,
    pub required_samples: u8,
    pub min_confidence: u8,
}

impl HysteresisClassifier {
    /// The thresholds are the module's, and a pending state is a different
    /// state counted fewer times than required.
    pub open spec fn inv(self) -> bool {
        &&& self.required_samples == REQUIRED_SAMPLES
        &&& self.min_confidence == MIN_CONFIDENCE
        &&& self.pending_count < self.required_samples
        &&& (self.pending is None <==> self.pending_count == 0)
        &&& self.pending != Some(self.current)
    }

    /// One observation of `state` with `confidence`.
    pub open spec fn step(self, state: PathState, confidence: u8) -> HysteresisClassifier {
        if confidence < self.min_confidence || state == self.current {
            HysteresisClassifier { pending: None, pending_count: 0, ..self }
        } else {
            let count: u8 = if self.pending == Some(state) {
                if self.pending_count == u8::MAX {
                    u8::MAX
                } else {
                    (self.pending_count + 1) as u8
                }
            } else {
                1
            };
            if count >= self.required_samples {
                HysteresisClassifier { current: state, pending: None, pending_count: 0, ..self }
            } else {
                HysteresisClassifier { pending: Some(state), pending_count: count, ..self }
            }
        }
    }

    /// A classifier that reports `Unknown` and has nothing pending.
    pub fn new() -> (r: HysteresisClassifier)
        ensures
            r.inv(),
            r.current == PathState::Unknown,
            r.pending is None,
    {
        HysteresisClassifier {
            current: PathState::Unknown,
            pending: None,
            pending_count: 0,
            required_samples: REQUIRED_SAMPLES,
            min_confidence: MIN_CONFIDENCE,
        }
    }

    /// The reported state.
    pub fn current(&self) -> (r: PathState)
        ensures
            r == self.current,
    {
        self.current
    }

    /// Feeds one observation and returns the reported state.
    pub fn update(&mut self, state: PathState, confidence: u8) -> (r: PathState)
        requires
            old(self).inv(),
        ensures
            *final(self) == old(self).step(state, confidence),
            final(self).inv(),
            r == final(self).current,
    {
        if confidence < self.min_confidence {
            self.pending = None;
            self.pending_count = 0;
            return self.current;
        }
        if state == self.current {
            self.pending = None;
            self.pending_count = 0;
            return self.current;
        }
        if self.pending == Some(state) {
            self.pending_count = self.pending_count.saturating_add(1);
        } else {
            self.pending = Some(state);
            self.pending_count = 1;
        }
        if self.pending_count >= self.required_samples {
            self.current = state;
            self.pending = None;
            self.pending_count = 0;
        }
        self.current
    }
}

impl Default for HysteresisClassifier {
    fn default() -> (r: HysteresisClassifier)
        ensures
            r.inv(),
            r.current == PathState::Unknown,
            r.pending is None,
    {
        HysteresisClassifier::new()
    }
}

/// An observation without enough confidence never changes the reported
/// state, and it clears what was pending.
pub proof fn lemma_low_confidence_keeps_state(h: HysteresisClassifier, state: PathState, confidence: u8)
    requires
        h.inv(),
        confidence < MIN_CONFIDENCE,
    ensures
        h.step(state, confidence).current == h.current,
        h.step(state, confidence).pending is None,
        h.step(state, confidence).inv(),
{
}

/// Every observation keeps the classifier well formed.
pub proof fn lemma_step_keeps_inv(h: HysteresisClassifier, state: PathState, confidence: u8)
    requires
        h.inv(),
    ensures
        h.step(state, confidence).inv(),
{
}

/// A new state is reported exactly on its third consecutive confident
/// observation: the first two leave the reported state as it was.
pub proof fn lemma_three_confident_observations(
    h: HysteresisClassifier,
    state: PathState,
    c1: u8,
    c2: u8,
    c3: u8,
)
    requires
        h.inv(),
        state != h.current,
        h.pending != Some(state),
        c1 >= MIN_CONFIDENCE,
        c2 >= MIN_CONFIDENCE,
        c3 >= MIN_CONFIDENCE,
    ensures
        h.step(state, c1).current == h.current,
        h.step(state, c1).step(state, c2).current == h.current,
        h.step(state, c1).step(state, c2).step(state, c3).current == state,
{
}

/// A state that is already reported resets what was pending; nothing
/// changes the report but confident observations of one other state.
pub proof fn lemma_current_observation_resets(h: HysteresisClassifier, confidence: u8)
    requires
        h.inv(),
    ensures
        h.step(h.current, confidence).current == h.current,
        h.step(h.current, confidence).pending is None,
{
}

/// The report changes only to the observed state, and only when the
/// observation is confident.
pub proof fn lemma_report_changes_only_to_observed(h: HysteresisClassifier, state: PathState, confidence: u8)
    requires
        h.inv(),
        h.step(state, confidence).current != h.current,
    ensures
        h.step(state, confidence).current == state,
        confidence >= MIN_CONFIDENCE,
        h.pending == Some(state),
        h.pending_count == REQUIRED_SAMPLES - 1,
{
}

/// A saved runtime state is used only for the same interface, in the
/// current schema, and when it is not from the future nor older than two
/// minutes.
pub open spec fn state_is_current(schema: u32, iface: Seq<char>, updated_epoch: u64, active_iface: Seq<char>, now_epoch: u64) -> bool {
    schema == 1 && iface == active_iface && now_epoch >= updated_epoch && now_epoch - updated_epoch
        <= RUNTIME_STATE_MAX_AGE_SECONDS
}

pub fn runtime_state_is_current(schema: u32, iface: &str, updated_epoch: u64, active_iface: &str, now_epoch: u64) -> (r: bool)
    ensures
        r == state_is_current(schema, iface@, updated_epoch, active_iface@, now_epoch),
{
    schema == 1 && str_eq(iface, active_iface) && now_epoch >= updated_epoch && now_epoch
        - updated_epoch <= RUNTIME_STATE_MAX_AGE_SECONDS
}

} // verus!
