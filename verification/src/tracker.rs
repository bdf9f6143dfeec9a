//! The debounced hysteresis state machine over wind observations.

use vstd::prelude::*;

verus! {

use crate::parser::Observation;
use crate::sector::Sector;
use crate::sector::sector_contains;

/// The state of a [`WindTracker`]. The counters in the two transient states
/// are only ever meaningful there and always start at 1.
#[derive(Clone, Copy, PartialEq, Eq, Structural, Debug)]
pub enum WindState {
    Low,
    Candidate(u8),
    High,
    Cooldown(u8),
}

/// Wind state tracking FSM.
///
/// Implements hysteresis: a configured number of consecutive matching
/// observations is required to reach [`WindState::High`], and a configured
/// number of consecutive non-matching observations to fall back to
/// [`WindState::Low`]. [`WindState::Candidate`] and [`WindState::Cooldown`]
/// are the transient states that count those streaks.
pub struct WindTracker {
    pub state: WindState,
    /// Target sector of wind directions.
    pub wind_sector: Sector,
    /// Number of steps required to reach [`WindState::High`] from [`WindState::Low`].
    pub candidate_steps: u8,
    /// Number of steps required to reset from [`WindState::High`] to [`WindState::Low`].
    pub cooldown_steps: u8,
    /// Target threshold for the average wind speed, in the same fixed-point
    /// unit as [`Observation::avg_speed`].
    pub avg_speed_threshold: u32,
}

impl WindTracker {
    /// The joint invariant of the state and the configuration: a streak
    /// counter exists only inside its transient state, starts at 1 and never
    /// passes the configured number of steps.
    pub open spec fn wf(self) -> bool {
        match self.state {
            WindState::Candidate(i) => 1 <= i && i <= self.candidate_steps,
            WindState::Cooldown(i) => 1 <= i && i <= self.cooldown_steps,
            _ => true,
        }
    }

    /// An observation matches when its speed reaches the threshold and its
    /// direction falls in the target sector.
    pub open spec fn observation_matches(self, o: Observation) -> bool {
        o.avg_speed >= self.avg_speed_threshold && sector_contains(self.wind_sector, o.direction as int)
    }

    /// The transition table of the FSM: the state after one step on a
    /// matching (`m == true`) or non-matching (`m == false`) observation.
    pub open spec fn next_state(self, m: bool) -> WindState {
        if m {
            match self.state {
                WindState::High => WindState::High,
                WindState::Low => if self.candidate_steps == 0 {
                    WindState::High
                } else {
                    WindState::Candidate(1)
                },
                WindState::Candidate(i) => if i >= self.candidate_steps {
                    WindState::High
                } else {
                    WindState::Candidate((i + 1) as u8)
                },
                WindState::Cooldown(_) => WindState::High,
            }
        } else {
            match self.state {
                WindState::Low => WindState::Low,
                WindState::Candidate(_) => WindState::Low,
                WindState::High => if self.cooldown_steps == 0 {
                    WindState::Low
                } else {
                    WindState::Cooldown(1)
                },
                WindState::Cooldown(i) => if i >= self.cooldown_steps {
                    WindState::Low
                } else {
                    WindState::Cooldown((i + 1) as u8)
                },
            }
        }
    }

    /// A step fires exactly on the rising edges `Low -> High` and
    /// `Candidate(_) -> High`; re-entering `High` from `Cooldown` is not a
    /// new rising edge.
    pub open spec fn event_fired(before: WindState, after: WindState) -> bool {
        match (before, after) {
            (WindState::Low, WindState::High) => true,
            (WindState::Candidate(_), WindState::High) => true,
            _ => false,
        }
    }

    /// Advances the FSM by one observation and returns true exactly when the
    /// target event is found (the FSM newly reaches [`WindState::High`]).
    pub fn step(&mut self, observation: &Observation) -> (event: bool)
        requires
            old(self).wf(),
        ensures
            final(self).wf(),
            final(self).state == old(self).next_state(old(self).observation_matches(*observation)),
            event == WindTracker::event_fired(old(self).state, final(self).state),
            final(self).wind_sector == old(self).wind_sector,
            final(self).candidate_steps == old(self).candidate_steps,
            final(self).cooldown_steps == old(self).cooldown_steps,
            final(self).avg_speed_threshold == old(self).avg_speed_threshold,
    {
        let before_state = self.state;
        let direction_match = self.wind_sector.test(observation.direction);
        let speed_match = observation.avg_speed >= self.avg_speed_threshold;
        self.state = if speed_match && direction_match {
            match self.state {
                WindState::High => WindState::High,
                WindState::Low => if self.candidate_steps == 0 {
                    WindState::High
                } else {
                    WindState::Candidate(1)
                },
                WindState::Candidate(i) => if i >= self.candidate_steps {
                    WindState::High
                } else {
                    WindState::Candidate(i + 1)
                },
                WindState::Cooldown(_) => WindState::High,
            }
        } else {
            match self.state {
                WindState::Low => WindState::Low,
                WindState::Candidate(_) => WindState::Low,
                WindState::High => if self.cooldown_steps == 0 {
                    WindState::Low
                } else {
                    WindState::Cooldown(1)
                },
                WindState::Cooldown(i) => if i >= self.cooldown_steps {
                    WindState::Low
                } else {
                    WindState::Cooldown(i + 1)
                },
            }
        };
        matches!((before_state, self.state), (WindState::Low, WindState::High) | (WindState::Candidate(_), WindState::High))
    }

    pub fn state(&self) -> (s: WindState)
        ensures
            s == self.state,
    {
        self.state
    }
}

/// Law: a matching speed with a non-matching direction behaves as "not
/// match"; from any `Candidate` state such an observation drops the FSM
/// straight back to `Low`, and no event fires.
pub proof fn lemma_direction_mismatch_resets_candidate(t: WindTracker, o: Observation, i: u8)
    requires
        t.state == WindState::Candidate(i),
        !sector_contains(t.wind_sector, o.direction as int),
    ensures
        !t.observation_matches(o),
        t.next_state(t.observation_matches(o)) == WindState::Low,
        !WindTracker::event_fired(t.state, t.next_state(t.observation_matches(o))),
{
}

/// Law: with `candidate_steps == 0` no debounce is required; a single
/// matching observation takes `Low` directly to `High` and fires the event.
pub proof fn lemma_zero_candidate_steps(t: WindTracker, o: Observation)
    requires
        t.candidate_steps == 0,
        t.state == WindState::Low,
        t.observation_matches(o),
    ensures
        t.next_state(t.observation_matches(o)) == WindState::High,
        WindTracker::event_fired(t.state, t.next_state(t.observation_matches(o))),
{
}

/// Law: a matching observation during `Cooldown` returns the FSM to `High`
/// silently; that is not a new rising edge.
pub proof fn lemma_cooldown_reentry_is_silent(t: WindTracker, o: Observation, i: u8)
    requires
        t.state == WindState::Cooldown(i),
        t.observation_matches(o),
    ensures
        t.next_state(t.observation_matches(o)) == WindState::High,
        !WindTracker::event_fired(t.state, t.next_state(t.observation_matches(o))),
{
}

} // verus!
