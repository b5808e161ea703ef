//! The phase machine of an ADSR envelope.
//!
//! An envelope has a level and a phase. On every tick the level either rises by
//! the attack increment, falls by the decay or release decrement, is held, or is
//! reset to zero; when a rising or falling level passes its bound the phase
//! moves on. The level itself is a floating-point number and is kept by the
//! caller; this module decides what happens to it and which phase follows.

use vstd::prelude::*;

verus! {

/// The phase of an ADSR envelope.
#[derive(Clone, Copy, Debug, PartialEq, Eq, Structural)]
pub enum Phase {
    Attack,
    Decay,
    Sustain,
    Release,
    Finished,
}

/// What the level of an envelope does during one tick.
#[derive(Clone, Copy, Debug, PartialEq, Eq, Structural)]
pub enum LevelStep {
    /// The level rises by the attack increment; past 1 it is clamped to 1.
    Rise,
    /// The level falls by the decay decrement; below the sustain level it is
    /// clamped to the sustain level.
    Fall,
    /// The level is left as it is.
    Hold,
    /// The level is set to 0.
    Restart,
    /// The level falls by the release decrement; below 0 it is clamped to 0.
    Fade,
}

/// The level step of one tick in `phase`, with the key held (`note_on`) or not.
pub open spec fn step_of(phase: Phase, note_on: bool) -> LevelStep {
    if note_on {
        match phase {
            Phase::Attack => LevelStep::Rise,
            Phase::Decay => LevelStep::Fall,
            Phase::Sustain => LevelStep::Hold,
            Phase::Release | Phase::Finished => LevelStep::Restart,
        }
    } else {
        match phase {
            Phase::Finished => LevelStep::Hold,
            Phase::Release => LevelStep::Fade,
            _ => LevelStep::Hold,
        }
    }
}

/// The phase after one tick in `phase`, where `past_bound` tells whether the
/// level passed the bound of its step (1 for `Rise`, the sustain level for
/// `Fall`, 0 for `Fade`); for the other steps it has no effect.
pub open spec fn phase_after(phase: Phase, note_on: bool, past_bound: bool) -> Phase {
    if note_on {
        match phase {
            Phase::Attack => if past_bound { Phase::Decay } else { Phase::Attack },
            Phase::Decay => if past_bound { Phase::Sustain } else { Phase::Decay },
            Phase::Sustain => Phase::Sustain,
            Phase::Release | Phase::Finished => Phase::Attack,
        }
    } else {
        match phase {
            Phase::Finished => Phase::Finished,
            Phase::Release => if past_bound { Phase::Finished } else { Phase::Release },
            _ => Phase::Release,
        }
    }
}

impl Phase {
    /// The level step of one tick in this phase.
    pub fn level_step(self, note_on: bool) -> (step: LevelStep)
        ensures
            step == step_of(self, note_on),
    {
        if note_on {
            match self {
                Phase::Attack => LevelStep::Rise,
                Phase::Decay => LevelStep::Fall,
                Phase::Sustain => LevelStep::Hold,
                Phase::Release | Phase::Finished => LevelStep::Restart,
            }
        } else {
            match self {
                Phase::Finished => LevelStep::Hold,
                Phase::Release => LevelStep::Fade,
                _ => LevelStep::Hold,
            }
        }
    }

    /// The phase that follows one tick in this phase.
    pub fn after_tick(self, note_on: bool, past_bound: bool) -> (next: Phase)
        ensures
            next == phase_after(self, note_on, past_bound),
    {
        if note_on {
            match self {
                Phase::Attack => if past_bound { Phase::Decay } else { Phase::Attack },
                Phase::Decay => if past_bound { Phase::Sustain } else { Phase::Decay },
                Phase::Sustain => Phase::Sustain,
                Phase::Release | Phase::Finished => Phase::Attack,
            }
        } else {
            match self {
                Phase::Finished => Phase::Finished,
                Phase::Release => if past_bound { Phase::Finished } else { Phase::Release },
                _ => Phase::Release,
            }
        }
    }
}


/// The place of a phase in the order Attack, Decay, Sustain, Release, Finished.
pub open spec fn rank(phase: Phase) -> int {
    match phase {
        Phase::Attack => 0,
        Phase::Decay => 1,
        Phase::Sustain => 2,
        Phase::Release => 3,
        Phase::Finished => 4,
    }
}

/// Whether `phase` is one of the phases of a held key: Attack, Decay or Sustain.
pub open spec fn is_held_phase(phase: Phase) -> bool {
    rank(phase) <= 2
}

/// The phase after a run of ticks with the key held (`note_on`) or released all
/// through, where `crossings[i]` tells whether the level passed its bound on
/// tick `i`.
pub open spec fn phase_after_ticks(phase: Phase, note_on: bool, crossings: Seq<bool>) -> Phase
    decreases crossings.len(),
{
    if crossings.len() == 0 {
        phase
    } else {
        phase_after(
            phase_after_ticks(phase, note_on, crossings.drop_last()),
            note_on,
            crossings.last(),
        )
    }
}

/// While the key is held, an envelope in Attack, Decay or Sustain stays in one
/// of them and never goes back: its phase only moves forward, one step at a
/// time, and only when the level passes its bound.
pub proof fn lemma_held_key_moves_forward(phase: Phase, past_bound: bool)
    requires
        is_held_phase(phase),
    ensures
        is_held_phase(phase_after(phase, true, past_bound)),
        rank(phase) <= rank(phase_after(phase, true, past_bound)) <= rank(phase) + 1,
        !past_bound ==> phase_after(phase, true, past_bound) == phase,
{
}

/// Once the key is released the envelope is in Release or Finished after the
/// next tick, and its level never rises or restarts.
pub proof fn lemma_released_key_releases(phase: Phase, past_bound: bool)
    ensures
        phase_after(phase, false, past_bound) == Phase::Release
            || phase_after(phase, false, past_bound) == Phase::Finished,
        is_held_phase(phase) ==> phase_after(phase, false, past_bound) == Phase::Release,
        step_of(phase, false) == LevelStep::Hold || step_of(phase, false) == LevelStep::Fade,
        rank(phase) >= 3 ==> rank(phase) <= rank(phase_after(phase, false, past_bound)),
{
}

/// Pressing a key on a releasing or finished envelope restarts it: the level
/// goes to 0 and the phase back to Attack.
pub proof fn lemma_retrigger(phase: Phase, past_bound: bool)
    requires
        phase == Phase::Release || phase == Phase::Finished,
    ensures
        step_of(phase, true) == LevelStep::Restart,
        phase_after(phase, true, past_bound) == Phase::Attack,
{
}

/// Sustain with the key held and Finished with the key released are resting
/// states: the level is held and the phase stays.
pub proof fn lemma_resting_phases(past_bound: bool)
    ensures
        step_of(Phase::Sustain, true) == LevelStep::Hold,
        phase_after(Phase::Sustain, true, past_bound) == Phase::Sustain,
        step_of(Phase::Finished, false) == LevelStep::Hold,
        phase_after(Phase::Finished, false, past_bound) == Phase::Finished,
{
}

/// Over any run of ticks with the key held, an envelope that starts in Attack,
/// Decay or Sustain stays among them and never moves backwards.
pub proof fn lemma_held_run(phase: Phase, crossings: Seq<bool>)
    requires
        is_held_phase(phase),
    ensures
        is_held_phase(phase_after_ticks(phase, true, crossings)),
        rank(phase) <= rank(phase_after_ticks(phase, true, crossings)),
    decreases crossings.len(),
{
    if crossings.len() > 0 {
        lemma_held_run(phase, crossings.drop_last());
        lemma_held_key_moves_forward(
            phase_after_ticks(phase, true, crossings.drop_last()),
            crossings.last(),
        );
    }
}

/// Over any non-empty run of ticks with the key released, the envelope ends in
/// Release or Finished, and once Finished it stays Finished.
pub proof fn lemma_released_run(phase: Phase, crossings: Seq<bool>)
    requires
        crossings.len() > 0,
    ensures
        rank(phase_after_ticks(phase, false, crossings)) >= 3,
        phase == Phase::Finished ==> phase_after_ticks(phase, false, crossings) == Phase::Finished,
    decreases crossings.len(),
{
    if crossings.len() > 1 {
        lemma_released_run(phase, crossings.drop_last());
    } else {
        assert(phase_after_ticks(phase, false, crossings.drop_last()) == phase);
    }
}


/// Releasing the key moves every held phase (Attack, Decay, Sustain) to
/// Release on the next tick, whether or not the level passed a bound, with the
/// level held there; a releasing envelope fades, and only once its level passes
/// 0 does it finish; a finished envelope stays finished with its level held.
pub proof fn lemma_release_transitions(phase: Phase, past_bound: bool)
    ensures
        is_held_phase(phase) ==> phase_after(phase, false, past_bound) == Phase::Release,
        is_held_phase(phase) ==> step_of(phase, false) == LevelStep::Hold,
        phase == Phase::Release ==> step_of(phase, false) == LevelStep::Fade,
        phase == Phase::Release && !past_bound ==> phase_after(phase, false, past_bound)
            == Phase::Release,
        phase == Phase::Release && past_bound ==> phase_after(phase, false, past_bound)
            == Phase::Finished,
        phase == Phase::Finished ==> phase_after(phase, false, past_bound) == Phase::Finished,
        phase == Phase::Finished ==> step_of(phase, false) == LevelStep::Hold,
        phase_after(phase, false, past_bound) == Phase::Finished <==> (phase == Phase::Finished
            || (phase == Phase::Release && past_bound)),
{
}

/// With the key held, the level rises in Attack, falls in Decay, is held in
/// Sustain and restarts from a released or finished envelope; Attack gives
/// way to Decay and Decay to Sustain exactly when the level passes its bound,
/// and a released or finished envelope goes back to Attack.
pub proof fn lemma_held_transitions(phase: Phase, past_bound: bool)
    ensures
        step_of(phase, true) == LevelStep::Rise <==> phase == Phase::Attack,
        step_of(phase, true) == LevelStep::Fall <==> phase == Phase::Decay,
        step_of(phase, true) == LevelStep::Hold <==> phase == Phase::Sustain,
        step_of(phase, true) == LevelStep::Restart <==> rank(phase) >= 3,
        step_of(phase, true) != LevelStep::Fade,
        phase_after(phase, true, past_bound) == Phase::Attack <==> ((phase == Phase::Attack
            && !past_bound) || rank(phase) >= 3),
        phase_after(phase, true, past_bound) == Phase::Decay <==> ((phase == Phase::Attack
            && past_bound) || (phase == Phase::Decay && !past_bound)),
        phase_after(phase, true, past_bound) == Phase::Sustain <==> ((phase == Phase::Decay
            && past_bound) || phase == Phase::Sustain),
        rank(phase_after(phase, true, past_bound)) <= 2,
{
}

} // verus!
