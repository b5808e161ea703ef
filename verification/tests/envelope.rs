use synth::envelope::{LevelStep, Phase};

#[test]
fn held_key_steps() {
    assert_eq!(Phase::Attack.level_step(true), LevelStep::Rise);
    assert_eq!(Phase::Decay.level_step(true), LevelStep::Fall);
    assert_eq!(Phase::Sustain.level_step(true), LevelStep::Hold);
    assert_eq!(Phase::Release.level_step(true), LevelStep::Restart);
    assert_eq!(Phase::Finished.level_step(true), LevelStep::Restart);
}

#[test]
fn released_key_steps() {
    assert_eq!(Phase::Attack.level_step(false), LevelStep::Hold);
    assert_eq!(Phase::Decay.level_step(false), LevelStep::Hold);
    assert_eq!(Phase::Sustain.level_step(false), LevelStep::Hold);
    assert_eq!(Phase::Release.level_step(false), LevelStep::Fade);
    assert_eq!(Phase::Finished.level_step(false), LevelStep::Hold);
}

#[test]
fn held_key_phases_move_on_past_bound() {
    assert_eq!(Phase::Attack.after_tick(true, false), Phase::Attack);
    assert_eq!(Phase::Attack.after_tick(true, true), Phase::Decay);
    assert_eq!(Phase::Decay.after_tick(true, false), Phase::Decay);
    assert_eq!(Phase::Decay.after_tick(true, true), Phase::Sustain);
    assert_eq!(Phase::Sustain.after_tick(true, true), Phase::Sustain);
    assert_eq!(Phase::Sustain.after_tick(true, false), Phase::Sustain);
}

#[test]
fn retrigger_restarts_attack() {
    assert_eq!(Phase::Release.after_tick(true, false), Phase::Attack);
    assert_eq!(Phase::Release.after_tick(true, true), Phase::Attack);
    assert_eq!(Phase::Finished.after_tick(true, true), Phase::Attack);
}

#[test]
fn released_key_releases() {
    assert_eq!(Phase::Attack.after_tick(false, true), Phase::Release);
    assert_eq!(Phase::Decay.after_tick(false, false), Phase::Release);
    assert_eq!(Phase::Sustain.after_tick(false, false), Phase::Release);
    assert_eq!(Phase::Release.after_tick(false, false), Phase::Release);
    assert_eq!(Phase::Release.after_tick(false, true), Phase::Finished);
    assert_eq!(Phase::Finished.after_tick(false, false), Phase::Finished);
    assert_eq!(Phase::Finished.after_tick(false, true), Phase::Finished);
}

/// Drives a level through the phases the way the synthesizer does, with the
/// level kept in thousandths.
fn tick(phase: Phase, level: &mut i32, note_on: bool) -> Phase {
    let (attack, decay, sustain, release) = (300, 200, 500, 250);
    let mut past = false;
    match phase.level_step(note_on) {
        LevelStep::Rise => {
            *level += attack;
            past = *level > 1000;
            if past {
                *level = 1000;
            }
        }
        LevelStep::Fall => {
            *level -= decay;
            past = *level < sustain;
            if past {
                *level = sustain;
            }
        }
        LevelStep::Hold => {}
        LevelStep::Restart => *level = 0,
        LevelStep::Fade => {
            *level -= release;
            past = *level < 0;
            if past {
                *level = 0;
            }
        }
    }
    phase.after_tick(note_on, past)
}

#[test]
fn whole_envelope() {
    let mut level = 0;
    let mut phase = Phase::Attack;
    let mut seen = vec![];
    for _ in 0..8 {
        phase = tick(phase, &mut level, true);
        seen.push((phase, level));
    }
    assert_eq!(
        seen,
        vec![
            (Phase::Attack, 300),
            (Phase::Attack, 600),
            (Phase::Attack, 900),
            (Phase::Decay, 1000),
            (Phase::Decay, 800),
            (Phase::Decay, 600),
            (Phase::Sustain, 500),
            (Phase::Sustain, 500),
        ]
    );
    let mut seen = vec![];
    for _ in 0..5 {
        phase = tick(phase, &mut level, false);
        seen.push((phase, level));
    }
    assert_eq!(
        seen,
        vec![
            (Phase::Release, 500),
            (Phase::Release, 250),
            (Phase::Release, 0),
            (Phase::Finished, 0),
            (Phase::Finished, 0),
        ]
    );
    phase = tick(phase, &mut level, true);
    assert_eq!((phase, level), (Phase::Attack, 0));
}
