use synth::voices::VoiceManager;

#[test]
fn new_manager_has_all_voices() {
    let manager = VoiceManager::new(vec![10u32, 20, 30]);
    assert_eq!(manager.len(), 3);
    assert_eq!(*manager.voice(0), 10);
    assert_eq!(*manager.voice(2), 30);
}

#[test]
fn notes_go_round_robin() {
    let mut manager = VoiceManager::new(vec![0u32; 4]);
    for note in 1..=10u32 {
        *manager.note_on() = note;
    }
    // Notes 1..=10 went to voices 0,1,2,3,0,1,2,3,0,1.
    assert_eq!(*manager.voice(0), 9);
    assert_eq!(*manager.voice(1), 10);
    assert_eq!(*manager.voice(2), 7);
    assert_eq!(*manager.voice(3), 8);
}

#[test]
fn a_round_gives_every_voice_one_note() {
    let count = 8;
    let mut manager = VoiceManager::new(vec![0u32; count]);
    *manager.note_on() = 100;
    *manager.note_on() = 100;
    for _ in 0..count {
        *manager.note_on() += 1;
    }
    for i in 0..count {
        let expected = if i < 2 { 101 } else { 1 };
        assert_eq!(*manager.voice(i), expected);
    }
}

#[test]
fn single_voice_takes_every_note() {
    let mut manager = VoiceManager::new(vec![String::new()]);
    manager.note_on().push('a');
    manager.note_on().push('b');
    assert_eq!(manager.voice(0).as_str(), "ab");
}

#[test]
fn voice_mut_changes_one_voice_and_keeps_the_turn() {
    let mut manager = VoiceManager::new(vec![1u8, 2, 3]);
    *manager.note_on() = 7;
    *manager.voice_mut(2) = 9;
    *manager.note_on() = 8;
    assert_eq!(*manager.voice(0), 7);
    assert_eq!(*manager.voice(1), 8);
    assert_eq!(*manager.voice(2), 9);
}

#[test]
fn empty_manager() {
    let manager: VoiceManager<u8> = VoiceManager::new(vec![]);
    assert_eq!(manager.len(), 0);
}

#[test]
fn each_voice_holds_its_latest_note() {
    let count = 4;
    let mut manager = VoiceManager::new(vec![0u32; count]);
    let notes = 11u32;
    for note in 1..=notes {
        *manager.note_on() = note;
    }
    // Note m (from 1) went to voice (m - 1) % 4; each voice holds the latest.
    for voice in 0..count {
        let latest = (1..=notes).filter(|m| (*m as usize - 1) % count == voice).max().unwrap();
        assert_eq!(*manager.voice(voice), latest);
    }
    // The next note goes to voice 11 % 4.
    *manager.note_on() = 99;
    assert_eq!(*manager.voice(11 % count), 99);
}
