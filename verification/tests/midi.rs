use synth::midi::{note_action, parse_midi_message, ChannelMessage, InvalidMidi, MidiEvent, NoteAction};

#[test]
fn note_on_is_parsed() {
    assert_eq!(
        parse_midi_message(&[0x90, 60, 100]),
        Ok(MidiEvent::Channel(0, ChannelMessage::NoteOn(60, 100)))
    );
    assert_eq!(
        parse_midi_message(&[0x9F, 0, 127]),
        Ok(MidiEvent::Channel(15, ChannelMessage::NoteOn(0, 127)))
    );
}

#[test]
fn note_off_and_controller_are_parsed() {
    assert_eq!(
        parse_midi_message(&[0x83, 64, 40]),
        Ok(MidiEvent::Channel(3, ChannelMessage::NoteOff(64, 40)))
    );
    assert_eq!(
        parse_midi_message(&[0xB1, 7, 99]),
        Ok(MidiEvent::Channel(1, ChannelMessage::Controller(7, 99)))
    );
}

#[test]
fn other_channel_messages_are_parsed() {
    assert_eq!(parse_midi_message(&[0xA2, 60, 1]), Ok(MidiEvent::Channel(2, ChannelMessage::Other)));
    assert_eq!(parse_midi_message(&[0xC4, 5]), Ok(MidiEvent::Channel(4, ChannelMessage::Other)));
    assert_eq!(parse_midi_message(&[0xD0, 5]), Ok(MidiEvent::Channel(0, ChannelMessage::Other)));
    assert_eq!(parse_midi_message(&[0xE0, 0, 64]), Ok(MidiEvent::Channel(0, ChannelMessage::Other)));
}

#[test]
fn extra_bytes_are_ignored() {
    assert_eq!(
        parse_midi_message(&[0x90, 60, 100, 1, 2]),
        Ok(MidiEvent::Channel(0, ChannelMessage::NoteOn(60, 100)))
    );
    assert_eq!(parse_midi_message(&[0xC0, 5, 0xFF]), Ok(MidiEvent::Channel(0, ChannelMessage::Other)));
}

#[test]
fn system_messages_are_parsed() {
    assert_eq!(parse_midi_message(&[0xF8]), Ok(MidiEvent::Realtime));
    assert_eq!(parse_midi_message(&[0xFF, 1]), Ok(MidiEvent::Realtime));
    assert_eq!(parse_midi_message(&[0xF0, 1, 2, 0xF7]), Ok(MidiEvent::Common));
    assert_eq!(parse_midi_message(&[0xF6]), Ok(MidiEvent::Common));
    assert_eq!(parse_midi_message(&[0xF2, 1]), Ok(MidiEvent::Common));
}

#[test]
fn invalid_messages_are_refused() {
    assert_eq!(parse_midi_message(&[]), Err(InvalidMidi::NoStatusByte));
    assert_eq!(parse_midi_message(&[0x90, 60]), Err(InvalidMidi::TruncatedMessage));
    assert_eq!(parse_midi_message(&[0x90]), Err(InvalidMidi::TruncatedMessage));
    assert_eq!(parse_midi_message(&[0x90, 0x80, 1]), Err(InvalidMidi::TruncatedMessage));
    assert_eq!(parse_midi_message(&[0x90, 60, 0x90]), Err(InvalidMidi::TruncatedMessage));
    assert_eq!(parse_midi_message(&[0xC0]), Err(InvalidMidi::TruncatedMessage));
    assert_eq!(parse_midi_message(&[0xF7]), Err(InvalidMidi::InvalidStatusByte));
    assert_eq!(parse_midi_message(&[0xF4, 0xF5]), Ok(MidiEvent::Common));
}

#[test]
fn data_byte_first_is_refused() {
    assert_eq!(parse_midi_message(&[60, 100, 1]), Err(InvalidMidi::InvalidStatusByte));
    assert_eq!(parse_midi_message(&[0x00]), Err(InvalidMidi::InvalidStatusByte));
    assert_eq!(parse_midi_message(&[0x7F, 1, 2]), Err(InvalidMidi::InvalidStatusByte));
}

fn midly_message(error: InvalidMidi) -> &'static str {
    match error {
        InvalidMidi::NoStatusByte => "no status byte",
        InvalidMidi::TruncatedMessage => "truncated midi message",
        InvalidMidi::InvalidStatusByte => "invalid status byte",
    }
}

#[test]
fn errors_match_midly() {
    let inputs: [&[u8]; 9] = [
        &[],
        &[0x90],
        &[0x90, 60],
        &[0xC0],
        &[0xE0, 0x80, 0],
        &[0xF7],
        &[0x00, 1, 2],
        &[0x7F],
        &[0xB0, 7, 0xFF],
    ];
    for raw in inputs {
        let ours = parse_midi_message(raw).unwrap_err();
        let theirs = midly::live::LiveEvent::parse(raw).unwrap_err();
        assert_eq!(midly_message(ours), theirs.kind().message(), "bytes {:?}", raw);
    }
}

#[test]
fn actions() {
    let play = MidiEvent::Channel(0, ChannelMessage::NoteOn(60, 100));
    assert_eq!(note_action(&play), NoteAction::Play { key: 60, velocity: 100 });
    let silent = MidiEvent::Channel(5, ChannelMessage::NoteOn(61, 0));
    assert_eq!(note_action(&silent), NoteAction::Stop { key: 61 });
    let off = MidiEvent::Channel(9, ChannelMessage::NoteOff(62, 64));
    assert_eq!(note_action(&off), NoteAction::Stop { key: 62 });
    let control = MidiEvent::Channel(0, ChannelMessage::Controller(7, 100));
    assert_eq!(note_action(&control), NoteAction::Nothing);
    assert_eq!(note_action(&MidiEvent::Channel(0, ChannelMessage::Other)), NoteAction::Nothing);
    assert_eq!(note_action(&MidiEvent::Common), NoteAction::Nothing);
    assert_eq!(note_action(&MidiEvent::Realtime), NoteAction::Nothing);
}

#[test]
fn silent_note_on_is_note_off() {
    let silent = parse_midi_message(&[0x90, 70, 0]).unwrap();
    let off = parse_midi_message(&[0x82, 70, 33]).unwrap();
    assert_eq!(note_action(&silent), note_action(&off));
    assert_eq!(note_action(&silent), NoteAction::Stop { key: 70 });
}

#[test]
fn action_key_is_second_byte() {
    for raw in [[0x90u8, 21, 1], [0x9A, 108, 127], [0x80, 33, 0]] {
        match note_action(&parse_midi_message(&raw).unwrap()) {
            NoteAction::Play { key, velocity } => {
                assert_eq!(key, raw[1]);
                assert_eq!(velocity, raw[2]);
            }
            NoteAction::Stop { key } => assert_eq!(key, raw[1]),
            NoteAction::Nothing => panic!("a note message did nothing"),
        }
    }
}
