//! Reading live MIDI messages and deciding which note each one starts or stops.
//!
//! The bytes of a message are parsed by `midly`; this module keeps, of the
//! parsed event, what the synthesizer acts on.

use vstd::prelude::*;
use midly::live::LiveEvent;
use midly::MidiMessage;

verus! {

/// A channel message, as far as the synthesizer looks into it.
#[derive(Clone, Copy, Debug, PartialEq, Eq, Structural)]
pub enum ChannelMessage {
    /// A key is pressed (status `0x9n`): the key and the velocity.
    NoteOn(u8, u8),
    /// A key is released (status `0x8n`): the key and the velocity.
    NoteOff(u8, u8),
    /// A controller changes (status `0xBn`): the controller and its new value.
    Controller(u8, u8),
    /// Aftertouch, program change or pitch bend.
    Other,
}

/// A live MIDI message.
#[derive(Clone, Copy, Debug, PartialEq, Eq, Structural)]
pub enum MidiEvent {
    /// A channel message (status `0x80..=0xEF`): the channel and the message.
    Channel(u8, ChannelMessage),
    /// A system common message, system exclusive included (status `0xF0..=0xF6`).
    Common,
    /// A system realtime message (status `0xF8..=0xFF`).
    Realtime,
}

/// Why the bytes do not form a live MIDI message; each reason is one of the
/// errors that `midly` gives.
#[derive(Clone, Copy, Debug, PartialEq, Eq, Structural)]
pub enum InvalidMidi {
    /// There are no bytes ("no status byte").
    NoStatusByte,
    /// A channel message lacks data bytes, or one of them has the top bit set
    /// ("truncated midi message").
    TruncatedMessage,
    /// The first byte is below `0x80` or is `0xF7` ("invalid status byte").
    InvalidStatusByte,
}

/// What a MIDI message asks of the voices.
#[derive(Clone, Copy, Debug, PartialEq, Eq, Structural)]
pub enum NoteAction {
    /// Start playing `key` with `velocity`, which is never 0.
    Play { key: u8, velocity: u8 },
    /// Stop playing `key`.
    Stop { key: u8 },
    /// Nothing to play or stop.
    Nothing,
}

/// The number of data bytes that follow the status byte of a channel message:
/// one for program change (`0xCn`) and channel aftertouch (`0xDn`), two for the
/// others.
pub open spec fn data_byte_count(status: u8) -> int {
    if status / 16 == 12 || status / 16 == 13 { 1 } else { 2 }
}

/// A data byte has its top bit clear.
pub open spec fn is_data_byte(byte: u8) -> bool {
    byte < 128
}

/// The event that the bytes `raw` of a live message stand for, or `None` where
/// they stand for none: no bytes, a first byte that is no status byte (below
/// `0x80`) or is the end-of-exclusive byte `0xF7`, or a channel message whose
/// data bytes are missing or have the top bit set.
/// Bytes past those that a channel message needs are ignored.
pub open spec fn parsed_event(raw: Seq<u8>) -> Option<MidiEvent> {
    if raw.len() == 0 {
        None
    } else if 0x80 <= raw[0] < 0xF0 {
        let status = raw[0];
        let count = data_byte_count(status);
        if raw.len() < 1 + count || !(forall|i: int| 1 <= i <= count ==> is_data_byte(#[trigger] raw[i])) {
            None
        } else {
            let message = if status / 16 == 8 {
                ChannelMessage::NoteOff(raw[1], raw[2])
            } else if status / 16 == 9 {
                ChannelMessage::NoteOn(raw[1], raw[2])
            } else if status / 16 == 11 {
                ChannelMessage::Controller(raw[1], raw[2])
            } else {
                ChannelMessage::Other
            };
            Some(MidiEvent::Channel((status % 16) as u8, message))
        }
    } else if 0xF0 <= raw[0] <= 0xF6 {
        Some(MidiEvent::Common)
    } else if raw[0] >= 0xF8 {
        Some(MidiEvent::Realtime)
    } else {
        None
    }
}

/// Why `raw` stands for no event, where it stands for none.
pub open spec fn parse_failure(raw: Seq<u8>) -> InvalidMidi {
    if raw.len() == 0 {
        InvalidMidi::NoStatusByte
    } else if 0x80 <= raw[0] < 0xF0 {
        InvalidMidi::TruncatedMessage
    } else {
        InvalidMidi::InvalidStatusByte
    }
}

/// The action that `event` asks for. By the MIDI convention a note-on with
/// velocity 0 releases the key.
pub open spec fn action_for(event: MidiEvent) -> NoteAction {
    match event {
        MidiEvent::Channel(_, ChannelMessage::NoteOn(key, velocity)) => if velocity == 0 {
            NoteAction::Stop { key }
        } else {
            NoteAction::Play { key, velocity }
        },
        MidiEvent::Channel(_, ChannelMessage::NoteOff(key, _)) => NoteAction::Stop { key },
        _ => NoteAction::Nothing,
    }
}

#[verifier::external_type_specification]
#[verifier::external_body]
pub struct ExMidlyError(midly::Error);

/// Calls `midly::live::LiveEvent::parse` on `raw` and keeps of the event what
/// `MidiEvent` holds. The contract states what the source of `midly` 0.5.3
/// shows `parse` to do: read the status byte, take the data bytes up to the
/// first one with the top bit set, and fail where a channel message lacks its
/// data bytes or the first byte is missing, below `0x80` or `0xF7`.
#[verifier::external_body]
fn live_event_parse(raw: &[u8]) -> (parsed: Result<MidiEvent, midly::Error>)
    ensures
        parsed is Ok <==> parsed_event(raw@) is Some,
        parsed matches Ok(event) ==> parsed_event(raw@) == Some(event),
{
    match LiveEvent::parse(raw) {
        Ok(LiveEvent::Midi { channel, message }) => Ok(MidiEvent::Channel(channel.as_int(), match message {
            MidiMessage::NoteOn { key, vel } => ChannelMessage::NoteOn(key.as_int(), vel.as_int()),
            MidiMessage::NoteOff { key, vel } => ChannelMessage::NoteOff(key.as_int(), vel.as_int()),
            MidiMessage::Controller { controller: c, value: v } => ChannelMessage::Controller(c.as_int(), v.as_int()),
            _ => ChannelMessage::Other,
        })),
        Ok(LiveEvent::Common(_)) => Ok(MidiEvent::Common),
        Ok(LiveEvent::Realtime(_)) => Ok(MidiEvent::Realtime),
        Err(e) => Err(e),
    }
}

/// Parses the bytes of a live MIDI message; where they form none, the error
/// says why.
pub fn parse_midi_message(raw: &[u8]) -> (parsed: Result<MidiEvent, InvalidMidi>)
    ensures
        parsed == match parsed_event(raw@) {
            Some(event) => Ok::<MidiEvent, InvalidMidi>(event),
            None => Err(parse_failure(raw@)),
        },
{
    match live_event_parse(raw) {
        Ok(event) => Ok(event),
        Err(_) => if raw.len() == 0 {
            Err(InvalidMidi::NoStatusByte)
        } else if 0x80 <= raw[0] && raw[0] < 0xF0 {
            Err(InvalidMidi::TruncatedMessage)
        } else {
            Err(InvalidMidi::InvalidStatusByte)
        },
    }
}

/// Which note, if any, `event` starts or stops.
pub fn note_action(event: &MidiEvent) -> (action: NoteAction)
    ensures
        action == action_for(*event),
        action matches NoteAction::Play { velocity, .. } ==> velocity != 0,
{
    match *event {
        MidiEvent::Channel(_, ChannelMessage::NoteOn(key, velocity)) => if velocity == 0 {
            NoteAction::Stop { key }
        } else {
            NoteAction::Play { key, velocity }
        },
        MidiEvent::Channel(_, ChannelMessage::NoteOff(key, _)) => NoteAction::Stop { key },
        _ => NoteAction::Nothing,
    }
}


/// A note-on with velocity 0 releases its key, exactly as a note-off of the
/// same key does, whatever the channel or the release velocity; and no action
/// depends on the channel.
pub proof fn lemma_silent_note_on_is_note_off(channel: u8, other_channel: u8, key: u8, velocity: u8)
    ensures
        action_for(MidiEvent::Channel(channel, ChannelMessage::NoteOn(key, 0))) == action_for(
            MidiEvent::Channel(other_channel, ChannelMessage::NoteOff(key, velocity)),
        ),
        action_for(MidiEvent::Channel(channel, ChannelMessage::NoteOn(key, 0))) == (NoteAction::Stop { key }),
        action_for(MidiEvent::Channel(channel, ChannelMessage::NoteOn(key, velocity))) == action_for(
            MidiEvent::Channel(other_channel, ChannelMessage::NoteOn(key, velocity)),
        ),
{
}

/// The note that a message plays or stops is the byte that follows its status
/// byte, a MIDI key below 128; a note is played with the velocity of the byte
/// after it, between 1 and 127; and only note-on and note-off messages play or
/// stop notes.
pub proof fn lemma_action_reads_message_bytes(raw: Seq<u8>)
    requires
        parsed_event(raw) is Some,
    ensures
        match action_for(parsed_event(raw)->0) {
            NoteAction::Play { key, velocity } => {
                &&& raw.len() >= 3
                &&& raw[0] / 16 == 9
                &&& key == raw[1] && key < 128
                &&& velocity == raw[2] && 1 <= velocity < 128
            },
            NoteAction::Stop { key } => {
                &&& raw.len() >= 3
                &&& (raw[0] / 16 == 8 || (raw[0] / 16 == 9 && raw[2] == 0))
                &&& key == raw[1] && key < 128
            },
            NoteAction::Nothing => raw[0] / 16 != 8 && raw[0] / 16 != 9,
        },
{
    let status = raw[0];
    if 0x80 <= status < 0xF0 {
        assert(is_data_byte(raw[1]));
        if data_byte_count(status) == 2 {
            assert(is_data_byte(raw[2]));
        }
    }
}


/// Every channel message that parses is read from a status byte in
/// `0x80..=0xEF`, and its channel is the low nibble of that byte, for all
/// sixteen channels.
pub proof fn lemma_channel_is_low_nibble(raw: Seq<u8>)
    ensures
        parsed_event(raw) matches Some(MidiEvent::Channel(channel, _)) ==> {
            &&& raw.len() >= 2
            &&& 0x80 <= raw[0] <= 0xEF
            &&& channel < 16
            &&& raw[0] == (raw[0] / 16) * 16 + channel
        },
{
}

/// A note-on `0x9n key velocity`, with data bytes below 128 and whatever
/// follows, parses as a note-on of `key` with `velocity` on channel `n`.
pub proof fn lemma_note_on_parses(status: u8, key: u8, velocity: u8, rest: Seq<u8>)
    requires
        0x90 <= status <= 0x9F,
        key < 128,
        velocity < 128,
    ensures
        parsed_event(seq![status, key, velocity] + rest) == Some(
            MidiEvent::Channel((status - 0x90) as u8, ChannelMessage::NoteOn(key, velocity)),
        ),
{
    let raw = seq![status, key, velocity] + rest;
    assert(raw[0] == status && raw[1] == key && raw[2] == velocity);
}

/// A note-off `0x8n key velocity`, with data bytes below 128 and whatever
/// follows, parses as a note-off of `key` with `velocity` on channel `n`.
pub proof fn lemma_note_off_parses(status: u8, key: u8, velocity: u8, rest: Seq<u8>)
    requires
        0x80 <= status <= 0x8F,
        key < 128,
        velocity < 128,
    ensures
        parsed_event(seq![status, key, velocity] + rest) == Some(
            MidiEvent::Channel((status - 0x80) as u8, ChannelMessage::NoteOff(key, velocity)),
        ),
{
    let raw = seq![status, key, velocity] + rest;
    assert(raw[0] == status && raw[1] == key && raw[2] == velocity);
}

/// A control change `0xBn controller value`, with data bytes below 128 and
/// whatever follows, parses as a change of `controller` to `value` on channel
/// `n`, for every controller.
pub proof fn lemma_control_change_parses(status: u8, controller: u8, value: u8, rest: Seq<u8>)
    requires
        0xB0 <= status <= 0xBF,
        controller < 128,
        value < 128,
    ensures
        parsed_event(seq![status, controller, value] + rest) == Some(
            MidiEvent::Channel((status - 0xB0) as u8, ChannelMessage::Controller(controller, value)),
        ),
{
    let raw = seq![status, controller, value] + rest;
    assert(raw[0] == status && raw[1] == controller && raw[2] == value);
}

/// Polyphonic aftertouch (`0xAn`) and pitch bend (`0xEn`) with two data bytes,
/// and program change (`0xCn`) and channel aftertouch (`0xDn`) with one, parse
/// as another message on channel `n`.
pub proof fn lemma_other_channel_messages_parse(status: u8, first: u8, second: u8, rest: Seq<u8>)
    requires
        0xA0 <= status <= 0xAF || 0xC0 <= status <= 0xEF,
        first < 128,
        second < 128,
    ensures
        parsed_event(seq![status, first, second] + rest) == Some(
            MidiEvent::Channel((status % 16) as u8, ChannelMessage::Other),
        ),
        0xC0 <= status <= 0xDF ==> parsed_event(seq![status, first] + rest) == Some(
            MidiEvent::Channel((status % 16) as u8, ChannelMessage::Other),
        ),
{
    let raw = seq![status, first, second] + rest;
    assert(raw[0] == status && raw[1] == first && raw[2] == second);
    let short = seq![status, first] + rest;
    assert(short[0] == status && short[1] == first);
}

/// The fields of a parsed note or control change are the bytes that follow
/// the status byte, in order, and the kind of message is the high nibble of
/// the status byte.
pub proof fn lemma_parsed_fields_are_bytes(raw: Seq<u8>)
    ensures
        parsed_event(raw) matches Some(MidiEvent::Channel(_, ChannelMessage::NoteOn(key, velocity)))
            ==> 0x90 <= raw[0] <= 0x9F && raw.len() >= 3 && key == raw[1] && velocity == raw[2]
            && key < 128 && velocity < 128,
        parsed_event(raw) matches Some(MidiEvent::Channel(_, ChannelMessage::NoteOff(key, velocity)))
            ==> 0x80 <= raw[0] <= 0x8F && raw.len() >= 3 && key == raw[1] && velocity == raw[2]
            && key < 128 && velocity < 128,
        parsed_event(raw) matches Some(MidiEvent::Channel(_, ChannelMessage::Controller(c, v)))
            ==> 0xB0 <= raw[0] <= 0xBF && raw.len() >= 3 && c == raw[1] && v == raw[2] && c < 128
            && v < 128,
        parsed_event(raw) matches Some(MidiEvent::Common) ==> 0xF0 <= raw[0] <= 0xF6,
        parsed_event(raw) matches Some(MidiEvent::Realtime) ==> raw[0] >= 0xF8,
{
    if raw.len() >= 3 && 0x80 <= raw[0] < 0xF0 && data_byte_count(raw[0]) == 2 {
        assert(is_data_byte(raw[1]) || parsed_event(raw) is None);
        assert(is_data_byte(raw[2]) || parsed_event(raw) is None);
    }
}


/// A system common status byte (`0xF0..=0xF6`) parses as a common message and
/// a realtime one (`0xF8..=0xFF`) as a realtime message, whatever follows.
pub proof fn lemma_system_messages_parse(status: u8, rest: Seq<u8>)
    ensures
        0xF0 <= status <= 0xF6 ==> parsed_event(seq![status] + rest) == Some(MidiEvent::Common),
        status >= 0xF8 ==> parsed_event(seq![status] + rest) == Some(MidiEvent::Realtime),
{
    assert((seq![status] + rest)[0] == status);
}

/// The bytes form no message, and the error says why, exactly where there are
/// none, where the first is no status byte or is `0xF7`, or where a channel
/// message lacks a data byte it needs or has one with the top bit set.
pub proof fn lemma_parse_failures(raw: Seq<u8>)
    ensures
        raw.len() == 0 ==> parsed_event(raw) is None && parse_failure(raw)
            == InvalidMidi::NoStatusByte,
        raw.len() > 0 && (raw[0] < 0x80 || raw[0] == 0xF7) ==> parsed_event(raw) is None
            && parse_failure(raw) == InvalidMidi::InvalidStatusByte,
        raw.len() > 0 && 0x80 <= raw[0] <= 0xEF && (raw.len() < 2 || raw[1] >= 128)
            ==> parsed_event(raw) is None && parse_failure(raw) == InvalidMidi::TruncatedMessage,
        raw.len() > 0 && (0x80 <= raw[0] <= 0xBF || 0xE0 <= raw[0] <= 0xEF) && (raw.len() < 3
            || raw[2] >= 128) ==> parsed_event(raw) is None && parse_failure(raw)
            == InvalidMidi::TruncatedMessage,
        raw.len() > 0 && 0xF0 <= raw[0] <= 0xF6 ==> parsed_event(raw) is Some,
        raw.len() > 0 && raw[0] >= 0xF8 ==> parsed_event(raw) is Some,
{
    if raw.len() > 0 && 0x80 <= raw[0] <= 0xEF {
        if raw.len() >= 2 && raw[1] >= 128 {
            assert(!is_data_byte(raw[1]));
        }
        if raw.len() >= 3 && raw[2] >= 128 {
            assert(!is_data_byte(raw[2]));
        }
    }
}

} // verus!
