//! The MIDI dispatcher: turns a final action into the bytes that go out at
//! once and, for a timed note, the bytes that follow after a delay.

use vstd::prelude::*;
use crate::midi_handler::{MidiAction, MidiActionType};

verus! {

/// Status nibble of a Note Off message.
pub const STATUS_NOTE_OFF: u8 = 0x80;

/// Status nibble of a Note On message.
pub const STATUS_NOTE_ON: u8 = 0x90;

/// Status nibble of a Control Change message.
pub const STATUS_CONTROL_CHANGE: u8 = 0xB0;

/// Status nibble of a Program Change message.
pub const STATUS_PROGRAM_CHANGE: u8 = 0xC0;

/// Largest value of a MIDI data byte.
pub const DATA_MAX: u8 = 127;

/// Note sent when an action names none.
pub const DEFAULT_NOTE: u8 = 60;

/// Velocity of a Note On when an action names none.
pub const DEFAULT_VELOCITY: u8 = 127;

/// Milliseconds between the two messages of a timed note when an action
/// names no duration.
pub const DEFAULT_DURATION_MS: u64 = 50;

/// The status byte of a channel message: the kind in the high nibble, the
/// low four bits of the channel in the low nibble.
pub open spec fn status_byte(kind: u8, channel: u8) -> u8 {
    kind | (channel & 0x0F)
}

/// A data byte: the given value, or `default` where there is none, cut
/// down to the seven bits a data byte may hold.
pub open spec fn data_byte(value: Option<u8>, default: u8) -> u8 {
    let v = match value {
        Some(v) => v,
        None => default,
    };
    if v > DATA_MAX {
        DATA_MAX
    } else {
        v
    }
}

/// The message that an action puts on the wire at once.
pub open spec fn immediate_bytes(action: MidiAction) -> Seq<u8> {
    match action.action_type {
        MidiActionType::NoteOn | MidiActionType::NoteOnOff => seq![
            status_byte(STATUS_NOTE_ON, action.channel),
            data_byte(action.note, DEFAULT_NOTE),
            data_byte(action.velocity, DEFAULT_VELOCITY),
        ],
        MidiActionType::NoteOff => seq![
            status_byte(STATUS_NOTE_OFF, action.channel),
            data_byte(action.note, DEFAULT_NOTE),
            data_byte(action.velocity, 0),
        ],
        MidiActionType::Cc => seq![
            status_byte(STATUS_CONTROL_CHANGE, action.channel),
            data_byte(action.control_num, 0),
            data_byte(action.value, 0),
        ],
        MidiActionType::ProgramChange => seq![
            status_byte(STATUS_PROGRAM_CHANGE, action.channel),
            data_byte(action.value, 0),
        ],
    }
}

/// The delay of the second message of a timed note.
pub open spec fn deferred_delay(action: MidiAction) -> u64 {
    match action.duration_ms {
        Some(d) => d,
        None => DEFAULT_DURATION_MS,
    }
}

/// The Note Off that ends a timed note: same channel and note as its Note
/// On, velocity zero.
pub open spec fn deferred_bytes(action: MidiAction) -> Seq<u8> {
    seq![
        status_byte(STATUS_NOTE_OFF, action.channel),
        data_byte(action.note, DEFAULT_NOTE),
        0u8,
    ]
}

/// A message to put on the wire once `delay_ms` milliseconds have passed.
#[derive(Clone, Debug, PartialEq, Eq)]
pub struct DeferredMessage {
    pub delay_ms: u64,
    pub bytes: Vec<u8>,
}

/// What one action asks of the output: a message now and, for a timed
/// note, a second one later.
#[derive(Clone, Debug, PartialEq, Eq)]
pub struct MidiDispatch {
    pub immediate: Vec<u8>,
    pub deferred: Option<DeferredMessage>,
}

/// A dispatch as plain data.
pub ghost struct DispatchView {
    pub immediate: Seq<u8>,
    pub deferred: Option<(u64, Seq<u8>)>,
}

impl View for MidiDispatch {
    type V = DispatchView;

    open spec fn view(&self) -> DispatchView {
        DispatchView {
            immediate: self.immediate@,
            deferred: match self.deferred {
                Some(d) => Some((d.delay_ms, d.bytes@)),
                None => None,
            },
        }
    }
}

/// The dispatch that an action calls for.
pub open spec fn dispatch_of(action: MidiAction) -> DispatchView {
    DispatchView {
        immediate: immediate_bytes(action),
        deferred: match action.action_type {
            MidiActionType::NoteOnOff => Some((deferred_delay(action), deferred_bytes(action))),
            _ => None,
        },
    }
}

/// True of a well-formed MIDI channel message: a status byte with the top
/// bit set, followed by data bytes with the top bit clear.
pub open spec fn is_channel_message(bytes: Seq<u8>) -> bool {
    &&& bytes.len() >= 1
    &&& bytes[0] >= 0x80
    &&& forall|i: int| 1 <= i < bytes.len() ==> bytes[i] <= DATA_MAX
}

/// Computes the status byte for a message kind and a channel.
pub fn make_status(kind: u8, channel: u8) -> (status: u8)
    ensures
        status == status_byte(kind, channel),
{
    kind | (channel & 0x0F)
}

/// Computes a data byte from an optional value and its default.
pub fn make_data(value: Option<u8>, default: u8) -> (byte: u8)
    ensures
        byte == data_byte(value, default),
        byte <= DATA_MAX,
{
    let v = match value {
        Some(v) => v,
        None => default,
    };
    if v > DATA_MAX {
        DATA_MAX
    } else {
        v
    }
}

/// Encodes an action: the message to send at once and, for a timed note,
/// the Note Off to send after its duration.
pub fn encode(action: &MidiAction) -> (dispatch: MidiDispatch)
    ensures
        dispatch@ == dispatch_of(*action),
{
    let channel = action.channel;
    match action.action_type {
        MidiActionType::NoteOn => {
            let mut bytes: Vec<u8> = Vec::new();
            bytes.push(make_status(STATUS_NOTE_ON, channel));
            bytes.push(make_data(action.note, DEFAULT_NOTE));
            bytes.push(make_data(action.velocity, DEFAULT_VELOCITY));
            assert(bytes@ =~= immediate_bytes(*action));
            MidiDispatch { immediate: bytes, deferred: None }
        },
        MidiActionType::NoteOff => {
            let mut bytes: Vec<u8> = Vec::new();
            bytes.push(make_status(STATUS_NOTE_OFF, channel));
            bytes.push(make_data(action.note, DEFAULT_NOTE));
            bytes.push(make_data(action.velocity, 0));
            assert(bytes@ =~= immediate_bytes(*action));
            MidiDispatch { immediate: bytes, deferred: None }
        },
        MidiActionType::NoteOnOff => {
            let note = make_data(action.note, DEFAULT_NOTE);
            let delay_ms = match action.duration_ms {
                Some(d) => d,
                None => DEFAULT_DURATION_MS,
            };
            let mut on: Vec<u8> = Vec::new();
            on.push(make_status(STATUS_NOTE_ON, channel));
            on.push(note);
            on.push(make_data(action.velocity, DEFAULT_VELOCITY));
            let mut off: Vec<u8> = Vec::new();
            off.push(make_status(STATUS_NOTE_OFF, channel));
            off.push(note);
            off.push(0);
            assert(on@ =~= immediate_bytes(*action));
            assert(off@ =~= deferred_bytes(*action));
            MidiDispatch { immediate: on, deferred: Some(DeferredMessage { delay_ms, bytes: off }) }
        },
        MidiActionType::Cc => {
            let mut bytes: Vec<u8> = Vec::new();
            bytes.push(make_status(STATUS_CONTROL_CHANGE, channel));
            bytes.push(make_data(action.control_num, 0));
            bytes.push(make_data(action.value, 0));
            assert(bytes@ =~= immediate_bytes(*action));
            MidiDispatch { immediate: bytes, deferred: None }
        },
        MidiActionType::ProgramChange => {
            let mut bytes: Vec<u8> = Vec::new();
            bytes.push(make_status(STATUS_PROGRAM_CHANGE, channel));
            bytes.push(make_data(action.value, 0));
            assert(bytes@ =~= immediate_bytes(*action));
            MidiDispatch { immediate: bytes, deferred: None }
        },
    }
}

/// The status byte keeps the kind in its high nibble and carries the
/// channel, taken modulo 16, in its low nibble.
pub proof fn lemma_status_byte(kind: u8, channel: u8)
    requires
        kind == STATUS_NOTE_OFF || kind == STATUS_NOTE_ON || kind == STATUS_CONTROL_CHANGE
            || kind == STATUS_PROGRAM_CHANGE,
    ensures
        status_byte(kind, channel) == kind + channel % 16,
        status_byte(kind, channel) >= 0x80,
{
    assert((kind == 0x80u8 || kind == 0x90u8 || kind == 0xB0u8 || kind == 0xC0u8) ==> (kind | (
    channel & 0x0F)) == kind + channel % 16) by (bit_vector);
}

/// A timed note sends its Note On at once and, after its duration or the
/// default of 50 ms, a Note Off for the same channel and note with
/// velocity zero.
pub proof fn lemma_timed_note(action: MidiAction)
    requires
        action.action_type == MidiActionType::NoteOnOff,
    ensures
        dispatch_of(action).immediate == seq![
            status_byte(STATUS_NOTE_ON, action.channel),
            data_byte(action.note, DEFAULT_NOTE),
            data_byte(action.velocity, DEFAULT_VELOCITY),
        ],
        dispatch_of(action).deferred == Some(
            (
                match action.duration_ms {
                    Some(d) => d,
                    None => 50u64,
                },
                seq![
                    status_byte(STATUS_NOTE_OFF, action.channel),
                    data_byte(action.note, DEFAULT_NOTE),
                    0u8,
                ],
            ),
        ),
        dispatch_of(action).deferred matches Some(later) && {
            &&& later.1[1] == dispatch_of(action).immediate[1]
            &&& later.1[0] % 16 == dispatch_of(action).immediate[0] % 16
        },
{
    lemma_status_byte(STATUS_NOTE_ON, action.channel);
    lemma_status_byte(STATUS_NOTE_OFF, action.channel);
}

/// Every message that an action produces, at once or deferred, is a
/// well-formed MIDI channel message, whatever the action holds.
pub proof fn lemma_dispatch_well_formed(action: MidiAction)
    ensures
        is_channel_message(dispatch_of(action).immediate),
        dispatch_of(action).deferred matches Some(later) ==> is_channel_message(later.1),
{
    lemma_status_byte(STATUS_NOTE_OFF, action.channel);
    lemma_status_byte(STATUS_NOTE_ON, action.channel);
    lemma_status_byte(STATUS_CONTROL_CHANGE, action.channel);
    lemma_status_byte(STATUS_PROGRAM_CHANGE, action.channel);
}

} // verus!
