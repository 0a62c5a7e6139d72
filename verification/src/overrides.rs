//! Per-message overrides: the optional fields that a published payload may
//! carry as a JSON object, and how they combine with a configured action.

use vstd::prelude::*;
use crate::json::{json_is_null, json_member, json_text, json_unsigned, member, parse_json, parsed_json};
use crate::midi_handler::{kind_named, MidiAction, MidiActionType};

verus! {

/// What one member of an override document holds.
#[derive(Clone, Debug, PartialEq, Eq)]
pub enum Field {
    /// No such member, or `null`.
    Absent,
    /// A non-negative integer.
    Number(u64),
    /// A string.
    Text(String),
    /// Anything else: a negative or fractional number, a boolean, an array
    /// or an object.
    Other,
}

/// A field as plain data.
pub ghost enum FieldView {
    Absent,
    Number(u64),
    Text(Seq<char>),
    Other,
}

impl View for Field {
    type V = FieldView;

    open spec fn view(&self) -> FieldView {
        match self {
            Field::Absent => FieldView::Absent,
            Field::Number(n) => FieldView::Number(*n),
            Field::Text(t) => FieldView::Text(t@),
            Field::Other => FieldView::Other,
        }
    }
}

/// The overrides of one message. A field that is `None` leaves the
/// configured value in place.
#[derive(Clone, Copy, Debug, PartialEq, Eq)]
pub struct PayloadOverride {
    pub action_type: Option<MidiActionType>,
    pub ch: Option<u8>,
    pub note: Option<u8>,
    pub vel: Option<u8>,
    pub dur: Option<u64>,
    pub control_num: Option<u8>,
    pub value: Option<u8>,
}

/// The field that a looked-up member stands for.
pub open spec fn field_of(found: Option<serde_json::Value>) -> FieldView {
    match found {
        None => FieldView::Absent,
        Some(v) => if json_is_null(v) {
            FieldView::Absent
        } else if json_unsigned(v) is Some {
            FieldView::Number(json_unsigned(v)->0)
        } else if json_text(v) is Some {
            FieldView::Text(json_text(v)->0)
        } else {
            FieldView::Other
        },
    }
}

/// Whether a field can stand for an optional byte.
pub open spec fn fits_byte(field: FieldView) -> bool {
    match field {
        FieldView::Absent => true,
        FieldView::Number(n) => n <= u8::MAX,
        _ => false,
    }
}

/// The optional byte that a field stands for.
pub open spec fn byte_in(field: FieldView) -> Option<u8> {
    match field {
        FieldView::Number(n) => Some(n as u8),
        _ => None,
    }
}

/// Whether a field can stand for an optional duration.
pub open spec fn fits_duration(field: FieldView) -> bool {
    field is Absent || field is Number
}

/// The optional duration that a field stands for.
pub open spec fn duration_in(field: FieldView) -> Option<u64> {
    match field {
        FieldView::Number(n) => Some(n),
        _ => None,
    }
}

/// Whether a field can stand for an optional kind of action.
pub open spec fn fits_kind(field: FieldView) -> bool {
    match field {
        FieldView::Absent => true,
        FieldView::Text(name) => kind_named(name) is Some,
        _ => false,
    }
}

/// The optional kind of action that a field stands for.
pub open spec fn kind_in(field: FieldView) -> Option<MidiActionType> {
    match field {
        FieldView::Text(name) => kind_named(name),
        _ => None,
    }
}

/// The record without any override.
pub open spec fn no_overrides() -> PayloadOverride {
    PayloadOverride {
        action_type: None,
        ch: None,
        note: None,
        vel: None,
        dur: None,
        control_num: None,
        value: None,
    }
}

/// The overrides that seven fields stand for: each field's value where
/// every field fits its place, and no override at all where one does not.
pub open spec fn overrides_from(
    action_type: FieldView,
    ch: FieldView,
    note: FieldView,
    vel: FieldView,
    dur: FieldView,
    control_num: FieldView,
    value: FieldView,
) -> PayloadOverride {
    if fits_kind(action_type) && fits_byte(ch) && fits_byte(note) && fits_byte(vel)
        && fits_duration(dur) && fits_byte(control_num) && fits_byte(value) {
        PayloadOverride {
            action_type: kind_in(action_type),
            ch: byte_in(ch),
            note: byte_in(note),
            vel: byte_in(vel),
            dur: duration_in(dur),
            control_num: byte_in(control_num),
            value: byte_in(value),
        }
    } else {
        no_overrides()
    }
}

/// The overrides that a parsed document carries.
pub open spec fn overrides_in(doc: serde_json::Value) -> PayloadOverride {
    overrides_from(
        field_of(json_member(doc, "action_type"@)),
        field_of(json_member(doc, "ch"@)),
        field_of(json_member(doc, "note"@)),
        field_of(json_member(doc, "vel"@)),
        field_of(json_member(doc, "dur"@)),
        field_of(json_member(doc, "control_num"@)),
        field_of(json_member(doc, "value"@)),
    )
}

/// The overrides that a payload carries: those of the document it parses
/// to, and none where it is not JSON.
pub open spec fn overrides_of(payload: Seq<char>) -> PayloadOverride {
    match parsed_json(payload) {
        Some(doc) => overrides_in(doc),
        None => no_overrides(),
    }
}

/// An action with each field replaced by its override, where there is one.
pub open spec fn merged(base: MidiAction, over: PayloadOverride) -> MidiAction {
    MidiAction {
        action_type: match over.action_type {
            Some(kind) => kind,
            None => base.action_type,
        },
        channel: match over.ch {
            Some(ch) => ch,
            None => base.channel,
        },
        note: if over.note is Some {
            over.note
        } else {
            base.note
        },
        velocity: if over.vel is Some {
            over.vel
        } else {
            base.velocity
        },
        duration_ms: if over.dur is Some {
            over.dur
        } else {
            base.duration_ms
        },
        control_num: if over.control_num is Some {
            over.control_num
        } else {
            base.control_num
        },
        value: if over.value is Some {
            over.value
        } else {
            base.value
        },
    }
}

/// Reads the member of a document under `key`.
pub fn read_field(doc: &serde_json::Value, key: &str) -> (field: Field)
    ensures
        field@ == field_of(json_member(*doc, key@)),
{
    match member(doc, key) {
        None => Field::Absent,
        Some(v) => {
            if v.is_null() {
                Field::Absent
            } else {
                match v.as_u64() {
                    Some(n) => Field::Number(n),
                    None => match v.as_str() {
                        Some(t) => Field::Text(t.to_owned()),
                        None => Field::Other,
                    },
                }
            }
        },
    }
}

/// Reads an optional byte from a field; `Err` where the field holds
/// something else.
fn byte_from(field: &Field) -> (r: Result<Option<u8>, ()>)
    ensures
        r is Ok <==> fits_byte(field@),
        r matches Ok(b) ==> b == byte_in(field@),
{
    match field {
        Field::Absent => Ok(None),
        Field::Number(n) => if *n <= 255 {
            Ok(Some(*n as u8))
        } else {
            Err(())
        },
        _ => Err(()),
    }
}

impl PayloadOverride {
    /// The record without any override.
    pub fn none() -> (over: PayloadOverride)
        ensures
            over == no_overrides(),
    {
        PayloadOverride {
            action_type: None,
            ch: None,
            note: None,
            vel: None,
            dur: None,
            control_num: None,
            value: None,
        }
    }

    /// Builds the overrides from the seven members of a document. One
    /// member that does not fit its place voids them all.
    pub fn from_fields(
        action_type: &Field,
        ch: &Field,
        note: &Field,
        vel: &Field,
        dur: &Field,
        control_num: &Field,
        value: &Field,
    ) -> (over: PayloadOverride)
        ensures
            over == overrides_from(action_type@, ch@, note@, vel@, dur@, control_num@, value@),
    {
        let kind = match action_type {
            Field::Absent => None,
            Field::Text(name) => match MidiActionType::from_name(name.as_str()) {
                Some(kind) => Some(kind),
                None => {
                    return PayloadOverride::none();
                },
            },
            _ => {
                return PayloadOverride::none();
            },
        };
        let dur = match dur {
            Field::Absent => None,
            Field::Number(n) => Some(*n),
            _ => {
                return PayloadOverride::none();
            },
        };
        match (
            byte_from(ch),
            byte_from(note),
            byte_from(vel),
            byte_from(control_num),
            byte_from(value),
        ) {
            (Ok(ch), Ok(note), Ok(vel), Ok(control_num), Ok(value)) => PayloadOverride {
                action_type: kind,
                ch,
                note,
                vel,
                dur,
                control_num,
                value,
            },
            _ => PayloadOverride::none(),
        }
    }

    /// Reads the overrides that a parsed document carries.
    pub fn from_document(doc: &serde_json::Value) -> (over: PayloadOverride)
        ensures
            over == overrides_in(*doc),
    {
        let action_type = read_field(doc, "action_type");
        let ch = read_field(doc, "ch");
        let note = read_field(doc, "note");
        let vel = read_field(doc, "vel");
        let dur = read_field(doc, "dur");
        let control_num = read_field(doc, "control_num");
        let value = read_field(doc, "value");
        PayloadOverride::from_fields(&action_type, &ch, &note, &vel, &dur, &control_num, &value)
    }

    /// Reads the overrides that a payload carries. This never fails: a
    /// payload that is not JSON, or whose members do not fit, carries none.
    pub fn parse(payload: &str) -> (over: PayloadOverride)
        ensures
            over == overrides_of(payload@),
    {
        match parse_json(payload) {
            Some(doc) => PayloadOverride::from_document(&doc),
            None => PayloadOverride::none(),
        }
    }

    /// Applies the overrides to a configured action.
    pub fn apply(&self, base: &MidiAction) -> (action: MidiAction)
        ensures
            action == merged(*base, *self),
    {
        MidiAction {
            action_type: match self.action_type {
                Some(kind) => kind,
                None => base.action_type,
            },
            channel: match self.ch {
                Some(ch) => ch,
                None => base.channel,
            },
            note: if self.note.is_some() {
                self.note
            } else {
                base.note
            },
            velocity: if self.vel.is_some() {
                self.vel
            } else {
                base.velocity
            },
            duration_ms: if self.dur.is_some() {
                self.dur
            } else {
                base.duration_ms
            },
            control_num: if self.control_num.is_some() {
                self.control_num
            } else {
                base.control_num
            },
            value: if self.value.is_some() {
                self.value
            } else {
                base.value
            },
        }
    }
}

impl Default for PayloadOverride {
    fn default() -> (over: PayloadOverride)
        ensures
            over == no_overrides(),
    {
        PayloadOverride::none()
    }
}

/// An override takes precedence over the configured value, field by
/// field, and a field without an override keeps the configured value.
pub proof fn lemma_override_precedence(base: MidiAction, over: PayloadOverride)
    ensures
        over.action_type matches Some(kind) ==> merged(base, over).action_type == kind,
        over.action_type is None ==> merged(base, over).action_type == base.action_type,
        over.ch matches Some(ch) ==> merged(base, over).channel == ch,
        over.ch is None ==> merged(base, over).channel == base.channel,
        over.note is Some ==> merged(base, over).note == over.note,
        over.note is None ==> merged(base, over).note == base.note,
        over.vel is Some ==> merged(base, over).velocity == over.vel,
        over.vel is None ==> merged(base, over).velocity == base.velocity,
        over.dur is Some ==> merged(base, over).duration_ms == over.dur,
        over.dur is None ==> merged(base, over).duration_ms == base.duration_ms,
        over.control_num is Some ==> merged(base, over).control_num == over.control_num,
        over.control_num is None ==> merged(base, over).control_num == base.control_num,
        over.value is Some ==> merged(base, over).value == over.value,
        over.value is None ==> merged(base, over).value == base.value,
        merged(base, no_overrides()) == base,
{
}

} // verus!
