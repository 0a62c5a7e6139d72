use subpub_server::dispatch::{encode, make_data, make_status, DeferredMessage, MidiDispatch};
use subpub_server::midi_handler::{
    MappingEntry, MidiAction, MidiActionType, MidiHandler, MidiMappingConfig,
};
use subpub_server::overrides::{read_field, Field, PayloadOverride};
use subpub_server::server::{
    apply_to_all, encode_all, process_midi_actions, resolve, resolve_with,
};

fn action(kind: MidiActionType, channel: u8) -> MidiAction {
    MidiAction {
        action_type: kind,
        channel,
        note: None,
        velocity: None,
        duration_ms: None,
        control_num: None,
        value: None,
    }
}

fn now(bytes: &[u8]) -> MidiDispatch {
    MidiDispatch { immediate: bytes.to_vec(), deferred: None }
}

fn entry(topic: &str, actions: Vec<MidiAction>) -> MappingEntry {
    MappingEntry { sub_topic: topic.to_string(), actions }
}

fn handler(entries: Vec<MappingEntry>) -> MidiHandler {
    MidiHandler::new(MidiMappingConfig { mappings: entries })
}

fn no_override() -> PayloadOverride {
    PayloadOverride {
        action_type: None,
        ch: None,
        note: None,
        vel: None,
        dur: None,
        control_num: None,
        value: None,
    }
}

#[test]
fn note_on_with_defaults() {
    assert_eq!(encode(&action(MidiActionType::NoteOn, 0)), now(&[0x90, 60, 127]));
}

#[test]
fn note_off_with_defaults() {
    assert_eq!(encode(&action(MidiActionType::NoteOff, 0)), now(&[0x80, 60, 0]));
}

#[test]
fn control_change_with_defaults() {
    assert_eq!(encode(&action(MidiActionType::Cc, 0)), now(&[0xB0, 0, 0]));
}

#[test]
fn program_change_has_one_data_byte() {
    assert_eq!(encode(&action(MidiActionType::ProgramChange, 0)), now(&[0xC0, 0]));
    let mut a = action(MidiActionType::ProgramChange, 3);
    a.value = Some(17);
    a.note = Some(99);
    assert_eq!(encode(&a), now(&[0xC3, 17]));
}

#[test]
fn timed_note_sends_on_now_and_off_later() {
    let mut a = action(MidiActionType::NoteOnOff, 2);
    a.note = Some(64);
    a.velocity = Some(90);
    a.duration_ms = Some(50);
    assert_eq!(
        encode(&a),
        MidiDispatch {
            immediate: vec![0x92, 64, 90],
            deferred: Some(DeferredMessage { delay_ms: 50, bytes: vec![0x82, 64, 0] }),
        }
    );
}

#[test]
fn timed_note_defaults_to_fifty_milliseconds() {
    assert_eq!(
        encode(&action(MidiActionType::NoteOnOff, 0)),
        MidiDispatch {
            immediate: vec![0x90, 60, 127],
            deferred: Some(DeferredMessage { delay_ms: 50, bytes: vec![0x80, 60, 0] }),
        }
    );
    let mut a = action(MidiActionType::NoteOnOff, 0);
    a.duration_ms = Some(0);
    assert_eq!(encode(&a).deferred.unwrap().delay_ms, 0);
    a.duration_ms = Some(u64::MAX);
    assert_eq!(encode(&a).deferred.unwrap().delay_ms, u64::MAX);
}

#[test]
fn only_a_timed_note_uses_the_duration() {
    for kind in [
        MidiActionType::NoteOn,
        MidiActionType::NoteOff,
        MidiActionType::Cc,
        MidiActionType::ProgramChange,
    ] {
        let mut a = action(kind, 0);
        a.duration_ms = Some(500);
        assert_eq!(encode(&a).deferred, None);
    }
}

#[test]
fn the_channel_is_cut_to_four_bits() {
    assert_eq!(encode(&action(MidiActionType::NoteOn, 15)).immediate[0], 0x9F);
    assert_eq!(encode(&action(MidiActionType::NoteOn, 16)).immediate[0], 0x90);
    assert_eq!(encode(&action(MidiActionType::NoteOn, 0x1F)).immediate[0], 0x9F);
    assert_eq!(encode(&action(MidiActionType::NoteOff, 0xF3)).immediate[0], 0x83);
    assert_eq!(encode(&action(MidiActionType::Cc, 255)).immediate[0], 0xBF);
    assert_eq!(encode(&action(MidiActionType::ProgramChange, 0x21)).immediate[0], 0xC1);
    assert_eq!(make_status(0x90, 0x4A), 0x9A);
}

#[test]
fn data_bytes_are_clamped_to_127() {
    let mut a = action(MidiActionType::NoteOn, 0);
    a.note = Some(200);
    a.velocity = Some(128);
    assert_eq!(encode(&a), now(&[0x90, 127, 127]));
    let mut c = action(MidiActionType::Cc, 1);
    c.control_num = Some(255);
    c.value = Some(127);
    assert_eq!(encode(&c), now(&[0xB1, 127, 127]));
    let mut t = action(MidiActionType::NoteOnOff, 0);
    t.note = Some(130);
    let d = encode(&t);
    assert_eq!(d.immediate, vec![0x90, 127, 127]);
    assert_eq!(d.deferred.unwrap().bytes, vec![0x80, 127, 0]);
    assert_eq!(make_data(Some(128), 0), 127);
    assert_eq!(make_data(Some(127), 0), 127);
    assert_eq!(make_data(Some(0), 5), 0);
    assert_eq!(make_data(None, 5), 5);
    assert_eq!(make_data(None, 200), 127);
}

#[test]
fn every_message_is_a_channel_message() {
    for kind in [
        MidiActionType::NoteOn,
        MidiActionType::NoteOff,
        MidiActionType::NoteOnOff,
        MidiActionType::Cc,
        MidiActionType::ProgramChange,
    ] {
        for channel in [0u8, 7, 15, 16, 200, 255] {
            for v in [None, Some(0u8), Some(127), Some(128), Some(255)] {
                let a = MidiAction {
                    action_type: kind,
                    channel,
                    note: v,
                    velocity: v,
                    duration_ms: None,
                    control_num: v,
                    value: v,
                };
                let d = encode(&a);
                let mut all = vec![d.immediate];
                if let Some(later) = d.deferred {
                    all.push(later.bytes);
                }
                for m in all {
                    assert!(m[0] >= 0x80);
                    assert_eq!(m[0] & 0x0F, channel & 0x0F);
                    assert!(m[1..].iter().all(|b| *b <= 127));
                }
            }
        }
    }
}

#[test]
fn override_takes_precedence_over_the_configured_value() {
    let mut base = action(MidiActionType::NoteOn, 0);
    base.note = Some(60);
    base.velocity = Some(100);
    let h = handler(vec![entry("drum", vec![base])]);
    let out = process_midi_actions(&h, "drum", "{ \"vel\": 40 }");
    assert_eq!(out, vec![now(&[0x90, 60, 40])]);
}

#[test]
fn a_bare_payload_triggers_the_configured_action() {
    let mut base = action(MidiActionType::NoteOn, 1);
    base.note = Some(62);
    base.velocity = Some(100);
    let h = handler(vec![entry("drum", vec![base])]);
    for payload in ["ping", "", "1", "true", "{", "{\"vel\": }", "[1,2]", "\"vel\""] {
        assert_eq!(process_midi_actions(&h, "drum", payload), vec![now(&[0x91, 62, 100])]);
    }
}

#[test]
fn a_topic_without_entry_resolves_to_nothing() {
    let h = handler(vec![entry("drum", vec![action(MidiActionType::NoteOn, 0)])]);
    assert_eq!(resolve(&h, "bass", "{\"vel\": 1}"), Vec::<MidiAction>::new());
    assert_eq!(process_midi_actions(&h, "bass", "x"), Vec::<MidiDispatch>::new());
    assert_eq!(resolve(&h, "Drum", "x"), Vec::<MidiAction>::new());
    let empty = MidiHandler::new(MidiMappingConfig::default());
    assert_eq!(resolve(&empty, "drum", "x"), Vec::<MidiAction>::new());
}

#[test]
fn every_action_of_a_topic_is_resolved_in_order() {
    let mut on = action(MidiActionType::NoteOn, 0);
    on.note = Some(60);
    let mut cc = action(MidiActionType::Cc, 1);
    cc.control_num = Some(7);
    cc.value = Some(10);
    let timed = action(MidiActionType::NoteOnOff, 2);
    let h = handler(vec![entry("scene", vec![on, cc, timed])]);
    let resolved = resolve(&h, "scene", "{\"note\": 72, \"value\": 99, \"dur\": 250}");
    assert_eq!(resolved.len(), 3);
    assert_eq!(resolved[0].note, Some(72));
    assert_eq!(resolved[0].action_type, MidiActionType::NoteOn);
    assert_eq!(resolved[1].value, Some(99));
    assert_eq!(resolved[1].control_num, Some(7));
    assert_eq!(resolved[1].channel, 1);
    assert_eq!(resolved[2].duration_ms, Some(250));
    assert_eq!(
        encode_all(&resolved),
        vec![
            now(&[0x90, 72, 127]),
            now(&[0xB1, 7, 99]),
            MidiDispatch {
                immediate: vec![0x92, 72, 127],
                deferred: Some(DeferredMessage { delay_ms: 250, bytes: vec![0x82, 72, 0] }),
            },
        ]
    );
}

#[test]
fn every_field_can_be_overridden() {
    let base = MidiAction {
        action_type: MidiActionType::NoteOn,
        channel: 1,
        note: Some(1),
        velocity: Some(2),
        duration_ms: Some(3),
        control_num: Some(4),
        value: Some(5),
    };
    let over = PayloadOverride::parse(
        "{\"action_type\":\"cc\",\"ch\":9,\"note\":10,\"vel\":11,\"dur\":12,\"control_num\":13,\"value\":14}",
    );
    assert_eq!(
        over,
        PayloadOverride {
            action_type: Some(MidiActionType::Cc),
            ch: Some(9),
            note: Some(10),
            vel: Some(11),
            dur: Some(12),
            control_num: Some(13),
            value: Some(14),
        }
    );
    assert_eq!(
        over.apply(&base),
        MidiAction {
            action_type: MidiActionType::Cc,
            channel: 9,
            note: Some(10),
            velocity: Some(11),
            duration_ms: Some(12),
            control_num: Some(13),
            value: Some(14),
        }
    );
    assert_eq!(no_override().apply(&base), base);
    assert_eq!(PayloadOverride::none(), no_override());
    assert_eq!(PayloadOverride::default(), no_override());
}

#[test]
fn an_override_fills_a_field_that_the_configuration_left_open() {
    let base = action(MidiActionType::NoteOn, 0);
    let over = PayloadOverride::parse("{\"note\": 61}");
    let merged = over.apply(&base);
    assert_eq!(merged.note, Some(61));
    assert_eq!(merged.velocity, None);
}

#[test]
fn each_kind_is_read_by_its_name() {
    for (name, kind) in [
        ("note_on", MidiActionType::NoteOn),
        ("note_off", MidiActionType::NoteOff),
        ("note_on_off", MidiActionType::NoteOnOff),
        ("cc", MidiActionType::Cc),
        ("program_change", MidiActionType::ProgramChange),
    ] {
        assert_eq!(MidiActionType::from_name(name), Some(kind));
        let payload = format!("{{\"action_type\": \"{}\"}}", name);
        assert_eq!(PayloadOverride::parse(&payload).action_type, Some(kind));
    }
    for name in ["", "NoteOn", "NOTE_ON", "note_on ", "noteon", "control_change"] {
        assert_eq!(MidiActionType::from_name(name), None);
    }
}

#[test]
fn a_payload_that_is_not_a_json_object_carries_no_override() {
    for payload in ["", "ping", "42", "null", "\"x\"", "[1, 2, 3]", "{\"vel\": 40", "{\"vel\": 40} x"]
    {
        assert_eq!(PayloadOverride::parse(payload), no_override());
    }
}

#[test]
fn one_member_that_does_not_fit_voids_all_overrides() {
    for payload in [
        "{\"note\": 61, \"vel\": \"loud\"}",
        "{\"note\": 61, \"vel\": 256}",
        "{\"note\": 61, \"vel\": -1}",
        "{\"note\": 61, \"vel\": 40.0}",
        "{\"note\": 61, \"vel\": 4e1}",
        "{\"note\": 61, \"vel\": true}",
        "{\"note\": 61, \"vel\": [40]}",
        "{\"note\": 61, \"vel\": {\"x\": 40}}",
        "{\"note\": 61, \"ch\": 1000}",
        "{\"note\": 61, \"control_num\": 300}",
        "{\"note\": 61, \"value\": 18446744073709551616}",
        "{\"note\": 61, \"dur\": -5}",
        "{\"note\": 61, \"dur\": \"50\"}",
        "{\"note\": 61, \"dur\": 18446744073709551616}",
        "{\"note\": 61, \"action_type\": \"bang\"}",
        "{\"note\": 61, \"action_type\": 1}",
        "{\"note\": 300}",
    ] {
        assert_eq!(PayloadOverride::parse(payload), no_override(), "{}", payload);
    }
}

#[test]
fn null_and_unknown_members_are_passed_over() {
    let over = PayloadOverride::parse(
        "{\"vel\": null, \"note\": 61, \"colour\": \"red\", \"velocity\": 3, \"action_type\": null}",
    );
    let mut expected = no_override();
    expected.note = Some(61);
    assert_eq!(over, expected);
}

#[test]
fn the_limits_of_each_field_are_accepted() {
    let over = PayloadOverride::parse(
        "{\"ch\": 255, \"note\": 0, \"vel\": 255, \"dur\": 18446744073709551615, \"value\": 128}",
    );
    assert_eq!(over.ch, Some(255));
    assert_eq!(over.note, Some(0));
    assert_eq!(over.vel, Some(255));
    assert_eq!(over.dur, Some(u64::MAX));
    assert_eq!(over.value, Some(128));
}

#[test]
fn fields_are_read_from_a_document() {
    let doc = serde_json::from_str::<serde_json::Value>(
        "{\"a\": 1, \"b\": \"two\", \"c\": null, \"d\": -1, \"e\": 1.5, \"f\": [], \"g\": {}, \"h\": false, \"i\": 18446744073709551615}",
    )
    .unwrap();
    assert_eq!(read_field(&doc, "a"), Field::Number(1));
    assert_eq!(read_field(&doc, "b"), Field::Text("two".to_string()));
    assert_eq!(read_field(&doc, "c"), Field::Absent);
    assert_eq!(read_field(&doc, "d"), Field::Other);
    assert_eq!(read_field(&doc, "e"), Field::Other);
    assert_eq!(read_field(&doc, "f"), Field::Other);
    assert_eq!(read_field(&doc, "g"), Field::Other);
    assert_eq!(read_field(&doc, "h"), Field::Other);
    assert_eq!(read_field(&doc, "i"), Field::Number(u64::MAX));
    assert_eq!(read_field(&doc, "z"), Field::Absent);
    assert_eq!(read_field(&doc, "A"), Field::Absent);
    let list = serde_json::from_str::<serde_json::Value>("[1, 2]").unwrap();
    assert_eq!(read_field(&list, "0"), Field::Absent);
    assert_eq!(PayloadOverride::from_document(&list), no_override());
    assert_eq!(PayloadOverride::from_document(&doc), no_override());
}

#[test]
fn overrides_are_built_from_fields() {
    let absent = Field::Absent;
    let built = PayloadOverride::from_fields(
        &Field::Text("note_off".to_string()),
        &Field::Number(3),
        &absent,
        &Field::Number(255),
        &Field::Number(1 << 40),
        &absent,
        &Field::Number(0),
    );
    assert_eq!(
        built,
        PayloadOverride {
            action_type: Some(MidiActionType::NoteOff),
            ch: Some(3),
            note: None,
            vel: Some(255),
            dur: Some(1 << 40),
            control_num: None,
            value: Some(0),
        }
    );
    let void = PayloadOverride::from_fields(
        &absent,
        &Field::Number(3),
        &absent,
        &Field::Number(256),
        &absent,
        &absent,
        &absent,
    );
    assert_eq!(void, no_override());
    let text_for_number = PayloadOverride::from_fields(
        &absent,
        &Field::Text("3".to_string()),
        &absent,
        &absent,
        &absent,
        &absent,
        &absent,
    );
    assert_eq!(text_for_number, no_override());
    let number_for_kind = PayloadOverride::from_fields(
        &Field::Number(1),
        &absent,
        &Field::Number(9),
        &absent,
        &absent,
        &absent,
        &absent,
    );
    assert_eq!(number_for_kind, no_override());
    let other_duration = PayloadOverride::from_fields(
        &absent,
        &absent,
        &Field::Number(9),
        &absent,
        &Field::Other,
        &absent,
        &absent,
    );
    assert_eq!(other_duration, no_override());
}

#[test]
fn an_overridden_kind_changes_the_message() {
    let mut base = action(MidiActionType::NoteOn, 4);
    base.note = Some(60);
    base.value = Some(33);
    let h = handler(vec![entry("t", vec![base])]);
    assert_eq!(
        process_midi_actions(&h, "t", "{\"action_type\": \"program_change\"}"),
        vec![now(&[0xC4, 33])]
    );
    assert_eq!(
        process_midi_actions(&h, "t", "{\"action_type\": \"note_on_off\", \"dur\": 75, \"ch\": 17}"),
        vec![MidiDispatch {
            immediate: vec![0x91, 60, 127],
            deferred: Some(DeferredMessage { delay_ms: 75, bytes: vec![0x81, 60, 0] }),
        }]
    );
}

#[test]
fn the_last_entry_of_a_topic_counts() {
    let h = handler(vec![
        entry("t", vec![action(MidiActionType::NoteOn, 0)]),
        entry("u", vec![action(MidiActionType::Cc, 1)]),
        entry("t", vec![action(MidiActionType::NoteOff, 2), action(MidiActionType::Cc, 3)]),
    ]);
    assert_eq!(
        h.get_actions_for_topic("t"),
        Some(vec![action(MidiActionType::NoteOff, 2), action(MidiActionType::Cc, 3)])
    );
    assert_eq!(h.get_actions_for_topic("u"), Some(vec![action(MidiActionType::Cc, 1)]));
    assert_eq!(h.get_actions_for_topic("v"), None);
    assert_eq!(h.get_actions_for_topic(""), None);
    assert_eq!(h.mappings().mappings.len(), 3);
}

#[test]
fn a_topic_with_no_actions_is_still_a_topic() {
    let h = handler(vec![entry("t", vec![])]);
    assert_eq!(h.get_actions_for_topic("t"), Some(vec![]));
    assert_eq!(process_midi_actions(&h, "t", "x"), Vec::<MidiDispatch>::new());
}

#[test]
fn reload_replaces_the_whole_table() {
    let mut h = handler(vec![
        entry("old", vec![action(MidiActionType::NoteOn, 0)]),
        entry("both", vec![action(MidiActionType::NoteOn, 1)]),
    ]);
    h.reload_mappings(MidiMappingConfig {
        mappings: vec![
            entry("both", vec![action(MidiActionType::Cc, 2)]),
            entry("new", vec![action(MidiActionType::NoteOff, 3)]),
        ],
    });
    assert_eq!(h.get_actions_for_topic("old"), None);
    assert_eq!(h.get_actions_for_topic("both"), Some(vec![action(MidiActionType::Cc, 2)]));
    assert_eq!(h.get_actions_for_topic("new"), Some(vec![action(MidiActionType::NoteOff, 3)]));
    h.reload_mappings(MidiMappingConfig::default());
    assert_eq!(h.get_actions_for_topic("both"), None);
    assert_eq!(h.mappings(), &MidiMappingConfig { mappings: vec![] });
}

#[test]
fn resolve_with_applies_given_overrides() {
    let mut base = action(MidiActionType::NoteOn, 0);
    base.velocity = Some(100);
    let h = handler(vec![entry("t", vec![base, base])]);
    let mut over = no_override();
    over.vel = Some(1);
    over.ch = Some(0x2A);
    let out = resolve_with(&h, "t", &over);
    assert_eq!(out.len(), 2);
    for a in out {
        assert_eq!(a.velocity, Some(1));
        assert_eq!(a.channel, 0x2A);
    }
    assert_eq!(resolve_with(&h, "none", &over), Vec::<MidiAction>::new());
    assert_eq!(apply_to_all(&over, &vec![base]), resolve_with(&h, "t", &over)[..1].to_vec());
    assert_eq!(apply_to_all(&over, &vec![]), Vec::<MidiAction>::new());
}
