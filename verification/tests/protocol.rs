use subpub_server::protocol::Request;
use subpub_server::text::{bytes_eq, split_once, text_eq, trim};

fn subscribe(channel: &str) -> Request {
    Request::Subscribe { channel: channel.to_string() }
}

fn publish(channel: &str, payload: &str) -> Request {
    Request::Publish { channel: channel.to_string(), payload: payload.to_string() }
}

#[test]
fn sub_unsub_pub_are_read() {
    assert_eq!(Request::decode(b"SUB:news"), subscribe("news"));
    assert_eq!(
        Request::decode(b"UNSUB:news"),
        Request::Unsubscribe { channel: "news".to_string() }
    );
    assert_eq!(Request::decode(b"PUB:news:hello"), publish("news", "hello"));
}

#[test]
fn text_without_colon_is_malformed() {
    assert_eq!(Request::decode(b"SUB"), Request::Malformed);
    assert_eq!(Request::decode(b""), Request::Malformed);
    assert_eq!(Request::decode(b"   \r\n"), Request::Malformed);
    assert_eq!(Request::decode(b"hello world"), Request::Malformed);
}

#[test]
fn bytes_that_are_not_utf8_are_not_text() {
    assert_eq!(Request::decode(&[0xFF, b':', b'a']), Request::NotText);
    assert_eq!(Request::decode(&[b'S', b'U', b'B', b':', 0xC3]), Request::NotText);
    assert_eq!(Request::decode(&[0xED, 0xA0, 0x80]), Request::NotText);
    assert_eq!(Request::decode(&[0xC0, 0x80]), Request::NotText);
}

#[test]
fn the_action_is_matched_without_regard_to_case() {
    assert_eq!(Request::decode(b"sub:news"), subscribe("news"));
    assert_eq!(Request::decode(b"Sub:news"), subscribe("news"));
    assert_eq!(
        Request::decode(b"unSub:news"),
        Request::Unsubscribe { channel: "news".to_string() }
    );
    assert_eq!(Request::decode(b"pub:news:x"), publish("news", "x"));
}

#[test]
fn upper_case_follows_unicode() {
    assert_eq!(Request::decode("\u{17F}ub:news".as_bytes()), subscribe("news"));
    assert_eq!(
        Request::decode("stra\u{DF}e:news".as_bytes()),
        Request::UnknownAction { action: "STRASSE".to_string() }
    );
}

#[test]
fn the_channel_keeps_its_case() {
    assert_eq!(Request::decode(b"SUB:News"), subscribe("News"));
}

#[test]
fn the_payload_is_everything_after_the_second_colon() {
    assert_eq!(Request::decode(b"PUB:news:a:b:c"), publish("news", "a:b:c"));
    assert_eq!(Request::decode(b"PUB:news::"), publish("news", ":"));
    assert_eq!(
        Request::decode(b"PUB:mixer:{\"vel\": 40, \"note\": 61}"),
        publish("mixer", "{\"vel\": 40, \"note\": 61}")
    );
}

#[test]
fn an_empty_payload_is_a_payload() {
    assert_eq!(Request::decode(b"PUB:news:"), publish("news", ""));
}

#[test]
fn pub_without_payload_is_told_apart() {
    assert_eq!(
        Request::decode(b"PUB:news"),
        Request::PublishWithoutPayload { channel: "news".to_string() }
    );
}

#[test]
fn a_payload_after_sub_is_ignored() {
    assert_eq!(Request::decode(b"SUB:news:whatever:else"), subscribe("news"));
    assert_eq!(
        Request::decode(b"UNSUB:news:x"),
        Request::Unsubscribe { channel: "news".to_string() }
    );
}

#[test]
fn unknown_actions_are_given_in_upper_case() {
    assert_eq!(
        Request::decode(b"ping:news"),
        Request::UnknownAction { action: "PING".to_string() }
    );
    assert_eq!(Request::decode(b":news"), Request::UnknownAction { action: String::new() });
    assert_eq!(
        Request::decode(b"SUBS:news"),
        Request::UnknownAction { action: "SUBS".to_string() }
    );
}

#[test]
fn white_space_around_the_message_does_not_count() {
    assert_eq!(Request::decode(b"  SUB:news\r\n"), subscribe("news"));
    assert_eq!(Request::decode(b"\tPUB:news:hi there \n"), publish("news", "hi there"));
    assert_eq!(Request::decode("\u{2003}SUB:news\u{3000}".as_bytes()), subscribe("news"));
}

#[test]
fn white_space_inside_the_message_stays() {
    assert_eq!(Request::decode(b"SUB: news"), subscribe(" news"));
    assert_eq!(
        Request::decode(b"SUB :news"),
        Request::UnknownAction { action: "SUB ".to_string() }
    );
    assert_eq!(Request::decode(b"PUB:a b: c d"), publish("a b", " c d"));
}

#[test]
fn an_empty_channel_is_a_channel() {
    assert_eq!(Request::decode(b"SUB:"), subscribe(""));
    assert_eq!(Request::decode(b"PUB::x"), publish("", "x"));
}

#[test]
fn text_beyond_ascii_is_cut_at_the_right_places() {
    assert_eq!(
        Request::decode("PUB:caf\u{E9}:\u{1F3B9} on".as_bytes()),
        publish("caf\u{E9}", "\u{1F3B9} on")
    );
}

#[test]
fn from_parts_takes_the_action_as_given() {
    assert_eq!(Request::from_parts("SUB", "a", None), subscribe("a"));
    assert_eq!(Request::from_parts("SUB", "a", Some("p")), subscribe("a"));
    assert_eq!(
        Request::from_parts("sub", "a", None),
        Request::UnknownAction { action: "sub".to_string() }
    );
    assert_eq!(Request::from_parts("PUB", "a", Some("p")), publish("a", "p"));
    assert_eq!(
        Request::from_parts("PUB", "a", None),
        Request::PublishWithoutPayload { channel: "a".to_string() }
    );
    assert_eq!(
        Request::from_parts("UNSUB", "a", None),
        Request::Unsubscribe { channel: "a".to_string() }
    );
}

#[test]
fn from_message_does_not_trim() {
    assert_eq!(
        Request::from_message(" SUB:a"),
        Request::UnknownAction { action: " SUB".to_string() }
    );
    assert_eq!(Request::from_message("SUB:a "), subscribe("a "));
    assert_eq!(Request::from_message("none"), Request::Malformed);
}

#[test]
fn trim_removes_white_space_at_both_ends_only() {
    assert_eq!(trim("  a b  "), "a b");
    assert_eq!(trim("a"), "a");
    assert_eq!(trim(""), "");
    assert_eq!(trim(" \t\r\n"), "");
    assert_eq!(trim("\u{A0}x\u{2028}"), "x");
    assert_eq!(trim("\u{200B}x"), "\u{200B}x");
    assert_eq!(trim(" \u{E9}t\u{E9} "), "\u{E9}t\u{E9}");
    for s in ["", " ", "a ", " a", " a b ", "\n\u{1F3B9}\n", "\u{85}x\u{85}", "x\u{0}"] {
        assert_eq!(trim(s), s.trim());
    }
}

#[test]
fn split_once_cuts_at_the_first_delimiter() {
    assert_eq!(split_once("a:b:c", ':'), Some(("a", "b:c")));
    assert_eq!(split_once("abc", ':'), None);
    assert_eq!(split_once("", ':'), None);
    assert_eq!(split_once(":", ':'), Some(("", "")));
    assert_eq!(split_once("a:", ':'), Some(("a", "")));
    assert_eq!(split_once(":a", ':'), Some(("", "a")));
    assert_eq!(split_once("\u{E9}\u{1F3B9}:\u{FC}", ':'), Some(("\u{E9}\u{1F3B9}", "\u{FC}")));
    assert_eq!(split_once("a\u{E9}b", '\u{E9}'), Some(("a", "b")));
}

#[test]
fn text_eq_compares_whole_texts() {
    assert!(text_eq("", ""));
    assert!(text_eq("SUB", "SUB"));
    assert!(!text_eq("SUB", "SUBS"));
    assert!(!text_eq("SUB", "sub"));
    assert!(!text_eq("", "a"));
    assert!(text_eq("caf\u{E9}", "caf\u{E9}"));
    assert!(!text_eq("caf\u{E9}", "cafe\u{301}"));
}

#[test]
fn bytes_eq_compares_whole_runs() {
    assert!(bytes_eq(&[], &[]));
    assert!(bytes_eq(&[1, 2, 3], &[1, 2, 3]));
    assert!(!bytes_eq(&[1, 2, 3], &[1, 2]));
    assert!(!bytes_eq(&[1, 2, 3], &[1, 2, 4]));
    assert!(!bytes_eq(&[0], &[]));
}
