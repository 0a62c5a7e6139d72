//! The wire protocol: what a datagram asks of the relay.
//!
//! A message is UTF-8 text of the form `ACTION:CHANNEL` or
//! `ACTION:CHANNEL:PAYLOAD`. White space around the message does not
//! count, the action is matched without regard to case, and the payload
//! is everything after the second colon, colons included.

use vstd::prelude::*;
use vstd::utf8::*;
use crate::text::{
    leading_whitespace, lemma_prefix_len, lemma_prefix_len_bounds, lemma_trimmed_is_part,
    split_at_first, split_once, text_eq, to_uppercase, trim, trimmed, uppercase, utf8_text,
};

verus! {

/// What a datagram asks for.
#[derive(Clone, Debug, PartialEq, Eq)]
pub enum Request {
    /// `SUB:channel`: the sender wants the messages of `channel`.
    Subscribe { channel: String },
    /// `UNSUB:channel`: the sender no longer wants them.
    Unsubscribe { channel: String },
    /// `PUB:channel:payload`: a message for `channel`.
    Publish { channel: String, payload: String },
    /// `PUB:channel`, without a payload.
    PublishWithoutPayload { channel: String },
    /// Any other action, given in upper case.
    UnknownAction { action: String },
    /// Text without a colon.
    Malformed,
    /// Bytes that are not UTF-8.
    NotText,
}

/// A request as plain data.
pub ghost enum RequestView {
    Subscribe { channel: Seq<char> },
    Unsubscribe { channel: Seq<char> },
    Publish { channel: Seq<char>, payload: Seq<char> },
    PublishWithoutPayload { channel: Seq<char> },
    UnknownAction { action: Seq<char> },
    Malformed,
    NotText,
}

impl View for Request {
    type V = RequestView;

    open spec fn view(&self) -> RequestView {
        match self {
            Request::Subscribe { channel } => RequestView::Subscribe { channel: channel@ },
            Request::Unsubscribe { channel } => RequestView::Unsubscribe { channel: channel@ },
            Request::Publish { channel, payload } => RequestView::Publish {
                channel: channel@,
                payload: payload@,
            },
            Request::PublishWithoutPayload { channel } => RequestView::PublishWithoutPayload {
                channel: channel@,
            },
            Request::UnknownAction { action } => RequestView::UnknownAction { action: action@ },
            Request::Malformed => RequestView::Malformed,
            Request::NotText => RequestView::NotText,
        }
    }
}

/// The request that the parts of a message make up, the action already in
/// upper case.
pub open spec fn request_from_parts(
    action: Seq<char>,
    channel: Seq<char>,
    payload: Option<Seq<char>>,
) -> RequestView {
    if action == "SUB"@ {
        RequestView::Subscribe { channel }
    } else if action == "UNSUB"@ {
        RequestView::Unsubscribe { channel }
    } else if action == "PUB"@ {
        match payload {
            Some(payload) => RequestView::Publish { channel, payload },
            None => RequestView::PublishWithoutPayload { channel },
        }
    } else {
        RequestView::UnknownAction { action }
    }
}

/// The request that a message stands for, once the white space around it
/// is gone.
pub open spec fn request_of_message(message: Seq<char>) -> RequestView {
    match split_at_first(message, ':') {
        None => RequestView::Malformed,
        Some((action, rest)) => match split_at_first(rest, ':') {
            None => request_from_parts(uppercase(action), rest, None),
            Some((channel, payload)) => request_from_parts(
                uppercase(action),
                channel,
                Some(payload),
            ),
        },
    }
}

/// The request that a datagram stands for.
pub open spec fn request_of(datagram: Seq<u8>) -> RequestView {
    if valid_utf8(datagram) {
        request_of_message(trimmed(decode_utf8(datagram)))
    } else {
        RequestView::NotText
    }
}

impl Request {
    /// Builds the request from the parts of a message, the action already
    /// in upper case.
    pub fn from_parts(action: &str, channel: &str, payload: Option<&str>) -> (request: Request)
        ensures
            request@ == request_from_parts(
                action@,
                channel@,
                match payload {
                    Some(p) => Some(p@),
                    None => None,
                },
            ),
    {
        if text_eq(action, "SUB") {
            Request::Subscribe { channel: channel.to_owned() }
        } else if text_eq(action, "UNSUB") {
            Request::Unsubscribe { channel: channel.to_owned() }
        } else if text_eq(action, "PUB") {
            match payload {
                Some(payload) => Request::Publish {
                    channel: channel.to_owned(),
                    payload: payload.to_owned(),
                },
                None => Request::PublishWithoutPayload { channel: channel.to_owned() },
            }
        } else {
            Request::UnknownAction { action: action.to_owned() }
        }
    }

    /// Reads the request from a message without white space around it.
    pub fn from_message(message: &str) -> (request: Request)
        ensures
            request@ == request_of_message(message@),
    {
        match split_once(message, ':') {
            None => Request::Malformed,
            Some((action, rest)) => {
                let action = to_uppercase(action);
                match split_once(rest, ':') {
                    None => Request::from_parts(action.as_str(), rest, None),
                    Some((channel, payload)) => Request::from_parts(
                        action.as_str(),
                        channel,
                        Some(payload),
                    ),
                }
            },
        }
    }

    /// Reads the request from a datagram.
    pub fn decode(datagram: &[u8]) -> (request: Request)
        ensures
            request@ == request_of(datagram@),
    {
        match utf8_text(datagram) {
            None => Request::NotText,
            Some(text) => Request::from_message(trim(text)),
        }
    }
}

/// A message without a colon is malformed, whatever else it holds.
pub proof fn lemma_no_colon_is_malformed(message: Seq<char>)
    requires
        !message.contains(':'),
    ensures
        request_of_message(message) == RequestView::Malformed,
{
    assert forall|k: int| 0 <= k < message.len() implies message[k] != ':' by {
        assert(message.contains(message[k]));
    }
    lemma_prefix_len(message, ':', message.len() as int);
}

/// A datagram whose text holds no colon is malformed: white space around
/// it does not change that.
pub proof fn lemma_datagram_without_colon(datagram: Seq<u8>)
    requires
        valid_utf8(datagram),
        !decode_utf8(datagram).contains(':'),
    ensures
        request_of(datagram) == RequestView::Malformed,
{
    let text = decode_utf8(datagram);
    let inner = trimmed(text);
    lemma_trimmed_is_part(text);
    if inner.contains(':') {
        let k = choose|k: int| 0 <= k < inner.len() && inner[k] == ':';
        assert(text[leading_whitespace(text) + k] == ':');
    }
    lemma_no_colon_is_malformed(inner);
}

/// A message is cut at its first two colons and nowhere else: the action
/// holds no colon, nor does the channel where a payload follows it, and
/// the parts with their colons make up the message again.
pub proof fn lemma_parts_hold_no_colon(message: Seq<char>)
    ensures
        split_at_first(message, ':') matches Some((action, rest)) ==> {
            &&& !action.contains(':')
            &&& message == action + seq![':'] + rest
            &&& split_at_first(rest, ':') matches Some((channel, payload)) ==> {
                &&& !channel.contains(':')
                &&& rest == channel + seq![':'] + payload
            }
        },
{
    lemma_prefix_len_bounds(message, ':');
    if let Some((action, rest)) = split_at_first(message, ':') {
        assert(message =~= action + seq![':'] + rest);
        lemma_prefix_len_bounds(rest, ':');
        if let Some((channel, payload)) = split_at_first(rest, ':') {
            assert(rest =~= channel + seq![':'] + payload);
        }
    }
}

} // verus!
