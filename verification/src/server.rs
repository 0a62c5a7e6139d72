//! The relay itself: what a request does to the subscription table, which
//! MIDI messages a published message sets off, to whom it is forwarded,
//! and how a discovery probe is answered.

use vstd::prelude::*;
use vstd::string::*;
use vstd::utf8::*;
use crate::dispatch::{dispatch_of, encode, DispatchView, MidiDispatch};
use crate::midi_handler::{configured, MidiAction, MidiHandler};
use crate::overrides::{merged, overrides_of, PayloadOverride};
use crate::protocol::{request_of, Request, RequestView};
use crate::registry::{
    all_but, lemma_others, members, others, well_formed, with_subscriber, without_subscriber,
    Endpoint, SubscriptionTable,
};
use crate::text::{
    after_last, bytes_eq, last_part, lemma_prefix_len, lemma_suffix_len, split_at_first,
    split_once,
};

verus! {

/// Address that the relay binds to where the machine's own address is not
/// known.
pub const BIND_ADDRESS: &'static str = "127.0.0.1:7878";

/// Multicast group and port on which discovery probes arrive.
pub const MULTICAST_ADDRESS: &'static str = "192.168.0.100:50100";

/// The payload of a discovery probe.
pub const DISCOVERY_MESSAGE: &'static str = "DISCOVER_SUBPUB_SERVER";

/// What the answer to a discovery probe starts with.
pub const DISCOVERY_RESPONSE_PREFIX: &'static str = "SUBPUB_SERVER_AT:";

/// The final actions for a message: each configured action of its topic
/// with the overrides applied, in configuration order; none where the
/// topic has no entry.
pub open spec fn resolved(found: Option<Seq<MidiAction>>, over: PayloadOverride) -> Seq<
    MidiAction,
> {
    match found {
        Some(actions) => Seq::new(actions.len(), |i: int| merged(actions[i], over)),
        None => Seq::empty(),
    }
}

/// The dispatches that a list of final actions calls for, one each.
pub open spec fn dispatches_of(actions: Seq<MidiAction>) -> Seq<DispatchView> {
    Seq::new(actions.len(), |i: int| dispatch_of(actions[i]))
}

/// A list of dispatches as plain data.
pub open spec fn dispatch_views(dispatches: Seq<MidiDispatch>) -> Seq<DispatchView> {
    Seq::new(dispatches.len(), |i: int| dispatches[i]@)
}

/// Applies overrides to each of a list of configured actions, in order.
pub fn apply_to_all(over: &PayloadOverride, found: &Vec<MidiAction>) -> (actions: Vec<MidiAction>)
    ensures
        actions@ == resolved(Some(found@), *over),
{
    let mut actions: Vec<MidiAction> = Vec::new();
    let mut i: usize = 0;
    while i < found.len()
        invariant
            i <= found@.len(),
            actions@.len() == i,
            forall|k: int| 0 <= k < i ==> actions@[k] == merged(found@[k], *over),
        decreases found@.len() - i,
    {
        actions.push(over.apply(&found[i]));
        i += 1;
    }
    assert(actions@ =~= resolved(Some(found@), *over));
    actions
}

/// Applies overrides to the actions configured for a topic.
pub fn resolve_with(handler: &MidiHandler, topic: &str, over: &PayloadOverride) -> (actions: Vec<
    MidiAction,
>)
    ensures
        actions@ == resolved(configured(handler@, topic@), *over),
{
    match handler.get_actions_for_topic(topic) {
        None => Vec::new(),
        Some(found) => apply_to_all(over, &found),
    }
}

/// Resolves a published message to its final actions: the actions
/// configured for the topic, each with the overrides that the payload
/// carries. A payload that carries none triggers the actions as
/// configured. The payload is only read where the topic has an entry.
pub fn resolve(handler: &MidiHandler, topic: &str, payload: &str) -> (actions: Vec<MidiAction>)
    ensures
        actions@ == resolved(configured(handler@, topic@), overrides_of(payload@)),
{
    match handler.get_actions_for_topic(topic) {
        None => Vec::new(),
        Some(found) => {
            let over = PayloadOverride::parse(payload);
            apply_to_all(&over, &found)
        },
    }
}

/// Encodes a list of final actions, in order.
pub fn encode_all(actions: &Vec<MidiAction>) -> (dispatches: Vec<MidiDispatch>)
    ensures
        dispatch_views(dispatches@) == dispatches_of(actions@),
{
    let mut dispatches: Vec<MidiDispatch> = Vec::new();
    let mut i: usize = 0;
    while i < actions.len()
        invariant
            i <= actions@.len(),
            dispatches@.len() == i,
            forall|k: int| 0 <= k < i ==> dispatches@[k]@ == dispatch_of(actions@[k]),
        decreases actions@.len() - i,
    {
        dispatches.push(encode(&actions[i]));
        i += 1;
    }
    assert(dispatch_views(dispatches@) =~= dispatches_of(actions@));
    dispatches
}

/// Works out the MIDI messages that a published message sets off.
pub fn process_midi_actions(handler: &MidiHandler, topic: &str, payload: &str) -> (dispatches:
    Vec<MidiDispatch>)
    ensures
        dispatch_views(dispatches@) == dispatches_of(
            resolved(configured(handler@, topic@), overrides_of(payload@)),
        ),
{
    let actions = resolve(handler, topic, payload);
    encode_all(&actions)
}

/// What the relay does about a request, besides changing its table.
#[derive(Clone, Debug, PartialEq, Eq)]
pub enum Reaction {
    /// Nothing: the request was not understood or lacked its payload.
    Dropped,
    /// The sender is now a subscriber.
    Subscribed,
    /// The sender is no subscriber any more; `channel_removed` tells
    /// whether the channel left the table with it.
    Unsubscribed { channel_removed: bool },
    /// The MIDI messages to send and the subscribers to forward the
    /// payload to, in order.
    Published { dispatches: Vec<MidiDispatch>, recipients: Vec<Endpoint> },
}

/// A reaction as plain data.
pub ghost enum ReactionView {
    Dropped,
    Subscribed,
    Unsubscribed { channel_removed: bool },
    Published { dispatches: Seq<DispatchView>, recipients: Seq<Endpoint> },
}

impl View for Reaction {
    type V = ReactionView;

    open spec fn view(&self) -> ReactionView {
        match self {
            Reaction::Dropped => ReactionView::Dropped,
            Reaction::Subscribed => ReactionView::Subscribed,
            Reaction::Unsubscribed { channel_removed } => ReactionView::Unsubscribed {
                channel_removed: *channel_removed,
            },
            Reaction::Published { dispatches, recipients } => ReactionView::Published {
                dispatches: dispatch_views(dispatches@),
                recipients: recipients@,
            },
        }
    }
}

/// The table after a request of `sender`.
pub open spec fn table_after(
    table: Map<Seq<char>, Seq<Endpoint>>,
    sender: Endpoint,
    request: RequestView,
) -> Map<Seq<char>, Seq<Endpoint>> {
    match request {
        RequestView::Subscribe { channel } => with_subscriber(table, channel, sender),
        RequestView::Unsubscribe { channel } => without_subscriber(table, channel, sender),
        _ => table,
    }
}

/// The reaction to a request of `sender`, given the table before it.
pub open spec fn reaction_to(
    table: Map<Seq<char>, Seq<Endpoint>>,
    mapping: Map<Seq<char>, Seq<MidiAction>>,
    sender: Endpoint,
    request: RequestView,
) -> ReactionView {
    match request {
        RequestView::Subscribe { channel } => ReactionView::Subscribed,
        RequestView::Unsubscribe { channel } => ReactionView::Unsubscribed {
            channel_removed: table.contains_key(channel) && !without_subscriber(
                table,
                channel,
                sender,
            ).contains_key(channel),
        },
        RequestView::Publish { channel, payload } => ReactionView::Published {
            dispatches: dispatches_of(resolved(configured(mapping, channel), overrides_of(payload))),
            recipients: others(members(table, channel), sender),
        },
        _ => ReactionView::Dropped,
    }
}

/// Carries out a request of `sender`: changes the table for a
/// subscription or its end, and for a published message works out the
/// MIDI messages and the subscribers to forward it to, the sender never
/// among them.
pub fn handle_request(
    table: &mut SubscriptionTable,
    handler: &MidiHandler,
    sender: Endpoint,
    request: &Request,
) -> (reaction: Reaction)
    ensures
        final(table)@ == table_after(old(table)@, sender, request@),
        well_formed(final(table)@),
        reaction@ == reaction_to(old(table)@, handler@, sender, request@),
{
    match request {
        Request::Subscribe { channel } => {
            table.subscribe(channel.as_str(), sender);
            Reaction::Subscribed
        },
        Request::Unsubscribe { channel } => {
            let channel_removed = table.unsubscribe(channel.as_str(), sender);
            Reaction::Unsubscribed { channel_removed }
        },
        Request::Publish { channel, payload } => {
            let dispatches = process_midi_actions(handler, channel.as_str(), payload.as_str());
            let subscribers = table.subscribers_of(channel.as_str());
            let recipients = all_but(&subscribers, sender);
            table.well_formedness();
            Reaction::Published { dispatches, recipients }
        },
        _ => {
            table.well_formedness();
            Reaction::Dropped
        },
    }
}

/// Reads a datagram of `sender` and carries out what it asks for. Returns
/// the request as read, with the reaction to it.
pub fn handle_datagram(
    table: &mut SubscriptionTable,
    handler: &MidiHandler,
    sender: Endpoint,
    datagram: &[u8],
) -> (handled: (Request, Reaction))
    ensures
        handled.0@ == request_of(datagram@),
        final(table)@ == table_after(old(table)@, sender, request_of(datagram@)),
        well_formed(final(table)@),
        handled.1@ == reaction_to(old(table)@, handler@, sender, request_of(datagram@)),
{
    let request = Request::decode(datagram);
    let reaction = handle_request(table, handler, sender, &request);
    (request, reaction)
}

/// The address to bind the relay to on a host: the host, a colon, and
/// the port number in `BIND_ADDRESS`.
pub open spec fn bind_address_on(host: Seq<char>) -> Seq<char> {
    host + seq![':'] + after_last(BIND_ADDRESS@, ':')
}

/// The port number in `BIND_ADDRESS` is 7878.
pub proof fn lemma_bind_port()
    ensures
        after_last(BIND_ADDRESS@, ':') == "7878"@,
{
    reveal_strlit("127.0.0.1:7878");
    reveal_strlit("7878");
    let text = BIND_ADDRESS@;
    assert(text.len() == 14);
    lemma_suffix_len(text, ':', 4);
    assert(after_last(text, ':') =~= "7878"@);
}

/// `MULTICAST_ADDRESS` names the group 192.168.0.100 and the port 50100.
pub proof fn lemma_multicast_parts()
    ensures
        split_at_first(MULTICAST_ADDRESS@, ':') == Some(("192.168.0.100"@, "50100"@)),
{
    reveal_strlit("192.168.0.100:50100");
    reveal_strlit("192.168.0.100");
    reveal_strlit("50100");
    let text = MULTICAST_ADDRESS@;
    assert(text.len() == 19);
    lemma_prefix_len(text, ':', 13);
    assert(text.subrange(0, 13) =~= "192.168.0.100"@);
    assert(text.subrange(14, 19) =~= "50100"@);
}

/// Builds the address to bind the relay to on `host`: the host, then
/// `:7878`.
pub fn relay_bind_address(host: &str) -> (address: String)
    ensures
        address@ == bind_address_on(host@),
        address@ == host@ + ":7878"@,
{
    let mut address = host.to_owned();
    address.append(":");
    address.append(last_part(BIND_ADDRESS, ':'));
    proof {
        reveal_strlit(":");
        reveal_strlit(":7878");
        reveal_strlit("7878");
        lemma_bind_port();
        assert(":"@ =~= seq![':']);
        assert(address@ =~= host@ + ":7878"@);
    }
    address
}

/// The multicast group and the port number in `MULTICAST_ADDRESS`, as text.
pub fn multicast_parts() -> (parts: (&'static str, &'static str))
    ensures
        parts.0@ == "192.168.0.100"@,
        parts.1@ == "50100"@,
{
    proof {
        lemma_multicast_parts();
        reveal_strlit("192.168.0.100");
        reveal_strlit("50100");
    }
    match split_once(MULTICAST_ADDRESS, ':') {
        Some(parts) => parts,
        None => ("192.168.0.100", "50100"),
    }
}

/// The bytes of a discovery probe.
pub open spec fn probe_bytes() -> Seq<u8> {
    encode_utf8(DISCOVERY_MESSAGE@)
}

/// The answer to a discovery probe: the prefix, a space, and the address
/// that the relay is bound to.
pub open spec fn discovery_answer(relay_address: Seq<char>) -> Seq<char> {
    DISCOVERY_RESPONSE_PREFIX@ + seq![' '] + relay_address
}

/// Answers a datagram that arrived on the discovery socket: the answer to
/// send back to its sender where the datagram is the probe, byte for
/// byte, and `None`, for no answer, where it is anything else.
pub fn discovery_reply(datagram: &[u8], relay_address: &str) -> (reply: Option<String>)
    ensures
        reply is Some <==> datagram@ == probe_bytes(),
        reply matches Some(answer) ==> answer@ == discovery_answer(relay_address@),
{
    if bytes_eq(datagram, DISCOVERY_MESSAGE.as_bytes()) {
        let mut answer = DISCOVERY_RESPONSE_PREFIX.to_owned();
        answer.append(" ");
        answer.append(relay_address);
        proof {
            reveal_strlit(" ");
            assert(" "@ =~= seq![' ']);
        }
        Some(answer)
    } else {
        None
    }
}

/// A published message never comes back to its sender: the recipients
/// are the subscribers of the channel other than the sender, each once.
pub proof fn lemma_no_self_echo(
    table: Map<Seq<char>, Seq<Endpoint>>,
    mapping: Map<Seq<char>, Seq<MidiAction>>,
    sender: Endpoint,
    channel: Seq<char>,
    payload: Seq<char>,
)
    requires
        well_formed(table),
    ensures
        reaction_to(table, mapping, sender, RequestView::Publish { channel, payload })
            matches ReactionView::Published { recipients, .. } && {
            &&& !recipients.contains(sender)
            &&& recipients.no_duplicates()
            &&& forall|e: Endpoint| #[trigger]
                recipients.contains(e) <==> members(table, channel).contains(e) && e != sender
        },
{
    lemma_others(members(table, channel), sender);
}

/// A message published to a channel without MIDI mapping sets off no
/// MIDI message and is forwarded all the same.
pub proof fn lemma_unmapped_topic_still_fans_out(
    table: Map<Seq<char>, Seq<Endpoint>>,
    mapping: Map<Seq<char>, Seq<MidiAction>>,
    sender: Endpoint,
    channel: Seq<char>,
    payload: Seq<char>,
)
    requires
        !mapping.contains_key(channel),
    ensures
        reaction_to(table, mapping, sender, RequestView::Publish { channel, payload })
            == (ReactionView::Published {
            dispatches: Seq::empty(),
            recipients: others(members(table, channel), sender),
        }),
{
    assert(dispatches_of(resolved(configured(mapping, channel), overrides_of(payload)))
        =~= Seq::empty());
}

/// To whom a message is forwarded does not depend on the MIDI mapping.
pub proof fn lemma_fan_out_ignores_mapping(
    table: Map<Seq<char>, Seq<Endpoint>>,
    one: Map<Seq<char>, Seq<MidiAction>>,
    other: Map<Seq<char>, Seq<MidiAction>>,
    sender: Endpoint,
    channel: Seq<char>,
    payload: Seq<char>,
)
    ensures
        reaction_to(table, one, sender, RequestView::Publish { channel, payload })
            ->Published_recipients == reaction_to(
            table,
            other,
            sender,
            RequestView::Publish { channel, payload },
        )->Published_recipients,
{
}

/// A datagram whose text holds no colon changes nothing and calls for
/// nothing.
pub proof fn lemma_malformed_changes_nothing(
    table: Map<Seq<char>, Seq<Endpoint>>,
    mapping: Map<Seq<char>, Seq<MidiAction>>,
    sender: Endpoint,
    datagram: Seq<u8>,
)
    requires
        valid_utf8(datagram),
        !decode_utf8(datagram).contains(':'),
    ensures
        table_after(table, sender, request_of(datagram)) == table,
        reaction_to(table, mapping, sender, request_of(datagram)) == ReactionView::Dropped,
{
    crate::protocol::lemma_datagram_without_colon(datagram);
}

} // verus!
