//! The subscription registry: which endpoints listen on which channel.

use dashmap::DashMap;
use vstd::prelude::*;

verus! {

/// The network address of a client: its identity for subscribing,
/// unsubscribing and for keeping its own messages from coming back.
/// Two endpoints are the same only if every part is.
#[derive(Clone, Copy, Debug, PartialEq, Eq, Hash, Structural)]
#[allow(inconsistent_fields)]
pub enum Endpoint {
    /// An IPv4 address, its four octets read as one big-endian number,
    /// and a port.
    V4 { address: u32, port: u16 },
    /// An IPv6 address, its sixteen octets read as one big-endian number,
    /// a port, and the flow information and scope that go with it.
    V6 { address: u128, port: u16, flow_info: u32, scope_id: u32 },
}

/// The concurrent map of `dashmap`. Nothing of its inside is visible
/// here; `channel_map` says what one holds.
#[verifier::external_type_specification]
#[verifier::external_body]
#[verifier::reject_recursive_types(K)]
#[verifier::reject_recursive_types(V)]
#[verifier::reject_recursive_types(S)]
pub struct ExDashMap<K, V, S>(DashMap<K, V, S>);

/// What a map of channels holds: for each key, the endpoints stored under
/// it, in their stored order.
pub uninterp spec fn channel_map(store: DashMap<String, Vec<Endpoint>>) -> Map<
    Seq<char>,
    Seq<Endpoint>,
>;

/// The table without any channel.
pub open spec fn no_channels() -> Map<Seq<char>, Seq<Endpoint>> {
    Map::empty()
}

/// Creates an empty map of channels.
///
/// Calls `DashMap::new`. The contract claims that the new map holds
/// nothing.
#[verifier::external_body]
fn channels_new() -> (store: DashMap<String, Vec<Endpoint>>)
    ensures
        channel_map(store) == no_channels(),
{
    DashMap::new()
}

/// Copies out the endpoints stored under a channel.
///
/// Calls `DashMap::get` and clones the value it refers to. The contract
/// claims that the result is `None` exactly where the map has no such key,
/// and else the stored endpoints.
#[verifier::external_body]
fn channels_get(store: &DashMap<String, Vec<Endpoint>>, channel: &str) -> (found: Option<
    Vec<Endpoint>,
>)
    ensures
        match found {
            Some(members) => channel_map(*store).contains_key(channel@) && members@ == channel_map(
                *store,
            )[channel@],
            None => !channel_map(*store).contains_key(channel@),
        },
{
    store.get(channel).map(|entry| entry.value().clone())
}

/// Stores endpoints under a channel, in place of what was there.
///
/// Calls `DashMap::insert`. The contract claims that afterwards the map
/// holds the given endpoints under that key and is otherwise unchanged,
/// and that the call does not unwind.
#[verifier::external_body]
fn channels_insert(store: &mut DashMap<String, Vec<Endpoint>>, channel: String, members: Vec<Endpoint>)
    ensures
        channel_map(*final(store)) == channel_map(*old(store)).insert(channel@, members@),
    no_unwind
{
    store.insert(channel, members);
}

/// Removes a channel and what is stored under it.
///
/// Calls `DashMap::remove`. The contract claims that afterwards the map
/// has no such key and is otherwise unchanged, and that the call does not
/// unwind.
#[verifier::external_body]
fn channels_remove(store: &mut DashMap<String, Vec<Endpoint>>, channel: &str)
    ensures
        channel_map(*final(store)) == channel_map(*old(store)).remove(channel@),
    no_unwind
{
    store.remove(channel);
}

/// The endpoints of `members` other than `endpoint`, in order.
pub open spec fn others(members: Seq<Endpoint>, endpoint: Endpoint) -> Seq<Endpoint> {
    members.filter(|e: Endpoint| e != endpoint)
}

/// The subscribers of a channel, in the order in which they subscribed;
/// none where the table has no such channel.
pub open spec fn members(table: Map<Seq<char>, Seq<Endpoint>>, channel: Seq<char>) -> Seq<
    Endpoint,
> {
    if table.contains_key(channel) {
        table[channel]
    } else {
        Seq::empty()
    }
}

/// A table is well formed when every channel in it has at least one
/// subscriber and none twice.
pub open spec fn well_formed(table: Map<Seq<char>, Seq<Endpoint>>) -> bool {
    forall|channel: Seq<char>| #[trigger]
        table.contains_key(channel) ==> table[channel].len() > 0
            && table[channel].no_duplicates()
}

/// The table after `endpoint` subscribes to `channel`.
pub open spec fn with_subscriber(
    table: Map<Seq<char>, Seq<Endpoint>>,
    channel: Seq<char>,
    endpoint: Endpoint,
) -> Map<Seq<char>, Seq<Endpoint>> {
    if members(table, channel).contains(endpoint) {
        table
    } else {
        table.insert(channel, members(table, channel).push(endpoint))
    }
}

/// The table after `endpoint` unsubscribes from `channel`.
pub open spec fn without_subscriber(
    table: Map<Seq<char>, Seq<Endpoint>>,
    channel: Seq<char>,
    endpoint: Endpoint,
) -> Map<Seq<char>, Seq<Endpoint>> {
    if !members(table, channel).contains(endpoint) {
        table
    } else if others(table[channel], endpoint).len() == 0 {
        table.remove(channel)
    } else {
        table.insert(channel, others(table[channel], endpoint))
    }
}

/// What `others` keeps: exactly the members that differ from `endpoint`,
/// none of them twice if none was, and everything if `endpoint` is no
/// member.
pub proof fn lemma_others(members: Seq<Endpoint>, endpoint: Endpoint)
    ensures
        forall|e: Endpoint| #[trigger]
            others(members, endpoint).contains(e) <==> members.contains(e) && e != endpoint,
        members.no_duplicates() ==> others(members, endpoint).no_duplicates(),
        !members.contains(endpoint) ==> others(members, endpoint) == members,
        others(members, endpoint).len() <= members.len(),
    decreases members.len(),
{
    reveal(Seq::filter);
    let keep = |e: Endpoint| e != endpoint;
    if members.len() > 0 {
        let front = members.drop_last();
        let last = members.last();
        lemma_others(front, endpoint);
        let kept = others(front, endpoint);
        assert(others(members, endpoint) == if keep(last) {
            kept.push(last)
        } else {
            kept
        });
        assert forall|e: Endpoint| #[trigger]
            others(members, endpoint).contains(e) <==> members.contains(e) && e
                != endpoint by {
            if others(members, endpoint).contains(e) {
                let i = choose|i: int|
                    0 <= i < others(members, endpoint).len() && others(members, endpoint)[i] == e;
                if i < kept.len() {
                    assert(kept.contains(e));
                    let j = choose|j: int| 0 <= j < front.len() && front[j] == e;
                    assert(members[j] == e);
                } else {
                    assert(e == last);
                    assert(members[members.len() - 1] == e);
                }
            }
            if members.contains(e) && e != endpoint {
                let j = choose|j: int| 0 <= j < members.len() && members[j] == e;
                if j < front.len() {
                    assert(front[j] == e);
                    assert(kept.contains(e));
                    let i = choose|i: int| 0 <= i < kept.len() && kept[i] == e;
                    assert(others(members, endpoint)[i] == e);
                } else {
                    assert(others(members, endpoint)[kept.len() as int] == e);
                }
            }
        }
        if members.no_duplicates() {
            assert(front.no_duplicates());
            if keep(last) {
                assert(!kept.contains(last)) by {
                    if front.contains(last) {
                        let j = choose|j: int| 0 <= j < front.len() && front[j] == last;
                        assert(members[j] == members[members.len() - 1]);
                    }
                }
                assert forall|i: int, j: int|
                    0 <= i < kept.len() + 1 && 0 <= j < kept.len() + 1 && i != j implies kept.push(
                    last,
                )[i] != kept.push(last)[j] by {
                    if i < kept.len() && j < kept.len() {
                    } else if i < kept.len() {
                        assert(kept.contains(kept[i]));
                    } else {
                        assert(kept.contains(kept[j]));
                    }
                }
            }
        }
        if !members.contains(endpoint) {
            assert(!front.contains(endpoint)) by {
                if front.contains(endpoint) {
                    let j = choose|j: int| 0 <= j < front.len() && front[j] == endpoint;
                    assert(members[j] == endpoint);
                }
            }
            assert(last != endpoint) by {
                assert(members[members.len() - 1] == last);
            }
            assert(kept.push(last) =~= members);
        }
    }
}

/// One change to a table: an endpoint subscribes to a channel, or
/// unsubscribes from it.
pub ghost enum Change {
    Subscribe { channel: Seq<char>, endpoint: Endpoint },
    Unsubscribe { channel: Seq<char>, endpoint: Endpoint },
}

/// The table after one change.
pub open spec fn changed(table: Map<Seq<char>, Seq<Endpoint>>, change: Change) -> Map<
    Seq<char>,
    Seq<Endpoint>,
> {
    match change {
        Change::Subscribe { channel, endpoint } => with_subscriber(table, channel, endpoint),
        Change::Unsubscribe { channel, endpoint } => without_subscriber(table, channel, endpoint),
    }
}

/// The table after a run of changes, the first of them first.
pub open spec fn after_all(table: Map<Seq<char>, Seq<Endpoint>>, changes: Seq<Change>) -> Map<
    Seq<char>,
    Seq<Endpoint>,
>
    decreases changes.len(),
{
    if changes.len() == 0 {
        table
    } else {
        changed(after_all(table, changes.drop_last()), changes.last())
    }
}

/// The subscribers of `channel` as a plain set, worked out from a run of
/// changes alone: each subscription to the channel puts its endpoint in,
/// each unsubscription from it takes its endpoint out.
pub open spec fn replayed(changes: Seq<Change>, channel: Seq<char>) -> Set<Endpoint>
    decreases changes.len(),
{
    if changes.len() == 0 {
        Set::empty()
    } else {
        let before = replayed(changes.drop_last(), channel);
        match changes.last() {
            Change::Subscribe { channel: c, endpoint } => if c == channel {
                before.insert(endpoint)
            } else {
                before
            },
            Change::Unsubscribe { channel: c, endpoint } => if c == channel {
                before.remove(endpoint)
            } else {
                before
            },
        }
    }
}

/// Subscribing keeps a table well formed.
pub proof fn lemma_subscribe_well_formed(
    table: Map<Seq<char>, Seq<Endpoint>>,
    channel: Seq<char>,
    endpoint: Endpoint,
)
    requires
        well_formed(table),
    ensures
        well_formed(with_subscriber(table, channel, endpoint)),
        members(with_subscriber(table, channel, endpoint), channel).contains(endpoint),
{
    let before = members(table, channel);
    if !before.contains(endpoint) {
        let now = before.push(endpoint);
        assert(now[now.len() - 1] == endpoint);
        assert forall|i: int, j: int| 0 <= i < now.len() && 0 <= j < now.len() && i != j implies now[i]
            != now[j] by {
            if i < before.len() && j < before.len() {
            } else if i < before.len() {
                assert(before.contains(before[i]));
            } else {
                assert(before.contains(before[j]));
            }
        }
    }
}

/// Unsubscribing keeps a table well formed: a channel that loses its last
/// subscriber leaves the table with it.
pub proof fn lemma_unsubscribe_well_formed(
    table: Map<Seq<char>, Seq<Endpoint>>,
    channel: Seq<char>,
    endpoint: Endpoint,
)
    requires
        well_formed(table),
    ensures
        well_formed(without_subscriber(table, channel, endpoint)),
        !members(without_subscriber(table, channel, endpoint), channel).contains(endpoint),
{
    lemma_others(members(table, channel), endpoint);
}

/// Subscribing the same endpoint to the same channel a second time
/// changes nothing: it is a subscriber once. On a channel that had no
/// subscriber it is then the only one.
pub proof fn lemma_subscribe_idempotent(
    table: Map<Seq<char>, Seq<Endpoint>>,
    channel: Seq<char>,
    endpoint: Endpoint,
)
    requires
        well_formed(table),
    ensures
        with_subscriber(with_subscriber(table, channel, endpoint), channel, endpoint)
            == with_subscriber(table, channel, endpoint),
        members(with_subscriber(table, channel, endpoint), channel).no_duplicates(),
        !table.contains_key(channel) ==> members(
            with_subscriber(with_subscriber(table, channel, endpoint), channel, endpoint),
            channel,
        ) == seq![endpoint],
{
    lemma_subscribe_well_formed(table, channel, endpoint);
    if !table.contains_key(channel) {
        assert(Seq::<Endpoint>::empty().push(endpoint) =~= seq![endpoint]);
    }
}

/// Unsubscribing a second time changes nothing, nor does unsubscribing an
/// endpoint that is no subscriber, or from a channel that is not there.
pub proof fn lemma_unsubscribe_idempotent(
    table: Map<Seq<char>, Seq<Endpoint>>,
    channel: Seq<char>,
    endpoint: Endpoint,
)
    requires
        well_formed(table),
    ensures
        without_subscriber(without_subscriber(table, channel, endpoint), channel, endpoint)
            == without_subscriber(table, channel, endpoint),
        !members(table, channel).contains(endpoint) ==> without_subscriber(
            table,
            channel,
            endpoint,
        ) == table,
{
    lemma_unsubscribe_well_formed(table, channel, endpoint);
}

/// Whatever run of subscriptions and unsubscriptions a table has seen
/// since it was empty, a channel is in it exactly if it has a subscriber:
/// no channel stays behind without one.
pub proof fn lemma_no_empty_channels(changes: Seq<Change>)
    ensures
        well_formed(after_all(no_channels(), changes)),
        forall|channel: Seq<char>| #[trigger]
            after_all(no_channels(), changes).contains_key(channel) <==> members(
                after_all(no_channels(), changes),
                channel,
            ).len() > 0,
    decreases changes.len(),
{
    if changes.len() > 0 {
        lemma_no_empty_channels(changes.drop_last());
        let before = after_all(no_channels(), changes.drop_last());
        match changes.last() {
            Change::Subscribe { channel, endpoint } => {
                lemma_subscribe_well_formed(before, channel, endpoint);
            },
            Change::Unsubscribe { channel, endpoint } => {
                lemma_unsubscribe_well_formed(before, channel, endpoint);
            },
        }
    }
}

/// After a subscription a channel has the subscribers it had, and the
/// new one if the subscription was to this channel. Other channels keep
/// theirs.
pub proof fn lemma_members_after_subscribe(
    table: Map<Seq<char>, Seq<Endpoint>>,
    channel: Seq<char>,
    endpoint: Endpoint,
    other: Seq<char>,
)
    ensures
        other != channel ==> members(with_subscriber(table, channel, endpoint), other) == members(
            table,
            other,
        ),
        forall|e: Endpoint| #[trigger]
            members(with_subscriber(table, channel, endpoint), channel).contains(e) <==> members(
                table,
                channel,
            ).contains(e) || e == endpoint,
{
    let was = members(table, channel);
    if !was.contains(endpoint) {
        let grown = was.push(endpoint);
        assert(members(with_subscriber(table, channel, endpoint), channel) == grown);
        assert forall|e: Endpoint| #[trigger]
            grown.contains(e) <==> was.contains(e) || e == endpoint by {
            assert(grown[grown.len() - 1] == endpoint);
            if was.contains(e) {
                let i = choose|i: int| 0 <= i < was.len() && was[i] == e;
                assert(grown[i] == e);
            }
            if grown.contains(e) {
                let i = choose|i: int| 0 <= i < grown.len() && grown[i] == e;
                if i < was.len() {
                    assert(was[i] == e);
                }
            }
        }
    }
}

/// After an unsubscription a channel has the subscribers it had, but for
/// the one that left if it left this channel. Other channels keep theirs.
pub proof fn lemma_members_after_unsubscribe(
    table: Map<Seq<char>, Seq<Endpoint>>,
    channel: Seq<char>,
    endpoint: Endpoint,
    other: Seq<char>,
)
    ensures
        other != channel ==> members(without_subscriber(table, channel, endpoint), other)
            == members(table, other),
        forall|e: Endpoint| #[trigger]
            members(without_subscriber(table, channel, endpoint), channel).contains(e) <==> members(
                table,
                channel,
            ).contains(e) && e != endpoint,
{
    let was = members(table, channel);
    let now = members(without_subscriber(table, channel, endpoint), channel);
    let rest = others(was, endpoint);
    lemma_others(was, endpoint);
    assert(now =~= rest);
    assert forall|e: Endpoint| #[trigger] now.contains(e) <==> was.contains(e) && e
        != endpoint by {
        assert(rest.contains(e) <==> was.contains(e) && e != endpoint);
    }
}

/// The table keeps, for each channel, exactly the set of subscribers
/// that the changes since it was empty add up to; and a channel is in the
/// table exactly if that set is not empty.
pub proof fn lemma_table_follows_changes(changes: Seq<Change>, channel: Seq<char>)
    ensures
        forall|e: Endpoint| #[trigger]
            members(after_all(no_channels(), changes), channel).contains(e) <==> replayed(
                changes,
                channel,
            ).contains(e),
        after_all(no_channels(), changes).contains_key(channel) <==> replayed(changes, channel)
            != Set::<Endpoint>::empty(),
    decreases changes.len(),
{
    let now = after_all(no_channels(), changes);
    let set = replayed(changes, channel);
    if changes.len() > 0 {
        let earlier = changes.drop_last();
        let before = after_all(no_channels(), earlier);
        lemma_table_follows_changes(earlier, channel);
        match changes.last() {
            Change::Subscribe { channel: c, endpoint } => {
                lemma_members_after_subscribe(before, c, endpoint, channel);
            },
            Change::Unsubscribe { channel: c, endpoint } => {
                lemma_members_after_unsubscribe(before, c, endpoint, channel);
            },
        }
        assert forall|e: Endpoint| #[trigger]
            members(now, channel).contains(e) <==> set.contains(e) by {
            assert(members(before, channel).contains(e) <==> replayed(earlier, channel).contains(
                e,
            ));
        }
    }
    lemma_no_empty_channels(changes);
    if now.contains_key(channel) {
        assert(now[channel].contains(now[channel][0]));
        assert(set.contains(now[channel][0]));
    } else {
        assert forall|e: Endpoint| !set.contains(e) by {
            assert(!members(now, channel).contains(e));
        }
        assert(set =~= Set::<Endpoint>::empty());
    }
}

/// Tells whether `endpoint` is among `members`.
fn holds(members: &Vec<Endpoint>, endpoint: Endpoint) -> (found: bool)
    ensures
        found == members@.contains(endpoint),
{
    let mut i: usize = 0;
    while i < members.len()
        invariant
            i <= members@.len(),
            forall|k: int| 0 <= k < i ==> members@[k] != endpoint,
        decreases members@.len() - i,
    {
        if members[i] == endpoint {
            return true;
        }
        i += 1;
    }
    false
}

/// Copies the endpoints other than `endpoint`, in order.
pub fn all_but(members: &Vec<Endpoint>, endpoint: Endpoint) -> (rest: Vec<Endpoint>)
    ensures
        rest@ == others(members@, endpoint),
{
    let mut rest: Vec<Endpoint> = Vec::new();
    let mut i: usize = 0;
    proof {
        reveal(Seq::filter);
        assert(members@.subrange(0, 0) =~= Seq::<Endpoint>::empty());
    }
    while i < members.len()
        invariant
            i <= members@.len(),
            rest@ == others(members@.subrange(0, i as int), endpoint),
        decreases members@.len() - i,
    {
        proof {
            reveal(Seq::filter);
            assert(members@.subrange(0, i + 1).drop_last() =~= members@.subrange(0, i as int));
        }
        if members[i] != endpoint {
            rest.push(members[i]);
        }
        i += 1;
    }
    assert(members@.subrange(0, i as int) =~= members@);
    rest
}

/// The table of subscriptions. A channel is in the table exactly while it
/// has a subscriber.
pub struct SubscriptionTable {
    channels: DashMap<String, Vec<Endpoint>>,
}

impl View for SubscriptionTable {
    type V = Map<Seq<char>, Seq<Endpoint>>;

    closed spec fn view(&self) -> Map<Seq<char>, Seq<Endpoint>> {
        channel_map(self.channels)
    }
}

impl SubscriptionTable {
    #[verifier::type_invariant]
    spec fn sound(self) -> bool {
        well_formed(channel_map(self.channels))
    }

    /// Creates a table without subscriptions.
    pub fn new() -> (table: SubscriptionTable)
        ensures
            table@ == no_channels(),
    {
        SubscriptionTable { channels: channels_new() }
    }

    /// Costs nothing to call, and tells the caller what holds of every
    /// table: no channel in it is without a subscriber, and no subscriber
    /// stands twice under one channel.
    pub fn well_formedness(&self)
        ensures
            well_formed(self@),
    {
        proof {
            use_type_invariant(self);
        }
    }

    /// Adds `endpoint` to the subscribers of `channel`. Where it already
    /// is one, nothing changes.
    pub fn subscribe(&mut self, channel: &str, endpoint: Endpoint)
        ensures
            final(self)@ == with_subscriber(old(self)@, channel@, endpoint),
            well_formed(final(self)@),
    {
        proof {
            use_type_invariant(&*self);
            lemma_subscribe_well_formed(self@, channel@, endpoint);
        }
        let mut members = match channels_get(&self.channels, channel) {
            Some(members) => members,
            None => Vec::new(),
        };
        if !holds(&members, endpoint) {
            members.push(endpoint);
            channels_insert(&mut self.channels, channel.to_owned(), members);
        }
    }

    /// Removes `endpoint` from the subscribers of `channel`, and the
    /// channel from the table if that was its last subscriber. Where
    /// `endpoint` is no subscriber of `channel`, nothing changes. Returns
    /// whether the channel left the table.
    pub fn unsubscribe(&mut self, channel: &str, endpoint: Endpoint) -> (emptied: bool)
        ensures
            final(self)@ == without_subscriber(old(self)@, channel@, endpoint),
            well_formed(final(self)@),
            emptied == (old(self)@.contains_key(channel@) && !final(self)@.contains_key(channel@)),
    {
        proof {
            use_type_invariant(&*self);
            lemma_unsubscribe_well_formed(self@, channel@, endpoint);
        }
        match channels_get(&self.channels, channel) {
            None => false,
            Some(members) => {
                if !holds(&members, endpoint) {
                    return false;
                }
                let rest = all_but(&members, endpoint);
                if rest.len() == 0 {
                    channels_remove(&mut self.channels, channel);
                    true
                } else {
                    channels_insert(&mut self.channels, channel.to_owned(), rest);
                    false
                }
            },
        }
    }

    /// A copy of the subscribers of `channel` as they are now, in the
    /// order in which they subscribed; empty where the table has no such
    /// channel.
    pub fn subscribers_of(&self, channel: &str) -> (subscribers: Vec<Endpoint>)
        ensures
            subscribers@ == members(self@, channel@),
            subscribers@.no_duplicates(),
            subscribers@.len() > 0 <==> self@.contains_key(channel@),
    {
        proof {
            use_type_invariant(self);
        }
        match channels_get(&self.channels, channel) {
            Some(members) => members,
            None => Vec::new(),
        }
    }
}

} // verus!
