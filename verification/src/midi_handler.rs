//! The MIDI mapping table: configured actions per topic.

use vstd::hash_map::StringHashMap;
use vstd::prelude::*;
use crate::text::text_eq;

verus! {

/// The kind of MIDI event that an action produces.
#[derive(Clone, Copy, Debug, PartialEq, Eq, Structural)]
pub enum MidiActionType {
    NoteOn,
    NoteOff,
    NoteOnOff,
    Cc,
    ProgramChange,
}

/// The kind that a configuration or a message names with `name`.
pub open spec fn kind_named(name: Seq<char>) -> Option<MidiActionType> {
    if name == "note_on"@ {
        Some(MidiActionType::NoteOn)
    } else if name == "note_off"@ {
        Some(MidiActionType::NoteOff)
    } else if name == "note_on_off"@ {
        Some(MidiActionType::NoteOnOff)
    } else if name == "cc"@ {
        Some(MidiActionType::Cc)
    } else if name == "program_change"@ {
        Some(MidiActionType::ProgramChange)
    } else {
        None
    }
}

impl MidiActionType {
    /// Reads a kind from its name; `None` for any other text.
    pub fn from_name(name: &str) -> (kind: Option<MidiActionType>)
        ensures
            kind == kind_named(name@),
    {
        if text_eq(name, "note_on") {
            Some(MidiActionType::NoteOn)
        } else if text_eq(name, "note_off") {
            Some(MidiActionType::NoteOff)
        } else if text_eq(name, "note_on_off") {
            Some(MidiActionType::NoteOnOff)
        } else if text_eq(name, "cc") {
            Some(MidiActionType::Cc)
        } else if text_eq(name, "program_change") {
            Some(MidiActionType::ProgramChange)
        } else {
            None
        }
    }
}

/// One MIDI action: a template as configured, or the action that results
/// once the overrides of a message are applied to a template.
#[derive(Clone, Copy, Debug, PartialEq, Eq)]
pub struct MidiAction {
    pub action_type: MidiActionType,
    /// MIDI channel; only the low four bits reach the wire.
    pub channel: u8,
    pub note: Option<u8>,
    pub velocity: Option<u8>,
    /// Time between the two messages of a `NoteOnOff`, in milliseconds.
    pub duration_ms: Option<u64>,
    pub control_num: Option<u8>,
    pub value: Option<u8>,
}

/// The actions configured for one topic.
#[derive(Clone, Debug, PartialEq, Eq)]
pub struct MappingEntry {
    pub sub_topic: String,
    pub actions: Vec<MidiAction>,
}

/// The whole mapping table, in configuration order.
#[derive(Clone, Debug, PartialEq, Eq)]
pub struct MidiMappingConfig {
    pub mappings: Vec<MappingEntry>,
}

impl View for MappingEntry {
    type V = (Seq<char>, Seq<MidiAction>);

    open spec fn view(&self) -> (Seq<char>, Seq<MidiAction>) {
        (self.sub_topic@, self.actions@)
    }
}

impl View for MidiMappingConfig {
    type V = Seq<(Seq<char>, Seq<MidiAction>)>;

    open spec fn view(&self) -> Seq<(Seq<char>, Seq<MidiAction>)> {
        Seq::new(self.mappings@.len(), |i: int| self.mappings@[i]@)
    }
}

impl Default for MidiMappingConfig {
    fn default() -> (config: Self)
        ensures
            config@ == Seq::<(Seq<char>, Seq<MidiAction>)>::empty(),
    {
        MidiMappingConfig { mappings: Vec::new() }
    }
}

/// The actions of each topic of a configuration. Where a topic stands in
/// several entries, the last one counts.
pub open spec fn topic_map(entries: Seq<(Seq<char>, Seq<MidiAction>)>) -> Map<
    Seq<char>,
    Seq<MidiAction>,
>
    decreases entries.len(),
{
    if entries.len() == 0 {
        Map::empty()
    } else {
        topic_map(entries.drop_last()).insert(entries.last().0, entries.last().1)
    }
}

/// A topic is in the table of a configuration exactly if an entry names
/// it, and the table then holds the actions of the last entry that does.
pub proof fn lemma_last_entry_counts(entries: Seq<(Seq<char>, Seq<MidiAction>)>, topic: Seq<char>)
    ensures
        topic_map(entries).contains_key(topic) <==> exists|i: int|
            0 <= i < entries.len() && (#[trigger] entries[i]).0 == topic,
        forall|i: int|
            0 <= i < entries.len() && (#[trigger] entries[i]).0 == topic && (forall|j: int|
                i < j < entries.len() ==> (#[trigger] entries[j]).0 != topic) ==> topic_map(
                entries,
            )[topic] == entries[i].1,
    decreases entries.len(),
{
    if entries.len() > 0 {
        let front = entries.drop_last();
        let last = entries.last();
        lemma_last_entry_counts(front, topic);
        if last.0 == topic {
            assert(entries[entries.len() - 1].0 == topic);
        } else {
            if topic_map(entries).contains_key(topic) {
                let i = choose|i: int| 0 <= i < front.len() && (#[trigger] front[i]).0 == topic;
                assert(entries[i].0 == topic);
            }
            if exists|i: int| 0 <= i < entries.len() && (#[trigger] entries[i]).0 == topic {
                let i = choose|i: int| 0 <= i < entries.len() && (#[trigger] entries[i]).0 == topic;
                assert(front[i].0 == topic);
            }
        }
        assert forall|i: int|
            0 <= i < entries.len() && (#[trigger] entries[i]).0 == topic && (forall|j: int|
                i < j < entries.len() ==> (#[trigger] entries[j]).0 != topic) implies topic_map(
            entries,
        )[topic] == entries[i].1 by {
            if i < front.len() {
                assert(entries[entries.len() - 1].0 != topic);
                assert(front[i] == entries[i]);
                assert forall|j: int| i < j < front.len() implies (#[trigger] front[j]).0
                    != topic by {
                    assert(front[j] == entries[j]);
                }
            }
        }
    }
}

/// Whether a lookup table holds exactly the topics and actions of `table`.
spec fn holds_table(
    index: Map<Seq<char>, Vec<MidiAction>>,
    table: Map<Seq<char>, Seq<MidiAction>>,
) -> bool {
    &&& forall|topic: Seq<char>| index.contains_key(topic) <==> table.contains_key(topic)
    &&& forall|topic: Seq<char>| #[trigger]
        index.contains_key(topic) ==> index[topic]@ == table[topic]
}

/// The mapping table in use, with a lookup table by topic.
pub struct MidiHandler {
    mappings: MidiMappingConfig,
    topic_to_actions: StringHashMap<Vec<MidiAction>>,
}

/// The actions that a table holds for a topic, `None` where it has no
/// entry.
pub open spec fn configured(table: Map<Seq<char>, Seq<MidiAction>>, topic: Seq<char>) -> Option<
    Seq<MidiAction>,
> {
    if table.contains_key(topic) {
        Some(table[topic])
    } else {
        None
    }
}

impl View for MidiHandler {
    type V = Map<Seq<char>, Seq<MidiAction>>;

    /// A handler stands for the table of its configuration.
    open spec fn view(&self) -> Map<Seq<char>, Seq<MidiAction>> {
        topic_map(self.config())
    }
}

impl MidiHandler {
    #[verifier::type_invariant]
    spec fn consistent(self) -> bool {
        holds_table(self.topic_to_actions@, topic_map(self.mappings@))
    }

    /// The configuration in use.
    pub closed spec fn config(&self) -> Seq<(Seq<char>, Seq<MidiAction>)> {
        self.mappings@
    }

    /// Creates a handler for a configuration.
    pub fn new(mappings: MidiMappingConfig) -> (handler: MidiHandler)
        ensures
            handler.config() == mappings@,
    {
        let topic_to_actions = MidiHandler::build_topic_map(&mappings);
        MidiHandler { mappings, topic_to_actions }
    }

    /// Builds the lookup table of a configuration.
    fn build_topic_map(config: &MidiMappingConfig) -> (index: StringHashMap<Vec<MidiAction>>)
        ensures
            holds_table(index@, topic_map(config@)),
    {
        let mut index: StringHashMap<Vec<MidiAction>> = StringHashMap::new();
        let mut i: usize = 0;
        while i < config.mappings.len()
            invariant
                i <= config.mappings@.len(),
                holds_table(index@, topic_map(config@.subrange(0, i as int))),
            decreases config.mappings@.len() - i,
        {
            let entry = &config.mappings[i];
            let actions = entry.actions.clone();
            proof {
                let done = config@.subrange(0, i as int);
                let next = config@.subrange(0, i + 1);
                assert(next.drop_last() =~= done);
                assert(next.last() == entry@);
                assert(actions@ =~= entry.actions@);
            }
            index.insert(entry.sub_topic.clone(), actions);
            i += 1;
        }
        assert(config@.subrange(0, i as int) =~= config@);
        index
    }

    /// Replaces the configuration in use, all at once.
    pub fn reload_mappings(&mut self, mappings: MidiMappingConfig)
        ensures
            final(self).config() == mappings@,
    {
        let topic_to_actions = MidiHandler::build_topic_map(&mappings);
        *self = MidiHandler { mappings, topic_to_actions };
    }

    /// The actions configured for a topic, `None` where it has no entry.
    pub fn get_actions_for_topic(&self, topic: &str) -> (actions: Option<Vec<MidiAction>>)
        ensures
            match actions {
                Some(found) => configured(self@, topic@) == Some(found@),
                None => configured(self@, topic@) is None,
            },
    {
        proof {
            use_type_invariant(self);
        }
        match self.topic_to_actions.get(topic) {
            Some(found) => {
                let actions = found.clone();
                assert(actions@ =~= found@);
                Some(actions)
            },
            None => None,
        }
    }

    /// The configuration in use.
    pub fn mappings(&self) -> (config: &MidiMappingConfig)
        ensures
            config@ == self.config(),
    {
        &self.mappings
    }
}

} // verus!
