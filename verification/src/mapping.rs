//! The script model: named messages, scripted actions, and the
//! load-time validation that every action but shutdown refers to a
//! mapped, non-empty message name.
//!
//! The on-disk format is decoded outside this library; the plain values
//! (suite name, message names and payload bytes, actions) arrive here,
//! where [`MappingFile::new`] validates them and [`MappingState`] carries
//! them, immutable, for the lifetime of the server.

use vstd::prelude::*;

verus! {

/// Defines actions the server can perform.
#[derive(Clone, Copy, Debug, PartialEq, Eq, Structural)]
pub enum Action {
    /// Send a mapped message.
    Send,
    /// Receive a mapped message.
    Recv,
    /// Shutdown the server, closing all connections.
    Shutdown,
    /// Placeholder; never executed.
    Unknown,
}

/// One scripted step: an action, the message name it refers to, and an
/// optional delay before it runs.
#[derive(Clone, Debug)]
pub struct MessageAction {
    /// Unique message name from the mapping.
    pub message: String,
    /// Action to be executed.
    pub execute: Action,
    /// Optional waiting time, in seconds. Defaults to zero.
    pub wait_for: u64,
}

impl PartialEq for MessageAction {
    /// Two scripted steps are the same step when name and action agree;
    /// the delay is not part of a step's identity.
    fn eq(&self, other: &Self) -> (r: bool) {
        self.message == other.message && self.execute == other.execute
    }
}

impl vstd::std_specs::cmp::PartialEqSpecImpl for MessageAction {
    open spec fn obeys_eq_spec() -> bool {
        true
    }

    open spec fn eq_spec(&self, other: &Self) -> bool {
        self.message@ == other.message@ && self.execute == other.execute
    }
}

/// The message table as a lookup: the payload mapped to `name` by the
/// first entry that carries it, if any.
pub open spec fn find_msg(table: Seq<(String, Vec<u8>)>, name: Seq<char>) -> Option<Seq<u8>>
    decreases table.len(),
{
    if table.len() == 0 {
        None
    } else if table[0].0@ == name {
        Some(table[0].1@)
    } else {
        find_msg(table.skip(1), name)
    }
}

/// Whether one scripted action is admissible against a message table:
/// every action but shutdown needs a non-empty, mapped message name;
/// shutdown alone carries no message requirement.
pub open spec fn action_valid(table: Seq<(String, Vec<u8>)>, action: MessageAction) -> bool {
    !(action.execute is Shutdown) ==> (action.message@.len() > 0 && find_msg(
        table,
        action.message@,
    ) is Some)
}

/// Whether the table's message names are pairwise distinct.
pub open spec fn distinct_keys(table: Seq<(String, Vec<u8>)>) -> bool {
    forall|i: int, j: int| 0 <= i < j < table.len() ==> (#[trigger] table[i]).0@ != (#[trigger] table[j]).0@
}

/// Whether every name in the table is non-empty. The loader's message
/// names are; the one empty name is reserved for the engine's own
/// no-payload entry.
pub open spec fn nonempty_keys(table: Seq<(String, Vec<u8>)>) -> bool {
    forall|i: int| 0 <= i < table.len() ==> (#[trigger] table[i]).0@.len() > 0
}

/// Looks a message name up in the table, returning the payload of the
/// first entry that carries it.
pub fn lookup<'a>(table: &'a Vec<(String, Vec<u8>)>, name: &String) -> (r: Option<&'a Vec<u8>>)
    ensures
        match r {
            Some(v) => find_msg(table@, name@) == Some(v@),
            None => find_msg(table@, name@) is None,
        },
{
    let n = table.len();
    let mut i: usize = 0;
    assert(table@.skip(0) =~= table@);
    while i < n
        invariant
            i <= n,
            n == table@.len(),
            find_msg(table@, name@) == find_msg(table@.skip(i as int), name@),
        decreases n - i,
    {
        assert(table@.skip(i as int)[0] == table@[i as int]);
        if table[i].0 == *name {
            return Some(&table[i].1);
        }
        assert(table@.skip(i as int).skip(1) =~= table@.skip(i + 1));
        i = i + 1;
    }
    None
}

/// Whether every scripted action is admissible against a message table.
pub open spec fn script_wf(table: Seq<(String, Vec<u8>)>, actions: Seq<MessageAction>) -> bool {
    forall|i: int| 0 <= i < actions.len() ==> action_valid(table, #[trigger] actions[i])
}

/// Rejection of a mapping at load time: the index of the first scripted
/// action that refers to no mapped message.
#[derive(Debug)]
pub struct MappingError {
    /// Position of the offending action in the script.
    pub action_index: usize,
}

/// A validated mapping as decoded from its declarative source: a suite
/// name, the message table, and the ordered action list.
#[derive(Debug)]
pub struct MappingFile {
    name: String,
    messages: Vec<(String, Vec<u8>)>,
    actions: Vec<MessageAction>,
}

/// A non-empty name finds the same payload whether or not the reserved
/// empty-name entry stands at the front of the table.
proof fn lemma_find_skips_empty_key(table: Seq<(String, Vec<u8>)>, name: Seq<char>)
    requires
        table.len() > 0,
        table[0].0@ == Seq::<char>::empty(),
        name.len() > 0,
    ensures
        find_msg(table, name) == find_msg(table.skip(1), name),
{
}

impl MappingFile {
    /// The suite name.
    pub closed spec fn name_spec(&self) -> Seq<char> {
        self.name@
    }

    /// The message table.
    pub closed spec fn messages_spec(&self) -> Seq<(String, Vec<u8>)> {
        self.messages@
    }

    /// The ordered action list.
    pub closed spec fn actions_spec(&self) -> Seq<MessageAction> {
        self.actions@
    }

    /// The load-time invariant: the message names are pairwise
    /// distinct, and every scripted action is admissible against the
    /// message table.
    pub open spec fn wf(&self) -> bool {
        &&& distinct_keys(self.messages_spec())
        &&& script_wf(self.messages_spec(), self.actions_spec())
    }

    /// Builds and validates a mapping from its decoded parts.
    ///
    /// The message table holds the given pairs, preceded by the reserved
    /// empty name mapped to a single null byte; the loader's pairs come
    /// from a mapping, so their names are distinct and non-empty.
    /// Loading fails, naming the first offending action, exactly when
    /// some action other than shutdown refers to an empty or unmapped
    /// message name.
    pub fn new(name: String, messages: Vec<(String, Vec<u8>)>, actions: Vec<MessageAction>) -> (r:
        Result<MappingFile, MappingError>)
        requires
            distinct_keys(messages@),
            nonempty_keys(messages@),
        ensures
            match r {
                Ok(file) => {
                    &&& file.wf()
                    &&& file.name_spec() == name@
                    &&& file.actions_spec() == actions@
                    &&& file.messages_spec().len() == messages@.len() + 1
                    &&& file.messages_spec()[0].0@ == Seq::<char>::empty()
                    &&& file.messages_spec()[0].1@ == seq![0u8]
                    &&& file.messages_spec().skip(1) == messages@
                    &&& forall|i: int|
                        0 <= i < actions@.len() ==> action_valid(
                            messages@,
                            #[trigger] actions@[i],
                        )
                },
                Err(e) => {
                    &&& e.action_index < actions@.len()
                    &&& !action_valid(messages@, actions@[e.action_index as int])
                    &&& forall|i: int|
                        0 <= i < e.action_index ==> action_valid(messages@, #[trigger] actions@[i])
                },
            },
    {
        let mut j: usize = 0;
        let m = actions.len();
        while j < m
            invariant
                j <= m,
                m == actions@.len(),
                forall|i: int| 0 <= i < j ==> action_valid(messages@, #[trigger] actions@[i]),
            decreases m - j,
        {
            let ok = match actions[j].execute {
                Action::Send => valid_message_ref(&messages, &actions[j].message),
                Action::Recv => valid_message_ref(&messages, &actions[j].message),
                Action::Shutdown => true,
                Action::Unknown => valid_message_ref(&messages, &actions[j].message),
            };
            if !ok {
                return Err(MappingError { action_index: j });
            }
            j = j + 1;
        }

        let ghost messages_view = messages@;
        let mut table = messages;
        let mut null_payload: Vec<u8> = Vec::new();
        null_payload.push(0u8);
        table.insert(0, (String::new(), null_payload));
        let file = MappingFile { name, messages: table, actions };
        proof {
            let t = file.messages_spec();
            assert(t[0].1@ =~= seq![0u8]);
            assert(t.skip(1) =~= messages_view);
            assert forall|i: int, j: int| 0 <= i < j < t.len() implies (#[trigger] t[i]).0@ != (
            #[trigger] t[j]).0@ by {
                assert(t.skip(1)[j - 1] == t[j]);
                assert(messages_view[j - 1].0@.len() > 0);
                if i > 0 {
                    assert(t.skip(1)[i - 1] == t[i]);
                }
            }
            assert forall|i: int| 0 <= i < file.actions_spec().len() implies action_valid(
                t,
                #[trigger] file.actions_spec()[i],
            ) by {
                let a = file.actions_spec()[i];
                if !(a.execute is Shutdown) {
                    lemma_find_skips_empty_key(t, a.message@);
                    assert(t.skip(1) == messages_view);
                }
            }
        }
        Ok(file)
    }
}

/// Whether a name is non-empty and mapped in the table.
fn valid_message_ref(table: &Vec<(String, Vec<u8>)>, name: &String) -> (r: bool)
    ensures
        r == (name@.len() > 0 && find_msg(table@, name@) is Some),
{
    if name.as_str().is_empty() {
        false
    } else {
        lookup(table, name).is_some()
    }
}

/// The in-memory script model: suite name, message table, and action
/// list, shared read-only by every connection for the life of the
/// process.
#[derive(Debug)]
pub struct MappingState {
    /// The suite name the report is keyed by.
    pub mapping_name: String,
    /// The message table: name to payload bytes.
    pub name_to_message: Vec<(String, Vec<u8>)>,
    /// The ordered action list every connection replays.
    pub message_actions: Vec<MessageAction>,
}

impl MappingState {
    /// The message names are pairwise distinct, and every scripted
    /// action is admissible against the message table.
    pub open spec fn wf(&self) -> bool {
        &&& distinct_keys(self.name_to_message@)
        &&& script_wf(self.name_to_message@, self.message_actions@)
    }

    /// The script model carried by a validated mapping.
    pub fn from_file(file: MappingFile) -> (s: MappingState)
        requires
            file.wf(),
        ensures
            s.wf(),
            s.mapping_name@ == file.name_spec(),
            s.name_to_message@ == file.messages_spec(),
            s.message_actions@ == file.actions_spec(),
    {
        MappingState {
            mapping_name: file.name,
            name_to_message: file.messages,
            message_actions: file.actions,
        }
    }
}

} // verus!
