//! The key-value state machine that committed commands are applied to. Its
//! contents live in a `dashmap::DashMap`, reached only through the trusted
//! items below.

use vstd::prelude::*;
use dashmap::DashMap;
use crate::command::{Command, CommandView};

verus! {

/// Makes `dashmap::DashMap` known to Verus as an opaque type; what a map
/// holds is given by `dashmap_contents` below.
#[verifier::external_type_specification]
#[verifier::external_body]
#[verifier::reject_recursive_types(K)]
#[verifier::reject_recursive_types(V)]
#[verifier::reject_recursive_types(S)]
pub struct ExDashMap<K, V, S>(DashMap<K, V, S>);

/// The map type that holds the store.
pub type KvMap = DashMap<String, String>;

/// The entries that a `DashMap<String, String>` holds, keys and values taken
/// by their views.
pub uninterp spec fn dashmap_contents(m: DashMap<String, String>) -> Map<Seq<char>, Seq<char>>;

/// Calls `DashMap::new`. Claims: the new map holds no entry.
#[verifier::external_body]
fn dashmap_new() -> (fresh: KvMap)
    ensures
        dashmap_contents(fresh).dom() == Set::<Seq<char>>::empty(),
{
    DashMap::new()
}

/// Calls `DashMap::insert`. Claims: afterwards the key maps to the value and
/// every other entry is as it was; the result is the value the key had before,
/// if any.
#[verifier::external_body]
fn dashmap_insert(m: &mut DashMap<String, String>, key: String, value: String) -> (prev: Option<String>)
    ensures
        dashmap_contents(*final(m)) == dashmap_contents(*old(m)).insert(key@, value@),
        match prev {
            Some(v) => dashmap_contents(*old(m)).contains_key(key@) && dashmap_contents(*old(m))[key@] == v@,
            None => !dashmap_contents(*old(m)).contains_key(key@),
        },
{
    m.insert(key, value)
}

/// Calls `DashMap::remove`. Claims: afterwards the key has no entry and every
/// other entry is as it was; the result is the removed entry, if there was one.
#[verifier::external_body]
fn dashmap_remove(m: &mut DashMap<String, String>, key: &String) -> (prev: Option<(String, String)>)
    ensures
        dashmap_contents(*final(m)) == dashmap_contents(*old(m)).remove(key@),
        match prev {
            Some((k, v)) => k@ == key@ && dashmap_contents(*old(m)).contains_key(key@)
                && dashmap_contents(*old(m))[key@] == v@,
            None => !dashmap_contents(*old(m)).contains_key(key@),
        },
{
    m.remove(key)
}

/// Calls `DashMap::get` and copies out the value it finds. Claims: the result
/// is the value the key maps to, or `None` where the key has no entry.
#[verifier::external_body]
fn dashmap_get(m: &DashMap<String, String>, key: &String) -> (found: Option<String>)
    ensures
        match found {
            Some(v) => dashmap_contents(*m).contains_key(key@) && dashmap_contents(*m)[key@] == v@,
            None => !dashmap_contents(*m).contains_key(key@),
        },
{
    m.get(key).map(|r| r.value().clone())
}

/// The store after one command: a `Put` maps its key to its value, a `Del`
/// drops its key.
pub open spec fn apply_command(kv: Map<Seq<char>, Seq<char>>, c: CommandView) -> Map<Seq<char>, Seq<char>> {
    match c {
        CommandView::Put { key, value } => kv.insert(key, value),
        CommandView::Del { key } => kv.remove(key),
    }
}

/// The store after a sequence of commands, applied in order.
pub open spec fn apply_commands(kv: Map<Seq<char>, Seq<char>>, cmds: Seq<CommandView>) -> Map<Seq<char>, Seq<char>>
    decreases cmds.len(),
{
    if cmds.len() == 0 {
        kv
    } else {
        apply_command(apply_commands(kv, cmds.drop_last()), cmds.last())
    }
}

/// The key-value map that commands are applied to.
pub struct StateMachine {
    pub kv: DashMap<String, String>,
}

impl View for StateMachine {
    type V = Map<Seq<char>, Seq<char>>;

    open spec fn view(&self) -> Map<Seq<char>, Seq<char>> {
        dashmap_contents(self.kv)
    }
}

impl StateMachine {
    /// An empty store.
    pub fn new() -> (sm: Self)
        ensures
            sm@ == Map::<Seq<char>, Seq<char>>::empty(),
    {
        let sm = StateMachine { kv: dashmap_new() };
        sm
    }

    /// Applies one command.
    pub fn apply(&mut self, cmd: &Command)
        ensures
            final(self)@ == apply_command(old(self)@, cmd@),
    {
        match cmd {
            Command::Put { key, value } => {
                let _ = dashmap_insert(&mut self.kv, key.clone(), value.clone());
            },
            Command::Del { key } => {
                let _ = dashmap_remove(&mut self.kv, key);
            },
        }
    }

    /// The value stored under a key, if any.
    pub fn get(&self, key: &String) -> (found: Option<String>)
        ensures
            match found {
                Some(v) => self@.contains_key(key@) && self@[key@] == v@,
                None => !self@.contains_key(key@),
            },
    {
        dashmap_get(&self.kv, key)
    }
}

} // verus!
