//! The state table and the command applier.

use crate::command::{Command, CommandView};
use crate::response::{Response, ResponseView};
use vstd::hash_map::StringHashMap;
use vstd::prelude::*;

verus! {

/// The mathematical value of a state table: a map from keys to values.
pub type Table = Map<Seq<char>, Seq<char>>;

/// The table after a command.
pub open spec fn apply(table: Table, command: CommandView) -> Table {
    match command {
        CommandView::Put(k, v) => table.insert(k, v),
        CommandView::Delete(k) => table.remove(k),
        CommandView::Get(_) => table,
        CommandView::Unknown => table,
    }
}

/// What a command answers on a table.
pub open spec fn respond(table: Table, command: CommandView) -> ResponseView {
    match command {
        CommandView::Put(k, v) => if table.contains_key(k) {
            ResponseView::Replace(k, table[k], v)
        } else {
            ResponseView::Inserted(k, v)
        },
        CommandView::Delete(k) => if table.contains_key(k) {
            ResponseView::Delete(k, table[k])
        } else {
            ResponseView::KeyNotFound(k)
        },
        CommandView::Get(k) => if table.contains_key(k) {
            ResponseView::Get(k, table[k])
        } else {
            ResponseView::KeyNotFound(k)
        },
        CommandView::Unknown => ResponseView::Unknown,
    }
}

/// The table after a sequence of commands, applied from left to right.
pub open spec fn apply_all(table: Table, commands: Seq<CommandView>) -> Table
    decreases commands.len(),
{
    if commands.len() == 0 {
        table
    } else {
        apply(apply_all(table, commands.drop_last()), commands.last())
    }
}

/// What each command of a sequence answers, applied from left to right.
pub open spec fn respond_all(table: Table, commands: Seq<CommandView>) -> Seq<ResponseView> {
    Seq::new(commands.len(), |i: int| respond(apply_all(table, commands.take(i)), commands[i]))
}

/// Replicas agree: the table after a command and the answer to it depend on
/// the table before and on the command, and on nothing else. So two
/// replicas that start from equal tables and apply the same commands in
/// the same order end with equal tables and give the same answers.
pub proof fn law_replicas_agree(a: Table, b: Table, commands: Seq<CommandView>)
    requires
        a == b,
    ensures
        apply_all(a, commands) == apply_all(b, commands),
        respond_all(a, commands) == respond_all(b, commands),
{
}

/// The state table: the value that each key holds.
pub struct Db {
    map: StringHashMap<String>,
}

impl View for Db {
    type V = Table;

    closed spec fn view(&self) -> Table {
        self.map@.map_values(|v: String| v@)
    }
}

impl Db {
    /// The empty table.
    pub fn new() -> (db: Db)
        ensures
            db@ == Table::empty(),
    {
        Db { map: StringHashMap::new() }
    }

    /// The number of keys.
    pub fn len(&self) -> (n: usize)
        ensures
            n == self@.len(),
    {
        assert(self@.dom() =~= self.map@.dom());
        self.map.len()
    }

    /// Whether the table holds no key.
    pub fn is_empty(&self) -> (b: bool)
        ensures
            b == (self@.len() == 0),
    {
        self.len() == 0
    }

    /// Whether the key is present.
    pub fn contains_key(&self, key: &str) -> (b: bool)
        ensures
            b == self@.contains_key(key@),
    {
        self.map.contains_key(key)
    }

    /// The value that the key holds.
    pub fn get(&self, key: &str) -> (value: Option<&String>)
        ensures
            match value {
                Some(v) => self@.contains_key(key@) && v@ == self@[key@],
                None => !self@.contains_key(key@),
            },
    {
        self.map.get(key)
    }

    /// Stores the value under the key and returns the value that the key
    /// held before.
    pub fn insert(&mut self, key: String, value: String) -> (previous: Option<String>)
        ensures
            final(self)@ == old(self)@.insert(key@, value@),
            match previous {
                Some(v) => old(self)@.contains_key(key@) && v@ == old(self)@[key@],
                None => !old(self)@.contains_key(key@),
            },
    {
        let previous = match self.map.get(key.as_str()) {
            Some(v) => Some(v.clone()),
            None => None,
        };
        self.map.insert(key, value);
        previous
    }

    /// Removes the key and returns the value that it held.
    pub fn remove(&mut self, key: &str) -> (previous: Option<String>)
        ensures
            final(self)@ == old(self)@.remove(key@),
            match previous {
                Some(v) => old(self)@.contains_key(key@) && v@ == old(self)@[key@],
                None => !old(self)@.contains_key(key@),
            },
    {
        let previous = match self.map.get(key) {
            Some(v) => Some(v.clone()),
            None => None,
        };
        self.map.remove(key);
        previous
    }
}

impl Default for Db {
    /// The empty table.
    fn default() -> (db: Db)
        ensures
            db@ == Table::empty(),
    {
        Db::new()
    }
}

/// The command applier: applies one command to the table and says what
/// happened. Leader and follower share it.
pub fn run_command(hashmap: &mut Db, command: &Command) -> (response: Response)
    ensures
        response@ == respond(old(hashmap)@, command@),
        final(hashmap)@ == apply(old(hashmap)@, command@),
{
    match command {
        Command::Get(key) => match hashmap.get(key.as_str()) {
            Some(value) => Response::Get(key.clone(), value.clone()),
            None => Response::KeyNotFound(key.clone()),
        },
        Command::Put(key, val) => match hashmap.insert(key.clone(), val.clone()) {
            Some(old_val) => Response::Replace(key.clone(), old_val, val.clone()),
            None => Response::Inserted(key.clone(), val.clone()),
        },
        Command::Delete(key) => match hashmap.remove(key.as_str()) {
            Some(old_val) => Response::Delete(key.clone(), old_val),
            None => Response::KeyNotFound(key.clone()),
        },
        Command::Unknown => Response::Unknown,
    }
}

} // verus!
