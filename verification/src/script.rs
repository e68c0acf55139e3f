//! A project's script table.

use vstd::prelude::*;

verus! {

/// What a project defines for a command name.
#[derive(Clone, Debug, PartialEq, Eq)]
pub enum Script {
    /// An alias: the literal arguments that stand for the command.
    Cmd(Vec<Vec<u8>>),
    /// A passthrough: the executable of that name in the project's own
    /// environment.
    External(Vec<u8>),
}

/// One command of a project's script table.
#[derive(Clone, Debug, PartialEq, Eq)]
pub struct ScriptEntry {
    pub name: Vec<u8>,
    pub script: Script,
}

/// The position of the first entry of `table` called `name`.
pub open spec fn position(table: Seq<ScriptEntry>, name: Seq<u8>) -> Option<int>
    decreases table.len(),
{
    if table.len() == 0 {
        None
    } else if table[0].name@ == name {
        Some(0)
    } else {
        match position(table.skip(1), name) {
            Some(i) => Some(i + 1),
            None => None,
        }
    }
}

/// What `table` defines for `name`.
pub open spec fn script_for(table: Seq<ScriptEntry>, name: Seq<u8>) -> Option<Script> {
    match position(table, name) {
        Some(i) => Some(table[i].script),
        None => None,
    }
}

/// `position` finds the first entry of the name, and none where the table
/// has no entry of that name.
pub proof fn position_is_first(table: Seq<ScriptEntry>, name: Seq<u8>)
    ensures
        match position(table, name) {
            Some(i) => {
                &&& 0 <= i < table.len()
                &&& table[i].name@ == name
                &&& forall|j: int| 0 <= j < i ==> (#[trigger] table[j]).name@ != name
            },
            None => forall|j: int| 0 <= j < table.len() ==> (#[trigger] table[j]).name@ != name,
        },
    decreases table.len(),
{
    if table.len() > 0 && table[0].name@ != name {
        let rest = table.skip(1);
        position_is_first(rest, name);
        match position(rest, name) {
            Some(i) => {
                assert(rest[i] == table[i + 1]);
                assert forall|j: int| 0 <= j < i + 1 implies (#[trigger] table[j]).name@ != name by {
                    if j > 0 {
                        assert(rest[j - 1] == table[j]);
                    }
                }
            },
            None => {
                assert forall|j: int| 0 <= j < table.len() implies (#[trigger] table[j]).name@ != name by {
                    if j > 0 {
                        assert(rest[j - 1] == table[j]);
                    }
                }
            },
        }
    }
}

/// Looks a command name up in the script table.
pub fn get_script_cmd<'a>(table: &'a Vec<ScriptEntry>, name: &Vec<u8>) -> (found: Option<&'a Script>)
    ensures
        match found {
            Some(script) => Some(*script) == script_for(table@, name@),
            None => script_for(table@, name@) is None,
        },
{
    let mut i: usize = 0;
    proof {
        assert(table@.skip(0) =~= table@);
    }
    while i < table.len()
        invariant
            i <= table.len(),
            position(table@, name@) == match position(table@.skip(i as int), name@) {
                Some(k) => Some(k + i),
                None => None,
            },
        decreases table.len() - i,
    {
        proof {
            assert(table@.skip(i as int).skip(1) =~= table@.skip(i + 1));
            assert(table@.skip(i as int)[0] == table@[i as int]);
        }
        if crate::bytes::bytes_eq(&table[i].name, name) {
            return Some(&table[i].script);
        }
        i += 1;
    }
    None
}

} // verus!
