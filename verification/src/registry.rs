//! The command registry: the fixed table from command names to invocation kinds.
//!
//! The table is built once and never changes. The two reserved words `exit` and
//! `help` are not entries of it: the dispatcher recognises them before it looks a
//! name up.

use vstd::prelude::*;
use vstd::string::*;
use crate::text::{same_text, views};

verus! {

/// How a command is carried out.
#[derive(Clone, Copy, Debug, PartialEq, Eq, Structural)]
pub enum InvocationKind {
    /// Switches the session's current database label.
    BuiltinUseDb,
    /// Lists the registry.
    BuiltinHelp,
    /// Ends the session.
    BuiltinExit,
    /// Runs the sibling executable of the same name.
    ExternalDispatch,
}

/// One row of the registry.
#[derive(Clone, Debug)]
pub struct RegistryEntry {
    pub name: String,
    pub kind: InvocationKind,
}

/// The names of the registry, in the order in which `help` lists them.
pub open spec fn registry_names() -> Seq<Seq<char>> {
    seq!["create_db"@, "close_db"@, "set_object"@, "get_object"@, "greet"@, "use_db"@]
}

/// Whether `n` is a name of the registry.
pub open spec fn is_registry_name(n: Seq<char>) -> bool {
    n == "create_db"@ || n == "close_db"@ || n == "set_object"@ || n == "get_object"@ || n
        == "greet"@ || n == "use_db"@
}

/// What the registry holds for `n`.
pub open spec fn registry_kind(n: Seq<char>) -> Option<InvocationKind> {
    if n == "use_db"@ {
        Some(InvocationKind::BuiltinUseDb)
    } else if is_registry_name(n) {
        Some(InvocationKind::ExternalDispatch)
    } else {
        None
    }
}

/// What a command name stands for: the reserved words first, then the registry.
pub open spec fn command_kind(n: Seq<char>) -> Option<InvocationKind> {
    if n == "exit"@ {
        Some(InvocationKind::BuiltinExit)
    } else if n == "help"@ {
        Some(InvocationKind::BuiltinHelp)
    } else {
        registry_kind(n)
    }
}

/// The table as the registry stores it.
pub open spec fn standard_table() -> Seq<(Seq<char>, InvocationKind)> {
    seq![
        ("create_db"@, InvocationKind::ExternalDispatch),
        ("close_db"@, InvocationKind::ExternalDispatch),
        ("set_object"@, InvocationKind::ExternalDispatch),
        ("get_object"@, InvocationKind::ExternalDispatch),
        ("greet"@, InvocationKind::ExternalDispatch),
        ("use_db"@, InvocationKind::BuiltinUseDb),
    ]
}

/// The table that a sequence of entries stands for.
pub open spec fn table_of(entries: Seq<RegistryEntry>) -> Seq<(Seq<char>, InvocationKind)> {
    Seq::new(entries.len(), |i: int| (entries[i].name@, entries[i].kind))
}

/// The eight command names are pairwise different, and none is empty.
pub proof fn lemma_names_distinct()
    ensures
        "create_db"@.len() == 9,
        "close_db"@.len() == 8,
        "set_object"@.len() == 10,
        "get_object"@.len() == 10,
        "greet"@.len() == 5,
        "use_db"@.len() == 6,
        "exit"@.len() == 4,
        "help"@.len() == 4,
        "set_object"@ != "get_object"@,
        "exit"@ != "help"@,
{
    reveal_strlit("create_db");
    reveal_strlit("close_db");
    reveal_strlit("set_object");
    reveal_strlit("get_object");
    reveal_strlit("greet");
    reveal_strlit("use_db");
    reveal_strlit("exit");
    reveal_strlit("help");
    assert("set_object"@[0] != "get_object"@[0]);
    assert("exit"@[0] != "help"@[0]);
}

/// Resolving a name of the registry always gives a kind.
pub proof fn lemma_registry_names_resolve(n: Seq<char>)
    requires
        is_registry_name(n),
    ensures
        registry_kind(n) is Some,
        command_kind(n) is Some,
        command_kind(n) == registry_kind(n),
{
    lemma_names_distinct();
}

/// The kind of each of the eight command names.
pub proof fn lemma_known_kinds()
    ensures
        command_kind("exit"@) == Some(InvocationKind::BuiltinExit),
        command_kind("help"@) == Some(InvocationKind::BuiltinHelp),
        command_kind("use_db"@) == Some(InvocationKind::BuiltinUseDb),
        command_kind("create_db"@) == Some(InvocationKind::ExternalDispatch),
        command_kind("close_db"@) == Some(InvocationKind::ExternalDispatch),
        command_kind("set_object"@) == Some(InvocationKind::ExternalDispatch),
        command_kind("get_object"@) == Some(InvocationKind::ExternalDispatch),
        command_kind("greet"@) == Some(InvocationKind::ExternalDispatch),
        registry_kind("exit"@) is None,
        registry_kind("help"@) is None,
{
    lemma_names_distinct();
}

/// The table and the kinds agree: a name has a kind exactly when a row of the
/// table bears it, and then the kind is that row's; no name has two rows.
pub proof fn lemma_table_holds_the_kinds(n: Seq<char>)
    ensures
        standard_table().len() == 6,
        registry_names().len() == 6,
        forall|i: int| 0 <= i < 6 ==> (#[trigger] standard_table()[i]).0 == registry_names()[i],
        forall|i: int|
            0 <= i < 6 ==> registry_kind((#[trigger] standard_table()[i]).0) == Some(
                standard_table()[i].1,
            ),
        forall|i: int, j: int|
            0 <= i < j < 6 ==> (#[trigger] standard_table()[i]).0 != (
            #[trigger] standard_table()[j]).0,
        registry_kind(n) is Some <==> exists|i: int|
            0 <= i < 6 && (#[trigger] standard_table()[i]).0 == n,
        is_registry_name(n) <==> registry_kind(n) is Some,
{
    lemma_names_distinct();
    let t = standard_table();
    if registry_kind(n) is Some {
        if n == "create_db"@ {
            assert(t[0].0 == n);
        } else if n == "close_db"@ {
            assert(t[1].0 == n);
        } else if n == "set_object"@ {
            assert(t[2].0 == n);
        } else if n == "get_object"@ {
            assert(t[3].0 == n);
        } else if n == "greet"@ {
            assert(t[4].0 == n);
        } else {
            assert(t[5].0 == n);
        }
    }
}

/// The command registry.
pub struct Registry {
    entries: Vec<RegistryEntry>,
}

impl Registry {
    #[verifier::type_invariant]
    spec fn well_formed(&self) -> bool {
        table_of(self.entries@) == standard_table()
    }

    /// The rows of the registry, in their order.
    pub closed spec fn table(&self) -> Seq<(Seq<char>, InvocationKind)> {
        table_of(self.entries@)
    }

    /// Builds the registry: the six commands, each with its kind.
    pub fn new() -> (registry: Registry)
        ensures
            registry.table() == standard_table(),
    {
        let mut entries: Vec<RegistryEntry> = Vec::new();
        entries.push(
            RegistryEntry {
                name: String::from_str("create_db"),
                kind: InvocationKind::ExternalDispatch,
            },
        );
        entries.push(
            RegistryEntry {
                name: String::from_str("close_db"),
                kind: InvocationKind::ExternalDispatch,
            },
        );
        entries.push(
            RegistryEntry {
                name: String::from_str("set_object"),
                kind: InvocationKind::ExternalDispatch,
            },
        );
        entries.push(
            RegistryEntry {
                name: String::from_str("get_object"),
                kind: InvocationKind::ExternalDispatch,
            },
        );
        entries.push(
            RegistryEntry { name: String::from_str("greet"), kind: InvocationKind::ExternalDispatch },
        );
        entries.push(
            RegistryEntry { name: String::from_str("use_db"), kind: InvocationKind::BuiltinUseDb },
        );
        assert(table_of(entries@) =~= standard_table());
        Registry { entries }
    }

    /// Looks `name` up. The table is the same for every registry, so the
    /// answer depends on the name alone.
    pub fn resolve(&self, name: &str) -> (kind: Option<InvocationKind>)
        ensures
            kind == registry_kind(name@),
            self.table() == standard_table(),
    {
        proof {
            use_type_invariant(self);
            lemma_names_distinct();
        }
        let mut i: usize = 0;
        while i < self.entries.len()
            invariant
                i <= self.entries@.len(),
                table_of(self.entries@) == standard_table(),
                forall|j: int| 0 <= j < i ==> (#[trigger] standard_table()[j]).0 != name@,
            decreases self.entries@.len() - i,
        {
            assert(table_of(self.entries@)[i as int] == standard_table()[i as int]);
            if same_text(self.entries[i].name.as_str(), name) {
                proof {
                    lemma_names_distinct();
                    let row = standard_table()[i as int];
                    assert(row.0 == name@ && row.1 == self.entries@[i as int].kind);
                    assert(standard_table().len() == 6);
                    assert(table_of(self.entries@).len() == self.entries@.len());
                    assert(i == 0 || i == 1 || i == 2 || i == 3 || i == 4 || i == 5);
                }
                return Some(self.entries[i].kind);
            }
            i += 1;
        }
        proof {
            assert(standard_table().len() == 6);
            assert(standard_table()[0].0 != name@);
            assert(standard_table()[1].0 != name@);
            assert(standard_table()[2].0 != name@);
            assert(standard_table()[3].0 != name@);
            assert(standard_table()[4].0 != name@);
            assert(standard_table()[5].0 != name@);
        }
        None
    }

    /// The names of the registry, in the order in which `help` lists them.
    pub fn names(&self) -> (names: Vec<String>)
        ensures
            views(names@) == registry_names(),
    {
        proof {
            use_type_invariant(self);
        }
        let mut names: Vec<String> = Vec::new();
        let mut i: usize = 0;
        while i < self.entries.len()
            invariant
                i <= self.entries@.len(),
                table_of(self.entries@) == standard_table(),
                names@.len() == i,
                forall|j: int| 0 <= j < i ==> (#[trigger] names@[j])@ == standard_table()[j].0,
            decreases self.entries@.len() - i,
        {
            assert(table_of(self.entries@)[i as int] == standard_table()[i as int]);
            let name: String = self.entries[i].name.clone();
            names.push(name);
            i += 1;
        }
        proof {
            assert(standard_table().len() == 6);
            assert(names@[0]@ == standard_table()[0].0);
            assert(names@[1]@ == standard_table()[1].0);
            assert(names@[2]@ == standard_table()[2].0);
            assert(names@[3]@ == standard_table()[3].0);
            assert(names@[4]@ == standard_table()[4].0);
            assert(names@[5]@ == standard_table()[5].0);
            assert(views(names@) =~= registry_names());
        }
        names
    }
}

} // verus!
