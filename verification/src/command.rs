//! What a successful parse yields: the command reached, its arguments and
//! its positional words.

use crate::text::{join_spec, join_strings, space, str_eq, str_views, string_views};
use vstd::prelude::*;

verus! {

/// What was parsed for one argument.
#[derive(Debug)]
pub enum Arg {
    Value(String),
    Flag,
}

/// The mathematical value of an [`Arg`].
pub enum ArgView {
    Value(Seq<char>),
    Flag,
}

impl View for Arg {
    type V = ArgView;

    open spec fn view(&self) -> ArgView {
        match self {
            Arg::Value(v) => ArgView::Value(v@),
            Arg::Flag => ArgView::Flag,
        }
    }
}

/// The parsed arguments of one command, keyed by long name. No name occurs twice.
#[derive(Debug)]
pub struct ArgTable {
    entries: Vec<(&'static str, Arg)>,
}

/// Whether no two entries carry the same name.
pub closed spec fn distinct_names(entries: Seq<(&'static str, Arg)>) -> bool {
    forall|i: int, j: int|
        0 <= i < entries.len() && 0 <= j < entries.len() && (#[trigger] entries[i]).0@ == (
        #[trigger] entries[j]).0@ ==> i == j
}

/// Whether some entry carries `name`.
pub closed spec fn has_name(entries: Seq<(&'static str, Arg)>, name: Seq<char>) -> bool {
    exists|i: int| 0 <= i < entries.len() && (#[trigger] entries[i]).0@ == name
}

/// The position of an entry that carries `name`.
pub closed spec fn index_of_name(entries: Seq<(&'static str, Arg)>, name: Seq<char>) -> int {
    choose|i: int| 0 <= i < entries.len() && (#[trigger] entries[i]).0@ == name
}

impl View for ArgTable {
    type V = Map<Seq<char>, ArgView>;

    closed spec fn view(&self) -> Map<Seq<char>, ArgView> {
        Map::new(
            |name: Seq<char>| has_name(self.entries@, name),
            |name: Seq<char>| self.entries@[index_of_name(self.entries@, name)].1@,
        )
    }
}

impl ArgTable {
    #[verifier::type_invariant]
    spec fn names_are_distinct(self) -> bool {
        distinct_names(self.entries@)
    }

    /// A table without entries.
    pub fn new() -> (r: Self)
        ensures
            r@ == Map::<Seq<char>, ArgView>::empty(),
    {
        ArgTable { entries: Vec::new() }
    }

    /// The table with `value` stored under `name`, in place of what was
    /// stored there before.
    pub fn insert(self, name: &'static str, value: Arg) -> (r: Self)
        ensures
            r@ == self@.insert(name@, value@),
    {
        proof {
            use_type_invariant(&self);
        }
        let ghost before = self.entries@;
        let mut entries = self.entries;
        let mut i: usize = 0;
        while i < entries.len()
            invariant
                i <= entries@.len(),
                entries@ == before,
                self.entries@ == before,
                distinct_names(before),
                forall|j: int| 0 <= j < i ==> (#[trigger] before[j]).0@ != name@,
            decreases entries@.len() - i,
        {
            if str_eq(entries[i].0, name) {
                entries.set(i, (name, value));
                let table = ArgTable { entries };
                proof {
                    let after = table.entries@;
                    assert forall|q: Seq<char>| has_name(after, q) == has_name(before, q) by {
                        if has_name(before, q) {
                            assert(after[index_of_name(before, q)].0@ == q);
                        }
                    }
                }
                return table;
            }
            i += 1;
        }
        entries.push((name, value));
        let table = ArgTable { entries };
        proof {
            let after = table.entries@;
            assert(after[before.len() as int].0@ == name@);
            assert forall|q: Seq<char>| has_name(after, q) == (q == name@ || has_name(
                before,
                q,
            )) by {
                if has_name(before, q) {
                    assert(after[index_of_name(before, q)].0@ == q);
                }
            }
        }
        table
    }

    /// What is stored under `name`, if anything.
    pub fn get(&self, name: &str) -> (r: Option<&Arg>)
        ensures
            match r {
                Some(arg) => self@.contains_key(name@) && self@[name@] == arg@,
                None => !self@.contains_key(name@),
            },
    {
        proof {
            use_type_invariant(self);
        }
        let mut i: usize = 0;
        while i < self.entries.len()
            invariant
                i <= self.entries@.len(),
                distinct_names(self.entries@),
                forall|j: int| 0 <= j < i ==> (#[trigger] self.entries@[j]).0@ != name@,
            decreases self.entries@.len() - i,
        {
            if str_eq(self.entries[i].0, name) {
                return Some(&self.entries[i].1);
            }
            i += 1;
        }
        None
    }
}

/// The result of a successful parse: the command that was reached and what was given to it.
#[derive(Debug)]
pub struct Command {
    path: Vec<&'static str>,
    args: ArgTable,
    positional: Vec<String>,
}

/// The mathematical value of a [`Command`].
pub struct CommandView {
    /// The command names from the root down to the command that was reached.
    pub path: Seq<Seq<char>>,
    /// The parsed arguments, keyed by long name.
    pub args: Map<Seq<char>, ArgView>,
    /// The positional words, in the order in which they were given.
    pub positional: Seq<Seq<char>>,
}

impl View for Command {
    type V = CommandView;

    closed spec fn view(&self) -> CommandView {
        CommandView {
            path: str_views(self.path@),
            args: self.args@,
            positional: string_views(self.positional@),
        }
    }
}

impl Command {
    /// A command made of its three parts.
    pub fn new(path: Vec<&'static str>, args: ArgTable, positional: Vec<String>) -> (r: Self)
        ensures
            r@ == (CommandView {
                path: str_views(path@),
                args: args@,
                positional: string_views(positional@),
            }),
    {
        Command { path, args, positional }
    }

    /// The command names from the root down to the command that was reached.
    pub fn get_path(&self) -> (r: &[&'static str])
        ensures
            str_views(r@) == self@.path,
    {
        self.path.as_slice()
    }

    /// What was parsed for the argument with the long name `long`, if it was given.
    pub fn get_arg(&self, long: &str) -> (r: Option<&Arg>)
        ensures
            match r {
                Some(arg) => self@.args.contains_key(long@) && self@.args[long@] == arg@,
                None => !self@.args.contains_key(long@),
            },
    {
        self.args.get(long)
    }

    /// The positional words, in the order in which they were given.
    pub fn get_positional(&self) -> (r: &[String])
        ensures
            string_views(r@) == self@.positional,
    {
        self.positional.as_slice()
    }

    /// The positional words joined by single spaces.
    pub fn get_positional_string(&self) -> (r: String)
        ensures
            r@ == join_spec(self@.positional, space()),
    {
        proof {
            reveal_strlit(" ");
            assert(" "@ =~= space());
        }
        join_strings(self.positional.as_slice(), " ")
    }
}

} // verus!
