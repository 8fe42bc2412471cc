//! The command tree: commands, their arguments and their subcommands.

use crate::text::str_eq;
use vstd::prelude::*;

verus! {

/// Whether an argument is a bare switch or carries one value.
#[derive(Debug, Clone, Copy, PartialEq, Eq, Structural)]
pub enum ArgType {
    Flag,
    Value,
}

/// The definition of one named argument of a command.
#[derive(Debug)]
pub struct ArgDef {
    short: &'static str,
    long: &'static str,
    description: &'static str,
    arg_type: ArgType,
}

/// The mathematical value of an [`ArgDef`].
pub struct ArgDefView {
    pub short: Seq<char>,
    pub long: Seq<char>,
    pub description: Seq<char>,
    pub arg_type: ArgType,
}

impl ArgDefView {
    /// Whether `name` is the short or the long name of this argument.
    pub open spec fn answers_to(self, name: Seq<char>) -> bool {
        self.long == name || self.short == name
    }
}

impl View for ArgDef {
    type V = ArgDefView;

    closed spec fn view(&self) -> ArgDefView {
        ArgDefView {
            short: self.short@,
            long: self.long@,
            description: self.description@,
            arg_type: self.arg_type,
        }
    }
}

impl ArgDef {
    /// The short name, written after a single dash.
    pub fn short(&self) -> (r: &'static str)
        ensures
            r@ == self@.short,
    {
        self.short
    }

    /// The long name, under which a parsed value is stored.
    pub fn long(&self) -> (r: &'static str)
        ensures
            r@ == self@.long,
    {
        self.long
    }

    /// The text shown for this argument in help output.
    pub fn description(&self) -> (r: &'static str)
        ensures
            r@ == self@.description,
    {
        self.description
    }

    /// Whether the argument is a switch or carries a value.
    pub fn arg_type(&self) -> (r: ArgType)
        ensures
            r == self@.arg_type,
    {
        self.arg_type
    }
}

/// A node of the command tree: a command with its arguments and its subcommands.
#[derive(Debug)]
pub struct CommandDef {
    name: &'static str,
    description: &'static str,
    args: Vec<ArgDef>,
    subcommands: Vec<CommandDef>,
}

/// The mathematical value of a [`CommandDef`]: the whole subtree below it.
pub struct CommandDefView {
    pub name: Seq<char>,
    pub description: Seq<char>,
    pub args: Seq<ArgDefView>,
    pub subcommands: Seq<CommandDefView>,
}

impl CommandDefView {
    /// The least index at or after `from` of a subcommand called `name`.
    pub open spec fn child_index_from(self, name: Seq<char>, from: int) -> Option<int>
        decreases self.subcommands.len() - from,
    {
        if from < 0 || from >= self.subcommands.len() {
            None
        } else if self.subcommands[from].name == name {
            Some(from)
        } else {
            self.child_index_from(name, from + 1)
        }
    }

    /// The first subcommand, in definition order, called `name`.
    pub open spec fn find_subcommand(self, name: Seq<char>) -> Option<CommandDefView> {
        match self.child_index_from(name, 0) {
            Some(i) => Some(self.subcommands[i]),
            None => None,
        }
    }

    /// The least index at or after `from` of an argument that answers to `name`.
    pub open spec fn arg_index_from(self, name: Seq<char>, from: int) -> Option<int>
        decreases self.args.len() - from,
    {
        if from < 0 || from >= self.args.len() {
            None
        } else if self.args[from].answers_to(name) {
            Some(from)
        } else {
            self.arg_index_from(name, from + 1)
        }
    }

    /// The first argument, in definition order, whose short or long name is `name`.
    pub open spec fn find_arg(self, name: Seq<char>) -> Option<ArgDefView> {
        match self.arg_index_from(name, 0) {
            Some(i) => Some(self.args[i]),
            None => None,
        }
    }
}

/// The value of a node, computed over the tree below it.
pub closed spec fn node_view(node: CommandDef) -> CommandDefView
    decreases node,
{
    CommandDefView {
        name: node.name@,
        description: node.description@,
        args: node.args@.map_values(|a: ArgDef| a@),
        subcommands: Seq::new(
            node.subcommands@.len(),
            |i: int|
                if 0 <= i < node.subcommands@.len() {
                    node_view(node.subcommands@[i])
                } else {
                    arbitrary()
                },
        ),
    }
}

impl View for CommandDef {
    type V = CommandDefView;

    closed spec fn view(&self) -> CommandDefView {
        node_view(*self)
    }
}

impl CommandDef {
    /// A command without arguments and without subcommands.
    pub fn new(name: &'static str, description: &'static str) -> (r: Self)
        ensures
            r@ == (CommandDefView {
                name: name@,
                description: description@,
                args: Seq::empty(),
                subcommands: Seq::empty(),
            }),
    {
        let node = CommandDef {
            name: name,
            description: description,
            args: vec![],
            subcommands: vec![],
        };
        assert(node@.args =~= Seq::empty());
        assert(node@.subcommands =~= Seq::empty());
        node
    }

    /// The same command with one more argument definition, placed last.
    pub fn add_arg(
        self,
        short: &'static str,
        long: &'static str,
        arg_type: ArgType,
        description: &'static str,
    ) -> (r: Self)
        ensures
            r@ == (CommandDefView {
                args: self@.args.push(
                    ArgDefView { short: short@, long: long@, description: description@, arg_type },
                ),
                ..self@
            }),
    {
        let arg = ArgDef { short: short, long: long, description: description, arg_type };
        let mut node = self;
        node.args.push(arg);
        assert(node@.args =~= self@.args.push(arg@));
        assert(node@.subcommands =~= self@.subcommands);
        node
    }

    /// The same command with one more subcommand, placed last.
    pub fn add_subcommand(self, subcommand: CommandDef) -> (r: Self)
        ensures
            r@ == (CommandDefView { subcommands: self@.subcommands.push(subcommand@), ..self@ }),
    {
        let mut node = self;
        node.subcommands.push(subcommand);
        assert(node@.subcommands =~= self@.subcommands.push(subcommand@));
        assert(node@.args =~= self@.args);
        node
    }

    /// The name of this command.
    pub fn name(&self) -> (r: &'static str)
        ensures
            r@ == self@.name,
    {
        self.name
    }

    /// The text shown for this command in help output.
    pub fn description(&self) -> (r: &'static str)
        ensures
            r@ == self@.description,
    {
        self.description
    }

    /// The argument definitions, in definition order.
    pub fn args(&self) -> (r: &[ArgDef])
        ensures
            r@.len() == self@.args.len(),
            forall|i: int| 0 <= i < r@.len() ==> (#[trigger] r@[i])@ == self@.args[i],
    {
        self.args.as_slice()
    }

    /// The subcommands, in definition order.
    pub fn subcommands(&self) -> (r: &[CommandDef])
        ensures
            r@.len() == self@.subcommands.len(),
            forall|i: int| 0 <= i < r@.len() ==> (#[trigger] r@[i])@ == self@.subcommands[i],
    {
        self.subcommands.as_slice()
    }

    /// Looks a subcommand up by its exact name; the first one defined wins.
    pub fn find_subcommand(&self, name: &str) -> (r: Option<&CommandDef>)
        ensures
            match r {
                Some(child) => self@.find_subcommand(name@) == Some(child@),
                None => self@.find_subcommand(name@) is None,
            },
    {
        let mut i: usize = 0;
        while i < self.subcommands.len()
            invariant
                i <= self.subcommands@.len(),
                self@.subcommands.len() == self.subcommands@.len(),
                forall|j: int|
                    0 <= j < self.subcommands@.len() ==> self@.subcommands[j] == (
                    #[trigger] self.subcommands@[j])@,
                self@.child_index_from(name@, 0) == self@.child_index_from(name@, i as int),
            decreases self.subcommands@.len() - i,
        {
            let child = &self.subcommands[i];
            if str_eq(child.name, name) {
                return Some(child);
            }
            i += 1;
        }
        None
    }

    /// Looks an argument up by its short or its long name; the first one defined wins.
    pub fn find_arg(&self, name: &str) -> (r: Option<&ArgDef>)
        ensures
            match r {
                Some(arg) => self@.find_arg(name@) == Some(arg@),
                None => self@.find_arg(name@) is None,
            },
    {
        let mut i: usize = 0;
        while i < self.args.len()
            invariant
                i <= self.args@.len(),
                self@.args.len() == self.args@.len(),
                forall|j: int|
                    0 <= j < self.args@.len() ==> self@.args[j] == (#[trigger] self.args@[j])@,
                self@.arg_index_from(name@, 0) == self@.arg_index_from(name@, i as int),
            decreases self.args@.len() - i,
        {
            let arg = &self.args[i];
            if str_eq(arg.long, name) || str_eq(arg.short, name) {
                return Some(arg);
            }
            i += 1;
        }
        None
    }
}

} // verus!
