//! Help text for the commands of a tree, addressed by path.

use crate::schema::{ArgDef, ArgDefView, ArgType, CommandDef, CommandDefView};
use crate::text::{join_spec, join_strs, space, str_eq, str_views};
use vstd::prelude::*;
use vstd::slice::slice_subrange;
use vstd::string::*;

verus! {

/// The word that names an argument's kind in help output.
pub open spec fn kind_word(arg_type: ArgType) -> Seq<char> {
    match arg_type {
        ArgType::Flag => "flag"@,
        ArgType::Value => "value"@,
    }
}

/// The help line of one argument.
pub open spec fn arg_line(arg: ArgDefView) -> Seq<char> {
    "  -"@ + arg.short + ", --"@ + arg.long + ": "@ + arg.description + " ("@ + kind_word(
        arg.arg_type,
    ) + ")\n"@
}

/// The help lines of the arguments, in definition order.
pub open spec fn arg_lines(args: Seq<ArgDefView>) -> Seq<char>
    decreases args.len(),
{
    if args.len() == 0 {
        Seq::empty()
    } else {
        arg_lines(args.drop_last()) + arg_line(args.last())
    }
}

/// The help line of one subcommand.
pub open spec fn subcommand_line(child: CommandDefView) -> Seq<char> {
    "  "@ + child.name + ": "@ + child.description + "\n"@
}

/// The help lines of the subcommands, in definition order.
pub open spec fn subcommand_lines(children: Seq<CommandDefView>) -> Seq<char>
    decreases children.len(),
{
    if children.len() == 0 {
        Seq::empty()
    } else {
        subcommand_lines(children.drop_last()) + subcommand_line(children.last())
    }
}

/// The help text of one command: its name and description, then its
/// arguments, then its subcommands.
pub open spec fn help_text(def: CommandDefView) -> Seq<char> {
    "Command: "@ + def.name + "\n"@ + def.description + "\n"@ + "Arguments:\n"@ + arg_lines(
        def.args,
    ) + "\nSubcommands:\n"@ + subcommand_lines(def.subcommands)
}

/// The command that `path` addresses below `def`. The first name must be
/// that of `def` itself; each further name picks a subcommand of the
/// command reached so far.
pub open spec fn resolve(def: CommandDefView, path: Seq<Seq<char>>) -> Option<CommandDefView>
    decreases path.len(),
{
    if path.len() == 0 || path[0] != def.name {
        None
    } else if path.len() == 1 {
        Some(def)
    } else {
        match def.find_subcommand(path[1]) {
            Some(child) => resolve(child, path.skip(1)),
            None => None,
        }
    }
}

/// What is shown for `path`: the help text of the command it addresses, or
/// a notice that there is no such command.
pub open spec fn help_for(def: CommandDefView, path: Seq<Seq<char>>) -> Seq<char> {
    match resolve(def, path) {
        Some(found) => help_text(found),
        None => "Unknown command: "@ + join_spec(path, space()),
    }
}

/// Appends the help line of one argument.
fn push_arg_line(out: &mut String, arg: &ArgDef)
    ensures
        final(out)@ == old(out)@ + arg_line(arg@),
{
    out.append("  -");
    out.append(arg.short());
    out.append(", --");
    out.append(arg.long());
    out.append(": ");
    out.append(arg.description());
    out.append(" (");
    match arg.arg_type() {
        ArgType::Flag => out.append("flag"),
        ArgType::Value => out.append("value"),
    }
    out.append(")\n");
    assert(out@ =~= old(out)@ + arg_line(arg@));
}

/// Appends the help line of one subcommand.
fn push_subcommand_line(out: &mut String, child: &CommandDef)
    ensures
        final(out)@ == old(out)@ + subcommand_line(child@),
{
    out.append("  ");
    out.append(child.name());
    out.append(": ");
    out.append(child.description());
    out.append("\n");
    assert(out@ =~= old(out)@ + subcommand_line(child@));
}

impl CommandDef {
    /// Walks `path` from this command down and returns the command it addresses.
    pub fn get_command_from_path(&self, path: &[&str]) -> (r: Option<&CommandDef>)
        ensures
            match r {
                Some(found) => resolve(self@, str_views(path@)) == Some(found@),
                None => resolve(self@, str_views(path@)) is None,
            },
        decreases path@.len(),
    {
        let len = path.len();
        if len == 0 {
            return None;
        }
        if !str_eq(self.name(), path[0]) {
            return None;
        }
        if len == 1 {
            return Some(self);
        }
        match self.find_subcommand(path[1]) {
            Some(child) => {
                let rest = slice_subrange(path, 1, len);
                assert(str_views(rest@) =~= str_views(path@).skip(1));
                child.get_command_from_path(rest)
            },
            None => None,
        }
    }

    /// The help text for the command that `path` addresses, or a notice that
    /// there is no such command.
    pub fn get_help(&self, path: &[&str]) -> (r: String)
        ensures
            r@ == help_for(self@, str_views(path@)),
    {
        let command = match self.get_command_from_path(path) {
            Some(command) => command,
            None => {
                proof {
                    reveal_strlit(" ");
                    assert(" "@ =~= space());
                }
                let mut out = String::new();
                out.append("Unknown command: ");
                out.append(join_strs(path, " ").as_str());
                assert(out@ =~= help_for(self@, str_views(path@)));
                return out;
            },
        };
        let mut out = String::new();
        out.append("Command: ");
        out.append(command.name());
        out.append("\n");
        out.append(command.description());
        out.append("\n");
        out.append("Arguments:\n");
        let ghost head = out@;
        let args = command.args();
        let mut i: usize = 0;
        while i < args.len()
            invariant
                i <= args@.len(),
                args@.len() == command@.args.len(),
                forall|j: int| 0 <= j < args@.len() ==> (#[trigger] args@[j])@ == command@.args[j],
                out@ == head + arg_lines(command@.args.take(i as int)),
            decreases args@.len() - i,
        {
            push_arg_line(&mut out, &args[i]);
            proof {
                let next = command@.args.take(i + 1);
                assert(next.drop_last() =~= command@.args.take(i as int));
                assert(out@ =~= head + arg_lines(next));
            }
            i += 1;
        }
        assert(command@.args.take(i as int) =~= command@.args);
        out.append("\nSubcommands:\n");
        let ghost middle = out@;
        let children = command.subcommands();
        let mut k: usize = 0;
        while k < children.len()
            invariant
                k <= children@.len(),
                children@.len() == command@.subcommands.len(),
                forall|j: int|
                    0 <= j < children@.len() ==> (#[trigger] children@[j])@
                        == command@.subcommands[j],
                out@ == middle + subcommand_lines(command@.subcommands.take(k as int)),
            decreases children@.len() - k,
        {
            push_subcommand_line(&mut out, &children[k]);
            proof {
                let next = command@.subcommands.take(k + 1);
                assert(next.drop_last() =~= command@.subcommands.take(k as int));
                assert(out@ =~= middle + subcommand_lines(next));
            }
            k += 1;
        }
        assert(command@.subcommands.take(k as int) =~= command@.subcommands);
        assert(out@ =~= help_text(command@));
        out
    }
}

} // verus!
