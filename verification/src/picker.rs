//! The text exchanged with the interactive picker.

use crate::config::{workspace_views, Workspace};
use crate::text::{
    chars_of, decimal, decimal_spec, first_index_from, first_index_of, space, trim, trim_spec,
};
use vstd::prelude::*;
use vstd::string::*;

verus! {

/// The line offered for the workspace at position `index`: its number,
/// counted from one, a space, and its path.
pub open spec fn candidate_line(index: int, path: Seq<char>) -> Seq<char> {
    decimal_spec((index + 1) as nat) + space() + path
}

/// The first `count` candidate lines, each ended by a line feed except the
/// last one.
pub open spec fn candidate_lines(paths: Seq<Seq<char>>, count: int) -> Seq<char>
    decreases count,
{
    if count <= 0 || count > paths.len() {
        Seq::empty()
    } else if count == 1 {
        candidate_line(0, paths[0])
    } else {
        candidate_lines(paths, count - 1) + seq!['\n'] + candidate_line(
            count - 1,
            paths[count - 1],
        )
    }
}

/// The text handed to the picker: one numbered line per workspace.
pub open spec fn picker_input_spec(paths: Seq<Seq<char>>) -> Seq<char> {
    candidate_lines(paths, paths.len() as int)
}

/// The path in a line that the picker gave back: what follows the first
/// space once the white space around the line is cut off. Without a space
/// there is no path, and the result is empty.
pub open spec fn picked_path_spec(output: Seq<char>) -> Seq<char> {
    let line = trim_spec(output);
    match first_index_of(line, ' ') {
        Some(k) => line.skip(k + 1),
        None => Seq::empty(),
    }
}

/// Writes the text handed to the picker: one numbered line per workspace.
pub fn picker_input(workspaces: &[Workspace]) -> (r: String)
    ensures
        r@ == picker_input_spec(workspace_views(workspaces@)),
{
    let ghost paths = workspace_views(workspaces@);
    let mut out = String::new();
    let mut i: usize = 0;
    while i < workspaces.len()
        invariant
            i <= workspaces@.len(),
            paths == workspace_views(workspaces@),
            out@ == candidate_lines(paths, i as int),
        decreases workspaces@.len() - i,
    {
        proof {
            reveal_strlit("\n");
            reveal_strlit(" ");
            assert("\n"@ =~= seq!['\n']);
            assert(" "@ =~= space());
        }
        if i > 0 {
            out.append("\n");
        }
        let number = decimal(i + 1);
        out.append(number.as_str());
        out.append(" ");
        out.append(workspaces[i].path.as_str());
        assert(out@ =~= candidate_lines(paths, i + 1));
        i += 1;
    }
    out
}

/// Reads the path out of the line that the picker gave back.
pub fn picked_path(output: &str) -> (r: String)
    ensures
        r@ == picked_path_spec(output@),
{
    let line = trim(output);
    let chars = chars_of(line);
    let n = chars.len();
    let mut k: usize = 0;
    while k < n && chars[k] != ' '
        invariant
            k <= n,
            n == chars@.len(),
            chars@ == line@,
            first_index_of(line@, ' ') == first_index_from(line@, ' ', k as int),
        decreases n - k,
    {
        k += 1;
    }
    if k < n {
        line.substring_char(k + 1, n).to_owned()
    } else {
        String::new()
    }
}

} // verus!
