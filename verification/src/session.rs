//! Session names and the invocations of the terminal multiplexer.

use crate::text::{chars_of, str_eq, string_views, trim, trim_spec};
use vstd::prelude::*;
use vstd::string::*;

verus! {

/// `s` with every full stop replaced by an underscore.
pub open spec fn underscored(s: Seq<char>) -> Seq<char> {
    s.map_values(
        |c: char|
            if c == '.' {
                '_'
            } else {
                c
            },
    )
}

/// The session name for a directory name: the name with every full stop
/// replaced by an underscore.
pub fn session_name_of(component: &str) -> (r: String)
    ensures
        r@ == underscored(component@),
{
    let chars = chars_of(component);
    let n = chars.len();
    let mut out = String::new();
    let mut start: usize = 0;
    let mut k: usize = 0;
    while k < n
        invariant
            start <= k <= n,
            n == chars@.len(),
            chars@ == component@,
            out@ == underscored(component@.take(start as int)),
            forall|j: int| start <= j < k ==> component@[j] != '.',
        decreases n - k,
    {
        if chars[k] == '.' {
            out.append(component.substring_char(start, k));
            out.append("_");
            proof {
                reveal_strlit("_");
            }
            assert(out@ =~= underscored(component@.take(k + 1)));
            start = k + 1;
        }
        k += 1;
    }
    out.append(component.substring_char(start, n));
    assert(out@ =~= underscored(component@));
    out
}

/// The last component of a path, as `std::path::Path::file_name` finds it
/// and `to_string_lossy` writes it; `None` where the path has no such
/// component. Nothing is claimed about which part of the path this is: the
/// rules for separators belong to the platform.
#[verifier::external_body]
fn final_component(path: &str) -> (r: Option<String>) {
    match std::path::Path::new(path).file_name() {
        Some(name) => Some(name.to_string_lossy().into_owned()),
        None => None,
    }
}

/// The session name for a workspace path: the name of its last component
/// with every full stop replaced by an underscore, or the empty name where
/// the path has no last component.
pub fn get_session_name(path: &str) -> (r: String)
    ensures
        !r@.contains('.'),
{
    let name = session_name_for(final_component(path));
    assert(!name@.contains('.')) by {
        if name@.contains('.') {
            let i = choose|i: int| 0 <= i < name@.len() && name@[i] == '.';
            assert(name@[i] != '.');
        }
    }
    name
}

/// The session name for what was found as the last component of a path:
/// the component with every full stop replaced by an underscore, or the
/// empty name where there is none.
pub open spec fn session_name_spec(component: Option<Seq<char>>) -> Seq<char> {
    match component {
        Some(name) => underscored(name),
        None => Seq::empty(),
    }
}

/// The session name for what was found as the last component of a path.
pub fn session_name_for(component: Option<String>) -> (r: String)
    ensures
        r@ == session_name_spec(
            match component {
                Some(name) => Some(name@),
                None => None,
            },
        ),
{
    match component {
        Some(name) => session_name_of(name.as_str()),
        None => String::new(),
    }
}

/// Whether the session that the terminal multiplexer reports as the
/// current one is the session called `session_name`. `reported` is what it
/// printed, or `None` if it could not be asked; white space around the
/// reported name does not count.
pub open spec fn same_session(session_name: Seq<char>, reported: Option<Seq<char>>) -> bool {
    match reported {
        Some(text) => trim_spec(text) == session_name,
        None => false,
    }
}

/// Decides whether the reported current session is the session called
/// `session_name`.
pub fn is_same_tmux_session(session_name: &str, reported: Option<&str>) -> (r: bool)
    ensures
        r == same_session(
            session_name@,
            match reported {
                Some(text) => Some(text@),
                None => None,
            },
        ),
{
    match reported {
        Some(text) => str_eq(trim(text), session_name),
        None => false,
    }
}

/// The arguments that create the session, or attach to it if it exists,
/// with its working directory; `detached` adds the switch that leaves the
/// session in the background.
pub open spec fn new_session_spec(
    session_name: Seq<char>,
    session_path: Seq<char>,
    detached: bool,
) -> Seq<Seq<char>> {
    let attach = seq!["new-session"@, "-A"@, "-s"@, session_name, "-c"@, session_path];
    if detached {
        attach.push("-d"@)
    } else {
        attach
    }
}

/// The arguments that switch the current client to the session.
pub open spec fn switch_client_spec(session_name: Seq<char>) -> Seq<Seq<char>> {
    seq!["switch-client"@, "-t"@, session_name]
}

/// The invocations, in order, that bring the user into the session. Outside
/// the multiplexer the session is created or attached to. Inside it nothing
/// is done if the session is the current one; otherwise the session is
/// created in the background and the client is switched to it.
pub open spec fn go_to_tmux_spec(
    session_name: Seq<char>,
    session_path: Seq<char>,
    in_tmux: bool,
    reported: Option<Seq<char>>,
) -> Seq<Seq<Seq<char>>> {
    if !in_tmux {
        seq![new_session_spec(session_name, session_path, false)]
    } else if same_session(session_name, reported) {
        Seq::empty()
    } else {
        seq![
            new_session_spec(session_name, session_path, true),
            switch_client_spec(session_name),
        ]
    }
}

/// The argument lists of a sequence of invocations.
pub open spec fn invocation_views(s: Seq<Vec<String>>) -> Seq<Seq<Seq<char>>> {
    s.map_values(|v: Vec<String>| string_views(v@))
}

/// Writes the arguments that create the session or attach to it.
pub fn new_session_args(session_name: &str, session_path: &str, detached: bool) -> (r: Vec<String>)
    ensures
        string_views(r@) == new_session_spec(session_name@, session_path@, detached),
{
    let mut out: Vec<String> = Vec::new();
    out.push("new-session".to_owned());
    out.push("-A".to_owned());
    out.push("-s".to_owned());
    out.push(session_name.to_owned());
    out.push("-c".to_owned());
    out.push(session_path.to_owned());
    if detached {
        out.push("-d".to_owned());
    }
    assert(string_views(out@) =~= new_session_spec(session_name@, session_path@, detached));
    out
}

/// Writes the arguments that switch the current client to the session.
pub fn switch_client_args(session_name: &str) -> (r: Vec<String>)
    ensures
        string_views(r@) == switch_client_spec(session_name@),
{
    let mut out: Vec<String> = Vec::new();
    out.push("switch-client".to_owned());
    out.push("-t".to_owned());
    out.push(session_name.to_owned());
    assert(string_views(out@) =~= switch_client_spec(session_name@));
    out
}

/// Plans the invocations that bring the user into the session, given
/// whether the program runs inside the multiplexer and what it reported as
/// the current session.
pub fn go_to_tmux(
    session_name: &str,
    session_path: &str,
    in_tmux: bool,
    reported: Option<&str>,
) -> (r: Vec<Vec<String>>)
    ensures
        invocation_views(r@) == go_to_tmux_spec(
            session_name@,
            session_path@,
            in_tmux,
            match reported {
                Some(text) => Some(text@),
                None => None,
            },
        ),
{
    let mut plan: Vec<Vec<String>> = Vec::new();
    if !in_tmux {
        plan.push(new_session_args(session_name, session_path, false));
    } else if is_same_tmux_session(session_name, reported) {
    } else {
        plan.push(new_session_args(session_name, session_path, true));
        plan.push(switch_client_args(session_name));
    }
    assert(invocation_views(plan@) =~= go_to_tmux_spec(
        session_name@,
        session_path@,
        in_tmux,
        match reported {
            Some(text) => Some(text@),
            None => None,
        },
    ));
    plan
}

} // verus!
