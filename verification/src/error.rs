//! The ways in which a parse stops early, and the message for each.

use crate::text::{join_spec, join_strs, space, str_views};
use vstd::prelude::*;
use vstd::string::*;

verus! {

/// Why parsing stopped. Every case carries the command path reached so far.
#[derive(Debug)]
pub enum ParseError {
    UnknownCommand { path: Vec<&'static str>, name: String },
    UnknownArg { path: Vec<&'static str>, name: String },
    MissingArgValue { path: Vec<&'static str>, name: String },
    UnexpectedArgValue { path: Vec<&'static str>, name: String },
    MissingValue { path: Vec<&'static str>, name: String },
    HelpRequested { path: Vec<&'static str> },
}

/// The mathematical value of a [`ParseError`].
pub enum ParseErrorView {
    UnknownCommand { path: Seq<Seq<char>>, name: Seq<char> },
    UnknownArg { path: Seq<Seq<char>>, name: Seq<char> },
    MissingArgValue { path: Seq<Seq<char>>, name: Seq<char> },
    UnexpectedArgValue { path: Seq<Seq<char>>, name: Seq<char> },
    MissingValue { path: Seq<Seq<char>>, name: Seq<char> },
    HelpRequested { path: Seq<Seq<char>> },
}

impl ParseErrorView {
    /// The command path at which parsing stopped.
    pub open spec fn path(self) -> Seq<Seq<char>> {
        match self {
            ParseErrorView::UnknownCommand { path, .. } => path,
            ParseErrorView::UnknownArg { path, .. } => path,
            ParseErrorView::MissingArgValue { path, .. } => path,
            ParseErrorView::UnexpectedArgValue { path, .. } => path,
            ParseErrorView::MissingValue { path, .. } => path,
            ParseErrorView::HelpRequested { path } => path,
        }
    }

    /// The text that precedes the offending name in the message.
    pub open spec fn headline(self) -> Seq<char> {
        match self {
            ParseErrorView::UnknownCommand { .. } => "Unknown command '"@,
            ParseErrorView::UnknownArg { .. } => "Unknown argument '"@,
            ParseErrorView::MissingArgValue { .. } => "Missing value for argument '"@,
            ParseErrorView::UnexpectedArgValue { .. } => "Unexpected value for flag argument '"@,
            ParseErrorView::MissingValue { .. } => "Missing value for command '"@,
            ParseErrorView::HelpRequested { .. } => "Help requested at '"@,
        }
    }

    /// The one-line message for this error.
    pub open spec fn message(self) -> Seq<char> {
        let place = join_spec(self.path(), space()) + "'"@;
        match self {
            ParseErrorView::UnknownCommand { name, .. }
            | ParseErrorView::UnknownArg { name, .. }
            | ParseErrorView::MissingArgValue { name, .. }
            | ParseErrorView::UnexpectedArgValue { name, .. }
            | ParseErrorView::MissingValue { name, .. } => self.headline() + name + "' at '"@
                + place,
            ParseErrorView::HelpRequested { .. } => self.headline() + place,
        }
    }
}

impl View for ParseError {
    type V = ParseErrorView;

    open spec fn view(&self) -> ParseErrorView {
        match self {
            ParseError::UnknownCommand { path, name } => ParseErrorView::UnknownCommand {
                path: str_views(path@),
                name: name@,
            },
            ParseError::UnknownArg { path, name } => ParseErrorView::UnknownArg {
                path: str_views(path@),
                name: name@,
            },
            ParseError::MissingArgValue { path, name } => ParseErrorView::MissingArgValue {
                path: str_views(path@),
                name: name@,
            },
            ParseError::UnexpectedArgValue { path, name } => ParseErrorView::UnexpectedArgValue {
                path: str_views(path@),
                name: name@,
            },
            ParseError::MissingValue { path, name } => ParseErrorView::MissingValue {
                path: str_views(path@),
                name: name@,
            },
            ParseError::HelpRequested { path } => ParseErrorView::HelpRequested {
                path: str_views(path@),
            },
        }
    }
}

/// Writes `headline`, the name, and the place where parsing stopped.
fn named_message(headline: &str, name: &str, path: &[&'static str]) -> (r: String)
    ensures
        r@ == headline@ + name@ + "' at '"@ + (join_spec(str_views(path@), space()) + "'"@),
{
    proof {
        reveal_strlit(" ");
        assert(" "@ =~= space());
    }
    let place = join_strs(path, " ");
    let mut out = String::new();
    out.append(headline);
    out.append(name);
    out.append("' at '");
    out.append(place.as_str());
    out.append("'");
    assert(out@ =~= headline@ + name@ + "' at '"@ + (join_spec(str_views(path@), space()) + "'"@));
    out
}

impl ParseError {
    /// The command path at which parsing stopped.
    pub fn path(&self) -> (r: &[&'static str])
        ensures
            str_views(r@) == self@.path(),
    {
        match self {
            ParseError::UnknownCommand { path, .. } => path.as_slice(),
            ParseError::UnknownArg { path, .. } => path.as_slice(),
            ParseError::MissingArgValue { path, .. } => path.as_slice(),
            ParseError::UnexpectedArgValue { path, .. } => path.as_slice(),
            ParseError::MissingValue { path, .. } => path.as_slice(),
            ParseError::HelpRequested { path } => path.as_slice(),
        }
    }

    /// The one-line message for this error.
    pub fn message(&self) -> (r: String)
        ensures
            r@ == self@.message(),
    {
        match self {
            ParseError::UnknownCommand { path, name } => named_message(
                "Unknown command '",
                name.as_str(),
                path.as_slice(),
            ),
            ParseError::UnknownArg { path, name } => named_message(
                "Unknown argument '",
                name.as_str(),
                path.as_slice(),
            ),
            ParseError::MissingArgValue { path, name } => named_message(
                "Missing value for argument '",
                name.as_str(),
                path.as_slice(),
            ),
            ParseError::UnexpectedArgValue { path, name } => named_message(
                "Unexpected value for flag argument '",
                name.as_str(),
                path.as_slice(),
            ),
            ParseError::MissingValue { path, name } => named_message(
                "Missing value for command '",
                name.as_str(),
                path.as_slice(),
            ),
            ParseError::HelpRequested { path } => {
                proof {
                    reveal_strlit(" ");
                    assert(" "@ =~= space());
                }
                let place = join_strs(path.as_slice(), " ");
                let mut out = String::new();
                out.append("Help requested at '");
                out.append(place.as_str());
                out.append("'");
                assert(out@ =~= self@.message());
                out
            },
        }
    }
}

} // verus!
