//! The parser: what a command makes of its tokens, as a mathematical
//! function and as the code that computes it.

use crate::command::{Arg, ArgTable, ArgView, Command, CommandView};
use crate::error::{ParseError, ParseErrorView};
use crate::schema::{ArgType, CommandDef, CommandDefView};
use crate::text::{str_eq, str_views, string_views};
use crate::token::{token_views, tokenize, tokenize_spec, Token, TokenView};
use vstd::prelude::*;
use vstd::slice::slice_subrange;

verus! {

/// What a command has collected while its tokens are being read.
pub struct Progress {
    /// The arguments parsed so far, keyed by long name.
    pub args: Map<Seq<char>, ArgView>,
    /// The positional words collected so far.
    pub positional: Seq<Seq<char>>,
    /// Whether the next word may still name a subcommand.
    pub can_be_subcommand: bool,
    /// Whether an end-of-options marker has been read.
    pub everything_is_positional: bool,
}

impl Progress {
    /// The state in which a command starts reading its tokens.
    pub open spec fn start(def: CommandDefView) -> Progress {
        Progress {
            args: Map::empty(),
            positional: Seq::empty(),
            can_be_subcommand: def.subcommands.len() > 0,
            everything_is_positional: false,
        }
    }

    /// The state after a token that is neither a subcommand name nor an argument.
    pub open spec fn latched(self) -> Progress {
        Progress { can_be_subcommand: false, ..self }
    }

    /// The state after `word` was taken as a positional word.
    pub open spec fn with_word(self, word: Seq<char>) -> Progress {
        Progress { positional: self.positional.push(word), ..self }
    }

    /// The state after `value` was stored under the long name `long`.
    pub open spec fn with_arg(self, long: Seq<char>, value: ArgView) -> Progress {
        Progress { args: self.args.insert(long, value), can_be_subcommand: false, ..self }
    }

    /// The command that results when the tokens end in this state.
    pub open spec fn finish(self, path: Seq<Seq<char>>) -> CommandView {
        CommandView { path, args: self.args, positional: self.positional }
    }
}

/// The word `help`.
pub open spec fn help_word() -> Seq<char> {
    seq!['h', 'e', 'l', 'p']
}

/// Whether an option name asks for help: `help` or `h`.
pub open spec fn asks_for_help(name: Seq<char>) -> bool {
    name == help_word() || name == seq!['h']
}

/// The outcome of a parse, over mathematical values.
pub type Outcome = Result<CommandView, ParseErrorView>;

/// What the command `def` makes of `tokens` from position `i` on, having
/// collected `state` so far. `path` ends with the name of `def`; position 0
/// holds the token that named `def` and is never read.
pub open spec fn parse_from(
    def: CommandDefView,
    tokens: Seq<TokenView>,
    i: int,
    state: Progress,
    path: Seq<Seq<char>>,
) -> Outcome
    decreases tokens.len(), tokens.len() - i,
{
    if i < 1 || i >= tokens.len() {
        Ok(state.finish(path))
    } else if state.everything_is_positional {
        match tokens[i] {
            TokenView::Word(word) => parse_from(def, tokens, i + 1, state.with_word(word), path),
            _ => parse_from(def, tokens, i + 1, state, path),
        }
    } else {
        match tokens[i] {
            TokenView::EndOfOptions => parse_from(
                def,
                tokens,
                i + 1,
                Progress { everything_is_positional: true, ..state },
                path,
            ),
            TokenView::Word(word) => {
                if word == help_word() {
                    Err(ParseErrorView::HelpRequested { path })
                } else if state.can_be_subcommand && def.find_subcommand(word) is Some {
                    let child = def.find_subcommand(word)->0;
                    parse_from(
                        child,
                        tokens.skip(i),
                        1,
                        Progress::start(child),
                        path.push(child.name),
                    )
                } else {
                    parse_from(def, tokens, i + 1, state.latched().with_word(word), path)
                }
            },
            TokenView::Short(name) | TokenView::Long(name) => {
                if asks_for_help(name) {
                    Err(ParseErrorView::HelpRequested { path })
                } else {
                    match def.find_arg(name) {
                        None => Err(ParseErrorView::UnknownArg { path, name }),
                        Some(arg) => match arg.arg_type {
                            ArgType::Flag => parse_from(
                                def,
                                tokens,
                                i + 1,
                                state.with_arg(arg.long, ArgView::Flag),
                                path,
                            ),
                            ArgType::Value => {
                                if i + 1 < tokens.len() && tokens[i + 1] is Word {
                                    parse_from(
                                        def,
                                        tokens,
                                        i + 2,
                                        state.with_arg(
                                            arg.long,
                                            ArgView::Value(tokens[i + 1]->Word_0),
                                        ),
                                        path,
                                    )
                                } else {
                                    Err(ParseErrorView::MissingArgValue { path, name })
                                }
                            },
                        },
                    }
                }
            },
            TokenView::LongWithValue(name, value) => {
                match def.find_arg(name) {
                    None => Err(ParseErrorView::UnknownArg { path, name }),
                    Some(arg) => match arg.arg_type {
                        ArgType::Flag => Err(ParseErrorView::UnexpectedArgValue { path, name }),
                        ArgType::Value => parse_from(
                            def,
                            tokens,
                            i + 1,
                            state.with_arg(arg.long, ArgView::Value(value)),
                            path,
                        ),
                    },
                }
            },
        }
    }
}

/// What the command `def` makes of `tokens`, whose first token named it,
/// when `path` holds the names of the commands above it.
pub open spec fn parse_node(
    def: CommandDefView,
    tokens: Seq<TokenView>,
    path: Seq<Seq<char>>,
) -> Outcome {
    parse_from(def, tokens, 1, Progress::start(def), path.push(def.name))
}

/// The outcome of an executable parse as a mathematical value.
pub open spec fn outcome_view(r: Result<Command, ParseError>) -> Outcome {
    match r {
        Ok(command) => Ok(command@),
        Err(error) => Err(error@),
    }
}

/// The state of an executable parse as a mathematical value.
pub open spec fn progress_view(
    args: ArgTable,
    positional: Vec<String>,
    can_be_subcommand: bool,
    everything_is_positional: bool,
) -> Progress {
    Progress {
        args: args@,
        positional: string_views(positional@),
        can_be_subcommand,
        everything_is_positional,
    }
}

impl CommandDef {
    /// Parses the tokens of this command. `tokens[0]` is the token that named
    /// it, and `path` holds the names of the commands above it. Reading stops
    /// at the first error, or hands over to the subcommand that the first
    /// word names.
    pub fn parse_intrnal(&self, tokens: &[Token], path: Vec<&'static str>) -> (r: Result<
        Command,
        ParseError,
    >)
        ensures
            outcome_view(r) == parse_node(self@, token_views(tokens@), str_views(path@)),
        decreases tokens@.len(),
    {
        let ghost toks = token_views(tokens@);
        let ghost above = str_views(path@);
        let ghost here = above.push(self@.name);
        let mut trail = path;
        trail.push(self.name());
        assert(str_views(trail@) =~= here);
        let mut args = ArgTable::new();
        let mut positional: Vec<String> = Vec::new();
        assert(string_views(positional@) =~= Seq::empty());
        let mut can_be_subcommand = self.subcommands().len() > 0;
        let mut everything_is_positional = false;
        let mut i: usize = 1;
        while i < tokens.len()
            invariant
                1 <= i,
                toks == token_views(tokens@),
                above == str_views(path@),
                str_views(trail@) == here,
                parse_node(self@, toks, above) == parse_from(
                    self@,
                    toks,
                    i as int,
                    progress_view(args, positional, can_be_subcommand, everything_is_positional),
                    here,
                ),
            decreases tokens@.len() - i,
        {
            let token = &tokens[i];
            let ghost state = progress_view(
                args,
                positional,
                can_be_subcommand,
                everything_is_positional,
            );
            assert(toks[i as int] == token@);
            if everything_is_positional {
                if let Token::Word(word) = token {
                    positional.push(word.clone());
                    assert(string_views(positional@) =~= state.positional.push(word@));
                }
                i += 1;
            } else {
                match token {
                    Token::EndOfOptions => {
                        everything_is_positional = true;
                        i += 1;
                    },
                    Token::Word(word) => {
                        proof {
                            reveal_strlit("help");
                            assert("help"@ =~= help_word());
                        }
                        if str_eq(word.as_str(), "help") {
                            return Err(ParseError::HelpRequested { path: trail });
                        }
                        if can_be_subcommand {
                            if let Some(child) = self.find_subcommand(word.as_str()) {
                                let rest = slice_subrange(tokens, i, tokens.len());
                                assert(token_views(rest@) =~= toks.skip(i as int));
                                return child.parse_intrnal(rest, trail);
                            }
                        }
                        can_be_subcommand = false;
                        positional.push(word.clone());
                        assert(string_views(positional@) =~= state.positional.push(word@));
                        i += 1;
                    },
                    Token::Short(name) | Token::Long(name) => {
                        proof {
                            reveal_strlit("help");
                            reveal_strlit("h");
                            assert("help"@ =~= help_word());
                            assert("h"@ =~= seq!['h']);
                        }
                        if str_eq(name.as_str(), "help") || str_eq(name.as_str(), "h") {
                            return Err(ParseError::HelpRequested { path: trail });
                        }
                        let arg_def = match self.find_arg(name.as_str()) {
                            Some(arg_def) => arg_def,
                            None => {
                                let name = name.clone();
                                return Err(ParseError::UnknownArg { path: trail, name });
                            },
                        };
                        let parsed = match arg_def.arg_type() {
                            ArgType::Flag => Arg::Flag,
                            ArgType::Value => {
                                if i + 1 >= tokens.len() {
                                    let name = name.clone();
                                    return Err(ParseError::MissingArgValue { path: trail, name });
                                }
                                let next = &tokens[i + 1];
                                assert(toks[i + 1] == next@);
                                match next {
                                    Token::Word(value) => {
                                        i += 1;
                                        Arg::Value(value.clone())
                                    },
                                    _ => {
                                        let name = name.clone();
                                        return Err(
                                            ParseError::MissingArgValue { path: trail, name },
                                        );
                                    },
                                }
                            },
                        };
                        args = args.insert(arg_def.long(), parsed);
                        can_be_subcommand = false;
                        i += 1;
                    },
                    Token::LongWithValue(name, value) => {
                        let arg_def = match self.find_arg(name.as_str()) {
                            Some(arg_def) => arg_def,
                            None => {
                                let name = name.clone();
                                return Err(ParseError::UnknownArg { path: trail, name });
                            },
                        };
                        match arg_def.arg_type() {
                            ArgType::Flag => {
                                let name = name.clone();
                                return Err(ParseError::UnexpectedArgValue { path: trail, name });
                            },
                            ArgType::Value => {},
                        }
                        args = args.insert(arg_def.long(), Arg::Value(value.clone()));
                        can_be_subcommand = false;
                        i += 1;
                    },
                }
            }
        }
        Ok(Command::new(trail, args, positional))
    }

    /// Parses raw arguments against this command as the root. The first
    /// argument stands for the root itself and is not examined.
    pub fn parse(&self, args: &[String]) -> (r: Result<Command, ParseError>)
        ensures
            outcome_view(r) == parse_node(
                self@,
                tokenize_spec(string_views(args@)),
                Seq::empty(),
            ),
    {
        let tokens = tokenize(args);
        let path: Vec<&'static str> = Vec::new();
        assert(str_views(path@) =~= Seq::empty());
        self.parse_intrnal(tokens.as_slice(), path)
    }
}

} // verus!
