//! What holds of every parse, proved from the definition of the parser.

use crate::command::{ArgView, CommandView};
use crate::error::ParseErrorView;
use crate::help::resolve;
use crate::parser::{asks_for_help, help_word, parse_from, parse_node, Outcome, Progress};
use crate::schema::{ArgType, CommandDefView};
use crate::text::{first_index_of, lemma_first_index_from};
use crate::token::{classify, end_marker, options_ended, tokenize_spec, TokenView};
use vstd::prelude::*;

verus! {

/// The content of the word tokens among `tokens`, in order.
pub open spec fn words_of(tokens: Seq<TokenView>) -> Seq<Seq<char>>
    decreases tokens.len(),
{
    if tokens.len() == 0 {
        Seq::empty()
    } else {
        match tokens[0] {
            TokenView::Word(word) => seq![word] + words_of(tokens.skip(1)),
            _ => words_of(tokens.skip(1)),
        }
    }
}

/// The command path that an outcome reports, be it a success or an error.
pub open spec fn reported_path(outcome: Outcome) -> Seq<Seq<char>> {
    match outcome {
        Ok(command) => command.path,
        Err(error) => error.path(),
    }
}

/// Whether `token` is an option token, short or long, with the name `name`.
pub open spec fn is_option(token: TokenView, name: Seq<char>) -> bool {
    token == TokenView::Short(name) || token == TokenView::Long(name)
}

/// Whether the token at `i` is a word at which the command hands over to
/// the subcommand that the word names.
pub open spec fn hands_over(
    def: CommandDefView,
    tokens: Seq<TokenView>,
    i: int,
    state: Progress,
) -> bool {
    &&& 1 <= i < tokens.len()
    &&& !state.everything_is_positional
    &&& state.can_be_subcommand
    &&& tokens[i] matches TokenView::Word(word)
    &&& word != help_word()
    &&& def.find_subcommand(word) is Some
}

/// A subcommand found under a name carries that name.
proof fn child_carries_its_name(def: CommandDefView, name: Seq<char>, from: int)
    requires
        0 <= from,
    ensures
        match def.child_index_from(name, from) {
            Some(k) => from <= k < def.subcommands.len() && def.subcommands[k].name == name,
            None => true,
        },
    decreases def.subcommands.len() - from,
{
    if from < def.subcommands.len() && def.subcommands[from].name != name {
        child_carries_its_name(def, name, from + 1);
    }
}

/// Tokenizing keeps the length: every raw argument becomes exactly one token.
pub proof fn tokenize_keeps_length(args: Seq<Seq<char>>)
    ensures
        tokenize_spec(args).len() == args.len(),
{
}

/// A long option with an inline value is split at its first equals sign:
/// the key holds none, and key, sign and value together are the text behind
/// the two dashes. Further equals signs belong to the value.
pub proof fn inline_value_splits_at_first_sign(arg: Seq<char>)
    requires
        arg.len() >= 2,
        arg[0] == '-',
        arg[1] == '-',
        arg.skip(2).contains('='),
    ensures
        classify(arg) matches TokenView::LongWithValue(key, value) && !key.contains('=') && key
            + seq!['='] + value == arg.skip(2),
{
    let rest = arg.skip(2);
    lemma_first_index_from(rest, '=', 0);
    let at = choose|i: int| 0 <= i < rest.len() && rest[i] == '=';
    assert(rest[at] == '=');
    assert(arg != end_marker());
    let k = first_index_of(rest, '=')->0;
    assert(rest.take(k) + seq!['='] + rest.skip(k + 1) =~= rest);
}

/// Without an equals sign behind the two dashes, a long option is its name
/// alone.
pub proof fn long_option_without_sign(arg: Seq<char>)
    requires
        arg.len() > 2,
        arg[0] == '-',
        arg[1] == '-',
        !arg.skip(2).contains('='),
    ensures
        classify(arg) == TokenView::Long(arg.skip(2)),
{
    let rest = arg.skip(2);
    lemma_first_index_from(rest, '=', 0);
    assert(arg != end_marker());
    if first_index_of(rest, '=') is Some {
        let k = first_index_of(rest, '=')->0;
        assert(rest[k] == '=');
    }
}

/// Behind an end-of-options marker every raw argument is a word that holds
/// the argument unchanged, whatever it looks like.
pub proof fn words_after_end_marker(args: Seq<Seq<char>>, k: int, i: int)
    requires
        0 <= k < i < args.len(),
        args[k] == end_marker(),
    ensures
        tokenize_spec(args)[i] == TokenView::Word(args[i]),
{
    assert(options_ended(args, i));
}

/// Once the end-of-options marker has been read, the rest of the tokens
/// cannot fail and cannot reach a subcommand: the words among them are
/// appended, in order, to the positional words.
pub proof fn positional_after_end_marker(
    def: CommandDefView,
    tokens: Seq<TokenView>,
    i: int,
    state: Progress,
    path: Seq<Seq<char>>,
)
    requires
        1 <= i <= tokens.len(),
        state.everything_is_positional,
    ensures
        parse_from(def, tokens, i, state, path) == Ok::<CommandView, ParseErrorView>(
            CommandView {
                path,
                args: state.args,
                positional: state.positional + words_of(tokens.skip(i)),
            },
        ),
    decreases tokens.len() - i,
{
    if i >= tokens.len() {
        assert(tokens.skip(i) =~= Seq::empty());
        assert(state.positional + words_of(tokens.skip(i)) =~= state.positional);
    } else {
        let rest = tokens.skip(i);
        assert(rest[0] == tokens[i]);
        assert(rest.skip(1) =~= tokens.skip(i + 1));
        match tokens[i] {
            TokenView::Word(word) => {
                positional_after_end_marker(def, tokens, i + 1, state.with_word(word), path);
                assert(state.positional.push(word) + words_of(tokens.skip(i + 1))
                    =~= state.positional + words_of(rest));
            },
            _ => {
                positional_after_end_marker(def, tokens, i + 1, state, path);
            },
        }
    }
}

/// The words of tokens that all come from behind an end-of-options marker
/// are the raw arguments themselves.
proof fn words_of_literal_tail(args: Seq<Seq<char>>, k: int, i: int)
    requires
        0 <= k < i <= args.len(),
        args[k] == end_marker(),
    ensures
        words_of(tokenize_spec(args).skip(i)) == args.skip(i),
    decreases args.len() - i,
{
    let tokens = tokenize_spec(args);
    if i >= args.len() {
        assert(tokens.skip(i) =~= Seq::empty());
        assert(args.skip(i) =~= Seq::empty());
    } else {
        words_after_end_marker(args, k, i);
        words_of_literal_tail(args, k, i + 1);
        assert(tokens.skip(i)[0] == tokens[i]);
        assert(tokens.skip(i).skip(1) =~= tokens.skip(i + 1));
        assert(seq![args[i]] + args.skip(i + 1) =~= args.skip(i));
    }
}

/// Raw arguments that follow an end-of-options marker given right after the
/// root become the positional words, letter for letter: none of them is
/// read as an option, as a request for help, or as a subcommand.
pub proof fn end_marker_makes_rest_literal(
    def: CommandDefView,
    args: Seq<Seq<char>>,
    path: Seq<Seq<char>>,
)
    requires
        args.len() >= 2,
        args[0] != end_marker(),
        args[1] == end_marker(),
    ensures
        parse_node(def, tokenize_spec(args), path) == Ok::<CommandView, ParseErrorView>(
            CommandView {
                path: path.push(def.name),
                args: Map::empty(),
                positional: args.skip(2),
            },
        ),
{
    let tokens = tokenize_spec(args);
    assert(!options_ended(args, 1)) by {
        if options_ended(args, 1) {
            let j = choose|j: int|
                0 <= j < 1 && j < args.len() && #[trigger] args[j] == end_marker();
            assert(j == 0);
        }
    }
    assert(tokens[1] == TokenView::EndOfOptions);
    let state = Progress { everything_is_positional: true, ..Progress::start(def) };
    positional_after_end_marker(def, tokens, 2, state, path.push(def.name));
    words_of_literal_tail(args, 1, 2);
    assert(Seq::<Seq<char>>::empty() + args.skip(2) =~= args.skip(2));
}

/// The first word after a command's own name, if it names a subcommand, is
/// always taken as that subcommand: the subcommand parses the tokens from
/// that word on, and its outcome is the outcome of the whole. An argument or
/// a positional reading of the same word is never tried.
pub proof fn subcommand_comes_first(
    def: CommandDefView,
    tokens: Seq<TokenView>,
    path: Seq<Seq<char>>,
    word: Seq<char>,
)
    requires
        tokens.len() >= 2,
        tokens[1] == TokenView::Word(word),
        word != help_word(),
        def.find_subcommand(word) is Some,
    ensures
        parse_node(def, tokens, path) == parse_node(
            def.find_subcommand(word)->0,
            tokens.skip(1),
            path.push(def.name),
        ),
{
    child_carries_its_name(def, word, 0);
}

/// Once a command has read a token that is not a subcommand name, it never
/// hands over to a subcommand: whatever follows, the outcome reports the
/// command's own path. The same holds after an end-of-options marker.
pub proof fn no_subcommand_after_latch(
    def: CommandDefView,
    tokens: Seq<TokenView>,
    i: int,
    state: Progress,
    path: Seq<Seq<char>>,
)
    requires
        !state.can_be_subcommand || state.everything_is_positional,
    ensures
        reported_path(parse_from(def, tokens, i, state, path)) == path,
{
    no_descent_keeps_path(def, tokens, i, state, path);
}

/// A flag followed by a word that names a subcommand: the flag is recorded
/// and the word is kept as a positional word; the subcommand is not entered.
pub proof fn flag_before_subcommand_name(
    def: CommandDefView,
    tokens: Seq<TokenView>,
    path: Seq<Seq<char>>,
    name: Seq<char>,
    word: Seq<char>,
)
    requires
        tokens.len() == 3,
        is_option(tokens[1], name),
        tokens[2] == TokenView::Word(word),
        !asks_for_help(name),
        word != help_word(),
        def.find_arg(name) is Some,
        def.find_arg(name)->0.arg_type == ArgType::Flag,
    ensures
        parse_node(def, tokens, path) == Ok::<CommandView, ParseErrorView>(
            CommandView {
                path: path.push(def.name),
                args: Map::<Seq<char>, ArgView>::empty().insert(
                    def.find_arg(name)->0.long,
                    ArgView::Flag,
                ),
                positional: seq![word],
            },
        ),
{
    let here = path.push(def.name);
    let arg = def.find_arg(name)->0;
    let first = Progress::start(def).with_arg(arg.long, ArgView::Flag);
    assert(parse_node(def, tokens, path) == parse_from(def, tokens, 2, first, here));
    let second = first.latched().with_word(word);
    assert(parse_from(def, tokens, 2, first, here) == parse_from(def, tokens, 3, second, here));
    assert(second.positional =~= seq![word]);
}

/// A request for help right after a command's name wins over everything
/// else: whether it is written `help`, `-h` or `--help`, and whatever
/// arguments and subcommands the command has, the outcome is the request for
/// help at that command.
pub proof fn help_comes_first(def: CommandDefView, tokens: Seq<TokenView>, path: Seq<Seq<char>>)
    requires
        tokens.len() >= 2,
        tokens[1] == TokenView::Word(help_word()) || exists|name: Seq<char>|
            asks_for_help(name) && is_option(tokens[1], name),
    ensures
        parse_node(def, tokens, path) == Err::<CommandView, ParseErrorView>(
            ParseErrorView::HelpRequested { path: path.push(def.name) },
        ),
{
}

/// A request for help stops the parse wherever options are still read.
pub proof fn help_stops_parse(
    def: CommandDefView,
    tokens: Seq<TokenView>,
    i: int,
    state: Progress,
    path: Seq<Seq<char>>,
)
    requires
        1 <= i < tokens.len(),
        !state.everything_is_positional,
        tokens[i] == TokenView::Word(help_word()) || exists|name: Seq<char>|
            asks_for_help(name) && is_option(tokens[i], name),
    ensures
        parse_from(def, tokens, i, state, path) == Err::<CommandView, ParseErrorView>(
            ParseErrorView::HelpRequested { path },
        ),
{
}

/// An option whose name no argument of the command answers to is reported
/// as unknown, with the path of the command that read it.
pub proof fn unknown_option_is_reported(
    def: CommandDefView,
    tokens: Seq<TokenView>,
    i: int,
    state: Progress,
    path: Seq<Seq<char>>,
    name: Seq<char>,
)
    requires
        1 <= i < tokens.len(),
        !state.everything_is_positional,
        (is_option(tokens[i], name) && !asks_for_help(name)) || (exists|value: Seq<char>|
            tokens[i] == TokenView::LongWithValue(name, value)),
        def.find_arg(name) is None,
    ensures
        parse_from(def, tokens, i, state, path) == Err::<CommandView, ParseErrorView>(
            ParseErrorView::UnknownArg { path, name },
        ),
{
}

/// A value argument followed by a word takes that word as its value, under
/// its long name, whether it was written short or long; reading goes on
/// behind the word.
pub proof fn value_is_next_word(
    def: CommandDefView,
    tokens: Seq<TokenView>,
    i: int,
    state: Progress,
    path: Seq<Seq<char>>,
    name: Seq<char>,
    value: Seq<char>,
)
    requires
        1 <= i,
        i + 1 < tokens.len(),
        !state.everything_is_positional,
        is_option(tokens[i], name),
        !asks_for_help(name),
        def.find_arg(name) is Some,
        def.find_arg(name)->0.arg_type == ArgType::Value,
        tokens[i + 1] == TokenView::Word(value),
    ensures
        parse_from(def, tokens, i, state, path) == parse_from(
            def,
            tokens,
            i + 2,
            state.with_arg(def.find_arg(name)->0.long, ArgView::Value(value)),
            path,
        ),
{
}

/// A value argument, its value and one more word, right after the command's
/// name: the value is stored under the argument's long name and the word is
/// the only positional word.
pub proof fn value_then_word(
    def: CommandDefView,
    tokens: Seq<TokenView>,
    path: Seq<Seq<char>>,
    name: Seq<char>,
    value: Seq<char>,
    word: Seq<char>,
)
    requires
        tokens.len() == 4,
        is_option(tokens[1], name),
        tokens[2] == TokenView::Word(value),
        tokens[3] == TokenView::Word(word),
        !asks_for_help(name),
        word != help_word(),
        def.find_arg(name) is Some,
        def.find_arg(name)->0.arg_type == ArgType::Value,
    ensures
        parse_node(def, tokens, path) == Ok::<CommandView, ParseErrorView>(
            CommandView {
                path: path.push(def.name),
                args: Map::<Seq<char>, ArgView>::empty().insert(
                    def.find_arg(name)->0.long,
                    ArgView::Value(value),
                ),
                positional: seq![word],
            },
        ),
{
    let here = path.push(def.name);
    let arg = def.find_arg(name)->0;
    let first = Progress::start(def).with_arg(arg.long, ArgView::Value(value));
    assert(parse_node(def, tokens, path) == parse_from(def, tokens, 3, first, here));
    let second = first.latched().with_word(word);
    assert(parse_from(def, tokens, 3, first, here) == parse_from(def, tokens, 4, second, here));
    assert(second.positional =~= seq![word]);
}

/// An option that the subcommand named by the first word does not know is
/// reported with the path down to that subcommand, not with the path of
/// the command above it.
pub proof fn unknown_option_in_subcommand(
    def: CommandDefView,
    tokens: Seq<TokenView>,
    path: Seq<Seq<char>>,
    word: Seq<char>,
    name: Seq<char>,
)
    requires
        tokens.len() >= 3,
        tokens[1] == TokenView::Word(word),
        word != help_word(),
        def.find_subcommand(word) is Some,
        is_option(tokens[2], name),
        !asks_for_help(name),
        def.find_subcommand(word)->0.find_arg(name) is None,
    ensures
        parse_node(def, tokens, path) == Err::<CommandView, ParseErrorView>(
            ParseErrorView::UnknownArg { path: path.push(def.name).push(word), name },
        ),
{
    let child = def.find_subcommand(word)->0;
    subcommand_comes_first(def, tokens, path, word);
    child_carries_its_name(def, word, 0);
    let rest = tokens.skip(1);
    assert(rest[1] == tokens[2]);
    unknown_option_is_reported(
        child,
        rest,
        1,
        Progress::start(child),
        path.push(def.name).push(child.name),
        name,
    );
}

/// A value argument that is the last token, or is followed by anything but
/// a word, is reported as lacking its value.
pub proof fn value_must_follow(
    def: CommandDefView,
    tokens: Seq<TokenView>,
    i: int,
    state: Progress,
    path: Seq<Seq<char>>,
    name: Seq<char>,
)
    requires
        1 <= i < tokens.len(),
        !state.everything_is_positional,
        is_option(tokens[i], name),
        !asks_for_help(name),
        def.find_arg(name) is Some,
        def.find_arg(name)->0.arg_type == ArgType::Value,
        i + 1 == tokens.len() || !(tokens[i + 1] is Word),
    ensures
        parse_from(def, tokens, i, state, path) == Err::<CommandView, ParseErrorView>(
            ParseErrorView::MissingArgValue { path, name },
        ),
{
}

/// A flag that is given a value with `=` is rejected.
pub proof fn flag_takes_no_value(
    def: CommandDefView,
    tokens: Seq<TokenView>,
    i: int,
    state: Progress,
    path: Seq<Seq<char>>,
    name: Seq<char>,
    value: Seq<char>,
)
    requires
        1 <= i < tokens.len(),
        !state.everything_is_positional,
        tokens[i] == TokenView::LongWithValue(name, value),
        def.find_arg(name) is Some,
        def.find_arg(name)->0.arg_type == ArgType::Flag,
    ensures
        parse_from(def, tokens, i, state, path) == Err::<CommandView, ParseErrorView>(
            ParseErrorView::UnexpectedArgValue { path, name },
        ),
{
}

/// The path that an outcome reports starts with the path that the command
/// was given: names are only ever added at the end.
pub proof fn reported_path_extends(
    def: CommandDefView,
    tokens: Seq<TokenView>,
    i: int,
    state: Progress,
    path: Seq<Seq<char>>,
)
    ensures
        path.is_prefix_of(reported_path(parse_from(def, tokens, i, state, path))),
    decreases tokens.len(), tokens.len() - i,
{
    descent_is_a_chain(def, tokens, i, state, path);
}

/// The names that a parse adds to its path are the names of the commands
/// it went down into: read from the command that started, they address a
/// command of the tree.
pub proof fn descent_is_a_chain(
    def: CommandDefView,
    tokens: Seq<TokenView>,
    i: int,
    state: Progress,
    path: Seq<Seq<char>>,
)
    ensures
        ({
            let reported = reported_path(parse_from(def, tokens, i, state, path));
            &&& path.is_prefix_of(reported)
            &&& resolve(def, seq![def.name] + reported.skip(path.len() as int)) is Some
        }),
    decreases tokens.len(), tokens.len() - i,
{
    let reported = reported_path(parse_from(def, tokens, i, state, path));
    if hands_over(def, tokens, i, state) {
        let word = tokens[i]->Word_0;
        let child = def.find_subcommand(word)->0;
        child_carries_its_name(def, word, 0);
        let below = path.push(child.name);
        descent_is_a_chain(child, tokens.skip(i), 1, Progress::start(child), below);
        assert(parse_from(def, tokens, i, state, path) == parse_from(
            child,
            tokens.skip(i),
            1,
            Progress::start(child),
            below,
        ));
        let tail = reported.skip(below.len() as int);
        assert(below.is_prefix_of(reported));
        assert(reported[path.len() as int] == below[path.len() as int]);
        assert(reported.skip(path.len() as int) =~= seq![child.name] + tail);
        let whole = seq![def.name] + reported.skip(path.len() as int);
        assert(whole[1] == child.name);
        assert(whole.skip(1) =~= seq![child.name] + tail);
        assert(path.is_prefix_of(reported)) by {
            assert(below.is_prefix_of(reported));
            assert forall|k: int| 0 <= k < path.len() implies path[k] == reported[k] by {
                assert(below[k] == reported[k]);
            }
        }
    } else {
        no_descent_keeps_path(def, tokens, i, state, path);
        assert(reported.skip(path.len() as int) =~= Seq::<Seq<char>>::empty());
        assert(seq![def.name] + reported.skip(path.len() as int) =~= seq![def.name]);
    }
}

/// Unless the token at `i` hands over to a subcommand, the outcome reports
/// the path of the command itself or comes from reading on at this command.
proof fn no_descent_keeps_path(
    def: CommandDefView,
    tokens: Seq<TokenView>,
    i: int,
    state: Progress,
    path: Seq<Seq<char>>,
)
    requires
        !hands_over(def, tokens, i, state),
    ensures
        reported_path(parse_from(def, tokens, i, state, path)) == path,
    decreases tokens.len() - i,
{
    if 1 <= i < tokens.len() {
        if state.everything_is_positional {
            match tokens[i] {
                TokenView::Word(word) => no_descent_keeps_path(
                    def,
                    tokens,
                    i + 1,
                    state.with_word(word),
                    path,
                ),
                _ => no_descent_keeps_path(def, tokens, i + 1, state, path),
            }
        } else {
            match tokens[i] {
                TokenView::EndOfOptions => no_descent_keeps_path(
                    def,
                    tokens,
                    i + 1,
                    Progress { everything_is_positional: true, ..state },
                    path,
                ),
                TokenView::Word(word) => {
                    if word != help_word() {
                        no_descent_keeps_path(
                            def,
                            tokens,
                            i + 1,
                            state.latched().with_word(word),
                            path,
                        );
                    }
                },
                TokenView::Short(name) | TokenView::Long(name) => {
                    if !asks_for_help(name) && def.find_arg(name) is Some {
                        let arg = def.find_arg(name)->0;
                        match arg.arg_type {
                            ArgType::Flag => no_descent_keeps_path(
                                def,
                                tokens,
                                i + 1,
                                state.with_arg(arg.long, ArgView::Flag),
                                path,
                            ),
                            ArgType::Value => {
                                if i + 1 < tokens.len() && tokens[i + 1] is Word {
                                    no_descent_keeps_path(
                                        def,
                                        tokens,
                                        i + 2,
                                        state.with_arg(
                                            arg.long,
                                            ArgView::Value(tokens[i + 1]->Word_0),
                                        ),
                                        path,
                                    );
                                }
                            },
                        }
                    }
                },
                TokenView::LongWithValue(name, value) => {
                    if def.find_arg(name) is Some {
                        let arg = def.find_arg(name)->0;
                        if arg.arg_type == ArgType::Value {
                            no_descent_keeps_path(
                                def,
                                tokens,
                                i + 1,
                                state.with_arg(arg.long, ArgView::Value(value)),
                                path,
                            );
                        }
                    }
                },
            }
        }
    }
}

/// The path that a parse from the root reports always starts with the
/// root's name and addresses a command of the tree: help can be shown for
/// every path that the parser hands out.
pub proof fn reported_path_resolves(def: CommandDefView, tokens: Seq<TokenView>)
    ensures
        ({
            let reported = reported_path(parse_node(def, tokens, Seq::empty()));
            &&& reported.len() >= 1
            &&& reported[0] == def.name
            &&& resolve(def, reported) is Some
        }),
{
    let start = seq![def.name];
    assert(Seq::<Seq<char>>::empty().push(def.name) =~= start);
    descent_is_a_chain(def, tokens, 1, Progress::start(def), start);
    let reported = reported_path(parse_node(def, tokens, Seq::empty()));
    assert(start.is_prefix_of(reported));
    assert(reported[0] == start[0]);
    assert(seq![def.name] + reported.skip(1) =~= reported);
}

/// Whether an outcome is one of the errors that the parser leaves to its
/// callers: an unknown command, or a command that lacks a positional value.
pub open spec fn is_left_to_callers(outcome: Outcome) -> bool {
    match outcome {
        Err(ParseErrorView::UnknownCommand { .. }) => true,
        Err(ParseErrorView::MissingValue { .. }) => true,
        _ => false,
    }
}

/// The parser never reports an unknown command and never asks for a
/// positional value: a word that names no subcommand is a positional word,
/// and a command may end without any. Callers that want either rule
/// enforce it on the result.
pub proof fn parser_leaves_policy_to_callers(
    def: CommandDefView,
    tokens: Seq<TokenView>,
    i: int,
    state: Progress,
    path: Seq<Seq<char>>,
)
    ensures
        !is_left_to_callers(parse_from(def, tokens, i, state, path)),
    decreases tokens.len(), tokens.len() - i,
{
    if 1 <= i < tokens.len() {
        if state.everything_is_positional {
            match tokens[i] {
                TokenView::Word(word) => parser_leaves_policy_to_callers(
                    def,
                    tokens,
                    i + 1,
                    state.with_word(word),
                    path,
                ),
                _ => parser_leaves_policy_to_callers(def, tokens, i + 1, state, path),
            }
        } else {
            match tokens[i] {
                TokenView::EndOfOptions => parser_leaves_policy_to_callers(
                    def,
                    tokens,
                    i + 1,
                    Progress { everything_is_positional: true, ..state },
                    path,
                ),
                TokenView::Word(word) => {
                    if word == help_word() {
                    } else if state.can_be_subcommand && def.find_subcommand(word) is Some {
                        let child = def.find_subcommand(word)->0;
                        parser_leaves_policy_to_callers(
                            child,
                            tokens.skip(i),
                            1,
                            Progress::start(child),
                            path.push(child.name),
                        );
                    } else {
                        parser_leaves_policy_to_callers(
                            def,
                            tokens,
                            i + 1,
                            state.latched().with_word(word),
                            path,
                        );
                    }
                },
                TokenView::Short(name) | TokenView::Long(name) => {
                    if !asks_for_help(name) && def.find_arg(name) is Some {
                        let arg = def.find_arg(name)->0;
                        match arg.arg_type {
                            ArgType::Flag => parser_leaves_policy_to_callers(
                                def,
                                tokens,
                                i + 1,
                                state.with_arg(arg.long, ArgView::Flag),
                                path,
                            ),
                            ArgType::Value => {
                                if i + 1 < tokens.len() && tokens[i + 1] is Word {
                                    parser_leaves_policy_to_callers(
                                        def,
                                        tokens,
                                        i + 2,
                                        state.with_arg(
                                            arg.long,
                                            ArgView::Value(tokens[i + 1]->Word_0),
                                        ),
                                        path,
                                    );
                                }
                            },
                        }
                    }
                },
                TokenView::LongWithValue(name, value) => {
                    if def.find_arg(name) is Some {
                        let arg = def.find_arg(name)->0;
                        if arg.arg_type == ArgType::Value {
                            parser_leaves_policy_to_callers(
                                def,
                                tokens,
                                i + 1,
                                state.with_arg(arg.long, ArgView::Value(value)),
                                path,
                            );
                        }
                    }
                },
            }
        }
    }
}

} // verus!
