use wsm::command::{Arg, Command};
use wsm::error::ParseError;
use wsm::schema::{ArgType, CommandDef};
use wsm::token::tokenize;

fn argv(words: &[&str]) -> Vec<String> {
    words.iter().map(|w| w.to_string()).collect()
}

fn tree() -> CommandDef {
    CommandDef::new("root", "the root command")
        .add_arg("n", "name", ArgType::Value, "a name")
        .add_arg("f", "flag", ArgType::Flag, "a switch")
        .add_arg("s", "sub", ArgType::Flag, "named like a subcommand")
        .add_subcommand(
            CommandDef::new("child", "a child")
                .add_arg("d", "deep", ArgType::Flag, "deep switch")
                .add_arg("l", "level", ArgType::Value, "a level")
                .add_subcommand(CommandDef::new("leaf", "a leaf")),
        )
        .add_subcommand(CommandDef::new("sub", "another child"))
}

fn parsed(words: &[&str]) -> Command {
    match tree().parse(&argv(words)) {
        Ok(command) => command,
        Err(error) => panic!("unexpected error: {}", error.message()),
    }
}

fn refused(words: &[&str]) -> ParseError {
    match tree().parse(&argv(words)) {
        Ok(command) => panic!("unexpected success: {:?}", command),
        Err(error) => error,
    }
}

fn value_of(command: &Command, long: &str) -> Option<String> {
    match command.get_arg(long) {
        Some(Arg::Value(value)) => Some(value.clone()),
        _ => None,
    }
}

fn is_flag(command: &Command, long: &str) -> bool {
    matches!(command.get_arg(long), Some(Arg::Flag))
}

#[test]
fn value_argument_takes_the_next_word() {
    let command = parsed(&["root", "--name", "X", "tail"]);
    assert_eq!(value_of(&command, "name"), Some("X".to_string()));
    assert_eq!(command.get_positional(), &["tail".to_string()]);
    assert_eq!(command.get_path(), &["root"]);
}

#[test]
fn short_name_is_stored_under_the_long_name() {
    let command = parsed(&["root", "-n", "X", "tail"]);
    assert_eq!(value_of(&command, "name"), Some("X".to_string()));
    assert!(command.get_arg("n").is_none());
    assert_eq!(command.get_positional(), &["tail".to_string()]);
}

#[test]
fn long_name_written_with_one_dash_is_accepted() {
    let command = parsed(&["root", "-name", "X"]);
    assert_eq!(value_of(&command, "name"), Some("X".to_string()));
}

#[test]
fn short_name_written_with_two_dashes_is_accepted() {
    let command = parsed(&["root", "--f"]);
    assert!(is_flag(&command, "flag"));
}

#[test]
fn inline_value_is_stored() {
    let command = parsed(&["root", "--name=X=Y", "tail"]);
    assert_eq!(value_of(&command, "name"), Some("X=Y".to_string()));
    assert_eq!(command.get_positional(), &["tail".to_string()]);
}

#[test]
fn inline_value_by_short_name_is_stored_under_the_long_name() {
    let command = parsed(&["root", "--n=X"]);
    assert_eq!(value_of(&command, "name"), Some("X".to_string()));
}

#[test]
fn later_value_replaces_earlier_one() {
    let command = parsed(&["root", "--name", "first", "-n", "second", "--name=third"]);
    assert_eq!(value_of(&command, "name"), Some("third".to_string()));
}

#[test]
fn absent_argument_is_absent() {
    let command = parsed(&["root", "--flag"]);
    assert!(command.get_arg("name").is_none());
    assert!(is_flag(&command, "flag"));
}

#[test]
fn end_marker_makes_everything_after_it_positional() {
    let command = parsed(&["root", "--", "--not-a-flag", "x"]);
    assert_eq!(command.get_positional(), &["--not-a-flag".to_string(), "x".to_string()]);
    assert_eq!(command.get_path(), &["root"]);
    assert!(command.get_arg("not-a-flag").is_none());
}

#[test]
fn end_marker_keeps_help_and_subcommand_names_literal() {
    let command = parsed(&["root", "--", "help", "child", "-h", "--"]);
    assert_eq!(
        command.get_positional(),
        &["help".to_string(), "child".to_string(), "-h".to_string(), "--".to_string()]
    );
    assert_eq!(command.get_path(), &["root"]);
}

#[test]
fn end_marker_inside_a_subcommand() {
    let command = parsed(&["root", "child", "--deep", "--", "--level", "leaf"]);
    assert_eq!(command.get_path(), &["root", "child"]);
    assert!(is_flag(&command, "deep"));
    assert!(command.get_arg("level").is_none());
    assert_eq!(command.get_positional(), &["--level".to_string(), "leaf".to_string()]);
}

#[test]
fn first_word_that_names_a_subcommand_is_a_subcommand() {
    let command = parsed(&["root", "sub", "x"]);
    assert_eq!(command.get_path(), &["root", "sub"]);
    assert_eq!(command.get_positional(), &["x".to_string()]);
    assert!(command.get_arg("sub").is_none());
}

#[test]
fn argument_named_like_a_subcommand_is_still_an_argument() {
    let command = parsed(&["root", "--sub"]);
    assert_eq!(command.get_path(), &["root"]);
    assert!(is_flag(&command, "sub"));
}

#[test]
fn subcommands_nest() {
    let command = parsed(&["root", "child", "leaf", "x", "y"]);
    assert_eq!(command.get_path(), &["root", "child", "leaf"]);
    assert_eq!(command.get_positional(), &["x".to_string(), "y".to_string()]);
}

#[test]
fn subcommand_result_holds_only_its_own_arguments() {
    let command = parsed(&["root", "child", "--level", "3"]);
    assert_eq!(command.get_path(), &["root", "child"]);
    assert_eq!(value_of(&command, "level"), Some("3".to_string()));
    assert!(command.get_positional().is_empty());
}

#[test]
fn flag_before_a_subcommand_name_keeps_the_name_positional() {
    let command = parsed(&["root", "--flag", "sub"]);
    assert_eq!(command.get_path(), &["root"]);
    assert!(is_flag(&command, "flag"));
    assert_eq!(command.get_positional(), &["sub".to_string()]);
}

#[test]
fn word_before_a_subcommand_name_keeps_the_name_positional() {
    let command = parsed(&["root", "x", "child", "leaf"]);
    assert_eq!(command.get_path(), &["root"]);
    assert_eq!(
        command.get_positional(),
        &["x".to_string(), "child".to_string(), "leaf".to_string()]
    );
}

#[test]
fn latch_is_per_command() {
    let command = parsed(&["root", "child", "--deep", "leaf"]);
    assert_eq!(command.get_path(), &["root", "child"]);
    assert_eq!(command.get_positional(), &["leaf".to_string()]);
}

#[test]
fn root_name_is_not_examined() {
    let command = parsed(&["anything", "x"]);
    assert_eq!(command.get_path(), &["root"]);
    assert_eq!(command.get_positional(), &["x".to_string()]);
    let command = parsed(&["--help"]);
    assert_eq!(command.get_path(), &["root"]);
    assert!(command.get_positional().is_empty());
}

#[test]
fn no_arguments_at_all_give_the_bare_root() {
    let command = parsed(&[]);
    assert_eq!(command.get_path(), &["root"]);
    assert!(command.get_positional().is_empty());
    assert!(command.get_arg("name").is_none());
}

#[test]
fn help_word_is_a_request_for_help() {
    match refused(&["root", "help"]) {
        ParseError::HelpRequested { path } => assert_eq!(path, vec!["root"]),
        other => panic!("unexpected error: {:?}", other),
    }
}

#[test]
fn short_h_is_a_request_for_help() {
    match refused(&["root", "-h"]) {
        ParseError::HelpRequested { path } => assert_eq!(path, vec!["root"]),
        other => panic!("unexpected error: {:?}", other),
    }
}

#[test]
fn long_help_is_a_request_for_help() {
    match refused(&["root", "--help"]) {
        ParseError::HelpRequested { path } => assert_eq!(path, vec!["root"]),
        other => panic!("unexpected error: {:?}", other),
    }
}

#[test]
fn help_wins_over_a_subcommand_and_an_argument_of_that_name() {
    let schema = CommandDef::new("root", "r")
        .add_arg("h", "help", ArgType::Flag, "shadowed")
        .add_subcommand(CommandDef::new("help", "shadowed"));
    for request in ["help", "-h", "--help", "-help", "--h"] {
        match schema.parse(&argv(&["root", request])) {
            Err(ParseError::HelpRequested { path }) => assert_eq!(path, vec!["root"]),
            other => panic!("unexpected outcome for {}: {:?}", request, other),
        }
    }
}

#[test]
fn help_in_a_subcommand_reports_its_path() {
    match refused(&["root", "child", "leaf", "help"]) {
        ParseError::HelpRequested { path } => assert_eq!(path, vec!["root", "child", "leaf"]),
        other => panic!("unexpected error: {:?}", other),
    }
}

#[test]
fn help_after_positional_words_still_stops_the_parse() {
    match refused(&["root", "x", "y", "help", "--bogus"]) {
        ParseError::HelpRequested { path } => assert_eq!(path, vec!["root"]),
        other => panic!("unexpected error: {:?}", other),
    }
}

#[test]
fn help_as_the_value_of_an_argument_is_a_value() {
    let command = parsed(&["root", "--name", "help"]);
    assert_eq!(value_of(&command, "name"), Some("help".to_string()));
}

#[test]
fn help_with_inline_value_is_an_unknown_argument() {
    match refused(&["root", "--help=1"]) {
        ParseError::UnknownArg { path, name } => {
            assert_eq!(path, vec!["root"]);
            assert_eq!(name, "help");
        }
        other => panic!("unexpected error: {:?}", other),
    }
}

#[test]
fn unknown_argument_in_a_subcommand_reports_its_path() {
    match refused(&["root", "child", "--bogus"]) {
        ParseError::UnknownArg { path, name } => {
            assert_eq!(path, vec!["root", "child"]);
            assert_eq!(name, "bogus");
        }
        other => panic!("unexpected error: {:?}", other),
    }
}

#[test]
fn argument_of_the_parent_is_unknown_in_the_subcommand() {
    match refused(&["root", "child", "--name", "X"]) {
        ParseError::UnknownArg { path, name } => {
            assert_eq!(path, vec!["root", "child"]);
            assert_eq!(name, "name");
        }
        other => panic!("unexpected error: {:?}", other),
    }
}

#[test]
fn unknown_short_argument_is_reported() {
    match refused(&["root", "-z"]) {
        ParseError::UnknownArg { path, name } => {
            assert_eq!(path, vec!["root"]);
            assert_eq!(name, "z");
        }
        other => panic!("unexpected error: {:?}", other),
    }
}

#[test]
fn unknown_argument_with_inline_value_is_reported() {
    match refused(&["root", "--bogus=1"]) {
        ParseError::UnknownArg { path, name } => {
            assert_eq!(path, vec!["root"]);
            assert_eq!(name, "bogus");
        }
        other => panic!("unexpected error: {:?}", other),
    }
}

#[test]
fn value_argument_as_last_token_lacks_its_value() {
    match refused(&["root", "--name"]) {
        ParseError::MissingArgValue { path, name } => {
            assert_eq!(path, vec!["root"]);
            assert_eq!(name, "name");
        }
        other => panic!("unexpected error: {:?}", other),
    }
}

#[test]
fn missing_value_is_reported_under_the_name_as_written() {
    match refused(&["root", "-n"]) {
        ParseError::MissingArgValue { path, name } => {
            assert_eq!(path, vec!["root"]);
            assert_eq!(name, "n");
        }
        other => panic!("unexpected error: {:?}", other),
    }
}

#[test]
fn value_argument_followed_by_an_option_lacks_its_value() {
    for follower in ["--flag", "-f", "--name=X", "--"] {
        match tree().parse(&argv(&["root", "--name", follower])) {
            Err(ParseError::MissingArgValue { path, name }) => {
                assert_eq!(path, vec!["root"]);
                assert_eq!(name, "name");
            }
            other => panic!("unexpected outcome for {}: {:?}", follower, other),
        }
    }
}

#[test]
fn flag_with_inline_value_is_rejected() {
    match refused(&["root", "--flag=1"]) {
        ParseError::UnexpectedArgValue { path, name } => {
            assert_eq!(path, vec!["root"]);
            assert_eq!(name, "flag");
        }
        other => panic!("unexpected error: {:?}", other),
    }
}

#[test]
fn flag_does_not_take_the_next_word() {
    let command = parsed(&["root", "--flag", "x"]);
    assert!(is_flag(&command, "flag"));
    assert_eq!(command.get_positional(), &["x".to_string()]);
}

#[test]
fn first_error_wins() {
    match refused(&["root", "--bogus", "--flag=1", "--name"]) {
        ParseError::UnknownArg { name, .. } => assert_eq!(name, "bogus"),
        other => panic!("unexpected error: {:?}", other),
    }
}

#[test]
fn command_without_subcommands_takes_words_as_positional() {
    let schema = CommandDef::new("solo", "no children");
    match schema.parse(&argv(&["solo", "child", "sub"])) {
        Ok(command) => {
            assert_eq!(command.get_path(), &["solo"]);
            assert_eq!(command.get_positional(), &["child".to_string(), "sub".to_string()]);
        }
        Err(error) => panic!("unexpected error: {}", error.message()),
    }
}

#[test]
fn parse_intrnal_appends_the_name_to_the_given_path() {
    let tokens = tokenize(&argv(&["root", "child", "-z"]));
    match tree().parse_intrnal(&tokens, vec!["outer"]) {
        Err(ParseError::UnknownArg { path, name }) => {
            assert_eq!(path, vec!["outer", "root", "child"]);
            assert_eq!(name, "z");
        }
        other => panic!("unexpected outcome: {:?}", other),
    }
}

#[test]
fn positional_string_joins_with_single_spaces() {
    let command = parsed(&["root", "a", "b c", "", "d"]);
    assert_eq!(command.get_positional_string(), "a b c  d");
    assert_eq!(parsed(&["root"]).get_positional_string(), "");
    assert_eq!(parsed(&["root", "only"]).get_positional_string(), "only");
}

#[test]
fn first_definition_wins_among_equal_names() {
    let schema = CommandDef::new("root", "r")
        .add_arg("a", "first", ArgType::Flag, "first")
        .add_arg("a", "second", ArgType::Value, "second")
        .add_subcommand(CommandDef::new("twin", "one").add_arg("x", "one", ArgType::Flag, ""))
        .add_subcommand(CommandDef::new("twin", "two").add_arg("x", "two", ArgType::Flag, ""));
    match schema.parse(&argv(&["root", "-a", "word"])) {
        Ok(command) => {
            assert!(matches!(command.get_arg("first"), Some(Arg::Flag)));
            assert!(command.get_arg("second").is_none());
            assert_eq!(command.get_positional(), &["word".to_string()]);
        }
        Err(error) => panic!("unexpected error: {}", error.message()),
    }
    match schema.parse(&argv(&["root", "twin", "-x"])) {
        Ok(command) => {
            assert!(matches!(command.get_arg("one"), Some(Arg::Flag)));
            assert!(command.get_arg("two").is_none());
        }
        Err(error) => panic!("unexpected error: {}", error.message()),
    }
}

fn samples() -> Vec<Vec<&'static str>> {
    vec![
        vec![],
        vec!["root"],
        vec!["root", "child"],
        vec!["root", "child", "leaf", "--bogus"],
        vec!["root", "child", "help"],
        vec!["root", "sub", "--name"],
        vec!["root", "x", "child"],
        vec!["root", "--name"],
        vec!["root", "--flag=1"],
        vec!["root", "--", "child"],
        vec!["root", "nothing", "known", "here"],
        vec!["root", "child", "--level"],
    ]
}

#[test]
fn help_exists_for_every_reported_path() {
    for words in samples() {
        let path: Vec<&'static str> = match tree().parse(&argv(&words)) {
            Ok(command) => command.get_path().to_vec(),
            Err(error) => error.path().to_vec(),
        };
        assert_eq!(path[0], "root");
        let help = tree().get_help(&path);
        assert!(help.starts_with("Command: "), "no help for {:?}", path);
        assert!(help.starts_with(&format!("Command: {}\n", path[path.len() - 1])));
    }
}

#[test]
fn unknown_words_are_positional_and_no_error() {
    for words in samples() {
        match tree().parse(&argv(&words)) {
            Err(ParseError::UnknownCommand { .. }) | Err(ParseError::MissingValue { .. }) => {
                panic!("policy error for {:?}", words)
            }
            _ => {}
        }
    }
    let command = parsed(&["root", "nothing", "known", "here"]);
    assert_eq!(command.get_positional_string(), "nothing known here");
}
