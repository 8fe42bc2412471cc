use wsm::token::{classify_arg, tokenize, Token};

fn raw(words: &[&str]) -> Vec<String> {
    words.iter().map(|w| w.to_string()).collect()
}

fn show(tokens: &[Token]) -> Vec<String> {
    tokens.iter().map(|t| format!("{:?}", t)).collect()
}

#[test]
fn tokenize_empty_input_gives_no_tokens() {
    assert!(tokenize(&[]).is_empty());
}

#[test]
fn tokenize_keeps_one_token_per_argument() {
    let args = raw(&["root", "-a", "--b", "--c=d", "--", "-e", "f", "", "--"]);
    assert_eq!(tokenize(&args).len(), args.len());
}

#[test]
fn tokenize_classifies_each_shape() {
    let tokens = tokenize(&raw(&["root", "-n", "--name", "--key=value", "word"]));
    assert_eq!(
        show(&tokens),
        vec![
            "Word(\"root\")",
            "Short(\"n\")",
            "Long(\"name\")",
            "LongWithValue(\"key\", \"value\")",
            "Word(\"word\")",
        ]
    );
}

#[test]
fn tokenize_end_marker_makes_the_rest_words() {
    let tokens = tokenize(&raw(&["--", "--not-a-flag", "-x", "--", "--k=v", "plain"]));
    assert_eq!(
        show(&tokens),
        vec![
            "EndOfOptions",
            "Word(\"--not-a-flag\")",
            "Word(\"-x\")",
            "Word(\"--\")",
            "Word(\"--k=v\")",
            "Word(\"plain\")",
        ]
    );
}

#[test]
fn tokenize_arguments_before_the_marker_are_still_classified() {
    let tokens = tokenize(&raw(&["-a", "--", "-a"]));
    assert_eq!(show(&tokens), vec!["Short(\"a\")", "EndOfOptions", "Word(\"-a\")"]);
}

#[test]
fn long_option_splits_on_the_first_equals_sign() {
    match classify_arg("--key=a=b=c") {
        Token::LongWithValue(key, value) => {
            assert_eq!(key, "key");
            assert_eq!(value, "a=b=c");
        }
        other => panic!("unexpected token: {:?}", other),
    }
}

#[test]
fn long_option_may_have_empty_key_or_value() {
    assert_eq!(format!("{:?}", classify_arg("--=")), "LongWithValue(\"\", \"\")");
    assert_eq!(format!("{:?}", classify_arg("--=v")), "LongWithValue(\"\", \"v\")");
    assert_eq!(format!("{:?}", classify_arg("--k=")), "LongWithValue(\"k\", \"\")");
}

#[test]
fn short_option_is_one_atomic_name() {
    match classify_arg("-abc") {
        Token::Short(name) => assert_eq!(name, "abc"),
        other => panic!("unexpected token: {:?}", other),
    }
}

#[test]
fn single_dash_is_a_short_option_without_name() {
    match classify_arg("-") {
        Token::Short(name) => assert_eq!(name, ""),
        other => panic!("unexpected token: {:?}", other),
    }
}

#[test]
fn short_option_keeps_an_equals_sign_in_its_name() {
    match classify_arg("-k=v") {
        Token::Short(name) => assert_eq!(name, "k=v"),
        other => panic!("unexpected token: {:?}", other),
    }
}

#[test]
fn three_dashes_are_a_long_option_that_starts_with_a_dash() {
    match classify_arg("---") {
        Token::Long(name) => assert_eq!(name, "-"),
        other => panic!("unexpected token: {:?}", other),
    }
}

#[test]
fn two_dashes_alone_are_the_end_marker() {
    assert!(matches!(classify_arg("--"), Token::EndOfOptions));
}

#[test]
fn empty_argument_is_an_empty_word() {
    match classify_arg("") {
        Token::Word(word) => assert_eq!(word, ""),
        other => panic!("unexpected token: {:?}", other),
    }
}

#[test]
fn words_keep_equals_signs_and_inner_dashes() {
    match classify_arg("a=b--c") {
        Token::Word(word) => assert_eq!(word, "a=b--c"),
        other => panic!("unexpected token: {:?}", other),
    }
}

#[test]
fn names_and_values_may_hold_any_characters() {
    match classify_arg("--näme=wért ü") {
        Token::LongWithValue(key, value) => {
            assert_eq!(key, "näme");
            assert_eq!(value, "wért ü");
        }
        other => panic!("unexpected token: {:?}", other),
    }
    match classify_arg("-ß") {
        Token::Short(name) => assert_eq!(name, "ß"),
        other => panic!("unexpected token: {:?}", other),
    }
}
