use wsm::config::Workspace;
use wsm::picker::{picked_path, picker_input};
use wsm::session::{
    get_session_name, go_to_tmux, is_same_tmux_session, new_session_args, session_name_for,
    session_name_of, switch_client_args,
};
use wsm::text::{char_is_whitespace, chars_of, decimal, join_strings, join_strs, str_eq, trim};

fn offered(paths: &[&str]) -> Vec<Workspace> {
    paths.iter().map(|p| Workspace { path: p.to_string() }).collect()
}

#[test]
fn picker_input_numbers_the_lines_from_one() {
    assert_eq!(picker_input(&offered(&["/a", "/b c", "/d"])), "1 /a\n2 /b c\n3 /d");
    assert_eq!(picker_input(&offered(&["/only"])), "1 /only");
    assert_eq!(picker_input(&offered(&[])), "");
}

#[test]
fn picker_input_counts_past_nine() {
    let paths: Vec<String> = (0..12).map(|i| format!("/p{}", i)).collect();
    let refs: Vec<&str> = paths.iter().map(|p| p.as_str()).collect();
    let text = picker_input(&offered(&refs));
    let lines: Vec<&str> = text.split('\n').collect();
    assert_eq!(lines.len(), 12);
    assert_eq!(lines[8], "9 /p8");
    assert_eq!(lines[9], "10 /p9");
    assert_eq!(lines[11], "12 /p11");
}

#[test]
fn picked_path_is_what_follows_the_number() {
    assert_eq!(picked_path("2 /home/me/work\n"), "/home/me/work");
    assert_eq!(picked_path("  10 /a b  c \n"), "/a b  c");
    assert_eq!(picked_path("1  /two-spaces"), " /two-spaces");
}

#[test]
fn picked_path_is_empty_without_a_selection() {
    assert_eq!(picked_path(""), "");
    assert_eq!(picked_path(" \n\t"), "");
    assert_eq!(picked_path("7"), "");
    assert_eq!(picked_path("  word\n"), "");
}

#[test]
fn session_name_replaces_every_full_stop() {
    assert_eq!(session_name_of("my.project.rs"), "my_project_rs");
    assert_eq!(session_name_of("plain"), "plain");
    assert_eq!(session_name_of(""), "");
    assert_eq!(session_name_of("..."), "___");
    assert_eq!(session_name_of(".hidden"), "_hidden");
    assert_eq!(session_name_of("tail."), "tail_");
    assert_eq!(session_name_of("ä.ö"), "ä_ö");
}

#[test]
fn session_name_for_a_found_or_missing_component() {
    assert_eq!(session_name_for(Some("my.project".to_string())), "my_project");
    assert_eq!(session_name_for(Some(String::new())), "");
    assert_eq!(session_name_for(None), "");
}

#[test]
fn session_name_comes_from_the_last_component() {
    assert_eq!(get_session_name("/home/me/my.project"), "my_project");
    assert_eq!(get_session_name("work"), "work");
    assert_eq!(get_session_name("/home/v1.2/app"), "app");
}

#[test]
fn session_name_is_empty_without_a_last_component() {
    assert_eq!(get_session_name(""), "");
    assert_eq!(get_session_name("/"), "");
    assert_eq!(get_session_name("/home/me/.."), "");
}

#[test]
fn same_session_ignores_surrounding_white_space() {
    assert!(is_same_tmux_session("work", Some("work\n")));
    assert!(is_same_tmux_session("work", Some("  work \t")));
    assert!(!is_same_tmux_session("work", Some("work2\n")));
    assert!(!is_same_tmux_session("work", Some("")));
    assert!(!is_same_tmux_session("work", None));
    assert!(is_same_tmux_session("", Some("\n")));
    assert!(!is_same_tmux_session(" work", Some(" work")));
}

#[test]
fn new_session_arguments() {
    assert_eq!(
        new_session_args("work", "/home/me/work", false),
        vec!["new-session", "-A", "-s", "work", "-c", "/home/me/work"]
    );
    assert_eq!(
        new_session_args("work", "/home/me/work", true),
        vec!["new-session", "-A", "-s", "work", "-c", "/home/me/work", "-d"]
    );
}

#[test]
fn switch_client_arguments() {
    assert_eq!(switch_client_args("work"), vec!["switch-client", "-t", "work"]);
}

#[test]
fn outside_the_multiplexer_the_session_is_attached() {
    let plan = go_to_tmux("work", "/w", false, None);
    assert_eq!(plan, vec![vec!["new-session", "-A", "-s", "work", "-c", "/w"]]);
    let plan = go_to_tmux("work", "/w", false, Some("work"));
    assert_eq!(plan, vec![vec!["new-session", "-A", "-s", "work", "-c", "/w"]]);
}

#[test]
fn inside_the_multiplexer_the_client_is_switched() {
    let plan = go_to_tmux("work", "/w", true, Some("other\n"));
    assert_eq!(
        plan,
        vec![
            vec!["new-session", "-A", "-s", "work", "-c", "/w", "-d"],
            vec!["switch-client", "-t", "work"],
        ]
    );
    assert_eq!(go_to_tmux("work", "/w", true, None).len(), 2);
}

#[test]
fn inside_the_same_session_nothing_is_done() {
    assert!(go_to_tmux("work", "/w", true, Some("work\n")).is_empty());
}

#[test]
fn decimal_numerals() {
    assert_eq!(decimal(0), "0");
    assert_eq!(decimal(7), "7");
    assert_eq!(decimal(10), "10");
    assert_eq!(decimal(1234567890), "1234567890");
    assert_eq!(decimal(usize::MAX), usize::MAX.to_string());
}

#[test]
fn trim_cuts_white_space_at_both_ends_only() {
    assert_eq!(trim("  a b  "), "a b");
    assert_eq!(trim("\t\r\n x \u{3000}\u{a0}"), "x");
    assert_eq!(trim("x"), "x");
    assert_eq!(trim(""), "");
    assert_eq!(trim(" \n "), "");
    assert_eq!(trim("\u{200b}x"), "\u{200b}x");
}

#[test]
fn white_space_is_what_the_standard_library_calls_white_space() {
    let mut code: u32 = 0;
    while code <= 0x10FFFF {
        if let Some(c) = char::from_u32(code) {
            assert_eq!(char_is_whitespace(c), c.is_whitespace(), "code point {:x}", code);
        }
        code += 1;
    }
}

#[test]
fn trim_agrees_with_the_standard_library() {
    for text in ["", " ", "a", " a", "a ", " a b ", "\n\ta\u{2003}b\u{2028}", "\u{85}x\u{1680}"] {
        assert_eq!(trim(text), text.trim());
    }
}

#[test]
fn joining_words() {
    assert_eq!(join_strs(&["a", "b", "c"], ", "), "a, b, c");
    assert_eq!(join_strs(&["a"], ", "), "a");
    assert_eq!(join_strs(&[], ", "), "");
    assert_eq!(join_strs(&["", ""], "-"), "-");
    assert_eq!(join_strings(&["x".to_string(), "y".to_string()], ""), "xy");
}

#[test]
fn string_equality_is_by_content() {
    assert!(str_eq("", ""));
    assert!(str_eq("abc", "abc"));
    assert!(!str_eq("abc", "abd"));
    assert!(!str_eq("abc", "ab"));
    assert!(!str_eq("é", "e\u{301}"));
    assert!(str_eq("日本語", "日本語"));
}

#[test]
fn characters_of_a_string() {
    assert_eq!(chars_of("aé日"), vec!['a', 'é', '日']);
    assert!(chars_of("").is_empty());
}
