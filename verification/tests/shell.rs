use herdr_platform::shell::{
    detached_custom_command_argv, interactive_shell_command,
    pane_custom_command_pty_builder_platform, raw_command_argv, scrollback_editor_argv,
    shell_quote,
};
use herdr_platform::text::{
    contains, find, is_whitespace, join_spaced, parse_i32, parse_u32, rfind, same_text,
    split_whitespace, string_of, to_ascii_lowercase, to_chars,
};

#[test]
fn scrollback_editor_argv_preserves_unix_editor_shell_semantics() {
    let path = "/tmp/herdr scrollback.txt";
    let argv = scrollback_editor_argv(path).unwrap();

    assert_eq!(argv[0], "/bin/sh");
    assert_eq!(argv[1], "-c");
    assert!(argv[2].contains("EDITOR:-vi"));
    assert!(argv[2].contains("/tmp/herdr scrollback.txt"));
}

#[test]
fn scrollback_command_is_exact() {
    let argv = scrollback_editor_argv("/tmp/it's").unwrap();
    assert_eq!(argv.len(), 3);
    assert_eq!(
        argv[2],
        r#"scrollback_file='/tmp/it'\''s'; eval "${EDITOR:-vi} \"\$scrollback_file\""; status=$?; rm -f "$scrollback_file"; exit $status"#
    );
}

#[test]
fn plain_words_are_not_quoted() {
    assert_eq!(shell_quote("abcXYZ019@%_+=:,./-"), "abcXYZ019@%_+=:,./-");
    assert_eq!(shell_quote(""), "''");
    assert_eq!(shell_quote("a b"), "'a b'");
    assert_eq!(shell_quote("it's"), "'it'\\''s'");
    assert_eq!(shell_quote("'"), "''\\'''");
    assert_eq!(shell_quote("$HOME"), "'$HOME'");
    assert_eq!(shell_quote("~"), "'~'");
    assert_eq!(shell_quote("\u{e9}"), "'\u{e9}'");
    assert_eq!(shell_quote("a\nb"), "'a\nb'");
}

/// What a shell reads in a word of single quotes, escapes and plain characters.
fn unquote(word: &str) -> String {
    let mut text = String::new();
    let mut quoted = false;
    let mut chars = word.chars();
    while let Some(c) = chars.next() {
        if c == '\'' {
            quoted = !quoted;
        } else if c == '\\' && !quoted {
            text.push(chars.next().unwrap());
        } else {
            text.push(c);
        }
    }
    assert!(!quoted);
    text
}

#[test]
fn quoted_words_read_back_as_the_text() {
    for text in ["", "plain", "two words", "'", "''", "a'b'c", "\\'", "$(rm -rf /)", "a\tb\n"] {
        assert_eq!(unquote(&shell_quote(text)), text);
    }
}

#[test]
fn commands_run_in_a_shell() {
    assert_eq!(raw_command_argv("ls -l", "-x"), vec!["/bin/sh", "-x", "ls -l"]);
    assert_eq!(detached_custom_command_argv("ls -l"), vec!["/bin/sh", "-lc", "ls -l"]);
    let builder = pane_custom_command_pty_builder_platform("echo 'a b'");
    let argv: Vec<&str> = builder
        .get_argv()
        .iter()
        .map(|arg| arg.to_str().unwrap())
        .collect();
    assert_eq!(argv, vec!["/bin/sh", "-c", "echo 'a b'"]);
}

#[test]
fn interactive_commands_are_built_with_the_shells_quoting() {
    let argv = vec!["ls".to_string(), "a b".to_string()];
    let command = interactive_shell_command(&argv, "bash", |argv, shell, quoting| {
        let words: Vec<String> = argv.iter().map(|arg| quoting.quote(arg)).collect();
        Some(format!("{shell}: {}", words.join(" ")))
    });
    assert_eq!(command, Some("bash: ls 'a b'".to_string()));
    assert_eq!(interactive_shell_command(&argv, "bash", |_, _, _| None), None);
}

#[test]
fn whitespace_is_that_of_unicode() {
    for code in 0..=0x10ffff_u32 {
        if let Some(c) = char::from_u32(code) {
            assert_eq!(is_whitespace(c), c.is_whitespace());
        }
    }
}

#[test]
fn fields_are_those_of_the_standard_library() {
    for text in ["", " ", "a", " a  b\tc\n", "a\u{2003}b\u{a0}c", "  \u{85}x"] {
        let chars = to_chars(text);
        let fields: Vec<String> = split_whitespace(&chars, 0)
            .iter()
            .map(|field| field.iter().collect())
            .collect();
        let expected: Vec<String> = text.split_whitespace().map(str::to_string).collect();
        assert_eq!(fields, expected);
    }
    let chars = to_chars("ab cd");
    assert_eq!(split_whitespace(&chars, 1), vec![vec!['b'], vec!['c', 'd']]);
}

#[test]
fn numbers_are_those_of_the_standard_library() {
    for text in [
        "", "0", "+0", "-0", "7", "+7", "-7", "--7", "+", "-", "1x", " 1", "007",
        "2147483647", "2147483648", "-2147483648", "-2147483649", "4294967295", "4294967296",
        "99999999999999999999999", "\u{661}",
    ] {
        let chars = to_chars(text);
        assert_eq!(parse_u32(&chars), text.parse::<u32>().ok(), "{text}");
        assert_eq!(parse_i32(&chars), text.parse::<i32>().ok(), "{text}");
    }
}

#[test]
fn searches_are_those_of_the_standard_library() {
    let chars = to_chars("a(b(c)d)e");
    assert_eq!(find(&chars, '('), Some(1));
    assert_eq!(rfind(&chars, ')'), Some(7));
    assert_eq!(find(&chars, 'x'), None);
    assert_eq!(rfind(&chars, 'x'), None);
    for (text, needle) in [("abcab", "cab"), ("abcab", "abd"), ("", ""), ("a", "aa"), ("aab", "ab")] {
        assert_eq!(
            contains(&to_chars(text), &to_chars(needle)),
            text.contains(needle)
        );
    }
    let lower: String = to_ascii_lowercase("MiXed \u{c9}").iter().collect();
    assert_eq!(lower, "mixed \u{c9}");
    assert_eq!(string_of(&chars, 1, 3), "(b");
    assert!(same_text("abc", "abc"));
    assert!(!same_text("abc", "abd"));
    assert!(!same_text("abc", "ab"));
    assert_eq!(join_spaced(&["a".to_string(), String::new(), "b c".to_string()]), "a  b c");
    assert_eq!(join_spaced(&[]), "");
}
