//! Shell command lines.
use crate::text::{string_of, to_chars};
use vstd::prelude::*;

verus! {

// ---------------------------------------------------------------------------
// Quoting
// ---------------------------------------------------------------------------

/// The characters of a word that a shell takes as they stand, wherever in the word they are.
pub open spec fn is_plain(c: char) -> bool {
    ||| 'a' <= c <= 'z'
    ||| 'A' <= c <= 'Z'
    ||| '0' <= c <= '9'
    ||| c == '@' || c == '%' || c == '_' || c == '+' || c == '=' || c == ':' || c == ',' || c == '.'
        || c == '/' || c == '-'
}

/// Every character is plain.
pub open spec fn all_plain(text: Seq<char>) -> bool {
    forall|i: int| 0 <= i < text.len() ==> is_plain(#[trigger] text[i])
}

/// The text inside single quotes. A single quote cannot stand there: the quotes end, an escaped
/// one follows, and they start again.
pub open spec fn inside_quotes(text: Seq<char>) -> Seq<char>
    decreases text.len(),
{
    if text.len() == 0 {
        Seq::empty()
    } else {
        let before = inside_quotes(text.drop_last());
        if text.last() == '\'' {
            before + seq!['\'', '\\', '\'', '\'']
        } else {
            before.push(text.last())
        }
    }
}

/// The word of a command line that stands for `text`: `text` itself where it is plain and not
/// empty, otherwise `text` in single quotes.
pub open spec fn quoted(text: Seq<char>) -> Seq<char> {
    if text.len() > 0 && all_plain(text) {
        text
    } else {
        seq!['\''] + inside_quotes(text) + seq!['\'']
    }
}

/// The characters that mean something to a POSIX shell outside quotes: operators, expansions,
/// quotes, blanks, patterns, comments and braces.
pub open spec fn is_special(c: char) -> bool {
    ||| c == '|' || c == '&' || c == ';' || c == '<' || c == '>' || c == '(' || c == ')'
    ||| c == '$' || c == '`' || c == '\\' || c == '"' || c == '\''
    ||| c == ' ' || c == '\t' || c == '\n'
    ||| c == '*' || c == '?' || c == '[' || c == '#' || c == '~' || c == '!' || c == '{' || c == '}'
}

/// Whether a shell takes a character as it stands.
pub fn is_plain_character(c: char) -> (plain: bool)
    ensures
        plain == is_plain(c),
        plain ==> !is_special(c),
{
    ('a' <= c && c <= 'z') || ('A' <= c && c <= 'Z') || ('0' <= c && c <= '9') || c == '@' || c
        == '%' || c == '_' || c == '+' || c == '=' || c == ':' || c == ',' || c == '.' || c == '/'
        || c == '-'
}

/// The word of a command line that stands for `value`.
pub fn shell_quote(value: &str) -> (word: String)
    ensures
        word@ == quoted(value@),
{
    let chars: Vec<char> = to_chars(value);
    let mut plain: bool = chars.len() > 0;
    let mut i: usize = 0;
    while plain && i < chars.len()
        invariant
            chars@ == value@,
            i <= chars@.len(),
            plain ==> chars@.len() > 0 && forall|k: int| 0 <= k < i ==> is_plain(#[trigger] chars@[k]),
            !plain ==> chars@.len() == 0 || !all_plain(chars@),
        decreases chars@.len() - i,
    {
        if !is_plain_character(chars[i]) {
            plain = false;
        }
        i = i + 1;
    }
    if plain {
        let whole: String = string_of(chars.as_slice(), 0, chars.len());
        assert(chars@.subrange(0, chars@.len() as int) =~= chars@);
        return whole;
    }
    let mut word: String = String::new();
    word.push('\'');
    let mut j: usize = 0;
    proof {
        assert(chars@.take(0) =~= Seq::<char>::empty());
        assert(word@ =~= seq!['\''] + inside_quotes(chars@.take(0)));
    }
    while j < chars.len()
        invariant
            chars@ == value@,
            j <= chars@.len(),
            word@ == seq!['\''] + inside_quotes(chars@.take(j as int)),
        decreases chars@.len() - j,
    {
        let ghost before = word@;
        assert(chars@.take(j + 1).drop_last() =~= chars@.take(j as int));
        let c: char = chars[j];
        if c == '\'' {
            word.push('\'');
            word.push('\\');
            word.push('\'');
            word.push('\'');
            assert(word@ =~= before + seq!['\'', '\\', '\'', '\'']);
            assert(word@ =~= seq!['\''] + inside_quotes(chars@.take(j + 1)));
        } else {
            word.push(c);
            assert(word@ =~= seq!['\''] + inside_quotes(chars@.take(j + 1)));
        }
        j = j + 1;
    }
    assert(chars@.take(j as int) =~= chars@);
    word.push('\'');
    assert(word@ =~= quoted(value@));
    word
}

/// The rest of a word behind a character.
pub open spec fn behind(c: char, rest: Option<Seq<char>>) -> Option<Seq<char>> {
    match rest {
        Some(rest) => Some(seq![c] + rest),
        None => None,
    }
}

/// The text that a POSIX shell reads in one word of a command line, inside or outside single
/// quotes. A word that is not closed, or that holds a special character outside quotes, gives none.
pub open spec fn shell_reads(source: Seq<char>, in_quotes: bool) -> Option<Seq<char>>
    decreases source.len(),
{
    if source.len() == 0 {
        if in_quotes {
            None
        } else {
            Some(Seq::empty())
        }
    } else if source[0] == '\'' {
        shell_reads(source.skip(1), !in_quotes)
    } else if in_quotes {
        behind(source[0], shell_reads(source.skip(1), true))
    } else if source[0] == '\\' && source.len() > 1 && source[1] != '\n' {
        behind(source[1], shell_reads(source.skip(2), false))
    } else if !is_special(source[0]) {
        behind(source[0], shell_reads(source.skip(1), false))
    } else {
        None
    }
}

/// A shell reads plain text as it stands.
proof fn lemma_reads_plain(text: Seq<char>)
    requires
        all_plain(text),
    ensures
        shell_reads(text, false) == Some(text),
    decreases text.len(),
{
    if text.len() > 0 {
        let rest = text.skip(1);
        assert forall|i: int| 0 <= i < rest.len() implies is_plain(#[trigger] rest[i]) by {
            assert(rest[i] == text[i + 1]);
        }
        lemma_reads_plain(rest);
        assert(is_plain(text[0]));
        assert(seq![text[0]] + rest =~= text);
    }
}

/// The text inside quotes starts with what stands for its first character.
proof fn lemma_inside_quotes_first(text: Seq<char>)
    requires
        text.len() > 0,
    ensures
        inside_quotes(text) == (if text[0] == '\'' {
            seq!['\'', '\\', '\'', '\'']
        } else {
            seq![text[0]]
        }) + inside_quotes(text.skip(1)),
    decreases text.len(),
{
    let first = if text[0] == '\'' {
        seq!['\'', '\\', '\'', '\'']
    } else {
        seq![text[0]]
    };
    if text.len() == 1 {
        assert(text.drop_last() =~= Seq::empty());
        assert(text.skip(1) =~= Seq::empty());
        assert(inside_quotes(text) =~= first + inside_quotes(text.skip(1)));
    } else {
        let short = text.drop_last();
        lemma_inside_quotes_first(short);
        assert(short.skip(1) =~= text.skip(1).drop_last());
        assert(text.skip(1).last() == text.last());
        assert(inside_quotes(text) =~= first + inside_quotes(text.skip(1)));
    }
}

/// Inside quotes, a shell reads the text, and goes on behind the closing quote.
proof fn lemma_reads_quoted(text: Seq<char>)
    ensures
        shell_reads(inside_quotes(text) + seq!['\''], true) == Some(text),
    decreases text.len(),
{
    let source = inside_quotes(text) + seq!['\''];
    if text.len() == 0 {
        assert(source =~= seq!['\'']);
        assert(source.skip(1) =~= Seq::empty());
        assert(shell_reads(source.skip(1), false) == Some(Seq::<char>::empty()));
        assert(text =~= Seq::empty());
    } else {
        let rest = text.skip(1);
        let after = inside_quotes(rest) + seq!['\''];
        lemma_inside_quotes_first(text);
        lemma_reads_quoted(rest);
        assert(seq![text[0]] + rest =~= text);
        if text[0] == '\'' {
            let one = source.skip(1);
            let three = one.skip(2);
            assert(one =~= seq!['\\', '\'', '\''] + after);
            assert(three =~= seq!['\''] + after);
            assert(three.skip(1) =~= after);
            assert(shell_reads(three, false) == shell_reads(after, true));
            assert(shell_reads(one, false) == behind('\'', shell_reads(three, false)));
            assert(shell_reads(source, true) == shell_reads(one, false));
        } else {
            assert(source.skip(1) =~= after);
            assert(source[0] == text[0]);
        }
    }
}

/// A shell reads back in a quoted word exactly the text that it stands for, whatever that text
/// holds.
pub proof fn quoted_words_are_read_back(text: Seq<char>)
    ensures
        shell_reads(quoted(text), false) == Some(text),
{
    if text.len() > 0 && all_plain(text) {
        lemma_reads_plain(text);
    } else {
        let source = quoted(text);
        assert(source.skip(1) =~= inside_quotes(text) + seq!['\'']);
        assert(source[0] == '\'');
        lemma_reads_quoted(text);
    }
}

/// A plain character is one of the letters, the digits and ten marks; each of them is one, and no
/// special character is.
pub proof fn plain_characters_are_not_special(c: char)
    ensures
        is_plain(c) <==> "abcdefghijklmnopqrstuvwxyzABCDEFGHIJKLMNOPQRSTUVWXYZ0123456789@%_+=:,./-"@.contains(
            c,
        ),
        is_plain(c) ==> !is_special(c),
{
    let plain = "abcdefghijklmnopqrstuvwxyzABCDEFGHIJKLMNOPQRSTUVWXYZ0123456789@%_+=:,./-"@;
    reveal_strlit("abcdefghijklmnopqrstuvwxyzABCDEFGHIJKLMNOPQRSTUVWXYZ0123456789@%_+=:,./-");
    let code = c as int;
    if 'a' <= c <= 'z' {
        assert(plain[code - 97] == c);
    } else if 'A' <= c <= 'Z' {
        assert(plain[code - 65 + 26] == c);
    } else if '0' <= c <= '9' {
        assert(plain[code - 48 + 52] == c);
    } else if is_plain(c) {
        assert(plain[62] == '@' && plain[63] == '%' && plain[64] == '_' && plain[65] == '+'
            && plain[66] == '=' && plain[67] == ':' && plain[68] == ',' && plain[69] == '.'
            && plain[70] == '/' && plain[71] == '-');
    }
}

/// A text stands for itself without quotes exactly where it is not empty and every character of it
/// is a letter, a digit or one of the ten plain marks. A text that stands without quotes holds no
/// special character, and every other word starts and ends with a quote.
pub proof fn only_plain_words_stand_without_quotes(text: Seq<char>)
    ensures
        quoted(text) == text <==> text.len() > 0 && forall|i: int|
            0 <= i < text.len()
                ==> "abcdefghijklmnopqrstuvwxyzABCDEFGHIJKLMNOPQRSTUVWXYZ0123456789@%_+=:,./-"@.contains(
                #[trigger] text[i],
            ),
        quoted(text) == text ==> forall|i: int|
            0 <= i < text.len() ==> !is_special(#[trigger] text[i]),
        quoted(text) != text ==> quoted(text).len() >= text.len() + 2 && quoted(text)[0] == '\''
            && quoted(text).last() == '\'',
{
    assert forall|i: int| 0 <= i < text.len() implies is_plain(#[trigger] text[i])
        == "abcdefghijklmnopqrstuvwxyzABCDEFGHIJKLMNOPQRSTUVWXYZ0123456789@%_+=:,./-"@.contains(
        text[i],
    ) && (is_plain(text[i]) ==> !is_special(text[i])) by {
        plain_characters_are_not_special(text[i]);
    }
    lemma_inside_quotes_len(text);
    if text.len() > 0 && all_plain(text) {
    } else {
        assert(quoted(text).len() >= text.len() + 2);
    }
}

/// Nothing is lost inside quotes.
proof fn lemma_inside_quotes_len(text: Seq<char>)
    ensures
        inside_quotes(text).len() >= text.len(),
    decreases text.len(),
{
    if text.len() > 0 {
        lemma_inside_quotes_len(text.drop_last());
    }
}

/// Quotes the words of a command line.
#[derive(Debug, Clone, Copy)]
pub struct ShellQuoting;

impl ShellQuoting {
    /// The word of a command line that stands for `value`.
    pub fn quote(&self, value: &str) -> (word: String)
        ensures
            word@ == quoted(value@),
    {
        shell_quote(value)
    }
}

// ---------------------------------------------------------------------------
// Commands
// ---------------------------------------------------------------------------

/// The arguments that have a shell run `command`.
pub open spec fn shell_argv(command: Seq<char>, flag: Seq<char>) -> Seq<Seq<char>> {
    seq!["/bin/sh"@, flag, command]
}

/// A command is handed to the shell as it stands, as one argument behind the flag.
pub proof fn commands_are_handed_over_whole(command: Seq<char>, flag: Seq<char>)
    ensures
        ({
            let argv = shell_argv(command, flag);
            &&& argv.len() == 3
            &&& argv[0] == "/bin/sh"@
            &&& argv[1] == flag
            &&& argv[2] == command
        }),
{
}

/// The arguments that have a shell run `command`.
pub fn raw_command_argv(command: &str, flag: &str) -> (argv: Vec<String>)
    ensures
        crate::text::texts(argv@) == shell_argv(command@, flag@),
{
    let mut argv: Vec<String> = Vec::new();
    argv.push("/bin/sh".to_owned());
    argv.push(flag.to_owned());
    argv.push(command.to_owned());
    assert(crate::text::texts(argv@) =~= shell_argv(command@, flag@));
    argv
}

/// The arguments of a detached command, which a login shell runs.
pub fn detached_custom_command_argv(command: &str) -> (argv: Vec<String>)
    ensures
        crate::text::texts(argv@) == shell_argv(command@, "-lc"@),
{
    raw_command_argv(command, "-lc")
}

/// A command that is to run in a terminal of its own.
#[verifier::external_type_specification]
#[verifier::external_body]
pub struct ExCommandBuilder(portable_pty::CommandBuilder);

/// The arguments that a builder holds.
pub uninterp spec fn builder_argv(builder: portable_pty::CommandBuilder) -> Seq<Seq<char>>;

/// `portable_pty::CommandBuilder::from_argv`: the builder holds the arguments as they are given.
/// Nothing is said of the environment, which it takes from the process.
#[verifier::external_body]
fn builder_from_argv(argv: Vec<String>) -> (builder: portable_pty::CommandBuilder)
    ensures
        builder_argv(builder) == crate::text::texts(argv@),
{
    portable_pty::CommandBuilder::from_argv(argv.into_iter().map(|arg| arg.into()).collect())
}

/// The command of a pane, which a shell runs in the pane's terminal.
pub fn pane_custom_command_pty_builder_platform(command: &str) -> (builder:
    portable_pty::CommandBuilder)
    ensures
        builder_argv(builder) == shell_argv(command@, "-c"@),
{
    builder_from_argv(raw_command_argv(command, "-c"))
}

/// The command that opens the file at `path` in the user's editor and removes it afterwards.
pub open spec fn scrollback_command(path: Seq<char>) -> Seq<char> {
    "scrollback_file="@ + quoted(path)
        + "; eval \"${EDITOR:-vi} \\\"\\$scrollback_file\\\"\"; status=$?; rm -f \"$scrollback_file\"; exit $status"@
}

/// The command names the file by one word, which a shell reads as the path, whatever the path
/// holds; no other part of the command depends on it.
pub proof fn the_scrollback_file_is_the_path(path: Seq<char>, other: Seq<char>)
    ensures
        ({
            let prefix = "scrollback_file="@;
            let word = quoted(path);
            let command = scrollback_command(path);
            &&& command.take(prefix.len() as int) == prefix
            &&& command.subrange(prefix.len() as int, (prefix.len() + word.len()) as int) == word
            &&& shell_reads(word, false) == Some(path)
            &&& command.skip((prefix.len() + word.len()) as int) == scrollback_command(other).skip(
                (prefix.len() + quoted(other).len()) as int,
            )
            &&& command.skip((prefix.len() + word.len()) as int)
                == "; eval \"${EDITOR:-vi} \\\"\\$scrollback_file\\\"\"; status=$?; rm -f \"$scrollback_file\"; exit $status"@
        }),
{
    let prefix = "scrollback_file="@;
    let word = quoted(path);
    let command = scrollback_command(path);
    quoted_words_are_read_back(path);
    assert(command.take(prefix.len() as int) =~= prefix);
    assert(command.subrange(prefix.len() as int, (prefix.len() + word.len()) as int) =~= word);
    assert(command.skip((prefix.len() + word.len()) as int) =~= scrollback_command(other).skip(
        (prefix.len() + quoted(other).len()) as int,
    ));
}

/// The arguments that open the file at `path` in the user's editor and remove it afterwards.
pub fn scrollback_editor_argv(path: &str) -> (argv: Result<Vec<String>, ()>)
    ensures
        argv is Ok,
        crate::text::texts(argv->Ok_0@) == shell_argv(scrollback_command(path@), "-c"@),
{
    let mut command: String = "scrollback_file=".to_owned();
    command.append(shell_quote(path).as_str());
    command.append(
        "; eval \"${EDITOR:-vi} \\\"\\$scrollback_file\\\"\"; status=$?; rm -f \"$scrollback_file\"; exit $status",
    );
    Ok(raw_command_argv(command.as_str(), "-c"))
}

/// The command line for an interactive shell, which `build` puts together with the quoting of
/// this module.
pub fn interactive_shell_command<B>(argv: &[String], shell_name: &str, build: B) -> (command:
    Option<String>) where B: FnOnce(&[String], &str, ShellQuoting) -> Option<String>
    requires
        call_requires(build, (argv, shell_name, ShellQuoting)),
    ensures
        call_ensures(build, (argv, shell_name, ShellQuoting), command),
{
    build(argv, shell_name, ShellQuoting)
}

} // verus!
