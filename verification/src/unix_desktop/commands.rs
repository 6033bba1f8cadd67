//! The clipboard as text, through the helper programs of the session.
use vstd::prelude::*;

verus! {

/// A helper program with its arguments.
#[derive(Debug, Clone, Copy, PartialEq, Eq)]
pub struct ClipboardCommand {
    pub program: &'static str,
    pub args: &'static [&'static str],
}

/// The display servers that a session offers.
#[derive(Debug, Clone, Copy, PartialEq, Eq, Structural)]
pub struct DisplaySession {
    pub wayland: bool,
    pub x11: bool,
}

/// A helper program with its arguments, as plain text.
pub struct CommandView {
    pub program: Seq<char>,
    pub args: Seq<Seq<char>>,
}

/// The contents of a list of string slices.
pub open spec fn arg_texts(args: Seq<&str>) -> Seq<Seq<char>> {
    Seq::new(args.len(), |i: int| args[i]@)
}

impl View for ClipboardCommand {
    type V = CommandView;

    open spec fn view(&self) -> CommandView {
        CommandView { program: self.program@, args: arg_texts(self.args@) }
    }
}

/// The commands of a list as plain text.
pub open spec fn command_views(commands: Seq<ClipboardCommand>) -> Seq<CommandView> {
    Seq::new(commands.len(), |i: int| commands[i]@)
}

/// `session` is what the environment says: a display server is there if its variable is set.
pub open spec fn reads_session<E>(env_set: E, session: DisplaySession) -> bool where
    E: Fn(&str) -> bool,
 {
    &&& call_ensures(env_set, ("WAYLAND_DISPLAY",), session.wayland)
    &&& call_ensures(env_set, ("DISPLAY",), session.x11)
}

impl DisplaySession {
    /// The display servers that the environment names; `env_set` tells whether a variable is set.
    pub fn detect<E>(env_set: &E) -> (session: DisplaySession) where E: Fn(&str) -> bool
        requires
            forall|name: &str| #[trigger] call_requires(*env_set, (name,)),
        ensures
            reads_session(*env_set, session),
    {
        DisplaySession { wayland: env_set("WAYLAND_DISPLAY"), x11: env_set("DISPLAY") }
    }
}

/// The helper that takes text for the Wayland clipboard.
pub open spec fn wayland_writers() -> Seq<CommandView> {
    seq![CommandView { program: "wl-copy"@, args: seq!["--type"@, "text/plain;charset=utf-8"@] }]
}

/// The helpers that take text for the X11 clipboard.
pub open spec fn x11_writers() -> Seq<CommandView> {
    seq![
        CommandView { program: "xclip"@, args: seq!["-selection"@, "clipboard"@, "-in"@] },
        CommandView { program: "xsel"@, args: seq!["--clipboard"@, "--input"@] },
    ]
}

/// The helpers that give text from the Wayland clipboard.
pub open spec fn wayland_readers() -> Seq<CommandView> {
    seq![
        CommandView { program: "wl-paste"@, args: seq!["--type"@, "text/plain;charset=utf-8"@] },
        CommandView { program: "wl-paste"@, args: seq!["--type"@, "text/plain"@] },
    ]
}

/// The helpers that give text from the X11 clipboard.
pub open spec fn x11_readers() -> Seq<CommandView> {
    seq![
        CommandView { program: "xclip"@, args: seq!["-selection"@, "clipboard"@, "-out"@] },
        CommandView { program: "xsel"@, args: seq!["--clipboard"@, "--output"@] },
    ]
}

/// The helpers of a session: those for Wayland come before those for X11.
pub open spec fn session_commands(
    session: DisplaySession,
    wayland: Seq<CommandView>,
    x11: Seq<CommandView>,
) -> Seq<CommandView> {
    (if session.wayland {
        wayland
    } else {
        Seq::empty()
    }) + (if session.x11 {
        x11
    } else {
        Seq::empty()
    })
}

/// The helpers that take text for the clipboard, in the order in which they are tried.
pub fn clipboard_commands(session: DisplaySession) -> (commands: Vec<ClipboardCommand>)
    ensures
        command_views(commands@) == session_commands(session, wayland_writers(), x11_writers()),
{
    let mut commands: Vec<ClipboardCommand> = Vec::new();
    if session.wayland {
        let wl_copy = ClipboardCommand {
            program: "wl-copy",
            args: &["--type", "text/plain;charset=utf-8"],
        };
        assert(wl_copy@.args =~= wayland_writers()[0].args);
        commands.push(wl_copy);
    }
    if session.x11 {
        let xclip = ClipboardCommand {
            program: "xclip",
            args: &["-selection", "clipboard", "-in"],
        };
        let xsel = ClipboardCommand { program: "xsel", args: &["--clipboard", "--input"] };
        assert(xclip@.args =~= x11_writers()[0].args);
        assert(xsel@.args =~= x11_writers()[1].args);
        commands.push(xclip);
        commands.push(xsel);
    }
    assert(command_views(commands@) =~= session_commands(
        session,
        wayland_writers(),
        x11_writers(),
    ));
    commands
}

/// The helpers that give text from the clipboard, in the order in which they are tried.
pub fn read_clipboard_text_commands(session: DisplaySession) -> (commands: Vec<ClipboardCommand>)
    ensures
        command_views(commands@) == session_commands(session, wayland_readers(), x11_readers()),
{
    let mut commands: Vec<ClipboardCommand> = Vec::new();
    if session.wayland {
        let charset = ClipboardCommand {
            program: "wl-paste",
            args: &["--type", "text/plain;charset=utf-8"],
        };
        let plain = ClipboardCommand { program: "wl-paste", args: &["--type", "text/plain"] };
        assert(charset@.args =~= wayland_readers()[0].args);
        assert(plain@.args =~= wayland_readers()[1].args);
        commands.push(charset);
        commands.push(plain);
    }
    if session.x11 {
        let xclip = ClipboardCommand {
            program: "xclip",
            args: &["-selection", "clipboard", "-out"],
        };
        let xsel = ClipboardCommand { program: "xsel", args: &["--clipboard", "--output"] };
        assert(xclip@.args =~= x11_readers()[0].args);
        assert(xsel@.args =~= x11_readers()[1].args);
        commands.push(xclip);
        commands.push(xsel);
    }
    assert(command_views(commands@) =~= session_commands(
        session,
        wayland_readers(),
        x11_readers(),
    ));
    commands
}

/// `answers` are those of the commands in turn, up to the first that helped: only the last one may
/// have helped, and if it did not, none is left.
pub open spec fn are_tries<A>(
    answers: Seq<A>,
    helped: spec_fn(A) -> bool,
    commands: nat,
) -> bool {
    &&& answers.len() <= commands
    &&& forall|i: int| 0 <= i < answers.len() - 1 ==> !helped(#[trigger] answers[i])
    &&& answers.len() < commands ==> answers.len() > 0 && helped(answers.last())
}

/// Run `i` handed `bytes` to helper `i`, took the world as the run before it left it, and left the
/// next one.
pub open spec fn is_write_run<W, R>(
    run: R,
    commands: Seq<ClipboardCommand>,
    bytes: &[u8],
    worlds: Seq<W>,
    answers: Seq<bool>,
    i: int,
) -> bool where R: Fn(W, &ClipboardCommand, &[u8]) -> (W, bool) {
    call_ensures(run, (worlds[i], &commands[i], bytes), (worlds[i + 1], answers[i]))
}

/// The helpers of the session were run, one for each answer and in their order, and no more than
/// that: the first run took the world as it was, and the last left it as it is.
pub open spec fn are_write_runs<W, R>(
    run: R,
    session: DisplaySession,
    commands: Seq<ClipboardCommand>,
    bytes: &[u8],
    worlds: Seq<W>,
    answers: Seq<bool>,
) -> bool where R: Fn(W, &ClipboardCommand, &[u8]) -> (W, bool) {
    &&& command_views(commands) == session_commands(session, wayland_writers(), x11_writers())
    &&& worlds.len() == answers.len() + 1
    &&& forall|i: int|
        0 <= i < answers.len() ==> #[trigger] is_write_run(
            run,
            commands,
            bytes,
            worlds,
            answers,
            i,
        )
    &&& are_tries(answers, |answer: bool| answer, commands.len())
}

/// Hands `bytes` to the helpers of the session, one after the other, until one takes them. `run`
/// runs a helper and tells whether it did. A run takes the world and hands it on, so that each has
/// its place: none is made beside those that the answers are of.
pub fn write_clipboard<W, R>(
    session: DisplaySession,
    bytes: &[u8],
    world: W,
    run: R,
) -> (outcome: (W, bool)) where R: Fn(W, &ClipboardCommand, &[u8]) -> (W, bool)
    requires
        forall|world: W, command: &ClipboardCommand, bytes: &[u8]| #[trigger]
            call_requires(run, (world, command, bytes)),
    ensures
        exists|commands: Seq<ClipboardCommand>, worlds: Seq<W>, answers: Seq<bool>|
            {
                &&& #[trigger] are_write_runs(run, session, commands, bytes, worlds, answers)
                &&& worlds[0] == world
                &&& outcome.0 == worlds.last()
                &&& outcome.1 == (answers.len() > 0 && answers.last())
            },
{
    let commands: Vec<ClipboardCommand> = clipboard_commands(session);
    let ghost mut worlds: Seq<W> = seq![world];
    let ghost mut answers: Seq<bool> = Seq::empty();
    let mut current: W = world;
    let mut i: usize = 0;
    while i < commands.len()
        invariant
            forall|world: W, command: &ClipboardCommand, bytes: &[u8]| #[trigger]
                call_requires(run, (world, command, bytes)),
            command_views(commands@) == session_commands(
                session,
                wayland_writers(),
                x11_writers(),
            ),
            i <= commands@.len(),
            answers.len() == i,
            worlds.len() == i + 1,
            worlds[0] == world,
            worlds.last() == current,
            forall|k: int|
                0 <= k < i ==> #[trigger] is_write_run(
                    run,
                    commands@,
                    bytes,
                    worlds,
                    answers,
                    k,
                ),
            forall|k: int| 0 <= k < i ==> !#[trigger] answers[k],
        decreases commands@.len() - i,
    {
        let (next, written): (W, bool) = run(current, &commands[i], bytes);
        proof {
            let more_worlds = worlds.push(next);
            let more_answers = answers.push(written);
            assert forall|k: int| 0 <= k < i + 1 implies #[trigger] is_write_run(
                run,
                commands@,
                bytes,
                more_worlds,
                more_answers,
                k,
            ) by {
                if k < i {
                    assert(is_write_run(run, commands@, bytes, worlds, answers, k));
                }
            }
            worlds = more_worlds;
            answers = more_answers;
        }
        if written {
            assert(are_write_runs(run, session, commands@, bytes, worlds, answers));
            return (next, true);
        }
        current = next;
        i = i + 1;
    }
    assert(are_write_runs(run, session, commands@, bytes, worlds, answers));
    (current, false)
}

/// `answers` are the texts that the helpers gave.
pub open spec fn reads_with<R>(
    read: R,
    commands: Seq<ClipboardCommand>,
    answers: Seq<Option<String>>,
) -> bool where R: FnMut(&ClipboardCommand) -> Option<String> {
    forall|i: int|
        0 <= i < answers.len() ==> call_ensures(read, (&commands[i],), #[trigger] answers[i])
}

/// Asks the helpers of the session, one after the other, until one gives a text. `read` asks a
/// helper.
pub fn read_clipboard_text<R>(session: DisplaySession, read: R) -> (text: Option<String>) where
    R: FnMut(&ClipboardCommand) -> Option<String>,

    requires
        forall|command: &ClipboardCommand| #[trigger] call_requires(read, (command,)),
    ensures
        exists|commands: Seq<ClipboardCommand>, answers: Seq<Option<String>>|
            {
                &&& command_views(commands) == session_commands(
                    session,
                    wayland_readers(),
                    x11_readers(),
                )
                &&& #[trigger] reads_with(read, commands, answers)
                &&& are_tries(answers, |answer: Option<String>| answer is Some, commands.len())
                &&& text == (if answers.len() > 0 {
                    answers.last()
                } else {
                    None
                })
            },
{
    let commands: Vec<ClipboardCommand> = read_clipboard_text_commands(session);
    let mut attempt = read;
    let ghost mut answers: Seq<Option<String>> = Seq::empty();
    let mut i: usize = 0;
    while i < commands.len()
        invariant
            attempt == read,
            forall|command: &ClipboardCommand| #[trigger] call_requires(read, (command,)),
            command_views(commands@) == session_commands(
                session,
                wayland_readers(),
                x11_readers(),
            ),
            i <= commands@.len(),
            answers.len() == i,
            reads_with(read, commands@, answers),
            forall|k: int| 0 <= k < i ==> #[trigger] answers[k] is None,
        decreases commands@.len() - i,
    {
        let text: Option<String> = attempt(&commands[i]);
        proof {
            answers = answers.push(text);
            assert(reads_with(read, commands@, answers));
        }
        if text.is_some() {
            return text;
        }
        i = i + 1;
    }
    None
}

// ---------------------------------------------------------------------------
// Laws
// ---------------------------------------------------------------------------

/// Nothing follows a success: a helper that took the bytes is the last that was run, and where none
/// took them, every helper was run once.
pub proof fn no_helper_is_run_after_success<W, R>(
    run: R,
    session: DisplaySession,
    commands: Seq<ClipboardCommand>,
    bytes: &[u8],
    worlds: Seq<W>,
    answers: Seq<bool>,
) where R: Fn(W, &ClipboardCommand, &[u8]) -> (W, bool)
    requires
        are_write_runs(run, session, commands, bytes, worlds, answers),
    ensures
        forall|i: int| 0 <= i < answers.len() && #[trigger] answers[i] ==> i == answers.len() - 1,
        answers.contains(true) <==> answers.len() > 0 && answers.last(),
        !answers.contains(true) ==> answers.len() == commands.len(),
        answers.len() <= commands.len(),
{
    let helped = |answer: bool| answer;
    assert forall|i: int| 0 <= i < answers.len() && #[trigger] answers[i] implies i
        == answers.len() - 1 by {
        if i < answers.len() - 1 {
            assert(!helped(answers[i]));
        }
    }
    if answers.len() > 0 && answers.last() {
        assert(answers[answers.len() - 1]);
    }
}

/// In a session with both display servers the Wayland helpers are tried first, and the X11 helpers
/// remain as a fallback; without a display server there is nothing to try.
pub proof fn wayland_comes_before_x11(
    session: DisplaySession,
    wayland: Seq<CommandView>,
    x11: Seq<CommandView>,
)
    ensures
        ({
            let commands = session_commands(session, wayland, x11);
            &&& session.wayland ==> commands.take(wayland.len() as int) == wayland
            &&& session.x11 ==> commands.skip(commands.len() - x11.len()) == x11
            &&& !session.wayland && !session.x11 ==> commands.len() == 0
            &&& commands.len() == (if session.wayland {
                wayland.len()
            } else {
                0
            }) + (if session.x11 {
                x11.len()
            } else {
                0
            })
        }),
{
    let commands = session_commands(session, wayland, x11);
    if session.wayland {
        assert(commands.take(wayland.len() as int) =~= wayland);
    }
    if session.x11 {
        assert(commands.skip(commands.len() - x11.len()) =~= x11);
    }
}

/// Every helper is there under its name and with its arguments: one that takes text for Wayland and
/// two for X11, two that give text from each. The helpers of X11 take and give the same selection.
pub proof fn helpers_are_called_by_name()
    ensures
        ({
            let takes = wayland_writers();
            let gives = wayland_readers();
            &&& takes.len() == 1 && gives.len() == 2
            &&& takes[0].program == "wl-copy"@
            &&& gives[0].program == "wl-paste"@ && gives[1].program == "wl-paste"@
            &&& takes[0].args == seq!["--type"@, "text/plain;charset=utf-8"@]
            &&& gives[0].args == takes[0].args
            &&& gives[1].args == seq!["--type"@, "text/plain"@]
        }),
        ({
            let takes = x11_writers();
            let gives = x11_readers();
            &&& takes.len() == 2 && gives.len() == 2
            &&& takes[0].program == "xclip"@ && takes[1].program == "xsel"@
            &&& gives[0].program == takes[0].program && gives[1].program == takes[1].program
            &&& takes[0].args == seq!["-selection"@, "clipboard"@, "-in"@]
            &&& gives[0].args == seq!["-selection"@, "clipboard"@, "-out"@]
            &&& takes[1].args == seq!["--clipboard"@, "--input"@]
            &&& gives[1].args == seq!["--clipboard"@, "--output"@]
        }),
{
}

/// The display servers of a session are those whose variables are set.
pub proof fn display_servers_are_detected<E>(
    env_set: E,
    session: DisplaySession,
    wayland: bool,
    x11: bool,
) where E: Fn(&str) -> bool
    requires
        forall|set: bool| #[trigger]
            call_ensures(env_set, ("WAYLAND_DISPLAY",), set) ==> set == wayland,
        forall|set: bool| #[trigger] call_ensures(env_set, ("DISPLAY",), set) ==> set == x11,
        reads_session(env_set, session),
    ensures
        session.wayland == wayland,
        session.x11 == x11,
{
}

/// Whatever the commands would answer in turn, they are asked up to the first that helps, and all of
/// them where none does.
pub proof fn tries_end_with_the_first_help<A>(
    all: Seq<A>,
    answers: Seq<A>,
    helped: spec_fn(A) -> bool,
    i: int,
)
    requires
        answers.len() <= all.len(),
        answers == all.take(answers.len() as int),
        are_tries(answers, helped, all.len()),
        0 <= i < all.len(),
    ensures
        helped(all[i]) && (forall|k: int| 0 <= k < i ==> !helped(#[trigger] all[k]))
            ==> answers.len() == i + 1,
        (forall|k: int| 0 <= k < all.len() ==> !helped(#[trigger] all[k])) ==> answers.len()
            == all.len(),
{
    if helped(all[i]) && (forall|k: int| 0 <= k < i ==> !helped(#[trigger] all[k])) {
        if answers.len() > i + 1 {
            assert(answers[i] == all[i]);
        }
        if answers.len() < i + 1 {
            assert(answers.last() == all[answers.len() - 1]);
        }
    }
    if forall|k: int| 0 <= k < all.len() ==> !helped(#[trigger] all[k]) {
        if answers.len() < all.len() {
            assert(answers.last() == all[answers.len() - 1]);
        }
    }
}

/// Bytes are taken exactly where one of the helpers of the session takes them, whichever it is.
pub proof fn any_helper_can_take_the_bytes<W, R>(
    run: R,
    session: DisplaySession,
    commands: Seq<ClipboardCommand>,
    bytes: &[u8],
    worlds: Seq<W>,
    answers: Seq<bool>,
    takes: spec_fn(CommandView) -> bool,
) where R: Fn(W, &ClipboardCommand, &[u8]) -> (W, bool)
    requires
        are_write_runs(run, session, commands, bytes, worlds, answers),
        forall|world: W, command: &ClipboardCommand, outcome: (W, bool)| #[trigger]
            call_ensures(run, (world, command, bytes), outcome) ==> outcome.1 == takes(command@),
    ensures
        ({
            let helpers = session_commands(session, wayland_writers(), x11_writers());
            answers.len() > 0 && answers.last() <==> exists|i: int|
                0 <= i < helpers.len() && takes(#[trigger] helpers[i])
        }),
{
    let helpers = session_commands(session, wayland_writers(), x11_writers());
    let helped = |answer: bool| answer;
    assert(command_views(commands) == helpers);
    assert forall|i: int| 0 <= i < answers.len() implies #[trigger] answers[i] == takes(
        helpers[i],
    ) by {
        assert(is_write_run(run, commands, bytes, worlds, answers, i));
        assert(command_views(commands)[i] == commands[i]@);
    }
    if answers.len() > 0 && answers.last() {
        assert(answers[answers.len() - 1] == takes(helpers[answers.len() - 1]));
    }
    if exists|i: int| 0 <= i < helpers.len() && takes(#[trigger] helpers[i]) {
        let i = choose|i: int| 0 <= i < helpers.len() && takes(#[trigger] helpers[i]);
        if answers.len() > i {
            assert(answers[i] == takes(helpers[i]));
            if i < answers.len() - 1 {
                assert(!helped(answers[i]));
            }
        } else {
            assert(helped(answers.last()));
        }
    }
}

/// The text of the clipboard is that of the first helper of the session that gives one, and there is
/// none only where no helper gives one.
pub proof fn the_first_text_is_given<R>(
    read: R,
    session: DisplaySession,
    commands: Seq<ClipboardCommand>,
    answers: Seq<Option<String>>,
    gives: spec_fn(CommandView) -> Option<Seq<char>>,
)
where R: FnMut(&ClipboardCommand) -> Option<String>
    requires
        command_views(commands) == session_commands(session, wayland_readers(), x11_readers()),
        reads_with(read, commands, answers),
        are_tries(answers, |answer: Option<String>| answer is Some, commands.len()),
        forall|command: &ClipboardCommand, text: Option<String>| #[trigger]
            call_ensures(read, (command,), text) ==> crate::process::optional_text(text) == gives(
                command@,
            ),
    ensures
        ({
            let helpers = session_commands(session, wayland_readers(), x11_readers());
            let text = if answers.len() > 0 {
                answers.last()
            } else {
                None
            };
            &&& text is Some ==> {
                &&& answers.len() <= helpers.len()
                &&& gives(helpers[answers.len() - 1]) == Some(text->0@)
                &&& forall|k: int| 0 <= k < answers.len() - 1 ==> gives(#[trigger] helpers[k]) is None
            }
            &&& text is None ==> forall|k: int|
                0 <= k < helpers.len() ==> gives(#[trigger] helpers[k]) is None
        }),
{
    let helpers = session_commands(session, wayland_readers(), x11_readers());
    let helped = |answer: Option<String>| answer is Some;
    assert forall|i: int| 0 <= i < answers.len() implies crate::process::optional_text(
        #[trigger] answers[i],
    ) == gives(helpers[i]) by {
        assert(call_ensures(read, (&commands[i],), answers[i]));
        assert(command_views(commands)[i] == commands[i]@);
    }
    assert forall|k: int| 0 <= k < answers.len() - 1 implies gives(#[trigger] helpers[k]) is None by {
        assert(!helped(answers[k]));
    }
    if answers.len() > 0 {
        assert(crate::process::optional_text(answers[answers.len() - 1]) == gives(
            helpers[answers.len() - 1],
        ));
    }
    if answers.len() < helpers.len() {
        assert(helped(answers.last()));
    }
}

/// The plain text of commands is that of each, none left out, with all its arguments.
pub proof fn every_argument_is_there(commands: Seq<ClipboardCommand>, args: Seq<&str>)
    ensures
        arg_texts(args).len() == args.len(),
        forall|i: int| 0 <= i < args.len() ==> #[trigger] arg_texts(args)[i] == args[i]@,
        command_views(commands).len() == commands.len(),
        forall|i: int|
            0 <= i < commands.len() ==> {
                &&& (#[trigger] command_views(commands)[i]).program == commands[i].program@
                &&& command_views(commands)[i].args == arg_texts(commands[i].args@)
            },
{
}

} // verus!
