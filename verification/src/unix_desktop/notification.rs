//! Desktop notifications, through libnotify's command-line helper.
use crate::unix_desktop::commands::DisplaySession;
use vstd::prelude::*;

verus! {

/// What came of running a helper to its end.
pub enum HelperOutcome<E> {
    /// It ended, well or not.
    Exited { success: bool },
    /// There is no such program.
    NotFound,
    /// It could not be run.
    Failed(E),
}

/// What a notification comes to: whether it was shown. A helper that is not there shows nothing,
/// which is no failure.
pub open spec fn notified<E>(outcome: HelperOutcome<E>) -> Result<bool, E> {
    match outcome {
        HelperOutcome::Exited { success } => Ok(success),
        HelperOutcome::NotFound => Ok(false),
        HelperOutcome::Failed(error) => Err(error),
    }
}

/// What the outcome of the helper means for the notification.
pub fn run_notification_command<E>(outcome: HelperOutcome<E>) -> (shown: Result<bool, E>)
    ensures
        shown == notified(outcome),
{
    match outcome {
        HelperOutcome::Exited { success } => Ok(success),
        HelperOutcome::NotFound => Ok(false),
        HelperOutcome::Failed(error) => Err(error),
    }
}

/// The arguments of the helper. The title may look like an option, so the options end before it; an
/// empty body is none.
pub open spec fn notification_texts(title: Seq<char>, body: Option<&str>) -> Seq<Seq<char>> {
    match body {
        Some(body) => if body@.len() > 0 {
            seq!["--"@, title, body@]
        } else {
            seq!["--"@, title]
        },
        None => seq!["--"@, title],
    }
}

/// A title is never taken for an option, whatever it looks like: the options have ended before it.
pub proof fn titles_are_no_options(title: Seq<char>, body: Option<&str>)
    ensures
        ({
            let args = notification_texts(title, body);
            &&& args.len() >= 2
            &&& args[0] == "--"@
            &&& args[1] == title
            &&& args.len() == 3 <==> body is Some && body->0@.len() > 0
        }),
{
}

/// The arguments of the helper.
pub fn notification_args(title: &str, body: Option<&str>) -> (args: Vec<String>)
    ensures
        crate::text::texts(args@) == notification_texts(title@, body),
{
    let mut args: Vec<String> = Vec::new();
    args.push("--".to_owned());
    args.push(title.to_owned());
    match body {
        Some(body) => if crate::text::to_chars(body).len() > 0 {
            args.push(body.to_owned());
        },
        None => {},
    }
    assert(crate::text::texts(args@) =~= notification_texts(title@, body));
    args
}

/// Shows a notification in a session with a display. `run` runs a helper with its arguments.
pub fn show_desktop_notification<E, R>(
    title: &str,
    body: Option<&str>,
    session: DisplaySession,
    run: R,
) -> (shown: Result<bool, E>) where R: FnOnce(&str, Vec<String>) -> HelperOutcome<E>
    requires
        forall|program: &str, args: Vec<String>| #[trigger] call_requires(run, (program, args)),
    ensures
        !session.wayland && !session.x11 ==> shown == Ok::<bool, E>(false),
        session.wayland || session.x11 ==> exists|args: Vec<String>, outcome: HelperOutcome<E>|
            {
                &&& crate::text::texts(args@) == notification_texts(title@, body)
                &&& #[trigger] call_ensures(run, ("notify-send", args), outcome)
                &&& shown == notified(outcome)
            },
{
    if !session.x11 && !session.wayland {
        return Ok(false);
    }
    let args: Vec<String> = notification_args(title, body);
    let ghost given = args;
    let outcome: HelperOutcome<E> = run("notify-send", args);
    assert(call_ensures(run, ("notify-send", given), outcome));
    run_notification_command(outcome)
}

/// The body is the last argument, as it stands, and a notification is shown exactly where the helper
/// ended well; a helper that is missing is no failure, and the failure to run it is its own error.
pub proof fn notifications_are_shown_whole<E>(
    title: Seq<char>,
    body: &str,
    success: bool,
    error: E,
)
    ensures
        body@.len() > 0 ==> notification_texts(title, Some(body)) == seq!["--"@, title, body@],
        body@.len() == 0 ==> notification_texts(title, Some(body)) == notification_texts(
            title,
            None,
        ),
        notified(HelperOutcome::<E>::Exited { success }) == Ok::<bool, E>(success),
        notified(HelperOutcome::<E>::NotFound) == Ok::<bool, E>(false),
        notified(HelperOutcome::Failed(error)) == Err::<bool, E>(error),
{
}

} // verus!
