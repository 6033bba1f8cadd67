//! Handing bytes to a clipboard helper.
//!
//! The exchange is a state machine. A step names what is to be done with the helper next; its
//! outcome leads to the step after it.
use crate::text::same_text;
use crate::unix_desktop::commands::ClipboardCommand;
use vstd::prelude::*;

verus! {

/// How long a selection owner is watched before it is left to itself, in nanoseconds.
pub const STARTUP_WAIT_NANOS: u128 = 100_000_000;

/// How long to pause between two looks at a selection owner, in nanoseconds.
pub const POLL_INTERVAL_NANOS: u64 = 5_000_000;

/// Where the exchange stands: what to do next, or whether the helper took the bytes. An owner is a
/// helper that stays alive to own the selection; others end when they have the bytes.
#[derive(Debug, Clone, Copy, PartialEq, Eq, Structural)]
pub enum WriteStep {
    /// Start the helper with a pipe as its input.
    Spawn { owner: bool },
    /// Take the helper's end of the pipe.
    TakeInput { owner: bool },
    /// Write all the bytes.
    WriteInput { owner: bool },
    /// Close the pipe.
    CloseInput { owner: bool },
    /// Wait until the helper ends.
    Wait,
    /// Look whether the owner has ended, and how long it has been watched.
    Poll,
    /// Pause for the poll interval.
    Pause,
    /// Start something that waits for the owner to end, in the background.
    StartReaper,
    /// Kill the helper.
    Kill,
    /// Wait for the killed helper.
    Reap,
    /// The exchange is over.
    Done { taken: bool },
}

/// What came of a step.
#[derive(Debug, Clone, Copy, PartialEq, Eq, Structural)]
pub enum WriteEvent {
    /// It was done.
    Succeeded,
    /// The helper has ended, well or not.
    Exited { success: bool },
    /// The helper is alive, so many nanoseconds after the first look.
    Running { elapsed: u128 },
    /// It could not be done.
    Failed,
}

/// `event` is an outcome of `step`.
pub open spec fn write_outcome(step: WriteStep, event: WriteEvent) -> bool {
    match step {
        WriteStep::CloseInput { .. } | WriteStep::Pause => event is Succeeded,
        WriteStep::Wait => event is Exited || event is Failed,
        WriteStep::Poll => event is Exited || event is Running || event is Failed,
        WriteStep::Done { .. } => false,
        _ => event is Succeeded || event is Failed,
    }
}

/// The step that follows `step` on `event`.
pub open spec fn write_step(step: WriteStep, event: WriteEvent) -> WriteStep {
    match (step, event) {
        (WriteStep::Spawn { owner }, WriteEvent::Succeeded) => WriteStep::TakeInput { owner },
        (WriteStep::Spawn { .. }, _) => WriteStep::Done { taken: false },
        (WriteStep::TakeInput { owner }, WriteEvent::Succeeded) => WriteStep::WriteInput { owner },
        (WriteStep::WriteInput { owner }, WriteEvent::Succeeded) => WriteStep::CloseInput { owner },
        (WriteStep::TakeInput { .. } | WriteStep::WriteInput { .. }, _) => WriteStep::Kill,
        (WriteStep::CloseInput { owner }, _) => if owner {
            WriteStep::Poll
        } else {
            WriteStep::Wait
        },
        (WriteStep::Wait | WriteStep::Poll, WriteEvent::Exited { success }) => WriteStep::Done {
            taken: success,
        },
        (WriteStep::Wait, _) => WriteStep::Done { taken: false },
        (WriteStep::Poll, WriteEvent::Running { elapsed }) => if elapsed < STARTUP_WAIT_NANOS {
            WriteStep::Pause
        } else {
            WriteStep::StartReaper
        },
        (WriteStep::Poll, _) => WriteStep::Kill,
        (WriteStep::Pause, _) => WriteStep::Poll,
        (WriteStep::StartReaper, WriteEvent::Succeeded) => WriteStep::Done { taken: true },
        (WriteStep::StartReaper, _) => WriteStep::Kill,
        (WriteStep::Kill, _) => WriteStep::Reap,
        (WriteStep::Reap, _) => WriteStep::Done { taken: false },
        (WriteStep::Done { taken }, _) => WriteStep::Done { taken },
    }
}

/// Starts to hand bytes to a helper. `wl-copy` stays alive to own the selection.
pub fn run_clipboard_command(command: &ClipboardCommand) -> (step: WriteStep)
    ensures
        step == (WriteStep::Spawn { owner: command.program@ == "wl-copy"@ }),
{
    WriteStep::Spawn { owner: same_text(command.program, "wl-copy") }
}

/// Starts to watch a selection owner that has all the bytes.
pub fn wait_for_wl_copy_startup() -> (step: WriteStep)
    ensures
        step == WriteStep::Poll,
{
    WriteStep::Poll
}

/// Starts to leave a selection owner to itself.
pub fn detach_clipboard_owner() -> (step: WriteStep)
    ensures
        step == WriteStep::StartReaper,
{
    WriteStep::StartReaper
}

impl WriteStep {
    /// The step that follows this one, once it had this outcome.
    pub fn advance(self, event: WriteEvent) -> (next: WriteStep)
        requires
            write_outcome(self, event),
        ensures
            next == write_step(self, event),
    {
        match self {
            WriteStep::Spawn { owner } => match event {
                WriteEvent::Succeeded => WriteStep::TakeInput { owner },
                _ => WriteStep::Done { taken: false },
            },
            WriteStep::TakeInput { owner } => match event {
                WriteEvent::Succeeded => WriteStep::WriteInput { owner },
                _ => WriteStep::Kill,
            },
            WriteStep::WriteInput { owner } => match event {
                WriteEvent::Succeeded => WriteStep::CloseInput { owner },
                _ => WriteStep::Kill,
            },
            WriteStep::CloseInput { owner } => if owner {
                wait_for_wl_copy_startup()
            } else {
                WriteStep::Wait
            },
            WriteStep::Wait => match event {
                WriteEvent::Exited { success } => WriteStep::Done { taken: success },
                _ => WriteStep::Done { taken: false },
            },
            WriteStep::Poll => match event {
                WriteEvent::Exited { success } => WriteStep::Done { taken: success },
                WriteEvent::Running { elapsed } => if elapsed < STARTUP_WAIT_NANOS {
                    WriteStep::Pause
                } else {
                    detach_clipboard_owner()
                },
                _ => WriteStep::Kill,
            },
            WriteStep::Pause => WriteStep::Poll,
            WriteStep::StartReaper => match event {
                WriteEvent::Succeeded => WriteStep::Done { taken: true },
                _ => WriteStep::Kill,
            },
            WriteStep::Kill => WriteStep::Reap,
            WriteStep::Reap => WriteStep::Done { taken: false },
            WriteStep::Done { taken } => WriteStep::Done { taken },
        }
    }
}

// ---------------------------------------------------------------------------
// Laws
// ---------------------------------------------------------------------------

/// How far the exchange has got.
pub open spec fn write_stage(step: WriteStep) -> int {
    match step {
        WriteStep::Spawn { .. } => 0,
        WriteStep::TakeInput { .. } => 1,
        WriteStep::WriteInput { .. } => 2,
        WriteStep::CloseInput { .. } => 3,
        WriteStep::Wait => 4,
        WriteStep::Poll | WriteStep::Pause => 5,
        WriteStep::StartReaper => 6,
        WriteStep::Kill => 7,
        WriteStep::Reap => 8,
        WriteStep::Done { .. } => 9,
    }
}

/// Step `i + 1` follows step `i` on event `i`.
pub open spec fn write_moves(steps: Seq<WriteStep>, events: Seq<WriteEvent>, i: int) -> bool {
    write_outcome(steps[i], events[i]) && steps[i + 1] == write_step(steps[i], events[i])
}

/// `steps` are the steps of an exchange, each but the first after the outcome of the one before.
pub open spec fn is_write(owner: bool, steps: Seq<WriteStep>, events: Seq<WriteEvent>) -> bool {
    &&& steps.len() == events.len() + 1
    &&& steps[0] == (WriteStep::Spawn { owner })
    &&& forall|i: int| 0 <= i < events.len() ==> #[trigger] write_moves(steps, events, i)
}

/// Later steps are at no earlier stage.
proof fn lemma_write_stages_grow(
    owner: bool,
    steps: Seq<WriteStep>,
    events: Seq<WriteEvent>,
    i: int,
    j: int,
)
    requires
        is_write(owner, steps, events),
        0 <= i <= j < steps.len(),
    ensures
        write_stage(steps[i]) <= write_stage(steps[j]),
    decreases j - i,
{
    if i < j {
        lemma_write_stages_grow(owner, steps, events, i, j - 1);
        assert(write_moves(steps, events, j - 1));
    }
}

/// The helper has been waited for, or something in the background waits for it.
pub open spec fn is_cared_for(step: WriteStep, event: WriteEvent) -> bool {
    ||| step is Wait
    ||| step is Poll && event is Exited
    ||| step is Reap
    ||| step is StartReaper && event is Succeeded
}

/// No exchange ends with a helper that nobody waits for: unless the helper could not be started,
/// it was waited for or something in the background waits for it.
pub proof fn no_writing_helper_is_left_behind(
    owner: bool,
    steps: Seq<WriteStep>,
    events: Seq<WriteEvent>,
    i: int,
)
    requires
        is_write(owner, steps, events),
        0 <= i < steps.len(),
        steps[i] is Done,
    ensures
        i > 0,
        steps[i - 1] is Spawn && events[i - 1] is Failed || is_cared_for(
            steps[i - 1],
            events[i - 1],
        ),
{
    assert(write_moves(steps, events, i - 1));
}

/// A helper that is killed is waited for next.
pub proof fn killed_helpers_are_reaped(event: WriteEvent)
    requires
        write_outcome(WriteStep::Kill, event),
    ensures
        write_step(WriteStep::Kill, event) == WriteStep::Reap,
{
}

/// Before step `i`, all bytes were written and the pipe was closed next.
pub open spec fn input_was_given(steps: Seq<WriteStep>, events: Seq<WriteEvent>, i: int) -> bool {
    exists|k: int|
        0 <= k < i - 1 && #[trigger] steps[k] is WriteInput && events[k] is Succeeded && steps[k
            + 1] is CloseInput
}

/// Beyond the closing of the pipe, and short of a kill, all bytes were written.
proof fn lemma_input_was_given(
    owner: bool,
    steps: Seq<WriteStep>,
    events: Seq<WriteEvent>,
    i: int,
)
    requires
        is_write(owner, steps, events),
        0 <= i < steps.len(),
        steps[i] is Wait || steps[i] is Poll || steps[i] is Pause || steps[i] is StartReaper,
    ensures
        input_was_given(steps, events, i),
    decreases i,
{
    assert(write_moves(steps, events, i - 1));
    if steps[i - 1] is CloseInput {
        assert(write_moves(steps, events, i - 2));
        assert(steps[i - 2] is WriteInput && events[i - 2] is Succeeded && steps[i - 2
            + 1] is CloseInput);
    } else {
        lemma_input_was_given(owner, steps, events, i - 1);
        let k = choose|k: int|
            0 <= k < i - 2 && #[trigger] steps[k] is WriteInput && events[k] is Succeeded
                && steps[k + 1] is CloseInput;
        assert(steps[k] is WriteInput);
    }
}

/// A helper counts as having taken the bytes only after all of them were written and the pipe was
/// closed, and unless it ended badly.
pub proof fn taken_bytes_were_written(
    owner: bool,
    steps: Seq<WriteStep>,
    events: Seq<WriteEvent>,
    i: int,
)
    requires
        is_write(owner, steps, events),
        0 <= i < steps.len(),
        steps[i] == (WriteStep::Done { taken: true }),
    ensures
        input_was_given(steps, events, i),
        events[i - 1] == (WriteEvent::Exited { success: true }) || (steps[i - 1] is StartReaper
            && events[i - 1] is Succeeded),
{
    assert(write_moves(steps, events, i - 1));
    lemma_input_was_given(owner, steps, events, i - 1);
    let k = choose|k: int|
        0 <= k < i - 2 && #[trigger] steps[k] is WriteInput && events[k] is Succeeded && steps[k
            + 1] is CloseInput;
    assert(steps[k] is WriteInput);
}

/// A step before the pipe is closed belongs to the helper that was started.
proof fn lemma_owner_is_kept(
    owner: bool,
    steps: Seq<WriteStep>,
    events: Seq<WriteEvent>,
    i: int,
)
    requires
        is_write(owner, steps, events),
        0 <= i < steps.len(),
    ensures
        match steps[i] {
            WriteStep::Spawn { owner: o } | WriteStep::TakeInput { owner: o } | WriteStep::WriteInput {
                owner: o,
            } | WriteStep::CloseInput { owner: o } => o == owner,
            WriteStep::Wait => !owner,
            WriteStep::Poll | WriteStep::Pause | WriteStep::StartReaper => owner,
            _ => true,
        },
    decreases i,
{
    if i > 0 {
        lemma_owner_is_kept(owner, steps, events, i - 1);
        assert(write_moves(steps, events, i - 1));
    }
}

/// A live selection owner is never waited for: it is looked at until the startup time is over, and
/// then left to itself.
pub proof fn selection_owners_do_not_block(
    steps: Seq<WriteStep>,
    events: Seq<WriteEvent>,
    i: int,
    j: int,
)
    requires
        is_write(true, steps, events),
        0 <= i < steps.len(),
        0 <= j < steps.len(),
    ensures
        !(steps[i] is Wait),
        i < events.len() && i < j && steps[i] is Poll && (events[i] matches WriteEvent::Running {
            elapsed,
        } && elapsed >= STARTUP_WAIT_NANOS) ==> !(steps[j] is Poll) && !(steps[j] is Pause),
{
    lemma_owner_is_kept(true, steps, events, i);
    if i < events.len() && i < j {
        assert(write_moves(steps, events, i));
        lemma_write_stages_grow(true, steps, events, i + 1, j);
    }
}

/// A helper that ends when it has the bytes has taken them exactly where it ends well. An owner that
/// is alive after a tenth of a second has taken them once something waits for it, and so has one
/// that ended well before; until then it is looked at again and again.
pub proof fn written_bytes_are_taken(success: bool, elapsed: u128)
    ensures
        ({
            let closed = write_step(
                write_step(
                    write_step(WriteStep::Spawn { owner: false }, WriteEvent::Succeeded),
                    WriteEvent::Succeeded,
                ),
                WriteEvent::Succeeded,
            );
            let wait = write_step(closed, WriteEvent::Succeeded);
            &&& write_outcome(wait, WriteEvent::Exited { success })
            &&& write_step(wait, WriteEvent::Exited { success }) == (WriteStep::Done {
                taken: success,
            })
        }),
        ({
            let closed = write_step(
                write_step(
                    write_step(WriteStep::Spawn { owner: true }, WriteEvent::Succeeded),
                    WriteEvent::Succeeded,
                ),
                WriteEvent::Succeeded,
            );
            let poll = write_step(closed, WriteEvent::Succeeded);
            let after = write_step(poll, WriteEvent::Running { elapsed });
            &&& write_outcome(poll, WriteEvent::Exited { success })
            &&& write_outcome(poll, WriteEvent::Running { elapsed })
            &&& write_outcome(after, WriteEvent::Succeeded)
            &&& write_step(poll, WriteEvent::Exited { success }) == (WriteStep::Done {
                taken: success,
            })
            &&& elapsed < 100000000 ==> write_step(after, WriteEvent::Succeeded) == poll
            &&& elapsed >= 100000000 ==> write_step(after, WriteEvent::Succeeded) == (
            WriteStep::Done { taken: true })
        }),
{
}

/// A failure, or a helper that ended badly, is among the first `i` events.
pub open spec fn went_wrong(events: Seq<WriteEvent>, i: int) -> bool {
    exists|k: int|
        0 <= k < i && (#[trigger] events[k] is Failed || events[k] == (WriteEvent::Exited {
            success: false,
        }))
}

/// The bytes are refused for a cause only: something could not be done, or the helper ended badly.
pub proof fn bytes_are_refused_for_a_cause(
    owner: bool,
    steps: Seq<WriteStep>,
    events: Seq<WriteEvent>,
    i: int,
)
    requires
        is_write(owner, steps, events),
        0 <= i < steps.len(),
        steps[i] == (WriteStep::Done { taken: false }) || steps[i] is Kill || steps[i] is Reap,
    ensures
        went_wrong(events, i),
    decreases i,
{
    assert(write_moves(steps, events, i - 1));
    if steps[i - 1] is Kill || steps[i - 1] is Reap {
        bytes_are_refused_for_a_cause(owner, steps, events, i - 1);
        let k = choose|k: int|
            0 <= k < i - 1 && (#[trigger] events[k] is Failed || events[k] == (WriteEvent::Exited {
                success: false,
            }));
        assert(events[k] is Failed || events[k] == (WriteEvent::Exited { success: false }));
    } else {
        assert(events[i - 1] is Failed || events[i - 1] == (WriteEvent::Exited {
            success: false,
        }));
    }
}

/// Whatever fails once the helper was started and before it is waited for, the helper is killed, and
/// a killed helper is waited for, and only a killed one. A helper that cannot be started, or not be
/// waited for, has not taken the bytes.
pub proof fn failures_kill_the_helper(step: WriteStep, event: WriteEvent)
    requires
        write_outcome(step, event),
    ensures
        event is Failed && (step is TakeInput || step is WriteInput || step is Poll
            || step is StartReaper) ==> write_step(step, event) is Kill,
        event is Failed && (step is Spawn || step is Wait) ==> write_step(step, event) == (
        WriteStep::Done { taken: false }),
        write_step(step, event) is Reap <==> step is Kill,
        step is Reap ==> write_step(step, event) == (WriteStep::Done { taken: false }),
        write_step(step, event) is Kill ==> event is Failed,
{
}

/// An owner is looked at every five milliseconds, twenty times until it is left to itself.
pub proof fn owners_are_looked_at_twenty_times(looks: nat)
    ensures
        POLL_INTERVAL_NANOS == 5 * 1000 * 1000,
        looks < 20 <==> looks * POLL_INTERVAL_NANOS < STARTUP_WAIT_NANOS,
{
}

/// Every outcome that the world can give is taken: whatever is done may fail, but for the closing of
/// the pipe and a pause; a wait tells how the helper ended, and a look also for how long it has run.
pub proof fn every_outcome_is_taken(step: WriteStep, success: bool, elapsed: u128)
    ensures
        !(step is Done || step is CloseInput || step is Pause) ==> write_outcome(
            step,
            WriteEvent::Failed,
        ),
        !(step is Done || step is Wait || step is Poll) ==> write_outcome(
            step,
            WriteEvent::Succeeded,
        ),
        step is Wait || step is Poll ==> write_outcome(step, WriteEvent::Exited { success }),
        step is Poll ==> write_outcome(step, WriteEvent::Running { elapsed }),
{
}

} // verus!
