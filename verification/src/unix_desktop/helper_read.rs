//! Reading what a clipboard helper prints.
//!
//! The exchange is a state machine. A step names what is to be done with the helper next; its
//! outcome leads to the step after it.
use crate::text::from_utf8;
use crate::unix_desktop::commands::ClipboardCommand;
use vstd::prelude::*;

verus! {

/// How much text is taken from the clipboard at most, in bytes.
pub const MAX_CLIPBOARD_TEXT_BYTES: usize = 1_048_576;

/// What a read with a limit came to.
#[derive(Debug, Clone, PartialEq, Eq)]
pub enum LimitedRead {
    /// There was nothing.
    Empty,
    /// This is all there was.
    Complete(Vec<u8>),
    /// There was more than the limit.
    Oversized,
}

/// What a read with a limit came to, over mathematical values.
pub enum LimitedReadView {
    Empty,
    Complete(Seq<u8>),
    Oversized,
}

impl View for LimitedRead {
    type V = LimitedReadView;

    open spec fn view(&self) -> LimitedReadView {
        match *self {
            LimitedRead::Empty => LimitedReadView::Empty,
            LimitedRead::Complete(bytes) => LimitedReadView::Complete(bytes@),
            LimitedRead::Oversized => LimitedReadView::Oversized,
        }
    }
}

/// What bytes are under a limit.
pub open spec fn limited(bytes: Seq<u8>, max_bytes: int) -> LimitedReadView {
    if bytes.len() == 0 {
        LimitedReadView::Empty
    } else if bytes.len() > max_bytes {
        LimitedReadView::Oversized
    } else {
        LimitedReadView::Complete(bytes)
    }
}

impl LimitedRead {
    /// What bytes are under a limit. Of output beyond the limit, one byte more is enough to tell.
    pub fn classify(bytes: Vec<u8>, max_bytes: usize) -> (read: LimitedRead)
        ensures
            read@ == limited(bytes@, max_bytes as int),
    {
        if bytes.len() == 0 {
            LimitedRead::Empty
        } else if bytes.len() > max_bytes {
            LimitedRead::Oversized
        } else {
            LimitedRead::Complete(bytes)
        }
    }
}

/// Where the exchange stands: what to do next, or what the helper printed.
pub enum ReadStep {
    /// Start the helper with a pipe as its output.
    Spawn { max_bytes: usize },
    /// Take the helper's end of the pipe.
    TakeOutput { max_bytes: usize },
    /// Read until the end, or until one byte more than the limit.
    ReadOutput { max_bytes: usize },
    /// Wait until the helper ends.
    Wait { read: LimitedRead },
    /// Kill the helper.
    Kill,
    /// Wait for the killed helper.
    Reap,
    /// The exchange is over.
    Done { bytes: Option<Vec<u8>> },
}

/// What came of a step.
pub enum ReadEvent {
    /// It was done.
    Succeeded,
    /// The bytes that were read.
    Output(Vec<u8>),
    /// The helper has ended, well or not.
    Exited { success: bool },
    /// It could not be done.
    Failed,
}

/// Where the exchange stands, over mathematical values.
pub enum ReadStepView {
    Spawn { max_bytes: int },
    TakeOutput { max_bytes: int },
    ReadOutput { max_bytes: int },
    Wait { read: LimitedReadView },
    Kill,
    Reap,
    Done { bytes: Option<Seq<u8>> },
}

/// What came of a step, over mathematical values.
pub enum ReadEventView {
    Succeeded,
    Output(Seq<u8>),
    Exited { success: bool },
    Failed,
}

impl View for ReadStep {
    type V = ReadStepView;

    open spec fn view(&self) -> ReadStepView {
        match *self {
            ReadStep::Spawn { max_bytes } => ReadStepView::Spawn { max_bytes: max_bytes as int },
            ReadStep::TakeOutput { max_bytes } => ReadStepView::TakeOutput {
                max_bytes: max_bytes as int,
            },
            ReadStep::ReadOutput { max_bytes } => ReadStepView::ReadOutput {
                max_bytes: max_bytes as int,
            },
            ReadStep::Wait { read } => ReadStepView::Wait { read: read@ },
            ReadStep::Kill => ReadStepView::Kill,
            ReadStep::Reap => ReadStepView::Reap,
            ReadStep::Done { bytes } => ReadStepView::Done {
                bytes: match bytes {
                    Some(bytes) => Some(bytes@),
                    None => None,
                },
            },
        }
    }
}

impl View for ReadEvent {
    type V = ReadEventView;

    open spec fn view(&self) -> ReadEventView {
        match *self {
            ReadEvent::Succeeded => ReadEventView::Succeeded,
            ReadEvent::Output(bytes) => ReadEventView::Output(bytes@),
            ReadEvent::Exited { success } => ReadEventView::Exited { success },
            ReadEvent::Failed => ReadEventView::Failed,
        }
    }
}

/// `event` is an outcome of `step`.
pub open spec fn read_outcome(step: ReadStepView, event: ReadEventView) -> bool {
    match step {
        ReadStepView::ReadOutput { .. } => event is Output || event is Failed,
        ReadStepView::Wait { .. } => event is Exited || event is Failed,
        ReadStepView::Done { .. } => false,
        _ => event is Succeeded || event is Failed,
    }
}

/// The step that follows `step` on `event`.
pub open spec fn read_step(step: ReadStepView, event: ReadEventView) -> ReadStepView {
    match (step, event) {
        (ReadStepView::Spawn { max_bytes }, ReadEventView::Succeeded) => ReadStepView::TakeOutput {
            max_bytes,
        },
        (ReadStepView::TakeOutput { max_bytes }, ReadEventView::Succeeded) => {
            ReadStepView::ReadOutput { max_bytes }
        },
        (ReadStepView::Spawn { .. } | ReadStepView::TakeOutput { .. }, _) => ReadStepView::Done {
            bytes: None,
        },
        (ReadStepView::ReadOutput { max_bytes }, ReadEventView::Output(bytes)) => if limited(
            bytes,
            max_bytes,
        ) is Oversized {
            ReadStepView::Kill
        } else {
            ReadStepView::Wait { read: limited(bytes, max_bytes) }
        },
        (ReadStepView::ReadOutput { .. }, _) => ReadStepView::Kill,
        (ReadStepView::Wait { read }, ReadEventView::Exited { success }) => ReadStepView::Done {
            bytes: match read {
                LimitedReadView::Complete(bytes) => if success {
                    Some(bytes)
                } else {
                    None
                },
                _ => None,
            },
        },
        (ReadStepView::Wait { .. }, _) => ReadStepView::Done { bytes: None },
        (ReadStepView::Kill, _) => ReadStepView::Reap,
        (ReadStepView::Reap, _) => ReadStepView::Done { bytes: None },
        (ReadStepView::Done { bytes }, _) => ReadStepView::Done { bytes },
    }
}

/// Starts to read what a helper prints, up to a limit.
pub fn read_clipboard_image_with_spawned_command_max(max_bytes: usize) -> (step: ReadStep)
    ensures
        step@ == (ReadStepView::Spawn { max_bytes: max_bytes as int }),
{
    ReadStep::Spawn { max_bytes }
}

impl ReadStep {
    /// The step that follows this one, once it had this outcome.
    pub fn advance(self, event: ReadEvent) -> (next: ReadStep)
        requires
            read_outcome(self@, event@),
        ensures
            next@ == read_step(self@, event@),
    {
        match self {
            ReadStep::Spawn { max_bytes } => match event {
                ReadEvent::Succeeded => ReadStep::TakeOutput { max_bytes },
                _ => ReadStep::Done { bytes: None },
            },
            ReadStep::TakeOutput { max_bytes } => match event {
                ReadEvent::Succeeded => ReadStep::ReadOutput { max_bytes },
                _ => ReadStep::Done { bytes: None },
            },
            ReadStep::ReadOutput { max_bytes } => match event {
                ReadEvent::Output(bytes) => match LimitedRead::classify(bytes, max_bytes) {
                    LimitedRead::Oversized => ReadStep::Kill,
                    read => ReadStep::Wait { read },
                },
                _ => ReadStep::Kill,
            },
            ReadStep::Wait { read } => match event {
                ReadEvent::Exited { success } => if !success {
                    ReadStep::Done { bytes: None }
                } else {
                    match read {
                        LimitedRead::Complete(bytes) => ReadStep::Done { bytes: Some(bytes) },
                        _ => ReadStep::Done { bytes: None },
                    }
                },
                _ => ReadStep::Done { bytes: None },
            },
            ReadStep::Kill => ReadStep::Reap,
            ReadStep::Reap => ReadStep::Done { bytes: None },
            ReadStep::Done { bytes } => ReadStep::Done { bytes },
        }
    }
}

/// The text in what a helper printed, if it is valid UTF-8.
pub open spec fn printed_text(bytes: Option<Vec<u8>>) -> Option<Seq<char>> {
    match bytes {
        Some(bytes) => if vstd::utf8::valid_utf8(bytes@) {
            Some(vstd::utf8::decode_utf8(bytes@))
        } else {
            None
        },
        None => None,
    }
}

/// The text that a helper prints. `read` runs the helper and gives what it printed, up to a limit.
pub fn read_clipboard_text_with_command<R>(command: &ClipboardCommand, read: R) -> (text: Option<
    String,
>) where R: FnOnce(&ClipboardCommand, usize) -> Option<Vec<u8>>
    requires
        call_requires(read, (command, MAX_CLIPBOARD_TEXT_BYTES)),
    ensures
        exists|bytes: Option<Vec<u8>>| #[trigger]
            call_ensures(read, (command, MAX_CLIPBOARD_TEXT_BYTES), bytes)
                && crate::process::optional_text(text) == printed_text(bytes) && (text is Some
                <==> bytes is Some && vstd::utf8::valid_utf8(bytes->0@)) && (text is Some
                ==> vstd::utf8::encode_utf8(text->0@) == bytes->0@),
{
    let printed: Option<Vec<u8>> = read(command, MAX_CLIPBOARD_TEXT_BYTES);
    let ghost bytes = printed;
    assert(call_ensures(read, (command, MAX_CLIPBOARD_TEXT_BYTES), bytes));
    proof {
        nothing_printed_is_lost(bytes);
    }
    match printed {
        Some(bytes) => from_utf8(bytes),
        None => None,
    }
}

// ---------------------------------------------------------------------------
// Laws
// ---------------------------------------------------------------------------

/// Step `i + 1` follows step `i` on event `i`.
pub open spec fn read_moves(
    steps: Seq<ReadStepView>,
    events: Seq<ReadEventView>,
    i: int,
) -> bool {
    read_outcome(steps[i], events[i]) && steps[i + 1] == read_step(steps[i], events[i])
}

/// `steps` are the steps of an exchange, each but the first after the outcome of the one before.
pub open spec fn is_read(
    max_bytes: int,
    steps: Seq<ReadStepView>,
    events: Seq<ReadEventView>,
) -> bool {
    &&& steps.len() == events.len() + 1
    &&& steps[0] == (ReadStepView::Spawn { max_bytes })
    &&& forall|i: int| 0 <= i < events.len() ==> #[trigger] read_moves(steps, events, i)
}

/// The limit stays the one that the exchange started with.
proof fn lemma_limit_is_kept(
    max_bytes: int,
    steps: Seq<ReadStepView>,
    events: Seq<ReadEventView>,
    i: int,
)
    requires
        is_read(max_bytes, steps, events),
        0 <= i < steps.len(),
    ensures
        match steps[i] {
            ReadStepView::Spawn { max_bytes: m } | ReadStepView::TakeOutput {
                max_bytes: m,
            } | ReadStepView::ReadOutput { max_bytes: m } => m == max_bytes,
            _ => true,
        },
    decreases i,
{
    if i > 0 {
        lemma_limit_is_kept(max_bytes, steps, events, i - 1);
        assert(read_moves(steps, events, i - 1));
    }
}

/// What is given of a helper is all that it printed, is not empty and keeps the limit, and the
/// helper ended well.
pub proof fn given_output_is_whole_and_limited(
    max_bytes: int,
    steps: Seq<ReadStepView>,
    events: Seq<ReadEventView>,
    i: int,
)
    requires
        is_read(max_bytes, steps, events),
        0 <= i < steps.len(),
        steps[i] matches ReadStepView::Done { bytes } && bytes is Some,
    ensures
        i >= 2,
        events[i - 1] == (ReadEventView::Exited { success: true }),
        steps[i]->bytes matches Some(bytes) && events[i - 2] == ReadEventView::Output(bytes) && 0
            < bytes.len() <= max_bytes,
{
    assert(read_moves(steps, events, i - 1));
    assert(steps[i - 1] is Wait);
    assert(read_moves(steps, events, i - 2));
    lemma_limit_is_kept(max_bytes, steps, events, i - 2);
}

/// Nothing comes back to the start.
proof fn lemma_starts_once(
    max_bytes: int,
    steps: Seq<ReadStepView>,
    events: Seq<ReadEventView>,
    i: int,
)
    requires
        is_read(max_bytes, steps, events),
        0 < i < steps.len(),
    ensures
        steps[i] !is Spawn,
        steps[i] is TakeOutput ==> i == 1 && events[0] is Succeeded,
        steps[i] is ReadOutput ==> i == 2 && events[0] is Succeeded && events[1] is Succeeded,
        steps[i] is Wait ==> i == 3,
        steps[i] is Kill ==> i == 3,
        steps[i] is Reap ==> i == 4,
        steps[i] is Done ==> i <= 5,
    decreases i,
{
    assert(read_moves(steps, events, i - 1));
    if i > 1 {
        lemma_starts_once(max_bytes, steps, events, i - 1);
    }
}

/// Every exchange comes to its end, after five outcomes at most, and what it gives is what was
/// printed between a start, a pipe and an end that all went well. Any other outcome of a step gives
/// nothing.
pub proof fn every_exchange_ends(
    max_bytes: int,
    steps: Seq<ReadStepView>,
    events: Seq<ReadEventView>,
)
    requires
        is_read(max_bytes, steps, events),
    ensures
        events.len() <= 5,
        steps.last() matches ReadStepView::Done { bytes: Some(bytes) } ==> events == seq![
            ReadEventView::Succeeded,
            ReadEventView::Succeeded,
            ReadEventView::Output(bytes),
            ReadEventView::Exited { success: true },
        ],
{
    let last = steps.len() - 1;
    if events.len() > 5 {
        lemma_starts_once(max_bytes, steps, events, last);
        lemma_starts_once(max_bytes, steps, events, last - 1);
        assert(read_moves(steps, events, last - 1));
    }
    if steps.last() is Done && steps.last()->bytes is Some {
        let bytes = steps.last()->bytes->0;
        given_output_is_whole_and_limited(max_bytes, steps, events, last);
        assert(read_moves(steps, events, last - 1));
        assert(read_moves(steps, events, last - 2));
        lemma_starts_once(max_bytes, steps, events, last - 2);
        assert(events =~= seq![
            ReadEventView::Succeeded,
            ReadEventView::Succeeded,
            ReadEventView::Output(bytes),
            ReadEventView::Exited { success: true },
        ]);
    }
}

/// What a helper prints within the limit is given, whatever it is, if the helper ends well. Nothing
/// printed gives nothing, and neither does a helper that does not end well.
pub proof fn printed_output_is_given(max_bytes: int, printed: Seq<u8>, success: bool)
    requires
        printed.len() <= max_bytes,
    ensures
        ({
            let spawn = ReadStepView::Spawn { max_bytes };
            let take = read_step(spawn, ReadEventView::Succeeded);
            let read = read_step(take, ReadEventView::Succeeded);
            let wait = read_step(read, ReadEventView::Output(printed));
            let done = read_step(wait, ReadEventView::Exited { success });
            &&& read_outcome(spawn, ReadEventView::Succeeded)
            &&& read_outcome(take, ReadEventView::Succeeded)
            &&& read_outcome(read, ReadEventView::Output(printed))
            &&& read_outcome(wait, ReadEventView::Exited { success })
            &&& printed.len() > 0 && success ==> done == (ReadStepView::Done {
                bytes: Some(printed),
            })
            &&& printed.len() == 0 || !success ==> done == (ReadStepView::Done { bytes: None })
        }),
{
}

/// A text is given whenever what was printed is valid UTF-8, and only then, and nothing of what was
/// printed is lost or added: the text, encoded again, is the printed bytes.
pub proof fn nothing_printed_is_lost(bytes: Option<Vec<u8>>)
    ensures
        printed_text(bytes) is Some <==> bytes is Some && vstd::utf8::valid_utf8(bytes->0@),
        printed_text(bytes) matches Some(text) ==> vstd::utf8::encode_utf8(text) == bytes->0@,
{
    if bytes is Some && vstd::utf8::valid_utf8(bytes->0@) {
        vstd::utf8::decode_utf8_encode_utf8(bytes->0@);
    }
}

/// Every text that a helper prints is read back.
pub proof fn printed_texts_are_read_back(text: Seq<char>, bytes: Vec<u8>)
    requires
        bytes@ == vstd::utf8::encode_utf8(text),
    ensures
        printed_text(Some(bytes)) == Some(text),
{
    vstd::utf8::encode_utf8_valid_utf8(text);
    vstd::utf8::encode_utf8_decode_utf8(text);
}

/// No exchange ends with a helper that nobody waited for, unless it could not be started or its
/// pipe could not be had.
pub proof fn no_reading_helper_is_left_behind(
    max_bytes: int,
    steps: Seq<ReadStepView>,
    events: Seq<ReadEventView>,
    i: int,
)
    requires
        is_read(max_bytes, steps, events),
        0 <= i < steps.len(),
        steps[i] is Done,
    ensures
        i > 0,
        steps[i - 1] is Wait || steps[i - 1] is Reap || ((steps[i - 1] is Spawn
            || steps[i - 1] is TakeOutput) && events[i - 1] is Failed),
{
    assert(read_moves(steps, events, i - 1));
}

/// A helper that prints more than the limit, or whose output cannot be read, is killed and waited
/// for, and gives nothing.
pub proof fn oversized_output_is_refused(
    max_bytes: int,
    steps: Seq<ReadStepView>,
    events: Seq<ReadEventView>,
    i: int,
)
    requires
        is_read(max_bytes, steps, events),
        0 <= i < events.len() - 2,
        steps[i] is ReadOutput,
        events[i] is Failed || (events[i] matches ReadEventView::Output(bytes) && bytes.len()
            > max_bytes && bytes.len() > 0),
    ensures
        steps[i + 1] is Kill,
        steps[i + 2] is Reap,
        steps[i + 3] == (ReadStepView::Done { bytes: None }),
{
    lemma_limit_is_kept(max_bytes, steps, events, i);
    assert(read_moves(steps, events, i));
    assert(read_moves(steps, events, i + 1));
    assert(read_moves(steps, events, i + 2));
}

/// A helper whose output cannot be read is killed, and a killed helper is waited for, and only a
/// killed one. Any other failure gives nothing at once.
pub proof fn failures_end_the_exchange(step: ReadStepView, event: ReadEventView)
    requires
        read_outcome(step, event),
    ensures
        event is Failed && step is ReadOutput ==> read_step(step, event) is Kill,
        event is Failed && (step is Spawn || step is TakeOutput || step is Wait || step is Reap)
            ==> read_step(step, event) == (ReadStepView::Done { bytes: None }),
        read_step(step, event) is Reap <==> step is Kill,
        step is Reap ==> read_step(step, event) == (ReadStepView::Done { bytes: None }),
{
}

/// A text of a mebibyte is taken, and not a byte more.
pub proof fn a_mebibyte_is_taken(printed: Seq<u8>)
    ensures
        0 < printed.len() <= 1024 * 1024 ==> limited(printed, MAX_CLIPBOARD_TEXT_BYTES as int)
            == LimitedReadView::Complete(printed),
        printed.len() > 1024 * 1024 ==> limited(
            printed,
            MAX_CLIPBOARD_TEXT_BYTES as int,
        ) is Oversized,
        limited(Seq::empty(), MAX_CLIPBOARD_TEXT_BYTES as int) is Empty,
{
}

/// Every outcome that the world can give is taken: whatever is done may fail, a read gives any bytes,
/// and a wait tells how the helper ended.
pub proof fn every_outcome_is_taken(step: ReadStepView, bytes: Seq<u8>, success: bool)
    ensures
        !(step is Done) ==> read_outcome(step, ReadEventView::Failed),
        !(step is Done || step is ReadOutput || step is Wait) ==> read_outcome(
            step,
            ReadEventView::Succeeded,
        ),
        step is ReadOutput ==> read_outcome(step, ReadEventView::Output(bytes)),
        step is Wait ==> read_outcome(step, ReadEventView::Exited { success }),
{
}

} // verus!
