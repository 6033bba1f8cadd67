//! What is known of processes, on every platform.
use vstd::prelude::*;

verus! {

/// One process of a foreground job.
#[derive(Debug, Clone, PartialEq, Eq)]
pub struct ForegroundProcess {
    pub pid: u32,
    pub name: String,
    pub argv0: Option<String>,
    pub cmdline: Option<String>,
    pub argv: Option<Vec<String>>,
}

/// The processes of one process group.
#[derive(Debug, Clone, PartialEq, Eq)]
pub struct ForegroundJob {
    pub process_group_id: u32,
    pub processes: Vec<ForegroundProcess>,
}

/// The signals that sessions are ended with.
#[derive(Debug, Clone, Copy, PartialEq, Eq)]
pub enum Signal {
    Hangup,
    Terminate,
    Kill,
}

/// A process as plain text.
pub struct ProcessView {
    pub pid: u32,
    pub name: Seq<char>,
    pub argv0: Option<Seq<char>>,
    pub cmdline: Option<Seq<char>>,
    pub argv: Option<Seq<Seq<char>>>,
}

/// A job as plain text.
pub struct JobView {
    pub process_group_id: u32,
    pub processes: Seq<ProcessView>,
}

/// The text of an optional string.
pub open spec fn optional_text(text: Option<String>) -> Option<Seq<char>> {
    match text {
        Some(text) => Some(text@),
        None => None,
    }
}

/// The texts of an optional list of strings.
pub open spec fn optional_texts(list: Option<Vec<String>>) -> Option<Seq<Seq<char>>> {
    match list {
        Some(list) => Some(crate::text::texts(list@)),
        None => None,
    }
}

impl View for ForegroundProcess {
    type V = ProcessView;

    open spec fn view(&self) -> ProcessView {
        ProcessView {
            pid: self.pid,
            name: self.name@,
            argv0: optional_text(self.argv0),
            cmdline: optional_text(self.cmdline),
            argv: optional_texts(self.argv),
        }
    }
}

impl View for ForegroundJob {
    type V = JobView;

    open spec fn view(&self) -> JobView {
        JobView {
            process_group_id: self.process_group_id,
            processes: Seq::new(self.processes@.len(), |i: int| self.processes@[i]@),
        }
    }
}

/// The text of an optional job.
pub open spec fn optional_job(job: Option<ForegroundJob>) -> Option<JobView> {
    match job {
        Some(job) => Some(job@),
        None => None,
    }
}

/// The values that are there, in order.
pub open spec fn present<A>(answers: Seq<Option<A>>) -> Seq<A>
    decreases answers.len(),
{
    if answers.len() == 0 {
        Seq::empty()
    } else {
        match answers.last() {
            Some(value) => present(answers.drop_last()).push(value),
            None => present(answers.drop_last()),
        }
    }
}

/// The command line of an argument vector: the arguments with single spaces between them.
pub open spec fn argv_cmdline(argv: Option<Seq<Seq<char>>>) -> Option<Seq<char>> {
    match argv {
        Some(argv) => Some(crate::text::spaced(argv)),
        None => None,
    }
}

/// The command line of an argument vector.
pub fn cmdline_of(argv: &Option<Vec<String>>) -> (cmdline: Option<String>)
    ensures
        optional_text(cmdline) == argv_cmdline(optional_texts(*argv)),
{
    match argv {
        Some(argv) => Some(crate::text::join_spaced(argv.as_slice())),
        None => None,
    }
}

/// What is there of two lists is what is there of each, in order; a value that is there stays, and
/// one that is not leaves nothing.
pub proof fn present_values_are_kept<A>(one: Seq<Option<A>>, other: Seq<Option<A>>, value: A)
    ensures
        present(one + other) == present(one) + present(other),
        present(seq![Some(value)]) == seq![value],
        present(seq![None::<A>]).len() == 0,
        present(Seq::<Option<A>>::empty()).len() == 0,
    decreases other.len(),
{
    reveal_with_fuel(present, 2);
    assert(seq![Some(value)].drop_last() =~= Seq::empty());
    assert(seq![None::<A>].drop_last() =~= Seq::empty());
    assert(present(seq![Some(value)]) =~= seq![value]);
    if other.len() == 0 {
        assert(one + other =~= one);
        assert(present(one) + present(other) =~= present(one));
    } else {
        present_values_are_kept(one, other.drop_last(), value);
        assert((one + other).drop_last() =~= one + other.drop_last());
        assert((one + other).last() == other.last());
        assert(present(one + other) =~= present(one) + present(other));
    }
}

/// A command line is the arguments joined by single spaces, and is there exactly where they are.
pub proof fn command_lines_join_the_arguments(
    first: Seq<char>,
    rest: Seq<Seq<char>>,
)
    ensures
        argv_cmdline(Some(seq![first])) == Some(first),
        rest.len() > 0 ==> argv_cmdline(Some(seq![first] + rest)) == Some(
            first + seq![' '] + argv_cmdline(Some(rest))->0,
        ) && argv_cmdline(Some(rest)) is Some,
        argv_cmdline(None) is None,
{
    crate::text::parts_are_joined_by_single_spaces(seq![first], rest);
}

/// The plain values of a job are those of its processes, none left out, each with all that is known
/// of it.
pub proof fn views_leave_nothing_out(job: ForegroundJob, text: String, list: Vec<String>)
    ensures
        optional_text(Some(text)) == Some(text@),
        optional_text(None) is None,
        optional_texts(Some(list)) == Some(crate::text::texts(list@)),
        optional_texts(None) is None,
        optional_job(Some(job)) is Some,
        optional_job(None) is None,
        ({
            let view = optional_job(Some(job))->0;
            &&& view.process_group_id == job.process_group_id
            &&& view.processes.len() == job.processes@.len()
            &&& forall|i: int|
                #![trigger view.processes[i]]
                0 <= i < view.processes.len() ==> {
                    let process = job.processes@[i];
                    &&& view.processes[i].pid == process.pid
                    &&& view.processes[i].name == process.name@
                    &&& view.processes[i].argv0 == optional_text(process.argv0)
                    &&& view.processes[i].cmdline == optional_text(process.cmdline)
                    &&& view.processes[i].argv == optional_texts(process.argv)
                }
        }),
{
}

} // verus!
