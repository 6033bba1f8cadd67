//! Processes and foreground jobs, from the kernel's tables.
use crate::freebsd::errors::Errno;
use crate::freebsd::records::{process_name, split_nul_strings, KinfoProc};
use crate::freebsd::sysctl::{sysctl_bytes, KernelTable};
use crate::process::{cmdline_of, ForegroundJob, ForegroundProcess};
use vstd::prelude::*;
use vstd::slice::slice_subrange;

verus! {

/// Access to the kernel's tables.
pub struct Kernel<P, S, F, D, W> {
    /// The size of a process record.
    pub record_size: usize,
    /// The size of a file record.
    pub file_record_size: usize,
    /// Reads the record of one process, and says how many bytes of it were filled.
    pub probe: P,
    /// Asks for the size of a table.
    pub size: S,
    /// Reads a table into a buffer of a size, and says how many bytes of it were filled.
    pub fetch: F,
    /// What the bytes of a process record say.
    pub decode: D,
    /// The path bytes in a table that holds a file record.
    pub file_path: W,
}

impl<P, S, F, D, W> Kernel<P, S, F, D, W> where
    P: Fn(i32) -> Option<(usize, KinfoProc)>,
    S: Fn(KernelTable, i32) -> Option<usize>,
    F: Fn(KernelTable, i32, usize) -> Result<(Vec<u8>, usize), Errno>,
    D: Fn(&[u8]) -> KinfoProc,
    W: Fn(&[u8]) -> Vec<u8>,
 {
    /// The tables can be asked for every process, and records can be read from enough bytes.
    pub open spec fn ready(&self) -> bool {
        &&& self.record_size > 0
        &&& forall|pid: i32| #[trigger] call_requires(self.probe, (pid,))
        &&& forall|table: KernelTable, id: i32| #[trigger] call_requires(self.size, (table, id))
        &&& forall|table: KernelTable, id: i32, length: usize| #[trigger]
            call_requires(self.fetch, (table, id, length))
        &&& forall|record: &[u8]|
            record@.len() == self.record_size ==> #[trigger] call_requires(self.decode, (record,))
        &&& forall|bytes: &[u8]|
            bytes@.len() >= self.file_record_size ==> #[trigger] call_requires(
                self.file_path,
                (bytes,),
            )
    }
}

// ---------------------------------------------------------------------------
// Process ids
// ---------------------------------------------------------------------------

/// The kernel's id of a process: only positive ids name one.
pub open spec fn kernel_id(pid: u32) -> Option<i32> {
    if 0 < pid <= i32::MAX {
        Some(pid as i32)
    } else {
        None
    }
}

/// The kernel's id of a process.
pub fn positive_pid(pid: u32) -> (id: Option<i32>)
    ensures
        id == kernel_id(pid),
{
    if 0 < pid && pid <= 0x7fff_ffff {
        Some(pid as i32)
    } else {
        None
    }
}

// ---------------------------------------------------------------------------
// What the tables say
// ---------------------------------------------------------------------------

/// The answer to a probe for `id`, if it is a whole record of the expected layout and of that
/// process.
pub open spec fn probed_info(
    answer: Option<(usize, KinfoProc)>,
    record_size: usize,
    id: i32,
) -> Option<KinfoProc> {
    match answer {
        Some((length, info)) => if length == record_size && info.structsize == record_size
            && info.pid == id {
            Some(info)
        } else {
            None
        },
        None => None,
    }
}

/// `info` is what a probe told of the process `pid`; an id that names no process is not probed.
pub open spec fn reads_info<P>(
    probe: P,
    record_size: usize,
    pid: u32,
    info: Option<KinfoProc>,
) -> bool where P: Fn(i32) -> Option<(usize, KinfoProc)> {
    match kernel_id(pid) {
        Some(id) => exists|answer: Option<(usize, KinfoProc)>| #[trigger]
            call_ensures(probe, (id,), answer) && info == probed_info(answer, record_size, id),
        None => info is None,
    }
}

/// `info` is what the bytes of a record say.
pub open spec fn decodes<D>(decode: D, bytes: Seq<u8>, info: KinfoProc) -> bool where
    D: Fn(&[u8]) -> KinfoProc,
 {
    exists|record: &[u8]| record@ == bytes && #[trigger] call_ensures(decode, (record,), info)
}

/// `infos` are what the records say.
pub open spec fn decodes_all<D>(decode: D, records: Seq<Seq<u8>>, infos: Seq<KinfoProc>) -> bool where
    D: Fn(&[u8]) -> KinfoProc,
 {
    &&& infos.len() == records.len()
    &&& forall|i: int| 0 <= i < infos.len() ==> decodes(decode, records[i], #[trigger] infos[i])
}

/// The records of the expected layout that are of a process, in order.
pub open spec fn valid_infos(infos: Seq<KinfoProc>, record_size: usize) -> Seq<KinfoProc>
    decreases infos.len(),
{
    if infos.len() == 0 {
        Seq::empty()
    } else {
        let before = valid_infos(infos.drop_last(), record_size);
        if infos.last().structsize == record_size && infos.last().pid > 0 {
            before.push(infos.last())
        } else {
            before
        }
    }
}

/// `infos` are what the valid records among the bytes of a table say.
pub open spec fn reads_records<D>(
    decode: D,
    record_size: usize,
    bytes: Seq<u8>,
    infos: Seq<KinfoProc>,
) -> bool where D: Fn(&[u8]) -> KinfoProc {
    exists|all: Seq<KinfoProc>| #[trigger]
        decodes_all(
            decode,
            crate::freebsd::records::whole_records(bytes, record_size as int),
            all,
        ) && infos == valid_infos(all, record_size)
}

/// `infos` are the valid records of a table; an id that names nothing is not asked for.
pub open spec fn reads_infos<P, S, F, D, W>(
    kernel: Kernel<P, S, F, D, W>,
    table: KernelTable,
    id: u32,
    infos: Seq<KinfoProc>,
) -> bool where
    P: Fn(i32) -> Option<(usize, KinfoProc)>,
    S: Fn(KernelTable, i32) -> Option<usize>,
    F: Fn(KernelTable, i32, usize) -> Result<(Vec<u8>, usize), Errno>,
    D: Fn(&[u8]) -> KinfoProc,
    W: Fn(&[u8]) -> Vec<u8>,
 {
    match kernel_id(id) {
        Some(id) => exists|bytes: Option<Seq<u8>>| #[trigger]
            crate::freebsd::sysctl::reads_table(kernel.size, kernel.fetch, table, id, bytes)
                && match bytes {
                Some(bytes) => reads_records(kernel.decode, kernel.record_size, bytes, infos),
                None => infos.len() == 0,
            },
        None => infos.len() == 0,
    }
}

/// `argv` are the arguments in the table of the process `pid`.
pub open spec fn reads_arguments<S, F>(
    size: S,
    fetch: F,
    pid: u32,
    argv: Option<Seq<Seq<char>>>,
) -> bool where
    S: Fn(KernelTable, i32) -> Option<usize>,
    F: Fn(KernelTable, i32, usize) -> Result<(Vec<u8>, usize), Errno>,
 {
    match kernel_id(pid) {
        Some(id) => exists|bytes: Option<Seq<u8>>| #[trigger]
            crate::freebsd::sysctl::reads_table(size, fetch, KernelTable::Arguments, id, bytes)
                && argv == match bytes {
                Some(bytes) => Some(crate::freebsd::records::nul_strings(bytes)),
                None => None,
            },
        None => argv is None,
    }
}

/// The first of the arguments.
pub open spec fn first_argument(argv: Option<Seq<Seq<char>>>) -> Option<Seq<char>> {
    match argv {
        Some(argv) => if argv.len() > 0 {
            Some(argv[0])
        } else {
            None
        },
        None => None,
    }
}

/// A process of a job, as its record and its arguments describe it.
pub open spec fn described_process(
    pid: u32,
    name: Seq<char>,
    argv: Option<Seq<Seq<char>>>,
) -> crate::process::ProcessView {
    crate::process::ProcessView {
        pid,
        name,
        argv0: first_argument(argv),
        cmdline: crate::process::argv_cmdline(argv),
        argv,
    }
}

/// `process` is what `info` and the arguments say; a record without a name gives none.
pub open spec fn reads_process<S, F>(
    size: S,
    fetch: F,
    info: KinfoProc,
    process: Option<crate::process::ProcessView>,
) -> bool where
    S: Fn(KernelTable, i32) -> Option<usize>,
    F: Fn(KernelTable, i32, usize) -> Result<(Vec<u8>, usize), Errno>,
 {
    match crate::freebsd::records::command_name(info.comm@) {
        Some(name) => exists|argv: Option<Seq<Seq<char>>>| #[trigger]
            reads_arguments(size, fetch, info.pid as u32, argv) && process == Some(
                described_process(info.pid as u32, name, argv),
            ),
        None => process is None,
    }
}

/// `processes` are what the records and arguments say.
pub open spec fn reads_processes<S, F>(
    size: S,
    fetch: F,
    infos: Seq<KinfoProc>,
    processes: Seq<Option<crate::process::ProcessView>>,
) -> bool where
    S: Fn(KernelTable, i32) -> Option<usize>,
    F: Fn(KernelTable, i32, usize) -> Result<(Vec<u8>, usize), Errno>,
 {
    &&& processes.len() == infos.len()
    &&& forall|i: int|
        0 <= i < infos.len() ==> reads_process(size, fetch, infos[i], #[trigger] processes[i])
}

/// The job of some processes, if there are any.
pub open spec fn processes_job(
    process_group_id: u32,
    processes: Seq<crate::process::ProcessView>,
) -> Option<crate::process::JobView> {
    if processes.len() == 0 {
        None
    } else {
        Some(crate::process::JobView { process_group_id, processes })
    }
}

/// `job` is the job of the named processes of a group.
pub open spec fn reads_group_job<P, S, F, D, W>(
    kernel: Kernel<P, S, F, D, W>,
    process_group_id: u32,
    job: Option<crate::process::JobView>,
) -> bool where
    P: Fn(i32) -> Option<(usize, KinfoProc)>,
    S: Fn(KernelTable, i32) -> Option<usize>,
    F: Fn(KernelTable, i32, usize) -> Result<(Vec<u8>, usize), Errno>,
    D: Fn(&[u8]) -> KinfoProc,
    W: Fn(&[u8]) -> Vec<u8>,
 {
    exists|infos: Seq<KinfoProc>, processes: Seq<Option<crate::process::ProcessView>>|
        {
            &&& #[trigger] reads_infos(kernel, KernelTable::ProcessGroup, process_group_id, infos)
            &&& #[trigger] reads_processes(kernel.size, kernel.fetch, infos, processes)
            &&& job == processes_job(process_group_id, crate::process::present(processes))
        }
}

/// The foreground group in a process record, if it is positive.
pub open spec fn info_foreground_group(info: Option<KinfoProc>) -> Option<u32> {
    match info {
        Some(info) => crate::sys::positive_group(info.tpgid),
        None => None,
    }
}

/// `job` is the foreground job of the terminal that `child_pid` runs in.
pub open spec fn reads_foreground_job<P, S, F, D, W>(
    kernel: Kernel<P, S, F, D, W>,
    child_pid: u32,
    job: Option<crate::process::JobView>,
) -> bool where
    P: Fn(i32) -> Option<(usize, KinfoProc)>,
    S: Fn(KernelTable, i32) -> Option<usize>,
    F: Fn(KernelTable, i32, usize) -> Result<(Vec<u8>, usize), Errno>,
    D: Fn(&[u8]) -> KinfoProc,
    W: Fn(&[u8]) -> Vec<u8>,
 {
    exists|info: Option<KinfoProc>| #[trigger]
        reads_info(kernel.probe, kernel.record_size, child_pid, info)
            && match info_foreground_group(info) {
            Some(group) => reads_group_job(kernel, group, job),
            None => job is None,
        }
}

// ---------------------------------------------------------------------------
// Records
// ---------------------------------------------------------------------------

/// Whether a record has the expected layout.
fn has_layout(info: &KinfoProc, record_size: usize) -> (has: bool)
    ensures
        has == (info.structsize == record_size),
{
    info.structsize >= 0 && info.structsize as usize == record_size
}

/// The record of the process `pid`.
pub fn process_info<P>(pid: u32, record_size: usize, probe: &P) -> (info: Option<KinfoProc>) where
    P: Fn(i32) -> Option<(usize, KinfoProc)>,

    requires
        forall|id: i32| #[trigger] call_requires(*probe, (id,)),
    ensures
        reads_info(*probe, record_size, pid, info),
{
    let id: i32 = match positive_pid(pid) {
        Some(id) => id,
        None => {
            return None;
        },
    };
    let answered: Option<(usize, KinfoProc)> = probe(id);
    let ghost answer = answered;
    assert(call_ensures(*probe, (id,), answer));
    match answered {
        Some((length, info)) => if length == record_size && has_layout(&info, record_size)
            && info.pid == id {
            Some(info)
        } else {
            None
        },
        None => None,
    }
}

/// The processes in a table of process records.
pub fn kinfo_processes<P, S, F, D, W>(
    table: KernelTable,
    id: u32,
    kernel: &Kernel<P, S, F, D, W>,
) -> (infos: Vec<KinfoProc>) where
    P: Fn(i32) -> Option<(usize, KinfoProc)>,
    S: Fn(KernelTable, i32) -> Option<usize>,
    F: Fn(KernelTable, i32, usize) -> Result<(Vec<u8>, usize), Errno>,
    D: Fn(&[u8]) -> KinfoProc,
    W: Fn(&[u8]) -> Vec<u8>,

    requires
        kernel.ready(),
    ensures
        reads_infos(*kernel, table, id, infos@),
        forall|i: int| 0 <= i < infos@.len() ==> (#[trigger] infos@[i]).pid > 0,
{
    let id: i32 = match positive_pid(id) {
        Some(id) => id,
        None => {
            return Vec::new();
        },
    };
    let read: Option<Vec<u8>> = sysctl_bytes(table, id, &kernel.size, &kernel.fetch);
    assert(crate::freebsd::sysctl::reads_table(
        kernel.size,
        kernel.fetch,
        table,
        id,
        crate::freebsd::sysctl::optional_bytes(read),
    ));
    let bytes: Vec<u8> = match read {
        Some(bytes) => bytes,
        None => {
            return Vec::new();
        },
    };
    let record_size: usize = kernel.record_size;
    let ghost records = crate::freebsd::records::whole_records(bytes@, record_size as int);
    let ghost mut all: Seq<KinfoProc> = Seq::empty();
    let ghost mut done: Seq<Seq<u8>> = Seq::empty();
    let mut infos: Vec<KinfoProc> = Vec::new();
    let mut at: usize = 0;
    proof {
        assert(bytes@.skip(0) =~= bytes@);
        assert(done + records =~= records);
    }
    while bytes.len() - at >= record_size
        invariant
            kernel.ready(),
            record_size == kernel.record_size,
            at <= bytes@.len(),
            records == done + crate::freebsd::records::whole_records(
                bytes@.skip(at as int),
                record_size as int,
            ),
            decodes_all(kernel.decode, done, all),
            infos@ == valid_infos(all, record_size),
            forall|i: int| 0 <= i < infos@.len() ==> (#[trigger] infos@[i]).pid > 0,
        decreases bytes@.len() - at,
    {
        let record: &[u8] = slice_subrange(bytes.as_slice(), at, at + record_size);
        let ghost rest = bytes@.skip(at as int);
        let info: KinfoProc = (kernel.decode)(record);
        proof {
            assert(record@ =~= rest.take(record_size as int));
            assert(decodes(kernel.decode, rest.take(record_size as int), info));
            assert(rest.skip(record_size as int) =~= bytes@.skip(at + record_size));
            let more = done.push(rest.take(record_size as int));
            assert(records =~= more + crate::freebsd::records::whole_records(
                bytes@.skip(at + record_size),
                record_size as int,
            ));
            assert(all.push(info).drop_last() =~= all);
            assert forall|i: int| 0 <= i < more.len() implies decodes(
                kernel.decode,
                more[i],
                #[trigger] all.push(info)[i],
            ) by {
                if i < done.len() {
                    assert(decodes(kernel.decode, done[i], all[i]));
                }
            }
            done = more;
            all = all.push(info);
        }
        if has_layout(&info, record_size) && info.pid > 0 {
            infos.push(info);
        }
        at = at + record_size;
    }
    proof {
        assert(done + Seq::<Seq<u8>>::empty() =~= done);
        assert(decodes_all(
            kernel.decode,
            crate::freebsd::records::whole_records(bytes@, kernel.record_size as int),
            all,
        ));
        assert(reads_records(kernel.decode, kernel.record_size, bytes@, infos@));
        assert(crate::freebsd::sysctl::reads_table(
            kernel.size,
            kernel.fetch,
            table,
            id,
            Some(bytes@),
        ));
    }
    infos
}

/// The strings in a table of a process.
pub fn process_nul_strings<S, F>(
    pid: u32,
    table: KernelTable,
    size: &S,
    fetch: &F,
) -> (values: Option<Vec<String>>) where
    S: Fn(KernelTable, i32) -> Option<usize>,
    F: Fn(KernelTable, i32, usize) -> Result<(Vec<u8>, usize), Errno>,

    requires
        forall|table: KernelTable, id: i32| #[trigger] call_requires(*size, (table, id)),
        forall|table: KernelTable, id: i32, length: usize| #[trigger]
            call_requires(*fetch, (table, id, length)),
    ensures
        match kernel_id(pid) {
            Some(id) => exists|bytes: Option<Seq<u8>>| #[trigger]
                crate::freebsd::sysctl::reads_table(*size, *fetch, table, id, bytes)
                    && crate::process::optional_texts(values) == match bytes {
                    Some(bytes) => Some(crate::freebsd::records::nul_strings(bytes)),
                    None => None,
                },
            None => values is None,
        },
        values is Some ==> values->0@.len() > 0,
{
    let id: i32 = match positive_pid(pid) {
        Some(id) => id,
        None => {
            return None;
        },
    };
    let read: Option<Vec<u8>> = sysctl_bytes(table, id, size, fetch);
    let ghost bytes = crate::freebsd::sysctl::optional_bytes(read);
    assert(crate::freebsd::sysctl::reads_table(*size, *fetch, table, id, bytes));
    match read {
        Some(bytes) => Some(split_nul_strings(bytes.as_slice())),
        None => None,
    }
}

/// The arguments of the process `pid`.
pub fn process_argv<S, F>(pid: u32, size: &S, fetch: &F) -> (argv: Option<Vec<String>>) where
    S: Fn(KernelTable, i32) -> Option<usize>,
    F: Fn(KernelTable, i32, usize) -> Result<(Vec<u8>, usize), Errno>,

    requires
        forall|table: KernelTable, id: i32| #[trigger] call_requires(*size, (table, id)),
        forall|table: KernelTable, id: i32, length: usize| #[trigger]
            call_requires(*fetch, (table, id, length)),
    ensures
        reads_arguments(*size, *fetch, pid, crate::process::optional_texts(argv)),
        argv is Some ==> argv->0@.len() > 0,
{
    process_nul_strings(pid, KernelTable::Arguments, size, fetch)
}

// ---------------------------------------------------------------------------
// Jobs
// ---------------------------------------------------------------------------

/// The first of the arguments.
fn argv0_of(argv: &Option<Vec<String>>) -> (argv0: Option<String>)
    ensures
        crate::process::optional_text(argv0) == first_argument(
            crate::process::optional_texts(*argv),
        ),
{
    match argv {
        Some(argv) => if argv.len() > 0 {
            Some(argv[0].clone())
        } else {
            None
        },
        None => None,
    }
}

/// A process with its arguments.
fn describe<S, F>(pid: u32, name: String, size: &S, fetch: &F) -> (process: ForegroundProcess) where
    S: Fn(KernelTable, i32) -> Option<usize>,
    F: Fn(KernelTable, i32, usize) -> Result<(Vec<u8>, usize), Errno>,

    requires
        forall|table: KernelTable, id: i32| #[trigger] call_requires(*size, (table, id)),
        forall|table: KernelTable, id: i32, length: usize| #[trigger]
            call_requires(*fetch, (table, id, length)),
    ensures
        exists|argv: Option<Seq<Seq<char>>>| #[trigger]
            reads_arguments(*size, *fetch, pid, argv) && process@ == described_process(
                pid,
                name@,
                argv,
            ),
{
    let argv: Option<Vec<String>> = process_argv(pid, size, fetch);
    let ghost argv_view = crate::process::optional_texts(argv);
    assert(reads_arguments(*size, *fetch, pid, argv_view));
    let argv0: Option<String> = argv0_of(&argv);
    let cmdline: Option<String> = cmdline_of(&argv);
    ForegroundProcess { pid, name, argv0, cmdline, argv }
}

/// The job of a process group.
pub fn foreground_job_for_group<P, S, F, D, W>(
    process_group_id: u32,
    kernel: &Kernel<P, S, F, D, W>,
) -> (job: Option<ForegroundJob>) where
    P: Fn(i32) -> Option<(usize, KinfoProc)>,
    S: Fn(KernelTable, i32) -> Option<usize>,
    F: Fn(KernelTable, i32, usize) -> Result<(Vec<u8>, usize), Errno>,
    D: Fn(&[u8]) -> KinfoProc,
    W: Fn(&[u8]) -> Vec<u8>,

    requires
        kernel.ready(),
    ensures
        reads_group_job(*kernel, process_group_id, crate::process::optional_job(job)),
{
    let infos: Vec<KinfoProc> = kinfo_processes(
        KernelTable::ProcessGroup,
        process_group_id,
        kernel,
    );
    let ghost mut views: Seq<Option<crate::process::ProcessView>> = Seq::empty();
    let mut processes: Vec<ForegroundProcess> = Vec::new();
    let mut i: usize = 0;
    let ghost empty_views = Seq::new(processes@.len(), |k: int| processes@[k]@);
    assert(empty_views =~= crate::process::present(views));
    while i < infos.len()
        invariant
            kernel.ready(),
            i <= infos@.len(),
            forall|k: int| 0 <= k < infos@.len() ==> (#[trigger] infos@[k]).pid > 0,
            views.len() == i,
            forall|k: int|
                0 <= k < i ==> reads_process(
                    kernel.size,
                    kernel.fetch,
                    infos@[k],
                    #[trigger] views[k],
                ),
            Seq::new(processes@.len(), |k: int| processes@[k]@) == crate::process::present(views),
        decreases infos@.len() - i,
    {
        let info: &KinfoProc = &infos[i];
        let ghost old_processes = processes@;
        assert(infos@[i as int].pid > 0);
        let name: Option<String> = process_name(info);
        match name {
            Some(name) => {
                let process: ForegroundProcess = describe(
                    info.pid as u32,
                    name,
                    &kernel.size,
                    &kernel.fetch,
                );
                proof {
                    let view = Some(process@);
                    assert(reads_process(kernel.size, kernel.fetch, infos@[i as int], view));
                    assert(views.push(view).drop_last() =~= views);
                    views = views.push(view);
                }
                processes.push(process);
                assert(Seq::new(processes@.len(), |k: int| processes@[k]@) =~= Seq::new(
                    old_processes.len(),
                    |k: int| old_processes[k]@,
                ).push(process@));
            },
            None => {
                proof {
                    assert(reads_process(kernel.size, kernel.fetch, infos@[i as int], None));
                    assert(views.push(None).drop_last() =~= views);
                    views = views.push(None);
                }
            },
        }
        i = i + 1;
    }
    assert(reads_processes(kernel.size, kernel.fetch, infos@, views));
    assert(Seq::new(processes@.len(), |k: int| processes@[k]@).len() == processes@.len());
    if processes.len() == 0 {
        return None;
    }
    Some(ForegroundJob { process_group_id, processes })
}

/// The foreground process group of the terminal that `child_pid` runs in.
pub fn foreground_process_group_id<P>(
    child_pid: u32,
    record_size: usize,
    probe: &P,
) -> (group: Option<u32>) where P: Fn(i32) -> Option<(usize, KinfoProc)>
    requires
        forall|id: i32| #[trigger] call_requires(*probe, (id,)),
    ensures
        exists|info: Option<KinfoProc>| #[trigger]
            reads_info(*probe, record_size, child_pid, info) && group == info_foreground_group(
                info,
            ),
{
    let found: Option<KinfoProc> = process_info(child_pid, record_size, probe);
    let ghost info = found;
    assert(reads_info(*probe, record_size, child_pid, info));
    match found {
        Some(info) => if info.tpgid > 0 {
            Some(info.tpgid as u32)
        } else {
            None
        },
        None => None,
    }
}

/// The foreground job of the terminal that `child_pid` runs in.
pub fn foreground_job<P, S, F, D, W>(
    child_pid: u32,
    kernel: &Kernel<P, S, F, D, W>,
) -> (job: Option<ForegroundJob>) where
    P: Fn(i32) -> Option<(usize, KinfoProc)>,
    S: Fn(KernelTable, i32) -> Option<usize>,
    F: Fn(KernelTable, i32, usize) -> Result<(Vec<u8>, usize), Errno>,
    D: Fn(&[u8]) -> KinfoProc,
    W: Fn(&[u8]) -> Vec<u8>,

    requires
        kernel.ready(),
    ensures
        reads_foreground_job(*kernel, child_pid, crate::process::optional_job(job)),
{
    match foreground_process_group_id(child_pid, kernel.record_size, &kernel.probe) {
        Some(group) => foreground_job_for_group(group, kernel),
        None => None,
    }
}

/// The shell that is free to take a command in the pane of `child_pid`, as `from_job` tells it from
/// the foreground job.
pub fn available_pane_shell<J, P, S, F, D, W>(
    child_pid: u32,
    from_job: J,
    kernel: &Kernel<P, S, F, D, W>,
) -> (shell: Option<String>) where
    J: FnOnce(u32, ForegroundJob) -> Option<String>,
    P: Fn(i32) -> Option<(usize, KinfoProc)>,
    S: Fn(KernelTable, i32) -> Option<usize>,
    F: Fn(KernelTable, i32, usize) -> Result<(Vec<u8>, usize), Errno>,
    D: Fn(&[u8]) -> KinfoProc,
    W: Fn(&[u8]) -> Vec<u8>,

    requires
        forall|job: ForegroundJob| call_requires(from_job, (child_pid, job)),
        kernel.ready(),
    ensures
        exists|job: Option<ForegroundJob>|
            reads_foreground_job(
                *kernel,
                child_pid,
                #[trigger] crate::process::optional_job(job),
            ) && match job {
                Some(job) => call_ensures(from_job, (child_pid, job), shell),
                None => shell is None,
            },
{
    let found: Option<ForegroundJob> = foreground_job(child_pid, kernel);
    let ghost job = found;
    assert(reads_foreground_job(*kernel, child_pid, crate::process::optional_job(job)));
    match found {
        Some(job) => from_job(child_pid, job),
        None => None,
    }
}

/// The name of the process of a record that leads the group `process_group_id`.
pub open spec fn leader_name(
    process_group_id: u32,
    info: Option<KinfoProc>,
) -> Option<Seq<char>> {
    match info {
        Some(info) => if info.pgid > 0 && info.pgid == process_group_id {
            crate::freebsd::records::command_name(info.comm@)
        } else {
            None
        },
        None => None,
    }
}

/// The job that the leader of `process_group_id` alone makes up.
pub fn foreground_group_leader_job<P, S, F, D, W>(
    process_group_id: u32,
    kernel: &Kernel<P, S, F, D, W>,
) -> (job: Option<ForegroundJob>) where
    P: Fn(i32) -> Option<(usize, KinfoProc)>,
    S: Fn(KernelTable, i32) -> Option<usize>,
    F: Fn(KernelTable, i32, usize) -> Result<(Vec<u8>, usize), Errno>,
    D: Fn(&[u8]) -> KinfoProc,
    W: Fn(&[u8]) -> Vec<u8>,

    requires
        kernel.ready(),
    ensures
        exists|info: Option<KinfoProc>| #[trigger]
            reads_info(kernel.probe, kernel.record_size, process_group_id, info)
                && match leader_name(process_group_id, info) {
                Some(name) => exists|argv: Option<Seq<Seq<char>>>| #[trigger]
                    reads_arguments(kernel.size, kernel.fetch, process_group_id, argv)
                        && crate::process::optional_job(job) == processes_job(
                        process_group_id,
                        seq![described_process(process_group_id, name, argv)],
                    ),
                None => job is None,
            },
{
    let found: Option<KinfoProc> = process_info(
        process_group_id,
        kernel.record_size,
        &kernel.probe,
    );
    assert(reads_info(kernel.probe, kernel.record_size, process_group_id, found));
    let info: KinfoProc = match found {
        Some(info) => info,
        None => {
            return None;
        },
    };
    if info.pgid <= 0 || info.pgid as u32 != process_group_id {
        return None;
    }
    let name: String = match process_name(&info) {
        Some(name) => name,
        None => {
            return None;
        },
    };
    let process: ForegroundProcess = describe(
        process_group_id,
        name,
        &kernel.size,
        &kernel.fetch,
    );
    let ghost view = process@;
    let mut processes: Vec<ForegroundProcess> = Vec::new();
    processes.push(process);
    let job = ForegroundJob { process_group_id, processes };
    assert(job@.processes =~= seq![view]);
    Some(job)
}

// ---------------------------------------------------------------------------
// Laws
// ---------------------------------------------------------------------------

/// The kernel's id of a process is its number, and every number from 1 to the largest id has one.
pub proof fn ids_are_kept(pid: u32)
    ensures
        kernel_id(pid) is Some <==> 1 <= pid <= 0x7fff_ffff,
        kernel_id(pid) matches Some(id) ==> id as int == pid as int,
{
}

/// The answer to a probe is taken as it is, exactly where the record is whole, has the expected
/// layout and is of the process that was asked for.
pub proof fn probed_records_are_kept(
    length: usize,
    info: KinfoProc,
    record_size: usize,
    id: i32,
)
    ensures
        probed_info(Some((length, info)), record_size, id) is Some <==> length == record_size
            && info.structsize as int == record_size as int && info.pid == id,
        probed_info(Some((length, info)), record_size, id) matches Some(kept) ==> kept == info,
        probed_info(None, record_size, id) is None,
{
}

/// The valid records of two lists are the valid records of each, in order. A record is kept exactly
/// where it has the expected layout and a positive id.
pub proof fn valid_records_are_kept(
    one: Seq<KinfoProc>,
    other: Seq<KinfoProc>,
    info: KinfoProc,
    record_size: usize,
)
    ensures
        valid_infos(one + other, record_size) == valid_infos(one, record_size) + valid_infos(
            other,
            record_size,
        ),
        info.structsize as int == record_size as int && info.pid >= 1 ==> valid_infos(
            seq![info],
            record_size,
        ) == seq![info],
        info.structsize as int != record_size as int || info.pid <= 0 ==> valid_infos(
            seq![info],
            record_size,
        ).len() == 0,
    decreases other.len(),
{
    reveal_with_fuel(valid_infos, 2);
    assert(seq![info].drop_last() =~= Seq::empty());
    assert(seq![info].last() == info);
    if info.structsize as int == record_size as int && info.pid >= 1 {
        assert(valid_infos(seq![info], record_size) =~= seq![info]);
    }
    if other.len() == 0 {
        assert(one + other =~= one);
        assert(valid_infos(one, record_size) + valid_infos(other, record_size) =~= valid_infos(
            one,
            record_size,
        ));
    } else {
        valid_records_are_kept(one, other.drop_last(), info, record_size);
        assert((one + other).drop_last() =~= one + other.drop_last());
        assert((one + other).last() == other.last());
        assert(valid_infos(one + other, record_size) =~= valid_infos(one, record_size)
            + valid_infos(other, record_size));
    }
}

/// A process is described by its id, its name and its arguments, the first of which is told apart,
/// and its command line holds them all.
pub proof fn processes_are_described_whole(
    pid: u32,
    name: Seq<char>,
    first: Seq<char>,
    rest: Seq<Seq<char>>,
)
    ensures
        ({
            let argv = seq![first] + rest;
            let process = described_process(pid, name, Some(argv));
            &&& process.pid == pid
            &&& process.name == name
            &&& process.argv == Some(argv)
            &&& process.argv0 == Some(first)
            &&& rest.len() == 0 ==> process.cmdline == Some(first)
            &&& rest.len() > 0 ==> process.cmdline == Some(
                first + seq![' '] + crate::text::spaced(rest),
            )
        }),
        ({
            let process = described_process(pid, name, None);
            &&& process.pid == pid
            &&& process.name == name
            &&& process.argv is None
            &&& process.argv0 is None
            &&& process.cmdline is None
        }),
{
    crate::text::parts_are_joined_by_single_spaces(seq![first], rest);
    if rest.len() == 0 {
        assert(seq![first] + rest =~= seq![first]);
    }
}

/// What is there of a list is there in it.
proof fn lemma_present_is_there<A>(answers: Seq<Option<A>>, value: A)
    ensures
        crate::process::present(answers).contains(value) <==> answers.contains(Some(value)),
    decreases answers.len(),
{
    if answers.len() > 0 {
        let fewer = answers.drop_last();
        lemma_present_is_there(fewer, value);
        let before = crate::process::present(fewer);
        let all = crate::process::present(answers);
        if answers.contains(Some(value)) {
            let i = choose|i: int| 0 <= i < answers.len() && answers[i] == Some(value);
            if i < fewer.len() {
                assert(fewer[i] == Some(value));
                let k = choose|k: int| 0 <= k < before.len() && before[k] == value;
                assert(all[k] == value);
            } else {
                assert(all.last() == value);
                assert(all[all.len() - 1] == value);
            }
        }
        if all.contains(value) {
            let k = choose|k: int| 0 <= k < all.len() && all[k] == value;
            if k < before.len() {
                assert(before[k] == value);
                let i = choose|i: int| 0 <= i < fewer.len() && fewer[i] == Some(value);
                assert(answers[i] == Some(value));
            } else {
                assert(answers[answers.len() - 1] == Some(value));
            }
        }
    }
}

/// A process of a job that a record tells of: it has the id and the name of the record, and the
/// arguments in the table of the process.
pub open spec fn tells_of<S, F>(
    size: S,
    fetch: F,
    info: KinfoProc,
    process: crate::process::ProcessView,
) -> bool where
    S: Fn(KernelTable, i32) -> Option<usize>,
    F: Fn(KernelTable, i32, usize) -> Result<(Vec<u8>, usize), Errno>,
 {
    &&& process.pid as int == info.pid as int
    &&& crate::freebsd::records::command_name(info.comm@) == Some(process.name)
    &&& reads_arguments(size, fetch, process.pid, process.argv)
    &&& process.argv0 is Some <==> process.argv is Some && process.argv->0.len() > 0
    &&& process.argv0 is Some ==> process.argv0->0 == process.argv->0[0]
    &&& process.cmdline is Some <==> process.argv is Some
    &&& process.cmdline is Some ==> process.cmdline->0 == crate::text::spaced(process.argv->0)
}

/// One of the processes is the one that the record tells of.
pub open spec fn tells_of_one<S, F>(
    size: S,
    fetch: F,
    info: KinfoProc,
    processes: Seq<crate::process::ProcessView>,
) -> bool where
    S: Fn(KernelTable, i32) -> Option<usize>,
    F: Fn(KernelTable, i32, usize) -> Result<(Vec<u8>, usize), Errno>,
 {
    exists|k: int| 0 <= k < processes.len() && tells_of(size, fetch, info, #[trigger] processes[k])
}

/// One of the records tells of the process.
pub open spec fn is_told_of<S, F>(
    size: S,
    fetch: F,
    infos: Seq<KinfoProc>,
    process: crate::process::ProcessView,
) -> bool where
    S: Fn(KernelTable, i32) -> Option<usize>,
    F: Fn(KernelTable, i32, usize) -> Result<(Vec<u8>, usize), Errno>,
 {
    exists|i: int| 0 <= i < infos.len() && tells_of(size, fetch, #[trigger] infos[i], process)
}

/// The job of a group whose table does not change holds every process of the group that has a name,
/// and nothing else; there is a job exactly where there is such a process.
pub proof fn jobs_hold_every_named_process<P, S, F, D, W>(
    kernel: Kernel<P, S, F, D, W>,
    process_group_id: u32,
    infos: Seq<KinfoProc>,
    job: Option<crate::process::JobView>,
) where
    P: Fn(i32) -> Option<(usize, KinfoProc)>,
    S: Fn(KernelTable, i32) -> Option<usize>,
    F: Fn(KernelTable, i32, usize) -> Result<(Vec<u8>, usize), Errno>,
    D: Fn(&[u8]) -> KinfoProc,
    W: Fn(&[u8]) -> Vec<u8>,

    requires
        forall|read: Seq<KinfoProc>| #[trigger]
            reads_infos(kernel, KernelTable::ProcessGroup, process_group_id, read) ==> read
                == infos,
        forall|i: int| 0 <= i < infos.len() ==> (#[trigger] infos[i]).pid > 0,
        reads_group_job(kernel, process_group_id, job),
    ensures
        job is Some <==> exists|i: int|
            0 <= i < infos.len() && crate::freebsd::records::command_name(
                (#[trigger] infos[i]).comm@,
            ) is Some,
        job matches Some(job) ==> {
            &&& job.process_group_id == process_group_id
            &&& forall|i: int|
                0 <= i < infos.len() && crate::freebsd::records::command_name(
                    (#[trigger] infos[i]).comm@,
                ) is Some ==> tells_of_one(kernel.size, kernel.fetch, infos[i], job.processes)
            &&& forall|k: int|
                0 <= k < job.processes.len() ==> is_told_of(kernel.size, kernel.fetch, infos, #[trigger] job.processes[k])
        },
{
    let (read, processes) = choose|
        read: Seq<KinfoProc>,
        processes: Seq<Option<crate::process::ProcessView>>,
    |
        {
            &&& #[trigger] reads_infos(kernel, KernelTable::ProcessGroup, process_group_id, read)
            &&& #[trigger] reads_processes(kernel.size, kernel.fetch, read, processes)
            &&& job == processes_job(process_group_id, crate::process::present(processes))
        };
    assert(read == infos);
    let there = crate::process::present(processes);
    assert forall|i: int|
        0 <= i < infos.len() && crate::freebsd::records::command_name(
            (#[trigger] infos[i]).comm@,
        ) is Some implies tells_of_one(kernel.size, kernel.fetch, infos[i], there) by {
        assert(reads_process(kernel.size, kernel.fetch, infos[i], processes[i]));
        let process = processes[i]->0;
        assert(infos[i].pid > 0);
        lemma_present_is_there(processes, process);
        assert(processes.contains(Some(process)));
        let k = choose|k: int| 0 <= k < there.len() && there[k] == process;
        assert(tells_of(kernel.size, kernel.fetch, infos[i], there[k]));
    }
    assert forall|k: int| 0 <= k < there.len() implies is_told_of(kernel.size, kernel.fetch, infos, #[trigger] there[k]) by {
        lemma_present_is_there(processes, there[k]);
        assert(there.contains(there[k]));
        let i = choose|i: int| 0 <= i < processes.len() && processes[i] == Some(there[k]);
        assert(reads_process(kernel.size, kernel.fetch, infos[i], processes[i]));
        assert(infos[i].pid > 0);
        assert(tells_of(kernel.size, kernel.fetch, infos[i], there[k]));
    }
    if there.len() > 0 {
        assert(is_told_of(kernel.size, kernel.fetch, infos, there[0]));
        let i = choose|i: int|
            0 <= i < infos.len() && tells_of(kernel.size, kernel.fetch, #[trigger] infos[i], there[0]);
        assert(crate::freebsd::records::command_name(infos[i].comm@) is Some);
    }
}

/// The foreground job is that of the foreground group in the child's record: there is none where the
/// child has no record, or its record names no group.
pub proof fn foreground_jobs_are_those_of_the_group<P, S, F, D, W>(
    kernel: Kernel<P, S, F, D, W>,
    child_pid: u32,
    info: Option<KinfoProc>,
    job: Option<crate::process::JobView>,
) where
    P: Fn(i32) -> Option<(usize, KinfoProc)>,
    S: Fn(KernelTable, i32) -> Option<usize>,
    F: Fn(KernelTable, i32, usize) -> Result<(Vec<u8>, usize), Errno>,
    D: Fn(&[u8]) -> KinfoProc,
    W: Fn(&[u8]) -> Vec<u8>,

    requires
        forall|read: Option<KinfoProc>| #[trigger]
            reads_info(kernel.probe, kernel.record_size, child_pid, read) ==> read == info,
        reads_foreground_job(kernel, child_pid, job),
    ensures
        info is None || info->0.tpgid <= 0 ==> job is None,
        info is Some && info->0.tpgid >= 1 ==> reads_group_job(
            kernel,
            info->0.tpgid as u32,
            job,
        ),
        !(1 <= child_pid <= 0x7fff_ffff) ==> job is None,
{
}

/// A leader is named exactly where its record says that it leads the group and holds a name, which
/// is then that name.
pub proof fn leaders_lead_their_group(process_group_id: u32, info: KinfoProc)
    ensures
        leader_name(process_group_id, None) is None,
        info.pgid >= 1 && info.pgid as int == process_group_id as int ==> leader_name(
            process_group_id,
            Some(info),
        ) == crate::freebsd::records::command_name(info.comm@),
        info.pgid <= 0 || info.pgid as int != process_group_id as int ==> leader_name(
            process_group_id,
            Some(info),
        ) is None,
{
}

/// The valid records among valid ones are all of them.
proof fn lemma_all_valid(infos: Seq<KinfoProc>, record_size: usize)
    requires
        forall|i: int|
            0 <= i < infos.len() ==> (#[trigger] infos[i]).structsize as int == record_size as int
                && infos[i].pid >= 1,
    ensures
        valid_infos(infos, record_size) == infos,
    decreases infos.len(),
{
    if infos.len() > 0 {
        let fewer = infos.drop_last();
        assert forall|i: int| 0 <= i < fewer.len() implies (#[trigger] fewer[i]).structsize as int
            == record_size as int && fewer[i].pid >= 1 by {
            assert(fewer[i] == infos[i]);
        }
        lemma_all_valid(fewer, record_size);
        assert(infos[infos.len() - 1].pid >= 1);
        assert(fewer.push(infos.last()) =~= infos);
    }
    assert(valid_infos(infos, record_size) =~= infos);
}

/// Every record of a table that does not change is read, in order, and nothing else; a piece at the
/// end that is shorter than a record is left out.
pub proof fn record_tables_are_read_whole<P, S, F, D, W>(
    kernel: Kernel<P, S, F, D, W>,
    table: KernelTable,
    id: u32,
    records: Seq<Seq<u8>>,
    rest: Seq<u8>,
    all: Seq<KinfoProc>,
    infos: Seq<KinfoProc>,
) where
    P: Fn(i32) -> Option<(usize, KinfoProc)>,
    S: Fn(KernelTable, i32) -> Option<usize>,
    F: Fn(KernelTable, i32, usize) -> Result<(Vec<u8>, usize), Errno>,
    D: Fn(&[u8]) -> KinfoProc,
    W: Fn(&[u8]) -> Vec<u8>,

    requires
        kernel.record_size > 0,
        1 <= id <= 0x7fff_ffff,
        forall|i: int|
            0 <= i < records.len() ==> (#[trigger] records[i]).len() == kernel.record_size,
        rest.len() < kernel.record_size,
        forall|bytes: Option<Seq<u8>>| #[trigger]
            crate::freebsd::sysctl::reads_table(
                kernel.size,
                kernel.fetch,
                table,
                id as i32,
                bytes,
            ) ==> bytes == Some(records.flatten() + rest),
        all.len() == records.len(),
        forall|i: int, info: KinfoProc|
            0 <= i < records.len() && #[trigger] decodes(kernel.decode, records[i], info) ==> info
                == all[i],
        forall|i: int|
            0 <= i < all.len() ==> (#[trigger] all[i]).structsize as int
                == kernel.record_size as int && all[i].pid >= 1,
        reads_infos(kernel, table, id, infos),
    ensures
        infos == all,
{
    let bytes = records.flatten() + rest;
    crate::freebsd::records::records_are_cut_apart(records, rest, kernel.record_size as int);
    assert(reads_records(kernel.decode, kernel.record_size, bytes, infos));
    let read = choose|read: Seq<KinfoProc>| #[trigger]
        decodes_all(
            kernel.decode,
            crate::freebsd::records::whole_records(bytes, kernel.record_size as int),
            read,
        ) && infos == valid_infos(read, kernel.record_size);
    assert forall|i: int| 0 <= i < read.len() implies read[i] == all[i] by {
        assert(decodes(kernel.decode, records[i], read[i]));
    }
    assert(read =~= all);
    lemma_all_valid(all, kernel.record_size);
}

/// The arguments of a process whose table does not change are read back, all of them and in order.
pub proof fn process_arguments_are_read_back<S, F>(
    size: S,
    fetch: F,
    pid: u32,
    parts: Seq<Seq<u8>>,
    argv: Option<Seq<Seq<char>>>,
) where
    S: Fn(KernelTable, i32) -> Option<usize>,
    F: Fn(KernelTable, i32, usize) -> Result<(Vec<u8>, usize), Errno>,

    requires
        1 <= pid <= 0x7fff_ffff,
        parts.len() > 0,
        forall|i: int| 0 <= i < parts.len() ==> !(#[trigger] parts[i]).contains(0u8),
        forall|bytes: Option<Seq<u8>>| #[trigger]
            crate::freebsd::sysctl::reads_table(
                size,
                fetch,
                KernelTable::Arguments,
                pid as i32,
                bytes,
            ) ==> bytes == Some(crate::text::nul_joined(parts)),
        reads_arguments(size, fetch, pid, argv),
    ensures
        argv is Some,
        argv->0.len() == parts.len(),
        forall|i: int|
            0 <= i < parts.len() ==> #[trigger] argv->0[i] == crate::text::utf8_lossy(parts[i]),
{
    let one = seq![1u8];
    assert(!one.contains(0u8));
    crate::freebsd::records::strings_are_read_back(parts, one);
    let strings = crate::freebsd::records::nul_strings(crate::text::nul_joined(parts));
    assert(argv == Some(strings));
    assert forall|i: int| 0 <= i < parts.len() implies #[trigger] argv->0[i]
        == crate::text::utf8_lossy(parts[i]) by {
        assert(strings[i] == crate::text::utf8_lossy(parts[i]));
    }
}

/// What is there of a list in which everything is there is the whole list.
proof fn lemma_all_present<A>(answers: Seq<Option<A>>)
    requires
        forall|i: int| 0 <= i < answers.len() ==> #[trigger] answers[i] is Some,
    ensures
        crate::process::present(answers).len() == answers.len(),
        forall|i: int|
            0 <= i < answers.len() ==> #[trigger] crate::process::present(answers)[i]
                == answers[i]->0,
    decreases answers.len(),
{
    if answers.len() > 0 {
        let fewer = answers.drop_last();
        assert forall|i: int| 0 <= i < fewer.len() implies #[trigger] fewer[i] is Some by {
            assert(answers[i] is Some);
        }
        lemma_all_present(fewer);
        assert(answers[answers.len() - 1] is Some);
        let there = crate::process::present(answers);
        assert forall|i: int| 0 <= i < answers.len() implies #[trigger] there[i]
            == answers[i]->0 by {
            if i < fewer.len() {
                assert(there[i] == crate::process::present(fewer)[i]);
                assert(fewer[i] == answers[i]);
            }
        }
    }
}

/// A job of some processes is those processes, in their order, and no processes make no job.
pub proof fn jobs_are_their_processes(
    process_group_id: u32,
    processes: Seq<crate::process::ProcessView>,
)
    ensures
        processes_job(process_group_id, processes) is None <==> processes.len() == 0,
        processes_job(process_group_id, processes) matches Some(job) ==> job.process_group_id
            == process_group_id && job.processes == processes,
{
}

/// The processes of a job stand in the order of the table: where every record has a name, each
/// record tells of the process at its place.
pub proof fn jobs_keep_the_order_of_the_table<P, S, F, D, W>(
    kernel: Kernel<P, S, F, D, W>,
    process_group_id: u32,
    infos: Seq<KinfoProc>,
    job: Option<crate::process::JobView>,
) where
    P: Fn(i32) -> Option<(usize, KinfoProc)>,
    S: Fn(KernelTable, i32) -> Option<usize>,
    F: Fn(KernelTable, i32, usize) -> Result<(Vec<u8>, usize), Errno>,
    D: Fn(&[u8]) -> KinfoProc,
    W: Fn(&[u8]) -> Vec<u8>,

    requires
        forall|read: Seq<KinfoProc>| #[trigger]
            reads_infos(kernel, KernelTable::ProcessGroup, process_group_id, read) ==> read
                == infos,
        infos.len() > 0,
        forall|i: int|
            0 <= i < infos.len() ==> (#[trigger] infos[i]).pid > 0
                && crate::freebsd::records::command_name(infos[i].comm@) is Some,
        reads_group_job(kernel, process_group_id, job),
    ensures
        job is Some,
        job->0.processes.len() == infos.len(),
        forall|i: int|
            0 <= i < infos.len() ==> tells_of(
                kernel.size,
                kernel.fetch,
                #[trigger] infos[i],
                job->0.processes[i],
            ),
{
    let (read, processes) = choose|
        read: Seq<KinfoProc>,
        processes: Seq<Option<crate::process::ProcessView>>,
    |
        {
            &&& #[trigger] reads_infos(kernel, KernelTable::ProcessGroup, process_group_id, read)
            &&& #[trigger] reads_processes(kernel.size, kernel.fetch, read, processes)
            &&& job == processes_job(process_group_id, crate::process::present(processes))
        };
    assert(read == infos);
    assert forall|i: int| 0 <= i < processes.len() implies #[trigger] processes[i] is Some
        && tells_of(kernel.size, kernel.fetch, infos[i], processes[i]->0) by {
        assert(reads_process(kernel.size, kernel.fetch, infos[i], processes[i]));
        assert(infos[i].pid > 0);
    }
    lemma_all_present(processes);
    assert forall|i: int| 0 <= i < infos.len() implies tells_of(
        kernel.size,
        kernel.fetch,
        #[trigger] infos[i],
        job->0.processes[i],
    ) by {
        assert(crate::process::present(processes)[i] == processes[i]->0);
    }
}

/// The record of a process is the one that its probe gives, whichever process it is, and a number
/// that names no process has no record, no table and no arguments.
pub proof fn every_process_is_probed<P, S, F, D, W>(
    kernel: Kernel<P, S, F, D, W>,
    pid: u32,
    record: KinfoProc,
    info: Option<KinfoProc>,
    table: KernelTable,
    infos: Seq<KinfoProc>,
    argv: Option<Seq<Seq<char>>>,
) where
    P: Fn(i32) -> Option<(usize, KinfoProc)>,
    S: Fn(KernelTable, i32) -> Option<usize>,
    F: Fn(KernelTable, i32, usize) -> Result<(Vec<u8>, usize), Errno>,
    D: Fn(&[u8]) -> KinfoProc,
    W: Fn(&[u8]) -> Vec<u8>,

    requires
        reads_info(kernel.probe, kernel.record_size, pid, info),
        reads_infos(kernel, table, pid, infos),
        reads_arguments(kernel.size, kernel.fetch, pid, argv),
    ensures
        1 <= pid <= 0x7fff_ffff && record.structsize as int == kernel.record_size as int
            && record.pid as int == pid as int && (forall|answer: Option<(usize, KinfoProc)>|
            #[trigger]
            call_ensures(kernel.probe, (pid as i32,), answer) ==> answer == Some(
                (kernel.record_size, record),
            )) ==> info == Some(record),
        (forall|answer: Option<(usize, KinfoProc)>| #[trigger]
            call_ensures(kernel.probe, (pid as i32,), answer) ==> answer is None) ==> info is None,
        !(1 <= pid <= 0x7fff_ffff) ==> info is None && infos.len() == 0 && argv is None,
{
    ids_are_kept(pid);
}

} // verus!
