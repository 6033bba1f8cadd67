//! Sessions, signals, limits and single facts of a process.
use crate::freebsd::errors::Errno;
use crate::freebsd::processes::{kinfo_processes, positive_pid, process_info, Kernel};
use crate::freebsd::records::{until_nul, KinfoProc};
use crate::freebsd::sysctl::{sysctl_bytes, KernelTable};
use crate::process::Signal;
use crate::sys::{probe_found_process, signal_number};
use vstd::prelude::*;

verus! {

/// How many files the server wants to have open.
pub const SERVER_NOFILE_LIMIT_TARGET: i64 = 8192;

/// The host cursor is not drawn by default.
pub fn should_draw_host_cursor_by_default() -> (draw: bool)
    ensures
        draw == false,
{
    false
}

/// The host terminal is asked for its palette.
pub fn should_query_host_terminal_palette() -> (query: bool)
    ensures
        query == true,
{
    true
}

// ---------------------------------------------------------------------------
// Limits
// ---------------------------------------------------------------------------

/// The soft limit to aim at under a hard limit.
pub open spec fn nofile_target(hard: i64, unlimited: i64) -> i64 {
    if hard == unlimited || hard > SERVER_NOFILE_LIMIT_TARGET {
        SERVER_NOFILE_LIMIT_TARGET
    } else {
        hard
    }
}

/// The soft limit to set, if the present one is too low.
pub open spec fn raised_limit(soft: i64, hard: i64, unlimited: i64) -> Option<i64> {
    if soft < nofile_target(hard, unlimited) {
        Some(nofile_target(hard, unlimited))
    } else {
        None
    }
}

/// The soft limit on open files to set, if the present one is too low. `unlimited` is the value of
/// a hard limit that is none.
pub fn raise_server_nofile_limit(soft: i64, hard: i64, unlimited: i64) -> (raised: Option<i64>)
    ensures
        raised == raised_limit(soft, hard, unlimited),
{
    let target: i64 = if hard == unlimited {
        SERVER_NOFILE_LIMIT_TARGET
    } else if hard < SERVER_NOFILE_LIMIT_TARGET {
        hard
    } else {
        SERVER_NOFILE_LIMIT_TARGET
    };
    if soft >= target {
        return None;
    }
    Some(target)
}

/// A soft limit is never lowered, never set beyond the target and never beyond the hard limit.
pub proof fn the_soft_limit_only_rises(soft: i64, hard: i64, unlimited: i64)
    ensures
        match raised_limit(soft, hard, unlimited) {
            Some(raised) => {
                &&& soft < raised <= SERVER_NOFILE_LIMIT_TARGET
                &&& hard == unlimited || raised <= hard
            },
            None => soft >= SERVER_NOFILE_LIMIT_TARGET || (hard != unlimited && soft >= hard),
        },
{
}

// ---------------------------------------------------------------------------
// Single facts
// ---------------------------------------------------------------------------

/// The path in a path field: what stands before the first NUL byte, unless that is empty.
pub open spec fn directory_path(path: Seq<u8>) -> Option<Seq<u8>> {
    match crate::freebsd::records::nul_terminated(path) {
        Some(path) => if path.len() > 0 {
            Some(path)
        } else {
            None
        },
        None => None,
    }
}

/// `path` is what the bytes of a working directory table say.
pub open spec fn reads_directory<W>(
    file_path: W,
    file_record_size: usize,
    bytes: Option<Seq<u8>>,
    path: Option<Seq<u8>>,
) -> bool where W: Fn(&[u8]) -> Vec<u8> {
    match bytes {
        Some(bytes) => if bytes.len() < file_record_size {
            path is None
        } else {
            exists|table: &[u8], field: Vec<u8>|
                table@ == bytes && #[trigger] call_ensures(file_path, (table,), field) && path
                    == directory_path(field@)
        },
        None => path is None,
    }
}

/// The path of the working directory of the process `pid`.
pub fn process_cwd<P, S, F, D, W>(
    pid: u32,
    kernel: &Kernel<P, S, F, D, W>,
) -> (cwd: Option<Vec<u8>>) where
    P: Fn(i32) -> Option<(usize, KinfoProc)>,
    S: Fn(KernelTable, i32) -> Option<usize>,
    F: Fn(KernelTable, i32, usize) -> Result<(Vec<u8>, usize), Errno>,
    D: Fn(&[u8]) -> KinfoProc,
    W: Fn(&[u8]) -> Vec<u8>,

    requires
        kernel.ready(),
    ensures
        match crate::freebsd::processes::kernel_id(pid) {
            Some(id) => exists|bytes: Option<Seq<u8>>| #[trigger]
                crate::freebsd::sysctl::reads_table(
                    kernel.size,
                    kernel.fetch,
                    KernelTable::WorkingDirectory,
                    id,
                    bytes,
                ) && reads_directory(
                    kernel.file_path,
                    kernel.file_record_size,
                    bytes,
                    crate::freebsd::sysctl::optional_bytes(cwd),
                ),
            None => cwd is None,
        },
{
    let id: i32 = match positive_pid(pid) {
        Some(id) => id,
        None => {
            return None;
        },
    };
    let read: Option<Vec<u8>> = sysctl_bytes(
        KernelTable::WorkingDirectory,
        id,
        &kernel.size,
        &kernel.fetch,
    );
    assert(crate::freebsd::sysctl::reads_table(
        kernel.size,
        kernel.fetch,
        KernelTable::WorkingDirectory,
        id,
        crate::freebsd::sysctl::optional_bytes(read),
    ));
    let bytes: Vec<u8> = match read {
        Some(bytes) => bytes,
        None => {
            return None;
        },
    };
    if bytes.len() < kernel.file_record_size {
        return None;
    }
    let table: &[u8] = bytes.as_slice();
    let field: Vec<u8> = (kernel.file_path)(table);
    assert(table@ == bytes@ && call_ensures(kernel.file_path, (table,), field));
    match until_nul(field.as_slice()) {
        Some(path) => if path.len() > 0 {
            let mut cwd: Vec<u8> = Vec::new();
            cwd.extend_from_slice(path);
            assert(cwd@ =~= path@);
            Some(cwd)
        } else {
            None
        },
        None => None,
    }
}

/// The agent that a process names in its environment, which `parse` looks through.
pub fn process_agent_hint<G, S, F, H>(
    pid: u32,
    size: &S,
    fetch: &F,
    parse: H,
) -> (agent: Option<G>) where
    S: Fn(KernelTable, i32) -> Option<usize>,
    F: Fn(KernelTable, i32, usize) -> Result<(Vec<u8>, usize), Errno>,
    H: FnOnce(Vec<u8>) -> Option<G>,

    requires
        forall|table: KernelTable, id: i32| #[trigger] call_requires(*size, (table, id)),
        forall|table: KernelTable, id: i32, length: usize| #[trigger]
            call_requires(*fetch, (table, id, length)),
        forall|bytes: Vec<u8>| call_requires(parse, (bytes,)),
    ensures
        match crate::freebsd::processes::kernel_id(pid) {
            Some(id) => exists|bytes: Option<Vec<u8>>|
                crate::freebsd::sysctl::reads_table(
                    *size,
                    *fetch,
                    KernelTable::Environment,
                    id,
                    #[trigger] crate::freebsd::sysctl::optional_bytes(bytes),
                ) && match bytes {
                    Some(bytes) => call_ensures(parse, (bytes,), agent),
                    None => agent is None,
                },
            None => agent is None,
        },
{
    let id: i32 = match positive_pid(pid) {
        Some(id) => id,
        None => {
            return None;
        },
    };
    let read: Option<Vec<u8>> = sysctl_bytes(KernelTable::Environment, id, size, fetch);
    let ghost bytes = read;
    assert(crate::freebsd::sysctl::reads_table(
        *size,
        *fetch,
        KernelTable::Environment,
        id,
        crate::freebsd::sysctl::optional_bytes(bytes),
    ));
    match read {
        Some(bytes) => parse(bytes),
        None => None,
    }
}

// ---------------------------------------------------------------------------
// Sessions
// ---------------------------------------------------------------------------

/// The ids in process records.
pub open spec fn info_pids(infos: Seq<KinfoProc>) -> Seq<u32> {
    Seq::new(infos.len(), |i: int| infos[i].pid as u32)
}

/// The session in a process record, if it is not negative.
pub open spec fn info_session(info: Option<KinfoProc>) -> Option<u32> {
    match info {
        Some(info) => if info.sid >= 0 {
            Some(info.sid as u32)
        } else {
            None
        },
        None => None,
    }
}

/// `pids` are the ids in the table of a session.
pub open spec fn reads_session_pids<P, S, F, D, W>(
    kernel: Kernel<P, S, F, D, W>,
    session: u32,
    pids: Seq<u32>,
) -> bool where
    P: Fn(i32) -> Option<(usize, KinfoProc)>,
    S: Fn(KernelTable, i32) -> Option<usize>,
    F: Fn(KernelTable, i32, usize) -> Result<(Vec<u8>, usize), Errno>,
    D: Fn(&[u8]) -> KinfoProc,
    W: Fn(&[u8]) -> Vec<u8>,
 {
    exists|infos: Seq<KinfoProc>| #[trigger]
        crate::freebsd::processes::reads_infos(kernel, KernelTable::Session, session, infos)
            && pids == info_pids(infos)
}

/// `pids` are the ids in the table of the session of `child_pid`; none where it has no session that
/// can be read.
pub open spec fn is_session_listing<P, S, F, D, W>(
    kernel: Kernel<P, S, F, D, W>,
    child_pid: u32,
    pids: Seq<u32>,
) -> bool where
    P: Fn(i32) -> Option<(usize, KinfoProc)>,
    S: Fn(KernelTable, i32) -> Option<usize>,
    F: Fn(KernelTable, i32, usize) -> Result<(Vec<u8>, usize), Errno>,
    D: Fn(&[u8]) -> KinfoProc,
    W: Fn(&[u8]) -> Vec<u8>,
 {
    exists|info: Option<KinfoProc>| #[trigger]
        crate::freebsd::processes::reads_info(kernel.probe, kernel.record_size, child_pid, info)
            && match info_session(info) {
            Some(session) => reads_session_pids(kernel, session, pids),
            None => pids.len() == 0,
        }
}

/// The processes in the session of `child_pid`.
pub fn session_processes<P, S, F, D, W>(
    child_pid: u32,
    kernel: &Kernel<P, S, F, D, W>,
) -> (pids: Vec<u32>) where
    P: Fn(i32) -> Option<(usize, KinfoProc)>,
    S: Fn(KernelTable, i32) -> Option<usize>,
    F: Fn(KernelTable, i32, usize) -> Result<(Vec<u8>, usize), Errno>,
    D: Fn(&[u8]) -> KinfoProc,
    W: Fn(&[u8]) -> Vec<u8>,

    requires
        kernel.ready(),
    ensures
        is_session_listing(*kernel, child_pid, pids@),
        forall|i: int| 0 <= i < pids@.len() ==> 0 < #[trigger] pids@[i] <= i32::MAX,
{
    let found: Option<KinfoProc> = process_info(child_pid, kernel.record_size, &kernel.probe);
    assert(crate::freebsd::processes::reads_info(
        kernel.probe,
        kernel.record_size,
        child_pid,
        found,
    ));
    let info: KinfoProc = match found {
        Some(info) => info,
        None => {
            return Vec::new();
        },
    };
    if info.sid < 0 {
        return Vec::new();
    }
    let infos: Vec<KinfoProc> = kinfo_processes(KernelTable::Session, info.sid as u32, kernel);
    let mut pids: Vec<u32> = Vec::new();
    let mut i: usize = 0;
    while i < infos.len()
        invariant
            i <= infos@.len(),
            forall|k: int| 0 <= k < infos@.len() ==> (#[trigger] infos@[k]).pid > 0,
            pids@.len() == i,
            forall|k: int| 0 <= k < i ==> #[trigger] pids@[k] == infos@[k].pid,
        decreases infos@.len() - i,
    {
        assert(infos@[i as int].pid > 0);
        pids.push(infos[i].pid as u32);
        i = i + 1;
    }
    assert(pids@ =~= info_pids(infos@));
    assert(reads_session_pids(*kernel, info.sid as u32, pids@));
    pids
}

/// The record of `pid` puts it in `session`.
pub open spec fn has_session<P, S, F, D, W>(
    kernel: Kernel<P, S, F, D, W>,
    pid: u32,
    session: u32,
) -> bool where
    P: Fn(i32) -> Option<(usize, KinfoProc)>,
    S: Fn(KernelTable, i32) -> Option<usize>,
    F: Fn(KernelTable, i32, usize) -> Result<(Vec<u8>, usize), Errno>,
    D: Fn(&[u8]) -> KinfoProc,
    W: Fn(&[u8]) -> Vec<u8>,
 {
    exists|info: Option<KinfoProc>| #[trigger]
        crate::freebsd::processes::reads_info(kernel.probe, kernel.record_size, pid, info)
            && info_session(info) == Some(session)
}

/// `pids` are the listed processes of `session`, each once.
pub open spec fn are_listed<P, S, F, D, W>(
    kernel: Kernel<P, S, F, D, W>,
    listed: Set<u32>,
    session: u32,
    pids: Seq<u32>,
) -> bool where
    P: Fn(i32) -> Option<(usize, KinfoProc)>,
    S: Fn(KernelTable, i32) -> Option<usize>,
    F: Fn(KernelTable, i32, usize) -> Result<(Vec<u8>, usize), Errno>,
    D: Fn(&[u8]) -> KinfoProc,
    W: Fn(&[u8]) -> Vec<u8>,
 {
    &&& pids.no_duplicates()
    &&& forall|pid: u32| #[trigger]
        pids.contains(pid) <==> listed.contains(pid) && has_session(kernel, pid, session)
}

/// The tables do not change: the record of a process gives one session only, and the table of a
/// session that has an id holds the listed processes of that session, each once.
pub open spec fn sessions_are_steady<P, S, F, D, W>(
    kernel: Kernel<P, S, F, D, W>,
    listed: Set<u32>,
) -> bool where
    P: Fn(i32) -> Option<(usize, KinfoProc)>,
    S: Fn(KernelTable, i32) -> Option<usize>,
    F: Fn(KernelTable, i32, usize) -> Result<(Vec<u8>, usize), Errno>,
    D: Fn(&[u8]) -> KinfoProc,
    W: Fn(&[u8]) -> Vec<u8>,
 {
    &&& forall|pid: u32, one: Option<KinfoProc>, other: Option<KinfoProc>|
        #[trigger] crate::freebsd::processes::reads_info(
            kernel.probe,
            kernel.record_size,
            pid,
            one,
        ) && #[trigger] crate::freebsd::processes::reads_info(
            kernel.probe,
            kernel.record_size,
            pid,
            other,
        ) ==> info_session(one) == info_session(other)
    &&& forall|session: u32, pids: Seq<u32>|
        crate::freebsd::processes::kernel_id(session) is Some && #[trigger] reads_session_pids(
            kernel,
            session,
            pids,
        ) ==> are_listed(kernel, listed, session, pids)
}

/// Where the tables do not change, the processes of a session are exactly the listed ones that
/// their records put in it, each once, and the child is among them if it is listed. A child that
/// has no record has none, as has one in session 0, which is no session that can be asked for.
pub proof fn sessions_are_listed_whole<P, S, F, D, W>(
    kernel: Kernel<P, S, F, D, W>,
    listed: Set<u32>,
    child_pid: u32,
    info: Option<KinfoProc>,
    pids: Seq<u32>,
) where
    P: Fn(i32) -> Option<(usize, KinfoProc)>,
    S: Fn(KernelTable, i32) -> Option<usize>,
    F: Fn(KernelTable, i32, usize) -> Result<(Vec<u8>, usize), Errno>,
    D: Fn(&[u8]) -> KinfoProc,
    W: Fn(&[u8]) -> Vec<u8>,

    requires
        sessions_are_steady(kernel, listed),
        is_session_listing(kernel, child_pid, pids),
        crate::freebsd::processes::reads_info(kernel.probe, kernel.record_size, child_pid, info),
    ensures
        match info_session(info) {
            Some(session) => if session > 0 {
                &&& forall|pid: u32| #[trigger]
                    pids.contains(pid) <==> listed.contains(pid) && has_session(
                        kernel,
                        pid,
                        session,
                    )
                &&& listed.contains(child_pid) ==> pids.contains(child_pid)
            } else {
                pids.len() == 0
            },
            None => pids.len() == 0,
        },
        crate::freebsd::processes::kernel_id(child_pid) is None ==> pids.len() == 0,
        pids.no_duplicates(),
{
    match info_session(info) {
        Some(session) => {
            assert(reads_session_pids(kernel, session, pids));
            if session > 0 {
                assert(are_listed(kernel, listed, session, pids));
                assert(has_session(kernel, child_pid, session));
            } else {
                let infos = choose|infos: Seq<KinfoProc>| #[trigger]
                    crate::freebsd::processes::reads_infos(
                        kernel,
                        KernelTable::Session,
                        session,
                        infos,
                    ) && pids == info_pids(infos);
                assert(infos.len() == 0);
            }
        },
        None => {},
    }
}

/// Where the tables do not change, every process of a session has the same session.
pub proof fn members_share_their_session<P, S, F, D, W>(
    kernel: Kernel<P, S, F, D, W>,
    listed: Set<u32>,
    child_pid: u32,
    pids: Seq<u32>,
    member: u32,
    member_pids: Seq<u32>,
) where
    P: Fn(i32) -> Option<(usize, KinfoProc)>,
    S: Fn(KernelTable, i32) -> Option<usize>,
    F: Fn(KernelTable, i32, usize) -> Result<(Vec<u8>, usize), Errno>,
    D: Fn(&[u8]) -> KinfoProc,
    W: Fn(&[u8]) -> Vec<u8>,

    requires
        sessions_are_steady(kernel, listed),
        is_session_listing(kernel, child_pid, pids),
        pids.contains(member),
        is_session_listing(kernel, member, member_pids),
    ensures
        forall|pid: u32| #[trigger] member_pids.contains(pid) <==> pids.contains(pid),
        member_pids.len() == pids.len(),
{
    let info = choose|info: Option<KinfoProc>| #[trigger]
        crate::freebsd::processes::reads_info(kernel.probe, kernel.record_size, child_pid, info)
            && match info_session(info) {
            Some(session) => reads_session_pids(kernel, session, pids),
            None => pids.len() == 0,
        };
    sessions_are_listed_whole(kernel, listed, child_pid, info, pids);
    let session = info_session(info)->0;
    assert(has_session(kernel, member, session));
    let member_info = choose|info: Option<KinfoProc>| #[trigger]
        crate::freebsd::processes::reads_info(kernel.probe, kernel.record_size, member, info)
            && info_session(info) == Some(session);
    sessions_are_listed_whole(kernel, listed, member, member_info, member_pids);
    pids.unique_seq_to_set();
    member_pids.unique_seq_to_set();
    assert(pids.to_set() =~= member_pids.to_set());
}

// ---------------------------------------------------------------------------
// Signals
// ---------------------------------------------------------------------------

/// The `kill` calls, as pairs of id and signal, that signal `pids`: one for each id that names a
/// process.
pub open spec fn kill_calls(pids: Seq<u32>, signal: Signal) -> Seq<(i32, i32)>
    decreases pids.len(),
{
    if pids.len() == 0 {
        Seq::empty()
    } else {
        let before = kill_calls(pids.drop_last(), signal);
        match crate::freebsd::processes::kernel_id(pids.last()) {
            Some(id) => before.push((id, crate::sys::signal_code(signal))),
            None => before,
        }
    }
}

/// The `kill` calls, as pairs of id and signal number, that signal `pids`.
pub fn signal_processes(pids: &[u32], signal: Signal) -> (calls: Vec<(i32, i32)>)
    ensures
        calls@ == kill_calls(pids@, signal),
{
    let number: i32 = signal_number(signal);
    let mut calls: Vec<(i32, i32)> = Vec::new();
    let mut i: usize = 0;
    assert(pids@.take(0) =~= Seq::<u32>::empty());
    while i < pids.len()
        invariant
            number == crate::sys::signal_code(signal),
            i <= pids@.len(),
            calls@ == kill_calls(pids@.take(i as int), signal),
        decreases pids@.len() - i,
    {
        assert(pids@.take(i + 1).drop_last() =~= pids@.take(i as int));
        match positive_pid(pids[i]) {
            Some(id) => {
                calls.push((id, number));
            },
            None => {},
        }
        i = i + 1;
    }
    assert(pids@.take(i as int) =~= pids@);
    calls
}

/// No signal goes to the caller's own group, to another group or to every process.
pub proof fn signals_reach_single_processes_only(pids: Seq<u32>, signal: Signal)
    ensures
        forall|i: int|
            0 <= i < kill_calls(pids, signal).len() ==> (#[trigger] kill_calls(pids, signal)[i]).0
                > 0 && pids.contains(kill_calls(pids, signal)[i].0 as u32),
    decreases pids.len(),
{
    if pids.len() > 0 {
        let short = pids.drop_last();
        signals_reach_single_processes_only(short, signal);
        let before = kill_calls(short, signal);
        let calls = kill_calls(pids, signal);
        assert forall|i: int| 0 <= i < calls.len() implies (#[trigger] calls[i]).0 > 0
            && pids.contains(calls[i].0 as u32) by {
            if i < before.len() {
                assert(calls[i] == before[i]);
                let k = choose|k: int| 0 <= k < short.len() && short[k] == before[i].0 as u32;
                assert(pids[k] == calls[i].0 as u32);
            } else {
                assert(pids[pids.len() - 1] == calls[i].0 as u32);
            }
        }
    }
}

/// Whether a process exists, as a probe with signal 0 tells; an id that names no process is never
/// probed.
pub fn process_exists<P>(pid: u32, probe: P) -> (exists: bool) where
    P: FnOnce(i32) -> Result<(), Option<i32>>,

    requires
        forall|id: i32| #[trigger] call_requires(probe, (id,)),
    ensures
        match crate::freebsd::processes::kernel_id(pid) {
            Some(id) => exists|probed: Result<(), Option<i32>>| #[trigger]
                call_ensures(probe, (id,), probed) && exists == crate::sys::probe_shows_process(
                    probed,
                ),
            None => !exists,
        },
{
    match positive_pid(pid) {
        Some(id) => probe_found_process(probe(id)),
        None => false,
    }
}

/// The limit is raised as far as it may be: to the target, or to the hard limit where that is lower.
pub proof fn the_soft_limit_rises_to_the_target(soft: i64, hard: i64, unlimited: i64)
    ensures
        soft < 8192 && (hard == unlimited || hard >= 8192) ==> raised_limit(soft, hard, unlimited)
            == Some(8192i64),
        soft < hard && hard != unlimited && hard < 8192 ==> raised_limit(soft, hard, unlimited)
            == Some(hard),
        soft >= 8192 ==> raised_limit(soft, hard, unlimited) is None,
        hard != unlimited && soft >= hard ==> raised_limit(soft, hard, unlimited) is None,
{
}

/// A path is read back from its field, whatever stands behind its NUL byte; an empty path and one
/// without a NUL byte give none.
pub proof fn paths_are_read_back(path: Seq<u8>, rest: Seq<u8>)
    requires
        !path.contains(0u8),
    ensures
        path.len() > 0 ==> directory_path(path.push(0u8) + rest) == Some(path),
        path.len() == 0 ==> directory_path(path.push(0u8) + rest) is None,
        directory_path(path) is None,
{
    crate::freebsd::records::names_end_at_the_first_nul(path, rest);
}

/// A session is the number in the record, unless that is negative, and the ids of records are their
/// numbers, all of them and in order.
pub proof fn recorded_numbers_are_kept(info: KinfoProc, infos: Seq<KinfoProc>)
    requires
        forall|i: int| 0 <= i < infos.len() ==> (#[trigger] infos[i]).pid > 0,
    ensures
        info_session(None) is None,
        info_session(Some(info)) is Some <==> info.sid >= 0,
        info_session(Some(info)) matches Some(session) ==> session as int == info.sid as int,
        info_pids(infos).len() == infos.len(),
        forall|i: int|
            0 <= i < infos.len() ==> #[trigger] info_pids(infos)[i] as int == infos[i].pid as int,
{
    assert forall|i: int| 0 <= i < infos.len() implies #[trigger] info_pids(infos)[i] as int
        == infos[i].pid as int by {
        assert(infos[i].pid > 0);
    }
}

/// Every process that has an id is signalled, once for each time that it is named, in order, with
/// the signal that was asked for; other numbers are passed over.
pub proof fn every_process_is_signalled(one: Seq<u32>, other: Seq<u32>, pid: u32, signal: Signal)
    ensures
        kill_calls(one + other, signal) == kill_calls(one, signal) + kill_calls(other, signal),
        1 <= pid <= 0x7fff_ffff ==> kill_calls(seq![pid], signal) == seq![
            (
                pid as i32,
                if signal == Signal::Hangup {
                    1i32
                } else if signal == Signal::Terminate {
                    15i32
                } else {
                    9i32
                },
            ),
        ],
        !(1 <= pid <= 0x7fff_ffff) ==> kill_calls(seq![pid], signal).len() == 0,
    decreases other.len(),
{
    reveal_with_fuel(kill_calls, 2);
    assert(seq![pid].drop_last() =~= Seq::empty());
    assert(seq![pid].last() == pid);
    if other.len() == 0 {
        assert(one + other =~= one);
        assert(kill_calls(one, signal) + kill_calls(other, signal) =~= kill_calls(one, signal));
    } else {
        every_process_is_signalled(one, other.drop_last(), pid, signal);
        assert((one + other).drop_last() =~= one + other.drop_last());
        assert((one + other).last() == other.last());
        assert(kill_calls(one + other, signal) =~= kill_calls(one, signal) + kill_calls(
            other,
            signal,
        ));
    }
}

/// The directory of a table is the path that its field holds, wherever the table has room for a
/// record; a shorter table, and one that cannot be read, give none.
pub proof fn directories_are_read_back<W>(
    file_path: W,
    file_record_size: usize,
    bytes: Option<Seq<u8>>,
    name: Seq<u8>,
    rest: Seq<u8>,
    path: Option<Seq<u8>>,
) where W: Fn(&[u8]) -> Vec<u8>
    requires
        !name.contains(0u8),
        name.len() > 0,
        forall|table: &[u8], field: Vec<u8>| #[trigger]
            call_ensures(file_path, (table,), field) ==> field@ == name.push(0u8) + rest,
        reads_directory(file_path, file_record_size, bytes, path),
    ensures
        bytes is Some && bytes->0.len() >= file_record_size ==> path == Some(name),
        bytes is None || bytes->0.len() < file_record_size ==> path is None,
{
    paths_are_read_back(name, rest);
}

/// The processes of a session are those in the records of its table, all of them and in order. There
/// are none where the child has no record, or its record no session with an id.
pub proof fn session_tables_are_listed_whole<P, S, F, D, W>(
    kernel: Kernel<P, S, F, D, W>,
    child_pid: u32,
    info: Option<KinfoProc>,
    infos: Seq<KinfoProc>,
    pids: Seq<u32>,
) where
    P: Fn(i32) -> Option<(usize, KinfoProc)>,
    S: Fn(KernelTable, i32) -> Option<usize>,
    F: Fn(KernelTable, i32, usize) -> Result<(Vec<u8>, usize), Errno>,
    D: Fn(&[u8]) -> KinfoProc,
    W: Fn(&[u8]) -> Vec<u8>,

    requires
        forall|read: Option<KinfoProc>| #[trigger]
            crate::freebsd::processes::reads_info(
                kernel.probe,
                kernel.record_size,
                child_pid,
                read,
            ) ==> read == info,
        info is Some && info->0.sid >= 1 ==> forall|read: Seq<KinfoProc>| #[trigger]
            crate::freebsd::processes::reads_infos(
                kernel,
                KernelTable::Session,
                info->0.sid as u32,
                read,
            ) ==> read == infos,
        forall|i: int| 0 <= i < infos.len() ==> (#[trigger] infos[i]).pid > 0,
        is_session_listing(kernel, child_pid, pids),
    ensures
        info is Some && info->0.sid >= 1 ==> {
            &&& pids.len() == infos.len()
            &&& forall|i: int|
                0 <= i < pids.len() ==> #[trigger] pids[i] as int == infos[i].pid as int
        },
        info is None || info->0.sid <= 0 ==> pids.len() == 0,
{
    if info is Some && info->0.sid >= 1 {
        let session = info->0.sid as u32;
        assert(reads_session_pids(kernel, session, pids));
        recorded_numbers_are_kept(info->0, infos);
        assert(pids == info_pids(infos));
        assert forall|i: int| 0 <= i < pids.len() implies #[trigger] pids[i] as int
            == infos[i].pid as int by {
            assert(info_pids(infos)[i] as int == infos[i].pid as int);
        }
    } else if info is Some && info->0.sid == 0 {
        assert(reads_session_pids(kernel, 0, pids));
        let read = choose|read: Seq<KinfoProc>| #[trigger]
            crate::freebsd::processes::reads_infos(kernel, KernelTable::Session, 0u32, read)
                && pids == info_pids(read);
        assert(read.len() == 0);
    }
}

} // verus!
