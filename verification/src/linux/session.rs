//! Sessions, signals and single facts of a process.
use crate::linux::proc_fs::process_session_id;
use crate::linux::stat::process_task_ids;
use crate::process::Signal;
use crate::sys::{probe_found_process, signal_number};
use vstd::prelude::*;

verus! {

/// The soft limit on open files needs no raising on Linux.
pub fn raise_server_nofile_limit() {
}

// ---------------------------------------------------------------------------
// Sessions
// ---------------------------------------------------------------------------

/// The processes whose session is `session`, in order.
pub open spec fn in_session(
    pids: Seq<u32>,
    sessions: Seq<Option<i32>>,
    session: i32,
) -> Seq<u32>
    decreases pids.len(),
{
    if pids.len() == 0 {
        Seq::empty()
    } else {
        let before = in_session(pids.drop_last(), sessions.drop_last(), session);
        if sessions.last() == Some(session) {
            before.push(pids.last())
        } else {
            before
        }
    }
}

/// `sessions` are the session ids that the `stat` files of `pids` gave.
pub open spec fn reads_sessions<S>(stat: S, pids: Seq<u32>, sessions: Seq<Option<i32>>) -> bool where
    S: Fn(u32) -> Option<String>,
 {
    &&& sessions.len() == pids.len()
    &&& forall|k: int|
        0 <= k < pids.len() ==> crate::linux::proc_fs::reads_session(
            stat,
            pids[k],
            #[trigger] sessions[k],
        )
}

/// `pids` are the ids in `/proc` whose `stat` files put them in `session`.
pub open spec fn lists_session<E, S>(entries: E, stat: S, session: i32, pids: Seq<u32>) -> bool where
    E: FnOnce() -> Vec<Option<String>>,
    S: Fn(u32) -> Option<String>,
 {
    exists|names: Vec<Option<String>>, sessions: Seq<Option<i32>>|
        #![trigger call_ensures(entries, (), names), reads_sessions(stat, crate::linux::stat::entry_ids(names@), sessions)]
        {
            let ids = crate::linux::stat::entry_ids(names@);
            &&& call_ensures(entries, (), names)
            &&& reads_sessions(stat, ids, sessions)
            &&& pids == in_session(ids, sessions, session)
        }
}

/// `pids` are the ids in `/proc` in the session of `child_pid`; none where it has no session that
/// can be read.
pub open spec fn is_session_listing<E, S>(
    entries: E,
    stat: S,
    child_pid: u32,
    pids: Seq<u32>,
) -> bool where E: FnOnce() -> Vec<Option<String>>, S: Fn(u32) -> Option<String> {
    exists|session: Option<i32>| #[trigger]
        crate::linux::proc_fs::reads_session(stat, child_pid, session) && match session {
            Some(session) => lists_session(entries, stat, session, pids),
            None => pids.len() == 0,
        }
}

/// The ids in `/proc`, whose entry names `entries` gives, that are in the session of `child_pid`.
pub fn session_processes<E, S>(child_pid: u32, entries: E, stat: &S) -> (pids: Vec<u32>) where
    E: FnOnce() -> Vec<Option<String>>,
    S: Fn(u32) -> Option<String>,

    requires
        call_requires(entries, ()),
        forall|pid: u32| call_requires(*stat, (pid,)),
    ensures
        is_session_listing(entries, *stat, child_pid, pids@),
{
    let session: Option<i32> = process_session_id(child_pid, stat);
    assert(crate::linux::proc_fs::reads_session(*stat, child_pid, session));
    let session_id: i32 = match session {
        Some(session) => session,
        None => {
            return Vec::new();
        },
    };
    let names: Vec<Option<String>> = entries();
    let ids: Vec<u32> = process_task_ids(names.as_slice());
    let mut pids: Vec<u32> = Vec::new();
    let ghost mut sessions: Seq<Option<i32>> = Seq::empty();
    let mut i: usize = 0;
    assert(ids@.take(0) =~= Seq::<u32>::empty());
    while i < ids.len()
        invariant
            forall|pid: u32| call_requires(*stat, (pid,)),
            i <= ids@.len(),
            sessions.len() == i,
            forall|k: int|
                0 <= k < i ==> crate::linux::proc_fs::reads_session(
                    *stat,
                    ids@[k],
                    #[trigger] sessions[k],
                ),
            pids@ == in_session(ids@.take(i as int), sessions, session_id),
        decreases ids@.len() - i,
    {
        let pid: u32 = ids[i];
        let found: Option<i32> = process_session_id(pid, stat);
        proof {
            let more = sessions.push(found);
            assert(ids@.take(i + 1).drop_last() =~= ids@.take(i as int));
            assert(more.drop_last() =~= sessions);
            sessions = more;
        }
        match found {
            Some(id) => if id == session_id {
                pids.push(pid);
            },
            None => {},
        }
        i = i + 1;
    }
    assert(ids@.take(i as int) =~= ids@);
    assert(reads_sessions(*stat, ids@, sessions));
    assert(lists_session(entries, *stat, session_id, pids@));
    pids
}

/// The `stat` file of a process gives one session only, however often it is read.
pub open spec fn sessions_are_steady<S>(stat: S) -> bool where S: Fn(u32) -> Option<String> {
    forall|pid: u32, one: Option<i32>, other: Option<i32>|
        #[trigger] crate::linux::proc_fs::reads_session(stat, pid, one)
            && #[trigger] crate::linux::proc_fs::reads_session(stat, pid, other) ==> one == other
}

/// `ids` are the listed processes, each once.
pub open spec fn are_listed(ids: Seq<u32>, listed: Set<u32>) -> bool {
    &&& ids.no_duplicates()
    &&& forall|pid: u32| #[trigger] ids.contains(pid) <==> listed.contains(pid)
}

/// The entry names give the listed processes, each once, in whatever order.
pub open spec fn entries_are_steady<E>(entries: E, listed: Set<u32>) -> bool where
    E: FnOnce() -> Vec<Option<String>>,
 {
    forall|names: Vec<Option<String>>| #[trigger]
        call_ensures(entries, (), names) ==> are_listed(
            crate::linux::stat::entry_ids(names@),
            listed,
        )
}

/// `in_session` keeps the processes of the session, and each as often as it is there.
proof fn lemma_in_session(ids: Seq<u32>, sessions: Seq<Option<i32>>, session: i32)
    requires
        sessions.len() == ids.len(),
    ensures
        forall|pid: u32| #[trigger]
            in_session(ids, sessions, session).contains(pid) <==> exists|k: int|
                0 <= k < ids.len() && ids[k] == pid && #[trigger] sessions[k] == Some(session),
        ids.no_duplicates() ==> in_session(ids, sessions, session).no_duplicates(),
    decreases ids.len(),
{
    let kept = in_session(ids, sessions, session);
    if ids.len() > 0 {
        let fewer = ids.drop_last();
        let rest = sessions.drop_last();
        let before = in_session(fewer, rest, session);
        let last = ids.len() - 1;
        lemma_in_session(fewer, rest, session);
        assert forall|pid: u32| #[trigger] kept.contains(pid) <==> exists|k: int|
            0 <= k < ids.len() && ids[k] == pid && #[trigger] sessions[k] == Some(session) by {
            if kept.contains(pid) {
                let i = choose|i: int| 0 <= i < kept.len() && kept[i] == pid;
                if i < before.len() {
                    assert(before[i] == pid);
                    assert(before.contains(pid));
                    let k = choose|k: int|
                        0 <= k < fewer.len() && fewer[k] == pid && #[trigger] rest[k] == Some(
                            session,
                        );
                    assert(ids[k] == pid && sessions[k] == Some(session));
                } else {
                    assert(ids[last] == pid && sessions[last] == Some(session));
                }
            }
            if exists|k: int|
                0 <= k < ids.len() && ids[k] == pid && #[trigger] sessions[k] == Some(session) {
                let k = choose|k: int|
                    0 <= k < ids.len() && ids[k] == pid && #[trigger] sessions[k] == Some(session);
                if k < last {
                    assert(fewer[k] == pid && rest[k] == Some(session));
                    assert(before.contains(pid));
                    let i = choose|i: int| 0 <= i < before.len() && before[i] == pid;
                    assert(kept[i] == pid);
                } else {
                    assert(kept[kept.len() - 1] == pid);
                }
            }
        }
        if ids.no_duplicates() {
            assert(fewer.no_duplicates());
            if sessions.last() == Some(session) {
                assert(!before.contains(ids[last])) by {
                    if before.contains(ids[last]) {
                        let k = choose|k: int|
                            0 <= k < fewer.len() && fewer[k] == ids[last] && #[trigger] rest[k]
                                == Some(session);
                        assert(ids[k] == ids[last]);
                    }
                }
            }
        }
    }
}

/// Where the files do not change, the processes of a session are exactly the listed ones that their
/// `stat` files put in it, each once, and the child is among them if it is listed. A child whose
/// session cannot be read has none.
pub proof fn sessions_are_listed_whole<E, S>(
    entries: E,
    stat: S,
    listed: Set<u32>,
    child_pid: u32,
    session: Option<i32>,
    pids: Seq<u32>,
) where E: FnOnce() -> Vec<Option<String>>, S: Fn(u32) -> Option<String>
    requires
        sessions_are_steady(stat),
        entries_are_steady(entries, listed),
        is_session_listing(entries, stat, child_pid, pids),
        crate::linux::proc_fs::reads_session(stat, child_pid, session),
    ensures
        session is None ==> pids.len() == 0,
        session is Some ==> forall|pid: u32| #[trigger]
            pids.contains(pid) <==> listed.contains(pid) && crate::linux::proc_fs::reads_session(
                stat,
                pid,
                session,
            ),
        session is Some && listed.contains(child_pid) ==> pids.contains(child_pid),
        pids.no_duplicates(),
{
    if session is Some {
        let id = session->0;
        assert(lists_session(entries, stat, id, pids));
        let (names, sessions) = choose|names: Vec<Option<String>>, sessions: Seq<Option<i32>>|
            #![trigger call_ensures(entries, (), names), reads_sessions(stat, crate::linux::stat::entry_ids(names@), sessions)]
            {
                let ids = crate::linux::stat::entry_ids(names@);
                &&& call_ensures(entries, (), names)
                &&& reads_sessions(stat, ids, sessions)
                &&& pids == in_session(ids, sessions, id)
            };
        let ids = crate::linux::stat::entry_ids(names@);
        assert(are_listed(ids, listed));
        lemma_in_session(ids, sessions, id);
        assert forall|pid: u32| #[trigger] pids.contains(pid) <==> listed.contains(pid)
            && crate::linux::proc_fs::reads_session(stat, pid, session) by {
            if pids.contains(pid) {
                let k = choose|k: int|
                    0 <= k < ids.len() && ids[k] == pid && #[trigger] sessions[k] == Some(id);
                assert(crate::linux::proc_fs::reads_session(stat, ids[k], sessions[k]));
                assert(ids.contains(pid));
            }
            if listed.contains(pid) && crate::linux::proc_fs::reads_session(stat, pid, session) {
                assert(ids.contains(pid));
                let k = choose|k: int| 0 <= k < ids.len() && ids[k] == pid;
                assert(crate::linux::proc_fs::reads_session(stat, ids[k], sessions[k]));
                assert(sessions[k] == Some(id));
            }
        }
    }
}

/// Where the files do not change, every process of a session has the same session.
pub proof fn members_share_their_session<E, F, S>(
    entries: E,
    entries_again: F,
    stat: S,
    listed: Set<u32>,
    child_pid: u32,
    pids: Seq<u32>,
    member: u32,
    member_pids: Seq<u32>,
) where
    E: FnOnce() -> Vec<Option<String>>,
    F: FnOnce() -> Vec<Option<String>>,
    S: Fn(u32) -> Option<String>,

    requires
        sessions_are_steady(stat),
        entries_are_steady(entries, listed),
        entries_are_steady(entries_again, listed),
        is_session_listing(entries, stat, child_pid, pids),
        pids.contains(member),
        is_session_listing(entries_again, stat, member, member_pids),
    ensures
        forall|pid: u32| #[trigger] member_pids.contains(pid) <==> pids.contains(pid),
        member_pids.len() == pids.len(),
{
    let session = choose|session: Option<i32>| #[trigger]
        crate::linux::proc_fs::reads_session(stat, child_pid, session) && match session {
            Some(session) => lists_session(entries, stat, session, pids),
            None => pids.len() == 0,
        };
    sessions_are_listed_whole(entries, stat, listed, child_pid, session, pids);
    assert(crate::linux::proc_fs::reads_session(stat, member, session));
    sessions_are_listed_whole(entries_again, stat, listed, member, session, member_pids);
    pids.unique_seq_to_set();
    member_pids.unique_seq_to_set();
    assert(pids.to_set() =~= member_pids.to_set());
}

// ---------------------------------------------------------------------------
// Signals
// ---------------------------------------------------------------------------

/// The kernel's signed id with the bits of `pid`.
pub open spec fn kernel_pid(pid: u32) -> int {
    if pid <= i32::MAX {
        pid as int
    } else {
        pid - 0x1_0000_0000
    }
}

/// The kernel's signed id with the bits of `pid`.
fn to_kernel_pid(pid: u32) -> (id: i32)
    ensures
        id == kernel_pid(pid),
{
    assert(pid > 0x7fff_ffff ==> pid as i32 == pid - 0x1_0000_0000) by (bit_vector);
    pid as i32
}

/// The `kill` calls, as pairs of id and signal, that signal `pids`: one for each but 0.
pub open spec fn kill_calls(pids: Seq<u32>, signal: Signal) -> Seq<(i32, i32)>
    decreases pids.len(),
{
    if pids.len() == 0 {
        Seq::empty()
    } else if pids.last() == 0 {
        kill_calls(pids.drop_last(), signal)
    } else {
        kill_calls(pids.drop_last(), signal).push(
            (kernel_pid(pids.last()) as i32, crate::sys::signal_code(signal)),
        )
    }
}

/// The `kill` calls, as pairs of id and signal number, that signal `pids`.
pub fn signal_processes(pids: &[u32], signal: Signal) -> (calls: Vec<(i32, i32)>)
    ensures
        calls@ == kill_calls(pids@, signal),
{
    let number: i32 = signal_number(signal);
    let mut calls: Vec<(i32, i32)> = Vec::new();
    let mut i: usize = 0;
    assert(pids@.take(0) =~= Seq::<u32>::empty());
    while i < pids.len()
        invariant
            number == crate::sys::signal_code(signal),
            i <= pids@.len(),
            calls@ == kill_calls(pids@.take(i as int), signal),
        decreases pids@.len() - i,
    {
        assert(pids@.take(i + 1).drop_last() =~= pids@.take(i as int));
        let pid: u32 = pids[i];
        if pid != 0 {
            calls.push((to_kernel_pid(pid), number));
        }
        i = i + 1;
    }
    assert(pids@.take(i as int) =~= pids@);
    calls
}

/// No signal goes to id 0, the caller's own group, and none of ids in the kernel's range goes to a
/// group at all.
pub proof fn signals_spare_the_callers_group(pids: Seq<u32>, signal: Signal)
    ensures
        forall|i: int| 0 <= i < kill_calls(pids, signal).len() ==> (#[trigger] kill_calls(
            pids,
            signal,
        )[i]).0 != 0,
        (forall|k: int| 0 <= k < pids.len() ==> #[trigger] pids[k] <= i32::MAX) ==> forall|i: int|
            0 <= i < kill_calls(pids, signal).len() ==> (#[trigger] kill_calls(pids, signal)[i]).0
                > 0,
    decreases pids.len(),
{
    if pids.len() > 0 {
        let short = pids.drop_last();
        signals_spare_the_callers_group(short, signal);
        let before = kill_calls(short, signal);
        let calls = kill_calls(pids, signal);
        let small = forall|k: int| 0 <= k < pids.len() ==> #[trigger] pids[k] <= i32::MAX;
        assert(small ==> pids[pids.len() - 1] <= i32::MAX);
        assert forall|i: int| 0 <= i < calls.len() implies (#[trigger] calls[i]).0 != 0 && (small
            ==> calls[i].0 > 0) by {
            if i < before.len() {
                assert(calls[i] == before[i]);
            }
        }
    }
}

/// Whether a process exists, as a probe with signal 0 tells; id 0 is never probed.
pub fn process_exists<P>(pid: u32, probe: P) -> (exists: bool) where
    P: FnOnce(i32) -> Result<(), Option<i32>>,

    requires
        pid != 0 ==> call_requires(probe, (kernel_pid(pid) as i32,)),
    ensures
        pid == 0 ==> !exists,
        pid != 0 ==> exists|probed: Result<(), Option<i32>>| #[trigger]
            call_ensures(probe, (kernel_pid(pid) as i32,), probed) && exists
                == crate::sys::probe_shows_process(probed),
{
    if pid == 0 {
        return false;
    }
    probe_found_process(probe(to_kernel_pid(pid)))
}

// ---------------------------------------------------------------------------
// Single facts
// ---------------------------------------------------------------------------

/// The working directory of a process, which `read_link` reads; id 0 has none.
pub fn process_cwd<D, R>(pid: u32, read_link: R) -> (cwd: Option<D>) where
    R: FnOnce(u32) -> Option<D>,

    requires
        pid != 0 ==> call_requires(read_link, (pid,)),
    ensures
        pid == 0 ==> cwd is None,
        pid != 0 ==> call_ensures(read_link, (pid,), cwd),
{
    if pid == 0 {
        return None;
    }
    read_link(pid)
}

/// The agent that a process names in its environment, which `environ` reads and `parse` looks
/// through; id 0 has none.
pub fn process_agent_hint<G, E, P>(pid: u32, environ: E, parse: P) -> (agent: Option<G>) where
    E: FnOnce(u32) -> Option<Vec<u8>>,
    P: FnOnce(Vec<u8>) -> Option<G>,

    requires
        pid != 0 ==> call_requires(environ, (pid,)),
        forall|bytes: Vec<u8>| call_requires(parse, (bytes,)),
    ensures
        pid == 0 ==> agent is None,
        pid != 0 ==> exists|bytes: Option<Vec<u8>>| #[trigger]
            call_ensures(environ, (pid,), bytes) && match bytes {
                Some(bytes) => call_ensures(parse, (bytes,), agent),
                None => agent is None,
            },
{
    if pid == 0 {
        return None;
    }
    let read: Option<Vec<u8>> = environ(pid);
    let ghost bytes = read;
    assert(call_ensures(environ, (pid,), bytes));
    match read {
        Some(bytes) => parse(bytes),
        None => None,
    }
}

/// The kernel's id is the number itself, up to the width of the kernel's ids, and fits them.
pub proof fn kernel_ids_keep_the_bits(pid: u32)
    ensures
        i32::MIN <= kernel_pid(pid) <= i32::MAX,
        (pid - kernel_pid(pid)) % 0x1_0000_0000 == 0,
{
}

/// Every process is signalled, once for each time that it is named, in order, with the signal that
/// was asked for; only the number 0 is passed over.
pub proof fn every_process_is_signalled(one: Seq<u32>, other: Seq<u32>, pid: u32, signal: Signal)
    ensures
        kill_calls(one + other, signal) == kill_calls(one, signal) + kill_calls(other, signal),
        pid >= 1 ==> kill_calls(seq![pid], signal) == seq![
            (
                (if pid <= 0x7fff_ffff {
                    pid as int
                } else {
                    pid - 0x1_0000_0000
                }) as i32,
                if signal == Signal::Hangup {
                    1i32
                } else if signal == Signal::Terminate {
                    15i32
                } else {
                    9i32
                },
            ),
        ],
        pid == 0 ==> kill_calls(seq![pid], signal).len() == 0,
    decreases other.len(),
{
    reveal_with_fuel(kill_calls, 2);
    assert(seq![pid].drop_last() =~= Seq::empty());
    assert(seq![pid].last() == pid);
    if pid >= 1 {
        assert(kill_calls(seq![pid], signal) =~= seq![
            (kernel_pid(pid) as i32, crate::sys::signal_code(signal)),
        ]);
    }
    if other.len() == 0 {
        assert(one + other =~= one);
        assert(kill_calls(one, signal) + kill_calls(other, signal) =~= kill_calls(one, signal));
    } else {
        every_process_is_signalled(one, other.drop_last(), pid, signal);
        assert((one + other).drop_last() =~= one + other.drop_last());
        assert((one + other).last() == other.last());
        assert(kill_calls(one + other, signal) =~= kill_calls(one, signal) + kill_calls(
            other,
            signal,
        ));
    }
}

/// The processes of a session are told apart one by one, and stay in the order in which they were
/// listed.
pub proof fn sessions_keep_the_order(
    one: Seq<u32>,
    one_sessions: Seq<Option<i32>>,
    other: Seq<u32>,
    other_sessions: Seq<Option<i32>>,
    session: i32,
)
    requires
        one_sessions.len() == one.len(),
        other_sessions.len() == other.len(),
    ensures
        in_session(one + other, one_sessions + other_sessions, session) == in_session(
            one,
            one_sessions,
            session,
        ) + in_session(other, other_sessions, session),
        one.len() == 1 ==> in_session(one, one_sessions, session) == (if one_sessions[0] == Some(
            session,
        ) {
            one
        } else {
            Seq::empty()
        }),
    decreases other.len(),
{
    reveal_with_fuel(in_session, 2);
    if one.len() == 1 {
        assert(one.drop_last() =~= Seq::empty());
        assert(in_session(one, one_sessions, session) =~= if one_sessions[0] == Some(session) {
            one
        } else {
            Seq::empty()
        });
    }
    if other.len() == 0 {
        assert(one + other =~= one);
        assert(one_sessions + other_sessions =~= one_sessions);
        assert(in_session(one, one_sessions, session) + in_session(
            other,
            other_sessions,
            session,
        ) =~= in_session(one, one_sessions, session));
    } else {
        sessions_keep_the_order(
            one,
            one_sessions,
            other.drop_last(),
            other_sessions.drop_last(),
            session,
        );
        assert((one + other).drop_last() =~= one + other.drop_last());
        assert((one_sessions + other_sessions).drop_last() =~= one_sessions
            + other_sessions.drop_last());
        assert((one_sessions + other_sessions).last() == other_sessions.last());
        assert(in_session(one + other, one_sessions + other_sessions, session) =~= in_session(
            one,
            one_sessions,
            session,
        ) + in_session(other, other_sessions, session));
    }
}

} // verus!
