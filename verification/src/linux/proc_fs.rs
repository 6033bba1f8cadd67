//! What the files of `/proc` say, one by one and together.
use crate::linux::members::ProcGroupMember;
use crate::linux::stat::{
    foreground_group_from_stat, process_pgrp_and_comm_from_stat, process_task_children,
    process_task_ids, session_from_stat,
};
use vstd::prelude::*;

verus! {

/// Readers for the files of `/proc`: the text of `<pid>/stat`, the entry names of `<pid>/task`
/// (`None` for a name that is not text), the text of `<pid>/task/<tid>/children` and the bytes of
/// `<pid>/cmdline`.
pub struct ProcFs<S, N, K, A> {
    pub stat: S,
    pub task_names: N,
    pub task_children: K,
    pub cmdline: A,
}

// ---------------------------------------------------------------------------
// What the readers say
// ---------------------------------------------------------------------------

/// The process group and name in the text of a `stat` file, where there is one.
pub open spec fn text_group_and_name(text: Option<String>) -> Option<(i32, Seq<char>)> {
    match text {
        Some(text) => crate::linux::stat::stat_group_and_name(text@),
        None => None,
    }
}

/// `found` is the process group and name that the `stat` file of `pid` gave.
pub open spec fn reads_group_and_name<S>(
    stat: S,
    pid: u32,
    found: Option<(i32, Seq<char>)>,
) -> bool where S: Fn(u32) -> Option<String> {
    exists|text: Option<String>| #[trigger]
        call_ensures(stat, (pid,), text) && found == text_group_and_name(text)
}

/// `group` is the terminal foreground group that the `stat` file of `pid` gave.
pub open spec fn reads_foreground_group<S>(stat: S, pid: u32, group: Option<u32>) -> bool where
    S: Fn(u32) -> Option<String>,
 {
    exists|text: Option<String>| #[trigger]
        call_ensures(stat, (pid,), text) && group == match text {
            Some(text) => crate::linux::stat::stat_foreground_group(text@),
            None => None,
        }
}

/// `session` is the session id that the `stat` file of `pid` gave.
pub open spec fn reads_session<S>(stat: S, pid: u32, session: Option<i32>) -> bool where
    S: Fn(u32) -> Option<String>,
 {
    exists|text: Option<String>| #[trigger]
        call_ensures(stat, (pid,), text) && session == match text {
            Some(text) => crate::linux::stat::stat_number(text@, 3),
            None => None,
        }
}

/// `argv` is the argument vector that the `cmdline` file of `pid` gave.
pub open spec fn reads_argv<A>(cmdline: A, pid: u32, argv: Option<Seq<Seq<char>>>) -> bool where
    A: Fn(u32) -> Option<Vec<u8>>,
 {
    exists|bytes: Option<Vec<u8>>| #[trigger]
        call_ensures(cmdline, (pid,), bytes) && argv == crate::linux::stat::cmdline_argv(bytes)
}

/// `ids` are the task ids that the task directory of `pid` gave.
pub open spec fn reads_task_ids<N>(task_names: N, pid: u32, ids: Seq<u32>) -> bool where
    N: Fn(u32) -> Vec<Option<String>>,
 {
    exists|names: Vec<Option<String>>| #[trigger]
        call_ensures(task_names, (pid,), names) && ids == crate::linux::stat::entry_ids(names@)
}

/// `ids` are the children that the `children` file of task `tid` of `pid` gave.
pub open spec fn reads_task_children<K>(
    task_children: K,
    pid: u32,
    tid: u32,
    ids: Seq<u32>,
) -> bool where K: Fn(u32, u32) -> Option<String> {
    exists|text: Option<String>| #[trigger]
        call_ensures(task_children, (pid, tid), text) && ids == crate::linux::stat::children_ids(
            text,
        )
}

/// `tids` and `lists` are the tasks of `pid` and the children of each.
pub open spec fn reads_tasks<N, K>(
    task_names: N,
    task_children: K,
    pid: u32,
    tids: Seq<u32>,
    lists: Seq<Seq<u32>>,
) -> bool where N: Fn(u32) -> Vec<Option<String>>, K: Fn(u32, u32) -> Option<String> {
    &&& reads_task_ids(task_names, pid, tids)
    &&& lists.len() == tids.len()
    &&& forall|j: int|
        0 <= j < lists.len() ==> reads_task_children(
            task_children,
            pid,
            tids[j],
            #[trigger] lists[j],
        )
}

/// `children` are the children of `pid`, task after task.
pub open spec fn reads_children<N, K>(
    task_names: N,
    task_children: K,
    pid: u32,
    children: Seq<u32>,
) -> bool where N: Fn(u32) -> Vec<Option<String>>, K: Fn(u32, u32) -> Option<String> {
    exists|tids: Seq<u32>, lists: Seq<Seq<u32>>|
        #[trigger] reads_tasks(task_names, task_children, pid, tids, lists) && children
            == lists.flatten()
}

/// `pids` is the walk from `roots` through the children that the files gave.
pub open spec fn reads_tree<N, K>(
    task_names: N,
    task_children: K,
    roots: Seq<u32>,
    pids: Seq<u32>,
) -> bool where N: Fn(u32) -> Vec<Option<String>>, K: Fn(u32, u32) -> Option<String> {
    exists|reports: Seq<Seq<u32>>|
        {
            &&& #[trigger] crate::linux::tree::is_tree_walk(roots, reports, pids)
            &&& forall|k: int|
                0 <= k < pids.len() ==> reads_children(
                    task_names,
                    task_children,
                    pids[k],
                    #[trigger] reports[k],
                )
        }
}

/// The name of a process found in `process_group_id`.
pub open spec fn name_in_group(
    process_group_id: u32,
    found: Option<(i32, Seq<char>)>,
) -> Option<Seq<char>> {
    match found {
        Some((pgrp, name)) => if pgrp > 0 && pgrp == process_group_id {
            Some(name)
        } else {
            None
        },
        None => None,
    }
}

/// `name` is the name of `pid` if its `stat` file puts it in `process_group_id`.
pub open spec fn reads_member<S>(
    stat: S,
    process_group_id: u32,
    pid: u32,
    name: Option<Seq<char>>,
) -> bool where S: Fn(u32) -> Option<String> {
    exists|found: Option<(i32, Seq<char>)>| #[trigger]
        reads_group_and_name(stat, pid, found) && name == name_in_group(process_group_id, found)
}

/// One of the processes is `member.0` and has the name `member.1`.
pub open spec fn is_named(
    pids: Seq<u32>,
    names: Seq<Option<Seq<char>>>,
    member: (u32, Seq<char>),
) -> bool {
    exists|k: int|
        0 <= k < pids.len() && pids[k] == member.0 && #[trigger] names[k] == Some(member.1)
}

/// `members` lists, in strictly ascending order, exactly the processes that have a name.
pub open spec fn is_member_list(
    pids: Seq<u32>,
    names: Seq<Option<Seq<char>>>,
    members: Seq<(u32, Seq<char>)>,
) -> bool {
    &&& forall|i: int, j: int| 0 <= i < j < members.len() ==> members[i].0 < members[j].0
    &&& forall|i: int|
        0 <= i < members.len() ==> is_named(pids, names, #[trigger] members[i])
    &&& forall|k: int|
        0 <= k < pids.len() && #[trigger] names[k] is Some ==> members.contains(
            (pids[k], names[k]->0),
        )
}

/// `members` are the processes of `process_group_id` among those below `child_pid` and below the
/// group's leader.
pub open spec fn reads_members<S, N, K, A>(
    proc_fs: ProcFs<S, N, K, A>,
    child_pid: u32,
    process_group_id: u32,
    pids: Seq<u32>,
    names: Seq<Option<Seq<char>>>,
    members: Seq<(u32, Seq<char>)>,
) -> bool where
    S: Fn(u32) -> Option<String>,
    N: Fn(u32) -> Vec<Option<String>>,
    K: Fn(u32, u32) -> Option<String>,
    A: Fn(u32) -> Option<Vec<u8>>,
 {
    &&& reads_tree(
        proc_fs.task_names,
        proc_fs.task_children,
        seq![child_pid, process_group_id],
        pids,
    )
    &&& names.len() == pids.len()
    &&& forall|k: int|
        0 <= k < pids.len() ==> reads_member(
            proc_fs.stat,
            process_group_id,
            pids[k],
            #[trigger] names[k],
        )
    &&& is_member_list(pids, names, members)
}

/// A process of a job, as its `stat` and `cmdline` files describe it.
pub open spec fn member_process(
    member: (u32, Seq<char>),
    argv: Option<Seq<Seq<char>>>,
) -> crate::process::ProcessView {
    crate::process::ProcessView {
        pid: member.0,
        name: member.1,
        argv0: None,
        cmdline: crate::process::argv_cmdline(argv),
        argv,
    }
}

/// The job that consists of `members`, if there are any.
pub open spec fn members_job(
    process_group_id: u32,
    members: Seq<(u32, Seq<char>)>,
    argvs: Seq<Option<Seq<Seq<char>>>>,
) -> Option<crate::process::JobView> {
    if members.len() == 0 {
        None
    } else {
        Some(
            crate::process::JobView {
                process_group_id,
                processes: Seq::new(members.len(), |i: int| member_process(members[i], argvs[i])),
            },
        )
    }
}

/// `argvs` are the argument vectors that the `cmdline` files of `members` gave.
pub open spec fn reads_argvs<A>(
    cmdline: A,
    members: Seq<(u32, Seq<char>)>,
    argvs: Seq<Option<Seq<Seq<char>>>>,
) -> bool where A: Fn(u32) -> Option<Vec<u8>> {
    &&& argvs.len() == members.len()
    &&& forall|i: int|
        0 <= i < members.len() ==> reads_argv(cmdline, members[i].0, #[trigger] argvs[i])
}

/// `job` is the job of `process_group_id` below `child_pid`.
pub open spec fn reads_group_job<S, N, K, A>(
    proc_fs: ProcFs<S, N, K, A>,
    child_pid: u32,
    process_group_id: u32,
    job: Option<crate::process::JobView>,
) -> bool where
    S: Fn(u32) -> Option<String>,
    N: Fn(u32) -> Vec<Option<String>>,
    K: Fn(u32, u32) -> Option<String>,
    A: Fn(u32) -> Option<Vec<u8>>,
 {
    exists|
        pids: Seq<u32>,
        names: Seq<Option<Seq<char>>>,
        members: Seq<(u32, Seq<char>)>,
        argvs: Seq<Option<Seq<Seq<char>>>>,
    |
        {
            &&& #[trigger] reads_members(proc_fs, child_pid, process_group_id, pids, names, members)
            &&& #[trigger] reads_argvs(proc_fs.cmdline, members, argvs)
            &&& job == members_job(process_group_id, members, argvs)
        }
}

/// `group` follows from a scan of the children of `child_pid` through the files.
pub open spec fn reads_child_scan<S, N, K, A>(
    proc_fs: ProcFs<S, N, K, A>,
    child_pid: u32,
    shell_group_id: u32,
    tids: Seq<u32>,
    lists: Seq<Seq<u32>>,
    groups: Seq<Option<i32>>,
    group: Option<u32>,
) -> bool where
    S: Fn(u32) -> Option<String>,
    N: Fn(u32) -> Vec<Option<String>>,
    K: Fn(u32, u32) -> Option<String>,
    A: Fn(u32) -> Option<Vec<u8>>,
 {
    &&& crate::linux::groups::is_scan_outcome(shell_group_id, tids.len(), lists, groups, group)
    &&& reads_task_ids(proc_fs.task_names, child_pid, tids)
    &&& forall|j: int|
        0 <= j < lists.len() ==> reads_task_children(
            proc_fs.task_children,
            child_pid,
            tids[j],
            #[trigger] lists[j],
        )
    &&& forall|i: int|
        0 <= i < groups.len() ==> reads_group(
            proc_fs.stat,
            lists.flatten()[i],
            #[trigger] groups[i],
        )
}

/// `group` is the process group that the `stat` file of `pid` gave.
pub open spec fn reads_group<S>(stat: S, pid: u32, group: Option<i32>) -> bool where
    S: Fn(u32) -> Option<String>,
 {
    exists|found: Option<(i32, Seq<char>)>| #[trigger]
        reads_group_and_name(stat, pid, found) && group == match found {
            Some((pgrp, _)) => Some(pgrp),
            None => None,
        }
}

/// `group` is the newest child group of the shell `child_pid`, whose own group is positive.
pub open spec fn reads_child_group<S, N, K, A>(
    proc_fs: ProcFs<S, N, K, A>,
    child_pid: u32,
    group: Option<u32>,
) -> bool where
    S: Fn(u32) -> Option<String>,
    N: Fn(u32) -> Vec<Option<String>>,
    K: Fn(u32, u32) -> Option<String>,
    A: Fn(u32) -> Option<Vec<u8>>,
 {
    exists|shell: Option<i32>|
        #[trigger] reads_group(proc_fs.stat, child_pid, shell) && if shell is Some && shell->0 > 0 {
            exists|tids: Seq<u32>, lists: Seq<Seq<u32>>, groups: Seq<Option<i32>>| #[trigger]
                reads_child_scan(
                    proc_fs,
                    child_pid,
                    shell->0 as u32,
                    tids,
                    lists,
                    groups,
                    group,
                )
        } else {
            group is None
        }
}

impl<S, N, K, A> ProcFs<S, N, K, A> where
    S: Fn(u32) -> Option<String>,
    N: Fn(u32) -> Vec<Option<String>>,
    K: Fn(u32, u32) -> Option<String>,
    A: Fn(u32) -> Option<Vec<u8>>,
 {
    /// The readers can be asked for every process.
    pub open spec fn ready(&self) -> bool {
        &&& forall|pid: u32| #[trigger] call_requires(self.stat, (pid,))
        &&& forall|pid: u32| #[trigger] call_requires(self.task_names, (pid,))
        &&& forall|pid: u32, tid: u32| #[trigger] call_requires(self.task_children, (pid, tid))
        &&& forall|pid: u32| #[trigger] call_requires(self.cmdline, (pid,))
    }
}

// ---------------------------------------------------------------------------
// Single files
// ---------------------------------------------------------------------------

/// The process group and name of `pid`.
pub fn process_pgrp_and_comm<S>(pid: u32, stat: &S) -> (found: Option<(i32, String)>) where
    S: Fn(u32) -> Option<String>,

    requires
        call_requires(*stat, (pid,)),
    ensures
        reads_group_and_name(
            *stat,
            pid,
            match found {
                Some((pgrp, comm)) => Some((pgrp, comm@)),
                None => None,
            },
        ),
{
    match stat(pid) {
        Some(text) => process_pgrp_and_comm_from_stat(text.as_str()),
        None => None,
    }
}

/// The foreground process group of the terminal that `child_pid` runs in.
pub fn foreground_process_group_id<S>(child_pid: u32, stat: &S) -> (group: Option<u32>) where
    S: Fn(u32) -> Option<String>,

    requires
        call_requires(*stat, (child_pid,)),
    ensures
        reads_foreground_group(*stat, child_pid, group),
{
    match stat(child_pid) {
        Some(text) => foreground_group_from_stat(text.as_str()),
        None => None,
    }
}

/// The session id of `pid`.
pub fn process_session_id<S>(pid: u32, stat: &S) -> (session: Option<i32>) where
    S: Fn(u32) -> Option<String>,

    requires
        call_requires(*stat, (pid,)),
    ensures
        reads_session(*stat, pid, session),
{
    match stat(pid) {
        Some(text) => session_from_stat(text.as_str()),
        None => None,
    }
}

/// The process `pid` if its `stat` file puts it in the positive group `process_group_id`.
pub fn live_process_group_member<S>(process_group_id: u32, pid: u32, stat: &S) -> (member: Option<
    ProcGroupMember,
>) where S: Fn(u32) -> Option<String>
    requires
        call_requires(*stat, (pid,)),
    ensures
        match member {
            Some(member) => member.pid == pid && reads_member(
                *stat,
                process_group_id,
                pid,
                Some(member.comm@),
            ),
            None => reads_member(*stat, process_group_id, pid, None),
        },
{
    match process_pgrp_and_comm(pid, stat) {
        Some((pgrp, comm)) => {
            assert(reads_group_and_name(*stat, pid, Some((pgrp, comm@))));
            if pgrp > 0 && pgrp as u32 == process_group_id {
                Some(ProcGroupMember { pid, comm })
            } else {
                None
            }
        },
        None => {
            assert(reads_group_and_name(*stat, pid, None));
            None
        },
    }
}

/// The task ids of `pid`.
pub(crate) fn read_task_ids<N>(pid: u32, task_names: &N) -> (ids: Vec<u32>) where
    N: Fn(u32) -> Vec<Option<String>>,

    requires
        call_requires(*task_names, (pid,)),
    ensures
        reads_task_ids(*task_names, pid, ids@),
{
    let names: Vec<Option<String>> = task_names(pid);
    process_task_ids(names.as_slice())
}

/// The children of the task `tid` of `pid`.
pub(crate) fn read_task_children<K>(pid: u32, tid: u32, task_children: &K) -> (ids: Vec<u32>) where
    K: Fn(u32, u32) -> Option<String>,

    requires
        call_requires(*task_children, (pid, tid)),
    ensures
        reads_task_children(*task_children, pid, tid, ids@),
{
    let text: Option<String> = task_children(pid, tid);
    process_task_children(&text)
}

} // verus!
