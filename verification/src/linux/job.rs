//! Foreground jobs put together from the files of `/proc`.
use crate::linux::environment::ProcessDetectionMode;
use crate::linux::groups::child_groups_foreground_process_group_with;
use crate::linux::members::{foreground_process_group_members_with, ProcGroupMember};
use crate::linux::proc_fs::{
    foreground_process_group_id, live_process_group_member, process_pgrp_and_comm,
    read_task_children, read_task_ids, ProcFs,
};
use crate::linux::stat::process_argv;
use crate::process::{cmdline_of, ForegroundJob, ForegroundProcess};
use vstd::prelude::*;

verus! {

// ---------------------------------------------------------------------------
// From single files to the process tree
// ---------------------------------------------------------------------------

/// A walk whose closures answer what the files say is a walk through the files.
proof fn lemma_walk_reads_files<T, C, N, K>(
    task_ids: T,
    task_children: C,
    names: N,
    children: K,
    roots: Seq<u32>,
    pids: Seq<u32>,
) where
    T: FnMut(u32) -> Vec<u32>,
    C: FnMut(u32, u32) -> Vec<u32>,
    N: Fn(u32) -> Vec<Option<String>>,
    K: Fn(u32, u32) -> Option<String>,

    requires
        forall|pid: u32, ids: Vec<u32>| #[trigger]
            call_ensures(task_ids, (pid,), ids) ==> crate::linux::proc_fs::reads_task_ids(names, pid, ids@),
        forall|pid: u32, tid: u32, ids: Vec<u32>| #[trigger]
            call_ensures(task_children, (pid, tid), ids) ==> crate::linux::proc_fs::reads_task_children(
                children,
                pid,
                tid,
                ids@,
            ),
        crate::linux::tree::walked_tree(task_ids, task_children, roots, pids),
    ensures
        crate::linux::proc_fs::reads_tree(names, children, roots, pids),
{
    let reports = choose|reports: Seq<Seq<u32>>|
        {
            &&& #[trigger] crate::linux::tree::is_tree_walk(roots, reports, pids)
            &&& forall|k: int|
                0 <= k < pids.len() ==> crate::linux::tree::reported_children(
                    task_ids,
                    task_children,
                    pids[k],
                    #[trigger] reports[k],
                )
        };
    assert forall|k: int| 0 <= k < pids.len() implies crate::linux::proc_fs::reads_children(
        names,
        children,
        pids[k],
        #[trigger] reports[k],
    ) by {
        let pid = pids[k];
        assert(crate::linux::tree::reported_children(task_ids, task_children, pid, reports[k]));
        let (tids, lists) = choose|tids: Vec<u32>, lists: Seq<Vec<u32>>|
            #[trigger] crate::linux::tree::task_answers(task_ids, task_children, pid, tids, lists)
                && reports[k] == crate::linux::tree::id_lists(lists).flatten();
        let ids = crate::linux::tree::id_lists(lists);
        assert forall|j: int| 0 <= j < ids.len() implies crate::linux::proc_fs::reads_task_children(
            children,
            pid,
            tids@[j],
            #[trigger] ids[j],
        ) by {
            assert(call_ensures(task_children, (pid, tids@[j]), lists[j]));
        }
        assert(crate::linux::proc_fs::reads_tasks(names, children, pid, tids@, ids));
    }
    assert(crate::linux::tree::is_tree_walk(roots, reports, pids));
}

/// What `present` keeps: exactly the values that are there.
proof fn lemma_present<M>(answers: Seq<Option<M>>)
    ensures
        forall|value: M| #[trigger]
            crate::process::present(answers).contains(value) <==> answers.contains(Some(value)),
    decreases answers.len(),
{
    if answers.len() > 0 {
        let short = answers.drop_last();
        lemma_present(short);
        assert forall|value: M| #[trigger]
            crate::process::present(answers).contains(value) <==> answers.contains(Some(value)) by {
            if answers.contains(Some(value)) {
                let i = choose|i: int| 0 <= i < answers.len() && answers[i] == Some(value);
                if i < short.len() {
                    assert(short[i] == Some(value));
                    assert(crate::process::present(short).contains(value));
                    let k = choose|k: int|
                        0 <= k < crate::process::present(short).len() && crate::process::present(short)[k] == value;
                    assert(crate::process::present(answers)[k] == value);
                } else {
                    assert(crate::process::present(answers).last() == value);
                }
            }
            if crate::process::present(answers).contains(value) {
                let k = choose|k: int|
                    0 <= k < crate::process::present(answers).len() && crate::process::present(answers)[k] == value;
                if k < crate::process::present(short).len() {
                    assert(crate::process::present(short)[k] == value);
                    assert(crate::process::present(short).contains(value));
                    let i = choose|i: int| 0 <= i < short.len() && short[i] == Some(value);
                    assert(answers[i] == Some(value));
                } else {
                    assert(answers[answers.len() - 1] == Some(value));
                }
            }
        }
    }
}

/// Distinct values stay distinct.
proof fn lemma_present_distinct(pids: Seq<u32>, answers: Seq<Option<ProcGroupMember>>)
    requires
        pids.no_duplicates(),
        answers.len() == pids.len(),
        forall|k: int|
            0 <= k < answers.len() && #[trigger] answers[k] is Some ==> answers[k]->0.pid
                == pids[k],
    ensures
        crate::process::present(answers).no_duplicates(),
    decreases answers.len(),
{
    if answers.len() > 0 {
        let short = answers.drop_last();
        let fewer = pids.drop_last();
        assert forall|k: int| 0 <= k < short.len() && #[trigger] short[k] is Some implies short[k]->0.pid
            == fewer[k] by {
            assert(short[k] == answers[k]);
        }
        lemma_present_distinct(fewer, short);
        lemma_present(short);
        if answers.last() is Some {
            let value = answers.last()->0;
            if crate::process::present(short).contains(value) {
                let i = choose|i: int| 0 <= i < short.len() && short[i] == Some(value);
                assert(answers[i] == Some(value));
                assert(pids[i] == pids[pids.len() - 1]);
            }
        }
    }
}

/// The members as plain values.
pub open spec fn member_views(members: Seq<ProcGroupMember>) -> Seq<(u32, Seq<char>)> {
    Seq::new(members.len(), |i: int| (members[i].pid, members[i].comm@))
}

/// The members of a list that may be missing.
pub open spec fn listed(members: Option<Vec<ProcGroupMember>>) -> Seq<ProcGroupMember> {
    match members {
        Some(members) => members@,
        None => Seq::empty(),
    }
}

/// An ascending list of what distinct processes answered lists each of them once.
proof fn lemma_member_list(
    pids: Seq<u32>,
    answers: Seq<Option<ProcGroupMember>>,
    names: Seq<Option<Seq<char>>>,
    members: Seq<ProcGroupMember>,
)
    requires
        pids.no_duplicates(),
        answers.len() == pids.len(),
        names.len() == pids.len(),
        forall|k: int|
            0 <= k < answers.len() && #[trigger] answers[k] is Some ==> answers[k]->0.pid
                == pids[k],
        forall|k: int|
            0 <= k < names.len() ==> #[trigger] names[k] == match answers[k] {
                Some(member) => Some(member.comm@),
                None => None,
            },
        crate::linux::members::sorted_by_pid(members),
        members.to_multiset() == crate::process::present(answers).to_multiset(),
    ensures
        crate::linux::proc_fs::is_member_list(pids, names, member_views(members)),
{
    let kept = crate::process::present(answers);
    let views = member_views(members);
    lemma_present(answers);
    lemma_present_distinct(pids, answers);
    kept.lemma_multiset_has_no_duplicates();
    members.lemma_multiset_has_no_duplicates_conv();
    assert forall|member: ProcGroupMember| members.contains(member) <==> #[trigger] answers.contains(
        Some(member),
    ) by {
        vstd::seq_lib::to_multiset_contains(members, member);
        vstd::seq_lib::to_multiset_contains(kept, member);
        assert(kept.contains(member) <==> answers.contains(Some(member)));
    }
    assert forall|i: int, j: int| 0 <= i < j < views.len() implies views[i].0 < views[j].0 by {
        assert(members[i].pid <= members[j].pid);
        if members[i].pid == members[j].pid {
            assert(members.contains(members[i]));
            assert(members.contains(members[j]));
            assert(answers.contains(Some(members[i])));
            assert(answers.contains(Some(members[j])));
            let a = choose|a: int| 0 <= a < answers.len() && answers[a] == Some(members[i]);
            let b = choose|b: int| 0 <= b < answers.len() && answers[b] == Some(members[j]);
            assert(answers[a] is Some && answers[b] is Some);
            assert(pids[a] == pids[b]);
            assert(a == b);
            assert(members[i] == members[j]);
        }
    }
    assert forall|i: int| 0 <= i < views.len() implies crate::linux::proc_fs::is_named(
        pids,
        names,
        #[trigger] views[i],
    ) by {
        assert(members.contains(members[i]));
        assert(answers.contains(Some(members[i])));
        let k = choose|k: int| 0 <= k < answers.len() && answers[k] == Some(members[i]);
        assert(answers[k] is Some);
        assert(names[k] == Some(views[i].1));
    }
    assert forall|k: int| 0 <= k < pids.len() && #[trigger] names[k] is Some implies views.contains(
        (pids[k], names[k]->0),
    ) by {
        let member = answers[k]->0;
        assert(answers[k] == Some(member));
        assert(answers.contains(Some(member)));
        assert(members.contains(member));
        let i = choose|i: int| 0 <= i < members.len() && members[i] == member;
        assert(views[i] == (pids[k], names[k]->0));
    }
}

/// The live members of `process_group_id` below the shell `child_pid` and below the group's
/// leader.
pub fn foreground_process_group_members<S, N, K, A>(
    child_pid: u32,
    process_group_id: u32,
    proc_fs: &ProcFs<S, N, K, A>,
) -> (members: Option<Vec<ProcGroupMember>>) where
    S: Fn(u32) -> Option<String>,
    N: Fn(u32) -> Vec<Option<String>>,
    K: Fn(u32, u32) -> Option<String>,
    A: Fn(u32) -> Option<Vec<u8>>,

    requires
        proc_fs.ready(),
    ensures
        exists|pids: Seq<u32>, names: Seq<Option<Seq<char>>>| #[trigger]
            crate::linux::proc_fs::reads_members(
                *proc_fs,
                child_pid,
                process_group_id,
                pids,
                names,
                member_views(listed(members)),
            ),
        members is Some ==> members->0@.len() > 0,
{
    let task_ids = |pid: u32| -> (ids: Vec<u32>)
        ensures
            crate::linux::proc_fs::reads_task_ids(proc_fs.task_names, pid, ids@),
        { read_task_ids(pid, &proc_fs.task_names) };
    let task_children = |pid: u32, tid: u32| -> (ids: Vec<u32>)
        ensures
            crate::linux::proc_fs::reads_task_children(proc_fs.task_children, pid, tid, ids@),
        { read_task_children(pid, tid, &proc_fs.task_children) };
    let live_member = |process_group_id: u32, pid: u32| -> (member: Option<ProcGroupMember>)
        ensures
            match member {
                Some(member) => member.pid == pid && crate::linux::proc_fs::reads_member(
                    proc_fs.stat,
                    process_group_id,
                    pid,
                    Some(member.comm@),
                ),
                None => crate::linux::proc_fs::reads_member(proc_fs.stat, process_group_id, pid, None),
            },
        { live_process_group_member(process_group_id, pid, &proc_fs.stat) };
    let members: Option<Vec<ProcGroupMember>> = foreground_process_group_members_with(
        child_pid,
        process_group_id,
        task_ids,
        task_children,
        live_member,
    );
    proof {
        let roots = seq![child_pid, process_group_id];
        let (pids, answers) = choose|pids: Seq<u32>, answers: Seq<Option<ProcGroupMember>>|
            #[trigger] crate::linux::members::is_member_search(
                task_ids,
                task_children,
                live_member,
                child_pid,
                process_group_id,
                pids,
                answers,
                members,
            );
        lemma_walk_reads_files(
            task_ids,
            task_children,
            proc_fs.task_names,
            proc_fs.task_children,
            roots,
            pids,
        );
        let reports = choose|reports: Seq<Seq<u32>>|
            {
                &&& #[trigger] crate::linux::tree::is_tree_walk(roots, reports, pids)
                &&& forall|k: int|
                    0 <= k < pids.len() ==> crate::linux::tree::reported_children(
                        task_ids,
                        task_children,
                        pids[k],
                        #[trigger] reports[k],
                    )
            };
        crate::linux::tree::walk_lists_each_process_once(roots, reports, pids);
        let names = Seq::new(
            pids.len(),
            |k: int|
                match answers[k] {
                    Some(member) => Some(member.comm@),
                    None => None,
                },
        );
        assert forall|k: int| 0 <= k < pids.len() implies crate::linux::proc_fs::reads_member(
            proc_fs.stat,
            process_group_id,
            pids[k],
            #[trigger] names[k],
        ) && (answers[k] is Some ==> answers[k]->0.pid == pids[k]) by {
            assert(call_ensures(live_member, (process_group_id, pids[k]), answers[k]));
        }
        let list = listed(members);
        if members is None {
            assert(crate::process::present(answers) =~= Seq::empty());
        }
        lemma_member_list(pids, answers, names, list);
        assert(crate::linux::proc_fs::reads_members(
            *proc_fs,
            child_pid,
            process_group_id,
            pids,
            names,
            member_views(list),
        ));
    }
    members
}

/// The process group of `pid`.
fn process_group_of<S>(pid: u32, stat: &S) -> (group: Option<i32>) where
    S: Fn(u32) -> Option<String>,

    requires
        call_requires(*stat, (pid,)),
    ensures
        crate::linux::proc_fs::reads_group(*stat, pid, group),
{
    match process_pgrp_and_comm(pid, stat) {
        Some((pgrp, comm)) => {
            assert(crate::linux::proc_fs::reads_group_and_name(*stat, pid, Some((pgrp, comm@))));
            Some(pgrp)
        },
        None => {
            assert(crate::linux::proc_fs::reads_group_and_name(*stat, pid, None));
            None
        },
    }
}

/// Best-effort foreground group for environments that do not expose terminal foreground groups.
/// Background jobs cannot be told from foreground jobs this way, so the mode is explicit.
pub fn child_groups_foreground_process_group<S, N, K, A>(
    child_pid: u32,
    proc_fs: &ProcFs<S, N, K, A>,
) -> (group: Option<u32>) where
    S: Fn(u32) -> Option<String>,
    N: Fn(u32) -> Vec<Option<String>>,
    K: Fn(u32, u32) -> Option<String>,
    A: Fn(u32) -> Option<Vec<u8>>,

    requires
        proc_fs.ready(),
    ensures
        crate::linux::proc_fs::reads_child_group(*proc_fs, child_pid, group),
{
    let shell: Option<i32> = process_group_of(child_pid, &proc_fs.stat);
    let shell_group_id: u32 = match shell {
        Some(pgrp) => if pgrp > 0 {
            pgrp as u32
        } else {
            return None;
        },
        None => {
            return None;
        },
    };
    let task_ids = |pid: u32| -> (ids: Vec<u32>)
        ensures
            crate::linux::proc_fs::reads_task_ids(proc_fs.task_names, pid, ids@),
        { read_task_ids(pid, &proc_fs.task_names) };
    let task_children = |pid: u32, tid: u32| -> (ids: Vec<u32>)
        ensures
            crate::linux::proc_fs::reads_task_children(proc_fs.task_children, pid, tid, ids@),
        { read_task_children(pid, tid, &proc_fs.task_children) };
    let process_group = |pid: u32| -> (group: Option<i32>)
        ensures
            crate::linux::proc_fs::reads_group(proc_fs.stat, pid, group),
        { process_group_of(pid, &proc_fs.stat) };
    let group: Option<u32> = child_groups_foreground_process_group_with(
        child_pid,
        shell_group_id,
        task_ids,
        task_children,
        process_group,
    );
    proof {
        let (tids, lists, groups) = choose|
            tids: Vec<u32>,
            lists: Seq<Vec<u32>>,
            groups: Seq<Option<i32>>,
        | #[trigger]
            crate::linux::groups::is_child_scan(
                task_ids,
                task_children,
                process_group,
                child_pid,
                shell_group_id,
                tids,
                lists,
                groups,
                group,
            );
        let ids = crate::linux::tree::id_lists(lists);
        assert forall|j: int| 0 <= j < ids.len() implies crate::linux::proc_fs::reads_task_children(
            proc_fs.task_children,
            child_pid,
            tids@[j],
            #[trigger] ids[j],
        ) by {
            assert(call_ensures(task_children, (child_pid, tids@[j]), lists[j]));
        }
        assert forall|i: int| 0 <= i < groups.len() implies crate::linux::proc_fs::reads_group(
            proc_fs.stat,
            ids.flatten()[i],
            #[trigger] groups[i],
        ) by {
            assert(call_ensures(process_group, (ids.flatten()[i],), groups[i]));
        }
        assert(crate::linux::proc_fs::reads_child_scan(
            *proc_fs,
            child_pid,
            shell_group_id,
            tids@,
            ids,
            groups,
            group,
        ));
    }
    group
}

/// The job of `process_group_id` below `child_pid`.
pub fn foreground_job_for_group<S, N, K, A>(
    child_pid: u32,
    process_group_id: u32,
    proc_fs: &ProcFs<S, N, K, A>,
) -> (job: Option<ForegroundJob>) where
    S: Fn(u32) -> Option<String>,
    N: Fn(u32) -> Vec<Option<String>>,
    K: Fn(u32, u32) -> Option<String>,
    A: Fn(u32) -> Option<Vec<u8>>,

    requires
        proc_fs.ready(),
    ensures
        crate::linux::proc_fs::reads_group_job(
            *proc_fs,
            child_pid,
            process_group_id,
            crate::process::optional_job(job),
        ),
{
    let found: Option<Vec<ProcGroupMember>> = foreground_process_group_members(
        child_pid,
        process_group_id,
        proc_fs,
    );
    let ghost views = member_views(listed(found));
    let ghost mut argvs: Seq<Option<Seq<Seq<char>>>> = Seq::empty();
    let members: Vec<ProcGroupMember> = match found {
        Some(members) => members,
        None => {
            proof {
                assert(views =~= Seq::empty());
                assert(crate::linux::proc_fs::reads_argvs(proc_fs.cmdline, views, argvs));
            }
            return None;
        },
    };
    let mut processes: Vec<ForegroundProcess> = Vec::new();
    let mut i: usize = 0;
    while i < members.len()
        invariant
            proc_fs.ready(),
            i <= members@.len(),
            views == member_views(members@),
            argvs.len() == i,
            processes@.len() == i,
            forall|k: int|
                0 <= k < i ==> crate::linux::proc_fs::reads_argv(proc_fs.cmdline, views[k].0, #[trigger] argvs[k]),
            forall|k: int|
                0 <= k < i ==> (#[trigger] processes@[k])@ == crate::linux::proc_fs::member_process(views[k], argvs[k]),
        decreases members@.len() - i,
    {
        let pid: u32 = members[i].pid;
        let bytes: Option<Vec<u8>> = (proc_fs.cmdline)(pid);
        let argv: Option<Vec<String>> = process_argv(&bytes);
        let cmdline: Option<String> = cmdline_of(&argv);
        proof {
            let argv_view = crate::process::optional_texts(argv);
            assert(argv_view == crate::linux::stat::cmdline_argv(bytes));
            assert(crate::linux::proc_fs::reads_argv(proc_fs.cmdline, views[i as int].0, argv_view));
            argvs = argvs.push(argv_view);
        }
        processes.push(
            ForegroundProcess { pid, name: members[i].comm.clone(), argv0: None, cmdline, argv },
        );
        i = i + 1;
    }
    let job = ForegroundJob { process_group_id, processes };
    proof {
        assert(crate::linux::proc_fs::reads_argvs(proc_fs.cmdline, views, argvs));
        assert(job@.processes =~= Seq::new(
            views.len(),
            |i: int| crate::linux::proc_fs::member_process(views[i], argvs[i]),
        ));
    }
    Some(job)
}

/// `job` is the foreground job of the terminal that `child_pid` runs in: the job of the terminal's
/// foreground group, or where the terminal has none, and only in the mode that allows it, the job
/// of the newest group among the children.
pub open spec fn reads_foreground_job<M, S, N, K, A>(
    detection_mode: M,
    proc_fs: ProcFs<S, N, K, A>,
    child_pid: u32,
    job: Option<crate::process::JobView>,
) -> bool where
    M: FnOnce() -> ProcessDetectionMode,
    S: Fn(u32) -> Option<String>,
    N: Fn(u32) -> Vec<Option<String>>,
    K: Fn(u32, u32) -> Option<String>,
    A: Fn(u32) -> Option<Vec<u8>>,
 {
    exists|native: Option<u32>| #[trigger]
        crate::linux::proc_fs::reads_foreground_group(proc_fs.stat, child_pid, native) && match native {
            Some(tpgid) => crate::linux::proc_fs::reads_group_job(proc_fs, child_pid, tpgid, job),
            None => {
                ||| call_ensures(detection_mode, (), ProcessDetectionMode::Native) && job is None
                ||| call_ensures(detection_mode, (), ProcessDetectionMode::ChildGroups)
                    && exists|group: Option<u32>| #[trigger]
                    crate::linux::proc_fs::reads_child_group(proc_fs, child_pid, group) && match group {
                        Some(group) => crate::linux::proc_fs::reads_group_job(proc_fs, child_pid, group, job),
                        None => job is None,
                    }
            },
        }
}

/// The foreground job of the terminal that `child_pid` runs in.
pub fn foreground_job<M, S, N, K, A>(
    child_pid: u32,
    detection_mode: M,
    proc_fs: &ProcFs<S, N, K, A>,
) -> (job: Option<ForegroundJob>) where
    M: FnOnce() -> ProcessDetectionMode,
    S: Fn(u32) -> Option<String>,
    N: Fn(u32) -> Vec<Option<String>>,
    K: Fn(u32, u32) -> Option<String>,
    A: Fn(u32) -> Option<Vec<u8>>,

    requires
        call_requires(detection_mode, ()),
        proc_fs.ready(),
    ensures
        reads_foreground_job(
            detection_mode,
            *proc_fs,
            child_pid,
            crate::process::optional_job(job),
        ),
{
    let native: Option<u32> = foreground_process_group_id(child_pid, &proc_fs.stat);
    match native {
        Some(tpgid) => {
            return foreground_job_for_group(child_pid, tpgid, proc_fs);
        },
        None => {},
    }
    match detection_mode() {
        ProcessDetectionMode::Native => None,
        ProcessDetectionMode::ChildGroups => {
            match child_groups_foreground_process_group(child_pid, proc_fs) {
                Some(group) => foreground_job_for_group(child_pid, group, proc_fs),
                None => {
                    assert(crate::linux::proc_fs::reads_child_group(*proc_fs, child_pid, None));
                    None
                },
            }
        },
    }
}

/// The shell that is free to take a command in the pane of `child_pid`, as `from_job` tells it from
/// the foreground job.
pub fn available_pane_shell<F, M, S, N, K, A>(
    child_pid: u32,
    from_job: F,
    detection_mode: M,
    proc_fs: &ProcFs<S, N, K, A>,
) -> (shell: Option<String>) where
    F: FnOnce(u32, ForegroundJob) -> Option<String>,
    M: FnOnce() -> ProcessDetectionMode,
    S: Fn(u32) -> Option<String>,
    N: Fn(u32) -> Vec<Option<String>>,
    K: Fn(u32, u32) -> Option<String>,
    A: Fn(u32) -> Option<Vec<u8>>,

    requires
        forall|job: ForegroundJob| call_requires(from_job, (child_pid, job)),
        call_requires(detection_mode, ()),
        proc_fs.ready(),
    ensures
        exists|job: Option<ForegroundJob>|
            reads_foreground_job(
                detection_mode,
                *proc_fs,
                child_pid,
                #[trigger] crate::process::optional_job(job),
            ) && match job {
                Some(job) => call_ensures(from_job, (child_pid, job), shell),
                None => shell is None,
            },
{
    let found: Option<ForegroundJob> = foreground_job(child_pid, detection_mode, proc_fs);
    let ghost job = found;
    assert(reads_foreground_job(
        detection_mode,
        *proc_fs,
        child_pid,
        crate::process::optional_job(job),
    ));
    match found {
        Some(job) => from_job(child_pid, job),
        None => None,
    }
}

/// The `u32` with the bits of `value`.
pub open spec fn unsigned_bits(value: i32) -> int {
    if value >= 0 {
        value as int
    } else {
        value + 0x1_0000_0000
    }
}

/// The job that the leader of `process_group_id` alone makes up, if the process of that id leads
/// its group.
pub open spec fn leader_job(
    process_group_id: u32,
    found: Option<(i32, Seq<char>)>,
    argv: Option<Seq<Seq<char>>>,
) -> Option<crate::process::JobView> {
    match found {
        Some((pgrp, name)) => if unsigned_bits(pgrp) == process_group_id {
            Some(
                crate::process::JobView {
                    process_group_id,
                    processes: seq![crate::linux::proc_fs::member_process((process_group_id, name), argv)],
                },
            )
        } else {
            None
        },
        None => None,
    }
}

/// The job that the leader of `process_group_id` alone makes up.
pub fn foreground_group_leader_job<S, A>(
    process_group_id: u32,
    stat: &S,
    cmdline: &A,
) -> (job: Option<ForegroundJob>) where
    S: Fn(u32) -> Option<String>,
    A: Fn(u32) -> Option<Vec<u8>>,

    requires
        call_requires(*stat, (process_group_id,)),
        call_requires(*cmdline, (process_group_id,)),
    ensures
        exists|found: Option<(i32, Seq<char>)>|
            {
                &&& #[trigger] crate::linux::proc_fs::reads_group_and_name(*stat, process_group_id, found)
                &&& leader_job(process_group_id, found, None) is None ==> job is None
                &&& leader_job(process_group_id, found, None) is Some ==> exists|
                    argv: Option<Seq<Seq<char>>>,
                | #[trigger]
                    crate::linux::proc_fs::reads_argv(*cmdline, process_group_id, argv) && crate::process::optional_job(
                        job,
                    ) == leader_job(process_group_id, found, argv)
            },
{
    let (pgrp, name): (i32, String) = match process_pgrp_and_comm(process_group_id, stat) {
        Some(found) => found,
        None => {
            assert(crate::linux::proc_fs::reads_group_and_name(*stat, process_group_id, None));
            return None;
        },
    };
    let ghost name_text = name@;
    let ghost found = Some((pgrp, name_text));
    assert(crate::linux::proc_fs::reads_group_and_name(*stat, process_group_id, found));
    assert(pgrp < 0 ==> pgrp as u32 == pgrp + 0x1_0000_0000) by (bit_vector);
    if pgrp as u32 != process_group_id {
        return None;
    }
    let bytes: Option<Vec<u8>> = cmdline(process_group_id);
    let argv: Option<Vec<String>> = process_argv(&bytes);
    let cmdline_text: Option<String> = cmdline_of(&argv);
    let ghost argv_view = crate::process::optional_texts(argv);
    assert(crate::linux::proc_fs::reads_argv(*cmdline, process_group_id, argv_view));
    let process = ForegroundProcess {
        pid: process_group_id,
        name,
        argv0: None,
        cmdline: cmdline_text,
        argv,
    };
    let mut processes: Vec<ForegroundProcess> = Vec::new();
    processes.push(process);
    let job = ForegroundJob { process_group_id, processes };
    assert(job@.processes =~= seq![crate::linux::proc_fs::member_process((process_group_id, name_text), argv_view)]);
    Some(job)
}

/// The job of a leader is there exactly where the process leads its group, up to the width of the
/// kernel's ids, and consists of that process with its name and arguments.
pub proof fn leaders_lead_their_group(
    process_group_id: u32,
    pgrp: i32,
    name: Seq<char>,
    argv: Option<Seq<Seq<char>>>,
)
    ensures
        leader_job(process_group_id, None, argv) is None,
        leader_job(process_group_id, Some((pgrp, name)), argv) is Some <==> (process_group_id
            - pgrp) % 0x1_0000_0000 == 0,
        leader_job(process_group_id, Some((pgrp, name)), argv) matches Some(job) ==> {
            &&& job.process_group_id == process_group_id
            &&& job.processes.len() == 1
            &&& job.processes[0].pid == process_group_id
            &&& job.processes[0].name == name
            &&& job.processes[0].argv == argv
            &&& job.processes[0].argv0 is None
            &&& job.processes[0].cmdline is Some <==> argv is Some
            &&& argv is Some ==> job.processes[0].cmdline == Some(crate::text::spaced(argv->0))
        },
{
}

/// The plain values of members are those of each, none left out.
pub proof fn every_member_is_there(members: Vec<ProcGroupMember>)
    ensures
        listed(Some(members)) == members@,
        listed(None).len() == 0,
        member_views(members@).len() == members@.len(),
        forall|i: int|
            0 <= i < members@.len() ==> #[trigger] member_views(members@)[i] == (
                members@[i].pid,
                members@[i].comm@,
            ),
{
}

} // verus!
