//! Where the files of `/proc` do not change, the foreground job is a function of them.
use crate::linux::environment::ProcessDetectionMode;
use crate::linux::proc_fs::ProcFs;
use vstd::prelude::*;

verus! {

/// The files say one thing only, however often they are read.
pub open spec fn is_snapshot<S, N, K, A>(proc_fs: ProcFs<S, N, K, A>) -> bool where
    S: Fn(u32) -> Option<String>,
    N: Fn(u32) -> Vec<Option<String>>,
    K: Fn(u32, u32) -> Option<String>,
    A: Fn(u32) -> Option<Vec<u8>>,
 {
    &&& forall|pid: u32, one: Option<(i32, Seq<char>)>, other: Option<(i32, Seq<char>)>|
        #[trigger] crate::linux::proc_fs::reads_group_and_name(proc_fs.stat, pid, one)
            && #[trigger] crate::linux::proc_fs::reads_group_and_name(proc_fs.stat, pid, other)
            ==> one == other
    &&& forall|pid: u32, one: Option<u32>, other: Option<u32>|
        #[trigger] crate::linux::proc_fs::reads_foreground_group(proc_fs.stat, pid, one)
            && #[trigger] crate::linux::proc_fs::reads_foreground_group(proc_fs.stat, pid, other)
            ==> one == other
    &&& forall|pid: u32, one: Seq<u32>, other: Seq<u32>|
        #[trigger] crate::linux::proc_fs::reads_task_ids(proc_fs.task_names, pid, one)
            && #[trigger] crate::linux::proc_fs::reads_task_ids(proc_fs.task_names, pid, other)
            ==> one == other
    &&& forall|pid: u32, tid: u32, one: Seq<u32>, other: Seq<u32>|
        #[trigger] crate::linux::proc_fs::reads_task_children(proc_fs.task_children, pid, tid, one)
            && #[trigger] crate::linux::proc_fs::reads_task_children(
            proc_fs.task_children,
            pid,
            tid,
            other,
        ) ==> one == other
    &&& forall|pid: u32, one: Option<Seq<Seq<char>>>, other: Option<Seq<Seq<char>>>|
        #[trigger] crate::linux::proc_fs::reads_argv(proc_fs.cmdline, pid, one)
            && #[trigger] crate::linux::proc_fs::reads_argv(proc_fs.cmdline, pid, other) ==> one
            == other
}

/// Two ascending lists of the same members are the same list.
proof fn lemma_ascending_lists_agree(one: Seq<(u32, Seq<char>)>, other: Seq<(u32, Seq<char>)>)
    requires
        forall|i: int, j: int| 0 <= i < j < one.len() ==> one[i].0 < one[j].0,
        forall|i: int, j: int| 0 <= i < j < other.len() ==> other[i].0 < other[j].0,
        forall|member: (u32, Seq<char>)| #[trigger]
            one.contains(member) <==> other.contains(member),
    ensures
        one == other,
    decreases one.len(),
{
    if one.len() == 0 {
        if other.len() > 0 {
            assert(other.contains(other[0]));
            assert(one.contains(other[0]));
        }
        assert(one =~= other);
    } else {
        let last = one.last();
        assert(one.contains(last));
        let j = choose|j: int| 0 <= j < other.len() && other[j] == last;
        let end = other.last();
        assert(other.contains(end));
        assert(one.contains(end));
        let i = choose|i: int| 0 <= i < one.len() && one[i] == end;
        assert(j == other.len() - 1) by {
            if j < other.len() - 1 {
                assert(other[j].0 < other[other.len() - 1].0);
                if i < one.len() - 1 {
                    assert(one[i].0 < one[one.len() - 1].0);
                }
            }
        }
        let fewer = one.drop_last();
        let rest = other.drop_last();
        assert forall|member: (u32, Seq<char>)| #[trigger]
            fewer.contains(member) <==> rest.contains(member) by {
            if fewer.contains(member) {
                let a = choose|a: int| 0 <= a < fewer.len() && fewer[a] == member;
                assert(one[a] == member);
                assert(one.contains(member));
                assert(other.contains(member));
                let b = choose|b: int| 0 <= b < other.len() && other[b] == member;
                assert(one[a].0 < one[one.len() - 1].0);
                assert(b < other.len() - 1);
                assert(rest[b] == member);
            }
            if rest.contains(member) {
                let b = choose|b: int| 0 <= b < rest.len() && rest[b] == member;
                assert(other[b] == member);
                assert(other.contains(member));
                assert(one.contains(member));
                let a = choose|a: int| 0 <= a < one.len() && one[a] == member;
                assert(other[b].0 < other[other.len() - 1].0);
                assert(a < one.len() - 1);
                assert(fewer[a] == member);
            }
        }
        lemma_ascending_lists_agree(fewer, rest);
        assert(one =~= fewer.push(last));
        assert(other =~= rest.push(last));
    }
}

/// Two lists of the named processes are the same list.
proof fn lemma_member_lists_agree(
    pids: Seq<u32>,
    names: Seq<Option<Seq<char>>>,
    one: Seq<(u32, Seq<char>)>,
    other: Seq<(u32, Seq<char>)>,
)
    requires
        crate::linux::proc_fs::is_member_list(pids, names, one),
        crate::linux::proc_fs::is_member_list(pids, names, other),
    ensures
        one == other,
{
    assert forall|member: (u32, Seq<char>)| #[trigger]
        one.contains(member) <==> other.contains(member) by {
        if one.contains(member) {
            let i = choose|i: int| 0 <= i < one.len() && one[i] == member;
            assert(crate::linux::proc_fs::is_named(pids, names, one[i]));
            let k = choose|k: int|
                0 <= k < pids.len() && pids[k] == member.0 && #[trigger] names[k] == Some(
                    member.1,
                );
            assert(names[k] is Some);
            assert(other.contains((pids[k], names[k]->0)));
        }
        if other.contains(member) {
            let i = choose|i: int| 0 <= i < other.len() && other[i] == member;
            assert(crate::linux::proc_fs::is_named(pids, names, other[i]));
            let k = choose|k: int|
                0 <= k < pids.len() && pids[k] == member.0 && #[trigger] names[k] == Some(
                    member.1,
                );
            assert(names[k] is Some);
            assert(one.contains((pids[k], names[k]->0)));
        }
    }
    lemma_ascending_lists_agree(one, other);
}

/// The children of a process are what its files say.
proof fn lemma_children_agree<S, N, K, A>(
    proc_fs: ProcFs<S, N, K, A>,
    pid: u32,
    one: Seq<u32>,
    other: Seq<u32>,
) where
    S: Fn(u32) -> Option<String>,
    N: Fn(u32) -> Vec<Option<String>>,
    K: Fn(u32, u32) -> Option<String>,
    A: Fn(u32) -> Option<Vec<u8>>,

    requires
        is_snapshot(proc_fs),
        crate::linux::proc_fs::reads_children(proc_fs.task_names, proc_fs.task_children, pid, one),
        crate::linux::proc_fs::reads_children(
            proc_fs.task_names,
            proc_fs.task_children,
            pid,
            other,
        ),
    ensures
        one == other,
{
    let (tids1, lists1) = choose|tids: Seq<u32>, lists: Seq<Seq<u32>>|
        #[trigger] crate::linux::proc_fs::reads_tasks(
            proc_fs.task_names,
            proc_fs.task_children,
            pid,
            tids,
            lists,
        ) && one == lists.flatten();
    let (tids2, lists2) = choose|tids: Seq<u32>, lists: Seq<Seq<u32>>|
        #[trigger] crate::linux::proc_fs::reads_tasks(
            proc_fs.task_names,
            proc_fs.task_children,
            pid,
            tids,
            lists,
        ) && other == lists.flatten();
    assert(tids1 == tids2);
    assert forall|j: int| 0 <= j < lists1.len() implies lists1[j] == lists2[j] by {
        assert(crate::linux::proc_fs::reads_task_children(
            proc_fs.task_children,
            pid,
            tids1[j],
            lists1[j],
        ));
        assert(crate::linux::proc_fs::reads_task_children(
            proc_fs.task_children,
            pid,
            tids2[j],
            lists2[j],
        ));
    }
    assert(lists1 =~= lists2);
}

/// The walk from some roots is what the files say.
proof fn lemma_trees_agree<S, N, K, A>(
    proc_fs: ProcFs<S, N, K, A>,
    roots: Seq<u32>,
    one: Seq<u32>,
    other: Seq<u32>,
) where
    S: Fn(u32) -> Option<String>,
    N: Fn(u32) -> Vec<Option<String>>,
    K: Fn(u32, u32) -> Option<String>,
    A: Fn(u32) -> Option<Vec<u8>>,

    requires
        is_snapshot(proc_fs),
        crate::linux::proc_fs::reads_tree(proc_fs.task_names, proc_fs.task_children, roots, one),
        crate::linux::proc_fs::reads_tree(proc_fs.task_names, proc_fs.task_children, roots, other),
    ensures
        one == other,
{
    let children = |pid: u32|
        choose|list: Seq<u32>| #[trigger]
            crate::linux::proc_fs::reads_children(
                proc_fs.task_names,
                proc_fs.task_children,
                pid,
                list,
            );
    let reports1 = choose|reports: Seq<Seq<u32>>|
        {
            &&& #[trigger] crate::linux::tree::is_tree_walk(roots, reports, one)
            &&& forall|k: int|
                0 <= k < one.len() ==> crate::linux::proc_fs::reads_children(
                    proc_fs.task_names,
                    proc_fs.task_children,
                    one[k],
                    #[trigger] reports[k],
                )
        };
    let reports2 = choose|reports: Seq<Seq<u32>>|
        {
            &&& #[trigger] crate::linux::tree::is_tree_walk(roots, reports, other)
            &&& forall|k: int|
                0 <= k < other.len() ==> crate::linux::proc_fs::reads_children(
                    proc_fs.task_names,
                    proc_fs.task_children,
                    other[k],
                    #[trigger] reports[k],
                )
        };
    assert forall|k: int| 0 <= k < one.len() implies #[trigger] reports1[k] == children(
        one[k],
    ) by {
        lemma_children_agree(proc_fs, one[k], reports1[k], children(one[k]));
    }
    assert forall|k: int| 0 <= k < other.len() implies #[trigger] reports2[k] == children(
        other[k],
    ) by {
        lemma_children_agree(proc_fs, other[k], reports2[k], children(other[k]));
    }
    crate::linux::tree::walk_is_determined(roots, children, reports1, one, reports2, other);
}

/// A process is in a group under one name, or not at all.
proof fn lemma_members_agree<S, N, K, A>(
    proc_fs: ProcFs<S, N, K, A>,
    process_group_id: u32,
    pid: u32,
    one: Option<Seq<char>>,
    other: Option<Seq<char>>,
) where
    S: Fn(u32) -> Option<String>,
    N: Fn(u32) -> Vec<Option<String>>,
    K: Fn(u32, u32) -> Option<String>,
    A: Fn(u32) -> Option<Vec<u8>>,

    requires
        is_snapshot(proc_fs),
        crate::linux::proc_fs::reads_member(proc_fs.stat, process_group_id, pid, one),
        crate::linux::proc_fs::reads_member(proc_fs.stat, process_group_id, pid, other),
    ensures
        one == other,
{
    let found1 = choose|found: Option<(i32, Seq<char>)>| #[trigger]
        crate::linux::proc_fs::reads_group_and_name(proc_fs.stat, pid, found) && one
            == crate::linux::proc_fs::name_in_group(process_group_id, found);
    let found2 = choose|found: Option<(i32, Seq<char>)>| #[trigger]
        crate::linux::proc_fs::reads_group_and_name(proc_fs.stat, pid, found) && other
            == crate::linux::proc_fs::name_in_group(process_group_id, found);
    assert(found1 == found2);
}

/// The job of a process group below a shell is determined by the files.
pub proof fn group_jobs_are_determined<S, N, K, A>(
    proc_fs: ProcFs<S, N, K, A>,
    child_pid: u32,
    process_group_id: u32,
    one: Option<crate::process::JobView>,
    other: Option<crate::process::JobView>,
) where
    S: Fn(u32) -> Option<String>,
    N: Fn(u32) -> Vec<Option<String>>,
    K: Fn(u32, u32) -> Option<String>,
    A: Fn(u32) -> Option<Vec<u8>>,

    requires
        is_snapshot(proc_fs),
        crate::linux::proc_fs::reads_group_job(proc_fs, child_pid, process_group_id, one),
        crate::linux::proc_fs::reads_group_job(proc_fs, child_pid, process_group_id, other),
    ensures
        one == other,
{
    let (pids1, names1, members1, argvs1) = choose|
        pids: Seq<u32>,
        names: Seq<Option<Seq<char>>>,
        members: Seq<(u32, Seq<char>)>,
        argvs: Seq<Option<Seq<Seq<char>>>>,
    |
        {
            &&& #[trigger] crate::linux::proc_fs::reads_members(
                proc_fs,
                child_pid,
                process_group_id,
                pids,
                names,
                members,
            )
            &&& #[trigger] crate::linux::proc_fs::reads_argvs(proc_fs.cmdline, members, argvs)
            &&& one == crate::linux::proc_fs::members_job(process_group_id, members, argvs)
        };
    let (pids2, names2, members2, argvs2) = choose|
        pids: Seq<u32>,
        names: Seq<Option<Seq<char>>>,
        members: Seq<(u32, Seq<char>)>,
        argvs: Seq<Option<Seq<Seq<char>>>>,
    |
        {
            &&& #[trigger] crate::linux::proc_fs::reads_members(
                proc_fs,
                child_pid,
                process_group_id,
                pids,
                names,
                members,
            )
            &&& #[trigger] crate::linux::proc_fs::reads_argvs(proc_fs.cmdline, members, argvs)
            &&& other == crate::linux::proc_fs::members_job(process_group_id, members, argvs)
        };
    lemma_trees_agree(proc_fs, seq![child_pid, process_group_id], pids1, pids2);
    assert forall|k: int| 0 <= k < names1.len() implies names1[k] == names2[k] by {
        lemma_members_agree(proc_fs, process_group_id, pids1[k], names1[k], names2[k]);
    }
    assert(names1 =~= names2);
    lemma_member_lists_agree(pids1, names1, members1, members2);
    assert forall|i: int| 0 <= i < argvs1.len() implies argvs1[i] == argvs2[i] by {
        assert(crate::linux::proc_fs::reads_argv(proc_fs.cmdline, members1[i].0, argvs1[i]));
        assert(crate::linux::proc_fs::reads_argv(proc_fs.cmdline, members2[i].0, argvs2[i]));
    }
    assert(argvs1 =~= argvs2);
}

/// The first lists hold no more than all of them.
proof fn lemma_fewer_lists_hold_less(lists: Seq<Seq<u32>>, k: int)
    requires
        0 <= k <= lists.len(),
    ensures
        lists.take(k).flatten().len() <= lists.flatten().len(),
{
    vstd::seq_lib::lemma_flatten_concat(lists.take(k), lists.skip(k));
    assert(lists.take(k) + lists.skip(k) =~= lists);
}

/// A process is in one group.
proof fn lemma_groups_agree<S, N, K, A>(
    proc_fs: ProcFs<S, N, K, A>,
    pid: u32,
    one: Option<i32>,
    other: Option<i32>,
) where
    S: Fn(u32) -> Option<String>,
    N: Fn(u32) -> Vec<Option<String>>,
    K: Fn(u32, u32) -> Option<String>,
    A: Fn(u32) -> Option<Vec<u8>>,

    requires
        is_snapshot(proc_fs),
        crate::linux::proc_fs::reads_group(proc_fs.stat, pid, one),
        crate::linux::proc_fs::reads_group(proc_fs.stat, pid, other),
    ensures
        one == other,
{
}

/// The newest child group is determined by the files, and so is that a scan gives up.
proof fn lemma_scans_agree<S, N, K, A>(
    proc_fs: ProcFs<S, N, K, A>,
    child_pid: u32,
    shell_group_id: u32,
    tids1: Seq<u32>,
    lists1: Seq<Seq<u32>>,
    groups1: Seq<Option<i32>>,
    one: Option<u32>,
    tids2: Seq<u32>,
    lists2: Seq<Seq<u32>>,
    groups2: Seq<Option<i32>>,
    other: Option<u32>,
) where
    S: Fn(u32) -> Option<String>,
    N: Fn(u32) -> Vec<Option<String>>,
    K: Fn(u32, u32) -> Option<String>,
    A: Fn(u32) -> Option<Vec<u8>>,

    requires
        is_snapshot(proc_fs),
        crate::linux::proc_fs::reads_child_scan(
            proc_fs,
            child_pid,
            shell_group_id,
            tids1,
            lists1,
            groups1,
            one,
        ),
        crate::linux::proc_fs::reads_child_scan(
            proc_fs,
            child_pid,
            shell_group_id,
            tids2,
            lists2,
            groups2,
            other,
        ),
    ensures
        one == other,
{
    assert(tids1 == tids2);
    assert forall|j: int| 0 <= j < lists1.len() && j < lists2.len() implies lists1[j]
        == lists2[j] by {
        assert(crate::linux::proc_fs::reads_task_children(
            proc_fs.task_children,
            child_pid,
            tids1[j],
            lists1[j],
        ));
        assert(crate::linux::proc_fs::reads_task_children(
            proc_fs.task_children,
            child_pid,
            tids2[j],
            lists2[j],
        ));
    }
    match (one, other) {
        (Some(group1), Some(group2)) => {
            assert(lists1 =~= lists2);
            assert forall|i: int| 0 <= i < groups1.len() implies groups1[i] == groups2[i] by {
                let pid = lists1.flatten()[i];
                assert(crate::linux::proc_fs::reads_group(proc_fs.stat, pid, groups1[i]));
                assert(crate::linux::proc_fs::reads_group(proc_fs.stat, pid, groups2[i]));
                lemma_groups_agree(proc_fs, pid, groups1[i], groups2[i]);
            }
            assert(groups1 =~= groups2);
            crate::linux::groups::newest_group_is_unique(
                shell_group_id,
                groups1,
                group1,
                group2,
            );
        },
        (Some(_), None) => {
            assert(lists2 =~= lists1.take(lists2.len() as int));
            lemma_fewer_lists_hold_less(lists1, lists2.len() as int);
        },
        (None, Some(_)) => {
            assert(lists1 =~= lists2.take(lists1.len() as int));
            lemma_fewer_lists_hold_less(lists2, lists1.len() as int);
        },
        (None, None) => {},
    }
}

/// `group` follows from a scan of the children of a shell in the group `shell`.
spec fn is_group_from_shell<S, N, K, A>(
    proc_fs: ProcFs<S, N, K, A>,
    child_pid: u32,
    shell: Option<i32>,
    group: Option<u32>,
) -> bool where
    S: Fn(u32) -> Option<String>,
    N: Fn(u32) -> Vec<Option<String>>,
    K: Fn(u32, u32) -> Option<String>,
    A: Fn(u32) -> Option<Vec<u8>>,
 {
    if shell is Some && shell->0 > 0 {
        exists|tids: Seq<u32>, lists: Seq<Seq<u32>>, groups: Seq<Option<i32>>| #[trigger]
            crate::linux::proc_fs::reads_child_scan(
                proc_fs,
                child_pid,
                shell->0 as u32,
                tids,
                lists,
                groups,
                group,
            )
    } else {
        group is None
    }
}

/// The newest group among the children of a shell is determined by the files.
pub proof fn child_groups_are_determined<S, N, K, A>(
    proc_fs: ProcFs<S, N, K, A>,
    child_pid: u32,
    one: Option<u32>,
    other: Option<u32>,
) where
    S: Fn(u32) -> Option<String>,
    N: Fn(u32) -> Vec<Option<String>>,
    K: Fn(u32, u32) -> Option<String>,
    A: Fn(u32) -> Option<Vec<u8>>,

    requires
        is_snapshot(proc_fs),
        crate::linux::proc_fs::reads_child_group(proc_fs, child_pid, one),
        crate::linux::proc_fs::reads_child_group(proc_fs, child_pid, other),
    ensures
        one == other,
{
    let shell = choose|shell: Option<i32>|
        #[trigger] crate::linux::proc_fs::reads_group(proc_fs.stat, child_pid, shell)
            && is_group_from_shell(proc_fs, child_pid, shell, one);
    let shell_again = choose|shell: Option<i32>|
        #[trigger] crate::linux::proc_fs::reads_group(proc_fs.stat, child_pid, shell)
            && is_group_from_shell(proc_fs, child_pid, shell, other);
    lemma_groups_agree(proc_fs, child_pid, shell, shell_again);
    if shell is Some && shell->0 > 0 {
        let (tids1, lists1, groups1) = choose|
            tids: Seq<u32>,
            lists: Seq<Seq<u32>>,
            groups: Seq<Option<i32>>,
        | #[trigger]
            crate::linux::proc_fs::reads_child_scan(
                proc_fs,
                child_pid,
                shell->0 as u32,
                tids,
                lists,
                groups,
                one,
            );
        let (tids2, lists2, groups2) = choose|
            tids: Seq<u32>,
            lists: Seq<Seq<u32>>,
            groups: Seq<Option<i32>>,
        | #[trigger]
            crate::linux::proc_fs::reads_child_scan(
                proc_fs,
                child_pid,
                shell->0 as u32,
                tids,
                lists,
                groups,
                other,
            );
        lemma_scans_agree(
            proc_fs,
            child_pid,
            shell->0 as u32,
            tids1,
            lists1,
            groups1,
            one,
            tids2,
            lists2,
            groups2,
            other,
        );
    }
}

/// The mode has one answer.
pub open spec fn mode_is_fixed<M>(detection_mode: M) -> bool where
    M: FnOnce() -> ProcessDetectionMode,
 {
    forall|one: ProcessDetectionMode, other: ProcessDetectionMode|
        #[trigger] call_ensures(detection_mode, (), one) && #[trigger] call_ensures(
            detection_mode,
            (),
            other,
        ) ==> one == other
}

/// The foreground job is determined by the files and the mode, in either mode, whether the terminal
/// tells its foreground group or not.
pub proof fn foreground_jobs_are_determined<M, S, N, K, A>(
    detection_mode: M,
    proc_fs: ProcFs<S, N, K, A>,
    child_pid: u32,
    one: Option<crate::process::JobView>,
    other: Option<crate::process::JobView>,
) where
    M: FnOnce() -> ProcessDetectionMode,
    S: Fn(u32) -> Option<String>,
    N: Fn(u32) -> Vec<Option<String>>,
    K: Fn(u32, u32) -> Option<String>,
    A: Fn(u32) -> Option<Vec<u8>>,

    requires
        is_snapshot(proc_fs),
        mode_is_fixed(detection_mode),
        crate::linux::job::reads_foreground_job(detection_mode, proc_fs, child_pid, one),
        crate::linux::job::reads_foreground_job(detection_mode, proc_fs, child_pid, other),
    ensures
        one == other,
{
    let native = choose|native: Option<u32>| #[trigger]
        crate::linux::proc_fs::reads_foreground_group(proc_fs.stat, child_pid, native);
    match native {
        Some(tpgid) => {
            group_jobs_are_determined(proc_fs, child_pid, tpgid, one, other);
        },
        None => {
            let native_mode = call_ensures(detection_mode, (), ProcessDetectionMode::Native);
            let child_mode = call_ensures(detection_mode, (), ProcessDetectionMode::ChildGroups);
            assert(!(native_mode && child_mode));
            if child_mode {
                let group = choose|group: Option<u32>| #[trigger]
                    crate::linux::proc_fs::reads_child_group(proc_fs, child_pid, group)
                        && match group {
                        Some(group) => crate::linux::proc_fs::reads_group_job(
                            proc_fs,
                            child_pid,
                            group,
                            one,
                        ),
                        None => one is None,
                    };
                let group_again = choose|group: Option<u32>| #[trigger]
                    crate::linux::proc_fs::reads_child_group(proc_fs, child_pid, group)
                        && match group {
                        Some(group) => crate::linux::proc_fs::reads_group_job(
                            proc_fs,
                            child_pid,
                            group,
                            other,
                        ),
                        None => other is None,
                    };
                child_groups_are_determined(proc_fs, child_pid, group, group_again);
                if group is Some {
                    group_jobs_are_determined(proc_fs, child_pid, group->0, one, other);
                }
            }
        },
    }
}

/// In native mode a terminal that does not tell its foreground group has no foreground job.
pub proof fn native_detection_needs_the_terminals_group<M, S, N, K, A>(
    detection_mode: M,
    proc_fs: ProcFs<S, N, K, A>,
    child_pid: u32,
    job: Option<crate::process::JobView>,
) where
    M: FnOnce() -> ProcessDetectionMode,
    S: Fn(u32) -> Option<String>,
    N: Fn(u32) -> Vec<Option<String>>,
    K: Fn(u32, u32) -> Option<String>,
    A: Fn(u32) -> Option<Vec<u8>>,

    requires
        is_snapshot(proc_fs),
        crate::linux::proc_fs::reads_foreground_group(proc_fs.stat, child_pid, None),
        !call_ensures(detection_mode, (), ProcessDetectionMode::ChildGroups),
        crate::linux::job::reads_foreground_job(detection_mode, proc_fs, child_pid, job),
    ensures
        job is None,
{
}

} // verus!
