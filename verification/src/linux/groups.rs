//! Foreground groups inferred from a shell's children, where the terminal does not tell.
use vstd::prelude::*;

verus! {

/// How many children are inspected before the scan gives up.
pub const CHILD_GROUPS_SCAN_LIMIT: usize = 64;

/// The group of a job: a positive process group other than the shell's own.
pub open spec fn is_job_group(shell_group_id: u32, group: Option<i32>) -> bool {
    group is Some && group->0 > 0 && group->0 != shell_group_id
}

/// `group` is the newest job group among `groups`, that is the highest one, or the shell's own
/// group where there is no job.
pub open spec fn is_newest_group(
    shell_group_id: u32,
    groups: Seq<Option<i32>>,
    group: u32,
) -> bool {
    if exists|i: int| 0 <= i < groups.len() && is_job_group(shell_group_id, #[trigger] groups[i]) {
        &&& exists|i: int|
            0 <= i < groups.len() && is_job_group(shell_group_id, #[trigger] groups[i])
                && groups[i]->0 == group
        &&& forall|i: int|
            0 <= i < groups.len() && is_job_group(shell_group_id, #[trigger] groups[i])
                ==> groups[i]->0 <= group
    } else {
        group == shell_group_id
    }
}

/// What a scan of a shell with `tasks` tasks comes to, when the first of them listed the children
/// `lists` and the first children have the groups `groups`. The scan gives up, without a result, as
/// soon as it meets more children than the limit; it inspects no child beyond it.
pub open spec fn is_scan_outcome(
    shell_group_id: u32,
    tasks: nat,
    lists: Seq<Seq<u32>>,
    groups: Seq<Option<i32>>,
    result: Option<u32>,
) -> bool {
    let children = lists.flatten();
    match result {
        Some(group) => {
            &&& lists.len() == tasks
            &&& children.len() <= CHILD_GROUPS_SCAN_LIMIT
            &&& groups.len() == children.len()
            &&& is_newest_group(shell_group_id, groups, group)
        },
        None => {
            &&& 0 < lists.len() <= tasks
            &&& children.len() > CHILD_GROUPS_SCAN_LIMIT
            &&& lists.drop_last().flatten().len() <= CHILD_GROUPS_SCAN_LIMIT
            &&& groups.len() == CHILD_GROUPS_SCAN_LIMIT
        },
    }
}

/// `result` follows from a scan of the children of `child_pid` in which the closures answered
/// `tids`, then `lists` task by task, then `groups` child by child.
pub open spec fn is_child_scan<T, C, G>(
    task_ids: T,
    task_children: C,
    process_group_id: G,
    child_pid: u32,
    shell_group_id: u32,
    tids: Vec<u32>,
    lists: Seq<Vec<u32>>,
    groups: Seq<Option<i32>>,
    result: Option<u32>,
) -> bool where
    T: FnMut(u32) -> Vec<u32>,
    C: FnMut(u32, u32) -> Vec<u32>,
    G: FnMut(u32) -> Option<i32>,
 {
    let children = crate::linux::tree::id_lists(lists).flatten();
    &&& is_scan_outcome(
        shell_group_id,
        tids@.len(),
        crate::linux::tree::id_lists(lists),
        groups,
        result,
    )
    &&& call_ensures(task_ids, (child_pid,), tids)
    &&& forall|j: int|
        0 <= j < lists.len() ==> call_ensures(
            task_children,
            (child_pid, tids@[j]),
            #[trigger] lists[j],
        )
    &&& forall|i: int|
        0 <= i < groups.len() ==> call_ensures(
            process_group_id,
            (children[i],),
            #[trigger] groups[i],
        )
}

/// A scan fails closed: no more children than the limit are inspected, and where there are more,
/// nothing is concluded from those that were.
pub proof fn scans_fail_closed(
    shell_group_id: u32,
    tasks: nat,
    lists: Seq<Seq<u32>>,
    groups: Seq<Option<i32>>,
    result: Option<u32>,
)
    requires
        is_scan_outcome(shell_group_id, tasks, lists, groups, result),
    ensures
        groups.len() <= CHILD_GROUPS_SCAN_LIMIT,
        result is None <==> lists.flatten().len() > CHILD_GROUPS_SCAN_LIMIT,
{
}

/// At most one group is the newest.
pub proof fn newest_group_is_unique(
    shell_group_id: u32,
    groups: Seq<Option<i32>>,
    group1: u32,
    group2: u32,
)
    requires
        is_newest_group(shell_group_id, groups, group1),
        is_newest_group(shell_group_id, groups, group2),
    ensures
        group1 == group2,
{
}

/// The newest group is the shell's own or a positive one that a child is in.
pub proof fn newest_group_is_a_live_group(
    shell_group_id: u32,
    groups: Seq<Option<i32>>,
    group: u32,
)
    requires
        is_newest_group(shell_group_id, groups, group),
    ensures
        group == shell_group_id || (group > 0 && exists|i: int|
            0 <= i < groups.len() && #[trigger] groups[i] is Some && groups[i]->0 == group),
{
}

/// The state of a scan that has seen `groups`.
spec fn is_newest_so_far(
    shell_group_id: u32,
    groups: Seq<Option<i32>>,
    newest: Option<u32>,
) -> bool {
    match newest {
        Some(group) => {
            &&& exists|i: int|
                0 <= i < groups.len() && is_job_group(shell_group_id, #[trigger] groups[i])
                    && groups[i]->0 == group
            &&& forall|i: int|
                0 <= i < groups.len() && is_job_group(shell_group_id, #[trigger] groups[i])
                    ==> groups[i]->0 <= group
        },
        None => forall|i: int|
            0 <= i < groups.len() ==> !is_job_group(shell_group_id, #[trigger] groups[i]),
    }
}

/// The newest group once one more child's group is known.
fn newer_group(
    shell_group_id: u32,
    newest: Option<u32>,
    group: Option<i32>,
    Ghost(groups): Ghost<Seq<Option<i32>>>,
) -> (newer: Option<u32>)
    requires
        is_newest_so_far(shell_group_id, groups, newest),
    ensures
        is_newest_so_far(shell_group_id, groups.push(group), newer),
{
    let ghost more = groups.push(group);
    proof {
        assert forall|i: int| 0 <= i < groups.len() implies more[i] == groups[i] by {}
        assert(more[groups.len() as int] == group);
        if newest is Some {
            let i = choose|i: int|
                0 <= i < groups.len() && is_job_group(shell_group_id, #[trigger] groups[i])
                    && groups[i]->0 == newest->0;
            assert(is_job_group(shell_group_id, more[i]) && more[i]->0 == newest->0);
        }
    }
    let pgrp: i32 = match group {
        Some(pgrp) => pgrp,
        None => {
            return newest;
        },
    };
    if pgrp <= 0 {
        return newest;
    }
    let pgrp: u32 = pgrp as u32;
    if pgrp == shell_group_id {
        return newest;
    }
    proof {
        assert(is_job_group(shell_group_id, more[groups.len() as int]));
    }
    match newest {
        Some(current) => if current >= pgrp {
            Some(current)
        } else {
            Some(pgrp)
        },
        None => Some(pgrp),
    }
}

/// Best-effort foreground group of the shell `child_pid`: the newest process group among its
/// children that is not the shell's own, or the shell's own group. Gives up when the shell has
/// more children than the scan limit.
pub fn child_groups_foreground_process_group_with<T, C, G>(
    child_pid: u32,
    shell_group_id: u32,
    task_ids: T,
    task_children: C,
    process_group_id: G,
) -> (group: Option<u32>) where
    T: FnMut(u32) -> Vec<u32>,
    C: FnMut(u32, u32) -> Vec<u32>,
    G: FnMut(u32) -> Option<i32>,

    requires
        call_requires(task_ids, (child_pid,)),
        forall|tid: u32| call_requires(task_children, (child_pid, tid)),
        forall|pid: u32| call_requires(process_group_id, (pid,)),
    ensures
        exists|tids: Vec<u32>, lists: Seq<Vec<u32>>, groups: Seq<Option<i32>>| #[trigger]
            is_child_scan(
                task_ids,
                task_children,
                process_group_id,
                child_pid,
                shell_group_id,
                tids,
                lists,
                groups,
                group,
            ),
{
    let mut ask_tasks = task_ids;
    let mut ask_children = task_children;
    let mut ask_group = process_group_id;
    let mut newest: Option<u32> = None;
    let mut scanned: usize = 0;
    let tids: Vec<u32> = ask_tasks(child_pid);
    let ghost mut lists: Seq<Vec<u32>> = Seq::empty();
    let ghost mut groups: Seq<Option<i32>> = Seq::empty();
    let mut t: usize = 0;
    assert(crate::linux::tree::id_lists(lists).flatten().len() == 0) by {
        assert(crate::linux::tree::id_lists(lists).len() == 0);
    }
    while t < tids.len()
        invariant
            ask_children == task_children,
            ask_group == process_group_id,
            forall|tid: u32| call_requires(ask_children, (child_pid, tid)),
            forall|pid: u32| call_requires(ask_group, (pid,)),
            call_ensures(task_ids, (child_pid,), tids),
            t <= tids@.len(),
            lists.len() == t,
            forall|j: int|
                0 <= j < t ==> call_ensures(
                    task_children,
                    (child_pid, tids@[j]),
                    #[trigger] lists[j],
                ),
            groups.len() == crate::linux::tree::id_lists(lists).flatten().len(),
            groups.len() == scanned,
            scanned <= CHILD_GROUPS_SCAN_LIMIT,
            forall|i: int|
                0 <= i < groups.len() ==> call_ensures(
                    process_group_id,
                    (crate::linux::tree::id_lists(lists).flatten()[i],),
                    #[trigger] groups[i],
                ),
            is_newest_so_far(shell_group_id, groups, newest),
        decreases tids@.len() - t,
    {
        let children: Vec<u32> = ask_children(child_pid, tids[t]);
        let ghost flat = crate::linux::tree::id_lists(lists).flatten();
        let ghost more = lists.push(children);
        let ghost all = crate::linux::tree::id_lists(more).flatten();
        proof {
            assert(crate::linux::tree::id_lists(more) =~= crate::linux::tree::id_lists(lists).push(children@));
            crate::linux::tree::id_lists(lists).lemma_flatten_push(children@);
            assert(all =~= flat + children@);
            assert forall|i: int| 0 <= i < groups.len() implies call_ensures(
                process_group_id,
                (all[i],),
                #[trigger] groups[i],
            ) by {
                assert(all[i] == flat[i]);
            }
        }
        let mut c: usize = 0;
        while c < children.len()
            invariant
                ask_group == process_group_id,
                forall|pid: u32| call_requires(ask_group, (pid,)),
                call_ensures(task_ids, (child_pid,), tids),
                t < tids@.len(),
                lists.len() == t,
                flat == crate::linux::tree::id_lists(lists).flatten(),
                flat.len() <= CHILD_GROUPS_SCAN_LIMIT,
                more == lists.push(children),
                all == crate::linux::tree::id_lists(more).flatten(),
                all == flat + children@,
                forall|j: int|
                    0 <= j <= t ==> call_ensures(
                        task_children,
                        (child_pid, tids@[j]),
                        #[trigger] more[j],
                    ),
                c <= children@.len(),
                groups.len() == flat.len() + c,
                groups.len() == scanned,
                scanned <= CHILD_GROUPS_SCAN_LIMIT,
                forall|i: int|
                    0 <= i < groups.len() ==> call_ensures(
                        process_group_id,
                        (all[i],),
                        #[trigger] groups[i],
                    ),
                is_newest_so_far(shell_group_id, groups, newest),
            decreases children@.len() - c,
        {
            if scanned >= CHILD_GROUPS_SCAN_LIMIT {
                proof {
                    assert(crate::linux::tree::id_lists(more).drop_last()
                        =~= crate::linux::tree::id_lists(lists));
                    assert(is_child_scan(
                        task_ids,
                        task_children,
                        process_group_id,
                        child_pid,
                        shell_group_id,
                        tids,
                        more,
                        groups,
                        None,
                    ));
                }
                return None;
            }
            scanned = scanned + 1;
            let group: Option<i32> = ask_group(children[c]);
            newest = newer_group(shell_group_id, newest, group, Ghost(groups));
            proof {
                assert(all[flat.len() + c] == children@[c as int]);
                groups = groups.push(group);
            }
            c = c + 1;
        }
        proof {
            lists = more;
        }
        t = t + 1;
    }
    let group: u32 = match newest {
        Some(group) => group,
        None => shell_group_id,
    };
    proof {
        assert(is_newest_group(shell_group_id, groups, group));
        assert(is_child_scan(
            task_ids,
            task_children,
            process_group_id,
            child_pid,
            shell_group_id,
            tids,
            lists,
            groups,
            Some(group),
        ));
    }
    Some(group)
}

/// The group of every child counts but that of the shell and those that are no positive numbers, and
/// the highest of them is the newest.
pub proof fn the_newest_group_is_the_highest(
    shell_group_id: u32,
    groups: Seq<Option<i32>>,
    group: u32,
    i: int,
)
    requires
        is_newest_group(shell_group_id, groups, group),
        0 <= i < groups.len(),
        groups[i] is Some,
        groups[i]->0 >= 1,
        groups[i]->0 as int != shell_group_id as int,
    ensures
        group as int >= groups[i]->0 as int,
        group != shell_group_id,
{
    assert(is_job_group(shell_group_id, groups[i]));
}

/// Sixty-four children are inspected, and not one more; a scan that meets no more than these comes
/// to a result after asking every task.
pub proof fn sixty_four_children_are_inspected(
    shell_group_id: u32,
    tasks: nat,
    lists: Seq<Seq<u32>>,
    groups: Seq<Option<i32>>,
    result: Option<u32>,
)
    requires
        is_scan_outcome(shell_group_id, tasks, lists, groups, result),
    ensures
        groups.len() <= 64,
        result is None <==> lists.flatten().len() > 64,
        result is Some ==> lists.len() == tasks && groups.len() == lists.flatten().len(),
{
}

} // verus!
