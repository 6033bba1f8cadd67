//! The members of a process group below a pane's shell.
use crate::linux::tree::process_tree_pids;
use vstd::prelude::*;

verus! {

/// A live process of a process group.
#[derive(Debug, Clone, PartialEq, Eq)]
pub struct ProcGroupMember {
    pub pid: u32,
    pub comm: String,
}

/// The members stand in ascending order of their ids.
pub open spec fn sorted_by_pid(members: Seq<ProcGroupMember>) -> bool {
    forall|i: int, j: int| 0 <= i < j < members.len() ==> members[i].pid <= members[j].pid
}

/// `members` are the positive answers among those that the processes below `child_pid` and
/// `process_group_id` gave, in ascending order; no list where there is none.
pub open spec fn is_member_search<T, C, L>(
    task_ids: T,
    task_children: C,
    live_member: L,
    child_pid: u32,
    process_group_id: u32,
    pids: Seq<u32>,
    answers: Seq<Option<ProcGroupMember>>,
    members: Option<Vec<ProcGroupMember>>,
) -> bool where
    T: FnMut(u32) -> Vec<u32>,
    C: FnMut(u32, u32) -> Vec<u32>,
    L: FnMut(u32, u32) -> Option<ProcGroupMember>,
 {
    &&& crate::linux::tree::walked_tree(
        task_ids,
        task_children,
        seq![child_pid, process_group_id],
        pids,
    )
    &&& answers.len() == pids.len()
    &&& forall|k: int|
        0 <= k < pids.len() ==> call_ensures(
            live_member,
            (process_group_id, pids[k]),
            #[trigger] answers[k],
        )
    &&& match members {
        Some(members) => {
            &&& members@.len() > 0
            &&& sorted_by_pid(members@)
            &&& members@.to_multiset() == crate::process::present(answers).to_multiset()
        },
        None => crate::process::present(answers).len() == 0,
    }
}

/// Puts `member` where its id belongs in an ascending list.
fn insert_member(members: &mut Vec<ProcGroupMember>, member: ProcGroupMember)
    requires
        sorted_by_pid(old(members)@),
    ensures
        sorted_by_pid(final(members)@),
        final(members)@.to_multiset() == old(members)@.to_multiset().insert(member),
        final(members)@.len() == old(members)@.len() + 1,
{
    let mut at: usize = members.len();
    while at > 0 && members[at - 1].pid > member.pid
        invariant
            members@ == old(members)@,
            at <= members@.len(),
            sorted_by_pid(members@),
            forall|k: int| at <= k < members@.len() ==> (#[trigger] members@[k]).pid > member.pid,
        decreases at,
    {
        at = at - 1;
    }
    let ghost before = members@;
    proof {
        vstd::seq_lib::to_multiset_insert(before, at as int, member);
        if at > 0 {
            assert forall|k: int| 0 <= k < at implies (#[trigger] before[k]).pid
                <= member.pid by {
                if k < at - 1 {
                    assert(before[k].pid <= before[at - 1].pid);
                }
            }
        }
    }
    members.insert(at, member);
    assert(sorted_by_pid(members@));
}

/// The live members of `process_group_id` among the processes below the shell `child_pid` and
/// below the group's leader, in ascending order of their ids.
pub fn foreground_process_group_members_with<T, C, L>(
    child_pid: u32,
    process_group_id: u32,
    task_ids: T,
    task_children: C,
    live_member: L,
) -> (members: Option<Vec<ProcGroupMember>>) where
    T: FnMut(u32) -> Vec<u32>,
    C: FnMut(u32, u32) -> Vec<u32>,
    L: FnMut(u32, u32) -> Option<ProcGroupMember>,

    requires
        forall|pid: u32| call_requires(task_ids, (pid,)),
        forall|pid: u32, tid: u32| call_requires(task_children, (pid, tid)),
        forall|pid: u32| call_requires(live_member, (process_group_id, pid)),
    ensures
        exists|pids: Seq<u32>, answers: Seq<Option<ProcGroupMember>>| #[trigger]
            is_member_search(
                task_ids,
                task_children,
                live_member,
                child_pid,
                process_group_id,
                pids,
                answers,
                members,
            ),
{
    let mut ask_member = live_member;
    let roots: [u32; 2] = [child_pid, process_group_id];
    assert(roots@ =~= seq![child_pid, process_group_id]);
    let pids: Vec<u32> = process_tree_pids(&roots, task_ids, task_children);
    let mut members: Vec<ProcGroupMember> = Vec::new();
    let ghost mut answers: Seq<Option<ProcGroupMember>> = Seq::empty();
    let mut i: usize = 0;
    while i < pids.len()
        invariant
            ask_member == live_member,
            forall|pid: u32| call_requires(ask_member, (process_group_id, pid)),
            i <= pids@.len(),
            answers.len() == i,
            forall|k: int|
                0 <= k < i ==> call_ensures(
                    live_member,
                    (process_group_id, pids@[k]),
                    #[trigger] answers[k],
                ),
            sorted_by_pid(members@),
            members@.to_multiset() == crate::process::present(answers).to_multiset(),
            members@.len() == crate::process::present(answers).len(),
        decreases pids@.len() - i,
    {
        let answer: Option<ProcGroupMember> = ask_member(process_group_id, pids[i]);
        proof {
            let more = answers.push(answer);
            assert(more.drop_last() =~= answers);
            if answer is Some {
                vstd::seq_lib::to_multiset_build(crate::process::present(answers), answer->0);
            }
            answers = more;
        }
        match answer {
            Some(member) => insert_member(&mut members, member),
            None => {},
        }
        i = i + 1;
    }
    let members: Option<Vec<ProcGroupMember>> = if members.is_empty() {
        None
    } else {
        Some(members)
    };
    assert(is_member_search(
        task_ids,
        task_children,
        live_member,
        child_pid,
        process_group_id,
        pids@,
        answers,
        members,
    ));
    members
}

} // verus!
