//! Breadth-first discovery of the processes below a set of roots.
use std::collections::HashSet;
use std::collections::VecDeque;
use vstd::prelude::*;

verus! {

/// The positive numbers of `s`, each where it occurs first.
pub open spec fn distinct_positive(s: Seq<u32>) -> Seq<u32>
    decreases s.len(),
{
    if s.len() == 0 {
        Seq::empty()
    } else {
        let before = distinct_positive(s.drop_last());
        if s.last() > 0 && !before.contains(s.last()) {
            before.push(s.last())
        } else {
            before
        }
    }
}

/// The contents of a list of id lists.
pub open spec fn id_lists(lists: Seq<Vec<u32>>) -> Seq<Seq<u32>> {
    Seq::new(lists.len(), |i: int| lists[i]@)
}

/// The processes known once the roots and the given children reports have been seen.
pub open spec fn discovered(roots: Seq<u32>, reports: Seq<Seq<u32>>) -> Seq<u32> {
    distinct_positive(roots + reports.flatten())
}

/// `pids` is the walk that starts at `roots` and asks each process for its children in the order
/// of discovery, where the `k`-th process answered `reports[k]`.
pub open spec fn is_tree_walk(roots: Seq<u32>, reports: Seq<Seq<u32>>, pids: Seq<u32>) -> bool {
    &&& reports.len() == pids.len()
    &&& pids == discovered(roots, reports)
    &&& forall|k: int|
        0 <= k < pids.len() ==> k < #[trigger] discovered(roots, reports.take(k)).len()
}

/// `tids` and `lists` are answers to the questions which tasks `pid` has and which children each
/// of those tasks has.
pub open spec fn task_answers<T, C>(
    task_ids: T,
    task_children: C,
    pid: u32,
    tids: Vec<u32>,
    lists: Seq<Vec<u32>>,
) -> bool where T: FnMut(u32) -> Vec<u32>, C: FnMut(u32, u32) -> Vec<u32> {
    &&& call_ensures(task_ids, (pid,), tids)
    &&& lists.len() == tids@.len()
    &&& forall|j: int|
        0 <= j < lists.len() ==> call_ensures(task_children, (pid, tids@[j]), #[trigger] lists[j])
}

/// `children` is what the tasks of `pid` answered for its children, task after task.
pub open spec fn reported_children<T, C>(
    task_ids: T,
    task_children: C,
    pid: u32,
    children: Seq<u32>,
) -> bool where T: FnMut(u32) -> Vec<u32>, C: FnMut(u32, u32) -> Vec<u32> {
    exists|tids: Vec<u32>, lists: Seq<Vec<u32>>|
        #[trigger] task_answers(task_ids, task_children, pid, tids, lists) && children == id_lists(
            lists,
        ).flatten()
}

/// `pids` is a walk from `roots` whose reports are all answers of the two closures.
pub open spec fn walked_tree<T, C>(
    task_ids: T,
    task_children: C,
    roots: Seq<u32>,
    pids: Seq<u32>,
) -> bool where T: FnMut(u32) -> Vec<u32>, C: FnMut(u32, u32) -> Vec<u32> {
    exists|reports: Seq<Seq<u32>>|
        {
            &&& #[trigger] is_tree_walk(roots, reports, pids)
            &&& forall|k: int|
                0 <= k < pids.len() ==> reported_children(
                    task_ids,
                    task_children,
                    pids[k],
                    #[trigger] reports[k],
                )
        }
}

/// What `distinct_positive` keeps: every positive number of `s`, once.
proof fn lemma_distinct_positive(s: Seq<u32>)
    ensures
        distinct_positive(s).no_duplicates(),
        forall|x: u32| #[trigger]
            distinct_positive(s).contains(x) <==> x > 0 && s.contains(x),
    decreases s.len(),
{
    if s.len() > 0 {
        let short = s.drop_last();
        let before = distinct_positive(short);
        lemma_distinct_positive(short);
        assert forall|x: u32| #[trigger] distinct_positive(s).contains(x) <==> x > 0
            && s.contains(x) by {
            if s.contains(x) && x > 0 {
                let i = choose|i: int| 0 <= i < s.len() && s[i] == x;
                if i < s.len() - 1 {
                    assert(short[i] == x);
                    assert(before.contains(x));
                    let k = choose|k: int| 0 <= k < before.len() && before[k] == x;
                    assert(distinct_positive(s)[k] == x);
                } else if before.contains(x) {
                } else {
                    assert(distinct_positive(s).last() == x);
                }
            }
            if distinct_positive(s).contains(x) {
                let k = choose|k: int|
                    0 <= k < distinct_positive(s).len() && distinct_positive(s)[k] == x;
                if k < before.len() {
                    assert(before[k] == x);
                    assert(before.contains(x));
                    assert(short.contains(x));
                    let i = choose|i: int| 0 <= i < short.len() && short[i] == x;
                    assert(s[i] == x);
                } else {
                    assert(s[s.len() - 1] == x);
                }
            }
        }
    }
}

/// Later reports only add processes behind those already known.
proof fn lemma_distinct_positive_extends(s: Seq<u32>, t: Seq<u32>)
    ensures
        distinct_positive(s).is_prefix_of(distinct_positive(s + t)),
    decreases t.len(),
{
    if t.len() == 0 {
        assert(s + t =~= s);
    } else {
        lemma_distinct_positive_extends(s, t.drop_last());
        assert((s + t).drop_last() =~= s + t.drop_last());
    }
}

/// There are no more distinct numbers below `n` than `n`.
proof fn lemma_distinct_bounded(s: Seq<u32>, n: nat)
    requires
        s.no_duplicates(),
        forall|i: int| 0 <= i < s.len() ==> #[trigger] s[i] < n,
    ensures
        s.len() <= n,
    decreases n,
{
    if n == 0 {
        if s.len() > 0 {
            assert(s[0] < n);
        }
    } else if exists|i: int| 0 <= i < s.len() && s[i] == n - 1 {
        let i = choose|i: int| 0 <= i < s.len() && s[i] == n - 1;
        let rest = s.remove(i);
        assert forall|a: int, b: int|
            0 <= a < rest.len() && 0 <= b < rest.len() && a != b implies rest[a] != rest[b] by {
            let a2 = if a < i { a } else { a + 1 };
            let b2 = if b < i { b } else { b + 1 };
            assert(s[a2] != s[b2]);
        }
        assert forall|a: int| 0 <= a < rest.len() implies #[trigger] rest[a] < n - 1 by {
            let a2 = if a < i { a } else { a + 1 };
            assert(s[a2] < n);
            assert(s[a2] != s[i]);
        }
        lemma_distinct_bounded(rest, (n - 1) as nat);
    } else {
        assert forall|a: int| 0 <= a < s.len() implies #[trigger] s[a] < n - 1 by {
            assert(s[a] < n);
        }
        lemma_distinct_bounded(s, (n - 1) as nat);
    }
}

/// A walk lists at most as many processes as there are ids.
proof fn lemma_discovered_bounded(s: Seq<u32>)
    ensures
        distinct_positive(s).len() <= 0x1_0000_0000,
{
    lemma_distinct_positive(s);
    lemma_distinct_bounded(distinct_positive(s), 0x1_0000_0000);
}

/// Takes note of one id: a new positive one joins the known ids and the queue.
fn note_pid(
    pid: u32,
    visited: &mut HashSet<u32>,
    pending: &mut VecDeque<u32>,
    Ghost(seen): Ghost<Seq<u32>>,
    Ghost(done): Ghost<Seq<u32>>,
)
    requires
        old(visited)@ == distinct_positive(seen).to_set(),
        distinct_positive(seen) == done + old(pending)@,
    ensures
        final(visited)@ == distinct_positive(seen.push(pid)).to_set(),
        distinct_positive(seen.push(pid)) == done + final(pending)@,
{
    proof {
        assert(seen.push(pid).drop_last() =~= seen);
    }
    let ghost known = distinct_positive(seen);
    if pid > 0 && visited.insert(pid) {
        pending.push_back(pid);
        proof {
            assert(!known.to_set().contains(pid));
            assert(!known.contains(pid));
            assert(known.push(pid).to_set() =~= known.to_set().insert(pid)) by {
                assert forall|x: u32|
                    known.push(pid).to_set().contains(x) <==> known.to_set().insert(pid).contains(x)
                by {
                    if known.contains(x) {
                        let k = choose|k: int| 0 <= k < known.len() && known[k] == x;
                        assert(known.push(pid)[k] == x);
                    }
                    assert(known.push(pid)[known.len() as int] == pid);
                }
            }
            assert(done + pending@ =~= known.push(pid));
        }
    } else {
        proof {
            if pid > 0 {
                assert(known.to_set().contains(pid));
                assert(known.contains(pid));
                assert(known.to_set().insert(pid) =~= known.to_set());
            }
        }
    }
}

/// Lists every process reachable from the positive `roots` through the reported children, in
/// breadth-first order of discovery and each once.
pub fn process_tree_pids<T, C>(roots: &[u32], mut task_ids: T, mut task_children: C) -> (pids: Vec<
    u32,
>) where T: FnMut(u32) -> Vec<u32>, C: FnMut(u32, u32) -> Vec<u32>
    requires
        forall|pid: u32| call_requires(task_ids, (pid,)),
        forall|pid: u32, tid: u32| call_requires(task_children, (pid, tid)),
    ensures
        walked_tree(task_ids, task_children, roots@, pids@),
{
    let ghost ask_tasks = task_ids;
    let ghost ask_children = task_children;
    let mut pending: VecDeque<u32> = VecDeque::new();
    let mut visited: HashSet<u32> = HashSet::new();
    let ghost no_pids: Seq<u32> = Seq::empty();
    let mut r: usize = 0;
    proof {
        assert(roots@.take(0) =~= Seq::<u32>::empty());
        assert(Seq::<u32>::empty().to_set() =~= Set::<u32>::empty());
        assert(no_pids + pending@ =~= distinct_positive(roots@.take(0)));
    }
    while r < roots.len()
        invariant
            r <= roots@.len(),
            no_pids == Seq::<u32>::empty(),
            visited@ == distinct_positive(roots@.take(r as int)).to_set(),
            distinct_positive(roots@.take(r as int)) == no_pids + pending@,
        decreases roots@.len() - r,
    {
        note_pid(
            roots[r],
            &mut visited,
            &mut pending,
            Ghost(roots@.take(r as int)),
            Ghost(no_pids),
        );
        assert(roots@.take(r as int).push(roots@[r as int]) =~= roots@.take(r + 1));
        r = r + 1;
    }
    let mut pids: Vec<u32> = Vec::new();
    let ghost mut reports: Seq<Seq<u32>> = Seq::empty();
    proof {
        assert(roots@.take(r as int) =~= roots@);
        assert(roots@ + reports.flatten() =~= roots@);
        assert(pids@ + pending@ =~= pending@);
    }
    loop
        invariant
            task_ids == ask_tasks,
            task_children == ask_children,
            forall|pid: u32| call_requires(task_ids, (pid,)),
            forall|pid: u32, tid: u32| call_requires(task_children, (pid, tid)),
            visited@ == discovered(roots@, reports).to_set(),
            discovered(roots@, reports) == pids@ + pending@,
            reports.len() == pids@.len(),
            forall|k: int|
                0 <= k < pids@.len() ==> k < #[trigger] discovered(roots@, reports.take(k)).len(),
            forall|k: int|
                0 <= k < pids@.len() ==> reported_children(
                    ask_tasks,
                    ask_children,
                    pids@[k],
                    #[trigger] reports[k],
                ),
        ensures
            walked_tree(ask_tasks, ask_children, roots@, pids@),
        decreases 0x1_0000_0000 - discovered(roots@, reports).len(), pending@.len(),
    {
        let ghost waiting = pending@;
        match pending.pop_front() {
            None => {
                proof {
                    assert(pids@ + pending@ =~= pids@);
                    assert(is_tree_walk(roots@, reports, pids@));
                }
                break;
            },
            Some(pid) => {
                let ghost base = roots@ + reports.flatten();
                let ghost old_reports = reports;
                let ghost old_pids = pids@;
                pids.push(pid);
                assert(old_pids + waiting =~= pids@ + pending@);
                let tids: Vec<u32> = task_ids(pid);
                let ghost mut lists: Seq<Vec<u32>> = Seq::empty();
                let mut t: usize = 0;
                assert(base + id_lists(lists).flatten() =~= base) by {
                    assert(id_lists(lists).len() == 0);
                }
                while t < tids.len()
                    invariant
                        task_children == ask_children,
                        forall|pid: u32, tid: u32| call_requires(task_children, (pid, tid)),
                        t <= tids@.len(),
                        lists.len() == t,
                        forall|j: int|
                            0 <= j < t ==> call_ensures(
                                ask_children,
                                (pid, tids@[j]),
                                #[trigger] lists[j],
                            ),
                        visited@ == distinct_positive(base + id_lists(lists).flatten()).to_set(),
                        distinct_positive(base + id_lists(lists).flatten()) == pids@ + pending@,
                    decreases tids@.len() - t,
                {
                    let children: Vec<u32> = task_children(pid, tids[t]);
                    let ghost flat = base + id_lists(lists).flatten();
                    let mut c: usize = 0;
                    assert(flat + children@.take(0) =~= flat);
                    while c < children.len()
                        invariant
                            c <= children@.len(),
                            visited@ == distinct_positive(flat + children@.take(c as int)).to_set(),
                            distinct_positive(flat + children@.take(c as int)) == pids@ + pending@,
                        decreases children@.len() - c,
                    {
                        note_pid(
                            children[c],
                            &mut visited,
                            &mut pending,
                            Ghost(flat + children@.take(c as int)),
                            Ghost(pids@),
                        );
                        assert((flat + children@.take(c as int)).push(children@[c as int]) =~= flat
                            + children@.take(c + 1));
                        c = c + 1;
                    }
                    proof {
                        assert(children@.take(c as int) =~= children@);
                        let more = lists.push(children);
                        assert(id_lists(more) =~= id_lists(lists).push(children@));
                        id_lists(lists).lemma_flatten_push(children@);
                        assert(base + id_lists(more).flatten() =~= flat + children@);
                        lists = more;
                    }
                    t = t + 1;
                }
                proof {
                    let report = id_lists(lists).flatten();
                    assert(task_answers(ask_tasks, ask_children, pid, tids, lists));
                    reports = old_reports.push(report);
                    old_reports.lemma_flatten_push(report);
                    assert(roots@ + reports.flatten() =~= base + report);
                    assert(reports.take(old_reports.len() as int) =~= old_reports);
                    assert forall|k: int| 0 <= k < pids@.len() implies k < #[trigger] discovered(
                        roots@,
                        reports.take(k),
                    ).len() by {
                        if k < old_pids.len() {
                            assert(reports.take(k) =~= old_reports.take(k));
                        }
                    }
                    assert forall|k: int| 0 <= k < pids@.len() implies reported_children(
                        ask_tasks,
                        ask_children,
                        pids@[k],
                        #[trigger] reports[k],
                    ) by {
                        if k < old_pids.len() {
                            assert(pids@[k] == old_pids[k]);
                            assert(reports[k] == old_reports[k]);
                        }
                    }
                    lemma_distinct_positive_extends(base, report);
                    lemma_discovered_bounded(base + report);
                    let before = discovered(roots@, old_reports);
                    let after = discovered(roots@, reports);
                    if before.len() == after.len() {
                        assert((pids@ + pending@).len() == (old_pids + waiting).len());
                    }
                }
            },
        }
    }
    pids
}

// ---------------------------------------------------------------------------
// Laws of the walk
// ---------------------------------------------------------------------------

/// Membership in a flattened list is membership in one of the lists.
pub proof fn lemma_flatten_contains(lists: Seq<Seq<u32>>, x: u32)
    ensures
        lists.flatten().contains(x) <==> exists|j: int|
            0 <= j < lists.len() && #[trigger] lists[j].contains(x),
    decreases lists.len(),
{
    if lists.len() == 0 {
        assert(lists.flatten() =~= Seq::<u32>::empty());
    } else {
        let rest = lists.drop_first();
        lemma_flatten_contains(rest, x);
        let flat = lists.flatten();
        assert(flat == lists.first() + rest.flatten());
        if flat.contains(x) {
            let i = choose|i: int| 0 <= i < flat.len() && flat[i] == x;
            if i < lists.first().len() {
                assert(lists.first()[i] == x);
                assert(lists[0].contains(x));
            } else {
                assert(rest.flatten()[i - lists.first().len()] == x);
                assert(rest.flatten().contains(x));
                let j = choose|j: int| 0 <= j < rest.len() && #[trigger] rest[j].contains(x);
                assert(lists[j + 1].contains(x));
            }
        }
        if exists|j: int| 0 <= j < lists.len() && #[trigger] lists[j].contains(x) {
            let j = choose|j: int| 0 <= j < lists.len() && #[trigger] lists[j].contains(x);
            if j == 0 {
                let i = choose|i: int| 0 <= i < lists[0].len() && lists[0][i] == x;
                assert(flat[i] == x);
            } else {
                assert(rest[j - 1].contains(x));
                let tail = rest.flatten();
                let i = choose|i: int| 0 <= i < tail.len() && tail[i] == x;
                assert(flat[i + lists.first().len()] == x);
            }
        }
    }
}

/// Cutting a report list off at `k` leaves a prefix of what the whole list makes known.
proof fn lemma_discovered_prefix(roots: Seq<u32>, reports: Seq<Seq<u32>>, k: int)
    requires
        0 <= k <= reports.len(),
    ensures
        discovered(roots, reports.take(k)).is_prefix_of(discovered(roots, reports)),
{
    let head = reports.take(k);
    let tail = reports.skip(k);
    assert(head + tail =~= reports);
    vstd::seq_lib::lemma_flatten_concat(head, tail);
    assert(roots + reports.flatten() =~= (roots + head.flatten()) + tail.flatten());
    lemma_distinct_positive_extends(roots + head.flatten(), tail.flatten());
}

/// A walk lists no process twice and never the id 0.
pub proof fn walk_lists_each_process_once(
    roots: Seq<u32>,
    reports: Seq<Seq<u32>>,
    pids: Seq<u32>,
)
    requires
        is_tree_walk(roots, reports, pids),
    ensures
        pids.no_duplicates(),
        !pids.contains(0),
{
    lemma_distinct_positive(roots + reports.flatten());
}

/// A walk lists every positive root and every positive child that a listed process reported.
pub proof fn walk_reaches_every_child(roots: Seq<u32>, reports: Seq<Seq<u32>>, pids: Seq<u32>)
    requires
        is_tree_walk(roots, reports, pids),
    ensures
        forall|root: u32| root > 0 && #[trigger] roots.contains(root) ==> pids.contains(root),
        forall|k: int, child: u32|
            0 <= k < pids.len() && child > 0 && #[trigger] reports[k].contains(child)
                ==> pids.contains(child),
{
    let all = roots + reports.flatten();
    lemma_distinct_positive(all);
    assert forall|root: u32| root > 0 && #[trigger] roots.contains(root) implies pids.contains(
        root,
    ) by {
        let i = choose|i: int| 0 <= i < roots.len() && roots[i] == root;
        assert(all[i] == root);
        assert(all.contains(root));
    }
    assert forall|k: int, child: u32|
        0 <= k < pids.len() && child > 0 && #[trigger] reports[k].contains(
            child,
        ) implies pids.contains(child) by {
        lemma_flatten_contains(reports, child);
        let flat = reports.flatten();
        let i = choose|i: int| 0 <= i < flat.len() && flat[i] == child;
        assert(all[roots.len() + i] == child);
        assert(all.contains(child));
    }
}

/// A walk lists nothing else: each listed process is a root or was reported by a process listed
/// before it.
pub proof fn walk_lists_only_descendants(roots: Seq<u32>, reports: Seq<Seq<u32>>, pids: Seq<u32>)
    requires
        is_tree_walk(roots, reports, pids),
    ensures
        forall|k: int|
            0 <= k < pids.len() ==> roots.contains(#[trigger] pids[k]) || exists|j: int|
                0 <= j < k && #[trigger] reports[j].contains(pids[k]),
{
    assert forall|k: int| 0 <= k < pids.len() implies roots.contains(#[trigger] pids[k])
        || exists|j: int| 0 <= j < k && #[trigger] reports[j].contains(pids[k]) by {
        let pid = pids[k];
        let head = reports.take(k);
        let known = discovered(roots, head);
        lemma_discovered_prefix(roots, reports, k);
        assert(k < known.len());
        assert(known[k] == pid);
        assert(known.contains(pid));
        let all = roots + head.flatten();
        lemma_distinct_positive(all);
        assert(all.contains(pid));
        let i = choose|i: int| 0 <= i < all.len() && all[i] == pid;
        if i < roots.len() {
            assert(roots[i] == pid);
        } else {
            assert(head.flatten()[i - roots.len()] == pid);
            assert(head.flatten().contains(pid));
            lemma_flatten_contains(head, pid);
            let j = choose|j: int| 0 <= j < head.len() && #[trigger] head[j].contains(pid);
            assert(reports[j].contains(pid));
        }
    }
}

/// Two walks from the same roots over the same family relation are the same walk.
pub proof fn walk_is_determined(
    roots: Seq<u32>,
    children: spec_fn(u32) -> Seq<u32>,
    reports1: Seq<Seq<u32>>,
    pids1: Seq<u32>,
    reports2: Seq<Seq<u32>>,
    pids2: Seq<u32>,
)
    requires
        is_tree_walk(roots, reports1, pids1),
        is_tree_walk(roots, reports2, pids2),
        forall|k: int| 0 <= k < pids1.len() ==> #[trigger] reports1[k] == children(pids1[k]),
        forall|k: int| 0 <= k < pids2.len() ==> #[trigger] reports2[k] == children(pids2[k]),
    ensures
        pids1 == pids2,
{
    let shared = if pids1.len() <= pids2.len() {
        pids1.len()
    } else {
        pids2.len()
    };
    lemma_walks_agree(roots, children, reports1, pids1, reports2, pids2, shared as int);
    assert(reports1.take(shared as int) =~= reports2.take(shared as int)) by {
        assert forall|k: int| 0 <= k < shared implies reports1[k] == reports2[k] by {
            assert(pids1.take(shared as int)[k] == pids1[k]);
            assert(pids2.take(shared as int)[k] == pids2[k]);
        }
    }
    if shared < pids1.len() {
        assert(reports2.take(shared as int) =~= reports2);
        assert(shared < discovered(roots, reports1.take(shared as int)).len());
    } else if shared < pids2.len() {
        assert(reports1.take(shared as int) =~= reports1);
        assert(shared < discovered(roots, reports2.take(shared as int)).len());
    } else {
        assert(pids1.take(shared as int) =~= pids1);
        assert(pids2.take(shared as int) =~= pids2);
    }
}

/// Two walks over the same relation agree on their first `k` processes.
proof fn lemma_walks_agree(
    roots: Seq<u32>,
    children: spec_fn(u32) -> Seq<u32>,
    reports1: Seq<Seq<u32>>,
    pids1: Seq<u32>,
    reports2: Seq<Seq<u32>>,
    pids2: Seq<u32>,
    k: int,
)
    requires
        is_tree_walk(roots, reports1, pids1),
        is_tree_walk(roots, reports2, pids2),
        forall|k: int| 0 <= k < pids1.len() ==> #[trigger] reports1[k] == children(pids1[k]),
        forall|k: int| 0 <= k < pids2.len() ==> #[trigger] reports2[k] == children(pids2[k]),
        0 <= k <= pids1.len(),
        k <= pids2.len(),
    ensures
        pids1.take(k) == pids2.take(k),
    decreases k,
{
    if k > 0 {
        let n = k - 1;
        lemma_walks_agree(roots, children, reports1, pids1, reports2, pids2, n);
        assert(reports1.take(n) =~= reports2.take(n)) by {
            assert forall|i: int| 0 <= i < n implies reports1[i] == reports2[i] by {
                assert(pids1.take(n)[i] == pids1[i]);
                assert(pids2.take(n)[i] == pids2[i]);
            }
        }
        let known = discovered(roots, reports1.take(n));
        lemma_discovered_prefix(roots, reports1, n);
        lemma_discovered_prefix(roots, reports2, n);
        assert(n < known.len());
        assert(n < discovered(roots, reports2.take(n)).len());
        assert(pids1[n] == known[n]);
        assert(pids2[n] == known[n]);
        assert(pids1.take(k) =~= pids1.take(n).push(pids1[n]));
        assert(pids2.take(k) =~= pids2.take(n).push(pids2[n]));
    }
}

/// The first place of a number.
pub open spec fn is_first_place(s: Seq<u32>, x: u32, i: int) -> bool {
    &&& 0 <= i < s.len()
    &&& s[i] == x
    &&& forall|j: int| 0 <= j < i ==> #[trigger] s[j] != x
}

/// The order of `distinct_positive` is that of the first places.
proof fn lemma_distinct_order(s: Seq<u32>, a: int, b: int, i: int, j: int)
    requires
        0 <= a < b < distinct_positive(s).len(),
        is_first_place(s, distinct_positive(s)[a], i),
        is_first_place(s, distinct_positive(s)[b], j),
    ensures
        i < j,
    decreases s.len(),
{
    let short = s.drop_last();
    let before = distinct_positive(short);
    let x = distinct_positive(s)[a];
    let y = distinct_positive(s)[b];
    lemma_distinct_positive(short);
    assert(before[a] == x);
    assert(before.contains(x));
    let k = choose|k: int| 0 <= k < short.len() && short[k] == x;
    assert(s[k] == x);
    assert(i <= k);
    assert(short[i] == x);
    if b < before.len() {
        assert(before[b] == y);
        assert(before.contains(y));
        let m = choose|m: int| 0 <= m < short.len() && short[m] == y;
        assert(s[m] == y);
        assert(j <= m);
        assert forall|n: int| 0 <= n < i implies #[trigger] short[n] != x by {
            assert(s[n] != x);
        }
        assert forall|n: int| 0 <= n < j implies #[trigger] short[n] != y by {
            assert(s[n] != y);
        }
        lemma_distinct_order(short, a, b, i, j);
    } else {
        assert(y == s.last());
        assert(!before.contains(y));
        if j < short.len() {
            assert(short[j] == y);
            assert(short.contains(y));
        }
    }
}

/// A walk goes level by level: processes stand in the order in which they were met first, the roots
/// before the children of the first process, and these before the children of the second.
pub proof fn walks_go_level_by_level(
    roots: Seq<u32>,
    reports: Seq<Seq<u32>>,
    pids: Seq<u32>,
    a: int,
    b: int,
    i: int,
    j: int,
)
    requires
        is_tree_walk(roots, reports, pids),
        0 <= a < b < pids.len(),
        is_first_place(roots + reports.flatten(), pids[a], i),
        is_first_place(roots + reports.flatten(), pids[b], j),
    ensures
        i < j,
{
    lemma_distinct_order(roots + reports.flatten(), a, b, i, j);
}

/// The lists of ids are those of the vectors, none left out.
pub proof fn every_list_is_there(lists: Seq<Vec<u32>>)
    ensures
        id_lists(lists).len() == lists.len(),
        forall|i: int| 0 <= i < lists.len() ==> #[trigger] id_lists(lists)[i] == lists[i]@,
{
}

} // verus!
