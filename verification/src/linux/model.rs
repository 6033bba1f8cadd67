//! The process table of a kernel, and what is made of the files that show it.
use crate::linux::environment::ProcessDetectionMode;
use crate::linux::proc_fs::ProcFs;
use vstd::prelude::*;

verus! {

/// A live process.
pub struct ProcessEntry {
    pub name: Seq<char>,
    pub state: Seq<char>,
    pub ppid: int,
    pub pgrp: i32,
    pub session: i32,
    pub tty: int,
    pub tpgid: int,
    /// The rest of the `stat` line.
    pub rest: Seq<char>,
    pub tasks: Seq<u32>,
    /// The children of each task.
    pub children: Map<u32, Seq<u32>>,
    pub argv: Seq<Seq<u8>>,
}

/// The live processes by their ids.
pub struct ProcessTable {
    pub processes: Map<u32, ProcessEntry>,
}

impl ProcessEntry {
    /// A process can be like this: nothing but its name holds a parenthesis, and its arguments are
    /// not empty and hold no NUL bytes.
    pub open spec fn is_valid(self) -> bool {
        &&& crate::text::is_field(self.state)
        &&& !self.state.contains(')')
        &&& !self.rest.contains(')')
        &&& forall|i: int|
            0 <= i < self.argv.len() ==> (#[trigger] self.argv[i]).len() > 0
                && !self.argv[i].contains(0u8)
    }

    /// The `stat` line of the process.
    pub open spec fn line(self, pid: u32) -> Seq<char> {
        crate::linux::stat::stat_line(
            crate::text::decimal(pid as nat).push(' '),
            self.name,
            self.state,
            self.ppid,
            self.pgrp as int,
            self.session as int,
            self.tty,
            self.tpgid,
            self.rest,
        )
    }

    /// One of the tasks has the child.
    pub open spec fn has_child(self, child: u32) -> bool {
        exists|t: int|
            0 <= t < self.tasks.len() && self.children[#[trigger] self.tasks[t]].contains(child)
    }
}

impl ProcessTable {
    /// The process is alive.
    pub open spec fn lives(self, pid: u32) -> bool {
        self.processes.dom().contains(pid)
    }

    /// Every process can be like this.
    pub open spec fn is_valid(self) -> bool {
        forall|pid: u32| #[trigger] self.lives(pid) ==> self.processes[pid].is_valid()
    }

    /// Process `i` of `path` is a child of the one before it.
    pub open spec fn leads(self, path: Seq<u32>, i: int) -> bool {
        self.lives(path[i - 1]) && self.processes[path[i - 1]].has_child(path[i])
    }

    /// `path` leads from one of the roots down, each process a child of the one before.
    pub open spec fn is_path(self, roots: Seq<u32>, path: Seq<u32>) -> bool {
        &&& path.len() > 0
        &&& roots.contains(path[0])
        &&& forall|i: int| 0 <= i < path.len() ==> #[trigger] path[i] > 0
        &&& forall|i: int| 0 < i < path.len() ==> #[trigger] self.leads(path, i)
    }

    /// `pid` is one of the roots or below one.
    pub open spec fn is_reached(self, roots: Seq<u32>, pid: u32) -> bool {
        exists|path: Seq<u32>| #[trigger] self.is_path(roots, path) && path.last() == pid
    }

    /// `pid` is a live process of the group that the roots reach.
    pub open spec fn is_member(self, roots: Seq<u32>, process_group_id: u32, pid: u32) -> bool {
        &&& self.is_reached(roots, pid)
        &&& self.lives(pid)
        &&& self.processes[pid].pgrp > 0
        &&& self.processes[pid].pgrp == process_group_id
    }

    /// `process` is a live process with its name and its arguments.
    pub open spec fn describes(self, process: crate::process::ProcessView) -> bool {
        let entry = self.processes[process.pid];
        &&& process.name == entry.name
        &&& process.argv is Some <==> entry.argv.len() > 0
        &&& process.cmdline is Some <==> entry.argv.len() > 0
        &&& process.argv matches Some(argv) ==> {
            &&& argv.len() == entry.argv.len()
            &&& forall|i: int|
                0 <= i < argv.len() ==> #[trigger] argv[i] == crate::text::utf8_lossy(
                    entry.argv[i],
                )
            &&& process.cmdline == Some(crate::text::spaced(argv))
        }
    }
}

/// Entries that name these ids.
pub open spec fn are_names_of(names: Seq<Option<String>>, ids: Seq<u32>) -> bool {
    &&& names.len() == ids.len()
    &&& forall|i: int|
        0 <= i < names.len() ==> #[trigger] names[i] is Some && names[i]->0@
            == crate::text::decimal(ids[i] as nat)
}

/// The files show the table.
pub open spec fn shows<S, N, K, A>(proc_fs: ProcFs<S, N, K, A>, table: ProcessTable) -> bool where
    S: Fn(u32) -> Option<String>,
    N: Fn(u32) -> Vec<Option<String>>,
    K: Fn(u32, u32) -> Option<String>,
    A: Fn(u32) -> Option<Vec<u8>>,
 {
    &&& shows_lines(proc_fs.stat, table)
    &&& forall|pid: u32, names: Vec<Option<String>>| #[trigger]
        call_ensures(proc_fs.task_names, (pid,), names) ==> are_names_of(
            names@,
            if table.lives(pid) {
                table.processes[pid].tasks
            } else {
                Seq::empty()
            },
        )
    &&& forall|pid: u32, tid: u32, text: Option<String>| #[trigger]
        call_ensures(proc_fs.task_children, (pid, tid), text) && table.lives(pid)
            && table.processes[pid].tasks.contains(tid) ==> {
            let ids = table.processes[pid].children[tid];
            text is Some && text->0@ == crate::text::spread(
                Seq::new(ids.len(), |i: int| crate::text::decimal(ids[i] as nat)),
            )
        }
    &&& forall|pid: u32, bytes: Option<Vec<u8>>| #[trigger]
        call_ensures(proc_fs.cmdline, (pid,), bytes) && table.lives(pid) ==> bytes is Some
            && bytes->0@ == crate::text::nul_joined(table.processes[pid].argv)
}

/// The `stat` files show the table.
pub open spec fn shows_lines<S>(stat: S, table: ProcessTable) -> bool where
    S: Fn(u32) -> Option<String>,
 {
    forall|pid: u32, text: Option<String>| #[trigger]
        call_ensures(stat, (pid,), text) ==> if table.lives(pid) {
            text is Some && text->0@ == table.processes[pid].line(pid)
        } else {
            text is None
        }
}

// ---------------------------------------------------------------------------
// Single processes
// ---------------------------------------------------------------------------

/// What the `stat` file of a process says is what the table holds of it, and a process that is not
/// alive has none of it: its group and name, its session, and the foreground group of its terminal.
pub proof fn processes_are_read_back<S>(
    stat: S,
    table: ProcessTable,
    pid: u32,
    found: Option<(i32, Seq<char>)>,
    session: Option<i32>,
    foreground: Option<u32>,
) where S: Fn(u32) -> Option<String>
    requires
        table.is_valid(),
        shows_lines(stat, table),
        crate::linux::proc_fs::reads_group_and_name(stat, pid, found),
        crate::linux::proc_fs::reads_session(stat, pid, session),
        crate::linux::proc_fs::reads_foreground_group(stat, pid, foreground),
    ensures
        table.lives(pid) ==> {
            let entry = table.processes[pid];
            &&& found == Some((entry.pgrp, entry.name))
            &&& session == Some(entry.session)
            &&& 0 < entry.tpgid <= i32::MAX ==> foreground == Some(entry.tpgid as u32)
            &&& !(0 < entry.tpgid <= i32::MAX) ==> foreground is None
        },
        !table.lives(pid) ==> found is None && session is None && foreground is None,
{
    lemma_group_and_name(stat, table, pid, found);
    lemma_session(stat, table, pid, session);
    lemma_foreground(stat, table, pid, foreground);
}

/// A line says what the table holds.
proof fn lemma_line(table: ProcessTable, pid: u32)
    requires
        table.is_valid(),
        table.lives(pid),
    ensures
        ({
            let entry = table.processes[pid];
            let line = entry.line(pid);
            &&& crate::linux::stat::stat_group_and_name(line) == Some((entry.pgrp, entry.name))
            &&& crate::linux::stat::stat_number(line, 3) == Some(entry.session)
            &&& 0 < entry.tpgid <= i32::MAX ==> crate::linux::stat::stat_foreground_group(line)
                == Some(entry.tpgid as u32)
            &&& !(0 < entry.tpgid <= i32::MAX) ==> crate::linux::stat::stat_foreground_group(
                line,
            ) is None
        }),
{
    let entry = table.processes[pid];
    assert(entry.is_valid());
    let head = crate::text::decimal(pid as nat).push(' ');
    crate::text::lemma_decimal(pid as nat);
    assert(!head.contains('(')) by {
        if head.contains('(') {
            let i = choose|i: int| 0 <= i < head.len() && head[i] == '(';
            if i < head.len() - 1 {
                assert(head[i] == crate::text::decimal(pid as nat)[i]);
            }
        }
    }
    crate::linux::stat::stat_lines_are_read_back(
        head,
        entry.name,
        entry.state,
        entry.ppid,
        entry.pgrp as int,
        entry.session as int,
        entry.tty,
        entry.tpgid,
        entry.rest,
    );
}

/// The group and the name in a `stat` file.
proof fn lemma_group_and_name<S>(
    stat: S,
    table: ProcessTable,
    pid: u32,
    found: Option<(i32, Seq<char>)>,
) where S: Fn(u32) -> Option<String>
    requires
        table.is_valid(),
        shows_lines(stat, table),
        crate::linux::proc_fs::reads_group_and_name(stat, pid, found),
    ensures
        table.lives(pid) ==> found == Some((table.processes[pid].pgrp, table.processes[pid].name)),
        !table.lives(pid) ==> found is None,
{
    let text = choose|text: Option<String>| #[trigger]
        call_ensures(stat, (pid,), text) && found == crate::linux::proc_fs::text_group_and_name(
            text,
        );
    assert(call_ensures(stat, (pid,), text));
    if table.lives(pid) {
        lemma_line(table, pid);
    }
}

/// The session in a `stat` file.
proof fn lemma_session<S>(stat: S, table: ProcessTable, pid: u32, session: Option<i32>) where
    S: Fn(u32) -> Option<String>,

    requires
        table.is_valid(),
        shows_lines(stat, table),
        crate::linux::proc_fs::reads_session(stat, pid, session),
    ensures
        table.lives(pid) ==> session == Some(table.processes[pid].session),
        !table.lives(pid) ==> session is None,
{
    if table.lives(pid) {
        lemma_line(table, pid);
    }
}

/// The foreground group in a `stat` file.
proof fn lemma_foreground<S>(stat: S, table: ProcessTable, pid: u32, group: Option<u32>) where
    S: Fn(u32) -> Option<String>,

    requires
        table.is_valid(),
        shows_lines(stat, table),
        crate::linux::proc_fs::reads_foreground_group(stat, pid, group),
    ensures
        table.lives(pid) && 0 < table.processes[pid].tpgid <= i32::MAX ==> group == Some(
            table.processes[pid].tpgid as u32,
        ),
        !(table.lives(pid) && 0 < table.processes[pid].tpgid <= i32::MAX) ==> group is None,
{
    if table.lives(pid) {
        lemma_line(table, pid);
    }
}

/// The arguments in a `cmdline` file.
proof fn lemma_argv<S, N, K, A>(
    proc_fs: ProcFs<S, N, K, A>,
    table: ProcessTable,
    pid: u32,
    argv: Option<Seq<Seq<char>>>,
) where
    S: Fn(u32) -> Option<String>,
    N: Fn(u32) -> Vec<Option<String>>,
    K: Fn(u32, u32) -> Option<String>,
    A: Fn(u32) -> Option<Vec<u8>>,

    requires
        table.is_valid(),
        shows(proc_fs, table),
        table.lives(pid),
        crate::linux::proc_fs::reads_argv(proc_fs.cmdline, pid, argv),
    ensures
        ({
            let entry = table.processes[pid];
            &&& argv is Some <==> entry.argv.len() > 0
            &&& argv matches Some(argv) ==> argv.len() == entry.argv.len() && forall|i: int|
                0 <= i < argv.len() ==> #[trigger] argv[i] == crate::text::utf8_lossy(
                    entry.argv[i],
                )
        }),
{
    let entry = table.processes[pid];
    assert(entry.is_valid());
    let bytes = choose|bytes: Option<Vec<u8>>| #[trigger]
        call_ensures(proc_fs.cmdline, (pid,), bytes) && argv == crate::linux::stat::cmdline_argv(
            bytes,
        );
    assert(call_ensures(proc_fs.cmdline, (pid,), bytes));
    if entry.argv.len() > 0 {
        crate::linux::stat::arguments_are_read_back(entry.argv, bytes->0);
        let read = crate::linux::stat::cmdline_argv(Some(bytes->0))->0;
        assert(argv == Some(read));
        assert forall|i: int| 0 <= i < read.len() implies #[trigger] argv->0[i]
            == crate::text::utf8_lossy(entry.argv[i]) by {
            assert(crate::linux::stat::cmdline_argv(Some(bytes->0))->0[i]
                == crate::text::utf8_lossy(entry.argv[i]));
        }
    } else {
        assert(bytes->0@.len() == 0);
        crate::linux::stat::only_empty_command_lines_have_no_arguments(bytes);
    }
}

/// The children in the task files of a process.
proof fn lemma_children<S, N, K, A>(
    proc_fs: ProcFs<S, N, K, A>,
    table: ProcessTable,
    pid: u32,
    children: Seq<u32>,
    child: u32,
) where
    S: Fn(u32) -> Option<String>,
    N: Fn(u32) -> Vec<Option<String>>,
    K: Fn(u32, u32) -> Option<String>,
    A: Fn(u32) -> Option<Vec<u8>>,

    requires
        shows(proc_fs, table),
        crate::linux::proc_fs::reads_children(
            proc_fs.task_names,
            proc_fs.task_children,
            pid,
            children,
        ),
    ensures
        children.contains(child) <==> table.lives(pid) && table.processes[pid].has_child(child),
{
    let (tids, lists) = choose|tids: Seq<u32>, lists: Seq<Seq<u32>>|
        #[trigger] crate::linux::proc_fs::reads_tasks(
            proc_fs.task_names,
            proc_fs.task_children,
            pid,
            tids,
            lists,
        ) && children == lists.flatten();
    lemma_task_ids(proc_fs, table, pid, tids);
    crate::linux::tree::lemma_flatten_contains(lists, child);
    if table.lives(pid) {
        let entry = table.processes[pid];
        assert forall|j: int| 0 <= j < lists.len() implies #[trigger] lists[j]
            == entry.children[tids[j]] by {
            assert(crate::linux::proc_fs::reads_task_children(
                proc_fs.task_children,
                pid,
                tids[j],
                lists[j],
            ));
            assert(entry.tasks.contains(tids[j]));
            lemma_task_children(proc_fs, table, pid, tids[j], lists[j]);
        }
        if children.contains(child) {
            let j = choose|j: int| 0 <= j < lists.len() && #[trigger] lists[j].contains(child);
            assert(entry.children[entry.tasks[j]].contains(child));
        }
        if entry.has_child(child) {
            let t = choose|t: int|
                0 <= t < entry.tasks.len() && entry.children[#[trigger] entry.tasks[t]].contains(
                    child,
                );
            assert(lists[t].contains(child));
        }
    }
}

/// The tasks of a process.
proof fn lemma_task_ids<S, N, K, A>(
    proc_fs: ProcFs<S, N, K, A>,
    table: ProcessTable,
    pid: u32,
    ids: Seq<u32>,
) where
    S: Fn(u32) -> Option<String>,
    N: Fn(u32) -> Vec<Option<String>>,
    K: Fn(u32, u32) -> Option<String>,
    A: Fn(u32) -> Option<Vec<u8>>,

    requires
        shows(proc_fs, table),
        crate::linux::proc_fs::reads_task_ids(proc_fs.task_names, pid, ids),
    ensures
        table.lives(pid) ==> ids == table.processes[pid].tasks,
        !table.lives(pid) ==> ids.len() == 0,
{
    let names = choose|names: Vec<Option<String>>| #[trigger]
        call_ensures(proc_fs.task_names, (pid,), names) && ids == crate::linux::stat::entry_ids(
            names@,
        );
    assert(call_ensures(proc_fs.task_names, (pid,), names));
    if table.lives(pid) {
        crate::linux::stat::listed_entries_are_read_back(table.processes[pid].tasks, names@);
    } else {
        crate::linux::stat::listed_entries_are_read_back(Seq::empty(), names@);
    }
}

/// The children of a task.
proof fn lemma_task_children<S, N, K, A>(
    proc_fs: ProcFs<S, N, K, A>,
    table: ProcessTable,
    pid: u32,
    tid: u32,
    ids: Seq<u32>,
) where
    S: Fn(u32) -> Option<String>,
    N: Fn(u32) -> Vec<Option<String>>,
    K: Fn(u32, u32) -> Option<String>,
    A: Fn(u32) -> Option<Vec<u8>>,

    requires
        shows(proc_fs, table),
        table.lives(pid),
        table.processes[pid].tasks.contains(tid),
        crate::linux::proc_fs::reads_task_children(proc_fs.task_children, pid, tid, ids),
    ensures
        ids == table.processes[pid].children[tid],
{
    let text = choose|text: Option<String>| #[trigger]
        call_ensures(proc_fs.task_children, (pid, tid), text) && ids
            == crate::linux::stat::children_ids(text);
    assert(call_ensures(proc_fs.task_children, (pid, tid), text));
    crate::linux::stat::listed_children_are_read_back(
        table.processes[pid].children[tid],
        text->0,
    );
}

// ---------------------------------------------------------------------------
// The tree
// ---------------------------------------------------------------------------

/// A walk through the files reaches exactly the processes that are roots or below one, each once.
pub proof fn walks_reach_the_whole_tree<S, N, K, A>(
    proc_fs: ProcFs<S, N, K, A>,
    table: ProcessTable,
    roots: Seq<u32>,
    pids: Seq<u32>,
) where
    S: Fn(u32) -> Option<String>,
    N: Fn(u32) -> Vec<Option<String>>,
    K: Fn(u32, u32) -> Option<String>,
    A: Fn(u32) -> Option<Vec<u8>>,

    requires
        shows(proc_fs, table),
        crate::linux::proc_fs::reads_tree(proc_fs.task_names, proc_fs.task_children, roots, pids),
    ensures
        pids.no_duplicates(),
        forall|pid: u32| #[trigger] pids.contains(pid) <==> table.is_reached(roots, pid),
{
    let reports = choose|reports: Seq<Seq<u32>>|
        {
            &&& #[trigger] crate::linux::tree::is_tree_walk(roots, reports, pids)
            &&& forall|k: int|
                0 <= k < pids.len() ==> crate::linux::proc_fs::reads_children(
                    proc_fs.task_names,
                    proc_fs.task_children,
                    pids[k],
                    #[trigger] reports[k],
                )
        };
    crate::linux::tree::walk_lists_each_process_once(roots, reports, pids);
    assert forall|pid: u32| #[trigger] pids.contains(pid) <==> table.is_reached(roots, pid) by {
        if pids.contains(pid) {
            let k = choose|k: int| 0 <= k < pids.len() && pids[k] == pid;
            lemma_listed_are_below(proc_fs, table, roots, reports, pids, k);
        }
        if table.is_reached(roots, pid) {
            let path = choose|path: Seq<u32>| #[trigger]
                table.is_path(roots, path) && path.last() == pid;
            lemma_paths_are_listed(proc_fs, table, roots, reports, pids, path);
        }
    }
}

/// A listed process is a root or below one.
proof fn lemma_listed_are_below<S, N, K, A>(
    proc_fs: ProcFs<S, N, K, A>,
    table: ProcessTable,
    roots: Seq<u32>,
    reports: Seq<Seq<u32>>,
    pids: Seq<u32>,
    k: int,
) where
    S: Fn(u32) -> Option<String>,
    N: Fn(u32) -> Vec<Option<String>>,
    K: Fn(u32, u32) -> Option<String>,
    A: Fn(u32) -> Option<Vec<u8>>,

    requires
        shows(proc_fs, table),
        crate::linux::tree::is_tree_walk(roots, reports, pids),
        forall|k: int|
            0 <= k < pids.len() ==> crate::linux::proc_fs::reads_children(
                proc_fs.task_names,
                proc_fs.task_children,
                pids[k],
                #[trigger] reports[k],
            ),
        0 <= k < pids.len(),
    ensures
        table.is_reached(roots, pids[k]),
    decreases k,
{
    let pid = pids[k];
    crate::linux::tree::walk_lists_each_process_once(roots, reports, pids);
    crate::linux::tree::walk_lists_only_descendants(roots, reports, pids);
    assert(pids.contains(pid));
    assert(pid > 0);
    if roots.contains(pid) {
        let path = seq![pid];
        assert(table.is_path(roots, path) && path.last() == pid);
    } else {
        let j = choose|j: int| 0 <= j < k && #[trigger] reports[j].contains(pid);
        lemma_listed_are_below(proc_fs, table, roots, reports, pids, j);
        let above = choose|path: Seq<u32>| #[trigger]
            table.is_path(roots, path) && path.last() == pids[j];
        lemma_children(proc_fs, table, pids[j], reports[j], pid);
        let path = above.push(pid);
        assert forall|i: int| 0 < i < path.len() implies #[trigger] table.leads(path, i) by {
            if i < above.len() {
                assert(table.leads(above, i));
                assert(path[i] == above[i] && path[i - 1] == above[i - 1]);
            }
        }
        assert forall|i: int| 0 <= i < path.len() implies #[trigger] path[i] > 0 by {
            if i < above.len() {
                assert(above[i] > 0);
            }
        }
        assert(table.is_path(roots, path) && path.last() == pid);
    }
}

/// A process at the end of a path is listed.
proof fn lemma_paths_are_listed<S, N, K, A>(
    proc_fs: ProcFs<S, N, K, A>,
    table: ProcessTable,
    roots: Seq<u32>,
    reports: Seq<Seq<u32>>,
    pids: Seq<u32>,
    path: Seq<u32>,
) where
    S: Fn(u32) -> Option<String>,
    N: Fn(u32) -> Vec<Option<String>>,
    K: Fn(u32, u32) -> Option<String>,
    A: Fn(u32) -> Option<Vec<u8>>,

    requires
        shows(proc_fs, table),
        crate::linux::tree::is_tree_walk(roots, reports, pids),
        forall|k: int|
            0 <= k < pids.len() ==> crate::linux::proc_fs::reads_children(
                proc_fs.task_names,
                proc_fs.task_children,
                pids[k],
                #[trigger] reports[k],
            ),
        table.is_path(roots, path),
    ensures
        pids.contains(path.last()),
    decreases path.len(),
{
    let pid = path.last();
    crate::linux::tree::walk_reaches_every_child(roots, reports, pids);
    assert(path[path.len() - 1] > 0);
    if path.len() > 1 {
        let above = path.drop_last();
        assert forall|i: int| 0 < i < above.len() implies #[trigger] table.leads(above, i) by {
            assert(table.leads(path, i));
            assert(path[i] == above[i] && path[i - 1] == above[i - 1]);
        }
        assert forall|i: int| 0 <= i < above.len() implies #[trigger] above[i] > 0 by {
            assert(path[i] > 0);
        }
        lemma_paths_are_listed(proc_fs, table, roots, reports, pids, above);
        let parent = above.last();
        let k = choose|k: int| 0 <= k < pids.len() && pids[k] == parent;
        assert(table.leads(path, path.len() - 1));
        assert(path[path.len() - 1] == pid && path[path.len() - 2] == parent);
        lemma_children(proc_fs, table, parent, reports[k], pid);
        assert(reports[k].contains(pid));
    }
}

// ---------------------------------------------------------------------------
// Jobs
// ---------------------------------------------------------------------------

/// `job` has a process with the id `pid`.
pub open spec fn holds_pid(job: crate::process::JobView, pid: u32) -> bool {
    exists|i: int| 0 <= i < job.processes.len() && (#[trigger] job.processes[i]).pid == pid
}

/// The job of a group is exactly the live processes of the group that stand below the shell or below
/// the leader of the group, or are one of the two, in ascending order, each once and with its name
/// and all its arguments. There is a job wherever there is such a process, and only there.
pub proof fn jobs_hold_every_live_member<S, N, K, A>(
    proc_fs: ProcFs<S, N, K, A>,
    table: ProcessTable,
    child_pid: u32,
    process_group_id: u32,
    job: Option<crate::process::JobView>,
) where
    S: Fn(u32) -> Option<String>,
    N: Fn(u32) -> Vec<Option<String>>,
    K: Fn(u32, u32) -> Option<String>,
    A: Fn(u32) -> Option<Vec<u8>>,

    requires
        table.is_valid(),
        shows(proc_fs, table),
        crate::linux::proc_fs::reads_group_job(proc_fs, child_pid, process_group_id, job),
    ensures
        ({
            let roots = seq![child_pid, process_group_id];
            &&& job is Some <==> exists|pid: u32| #[trigger]
                table.is_member(roots, process_group_id, pid)
            &&& job matches Some(job) ==> {
                &&& job.process_group_id == process_group_id
                &&& forall|pid: u32| #[trigger]
                    holds_pid(job, pid) <==> table.is_member(roots, process_group_id, pid)
                &&& forall|i: int|
                    0 <= i < job.processes.len() ==> table.describes(#[trigger] job.processes[i])
                &&& forall|i: int, j: int|
                    0 <= i < j < job.processes.len() ==> (#[trigger] job.processes[i]).pid < (
                    #[trigger] job.processes[j]).pid
            }
        }),
{
    let roots = seq![child_pid, process_group_id];
    let (pids, names, members, argvs) = choose|
        pids: Seq<u32>,
        names: Seq<Option<Seq<char>>>,
        members: Seq<(u32, Seq<char>)>,
        argvs: Seq<Option<Seq<Seq<char>>>>,
    |
        {
            &&& #[trigger] crate::linux::proc_fs::reads_members(
                proc_fs,
                child_pid,
                process_group_id,
                pids,
                names,
                members,
            )
            &&& #[trigger] crate::linux::proc_fs::reads_argvs(proc_fs.cmdline, members, argvs)
            &&& job == crate::linux::proc_fs::members_job(process_group_id, members, argvs)
        };
    walks_reach_the_whole_tree(proc_fs, table, roots, pids);
    assert forall|k: int| 0 <= k < pids.len() implies (names[k] is Some <==> table.is_member(
        roots,
        process_group_id,
        #[trigger] pids[k],
    )) && (names[k] is Some ==> names[k]->0 == table.processes[pids[k]].name) by {
        lemma_name(proc_fs, table, process_group_id, pids[k], names[k]);
        assert(pids.contains(pids[k]));
    }
    assert forall|i: int| 0 <= i < members.len() implies table.is_member(
        roots,
        process_group_id,
        (#[trigger] members[i]).0,
    ) && members[i].1 == table.processes[members[i].0].name by {
        assert(crate::linux::proc_fs::is_named(pids, names, members[i]));
        let k = choose|k: int|
            0 <= k < pids.len() && pids[k] == members[i].0 && #[trigger] names[k] == Some(
                members[i].1,
            );
        assert(table.is_member(roots, process_group_id, pids[k]));
    }
    assert forall|pid: u32| #[trigger] table.is_member(
        roots,
        process_group_id,
        pid,
    ) implies exists|i: int| 0 <= i < members.len() && (#[trigger] members[i]).0 == pid by {
        assert(pids.contains(pid));
        let k = choose|k: int| 0 <= k < pids.len() && pids[k] == pid;
        assert(table.is_member(roots, process_group_id, pids[k]));
        assert(names[k] is Some);
        assert(members.contains((pids[k], names[k]->0)));
        let i = choose|i: int| 0 <= i < members.len() && members[i] == (pids[k], names[k]->0);
        assert(members[i].0 == pid);
    }
    if members.len() > 0 {
        assert(table.is_member(roots, process_group_id, members[0].0));
        let job = job->0;
        assert(job.processes.len() == members.len());
        assert forall|i: int| 0 <= i < job.processes.len() implies table.describes(
            #[trigger] job.processes[i],
        ) && job.processes[i].pid == members[i].0 by {
            assert(crate::linux::proc_fs::reads_argv(proc_fs.cmdline, members[i].0, argvs[i]));
            assert(table.is_member(roots, process_group_id, members[i].0));
            lemma_argv(proc_fs, table, members[i].0, argvs[i]);
        }
        assert forall|pid: u32| #[trigger] holds_pid(job, pid) <==> table.is_member(
            roots,
            process_group_id,
            pid,
        ) by {
            if holds_pid(job, pid) {
                let i = choose|i: int|
                    0 <= i < job.processes.len() && (#[trigger] job.processes[i]).pid == pid;
                assert(members[i].0 == pid);
            }
            if table.is_member(roots, process_group_id, pid) {
                let i = choose|i: int| 0 <= i < members.len() && (#[trigger] members[i]).0 == pid;
                assert(job.processes[i].pid == pid);
            }
        }
        assert forall|i: int, j: int| 0 <= i < j < job.processes.len() implies (
        #[trigger] job.processes[i]).pid < (#[trigger] job.processes[j]).pid by {
            assert(members[i].0 < members[j].0);
        }
    }
}

/// The name under which a process is in a group.
proof fn lemma_name<S, N, K, A>(
    proc_fs: ProcFs<S, N, K, A>,
    table: ProcessTable,
    process_group_id: u32,
    pid: u32,
    name: Option<Seq<char>>,
) where
    S: Fn(u32) -> Option<String>,
    N: Fn(u32) -> Vec<Option<String>>,
    K: Fn(u32, u32) -> Option<String>,
    A: Fn(u32) -> Option<Vec<u8>>,

    requires
        table.is_valid(),
        shows(proc_fs, table),
        crate::linux::proc_fs::reads_member(proc_fs.stat, process_group_id, pid, name),
    ensures
        name is Some <==> table.lives(pid) && table.processes[pid].pgrp > 0
            && table.processes[pid].pgrp == process_group_id,
        name matches Some(name) ==> name == table.processes[pid].name,
{
    let found = choose|found: Option<(i32, Seq<char>)>| #[trigger]
        crate::linux::proc_fs::reads_group_and_name(proc_fs.stat, pid, found) && name
            == crate::linux::proc_fs::name_in_group(process_group_id, found);
    lemma_group_and_name(proc_fs.stat, table, pid, found);
}

/// Where the terminal tells its foreground group, the foreground job is that of the group, in every
/// mode.
pub proof fn foreground_jobs_follow_the_terminal<M, S, N, K, A>(
    detection_mode: M,
    proc_fs: ProcFs<S, N, K, A>,
    table: ProcessTable,
    child_pid: u32,
    job: Option<crate::process::JobView>,
) where
    M: FnOnce() -> ProcessDetectionMode,
    S: Fn(u32) -> Option<String>,
    N: Fn(u32) -> Vec<Option<String>>,
    K: Fn(u32, u32) -> Option<String>,
    A: Fn(u32) -> Option<Vec<u8>>,

    requires
        table.is_valid(),
        shows(proc_fs, table),
        table.lives(child_pid),
        0 < table.processes[child_pid].tpgid <= i32::MAX,
        crate::linux::job::reads_foreground_job(detection_mode, proc_fs, child_pid, job),
    ensures
        crate::linux::proc_fs::reads_group_job(
            proc_fs,
            child_pid,
            table.processes[child_pid].tpgid as u32,
            job,
        ),
{
    assert forall|native: Option<u32>| #[trigger]
        crate::linux::proc_fs::reads_foreground_group(
            proc_fs.stat,
            child_pid,
            native,
        ) implies native == Some(table.processes[child_pid].tpgid as u32) by {
        lemma_foreground(proc_fs.stat, table, child_pid, native);
    }
}

/// `job` is that of the newest group among the children.
pub open spec fn is_job_of_child_group<S, N, K, A>(
    proc_fs: ProcFs<S, N, K, A>,
    child_pid: u32,
    job: Option<crate::process::JobView>,
) -> bool where
    S: Fn(u32) -> Option<String>,
    N: Fn(u32) -> Vec<Option<String>>,
    K: Fn(u32, u32) -> Option<String>,
    A: Fn(u32) -> Option<Vec<u8>>,
 {
    exists|group: Option<u32>| #[trigger]
        crate::linux::proc_fs::reads_child_group(proc_fs, child_pid, group) && match group {
            Some(group) => crate::linux::proc_fs::reads_group_job(proc_fs, child_pid, group, job),
            None => job is None,
        }
}

/// Where the terminal does not tell its foreground group, there is no foreground job in native mode,
/// and in the other mode it is that of the newest group among the children.
pub proof fn foreground_jobs_follow_the_mode<M, S, N, K, A>(
    detection_mode: M,
    proc_fs: ProcFs<S, N, K, A>,
    table: ProcessTable,
    child_pid: u32,
    job: Option<crate::process::JobView>,
) where
    M: FnOnce() -> ProcessDetectionMode,
    S: Fn(u32) -> Option<String>,
    N: Fn(u32) -> Vec<Option<String>>,
    K: Fn(u32, u32) -> Option<String>,
    A: Fn(u32) -> Option<Vec<u8>>,

    requires
        table.is_valid(),
        shows(proc_fs, table),
        !table.lives(child_pid) || table.processes[child_pid].tpgid <= 0,
        crate::linux::job::reads_foreground_job(detection_mode, proc_fs, child_pid, job),
    ensures
        !call_ensures(detection_mode, (), ProcessDetectionMode::ChildGroups) ==> job is None,
        !call_ensures(detection_mode, (), ProcessDetectionMode::Native) ==> is_job_of_child_group(
            proc_fs,
            child_pid,
            job,
        ),
{
    assert forall|native: Option<u32>| #[trigger]
        crate::linux::proc_fs::reads_foreground_group(
            proc_fs.stat,
            child_pid,
            native,
        ) implies native is None by {
        lemma_foreground(proc_fs.stat, table, child_pid, native);
    }
}

// ---------------------------------------------------------------------------
// Child groups
// ---------------------------------------------------------------------------

/// The children of a process, task after task.
pub open spec fn all_children(entry: ProcessEntry) -> Seq<u32> {
    Seq::new(entry.tasks.len(), |t: int| entry.children[entry.tasks[t]]).flatten()
}

/// `pid` is a live process of a positive group other than `shell`.
pub open spec fn is_in_job(table: ProcessTable, shell: int, pid: u32) -> bool {
    table.lives(pid) && table.processes[pid].pgrp >= 1 && table.processes[pid].pgrp != shell
}

/// `group` is the highest group of a job that one of the children is in, or `shell` where there is
/// no job.
pub open spec fn is_highest_group(
    table: ProcessTable,
    shell: int,
    children: Seq<u32>,
    group: int,
) -> bool {
    &&& forall|i: int|
        0 <= i < children.len() && is_in_job(table, shell, #[trigger] children[i])
            ==> table.processes[children[i]].pgrp <= group && group != shell
    &&& group != shell ==> exists|i: int|
        0 <= i < children.len() && is_in_job(table, shell, #[trigger] children[i])
            && table.processes[children[i]].pgrp == group
}

/// The newest group among those of the children is the highest.
proof fn lemma_highest(
    table: ProcessTable,
    shell: u32,
    children: Seq<u32>,
    groups: Seq<Option<i32>>,
    group: u32,
)
    requires
        groups.len() == children.len(),
        forall|i: int|
            0 <= i < groups.len() ==> #[trigger] groups[i] == (if table.lives(children[i]) {
                Some(table.processes[children[i]].pgrp)
            } else {
                None
            }),
        crate::linux::groups::is_newest_group(shell, groups, group),
    ensures
        is_highest_group(table, shell as int, children, group as int),
{
    assert forall|i: int|
        0 <= i < children.len() && is_in_job(
            table,
            shell as int,
            #[trigger] children[i],
        ) implies table.processes[children[i]].pgrp <= group && group != shell by {
        assert(crate::linux::groups::is_job_group(shell, groups[i]));
    }
    if group != shell {
        let i = choose|i: int|
            0 <= i < groups.len() && crate::linux::groups::is_job_group(shell, #[trigger] groups[i])
                && groups[i]->0 == group;
        assert(groups[i] is Some);
        assert(is_in_job(table, shell as int, children[i]));
    }
}

/// The group that is inferred from the children of a shell is the highest positive group of a live
/// child other than the group of the shell, or that of the shell where there is none. There is one
/// wherever the shell is alive in a positive group and has no more than sixty-four children, and
/// only there.
pub proof fn the_highest_child_group_is_taken<S, N, K, A>(
    proc_fs: ProcFs<S, N, K, A>,
    table: ProcessTable,
    child_pid: u32,
    group: Option<u32>,
) where
    S: Fn(u32) -> Option<String>,
    N: Fn(u32) -> Vec<Option<String>>,
    K: Fn(u32, u32) -> Option<String>,
    A: Fn(u32) -> Option<Vec<u8>>,

    requires
        table.is_valid(),
        shows(proc_fs, table),
        crate::linux::proc_fs::reads_child_group(proc_fs, child_pid, group),
    ensures
        ({
            let entry = table.processes[child_pid];
            let children = all_children(entry);
            &&& group is Some <==> table.lives(child_pid) && entry.pgrp > 0 && children.len() <= 64
            &&& group matches Some(group) ==> is_highest_group(
                table,
                entry.pgrp as int,
                children,
                group as int,
            )
        }),
{
    let shell = choose|shell: Option<i32>|
        #[trigger] crate::linux::proc_fs::reads_group(proc_fs.stat, child_pid, shell)
            && is_group_from(proc_fs, child_pid, shell, group);
    lemma_group(proc_fs.stat, table, child_pid, shell);
    if shell is Some && shell->0 > 0 {
        let (tids, lists, groups) = choose|
            tids: Seq<u32>,
            lists: Seq<Seq<u32>>,
            groups: Seq<Option<i32>>,
        | #[trigger]
            crate::linux::proc_fs::reads_child_scan(
                proc_fs,
                child_pid,
                shell->0 as u32,
                tids,
                lists,
                groups,
                group,
            );
        lemma_scan(proc_fs, table, child_pid, tids, lists, groups, group);
        if group is Some {
            lemma_highest(
                table,
                shell->0 as u32,
                all_children(table.processes[child_pid]),
                groups,
                group->0,
            );
        }
    }
}

/// `group` follows from a scan of the children of a shell in the group `shell`.
spec fn is_group_from<S, N, K, A>(
    proc_fs: ProcFs<S, N, K, A>,
    child_pid: u32,
    shell: Option<i32>,
    group: Option<u32>,
) -> bool where
    S: Fn(u32) -> Option<String>,
    N: Fn(u32) -> Vec<Option<String>>,
    K: Fn(u32, u32) -> Option<String>,
    A: Fn(u32) -> Option<Vec<u8>>,
 {
    if shell is Some && shell->0 > 0 {
        exists|tids: Seq<u32>, lists: Seq<Seq<u32>>, groups: Seq<Option<i32>>| #[trigger]
            crate::linux::proc_fs::reads_child_scan(
                proc_fs,
                child_pid,
                shell->0 as u32,
                tids,
                lists,
                groups,
                group,
            )
    } else {
        group is None
    }
}

/// The group in a `stat` file.
proof fn lemma_group<S>(stat: S, table: ProcessTable, pid: u32, group: Option<i32>) where
    S: Fn(u32) -> Option<String>,

    requires
        table.is_valid(),
        shows_lines(stat, table),
        crate::linux::proc_fs::reads_group(stat, pid, group),
    ensures
        table.lives(pid) ==> group == Some(table.processes[pid].pgrp),
        !table.lives(pid) ==> group is None,
{
    let found = choose|found: Option<(i32, Seq<char>)>| #[trigger]
        crate::linux::proc_fs::reads_group_and_name(stat, pid, found) && group == match found {
            Some((pgrp, _)) => Some(pgrp),
            None => None,
        };
    lemma_group_and_name(stat, table, pid, found);
}

/// What a scan of the children of a live shell comes to.
proof fn lemma_scan<S, N, K, A>(
    proc_fs: ProcFs<S, N, K, A>,
    table: ProcessTable,
    child_pid: u32,
    tids: Seq<u32>,
    lists: Seq<Seq<u32>>,
    groups: Seq<Option<i32>>,
    group: Option<u32>,
) where
    S: Fn(u32) -> Option<String>,
    N: Fn(u32) -> Vec<Option<String>>,
    K: Fn(u32, u32) -> Option<String>,
    A: Fn(u32) -> Option<Vec<u8>>,

    requires
        table.is_valid(),
        shows(proc_fs, table),
        table.lives(child_pid),
        table.processes[child_pid].pgrp > 0,
        crate::linux::proc_fs::reads_child_scan(
            proc_fs,
            child_pid,
            table.processes[child_pid].pgrp as u32,
            tids,
            lists,
            groups,
            group,
        ),
    ensures
        ({
            let entry = table.processes[child_pid];
            let children = all_children(entry);
            &&& group is Some <==> children.len() <= 64
            &&& group is Some ==> {
                &&& groups.len() == children.len()
                &&& crate::linux::groups::is_newest_group(entry.pgrp as u32, groups, group->0)
                &&& forall|i: int|
                    0 <= i < groups.len() ==> #[trigger] groups[i] == (if table.lives(
                        children[i],
                    ) {
                        Some(table.processes[children[i]].pgrp)
                    } else {
                        None
                    })
            }
        }),
{
    let entry = table.processes[child_pid];
    let all = Seq::new(entry.tasks.len(), |t: int| entry.children[entry.tasks[t]]);
    lemma_task_ids(proc_fs, table, child_pid, tids);
    assert forall|j: int| 0 <= j < lists.len() implies #[trigger] lists[j] == all[j] by {
        assert(crate::linux::proc_fs::reads_task_children(
            proc_fs.task_children,
            child_pid,
            tids[j],
            lists[j],
        ));
        assert(entry.tasks.contains(tids[j]));
        lemma_task_children(proc_fs, table, child_pid, tids[j], lists[j]);
    }
    assert(lists =~= all.take(lists.len() as int));
    vstd::seq_lib::lemma_flatten_concat(
        all.take(lists.len() as int),
        all.skip(lists.len() as int),
    );
    assert(all.take(lists.len() as int) + all.skip(lists.len() as int) =~= all);
    if group is Some {
        assert(lists =~= all);
        assert forall|i: int| 0 <= i < groups.len() implies #[trigger] groups[i] == (
        if table.lives(all.flatten()[i]) {
            Some(table.processes[all.flatten()[i]].pgrp)
        } else {
            None
        }) by {
            lemma_group(proc_fs.stat, table, all.flatten()[i], groups[i]);
        }
    }
}

// ---------------------------------------------------------------------------
// Sessions
// ---------------------------------------------------------------------------

/// The entries of `/proc` name the live processes, each once, in whatever order, and anything else
/// under names that are no numbers.
pub open spec fn lists_processes<E>(entries: E, table: ProcessTable) -> bool where
    E: FnOnce() -> Vec<Option<String>>,
 {
    crate::linux::session::entries_are_steady(entries, table.processes.dom())
}

/// The question for the `stat` file of a process has an answer.
pub open spec fn answers<S>(stat: S, pid: u32) -> bool where S: Fn(u32) -> Option<String> {
    exists|text: Option<String>| #[trigger] call_ensures(stat, (pid,), text)
}

/// The processes of a session are exactly the live ones that are in the session of the child, each
/// once; a child that is not alive has none.
pub proof fn sessions_hold_every_process<E, S>(
    entries: E,
    stat: S,
    table: ProcessTable,
    child_pid: u32,
    pids: Seq<u32>,
) where E: FnOnce() -> Vec<Option<String>>, S: Fn(u32) -> Option<String>
    requires
        table.is_valid(),
        shows_lines(stat, table),
        forall|pid: u32| #[trigger] answers(stat, pid),
        lists_processes(entries, table),
        crate::linux::session::is_session_listing(entries, stat, child_pid, pids),
    ensures
        pids.no_duplicates(),
        forall|pid: u32| #[trigger]
            pids.contains(pid) <==> table.lives(child_pid) && table.lives(pid)
                && table.processes[pid].session == table.processes[child_pid].session,
{
    assert forall|pid: u32, one: Option<i32>, other: Option<i32>|
        #[trigger] crate::linux::proc_fs::reads_session(stat, pid, one)
            && #[trigger] crate::linux::proc_fs::reads_session(
            stat,
            pid,
            other,
        ) implies one == other by {
        lemma_session(stat, table, pid, one);
        lemma_session(stat, table, pid, other);
    }
    let session = choose|session: Option<i32>| #[trigger]
        crate::linux::proc_fs::reads_session(stat, child_pid, session) && match session {
            Some(session) => crate::linux::session::lists_session(entries, stat, session, pids),
            None => pids.len() == 0,
        };
    lemma_session(stat, table, child_pid, session);
    crate::linux::session::sessions_are_listed_whole(
        entries,
        stat,
        table.processes.dom(),
        child_pid,
        session,
        pids,
    );
    assert forall|pid: u32| #[trigger] pids.contains(pid) <==> table.lives(child_pid)
        && table.lives(pid) && table.processes[pid].session
        == table.processes[child_pid].session by {
        assert(answers(stat, pid));
        let text = choose|text: Option<String>| #[trigger] call_ensures(stat, (pid,), text);
        let own: Option<i32> = match text {
            Some(text) => crate::linux::stat::stat_number(text@, 3),
            None => None,
        };
        assert(call_ensures(stat, (pid,), text));
        assert(crate::linux::proc_fs::reads_session(stat, pid, own));
        lemma_session(stat, table, pid, own);
    }
}

} // verus!
