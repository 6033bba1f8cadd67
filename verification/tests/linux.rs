use std::cell::RefCell;
use std::collections::HashMap;

use herdr_platform::linux::environment::{
    parse_process_detection_mode, proc_file_indicates_wsl, process_detection_mode,
    running_inside_wsl, should_draw_host_cursor_by_default, should_query_host_terminal_palette,
    text_indicates_wsl, ProcessDetectionMode,
};
use herdr_platform::linux::groups::{
    child_groups_foreground_process_group_with, CHILD_GROUPS_SCAN_LIMIT,
};
use herdr_platform::linux::job::{
    available_pane_shell, child_groups_foreground_process_group, foreground_group_leader_job,
    foreground_job,
};
use herdr_platform::linux::members::{foreground_process_group_members_with, ProcGroupMember};
use herdr_platform::linux::proc_fs::{
    foreground_process_group_id, live_process_group_member, process_session_id, ProcFs,
};
use herdr_platform::linux::session::{
    process_agent_hint, process_cwd, process_exists, raise_server_nofile_limit, session_processes,
    signal_processes,
};
use herdr_platform::linux::stat::{
    foreground_group_from_stat, numeric_file_name, process_argv, process_pgrp_and_comm_from_stat,
    process_task_children, process_task_ids, session_from_stat,
};
use herdr_platform::linux::tree::process_tree_pids;
use herdr_platform::process::{ForegroundJob, ForegroundProcess, Signal};
use herdr_platform::sys::{foreground_process_group_id_for_tty_fd, signal_number};

#[test]
fn wsl_marker_detection_matches_kernel_release_text() {
    assert!(text_indicates_wsl("5.15.167.4-microsoft-standard-WSL2"));
    assert!(text_indicates_wsl("4.4.0-19041-Microsoft"));
    assert!(!text_indicates_wsl("6.8.0-64-generic"));
    assert!(!text_indicates_wsl(""));
}

#[test]
fn process_detection_mode_requires_explicit_child_groups_value() {
    assert_eq!(
        parse_process_detection_mode(None),
        Ok(ProcessDetectionMode::Native)
    );
    assert_eq!(
        parse_process_detection_mode(Some("")),
        Ok(ProcessDetectionMode::Native)
    );
    assert_eq!(
        parse_process_detection_mode(Some("native")),
        Ok(ProcessDetectionMode::Native)
    );
    assert_eq!(
        parse_process_detection_mode(Some("child-groups")),
        Ok(ProcessDetectionMode::ChildGroups)
    );
    assert_eq!(parse_process_detection_mode(Some("gvisor")), Err("gvisor"));
}

#[test]
fn unknown_detection_modes_fall_back_to_native() {
    assert_eq!(process_detection_mode(Some("gvisor")), ProcessDetectionMode::Native);
    assert_eq!(process_detection_mode(None), ProcessDetectionMode::Native);
    assert_eq!(
        process_detection_mode(Some("child-groups")),
        ProcessDetectionMode::ChildGroups
    );
    assert_eq!(process_detection_mode(Some("Child-Groups")), ProcessDetectionMode::Native);
}

#[test]
fn child_groups_foreground_group_picks_the_newest_job() {
    let tasks = HashMap::from([(100, vec![100])]);
    let children = HashMap::from([((100, 100), vec![200, 300])]);
    let groups = HashMap::from([(200, 200), (300, 300)]);

    let group = child_groups_foreground_process_group_with(
        100,
        100,
        |pid| tasks.get(&pid).cloned().unwrap_or_default(),
        |pid, tid| children.get(&(pid, tid)).cloned().unwrap_or_default(),
        |pid| groups.get(&pid).copied(),
    );

    assert_eq!(group, Some(300));
}

#[test]
fn child_groups_foreground_group_returns_to_the_shell_group() {
    let tasks = HashMap::from([(100, vec![100])]);
    let children = HashMap::from([((100, 100), vec![150, 160])]);
    let groups = HashMap::from([(150, 90), (160, 90)]);

    let group = child_groups_foreground_process_group_with(
        100,
        90,
        |pid| tasks.get(&pid).cloned().unwrap_or_default(),
        |pid, tid| children.get(&(pid, tid)).cloned().unwrap_or_default(),
        |pid| groups.get(&pid).copied(),
    );

    assert_eq!(group, Some(90));
}

#[test]
fn child_groups_foreground_group_skips_the_shell_group() {
    let tasks = HashMap::from([(100, vec![100])]);
    let children = HashMap::from([((100, 100), vec![150, 160, 300])]);
    let groups = HashMap::from([(150, 90), (160, 90), (300, 300)]);

    let group = child_groups_foreground_process_group_with(
        100,
        90,
        |pid| tasks.get(&pid).cloned().unwrap_or_default(),
        |pid, tid| children.get(&(pid, tid)).cloned().unwrap_or_default(),
        |pid| groups.get(&pid).copied(),
    );

    assert_eq!(group, Some(300));
}

#[test]
fn child_groups_foreground_group_fails_closed_at_the_scan_limit() {
    let children: Vec<u32> = (1..=(CHILD_GROUPS_SCAN_LIMIT as u32 + 10)).collect();
    let mut inspected = 0usize;

    let group = child_groups_foreground_process_group_with(
        100,
        100,
        |_| vec![100],
        |_, _| children.clone(),
        |pid| {
            inspected += 1;
            Some(pid as i32)
        },
    );

    assert_eq!(inspected, CHILD_GROUPS_SCAN_LIMIT);
    assert_eq!(group, None);
}

#[test]
fn child_groups_scan_takes_exactly_the_limit() {
    let children: Vec<u32> = (1..=(CHILD_GROUPS_SCAN_LIMIT as u32)).collect();
    let group = child_groups_foreground_process_group_with(
        100,
        100,
        |_| vec![100],
        |_, _| children.clone(),
        |pid| Some(pid as i32),
    );
    assert_eq!(CHILD_GROUPS_SCAN_LIMIT, 64);
    assert_eq!(group, Some(64));
}

#[test]
fn child_groups_scan_ignores_missing_and_nonpositive_groups() {
    let group = child_groups_foreground_process_group_with(
        100,
        7,
        |_| vec![100, 101],
        |_, tid| if tid == 100 { vec![1, 2] } else { vec![3, 4] },
        |pid| match pid {
            1 => None,
            2 => Some(0),
            3 => Some(-5),
            _ => Some(7),
        },
    );
    assert_eq!(group, Some(7));
}

#[test]
fn foreground_members_follow_the_pane_tree_and_filter_by_process_group() {
    let tasks = HashMap::from([
        (100, vec![100, 101]),
        (200, vec![200]),
        (201, vec![201]),
        (210, vec![210]),
        (220, vec![220]),
        (221, vec![221]),
        (300, vec![300]),
    ]);
    let children = HashMap::from([
        ((100, 100), vec![200, 201, 300]),
        ((100, 101), vec![210]),
        ((200, 200), vec![220]),
        ((220, 220), vec![221]),
    ]);
    let processes = HashMap::from([
        (100, (100, "shell")),
        (200, (200, "leader")),
        (201, (200, "pipeline")),
        (210, (200, "thread-child")),
        (220, (220, "intermediate")),
        (221, (200, "nested-agent")),
        (300, (300, "background")),
        (9999, (200, "unrelated-host-process")),
    ]);
    let task_reads = RefCell::new(Vec::new());
    let child_reads = RefCell::new(Vec::new());
    let member_reads = RefCell::new(Vec::new());

    let members = foreground_process_group_members_with(
        100,
        200,
        |pid| {
            task_reads.borrow_mut().push(pid);
            tasks.get(&pid).cloned().unwrap_or_default()
        },
        |pid, tid| {
            child_reads.borrow_mut().push((pid, tid));
            children.get(&(pid, tid)).cloned().unwrap_or_default()
        },
        |process_group_id, pid| {
            member_reads.borrow_mut().push(pid);
            let (pgrp, comm) = processes.get(&pid)?;
            if *pgrp == process_group_id {
                Some(ProcGroupMember {
                    pid,
                    comm: (*comm).to_string(),
                })
            } else {
                None
            }
        },
    )
    .unwrap();

    assert_eq!(
        members
            .into_iter()
            .map(|member| (member.pid, member.comm))
            .collect::<Vec<_>>(),
        vec![
            (200, "leader".to_string()),
            (201, "pipeline".to_string()),
            (210, "thread-child".to_string()),
            (221, "nested-agent".to_string()),
        ]
    );
    assert!(child_reads.borrow().contains(&(100, 101)));
    assert!(task_reads.borrow().contains(&220));
    assert!(!task_reads.borrow().contains(&9999));
    assert!(!member_reads.borrow().contains(&9999));
}

#[test]
fn foreground_members_degrade_to_the_direct_group_leader() {
    let members = foreground_process_group_members_with(
        100,
        200,
        |_| Vec::new(),
        |_, _| Vec::new(),
        |process_group_id, pid| {
            if pid == process_group_id {
                Some(ProcGroupMember {
                    pid,
                    comm: "leader".to_string(),
                })
            } else {
                None
            }
        },
    )
    .unwrap();

    assert_eq!(
        members,
        vec![ProcGroupMember {
            pid: 200,
            comm: "leader".to_string()
        }]
    );
}

#[test]
fn foreground_members_observe_new_children_without_a_snapshot_cache() {
    let children = RefCell::new(HashMap::from([((100, 100), vec![200])]));
    let discover = || {
        foreground_process_group_members_with(
            100,
            200,
            |pid| vec![pid],
            |pid, tid| {
                children
                    .borrow()
                    .get(&(pid, tid))
                    .cloned()
                    .unwrap_or_default()
            },
            |process_group_id, pid| {
                if [200, 201].contains(&pid) && process_group_id == 200 {
                    Some(ProcGroupMember {
                        pid,
                        comm: format!("member-{pid}"),
                    })
                } else {
                    None
                }
            },
        )
        .unwrap()
        .into_iter()
        .map(|member| member.pid)
        .collect::<Vec<_>>()
    };

    assert_eq!(discover(), vec![200]);
    children.borrow_mut().insert((100, 100), vec![200, 201]);
    assert_eq!(discover(), vec![200, 201]);
}

#[test]
fn members_come_in_ascending_order_and_none_is_no_list() {
    let members = foreground_process_group_members_with(
        9,
        1,
        |pid| vec![pid],
        |pid, _| if pid == 9 { vec![7, 3, 5, 3] } else { Vec::new() },
        |_, pid| {
            Some(ProcGroupMember {
                pid,
                comm: String::new(),
            })
        },
    )
    .unwrap();
    let pids: Vec<u32> = members.iter().map(|member| member.pid).collect();
    assert_eq!(pids, vec![1, 3, 5, 7, 9]);

    let none = foreground_process_group_members_with(
        9,
        1,
        |_| Vec::new(),
        |_, _| Vec::new(),
        |_, _| None,
    );
    assert_eq!(none, None);
}

#[test]
fn tree_walk_is_breadth_first_and_visits_each_process_once() {
    let pids = process_tree_pids(
        &[1, 0, 1],
        |pid| vec![pid],
        |pid, _| match pid {
            1 => vec![2, 3, 0],
            2 => vec![4, 1],
            3 => vec![4, 5],
            5 => vec![1, 2, 3, 4, 5],
            _ => Vec::new(),
        },
    );
    assert_eq!(pids, vec![1, 2, 3, 4, 5]);
}

#[test]
fn proc_stat_parsing_keeps_group_leader_inputs_live() {
    assert_eq!(
        process_pgrp_and_comm_from_stat("123 (name with ) paren) S 1 456 789 0 456"),
        Some((456, "name with ) paren".to_string()))
    );
}

#[test]
fn stat_lines_that_lack_something_give_nothing() {
    assert_eq!(process_pgrp_and_comm_from_stat(""), None);
    assert_eq!(process_pgrp_and_comm_from_stat("1 (a)"), None);
    assert_eq!(process_pgrp_and_comm_from_stat("1 (a) S 1"), None);
    assert_eq!(process_pgrp_and_comm_from_stat("1 a) S 1 2"), None);
    assert_eq!(process_pgrp_and_comm_from_stat(") ( S 1 2"), None);
    assert_eq!(process_pgrp_and_comm_from_stat("1 (a) S 1 x"), None);
    assert_eq!(process_pgrp_and_comm_from_stat("1 (a) S 1 2147483648"), None);
    // The byte behind the name separates it from the fields; half a character cannot.
    assert_eq!(process_pgrp_and_comm_from_stat("1 (a)\u{e9} S 1 2"), None);
    assert_eq!(
        process_pgrp_and_comm_from_stat("1 () S 1 -2"),
        Some((-2, String::new()))
    );
}

#[test]
fn stat_names_may_hold_parentheses_and_spaces() {
    let line = "7 ((sd-pam) (x)) S 1 +42 43 0 -1";
    assert_eq!(
        process_pgrp_and_comm_from_stat(line),
        Some((42, "(sd-pam) (x)".to_string()))
    );
    assert_eq!(session_from_stat(line), Some(43));
    assert_eq!(foreground_group_from_stat(line), None);
    assert_eq!(foreground_group_from_stat("7 (a) S 1 2 3 4 55 6"), Some(55));
    assert_eq!(foreground_group_from_stat("7 (a) S 1 2 3 4 0 6"), None);
}

#[test]
fn numeric_names_are_decimal_digits_only() {
    assert_eq!(numeric_file_name(&Some("42".to_string())), Some(42));
    assert_eq!(numeric_file_name(&Some("+42".to_string())), None);
    assert_eq!(numeric_file_name(&Some("self".to_string())), None);
    assert_eq!(numeric_file_name(&Some(String::new())), None);
    assert_eq!(numeric_file_name(&Some("4294967295".to_string())), Some(u32::MAX));
    assert_eq!(numeric_file_name(&Some("4294967296".to_string())), None);
    assert_eq!(numeric_file_name(&None), None);
    assert_eq!(
        process_task_ids(&[
            Some("3".to_string()),
            None,
            Some("x".to_string()),
            Some("1".to_string())
        ]),
        vec![3, 1]
    );
}

#[test]
fn children_are_whitespace_separated_numbers() {
    assert_eq!(
        process_task_children(&Some("12 13\n x 14 +15 -16 99999999999".to_string())),
        vec![12, 13, 14, 15]
    );
    assert_eq!(process_task_children(&Some(String::new())), Vec::<u32>::new());
    assert_eq!(process_task_children(&None), Vec::<u32>::new());
}

#[test]
fn command_lines_are_split_at_nul_bytes() {
    assert_eq!(
        process_argv(&Some(b"vim\0\0a b\0".to_vec())),
        Some(vec!["vim".to_string(), "a b".to_string()])
    );
    assert_eq!(process_argv(&Some(b"\0\0".to_vec())), None);
    assert_eq!(process_argv(&Some(Vec::new())), None);
    assert_eq!(process_argv(&None), None);
    // Bytes that are not UTF-8 are replaced.
    assert_eq!(
        process_argv(&Some(b"a\xffb".to_vec())),
        Some(vec!["a\u{fffd}b".to_string()])
    );
}

fn process(pid: u32, name: &str, argv: Option<&[&str]>) -> ForegroundProcess {
    ForegroundProcess {
        pid,
        name: name.to_string(),
        argv0: None,
        cmdline: argv.map(|argv| argv.join(" ")),
        argv: argv.map(|argv| argv.iter().map(|arg| arg.to_string()).collect()),
    }
}

fn pane_stat(pid: u32, tpgid: i32) -> Option<String> {
    match pid {
        10 => Some(format!("10 (sh) S 1 10 10 0 {tpgid} 0")),
        20 => Some(format!("20 (vim) S 10 20 10 0 {tpgid} 0")),
        21 => Some(format!("21 (helper) S 20 20 10 0 {tpgid} 0")),
        30 => Some(format!("30 (job) S 10 30 10 0 {tpgid} 0")),
        _ => None,
    }
}

fn pane_children(pid: u32, tid: u32) -> Option<String> {
    match (pid, tid) {
        (10, 10) => Some("20 30".to_string()),
        (20, 20) => Some("21".to_string()),
        _ => None,
    }
}

fn pane_cmdline(pid: u32) -> Option<Vec<u8>> {
    match pid {
        20 => Some(b"vim\0notes.txt\0".to_vec()),
        30 => Some(b"make\0-j4\0".to_vec()),
        _ => None,
    }
}

#[test]
fn foreground_job_is_the_terminals_group() {
    let proc_fs = ProcFs {
        stat: |pid: u32| pane_stat(pid, 20),
        task_names: |pid: u32| vec![Some(pid.to_string()), None],
        task_children: pane_children,
        cmdline: pane_cmdline,
    };
    let expected = ForegroundJob {
        process_group_id: 20,
        processes: vec![
            process(20, "vim", Some(&["vim", "notes.txt"])),
            process(21, "helper", None),
        ],
    };
    assert_eq!(foreground_process_group_id(10, &proc_fs.stat), Some(20));
    assert_eq!(
        foreground_job(10, || panic!("the terminal tells its group"), &proc_fs),
        Some(expected)
    );
    assert_eq!(
        foreground_group_leader_job(20, &proc_fs.stat, &proc_fs.cmdline),
        Some(ForegroundJob {
            process_group_id: 20,
            processes: vec![process(20, "vim", Some(&["vim", "notes.txt"]))],
        })
    );
    assert_eq!(foreground_group_leader_job(21, &proc_fs.stat, &proc_fs.cmdline), None);
    assert_eq!(foreground_group_leader_job(99, &proc_fs.stat, &proc_fs.cmdline), None);
    assert_eq!(
        available_pane_shell(
            10,
            |pid, job: ForegroundJob| Some(format!("{pid}:{}", job.process_group_id)),
            || ProcessDetectionMode::Native,
            &proc_fs
        ),
        Some("10:20".to_string())
    );
}

#[test]
fn child_groups_serve_only_in_their_mode() {
    let proc_fs = ProcFs {
        stat: |pid: u32| pane_stat(pid, -1),
        task_names: |pid: u32| vec![Some(pid.to_string())],
        task_children: pane_children,
        cmdline: pane_cmdline,
    };
    assert_eq!(foreground_job(10, || ProcessDetectionMode::Native, &proc_fs), None);
    assert_eq!(child_groups_foreground_process_group(10, &proc_fs), Some(30));
    assert_eq!(
        foreground_job(10, || ProcessDetectionMode::ChildGroups, &proc_fs),
        Some(ForegroundJob {
            process_group_id: 30,
            processes: vec![process(30, "job", Some(&["make", "-j4"]))],
        })
    );
    assert_eq!(child_groups_foreground_process_group(99, &proc_fs), None);
    assert_eq!(
        available_pane_shell(
            10,
            |_, _| panic!("there is no job"),
            || ProcessDetectionMode::Native,
            &proc_fs
        ),
        None
    );
}

#[test]
fn members_are_in_their_group_alone() {
    let stat = |pid: u32| pane_stat(pid, 20);
    assert_eq!(
        live_process_group_member(20, 21, &stat),
        Some(ProcGroupMember {
            pid: 21,
            comm: "helper".to_string()
        })
    );
    assert_eq!(live_process_group_member(30, 21, &stat), None);
    assert_eq!(live_process_group_member(20, 99, &stat), None);
}

#[test]
fn session_processes_share_the_session_of_the_child() {
    let stat = |pid: u32| match pid {
        10 | 20 => Some(format!("{pid} (a) S 1 10 10 0 -1")),
        30 => Some("30 (b) S 1 30 30 0 -1".to_string()),
        _ => None,
    };
    let names = || {
        ["20", "self", "30", "+10", "10", "40"]
            .iter()
            .map(|name| Some(name.to_string()))
            .chain([None])
            .collect()
    };
    assert_eq!(process_session_id(30, &stat), Some(30));
    assert_eq!(session_processes(10, names, &stat), vec![20, 10]);
    assert_eq!(session_processes(30, names, &stat), vec![30]);
    // Every member of a session lists the same session, itself included.
    for child in [10, 20, 30] {
        let pids = session_processes(child, names, &stat);
        assert!(pids.contains(&child));
        for member in &pids {
            assert_eq!(session_processes(*member, names, &stat), pids);
        }
    }
    assert_eq!(
        session_processes(40, || panic!("nothing to look for"), &stat),
        Vec::<u32>::new()
    );
}

#[test]
fn signals_never_go_to_process_zero() {
    assert_eq!(
        signal_processes(&[0, 12, 0, 13], Signal::Terminate),
        vec![(12, 15), (13, 15)]
    );
    assert_eq!(signal_processes(&[5], Signal::Hangup), vec![(5, 1)]);
    assert_eq!(signal_processes(&[5], Signal::Kill), vec![(5, 9)]);
    assert_eq!(signal_processes(&[0], Signal::Kill), vec![]);
    assert_eq!(signal_processes(&[i32::MAX as u32], Signal::Kill), vec![(i32::MAX, 9)]);
    assert_eq!(signal_processes(&[u32::MAX], Signal::Kill), vec![(-1, 9)]);
}

#[test]
fn signal_numbers_are_those_of_the_system() {
    assert_eq!(signal_number(Signal::Hangup), libc::SIGHUP);
    assert_eq!(signal_number(Signal::Terminate), libc::SIGTERM);
    assert_eq!(signal_number(Signal::Kill), libc::SIGKILL);
}

#[test]
fn a_process_without_permission_exists() {
    assert!(process_exists(5, |pid| {
        assert_eq!(pid, 5);
        Ok(())
    }));
    assert!(process_exists(5, |_| Err(Some(libc::EPERM))));
    assert!(!process_exists(5, |_| Err(Some(libc::ESRCH))));
    assert!(!process_exists(5, |_| Err(None)));
    assert!(!process_exists(0, |_| panic!("process 0 is not probed")));
}

#[test]
fn process_zero_has_no_directory_and_no_hint() {
    assert_eq!(process_cwd(0, |_| Some("/")), None);
    assert_eq!(process_cwd(7, |pid| if pid == 7 { Some("/tmp") } else { None }), Some("/tmp"));
    assert_eq!(process_cwd(7, |_| None::<u8>), None);
    assert_eq!(process_agent_hint(0, |_| Some(Vec::new()), |_| Some(1)), None);
    assert_eq!(
        process_agent_hint(7, |_| Some(b"HERDR_AGENT=codex\0".to_vec()), |bytes| Some(bytes.len())),
        Some(18)
    );
    assert_eq!(process_agent_hint(7, |_| None, |_| Some(1)), None);
}

#[test]
fn terminal_groups_are_positive() {
    assert_eq!(foreground_process_group_id_for_tty_fd(3, |fd| fd + 40), Some(43));
    assert_eq!(foreground_process_group_id_for_tty_fd(3, |_| 0), None);
    assert_eq!(foreground_process_group_id_for_tty_fd(3, |_| -1), None);
}

#[test]
fn any_sign_of_the_windows_subsystem_is_enough() {
    let nothing = |_: &str| None;
    let unset = |_: &str| false;
    assert!(!running_inside_wsl(&nothing, &unset, &unset));
    for sign in ["/proc/sys/kernel/osrelease", "/proc/version"] {
        let read = |path: &str| {
            if path == sign {
                Some("Linux version 5 Microsoft".to_string())
            } else {
                Some("Linux version 6".to_string())
            }
        };
        assert!(running_inside_wsl(&read, &unset, &unset));
        assert!(proc_file_indicates_wsl(sign, &read));
    }
    for sign in ["WSL_DISTRO_NAME", "WSL_INTEROP"] {
        assert!(running_inside_wsl(&nothing, &|name: &str| name == sign, &unset));
    }
    let run_wsl = |path: &str| path == "/run/WSL";
    assert!(running_inside_wsl(&nothing, &unset, &run_wsl));

    assert!(should_draw_host_cursor_by_default(&nothing, &unset, &run_wsl));
    assert!(!should_query_host_terminal_palette(&nothing, &unset, &run_wsl));
    assert!(!should_draw_host_cursor_by_default(&nothing, &unset, &unset));
    assert!(should_query_host_terminal_palette(&nothing, &unset, &unset));
    assert!(!proc_file_indicates_wsl("/proc/version", &nothing));
    raise_server_nofile_limit();
}

#[test]
fn unchanged_files_give_the_same_job() {
    let proc_fs = ProcFs {
        stat: |pid: u32| pane_stat(pid, 20),
        task_names: |pid: u32| vec![Some(pid.to_string())],
        task_children: pane_children,
        cmdline: pane_cmdline,
    };
    let first = foreground_job(10, || ProcessDetectionMode::Native, &proc_fs);
    let second = foreground_job(10, || ProcessDetectionMode::ChildGroups, &proc_fs);
    assert!(first.is_some());
    assert_eq!(first, second);
}

#[test]
fn unchanged_files_give_the_same_job_from_child_groups() {
    let proc_fs = ProcFs {
        stat: |pid: u32| pane_stat(pid, -1),
        task_names: |pid: u32| vec![Some(pid.to_string())],
        task_children: pane_children,
        cmdline: pane_cmdline,
    };
    let job = || foreground_job(10, || ProcessDetectionMode::ChildGroups, &proc_fs);
    assert_eq!(job().map(|job| job.process_group_id), Some(30));
    assert_eq!(job(), job());
    assert_eq!(
        child_groups_foreground_process_group(10, &proc_fs),
        child_groups_foreground_process_group(10, &proc_fs)
    );
    assert_eq!(foreground_job(10, || ProcessDetectionMode::Native, &proc_fs), None);
}
