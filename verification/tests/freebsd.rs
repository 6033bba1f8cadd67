use std::cell::{Cell, RefCell};

use herdr_platform::freebsd::attributes::{AttributeEvent, AttributeStep, Namespace};
use herdr_platform::freebsd::config::{
    check_config_write_target, config_acl, create_config_temporary, staging_directory,
    write_existing_config, CreateEvent, CreateStep,
};
use herdr_platform::freebsd::errors::{ConfigError, Errno, OsError};
use herdr_platform::freebsd::processes::{
    available_pane_shell, foreground_group_leader_job, foreground_job,
    foreground_process_group_id, kinfo_processes, positive_pid, process_argv, process_info, Kernel,
};
use herdr_platform::freebsd::records::{process_name, split_nul_strings, until_nul, KinfoProc};
use herdr_platform::freebsd::replacement::{
    write_config_temporary, AclKind, FileMetadata, ReplacementEvent, ReplacementStep,
};
use herdr_platform::freebsd::session::{
    process_agent_hint, process_cwd, process_exists, raise_server_nofile_limit, session_processes,
    should_draw_host_cursor_by_default, should_query_host_terminal_palette, signal_processes,
};
use herdr_platform::freebsd::sysctl::{sysctl_bytes, KernelTable, SYSCTL_ROUNDS};
use herdr_platform::process::{ForegroundJob, ForegroundProcess, Signal};

// ---------------------------------------------------------------------------
// Kernel tables
// ---------------------------------------------------------------------------

const RECORD: usize = 8;
const FILE_RECORD: usize = 16;

/// A process record: layout, id, group, terminal group and session in a byte each, then the name.
fn record(pid: u8, pgid: u8, tpgid: u8, sid: u8, name: &[u8; 3]) -> [u8; RECORD] {
    [RECORD as u8, pid, pgid, tpgid, sid, name[0], name[1], name[2]]
}

fn decode(record: &[u8]) -> KinfoProc {
    KinfoProc {
        structsize: i32::from(record[0]),
        pid: i32::from(record[1] as i8),
        pgid: i32::from(record[2] as i8),
        tpgid: i32::from(record[3] as i8),
        sid: i32::from(record[4] as i8),
        comm: record[5..].to_vec(),
    }
}

fn table(table: KernelTable, id: i32) -> Option<Vec<u8>> {
    match (table, id) {
        (KernelTable::ProcessGroup, 20) => Some(
            [
                &record(20, 20, 20, 10, b"vi\0")[..],
                &record(21, 20, 20, 10, b"\0\0\0")[..],
                &[9, 22, 20, 20, 10, b'x', 0, 0][..],
                &record(0, 20, 20, 10, b"x\0\0")[..],
                &record(23, 20, 20, 10, b"sh\0")[..],
                &[RECORD as u8, 24][..],
            ]
            .concat(),
        ),
        (KernelTable::Session, 10) => Some(
            [
                &record(10, 10, 20, 10, b"sh\0")[..],
                &record(20, 20, 20, 10, b"vi\0")[..],
            ]
            .concat(),
        ),
        (KernelTable::Arguments, 20) => Some(b"vi\0\0two words\0".to_vec()),
        (KernelTable::Environment, 40) => Some(b"HOME=/\0HERDR_AGENT=codex\0".to_vec()),
        (KernelTable::Arguments, 40) => {
            Some(b"/bin/sh\0-c\0printf ready; read answer\0marker\0\0two words\0".to_vec())
        }
        (KernelTable::Session, 40) => Some(record(40, 40, 0, 40, b"sh\0").to_vec()),
        (KernelTable::WorkingDirectory, 40) => Some(b"........./tmp\0\0\0\0".to_vec()),
        (KernelTable::WorkingDirectory, 21) => Some(b".........\0ab\0\0\0\0".to_vec()),
        (KernelTable::WorkingDirectory, 22) => Some(b"........./short".to_vec()),
        (KernelTable::WorkingDirectory, 23) => Some(b"........./unending".to_vec()),
        _ => None,
    }
}

fn probe(pid: i32) -> Option<(usize, KinfoProc)> {
    let bytes = match pid {
        10 => record(10, 10, 20, 10, b"sh\0"),
        20 => record(20, 20, 20, 10, b"vi\0"),
        21 => record(21, 20, 0, 10, b"xx\0"),
        30 => record(30, 30, 255, 255, b"xxx"),
        31 => record(32, 31, 31, 31, b"xx\0"),
        40 => record(40, 40, 0, 40, b"sh\0"),
        41 => record(41, 41, 0, 0, b"ks\0"),
        33 => [7, 33, 33, 33, 33, b'x', 0, 0],
        34 => return Some((RECORD - 1, decode(&record(34, 34, 34, 34, b"xx\0")))),
        _ => return None,
    };
    Some((RECORD, decode(&bytes)))
}

fn size(kind: KernelTable, id: i32) -> Option<usize> {
    table(kind, id).map(|bytes| bytes.len())
}

fn fetch(kind: KernelTable, id: i32, length: usize) -> Result<(Vec<u8>, usize), Errno> {
    let bytes = table(kind, id).ok_or(Errno::Other)?;
    if length < bytes.len() {
        return Err(Errno::NoMemory);
    }
    let used = bytes.len();
    Ok((bytes, used))
}

fn path_field(bytes: &[u8]) -> Vec<u8> {
    bytes[9..].to_vec()
}

type Probe = fn(i32) -> Option<(usize, KinfoProc)>;
type Size = fn(KernelTable, i32) -> Option<usize>;
type Fetch = fn(KernelTable, i32, usize) -> Result<(Vec<u8>, usize), Errno>;

fn kernel() -> Kernel<Probe, Size, Fetch, fn(&[u8]) -> KinfoProc, fn(&[u8]) -> Vec<u8>> {
    Kernel {
        record_size: RECORD,
        file_record_size: FILE_RECORD,
        probe,
        size,
        fetch,
        decode,
        file_path: path_field,
    }
}

#[test]
fn invalid_process_ids_do_not_address_the_callers_group() {
    let kernel = Kernel {
        record_size: RECORD,
        file_record_size: FILE_RECORD,
        probe: |_: i32| panic!("no process is probed"),
        size: |_: KernelTable, _: i32| panic!("no table is asked for"),
        fetch: |_: KernelTable, _: i32, _: usize| panic!("no table is read"),
        decode: decode as fn(&[u8]) -> KinfoProc,
        file_path: path_field as fn(&[u8]) -> Vec<u8>,
    };
    for pid in [0, u32::MAX] {
        assert!(!process_exists(pid, |_| panic!("no process is probed")));
        assert!(process_info(pid, RECORD, &kernel.probe).is_none());
        assert!(process_cwd(pid, &kernel).is_none());
        assert!(process_agent_hint(pid, &kernel.size, &kernel.fetch, |_| Some(())).is_none());
        assert!(session_processes(pid, &kernel).is_empty());
        assert!(signal_processes(&[pid], Signal::Kill).is_empty());
        assert!(kinfo_processes(KernelTable::ProcessGroup, pid, &kernel).is_empty());
        assert!(process_argv(pid, &kernel.size, &kernel.fetch).is_none());
        assert_eq!(positive_pid(pid), None);
    }
    assert_eq!(positive_pid(1), Some(1));
    assert_eq!(positive_pid(i32::MAX as u32), Some(i32::MAX));
    assert_eq!(positive_pid(i32::MAX as u32 + 1), None);
}

#[test]
fn signals_reach_positive_ids_only() {
    assert_eq!(
        signal_processes(&[0, 12, u32::MAX, 13, 1 << 31], Signal::Hangup),
        vec![(12, 1), (13, 1)]
    );
    assert_eq!(signal_processes(&[12], Signal::Terminate), vec![(12, 15)]);
    assert_eq!(signal_processes(&[12], Signal::Kill), vec![(12, 9)]);
    assert!(process_exists(12, |id| {
        assert_eq!(id, 12);
        Ok(())
    }));
    assert!(process_exists(12, |_| Err(Some(libc::EPERM))));
    assert!(!process_exists(12, |_| Err(Some(libc::ESRCH))));
}

#[test]
fn probes_must_answer_with_a_whole_record_of_the_process() {
    let found = |pid: u32| process_info(pid, RECORD, &probe).map(|info| info.pid);
    assert_eq!(found(20), Some(20));
    assert_eq!(found(31), None);
    assert_eq!(found(33), None);
    assert_eq!(found(34), None);
    assert_eq!(found(99), None);
}

#[test]
fn foreground_job_lists_the_named_processes_of_the_group() {
    let kernel = kernel();
    let vi = ForegroundProcess {
        pid: 20,
        name: "vi".to_string(),
        argv0: Some("vi".to_string()),
        cmdline: Some("vi  two words".to_string()),
        argv: Some(vec!["vi".to_string(), String::new(), "two words".to_string()]),
    };
    let sh = ForegroundProcess {
        pid: 23,
        name: "sh".to_string(),
        argv0: None,
        cmdline: None,
        argv: None,
    };
    let job = ForegroundJob {
        process_group_id: 20,
        processes: vec![vi.clone(), sh],
    };
    assert_eq!(foreground_process_group_id(10, RECORD, &kernel.probe), Some(20));
    assert_eq!(foreground_job(10, &kernel), Some(job));
    assert_eq!(
        foreground_group_leader_job(20, &kernel),
        Some(ForegroundJob {
            process_group_id: 20,
            processes: vec![vi],
        })
    );
    // 21 is in another group, 30 has no name that ends, 99 does not exist.
    assert_eq!(foreground_group_leader_job(21, &kernel), None);
    assert_eq!(foreground_group_leader_job(30, &kernel), None);
    assert_eq!(foreground_group_leader_job(99, &kernel), None);
    assert_eq!(foreground_process_group_id(21, RECORD, &kernel.probe), None);
    assert_eq!(foreground_process_group_id(30, RECORD, &kernel.probe), None);
    assert_eq!(foreground_job(21, &kernel), None);
    assert_eq!(
        available_pane_shell(10, |pid, job: ForegroundJob| Some(format!("{pid} {}", job.processes.len())), &kernel),
        Some("10 2".to_string())
    );
    assert_eq!(available_pane_shell(21, |_, _| panic!("there is no job"), &kernel), None);
}

#[test]
fn isolated_child_preserves_arguments_environment_and_group_identity() {
    let kernel = kernel();
    let pid = 40;
    assert_eq!(process_cwd(pid, &kernel), Some(b"/tmp".to_vec()));
    let argv = process_argv(pid, &kernel.size, &kernel.fetch).expect("argv");
    assert_eq!(&argv[argv.len() - 3..], &["marker", "", "two words"]);
    let agent = process_agent_hint(pid, &kernel.size, &kernel.fetch, |bytes| {
        bytes
            .split(|byte| *byte == 0)
            .find_map(|entry| entry.strip_prefix(b"HERDR_AGENT="))
            .map(|agent| agent.to_vec())
    });
    assert_eq!(agent, Some(b"codex".to_vec()));
    assert_eq!(session_processes(pid, &kernel), vec![pid]);
    let job = foreground_group_leader_job(pid, &kernel).expect("leader");
    assert_eq!(job.processes.len(), 1);
    assert_eq!(job.processes[0].pid, pid);
    assert_eq!(signal_processes(&[pid], Signal::Terminate), vec![(40, libc::SIGTERM)]);
    assert!(!process_exists(pid, |_| Err(Some(libc::ESRCH))));
}

#[test]
fn tables_that_are_not_there_give_nothing() {
    let kernel = kernel();
    assert_eq!(process_agent_hint(21, &kernel.size, &kernel.fetch, |_| Some(1)), None);
    assert_eq!(process_argv(21, &kernel.size, &kernel.fetch), None);
    assert_eq!(session_processes(20, &kernel), vec![10, 20]);
}

#[test]
fn every_member_lists_the_same_session() {
    let kernel = kernel();
    for child in [10, 20, 40] {
        let pids = session_processes(child, &kernel);
        assert!(pids.contains(&child));
        for member in &pids {
            assert_eq!(session_processes(*member, &kernel), pids);
        }
    }
    // 41 is in session 0, for which there is no table.
    assert!(process_info(41, RECORD, &kernel.probe).is_some());
    assert_eq!(session_processes(41, &kernel), Vec::<u32>::new());
}

#[test]
fn directories_need_a_whole_record_and_a_path() {
    let kernel = kernel();
    assert_eq!(process_cwd(21, &kernel), None);
    assert_eq!(process_cwd(22, &kernel), None);
    assert_eq!(process_cwd(23, &kernel), None);
    assert_eq!(process_cwd(24, &kernel), None);
    assert_eq!(session_processes(30, &kernel), Vec::<u32>::new());
    assert_eq!(session_processes(99, &kernel), Vec::<u32>::new());
}

#[test]
fn tables_that_outgrow_their_buffer_are_asked_for_again_but_not_for_ever() {
    let asked = Cell::new(0);
    let size = |_: KernelTable, _: i32| {
        asked.set(asked.get() + 1);
        Some(4)
    };
    let outgrown = |_: KernelTable, _: i32, _: usize| Err(Errno::NoMemory);
    assert_eq!(sysctl_bytes(KernelTable::Session, 1, &size, &outgrown), None);
    assert_eq!(asked.get(), SYSCTL_ROUNDS);
    assert_eq!(SYSCTL_ROUNDS, 3);

    asked.set(0);
    let third = |_: KernelTable, _: i32, length: usize| {
        if asked.get() < 3 {
            Err(Errno::NoMemory)
        } else {
            Ok((vec![7; length], 3))
        }
    };
    assert_eq!(
        sysctl_bytes(KernelTable::Session, 1, &size, &third),
        Some(vec![7, 7, 7])
    );

    asked.set(0);
    let refused = |_: KernelTable, _: i32, _: usize| Err(Errno::NotPermitted);
    assert_eq!(sysctl_bytes(KernelTable::Session, 1, &size, &refused), None);
    assert_eq!(asked.get(), 1);

    let unread = |_: KernelTable, _: i32, _: usize| panic!("there is nothing to read");
    assert_eq!(sysctl_bytes(KernelTable::Session, 1, &|_, _| Some(0), &unread), None);
    assert_eq!(sysctl_bytes(KernelTable::Session, 1, &|_, _| None, &unread), None);
}

#[test]
fn tables_are_no_longer_than_they_were_said_to_be() {
    let size = |_: KernelTable, _: i32| Some(4);
    let read = |buffer: usize, used: usize| {
        let fetch = |_: KernelTable, _: i32, _: usize| Ok((vec![7; buffer], used));
        sysctl_bytes(KernelTable::Session, 1, &size, &fetch).map(|bytes| bytes.len())
    };
    assert_eq!(read(4, 4), Some(4));
    assert_eq!(read(4, 2), Some(2));
    assert_eq!(read(4, 0), Some(0));
    assert_eq!(read(9, 9), Some(4));
    assert_eq!(read(9, 3), Some(3));
    assert_eq!(read(2, 9), Some(2));
}

#[test]
fn names_end_at_a_nul_byte() {
    let named = |comm: &[u8]| {
        process_name(&KinfoProc {
            structsize: 0,
            pid: 0,
            pgid: 0,
            tpgid: 0,
            sid: 0,
            comm: comm.to_vec(),
        })
    };
    assert_eq!(named(b"zsh\0xx"), Some("zsh".to_string()));
    assert_eq!(named(b"zsh"), None);
    assert_eq!(named(b"\0zsh"), None);
    assert_eq!(named(b"\xff\0"), Some("\u{fffd}".to_string()));
    assert_eq!(until_nul(b"ab\0c\0"), Some(&b"ab"[..]));
}

#[test]
fn argument_tables_keep_empty_and_spaced_arguments() {
    assert_eq!(split_nul_strings(b"a\0\0b c\0"), vec!["a", "", "b c"]);
    assert_eq!(split_nul_strings(b"a"), vec!["a"]);
    assert_eq!(split_nul_strings(b"a\0\0"), vec!["a", ""]);
    assert_eq!(split_nul_strings(b""), vec![""]);
    assert_eq!(split_nul_strings(b"\0"), vec![""]);
    assert_eq!(split_nul_strings(b"\xfe\0"), vec!["\u{fffd}"]);
}

#[test]
fn the_limit_on_open_files_only_rises() {
    let none = i64::MAX;
    assert_eq!(raise_server_nofile_limit(1024, none, none), Some(8192));
    assert_eq!(raise_server_nofile_limit(1024, 4096, none), Some(4096));
    assert_eq!(raise_server_nofile_limit(1024, 100_000, none), Some(8192));
    assert_eq!(raise_server_nofile_limit(8192, none, none), None);
    assert_eq!(raise_server_nofile_limit(9000, none, none), None);
    assert_eq!(raise_server_nofile_limit(4096, 4096, none), None);
    assert!(!should_draw_host_cursor_by_default());
    assert!(should_query_host_terminal_palette());
}

// ---------------------------------------------------------------------------
// Configuration files
// ---------------------------------------------------------------------------

/// A file with all that is taken over when it is replaced.
#[derive(Clone, Default)]
struct File {
    uid: u32,
    gid: u32,
    mode: u32,
    user: Vec<(Vec<u8>, Vec<u8>)>,
    system: Vec<(Vec<u8>, Vec<u8>)>,
    access: Option<&'static str>,
    nfs4: Option<&'static str>,
    contents: Vec<u8>,
}

fn failure(errno: Errno) -> OsError<&'static str> {
    OsError {
        error: "system call",
        errno,
    }
}

fn names(attributes: &[(Vec<u8>, Vec<u8>)]) -> Vec<u8> {
    let mut list = Vec::new();
    for (name, _) in attributes {
        list.push(name.len() as u8);
        list.extend_from_slice(name);
    }
    list
}

fn value(attributes: &[(Vec<u8>, Vec<u8>)], name: &[u8]) -> Vec<u8> {
    let found = attributes.iter().find(|(given, _)| given == name);
    found.expect("the attribute was listed").1.clone()
}

fn attribute_event(
    step: &AttributeStep<&'static str>,
    source: &[(Vec<u8>, Vec<u8>)],
    set: &mut Vec<(Vec<u8>, Vec<u8>)>,
) -> AttributeEvent<&'static str> {
    match step {
        AttributeStep::ListSize => AttributeEvent::Size(names(source).len()),
        AttributeStep::ListNames { capacity } => {
            assert_eq!(*capacity, names(source).len() + 1);
            AttributeEvent::Bytes(names(source))
        }
        AttributeStep::ValueSize { name, .. } => AttributeEvent::Size(value(source, name).len()),
        AttributeStep::ReadValue { name, .. } => AttributeEvent::Bytes(value(source, name)),
        AttributeStep::SetValue { name, value, .. } => {
            set.push((name.clone(), value.clone()));
            AttributeEvent::Written(value.len())
        }
        AttributeStep::Done | AttributeStep::Failed(_) => panic!("the copy is over"),
    }
}

fn metadata(file: &File) -> FileMetadata {
    FileMetadata {
        uid: file.uid,
        gid: file.gid,
        mode: file.mode,
    }
}

fn acl_event(acl: Option<&'static str>) -> ReplacementEvent<&'static str> {
    match acl {
        Some(_) => ReplacementEvent::Succeeded,
        None => ReplacementEvent::Failed(failure(Errno::InvalidArgument)),
    }
}

/// Fills `temporary` in place of `source`, and gives what was done in order.
fn replace(
    source: Option<&File>,
    temporary: &mut File,
    contents: &[u8],
) -> (Vec<String>, Result<(), ConfigError<&'static str>>) {
    let mut done = Vec::new();
    let mut step = write_config_temporary(source.is_some());
    let none = File::default();
    let input = source.unwrap_or(&none);
    loop {
        let event = match &step {
            ReplacementStep::OpenTemporary { .. } => {
                temporary.contents.clear();
                ReplacementEvent::Succeeded
            }
            ReplacementStep::OpenSource => ReplacementEvent::Succeeded,
            ReplacementStep::ReadSource => ReplacementEvent::Metadata(metadata(input)),
            ReplacementStep::ReadTemporary { .. } | ReplacementStep::CheckMode { .. } => {
                ReplacementEvent::Metadata(metadata(temporary))
            }
            ReplacementStep::ChangeOwner { source } => {
                done.push("owner".to_string());
                temporary.uid = source.uid;
                temporary.gid = source.gid;
                ReplacementEvent::Succeeded
            }
            ReplacementStep::CopyAttributes { namespace, step, .. } => {
                let (from, to) = match namespace {
                    Namespace::User => (&input.user, &mut temporary.user),
                    Namespace::System => (&input.system, &mut temporary.system),
                };
                if let AttributeStep::SetValue { .. } = step {
                    done.push(format!("{namespace:?} attribute"));
                }
                ReplacementEvent::Attribute(attribute_event(step, from, to))
            }
            ReplacementStep::ReadAcl { kind, .. } => acl_event(match kind {
                AclKind::Access => input.access,
                AclKind::Nfs4 => input.nfs4,
            }),
            ReplacementStep::SetAcl { kind, .. } => {
                done.push(format!("{kind:?} rules"));
                match kind {
                    AclKind::Access => temporary.access = input.access,
                    AclKind::Nfs4 => {
                        temporary.nfs4 = input.nfs4;
                        temporary.mode = input.mode & 0o777;
                    }
                }
                ReplacementEvent::Succeeded
            }
            ReplacementStep::SetPermissions { source } => {
                done.push("mode".to_string());
                temporary.mode = source.mode;
                ReplacementEvent::Succeeded
            }
            ReplacementStep::WriteContents => {
                done.push("contents".to_string());
                temporary.contents.extend_from_slice(contents);
                ReplacementEvent::Succeeded
            }
            ReplacementStep::Sync => {
                done.push("sync".to_string());
                ReplacementEvent::Succeeded
            }
            ReplacementStep::Finished => return (done, Ok(())),
            ReplacementStep::Failed(_) => break,
        };
        step = step.advance(false, event);
    }
    match step {
        ReplacementStep::Failed(error) => (done, Err(error)),
        _ => panic!("the replacement is over"),
    }
}

#[test]
fn config_replacement_preserves_native_acl() {
    let source = File {
        mode: 0o600,
        access: Some("user::rw-,user:65534:r--,group::---,mask::r--,other::---"),
        contents: b"old".to_vec(),
        ..File::default()
    };
    let mut temporary = File {
        mode: 0o600,
        access: Some("inherited"),
        ..File::default()
    };
    let (done, result) = replace(Some(&source), &mut temporary, b"new");
    assert!(result.is_ok());
    assert_eq!(temporary.access, source.access);
    assert_eq!(temporary.contents, b"new");
    assert_eq!(done, vec!["Access rules", "mode", "contents", "sync"]);

    let ordered = File {
        access: None,
        nfs4: Some("owner@:rwxpDdaARWcCos::allow,user:65534:r::allow,group@:::allow,everyone@:::allow"),
        ..source
    };
    let mut temporary = File::default();
    let (done, result) = replace(Some(&ordered), &mut temporary, b"new");
    assert!(result.is_ok());
    assert_eq!(temporary.nfs4, ordered.nfs4);
    assert_eq!(done, vec!["Nfs4 rules", "contents", "sync"]);
}

#[test]
fn config_replacement_preserves_mode_ownership_and_user_attributes() {
    let source = File {
        uid: 5,
        gid: 6,
        mode: 0o640,
        user: vec![
            (b"herdr-test".to_vec(), b"preserved".to_vec()),
            (b"empty".to_vec(), Vec::new()),
        ],
        system: vec![(b"label".to_vec(), b"high".to_vec())],
        contents: b"old secret".to_vec(),
        ..File::default()
    };
    let mut temporary = File {
        mode: 0o600,
        ..File::default()
    };
    let (done, result) = replace(Some(&source), &mut temporary, b"new secret");
    assert!(result.is_ok());
    assert_eq!(
        (temporary.uid, temporary.gid, temporary.mode),
        (source.uid, source.gid, source.mode)
    );
    assert_eq!(temporary.user, source.user);
    assert_eq!(temporary.system, source.system);
    assert_eq!(source.contents, b"old secret");
    assert_eq!(temporary.contents, b"new secret");
    assert_eq!(
        done,
        vec![
            "owner",
            "User attribute",
            "User attribute",
            "System attribute",
            "mode",
            "contents",
            "sync"
        ]
    );
}

#[test]
fn a_new_config_file_gets_its_contents_alone() {
    let mut temporary = File {
        mode: 0o600,
        contents: b"rest".to_vec(),
        ..File::default()
    };
    let (done, result) = replace(None, &mut temporary, b"new");
    assert!(result.is_ok());
    assert_eq!(done, vec!["contents", "sync"]);
    assert_eq!(temporary.contents, b"new");
    assert_eq!(temporary.mode, 0o600);
}

#[test]
fn special_mode_bits_under_nfs4_rules_are_refused() {
    let source = File {
        mode: 0o4700,
        nfs4: Some("owner@:rwx::allow"),
        ..File::default()
    };
    let mut temporary = File::default();
    let (done, result) = replace(Some(&source), &mut temporary, b"new");
    let error = result.err().expect("the mode cannot be kept");
    assert_eq!(
        error.message(),
        Some("cannot preserve config mode without rewriting its NFSv4 ACL")
    );
    assert_eq!(done, vec!["Nfs4 rules"]);
    assert!(temporary.contents.is_empty());
}

#[test]
fn a_replacement_that_fails_before_the_write_leaves_an_empty_file() {
    let source = File {
        uid: 5,
        mode: 0o640,
        user: vec![(b"bad\0name".to_vec(), b"value".to_vec())],
        contents: b"old secret".to_vec(),
        ..File::default()
    };
    let mut temporary = File {
        contents: b"rest of an earlier try".to_vec(),
        ..File::default()
    };
    let (done, result) = replace(Some(&source), &mut temporary, b"new secret");
    assert!(matches!(result, Err(ConfigError::NulInAttributeName(_))));
    assert_eq!(done, vec!["owner"]);
    assert!(temporary.contents.is_empty());
}

#[test]
fn failures_end_a_replacement() {
    let source = FileMetadata {
        uid: 1,
        gid: 1,
        mode: 0o600,
    };
    let steps: Vec<fn(FileMetadata) -> ReplacementStep<&'static str>> = vec![
        |_| ReplacementStep::OpenTemporary { has_source: true },
        |_| ReplacementStep::OpenSource,
        |_| ReplacementStep::ReadSource,
        |source| ReplacementStep::ReadTemporary { source },
        |source| ReplacementStep::ChangeOwner { source },
        |source| ReplacementStep::SetAcl { source, kind: AclKind::Access },
        |source| ReplacementStep::CheckMode { source },
        |source| ReplacementStep::SetPermissions { source },
        |_| ReplacementStep::WriteContents,
        |_| ReplacementStep::Sync,
    ];
    for make in steps {
        let next = make(source).advance(false, ReplacementEvent::Failed(failure(Errno::NotSupported)));
        assert!(matches!(next, ReplacementStep::Failed(ConfigError::Os("system call"))));
    }
    let next = ReplacementStep::ReadAcl { source, kind: AclKind::Nfs4 }
        .advance(false, ReplacementEvent::Failed(failure(Errno::NotPermitted)));
    assert!(matches!(next, ReplacementStep::Failed(ConfigError::Os("system call"))));
    let next = ReplacementStep::CopyAttributes {
        source,
        namespace: Namespace::User,
        step: AttributeStep::ListSize,
    }
    .advance(
        false,
        ReplacementEvent::Attribute(AttributeEvent::Failed(failure(Errno::NotPermitted))),
    );
    assert!(matches!(next, ReplacementStep::Failed(ConfigError::Os("system call"))));
}

/// The step after `step`, in the user namespace.
fn next(
    step: AttributeStep<&'static str>,
    event: AttributeEvent<&'static str>,
) -> AttributeStep<&'static str> {
    step.advance(Namespace::User, false, event)
}

fn message(step: AttributeStep<&'static str>) -> Option<&'static str> {
    match step {
        AttributeStep::Failed(error) => error.message(),
        _ => panic!("the copy goes on"),
    }
}

#[test]
fn attributes_that_change_during_the_copy_are_refused() {
    assert_eq!(
        message(next(AttributeStep::ListNames { capacity: 3 }, AttributeEvent::Bytes(vec![1; 3]))),
        Some("config attribute list changed during copy")
    );
    assert_eq!(
        message(next(AttributeStep::ListNames { capacity: 3 }, AttributeEvent::Bytes(vec![0]))),
        Some("config attribute list changed during copy")
    );
    assert_eq!(
        message(next(AttributeStep::ListNames { capacity: 3 }, AttributeEvent::Bytes(vec![2, 1]))),
        Some("invalid extended attribute name list")
    );
    let reading = AttributeStep::ReadValue {
        names: Vec::new(),
        next: 0,
        name: vec![1],
        capacity: 2,
    };
    assert_eq!(
        message(next(reading, AttributeEvent::Bytes(vec![1, 2]))),
        Some("config attribute changed during copy")
    );
    let setting = AttributeStep::SetValue {
        names: Vec::new(),
        next: 0,
        name: vec![1],
        value: vec![1, 2],
    };
    assert_eq!(
        message(next(setting, AttributeEvent::Written(1))),
        Some("short extended attribute write")
    );
    match next(AttributeStep::ListNames { capacity: 4 }, AttributeEvent::Bytes(vec![2, 5, 0])) {
        AttributeStep::Failed(ConfigError::NulInAttributeName(name)) => assert_eq!(name, vec![5, 0]),
        _ => panic!("a name holds no NUL byte"),
    }
}

#[test]
fn only_namespaces_out_of_reach_are_passed_over() {
    let listed = |namespace, superuser, errno| {
        AttributeStep::ListSize.advance(namespace, superuser, AttributeEvent::Failed(failure(errno)))
    };
    for (namespace, superuser, errno, passed) in [
        (Namespace::User, true, Errno::NotSupported, true),
        (Namespace::System, true, Errno::NotSupported, true),
        (Namespace::System, false, Errno::NotPermitted, true),
        (Namespace::System, false, Errno::AccessDenied, true),
        (Namespace::System, true, Errno::NotPermitted, false),
        (Namespace::User, false, Errno::NotPermitted, false),
        (Namespace::User, false, Errno::AccessDenied, false),
        (Namespace::System, false, Errno::Other, false),
        (Namespace::System, false, Errno::InvalidArgument, false),
    ] {
        let step = listed(namespace, superuser, errno);
        assert_eq!(matches!(step, AttributeStep::Done), passed);
        assert_eq!(
            matches!(step, AttributeStep::Failed(ConfigError::Os("system call"))),
            !passed
        );
    }
}

/// Creates a temporary file in a directory, and gives the calls that were made.
fn create(
    private: bool,
    directory_acl: Option<bool>,
) -> (Vec<&'static str>, Result<u32, Option<&'static str>>) {
    let mut calls = Vec::new();
    let created = RefCell::new(0);
    let mut step = create_config_temporary::<&'static str>(private);
    loop {
        let event = match &step {
            CreateStep::OpenDirectory => {
                calls.push("open");
                CreateEvent::Succeeded
            }
            CreateStep::ReadDirectoryAcl => {
                calls.push("rules");
                match directory_acl {
                    Some(_) => CreateEvent::Succeeded,
                    None => CreateEvent::Failed(failure(Errno::NotSupported)),
                }
            }
            CreateStep::CheckDirectoryAcl => {
                calls.push("trivial");
                CreateEvent::Trivial(directory_acl.unwrap())
            }
            CreateStep::Create { mode } => {
                calls.push("create");
                *created.borrow_mut() = *mode;
                CreateEvent::Succeeded
            }
            CreateStep::Created => return (calls, Ok(*created.borrow())),
            CreateStep::Failed(error) => return (calls, Err(error.message())),
        };
        step = step.advance(event);
    }
}

#[test]
fn private_config_staging_rejects_nontrivial_nfs4_parent_before_creation() {
    assert_eq!(
        create(true, Some(false)),
        (
            vec!["open", "rules", "trivial"],
            Err(Some(
                "cannot safely stage private config in a directory with a nontrivial NFSv4 ACL"
            ))
        )
    );
}

#[test]
fn private_files_are_for_their_owner_alone() {
    assert_eq!(
        create(true, Some(true)),
        (vec!["open", "rules", "trivial", "create"], Ok(0o600))
    );
    assert_eq!(create(true, None), (vec!["open", "rules", "create"], Ok(0o600)));
    assert_eq!(create(false, Some(false)), (vec!["create"], Ok(0o666)));
}

#[test]
fn failures_end_a_creation() {
    for step in [
        CreateStep::OpenDirectory,
        CreateStep::ReadDirectoryAcl,
        CreateStep::CheckDirectoryAcl,
        CreateStep::Create { mode: 0o600 },
    ] {
        let next = step.advance(CreateEvent::Failed(failure(Errno::AccessDenied)));
        assert!(matches!(next, CreateStep::Failed(ConfigError::Os("system call"))));
    }
}

#[test]
fn rules_of_a_kind_that_the_file_system_lacks_are_none() {
    let looked_up = |errno| config_acl(Err::<u8, _>(failure(errno)));
    assert_eq!(config_acl(Ok::<u8, OsError<&str>>(4)), Ok(Some(4)));
    assert_eq!(looked_up(Errno::InvalidArgument), Ok(None));
    assert_eq!(looked_up(Errno::NotSupported), Ok(None));
    assert_eq!(looked_up(Errno::NotPermitted), Err("system call"));
    assert_eq!(looked_up(Errno::Other), Err("system call"));
}

#[test]
fn files_are_staged_beside_their_target() {
    assert_eq!(staging_directory(Some(b"/etc".to_vec())), b"/etc");
    assert_eq!(staging_directory(Some(Vec::new())), b".");
    assert_eq!(staging_directory(None), b".");
    assert_eq!(check_config_write_target::<_, ()>(&"/etc/x"), Ok(()));
    assert_eq!(write_existing_config::<_, ()>(&"/etc/x", b"new"), Ok(false));
}

#[test]
fn errors_of_system_calls_speak_for_themselves() {
    assert_eq!(ConfigError::Os("system call").message(), None);
    assert_eq!(ConfigError::<()>::NulInAttributeName(vec![0]).message(), None);
}
