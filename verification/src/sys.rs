//! System constants, and what the answers of single system calls mean.
use crate::process::Signal;
use vstd::prelude::*;

verus! {

/// `libc::SIGHUP`, which is 1 on Linux and FreeBSD.
#[verifier::external_body]
fn sighup() -> (number: i32)
    ensures
        number == 1,
{
    libc::SIGHUP
}

/// `libc::SIGTERM`, which is 15 on Linux and FreeBSD.
#[verifier::external_body]
fn sigterm() -> (number: i32)
    ensures
        number == 15,
{
    libc::SIGTERM
}

/// `libc::SIGKILL`, which is 9 on Linux and FreeBSD.
#[verifier::external_body]
fn sigkill() -> (number: i32)
    ensures
        number == 9,
{
    libc::SIGKILL
}

/// `libc::EPERM`, which is 1 on Linux and FreeBSD.
#[verifier::external_body]
fn eperm() -> (number: i32)
    ensures
        number == 1,
{
    libc::EPERM
}

/// The number of a signal.
pub open spec fn signal_code(signal: Signal) -> i32 {
    match signal {
        Signal::Hangup => 1,
        Signal::Terminate => 15,
        Signal::Kill => 9,
    }
}

/// The number of a signal.
pub fn signal_number(signal: Signal) -> (number: i32)
    ensures
        number == signal_code(signal),
{
    match signal {
        Signal::Hangup => sighup(),
        Signal::Terminate => sigterm(),
        Signal::Kill => sigkill(),
    }
}

/// A probe with signal 0 shows that a process exists: it was delivered, or refused only for want of
/// permission.
pub open spec fn probe_shows_process(probed: Result<(), Option<i32>>) -> bool {
    match probed {
        Ok(()) => true,
        Err(errno) => errno == Some(1i32),
    }
}

/// Whether the outcome of a probe with signal 0 shows that a process exists. A failure carries the
/// error number, where there is one.
pub fn probe_found_process(probed: Result<(), Option<i32>>) -> (exists: bool)
    ensures
        exists == probe_shows_process(probed),
{
    match probed {
        Ok(()) => true,
        Err(Some(errno)) => errno == eperm(),
        Err(None) => false,
    }
}

/// The group that a terminal reports, if it is positive.
pub open spec fn positive_group(pgid: i32) -> Option<u32> {
    if pgid > 0 {
        Some(pgid as u32)
    } else {
        None
    }
}

/// The foreground process group of the terminal on descriptor `fd`, as `tcgetpgrp` reports it.
pub fn foreground_process_group_id_for_tty_fd<G>(fd: i32, tcgetpgrp: G) -> (group: Option<
    u32,
>) where G: FnOnce(i32) -> i32
    requires
        call_requires(tcgetpgrp, (fd,)),
    ensures
        exists|pgid: i32| #[trigger]
            call_ensures(tcgetpgrp, (fd,), pgid) && group == positive_group(pgid),
{
    let pgid: i32 = tcgetpgrp(fd);
    if pgid > 0 {
        Some(pgid as u32)
    } else {
        None
    }
}

/// Every signal goes out under the number that POSIX systems give it.
pub proof fn signals_have_their_numbers(signal: Signal)
    ensures
        signal_code(signal) == 1 <==> signal == Signal::Hangup,
        signal_code(signal) == 15 <==> signal == Signal::Terminate,
        signal_code(signal) == 9 <==> signal == Signal::Kill,
{
}

/// Of all the errors of a probe, only the want of permission shows a process; a probe that is
/// delivered always does.
pub proof fn only_the_want_of_permission_shows_a_process(errno: Option<i32>)
    ensures
        probe_shows_process(Ok(())),
        probe_shows_process(Err(errno)) <==> errno is Some && errno->0 == 1,
{
}

/// A group is the number that the terminal reports, unless that is zero or negative.
pub proof fn positive_groups_are_kept(pgid: i32)
    ensures
        positive_group(pgid) is Some <==> 1 <= pgid,
        positive_group(pgid) matches Some(group) ==> group as int == pgid as int,
{
}

} // verus!
