//! Sending a signal to a process, and only to the one that was meant.
use vstd::prelude::*;

use crate::linux::process::{ProcessIdentity, ProcessSignal, ProcessSignalError};
use crate::linux::stat;
use crate::linux::stat::read_process_start_time;
use crate::numerals;
use crate::numerals::to_decimal;

verus! {

broadcast use vstd::string::group_string_axioms;

/// `libc::SIGTERM`, which is 15 on every Linux.
#[verifier::external_body]
fn sigterm() -> (number: i32)
    ensures
        number == 15,
{
    libc::SIGTERM
}

/// `libc::SIGKILL`, which is 9 on every Linux.
#[verifier::external_body]
fn sigkill() -> (number: i32)
    ensures
        number == 9,
{
    libc::SIGKILL
}

/// `libc::ESRCH`, which is 3 on every Linux.
#[verifier::external_body]
fn no_such_process() -> (code: i32)
    ensures
        code == 3,
{
    libc::ESRCH
}

/// `libc::EPERM`, which is 1 on every Linux.
#[verifier::external_body]
fn not_permitted() -> (code: i32)
    ensures
        code == 1,
{
    libc::EPERM
}

/// `libc::EACCES`, which is 13 on every Linux.
#[verifier::external_body]
fn access_denied() -> (code: i32)
    ensures
        code == 13,
{
    libc::EACCES
}

/// `libc::ENOSYS`. It is 38 on most architectures, 89 on MIPS and 90 on SPARC.
#[verifier::external_body]
fn not_implemented() -> (code: i32)
    ensures
        unsupported_code(code),
{
    libc::ENOSYS
}

/// A number that stands for a system call that the kernel does not have.
pub open spec fn unsupported_code(code: i32) -> bool {
    code == 38 || code == 89 || code == 90
}

impl ProcessSignal {
    /// The number of the signal.
    pub open spec fn number(self) -> i32 {
        match self {
            ProcessSignal::Term => 15,
            ProcessSignal::Kill => 9,
        }
    }

    pub fn as_c_int(self) -> (number: i32)
        ensures
            number == self.number(),
    {
        match self {
            ProcessSignal::Term => sigterm(),
            ProcessSignal::Kill => sigkill(),
        }
    }
}

impl ProcessSignalError {
    /// The error in words.
    pub open spec fn text(self) -> Seq<char> {
        match self {
            ProcessSignalError::ProcessNotFound => "process already exited"@,
            ProcessSignalError::StaleIdentity => "process identity changed (PID reused)"@,
            ProcessSignalError::PermissionDenied => "permission denied"@,
            ProcessSignalError::Unsupported => "pidfd signaling is not supported"@,
            ProcessSignalError::Failed(message) => message@,
        }
    }

    pub fn message(&self) -> (text: String)
        ensures
            text@ == self.text(),
    {
        match self {
            ProcessSignalError::ProcessNotFound => String::from_str("process already exited"),
            ProcessSignalError::StaleIdentity => String::from_str(
                "process identity changed (PID reused)",
            ),
            ProcessSignalError::PermissionDenied => String::from_str("permission denied"),
            ProcessSignalError::Unsupported => String::from_str("pidfd signaling is not supported"),
            ProcessSignalError::Failed(message) => message.clone(),
        }
    }
}

/// What the operating system says when a call fails.
#[derive(Debug, Clone, PartialEq, Eq)]
pub struct OsError {
    /// Its number for the error, where it has one.
    pub code: Option<i32>,
    pub message: String,
}

/// What an error of the operating system means for a signal, with `unsupported` as the number
/// for a system call that the kernel does not have.
pub open spec fn error_meaning(error: OsError, unsupported: i32) -> ProcessSignalError {
    match error.code {
        Some(code) => if code == 3 {
            ProcessSignalError::ProcessNotFound
        } else if code == 1 || code == 13 {
            ProcessSignalError::PermissionDenied
        } else if code == unsupported {
            ProcessSignalError::Unsupported
        } else {
            ProcessSignalError::Failed(error.message)
        },
        None => ProcessSignalError::Failed(error.message),
    }
}

pub fn interpret_error(error: OsError, unsupported: i32) -> (meaning: ProcessSignalError)
    ensures
        meaning == error_meaning(error, unsupported),
{
    match error.code {
        Some(code) => if code == no_such_process() {
            ProcessSignalError::ProcessNotFound
        } else if code == not_permitted() || code == access_denied() {
            ProcessSignalError::PermissionDenied
        } else if code == unsupported {
            ProcessSignalError::Unsupported
        } else {
            ProcessSignalError::Failed(error.message)
        },
        None => ProcessSignalError::Failed(error.message),
    }
}

/// What an error of this machine's operating system means for a signal.
pub fn map_signal_error(error: OsError) -> (meaning: ProcessSignalError)
    ensures
        exists|unsupported: i32| #[trigger]
            unsupported_code(unsupported) && meaning == error_meaning(error, unsupported),
{
    let unsupported: i32 = not_implemented();
    interpret_error(error, unsupported)
}

/// Why the status of a process could not be read.
#[derive(Debug, Clone, PartialEq, Eq)]
pub struct StatError {
    /// There is no such file.
    pub not_found: bool,
    pub message: String,
}

/// A PID that a process can have.
pub open spec fn signalable(pid: u32) -> bool {
    0 < pid <= i32::MAX
}

/// The message for a PID that no process can have.
pub open spec fn pid_complaint(pid: u32) -> Seq<char> {
    if pid == 0 {
        "cannot signal PID 0"@
    } else {
        "invalid PID "@ + numerals::decimal(pid as nat)
    }
}

/// Whether the process held is the one that was meant, by its status.
pub open spec fn checked(identity: ProcessIdentity, stat: Result<String, StatError>) -> Result<
    (),
    ProcessSignalError,
> {
    match stat {
        Ok(contents) => match stat::parsed_start_time(contents@) {
            Some(start_time) => if start_time == identity.start_time {
                Ok(())
            } else {
                Err(ProcessSignalError::StaleIdentity)
            },
            None => Err(ProcessSignalError::ProcessNotFound),
        },
        Err(error) => if error.not_found {
            Err(ProcessSignalError::ProcessNotFound)
        } else {
            Err(ProcessSignalError::Failed(error.message))
        },
    }
}

/// The PID under which a process is taken hold of.
fn target_pid(identity: ProcessIdentity) -> (pid: Result<i32, ProcessSignalError>)
    ensures
        match pid {
            Ok(pid) => signalable(identity.pid) && pid == identity.pid,
            Err(error) => !signalable(identity.pid) && (error matches ProcessSignalError::Failed(
                message,
            ) && message@ == pid_complaint(identity.pid)),
        },
{
    if identity.pid == 0 {
        Err(ProcessSignalError::Failed(String::from_str("cannot signal PID 0")))
    } else if identity.pid > 0x7fff_ffff {
        let mut message = String::from_str("invalid PID ");
        message.append(to_decimal(identity.pid as u64).as_str());
        Err(ProcessSignalError::Failed(message))
    } else {
        Ok(identity.pid as i32)
    }
}

/// Whether the process held is the one that was meant, by its status.
pub fn validate_identity(identity: ProcessIdentity, stat: Result<String, StatError>) -> (result:
    Result<(), ProcessSignalError>)
    ensures
        result == checked(identity, stat),
{
    match stat {
        Ok(contents) => match read_process_start_time(contents.as_str()) {
            Some(start_time) => if start_time == identity.start_time {
                Ok(())
            } else {
                Err(ProcessSignalError::StaleIdentity)
            },
            None => Err(ProcessSignalError::ProcessNotFound),
        },
        Err(error) => if error.not_found {
            Err(ProcessSignalError::ProcessNotFound)
        } else {
            Err(ProcessSignalError::Failed(error.message))
        },
    }
}

/// `result` is how the attempt ended that `outcome` is the last word on.
pub open spec fn ended_with(
    outcome: Result<(), OsError>,
    result: Result<(), ProcessSignalError>,
) -> bool {
    match outcome {
        Ok(()) => result is Ok,
        Err(error) => exists|unsupported: i32| #[trigger]
            unsupported_code(unsupported) && result == Err::<(), ProcessSignalError>(
                error_meaning(error, unsupported),
            ),
    }
}

fn end_with(outcome: Result<(), OsError>) -> (result: Result<(), ProcessSignalError>)
    ensures
        ended_with(outcome, result),
{
    match outcome {
        Ok(()) => Ok(()),
        Err(error) => Err(map_signal_error(error)),
    }
}

/// Sends a signal to the process that was meant. `open_pidfd` takes hold of a process by its
/// PID, `read_stat` reads the status of the process with that PID, and `send_signal` sends a
/// signal to the process held. The process is held before its status is read, and the signal
/// is sent only if the status shows that it is the one that was meant: each of the three need
/// only be callable where those before it went well, so none is called otherwise.
pub fn verify_and_send_signal_at<H, O, R, S>(
    identity: ProcessIdentity,
    signal: ProcessSignal,
    open_pidfd: O,
    read_stat: R,
    send_signal: S,
) -> (result: Result<(), ProcessSignalError>) where
    O: FnOnce(i32) -> Result<H, OsError>,
    R: FnOnce(u32) -> Result<String, StatError>,
    S: FnOnce(&H, i32) -> Result<(), OsError>,

    requires
        signalable(identity.pid) ==> open_pidfd.requires((identity.pid as i32,)),
        forall|handle: H|
            signalable(identity.pid) && #[trigger] open_pidfd.ensures(
                (identity.pid as i32,),
                Ok::<H, OsError>(handle),
            ) ==> read_stat.requires((identity.pid,)),
        forall|handle: H, stat: Result<String, StatError>|
            signalable(identity.pid) && #[trigger] open_pidfd.ensures(
                (identity.pid as i32,),
                Ok::<H, OsError>(handle),
            ) && #[trigger] read_stat.ensures((identity.pid,), stat) && checked(identity, stat) is Ok
                ==> send_signal.requires((&handle, signal.number())),
    ensures
        !signalable(identity.pid) ==> (result matches Err(ProcessSignalError::Failed(message))
            && message@ == pid_complaint(identity.pid)),
        signalable(identity.pid) ==> exists|opened: Result<H, OsError>| #[trigger]
            open_pidfd.ensures((identity.pid as i32,), opened) && match opened {
                Err(error) => ended_with(Err(error), result),
                Ok(handle) => exists|stat: Result<String, StatError>| #[trigger]
                    read_stat.ensures((identity.pid,), stat) && match checked(identity, stat) {
                        Err(error) => result == Err::<(), ProcessSignalError>(error),
                        Ok(()) => exists|sent: Result<(), OsError>| #[trigger]
                            send_signal.ensures((&handle, signal.number()), sent) && ended_with(
                                sent,
                                result,
                            ),
                    },
            },
{
    let pid: i32 = match target_pid(identity) {
        Ok(pid) => pid,
        Err(error) => {
            return Err(error);
        },
    };
    let opened = open_pidfd(pid);
    let handle = match opened {
        Ok(handle) => handle,
        Err(error) => {
            return end_with(Err(error));
        },
    };
    let stat = read_stat(identity.pid);
    match validate_identity(identity, stat) {
        Ok(()) => {
            let sent = send_signal(&handle, signal.as_c_int());
            end_with(sent)
        },
        Err(error) => Err(error),
    }
}

/// A process that took over the PID of the one that was meant does not pass the check without
/// which `verify_and_send_signal_at` may not send: it fails unless the status shows the start
/// time that was meant.
pub proof fn lemma_stale_process_is_spared(identity: ProcessIdentity, stat: Result<String, StatError>)
    requires
        !(stat is Ok && stat::parsed_start_time(stat->Ok_0@) == Some(identity.start_time as int)),
    ensures
        checked(identity, stat) is Err,
        stat is Ok && stat::parsed_start_time(stat->Ok_0@) is Some ==> checked(identity, stat)
            == Err::<(), ProcessSignalError>(ProcessSignalError::StaleIdentity),
{
}

} // verus!
