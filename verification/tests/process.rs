use std::cell::{Cell, RefCell};
use std::collections::HashMap;
use std::rc::Rc;

use tuxctl::linux::process::{
    ProcessIdentity, ProcessInfo, ProcessSignal, ProcessSignalError, ProcessSnapshot,
    ProcessSummary,
};
use tuxctl::linux::sampler::{cpu_share, CpuShare, ProcessSampler};
use tuxctl::linux::signal::{
    interpret_error, map_signal_error, validate_identity, verify_and_send_signal_at, OsError,
    StatError,
};
use tuxctl::linux::stat::{
    command_from, page_size_of, parse_command_line, parse_process_stat, parse_system_cpu,
    process_state, read_process_start_time,
};
use tuxctl::number::Number;

fn stat_line(name: &str) -> String {
    let fields = [
        "S", "7", "0", "0", "0", "0", "0", "0", "0", "0", "0", "120", "30", "0", "0", "0", "0",
        "0", "0", "900", "0", "25",
    ];
    format!("42 ({name}) {}", fields.join(" "))
}

fn process_stat(pid: u32, name: &str, start_time: u64) -> String {
    format!(
        "{pid} ({name}) S 1 {pid} {pid} 0 -1 4194304 100 0 0 0 10 20 0 0 20 0 1 0 {start_time} 1000 200"
    )
}

/// A process directory in memory: the status and the arguments of each process.
#[derive(Default)]
struct Proc {
    entries: RefCell<HashMap<String, (String, Option<Vec<u8>>)>>,
    reads: Cell<usize>,
}

impl Proc {
    fn write_process_stat(&self, pid: u32, name: &str, start_time: u64) {
        let mut entries = self.entries.borrow_mut();
        let entry = entries.entry(pid.to_string()).or_default();
        entry.0 = process_stat(pid, name, start_time);
    }

    fn write_cmdline(&self, pid: u32, cmdline: &[u8]) {
        let mut entries = self.entries.borrow_mut();
        entries.get_mut(&pid.to_string()).unwrap().1 = Some(cmdline.to_vec());
    }

    fn remove(&self, pid: u32) {
        self.entries.borrow_mut().remove(&pid.to_string());
    }

    fn names(&self) -> Vec<String> {
        let mut names: Vec<String> = self.entries.borrow().keys().cloned().collect();
        names.sort();
        names.push("meminfo".into());
        names
    }

    fn read_stat(&self, name: &str) -> Option<String> {
        self.entries.borrow().get(name).map(|entry| entry.0.clone())
    }

    fn read_command(&self, name: &str) -> Option<String> {
        self.reads.set(self.reads.get() + 1);
        let cmdline = self.entries.borrow().get(name)?.1.clone();
        command_from(cmdline, None)
    }

    /// PID and command of every process, and its share of the processor time.
    fn collect(
        &self,
        sampler: &mut ProcessSampler,
        system_stat: Option<&str>,
    ) -> Vec<(u32, Option<String>, Option<CpuShare>)> {
        sampler
            .collect_at(
                system_stat.map(str::to_owned),
                &self.names(),
                4096,
                |name: &str| self.read_stat(name),
                |name: &str| self.read_command(name),
            )
            .into_iter()
            .map(|sample| (sample.process.pid, sample.process.command, sample.cpu))
            .collect()
    }
}

fn collected_command(sampler: &mut ProcessSampler, proc: &Proc, pid: u32) -> Option<String> {
    proc.collect(sampler, None)
        .into_iter()
        .find(|process| process.0 == pid)
        .expect("process collected")
        .1
}

#[test]
fn command_line_is_read_once_per_process_identity() {
    let proc = Proc::default();
    proc.write_process_stat(10, "server", 500);
    proc.write_cmdline(10, b"/usr/bin/server\0--flag\0");
    let mut sampler = ProcessSampler::default();

    assert_eq!(
        collected_command(&mut sampler, &proc, 10).as_deref(),
        Some("/usr/bin/server --flag")
    );
    proc.write_cmdline(10, b"rewritten\0");
    assert_eq!(
        collected_command(&mut sampler, &proc, 10).as_deref(),
        Some("/usr/bin/server --flag"),
        "an unchanged identity must reuse the cached command"
    );
    assert_eq!(proc.reads.get(), 1);
}

#[test]
fn only_entries_named_by_a_pid_are_read() {
    let names = ["10", "meminfo", "+7", "4294967296", "self"].map(str::to_owned);
    let read = RefCell::new(Vec::new());
    let samples = ProcessSampler::default().collect_at(
        None,
        &names.to_vec(),
        4096,
        |name: &str| {
            read.borrow_mut().push(name.to_owned());
            None
        },
        |_: &str| panic!("no command is read without a status"),
    );

    assert!(samples.is_empty());
    assert_eq!(*read.borrow(), ["10", "+7"]);
}

#[test]
fn reused_pid_with_new_start_time_rereads_the_command() {
    let proc = Proc::default();
    proc.write_process_stat(10, "server", 500);
    proc.write_cmdline(10, b"old\0");
    let mut sampler = ProcessSampler::default();
    assert_eq!(
        collected_command(&mut sampler, &proc, 10).as_deref(),
        Some("old")
    );

    proc.write_process_stat(10, "server", 501);
    proc.write_cmdline(10, b"new\0");

    assert_eq!(
        collected_command(&mut sampler, &proc, 10).as_deref(),
        Some("new")
    );
}

#[test]
fn exec_detected_by_comm_change_rereads_the_command() {
    let proc = Proc::default();
    proc.write_process_stat(10, "bash", 500);
    proc.write_cmdline(10, b"bash\0");
    let mut sampler = ProcessSampler::default();
    assert_eq!(
        collected_command(&mut sampler, &proc, 10).as_deref(),
        Some("bash")
    );

    proc.write_process_stat(10, "ls", 500);
    proc.write_cmdline(10, b"ls\0-l\0");

    assert_eq!(
        collected_command(&mut sampler, &proc, 10).as_deref(),
        Some("ls -l")
    );
}

#[test]
fn exited_processes_are_evicted_from_the_command_cache() {
    let proc = Proc::default();
    proc.write_process_stat(10, "short", 500);
    proc.write_process_stat(11, "long", 600);
    let mut sampler = ProcessSampler::default();
    proc.collect(&mut sampler, None);
    assert_eq!(proc.reads.get(), 2);

    proc.remove(10);
    proc.collect(&mut sampler, None);
    assert_eq!(proc.reads.get(), 2, "the process that stayed is still known");

    proc.write_process_stat(10, "short", 500);
    proc.collect(&mut sampler, None);
    assert_eq!(proc.reads.get(), 3, "the process that left was forgotten");
}

#[test]
fn kernel_threads_without_a_command_are_not_retried() {
    let proc = Proc::default();
    proc.write_process_stat(2, "kthreadd", 3);
    proc.write_cmdline(2, b"");
    let mut sampler = ProcessSampler::default();
    assert_eq!(collected_command(&mut sampler, &proc, 2), None);

    proc.write_cmdline(2, b"late\0");

    assert_eq!(
        collected_command(&mut sampler, &proc, 2),
        None,
        "a missing command is cached for the identity instead of re-read every sample"
    );
}

#[test]
fn processor_time_needs_two_listings_of_the_same_process() {
    let proc = Proc::default();
    proc.write_process_stat(10, "server", 500);
    let mut sampler = ProcessSampler::default();

    let first = proc.collect(&mut sampler, Some("cpu 100 0 0 0\ncpu0 1\ncpu1 1\n"));
    assert_eq!(first, [(10, None, None)]);

    let second = proc.collect(&mut sampler, Some("cpu 300 0 0 0\ncpu0 1\ncpu1 1\n"));
    assert_eq!(
        second[0].2,
        Some(CpuShare {
            process: 0,
            system: 200,
            cpu_count: 2,
        })
    );

    proc.write_process_stat(10, "server", 501);
    let reused = proc.collect(&mut sampler, Some("cpu 500 0 0 0\n"));
    assert_eq!(reused[0].2, None, "a reused PID starts anew");

    let unread = proc.collect(&mut sampler, None);
    assert_eq!(unread[0].2, None);
    let resumed = proc.collect(&mut sampler, Some("cpu 600 0 0 0\n"));
    assert_eq!(
        resumed[0].2,
        Some(CpuShare {
            process: 0,
            system: 100,
            cpu_count: 1,
        }),
        "ticks are kept over a listing without those of the system"
    );

    let backwards = proc.collect(&mut sampler, Some("cpu 10 0 0 0\n"));
    assert_eq!(backwards[0].2, None);
}

#[test]
fn entries_that_are_no_processes_are_left_out() {
    let mut sampler = ProcessSampler::default();
    let names: Vec<String> = ["12", "self", "13", "14"]
        .into_iter()
        .map(str::to_owned)
        .collect();
    let samples = sampler.collect_at(
        None,
        &names,
        4096,
        |name: &str| match name {
            "12" => Some(process_stat(99, "other", 1)),
            "13" => Some(process_stat(13, "kept", 1)),
            "14" => Some("garbage".to_owned()),
            other => panic!("{other} is no PID"),
        },
        |_: &str| None,
    );

    assert_eq!(samples.len(), 1);
    assert_eq!(samples[0].process.name, "kept");
    let info = samples[0].clone().into_info(Some(Number { bits: 7 }));
    assert_eq!(
        (info.pid, info.state.as_str(), info.state_code),
        (13, "S (sleeping)", 'S')
    );
    assert_eq!(info.cpu_percent, Some(Number { bits: 7 }));
    assert_eq!(info.memory_bytes, 200 * 4096);
}

#[test]
fn parses_process_stat_with_spaces_and_parentheses_in_name() {
    let process = parse_process_stat(&stat_line("worker (pool)"), 4096).unwrap();

    assert_eq!(process.pid, 42);
    assert_eq!(process.name, "worker (pool)");
    assert_eq!(process.state, 'S');
    assert_eq!(process.parent_pid, 7);
    assert_eq!(process.cpu_ticks, 150);
    assert_eq!(process.start_time, 900);
    assert_eq!(process.memory_bytes, 25 * 4096);
}

#[test]
fn status_lines_that_describe_no_process_are_refused() {
    assert!(parse_process_stat("", 4096).is_none());
    assert!(parse_process_stat("42 )(", 4096).is_none());
    assert!(parse_process_stat("x (a) S 1", 4096).is_none());
    let short = stat_line("a");
    assert!(parse_process_stat(&short[..short.len() - 3], 4096).is_none());
    assert!(parse_process_stat(&short.replace("120", "18446744073709551615"), 4096).is_none());
    assert!(parse_process_stat(&short.replace(" 25", " many"), 4096).is_none());
    let large = parse_process_stat(&short, u64::MAX).unwrap();
    assert_eq!(large.memory_bytes, u64::MAX);
}

/// The percentage that a share stands for.
fn percent(share: CpuShare) -> f64 {
    (share.process as f64 / share.system as f64) * share.cpu_count as f64 * 100.0
}

#[test]
fn calculates_process_cpu_from_two_intervals() {
    assert_eq!(cpu_share(100, 125, 200, 4).map(percent), Some(50.0));
    assert_eq!(cpu_share(100, 125, 0, 4).map(percent), None);
    assert_eq!(cpu_share(125, 100, 200, 4).map(percent), None);
}

#[test]
fn derives_process_summary_from_collected_state_codes() {
    let process = |pid: u32, state_code| ProcessInfo {
        pid,
        name: format!("process-{pid}"),
        cpu_percent: None,
        memory_bytes: 0,
        command: None,
        state: process_state(state_code).into(),
        parent_pid: 1,
        state_code,
        start_time: u64::from(pid),
    };
    let snapshot = ProcessSnapshot {
        processes: vec![
            process(1, 'R'),
            process(2, 'S'),
            process(3, 'R'),
            process(4, 'Z'),
        ],
        error: None,
    };

    assert_eq!(
        snapshot.summary(),
        ProcessSummary {
            total: 4,
            running: 2,
            zombies: 1,
        }
    );
}

#[test]
fn states_are_put_in_words() {
    let words: Vec<&str> = "RSDZTtIXxQ".chars().map(process_state).collect();

    assert_eq!(
        words,
        [
            "R (running)",
            "S (sleeping)",
            "D (disk sleep)",
            "Z (zombie)",
            "T (stopped)",
            "T (stopped)",
            "I (idle)",
            "X (dead)",
            "X (dead)",
            "? (unknown)",
        ]
    );
}

#[test]
fn parses_system_cpu_total_and_count() {
    let contents = "cpu  10 20 30 40 50 60 70 80 90 100\ncpu0 1 2\ncpu1 3 4\nintr 0\n";

    assert_eq!(parse_system_cpu(contents), Some((360, 2)));
}

#[test]
fn system_ticks_need_a_first_line_for_all_processors() {
    assert_eq!(parse_system_cpu(""), None);
    assert_eq!(parse_system_cpu("cpu0 1 2\ncpu 1 2\n"), None);
    assert_eq!(parse_system_cpu("cpu 1 x\n"), None);
    assert_eq!(parse_system_cpu("cpu 18446744073709551615 1\n"), None);
    assert_eq!(parse_system_cpu("cpu\n"), Some((0, 1)));
    assert_eq!(parse_system_cpu("cpu 4\ncpu 7\ncpux 1\n"), Some((4, 1)));
}

#[test]
fn parses_nul_separated_command_line() {
    assert_eq!(parse_command_line(&b"".to_vec()), None);
    assert_eq!(parse_command_line(&b"\0".to_vec()), None);
    assert_eq!(
        parse_command_line(&b"/usr/bin/demo\0--flag\0".to_vec()),
        Some("/usr/bin/demo --flag".into())
    );
}

#[test]
fn command_lines_are_decoded_and_fall_back_to_the_program() {
    assert_eq!(
        parse_command_line(&"caf\u{e9}\0\0\u{4e16}".as_bytes().to_vec()),
        Some("caf\u{e9} \u{4e16}".into())
    );
    assert_eq!(
        parse_command_line(&b"a\xffb\0".to_vec()),
        Some("a\u{fffd}b".into())
    );
    assert_eq!(
        command_from(Some(vec![0]), Some("/bin/sh".into())),
        Some("/bin/sh".into())
    );
    assert_eq!(
        command_from(None, Some("/bin/sh".into())),
        Some("/bin/sh".into())
    );
    assert_eq!(
        command_from(Some(b"x\0".to_vec()), Some("/bin/sh".into())),
        Some("x".into())
    );
    assert_eq!(command_from(None, None), None);
}

#[test]
fn a_page_has_a_size_whatever_is_reported() {
    assert_eq!(page_size_of(16_384), 16_384);
    assert_eq!(page_size_of(0), 4096);
    assert_eq!(page_size_of(-1), 4096);
}

#[test]
fn parses_process_start_time_from_stat() {
    let stat =
        "123 (my process) S 1 123 123 0 -1 4194304 100 0 0 0 10 20 0 0 20 0 1 0 777 1000 200";
    assert_eq!(read_process_start_time(stat), Some(777));
}

#[test]
fn start_times_that_are_not_there_are_not_found() {
    assert_eq!(read_process_start_time("123"), None);
    assert_eq!(read_process_start_time("1 (a) S 1"), None);
    assert_eq!(
        read_process_start_time(&process_stat(1, "a", 5).replace(" 5 1000", " x 1000")),
        None
    );
}

#[test]
fn parses_process_stat_with_negative_resident_pages() {
    let stat = "123 (test) S 1 123 123 0 -1 4194304 100 0 0 0 10 20 0 0 20 0 1 0 500 1000 -5";
    let process = parse_process_stat(stat, 4096).expect("process stat should parse successfully");
    assert_eq!(process.pid, 123);
    assert_eq!(process.memory_bytes, 0);
}

const IDENTITY: ProcessIdentity = ProcessIdentity {
    pid: 123,
    start_time: 500,
};

fn os_error(code: i32) -> OsError {
    OsError {
        code: Some(code),
        message: format!("error {code}"),
    }
}

fn not_found() -> StatError {
    StatError {
        not_found: true,
        message: "no such file".into(),
    }
}

#[test]
fn signal_verification_succeeds_with_matching_identity() {
    let mut opened_pid = None;
    let mut called_sig = None;
    let res = verify_and_send_signal_at(
        IDENTITY,
        ProcessSignal::Term,
        |pid: i32| {
            opened_pid = Some(pid);
            Ok(pid)
        },
        |pid: u32| Ok(process_stat(pid, "test", 500)),
        |pidfd: &i32, sig: i32| {
            called_sig = Some((*pidfd, sig));
            Ok(())
        },
    );

    assert_eq!(res, Ok(()));
    assert_eq!(opened_pid, Some(123));
    assert_eq!(called_sig, Some((123, libc::SIGTERM)));
}

#[test]
fn pidfd_is_opened_before_identity_validation_for_both_signals() {
    for (signal, expected_signal) in [
        (ProcessSignal::Term, libc::SIGTERM),
        (ProcessSignal::Kill, libc::SIGKILL),
    ] {
        let opened = Cell::new(false);
        let mut sent_signal = None;

        let result = verify_and_send_signal_at(
            IDENTITY,
            signal,
            |pid: i32| {
                assert_eq!(pid, 123);
                opened.set(true);
                Ok(())
            },
            |pid: u32| {
                if opened.get() {
                    Ok(process_stat(pid, "test", 500))
                } else {
                    Err(not_found())
                }
            },
            |_: &(), signal: i32| {
                sent_signal = Some(signal);
                Ok(())
            },
        );

        assert_eq!(result, Ok(()));
        assert_eq!(sent_signal, Some(expected_signal));
    }
}

#[test]
fn signal_verification_rejects_stale_identity_without_sending_signal() {
    let mut opened = false;
    let mut signal_called = false;
    let res = verify_and_send_signal_at(
        IDENTITY,
        ProcessSignal::Kill,
        |_: i32| {
            opened = true;
            Ok(())
        },
        |pid: u32| Ok(process_stat(pid, "new_proc", 999)),
        |_: &(), _: i32| {
            signal_called = true;
            Ok(())
        },
    );

    assert_eq!(res, Err(ProcessSignalError::StaleIdentity));
    assert!(opened);
    assert!(
        !signal_called,
        "Signal must NEVER be sent to a stale PID identity"
    );
}

#[test]
fn simulated_pid_reuse_after_pidfd_open_does_not_signal_replacement() {
    let current = Cell::new(("original", 500));
    let mut signal_called = false;

    let result = verify_and_send_signal_at(
        IDENTITY,
        ProcessSignal::Kill,
        |_: i32| {
            current.set(("replacement", 999));
            Ok(())
        },
        |pid: u32| Ok(process_stat(pid, current.get().0, current.get().1)),
        |_: &(), _: i32| {
            signal_called = true;
            Ok(())
        },
    );

    assert_eq!(result, Err(ProcessSignalError::StaleIdentity));
    assert!(!signal_called);
}

#[test]
fn signal_verification_reports_missing_process_without_sending_signal() {
    let mut opened = false;
    let mut signal_called = false;
    let res = verify_and_send_signal_at(
        ProcessIdentity {
            pid: 99999,
            start_time: 500,
        },
        ProcessSignal::Term,
        |_: i32| {
            opened = true;
            Ok(())
        },
        |_: u32| Err(not_found()),
        |_: &(), _: i32| {
            signal_called = true;
            Ok(())
        },
    );

    assert_eq!(res, Err(ProcessSignalError::ProcessNotFound));
    assert!(opened);
    assert!(!signal_called);
}

#[test]
fn process_missing_at_pidfd_open_fails_without_signaling() {
    let mut signal_called = false;

    let result = verify_and_send_signal_at(
        IDENTITY,
        ProcessSignal::Term,
        |_: i32| Err::<(), _>(os_error(libc::ESRCH)),
        |pid: u32| Ok(process_stat(pid, "test", 500)),
        |_: &(), _: i32| {
            signal_called = true;
            Ok(())
        },
    );

    assert_eq!(result, Err(ProcessSignalError::ProcessNotFound));
    assert!(!signal_called);
}

#[test]
fn signal_verification_handles_permission_denied() {
    let res = verify_and_send_signal_at(
        ProcessIdentity {
            pid: 1,
            start_time: 1,
        },
        ProcessSignal::Kill,
        |_: i32| Ok(()),
        |pid: u32| Ok(process_stat(pid, "systemd", 1)),
        |_: &(), _: i32| Err(os_error(libc::EPERM)),
    );

    assert_eq!(res, Err(ProcessSignalError::PermissionDenied));
}

#[test]
fn pidfd_send_esrch_is_safe_and_never_retries_by_pid() {
    let mut send_attempts = 0;

    let result = verify_and_send_signal_at(
        IDENTITY,
        ProcessSignal::Term,
        |_: i32| Ok(()),
        |pid: u32| Ok(process_stat(pid, "test", 500)),
        |_: &(), _: i32| {
            send_attempts += 1;
            Err(os_error(libc::ESRCH))
        },
    );

    assert_eq!(result, Err(ProcessSignalError::ProcessNotFound));
    assert_eq!(send_attempts, 1);
}

#[test]
fn unavailable_pidfd_syscalls_fail_closed() {
    let mut send_called = false;

    let open_result = verify_and_send_signal_at(
        IDENTITY,
        ProcessSignal::Term,
        |_: i32| Err::<(), _>(os_error(libc::ENOSYS)),
        |pid: u32| Ok(process_stat(pid, "test", 500)),
        |_: &(), _: i32| {
            send_called = true;
            Ok(())
        },
    );
    assert_eq!(open_result, Err(ProcessSignalError::Unsupported));
    assert!(!send_called);

    let send_result = verify_and_send_signal_at(
        IDENTITY,
        ProcessSignal::Kill,
        |_: i32| Ok(()),
        |pid: u32| Ok(process_stat(pid, "test", 500)),
        |_: &(), _: i32| Err(os_error(libc::ENOSYS)),
    );
    assert_eq!(send_result, Err(ProcessSignalError::Unsupported));
}

struct FakePidFd(Rc<Cell<usize>>);

impl Drop for FakePidFd {
    fn drop(&mut self) {
        self.0.set(self.0.get() + 1);
    }
}

#[test]
fn pidfd_handle_is_released_on_success_and_every_post_open_error() {
    let drops = Rc::new(Cell::new(0));

    assert_eq!(
        verify_and_send_signal_at(
            IDENTITY,
            ProcessSignal::Term,
            |_: i32| Ok(FakePidFd(Rc::clone(&drops))),
            |pid: u32| Ok(process_stat(pid, "test", 500)),
            |_: &FakePidFd, _: i32| Ok(()),
        ),
        Ok(())
    );
    assert_eq!(drops.get(), 1);

    assert_eq!(
        verify_and_send_signal_at(
            IDENTITY,
            ProcessSignal::Kill,
            |_: i32| Ok(FakePidFd(Rc::clone(&drops))),
            |pid: u32| Ok(process_stat(pid, "replacement", 999)),
            |_: &FakePidFd, _: i32| panic!("stale identity must not be signaled"),
        ),
        Err(ProcessSignalError::StaleIdentity)
    );
    assert_eq!(drops.get(), 2);

    assert_eq!(
        verify_and_send_signal_at(
            IDENTITY,
            ProcessSignal::Term,
            |_: i32| Ok(FakePidFd(Rc::clone(&drops))),
            |_: u32| Err(not_found()),
            |_: &FakePidFd, _: i32| panic!("missing process must not be signaled"),
        ),
        Err(ProcessSignalError::ProcessNotFound)
    );
    assert_eq!(drops.get(), 3);

    assert_eq!(
        verify_and_send_signal_at(
            IDENTITY,
            ProcessSignal::Kill,
            |_: i32| Ok(FakePidFd(Rc::clone(&drops))),
            |pid: u32| Ok(process_stat(pid, "test", 500)),
            |_: &FakePidFd, _: i32| Err(os_error(libc::EPERM)),
        ),
        Err(ProcessSignalError::PermissionDenied)
    );
    assert_eq!(drops.get(), 4);
}

#[test]
fn signal_verification_rejects_pid_zero() {
    let mut open_called = false;
    let mut signal_called = false;
    let res = verify_and_send_signal_at(
        ProcessIdentity {
            pid: 0,
            start_time: 0,
        },
        ProcessSignal::Term,
        |_: i32| {
            open_called = true;
            Ok(())
        },
        |pid: u32| Ok(process_stat(pid, "idle", 0)),
        |_: &(), _: i32| {
            signal_called = true;
            Ok(())
        },
    );

    assert_eq!(
        res,
        Err(ProcessSignalError::Failed("cannot signal PID 0".into()))
    );
    assert!(!open_called);
    assert!(!signal_called);
}

#[test]
fn pids_that_no_process_can_have_are_refused() {
    let res = verify_and_send_signal_at(
        ProcessIdentity {
            pid: 1 << 31,
            start_time: 0,
        },
        ProcessSignal::Kill,
        |_: i32| -> Result<(), OsError> { panic!("nothing can be opened") },
        |_: u32| Err(not_found()),
        |_: &(), _: i32| Ok(()),
    );

    assert_eq!(
        res,
        Err(ProcessSignalError::Failed("invalid PID 2147483648".into()))
    );
}

#[test]
fn unreadable_status_fails_with_its_message() {
    let denied = StatError {
        not_found: false,
        message: "permission denied".into(),
    };
    assert_eq!(
        validate_identity(IDENTITY, Err(denied)),
        Err(ProcessSignalError::Failed("permission denied".into()))
    );
    assert_eq!(
        validate_identity(IDENTITY, Ok("garbage".into())),
        Err(ProcessSignalError::ProcessNotFound)
    );
}

#[test]
fn errors_of_the_system_are_told_apart_by_their_numbers() {
    assert_eq!(
        map_signal_error(os_error(libc::EACCES)),
        ProcessSignalError::PermissionDenied
    );
    assert_eq!(
        map_signal_error(os_error(libc::ENOSYS)),
        ProcessSignalError::Unsupported
    );
    assert_eq!(
        map_signal_error(os_error(libc::EINVAL)),
        ProcessSignalError::Failed(format!("error {}", libc::EINVAL))
    );
    assert_eq!(
        interpret_error(os_error(89), 89),
        ProcessSignalError::Unsupported
    );
    assert_eq!(
        interpret_error(
            OsError {
                code: None,
                message: "odd".into()
            },
            38
        ),
        ProcessSignalError::Failed("odd".into())
    );
}

#[test]
fn signals_and_their_errors_are_put_in_words() {
    assert_eq!(ProcessSignal::Term.name(), "SIGTERM");
    assert_eq!(ProcessSignal::Kill.as_str(), "SIGKILL (9)");
    assert_eq!(ProcessSignal::Term.as_str(), "SIGTERM (15)");
    assert_eq!(ProcessSignal::Kill.as_c_int(), libc::SIGKILL);
    let texts: Vec<String> = [
        ProcessSignalError::ProcessNotFound,
        ProcessSignalError::StaleIdentity,
        ProcessSignalError::PermissionDenied,
        ProcessSignalError::Unsupported,
        ProcessSignalError::Failed("as it is".into()),
    ]
    .iter()
    .map(ProcessSignalError::message)
    .collect();
    assert_eq!(
        texts,
        [
            "process already exited",
            "process identity changed (PID reused)",
            "permission denied",
            "pidfd signaling is not supported",
            "as it is",
        ]
    );
}

#[test]
fn an_unreadable_process_directory_is_told_and_forgets_nothing() {
    let mut sampler = ProcessSampler::default();
    let reads = Cell::new(0);
    let listing = |sampler: &mut ProcessSampler, names: Result<Vec<String>, String>| {
        sampler.collect(
            Some("cpu 100 0 0 0\ncpu0 100 0 0 0\n".into()),
            names,
            4096,
            |_: &str| Some(process_stat(10, "server", 500)),
            |_: &str| {
                reads.set(reads.get() + 1);
                Some("/usr/bin/server".into())
            },
        )
    };

    let first = listing(&mut sampler, Ok(vec!["10".into()]));
    assert_eq!((first.samples.len(), first.error), (1, None));
    let failed = listing(&mut sampler, Err("no such directory".into()));
    assert!(failed.samples.is_empty());
    assert_eq!(failed.error.as_deref(), Some("no such directory"));
    let again = listing(&mut sampler, Ok(vec!["10".into(), "self".into()]));
    assert_eq!(again.samples.len(), 1);
    assert_eq!(reads.get(), 1, "the command is still known");
}

#[test]
fn process_disappearing_after_pidfd_open_does_not_send_signal() {
    let alive = Cell::new(true);
    let mut signal_called = false;

    let result = verify_and_send_signal_at(
        IDENTITY,
        ProcessSignal::Term,
        |_: i32| {
            alive.set(false);
            Ok(())
        },
        |pid: u32| {
            if alive.get() {
                Ok(process_stat(pid, "server", 500))
            } else {
                Err(StatError {
                    not_found: true,
                    message: "no such file".into(),
                })
            }
        },
        |_: &(), _: i32| {
            signal_called = true;
            Ok(())
        },
    );

    assert_eq!(result, Err(ProcessSignalError::ProcessNotFound));
    assert!(!signal_called);
}
