use async_xpty::{
    parse_pid, scope_at_spawn, settle, DropOrder, ErrorKind, ExitStatus, KillOrder, KillTreeScope,
    PtyError, PtyProcess, Signal, WaitFailure,
};

/// An error of a platform.
#[derive(Debug, Clone, Copy, PartialEq, Eq)]
struct Fault(&'static str);

/// A failed wait.
fn failed(code: Option<i32>) -> Result<ExitStatus, WaitFailure<Fault>> {
    Err(WaitFailure { error: Fault("wait"), code })
}

/// A wait that collected the status of an exit.
fn exited(code: i32) -> Result<ExitStatus, WaitFailure<Fault>> {
    Ok(ExitStatus::from_code(code))
}

const WAIT_FAULT: Result<ExitStatus, PtyError<Fault>> = Err(PtyError::Platform(Fault("wait")));
const REFUSED: Result<KillOrder, PtyError<Fault>> = Err(PtyError::AlreadyExited);

#[test]
fn parse_pid_requires_a_delimiter() {
    assert_eq!(parse_pid(b"PID=123", "PID="), None);
    assert_eq!(parse_pid(b"PID=123\r\n", "PID="), Some(123));
}

#[test]
fn parse_pid_passes_over_incomplete_records() {
    // The marker in the echoed command is followed by no digit.
    assert_eq!(parse_pid(b"echo PID=$!\r\nPID=42\r\n", "PID="), Some(42));
    assert_eq!(parse_pid(b"PID=99999999999\r\nPID=7 ", "PID="), Some(7));
    assert_eq!(parse_pid(b"PID=\r\n", "PID="), None);
    assert_eq!(parse_pid(b"PID=2147483648\r", "PID="), None);
    assert_eq!(parse_pid(b"", "PID="), None);
    assert_eq!(parse_pid(b"PI", "PID="), None);
    assert_eq!(parse_pid(b"PID=", "PID="), None);
}

#[test]
fn parse_pid_reads_numbers() {
    assert_eq!(parse_pid(b"PID=2147483647\r", "PID="), Some(i32::MAX));
    assert_eq!(parse_pid(b"PID=0000000000000000012x", "PID="), Some(12));
    assert_eq!(parse_pid(b"PID=0\n", "PID="), Some(0));
    assert_eq!(parse_pid(b"PID=-5\n", "PID="), None);
    assert_eq!(parse_pid("\u{b5}=31\n".as_bytes(), "\u{b5}="), Some(31));
}

#[test]
fn parse_pid_takes_the_first_record() {
    assert_eq!(parse_pid(b"PID=1\nPID=2\n", "PID="), Some(1));
    assert_eq!(parse_pid(b"ESCAPED_PID=31\r\n", "PID="), Some(31));
    assert_eq!(parse_pid(b"112 ", "1"), Some(12));
}

#[test]
fn report_is_stable_under_more_output() {
    let output = b"$ PID=12\r\nPID=34\r\n";
    let mut reported = None;
    for end in 0..=output.len() {
        let pid = parse_pid(&output[..end], "PID=");
        if reported.is_some() {
            assert_eq!(pid, reported);
        }
        reported = pid;
    }
    assert_eq!(reported, Some(12));
}

#[test]
fn written_pids_are_reported() {
    for pid in [0, 7, 10, 99, 100, 4242, 65536, i32::MAX] {
        let output = format!("$ PID={}\r\n$ ", pid);
        assert_eq!(parse_pid(output.as_bytes(), "PID="), Some(pid));
    }
}

fn unix() -> PtyProcess {
    PtyProcess::spawned(4242, KillTreeScope::ProcessGroup, 5)
}

#[test]
fn kill_tree_after_wait_is_rejected() {
    let mut process = unix();
    let status = process.wait(exited(0));
    assert_eq!(status, Ok(ExitStatus::from_code(0)));

    let error = process
        .kill_tree::<Fault>()
        .expect_err("kill_tree after wait must fail");
    assert_eq!(error.kind(), ErrorKind::InvalidInput);
    assert_eq!(process.kill(), REFUSED);
}

#[test]
fn missing_child_counts_as_observed_exit() {
    let mut process = unix();
    assert_eq!(process.wait(failed(Some(10))), WAIT_FAULT);
    assert_eq!(process.kill(), REFUSED);
    assert_eq!(process.kill_tree(), REFUSED);
    // A later failure does not take the observation back.
    assert_eq!(process.wait(failed(Some(4))), WAIT_FAULT);
    assert_eq!(process.kill(), REFUSED);
}

#[test]
fn failed_wait_leaves_the_process_killable() {
    let mut process = unix();
    assert_eq!(process.wait(failed(Some(4))), WAIT_FAULT);
    assert_eq!(process.wait(failed(None)), WAIT_FAULT);
    assert!(process.kill::<Fault>().is_ok());
    assert!(process.kill_tree::<Fault>().is_ok());

    // The Unix code means nothing to Windows.
    let mut process = PtyProcess::spawned(8, KillTreeScope::DirectProcess, 1);
    assert_eq!(process.wait(failed(Some(10))), WAIT_FAULT);
    assert!(process.kill::<Fault>().is_ok());
}

#[test]
fn kill_orders_on_unix() {
    let process = unix();
    assert_eq!(process.pid(), 4242);
    assert_eq!(process.kill_tree_scope(), KillTreeScope::ProcessGroup);
    assert_eq!(
        process.kill::<Fault>(),
        Ok(KillOrder::SignalProcess { pid: 4242, signal: Signal::Kill })
    );
    assert_eq!(
        process.kill_tree::<Fault>(),
        Ok(KillOrder::SignalGroup { group: 4242, signal: Signal::Kill })
    );
    assert_eq!(process.on_drop(), DropOrder::Leave);
}

#[test]
fn kill_tree_after_wait_still_ends_the_job() {
    let mut process = PtyProcess::spawned(77, KillTreeScope::WholeTree, 1);
    assert_eq!(process.kill::<Fault>(), Ok(KillOrder::TerminateProcess { pid: 77 }));
    assert_eq!(process.kill_tree::<Fault>(), Ok(KillOrder::TerminateJob));
    assert!(process.wait(exited(1)).is_ok());
    assert_eq!(process.kill(), REFUSED);
    assert_eq!(process.kill_tree::<Fault>(), Ok(KillOrder::TerminateJob));
    assert_eq!(process.on_drop(), DropOrder::CloseJob);
}

#[test]
fn direct_process_is_killed_alone() {
    let mut process = PtyProcess::spawned(78, KillTreeScope::DirectProcess, 1);
    assert_eq!(process.kill_tree::<Fault>(), Ok(KillOrder::TerminateProcess { pid: 78 }));
    assert_eq!(process.kill_tree::<Fault>(), process.kill::<Fault>());
    assert!(process.wait(exited(1)).is_ok());
    assert_eq!(process.kill_tree(), REFUSED);
    assert_eq!(process.on_drop(), DropOrder::Leave);
}

#[test]
fn answers_of_the_platform_are_settled() {
    assert_eq!(settle::<Fault>(Ok(())), Ok(()));
    let error = PtyError::Platform(Fault("denied"));
    assert_eq!(settle(Err(Fault("denied"))), Err(error));
    assert_eq!(error.kind(), ErrorKind::Platform);
}

#[test]
fn errors_of_the_platform_are_handed_on_whole() {
    let error = std::io::Error::new(std::io::ErrorKind::TimedOut, "no answer");
    match settle(Err(error)) {
        Err(PtyError::Platform(error)) => {
            assert_eq!(error.kind(), std::io::ErrorKind::TimedOut);
            assert_eq!(error.to_string(), "no answer");
        }
        _ => panic!("the error must come back"),
    }
    let error = std::io::Error::new(std::io::ErrorKind::Interrupted, "cancelled");
    match unix().wait(Err(WaitFailure { error, code: None })) {
        Err(PtyError::Platform(error)) => {
            assert_eq!(error.kind(), std::io::ErrorKind::Interrupted);
            assert_eq!(error.to_string(), "cancelled");
        }
        _ => panic!("the error must come back"),
    }
}

#[test]
fn scopes_at_spawn() {
    assert_eq!(scope_at_spawn(true, false), KillTreeScope::ProcessGroup);
    assert_eq!(scope_at_spawn(true, true), KillTreeScope::ProcessGroup);
    assert_eq!(scope_at_spawn(false, true), KillTreeScope::WholeTree);
    assert_eq!(scope_at_spawn(false, false), KillTreeScope::DirectProcess);
}
