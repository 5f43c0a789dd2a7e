use async_xpty::{
    ExitStatus, KillTreeScope, PtyProcess, PtySize, ReadOrder, ResizeOrder, Signal, WriteOrder,
};

#[test]
fn default_size() {
    assert_eq!(PtySize::default(), PtySize { cols: 80, rows: 24 });
}

#[test]
fn exit_code_status() {
    let status = ExitStatus::from_code(3);
    assert_eq!(status.code(), Some(3));
    assert_eq!(status.signal(), None);
    assert!(!status.success());
    assert!(ExitStatus::from_code(0).success());
    assert_eq!(status.clone(), status);
}

#[test]
fn signal_status() {
    let status = ExitStatus::from_signal(9);
    assert_eq!(status.code(), None);
    assert_eq!(status.signal(), Some(9));
    assert!(!status.success());
    assert!(!ExitStatus::from_signal(0).success());
}

#[test]
fn status_in_words() {
    assert_eq!(ExitStatus::from_code(0).to_string(), "exit code 0");
    assert_eq!(ExitStatus::from_code(-1).to_string(), "exit code -1");
    assert_eq!(ExitStatus::from_code(1073).to_string(), "exit code 1073");
    assert_eq!(ExitStatus::from_code(i32::MIN).to_string(), "exit code -2147483648");
    assert_eq!(ExitStatus::from_code(i32::MAX).to_string(), "exit code 2147483647");
    assert_eq!(ExitStatus::from_signal(15).to_string(), "signal 15");
    assert_eq!(ExitStatus::from_report(None, None).to_string(), "unknown exit");
    assert_eq!(ExitStatus::from_report(Some(2), Some(9)).to_string(), "exit code 2");
}

#[test]
fn texts_tell_statuses_apart() {
    let statuses = [
        ExitStatus::from_code(0),
        ExitStatus::from_code(9),
        ExitStatus::from_code(-9),
        ExitStatus::from_code(90),
        ExitStatus::from_signal(0),
        ExitStatus::from_signal(9),
        ExitStatus::from_report(None, None),
    ];
    for (i, a) in statuses.iter().enumerate() {
        for (j, b) in statuses.iter().enumerate() {
            assert_eq!(a.to_string() == b.to_string(), i == j);
        }
    }
}

#[test]
fn reported_status() {
    assert_eq!(ExitStatus::from_report(Some(2), None), ExitStatus::from_code(2));
    assert_eq!(ExitStatus::from_report(None, Some(2)), ExitStatus::from_signal(2));
    assert_ne!(ExitStatus::from_code(2), ExitStatus::from_signal(2));
    assert_ne!(ExitStatus::from_code(0), ExitStatus::from_code(256));
    assert_eq!(ExitStatus::from_code(137).signal(), None);
    assert_eq!(ExitStatus::from_signal(9).code(), None);
    assert!(!ExitStatus::from_report(None, None).success());
}

#[test]
fn resize_orders() {
    let size = PtySize { cols: 132, rows: 50 };
    let mut process = PtyProcess::spawned(31, KillTreeScope::ProcessGroup, 6);
    let order = ResizeOrder::Terminal {
        master: 6,
        size,
        group: 31,
        signal: Signal::WindowChange,
    };
    assert_eq!(process.resize(size), order);
    assert!(process.wait::<()>(Ok(ExitStatus::from_signal(9))).is_ok());
    assert_eq!(process.resize(size), order);
    for scope in [KillTreeScope::WholeTree, KillTreeScope::DirectProcess] {
        assert_eq!(
            PtyProcess::spawned(31, scope, 6).resize(size),
            ResizeOrder::PseudoConsole { master: 6, size }
        );
    }
}

#[test]
fn halves_share_the_master() {
    let process = PtyProcess::spawned(31, KillTreeScope::ProcessGroup, 6);
    let mut first = process.reader();
    let mut second = process.reader();
    let mut writer = process.writer();
    assert_eq!(first.poll_read(512), ReadOrder { master: 6, room: 512 });
    assert_eq!(second.poll_read(1), ReadOrder { master: 6, room: 1 });
    assert_eq!(writer.poll_write(b"exit\r"), WriteOrder { master: 6, bytes: b"exit\r" });
}

#[test]
fn flush_and_shutdown_are_ready_at_once() {
    let mut writer = PtyProcess::spawned(31, KillTreeScope::ProcessGroup, 6).writer();
    assert_eq!(writer.poll_flush::<()>(), Ok(()));
    assert_eq!(writer.poll_shutdown::<()>(), Ok(()));
    assert_eq!(writer.poll_write(b"x"), WriteOrder { master: 6, bytes: b"x" });
}
