//! A process attached to a PTY master, and its two halves.

use vstd::prelude::*;

use crate::exit_status::ExitStatus;
use crate::order::{
    DropOrder, KillOrder, PtyError, ReadOrder, ResizeOrder, Signal, WaitFailure, WriteOrder,
};
use crate::scope::{KillTreeScope, OsProcess};
use crate::size::PtySize;

verus! {

/// The error code with which a Unix wait says that there is no such child: it
/// is gone, and its status has been collected elsewhere.
pub const ECHILD: i32 = 10;

/// What a wait told of the child: its status, or the code with which the
/// operating system failed, where there is one.
pub open spec fn told<E>(
    report: Result<ExitStatus, WaitFailure<E>>,
) -> Result<ExitStatus, Option<i32>> {
    match report {
        Ok(status) => Ok(status),
        Err(failure) => Err(failure.code),
    }
}

/// Whether a wait that told `report` has observed the end of the process.
/// A status says so, and so does, on Unix, that there is no such child.
pub open spec fn observes_exit(
    scope: KillTreeScope,
    report: Result<ExitStatus, Option<i32>>,
) -> bool {
    match report {
        Ok(_) => true,
        Err(code) => scope == KillTreeScope::ProcessGroup && code == Some(ECHILD),
    }
}

/// The answer to a request: the order to carry out, or, without one, that the
/// process has already exited.
pub open spec fn answer<E>(order: Option<KillOrder>) -> Result<KillOrder, PtyError<E>> {
    match order {
        Some(order) => Ok(order),
        None => Err(PtyError::AlreadyExited),
    }
}

/// What decides how a process is driven.
pub struct ProcessState {
    /// The OS process ID of the child.
    pub pid: u32,
    /// The processes that ending the workload can reach. The process group
    /// belongs to Unix, the other two scopes to Windows.
    pub scope: KillTreeScope,
    /// The PTY master, under the number by which the platform knows it.
    pub master: u64,
    /// Whether a wait has observed the end of the child.
    pub exit_observed: bool,
}

impl ProcessState {
    /// The state after a wait that told `report`.
    pub open spec fn after_wait(self, report: Result<ExitStatus, Option<i32>>) -> ProcessState {
        ProcessState {
            exit_observed: self.exit_observed || observes_exit(self.scope, report),
            ..self
        }
    }

    /// The state after waits that told `reports`, in turn.
    pub open spec fn after_waits(
        self,
        reports: Seq<Result<ExitStatus, Option<i32>>>,
    ) -> ProcessState
        decreases reports.len(),
    {
        if reports.len() == 0 {
            self
        } else {
            self.after_waits(reports.drop_last()).after_wait(reports.last())
        }
    }

    /// What a request to end the child asks for; `None` where it is refused.
    pub open spec fn kill_order(self) -> Option<KillOrder> {
        if self.exit_observed {
            None
        } else if self.scope == KillTreeScope::ProcessGroup {
            Some(KillOrder::SignalProcess { pid: self.pid, signal: Signal::Kill })
        } else {
            Some(KillOrder::TerminateProcess { pid: self.pid })
        }
    }

    /// What a request to end the whole workload asks for; `None` where it is
    /// refused.
    pub open spec fn kill_tree_order(self) -> Option<KillOrder> {
        match self.scope {
            KillTreeScope::WholeTree => Some(KillOrder::TerminateJob),
            KillTreeScope::ProcessGroup => if self.exit_observed {
                None
            } else {
                Some(KillOrder::SignalGroup { group: self.pid, signal: Signal::Kill })
            },
            KillTreeScope::DirectProcess => self.kill_order(),
        }
    }

    /// What dropping the process does to its workload.
    pub open spec fn drop_order(self) -> DropOrder {
        if self.scope == KillTreeScope::WholeTree {
            DropOrder::CloseJob
        } else {
            DropOrder::Leave
        }
    }

    /// What a change to `size` asks for.
    pub open spec fn resize_order(self, size: PtySize) -> ResizeOrder {
        if self.scope == KillTreeScope::ProcessGroup {
            ResizeOrder::Terminal {
                master: self.master,
                size,
                group: self.pid,
                signal: Signal::WindowChange,
            }
        } else {
            ResizeOrder::PseudoConsole { master: self.master, size }
        }
    }
}

/// A running process attached to a PTY master.
///
/// It hands out reader and writer halves, and decides what resizing, waiting
/// and killing ask of the operating system. Platform code carries the orders
/// out and reports back.
///
/// [`Self::kill_tree_scope`] reports whether [`Self::kill_tree`] reaches a
/// Windows job's whole tree, the child's Unix process group, or only a direct
/// Windows child. Dropping a process tears down the whole tree only for
/// [`KillTreeScope::WholeTree`]; it does not signal the other scopes.
///
/// [`Self::kill`] is refused once this instance's [`Self::wait`] has observed
/// the exit, and so is [`Self::kill_tree`] unless it targets an owned job
/// handle. This catches the local wait-then-signal mistake; it is not a safety
/// mechanism against PID reuse.
pub struct PtyProcess {
    pid: u32,
    scope: KillTreeScope,
    master: u64,
    exit_observed: bool,
}

impl View for PtyProcess {
    type V = ProcessState;

    closed spec fn view(&self) -> ProcessState {
        ProcessState {
            pid: self.pid,
            scope: self.scope,
            master: self.master,
            exit_observed: self.exit_observed,
        }
    }
}

impl PtyProcess {
    /// The process that the platform has just spawned.
    pub fn spawned(pid: u32, scope: KillTreeScope, master: u64) -> (process: Self)
        ensures
            process@ == (ProcessState { pid, scope, master, exit_observed: false }),
    {
        Self { pid, scope, master, exit_observed: false }
    }

    /// Returns a half that reads from the PTY master.
    ///
    /// Multiple calls return independent handles of the same master.
    pub fn reader(&self) -> (reader: PtyReader)
        ensures
            reader@ == self@.master,
    {
        PtyReader { master: self.master }
    }

    /// Returns a half that writes to the PTY master (i.e. the child's stdin).
    pub fn writer(&self) -> (writer: PtyWriter)
        ensures
            writer@ == self@.master,
    {
        PtyWriter { master: self.master }
    }

    /// Resize the PTY window.
    ///
    /// On Unix the window size is set and the process group gets `SIGWINCH`,
    /// so the running program can adapt its layout. On Windows the
    /// pseudoconsole is resized.
    pub fn resize(&self, size: PtySize) -> (order: ResizeOrder)
        ensures
            self@.scope == KillTreeScope::ProcessGroup ==> order == (ResizeOrder::Terminal {
                master: self@.master,
                size: PtySize { cols: size.cols, rows: size.rows },
                group: self@.pid,
                signal: Signal::WindowChange,
            }),
            self@.scope != KillTreeScope::ProcessGroup ==> order == (ResizeOrder::PseudoConsole {
                master: self@.master,
                size: PtySize { cols: size.cols, rows: size.rows },
            }),
            order == self@.resize_order(size),
    {
        match self.scope {
            KillTreeScope::ProcessGroup => ResizeOrder::Terminal {
                master: self.master,
                size,
                group: self.pid,
                signal: Signal::WindowChange,
            },
            _ => ResizeOrder::PseudoConsole { master: self.master, size },
        }
    }

    /// Take note of what waiting for the child reported, and return it: the
    /// status, or the platform's error as it came.
    pub fn wait<E>(&mut self, report: Result<ExitStatus, WaitFailure<E>>) -> (status: Result<
        ExitStatus,
        PtyError<E>,
    >)
        ensures
            final(self)@ == old(self)@.after_wait(told(report)),
            final(self)@.pid == old(self)@.pid,
            final(self)@.scope == old(self)@.scope,
            final(self)@.master == old(self)@.master,
            report is Ok ==> final(self)@.exit_observed,
            report matches Err(failure) ==> (final(self)@.exit_observed <==> {
                ||| old(self)@.exit_observed
                ||| old(self)@.scope == KillTreeScope::ProcessGroup && failure.code == Some(10i32)
            }),
            status == (match report {
                Ok(exit) => Ok::<ExitStatus, PtyError<E>>(exit),
                Err(failure) => Err::<ExitStatus, PtyError<E>>(PtyError::Platform(failure.error)),
            }),
    {
        match report {
            Ok(exit) => {
                self.exit_observed = true;
                Ok(exit)
            },
            Err(failure) => {
                if let (KillTreeScope::ProcessGroup, Some(number)) = (self.scope, failure.code) {
                    if number == ECHILD {
                        self.exit_observed = true;
                    }
                }
                Err(PtyError::Platform(failure.error))
            },
        }
    }

    /// Returns the OS process ID of the child.
    pub fn pid(&self) -> (pid: u32)
        ensures
            pid == self@.pid,
    {
        self.pid
    }

    /// Returns the processes [`Self::kill_tree`] can reach.
    pub fn kill_tree_scope(&self) -> (scope: KillTreeScope)
        ensures
            scope == self@.scope,
    {
        self.scope
    }

    /// End the child: `SIGKILL` on Unix, `TerminateProcess` on Windows.
    ///
    /// Refused once [`Self::wait`] has observed the exit.
    pub fn kill<E>(&self) -> (order: Result<KillOrder, PtyError<E>>)
        ensures
            order == answer::<E>(self@.kill_order()),
            order is Err <==> self@.exit_observed,
            order matches Err(error) ==> error == PtyError::<E>::AlreadyExited,
            order matches Ok(order) ==> order == (if self@.scope == KillTreeScope::ProcessGroup {
                KillOrder::SignalProcess { pid: self@.pid, signal: Signal::Kill }
            } else {
                KillOrder::TerminateProcess { pid: self@.pid }
            }),
    {
        if self.exit_observed {
            return Err(PtyError::AlreadyExited);
        }
        match self.scope {
            KillTreeScope::ProcessGroup => Ok(
                KillOrder::SignalProcess { pid: self.pid, signal: Signal::Kill },
            ),
            _ => Ok(KillOrder::TerminateProcess { pid: self.pid }),
        }
    }

    /// Forcefully end the terminal workload.
    ///
    /// The reach is reported by [`Self::kill_tree_scope`]. Refused once
    /// [`Self::wait`] has observed the exit, except that the whole-tree scope
    /// remains valid because it targets an owned job handle.
    pub fn kill_tree<E>(&self) -> (order: Result<KillOrder, PtyError<E>>)
        ensures
            order == answer::<E>(self@.kill_tree_order()),
            order is Err <==> self@.exit_observed && self@.scope != KillTreeScope::WholeTree,
            order matches Err(error) ==> error == PtyError::<E>::AlreadyExited,
            order matches Ok(order) ==> order == (match self@.scope {
                KillTreeScope::WholeTree => KillOrder::TerminateJob,
                KillTreeScope::ProcessGroup => KillOrder::SignalGroup {
                    group: self@.pid,
                    signal: Signal::Kill,
                },
                KillTreeScope::DirectProcess => KillOrder::TerminateProcess { pid: self@.pid },
            }),
    {
        match self.scope {
            KillTreeScope::WholeTree => Ok(KillOrder::TerminateJob),
            KillTreeScope::ProcessGroup => {
                if self.exit_observed {
                    return Err(PtyError::AlreadyExited);
                }
                Ok(KillOrder::SignalGroup { group: self.pid, signal: Signal::Kill })
            },
            KillTreeScope::DirectProcess => self.kill(),
        }
    }

    /// What dropping this process does to its workload.
    pub fn on_drop(&self) -> (order: DropOrder)
        ensures
            order == self@.drop_order(),
            order == (if self@.scope == KillTreeScope::WholeTree {
                DropOrder::CloseJob
            } else {
                DropOrder::Leave
            }),
    {
        match self.scope {
            KillTreeScope::WholeTree => DropOrder::CloseJob,
            _ => DropOrder::Leave,
        }
    }
}

/// Reader half of a PTY master.
pub struct PtyReader {
    master: u64,
}

impl View for PtyReader {
    type V = u64;

    closed spec fn view(&self) -> u64 {
        self.master
    }
}

impl PtyReader {
    /// Read into a buffer that has room for `room` bytes: what is asked of the
    /// platform, which reads from the master and has the say on the outcome.
    pub fn poll_read(&mut self, room: usize) -> (order: ReadOrder)
        ensures
            order == (ReadOrder { master: old(self)@, room }),
            *final(self) == *old(self),
    {
        ReadOrder { master: self.master, room }
    }
}

/// Writer half of a PTY master (child stdin).
pub struct PtyWriter {
    master: u64,
}

impl View for PtyWriter {
    type V = u64;

    closed spec fn view(&self) -> u64 {
        self.master
    }
}

impl PtyWriter {
    /// Write `buf`: what is asked of the platform, which writes to the master
    /// and has the say on how much it took.
    pub fn poll_write<'a>(&mut self, buf: &'a [u8]) -> (order: WriteOrder<'a>)
        ensures
            order.master == old(self)@,
            order.bytes@ == buf@,
            *final(self) == *old(self),
    {
        WriteOrder { master: self.master, bytes: buf }
    }

    /// Flush what was written, which is ready at once: the PTY master is not
    /// buffered at this layer.
    pub fn poll_flush<E>(&mut self) -> (outcome: Result<(), E>)
        ensures
            outcome is Ok,
            *final(self) == *old(self),
    {
        Ok(())
    }

    /// Shut this half down, which is ready at once and closes nothing.
    pub fn poll_shutdown<E>(&mut self) -> (outcome: Result<(), E>)
        ensures
            outcome is Ok,
            *final(self) == *old(self),
    {
        Ok(())
    }
}

/// Waits note nothing but an observed exit, and they note it for good: after
/// any waits the exit counts as observed exactly where it did before or one of
/// the reports observes it.
pub proof fn law_waits_observe_exit(
    state: ProcessState,
    reports: Seq<Result<ExitStatus, Option<i32>>>,
)
    ensures
        state.after_waits(reports).pid == state.pid,
        state.after_waits(reports).scope == state.scope,
        state.after_waits(reports).master == state.master,
        state.after_waits(reports).exit_observed <==> {
            ||| state.exit_observed
            ||| exists|i: int|
                0 <= i < reports.len() && observes_exit(state.scope, #[trigger] reports[i])
        },
        state.after_waits(reports).exit_observed <==> {
            ||| state.exit_observed
            ||| exists|i: int|
                0 <= i < reports.len() && (#[trigger] reports[i] is Ok || state.scope
                    == KillTreeScope::ProcessGroup && reports[i] == Err::<ExitStatus, Option<i32>>(
                    Some(10),
                ))
        },
    decreases reports.len(),
{
    if reports.len() > 0 {
        let earlier = reports.drop_last();
        law_waits_observe_exit(state, earlier);
        assert(forall|i: int| 0 <= i < earlier.len() ==> earlier[i] == #[trigger] reports[i]);
        if exists|i: int|
            0 <= i < earlier.len() && observes_exit(state.scope, #[trigger] earlier[i]) {
            let i = choose|i: int|
                0 <= i < earlier.len() && observes_exit(state.scope, #[trigger] earlier[i]);
            assert(observes_exit(state.scope, reports[i]));
        }
        if exists|i: int|
            0 <= i < reports.len() && observes_exit(state.scope, #[trigger] reports[i]) {
            let i = choose|i: int|
                0 <= i < reports.len() && observes_exit(state.scope, #[trigger] reports[i]);
            if i < earlier.len() {
                assert(observes_exit(state.scope, earlier[i]));
            }
        }
    }
}

/// Signalling after an observed exit is refused: for a process as it was
/// spawned, killing the child is refused after exactly those waits of which
/// one has observed the exit, and so is killing the tree outside a job.
pub proof fn law_kill_after_wait_is_rejected(
    pid: u32,
    scope: KillTreeScope,
    master: u64,
    reports: Seq<Result<ExitStatus, Option<i32>>>,
)
    ensures
        ({
            let state = (ProcessState { pid, scope, master, exit_observed: false }).after_waits(
                reports,
            );
            let observed = exists|i: int|
                0 <= i < reports.len() && (#[trigger] reports[i] is Ok || scope
                    == KillTreeScope::ProcessGroup && reports[i] == Err::<ExitStatus, Option<i32>>(
                    Some(10),
                ));
            &&& state.kill_order() is None <==> observed
            &&& scope != KillTreeScope::WholeTree ==> (state.kill_tree_order() is None
                <==> observed)
        }),
{
    law_waits_observe_exit(ProcessState { pid, scope, master, exit_observed: false }, reports);
}

/// A refusal is final: no later wait makes a refused kill possible again.
pub proof fn law_refusal_is_final(
    state: ProcessState,
    reports: Seq<Result<ExitStatus, Option<i32>>>,
)
    ensures
        state.kill_order() is None ==> state.after_waits(reports).kill_order() is None,
        state.kill_tree_order() is None ==> state.after_waits(reports).kill_tree_order() is None,
{
    law_waits_observe_exit(state, reports);
}

/// The whole tree stays reachable: with a job, killing the tree asks for the
/// same thing before and after any waits.
pub proof fn law_whole_tree_outlives_wait(
    state: ProcessState,
    reports: Seq<Result<ExitStatus, Option<i32>>>,
)
    requires
        state.scope == KillTreeScope::WholeTree,
    ensures
        state.after_waits(reports).kill_tree_order() == Some(KillOrder::TerminateJob),
{
    law_waits_observe_exit(state, reports);
}

/// A wait that fails otherwise than for want of the child leaves every answer
/// as it was.
pub proof fn law_failed_wait_changes_nothing(state: ProcessState, code: Option<i32>)
    requires
        state.scope == KillTreeScope::ProcessGroup ==> code != Some(ECHILD),
    ensures
        state.after_wait(Err(code)) == state,
{
}

/// Killing the tree reaches what the reported scope covers, no more and no
/// less.
pub proof fn law_kill_tree_reaches_its_scope(state: ProcessState, process: OsProcess)
    ensures
        state.kill_tree_order() matches Some(order) ==> (order.reaches(process)
            <==> state.scope.covers(state.pid, process)),
{
}

/// Killing the child reaches the child and nothing else.
pub proof fn law_kill_reaches_the_child_only(state: ProcessState, process: OsProcess)
    ensures
        state.kill_order() matches Some(order) ==> (order.reaches(process) <==> process.pid
            == state.pid),
{
}

/// On Unix a process in the child's group is reached, and one that has left
/// the group escapes.
pub proof fn law_leaving_the_group_escapes(state: ProcessState, process: OsProcess)
    requires
        state.scope == KillTreeScope::ProcessGroup,
        !state.exit_observed,
    ensures
        state.kill_tree_order() is Some,
        state.kill_tree_order()->0.reaches(process) <==> process.group == state.pid,
{
}

/// Where only the direct child can be reached, killing the tree is killing
/// the child.
pub proof fn law_direct_tree_is_the_child(state: ProcessState)
    requires
        state.scope == KillTreeScope::DirectProcess,
    ensures
        state.kill_tree_order() == state.kill_order(),
{
}

/// Waiting has no bearing on resizing: the order is the same before and after
/// any waits.
pub proof fn law_resize_ignores_waits(
    state: ProcessState,
    reports: Seq<Result<ExitStatus, Option<i32>>>,
    size: PtySize,
)
    ensures
        state.after_waits(reports).resize_order(size) == state.resize_order(size),
{
    law_waits_observe_exit(state, reports);
}

/// Killing the child ends it: while no exit was observed there is an order, and
/// carrying it out ends the child and nothing else.
pub proof fn law_kill_ends_the_child(state: ProcessState, process: OsProcess)
    requires
        !state.exit_observed,
    ensures
        state.kill_order() is Some,
        state.kill_order()->0.ends(process) <==> process.pid == state.pid,
{
}

/// Killing goes by the platform's own means: a Unix child is sent `SIGKILL`, a
/// Windows child is terminated through its handle.
pub proof fn law_kill_uses_the_platforms_means(state: ProcessState)
    requires
        !state.exit_observed,
    ensures
        state.scope == KillTreeScope::ProcessGroup <==> state.kill_order() == Some(
            KillOrder::SignalProcess { pid: state.pid, signal: Signal::Kill },
        ),
        state.scope != KillTreeScope::ProcessGroup <==> state.kill_order() == Some(
            KillOrder::TerminateProcess { pid: state.pid },
        ),
{
}

/// Killing the tree ends the workload: while no exit was observed there is an
/// order, and carrying it out ends exactly the members of the job, of the
/// child's process group, or the child alone.
pub proof fn law_kill_tree_ends_its_scope(state: ProcessState, process: OsProcess)
    requires
        !state.exit_observed,
    ensures
        state.kill_tree_order() is Some,
        state.kill_tree_order()->0.ends(process) <==> state.scope.covers(state.pid, process),
        state.scope == KillTreeScope::WholeTree ==> (state.kill_tree_order()->0.ends(process)
            <==> process.in_job),
        state.scope == KillTreeScope::ProcessGroup ==> (state.kill_tree_order()->0.ends(process)
            <==> process.group == state.pid),
        state.scope == KillTreeScope::DirectProcess ==> (state.kill_tree_order()->0.ends(process)
            <==> process.pid == state.pid),
{
}

/// Killing the tree goes by the containment's own means: `SIGKILL` to the
/// group, the end of the job, or the end of the one process.
pub proof fn law_kill_tree_uses_its_containment(state: ProcessState)
    requires
        !state.exit_observed,
    ensures
        state.scope == KillTreeScope::WholeTree <==> state.kill_tree_order() == Some(
            KillOrder::TerminateJob,
        ),
        state.scope == KillTreeScope::ProcessGroup <==> state.kill_tree_order() == Some(
            KillOrder::SignalGroup { group: state.pid, signal: Signal::Kill },
        ),
        state.scope == KillTreeScope::DirectProcess <==> state.kill_tree_order() == Some(
            KillOrder::TerminateProcess { pid: state.pid },
        ),
{
}

/// Killing the tree ends the child too: whatever the scope, a child that leads
/// its group and sits in its job is among those ended.
pub proof fn law_kill_tree_ends_the_child(state: ProcessState, child: OsProcess)
    requires
        !state.exit_observed,
        child.pid == state.pid,
        child.group == state.pid,
        child.in_job,
    ensures
        state.kill_tree_order() is Some,
        state.kill_tree_order()->0.ends(child),
        state.kill_order() is Some,
        state.kill_order()->0.ends(child),
{
}

/// A collected status is an observed exit: after a wait that got any status at
/// all, whatever its code or signal, both kinds of killing are refused but for
/// the end of a job.
pub proof fn law_status_is_an_observed_exit(state: ProcessState, status: ExitStatus)
    ensures
        state.after_wait(Ok(status)).exit_observed,
        state.after_wait(Ok(status)).kill_order() is None,
        state.after_wait(Ok(status)).kill_tree_order() == (if state.scope
            == KillTreeScope::WholeTree {
            Some(KillOrder::TerminateJob)
        } else {
            None
        }),
{
}

/// A missing child is an observed exit on Unix and nowhere else: a failed wait
/// makes a kill refused that was not refused before exactly where the Unix
/// error code is 10, that of no such child.
pub proof fn law_missing_child_is_an_observed_exit(state: ProcessState, code: Option<i32>)
    requires
        !state.exit_observed,
    ensures
        state.after_wait(Err(code)).kill_order() is None <==> state.scope
            == KillTreeScope::ProcessGroup && code == Some(10i32),
        state.after_wait(Err(code)).kill_tree_order() is None <==> state.scope
            == KillTreeScope::ProcessGroup && code == Some(10i32),
{
}

/// A wait tells what the platform reported: the status itself, or the code of
/// the failure, whatever the error.
pub proof fn law_wait_tells_the_report<E>(
    report: Result<ExitStatus, WaitFailure<E>>,
    status: ExitStatus,
    code: Option<i32>,
)
    ensures
        told(report) == Ok::<ExitStatus, Option<i32>>(status) <==> report == Ok::<
            ExitStatus,
            WaitFailure<E>,
        >(status),
        told(report) == Err::<ExitStatus, Option<i32>>(code) <==> report is Err
            && report->Err_0.code == code,
{
}

/// A refusal says that the process has exited, and an order is handed out as it
/// is.
pub proof fn law_answer_hands_the_order_out<E>(order: Option<KillOrder>)
    ensures
        order matches Some(wanted) ==> answer::<E>(order) == Ok::<KillOrder, PtyError<E>>(wanted),
        order is None ==> answer::<E>(order) == Err::<KillOrder, PtyError<E>>(
            PtyError::AlreadyExited,
        ),
{
}

/// Resizing asks for the size that was requested, columns for columns and rows
/// for rows, on the process's own master. On Unix the child's group is told of
/// it with `SIGWINCH`.
pub proof fn law_resize_keeps_the_size(state: ProcessState, size: PtySize)
    ensures
        match state.resize_order(size) {
            ResizeOrder::Terminal { master, size: asked, group, signal } => {
                &&& state.scope == KillTreeScope::ProcessGroup
                &&& master == state.master
                &&& asked.cols == size.cols
                &&& asked.rows == size.rows
                &&& group == state.pid
                &&& signal == Signal::WindowChange
            },
            ResizeOrder::PseudoConsole { master, size: asked } => {
                &&& state.scope != KillTreeScope::ProcessGroup
                &&& master == state.master
                &&& asked.cols == size.cols
                &&& asked.rows == size.rows
            },
        },
{
}

/// Different sizes are asked for differently: two resizes of one process give
/// the same order exactly where the sizes have the same columns and the same
/// rows.
pub proof fn law_resize_tells_sizes_apart(state: ProcessState, a: PtySize, b: PtySize)
    ensures
        state.resize_order(a) == state.resize_order(b) <==> a.cols == b.cols && a.rows == b.rows,
{
}

/// Resizing and killing the tree are about one group: the group that is told of a
/// new size is the group that killing the tree ends.
pub proof fn law_resize_and_kill_tree_share_the_group(state: ProcessState, size: PtySize)
    requires
        state.scope == KillTreeScope::ProcessGroup,
        !state.exit_observed,
    ensures
        state.resize_order(size) is Terminal,
        state.kill_tree_order() == Some(
            KillOrder::SignalGroup {
                group: state.resize_order(size)->group,
                signal: Signal::Kill,
            },
        ),
{
}

/// Dropping tears down the whole tree and nothing else: it ends the members of
/// the job unless the workload has kept a handle to it, before and after any
/// wait, and in the other scopes it ends nothing.
pub proof fn law_drop_ends_the_whole_tree_only(
    state: ProcessState,
    report: Result<ExitStatus, Option<i32>>,
    process: OsProcess,
    job_held: bool,
)
    ensures
        state.drop_order().ends(process, job_held) <==> state.scope == KillTreeScope::WholeTree
            && process.in_job && !job_held,
        state.scope != KillTreeScope::WholeTree <==> state.drop_order() == DropOrder::Leave,
        state.after_wait(report).drop_order() == state.drop_order(),
{
}

} // verus!
