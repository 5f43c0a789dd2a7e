//! What the operating system is to be asked for, and what comes of it.

use vstd::prelude::*;

use crate::scope::OsProcess;
use crate::size::PtySize;

verus! {

/// The Unix signals that are sent to a terminal workload.
#[derive(Debug, Clone, Copy, PartialEq, Eq, Structural)]
pub enum Signal {
    /// `SIGKILL`.
    Kill,
    /// `SIGWINCH`.
    WindowChange,
}

/// A request to read from a PTY master.
#[derive(Debug, Clone, Copy, PartialEq, Eq, Structural)]
pub struct ReadOrder {
    /// The PTY master to read from.
    pub master: u64,
    /// How many bytes there is room for.
    pub room: usize,
}

/// A request to write to a PTY master.
#[derive(Debug, Clone, Copy, PartialEq, Eq)]
pub struct WriteOrder<'a> {
    /// The PTY master to write to.
    pub master: u64,
    /// The bytes to write.
    pub bytes: &'a [u8],
}

/// A request that ends processes.
#[derive(Debug, Clone, Copy, PartialEq, Eq, Structural)]
pub enum KillOrder {
    /// Send `signal` to the Unix process `pid`.
    SignalProcess { pid: u32, signal: Signal },
    /// Send `signal` to every member of the Unix process group `group`.
    SignalGroup { group: u32, signal: Signal },
    /// Terminate the Windows process `pid` through its owned handle.
    TerminateProcess { pid: u32 },
    /// Terminate every process in the Windows job through its owned handle.
    TerminateJob,
}

impl KillOrder {
    /// Whether carrying out this order strikes `process`.
    pub open spec fn reaches(self, process: OsProcess) -> bool {
        match self {
            KillOrder::SignalProcess { pid, .. } => process.pid == pid,
            KillOrder::SignalGroup { group, .. } => process.group == group,
            KillOrder::TerminateProcess { pid } => process.pid == pid,
            KillOrder::TerminateJob => process.in_job,
        }
    }

    /// Whether carrying out this order ends `process`: it has to reach the
    /// process, and of the signals only `SIGKILL` ends one.
    pub open spec fn ends(self, process: OsProcess) -> bool {
        match self {
            KillOrder::SignalProcess { pid, signal } => signal == Signal::Kill && process.pid
                == pid,
            KillOrder::SignalGroup { group, signal } => signal == Signal::Kill && process.group
                == group,
            KillOrder::TerminateProcess { pid } => process.pid == pid,
            KillOrder::TerminateJob => process.in_job,
        }
    }
}

/// A request that changes the size of a terminal.
#[derive(Debug, Clone, Copy, PartialEq, Eq, Structural)]
pub enum ResizeOrder {
    /// Set the window size of the Unix terminal `master`, then send `signal`
    /// to the process group `group`.
    Terminal { master: u64, size: PtySize, group: u32, signal: Signal },
    /// Resize the Windows pseudoconsole `master`.
    PseudoConsole { master: u64, size: PtySize },
}

/// What dropping a process does to its workload.
#[derive(Debug, Clone, Copy, PartialEq, Eq, Structural)]
pub enum DropOrder {
    /// Close the owned handle of the Windows job, which ends every process in
    /// the job unless another handle to it is still open.
    CloseJob,
    /// Leave the processes alone.
    Leave,
}

impl DropOrder {
    /// Whether carrying out this order ends `process`, given whether another
    /// handle to the job is still open.
    pub open spec fn ends(self, process: OsProcess, job_held: bool) -> bool {
        self == DropOrder::CloseJob && process.in_job && !job_held
    }
}

/// Why a request failed, where the platform's own errors are of type `E`.
#[derive(Debug, Clone, Copy, PartialEq, Eq)]
pub enum PtyError<E> {
    /// A wait has already observed the end of the process.
    AlreadyExited,
    /// The platform failed, with this error.
    Platform(E),
}

/// The broad class of a [`PtyError`].
#[derive(Debug, Clone, Copy, PartialEq, Eq, Structural)]
pub enum ErrorKind {
    /// The request does not fit the state of the process.
    InvalidInput,
    /// The platform's own error says what it is.
    Platform,
}

/// What [`settle`] makes of the platform's answer.
pub open spec fn settled<E>(answer: Result<(), E>) -> Result<(), PtyError<E>> {
    match answer {
        Ok(_) => Ok(()),
        Err(error) => Err(PtyError::Platform(error)),
    }
}

impl<E> PtyError<E> {
    /// What [`Self::kind`] makes of this error.
    pub open spec fn class(self) -> ErrorKind {
        match self {
            PtyError::AlreadyExited => ErrorKind::InvalidInput,
            PtyError::Platform(_) => ErrorKind::Platform,
        }
    }

    /// The class of this error.
    pub fn kind(&self) -> (kind: ErrorKind)
        ensures
            kind == self.class(),
            kind == (match *self {
                PtyError::AlreadyExited => ErrorKind::InvalidInput,
                PtyError::Platform(_) => ErrorKind::Platform,
            }),
    {
        match self {
            PtyError::AlreadyExited => ErrorKind::InvalidInput,
            PtyError::Platform(_) => ErrorKind::Platform,
        }
    }
}

/// A wait that failed: the platform's error, and the code of the operating
/// system where the error has one.
#[derive(Debug, Clone, Copy, PartialEq, Eq)]
pub struct WaitFailure<E> {
    pub error: E,
    pub code: Option<i32>,
}

/// The outcome of a request, from what the platform answered when the order
/// was carried out: its success, or its error as it came.
pub fn settle<E>(answer: Result<(), E>) -> (outcome: Result<(), PtyError<E>>)
    ensures
        outcome == settled(answer),
        outcome == (match answer {
            Ok(_) => Ok::<(), PtyError<E>>(()),
            Err(error) => Err::<(), PtyError<E>>(PtyError::Platform(error)),
        }),
{
    match answer {
        Ok(()) => Ok(()),
        Err(error) => Err(PtyError::Platform(error)),
    }
}

/// The platform's answer is handed on whole: a request succeeds exactly where
/// the platform did, and fails with an error exactly where the platform failed
/// with it. It is never taken for a refusal.
pub proof fn law_answers_are_handed_on<E>(answer: Result<(), E>, error: E)
    ensures
        settled(answer) is Ok <==> answer is Ok,
        settled(answer) == Err::<(), PtyError<E>>(PtyError::Platform(error)) <==> answer == Err::<
            (),
            E,
        >(error),
        settled(answer) != Err::<(), PtyError<E>>(PtyError::AlreadyExited),
{
}

/// A refusal is invalid input, and no error of the platform is classed so.
pub proof fn law_refusals_are_invalid_input<E>(error: PtyError<E>)
    ensures
        error.class() == ErrorKind::InvalidInput <==> error is AlreadyExited,
        error.class() == ErrorKind::Platform <==> error is Platform,
{
}

} // verus!
