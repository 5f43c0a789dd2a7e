//! The verified core of a cross-platform async PTY.
//!
//! Platform code opens the terminal, spawns the child, polls the PTY master and
//! calls the operating system. This crate holds what is decided around those
//! calls from plain values, each function with a contract that is proved:
//!
//! - [`PtyProcess`] decides what resizing, killing and dropping ask of the
//!   operating system, and takes note of what waiting reported;
//! - [`PtyReader`] and [`PtyWriter`] are the two halves of its PTY master;
//! - [`ExitStatus`] says how the child ended;
//! - [`parse_pid`] finds a PID that a program reported on its terminal.

pub mod decimal;
pub mod exit_status;
pub mod order;
pub mod process;
pub mod report;
pub mod scope;
pub mod size;

pub use exit_status::ExitStatus;
pub use order::{
    settle, DropOrder, ErrorKind, KillOrder, PtyError, ReadOrder, ResizeOrder, Signal,
    WaitFailure, WriteOrder,
};
pub use process::{PtyProcess, PtyReader, PtyWriter};
pub use report::parse_pid;
pub use scope::{scope_at_spawn, KillTreeScope};
pub use size::PtySize;
