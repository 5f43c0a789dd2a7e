//! Which processes the end of a terminal workload reaches.

use vstd::prelude::*;

verus! {

/// What containment goes by in a process of the operating system.
pub struct OsProcess {
    /// Its process ID.
    pub pid: u32,
    /// The Unix process group that it is in.
    pub group: u32,
    /// Whether it is in the Windows job that the child was spawned into.
    pub in_job: bool,
}

/// The processes that [`PtyProcess::kill_tree`](crate::PtyProcess::kill_tree)
/// can reach.
///
/// This enum is exhaustive: each variant describes one of the containment
/// mechanisms used by this crate.
#[derive(Debug, Clone, Copy, PartialEq, Eq, Structural)]
pub enum KillTreeScope {
    /// The child and its descendants in a Windows job.
    WholeTree,
    /// Members of the child's original Unix process group.
    ///
    /// A descendant that leaves that group, for example with `setsid()`, is
    /// not reached.
    ProcessGroup,
    /// Only the direct child process.
    ///
    /// Windows reports this when job containment was unavailable at spawn.
    DirectProcess,
}

impl KillTreeScope {
    /// Whether this scope holds `process`, for the child with ID `child`. The
    /// child leads its original process group, so the group has the child's ID.
    pub open spec fn covers(self, child: u32, process: OsProcess) -> bool {
        match self {
            KillTreeScope::WholeTree => process.in_job,
            KillTreeScope::ProcessGroup => process.group == child,
            KillTreeScope::DirectProcess => process.pid == child,
        }
    }
}

/// What [`scope_at_spawn`] decides.
pub open spec fn spawn_scope(unix: bool, job: bool) -> KillTreeScope {
    if unix {
        KillTreeScope::ProcessGroup
    } else if job {
        KillTreeScope::WholeTree
    } else {
        KillTreeScope::DirectProcess
    }
}

/// The scope tells the platform and its containment: a process group is Unix
/// and nothing else, and on Windows the whole tree is covered exactly where
/// there is a job.
pub proof fn law_scope_tells_the_containment(unix: bool, job: bool)
    ensures
        spawn_scope(unix, job) == KillTreeScope::ProcessGroup <==> unix,
        spawn_scope(unix, job) == KillTreeScope::WholeTree <==> !unix && job,
        spawn_scope(unix, job) == KillTreeScope::DirectProcess <==> !unix && !job,
{
}

/// Each scope covers what its containment holds: the group that the child
/// leads, the job, or the child alone.
pub proof fn law_scope_covers_its_containment(child: u32, process: OsProcess)
    ensures
        KillTreeScope::ProcessGroup.covers(child, process) <==> process.group == child,
        KillTreeScope::WholeTree.covers(child, process) <==> process.in_job,
        KillTreeScope::DirectProcess.covers(child, process) <==> process.pid == child,
{
}

/// The scope of a child at spawn: its process group on Unix, and on Windows the
/// whole tree where a job contains the child, the direct process where job
/// containment was unavailable.
pub fn scope_at_spawn(unix: bool, job: bool) -> (scope: KillTreeScope)
    ensures
        scope == spawn_scope(unix, job),
        scope == (if unix {
            KillTreeScope::ProcessGroup
        } else if job {
            KillTreeScope::WholeTree
        } else {
            KillTreeScope::DirectProcess
        }),
{
    if unix {
        KillTreeScope::ProcessGroup
    } else if job {
        KillTreeScope::WholeTree
    } else {
        KillTreeScope::DirectProcess
    }
}

} // verus!
