//! Lifecycle of the host process itself, kept apart from task and worker state.

use vstd::prelude::*;

verus! {

/// Phase of the host process.
#[derive(Debug, Clone, Copy, PartialEq, Eq, Structural)]
pub enum HostPhase {
    Starting,
    Ready,
    ShuttingDown,
    Stopped,
}

/// Read-only view of the host lifecycle handed to the UI.
#[derive(Debug, Clone, Copy, PartialEq, Eq, Structural)]
pub struct HostLifecycleSnapshot {
    pub phase: HostPhase,
    pub shortcut_registered: bool,
}

/// Position of a phase in the one-way order Starting, Ready, ShuttingDown, Stopped.
pub open spec fn phase_rank(phase: HostPhase) -> int {
    match phase {
        HostPhase::Starting => 0,
        HostPhase::Ready => 1,
        HostPhase::ShuttingDown => 2,
        HostPhase::Stopped => 3,
    }
}

/// The host lifecycle. It only moves forward, and only the host moves it; the UI reads snapshots and
/// never infers readiness on its own.
#[derive(Debug)]
pub struct HostLifecycle {
    snapshot: HostLifecycleSnapshot,
}

impl Default for HostLifecycle {
    fn default() -> (r: HostLifecycle)
        ensures
            r.view() == (HostLifecycleSnapshot { phase: HostPhase::Starting, shortcut_registered: false }),
    {
        HostLifecycle {
            snapshot: HostLifecycleSnapshot { phase: HostPhase::Starting, shortcut_registered: false },
        }
    }
}

impl HostLifecycle {
    pub closed spec fn view(&self) -> HostLifecycleSnapshot {
        self.snapshot
    }

    /// The current snapshot.
    pub fn snapshot(&self) -> (r: HostLifecycleSnapshot)
        ensures
            r == self.view(),
    {
        self.snapshot
    }

    /// The host finished starting; records whether the push-to-talk shortcut
    /// could be registered. A host that is shutting down or stopped is not
    /// brought back: it stays as it is.
    pub fn mark_ready(&mut self, shortcut_registered: bool)
        ensures
            old(self).view().phase is ShuttingDown || old(self).view().phase is Stopped ==> final(self).view()
                == old(self).view(),
            old(self).view().phase is Starting || old(self).view().phase is Ready ==> final(self).view()
                == (HostLifecycleSnapshot { phase: HostPhase::Ready, shortcut_registered }),
            phase_rank(final(self).view().phase) >= phase_rank(old(self).view().phase),
    {
        match self.snapshot.phase {
            HostPhase::ShuttingDown | HostPhase::Stopped => {},
            _ => {
                self.snapshot = HostLifecycleSnapshot { phase: HostPhase::Ready, shortcut_registered };
            },
        }
    }

    /// The host begins shutting down; a stopped host stays stopped.
    pub fn mark_shutting_down(&mut self)
        ensures
            final(self).view().phase == (if old(self).view().phase is Stopped {
                HostPhase::Stopped
            } else {
                HostPhase::ShuttingDown
            }),
            final(self).view().shortcut_registered == old(self).view().shortcut_registered,
            phase_rank(final(self).view().phase) >= phase_rank(old(self).view().phase),
    {
        match self.snapshot.phase {
            HostPhase::Stopped => {},
            _ => {
                self.snapshot.phase = HostPhase::ShuttingDown;
            },
        }
    }

    /// The host has stopped.
    pub fn mark_stopped(&mut self)
        ensures
            final(self).view().phase is Stopped,
            final(self).view().shortcut_registered == old(self).view().shortcut_registered,
            phase_rank(final(self).view().phase) >= phase_rank(old(self).view().phase),
    {
        self.snapshot.phase = HostPhase::Stopped;
    }
}

} // verus!
