use semi_os::{HostLifecycle, HostLifecycleSnapshot, HostPhase};

#[test]
fn advances_host_lifecycle_without_mixing_worker_state() {
    let mut lifecycle = HostLifecycle::default();
    assert_eq!(lifecycle.snapshot().phase, HostPhase::Starting);

    lifecycle.mark_ready(true);
    assert_eq!(
        lifecycle.snapshot(),
        HostLifecycleSnapshot {
            phase: HostPhase::Ready,
            shortcut_registered: true,
        }
    );

    lifecycle.mark_shutting_down();
    assert_eq!(lifecycle.snapshot().phase, HostPhase::ShuttingDown);
    lifecycle.mark_stopped();
    assert_eq!(lifecycle.snapshot().phase, HostPhase::Stopped);
}

#[test]
fn stopped_host_is_not_reopened_by_shutdown() {
    let mut lifecycle = HostLifecycle::default();
    lifecycle.mark_ready(false);
    lifecycle.mark_stopped();
    lifecycle.mark_shutting_down();
    assert_eq!(
        lifecycle.snapshot(),
        HostLifecycleSnapshot {
            phase: HostPhase::Stopped,
            shortcut_registered: false,
        }
    );
}

#[test]
fn shutdown_from_starting_keeps_shortcut_flag() {
    let mut lifecycle = HostLifecycle::default();
    lifecycle.mark_shutting_down();
    assert_eq!(
        lifecycle.snapshot(),
        HostLifecycleSnapshot {
            phase: HostPhase::ShuttingDown,
            shortcut_registered: false,
        }
    );
}

#[test]
fn late_ready_does_not_revive_a_shutting_down_or_stopped_host() {
    let mut lifecycle = HostLifecycle::default();
    lifecycle.mark_shutting_down();
    lifecycle.mark_ready(true);
    assert_eq!(
        lifecycle.snapshot(),
        HostLifecycleSnapshot {
            phase: HostPhase::ShuttingDown,
            shortcut_registered: false,
        }
    );
    lifecycle.mark_stopped();
    lifecycle.mark_ready(true);
    assert_eq!(lifecycle.snapshot().phase, HostPhase::Stopped);
    assert!(!lifecycle.snapshot().shortcut_registered);
}
