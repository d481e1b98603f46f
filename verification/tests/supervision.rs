//! Lifecycle, relays, process control and maintenance.
use spacebot::agent::inbound_relay::{spawn, InboundMessage, RelaySendError, PRESSURE_WARN_DEPTH};
use spacebot::agent::maintenance::{janitor_interval, report_pass, retention_days, PassOutcome, PassReport};
use spacebot::agent::process_control::{ControlActionResult, ProcessControlRegistry, ProcessKind};
use spacebot::lifecycle::{LifecycleHandle, LifecycleState, MarkerOutcome, PendingRestart, RestartSpec};

#[test]
fn restart_fires_after_grace_delay() {
    let mut handle = LifecycleHandle::new();
    assert!(handle.fire().is_none());
    assert!(handle.request_restart());
    assert!(handle.arm());
    assert_eq!(handle.fire(), Some(LifecycleState::Restart));
}

#[test]
fn second_restart_request_is_rejected() {
    let mut handle = LifecycleHandle::new();
    assert!(handle.request_restart());
    assert!(!handle.request_restart());
}

#[test]
fn shutdown_supersedes_pending_restart() {
    let mut handle = LifecycleHandle::new();
    assert!(handle.request_restart());
    assert!(handle.arm());
    assert!(handle.request_shutdown());
    assert_eq!(handle.fire(), Some(LifecycleState::Exit));
}

#[test]
fn restart_after_shutdown_is_rejected() {
    let mut handle = LifecycleHandle::new();
    assert!(handle.request_shutdown());
    assert!(!handle.request_restart());
    assert!(!handle.request_shutdown());
}

#[test]
fn restart_spec_args_minimal() {
    let spec = RestartSpec::capture("spacebot".to_string(), &None, false, false);
    assert_eq!(spec.args, vec!["start".to_string()]);
}

#[test]
fn restart_spec_args_full_flags() {
    let spec = RestartSpec::capture("spacebot".to_string(), &None, true, true);
    let expected: Vec<String> =
        ["--debug", "start", "--foreground"].iter().map(|arg| arg.to_string()).collect();
    assert_eq!(spec.args, expected);
}

#[test]
fn restart_spec_canonicalizes_config_path() {
    let config = "/etc/spacebot/config.toml".to_string();
    let spec = RestartSpec::capture("spacebot".to_string(), &Some(config.clone()), false, false);
    assert_eq!(spec.args[0], "--config");
    assert_eq!(spec.args[1], config);
    assert_eq!(spec.args[2], "start");
}

#[test]
fn pending_restart_roundtrip() {
    let pending = PendingRestart {
        agent_id: "main".to_string(),
        conversation_id: "discord:123".to_string(),
        adapter: Some("discord".to_string()),
        target: Some("123".to_string()),
        reason: "config change".to_string(),
        requested_at: 0,
        source: "tool".to_string(),
    };
    match PendingRestart::take(true, Some(pending)) {
        MarkerOutcome::Announce(taken) => {
            assert_eq!(taken.conversation_id, "discord:123");
            assert_eq!(taken.adapter.as_deref(), Some("discord"));
        }
        other => panic!("expected the marker, got {other:?}"),
    }
    assert!(matches!(PendingRestart::take(false, None), MarkerOutcome::Absent));
    assert_ne!(PendingRestart::path("/i"), PendingRestart::temporary_path("/i"));
    assert!(PendingRestart::path("/i").starts_with("/i/"));
}

#[test]
fn unparseable_marker_is_discarded() {
    assert!(matches!(PendingRestart::take(true, None), MarkerOutcome::Discard));
}

// The relay.

fn message(id: usize) -> InboundMessage {
    InboundMessage { id: id.to_string(), conversation_id: "conv".to_string(), content: String::new() }
}

#[test]
fn enqueue_does_not_block_on_full_channel_queue() {
    let mut relay = spawn();
    // Nothing consumes the channel queue, so everything buffers in the relay.
    for id in 0..200 {
        relay.send(message(id)).expect("relay accepts while alive");
    }
    assert_eq!(relay.queue.len(), 200);
}

#[test]
fn preserves_fifo_order_through_pressure() {
    let mut relay = spawn();
    for id in 0..50 {
        relay.send(message(id)).expect("relay accepts while alive");
    }
    for expected in 0..50 {
        let received = relay.forward().expect("message delivered");
        assert_eq!(received.message.id, expected.to_string());
    }
    assert!(relay.forward().is_none());
}

#[test]
fn send_fails_once_channel_receiver_is_gone() {
    let mut relay = spawn();
    relay.close();
    assert!(relay.send(message(1)).is_err(), "relay should reject sends after the channel receiver dropped");
}

#[test]
fn returns_message_on_relay_shutdown() {
    let mut relay = spawn();
    relay.close();
    match relay.send(message(7)) {
        Ok(_) => panic!("the relay is closed"),
        Err(error) => {
            assert!(!error.message().is_empty());
            let RelaySendError(returned) = error;
            assert_eq!(returned.id, "7");
        }
    }
}

#[test]
fn pressure_is_warned_of_once_per_level() {
    let mut relay = spawn();
    let mut warnings = 0;
    for id in 0..(PRESSURE_WARN_DEPTH + 1) {
        if relay.send(message(id)).unwrap() {
            warnings += 1;
        }
    }
    assert_eq!(warnings, 1);
}

// Process control.

#[test]
fn prune_dead_channels_removes_stale_entries() {
    let mut registry = ProcessControlRegistry::new();
    let registration_id = registry.register_channel("channel-1");
    assert_eq!(registry.prune_dead_channels(&vec![]), 1);
    assert!(!registry.unregister_channel("channel-1", registration_id));
}

#[test]
fn stale_channel_entry_cleanup_only_removes_matching_registration_id() {
    let mut registry = ProcessControlRegistry::new();
    let stale_registration_id = registry.register_channel("channel-stale-race");
    let active_registration_id = registry.register_channel("channel-stale-race");

    assert!(!registry.remove_stale_channel_if_matches("channel-stale-race", stale_registration_id));
    assert!(!registry.unregister_channel("channel-stale-race", stale_registration_id));
    assert!(registry.unregister_channel("channel-stale-race", active_registration_id));
}

#[test]
fn cancel_missing_entries_is_idempotent_not_found() {
    let mut registry = ProcessControlRegistry::new();
    assert_eq!(
        registry.cancel_channel_worker("missing-channel", "w", "test", &vec![]).unwrap_err(),
        ControlActionResult::NotFound
    );
    assert_eq!(
        registry.cancel_channel_branch("missing-channel", "b", "test", &vec![]).unwrap_err(),
        ControlActionResult::NotFound
    );
}

#[test]
fn cancel_stale_channel_entry_prunes_then_returns_not_found() {
    let mut registry = ProcessControlRegistry::new();
    let registration_id = registry.register_channel("stale-channel");
    assert_eq!(
        registry.cancel_channel_worker("stale-channel", "w", "test", &vec![]).unwrap_err(),
        ControlActionResult::NotFound
    );
    assert!(
        !registry.unregister_channel("stale-channel", registration_id),
        "stale entry should be pruned during cancellation retry path"
    );
}

#[test]
fn a_live_channel_is_cancelled_through_its_handle() {
    let mut registry = ProcessControlRegistry::default();
    let handle = registry.register_channel("live");
    let call = registry.cancel_channel_branch("live", "b1", "stop", &vec![handle]).unwrap();
    assert_eq!(call.handle, handle);
    assert_eq!(call.kind, ProcessKind::Branch);
    assert_eq!(call.process_id, "b1");
    assert_eq!(call.reason, "stop");
    assert_eq!(registry.channel_handle("live", &vec![handle]), Some(handle));
}

// Maintenance.

#[test]
fn maintenance_runs_at_least_a_minute_apart() {
    assert_eq!(janitor_interval(5), 60);
    assert_eq!(janitor_interval(3600), 3600);
    assert_eq!(report_pass(PassOutcome::TimedOut), PassReport::WarnTimedOut);
    assert_eq!(report_pass(PassOutcome::Failed), PassReport::WarnFailed);
    assert_eq!(report_pass(PassOutcome::Completed), PassReport::Silent);
    assert_eq!(retention_days(None, 14), 14);
    assert_eq!(retention_days(Some(3), 14), 3);
}
