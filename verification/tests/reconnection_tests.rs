use meeting_minutes_automator::reconnection_manager::{
    cancel_reason_label, set_cancel_reason_priority, CancelReason, ReconnectAction, ReconnectEvent,
    ReconnectTask, ReconnectionManager, ReconnectionResult, MAX_RETRIES, RETRY_DELAY_MS,
};

#[test]
fn cancel_reason_priority_order() {
    assert!(CancelReason::NewJob.priority() > CancelReason::UserRequest.priority());
    assert!(CancelReason::UserRequest.priority() > CancelReason::UserManualResume.priority());

    let mut reason = None;
    set_cancel_reason_priority(&mut reason, CancelReason::UserManualResume);
    assert_eq!(reason, Some(CancelReason::UserManualResume));
    set_cancel_reason_priority(&mut reason, CancelReason::NewJob);
    assert_eq!(reason, Some(CancelReason::NewJob));
    set_cancel_reason_priority(&mut reason, CancelReason::UserRequest);
    assert_eq!(reason, Some(CancelReason::NewJob));
}

#[test]
fn labels_and_event_names() {
    assert_eq!(cancel_reason_label(Some(CancelReason::UserRequest)), "user_cancel");
    assert_eq!(cancel_reason_label(Some(CancelReason::UserManualResume)), "user_manual_resume");
    assert_eq!(cancel_reason_label(Some(CancelReason::NewJob)), "new_disconnect_event");
    assert_eq!(cancel_reason_label(None), "unknown");
    let r = ReconnectionResult::Success { device_id: "d".to_string(), attempts: 1 };
    assert_eq!(r.event_name(), "device_reconnect_success");
    assert_eq!(MAX_RETRIES, 3);
    assert_eq!(RETRY_DELAY_MS, 5000);
}

#[test]
fn new_job_replaces_old_and_old_cleanup_keeps_new() {
    let mut m = ReconnectionManager::new();
    assert!(!m.is_reconnecting());
    let mut reason = None;
    let (first, prev) = m.start_job("mic".to_string(), &mut reason);
    assert!(prev.is_none());
    assert_eq!(reason, None);
    let mut first_reason = Some(CancelReason::UserRequest);
    let (second, prev) = m.start_job("mic".to_string(), &mut first_reason);
    assert_eq!(prev.unwrap().id, first);
    assert_eq!(first_reason, Some(CancelReason::NewJob));
    assert_eq!(second, first + 1);
    assert_ne!(first, second);
    assert!(!m.finish_job(first));
    assert_eq!(m.current_job_id(), Some(second));
    assert!(m.finish_job(second));
    assert!(!m.is_reconnecting());
}

fn flags_ok() -> ReconnectEvent {
    ReconnectEvent::Flags { cancel_flag: false, user_recording: false, pending_reason: None }
}

fn wait_ok() -> ReconnectEvent {
    ReconnectEvent::WaitEnded { interrupted: false, cancel_flag: false, pending_reason: None }
}

#[test]
fn succeeds_on_second_attempt() {
    let mut t = ReconnectTask::new("mic".to_string());
    assert_eq!(t.first_action(), ReconnectAction::CheckFlags { attempt: 1 });
    assert_eq!(t.step(flags_ok()), ReconnectAction::Wait);
    assert_eq!(t.step(wait_ok()), ReconnectAction::ProbeDevice);
    assert_eq!(t.step(ReconnectEvent::DeviceProbe { exists: false }), ReconnectAction::CheckFlags { attempt: 2 });
    assert_eq!(t.step(flags_ok()), ReconnectAction::Wait);
    assert_eq!(t.step(wait_ok()), ReconnectAction::ProbeDevice);
    assert_eq!(t.step(ReconnectEvent::DeviceProbe { exists: true }), ReconnectAction::StartRecording);
    assert_eq!(
        t.step(ReconnectEvent::StartResult { error: None }),
        ReconnectAction::Finish { result: ReconnectionResult::Success { device_id: "mic".to_string(), attempts: 2 } }
    );
}

#[test]
fn fails_after_three_attempts() {
    let mut t = ReconnectTask::new("mic".to_string());
    let mut last = t.first_action();
    for attempt in 1..=3u32 {
        assert_eq!(last, ReconnectAction::CheckFlags { attempt });
        assert_eq!(t.step(flags_ok()), ReconnectAction::Wait);
        assert_eq!(t.step(wait_ok()), ReconnectAction::ProbeDevice);
        last = t.step(ReconnectEvent::DeviceProbe { exists: false });
    }
    assert_eq!(
        last,
        ReconnectAction::Finish {
            result: ReconnectionResult::Failed {
                device_id: "mic".to_string(),
                attempts: 3,
                last_error: "Device not available after all retries".to_string(),
            }
        }
    );
}

#[test]
fn start_error_is_reported_after_last_attempt() {
    let mut t = ReconnectTask::new("mic".to_string());
    let mut action = t.first_action();
    for _ in 0..3 {
        assert!(matches!(action, ReconnectAction::CheckFlags { .. }));
        t.step(flags_ok());
        t.step(wait_ok());
        t.step(ReconnectEvent::DeviceProbe { exists: true });
        action = t.step(ReconnectEvent::StartResult { error: Some("busy".to_string()) });
    }
    assert_eq!(
        action,
        ReconnectAction::Finish {
            result: ReconnectionResult::Failed {
                device_id: "mic".to_string(),
                attempts: 3,
                last_error: "busy".to_string(),
            }
        }
    );
}

#[test]
fn cancellation_paths() {
    let mut t = ReconnectTask::new("mic".to_string());
    let a = t.step(ReconnectEvent::Flags {
        cancel_flag: true,
        user_recording: false,
        pending_reason: Some(CancelReason::UserRequest),
    });
    assert_eq!(
        a,
        ReconnectAction::Finish {
            result: ReconnectionResult::Cancelled {
                device_id: "mic".to_string(),
                attempt: 1,
                reason: Some(CancelReason::UserRequest),
            }
        }
    );

    let mut t = ReconnectTask::new("mic".to_string());
    let a = t.step(ReconnectEvent::Flags { cancel_flag: false, user_recording: true, pending_reason: None });
    assert_eq!(
        a,
        ReconnectAction::Finish {
            result: ReconnectionResult::Cancelled {
                device_id: "mic".to_string(),
                attempt: 1,
                reason: Some(CancelReason::UserManualResume),
            }
        }
    );

    let mut t = ReconnectTask::new("mic".to_string());
    t.step(flags_ok());
    let a = t.step(ReconnectEvent::WaitEnded {
        interrupted: true,
        cancel_flag: false,
        pending_reason: Some(CancelReason::NewJob),
    });
    assert_eq!(
        a,
        ReconnectAction::Finish {
            result: ReconnectionResult::Cancelled {
                device_id: "mic".to_string(),
                attempt: 1,
                reason: Some(CancelReason::NewJob),
            }
        }
    );
}

#[test]
fn cancelling_a_job_offers_user_request_to_its_reason() {
    let mut m = ReconnectionManager::new();
    let mut none = None;
    assert!(m.cancel(&mut none).is_none());
    assert_eq!(none, None);

    m.start_job("mic".to_string(), &mut None);
    let mut reason = Some(CancelReason::UserManualResume);
    assert!(m.cancel(&mut reason).is_some());
    assert_eq!(reason, Some(CancelReason::UserRequest));
    assert!(!m.is_reconnecting());

    m.start_job("mic".to_string(), &mut None);
    let mut reason = Some(CancelReason::NewJob);
    assert!(m.cancel(&mut reason).is_some());
    assert_eq!(reason, Some(CancelReason::NewJob));
}
