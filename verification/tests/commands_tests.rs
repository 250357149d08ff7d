use meeting_minutes_automator::audio_device_adapter::AudioDeviceEvent;
use meeting_minutes_automator::commands::{
    batch_ready, cancel_reconnection, device_event_notice, get_platform_info, ipc_reader_step, mask_text,
    model_change_message, model_change_reason_label, multi_started_message, plan_ipc_event,
    plan_recording_start, stop_recording_reply, transcript_logging_enabled, validate_multi_input_device_ids,
    validate_multi_input_request, IpcEventAction, IpcEventFields, ReaderAction, DEFAULT_LOG_MASK_SALT,
};
use meeting_minutes_automator::ipc_protocol::IpcMessage;
use meeting_minutes_automator::reconnection_manager::{CancelReason, ReconnectionManager};
use sha2::{Digest, Sha256};

fn ids(v: &[&str]) -> Vec<String> {
    v.iter().map(|s| s.to_string()).collect()
}

#[test]
fn test_model_change_reason_translation() {
    let reason_map = vec![
        ("cpu_high", "CPU負荷"),
        ("memory_high", "メモリ不足"),
        ("memory_critical", "メモリ緊急"),
        ("manual_switch", "手動切り替え"),
        ("unknown_reason", "unknown_reason"),
    ];
    for (reason, expected_japanese) in reason_map {
        let translated = model_change_reason_label(reason);
        assert_eq!(translated, expected_japanese);
    }
}

#[test]
fn test_multi_input_validation_empty() {
    let device_ids: Vec<String> = vec![];
    let result = validate_multi_input_device_ids(&device_ids);
    assert!(result.is_err());
    assert!(result.unwrap_err().contains("At least one"));
}

#[test]
fn test_multi_input_validation_max_2() {
    let device_ids = ids(&["mic-1", "loopback-1", "mic-2"]);
    let result = validate_multi_input_device_ids(&device_ids);
    assert!(result.is_err());
    assert!(result.unwrap_err().contains("Maximum 2 inputs"));
}

#[test]
fn test_multi_input_validation_single_device_ok() {
    let device_ids = ids(&["mic-1"]);
    let result = validate_multi_input_device_ids(&device_ids);
    assert!(result.is_ok());
}

#[test]
fn test_multi_input_validation_two_devices_ok() {
    let device_ids = ids(&["mic-1", "loopback-1"]);
    let result = validate_multi_input_device_ids(&device_ids);
    assert!(result.is_ok());
    assert_eq!(device_ids.len(), 2);
}

#[test]
fn too_many_devices_message_is_exact() {
    let result = validate_multi_input_device_ids(&ids(&["a", "b", "c"]));
    assert_eq!(result.unwrap_err(), "Maximum 2 inputs supported, got 3. (STTMIX-CON-005)");
    assert_eq!(
        validate_multi_input_device_ids(&[]).unwrap_err(),
        "At least one device ID must be provided"
    );
}

#[test]
fn multi_input_request_is_macos_only() {
    assert_eq!(
        validate_multi_input_request("linux", &ids(&["a"])).unwrap_err(),
        "Multi-input recording is only supported on macOS (STTMIX-CON-004)"
    );
    assert!(validate_multi_input_request("macos", &ids(&["a", "b"])).is_ok());
    assert_eq!(multi_started_message(2), "Multi-input recording started with 2 device(s)");
}

#[test]
fn model_change_notification_text() {
    assert_eq!(model_change_message("medium", "base", "cpu_high"), "モデル変更: medium → base (理由: CPU負荷)");
    assert_eq!(model_change_message("a", "b", "other"), "モデル変更: a → b (理由: other)");
}

fn fields() -> IpcEventFields {
    IpcEventFields {
        request_id: None,
        text: None,
        low_confidence: false,
        old_model: None,
        new_model: None,
        reason: None,
    }
}

#[test]
fn test_model_change_event_schema_valid() {
    let f = IpcEventFields {
        old_model: Some("medium".to_string()),
        new_model: Some("base".to_string()),
        reason: Some("cpu_high".to_string()),
        ..fields()
    };
    match plan_ipc_event("model_change", &f) {
        IpcEventAction::ModelChange { old_model, new_model, reason, message } => {
            assert_eq!(old_model, "medium");
            assert_eq!(new_model, "base");
            assert_eq!(reason, "cpu_high");
            assert_eq!(message, "モデル変更: medium → base (理由: CPU負荷)");
        }
        other => panic!("unexpected {:?}", other),
    }
}

#[test]
fn test_model_change_event_schema_missing_old_model() {
    let f = IpcEventFields { new_model: Some("base".to_string()), reason: Some("cpu_high".to_string()), ..fields() };
    assert_eq!(
        plan_ipc_event("model_change", &f),
        IpcEventAction::ModelChangeInvalid { missing_old_model: true, missing_new_model: false, missing_reason: false }
    );
}

#[test]
fn test_model_change_event_schema_missing_new_model() {
    let f = IpcEventFields { old_model: Some("medium".to_string()), reason: Some("cpu_high".to_string()), ..fields() };
    assert_eq!(
        plan_ipc_event("model_change", &f),
        IpcEventAction::ModelChangeInvalid { missing_old_model: false, missing_new_model: true, missing_reason: false }
    );
}

#[test]
fn test_model_change_event_schema_missing_reason() {
    let f = IpcEventFields { old_model: Some("medium".to_string()), new_model: Some("base".to_string()), ..fields() };
    assert_eq!(
        plan_ipc_event("model_change", &f),
        IpcEventAction::ModelChangeInvalid { missing_old_model: false, missing_new_model: false, missing_reason: true }
    );
}

#[test]
fn transcripts_are_forwarded_filtered_or_ignored() {
    let f = IpcEventFields { text: Some("hello".to_string()), request_id: Some("r1".to_string()), ..fields() };
    assert_eq!(
        plan_ipc_event("partial_text", &f),
        IpcEventAction::Transcript { request_id: "r1".to_string(), text: "hello".to_string(), is_partial: true }
    );
    assert_eq!(
        plan_ipc_event("final_text", &IpcEventFields { request_id: None, ..f.clone() }),
        IpcEventAction::Transcript { request_id: "unknown".to_string(), text: "hello".to_string(), is_partial: false }
    );
    assert_eq!(
        plan_ipc_event("final_text", &IpcEventFields { low_confidence: true, ..f.clone() }),
        IpcEventAction::TranscriptFiltered { request_id: "r1".to_string(), is_partial: false }
    );
    assert_eq!(plan_ipc_event("partial_text", &fields()), IpcEventAction::Ignored);
    assert_eq!(plan_ipc_event("speech_start", &fields()), IpcEventAction::SpeechStart { request_id: "unknown".to_string() });
    assert_eq!(plan_ipc_event("speech_end", &f), IpcEventAction::SpeechEnd { request_id: "r1".to_string() });
    assert_eq!(plan_ipc_event("no_speech", &f), IpcEventAction::NoSpeech { request_id: "r1".to_string() });
    assert_eq!(plan_ipc_event("bogus", &f), IpcEventAction::Unknown { event_type: "bogus".to_string() });
}

#[test]
fn mask_text_hashes_unless_logging_is_on() {
    assert_eq!(mask_text("こんにちは", "salt", true), "こんにちは");
    let masked = mask_text("こんにちは", DEFAULT_LOG_MASK_SALT, false);
    let mut hasher = Sha256::new();
    hasher.update(DEFAULT_LOG_MASK_SALT.as_bytes());
    hasher.update("こんにちは".as_bytes());
    let digest = hasher.finalize();
    let expected = format!("len=5 hash={}", hex::encode(&digest[..8]));
    assert_eq!(masked, expected);
    assert!(masked.starts_with("len=5 hash="));
    assert_eq!(masked.len(), "len=5 hash=".len() + 16);
}

#[test]
fn transcript_logging_setting() {
    assert!(transcript_logging_enabled(Some("1")));
    assert!(transcript_logging_enabled(Some("TRUE")));
    assert!(transcript_logging_enabled(Some("On")));
    assert!(!transcript_logging_enabled(Some("yes")));
    assert!(!transcript_logging_enabled(Some("")));
    assert!(!transcript_logging_enabled(None));
}

#[test]
fn recording_start_plan_single_mode() {
    let plan = plan_recording_start("mic-1", false, &vec![], &ids(&["mic-1", "x"]), true).unwrap();
    assert_eq!(plan.device_ids, ids(&["mic-1"]));
    assert_eq!(plan.valid_ids, ids(&["mic-1"]));
    assert!(plan.invalid_ids.is_empty());
    assert_eq!(plan.primary_device_id, "mic-1");
    assert!(!plan.multi);

    let err = plan_recording_start("nope", false, &vec![], &ids(&["mic-1"]), true).unwrap_err();
    assert_eq!(err, "Invalid device ID(s): [\"nope\"]. Available: [\"mic-1\"]");
}

#[test]
fn recording_start_plan_multi_mode() {
    let selected = ids(&["gone", "mic-1"]);
    let plan = plan_recording_start("ignored", true, &selected, &ids(&["mic-1"]), true).unwrap();
    assert_eq!(plan.device_ids, selected);
    assert_eq!(plan.valid_ids, ids(&["mic-1"]));
    assert_eq!(plan.invalid_ids, ids(&["gone"]));
    assert_eq!(plan.primary_device_id, "mic-1");

    let err = plan_recording_start("ignored", true, &selected, &ids(&["mic-1"]), false).unwrap_err();
    assert_eq!(err, "Invalid device ID(s): [\"gone\"]. Available: [\"mic-1\"]");

    let err = plan_recording_start("x", true, &vec![], &ids(&["mic-1"]), true).unwrap_err();
    assert_eq!(err, "At least one device ID must be provided");

    let err = plan_recording_start("x", true, &ids(&["a", "b", "c"]), &ids(&["a"]), true).unwrap_err();
    assert_eq!(err, "Maximum 2 inputs supported, got 3. (STTMIX-CON-005)");
}

#[test]
fn sender_batches_from_125_ms_of_audio() {
    assert!(!batch_ready(3999));
    assert!(batch_ready(4000));
}

#[test]
fn stop_and_cancel_replies() {
    assert_eq!(stop_recording_reply(true).unwrap(), "Recording stopped");
    assert_eq!(stop_recording_reply(false).unwrap_err(), "Not recording");

    let mut mgr = ReconnectionManager::new();
    let mut reason = None;
    let (reply, job) = cancel_reconnection(&mut mgr, &mut reason);
    assert_eq!(reply, "No reconnection in progress");
    assert!(job.is_none());
    assert_eq!(reason, None);

    let (id, _) = mgr.start_job("mic".to_string(), &mut None);
    let (reply, job) = cancel_reconnection(&mut mgr, &mut reason);
    assert_eq!(reply, "Reconnection cancelled");
    assert_eq!(job.unwrap().id, id);
    assert_eq!(reason, Some(CancelReason::UserRequest));
    assert!(!mgr.is_reconnecting());
}

#[test]
fn platform_info() {
    let p = get_platform_info("macos");
    assert!(p.multi_input_supported);
    let p = get_platform_info("linux");
    assert_eq!(p.os, "linux");
    assert!(!p.multi_input_supported);
}

#[test]
fn reader_reacts_to_versions_and_kinds() {
    let event = IpcMessage::Event {
        version: "1.0".to_string(),
        event_type: "partial_text".to_string(),
        data: serde_json::Value::Null,
    };
    assert_eq!(ipc_reader_step(&event), (ReaderAction::HandleEvent, false));
    let minor = IpcMessage::Event {
        version: "1.3".to_string(),
        event_type: "x".to_string(),
        data: serde_json::Value::Null,
    };
    assert_eq!(ipc_reader_step(&minor), (ReaderAction::HandleEvent, true));
    let major = IpcMessage::Event {
        version: "2.0".to_string(),
        event_type: "x".to_string(),
        data: serde_json::Value::Null,
    };
    assert_eq!(ipc_reader_step(&major), (ReaderAction::StopOnMajorMismatch, false));
    let bad = IpcMessage::Event { version: "x".to_string(), event_type: "x".to_string(), data: serde_json::Value::Null };
    assert_eq!(ipc_reader_step(&bad), (ReaderAction::StopOnMalformedVersion, false));
    let err = IpcMessage::Error {
        id: "1".to_string(),
        version: "1.0".to_string(),
        error_code: "E".to_string(),
        error_message: "m".to_string(),
        recoverable: true,
    };
    assert_eq!(ipc_reader_step(&err), (ReaderAction::StopOnSidecarError, false));
    let resp = IpcMessage::Response { id: "1".to_string(), version: "1.0".to_string(), result: serde_json::Value::Null };
    assert_eq!(ipc_reader_step(&resp), (ReaderAction::StopOnUnexpectedMessage, false));
}

#[test]
fn device_event_notices() {
    let n = device_event_notice(&AudioDeviceEvent::StreamError("boom".to_string()));
    assert_eq!(n.kind, "stream_error");
    assert_eq!(n.message, "音声ストリームエラー: boom");
    assert!(!n.start_reconnection);
    let n = device_event_notice(&AudioDeviceEvent::Stalled { elapsed_ms: 1500 });
    assert_eq!(n.kind, "stalled");
    assert_eq!(n.elapsed_ms, Some(1500));
    assert_eq!(n.message, "音声デバイスが応答しません");
    let n = device_event_notice(&AudioDeviceEvent::DeviceGone { device_id: "mic".to_string() });
    assert_eq!(n.kind, "device_gone");
    assert_eq!(n.device_id, Some("mic".to_string()));
    assert_eq!(n.message, "音声デバイスが切断されました");
    assert!(n.start_reconnection);
}
