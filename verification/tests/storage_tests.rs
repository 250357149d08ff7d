use meeting_minutes_automator::storage::{
    classify_disk_space, encode_samples, sort_sessions_newest_first, str_lex_lt, wav_header, DiskSpaceStatus,
    LocalStorageService, SessionMetadata, StorageError, FIVE_HUNDRED_MB, ONE_GB, WAV_HEADER_LEN,
};
use std::path::Path;

fn service() -> LocalStorageService {
    LocalStorageService::new("/tmp/mma-data".to_string())
}

fn is_uuid_v4(id: &str) -> bool {
    let parts: Vec<&str> = id.split('-').collect();
    parts.len() == 5
        && parts[0].len() == 8
        && parts[1].len() == 4
        && parts[2].len() == 4
        && parts[3].len() == 4
        && parts[4].len() == 12
}

#[test]
fn test_generate_session_id() {
    let service = service();
    let session_id = service.generate_session_id();
    let parts: Vec<&str> = session_id.split('-').collect();
    assert_eq!(parts.len(), 5, "UUID should have 5 parts separated by hyphens");
    assert_eq!(parts[0].len(), 8, "First part should be 8 chars");
    assert_eq!(parts[1].len(), 4, "Second part should be 4 chars");
    assert_eq!(parts[2].len(), 4, "Third part should be 4 chars");
    assert_eq!(parts[3].len(), 4, "Fourth part should be 4 chars");
    assert_eq!(parts[4].len(), 12, "Fifth part should be 12 chars");
    assert_eq!(&session_id[14..15], "4");
}

#[test]
fn test_generate_session_id_uniqueness() {
    let service = service();
    let id1 = service.generate_session_id();
    let id2 = service.generate_session_id();
    assert_ne!(id1, id2, "Generated UUIDs should be unique");
}

#[test]
fn test_get_session_dir() {
    let service = service();
    let session_id = "path-test-session";
    let session_path = service.get_session_dir(session_id);
    let expected_path = Path::new("/tmp/mma-data").join("recordings").join(session_id);
    assert_eq!(session_path, expected_path.to_string_lossy());
}

#[test]
fn session_file_is_inside_the_session_dir() {
    let service = service();
    let p = service.session_file("s1", "audio.wav");
    let expected = Path::new("/tmp/mma-data").join("recordings").join("s1").join("audio.wav");
    assert_eq!(p, expected.to_string_lossy());
}

#[test]
fn test_check_disk_space_warning() {
    let status = DiskSpaceStatus::Warning;
    assert_eq!(status.description(), "ディスク容量が不足しています");
}

#[test]
fn test_check_disk_space_critical() {
    let status = DiskSpaceStatus::Critical;
    assert_eq!(status.description(), "ディスク容量が不足しているため録音できません");
}

#[test]
fn disk_space_thresholds() {
    assert_eq!(classify_disk_space(0), DiskSpaceStatus::Critical);
    assert_eq!(classify_disk_space(FIVE_HUNDRED_MB - 1), DiskSpaceStatus::Critical);
    assert_eq!(classify_disk_space(FIVE_HUNDRED_MB), DiskSpaceStatus::Warning);
    assert_eq!(classify_disk_space(ONE_GB - 1), DiskSpaceStatus::Warning);
    assert_eq!(classify_disk_space(ONE_GB), DiskSpaceStatus::Sufficient);
    assert_eq!(DiskSpaceStatus::Sufficient.description(), "十分な容量があります");
}

#[test]
fn test_begin_session() {
    let storage = service();
    let handle = storage.begin_session(10 * ONE_GB).unwrap();
    assert!(!handle.session_id.is_empty());
    assert!(is_uuid_v4(&handle.session_id));
    assert_eq!(handle.session_dir, storage.get_session_dir(&handle.session_id));
    assert!(handle.disk_status == DiskSpaceStatus::Sufficient || handle.disk_status == DiskSpaceStatus::Warning);
}

#[test]
fn test_session_handle_disk_warning() {
    let storage = service();
    for free in [ONE_GB, FIVE_HUNDRED_MB] {
        let handle = storage.begin_session(free).unwrap();
        let needs_warning = handle.needs_disk_warning();
        assert_eq!(needs_warning, handle.disk_status == DiskSpaceStatus::Warning);
        if handle.disk_status == DiskSpaceStatus::Warning {
            let msg = handle.disk_warning_message();
            assert!(msg.is_some());
            assert!(msg.unwrap().contains("1GB未満"));
        } else {
            assert!(handle.disk_warning_message().is_none());
        }
    }
}

#[test]
fn begin_session_refused_under_500_mib() {
    let storage = service();
    let err = storage.begin_session(FIVE_HUNDRED_MB - 1).unwrap_err();
    assert_eq!(err, StorageError::InsufficientDiskSpace);
    assert_eq!(err.message(), "ディスク容量が不足しているため録音できません（残り500MB未満）");
}

fn meta(id: &str, start: &str) -> SessionMetadata {
    SessionMetadata {
        session_id: id.to_string(),
        start_time: start.to_string(),
        end_time: start.to_string(),
        duration_seconds: 0,
        audio_device: "default".to_string(),
        model_size: "small".to_string(),
        total_segments: 0,
        total_characters: 0,
    }
}

#[test]
fn test_list_sessions() {
    let sessions = vec![
        meta("a", "2025-10-13T10:00:00Z"),
        meta("b", "2025-10-13T11:00:00Z"),
        meta("c", "2025-10-13T09:00:00Z"),
    ];
    let sorted = sort_sessions_newest_first(sessions);
    assert_eq!(sorted.len(), 3);
    assert_eq!(sorted[0].start_time, "2025-10-13T11:00:00Z");
    assert_eq!(sorted[1].start_time, "2025-10-13T10:00:00Z");
    assert_eq!(sorted[2].start_time, "2025-10-13T09:00:00Z");
}

#[test]
fn test_list_sessions_empty() {
    assert!(sort_sessions_newest_first(Vec::new()).is_empty());
}

#[test]
fn sort_keeps_equal_start_times_in_order() {
    let sorted = sort_sessions_newest_first(vec![meta("x", "t1"), meta("y", "t2"), meta("z", "t1")]);
    let ids: Vec<&str> = sorted.iter().map(|m| m.session_id.as_str()).collect();
    assert_eq!(ids, vec!["y", "x", "z"]);
}

#[test]
fn lexicographic_order_matches_str_ordering() {
    let samples = ["", "a", "ab", "b", "B", "日本", "2025-10-13T10:00:00Z", "2025-10-13T09:59:59Z"];
    for a in samples {
        for b in samples {
            assert_eq!(str_lex_lt(a, b), a < b, "{:?} < {:?}", a, b);
        }
    }
}

#[test]
fn wav_header_layout() {
    let h = wav_header(0);
    assert_eq!(h.len(), WAV_HEADER_LEN);
    assert_eq!(&h[0..4], b"RIFF");
    assert_eq!(&h[8..12], b"WAVE");
    assert_eq!(&h[12..16], b"fmt ");
    assert_eq!(u16::from_le_bytes([h[20], h[21]]), 1);
    assert_eq!(u16::from_le_bytes([h[22], h[23]]), 1);
    assert_eq!(u32::from_le_bytes([h[24], h[25], h[26], h[27]]), 16000);
    assert_eq!(u16::from_le_bytes([h[34], h[35]]), 16);
    assert_eq!(&h[36..40], b"data");
}

#[test]
fn wav_header_sizes_for_five_samples() {
    // Five samples written: RIFF size 46, data size 10.
    let h = wav_header(5);
    assert_eq!(&h[0..4], b"RIFF");
    assert_eq!(u32::from_le_bytes([h[4], h[5], h[6], h[7]]), 46);
    assert_eq!(u32::from_le_bytes([h[40], h[41], h[42], h[43]]), 10);
    let data = encode_samples(&[100, 200, 300, 400, 500]);
    assert_eq!(data.len(), 10);
}

#[test]
fn wav_sizes_for_one_second_of_audio() {
    let samples: Vec<i16> = (0..16000).map(|i| (i % 1000) as i16).collect();
    let data = encode_samples(&samples);
    assert_eq!(44 + data.len(), 44 + 16000 * 2);
    let h = wav_header(16000);
    assert_eq!(u32::from_le_bytes([h[40], h[41], h[42], h[43]]), 32000);
    assert_eq!(u32::from_le_bytes([h[28], h[29], h[30], h[31]]), 32000);
}

#[test]
fn encoded_samples_are_little_endian_twos_complement() {
    let samples = [0i16, 1, -1, i16::MAX, i16::MIN, 258];
    let bytes = encode_samples(&samples);
    let expected: Vec<u8> = samples.iter().flat_map(|s| s.to_le_bytes()).collect();
    assert_eq!(bytes, expected);
}
