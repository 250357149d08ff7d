//! Decisions behind the user-facing commands and the event loops that feed
//! the user interface: which devices a recording starts with, what a
//! sidecar event leads to, what a device event tells the user, how
//! transcripts are masked in logs, and how the reader of the sidecar's
//! output reacts to each message.
//!
//! The application performs the I/O (devices, sidecar pipes, WebSocket,
//! UI events) and asks these functions what to do.

use vstd::prelude::*;
use vstd::string::StringExecFns;
use vstd::string::StrSliceExecFns;
use vstd::string::StringSliceAdditionalSpecFns;
use crate::text::{decimal, push_decimal, str_eq, chars_of};
use crate::multi_input_settings::{ids_of, unavailable_ids};
use crate::ipc_protocol::{IpcMessage, VersionCompatibility, compatibility_kind, message_version};
use crate::audio_device_adapter::AudioDeviceEvent;
use crate::reconnection_manager::{CancelReason, JobInfo, ReconnectionManager, prioritized};

verus! {

/// Most inputs a multi-input recording may use.
pub const MAX_MULTI_INPUTS: usize = 2;

/// Fewest bytes of audio worth a batch to the sidecar (125 ms).
pub const MIN_BATCH_BYTES: usize = 4000;

/// Milliseconds between two batches of audio to the sidecar.
pub const BATCH_INTERVAL_MS: u64 = 250;

/// Salt of the transcript hash when none is configured.
pub const DEFAULT_LOG_MASK_SALT: &'static str = "meeting-minutes-automator";

/// Text of a refused empty device list.
pub open spec fn no_device_text() -> Seq<char> {
    "At least one device ID must be provided"@
}

/// Text of a refused over-long device list.
pub open spec fn too_many_text(n: nat) -> Seq<char> {
    "Maximum 2 inputs supported, got "@ + decimal(n) + ". (STTMIX-CON-005)"@
}

fn too_many_message(n: usize) -> (m: String)
    ensures
        m@ == too_many_text(n as nat),
{
    let mut m = String::from_str("Maximum 2 inputs supported, got ");
    push_decimal(&mut m, n as u64);
    m.append(". (STTMIX-CON-005)");
    m
}

/// The device count of a multi-input request: at least one, at most two.
pub fn validate_multi_input_device_ids(device_ids: &[String]) -> (r: Result<(), String>)
    ensures
        r is Ok <==> (1 <= device_ids@.len() <= MAX_MULTI_INPUTS),
        device_ids@.len() == 0 ==> (r matches Err(m) && m@ == no_device_text()),
        device_ids@.len() > MAX_MULTI_INPUTS ==> (r matches Err(m) && m@ == too_many_text(device_ids@.len())),
{
    if device_ids.len() == 0 {
        return Err(String::from_str("At least one device ID must be provided"));
    }
    if device_ids.len() > MAX_MULTI_INPUTS {
        return Err(too_many_message(device_ids.len()));
    }
    Ok(())
}

/// Text of a multi-input request on a system other than macOS.
pub open spec fn multi_platform_text() -> Seq<char> {
    "Multi-input recording is only supported on macOS (STTMIX-CON-004)"@
}

/// A multi-input request: only on macOS, then the device count is checked.
pub fn validate_multi_input_request(os: &str, device_ids: &[String]) -> (r: Result<(), String>)
    ensures
        os@ != "macos"@ ==> (r matches Err(m) && m@ == multi_platform_text()),
        os@ == "macos"@ ==> (r is Ok <==> (1 <= device_ids@.len() <= MAX_MULTI_INPUTS)),
        os@ == "macos"@ && device_ids@.len() == 0 ==> (r matches Err(m) && m@ == no_device_text()),
        os@ == "macos"@ && device_ids@.len() > MAX_MULTI_INPUTS ==> (r matches Err(m) && m@ == too_many_text(device_ids@.len())),
{
    if !str_eq(os, "macos") {
        return Err(String::from_str("Multi-input recording is only supported on macOS (STTMIX-CON-004)"));
    }
    validate_multi_input_device_ids(device_ids)
}

/// Reply to a started multi-input recording.
pub open spec fn multi_started_text(n: nat) -> Seq<char> {
    "Multi-input recording started with "@ + decimal(n) + " device(s)"@
}

/// Reply to a started multi-input recording with `n` devices.
pub fn multi_started_message(n: usize) -> (m: String)
    ensures
        m@ == multi_started_text(n as nat),
{
    let mut m = String::from_str("Multi-input recording started with ");
    push_decimal(&mut m, n as u64);
    m.append(" device(s)");
    m
}

// ============================================================================
// Starting a recording
// ============================================================================

/// What `format!("{:?}", list)` prints for a list of strings.
pub uninterp spec fn debug_list_text(items: Seq<Seq<char>>) -> Seq<char>;

/// `Debug` formatting of a `Vec<String>` (brackets, quoted and escaped
/// items); the result is named by `debug_list_text`.
#[verifier::external_body]
fn debug_list(items: &Vec<String>) -> (r: String)
    ensures
        r@ == debug_list_text(ids_of(items@)),
{
    format!("{:?}", items)
}

/// Text of a start refused for unknown devices.
pub open spec fn invalid_device_text(invalid: Seq<Seq<char>>, available: Seq<Seq<char>>) -> Seq<char> {
    "Invalid device ID(s): "@ + debug_list_text(invalid) + ". Available: "@ + debug_list_text(available)
}

/// The devices a recording is requested for: the chosen list in
/// multi-input mode, else the one device named by the command.
pub open spec fn requested_ids(device_id: Seq<char>, multi: bool, selected: Seq<Seq<char>>) -> Seq<Seq<char>> {
    if multi {
        selected
    } else {
        seq![device_id]
    }
}

/// The test "is among `ids`".
pub open spec fn among(ids: Seq<Seq<char>>) -> spec_fn(Seq<char>) -> bool {
    |x: Seq<char>| ids.contains(x)
}

/// The requested devices that are available, in request order.
pub open spec fn available_ids(requested: Seq<Seq<char>>, available: Seq<Seq<char>>) -> Seq<Seq<char>> {
    requested.filter(among(available))
}

/// How a validated recording starts.
#[derive(Debug)]
pub struct RecordingStartPlan {
    /// Every requested device, in request order.
    pub device_ids: Vec<String>,
    /// The requested devices that are available.
    pub valid_ids: Vec<String>,
    /// The requested devices that are not.
    pub invalid_ids: Vec<String>,
    /// The device recorded as selected: the first valid one.
    pub primary_device_id: String,
    /// Whether the multi-input mode is used.
    pub multi: bool,
}

fn contains_text(ids: &Vec<String>, id: &str) -> (b: bool)
    ensures
        b == ids_of(ids@).contains(id@),
{
    let mut i: usize = 0;
    while i < ids.len()
        invariant
            i <= ids@.len(),
            forall|j: int| 0 <= j < i ==> ids@[j]@ != id@,
        decreases ids@.len() - i,
    {
        if str_eq(ids[i].as_str(), id) {
            assert(ids_of(ids@)[i as int] == id@);
            return true;
        }
        i = i + 1;
    }
    assert forall|j: int| 0 <= j < ids_of(ids@).len() implies ids_of(ids@)[j] != id@ by {}
    false
}

fn copy_ids(v: &Vec<String>) -> (r: Vec<String>)
    ensures
        ids_of(r@) == ids_of(v@),
{
    let mut r: Vec<String> = Vec::new();
    let mut i: usize = 0;
    while i < v.len()
        invariant
            i <= v@.len(),
            r@.len() == i,
            forall|k: int| 0 <= k < i ==> (#[trigger] r@[k])@ == v@[k]@,
        decreases v@.len() - i,
    {
        r.push(v[i].clone());
        i = i + 1;
    }
    assert(ids_of(r@) =~= ids_of(v@));
    r
}

/// Split `requested` into the available and the unavailable devices.
fn partition_ids(requested: &Vec<String>, available: &Vec<String>) -> (r: (Vec<String>, Vec<String>))
    ensures
        ids_of(r.0@) == available_ids(ids_of(requested@), ids_of(available@)),
        ids_of(r.1@) == unavailable_ids(ids_of(requested@), ids_of(available@)),
{
    let ghost req = ids_of(requested@);
    let ghost avail = ids_of(available@);
    let mut valid: Vec<String> = Vec::new();
    let mut invalid: Vec<String> = Vec::new();
    let mut i: usize = 0;
    while i < requested.len()
        invariant
            req == ids_of(requested@),
            avail == ids_of(available@),
            i <= requested@.len(),
            ids_of(valid@) == available_ids(req.take(i as int), avail),
            ids_of(invalid@) == unavailable_ids(req.take(i as int), avail),
        decreases requested@.len() - i,
    {
        let ghost vb = valid@;
        let ghost ib = invalid@;
        let id = requested[i].clone();
        assert(req.take(i + 1) =~= req.take(i as int).push(id@));
        proof {
            req.take(i as int).lemma_filter_push(id@, among(avail));
            req.take(i as int).lemma_filter_push(id@, crate::multi_input_settings::not_among(avail));
        }
        if contains_text(available, id.as_str()) {
            valid.push(id);
            assert(ids_of(valid@) =~= ids_of(vb).push(ids_of(valid@).last()));
        } else {
            invalid.push(id);
            assert(ids_of(invalid@) =~= ids_of(ib).push(ids_of(invalid@).last()));
        }
        i = i + 1;
    }
    assert(req.take(req.len() as int) =~= req);
    (valid, invalid)
}

/// Validate a recording request.
///
/// The devices are the chosen list in multi-input mode and the named device
/// otherwise.  The request is refused when there is no device, when more
/// than two are chosen in multi-input mode, when none of them is available,
/// and when some are unavailable unless partial failure is allowed (only
/// in multi-input mode).  The primary device is the first available one.
pub fn plan_recording_start(
    device_id: &str,
    multi_enabled: bool,
    selected_device_ids: &Vec<String>,
    available_device_ids: &Vec<String>,
    continue_on_partial_failure: bool,
) -> (r: Result<RecordingStartPlan, String>)
    ensures
        ({
            let req = requested_ids(device_id@, multi_enabled, ids_of(selected_device_ids@));
            let avail = ids_of(available_device_ids@);
            let valid = available_ids(req, avail);
            let invalid = unavailable_ids(req, avail);
            let allow_partial = multi_enabled && continue_on_partial_failure;
            &&& req.len() == 0 ==> (r matches Err(m) && m@ == no_device_text())
            &&& (req.len() > 0 && multi_enabled && req.len() > MAX_MULTI_INPUTS) ==> (r matches Err(m) && m@ == too_many_text(req.len()))
            &&& (req.len() > 0 && !(multi_enabled && req.len() > MAX_MULTI_INPUTS) && (valid.len() == 0 || (invalid.len() > 0 && !allow_partial)))
                ==> (r matches Err(m) && m@ == invalid_device_text(invalid, avail))
            &&& (req.len() > 0 && !(multi_enabled && req.len() > MAX_MULTI_INPUTS) && valid.len() > 0 && (invalid.len() == 0 || allow_partial))
                ==> (r matches Ok(p) && {
                    &&& ids_of(p.device_ids@) == req
                    &&& ids_of(p.valid_ids@) == valid
                    &&& ids_of(p.invalid_ids@) == invalid
                    &&& p.primary_device_id@ == valid[0]
                    &&& p.multi == multi_enabled
                })
        }),
{
    let device_ids: Vec<String> = if multi_enabled {
        copy_ids(selected_device_ids)
    } else {
        let mut v: Vec<String> = Vec::new();
        v.push(String::from_str(device_id));
        assert(ids_of(v@) =~= seq![device_id@]);
        v
    };
    if device_ids.len() == 0 {
        return Err(String::from_str("At least one device ID must be provided"));
    }
    if multi_enabled && device_ids.len() > MAX_MULTI_INPUTS {
        return Err(too_many_message(device_ids.len()));
    }
    let (valid_ids, invalid_ids) = partition_ids(&device_ids, available_device_ids);
    let allow_partial_failure = multi_enabled && continue_on_partial_failure;
    if valid_ids.len() == 0 || (invalid_ids.len() > 0 && !allow_partial_failure) {
        let mut m = String::from_str("Invalid device ID(s): ");
        let a = debug_list(&invalid_ids);
        m.append(a.as_str());
        m.append(". Available: ");
        let b = debug_list(available_device_ids);
        m.append(b.as_str());
        return Err(m);
    }
    let primary_device_id = valid_ids[0].clone();
    assert(ids_of(valid_ids@)[0] == valid_ids@[0]@);
    Ok(RecordingStartPlan { device_ids, valid_ids, invalid_ids, primary_device_id, multi: multi_enabled })
}

/// Whether enough audio is buffered to send a batch.
pub fn batch_ready(bytes_read: usize) -> (b: bool)
    ensures
        b == (bytes_read >= MIN_BATCH_BYTES),
{
    bytes_read >= MIN_BATCH_BYTES
}

/// Reply of the stop command.
pub fn stop_recording_reply(is_recording: bool) -> (r: Result<String, String>)
    ensures
        is_recording ==> (r matches Ok(m) && m@ == "Recording stopped"@),
        !is_recording ==> (r matches Err(m) && m@ == "Not recording"@),
{
    if is_recording {
        Ok(String::from_str("Recording stopped"))
    } else {
        Err(String::from_str("Not recording"))
    }
}

/// Cancel the running reconnection job, if any.  `current_reason` is the
/// cancel reason of that job; it is offered `UserRequest`.  Returns the
/// reply and the job to stop.
pub fn cancel_reconnection(manager: &mut ReconnectionManager, current_reason: &mut Option<CancelReason>) -> (r: (
    String,
    Option<JobInfo>,
))
    ensures
        r.1 == old(manager)@.current_job,
        final(manager)@.current_job is None,
        final(manager)@.next_job_id == old(manager)@.next_job_id,
        old(manager)@.current_job is None ==> r.0@ == "No reconnection in progress"@ && *final(current_reason) == *old(
            current_reason,
        ),
        old(manager)@.current_job is Some ==> r.0@ == "Reconnection cancelled"@ && *final(current_reason) == prioritized(
            *old(current_reason),
            CancelReason::UserRequest,
        ),
{
    if !manager.is_reconnecting() {
        return (String::from_str("No reconnection in progress"), None);
    }
    let job = manager.cancel(current_reason);
    (String::from_str("Reconnection cancelled"), job)
}

/// Platform facts for the user interface.
#[derive(Debug, Clone)]
pub struct PlatformInfo {
    pub os: String,
    /// Multi-input recording exists on macOS only.
    pub multi_input_supported: bool,
}

/// Platform facts for the operating system `os`.
pub fn get_platform_info(os: &str) -> (p: PlatformInfo)
    ensures
        p.os@ == os@,
        p.multi_input_supported == (os@ == "macos"@),
{
    PlatformInfo { os: String::from_str(os), multi_input_supported: str_eq(os, "macos") }
}

// ============================================================================
// Masking transcripts in logs
// ============================================================================

/// SHA-256 digest of a byte string.
pub uninterp spec fn sha256_digest(data: Seq<u8>) -> Seq<u8>;

/// `sha2::Sha256::digest`: the 32-byte SHA-256 digest of `data`, named by
/// `sha256_digest`.
#[verifier::external_body]
fn sha256(data: &[u8]) -> (d: Vec<u8>)
    ensures
        d@ == sha256_digest(data@),
        d@.len() == 32,
{
    <sha2::Sha256 as sha2::Digest>::digest(data).to_vec()
}

/// Lower-case hexadecimal digit of a value below sixteen.
pub open spec fn hex_digit(n: int) -> char {
    seq!['0', '1', '2', '3', '4', '5', '6', '7', '8', '9', 'a', 'b', 'c', 'd', 'e', 'f'][n]
}

/// Lower-case hexadecimal text of bytes, high nibble first.
pub open spec fn hex_lower(b: Seq<u8>) -> Seq<char>
    decreases b.len(),
{
    if b.len() == 0 {
        Seq::empty()
    } else {
        hex_lower(b.drop_last()) + seq![hex_digit(b.last() as int / 16), hex_digit(b.last() as int % 16)]
    }
}

/// `hex::encode`: two lower-case hexadecimal digits per byte, high nibble
/// first.
#[verifier::external_body]
fn hex_encode(data: &[u8]) -> (s: String)
    ensures
        s@ == hex_lower(data@),
{
    hex::encode(data)
}

/// The log form of a transcript: the text itself when transcript logging
/// is on, else its length in characters and the first eight bytes of the
/// SHA-256 of salt and text, in hexadecimal.
pub open spec fn masked_text(text: &str, salt: &str, logging_enabled: bool) -> Seq<char> {
    if logging_enabled {
        text@
    } else {
        "len="@ + decimal(text@.len()) + " hash="@ + hex_lower(sha256_digest(salt.spec_bytes() + text.spec_bytes()).take(8))
    }
}

/// Mask a transcript for logging.
pub fn mask_text(text: &str, salt: &str, logging_enabled: bool) -> (r: String)
    ensures
        r@ == masked_text(text, salt, logging_enabled),
{
    if logging_enabled {
        return String::from_str(text);
    }
    let mut data = salt.as_bytes_vec();
    let tb = text.as_bytes_vec();
    let ghost sb = data@;
    let mut i: usize = 0;
    while i < tb.len()
        invariant
            i <= tb@.len(),
            data@ == sb + tb@.take(i as int),
        decreases tb@.len() - i,
    {
        data.push(tb[i]);
        assert(data@ =~= sb + tb@.take(i + 1));
        i = i + 1;
    }
    assert(tb@.take(tb@.len() as int) =~= tb@);
    let digest = sha256(data.as_slice());
    let mut prefix: Vec<u8> = Vec::new();
    let mut j: usize = 0;
    while j < 8
        invariant
            j <= 8,
            digest@.len() == 32,
            prefix@ == digest@.take(j as int),
        decreases 8 - j,
    {
        prefix.push(digest[j]);
        assert(prefix@ =~= digest@.take(j + 1));
        j = j + 1;
    }
    let hex = hex_encode(prefix.as_slice());
    let mut out = String::from_str("len=");
    push_decimal(&mut out, text.unicode_len() as u64);
    out.append(" hash=");
    out.append(hex.as_str());
    out
}

/// ASCII lower case of a character.
pub open spec fn ascii_lower(c: char) -> char {
    if 'A' <= c && c <= 'Z' {
        ((c as u32) + 32) as char
    } else {
        c
    }
}

/// Whether a `LOG_TRANSCRIPTS` setting turns transcript logging on: `1`,
/// `true` or `on`, in any ASCII case.
pub open spec fn transcript_logging_setting(value: Seq<char>) -> bool {
    let l = value.map_values(|c: char| ascii_lower(c));
    l == "1"@ || l == "true"@ || l == "on"@
}

fn ascii_lower_eq(c: char, t: char) -> (b: bool)
    requires
        !('A' <= t && t <= 'Z'),
    ensures
        b == (ascii_lower(c) == t),
{
    if 'A' <= c && c <= 'Z' {
        (c as u32) + 32 == (t as u32)
    } else {
        c == t
    }
}

fn lower_equals(v: &Vec<char>, target: &str) -> (b: bool)
    requires
        forall|i: int| 0 <= i < target@.len() ==> !('A' <= #[trigger] target@[i] && target@[i] <= 'Z'),
    ensures
        b == (v@.map_values(|c: char| ascii_lower(c)) == target@),
{
    let t = chars_of(target);
    if v.len() != t.len() {
        assert(v@.map_values(|c: char| ascii_lower(c)).len() != target@.len());
        return false;
    }
    let mut i: usize = 0;
    while i < v.len()
        invariant
            t@ == target@,
            v@.len() == t@.len(),
            forall|i: int| 0 <= i < target@.len() ==> !('A' <= #[trigger] target@[i] && target@[i] <= 'Z'),
            i <= v@.len(),
            forall|k: int| 0 <= k < i ==> ascii_lower(v@[k]) == t@[k],
        decreases v@.len() - i,
    {
        assert(!('A' <= target@[i as int] && target@[i as int] <= 'Z'));
        if !ascii_lower_eq(v[i], t[i]) {
            assert(v@.map_values(|c: char| ascii_lower(c))[i as int] != target@[i as int]);
            return false;
        }
        i = i + 1;
    }
    assert(v@.map_values(|c: char| ascii_lower(c)) =~= target@);
    true
}

/// Whether transcript logging is on, given the `LOG_TRANSCRIPTS` setting
/// (`None` when unset).
pub fn transcript_logging_enabled(value: Option<&str>) -> (b: bool)
    ensures
        b == (value matches Some(v) && transcript_logging_setting(v@)),
{
    match value {
        None => false,
        Some(v) => {
            proof {
                reveal_strlit("1");
                reveal_strlit("true");
                reveal_strlit("on");
            }
            let cs = chars_of(v);
            lower_equals(&cs, "1") || lower_equals(&cs, "true") || lower_equals(&cs, "on")
        },
    }
}

// ============================================================================
// Sidecar events
// ============================================================================

/// Text of a model change notification that lacks a field.
pub open spec fn model_change_invalid_text() -> Seq<char> {
    "モデル変更通知のデータ形式が不正です"@
}

/// How a model-change reason is shown to the user.
pub open spec fn reason_label(reason: Seq<char>) -> Seq<char> {
    if reason == "cpu_high"@ {
        "CPU負荷"@
    } else if reason == "memory_high"@ {
        "メモリ不足"@
    } else if reason == "memory_critical"@ {
        "メモリ緊急"@
    } else if reason == "manual_switch"@ {
        "手動切り替え"@
    } else {
        reason
    }
}

/// Label of a model-change reason: the four known reasons in Japanese,
/// any other reason as it is.
pub fn model_change_reason_label(reason: &str) -> (s: String)
    ensures
        s@ == reason_label(reason@),
{
    if str_eq(reason, "cpu_high") {
        String::from_str("CPU負荷")
    } else if str_eq(reason, "memory_high") {
        String::from_str("メモリ不足")
    } else if str_eq(reason, "memory_critical") {
        String::from_str("メモリ緊急")
    } else if str_eq(reason, "manual_switch") {
        String::from_str("手動切り替え")
    } else {
        String::from_str(reason)
    }
}

/// The notification of a model change.
pub open spec fn model_change_text(old_model: Seq<char>, new_model: Seq<char>, reason: Seq<char>) -> Seq<char> {
    "モデル変更: "@ + old_model + " → "@ + new_model + " (理由: "@ + reason_label(reason) + ")"@
}

/// The notification of a model change.
pub fn model_change_message(old_model: &str, new_model: &str, reason: &str) -> (m: String)
    ensures
        m@ == model_change_text(old_model@, new_model@, reason@),
{
    let mut m = String::from_str("モデル変更: ");
    m.append(old_model);
    m.append(" → ");
    m.append(new_model);
    m.append(" (理由: ");
    let label = model_change_reason_label(reason);
    m.append(label.as_str());
    m.append(")");
    m
}

/// The fields of a sidecar event that decide what happens with it.
#[derive(Debug, Clone)]
pub struct IpcEventFields {
    /// `requestId`, when it is a string.
    pub request_id: Option<String>,
    /// `text`, when it is a string.
    pub text: Option<String>,
    /// Whether a confidence is given and is below 0.5.
    pub low_confidence: bool,
    /// `old_model`, `new_model` and `reason`, when they are strings.
    pub old_model: Option<String>,
    pub new_model: Option<String>,
    pub reason: Option<String>,
}

/// What to do with a sidecar event.
#[derive(Debug, Clone, PartialEq, Eq)]
pub enum IpcEventAction {
    /// Log the start of speech.
    SpeechStart { request_id: String },
    /// Log the end of speech.
    SpeechEnd { request_id: String },
    /// Log that no speech was found.
    NoSpeech { request_id: String },
    /// Forward a transcript to the clients and the user interface.
    Transcript { request_id: String, text: String, is_partial: bool },
    /// Drop a transcript whose confidence is too low (a likely hallucination).
    TranscriptFiltered { request_id: String, is_partial: bool },
    /// A transcript event without text: nothing to do.
    Ignored,
    /// Tell the clients that a model change notification was malformed.
    ModelChangeInvalid { missing_old_model: bool, missing_new_model: bool, missing_reason: bool },
    /// Tell the clients about a model change.
    ModelChange { old_model: String, new_model: String, reason: String, message: String },
    /// Log an event of unknown type.
    Unknown { event_type: String },
}

/// `requestId`, or `unknown` when absent.
pub open spec fn request_or_unknown(r: Option<String>) -> Seq<char> {
    match r {
        Some(s) => s@,
        None => "unknown"@,
    }
}

/// What a transcript event (partial or final) leads to.
pub open spec fn transcript_action_ok(f: IpcEventFields, partial: bool, a: IpcEventAction) -> bool {
    match f.text {
        None => a == IpcEventAction::Ignored,
        Some(t) => if f.low_confidence {
            a matches IpcEventAction::TranscriptFiltered { request_id, is_partial } && request_id@ == request_or_unknown(f.request_id) && is_partial == partial
        } else {
            a matches IpcEventAction::Transcript { request_id, text, is_partial }
                && request_id@ == request_or_unknown(f.request_id) && text@ == t@ && is_partial == partial
        },
    }
}

/// What a sidecar event of type `event_type` with fields `f` leads to.
pub open spec fn ipc_event_action_ok(event_type: Seq<char>, f: IpcEventFields, a: IpcEventAction) -> bool {
    if event_type == "speech_start"@ {
        a matches IpcEventAction::SpeechStart { request_id } && request_id@ == request_or_unknown(f.request_id)
    } else if event_type == "partial_text"@ {
        transcript_action_ok(f, true, a)
    } else if event_type == "final_text"@ {
        transcript_action_ok(f, false, a)
    } else if event_type == "speech_end"@ {
        a matches IpcEventAction::SpeechEnd { request_id } && request_id@ == request_or_unknown(f.request_id)
    } else if event_type == "no_speech"@ {
        a matches IpcEventAction::NoSpeech { request_id } && request_id@ == request_or_unknown(f.request_id)
    } else if event_type == "model_change"@ {
        match (f.old_model, f.new_model, f.reason) {
            (Some(o), Some(n), Some(r)) => a matches IpcEventAction::ModelChange { old_model, new_model, reason, message }
                && old_model@ == o@ && new_model@ == n@ && reason@ == r@ && message@ == model_change_text(o@, n@, r@),
            _ => a == (IpcEventAction::ModelChangeInvalid {
                missing_old_model: f.old_model is None,
                missing_new_model: f.new_model is None,
                missing_reason: f.reason is None,
            }),
        }
    } else {
        a matches IpcEventAction::Unknown { event_type: e } && e@ == event_type
    }
}

fn request_id_text(r: &Option<String>) -> (s: String)
    ensures
        s@ == request_or_unknown(*r),
{
    match r {
        Some(s) => s.clone(),
        None => String::from_str("unknown"),
    }
}

fn transcript_action(f: &IpcEventFields, partial: bool) -> (a: IpcEventAction)
    ensures
        transcript_action_ok(*f, partial, a),
{
    match &f.text {
        None => IpcEventAction::Ignored,
        Some(t) => {
            if f.low_confidence {
                IpcEventAction::TranscriptFiltered { request_id: request_id_text(&f.request_id), is_partial: partial }
            } else {
                IpcEventAction::Transcript { request_id: request_id_text(&f.request_id), text: t.clone(), is_partial: partial }
            }
        },
    }
}

/// Decide what to do with a sidecar event.
pub fn plan_ipc_event(event_type: &str, fields: &IpcEventFields) -> (a: IpcEventAction)
    ensures
        ipc_event_action_ok(event_type@, *fields, a),
{
    if str_eq(event_type, "speech_start") {
        IpcEventAction::SpeechStart { request_id: request_id_text(&fields.request_id) }
    } else if str_eq(event_type, "partial_text") {
        transcript_action(fields, true)
    } else if str_eq(event_type, "final_text") {
        transcript_action(fields, false)
    } else if str_eq(event_type, "speech_end") {
        IpcEventAction::SpeechEnd { request_id: request_id_text(&fields.request_id) }
    } else if str_eq(event_type, "no_speech") {
        IpcEventAction::NoSpeech { request_id: request_id_text(&fields.request_id) }
    } else if str_eq(event_type, "model_change") {
        match (&fields.old_model, &fields.new_model, &fields.reason) {
            (Some(o), Some(n), Some(r)) => {
                let message = model_change_message(o.as_str(), n.as_str(), r.as_str());
                IpcEventAction::ModelChange { old_model: o.clone(), new_model: n.clone(), reason: r.clone(), message }
            },
            _ => IpcEventAction::ModelChangeInvalid {
                missing_old_model: fields.old_model.is_none(),
                missing_new_model: fields.new_model.is_none(),
                missing_reason: fields.reason.is_none(),
            },
        }
    } else {
        IpcEventAction::Unknown { event_type: String::from_str(event_type) }
    }
}

/// What the reader of the sidecar's output does with a parsed message.
#[derive(Debug, Clone, Copy, PartialEq, Eq, Structural)]
pub enum ReaderAction {
    /// Handle the event and read on.
    HandleEvent,
    /// The sidecar reported an error: stop reading.
    StopOnSidecarError,
    /// A message that the reader does not expect: stop reading.
    StopOnUnexpectedMessage,
    /// Incompatible major version: stop reading.
    StopOnMajorMismatch,
    /// Unreadable version: stop reading.
    StopOnMalformedVersion,
}

/// The reader's decision for a message: major mismatches and malformed
/// versions stop it, a minor mismatch is warned about; then events are
/// handled, errors and any other message stop it.
pub open spec fn reader_action_for(m: IpcMessage) -> ReaderAction {
    let k = compatibility_kind(message_version(m), (1, 0));
    if k == 2 {
        ReaderAction::StopOnMajorMismatch
    } else if k == 3 {
        ReaderAction::StopOnMalformedVersion
    } else {
        match m {
            IpcMessage::Event { .. } => ReaderAction::HandleEvent,
            IpcMessage::Error { .. } => ReaderAction::StopOnSidecarError,
            _ => ReaderAction::StopOnUnexpectedMessage,
        }
    }
}

/// Decide what the reader does with a message; the flag says whether a
/// minor version mismatch must be warned about.
pub fn ipc_reader_step(msg: &IpcMessage) -> (r: (ReaderAction, bool))
    ensures
        r.0 == reader_action_for(*msg),
        r.1 == (compatibility_kind(message_version(*msg), (1, 0)) == 1),
{
    let compat = msg.check_version_compatibility();
    let warn = match compat {
        VersionCompatibility::MajorMismatch { .. } => {
            return (ReaderAction::StopOnMajorMismatch, false);
        },
        VersionCompatibility::Malformed { .. } => {
            return (ReaderAction::StopOnMalformedVersion, false);
        },
        VersionCompatibility::MinorMismatch { .. } => true,
        VersionCompatibility::Compatible => false,
    };
    let action = match msg {
        IpcMessage::Event { .. } => ReaderAction::HandleEvent,
        IpcMessage::Error { .. } => ReaderAction::StopOnSidecarError,
        _ => ReaderAction::StopOnUnexpectedMessage,
    };
    (action, warn)
}

// ============================================================================
// Device events
// ============================================================================

/// What the user is told about a device event, and whether a reconnection
/// job starts.
#[derive(Debug, Clone, PartialEq, Eq)]
pub struct DeviceErrorNotice {
    /// `stream_error`, `stalled` or `device_gone`.
    pub kind: String,
    pub message: String,
    pub elapsed_ms: Option<u64>,
    pub device_id: Option<String>,
    /// The recording stops and a reconnection job starts.
    pub start_reconnection: bool,
}

/// The notice for a device event.
pub open spec fn notice_ok(e: AudioDeviceEvent, n: DeviceErrorNotice) -> bool {
    match e {
        AudioDeviceEvent::StreamError(err) => n.kind@ == "stream_error"@ && n.message@ == "音声ストリームエラー: "@ + err@
            && n.elapsed_ms is None && n.device_id is None && !n.start_reconnection,
        AudioDeviceEvent::Stalled { elapsed_ms } => n.kind@ == "stalled"@ && n.message@ == "音声デバイスが応答しません"@
            && n.elapsed_ms == Some(elapsed_ms) && n.device_id is None && !n.start_reconnection,
        AudioDeviceEvent::DeviceGone { device_id } => n.kind@ == "device_gone"@ && n.message@ == "音声デバイスが切断されました"@
            && n.elapsed_ms is None && (n.device_id matches Some(d) && d@ == device_id@) && n.start_reconnection,
    }
}

/// Tell the user about a device event; a vanished device also stops the
/// recording and starts a reconnection job.
pub fn device_event_notice(event: &AudioDeviceEvent) -> (n: DeviceErrorNotice)
    ensures
        notice_ok(*event, n),
{
    match event {
        AudioDeviceEvent::StreamError(err) => {
            let mut message = String::from_str("音声ストリームエラー: ");
            message.append(err.as_str());
            DeviceErrorNotice {
                kind: String::from_str("stream_error"),
                message,
                elapsed_ms: None,
                device_id: None,
                start_reconnection: false,
            }
        },
        AudioDeviceEvent::Stalled { elapsed_ms } => DeviceErrorNotice {
            kind: String::from_str("stalled"),
            message: String::from_str("音声デバイスが応答しません"),
            elapsed_ms: Some(*elapsed_ms),
            device_id: None,
            start_reconnection: false,
        },
        AudioDeviceEvent::DeviceGone { device_id } => DeviceErrorNotice {
            kind: String::from_str("device_gone"),
            message: String::from_str("音声デバイスが切断されました"),
            elapsed_ms: None,
            device_id: Some(device_id.clone()),
            start_reconnection: true,
        },
    }
}

/// Every requested device is either available or unavailable, never both:
/// the two lists split the request.
pub proof fn lemma_start_partition(req: Seq<Seq<char>>, avail: Seq<Seq<char>>)
    ensures
        available_ids(req, avail).len() + unavailable_ids(req, avail).len() == req.len(),
        forall|x: Seq<char>| #[trigger] available_ids(req, avail).contains(x) ==> req.contains(x) && avail.contains(x),
        forall|x: Seq<char>| #[trigger] unavailable_ids(req, avail).contains(x) ==> req.contains(x) && !avail.contains(x),
    decreases req.len(),
{
    let a = among(avail);
    let n = crate::multi_input_settings::not_among(avail);
    if req.len() > 0 {
        let p = req.drop_last();
        lemma_start_partition(p, avail);
        assert(req =~= p.push(req.last()));
        p.lemma_filter_push(req.last(), a);
        p.lemma_filter_push(req.last(), n);
    }
    assert forall|x: Seq<char>| #[trigger] available_ids(req, avail).contains(x) implies req.contains(x) && avail.contains(x) by {
        req.lemma_filter_contains_rev(a, x);
        let j = choose|j: int| 0 <= j < req.filter(a).len() && req.filter(a)[j] == x;
        req.lemma_filter_pred(a, j);
    }
    assert forall|x: Seq<char>| #[trigger] unavailable_ids(req, avail).contains(x) implies req.contains(x) && !avail.contains(x) by {
        req.lemma_filter_contains_rev(n, x);
        let j = choose|j: int| 0 <= j < req.filter(n).len() && req.filter(n)[j] == x;
        req.lemma_filter_pred(n, j);
    }
}

} // verus!
