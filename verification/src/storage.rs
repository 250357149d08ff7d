//! Rules of recording-session storage: how much free disk space a recording
//! needs, where a session's files live, what a session id looks like, the
//! order in which sessions are listed, and the bytes of the WAV files.
//!
//! Reading and writing the files is left to the caller; the functions here
//! say what to write and where.

use vstd::prelude::*;
use vstd::string::StringExecFns;
use crate::text::chars_of;

verus! {

/// One gibibyte: at least this much free space is "sufficient".
pub const ONE_GB: u64 = 1073741824;

/// 500 MiB: below this much free space recording is refused.
pub const FIVE_HUNDRED_MB: u64 = 524288000;

/// Name of the session directory's parent under the application data directory.
pub const RECORDINGS_DIR: &'static str = "recordings";

/// File holding a session's audio.
pub const AUDIO_FILE_NAME: &'static str = "audio.wav";

/// File holding a session's transcription events, one JSON object per line.
pub const TRANSCRIPT_FILE_NAME: &'static str = "transcription.jsonl";

/// File holding a session's metadata.
pub const METADATA_FILE_NAME: &'static str = "session.json";

/// How much free space the disk holding the application data has.
#[derive(Debug, Clone, Copy, PartialEq, Eq, Structural)]
pub enum DiskSpaceStatus {
    /// At least 1 GiB free.
    Sufficient,
    /// At least 500 MiB but under 1 GiB free.
    Warning,
    /// Under 500 MiB free: recording is refused.
    Critical,
}

/// The status for a number of free bytes.
pub open spec fn disk_status_of(free_bytes: nat) -> DiskSpaceStatus {
    if free_bytes >= ONE_GB {
        DiskSpaceStatus::Sufficient
    } else if free_bytes >= FIVE_HUNDRED_MB {
        DiskSpaceStatus::Warning
    } else {
        DiskSpaceStatus::Critical
    }
}

/// User-facing description of a status.
pub open spec fn status_description(s: DiskSpaceStatus) -> Seq<char> {
    match s {
        DiskSpaceStatus::Sufficient => "十分な容量があります"@,
        DiskSpaceStatus::Warning => "ディスク容量が不足しています"@,
        DiskSpaceStatus::Critical => "ディスク容量が不足しているため録音できません"@,
    }
}

/// Classify the free space of the disk that holds the application data.
pub fn classify_disk_space(free_bytes: u64) -> (s: DiskSpaceStatus)
    ensures
        s == disk_status_of(free_bytes as nat),
{
    if free_bytes >= ONE_GB {
        DiskSpaceStatus::Sufficient
    } else if free_bytes >= FIVE_HUNDRED_MB {
        DiskSpaceStatus::Warning
    } else {
        DiskSpaceStatus::Critical
    }
}

impl DiskSpaceStatus {
    /// User-facing description of the status.
    pub fn description(&self) -> (s: &'static str)
        ensures
            s@ == status_description(*self),
    {
        match self {
            DiskSpaceStatus::Sufficient => "十分な容量があります",
            DiskSpaceStatus::Warning => "ディスク容量が不足しています",
            DiskSpaceStatus::Critical => "ディスク容量が不足しているため録音できません",
        }
    }
}

/// Why a session could not be started.
#[derive(Debug, Clone, Copy, PartialEq, Eq, Structural)]
pub enum StorageError {
    /// Less than 500 MiB free.
    InsufficientDiskSpace,
}

/// Message of a storage error.
pub open spec fn storage_error_message(e: StorageError) -> Seq<char> {
    match e {
        StorageError::InsufficientDiskSpace => "ディスク容量が不足しているため録音できません（残り500MB未満）"@,
    }
}

impl StorageError {
    /// User-facing message of the error.
    pub fn message(&self) -> (s: &'static str)
        ensures
            s@ == storage_error_message(*self),
    {
        match self {
            StorageError::InsufficientDiskSpace => "ディスク容量が不足しているため録音できません（残り500MB未満）",
        }
    }
}

// ============================================================================
// Paths and session ids
// ============================================================================

/// What `Path::join` gives for `base` and `segment`, as text, on the target
/// this crate is built for.
pub uninterp spec fn joined_path(base: Seq<char>, segment: Seq<char>) -> Seq<char>;

/// `std::path::Path::join`, on paths held as text.  The result is named by
/// `joined_path`; nothing is claimed about the separator it inserts.
#[verifier::external_body]
pub(crate) fn join_path(base: &str, segment: &str) -> (r: String)
    ensures
        r@ == joined_path(base@, segment@),
{
    std::path::Path::new(base).join(segment).to_string_lossy().into_owned()
}

/// `[app_data_dir]/recordings/[session_id]`.
pub open spec fn session_dir_path(app_data_dir: Seq<char>, session_id: Seq<char>) -> Seq<char> {
    joined_path(joined_path(app_data_dir, RECORDINGS_DIR@), session_id)
}

/// A lower-case hexadecimal digit.
pub open spec fn is_lower_hex(c: char) -> bool {
    ('0' <= c && c <= '9') || ('a' <= c && c <= 'f')
}

/// Hyphenated lower-case text of a random (version 4, RFC 4122 variant)
/// UUID: `xxxxxxxx-xxxx-4xxx-Nxxx-xxxxxxxxxxxx` with `N` in `8..b`.
pub open spec fn is_uuid_v4_text(s: Seq<char>) -> bool {
    &&& s.len() == 36
    &&& forall|i: int|
        0 <= i < 36 ==> (if i == 8 || i == 13 || i == 18 || i == 23 {
            s[i] == '-'
        } else {
            is_lower_hex(#[trigger] s[i])
        })
    &&& s[14] == '4'
    &&& (s[19] == '8' || s[19] == '9' || s[19] == 'a' || s[19] == 'b')
}

/// `uuid::Uuid::new_v4` rendered with `to_string`: a fresh random UUID in
/// its hyphenated lower-case form.  Which UUID comes out is left open (it is
/// drawn from the operating system's random source, and the call panics
/// when that source fails).
#[verifier::external_body]
fn new_uuid_v4_text() -> (s: String)
    ensures
        is_uuid_v4_text(s@),
{
    uuid::Uuid::new_v4().to_string()
}

/// Storage of recording sessions under an application data directory.
#[derive(Debug, Clone)]
pub struct LocalStorageService {
    app_data_dir: String,
}

/// A session that may be recorded: its id, its directory and the free-space
/// status seen when it began.
#[derive(Debug, Clone)]
pub struct SessionHandle {
    pub session_id: String,
    pub session_dir: String,
    pub disk_status: DiskSpaceStatus,
}

/// The warning shown while recording with under 1 GiB free.
pub open spec fn disk_warning_text() -> Seq<char> {
    "ディスク容量が1GB未満です。録音を続けると保存できなくなる可能性があります。"@
}

impl SessionHandle {
    /// Whether the user must be warned about free space.
    pub fn needs_disk_warning(&self) -> (b: bool)
        ensures
            b == (self.disk_status == DiskSpaceStatus::Warning),
    {
        self.disk_status == DiskSpaceStatus::Warning
    }

    /// The warning to show, if one is due.
    pub fn disk_warning_message(&self) -> (m: Option<String>)
        ensures
            self.disk_status == DiskSpaceStatus::Warning ==> (m matches Some(t) && t@ == disk_warning_text()),
            self.disk_status != DiskSpaceStatus::Warning ==> m is None,
    {
        if self.disk_status == DiskSpaceStatus::Warning {
            Some(String::from_str("ディスク容量が1GB未満です。録音を続けると保存できなくなる可能性があります。"))
        } else {
            None
        }
    }
}

impl LocalStorageService {
    /// Storage rooted at `app_data_dir`.
    pub fn new(app_data_dir: String) -> (s: Self)
        ensures
            s.app_data_dir() == app_data_dir@,
    {
        LocalStorageService { app_data_dir }
    }

    /// The application data directory.
    pub closed spec fn app_data_dir(&self) -> Seq<char> {
        self.app_data_dir@
    }

    /// A fresh session id: a random version-4 UUID in hyphenated form.
    pub fn generate_session_id(&self) -> (id: String)
        ensures
            is_uuid_v4_text(id@),
    {
        new_uuid_v4_text()
    }

    /// Directory of a session: `[app_data_dir]/recordings/[session_id]`.
    pub fn get_session_dir(&self, session_id: &str) -> (p: String)
        ensures
            p@ == session_dir_path(self.app_data_dir(), session_id@),
    {
        let recordings = join_path(self.app_data_dir.as_str(), RECORDINGS_DIR);
        join_path(recordings.as_str(), session_id)
    }

    /// Path of a file inside a session's directory.
    pub fn session_file(&self, session_id: &str, file_name: &str) -> (p: String)
        ensures
            p@ == joined_path(session_dir_path(self.app_data_dir(), session_id@), file_name@),
    {
        let dir = self.get_session_dir(session_id);
        join_path(dir.as_str(), file_name)
    }

    /// Begin a session on a disk with `free_bytes` free: refused with
    /// `InsufficientDiskSpace` under 500 MiB, otherwise a fresh session id,
    /// its directory, and the status to warn about.  The caller creates the
    /// directory.
    pub fn begin_session(&self, free_bytes: u64) -> (r: Result<SessionHandle, StorageError>)
        ensures
            r is Err <==> disk_status_of(free_bytes as nat) == DiskSpaceStatus::Critical,
            r matches Err(e) ==> e == StorageError::InsufficientDiskSpace,
            r matches Ok(h) ==> {
                &&& h.disk_status == disk_status_of(free_bytes as nat)
                &&& is_uuid_v4_text(h.session_id@)
                &&& h.session_dir@ == session_dir_path(self.app_data_dir(), h.session_id@)
            },
    {
        let disk_status = classify_disk_space(free_bytes);
        if disk_status == DiskSpaceStatus::Critical {
            return Err(StorageError::InsufficientDiskSpace);
        }
        let session_id = self.generate_session_id();
        let session_dir = self.get_session_dir(session_id.as_str());
        Ok(SessionHandle { session_id, session_dir, disk_status })
    }
}

// ============================================================================
// Session records
// ============================================================================

/// Metadata of a recorded session.
#[derive(Debug, Clone, PartialEq)]
pub struct SessionMetadata {
    pub session_id: String,
    /// Start of the recording, ISO 8601.
    pub start_time: String,
    /// End of the recording, ISO 8601.
    pub end_time: String,
    pub duration_seconds: u64,
    pub audio_device: String,
    pub model_size: String,
    pub total_segments: u64,
    pub total_characters: u64,
}

/// One transcription result.
#[derive(Debug, Clone, PartialEq)]
pub struct TranscriptionEvent {
    pub timestamp_ms: u64,
    pub text: String,
    /// `false` for a partial (interim) text.
    pub is_final: bool,
}

impl SessionMetadata {
    /// A copy of the metadata.
    pub fn duplicate(&self) -> (r: Self)
        ensures
            r == *self,
    {
        SessionMetadata {
            session_id: self.session_id.clone(),
            start_time: self.start_time.clone(),
            end_time: self.end_time.clone(),
            duration_seconds: self.duration_seconds,
            audio_device: self.audio_device.clone(),
            model_size: self.model_size.clone(),
            total_segments: self.total_segments,
            total_characters: self.total_characters,
        }
    }
}

/// A session read back from disk.
#[derive(Debug, Clone)]
pub struct LoadedSession {
    pub metadata: SessionMetadata,
    pub transcripts: Vec<TranscriptionEvent>,
    pub audio_path: String,
}

/// `a` sorts strictly before `b` in the byte order of their UTF-8 text,
/// which is the order of their code points.
pub open spec fn lex_lt(a: Seq<char>, b: Seq<char>) -> bool
    decreases a.len(),
{
    if a.len() == 0 {
        b.len() > 0
    } else if b.len() == 0 {
        false
    } else if a[0] != b[0] {
        a[0] < b[0]
    } else {
        lex_lt(a.drop_first(), b.drop_first())
    }
}

/// The order is total: of two different texts one sorts first.
pub proof fn lemma_lex_total(a: Seq<char>, b: Seq<char>)
    ensures
        a != b ==> (lex_lt(a, b) || lex_lt(b, a)),
        !(lex_lt(a, b) && lex_lt(b, a)),
        !lex_lt(a, a),
    decreases a.len(),
{
    if a.len() > 0 && b.len() > 0 && a[0] == b[0] {
        lemma_lex_total(a.drop_first(), b.drop_first());
        if a != b {
            assert(a =~= seq![a[0]] + a.drop_first());
            assert(b =~= seq![b[0]] + b.drop_first());
        }
    } else if a.len() == 0 && b.len() == 0 {
        assert(a =~= b);
    } else if a.len() > 0 && b.len() == 0 {
        lemma_lex_total(a.drop_first(), a.drop_first());
    } else if a.len() > 0 && b.len() > 0 {
        lemma_lex_total(a.drop_first(), a.drop_first());
    }
}

/// The order is transitive.
pub proof fn lemma_lex_transitive(a: Seq<char>, b: Seq<char>, c: Seq<char>)
    requires
        lex_lt(a, b),
        lex_lt(b, c),
    ensures
        lex_lt(a, c),
    decreases a.len(),
{
    if a.len() > 0 && b.len() > 0 && c.len() > 0 && a[0] == b[0] && b[0] == c[0] {
        lemma_lex_transitive(a.drop_first(), b.drop_first(), c.drop_first());
    }
}

/// Whether `a` sorts strictly before `b`.
pub fn str_lex_lt(a: &str, b: &str) -> (r: bool)
    ensures
        r == lex_lt(a@, b@),
{
    let av = chars_of(a);
    let bv = chars_of(b);
    let mut i: usize = 0;
    assert(a@.skip(0) =~= a@);
    assert(b@.skip(0) =~= b@);
    while i < av.len() && i < bv.len()
        invariant
            av@ == a@,
            bv@ == b@,
            i <= av@.len(),
            i <= bv@.len(),
            lex_lt(a@, b@) == lex_lt(a@.skip(i as int), b@.skip(i as int)),
        decreases av@.len() - i,
    {
        let x = av[i];
        let y = bv[i];
        assert(a@.skip(i as int)[0] == x);
        assert(b@.skip(i as int)[0] == y);
        if x != y {
            return x < y;
        }
        assert(a@.skip(i as int).drop_first() =~= a@.skip(i + 1));
        assert(b@.skip(i as int).drop_first() =~= b@.skip(i + 1));
        i = i + 1;
    }
    assert(a@.skip(i as int).len() == a@.len() - i);
    i < bv.len()
}

/// Sessions are listed newest first: no session sorts after a later one.
pub open spec fn newest_first(s: Seq<SessionMetadata>) -> bool {
    forall|i: int, j: int| 0 <= i < j < s.len() ==> !lex_lt(#[trigger] s[i].start_time@, #[trigger] s[j].start_time@)
}

/// The test "started at `t`".
pub open spec fn started_at(t: Seq<char>) -> spec_fn(SessionMetadata) -> bool {
    |s: SessionMetadata| s.start_time@ == t
}

/// Inserting `x` into a newest-first list just before the first session
/// that started earlier appends `x` to the sessions of its own start time
/// and leaves those of every other start time as they were.
proof fn lemma_insert_keeps_ties_in_order(old_r: Seq<SessionMetadata>, p: int, x: SessionMetadata, t: Seq<char>)
    requires
        0 <= p <= old_r.len(),
        newest_first(old_r),
        p < old_r.len() ==> lex_lt(old_r[p].start_time@, x.start_time@),
    ensures
        old_r.insert(p, x).filter(started_at(t)) == (if x.start_time@ == t {
            old_r.filter(started_at(t)).push(x)
        } else {
            old_r.filter(started_at(t))
        }),
{
    let f = started_at(t);
    let a = old_r.take(p);
    let b = old_r.skip(p);
    let e = Seq::<SessionMetadata>::empty();
    assert(old_r =~= a + b);
    assert(old_r.insert(p, x) =~= (a + seq![x]) + b);
    assert(seq![x] =~= e.push(x));
    Seq::filter_distributes_over_add(a, b, f);
    Seq::filter_distributes_over_add(a + seq![x], b, f);
    Seq::filter_distributes_over_add(a, seq![x], f);
    e.lemma_filter_push(x, f);
    assert(e.filter(f) =~= e) by {
        reveal(Seq::filter);
    }
    if x.start_time@ == t {
        assert forall|i: int| 0 <= i < b.len() implies !f(b[i]) by {
            let s_p = old_r[p].start_time@;
            let s_i = old_r[p + i].start_time@;
            assert(b[i] == old_r[p + i]);
            lemma_lex_total(s_p, x.start_time@);
            if i > 0 {
                assert(!lex_lt(old_r[p].start_time@, old_r[p + i].start_time@));
            }
        }
        b.lemma_all_neg_filter_empty(f);
        assert(b.filter(f) =~= e);
        assert(a.filter(f) + e.push(x) + e =~= (a.filter(f) + e).push(x));
    } else {
        assert(a.filter(f) + e + b.filter(f) =~= a.filter(f) + b.filter(f));
    }
}

/// Order sessions by start time, newest first, keeping the sessions given;
/// sessions that started at the same time keep their given order.
pub fn sort_sessions_newest_first(sessions: Vec<SessionMetadata>) -> (r: Vec<SessionMetadata>)
    ensures
        r@.to_multiset() == sessions@.to_multiset(),
        newest_first(r@),
        forall|t: Seq<char>| #[trigger] r@.filter(started_at(t)) == sessions@.filter(started_at(t)),
{
    broadcast use vstd::seq_lib::group_to_multiset_ensures;
    let mut r: Vec<SessionMetadata> = Vec::new();
    let mut k: usize = 0;
    while k < sessions.len()
        invariant
            k <= sessions@.len(),
            r@.to_multiset() == sessions@.take(k as int).to_multiset(),
            newest_first(r@),
            forall|t: Seq<char>| #[trigger] r@.filter(started_at(t)) == sessions@.take(k as int).filter(started_at(t)),
        decreases sessions@.len() - k,
    {
        let x = sessions[k].duplicate();
        // First position whose session is strictly older than `x`.
        let mut p: usize = 0;
        while p < r.len() && !str_lex_lt(r[p].start_time.as_str(), x.start_time.as_str())
            invariant
                p <= r@.len(),
                forall|q: int| 0 <= q < p ==> !lex_lt(#[trigger] r@[q].start_time@, x.start_time@),
            decreases r@.len() - p,
        {
            p = p + 1;
        }
        let ghost old_r = r@;
        proof {
            assert(x == sessions@[k as int]);
        }
        r.insert(p, x);
        proof {
            vstd::seq_lib::to_multiset_insert(old_r, p as int, x);
            assert(sessions@.take(k + 1) =~= sessions@.take(k as int).push(sessions@[k as int]));
            vstd::seq_lib::to_multiset_build(sessions@.take(k as int), sessions@[k as int]);
            assert(r@ =~= old_r.insert(p as int, x));
            assert forall|i: int, j: int| 0 <= i < j < r@.len() implies !lex_lt(#[trigger] r@[i].start_time@, #[trigger] r@[j].start_time@) by {
                let ki = if i < p { i } else if i == p { -1 } else { i - 1 };
                let kj = if j < p { j } else if j == p { -1 } else { j - 1 };
                if i == p {
                    // r[j] is an element that was at or after position p.
                    let s_j = old_r[kj].start_time@;
                    let s_p = old_r[p as int].start_time@;
                    assert(lex_lt(s_p, x.start_time@));
                    if kj > p {
                        lemma_lex_total(s_p, s_j);
                        if lex_lt(x.start_time@, s_j) {
                            if s_p == s_j {
                            } else {
                                lemma_lex_transitive(s_p, x.start_time@, s_j);
                                assert(!lex_lt(s_p, s_j));
                            }
                        }
                    }
                    lemma_lex_total(x.start_time@, s_j);
                    if lex_lt(x.start_time@, s_j) {
                        if kj == p {
                            lemma_lex_total(s_p, x.start_time@);
                        }
                    }
                } else if j == p {
                    let s_i = old_r[ki].start_time@;
                    assert(!lex_lt(s_i, x.start_time@));
                } else {
                    assert(!lex_lt(old_r[ki].start_time@, old_r[kj].start_time@));
                }
            }
            assert forall|t: Seq<char>| #[trigger] r@.filter(started_at(t)) == sessions@.take(k + 1).filter(started_at(t)) by {
                lemma_insert_keeps_ties_in_order(old_r, p as int, x, t);
                sessions@.take(k as int).lemma_filter_push(sessions@[k as int], started_at(t));
            }
        }
        k = k + 1;
    }
    assert(sessions@.take(sessions@.len() as int) =~= sessions@);
    r
}

// ============================================================================
// WAV files: 16 kHz, mono, 16-bit PCM
// ============================================================================

/// Size of the WAV header in bytes.
pub const WAV_HEADER_LEN: usize = 44;

/// Little-endian bytes of a 16-bit value.
pub open spec fn le16(n: nat) -> Seq<u8> {
    seq![(n % 256) as u8, ((n / 256) % 256) as u8]
}

/// Little-endian bytes of a 32-bit value.
pub open spec fn le32(n: nat) -> Seq<u8> {
    seq![(n % 256) as u8, ((n / 256) % 256) as u8, ((n / 65536) % 256) as u8, ((n / 16777216) % 256) as u8]
}

/// ASCII bytes of a four-letter chunk tag.
pub open spec fn tag(a: char, b: char, c: char, d: char) -> Seq<u8> {
    seq![a as u8, b as u8, c as u8, d as u8]
}

/// Bytes of sample data for `samples` samples.
pub open spec fn wav_data_size(samples: nat) -> nat {
    samples * 2
}

/// The 44-byte header of a file holding `samples` samples: RIFF size is the
/// data size plus 36; format PCM, one channel, 16000 Hz, 32000 bytes per
/// second, block align 2, 16 bits per sample.
pub open spec fn wav_header_bytes(samples: nat) -> Seq<u8> {
    tag('R', 'I', 'F', 'F') + le32(wav_data_size(samples) + 36) + tag('W', 'A', 'V', 'E')
        + tag('f', 'm', 't', ' ') + le32(16) + le16(1) + le16(1) + le32(16000) + le32(32000)
        + le16(2) + le16(16) + tag('d', 'a', 't', 'a') + le32(wav_data_size(samples))
}

fn push_le16(v: &mut Vec<u8>, n: u32)
    requires
        n < 65536,
    ensures
        final(v)@ == old(v)@ + le16(n as nat),
{
    v.push((n % 256) as u8);
    v.push(((n / 256) % 256) as u8);
    assert(final(v)@ =~= old(v)@ + le16(n as nat));
}

fn push_le32(v: &mut Vec<u8>, n: u32)
    ensures
        final(v)@ == old(v)@ + le32(n as nat),
{
    v.push((n % 256) as u8);
    v.push(((n / 256) % 256) as u8);
    v.push(((n / 65536) % 256) as u8);
    v.push(((n / 16777216) % 256) as u8);
    assert(final(v)@ =~= old(v)@ + le32(n as nat));
}

fn push_tag(v: &mut Vec<u8>, a: char, b: char, c: char, d: char)
    requires
        (a as u32) < 128,
        (b as u32) < 128,
        (c as u32) < 128,
        (d as u32) < 128,
    ensures
        final(v)@ == old(v)@ + tag(a, b, c, d),
{
    v.push(a as u8);
    v.push(b as u8);
    v.push(c as u8);
    v.push(d as u8);
    assert(final(v)@ =~= old(v)@ + tag(a, b, c, d));
}

/// The WAV header for a file holding `samples` samples.
pub fn wav_header(samples: u32) -> (h: Vec<u8>)
    requires
        samples * 2 + 36 <= u32::MAX,
    ensures
        h@ == wav_header_bytes(samples as nat),
        h@.len() == WAV_HEADER_LEN,
{
    let data_size: u32 = samples * 2;
    let mut h: Vec<u8> = Vec::new();
    push_tag(&mut h, 'R', 'I', 'F', 'F');
    push_le32(&mut h, data_size + 36);
    push_tag(&mut h, 'W', 'A', 'V', 'E');
    push_tag(&mut h, 'f', 'm', 't', ' ');
    push_le32(&mut h, 16);
    push_le16(&mut h, 1);
    push_le16(&mut h, 1);
    push_le32(&mut h, 16000);
    push_le32(&mut h, 32000);
    push_le16(&mut h, 2);
    push_le16(&mut h, 16);
    push_tag(&mut h, 'd', 'a', 't', 'a');
    push_le32(&mut h, data_size);
    assert(h@ =~= wav_header_bytes(samples as nat));
    h
}

/// Little-endian two's-complement bytes of a sample.
pub open spec fn sample_bytes(s: i16) -> Seq<u8> {
    le16((if s < 0 { s + 65536 } else { s as int }) as nat)
}

/// Little-endian bytes of a run of samples.
pub open spec fn samples_bytes(s: Seq<i16>) -> Seq<u8>
    decreases s.len(),
{
    if s.len() == 0 {
        Seq::empty()
    } else {
        samples_bytes(s.drop_last()) + sample_bytes(s.last())
    }
}

/// The bytes that store `samples` in the data chunk.
pub fn encode_samples(samples: &[i16]) -> (b: Vec<u8>)
    requires
        samples@.len() * 2 <= usize::MAX,
    ensures
        b@ == samples_bytes(samples@),
        b@.len() == 2 * samples@.len(),
{
    let mut b: Vec<u8> = Vec::new();
    let mut i: usize = 0;
    while i < samples.len()
        invariant
            i <= samples@.len(),
            b@ == samples_bytes(samples@.take(i as int)),
            b@.len() == 2 * i,
        decreases samples@.len() - i,
    {
        let s = samples[i];
        let u: u16 = s as u16;
        assert((s as u16) as int == (if s < 0 { s + 65536 } else { s as int })) by (bit_vector);
        let ghost prev = b@;
        push_le16(&mut b, u as u32);
        assert(samples@.take(i + 1).drop_last() =~= samples@.take(i as int));
        assert(samples@.take(i + 1).last() == s);
        i = i + 1;
    }
    assert(samples@.take(samples@.len() as int) =~= samples@);
    b
}

/// Rank of a status: the more free space, the higher.
pub open spec fn status_rank(s: DiskSpaceStatus) -> int {
    match s {
        DiskSpaceStatus::Critical => 0,
        DiskSpaceStatus::Warning => 1,
        DiskSpaceStatus::Sufficient => 2,
    }
}

/// More free space never gives a worse status, and a session that can be
/// begun with some free space can be begun with more.
pub proof fn lemma_disk_status_monotone(a: nat, b: nat)
    requires
        a <= b,
    ensures
        status_rank(disk_status_of(a)) <= status_rank(disk_status_of(b)),
        disk_status_of(a) != DiskSpaceStatus::Critical ==> disk_status_of(b) != DiskSpaceStatus::Critical,
{
}

/// The little-endian 16-bit field at byte `i`.
pub open spec fn u16_field(h: Seq<u8>, i: int) -> int {
    h[i] + 256 * h[i + 1]
}

/// The little-endian 32-bit field at byte `i`.
pub open spec fn u32_field(h: Seq<u8>, i: int) -> int {
    h[i] + 256 * h[i + 1] + 65536 * h[i + 2] + 16777216 * h[i + 3]
}

proof fn lemma_le32_reads_back(n: u32)
    ensures
        u32_field(le32(n as nat), 0) == n,
{
    let b = le32(n as nat);
    assert(b[0] == (n % 256) as u8 && b[1] == ((n / 256) % 256) as u8 && b[2] == ((n / 65536) % 256) as u8 && b[3] == ((n
        / 16777216) % 256) as u8);
    assert(n % 256 + 256 * ((n / 256) % 256) + 65536 * ((n / 65536) % 256) + 16777216 * ((n / 16777216) % 256) == n)
        by (bit_vector);
}

/// A WAV header read back field by field describes a valid PCM file of
/// `samples` samples of 16 kHz mono 16-bit audio: the format is PCM (1),
/// one channel, 16000 Hz, 16 bits per sample; the block align is
/// channels × bits / 8 and the byte rate is sample rate × block align; the
/// data chunk holds `samples` blocks, and the RIFF size is the data size
/// plus the 36 header bytes that follow the RIFF size field.
#[verifier::rlimit(100)]
pub proof fn lemma_wav_header_fields(samples: nat)
    requires
        samples * 2 + 36 <= u32::MAX,
    ensures
        ({
            let h = wav_header_bytes(samples);
            let channels = u16_field(h, 22);
            let sample_rate = u32_field(h, 24);
            let byte_rate = u32_field(h, 28);
            let block_align = u16_field(h, 32);
            let bits = u16_field(h, 34);
            &&& h.len() == WAV_HEADER_LEN
            &&& h.subrange(0, 4) == tag('R', 'I', 'F', 'F') && h.subrange(8, 12) == tag('W', 'A', 'V', 'E')
            &&& h.subrange(12, 16) == tag('f', 'm', 't', ' ') && h.subrange(36, 40) == tag('d', 'a', 't', 'a')
            &&& u32_field(h, 16) == 16
            &&& u16_field(h, 20) == 1
            &&& channels == 1 && sample_rate == 16000 && bits == 16
            &&& block_align == channels * bits / 8
            &&& byte_rate == sample_rate * block_align
            &&& u32_field(h, 40) == samples * block_align
            &&& u32_field(h, 4) == u32_field(h, 40) + 36
        }),
{
    let h = wav_header_bytes(samples);
    let d = (samples * 2) as u32;
    let r = (samples * 2 + 36) as u32;
    lemma_le32_reads_back(d);
    lemma_le32_reads_back(r);
    lemma_le32_reads_back(16);
    lemma_le32_reads_back(16000);
    lemma_le32_reads_back(32000);
    assert(h.subrange(4, 8) =~= le32(r as nat));
    assert(h.subrange(16, 20) =~= le32(16));
    assert(h.subrange(24, 28) =~= le32(16000));
    assert(h.subrange(28, 32) =~= le32(32000));
    assert(h.subrange(40, 44) =~= le32(d as nat));
    assert(h.subrange(20, 22) =~= le16(1));
    assert(h.subrange(22, 24) =~= le16(1));
    assert(h.subrange(32, 34) =~= le16(2));
    assert(h.subrange(34, 36) =~= le16(16));
    assert(h.subrange(0, 4) =~= tag('R', 'I', 'F', 'F'));
    assert(h.subrange(8, 12) =~= tag('W', 'A', 'V', 'E'));
    assert(h.subrange(12, 16) =~= tag('f', 'm', 't', ' '));
    assert(h.subrange(36, 40) =~= tag('d', 'a', 't', 'a'));
    assert(u32_field(h, 4) == u32_field(h.subrange(4, 8), 0));
    assert(u32_field(h, 16) == u32_field(h.subrange(16, 20), 0));
    assert(u32_field(h, 24) == u32_field(h.subrange(24, 28), 0));
    assert(u32_field(h, 28) == u32_field(h.subrange(28, 32), 0));
    assert(u32_field(h, 40) == u32_field(h.subrange(40, 44), 0));
}

} // verus!
