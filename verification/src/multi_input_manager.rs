//! Bookkeeping for parallel capture from up to two audio inputs: per-input
//! byte buffers with a drop-oldest overflow policy, start-request
//! validation, partial-failure handling and input-loss notification.
//!
//! Device adapters, threads and channels live with the caller; this module
//! decides what happens to the set of inputs and which event is due.

use vstd::prelude::*;
use crate::text::{push_decimal, decimal, join_seq, views_of};
use vstd::string::StringExecFns;

verus! {

/// Maximum number of simultaneous inputs.
pub const MAX_INPUTS: usize = 2;

/// Default per-input buffer size: one second of 16 kHz mono 16-bit audio.
pub const INPUT_BUFFER_BYTES: usize = 32000;

/// Role of an audio input device.
#[derive(Debug, Clone, Copy, PartialEq, Eq, Structural)]
pub enum InputRole {
    /// Microphone input (the user's voice).
    Microphone,
    /// Loopback / system audio (remote participants).
    Loopback,
}

/// Degradation events raised when inputs are lost.
#[derive(Debug, Clone, PartialEq, Eq)]
pub enum MultiInputEvent {
    /// One input was lost; the others continue.
    InputLost { device_id: String, reason: String, remaining_active: usize },
    /// The last active input was lost; recording cannot continue.
    AllInputsLost { reason: String },
}

/// Configuration of one input as far as the input set is concerned.  The
/// gain in dB travels alongside it with the caller, keyed by `device_id`.
#[derive(Debug, Clone, PartialEq, Eq)]
pub struct InputConfig {
    pub device_id: String,
    pub role: InputRole,
    pub muted: bool,
}

impl InputConfig {
    /// A new, unmuted input configuration.
    pub fn new(device_id: String, role: InputRole) -> (c: Self)
        ensures
            c.device_id == device_id,
            c.role == role,
            !c.muted,
    {
        InputConfig { device_id, role, muted: false }
    }

    /// A copy of this configuration.
    pub fn duplicate(&self) -> (c: Self)
        ensures
            c == *self,
    {
        InputConfig { device_id: self.device_id.clone(), role: self.role, muted: self.muted }
    }

    /// The same configuration with the given mute state.
    pub fn with_muted(self, muted: bool) -> (c: Self)
        ensures
            c.device_id == self.device_id,
            c.role == self.role,
            c.muted == muted,
    {
        InputConfig { muted, ..self }
    }
}

// ============================================================================
// InputBuffer
// ============================================================================

/// Bytes left free in a buffer of capacity `max` holding `len` bytes.
pub open spec fn available_space(len: nat, max: nat) -> nat {
    if len <= max {
        (max - len) as nat
    } else {
        0
    }
}

/// Bytes that a push of `data_len` bytes overflows by.
pub open spec fn push_overflow(len: nat, max: nat, data_len: nat) -> nat {
    if data_len <= available_space(len, max) {
        0
    } else {
        (data_len - available_space(len, max)) as nat
    }
}

/// Contents after pushing `data`: the old contents followed by `data`, of
/// which the oldest bytes are dropped so that at most `max` remain.
pub open spec fn push_drop_oldest(old: Seq<u8>, max: nat, data: Seq<u8>) -> Seq<u8> {
    let all = old + data;
    if all.len() <= max {
        all
    } else {
        all.skip(all.len() - max)
    }
}

/// Abstract state of an input buffer.
pub struct InputBufferView {
    pub contents: Seq<u8>,
    pub max_size: nat,
    pub lock_contention_drops: nat,
}

/// Per-input byte buffer (16 kHz mono i16 audio as little-endian bytes)
/// holding at most `max_size` bytes.
///
/// Pushing more than the free space drops the oldest bytes so that the
/// newest audio is always kept.  Callers that share the buffer between an
/// audio callback and a mixer record skipped pushes with
/// `record_lock_contention`.
pub struct InputBuffer {
    data: Vec<u8>,
    max_size: usize,
    lock_contention_drops: u64,
}

impl View for InputBuffer {
    type V = InputBufferView;

    closed spec fn view(&self) -> InputBufferView {
        InputBufferView {
            contents: self.data@,
            max_size: self.max_size as nat,
            lock_contention_drops: self.lock_contention_drops as nat,
        }
    }
}

/// Append all of `src` to `dst`.
fn append_bytes(dst: &mut Vec<u8>, src: &[u8])
    ensures
        final(dst)@ == old(dst)@ + src@,
{
    let mut i: usize = 0;
    while i < src.len()
        invariant
            i <= src@.len(),
            dst@ == old(dst)@ + src@.subrange(0, i as int),
        decreases src@.len() - i,
    {
        dst.push(src[i]);
        i = i + 1;
        assert(dst@ =~= old(dst)@ + src@.subrange(0, i as int));
    }
    assert(src@.subrange(0, src@.len() as int) =~= src@);
}

impl InputBuffer {
    /// The buffer never holds more than its capacity.
    #[verifier::type_invariant]
    spec fn within_capacity(self) -> bool {
        self.data@.len() <= self.max_size
    }

    /// An empty buffer holding at most `max_size` bytes.
    pub fn new(max_size: usize) -> (b: Self)
        ensures
            b@.contents == Seq::<u8>::empty(),
            b@.max_size == max_size,
            b@.lock_contention_drops == 0,
    {
        InputBuffer { data: Vec::new(), max_size, lock_contention_drops: 0 }
    }

    /// Push audio bytes, dropping the oldest bytes on overflow so that at
    /// most `max_size` bytes remain.  Returns `Some(n)` where `n` is the
    /// number of bytes by which the push exceeded the free space (0 when
    /// everything fit).
    pub fn push(&mut self, audio_data: &[u8]) -> (r: Option<usize>)
        ensures
            r == Some(push_overflow(old(self)@.contents.len(), old(self)@.max_size, audio_data@.len()) as usize),
            final(self)@.contents == push_drop_oldest(old(self)@.contents, old(self)@.max_size, audio_data@),
            final(self)@.max_size == old(self)@.max_size,
            final(self)@.lock_contention_drops == old(self)@.lock_contention_drops,
            final(self)@.contents.len() <= final(self)@.max_size,
            // the newest bytes are always kept, in order, at the end
            audio_data@.len() <= old(self)@.max_size ==> final(self)@.contents.subrange(
                final(self)@.contents.len() - audio_data@.len(),
                final(self)@.contents.len() as int,
            ) == audio_data@,
    {
        proof {
            use_type_invariant(&*self);
        }
        let len = self.data.len();
        let available: usize = self.max_size - len;
        let mut data: Vec<u8> = Vec::new();
        std::mem::swap(&mut data, &mut self.data);
        let ghost before = data@;
        append_bytes(&mut data, audio_data);
        let ghost all = data@;
        assert(all == before + audio_data@);
        let result = if audio_data.len() <= available {
            0
        } else {
            audio_data.len() - available
        };
        if data.len() > self.max_size {
            let drop_count = data.len() - self.max_size;
            let kept = data.split_off(drop_count);
            data = kept;
            assert(data@ =~= all.skip(all.len() - self.max_size));
        }
        self.data = data;
        proof {
            let fin = self.data@;
            if audio_data@.len() <= self.max_size {
                assert(fin.subrange(fin.len() - audio_data@.len(), fin.len() as int) =~= audio_data@);
            }
        }
        Some(result)
    }

    /// Count one push that was skipped because the buffer was busy.
    pub fn record_lock_contention(&mut self)
        ensures
            final(self)@.contents == old(self)@.contents,
            final(self)@.max_size == old(self)@.max_size,
            final(self)@.lock_contention_drops == (if old(self)@.lock_contention_drops == u64::MAX {
                0
            } else {
                old(self)@.lock_contention_drops + 1
            }),
    {
        proof {
            use_type_invariant(&*self);
        }
        if self.lock_contention_drops == u64::MAX {
            self.lock_contention_drops = 0;
        } else {
            self.lock_contention_drops = self.lock_contention_drops + 1;
        }
    }

    /// Number of pushes skipped because the buffer was busy.
    pub fn lock_contention_drops(&self) -> (n: u64)
        ensures
            n == self@.lock_contention_drops,
    {
        self.lock_contention_drops
    }

    /// Remove and return up to `max_bytes` of the oldest bytes.
    pub fn take(&mut self, max_bytes: usize) -> (out: Vec<u8>)
        ensures
            out@ == old(self)@.contents.take(
                if max_bytes <= old(self)@.contents.len() { max_bytes as int } else { old(self)@.contents.len() as int },
            ),
            final(self)@.contents == old(self)@.contents.skip(out@.len() as int),
            final(self)@.max_size == old(self)@.max_size,
            final(self)@.lock_contention_drops == old(self)@.lock_contention_drops,
    {
        proof {
            use_type_invariant(&*self);
        }
        let mut data: Vec<u8> = Vec::new();
        std::mem::swap(&mut data, &mut self.data);
        let take_count = if max_bytes <= data.len() { max_bytes } else { data.len() };
        let rest = data.split_off(take_count);
        self.data = rest;
        data
    }

    /// Current number of buffered bytes; never more than the capacity.
    pub fn level(&self) -> (n: usize)
        ensures
            n == self@.contents.len(),
            n <= self@.max_size,
    {
        proof {
            use_type_invariant(self);
        }
        self.data.len()
    }

    /// Discard all buffered bytes.
    pub fn clear(&mut self)
        ensures
            final(self)@.contents == Seq::<u8>::empty(),
            final(self)@.max_size == old(self)@.max_size,
            final(self)@.lock_contention_drops == old(self)@.lock_contention_drops,
    {
        proof {
            use_type_invariant(&*self);
        }
        self.data = Vec::new();
    }

    /// Capacity in bytes.
    pub fn max_size(&self) -> (n: usize)
        ensures
            n == self@.max_size,
    {
        self.max_size
    }
}

/// Pushing data that fits and then taking everything gives the data back
/// unchanged: the buffer is first-in, first-out.
pub proof fn lemma_push_then_take_is_fifo(old: Seq<u8>, max: nat, data: Seq<u8>)
    requires
        old.len() + data.len() <= max,
    ensures
        push_drop_oldest(old, max, data) == old + data,
        push_drop_oldest(old, max, data).take(old.len() as int) == old,
        push_drop_oldest(old, max, data).skip(old.len() as int) == data,
{
    assert(old.skip(0) =~= old);
    assert((old + data).take(old.len() as int) =~= old);
    assert((old + data).skip(old.len() as int) =~= data);
}

} // verus!

verus! {

// ============================================================================
// MultiInputManager
// ============================================================================

/// Why a start request was refused or failed.
#[derive(Debug, Clone, PartialEq, Eq)]
pub enum StartError {
    AlreadyRecording,
    NoInputs,
    TooManyInputs { count: usize },
    DuplicateDeviceId { device_id: String },
    /// No input could be started; `details` lists each failure.
    AllInputsFailed { details: String },
    /// Some inputs failed while partial failure was not allowed.
    PartialFailure { details: String },
}

/// The user-facing message for a start error.
pub open spec fn start_error_message(e: StartError) -> Seq<char> {
    match e {
        StartError::AlreadyRecording => "Already recording"@,
        StartError::NoInputs => "At least one input configuration required"@,
        StartError::TooManyInputs { count } => "Maximum 2 inputs supported, got "@ + decimal(
            count as nat,
        ),
        StartError::DuplicateDeviceId { device_id } => "Duplicate device_id detected: '"@
            + device_id@ + "'. Each input must use a unique device."@,
        StartError::AllInputsFailed { details } => "All inputs failed to start: "@ + details@,
        StartError::PartialFailure { details } =>
            "Some inputs failed and continue_on_partial_failure=false: "@ + details@,
    }
}

impl StartError {
    /// Render the error as the message shown to the user.
    pub fn message(&self) -> (s: String)
        ensures
            s@ == start_error_message(*self),
    {
        match self {
            StartError::AlreadyRecording => String::from_str("Already recording"),
            StartError::NoInputs => String::from_str("At least one input configuration required"),
            StartError::TooManyInputs { count } => {
                let mut s = String::from_str("Maximum 2 inputs supported, got ");
                push_decimal(&mut s, *count as u64);
                s
            },
            StartError::DuplicateDeviceId { device_id } => {
                let mut s = String::from_str("Duplicate device_id detected: '");
                s.append(device_id.as_str());
                s.append("'. Each input must use a unique device.");
                s
            },
            StartError::AllInputsFailed { details } => {
                let mut s = String::from_str("All inputs failed to start: ");
                s.append(details.as_str());
                s
            },
            StartError::PartialFailure { details } => {
                let mut s = String::from_str(
                    "Some inputs failed and continue_on_partial_failure=false: ",
                );
                s.append(details.as_str());
                s
            },
        }
    }
}

/// `device_id: error` for each device that failed to stop.
pub open spec fn failure_entries(f: Seq<(String, String)>) -> Seq<Seq<char>> {
    Seq::new(f.len(), |i: int| f[i].0@ + ": "@ + f[i].1@)
}

/// Error of a stop in which some devices failed to stop.
pub open spec fn stop_failure_text(f: Seq<(String, String)>) -> Seq<char> {
    "Some inputs failed to stop: "@ + join_seq(failure_entries(f), "; "@)
}

/// One input known to the manager.
#[derive(Debug, Clone, PartialEq, Eq)]
pub struct ManagedInput {
    pub config: InputConfig,
    pub is_active: bool,
}

/// The health of one input for display: its identity, whether it still
/// captures, and its buffer figures.  The occupancy percentage and the gain
/// in dB are floating-point figures that the application adds.
#[derive(Debug, Clone, PartialEq, Eq)]
pub struct InputStatus {
    pub device_id: String,
    pub role: InputRole,
    pub is_active: bool,
    pub is_muted: bool,
    /// Bytes buffered.
    pub buffer_level_bytes: usize,
    /// Capacity of the buffer in bytes.
    pub buffer_max_bytes: usize,
    /// Pushes skipped because the buffer was busy.
    pub lock_contention_drops: u64,
}

/// The status of `input` whose audio is buffered in `buffer`.
pub fn input_status(input: &ManagedInput, buffer: &InputBuffer) -> (st: InputStatus)
    ensures
        st.device_id@ == input.config.device_id@,
        st.role == input.config.role,
        st.is_active == input.is_active,
        st.is_muted == input.config.muted,
        st.buffer_level_bytes == buffer@.contents.len(),
        st.buffer_max_bytes == buffer@.max_size,
        st.lock_contention_drops == buffer@.lock_contention_drops,
        st.buffer_level_bytes <= st.buffer_max_bytes,
{
    InputStatus {
        device_id: input.config.device_id.clone(),
        role: input.config.role,
        is_active: input.is_active,
        is_muted: input.config.muted,
        buffer_level_bytes: buffer.level(),
        buffer_max_bytes: buffer.max_size(),
        lock_contention_drops: buffer.lock_contention_drops(),
    }
}

/// Number of active inputs.
pub open spec fn count_active(s: Seq<ManagedInput>) -> nat
    decreases s.len(),
{
    if s.len() == 0 {
        0
    } else {
        count_active(s.drop_last()) + if s.last().is_active {
            1nat
        } else {
            0nat
        }
    }
}

/// No device id occurs twice.
pub open spec fn unique_ids(s: Seq<ManagedInput>) -> bool {
    forall|i: int, j: int|
        0 <= i < s.len() && 0 <= j < s.len() && i != j ==> s[i].config.device_id@
            != s[j].config.device_id@
}

/// No device id occurs twice among configurations.
pub open spec fn unique_config_ids(s: Seq<InputConfig>) -> bool {
    forall|i: int, j: int| 0 <= i < s.len() && 0 <= j < s.len() && i != j ==> s[i].device_id@ != s[j].device_id@
}

/// Index of the input with the given device id, if any.
pub open spec fn index_of(s: Seq<ManagedInput>, device_id: Seq<char>) -> Option<int> {
    if exists|i: int| 0 <= i < s.len() && s[i].config.device_id@ == device_id {
        Some(choose|i: int| 0 <= i < s.len() && s[i].config.device_id@ == device_id)
    } else {
        None
    }
}

/// Abstract state of the manager.
pub struct MultiInputManagerView {
    pub inputs: Seq<ManagedInput>,
    pub is_recording: bool,
}

/// Manager for up to two parallel inputs.
pub struct MultiInputManager {
    inputs: Vec<ManagedInput>,
    is_recording: bool,
}

impl View for MultiInputManager {
    type V = MultiInputManagerView;

    closed spec fn view(&self) -> MultiInputManagerView {
        MultiInputManagerView { inputs: self.inputs@, is_recording: self.is_recording }
    }
}

/// The outcome of a start: each configuration paired with whether it started.
pub open spec fn started_inputs(configs: Seq<InputConfig>, started: Seq<bool>) -> Seq<ManagedInput> {
    Seq::new(configs.len(), |i: int| ManagedInput { config: configs[i], is_active: started[i] })
}

/// Number of `true` entries.
pub open spec fn count_true(s: Seq<bool>) -> nat
    decreases s.len(),
{
    if s.len() == 0 {
        0
    } else {
        count_true(s.drop_last()) + if s.last() {
            1nat
        } else {
            0nat
        }
    }
}

/// The activity count of a start outcome is the number of inputs that started.
proof fn lemma_count_started(configs: Seq<InputConfig>, started: Seq<bool>)
    requires
        configs.len() == started.len(),
    ensures
        count_active(started_inputs(configs, started)) == count_true(started),
    decreases configs.len(),
{
    if configs.len() > 0 {
        let c2 = configs.drop_last();
        let s2 = started.drop_last();
        lemma_count_started(c2, s2);
        assert(started_inputs(configs, started).drop_last() =~= started_inputs(c2, s2));
    }
}

/// Deactivating an active input lowers the active count by one.
proof fn lemma_count_after_deactivate(s: Seq<ManagedInput>, i: int)
    requires
        0 <= i < s.len(),
        s[i].is_active,
    ensures
        count_active(s.update(i, ManagedInput { config: s[i].config, is_active: false })) + 1
            == count_active(s),
    decreases s.len(),
{
    let t = s.update(i, ManagedInput { config: s[i].config, is_active: false });
    if i == s.len() - 1 {
        assert(t.drop_last() =~= s.drop_last());
    } else {
        lemma_count_after_deactivate(s.drop_last(), i);
        assert(t.drop_last() =~= s.drop_last().update(
            i,
            ManagedInput { config: s[i].config, is_active: false },
        ));
    }
}

proof fn lemma_count_bounded(s: Seq<ManagedInput>)
    ensures
        count_active(s) <= s.len(),
    decreases s.len(),
{
    if s.len() > 0 {
        lemma_count_bounded(s.drop_last());
    }
}

impl MultiInputManager {
    #[verifier::type_invariant]
    spec fn wf(self) -> bool {
        &&& !self.is_recording ==> self.inputs@.len() == 0
        &&& self.inputs@.len() <= MAX_INPUTS
        &&& unique_ids(self.inputs@)
    }

    /// A manager with no inputs, not recording.
    pub fn new() -> (m: Self)
        ensures
            m@.inputs == Seq::<ManagedInput>::empty(),
            !m@.is_recording,
    {
        MultiInputManager { inputs: Vec::new(), is_recording: false }
    }

    /// Check a start request before any device is touched: not already
    /// recording, one or two inputs, no device id twice.
    pub fn validate_start(&self, configs: &Vec<InputConfig>) -> (r: Result<(), StartError>)
        ensures
            self@.is_recording ==> r == Err::<(), StartError>(StartError::AlreadyRecording),
            !self@.is_recording && configs@.len() == 0 ==> r == Err::<(), StartError>(
                StartError::NoInputs,
            ),
            !self@.is_recording && configs@.len() > MAX_INPUTS ==> r == Err::<(), StartError>(
                StartError::TooManyInputs { count: configs@.len() as usize },
            ),
            !self@.is_recording && configs@.len() == 2 && configs@[0].device_id@
                == configs@[1].device_id@ ==> r == Err::<(), StartError>(
                StartError::DuplicateDeviceId { device_id: configs@[1].device_id },
            ),
            r is Ok <==> !self@.is_recording && 1 <= configs@.len() <= MAX_INPUTS
                && unique_config_ids(configs@),
    {
        if self.is_recording {
            return Err(StartError::AlreadyRecording);
        }
        if configs.len() == 0 {
            return Err(StartError::NoInputs);
        }
        if configs.len() > MAX_INPUTS {
            return Err(StartError::TooManyInputs { count: configs.len() });
        }
        if configs.len() == 2 && configs[0].device_id == configs[1].device_id {
            return Err(StartError::DuplicateDeviceId { device_id: configs[1].device_id.clone() });
        }
        Ok(())
    }

    /// Record the outcome of starting the validated `configs`, where
    /// `started[i]` tells whether input `i` started and `failures` holds one
    /// message per failed input, in order.
    ///
    /// * No input started: the input set stays empty and `AllInputsFailed`
    ///   is returned.
    /// * Some failed and partial failure is not allowed: the caller stops the
    ///   started inputs; the input set stays empty and `PartialFailure` is
    ///   returned.
    /// * Otherwise every input is kept (failed ones as inactive), recording
    ///   begins and the number of started inputs is returned.
    pub fn commit_start(
        &mut self,
        configs: Vec<InputConfig>,
        started: Vec<bool>,
        failures: Vec<String>,
        continue_on_partial_failure: bool,
    ) -> (r: Result<usize, StartError>)
        requires
            !old(self)@.is_recording,
            1 <= configs@.len() <= MAX_INPUTS,
            unique_config_ids(configs@),
            started@.len() == configs@.len(),
        ensures
            count_true(started@) == 0 ==> (r matches Err(StartError::AllInputsFailed { details })
                && details@ == crate::text::join_seq(crate::text::views_of(failures@), "; "@)),
            0 < count_true(started@) < configs@.len() && !continue_on_partial_failure ==> (r
                matches Err(StartError::PartialFailure { details }) && details@
                == crate::text::join_seq(crate::text::views_of(failures@), "; "@)),
            r is Err ==> final(self)@.inputs.len() == 0 && !final(self)@.is_recording,
            r is Ok <==> count_true(started@) > 0 && (continue_on_partial_failure || count_true(
                started@,
            ) == configs@.len()),
            r matches Ok(n) ==> n == count_true(started@) && final(self)@.is_recording
                && final(self)@.inputs == started_inputs(configs@, started@),
    {
        proof {
            use_type_invariant(&*self);
        }
        let mut count: usize = 0;
        let mut i: usize = 0;
        while i < started.len()
            invariant
                i <= started@.len(),
                started@.len() <= MAX_INPUTS,
                count == count_true(started@.take(i as int)),
                count <= i,
            decreases started@.len() - i,
        {
            assert(started@.take(i + 1).drop_last() =~= started@.take(i as int));
            if started[i] {
                count = count + 1;
            }
            i = i + 1;
        }
        assert(started@.take(started@.len() as int) =~= started@);
        if count == 0 {
            let details = crate::text::join_strings(&failures, "; ");
            return Err(StartError::AllInputsFailed { details });
        }
        if !continue_on_partial_failure && count < configs.len() {
            let details = crate::text::join_strings(&failures, "; ");
            return Err(StartError::PartialFailure { details });
        }
        let mut inputs: Vec<ManagedInput> = Vec::new();
        let mut k: usize = 0;
        while k < configs.len()
            invariant
                k <= configs@.len(),
                started@.len() == configs@.len(),
                inputs@ == started_inputs(configs@, started@).take(k as int),
            decreases configs@.len() - k,
        {
            inputs.push(ManagedInput { config: configs[k].duplicate(), is_active: started[k] });
            k = k + 1;
            assert(inputs@ =~= started_inputs(configs@, started@).take(k as int));
        }
        assert(started_inputs(configs@, started@).take(configs@.len() as int) =~= started_inputs(
            configs@,
            started@,
        ));
        proof {
            lemma_count_started(configs@, started@);
        }
        assert(unique_ids(inputs@));
        self.is_recording = true;
        self.inputs = inputs;
        Ok(count)
    }

    /// Forget all inputs and stop recording, after the caller stopped the
    /// devices; `stop_failures` holds `(device_id, error)` for each device
    /// that failed to stop, in input order.  The state is cleared either way;
    /// the result is `Err("Some inputs failed to stop: d1: e1; d2: e2")`
    /// exactly when some device failed.
    pub fn stop(&mut self, stop_failures: &Vec<(String, String)>) -> (r: Result<(), String>)
        ensures
            final(self)@.inputs == Seq::<ManagedInput>::empty(),
            !final(self)@.is_recording,
            r is Ok <==> stop_failures@.len() == 0,
            r matches Err(m) ==> m@ == stop_failure_text(stop_failures@),
    {
        self.inputs = Vec::new();
        self.is_recording = false;
        if stop_failures.len() == 0 {
            return Ok(());
        }
        let mut parts: Vec<String> = Vec::new();
        let mut i: usize = 0;
        while i < stop_failures.len()
            invariant
                i <= stop_failures@.len(),
                views_of(parts@) == failure_entries(stop_failures@).take(i as int),
            decreases stop_failures@.len() - i,
        {
            let ghost before = parts@;
            let mut part = String::from_str(stop_failures[i].0.as_str());
            part.append(": ");
            part.append(stop_failures[i].1.as_str());
            assert(part@ == failure_entries(stop_failures@)[i as int]);
            parts.push(part);
            assert(parts@ == before.push(part));
            assert(views_of(parts@) =~= views_of(before).push(part@));
            assert(failure_entries(stop_failures@).take(i + 1) =~= failure_entries(stop_failures@).take(i as int).push(
                failure_entries(stop_failures@)[i as int],
            ));
            i = i + 1;
            assert(views_of(parts@) =~= failure_entries(stop_failures@).take(i as int));
        }
        assert(failure_entries(stop_failures@).take(i as int) =~= failure_entries(stop_failures@));
        let joined = crate::text::join_strings(&parts, "; ");
        let mut m = String::from_str("Some inputs failed to stop: ");
        m.append(joined.as_str());
        Err(m)
    }

    /// Whether recording is active.
    pub fn is_recording(&self) -> (b: bool)
        ensures
            b == self@.is_recording,
    {
        self.is_recording
    }

    /// Number of inputs currently capturing.
    pub fn active_input_count(&self) -> (n: usize)
        ensures
            n == count_active(self@.inputs),
    {
        proof {
            use_type_invariant(self);
        }
        let mut n: usize = 0;
        let mut i: usize = 0;
        while i < self.inputs.len()
            invariant
                i <= self.inputs@.len(),
                self.inputs@.len() <= MAX_INPUTS,
                n == count_active(self.inputs@.take(i as int)),
                n <= i,
            decreases self.inputs@.len() - i,
        {
            assert(self.inputs@.take(i + 1).drop_last() =~= self.inputs@.take(i as int));
            if self.inputs[i].is_active {
                n = n + 1;
            }
            i = i + 1;
        }
        assert(self.inputs@.take(self.inputs@.len() as int) =~= self.inputs@);
        n
    }

    /// Whether any input is still capturing.
    pub fn has_active_inputs(&self) -> (b: bool)
        ensures
            b == (count_active(self@.inputs) > 0),
    {
        self.active_input_count() > 0
    }

    /// All inputs with their activity, in start order.
    pub fn inputs(&self) -> (r: &Vec<ManagedInput>)
        ensures
            r@ == self@.inputs,
    {
        &self.inputs
    }

    /// Position of the input with the given device id.
    fn find(&self, device_id: &str) -> (r: Option<usize>)
        ensures
            r matches Some(i) ==> i < self@.inputs.len() && self@.inputs[i as int].config.device_id@
                == device_id@,
            r is None ==> forall|i: int|
                0 <= i < self@.inputs.len() ==> self@.inputs[i].config.device_id@ != device_id@,
    {
        let mut i: usize = 0;
        while i < self.inputs.len()
            invariant
                i <= self.inputs@.len(),
                forall|k: int| 0 <= k < i ==> self.inputs@[k].config.device_id@ != device_id@,
            decreases self.inputs@.len() - i,
        {
            if crate::text::str_eq(self.inputs[i].config.device_id.as_str(), device_id) {
                return Some(i);
            }
            i = i + 1;
        }
        None
    }

    /// Configuration of the input with the given device id.
    pub fn get_config(&self, device_id: &str) -> (r: Option<&InputConfig>)
        ensures
            r matches Some(c) ==> exists|i: int|
                0 <= i < self@.inputs.len() && self@.inputs[i].config == *c && c.device_id@
                    == device_id@,
            r is None <==> forall|i: int|
                0 <= i < self@.inputs.len() ==> self@.inputs[i].config.device_id@ != device_id@,
    {
        match self.find(device_id) {
            Some(i) => Some(&self.inputs[i].config),
            None => None,
        }
    }

    /// Mark an active input as lost.  Returns the event to publish: `InputLost`
    /// while other inputs remain active, `AllInputsLost` for the last one.
    /// Unknown or already inactive inputs are left alone and yield `None`.
    pub fn mark_input_lost(&mut self, device_id: &str, reason: &str) -> (ev: Option<MultiInputEvent>)
        ensures
            final(self)@.is_recording == old(self)@.is_recording,
            final(self)@.inputs.len() == old(self)@.inputs.len(),
            ev is None <==> forall|i: int|
                0 <= i < old(self)@.inputs.len() && old(self)@.inputs[i].config.device_id@ == device_id@
                    ==> !old(self)@.inputs[i].is_active,
            ev is None ==> final(self)@.inputs == old(self)@.inputs,
            ev is Some ==> count_active(final(self)@.inputs) + 1 == count_active(old(self)@.inputs),
            ev is Some ==> exists|i: int|
                0 <= i < old(self)@.inputs.len() && old(self)@.inputs[i].config.device_id@ == device_id@
                    && old(self)@.inputs[i].is_active && final(self)@.inputs == old(self)@.inputs.update(
                    i,
                    ManagedInput { config: old(self)@.inputs[i].config, is_active: false },
                ),
            ev matches Some(MultiInputEvent::InputLost { device_id: d, reason: r, remaining_active: n })
                ==> d@ == device_id@ && r@ == reason@ && n == count_active(final(self)@.inputs) && n > 0,
            ev matches Some(MultiInputEvent::AllInputsLost { reason: r }) ==> count_active(
                final(self)@.inputs,
            ) == 0 && r@ == "Last input '"@ + device_id@ + "' lost: "@ + reason@,
    {
        proof {
            use_type_invariant(&*self);
        }
        let idx = self.find(device_id);
        match idx {
            None => None,
            Some(i) => {
                if !self.inputs[i].is_active {
                    proof {
                        assert forall|k: int|
                            0 <= k < self.inputs@.len() && self.inputs@[k].config.device_id@
                                == device_id@ implies !self.inputs@[k].is_active by {
                            if k != i {
                                assert(self.inputs@[k].config.device_id@ != self.inputs@[i as int].config.device_id@);
                            }
                        }
                    }
                    return None;
                }
                let ghost before = self.inputs@;
                let mut updated: Vec<ManagedInput> = Vec::new();
                let mut k: usize = 0;
                while k < self.inputs.len()
                    invariant
                        k <= self.inputs@.len(),
                        self.inputs@ == before,
                        i < before.len(),
                        updated@ == before.update(
                            i as int,
                            ManagedInput { config: before[i as int].config, is_active: false },
                        ).take(k as int),
                    decreases self.inputs@.len() - k,
                {
                    let config = self.inputs[k].config.duplicate();
                    let active = if k == i { false } else { self.inputs[k].is_active };
                    updated.push(ManagedInput { config, is_active: active });
                    k = k + 1;
                    assert(updated@ =~= before.update(
                        i as int,
                        ManagedInput { config: before[i as int].config, is_active: false },
                    ).take(k as int));
                }
                self.inputs = updated;
                proof {
                    lemma_count_after_deactivate(before, i as int);
                    assert(self.inputs@ =~= before.update(
                        i as int,
                        ManagedInput { config: before[i as int].config, is_active: false },
                    ));
                    assert(unique_ids(self.inputs@));
                }
                let remaining = self.active_input_count();
                if remaining == 0 {
                    let mut r = String::from_str("Last input '");
                    r.append(device_id);
                    r.append("' lost: ");
                    r.append(reason);
                    Some(MultiInputEvent::AllInputsLost { reason: r })
                } else {
                    Some(
                        MultiInputEvent::InputLost {
                            device_id: String::from_str(device_id),
                            reason: String::from_str(reason),
                            remaining_active: remaining,
                        },
                    )
                }
            },
        }
    }
}

} // verus!
