//! Frame extraction, drift correction and metrics for the multi-input mixer.
//!
//! Every 10 ms the mixer takes one frame (160 samples at 16 kHz) from each
//! input buffer, pads short frames with silence, and keeps each input within
//! a few samples of the mixer's reference clock by dropping or duplicating a
//! sample in the middle of the frame.  The gain-weighted summation itself is
//! floating-point work done by the caller on the frames produced here.

use vstd::prelude::*;
use crate::multi_input_manager::{InputBuffer, InputBufferView};

verus! {

/// Frame duration in milliseconds.
pub const FRAME_DURATION_MS: u32 = 10;

/// Samples per 10 ms frame at 16 kHz.
pub const SAMPLES_PER_FRAME: usize = 160;

/// Bytes per frame (two bytes per sample).
pub const BYTES_PER_FRAME: usize = 320;

/// Drift (in samples) tolerated before a correction is applied.
pub const DRIFT_THRESHOLD_SAMPLES: i32 = 10;

/// Minimum time between two corrections of one input, in milliseconds.
pub const DRIFT_CORRECTION_MIN_INTERVAL_MS: u64 = 100;

/// Magnitude bound on the sample counters, far beyond any real recording.
pub const COUNTER_LIMIT: i64 = 0x1000_0000_0000_0000;

// ============================================================================
// Metrics
// ============================================================================

/// `x + y` modulo 2^64, as an atomic `fetch_add` computes it.
pub open spec fn wrapping_add_u64(x: u64, y: u64) -> u64 {
    if x + y > u64::MAX {
        (x + y - 0x1_0000_0000_0000_0000) as u64
    } else {
        (x + y) as u64
    }
}

fn wrapping_add(x: u64, y: u64) -> (r: u64)
    ensures
        r == wrapping_add_u64(x, y),
{
    if x <= u64::MAX - y {
        x + y
    } else {
        y - (u64::MAX - x) - 1
    }
}

/// Counters collected by the mixer for observability.
#[derive(Debug, Clone, Copy, PartialEq, Eq, Structural)]
pub struct MixerMetrics {
    /// Drift corrections performed.
    pub drift_correction_count: u64,
    /// Frames in which clipping occurred.
    pub clip_count: u64,
    /// Frames padded with silence because an input ran short.
    pub silence_insertion_count: u64,
    /// Frames mixed.
    pub frames_mixed: u64,
    /// Largest mix latency seen, in microseconds.
    pub max_mix_latency_us: u64,
    /// Sum of mix latencies, in microseconds.
    pub total_mix_latency_us: u64,
    /// Number of latency measurements.
    pub latency_sample_count: u64,
}

/// Metrics after one more latency measurement: the maximum is raised if
/// needed, the total and the measurement count grow (modulo 2^64).
pub open spec fn with_latency(m: MixerMetrics, latency_us: u64) -> MixerMetrics {
    MixerMetrics {
        max_mix_latency_us: if latency_us > m.max_mix_latency_us {
            latency_us
        } else {
            m.max_mix_latency_us
        },
        total_mix_latency_us: wrapping_add_u64(m.total_mix_latency_us, latency_us),
        latency_sample_count: wrapping_add_u64(m.latency_sample_count, 1),
        ..m
    }
}

/// Metrics after the measurements `ls`, in order.
pub open spec fn with_latencies(m: MixerMetrics, ls: Seq<u64>) -> MixerMetrics
    decreases ls.len(),
{
    if ls.len() == 0 {
        m
    } else {
        with_latency(with_latencies(m, ls.drop_last()), ls.last())
    }
}

/// Sum of measurements.
pub open spec fn latency_sum(ls: Seq<u64>) -> nat
    decreases ls.len(),
{
    if ls.len() == 0 {
        0
    } else {
        latency_sum(ls.drop_last()) + ls.last() as nat
    }
}

/// Largest measurement (0 for none).
pub open spec fn latency_max(ls: Seq<u64>) -> u64
    decreases ls.len(),
{
    if ls.len() == 0 {
        0
    } else if ls.last() > latency_max(ls.drop_last()) {
        ls.last()
    } else {
        latency_max(ls.drop_last())
    }
}

/// Starting from zero, the metrics after the latency measurements `ls`
/// hold their maximum, their sum and their number (so the average latency
/// is the sum over the number), while the sum fits in 64 bits; the other
/// counters stay at zero.
pub proof fn lemma_latency_totals(ls: Seq<u64>)
    requires
        latency_sum(ls) <= u64::MAX,
        ls.len() <= u64::MAX,
    ensures
        with_latencies(zero_metrics(), ls) == (MixerMetrics {
            max_mix_latency_us: latency_max(ls),
            total_mix_latency_us: latency_sum(ls) as u64,
            latency_sample_count: ls.len() as u64,
            ..zero_metrics()
        }),
    decreases ls.len(),
{
    if ls.len() > 0 {
        lemma_latency_totals(ls.drop_last());
    }
}

/// Metrics with every counter at zero.
pub open spec fn zero_metrics() -> MixerMetrics {
    MixerMetrics {
        drift_correction_count: 0,
        clip_count: 0,
        silence_insertion_count: 0,
        frames_mixed: 0,
        max_mix_latency_us: 0,
        total_mix_latency_us: 0,
        latency_sample_count: 0,
    }
}

impl MixerMetrics {
    /// All counters at zero.
    pub fn new() -> (m: Self)
        ensures
            m == zero_metrics(),
    {
        MixerMetrics {
            drift_correction_count: 0,
            clip_count: 0,
            silence_insertion_count: 0,
            frames_mixed: 0,
            max_mix_latency_us: 0,
            total_mix_latency_us: 0,
            latency_sample_count: 0,
        }
    }

    pub fn increment_drift_correction(&mut self)
        ensures
            *final(self) == (MixerMetrics {
                drift_correction_count: wrapping_add_u64(old(self).drift_correction_count, 1),
                ..*old(self)
            }),
    {
        self.drift_correction_count = wrapping_add(self.drift_correction_count, 1);
    }

    pub fn increment_clip(&mut self)
        ensures
            *final(self) == (MixerMetrics {
                clip_count: wrapping_add_u64(old(self).clip_count, 1),
                ..*old(self)
            }),
    {
        self.clip_count = wrapping_add(self.clip_count, 1);
    }

    pub fn increment_silence_insertion(&mut self)
        ensures
            *final(self) == (MixerMetrics {
                silence_insertion_count: wrapping_add_u64(old(self).silence_insertion_count, 1),
                ..*old(self)
            }),
    {
        self.silence_insertion_count = wrapping_add(self.silence_insertion_count, 1);
    }

    pub fn increment_frames_mixed(&mut self)
        ensures
            *final(self) == (MixerMetrics {
                frames_mixed: wrapping_add_u64(old(self).frames_mixed, 1),
                ..*old(self)
            }),
    {
        self.frames_mixed = wrapping_add(self.frames_mixed, 1);
    }

    pub fn get_drift_correction_count(&self) -> (n: u64)
        ensures
            n == self.drift_correction_count,
    {
        self.drift_correction_count
    }

    pub fn get_clip_count(&self) -> (n: u64)
        ensures
            n == self.clip_count,
    {
        self.clip_count
    }

    pub fn get_silence_insertion_count(&self) -> (n: u64)
        ensures
            n == self.silence_insertion_count,
    {
        self.silence_insertion_count
    }

    pub fn get_frames_mixed(&self) -> (n: u64)
        ensures
            n == self.frames_mixed,
    {
        self.frames_mixed
    }

    /// Record one mix latency measurement: the maximum is raised if needed,
    /// the total and the measurement count grow.
    pub fn record_latency_us(&mut self, latency_us: u64)
        ensures
            *final(self) == with_latency(*old(self), latency_us),
    {
        if latency_us > self.max_mix_latency_us {
            self.max_mix_latency_us = latency_us;
        }
        self.total_mix_latency_us = wrapping_add(self.total_mix_latency_us, latency_us);
        self.latency_sample_count = wrapping_add(self.latency_sample_count, 1);
    }
}

// ============================================================================
// Drift tracking
// ============================================================================

/// Drift state of one input.
#[derive(Debug, Clone, Copy, PartialEq, Eq, Structural)]
pub struct InputDriftState {
    /// Cumulative samples taken from the input (adjusted by corrections).
    pub samples_received: i64,
    /// Time of the last correction, in milliseconds of a monotonic clock.
    pub last_correction_ms: Option<u64>,
}

/// State of an input that has not delivered any samples yet.
pub open spec fn fresh_drift_state() -> InputDriftState {
    InputDriftState { samples_received: 0, last_correction_ms: None }
}

impl InputDriftState {
    pub fn new() -> (s: Self)
        ensures
            s == fresh_drift_state(),
    {
        InputDriftState { samples_received: 0, last_correction_ms: None }
    }
}

/// The state recorded for `id`, searching from the most recent entry.
pub open spec fn lookup(entries: Seq<(String, InputDriftState)>, id: Seq<char>) -> Option<InputDriftState>
    decreases entries.len(),
{
    if entries.len() == 0 {
        None
    } else if entries.last().0@ == id {
        Some(entries.last().1)
    } else {
        lookup(entries.drop_last(), id)
    }
}

/// Little-endian decoding of a 16-bit signed sample.
pub open spec fn le_i16(lo: u8, hi: u8) -> i16 {
    let v = lo as int + 256 * hi as int;
    if v < 32768 {
        v as i16
    } else {
        (v - 65536) as i16
    }
}

/// The samples encoded in a byte sequence; a trailing odd byte is ignored.
pub open spec fn decode_samples(bytes: Seq<u8>) -> Seq<i16> {
    Seq::new(bytes.len() / 2, |k: int| le_i16(bytes[2 * k], bytes[2 * k + 1]))
}

/// `s` padded with zero samples (or cut) to exactly `n` samples.
pub open spec fn fit_to(s: Seq<i16>, n: nat) -> Seq<i16> {
    if s.len() >= n {
        s.take(n as int)
    } else {
        s + Seq::new((n - s.len()) as nat, |k: int| 0i16)
    }
}

/// Outcome of a drift check on one frame.
pub struct DriftOutcome {
    pub samples: Seq<i16>,
    pub state: InputDriftState,
    pub corrected: bool,
}

/// Drift correction of a frame, where `reference` is the reference clock
/// once this frame is mixed: when the input is more than the threshold
/// away from it, and the last correction is at least the
/// minimum interval old, one sample is dropped from (input ahead) or
/// duplicated at (input behind) the middle of the frame, the frame is
/// brought back to its nominal length, and the correction time is recorded.
pub open spec fn drift_correct(samples: Seq<i16>, state: InputDriftState, reference: int, now_ms: u64) -> DriftOutcome {
    let drift = state.samples_received - reference;
    let too_soon = match state.last_correction_ms {
        Some(last) => now_ms < last || now_ms - last < DRIFT_CORRECTION_MIN_INTERVAL_MS,
        None => false,
    };
    if -10 <= drift <= 10 || too_soon {
        DriftOutcome { samples, state, corrected: false }
    } else {
        let mid = samples.len() / 2;
        let (adjusted, received) = if drift > 0 {
            if samples.len() > 1 {
                (samples.remove(mid as int), state.samples_received - 1)
            } else {
                (samples, state.samples_received as int)
            }
        } else {
            if mid < samples.len() {
                (samples.insert(mid as int, samples[mid as int]), state.samples_received + 1)
            } else {
                (samples, state.samples_received as int)
            }
        };
        DriftOutcome {
            samples: fit_to(adjusted, SAMPLES_PER_FRAME as nat),
            state: InputDriftState { samples_received: received as i64, last_correction_ms: Some(now_ms) },
            corrected: true,
        }
    }
}

/// Abstract state of the mixer.
pub struct InputMixerView {
    pub metrics: MixerMetrics,
    pub entries: Seq<(String, InputDriftState)>,
    pub reference_samples: int,
}

/// Mixer state: metrics, per-input drift tracking and the reference clock.
pub struct InputMixer {
    metrics: MixerMetrics,
    drift_states: Vec<(String, InputDriftState)>,
    /// Samples elapsed on the mixer's reference clock.
    reference_samples: i64,
}

impl View for InputMixer {
    type V = InputMixerView;

    closed spec fn view(&self) -> InputMixerView {
        InputMixerView {
            metrics: self.metrics,
            entries: self.drift_states@,
            reference_samples: self.reference_samples as int,
        }
    }
}

/// No device id has two drift entries.
pub open spec fn unique_entries(entries: Seq<(String, InputDriftState)>) -> bool {
    forall|i: int, j: int| 0 <= i < entries.len() && 0 <= j < entries.len() && i != j ==> entries[i].0@ != entries[j].0@
}

/// The reference clock and the sample count of `id` are far from the
/// limits of `i64`.
pub open spec fn counters_in_range(m: InputMixerView, id: Seq<char>) -> bool {
    &&& -COUNTER_LIMIT <= m.reference_samples <= COUNTER_LIMIT
    &&& lookup(m.entries, id) matches Some(st) ==> -COUNTER_LIMIT <= st.samples_received <= COUNTER_LIMIT
}

proof fn lemma_lookup_in(entries: Seq<(String, InputDriftState)>, id: Seq<char>)
    ensures
        lookup(entries, id) matches Some(s) ==> exists|i: int| 0 <= i < entries.len() && entries[i].1 == s && entries[i].0@ == id,
        lookup(entries, id) is None ==> forall|i: int| 0 <= i < entries.len() ==> entries[i].0@ != id,
    decreases entries.len(),
{
    if entries.len() > 0 {
        lemma_lookup_in(entries.drop_last(), id);
        if lookup(entries, id) is None {
            assert forall|i: int| 0 <= i < entries.len() implies entries[i].0@ != id by {
                if i < entries.len() - 1 {
                    assert(entries[i] == entries.drop_last()[i]);
                }
            }
        }
        if entries.last().0@ != id {
            if let Some(s) = lookup(entries, id) {
                let i = choose|i: int| 0 <= i < entries.drop_last().len() && entries.drop_last()[i].1 == s && entries.drop_last()[i].0@ == id;
                assert(entries[i] == entries.drop_last()[i]);
            }
        }
    }
}

/// In a sequence without repeated ids, the entry at `i` is what lookup finds.
proof fn lemma_lookup_at(entries: Seq<(String, InputDriftState)>, i: int)
    requires
        unique_entries(entries),
        0 <= i < entries.len(),
    ensures
        lookup(entries, entries[i].0@) == Some(entries[i].1),
    decreases entries.len(),
{
    if i < entries.len() - 1 {
        let d = entries.drop_last();
        assert(d[i] == entries[i]);
        assert(unique_entries(d));
        lemma_lookup_at(d, i);
    }
}

/// Replacing the entry at `i` changes only the value found for its id.
proof fn lemma_lookup_update(entries: Seq<(String, InputDriftState)>, i: int, st: InputDriftState, id: Seq<char>)
    requires
        unique_entries(entries),
        0 <= i < entries.len(),
    ensures
        lookup(entries.update(i, (entries[i].0, st)), id) == if id == entries[i].0@ {
            Some(st)
        } else {
            lookup(entries, id)
        },
    decreases entries.len(),
{
    let u = entries.update(i, (entries[i].0, st));
    if i == entries.len() - 1 {
        assert(u.drop_last() =~= entries.drop_last());
        if id != entries[i].0@ {
        }
    } else {
        let d = entries.drop_last();
        assert(unique_entries(d));
        assert(u.drop_last() =~= d.update(i, (d[i].0, st)));
        lemma_lookup_update(d, i, st, id);
        if id == entries[i].0@ {
            assert(entries.last().0@ != id);
        }
    }
}

/// Removing the entry at `i` makes its id unknown and keeps the others.
proof fn lemma_lookup_remove(entries: Seq<(String, InputDriftState)>, i: int, id: Seq<char>)
    requires
        unique_entries(entries),
        0 <= i < entries.len(),
    ensures
        lookup(entries.remove(i), id) == if id == entries[i].0@ {
            None
        } else {
            lookup(entries, id)
        },
    decreases entries.len(),
{
    let r = entries.remove(i);
    if i == entries.len() - 1 {
        assert(r =~= entries.drop_last());
        if id == entries[i].0@ {
            lemma_lookup_in(entries.drop_last(), id);
            assert forall|k: int| 0 <= k < r.len() implies r[k].0@ != id by {
                assert(r[k] == entries[k]);
            }
            lemma_lookup_none(r, id);
        }
    } else {
        let d = entries.drop_last();
        assert(unique_entries(d));
        assert(r.drop_last() =~= d.remove(i));
        assert(r.last() == entries.last());
        lemma_lookup_remove(d, i, id);
    }
}

proof fn lemma_lookup_none(entries: Seq<(String, InputDriftState)>, id: Seq<char>)
    requires
        forall|k: int| 0 <= k < entries.len() ==> entries[k].0@ != id,
    ensures
        lookup(entries, id) is None,
    decreases entries.len(),
{
    if entries.len() > 0 {
        let d = entries.drop_last();
        assert forall|k: int| 0 <= k < d.len() implies d[k].0@ != id by {
            assert(d[k] == entries[k]);
        }
        lemma_lookup_none(d, id);
    }
}

/// Appending a new id makes it known and keeps the others.
proof fn lemma_lookup_push(entries: Seq<(String, InputDriftState)>, e: (String, InputDriftState), id: Seq<char>)
    ensures
        lookup(entries.push(e), id) == if id == e.0@ {
            Some(e.1)
        } else {
            lookup(entries, id)
        },
{
    assert(entries.push(e).drop_last() =~= entries);
}

} // verus!

verus! {

/// Decode little-endian 16-bit samples; a trailing odd byte is ignored.
fn decode(bytes: &Vec<u8>) -> (out: Vec<i16>)
    ensures
        out@ == decode_samples(bytes@),
{
    let len = bytes.len();
    let n = len / 2;
    let mut out: Vec<i16> = Vec::new();
    let mut k: usize = 0;
    while k < n
        invariant
            len == bytes@.len(),
            n == len / 2,
            k <= n,
            out@ == decode_samples(bytes@).take(k as int),
        decreases n - k,
    {
        let lo = bytes[2 * k];
        let hi = bytes[2 * k + 1];
        let v: u32 = lo as u32 + 256 * (hi as u32);
        let s: i16 = if v < 32768 { v as i16 } else { (v as i32 - 65536) as i16 };
        out.push(s);
        k = k + 1;
        assert(out@ =~= decode_samples(bytes@).take(k as int));
    }
    assert(decode_samples(bytes@).take(n as int) =~= decode_samples(bytes@));
    out
}

/// Cut or pad `samples` with zeros to exactly one frame.
fn fit_frame(samples: &mut Vec<i16>)
    ensures
        final(samples)@ == fit_to(old(samples)@, SAMPLES_PER_FRAME as nat),
{
    samples.truncate(SAMPLES_PER_FRAME);
    let ghost cut = samples@;
    while samples.len() < SAMPLES_PER_FRAME
        invariant
            cut.len() <= samples@.len() <= SAMPLES_PER_FRAME,
            samples@.subrange(0, cut.len() as int) == cut,
            forall|k: int| cut.len() <= k < samples@.len() ==> samples@[k] == 0i16,
        decreases SAMPLES_PER_FRAME - samples@.len(),
    {
        samples.push(0i16);
    }
    proof {
        if old(samples)@.len() >= SAMPLES_PER_FRAME {
            assert(samples@ =~= old(samples)@.take(SAMPLES_PER_FRAME as int));
        } else {
            assert(samples@ =~= old(samples)@ + Seq::new(
                (SAMPLES_PER_FRAME - old(samples)@.len()) as nat,
                |k: int| 0i16,
            ));
        }
    }
}

impl InputMixer {
    /// No device id has two drift entries.
    #[verifier::type_invariant]
    spec fn wf(self) -> bool {
        unique_entries(self.drift_states@)
    }

    /// A mixer with no registered inputs, zero metrics and the reference
    /// clock at zero.
    pub fn new() -> (m: Self)
        ensures
            m@.metrics == zero_metrics(),
            m@.entries == Seq::<(String, InputDriftState)>::empty(),
            m@.reference_samples == 0,
    {
        let metrics = MixerMetrics::new();
        InputMixer { metrics, drift_states: Vec::new(), reference_samples: 0 }
    }

    /// Snapshot of the metrics.
    pub fn metrics(&self) -> (m: MixerMetrics)
        ensures
            m == self@.metrics,
    {
        self.metrics
    }

    /// Drift state of an input, if it is registered.
    pub fn drift_state(&self, device_id: &str) -> (r: Option<InputDriftState>)
        ensures
            r == lookup(self@.entries, device_id@),
    {
        proof {
            use_type_invariant(self);
        }
        match self.find_entry(device_id) {
            Some(i) => {
                proof {
                    lemma_lookup_at(self.drift_states@, i as int);
                }
                Some(self.drift_states[i].1)
            },
            None => {
                proof {
                    lemma_lookup_none(self.drift_states@, device_id@);
                }
                None
            },
        }
    }

    /// Whether drift tracking exists for an input.
    pub fn is_registered(&self, device_id: &str) -> (b: bool)
        ensures
            b == lookup(self@.entries, device_id@) is Some,
    {
        self.drift_state(device_id).is_some()
    }

    /// Number of inputs with drift tracking.
    pub fn registered_input_count(&self) -> (n: usize)
        ensures
            n == self@.entries.len(),
    {
        self.drift_states.len()
    }

    fn find_entry(&self, device_id: &str) -> (r: Option<usize>)
        ensures
            r matches Some(i) ==> i < self@.entries.len() && self@.entries[i as int].0@ == device_id@,
            r is None ==> forall|k: int| 0 <= k < self@.entries.len() ==> self@.entries[k].0@ != device_id@,
    {
        let mut i: usize = 0;
        while i < self.drift_states.len()
            invariant
                i <= self.drift_states@.len(),
                forall|k: int| 0 <= k < i ==> self.drift_states@[k].0@ != device_id@,
            decreases self.drift_states@.len() - i,
        {
            if crate::text::str_eq(self.drift_states[i].0.as_str(), device_id) {
                return Some(i);
            }
            i = i + 1;
        }
        None
    }

    /// Start (or restart) drift tracking for an input.
    pub fn register_input(&mut self, device_id: &str)
        ensures
            lookup(final(self)@.entries, device_id@) == Some(fresh_drift_state()),
            forall|id: Seq<char>| id != device_id@ ==> lookup(final(self)@.entries, id) == lookup(old(self)@.entries, id),
            final(self)@.metrics == old(self)@.metrics,
            final(self)@.reference_samples == old(self)@.reference_samples,
            final(self)@.entries.len() <= old(self)@.entries.len() + 1,
    {
        proof {
            use_type_invariant(&*self);
        }
        let fresh = InputDriftState::new();
        let found = self.find_entry(device_id);
        let mut states: Vec<(String, InputDriftState)> = Vec::new();
        std::mem::swap(&mut states, &mut self.drift_states);
        let ghost before = states@;
        match found {
            Some(i) => {
                let key = states[i].0.clone();
                states.set(i, (key, fresh));
                proof {
                    assert(states@ =~= before.update(i as int, (before[i as int].0, fresh)));
                    assert forall|id: Seq<char>| #![auto] true implies lookup(states@, id) == if id == before[i as int].0@ {
                        Some(fresh)
                    } else {
                        lookup(before, id)
                    } by {
                        lemma_lookup_update(before, i as int, fresh, id);
                    }
                    assert(unique_entries(states@));
                }
            },
            None => {
                let key = String::from_str(device_id);
                let ghost entry = (key, fresh);
                states.push((key, fresh));
                proof {
                    assert forall|id: Seq<char>| #![auto] true implies lookup(states@, id) == if id == device_id@ {
                        Some(fresh)
                    } else {
                        lookup(before, id)
                    } by {
                        lemma_lookup_push(before, entry, id);
                    }
                    assert forall|a: int, b: int| 0 <= a < states@.len() && 0 <= b < states@.len() && a != b implies states@[a].0@ != states@[b].0@ by {
                    }
                }
            },
        }
        self.drift_states = states;
    }

    /// Stop drift tracking for an input.
    pub fn unregister_input(&mut self, device_id: &str)
        ensures
            lookup(final(self)@.entries, device_id@) is None,
            forall|id: Seq<char>| id != device_id@ ==> lookup(final(self)@.entries, id) == lookup(old(self)@.entries, id),
            final(self)@.metrics == old(self)@.metrics,
            final(self)@.reference_samples == old(self)@.reference_samples,
    {
        proof {
            use_type_invariant(&*self);
        }
        match self.find_entry(device_id) {
            Some(i) => {
                let mut states: Vec<(String, InputDriftState)> = Vec::new();
                std::mem::swap(&mut states, &mut self.drift_states);
                let ghost before = states@;
                states.remove(i);
                proof {
                    assert forall|id: Seq<char>| #![auto] true implies lookup(states@, id) == if id == before[i as int].0@ {
                        None
                    } else {
                        lookup(before, id)
                    } by {
                        lemma_lookup_remove(before, i as int, id);
                    }
                    assert forall|a: int, b: int| 0 <= a < states@.len() && 0 <= b < states@.len() && a != b implies states@[a].0@ != states@[b].0@ by {
                        let a2 = if a < i { a } else { a + 1 };
                        let b2 = if b < i { b } else { b + 1 };
                        assert(states@[a] == before[a2]);
                        assert(states@[b] == before[b2]);
                    }
                }
                self.drift_states = states;
            },
            None => {
                proof {
                    lemma_lookup_none(self.drift_states@, device_id@);
                }
            },
        }
    }

    /// Replace the drift state of the entry at `i`.
    fn replace_entry(&mut self, i: usize, st: InputDriftState)
        requires
            i < old(self)@.entries.len(),
        ensures
            final(self)@.entries.len() == old(self)@.entries.len(),
            final(self)@.metrics == old(self)@.metrics,
            final(self)@.reference_samples == old(self)@.reference_samples,
            lookup(final(self)@.entries, old(self)@.entries[i as int].0@) == Some(st),
            forall|id: Seq<char>| id != old(self)@.entries[i as int].0@ ==> lookup(final(self)@.entries, id) == lookup(old(self)@.entries, id),
    {
        proof {
            use_type_invariant(&*self);
        }
        let mut states: Vec<(String, InputDriftState)> = Vec::new();
        std::mem::swap(&mut states, &mut self.drift_states);
        let ghost before = states@;
        let key = states[i].0.clone();
        states.set(i, (key, st));
        proof {
            assert(states@ =~= before.update(i as int, (before[i as int].0, st)));
            assert forall|id: Seq<char>| #![auto] true implies lookup(states@, id) == if id == before[i as int].0@ {
                Some(st)
            } else {
                lookup(before, id)
            } by {
                lemma_lookup_update(before, i as int, st, id);
            }
            assert(unique_entries(states@));
        }
        self.drift_states = states;
    }

    /// The reference clock, in samples.
    pub fn reference_samples(&self) -> (n: i64)
        ensures
            n == self@.reference_samples,
    {
        self.reference_samples
    }

    /// Move the reference clock to `n` samples.
    pub fn set_reference_samples(&mut self, n: i64)
        ensures
            final(self)@.reference_samples == n,
            final(self)@.entries == old(self)@.entries,
            final(self)@.metrics == old(self)@.metrics,
    {
        proof {
            use_type_invariant(&*self);
        }
        self.reference_samples = n;
    }

    /// Forget all drift tracking and restart the reference clock (e.g. when
    /// a new recording starts).  Metrics are kept.
    pub fn reset(&mut self)
        ensures
            final(self)@.entries == Seq::<(String, InputDriftState)>::empty(),
            final(self)@.reference_samples == 0,
            final(self)@.metrics == old(self)@.metrics,
    {
        self.drift_states = Vec::new();
        self.reference_samples = 0;
    }
}

} // verus!

verus! {

/// Metrics after one more drift correction.
pub open spec fn bump_drift(m: MixerMetrics) -> MixerMetrics {
    MixerMetrics { drift_correction_count: wrapping_add_u64(m.drift_correction_count, 1), ..m }
}

/// Metrics after one more silence insertion.
pub open spec fn bump_silence(m: MixerMetrics) -> MixerMetrics {
    MixerMetrics { silence_insertion_count: wrapping_add_u64(m.silence_insertion_count, 1), ..m }
}

/// The drift counters of `id` and the reference clock are small enough for
/// exact arithmetic.
pub open spec fn drift_inputs_in_range(m: InputMixerView, id: Seq<char>) -> bool {
    &&& -2 * COUNTER_LIMIT <= m.reference_samples <= 2 * COUNTER_LIMIT
    &&& lookup(m.entries, id) matches Some(st) ==> -2 * COUNTER_LIMIT <= st.samples_received <= 2 * COUNTER_LIMIT
}

/// The bytes a frame extraction takes from a buffer holding `contents`.
pub open spec fn frame_bytes(contents: Seq<u8>) -> Seq<u8> {
    contents.take(if contents.len() <= BYTES_PER_FRAME { contents.len() as int } else { BYTES_PER_FRAME as int })
}

/// Drift state of an input after it delivered `n` more samples.
pub open spec fn after_delivery(prior: Option<InputDriftState>, n: nat) -> InputDriftState {
    let p = match prior {
        Some(s) => s,
        None => fresh_drift_state(),
    };
    InputDriftState { samples_received: (p.samples_received + n) as i64, last_correction_ms: p.last_correction_ms }
}

impl InputMixer {
    /// Keep one frame of an input aligned with the reference clock as it
    /// will stand once the current frame is mixed, i.e. one frame ahead of
    /// `reference_samples` (see `drift_correct`): an input that delivered
    /// exactly one frame per mixed frame has drift 0.  Inputs without drift
    /// tracking are left untouched.
    pub fn apply_drift_correction(&mut self, device_id: &str, samples: &mut Vec<i16>, now_ms: u64)
        requires
            drift_inputs_in_range(old(self)@, device_id@),
        ensures
            final(self)@.reference_samples == old(self)@.reference_samples,
            final(self)@.entries.len() == old(self)@.entries.len(),
            forall|id: Seq<char>| id != device_id@ ==> lookup(final(self)@.entries, id) == lookup(old(self)@.entries, id),
            lookup(old(self)@.entries, device_id@) is None ==> final(self)@.entries == old(self)@.entries
                && final(self)@.metrics == old(self)@.metrics && final(samples)@ == old(samples)@,
            lookup(old(self)@.entries, device_id@) matches Some(st) ==> {
                let out = drift_correct(old(samples)@, st, old(self)@.reference_samples + SAMPLES_PER_FRAME, now_ms);
                &&& final(samples)@ == out.samples
                &&& lookup(final(self)@.entries, device_id@) == Some(out.state)
                &&& final(self)@.metrics == if out.corrected { bump_drift(old(self)@.metrics) } else { old(self)@.metrics }
            },
    {
        proof {
            use_type_invariant(&*self);
        }
        let idx = self.find_entry(device_id);
        let i = match idx {
            None => {
                proof {
                    lemma_lookup_none(self.drift_states@, device_id@);
                }
                return;
            },
            Some(i) => i,
        };
        proof {
            lemma_lookup_at(self.drift_states@, i as int);
        }
        let st = self.drift_states[i].1;
        let drift: i64 = st.samples_received - (self.reference_samples + SAMPLES_PER_FRAME as i64);
        if -10 <= drift && drift <= 10 {
            return;
        }
        match st.last_correction_ms {
            Some(last) => {
                if now_ms < last || now_ms - last < DRIFT_CORRECTION_MIN_INTERVAL_MS {
                    return;
                }
            },
            None => {},
        }
        let mut received: i64 = st.samples_received;
        let mid = samples.len() / 2;
        if drift > 0 {
            if samples.len() > 1 {
                samples.remove(mid);
                received = received - 1;
            }
        } else {
            if mid < samples.len() {
                let dup = samples[mid];
                samples.insert(mid, dup);
                received = received + 1;
            }
        }
        fit_frame(samples);
        let new_state = InputDriftState { samples_received: received, last_correction_ms: Some(now_ms) };
        self.replace_entry(i, new_state);
        proof {
            use_type_invariant(&*self);
        }
        let mut metrics = self.metrics;
        metrics.increment_drift_correction();
        self.metrics = metrics;
    }

    /// Take one 10 ms frame from an input buffer: decode up to 320 bytes,
    /// pad a short frame with silence (counting the insertion), advance the
    /// input's sample count and apply drift correction.  Unknown inputs get
    /// drift tracking first.  The frame always holds exactly 160 samples.
    pub fn extract_frame(&mut self, device_id: &str, buffer: &mut InputBuffer, now_ms: u64) -> (frame: Vec<i16>)
        requires
            counters_in_range(old(self)@, device_id@),
        ensures
            final(buffer)@.contents == old(buffer)@.contents.skip(frame_bytes(old(buffer)@.contents).len() as int),
            final(buffer)@.max_size == old(buffer)@.max_size,
            final(buffer)@.lock_contention_drops == old(buffer)@.lock_contention_drops,
            frame@.len() == SAMPLES_PER_FRAME,
            final(self)@.reference_samples == old(self)@.reference_samples,
            forall|id: Seq<char>| id != device_id@ ==> lookup(final(self)@.entries, id) == lookup(old(self)@.entries, id),
            ({
                let decoded = decode_samples(frame_bytes(old(buffer)@.contents));
                let st = after_delivery(lookup(old(self)@.entries, device_id@), decoded.len());
                let out = drift_correct(fit_to(decoded, SAMPLES_PER_FRAME as nat), st, old(self)@.reference_samples + SAMPLES_PER_FRAME, now_ms);
                let m1 = if decoded.len() < SAMPLES_PER_FRAME { bump_silence(old(self)@.metrics) } else { old(self)@.metrics };
                &&& frame@ == out.samples
                &&& lookup(final(self)@.entries, device_id@) == Some(out.state)
                &&& final(self)@.metrics == if out.corrected { bump_drift(m1) } else { m1 }
            }),
    {
        proof {
            use_type_invariant(&*self);
        }
        let ghost old_entries = self.drift_states@;
        let ghost prior = lookup(old_entries, device_id@);
        proof {
            lemma_lookup_in(old_entries, device_id@);
        }
        if !self.is_registered(device_id) {
            self.register_input(device_id);
        }
        proof {
            use_type_invariant(&*self);
        }
        let raw = buffer.take(BYTES_PER_FRAME);
        let mut samples = decode(&raw);
        let ghost decoded = samples@;
        assert(raw@ == frame_bytes(old(buffer)@.contents));
        assert(decoded.len() <= SAMPLES_PER_FRAME);
        let i = match self.find_entry(device_id) {
            Some(i) => i,
            None => {
                proof {
                    lemma_lookup_none(self.drift_states@, device_id@);
                }
                return samples;
            },
        };
        proof {
            lemma_lookup_at(self.drift_states@, i as int);
        }
        let st = self.drift_states[i].1;
        assert(st == after_delivery(prior, 0));
        let delivered: i64 = samples.len() as i64;
        let updated = InputDriftState {
            samples_received: st.samples_received + delivered,
            last_correction_ms: st.last_correction_ms,
        };
        self.replace_entry(i, updated);
        proof {
            use_type_invariant(&*self);
        }
        if samples.len() < SAMPLES_PER_FRAME {
            let mut metrics = self.metrics;
            metrics.increment_silence_insertion();
            self.metrics = metrics;
        }
        fit_frame(&mut samples);
        self.apply_drift_correction(device_id, &mut samples, now_ms);
        samples
    }

    /// Close a mixing round: count the frame, advance the reference clock by
    /// one frame and record the round's latency.
    pub fn finish_frame(&mut self, latency_us: u64)
        requires
            old(self)@.reference_samples <= i64::MAX - SAMPLES_PER_FRAME,
        ensures
            final(self)@.entries == old(self)@.entries,
            final(self)@.reference_samples == old(self)@.reference_samples + SAMPLES_PER_FRAME,
            final(self)@.metrics == (MixerMetrics {
                frames_mixed: wrapping_add_u64(old(self)@.metrics.frames_mixed, 1),
                max_mix_latency_us: if latency_us > old(self)@.metrics.max_mix_latency_us {
                    latency_us
                } else {
                    old(self)@.metrics.max_mix_latency_us
                },
                total_mix_latency_us: wrapping_add_u64(old(self)@.metrics.total_mix_latency_us, latency_us),
                latency_sample_count: wrapping_add_u64(old(self)@.metrics.latency_sample_count, 1),
                ..old(self)@.metrics
            }),
    {
        proof {
            use_type_invariant(&*self);
        }
        let mut metrics = self.metrics;
        metrics.increment_frames_mixed();
        metrics.record_latency_us(latency_us);
        self.metrics = metrics;
        self.reference_samples = self.reference_samples + SAMPLES_PER_FRAME as i64;
    }

    /// Count a mixed frame in which clipping occurred.
    pub fn record_clip(&mut self)
        ensures
            final(self)@.entries == old(self)@.entries,
            final(self)@.reference_samples == old(self)@.reference_samples,
            final(self)@.metrics == (MixerMetrics { clip_count: wrapping_add_u64(old(self)@.metrics.clip_count, 1), ..old(self)@.metrics }),
    {
        proof {
            use_type_invariant(&*self);
        }
        let mut metrics = self.metrics;
        metrics.increment_clip();
        self.metrics = metrics;
    }
}

/// An input within the threshold of the reference clock is left alone; a
/// drift correction moves an input one sample closer to the reference clock
/// and always leaves a full frame.
pub proof fn lemma_drift_correction_moves_toward_reference(samples: Seq<i16>, state: InputDriftState, reference: int, now_ms: u64)
    requires
        samples.len() == SAMPLES_PER_FRAME,
        -2 * COUNTER_LIMIT <= state.samples_received <= 2 * COUNTER_LIMIT,
        -2 * COUNTER_LIMIT <= reference <= 2 * COUNTER_LIMIT,
    ensures
        ({
            let out = drift_correct(samples, state, reference, now_ms);
            let before = state.samples_received - reference;
            let after = out.state.samples_received - reference;
            &&& out.samples.len() == SAMPLES_PER_FRAME
            &&& -10 <= before <= 10 ==> !out.corrected
            &&& !out.corrected ==> out.state == state && out.samples == samples
            &&& out.corrected ==> (before > 10 && after == before - 1) || (before < -10 && after == before + 1)
            &&& out.corrected ==> out.state.last_correction_ms == Some(now_ms)
        }),
{
}

/// An input that has delivered exactly as many samples as the reference
/// clock counts and has a full frame buffered is in sync: its frame is
/// passed on unchanged and no correction is made.
pub proof fn lemma_synced_input_is_not_corrected(prior: InputDriftState, reference: int, contents: Seq<u8>, now_ms: u64)
    requires
        prior.samples_received == reference,
        contents.len() >= BYTES_PER_FRAME,
        -COUNTER_LIMIT <= reference <= COUNTER_LIMIT,
    ensures
        ({
            let decoded = decode_samples(frame_bytes(contents));
            let st = after_delivery(Some(prior), decoded.len());
            let out = drift_correct(fit_to(decoded, SAMPLES_PER_FRAME as nat), st, reference + SAMPLES_PER_FRAME, now_ms);
            &&& decoded.len() == SAMPLES_PER_FRAME
            &&& st.samples_received == reference + SAMPLES_PER_FRAME
            &&& !out.corrected
            &&& out.samples == decoded
            &&& out.state == st
        }),
{
    let decoded = decode_samples(frame_bytes(contents));
    assert(frame_bytes(contents).len() == BYTES_PER_FRAME);
    assert(decoded.len() == SAMPLES_PER_FRAME);
    assert(fit_to(decoded, SAMPLES_PER_FRAME as nat) =~= decoded);
}

/// What a correction does to a full frame, sample by sample: an input
/// behind the reference gets its middle sample (index 80) repeated, the
/// samples after it move up by one and the last one falls off, and its
/// count grows by one; an input ahead loses its middle sample, the samples
/// after it move down by one, the frame ends with one sample of silence,
/// and its count shrinks by one.
pub proof fn lemma_drift_correction_samples(samples: Seq<i16>, state: InputDriftState, reference: int, now_ms: u64)
    requires
        samples.len() == SAMPLES_PER_FRAME,
        -2 * COUNTER_LIMIT <= state.samples_received <= 2 * COUNTER_LIMIT,
        -2 * COUNTER_LIMIT <= reference <= 2 * COUNTER_LIMIT,
    ensures
        ({
            let out = drift_correct(samples, state, reference, now_ms);
            let drift = state.samples_received - reference;
            &&& out.corrected && drift < -10 ==> {
                &&& out.state.samples_received == state.samples_received + 1
                &&& forall|k: int| 0 <= k <= 80 ==> out.samples[k] == samples[k]
                &&& forall|k: int| 80 <= k < 159 ==> out.samples[k + 1] == samples[k]
            }
            &&& out.corrected && drift > 10 ==> {
                &&& out.state.samples_received == state.samples_received - 1
                &&& forall|k: int| 0 <= k < 80 ==> out.samples[k] == samples[k]
                &&& forall|k: int| 80 <= k < 159 ==> out.samples[k] == samples[k + 1]
                &&& out.samples[159] == 0i16
            }
        }),
{
    let out = drift_correct(samples, state, reference, now_ms);
    let drift = state.samples_received - reference;
    if out.corrected && drift < -10 {
        let ins = samples.insert(80, samples[80]);
        assert(fit_to(ins, SAMPLES_PER_FRAME as nat) =~= ins.take(160));
        assert forall|k: int| 80 <= k < 159 implies out.samples[k + 1] == samples[k] by {
            assert(ins[k + 1] == samples[k]);
        }
    }
    if out.corrected && drift > 10 {
        let rem = samples.remove(80);
        assert(rem.len() == 159);
        let padded = fit_to(rem, SAMPLES_PER_FRAME as nat);
        assert(padded =~= rem + Seq::new(1, |k: int| 0i16));
        assert(padded[159] == 0i16);
        assert forall|k: int| 80 <= k < 159 implies out.samples[k] == samples[k + 1] by {
            assert(rem[k] == samples[k + 1]);
        }
    }
}

} // verus!
