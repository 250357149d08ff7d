//! Decisions of the recorder facade: single or multi-input mode, the input
//! set of a multi-input recording (roles and gains), the recorder's own
//! start/stop state, and how the mixing loop reacts when an input fails.
//!
//! Capture threads, the mixing cadence and channels are the application's.

use vstd::prelude::*;
use vstd::string::StringExecFns;
use crate::text::{decimal, push_decimal, str_eq};
use crate::multi_input_manager::{InputConfig, InputRole, MultiInputEvent};
use crate::multi_input_settings::{DEFAULT_GAIN_DB_BITS, ids_of};

verus! {

/// Mixer configuration.  Gains are in dB, as `f32` bit patterns.
#[derive(Debug, Clone)]
pub struct MixerConfig {
    /// Gain of each input, by position.
    pub gain_db_bits: Vec<u32>,
    /// Keep recording when some inputs fail to start.
    pub continue_on_partial_failure: bool,
}

impl Default for MixerConfig {
    /// -6 dB for each of two inputs (no clipping when both are loud), and
    /// partial failure tolerated.
    fn default() -> (c: Self)
        ensures
            c.gain_db_bits@ == seq![DEFAULT_GAIN_DB_BITS, DEFAULT_GAIN_DB_BITS],
            c.continue_on_partial_failure,
    {
        let mut g: Vec<u32> = Vec::new();
        g.push(DEFAULT_GAIN_DB_BITS);
        g.push(DEFAULT_GAIN_DB_BITS);
        assert(g@ =~= seq![DEFAULT_GAIN_DB_BITS, DEFAULT_GAIN_DB_BITS]);
        MixerConfig { gain_db_bits: g, continue_on_partial_failure: true }
    }
}

/// How a recording captures.
#[derive(Debug, Clone)]
pub enum RecordingMode {
    /// One device, passed straight through.
    Single { device_id: String },
    /// Several devices, mixed.
    Multi { device_ids: Vec<String>, mixer_config: MixerConfig },
}

/// Role of the input at a position: the first is the microphone, the
/// others are loopback.
pub open spec fn role_at(i: int) -> InputRole {
    if i == 0 {
        InputRole::Microphone
    } else {
        InputRole::Loopback
    }
}

/// Gain of the input at a position: the configured one, else -6 dB.
pub open spec fn gain_at(gains: Seq<u32>, i: int) -> u32 {
    if 0 <= i < gains.len() {
        gains[i]
    } else {
        DEFAULT_GAIN_DB_BITS
    }
}

/// Text of a multi-input recording with more than two devices.
pub open spec fn too_many_inputs_text(n: nat) -> Seq<char> {
    "Maximum 2 inputs supported, got "@ + decimal(n)
}

/// The inputs of a multi-input recording: at most two, at least one; the
/// first is the microphone and the rest loopback, each with its gain.
pub fn plan_multi_inputs(device_ids: &Vec<String>, mixer_config: &MixerConfig) -> (r: Result<(Vec<InputConfig>, Vec<u32>), String>)
    ensures
        device_ids@.len() > 2 ==> (r matches Err(m) && m@ == too_many_inputs_text(device_ids@.len())),
        device_ids@.len() == 0 ==> (r matches Err(m) && m@ == "At least one device must be specified"@),
        1 <= device_ids@.len() <= 2 ==> (r matches Ok((configs, gains)) && {
            &&& configs@.len() == device_ids@.len()
            &&& gains@.len() == device_ids@.len()
            &&& forall|i: int| 0 <= i < configs@.len() ==> {
                &&& (#[trigger] configs@[i]).device_id == device_ids@[i]
                &&& configs@[i].role == role_at(i)
                &&& !configs@[i].muted
                &&& gains@[i] == gain_at(mixer_config.gain_db_bits@, i)
            }
        }),
{
    if device_ids.len() > 2 {
        let mut m = String::from_str("Maximum 2 inputs supported, got ");
        push_decimal(&mut m, device_ids.len() as u64);
        return Err(m);
    }
    if device_ids.len() == 0 {
        return Err(String::from_str("At least one device must be specified"));
    }
    let mut configs: Vec<InputConfig> = Vec::new();
    let mut gains: Vec<u32> = Vec::new();
    let mut i: usize = 0;
    while i < device_ids.len()
        invariant
            i <= device_ids@.len(),
            configs@.len() == i,
            gains@.len() == i,
            forall|k: int| 0 <= k < i ==> {
                &&& (#[trigger] configs@[k]).device_id == device_ids@[k]
                &&& configs@[k].role == role_at(k)
                &&& !configs@[k].muted
                &&& gains@[k] == gain_at(mixer_config.gain_db_bits@, k)
            },
        decreases device_ids@.len() - i,
    {
        let role = if i == 0 { InputRole::Microphone } else { InputRole::Loopback };
        let gain = if i < mixer_config.gain_db_bits.len() { mixer_config.gain_db_bits[i] } else { DEFAULT_GAIN_DB_BITS };
        configs.push(InputConfig::new(device_ids[i].clone(), role));
        gains.push(gain);
        i = i + 1;
    }
    Ok((configs, gains))
}

/// The recorder's own state: whether it records, and in which mode.
#[derive(Debug)]
pub struct RecorderState {
    pub is_recording: bool,
    pub mode: Option<RecordingMode>,
}

impl RecorderState {
    /// Not recording.
    pub fn new() -> (s: Self)
        ensures
            !s.is_recording,
            s.mode is None,
    {
        RecorderState { is_recording: false, mode: None }
    }

    /// May a recording start?  Not while one runs.
    pub fn check_start(&self) -> (r: Result<(), String>)
        ensures
            self.is_recording <==> r is Err,
            r matches Err(m) ==> m@ == "Already recording"@,
    {
        if self.is_recording {
            Err(String::from_str("Already recording"))
        } else {
            Ok(())
        }
    }

    /// The capture started in `mode`.
    pub fn started(&mut self, mode: RecordingMode)
        ensures
            final(self).is_recording,
            final(self).mode == Some(mode),
    {
        self.mode = Some(mode);
        self.is_recording = true;
    }

    /// Stop: returns whether a recording ran (the caller then stops the
    /// capture, the mixing loop and the inputs).
    pub fn stop(&mut self) -> (was_recording: bool)
        ensures
            was_recording == old(self).is_recording,
            !final(self).is_recording,
            was_recording ==> final(self).mode is None,
            !was_recording ==> final(self).mode == old(self).mode,
    {
        if !self.is_recording {
            return false;
        }
        self.is_recording = false;
        self.mode = None;
        true
    }
}

/// What the mixing loop does after an input reports an error.
#[derive(Debug, Clone, PartialEq, Eq)]
pub enum InputErrorOutcome {
    /// The input was not active (unknown, or already lost): nothing.
    Ignored,
    /// The input is lost; publish the event and keep mixing the others.
    Continue { event: MultiInputEvent },
    /// The last input is lost; publish the event and stop mixing.
    Stop { event: MultiInputEvent },
}

/// The inputs the mixing loop still mixes.
#[derive(Debug)]
pub struct ActiveInputs {
    ids: Vec<String>,
}

/// No id occurs twice.
pub open spec fn distinct(s: Seq<Seq<char>>) -> bool {
    forall|i: int, j: int| 0 <= i < j < s.len() ==> s[i] != s[j]
}

impl ActiveInputs {
    /// The active ids.
    pub closed spec fn ids(&self) -> Seq<Seq<char>> {
        ids_of(self.ids@)
    }

    #[verifier::type_invariant]
    spec fn wf(self) -> bool {
        distinct(ids_of(self.ids@))
    }

    /// Start with the inputs of the mixing loop (a repeated id counts once).
    pub fn from_configs(configs: &Vec<InputConfig>) -> (a: Self)
        ensures
            forall|x: Seq<char>| a.ids().contains(x) <==> exists|i: int| 0 <= i < configs@.len() && configs@[i].device_id@ == x,
            distinct(a.ids()),
    {
        let mut ids: Vec<String> = Vec::new();
        let mut i: usize = 0;
        while i < configs.len()
            invariant
                i <= configs@.len(),
                distinct(ids_of(ids@)),
                forall|x: Seq<char>| ids_of(ids@).contains(x) <==> exists|k: int| 0 <= k < i && configs@[k].device_id@ == x,
            decreases configs@.len() - i,
        {
            let id = configs[i].device_id.clone();
            let ghost before = ids@;
            if !contains(&ids, id.as_str()) {
                ids.push(id);
                proof {
                    assert(ids_of(ids@) =~= ids_of(before).push(configs@[i as int].device_id@));
                }
            }
            proof {
                assert forall|x: Seq<char>| ids_of(ids@).contains(x) <==> exists|k: int| 0 <= k < i + 1 && configs@[k].device_id@ == x by {
                    if ids_of(ids@).contains(x) && !ids_of(before).contains(x) {
                        assert(configs@[i as int].device_id@ == x);
                    }
                    if exists|k: int| 0 <= k < i + 1 && configs@[k].device_id@ == x {
                        let k = choose|k: int| 0 <= k < i + 1 && configs@[k].device_id@ == x;
                        if k == i {
                            if !ids_of(before).contains(x) {
                                assert(ids_of(ids@).last() == x);
                            }
                        } else {
                            assert(ids_of(before).contains(x));
                            let j = choose|j: int| 0 <= j < ids_of(before).len() && ids_of(before)[j] == x;
                            assert(ids_of(ids@)[j] == x);
                        }
                    }
                }
            }
            i = i + 1;
        }
        ActiveInputs { ids }
    }

    /// Number of active inputs.
    pub fn count(&self) -> (n: usize)
        ensures
            n == self.ids().len(),
    {
        self.ids.len()
    }

    /// React to an error of input `device_id`; `error_text` is the error as
    /// printed with `{:?}`.  An active input becomes inactive: if others
    /// remain, `InputLost` with the number remaining; if it was the last,
    /// `AllInputsLost` and the loop stops.
    pub fn on_device_error(&mut self, device_id: &str, error_text: &str) -> (o: InputErrorOutcome)
        ensures
            final(self).ids().to_set() == old(self).ids().to_set().remove(device_id@),
            distinct(final(self).ids()),
            !old(self).ids().contains(device_id@) ==> o == InputErrorOutcome::Ignored && final(self).ids() == old(self).ids(),
            old(self).ids().contains(device_id@) ==> {
                &&& final(self).ids().len() + 1 == old(self).ids().len()
                &&& !final(self).ids().contains(device_id@)
                &&& forall|x: Seq<char>| x != device_id@ ==> (final(self).ids().contains(x) <==> old(self).ids().contains(x))
                &&& final(self).ids().len() > 0 ==> (o matches InputErrorOutcome::Continue {
                    event: MultiInputEvent::InputLost { device_id: d, reason: r, remaining_active: n } }
                    && d@ == device_id@ && r@ == error_text@ && n == final(self).ids().len())
                &&& final(self).ids().len() == 0 ==> (o matches InputErrorOutcome::Stop { event: MultiInputEvent::AllInputsLost { reason: r } }
                    && r@ == "Last input '"@ + device_id@ + "' error: "@ + error_text@)
            },
    {
        proof {
            use_type_invariant(&*self);
        }
        let pos = position(&self.ids, device_id);
        let ghost old_ids = ids_of(self.ids@);
        match pos {
            None => {
                assert(!old_ids.contains(device_id@)) by {
                    if old_ids.contains(device_id@) {
                        let j = choose|j: int| 0 <= j < old_ids.len() && old_ids[j] == device_id@;
                        assert(old_ids[j] == self.ids@[j]@);
                    }
                }
                assert(old_ids.to_set().remove(device_id@) =~= old_ids.to_set());
                InputErrorOutcome::Ignored
            },
            Some(p) => {
                assert(old_ids[p as int] == device_id@);
                let mut ids: Vec<String> = Vec::new();
                std::mem::swap(&mut ids, &mut self.ids);
                let ghost raw = ids@;
                let _ = ids.remove(p);
                proof {
                    assert(ids_of(ids@) =~= old_ids.remove(p as int));
                    assert(distinct(ids_of(ids@))) by {
                        assert forall|a: int, b: int| 0 <= a < b < ids_of(ids@).len() implies ids_of(ids@)[a] != ids_of(ids@)[b] by {
                            let oa = if a < p { a } else { a + 1 };
                            let ob = if b < p { b } else { b + 1 };
                            assert(ids_of(ids@)[a] == old_ids[oa]);
                            assert(ids_of(ids@)[b] == old_ids[ob]);
                        }
                    }
                    assert(!ids_of(ids@).contains(device_id@)) by {
                        if ids_of(ids@).contains(device_id@) {
                            let j = choose|j: int| 0 <= j < ids_of(ids@).len() && ids_of(ids@)[j] == device_id@;
                            let oj = if j < p { j } else { j + 1 };
                            assert(old_ids[oj] == device_id@);
                        }
                    }
                    assert forall|x: Seq<char>| x != device_id@ implies (ids_of(ids@).contains(x) <==> old_ids.contains(x)) by {
                        if ids_of(ids@).contains(x) {
                            let j = choose|j: int| 0 <= j < ids_of(ids@).len() && ids_of(ids@)[j] == x;
                            let oj = if j < p { j } else { j + 1 };
                            assert(old_ids[oj] == x);
                        }
                        if old_ids.contains(x) {
                            let j = choose|j: int| 0 <= j < old_ids.len() && old_ids[j] == x;
                            assert(j != p as int);
                            let nj = if j < p { j } else { j - 1 };
                            assert(ids_of(ids@)[nj] == x);
                        }
                    }
                }
                proof {
                    assert(ids_of(ids@).to_set() =~= old_ids.to_set().remove(device_id@));
                }
                self.ids = ids;
                proof {
                    use_type_invariant(&*self);
                }
                let remaining = self.ids.len();
                if remaining == 0 {
                    let mut r = String::from_str("Last input '");
                    r.append(device_id);
                    r.append("' error: ");
                    r.append(error_text);
                    InputErrorOutcome::Stop { event: MultiInputEvent::AllInputsLost { reason: r } }
                } else {
                    InputErrorOutcome::Continue {
                        event: MultiInputEvent::InputLost {
                            device_id: String::from_str(device_id),
                            reason: String::from_str(error_text),
                            remaining_active: remaining,
                        },
                    }
                }
            },
        }
    }
}

fn position(ids: &Vec<String>, id: &str) -> (r: Option<usize>)
    ensures
        r matches Some(p) ==> p < ids@.len() && ids@[p as int]@ == id@,
        r is None ==> forall|k: int| 0 <= k < ids@.len() ==> ids@[k]@ != id@,
{
    let mut i: usize = 0;
    while i < ids.len()
        invariant
            i <= ids@.len(),
            forall|k: int| 0 <= k < i ==> ids@[k]@ != id@,
        decreases ids@.len() - i,
    {
        if str_eq(ids[i].as_str(), id) {
            return Some(i);
        }
        i = i + 1;
    }
    None
}

fn contains(ids: &Vec<String>, id: &str) -> (b: bool)
    ensures
        b == ids_of(ids@).contains(id@),
{
    let mut i: usize = 0;
    while i < ids.len()
        invariant
            i <= ids@.len(),
            forall|j: int| 0 <= j < i ==> ids@[j]@ != id@,
        decreases ids@.len() - i,
    {
        if str_eq(ids[i].as_str(), id) {
            assert(ids_of(ids@)[i as int] == id@);
            return true;
        }
        i = i + 1;
    }
    assert forall|j: int| 0 <= j < ids_of(ids@).len() implies ids_of(ids@)[j] != id@ by {}
    false
}

/// The inputs still mixed after the inputs in `errors` reported errors, one
/// after the other, to a loop that started with `start`.
pub open spec fn active_after(start: Set<Seq<char>>, errors: Seq<Seq<char>>) -> Set<Seq<char>>
    decreases errors.len(),
{
    if errors.len() == 0 {
        start
    } else {
        active_after(start, errors.drop_last()).remove(errors.last())
    }
}

/// After a run of input errors the loop still mixes exactly the inputs it
/// started with that reported no error.
pub proof fn lemma_active_after_errors(start: Set<Seq<char>>, errors: Seq<Seq<char>>)
    ensures
        active_after(start, errors) == start.difference(errors.to_set()),
    decreases errors.len(),
{
    if errors.len() > 0 {
        lemma_active_after_errors(start, errors.drop_last());
        assert(errors.to_set() =~= errors.drop_last().to_set().insert(errors.last())) by {
            assert forall|x: Seq<char>| errors.contains(x) <==> (errors.drop_last().contains(x) || x == errors.last()) by {
                if errors.contains(x) {
                    let k = choose|k: int| 0 <= k < errors.len() && errors[k] == x;
                    if k < errors.len() - 1 {
                        assert(errors.drop_last()[k] == x);
                    }
                }
                if errors.drop_last().contains(x) {
                    let k = choose|k: int| 0 <= k < errors.drop_last().len() && errors.drop_last()[k] == x;
                    assert(errors[k] == x);
                }
                if x == errors.last() {
                    assert(errors[errors.len() - 1] == x);
                }
            }
        }
        assert(active_after(start, errors) =~= start.difference(errors.to_set()));
    }
}

/// Each input is reported lost at most once, and only an input the loop
/// started with: the error at `i` leads to an event only when its input is
/// still mixed, which requires it to be one of `start` with no earlier
/// error, and any later error of the same input is ignored.
pub proof fn lemma_input_lost_at_most_once(start: Set<Seq<char>>, errors: Seq<Seq<char>>, i: int, j: int)
    requires
        0 <= i < j < errors.len(),
        errors[i] == errors[j],
    ensures
        active_after(start, errors.take(i)).contains(errors[i]) ==> start.contains(errors[i]),
        !active_after(start, errors.take(j)).contains(errors[j]),
{
    lemma_active_after_errors(start, errors.take(i));
    lemma_active_after_errors(start, errors.take(j));
    assert(errors.take(j)[i] == errors[j]);
    assert(errors.take(j).to_set().contains(errors[j]));
}

} // verus!
