//! Multi-input configuration: which devices are selected (at most two are
//! valid), the role, gain and mute state of each, whether the mode is on,
//! and what to do when an input fails.
//!
//! Gains are in dB and are carried as the bit pattern of an `f32`
//! (`f32::to_bits`); the value is only stored and returned here.

use vstd::prelude::*;
use vstd::string::StringExecFns;
use crate::multi_input_manager::InputRole;
use crate::str_map::StrMap;
use crate::text::str_eq;

verus! {

/// What to do when an input device fails.
#[derive(Debug, Clone, Copy, PartialEq, Eq, Structural)]
pub enum DegradationPolicy {
    /// Keep recording with the remaining inputs.
    ContinueWithRemaining,
    /// Stop recording when any input fails.
    StopOnAnyFailure,
}

impl Default for DegradationPolicy {
    fn default() -> (p: Self)
        ensures
            p == DegradationPolicy::ContinueWithRemaining,
    {
        DegradationPolicy::ContinueWithRemaining
    }
}

/// Bits of the default gain, -6.0 dB as an `f32`.
pub const DEFAULT_GAIN_DB_BITS: u32 = 0xC0C0_0000;

/// Version of the settings format.
pub const SETTINGS_VERSION: u32 = 1;

/// Directory of the settings file under the application data directory.
pub const SETTINGS_SUBDIR: &'static str = "settings";

/// Name of the settings file.
pub const SETTINGS_FILENAME: &'static str = "multi_input.json";

/// Version given to settings that carry none.
pub fn default_version() -> (v: u32)
    ensures
        v == SETTINGS_VERSION,
{
    SETTINGS_VERSION
}

/// Path of the settings file: `[app_data_dir]/settings/multi_input.json`.
pub fn get_settings_path(app_data_dir: &str) -> (p: String)
    ensures
        p@ == crate::storage::joined_path(crate::storage::joined_path(app_data_dir@, SETTINGS_SUBDIR@), SETTINGS_FILENAME@),
{
    let dir = crate::storage::join_path(app_data_dir, SETTINGS_SUBDIR);
    crate::storage::join_path(dir.as_str(), SETTINGS_FILENAME)
}

/// Largest number of selected devices that is valid.
pub const MAX_SELECTED_DEVICES: usize = 2;

/// Multi-input configuration.
#[derive(Debug)]
pub struct MultiInputSettings {
    /// Selected device ids, in selection order.
    pub selected_device_ids: Vec<String>,
    /// Role of each device.
    pub input_roles: StrMap<InputRole>,
    /// Gain of each device (bits of an `f32` in dB).
    pub gains: StrMap<u32>,
    /// Mute state of each device.
    pub mute_states: StrMap<bool>,
    /// Whether the multi-input mode is on.
    pub multi_input_enabled: bool,
    /// What to do on input failure.
    pub degradation_policy: DegradationPolicy,
    /// Format version.
    pub version: u32,
}

/// The texts of a list of strings.
pub open spec fn ids_of(v: Seq<String>) -> Seq<Seq<char>> {
    v.map_values(|s: String| s@)
}

/// `ids` without any occurrence of `id`, order kept.
pub open spec fn without(ids: Seq<Seq<char>>, id: Seq<char>) -> Seq<Seq<char>> {
    ids.filter(differs_from(id))
}

/// The test "is not `id`".
pub open spec fn differs_from(id: Seq<char>) -> spec_fn(Seq<char>) -> bool {
    |x: Seq<char>| x != id
}

/// The test "is not among `ids`".
pub open spec fn not_among(ids: Seq<Seq<char>>) -> spec_fn(Seq<char>) -> bool {
    |x: Seq<char>| !ids.contains(x)
}

/// The selection after adding `id`: appended unless already there.
pub open spec fn add_selected(sel: Seq<Seq<char>>, id: Seq<char>) -> Seq<Seq<char>> {
    if sel.contains(id) {
        sel
    } else {
        sel.push(id)
    }
}

/// `m` with `id` set to `v` unless `id` already has a value.
pub open spec fn with_default<V>(m: Map<Seq<char>, V>, id: Seq<char>, v: V) -> Map<Seq<char>, V> {
    if m.contains_key(id) {
        m
    } else {
        m.insert(id, v)
    }
}

/// Gain of a device: the one set, else -6 dB.
pub open spec fn gain_of(m: Map<Seq<char>, u32>, id: Seq<char>) -> u32 {
    if m.contains_key(id) {
        m[id]
    } else {
        DEFAULT_GAIN_DB_BITS
    }
}

/// Mute state of a device: the one set, else unmuted.
pub open spec fn muted_of(m: Map<Seq<char>, bool>, id: Seq<char>) -> bool {
    m.contains_key(id) && m[id]
}

impl MultiInputSettings {
    /// Role of each device.
    pub open spec fn roles(&self) -> Map<Seq<char>, InputRole> {
        self.input_roles@
    }

    /// Gain of each device (bits of an `f32` in dB).
    pub open spec fn gain_map(&self) -> Map<Seq<char>, u32> {
        self.gains@
    }

    /// Mute state of each device.
    pub open spec fn mutes(&self) -> Map<Seq<char>, bool> {
        self.mute_states@
    }

    /// Nothing selected, mode off, `ContinueWithRemaining`, version 1.
    pub fn new() -> (s: Self)
        ensures
            s.selected_device_ids@.len() == 0,
            s.roles() == Map::<Seq<char>, InputRole>::empty(),
            s.gain_map() == Map::<Seq<char>, u32>::empty(),
            s.mutes() == Map::<Seq<char>, bool>::empty(),
            !s.multi_input_enabled,
            s.degradation_policy == DegradationPolicy::ContinueWithRemaining,
            s.version == SETTINGS_VERSION,
    {
        MultiInputSettings {
            selected_device_ids: Vec::new(),
            input_roles: StrMap::new(),
            gains: StrMap::new(),
            mute_states: StrMap::new(),
            multi_input_enabled: false,
            degradation_policy: DegradationPolicy::ContinueWithRemaining,
            version: SETTINGS_VERSION,
        }
    }

    /// Whether `device_id` is selected.
    pub fn is_selected(&self, device_id: &str) -> (b: bool)
        ensures
            b == ids_of(self.selected_device_ids@).contains(device_id@),
    {
        let mut i: usize = 0;
        while i < self.selected_device_ids.len()
            invariant
                i <= self.selected_device_ids@.len(),
                forall|j: int| 0 <= j < i ==> self.selected_device_ids@[j]@ != device_id@,
            decreases self.selected_device_ids@.len() - i,
        {
            if str_eq(self.selected_device_ids[i].as_str(), device_id) {
                assert(ids_of(self.selected_device_ids@)[i as int] == device_id@);
                return true;
            }
            i = i + 1;
        }
        assert forall|j: int| 0 <= j < ids_of(self.selected_device_ids@).len() implies ids_of(self.selected_device_ids@)[j] != device_id@ by {}
        false
    }

    /// Select a device with a role: it is appended unless already selected,
    /// its role is set, and it gets the default gain (-6 dB) and is unmuted
    /// unless a gain or mute state was already set.
    pub fn add_device(&mut self, device_id: &str, role: InputRole)
        ensures
            ids_of(final(self).selected_device_ids@) == add_selected(ids_of(old(self).selected_device_ids@), device_id@),
            final(self).roles() == old(self).roles().insert(device_id@, role),
            final(self).gain_map() == with_default(old(self).gain_map(), device_id@, DEFAULT_GAIN_DB_BITS),
            final(self).mutes() == with_default(old(self).mutes(), device_id@, false),
            final(self).multi_input_enabled == old(self).multi_input_enabled,
            final(self).degradation_policy == old(self).degradation_policy,
            final(self).version == old(self).version,
    {
        if !self.is_selected(device_id) {
            let ghost before = self.selected_device_ids@;
            self.selected_device_ids.push(String::from_str(device_id));
            assert(ids_of(self.selected_device_ids@) =~= ids_of(before).push(device_id@));
        }
        self.input_roles.insert(String::from_str(device_id), role);
        self.gains.insert_if_absent(String::from_str(device_id), DEFAULT_GAIN_DB_BITS);
        self.mute_states.insert_if_absent(String::from_str(device_id), false);
    }

    /// Deselect a device and forget its role, gain and mute state.
    pub fn remove_device(&mut self, device_id: &str)
        ensures
            ids_of(final(self).selected_device_ids@) == without(ids_of(old(self).selected_device_ids@), device_id@),
            final(self).roles() == old(self).roles().remove(device_id@),
            final(self).gain_map() == old(self).gain_map().remove(device_id@),
            final(self).mutes() == old(self).mutes().remove(device_id@),
            final(self).multi_input_enabled == old(self).multi_input_enabled,
            final(self).degradation_policy == old(self).degradation_policy,
            final(self).version == old(self).version,
    {
        let mut kept: Vec<String> = Vec::new();
        let mut i: usize = 0;
        let ghost src = ids_of(self.selected_device_ids@);
        while i < self.selected_device_ids.len()
            invariant
                src == ids_of(self.selected_device_ids@),
                i <= self.selected_device_ids@.len(),
                ids_of(kept@) == without(src.take(i as int), device_id@),
            decreases self.selected_device_ids@.len() - i,
        {
            let ghost before = kept@;
            let id = self.selected_device_ids[i].clone();
            assert(src.take(i + 1) =~= src.take(i as int).push(id@));
            proof {
                src.take(i as int).lemma_filter_push(id@, differs_from(device_id@));
            }
            if !str_eq(id.as_str(), device_id) {
                kept.push(id);
                assert(ids_of(kept@) =~= ids_of(before).push(id@));
            }
            i = i + 1;
        }
        assert(src.take(src.len() as int) =~= src);
        self.selected_device_ids = kept;
        self.input_roles.remove(device_id);
        self.gains.remove(device_id);
        self.mute_states.remove(device_id);
    }

    /// Set the gain of a device (bits of an `f32` in dB).
    pub fn set_gain(&mut self, device_id: &str, gain_db_bits: u32)
        ensures
            final(self).gain_map() == old(self).gain_map().insert(device_id@, gain_db_bits),
            ids_of(final(self).selected_device_ids@) == ids_of(old(self).selected_device_ids@),
            final(self).roles() == old(self).roles(),
            final(self).mutes() == old(self).mutes(),
    {
        self.gains.insert(String::from_str(device_id), gain_db_bits);
    }

    /// Set the mute state of a device.
    pub fn set_mute(&mut self, device_id: &str, muted: bool)
        ensures
            final(self).mutes() == old(self).mutes().insert(device_id@, muted),
            ids_of(final(self).selected_device_ids@) == ids_of(old(self).selected_device_ids@),
            final(self).roles() == old(self).roles(),
            final(self).gain_map() == old(self).gain_map(),
    {
        self.mute_states.insert(String::from_str(device_id), muted);
    }

    /// Gain of a device (bits of an `f32` in dB); -6 dB when none is set.
    pub fn get_gain(&self, device_id: &str) -> (g: u32)
        ensures
            g == gain_of(self.gain_map(), device_id@),
    {
        match self.gains.get(device_id) {
            Some(g) => g,
            None => DEFAULT_GAIN_DB_BITS,
        }
    }

    /// Mute state of a device; unmuted when none is set.
    pub fn is_muted(&self, device_id: &str) -> (m: bool)
        ensures
            m == muted_of(self.mutes(), device_id@),
    {
        match self.mute_states.get(device_id) {
            Some(m) => m,
            None => false,
        }
    }

    /// Role of a device, if one is set.
    pub fn input_role(&self, device_id: &str) -> (r: Option<InputRole>)
        ensures
            r == (if self.roles().contains_key(device_id@) { Some(self.roles()[device_id@]) } else { None::<InputRole> }),
    {
        self.input_roles.get(device_id)
    }

    /// At most two devices are selected.
    pub fn is_valid(&self) -> (b: bool)
        ensures
            b == (self.selected_device_ids@.len() <= MAX_SELECTED_DEVICES),
    {
        self.selected_device_ids.len() <= MAX_SELECTED_DEVICES
    }

    /// The roles, for serialisation.
    pub fn role_entries(&self) -> (r: Vec<(String, InputRole)>)
        ensures
            crate::str_map::entries_map(r@) == self.roles(),
    {
        self.input_roles.to_pairs()
    }

    /// The gains, for serialisation.
    pub fn gain_entries(&self) -> (r: Vec<(String, u32)>)
        ensures
            crate::str_map::entries_map(r@) == self.gain_map(),
    {
        self.gains.to_pairs()
    }

    /// The mute states, for serialisation.
    pub fn mute_entries(&self) -> (r: Vec<(String, bool)>)
        ensures
            crate::str_map::entries_map(r@) == self.mutes(),
    {
        self.mute_states.to_pairs()
    }
}

/// The selected devices that are not among `available`, in selection order.
pub open spec fn unavailable_ids(selected: Seq<Seq<char>>, available: Seq<Seq<char>>) -> Seq<Seq<char>> {
    selected.filter(not_among(available))
}

fn contains_id(ids: &[String], id: &str) -> (b: bool)
    ensures
        b == ids_of(ids@).contains(id@),
{
    let mut i: usize = 0;
    while i < ids.len()
        invariant
            i <= ids@.len(),
            forall|j: int| 0 <= j < i ==> ids@[j]@ != id@,
        decreases ids@.len() - i,
    {
        if str_eq(ids[i].as_str(), id) {
            assert(ids_of(ids@)[i as int] == id@);
            return true;
        }
        i = i + 1;
    }
    assert forall|j: int| 0 <= j < ids_of(ids@).len() implies ids_of(ids@)[j] != id@ by {}
    false
}

/// The selected devices that are no longer available.
pub fn validate_devices(settings: &MultiInputSettings, available_device_ids: &[String]) -> (r: Vec<String>)
    ensures
        ids_of(r@) == unavailable_ids(ids_of(settings.selected_device_ids@), ids_of(available_device_ids@)),
{
    let ghost sel = ids_of(settings.selected_device_ids@);
    let ghost avail = ids_of(available_device_ids@);
    let mut r: Vec<String> = Vec::new();
    let mut i: usize = 0;
    while i < settings.selected_device_ids.len()
        invariant
            sel == ids_of(settings.selected_device_ids@),
            avail == ids_of(available_device_ids@),
            i <= settings.selected_device_ids@.len(),
            ids_of(r@) == unavailable_ids(sel.take(i as int), avail),
        decreases settings.selected_device_ids@.len() - i,
    {
        let ghost before = r@;
        let id = settings.selected_device_ids[i].clone();
        assert(sel.take(i + 1) =~= sel.take(i as int).push(id@));
        proof {
            sel.take(i as int).lemma_filter_push(id@, not_among(avail));
        }
        if !contains_id(available_device_ids, id.as_str()) {
            r.push(id);
            assert(ids_of(r@) =~= ids_of(before).push(id@));
        }
        i = i + 1;
    }
    assert(sel.take(sel.len() as int) =~= sel);
    r
}

/// Adding a device twice is the same as adding it once.
pub proof fn lemma_add_device_idempotent(sel: Seq<Seq<char>>, gains: Map<Seq<char>, u32>, mutes: Map<Seq<char>, bool>, id: Seq<char>)
    ensures
        add_selected(add_selected(sel, id), id) == add_selected(sel, id),
        with_default(with_default(gains, id, DEFAULT_GAIN_DB_BITS), id, DEFAULT_GAIN_DB_BITS) == with_default(gains, id, DEFAULT_GAIN_DB_BITS),
        with_default(with_default(mutes, id, false), id, false) == with_default(mutes, id, false),
{
    if !sel.contains(id) {
        assert(sel.push(id)[sel.len() as int] == id);
    }
}

/// Removing a device just added leaves the selection as removing it from
/// the selection before would, and without the device.
pub proof fn lemma_remove_after_add(sel: Seq<Seq<char>>, id: Seq<char>)
    ensures
        without(add_selected(sel, id), id) == without(sel, id),
        !without(add_selected(sel, id), id).contains(id),
{
    let p = differs_from(id);
    if !sel.contains(id) {
        sel.lemma_filter_push(id, p);
        assert(add_selected(sel, id) == sel.push(id));
        assert(sel.push(id).filter(p) == sel.filter(p));
        assert(without(add_selected(sel, id), id) == sel.push(id).filter(p));
    } else {
        assert(add_selected(sel, id) == sel);
    }
    if without(sel, id).contains(id) {
        sel.lemma_filter_contains_rev(p, id);
        let j = choose|j: int| 0 <= j < sel.filter(p).len() && sel.filter(p)[j] == id;
        sel.lemma_filter_pred(p, j);
    }
}

/// A gain or mute state reads back as written; a device that gets its
/// defaults on being added reads -6 dB and unmuted, one that had values
/// keeps them; a removed device reads the defaults again.
pub proof fn lemma_gain_and_mute_read_after_write(gains: Map<Seq<char>, u32>, mutes: Map<Seq<char>, bool>, id: Seq<char>, g: u32, m: bool)
    ensures
        gain_of(gains.insert(id, g), id) == g,
        muted_of(mutes.insert(id, m), id) == m,
        gain_of(with_default(gains, id, DEFAULT_GAIN_DB_BITS), id) == gain_of(gains, id),
        muted_of(with_default(mutes, id, false), id) == muted_of(mutes, id),
        gain_of(gains.remove(id), id) == DEFAULT_GAIN_DB_BITS,
        !muted_of(mutes.remove(id), id),
{
}

} // verus!
