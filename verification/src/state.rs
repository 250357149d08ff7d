//! The recording-selection part of the application state: whether a
//! recording runs, which device or devices the user chose, whether the
//! multi-input mode is on, and the id of the current session.
//!
//! The application shares one value of this type behind a lock, next to
//! the handles of the running services.

use vstd::prelude::*;

verus! {

/// Selection and recording state shared by the commands.
#[derive(Debug)]
pub struct AppState {
    pub is_recording: bool,
    selected_device_id: Option<String>,
    selected_device_ids: Vec<String>,
    multi_input_enabled: bool,
    session_id: Option<String>,
}

/// Abstract state.
pub struct AppStateView {
    pub is_recording: bool,
    pub selected_device_id: Option<Seq<char>>,
    pub selected_device_ids: Seq<Seq<char>>,
    pub multi_input_enabled: bool,
    pub session_id: Option<Seq<char>>,
}

/// The text of an optional string.
pub open spec fn opt_view(s: Option<String>) -> Option<Seq<char>> {
    match s {
        Some(t) => Some(t@),
        None => None,
    }
}

/// The texts of a list of strings.
pub open spec fn texts(v: Seq<String>) -> Seq<Seq<char>> {
    v.map_values(|s: String| s@)
}

impl View for AppState {
    type V = AppStateView;

    closed spec fn view(&self) -> AppStateView {
        AppStateView {
            is_recording: self.is_recording,
            selected_device_id: opt_view(self.selected_device_id),
            selected_device_ids: texts(self.selected_device_ids@),
            multi_input_enabled: self.multi_input_enabled,
            session_id: opt_view(self.session_id),
        }
    }
}

/// The devices to record from: the chosen list in multi-input mode, else
/// the single chosen device (none when nothing is chosen).
pub open spec fn effective_ids(s: AppStateView) -> Seq<Seq<char>> {
    if s.multi_input_enabled {
        s.selected_device_ids
    } else {
        match s.selected_device_id {
            Some(id) => seq![id],
            None => Seq::empty(),
        }
    }
}

fn copy_strings(v: &Vec<String>) -> (r: Vec<String>)
    ensures
        texts(r@) == texts(v@),
{
    let mut r: Vec<String> = Vec::new();
    let mut i: usize = 0;
    while i < v.len()
        invariant
            i <= v@.len(),
            r@.len() == i,
            forall|k: int| 0 <= k < i ==> (#[trigger] r@[k])@ == v@[k]@,
        decreases v@.len() - i,
    {
        r.push(v[i].clone());
        i = i + 1;
    }
    assert(texts(r@) =~= texts(v@));
    r
}

impl AppState {
    /// Not recording, nothing selected, single-input mode, no session.
    pub fn new() -> (s: Self)
        ensures
            !s@.is_recording,
            s@.selected_device_id is None,
            s@.selected_device_ids.len() == 0,
            !s@.multi_input_enabled,
            s@.session_id is None,
    {
        let s = AppState {
            is_recording: false,
            selected_device_id: None,
            selected_device_ids: Vec::new(),
            multi_input_enabled: false,
            session_id: None,
        };
        assert(texts(s.selected_device_ids@) =~= Seq::empty());
        s
    }

    /// Whether a recording runs.
    pub fn is_recording(&self) -> (b: bool)
        ensures
            b == self@.is_recording,
    {
        self.is_recording
    }

    /// Record whether a recording runs.
    pub fn set_recording(&mut self, recording: bool)
        ensures
            final(self)@ == (AppStateView { is_recording: recording, ..old(self)@ }),
    {
        self.is_recording = recording;
    }

    /// Choose the device for single-input recording.
    pub fn set_selected_device_id(&mut self, device_id: String)
        ensures
            final(self)@ == (AppStateView { selected_device_id: Some(device_id@), ..old(self)@ }),
    {
        self.selected_device_id = Some(device_id);
    }

    /// The device chosen for single-input recording.
    pub fn get_selected_device_id(&self) -> (r: Option<String>)
        ensures
            opt_view(r) == self@.selected_device_id,
    {
        match &self.selected_device_id {
            Some(id) => Some(id.clone()),
            None => None,
        }
    }

    /// Turn the multi-input mode on or off.
    pub fn set_multi_input_enabled(&mut self, enabled: bool)
        ensures
            final(self)@ == (AppStateView { multi_input_enabled: enabled, ..old(self)@ }),
    {
        self.multi_input_enabled = enabled;
    }

    /// Whether the multi-input mode is on.
    pub fn is_multi_input_enabled(&self) -> (b: bool)
        ensures
            b == self@.multi_input_enabled,
    {
        self.multi_input_enabled
    }

    /// Choose the devices for multi-input recording.
    pub fn set_selected_device_ids(&mut self, device_ids: Vec<String>)
        ensures
            final(self)@ == (AppStateView { selected_device_ids: texts(device_ids@), ..old(self)@ }),
    {
        self.selected_device_ids = device_ids;
    }

    /// The devices chosen for multi-input recording.
    pub fn get_selected_device_ids(&self) -> (r: Vec<String>)
        ensures
            texts(r@) == self@.selected_device_ids,
    {
        copy_strings(&self.selected_device_ids)
    }

    /// Forget the devices chosen for multi-input recording.
    pub fn clear_selected_device_ids(&mut self)
        ensures
            final(self)@ == (AppStateView { selected_device_ids: Seq::empty(), ..old(self)@ }),
    {
        self.selected_device_ids = Vec::new();
        assert(texts(self.selected_device_ids@) =~= Seq::empty());
    }

    /// The devices to record from in the current mode.
    pub fn get_effective_device_ids(&self) -> (r: Vec<String>)
        ensures
            texts(r@) == effective_ids(self@),
    {
        if self.multi_input_enabled {
            self.get_selected_device_ids()
        } else {
            match &self.selected_device_id {
                Some(id) => {
                    let mut r: Vec<String> = Vec::new();
                    r.push(id.clone());
                    assert(texts(r@) =~= seq![id@]);
                    r
                },
                None => {
                    let r: Vec<String> = Vec::new();
                    assert(texts(r@) =~= Seq::empty());
                    r
                },
            }
        }
    }

    /// Record the id of the session being recorded.
    pub fn set_session_id(&mut self, session: String)
        ensures
            final(self)@ == (AppStateView { session_id: Some(session@), ..old(self)@ }),
    {
        self.session_id = Some(session);
    }

    /// The id of the session being recorded.
    pub fn get_session_id(&self) -> (r: Option<String>)
        ensures
            opt_view(r) == self@.session_id,
    {
        match &self.session_id {
            Some(id) => Some(id.clone()),
            None => None,
        }
    }

    /// Forget the session id.
    pub fn clear_session_id(&mut self)
        ensures
            final(self)@ == (AppStateView { session_id: None, ..old(self)@ }),
    {
        self.session_id = None;
    }

    /// First step of a recording start: the primary device becomes the
    /// selected one.  Returns whether a recording already runs, in which case
    /// the start goes no further.
    pub fn select_primary_device(&mut self, primary_device_id: String) -> (already_recording: bool)
        ensures
            already_recording == old(self)@.is_recording,
            final(self)@ == (AppStateView { selected_device_id: Some(primary_device_id@), ..old(self)@ }),
    {
        self.selected_device_id = Some(primary_device_id);
        self.is_recording
    }

    /// A recording of a new session begins.
    pub fn begin_recording(&mut self, session_id: String)
        ensures
            final(self)@ == (AppStateView { is_recording: true, session_id: Some(session_id@), ..old(self)@ }),
    {
        self.session_id = Some(session_id);
        self.is_recording = true;
    }

    /// The recording ended or failed to start: no recording, no session.
    pub fn end_recording(&mut self)
        ensures
            final(self)@ == (AppStateView { is_recording: false, session_id: None, ..old(self)@ }),
    {
        self.is_recording = false;
        self.session_id = None;
    }
}

} // verus!
