//! Audio input devices: their description, which of them are loopback
//! (virtual) devices, the health checks that watch a running capture, and
//! the choice of the platform's capture backend.
//!
//! The capture itself runs in the platform backends outside this crate;
//! they report what they observe here and act on what comes back.

use vstd::prelude::*;
use vstd::string::StringExecFns;
use crate::text::{seq_contains, str_contains};

verus! {

/// Something wrong observed on a running capture.
#[derive(Debug, Clone, PartialEq, Eq)]
pub enum AudioDeviceEvent {
    /// The backend reported a stream error.
    StreamError(String),
    /// No audio arrived for longer than the stall threshold.
    Stalled { elapsed_ms: u64 },
    /// The device is no longer enumerated.
    DeviceGone { device_id: String },
}

/// An audio input device as enumerated by the host.
#[derive(Debug, Clone, PartialEq, Eq)]
pub struct AudioDeviceInfo {
    /// Unique identifier (the host's device name).
    pub id: String,
    /// Human-readable name.
    pub name: String,
    /// Default sample rate in Hz.
    pub sample_rate: u32,
    /// Number of channels (1 = mono, 2 = stereo).
    pub channels: u16,
    /// Whether this is a loopback or virtual device.
    pub is_loopback: bool,
}

/// Device names that mark loopback or virtual devices: BlackHole and
/// Loopback on macOS, PulseAudio monitors on Linux, Stereo Mix and Wave Out
/// Mix on Windows.
pub open spec fn loopback_name(name: Seq<char>) -> bool {
    seq_contains(name, "BlackHole"@) || seq_contains(name, "Loopback"@) || seq_contains(name, "Monitor of"@)
        || seq_contains(name, ".monitor"@) || seq_contains(name, "Stereo Mix"@) || seq_contains(name, "Wave Out Mix"@)
}

/// Every device name that contains one of the markers, anywhere and with
/// anything around it, is a loopback name.
pub proof fn lemma_marker_anywhere_is_loopback(p: Seq<char>, q: Seq<char>)
    ensures
        loopback_name(p + "BlackHole"@ + q),
        loopback_name(p + "Loopback"@ + q),
        loopback_name(p + "Monitor of"@ + q),
        loopback_name(p + ".monitor"@ + q),
        loopback_name(p + "Stereo Mix"@ + q),
        loopback_name(p + "Wave Out Mix"@ + q),
{
    crate::text::lemma_contains_middle(p, "BlackHole"@, q);
    crate::text::lemma_contains_middle(p, "Loopback"@, q);
    crate::text::lemma_contains_middle(p, "Monitor of"@, q);
    crate::text::lemma_contains_middle(p, ".monitor"@, q);
    crate::text::lemma_contains_middle(p, "Stereo Mix"@, q);
    crate::text::lemma_contains_middle(p, "Wave Out Mix"@, q);
}

/// Whether a device name marks a loopback or virtual device.
pub fn is_loopback_device(name: &str) -> (b: bool)
    ensures
        b == loopback_name(name@),
{
    str_contains(name, "BlackHole") || str_contains(name, "Loopback") || str_contains(name, "Monitor of")
        || str_contains(name, ".monitor") || str_contains(name, "Stereo Mix") || str_contains(name, "Wave Out Mix")
}

impl AudioDeviceInfo {
    /// Description of a host input device: its name serves as its id, and
    /// the loopback flag follows from the name.
    pub fn from_host_device(name: String, sample_rate: u32, channels: u16) -> (d: Self)
        ensures
            d.id@ == name@,
            d.name@ == name@,
            d.sample_rate == sample_rate,
            d.channels == channels,
            d.is_loopback == loopback_name(name@),
    {
        let is_loopback = is_loopback_device(name.as_str());
        AudioDeviceInfo { id: name.clone(), name, sample_rate, channels, is_loopback }
    }
}

/// Milliseconds without audio after which a capture counts as stalled.
pub const STALL_THRESHOLD_MS: u64 = 1200;

/// How often the stall watchdog looks, in milliseconds.
pub const WATCHDOG_INTERVAL_MS: u64 = 250;

/// How often device presence is polled, in seconds.
pub const DEVICE_POLL_INTERVAL_SECS: u64 = 3;

/// Watchdog check: a `Stalled` event once more than the threshold has
/// passed since the last audio callback.
pub fn watchdog_check(elapsed_ms: u64) -> (e: Option<AudioDeviceEvent>)
    ensures
        elapsed_ms > STALL_THRESHOLD_MS ==> e == Some(AudioDeviceEvent::Stalled { elapsed_ms }),
        elapsed_ms <= STALL_THRESHOLD_MS ==> e is None,
{
    if elapsed_ms > STALL_THRESHOLD_MS {
        Some(AudioDeviceEvent::Stalled { elapsed_ms })
    } else {
        None
    }
}

/// Presence check: a `DeviceGone` event when the recorded device is no
/// longer enumerated.
pub fn device_poll_check(device_id: &str, still_present: bool) -> (e: Option<AudioDeviceEvent>)
    ensures
        still_present ==> e is None,
        !still_present ==> (e matches Some(AudioDeviceEvent::DeviceGone { device_id: d }) && d@ == device_id@),
{
    if still_present {
        None
    } else {
        Some(AudioDeviceEvent::DeviceGone { device_id: String::from_str(device_id) })
    }
}

/// Message shown when the microphone cannot be used.
pub open spec fn permission_denied_text() -> Seq<char> {
    "マイクアクセスが拒否されました。システム設定から許可してください"@
}

/// Microphone permission, judged by enumeration: granted when at least one
/// input device could be listed.
pub fn permission_from_enumeration(found_input_device: bool) -> (r: Result<(), String>)
    ensures
        found_input_device <==> r is Ok,
        r matches Err(m) ==> m@ == permission_denied_text(),
{
    if found_input_device {
        Ok(())
    } else {
        Err(String::from_str("マイクアクセスが拒否されました。システム設定から許可してください"))
    }
}

/// Recording state of a capture backend: at most one capture at a time.
#[derive(Debug, Clone)]
pub struct CaptureState {
    pub is_recording: bool,
    pub device_id: Option<String>,
}

impl CaptureState {
    /// Not recording.
    pub fn new() -> (s: Self)
        ensures
            !s.is_recording,
            s.device_id is None,
    {
        CaptureState { is_recording: false, device_id: None }
    }

    /// Begin capturing `device_id`; refused with `Already recording` while a
    /// capture runs.
    pub fn begin(&mut self, device_id: &str) -> (r: Result<(), String>)
        ensures
            old(self).is_recording <==> r is Err,
            r matches Err(m) ==> (m@ == "Already recording"@ && *final(self) == *old(self)),
            r is Ok ==> (final(self).is_recording && (final(self).device_id matches Some(d) && d@ == device_id@)),
    {
        if self.is_recording {
            return Err(String::from_str("Already recording"));
        }
        self.is_recording = true;
        self.device_id = Some(String::from_str(device_id));
        Ok(())
    }

    /// End the capture, if one runs; returns whether one ran (the backend
    /// then stops its threads).
    pub fn end(&mut self) -> (was_recording: bool)
        ensures
            was_recording == old(self).is_recording,
            was_recording ==> !final(self).is_recording && final(self).device_id is None,
            !was_recording ==> *final(self) == *old(self),
    {
        if !self.is_recording {
            return false;
        }
        self.is_recording = false;
        self.device_id = None;
        true
    }
}

/// Capture backend of each supported platform.
#[derive(Debug, Clone, Copy, PartialEq, Eq, Structural)]
pub enum AdapterKind {
    /// macOS.
    CoreAudio,
    /// Windows.
    Wasapi,
    /// Linux.
    Alsa,
}

/// Backend for an operating system name (as in `std::env::consts::OS`).
pub open spec fn adapter_for_os(os: Seq<char>) -> Option<AdapterKind> {
    if os == "macos"@ {
        Some(AdapterKind::CoreAudio)
    } else if os == "windows"@ {
        Some(AdapterKind::Wasapi)
    } else if os == "linux"@ {
        Some(AdapterKind::Alsa)
    } else {
        None
    }
}

/// The capture backend to create on `os`; other systems are refused with
/// `Unsupported operating system`.
pub fn create_audio_adapter(os: &str) -> (r: Result<AdapterKind, String>)
    ensures
        r matches Ok(k) ==> adapter_for_os(os@) == Some(k),
        r matches Err(m) ==> adapter_for_os(os@) is None && m@ == "Unsupported operating system"@,
{
    if crate::text::str_eq(os, "macos") {
        Ok(AdapterKind::CoreAudio)
    } else if crate::text::str_eq(os, "windows") {
        Ok(AdapterKind::Wasapi)
    } else if crate::text::str_eq(os, "linux") {
        Ok(AdapterKind::Alsa)
    } else {
        Err(String::from_str("Unsupported operating system"))
    }
}

/// What every capture backend offers.
pub trait AudioDeviceAdapter {
    /// The input devices the host lists.
    fn enumerate_devices(&self) -> Result<Vec<AudioDeviceInfo>, String>;

    /// Start recording from a device.
    fn start_recording(&mut self, device_id: &str) -> Result<(), String>;

    /// Stop recording.
    fn stop_recording(&mut self) -> Result<(), String>;

    /// Whether a recording runs.
    fn is_recording(&self) -> bool;

    /// Whether the microphone may be used; the error is the message to show.
    fn check_permission(&self) -> Result<(), String>;
}

} // verus!
