//! The recording-device abstraction and the fake device used before real
//! capture is wired in: the fake lists two devices and, while running,
//! produces sixteen zero bytes per tick.

use vstd::prelude::*;
use vstd::string::StringExecFns;
use crate::audio_device_adapter::{AudioDeviceAdapter, AudioDeviceInfo};

verus! {

/// A device that records audio.
pub trait AudioDevice {
    /// Reset the device to its initial, stopped state.
    fn initialize(&mut self) -> Result<(), String>;

    /// Start recording.
    fn start(&mut self) -> Result<(), String>;

    /// Stop recording.
    fn stop(&mut self) -> Result<(), String>;
}

/// Bytes of dummy audio per tick of the fake device.
pub const DUMMY_CHUNK_LEN: usize = 16;

/// Milliseconds between two ticks of the fake device.
pub const DUMMY_TICK_MS: u64 = 100;

/// The two devices the fake device lists.
pub open spec fn fake_devices_spec(d: Seq<AudioDeviceInfo>) -> bool {
    &&& d.len() == 2
    &&& d[0].id@ == "fake-device-0"@ && d[0].name@ == "Fake Microphone"@
    &&& d[0].sample_rate == 16000 && d[0].channels == 1 && !d[0].is_loopback
    &&& d[1].id@ == "fake-device-1"@ && d[1].name@ == "Fake BlackHole 2ch"@
    &&& d[1].sample_rate == 16000 && d[1].channels == 2 && d[1].is_loopback
}

/// Fake recording device; the ticking task that feeds a callback belongs to
/// the caller, which reports starting and stopping here.
#[derive(Debug)]
pub struct FakeAudioDevice {
    is_running: bool,
}

impl FakeAudioDevice {
    /// A stopped fake device.
    pub fn new() -> (d: Self)
        ensures
            !d.running(),
    {
        FakeAudioDevice { is_running: false }
    }

    /// Whether the device runs.
    pub closed spec fn running(&self) -> bool {
        self.is_running
    }

    /// One tick of dummy audio: sixteen zero bytes.
    pub fn generate_dummy_data(&self) -> (v: Vec<u8>)
        ensures
            v@.len() == DUMMY_CHUNK_LEN,
            forall|i: int| 0 <= i < v@.len() ==> v@[i] == 0,
    {
        let mut v: Vec<u8> = Vec::new();
        let mut i: usize = 0;
        while i < DUMMY_CHUNK_LEN
            invariant
                i <= DUMMY_CHUNK_LEN,
                v@.len() == i,
                forall|k: int| 0 <= k < v@.len() ==> v@[k] == 0,
            decreases DUMMY_CHUNK_LEN - i,
        {
            v.push(0u8);
            i = i + 1;
        }
        v
    }

    /// Whether the device runs.
    pub fn is_running(&self) -> (b: bool)
        ensures
            b == self.running(),
    {
        self.is_running
    }

    /// Mark the device running; returns whether it already was (then the
    /// caller starts no second task).
    pub fn mark_started(&mut self) -> (was_running: bool)
        ensures
            was_running == old(self).running(),
            final(self).running(),
    {
        let was = self.is_running;
        self.is_running = true;
        was
    }

    /// The devices the fake lists.
    pub fn enumerate_devices_static() -> (d: Vec<AudioDeviceInfo>)
        ensures
            fake_devices_spec(d@),
    {
        let mut d: Vec<AudioDeviceInfo> = Vec::new();
        d.push(AudioDeviceInfo {
            id: String::from_str("fake-device-0"),
            name: String::from_str("Fake Microphone"),
            sample_rate: 16000,
            channels: 1,
            is_loopback: false,
        });
        d.push(AudioDeviceInfo {
            id: String::from_str("fake-device-1"),
            name: String::from_str("Fake BlackHole 2ch"),
            sample_rate: 16000,
            channels: 2,
            is_loopback: true,
        });
        d
    }
}

impl AudioDevice for FakeAudioDevice {
    fn initialize(&mut self) -> (r: Result<(), String>)
        ensures
            r is Ok,
            !final(self).running(),
    {
        self.is_running = false;
        Ok(())
    }

    fn start(&mut self) -> (r: Result<(), String>)
        ensures
            r is Ok,
            final(self).running(),
    {
        self.is_running = true;
        Ok(())
    }

    fn stop(&mut self) -> (r: Result<(), String>)
        ensures
            r is Ok,
            !final(self).running(),
    {
        self.is_running = false;
        Ok(())
    }
}

impl AudioDeviceAdapter for FakeAudioDevice {
    fn enumerate_devices(&self) -> (r: Result<Vec<AudioDeviceInfo>, String>)
        ensures
            r matches Ok(d) && fake_devices_spec(d@),
    {
        Ok(Self::enumerate_devices_static())
    }

    fn start_recording(&mut self, device_id: &str) -> (r: Result<(), String>)
        ensures
            r is Ok,
            final(self).running(),
    {
        self.is_running = true;
        Ok(())
    }

    fn stop_recording(&mut self) -> (r: Result<(), String>)
        ensures
            r is Ok,
            !final(self).running(),
    {
        self.is_running = false;
        Ok(())
    }

    fn is_recording(&self) -> (b: bool)
        ensures
            b == self.running(),
    {
        self.is_running
    }

    fn check_permission(&self) -> (r: Result<(), String>)
        ensures
            r is Ok,
    {
        Ok(())
    }
}

} // verus!
