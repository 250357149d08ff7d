//! Verified core of the meeting minutes automator: audio normalisation
//! arithmetic, per-input buffering and mixing bookkeeping, IPC version
//! negotiation, reconnection decisions and recording-session rules.

pub mod resampler;
pub mod text;
pub mod multi_input_manager;
pub mod input_mixer;
pub mod ipc_protocol;
pub mod ring_buffer;
pub mod reconnection_manager;
pub mod storage;
pub mod audio_device_adapter;
pub mod audio;
pub mod state;
pub mod str_map;
pub mod multi_input_settings;
pub mod commands;
pub mod websocket;
pub mod sidecar;
pub mod python_sidecar;
pub mod logger;
pub mod audio_device_recorder;
pub mod burn_in;
