//! Sample management for the KORG Volca Sample 2.

pub mod audio;
pub mod callbacks;
pub mod delete;
pub mod device;
pub mod download;
pub mod effects;
pub mod laws;
pub mod loading;
pub mod proto;
pub mod rounding;
pub mod save;
pub mod scan;
pub mod single;
pub mod state;
pub mod text;
pub mod upload;
pub mod waveform;
