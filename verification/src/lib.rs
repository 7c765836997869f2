//! Verified core of an AES67 audio-over-IP library.

pub mod config;
pub mod error;
pub mod formats;
pub mod text;
pub mod address;
pub mod pattern;
pub mod sdp;
pub mod receiver;
pub mod socket;
pub mod rtp;
pub mod utils;
pub mod buffer;
pub mod time;
pub mod monitoring;
pub mod ptp4l;
pub mod discovery;
pub mod sender;
pub mod child_app;
pub mod nic;
