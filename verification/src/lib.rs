//! Verified core of a low-latency screen-sharing system: the video packet
//! header, forward error correction over Reed-Solomon shards, Annex-B access
//! unit extraction, the session handshake and streaming pipeline, the
//! control channel and input injection, and the decisions of the server's and
//! clients' user interfaces.

pub mod rtp;
pub mod capture;
pub mod nal_extractor;
pub mod nal_laws;
pub mod erasure;
pub mod fec;
pub mod frame_keys;
pub mod fec_laws;
pub mod decoder_bounds;
pub mod browser_capture;
pub mod command;
pub mod input_events;
pub mod text;
pub mod session;
pub mod cli;
pub mod keymap;
pub mod client_input;
pub mod hud;
pub mod display;
pub mod clipboard;
pub mod panel;
pub mod launcher;
pub mod browser_session;
