//! Voice: signaling relay, per-peer sessions, framing and playout.
pub mod capture;
pub mod client;
pub mod diag;
pub mod dm;
pub mod event;
pub mod frames;
pub mod jitter;
pub mod mixer;
pub mod output;
pub mod rtp;
pub mod sendloop;
pub mod signaling;
pub mod suppressor;
pub mod wav;
