//! The rules of a live danmaku (bullet comment) service: how comments are
//! accepted, how lanes are given out on the overlay, how the tunnel process is
//! supervised, and which window or monitor the overlay covers.
//!
//! Everything here works on plain values. Sockets, windows, processes and the
//! console belong to the application around this library.

pub mod config;
pub mod danmaku;
pub mod decimal;
pub mod edge;
pub mod follow;
pub mod fonts;
pub mod greatest;
pub mod helper;
pub mod ieee;
pub mod lanes;
pub mod monitors;
pub mod origin_cert;
pub mod overlay;
pub mod pages;
pub mod search;
pub mod session;
pub mod startup;
pub mod text;
pub mod tracker;
pub mod tunnel;
pub mod tunnel_log;
pub mod tunnel_url;
pub mod windows;
