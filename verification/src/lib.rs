//! Seamless remote windows: the logic that mirrors a host's application
//! windows on a client machine, one native window each.
//!
//! Every decision the host, the client and its per-application helper
//! processes take is a function of plain values here; sockets, screens and
//! event loops live around this crate.

pub mod app;
pub mod b64;
pub mod blit;
pub mod blit_laws;
pub mod bundle;
pub mod bytes;
pub mod capture;
pub mod capture_laws;
pub mod choice_laws;
pub mod classify;
pub mod codec;
pub mod coordinator;
pub mod coordinator_laws;
pub mod display_laws;
pub mod event_laws;
pub mod h264;
pub mod helper;
pub mod host_blit;
pub mod host_laws;
pub mod ids;
pub mod image;
pub mod input;
pub mod input_laws;
pub mod ipc;
pub mod mapping;
pub mod mirror_app;
pub mod mirror_laws;
pub mod mirrors;
pub mod model;
pub mod names;
pub mod net;
pub mod paint;
pub mod paint_laws;
pub mod part_laws;
pub mod peer;
pub mod pipeline;
pub mod pixel_laws;
pub mod pixels;
pub mod protocol;
pub mod relay_laws;
pub mod router;
pub mod scalar;
pub mod session;
pub mod session_laws;
pub mod share;
pub mod signalling;
pub mod stream_laws;
pub mod text;
pub mod text_laws;
pub mod tracker;
pub mod tracker_laws;
pub mod tracking_laws;
pub mod wire_laws;
