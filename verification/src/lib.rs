//! A small Remote Framebuffer (RFB 3.8) server core, each part with a
//! machine-checked contract:
//!
//! - `framebuffer`: the pixel store;
//! - `painter`: the pattern that is painted into it and the intensity that
//!   breathes;
//! - `rfb`: the incremental parser of the client's frames, with `buffer`,
//!   the byte queue it reads from, and `rfb_laws`, what holds of it however
//!   the bytes arrive;
//! - `session`: the rules of one connection and the messages the server
//!   sends, with `session_laws`;
//! - `wire`: big-endian integers.
//!
//! The library decides and encodes; sockets, timers and threads belong to
//! its user.

pub mod buffer;
pub mod framebuffer;
pub mod painter;
pub mod rfb;
pub mod rfb_laws;
pub mod session;
pub mod session_laws;
pub mod wire;
