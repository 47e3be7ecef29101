//! Backend of a multi-session terminal emulator: an escape-sequence decoder,
//! a per-session screen buffer and the session registry that routes typed
//! terminal events between a local terminal and its child shells.

pub mod ansitypes;
pub mod buffer;
pub mod context;
pub mod decoder;
pub mod encoder;
pub mod event;
pub mod pty;
pub mod roundtrip;
pub mod surface;
pub mod wincon;
