//! Clipboard access over the controlling terminal with the OSC 52 escape
//! sequence: frame encoding and decoding, the command front end, the
//! response-reader state machine, and the no-echo/cbreak terminal mode scope.

pub mod codec;
pub mod command;
pub mod reader;
pub mod termmode;
