//! Serial connection manager and command dispatch queue for a line-oriented
//! ASCII device protocol.
//!
//! Each outgoing command must be acknowledged with an "ok" line before the
//! next is sent. The crate provides the controller state machine that
//! enforces this single-outstanding-command flow control, the FIFO command
//! queue, the byte-level line framing used by the serial worker, and the
//! routing of acknowledgment payloads to report categories. All I/O stays
//! outside this crate; everything here works on plain bytes.

pub mod controller;
pub mod framing;
pub mod protocol;
pub mod worker;

use vstd::prelude::*;

verus! {

/// The byte that terminates an incoming or outgoing line on the wire.
pub const LINE_TERMINATOR: u8 = 0x0a;

} // verus!
