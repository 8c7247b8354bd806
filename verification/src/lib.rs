//! Core of a minimal serial bootloader: framed message transport, a typed
//! command/response vocabulary, an address-validity policy, and the request
//! dispatcher that applies validated writes to a memory image and manages the
//! handoff into loaded code.
//!
//! Byte I/O and hardware control live outside this crate; the library works
//! on plain values handed in by the surrounding program.

use vstd::prelude::*;

pub mod codec;
pub mod dispatcher;
pub mod loader;
pub mod memory;
pub mod schema;
pub mod validator;

verus! {

/// Largest decoded frame payload either side may produce or accept.
pub const MAX_FRAME_PAYLOAD: usize = 300;

/// Largest escaped frame body the codec will accumulate before declaring the
/// frame oversized. Escaping at most doubles a payload, so every payload of
/// at most `MAX_FRAME_PAYLOAD` bytes fits.
pub const MAX_ENCODED_FRAME: usize = 600;

} // verus!
