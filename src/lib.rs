//! Byte-level text storage for an editor: a gap buffer whose bytes hold
//! multibyte text, and the codec that maps codepoints, raw 8-bit bytes and
//! character boundaries onto those bytes.

pub mod codec;
pub mod error;
pub mod gap_buffer;
pub mod object;
