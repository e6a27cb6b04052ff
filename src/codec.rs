//! The multibyte codec: character boundaries, the codepoint range, and the
//! mapping between single bytes and codepoints.
use vstd::prelude::*;

use crate::error::CharError;

verus! {

/// The largest codepoint the editor can represent.
pub const MAX_CHAR: u32 = 0x3F_FFFF;

/// The largest codepoint that is a real character; every codepoint above it,
/// up to `MAX_CHAR`, stands for one raw byte in `0x80..=0xFF`.
pub const MAX_5_BYTE_CHAR: u32 = 0x3F_FF7F;

/// Distance between a raw byte and the codepoint that carries it.
pub const BYTE8_OFFSET: u32 = 0x3F_FF00;

/// A byte starts a character unless it is a continuation byte `0b10xx_xxxx`.
pub open spec fn is_char_start(byte: u8) -> bool {
    !(0x80 <= byte && byte < 0xC0)
}

/// Whether `c` is a codepoint at all.
pub open spec fn is_codepoint(c: int) -> bool {
    0 <= c <= MAX_CHAR
}

/// Whether `c` is one of the reserved codepoints that carry a raw byte.
pub open spec fn is_raw_byte_char(c: int) -> bool {
    MAX_5_BYTE_CHAR < c <= MAX_CHAR
}

/// The reserved codepoint that carries the raw byte `b` (`0x80..=0xFF`).
pub open spec fn raw_byte_char(b: int) -> int {
    b + BYTE8_OFFSET
}

/// The codepoint a byte of single-byte text becomes in multibyte text: the
/// single-byte charset is Latin-1, whose characters share their byte's value.
pub open spec fn unibyte_to_char(b: int) -> int {
    b
}

/// What `unibyte_char_to_multibyte` gives for `c`.
pub open spec fn widen_spec(c: u32) -> Result<u32, CharError> {
    if c < 0x100 {
        Ok(unibyte_to_char(c as int) as u32)
    } else {
        Err(CharError::InvalidArgument(c))
    }
}

/// What `multibyte_char_to_unibyte` gives for `c`: below 256 the value
/// itself (a raw byte and a Latin-1 character are not told apart there), the
/// byte a reserved codepoint carries, and `None` for any other character.
pub open spec fn narrow_spec(c: u32) -> Result<Option<u8>, CharError> {
    if c > MAX_CHAR {
        Err(CharError::NotACharacter(c))
    } else if c < 0x100 {
        Ok(Some(c as u8))
    } else if is_raw_byte_char(c as int) {
        Ok(Some((c - BYTE8_OFFSET) as u8))
    } else {
        Ok(None)
    }
}

/// True iff `byte` starts a character in multibyte text.
pub fn char_read_p(byte: u8) -> (r: bool)
    ensures
        r == is_char_start(byte),
{
    let r = (byte & 0xC0) != 0x80;
    assert(r == !(0x80 <= byte && byte < 0xC0)) by (bit_vector)
        requires
            r == ((byte & 0xC0) != 0x80),
    ;
    r
}

/// The largest character code.
pub fn max_char() -> (r: u32)
    ensures
        r == MAX_CHAR,
{
    MAX_CHAR
}

/// The raw byte that a reserved codepoint carries, for a codepoint below 128
/// the codepoint itself, and `None` for any other codepoint.
fn raw_byte_from_codepoint_safe(c: u32) -> (r: Option<u8>)
    requires
        c <= MAX_CHAR,
    ensures
        r == (if c < 0x80 {
            Some(c as u8)
        } else if is_raw_byte_char(c as int) {
            Some((c - BYTE8_OFFSET) as u8)
        } else {
            None::<u8>
        }),
{
    if c < 0x80 {
        Some(c as u8)
    } else if c > MAX_5_BYTE_CHAR {
        Some((c - BYTE8_OFFSET) as u8)
    } else {
        None
    }
}

/// Converts the byte `c` of single-byte text to the character it denotes in
/// multibyte text; a value of 256 or more is no byte and is refused.
pub fn unibyte_char_to_multibyte(c: u32) -> (r: Result<u32, CharError>)
    ensures
        r == widen_spec(c),
        c < 0x80 ==> r == Ok::<u32, CharError>(c),
        c >= 0x100 ==> r == Err::<u32, CharError>(CharError::InvalidArgument(c)),
{
    if c >= 0x100 {
        Err(CharError::InvalidArgument(c))
    } else {
        Ok(c)
    }
}

/// Converts the character `c` to a byte: `None` where the character stands
/// for no byte, and an error where `c` is no character.
pub fn multibyte_char_to_unibyte(c: u32) -> (r: Result<Option<u8>, CharError>)
    ensures
        r == narrow_spec(c),
        c < 0x100 ==> r == Ok::<Option<u8>, CharError>(Some(c as u8)),
{
    if c > MAX_CHAR {
        Err(CharError::NotACharacter(c))
    } else if c < 0x100 {
        Ok(Some(c as u8))
    } else {
        Ok(raw_byte_from_codepoint_safe(c))
    }
}

} // verus!

verus! {

/// A reserved codepoint converted to a byte gives back the raw byte it
/// carries, for every byte in `0x80..=0xFF`.
pub proof fn lemma_raw_byte_round_trip(b: u8)
    requires
        0x80 <= b,
    ensures
        is_raw_byte_char(raw_byte_char(b as int)),
        narrow_spec(raw_byte_char(b as int) as u32) == Ok::<Option<u8>, CharError>(Some(b)),
{
}

/// Every reserved codepoint carries a distinct byte in `0x80..=0xFF`, so the
/// reserved range and the bytes it carries correspond one to one.
pub proof fn lemma_raw_byte_char_inverse(c: u32)
    requires
        is_raw_byte_char(c as int),
    ensures
        narrow_spec(c) matches Ok(Some(b)) && 0x80 <= b && raw_byte_char(b as int) == c,
{
}

/// Bytes of single-byte text below `0x80` are ASCII characters and widen to
/// themselves, and narrowing a widened byte gives the byte back.
pub proof fn lemma_widen_then_narrow(b: u8)
    ensures
        b < 0x80 ==> widen_spec(b as u32) == Ok::<u32, CharError>(b as u32),
        widen_spec(b as u32) matches Ok(c) && narrow_spec(c) == Ok::<Option<u8>, CharError>(
            Some(b),
        ),
{
}

} // verus!
