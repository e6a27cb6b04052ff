use vstd::prelude::*;

verus! {

/// Why a character operation refused its input.
#[derive(Debug, Clone, Copy, PartialEq, Eq, Structural)]
pub enum CharError {
    /// A value that should have been a single byte (below 256) was not.
    InvalidArgument(u32),
    /// A value above `MAX_CHAR`, which denotes no character at all.
    NotACharacter(u32),
    /// A byte position outside the range the buffer can step back from.
    OutOfRange(usize),
}

} // verus!
