//! Gap-buffer storage and the navigator that walks byte positions across it.
//!
//! A buffer's storage holds the text before the gap, then `gap_size` unused
//! bytes, then the text after the gap. Byte positions are logical: they run
//! from `beg_byte` to `end_byte` as if the gap were not there.
use vstd::prelude::*;

use crate::codec::{char_read_p, is_char_start};
use crate::error::CharError;

verus! {

/// The bytes of one buffer, with a gap of unused bytes at `gpt_byte`.
pub struct GapBuffer {
    storage: Vec<u8>,
    beg_byte: usize,
    gpt_byte: usize,
    gap_size: usize,
    end_byte: usize,
}

impl GapBuffer {
    /// First byte position of the text.
    pub closed spec fn beg(&self) -> int {
        self.beg_byte as int
    }

    /// One past the last byte position of the text.
    pub closed spec fn end(&self) -> int {
        self.end_byte as int
    }

    /// Byte position at which the gap sits.
    pub closed spec fn gpt(&self) -> int {
        self.gpt_byte as int
    }

    /// Number of unused bytes in the gap.
    pub closed spec fn gap(&self) -> int {
        self.gap_size as int
    }

    /// The raw storage, gap included.
    pub closed spec fn storage(&self) -> Seq<u8> {
        self.storage@
    }

    /// The gap sits inside the text, and the storage holds the text and the
    /// gap exactly, and every position and storage index fits a `usize`.
    pub open spec fn wf(&self) -> bool {
        &&& self.beg() <= self.gpt() <= self.end()
        &&& self.storage().len() == self.end() - self.beg() + self.gap()
        &&& self.end() + self.gap() <= usize::MAX
    }

    /// Storage index of logical byte position `pos`: positions at or after the
    /// gap lie `gap_size` bytes further on.
    pub open spec fn index_of(&self, pos: int) -> int {
        if pos < self.gpt() {
            pos - self.beg()
        } else {
            pos - self.beg() + self.gap()
        }
    }

    /// The text as the editor sees it: the storage with the gap cut out.
    pub open spec fn text(&self) -> Seq<u8> {
        self.storage().subrange(0, self.gpt() - self.beg()) + self.storage().subrange(
            self.gpt() - self.beg() + self.gap(),
            self.storage().len() as int,
        )
    }

    /// The byte of the text at logical position `pos`.
    pub open spec fn byte_at(&self, pos: int) -> u8 {
        self.text()[pos - self.beg()]
    }

    /// Where stepping back from `pos` to the previous character boundary
    /// lands: the nearest position below `pos` whose byte starts a character,
    /// and `beg` where no such position lies above it.
    pub open spec fn prev_boundary(&self, pos: int) -> int
        decreases pos - self.beg(),
    {
        if pos - 1 <= self.beg() || is_char_start(self.byte_at(pos - 1)) {
            pos - 1
        } else {
            self.prev_boundary(pos - 1)
        }
    }

    /// Builds a buffer that holds `text` from byte position `beg_byte` on,
    /// with a gap of `gap_size` zero bytes at position `gpt_byte`. Refused
    /// where the gap would lie outside the text, or the positions or the
    /// storage would not fit a `usize`.
    pub fn new(beg_byte: usize, text: &Vec<u8>, gpt_byte: usize, gap_size: usize) -> (r: Result<
        GapBuffer,
        CharError,
    >)
        ensures
            r is Ok <==> (beg_byte <= gpt_byte <= beg_byte + text@.len() && beg_byte
                + text@.len() + gap_size <= usize::MAX),
            r is Err ==> r == Err::<GapBuffer, CharError>(CharError::OutOfRange(gpt_byte)),
            r matches Ok(b) ==> {
                &&& b.wf()
                &&& b.beg() == beg_byte
                &&& b.end() == beg_byte + text@.len()
                &&& b.gpt() == gpt_byte
                &&& b.gap() == gap_size
                &&& b.text() == text@
            },
    {
        let len = text.len();
        if beg_byte > usize::MAX - len || gap_size > usize::MAX - (beg_byte + len) || gpt_byte
            < beg_byte || gpt_byte > beg_byte + len {
            return Err(CharError::OutOfRange(gpt_byte));
        }
        let split = gpt_byte - beg_byte;
        let mut storage: Vec<u8> = Vec::new();
        let mut i: usize = 0;
        while i < split
            invariant
                split <= len == text@.len(),
                i <= split,
                storage@ == text@.subrange(0, i as int),
            decreases split - i,
        {
            storage.push(text[i]);
            i += 1;
        }
        let mut g: usize = 0;
        while g < gap_size
            invariant
                storage@.len() == split + g,
                storage@.subrange(0, split as int) == text@.subrange(0, split as int),
                g <= gap_size,
            decreases gap_size - g,
        {
            storage.push(0);
            g += 1;
            assert(storage@.subrange(0, split as int) =~= text@.subrange(0, split as int));
        }
        let mut j: usize = split;
        while j < len
            invariant
                split <= j <= len == text@.len(),
                storage@.len() == gap_size + j,
                storage@.subrange(0, split as int) == text@.subrange(0, split as int),
                storage@.subrange(split + gap_size, gap_size + j) == text@.subrange(
                    split as int,
                    j as int,
                ),
            decreases len - j,
        {
            storage.push(text[j]);
            j += 1;
            assert(storage@.subrange(0, split as int) =~= text@.subrange(0, split as int));
            assert(storage@.subrange(split + gap_size, gap_size + j) =~= text@.subrange(
                split as int,
                j as int,
            ));
        }
        let b = GapBuffer { storage, beg_byte, gpt_byte, gap_size, end_byte: beg_byte + len };
        assert(b.text() =~= text@);
        Ok(b)
    }

    /// First byte position of the text.
    pub fn beg_byte(&self) -> (r: usize)
        ensures
            r == self.beg(),
    {
        self.beg_byte
    }

    /// One past the last byte position of the text.
    pub fn end_byte(&self) -> (r: usize)
        ensures
            r == self.end(),
    {
        self.end_byte
    }

    /// Byte position at which the gap sits.
    pub fn gpt_byte(&self) -> (r: usize)
        ensures
            r == self.gpt(),
    {
        self.gpt_byte
    }

    /// Number of unused bytes in the gap.
    pub fn gap_size(&self) -> (r: usize)
        ensures
            r == self.gap(),
    {
        self.gap_size
    }

    /// The storage index that holds the byte at logical position `pos`.
    pub fn physical_address_of(&self, pos: usize) -> (r: usize)
        requires
            self.wf(),
            self.beg() <= pos < self.end(),
        ensures
            r == self.index_of(pos as int),
            r < self.storage().len(),
            self.storage()[r as int] == self.byte_at(pos as int),
    {
        if pos < self.gpt_byte {
            pos - self.beg_byte
        } else {
            pos - self.beg_byte + self.gap_size
        }
    }

    /// The byte of the text at logical position `pos`.
    pub fn fetch_byte(&self, pos: usize) -> (r: u8)
        requires
            self.wf(),
            self.beg() <= pos < self.end(),
        ensures
            r == self.byte_at(pos as int),
    {
        let i = self.physical_address_of(pos);
        self.storage[i]
    }
}

/// Steps the byte position `pos_byte` back to the previous character
/// boundary: the nearest position below it whose byte starts a character, or
/// the start of the text where none does.
pub fn dec_pos(buffer: &GapBuffer, pos_byte: usize) -> (r: usize)
    requires
        buffer.wf(),
        buffer.beg() < pos_byte <= buffer.end(),
    ensures
        r == buffer.prev_boundary(pos_byte as int),
        buffer.beg() <= r < pos_byte,
        r == buffer.beg() || is_char_start(buffer.byte_at(r as int)),
        forall|q: int| r < q < pos_byte ==> !is_char_start(#[trigger] buffer.byte_at(q)),
{
    let beg = buffer.beg_byte();
    let mut new_pos = pos_byte - 1;
    while new_pos > beg && !char_read_p(buffer.fetch_byte(new_pos))
        invariant
            buffer.wf(),
            beg == buffer.beg(),
            beg <= new_pos < pos_byte <= buffer.end(),
            buffer.prev_boundary(pos_byte as int) == buffer.prev_boundary(new_pos + 1),
        decreases new_pos,
    {
        new_pos -= 1;
    }
    proof {
        lemma_prev_boundary_nearest(buffer, pos_byte as int);
    }
    new_pos
}

/// `dec_pos` for any position: refuses one that lies outside
/// `beg_byte + 1 ..= end_byte` instead of demanding that it does not.
pub fn dec_pos_checked(buffer: &GapBuffer, pos_byte: usize) -> (r: Result<usize, CharError>)
    requires
        buffer.wf(),
    ensures
        r is Ok <==> buffer.beg() < pos_byte <= buffer.end(),
        r matches Ok(p) ==> p == buffer.prev_boundary(pos_byte as int),
        r is Err ==> r == Err::<usize, CharError>(CharError::OutOfRange(pos_byte)),
{
    if pos_byte <= buffer.beg_byte() || pos_byte > buffer.end_byte() {
        Err(CharError::OutOfRange(pos_byte))
    } else {
        Ok(dec_pos(buffer, pos_byte))
    }
}

/// Stepping back from `pos` lands on the nearest character start below it,
/// or on `beg` where there is none; it never goes below `beg`.
pub proof fn lemma_prev_boundary_nearest(buffer: &GapBuffer, pos: int)
    requires
        buffer.beg() < pos,
    ensures
        buffer.beg() <= buffer.prev_boundary(pos) < pos,
        buffer.prev_boundary(pos) == buffer.beg() || is_char_start(
            buffer.byte_at(buffer.prev_boundary(pos)),
        ),
        forall|q: int|
            buffer.prev_boundary(pos) < q < pos ==> !is_char_start(#[trigger] buffer.byte_at(q)),
    decreases pos - buffer.beg(),
{
    if pos - 1 <= buffer.beg() || is_char_start(buffer.byte_at(pos - 1)) {
    } else {
        lemma_prev_boundary_nearest(buffer, pos - 1);
    }
}

/// Where `n` successive steps back from `pos` land; stepping stops at `beg`.
pub open spec fn steps_back(buffer: &GapBuffer, pos: int, n: nat) -> int
    decreases n,
{
    if n == 0 || pos <= buffer.beg() {
        pos
    } else {
        steps_back(buffer, buffer.prev_boundary(pos), (n - 1) as nat)
    }
}

/// Stepping back repeatedly from any position of the text reaches the start
/// of the text, and stays there, after at most as many steps as there are
/// bytes before the position; from `beg_byte + 1` a single step lands on
/// `beg_byte`.
pub proof fn lemma_dec_pos_reaches_beg(buffer: &GapBuffer, pos: int, n: nat)
    requires
        buffer.beg() <= pos,
        n >= pos - buffer.beg(),
    ensures
        steps_back(buffer, pos, n) == buffer.beg(),
        buffer.prev_boundary(buffer.beg() + 1) == buffer.beg(),
    decreases n,
{
    if n == 0 || pos <= buffer.beg() {
    } else {
        lemma_prev_boundary_nearest(buffer, pos);
        lemma_dec_pos_reaches_beg(buffer, buffer.prev_boundary(pos), (n - 1) as nat);
    }
}

} // verus!
