//! Byte-level line framing for the serial link.
//!
//! Incoming raw bytes are reassembled into discrete text lines: the
//! terminator byte ends and emits the line accumulated so far, every other
//! byte is appended only if it is ASCII alphanumeric, ASCII punctuation or
//! ASCII whitespace, and all remaining bytes are silently dropped.

use vstd::prelude::*;

verus! {

use crate::LINE_TERMINATOR;

/// Whether an incoming byte survives the framing filter: ASCII alphanumeric,
/// ASCII punctuation, or ASCII whitespace. Every other byte is dropped.
pub open spec fn is_kept_byte(b: u8) -> bool {
    ||| 0x30 <= b <= 0x39  // '0'..='9'
    ||| 0x41 <= b <= 0x5a  // 'A'..='Z'
    ||| 0x61 <= b <= 0x7a  // 'a'..='z'
    ||| 0x21 <= b <= 0x2f  // '!'..='/'
    ||| 0x3a <= b <= 0x40  // ':'..='@'
    ||| 0x5b <= b <= 0x60  // '['..='`'
    ||| 0x7b <= b <= 0x7e  // '{'..='~'
    ||| b == 0x20  // space
    ||| b == 0x09  // tab
    ||| b == 0x0a  // line feed
    ||| b == 0x0c  // form feed
    ||| b == 0x0d  // carriage return
}

/// Runtime check matching [`is_kept_byte`].
pub fn keep_byte(b: u8) -> (r: bool)
    ensures
        r == is_kept_byte(b),
{
    // The printable ASCII range together with the five ASCII whitespace
    // bytes, exactly as is_kept_byte spells them out.
    (0x21 <= b && b <= 0x7e) || b == 0x20 || b == 0x09 || b == 0x0a || b == 0x0c || b == 0x0d
}

/// The accumulator contents left over after feeding `input` into a line
/// buffer that already held `buf`: the filtered bytes seen since the last
/// terminator.
pub open spec fn frame_rest(buf: Seq<u8>, input: Seq<u8>) -> Seq<u8>
    decreases input.len(),
{
    if input.len() == 0 {
        buf
    } else {
        let b = input.last();
        if b == LINE_TERMINATOR {
            Seq::empty()
        } else if is_kept_byte(b) {
            frame_rest(buf, input.drop_last()).push(b)
        } else {
            frame_rest(buf, input.drop_last())
        }
    }
}

/// The complete lines emitted while feeding `input` into a line buffer that
/// already held `buf`: each terminator byte emits the bytes accumulated so
/// far (without the terminator itself) and empties the accumulator.
pub open spec fn frame_lines(buf: Seq<u8>, input: Seq<u8>) -> Seq<Seq<u8>>
    decreases input.len(),
{
    if input.len() == 0 {
        Seq::empty()
    } else {
        let b = input.last();
        if b == LINE_TERMINATOR {
            frame_lines(buf, input.drop_last()).push(frame_rest(buf, input.drop_last()))
        } else {
            frame_lines(buf, input.drop_last())
        }
    }
}

/// The sequence-of-sequences abstraction of a vector of byte lines.
pub open spec fn abs_lines(lines: Seq<Vec<u8>>) -> Seq<Seq<u8>> {
    lines.map_values(|l: Vec<u8>| l@)
}

/// Mutable accumulator of filtered bytes until a terminator is seen; owned
/// exclusively by the serial worker and cleared after each emitted line.
pub struct LineBuffer {
    buf: Vec<u8>,
}

impl View for LineBuffer {
    type V = Seq<u8>;

    closed spec fn view(&self) -> Seq<u8> {
        self.buf@
    }
}

impl LineBuffer {
    /// An empty accumulator.
    pub fn new() -> (r: LineBuffer)
        ensures
            r@ == Seq::<u8>::empty(),
    {
        LineBuffer { buf: Vec::new() }
    }

    /// Feeds one chunk of raw bytes through the framing filter, returning
    /// every line completed by a terminator byte and keeping the unfinished
    /// tail in the accumulator.
    pub fn push_bytes(&mut self, input: &[u8]) -> (lines: Vec<Vec<u8>>)
        ensures
            abs_lines(lines@) == frame_lines(old(self)@, input@),
            final(self)@ == frame_rest(old(self)@, input@),
    {
        let mut lines: Vec<Vec<u8>> = Vec::new();
        let mut i: usize = 0;
        while i < input.len()
            invariant
                i <= input.len(),
                abs_lines(lines@) == frame_lines(old(self)@, input@.subrange(0, i as int)),
                self@ == frame_rest(old(self)@, input@.subrange(0, i as int)),
            decreases input.len() - i,
        {
            let ghost prefix = input@.subrange(0, i as int);
            let ghost extended = input@.subrange(0, i as int + 1);
            proof {
                assert(extended.drop_last() =~= prefix);
                assert(extended.last() == input@[i as int]);
            }
            let b = input[i];
            if b == LINE_TERMINATOR {
                let mut done: Vec<u8> = Vec::new();
                core::mem::swap(&mut self.buf, &mut done);
                proof {
                    assert(abs_lines(lines@.push(done)) =~= abs_lines(lines@).push(done@));
                }
                lines.push(done);
            } else if keep_byte(b) {
                self.buf.push(b);
            }
            i = i + 1;
        }
        proof {
            assert(input@.subrange(0, input@.len() as int) =~= input@);
        }
        lines
    }
}

} // verus!
