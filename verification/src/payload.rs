//! Byte payloads: what a USB reporter sends, seen as a sequence of bytes.
use vstd::prelude::*;

verus! {

/// A value that a reporter can put on the wire as a run of bytes.
pub trait Payload {
    /// The bytes that stand for this value on the wire.
    spec fn bytes(&self) -> Seq<u8>;

    /// How many bytes the value takes on the wire.
    fn byte_len(&self) -> (n: usize)
        ensures
            n == self.bytes().len(),
    ;

    /// The bytes from `start` (inclusive) to `end` (exclusive).
    fn byte_range(&self, start: usize, end: usize) -> (out: Vec<u8>)
        requires
            start <= end <= self.bytes().len(),
        ensures
            out@ == self.bytes().subrange(start as int, end as int),
    ;
}

/// Low (`half == 0`) or high (`half == 1`) byte of a 16-bit word.
pub open spec fn word_byte(w: u16, half: int) -> u8 {
    if half == 0 {
        (w % 256) as u8
    } else {
        (w / 256) as u8
    }
}

/// Little-endian bytes of a sequence of 16-bit words: each word gives its low byte, then its high byte.
pub open spec fn le_bytes(words: Seq<u16>) -> Seq<u8> {
    Seq::new(2 * words.len(), |j: int| word_byte(words[j / 2], j % 2))
}

/// Little-endian bytes `start..end` of `words`.
pub fn le_byte_range(words: &[u16], start: usize, end: usize) -> (out: Vec<u8>)
    requires
        start <= end <= 2 * words@.len(),
    ensures
        out@ == le_bytes(words@).subrange(start as int, end as int),
{
    let mut out: Vec<u8> = Vec::new();
    let mut j: usize = start;
    while j < end
        invariant
            start <= j <= end,
            end <= 2 * words@.len(),
            out@ == le_bytes(words@).subrange(start as int, j as int),
        decreases end - j,
    {
        let w: u16 = words[j / 2];
        let b: u8 = if j % 2 == 0 {
            (w % 256) as u8
        } else {
            (w / 256) as u8
        };
        out.push(b);
        proof {
            assert(le_bytes(words@).subrange(start as int, j + 1) =~= le_bytes(words@).subrange(
                start as int,
                j as int,
            ).push(b));
        }
        j = j + 1;
    }
    out
}

/// Reading a word back from its two bytes gives the word.
pub proof fn lemma_le_bytes_decode(words: Seq<u16>, i: int)
    requires
        0 <= i < words.len(),
    ensures
        le_bytes(words).len() == 2 * words.len(),
        le_bytes(words)[2 * i] + 256 * le_bytes(words)[2 * i + 1] == words[i],
{
    let w = words[i];
    assert((2 * i) / 2 == i && (2 * i) % 2 == 0);
    assert((2 * i + 1) / 2 == i && (2 * i + 1) % 2 == 1);
    assert(w % 256 + 256 * (w / 256) == w);
}

} // verus!
