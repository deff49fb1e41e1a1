//! The serial-port echo of the first board bring-up: bytes read from the port go
//! back with ASCII lower-case letters made upper-case.
use vstd::prelude::*;

verus! {

/// Size of the echo buffer: one full-speed packet.
pub const ECHO_BUFFER_SIZE: usize = 64;

/// `b` with an ASCII lower-case letter made upper-case; any other byte as it is.
pub open spec fn ascii_upper(b: u8) -> u8 {
    if 0x61 <= b <= 0x7a {
        (b - 0x20) as u8
    } else {
        b
    }
}

/// Makes the ASCII lower-case letters among the first `count` bytes upper-case;
/// leaves the other bytes as they are.
pub fn uppercase(buf: &mut Vec<u8>, count: usize)
    requires
        count <= old(buf)@.len(),
    ensures
        final(buf)@.len() == old(buf)@.len(),
        forall|i: int| 0 <= i < count ==> final(buf)@[i] == ascii_upper(#[trigger] old(buf)@[i]),
        forall|i: int|
            0 <= i < count ==> if 0x61 <= #[trigger] old(buf)@[i] <= 0x7a {
                final(buf)@[i] == old(buf)@[i] - 0x20
            } else {
                final(buf)@[i] == old(buf)@[i]
            },
        forall|i: int| count <= i < old(buf)@.len() ==> final(buf)@[i] == old(buf)@[i],
{
    let mut i: usize = 0;
    while i < count
        invariant
            i <= count <= old(buf)@.len(),
            buf@.len() == old(buf)@.len(),
            forall|j: int| 0 <= j < i ==> buf@[j] == ascii_upper(#[trigger] old(buf)@[j]),
            forall|j: int| i <= j < old(buf)@.len() ==> buf@[j] == old(buf)@[j],
        decreases count - i,
    {
        let c = buf[i];
        if 0x61 <= c && c <= 0x7a {
            let up = c & !0x20u8;
            assert(0x61 <= c <= 0x7a ==> c & !0x20u8 == c - 0x20) by (bit_vector);
            buf.set(i, up);
        }
        i = i + 1;
    }
}

/// Only the 26 ASCII lower-case letters change, each into its upper-case letter;
/// every other byte, ASCII or not, stays as it is.
pub proof fn lemma_only_letters_change(b: u8)
    ensures
        ascii_upper(b) != b <==> (0x61 <= b && b <= 0x7a),
        ascii_upper(b) != b ==> 0x41 <= ascii_upper(b) <= 0x5a && ascii_upper(b) + 0x20 == b,
        b >= 0x80 ==> ascii_upper(b) == b,
{
}

/// Making upper-case twice is making upper-case once, and no lower-case letter is left.
pub proof fn lemma_upper_idempotent(b: u8)
    ensures
        ascii_upper(ascii_upper(b)) == ascii_upper(b),
        !(0x61 <= ascii_upper(b) <= 0x7a),
{
}

/// Where the echo goes on after a write of the bytes from `offset` on: past the
/// bytes written when the write took some (`Some(n)`, `n > 0`), else at the same place.
pub fn advance_write_offset(offset: usize, written: Option<usize>) -> (next: usize)
    requires
        written matches Some(n) ==> offset + n <= usize::MAX,
    ensures
        next == match written {
            Some(n) => if n > 0 { offset + n } else { offset as int },
            None => offset as int,
        },
{
    match written {
        Some(n) => if n > 0 {
            offset + n
        } else {
            offset
        },
        None => offset,
    }
}

} // verus!
