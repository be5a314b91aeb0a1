//! Strings: comparison by characters, and runs of digits.

use vstd::prelude::*;
use vstd::utf8::{encode_utf8, encode_utf8_decode_utf8};

verus! {

/// Whether `a` and `b` hold the same characters.
///
/// The comparison runs over the UTF-8 bytes; that equal bytes mean equal
/// characters follows from decoding being the inverse of encoding.
pub fn same_text(a: &str, b: &str) -> (same: bool)
    ensures
        same == (a@ == b@),
{
    let x = a.as_bytes();
    let y = b.as_bytes();
    proof {
        encode_utf8_decode_utf8(a@);
        encode_utf8_decode_utf8(b@);
    }
    if x.len() != y.len() {
        return false;
    }
    let mut i: usize = 0;
    while i < x.len()
        invariant
            x@ == encode_utf8(a@),
            y@ == encode_utf8(b@),
            x@.len() == y@.len(),
            i <= x@.len(),
            forall|j: int| 0 <= j < i ==> x@[j] == y@[j],
        decreases x@.len() - i,
    {
        if x[i] != y[i] {
            return false;
        }
        i += 1;
    }
    assert(x@ =~= y@);
    true
}

/// Whether the byte is an ASCII decimal digit.
pub open spec fn is_digit(byte: u8) -> bool {
    0x30 <= byte <= 0x39
}

/// Whether the `count` bytes before position `end` are all digits.
pub open spec fn digits_before(bytes: Seq<u8>, end: int, count: int) -> bool {
    &&& 0 <= count <= end <= bytes.len()
    &&& forall|j: int| end - count <= j < end ==> is_digit(#[trigger] bytes[j])
}

/// Whether `bytes` hold no more than `limit` digits in a row.
pub open spec fn digit_runs_within(bytes: Seq<u8>, limit: int) -> bool {
    forall|end: int| limit < end <= bytes.len() ==> !#[trigger] digits_before(bytes, end, limit + 1)
}

/// Whether the UTF-8 bytes of `text` hold no more than `limit` digits in a
/// row.
pub fn has_digit_runs_within(text: &str, limit: usize) -> (within: bool)
    ensures
        within == digit_runs_within(encode_utf8(text@), limit as int),
{
    let bytes = text.as_bytes();
    let mut run: usize = 0;
    let mut i: usize = 0;
    while i < bytes.len()
        invariant
            bytes@ == encode_utf8(text@),
            i <= bytes@.len(),
            run <= limit,
            run <= i,
            digits_before(bytes@, i as int, run as int),
            run < i ==> !is_digit(bytes@[i - run - 1]),
            forall|end: int|
                limit < end <= i ==> !#[trigger] digits_before(bytes@, end, limit + 1),
        decreases bytes@.len() - i,
    {
        if 0x30 <= bytes[i] && bytes[i] <= 0x39 {
            if run == limit {
                assert(digits_before(bytes@, i + 1, limit + 1));
                return false;
            }
            run += 1;
        } else {
            run = 0;
        }
        i += 1;
    }
    true
}

} // verus!
