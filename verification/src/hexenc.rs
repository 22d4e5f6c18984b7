//! Lower-case hexadecimal encoding of byte strings.
//!
//! SigV4 signatures and payload hashes are transmitted as lower-case
//! hex; percent-encoding in query strings uses the upper-case digits.

use vstd::prelude::*;

verus! {

/// The lower-case hex digit of a value below 16.
pub open spec fn hex_digit(n: u8) -> u8 {
    if n < 10 {
        (48 + n) as u8
    } else {
        (87 + n) as u8
    }
}

/// The upper-case hex digit of a value below 16.
pub open spec fn hex_digit_upper(n: u8) -> u8 {
    if n < 10 {
        (48 + n) as u8
    } else {
        (55 + n) as u8
    }
}

/// The lower-case hex encoding of a byte string: two digits per byte,
/// high nibble first.
pub open spec fn hex_of(data: Seq<u8>) -> Seq<u8>
    decreases data.len(),
{
    if data.len() == 0 {
        Seq::empty()
    } else {
        seq![hex_digit(data.first() / 16), hex_digit(data.first() % 16)] + hex_of(
            data.drop_first(),
        )
    }
}

/// Encodes `data` as lower-case hex.
pub fn hex_encode(data: &Vec<u8>) -> (r: Vec<u8>)
    ensures
        r@ == hex_of(data@),
        r@.len() == 2 * data@.len(),
{
    let mut r: Vec<u8> = Vec::new();
    let n = data.len();
    assert(data@.skip(0) == data@);
    for i in 0..n
        invariant
            n == data@.len(),
            r@.len() == 2 * i,
            hex_of(data@) =~= r@ + hex_of(data@.skip(i as int)),
    {
        let b = data[i];
        let hi = b / 16;
        let lo = b % 16;
        r.push(if hi < 10 { 48 + hi } else { 87 + hi });
        r.push(if lo < 10 { 48 + lo } else { 87 + lo });
        assert(data@.skip(i as int).drop_first() == data@.skip(i + 1));
    }
    assert(hex_of(data@.skip(n as int)) == Seq::<u8>::empty());
    assert(r@ =~= hex_of(data@));
    proof {
        lemma_hex_len(data@);
    }
    r
}

/// The hex encoding of a byte string is twice as long as the string.
pub proof fn lemma_hex_len(data: Seq<u8>)
    ensures
        hex_of(data).len() == 2 * data.len(),
    decreases data.len(),
{
    if data.len() > 0 {
        lemma_hex_len(data.drop_first());
    }
}

} // verus!
