//! Decimal formatting of small unsigned integers, used when building the
//! proxy response envelope and the listener's status-error messages.

use vstd::prelude::*;

verus! {

/// The ASCII decimal digits of `n`, most significant first, no leading zeros
/// (except that 0 itself is rendered as "0").
pub open spec fn dec_digits(n: nat) -> Seq<u8>
    decreases n,
{
    if n < 10 {
        seq![(48 + n) as u8]
    } else {
        dec_digits(n / 10) + seq![(48 + n % 10) as u8]
    }
}

/// Renders `n` in decimal ASCII, exactly as `dec_digits` describes.
pub fn u16_to_decimal(n: u16) -> (r: Vec<u8>)
    ensures
        r@ == dec_digits(n as nat),
    decreases n,
{
    if n < 10 {
        let mut r: Vec<u8> = Vec::new();
        r.push(48 + (n as u8));
        assert(r@ =~= dec_digits(n as nat));
        r
    } else {
        let mut r = u16_to_decimal(n / 10);
        r.push(48 + ((n % 10) as u8));
        assert(r@ =~= dec_digits(n as nat));
        r
    }
}

} // verus!
