//! Address standardization: every account address or object handle is
//! written as `0x` followed by at least 64 hex characters, left-padded with
//! zeros.
use crate::text::{push_char, str_to_string};
use vstd::prelude::*;

verus! {

/// `s` without a leading `0x`, if it has one.
pub open spec fn strip_hex_prefix(s: Seq<char>) -> Seq<char> {
    if s.len() >= 2 && s[0] == '0' && s[1] == 'x' {
        s.skip(2)
    } else {
        s
    }
}

/// `s` left-padded with `'0'` to `width` characters (unchanged if longer).
pub open spec fn left_pad_zeros(s: Seq<char>, width: nat) -> Seq<char> {
    if s.len() >= width {
        s
    } else {
        Seq::new((width - s.len()) as nat, |i: int| '0') + s
    }
}

/// The standard form of an address: `0x` and the hex part padded to 64
/// characters.
pub open spec fn standardized(s: Seq<char>) -> Seq<char> {
    seq!['0', 'x'] + left_pad_zeros(strip_hex_prefix(s), 64)
}

/// Standardizes an address or table handle to `0x` followed by at least 64
/// characters: the `0x` prefix, if present, is removed and the rest is
/// left-padded with zeros to 64 characters.
pub fn standardize_address(handle: &str) -> (r: String)
    ensures
        r@ == standardized(handle@),
{
    let n: usize = handle.unicode_len();
    let hex: &str = if n >= 2 && handle.get_char(0) == '0' && handle.get_char(1) == 'x' {
        handle.substring_char(2, n)
    } else {
        handle
    };
    assert(hex@ == strip_hex_prefix(handle@));
    let len: usize = hex.unicode_len();
    let mut r = str_to_string("0x");
    proof {
        reveal_strlit("0x");
    }
    let mut i: usize = len;
    while i < 64
        invariant
            len <= i <= 64 || (len > 64 && i == len),
            r@ =~= seq!['0', 'x'] + Seq::new((i - len) as nat, |j: int| '0'),
        decreases 64 - i,
    {
        push_char(&mut r, '0');
        i = i + 1;
    }
    r.append(hex);
    assert(r@ =~= standardized(handle@));
    r
}

/// Standardizing is idempotent: a standardized address is its own standard
/// form.
pub proof fn lemma_standardize_idempotent(s: Seq<char>)
    ensures
        standardized(standardized(s)) == standardized(s),
{
    let t = standardized(s);
    let h = left_pad_zeros(strip_hex_prefix(s), 64);
    assert(t.skip(2) =~= h);
    assert(strip_hex_prefix(t) == h);
    assert(h.len() >= 64);
    assert(left_pad_zeros(h, 64) == h);
}

} // verus!
