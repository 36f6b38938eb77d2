//! Address-format validation.
//!
//! The custody rules only ever compare addresses for equality, so an
//! address is held as a plain `String`. Before one is recorded it must
//! pass the format check below: non-empty, at most 90 characters, all
//! of them lowercase ASCII letters or digits. This mirrors the shape of
//! a bech32 account identifier; a host may impose a stricter check at
//! its own boundary before handing an address in.

use vstd::prelude::*;

verus! {

/// Characters an address may contain: lowercase ASCII letters and digits.
pub open spec fn valid_addr_char(c: char) -> bool {
    ('a' <= c && c <= 'z') || ('0' <= c && c <= '9')
}

/// A well-formed address: non-empty, at most 90 characters, every
/// character a lowercase ASCII letter or digit.
pub open spec fn valid_addr(s: Seq<char>) -> bool {
    &&& 0 < s.len() <= 90
    &&& forall|i: int| 0 <= i < s.len() ==> valid_addr_char(#[trigger] s[i])
}

/// Checks the address format.
pub fn validate_address(s: &String) -> (r: bool)
    ensures
        r == valid_addr(s@),
{
    let len = s.as_str().unicode_len();
    if len == 0 || len > 90 {
        return false;
    }
    let mut i: usize = 0;
    while i < len
        invariant
            len == s@.len(),
            0 < len <= 90,
            0 <= i <= len,
            forall|j: int| 0 <= j < i ==> valid_addr_char(#[trigger] s@[j]),
        decreases len - i,
    {
        let c = s.as_str().get_char(i);
        if !(('a' <= c && c <= 'z') || ('0' <= c && c <= '9')) {
            return false;
        }
        i += 1;
    }
    true
}

} // verus!
