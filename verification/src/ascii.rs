//! ASCII classification of bytes, and byte-string comparison.

use vstd::prelude::*;

verus! {

/// `\n`
pub const NEWLINE: u8 = 0x0a;

/// `\t`
pub const TAB: u8 = 0x09;

/// A space.
pub const SPACE: u8 = 0x20;

/// `$`
pub const DOLLAR: u8 = 0x24;

/// `-`
pub const HYPHEN: u8 = 0x2d;

/// `\`
pub const BACKSLASH: u8 = 0x5c;

/// `_`
pub const UNDERSCORE: u8 = 0x5f;

/// The ASCII letters, `A` to `Z` and `a` to `z`.
pub open spec fn alphabetic(byte: u8) -> bool {
    0x41 <= byte <= 0x5a || 0x61 <= byte <= 0x7a
}

/// The ASCII digits, `0` to `9`.
pub open spec fn digit(byte: u8) -> bool {
    0x30 <= byte <= 0x39
}

pub open spec fn alphanumeric(byte: u8) -> bool {
    alphabetic(byte) || digit(byte)
}

/// `byte` with an ASCII capital turned into its small letter.
pub open spec fn lower(byte: u8) -> u8 {
    if 0x41 <= byte <= 0x5a {
        (byte + 32) as u8
    } else {
        byte
    }
}

/// `bytes` with every ASCII capital turned into its small letter.
pub open spec fn lowered(bytes: Seq<u8>) -> Seq<u8> {
    Seq::new(bytes.len(), |i: int| lower(bytes[i]))
}

/// Byte strings that differ at most in the case of ASCII letters.
pub open spec fn equal_ignoring_case(left: Seq<u8>, right: Seq<u8>) -> bool {
    lowered(left) == lowered(right)
}

pub fn is_ascii_alphabetic(byte: u8) -> (yes: bool)
    ensures
        yes == alphabetic(byte),
{
    (0x41 <= byte && byte <= 0x5a) || (0x61 <= byte && byte <= 0x7a)
}

pub fn is_ascii_alphanumeric(byte: u8) -> (yes: bool)
    ensures
        yes == alphanumeric(byte),
{
    is_ascii_alphabetic(byte) || (0x30 <= byte && byte <= 0x39)
}

fn to_lower(byte: u8) -> (small: u8)
    ensures
        small == lower(byte),
{
    if 0x41 <= byte && byte <= 0x5a {
        byte + 32
    } else {
        byte
    }
}

/// Do the two byte strings hold the same bytes?
pub fn same_bytes(left: &[u8], right: &[u8]) -> (yes: bool)
    ensures
        yes == (left@ == right@),
{
    if left.len() != right.len() {
        return false;
    }
    let mut i: usize = 0;
    while i < left.len()
        invariant
            i <= left@.len(),
            left@.len() == right@.len(),
            forall|k: int| 0 <= k < i ==> left@[k] == right@[k],
        decreases left.len() - i,
    {
        if left[i] != right[i] {
            return false;
        }
        i += 1;
    }
    assert(left@ =~= right@);
    true
}

/// Do the two byte strings agree up to the case of ASCII letters?
pub fn same_ignoring_case(left: &[u8], right: &[u8]) -> (yes: bool)
    ensures
        yes == equal_ignoring_case(left@, right@),
{
    if left.len() != right.len() {
        assert(lowered(left@).len() != lowered(right@).len());
        return false;
    }
    let mut i: usize = 0;
    while i < left.len()
        invariant
            i <= left@.len(),
            left@.len() == right@.len(),
            forall|k: int| 0 <= k < i ==> lower(left@[k]) == lower(right@[k]),
        decreases left.len() - i,
    {
        if to_lower(left[i]) != to_lower(right[i]) {
            assert(lowered(left@)[i as int] != lowered(right@)[i as int]);
            return false;
        }
        i += 1;
    }
    assert(lowered(left@) =~= lowered(right@));
    true
}

} // verus!
