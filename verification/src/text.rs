use vstd::prelude::*;

verus! {

pub const DIGIT_0: u8 = 48;
pub const DIGIT_9: u8 = 57;
pub const UPPER_A: u8 = 65;
pub const UPPER_Z: u8 = 90;
pub const LOWER_A: u8 = 97;
pub const LOWER_Z: u8 = 122;
pub const UNDERSCORE: u8 = 95;
pub const HYPHEN: u8 = 45;
pub const DOT: u8 = 46;
pub const COLON: u8 = 58;
pub const SLASH: u8 = 47;

/// ASCII letters and digits.
pub open spec fn is_ascii_alphanumeric(b: u8) -> bool {
    (DIGIT_0 <= b && b <= DIGIT_9) || (UPPER_A <= b && b <= UPPER_Z) || (LOWER_A <= b && b <= LOWER_Z)
}

/// The portable identifier alphabet: ASCII letters, digits, `_`, `-` and `.`.
pub open spec fn is_portable_byte(b: u8) -> bool {
    is_ascii_alphanumeric(b) || b == UNDERSCORE || b == HYPHEN || b == DOT
}

/// A byte of the portable alphabet or one of `extra`.
pub open spec fn is_allowed_byte(b: u8, extra: Seq<u8>) -> bool {
    is_portable_byte(b) || extra.contains(b)
}

/// Every byte of `bytes` is allowed.
pub open spec fn all_bytes_allowed(bytes: Seq<u8>, extra: Seq<u8>) -> bool {
    forall|i: int| 0 <= i < bytes.len() ==> is_allowed_byte(#[trigger] bytes[i], extra)
}

/// UTF-8 bytes of a string.
pub open spec fn utf8_of(s: Seq<char>) -> Seq<u8> {
    vstd::utf8::encode_utf8(s)
}

pub fn is_ascii_alphanumeric_byte(b: u8) -> (r: bool)
    ensures
        r == is_ascii_alphanumeric(b),
{
    (DIGIT_0 <= b && b <= DIGIT_9) || (UPPER_A <= b && b <= UPPER_Z) || (LOWER_A <= b && b <= LOWER_Z)
}

fn slice_contains(extra: &[u8], b: u8) -> (r: bool)
    ensures
        r == extra@.contains(b),
{
    let mut i: usize = 0;
    while i < extra.len()
        invariant
            0 <= i <= extra.len(),
            forall|j: int| 0 <= j < i ==> extra@[j] != b,
        decreases extra.len() - i,
    {
        if extra[i] == b {
            return true;
        }
        i = i + 1;
    }
    false
}

/// Checks that every byte is in the portable alphabet or in `extra`.
pub fn bytes_all_allowed(bytes: &[u8], extra: &[u8]) -> (r: bool)
    ensures
        r == all_bytes_allowed(bytes@, extra@),
{
    let mut i: usize = 0;
    while i < bytes.len()
        invariant
            0 <= i <= bytes.len(),
            forall|j: int| 0 <= j < i ==> is_allowed_byte(#[trigger] bytes@[j], extra@),
        decreases bytes.len() - i,
    {
        let b = bytes[i];
        let ok = is_ascii_alphanumeric_byte(b) || b == UNDERSCORE || b == HYPHEN || b == DOT
            || slice_contains(extra, b);
        if !ok {
            assert(!is_allowed_byte(bytes@[i as int], extra@));
            return false;
        }
        i = i + 1;
    }
    true
}

} // verus!
