use vstd::prelude::*;
use vstd::string::*;

use crate::artifact::hash_prefix;

verus! {

/// The ten decimal digits in order.
pub open spec fn decimal_alphabet() -> Seq<char> {
    seq!['0', '1', '2', '3', '4', '5', '6', '7', '8', '9']
}

/// The sixteen lowercase hexadecimal digits in order.
pub open spec fn hex_alphabet() -> Seq<char> {
    seq!['0', '1', '2', '3', '4', '5', '6', '7', '8', '9', 'a', 'b', 'c', 'd', 'e', 'f']
}

/// Decimal digits of `n`, most significant first, with no leading zero.
pub open spec fn decimal_chars(n: nat) -> Seq<char>
    decreases n,
{
    if n < 10 {
        seq![decimal_alphabet()[n as int]]
    } else {
        decimal_chars(n / 10).push(decimal_alphabet()[(n % 10) as int])
    }
}

/// `n` in decimal, left-padded with `0` to at least `width` digits.
pub open spec fn zero_padded(n: nat, width: nat) -> Seq<char> {
    let digits = decimal_chars(n);
    if digits.len() < width {
        Seq::new((width - digits.len()) as nat, |i: int| '0') + digits
    } else {
        digits
    }
}

/// Lowercase hexadecimal text of a byte string, two digits per byte.
pub open spec fn hex_chars(bytes: Seq<u8>) -> Seq<char>
    decreases bytes.len(),
{
    if bytes.len() == 0 {
        Seq::empty()
    } else {
        let b = bytes.last();
        hex_chars(bytes.drop_last()) + seq![
            hex_alphabet()[(b / 16) as int],
            hex_alphabet()[(b % 16) as int],
        ]
    }
}

/// The canonical hash text of a digest: `sha256:` and its lowercase hex.
pub open spec fn digest_text(digest: Seq<u8>) -> Seq<char> {
    hash_prefix() + hex_chars(digest)
}

/// Appends the character at `index` of `alphabet`.
fn push_char_at(s: &mut String, alphabet: &str, index: usize)
    requires
        index < alphabet@.len() <= 16,
    ensures
        final(s)@ == old(s)@.push(alphabet@[index as int]),
{
    let piece = alphabet.substring_char(index, index + 1);
    assert(piece@ =~= seq![alphabet@[index as int]]);
    s.append(piece);
}

fn push_decimal_digit(s: &mut String, d: u64)
    requires
        d < 10,
    ensures
        final(s)@ == old(s)@.push(decimal_alphabet()[d as int]),
{
    let digits = "0123456789";
    proof {
        reveal_strlit("0123456789");
        assert(digits@ =~= decimal_alphabet());
    }
    push_char_at(s, digits, d as usize);
}

/// Appends the decimal digits of `n`.
pub fn push_decimal(s: &mut String, n: u64)
    ensures
        final(s)@ == old(s)@ + decimal_chars(n as nat),
    decreases n,
{
    if n < 10 {
        push_decimal_digit(s, n);
        assert(final(s)@ =~= old(s)@ + decimal_chars(n as nat));
    } else {
        let ghost before = s@;
        push_decimal(s, n / 10);
        push_decimal_digit(s, n % 10);
        assert(s@ =~= before + decimal_chars(n as nat));
    }
}

/// Number of decimal digits of `n`.
fn decimal_len(n: u32) -> (k: usize)
    ensures
        k == decimal_chars(n as nat).len(),
        1 <= k <= 10,
    decreases n,
{
    if n < 10 {
        1
    } else {
        let k = decimal_len(n / 10);
        assert(k < 10) by {
            assert(pow10(9) == 1_000_000_000) by {
                reveal_with_fuel(pow10, 10);
            }
            lemma_decimal_len_upto((n / 10) as nat, 9);
        }
        k + 1
    }
}

proof fn lemma_decimal_len_upto(n: nat, k: nat)
    requires
        1 <= k,
        n < pow10(k),
    ensures
        decimal_chars(n).len() <= k,
    decreases k,
{
    if n >= 10 {
        assert(k > 1) by {
            if k == 1 {
                assert(pow10(1) == 10);
            }
        }
        assert(n / 10 < pow10((k - 1) as nat)) by {
            assert(pow10(k) == 10 * pow10((k - 1) as nat));
        }
        lemma_decimal_len_upto(n / 10, (k - 1) as nat);
    }
}

/// Ten to the power `k`.
pub open spec fn pow10(k: nat) -> nat
    decreases k,
{
    if k == 0 {
        1
    } else {
        10 * pow10((k - 1) as nat)
    }
}

/// Appends `n` in decimal, zero-padded to at least `width` digits.
pub fn push_zero_padded(s: &mut String, n: u32, width: usize)
    requires
        width <= 10,
    ensures
        final(s)@ == old(s)@ + zero_padded(n as nat, width as nat),
{
    let k = decimal_len(n);
    let ghost start = s@;
    if k < width {
        let pad = width - k;
        let mut i: usize = 0;
        while i < pad
            invariant
                0 <= i <= pad,
                s@ == start + Seq::new(i as nat, |j: int| '0'),
            decreases pad - i,
        {
            push_decimal_digit(s, 0);
            assert(s@ =~= start + Seq::new((i + 1) as nat, |j: int| '0'));
            i = i + 1;
        }
        let ghost padded = s@;
        push_decimal(s, n as u64);
        assert(s@ =~= start + zero_padded(n as nat, width as nat));
    } else {
        push_decimal(s, n as u64);
    }
}

/// Appends the two lowercase hex digits of `b`.
fn push_hex_byte(s: &mut String, b: u8)
    ensures
        final(s)@ == old(s)@ + seq![
            hex_alphabet()[(b / 16) as int],
            hex_alphabet()[(b % 16) as int],
        ],
{
    let digits = "0123456789abcdef";
    proof {
        reveal_strlit("0123456789abcdef");
        assert(digits@ =~= hex_alphabet());
    }
    let ghost start = s@;
    push_char_at(s, digits, (b / 16) as usize);
    push_char_at(s, digits, (b % 16) as usize);
    assert(s@ =~= start + seq![hex_alphabet()[(b / 16) as int], hex_alphabet()[(b % 16) as int]]);
}

/// Appends the lowercase hexadecimal text of `bytes`.
pub fn push_hex(s: &mut String, bytes: &[u8])
    ensures
        final(s)@ == old(s)@ + hex_chars(bytes@),
{
    let ghost start = s@;
    let mut i: usize = 0;
    while i < bytes.len()
        invariant
            0 <= i <= bytes@.len(),
            s@ == start + hex_chars(bytes@.subrange(0, i as int)),
        decreases bytes.len() - i,
    {
        let ghost prefix = bytes@.subrange(0, (i + 1) as int);
        assert(prefix.drop_last() =~= bytes@.subrange(0, i as int));
        assert(prefix.last() == bytes@[i as int]);
        push_hex_byte(s, bytes[i]);
        assert(s@ =~= start + hex_chars(prefix));
        i = i + 1;
    }
    assert(bytes@.subrange(0, bytes@.len() as int) =~= bytes@);
}

/// The canonical hash text of a SHA-256 digest.
pub fn digest_hash_text(digest: &[u8]) -> (s: String)
    ensures
        s@ == digest_text(digest@),
{
    let prefix = "sha256:";
    proof {
        reveal_strlit("sha256:");
        assert(prefix@ =~= hash_prefix());
    }
    let mut s = String::from_str(prefix);
    push_hex(&mut s, digest);
    s
}

/// Appends a text.
pub fn push_str(s: &mut String, text: &str)
    ensures
        final(s)@ == old(s)@ + text@,
{
    s.append(text);
}

/// Whether `text` begins with `prefix`.
pub fn text_starts_with(text: &str, prefix: &str) -> (r: bool)
    ensures
        r == (prefix@.len() <= text@.len() && text@.subrange(0, prefix@.len() as int) == prefix@),
{
    let n = text.unicode_len();
    let m = prefix.unicode_len();
    if m > n {
        return false;
    }
    let mut i: usize = 0;
    while i < m
        invariant
            0 <= i <= m,
            m <= n,
            n == text@.len(),
            m == prefix@.len(),
            forall|j: int| 0 <= j < i ==> text@[j] == prefix@[j],
        decreases m - i,
    {
        if text.get_char(i) != prefix.get_char(i) {
            assert(text@.subrange(0, m as int)[i as int] != prefix@[i as int]);
            return false;
        }
        i = i + 1;
    }
    assert(text@.subrange(0, m as int) =~= prefix@);
    true
}

/// Whether `text` ends with `suffix`.
pub fn text_ends_with(text: &str, suffix: &str) -> (r: bool)
    ensures
        r == (suffix@.len() <= text@.len() && text@.subrange(
            text@.len() - suffix@.len(),
            text@.len() as int,
        ) == suffix@),
{
    let n = text.unicode_len();
    let m = suffix.unicode_len();
    if m > n {
        return false;
    }
    let start = n - m;
    let mut i: usize = 0;
    while i < m
        invariant
            0 <= i <= m,
            m <= n,
            start == n - m,
            n == text@.len(),
            m == suffix@.len(),
            forall|j: int| 0 <= j < i ==> text@[start + j] == suffix@[j],
        decreases m - i,
    {
        if text.get_char(start + i) != suffix.get_char(i) {
            assert(text@.subrange(start as int, n as int)[i as int] != suffix@[i as int]);
            return false;
        }
        i = i + 1;
    }
    assert(text@.subrange(start as int, n as int) =~= suffix@);
    true
}

/// Whether two texts are equal.
pub fn text_equals(a: &str, b: &str) -> (r: bool)
    ensures
        r == (a@ == b@),
{
    String::from_str(a) == String::from_str(b)
}

} // verus!
