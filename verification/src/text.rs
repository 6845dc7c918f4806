//! Decimal numbers as ASCII text, and small helpers on byte strings.

use vstd::prelude::*;
use vstd::string::StringSliceAdditionalSpecFns;
use vstd::utf8::{
    decode_utf8, encode_utf8, encode_utf8_decode_utf8, encode_utf8_valid_utf8, is_ascii_chars,
    is_ascii_chars_encode_utf8, valid_utf8,
};

verus! {

/// The UTF-8 bytes of a text.
pub open spec fn utf8(s: Seq<char>) -> Seq<u8> {
    encode_utf8(s)
}

/// Texts with the same bytes are the same text.
pub proof fn lemma_utf8_injective(a: Seq<char>, b: Seq<char>)
    requires
        utf8(a) == utf8(b),
    ensures
        a == b,
{
    encode_utf8_decode_utf8(a);
    encode_utf8_decode_utf8(b);
    assert(decode_utf8(encode_utf8(a)) == a);
    assert(decode_utf8(encode_utf8(b)) == b);
}

/// Whether two byte strings are equal.
pub fn bytes_equal(a: &[u8], b: &[u8]) -> (r: bool)
    ensures
        r == (a@ == b@),
{
    let n: usize = a.len();
    if n != b.len() {
        return false;
    }
    let mut i: usize = 0;
    while i < n
        invariant
            n == a@.len(),
            n == b@.len(),
            i <= n,
            forall|j: int| 0 <= j < i ==> a@[j] == b@[j],
        decreases n - i,
    {
        if a[i] != b[i] {
            return false;
        }
        i = i + 1;
    }
    proof {
        assert(a@ =~= b@);
    }
    true
}

/// Whether two texts are equal.
pub fn same_text(a: &str, b: &str) -> (r: bool)
    ensures
        r == (a@ == b@),
{
    let r = bytes_equal(a.as_bytes(), b.as_bytes());
    proof {
        if r {
            lemma_utf8_injective(a@, b@);
        }
    }
    r
}

/// The byte `'0'`.
pub const ZERO: u8 = 48u8;

/// The byte `'+'`.
pub const PLUS: u8 = 43u8;

/// Whether `b` is an ASCII decimal digit.
pub open spec fn is_digit(b: u8) -> bool {
    48 <= b <= 57
}

/// Whether every byte of `s` is an ASCII decimal digit.
pub open spec fn all_digits(s: Seq<u8>) -> bool {
    forall|i: int| 0 <= i < s.len() ==> is_digit(#[trigger] s[i])
}

/// The decimal digits of `n`, most significant first, with no leading zero
/// (`"0"` for zero).
pub open spec fn decimal(n: nat) -> Seq<u8>
    decreases n,
{
    if n < 10 {
        seq![(48 + n) as u8]
    } else {
        decimal(n / 10).push((48 + n % 10) as u8)
    }
}

/// The number that a string of decimal digits denotes.
pub open spec fn decimal_value(s: Seq<u8>) -> nat
    decreases s.len(),
{
    if s.len() == 0 {
        0
    } else {
        decimal_value(s.drop_last()) * 10 + (s.last() - 48) as nat
    }
}

/// The digits of a number text once an optional leading `'+'` is taken off.
pub open spec fn unsigned_part(s: Seq<u8>) -> Seq<u8> {
    if s.len() > 0 && s[0] == 43 {
        s.skip(1)
    } else {
        s
    }
}

/// What a number text means: an optional `'+'`, then at least one digit and
/// nothing else, with a value that fits in 64 bits. Anything else is no number.
pub open spec fn parsed_u64(s: Seq<u8>) -> Option<u64> {
    let digits = unsigned_part(s);
    if digits.len() > 0 && all_digits(digits) && decimal_value(digits) <= u64::MAX {
        Some(decimal_value(digits) as u64)
    } else {
        None
    }
}

/// Every byte of `decimal(n)` is a digit, and there is at least one.
pub proof fn lemma_decimal_digits(n: nat)
    ensures
        decimal(n).len() >= 1,
        all_digits(decimal(n)),
        decimal(n)[0] != 43,
    decreases n,
{
    if n >= 10 {
        lemma_decimal_digits(n / 10);
        assert forall|i: int| 0 <= i < decimal(n).len() implies is_digit(
            #[trigger] decimal(n)[i],
        ) by {
            if i < decimal(n / 10).len() {
                assert(decimal(n)[i] == decimal(n / 10)[i]);
            }
        }
    }
}

/// Reading back the digits of `n` gives `n`.
pub proof fn lemma_decimal_value(n: nat)
    ensures
        decimal_value(decimal(n)) == n,
    decreases n,
{
    if n < 10 {
        let s = decimal(n);
        assert(s.drop_last().len() == 0);
        assert(decimal_value(s.drop_last()) == 0);
    } else {
        lemma_decimal_value(n / 10);
        let s = decimal(n);
        assert(s.drop_last() =~= decimal(n / 10));
    }
}

/// A number written in decimal has at most twenty digits when it fits in 64 bits.
pub proof fn lemma_decimal_len(n: nat, k: nat)
    requires
        n < pow10(k),
        k >= 1,
    ensures
        decimal(n).len() <= k,
    decreases k,
{
    if n >= 10 {
        assert(k >= 2) by {
            reveal_with_fuel(pow10, 2);
        }
        assert(pow10(k) == 10 * pow10((k - 1) as nat));
        lemma_decimal_len(n / 10, (k - 1) as nat);
    }
}

/// Ten to the power `k`.
pub open spec fn pow10(k: nat) -> nat
    decreases k,
{
    if k == 0 {
        1
    } else {
        10 * pow10((k - 1) as nat)
    }
}

/// Parsing the decimal text of a 64-bit number gives the number back.
pub proof fn lemma_parse_decimal(n: u64)
    ensures
        parsed_u64(decimal(n as nat)) == Some(n),
{
    lemma_decimal_digits(n as nat);
    lemma_decimal_value(n as nat);
}

/// Longer digit strings do not denote smaller numbers.
proof fn lemma_value_prefix(s: Seq<u8>, k: int)
    requires
        0 <= k <= s.len(),
        all_digits(s),
    ensures
        decimal_value(s.take(k)) <= decimal_value(s),
    decreases s.len() - k,
{
    if k == s.len() {
        assert(s.take(k) =~= s);
    } else {
        lemma_value_prefix(s, k + 1);
        let t = s.take(k + 1);
        assert(t.drop_last() =~= s.take(k));
        assert(is_digit(s[k]));
        assert(t.last() == s[k]);
    }
}

/// Writes `n` in decimal.
pub fn format_u64(n: u64) -> (r: Vec<u8>)
    ensures
        r@ == decimal(n as nat),
        1 <= r@.len() <= 20,
{
    let mut rev: Vec<u8> = Vec::new();
    let mut m: u64 = n;
    // Least significant digit first.
    while m >= 10
        invariant
            rev@.len() + decimal(m as nat).len() == decimal(n as nat).len(),
            forall|i: int|
                0 <= i < rev@.len() ==> #[trigger] rev@[i] == decimal(n as nat)[decimal(
                    n as nat,
                ).len() - 1 - i],
            decimal(n as nat).take(decimal(m as nat).len() as int) == decimal(m as nat),
        decreases m,
    {
        let d: u8 = (m % 10) as u8;
        let ghost before = decimal(m as nat);
        proof {
            assert(before == decimal((m / 10) as nat).push((48 + m % 10) as u8));
            assert(before.take(before.len() - 1) =~= decimal((m / 10) as nat));
            assert(decimal(n as nat).take(before.len() as int).take(before.len() - 1)
                =~= decimal(n as nat).take(before.len() - 1));
            assert(decimal(n as nat)[before.len() - 1] == decimal(n as nat).take(
                before.len() as int,
            )[before.len() - 1]);
        }
        rev.push(ZERO + d);
        m = m / 10;
    }
    proof {
        assert(decimal(m as nat) =~= seq![(48 + m) as u8]);
        assert(decimal(n as nat)[0] == decimal(n as nat).take(1)[0]);
    }
    rev.push(ZERO + (m as u8));
    let len: usize = rev.len();
    let mut out: Vec<u8> = Vec::new();
    let mut i: usize = 0;
    while i < len
        invariant
            len == rev@.len(),
            len == decimal(n as nat).len(),
            i <= len,
            out@.len() == i,
            forall|j: int|
                0 <= j < len ==> #[trigger] rev@[j] == decimal(n as nat)[len - 1 - j],
            forall|j: int| 0 <= j < i ==> #[trigger] out@[j] == decimal(n as nat)[j],
        decreases len - i,
    {
        out.push(rev[len - 1 - i]);
        i = i + 1;
    }
    proof {
        assert(out@ =~= decimal(n as nat));
        assert(n < pow10(20)) by {
            reveal_with_fuel(pow10, 21);
        }
        lemma_decimal_len(n as nat, 20);
    }
    out
}

/// Reads a number text: an optional `'+'` followed by decimal digits.
pub fn parse_u64(s: &[u8]) -> (r: Option<u64>)
    ensures
        r == parsed_u64(s@),
{
    let n: usize = s.len();
    let start: usize = if n > 0 && s[0] == PLUS {
        1
    } else {
        0
    };
    let ghost digits = unsigned_part(s@);
    proof {
        assert(digits =~= s@.skip(start as int));
    }
    if start == n {
        return None;
    }
    let mut acc: u64 = 0;
    let mut i: usize = start;
    while i < n
        invariant
            start <= i <= n,
            n == s@.len(),
            digits == s@.skip(start as int),
            digits == unsigned_part(s@),
            all_digits(digits.take(i - start)),
            acc == decimal_value(digits.take(i - start)),
        decreases n - i,
    {
        let b: u8 = s[i];
        let ghost next = digits.take(i - start + 1);
        proof {
            assert(next.drop_last() =~= digits.take(i - start));
            assert(next.last() == b);
        }
        if b < 48 || b > 57 {
            proof {
                assert(digits[i - start] == b);
                assert(!is_digit(digits[i - start]));
            }
            return None;
        }
        let d: u64 = (b - ZERO) as u64;
        proof {
            assert(all_digits(next)) by {
                assert forall|j: int| 0 <= j < next.len() implies is_digit(#[trigger] next[j]) by {
                    if j < next.len() - 1 {
                        assert(next[j] == digits.take(i - start)[j]);
                    }
                }
            }
        }
        if acc > (u64::MAX - d) / 10 {
            proof {
                assert(decimal_value(next) > u64::MAX);
                if all_digits(digits) {
                    lemma_value_prefix(digits, i - start + 1);
                }
            }
            return None;
        }
        acc = acc * 10 + d;
        i = i + 1;
    }
    proof {
        assert(digits.take(n - start) =~= digits);
    }
    Some(acc)
}

/// `String::from_utf8` of the standard library.
///
/// Trusted: the bytes are accepted exactly when they are valid UTF-8, and the
/// string then holds the characters that they encode.
#[verifier::external_body]
pub(crate) fn string_from_utf8(bytes: Vec<u8>) -> (r: Option<String>)
    ensures
        r is Some <==> valid_utf8(bytes@),
        r matches Some(s) ==> s@ == decode_utf8(bytes@),
{
    String::from_utf8(bytes).ok()
}

/// Whether every byte of `s` is ASCII.
pub open spec fn all_ascii(s: Seq<u8>) -> bool {
    forall|i: int| 0 <= i < s.len() ==> #[trigger] s[i] < 128
}

/// The characters that ASCII bytes stand for.
pub open spec fn ascii_text(s: Seq<u8>) -> Seq<char> {
    s.map_values(|b: u8| b as char)
}

/// ASCII bytes are the UTF-8 form of their own characters.
pub proof fn lemma_ascii_utf8(s: Seq<u8>)
    requires
        all_ascii(s),
    ensures
        utf8(ascii_text(s)) == s,
        valid_utf8(s),
        decode_utf8(s) == ascii_text(s),
{
    let chars = ascii_text(s);
    assert(is_ascii_chars(chars)) by {
        assert forall|i: int| 0 <= i < chars.len() implies '\0' <= #[trigger] chars[i]
            <= '\u{7f}' by {
            assert(s[i] < 128);
        }
    }
    is_ascii_chars_encode_utf8(chars);
    assert(encode_utf8(chars) =~= s) by {
        assert forall|i: int| 0 <= i < s.len() implies encode_utf8(chars)[i] == s[i] by {
            assert(chars[i] as u8 == encode_utf8(chars)[i]);
            assert(s[i] < 128);
            assert((s[i] as char) as u8 == s[i]);
        }
    }
    encode_utf8_valid_utf8(chars);
    encode_utf8_decode_utf8(chars);
}

/// The string of ASCII bytes.
pub fn ascii_string(bytes: Vec<u8>) -> (r: String)
    requires
        all_ascii(bytes@),
    ensures
        r@ == ascii_text(bytes@),
        utf8(r@) == bytes@,
{
    proof {
        lemma_ascii_utf8(bytes@);
    }
    match string_from_utf8(bytes) {
        Some(s) => s,
        None => String::new(),
    }
}

/// The decimal digits of `n` as characters.
pub open spec fn decimal_text(n: nat) -> Seq<char> {
    ascii_text(decimal(n))
}

/// Writes `n` in decimal as a string.
pub fn decimal_string(n: u64) -> (r: String)
    ensures
        r@ == decimal_text(n as nat),
        utf8(r@) == decimal(n as nat),
{
    let digits = format_u64(n);
    proof {
        lemma_decimal_digits(n as nat);
        assert(all_ascii(digits@)) by {
            assert forall|i: int| 0 <= i < digits@.len() implies #[trigger] digits@[i] < 128 by {
                assert(is_digit(digits@[i]));
            }
        }
    }
    ascii_string(digits)
}

/// The place of the first byte `b` in `s`, or the length of `s` where it
/// holds none.
pub open spec fn index_of(s: Seq<u8>, b: u8) -> int
    decreases s.len(),
{
    if s.len() == 0 {
        0
    } else if s[0] == b {
        0
    } else {
        1 + index_of(s.skip(1), b)
    }
}

/// A place that holds `b`, with none before it that does, is the first.
pub proof fn lemma_index_of(s: Seq<u8>, b: u8, k: int)
    requires
        0 <= k <= s.len(),
        forall|i: int| 0 <= i < k ==> s[i] != b,
        k < s.len() ==> s[k] == b,
    ensures
        index_of(s, b) == k,
    decreases s.len(),
{
    if s.len() > 0 && k > 0 {
        let t = s.skip(1);
        assert(s[0] != b);
        assert forall|i: int| 0 <= i < k - 1 implies t[i] != b by {
            assert(t[i] == s[i + 1]);
        }
        if k < s.len() {
            assert(t[k - 1] == s[k]);
        }
        lemma_index_of(t, b, k - 1);
    }
}

/// The part of a text before its first ASCII character `b`, or all of it
/// where it holds none.
pub fn before_first(text: &str, b: u8) -> (r: &str)
    requires
        b < 128,
    ensures
        utf8(r@) == utf8(text@).take(index_of(utf8(text@), b)),
{
    let bytes = text.as_bytes();
    let n: usize = bytes.len();
    let mut k: usize = 0;
    while k < n && bytes[k] != b
        invariant
            n == bytes@.len(),
            k <= n,
            forall|i: int| 0 <= i < k ==> bytes@[i] != b,
        decreases n - k,
    {
        k = k + 1;
    }
    proof {
        lemma_index_of(bytes@, b, k as int);
        encode_utf8_valid_utf8(text@);
        if k < n {
            assert(!vstd::utf8::is_continuation_byte(b));
            vstd::utf8::is_char_boundary_iff_not_is_continuation_byte(bytes@, k as int);
        } else {
            vstd::utf8::is_char_boundary_start_end_of_seq(bytes@);
        }
    }
    let (head, _) = text.split_at(k);
    proof {
        assert(bytes@.subrange(0, k as int) =~= bytes@.take(k as int));
    }
    head
}

} // verus!
