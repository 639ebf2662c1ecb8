//! Percent encoding into the provider's query-escaping variant.
//!
//! Every byte outside the provider's unreserved set (`A-Z a-z 0-9 - _ . ~`)
//! becomes `%XX` with uppercase hex digits.  The set deliberately differs
//! from generic URL encoding: `~` stays literal while `*`, space and every
//! other byte are escaped like any reserved byte, because the provider
//! recomputes the signature server-side over exactly this form.

use vstd::prelude::*;

verus! {

/// True for the bytes the provider leaves unescaped:
/// `A-Z`, `a-z`, `0-9`, `-`, `_`, `.` and `~`.
pub open spec fn is_unreserved(b: u8) -> bool {
    (0x41 <= b && b <= 0x5a)  // A-Z
    || (0x61 <= b && b <= 0x7a)  // a-z
    || (0x30 <= b && b <= 0x39)  // 0-9
    || b == 0x2d  // -
    || b == 0x5f  // _
    || b == 0x2e  // .
    || b == 0x7e  // ~
}

/// The ASCII byte of the uppercase hex digit for a value below sixteen.
pub open spec fn hex_digit(n: u8) -> u8
    recommends
        n < 16,
{
    if n < 10 {
        (0x30 + n) as u8  // '0'..'9'
    } else {
        (0x37 + n) as u8  // 'A'..'F'
    }
}

/// True for the bytes that `hex_digit` can produce.
pub open spec fn is_upper_hex(b: u8) -> bool {
    (0x30 <= b && b <= 0x39) || (0x41 <= b && b <= 0x46)
}

/// The value of an uppercase hex digit byte, or nothing for any other byte.
pub open spec fn hex_value(b: u8) -> Option<u8> {
    if 0x30 <= b && b <= 0x39 {
        Some((b - 0x30) as u8)
    } else if 0x41 <= b && b <= 0x46 {
        Some((b - 0x37) as u8)
    } else {
        None
    }
}

/// What one input byte contributes to the encoded output: itself when
/// unreserved, otherwise `%` followed by its two uppercase hex digits.
pub open spec fn encoded_byte(b: u8) -> Seq<u8> {
    if is_unreserved(b) {
        seq![b]
    } else {
        seq![0x25u8, hex_digit(b / 16), hex_digit(b % 16)]
    }
}

/// The percent encoding of a whole byte sequence.
pub open spec fn percent_encoded(s: Seq<u8>) -> Seq<u8>
    decreases s.len(),
{
    if s.len() == 0 {
        Seq::empty()
    } else {
        encoded_byte(s[0]) + percent_encoded(s.skip(1))
    }
}

/// The decoding of a percent-encoded sequence: `%` must be followed by two
/// uppercase hex digits naming the byte, any other byte stands for itself.
/// A truncated or malformed escape decodes to nothing.
pub open spec fn percent_decoded(s: Seq<u8>) -> Option<Seq<u8>>
    decreases s.len(),
{
    if s.len() == 0 {
        Some(Seq::empty())
    } else if s[0] == 0x25 {
        if s.len() >= 3 && hex_value(s[1]) is Some && hex_value(s[2]) is Some {
            match percent_decoded(s.skip(3)) {
                Some(rest) => Some(
                    seq![(hex_value(s[1]).unwrap() * 16 + hex_value(s[2]).unwrap()) as u8] + rest,
                ),
                None => None,
            }
        } else {
            None
        }
    } else {
        match percent_decoded(s.skip(1)) {
            Some(rest) => Some(seq![s[0]] + rest),
            None => None,
        }
    }
}

/// Encodes a byte slice into the provider's percent-encoded form.
pub fn percent_encode(s: &[u8]) -> (r: Vec<u8>)
    ensures
        r@ == percent_encoded(s@),
{
    let mut r: Vec<u8> = Vec::new();
    let n = s.len();
    assert(s@.skip(0) == s@);
    for i in 0..n
        invariant
            n == s@.len(),
            r@ + percent_encoded(s@.skip(i as int)) == percent_encoded(s@),
    {
        let b = s[i];
        if (0x41 <= b && b <= 0x5a) || (0x61 <= b && b <= 0x7a) || (0x30 <= b && b <= 0x39)
            || b == 0x2d || b == 0x5f || b == 0x2e || b == 0x7e {
            r.push(b);
        } else {
            r.push(0x25);
            r.push(hex_digit_exec(b / 16));
            r.push(hex_digit_exec(b % 16));
        }
        assert(s@.skip(i as int).drop_first() == s@.skip(i + 1));
    }
    assert(s@.skip(n as int) =~= Seq::<u8>::empty());
    assert(r@ + percent_encoded(s@.skip(n as int)) =~= r@);
    r
}

/// The uppercase hex digit byte for a value below sixteen.
fn hex_digit_exec(n: u8) -> (r: u8)
    requires
        n < 16,
    ensures
        r == hex_digit(n),
{
    if n < 10 {
        0x30 + n
    } else {
        0x37 + n
    }
}

/// Decodes a percent-encoded byte slice; `None` when an escape is truncated
/// or holds anything but two uppercase hex digits.
pub fn percent_decode(s: &[u8]) -> (r: Option<Vec<u8>>)
    ensures
        match r {
            Some(v) => percent_decoded(s@) == Some(v@),
            None => percent_decoded(s@) is None,
        },
{
    let mut r: Vec<u8> = Vec::new();
    let n = s.len();
    let mut i: usize = 0;
    assert(s@.skip(0) == s@);
    while i < n
        invariant
            i <= n,
            n == s@.len(),
            percent_decoded(s@) == match percent_decoded(s@.skip(i as int)) {
                Some(rest) => Some(r@ + rest),
                None => None::<Seq<u8>>,
            },
        decreases n - i,
    {
        let b = s[i];
        if b == 0x25 {
            if n - i < 3 {
                assert(s@.skip(i as int).len() < 3);
                return None;
            }
            let h1 = hex_value_exec(s[i + 1]);
            let h2 = hex_value_exec(s[i + 2]);
            match (h1, h2) {
                (Some(v1), Some(v2)) => {
                    r.push(v1 * 16 + v2);
                    assert(s@.skip(i as int)[1] == s@[i + 1]);
                    assert(s@.skip(i as int)[2] == s@[i + 2]);
                    assert(s@.skip(i as int).skip(3) == s@.skip(i + 3));
                    i = i + 3;
                },
                _ => {
                    assert(s@.skip(i as int)[1] == s@[i + 1]);
                    assert(s@.skip(i as int)[2] == s@[i + 2]);
                    return None;
                },
            }
        } else {
            r.push(b);
            assert(s@.skip(i as int).skip(1) == s@.skip(i + 1));
            i = i + 1;
        }
    }
    assert(s@.skip(n as int) =~= Seq::<u8>::empty());
    Some(r)
}

/// The value of an uppercase hex digit byte.
fn hex_value_exec(b: u8) -> (r: Option<u8>)
    ensures
        r == hex_value(b),
{
    if 0x30 <= b && b <= 0x39 {
        Some(b - 0x30)
    } else if 0x41 <= b && b <= 0x46 {
        Some(b - 0x37)
    } else {
        None
    }
}

/// A sequence made only of unreserved bytes encodes to itself.
pub proof fn lemma_encode_unreserved_identity(s: Seq<u8>)
    requires
        forall|i: int| 0 <= i < s.len() ==> is_unreserved(#[trigger] s[i]),
    ensures
        percent_encoded(s) == s,
    decreases s.len(),
{
    if s.len() == 0 {
        assert(percent_encoded(s) =~= s);
    } else {
        lemma_encode_unreserved_identity(s.skip(1));
        assert(percent_encoded(s) =~= s);
    }
}

/// Every byte outside the unreserved set contributes exactly `%` and two
/// uppercase hex digits.
pub proof fn lemma_encoded_byte_shape(b: u8)
    requires
        !is_unreserved(b),
    ensures
        encoded_byte(b).len() == 3,
        encoded_byte(b)[0] == 0x25,
        is_upper_hex(encoded_byte(b)[1]),
        is_upper_hex(encoded_byte(b)[2]),
{
}

/// Reading a hex digit back gives the value it was written from.
proof fn lemma_hex_digit_value(n: u8)
    requires
        n < 16,
    ensures
        hex_value(hex_digit(n)) == Some(n),
{
}

/// An encoded sequence never contains the canonical string's separators
/// `&` and `=`: neither is unreserved, and escapes are made of `%` and
/// uppercase hex digits only.  This is what lets the canonical string be
/// split back unambiguously.
pub proof fn lemma_encoded_separator_free(s: Seq<u8>)
    ensures
        forall|i: int|
            0 <= i < percent_encoded(s).len() ==> #[trigger] percent_encoded(s)[i] != 0x26
                && percent_encoded(s)[i] != 0x3d,
    decreases s.len(),
{
    if s.len() > 0 {
        lemma_encoded_separator_free(s.skip(1));
        let e = percent_encoded(s);
        let head = encoded_byte(s[0]);
        assert forall|i: int| 0 <= i < e.len() implies #[trigger] e[i] != 0x26 && e[i]
            != 0x3d by {
            if i < head.len() {
                assert(e[i] == head[i]);
            } else {
                assert(e[i] == percent_encoded(s.skip(1))[i - head.len()]);
            }
        }
    }
}

/// Encoding is injective: equal encodings come from equal inputs.
pub proof fn lemma_encode_injective(s1: Seq<u8>, s2: Seq<u8>)
    requires
        percent_encoded(s1) == percent_encoded(s2),
    ensures
        s1 == s2,
{
    lemma_decode_encode(s1);
    lemma_decode_encode(s2);
}

/// Decoding is a left inverse of encoding: whatever bytes are encoded,
/// decoding the result gives them back.
pub proof fn lemma_decode_encode(s: Seq<u8>)
    ensures
        percent_decoded(percent_encoded(s)) == Some(s),
    decreases s.len(),
{
    if s.len() == 0 {
        assert(percent_encoded(s) =~= Seq::<u8>::empty());
    } else {
        let b = s[0];
        let e = percent_encoded(s);
        lemma_decode_encode(s.skip(1));
        if is_unreserved(b) {
            assert(e[0] == b);
            assert(b != 0x25);
            assert(e.skip(1) =~= percent_encoded(s.skip(1)));
            assert(seq![s[0]] + s.skip(1) =~= s);
        } else {
            lemma_hex_digit_value(b / 16);
            lemma_hex_digit_value(b % 16);
            assert(e[0] == 0x25 && e[1] == hex_digit(b / 16) && e[2] == hex_digit(b % 16));
            assert(e.len() >= 3);
            assert(e.skip(3) =~= percent_encoded(s.skip(1)));
            assert((b / 16) * 16 + b % 16 == b) by (nonlinear_arith);
            assert(seq![s[0]] + s.skip(1) =~= s);
        }
    }
}

} // verus!
