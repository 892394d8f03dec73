//! Percent-encoding of single components, as the `urlencoding` crate does
//! it: every byte of the UTF-8 form is escaped as `%XY` (upper-case hex)
//! except ASCII letters, digits and `-`, `.`, `_`, `~`.
use vstd::prelude::*;
use vstd::utf8::*;

verus! {

/// A byte that percent-encoding leaves as it is.
pub open spec fn is_unreserved(b: u8) -> bool {
    (48 <= b && b <= 57) || (65 <= b && b <= 90) || (97 <= b && b <= 122) || b == 45 || b == 46
        || b == 95 || b == 126
}

/// The upper-case hex digit of a value below 16.
pub open spec fn hex_digit(d: u8) -> u8 {
    if d < 10 {
        (48 + d) as u8
    } else {
        (55 + d) as u8
    }
}

/// The value of a hex digit of either case.
pub open spec fn hex_value(d: u8) -> Option<u8> {
    if 48 <= d && d <= 57 {
        Some((d - 48) as u8)
    } else if 65 <= d && d <= 70 {
        Some((d - 55) as u8)
    } else if 97 <= d && d <= 102 {
        Some((d - 87) as u8)
    } else {
        None
    }
}

pub open spec fn encode_byte(b: u8) -> Seq<u8> {
    if is_unreserved(b) {
        seq![b]
    } else {
        seq![37u8, hex_digit(b / 16), hex_digit(b % 16)]
    }
}

/// Percent-encoding of a byte sequence.
pub open spec fn pct_encode_bytes(b: Seq<u8>) -> Seq<u8>
    decreases b.len(),
{
    if b.len() == 0 {
        Seq::<u8>::empty()
    } else {
        encode_byte(b[0]) + pct_encode_bytes(b.drop_first())
    }
}

/// Percent-decoding of a byte sequence: `%` and two hex digits give one
/// byte; any other byte, and a `%` not followed by two hex digits, stays.
pub open spec fn pct_decode_bytes(b: Seq<u8>) -> Seq<u8>
    decreases b.len(),
{
    if b.len() == 0 {
        Seq::<u8>::empty()
    } else if b[0] != 37 {
        seq![b[0]] + pct_decode_bytes(b.drop_first())
    } else if b.len() < 3 {
        b
    } else {
        match (hex_value(b[1]), hex_value(b[2])) {
            (Some(h), Some(l)) => seq![(h * 16 + l) as u8] + pct_decode_bytes(
                b.subrange(3, b.len() as int),
            ),
            (Some(_), None) => seq![37u8, b[1]] + pct_decode_bytes(b.subrange(2, b.len() as int)),
            (None, _) => seq![37u8] + pct_decode_bytes(b.drop_first()),
        }
    }
}

/// ASCII bytes read as characters.
pub open spec fn ascii_chars(b: Seq<u8>) -> Seq<char> {
    b.map_values(|x: u8| x as char)
}

/// The percent-encoding of a string.
pub open spec fn pct_encode(s: Seq<char>) -> Seq<char> {
    ascii_chars(pct_encode_bytes(encode_utf8(s)))
}

/// The percent-decoding of a string, where its bytes form valid UTF-8.
pub open spec fn pct_decode(s: Seq<char>) -> Option<Seq<char>> {
    let d = pct_decode_bytes(encode_utf8(s));
    if valid_utf8(d) {
        Some(decode_utf8(d))
    } else {
        None
    }
}

/// Relies on `urlencoding::encode`: the escaping stated by `pct_encode`.
#[verifier::external_body]
pub(crate) fn encode_component(s: &str) -> (r: String)
    ensures
        r@ == pct_encode(s@),
{
    urlencoding::encode(s).into_owned()
}

/// Relies on `urlencoding::decode`: the bytes of `pct_decode_bytes`, and an
/// error exactly where they are not UTF-8.
#[verifier::external_body]
pub(crate) fn decode_component(s: &str) -> (r: Option<String>)
    ensures
        match r {
            Some(t) => pct_decode(s@) == Some(t@),
            None => pct_decode(s@) is None,
        },
{
    urlencoding::decode(s).ok().map(|c| c.into_owned())
}

proof fn lemma_encode_byte_ok(b: u8)
    ensures
        forall|i: int|
            0 <= i < encode_byte(b).len() ==> is_unreserved(#[trigger] encode_byte(b)[i])
                || encode_byte(b)[i] == 37,
{
    if !is_unreserved(b) {
        assert(b / 16 < 16);
        assert(b % 16 < 16);
    }
}

/// Every byte of an encoding is unreserved or `%`.
pub proof fn lemma_encoded_bytes_ok(b: Seq<u8>)
    ensures
        forall|i: int|
            0 <= i < pct_encode_bytes(b).len() ==> is_unreserved(#[trigger] pct_encode_bytes(b)[i])
                || pct_encode_bytes(b)[i] == 37,
    decreases b.len(),
{
    if b.len() > 0 {
        lemma_encode_byte_ok(b[0]);
        lemma_encoded_bytes_ok(b.drop_first());
        let e = encode_byte(b[0]);
        let r = pct_encode_bytes(b.drop_first());
        assert forall|i: int| 0 <= i < pct_encode_bytes(b).len() implies is_unreserved(
            #[trigger] pct_encode_bytes(b)[i],
        ) || pct_encode_bytes(b)[i] == 37 by {
            if i < e.len() {
                assert(pct_encode_bytes(b)[i] == e[i]);
            } else {
                assert(pct_encode_bytes(b)[i] == r[i - e.len()]);
            }
        }
    }
}

/// Decoding an encoding gives the bytes back.
pub proof fn lemma_decode_encode_bytes(b: Seq<u8>)
    ensures
        pct_decode_bytes(pct_encode_bytes(b)) == b,
    decreases b.len(),
{
    if b.len() > 0 {
        let x = b[0];
        let rest = pct_encode_bytes(b.drop_first());
        let e = pct_encode_bytes(b);
        lemma_decode_encode_bytes(b.drop_first());
        if is_unreserved(x) {
            assert(e.drop_first() =~= rest);
            assert(seq![x] + b.drop_first() =~= b);
        } else {
            let h = (x / 16) as u8;
            let l = (x % 16) as u8;
            assert(h < 16 && l < 16);
            assert(hex_value(hex_digit(h)) == Some(h));
            assert(hex_value(hex_digit(l)) == Some(l));
            assert(e[1] == hex_digit(h));
            assert(e[2] == hex_digit(l));
            assert(e.subrange(3, e.len() as int) =~= rest);
            assert(h * 16 + l == x) by (nonlinear_arith)
                requires
                    h == x / 16,
                    l == x % 16,
            ;
            assert(seq![x] + b.drop_first() =~= b);
        }
    }
}

/// ASCII bytes read as characters encode back to the same bytes.
pub proof fn lemma_ascii_round_trip(b: Seq<u8>)
    requires
        forall|i: int| 0 <= i < b.len() ==> #[trigger] b[i] < 128,
    ensures
        encode_utf8(ascii_chars(b)) == b,
{
    let c = ascii_chars(b);
    assert(is_ascii_chars(c)) by {
        assert forall|i: int| 0 <= i < c.len() implies ((#[trigger] c[i]) as u32) < 128 by {
            assert(c[i] == b[i] as char);
        }
    }
    is_ascii_chars_encode_utf8(c);
    assert forall|i: int| 0 <= i < b.len() implies encode_utf8(c)[i] == b[i] by {
        assert(c[i] as u8 == encode_utf8(c)[i]);
        assert(c[i] == b[i] as char);
    }
    assert(encode_utf8(c) =~= b);
}

/// Decoding the encoding of a string gives the string back.
pub proof fn lemma_decode_encode(s: Seq<char>)
    ensures
        pct_decode(pct_encode(s)) == Some(s),
{
    let b = encode_utf8(s);
    let e = pct_encode_bytes(b);
    lemma_encoded_bytes_ok(b);
    assert forall|i: int| 0 <= i < e.len() implies #[trigger] e[i] < 128 by {
        assert(is_unreserved(e[i]) || e[i] == 37);
    }
    lemma_ascii_round_trip(e);
    lemma_decode_encode_bytes(b);
    encode_utf8_valid_utf8(s);
    encode_utf8_decode_utf8(s);
}

/// An encoding holds only unreserved characters and `%`.
pub proof fn lemma_encode_plain(s: Seq<char>)
    ensures
        forall|i: int|
            0 <= i < pct_encode(s).len() ==> is_unreserved((#[trigger] pct_encode(s)[i]) as u8)
                || pct_encode(s)[i] == '%',
        forall|i: int| 0 <= i < pct_encode(s).len() ==> ((#[trigger] pct_encode(s)[i]) as u32) < 128,
{
    let e = pct_encode_bytes(encode_utf8(s));
    lemma_encoded_bytes_ok(encode_utf8(s));
    assert forall|i: int| 0 <= i < pct_encode(s).len() implies is_unreserved(
        (#[trigger] pct_encode(s)[i]) as u8,
    ) || pct_encode(s)[i] == '%' by {
        assert(pct_encode(s)[i] == e[i] as char);
        assert(is_unreserved(e[i]) || e[i] == 37);
    }
    assert forall|i: int| 0 <= i < pct_encode(s).len() implies ((#[trigger] pct_encode(s)[i]) as u32)
        < 128 by {
        assert(pct_encode(s)[i] == e[i] as char);
        assert(is_unreserved(e[i]) || e[i] == 37);
    }
}

} // verus!
