//! Text codecs the store speaks: decimal renderings of counters and codes,
//! and the base64 form in which binary images travel inside JSON.

use vstd::prelude::*;
use vstd::string::StringSliceAdditionalSpecFns;
use vstd::utf8::encode_utf8;

verus! {

// ---------------------------------------------------------------------------
// Decimal rendering
// ---------------------------------------------------------------------------

/// The character for one decimal digit.
pub open spec fn digit_to_char(d: int) -> char
    recommends
        0 <= d < 10,
{
    (((d + 48) as u8) as char)
}

/// The decimal rendering of a natural number, most significant digit first,
/// without sign or leading zeros (`0` renders as `"0"`).
pub open spec fn spec_decimal(n: nat) -> Seq<char>
    decreases n,
{
    if n < 10 {
        seq![digit_to_char(n as int)]
    } else {
        spec_decimal(n / 10) + seq![digit_to_char((n % 10) as int)]
    }
}

/// The ASCII bytes of the decimal rendering, least significant digit first:
/// the order in which repeated division produces them.
pub open spec fn digits_rev(n: nat) -> Seq<u8>
    decreases n,
{
    if n < 10 {
        seq![((n + 48) as u8)]
    } else {
        seq![((n % 10 + 48) as u8)] + digits_rev(n / 10)
    }
}

/// Reversing the division-order digit bytes and reading them as characters
/// is exactly the decimal rendering.
proof fn lemma_digits_rev_decimal(n: nat)
    ensures
        digits_rev(n).reverse().map_values(|b: u8| b as char) == spec_decimal(n),
        digits_rev(n).len() == spec_decimal(n).len(),
    decreases n,
{
    if n < 10 {
        assert(digits_rev(n).reverse() =~= digits_rev(n));
        assert(digits_rev(n).reverse().map_values(|b: u8| b as char) =~= spec_decimal(n));
    } else {
        lemma_digits_rev_decimal(n / 10);
        let head = seq![((n % 10 + 48) as u8)];
        let rest = digits_rev(n / 10);
        assert(digits_rev(n).reverse() =~= rest.reverse() + head);
        assert((rest.reverse() + head).map_values(|b: u8| b as char) =~= rest.reverse().map_values(
            |b: u8| b as char,
        ) + seq![digit_to_char((n % 10) as int)]);
    }
}

/// Every division-order digit byte is an ASCII digit.
proof fn lemma_digits_rev_range(n: nat)
    ensures
        forall|i: int| 0 <= i < digits_rev(n).len() ==> 48 <= #[trigger] digits_rev(n)[i] <= 57,
    decreases n,
{
    if n < 10 {
        assert(digits_rev(n)[0] == (n + 48) as u8);
    } else {
        lemma_digits_rev_range(n / 10);
        let s = digits_rev(n);
        assert forall|i: int| 0 <= i < s.len() implies 48 <= #[trigger] s[i] <= 57 by {
            if i == 0 {
                assert(s[i] == (n % 10 + 48) as u8);
            } else {
                assert(s[i] == digits_rev(n / 10)[i - 1]);
            }
        }
    }
}

/// A number in the six-digit range renders to six characters.
pub proof fn lemma_decimal_six_digits(n: nat)
    requires
        100000 <= n < 1000000,
    ensures
        spec_decimal(n).len() == 6,
{
    let n1 = n / 10;
    let n2 = n1 / 10;
    let n3 = n2 / 10;
    let n4 = n3 / 10;
    let n5 = n4 / 10;
    assert(10000 <= n1 < 100000);
    assert(1000 <= n2 < 10000);
    assert(100 <= n3 < 1000);
    assert(10 <= n4 < 100);
    assert(1 <= n5 < 10);
    assert(spec_decimal(n5).len() == 1);
    assert(spec_decimal(n4).len() == 2);
    assert(spec_decimal(n3).len() == 3);
    assert(spec_decimal(n2).len() == 4);
    assert(spec_decimal(n1).len() == 5);
}

/// Every character of a decimal rendering is an ASCII digit.
pub proof fn lemma_decimal_all_digits(n: nat)
    ensures
        forall|i: int|
            0 <= i < spec_decimal(n).len() ==> 48 <= #[trigger] spec_decimal(n)[i] as u32 <= 57,
    decreases n,
{
    if n < 10 {
        assert(spec_decimal(n)[0] == digit_to_char(n as int));
        assert(digit_to_char(n as int) as u32 == n + 48);
    } else {
        lemma_decimal_all_digits(n / 10);
        let s = spec_decimal(n);
        assert forall|i: int| 0 <= i < s.len() implies 48 <= #[trigger] s[i] as u32 <= 57 by {
            if i < s.len() - 1 {
                assert(s[i] == spec_decimal(n / 10)[i]);
            } else {
                assert(s[i] == digit_to_char((n % 10) as int));
                assert(digit_to_char((n % 10) as int) as u32 == n % 10 + 48);
            }
        }
    }
}

/// Relies on `String::from_utf8`: a sequence of ASCII bytes decodes to the
/// string holding exactly those characters, and on ASCII input the call
/// cannot fail.
#[verifier::external_body]
pub fn ascii_to_string(bytes: Vec<u8>) -> (r: String)
    requires
        forall|i: int| 0 <= i < bytes@.len() ==> #[trigger] bytes@[i] < 128,
    ensures
        r@ == bytes@.map_values(|b: u8| b as char),
{
    String::from_utf8(bytes).unwrap_or_default()
}

/// Renders `n` in decimal.
pub fn to_decimal_string(n: u32) -> (r: String)
    ensures
        r@ == spec_decimal(n as nat),
{
    let mut buf: Vec<u8> = Vec::new();
    let mut m: u32 = n;
    loop
        invariant_except_break
            buf@ + digits_rev(m as nat) == digits_rev(n as nat),
        ensures
            buf@ == digits_rev(n as nat),
        decreases m,
    {
        let d: u8 = (m % 10) as u8 + 48;
        buf.push(d);
        if m < 10 {
            proof {
                assert(buf@ =~= digits_rev(n as nat));
            }
            break;
        }
        proof {
            assert(digits_rev(m as nat) =~= seq![((m % 10 + 48) as u8)] + digits_rev(
                (m / 10) as nat,
            ));
            assert(buf@ + digits_rev((m / 10) as nat) =~= digits_rev(n as nat));
        }
        m = m / 10;
    }
    proof {
        lemma_digits_rev_range(n as nat);
        lemma_digits_rev_decimal(n as nat);
    }
    let len = buf.len();
    let mut out: Vec<u8> = Vec::new();
    let mut i: usize = len;
    while i > 0
        invariant
            i <= len,
            len == buf@.len(),
            out@.len() == len - i,
            forall|j: int| 0 <= j < out@.len() ==> out@[j] == buf@[len - 1 - j],
        decreases i,
    {
        i = i - 1;
        out.push(buf[i]);
    }
    proof {
        assert(out@ =~= buf@.reverse());
    }
    ascii_to_string(out)
}

// ---------------------------------------------------------------------------
// Decimal parsing
// ---------------------------------------------------------------------------

/// The value of a decimal spelling in ASCII bytes; `None` on an empty
/// spelling or any non-digit byte. Leading zeros are accepted.
pub open spec fn spec_parse_decimal(s: Seq<u8>) -> Option<int>
    decreases s.len(),
{
    if s.len() == 0 {
        None
    } else if !(48 <= s.last() <= 57) {
        None
    } else if s.len() == 1 {
        Some(s.last() - 48)
    } else {
        match spec_parse_decimal(s.drop_last()) {
            Some(v) => Some(v * 10 + (s.last() - 48)),
            None => None,
        }
    }
}

/// A parsed value is never negative.
proof fn lemma_parse_nonneg(s: Seq<u8>)
    ensures
        spec_parse_decimal(s) matches Some(v) ==> v >= 0,
    decreases s.len(),
{
    if s.len() > 1 {
        lemma_parse_nonneg(s.drop_last());
    }
}

/// A spelling with a non-digit byte anywhere has no value.
proof fn lemma_parse_nondigit(s: Seq<u8>, i: int)
    requires
        0 <= i < s.len(),
        !(48 <= s[i] <= 57),
    ensures
        spec_parse_decimal(s) is None,
    decreases s.len(),
{
    if i < s.len() - 1 {
        lemma_parse_nondigit(s.drop_last(), i);
    }
}

/// Every prefix of a valid spelling is itself a valid spelling.
proof fn lemma_parse_prefix_some(s: Seq<u8>, i: int)
    requires
        0 < i <= s.len(),
        spec_parse_decimal(s) is Some,
    ensures
        spec_parse_decimal(s.take(i)) is Some,
    decreases s.len(),
{
    if i == s.len() {
        assert(s.take(i) =~= s);
    } else {
        assert(s.len() > 1);
        assert(spec_parse_decimal(s.drop_last()) is Some);
        assert(s.drop_last().take(i) =~= s.take(i));
        lemma_parse_prefix_some(s.drop_last(), i);
    }
}

/// Extending a spelling with more digits never lowers its value.
proof fn lemma_parse_prefix_le(s: Seq<u8>, i: int)
    requires
        0 < i <= s.len(),
        spec_parse_decimal(s) is Some,
    ensures
        spec_parse_decimal(s.take(i)) is Some,
        spec_parse_decimal(s.take(i)).unwrap() <= spec_parse_decimal(s).unwrap(),
    decreases s.len(),
{
    lemma_parse_prefix_some(s, i);
    if i == s.len() {
        assert(s.take(i) =~= s);
    } else {
        assert(s.len() > 1);
        let d = s.drop_last();
        assert(spec_parse_decimal(d) is Some);
        assert(d.take(i) =~= s.take(i));
        lemma_parse_prefix_le(d, i);
        lemma_parse_nonneg(d);
        assert(spec_parse_decimal(s).unwrap() == spec_parse_decimal(d).unwrap() * 10 + (s.last()
            - 48));
        assert(spec_parse_decimal(d).unwrap() * 10 >= spec_parse_decimal(d).unwrap()) by (nonlinear_arith)
            requires
                spec_parse_decimal(d).unwrap() >= 0,
        ;
    }
}

/// How the store coerces an optional decimal-string counter to an
/// integer column: a valid spelling of a value that fits gives the value,
/// anything else gives zero.
pub open spec fn spec_coerce_count(o: Option<String>) -> int {
    match o {
        None => 0,
        Some(s) => match spec_parse_decimal(encode_utf8(s@)) {
            Some(v) => if v <= i32::MAX { v } else { 0 },
            None => 0,
        },
    }
}

/// Parses a decimal counter string as the store coerces it.
pub fn parse_count(s: &String) -> (r: i32)
    ensures
        r == spec_coerce_count(Some(*s)),
        r >= 0,
{
    let bytes = s.as_str().as_bytes();
    let ghost bs = encode_utf8(s@);
    let n = bytes.len();
    if n == 0 {
        return 0;
    }
    let mut acc: u64 = 0;
    let mut i: usize = 0;
    while i < n
        invariant
            i <= n,
            n == bs.len(),
            bytes@ == bs,
            bs == encode_utf8(s@),
            acc <= 0x7fffffff * 10 + 9,
            i > 0 ==> spec_parse_decimal(bs.take(i as int)) == Some(acc as int),
            i == 0 ==> acc == 0,
        decreases n - i,
    {
        let b = bytes[i];
        if b < 48 || b > 57 {
            proof {
                lemma_parse_nondigit(bs, i as int);
            }
            return 0;
        }
        if acc > 0x7fffffff {
            proof {
                if spec_parse_decimal(bs) is Some {
                    lemma_parse_prefix_le(bs, i as int);
                }
            }
            return 0;
        }
        acc = acc * 10 + ((b - 48) as u64);
        proof {
            let t = bs.take(i + 1);
            assert(t.last() == b);
            assert(t.drop_last() =~= bs.take(i as int));
            if i == 0 {
                assert(t.len() == 1);
            }
            assert(spec_parse_decimal(t) == Some(acc as int));
        }
        i = i + 1;
    }
    proof {
        assert(bs.take(n as int) =~= bs);
    }
    if acc > 0x7fffffff {
        return 0;
    }
    acc as i32
}

// ---------------------------------------------------------------------------
// Base64
// ---------------------------------------------------------------------------

/// The base64 alphabet: the ASCII byte standing for a six-bit value.
pub open spec fn b64_digit(v: u8) -> u8
    recommends
        v < 64,
{
    if v < 26 {
        (v + 65) as u8  // 'A'..='Z'

    } else if v < 52 {
        (v + 71) as u8  // 'a'..='z'

    } else if v < 62 {
        (v - 4) as u8  // '0'..='9'

    } else if v == 62 {
        43u8  // '+'

    } else {
        47u8  // '/'

    }
}

/// The six-bit value of an alphabet byte; `None` off the alphabet
/// (the padding byte `'='` included).
pub open spec fn b64_value(c: u8) -> Option<u8> {
    if 65 <= c <= 90 {
        Some(((c - 65) as u8))
    } else if 97 <= c <= 122 {
        Some(((c - 71) as u8))
    } else if 48 <= c <= 57 {
        Some(((c + 4) as u8))
    } else if c == 43 {
        Some(62u8)
    } else if c == 47 {
        Some(63u8)
    } else {
        None
    }
}

/// The four alphabet bytes encoding three input bytes.
pub open spec fn b64_group_enc(b0: u8, b1: u8, b2: u8) -> Seq<u8> {
    seq![
        b64_digit((b0 / 4) as u8),
        b64_digit(((b0 % 4) * 16 + b1 / 16) as u8),
        b64_digit(((b1 % 16) * 4 + b2 / 64) as u8),
        b64_digit((b2 % 64) as u8),
    ]
}

/// Base64 encoding with `'='` padding, as `TO_BASE64` produces it.
pub open spec fn b64_encode(b: Seq<u8>) -> Seq<u8>
    decreases b.len(),
{
    if b.len() == 0 {
        Seq::empty()
    } else if b.len() == 1 {
        seq![b64_digit((b[0] / 4) as u8), b64_digit(((b[0] % 4) * 16) as u8), 61u8, 61u8]
    } else if b.len() == 2 {
        seq![
            b64_digit((b[0] / 4) as u8),
            b64_digit(((b[0] % 4) * 16 + b[1] / 16) as u8),
            b64_digit(((b[1] % 16) * 4) as u8),
            61u8,
        ]
    } else {
        b64_group_enc(b[0], b[1], b[2]) + b64_encode(b.skip(3))
    }
}

/// The three bytes a full (unpadded) group of four alphabet bytes decodes
/// to; `None` if any byte is off the alphabet.
pub open spec fn b64_group_dec(c0: u8, c1: u8, c2: u8, c3: u8) -> Option<Seq<u8>> {
    match (b64_value(c0), b64_value(c1), b64_value(c2), b64_value(c3)) {
        (Some(v0), Some(v1), Some(v2), Some(v3)) => Some(
            seq![
                ((v0 * 4 + v1 / 16) as u8),
                ((v1 % 16) * 16 + v2 / 4) as u8,
                (((v2 % 4) * 64 + v3) as u8),
            ],
        ),
        _ => None,
    }
}

/// Decoding of the final group of four, where `'='` padding may stand.
pub open spec fn b64_tail_dec(s: Seq<u8>) -> Option<Seq<u8>>
    recommends
        s.len() == 4,
{
    if s[2] == 61 && s[3] == 61 {
        match (b64_value(s[0]), b64_value(s[1])) {
            (Some(v0), Some(v1)) => Some(seq![((v0 * 4 + v1 / 16) as u8)]),
            _ => None,
        }
    } else if s[3] == 61 {
        match (b64_value(s[0]), b64_value(s[1]), b64_value(s[2])) {
            (Some(v0), Some(v1), Some(v2)) => Some(
                seq![((v0 * 4 + v1 / 16) as u8), ((v1 % 16) * 16 + v2 / 4) as u8],
            ),
            _ => None,
        }
    } else {
        b64_group_dec(s[0], s[1], s[2], s[3])
    }
}

/// Base64 decoding: the length must be a positive multiple of four or zero,
/// every byte on the alphabet, padding only in the last group.
pub open spec fn b64_decode(s: Seq<u8>) -> Option<Seq<u8>>
    decreases s.len(),
{
    if s.len() == 0 {
        Some(Seq::empty())
    } else if s.len() % 4 != 0 {
        None
    } else if s.len() == 4 {
        b64_tail_dec(s)
    } else {
        match (b64_group_dec(s[0], s[1], s[2], s[3]), b64_decode(s.skip(4))) {
            (Some(g), Some(rest)) => Some(g + rest),
            _ => None,
        }
    }
}

/// The alphabet byte of a six-bit value decodes back to it, and is never
/// the padding byte.
proof fn lemma_b64_digit_value(v: u8)
    requires
        v < 64,
    ensures
        b64_value(b64_digit(v)) == Some(v),
        b64_digit(v) != 61,
        b64_digit(v) < 128,
{
}

/// Encoding produces four alphabet bytes for every started group of three
/// input bytes.
pub proof fn lemma_b64_encode_len(b: Seq<u8>)
    ensures
        b64_encode(b).len() == 4 * ((b.len() + 2) / 3),
        b64_encode(b).len() % 4 == 0,
    decreases b.len(),
{
    if b.len() > 2 {
        lemma_b64_encode_len(b.skip(3));
    }
}

/// Every byte of an encoding is ASCII.
pub proof fn lemma_b64_encode_ascii(b: Seq<u8>)
    ensures
        forall|i: int| 0 <= i < b64_encode(b).len() ==> #[trigger] b64_encode(b)[i] < 128,
    decreases b.len(),
{
    if b.len() == 0 {
    } else if b.len() == 1 {
        lemma_b64_digit_value((b[0] / 4) as u8);
        lemma_b64_digit_value(((b[0] % 4) * 16) as u8);
    } else if b.len() == 2 {
        lemma_b64_digit_value((b[0] / 4) as u8);
        lemma_b64_digit_value(((b[0] % 4) * 16 + b[1] / 16) as u8);
        lemma_b64_digit_value(((b[1] % 16) * 4) as u8);
    } else {
        lemma_b64_encode_ascii(b.skip(3));
        lemma_b64_digit_value((b[0] / 4) as u8);
        lemma_b64_digit_value(((b[0] % 4) * 16 + b[1] / 16) as u8);
        lemma_b64_digit_value(((b[1] % 16) * 4 + b[2] / 64) as u8);
        lemma_b64_digit_value((b[2] % 64) as u8);
        let s = b64_encode(b);
        assert forall|i: int| 0 <= i < s.len() implies #[trigger] s[i] < 128 by {
            if i >= 4 {
                assert(s[i] == b64_encode(b.skip(3))[i - 4]);
            }
        }
    }
}

/// A full group of four decodes its encoding back to the three bytes.
proof fn lemma_b64_group_round_trip(b0: u8, b1: u8, b2: u8)
    ensures
        b64_group_dec(
            b64_digit((b0 / 4) as u8),
            b64_digit(((b0 % 4) * 16 + b1 / 16) as u8),
            b64_digit(((b1 % 16) * 4 + b2 / 64) as u8),
            b64_digit((b2 % 64) as u8),
        ) == Some(seq![b0, b1, b2]),
{
    let v0 = (b0 / 4) as u8;
    let v1 = ((b0 % 4) * 16 + b1 / 16) as u8;
    let v2 = ((b1 % 16) * 4 + b2 / 64) as u8;
    let v3 = (b2 % 64) as u8;
    lemma_b64_digit_value(v0);
    lemma_b64_digit_value(v1);
    lemma_b64_digit_value(v2);
    lemma_b64_digit_value(v3);
    assert(v1 / 16 == b0 % 4 && v1 % 16 == b1 / 16) by (nonlinear_arith)
        requires
            v1 == (b0 % 4) * 16 + b1 / 16 && b1 / 16 < 16 && v1 < 64,
    ;
    assert(v2 / 4 == b1 % 16 && v2 % 4 == b2 / 64) by (nonlinear_arith)
        requires
            v2 == (b1 % 16) * 4 + b2 / 64 && b2 / 64 < 4 && v2 < 64,
    ;
    assert(v0 * 4 + v1 / 16 == b0);
    assert((v1 % 16) * 16 + v2 / 4 == b1) by (nonlinear_arith)
        requires
            v1 % 16 == b1 / 16 && v2 / 4 == b1 % 16,
    ;
    assert((v2 % 4) * 64 + v3 == b2) by (nonlinear_arith)
        requires
            v2 % 4 == b2 / 64 && v3 == b2 % 64,
    ;
    assert(b64_group_dec(b64_digit(v0), b64_digit(v1), b64_digit(v2), b64_digit(v3)) == Some(
        seq![b0, b1, b2],
    ));
}

/// Decoding inverts encoding: the round trip returns the bytes unchanged.
#[verifier::rlimit(100)]
pub proof fn lemma_b64_round_trip(b: Seq<u8>)
    ensures
        b64_decode(b64_encode(b)) == Some(b),
    decreases b.len(),
{
    if b.len() == 0 {
        assert(b64_encode(b) =~= Seq::<u8>::empty());
        assert(b =~= Seq::<u8>::empty());
    } else if b.len() == 1 {
        let s = b64_encode(b);
        let v0 = (b[0] / 4) as u8;
        let v1 = ((b[0] % 4) * 16) as u8;
        lemma_b64_digit_value(v0);
        lemma_b64_digit_value(v1);
        assert(v1 / 16 == b[0] % 4) by (nonlinear_arith)
            requires
                v1 == (b[0] % 4) * 16 && b[0] % 4 < 4,
        ;
        assert(v0 * 4 + v1 / 16 == b[0]);
        assert(b64_tail_dec(s) == Some(seq![b[0]]));
        assert(seq![b[0]] =~= b);
    } else if b.len() == 2 {
        let s = b64_encode(b);
        let v0 = (b[0] / 4) as u8;
        let v1 = ((b[0] % 4) * 16 + b[1] / 16) as u8;
        let v2 = ((b[1] % 16) * 4) as u8;
        lemma_b64_digit_value(v0);
        lemma_b64_digit_value(v1);
        lemma_b64_digit_value(v2);
        assert(v1 / 16 == b[0] % 4 && v1 % 16 == b[1] / 16) by (nonlinear_arith)
            requires
                v1 == (b[0] % 4) * 16 + b[1] / 16 && b[1] / 16 < 16 && v1 < 64,
        ;
        assert(v2 / 4 == b[1] % 16) by (nonlinear_arith)
            requires
                v2 == (b[1] % 16) * 4 && b[1] % 16 < 16,
        ;
        assert(v0 * 4 + v1 / 16 == b[0]);
        assert((v1 % 16) * 16 + v2 / 4 == b[1]) by (nonlinear_arith)
            requires
                v1 % 16 == b[1] / 16 && v2 / 4 == b[1] % 16,
        ;
        assert(b64_tail_dec(s) == Some(seq![b[0], b[1]]));
        assert(seq![b[0], b[1]] =~= b);
    } else {
        lemma_b64_round_trip(b.skip(3));
        lemma_b64_encode_len(b.skip(3));
        lemma_b64_group_round_trip(b[0], b[1], b[2]);
        let g = b64_group_enc(b[0], b[1], b[2]);
        let rest = b64_encode(b.skip(3));
        let s = b64_encode(b);
        assert(s == g + rest);
        assert(s.len() == 4 + rest.len());
        assert(s.len() % 4 == 0);
        assert(s[0] == g[0] && s[1] == g[1] && s[2] == g[2] && s[3] == g[3]);
        if b.len() == 3 {
            assert(rest.len() == 0);
            assert(s.len() == 4);
            lemma_b64_digit_value((b[2] % 64) as u8);
            lemma_b64_digit_value(((b[1] % 16) * 4 + b[2] / 64) as u8);
            assert(s[3] != 61 && s[2] != 61);
            assert(b64_tail_dec(s) == b64_group_dec(s[0], s[1], s[2], s[3]));
            assert(b64_decode(s) == Some(seq![b[0], b[1], b[2]]));
            assert(seq![b[0], b[1], b[2]] =~= b);
        } else {
            assert(s.len() > 4);
            assert(s.skip(4) =~= rest);
            assert(b64_group_dec(s[0], s[1], s[2], s[3]) == Some(seq![b[0], b[1], b[2]]));
            assert(b64_decode(s) == Some(seq![b[0], b[1], b[2]] + b.skip(3)));
            assert(seq![b[0], b[1], b[2]] + b.skip(3) =~= b);
        }
    }
}

/// The alphabet byte of a six-bit value, computed.
fn b64_digit_x(v: u8) -> (r: u8)
    requires
        v < 64,
    ensures
        r == b64_digit(v),
{
    if v < 26 {
        v + 65
    } else if v < 52 {
        v + 71
    } else if v < 62 {
        v - 4
    } else if v == 62 {
        43
    } else {
        47
    }
}

/// The six-bit value of an alphabet byte, computed.
fn b64_value_x(c: u8) -> (r: Option<u8>)
    ensures
        r == b64_value(c),
{
    if 65 <= c && c <= 90 {
        Some(c - 65)
    } else if 97 <= c && c <= 122 {
        Some(c - 71)
    } else if 48 <= c && c <= 57 {
        Some(c + 4)
    } else if c == 43 {
        Some(62)
    } else if c == 47 {
        Some(63)
    } else {
        None
    }
}

/// Encodes bytes to the base64 alphabet.
pub fn base64_encode(input: &Vec<u8>) -> (r: Vec<u8>)
    ensures
        r@ == b64_encode(input@),
{
    let n = input.len();
    let mut out: Vec<u8> = Vec::new();
    let mut i: usize = 0;
    proof {
        assert(input@.skip(0) =~= input@);
        assert(b64_encode(input@) =~= out@ + b64_encode(input@));
    }
    while n - i >= 3
        invariant
            i <= n,
            i % 3 == 0,
            n == input@.len(),
            b64_encode(input@) == out@ + b64_encode(input@.skip(i as int)),
        decreases n - i,
    {
        let b0 = input[i];
        let b1 = input[i + 1];
        let b2 = input[i + 2];
        proof {
            let t = input@.skip(i as int);
            assert(t.len() >= 3);
            assert(t[0] == b0 && t[1] == b1 && t[2] == b2);
            assert(b64_encode(t) == b64_group_enc(b0, b1, b2) + b64_encode(t.skip(3)));
            assert(t.skip(3) =~= input@.skip(i + 3));
        }
        out.push(b64_digit_x(b0 / 4));
        out.push(b64_digit_x((b0 % 4) * 16 + b1 / 16));
        out.push(b64_digit_x((b1 % 16) * 4 + b2 / 64));
        out.push(b64_digit_x(b2 % 64));
        proof {
            assert(b64_encode(input@) =~= out@ + b64_encode(input@.skip(i + 3)));
        }
        i = i + 3;
    }
    let t = n - i;
    if t == 1 {
        let b0 = input[i];
        proof {
            let s = input@.skip(i as int);
            assert(s.len() == 1 && s[0] == b0);
        }
        out.push(b64_digit_x(b0 / 4));
        out.push(b64_digit_x((b0 % 4) * 16));
        out.push(61);
        out.push(61);
        proof {
            assert(out@ =~= b64_encode(input@));
        }
    } else if t == 2 {
        let b0 = input[i];
        let b1 = input[i + 1];
        proof {
            let s = input@.skip(i as int);
            assert(s.len() == 2 && s[0] == b0 && s[1] == b1);
        }
        out.push(b64_digit_x(b0 / 4));
        out.push(b64_digit_x((b0 % 4) * 16 + b1 / 16));
        out.push(b64_digit_x((b1 % 16) * 4));
        out.push(61);
        proof {
            assert(out@ =~= b64_encode(input@));
        }
    } else {
        proof {
            assert(input@.skip(i as int) =~= Seq::<u8>::empty());
            assert(out@ =~= b64_encode(input@));
        }
    }
    out
}

/// Decodes base64 bytes; `None` exactly where the input is not a padded
/// base64 spelling.
#[verifier::rlimit(100)]
pub fn base64_decode(input: &Vec<u8>) -> (r: Option<Vec<u8>>)
    ensures
        match b64_decode(input@) {
            Some(d) => r is Some && r.unwrap()@ == d,
            None => r is None,
        },
{
    let n = input.len();
    if n == 0 {
        return Some(Vec::new());
    }
    if n % 4 != 0 {
        return None;
    }
    let mut out: Vec<u8> = Vec::new();
    let mut i: usize = 0;
    proof {
        assert(input@.skip(0) =~= input@);
        assert(out@ + b64_decode(input@).unwrap() =~= b64_decode(input@).unwrap());
    }
    while n - i > 4
        invariant
            i + 4 <= n,
            i % 4 == 0,
            n % 4 == 0,
            n == input@.len(),
            n > 0,
            match b64_decode(input@.skip(i as int)) {
                Some(rest) => b64_decode(input@) == Some(out@ + rest),
                None => b64_decode(input@) is None,
            },
        decreases n - i,
    {
        let v0 = b64_value_x(input[i]);
        let v1 = b64_value_x(input[i + 1]);
        let v2 = b64_value_x(input[i + 2]);
        let v3 = b64_value_x(input[i + 3]);
        proof {
            let s = input@.skip(i as int);
            assert(s.len() == n - i);
            assert(s.len() > 4 && s.len() % 4 == 0);
            assert(s[0] == input@[i as int] && s[1] == input@[i + 1] && s[2] == input@[i + 2]
                && s[3] == input@[i + 3]);
            assert(s.skip(4) =~= input@.skip(i + 4));
            assert(b64_decode(s) == match (b64_group_dec(s[0], s[1], s[2], s[3]),
            b64_decode(s.skip(4))) {
                (Some(g), Some(rest)) => Some(g + rest),
                _ => None,
            });
        }
        match (v0, v1, v2, v3) {
            (Some(v0), Some(v1), Some(v2), Some(v3)) => {
                let ghost prior = out@;
                let ghost g = seq![
                    ((v0 * 4 + v1 / 16) as u8),
                    (((v1 % 16) * 16 + v2 / 4) as u8),
                    (((v2 % 4) * 64 + v3) as u8),
                ];
                out.push(v0 * 4 + v1 / 16);
                out.push((v1 % 16) * 16 + v2 / 4);
                out.push((v2 % 4) * 64 + v3);
                proof {
                    let s = input@.skip(i as int);
                    assert(out@ =~= prior + g);
                    assert(b64_group_dec(s[0], s[1], s[2], s[3]) == Some(g));
                    if b64_decode(input@.skip(i + 4)) is Some {
                        let rest = b64_decode(input@.skip(i + 4)).unwrap();
                        assert(b64_decode(s) == Some(g + rest));
                        assert(prior + (g + rest) =~= (prior + g) + rest);
                    } else {
                        assert(b64_decode(s) is None);
                    }
                }
            },
            _ => {
                proof {
                    let s = input@.skip(i as int);
                    assert(b64_group_dec(s[0], s[1], s[2], s[3]) is None);
                    assert(b64_decode(s) is None);
                }
                return None;
            },
        }
        i = i + 4;
    }
    // the final group of four, where padding may stand
    let c0 = input[i];
    let c1 = input[i + 1];
    let c2 = input[i + 2];
    let c3 = input[i + 3];
    let ghost s = input@.skip(i as int);
    let ghost prior = out@;
    proof {
        assert(s.len() == 4);
        assert(s[0] == c0 && s[1] == c1 && s[2] == c2 && s[3] == c3);
        assert(b64_decode(s) == b64_tail_dec(s));
    }
    if c2 == 61 && c3 == 61 {
        match (b64_value_x(c0), b64_value_x(c1)) {
            (Some(v0), Some(v1)) => {
                out.push(v0 * 4 + v1 / 16);
                proof {
                    assert(b64_tail_dec(s) == Some(seq![((v0 * 4 + v1 / 16) as u8)]));
                    assert(out@ =~= prior + b64_tail_dec(s).unwrap());
                }
            },
            _ => {
                proof {
                    assert(b64_tail_dec(s) is None);
                }
                return None;
            },
        }
    } else if c3 == 61 {
        match (b64_value_x(c0), b64_value_x(c1), b64_value_x(c2)) {
            (Some(v0), Some(v1), Some(v2)) => {
                out.push(v0 * 4 + v1 / 16);
                out.push((v1 % 16) * 16 + v2 / 4);
                proof {
                    assert(b64_tail_dec(s) == Some(
                        seq![((v0 * 4 + v1 / 16) as u8), (((v1 % 16) * 16 + v2 / 4) as u8)],
                    ));
                    assert(out@ =~= prior + b64_tail_dec(s).unwrap());
                }
            },
            _ => {
                proof {
                    assert(b64_tail_dec(s) is None);
                }
                return None;
            },
        }
    } else {
        match (b64_value_x(c0), b64_value_x(c1), b64_value_x(c2), b64_value_x(c3)) {
            (Some(v0), Some(v1), Some(v2), Some(v3)) => {
                out.push(v0 * 4 + v1 / 16);
                out.push((v1 % 16) * 16 + v2 / 4);
                out.push((v2 % 4) * 64 + v3);
                proof {
                    assert(b64_tail_dec(s) == b64_group_dec(c0, c1, c2, c3));
                    assert(b64_group_dec(c0, c1, c2, c3) == Some(
                        seq![
                            ((v0 * 4 + v1 / 16) as u8),
                            (((v1 % 16) * 16 + v2 / 4) as u8),
                            (((v2 % 4) * 64 + v3) as u8),
                        ],
                    ));
                    assert(out@ =~= prior + b64_tail_dec(s).unwrap());
                }
            },
            _ => {
                proof {
                    assert(b64_group_dec(c0, c1, c2, c3) is None);
                    assert(b64_tail_dec(s) is None);
                }
                return None;
            },
        }
    }
    proof {
        assert(b64_decode(input@) == Some(out@));
    }
    Some(out)
}

/// Reading ASCII bytes as characters and re-encoding those characters to
/// UTF-8 gives the bytes back.
pub proof fn lemma_ascii_chars_bytes(bs: Seq<u8>)
    requires
        forall|i: int| 0 <= i < bs.len() ==> #[trigger] bs[i] < 128,
    ensures
        encode_utf8(bs.map_values(|b: u8| b as char)) == bs,
{
    let cs = bs.map_values(|b: u8| b as char);
    assert forall|i: int| 0 <= i < cs.len() implies '\0' <= #[trigger] cs[i] <= '\u{7f}' by {
        assert(cs[i] == bs[i] as char);
        assert(cs[i] as u32 == bs[i] as u32);
    }
    assert(vstd::utf8::is_ascii_chars(cs));
    vstd::utf8::is_ascii_chars_encode_utf8(cs);
    assert(encode_utf8(cs) =~= bs);
}

/// Law: a stored image, fetched base64-encoded and then decoded from the
/// fetched string's UTF-8 form, is the stored bytes unchanged.
pub proof fn lemma_fetched_image_decodes(bytes: Seq<u8>)
    ensures
        b64_decode(encode_utf8(b64_chars(bytes))) == Some(bytes),
{
    lemma_b64_encode_ascii(bytes);
    lemma_ascii_chars_bytes(b64_encode(bytes));
    lemma_b64_round_trip(bytes);
}

/// The characters of the base64 encoding of `b`.
pub open spec fn b64_chars(b: Seq<u8>) -> Seq<char> {
    b64_encode(b).map_values(|x: u8| x as char)
}

/// Encodes image bytes to the base64 string a fetch hands out.
pub fn encode_image(bytes: &Vec<u8>) -> (r: String)
    ensures
        r@ == b64_chars(bytes@),
{
    proof {
        lemma_b64_encode_ascii(bytes@);
    }
    let encoded = base64_encode(bytes);
    ascii_to_string(encoded)
}

/// Decodes a base64 image string to its bytes, reading the string's UTF-8
/// form; `None` exactly where it is not a padded base64 spelling.
pub fn decode_image(s: &str) -> (r: Option<Vec<u8>>)
    ensures
        match b64_decode(s.spec_bytes()) {
            Some(d) => r is Some && r.unwrap()@ == d,
            None => r is None,
        },
{
    let bytes = vstd::slice::slice_to_vec(s.as_bytes());
    base64_decode(&bytes)
}

} // verus!
