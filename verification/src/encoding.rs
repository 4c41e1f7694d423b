//! Standard base64 (RFC 4648: the `A-Z a-z 0-9 + /` alphabet with `=`
//! padding), the text that Discord takes inside an image data URI.

use vstd::prelude::*;

verus! {

/// The base64 digit of a six-bit value.
pub open spec fn b64_digit(v: int) -> char {
    if v < 26 {
        (v + 65) as char
    } else if v < 52 {
        (v + 71) as char
    } else if v < 62 {
        (v - 4) as char
    } else if v == 62 {
        '+'
    } else {
        '/'
    }
}

/// The standard, padded base64 text of `bytes`: each group of three bytes
/// becomes four digits of six bits each, a last group of one or two bytes
/// is filled up with zero bits and `=` signs.
pub open spec fn base64_of(bytes: Seq<u8>) -> Seq<char>
    decreases bytes.len(),
{
    if bytes.len() == 0 {
        seq![]
    } else if bytes.len() == 1 {
        let n = bytes[0] as int;
        seq![b64_digit(n / 4), b64_digit((n % 4) * 16), '=', '=']
    } else if bytes.len() == 2 {
        let n = bytes[0] as int * 256 + bytes[1] as int;
        seq![b64_digit(n / 1024), b64_digit((n / 16) % 64), b64_digit((n % 16) * 4), '=']
    } else {
        let n = bytes[0] as int * 65536 + bytes[1] as int * 256 + bytes[2] as int;
        seq![
            b64_digit(n / 262144),
            b64_digit((n / 4096) % 64),
            b64_digit((n / 64) % 64),
            b64_digit(n % 64),
        ] + base64_of(bytes.skip(3))
    }
}

/// `c` is one of the 64 base64 digits.
pub open spec fn is_b64_digit(c: char) -> bool {
    ('A' <= c && c <= 'Z') || ('a' <= c && c <= 'z') || ('0' <= c && c <= '9') || c == '+' || c
        == '/'
}

/// The six-bit value of a base64 digit.
pub open spec fn b64_value(c: char) -> int {
    if 'A' <= c && c <= 'Z' {
        c as int - 65
    } else if 'a' <= c && c <= 'z' {
        c as int - 71
    } else if '0' <= c && c <= '9' {
        c as int + 4
    } else if c == '+' {
        62
    } else {
        63
    }
}

/// The bytes of a padded base64 text, read four digits at a time.
pub open spec fn base64_decoded(s: Seq<char>) -> Seq<u8>
    decreases s.len(),
{
    if s.len() < 4 {
        seq![]
    } else {
        let v0 = b64_value(s[0]);
        let v1 = b64_value(s[1]);
        let v2 = b64_value(s[2]);
        let v3 = b64_value(s[3]);
        if s[2] == '=' {
            seq![(v0 * 4 + v1 / 16) as u8]
        } else if s[3] == '=' {
            let n = v0 * 1024 + v1 * 16 + v2 / 4;
            seq![(n / 256) as u8, (n % 256) as u8]
        } else {
            let n = v0 * 262144 + v1 * 4096 + v2 * 64 + v3;
            seq![(n / 65536) as u8, ((n / 256) % 256) as u8, (n % 256) as u8] + base64_decoded(
                s.skip(4),
            )
        }
    }
}

/// The inputs on which `base64::encode` can size its output buffer.
pub open spec fn base64_fits(len: nat) -> bool {
    4 * ((len + 2) / 3) <= usize::MAX
}

/// Calls `base64::encode`, which encodes with the standard alphabet and
/// padding. Trusted: the text is `base64_of(bytes)`. `encode` panics when
/// the length of its output overflows `usize`, which `requires` leaves out.
#[verifier::external_body]
pub(crate) fn base64_encode(bytes: &[u8]) -> (s: String)
    requires
        base64_fits(bytes@.len()),
    ensures
        s@ == base64_of(bytes@),
{
    base64::encode(bytes)
}

proof fn lemma_digit(v: int)
    requires
        0 <= v < 64,
    ensures
        is_b64_digit(b64_digit(v)),
        b64_digit(v) != '=',
        b64_value(b64_digit(v)) == v,
{
}

/// The base64 text of `n` bytes has `4 * ceil(n / 3)` characters.
pub proof fn lemma_base64_len(bytes: Seq<u8>)
    ensures
        base64_of(bytes).len() == 4 * ((bytes.len() + 2) / 3),
    decreases bytes.len(),
{
    if bytes.len() >= 3 {
        lemma_base64_len(bytes.skip(3));
    }
}

/// Every character of a base64 text is a base64 digit or a `=` of the
/// padding, which stands only in the last two places.
pub proof fn lemma_base64_alphabet(bytes: Seq<u8>)
    ensures
        forall|i: int|
            0 <= i < base64_of(bytes).len() ==> is_b64_digit(#[trigger] base64_of(bytes)[i]) || (
            base64_of(bytes)[i] == '=' && i >= base64_of(bytes).len() - 2),
    decreases bytes.len(),
{
    let s = base64_of(bytes);
    if bytes.len() == 1 {
        let n = bytes[0] as int;
        lemma_digit(n / 4);
        lemma_digit((n % 4) * 16);
    } else if bytes.len() == 2 {
        let n = bytes[0] as int * 256 + bytes[1] as int;
        lemma_digit(n / 1024);
        lemma_digit((n / 16) % 64);
        lemma_digit((n % 16) * 4);
    } else if bytes.len() >= 3 {
        let n = bytes[0] as int * 65536 + bytes[1] as int * 256 + bytes[2] as int;
        lemma_digit(n / 262144);
        lemma_digit((n / 4096) % 64);
        lemma_digit((n / 64) % 64);
        lemma_digit(n % 64);
        lemma_base64_alphabet(bytes.skip(3));
        let rest = base64_of(bytes.skip(3));
        assert forall|i: int|
            0 <= i < s.len() implies is_b64_digit(#[trigger] s[i]) || (s[i] == '=' && i >= s.len()
            - 2) by {
            if i >= 4 {
                assert(s[i] == rest[i - 4]);
            }
        }
    }
}

proof fn lemma_group3(b0: int, b1: int, b2: int)
    requires
        0 <= b0 < 256,
        0 <= b1 < 256,
        0 <= b2 < 256,
    ensures
        ({
            let n = b0 * 65536 + b1 * 256 + b2;
            let m = (n / 262144) * 262144 + ((n / 4096) % 64) * 4096 + ((n / 64) % 64) * 64 + n
                % 64;
            &&& 0 <= n / 262144 < 64
            &&& m == n
            &&& m / 65536 == b0
            &&& (m / 256) % 256 == b1
            &&& m % 256 == b2
        }),
{
    let n = b0 * 65536 + b1 * 256 + b2;
    assert(0 <= n < 16777216) by (nonlinear_arith)
        requires
            0 <= b0 < 256,
            0 <= b1 < 256,
            0 <= b2 < 256,
            n == b0 * 65536 + b1 * 256 + b2,
    ;
    assert((n / 262144) * 262144 + ((n / 4096) % 64) * 4096 + ((n / 64) % 64) * 64 + n % 64 == n)
        by (nonlinear_arith)
        requires
            0 <= n,
    ;
    assert(n / 65536 == b0 && (n / 256) % 256 == b1 && n % 256 == b2) by (nonlinear_arith)
        requires
            0 <= b0 < 256,
            0 <= b1 < 256,
            0 <= b2 < 256,
            n == b0 * 65536 + b1 * 256 + b2,
    ;
}

/// Reading a base64 text back gives the bytes it was made of.
pub proof fn lemma_base64_round_trip(bytes: Seq<u8>)
    ensures
        base64_decoded(base64_of(bytes)) == bytes,
    decreases bytes.len(),
{
    let s = base64_of(bytes);
    if bytes.len() == 0 {
        assert(base64_decoded(s) =~= bytes);
    } else if bytes.len() == 1 {
        let n = bytes[0] as int;
        lemma_digit(n / 4);
        lemma_digit((n % 4) * 16);
        assert((n / 4) * 4 + ((n % 4) * 16) / 16 == n);
        assert(base64_decoded(s) =~= bytes);
    } else if bytes.len() == 2 {
        let n = bytes[0] as int * 256 + bytes[1] as int;
        lemma_digit(n / 1024);
        lemma_digit((n / 16) % 64);
        lemma_digit((n % 16) * 4);
        let m = (n / 1024) * 1024 + ((n / 16) % 64) * 16 + ((n % 16) * 4) / 4;
        assert(m == n && m / 256 == bytes[0] && m % 256 == bytes[1]) by (nonlinear_arith)
            requires
                n == bytes[0] as int * 256 + bytes[1] as int,
                0 <= bytes[0] < 256,
                0 <= bytes[1] < 256,
                m == (n / 1024) * 1024 + ((n / 16) % 64) * 16 + ((n % 16) * 4) / 4,
        ;
        assert(base64_decoded(s) =~= bytes);
    } else {
        let n = bytes[0] as int * 65536 + bytes[1] as int * 256 + bytes[2] as int;
        lemma_group3(bytes[0] as int, bytes[1] as int, bytes[2] as int);
        lemma_digit(n / 262144);
        lemma_digit((n / 4096) % 64);
        lemma_digit((n / 64) % 64);
        lemma_digit(n % 64);
        lemma_base64_round_trip(bytes.skip(3));
        let rest = base64_of(bytes.skip(3));
        assert(s.skip(4) =~= rest);
        assert(base64_decoded(s) =~= bytes);
    }
}

} // verus!
