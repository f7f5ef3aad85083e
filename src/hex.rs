//! Hex text to bytes and back.
use vstd::prelude::*;
use vstd::string::StringSliceAdditionalSpecFns;
use crate::text::{push_char, upper_char, upper_seq};

verus! {

broadcast use vstd::string::is_ascii_spec_bytes;

/// A hexadecimal digit of either case.
pub open spec fn is_hex_digit(c: char) -> bool {
    ('0' <= c && c <= '9') || ('a' <= c && c <= 'f') || ('A' <= c && c <= 'F')
}

/// The value of a hexadecimal digit.
pub open spec fn digit_value(c: char) -> nat {
    if '0' <= c && c <= '9' {
        (c as nat - '0' as nat) as nat
    } else if 'a' <= c && c <= 'f' {
        (c as nat - 'a' as nat + 10) as nat
    } else {
        (c as nat - 'A' as nat + 10) as nat
    }
}

/// Text that `decode` accepts: hexadecimal digits only.
pub open spec fn is_hex_text(s: Seq<char>) -> bool {
    forall|i: int| 0 <= i < s.len() ==> is_hex_digit(#[trigger] s[i])
}

/// Byte `k` of decoded text: the pair of digits at `2k`, or a lone last digit.
pub open spec fn decoded_byte(s: Seq<char>, k: int) -> u8 {
    if 2 * k + 1 < s.len() {
        (16 * digit_value(s[2 * k]) + digit_value(s[2 * k + 1])) as u8
    } else {
        digit_value(s[2 * k]) as u8
    }
}

/// The bytes that hex text stands for, two digits per byte, most significant
/// digit first; an odd last digit stands for a byte by itself.
pub open spec fn decoded(s: Seq<char>) -> Seq<u8> {
    Seq::new(((s.len() + 1) / 2) as nat, |k: int| decoded_byte(s, k))
}

/// The lower-case digit for a value below 16.
pub open spec fn lower_digit(v: u8) -> char {
    if v < 10 {
        ((v + 48) as u8) as char
    } else {
        ((v + 87) as u8) as char
    }
}

/// Lower-case hex text of a byte sequence: two digits per byte.
pub open spec fn encoded(b: Seq<u8>) -> Seq<char> {
    Seq::new(2 * b.len(), |k: int|
        if k % 2 == 0 { lower_digit(b[k / 2] / 16) } else { lower_digit(b[k / 2] % 16) })
}

fn byte_value(b: u8) -> (r: Option<u8>)
    ensures
        r is Some <==> is_hex_digit(b as char),
        r is Some ==> r->0 as nat == digit_value(b as char),
{
    if 48 <= b && b <= 57 {
        Some(b - 48)
    } else if 97 <= b && b <= 102 {
        Some(b - 87)
    } else if 65 <= b && b <= 70 {
        Some(b - 55)
    } else {
        None
    }
}

/// Decodes hex text into bytes; `None` when it holds anything but hex digits.
pub fn decode(hex: &str) -> (r: Option<Vec<u8>>)
    ensures
        r is Some <==> is_hex_text(hex@),
        r is Some ==> r->0@ == decoded(hex@),
{
    if !hex.is_ascii() {
        proof {
            vstd::utf8::is_ascii_chars_nat_bound(hex@);
        }
        assert(!is_hex_text(hex@)) by {
            if is_hex_text(hex@) {
                assert(vstd::utf8::is_ascii_chars(hex@));
            }
        }
        return None;
    }
    let bytes = hex.as_bytes();
    let n = bytes.len();
    assert(n == hex@.len());
    let mut out: Vec<u8> = Vec::new();
    let mut i: usize = 0;
    while i < n
        invariant
            n == hex@.len(),
            bytes@ == hex.spec_bytes(),
            hex.spec_bytes() =~= Seq::new(hex@.len(), |j: int| hex@[j] as u8),
            vstd::utf8::is_ascii_chars(hex@),
            i % 2 == 0,
            i <= n,
            out@.len() == i / 2,
            forall|j: int| 0 <= j < i && j < n ==> is_hex_digit(#[trigger] hex@[j]),
            forall|k: int| 0 <= k < out@.len() ==> out@[k] == decoded_byte(hex@, k),
        decreases n - i,
    {
        assert((bytes@[i as int] as char) == hex@[i as int]);
        let hi = match byte_value(bytes[i]) {
            Some(v) => v,
            None => return None,
        };
        if i + 1 < n {
            assert((bytes@[i + 1] as char) == hex@[i + 1]);
            let lo = match byte_value(bytes[i + 1]) {
                Some(v) => v,
                None => return None,
            };
            out.push(16 * hi + lo);
            i = i + 2;
        } else {
            out.push(hi);
            assert(out@ =~= decoded(hex@));
            return Some(out);
        }
    }
    assert(out@ =~= decoded(hex@));
    Some(out)
}

fn digit_char(v: u8) -> (c: char)
    requires
        v < 16,
    ensures
        c == lower_digit(v),
{
    if v < 10 {
        (v + 48) as char
    } else {
        (v + 87) as char
    }
}

/// Encodes bytes as lower-case hex text, two digits per byte.
pub fn encode(input: &[u8]) -> (r: String)
    ensures
        r@ == encoded(input@),
{
    let mut r = String::new();
    let mut i: usize = 0;
    while i < input.len()
        invariant
            i <= input@.len(),
            r@ =~= encoded(input@.take(i as int)),
        decreases input@.len() - i,
    {
        let b = input[i];
        push_char(&mut r, digit_char(b / 16));
        push_char(&mut r, digit_char(b % 16));
        assert(input@.take(i + 1) =~= input@.take(i as int).push(b));
        assert(r@ =~= encoded(input@.take(i + 1)));
        i = i + 1;
    }
    assert(input@.take(i as int) =~= input@);
    r
}

proof fn lemma_digit_round_trip(c: char)
    requires
        is_hex_digit(c),
    ensures
        digit_value(c) < 16,
        upper_char(lower_digit(digit_value(c) as u8)) == upper_char(c),
{
}

/// Decoding hex text of even length and encoding the bytes again gives the
/// text back, up to the case of its letters.
pub proof fn lemma_hex_case_round_trip(s: Seq<char>)
    requires
        is_hex_text(s),
        s.len() % 2 == 0,
    ensures
        upper_seq(encoded(decoded(s))) == upper_seq(s),
{
    let d = decoded(s);
    let e = encoded(d);
    assert(e.len() == s.len());
    assert forall|k: int| 0 <= k < s.len() implies upper_char(#[trigger] e[k]) == upper_char(s[k]) by {
        let j = k / 2;
        let a = digit_value(s[2 * j]);
        let b = digit_value(s[2 * j + 1]);
        lemma_digit_round_trip(s[2 * j]);
        lemma_digit_round_trip(s[2 * j + 1]);
        assert(d[j] == (16 * a + b) as u8);
        assert((16 * a + b) / 16 == a && (16 * a + b) % 16 == b) by (nonlinear_arith)
            requires a < 16, b < 16;
        if k % 2 == 0 {
            assert(k == 2 * j);
        } else {
            assert(k == 2 * j + 1);
        }
    }
    assert(upper_seq(e) =~= upper_seq(s));
}

} // verus!
