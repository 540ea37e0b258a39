//! The decoder for consumed records: a payload is rendered as text when
//! its bytes are valid text, and as a fixed-width hexadecimal rendering
//! of every byte otherwise.

use crate::record::SslEntry;
use vstd::prelude::*;
use vstd::string::{StrSliceExecFns, StringExecFns};
use vstd::utf8::{decode_utf8, encode_utf8, valid_utf8};

verus! {

/// The uppercase hexadecimal digit of a value below sixteen.
pub open spec fn hex_digit(n: u8) -> char {
    if n == 0 {
        '0'
    } else if n == 1 {
        '1'
    } else if n == 2 {
        '2'
    } else if n == 3 {
        '3'
    } else if n == 4 {
        '4'
    } else if n == 5 {
        '5'
    } else if n == 6 {
        '6'
    } else if n == 7 {
        '7'
    } else if n == 8 {
        '8'
    } else if n == 9 {
        '9'
    } else if n == 10 {
        'A'
    } else if n == 11 {
        'B'
    } else if n == 12 {
        'C'
    } else if n == 13 {
        'D'
    } else if n == 14 {
        'E'
    } else {
        'F'
    }
}

/// The value of an uppercase hexadecimal digit, and `None` for any
/// other character.
pub open spec fn hex_val(c: char) -> Option<u8> {
    if c == '0' {
        Some(0u8)
    } else if c == '1' {
        Some(1u8)
    } else if c == '2' {
        Some(2u8)
    } else if c == '3' {
        Some(3u8)
    } else if c == '4' {
        Some(4u8)
    } else if c == '5' {
        Some(5u8)
    } else if c == '6' {
        Some(6u8)
    } else if c == '7' {
        Some(7u8)
    } else if c == '8' {
        Some(8u8)
    } else if c == '9' {
        Some(9u8)
    } else if c == 'A' {
        Some(10u8)
    } else if c == 'B' {
        Some(11u8)
    } else if c == 'C' {
        Some(12u8)
    } else if c == 'D' {
        Some(13u8)
    } else if c == 'E' {
        Some(14u8)
    } else if c == 'F' {
        Some(15u8)
    } else {
        None
    }
}

/// The hexadecimal rendering of a byte sequence: two uppercase digits
/// per byte, in order.
pub open spec fn hex_of(b: Seq<u8>) -> Seq<char> {
    Seq::new(
        (2 * b.len()) as nat,
        |i: int|
            if i % 2 == 0 {
                hex_digit((b[i / 2] / 16) as u8)
            } else {
                hex_digit((b[i / 2] % 16) as u8)
            },
    )
}

/// The bytes a hexadecimal rendering stands for: `None` exactly when
/// the length is odd or some character is not an uppercase hex digit.
pub open spec fn unhex(s: Seq<char>) -> Option<Seq<u8>> {
    if s.len() % 2 != 0 {
        None
    } else if exists|j: int| 0 <= j < s.len() && hex_val(s[j]) is None {
        None
    } else {
        Some(
            Seq::new(
                s.len() / 2,
                |i: int| (hex_val(s[2 * i]).unwrap() * 16 + hex_val(s[2 * i + 1]).unwrap()) as u8,
            ),
        )
    }
}

/// Append the digit's one-character rendering to the string.
fn push_hex_digit(s: &mut String, n: u8)
    requires
        n < 16,
    ensures
        final(s)@ == old(s)@ + seq![hex_digit(n)],
{
    let d: &str = match n {
        0 => "0",
        1 => "1",
        2 => "2",
        3 => "3",
        4 => "4",
        5 => "5",
        6 => "6",
        7 => "7",
        8 => "8",
        9 => "9",
        10 => "A",
        11 => "B",
        12 => "C",
        13 => "D",
        14 => "E",
        _ => "F",
    };
    proof {
        reveal_strlit("0");
        reveal_strlit("1");
        reveal_strlit("2");
        reveal_strlit("3");
        reveal_strlit("4");
        reveal_strlit("5");
        reveal_strlit("6");
        reveal_strlit("7");
        reveal_strlit("8");
        reveal_strlit("9");
        reveal_strlit("A");
        reveal_strlit("B");
        reveal_strlit("C");
        reveal_strlit("D");
        reveal_strlit("E");
        reveal_strlit("F");
        assert(d@ =~= seq![hex_digit(n)]);
    }
    s.append(d);
}

/// The hexadecimal rendering of the bytes, as the fallback output for a
/// payload that is not valid text.
pub fn hex_encode(data: &[u8]) -> (r: String)
    ensures
        r@ == hex_of(data@),
{
    let mut out: String = String::new();
    let mut i: usize = 0;
    while i < data.len()
        invariant
            i <= data@.len(),
            out@ == hex_of(data@.subrange(0, i as int)),
        decreases data@.len() - i,
    {
        let b: u8 = data[i];
        let hi: u8 = b / 16;
        let lo: u8 = b % 16;
        push_hex_digit(&mut out, hi);
        push_hex_digit(&mut out, lo);
        proof {
            assert(out@ =~= hex_of(data@.subrange(0, i as int + 1)));
        }
        i = i + 1;
    }
    proof {
        assert(data@.subrange(0, data@.len() as int) =~= data@);
    }
    out
}

/// The value of one character as an uppercase hexadecimal digit.
fn hex_val_char(c: char) -> (r: Option<u8>)
    ensures
        r == hex_val(c),
{
    match c {
        '0' => Some(0),
        '1' => Some(1),
        '2' => Some(2),
        '3' => Some(3),
        '4' => Some(4),
        '5' => Some(5),
        '6' => Some(6),
        '7' => Some(7),
        '8' => Some(8),
        '9' => Some(9),
        'A' => Some(10),
        'B' => Some(11),
        'C' => Some(12),
        'D' => Some(13),
        'E' => Some(14),
        'F' => Some(15),
        _ => None,
    }
}

/// Decode a hexadecimal rendering back to its bytes. `None` exactly
/// when the input is not such a rendering: odd length, or a character
/// that is no uppercase hex digit.
pub fn hex_decode(s: &str) -> (r: Option<Vec<u8>>)
    ensures
        match r {
            Some(v) => unhex(s@) == Some(v@),
            None => unhex(s@) is None,
        },
{
    let n: usize = s.unicode_len();
    if n % 2 != 0 {
        return None;
    }
    let half: usize = n / 2;
    let mut out: Vec<u8> = Vec::new();
    let mut i: usize = 0;
    while i < half
        invariant
            n == s@.len(),
            n % 2 == 0,
            half == n / 2,
            i <= half,
            out@.len() == i,
            forall|j: int| 0 <= j < 2 * i ==> hex_val(s@[j]) is Some,
            forall|j: int|
                0 <= j < i ==> out@[j] == (hex_val(s@[2 * j]).unwrap() * 16 + hex_val(
                    s@[2 * j + 1],
                ).unwrap()) as u8,
        decreases half - i,
    {
        proof {
            assert(2 * i + 1 < n);
        }
        let c1: char = s.get_char(2 * i);
        let c2: char = s.get_char(2 * i + 1);
        let v1: Option<u8> = hex_val_char(c1);
        let v2: Option<u8> = hex_val_char(c2);
        match (v1, v2) {
            (Some(a), Some(b)) => {
                out.push(a * 16 + b);
            },
            _ => {
                proof {
                    assert(hex_val(s@[2 * i]) is None || hex_val(s@[2 * i + 1]) is None);
                    assert(unhex(s@) is None);
                }
                return None;
            },
        }
        i = i + 1;
    }
    proof {
        assert(forall|j: int| 0 <= j < s@.len() ==> hex_val(s@[j]) is Some);
        assert(unhex(s@) matches Some(v) && v =~= out@);
    }
    Some(out)
}

/// Decoding the hexadecimal rendering of any bytes yields the original
/// bytes exactly: the fallback path of the decoder loses nothing.
pub proof fn lemma_hex_round_trip(b: Seq<u8>)
    ensures
        unhex(hex_of(b)) == Some(b),
{
    let h = hex_of(b);
    assert(forall|j: int| 0 <= j < h.len() ==> hex_val(#[trigger] h[j]) is Some);
    let v = unhex(h).unwrap();
    assert(v =~= b);
}

/// A payload that is the encoding of a text decodes, via the text path,
/// to that text exactly, byte for byte.
pub proof fn lemma_text_round_trip(chars: Seq<char>)
    ensures
        valid_utf8(encode_utf8(chars)),
        decode_utf8(encode_utf8(chars)) == chars,
{
    vstd::utf8::encode_utf8_valid_utf8(chars);
    vstd::utf8::encode_utf8_decode_utf8(chars);
}

/// One decoded payload, ready for the sink: the text itself, or the
/// hexadecimal fallback for bytes that are not valid text.
#[derive(Debug, PartialEq, Eq)]
pub enum Decoded {
    Text(String),
    Hex(String),
}

/// What the decoder promises of its output for a given payload.
pub open spec fn spec_decoded(data: Seq<u8>, d: Decoded) -> bool {
    if valid_utf8(data) {
        d matches Decoded::Text(s) && s@ == decode_utf8(data)
    } else {
        d matches Decoded::Hex(h) && h@ == hex_of(data)
    }
}

/// Relies on str::from_utf8: it returns the string reading of the bytes
/// exactly when they are a valid UTF-8 encoding, and an error otherwise.
#[verifier::external_body]
fn utf8_to_string(b: &[u8]) -> (r: Option<String>)
    ensures
        match r {
            Some(s) => valid_utf8(b@) && s@ == decode_utf8(b@),
            None => !valid_utf8(b@),
        },
{
    match core::str::from_utf8(b) {
        Ok(s) => Some(s.to_owned()),
        Err(_) => None,
    }
}

/// Decode one payload: interpretation as text where the bytes allow it,
/// the hexadecimal rendering of every byte where they do not.
pub fn decode_payload(data: &[u8]) -> (r: Decoded)
    ensures
        spec_decoded(data@, r),
{
    match utf8_to_string(data) {
        Some(s) => Decoded::Text(s),
        None => Decoded::Hex(hex_encode(data)),
    }
}

/// The consumer's step for one received record: a record with no
/// payload is skipped; any other is decoded, text first, hexadecimal as
/// the fallback.
pub fn record_output(e: &SslEntry) -> (r: Option<Decoded>)
    requires
        e.wf(),
    ensures
        (r is None) == (e.size == 0),
        r matches Some(d) ==> spec_decoded(e.payload(), d),
{
    if e.size == 0 {
        None
    } else {
        let p: Vec<u8> = e.payload_bytes();
        Some(decode_payload(p.as_slice()))
    }
}

impl Decoded {
    /// The display form handed to the sink: the text itself, or the hex
    /// digits behind a marker for payloads that were not valid text.
    pub fn render(&self) -> (r: String)
        ensures
            self matches Decoded::Text(s) ==> r@ == s@,
            self matches Decoded::Hex(h) ==> r@ == "[HEX] "@ + h@,
    {
        match self {
            Decoded::Text(s) => (*s).clone(),
            Decoded::Hex(h) => {
                let mut out: String = String::from_str("[HEX] ");
                out.append(h.as_str());
                out
            },
        }
    }
}

} // verus!
