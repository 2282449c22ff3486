//! Lowercase hexadecimal encoding of bytes and its inverse.
use vstd::prelude::*;
use vstd::utf8::{encode_utf8, is_ascii_chars, is_ascii_chars_encode_utf8};

use crate::text::{push_char, utf8};

verus! {

/// The lowercase hexadecimal digit for a value below sixteen.
pub open spec fn hex_digit(n: int) -> char
    recommends
        0 <= n < 16,
{
    if n < 10 {
        (48 + n) as char
    } else {
        (87 + n) as char
    }
}

/// Two lowercase hexadecimal digits per byte, high nibble first.
pub open spec fn hex_text(bytes: Seq<u8>) -> Seq<char> {
    Seq::new(
        2 * bytes.len(),
        |i: int|
            if i % 2 == 0 {
                hex_digit((bytes[i / 2] / 16) as int)
            } else {
                hex_digit((bytes[i / 2] % 16) as int)
            },
    )
}

/// The value of one hexadecimal digit byte, in either case.
pub open spec fn hex_value(b: u8) -> Option<u8> {
    if 48 <= b <= 57 {
        Some((b - 48) as u8)
    } else if 97 <= b <= 102 {
        Some((b - 87) as u8)
    } else if 65 <= b <= 70 {
        Some((b - 55) as u8)
    } else {
        None
    }
}

/// The bytes a hexadecimal text denotes, when it is an even run of digits.
pub open spec fn hex_decoded(text: Seq<u8>) -> Option<Seq<u8>> {
    if text.len() % 2 != 0 {
        None
    } else if exists|i: int| 0 <= i < text.len() && #[trigger] hex_value(text[i]) is None {
        None
    } else {
        Some(
            Seq::new(
                text.len() / 2,
                |i: int| (hex_value(text[2 * i])->0 * 16 + hex_value(text[2 * i + 1])->0) as u8,
            ),
        )
    }
}

fn hex_digit_exec(n: u8) -> (c: char)
    requires
        n < 16,
    ensures
        c == hex_digit(n as int),
        '0' <= c <= '9' || 'a' <= c <= 'f',
{
    if n < 10 {
        (48u8 + n) as char
    } else {
        (87u8 + n) as char
    }
}

/// Renders bytes as lowercase hexadecimal.
pub fn lower_hex(bytes: &[u8]) -> (s: String)
    ensures
        s@ == hex_text(bytes@),
{
    let mut s = String::new();
    let mut i: usize = 0;
    while i < bytes.len()
        invariant
            i <= bytes.len(),
            s@ =~= hex_text(bytes@.subrange(0, i as int)),
        decreases bytes.len() - i,
    {
        let b = bytes[i];
        let hi = b >> 4;
        let lo = b & 0x0f;
        assert(hi == b / 16 && lo == b % 16) by (bit_vector)
            requires
                hi == b >> 4,
                lo == b & 0x0f,
        ;
        push_char(&mut s, hex_digit_exec(hi));
        push_char(&mut s, hex_digit_exec(lo));
        proof {
            let prev = bytes@.subrange(0, i as int);
            let next = bytes@.subrange(0, i + 1);
            assert forall|k: int| 0 <= k < 2 * next.len() implies s@[k] == hex_text(next)[k] by {
                if k < 2 * prev.len() {
                    assert(next[k / 2] == prev[k / 2]);
                }
            }
        }
        i = i + 1;
    }
    assert(bytes@.subrange(0, bytes@.len() as int) =~= bytes@);
    s
}

fn hex_value_exec(b: u8) -> (r: Option<u8>)
    ensures
        r == hex_value(b),
{
    if 48 <= b && b <= 57 {
        Some(b - 48)
    } else if 97 <= b && b <= 102 {
        Some(b - 87)
    } else if 65 <= b && b <= 70 {
        Some(b - 55)
    } else {
        None
    }
}

/// Decodes an even-length run of hexadecimal digits of either case.
pub fn decode_hex(value: &str) -> (r: Option<Vec<u8>>)
    ensures
        r matches Some(v) ==> hex_decoded(utf8(value@)) == Some(v@),
        r is None ==> hex_decoded(utf8(value@)) is None,
{
    let text = value.as_bytes();
    if text.len() % 2 != 0 {
        return None;
    }
    let mut out: Vec<u8> = Vec::new();
    let mut i: usize = 0;
    while i < text.len() / 2
        invariant
            text@ == utf8(value@),
            text.len() % 2 == 0,
            i <= text.len() / 2,
            out@.len() == i,
            forall|j: int| 0 <= j < 2 * i ==> #[trigger] hex_value(text@[j]) is Some,
            forall|j: int|
                0 <= j < i ==> #[trigger] out@[j] == (hex_value(text@[2 * j])->0 * 16 + hex_value(
                    text@[2 * j + 1],
                )->0) as u8,
        decreases text.len() / 2 - i,
    {
        let high = hex_value_exec(text[2 * i]);
        let low = hex_value_exec(text[2 * i + 1]);
        match (high, low) {
            (Some(h), Some(l)) => {
                out.push(h * 16 + l);
            },
            _ => {
                assert(hex_value(text@[2 * i as int]) is None || hex_value(text@[2 * i + 1]) is None);
                return None;
            },
        }
        i = i + 1;
    }
    proof {
        assert forall|j: int| 0 <= j < text@.len() implies #[trigger] hex_value(text@[j]) is Some by {
        }
        let d = hex_decoded(text@);
        assert(d->0 =~= out@);
    }
    Some(out)
}

/// The hexadecimal rendering is plain ASCII, one byte per character.
pub proof fn lemma_hex_text_ascii(bytes: Seq<u8>)
    ensures
        is_ascii_chars(hex_text(bytes)),
        utf8(hex_text(bytes)).len() == hex_text(bytes).len(),
        forall|i: int|
            0 <= i < hex_text(bytes).len() ==> #[trigger] utf8(hex_text(bytes))[i] == hex_text(
                bytes,
            )[i] as u8,
{
    let t = hex_text(bytes);
    assert forall|i: int| 0 <= i < t.len() implies '\0' <= #[trigger] t[i] <= '\u{7f}' by {
        let n = if i % 2 == 0 {
            bytes[i / 2] / 16
        } else {
            bytes[i / 2] % 16
        };
        assert(0 <= n < 16);
    }
    is_ascii_chars_encode_utf8(t);
}

/// Decoding the lowercase rendering of any bytes gives those bytes back.
pub proof fn lemma_decode_lower_hex(bytes: Seq<u8>)
    ensures
        hex_decoded(utf8(hex_text(bytes))) == Some(bytes),
{
    let t = hex_text(bytes);
    let e = utf8(t);
    lemma_hex_text_ascii(bytes);
    assert forall|i: int| 0 <= i < e.len() implies #[trigger] hex_value(e[i]) is Some
        && hex_value(e[i])->0 == (if i % 2 == 0 {
        bytes[i / 2] / 16
    } else {
        bytes[i / 2] % 16
    }) by {
        let n = if i % 2 == 0 {
            bytes[i / 2] / 16
        } else {
            bytes[i / 2] % 16
        };
        assert(e[i] == t[i] as u8);
        assert(0 <= n < 16);
    }
    assert(!(exists|i: int| 0 <= i < e.len() && #[trigger] hex_value(e[i]) is None));
    let d = hex_decoded(e)->0;
    assert forall|j: int| 0 <= j < bytes.len() implies d[j] == bytes[j] by {
        assert(hex_value(e[2 * j])->0 == bytes[j] / 16);
        assert(hex_value(e[2 * j + 1])->0 == bytes[j] % 16);
    }
    assert(d =~= bytes);
}

} // verus!
