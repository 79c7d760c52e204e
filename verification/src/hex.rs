//! Lower-case hexadecimal text for byte strings, and reading it back.
use vstd::prelude::*;

use crate::text::string_of;
use vstd::string::StringSliceAdditionalSpecFns;

verus! {

/// The lower-case hex digit for `n` (0 to 15).
pub open spec fn hex_digit(n: int) -> char {
    if n < 10 {
        ((n + 48) as u32) as char
    } else {
        ((n + 87) as u32) as char
    }
}

/// Each byte as two lower-case hex digits (`{:02x}`), in order.
pub open spec fn hex_text(b: Seq<u8>) -> Seq<char> {
    Seq::new(
        2 * b.len(),
        |i: int|
            if i % 2 == 0 {
                hex_digit((b[i / 2] / 16) as int)
            } else {
                hex_digit((b[i / 2] % 16) as int)
            },
    )
}

/// The value of one hex digit byte (`0-9`, `a-f`, `A-F`).
pub open spec fn hex_value(c: u8) -> Option<int> {
    if 48 <= c <= 57 {
        Some(c - 48)
    } else if 97 <= c <= 102 {
        Some(c - 87)
    } else if 65 <= c <= 70 {
        Some(c - 55)
    } else {
        None
    }
}

/// What `u8::from_str_radix(.., 16)` gives for a two-byte text: two hex
/// digits, or a `+` sign followed by one.
pub open spec fn hex_pair(b0: u8, b1: u8) -> Option<u8> {
    if b0 == 43 {
        match hex_value(b1) {
            Some(v) => Some(v as u8),
            None => None,
        }
    } else {
        match (hex_value(b0), hex_value(b1)) {
            (Some(h), Some(l)) => Some((16 * h + l) as u8),
            _ => None,
        }
    }
}

/// The bytes that the hex text `s` (UTF-8 bytes) spells two at a time, or
/// `None` when its length is odd or a pair is not a hex byte.
pub open spec fn hex_decoded(s: Seq<u8>) -> Option<Seq<u8>> {
    if s.len() % 2 != 0 {
        None
    } else if forall|k: int| 0 <= k < s.len() / 2 ==> (#[trigger] hex_pair(s[2 * k], s[2 * k + 1])) is Some {
        Some(Seq::new((s.len() / 2) as nat, |k: int| hex_pair(s[2 * k], s[2 * k + 1])->0))
    } else {
        None
    }
}

/// Every even byte offset of `s` starts a character, so that cutting `s`
/// into two-byte pieces never splits a character.
pub open spec fn even_offsets_start_chars(s: Seq<u8>) -> bool {
    forall|k: int| 0 <= 2 * k < s.len() ==> !(0x80 <= #[trigger] s[2 * k] <= 0xbf)
}

/// The texts that `hex_to_bytes` reads without cutting a character in two:
/// those of odd byte length (refused at once) and those whose even byte
/// offsets all start characters.
pub open spec fn hex_input_ok(s: &str) -> bool {
    s.spec_bytes().len() % 2 != 0 || even_offsets_start_chars(s.spec_bytes())
}

/// Whether `hex_to_bytes` reads `s` without cutting a character (see
/// `hex_input_ok`).
pub fn hex_readable(s: &str) -> (r: bool)
    ensures
        r == hex_input_ok(s),
{
    let b = s.as_bytes();
    let n = b.len();
    if n % 2 != 0 {
        return true;
    }
    let mut i: usize = 0;
    while i < n
        invariant
            b@ == s.spec_bytes(),
            n == b@.len(),
            n % 2 == 0,
            i % 2 == 0,
            i <= n,
            forall|k: int| 0 <= 2 * k < i ==> !(0x80 <= #[trigger] b@[2 * k] <= 0xbf),
        decreases n - i,
    {
        if 0x80 <= b[i] && b[i] <= 0xbf {
            assert(b@[2 * (i as int / 2)] == b@[i as int]);
            return false;
        }
        i = i + 2;
    }
    true
}

fn hex_value_of(c: u8) -> (r: Option<u8>)
    ensures
        match hex_value(c) {
            Some(v) => r == Some(v as u8),
            None => r is None,
        },
{
    if 48 <= c && c <= 57 {
        Some(c - 48)
    } else if 97 <= c && c <= 102 {
        Some(c - 87)
    } else if 65 <= c && c <= 70 {
        Some(c - 55)
    } else {
        None
    }
}

fn hex_pair_of(b0: u8, b1: u8) -> (r: Option<u8>)
    ensures
        r == hex_pair(b0, b1),
{
    if b0 == 43 {
        hex_value_of(b1)
    } else {
        match (hex_value_of(b0), hex_value_of(b1)) {
            (Some(h), Some(l)) => Some(16 * h + l),
            _ => None,
        }
    }
}

/// Reads hex text two bytes at a time into bytes.
pub fn hex_to_bytes(hex: &str) -> (r: Option<Vec<u8>>)
    requires
        hex_input_ok(hex),
    ensures
        match hex_decoded(hex.spec_bytes()) {
            Some(b) => r matches Some(v) && v@ == b,
            None => r is None,
        },
{
    let s = hex.as_bytes();
    let n = s.len();
    if n % 2 != 0 {
        return None;
    }
    let mut out: Vec<u8> = Vec::new();
    let mut i: usize = 0;
    while i < n
        invariant
            s@ == hex.spec_bytes(),
            n == s@.len(),
            n % 2 == 0,
            i % 2 == 0,
            i <= n,
            out@.len() == i / 2,
            forall|k: int|
                0 <= k < i / 2 ==> (#[trigger] hex_pair(s@[2 * k], s@[2 * k + 1])) is Some
                    && out@[k] == hex_pair(s@[2 * k], s@[2 * k + 1])->0,
        decreases n - i,
    {
        match hex_pair_of(s[i], s[i + 1]) {
            Some(b) => {
                out.push(b);
            },
            None => {
                assert(hex_pair(s@[2 * (i as int / 2)], s@[2 * (i as int / 2) + 1]) is None);
                return None;
            },
        }
        i = i + 2;
    }
    assert(out@ =~= Seq::new((n / 2) as nat, |k: int| hex_pair(s@[2 * k], s@[2 * k + 1])->0));
    Some(out)
}

fn hex_digit_of(n: u8) -> (c: char)
    requires
        n < 16,
    ensures
        c == hex_digit(n as int),
{
    if n < 10 {
        (n + 48) as char
    } else {
        (n + 87) as char
    }
}

/// Each byte as two lower-case hex digits.
pub fn bytes_to_hex(bytes: &[u8]) -> (r: String)
    ensures
        r@ == hex_text(bytes@),
{
    let mut out: Vec<char> = Vec::new();
    let mut i: usize = 0;
    while i < bytes.len()
        invariant
            i <= bytes@.len(),
            out@ =~= hex_text(bytes@).take(2 * i as int),
        decreases bytes.len() - i,
    {
        let b = bytes[i];
        out.push(hex_digit_of(b / 16));
        out.push(hex_digit_of(b % 16));
        i = i + 1;
        assert(out@ =~= hex_text(bytes@).take(2 * i as int));
    }
    string_of(&out)
}

/// Reading back the hex text of any bytes gives those bytes again, and the
/// text is one that `hex_to_bytes` reads without cutting a character.
pub proof fn law_hex_roundtrip(b: Seq<u8>)
    ensures
        vstd::utf8::encode_utf8(hex_text(b)).len() == 2 * b.len(),
        even_offsets_start_chars(vstd::utf8::encode_utf8(hex_text(b))),
        hex_decoded(vstd::utf8::encode_utf8(hex_text(b))) == Some(b),
{
    let t = hex_text(b);
    assert(vstd::utf8::is_ascii_chars(t)) by {
        assert forall|i: int| 0 <= i < t.len() implies '\0' <= #[trigger] t[i] <= '\u{7f}' by {
            let v = if i % 2 == 0 { b[i / 2] / 16 } else { b[i / 2] % 16 };
            assert(0 <= v < 16);
        }
    }
    vstd::utf8::is_ascii_chars_encode_utf8(t);
    let e = vstd::utf8::encode_utf8(t);
    assert forall|k: int| 0 <= k < b.len() implies (#[trigger] hex_pair(e[2 * k], e[2 * k + 1]))
        == Some(b[k]) by {
        assert(e[2 * k] == t[2 * k] as u8);
        assert(e[2 * k + 1] == t[2 * k + 1] as u8);
        assert((2 * k) / 2 == k);
        assert((2 * k + 1) / 2 == k);
        assert((2 * k) % 2 == 0);
        assert((2 * k + 1) % 2 == 1);
        let h = b[k] / 16;
        let l = b[k] % 16;
        assert(b[k] == 16 * h + l);
    }
    assert forall|k: int| 0 <= 2 * k < e.len() implies !(0x80 <= #[trigger] e[2 * k] <= 0xbf) by {
        assert(e[2 * k] == t[2 * k] as u8);
    }
    assert(hex_decoded(e) == Some(b)) by {
        assert(Seq::new((e.len() / 2) as nat, |k: int| hex_pair(e[2 * k], e[2 * k + 1])->0) =~= b);
    }
}

} // verus!
