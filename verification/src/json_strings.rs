//! What stands between the quotes of a JSON string, and the text that it writes.
use vstd::prelude::*;
use vstd::utf8::{encode_utf8, is_scalar};
use crate::json_text::{json_escape, json_escaped};
use crate::text::{chars_of, hex_char, text_in_bytes, text_of_bytes};

verus! {

/// The value of a hexadecimal digit.
pub open spec fn hex_digit_value(c: char) -> Option<u32> {
    if '0' <= c <= '9' {
        Some((c as u32 - 0x30) as u32)
    } else if 'A' <= c <= 'F' {
        Some((c as u32 - 0x37) as u32)
    } else if 'a' <= c <= 'f' {
        Some((c as u32 - 0x57) as u32)
    } else {
        None
    }
}

/// The number that the four hexadecimal digits at `i` write.
pub open spec fn code_unit(s: Seq<char>, i: int) -> Option<u32> {
    if i < 0 || i + 4 > s.len() {
        None
    } else {
        match (
            hex_digit_value(s[i]),
            hex_digit_value(s[i + 1]),
            hex_digit_value(s[i + 2]),
            hex_digit_value(s[i + 3]),
        ) {
            (Some(a), Some(b), Some(c), Some(d)) => Some(
                (a * 0x1000 + b * 0x100 + c * 0x10 + d) as u32,
            ),
            _ => None,
        }
    }
}

/// Whether a number is the first half of a surrogate pair.
pub open spec fn is_high_half(n: u32) -> bool {
    0xd800 <= n <= 0xdbff
}

/// Whether a number is the second half of a surrogate pair.
pub open spec fn is_low_half(n: u32) -> bool {
    0xdc00 <= n <= 0xdfff
}

/// The code point that a surrogate pair stands for.
pub open spec fn paired(high: u32, low: u32) -> u32 {
    (0x10000 + (high - 0xd800) * 0x400 + (low - 0xdc00)) as u32
}

/// The character that stands for a half of a surrogate pair without the other.
pub const REPLACEMENT: char = '\u{fffd}';

/// What a letter after a backslash stands for; any other character stands for
/// itself.
pub open spec fn letter_escape(c: char) -> char {
    if c == 'b' {
        '\u{8}'
    } else if c == 'f' {
        '\u{c}'
    } else if c == 'n' {
        '\n'
    } else if c == 'r' {
        '\r'
    } else if c == 't' {
        '\t'
    } else {
        c
    }
}

/// The character that the escape with the number `unit` at `i` stands for, and
/// how many characters the escape takes.
pub open spec fn unit_escape(s: Seq<char>, i: int, unit: u32) -> (char, int) {
    if is_high_half(unit) && i + 8 <= s.len() && s[i + 6] == '\\' && s[i + 7] == 'u' && (code_unit(
        s,
        i + 8,
    ) matches Some(low) && is_low_half(low)) {
        (paired(unit, code_unit(s, i + 8)->0) as char, 12)
    } else if is_high_half(unit) || is_low_half(unit) {
        (REPLACEMENT, 6)
    } else {
        (unit as char, 6)
    }
}

/// The character that is written at `i`, and how many characters that takes.
/// Where `\u` is not followed by four digits, it stands for its letter.
pub open spec fn character_at(s: Seq<char>, i: int) -> (char, int) {
    if s[i] != '\\' || i + 1 >= s.len() {
        (s[i], 1)
    } else if s[i + 1] == 'u' {
        match code_unit(s, i + 2) {
            Some(unit) => unit_escape(s, i, unit),
            None => ('u', 2),
        }
    } else {
        (letter_escape(s[i + 1]), 2)
    }
}

/// The text that is written from `i` on.
pub open spec fn unescaped_from(s: Seq<char>, i: int) -> Seq<char>
    decreases s.len() - i,
{
    if i < 0 || i >= s.len() {
        Seq::empty()
    } else {
        let (c, n) = character_at(s, i);
        seq![c] + unescaped_from(s, i + n)
    }
}

/// The text that some bytes between quotes write.
pub open spec fn content(raw: Seq<u8>) -> Seq<char> {
    unescaped_from(text_in_bytes(raw), 0)
}

/// The value of a hexadecimal digit.
fn hex_digit(c: char) -> (r: Option<u32>)
    ensures
        r == hex_digit_value(c),
        r matches Some(d) ==> d < 16,
{
    if '0' <= c && c <= '9' {
        Some(c as u32 - 0x30)
    } else if 'A' <= c && c <= 'F' {
        Some(c as u32 - 0x37)
    } else if 'a' <= c && c <= 'f' {
        Some(c as u32 - 0x57)
    } else {
        None
    }
}

/// The number that the four hexadecimal digits at `i` write.
fn read_unit(v: &Vec<char>, i: usize) -> (r: Option<u32>)
    ensures
        r == code_unit(v@, i as int),
        r matches Some(n) ==> n < 0x10000,
{
    if i >= v.len() || v.len() - i < 4 {
        return None;
    }
    match (hex_digit(v[i]), hex_digit(v[i + 1]), hex_digit(v[i + 2]), hex_digit(v[i + 3])) {
        (Some(a), Some(b), Some(c), Some(d)) => Some(a * 0x1000 + b * 0x100 + c * 0x10 + d),
        _ => None,
    }
}

/// The character of a code point that is none of a surrogate's.
fn scalar_char(n: u32) -> (c: char)
    requires
        is_scalar(n),
    ensures
        c == n as char,
{
    match char::from_u32(n) {
        Some(c) => {
            proof {
                vstd::utf8::char_u32_cast(c, n);
            }
            c
        },
        None => REPLACEMENT,
    }
}

/// The character that is written at `i`, and how many characters that takes.
fn read_character(v: &Vec<char>, i: usize) -> (r: (char, usize))
    requires
        i < v@.len(),
    ensures
        r.0 == character_at(v@, i as int).0,
        r.1 == character_at(v@, i as int).1,
        1 <= r.1 <= v@.len() - i,
{
    if v[i] != '\\' || v.len() - i < 2 {
        return (v[i], 1);
    }
    let c: char = v[i + 1];
    if c == 'u' {
        match read_unit(v, i + 2) {
            Some(unit) => {
                if 0xd800 <= unit && unit <= 0xdbff {
                    if v.len() - i >= 8 && v[i + 6] == '\\' && v[i + 7] == 'u' {
                        match read_unit(v, i + 8) {
                            Some(low) => {
                                if 0xdc00 <= low && low <= 0xdfff {
                                    let point: u32 = 0x10000 + (unit - 0xd800) * 0x400 + (low
                                        - 0xdc00);
                                    return (scalar_char(point), 12);
                                }
                            },
                            None => {},
                        }
                    }
                    (REPLACEMENT, 6)
                } else if 0xdc00 <= unit && unit <= 0xdfff {
                    (REPLACEMENT, 6)
                } else {
                    (scalar_char(unit), 6)
                }
            },
            None => ('u', 2),
        }
    } else if c == 'b' {
        ('\u{8}', 2)
    } else if c == 'f' {
        ('\u{c}', 2)
    } else if c == 'n' {
        ('\n', 2)
    } else if c == 'r' {
        ('\r', 2)
    } else if c == 't' {
        ('\t', 2)
    } else {
        (c, 2)
    }
}

/// The text that some bytes between quotes write.
pub fn read_content(raw: &[u8]) -> (r: String)
    ensures
        r@ == content(raw@),
{
    let v: Vec<char> = chars_of(text_of_bytes(raw).as_str());
    let mut out: String = String::new();
    let mut i: usize = 0;
    assert(out@ + unescaped_from(v@, 0) =~= unescaped_from(v@, 0));
    while i < v.len()
        invariant
            i <= v@.len(),
            out@ + unescaped_from(v@, i as int) == unescaped_from(v@, 0),
        decreases v.len() - i,
    {
        let ghost before = out@;
        let (c, n): (char, usize) = read_character(&v, i);
        out.push(c);
        proof {
            assert(before + (seq![c] + unescaped_from(v@, i + n)) =~= out@ + unescaped_from(
                v@,
                i + n,
            ));
        }
        i = i + n;
    }
    assert(out@ + Seq::<char>::empty() =~= out@);
    out
}

proof fn lemma_escaped_first(s: Seq<char>)
    requires
        s.len() > 0,
    ensures
        json_escaped(s) == json_escape(s[0]) + json_escaped(s.skip(1)),
    decreases s.len(),
{
    if s.len() == 1 {
        assert(json_escaped(s.drop_last()) =~= Seq::<char>::empty());
        assert(json_escaped(s) =~= json_escape(s[0]) + json_escaped(s.skip(1)));
    } else {
        let front = s.drop_last();
        lemma_escaped_first(front);
        assert(front.skip(1) =~= s.skip(1).drop_last());
        assert(json_escaped(s) =~= json_escape(s[0]) + json_escaped(s.skip(1)));
    }
}

proof fn lemma_hex_char(d: nat)
    requires
        d < 16,
    ensures
        hex_digit_value(hex_char(d)) == Some(d as u32),
{
}

/// An escaped character is read back where it stands.
proof fn lemma_character_read(t: Seq<char>, i: int, c: char)
    requires
        0 <= i,
        i + json_escape(c).len() <= t.len(),
        forall|k: int| 0 <= k < json_escape(c).len() ==> t[i + k] == #[trigger] json_escape(c)[k],
    ensures
        character_at(t, i) == (c, json_escape(c).len() as int),
{
    let e = json_escape(c);
    let n = c as nat;
    assert(t[i + 0] == e[0]);
    if e.len() > 1 {
        assert(t[i + 1] == e[1]);
    }
    if e.len() == 6 {
        assert(t[i + 2] == e[2]);
        assert(t[i + 3] == e[3]);
        assert(t[i + 4] == e[4]);
        assert(t[i + 5] == e[5]);
        lemma_hex_char(0);
        lemma_hex_char(n / 16);
        lemma_hex_char(n % 16);
        assert(hex_char(0) == '0');
        assert(code_unit(t, i + 2) == Some(c as u32));
        vstd::utf8::char_u32_cast(c, c as u32);
    } else if e.len() == 2 {
        vstd::utf8::char_u32_cast(c, c as u32);
    }
}

proof fn lemma_escaped_read(t: Seq<char>, i: int, s: Seq<char>)
    requires
        0 <= i <= t.len(),
        t.skip(i) == json_escaped(s),
    ensures
        unescaped_from(t, i) == s,
    decreases s.len(),
{
    if s.len() == 0 {
        assert(t.skip(i).len() == 0);
        assert(s =~= Seq::<char>::empty());
    } else {
        lemma_escaped_first(s);
        let e = json_escape(s[0]);
        let rest = json_escaped(s.skip(1));
        assert(t.skip(i).len() == e.len() + rest.len());
        assert forall|k: int| 0 <= k < e.len() implies t[i + k] == #[trigger] e[k] by {
            assert(t.skip(i)[k] == (e + rest)[k]);
        }
        lemma_character_read(t, i, s[0]);
        assert(t.skip(i + e.len()) =~= rest) by {
            assert(t.skip(i + e.len()) =~= t.skip(i).skip(e.len() as int));
            assert((e + rest).skip(e.len() as int) =~= rest);
        }
        lemma_escaped_read(t, i + e.len(), s.skip(1));
        assert(seq![s[0]] + s.skip(1) =~= s);
    }
}

/// A text that is written as a JSON string is read back, whatever its
/// characters are; so texts that differ are never read as one.
pub proof fn law_written_text_is_read_back(s: Seq<char>)
    ensures
        content(encode_utf8(json_escaped(s))) == s,
{
    let t = json_escaped(s);
    vstd::utf8::encode_utf8_valid_utf8(t);
    vstd::utf8::encode_utf8_decode_utf8(t);
    assert(t.skip(0) =~= t);
    lemma_escaped_read(t, 0, s);
}

} // verus!
