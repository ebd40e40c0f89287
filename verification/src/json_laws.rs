//! What is found in a JSON value.
use vstd::prelude::*;
use crate::json_keys::{is_digit_byte, is_json_space};
use crate::json_strings::{code_unit, unescaped_from};
use crate::json::{
    as_bool, as_int, as_text, lemma_member_at, lemma_member_none, low_32_bits, member,
    member_from, opt_member, with_member, JsonView,
};

verus! {

/// Whether an object has a field with this value: the first of that name
/// counts.
pub open spec fn has_field(j: JsonView, key: Seq<char>, v: JsonView) -> bool {
    match j {
        JsonView::Object(m) => exists|i: int|
            0 <= i < m.len() && (#[trigger] m[i]).0 == key && m[i].1 == v && forall|k: int|
                0 <= k < i ==> (#[trigger] m[k]).0 != key,
        _ => false,
    }
}

/// Whether a value has no field of this name.
pub open spec fn lacks_field(j: JsonView, key: Seq<char>) -> bool {
    match j {
        JsonView::Object(m) => forall|k: int| 0 <= k < m.len() ==> (#[trigger] m[k]).0 != key,
        _ => true,
    }
}

proof fn lemma_from(m: Seq<(Seq<char>, JsonView)>, key: Seq<char>, i: int)
    requires
        0 <= i,
    ensures
        match member_from(m, key, i) {
            Some(k) => i <= k < m.len() && m[k].0 == key && forall|j: int|
                i <= j < k ==> (#[trigger] m[j]).0 != key,
            None => forall|j: int| i <= j < m.len() ==> (#[trigger] m[j]).0 != key,
        },
    decreases m.len() - i,
{
    if i < m.len() && m[i].0 != key {
        lemma_from(m, key, i + 1);
    }
}

/// A field is found if and only if the object has it, and then with its value.
pub proof fn law_fields_are_found(j: JsonView, key: Seq<char>, v: JsonView)
    ensures
        member(j, key) == Some(v) <==> has_field(j, key, v),
        member(j, key) is None <==> lacks_field(j, key),
        opt_member(Some(j), key) == member(j, key),
        opt_member(None, key) is None,
{
    match j {
        JsonView::Object(m) => {
            lemma_from(m, key, 0);
            if has_field(j, key, v) {
                let i = choose|i: int|
                    0 <= i < m.len() && (#[trigger] m[i]).0 == key && m[i].1 == v && forall|k: int|
                        0 <= k < i ==> (#[trigger] m[k]).0 != key;
                lemma_member_at(m, key, 0, i);
            }
            if lacks_field(j, key) {
                lemma_member_none(m, key, 0);
            }
            if member(j, key) == Some(v) {
                let k = member_from(m, key, 0)->0;
                assert(m[k].0 == key && m[k].1 == v);
            }
        },
        _ => {},
    }
}

/// A text, a number of 64 bits and a truth value are read as such, and nothing
/// else is.
pub proof fn law_values_are_read_by_their_type(j: JsonView)
    ensures
        as_text(Some(j)) is Some <==> j is Text,
        j is Text ==> as_text(Some(j)) == Some(j->Text_0),
        as_text(None) is None,
        as_int(Some(j)) is Some <==> j is Int && i64::MIN <= j->Int_0 <= i64::MAX,
        as_int(Some(j)) is Some ==> as_int(Some(j))->0 == j->Int_0,
        as_int(None) is None,
        as_bool(Some(j)) is Some <==> j is Bool,
        j is Bool ==> as_bool(Some(j)) == Some(j->Bool_0),
        as_bool(None) is None,
{
}

/// Setting a field sets that field only: it takes the place of the one that was
/// there, or comes last.
pub proof fn law_one_field_is_set(
    m: Seq<(Seq<char>, JsonView)>,
    key: Seq<char>,
    v: JsonView,
    i: int,
)
    requires
        0 <= i < m.len(),
    ensures
        m[i].0 != key ==> with_member(m, key, v)[i] == m[i],
        lacks_field(JsonView::Object(m), key) ==> with_member(m, key, v) == m.push((key, v)),
        !lacks_field(JsonView::Object(m), key) ==> with_member(m, key, v).len() == m.len(),
        m[i].0 == key && (forall|k: int| 0 <= k < i ==> (#[trigger] m[k]).0 != key) ==> with_member(
            m,
            key,
            v,
        )[i] == (key, v),
{
    lemma_from(m, key, 0);
    let f = member_from(m, key, 0);
    law_fields_are_found(JsonView::Object(m), key, v);
    if m[i].0 == key && (forall|k: int| 0 <= k < i ==> (#[trigger] m[k]).0 != key) {
        lemma_member_at(m, key, 0, i);
    }
}

/// The lower 32 bits of a number that 32 bits hold are that number; of any
/// other they differ from it by a multiple of two to the power of 32.
pub proof fn law_lower_bits(n: int)
    ensures
        i32::MIN <= low_32_bits(n) <= i32::MAX,
        i32::MIN <= n <= i32::MAX ==> low_32_bits(n) == n,
        (n - low_32_bits(n)) % 0x1_0000_0000 == 0,
{
    let m = n + 0x8000_0000;
    assert(0 <= m % 0x1_0000_0000 < 0x1_0000_0000);
    assert((m - m % 0x1_0000_0000) % 0x1_0000_0000 == 0);
}

/// White space in JSON is the blank, the tab and the two line ends; its digits
/// are the decimal ones.
pub proof fn law_bytes_of_json(c: u8)
    ensures
        is_json_space(c) <==> c == 32 || c == 9 || c == 10 || c == 13,
        is_digit_byte(c) <==> 48 <= c <= 57,
{
}

/// The value of a hexadecimal digit, in either case.
pub open spec fn worth(c: char) -> Option<int> {
    if '0' <= c <= '9' {
        Some(c as int - '0' as int)
    } else if 'a' <= c <= 'f' {
        Some(c as int - 'a' as int + 10)
    } else if 'A' <= c <= 'F' {
        Some(c as int - 'A' as int + 10)
    } else {
        None
    }
}

/// Whether four hexadecimal digits at `i` write `n`.
pub open spec fn writes_unit(s: Seq<char>, i: int, n: int) -> bool {
    &&& 0 <= i && i + 4 <= s.len()
    &&& worth(s[i]) is Some && worth(s[i + 1]) is Some && worth(s[i + 2]) is Some && worth(
        s[i + 3],
    ) is Some
    &&& n == worth(s[i])->0 * 4096 + worth(s[i + 1])->0 * 256 + worth(s[i + 2])->0 * 16 + worth(
        s[i + 3],
    )->0
}

proof fn lemma_unit(s: Seq<char>, i: int, n: int)
    requires
        writes_unit(s, i, n),
    ensures
        code_unit(s, i) == Some(n as u32),
        0 <= n < 0x10000,
{
}

/// In a string a character stands for itself but behind a backslash, where
/// letters stand for control characters and quotes, slashes and backslashes for
/// themselves.
pub proof fn law_simple_escapes(s: Seq<char>, i: int)
    requires
        0 <= i < s.len(),
    ensures
        s[i] != '\\' ==> unescaped_from(s, i) == seq![s[i]] + unescaped_from(s, i + 1),
        s[i] == '\\' && i + 1 < s.len() ==> {
            let c = s[i + 1];
            let rest = unescaped_from(s, i + 2);
            &&& c == 'n' ==> unescaped_from(s, i) == seq!['\n'] + rest
            &&& c == 't' ==> unescaped_from(s, i) == seq!['\t'] + rest
            &&& c == 'r' ==> unescaped_from(s, i) == seq!['\r'] + rest
            &&& c == 'b' ==> unescaped_from(s, i) == seq!['\u{8}'] + rest
            &&& c == 'f' ==> unescaped_from(s, i) == seq!['\u{c}'] + rest
            &&& c == '"' || c == '\\' || c == '/' ==> unescaped_from(s, i) == seq![c] + rest
        },
{
}

/// A backslash with `u` and four hexadecimal digits stands for the character of
/// that number, two of them for a character beyond, and a half alone for the
/// replacement character.
pub proof fn law_numbered_escapes(s: Seq<char>, i: int, n: int, low: int)
    requires
        0 <= i,
        i + 6 <= s.len(),
        s[i] == '\\',
        s[i + 1] == 'u',
        writes_unit(s, i + 2, n),
    ensures
        n < 0xd800 || n > 0xdfff ==> unescaped_from(s, i) == seq![(n as u32) as char]
            + unescaped_from(s, i + 6),
        0xd800 <= n <= 0xdbff && i + 12 <= s.len() && s[i + 6] == '\\' && s[i + 7] == 'u'
            && writes_unit(s, i + 8, low) && 0xdc00 <= low <= 0xdfff ==> unescaped_from(s, i)
            == seq![((0x10000 + (n - 0xd800) * 0x400 + (low - 0xdc00)) as u32) as char]
            + unescaped_from(s, i + 12),
        0xdc00 <= n <= 0xdfff ==> unescaped_from(s, i) == seq!['\u{fffd}'] + unescaped_from(
            s,
            i + 6,
        ),
{
    lemma_unit(s, i + 2, n);
    if writes_unit(s, i + 8, low) {
        lemma_unit(s, i + 8, low);
    }
}

} // verus!
