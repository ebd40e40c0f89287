//! JSON documents as text, and what the reader of keys finds in them.
use vstd::prelude::*;
use vstd::utf8::{encode_scalar, encode_utf8};
use crate::json_keys::{
    bracket_end, collects, digit_run, duplicate_paths, exponent_run, fraction_run, is_digit_byte, is_json_space,
    number_tail, read_entries, read_items, read_value, repeated_in_entries, repeated_in_items,
    repeated_keys, repeats, space_end, string_run, string_tail, value_end, Node,
};
use crate::json_strings::content;
use crate::text::{texts, trimmed};

verus! {

/// Whether no object in `node` has a key twice.
pub open spec fn keys_differ(node: Node) -> bool
    decreases node,
{
    match node {
        Node::Object(entries) => {
            &&& forall|i: int| 0 <= i < entries.len() ==> !#[trigger] repeats(entries, i)
            &&& forall|i: int|
                0 <= i < entries.len() ==> keys_differ((#[trigger] entries[i]).1)
        },
        Node::Array(items) => forall|i: int|
            0 <= i < items.len() ==> keys_differ(#[trigger] items[i]),
        Node::Scalar => true,
    }
}

proof fn lemma_entries_differ(entries: Seq<(Seq<char>, Node)>, n: nat, prefix: Seq<char>)
    requires
        n <= entries.len(),
    ensures
        repeated_in_entries(entries, n, prefix).len() == 0 <==> (forall|i: int|
            0 <= i < n ==> !#[trigger] repeats(entries, i)) && (forall|i: int|
            0 <= i < n ==> keys_differ((#[trigger] entries[i]).1)),
    decreases entries, n,
{
    if n > 0 {
        lemma_entries_differ(entries, (n - 1) as nat, prefix);
        let path = crate::json_keys::key_path(prefix, entries[n - 1].0);
        assert(decreases_to!(entries => entries[n - 1]));
        law_no_report_means_no_repetition(entries[n - 1].1, path);
    }
}

proof fn lemma_items_differ(items: Seq<Node>, n: nat, prefix: Seq<char>)
    requires
        n <= items.len(),
    ensures
        repeated_in_items(items, n, prefix).len() == 0 <==> (forall|i: int|
            0 <= i < n ==> keys_differ(#[trigger] items[i])),
    decreases items, n,
{
    if n > 0 {
        lemma_items_differ(items, (n - 1) as nat, prefix);
        assert(decreases_to!(items => items[n - 1]));
        law_no_report_means_no_repetition(
            items[n - 1],
            crate::json_keys::item_path(prefix, (n - 1) as nat),
        );
    }
}

/// Nothing is reported if and only if no object has a key twice, at any depth.
pub proof fn law_no_report_means_no_repetition(node: Node, prefix: Seq<char>)
    ensures
        repeated_keys(node, prefix).len() == 0 <==> keys_differ(node),
    decreases node, 0nat,
{
    match node {
        Node::Object(entries) => {
            assert(decreases_to!(node => entries));
            lemma_entries_differ(entries, entries.len(), prefix);
        },
        Node::Array(items) => {
            assert(decreases_to!(node => items));
            lemma_items_differ(items, items.len(), prefix);
        },
        Node::Scalar => {},
    }
}

/// An entry of an object as it stands in a text, with the white space around
/// its parts.
pub struct Entry {
    pub before: Seq<u8>,
    /// What stands between the quotes of the key.
    pub key: Seq<u8>,
    pub before_colon: Seq<u8>,
    pub before_value: Seq<u8>,
    pub value: Document,
    pub after: Seq<u8>,
}

/// An element of an array as it stands in a text, with the white space around it.
pub struct Item {
    pub before: Seq<u8>,
    pub value: Document,
    pub after: Seq<u8>,
}

/// A JSON document as it stands in a text.
pub enum Document {
    /// The entries, and the white space between the braces where there are none.
    Object(Seq<Entry>, Seq<u8>),
    /// The elements, and the white space between the brackets where there are none.
    Array(Seq<Item>, Seq<u8>),
    /// What stands between the quotes.
    Text(Seq<u8>),
    Number(Seq<u8>),
    True,
    False,
    Null,
}

/// Whether some bytes can stand between quotes: there is no quote and no
/// backslash among them but those that a backslash precedes.
pub open spec fn is_raw_string(raw: Seq<u8>) -> bool
    decreases raw.len(),
{
    if raw.len() == 0 {
        true
    } else if raw[0] == 0x5c {
        raw.len() > 1 && is_raw_string(raw.skip(2))
    } else {
        raw[0] != 0x22 && is_raw_string(raw.skip(1))
    }
}

/// Whether all the bytes are white space.
pub open spec fn is_space(w: Seq<u8>) -> bool {
    forall|i: int| 0 <= i < w.len() ==> is_json_space(#[trigger] w[i])
}

/// Whether all the bytes are digits.
pub open spec fn is_digits(w: Seq<u8>) -> bool {
    forall|i: int| 0 <= i < w.len() ==> is_digit_byte(#[trigger] w[i])
}

/// Whether the bytes after the first digit, or after the minus sign, make up a
/// number: digits, then a fraction, then an exponent, of which any may be missing.
pub open spec fn is_number_rest(w: Seq<u8>) -> bool {
    exists|whole: Seq<u8>, fraction: Seq<u8>, exponent: Seq<u8>|
        #![trigger whole + fraction + exponent]
        w == whole + fraction + exponent && is_digits(whole) && is_fraction(fraction)
            && is_exponent(exponent)
}

/// Nothing, or a point and digits.
pub open spec fn is_fraction(w: Seq<u8>) -> bool {
    w.len() == 0 || (w[0] == 0x2e && is_digits(w.skip(1)))
}

/// Nothing, or the letter `e`, a sign if any, and digits.
pub open spec fn is_exponent(w: Seq<u8>) -> bool {
    w.len() == 0 || ((w[0] == 0x65 || w[0] == 0x45) && if w.len() > 1 && (w[1] == 0x2b || w[1]
        == 0x2d) {
        is_digits(w.skip(2))
    } else {
        is_digits(w.skip(1))
    })
}

/// Whether a document is well formed: its strings, numbers and white space are
/// such.
pub open spec fn is_document(d: Document) -> bool
    decreases d,
{
    match d {
        Document::Object(entries, inner) => {
            &&& is_space(inner)
            &&& entries.len() > 0 ==> inner.len() == 0
            &&& forall|i: int|
                0 <= i < entries.len() ==> entry_is_formed(#[trigger] entries[i]) && is_document(
                    entries[i].value,
                )
        },
        Document::Array(items, inner) => {
            &&& is_space(inner)
            &&& items.len() > 0 ==> inner.len() == 0
            &&& forall|i: int|
                0 <= i < items.len() ==> is_space((#[trigger] items[i]).before) && is_space(
                    items[i].after,
                ) && is_document(items[i].value)
        },
        Document::Text(raw) => is_raw_string(raw),
        Document::Number(w) => w.len() > 0 && (w[0] == 0x2d || is_digit_byte(w[0]))
            && is_number_rest(w.skip(1)),
        _ => true,
    }
}

/// Whether key and white space of an entry are such.
pub open spec fn entry_is_formed(e: Entry) -> bool {
    &&& is_space(e.before)
    &&& is_raw_string(e.key)
    &&& is_space(e.before_colon)
    &&& is_space(e.before_value)
    &&& is_space(e.after)
}

/// The structure of a document.
pub open spec fn structure(d: Document) -> Node
    decreases d, 0nat,
{
    match d {
        Document::Object(entries, _) => Node::Object(entries_from(entries, 0)),
        Document::Array(items, _) => Node::Array(items_from(items, 0)),
        _ => Node::Scalar,
    }
}

/// The structure of the entries from `k` on.
pub open spec fn entries_from(entries: Seq<Entry>, k: int) -> Seq<(Seq<char>, Node)>
    decreases entries, entries.len() - k,
{
    if k < 0 || k >= entries.len() {
        Seq::empty()
    } else {
        seq![(content(entries[k].key), structure(entries[k].value))] + entries_from(entries, k + 1)
    }
}

/// The structure of the elements from `k` on.
pub open spec fn items_from(items: Seq<Item>, k: int) -> Seq<Node>
    decreases items, items.len() - k,
{
    if k < 0 || k >= items.len() {
        Seq::empty()
    } else {
        seq![structure(items[k].value)] + items_from(items, k + 1)
    }
}

/// The bytes of a document.
pub open spec fn written(d: Document) -> Seq<u8>
    decreases d, 0nat,
{
    match d {
        Document::Object(entries, inner) => seq![0x7bu8] + inner + written_entries(entries, 0),
        Document::Array(items, inner) => seq![0x5bu8] + inner + written_items(items, 0),
        Document::Text(raw) => seq![0x22u8] + raw + seq![0x22u8],
        Document::Number(w) => w,
        Document::True => seq![0x74u8, 0x72, 0x75, 0x65],
        Document::False => seq![0x66u8, 0x61, 0x6c, 0x73, 0x65],
        Document::Null => seq![0x6eu8, 0x75, 0x6c, 0x6c],
    }
}

/// A comma before every part but the first.
pub open spec fn comma_before(k: int) -> Seq<u8> {
    if k == 0 {
        Seq::empty()
    } else {
        seq![0x2cu8]
    }
}

/// The bytes of the entries from `k` on, up to the closing brace.
pub open spec fn written_entries(entries: Seq<Entry>, k: int) -> Seq<u8>
    decreases entries, entries.len() - k,
{
    if k < 0 || k >= entries.len() {
        seq![0x7du8]
    } else {
        let e = entries[k];
        comma_before(k) + (e.before + (seq![0x22u8] + ((e.key + seq![0x22u8]) + (e.before_colon + (
        seq![0x3au8] + (e.before_value + (written(e.value) + (e.after + written_entries(
            entries,
            k + 1,
        )))))))))
    }
}

/// The bytes of the elements from `k` on, up to the closing bracket.
pub open spec fn written_items(items: Seq<Item>, k: int) -> Seq<u8>
    decreases items, items.len() - k,
{
    if k < 0 || k >= items.len() {
        seq![0x5du8]
    } else {
        let e = items[k];
        comma_before(k) + (e.before + (written(e.value) + (e.after + written_items(items, k + 1))))
    }
}

/// Whether the bytes `w` stand in `b` at `i`.
pub open spec fn stands(b: Seq<u8>, i: int, w: Seq<u8>) -> bool {
    &&& 0 <= i
    &&& i + w.len() <= b.len()
    &&& forall|k: int| 0 <= k < w.len() ==> b[i + k] == #[trigger] w[k]
}

proof fn lemma_stands_split(b: Seq<u8>, i: int, u: Seq<u8>, v: Seq<u8>)
    requires
        stands(b, i, u + v),
    ensures
        stands(b, i, u),
        stands(b, i + u.len(), v),
{
    let w = u + v;
    assert forall|k: int| 0 <= k < u.len() implies b[i + k] == #[trigger] u[k] by {
        assert(w[k] == u[k]);
    }
    assert forall|k: int| 0 <= k < v.len() implies b[i + u.len() + k] == #[trigger] v[k] by {
        assert(w[u.len() + k] == v[k]);
    }
}

proof fn lemma_stands_first(b: Seq<u8>, i: int, w: Seq<u8>)
    requires
        stands(b, i, w),
        w.len() > 0,
    ensures
        i < b.len(),
        b[i] == w[0],
{
    assert(b[i + 0] == w[0]);
}

/// Whether a number has ended at `i`: with the text, or by white space, a comma
/// or a closing bracket.
pub open spec fn ends_number(b: Seq<u8>, i: int) -> bool {
    i >= b.len() || is_json_space(b[i]) || b[i] == 0x2c || b[i] == 0x7d || b[i] == 0x5d
}

proof fn lemma_string_run(b: Seq<u8>, i: int, raw: Seq<u8>)
    requires
        is_raw_string(raw),
        stands(b, i, raw + seq![0x22u8]),
    ensures
        string_run(b, i) == Some(raw.len() + 1),
    decreases raw.len(),
{
    let quote = seq![0x22u8];
    let w = raw + quote;
    lemma_stands_first(b, i, w);
    if raw.len() == 0 {
        assert(w[0] == 0x22);
    } else if raw[0] == 0x5c {
        let rest = raw.skip(2);
        assert(w =~= seq![raw[0], raw[1]] + (rest + quote));
        assert(b[i + 1] == w[1]);
        lemma_stands_split(b, i, seq![raw[0], raw[1]], rest + quote);
        lemma_string_run(b, i + 2, rest);
    } else {
        let rest = raw.skip(1);
        assert(w =~= seq![raw[0]] + (rest + quote));
        lemma_stands_split(b, i, seq![raw[0]], rest + quote);
        lemma_string_run(b, i + 1, rest);
    }
}

proof fn lemma_string_read(b: Seq<u8>, i: int, raw: Seq<u8>)
    requires
        is_raw_string(raw),
        stands(b, i, raw + seq![0x22u8]),
    ensures
        string_tail(b, i) == Some((content(raw), raw.len() + 1)),
{
    lemma_string_run(b, i, raw);
    lemma_stands_split(b, i, raw, seq![0x22u8]);
    assert(b.subrange(i, i + raw.len()) =~= raw);
}

proof fn lemma_digits_read(b: Seq<u8>, i: int, w: Seq<u8>)
    requires
        stands(b, i, w),
        is_digits(w),
        i + w.len() < b.len() ==> !is_digit_byte(b[i + w.len()]),
    ensures
        digit_run(b, i) == w.len(),
    decreases w.len(),
{
    if w.len() > 0 {
        let rest = w.skip(1);
        lemma_stands_first(b, i, w);
        assert(is_digit_byte(w[0]));
        assert(w =~= seq![w[0]] + rest);
        lemma_stands_split(b, i, seq![w[0]], rest);
        assert forall|k: int| 0 <= k < rest.len() implies is_digit_byte(#[trigger] rest[k]) by {
            assert(rest[k] == w[k + 1]);
        }
        lemma_digits_read(b, i + 1, rest);
    }
}

proof fn lemma_number_read(b: Seq<u8>, i: int, w: Seq<u8>)
    requires
        0 <= i,
        stands(b, i + 1, w),
        is_number_rest(w),
        ends_number(b, i + 1 + w.len()),
    ensures
        number_tail(b, i) == w.len(),
{
    let (whole, fraction, exponent) = choose|whole: Seq<u8>, fraction: Seq<u8>, exponent: Seq<u8>|
        #![trigger whole + fraction + exponent]
        w == whole + fraction + exponent && is_digits(whole) && is_fraction(fraction)
            && is_exponent(exponent);
    assert(w =~= whole + (fraction + exponent));
    lemma_stands_split(b, i + 1, whole, fraction + exponent);
    let f = i + 1 + whole.len();
    lemma_stands_split(b, f, fraction, exponent);
    let x = f + fraction.len();
    let end = x + exponent.len();
    if exponent.len() > 0 {
        lemma_stands_first(b, x, exponent);
        if exponent.len() > 1 && (exponent[1] == 0x2b || exponent[1] == 0x2d) {
            assert(b[x + 1] == exponent[1]);
            assert(exponent =~= seq![exponent[0], exponent[1]] + exponent.skip(2));
            lemma_stands_split(b, x, seq![exponent[0], exponent[1]], exponent.skip(2));
            lemma_digits_read(b, x + 2, exponent.skip(2));
        } else {
            if exponent.len() > 1 {
                assert(b[x + 1] == exponent[1]);
            }
            assert(exponent =~= seq![exponent[0]] + exponent.skip(1));
            lemma_stands_split(b, x, seq![exponent[0]], exponent.skip(1));
            lemma_digits_read(b, x + 1, exponent.skip(1));
        }
    }
    assert(exponent_run(b, x) == exponent.len());
    if fraction.len() > 0 {
        lemma_stands_first(b, f, fraction);
        assert(fraction =~= seq![fraction[0]] + fraction.skip(1));
        lemma_stands_split(b, f, seq![fraction[0]], fraction.skip(1));
        lemma_digits_read(b, f + 1, fraction.skip(1));
    }
    assert(fraction_run(b, f) == fraction.len());
    lemma_digits_read(b, i + 1, whole);
}

proof fn lemma_space_read(b: Seq<u8>, i: int, w: Seq<u8>)
    requires
        stands(b, i, w),
        is_space(w),
        i + w.len() < b.len() ==> !is_json_space(b[i + w.len()]),
    ensures
        space_end(b, i) == i + w.len(),
    decreases w.len(),
{
    if w.len() > 0 {
        let rest = w.skip(1);
        lemma_stands_first(b, i, w);
        assert(is_json_space(w[0]));
        assert(w =~= seq![w[0]] + rest);
        lemma_stands_split(b, i, seq![w[0]], rest);
        assert forall|k: int| 0 <= k < rest.len() implies is_json_space(#[trigger] rest[k]) by {
            assert(rest[k] == w[k + 1]);
        }
        lemma_space_read(b, i + 1, rest);
    }
}

/// The first byte of a document is no white space, no comma and no closing
/// bracket.
proof fn lemma_first_byte(b: Seq<u8>, i: int, d: Document)
    requires
        is_document(d),
        stands(b, i, written(d)),
    ensures
        written(d).len() > 0,
        i < b.len(),
        b[i] == written(d)[0],
        !is_json_space(b[i]),
        b[i] != 0x2c,
        b[i] != 0x5d,
{
    lemma_stands_first(b, i, written(d));
}

/// What follows an entry or an element starts with a comma or a bracket.
pub open spec fn closes(w: Seq<u8>) -> bool {
    w.len() > 0 && (w[0] == 0x2c || w[0] == 0x7d || w[0] == 0x5d)
}

proof fn lemma_then_ends(b: Seq<u8>, i: int, gap: Seq<u8>, rest: Seq<u8>)
    requires
        stands(b, i, gap + rest),
        is_space(gap),
        closes(rest),
    ensures
        ends_number(b, i),
{
    lemma_stands_first(b, i, gap + rest);
    if gap.len() > 0 {
        assert(is_json_space(gap[0]));
    }
}

proof fn lemma_entries_close(entries: Seq<Entry>, k: int)
    requires
        0 < k <= entries.len(),
    ensures
        closes(written_entries(entries, k)),
{
    if k < entries.len() {
        assert(written_entries(entries, k)[0] == comma_before(k)[0]);
    }
}

proof fn lemma_items_close(items: Seq<Item>, k: int)
    requires
        0 < k <= items.len(),
    ensures
        closes(written_items(items, k)),
{
    if k < items.len() {
        assert(written_items(items, k)[0] == comma_before(k)[0]);
    }
}

/// The entries from `k` on, behind the white space `gap`, are read back.
#[verifier::rlimit(80)]
proof fn lemma_entries_read(
    b: Seq<u8>,
    i: int,
    gap: Seq<u8>,
    entries: Seq<Entry>,
    k: int,
    seen: Seq<(Seq<char>, Node)>,
)
    requires
        0 <= k <= entries.len(),
        is_space(gap),
        k == 0 && entries.len() > 0 ==> gap.len() == 0,
        forall|j: int|
            0 <= j < entries.len() ==> entry_is_formed(#[trigger] entries[j]) && is_document(
                entries[j].value,
            ),
        stands(b, i, gap + written_entries(entries, k)),
    ensures
        read_entries(b, i, seen) == (
            seen + entries_from(entries, k),
            Some(gap.len() + written_entries(entries, k).len()),
        ),
    decreases entries, entries.len() - k,
{
    let w = written_entries(entries, k);
    lemma_stands_split(b, i, gap, w);
    let p = i + gap.len();
    if k == entries.len() {
        lemma_stands_first(b, p, w);
        lemma_space_read(b, i, gap);
        assert(seen + entries_from(entries, k) =~= seen);
    } else {
        let e = entries[k];
        assert(entry_is_formed(e) && is_document(e.value));
        let quote = seq![0x22u8];
        let comma = comma_before(k);
        let rest = written_entries(entries, k + 1);
        let body = written(e.value);
        let w9 = e.after + rest;
        let w8 = body + w9;
        let w7 = e.before_value + w8;
        let w6 = seq![0x3au8] + w7;
        let w5 = e.before_colon + w6;
        let w4 = (e.key + quote) + w5;
        let w3 = quote + w4;
        let w2 = e.before + w3;
        assert(w == comma + w2);
        lemma_stands_split(b, p, comma, w2);
        let p1 = p + comma.len();
        lemma_stands_split(b, p1, e.before, w3);
        let q = p1 + e.before.len();
        lemma_stands_split(b, q, quote, w4);
        lemma_stands_split(b, q + 1, e.key + quote, w5);
        let after_key = q + 1 + e.key.len() + 1;
        lemma_stands_split(b, after_key, e.before_colon, w6);
        let colon = after_key + e.before_colon.len();
        lemma_stands_split(b, colon, seq![0x3au8], w7);
        lemma_stands_split(b, colon + 1, e.before_value, w8);
        let v = colon + 1 + e.before_value.len();
        lemma_stands_split(b, v, body, w9);
        let n = v + body.len();
        lemma_stands_first(b, q, quote);
        lemma_stands_first(b, colon, seq![0x3au8]);
        lemma_space_read(b, p1, e.before);
        if k > 0 {
            lemma_stands_first(b, p, comma);
            lemma_space_read(b, i, gap);
        }
        lemma_string_read(b, q + 1, e.key);
        lemma_space_read(b, after_key, e.before_colon);
        lemma_first_byte(b, v, e.value);
        lemma_space_read(b, colon + 1, e.before_value);
        lemma_entries_close(entries, k + 1);
        lemma_then_ends(b, n, e.after, rest);
        assert(decreases_to!(entries => entries[k]));
        assert(decreases_to!(entries[k] => entries[k].value));
        lemma_value_read(b, v, e.value);
        let all = seen.push((content(e.key), structure(e.value)));
        lemma_entries_read(b, n, e.after, entries, k + 1, all);
        assert(all + entries_from(entries, k + 1) =~= seen + entries_from(entries, k));
        assert(v + 1 + (body.len() - 1) == n);
    }
}

/// The elements from `k` on, behind the white space `gap`, are read back.
#[verifier::rlimit(80)]
proof fn lemma_items_read(
    b: Seq<u8>,
    i: int,
    gap: Seq<u8>,
    items: Seq<Item>,
    k: int,
    seen: Seq<Node>,
)
    requires
        0 <= k <= items.len(),
        is_space(gap),
        k == 0 && items.len() > 0 ==> gap.len() == 0,
        forall|j: int|
            0 <= j < items.len() ==> is_space((#[trigger] items[j]).before) && is_space(
                items[j].after,
            ) && is_document(items[j].value),
        stands(b, i, gap + written_items(items, k)),
    ensures
        read_items(b, i, seen) == (
            seen + items_from(items, k),
            Some(gap.len() + written_items(items, k).len()),
        ),
    decreases items, items.len() - k,
{
    let w = written_items(items, k);
    lemma_stands_split(b, i, gap, w);
    let p = i + gap.len();
    if k == items.len() {
        lemma_stands_first(b, p, w);
        lemma_space_read(b, i, gap);
        assert(seen + items_from(items, k) =~= seen);
    } else {
        let e = items[k];
        assert(is_space(e.before) && is_space(e.after) && is_document(e.value));
        let comma = comma_before(k);
        let rest = written_items(items, k + 1);
        let body = written(e.value);
        let w4 = e.after + rest;
        let w3 = body + w4;
        let w2 = e.before + w3;
        assert(w == comma + w2);
        lemma_stands_split(b, p, comma, w2);
        let p1 = p + comma.len();
        lemma_stands_split(b, p1, e.before, w3);
        let v = p1 + e.before.len();
        lemma_stands_split(b, v, body, w4);
        let n = v + body.len();
        lemma_first_byte(b, v, e.value);
        lemma_space_read(b, p1, e.before);
        lemma_items_close(items, k + 1);
        lemma_then_ends(b, n, e.after, rest);
        assert(decreases_to!(items => items[k]));
        assert(decreases_to!(items[k] => items[k].value));
        lemma_value_read(b, v, e.value);
        let all = seen.push(structure(e.value));
        lemma_items_read(b, n, e.after, items, k + 1, all);
        assert(all + items_from(items, k + 1) =~= seen + items_from(items, k));
        assert(read_items(b, p1, seen) == (
            seen + items_from(items, k),
            Some((e.before.len() + body.len() + e.after.len() + rest.len()) as nat),
        ));
        if k > 0 {
            lemma_stands_first(b, p, comma);
            lemma_space_read(b, i, gap);
        }
    }
}

#[verifier::rlimit(60)]
proof fn lemma_value_read(b: Seq<u8>, i: int, d: Document)
    requires
        is_document(d),
        stands(b, i, written(d)),
        ends_number(b, i + written(d).len()),
    ensures
        written(d).len() > 0,
        read_value(b, i) == (structure(d), Some((written(d).len() - 1) as nat)),
    decreases d, 0nat,
{
    let w = written(d);
    lemma_first_byte(b, i, d);
    match d {
        Document::Object(entries, inner) => {
            let rest = inner + written_entries(entries, 0);
            assert(w =~= seq![0x7bu8] + rest);
            lemma_stands_split(b, i, seq![0x7bu8], rest);
            assert(decreases_to!(d => entries));
            lemma_entries_read(b, i + 1, inner, entries, 0, Seq::empty());
            assert(Seq::<(Seq<char>, Node)>::empty() + entries_from(entries, 0) =~= entries_from(
                entries,
                0,
            ));
        },
        Document::Array(items, inner) => {
            let rest = inner + written_items(items, 0);
            assert(w =~= seq![0x5bu8] + rest);
            lemma_stands_split(b, i, seq![0x5bu8], rest);
            assert(decreases_to!(d => items));
            lemma_items_read(b, i + 1, inner, items, 0, Seq::empty());
            assert(Seq::<Node>::empty() + items_from(items, 0) =~= items_from(items, 0));
        },
        Document::Text(raw) => {
            assert(w =~= seq![0x22u8] + (raw + seq![0x22u8]));
            lemma_stands_split(b, i, seq![0x22u8], raw + seq![0x22u8]);
            lemma_string_read(b, i + 1, raw);
        },
        Document::Number(s) => {
            assert(s =~= seq![s[0]] + s.skip(1));
            lemma_stands_split(b, i, seq![s[0]], s.skip(1));
            lemma_number_read(b, i, s.skip(1));
        },
        _ => {},
    }
}

/// Whether two bytes are an opening bracket and the one that closes it.
pub open spec fn is_pair(open: u8, close: u8) -> bool {
    (open == 0x7b && close == 0x7d) || (open == 0x5b && close == 0x5d)
}

/// Whether a byte is neither a quote nor a bracket.
pub open spec fn is_plain(c: u8) -> bool {
    c != 0x22 && c != 0x7b && c != 0x7d && c != 0x5b && c != 0x5d
}

/// Bytes that are neither quotes nor brackets do not change the depth.
proof fn lemma_plain_passes(b: Seq<u8>, i: int, w: Seq<u8>, depth: nat, open: u8, close: u8)
    requires
        stands(b, i, w),
        forall|k: int| 0 <= k < w.len() ==> is_plain(#[trigger] w[k]),
        depth > 0,
        is_pair(open, close),
    ensures
        bracket_end(b, i, depth, false, open, close) == bracket_end(
            b,
            i + w.len(),
            depth,
            false,
            open,
            close,
        ),
    decreases w.len(),
{
    if w.len() > 0 {
        let rest = w.skip(1);
        lemma_stands_first(b, i, w);
        assert(is_plain(w[0]));
        assert(w =~= seq![w[0]] + rest);
        lemma_stands_split(b, i, seq![w[0]], rest);
        assert forall|k: int| 0 <= k < rest.len() implies is_plain(#[trigger] rest[k]) by {
            assert(rest[k] == w[k + 1]);
        }
        lemma_plain_passes(b, i + 1, rest, depth, open, close);
    }
}

proof fn lemma_space_passes(b: Seq<u8>, i: int, w: Seq<u8>, depth: nat, open: u8, close: u8)
    requires
        stands(b, i, w),
        is_space(w),
        depth > 0,
        is_pair(open, close),
    ensures
        bracket_end(b, i, depth, false, open, close) == bracket_end(
            b,
            i + w.len(),
            depth,
            false,
            open,
            close,
        ),
{
    assert forall|k: int| 0 <= k < w.len() implies is_plain(#[trigger] w[k]) by {
        assert(is_json_space(w[k]));
    }
    lemma_plain_passes(b, i, w, depth, open, close);
}

/// What stands between quotes does not change the depth.
proof fn lemma_string_passes(b: Seq<u8>, i: int, raw: Seq<u8>, depth: nat, open: u8, close: u8)
    requires
        is_raw_string(raw),
        stands(b, i, raw + seq![0x22u8]),
        depth > 0,
    ensures
        bracket_end(b, i, depth, true, open, close) == bracket_end(
            b,
            i + raw.len() + 1,
            depth,
            false,
            open,
            close,
        ),
    decreases raw.len(),
{
    let quote = seq![0x22u8];
    let w = raw + quote;
    lemma_stands_first(b, i, w);
    if raw.len() == 0 {
        assert(w[0] == 0x22);
    } else if raw[0] == 0x5c {
        let rest = raw.skip(2);
        assert(w =~= seq![raw[0], raw[1]] + (rest + quote));
        lemma_stands_split(b, i, seq![raw[0], raw[1]], rest + quote);
        lemma_string_passes(b, i + 2, rest, depth, open, close);
    } else {
        let rest = raw.skip(1);
        assert(w =~= seq![raw[0]] + (rest + quote));
        lemma_stands_split(b, i, seq![raw[0]], rest + quote);
        lemma_string_passes(b, i + 1, rest, depth, open, close);
    }
}

proof fn lemma_number_is_plain(w: Seq<u8>)
    requires
        is_number_rest(w),
    ensures
        forall|k: int| 0 <= k < w.len() ==> is_plain(#[trigger] w[k]),
{
    let (whole, fraction, exponent) = choose|whole: Seq<u8>, fraction: Seq<u8>, exponent: Seq<u8>|
        #![trigger whole + fraction + exponent]
        w == whole + fraction + exponent && is_digits(whole) && is_fraction(fraction)
            && is_exponent(exponent);
    let f = whole.len();
    let x = f + fraction.len();
    assert forall|k: int| 0 <= k < w.len() implies is_plain(#[trigger] w[k]) by {
        if k < f {
            assert(is_digit_byte(whole[k]));
        } else if k < x {
            assert(w[k] == fraction[k - f]);
            if k > f {
                assert(is_digit_byte(fraction.skip(1)[k - f - 1]));
            }
        } else {
            assert(w[k] == exponent[k - x]);
            if k > x + 1 && (exponent[1] == 0x2b || exponent[1] == 0x2d) {
                assert(is_digit_byte(exponent.skip(2)[k - x - 2]));
            } else if k > x && !(exponent[1] == 0x2b || exponent[1] == 0x2d) {
                assert(is_digit_byte(exponent.skip(1)[k - x - 1]));
            }
        }
    }
}

/// The entries from `k` on leave the depth as it is, up to the closing brace.
#[verifier::rlimit(60)]
proof fn lemma_entries_pass(
    b: Seq<u8>,
    i: int,
    entries: Seq<Entry>,
    k: int,
    depth: nat,
    open: u8,
    close: u8,
)
    requires
        0 <= k <= entries.len(),
        forall|j: int|
            0 <= j < entries.len() ==> entry_is_formed(#[trigger] entries[j]) && is_document(
                entries[j].value,
            ),
        stands(b, i, written_entries(entries, k)),
        depth > 0,
        is_pair(open, close),
    ensures
        written_entries(entries, k).len() > 0,
        b[i + written_entries(entries, k).len() - 1] == 0x7d,
        bracket_end(b, i, depth, false, open, close) == bracket_end(
            b,
            i + written_entries(entries, k).len() - 1,
            depth,
            false,
            open,
            close,
        ),
    decreases entries, entries.len() - k,
{
    let w = written_entries(entries, k);
    if k == entries.len() {
        lemma_stands_first(b, i, w);
    } else {
        let e = entries[k];
        assert(entry_is_formed(e) && is_document(e.value));
        let quote = seq![0x22u8];
        let comma = comma_before(k);
        let rest = written_entries(entries, k + 1);
        let body = written(e.value);
        let w9 = e.after + rest;
        let w8 = body + w9;
        let w7 = e.before_value + w8;
        let w6 = seq![0x3au8] + w7;
        let w5 = e.before_colon + w6;
        let w4 = (e.key + quote) + w5;
        let w3 = quote + w4;
        let w2 = e.before + w3;
        assert(w == comma + w2);
        lemma_stands_split(b, i, comma, w2);
        let p1 = i + comma.len();
        lemma_stands_split(b, p1, e.before, w3);
        let q = p1 + e.before.len();
        lemma_stands_split(b, q, quote, w4);
        lemma_stands_first(b, q, quote);
        lemma_stands_split(b, q + 1, e.key + quote, w5);
        let after_key = q + 1 + e.key.len() + 1;
        lemma_stands_split(b, after_key, e.before_colon, w6);
        let colon = after_key + e.before_colon.len();
        lemma_stands_split(b, colon, seq![0x3au8], w7);
        lemma_stands_split(b, colon + 1, e.before_value, w8);
        let v = colon + 1 + e.before_value.len();
        lemma_stands_split(b, v, body, w9);
        let n = v + body.len();
        lemma_stands_split(b, n, e.after, rest);
        lemma_plain_passes(b, i, comma, depth, open, close);
        lemma_space_passes(b, p1, e.before, depth, open, close);
        lemma_string_passes(b, q + 1, e.key, depth, open, close);
        lemma_space_passes(b, after_key, e.before_colon, depth, open, close);
        lemma_plain_passes(b, colon, seq![0x3au8], depth, open, close);
        lemma_space_passes(b, colon + 1, e.before_value, depth, open, close);
        assert(decreases_to!(entries => entries[k]));
        assert(decreases_to!(entries[k] => entries[k].value));
        lemma_document_passes(b, v, e.value, depth, open, close);
        lemma_space_passes(b, n, e.after, depth, open, close);
        lemma_entries_pass(b, n + e.after.len(), entries, k + 1, depth, open, close);
    }
}

/// The elements from `k` on leave the depth as it is, up to the closing bracket.
#[verifier::rlimit(60)]
proof fn lemma_items_pass(
    b: Seq<u8>,
    i: int,
    items: Seq<Item>,
    k: int,
    depth: nat,
    open: u8,
    close: u8,
)
    requires
        0 <= k <= items.len(),
        forall|j: int|
            0 <= j < items.len() ==> is_space((#[trigger] items[j]).before) && is_space(
                items[j].after,
            ) && is_document(items[j].value),
        stands(b, i, written_items(items, k)),
        depth > 0,
        is_pair(open, close),
    ensures
        written_items(items, k).len() > 0,
        b[i + written_items(items, k).len() - 1] == 0x5d,
        bracket_end(b, i, depth, false, open, close) == bracket_end(
            b,
            i + written_items(items, k).len() - 1,
            depth,
            false,
            open,
            close,
        ),
    decreases items, items.len() - k,
{
    let w = written_items(items, k);
    if k == items.len() {
        lemma_stands_first(b, i, w);
    } else {
        let e = items[k];
        assert(is_space(e.before) && is_space(e.after) && is_document(e.value));
        let comma = comma_before(k);
        let rest = written_items(items, k + 1);
        let body = written(e.value);
        let w4 = e.after + rest;
        let w3 = body + w4;
        let w2 = e.before + w3;
        assert(w == comma + w2);
        lemma_stands_split(b, i, comma, w2);
        let p1 = i + comma.len();
        lemma_stands_split(b, p1, e.before, w3);
        let v = p1 + e.before.len();
        lemma_stands_split(b, v, body, w4);
        let n = v + body.len();
        lemma_stands_split(b, n, e.after, rest);
        lemma_plain_passes(b, i, comma, depth, open, close);
        lemma_space_passes(b, p1, e.before, depth, open, close);
        assert(decreases_to!(items => items[k]));
        assert(decreases_to!(items[k] => items[k].value));
        lemma_document_passes(b, v, e.value, depth, open, close);
        lemma_space_passes(b, n, e.after, depth, open, close);
        lemma_items_pass(b, n + e.after.len(), items, k + 1, depth, open, close);
    }
}

/// A document leaves the depth as it is.
#[verifier::rlimit(60)]
proof fn lemma_document_passes(b: Seq<u8>, i: int, d: Document, depth: nat, open: u8, close: u8)
    requires
        is_document(d),
        stands(b, i, written(d)),
        depth > 0,
        is_pair(open, close),
    ensures
        bracket_end(b, i, depth, false, open, close) == bracket_end(
            b,
            i + written(d).len(),
            depth,
            false,
            open,
            close,
        ),
    decreases d, 0nat,
{
    let w = written(d);
    lemma_first_byte(b, i, d);
    match d {
        Document::Object(entries, inner) => {
            let inside = if open == 0x7b {
                depth + 1
            } else {
                depth
            };
            let last = written_entries(entries, 0);
            assert(w =~= seq![0x7bu8] + (inner + last));
            lemma_stands_split(b, i, seq![0x7bu8], inner + last);
            lemma_stands_split(b, i + 1, inner, last);
            lemma_space_passes(b, i + 1, inner, inside, open, close);
            assert(decreases_to!(d => entries));
            lemma_entries_pass(b, i + 1 + inner.len(), entries, 0, inside, open, close);
        },
        Document::Array(items, inner) => {
            let inside = if open == 0x5b {
                depth + 1
            } else {
                depth
            };
            let last = written_items(items, 0);
            assert(w =~= seq![0x5bu8] + (inner + last));
            lemma_stands_split(b, i, seq![0x5bu8], inner + last);
            lemma_stands_split(b, i + 1, inner, last);
            lemma_space_passes(b, i + 1, inner, inside, open, close);
            assert(decreases_to!(d => items));
            lemma_items_pass(b, i + 1 + inner.len(), items, 0, inside, open, close);
        },
        Document::Text(raw) => {
            assert(w =~= seq![0x22u8] + (raw + seq![0x22u8]));
            lemma_stands_split(b, i, seq![0x22u8], raw + seq![0x22u8]);
            lemma_string_passes(b, i + 1, raw, depth, open, close);
        },
        Document::Number(s) => {
            lemma_number_is_plain(s.skip(1));
            assert forall|k: int| 0 <= k < s.len() implies is_plain(#[trigger] s[k]) by {
                if k > 0 {
                    assert(is_plain(s.skip(1)[k - 1]));
                }
            }
            lemma_plain_passes(b, i, s, depth, open, close);
        },
        _ => {
            lemma_plain_passes(b, i, w, depth, open, close);
        },
    }
}

/// A value that stands anywhere in a text ends where it was written to end:
/// [`skip_json_value`](crate::json_keys::skip_json_value) says so, and so does
/// [`collect_value_duplicates`](crate::json_keys::collect_value_duplicates),
/// under every path and after whatever was found before.
pub proof fn law_value_ends_where_it_was_written(b: Seq<u8>, i: int, d: Document)
    requires
        is_document(d),
        stands(b, i, written(d)),
        ends_number(b, i + written(d).len()),
    ensures
        value_end(b, i) == Some(i + written(d).len()),
        forall|prefix: Seq<char>, before: Seq<String>, after: Seq<String>, r: Option<usize>| #[trigger]
            collects(b, i, prefix, before, after, r) ==> {
                &&& r == Some((i + written(d).len()) as usize)
                &&& texts(after) == texts(before) + repeated_keys(structure(d), prefix)
            },
{
    let w = written(d);
    lemma_value_read(b, i, d);
    lemma_first_byte(b, i, d);
    match d {
        Document::Object(entries, inner) => {
            let last = written_entries(entries, 0);
            assert(w =~= seq![0x7bu8] + (inner + last));
            lemma_stands_split(b, i, seq![0x7bu8], inner + last);
            lemma_stands_split(b, i + 1, inner, last);
            lemma_space_passes(b, i + 1, inner, 1, 0x7b, 0x7d);
            lemma_entries_pass(b, i + 1 + inner.len(), entries, 0, 1, 0x7b, 0x7d);
            assert(bracket_end(b, i + w.len(), 0, false, 0x7b, 0x7d) == i + w.len());
        },
        Document::Array(items, inner) => {
            let last = written_items(items, 0);
            assert(w =~= seq![0x5bu8] + (inner + last));
            lemma_stands_split(b, i, seq![0x5bu8], inner + last);
            lemma_stands_split(b, i + 1, inner, last);
            lemma_space_passes(b, i + 1, inner, 1, 0x5b, 0x5d);
            lemma_items_pass(b, i + 1 + inner.len(), items, 0, 1, 0x5b, 0x5d);
            assert(bracket_end(b, i + w.len(), 0, false, 0x5b, 0x5d) == i + w.len());
        },
        _ => {},
    }
}

/// A document that was written is read back: the reader of keys finds exactly
/// its structure, and its end.
pub proof fn law_document_is_read_back(d: Document)
    requires
        is_document(d),
    ensures
        read_value(written(d), 0) == (structure(d), Some((written(d).len() - 1) as nat)),
{
    let b = written(d);
    assert(stands(b, 0, b));
    lemma_value_read(b, 0, d);
}

/// A text whose encoding starts with the byte of a brace starts with a brace.
proof fn lemma_brace_first(s: Seq<char>)
    requires
        encode_utf8(s).len() > 0,
        encode_utf8(s)[0] == 0x7b,
    ensures
        s.len() > 0,
        s[0] == '{',
{
    reveal_with_fuel(encode_utf8, 1);
    if s.len() > 0 {
        let ch: char = s[0];
        let c: u32 = ch as u32;
        vstd::utf8::char_is_scalar(ch);
        vstd::utf8::char_u32_cast(ch, c);
        let first = encode_scalar(c)[0];
        assert(encode_utf8(s)[0] == first);
        if c <= 0x7f {
            assert((c & 0x7f) as u8 == 0x7b ==> c == 0x7b) by (bit_vector)
                requires
                    c <= 0x7f,
            ;
        } else {
            assert(0xc0u8 | ((c >> 6) & 0x1f) as u8 >= 0xc0) by (bit_vector);
            assert(0xe0u8 | ((c >> 12) & 0x0f) as u8 >= 0xe0) by (bit_vector);
            assert(0xf0u8 | ((c >> 18) & 0x7) as u8 >= 0xf0) by (bit_vector);
        }
        assert(c == 0x7b);
        assert(0x7bu32 as char == '{');
    }
}

/// The keys that are reported for the text of an object are those that its
/// objects repeat, at any depth, and no others. White space around the object
/// does not matter.
pub proof fn law_reported_keys_are_the_repeated_ones(text: Seq<char>, d: Document)
    requires
        is_document(d),
        d is Object,
        encode_utf8(trimmed(text)) == written(d),
    ensures
        duplicate_paths(text) == repeated_keys(structure(d), Seq::empty()),
        duplicate_paths(text).len() == 0 <==> keys_differ(structure(d)),
{
    law_document_is_read_back(d);
    law_no_report_means_no_repetition(structure(d), Seq::empty());
    assert(written(d)[0] == 0x7b);
    lemma_brace_first(trimmed(text));
}

} // verus!
