//! Repeated keys in the text of a JSON object.
//!
//! A JSON parser keeps one value of a key that an object holds twice and
//! says nothing. The functions here read the text itself and report every
//! repetition, at any depth, by its dotted path.
use vstd::prelude::*;
use vstd::slice::slice_subrange;
use vstd::string::StrSliceExecFns;
use vstd::string::StringExecFns;
use vstd::utf8::encode_utf8;
use crate::json_strings::{content, read_content};
use crate::text::{decimal, push_decimal, texts, trim, trimmed};

verus! {

/// The structure of a JSON text, as far as keys are concerned.
pub enum Node {
    Object(Seq<(Seq<char>, Node)>),
    Array(Seq<Node>),
    Scalar,
}

/// Whether `c` is white space between JSON tokens.
pub open spec fn is_json_space(c: u8) -> bool {
    c == 0x20 || c == 0x09 || c == 0x0a || c == 0x0d
}

/// How many white space bytes stand at `i`.
pub open spec fn space_run(b: Seq<u8>, i: int) -> nat
    decreases b.len() - i,
{
    if 0 <= i < b.len() && is_json_space(b[i]) {
        1 + space_run(b, i + 1)
    } else {
        0
    }
}

/// The first position from `i` on that holds no white space.
pub open spec fn space_end(b: Seq<u8>, i: int) -> int {
    i + space_run(b, i)
}

/// How many bytes the string whose opening quote stands just before `i` takes
/// from there, with its closing quote. A quote after a backslash does not close it.
pub open spec fn string_run(b: Seq<u8>, i: int) -> Option<nat>
    decreases b.len() - i,
{
    if i < 0 || i >= b.len() {
        None
    } else if b[i] == 0x22 {
        Some(1)
    } else if b[i] == 0x5c {
        if i + 1 >= b.len() {
            None
        } else {
            later(string_run(b, i + 2), 2)
        }
    } else {
        later(string_run(b, i + 1), 1)
    }
}

/// The text of the string whose opening quote stands just before `i`, and how
/// many bytes it takes up to and including the closing quote.
pub open spec fn string_tail(b: Seq<u8>, i: int) -> Option<(Seq<char>, nat)> {
    match string_run(b, i) {
        Some(n) => Some((content(b.subrange(i, i + n - 1)), n)),
        None => None,
    }
}

/// Whether `c` is an ASCII digit.
pub open spec fn is_digit_byte(c: u8) -> bool {
    0x30 <= c <= 0x39
}

/// How many digits stand at `i`.
pub open spec fn digit_run(b: Seq<u8>, i: int) -> nat
    decreases b.len() - i,
{
    if 0 <= i < b.len() && is_digit_byte(b[i]) {
        1 + digit_run(b, i + 1)
    } else {
        0
    }
}

/// How many bytes the fraction at `i` takes: a point and the digits after it.
pub open spec fn fraction_run(b: Seq<u8>, i: int) -> nat {
    if 0 <= i < b.len() && b[i] == 0x2e {
        1 + digit_run(b, i + 1)
    } else {
        0
    }
}

/// How many bytes the exponent at `i` takes: its letter, a sign, digits.
pub open spec fn exponent_run(b: Seq<u8>, i: int) -> nat {
    if 0 <= i < b.len() && (b[i] == 0x65 || b[i] == 0x45) {
        if i + 1 < b.len() && (b[i + 1] == 0x2b || b[i + 1] == 0x2d) {
            2 + digit_run(b, i + 2)
        } else {
            1 + digit_run(b, i + 1)
        }
    } else {
        0
    }
}

/// How many bytes of the number that starts at `i` follow its first one.
pub open spec fn number_tail(b: Seq<u8>, i: int) -> nat {
    let whole = digit_run(b, i + 1);
    let fraction = fraction_run(b, i + 1 + whole);
    whole + fraction + exponent_run(b, i + 1 + whole + fraction)
}

/// Where a bracketed value ends: `i` stands inside `depth` brackets, and
/// within a string if `in_string`. An unclosed value ends with the text, or
/// one past it where the text ends in a backslash within a string.
pub open spec fn bracket_end(
    b: Seq<u8>,
    i: int,
    depth: nat,
    in_string: bool,
    open: u8,
    close: u8,
) -> int
    decreases room(b, i),
{
    if i < 0 || i >= b.len() || depth == 0 {
        i
    } else if in_string {
        if b[i] == 0x5c {
            bracket_end(b, i + 2, depth, true, open, close)
        } else {
            bracket_end(b, i + 1, depth, b[i] != 0x22, open, close)
        }
    } else if b[i] == 0x22 {
        bracket_end(b, i + 1, depth, true, open, close)
    } else if b[i] == open {
        bracket_end(b, i + 1, depth + 1, false, open, close)
    } else if b[i] == close {
        bracket_end(b, i + 1, (depth - 1) as nat, false, open, close)
    } else {
        bracket_end(b, i + 1, depth, false, open, close)
    }
}

/// How many bytes of the scalar that starts at `i` follow its first one. The
/// words `true`, `false` and `null` are known by their first letter.
pub open spec fn scalar_tail(b: Seq<u8>, i: int) -> Option<nat> {
    if i < 0 || i >= b.len() {
        None
    } else if b[i] == 0x22 {
        string_run(b, i + 1)
    } else if b[i] == 0x74 || b[i] == 0x6e {
        if i + 4 <= b.len() {
            Some(3)
        } else {
            None
        }
    } else if b[i] == 0x66 {
        if i + 5 <= b.len() {
            Some(4)
        } else {
            None
        }
    } else if b[i] == 0x2d || is_digit_byte(b[i]) {
        Some(number_tail(b, i))
    } else {
        None
    }
}

/// The position after the value that starts at `i`.
pub open spec fn value_end(b: Seq<u8>, i: int) -> Option<int> {
    if 0 <= i < b.len() && b[i] == 0x7b {
        Some(bracket_end(b, i + 1, 1, false, 0x7b, 0x7d))
    } else if 0 <= i < b.len() && b[i] == 0x5b {
        Some(bracket_end(b, i + 1, 1, false, 0x5b, 0x5d))
    } else {
        match scalar_tail(b, i) {
            Some(n) => Some(i + 1 + n),
            None => None,
        }
    }
}

/// What remains of the text at `i`.
pub open spec fn room(b: Seq<u8>, i: int) -> nat {
    if 0 <= i < b.len() {
        (b.len() - i) as nat
    } else {
        0
    }
}

/// A distance, if there is one, counted from `d` bytes earlier.
pub open spec fn later(n: Option<nat>, d: int) -> Option<nat> {
    match n {
        Some(x) => Some((d + x) as nat),
        None => None,
    }
}

/// The value that starts at `i`, as far as it can be read, and how many bytes
/// follow its first one, if it ends.
pub open spec fn read_value(b: Seq<u8>, i: int) -> (Node, Option<nat>)
    decreases room(b, i), 0nat,
{
    if i < 0 || i >= b.len() {
        (Node::Scalar, None)
    } else if b[i] == 0x7b {
        let (entries, n) = read_entries(b, i + 1, Seq::empty());
        (Node::Object(entries), n)
    } else if b[i] == 0x5b {
        let (items, n) = read_items(b, i + 1, Seq::empty());
        (Node::Array(items), n)
    } else {
        (Node::Scalar, scalar_tail(b, i))
    }
}

/// The entries of an object from `i` on, after those in `seen`, and how many
/// bytes they take with the closing brace.
pub open spec fn read_entries(b: Seq<u8>, i: int, seen: Seq<(Seq<char>, Node)>) -> (
    Seq<(Seq<char>, Node)>,
    Option<nat>,
)
    decreases room(b, i), 1nat,
{
    let p = space_end(b, i);
    let q = if 0 <= p < b.len() && b[p] == 0x2c {
        space_end(b, p + 1)
    } else {
        p
    };
    if i < 0 || q >= b.len() {
        (seen, None)
    } else if b[q] == 0x7d {
        (seen, Some((q + 1 - i) as nat))
    } else if b[q] != 0x22 {
        (seen, None)
    } else {
        match string_tail(b, q + 1) {
            None => (seen, None),
            Some((key, k)) => {
                let colon = space_end(b, q + 1 + k);
                if colon >= b.len() || b[colon] != 0x3a {
                    (seen, None)
                } else {
                    let v = space_end(b, colon + 1);
                    let (node, n) = read_value(b, v);
                    let all = seen.push((key, node));
                    match n {
                        None => (all, None),
                        Some(m) => {
                            let (rest, r) = read_entries(b, v + 1 + m, all);
                            (rest, later(r, v + 1 + m - i))
                        },
                    }
                }
            },
        }
    }
}

/// The elements of an array from `i` on, after those in `seen`, and how many
/// bytes they take with the closing bracket. Commas are passed over.
pub open spec fn read_items(b: Seq<u8>, i: int, seen: Seq<Node>) -> (Seq<Node>, Option<nat>)
    decreases room(b, i), 1nat,
{
    let p = space_end(b, i);
    if i < 0 || p >= b.len() {
        (seen, None)
    } else if b[p] == 0x5d {
        (seen, Some((p + 1 - i) as nat))
    } else if b[p] == 0x2c {
        let (rest, r) = read_items(b, p + 1, seen);
        (rest, later(r, p + 1 - i))
    } else {
        let (node, n) = read_value(b, p);
        let all = seen.push(node);
        match n {
            None => (all, None),
            Some(m) => {
                let (rest, r) = read_items(b, p + 1 + m, all);
                (rest, later(r, p + 1 + m - i))
            },
        }
    }
}

/// The dotted path of `key` under `prefix`.
pub open spec fn key_path(prefix: Seq<char>, key: Seq<char>) -> Seq<char> {
    if prefix.len() == 0 {
        key
    } else {
        prefix + "."@ + key
    }
}

/// The path of element `index` under `prefix`.
pub open spec fn item_path(prefix: Seq<char>, index: nat) -> Seq<char> {
    prefix + "["@ + decimal(index) + "]"@
}

/// Whether entry `n` repeats the key of an earlier one.
pub open spec fn repeats(entries: Seq<(Seq<char>, Node)>, n: int) -> bool {
    exists|j: int| 0 <= j < n && #[trigger] entries[j].0 == entries[n].0
}

/// The paths of the repeated keys in `node`, in the order of the text.
pub open spec fn repeated_keys(node: Node, prefix: Seq<char>) -> Seq<Seq<char>>
    decreases node, 0nat,
{
    match node {
        Node::Object(entries) => repeated_in_entries(entries, entries.len(), prefix),
        Node::Array(items) => repeated_in_items(items, items.len(), prefix),
        Node::Scalar => Seq::empty(),
    }
}

/// The paths of the repeated keys in the first `n` entries.
pub open spec fn repeated_in_entries(
    entries: Seq<(Seq<char>, Node)>,
    n: nat,
    prefix: Seq<char>,
) -> Seq<Seq<char>>
    decreases entries, n,
{
    if n == 0 || n > entries.len() {
        Seq::empty()
    } else {
        let path = key_path(prefix, entries[n - 1].0);
        let before = repeated_in_entries(entries, (n - 1) as nat, prefix);
        let own = if repeats(entries, n - 1) {
            seq![path]
        } else {
            Seq::empty()
        };
        before + own + repeated_keys(entries[n - 1].1, path)
    }
}

/// The paths of the repeated keys in the first `n` elements.
pub open spec fn repeated_in_items(items: Seq<Node>, n: nat, prefix: Seq<char>) -> Seq<Seq<char>>
    decreases items, n,
{
    if n == 0 || n > items.len() {
        Seq::empty()
    } else {
        repeated_in_items(items, (n - 1) as nat, prefix) + repeated_keys(
            items[n - 1],
            item_path(prefix, (n - 1) as nat),
        )
    }
}

/// The paths of the repeated keys in the JSON object that `text` holds between
/// white space; none where it does not start with a brace.
pub open spec fn duplicate_paths(text: Seq<char>) -> Seq<Seq<char>> {
    let body = trimmed(text);
    if body.len() > 0 && body[0] == '{' {
        repeated_keys(read_value(encode_utf8(body), 0).0, Seq::empty())
    } else {
        Seq::empty()
    }
}

proof fn lemma_string_run_fits(b: Seq<u8>, i: int)
    requires
        0 <= i,
    ensures
        string_run(b, i) matches Some(n) ==> i + n <= b.len() && n >= 1,
    decreases b.len() - i,
{
    if i < b.len() && b[i] != 0x22 {
        if b[i] == 0x5c {
            if i + 1 < b.len() {
                lemma_string_run_fits(b, i + 2);
            }
        } else {
            lemma_string_run_fits(b, i + 1);
        }
    }
}

proof fn lemma_entries_prefix(
    entries: Seq<(Seq<char>, Node)>,
    extra: (Seq<char>, Node),
    n: nat,
    prefix: Seq<char>,
)
    requires
        n <= entries.len(),
    ensures
        repeated_in_entries(entries.push(extra), n, prefix) == repeated_in_entries(
            entries,
            n,
            prefix,
        ),
    decreases n,
{
    if n > 0 {
        lemma_entries_prefix(entries, extra, (n - 1) as nat, prefix);
        let more = entries.push(extra);
        assert(more[n - 1] == entries[n - 1]);
        assert(repeats(more, n - 1) == repeats(entries, n - 1)) by {
            assert forall|j: int| 0 <= j < n - 1 implies #[trigger] more[j].0 == entries[j].0 by {}
            if repeats(more, n - 1) {
                let j = choose|j: int| 0 <= j < n - 1 && #[trigger] more[j].0 == more[n - 1].0;
                assert(entries[j].0 == entries[n - 1].0);
            }
            if repeats(entries, n - 1) {
                let j = choose|j: int| 0 <= j < n - 1 && #[trigger] entries[j].0 == entries[n - 1].0;
                assert(more[j].0 == more[n - 1].0);
            }
        }
    }
}

proof fn lemma_items_prefix(items: Seq<Node>, extra: Node, n: nat, prefix: Seq<char>)
    requires
        n <= items.len(),
    ensures
        repeated_in_items(items.push(extra), n, prefix) == repeated_in_items(items, n, prefix),
    decreases n,
{
    if n > 0 {
        lemma_items_prefix(items, extra, (n - 1) as nat, prefix);
        assert(items.push(extra)[n - 1] == items[n - 1]);
    }
}

/// Skips white space from `pos` on.
pub fn skip_whitespace(bytes: &[u8], pos: usize) -> (r: usize)
    ensures
        r == space_end(bytes@, pos as int),
        r >= pos,
        r <= bytes@.len() || r == pos,
{
    let mut i: usize = pos;
    while i < bytes.len() && (bytes[i] == 0x20 || bytes[i] == 0x09 || bytes[i] == 0x0a || bytes[i]
        == 0x0d)
        invariant
            pos <= i,
            i <= bytes@.len() || i == pos,
            space_end(bytes@, pos as int) == space_end(bytes@, i as int),
        decreases bytes.len() - i,
    {
        i = i + 1;
    }
    i
}

/// Reads the JSON string whose opening quote stands at `pos`: its text and the
/// position after the closing quote.
pub fn extract_string(bytes: &[u8], pos: usize) -> (r: Option<(String, usize)>)
    ensures
        match r {
            Some((s, end)) => pos < bytes@.len() && bytes@[pos as int] == 0x22 && pos + 1 < end
                && end <= bytes@.len() && string_tail(bytes@, pos + 1) == Some(
                (s@, (end - pos - 1) as nat),
            ),
            None => pos < bytes@.len() && bytes@[pos as int] == 0x22 ==> string_tail(
                bytes@,
                pos + 1,
            ) is None,
        },
{
    if pos >= bytes.len() || bytes[pos] != 0x22 {
        return None;
    }
    proof {
        lemma_string_run_fits(bytes@, pos + 1);
    }
    match skip_string(bytes, pos) {
        Some(end) => {
            let s: String = read_content(slice_subrange(bytes, pos + 1, end - 1));
            Some((s, end))
        },
        None => None,
    }
}

/// Skips the digits from `pos` on.
fn skip_digits(bytes: &[u8], pos: usize) -> (r: usize)
    requires
        pos <= bytes@.len(),
    ensures
        r == pos + digit_run(bytes@, pos as int),
        pos <= r <= bytes@.len(),
{
    let mut i: usize = pos;
    while i < bytes.len() && 0x30 <= bytes[i] && bytes[i] <= 0x39
        invariant
            pos <= i <= bytes@.len(),
            pos + digit_run(bytes@, pos as int) == i + digit_run(bytes@, i as int),
        decreases bytes.len() - i,
    {
        i = i + 1;
    }
    i
}

/// Skips the number that starts at `pos`.
fn skip_number(bytes: &[u8], pos: usize) -> (r: usize)
    requires
        pos < bytes@.len(),
        bytes@[pos as int] == 0x2d || is_digit_byte(bytes@[pos as int]),
    ensures
        r == pos + 1 + number_tail(bytes@, pos as int),
        pos < r <= bytes@.len(),
{
    let len: usize = bytes.len();
    assert(pos < len);
    let mut i: usize = skip_digits(bytes, pos + 1);
    if i < bytes.len() && bytes[i] == 0x2e {
        i = skip_digits(bytes, i + 1);
    }
    if i < bytes.len() && (bytes[i] == 0x65 || bytes[i] == 0x45) {
        if i + 1 < bytes.len() && (bytes[i + 1] == 0x2b || bytes[i + 1] == 0x2d) {
            i = skip_digits(bytes, i + 2);
        } else {
            i = skip_digits(bytes, i + 1);
        }
    }
    i
}

/// Skips the string whose opening quote stands at `pos`.
fn skip_string(bytes: &[u8], pos: usize) -> (r: Option<usize>)
    requires
        pos < bytes@.len(),
    ensures
        match string_run(bytes@, pos + 1) {
            Some(n) => r == Some((pos + 1 + n) as usize) && pos + 1 + n <= bytes@.len(),
            None => r is None,
        },
{
    let len: usize = bytes.len();
    assert(pos < len);
    let mut i: usize = pos + 1;
    while i < bytes.len()
        invariant
            pos < i <= bytes@.len(),
            string_run(bytes@, pos + 1) == later(string_run(bytes@, i as int), i - pos - 1),
        decreases bytes.len() - i,
    {
        if bytes[i] == 0x5c {
            if bytes.len() - i < 2 {
                return None;
            }
            i = i + 2;
            continue;
        }
        if bytes[i] == 0x22 {
            return Some(i + 1);
        }
        i = i + 1;
    }
    None
}

/// Skips the bracketed value that starts at `pos`, by counting brackets
/// outside strings.
fn skip_brackets(bytes: &[u8], pos: usize, open: u8, close: u8) -> (r: usize)
    requires
        pos < bytes@.len() < usize::MAX,
    ensures
        r == bracket_end(bytes@, pos + 1, 1, false, open, close),
{
    let mut depth: usize = 1;
    let mut i: usize = pos + 1;
    let mut in_string: bool = false;
    while i < bytes.len() && depth > 0
        invariant
            pos < i <= bytes@.len() + 1,
            bytes@.len() < usize::MAX,
            depth <= i,
            bracket_end(bytes@, pos + 1, 1, false, open, close) == bracket_end(
                bytes@,
                i as int,
                depth as nat,
                in_string,
                open,
                close,
            ),
        decreases bytes.len() + 1 - i,
    {
        if in_string {
            if bytes[i] == 0x5c {
                i = i + 1;
            } else if bytes[i] == 0x22 {
                in_string = false;
            }
        } else if bytes[i] == 0x22 {
            in_string = true;
        } else if bytes[i] == open {
            depth = depth + 1;
        } else if bytes[i] == close {
            depth = depth - 1;
        }
        i = i + 1;
    }
    i
}

/// The position after the JSON value that starts at `pos`.
pub fn skip_json_value(bytes: &[u8], pos: usize) -> (r: Option<usize>)
    requires
        pos < bytes@.len() && (bytes@[pos as int] == 0x7b || bytes@[pos as int] == 0x5b)
            ==> bytes@.len() < usize::MAX,
    ensures
        match value_end(bytes@, pos as int) {
            Some(end) => r == Some(end as usize) && pos < end <= bytes@.len() + 1 && (
            bytes@[pos as int] == 0x7b || bytes@[pos as int] == 0x5b || end <= bytes@.len()),
            None => r is None,
        },
{
    if pos >= bytes.len() {
        return None;
    }
    let c: u8 = bytes[pos];
    if c == 0x22 {
        skip_string(bytes, pos)
    } else if c == 0x7b {
        proof {
            lemma_bracket_end(bytes@, pos + 1, 1, false, 0x7b, 0x7d);
        }
        Some(skip_brackets(bytes, pos, 0x7b, 0x7d))
    } else if c == 0x5b {
        proof {
            lemma_bracket_end(bytes@, pos + 1, 1, false, 0x5b, 0x5d);
        }
        Some(skip_brackets(bytes, pos, 0x5b, 0x5d))
    } else if c == 0x74 || c == 0x6e {
        if bytes.len() - pos >= 4 {
            Some(pos + 4)
        } else {
            None
        }
    } else if c == 0x66 {
        if bytes.len() - pos >= 5 {
            Some(pos + 5)
        } else {
            None
        }
    } else if c == 0x2d || (0x30 <= c && c <= 0x39) {
        Some(skip_number(bytes, pos))
    } else {
        None
    }
}

proof fn lemma_bracket_end(b: Seq<u8>, i: int, depth: nat, in_string: bool, open: u8, close: u8)
    requires
        0 <= i <= b.len() + 1,
    ensures
        i <= bracket_end(b, i, depth, in_string, open, close) <= b.len() + 1,
    decreases room(b, i),
{
    if i < b.len() && depth > 0 {
        if in_string {
            if b[i] == 0x5c {
                lemma_bracket_end(b, i + 2, depth, true, open, close);
            } else {
                lemma_bracket_end(b, i + 1, depth, b[i] != 0x22, open, close);
            }
        } else if b[i] == 0x22 {
            lemma_bracket_end(b, i + 1, depth, true, open, close);
        } else if b[i] == open {
            lemma_bracket_end(b, i + 1, depth + 1, false, open, close);
        } else if b[i] == close {
            lemma_bracket_end(b, i + 1, (depth - 1) as nat, false, open, close);
        } else {
            lemma_bracket_end(b, i + 1, depth, false, open, close);
        }
    }
}

/// What reading a value from `start` does: the paths of its repeated keys are
/// appended to `results`, and the position after the value comes back.
pub open spec fn collects(
    b: Seq<u8>,
    start: int,
    prefix: Seq<char>,
    before: Seq<String>,
    after: Seq<String>,
    r: Option<usize>,
) -> bool {
    let (node, n) = read_value(b, start);
    &&& texts(after) == texts(before) + repeated_keys(node, prefix)
    &&& match n {
        Some(k) => r == Some((start + 1 + k) as usize) && start + 1 + k <= b.len(),
        None => r is None,
    }
}

/// Reads the object whose opening brace stands at `start` and appends the
/// paths of its repeated keys to `results`. Returns the position after the
/// closing brace, or `None` where the text is no JSON object.
#[verifier::rlimit(60)]
pub fn find_duplicates_in_object(
    bytes: &[u8],
    start: usize,
    prefix: &str,
    results: &mut Vec<String>,
) -> (r: Option<usize>)
    ensures
        if start < bytes@.len() && bytes@[start as int] == 0x7b {
            collects(bytes@, start as int, prefix@, old(results)@, final(results)@, r)
        } else {
            r is None && final(results)@ == old(results)@
        },
    decreases bytes@.len() - start, 0nat,
{
    if start >= bytes.len() || bytes[start] != 0x7b {
        return None;
    }
    let mut keys: Vec<String> = Vec::new();
    let mut pos: usize = start + 1;
    let ghost mut seen: Seq<(Seq<char>, Node)> = Seq::empty();
    let ghost b = bytes@;
    let ghost whole = read_entries(b, start + 1, Seq::empty());
    assert(texts(results@) =~= texts(old(results)@) + repeated_in_entries(seen, 0, prefix@));
    loop
        invariant
            b == bytes@,
            start < pos <= b.len(),
            b[start as int] == 0x7b,
            whole == read_entries(b, start + 1, Seq::empty()),
            whole.0 == read_entries(b, pos as int, seen).0,
            whole.1 == later(read_entries(b, pos as int, seen).1, pos - start - 1),
            keys@.len() == seen.len(),
            forall|i: int| 0 <= i < seen.len() ==> (#[trigger] keys@[i])@ == seen[i].0,
            texts(results@) == texts(old(results)@) + repeated_in_entries(
                seen,
                seen.len(),
                prefix@,
            ),
        decreases b.len() - pos,
    {
        let ghost from = pos;
        pos = skip_whitespace(bytes, pos);
        if pos >= bytes.len() {
            return None;
        }
        if bytes[pos] == 0x7d {
            return Some(pos + 1);
        }
        if bytes[pos] == 0x2c {
            pos = skip_whitespace(bytes, pos + 1);
            if pos >= bytes.len() {
                return None;
            }
        }
        if bytes[pos] == 0x7d {
            return Some(pos + 1);
        }
        if bytes[pos] != 0x22 {
            return None;
        }
        let (key, key_end) = match extract_string(bytes, pos) {
            Some(found) => found,
            None => {
                return None;
            },
        };
        let path: String = if prefix.is_empty() {
            key.clone()
        } else {
            let mut p: String = prefix.to_owned();
            p.append(".");
            p.append(key.as_str());
            p
        };
        pos = skip_whitespace(bytes, key_end);
        if pos >= bytes.len() || bytes[pos] != 0x3a {
            return None;
        }
        pos = skip_whitespace(bytes, pos + 1);
        let repeated: bool = crate::text::contains_text(keys.as_slice(), key.as_str());
        let ghost node = read_value(b, pos as int).0;
        let ghost all = seen.push((key@, node));
        let ghost count = seen.len();
        proof {
            assert(repeated == repeats(all, count as int)) by {
                if repeated {
                    let j = choose|j: int| 0 <= j < texts(keys@).len() && texts(keys@)[j] == key@;
                    assert(all[j].0 == all[count as int].0);
                }
                if repeats(all, count as int) {
                    let j = choose|j: int|
                        0 <= j < count && #[trigger] all[j].0 == all[count as int].0;
                    assert(texts(keys@)[j] == key@);
                }
            }
            lemma_entries_prefix(seen, (key@, node), count, prefix@);
        }
        let ghost before = results@;
        if repeated {
            results.push(path.clone());
            assert(texts(results@) =~= texts(before) + seq![path@]);
        } else {
            assert(texts(results@) =~= texts(before) + Seq::<Seq<char>>::empty());
        }
        keys.push(key);
        let end: Option<usize> = collect_value_duplicates(bytes, pos, path.as_str(), results);
        proof {
            assert(texts(results@) =~= texts(old(results)@) + repeated_in_entries(
                all,
                (count + 1) as nat,
                prefix@,
            ));
            seen = all;
        }
        match end {
            Some(e) => {
                pos = e;
            },
            None => {
                return None;
            },
        }
    }
}

/// Reads the value that starts at `pos` and appends the paths of the keys that
/// are repeated in it to `results`. Returns the position after the value, or
/// `None` where the text is no JSON value.
#[verifier::rlimit(60)]
pub fn collect_value_duplicates(
    bytes: &[u8],
    pos: usize,
    prefix: &str,
    results: &mut Vec<String>,
) -> (r: Option<usize>)
    ensures
        collects(bytes@, pos as int, prefix@, old(results)@, final(results)@, r),
    decreases bytes@.len() - pos, 1nat,
{
    let ghost b = bytes@;
    if pos >= bytes.len() {
        assert(texts(results@) =~= texts(old(results)@) + Seq::<Seq<char>>::empty());
        return None;
    }
    if bytes[pos] == 0x7b {
        return find_duplicates_in_object(bytes, pos, prefix, results);
    }
    if bytes[pos] != 0x5b {
        assert(texts(results@) =~= texts(old(results)@) + Seq::<Seq<char>>::empty());
        return skip_json_value(bytes, pos);
    }
    let mut p: usize = pos + 1;
    let mut index: usize = 0;
    let ghost mut seen: Seq<Node> = Seq::empty();
    let ghost whole = read_items(b, pos + 1, Seq::empty());
    assert(texts(results@) =~= texts(old(results)@) + repeated_in_items(seen, 0, prefix@));
    loop
        invariant
            b == bytes@,
            pos < p <= b.len(),
            b[pos as int] == 0x5b,
            whole == read_items(b, pos + 1, Seq::empty()),
            whole.0 == read_items(b, p as int, seen).0,
            whole.1 == later(read_items(b, p as int, seen).1, p - pos - 1),
            index == seen.len(),
            index < p,
            texts(results@) == texts(old(results)@) + repeated_in_items(seen, seen.len(), prefix@),
        decreases b.len() - p,
    {
        p = skip_whitespace(bytes, p);
        if p >= bytes.len() {
            return None;
        }
        if bytes[p] == 0x5d {
            return Some(p + 1);
        }
        if bytes[p] == 0x2c {
            p = p + 1;
            continue;
        }
        let mut path: String = prefix.to_owned();
        path.append("[");
        push_decimal(&mut path, index as u64);
        path.append("]");
        let ghost node = read_value(b, p as int).0;
        let ghost all = seen.push(node);
        proof {
            lemma_items_prefix(seen, node, seen.len(), prefix@);
        }
        let end: Option<usize> = collect_value_duplicates(bytes, p, path.as_str(), results);
        proof {
            assert(texts(results@) =~= texts(old(results)@) + repeated_in_items(
                all,
                (index + 1) as nat,
                prefix@,
            ));
            seen = all;
        }
        match end {
            Some(e) => {
                p = e;
            },
            None => {
                return None;
            },
        }
        index = index + 1;
    }
}

/// The dotted paths of all the repeated keys of the JSON object `json_str`.
pub fn find_all_duplicate_json_keys(json_str: &str) -> (r: Vec<String>)
    ensures
        texts(r@) == duplicate_paths(json_str@),
{
    let body: &str = trim(json_str);
    let mut results: Vec<String> = Vec::new();
    if body.is_empty() || body.get_char(0) != '{' {
        assert(texts(results@) =~= Seq::<Seq<char>>::empty());
        return results;
    }
    proof {
        lemma_starts_with_brace(body@);
    }
    let empty: String = String::new();
    let bytes: &[u8] = body.as_bytes();
    let end: Option<usize> = find_duplicates_in_object(bytes, 0, empty.as_str(), &mut results);
    assert(texts(Seq::<String>::empty()) =~= Seq::<Seq<char>>::empty());
    assert(texts(results@) =~= duplicate_paths(json_str@));
    results
}

/// A text that starts with a brace is encoded with the brace's byte first.
proof fn lemma_starts_with_brace(s: Seq<char>)
    requires
        s.len() > 0,
        s[0] == '{',
    ensures
        encode_utf8(s).len() > 0,
        encode_utf8(s)[0] == 0x7b,
{
    reveal_with_fuel(encode_utf8, 1);
    assert(vstd::utf8::encode_scalar(0x7b) =~= seq![0x7bu8]) by {
        assert(0x7bu32 & 0x7f == 0x7b) by (bit_vector);
    }
}

/// The path of the first repeated key of the JSON object `json_str`.
pub fn find_duplicate_json_key(json_str: &str) -> (r: Option<String>)
    ensures
        match r {
            Some(path) => duplicate_paths(json_str@).len() > 0 && path@ == duplicate_paths(
                json_str@,
            )[0],
            None => duplicate_paths(json_str@).len() == 0,
        },
{
    let found: Vec<String> = find_all_duplicate_json_keys(json_str);
    if found.len() == 0 {
        None
    } else {
        assert(texts(found@)[0] == found@[0]@);
        Some(found[0].clone())
    }
}

/// The path of the first repeated key of the JSON object `json_str`, for
/// handlers that decode with a parser which merges repeated keys.
pub fn find_duplicate_json_key_public(json_str: &str) -> (r: Option<String>)
    ensures
        match r {
            Some(path) => duplicate_paths(json_str@).len() > 0 && path@ == duplicate_paths(
                json_str@,
            )[0],
            None => duplicate_paths(json_str@).len() == 0,
        },
{
    find_duplicate_json_key(json_str)
}

} // verus!
