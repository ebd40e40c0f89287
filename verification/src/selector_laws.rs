//! What label selectors mean: every selector that can be written selects
//! exactly the labels that meet all of its clauses.
use vstd::prelude::*;
use crate::selector::{
    bracket_balance, label_requirements, label_selected, requirement_holds, requirements_from,
    selects, set_requirement, set_values, SetRequirementView,
};
use crate::text::{
    find_char, find_char_from, find_from, find_text, split_at_char, trimmed, trimmed_end,
    trimmed_start, without_end, without_start,
};

verus! {

/// White space.
pub open spec fn is_space(c: char) -> bool {
    let n = c as u32;
    ||| 0x09 <= n <= 0x0d
    ||| n == 0x20
    ||| n == 0x85
    ||| n == 0xa0
    ||| n == 0x1680
    ||| 0x2000 <= n <= 0x200a
    ||| n == 0x2028
    ||| n == 0x2029
    ||| n == 0x202f
    ||| n == 0x205f
    ||| n == 0x3000
}

/// A character that separates nothing: neither a comma nor a bracket.
pub open spec fn is_inner(c: char) -> bool {
    c != ',' && c != '(' && c != ')'
}

/// A text that can stand as a value: without commas and brackets, and without
/// white space at its ends.
pub open spec fn is_plain(s: Seq<char>) -> bool {
    &&& forall|i: int| 0 <= i < s.len() ==> is_inner(#[trigger] s[i])
    &&& s.len() > 0 ==> !is_space(s[0]) && !is_space(s[s.len() - 1])
}

/// A text that can stand as a key: not empty, plain, and without equals and
/// exclamation marks.
pub open spec fn is_key(s: Seq<char>) -> bool {
    &&& s.len() > 0
    &&& is_plain(s)
    &&& forall|i: int| 0 <= i < s.len() ==> #[trigger] s[i] != '=' && s[i] != '!'
}

/// Blanks.
pub open spec fn blanks(n: nat) -> Seq<char> {
    Seq::new(n, |i: int| ' ')
}

/// A text with blanks around it.
pub struct Spaced {
    pub before: nat,
    pub text: Seq<char>,
    pub after: nat,
}

/// A text with its blanks.
pub open spec fn spaced(s: Spaced) -> Seq<char> {
    blanks(s.before) + s.text + blanks(s.after)
}

/// One thing that a selector asks for.
pub enum Wanted {
    /// `key=value`
    Is(Seq<char>, Seq<char>),
    /// `key==value`
    Equals(Seq<char>, Seq<char>),
    /// `key!=value`
    IsNot(Seq<char>, Seq<char>),
    /// `key in (value,value)`
    OneOf(Seq<char>, Seq<Spaced>),
    /// `key notin (value,value)`
    NoneOf(Seq<char>, Seq<Spaced>),
    /// `key`
    Has(Seq<char>),
    /// `!key`
    HasNot(Seq<char>),
}

/// Values from `k` on, with commas between them.
pub open spec fn listed(values: Seq<Spaced>, k: int) -> Seq<char>
    decreases values.len() - k,
{
    if k < 0 || k >= values.len() {
        Seq::empty()
    } else if k == values.len() - 1 {
        spaced(values[k])
    } else {
        spaced(values[k]) + seq![','] + listed(values, k + 1)
    }
}

/// How it is written.
pub open spec fn written(w: Wanted) -> Seq<char> {
    match w {
        Wanted::Is(key, value) => key + seq!['='] + value,
        Wanted::Equals(key, value) => key + seq!['=', '='] + value,
        Wanted::IsNot(key, value) => key + seq!['!', '='] + value,
        Wanted::OneOf(key, values) => key + seq![' ', 'i', 'n', ' ', '('] + (listed(values, 0)
            + seq![')']),
        Wanted::NoneOf(key, values) => key + seq![' ', 'n', 'o', 't', 'i', 'n', ' ', '('] + (listed(
            values,
            0,
        ) + seq![')']),
        Wanted::Has(key) => key,
        Wanted::HasNot(key) => seq!['!'] + key,
    }
}

/// Whether it can be written: with a key that is one, and plain values. A value
/// that starts with an equals mark is another way to write `==`.
pub open spec fn can_be_written(w: Wanted) -> bool {
    match w {
        Wanted::Is(key, value) => is_key(key) && is_plain(value) && (value.len() > 0 ==> value[0]
            != '='),
        Wanted::Equals(key, value) => is_key(key) && is_plain(value) && (value.len() > 0
            ==> value[0] != '='),
        Wanted::IsNot(key, value) => is_key(key) && is_plain(value),
        Wanted::OneOf(key, values) => is_key(key) && values.len() > 0 && forall|i: int|
            0 <= i < values.len() ==> is_plain((#[trigger] values[i]).text),
        Wanted::NoneOf(key, values) => is_key(key) && values.len() > 0 && forall|i: int|
            0 <= i < values.len() ==> is_plain((#[trigger] values[i]).text),
        Wanted::Has(key) => is_key(key),
        Wanted::HasNot(key) => is_key(key),
    }
}

/// Whether labels meet it.
pub open spec fn met(w: Wanted, labels: Map<Seq<char>, Seq<char>>) -> bool {
    match w {
        Wanted::Is(key, value) => labels.dom().contains(key) && labels[key] == value,
        Wanted::Equals(key, value) => labels.dom().contains(key) && labels[key] == value,
        Wanted::IsNot(key, value) => !(labels.dom().contains(key) && labels[key] == value),
        Wanted::OneOf(key, values) => labels.dom().contains(key) && exists|i: int|
            0 <= i < values.len() && (#[trigger] values[i]).text == labels[key],
        Wanted::NoneOf(key, values) => !labels.dom().contains(key) || forall|i: int|
            0 <= i < values.len() ==> (#[trigger] values[i]).text != labels[key],
        Wanted::Has(key) => labels.dom().contains(key),
        Wanted::HasNot(key) => !labels.dom().contains(key),
    }
}

/// A clause of a selector, with blanks around it.
pub struct Clause {
    pub before: nat,
    pub wanted: Wanted,
    pub after: nat,
}

/// A clause with its blanks.
pub open spec fn clause_text(c: Clause) -> Seq<char> {
    blanks(c.before) + written(c.wanted) + blanks(c.after)
}

/// The clauses from `k` on, with commas between them.
pub open spec fn selector_from(cs: Seq<Clause>, k: int) -> Seq<char>
    decreases cs.len() - k,
{
    if k < 0 || k >= cs.len() {
        Seq::empty()
    } else if k == cs.len() - 1 {
        clause_text(cs[k])
    } else {
        clause_text(cs[k]) + seq![','] + selector_from(cs, k + 1)
    }
}

proof fn lemma_find_char_at(s: Seq<char>, c: char, i: int, k: int)
    requires
        0 <= i <= k < s.len(),
        s[k] == c,
        forall|j: int| i <= j < k ==> #[trigger] s[j] != c,
    ensures
        find_char_from(s, c, i) == Some(k),
    decreases k - i,
{
    if i < k {
        assert(s[i] != c);
        lemma_find_char_at(s, c, i + 1, k);
    }
}

proof fn lemma_find_char_none(s: Seq<char>, c: char, i: int)
    requires
        0 <= i,
        forall|j: int| i <= j < s.len() ==> #[trigger] s[j] != c,
    ensures
        find_char_from(s, c, i) is None,
    decreases s.len() - i,
{
    if i < s.len() {
        assert(s[i] != c);
        lemma_find_char_none(s, c, i + 1);
    }
}

proof fn lemma_find_at(s: Seq<char>, pat: Seq<char>, i: int, k: int)
    requires
        0 <= i <= k,
        k + pat.len() <= s.len(),
        s.subrange(k, k + pat.len()) == pat,
        forall|j: int| i <= j < k ==> #[trigger] s.subrange(j, j + pat.len()) != pat,
    ensures
        find_from(s, pat, i) == Some(k),
    decreases k - i,
{
    if i < k {
        assert(s.subrange(i, i + pat.len()) != pat);
        lemma_find_at(s, pat, i + 1, k);
    }
}

proof fn lemma_find_none(s: Seq<char>, pat: Seq<char>, i: int)
    requires
        0 <= i,
        forall|j: int|
            i <= j && j + pat.len() <= s.len() ==> #[trigger] s.subrange(j, j + pat.len()) != pat,
    ensures
        find_from(s, pat, i) is None,
    decreases s.len() + 1 - i,
{
    if i + pat.len() <= s.len() {
        assert(s.subrange(i, i + pat.len()) != pat);
        lemma_find_none(s, pat, i + 1);
    }
}

/// No text with a bracket stands in one without.
proof fn lemma_find_bracket(s: Seq<char>, pat: Seq<char>)
    requires
        pat.len() > 0,
        pat.last() == '(',
        forall|j: int| 0 <= j < s.len() ==> #[trigger] s[j] != '(',
    ensures
        find_text(s, pat) is None,
{
    assert forall|j: int| 0 <= j && j + pat.len() <= s.len() implies #[trigger] s.subrange(
        j,
        j + pat.len(),
    ) != pat by {
        let t = s.subrange(j, j + pat.len());
        assert(t[pat.len() - 1] == s[j + pat.len() - 1]);
    }
    lemma_find_none(s, pat, 0);
}

proof fn lemma_trim_start(n: nat, v: Seq<char>)
    requires
        v.len() > 0 ==> !is_space(v[0]),
    ensures
        trimmed_start(blanks(n) + v) == v,
    decreases n,
{
    let s = blanks(n) + v;
    if n > 0 {
        assert(s[0] == ' ');
        assert(s.skip(1) =~= blanks((n - 1) as nat) + v);
        lemma_trim_start((n - 1) as nat, v);
    } else {
        assert(s =~= v);
    }
}

proof fn lemma_trim_end(v: Seq<char>, n: nat)
    requires
        v.len() > 0 ==> !is_space(v.last()),
    ensures
        trimmed_end(v + blanks(n)) == v,
    decreases n,
{
    let s = v + blanks(n);
    if n > 0 {
        assert(s.last() == ' ');
        assert(s.drop_last() =~= v + blanks((n - 1) as nat));
        lemma_trim_end(v, (n - 1) as nat);
    } else {
        assert(s =~= v);
    }
}

/// Blanks around a text are taken off.
pub proof fn lemma_trim(before: nat, v: Seq<char>, after: nat)
    requires
        v.len() > 0 ==> !is_space(v[0]),
        v.len() > 0 ==> !is_space(v.last()),
    ensures
        trimmed(blanks(before) + v + blanks(after)) == v,
{
    let s = blanks(before) + v + blanks(after);
    if v.len() > 0 {
        assert(s =~= blanks(before) + (v + blanks(after)));
        assert((v + blanks(after))[0] == v[0]);
        lemma_trim_start(before, v + blanks(after));
        lemma_trim_end(v, after);
    } else {
        assert(s =~= blanks(before + after) + v);
        lemma_trim_start(before + after, v);
        lemma_trim_end(v, 0);
        assert(v + blanks(0) =~= v);
    }
}

proof fn lemma_spaced_chars(s: Spaced)
    requires
        is_plain(s.text),
    ensures
        forall|j: int| 0 <= j < spaced(s).len() ==> is_inner(#[trigger] spaced(s)[j]),
{
    let t = spaced(s);
    assert forall|j: int| 0 <= j < t.len() implies is_inner(#[trigger] t[j]) by {
        if s.before <= j < s.before + s.text.len() {
            assert(t[j] == s.text[j - s.before]);
        }
    }
}

proof fn lemma_listed_chars(values: Seq<Spaced>, k: int)
    requires
        forall|i: int| 0 <= i < values.len() ==> is_plain((#[trigger] values[i]).text),
        0 <= k,
    ensures
        forall|j: int|
            0 <= j < listed(values, k).len() ==> is_inner(#[trigger] listed(values, k)[j])
                || listed(values, k)[j] == ',',
    decreases values.len() - k,
{
    if k < values.len() {
        assert(is_plain(values[k].text));
        lemma_spaced_chars(values[k]);
        lemma_listed_chars(values, k + 1);
        let t = listed(values, k);
        let head = spaced(values[k]);
        assert forall|j: int| 0 <= j < t.len() implies is_inner(#[trigger] t[j]) || t[j]
            == ',' by {
            if j < head.len() {
                assert(t[j] == head[j]);
            } else if j > head.len() {
                assert(t[j] == listed(values, k + 1)[j - head.len() - 1]);
            }
        }
    }
}

/// The values of a list are found between its commas.
proof fn lemma_listed_split(values: Seq<Spaced>, k: int)
    requires
        forall|i: int| 0 <= i < values.len() ==> is_plain((#[trigger] values[i]).text),
        0 <= k < values.len(),
    ensures
        split_at_char(listed(values, k), ',').len() == values.len() - k,
        forall|i: int|
            0 <= i < values.len() - k ==> #[trigger] split_at_char(listed(values, k), ',')[i]
                == spaced(values[k + i]),
    decreases values.len() - k,
{
    let t = listed(values, k);
    let head = spaced(values[k]);
    assert(is_plain(values[k].text));
    lemma_spaced_chars(values[k]);
    if k == values.len() - 1 {
        assert forall|j: int| 0 <= j < t.len() implies #[trigger] t[j] != ',' by {
            assert(t[j] == head[j]);
        }
        lemma_find_char_none(t, ',', 0);
    } else {
        let rest = listed(values, k + 1);
        assert forall|j: int| 0 <= j < head.len() implies #[trigger] t[j] != ',' by {
            assert(t[j] == head[j]);
        }
        assert(t[head.len() as int] == ',');
        lemma_find_char_at(t, ',', 0, head.len() as int);
        assert(t.take(head.len() as int) =~= head);
        assert(t.skip(head.len() as int + 1) =~= rest);
        lemma_listed_split(values, k + 1);
        let all = split_at_char(t, ',');
        assert(all == seq![head] + split_at_char(rest, ','));
        assert forall|i: int| 0 <= i < values.len() - k implies #[trigger] all[i] == spaced(
            values[k + i],
        ) by {
            if i > 0 {
                assert(all[i] == split_at_char(rest, ',')[i - 1]);
                assert(split_at_char(rest, ',')[i - 1] == spaced(values[k + 1 + (i - 1)]));
            }
        }
    }
}

/// Every value of a set is read, in its place and without its blanks, and
/// nothing else is.
pub proof fn law_all_values_of_a_set_are_read(values: Seq<Spaced>)
    requires
        values.len() > 0,
        forall|i: int| 0 <= i < values.len() ==> is_plain((#[trigger] values[i]).text),
    ensures
        set_values(listed(values, 0) + seq![')']).len() == values.len(),
        forall|i: int|
            0 <= i < values.len() ==> #[trigger] set_values(listed(values, 0) + seq![')'])[i]
                == values[i].text,
{
    let list = listed(values, 0);
    let s = list + seq![')'];
    lemma_listed_chars(values, 0);
    assert(s.last() == ')');
    assert(s.drop_last() =~= list);
    assert(without_end(list, ')') == list) by {
        if list.len() > 0 {
            assert(list[list.len() - 1] != ')');
        }
    }
    assert(without_end(s, ')') == list);
    lemma_listed_split(values, 0);
    assert forall|i: int| 0 <= i < values.len() implies #[trigger] set_values(s)[i]
        == values[i].text by {
        assert(split_at_char(list, ',')[i] == spaced(values[i]));
        let v = values[i];
        assert(is_plain(v.text));
        lemma_trim(v.before, v.text, v.after);
    }
}

proof fn lemma_set_chars(key: Seq<char>, op: Seq<char>, values: Seq<Spaced>, r: Seq<char>)
    requires
        is_plain(key),
        forall|i: int| 0 <= i < values.len() ==> is_plain((#[trigger] values[i]).text),
        op.len() > 0,
        op.last() == '(',
        forall|j: int| 0 <= j < op.len() - 1 ==> #[trigger] op[j] != '(' && op[j] != ')' && op[j] != ',',
        r == key + op + (listed(values, 0) + seq![')']),
    ensures
        forall|j: int|
            0 <= j < r.len() && j != key.len() + op.len() - 1 ==> #[trigger] r[j] != '(',
        forall|j: int| 0 <= j < r.len() - 1 ==> #[trigger] r[j] != ')',
        forall|j: int| 0 <= j < key.len() + op.len() ==> #[trigger] r[j] != ',',
        r.len() == key.len() + op.len() + listed(values, 0).len() + 1,
        r[r.len() - 1] == ')',
        r[key.len() + op.len() - 1] == '(',
{
    let list = listed(values, 0);
    let n = key.len() + op.len();
    lemma_listed_chars(values, 0);
    assert forall|j: int| 0 <= j < r.len() implies (j != n - 1 ==> #[trigger] r[j] != '(') && (j
        < r.len() - 1 ==> r[j] != ')') && (j < n ==> r[j] != ',') by {
        if j < key.len() {
            assert(r[j] == key[j]);
        } else if j < n {
            assert(r[j] == op[j - key.len()]);
        } else if j < n + list.len() {
            assert(r[j] == list[j - n]);
        }
    }
}

pub proof fn lemma_one_of(key: Seq<char>, values: Seq<Spaced>)
    requires
        can_be_written(Wanted::OneOf(key, values)),
    ensures
        ({
            let r = written(Wanted::OneOf(key, values));
            set_requirement(r) matches Some(SetRequirementView::In(k, v)) && k == key && v
                == set_values(listed(values, 0) + seq![')'])
        }),
{
    let op = seq![' ', 'i', 'n', ' ', '('];
    let tail = listed(values, 0) + seq![')'];
    let r = key + op + tail;
    reveal_strlit(" in (");
    let pat = " in ("@;
    assert(pat =~= op);
    let k = key.len() as int;
    assert(r.subrange(k, k + 5) =~= op);
    lemma_set_chars(key, op, values, r);
    assert forall|j: int| 0 <= j < k implies #[trigger] r.subrange(j, j + pat.len()) != pat by {
        assert(r.subrange(j, j + 5)[4] == r[j + 4]);
    }
    lemma_find_at(r, pat, 0, k);
    assert(r.take(k) =~= key);
    assert(r.skip(k + 5) =~= tail);
    lemma_trim(0, key, 0);
    assert(blanks(0) + key + blanks(0) =~= key);
}

pub proof fn lemma_none_of(key: Seq<char>, values: Seq<Spaced>)
    requires
        can_be_written(Wanted::NoneOf(key, values)),
    ensures
        ({
            let r = written(Wanted::NoneOf(key, values));
            set_requirement(r) matches Some(SetRequirementView::NotIn(k, v)) && k == key && v
                == set_values(listed(values, 0) + seq![')'])
        }),
{
    let op = seq![' ', 'n', 'o', 't', 'i', 'n', ' ', '('];
    let tail = listed(values, 0) + seq![')'];
    let r = key + op + tail;
    reveal_strlit(" in (");
    reveal_strlit(" notin (");
    let short = " in ("@;
    let pat = " notin ("@;
    assert(pat =~= op);
    let k = key.len() as int;
    lemma_set_chars(key, op, values, r);
    assert forall|j: int| 0 <= j && j + short.len() <= r.len() implies #[trigger] r.subrange(
        j,
        j + short.len(),
    ) != short by {
        let t = r.subrange(j, j + 5);
        assert(t[4] == r[j + 4]);
        assert(t[0] == r[j]);
        if j + 4 == k + 7 {
            assert(r[j] == op[3]);
        }
    }
    lemma_find_none(r, short, 0);
    assert(r.subrange(k, k + 8) =~= op);
    assert forall|j: int| 0 <= j < k implies #[trigger] r.subrange(j, j + pat.len()) != pat by {
        assert(r.subrange(j, j + 8)[7] == r[j + 7]);
    }
    lemma_find_at(r, pat, 0, k);
    assert(r.take(k) =~= key);
    assert(r.skip(k + 8) =~= tail);
    lemma_trim(0, key, 0);
    assert(blanks(0) + key + blanks(0) =~= key);
}

proof fn lemma_no_set(r: Seq<char>)
    requires
        forall|j: int| 0 <= j < r.len() ==> #[trigger] r[j] != '(',
    ensures
        set_requirement(r) is None,
{
    reveal_strlit(" in (");
    reveal_strlit(" notin (");
    lemma_find_bracket(r, " in ("@);
    lemma_find_bracket(r, " notin ("@);
}

proof fn lemma_plain_clause(w: Wanted)
    requires
        can_be_written(w),
        !(w is OneOf),
        !(w is NoneOf),
    ensures
        forall|j: int|
            0 <= j < written(w).len() ==> is_inner(#[trigger] written(w)[j]),
{
    let r = written(w);
    assert forall|j: int| 0 <= j < r.len() implies is_inner(#[trigger] r[j]) by {
        match w {
            Wanted::Is(key, value) => {
                if j < key.len() {
                    assert(r[j] == key[j]);
                } else if j > key.len() {
                    assert(r[j] == value[j - key.len() - 1]);
                }
            },
            Wanted::Equals(key, value) => {
                if j < key.len() {
                    assert(r[j] == key[j]);
                } else if j > key.len() + 1 {
                    assert(r[j] == value[j - key.len() - 2]);
                }
            },
            Wanted::IsNot(key, value) => {
                if j < key.len() {
                    assert(r[j] == key[j]);
                } else if j > key.len() + 1 {
                    assert(r[j] == value[j - key.len() - 2]);
                }
            },
            Wanted::Has(key) => {
                assert(r[j] == key[j]);
            },
            Wanted::HasNot(key) => {
                if j > 0 {
                    assert(r[j] == key[j - 1]);
                }
            },
            _ => {},
        }
    }
}

/// A clause means what it says: labels meet its text if and only if they meet
/// it.
pub proof fn law_clause_means_what_it_says(w: Wanted, labels: Map<Seq<char>, Seq<char>>)
    requires
        can_be_written(w),
    ensures
        requirement_holds(written(w), labels) == met(w, labels),
{
    let r = written(w);
    match w {
        Wanted::OneOf(key, values) => {
            lemma_one_of(key, values);
            law_all_values_of_a_set_are_read(values);
            let v = set_values(listed(values, 0) + seq![')']);
            if labels.dom().contains(key) {
                if v.contains(labels[key]) {
                    let i = choose|i: int| 0 <= i < v.len() && v[i] == labels[key];
                    assert(values[i].text == labels[key]);
                }
                if met(w, labels) {
                    let i = choose|i: int|
                        0 <= i < values.len() && (#[trigger] values[i]).text == labels[key];
                    assert(v[i] == labels[key]);
                }
            }
        },
        Wanted::NoneOf(key, values) => {
            lemma_none_of(key, values);
            law_all_values_of_a_set_are_read(values);
            let v = set_values(listed(values, 0) + seq![')']);
            if labels.dom().contains(key) {
                if v.contains(labels[key]) {
                    let i = choose|i: int| 0 <= i < v.len() && v[i] == labels[key];
                    assert(values[i].text == labels[key]);
                }
                if !met(w, labels) {
                    let i = choose|i: int|
                        0 <= i < values.len() && (#[trigger] values[i]).text == labels[key];
                    assert(v[i] == labels[key]);
                }
            }
        },
        _ => {
            lemma_plain_clause(w);
            assert forall|j: int| 0 <= j < r.len() implies #[trigger] r[j] != '(' by {
                assert(is_inner(r[j]));
            }
            lemma_no_set(r);
            match w {
                Wanted::Is(key, value) => {
                    lemma_key_before(r, key, key.len() as int);
                    assert(r.take(key.len() as int) =~= key);
                    assert(r.skip(key.len() as int + 1) =~= value);
                    assert(key[key.len() - 1] != '!');
                },
                Wanted::Equals(key, value) => {
                    lemma_key_before(r, key, key.len() as int);
                    assert(r.take(key.len() as int) =~= key);
                    let rest = seq!['='] + value;
                    assert(r.skip(key.len() as int + 1) =~= rest);
                    assert(key[key.len() - 1] != '!');
                    assert(rest.skip(1) =~= value);
                    assert(without_start(value, '=') == value);
                },
                Wanted::IsNot(key, value) => {
                    let named = key + seq!['!'];
                    assert forall|j: int| 0 <= j < named.len() implies #[trigger] r[j] != '=' by {
                        if j < key.len() {
                            assert(r[j] == key[j]);
                        }
                    }
                    lemma_find_char_at(r, '=', 0, named.len() as int);
                    assert(r.take(named.len() as int) =~= named);
                    assert(r.skip(named.len() as int + 1) =~= value);
                    assert(named.drop_last() =~= key);
                    assert(key[key.len() - 1] != '!');
                    assert(without_end(key, '!') == key);
                },
                Wanted::Has(key) => {
                    assert forall|j: int| 0 <= j < r.len() implies #[trigger] r[j] != '=' by {
                        assert(r[j] == key[j]);
                    }
                    lemma_find_char_none(r, '=', 0);
                    assert(key[0] != '!');
                },
                Wanted::HasNot(key) => {
                    assert forall|j: int| 0 <= j < r.len() implies #[trigger] r[j] != '=' by {
                        if j > 0 {
                            assert(r[j] == key[j - 1]);
                        }
                    }
                    lemma_find_char_none(r, '=', 0);
                    assert(r.skip(1) =~= key);
                },
                _ => {},
            }
        },
    }
}

proof fn lemma_key_before(r: Seq<char>, key: Seq<char>, k: int)
    requires
        is_key(key),
        k == key.len(),
        k < r.len(),
        r[k] == '=',
        forall|j: int| 0 <= j < k ==> r[j] == #[trigger] key[j],
    ensures
        find_char(r, '=') == Some(k),
{
    assert forall|j: int| 0 <= j < k implies #[trigger] r[j] != '=' by {
        assert(r[j] == key[j]);
    }
    lemma_find_char_at(r, '=', 0, k);
}

proof fn lemma_balance_without(t: Seq<char>, j: int)
    requires
        0 <= j <= t.len(),
        forall|i: int| 0 <= i < t.len() ==> #[trigger] t[i] != '(' && t[i] != ')',
    ensures
        bracket_balance(t, j) == 0,
    decreases j,
{
    if j > 0 {
        lemma_balance_without(t, j - 1);
        assert(t[j - 1] != '(');
    }
}

proof fn lemma_balance_between(t: Seq<char>, o: int, c: int, j: int)
    requires
        0 <= o < c < t.len(),
        0 <= j <= t.len(),
        t[o] == '(',
        t[c] == ')',
        forall|i: int| 0 <= i < t.len() && i != o ==> #[trigger] t[i] != '(',
        forall|i: int| 0 <= i < t.len() && i != c ==> #[trigger] t[i] != ')',
    ensures
        bracket_balance(t, j) == if o < j <= c {
            1int
        } else {
            0int
        },
    decreases j,
{
    if j > 0 {
        lemma_balance_between(t, o, c, j - 1);
    }
}

proof fn lemma_balance_within(s: Seq<char>, a: int, t: Seq<char>, j: int)
    requires
        0 <= a,
        a + t.len() <= s.len(),
        forall|i: int| 0 <= i < t.len() ==> s[a + i] == #[trigger] t[i],
        0 <= j <= t.len(),
    ensures
        bracket_balance(s, a + j) == bracket_balance(s, a) + bracket_balance(t, j),
    decreases j,
{
    if j > 0 {
        lemma_balance_within(s, a, t, j - 1);
        assert(s[a + (j - 1)] == t[j - 1]);
    }
}

/// A clause closes its brackets, and has commas between them only.
pub proof fn lemma_clause_closed(c: Clause)
    requires
        can_be_written(c.wanted),
    ensures
        clause_text(c).len() > 0,
        bracket_balance(clause_text(c), clause_text(c).len() as int) == 0,
        forall|j: int|
            0 <= j < clause_text(c).len() && #[trigger] clause_text(c)[j] == ',' ==> bracket_balance(
                clause_text(c),
                j,
            ) == 1,
{
    let t = clause_text(c);
    let r = written(c.wanted);
    let b = c.before as int;
    assert(t.len() == b + r.len() + c.after);
    assert forall|j: int| 0 <= j < t.len() implies #[trigger] t[j] == if b <= j < b + r.len() {
        r[j - b]
    } else {
        ' '
    } by {}
    match c.wanted {
        Wanted::OneOf(key, values) => {
            let op = seq![' ', 'i', 'n', ' ', '('];
            lemma_set_chars(key, op, values, r);
            lemma_set_closed(t, b, r, key.len() + op.len() - 1);
        },
        Wanted::NoneOf(key, values) => {
            let op = seq![' ', 'n', 'o', 't', 'i', 'n', ' ', '('];
            lemma_set_chars(key, op, values, r);
            lemma_set_closed(t, b, r, key.len() + op.len() - 1);
        },
        _ => {
            lemma_plain_clause(c.wanted);
            assert forall|i: int| 0 <= i < t.len() implies #[trigger] t[i] != '(' && t[i] != ')'
                && t[i] != ',' by {
                if b <= i < b + r.len() {
                    assert(t[i] == r[i - b]);
                    assert(is_inner(r[i - b]));
                }
            }
            lemma_balance_without(t, t.len() as int);
        },
    }
}

proof fn lemma_set_closed(t: Seq<char>, b: int, r: Seq<char>, o: int)
    requires
        0 <= b,
        0 <= o < r.len() - 1,
        b + r.len() <= t.len(),
        forall|j: int|
            0 <= j < t.len() ==> #[trigger] t[j] == if b <= j < b + r.len() {
                r[j - b]
            } else {
                ' '
            },
        r[o] == '(',
        r[r.len() - 1] == ')',
        forall|j: int| 0 <= j < r.len() && j != o ==> #[trigger] r[j] != '(',
        forall|j: int| 0 <= j < r.len() - 1 ==> #[trigger] r[j] != ')',
        forall|j: int| 0 <= j <= o ==> #[trigger] r[j] != ',',
    ensures
        bracket_balance(t, t.len() as int) == 0,
        forall|j: int| 0 <= j < t.len() && #[trigger] t[j] == ',' ==> bracket_balance(t, j) == 1,
{
    let c = b + r.len() - 1;
    assert forall|i: int| 0 <= i < t.len() && i != b + o implies #[trigger] t[i] != '(' by {
        if b <= i < b + r.len() {
            assert(t[i] == r[i - b]);
        }
    }
    assert forall|i: int| 0 <= i < t.len() && i != c implies #[trigger] t[i] != ')' by {
        if b <= i < b + r.len() {
            assert(t[i] == r[i - b]);
        }
    }
    assert(t[b + o] == r[o]);
    assert(t[c] == r[r.len() - 1]);
    lemma_balance_between(t, b + o, c, t.len() as int);
    assert forall|j: int| 0 <= j < t.len() && #[trigger] t[j] == ',' implies bracket_balance(t, j)
        == 1 by {
        assert(b <= j < b + r.len());
        assert(t[j] == r[j - b]);
        assert(j - b > o);
        lemma_balance_between(t, b + o, c, j);
    }
}

/// The search for the end of a clause passes over the clause.
proof fn lemma_pass_clause(s: Seq<char>, a: int, t: Seq<char>, j: int)
    requires
        0 <= a,
        a + t.len() <= s.len(),
        forall|i: int| 0 <= i < t.len() ==> s[a + i] == #[trigger] t[i],
        0 <= j <= t.len(),
        bracket_balance(s, a) == 0,
        forall|i: int| 0 <= i < t.len() && #[trigger] t[i] == ',' ==> bracket_balance(t, i) == 1,
    ensures
        requirements_from(s, a, a + j) == requirements_from(s, a, a + t.len()),
    decreases t.len() - j,
{
    if j < t.len() {
        lemma_balance_within(s, a, t, j);
        assert(s[a + j] == t[j]);
        lemma_pass_clause(s, a, t, j + 1);
    }
}

pub proof fn lemma_clauses_found(s: Seq<char>, a: int, cs: Seq<Clause>, k: int)
    requires
        0 <= a,
        0 <= k < cs.len(),
        forall|i: int| 0 <= i < cs.len() ==> can_be_written((#[trigger] cs[i]).wanted),
        s.len() == a + selector_from(cs, k).len(),
        forall|i: int|
            0 <= i < selector_from(cs, k).len() ==> s[a + i] == #[trigger] selector_from(cs, k)[i],
        bracket_balance(s, a) == 0,
    ensures
        requirements_from(s, a, a).len() == cs.len() - k,
        forall|i: int|
            0 <= i < cs.len() - k ==> #[trigger] requirements_from(s, a, a)[i] == clause_text(
                cs[k + i],
            ),
    decreases cs.len() - k,
{
    let all = selector_from(cs, k);
    let t = clause_text(cs[k]);
    assert(can_be_written(cs[k].wanted));
    lemma_clause_closed(cs[k]);
    assert forall|i: int| 0 <= i < t.len() implies s[a + i] == #[trigger] t[i] by {
        assert(all[i] == t[i]);
    }
    lemma_pass_clause(s, a, t, 0);
    lemma_balance_within(s, a, t, t.len() as int);
    let e = a + t.len();
    if k == cs.len() - 1 {
        assert(s.skip(a) =~= t);
    } else {
        let rest = selector_from(cs, k + 1);
        assert(all[t.len() as int] == ',');
        assert(s[a + t.len()] == all[t.len() as int]);
        assert(s.subrange(a, e) =~= t);
        assert(bracket_balance(s, e + 1) == 0);
        assert forall|i: int| 0 <= i < rest.len() implies s[e + 1 + i] == #[trigger] rest[i] by {
            assert(all[t.len() + 1 + i] == rest[i]);
            assert(s[a + (t.len() + 1 + i)] == all[t.len() + 1 + i]);
        }
        lemma_clauses_found(s, e + 1, cs, k + 1);
        let found = requirements_from(s, a, a);
        let later = requirements_from(s, e + 1, e + 1);
        assert(found == seq![t] + later);
        assert forall|i: int| 0 <= i < cs.len() - k implies #[trigger] found[i] == clause_text(
            cs[k + i],
        ) by {
            if i > 0 {
                assert(found[i] == later[i - 1]);
                assert(later[i - 1] == clause_text(cs[k + 1 + (i - 1)]));
            }
        }
    }
}

proof fn lemma_clause_trimmed(c: Clause)
    requires
        can_be_written(c.wanted),
    ensures
        trimmed(clause_text(c)) == written(c.wanted),
{
    let r = written(c.wanted);
    match c.wanted {
        Wanted::OneOf(key, values) => {
            assert(r[0] == key[0]);
            assert(r.last() == ')');
        },
        Wanted::NoneOf(key, values) => {
            assert(r[0] == key[0]);
            assert(r.last() == ')');
        },
        Wanted::Is(key, value) => {
            assert(r[0] == key[0]);
            if value.len() > 0 {
                assert(r.last() == value[value.len() - 1]);
            } else {
                assert(r.last() == '=');
            }
        },
        Wanted::Equals(key, value) => {
            assert(r[0] == key[0]);
            if value.len() > 0 {
                assert(r.last() == value[value.len() - 1]);
            } else {
                assert(r.last() == '=');
            }
        },
        Wanted::IsNot(key, value) => {
            assert(r[0] == key[0]);
            if value.len() > 0 {
                assert(r.last() == value[value.len() - 1]);
            } else {
                assert(r.last() == '=');
            }
        },
        Wanted::Has(key) => {},
        Wanted::HasNot(key) => {
            assert(r.last() == key[key.len() - 1]);
        },
    }
    lemma_trim(c.before, r, c.after);
}

/// A selector selects labels if and only if these meet every clause of it,
/// however many there are and in whatever form.
pub proof fn law_selector_means_its_clauses(cs: Seq<Clause>, labels: Map<Seq<char>, Seq<char>>)
    requires
        forall|i: int| 0 <= i < cs.len() ==> can_be_written((#[trigger] cs[i]).wanted),
    ensures
        label_selected(Some(selector_from(cs, 0)), Some(labels)) <==> forall|i: int|
            0 <= i < cs.len() ==> met((#[trigger] cs[i]).wanted, labels),
{
    let s = selector_from(cs, 0);
    if cs.len() > 0 {
        lemma_clauses_found(s, 0, cs, 0);
        lemma_clause_closed(cs[0]);
        let found = label_requirements(s);
        assert forall|i: int| 0 <= i < cs.len() implies requirement_holds(
            trimmed(#[trigger] found[i]),
            labels,
        ) == met(cs[i].wanted, labels) by {
            assert(found[i] == clause_text(cs[0 + i]));
            lemma_clause_trimmed(cs[i]);
            law_clause_means_what_it_says(cs[i].wanted, labels);
        }
        if selects(s, labels) {
            assert forall|i: int| 0 <= i < cs.len() implies met(
                (#[trigger] cs[i]).wanted,
                labels,
            ) by {
                assert(requirement_holds(trimmed(found[i]), labels));
            }
        }
        if forall|i: int| 0 <= i < cs.len() ==> met((#[trigger] cs[i]).wanted, labels) {
            assert forall|i: int| 0 <= i < found.len() implies requirement_holds(
                trimmed(#[trigger] found[i]),
                labels,
            ) by {
                assert(met(cs[i].wanted, labels));
            }
        }
    }
}

/// Without a selector every object is selected; with one that asks for anything
/// no object without labels is.
pub proof fn law_objects_without_labels(
    s: Seq<char>,
    labels: Option<Map<Seq<char>, Seq<char>>>,
)
    ensures
        label_selected(None, labels),
        label_selected(Some(Seq::empty()), labels),
        s.len() > 0 ==> !label_selected(Some(s), None),
{
}

/// A clause without text asks for nothing.
pub proof fn law_empty_clause_asks_for_nothing(labels: Map<Seq<char>, Seq<char>>)
    ensures
        requirement_holds(Seq::empty(), labels),
        requirement_holds(trimmed(blanks(1)), labels),
{
    lemma_trim(1, Seq::empty(), 0);
    assert(blanks(1) + Seq::empty() + blanks(0) =~= blanks(1));
}

} // verus!
