//! Label selectors in their text form: `key=value`, `key!=value`,
//! `key in (a,b)`, `key notin (a,b)`, `key`, `!key`, separated by commas.
use vstd::prelude::*;
use vstd::string::StrSliceExecFns;
use crate::collections::StringMap;
use crate::text::{
    chars_of, contains_text, find, find_text, same, split, split_at_char, split_once,
    split_once_at, text_of, texts, trim, trim_end_char, trim_start_char, trimmed, without_end,
    without_start,
};

verus! {

/// How many more brackets open than close in the first `i` characters.
pub open spec fn bracket_balance(s: Seq<char>, i: int) -> int
    decreases i,
{
    if i <= 0 || i > s.len() {
        0
    } else {
        bracket_balance(s, i - 1) + if s[i - 1] == '(' {
            1int
        } else if s[i - 1] == ')' {
            -1int
        } else {
            0int
        }
    }
}

/// The requirements of `s` from `start` on: cut at the commas from `i` on that
/// stand outside brackets. Nothing after the last comma is no requirement.
pub open spec fn requirements_from(s: Seq<char>, start: int, i: int) -> Seq<Seq<char>>
    decreases s.len() - i,
{
    if i < 0 || i >= s.len() {
        if 0 <= start < s.len() {
            seq![s.skip(start)]
        } else {
            Seq::empty()
        }
    } else if s[i] == ',' && bracket_balance(s, i) == 0 {
        seq![s.subrange(start, i)] + requirements_from(s, i + 1, i + 1)
    } else {
        requirements_from(s, start, i + 1)
    }
}

/// The requirements of a selector.
pub open spec fn label_requirements(s: Seq<char>) -> Seq<Seq<char>> {
    requirements_from(s, 0, 0)
}

/// A requirement on the set of values that a key may have.
pub enum SetRequirement {
    In(String, Vec<String>),
    NotIn(String, Vec<String>),
    Exists(String),
    NotExists(String),
}

/// The content of a [`SetRequirement`].
pub enum SetRequirementView {
    In(Seq<char>, Seq<Seq<char>>),
    NotIn(Seq<char>, Seq<Seq<char>>),
    Exists(Seq<char>),
    NotExists(Seq<char>),
}

impl View for SetRequirement {
    type V = SetRequirementView;

    open spec fn view(&self) -> SetRequirementView {
        match self {
            SetRequirement::In(k, v) => SetRequirementView::In(k@, texts(v@)),
            SetRequirement::NotIn(k, v) => SetRequirementView::NotIn(k@, texts(v@)),
            SetRequirement::Exists(k) => SetRequirementView::Exists(k@),
            SetRequirement::NotExists(k) => SetRequirementView::NotExists(k@),
        }
    }
}

/// `s` with white space taken off each text.
pub open spec fn all_trimmed(s: Seq<Seq<char>>) -> Seq<Seq<char>> {
    Seq::new(s.len(), |i: int| trimmed(s[i]))
}

/// The values of a set: what stands between the commas, without the closing
/// brackets at the end.
pub open spec fn set_values(s: Seq<char>) -> Seq<Seq<char>> {
    all_trimmed(split_at_char(without_end(s, ')'), ','))
}

/// The set requirement that `s` writes, if it writes one.
pub open spec fn set_requirement(s: Seq<char>) -> Option<SetRequirementView> {
    match find_text(s, " in ("@) {
        Some(i) => Some(
            SetRequirementView::In(trimmed(s.take(i)), set_values(s.skip(i + " in ("@.len()))),
        ),
        None => match find_text(s, " notin ("@) {
            Some(i) => Some(
                SetRequirementView::NotIn(
                    trimmed(s.take(i)),
                    set_values(s.skip(i + " notin ("@.len())),
                ),
            ),
            None => None,
        },
    }
}

/// Whether `labels` gives `key` one of `values`.
pub open spec fn has_one_of(
    labels: Map<Seq<char>, Seq<char>>,
    key: Seq<char>,
    values: Seq<Seq<char>>,
) -> bool {
    labels.dom().contains(key) && values.contains(labels[key])
}

/// Whether `labels` meets a set requirement.
pub open spec fn set_requirement_holds(
    r: SetRequirementView,
    labels: Map<Seq<char>, Seq<char>>,
) -> bool {
    match r {
        SetRequirementView::In(key, values) => has_one_of(labels, key, values),
        SetRequirementView::NotIn(key, values) => !has_one_of(labels, key, values),
        SetRequirementView::Exists(key) => labels.dom().contains(key),
        SetRequirementView::NotExists(key) => !labels.dom().contains(key),
    }
}

/// Whether `labels` gives `key` the value `value`.
pub open spec fn has_value(
    labels: Map<Seq<char>, Seq<char>>,
    key: Seq<char>,
    value: Seq<char>,
) -> bool {
    labels.dom().contains(key) && labels[key] == value
}

/// Whether `labels` meets the requirement `r`, which has no white space at its ends.
pub open spec fn requirement_holds(r: Seq<char>, labels: Map<Seq<char>, Seq<char>>) -> bool {
    if r.len() == 0 {
        true
    } else {
        match set_requirement(r) {
            Some(set) => set_requirement_holds(set, labels),
            None => match split_once_at(r, '=') {
                Some((key, value)) => if key.len() > 0 && key.last() == '!' {
                    !has_value(labels, without_end(key, '!'), value)
                } else {
                    has_value(labels, key, without_start(value, '='))
                },
                None => if r[0] == '!' {
                    !labels.dom().contains(r.skip(1))
                } else {
                    labels.dom().contains(r)
                },
            },
        }
    }
}

/// Whether `labels` meets every requirement of `selector`.
pub open spec fn selects(selector: Seq<char>, labels: Map<Seq<char>, Seq<char>>) -> bool {
    forall|i: int|
        0 <= i < label_requirements(selector).len() ==> requirement_holds(
            trimmed(#[trigger] label_requirements(selector)[i]),
            labels,
        )
}

/// Whether an object with `labels` is selected. No selector, or an empty one,
/// selects everything; any other selects no object without labels.
pub open spec fn label_selected(
    selector: Option<Seq<char>>,
    labels: Option<Map<Seq<char>, Seq<char>>>,
) -> bool {
    match selector {
        None => true,
        Some(s) => s.len() == 0 || match labels {
            None => false,
            Some(l) => selects(s, l),
        },
    }
}

/// The content of optional labels.
pub open spec fn labels_view(labels: Option<StringMap>) -> Option<Map<Seq<char>, Seq<char>>> {
    match labels {
        Some(l) => Some(l@),
        None => None,
    }
}

/// Cuts a selector into its requirements, at the commas outside brackets.
pub fn split_label_requirements(selector: &str) -> (r: Vec<String>)
    ensures
        texts(r@) == label_requirements(selector@),
{
    let v: Vec<char> = chars_of(selector);
    let len: usize = v.len();
    let mut results: Vec<String> = Vec::new();
    let mut depth: i128 = 0;
    let mut start: usize = 0;
    let mut i: usize = 0;
    assert(texts(results@) + label_requirements(v@) =~= label_requirements(v@));
    while i < len
        invariant
            v@ == selector@,
            len == v@.len(),
            start <= i <= len,
            -(i as int) <= depth <= i,
            depth == bracket_balance(v@, i as int),
            texts(results@) + requirements_from(v@, start as int, i as int) == label_requirements(
                v@,
            ),
        decreases len - i,
    {
        let c: char = v[i];
        if c == '(' {
            depth = depth + 1;
        } else if c == ')' {
            depth = depth - 1;
        } else if c == ',' && depth == 0 {
            let piece: String = text_of(v.as_slice(), start, i);
            let ghost before = texts(results@);
            let ghost rest = requirements_from(v@, i + 1, i + 1);
            results.push(piece);
            start = i + 1;
            assert(texts(results@) =~= before.push(piece@));
            assert(before + (seq![piece@] + rest) =~= texts(results@) + rest);
        }
        i = i + 1;
    }
    if start < len {
        let ghost before = texts(results@);
        let piece: String = text_of(v.as_slice(), start, len);
        assert(piece@ =~= v@.skip(start as int));
        results.push(piece);
        assert(texts(results@) =~= before + seq![piece@]);
    } else {
        assert(texts(results@) =~= texts(results@) + Seq::<Seq<char>>::empty());
    }
    results
}

/// The values between the commas of `s`.
fn parse_set_values(s: &str) -> (r: Vec<String>)
    ensures
        texts(r@) == set_values(s@),
{
    let inner: &str = trim_end_char(s, ')');
    let pieces: Vec<String> = split(inner, ',');
    let mut out: Vec<String> = Vec::new();
    let mut i: usize = 0;
    while i < pieces.len()
        invariant
            i <= pieces@.len(),
            out@.len() == i,
            forall|j: int| 0 <= j < i ==> (#[trigger] out@[j])@ == trimmed(pieces@[j]@),
        decreases pieces.len() - i,
    {
        out.push(trim(pieces[i].as_str()).to_owned());
        i = i + 1;
    }
    assert(texts(out@) =~= all_trimmed(texts(pieces@)));
    out
}

/// Reads `key in (v1,v2)` or `key notin (v1,v2)`.
pub fn parse_set_requirement(s: &str) -> (r: Option<SetRequirement>)
    ensures
        match r {
            Some(set) => set_requirement(s@) == Some(set@),
            None => set_requirement(s@) is None,
        },
{
    let len: usize = s.unicode_len();
    if let Some(i) = find(s, " in (") {
        proof {
            reveal_strlit(" in (");
        }
        assert(s@.subrange(0, i as int) =~= s@.take(i as int));
        assert(s@.subrange(i + 5, len as int) =~= s@.skip(i + 5));
        let key: &str = trim(s.substring_char(0, i));
        let values: Vec<String> = parse_set_values(s.substring_char(i + 5, len));
        return Some(SetRequirement::In(key.to_owned(), values));
    }
    if let Some(i) = find(s, " notin (") {
        proof {
            reveal_strlit(" notin (");
        }
        assert(s@.subrange(0, i as int) =~= s@.take(i as int));
        assert(s@.subrange(i + 8, len as int) =~= s@.skip(i + 8));
        let key: &str = trim(s.substring_char(0, i));
        let values: Vec<String> = parse_set_values(s.substring_char(i + 8, len));
        return Some(SetRequirement::NotIn(key.to_owned(), values));
    }
    None
}

/// Whether `labels` gives `key` one of `values`.
pub fn label_in(labels: &StringMap, key: &str, values: &Vec<String>) -> (r: bool)
    ensures
        r == has_one_of(labels@, key@, texts(values@)),
{
    match labels.get(key) {
        Some(v) => contains_text(values.as_slice(), v.as_str()),
        None => false,
    }
}

/// Whether `labels` gives `key` the value `value`.
fn label_is(labels: &StringMap, key: &str, value: &str) -> (r: bool)
    ensures
        r == has_value(labels@, key@, value@),
{
    match labels.get(key) {
        Some(v) => same(v.as_str(), value),
        None => false,
    }
}

/// Whether `labels` meets one requirement.
fn requirement_met(r: &str, labels: &StringMap) -> (ok: bool)
    ensures
        ok == requirement_holds(r@, labels@),
{
    if r.is_empty() {
        return true;
    }
    if let Some(set) = parse_set_requirement(r) {
        return match &set {
            SetRequirement::In(key, values) => label_in(labels, key.as_str(), values),
            SetRequirement::NotIn(key, values) => !label_in(labels, key.as_str(), values),
            SetRequirement::Exists(key) => labels.contains_key(key.as_str()),
            SetRequirement::NotExists(key) => !labels.contains_key(key.as_str()),
        };
    }
    match split_once(r, '=') {
        Some((key, value)) => {
            let n: usize = key.as_str().unicode_len();
            if n > 0 && key.as_str().get_char(n - 1) == '!' {
                !label_is(labels, trim_end_char(key.as_str(), '!'), value.as_str())
            } else {
                label_is(labels, key.as_str(), trim_start_char(value.as_str(), '='))
            }
        },
        None => {
            let n: usize = r.unicode_len();
            if r.get_char(0) == '!' {
                assert(r@.subrange(1, n as int) =~= r@.skip(1));
                !labels.contains_key(r.substring_char(1, n))
            } else {
                labels.contains_key(r)
            }
        },
    }
}

/// Whether an object with `labels` is selected by `selector`.
#[verifier::loop_isolation(false)]
pub fn matches_label_selector(labels: &Option<StringMap>, selector: &Option<String>) -> (r: bool)
    ensures
        r == label_selected(crate::text::opt_text(*selector), labels_view(*labels)),
{
    let text: &str = match selector {
        Some(s) => s.as_str(),
        None => {
            return true;
        },
    };
    if text.is_empty() {
        return true;
    }
    let map: &StringMap = match labels {
        Some(l) => l,
        None => {
            return false;
        },
    };
    let reqs: Vec<String> = split_label_requirements(text);
    let ghost all = label_requirements(text@);
    let mut i: usize = 0;
    while i < reqs.len()
        invariant
            i <= reqs@.len(),
            texts(reqs@) == all,
            forall|j: int| 0 <= j < i ==> requirement_holds(trimmed(#[trigger] all[j]), map@),
        decreases reqs.len() - i,
    {
        assert(reqs@[i as int]@ == all[i as int]);
        if !requirement_met(trim(reqs[i].as_str()), map) {
            assert(!requirement_holds(trimmed(all[i as int]), map@));
            return false;
        }
        i = i + 1;
    }
    assert(selects(text@, map@));
    true
}

} // verus!
