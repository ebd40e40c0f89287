//! JSON values.
use vstd::prelude::*;
use crate::text::same;

verus! {

/// A JSON value. The members of an object are in the order in which it is
/// walked, and no two have the same name.
#[derive(Debug)]
pub enum Json {
    Null,
    Bool(bool),
    /// A number without fraction and exponent.
    Int(i128),
    /// Any other number, as text.
    Float(String),
    Text(String),
    Array(Vec<Json>),
    Object(Vec<(String, Json)>),
}

/// The content of a [`Json`].
pub enum JsonView {
    Null,
    Bool(bool),
    Int(int),
    Float(Seq<char>),
    Text(Seq<char>),
    Array(Seq<JsonView>),
    Object(Seq<(Seq<char>, JsonView)>),
}

/// The content of a value.
pub open spec fn json_view(j: Json) -> JsonView
    decreases j,
{
    match j {
        Json::Null => JsonView::Null,
        Json::Bool(b) => JsonView::Bool(b),
        Json::Int(n) => JsonView::Int(n as int),
        Json::Float(s) => JsonView::Float(s@),
        Json::Text(s) => JsonView::Text(s@),
        Json::Array(v) => JsonView::Array(
            Seq::new(
                v@.len(),
                |i: int|
                    if 0 <= i < v@.len() {
                        json_view(v@[i])
                    } else {
                        JsonView::Null
                    },
            ),
        ),
        Json::Object(m) => JsonView::Object(
            Seq::new(
                m@.len(),
                |i: int|
                    (
                        m@[i].0@,
                        if 0 <= i < m@.len() {
                            json_view(m@[i].1)
                        } else {
                            JsonView::Null
                        },
                    ),
            ),
        ),
    }
}

impl View for Json {
    type V = JsonView;

    open spec fn view(&self) -> JsonView {
        json_view(*self)
    }
}

/// The contents of a list of members.
pub open spec fn member_views(m: Seq<(String, Json)>) -> Seq<(Seq<char>, JsonView)> {
    Seq::new(m.len(), |i: int| (m[i].0@, m[i].1@))
}

/// The contents of a list of values.
pub open spec fn item_views(v: Seq<Json>) -> Seq<JsonView> {
    Seq::new(v.len(), |i: int| v[i]@)
}

/// The content of an object is that of its members, the content of an array
/// that of its elements.
pub broadcast proof fn lemma_json_view(j: Json)
    ensures
        match j {
            Json::Object(m) => #[trigger] json_view(j) == JsonView::Object(member_views(m@)),
            Json::Array(v) => json_view(j) == JsonView::Array(item_views(v@)),
            _ => true,
        },
{
    match j {
        Json::Object(m) => {
            assert(json_view(j)->Object_0 =~= member_views(m@));
        },
        Json::Array(v) => {
            assert(json_view(j)->Array_0 =~= item_views(v@));
        },
        _ => {},
    }
}

/// The position of the first member from `i` on with this name.
pub open spec fn member_from(
    members: Seq<(Seq<char>, JsonView)>,
    key: Seq<char>,
    i: int,
) -> Option<int>
    decreases members.len() - i,
{
    if i < 0 || i >= members.len() {
        None
    } else if members[i].0 == key {
        Some(i)
    } else {
        member_from(members, key, i + 1)
    }
}

/// The member of an object with this name.
pub open spec fn member(j: JsonView, key: Seq<char>) -> Option<JsonView> {
    match j {
        JsonView::Object(m) => match member_from(m, key, 0) {
            Some(i) => Some(m[i].1),
            None => None,
        },
        _ => None,
    }
}

/// The member of an optional object.
pub open spec fn opt_member(j: Option<JsonView>, key: Seq<char>) -> Option<JsonView> {
    match j {
        Some(v) => member(v, key),
        None => None,
    }
}

/// The text of a string.
pub open spec fn as_text(j: Option<JsonView>) -> Option<Seq<char>> {
    match j {
        Some(JsonView::Text(s)) => Some(s),
        _ => None,
    }
}

/// The value of an integer that fits into 64 bits with sign.
pub open spec fn as_int(j: Option<JsonView>) -> Option<i64> {
    match j {
        Some(JsonView::Int(n)) => if i64::MIN <= n <= i64::MAX {
            Some(n as i64)
        } else {
            None
        },
        _ => None,
    }
}

/// The value of `true` and `false`.
pub open spec fn as_bool(j: Option<JsonView>) -> Option<bool> {
    match j {
        Some(JsonView::Bool(b)) => Some(b),
        _ => None,
    }
}

/// Whether no object in `j` has two members of one name.
pub open spec fn names_once(j: JsonView) -> bool
    decreases j,
{
    match j {
        JsonView::Object(m) => {
            &&& forall|i: int, k: int|
                0 <= i < k < m.len() ==> (#[trigger] m[i]).0 != (#[trigger] m[k]).0
            &&& forall|i: int| 0 <= i < m.len() ==> names_once((#[trigger] m[i]).1)
        },
        JsonView::Array(v) => forall|i: int| 0 <= i < v.len() ==> names_once(#[trigger] v[i]),
        _ => true,
    }
}

/// The content of an optional value.
pub open spec fn opt_json(j: Option<Json>) -> Option<JsonView> {
    match j {
        Some(v) => Some(v@),
        None => None,
    }
}

/// The content of what an optional reference points to.
pub open spec fn value_of(j: Option<&Json>) -> Option<JsonView> {
    match j {
        Some(v) => Some(v@),
        None => None,
    }
}

/// What a parser made of a body: a value, or what it says of it.
pub open spec fn outcome_of(parsed: Result<Json, String>) -> Result<JsonView, Seq<char>> {
    match parsed {
        Ok(j) => Ok(j@),
        Err(m) => Err(m@),
    }
}

/// The position of the first member with this name.
pub fn member_position(members: &Vec<(String, Json)>, key: &str) -> (r: Option<usize>)
    ensures
        match r {
            Some(i) => i < members@.len() && member_from(member_views(members@), key@, 0) == Some(
                i as int,
            ),
            None => member_from(member_views(members@), key@, 0) is None,
        },
{
    let ghost all = member_views(members@);
    let mut i: usize = 0;
    while i < members.len()
        invariant
            i <= members@.len(),
            all == member_views(members@),
            member_from(all, key@, 0) == member_from(all, key@, i as int),
        decreases members.len() - i,
    {
        if same(members[i].0.as_str(), key) {
            return Some(i);
        }
        i = i + 1;
    }
    None
}

impl Json {
    /// The member of an object with this name.
    pub fn get(&self, key: &str) -> (r: Option<&Json>)
        ensures
            value_of(r) == member(self@, key@),
    {
        broadcast use lemma_json_view;

        match self {
            Json::Object(m) => match member_position(m, key) {
                Some(i) => Some(&m[i].1),
                None => None,
            },
            _ => None,
        }
    }
}

/// The position of a member that is an object itself.
pub fn object_member_position(j: &Json, key: &str) -> (r: Option<usize>)
    ensures
        match r {
            Some(i) => j matches Json::Object(m) && i < m@.len() && member_from(
                member_views(m@),
                key@,
                0,
            ) == Some(i as int) && m@[i as int].1 is Object,
            None => !(member(j@, key@) matches Some(JsonView::Object(_))),
        },
{
    broadcast use lemma_json_view;

    match j {
        Json::Object(m) => match member_position(m, key) {
            Some(i) => match &m[i].1 {
                Json::Object(_) => Some(i),
                _ => None,
            },
            None => None,
        },
        _ => None,
    }
}

/// Members with `key` set to `value`: in its place where it was there, at the
/// end where it was not.
pub open spec fn with_member(
    members: Seq<(Seq<char>, JsonView)>,
    key: Seq<char>,
    value: JsonView,
) -> Seq<(Seq<char>, JsonView)> {
    match member_from(members, key, 0) {
        Some(i) => members.update(i, (key, value)),
        None => members.push((key, value)),
    }
}

/// Sets a member of an object.
pub fn put_member(members: Vec<(String, Json)>, key: &str, value: Json) -> (r: Vec<(String, Json)>)
    ensures
        member_views(r@) == with_member(member_views(members@), key@, value@),
{
    let mut out: Vec<(String, Json)> = members;
    let ghost before = member_views(out@);
    let ghost v = value@;
    match member_position(&out, key) {
        Some(i) => {
            out.set(i, (key.to_owned(), value));
            assert(member_views(out@) =~= before.update(i as int, (key@, v)));
        },
        None => {
            out.push((key.to_owned(), value));
            assert(member_views(out@) =~= before.push((key@, v)));
        },
    }
    out
}

/// Takes the object under `key` out of an object: the members of the latter,
/// with nothing under `key` until it is put back, and those of the former.
/// Nothing is taken where there is no object under `key`.
pub fn take_inner(j: Json, key: &str) -> (r: Result<(Vec<(String, Json)>, Vec<(String, Json)>), Json>)
    ensures
        match r {
            Ok((outer, inner)) => {
                &&& j@ == JsonView::Object(j@->Object_0)
                &&& member(j@, key@) == Some(JsonView::Object(member_views(inner@)))
                &&& forall|put: JsonView|
                    #[trigger] with_member(member_views(outer@), key@, put) == with_member(
                        j@->Object_0,
                        key@,
                        put,
                    )
            },
            Err(same_one) => same_one == j && !(member(j@, key@) matches Some(JsonView::Object(_))),
        },
{
    broadcast use lemma_json_view;

    let at: usize = match object_member_position(&j, key) {
        Some(i) => i,
        None => {
            return Err(j);
        },
    };
    match j {
        Json::Object(members) => {
            let mut outer: Vec<(String, Json)> = members;
            let ghost all = member_views(outer@);
            let (name, value): (String, Json) = outer.remove(at);
            outer.insert(at, (name, Json::Null));
            proof {
                let null = JsonView::Null;
                assert(member_views(outer@) =~= all.update(at as int, (all[at as int].0, null)));
                lemma_member_from(all, key@, 0);
                lemma_member_from_update(all, key@, 0, at as int, null);
                assert forall|put: JsonView|
                    #[trigger] with_member(member_views(outer@), key@, put) == with_member(
                        all,
                        key@,
                        put,
                    ) by {
                    assert(with_member(member_views(outer@), key@, put) =~= with_member(
                        all,
                        key@,
                        put,
                    ));
                }
            }
            match value {
                Json::Object(inner) => Ok((outer, inner)),
                other => Err(other),
            }
        },
        other => Err(other),
    }
}

proof fn lemma_member_from_update(
    m: Seq<(Seq<char>, JsonView)>,
    key: Seq<char>,
    i: int,
    at: int,
    value: JsonView,
)
    requires
        0 <= at < m.len(),
        0 <= i,
    ensures
        member_from(m.update(at, (m[at].0, value)), key, i) == member_from(m, key, i),
    decreases m.len() - i,
{
    if i < m.len() {
        lemma_member_from_update(m, key, i + 1, at, value);
    }
}

proof fn lemma_member_from_push(
    m: Seq<(Seq<char>, JsonView)>,
    last: (Seq<char>, JsonView),
    key: Seq<char>,
    i: int,
)
    requires
        0 <= i <= m.len(),
    ensures
        member_from(m.push(last), key, i) == match member_from(m, key, i) {
            Some(k) => Some(k),
            None => if last.0 == key {
                Some(m.len() as int)
            } else {
                None
            },
        },
    decreases m.len() - i,
{
    if i < m.len() {
        lemma_member_from_push(m, last, key, i + 1);
    } else {
        assert(member_from(m.push(last), key, m.len() + 1int) is None);
    }
}

/// A member that was found stands within the object, under its name.
pub proof fn lemma_member_from(m: Seq<(Seq<char>, JsonView)>, key: Seq<char>, i: int)
    ensures
        member_from(m, key, i) matches Some(k) ==> i <= k < m.len() && 0 <= k && m[k].0 == key,
    decreases m.len() - i,
{
    if 0 <= i < m.len() && m[i].0 != key {
        lemma_member_from(m, key, i + 1);
    }
}

/// A member before which none has its name is the one that is found.
pub proof fn lemma_member_at(m: Seq<(Seq<char>, JsonView)>, key: Seq<char>, i: int, k: int)
    requires
        0 <= i <= k < m.len(),
        m[k].0 == key,
        forall|j: int| i <= j < k ==> (#[trigger] m[j]).0 != key,
    ensures
        member_from(m, key, i) == Some(k),
    decreases k - i,
{
    if i < k {
        lemma_member_at(m, key, i + 1, k);
    }
}

/// A name that no member has is not found.
pub proof fn lemma_member_none(m: Seq<(Seq<char>, JsonView)>, key: Seq<char>, i: int)
    requires
        0 <= i,
        forall|j: int| i <= j < m.len() ==> (#[trigger] m[j]).0 != key,
    ensures
        member_from(m, key, i) is None,
    decreases m.len() - i,
{
    if i < m.len() {
        lemma_member_none(m, key, i + 1);
    }
}

/// The member that was set is read back, and the others are as they were.
pub proof fn law_member_is_read_back(
    members: Seq<(Seq<char>, JsonView)>,
    key: Seq<char>,
    value: JsonView,
    other: Seq<char>,
)
    ensures
        member(JsonView::Object(with_member(members, key, value)), key) == Some(value),
        other != key ==> member(JsonView::Object(with_member(members, key, value)), other)
            == member(JsonView::Object(members), other),
{
    lemma_member_from(members, key, 0);
    lemma_member_from(members, other, 0);
    match member_from(members, key, 0) {
        Some(i) => {
            lemma_member_from_update(members, key, 0, i, value);
            lemma_member_from_update(members, other, 0, i, value);
        },
        None => {
            lemma_member_from_push(members, (key, value), key, 0);
            lemma_member_from_push(members, (key, value), other, 0);
        },
    }
}

/// The member of an optional object.
pub fn get_in<'a>(j: Option<&'a Json>, key: &str) -> (r: Option<&'a Json>)
    ensures
        value_of(r) == opt_member(value_of(j), key@),
{
    match j {
        Some(v) => v.get(key),
        None => None,
    }
}

/// The text of a string.
pub fn text_of_json(j: Option<&Json>) -> (r: Option<&String>)
    ensures
        match r {
            Some(s) => as_text(value_of(j)) == Some(s@),
            None => as_text(value_of(j)) is None,
        },
{
    match j {
        Some(v) => match v {
            Json::Text(s) => Some(s),
            _ => None,
        },
        None => None,
    }
}

/// A copy of the text of a string.
pub fn copy_text_of(j: Option<&Json>) -> (r: Option<String>)
    ensures
        crate::text::opt_text(r) == as_text(value_of(j)),
{
    match text_of_json(j) {
        Some(s) => Some(s.clone()),
        None => None,
    }
}

/// The value of an integer that fits into 64 bits with sign.
pub fn int_of_json(j: Option<&Json>) -> (r: Option<i64>)
    ensures
        r == as_int(value_of(j)),
{
    match j {
        Some(v) => match v {
            Json::Int(n) => {
                if i64::MIN as i128 <= *n && *n <= i64::MAX as i128 {
                    Some(*n as i64)
                } else {
                    None
                }
            },
            _ => None,
        },
        None => None,
    }
}

/// The number that the lower 32 bits of `n` hold.
pub open spec fn low_32_bits(n: int) -> int {
    (n + 0x8000_0000) % 0x1_0000_0000 - 0x8000_0000
}

/// The number that the lower 32 bits of `n` hold.
pub fn narrow(n: i64) -> (r: i32)
    ensures
        r == low_32_bits(n as int),
        i32::MIN <= low_32_bits(n as int) <= i32::MAX,
{
    let lifted: i128 = n as i128 + 0x8000_0000_0000_0000 + 0x8000_0000;
    let low: i128 = lifted % 0x1_0000_0000;
    proof {
        vstd::arithmetic::div_mod::lemma_mod_multiples_vanish(
            0x8000_0000,
            n + 0x8000_0000,
            0x1_0000_0000,
        );
        assert(lifted == 0x8000_0000int * 0x1_0000_0000int + (n + 0x8000_0000int));
        assert(lifted as int % 0x1_0000_0000int == (n + 0x8000_0000int) % 0x1_0000_0000int);
    }
    (low - 0x8000_0000) as i32
}

/// A narrowed number that fits is the number.
pub proof fn lemma_low_32_bits(n: int)
    requires
        i32::MIN <= n <= i32::MAX,
    ensures
        low_32_bits(n) == n,
{
}

/// The value of `true` and `false`.
pub fn bool_of_json(j: Option<&Json>) -> (r: Option<bool>)
    ensures
        r == as_bool(value_of(j)),
{
    match j {
        Some(Json::Bool(b)) => Some(*b),
        _ => None,
    }
}

} // verus!
