//! Which fields of a body are reported, and which names are good.
use vstd::prelude::*;
use vstd::utf8::encode_utf8;
use crate::collections::StringMap;
use crate::error::{Error, ErrorView};
use crate::json::{member_from, Json, JsonView};
use crate::json_keys::{
    find_all_duplicate_json_keys, find_duplicate_json_key, find_duplicate_json_key_public,
    repeated_in_entries, repeated_in_items, repeated_keys, Node,
};
use crate::json_text::json_document;
use crate::json_laws::{has_field, lacks_field, law_fields_are_found};
use crate::validation::{
    all_unknown, build_warning_headers, duplicates_in, escaped, fields_answer, labelled,
    path_of_steps, validate_strict_fields, PathStep, mode_of, name_refusal, non_empty, strict_message,
    unknown_in, unknown_in_items, unknown_in_member, unknown_in_members, with_new,
    FieldValidationMode,
};

verus! {

/// The path of a field under a prefix.
pub open spec fn field_path(prefix: Seq<char>, key: Seq<char>) -> Seq<char> {
    if prefix.len() == 0 {
        key
    } else {
        prefix + "."@ + key
    }
}

/// Whether a value says no more than a missing one: it is null, false, or
/// empty. A number always says something.
pub open spec fn says_nothing(v: JsonView) -> bool {
    ||| v is Null
    ||| v == JsonView::Bool(false)
    ||| (v is Text && v->Text_0.len() == 0)
    ||| (v is Array && v->Array_0.len() == 0)
    ||| (v is Object && v->Object_0.len() == 0)
}

/// Whether a field wraps one of several forms of a schema.
pub open spec fn wraps_schema(key: Seq<char>, v: JsonView) -> bool {
    (key == "schema"@ || key == "jSONSchemas"@ || key == "allows"@ || key == "property"@) && (v
        is Object || v is Array)
}

/// Whether a path is reported for the field `i` of an object that its type
/// writes as `canonical`: its own, where the type does not know it and it says
/// something, or one inside it.
pub open spec fn reported_at(
    original: Seq<(Seq<char>, JsonView)>,
    i: int,
    canonical: JsonView,
    prefix: Seq<char>,
    path: Seq<char>,
) -> bool {
    let key = original[i].0;
    let v = original[i].1;
    ||| (lacks_field(canonical, key) && !says_nothing(v) && !wraps_schema(key, v) && path
        == field_path(prefix, key))
    ||| exists|c: JsonView| #[trigger]
        has_field(canonical, key, c) && unknown_in(v, c, field_path(prefix, key)).contains(path)
}

proof fn lemma_add_contains(a: Seq<Seq<char>>, b: Seq<Seq<char>>, x: Seq<char>)
    ensures
        (a + b).contains(x) <==> a.contains(x) || b.contains(x),
{
    let s = a + b;
    if a.contains(x) {
        let i = choose|i: int| 0 <= i < a.len() && a[i] == x;
        assert(s[i] == x);
    }
    if b.contains(x) {
        let i = choose|i: int| 0 <= i < b.len() && b[i] == x;
        assert(s[a.len() + i] == x);
    }
    if s.contains(x) {
        let i = choose|i: int| 0 <= i < s.len() && s[i] == x;
        if i < a.len() {
            assert(a[i] == x);
        } else {
            assert(b[i - a.len()] == x);
        }
    }
}

proof fn lemma_one_more(a: Seq<Seq<char>>, y: Seq<char>, x: Seq<char>)
    ensures
        a.push(y).contains(x) <==> a.contains(x) || x == y,
{
    assert(a.push(y) =~= a + seq![y]);
    lemma_add_contains(a, seq![y], x);
    assert(seq![y][0] == y);
}

proof fn lemma_member_reported(
    original: Seq<(Seq<char>, JsonView)>,
    i: int,
    canonical: Seq<(Seq<char>, JsonView)>,
    prefix: Seq<char>,
    path: Seq<char>,
)
    requires
        0 <= i < original.len(),
    ensures
        unknown_in_member(original[i].0, original[i].1, canonical, prefix).contains(path)
            <==> reported_at(original, i, JsonView::Object(canonical), prefix, path),
{
    let key = original[i].0;
    let v = original[i].1;
    let c = JsonView::Object(canonical);
    let found = unknown_in_member(key, v, canonical, prefix);
    match member_from(canonical, key, 0) {
        Some(k) => {
            law_fields_are_found(c, key, canonical[k].1);
            assert(has_field(c, key, canonical[k].1));
            assert(!lacks_field(c, key)) by {
                law_fields_are_found(c, key, canonical[k].1);
            }
            assert forall|d: JsonView| #[trigger] has_field(c, key, d) implies d
                == canonical[k].1 by {
                law_fields_are_found(c, key, d);
            }
        },
        None => {
            law_fields_are_found(c, key, v);
            assert forall|d: JsonView| !#[trigger] has_field(c, key, d) by {
                law_fields_are_found(c, key, d);
            }
            let p = seq![field_path(prefix, key)];
            assert(p[0] == field_path(prefix, key));
            if !says_nothing(v) && !wraps_schema(key, v) {
                assert(found == p);
            }
        },
    }
}

proof fn lemma_members_reported(
    original: Seq<(Seq<char>, JsonView)>,
    n: nat,
    canonical: Seq<(Seq<char>, JsonView)>,
    prefix: Seq<char>,
    path: Seq<char>,
)
    requires
        n <= original.len(),
    ensures
        unknown_in_members(original, n, canonical, prefix).contains(path) <==> exists|i: int|
            0 <= i < n && #[trigger] reported_at(
                original,
                i,
                JsonView::Object(canonical),
                prefix,
                path,
            ),
    decreases n,
{
    if n > 0 {
        lemma_members_reported(original, (n - 1) as nat, canonical, prefix, path);
        lemma_member_reported(original, n - 1, canonical, prefix, path);
        let before = unknown_in_members(original, (n - 1) as nat, canonical, prefix);
        let last = unknown_in_member(original[n - 1].0, original[n - 1].1, canonical, prefix);
        lemma_add_contains(before, last, path);
        if before.contains(path) {
            let i = choose|i: int|
                0 <= i < n - 1 && #[trigger] reported_at(
                    original,
                    i,
                    JsonView::Object(canonical),
                    prefix,
                    path,
                );
            assert(reported_at(original, i, JsonView::Object(canonical), prefix, path));
        }
        if last.contains(path) {
            assert(reported_at(original, n - 1, JsonView::Object(canonical), prefix, path));
        }
    }
}

/// Of an object, the paths that are reported are those of its fields that its
/// type does not know and that say something, and those inside the fields that
/// it knows; no others.
pub proof fn law_unknown_fields_of_an_object(
    original: Seq<(Seq<char>, JsonView)>,
    canonical: Seq<(Seq<char>, JsonView)>,
    prefix: Seq<char>,
    path: Seq<char>,
)
    ensures
        unknown_in(JsonView::Object(original), JsonView::Object(canonical), prefix).contains(path)
            <==> exists|i: int|
            0 <= i < original.len() && #[trigger] reported_at(
                original,
                i,
                JsonView::Object(canonical),
                prefix,
                path,
            ),
{
    lemma_members_reported(original, original.len(), canonical, prefix, path);
}

proof fn lemma_items_reported(
    original: Seq<JsonView>,
    n: nat,
    canonical: Seq<JsonView>,
    prefix: Seq<char>,
    path: Seq<char>,
)
    requires
        n <= original.len(),
        n <= canonical.len(),
    ensures
        unknown_in_items(original, n, canonical, prefix).contains(path) <==> exists|i: int|
            0 <= i < n && unknown_in(
                #[trigger] original[i],
                canonical[i],
                prefix + "["@ + crate::text::decimal(i as nat) + "]"@,
            ).contains(path),
    decreases n,
{
    if n > 0 {
        lemma_items_reported(original, (n - 1) as nat, canonical, prefix, path);
        let before = unknown_in_items(original, (n - 1) as nat, canonical, prefix);
        let last = unknown_in(
            original[n - 1],
            canonical[n - 1],
            prefix + "["@ + crate::text::decimal((n - 1) as nat) + "]"@,
        );
        lemma_add_contains(before, last, path);
        if before.contains(path) {
            let i = choose|i: int|
                0 <= i < n - 1 && unknown_in(
                    #[trigger] original[i],
                    canonical[i],
                    prefix + "["@ + crate::text::decimal(i as nat) + "]"@,
                ).contains(path);
            assert(unknown_in(
                original[i],
                canonical[i],
                prefix + "["@ + crate::text::decimal(i as nat) + "]"@,
            ).contains(path));
        }
        if last.contains(path) {
            assert(unknown_in(
                original[n - 1],
                canonical[n - 1],
                prefix + "["@ + crate::text::decimal((n - 1) as nat) + "]"@,
            ).contains(path));
        }
    }
}

/// Of a list, the paths that are reported are those inside its items, each held
/// against the item in its place; and what is neither an object nor a list on
/// both sides has none.
pub proof fn law_unknown_fields_of_a_list(
    original: Seq<JsonView>,
    canonical: Seq<JsonView>,
    prefix: Seq<char>,
    path: Seq<char>,
    a: JsonView,
    b: JsonView,
)
    ensures
        unknown_in(JsonView::Array(original), JsonView::Array(canonical), prefix).contains(path)
            <==> exists|i: int|
            0 <= i < original.len() && i < canonical.len() && unknown_in(
                #[trigger] original[i],
                canonical[i],
                prefix + "["@ + crate::text::decimal(i as nat) + "]"@,
            ).contains(path),
        !(a is Object && b is Object) && !(a is Array && b is Array) ==> unknown_in(
            a,
            b,
            prefix,
        ).len() == 0,
{
    let n = if original.len() <= canonical.len() {
        original.len()
    } else {
        canonical.len()
    };
    lemma_items_reported(original, n, canonical, prefix, path);
}

proof fn lemma_non_empty(s: Seq<Seq<char>>, n: nat, x: Seq<char>)
    requires
        n <= s.len(),
    ensures
        non_empty(s, n).contains(x) <==> x.len() > 0 && exists|i: int|
            0 <= i < n && #[trigger] s[i] == x,
    decreases n,
{
    if n > 0 {
        lemma_non_empty(s, (n - 1) as nat, x);
        lemma_one_more(non_empty(s, (n - 1) as nat), s[n - 1], x);
        if exists|i: int| 0 <= i < n - 1 && #[trigger] s[i] == x {
            let i = choose|i: int| 0 <= i < n - 1 && #[trigger] s[i] == x;
            assert(0 <= i < n && s[i] == x);
        }
    }
}

proof fn lemma_with_new(a: Seq<Seq<char>>, b: Seq<Seq<char>>, n: nat, x: Seq<char>)
    requires
        n <= b.len(),
    ensures
        with_new(a, b, n).contains(x) <==> a.contains(x) || exists|i: int|
            0 <= i < n && #[trigger] b[i] == x,
        with_new(a, b, n).len() >= a.len(),
        with_new(a, b, n).take(a.len() as int) == a,
    decreases n,
{
    if n > 0 {
        lemma_with_new(a, b, (n - 1) as nat, x);
        let before = with_new(a, b, (n - 1) as nat);
        lemma_one_more(before, b[n - 1], x);
        if exists|i: int| 0 <= i < n - 1 && #[trigger] b[i] == x {
            let i = choose|i: int| 0 <= i < n - 1 && #[trigger] b[i] == x;
            assert(0 <= i < n && b[i] == x);
        }
        assert(with_new(a, b, n).take(a.len() as int) =~= before.take(a.len() as int));
    } else {
        assert(a.take(a.len() as int) =~= a);
    }
}

/// All unknown fields are those that the decoder ignored and those that are
/// found by comparison, and no others.
pub proof fn law_all_unknown_fields(
    ignored: Seq<Seq<char>>,
    original: JsonView,
    canonical: JsonView,
    path: Seq<char>,
)
    ensures
        all_unknown(ignored, original, canonical).contains(path) <==> (path.len() > 0
            && ignored.contains(path)) || unknown_in(
            original,
            canonical,
            Seq::empty(),
        ).contains(path),
{
    let found = unknown_in(original, canonical, Seq::empty());
    let kept = non_empty(ignored, ignored.len());
    lemma_non_empty(ignored, ignored.len(), path);
    lemma_with_new(kept, found, found.len(), path);
    if ignored.contains(path) {
        let i = choose|i: int| 0 <= i < ignored.len() && ignored[i] == path;
        assert(ignored[i] == path);
    }
    if found.contains(path) {
        let i = choose|i: int| 0 <= i < found.len() && found[i] == path;
        assert(found[i] == path);
    }
}

/// Fields are validated strictly, with warnings, or not at all, as the request
/// says; with warnings where it does not say or says nothing, and strictly
/// where it says anything else.
pub proof fn law_modes_of_validation(params: Map<Seq<char>, Seq<char>>)
    ensures
        mode_of(params) is Ignore <==> params.dom().contains("fieldValidation"@)
            && params["fieldValidation"@] == "Ignore"@,
        mode_of(params) is Warn <==> !params.dom().contains("fieldValidation"@)
            || params["fieldValidation"@].len() == 0 || params["fieldValidation"@] == "Warn"@,
{
    reveal_strlit("");
    reveal_strlit("Warn");
    reveal_strlit("Ignore");
    assert("Warn"@.len() == 4 && "Ignore"@.len() == 6);
    if params.dom().contains("fieldValidation"@) && params["fieldValidation"@].len() == 0 {
        assert(params["fieldValidation"@] =~= ""@);
    }
}

/// With warnings a body is accepted with one warning for each unknown field, in
/// their order; strictly it is refused with a message that names them.
pub proof fn law_answers_to_unknown_fields(
    body: Seq<u8>,
    original: JsonView,
    ignored: Seq<Seq<char>>,
    canonical: JsonView,
    i: int,
)
    requires
        0 <= i < all_unknown(ignored, original, canonical).len(),
    ensures
        ({
            let unknown = all_unknown(ignored, original, canonical);
            let warned = fields_answer(
                FieldValidationMode::Warn,
                body,
                Ok(original),
                ignored,
                Ok(canonical),
            );
            let strict = fields_answer(
                FieldValidationMode::Strict,
                body,
                Ok(original),
                ignored,
                Ok(canonical),
            );
            &&& warned is Ok
            &&& warned->Ok_0.len() == unknown.len()
            &&& warned->Ok_0[i] == "unknown field \""@ + unknown[i] + "\""@
            &&& strict is Err
            &&& strict->Err_0 is BadRequest
            &&& strict->Err_0->BadRequest_0 == strict_message(unknown, duplicates_in(body))
        }),
{
}

/// A body that is no JSON is a bad request, but where fields are not validated.
pub proof fn law_body_must_be_json(
    mode: FieldValidationMode,
    body: Seq<u8>,
    message: Seq<char>,
    ignored: Seq<Seq<char>>,
    canonical: Result<JsonView, Seq<char>>,
)
    ensures
        fields_answer(mode, body, Err(message), ignored, canonical) is Err <==> !(mode is Ignore),
        !(mode is Ignore) ==> fields_answer(mode, body, Err(message), ignored, canonical)->Err_0
            is BadRequest,
{
}

/// A lower case letter or a digit.
pub open spec fn small_letter_or_digit(c: char) -> bool {
    'a' <= c <= 'z' || '0' <= c <= '9'
}

/// A name is good if and only if it has 1 to 253 bytes, all of them lower case
/// letters, digits, hyphens and dots, and starts and ends with a letter or
/// digit.
pub proof fn law_good_names(name: Seq<char>)
    ensures
        name_refusal(name) is None <==> {
            &&& name.len() > 0
            &&& encode_utf8(name).len() <= 253
            &&& small_letter_or_digit(name[0])
            &&& small_letter_or_digit(name[name.len() - 1])
            &&& forall|i: int|
                0 <= i < name.len() ==> small_letter_or_digit(#[trigger] name[i]) || name[i] == '-'
                    || name[i] == '.'
        },
        name_refusal(name) is Some ==> name_refusal(name)->0 is InvalidResource,
{
}

/// The message of a strict refusal goes through the unknown fields and then the
/// repeated ones, in order and with commas between.
pub proof fn law_strict_message_names_every_field(
    unknown: Seq<Seq<char>>,
    duplicates: Seq<Seq<char>>,
    field: Seq<char>,
)
    ensures
        strict_message(seq![field], Seq::empty()) == "strict decoding error: "@ + (
        "unknown field \""@ + field + "\""@),
        strict_message(Seq::empty(), seq![field]) == "strict decoding error: "@ + (
        "duplicate field \""@ + field + "\""@),
        unknown.len() + duplicates.len() > 0 ==> strict_message(unknown, duplicates.push(field))
            == strict_message(unknown, duplicates) + (", "@ + ("duplicate field \""@ + field
            + "\""@)),
        unknown.len() > 0 ==> strict_message(unknown.push(field), Seq::empty()) == strict_message(
            unknown,
            Seq::empty(),
        ) + (", "@ + ("unknown field \""@ + field + "\""@)),
{
    let u = "unknown field \""@;
    let d = "duplicate field \""@;
    let none = Seq::<Seq<char>>::empty();
    assert(labelled(u, seq![field]) + labelled(d, none) =~= seq![u + field + "\""@]);
    assert(labelled(u, none) + labelled(d, seq![field]) =~= seq![d + field + "\""@]);
    crate::text_laws::law_texts_are_joined(none, ", "@, u + field + "\""@);
    crate::text_laws::law_texts_are_joined(none, ", "@, d + field + "\""@);
    let all = labelled(u, unknown) + labelled(d, duplicates);
    assert(labelled(u, unknown) + labelled(d, duplicates.push(field)) =~= all.push(
        d + field + "\""@,
    ));
    crate::text_laws::law_texts_are_joined(all, ", "@, d + field + "\""@);
    if unknown.len() + duplicates.len() > 0 {
        assert(strict_message(unknown, duplicates.push(field)) =~= strict_message(
            unknown,
            duplicates,
        ) + (", "@ + (d + field + "\""@)));
    }
    let some = labelled(u, unknown) + labelled(d, none);
    assert(labelled(u, unknown.push(field)) + labelled(d, none) =~= some.push(u + field + "\""@));
    crate::text_laws::law_texts_are_joined(some, ", "@, u + field + "\""@);
    if unknown.len() > 0 {
        assert(strict_message(unknown.push(field), none) =~= strict_message(unknown, none) + (", "@
            + (u + field + "\""@)));
    }
}

/// Whether a path is reported for the entry `n` of an object: its own where an
/// earlier entry has the same key, or one inside it.
pub open spec fn repeated_at(
    entries: Seq<(Seq<char>, Node)>,
    n: int,
    prefix: Seq<char>,
    path: Seq<char>,
) -> bool {
    let own = field_path(prefix, entries[n].0);
    ||| (path == own && exists|j: int| 0 <= j < n && (#[trigger] entries[j]).0 == entries[n].0)
    ||| repeated_keys(entries[n].1, own).contains(path)
}

proof fn lemma_entries_repeated(
    entries: Seq<(Seq<char>, Node)>,
    n: nat,
    prefix: Seq<char>,
    path: Seq<char>,
)
    requires
        n <= entries.len(),
    ensures
        repeated_in_entries(entries, n, prefix).contains(path) <==> exists|i: int|
            0 <= i < n && #[trigger] repeated_at(entries, i, prefix, path),
    decreases n,
{
    if n > 0 {
        lemma_entries_repeated(entries, (n - 1) as nat, prefix, path);
        let own_path = field_path(prefix, entries[n - 1].0);
        let start = repeated_in_entries(entries, (n - 1) as nat, prefix);
        let repeated = exists|j: int|
            0 <= j < n - 1 && (#[trigger] entries[j]).0 == entries[n - 1].0;
        let own = if repeated {
            seq![own_path]
        } else {
            Seq::empty()
        };
        assert(repeated == crate::json_keys::repeats(entries, n - 1)) by {
            if repeated {
                let j = choose|j: int|
                    0 <= j < n - 1 && (#[trigger] entries[j]).0 == entries[n - 1].0;
                assert(entries[j].0 == entries[n - 1].0);
            }
            if crate::json_keys::repeats(entries, n - 1) {
                let j = choose|j: int|
                    0 <= j < n - 1 && #[trigger] entries[j].0 == entries[n - 1].0;
                assert(entries[j].0 == entries[n - 1].0);
            }
        }
        let inside = repeated_keys(entries[n - 1].1, own_path);
        assert(repeated_in_entries(entries, n, prefix) == start + own + inside);
        lemma_add_contains(start + own, inside, path);
        lemma_add_contains(start, own, path);
        assert(own.contains(path) <==> repeated && path == own_path) by {
            if repeated {
                assert(own[0] == own_path);
            }
        }
        if start.contains(path) {
            let i = choose|i: int|
                0 <= i < n - 1 && #[trigger] repeated_at(entries, i, prefix, path);
            assert(repeated_at(entries, i, prefix, path));
        }
        if own.contains(path) || inside.contains(path) {
            assert(repeated_at(entries, n - 1, prefix, path));
        }
    }
}

proof fn lemma_items_repeated(items: Seq<Node>, n: nat, prefix: Seq<char>, path: Seq<char>)
    requires
        n <= items.len(),
    ensures
        repeated_in_items(items, n, prefix).contains(path) <==> exists|i: int|
            0 <= i < n && repeated_keys(
                #[trigger] items[i],
                prefix + "["@ + crate::text::decimal(i as nat) + "]"@,
            ).contains(path),
    decreases n,
{
    if n > 0 {
        lemma_items_repeated(items, (n - 1) as nat, prefix, path);
        let start = repeated_in_items(items, (n - 1) as nat, prefix);
        let last = repeated_keys(
            items[n - 1],
            prefix + "["@ + crate::text::decimal((n - 1) as nat) + "]"@,
        );
        lemma_add_contains(start, last, path);
        if start.contains(path) {
            let i = choose|i: int|
                0 <= i < n - 1 && repeated_keys(
                    #[trigger] items[i],
                    prefix + "["@ + crate::text::decimal(i as nat) + "]"@,
                ).contains(path);
            assert(repeated_keys(
                items[i],
                prefix + "["@ + crate::text::decimal(i as nat) + "]"@,
            ).contains(path));
        }
        if last.contains(path) {
            assert(repeated_keys(
                items[n - 1],
                prefix + "["@ + crate::text::decimal((n - 1) as nat) + "]"@,
            ).contains(path));
        }
    }
}

/// The paths that are reported as repeated are those of entries whose key an
/// earlier entry of the same object has, at any depth, and no others.
pub proof fn law_repeated_keys_are_reported(
    entries: Seq<(Seq<char>, Node)>,
    items: Seq<Node>,
    prefix: Seq<char>,
    path: Seq<char>,
)
    ensures
        repeated_keys(Node::Object(entries), prefix).contains(path) <==> exists|i: int|
            0 <= i < entries.len() && #[trigger] repeated_at(entries, i, prefix, path),
        repeated_keys(Node::Array(items), prefix).contains(path) <==> exists|i: int|
            0 <= i < items.len() && repeated_keys(
                #[trigger] items[i],
                prefix + "["@ + crate::text::decimal(i as nat) + "]"@,
            ).contains(path),
        repeated_keys(Node::Scalar, prefix).len() == 0,
{
    lemma_entries_repeated(entries, entries.len(), prefix, path);
    lemma_items_repeated(items, items.len(), prefix, path);
}

/// The first repeated key is reported, and all are, where any is.
pub proof fn law_duplicate_keys_are_found(
    text: &str,
    all: Vec<String>,
    first: Option<String>,
    shown: Option<String>,
)
    requires
        call_ensures(find_all_duplicate_json_keys, (text,), all),
        call_ensures(find_duplicate_json_key, (text,), first),
        call_ensures(find_duplicate_json_key_public, (text,), shown),
    ensures
        first is Some <==> all@.len() > 0,
        first is Some ==> first->0@ == all@[0]@,
        shown is Some <==> first is Some,
        shown is Some ==> shown->0@ == first->0@,
        crate::text::texts(all@) == crate::json_keys::duplicate_paths(text@),
{
    let t = crate::text::texts(all@);
    assert(t.len() == all@.len());
    if all@.len() > 0 {
        assert(t[0] == all@[0]@);
    }
}

proof fn lemma_steps_prefix(steps: Seq<PathStep>, last: PathStep, n: nat)
    requires
        n <= steps.len(),
    ensures
        path_of_steps(steps.push(last), n) == path_of_steps(steps, n),
    decreases n,
{
    if n > 0 {
        lemma_steps_prefix(steps, last, (n - 1) as nat);
        assert(steps.push(last)[n - 1] == steps[n - 1]);
    }
}

/// The path of a field that a decoder ignored grows with each step: by a key
/// behind a dot, by an index in brackets, and not at all through a wrapper.
pub proof fn law_path_grows_with_each_step(steps: Seq<PathStep>, i: usize, key: String)
    ensures
        ({
            let path = path_of_steps(steps, steps.len());
            &&& path_of_steps(steps.push(PathStep::Key(key)), steps.len() + 1) == field_path(
                path,
                key@,
            )
            &&& path_of_steps(steps.push(PathStep::Index(i)), steps.len() + 1) == path + "["@
                + crate::text::decimal(i as nat) + "]"@
            &&& path_of_steps(steps.push(PathStep::Through), steps.len() + 1) == path
        }),
        path_of_steps(Seq::empty(), 0).len() == 0,
{
    lemma_steps_prefix(steps, PathStep::Key(key), steps.len());
    lemma_steps_prefix(steps, PathStep::Index(i), steps.len());
    lemma_steps_prefix(steps, PathStep::Through, steps.len());
    assert(steps.push(PathStep::Key(key))[steps.len() as int] == PathStep::Key(key));
    assert(steps.push(PathStep::Index(i))[steps.len() as int] == PathStep::Index(i));
    assert(steps.push(PathStep::Through)[steps.len() as int] == PathStep::Through);
}

/// A warning is sent under code 299, as its text between quotes with quotes and
/// backslashes escaped.
pub proof fn law_warnings_are_sent(warnings: Vec<String>, r: Vec<String>, i: int)
    requires
        call_ensures(build_warning_headers, (&warnings,), r),
        0 <= i < warnings@.len(),
    ensures
        r@.len() == warnings@.len(),
        ({
            let text = warnings@[i]@;
            &&& r@[i]@ == "299 - \""@ + escaped(text, text.len()) + "\""@
            &&& (forall|k: int| 0 <= k < text.len() ==> #[trigger] text[k] != '"' && text[k]
                != '\\') ==> r@[i]@ == "299 - \""@ + text + "\""@
        }),
{
    let text = warnings@[i]@;
    assert(r@[i]@ == crate::validation::warning_header(warnings@[i]@));
    if forall|k: int| 0 <= k < text.len() ==> #[trigger] text[k] != '"' && text[k] != '\\' {
        lemma_not_escaped(text, text.len());
        assert(text.take(text.len() as int) =~= text);
    }
}

proof fn lemma_not_escaped(text: Seq<char>, n: nat)
    requires
        n <= text.len(),
        forall|k: int| 0 <= k < text.len() ==> #[trigger] text[k] != '"' && text[k] != '\\',
    ensures
        escaped(text, n) == text.take(n as int),
    decreases n,
{
    if n > 0 {
        lemma_not_escaped(text, (n - 1) as nat);
        assert(text[n - 1] != '"');
        assert(text.take(n as int) =~= text.take(n - 1) + seq![text[n - 1]]);
    } else {
        assert(text.take(0) =~= Seq::empty());
    }
}

/// A body is checked in the mode that the request asks for: its fields, its
/// repeated keys, and what the decoder ignored.
pub proof fn law_bodies_are_checked(
    params: StringMap,
    body: &[u8],
    ignored: Vec<String>,
    canonical: Result<Json, String>,
    r: Result<Vec<String>, Error>,
)
    requires
        call_ensures(validate_strict_fields, (&params, body, &ignored, canonical), r),
    ensures
        mode_of(params@) is Ignore ==> r is Ok && r->Ok_0@.len() == 0,
        ({
            let parsed = json_document(body@);
            let unknown = all_unknown(
                crate::text::texts(ignored@),
                parsed->Ok_0,
                canonical->Ok_0@,
            );
            &&& mode_of(params@) is Warn && parsed is Ok && canonical is Ok ==> r is Ok
                && r->Ok_0@.len() == unknown.len()
            &&& mode_of(params@) is Strict && parsed is Ok && canonical is Ok ==> (r is Ok
                <==> unknown.len() == 0 && duplicates_in(body@).len() == 0)
            &&& !(mode_of(params@) is Ignore) && parsed is Err ==> r is Err && r->Err_0@
                is BadRequest
            &&& !(mode_of(params@) is Ignore) && parsed is Ok && canonical is Err ==> r is Err
                && r->Err_0@ is Internal
        }),
{
    if r is Ok {
        assert(crate::text::texts(r->Ok_0@).len() == r->Ok_0@.len());
    }
}

/// What a parser says of a body that is no JSON is handed on; where it names a
/// repeated field between backticks, that field is named instead.
pub proof fn law_syntax_errors_are_handed_on(
    mode: FieldValidationMode,
    body: Seq<u8>,
    front: Seq<char>,
    field: Seq<char>,
    ignored: Seq<Seq<char>>,
    canonical: Result<JsonView, Seq<char>>,
)
    requires
        !(mode is Ignore),
        !front.contains('`'),
        !field.contains('`'),
    ensures
        crate::text::find_text(front, "duplicate field"@) is None ==> fields_answer(
            mode,
            body,
            Err(front),
            ignored,
            canonical,
        ) == Err::<Seq<Seq<char>>, ErrorView>(ErrorView::BadRequest(front)),
        crate::text::find_text(front + seq!['`'] + field, "duplicate field"@) is Some
            ==> fields_answer(mode, body, Err(front + seq!['`'] + field), ignored, canonical)
            == Err::<Seq<Seq<char>>, ErrorView>(
            ErrorView::BadRequest(
                "strict decoding error: json: unknown field \""@ + field + "\""@,
            ),
        ),
{
    crate::subresource_laws::lemma_split_more(front, '`', field);
    crate::text_laws::law_pieces_make_the_text(front, '`');
    crate::text_laws::law_cut_at_the_first(front, '`');
    let parts = crate::text::split_at_char(front, '`');
    assert(crate::text::find_char(front, '`') is None) by {
        match crate::text::split_once_at(front, '`') {
            Some((a, b)) => {
                assert(front[a.len() as int] == '`');
            },
            None => {},
        }
    }
    assert(parts == seq![front]);
    assert(crate::text::split_at_char(front + seq!['`'] + field, '`')[1] == field);
}

} // verus!
