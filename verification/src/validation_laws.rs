//! What holds of the checks on fields and of the warnings that they give.
use vstd::prelude::*;
use crate::error::ErrorView;
use crate::json::{lemma_member_at, names_once, JsonView};
use crate::json_keys::{item_path, key_path};
use crate::validation::{
    all_unknown, duplicates_in, escaped, fields_answer, unknown_in, unknown_in_items,
    unknown_in_member, unknown_in_members, FieldValidationMode,
};

verus! {

proof fn lemma_members_known(m: Seq<(Seq<char>, JsonView)>, n: nat, prefix: Seq<char>)
    requires
        n <= m.len(),
        forall|a: int, b: int|
            0 <= a < b < m.len() ==> (#[trigger] m[a]).0 != (#[trigger] m[b]).0,
        forall|i: int| 0 <= i < m.len() ==> names_once((#[trigger] m[i]).1),
    ensures
        unknown_in_members(m, n, m, prefix).len() == 0,
    decreases m, n,
{
    if n > 0 {
        lemma_members_known(m, (n - 1) as nat, prefix);
        let key = m[n - 1].0;
        lemma_member_at(m, key, 0, n - 1);
        assert(decreases_to!(m => m[n - 1]));
        law_document_as_written_has_no_unknown_fields(m[n - 1].1, key_path(prefix, key));
        assert(unknown_in_member(key, m[n - 1].1, m, prefix).len() == 0);
    }
}

proof fn lemma_items_known(v: Seq<JsonView>, n: nat, prefix: Seq<char>)
    requires
        n <= v.len(),
        forall|i: int| 0 <= i < v.len() ==> names_once(#[trigger] v[i]),
    ensures
        unknown_in_items(v, n, v, prefix).len() == 0,
    decreases v, n,
{
    if n > 0 {
        lemma_items_known(v, (n - 1) as nat, prefix);
        assert(decreases_to!(v => v[n - 1]));
        law_document_as_written_has_no_unknown_fields(
            v[n - 1],
            item_path(prefix, (n - 1) as nat),
        );
    }
}

/// A document that its type writes as it was sent has no unknown fields.
pub proof fn law_document_as_written_has_no_unknown_fields(j: JsonView, prefix: Seq<char>)
    requires
        names_once(j),
    ensures
        unknown_in(j, j, prefix).len() == 0,
    decreases j, 0nat,
{
    match j {
        JsonView::Object(m) => {
            assert(decreases_to!(j => m));
            lemma_members_known(m, m.len(), prefix);
        },
        JsonView::Array(v) => {
            assert(decreases_to!(j => v));
            lemma_items_known(v, v.len(), prefix);
        },
        _ => {},
    }
}

/// A body without unknown and repeated fields passes in every mode, without a
/// warning.
pub proof fn law_clean_body_passes(mode: FieldValidationMode, body: Seq<u8>, j: JsonView)
    requires
        names_once(j),
        duplicates_in(body).len() == 0,
    ensures
        fields_answer(mode, body, Ok(j), Seq::empty(), Ok(j)) == Ok::<Seq<Seq<char>>, ErrorView>(
            Seq::empty(),
        ),
{
    law_document_as_written_has_no_unknown_fields(j, Seq::empty());
    let unknown = all_unknown(Seq::empty(), j, j);
    assert(unknown.len() == 0);
    assert(crate::validation::labelled("unknown field \""@, unknown) =~= Seq::<Seq<char>>::empty());
}

/// Without validation nothing is refused, and with warnings nothing for the
/// fields that it has.
pub proof fn law_lenient_modes_do_not_refuse(
    body: Seq<u8>,
    parsed: Result<JsonView, Seq<char>>,
    ignored: Seq<Seq<char>>,
    canonical: Result<JsonView, Seq<char>>,
)
    ensures
        fields_answer(FieldValidationMode::Ignore, body, parsed, ignored, canonical) is Ok,
        parsed is Ok && canonical is Ok ==> fields_answer(
            FieldValidationMode::Warn,
            body,
            parsed,
            ignored,
            canonical,
        ) is Ok,
{
}

/// With strict validation a body is refused if and only if it has an unknown
/// or a repeated field.
pub proof fn law_strict_mode_refuses_every_fault(
    body: Seq<u8>,
    original: JsonView,
    ignored: Seq<Seq<char>>,
    canonical: JsonView,
)
    ensures
        fields_answer(FieldValidationMode::Strict, body, Ok(original), ignored, Ok(canonical)) is Err
            <==> all_unknown(ignored, original, canonical).len() > 0 || duplicates_in(body).len()
            > 0,
{
}

/// A quoted text without its escapes.
pub open spec fn unescaped(s: Seq<char>) -> Seq<char>
    decreases s.len(),
{
    if s.len() == 0 {
        Seq::empty()
    } else if s.last() == '\\' || s.last() == '"' {
        if s.len() < 2 {
            Seq::empty()
        } else {
            unescaped(s.take(s.len() - 2)).push(s.last())
        }
    } else {
        unescaped(s.drop_last()).push(s.last())
    }
}

/// The text of a warning can be read back from its header.
pub proof fn law_warning_text_is_read_back(text: Seq<char>, n: nat)
    requires
        n <= text.len(),
    ensures
        unescaped(escaped(text, n)) == text.take(n as int),
    decreases n,
{
    if n == 0 {
        assert(text.take(0) =~= Seq::empty());
    } else {
        law_warning_text_is_read_back(text, (n - 1) as nat);
        let before = escaped(text, (n - 1) as nat);
        let c = text[n - 1];
        let all = escaped(text, n);
        if c == '\\' || c == '"' {
            assert(all.take(all.len() - 2) =~= before);
        } else {
            assert(all.drop_last() =~= before);
        }
        assert(text.take(n as int) =~= text.take(n - 1).push(c));
    }
}

} // verus!
