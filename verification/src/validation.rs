//! Names, and fields that a body must not have.
use vstd::prelude::*;
use vstd::string::StrSliceExecFns;
use vstd::string::StringExecFns;
use vstd::utf8::{decode_utf8, encode_utf8, valid_utf8};
use crate::collections::StringMap;
use crate::error::{invalid_field, one_invalid_field, Error, ErrorView, FieldError, FieldErrorKind};
use crate::json::{
    item_views, lemma_json_view, member_from, member_position, member_views, names_once, outcome_of,
    Json, JsonView,
};
use crate::json_text::{json_document, parse_document};
use crate::json_keys::{duplicate_paths, find_all_duplicate_json_keys, item_path, key_path};
use crate::model::{ObjectMeta, ObjectMetaView};
use crate::pod_rules::is_lower_alnum;
use crate::text::{
    chars_of, contains_text, find, find_text, join, joined, push_decimal, same, split, split_at_char,
    texts, utf8_text,
};
use crate::watch::param;

verus! {

/// What is done about fields that a type does not have, or that stand twice.
#[derive(Clone, Copy, Debug, PartialEq, Eq, Structural)]
pub enum FieldValidationMode {
    /// They are refused.
    Strict,
    /// Unknown fields are accepted, with a warning for each.
    Warn,
    /// They are accepted.
    Ignore,
}

/// The mode that the query parameters ask for: to warn where they say nothing.
pub open spec fn mode_of(params: Map<Seq<char>, Seq<char>>) -> FieldValidationMode {
    match param(params, "fieldValidation"@) {
        None => FieldValidationMode::Warn,
        Some(v) => if v == ""@ || v == "Warn"@ {
            FieldValidationMode::Warn
        } else if v == "Ignore"@ {
            FieldValidationMode::Ignore
        } else {
            FieldValidationMode::Strict
        },
    }
}

impl FieldValidationMode {
    /// The mode that the query parameters ask for.
    pub fn from_query(params: &StringMap) -> (r: FieldValidationMode)
        ensures
            r == mode_of(params@),
    {
        match params.get("fieldValidation") {
            None => FieldValidationMode::Warn,
            Some(v) => {
                if same(v.as_str(), "") || same(v.as_str(), "Warn") {
                    FieldValidationMode::Warn
                } else if same(v.as_str(), "Ignore") {
                    FieldValidationMode::Ignore
                } else {
                    FieldValidationMode::Strict
                }
            },
        }
    }
}

/// Whether a value is one that a type may leave out when it is written again.
pub open spec fn is_droppable(v: JsonView) -> bool {
    match v {
        JsonView::Null => true,
        JsonView::Bool(b) => !b,
        JsonView::Text(s) => s.len() == 0,
        JsonView::Array(a) => a.len() == 0,
        JsonView::Object(m) => m.len() == 0,
        JsonView::Int(n) => false,
        JsonView::Float(s) => false,
    }
}

/// Whether a value is one that a type may leave out when it is written again.
pub fn is_droppable_default(value: &Json) -> (r: bool)
    ensures
        r == is_droppable(value@),
{
    broadcast use lemma_json_view;

    match value {
        Json::Null => true,
        Json::Bool(b) => !*b,
        Json::Text(s) => s.as_str().is_empty(),
        Json::Array(a) => a.len() == 0,
        Json::Object(m) => m.len() == 0,
        Json::Int(_) => false,
        Json::Float(_) => false,
    }
}

/// The keys that wrap an alternative form of a schema.
pub open spec fn is_union_wrapper(key: Seq<char>) -> bool {
    key == "schema"@ || key == "jSONSchemas"@ || key == "allows"@ || key == "property"@
}

/// The unknown fields that one member of an object brings. `canonical` are
/// the members of the object as its type writes it.
pub open spec fn unknown_in_member(
    key: Seq<char>,
    value: JsonView,
    canonical: Seq<(Seq<char>, JsonView)>,
    prefix: Seq<char>,
) -> Seq<Seq<char>>
    decreases value, 1nat, 0nat,
{
    let path = key_path(prefix, key);
    match member_from(canonical, key, 0) {
        Some(i) => unknown_in(value, canonical[i].1, path),
        None => if is_union_wrapper(key) && (value is Object || value is Array) {
            Seq::empty()
        } else if is_droppable(value) {
            Seq::empty()
        } else {
            seq![path]
        },
    }
}

/// The unknown fields in the first `n` members of an object.
pub open spec fn unknown_in_members(
    original: Seq<(Seq<char>, JsonView)>,
    n: nat,
    canonical: Seq<(Seq<char>, JsonView)>,
    prefix: Seq<char>,
) -> Seq<Seq<char>>
    decreases original, 0nat, n,
{
    if n == 0 || n > original.len() {
        Seq::empty()
    } else {
        unknown_in_members(original, (n - 1) as nat, canonical, prefix) + unknown_in_member(
            original[n - 1].0,
            original[n - 1].1,
            canonical,
            prefix,
        )
    }
}

/// The unknown fields in the first `n` elements of an array.
pub open spec fn unknown_in_items(
    original: Seq<JsonView>,
    n: nat,
    canonical: Seq<JsonView>,
    prefix: Seq<char>,
) -> Seq<Seq<char>>
    decreases original, 0nat, n,
{
    if n == 0 || n > original.len() || n > canonical.len() {
        Seq::empty()
    } else {
        unknown_in_items(original, (n - 1) as nat, canonical, prefix) + unknown_in(
            original[n - 1],
            canonical[n - 1],
            item_path(prefix, (n - 1) as nat),
        )
    }
}

/// The smaller of two lengths.
pub open spec fn shorter(a: nat, b: nat) -> nat {
    if a <= b {
        a
    } else {
        b
    }
}

/// The paths of the fields of `original` that are missing in `canonical`, the
/// same value as its type writes it, and are not merely left out there.
pub open spec fn unknown_in(original: JsonView, canonical: JsonView, prefix: Seq<char>) -> Seq<
    Seq<char>,
>
    decreases original, 0nat, 0nat,
{
    match (original, canonical) {
        (JsonView::Object(o), JsonView::Object(c)) => unknown_in_members(o, o.len(), c, prefix),
        (JsonView::Array(o), JsonView::Array(c)) => unknown_in_items(
            o,
            shorter(o.len(), c.len()),
            c,
            prefix,
        ),
        _ => Seq::empty(),
    }
}

fn is_wrapper_key(key: &str) -> (r: bool)
    ensures
        r == is_union_wrapper(key@),
{
    same(key, "schema") || same(key, "jSONSchemas") || same(key, "allows") || same(key, "property")
}

/// The dotted path of a key.
fn path_of_key(prefix: &str, key: &str) -> (r: String)
    ensures
        r@ == key_path(prefix@, key@),
{
    if prefix.is_empty() {
        key.to_owned()
    } else {
        let mut p: String = prefix.to_owned();
        p.append(".");
        p.append(key);
        p
    }
}

/// The path of an element.
fn path_of_item(prefix: &str, index: usize) -> (r: String)
    ensures
        r@ == item_path(prefix@, index as nat),
{
    let mut p: String = prefix.to_owned();
    p.append("[");
    push_decimal(&mut p, index as u64);
    p.append("]");
    p
}

/// Appends the paths of the fields of `original` that are missing in
/// `canonical` to `unknown`.
pub fn find_unknown_fields_via_diff(
    original: &Json,
    canonical: &Json,
    prefix: &str,
    unknown: &mut Vec<String>,
)
    ensures
        texts(final(unknown)@) == texts(old(unknown)@) + unknown_in(original@, canonical@, prefix@),
    decreases *original,
{
    broadcast use lemma_json_view;

    match (original, canonical) {
        (Json::Object(o), Json::Object(c)) => {
            let ghost ov = member_views(o@);
            let ghost cv = member_views(c@);
            let mut i: usize = 0;
            assert(texts(unknown@) =~= texts(old(unknown)@) + unknown_in_members(
                ov,
                0,
                cv,
                prefix@,
            ));
            while i < o.len()
                invariant
                    i <= o@.len(),
                    *original == Json::Object(*o),
                    ov == member_views(o@),
                    cv == member_views(c@),
                    texts(unknown@) == texts(old(unknown)@) + unknown_in_members(
                        ov,
                        i as nat,
                        cv,
                        prefix@,
                    ),
                decreases o.len() - i,
            {
                let key: &str = o[i].0.as_str();
                let value: &Json = &o[i].1;
                let ghost before = texts(unknown@);
                let ghost own = unknown_in_member(key@, value@, cv, prefix@);
                let path: String = path_of_key(prefix, key);
                match member_position(c, key) {
                    Some(k) => {
                        assert(decreases_to!(*original => original->Object_0));
                        assert(decreases_to!(*o => o@));
                        assert(decreases_to!(o@ => o@[i as int]));
                        find_unknown_fields_via_diff(value, &c[k].1, path.as_str(), unknown);
                    },
                    None => {
                        let wraps: bool = is_wrapper_key(key) && (match value {
                            Json::Object(_) => true,
                            Json::Array(_) => true,
                            _ => false,
                        });
                        if wraps || is_droppable_default(value) {
                            assert(texts(unknown@) =~= before + Seq::<Seq<char>>::empty());
                        } else {
                            let ghost t = path@;
                            unknown.push(path);
                            assert(texts(unknown@) =~= before + seq![t]);
                        }
                    },
                }
                assert(texts(unknown@) == before + own);
                i = i + 1;
                assert(texts(unknown@) =~= texts(old(unknown)@) + unknown_in_members(
                    ov,
                    i as nat,
                    cv,
                    prefix@,
                ));
            }
        },
        (Json::Array(o), Json::Array(c)) => {
            let n: usize = if o.len() <= c.len() {
                o.len()
            } else {
                c.len()
            };
            let ghost ov = item_views(o@);
            let ghost cv = item_views(c@);
            let mut i: usize = 0;
            assert(texts(unknown@) =~= texts(old(unknown)@) + unknown_in_items(
                ov,
                0,
                cv,
                prefix@,
            ));
            while i < n
                invariant
                    i <= n,
                    n == shorter(o@.len(), c@.len()),
                    *original == Json::Array(*o),
                    ov == item_views(o@),
                    cv == item_views(c@),
                    texts(unknown@) == texts(old(unknown)@) + unknown_in_items(
                        ov,
                        i as nat,
                        cv,
                        prefix@,
                    ),
                decreases n - i,
            {
                let path: String = path_of_item(prefix, i);
                assert(decreases_to!(*original => original->Array_0));
                assert(decreases_to!(*o => o@));
                find_unknown_fields_via_diff(&o[i], &c[i], path.as_str(), unknown);
                i = i + 1;
                assert(texts(unknown@) =~= texts(old(unknown)@) + unknown_in_items(
                    ov,
                    i as nat,
                    cv,
                    prefix@,
                ));
            }
        },
        _ => {
            assert(texts(unknown@) =~= texts(old(unknown)@) + Seq::<Seq<char>>::empty());
        },
    }
}

/// A step on the way to an ignored field.
pub enum PathStep {
    /// Into an element.
    Index(usize),
    /// Into a member.
    Key(String),
    /// Through a wrapper that has no name of its own.
    Through,
}

/// The path that the first `n` steps make.
pub open spec fn path_of_steps(steps: Seq<PathStep>, n: nat) -> Seq<char>
    decreases n,
{
    if n == 0 || n > steps.len() {
        Seq::empty()
    } else {
        let parent = path_of_steps(steps, (n - 1) as nat);
        match steps[n - 1] {
            PathStep::Index(i) => item_path(parent, i as nat),
            PathStep::Key(k) => key_path(parent, k@),
            PathStep::Through => parent,
        }
    }
}

/// The path of an ignored field, with dots before keys and brackets round indices.
pub fn format_ignored_path(steps: &Vec<PathStep>) -> (r: String)
    ensures
        r@ == path_of_steps(steps@, steps@.len()),
{
    let mut path: String = String::new();
    let mut i: usize = 0;
    while i < steps.len()
        invariant
            i <= steps@.len(),
            path@ == path_of_steps(steps@, i as nat),
        decreases steps.len() - i,
    {
        match &steps[i] {
            PathStep::Index(k) => {
                path = path_of_item(path.as_str(), *k);
            },
            PathStep::Key(k) => {
                path = path_of_key(path.as_str(), k.as_str());
            },
            PathStep::Through => {},
        }
        i = i + 1;
    }
    path
}

/// The texts that are not empty, among the first `n`.
pub open spec fn non_empty(s: Seq<Seq<char>>, n: nat) -> Seq<Seq<char>>
    decreases n,
{
    if n == 0 || n > s.len() {
        Seq::empty()
    } else {
        let before = non_empty(s, (n - 1) as nat);
        if s[n - 1].len() == 0 {
            before
        } else {
            before.push(s[n - 1])
        }
    }
}

/// `a`, and of the first `n` texts of `b` each that is not there yet.
pub open spec fn with_new(a: Seq<Seq<char>>, b: Seq<Seq<char>>, n: nat) -> Seq<Seq<char>>
    decreases n,
{
    if n == 0 || n > b.len() {
        a
    } else {
        let before = with_new(a, b, (n - 1) as nat);
        if before.contains(b[n - 1]) {
            before
        } else {
            before.push(b[n - 1])
        }
    }
}

/// All the unknown fields: those that the type's decoder passed over, then
/// those that only the comparison shows.
pub open spec fn all_unknown(
    ignored: Seq<Seq<char>>,
    original: JsonView,
    canonical: JsonView,
) -> Seq<Seq<char>> {
    let found = unknown_in(original, canonical, Seq::empty());
    with_new(non_empty(ignored, ignored.len()), found, found.len())
}

/// Finds all the unknown fields. `ignored` are the paths that the type's
/// decoder passed over.
pub fn find_unknown_fields_combined(ignored: &Vec<String>, original: &Json, canonical: &Json) -> (r:
    Vec<String>)
    ensures
        texts(r@) == all_unknown(texts(ignored@), original@, canonical@),
{
    let ghost all = texts(ignored@);
    let mut unknown: Vec<String> = Vec::new();
    let mut i: usize = 0;
    assert(texts(unknown@) =~= non_empty(all, 0));
    while i < ignored.len()
        invariant
            i <= ignored@.len(),
            all == texts(ignored@),
            texts(unknown@) == non_empty(all, i as nat),
        decreases ignored.len() - i,
    {
        let ghost before = texts(unknown@);
        assert(all[i as int] == ignored@[i as int]@);
        if !ignored[i].as_str().is_empty() {
            unknown.push(ignored[i].clone());
            assert(texts(unknown@) =~= before.push(all[i as int]));
        }
        i = i + 1;
    }
    let ghost base = texts(unknown@);
    let mut found: Vec<String> = Vec::new();
    let empty: String = String::new();
    assert(texts(found@) =~= Seq::<Seq<char>>::empty());
    find_unknown_fields_via_diff(original, canonical, empty.as_str(), &mut found);
    let ghost extra = unknown_in(original@, canonical@, Seq::empty());
    assert(texts(found@) =~= extra);
    let mut k: usize = 0;
    while k < found.len()
        invariant
            k <= found@.len(),
            texts(found@) == extra,
            texts(unknown@) == with_new(base, extra, k as nat),
        decreases found.len() - k,
    {
        let ghost before = texts(unknown@);
        assert(extra[k as int] == found@[k as int]@);
        if !contains_text(unknown.as_slice(), found[k].as_str()) {
            unknown.push(found[k].clone());
            assert(texts(unknown@) =~= before.push(extra[k as int]));
        }
        k = k + 1;
    }
    unknown
}

/// What is said of each field: a word, then the field between quotes.
pub open spec fn labelled(word: Seq<char>, fields: Seq<Seq<char>>) -> Seq<Seq<char>> {
    Seq::new(fields.len(), |i: int| word + fields[i] + "\""@)
}

/// The message that refuses unknown and repeated fields.
pub open spec fn strict_message(unknown: Seq<Seq<char>>, duplicates: Seq<Seq<char>>) -> Seq<char> {
    "strict decoding error: "@ + joined(
        labelled("unknown field \""@, unknown) + labelled("duplicate field \""@, duplicates),
        ", "@,
    )
}

/// Appends what is said of each field.
fn push_labelled(parts: &mut Vec<String>, word: &str, fields: &Vec<String>)
    ensures
        texts(final(parts)@) == texts(old(parts)@) + labelled(word@, texts(fields@)),
{
    let ghost start = texts(parts@);
    let ghost all = labelled(word@, texts(fields@));
    let mut i: usize = 0;
    assert(start =~= start + all.take(0));
    while i < fields.len()
        invariant
            i <= fields@.len(),
            all == labelled(word@, texts(fields@)),
            texts(parts@) == start + all.take(i as int),
        decreases fields.len() - i,
    {
        let mut m: String = word.to_owned();
        m.append(fields[i].as_str());
        m.append("\"");
        let ghost before = texts(parts@);
        let ghost t = m@;
        parts.push(m);
        i = i + 1;
        assert(t == all[i - 1]);
        assert(texts(parts@) =~= before.push(t));
        assert(all.take(i as int) =~= all.take(i - 1).push(t));
        assert(texts(parts@) =~= start + all.take(i as int));
    }
    assert(all.take(i as int) =~= all);
}

/// Builds the message that refuses unknown and repeated fields.
pub fn build_strict_decoding_message(unknown: &Vec<String>, duplicates: &Vec<String>) -> (r: String)
    ensures
        r@ == strict_message(texts(unknown@), texts(duplicates@)),
{
    let mut parts: Vec<String> = Vec::new();
    assert(texts(parts@) =~= Seq::<Seq<char>>::empty());
    push_labelled(&mut parts, "unknown field \"", unknown);
    push_labelled(&mut parts, "duplicate field \"", duplicates);
    assert(texts(parts@) =~= labelled("unknown field \""@, texts(unknown@)) + labelled(
        "duplicate field \""@,
        texts(duplicates@),
    ));
    let mut m: String = "strict decoding error: ".to_owned();
    m.append(join(&parts, ", ").as_str());
    m
}

/// What a body that is no JSON is answered with. A parser's word of a field
/// that stands twice becomes that of a strict decoder.
pub open spec fn syntax_refusal(message: Seq<char>) -> ErrorView {
    if find_text(message, "duplicate field"@) is Some && split_at_char(message, '`').len() > 1 {
        ErrorView::BadRequest(
            "strict decoding error: json: unknown field \""@ + split_at_char(message, '`')[1]
                + "\""@,
        )
    } else {
        ErrorView::BadRequest(message)
    }
}

fn refuse_syntax(message: String) -> (e: Error)
    ensures
        e@ == syntax_refusal(message@),
{
    if find(message.as_str(), "duplicate field").is_some() {
        let parts: Vec<String> = split(message.as_str(), '`');
        if parts.len() > 1 {
            assert(texts(parts@)[1] == parts@[1]@);
            let mut m: String = "strict decoding error: json: unknown field \"".to_owned();
            m.append(parts[1].as_str());
            m.append("\"");
            return Error::BadRequest(m);
        }
    }
    Error::BadRequest(message)
}

/// The body of a request as a plain JSON value, in which the last of two equal
/// keys counts, or what the parser says of it.
pub fn body_document(body: &[u8]) -> (r: Result<Json, String>)
    ensures
        outcome_of(r) == json_document(body@),
        r matches Ok(j) ==> names_once(j@),
{
    parse_document(body)
}

/// The repeated fields of a body; none where it is no UTF-8.
pub open spec fn duplicates_in(body: Seq<u8>) -> Seq<Seq<char>> {
    if valid_utf8(body) {
        duplicate_paths(decode_utf8(body))
    } else {
        Seq::empty()
    }
}

/// What a body's fields are answered with: warnings, or a refusal. `parsed`
/// is the body as JSON, `ignored` the paths that the type's decoder passed
/// over, `canonical` the body as its type writes it.
pub open spec fn fields_answer(
    mode: FieldValidationMode,
    body: Seq<u8>,
    parsed: Result<JsonView, Seq<char>>,
    ignored: Seq<Seq<char>>,
    canonical: Result<JsonView, Seq<char>>,
) -> Result<Seq<Seq<char>>, ErrorView> {
    if mode == FieldValidationMode::Ignore {
        Ok(Seq::empty())
    } else {
        match (parsed, canonical) {
            (Err(m), _) => Err(syntax_refusal(m)),
            (Ok(original), Err(m)) => Err(
                ErrorView::Internal(
                    "strict decoding: failed to canonicalise parsed resource for diff pass: "@
                        + m,
                ),
            ),
            (Ok(original), Ok(canon)) => {
                let unknown = all_unknown(ignored, original, canon);
                let duplicates = duplicates_in(body);
                if mode == FieldValidationMode::Warn {
                    Ok(labelled("unknown field \""@, unknown))
                } else if unknown.len() == 0 && duplicates.len() == 0 {
                    Ok(Seq::empty())
                } else {
                    Err(ErrorView::BadRequest(strict_message(unknown, duplicates)))
                }
            },
        }
    }
}

/// The repeated fields of a body.
fn find_duplicates(body: &[u8]) -> (r: Vec<String>)
    ensures
        texts(r@) == duplicates_in(body@),
{
    match utf8_text(body) {
        Some(text) => {
            proof {
                vstd::utf8::encode_utf8_decode_utf8(text@);
            }
            find_all_duplicate_json_keys(text)
        },
        None => {
            let none: Vec<String> = Vec::new();
            assert(texts(none@) =~= Seq::<Seq<char>>::empty());
            none
        },
    }
}

/// Checks a body for fields that its type does not have and for repeated
/// ones. `parsed` is the body as JSON. What comes back are warnings.
pub fn check_fields(
    mode: FieldValidationMode,
    original_body: &[u8],
    parsed: Result<Json, String>,
    ignored: &Vec<String>,
    canonical: Result<Json, String>,
) -> (r: Result<Vec<String>, Error>)
    ensures
        match (
            r,
            fields_answer(
                mode,
                original_body@,
                outcome_of(parsed),
                texts(ignored@),
                outcome_of(canonical),
            ),
        ) {
            (Ok(v), Ok(w)) => texts(v@) == w,
            (Err(e), Err(why)) => e@ == why,
            _ => false,
        },
{
    let mut warnings: Vec<String> = Vec::new();
    assert(texts(warnings@) =~= Seq::<Seq<char>>::empty());
    if mode == FieldValidationMode::Ignore {
        return Ok(warnings);
    }
    let original: Json = match parsed {
        Ok(j) => j,
        Err(m) => {
            return Err(refuse_syntax(m));
        },
    };
    let canon: Json = match canonical {
        Ok(j) => j,
        Err(m) => {
            let mut t: String =
                "strict decoding: failed to canonicalise parsed resource for diff pass: ".to_owned();
            t.append(m.as_str());
            return Err(Error::Internal(t));
        },
    };
    let unknown: Vec<String> = find_unknown_fields_combined(ignored, &original, &canon);
    let duplicates: Vec<String> = find_duplicates(original_body);
    if mode == FieldValidationMode::Warn {
        push_labelled(&mut warnings, "unknown field \"", &unknown);
        assert(texts(warnings@) =~= labelled("unknown field \""@, texts(unknown@)));
        return Ok(warnings);
    }
    assert(texts(unknown@).len() == unknown@.len());
    assert(texts(duplicates@).len() == duplicates@.len());
    if unknown.len() == 0 && duplicates.len() == 0 {
        Ok(warnings)
    } else {
        Err(Error::BadRequest(build_strict_decoding_message(&unknown, &duplicates)))
    }
}

/// Checks a body for fields that its type does not have and for repeated
/// ones, as the query parameters ask. What comes back are warnings.
pub fn validate_strict_fields(
    params: &StringMap,
    original_body: &[u8],
    ignored: &Vec<String>,
    canonical: Result<Json, String>,
) -> (r: Result<Vec<String>, Error>)
    ensures
        match (
            r,
            fields_answer(
                mode_of(params@),
                original_body@,
                json_document(original_body@),
                texts(ignored@),
                outcome_of(canonical),
            ),
        ) {
            (Ok(v), Ok(w)) => texts(v@) == w,
            (Err(e), Err(why)) => e@ == why,
            _ => false,
        },
{
    let mode: FieldValidationMode = FieldValidationMode::from_query(params);
    check_fields(mode, original_body, parse_document(original_body), ignored, canonical)
}

/// A character inside a quoted text: quotes and backslashes have a backslash
/// before them.
pub open spec fn escaped_char(c: char) -> Seq<char> {
    if c == '\\' || c == '"' {
        seq!['\\', c]
    } else {
        seq![c]
    }
}

/// The first `n` characters with their escapes.
pub open spec fn escaped(s: Seq<char>, n: nat) -> Seq<char>
    decreases n,
{
    if n == 0 || n > s.len() {
        Seq::empty()
    } else {
        escaped(s, (n - 1) as nat) + escaped_char(s[n - 1])
    }
}

/// The value of a warning header.
pub open spec fn warning_header(text: Seq<char>) -> Seq<char> {
    "299 - \""@ + escaped(text, text.len()) + "\""@
}

/// Builds the value of a warning header.
pub fn format_warning_header(warning_text: &str) -> (r: String)
    ensures
        r@ == warning_header(warning_text@),
{
    let v: Vec<char> = chars_of(warning_text);
    let mut inner: String = String::new();
    let mut i: usize = 0;
    while i < v.len()
        invariant
            i <= v@.len(),
            v@ == warning_text@,
            inner@ == escaped(warning_text@, i as nat),
        decreases v.len() - i,
    {
        let c: char = v[i];
        let ghost before = inner@;
        if c == '\\' || c == '"' {
            inner.push('\\');
        }
        inner.push(c);
        i = i + 1;
        assert(inner@ =~= before + escaped_char(c));
    }
    let mut header: String = "299 - \"".to_owned();
    header.append(inner.as_str());
    header.append("\"");
    header
}

/// Builds the values of the warning headers of a response.
pub fn build_warning_headers(warnings: &Vec<String>) -> (r: Vec<String>)
    ensures
        r@.len() == warnings@.len(),
        forall|i: int|
            0 <= i < r@.len() ==> (#[trigger] r@[i])@ == warning_header(warnings@[i]@),
{
    let mut out: Vec<String> = Vec::new();
    let mut i: usize = 0;
    while i < warnings.len()
        invariant
            i <= warnings@.len(),
            out@.len() == i,
            forall|j: int| 0 <= j < i ==> (#[trigger] out@[j])@ == warning_header(warnings@[j]@),
        decreases warnings.len() - i,
    {
        out.push(format_warning_header(warnings[i].as_str()));
        i = i + 1;
    }
    out
}

/// A character that a resource's name may have.
pub open spec fn is_name_char(c: char) -> bool {
    is_lower_alnum(c) || c == '-' || c == '.'
}

/// Why a name is refused.
pub open spec fn name_refusal(name: Seq<char>) -> Option<ErrorView> {
    if name.len() == 0 {
        Some(ErrorView::InvalidResource("name must be non-empty"@))
    } else if encode_utf8(name).len() > 253 {
        Some(
            ErrorView::InvalidResource(
                "name '"@ + name + "' is too long: must be no more than 253 characters"@,
            ),
        )
    } else if exists|i: int| 0 <= i < name.len() && !is_name_char(#[trigger] name[i]) {
        Some(
            ErrorView::InvalidResource(
                "name '"@ + name
                    + "' is invalid: a lowercase RFC 1123 subdomain must consist of lower case alphanumeric characters, '-' or '.', and must start and end with an alphanumeric character (e.g. 'example.com', regex used for validation is '[a-z0-9]([-a-z0-9]*[a-z0-9])?(\\.[a-z0-9]([-a-z0-9]*[a-z0-9])?)*')"@,
            ),
        )
    } else if !is_lower_alnum(name[0]) {
        Some(
            ErrorView::InvalidResource(
                "name '"@ + name + "' is invalid: must start with an alphanumeric character"@,
            ),
        )
    } else if !is_lower_alnum(name.last()) {
        Some(
            ErrorView::InvalidResource(
                "name '"@ + name + "' is invalid: must end with an alphanumeric character"@,
            ),
        )
    } else {
        None
    }
}

fn invalid_name(name: &str, why: &str) -> (e: Error)
    ensures
        e@ == ErrorView::InvalidResource("name '"@ + name@ + why@),
{
    let mut m: String = "name '".to_owned();
    m.append(name);
    m.append(why);
    Error::InvalidResource(m)
}

fn alnum(c: char) -> (r: bool)
    ensures
        r == is_lower_alnum(c),
{
    ('a' <= c && c <= 'z') || ('0' <= c && c <= '9')
}

/// Checks that a name is a DNS subdomain: letters, digits, `-` and `.`, with
/// a letter or digit at both ends.
pub fn validate_resource_name(name: &str) -> (r: Result<(), Error>)
    ensures
        match r {
            Ok(_) => name_refusal(name@) is None,
            Err(e) => name_refusal(name@) == Some(e@),
        },
{
    if name.is_empty() {
        return Err(Error::InvalidResource("name must be non-empty".to_owned()));
    }
    if name.as_bytes().len() > 253 {
        return Err(
            invalid_name(name, "' is too long: must be no more than 253 characters"),
        );
    }
    let v: Vec<char> = chars_of(name);
    let mut i: usize = 0;
    while i < v.len()
        invariant
            i <= v@.len(),
            v@ == name@,
            name@.len() > 0,
            encode_utf8(name@).len() <= 253,
            forall|j: int| 0 <= j < i ==> is_name_char(#[trigger] name@[j]),
        decreases v.len() - i,
    {
        let c: char = v[i];
        if !alnum(c) && c != '-' && c != '.' {
            assert(!is_name_char(name@[i as int]));
            return Err(
                invalid_name(
                    name,
                    "' is invalid: a lowercase RFC 1123 subdomain must consist of lower case alphanumeric characters, '-' or '.', and must start and end with an alphanumeric character (e.g. 'example.com', regex used for validation is '[a-z0-9]([-a-z0-9]*[a-z0-9])?(\\.[a-z0-9]([-a-z0-9]*[a-z0-9])?)*')",
                ),
            );
        }
        i = i + 1;
    }
    if !alnum(v[0]) {
        return Err(invalid_name(name, "' is invalid: must start with an alphanumeric character"));
    }
    if !alnum(v[v.len() - 1]) {
        return Err(invalid_name(name, "' is invalid: must end with an alphanumeric character"));
    }
    Ok(())
}

/// The name of an object, which has to have one.
pub fn require_optional_object_name(name: Option<&str>) -> (r: Result<&str, Error>)
    ensures
        match name {
            Some(n) => if n@.len() > 0 {
                r == Ok::<&str, Error>(n)
            } else {
                r matches Err(e) && e@ == invalid_field(
                    FieldErrorKind::Required,
                    "metadata.name"@,
                    ""@,
                    "name or generateName is required"@,
                )
            },
            None => r matches Err(e) && e@ == invalid_field(
                FieldErrorKind::Required,
                "metadata.name"@,
                ""@,
                "name or generateName is required"@,
            ),
        },
{
    if let Some(n) = name {
        if !n.is_empty() {
            return Ok(n);
        }
    }
    Err(
        one_invalid_field(
            FieldErrorKind::Required,
            "metadata.name",
            "".to_owned(),
            "name or generateName is required",
        ),
    )
}

/// The form that the name of an object has to have.
#[derive(Clone, Copy, Debug, PartialEq, Eq, Structural)]
pub enum NameKind {
    DnsSubdomain,
    DnsLabel,
    PathSegment,
    /// A canonical IP address.
    Ip,
    NoConstraint,
}

/// The metadata that is validated for a create: under the namespace of the
/// request, whatever the body says.
pub fn meta_to_validate(meta: &ObjectMeta, namespace: Option<&str>) -> (r: ObjectMeta)
    ensures
        r@ == (ObjectMetaView { namespace: crate::access::opt_str(namespace), ..meta@ }),
{
    let mut out: ObjectMeta = meta.duplicate();
    out.namespace = crate::access::own(namespace);
    out
}

/// What a validator's findings are answered with: a refusal that carries all
/// of them, unless there are none.
pub fn no_field_errors(errs: Vec<FieldError>) -> (r: Result<(), Error>)
    ensures
        r == if errs@.len() == 0 {
            Ok::<(), Error>(())
        } else {
            Err(Error::Invalid(errs))
        },
{
    if errs.len() == 0 {
        Ok(())
    } else {
        Err(Error::Invalid(errs))
    }
}

} // verus!
