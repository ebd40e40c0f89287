//! What a request moves within the object that it sends or that is stored.
use vstd::prelude::*;
use crate::access::opt_str;
use crate::json::{
    lemma_json_view, lemma_member_at, lemma_member_from, lemma_member_none, member, member_from,
    member_position, member_views, names_once, put_member, Json, JsonView,
};
use crate::model::{ObjectMeta, ObjectMetaView};

verus! {

/// Metadata under the name of the request, and in its namespace, where it has
/// one.
pub open spec fn placed(
    m: ObjectMetaView,
    name: Seq<char>,
    namespace: Option<Seq<char>>,
) -> ObjectMetaView {
    ObjectMetaView {
        name,
        namespace: match namespace {
            Some(n) => Some(n),
            None => m.namespace,
        },
        ..m
    }
}

/// Sets name and namespace of the request.
pub fn place(meta: ObjectMeta, name: &str, namespace: Option<&str>) -> (r: ObjectMeta)
    ensures
        r@ == placed(meta@, name@, opt_str(namespace)),
{
    let mut out: ObjectMeta = meta;
    out.name = name.to_owned();
    if let Some(n) = namespace {
        out.namespace = Some(n.to_owned());
    }
    out
}

/// An object with this status, or without one. What is no object stays as it is.
pub open spec fn with_status(object: JsonView, status: Option<JsonView>) -> JsonView {
    match object {
        JsonView::Object(m) => JsonView::Object(
            match (status, member_from(m, "status"@, 0)) {
                (Some(s), _) => crate::json::with_member(m, "status"@, s),
                (None, Some(i)) => m.remove(i),
                (None, None) => m,
            },
        ),
        _ => object,
    }
}

/// Takes the status out of an object.
fn take_status(object: Json) -> (r: Option<Json>)
    ensures
        crate::json::opt_json(r) == member(object@, "status"@),
{
    broadcast use lemma_json_view;

    match object {
        Json::Object(members) => match member_position(&members, "status") {
            Some(i) => {
                let mut rest: Vec<(String, Json)> = members;
                let (_, status): (String, Json) = rest.remove(i);
                Some(status)
            },
            None => None,
        },
        _ => None,
    }
}

/// Sets or removes the status of an object.
fn put_status(object: Json, status: Option<Json>) -> (r: Json)
    ensures
        r@ == with_status(object@, crate::json::opt_json(status)),
{
    broadcast use lemma_json_view;

    match object {
        Json::Object(members) => match status {
            Some(s) => Json::Object(put_member(members, "status", s)),
            None => match member_position(&members, "status") {
                Some(i) => {
                    let mut rest: Vec<(String, Json)> = members;
                    let ghost all = member_views(rest@);
                    let _ = rest.remove(i);
                    assert(member_views(rest@) =~= all.remove(i as int));
                    Json::Object(rest)
                },
                None => Json::Object(members),
            },
        },
        other => other,
    }
}

/// Puts the status of `source` in place of that of `object`.
pub fn move_status(source: Json, object: Json) -> (r: Json)
    ensures
        r@ == with_status(object@, member(source@, "status"@)),
{
    put_status(object, take_status(source))
}

/// Removes the status of an object.
pub fn clear_status(object: Json) -> (r: Json)
    ensures
        r@ == with_status(object@, None),
{
    put_status(object, None)
}

/// An object that got a status has it, or has none where it got none, and its
/// other members are as they were.
pub proof fn law_status_is_replaced(
    object: JsonView,
    status: Option<JsonView>,
    other: Seq<char>,
)
    requires
        object is Object,
        names_once(object),
    ensures
        member(with_status(object, status), "status"@) == status,
        other != "status"@ ==> member(with_status(object, status), other) == member(object, other),
{
    let m = object->Object_0;
    let key = "status"@;
    lemma_member_from(m, key, 0);
    lemma_member_from(m, other, 0);
    match (status, member_from(m, key, 0)) {
        (Some(s), _) => {
            crate::json::law_member_is_read_back(m, key, s, other);
        },
        (None, Some(i)) => {
            let rest = m.remove(i);
            assert forall|j: int| 0 <= j < rest.len() implies (#[trigger] rest[j]).0 != key by {
                if j < i {
                    assert(rest[j] == m[j]);
                    assert(m[j].0 != m[i].0);
                } else {
                    assert(rest[j] == m[j + 1]);
                    assert(m[i].0 != m[j + 1].0);
                }
            }
            lemma_member_none(rest, key, 0);
            if other != key {
                match member_from(m, other, 0) {
                    Some(k) => {
                        let at = if k < i {
                            k
                        } else {
                            k - 1
                        };
                        assert(rest[at] == m[k]);
                        assert forall|j: int| 0 <= j < at implies (#[trigger] rest[j]).0 != other by {
                            if j < i {
                                assert(rest[j] == m[j]);
                                assert(m[j].0 != m[k].0);
                            } else {
                                assert(rest[j] == m[j + 1]);
                                assert(m[j + 1].0 != m[k].0);
                            }
                        }
                        lemma_member_at(rest, other, 0, at);
                    },
                    None => {
                        assert forall|j: int| 0 <= j < rest.len() implies (#[trigger] rest[j]).0
                            != other by {
                            let at = if j < i {
                                j
                            } else {
                                j + 1
                            };
                            assert(rest[j] == m[at]);
                            if m[at].0 == other {
                                assert forall|l: int| 0 <= l < at implies (#[trigger] m[l]).0
                                    != other by {
                                    assert(m[l].0 != m[at].0);
                                }
                                lemma_member_at(m, other, 0, at);
                            }
                        }
                        lemma_member_none(rest, other, 0);
                    },
                }
            }
        },
        (None, None) => {},
    }
}

} // verus!
