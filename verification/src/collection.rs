//! Deleting a whole collection, object by object.
use vstd::prelude::*;
use crate::access::Decision;
use crate::error::Error;
use crate::json::{lemma_json_view, member_views, Json, JsonView};
use crate::plan::asks_webhooks;
use crate::resources::Resource;

verus! {

/// How far the deletion of a collection has come: what to do next, or the outcome.
pub enum Clearing {
    /// Ask the authorizer.
    Authorize,
    /// Read all objects.
    ReadAll,
    /// Keep those that the selectors select.
    Select,
    /// Ask the webhooks about the object at `index`.
    AskWebhooks { names: Vec<String>, index: usize, deleted: usize },
    /// Remove the object at `index`.
    Remove { names: Vec<String>, index: usize, deleted: usize },
    /// So many objects are gone at once; others may wait for their finalizers.
    Done { deleted: usize },
    Refused(Error),
}

/// What came of it.
pub enum ClearReply {
    Authorized(Result<Decision, Error>),
    Read(Result<(), Error>),
    /// The names of the selected objects.
    Selected(Result<Vec<String>, Error>),
    Asked(Result<(), Error>),
    /// Whether the object is gone at once; nothing where another request was
    /// faster.
    Removed(Result<Option<bool>, Error>),
}

/// Where the deletion goes for the object at `index`.
pub open spec fn at_item(r: Resource, names: Vec<String>, index: int, deleted: int) -> Clearing {
    if index >= names@.len() {
        Clearing::Done { deleted: deleted as usize }
    } else if asks_webhooks(r) {
        Clearing::AskWebhooks { names, index: index as usize, deleted: deleted as usize }
    } else {
        Clearing::Remove { names, index: index as usize, deleted: deleted as usize }
    }
}

/// Whether a state holds together: there is an object at its index, and no
/// more are gone than were tried.
pub open spec fn clearing_ok(at: Clearing) -> bool {
    match at {
        Clearing::AskWebhooks { names, index, deleted } => deleted <= index < names@.len(),
        Clearing::Remove { names, index, deleted } => deleted <= index < names@.len(),
        _ => true,
    }
}

/// Whether `next` follows when `reply` answers what `at` waits for.
pub open spec fn clears(
    r: Resource,
    dry_run: bool,
    at: Clearing,
    reply: ClearReply,
    next: Clearing,
) -> bool {
    match (at, reply) {
        (Clearing::Authorize, ClearReply::Authorized(Err(e))) => next == Clearing::Refused(e),
        (Clearing::Authorize, ClearReply::Authorized(Ok(Decision::Deny(reason)))) => next
            == Clearing::Refused(Error::Forbidden(reason)),
        (Clearing::Authorize, ClearReply::Authorized(Ok(Decision::Allow))) => next == if dry_run {
            Clearing::Done { deleted: 0 }
        } else {
            Clearing::ReadAll
        },
        (Clearing::ReadAll, ClearReply::Read(Err(e))) => next == Clearing::Refused(e),
        (Clearing::ReadAll, ClearReply::Read(Ok(_))) => next == Clearing::Select,
        (Clearing::Select, ClearReply::Selected(Err(e))) => next == Clearing::Refused(e),
        (Clearing::Select, ClearReply::Selected(Ok(names))) => next == at_item(r, names, 0, 0),
        (Clearing::AskWebhooks { .. }, ClearReply::Asked(Err(e))) => next == Clearing::Refused(e),
        (Clearing::AskWebhooks { names, index, deleted }, ClearReply::Asked(Ok(_))) => next
            == (Clearing::Remove { names, index, deleted }),
        (Clearing::Remove { .. }, ClearReply::Removed(Err(e))) => next == Clearing::Refused(e),
        (Clearing::Remove { names, index, deleted }, ClearReply::Removed(Ok(gone))) => next
            == at_item(
            r,
            names,
            index + 1,
            if gone == Some(true) {
                deleted + 1
            } else {
                deleted as int
            },
        ),
        (other, _) => next == other,
    }
}

fn go_to_item(r: Resource, names: Vec<String>, index: usize, deleted: usize) -> (next: Clearing)
    requires
        deleted <= index,
    ensures
        next == at_item(r, names, index as int, deleted as int),
        clearing_ok(next),
{
    if index >= names.len() {
        return Clearing::Done { deleted };
    }
    match r {
        Resource::ServiceCidr
        | Resource::StorageClass
        | Resource::ResourceClaim
        | Resource::ResourceSlice => Clearing::Remove { names, index, deleted },
        _ => Clearing::AskWebhooks { names, index, deleted },
    }
}

/// One step of the deletion of a collection. Starts at
/// [`Clearing::Authorize`]; a reply that answers nothing changes nothing.
pub fn clear_step(r: Resource, dry_run: bool, at: Clearing, reply: ClearReply) -> (next: Clearing)
    requires
        clearing_ok(at),
    ensures
        clears(r, dry_run, at, reply, next),
        clearing_ok(next),
{
    match (at, reply) {
        (Clearing::Authorize, ClearReply::Authorized(Err(e))) => Clearing::Refused(e),
        (
            Clearing::Authorize,
            ClearReply::Authorized(Ok(Decision::Deny(reason))),
        ) => Clearing::Refused(Error::Forbidden(reason)),
        (Clearing::Authorize, ClearReply::Authorized(Ok(Decision::Allow))) => if dry_run {
            Clearing::Done { deleted: 0 }
        } else {
            Clearing::ReadAll
        },
        (Clearing::ReadAll, ClearReply::Read(Err(e))) => Clearing::Refused(e),
        (Clearing::ReadAll, ClearReply::Read(Ok(_))) => Clearing::Select,
        (Clearing::Select, ClearReply::Selected(Err(e))) => Clearing::Refused(e),
        (Clearing::Select, ClearReply::Selected(Ok(names))) => go_to_item(r, names, 0, 0),
        (Clearing::AskWebhooks { .. }, ClearReply::Asked(Err(e))) => Clearing::Refused(e),
        (
            Clearing::AskWebhooks { names, index, deleted },
            ClearReply::Asked(Ok(_)),
        ) => Clearing::Remove { names, index, deleted },
        (Clearing::Remove { .. }, ClearReply::Removed(Err(e))) => Clearing::Refused(e),
        (Clearing::Remove { names, index, deleted }, ClearReply::Removed(Ok(gone))) => {
            let n: usize = names.len();
            let count: usize = match gone {
                Some(true) => deleted + 1,
                _ => deleted,
            };
            go_to_item(r, names, index + 1, count)
        },
        (other, _) => other,
    }
}

/// A deletion that is only tried out reads and removes nothing.
pub proof fn law_dry_run_clears_nothing(
    r: Resource,
    at: Clearing,
    reply: ClearReply,
    next: Clearing,
)
    requires
        clears(r, true, at, reply, next),
        at is Authorize || at is Done || at is Refused,
    ensures
        next is Authorize || next is Done || next is Refused,
        at is Authorize && next is Done ==> next->Done_deleted == 0,
{
}

/// The selected objects are removed one by one, each once and none left out: a
/// removal is followed by the next object, and the end comes after the last.
pub proof fn law_each_object_is_removed_once(
    r: Resource,
    dry_run: bool,
    at: Clearing,
    gone: Option<bool>,
    next: Clearing,
)
    requires
        clearing_ok(at),
        at is Remove,
        clears(r, dry_run, at, ClearReply::Removed(Ok(gone)), next),
    ensures
        match next {
            Clearing::AskWebhooks { names, index, deleted } => names == at->Remove_names && index
                == at->Remove_index + 1,
            Clearing::Remove { names, index, deleted } => names == at->Remove_names && index
                == at->Remove_index + 1,
            Clearing::Done { deleted } => at->Remove_index + 1 == at->Remove_names@.len() && deleted
                <= at->Remove_names@.len(),
            _ => false,
        },
{
    let n: usize = at->Remove_names.len();
    assert(at->Remove_names@.len() == n);
}

/// Whether the deletion of a collection is answered with a status object.
pub open spec fn answers_with_status(r: Resource) -> bool {
    r is StatefulSet
}

fn text_member(key: &str, value: &str) -> (m: (String, Json))
    ensures
        m.0@ == key@,
        m.1@ == JsonView::Text(value@),
{
    (key.to_owned(), Json::Text(value.to_owned()))
}

/// The status of success, with the kind of what was deleted where something was.
pub open spec fn success_status(r: Resource, dry_run: bool) -> JsonView {
    let start = seq![("apiVersion"@, JsonView::Text("v1"@)), ("code"@, JsonView::Int(200))];
    let details = if dry_run {
        Seq::empty()
    } else {
        seq![
            (
                "details"@,
                JsonView::Object(
                    seq![("kind"@, JsonView::Text(crate::resources::resource_kind(r)))],
                ),
            ),
        ]
    };
    let end = seq![
        ("kind"@, JsonView::Text("Status"@)),
        ("metadata"@, JsonView::Object(Seq::empty())),
        ("status"@, JsonView::Text("Success"@)),
    ];
    JsonView::Object(start + details + end)
}

/// What the deletion of a collection is answered with; nothing but success
/// where the resource has no status object for it.
pub fn collection_answer(r: Resource, dry_run: bool) -> (a: Option<Json>)
    ensures
        match a {
            Some(j) => answers_with_status(r) && j@ == success_status(r, dry_run),
            None => !answers_with_status(r),
        },
{
    broadcast use lemma_json_view;

    match r {
        Resource::StatefulSet => {
            let mut m: Vec<(String, Json)> = Vec::new();
            m.push(text_member("apiVersion", "v1"));
            m.push(("code".to_owned(), Json::Int(200)));
            if !dry_run {
                let mut d: Vec<(String, Json)> = Vec::new();
                d.push(text_member("kind", r.kind()));
                assert(member_views(d@) =~= seq![
                    ("kind"@, JsonView::Text(crate::resources::resource_kind(r))),
                ]);
                m.push(("details".to_owned(), Json::Object(d)));
            }
            m.push(text_member("kind", "Status"));
            let nothing: Vec<(String, Json)> = Vec::new();
            assert(member_views(nothing@) =~= Seq::empty());
            m.push(("metadata".to_owned(), Json::Object(nothing)));
            m.push(text_member("status", "Success"));
            assert(member_views(m@) =~= success_status(r, dry_run)->Object_0);
            Some(Json::Object(m))
        },
        _ => None,
    }
}

} // verus!
