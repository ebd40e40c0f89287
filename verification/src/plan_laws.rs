//! What requests on resources go through, whatever the resource.
use vstd::prelude::*;
use crate::access::Decision;
use crate::collection::{collection_answer, clears, clearing_ok, ClearReply, Clearing};
use crate::error::{Error, ErrorView};
use crate::json::{Json, JsonView};
use crate::json_laws::has_field;
use crate::validation::NameKind;
use crate::plan::{
    name_kind, plan_of, update_plan,create_plan, follows, from_step, is_served, question_of, Next, Request, Step};
use crate::resources::{group_of, plural_of, Resource};

verus! {

/// Whether a plan has a step.
pub open spec fn does(p: Seq<Step>, s: Step) -> bool {
    exists|i: int| 0 <= i < p.len() && #[trigger] p[i] == s
}

/// Whether each `b` of a plan has an `a` before it.
pub open spec fn before(p: Seq<Step>, a: Step, b: Step) -> bool {
    forall|i: int|
        0 <= i < p.len() && #[trigger] p[i] == b ==> exists|j: int|
            0 <= j < i && #[trigger] p[j] == a
}

proof fn lemma_does(p: Seq<Step>, i: int)
    requires
        0 <= i < p.len(),
    ensures
        does(p, p[i]),
{
}

proof fn lemma_before(p: Seq<Step>, a: Step, b: Step, j: int)
    requires
        0 <= j < p.len(),
        p[j] == a,
        forall|i: int| 0 <= i <= j ==> #[trigger] p[i] != b,
    ensures
        before(p, a, b),
{
    assert forall|i: int| 0 <= i < p.len() && #[trigger] p[i] == b implies exists|k: int|
        0 <= k < i && #[trigger] p[k] == a by {
        if i <= j {
            assert(p[i] != b);
        }
        assert(p[j] == a);
    }
}

/// A new object is stored under an identity, once; what is stored is what was
/// validated and identified before.
pub proof fn law_new_objects_are_identified(r: Resource)
    requires
        is_served(r, Request::Create),
    ensures
        create_plan(r).len() > 2,
        create_plan(r).last() == Step::Store,
        before(create_plan(r), Step::Identify, Step::Store),
        before(create_plan(r), Step::Authorize, Step::Store),
        before(create_plan(r), Step::Validate, Step::Store),
        before(create_plan(r), Step::Identify, Step::DryRun),
        does(create_plan(r), Step::Identify),
        does(create_plan(r), Step::Authorize),
{
    let p = create_plan(r);
    match r {
        Resource::Role => {
            lemma_before(p, Step::Identify, Step::Store, 4);
            lemma_before(p, Step::Authorize, Step::Store, 0);
            lemma_before(p, Step::Validate, Step::Store, 2);
            lemma_before(p, Step::Identify, Step::DryRun, 4);
        },
        Resource::RoleBinding => {
            lemma_before(p, Step::Identify, Step::Store, 6);
            lemma_before(p, Step::Authorize, Step::Store, 0);
            lemma_before(p, Step::Validate, Step::Store, 4);
            lemma_before(p, Step::Identify, Step::DryRun, 6);
        },
        Resource::ClusterRole => {
            lemma_before(p, Step::Identify, Step::Store, 3);
            lemma_before(p, Step::Authorize, Step::Store, 0);
            lemma_before(p, Step::Validate, Step::Store, 2);
            lemma_before(p, Step::Identify, Step::DryRun, 3);
        },
        Resource::ClusterRoleBinding => {
            lemma_before(p, Step::Identify, Step::Store, 5);
            lemma_before(p, Step::Authorize, Step::Store, 0);
            lemma_before(p, Step::Validate, Step::Store, 4);
            lemma_before(p, Step::Identify, Step::DryRun, 5);
        },
        Resource::ReplicationController => {
            lemma_before(p, Step::Identify, Step::Store, 5);
            lemma_before(p, Step::Authorize, Step::Store, 3);
            lemma_before(p, Step::Validate, Step::Store, 7);
            lemma_before(p, Step::Identify, Step::DryRun, 5);
        },
        Resource::StatefulSet => {
            lemma_before(p, Step::Identify, Step::Store, 4);
            lemma_before(p, Step::Authorize, Step::Store, 2);
            lemma_before(p, Step::Validate, Step::Store, 6);
            lemma_before(p, Step::Identify, Step::DryRun, 4);
        },
        Resource::PersistentVolume => {
            lemma_before(p, Step::Identify, Step::Store, 4);
            lemma_before(p, Step::Authorize, Step::Store, 1);
            lemma_before(p, Step::Validate, Step::Store, 3);
            lemma_before(p, Step::Identify, Step::DryRun, 4);
        },
        Resource::PersistentVolumeClaim => {
            lemma_before(p, Step::Identify, Step::Store, 6);
            lemma_before(p, Step::Authorize, Step::Store, 0);
            lemma_before(p, Step::Validate, Step::Store, 2);
            lemma_before(p, Step::Identify, Step::DryRun, 6);
        },
        Resource::ResourceClaim => {
            lemma_before(p, Step::Identify, Step::Store, 4);
            lemma_before(p, Step::Authorize, Step::Store, 0);
            lemma_before(p, Step::Validate, Step::Store, 2);
            lemma_before(p, Step::Identify, Step::DryRun, 4);
        },
        Resource::ResourceSlice => {
            lemma_before(p, Step::Identify, Step::Store, 3);
            lemma_before(p, Step::Authorize, Step::Store, 0);
            lemma_before(p, Step::Validate, Step::Store, 2);
            lemma_before(p, Step::Identify, Step::DryRun, 3);
        },
        Resource::ServiceCidr => {
            lemma_before(p, Step::Identify, Step::Store, 3);
            lemma_before(p, Step::Authorize, Step::Store, 2);
            lemma_before(p, Step::Validate, Step::Store, 1);
            lemma_before(p, Step::Identify, Step::DryRun, 3);
        },
        Resource::StorageClass => {
            lemma_before(p, Step::Identify, Step::Store, 2);
            lemma_before(p, Step::Authorize, Step::Store, 1);
            lemma_before(p, Step::Validate, Step::Store, 4);
            lemma_before(p, Step::Identify, Step::DryRun, 2);
        },
        _ => {},
    }
    assert(p[p.len() - 1] == Step::Store);
}

/// A step that succeeds is followed by the next one; at the point where only
/// trying out ends, a dry run answers and any other request goes on; after the
/// last step comes the answer. A step that fails ends the request with its
/// error.
pub proof fn law_steps_follow_each_other(
    r: Resource,
    name: Seq<char>,
    plan: Seq<Step>,
    at: int,
    dry_run: bool,
    outcome: Result<(), Error>,
    next: Next,
)
    requires
        0 <= at < plan.len() <= usize::MAX,
        follows(r, name, plan, at, dry_run, outcome, next),
        forall|i: int| 0 <= i < plan.len() - 1 && #[trigger] plan[i] == Step::DryRun ==> plan[i + 1]
            != Step::DryRun,
    ensures
        outcome is Ok && at + 1 == plan.len() ==> next is Answer,
        outcome is Ok && at + 1 < plan.len() && plan[at + 1] != Step::DryRun ==> next == Next::Do(
            (at + 1) as usize,
        ),
        outcome is Ok && at + 1 < plan.len() && plan[at + 1] == Step::DryRun && dry_run ==> next
            is Answer,
        outcome is Ok && at + 2 < plan.len() && plan[at + 1] == Step::DryRun && !dry_run ==> next
            == Next::Do((at + 2) as usize),
        outcome is Err && !(outcome->Err_0 is AlreadyExists) ==> next == Next::Refused(
            outcome->Err_0,
        ),
        outcome is Err ==> next is Refused,
        outcome is Err && outcome->Err_0 is AlreadyExists && (r is Role || r is RoleBinding)
            && plan[at] == Step::Store ==> next->Refused_0@ == ErrorView::AlreadyExists(
            plural_of(r) + " \""@ + name + "\" already exists"@,
        ),
        outcome is Err && !((r is Role || r is RoleBinding) && plan[at] == Step::Store) ==> next
            == Next::Refused(outcome->Err_0),
{
    reveal_with_fuel(from_step, 3);
    if at + 1 < plan.len() && plan[at + 1] == Step::DryRun && at + 2 < plan.len() {
        assert(plan[at + 1 + 1] != Step::DryRun);
    }
}

/// The authorizer is asked about the verb of the request, the resource in its
/// group, the namespace, and the object where the request is about one.
pub proof fn law_question_is_about_the_request(
    r: Resource,
    request: Request,
    namespace: Option<Seq<char>>,
    name: Seq<char>,
)
    ensures
        ({
            let q = question_of(r, request, namespace, name);
            &&& q.verb == match request {
                Request::Create => "create"@,
                Request::Get => "get"@,
                Request::Delete => "delete"@,
                Request::List => "list"@,
                _ => "update"@,
            }
            &&& q.api_group == group_of(r)
            &&& q.namespace == namespace
            &&& q.subresource is None
            &&& request is Create || request is List ==> q.name is None
            &&& !(request is Create || request is List) ==> q.name == Some(name)
            &&& !(request is UpdateStatus) ==> q.resource == plural_of(r)
            &&& request is UpdateStatus ==> q.resource == plural_of(r) + "/status"@
        }),
{
}

/// A collection is cleared with permission, object by object in their order;
/// those are counted that are gone at once, an error ends it, and webhooks are
/// asked about each object before it is removed, where they are asked at all.
pub proof fn law_collections_are_cleared_in_order(
    r: Resource,
    dry_run: bool,
    at: Clearing,
    reply: ClearReply,
    next: Clearing,
)
    requires
        clears(r, dry_run, at, reply, next),
        clearing_ok(at),
    ensures
        at is Authorize && reply is Authorized && reply->Authorized_0 is Ok
            && reply->Authorized_0->Ok_0 is Deny ==> next == Clearing::Refused(
            Error::Forbidden(reply->Authorized_0->Ok_0->Deny_0),
        ),
        at is Authorize && reply is Authorized && reply->Authorized_0 is Err ==> next
            == Clearing::Refused(reply->Authorized_0->Err_0),
        at is Authorize && reply == ClearReply::Authorized(Ok(Decision::Allow)) ==> if dry_run {
            next == (Clearing::Done { deleted: 0 })
        } else {
            next is ReadAll
        },
        next is ReadAll && !(at is ReadAll) ==> at is Authorize && reply
            == ClearReply::Authorized(Ok(Decision::Allow)),
        at is ReadAll && reply is Read && reply->Read_0 is Ok ==> next is Select,
        at is ReadAll && reply is Read && reply->Read_0 is Err ==> next == Clearing::Refused(
            reply->Read_0->Err_0,
        ),
        at is Select && reply is Selected && reply->Selected_0 is Err ==> next
            == Clearing::Refused(reply->Selected_0->Err_0),
        at is Select && reply is Selected && reply->Selected_0 is Ok ==> {
            let names = reply->Selected_0->Ok_0;
            &&& names@.len() == 0 ==> next == (Clearing::Done { deleted: 0 })
            &&& names@.len() > 0 ==> (next matches Clearing::AskWebhooks {
                names: n,
                index,
                deleted,
            } && n == names && index == 0 && deleted == 0) || (next matches Clearing::Remove {
                names: n,
                index,
                deleted,
            } && n == names && index == 0 && deleted == 0)
        },
        match at {
            Clearing::AskWebhooks { names, index, deleted } => {
                &&& reply is Asked && reply->Asked_0 is Ok ==> next == (Clearing::Remove {
                    names,
                    index,
                    deleted,
                })
                &&& reply is Asked && reply->Asked_0 is Err ==> next == Clearing::Refused(
                    reply->Asked_0->Err_0,
                )
            },
            Clearing::Remove { names, index, deleted } => {
                &&& reply is Removed && reply->Removed_0 is Err ==> next == Clearing::Refused(
                    reply->Removed_0->Err_0,
                )
                &&& reply is Removed && reply->Removed_0 is Ok ==> {
                    let count: int = if reply->Removed_0->Ok_0 == Some(true) {
                        deleted + 1
                    } else {
                        deleted as int
                    };
                    match next {
                        Clearing::Done { deleted: d } => index + 1 == names@.len() && d == count,
                        Clearing::AskWebhooks { names: n, index: i, deleted: d } => n == names && i
                            == index + 1 && d == count,
                        Clearing::Remove { names: n, index: i, deleted: d } => n == names && i
                            == index + 1 && d == count,
                        _ => false,
                    }
                }
            },
            _ => true,
        },
{
    match at {
        Clearing::Remove { names, index, deleted } => {
            assert(names.len() == names@.len());
        },
        Clearing::Select => {},
        _ => {},
    }
}

/// What an update writes was permitted and put under the name of the request
/// before; bindings were held against the stored ones.
pub proof fn law_updates_are_permitted_and_placed(r: Resource)
    requires
        is_served(r, Request::Update),
    ensures
        ({
            let p = plan_of(r, Request::Update);
            &&& p.len() > 2
            &&& before(p, Step::Authorize, Step::Replace)
            &&& before(p, Step::Authorize, Step::Upsert)
            &&& before(p, Step::Place, Step::Replace)
            &&& before(p, Step::Place, Step::Upsert)
            &&& does(p, Step::Place)
            &&& does(p, Step::Replace) || does(p, Step::Upsert)
        }),
{
    let p = plan_of(r, Request::Update);
    let at = if r is ReplicationController || r is StatefulSet {
        1int
    } else {
        0int
    };
    let place = if r is ReplicationController || r is StatefulSet {
        2int
    } else if r is ResourceClaim {
        3int
    } else if r is ResourceSlice {
        2int
    } else {
        1int
    };
    let write = match r {
        Resource::Role => 3int,
        Resource::RoleBinding => 5int,
        Resource::ClusterRoleBinding => 5int,
        Resource::ClusterRole => 4int,
        Resource::ReplicationController => 3int,
        Resource::StatefulSet => 14int,
        Resource::PersistentVolume => 4int,
        Resource::PersistentVolumeClaim => 5int,
        Resource::StorageClass => 5int,
        Resource::ResourceClaim => 7int,
        Resource::ResourceSlice => 6int,
        Resource::ServiceCidr => 5int,
        _ => 0int,
    };
    assert(p[at] == Step::Authorize);
    assert(p[place] == Step::Place);
    assert(p[write] == Step::Replace || p[write] == Step::Upsert);
    lemma_before(p, Step::Authorize, Step::Replace, at);
    lemma_before(p, Step::Authorize, Step::Upsert, at);
    lemma_before(p, Step::Place, Step::Replace, place);
    lemma_before(p, Step::Place, Step::Upsert, place);
}

/// An object is deleted once it was permitted and read, and, but for four
/// resources, the webhooks were asked.
pub proof fn law_deletions_are_permitted_and_read(r: Resource)
    requires
        is_served(r, Request::Delete),
    ensures
        ({
            let p = plan_of(r, Request::Delete);
            let asked = !(r is ServiceCidr || r is StorageClass || r is ResourceClaim || r
                is ResourceSlice);
            &&& p.last() == Step::Remove
            &&& before(p, Step::Authorize, Step::Fetch)
            &&& before(p, Step::Fetch, Step::Remove)
            &&& before(p, Step::DryRun, Step::Remove)
            &&& asked ==> before(p, Step::AskWebhooks, Step::Remove)
            &&& !asked ==> !does(p, Step::AskWebhooks)
        }),
{
    let p = plan_of(r, Request::Delete);
    lemma_before(p, Step::Authorize, Step::Fetch, 0);
    lemma_before(p, Step::Fetch, Step::Remove, 1);
    if r is ServiceCidr || r is StorageClass || r is ResourceClaim || r is ResourceSlice {
        assert(p =~= seq![Step::Authorize, Step::Fetch, Step::DryRun, Step::Remove]);
        lemma_before(p, Step::DryRun, Step::Remove, 2);
    } else {
        assert(p[2] == Step::AskWebhooks && p[3] == Step::DryRun);
        lemma_before(p, Step::DryRun, Step::Remove, 3);
        lemma_before(p, Step::AskWebhooks, Step::Remove, 2);
    }
}

/// Reading an object or a list takes permission first; lists but those of
/// service ranges are selected from, and lists of pods are sorted before they
/// are cut into pages.
pub proof fn law_reads_are_permitted(r: Resource)
    ensures
        is_served(r, Request::Get) ==> before(
            plan_of(r, Request::Get),
            Step::Authorize,
            Step::Fetch,
        ) && does(plan_of(r, Request::Get), Step::Fetch),
        is_served(r, Request::List) ==> before(
            plan_of(r, Request::List),
            Step::Authorize,
            Step::ReadAll,
        ) && does(plan_of(r, Request::List), Step::ReadAll),
        is_served(r, Request::List) && !(r is ServiceCidr) ==> does(
            plan_of(r, Request::List),
            Step::Select,
        ),
        r is Pod ==> before(plan_of(r, Request::List), Step::Sort, Step::Page) && before(
            plan_of(r, Request::List),
            Step::Select,
            Step::Sort,
        ) && does(plan_of(r, Request::List), Step::Page),
{
    if is_served(r, Request::Get) {
        let p = plan_of(r, Request::Get);
        assert(p[0] == Step::Authorize && p[1] == Step::Fetch);
        lemma_before(p, Step::Authorize, Step::Fetch, 0);
    }
    if is_served(r, Request::List) {
        let p = plan_of(r, Request::List);
        assert(p[0] == Step::Authorize && p[1] == Step::ReadAll);
        lemma_before(p, Step::Authorize, Step::ReadAll, 0);
        if !(r is ServiceCidr) {
            assert(p[2] == Step::Select);
        }
        if r is Pod {
            assert(p[3] == Step::Sort && p[4] == Step::Page);
            lemma_before(p, Step::Sort, Step::Page, 3);
            lemma_before(p, Step::Select, Step::Sort, 2);
        }
    }
}

/// The status of a claim is updated on the stored claim: once permitted and
/// there, and nothing but the status is taken over.
pub proof fn law_status_updates_take_the_status_only(r: Resource)
    requires
        is_served(r, Request::UpdateStatus),
    ensures
        ({
            let p = plan_of(r, Request::UpdateStatus);
            &&& r is ResourceClaim
            &&& p.last() == Step::Replace
            &&& before(p, Step::Authorize, Step::Fetch)
            &&& before(p, Step::MustExist, Step::Fetch)
            &&& before(p, Step::Fetch, Step::TakeStatus)
            &&& before(p, Step::TakeStatus, Step::Replace)
        }),
{
    let p = plan_of(r, Request::UpdateStatus);
    assert(p[0] == Step::Authorize && p[2] == Step::MustExist && p[3] == Step::Fetch && p[5]
        == Step::TakeStatus && p[6] == Step::Replace);
    lemma_before(p, Step::Authorize, Step::Fetch, 0);
    lemma_before(p, Step::MustExist, Step::Fetch, 2);
    lemma_before(p, Step::Fetch, Step::TakeStatus, 3);
    lemma_before(p, Step::TakeStatus, Step::Replace, 5);
}

/// Names of roles and their bindings are segments of a path, all others are DNS
/// subdomains.
pub proof fn law_kinds_of_names(r: Resource, k: NameKind)
    requires
        call_ensures(name_kind, (r,), k),
    ensures
        k is PathSegment <==> r is Role || r is RoleBinding || r is ClusterRole || r
            is ClusterRoleBinding,
        k is PathSegment || k is DnsSubdomain,
{
}

/// Stateful sets answer the deletion of a collection with a status of success.
pub proof fn law_answer_to_a_cleared_collection(r: Resource, dry_run: bool, a: Option<Json>)
    requires
        call_ensures(collection_answer, (r, dry_run), a),
    ensures
        a is Some <==> r is StatefulSet,
        a is Some ==> {
            let j = a->0@;
            &&& j is Object
            &&& has_field(j, "status"@, JsonView::Text("Success"@))
            &&& has_field(j, "kind"@, JsonView::Text("Status"@))
            &&& has_field(j, "code"@, JsonView::Int(200))
        },
{
    if a is Some {
        let m = a->0@->Object_0;
        reveal_strlit("apiVersion");
        reveal_strlit("code");
        reveal_strlit("details");
        reveal_strlit("kind");
        reveal_strlit("metadata");
        reveal_strlit("status");
        assert("apiVersion"@.len() == 10 && "code"@.len() == 4 && "details"@.len() == 7
            && "kind"@.len() == 4 && "metadata"@.len() == 8 && "status"@.len() == 6);
        assert("code"@[0] == 'c' && "kind"@[0] == 'k');
        assert(m[0].0 == "apiVersion"@ && m[1] == ("code"@, JsonView::Int(200)));
        if dry_run {
            assert(m[2] == ("kind"@, JsonView::Text("Status"@)));
            assert(m[3].0 == "metadata"@);
            assert(m[4] == ("status"@, JsonView::Text("Success"@)));
        } else {
            assert(m[2].0 == "details"@);
            assert(m[3] == ("kind"@, JsonView::Text("Status"@)));
            assert(m[4].0 == "metadata"@);
            assert(m[5] == ("status"@, JsonView::Text("Success"@)));
        }
    }
}

/// What is stored has taken its steps before: names and metadata are checked,
/// or a name required; defaults filled in; namespaced objects put into their
/// namespace; bindings confirmed; aggregated rules gathered; limits of claims
/// checked; and all but controllers may be tried out.
pub proof fn law_steps_before_an_object_is_stored(r: Resource)
    requires
        is_served(r, Request::Create),
    ensures
        r is Role || r is RoleBinding || r is ClusterRole || r is ClusterRoleBinding
            || r is ReplicationController || r is StatefulSet || r is PersistentVolume
            || r is PersistentVolumeClaim || r is ServiceCidr || r is StorageClass ==> before(
            create_plan(r),
            Step::CheckMeta,
            Step::Store,
        ),
        r is RoleBinding || r is ClusterRoleBinding || r is ReplicationController
            || r is StatefulSet || r is PersistentVolume || r is PersistentVolumeClaim
            || r is StorageClass ==> before(
            create_plan(r),
            Step::Default,
            Step::Store,
        ),
        r is Role || r is RoleBinding || r is ReplicationController || r is StatefulSet
            || r is PersistentVolumeClaim || r is ResourceClaim ==> before(
            create_plan(r),
            Step::Place,
            Step::Store,
        ),
        r is RoleBinding || r is ClusterRoleBinding ==> before(
            create_plan(r),
            Step::ConfirmGrant,
            Step::Store,
        ),
        r is ClusterRole ==> before(
            create_plan(r),
            Step::Aggregate,
            Step::Store,
        ),
        r is ReplicationController ==> before(
            create_plan(r),
            Step::CheckFields,
            Step::Store,
        ),
        r is ReplicationController || r is StatefulSet || r is PersistentVolume ==> before(
            create_plan(r),
            Step::Decode,
            Step::Store,
        ),
        r is PersistentVolumeClaim ==> before(
            create_plan(r),
            Step::CheckLimits,
            Step::Store,
        ),
        r is PersistentVolumeClaim ==> before(
            create_plan(r),
            Step::DefaultClass,
            Step::Store,
        ),
        r is ResourceClaim || r is ResourceSlice ==> before(
            create_plan(r),
            Step::RequireName,
            Step::Store,
        ),
        r is ServiceCidr ==> before(
            create_plan(r),
            Step::ClearStatus,
            Step::Store,
        ),
        r is ResourceClaim || r is ResourceSlice ==> before(
            create_plan(r),
            Step::SetType,
            Step::Store,
        ),
        r is Role || r is RoleBinding || r is ClusterRole || r is ClusterRoleBinding
            || r is StatefulSet || r is PersistentVolume || r is PersistentVolumeClaim
            || r is ResourceClaim || r is ResourceSlice || r is ServiceCidr
            || r is StorageClass ==> before(
            create_plan(r),
            Step::DryRun,
            Step::Store,
        ),
{
    let p = create_plan(r);
    match r {
        Resource::Role => {
            lemma_before(p, Step::CheckMeta, Step::Store, 1);
            lemma_before(p, Step::Place, Step::Store, 3);
            lemma_before(p, Step::DryRun, Step::Store, 5);
        },
        Resource::RoleBinding => {
            lemma_before(p, Step::CheckMeta, Step::Store, 2);
            lemma_before(p, Step::Default, Step::Store, 3);
            lemma_before(p, Step::Place, Step::Store, 5);
            lemma_before(p, Step::ConfirmGrant, Step::Store, 1);
            lemma_before(p, Step::DryRun, Step::Store, 7);
        },
        Resource::ClusterRole => {
            lemma_before(p, Step::CheckMeta, Step::Store, 1);
            lemma_before(p, Step::Aggregate, Step::Store, 4);
            lemma_before(p, Step::DryRun, Step::Store, 5);
        },
        Resource::ClusterRoleBinding => {
            lemma_before(p, Step::CheckMeta, Step::Store, 2);
            lemma_before(p, Step::Default, Step::Store, 3);
            lemma_before(p, Step::ConfirmGrant, Step::Store, 1);
            lemma_before(p, Step::DryRun, Step::Store, 6);
        },
        Resource::ReplicationController => {
            lemma_before(p, Step::CheckMeta, Step::Store, 2);
            lemma_before(p, Step::Default, Step::Store, 6);
            lemma_before(p, Step::Place, Step::Store, 4);
            lemma_before(p, Step::CheckFields, Step::Store, 1);
            lemma_before(p, Step::Decode, Step::Store, 0);
        },
        Resource::StatefulSet => {
            lemma_before(p, Step::CheckMeta, Step::Store, 1);
            lemma_before(p, Step::Default, Step::Store, 5);
            lemma_before(p, Step::Place, Step::Store, 3);
            lemma_before(p, Step::Decode, Step::Store, 0);
            lemma_before(p, Step::DryRun, Step::Store, 7);
        },
        Resource::PersistentVolume => {
            lemma_before(p, Step::CheckMeta, Step::Store, 2);
            lemma_before(p, Step::Default, Step::Store, 5);
            lemma_before(p, Step::Decode, Step::Store, 0);
            lemma_before(p, Step::DryRun, Step::Store, 6);
        },
        Resource::PersistentVolumeClaim => {
            lemma_before(p, Step::CheckMeta, Step::Store, 1);
            lemma_before(p, Step::Default, Step::Store, 7);
            lemma_before(p, Step::Place, Step::Store, 3);
            lemma_before(p, Step::CheckLimits, Step::Store, 5);
            lemma_before(p, Step::DefaultClass, Step::Store, 4);
            lemma_before(p, Step::DryRun, Step::Store, 8);
        },
        Resource::ResourceClaim => {
            lemma_before(p, Step::Place, Step::Store, 3);
            lemma_before(p, Step::RequireName, Step::Store, 5);
            lemma_before(p, Step::SetType, Step::Store, 1);
            lemma_before(p, Step::DryRun, Step::Store, 6);
        },
        Resource::ResourceSlice => {
            lemma_before(p, Step::RequireName, Step::Store, 4);
            lemma_before(p, Step::SetType, Step::Store, 1);
            lemma_before(p, Step::DryRun, Step::Store, 5);
        },
        Resource::ServiceCidr => {
            lemma_before(p, Step::CheckMeta, Step::Store, 0);
            lemma_before(p, Step::ClearStatus, Step::Store, 4);
            lemma_before(p, Step::DryRun, Step::Store, 5);
        },
        Resource::StorageClass => {
            lemma_before(p, Step::CheckMeta, Step::Store, 0);
            lemma_before(p, Step::Default, Step::Store, 3);
            lemma_before(p, Step::DryRun, Step::Store, 5);
        },
        _ => {},
    }
}

/// What replaces a stored object has taken its steps before: it was held
/// against the stored one, keeps what the server owns, and all but controllers
/// may be tried out; a stateful set keeps its version, selector and status.
pub proof fn law_steps_before_an_object_is_replaced(r: Resource)
    requires
        is_served(r, Request::Update),
    ensures
        r is RoleBinding || r is ClusterRoleBinding || r is PersistentVolume
            || r is PersistentVolumeClaim || r is StorageClass || r is ResourceClaim
            || r is ResourceSlice || r is ServiceCidr ==> before(
            update_plan(r),
            Step::CompareStored,
            Step::Replace,
        ),
        r is StatefulSet ==> before(
            update_plan(r),
            Step::CompareStored,
            Step::Upsert,
        ),
        r is RoleBinding || r is ClusterRoleBinding ==> before(
            update_plan(r),
            Step::ConfirmGrant,
            Step::Replace,
        ),
        r is ClusterRole ==> before(
            update_plan(r),
            Step::Aggregate,
            Step::Replace,
        ),
        r is PersistentVolumeClaim || r is StorageClass ==> before(
            update_plan(r),
            Step::Default,
            Step::Replace,
        ),
        r is StatefulSet ==> before(
            update_plan(r),
            Step::Default,
            Step::Upsert,
        ),
        r is Role || r is RoleBinding || r is ClusterRoleBinding || r is ClusterRole
            || r is PersistentVolume || r is PersistentVolumeClaim || r is StorageClass
            || r is ResourceClaim || r is ResourceSlice || r is ServiceCidr ==> before(
            update_plan(r),
            Step::DryRun,
            Step::Replace,
        ),
        r is StatefulSet ==> before(
            update_plan(r),
            Step::DryRun,
            Step::Upsert,
        ),
        r is ResourceClaim || r is ResourceSlice || r is ServiceCidr ==> before(
            update_plan(r),
            Step::InheritMeta,
            Step::Replace,
        ),
        r is StatefulSet ==> before(
            update_plan(r),
            Step::InheritMeta,
            Step::Upsert,
        ),
        r is ResourceClaim ==> before(
            update_plan(r),
            Step::MustExist,
            Step::Replace,
        ),
        r is StatefulSet ==> before(
            update_plan(r),
            Step::CheckVersion,
            Step::Upsert,
        ),
        r is StatefulSet ==> before(
            update_plan(r),
            Step::CheckSelector,
            Step::Upsert,
        ),
        r is StatefulSet ==> before(
            update_plan(r),
            Step::KeepStatus,
            Step::Upsert,
        ),
        r is StatefulSet ==> before(
            update_plan(r),
            Step::RaiseGeneration,
            Step::Upsert,
        ),
        r is StatefulSet ==> before(
            update_plan(r),
            Step::NoteRevision,
            Step::Upsert,
        ),
        r is ResourceClaim || r is ResourceSlice ==> does(update_plan(r), Step::FinishDeletion),
{
    let p = update_plan(r);
    match r {
        Resource::Role => {
            lemma_before(p, Step::DryRun, Step::Replace, 2);
        },
        Resource::RoleBinding => {
            lemma_before(p, Step::CompareStored, Step::Replace, 2);
            lemma_before(p, Step::ConfirmGrant, Step::Replace, 3);
            lemma_before(p, Step::DryRun, Step::Replace, 4);
        },
        Resource::ClusterRoleBinding => {
            lemma_before(p, Step::CompareStored, Step::Replace, 2);
            lemma_before(p, Step::ConfirmGrant, Step::Replace, 3);
            lemma_before(p, Step::DryRun, Step::Replace, 4);
        },
        Resource::ClusterRole => {
            lemma_before(p, Step::Aggregate, Step::Replace, 2);
            lemma_before(p, Step::DryRun, Step::Replace, 3);
        },
        Resource::StatefulSet => {
            lemma_before(p, Step::CompareStored, Step::Upsert, 8);
            lemma_before(p, Step::Default, Step::Upsert, 4);
            lemma_before(p, Step::DryRun, Step::Upsert, 13);
            lemma_before(p, Step::InheritMeta, Step::Upsert, 10);
            lemma_before(p, Step::CheckVersion, Step::Upsert, 6);
            lemma_before(p, Step::CheckSelector, Step::Upsert, 7);
            lemma_before(p, Step::KeepStatus, Step::Upsert, 9);
            lemma_before(p, Step::RaiseGeneration, Step::Upsert, 11);
            lemma_before(p, Step::NoteRevision, Step::Upsert, 12);
        },
        Resource::PersistentVolume => {
            lemma_before(p, Step::CompareStored, Step::Replace, 2);
            lemma_before(p, Step::DryRun, Step::Replace, 3);
        },
        Resource::PersistentVolumeClaim => {
            lemma_before(p, Step::CompareStored, Step::Replace, 3);
            lemma_before(p, Step::Default, Step::Replace, 2);
            lemma_before(p, Step::DryRun, Step::Replace, 4);
        },
        Resource::StorageClass => {
            lemma_before(p, Step::CompareStored, Step::Replace, 3);
            lemma_before(p, Step::Default, Step::Replace, 2);
            lemma_before(p, Step::DryRun, Step::Replace, 4);
        },
        Resource::ResourceClaim => {
            lemma_before(p, Step::CompareStored, Step::Replace, 4);
            lemma_before(p, Step::DryRun, Step::Replace, 5);
            lemma_before(p, Step::InheritMeta, Step::Replace, 6);
            lemma_before(p, Step::MustExist, Step::Replace, 1);
            assert(p[8] == Step::FinishDeletion);
        },
        Resource::ResourceSlice => {
            lemma_before(p, Step::CompareStored, Step::Replace, 3);
            lemma_before(p, Step::DryRun, Step::Replace, 4);
            lemma_before(p, Step::InheritMeta, Step::Replace, 5);
            assert(p[7] == Step::FinishDeletion);
        },
        Resource::ServiceCidr => {
            lemma_before(p, Step::CompareStored, Step::Replace, 2);
            lemma_before(p, Step::DryRun, Step::Replace, 3);
            lemma_before(p, Step::InheritMeta, Step::Replace, 4);
        },
        _ => {},
    }
}

} // verus!
