//! The steps of a request, in their order, and what follows each of them.
use vstd::prelude::*;
use vstd::string::StringExecFns;
use crate::access::{attributes, opt_str, AttributesView, RequestAttributes};
use crate::error::{Error, ErrorView, FieldError};
use crate::resources::{already_exists_message, exists_message, group_of, plural_of, Resource};
use crate::validation::{no_field_errors, NameKind};

verus! {

/// What is asked of a resource.
#[derive(Clone, Copy, Debug, PartialEq, Eq, Structural)]
pub enum Request {
    Create,
    Get,
    Update,
    UpdateStatus,
    Delete,
    List,
}

/// The verb of a request.
pub open spec fn verb_of(request: Request) -> Seq<char> {
    match request {
        Request::Create => "create"@,
        Request::Get => "get"@,
        Request::Update => "update"@,
        Request::UpdateStatus => "update"@,
        Request::Delete => "delete"@,
        Request::List => "list"@,
    }
}

/// What the authorizer is asked of a request. A status goes under a name of its
/// own, and neither a new object nor a list is asked for by name.
pub open spec fn question_of(
    r: Resource,
    request: Request,
    namespace: Option<Seq<char>>,
    name: Seq<char>,
) -> AttributesView {
    AttributesView {
        verb: verb_of(request),
        resource: if request is UpdateStatus {
            plural_of(r) + "/status"@
        } else {
            plural_of(r)
        },
        api_group: group_of(r),
        namespace,
        name: if request is Create || request is List {
            None
        } else {
            Some(name)
        },
        subresource: None,
    }
}

/// The question that the authorizer is asked of a request.
pub fn request_question(r: Resource, request: Request, namespace: Option<&str>, name: &str) -> (a:
    RequestAttributes)
    ensures
        a@ == question_of(r, request, opt_str(namespace), name@),
{
    match request {
        Request::Create => r.request_attributes("create", namespace, None),
        Request::List => r.request_attributes("list", namespace, None),
        Request::Get => r.request_attributes("get", namespace, Some(name)),
        Request::Update => r.request_attributes("update", namespace, Some(name)),
        Request::Delete => r.request_attributes("delete", namespace, Some(name)),
        Request::UpdateStatus => {
            let mut resource: String = r.plural().to_owned();
            resource.append("/status");
            attributes("update", resource.as_str(), r.group(), namespace, Some(name), None)
        },
    }
}

/// The form that the names of a resource's objects have: roles and bindings
/// take any path segment, the others are subdomains.
pub open spec fn kind_of_names(r: Resource) -> NameKind {
    match r {
        Resource::Role
        | Resource::RoleBinding
        | Resource::ClusterRole
        | Resource::ClusterRoleBinding => NameKind::PathSegment,
        _ => NameKind::DnsSubdomain,
    }
}

/// The form that the names of a resource's objects have.
pub fn name_kind(r: Resource) -> (k: NameKind)
    ensures
        k == kind_of_names(r),
{
    match r {
        Resource::Role
        | Resource::RoleBinding
        | Resource::ClusterRole
        | Resource::ClusterRoleBinding => NameKind::PathSegment,
        _ => NameKind::DnsSubdomain,
    }
}

/// One step of a request.
#[derive(Clone, Copy, Debug, PartialEq, Eq, Structural)]
pub enum Step {
    /// Decode the body.
    Decode,
    /// Check the body for fields that it must not have.
    CheckFields,
    /// Check name and metadata of a new object.
    CheckMeta,
    /// Ask the authorizer.
    Authorize,
    /// Confirm that a binding grants nothing that its maker does not hold.
    ConfirmGrant,
    /// Set kind and version.
    SetType,
    /// Set kind and version where they are empty.
    FillType,
    /// Fill in defaults.
    Default,
    /// Validate the object.
    Validate,
    /// Set name and namespace of the request.
    Place,
    /// Give the object an identifier and a time of creation.
    Identify,
    /// Fill in the default storage class; a failure does not matter.
    DefaultClass,
    /// Check the limits of the namespace.
    CheckLimits,
    /// Gather the rules of an aggregated role.
    Aggregate,
    /// Require a name.
    RequireName,
    /// Remove the status.
    ClearStatus,
    /// Refuse an update of what is not there.
    MustExist,
    /// Read the stored object.
    Fetch,
    /// Compare the version with that of the stored object.
    CheckVersion,
    /// Refuse another selector than the stored one.
    CheckSelector,
    /// Validate the object against the stored one, where that can be read.
    CompareStored,
    /// Take over the status of the stored object.
    KeepStatus,
    /// Put the new status into the stored object.
    TakeStatus,
    /// Take over the metadata that the server owns.
    InheritMeta,
    /// Raise the generation where the specification changed.
    RaiseGeneration,
    /// Note the revision of the template.
    NoteRevision,
    /// Ask the webhooks whether the object may go.
    AskWebhooks,
    /// Stop here where the request is only tried out.
    DryRun,
    /// Write a new object.
    Store,
    /// Write over the stored object.
    Replace,
    /// Write over the stored object, or a new one where there is none.
    Upsert,
    /// Remove the object, or mark it where finalizers hold it.
    Remove,
    /// Remove the object for good where its last finalizer has gone.
    FinishDeletion,
    /// Read all objects.
    ReadAll,
    /// Keep those that the selectors select.
    Select,
    /// Put them in order.
    Sort,
    /// Cut out the page that is asked for.
    Page,
}

/// The steps of creating an object.
pub open spec fn create_plan(r: Resource) -> Seq<Step> {
    match r {
        Resource::Role => seq![
            Step::Authorize,
            Step::CheckMeta,
            Step::Validate,
            Step::Place,
            Step::Identify,
            Step::DryRun,
            Step::Store,
        ],
        Resource::RoleBinding => seq![
            Step::Authorize,
            Step::ConfirmGrant,
            Step::CheckMeta,
            Step::Default,
            Step::Validate,
            Step::Place,
            Step::Identify,
            Step::DryRun,
            Step::Store,
        ],
        Resource::ClusterRole => seq![
            Step::Authorize,
            Step::CheckMeta,
            Step::Validate,
            Step::Identify,
            Step::Aggregate,
            Step::DryRun,
            Step::Store,
        ],
        Resource::ClusterRoleBinding => seq![
            Step::Authorize,
            Step::ConfirmGrant,
            Step::CheckMeta,
            Step::Default,
            Step::Validate,
            Step::Identify,
            Step::DryRun,
            Step::Store,
        ],
        Resource::ReplicationController => seq![
            Step::Decode,
            Step::CheckFields,
            Step::CheckMeta,
            Step::Authorize,
            Step::Place,
            Step::Identify,
            Step::Default,
            Step::Validate,
            Step::Store,
        ],
        Resource::StatefulSet => seq![
            Step::Decode,
            Step::CheckMeta,
            Step::Authorize,
            Step::Place,
            Step::Identify,
            Step::Default,
            Step::Validate,
            Step::DryRun,
            Step::Store,
        ],
        Resource::PersistentVolume => seq![
            Step::Decode,
            Step::Authorize,
            Step::CheckMeta,
            Step::Validate,
            Step::Identify,
            Step::Default,
            Step::DryRun,
            Step::Store,
        ],
        Resource::PersistentVolumeClaim => seq![
            Step::Authorize,
            Step::CheckMeta,
            Step::Validate,
            Step::Place,
            Step::DefaultClass,
            Step::CheckLimits,
            Step::Identify,
            Step::Default,
            Step::DryRun,
            Step::Store,
        ],
        Resource::ResourceClaim => seq![
            Step::Authorize,
            Step::SetType,
            Step::Validate,
            Step::Place,
            Step::Identify,
            Step::RequireName,
            Step::DryRun,
            Step::Store,
        ],
        Resource::ResourceSlice => seq![
            Step::Authorize,
            Step::SetType,
            Step::Validate,
            Step::Identify,
            Step::RequireName,
            Step::DryRun,
            Step::Store,
        ],
        Resource::ServiceCidr => seq![
            Step::CheckMeta,
            Step::Validate,
            Step::Authorize,
            Step::Identify,
            Step::ClearStatus,
            Step::DryRun,
            Step::Store,
        ],
        Resource::StorageClass => seq![
            Step::CheckMeta,
            Step::Authorize,
            Step::Identify,
            Step::Default,
            Step::Validate,
            Step::DryRun,
            Step::Store,
        ],
        _ => Seq::empty(),
    }
}

/// The steps of updating an object.
pub open spec fn update_plan(r: Resource) -> Seq<Step> {
    match r {
        Resource::Role => seq![Step::Authorize, Step::Place, Step::DryRun, Step::Replace],
        Resource::RoleBinding | Resource::ClusterRoleBinding => seq![
            Step::Authorize,
            Step::Place,
            Step::CompareStored,
            Step::ConfirmGrant,
            Step::DryRun,
            Step::Replace,
        ],
        Resource::ClusterRole => seq![
            Step::Authorize,
            Step::Place,
            Step::Aggregate,
            Step::DryRun,
            Step::Replace,
        ],
        Resource::ReplicationController => seq![
            Step::Decode,
            Step::Authorize,
            Step::Place,
            Step::Upsert,
        ],
        Resource::StatefulSet => seq![
            Step::Decode,
            Step::Authorize,
            Step::Place,
            Step::FillType,
            Step::Default,
            Step::Fetch,
            Step::CheckVersion,
            Step::CheckSelector,
            Step::CompareStored,
            Step::KeepStatus,
            Step::InheritMeta,
            Step::RaiseGeneration,
            Step::NoteRevision,
            Step::DryRun,
            Step::Upsert,
        ],
        Resource::PersistentVolume => seq![
            Step::Authorize,
            Step::Place,
            Step::CompareStored,
            Step::DryRun,
            Step::Replace,
        ],
        Resource::PersistentVolumeClaim | Resource::StorageClass => seq![
            Step::Authorize,
            Step::Place,
            Step::Default,
            Step::CompareStored,
            Step::DryRun,
            Step::Replace,
        ],
        Resource::ResourceClaim => seq![
            Step::Authorize,
            Step::MustExist,
            Step::SetType,
            Step::Place,
            Step::CompareStored,
            Step::DryRun,
            Step::InheritMeta,
            Step::Replace,
            Step::FinishDeletion,
        ],
        Resource::ResourceSlice => seq![
            Step::Authorize,
            Step::SetType,
            Step::Place,
            Step::CompareStored,
            Step::DryRun,
            Step::InheritMeta,
            Step::Replace,
            Step::FinishDeletion,
        ],
        Resource::ServiceCidr => seq![
            Step::Authorize,
            Step::Place,
            Step::CompareStored,
            Step::DryRun,
            Step::InheritMeta,
            Step::Replace,
        ],
        _ => Seq::empty(),
    }
}

/// Whether webhooks are asked before an object of the resource goes.
pub open spec fn asks_webhooks(r: Resource) -> bool {
    !(r is ServiceCidr || r is StorageClass || r is ResourceClaim || r is ResourceSlice)
}

/// The steps of deleting an object.
pub open spec fn delete_plan(r: Resource) -> Seq<Step> {
    if asks_webhooks(r) {
        seq![Step::Authorize, Step::Fetch, Step::AskWebhooks, Step::DryRun, Step::Remove]
    } else {
        seq![Step::Authorize, Step::Fetch, Step::DryRun, Step::Remove]
    }
}

/// The steps of reading an object.
pub open spec fn get_plan(r: Resource) -> Seq<Step> {
    if r is ResourceClaim || r is ResourceSlice {
        seq![Step::Authorize, Step::Fetch, Step::SetType]
    } else {
        seq![Step::Authorize, Step::Fetch]
    }
}

/// The steps of listing objects.
pub open spec fn list_plan(r: Resource) -> Seq<Step> {
    if r is ServiceCidr {
        seq![Step::Authorize, Step::ReadAll]
    } else if r is Pod {
        seq![Step::Authorize, Step::ReadAll, Step::Select, Step::Sort, Step::Page]
    } else {
        seq![Step::Authorize, Step::ReadAll, Step::Select]
    }
}

/// Whether a resource answers a request by these steps. Pods do so where they
/// are read or listed, secrets and replica sets where they are listed.
pub open spec fn is_served(r: Resource, request: Request) -> bool {
    match r {
        Resource::Pod => request is Get || request is List,
        Resource::Secret | Resource::ReplicaSet => request is List,
        Resource::ResourceClaim => true,
        _ => !(request is UpdateStatus),
    }
}

/// The steps of a request.
pub open spec fn plan_of(r: Resource, request: Request) -> Seq<Step> {
    if !is_served(r, request) {
        Seq::empty()
    } else {
        match request {
            Request::Create => create_plan(r),
            Request::Get => get_plan(r),
            Request::Update => update_plan(r),
            Request::UpdateStatus => seq![
                Step::Authorize,
                Step::Place,
                Step::MustExist,
                Step::Fetch,
                Step::SetType,
                Step::TakeStatus,
                Step::Replace,
            ],
            Request::Delete => delete_plan(r),
            Request::List => list_plan(r),
        }
    }
}

fn list_create(r: Resource) -> (v: Vec<Step>)
    ensures
        v@ == create_plan(r),
{
    let v: Vec<Step> = match r {
        Resource::Role => vec![
            Step::Authorize,
            Step::CheckMeta,
            Step::Validate,
            Step::Place,
            Step::Identify,
            Step::DryRun,
            Step::Store,
        ],
        Resource::RoleBinding => vec![
            Step::Authorize,
            Step::ConfirmGrant,
            Step::CheckMeta,
            Step::Default,
            Step::Validate,
            Step::Place,
            Step::Identify,
            Step::DryRun,
            Step::Store,
        ],
        Resource::ClusterRole => vec![
            Step::Authorize,
            Step::CheckMeta,
            Step::Validate,
            Step::Identify,
            Step::Aggregate,
            Step::DryRun,
            Step::Store,
        ],
        Resource::ClusterRoleBinding => vec![
            Step::Authorize,
            Step::ConfirmGrant,
            Step::CheckMeta,
            Step::Default,
            Step::Validate,
            Step::Identify,
            Step::DryRun,
            Step::Store,
        ],
        Resource::ReplicationController => vec![
            Step::Decode,
            Step::CheckFields,
            Step::CheckMeta,
            Step::Authorize,
            Step::Place,
            Step::Identify,
            Step::Default,
            Step::Validate,
            Step::Store,
        ],
        Resource::StatefulSet => vec![
            Step::Decode,
            Step::CheckMeta,
            Step::Authorize,
            Step::Place,
            Step::Identify,
            Step::Default,
            Step::Validate,
            Step::DryRun,
            Step::Store,
        ],
        Resource::PersistentVolume => vec![
            Step::Decode,
            Step::Authorize,
            Step::CheckMeta,
            Step::Validate,
            Step::Identify,
            Step::Default,
            Step::DryRun,
            Step::Store,
        ],
        Resource::PersistentVolumeClaim => vec![
            Step::Authorize,
            Step::CheckMeta,
            Step::Validate,
            Step::Place,
            Step::DefaultClass,
            Step::CheckLimits,
            Step::Identify,
            Step::Default,
            Step::DryRun,
            Step::Store,
        ],
        Resource::ResourceClaim => vec![
            Step::Authorize,
            Step::SetType,
            Step::Validate,
            Step::Place,
            Step::Identify,
            Step::RequireName,
            Step::DryRun,
            Step::Store,
        ],
        Resource::ResourceSlice => vec![
            Step::Authorize,
            Step::SetType,
            Step::Validate,
            Step::Identify,
            Step::RequireName,
            Step::DryRun,
            Step::Store,
        ],
        Resource::ServiceCidr => vec![
            Step::CheckMeta,
            Step::Validate,
            Step::Authorize,
            Step::Identify,
            Step::ClearStatus,
            Step::DryRun,
            Step::Store,
        ],
        Resource::StorageClass => vec![
            Step::CheckMeta,
            Step::Authorize,
            Step::Identify,
            Step::Default,
            Step::Validate,
            Step::DryRun,
            Step::Store,
        ],
        _ => vec![],
    };
    assert(v@ =~= create_plan(r));
    v
}

fn list_update(r: Resource) -> (v: Vec<Step>)
    ensures
        v@ == update_plan(r),
{
    let v: Vec<Step> = match r {
        Resource::Role => vec![Step::Authorize, Step::Place, Step::DryRun, Step::Replace],
        Resource::RoleBinding | Resource::ClusterRoleBinding => vec![
            Step::Authorize,
            Step::Place,
            Step::CompareStored,
            Step::ConfirmGrant,
            Step::DryRun,
            Step::Replace,
        ],
        Resource::ClusterRole => vec![
            Step::Authorize,
            Step::Place,
            Step::Aggregate,
            Step::DryRun,
            Step::Replace,
        ],
        Resource::ReplicationController => vec![
            Step::Decode,
            Step::Authorize,
            Step::Place,
            Step::Upsert,
        ],
        Resource::StatefulSet => vec![
            Step::Decode,
            Step::Authorize,
            Step::Place,
            Step::FillType,
            Step::Default,
            Step::Fetch,
            Step::CheckVersion,
            Step::CheckSelector,
            Step::CompareStored,
            Step::KeepStatus,
            Step::InheritMeta,
            Step::RaiseGeneration,
            Step::NoteRevision,
            Step::DryRun,
            Step::Upsert,
        ],
        Resource::PersistentVolume => vec![
            Step::Authorize,
            Step::Place,
            Step::CompareStored,
            Step::DryRun,
            Step::Replace,
        ],
        Resource::PersistentVolumeClaim | Resource::StorageClass => vec![
            Step::Authorize,
            Step::Place,
            Step::Default,
            Step::CompareStored,
            Step::DryRun,
            Step::Replace,
        ],
        Resource::ResourceClaim => vec![
            Step::Authorize,
            Step::MustExist,
            Step::SetType,
            Step::Place,
            Step::CompareStored,
            Step::DryRun,
            Step::InheritMeta,
            Step::Replace,
            Step::FinishDeletion,
        ],
        Resource::ResourceSlice => vec![
            Step::Authorize,
            Step::SetType,
            Step::Place,
            Step::CompareStored,
            Step::DryRun,
            Step::InheritMeta,
            Step::Replace,
            Step::FinishDeletion,
        ],
        Resource::ServiceCidr => vec![
            Step::Authorize,
            Step::Place,
            Step::CompareStored,
            Step::DryRun,
            Step::InheritMeta,
            Step::Replace,
        ],
        _ => vec![],
    };
    assert(v@ =~= update_plan(r));
    v
}

/// Lists the steps of a request; none where the resource does not serve it.
pub fn plan(r: Resource, request: Request) -> (v: Vec<Step>)
    ensures
        v@ == plan_of(r, request),
{
    let served: bool = match r {
        Resource::Pod => matches!(request, Request::Get | Request::List),
        Resource::Secret | Resource::ReplicaSet => matches!(request, Request::List),
        Resource::ResourceClaim => true,
        _ => !matches!(request, Request::UpdateStatus),
    };
    if !served {
        let none: Vec<Step> = Vec::new();
        assert(none@ =~= Seq::<Step>::empty());
        return none;
    }
    let own_type: bool = matches!(r, Resource::ResourceClaim | Resource::ResourceSlice);
    let webhooks: bool = !matches!(
        r,
        Resource::ServiceCidr | Resource::StorageClass | Resource::ResourceClaim
            | Resource::ResourceSlice
    );
    let v: Vec<Step> = match request {
        Request::Create => list_create(r),
        Request::Update => list_update(r),
        Request::Get => if own_type {
            vec![Step::Authorize, Step::Fetch, Step::SetType]
        } else {
            vec![Step::Authorize, Step::Fetch]
        },
        Request::UpdateStatus => vec![
            Step::Authorize,
            Step::Place,
            Step::MustExist,
            Step::Fetch,
            Step::SetType,
            Step::TakeStatus,
            Step::Replace,
        ],
        Request::Delete => if webhooks {
            vec![Step::Authorize, Step::Fetch, Step::AskWebhooks, Step::DryRun, Step::Remove]
        } else {
            vec![Step::Authorize, Step::Fetch, Step::DryRun, Step::Remove]
        },
        Request::List => if matches!(r, Resource::ServiceCidr) {
            vec![Step::Authorize, Step::ReadAll]
        } else if matches!(r, Resource::Pod) {
            vec![Step::Authorize, Step::ReadAll, Step::Select, Step::Sort, Step::Page]
        } else {
            vec![Step::Authorize, Step::ReadAll, Step::Select]
        },
    };
    assert(v@ =~= plan_of(r, request));
    v
}

/// What follows a step.
pub enum Next {
    /// Carry out the step at this position.
    Do(usize),
    /// Answer with the object.
    Answer,
    Refused(Error),
}

/// What follows once the steps before `at` are done.
pub open spec fn from_step(plan: Seq<Step>, at: int, dry_run: bool) -> Next
    decreases plan.len() - at,
{
    if at < 0 || at >= plan.len() {
        Next::Answer
    } else if plan[at] != Step::DryRun {
        Next::Do(at as usize)
    } else if dry_run {
        Next::Answer
    } else {
        from_step(plan, at + 1, dry_run)
    }
}

/// Finds what follows once the steps before `at` are done.
pub fn go_on(plan: &Vec<Step>, at: usize, dry_run: bool) -> (r: Next)
    ensures
        r == from_step(plan@, at as int, dry_run),
{
    let mut i: usize = at;
    while i < plan.len()
        invariant
            from_step(plan@, at as int, dry_run) == from_step(plan@, i as int, dry_run),
        decreases plan.len() - i,
    {
        match plan[i] {
            Step::DryRun => {
                if dry_run {
                    return Next::Answer;
                }
            },
            _ => {
                return Next::Do(i);
            },
        }
        i = i + 1;
    }
    Next::Answer
}

/// Whether a name that is taken is told in the words of the resource.
pub open spec fn names_conflict(r: Resource) -> bool {
    r is Role || r is RoleBinding
}

/// Whether `next` follows when the step at `at` has ended with `outcome`. A
/// failure ends the request.
pub open spec fn follows(
    r: Resource,
    name: Seq<char>,
    plan: Seq<Step>,
    at: int,
    dry_run: bool,
    outcome: Result<(), Error>,
    next: Next,
) -> bool {
    match outcome {
        Ok(_) => next == from_step(plan, at + 1, dry_run),
        Err(e) => if e is AlreadyExists && names_conflict(r) && plan[at] == Step::Store {
            next is Refused && next->Refused_0@ == ErrorView::AlreadyExists(
                exists_message(r, name),
            )
        } else {
            next == Next::Refused(e)
        },
    }
}

/// Decides what follows a step of a request for the object `name`.
pub fn after_step(
    r: Resource,
    name: &str,
    plan: &Vec<Step>,
    at: usize,
    dry_run: bool,
    outcome: Result<(), Error>,
) -> (next: Next)
    requires
        at < plan@.len(),
    ensures
        follows(r, name@, plan@, at as int, dry_run, outcome, next),
{
    match outcome {
        Ok(_) => {
            let n: usize = plan.len();
            assert(at + 1 <= n);
            go_on(plan, at + 1, dry_run)
        },
        Err(e) => {
            let own_words: bool = matches!(r, Resource::Role | Resource::RoleBinding);
            let storing: bool = matches!(plan[at], Step::Store);
            match e {
                Error::AlreadyExists(m) => {
                    if own_words && storing {
                        Next::Refused(Error::AlreadyExists(already_exists_message(r, name)))
                    } else {
                        Next::Refused(Error::AlreadyExists(m))
                    }
                },
                other => Next::Refused(other),
            }
        },
    }
}

/// What comes of comparing with the stored object: nothing where that could
/// not be read, else the faults that were found.
pub fn compared(stored_was_read: bool, errs: Vec<FieldError>) -> (r: Result<(), Error>)
    ensures
        r is Err <==> stored_was_read && errs@.len() > 0,
        r matches Err(e) ==> e == Error::Invalid(errs),
{
    if stored_was_read {
        no_field_errors(errs)
    } else {
        Ok(())
    }
}

/// What follows the attempt to write over an object.
pub enum Upserted<T> {
    Done(T),
    /// It is not there: write it anew.
    CreateInstead,
    Failed(Error),
}

/// Decides what follows the attempt to write over an object that may not be there.
pub fn after_replace<T>(result: Result<T, Error>) -> (r: Upserted<T>)
    ensures
        match result {
            Ok(x) => r == Upserted::Done(x),
            Err(e) => if e is NotFound {
                r is CreateInstead
            } else {
                r == Upserted::<T>::Failed(e)
            },
        },
{
    match result {
        Ok(x) => Upserted::Done(x),
        Err(e) => match e {
            Error::NotFound(_) => Upserted::CreateInstead,
            other => Upserted::Failed(other),
        },
    }
}

/// Whether a step reads or writes the store, or asks someone who does.
pub open spec fn touches_store(s: Step) -> bool {
    match s {
        Step::ConfirmGrant
        | Step::DefaultClass
        | Step::CheckLimits
        | Step::Aggregate
        | Step::MustExist
        | Step::Fetch
        | Step::CompareStored
        | Step::InheritMeta
        | Step::ReadAll
        | Step::AskWebhooks => true,
        _ => writes(s),
    }
}

/// Whether a step writes to the store.
pub open spec fn writes(s: Step) -> bool {
    match s {
        Step::Store | Step::Replace | Step::Upsert | Step::Remove | Step::FinishDeletion => true,
        _ => false,
    }
}

/// Where the authorizer is asked.
pub open spec fn authorized_at(r: Resource, request: Request) -> int {
    match (request, r) {
        (Request::Create, Resource::ReplicationController) => 3,
        (Request::Create, Resource::StatefulSet) => 2,
        (Request::Create, Resource::ServiceCidr) => 2,
        (Request::Create, Resource::PersistentVolume) => 1,
        (Request::Create, Resource::StorageClass) => 1,
        (Request::Update, Resource::ReplicationController) => 1,
        (Request::Update, Resource::StatefulSet) => 1,
        _ => 0,
    }
}

/// Nothing is read or written without permission: the authorizer is asked
/// before any step that touches the store.
pub proof fn law_authorized_before_the_store(r: Resource, request: Request, i: int)
    requires
        is_served(r, request),
        0 <= i < plan_of(r, request).len(),
        touches_store(plan_of(r, request)[i]),
    ensures
        0 <= authorized_at(r, request) < i,
        plan_of(r, request)[authorized_at(r, request)] == Step::Authorize,
{
}

/// Whether a request can be tried out: replication controllers and the status
/// of claims are written in any case.
pub open spec fn honours_dry_run(r: Resource, request: Request) -> bool {
    !(r is ReplicationController && (request is Create || request is Update)) && !(request
        is UpdateStatus)
}

/// Where a request that is tried out stops.
pub open spec fn stops_at(r: Resource, request: Request) -> int {
    let n = plan_of(r, request).len();
    match (request, r) {
        (Request::Update, Resource::ResourceClaim) => n - 4,
        (Request::Update, Resource::ResourceSlice) => n - 4,
        (Request::Update, Resource::ServiceCidr) => n - 3,
        _ => n - 2,
    }
}

/// Whether a request can have come to the step at `i`: it did not have to stop
/// before.
pub open spec fn reaches(plan: Seq<Step>, dry_run: bool, i: int) -> bool {
    dry_run ==> forall|j: int| 0 <= j < i ==> #[trigger] plan[j] != Step::DryRun
}

proof fn lemma_from_step(plan: Seq<Step>, at: int, dry_run: bool)
    requires
        0 <= at,
        reaches(plan, dry_run, at),
        plan.len() <= usize::MAX,
    ensures
        from_step(plan, at, dry_run) matches Next::Do(i) ==> at <= i < plan.len() && plan[i as int]
            != Step::DryRun && reaches(plan, dry_run, i as int),
    decreases plan.len() - at,
{
    if at < plan.len() && plan[at] == Step::DryRun && !dry_run {
        lemma_from_step(plan, at + 1, dry_run);
    }
}

/// A request goes from step to step in order, and one that is tried out never
/// passes the place where it stops.
pub proof fn law_steps_in_order(
    r: Resource,
    name: Seq<char>,
    plan: Seq<Step>,
    at: int,
    dry_run: bool,
    outcome: Result<(), Error>,
    next: Next,
)
    requires
        0 <= at < plan.len() <= usize::MAX,
        reaches(plan, dry_run, at),
        plan[at] != Step::DryRun,
        follows(r, name, plan, at, dry_run, outcome, next),
        next is Do,
    ensures
        at < next->Do_0 < plan.len(),
        outcome is Ok,
        reaches(plan, dry_run, next->Do_0 as int),
{
    lemma_from_step(plan, at + 1, dry_run);
}

/// A request that is tried out writes nothing.
pub proof fn law_dry_run_writes_nothing(r: Resource, request: Request, i: int)
    requires
        is_served(r, request),
        honours_dry_run(r, request),
        0 <= i < plan_of(r, request).len(),
        reaches(plan_of(r, request), true, i),
    ensures
        !writes(plan_of(r, request)[i]),
{
    let p = plan_of(r, request);
    if !(request is Get || request is List) {
        assert(p[stops_at(r, request)] == Step::DryRun);
    }
}

/// A new object is validated before it is stored.
pub proof fn law_stored_objects_are_validated(r: Resource, i: int)
    requires
        is_served(r, Request::Create),
        0 <= i < create_plan(r).len(),
        create_plan(r)[i] == Step::Store,
    ensures
        exists|j: int| 0 <= j < i && #[trigger] create_plan(r)[j] == Step::Validate,
{
    let p = create_plan(r);
    let j = match r {
        Resource::RoleBinding => 4int,
        Resource::ClusterRoleBinding => 4int,
        Resource::ReplicationController => 7int,
        Resource::StatefulSet => 6int,
        Resource::PersistentVolume => 3int,
        Resource::StorageClass => 4int,
        Resource::ServiceCidr => 1int,
        _ => 2int,
    };
    assert(p[j] == Step::Validate);
}

/// A binding is written only after it was confirmed that it grants nothing
/// which its maker does not hold.
pub proof fn law_bindings_are_confirmed(r: Resource, request: Request, i: int)
    requires
        r is RoleBinding || r is ClusterRoleBinding,
        request is Create || request is Update,
        0 <= i < plan_of(r, request).len(),
        writes(plan_of(r, request)[i]),
    ensures
        exists|j: int| 0 <= j < i && #[trigger] plan_of(r, request)[j] == Step::ConfirmGrant,
{
    let p = plan_of(r, request);
    let j = if request is Create {
        1int
    } else {
        3int
    };
    assert(p[j] == Step::ConfirmGrant);
}

} // verus!
