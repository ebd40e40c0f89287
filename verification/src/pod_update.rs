//! Replacing a pod.
use vstd::prelude::*;
use vstd::string::StringExecFns;
use crate::access::{attributes, AttributesView, Decision, RequestAttributes};
use crate::connect::Admission;
use crate::error::{Error, ErrorView};
use crate::model::{copy_status, ObjectMetaView, Pod, PodView};
use crate::pod_rules::{
    check_active_deadline, check_ephemeral_containers, check_node_name, deadline_of,
    deadline_refusal, ephemeral_refusal, node_refusal,
};
use crate::resize::{propose_resize, with_proposal};

verus! {

/// What the replacement of a pod waits for.
pub enum UpdatePhase {
    /// The check for unknown and repeated fields.
    StrictFields,
    /// The authorizer's answer.
    Authorizing,
    /// The pod as it is stored.
    ReadingOld,
    /// The comparison of the resource versions.
    CheckingVersion,
    /// The pod with its default tolerations.
    Tolerating,
    /// The comparison of the specifications.
    CheckingSpec,
    /// The mutating webhooks.
    Mutating,
    /// The validating webhooks.
    Reviewing,
    /// The generation of the pod.
    Growing,
    /// The quota of the namespace.
    Quota,
    /// The pod in the store.
    Storing,
    Done,
    Failed(Error),
}

/// An answer to what the replacement of a pod waits for.
pub enum UpdateReply {
    Passed,
    Decided(Decision),
    Pod(Pod),
    /// What the comparison of the specifications says.
    SpecChecked(Result<(), String>),
    Mutated(Admission, Option<Pod>),
    Reviewed(Admission),
    /// The generation: that of the stored pod, one higher where the
    /// specification changed.
    Generation(Option<i64>),
    /// Whether the quota allows the pod, where that could be found out.
    Quota(Option<bool>),
    Error(Error),
}

/// A pod that is being replaced. `old` is the stored one, once it is read.
pub struct PodUpdate {
    pub pod: Pod,
    pub old: Option<Pod>,
    pub namespace: String,
    pub name: String,
    pub subresource: bool,
    pub dry_run: bool,
    pub phase: UpdatePhase,
}

/// Whether an update goes on with this pod to this phase, the rest unchanged.
pub open spec fn goes_on(at: PodUpdate, next: PodUpdate, pod: PodView, phase: UpdatePhase) -> bool {
    &&& next.pod@ == pod
    &&& next.phase == phase
    &&& next.old == at.old
    &&& next.namespace == at.namespace
    &&& next.name == at.name
    &&& next.subresource == at.subresource
    &&& next.dry_run == at.dry_run
}

/// Whether an update fails with this error.
pub open spec fn fails(next: PodUpdate, e: ErrorView) -> bool {
    next.phase matches UpdatePhase::Failed(x) && x@ == e
}

/// A pod under the name and namespace of the request.
pub open spec fn at_url(p: PodView, namespace: Seq<char>, name: Seq<char>) -> PodView {
    PodView {
        metadata: ObjectMetaView { name, namespace: Some(namespace), ..p.metadata },
        ..p
    }
}

/// Why the change from one pod to another is refused.
pub open spec fn change_refusal(old_pod: PodView, new_pod: PodView, subresource: bool) -> Option<
    ErrorView,
> {
    match ephemeral_refusal(old_pod, new_pod, subresource) {
        Some(e) => Some(e),
        None => match deadline_refusal(deadline_of(old_pod), deadline_of(new_pod)) {
            Some(e) => Some(e),
            None => node_refusal(old_pod, new_pod),
        },
    }
}

/// Whether `next` follows `at` on `reply`. An answer that was not asked for
/// changes nothing.
pub open spec fn updates(at: PodUpdate, reply: UpdateReply, next: PodUpdate) -> bool {
    match (at.phase, reply) {
        (UpdatePhase::Done, _) => next == at,
        (UpdatePhase::Failed(e), _) => next == at,
        (_, UpdateReply::Error(e)) => fails(next, e@),
        (UpdatePhase::StrictFields, UpdateReply::Passed) => goes_on(
            at,
            next,
            at.pod@,
            UpdatePhase::Authorizing,
        ),
        (UpdatePhase::Authorizing, UpdateReply::Decided(d)) => match d {
            Decision::Deny(reason) => fails(next, ErrorView::Forbidden(reason@)),
            Decision::Allow => goes_on(
                at,
                next,
                at_url(at.pod@, at.namespace@, at.name@),
                UpdatePhase::ReadingOld,
            ),
        },
        (UpdatePhase::ReadingOld, UpdateReply::Pod(p)) => next == (PodUpdate {
            old: Some(p),
            phase: UpdatePhase::CheckingVersion,
            ..at
        }),
        (UpdatePhase::CheckingVersion, UpdateReply::Passed) => match at.old {
            Some(o) => match change_refusal(o@, at.pod@, at.subresource) {
                Some(e) => fails(next, e),
                None => goes_on(
                    at,
                    next,
                    PodView { status: o@.status, ..at.pod@ },
                    UpdatePhase::Tolerating,
                ),
            },
            None => next == at,
        },
        (UpdatePhase::Tolerating, UpdateReply::Pod(p)) => goes_on(
            at,
            next,
            p@,
            if p.spec is Some && at.old is Some && at.old->0.spec is Some {
                UpdatePhase::CheckingSpec
            } else {
                UpdatePhase::Mutating
            },
        ),
        (UpdatePhase::CheckingSpec, UpdateReply::SpecChecked(outcome)) => match outcome {
            Ok(_) => goes_on(at, next, at.pod@, UpdatePhase::Mutating),
            Err(m) => fails(next, ErrorView::InvalidResource(m@)),
        },
        (UpdatePhase::Mutating, UpdateReply::Mutated(a, changed)) => match a {
            Admission::Deny(reason) => fails(next, ErrorView::Forbidden(reason@)),
            Admission::Allow => goes_on(
                at,
                next,
                match changed {
                    Some(p) => p@,
                    None => at.pod@,
                },
                UpdatePhase::Reviewing,
            ),
        },
        (UpdatePhase::Reviewing, UpdateReply::Reviewed(a)) => match a {
            Admission::Deny(reason) => fails(next, ErrorView::Forbidden(reason@)),
            Admission::Allow => goes_on(at, next, at.pod@, UpdatePhase::Growing),
        },
        (UpdatePhase::Growing, UpdateReply::Generation(g)) => match at.old {
            Some(o) => goes_on(
                at,
                next,
                with_proposal(
                    o@,
                    PodView {
                        metadata: ObjectMetaView { generation: g, ..at.pod@.metadata },
                        ..at.pod@
                    },
                ),
                UpdatePhase::Quota,
            ),
            None => next == at,
        },
        (UpdatePhase::Quota, UpdateReply::Quota(allowed)) => if allowed == Some(false) {
            fails(next, ErrorView::Forbidden("exceeded quota"@))
        } else {
            goes_on(
                at,
                next,
                at.pod@,
                if at.dry_run {
                    UpdatePhase::Done
                } else {
                    UpdatePhase::Storing
                },
            )
        },
        (UpdatePhase::Storing, UpdateReply::Pod(p)) => goes_on(at, next, p@, UpdatePhase::Done),
        _ => next == at,
    }
}

/// Checks the change from one pod to another.
fn check_change(old_pod: &Pod, new_pod: &Pod, subresource: bool) -> (r: Result<(), Error>)
    ensures
        match r {
            Ok(_) => change_refusal(old_pod@, new_pod@, subresource) is None,
            Err(e) => change_refusal(old_pod@, new_pod@, subresource) == Some(e@),
        },
{
    if let Err(e) = check_ephemeral_containers(old_pod, new_pod, subresource) {
        return Err(e);
    }
    let before: Option<i64> = match &old_pod.spec {
        Some(s) => s.active_deadline_seconds,
        None => None,
    };
    let after: Option<i64> = match &new_pod.spec {
        Some(s) => s.active_deadline_seconds,
        None => None,
    };
    if let Err(e) = check_active_deadline(before, after) {
        return Err(e);
    }
    check_node_name(old_pod, new_pod)
}

/// Takes one answer into account.
#[verifier::rlimit(40)]
pub fn update_step(at: PodUpdate, reply: UpdateReply) -> (next: PodUpdate)
    ensures
        updates(at, reply, next),
{
    let PodUpdate { pod, old, namespace, name, subresource, dry_run, phase } = at;
    let mut pod: Pod = pod;
    let mut old: Option<Pod> = old;
    let target: UpdatePhase = match (phase, reply) {
        (UpdatePhase::Done, _) => UpdatePhase::Done,
        (UpdatePhase::Failed(e), _) => UpdatePhase::Failed(e),
        (_, UpdateReply::Error(e)) => UpdatePhase::Failed(e),
        (UpdatePhase::StrictFields, UpdateReply::Passed) => UpdatePhase::Authorizing,
        (UpdatePhase::Authorizing, UpdateReply::Decided(d)) => match d {
            Decision::Deny(reason) => UpdatePhase::Failed(Error::Forbidden(reason)),
            Decision::Allow => {
                pod.metadata.name = name.clone();
                pod.metadata.namespace = Some(namespace.clone());
                UpdatePhase::ReadingOld
            },
        },
        (UpdatePhase::ReadingOld, UpdateReply::Pod(p)) => {
            old = Some(p);
            UpdatePhase::CheckingVersion
        },
        (UpdatePhase::CheckingVersion, UpdateReply::Passed) => match &old {
            Some(o) => match check_change(o, &pod, subresource) {
                Err(e) => UpdatePhase::Failed(e),
                Ok(_) => {
                    pod.status = copy_status(&o.status);
                    UpdatePhase::Tolerating
                },
            },
            None => UpdatePhase::CheckingVersion,
        },
        (UpdatePhase::Tolerating, UpdateReply::Pod(p)) => {
            pod = p;
            let both: bool = pod.spec.is_some() && (match &old {
                Some(o) => o.spec.is_some(),
                None => false,
            });
            if both {
                UpdatePhase::CheckingSpec
            } else {
                UpdatePhase::Mutating
            }
        },
        (UpdatePhase::CheckingSpec, UpdateReply::SpecChecked(outcome)) => match outcome {
            Ok(_) => UpdatePhase::Mutating,
            Err(m) => UpdatePhase::Failed(Error::InvalidResource(m)),
        },
        (UpdatePhase::Mutating, UpdateReply::Mutated(a, changed)) => match a {
            Admission::Deny(reason) => UpdatePhase::Failed(Error::Forbidden(reason)),
            Admission::Allow => {
                if let Some(p) = changed {
                    pod = p;
                }
                UpdatePhase::Reviewing
            },
        },
        (UpdatePhase::Reviewing, UpdateReply::Reviewed(a)) => match a {
            Admission::Deny(reason) => UpdatePhase::Failed(Error::Forbidden(reason)),
            Admission::Allow => UpdatePhase::Growing,
        },
        (UpdatePhase::Growing, UpdateReply::Generation(g)) => match &old {
            Some(o) => {
                pod.metadata.generation = g;
                pod = propose_resize(o, pod);
                UpdatePhase::Quota
            },
            None => UpdatePhase::Growing,
        },
        (UpdatePhase::Quota, UpdateReply::Quota(allowed)) => {
            let exceeded: bool = match allowed {
                Some(ok) => !ok,
                None => false,
            };
            if exceeded {
                UpdatePhase::Failed(Error::Forbidden("exceeded quota".to_owned()))
            } else if dry_run {
                UpdatePhase::Done
            } else {
                UpdatePhase::Storing
            }
        },
        (UpdatePhase::Storing, UpdateReply::Pod(p)) => {
            pod = p;
            UpdatePhase::Done
        },
        (other, _) => other,
    };
    PodUpdate { pod, old, namespace, name, subresource, dry_run, phase: target }
}

/// What the authorizer is asked for a request on one pod.
pub fn pod_attributes(verb: &str, namespace: &str, name: &str) -> (r: RequestAttributes)
    ensures
        r@ == (AttributesView {
            verb: verb@,
            resource: "pods"@,
            api_group: ""@,
            namespace: Some(namespace@),
            name: Some(name@),
            subresource: None,
        }),
{
    attributes(verb, "pods", "", Some(namespace), Some(name), None)
}

/// What is said of the body of an update that does not decode.
pub fn update_decode_failure(message: &str) -> (e: Error)
    ensures
        e@ == ErrorView::InvalidResource("failed to decode: "@ + message@),
{
    let mut m: String = "failed to decode: ".to_owned();
    m.append(message);
    Error::InvalidResource(m)
}

/// Whether an update has got past the authorizer.
pub open spec fn is_permitted(phase: UpdatePhase) -> bool {
    !(phase is StrictFields || phase is Authorizing || phase is Failed)
}

/// Nothing gets past the authorizer but by its permission.
pub proof fn law_update_needs_permission(at: PodUpdate, reply: UpdateReply, next: PodUpdate)
    requires
        updates(at, reply, next),
        !is_permitted(at.phase),
        is_permitted(next.phase),
    ensures
        reply == UpdateReply::Decided(Decision::Allow),
{
}

/// A dry run never comes to the store.
pub proof fn law_dry_update_stores_nothing(at: PodUpdate, reply: UpdateReply, next: PodUpdate)
    requires
        updates(at, reply, next),
        at.dry_run,
        !(at.phase is Storing),
    ensures
        !(next.phase is Storing),
{
}

/// An update goes past the comparison with the stored pod only where it keeps
/// the node that is set, and then has the status of the stored pod.
pub proof fn law_update_keeps_node_and_status(
    at: PodUpdate,
    reply: UpdateReply,
    next: PodUpdate,
)
    requires
        updates(at, reply, next),
        at.phase is CheckingVersion,
        at.old is Some,
        next.phase is Tolerating,
    ensures
        next.pod@.status == at.old->0@.status,
        crate::pod_rules::node_of(at.old->0@).len() > 0 ==> crate::pod_rules::node_of(next.pod@)
            == crate::pod_rules::node_of(at.old->0@),
{
}

/// A deadline that was set never grows and never goes.
pub proof fn law_deadline_only_shrinks(before: i64, after: Option<i64>)
    requires
        deadline_refusal(Some(before), after) is None,
    ensures
        after matches Some(n) && 0 < n <= before,
{
}

} // verus!
