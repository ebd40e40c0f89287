//! What the steps of the library's machines lead to, seen by their callers.
use vstd::prelude::*;
use crate::access::Decision;
use crate::binding::{bind_step, BindReply, Binding};
use crate::collection::{clear_step, ClearReply, Clearing};
use crate::collections::StringMap;
use crate::connect::{
    connect_step, forward_step, parse_exec_query, ConnectReply, ConnectRequest, Connecting,
    ExecQuery, ForwardReply, ForwardRequest, Forwarding,
};
use crate::create_laws::{claimed, law_missing_requests_are_the_limits, limited, requested};
use crate::error::Error;
use crate::eviction::{
    eviction_step, mark_disruption_target, read_eviction, record_disruption, share_to_work_out,
    BudgetStatus, DisruptionBudget, Evicting, EvictionReply, EvictionRequest, Rounding,
};
use crate::eviction_laws::{
    gives_percentage, law_eviction_leaves_enough_pods_running, running_pods, selected_pods,
    wants_running,
};
use crate::identity::{identify, identify_with};
use crate::json::{as_int, member, opt_member, Json};
use crate::json_text::json_document;
use crate::model::{ObjectMeta, Pod};
use crate::plan::{after_step, Next, Step};
use crate::pod_create::{create_step, CreateReply, PodCreation};
use crate::pod_delete::{
    body_grace_period, delete_step, mark_stored_terminating, DeleteReply, PodDeletion,
};
use crate::pod_patch::{
    apply_step, patch_step, start_apply, start_patch, ApplyReply, Applying, PatchReply, PodPatch,
};
use crate::pod_update::{update_step, PodUpdate, UpdateReply};
use crate::resize::{
    check_node_declared_features_for_resize, propose_resize, resize_step, resized, Resizing,
    ResizeReply, ResizeRequest,
};
use crate::resize_laws::{
    law_written_pod_has_what_was_asked, names_are_distinct, spec_as_asked,
};
use crate::resources::Resource;
use crate::roles::{confirm_no_escalation, Escalation, EscalationReply, Granting};
use crate::scale::{scale_step, ScaleReply, ScaleRequest, Scaling};
use crate::text::{i64_text, join, parse_i64, split};
use crate::watch::{watch_params_from_query, WatchParams};
use crate::watch_open::{advance, Opening, Reply};
use crate::watch_stream::WatchScope;
use crate::workloads::{decode_rc_body, note_revision, StatefulSetStatus};

verus! {

/// A step of a creation past the checks is one that a check let pass, and the
/// pod that it validated has its requests filled in.
pub proof fn law_creation_steps(at: PodCreation, reply: CreateReply, next: PodCreation)
    requires
        call_ensures(create_step, (at, reply), next),
    ensures
        crate::pod_create::creates(at, reply, next),
        at.phase is Authorizing && next.phase is Defaulting ==> reply == CreateReply::Decided(
            Decision::Allow,
        ),
        at.phase is Quota && next.phase is Reviewing ==> reply == CreateReply::Quota(Ok(true)),
        at.dry_run && !(at.phase is Storing) ==> !(next.phase is Storing),
{
}

/// A step of a creation fills in the requests of a valid pod.
pub proof fn law_creation_fills_in_requests(
    at: PodCreation,
    reply: CreateReply,
    next: PodCreation,
    i: int,
    key: Seq<char>,
)
    requires
        call_ensures(create_step, (at, reply), next),
        at.phase is Validating,
        reply is Validated,
        next.phase is Prioritizing,
        at.pod@.spec is Some,
        0 <= i < at.pod@.spec->0.containers.len(),
    ensures
        next.pod@.spec is Some,
        next.pod@.spec->0.containers.len() == at.pod@.spec->0.containers.len(),
        ({
            let b = at.pod@.spec->0.containers[i];
            let a = next.pod@.spec->0.containers[i];
            &&& a.name == b.name
            &&& limited(a, key) == limited(b, key)
            &&& claimed(a) == claimed(b)
            &&& requested(a, key) == match requested(b, key) {
                Some(v) => Some(v),
                None => limited(b, key),
            }
        }),
{
    law_missing_requests_are_the_limits(at.pod@.spec->0.containers, i, key);
}

/// A step of an eviction gets past a budget only while enough of its pods run.
pub proof fn law_eviction_steps(
    request: EvictionRequest,
    budgets: Vec<DisruptionBudget>,
    index: usize,
    pods: Vec<Pod>,
    next: Evicting,
)
    requires
        index < budgets@.len(),
        pods@.len() <= i32::MAX,
        call_ensures(
            eviction_step,
            ((Evicting::CountingPods { request, budgets, index }), EvictionReply::Pods(pods)),
            next,
        ),
        !gives_percentage(budgets@[index as int]),
    ensures
        ({
            let b = budgets@[index as int];
            next is CountingHealthy <==> running_pods(b, pods@).len() - 1 < wants_running(
                b,
                selected_pods(b, pods@).len() as int,
            )
        }),
{
    law_eviction_leaves_enough_pods_running(request, budgets, index, pods, next);
}

/// The steps of an eviction are those that its rules allow.
pub proof fn law_eviction_steps_follow_the_rules(
    at: Evicting,
    reply: EvictionReply,
    next: Evicting,
)
    requires
        call_ensures(eviction_step, (at, reply), next),
    ensures
        crate::eviction::evicts(at, reply, next),
        next is Deleting && !(at is Deleting) ==> at is Rereading && reply is Pod,
        next is Marking && !(at is Marking) ==> at is ReadingForMark && reply is Pod,
{
}

/// A step of a resize writes the resources that were asked for.
pub proof fn law_resize_steps(
    req: ResizeRequest,
    attempt: usize,
    p: Pod,
    grown: Option<i64>,
    next: Resizing,
)
    requires
        call_ensures(
            resize_step,
            (&req, (Resizing::Reread { attempt }), ResizeReply::Pod(p, grown)),
            next,
        ),
        req.desired is Ok,
        p@.spec is Some,
        req.desired->Ok_0@.spec is Some,
        names_are_distinct(p@.spec->0),
        names_are_distinct(req.desired->Ok_0@.spec->0),
    ensures
        next is Write,
        next->Write_pod@.spec is Some,
        spec_as_asked(p@.spec->0, req.desired->Ok_0@.spec->0, next->Write_pod@.spec->0),
{
    law_written_pod_has_what_was_asked(req, attempt, p, grown, next);
}

/// The steps of a resize are those that its rules allow.
pub proof fn law_resize_steps_follow_the_rules(
    req: ResizeRequest,
    at: Resizing,
    reply: ResizeReply,
    next: Resizing,
)
    requires
        call_ensures(resize_step, (&req, at, reply), next),
    ensures
        crate::resize::resizes(req, at, reply, next),
        next is Write && !(at is Write) ==> at is Reread && reply is Pod,
        next is Reread && at is CheckQuota ==> reply is Quota && reply->Quota_0 != Some(false),
{
}

/// A resize is proposed if and only if resources changed and there is a status
/// to note it in.
pub proof fn law_proposed_resizes(before: Pod, pod: Pod, r: Pod)
    requires
        call_ensures(propose_resize, (&before, pod), r),
    ensures
        r@.metadata == pod@.metadata,
        r@.spec == pod@.spec,
        pod@.status is None ==> r@.status is None,
        pod@.status is Some && resized(before@.spec, pod@.spec) ==> r@.status is Some
            && r@.status->0.resize == Some("Proposed"@) && r@.status->0.phase
            == pod@.status->0.phase,
        pod@.status is Some && !resized(before@.spec, pod@.spec) ==> r@ == pod@,
{
}

/// A node lets a resize of CPU pass if it declared the feature or is not there.
pub proof fn law_nodes_must_declare_the_feature(
    node: &str,
    found: Result<Option<Vec<String>>, Error>,
    r: Result<(), Error>,
)
    requires
        call_ensures(check_node_declared_features_for_resize, (node, found), r),
    ensures
        found is Err && found->Err_0 is NotFound ==> r is Ok,
        found is Err && !(found->Err_0 is NotFound) ==> r is Err && r->Err_0@ == found->Err_0@,
        found == Ok::<Option<Vec<String>>, Error>(None) ==> r is Err && r->Err_0@ is Forbidden,
        found is Ok && found->Ok_0 is Some ==> (r is Ok <==> exists|i: int|
            0 <= i < found->Ok_0->0@.len() && (#[trigger] found->Ok_0->0@[i])@
                == "GuaranteedQoSPodCPUResize"@),
{
    if found is Ok && found->Ok_0 is Some {
        let v = found->Ok_0->0@;
        let t = crate::text::texts(v);
        if t.contains("GuaranteedQoSPodCPUResize"@) {
            let i = choose|i: int| 0 <= i < t.len() && t[i] == "GuaranteedQoSPodCPUResize"@;
            assert(v[i]@ == "GuaranteedQoSPodCPUResize"@);
        }
        if exists|i: int| 0 <= i < v.len() && (#[trigger] v[i])@ == "GuaranteedQoSPodCPUResize"@ {
            let i = choose|i: int|
                0 <= i < v.len() && (#[trigger] v[i])@ == "GuaranteedQoSPodCPUResize"@;
            assert(t[i] == "GuaranteedQoSPodCPUResize"@);
        }
    }
}

/// The steps of replacing, patching, applying and deleting a pod are those that
/// their rules allow.
pub proof fn law_change_steps_follow_the_rules(
    update: PodUpdate,
    update_reply: UpdateReply,
    updated: PodUpdate,
    patch: PodPatch,
    patch_reply: PatchReply,
    patched: PodPatch,
    deletion: PodDeletion,
    delete_reply: DeleteReply,
    deleted: PodDeletion,
)
    requires
        call_ensures(update_step, (update, update_reply), updated),
        call_ensures(patch_step, (patch, patch_reply), patched),
        call_ensures(delete_step, (deletion, delete_reply), deleted),
    ensures
        crate::pod_update::updates(update, update_reply, updated),
        crate::pod_patch::patches(patch, patch_reply, patched),
        crate::pod_delete::deletes(deletion, delete_reply, deleted),
        updated.phase is Storing && !(update.phase is Storing) ==> update.phase is Quota
            && !update.dry_run,
        patched.phase is Storing && !(patch.phase is Storing) ==> patch.phase is Growing,
        deleted.phase is Removing && !(deletion.phase is Removing) ==> deletion.phase is Reviewing
            && !deletion.dry_run && deleted.grace == 0,
{
}

/// The steps of an apply are those that its rules allow.
pub proof fn law_apply_steps_follow_the_rules(
    namespace: &str,
    name: &str,
    dry_run: bool,
    at: Applying,
    reply: ApplyReply,
    next: Applying,
)
    requires
        call_ensures(apply_step, (namespace, name, dry_run, at, reply), next),
    ensures
        crate::pod_patch::applies(namespace@, name@, dry_run, at, reply, next),
        next is Save && !(at is Save) ==> at is Apply && reply is Applied && !dry_run,
{
}

/// A patch and an apply start with their body as it is parsed.
pub proof fn law_changes_start_with_their_body(
    body: &[u8],
    namespace: String,
    name: String,
    subresource: bool,
    dry_run: bool,
    patch: PodPatch,
    apply: Applying,
)
    requires
        call_ensures(start_patch, (body, namespace, name, subresource, dry_run), patch),
        call_ensures(start_apply, (body,), apply),
    ensures
        patch.phase is Authorizing,
        patch.phase->Authorizing_0 is Ok <==> json_document(body@) is Ok,
        patch.phase->Authorizing_0 is Ok ==> patch.phase->Authorizing_0->Ok_0@ == json_document(
            body@,
        )->Ok_0,
        patch.namespace == namespace && patch.name == name,
        patch.subresource == subresource && patch.dry_run == dry_run,
        patch.pod is None && patch.current is None,
        apply matches Applying::ReadCurrent { desired } && (desired is Ok <==> json_document(body@)
            is Ok) && (desired is Ok ==> desired->Ok_0@ == json_document(body@)->Ok_0),
{
}

/// The grace period of a body is the number that it gives; an empty body gives
/// none.
pub proof fn law_grace_period_of_a_body(body: &[u8], r: Option<i64>)
    requires
        call_ensures(body_grace_period, (body,), r),
    ensures
        body@.len() == 0 ==> r is None,
        body@.len() > 0 && json_document(body@) is Err ==> r is None,
        body@.len() > 0 && json_document(body@) is Ok ==> r == as_int(
            member(json_document(body@)->Ok_0, "gracePeriodSeconds"@),
        ),
{
}

/// A pod that is to go is stored one generation on.
pub proof fn law_going_pods_are_stored(pod: Pod, now: String, grace: i64, r: Pod)
    requires
        call_ensures(mark_stored_terminating, (pod, now, grace), r),
        pod@.metadata.generation is Some,
        pod@.metadata.generation->0 < i64::MAX,
    ensures
        r@.metadata.generation == Some((pod@.metadata.generation->0 + 1) as i64),
        r@.metadata.deletion_grace_period_seconds == Some(grace),
        r@.metadata.deletion_timestamp == if pod@.metadata.deletion_timestamp is Some {
            pod@.metadata.deletion_timestamp
        } else {
            Some(now@)
        },
        r@.spec == pod@.spec,
        r@.status == pod@.status,
{
}

/// A check of a binding confirms only what is held, permitted or empty.
pub proof fn law_escalation_steps(
    g: Granting,
    at: Escalation,
    reply: EscalationReply,
    next: Escalation,
)
    requires
        call_ensures(confirm_no_escalation, (&g, at, reply), next),
    ensures
        crate::roles::escalates(g, at, reply, next),
        at is AskEscalate && next is Confirmed ==> reply == EscalationReply::Answer(
            Decision::Allow,
        ),
        at is FetchRole && next is Confirmed ==> reply is Role && reply->Role_0@.len() == 0,
{
}

/// The steps of connections, port forwards, bindings, scales and collections
/// are those that their rules allow.
pub proof fn law_subresource_steps_follow_the_rules(
    connect: ConnectRequest,
    connecting: Connecting,
    connect_reply: ConnectReply,
    connected: Connecting,
    forward: ForwardRequest,
    forwarding: Forwarding,
    forward_reply: ForwardReply,
    forwarded: Forwarding,
    name: &str,
    copies: bool,
    binding: Binding,
    bind_reply: BindReply,
    bound: Binding,
)
    requires
        call_ensures(connect_step, (&connect, connecting, connect_reply), connected),
        call_ensures(forward_step, (&forward, forwarding, forward_reply), forwarded),
        call_ensures(bind_step, (name, copies, binding, bind_reply), bound),
    ensures
        connected@ == crate::connect::connecting_after(connect, connecting@, connect_reply),
        crate::connect::forwards(forward, forwarding, forward_reply, forwarded),
        crate::binding::binds(name@, copies, binding, bind_reply, bound),
        bound is Bound && !(binding is Bound) ==> binding is Write && bind_reply is Written,
        forwarded is Carry && !(forwarding is Carry) ==> forwarding is ReadPod && forward_reply
            is Found,
{
}

/// The steps of scaling and of clearing a collection are those that their rules
/// allow.
pub proof fn law_scale_and_collection_steps_follow_the_rules(
    request: ScaleRequest,
    namespace: &str,
    name: &str,
    scaling: Scaling,
    scale_reply: ScaleReply,
    scaled: Scaling,
    r: Resource,
    dry_run: bool,
    clearing: Clearing,
    clear_reply: ClearReply,
    cleared: Clearing,
)
    requires
        call_ensures(scale_step, (&request, namespace, name, scaling, scale_reply), scaled),
        call_ensures(clear_step, (r, dry_run, clearing, clear_reply), cleared),
    ensures
        crate::scale::scales(request, namespace@, name@, scaling, scale_reply, scaled),
        crate::collection::clears(r, dry_run, clearing, clear_reply, cleared),
        request is Update && scaling is Fetch && scaled is Write ==> request->Update_0 >= 0,
        cleared is ReadAll && !(clearing is ReadAll) ==> !dry_run,
{
}

/// The steps of opening a watch are those that its rules allow.
pub proof fn law_opening_steps_follow_the_rules(
    scope: WatchScope,
    raw: bool,
    requested: Option<String>,
    at: Opening,
    reply: Reply,
    next: Opening,
)
    requires
        call_ensures(advance, (scope, raw, &requested, at, reply), next),
    ensures
        next == crate::watch_open::opening_after(
            scope,
            raw,
            if requested is Some {
                Some(requested->0@)
            } else {
                None
            },
            at,
            reply,
        ),
        at is Authorizing && !(next is Authorizing) && !(next is Failed) ==> reply
            == Reply::Decided(Decision::Allow),
{
}

/// A watch has bookmarks and initial objects if and only if its parameters say
/// `true`.
pub proof fn law_flags_of_a_watch(params: StringMap, w: WatchParams)
    requires
        call_ensures(watch_params_from_query, (&params,), w),
    ensures
        w.allow_watch_bookmarks == Some(true) <==> params@.dom().contains("allowWatchBookmarks"@)
            && params@["allowWatchBookmarks"@] == "true"@,
        w.send_initial_events == Some(true) <==> params@.dom().contains("sendInitialEvents"@)
            && params@["sendInitialEvents"@] == "true"@,
        w.label_selector is Some <==> params@.dom().contains("labelSelector"@),
        w.label_selector is Some ==> w.label_selector->0@ == params@["labelSelector"@],
        w.field_selector is Some <==> params@.dom().contains("fieldSelector"@),
        w.field_selector is Some ==> w.field_selector->0@ == params@["fieldSelector"@],
{
    reveal_strlit("true");
    reveal_strlit("false");
    assert("true"@.len() != "false"@.len());
}

/// A step of a plan that fails refuses the request; one that succeeds leads on.
pub proof fn law_plan_steps(
    r: Resource,
    name: &str,
    plan: Vec<Step>,
    at: usize,
    dry_run: bool,
    outcome: Result<(), Error>,
    next: Next,
)
    requires
        at < plan@.len(),
        call_ensures(after_step, (r, name, &plan, at, dry_run, outcome), next),
    ensures
        crate::plan::follows(r, name@, plan@, at as int, dry_run, outcome, next),
        outcome is Err ==> next is Refused,
        outcome is Ok ==> !(next is Refused),
{
    if outcome is Ok {
        lemma_no_refusal(plan@, at + 1, dry_run);
    }
}

proof fn lemma_no_refusal(plan: Seq<Step>, at: int, dry_run: bool)
    ensures
        !(crate::plan::from_step(plan, at, dry_run) is Refused),
    decreases plan.len() - at,
{
    if 0 <= at < plan.len() && plan[at] == Step::DryRun && !dry_run {
        lemma_no_refusal(plan, at + 1, dry_run);
    }
}

/// A percentage is worked out as its text says, rounded up for pods that must
/// be available and down for those that may be missing.
pub proof fn law_shares_to_work_out(b: DisruptionBudget, r: Option<(String, Rounding)>)
    requires
        call_ensures(share_to_work_out, (&b,), r),
    ensures
        r is Some <==> gives_percentage(b),
        r is Some ==> {
            let text = if b.min_available is Some {
                b.min_available->0->Share_0@
            } else {
                b.max_unavailable->0->Share_0@
            };
            (r->0).0@.push('%') == text && ((r->0).1 is Up <==> b.min_available is Some)
        },
{
    if r is Some {
        let text = if b.min_available is Some {
            b.min_available->0->Share_0@
        } else {
            b.max_unavailable->0->Share_0@
        };
        assert(text.drop_last().push('%') =~= text);
    }
}

/// A booked disruption leaves one fewer.
pub proof fn law_disruptions_are_booked(
    status: Option<BudgetStatus>,
    pod_name: &str,
    now: String,
    allowed: i64,
    r: BudgetStatus,
)
    requires
        allowed > i64::MIN,
        call_ensures(record_disruption, (status, pod_name, now, allowed), r),
    ensures
        r.disruptions_allowed == allowed - 1,
        r.disrupted_pods is Some && r.disrupted_pods->0@.dom().contains(pod_name@)
            && r.disrupted_pods->0@[pod_name@] == now@,
        status is Some ==> r.current_healthy == status->0.current_healthy && r.desired_healthy
            == status->0.desired_healthy && r.expected_pods == status->0.expected_pods,
{
}

/// A marked pod keeps its metadata and specification and has a condition more,
/// or one renewed.
pub proof fn law_pods_are_marked(pod: Pod, now: String, r: Option<Pod>)
    requires
        call_ensures(mark_disruption_target, (pod, now), r),
        r is Some,
    ensures
        r->0@.metadata == pod@.metadata,
        r->0@.spec == pod@.spec,
        r->0@.status is Some && r->0@.status->0.conditions is Some,
        exists|k: int|
            0 <= k < r->0@.status->0.conditions->0.len() && {
                let c = #[trigger] r->0@.status->0.conditions->0[k];
                &&& c.condition_type == "DisruptionTarget"@
                &&& c.status == "True"@
                &&& c.last_transition_time == Some(now@)
            },
{
    let cs = crate::eviction::conditions_of(pod@);
    crate::eviction_laws::lemma_condition_found(cs, "DisruptionTarget"@, 0);
    let after = r->0@.status->0.conditions->0;
    match crate::eviction::condition_from(cs, "DisruptionTarget"@, 0) {
        Some(i) => {
            assert(after[i].condition_type == "DisruptionTarget"@);
        },
        None => {
            assert(after[cs.len() as int].condition_type == "DisruptionTarget"@);
        },
    }
}

/// An eviction is read from its body.
pub proof fn law_evictions_are_read(j: Json, r: Result<EvictionRequest, Error>)
    requires
        call_ensures(read_eviction, (Ok::<Json, String>(j),), r),
    ensures
        crate::eviction::is_eviction(Ok(j@), r),
        r is Ok ==> r->Ok_0.grace_period_seconds == as_int(
            opt_member(member(j@, "deleteOptions"@), "gracePeriodSeconds"@),
        ),
{
}

/// An object that is identified keeps what identity it has.
pub proof fn law_objects_are_identified(
    meta: ObjectMeta,
    namespace: Option<&str>,
    uid: String,
    now: String,
    r: ObjectMeta,
)
    requires
        call_ensures(identify_with, (meta, namespace, uid, now), r),
    ensures
        r@.uid == if meta@.uid.len() > 0 {
            meta@.uid
        } else {
            uid@
        },
        r@.creation_timestamp == if meta@.creation_timestamp is Some {
            meta@.creation_timestamp
        } else {
            Some(now@)
        },
        namespace is Some ==> r@.namespace == Some(namespace->0@),
        namespace is None ==> r@.namespace == meta@.namespace,
        r@.name == meta@.name && r@.labels == meta@.labels && r@.generation == meta@.generation,
{
}

/// An identified object has an identifier and a time, and keeps those it had.
pub proof fn law_identities_are_given(meta: ObjectMeta, namespace: Option<&str>, r: ObjectMeta)
    requires
        call_ensures(identify, (meta, namespace), r),
    ensures
        r@.uid.len() > 0,
        meta@.uid.len() > 0 ==> r@.uid == meta@.uid,
        r@.creation_timestamp is Some,
        meta@.creation_timestamp is Some ==> r@.creation_timestamp == meta@.creation_timestamp,
        r@.name == meta@.name,
{
}

/// The body of a controller is taken leniently where a field stands twice.
pub proof fn law_controllers_are_decoded<T>(
    first: Result<T, String>,
    leniently: Option<T>,
    r: Result<T, Error>,
)
    requires
        call_ensures(decode_rc_body::<T>, (first, leniently), r),
    ensures
        first is Ok ==> r == Ok::<T, Error>(first->Ok_0),
        first is Err && crate::pod_create::is_duplicate_field(first->Err_0@) && leniently is Some
            ==> r == Ok::<T, Error>(leniently->0),
        first is Err && (!crate::pod_create::is_duplicate_field(first->Err_0@) || leniently is None)
            ==> r is Err && r->Err_0@ is BadRequest,
{
}

/// A revision is noted to update to, and is current where none was.
pub proof fn law_revisions_are_noted(
    status: Option<StatefulSetStatus>,
    revision: String,
    r: StatefulSetStatus,
)
    requires
        call_ensures(note_revision, (status, revision), r),
    ensures
        r.update_revision is Some && r.update_revision->0@ == revision@,
        status is Some && status->0.current_revision is Some ==> r.current_revision is Some
            && r.current_revision->0@ == status->0.current_revision->0@,
        status is None || status->0.current_revision is None ==> r.current_revision is Some
            && r.current_revision->0@ == revision@,
        status is Some ==> r.replicas == status->0.replicas,
{
    assert(r@.update_revision == Some(revision@));
    if status is Some {
        assert(r@.replicas == status->0@.replicas);
    }
}

/// Numbers are read back from the text that is written of them.
pub proof fn law_numbers_are_written_and_read(n: i64, s: String, t: &str, r: Option<i64>)
    requires
        call_ensures(i64_text, (n,), s),
        t@ == s@,
        call_ensures(parse_i64, (t,), r),
    ensures
        r == Some(n),
{
    crate::text_laws::law_signed_number_is_read_back(n as int);
}

/// The pieces of a text make it up again.
pub proof fn law_texts_are_split_and_joined(
    s: &str,
    c: char,
    parts: Vec<String>,
    sep: &str,
    r: String,
)
    requires
        call_ensures(split, (s, c), parts),
        sep@ == seq![c],
        call_ensures(join, (&parts, sep), r),
    ensures
        r@ == s@,
{
    crate::text_laws::law_pieces_make_the_text(s@, c);
}

/// The pairs of an exec query are read one by one.
pub proof fn law_exec_queries_are_read(
    raw: &str,
    more: &str,
    key: Seq<char>,
    value: Seq<char>,
    q: ExecQuery,
    r: ExecQuery,
)
    requires
        call_ensures(parse_exec_query, (raw,), q),
        call_ensures(parse_exec_query, (more,), r),
        more@ == raw@ + seq!['&'] + (key + seq!['='] + value),
        !key.contains('='),
        !key.contains('&'),
        !value.contains('&'),
        key == "command"@,
    ensures
        r@.command == q@.command.push(crate::connect::percent_decoded(value)),
        r@.container == q@.container,
        r@.stdin == q@.stdin && r@.stdout == q@.stdout && r@.stderr == q@.stderr && r@.tty
            == q@.tty,
{
    crate::subresource_laws::law_exec_query_pair(raw@, key, value);
    reveal_strlit("command");
    reveal_strlit("container");
    reveal_strlit("stdin");
    reveal_strlit("stdout");
    reveal_strlit("stderr");
    reveal_strlit("tty");
    assert("command"@.len() == 7 && "container"@.len() == 9 && "stdin"@.len() == 5
        && "stdout"@.len() == 6 && "stderr"@.len() == 6 && "tty"@.len() == 3);
}

} // verus!
