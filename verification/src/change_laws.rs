//! What replacing, patching, applying and deleting a pod change.
use vstd::prelude::*;
use crate::access::Decision;
use crate::connect::Admission;
use crate::error::{Error, ErrorView};
use crate::json::{as_int, member, opt_member, Json, JsonView};
use crate::model::{ObjectMetaView, Pod, PodStatusView, PodView};
use crate::pod_delete::{
    deletes, grace_in_options, grace_in_query, grace_of, DeletePhase, DeleteReply, PodDeletion,
};
use crate::pod_list::{is_list_order, key_before, text_before, ListKey};
use crate::pod_patch::{
    applies, apply_manager, ApplyConflict, content_type_of, patches, pinned, ApplyReply, Applying, Header,
    PatchPhase, PatchReply, PodPatch,
};
use crate::pod_update::{updates, PodUpdate, UpdatePhase, UpdateReply};
use crate::resize::resized;
use crate::text::signed_decimal;

verus! {

/// How many ephemeral containers a pod has.
pub open spec fn ephemeral_of(p: PodView) -> nat {
    if p.spec is Some && p.spec->0.ephemeral_containers is Some {
        p.spec->0.ephemeral_containers->0.len()
    } else {
        0
    }
}

/// The deadline of a pod.
pub open spec fn deadline(p: PodView) -> Option<i64> {
    if p.spec is Some {
        p.spec->0.active_deadline_seconds
    } else {
        None
    }
}

/// The node of a pod, where it has one.
pub open spec fn node(p: PodView) -> Option<Seq<char>> {
    if p.spec is Some && p.spec->0.node_name is Some && p.spec->0.node_name->0.len() > 0 {
        p.spec->0.node_name
    } else {
        None
    }
}

/// Whether the number of ephemeral containers may become that of `q`: under
/// their subresource it may grow, elsewhere it stays.
pub open spec fn ephemeral_allowed(p: PodView, q: PodView, subresource: bool) -> bool {
    if subresource {
        ephemeral_of(q) >= ephemeral_of(p)
    } else {
        ephemeral_of(q) == ephemeral_of(p)
    }
}

/// Whether the deadline may become that of `q`: it is positive, does not grow,
/// and does not go once it is set.
pub open spec fn deadline_allowed(p: PodView, q: PodView) -> bool {
    match deadline(q) {
        Some(n) => n > 0 && (deadline(p) is Some ==> n <= deadline(p)->0),
        None => deadline(p) is None,
    }
}

/// A pod may be replaced if and only if its ephemeral containers, its deadline
/// and its node may become what they are; what takes its place keeps its
/// status.
pub proof fn law_which_replacements_are_let_through(
    at: PodUpdate,
    reply: UpdateReply,
    next: PodUpdate,
)
    requires
        updates(at, reply, next),
        at.phase is CheckingVersion,
        reply is Passed,
        at.old is Some,
    ensures
        ({
            let p = at.old->0@;
            let q = at.pod@;
            let allowed = ephemeral_allowed(p, q, at.subresource) && deadline_allowed(p, q) && (
            node(p) is Some ==> node(q) == node(p));
            &&& allowed <==> next.phase is Tolerating
            &&& !allowed <==> next.phase is Failed
            &&& allowed ==> next.pod@ == (PodView { status: p.status, ..q }) && next.old == at.old
            &&& !ephemeral_allowed(p, q, at.subresource) ==> next.phase->Failed_0@ is Forbidden
            &&& ephemeral_allowed(p, q, at.subresource) && !deadline_allowed(p, q)
                ==> next.phase->Failed_0@ is InvalidResource
            &&& ephemeral_allowed(p, q, at.subresource) && deadline_allowed(p, q) && !allowed
                ==> next.phase->Failed_0@ is Invalid
        }),
{
    reveal_strlit("");
}

/// Where a phase of a replacement stands in their order.
pub open spec fn update_place(phase: UpdatePhase) -> int {
    match phase {
        UpdatePhase::Failed(_) => -1,
        UpdatePhase::StrictFields => 0,
        UpdatePhase::Authorizing => 1,
        UpdatePhase::ReadingOld => 2,
        UpdatePhase::CheckingVersion => 3,
        UpdatePhase::Tolerating => 4,
        UpdatePhase::CheckingSpec => 5,
        UpdatePhase::Mutating => 6,
        UpdatePhase::Reviewing => 7,
        UpdatePhase::Growing => 8,
        UpdatePhase::Quota => 9,
        UpdatePhase::Storing => 10,
        UpdatePhase::Done => 11,
    }
}

/// A replacement from its start: the states it goes through, and the answers.
pub open spec fn is_update(states: Seq<PodUpdate>, replies: Seq<UpdateReply>) -> bool {
    &&& states.len() == replies.len() + 1
    &&& states[0].phase is StrictFields
    &&& forall|i: int|
        0 <= i < replies.len() ==> updates(states[i], #[trigger] replies[i], states[i + 1])
}

proof fn lemma_update_crossing(
    states: Seq<PodUpdate>,
    replies: Seq<UpdateReply>,
    n: int,
    line: int,
) -> (t: int)
    requires
        is_update(states, replies),
        0 <= n < states.len(),
        0 <= line,
        update_place(states[n].phase) > line,
    ensures
        0 <= t < n,
        update_place(states[t].phase) <= line,
        updates(states[t], replies[t], states[t + 1]),
        update_place(states[t + 1].phase) > line,
    decreases n,
{
    assert(n > 0);
    assert(updates(states[n - 1], replies[n - 1], states[n]));
    if update_place(states[n - 1].phase) > line {
        lemma_update_crossing(states, replies, n - 1, line)
    } else {
        n - 1
    }
}

/// Whether an answer lets a replacement pass the phase at this place.
pub open spec fn update_passes(line: int, at: PodUpdate, reply: UpdateReply) -> bool {
    if line == 0 {
        at.phase is StrictFields && reply is Passed
    } else if line == 1 {
        at.phase is Authorizing && reply == UpdateReply::Decided(Decision::Allow)
    } else if line == 2 {
        at.phase is ReadingOld && reply is Pod
    } else if line == 3 {
        at.phase is CheckingVersion && reply is Passed
    } else if line == 6 {
        at.phase is Mutating && reply is Mutated && reply->Mutated_0 is Allow
    } else if line == 7 {
        at.phase is Reviewing && reply == UpdateReply::Reviewed(Admission::Allow)
    } else if line == 8 {
        at.phase is Growing && reply is Generation
    } else if line == 9 {
        at.phase is Quota && reply is Quota && reply->Quota_0 != Some(false)
    } else {
        true
    }
}

proof fn lemma_update_gate(at: PodUpdate, reply: UpdateReply, next: PodUpdate, line: int)
    requires
        updates(at, reply, next),
        update_place(at.phase) <= line,
        update_place(next.phase) > line,
    ensures
        update_passes(line, at, reply),
{
}

/// A pod that is replaced has passed every check: its fields, the authorizer,
/// its version, the webhooks and the quota.
pub proof fn law_what_is_replaced_has_passed_every_check(
    states: Seq<PodUpdate>,
    replies: Seq<UpdateReply>,
    n: int,
)
    requires
        is_update(states, replies),
        0 <= n < states.len(),
        states[n].phase is Storing || states[n].phase is Done,
    ensures
        exists|t: int|
            0 <= t < n && (#[trigger] states[t]).phase is StrictFields && replies[t] is Passed,
        exists|t: int|
            0 <= t < n && (#[trigger] states[t]).phase is Authorizing && replies[t]
                == UpdateReply::Decided(Decision::Allow),
        exists|t: int|
            0 <= t < n && (#[trigger] states[t]).phase is CheckingVersion && replies[t] is Passed,
        exists|t: int|
            0 <= t < n && (#[trigger] states[t]).phase is Mutating && replies[t] is Mutated
                && replies[t]->Mutated_0 is Allow,
        exists|t: int|
            0 <= t < n && (#[trigger] states[t]).phase is Reviewing && replies[t]
                == UpdateReply::Reviewed(Admission::Allow),
        exists|t: int|
            0 <= t < n && (#[trigger] states[t]).phase is Quota && replies[t] is Quota
                && replies[t]->Quota_0 != Some(false),
{
    let t0 = lemma_update_crossing(states, replies, n, 0);
    lemma_update_gate(states[t0], replies[t0], states[t0 + 1], 0);
    let t1 = lemma_update_crossing(states, replies, n, 1);
    lemma_update_gate(states[t1], replies[t1], states[t1 + 1], 1);
    let t3 = lemma_update_crossing(states, replies, n, 3);
    lemma_update_gate(states[t3], replies[t3], states[t3 + 1], 3);
    let t6 = lemma_update_crossing(states, replies, n, 6);
    lemma_update_gate(states[t6], replies[t6], states[t6 + 1], 6);
    let t7 = lemma_update_crossing(states, replies, n, 7);
    lemma_update_gate(states[t7], replies[t7], states[t7 + 1], 7);
    let t9 = lemma_update_crossing(states, replies, n, 9);
    lemma_update_gate(states[t9], replies[t9], states[t9 + 1], 9);
}

/// Each step of a replacement does one thing: the pod goes under the name and
/// namespace of the request, is taken from the webhooks as it comes, gets its
/// generation, and is marked where its resources changed.
pub proof fn law_steps_of_a_replacement(at: PodUpdate, reply: UpdateReply, next: PodUpdate)
    requires
        updates(at, reply, next),
        !(next.phase is Failed),
        next != at,
    ensures
        next.namespace == at.namespace && next.name == at.name && next.dry_run == at.dry_run
            && next.subresource == at.subresource,
        at.phase is StrictFields || at.phase is ReadingOld || at.phase is CheckingSpec || at.phase
            is Reviewing || at.phase is Quota ==> next.pod@ == at.pod@,
        at.phase is Authorizing ==> next.phase is ReadingOld && next.pod@ == (PodView {
            metadata: ObjectMetaView {
                name: at.name@,
                namespace: Some(at.namespace@),
                ..at.pod@.metadata
            },
            ..at.pod@
        }),
        at.phase is ReadingOld ==> next.phase is CheckingVersion && reply is Pod && next.old
            == Some(reply->Pod_0),
        !(at.phase is ReadingOld) ==> next.old == at.old,
        at.phase is Tolerating ==> reply is Pod && next.pod@ == reply->Pod_0@ && (next.phase
            is CheckingSpec <==> next.pod@.spec is Some && at.old is Some && at.old->0@.spec
            is Some) && (next.phase is CheckingSpec || next.phase is Mutating),
        at.phase is CheckingSpec ==> next.phase is Mutating && reply is SpecChecked
            && reply->SpecChecked_0 is Ok,
        at.phase is Mutating ==> reply is Mutated && next.phase is Reviewing && next.pod@ == (
        match reply->Mutated_1 {
            Some(p) => p@,
            None => at.pod@,
        }),
        at.phase is Reviewing ==> next.phase is Growing,
        at.phase is Growing ==> {
            let q = next.pod@;
            &&& next.phase is Quota
            &&& reply is Generation
            &&& q.metadata == (ObjectMetaView {
                generation: reply->Generation_0,
                ..at.pod@.metadata
            })
            &&& q.spec == at.pod@.spec
            &&& at.pod@.status is None ==> q.status is None
            &&& at.pod@.status is Some && at.old is Some ==> q.status == Some(
                if resized(at.old->0@.spec, at.pod@.spec) {
                    PodStatusView { resize: Some("Proposed"@), ..at.pod@.status->0 }
                } else {
                    at.pod@.status->0
                },
            )
        },
        at.phase is Quota ==> if at.dry_run {
            next.phase is Done
        } else {
            next.phase is Storing
        },
        at.phase is Storing ==> next.phase is Done && reply is Pod && next.pod@ == reply->Pod_0@,
{
}

/// What refuses a replacement: a denial, a change of the specification that is
/// not allowed, a webhook, the quota, or any error.
pub proof fn law_refused_replacements(at: PodUpdate, reply: UpdateReply, next: PodUpdate)
    requires
        updates(at, reply, next),
    ensures
        at.phase is Authorizing && reply is Decided && reply->Decided_0 is Deny ==> next.phase
            is Failed && next.phase->Failed_0@ == ErrorView::Forbidden(
            reply->Decided_0->Deny_0@,
        ),
        at.phase is CheckingSpec && reply is SpecChecked && reply->SpecChecked_0 is Err
            ==> next.phase is Failed && next.phase->Failed_0@ == ErrorView::InvalidResource(
            reply->SpecChecked_0->Err_0@,
        ),
        at.phase is Mutating && reply is Mutated && reply->Mutated_0 is Deny ==> next.phase
            is Failed && next.phase->Failed_0@ == ErrorView::Forbidden(
            reply->Mutated_0->Deny_0@,
        ),
        at.phase is Reviewing && reply is Reviewed && reply->Reviewed_0 is Deny ==> next.phase
            is Failed && next.phase->Failed_0@ == ErrorView::Forbidden(
            reply->Reviewed_0->Deny_0@,
        ),
        at.phase is Quota && reply == UpdateReply::Quota(Some(false)) ==> next.phase is Failed
            && next.phase->Failed_0@ == ErrorView::Forbidden("exceeded quota"@),
        reply is Error && !(at.phase is Done) && !(at.phase is Failed) ==> next.phase is Failed
            && next.phase->Failed_0@ == reply->Error_0@,
        at.phase is Done || at.phase is Failed ==> next == at,
{
}

/// A patch cannot rename or move what it patches: the metadata of the result
/// has the name and the namespace of the request, and no other field changes.
pub proof fn law_patched_object_stays_where_it_is(
    patched: JsonView,
    namespace: Seq<char>,
    name: Seq<char>,
    key: Seq<char>,
    field: Seq<char>,
)
    requires
        patched is Object,
        member(patched, "metadata"@) is Some,
        member(patched, "metadata"@)->0 is Object,
        key != "metadata"@,
        field != "name"@,
        field != "namespace"@,
    ensures
        ({
            let after = pinned(patched, namespace, name);
            let meta = member(after, "metadata"@);
            &&& after is Object
            &&& opt_member(meta, "name"@) == Some(JsonView::Text(name))
            &&& opt_member(meta, "namespace"@) == Some(JsonView::Text(namespace))
            &&& opt_member(meta, field) == opt_member(member(patched, "metadata"@), field)
            &&& member(after, key) == member(patched, key)
        }),
{
    reveal_strlit("name");
    reveal_strlit("namespace");
    assert("name"@.len() != "namespace"@.len());
    let m = patched->Object_0;
    let meta = member(patched, "metadata"@)->0->Object_0;
    let named = crate::json::with_member(meta, "name"@, JsonView::Text(name));
    let placed = crate::json::with_member(named, "namespace"@, JsonView::Text(namespace));
    crate::json::law_member_is_read_back(meta, "name"@, JsonView::Text(name), "namespace"@);
    crate::json::law_member_is_read_back(meta, "name"@, JsonView::Text(name), field);
    crate::json::law_member_is_read_back(named, "namespace"@, JsonView::Text(namespace), "name"@);
    crate::json::law_member_is_read_back(named, "namespace"@, JsonView::Text(namespace), field);
    crate::json::law_member_is_read_back(m, "metadata"@, JsonView::Object(placed), key);
}

/// An object whose metadata is no object is left as it is.
pub proof fn law_object_without_metadata_is_left(
    patched: JsonView,
    namespace: Seq<char>,
    name: Seq<char>,
)
    requires
        !(patched is Object) || member(patched, "metadata"@) is None || !(member(
            patched,
            "metadata"@,
        )->0 is Object),
    ensures
        pinned(patched, namespace, name) == patched,
{
}

/// Where a phase of a patch stands in their order.
pub open spec fn patch_place(phase: PatchPhase) -> int {
    match phase {
        PatchPhase::Failed(_) => -1,
        PatchPhase::Authorizing(_) => 0,
        PatchPhase::CheckingType(_) => 1,
        PatchPhase::ReadingCurrent(_) => 2,
        PatchPhase::Applying(_) => 3,
        PatchPhase::Decoding(_) => 4,
        PatchPhase::Quota => 5,
        PatchPhase::Growing => 6,
        PatchPhase::Storing => 7,
        PatchPhase::Done => 8,
    }
}

/// A patch goes from phase to phase: one is left only by the answer that lets
/// it pass, and only a dry run skips the store.
pub proof fn law_patch_passes_each_phase(at: PodPatch, reply: PatchReply, next: PodPatch)
    requires
        patches(at, reply, next),
        patch_place(next.phase) > patch_place(at.phase),
    ensures
        at.phase is Authorizing ==> next.phase is CheckingType && reply == PatchReply::Decided(
            Decision::Allow,
        ),
        at.phase is CheckingType ==> next.phase is ReadingCurrent && reply is Typed
            && reply->Typed_0 is Ok,
        at.phase is ReadingCurrent ==> next.phase is Applying && reply is Pod && next.current
            == Some(reply->Pod_0),
        at.phase is Applying ==> next.phase is Decoding && reply is Patched && reply->Patched_0
            is Ok && next.current == at.current,
        at.phase is Decoding ==> next.phase is Quota && reply is Decoded && reply->Decoded_0 is Ok,
        at.phase is Quota ==> reply is Quota && reply->Quota_0 != Some(false) && next.pod == at.pod
            && if at.dry_run {
            next.phase is Done
        } else {
            next.phase is Growing
        },
        at.phase is Growing ==> next.phase is Storing && reply is Generation,
        at.phase is Storing ==> next.phase is Done && reply is Pod && next.pod is Some
            && next.pod->0@ == reply->Pod_0@,
        next.namespace == at.namespace && next.name == at.name && next.dry_run == at.dry_run
            && next.subresource == at.subresource,
{
}

/// What the patch makes of a pod is let through if and only if its ephemeral
/// containers may become what they are; it goes under the name and namespace of
/// the request, and is marked where its resources changed.
pub proof fn law_which_patches_are_let_through(at: PodPatch, p: Pod, next: PodPatch)
    requires
        patches(at, PatchReply::Decoded(Ok(p)), next),
        at.phase is Decoding,
        at.current is Some,
    ensures
        ({
            let c = at.current->0@;
            let q = p@;
            let moved = PodView {
                metadata: ObjectMetaView {
                    name: at.name@,
                    namespace: Some(at.namespace@),
                    ..q.metadata
                },
                ..q
            };
            &&& ephemeral_allowed(c, q, at.subresource) <==> next.phase is Quota
            &&& !ephemeral_allowed(c, q, at.subresource) ==> next.phase is Failed
                && next.phase->Failed_0@ is Forbidden
            &&& next.phase is Quota ==> next.pod is Some && next.pod->0@ == (PodView {
                status: if q.status is Some && resized(c.spec, q.spec) {
                    Some(PodStatusView { resize: Some("Proposed"@), ..q.status->0 })
                } else {
                    q.status
                },
                ..moved
            })
        }),
{
}

/// What is stored of a patch has the generation that it was given and is stored
/// whatever the version; all else is as it was decoded.
pub proof fn law_patched_pod_gets_its_generation(at: PodPatch, g: Option<i64>, next: PodPatch)
    requires
        patches(at, PatchReply::Generation(g), next),
        at.phase is Growing,
        at.pod is Some,
    ensures
        next.phase is Storing,
        next.pod is Some,
        next.pod->0@ == (PodView {
            metadata: ObjectMetaView {
                generation: g,
                resource_version: None,
                ..at.pod->0@.metadata
            },
            ..at.pod->0@
        }),
{
}

/// What refuses a patch.
pub proof fn law_refused_patches(at: PodPatch, reply: PatchReply, next: PodPatch)
    requires
        patches(at, reply, next),
    ensures
        at.phase is Authorizing && reply is Decided && reply->Decided_0 is Deny ==> next.phase
            is Failed && next.phase->Failed_0@ == ErrorView::Forbidden(
            reply->Decided_0->Deny_0@,
        ),
        at.phase is CheckingType && reply is Typed && reply->Typed_0 is Err ==> next.phase
            is Failed && next.phase->Failed_0@ == ErrorView::InvalidResource(
            reply->Typed_0->Err_0@,
        ),
        at.phase is ReadingCurrent && at.phase->ReadingCurrent_0 is Err && reply is Pod
            ==> next.phase is Failed && next.phase->Failed_0@ is InvalidResource,
        at.phase is ReadingCurrent && at.phase->ReadingCurrent_0 is Ok && reply is Pod
            ==> next.phase == PatchPhase::Applying(at.phase->ReadingCurrent_0->Ok_0),
        at.phase is Applying && reply is Patched && reply->Patched_0 is Err ==> next.phase
            is Failed && (reply->Patched_0->Err_0 is PathNotFound ==> next.phase->Failed_0@
            is Invalid) && (reply->Patched_0->Err_0 is Other ==> next.phase->Failed_0@
            == ErrorView::InvalidResource(reply->Patched_0->Err_0->Other_0@)),
        at.phase is Decoding && reply is Decoded && reply->Decoded_0 is Err ==> next.phase
            is Failed && next.phase->Failed_0@ is InvalidResource,
        at.phase is Quota && reply == PatchReply::Quota(Some(false)) ==> next.phase is Failed
            && next.phase->Failed_0@ == ErrorView::Forbidden("exceeded quota"@),
        reply is Error && !(at.phase is Done) && !(at.phase is Failed) ==> next.phase is Failed
            && next.phase->Failed_0@ == reply->Error_0@,
        at.phase is Done || at.phase is Failed ==> next == at,
{
}

/// The type of a patch is that of the original header where there is one, else
/// of the plain header; a header that is no text counts as the default.
pub proof fn law_which_header_gives_the_type(
    original: Option<Header>,
    plain: Option<Header>,
    default: Seq<char>,
)
    ensures
        original is Some && original->0.text is Some ==> content_type_of(original, plain, default)
            == original->0.text->0@,
        original is Some && original->0.text is None ==> content_type_of(original, plain, default)
            == default,
        original is None && plain is Some && plain->0.text is Some ==> content_type_of(
            original,
            plain,
            default,
        ) == plain->0.text->0@,
        original is None && (plain is None || plain->0.text is None) ==> content_type_of(
            original,
            plain,
            default,
        ) == default,
{
}

/// A patch is a server-side apply if and only if its type says so and a field
/// manager is named.
pub proof fn law_which_patches_are_applies(
    content_type: Seq<char>,
    params: Map<Seq<char>, Seq<char>>,
)
    ensures
        apply_manager(content_type, params) is Some <==> params.dom().contains("fieldManager"@)
            && exists|i: int|
            0 <= i && i + "apply-patch"@.len() <= content_type.len()
                && #[trigger] content_type.subrange(i, i + "apply-patch"@.len())
                == "apply-patch"@,
        apply_manager(content_type, params) is Some ==> apply_manager(content_type, params)->0
            == params["fieldManager"@],
{
    crate::text_laws::law_first_place_is_found(content_type, "apply-patch"@);
    match crate::text::find_text(content_type, "apply-patch"@) {
        Some(k) => {
            assert(content_type.subrange(k, k + "apply-patch"@.len()) == "apply-patch"@);
        },
        None => {},
    }
}

/// An apply makes a pod under the name and namespace of the request: it comes
/// back as it is in a dry run, takes the place of the one that is there, and is
/// created where none is.
pub proof fn law_applied_pod_is_stored(
    namespace: Seq<char>,
    name: Seq<char>,
    dry_run: bool,
    current: Option<Pod>,
    desired: Json,
    p: Pod,
    next: Applying,
)
    requires
        applies(
            namespace,
            name,
            dry_run,
            (Applying::Apply { current, desired }),
            ApplyReply::Applied(Ok(p)),
            next,
        ),
    ensures
        dry_run ==> next is Answer,
        !dry_run && current is Some ==> next is Save && next->Save_0 is Update,
        !dry_run && current is None ==> next is Save && next->Save_0 is Create,
        ({
            let q = if next is Answer {
                next->Answer_0@
            } else if next->Save_0 is Update {
                next->Save_0->Update_0@
            } else {
                next->Save_0->Create_0@
            };
            q == (PodView {
                metadata: ObjectMetaView { name, namespace: Some(namespace), ..p@.metadata },
                status: if p@.status is Some && current is Some && resized(
                    current->0@.spec,
                    p@.spec,
                ) {
                    Some(PodStatusView { resize: Some("Proposed"@), ..p@.status->0 })
                } else {
                    p@.status
                },
                ..p@
            })
        }),
{
}

/// What fails an apply: an error of the store, but that there is no pod yet; a
/// body that is no JSON; conflicts; and a result that is no pod.
pub proof fn law_refused_applies(
    namespace: Seq<char>,
    name: Seq<char>,
    dry_run: bool,
    at: Applying,
    reply: ApplyReply,
    next: Applying,
)
    requires
        applies(namespace, name, dry_run, at, reply, next),
    ensures
        match at {
            Applying::ReadCurrent { desired } => {
                &&& reply is Current && reply->Current_0 is Err && !(reply->Current_0->Err_0
                    is NotFound) ==> next == Applying::Failed(reply->Current_0->Err_0)
                &&& reply is Current && (reply->Current_0 is Ok || reply->Current_0->Err_0
                    is NotFound) && desired is Err ==> next is Failed && next->Failed_0@
                    is InvalidResource
                &&& reply is Current && reply->Current_0 is Ok && desired is Ok ==> next == (
                Applying::Apply { current: Some(reply->Current_0->Ok_0), desired: desired->Ok_0 })
                &&& reply is Current && reply->Current_0 is Err && reply->Current_0->Err_0
                    is NotFound && desired is Ok ==> next == (Applying::Apply {
                    current: None,
                    desired: desired->Ok_0,
                })
            },
            Applying::Apply { current, desired } => {
                &&& reply is Conflicts ==> next is Failed && next->Failed_0@ is Conflict
                &&& reply is NotApplied ==> next == Applying::Failed(
                    Error::InvalidResource(reply->NotApplied_0),
                )
                &&& reply is Applied && reply->Applied_0 is Err ==> next is Failed
                    && next->Failed_0@ is InvalidResource
            },
            Applying::Save(a) => {
                &&& reply is Saved && reply->Saved_0 is Ok ==> next == Applying::Answer(
                    reply->Saved_0->Ok_0,
                )
                &&& reply is Saved && reply->Saved_0 is Err ==> next == Applying::Failed(
                    reply->Saved_0->Err_0,
                )
            },
            _ => next == at,
        },
{
}

/// A deletion takes its grace period from the query, else from the body, else
/// from the pod, else it is half a minute.
pub proof fn law_where_the_grace_period_comes_from(
    params: Map<Seq<char>, Seq<char>>,
    options: JsonView,
    n: int,
    b: i64,
    s: i64,
)
    requires
        i64::MIN <= n <= i64::MAX,
    ensures
        grace_of(Some(n), Some(b), Some(s)) == n,
        grace_of(Some(n), None, None) == n,
        grace_of(Some(n), None, Some(s)) == n,
        grace_of(Some(n), Some(b), None) == n,
        grace_of(None, Some(b), Some(s)) == b,
        grace_of(None, Some(b), None) == b,
        grace_of(None, None, Some(s)) == s,
        grace_of(None, None, None) == 30,
        params.dom().contains("gracePeriodSeconds"@) && params["gracePeriodSeconds"@]
            == signed_decimal(n) ==> grace_in_query(params) == Some(n),
        !params.dom().contains("gracePeriodSeconds"@) ==> grace_in_query(params) is None,
        grace_in_options(Ok(options)) == as_int(member(options, "gracePeriodSeconds"@)),
{
    crate::text_laws::law_signed_number_is_read_back(n);
}

/// A pod whose deletion passed its checks is removed at once if and only if its
/// grace period is zero; else it is marked to go, from the time that is known
/// or from now on, and written. A dry run ends there.
pub proof fn law_deleted_pods_get_their_grace(at: PodDeletion, next: PodDeletion)
    requires
        deletes(at, DeleteReply::Passed, next),
        at.phase is Reviewing,
        at.pod is Some,
    ensures
        at.dry_run ==> next.phase is Done && next.pod == at.pod,
        !at.dry_run ==> {
            let p = at.pod->0@;
            let spec = if p.spec is Some {
                p.spec->0.termination_grace_period_seconds
            } else {
                None
            };
            let grace = grace_of(grace_in_query(at.params@), at.body_grace, spec);
            &&& next.grace == grace as i64
            &&& next.phase is Removing <==> next.grace == 0
            &&& next.grace != 0 ==> next.phase == DeletePhase::Rereading { attempt: 0 }
            &&& next.pod is Some
            &&& next.pod->0@ == (PodView {
                metadata: ObjectMetaView {
                    deletion_timestamp: if p.metadata.deletion_timestamp is Some {
                        p.metadata.deletion_timestamp
                    } else {
                        Some(at.read_at@)
                    },
                    deletion_grace_period_seconds: Some(next.grace),
                    ..p.metadata
                },
                ..p
            })
        },
{
}

/// What is written of a pod that is to go is the pod as it is stored now, one
/// generation on, with the time and the grace period of the deletion.
pub proof fn law_going_pod_is_written_as_it_is_now(
    at: PodDeletion,
    p: Pod,
    now: String,
    next: PodDeletion,
)
    requires
        deletes(at, DeleteReply::Pod(p, now), next),
        at.phase is Rereading,
        p@.metadata.generation is Some ==> p@.metadata.generation->0 < i64::MAX,
    ensures
        next.phase == (DeletePhase::Writing { attempt: at.phase->Rereading_attempt }),
        next.pod is Some,
        next.pod->0@ == (PodView {
            metadata: ObjectMetaView {
                deletion_timestamp: if p@.metadata.deletion_timestamp is Some {
                    p@.metadata.deletion_timestamp
                } else {
                    Some(now@)
                },
                deletion_grace_period_seconds: Some(at.grace),
                generation: if p@.metadata.generation is Some {
                    Some((p@.metadata.generation->0 + 1) as i64)
                } else {
                    Some(2i64)
                },
                ..p@.metadata
            },
            ..p@
        }),
{
}

/// A deletion passes the authorizer, the preconditions and the webhooks in this
/// order; a write that meets a conflict is tried once more; errors end it.
pub proof fn law_steps_of_a_deletion(at: PodDeletion, reply: DeleteReply, next: PodDeletion)
    requires
        deletes(at, reply, next),
    ensures
        next.phase is ReadingPod && !(at.phase is ReadingPod) ==> at.phase is Authorizing && reply
            == DeleteReply::Decided(Decision::Allow),
        at.phase is Authorizing && reply is Decided && reply->Decided_0 is Deny ==> next.phase
            == DeletePhase::Failed(Error::Forbidden(reply->Decided_0->Deny_0)),
        at.phase is ReadingPod && reply is Pod ==> next.phase is CheckingPreconditions && next.pod
            == Some(reply->Pod_0) && next.read_at == reply->Pod_1,
        next.phase is CheckingPreconditions && !(at.phase is CheckingPreconditions) ==> at.phase
            is ReadingPod,
        next.phase is Reviewing && !(at.phase is Reviewing) ==> at.phase is CheckingPreconditions
            && reply is Passed,
        (next.phase is Removing && !(at.phase is Removing)) || (next.phase is Rereading && !(
        at.phase is Rereading) && !(at.phase is Writing)) ==> at.phase is Reviewing && reply
            is Passed,
        at.phase is Removing && reply is Removed ==> next.phase is Done,
        at.phase is Writing && reply is Written ==> {
            let result = reply->Written_0;
            let attempt = at.phase->Writing_attempt;
            &&& result is Ok ==> next.phase is Done && next.pod == Some(result->Ok_0)
            &&& result is Err && result->Err_0 is Conflict && attempt == 0 ==> next.phase == (
            DeletePhase::Rereading { attempt: 1 })
            &&& result is Err && (!(result->Err_0 is Conflict) || attempt >= 1) ==> next.phase
                == DeletePhase::Failed(result->Err_0)
        },
        next.phase is Done && !(at.phase is Done) ==> (at.phase is Removing && reply is Removed)
            || (at.phase is Writing && reply is Written) || (at.phase is Reviewing && at.dry_run),
        reply is Error && !(at.phase is Done) && !(at.phase is Failed) ==> next.phase
            == DeletePhase::Failed(reply->Error_0),
        next.params == at.params && next.body_grace == at.body_grace && next.dry_run == at.dry_run,
{
}

/// Texts are ordered by their first difference; a text comes before its
/// continuations, and none before itself.
pub proof fn law_order_of_texts(a: Seq<char>, x: char, y: char, b: Seq<char>, c: Seq<char>)
    requires
        x != y,
    ensures
        text_before(a + seq![x] + b, a + seq![y] + c) <==> x < y,
        text_before(a, a + seq![x] + b),
        !text_before(a + seq![x] + b, a),
        !text_before(a, a),
    decreases a.len(),
{
    let p = a + seq![x] + b;
    let q = a + seq![y] + c;
    if a.len() == 0 {
        assert(p[0] == x && q[0] == y);
    } else {
        let t = a.skip(1);
        law_order_of_texts(t, x, y, b, c);
        assert(p.skip(1) =~= t + seq![x] + b);
        assert(q.skip(1) =~= t + seq![y] + c);
        assert(p[0] == a[0] && q[0] == a[0]);
    }
}

/// Keys are ordered by namespace, one without coming first, and within it by
/// name.
pub proof fn law_order_of_keys(a: ListKey, b: ListKey)
    ensures
        a.namespace is None && b.namespace is Some ==> key_before(a, b) && !key_before(b, a),
        a.namespace is None && b.namespace is None ==> key_before(a, b) == text_before(
            a.name@,
            b.name@,
        ),
        a.namespace is Some && b.namespace is Some && a.namespace->0@ == b.namespace->0@
            ==> key_before(a, b) == text_before(a.name@, b.name@),
        a.namespace is Some && b.namespace is Some && a.namespace->0@ != b.namespace->0@
            ==> key_before(a, b) == text_before(a.namespace->0@, b.namespace->0@),
{
    if a.namespace is Some && b.namespace is Some && a.namespace->0@ == b.namespace->0@ {
        lemma_not_before_itself(a.namespace->0@);
    }
}

proof fn lemma_not_before_itself(s: Seq<char>)
    ensures
        !text_before(s, s),
    decreases s.len(),
{
    if s.len() > 0 {
        lemma_not_before_itself(s.skip(1));
    }
}

/// A list holds every object once, and none before another whose key comes
/// first; objects of one key stay in the order in which they came.
pub proof fn law_lists_are_in_order(keys: Seq<ListKey>, order: Seq<usize>, a: int, b: int)
    requires
        is_list_order(keys, order),
        order.len() == keys.len(),
        0 <= a < b < order.len(),
    ensures
        order[a] < keys.len() && order[b] < keys.len(),
        order[a] != order[b],
        !key_before(keys[order[b] as int], keys[order[a] as int]),
        !key_before(keys[order[a] as int], keys[order[b] as int]) ==> order[a] < order[b],
        forall|v: usize| v < keys.len() ==> #[trigger] order.contains(v),
{
}

/// The message of conflicting applies goes through all conflicts, in order and
/// with semicolons between.
pub proof fn law_conflicts_are_all_named(
    namespace: Seq<char>,
    name: Seq<char>,
    dry_run: bool,
    current: Option<Pod>,
    desired: Json,
    c: Vec<ApplyConflict>,
    next: Applying,
)
    requires
        applies(
            namespace,
            name,
            dry_run,
            (Applying::Apply { current, desired }),
            ApplyReply::Conflicts(c),
            next,
        ),
        c@.len() == 1,
    ensures
        next is Failed,
        next->Failed_0@ == ErrorView::Conflict(
            "Apply conflict: "@ + ("Field '"@ + c@[0].field@ + "' is owned by '"@
                + c@[0].current_manager@ + "' (applying as '"@ + c@[0].applying_manager@ + "')"@)
                + ". Use force=true to override."@,
        ),
{
    let all = Seq::new(c@.len(), |i: int| crate::pod_patch::conflict_text(c@[i]));
    assert(all =~= seq![crate::pod_patch::conflict_text(c@[0])]);
    crate::text_laws::law_texts_are_joined(
        Seq::empty(),
        "; "@,
        crate::pod_patch::conflict_text(c@[0]),
    );
}

/// A replacement that is not refused goes on.
pub proof fn law_replacement_goes_on(at: PodUpdate, reply: UpdateReply, next: PodUpdate)
    requires
        updates(at, reply, next),
    ensures
        at.phase is StrictFields && reply is Passed ==> next.phase is Authorizing,
        at.phase is Authorizing && reply == UpdateReply::Decided(Decision::Allow) ==> next.phase
            is ReadingOld,
        at.phase is ReadingOld && reply is Pod ==> next.phase is CheckingVersion,
        at.phase is Tolerating && reply is Pod ==> next.phase is CheckingSpec || next.phase
            is Mutating,
        at.phase is CheckingSpec && reply is SpecChecked && reply->SpecChecked_0 is Ok ==> next.phase
            is Mutating,
        at.phase is Mutating && reply is Mutated && reply->Mutated_0 is Allow ==> next.phase
            is Reviewing,
        at.phase is Reviewing && reply == UpdateReply::Reviewed(Admission::Allow) ==> next.phase
            is Growing,
        at.phase is Growing && reply is Generation && at.old is Some ==> next.phase is Quota,
        at.phase is Quota && reply is Quota && reply->Quota_0 != Some(false) ==> next.phase
            is Storing || next.phase is Done,
        at.phase is Storing && reply is Pod ==> next.phase is Done,
{
}

/// A patch that is not refused goes on.
pub proof fn law_patch_goes_on(at: PodPatch, reply: PatchReply, next: PodPatch)
    requires
        patches(at, reply, next),
    ensures
        at.phase is Authorizing && reply == PatchReply::Decided(Decision::Allow) ==> next.phase
            == PatchPhase::CheckingType(at.phase->Authorizing_0),
        at.phase is CheckingType && reply is Typed && reply->Typed_0 is Ok ==> next.phase
            == PatchPhase::ReadingCurrent(at.phase->CheckingType_0),
        at.phase is Applying && reply is Patched && reply->Patched_0 is Ok ==> next.phase
            is Decoding && next.phase->Decoding_0@ == pinned(
            reply->Patched_0->Ok_0@,
            at.namespace@,
            at.name@,
        ),
        at.phase is Quota && reply is Quota && reply->Quota_0 != Some(false) ==> next.phase
            is Growing || next.phase is Done,
        at.phase is Storing && reply is Pod ==> next.phase is Done,
{
}

/// A deletion that is not refused goes on.
pub proof fn law_deletion_goes_on(at: PodDeletion, reply: DeleteReply, next: PodDeletion)
    requires
        deletes(at, reply, next),
    ensures
        at.phase is Authorizing && reply == DeleteReply::Decided(Decision::Allow) ==> next.phase
            is ReadingPod,
        at.phase is ReadingPod && reply is Pod ==> next.phase is CheckingPreconditions,
        at.phase is CheckingPreconditions && reply is Passed ==> next.phase is Reviewing && next.pod
            == at.pod && next.read_at == at.read_at,
        at.phase is Reviewing && reply is Passed && at.pod is Some ==> next.phase is Done
            || next.phase is Removing || next.phase is Rereading,
        at.phase is Removing && reply is Removed ==> next.phase is Done && next.pod == at.pod,
        at.phase is Rereading && reply is Pod ==> next.phase is Writing && next.grace == at.grace,
{
}

/// An answer that a change does not wait for changes nothing.
pub proof fn law_other_answers_leave_a_change(
    update: PodUpdate,
    update_reply: UpdateReply,
    updated: PodUpdate,
    deletion: PodDeletion,
    delete_reply: DeleteReply,
    deleted: PodDeletion,
)
    requires
        updates(update, update_reply, updated),
        deletes(deletion, delete_reply, deleted),
        !(update_reply is Error),
        !(delete_reply is Error),
    ensures
        update.phase is StrictFields && !(update_reply is Passed) ==> updated == update,
        update.phase is Authorizing && !(update_reply is Decided) ==> updated == update,
        update.phase is ReadingOld && !(update_reply is Pod) ==> updated == update,
        update.phase is CheckingVersion && !(update_reply is Passed) ==> updated == update,
        update.phase is Tolerating && !(update_reply is Pod) ==> updated == update,
        update.phase is CheckingSpec && !(update_reply is SpecChecked) ==> updated == update,
        update.phase is Mutating && !(update_reply is Mutated) ==> updated == update,
        update.phase is Reviewing && !(update_reply is Reviewed) ==> updated == update,
        update.phase is Growing && !(update_reply is Generation) ==> updated == update,
        update.phase is Quota && !(update_reply is Quota) ==> updated == update,
        update.phase is Storing && !(update_reply is Pod) ==> updated == update,
        deletion.phase is Authorizing && !(delete_reply is Decided) ==> deleted == deletion,
        deletion.phase is ReadingPod && !(delete_reply is Pod) ==> deleted == deletion,
        deletion.phase is CheckingPreconditions && !(delete_reply is Passed) ==> deleted
            == deletion,
        deletion.phase is Reviewing && !(delete_reply is Passed) ==> deleted == deletion,
        deletion.phase is Removing && !(delete_reply is Removed) ==> deleted == deletion,
        deletion.phase is Rereading && !(delete_reply is Pod) ==> deleted == deletion,
        deletion.phase is Writing && !(delete_reply is Written) ==> deleted == deletion,
        deletion.phase is Done || deletion.phase is Failed ==> deleted == deletion,
{
}

} // verus!
