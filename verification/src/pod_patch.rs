//! Patching a pod, and applying one server-side.
use vstd::prelude::*;
use vstd::string::StringExecFns;
use crate::access::Decision;
use crate::collections::StringMap;
use crate::error::{invalid_field, one_invalid_field, Error, ErrorView, FieldErrorKind};
use crate::json::{
    lemma_json_view, member, outcome_of, put_member, take_inner, with_member, Json, JsonView,
};
use crate::json_text::{json_document, parse_document};
use crate::model::{ObjectMetaView, Pod, PodView};
use crate::pod_rules::{check_ephemeral_containers, ephemeral_refusal};
use crate::pod_delete::opt_pod;
use crate::pod_update::at_url;
use crate::resize::{propose_resize, with_proposal};
use crate::text::{find, find_text, join, joined, same, texts};
use crate::watch::{param, plain_bool};

verus! {

/// A header: its text, where it can be read as text.
pub struct Header {
    pub text: Option<String>,
}

/// The content type of a patch: that which stood before the body was
/// normalised, else that of the request. A header that cannot be read counts
/// as the default.
pub open spec fn content_type_of(
    original: Option<Header>,
    plain: Option<Header>,
    default: Seq<char>,
) -> Seq<char> {
    let header = match original {
        Some(h) => Some(h),
        None => plain,
    };
    match header {
        Some(h) => match h.text {
            Some(t) => t@,
            None => default,
        },
        None => default,
    }
}

/// The content type of a patch.
pub fn patch_content_type(original: Option<Header>, plain: Option<Header>, default: &str) -> (r:
    String)
    ensures
        r@ == content_type_of(original, plain, default@),
{
    let header: Option<Header> = match original {
        Some(h) => Some(h),
        None => plain,
    };
    match header {
        Some(h) => match h.text {
            Some(t) => t,
            None => default.to_owned(),
        },
        None => default.to_owned(),
    }
}

/// The manager under whose name a server-side apply runs: only a patch of
/// that content type that names its field manager is one.
pub open spec fn apply_manager(
    content_type: Seq<char>,
    params: Map<Seq<char>, Seq<char>>,
) -> Option<Seq<char>> {
    if find_text(content_type, "apply-patch"@) is Some {
        param(params, "fieldManager"@)
    } else {
        None
    }
}

/// The manager under whose name a server-side apply runs, if the request is one.
pub fn server_side_apply_manager<'a>(content_type: &str, params: &'a StringMap) -> (r: Option<
    &'a String,
>)
    ensures
        match r {
            Some(m) => apply_manager(content_type@, params@) == Some(m@),
            None => apply_manager(content_type@, params@) is None,
        },
{
    if find(content_type, "apply-patch").is_some() {
        params.get("fieldManager")
    } else {
        None
    }
}

/// Whether a server-side apply takes over the fields of others.
pub fn apply_is_forced(params: &StringMap) -> (r: bool)
    ensures
        r == (plain_bool(param(params@, "force"@)) == Some(true)),
{
    match params.get("force") {
        Some(v) => same(v.as_str(), "true"),
        None => false,
    }
}

/// A field that another manager owns.
pub struct ApplyConflict {
    pub field: String,
    pub current_manager: String,
    pub applying_manager: String,
}

/// What is said of one conflict.
pub open spec fn conflict_text(c: ApplyConflict) -> Seq<char> {
    "Field '"@ + c.field@ + "' is owned by '"@ + c.current_manager@ + "' (applying as '"@
        + c.applying_manager@ + "')"@
}

/// What is said of the conflicts of an apply.
pub open spec fn conflicts_text(cs: Seq<ApplyConflict>) -> Seq<char> {
    "Apply conflict: "@ + joined(Seq::new(cs.len(), |i: int| conflict_text(cs[i])), "; "@)
        + ". Use force=true to override."@
}

/// Refuses an apply for its conflicts.
pub fn refuse_conflicts(conflicts: &Vec<ApplyConflict>) -> (e: Error)
    ensures
        e@ == ErrorView::Conflict(conflicts_text(conflicts@)),
{
    let mut details: Vec<String> = Vec::new();
    let mut i: usize = 0;
    while i < conflicts.len()
        invariant
            i <= conflicts@.len(),
            details@.len() == i,
            forall|j: int| 0 <= j < i ==> (#[trigger] details@[j])@ == conflict_text(conflicts@[j]),
        decreases conflicts.len() - i,
    {
        let c: &ApplyConflict = &conflicts[i];
        let mut m: String = "Field '".to_owned();
        m.append(c.field.as_str());
        m.append("' is owned by '");
        m.append(c.current_manager.as_str());
        m.append("' (applying as '");
        m.append(c.applying_manager.as_str());
        m.append("')");
        details.push(m);
        i = i + 1;
    }
    assert(texts(details@) =~= Seq::new(conflicts@.len(), |k: int| conflict_text(conflicts@[k])));
    let mut m: String = "Apply conflict: ".to_owned();
    m.append(join(&details, "; ").as_str());
    m.append(". Use force=true to override.");
    Error::Conflict(m)
}

/// Why a patch cannot be applied.
pub enum PatchFailure {
    /// There is nothing at this path.
    PathNotFound(String),
    Other(String),
}

/// What a patch that cannot be applied is answered with.
pub open spec fn patch_refusal(f: PatchFailure) -> ErrorView {
    match f {
        PatchFailure::PathNotFound(path) => invalid_field(
            FieldErrorKind::NotFound,
            path@,
            ""@,
            ""@,
        ),
        PatchFailure::Other(m) => ErrorView::InvalidResource(m@),
    }
}

/// Refuses a patch that cannot be applied.
pub fn refuse_patch(f: PatchFailure) -> (e: Error)
    ensures
        e@ == patch_refusal(f),
{
    match f {
        PatchFailure::PathNotFound(path) => one_invalid_field(
            FieldErrorKind::NotFound,
            path.as_str(),
            "".to_owned(),
            "",
        ),
        PatchFailure::Other(m) => Error::InvalidResource(m),
    }
}

/// A text after a heading, as an error.
pub fn invalid_because(heading: &str, message: &str) -> (e: Error)
    ensures
        e@ == ErrorView::InvalidResource(heading@ + message@),
{
    let mut m: String = heading.to_owned();
    m.append(message);
    Error::InvalidResource(m)
}

/// A patched object with name and namespace in its metadata, where these are an
/// object.
pub open spec fn pinned(patched: JsonView, namespace: Seq<char>, name: Seq<char>) -> JsonView {
    match (patched, member(patched, "metadata"@)) {
        (JsonView::Object(m), Some(JsonView::Object(meta))) => JsonView::Object(
            with_member(
                m,
                "metadata"@,
                JsonView::Object(
                    with_member(
                        with_member(meta, "name"@, JsonView::Text(name)),
                        "namespace"@,
                        JsonView::Text(namespace),
                    ),
                ),
            ),
        ),
        _ => patched,
    }
}

/// Pins name and namespace in the metadata of a patched object to those of
/// the request. Nothing but an object's metadata is touched.
pub fn pin_metadata(patched: Json, namespace: &str, name: &str) -> (r: Json)
    ensures
        r@ == pinned(patched@, namespace@, name@),
{
    broadcast use lemma_json_view;

    match take_inner(patched, "metadata") {
        Ok((outer, meta)) => {
            let named: Vec<(String, Json)> = put_member(meta, "name", Json::Text(name.to_owned()));
            let placed: Vec<(String, Json)> = put_member(
                named,
                "namespace",
                Json::Text(namespace.to_owned()),
            );
            Json::Object(put_member(outer, "metadata", Json::Object(placed)))
        },
        Err(other) => other,
    }
}

/// What a patch of a pod waits for.
pub enum PatchPhase {
    /// The authorizer's answer. The body is parsed already.
    Authorizing(Result<Json, String>),
    /// Whether patches of the request's type can be applied.
    CheckingType(Result<Json, String>),
    /// The pod as it is stored.
    ReadingCurrent(Result<Json, String>),
    /// The stored pod with this patch.
    Applying(Json),
    /// The pod that this object decodes to.
    Decoding(Json),
    /// The quota of the namespace.
    Quota,
    /// The generation of the pod.
    Growing,
    /// The pod in the store.
    Storing,
    Done,
    Failed(Error),
}

/// An answer to what a patch waits for.
pub enum PatchReply {
    Decided(Decision),
    /// Why patches of this type cannot be applied, if so.
    Typed(Result<(), String>),
    Pod(Pod),
    /// The patched object.
    Patched(Result<Json, PatchFailure>),
    /// The decoded pod, or why it is no pod.
    Decoded(Result<Pod, String>),
    /// Whether the quota allows the pod, where that could be found out.
    Quota(Option<bool>),
    /// The generation: that of the stored pod, one higher where the
    /// specification changed.
    Generation(Option<i64>),
    Error(Error),
}

/// A pod that is being patched. `current` is the stored one, once it is read.
pub struct PodPatch {
    pub pod: Option<Pod>,
    pub current: Option<Pod>,
    pub namespace: String,
    pub name: String,
    pub subresource: bool,
    pub dry_run: bool,
    pub phase: PatchPhase,
}

/// Whether a patch goes on with this pod to this phase, the rest unchanged.
pub open spec fn goes_on(at: PodPatch, next: PodPatch, pod: PodView, phase: PatchPhase) -> bool {
    &&& next.pod is Some && next.pod->0@ == pod
    &&& next.phase == phase
    &&& next.current == at.current
    &&& next.namespace == at.namespace
    &&& next.name == at.name
    &&& next.subresource == at.subresource
    &&& next.dry_run == at.dry_run
}

/// Whether the request is as it was.
pub open spec fn same_request(at: PodPatch, next: PodPatch) -> bool {
    &&& next.pod == at.pod
    &&& next.namespace == at.namespace
    &&& next.name == at.name
    &&& next.subresource == at.subresource
    &&& next.dry_run == at.dry_run
}

/// Whether a patch fails with this error.
pub open spec fn fails(next: PodPatch, e: ErrorView) -> bool {
    next.phase matches PatchPhase::Failed(x) && x@ == e
}

/// Whether `next` follows `at` on `reply`. An answer that was not asked for
/// changes nothing.
pub open spec fn patches(at: PodPatch, reply: PatchReply, next: PodPatch) -> bool {
    match (at.phase, reply) {
        (PatchPhase::Done, _) => next == at,
        (PatchPhase::Failed(e), _) => next == at,
        (_, PatchReply::Error(e)) => fails(next, e@),
        (PatchPhase::Authorizing(patch), PatchReply::Decided(d)) => match d {
            Decision::Deny(reason) => fails(next, ErrorView::Forbidden(reason@)),
            Decision::Allow => next == (PodPatch { phase: PatchPhase::CheckingType(patch), ..at }),
        },
        (PatchPhase::CheckingType(patch), PatchReply::Typed(outcome)) => match outcome {
            Ok(_) => next == (PodPatch { phase: PatchPhase::ReadingCurrent(patch), ..at }),
            Err(m) => fails(next, ErrorView::InvalidResource(m@)),
        },
        (PatchPhase::ReadingCurrent(patch), PatchReply::Pod(p)) => match patch {
            Ok(j) => next == (PodPatch {
                current: Some(p),
                phase: PatchPhase::Applying(j),
                ..at
            }),
            Err(m) => fails(next, ErrorView::InvalidResource("Invalid patch: "@ + m@)),
        },
        (PatchPhase::Applying(_), PatchReply::Patched(outcome)) => match outcome {
            Ok(j) => {
                &&& (next.phase matches PatchPhase::Decoding(object) && object@ == pinned(
                    j@,
                    at.namespace@,
                    at.name@,
                ))
                &&& next.current == at.current
                &&& same_request(at, next)
            },
            Err(f) => fails(next, patch_refusal(f)),
        },
        (PatchPhase::Decoding(_), PatchReply::Decoded(Err(m))) => fails(
            next,
            ErrorView::InvalidResource("Invalid result: "@ + m@),
        ),
        (PatchPhase::Decoding(_), PatchReply::Decoded(Ok(p))) => match at.current {
            Some(c) => {
                let patched = at_url(p@, at.namespace@, at.name@);
                match ephemeral_refusal(c@, patched, at.subresource) {
                    Some(e) => fails(next, e),
                    None => goes_on(at, next, with_proposal(c@, patched), PatchPhase::Quota),
                }
            },
            None => next == at,
        },
        (PatchPhase::Quota, PatchReply::Quota(allowed)) => if allowed == Some(false) {
            fails(next, ErrorView::Forbidden("exceeded quota"@))
        } else {
            next == (PodPatch {
                phase: if at.dry_run {
                    PatchPhase::Done
                } else {
                    PatchPhase::Growing
                },
                ..at
            })
        },
        (PatchPhase::Growing, PatchReply::Generation(g)) => match at.pod {
            Some(p) => goes_on(
                at,
                next,
                PodView {
                    metadata: ObjectMetaView {
                        generation: g,
                        resource_version: None,
                        ..p@.metadata
                    },
                    ..p@
                },
                PatchPhase::Storing,
            ),
            None => next == at,
        },
        (PatchPhase::Storing, PatchReply::Pod(p)) => goes_on(at, next, p@, PatchPhase::Done),
        _ => next == at,
    }
}

/// Takes one answer into account.
#[verifier::rlimit(40)]
pub fn patch_step(at: PodPatch, reply: PatchReply) -> (next: PodPatch)
    ensures
        patches(at, reply, next),
{
    let PodPatch { pod, current, namespace, name, subresource, dry_run, phase } = at;
    let mut pod: Option<Pod> = pod;
    let mut current: Option<Pod> = current;
    let target: PatchPhase = match (phase, reply) {
        (PatchPhase::Done, _) => PatchPhase::Done,
        (PatchPhase::Failed(e), _) => PatchPhase::Failed(e),
        (_, PatchReply::Error(e)) => PatchPhase::Failed(e),
        (PatchPhase::Authorizing(patch), PatchReply::Decided(d)) => match d {
            Decision::Deny(reason) => PatchPhase::Failed(Error::Forbidden(reason)),
            Decision::Allow => PatchPhase::CheckingType(patch),
        },
        (PatchPhase::CheckingType(patch), PatchReply::Typed(outcome)) => match outcome {
            Ok(_) => PatchPhase::ReadingCurrent(patch),
            Err(m) => PatchPhase::Failed(Error::InvalidResource(m)),
        },
        (PatchPhase::ReadingCurrent(patch), PatchReply::Pod(p)) => match patch {
            Ok(j) => {
                current = Some(p);
                PatchPhase::Applying(j)
            },
            Err(m) => PatchPhase::Failed(invalid_because("Invalid patch: ", m.as_str())),
        },
        (PatchPhase::Applying(_), PatchReply::Patched(outcome)) => match outcome {
            Ok(j) => PatchPhase::Decoding(pin_metadata(j, namespace.as_str(), name.as_str())),
            Err(f) => PatchPhase::Failed(refuse_patch(f)),
        },
        (PatchPhase::Decoding(_), PatchReply::Decoded(Err(m))) => PatchPhase::Failed(
            invalid_because("Invalid result: ", m.as_str()),
        ),
        (PatchPhase::Decoding(object), PatchReply::Decoded(Ok(p))) => match &current {
            Some(c) => {
                let mut patched: Pod = p;
                patched.metadata.name = name.clone();
                patched.metadata.namespace = Some(namespace.clone());
                match check_ephemeral_containers(c, &patched, subresource) {
                    Err(e) => PatchPhase::Failed(e),
                    Ok(_) => {
                        pod = Some(propose_resize(c, patched));
                        PatchPhase::Quota
                    },
                }
            },
            None => PatchPhase::Decoding(object),
        },
        (PatchPhase::Quota, PatchReply::Quota(allowed)) => {
            let exceeded: bool = match allowed {
                Some(ok) => !ok,
                None => false,
            };
            if exceeded {
                PatchPhase::Failed(Error::Forbidden("exceeded quota".to_owned()))
            } else if dry_run {
                PatchPhase::Done
            } else {
                PatchPhase::Growing
            }
        },
        (PatchPhase::Growing, PatchReply::Generation(g)) => match pod {
            Some(p) => {
                let mut grown: Pod = p;
                grown.metadata.generation = g;
                grown.metadata.resource_version = None;
                pod = Some(grown);
                PatchPhase::Storing
            },
            None => {
                pod = None;
                PatchPhase::Growing
            },
        },
        (PatchPhase::Storing, PatchReply::Pod(p)) => {
            pod = Some(p);
            PatchPhase::Done
        },
        (other, _) => other,
    };
    PodPatch { pod, current, namespace, name, subresource, dry_run, phase: target }
}

/// Starts the patch of a pod with the body of its request.
pub fn start_patch(
    body: &[u8],
    namespace: String,
    name: String,
    subresource: bool,
    dry_run: bool,
) -> (at: PodPatch)
    ensures
        at.pod is None,
        at.current is None,
        at.namespace == namespace,
        at.name == name,
        at.subresource == subresource,
        at.dry_run == dry_run,
        at.phase matches PatchPhase::Authorizing(patch) && outcome_of(patch) == json_document(body@),
{
    PodPatch {
        pod: None,
        current: None,
        namespace,
        name,
        subresource,
        dry_run,
        phase: PatchPhase::Authorizing(parse_document(body)),
    }
}

/// What is done with a pod that was applied server-side.
pub enum ApplyAction {
    /// It comes back as it is: a dry run.
    Return(Pod),
    /// It takes the place of the stored one.
    Update(Pod),
    /// It is stored as a new one, with identity and creation time.
    Create(Pod),
}

/// The pod of an apply, under the name of the request, and as to be resized
/// where its containers' resources differ from the stored ones.
pub open spec fn applied_pod(
    p: PodView,
    current: Option<PodView>,
    namespace: Seq<char>,
    name: Seq<char>,
) -> PodView {
    let named = at_url(p, namespace, name);
    match current {
        Some(c) => with_proposal(c, named),
        None => named,
    }
}

/// Decides what is done with a pod that was applied server-side.
pub fn finish_apply(
    applied: Pod,
    current: &Option<Pod>,
    namespace: &str,
    name: &str,
    dry_run: bool,
) -> (r: ApplyAction)
    ensures
        ({
            let want = applied_pod(
                applied@,
                match current {
                    Some(c) => Some(c@),
                    None => None,
                },
                namespace@,
                name@,
            );
            if dry_run {
                r matches ApplyAction::Return(p) && p@ == want
            } else if current is Some {
                r matches ApplyAction::Update(p) && p@ == want
            } else {
                r matches ApplyAction::Create(p) && p@ == want
            }
        }),
{
    let mut out: Pod = applied;
    out.metadata.name = name.to_owned();
    out.metadata.namespace = Some(namespace.to_owned());
    if let Some(c) = current {
        out = propose_resize(c, out);
    }
    if dry_run {
        ApplyAction::Return(out)
    } else if current.is_some() {
        ApplyAction::Update(out)
    } else {
        ApplyAction::Create(out)
    }
}

/// How far a server-side apply has come: what to do next, or the outcome.
pub enum Applying {
    /// Read the pod, if it is there. `desired` is the body of the request.
    ReadCurrent { desired: Result<Json, String> },
    /// Apply `desired` to the pod.
    Apply { current: Option<Pod>, desired: Json },
    /// Write the pod.
    Save(ApplyAction),
    Answer(Pod),
    Failed(Error),
}

/// What came of it.
pub enum ApplyReply {
    Current(Result<Pod, Error>),
    /// The applied pod, or why it is no pod.
    Applied(Result<Pod, String>),
    /// Others own fields of it.
    Conflicts(Vec<ApplyConflict>),
    /// The apply itself failed.
    NotApplied(String),
    Saved(Result<Pod, Error>),
}

/// Whether an apply fails with this error.
pub open spec fn apply_fails(next: Applying, e: ErrorView) -> bool {
    next matches Applying::Failed(x) && x@ == e
}

/// Whether an apply goes on with the body, once it is known whether the pod is
/// there.
pub open spec fn desires(
    next: Applying,
    current: Option<Pod>,
    desired: Result<Json, String>,
) -> bool {
    match desired {
        Ok(j) => next == (Applying::Apply { current, desired: j }),
        Err(m) => apply_fails(next, ErrorView::InvalidResource("Invalid resource: "@ + m@)),
    }
}

/// Goes on with the body, once it is known whether the pod is there.
fn go_on_with(current: Option<Pod>, desired: Result<Json, String>) -> (next: Applying)
    ensures
        desires(next, current, desired),
{
    match desired {
        Ok(j) => Applying::Apply { current, desired: j },
        Err(m) => Applying::Failed(invalid_because("Invalid resource: ", m.as_str())),
    }
}

/// Starts a server-side apply with the body of its request.
pub fn start_apply(body: &[u8]) -> (at: Applying)
    ensures
        at matches Applying::ReadCurrent { desired } && outcome_of(desired) == json_document(body@),
{
    Applying::ReadCurrent { desired: parse_document(body) }
}

/// Whether `next` follows when `reply` answers what `at` waits for.
pub open spec fn applies(
    namespace: Seq<char>,
    name: Seq<char>,
    dry_run: bool,
    at: Applying,
    reply: ApplyReply,
    next: Applying,
) -> bool {
    match (at, reply) {
        (Applying::ReadCurrent { desired }, ApplyReply::Current(Ok(p))) => desires(
            next,
            Some(p),
            desired,
        ),
        (Applying::ReadCurrent { desired }, ApplyReply::Current(Err(e))) => if e is NotFound {
            desires(next, None, desired)
        } else {
            next == Applying::Failed(e)
        },
        (Applying::Apply { .. }, ApplyReply::NotApplied(m)) => next == Applying::Failed(
            Error::InvalidResource(m),
        ),
        (Applying::Apply { .. }, ApplyReply::Conflicts(c)) => apply_fails(
            next,
            ErrorView::Conflict(conflicts_text(c@)),
        ),
        (Applying::Apply { .. }, ApplyReply::Applied(Err(m))) => apply_fails(
            next,
            ErrorView::InvalidResource("Invalid result: "@ + m@),
        ),
        (Applying::Apply { current, .. }, ApplyReply::Applied(Ok(p))) => {
            let want = applied_pod(p@, opt_pod(current), namespace, name);
            if dry_run {
                next matches Applying::Answer(q) && q@ == want
            } else if current is Some {
                next matches Applying::Save(ApplyAction::Update(q)) && q@ == want
            } else {
                next matches Applying::Save(ApplyAction::Create(q)) && q@ == want
            }
        },
        (Applying::Save(_), ApplyReply::Saved(Ok(p))) => next == Applying::Answer(p),
        (Applying::Save(_), ApplyReply::Saved(Err(e))) => next == Applying::Failed(e),
        (other, _) => next == other,
    }
}

/// One step of a server-side apply that is allowed. Starts at
/// [`start_apply`]; a reply that answers nothing changes nothing.
pub fn apply_step(namespace: &str, name: &str, dry_run: bool, at: Applying, reply: ApplyReply) -> (next:
    Applying)
    ensures
        applies(namespace@, name@, dry_run, at, reply, next),
{
    match (at, reply) {
        (Applying::ReadCurrent { desired }, ApplyReply::Current(Ok(p))) => go_on_with(
            Some(p),
            desired,
        ),
        (Applying::ReadCurrent { desired }, ApplyReply::Current(Err(e))) => match e {
            Error::NotFound(_) => go_on_with(None, desired),
            other => Applying::Failed(other),
        },
        (Applying::Apply { .. }, ApplyReply::NotApplied(m)) => Applying::Failed(
            Error::InvalidResource(m),
        ),
        (Applying::Apply { .. }, ApplyReply::Conflicts(c)) => Applying::Failed(refuse_conflicts(&c)),
        (Applying::Apply { .. }, ApplyReply::Applied(Err(m))) => Applying::Failed(
            invalid_because("Invalid result: ", m.as_str()),
        ),
        (Applying::Apply { current, .. }, ApplyReply::Applied(Ok(p))) => {
            match finish_apply(p, &current, namespace, name, dry_run) {
                ApplyAction::Return(q) => Applying::Answer(q),
                action => Applying::Save(action),
            }
        },
        (Applying::Save(_), ApplyReply::Saved(Ok(p))) => Applying::Answer(p),
        (Applying::Save(_), ApplyReply::Saved(Err(e))) => Applying::Failed(e),
        (other, _) => other,
    }
}

/// An apply that meets fields of others stores nothing, and neither does a dry
/// run.
pub proof fn law_conflicting_apply_stores_nothing(
    namespace: Seq<char>,
    name: Seq<char>,
    dry_run: bool,
    at: Applying,
    reply: ApplyReply,
    next: Applying,
)
    requires
        applies(namespace, name, dry_run, at, reply, next),
        !(at is Save),
        reply is Conflicts || dry_run,
    ensures
        !(next is Save),
{
}

/// A patch of a type that cannot be applied is refused before the pod is read,
/// whatever its body is.
pub proof fn law_unsupported_patch_reads_nothing(
    at: PodPatch,
    message: String,
    next: PodPatch,
)
    requires
        patches(at, PatchReply::Typed(Err(message)), next),
        at.phase is CheckingType,
    ensures
        fails(next, ErrorView::InvalidResource(message@)),
{
}

/// A dry run of a patch never comes to the store.
pub proof fn law_dry_patch_stores_nothing(at: PodPatch, reply: PatchReply, next: PodPatch)
    requires
        patches(at, reply, next),
        at.dry_run,
        !(at.phase is Growing),
        !(at.phase is Storing),
    ensures
        !(next.phase is Growing),
        !(next.phase is Storing),
{
}

/// A patch changes neither the name nor the namespace of a pod.
pub proof fn law_patch_keeps_the_name(at: PodPatch, p: Pod, next: PodPatch)
    requires
        patches(at, PatchReply::Decoded(Ok(p)), next),
        at.phase is Decoding,
        next.phase is Quota,
    ensures
        next.pod->0@.metadata.name == at.name@,
        next.pod->0@.metadata.namespace == Some(at.namespace@),
{
}

/// A patch is stored without a resource version, so that no other write stands
/// in its way.
pub proof fn law_patch_is_stored_unconditionally(at: PodPatch, reply: PatchReply, next: PodPatch)
    requires
        patches(at, reply, next),
        !(at.phase is Storing),
        next.phase is Storing,
    ensures
        next.pod->0@.metadata.resource_version is None,
{
}

} // verus!
