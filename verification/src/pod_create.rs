//! Creating a pod: the checks and admission steps in their order.
use vstd::prelude::*;
use vstd::string::StringExecFns;
use crate::access::{attributes, AttributesView, Decision, RequestAttributes};
use crate::collections::StringMap;
use crate::connect::Admission;
use crate::error::{Error, ErrorView, FieldError};
use crate::json::{
    get_in, lemma_json_view, member, member_views, opt_json, opt_member, Json, JsonView,
};
use crate::model::{copy_text, opt_map, ObjectMetaView, Pod, PodSpec, PodSpecView, PodView};
use crate::pod_rules::{
    admit_priority, apply_pod_defaults, check_sysctls, default_service_links, first_status,
    priority_question, priority_refusal, set_first_status, sysctl_refusal, with_pod_defaults,
    with_priority, PriorityAnswer, PriorityQuestion,
};
use crate::text::{find, find_text, opt_text};

verus! {

/// Whether a decoder's message says that a field stands twice.
pub open spec fn is_duplicate_field(message: Seq<char>) -> bool {
    find_text(message, "duplicate field"@) is Some
}

/// Whether a body that does not decode is worth decoding once more by way of a
/// plain JSON value, in which the last of two equal keys counts.
pub fn decodes_leniently(message: &str) -> (r: bool)
    ensures
        r == is_duplicate_field(message@),
{
    find(message, "duplicate field").is_some()
}

/// What is said of a body that does not decode.
pub fn decode_failure(message: &str) -> (e: Error)
    ensures
        e@ == ErrorView::BadRequest("failed to decode: "@ + message@),
{
    let mut m: String = "failed to decode: ".to_owned();
    m.append(message);
    Error::BadRequest(m)
}

/// The body of a pod: as it decodes, or as it decodes leniently where a field
/// stands twice.
pub fn decode_pod_body<T>(first: Result<T, String>, leniently: Result<T, String>) -> (r: Result<
    T,
    Error,
>)
    ensures
        match (first, leniently) {
            (Ok(x), _) => r == Ok::<T, Error>(x),
            (Err(m), again) => if is_duplicate_field(m@) {
                match again {
                    Ok(x) => r == Ok::<T, Error>(x),
                    Err(m2) => r matches Err(e) && e@ == ErrorView::BadRequest(
                        "failed to decode: "@ + m2@,
                    ),
                }
            } else {
                r matches Err(e) && e@ == ErrorView::BadRequest("failed to decode: "@ + m@)
            },
        },
{
    match first {
        Ok(x) => Ok(x),
        Err(m) => {
            if decodes_leniently(m.as_str()) {
                match leniently {
                    Ok(x) => Ok(x),
                    Err(m2) => Err(decode_failure(m2.as_str())),
                }
            } else {
                Err(decode_failure(m.as_str()))
            }
        },
    }
}

/// The members of an object that are texts, among the first `n`.
pub open spec fn text_members(m: Seq<(Seq<char>, JsonView)>, n: nat) -> Map<Seq<char>, Seq<char>>
    decreases n,
{
    if n == 0 || n > m.len() {
        Map::empty()
    } else {
        let before = text_members(m, (n - 1) as nat);
        match m[n - 1].1 {
            JsonView::Text(s) => before.insert(m[n - 1].0, s),
            _ => before,
        }
    }
}

/// The overhead that a runtime class gives a pod, where it gives any.
pub open spec fn overhead_of(class: JsonView) -> Option<Map<Seq<char>, Seq<char>>> {
    match opt_member(member(class, "overhead"@), "podFixed"@) {
        Some(JsonView::Object(m)) => if text_members(m, m.len()) == Map::<
            Seq<char>,
            Seq<char>,
        >::empty() {
            None
        } else {
            Some(text_members(m, m.len()))
        },
        _ => None,
    }
}

/// The overhead that a runtime class gives a pod.
pub fn runtime_class_overhead(class: &Json) -> (r: Option<StringMap>)
    ensures
        opt_map(r) == overhead_of(class@),
{
    broadcast use lemma_json_view;

    match get_in(class.get("overhead"), "podFixed") {
        Some(Json::Object(m)) => {
            let mut out: StringMap = StringMap::new();
            let mut i: usize = 0;
            while i < m.len()
                invariant
                    i <= m@.len(),
                    out@ == text_members(member_views(m@), i as nat),
                decreases m.len() - i,
            {
                if let Json::Text(s) = &m[i].1 {
                    out.insert(m[i].0.clone(), s.clone());
                }
                i = i + 1;
            }
            if out.is_empty() {
                None
            } else {
                Some(out)
            }
        },
        _ => None,
    }
}

/// What the creation of a pod waits for.
pub enum CreatePhase {
    /// The check for unknown and repeated fields.
    StrictFields,
    /// The check of the metadata.
    ObjectMeta,
    /// The authorizer's answer.
    Authorizing,
    /// The pod with the defaults of its specification.
    Defaulting,
    /// The validation of the pod.
    Validating,
    /// Priority classes.
    Prioritizing(PriorityQuestion),
    /// The pod with its default tolerations.
    Tolerating,
    /// The mutating webhooks.
    Mutating,
    /// The pod with the defaults of its specification once more.
    DefaultingAgain,
    /// The pod with its service account token.
    InjectingToken,
    /// The limit ranges of the namespace.
    LimitRanges,
    /// The security standard of the namespace.
    PodSecurity,
    /// The runtime class that the pod names.
    RuntimeClass(String),
    /// The quota of the namespace.
    Quota,
    /// The validating webhooks.
    Reviewing,
    /// The admission policies.
    Policies,
    /// The pod with identity, creation time and generation.
    Stamping,
    /// The priority class of a pod that has lost its priority.
    PrioritizingAgain(String),
    /// The pod in the store.
    Storing,
    Done,
    Failed(Error),
}

/// An answer to what the creation of a pod waits for.
pub enum CreateReply {
    /// The check was passed.
    Passed,
    Decided(Decision),
    /// What the validation found wrong.
    Validated(Vec<FieldError>),
    /// The pod as it is now.
    Pod(Pod),
    Priority(PriorityAnswer),
    /// What the mutating webhooks say, and the pod that they made, if they did.
    Mutated(Admission, Option<Pod>),
    /// The pod with the defaults of the limit ranges, and whether it keeps
    /// within them, where that could be found out.
    Limited(Pod, Option<bool>),
    /// The runtime class, where it exists.
    RuntimeClass(Option<Json>),
    /// Whether the quota allows the pod, or why that is not known.
    Quota(Result<bool, String>),
    Reviewed(Admission),
    /// Value and preemption policy of the priority class, where it exists.
    Class(Option<(i32, Option<String>)>),
    Error(Error),
}

/// A pod that is being created.
pub struct PodCreation {
    pub pod: Pod,
    pub namespace: String,
    pub dry_run: bool,
    pub phase: CreatePhase,
}

/// Whether a creation goes on with this pod to this phase.
pub open spec fn goes_on(at: PodCreation, next: PodCreation, pod: PodView, phase: CreatePhase) -> bool {
    next.pod@ == pod && next.phase == phase && next.namespace == at.namespace && next.dry_run
        == at.dry_run
}

/// Whether a creation fails with this error.
pub open spec fn fails(next: PodCreation, e: ErrorView) -> bool {
    next.phase matches CreatePhase::Failed(x) && x@ == e
}

/// A pod in its namespace.
pub open spec fn in_namespace(p: PodView, namespace: Seq<char>) -> PodView {
    PodView {
        metadata: ObjectMetaView { namespace: Some(namespace), ..p.metadata },
        ..p
    }
}

/// A pod with another specification.
pub open spec fn with_spec(p: PodView, s: PodSpecView) -> PodView {
    PodView { spec: Some(s), ..p }
}

/// A pod with service links on, unless it says otherwise.
pub open spec fn with_links(p: PodView) -> PodView {
    match p.spec {
        Some(s) => with_spec(
            p,
            PodSpecView {
                enable_service_links: Some(
                    match s.enable_service_links {
                        Some(b) => b,
                        None => true,
                    },
                ),
                ..s
            },
        ),
        None => p,
    }
}

/// What a pod's specification asks of priority classes.
pub open spec fn question_fits(p: PodView, q: PriorityQuestion) -> bool {
    match p.spec->0.priority_class_name {
        Some(n) => if n.len() == 0 {
            q is Nothing
        } else {
            q matches PriorityQuestion::Class(c) && c@ == n
        },
        None => q is AllClasses,
    }
}

/// Whether a creation goes on after validation: past a check of the kernel
/// parameters and the defaults for pods, to the priority, if there is a
/// specification.
pub open spec fn after_validation(at: PodCreation, next: PodCreation) -> bool {
    match at.pod@.spec {
        None => goes_on(at, next, in_namespace(at.pod@, at.namespace@), CreatePhase::Mutating),
        Some(s) => match sysctl_refusal(s.sysctls) {
            Some(e) => fails(next, e),
            None => next.pod@ == with_spec(at.pod@, with_pod_defaults(s)) && (
            next.phase matches CreatePhase::Prioritizing(q) && question_fits(next.pod@, q))
                && next.namespace == at.namespace && next.dry_run == at.dry_run,
        },
    }
}

/// Whether a creation goes on after the security check: to the runtime class,
/// if the pod names one.
pub open spec fn after_security(at: PodCreation, next: PodCreation) -> bool {
    match at.pod@.spec {
        Some(s) => match s.runtime_class_name {
            Some(n) => if n.len() > 0 {
                next.pod@ == at.pod@ && (next.phase matches CreatePhase::RuntimeClass(c) && c@ == n)
                    && next.namespace == at.namespace && next.dry_run == at.dry_run
            } else {
                goes_on(at, next, at.pod@, CreatePhase::Quota)
            },
            None => goes_on(at, next, at.pod@, CreatePhase::Quota),
        },
        None => goes_on(at, next, at.pod@, CreatePhase::Quota),
    }
}

/// Whether a creation finishes with `p`: with its first status it is stored,
/// or in a dry run comes back as it is.
pub open spec fn finishes(at: PodCreation, next: PodCreation, p: PodView) -> bool {
    goes_on(
        at,
        next,
        PodView { status: Some(first_status(p)), ..p },
        if at.dry_run {
            CreatePhase::Done
        } else {
            CreatePhase::Storing
        },
    )
}

/// A specification with the priority of a class that was found late.
pub open spec fn with_late_priority(s: PodSpecView, class: Option<(i32, Option<String>)>) -> PodSpecView {
    match class {
        Some((value, policy)) => PodSpecView {
            priority: Some(value),
            preemption_policy: match s.preemption_policy {
                Some(p) => Some(p),
                None => opt_text(policy),
            },
            ..s
        },
        None => s,
    }
}

/// Whether `next` follows `at` on `reply`. A token that cannot be injected holds
/// nothing up; any other error ends the creation. An answer that was not asked
/// for changes nothing.
pub open spec fn creates(at: PodCreation, reply: CreateReply, next: PodCreation) -> bool {
    match (at.phase, reply) {
        (CreatePhase::Done, _) => next == at,
        (CreatePhase::Failed(e), _) => next == at,
        (CreatePhase::InjectingToken, CreateReply::Error(_)) => goes_on(
            at,
            next,
            at.pod@,
            CreatePhase::LimitRanges,
        ),
        (_, CreateReply::Error(e)) => fails(next, e@),
        (CreatePhase::StrictFields, CreateReply::Passed) => goes_on(
            at,
            next,
            at.pod@,
            CreatePhase::ObjectMeta,
        ),
        (CreatePhase::ObjectMeta, CreateReply::Passed) => goes_on(
            at,
            next,
            at.pod@,
            CreatePhase::Authorizing,
        ),
        (CreatePhase::Authorizing, CreateReply::Decided(d)) => match d {
            Decision::Deny(reason) => fails(next, ErrorView::Forbidden(reason@)),
            Decision::Allow => goes_on(at, next, at.pod@, CreatePhase::Defaulting),
        },
        (CreatePhase::Defaulting, CreateReply::Pod(p)) => goes_on(
            at,
            next,
            p@,
            CreatePhase::Validating,
        ),
        (CreatePhase::Validating, CreateReply::Validated(errs)) => if errs@.len() > 0 {
            fails(next, Error::Invalid(errs)@)
        } else {
            after_validation(at, next)
        },
        (CreatePhase::Prioritizing(q), CreateReply::Priority(answer)) => match at.pod@.spec {
            Some(s) => match priority_refusal(s, answer) {
                Some(e) => fails(next, e),
                None => goes_on(
                    at,
                    next,
                    with_spec(at.pod@, with_priority(s, answer)),
                    CreatePhase::Tolerating,
                ),
            },
            None => next == at,
        },
        (CreatePhase::Tolerating, CreateReply::Pod(p)) => goes_on(
            at,
            next,
            in_namespace(p@, at.namespace@),
            CreatePhase::Mutating,
        ),
        (CreatePhase::Mutating, CreateReply::Mutated(a, changed)) => match a {
            Admission::Deny(reason) => fails(next, ErrorView::Forbidden(reason@)),
            Admission::Allow => goes_on(
                at,
                next,
                match changed {
                    Some(p) => p@,
                    None => at.pod@,
                },
                CreatePhase::DefaultingAgain,
            ),
        },
        (CreatePhase::DefaultingAgain, CreateReply::Pod(p)) => goes_on(
            at,
            next,
            with_links(p@),
            CreatePhase::InjectingToken,
        ),
        (CreatePhase::InjectingToken, CreateReply::Pod(p)) => goes_on(
            at,
            next,
            p@,
            CreatePhase::LimitRanges,
        ),
        (CreatePhase::LimitRanges, CreateReply::Limited(p, within)) => if within == Some(false) {
            fails(next, ErrorView::Forbidden("Pod violates LimitRange constraints"@))
        } else {
            goes_on(at, next, p@, CreatePhase::PodSecurity)
        },
        (CreatePhase::PodSecurity, CreateReply::Passed) => after_security(at, next),
        (CreatePhase::RuntimeClass(name), CreateReply::RuntimeClass(found)) => match opt_json(found) {
            None => fails(
                next,
                ErrorView::Forbidden(
                    "pod "@ + at.pod.metadata.name@ + " references non-existent RuntimeClass \""@
                        + name@ + "\""@,
                ),
            ),
            Some(class) => goes_on(
                at,
                next,
                match (overhead_of(class), at.pod@.spec) {
                    (Some(o), Some(s)) => with_spec(
                        at.pod@,
                        PodSpecView { overhead: Some(o), ..s },
                    ),
                    _ => at.pod@,
                },
                CreatePhase::Quota,
            ),
        },
        (CreatePhase::Quota, CreateReply::Quota(outcome)) => match outcome {
            Ok(true) => goes_on(at, next, at.pod@, CreatePhase::Reviewing),
            Ok(false) => fails(next, ErrorView::Forbidden("exceeded quota"@)),
            Err(e) => fails(next, ErrorView::Internal("error checking ResourceQuota: "@ + e@)),
        },
        (CreatePhase::Reviewing, CreateReply::Reviewed(a)) => match a {
            Admission::Deny(reason) => fails(next, ErrorView::Forbidden(reason@)),
            Admission::Allow => goes_on(at, next, at.pod@, CreatePhase::Policies),
        },
        (CreatePhase::Policies, CreateReply::Passed) => goes_on(
            at,
            next,
            at.pod@,
            CreatePhase::Stamping,
        ),
        (CreatePhase::Stamping, CreateReply::Pod(p)) => if p@.spec is Some && p@.spec->0.priority
            is None && p@.spec->0.priority_class_name is Some {
            next.pod@ == p@ && (next.phase matches CreatePhase::PrioritizingAgain(c) && Some(c@)
                == p@.spec->0.priority_class_name) && next.namespace == at.namespace && next.dry_run
                == at.dry_run
        } else {
            finishes(at, next, p@)
        },
        (CreatePhase::PrioritizingAgain(name), CreateReply::Class(class)) => finishes(
            at,
            next,
            match at.pod@.spec {
                Some(s) => with_spec(at.pod@, with_late_priority(s, class)),
                None => at.pod@,
            },
        ),
        (CreatePhase::Storing, CreateReply::Pod(p)) => goes_on(at, next, p@, CreatePhase::Done),
        _ => next == at,
    }
}

/// Goes on with a pod to a phase.
fn go(pod: Pod, namespace: String, dry_run: bool, phase: CreatePhase) -> (next: PodCreation)
    ensures
        next.pod == pod,
        next.namespace == namespace,
        next.dry_run == dry_run,
        next.phase == phase,
{
    PodCreation { pod, namespace, dry_run, phase }
}

/// Puts a pod into its namespace.
fn put_into_namespace(pod: Pod, namespace: &String) -> (r: Pod)
    ensures
        r@ == in_namespace(pod@, namespace@),
{
    let mut out: Pod = pod;
    out.metadata.namespace = Some(namespace.clone());
    out
}

/// Goes on after validation.
fn validated(pod: Pod, namespace: String, dry_run: bool) -> (next: PodCreation)
    ensures
        forall|at: PodCreation|
            at.pod == pod && at.namespace == namespace && at.dry_run == dry_run
                ==> #[trigger] after_validation(at, next),
{
    let mut out: Pod = pod;
    match out.spec {
        None => {
            let placed: Pod = put_into_namespace(out, &namespace);
            go(placed, namespace, dry_run, CreatePhase::Mutating)
        },
        Some(spec) => {
            if let Err(e) = check_sysctls(&spec.sysctls) {
                out.spec = Some(spec);
                return go(out, namespace, dry_run, CreatePhase::Failed(e));
            }
            let filled: PodSpec = apply_pod_defaults(spec);
            let question: PriorityQuestion = priority_question(&filled);
            out.spec = Some(filled);
            go(out, namespace, dry_run, CreatePhase::Prioritizing(question))
        },
    }
}

/// Finishes with a pod.
fn finish(pod: Pod, namespace: String, dry_run: bool) -> (next: PodCreation)
    ensures
        next.pod@ == (PodView { status: Some(first_status(pod@)), ..pod@ }),
        next.namespace == namespace,
        next.dry_run == dry_run,
        next.phase == if dry_run {
            CreatePhase::Done
        } else {
            CreatePhase::Storing
        },
{
    let out: Pod = set_first_status(pod);
    if dry_run {
        go(out, namespace, dry_run, CreatePhase::Done)
    } else {
        go(out, namespace, dry_run, CreatePhase::Storing)
    }
}

/// Takes one answer into account.
#[verifier::rlimit(40)]
pub fn create_step(at: PodCreation, reply: CreateReply) -> (next: PodCreation)
    ensures
        creates(at, reply, next),
{
    let ghost start = at;
    let PodCreation { pod, namespace, dry_run, phase } = at;
    match phase {
        CreatePhase::Done => {
            return go(pod, namespace, dry_run, CreatePhase::Done);
        },
        CreatePhase::Failed(e) => {
            return go(pod, namespace, dry_run, CreatePhase::Failed(e));
        },
        _ => {},
    }
    match (phase, reply) {
        (CreatePhase::InjectingToken, CreateReply::Error(_)) => go(
            pod,
            namespace,
            dry_run,
            CreatePhase::LimitRanges,
        ),
        (_, CreateReply::Error(e)) => go(pod, namespace, dry_run, CreatePhase::Failed(e)),
        (CreatePhase::StrictFields, CreateReply::Passed) => go(
            pod,
            namespace,
            dry_run,
            CreatePhase::ObjectMeta,
        ),
        (CreatePhase::ObjectMeta, CreateReply::Passed) => go(
            pod,
            namespace,
            dry_run,
            CreatePhase::Authorizing,
        ),
        (CreatePhase::Authorizing, CreateReply::Decided(d)) => match d {
            Decision::Deny(reason) => go(
                pod,
                namespace,
                dry_run,
                CreatePhase::Failed(Error::Forbidden(reason)),
            ),
            Decision::Allow => go(pod, namespace, dry_run, CreatePhase::Defaulting),
        },
        (CreatePhase::Defaulting, CreateReply::Pod(p)) => go(
            p,
            namespace,
            dry_run,
            CreatePhase::Validating,
        ),
        (CreatePhase::Validating, CreateReply::Validated(errs)) => {
            if errs.len() > 0 {
                go(pod, namespace, dry_run, CreatePhase::Failed(Error::Invalid(errs)))
            } else {
                let next: PodCreation = validated(pod, namespace, dry_run);
                assert(after_validation(start, next));
                next
            }
        },
        (CreatePhase::Prioritizing(q), CreateReply::Priority(answer)) => {
            let mut out: Pod = pod;
            match out.spec {
                Some(spec) => match admit_priority(spec, answer) {
                    Ok(s) => {
                        out.spec = Some(s);
                        go(out, namespace, dry_run, CreatePhase::Tolerating)
                    },
                    Err(e) => {
                        out.spec = None;
                        go(out, namespace, dry_run, CreatePhase::Failed(e))
                    },
                },
                None => {
                    out.spec = None;
                    go(out, namespace, dry_run, CreatePhase::Prioritizing(q))
                },
            }
        },
        (CreatePhase::Tolerating, CreateReply::Pod(p)) => {
            let placed: Pod = put_into_namespace(p, &namespace);
            go(placed, namespace, dry_run, CreatePhase::Mutating)
        },
        (CreatePhase::Mutating, CreateReply::Mutated(a, changed)) => match a {
            Admission::Deny(reason) => go(
                pod,
                namespace,
                dry_run,
                CreatePhase::Failed(Error::Forbidden(reason)),
            ),
            Admission::Allow => match changed {
                Some(p) => go(p, namespace, dry_run, CreatePhase::DefaultingAgain),
                None => go(pod, namespace, dry_run, CreatePhase::DefaultingAgain),
            },
        },
        (CreatePhase::DefaultingAgain, CreateReply::Pod(p)) => {
            let mut out: Pod = p;
            match out.spec {
                Some(spec) => {
                    out.spec = Some(default_service_links(spec));
                },
                None => {
                    out.spec = None;
                },
            }
            go(out, namespace, dry_run, CreatePhase::InjectingToken)
        },
        (CreatePhase::InjectingToken, CreateReply::Pod(p)) => go(
            p,
            namespace,
            dry_run,
            CreatePhase::LimitRanges,
        ),
        (CreatePhase::LimitRanges, CreateReply::Limited(p, within)) => {
            let outside: bool = match within {
                Some(ok) => !ok,
                None => false,
            };
            if outside {
                go(
                    p,
                    namespace,
                    dry_run,
                    CreatePhase::Failed(
                        Error::Forbidden("Pod violates LimitRange constraints".to_owned()),
                    ),
                )
            } else {
                go(p, namespace, dry_run, CreatePhase::PodSecurity)
            }
        },
        (CreatePhase::PodSecurity, CreateReply::Passed) => {
            let class: Option<String> = match &pod.spec {
                Some(s) => copy_text(&s.runtime_class_name),
                None => None,
            };
            match class {
                Some(n) => {
                    if n.as_str().is_empty() {
                        go(pod, namespace, dry_run, CreatePhase::Quota)
                    } else {
                        go(pod, namespace, dry_run, CreatePhase::RuntimeClass(n))
                    }
                },
                None => go(pod, namespace, dry_run, CreatePhase::Quota),
            }
        },
        (CreatePhase::RuntimeClass(name), CreateReply::RuntimeClass(found)) => match found {
            None => {
                let mut m: String = "pod ".to_owned();
                m.append(pod.metadata.name.as_str());
                m.append(" references non-existent RuntimeClass \"");
                m.append(name.as_str());
                m.append("\"");
                go(pod, namespace, dry_run, CreatePhase::Failed(Error::Forbidden(m)))
            },
            Some(class) => {
                let mut out: Pod = pod;
                match (runtime_class_overhead(&class), out.spec) {
                    (Some(o), Some(spec)) => {
                        let mut s: PodSpec = spec;
                        s.overhead = Some(o);
                        out.spec = Some(s);
                    },
                    (_, spec) => {
                        out.spec = spec;
                    },
                }
                go(out, namespace, dry_run, CreatePhase::Quota)
            },
        },
        (CreatePhase::Quota, CreateReply::Quota(outcome)) => match outcome {
            Ok(allowed) => {
                if allowed {
                    go(pod, namespace, dry_run, CreatePhase::Reviewing)
                } else {
                    go(
                        pod,
                        namespace,
                        dry_run,
                        CreatePhase::Failed(Error::Forbidden("exceeded quota".to_owned())),
                    )
                }
            },
            Err(e) => {
                let mut m: String = "error checking ResourceQuota: ".to_owned();
                m.append(e.as_str());
                go(pod, namespace, dry_run, CreatePhase::Failed(Error::Internal(m)))
            },
        },
        (CreatePhase::Reviewing, CreateReply::Reviewed(a)) => match a {
            Admission::Deny(reason) => go(
                pod,
                namespace,
                dry_run,
                CreatePhase::Failed(Error::Forbidden(reason)),
            ),
            Admission::Allow => go(pod, namespace, dry_run, CreatePhase::Policies),
        },
        (CreatePhase::Policies, CreateReply::Passed) => go(
            pod,
            namespace,
            dry_run,
            CreatePhase::Stamping,
        ),
        (CreatePhase::Stamping, CreateReply::Pod(p)) => {
            let class: Option<String> = match &p.spec {
                Some(s) => {
                    if s.priority.is_none() {
                        copy_text(&s.priority_class_name)
                    } else {
                        None
                    }
                },
                None => None,
            };
            match class {
                Some(name) => go(p, namespace, dry_run, CreatePhase::PrioritizingAgain(name)),
                None => finish(p, namespace, dry_run),
            }
        },
        (CreatePhase::PrioritizingAgain(_), CreateReply::Class(class)) => {
            let mut out: Pod = pod;
            match (class, out.spec) {
                (Some((value, policy)), Some(spec)) => {
                    let mut s: PodSpec = spec;
                    s.priority = Some(value);
                    if s.preemption_policy.is_none() {
                        s.preemption_policy = policy;
                    }
                    out.spec = Some(s);
                },
                (_, spec) => {
                    out.spec = spec;
                },
            }
            finish(out, namespace, dry_run)
        },
        (CreatePhase::Storing, CreateReply::Pod(p)) => go(p, namespace, dry_run, CreatePhase::Done),
        (other, _) => go(pod, namespace, dry_run, other),
    }
}

/// What the authorizer is asked for the creation of a pod.
pub fn create_attributes(namespace: &str) -> (r: RequestAttributes)
    ensures
        r@ == (AttributesView {
            verb: "create"@,
            resource: "pods"@,
            api_group: ""@,
            namespace: Some(namespace@),
            name: None,
            subresource: None,
        }),
{
    attributes("create", "pods", "", Some(namespace), None, None)
}

/// Starts the creation of a pod whose body was decoded.
pub fn start_creation(pod: Pod, namespace: String, dry_run: bool) -> (at: PodCreation)
    ensures
        at.pod == pod,
        at.namespace == namespace,
        at.dry_run == dry_run,
        at.phase is StrictFields,
{
    go(pod, namespace, dry_run, CreatePhase::StrictFields)
}

/// Whether a creation has got past the authorizer.
pub open spec fn is_permitted(phase: CreatePhase) -> bool {
    !(phase is StrictFields || phase is ObjectMeta || phase is Authorizing || phase is Failed)
}

/// Nothing gets past the authorizer but by its permission.
pub proof fn law_creation_needs_permission(at: PodCreation, reply: CreateReply, next: PodCreation)
    requires
        creates(at, reply, next),
        !is_permitted(at.phase),
        is_permitted(next.phase),
    ensures
        reply == CreateReply::Decided(Decision::Allow),
{
}

/// A dry run never comes to the store.
pub proof fn law_dry_run_stores_nothing(at: PodCreation, reply: CreateReply, next: PodCreation)
    requires
        creates(at, reply, next),
        at.dry_run,
        !(at.phase is Storing),
    ensures
        !(next.phase is Storing),
{
}

/// What comes to the store, or back from a dry run, has a phase and a quality
/// of service that fits its containers.
pub proof fn law_created_pod_has_status(at: PodCreation, reply: CreateReply, next: PodCreation)
    requires
        creates(at, reply, next),
        !(at.phase is Storing),
        !(at.phase is Done),
        next.phase is Storing || next.phase is Done,
    ensures
        next.pod@.status matches Some(s) && s.phase is Some && s.qos_class == Some(
            crate::pod_rules::qos_of(next.pod@.spec),
        ),
{
}

/// A failed creation stays failed.
pub proof fn law_failure_is_final(at: PodCreation, reply: CreateReply, next: PodCreation)
    requires
        creates(at, reply, next),
        at.phase is Failed,
    ensures
        next == at,
{
}

} // verus!
