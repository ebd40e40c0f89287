//! What the creation of a pod makes of it, and what it has passed when it comes
//! to the store.
use vstd::prelude::*;
use vstd::utf8::encode_utf8;
use crate::access::Decision;
use crate::connect::Admission;
use crate::error::ErrorView;
use crate::model::{ContainerView, Phase, PodSpecView, PodView, QosClass};
use crate::pod_create::{creates, overhead_of, CreatePhase, CreateReply, PodCreation};
use crate::pod_rules::{
    all_with_requests, default_class_from, dotted, is_lower_alnum, is_sysctl_name, is_sysctl_part,
    qos_of, sysctl_messages, PriorityAnswer, PriorityClass,
};
use crate::text::{find_char, find_char_from, split_at_char};

verus! {

/// How much of a resource a container requests.
pub open spec fn requested(c: ContainerView, key: Seq<char>) -> Option<Seq<char>> {
    match c.resources {
        Some(r) => match r.requests {
            Some(m) => if m.dom().contains(key) {
                Some(m[key])
            } else {
                None
            },
            None => None,
        },
        None => None,
    }
}

/// How much of a resource a container may use.
pub open spec fn limited(c: ContainerView, key: Seq<char>) -> Option<Seq<char>> {
    match c.resources {
        Some(r) => match r.limits {
            Some(m) => if m.dom().contains(key) {
                Some(m[key])
            } else {
                None
            },
            None => None,
        },
        None => None,
    }
}

/// The claims of a container.
pub open spec fn claimed(c: ContainerView) -> Option<Seq<Seq<char>>> {
    match c.resources {
        Some(r) => r.claims,
        None => None,
    }
}

/// Defaulting keeps every request that a container makes, makes a request of
/// each limit for which it makes none, requests nothing else, and touches
/// neither limits nor claims nor names nor the order of the containers.
pub proof fn law_missing_requests_are_the_limits(cs: Seq<ContainerView>, i: int, key: Seq<char>)
    requires
        0 <= i < cs.len(),
    ensures
        all_with_requests(cs).len() == cs.len(),
        all_with_requests(cs)[i].name == cs[i].name,
        limited(all_with_requests(cs)[i], key) == limited(cs[i], key),
        claimed(all_with_requests(cs)[i]) == claimed(cs[i]),
        requested(cs[i], key) is Some ==> requested(all_with_requests(cs)[i], key) == requested(
            cs[i],
            key,
        ),
        requested(cs[i], key) is None && limited(cs[i], key) is Some ==> requested(
            all_with_requests(cs)[i],
            key,
        ) == limited(cs[i], key),
        requested(cs[i], key) is None && limited(cs[i], key) is None ==> requested(
            all_with_requests(cs)[i],
            key,
        ) is None,
        cs[i].resources is None <==> all_with_requests(cs)[i].resources is None,
{
}

/// A container that limits nothing is left as it is, and defaulting twice is
/// defaulting once.
pub proof fn law_defaulting_requests_again_changes_nothing(cs: Seq<ContainerView>)
    ensures
        all_with_requests(all_with_requests(cs)) == all_with_requests(cs),
        forall|i: int|
            0 <= i < cs.len() && (forall|k: Seq<char>| limited(#[trigger] cs[i], k) is None)
                ==> #[trigger] all_with_requests(cs)[i] == cs[i],
{
    let once = all_with_requests(cs);
    assert forall|i: int| 0 <= i < cs.len() implies #[trigger] all_with_requests(once)[i]
        == once[i] by {
        if cs[i].resources is Some && cs[i].resources->0.limits is Some {
            let r = cs[i].resources->0;
            let l = r.limits->0;
            if r.requests is Some {
                let q = l.union_prefer_right(r.requests->0);
                assert(l.union_prefer_right(q) =~= q);
            } else {
                assert(l.union_prefer_right(l) =~= l);
            }
        }
    }
    assert(all_with_requests(once) =~= once);
    assert forall|i: int|
        0 <= i < cs.len() && (forall|k: Seq<char>|
            limited(#[trigger] cs[i], k) is None) implies #[trigger] all_with_requests(cs)[i]
        == cs[i] by {
        if cs[i].resources is Some && cs[i].resources->0.limits is Some {
            let l = cs[i].resources->0.limits->0;
            assert forall|k: Seq<char>| !l.dom().contains(k) by {
                assert(limited(cs[i], k) is None);
            }
            assert(l =~= Map::<Seq<char>, Seq<char>>::empty());
        }
    }
}

/// A pod that passes validation goes on with its requests filled in from its
/// limits and with service links on, unless it turned them off; all the rest of
/// it stays.
pub proof fn law_valid_pod_gets_its_defaults(
    at: PodCreation,
    reply: CreateReply,
    next: PodCreation,
    i: int,
    key: Seq<char>,
)
    requires
        creates(at, reply, next),
        at.phase is Validating,
        reply is Validated,
        at.pod@.spec is Some,
        !(next.phase is Failed),
        0 <= i < at.pod@.spec->0.containers.len(),
    ensures
        next.phase is Prioritizing,
        next.pod@.metadata == at.pod@.metadata,
        next.pod@.status == at.pod@.status,
        next.pod@.spec is Some,
        ({
            let s = at.pod@.spec->0;
            let t = next.pod@.spec->0;
            &&& t == (PodSpecView {
                containers: t.containers,
                enable_service_links: t.enable_service_links,
                ..s
            })
            &&& s.enable_service_links is Some ==> t.enable_service_links == s.enable_service_links
            &&& s.enable_service_links is None ==> t.enable_service_links == Some(true)
            &&& t.containers.len() == s.containers.len()
            &&& t.containers[i].name == s.containers[i].name
            &&& limited(t.containers[i], key) == limited(s.containers[i], key)
            &&& claimed(t.containers[i]) == claimed(s.containers[i])
            &&& requested(t.containers[i], key) == match requested(s.containers[i], key) {
                Some(v) => Some(v),
                None => limited(s.containers[i], key),
            }
        }),
{
    law_missing_requests_are_the_limits(at.pod@.spec->0.containers, i, key);
}

/// Whether a class decides a pod's priority: the one it names, or the first of
/// all that is the default.
pub open spec fn decides(answer: PriorityAnswer, c: PriorityClass) -> bool {
    match answer {
        PriorityAnswer::Found(f) => f == c,
        PriorityAnswer::All(classes) => exists|i: int|
            0 <= i < classes@.len() && #[trigger] classes@[i] == c && c.global_default == Some(true)
                && forall|j: int|
                0 <= j < i ==> (#[trigger] classes@[j]).global_default != Some(true),
        _ => false,
    }
}

proof fn lemma_default_class(classes: Seq<PriorityClass>, i: int)
    requires
        0 <= i <= classes.len(),
    ensures
        match default_class_from(classes, i) {
            Some(k) => i <= k < classes.len() && classes[k].global_default == Some(true) && forall|
                j: int,
            |
                i <= j < k ==> (#[trigger] classes[j]).global_default != Some(true),
            None => forall|j: int|
                i <= j < classes.len() ==> (#[trigger] classes[j]).global_default != Some(true),
        },
    decreases classes.len() - i,
{
    if i < classes.len() && classes[i].global_default != Some(true) {
        lemma_default_class(classes, i + 1);
    }
}

/// A pod gets the priority of the class that decides it, zero where that has
/// none, and its preemption policy where it has none of its own; a pod that
/// asks for another priority is forbidden. Only a default class gives a name.
pub proof fn law_priority_is_that_of_the_class(
    at: PodCreation,
    answer: PriorityAnswer,
    next: PodCreation,
    c: PriorityClass,
)
    requires
        creates(at, CreateReply::Priority(answer), next),
        at.phase is Prioritizing,
        at.pod@.spec is Some,
        decides(answer, c),
        c.value is Some ==> i32::MIN <= c.value->0 <= i32::MAX,
    ensures
        ({
            let s = at.pod@.spec->0;
            let value: int = if c.value is Some {
                c.value->0 as int
            } else {
                0
            };
            if s.priority is Some && s.priority->0 != value {
                next.phase is Failed && next.phase->Failed_0@ is Forbidden
            } else {
                let t = next.pod@.spec->0;
                &&& next.phase is Tolerating
                &&& next.pod@ == (PodView { spec: Some(t), ..at.pod@ })
                &&& t == (PodSpecView {
                    priority: t.priority,
                    priority_class_name: t.priority_class_name,
                    preemption_policy: t.preemption_policy,
                    ..s
                })
                &&& t.priority == Some(value as i32)
                &&& s.preemption_policy is Some ==> t.preemption_policy == s.preemption_policy
                &&& s.preemption_policy is None && c.preemption_policy is Some
                    ==> t.preemption_policy == Some(c.preemption_policy->0@)
                &&& s.preemption_policy is None && c.preemption_policy is None
                    ==> t.preemption_policy is None
                &&& answer is All && c.name is Some ==> t.priority_class_name == Some(c.name->0@)
                &&& answer is Found || c.name is None ==> t.priority_class_name
                    == s.priority_class_name
            }
        }),
{
    match answer {
        PriorityAnswer::All(classes) => {
            lemma_default_class(classes@, 0);
            let i = choose|i: int|
                0 <= i < classes@.len() && #[trigger] classes@[i] == c && c.global_default == Some(
                    true,
                ) && forall|j: int|
                    0 <= j < i ==> (#[trigger] classes@[j]).global_default != Some(true);
            let k = default_class_from(classes@, 0)->0;
            assert(default_class_from(classes@, 0) is Some) by {
                if default_class_from(classes@, 0) is None {
                    assert(classes@[i].global_default != Some(true));
                }
            }
            if k < i {
                assert(classes@[k].global_default != Some(true));
            }
            if i < k {
                assert(classes@[i].global_default != Some(true));
            }
        },
        _ => {},
    }
    if c.value is Some {
        let n = c.value->0 as int;
        assert(crate::json::low_32_bits(n) == n);
    }
}

/// A value that 32 bits do not hold loses what is above them.
pub proof fn law_priority_is_cut_to_its_lower_bits(c: PriorityClass)
    requires
        c.value is Some,
    ensures
        (c.value->0 as int - crate::pod_rules::class_value(c) as int) % 0x1_0000_0000 == 0,
{
    let n = c.value->0 as int;
    let m = n + 0x8000_0000;
    assert(crate::json::low_32_bits(n) == m % 0x1_0000_0000 - 0x8000_0000);
    assert(0 <= m % 0x1_0000_0000 < 0x1_0000_0000);
    assert(crate::pod_rules::class_value(c) as int == m % 0x1_0000_0000 - 0x8000_0000);
    assert((m - m % 0x1_0000_0000) % 0x1_0000_0000 == 0);
}

/// Without a class that decides, the priority is zero; a class that is named
/// and does not exist forbids the pod.
pub proof fn law_priority_without_a_class(
    at: PodCreation,
    answer: PriorityAnswer,
    next: PodCreation,
)
    requires
        creates(at, CreateReply::Priority(answer), next),
        at.phase is Prioritizing,
        at.pod@.spec is Some,
        forall|c: PriorityClass| !#[trigger] decides(answer, c),
    ensures
        answer is Missing || (at.pod@.spec->0.priority is Some && at.pod@.spec->0.priority->0 != 0)
            ==> next.phase is Failed && next.phase->Failed_0@ is Forbidden,
        !(answer is Missing) && (at.pod@.spec->0.priority is None || at.pod@.spec->0.priority->0
            == 0) ==> next.phase is Tolerating && next.pod@ == (PodView {
            spec: Some(PodSpecView { priority: Some(0i32), ..at.pod@.spec->0 }),
            ..at.pod@
        }),
{
    match answer {
        PriorityAnswer::All(classes) => {
            lemma_default_class(classes@, 0);
            if default_class_from(classes@, 0) is Some {
                let k = default_class_from(classes@, 0)->0;
                assert(decides(answer, classes@[k]));
            }
        },
        PriorityAnswer::Found(c) => {
            assert(decides(answer, c));
        },
        _ => {},
    }
}

/// The class that is looked up is the one the pod names; where it names none,
/// all are, and where the name is empty, none is.
pub proof fn law_priority_question_is_about_the_named_class(
    at: PodCreation,
    reply: CreateReply,
    next: PodCreation,
)
    requires
        creates(at, reply, next),
        at.phase is Validating,
        reply is Validated,
        next.phase is Prioritizing,
    ensures
        at.pod@.spec is Some,
        ({
            let q = next.phase->Prioritizing_0;
            let named = at.pod@.spec->0.priority_class_name;
            &&& named is None <==> q is AllClasses
            &&& named is Some && named->0.len() == 0 <==> q is Nothing
            &&& named is Some && named->0.len() > 0 ==> q is Class && q->Class_0@ == named->0
        }),
{
}

/// Whether both CPU and memory are given.
pub open spec fn gives_both(m: Option<Map<Seq<char>, Seq<char>>>) -> bool {
    match m {
        Some(x) => x.dom().contains("cpu"@) && x.dom().contains("memory"@),
        None => false,
    }
}

/// Whether a container gives both CPU and memory, as limits or as requests.
pub open spec fn gives_resources(c: ContainerView) -> bool {
    match c.resources {
        Some(r) => gives_both(r.limits) || gives_both(r.requests),
        None => false,
    }
}

/// The quality of service of a pod: best effort if and only if no container of
/// it gives CPU and memory; guaranteed if and only if some does, each limits
/// both, and none requests both otherwise than it limits them; else burstable.
pub proof fn law_quality_of_service_follows_the_resources(s: PodSpecView)
    ensures
        qos_of(None) == QosClass::BestEffort,
        qos_of(Some(s)) == QosClass::BestEffort <==> forall|i: int|
            0 <= i < s.containers.len() ==> !gives_resources(#[trigger] s.containers[i]),
        qos_of(Some(s)) == QosClass::Guaranteed <==> s.containers.len() > 0 && forall|i: int|
            0 <= i < s.containers.len() ==> {
                let c = #[trigger] s.containers[i];
                &&& c.resources is Some
                &&& gives_both(c.resources->0.limits)
                &&& gives_both(c.resources->0.requests) ==> c.resources->0.requests
                    == c.resources->0.limits
            },
{
    assert forall|i: int| 0 <= i < s.containers.len() implies gives_resources(
        #[trigger] s.containers[i],
    ) == crate::pod_rules::states_resources(s.containers[i]) by {}
    assert forall|i: int| 0 <= i < s.containers.len() implies crate::pod_rules::is_guaranteed(
        #[trigger] s.containers[i],
    ) == ({
        let c = s.containers[i];
        &&& c.resources is Some
        &&& gives_both(c.resources->0.limits)
        &&& gives_both(c.resources->0.requests) ==> c.resources->0.requests
            == c.resources->0.limits
    }) by {}
    if s.containers.len() > 0 && forall|i: int|
        0 <= i < s.containers.len() ==> {
            let c = #[trigger] s.containers[i];
            &&& c.resources is Some
            &&& gives_both(c.resources->0.limits)
            &&& gives_both(c.resources->0.requests) ==> c.resources->0.requests
                == c.resources->0.limits
        } {
        assert(gives_resources(s.containers[0]));
    }
}

/// Where a phase stands in the order of the phases.
pub open spec fn place(phase: CreatePhase) -> int {
    match phase {
        CreatePhase::Failed(_) => -1,
        CreatePhase::StrictFields => 0,
        CreatePhase::ObjectMeta => 1,
        CreatePhase::Authorizing => 2,
        CreatePhase::Defaulting => 3,
        CreatePhase::Validating => 4,
        CreatePhase::Prioritizing(_) => 5,
        CreatePhase::Tolerating => 6,
        CreatePhase::Mutating => 7,
        CreatePhase::DefaultingAgain => 8,
        CreatePhase::InjectingToken => 9,
        CreatePhase::LimitRanges => 10,
        CreatePhase::PodSecurity => 11,
        CreatePhase::RuntimeClass(_) => 12,
        CreatePhase::Quota => 13,
        CreatePhase::Reviewing => 14,
        CreatePhase::Policies => 15,
        CreatePhase::Stamping => 16,
        CreatePhase::PrioritizingAgain(_) => 17,
        CreatePhase::Storing => 18,
        CreatePhase::Done => 19,
    }
}

/// A creation from its start: the states it goes through, and the answers.
pub open spec fn is_creation(states: Seq<PodCreation>, replies: Seq<CreateReply>) -> bool {
    &&& states.len() == replies.len() + 1
    &&& states[0].phase is StrictFields
    &&& forall|i: int|
        0 <= i < replies.len() ==> creates(states[i], #[trigger] replies[i], states[i + 1])
}

proof fn lemma_crossing(
    states: Seq<PodCreation>,
    replies: Seq<CreateReply>,
    n: int,
    line: int,
) -> (t: int)
    requires
        is_creation(states, replies),
        0 <= n < states.len(),
        0 <= line,
        place(states[n].phase) > line,
    ensures
        0 <= t < n,
        place(states[t].phase) <= line,
        creates(states[t], replies[t], states[t + 1]),
        place(states[t + 1].phase) > line,
    decreases n,
{
    assert(n > 0);
    assert(creates(states[n - 1], replies[n - 1], states[n]));
    if place(states[n - 1].phase) > line {
        lemma_crossing(states, replies, n - 1, line)
    } else {
        n - 1
    }
}

/// Whether an answer lets a pod pass the phase at this place.
pub open spec fn lets_pass(line: int, at: PodCreation, reply: CreateReply) -> bool {
    if line == 0 {
        at.phase is StrictFields && reply is Passed
    } else if line == 1 {
        at.phase is ObjectMeta && reply is Passed
    } else if line == 2 {
        at.phase is Authorizing && reply == CreateReply::Decided(Decision::Allow)
    } else if line == 4 {
        at.phase is Validating && reply is Validated && reply->Validated_0@.len() == 0
    } else if line == 7 {
        at.phase is Mutating && reply is Mutated && reply->Mutated_0 is Allow
    } else if line == 10 {
        at.phase is LimitRanges && reply is Limited && reply->Limited_1 != Some(false)
    } else if line == 11 {
        at.phase is PodSecurity && reply is Passed
    } else if line == 13 {
        at.phase is Quota && reply is Quota && reply->Quota_0 == Ok::<bool, String>(true)
    } else if line == 14 {
        at.phase is Reviewing && reply == CreateReply::Reviewed(Admission::Allow)
    } else if line == 15 {
        at.phase is Policies && reply is Passed
    } else if line == 16 {
        at.phase is Stamping && reply is Pod
    } else if line == 18 {
        at.phase is Storing && reply is Pod || at.dry_run
    } else {
        true
    }
}

proof fn lemma_gate(at: PodCreation, reply: CreateReply, next: PodCreation, line: int)
    requires
        creates(at, reply, next),
        place(at.phase) <= line,
        place(next.phase) > line,
    ensures
        lets_pass(line, at, reply),
{
}

/// What comes to the store, or back from a dry run, has passed every check: the
/// fields and the metadata were found in order, the authorizer allowed it, the
/// validation found nothing wrong, the webhooks let it pass, the limit ranges
/// did not refuse it, it meets the security standard, the quota has room for
/// it, and the policies let it pass.
pub proof fn law_what_is_created_has_passed_every_check(
    states: Seq<PodCreation>,
    replies: Seq<CreateReply>,
    n: int,
)
    requires
        is_creation(states, replies),
        0 <= n < states.len(),
        states[n].phase is Storing || states[n].phase is Done,
    ensures
        exists|t: int|
            0 <= t < n && (#[trigger] states[t]).phase is StrictFields && replies[t] is Passed,
        exists|t: int|
            0 <= t < n && (#[trigger] states[t]).phase is ObjectMeta && replies[t] is Passed,
        exists|t: int|
            0 <= t < n && (#[trigger] states[t]).phase is Authorizing && replies[t]
                == CreateReply::Decided(Decision::Allow),
        exists|t: int|
            0 <= t < n && (#[trigger] states[t]).phase is Validating && replies[t] is Validated
                && replies[t]->Validated_0@.len() == 0,
        exists|t: int|
            0 <= t < n && (#[trigger] states[t]).phase is Mutating && replies[t] is Mutated
                && replies[t]->Mutated_0 is Allow,
        exists|t: int|
            0 <= t < n && (#[trigger] states[t]).phase is LimitRanges && replies[t] is Limited
                && replies[t]->Limited_1 != Some(false),
        exists|t: int|
            0 <= t < n && (#[trigger] states[t]).phase is PodSecurity && replies[t] is Passed,
        exists|t: int|
            0 <= t < n && (#[trigger] states[t]).phase is Quota && replies[t] is Quota
                && replies[t]->Quota_0 == Ok::<bool, String>(true),
        exists|t: int|
            0 <= t < n && (#[trigger] states[t]).phase is Reviewing && replies[t]
                == CreateReply::Reviewed(Admission::Allow),
        exists|t: int|
            0 <= t < n && (#[trigger] states[t]).phase is Policies && replies[t] is Passed,
        exists|t: int|
            0 <= t < n && (#[trigger] states[t]).phase is Stamping && replies[t] is Pod,
        states[n].phase is Storing ==> !states[n].dry_run,
        states[n].phase is Done && !states[n].dry_run ==> exists|t: int|
            0 <= t < n && (#[trigger] states[t]).phase is Storing && replies[t] is Pod,
{
    let t0 = lemma_crossing(states, replies, n, 0);
    lemma_gate(states[t0], replies[t0], states[t0 + 1], 0);
    let t1 = lemma_crossing(states, replies, n, 1);
    lemma_gate(states[t1], replies[t1], states[t1 + 1], 1);
    let t2 = lemma_crossing(states, replies, n, 2);
    lemma_gate(states[t2], replies[t2], states[t2 + 1], 2);
    let t4 = lemma_crossing(states, replies, n, 4);
    lemma_gate(states[t4], replies[t4], states[t4 + 1], 4);
    let t7 = lemma_crossing(states, replies, n, 7);
    lemma_gate(states[t7], replies[t7], states[t7 + 1], 7);
    let t10 = lemma_crossing(states, replies, n, 10);
    lemma_gate(states[t10], replies[t10], states[t10 + 1], 10);
    let t11 = lemma_crossing(states, replies, n, 11);
    lemma_gate(states[t11], replies[t11], states[t11 + 1], 11);
    let t13 = lemma_crossing(states, replies, n, 13);
    lemma_gate(states[t13], replies[t13], states[t13 + 1], 13);
    let t14 = lemma_crossing(states, replies, n, 14);
    lemma_gate(states[t14], replies[t14], states[t14 + 1], 14);
    let t15 = lemma_crossing(states, replies, n, 15);
    lemma_gate(states[t15], replies[t15], states[t15 + 1], 15);
    let t16 = lemma_crossing(states, replies, n, 16);
    lemma_gate(states[t16], replies[t16], states[t16 + 1], 16);
    lemma_dry_run_stays(states, replies, n);
    if states[n].phase is Done {
        let t18 = lemma_crossing(states, replies, n, 18);
        lemma_gate(states[t18], replies[t18], states[t18 + 1], 18);
        lemma_dry_run_stays(states, replies, t18);
    }
}

proof fn lemma_dry_run_stays(states: Seq<PodCreation>, replies: Seq<CreateReply>, n: int)
    requires
        is_creation(states, replies),
        0 <= n < states.len(),
        !(states[n].phase is Failed),
    ensures
        states[n].dry_run == states[0].dry_run,
        states[n].phase is Storing ==> !states[n].dry_run,
    decreases n,
{
    if n > 0 {
        assert(creates(states[n - 1], replies[n - 1], states[n]));
        lemma_dry_run_stays(states, replies, n - 1);
    }
}

/// A check does not change the pod, and no step changes its namespace or
/// whether it is a dry run.
pub proof fn law_checks_change_nothing(at: PodCreation, reply: CreateReply, next: PodCreation)
    requires
        creates(at, reply, next),
        !(next.phase is Failed),
    ensures
        next.namespace == at.namespace,
        next.dry_run == at.dry_run,
        at.phase is StrictFields || at.phase is ObjectMeta || at.phase is Authorizing || at.phase
            is PodSecurity || at.phase is Quota || at.phase is Reviewing || at.phase is Policies
            || at.phase is Done ==> next.pod@ == at.pod@,
{
}

/// Each refusal ends the creation with the error that says so: a denial and an
/// exceeded limit forbid it, errors of the validation are reported as they are,
/// and any other failure is handed on, but a token that could not be injected
/// holds nothing up.
pub proof fn law_refusals_end_the_creation(at: PodCreation, reply: CreateReply, next: PodCreation)
    requires
        creates(at, reply, next),
    ensures
        at.phase is Authorizing && reply is Decided && reply->Decided_0 is Deny ==> next.phase
            is Failed && next.phase->Failed_0@ == ErrorView::Forbidden(
            reply->Decided_0->Deny_0@,
        ),
        at.phase is Validating && reply is Validated && reply->Validated_0@.len() > 0
            ==> next.phase is Failed && next.phase->Failed_0@ == crate::error::Error::Invalid(
            reply->Validated_0,
        )@,
        at.phase is Mutating && reply is Mutated && reply->Mutated_0 is Deny ==> next.phase
            is Failed && next.phase->Failed_0@ == ErrorView::Forbidden(
            reply->Mutated_0->Deny_0@,
        ),
        at.phase is LimitRanges && reply is Limited && reply->Limited_1 == Some(false)
            ==> next.phase is Failed && next.phase->Failed_0@ == ErrorView::Forbidden(
            "Pod violates LimitRange constraints"@,
        ),
        at.phase is RuntimeClass && reply is RuntimeClass && reply->RuntimeClass_0 is None
            ==> next.phase is Failed && next.phase->Failed_0@ is Forbidden,
        at.phase is Quota && reply == CreateReply::Quota(Ok(false)) ==> next.phase is Failed
            && next.phase->Failed_0@ == ErrorView::Forbidden("exceeded quota"@),
        at.phase is Quota && reply is Quota && reply->Quota_0 is Err ==> next.phase is Failed
            && next.phase->Failed_0@ is Internal,
        at.phase is Reviewing && reply is Reviewed && reply->Reviewed_0 is Deny ==> next.phase
            is Failed && next.phase->Failed_0@ == ErrorView::Forbidden(
            reply->Reviewed_0->Deny_0@,
        ),
        reply is Error && !(at.phase is InjectingToken) && !(at.phase is Done) && !(at.phase
            is Failed) ==> next.phase is Failed && next.phase->Failed_0@ == reply->Error_0@,
        reply is Error && at.phase is InjectingToken ==> next.phase is LimitRanges && next.pod@
            == at.pod@,
{
}

/// The pod of the webhooks, the limit ranges and the store is taken as it
/// comes; a pod that is placed gets the namespace of the request and no other
/// change.
pub proof fn law_pods_are_taken_as_they_come(at: PodCreation, reply: CreateReply, next: PodCreation)
    requires
        creates(at, reply, next),
        !(next.phase is Failed),
    ensures
        at.phase is Defaulting && reply is Pod ==> next.phase is Validating && next.pod@
            == reply->Pod_0@,
        at.phase is Tolerating && reply is Pod ==> {
            &&& next.phase is Mutating
            &&& next.pod@.metadata.namespace == Some(at.namespace@)
            &&& next.pod@.metadata.name == reply->Pod_0@.metadata.name
            &&& next.pod@.metadata.labels == reply->Pod_0@.metadata.labels
            &&& next.pod@.spec == reply->Pod_0@.spec
            &&& next.pod@.status == reply->Pod_0@.status
        },
        at.phase is Validating && reply is Validated && at.pod@.spec is None ==> next.phase
            is Mutating && next.pod@.metadata.namespace == Some(at.namespace@) && next.pod@.spec
            is None,
        at.phase is Mutating && reply is Mutated ==> next.phase is DefaultingAgain && next.pod@
            == match reply->Mutated_1 {
            Some(p) => p@,
            None => at.pod@,
        },
        at.phase is DefaultingAgain && reply is Pod ==> {
            let p = reply->Pod_0@;
            &&& next.phase is InjectingToken
            &&& next.pod@.metadata == p.metadata
            &&& next.pod@.status == p.status
            &&& next.pod@.spec is Some <==> p.spec is Some
            &&& p.spec is Some ==> {
                let s = p.spec->0;
                let t = next.pod@.spec->0;
                &&& t == (PodSpecView { enable_service_links: t.enable_service_links, ..s })
                &&& s.enable_service_links is Some ==> t == s
                &&& s.enable_service_links is None ==> t.enable_service_links == Some(true)
            }
        },
        at.phase is InjectingToken && reply is Pod ==> next.phase is LimitRanges && next.pod@
            == reply->Pod_0@,
        at.phase is LimitRanges && reply is Limited ==> next.phase is PodSecurity && next.pod@
            == reply->Limited_0@,
        at.phase is PodSecurity && reply is Passed ==> {
            let named = at.pod@.spec is Some && at.pod@.spec->0.runtime_class_name is Some
                && at.pod@.spec->0.runtime_class_name->0.len() > 0;
            &&& named ==> next.phase is RuntimeClass && Some(next.phase->RuntimeClass_0@)
                == at.pod@.spec->0.runtime_class_name
            &&& !named ==> next.phase is Quota
        },
        at.phase is Storing && reply is Pod ==> next.phase is Done && next.pod@ == reply->Pod_0@,
{
}

/// A pod comes to the store pending, unless it says otherwise, and with its
/// quality of service; a pod that has lost its priority gets that of its class
/// first. All else is as it was stamped.
pub proof fn law_stamped_pod_is_finished(at: PodCreation, reply: CreateReply, next: PodCreation)
    requires
        creates(at, reply, next),
        at.phase is Stamping,
        reply is Pod,
    ensures
        ({
            let p = reply->Pod_0@;
            let late = p.spec is Some && p.spec->0.priority is None
                && p.spec->0.priority_class_name is Some;
            &&& late ==> next.phase is PrioritizingAgain && next.pod@ == p && Some(
                next.phase->PrioritizingAgain_0@,
            ) == p.spec->0.priority_class_name
            &&& !late ==> {
                &&& if at.dry_run {
                    next.phase is Done
                } else {
                    next.phase is Storing
                }
                &&& next.pod@.metadata == p.metadata
                &&& next.pod@.spec == p.spec
                &&& next.pod@.status is Some
                &&& next.pod@.status->0.qos_class == Some(qos_of(p.spec))
                &&& p.status is Some && p.status->0.phase is Some ==> next.pod@.status->0.phase
                    == p.status->0.phase
                &&& p.status is None || p.status->0.phase is None ==> next.pod@.status->0.phase
                    == Some(Phase::Pending)
                &&& p.status is Some ==> next.pod@.status->0.conditions == p.status->0.conditions
                    && next.pod@.status->0.resize == p.status->0.resize
            }
        }),
{
}

/// A pod that had lost its priority gets the value of its class where that
/// exists, and its policy where the pod has none.
pub proof fn law_late_priority_is_that_of_the_class(
    at: PodCreation,
    reply: CreateReply,
    next: PodCreation,
)
    requires
        creates(at, reply, next),
        at.phase is PrioritizingAgain,
        reply is Class,
        at.pod@.spec is Some,
    ensures
        if at.dry_run {
            next.phase is Done
        } else {
            next.phase is Storing
        },
        next.pod@.metadata == at.pod@.metadata,
        next.pod@.spec is Some,
        reply->Class_0 is None ==> next.pod@.spec == at.pod@.spec,
        reply->Class_0 is Some ==> {
            let s = at.pod@.spec->0;
            let t = next.pod@.spec->0;
            let class = reply->Class_0->0;
            &&& t == (PodSpecView {
                priority: t.priority,
                preemption_policy: t.preemption_policy,
                ..s
            })
            &&& t.priority == Some(class.0)
            &&& s.preemption_policy is Some ==> t.preemption_policy == s.preemption_policy
            &&& s.preemption_policy is None && class.1 is Some ==> t.preemption_policy == Some(
                class.1->0@,
            )
            &&& s.preemption_policy is None && class.1 is None ==> t.preemption_policy is None
        },
{
}

/// A lower case letter or a digit.
pub open spec fn small_or_digit(c: char) -> bool {
    'a' <= c <= 'z' || '0' <= c <= '9'
}

/// Whether a text is made like the name of a kernel parameter: of lower case
/// letters, digits, hyphens and underscores in parts between dots or slashes,
/// each of which starts and ends with a letter or digit.
pub open spec fn made_like_sysctl(s: Seq<char>) -> bool {
    &&& s.len() > 0
    &&& small_or_digit(s[0])
    &&& small_or_digit(s[s.len() - 1])
    &&& forall|i: int|
        0 <= i < s.len() ==> small_or_digit(#[trigger] s[i]) || s[i] == '-' || s[i] == '_' || ((
        s[i] == '.' || s[i] == '/') && 0 < i < s.len() - 1 && small_or_digit(s[i - 1])
            && small_or_digit(s[i + 1]))
}

proof fn lemma_first_dot(s: Seq<char>, i: int)
    requires
        0 <= i <= s.len(),
    ensures
        match find_char_from(s, '.', i) {
            Some(k) => i <= k < s.len() && s[k] == '.' && forall|j: int|
                i <= j < k ==> #[trigger] s[j] != '.',
            None => forall|j: int| i <= j < s.len() ==> #[trigger] s[j] != '.',
        },
    decreases s.len() - i,
{
    if i < s.len() && s[i] != '.' {
        lemma_first_dot(s, i + 1);
    }
}

proof fn lemma_parts_by_char(d: Seq<char>)
    requires
        forall|i: int| 0 <= i < d.len() ==> #[trigger] d[i] != '/',
    ensures
        (forall|i: int|
            0 <= i < split_at_char(d, '.').len() ==> is_sysctl_part(
                #[trigger] split_at_char(d, '.')[i],
            )) <==> made_like_sysctl(d),
    decreases d.len(),
{
    let parts = split_at_char(d, '.');
    lemma_first_dot(d, 0);
    match find_char(d, '.') {
        None => {
            assert(parts =~= seq![d]);
            if made_like_sysctl(d) {
                assert(is_sysctl_part(d));
            }
            if forall|i: int| 0 <= i < parts.len() ==> is_sysctl_part(#[trigger] parts[i]) {
                assert(is_sysctl_part(parts[0]));
            }
        },
        Some(k) => {
            let head = d.take(k);
            let rest = d.skip(k + 1);
            let later = split_at_char(rest, '.');
            assert(parts =~= seq![head] + later);
            assert forall|i: int| 0 <= i < rest.len() implies #[trigger] rest[i] != '/' by {
                assert(rest[i] == d[k + 1 + i]);
            }
            lemma_parts_by_char(rest);
            if forall|i: int| 0 <= i < parts.len() ==> is_sysctl_part(#[trigger] parts[i]) {
                assert(is_sysctl_part(parts[0]));
                assert forall|i: int| 0 <= i < later.len() implies is_sysctl_part(
                    #[trigger] later[i],
                ) by {
                    assert(parts[i + 1] == later[i]);
                }
                assert(made_like_sysctl(rest));
                assert(d[k - 1] == head.last());
                assert(d[k + 1] == rest[0]);
                assert(d[0] == head[0]);
                assert(d[d.len() - 1] == rest[rest.len() - 1]);
                assert forall|i: int| 0 <= i < d.len() implies small_or_digit(#[trigger] d[i])
                    || d[i] == '-' || d[i] == '_' || ((d[i] == '.' || d[i] == '/') && 0 < i
                    < d.len() - 1 && small_or_digit(d[i - 1]) && small_or_digit(d[i + 1])) by {
                    if i < k {
                        assert(d[i] == head[i]);
                    } else if i > k {
                        assert(d[i] == rest[i - k - 1]);
                        if d[i] == '.' {
                            assert(d[i - 1] == rest[i - k - 2]);
                            assert(d[i + 1] == rest[i - k]);
                        }
                    }
                }
            }
            if made_like_sysctl(d) {
                assert(small_or_digit(d[k - 1]) && small_or_digit(d[k + 1]));
                assert(is_sysctl_part(head)) by {
                    assert(head.last() == d[k - 1]);
                    assert(head[0] == d[0]);
                    assert forall|i: int| 0 <= i < head.len() implies is_lower_alnum(
                        #[trigger] head[i],
                    ) || head[i] == '-' || head[i] == '_' by {
                        assert(head[i] == d[i]);
                    }
                }
                assert(rest[0] == d[k + 1]);
                assert(rest[rest.len() - 1] == d[d.len() - 1]);
                assert forall|i: int| 0 <= i < rest.len() implies small_or_digit(
                    #[trigger] rest[i],
                ) || rest[i] == '-' || rest[i] == '_' || ((rest[i] == '.' || rest[i] == '/') && 0
                    < i < rest.len() - 1 && small_or_digit(rest[i - 1]) && small_or_digit(
                    rest[i + 1],
                )) by {
                    assert(rest[i] == d[k + 1 + i]);
                    if rest[i] == '.' {
                        if i == 0 {
                            assert(small_or_digit(d[k + 1]));
                        }
                        assert(d[k + 1 + i - 1] == rest[i - 1]);
                        assert(d[k + 1 + i + 1] == rest[i + 1]);
                    }
                }
                assert(made_like_sysctl(rest));
                assert forall|i: int| 0 <= i < parts.len() implies is_sysctl_part(
                    #[trigger] parts[i],
                ) by {
                    if i > 0 {
                        assert(parts[i] == later[i - 1]);
                    } else {
                        assert(parts[0] == head);
                    }
                }
            }
        },
    }
}

/// The name of a kernel parameter is one that is made like it, of at most 253
/// bytes.
pub proof fn law_sysctl_names(s: Seq<char>)
    ensures
        is_sysctl_name(s) <==> made_like_sysctl(s) && encode_utf8(s).len() <= 253,
{
    let d = dotted(s);
    assert forall|i: int| 0 <= i < d.len() implies #[trigger] d[i] != '/' by {}
    lemma_parts_by_char(d);
    if made_like_sysctl(s) {
        assert forall|i: int| 0 <= i < d.len() implies small_or_digit(#[trigger] d[i]) || d[i]
            == '-' || d[i] == '_' || ((d[i] == '.' || d[i] == '/') && 0 < i < d.len() - 1
            && small_or_digit(d[i - 1]) && small_or_digit(d[i + 1])) by {
            assert(small_or_digit(s[i]) || s[i] == '-' || s[i] == '_' || ((s[i] == '.' || s[i]
                == '/') && 0 < i < s.len() - 1 && small_or_digit(s[i - 1]) && small_or_digit(
                s[i + 1],
            )));
        }
        assert(made_like_sysctl(d));
    }
    if made_like_sysctl(d) && s.len() > 0 {
        assert(small_or_digit(d[0]));
        assert forall|i: int| 0 <= i < s.len() implies small_or_digit(#[trigger] s[i]) || s[i]
            == '-' || s[i] == '_' || ((s[i] == '.' || s[i] == '/') && 0 < i < s.len() - 1
            && small_or_digit(s[i - 1]) && small_or_digit(s[i + 1])) by {
            assert(small_or_digit(d[i]) || d[i] == '-' || d[i] == '_' || ((d[i] == '.' || d[i]
                == '/') && 0 < i < d.len() - 1 && small_or_digit(d[i - 1]) && small_or_digit(
                d[i + 1],
            )));
        }
        assert(made_like_sysctl(s));
    }
    if is_sysctl_name(s) {
        assert(made_like_sysctl(d));
    }
}

proof fn lemma_sysctl_messages(names: Seq<Seq<char>>)
    ensures
        sysctl_messages(names).len() == 0 <==> forall|i: int|
            0 <= i < names.len() ==> is_sysctl_name(#[trigger] names[i]),
    decreases names.len(),
{
    if names.len() > 0 {
        let before = names.drop_last();
        lemma_sysctl_messages(before);
        if forall|i: int| 0 <= i < names.len() ==> is_sysctl_name(#[trigger] names[i]) {
            assert forall|i: int| 0 <= i < before.len() implies is_sysctl_name(
                #[trigger] before[i],
            ) by {
                assert(names[i] == before[i]);
            }
        }
        if sysctl_messages(names).len() == 0 {
            assert forall|i: int| 0 <= i < names.len() implies is_sysctl_name(
                #[trigger] names[i],
            ) by {
                if i < before.len() {
                    assert(before[i] == names[i]);
                }
            }
        }
    }
}

/// A valid pod is refused if and only if a kernel parameter that it sets has a
/// name that is none.
pub proof fn law_sysctls_are_checked(at: PodCreation, reply: CreateReply, next: PodCreation)
    requires
        creates(at, reply, next),
        at.phase is Validating,
        reply is Validated,
        reply->Validated_0@.len() == 0,
        at.pod@.spec is Some,
    ensures
        ({
            let names = at.pod@.spec->0.sysctls;
            next.phase is Failed <==> names is Some && exists|i: int|
                0 <= i < names->0.len() && !(made_like_sysctl(#[trigger] names->0[i])
                    && encode_utf8(names->0[i]).len() <= 253)
        }),
        next.phase is Failed ==> next.phase->Failed_0@ is InvalidResource,
{
    let names = at.pod@.spec->0.sysctls;
    if names is Some {
        let all = names->0;
        lemma_sysctl_messages(all);
        assert forall|i: int| 0 <= i < all.len() implies is_sysctl_name(#[trigger] all[i]) == (
        made_like_sysctl(all[i]) && encode_utf8(all[i]).len() <= 253) by {
            law_sysctl_names(all[i]);
        }
    }
}

/// A pod whose runtime class does not exist is told so, and one whose quota
/// could not be checked why.
pub proof fn law_failures_say_what_is_missing(
    at: PodCreation,
    reply: CreateReply,
    next: PodCreation,
)
    requires
        creates(at, reply, next),
    ensures
        at.phase is RuntimeClass && reply is RuntimeClass && reply->RuntimeClass_0 is None
            ==> next.phase is Failed && next.phase->Failed_0@ == ErrorView::Forbidden(
            "pod "@ + at.pod@.metadata.name + " references non-existent RuntimeClass \""@
                + at.phase->RuntimeClass_0@ + "\""@,
        ),
        at.phase is Quota && reply is Quota && reply->Quota_0 is Err ==> next.phase is Failed
            && next.phase->Failed_0@ == ErrorView::Internal(
            "error checking ResourceQuota: "@ + reply->Quota_0->Err_0@,
        ),
{
}

/// A pod that names a runtime class gets its overhead where it has one, and
/// nothing else of it changes.
pub proof fn law_runtime_class_gives_its_overhead(
    at: PodCreation,
    reply: CreateReply,
    next: PodCreation,
)
    requires
        creates(at, reply, next),
        at.phase is RuntimeClass,
        reply is RuntimeClass,
        reply->RuntimeClass_0 is Some,
        at.pod@.spec is Some,
    ensures
        ({
            let o = overhead_of(reply->RuntimeClass_0->0@);
            &&& next.phase is Quota
            &&& o is None ==> next.pod@ == at.pod@
            &&& o is Some ==> next.pod@ == (PodView {
                spec: Some(PodSpecView { overhead: o, ..at.pod@.spec->0 }),
                ..at.pod@
            })
        }),
{
}

/// A creation that is not refused goes on: each answer that lets it pass leads
/// to the next phase.
pub proof fn law_creation_goes_on(at: PodCreation, reply: CreateReply, next: PodCreation)
    requires
        creates(at, reply, next),
    ensures
        at.phase is StrictFields && reply is Passed ==> next.phase is ObjectMeta,
        at.phase is ObjectMeta && reply is Passed ==> next.phase is Authorizing,
        at.phase is Authorizing && reply == CreateReply::Decided(Decision::Allow) ==> next.phase
            is Defaulting,
        at.phase is Defaulting && reply is Pod ==> next.phase is Validating,
        at.phase is Validating && reply is Validated && reply->Validated_0@.len() == 0
            && at.pod@.spec is None ==> next.phase is Mutating,
        at.phase is Tolerating && reply is Pod ==> next.phase is Mutating,
        at.phase is Mutating && reply is Mutated && reply->Mutated_0 is Allow ==> next.phase
            is DefaultingAgain,
        at.phase is DefaultingAgain && reply is Pod ==> next.phase is InjectingToken,
        at.phase is InjectingToken && (reply is Pod || reply is Error) ==> next.phase
            is LimitRanges,
        at.phase is LimitRanges && reply is Limited && reply->Limited_1 != Some(false)
            ==> next.phase is PodSecurity,
        at.phase is PodSecurity && reply is Passed ==> next.phase is RuntimeClass || next.phase
            is Quota,
        at.phase is RuntimeClass && reply is RuntimeClass && reply->RuntimeClass_0 is Some
            ==> next.phase is Quota,
        at.phase is Quota && reply == CreateReply::Quota(Ok(true)) ==> next.phase is Reviewing,
        at.phase is Reviewing && reply == CreateReply::Reviewed(Admission::Allow) ==> next.phase
            is Policies,
        at.phase is Policies && reply is Passed ==> next.phase is Stamping,
        at.phase is Stamping && reply is Pod ==> next.phase is PrioritizingAgain || next.phase
            is Storing || next.phase is Done,
        at.phase is PrioritizingAgain && reply is Class ==> next.phase is Storing || next.phase
            is Done,
        at.phase is Storing && reply is Pod ==> next.phase is Done,
{
}

/// An answer that a creation does not wait for changes nothing, but an error,
/// which ends it.
pub proof fn law_other_answers_change_nothing(
    at: PodCreation,
    reply: CreateReply,
    next: PodCreation,
)
    requires
        creates(at, reply, next),
        !(reply is Error),
        match at.phase {
            CreatePhase::StrictFields => !(reply is Passed),
            CreatePhase::ObjectMeta => !(reply is Passed),
            CreatePhase::Authorizing => !(reply is Decided),
            CreatePhase::Defaulting => !(reply is Pod),
            CreatePhase::Validating => !(reply is Validated),
            CreatePhase::Prioritizing(_) => !(reply is Priority),
            CreatePhase::Tolerating => !(reply is Pod),
            CreatePhase::Mutating => !(reply is Mutated),
            CreatePhase::DefaultingAgain => !(reply is Pod),
            CreatePhase::InjectingToken => !(reply is Pod),
            CreatePhase::LimitRanges => !(reply is Limited),
            CreatePhase::PodSecurity => !(reply is Passed),
            CreatePhase::RuntimeClass(_) => !(reply is RuntimeClass),
            CreatePhase::Quota => !(reply is Quota),
            CreatePhase::Reviewing => !(reply is Reviewed),
            CreatePhase::Policies => !(reply is Passed),
            CreatePhase::Stamping => !(reply is Pod),
            CreatePhase::PrioritizingAgain(_) => !(reply is Class),
            CreatePhase::Storing => !(reply is Pod),
            CreatePhase::Done => true,
            CreatePhase::Failed(_) => true,
        },
    ensures
        next == at,
{
}

} // verus!
