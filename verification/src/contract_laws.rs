//! What the functions of the library give back, seen by their callers.
use vstd::prelude::*;
use vstd::utf8::encode_utf8;
use crate::access::RequestAttributes;
use crate::change_laws::{deadline, ephemeral_allowed, node};
use crate::collections::StringMap;
use crate::create_laws::{
    claimed, decides, gives_both, gives_resources, law_missing_requests_are_the_limits,
    law_quality_of_service_follows_the_resources, law_sysctl_names, limited, made_like_sysctl,
    requested,
};
use crate::error::Error;
use crate::eviction::{
    compute_pdb_desired_healthy, compute_pdb_disruptions_allowed, compute_pdb_healthy_count,
    compute_pdb_total_count, is_pod_healthy, pod_can_ignore_pdb, pod_matches_pdb_selector,
    DisruptionBudget,
};
use crate::eviction_laws::{
    gives_percentage, law_healthy_pods_are_those_that_run, running_pods, selected_pods,
    selects_pod_of, wants_running,
};
use crate::grant_laws::{
    law_covered_rules_permit_no_more, law_covering_is_by_each_combination,
    law_role_selector_means_its_parts, labelled_with_one_of, lists, lists_nothing, names_request,
    permits, wide_enough,
};
use crate::json::{as_bool, as_int, as_text, member, opt_member, Json, JsonView};
use crate::model::{
    container_views, Container, ObjectMetaView, Phase, Pod, PodSpec, PodSpecView, QosClass,
};
use crate::pod_create::{
    create_attributes, decode_pod_body, is_duplicate_field, runtime_class_overhead, start_creation,
    text_members, PodCreation,
};
use crate::pod_rules::{
    admit_priority, apply_pod_defaults, check_active_deadline, check_ephemeral_containers,
    check_node_name, compute_qos, default_requests, is_valid_sysctl_name, priority_question,
    read_priority_class, set_first_status, PriorityAnswer, PriorityClass, PriorityQuestion,
};
use crate::rbac::{rule_covers, rule_views, rules_cover, PolicyRule};
use crate::resize::{
    after_write, apply_pod_resize, detect_container_resource_change, is_guaranteed_qos,
    merge_container_resources_from, resized, Attempt,
};
use crate::resize_laws::{has_guarantee, names_are_distinct, spec_as_asked};
use crate::roles::{
    escalate_attributes, label_selector_matches, reported_views, resolve_role_ref_rules,
    resource_rules_to_policy_rules, Granting, LabelSelector, ResourceRule, RoleRef, RoleSource,
};
use crate::selector::{
    label_requirements, matches_label_selector, parse_set_requirement, set_values,
    split_label_requirements, SetRequirement,
};
use crate::selector_laws::{
    can_be_written, clause_text, law_all_values_of_a_set_are_read, law_selector_means_its_clauses,
    lemma_clauses_found, lemma_none_of, lemma_one_of, listed, met, selector_from, written, Clause,
    Spaced, Wanted,
};

verus! {

/// Labels match a selector if and only if they meet every clause of it; without
/// a selector everything matches, and nothing without labels matches a clause.
pub proof fn law_labels_match_a_selector(
    labels: Option<StringMap>,
    selector: Option<String>,
    cs: Seq<Clause>,
    r: bool,
)
    requires
        call_ensures(matches_label_selector, (&labels, &selector), r),
        forall|i: int| 0 <= i < cs.len() ==> can_be_written((#[trigger] cs[i]).wanted),
    ensures
        selector is None ==> r,
        selector is Some && selector->0@ == selector_from(cs, 0) && labels is Some ==> (r
            <==> forall|i: int| 0 <= i < cs.len() ==> met((#[trigger] cs[i]).wanted, labels->0@)),
        selector is Some && selector->0@ == selector_from(cs, 0) && labels is None && cs.len() > 0
            ==> !r,
{
    if selector is Some && selector->0@ == selector_from(cs, 0) {
        if labels is Some {
            law_selector_means_its_clauses(cs, labels->0@);
        } else if cs.len() > 0 {
            crate::selector_laws::lemma_clause_closed(cs[0]);
        }
    }
}

/// A selector is cut into its clauses as they are written.
pub proof fn law_selector_is_cut_into_its_clauses(
    selector: &str,
    cs: Seq<Clause>,
    r: Vec<String>,
    i: int,
)
    requires
        call_ensures(split_label_requirements, (selector,), r),
        forall|i: int| 0 <= i < cs.len() ==> can_be_written((#[trigger] cs[i]).wanted),
        selector@ == selector_from(cs, 0),
        0 <= i < cs.len(),
    ensures
        r@.len() == cs.len(),
        r@[i]@ == clause_text(cs[i]),
{
    lemma_clauses_found(selector@, 0, cs, 0);
    let t = crate::text::texts(r@);
    assert(t[i] == r@[i]@);
    assert(label_requirements(selector@)[i] == clause_text(cs[0 + i]));
}

/// A set requirement is read with its key and all of its values, in their
/// order.
pub proof fn law_set_requirement_is_read(
    s: &str,
    key: Seq<char>,
    values: Seq<Spaced>,
    r: Option<SetRequirement>,
    i: int,
)
    requires
        call_ensures(parse_set_requirement, (s,), r),
        can_be_written(Wanted::OneOf(key, values)),
        0 <= i < values.len(),
    ensures
        s@ == written(Wanted::OneOf(key, values)) ==> (r matches Some(SetRequirement::In(k, v))
            && k@ == key && v@.len() == values.len() && v@[i]@ == values[i].text),
        s@ == written(Wanted::NoneOf(key, values)) ==> (r matches Some(SetRequirement::NotIn(k, v))
            && k@ == key && v@.len() == values.len() && v@[i]@ == values[i].text),
{
    law_all_values_of_a_set_are_read(values);
    lemma_one_of(key, values);
    assert(can_be_written(Wanted::NoneOf(key, values)));
    lemma_none_of(key, values);
    let all = set_values(listed(values, 0) + seq![')']);
    match r {
        Some(SetRequirement::In(k, v)) => {
            assert(crate::text::texts(v@)[i] == v@[i]@ || i >= v@.len());
            assert(crate::text::texts(v@).len() == v@.len());
        },
        Some(SetRequirement::NotIn(k, v)) => {
            assert(crate::text::texts(v@)[i] == v@[i]@ || i >= v@.len());
            assert(crate::text::texts(v@).len() == v@.len());
        },
        _ => {},
    }
}

/// Where held rules cover granted ones, every request that the granted rules
/// permit the held ones permit; and where some held rule is wide enough for
/// each thing that the granted ones name, they cover them.
pub proof fn law_covering_rules_permit_what_the_covered_do(
    held: Vec<PolicyRule>,
    granted: Vec<PolicyRule>,
    r: bool,
    verb: Seq<char>,
    group: Seq<char>,
    resource: Seq<char>,
    name: Seq<char>,
)
    requires
        call_ensures(rules_cover, (&held, &granted), r),
    ensures
        r && (exists|i: int|
            0 <= i < granted@.len() && #[trigger] permits(
                granted@[i]@,
                verb,
                group,
                resource,
                name,
            )) ==> exists|k: int|
            0 <= k < held@.len() && #[trigger] permits(held@[k]@, verb, group, resource, name),
        (forall|
            i: int,
            v: Seq<char>,
            g: Seq<char>,
            s: Seq<char>,
            n: Option<Seq<char>>,
        |
            0 <= i < granted@.len() && #[trigger] names_request(granted@[i]@, v, g, s, n)
                ==> exists|k: int|
                0 <= k < held@.len() && #[trigger] wide_enough(held@[k]@, v, g, s, n)) ==> r,
{
    let h = rule_views(held@);
    let w = rule_views(granted@);
    law_covering_is_by_each_combination(h, w);
    if r && (exists|i: int|
        0 <= i < granted@.len() && #[trigger] permits(granted@[i]@, verb, group, resource, name)) {
        let i = choose|i: int|
            0 <= i < granted@.len() && #[trigger] permits(
                granted@[i]@,
                verb,
                group,
                resource,
                name,
            );
        assert(permits(w[i], verb, group, resource, name));
        law_covered_rules_permit_no_more(h, w, verb, group, resource, name);
        let k = choose|k: int|
            0 <= k < h.len() && #[trigger] permits(h[k], verb, group, resource, name);
        assert(permits(held@[k]@, verb, group, resource, name));
    }
    if forall|i: int, v: Seq<char>, g: Seq<char>, s: Seq<char>, n: Option<Seq<char>>|
        0 <= i < granted@.len() && #[trigger] names_request(granted@[i]@, v, g, s, n)
            ==> exists|k: int|
            0 <= k < held@.len() && #[trigger] wide_enough(held@[k]@, v, g, s, n) {
        assert forall|i: int, v: Seq<char>, g: Seq<char>, s: Seq<char>, n: Option<Seq<char>>|
            0 <= i < w.len() && #[trigger] names_request(w[i], v, g, s, n) implies exists|k: int|
            0 <= k < h.len() && #[trigger] wide_enough(h[k], v, g, s, n) by {
            assert(names_request(granted@[i]@, v, g, s, n));
            let k = choose|k: int|
                0 <= k < held@.len() && #[trigger] wide_enough(held@[k]@, v, g, s, n);
            assert(wide_enough(h[k], v, g, s, n));
        }
    }
}

/// A rule that covers another permits whatever the other permits.
pub proof fn law_covering_rule_permits_what_the_covered_does(
    owner: PolicyRule,
    servant: PolicyRule,
    r: bool,
    verb: Seq<char>,
    group: Seq<char>,
    resource: Seq<char>,
    name: Seq<char>,
)
    requires
        call_ensures(rule_covers, (&owner, &servant), r),
        r,
        permits(servant@, verb, group, resource, name),
    ensures
        permits(owner@, verb, group, resource, name),
{
    crate::grant_laws::law_rule_covers_what_it_is_wide_enough_for(owner@, servant@);
    let o = owner@;
    let s = servant@;
    assert(lists(s.api_groups, "*"@) ==> lists(o.api_groups, "*"@));
    assert(lists(s.resources, "*"@) ==> lists(o.resources, "*"@));
    assert(lists(s.api_groups, group) ==> lists(o.api_groups, group) || lists(
        o.api_groups,
        "*"@,
    ));
    assert(lists(s.resources, resource) ==> lists(o.resources, resource) || lists(
        o.resources,
        "*"@,
    ));
    assert(lists(s.resource_names, name) ==> lists(o.resource_names, name) || lists_nothing(
        o.resource_names,
    ));
    if s.verbs.contains("*"@) {
        let i = choose|i: int| 0 <= i < s.verbs.len() && s.verbs[i] == "*"@;
        assert(o.verbs.contains(s.verbs[i]) || o.verbs.contains("*"@));
    }
    if s.verbs.contains(verb) {
        let i = choose|i: int| 0 <= i < s.verbs.len() && s.verbs[i] == verb;
        assert(o.verbs.contains(s.verbs[i]) || o.verbs.contains("*"@));
    }
}

/// The rules that an authorizer reports are compared as they are, one for one.
pub proof fn law_reported_rules_are_taken_over(
    rules: Vec<ResourceRule>,
    out: Vec<PolicyRule>,
    i: int,
)
    requires
        call_ensures(resource_rules_to_policy_rules, (&rules,), out),
        0 <= i < rules@.len(),
    ensures
        out@.len() == rules@.len(),
        out@[i]@ == rules@[i]@,
{
    assert(rule_views(out@).len() == out@.len());
    assert(rule_views(out@)[i] == out@[i]@);
    assert(reported_views(rules@)[i] == rules@[i]@);
}

/// A role's selector matches labels if and only if it asks for something, every
/// label it asks for is there, and every expression holds.
pub proof fn law_role_selector_matches(s: LabelSelector, labels: StringMap, r: bool)
    requires
        call_ensures(label_selector_matches, (&s, &labels), r),
    ensures
        r ==> (s.match_labels is Some ==> forall|k: Seq<char>|
            #[trigger] s.match_labels->0@.dom().contains(k) ==> labels@.dom().contains(k)
                && labels@[k] == s.match_labels->0@[k]),
        r ==> (s.match_expressions is Some ==> forall|i: int|
            0 <= i < s.match_expressions->0@.len() ==> {
                let e = #[trigger] s.match_expressions->0@[i];
                let one = labelled_with_one_of(labels@, e.key@, e.values);
                let there = labels@.dom().contains(e.key@);
                ||| (e.operator@ == "In"@ && one)
                ||| (e.operator@ == "NotIn"@ && !one)
                ||| (e.operator@ == "Exists"@ && there)
                ||| (e.operator@ == "DoesNotExist"@ && !there)
            }),
        s.match_labels is None && s.match_expressions is None ==> !r,
{
    law_role_selector_means_its_parts(s, labels@);
}

/// The rules of a cluster role are found in the cluster, those of a role in the
/// namespace of the binding, and those of anything else nowhere.
pub proof fn law_where_the_rules_of_a_role_are(
    role_ref: RoleRef,
    binding_namespace: &str,
    r: RoleSource,
)
    requires
        call_ensures(resolve_role_ref_rules, (&role_ref, binding_namespace), r),
    ensures
        r is ClusterRole <==> role_ref.kind@ == "ClusterRole"@,
        r is ClusterRole ==> r->ClusterRole_0@ == role_ref.name@,
        r is Role <==> role_ref.kind@ == "Role"@,
        r is Role ==> r->Role_0@ == binding_namespace@ && r->Role_1@ == role_ref.name@,
{
    reveal_strlit("Role");
    reveal_strlit("ClusterRole");
    assert("Role"@.len() != "ClusterRole"@.len());
}

/// The right to escalate is asked for that very role.
pub proof fn law_escalation_is_asked_for_the_role(g: Granting, r: RequestAttributes)
    requires
        call_ensures(escalate_attributes, (&g,), r),
    ensures
        r.verb@ == "escalate"@,
        r.api_group@ == "rbac.authorization.k8s.io"@,
        r.name is Some && r.name->0@ == g.role_ref.name@,
        r.resource@ == if g.role_ref.kind@ == "ClusterRole"@ {
            "clusterroles"@
        } else {
            "roles"@
        },
        r.namespace is Some <==> g.binding_namespace@.len() > 0,
        r.namespace is Some ==> r.namespace->0@ == g.binding_namespace@,
        r.subresource is None,
{
    assert(r@.verb == "escalate"@);
}

/// Defaulting keeps every request of a container, makes a request of each limit
/// for which there is none, and changes nothing else.
pub proof fn law_requests_are_filled_in(
    containers: Vec<Container>,
    r: Vec<Container>,
    i: int,
    key: Seq<char>,
)
    requires
        call_ensures(default_requests, (containers,), r),
        0 <= i < containers@.len(),
    ensures
        r@.len() == containers@.len(),
        r@[i]@.name == containers@[i]@.name,
        limited(r@[i]@, key) == limited(containers@[i]@, key),
        claimed(r@[i]@) == claimed(containers@[i]@),
        requested(r@[i]@, key) == match requested(containers@[i]@, key) {
            Some(v) => Some(v),
            None => limited(containers@[i]@, key),
        },
{
    let before = container_views(containers@);
    let after = container_views(r@);
    law_missing_requests_are_the_limits(before, i, key);
    assert(after.len() == r@.len());
    assert(after[i] == r@[i]@);
    assert(before[i] == containers@[i]@);
}

/// A pod's specification gets the requests of its limits and service links, and
/// nothing else of it changes.
pub proof fn law_pod_defaults(spec: PodSpec, r: PodSpec, i: int, key: Seq<char>)
    requires
        call_ensures(apply_pod_defaults, (spec,), r),
        0 <= i < spec@.containers.len(),
    ensures
        r@ == (PodSpecView {
            containers: r@.containers,
            enable_service_links: r@.enable_service_links,
            ..spec@
        }),
        r@.enable_service_links == if spec@.enable_service_links is Some {
            spec@.enable_service_links
        } else {
            Some(true)
        },
        r@.containers.len() == spec@.containers.len(),
        r@.containers[i].name == spec@.containers[i].name,
        limited(r@.containers[i], key) == limited(spec@.containers[i], key),
        claimed(r@.containers[i]) == claimed(spec@.containers[i]),
        requested(r@.containers[i], key) == match requested(spec@.containers[i], key) {
            Some(v) => Some(v),
            None => limited(spec@.containers[i], key),
        },
{
    law_missing_requests_are_the_limits(spec@.containers, i, key);
}

/// A pod's quality of service follows its containers' resources.
pub proof fn law_quality_of_service(spec: Option<PodSpec>, q: QosClass)
    requires
        call_ensures(compute_qos, (&spec,), q),
    ensures
        spec is None ==> q == QosClass::BestEffort,
        spec is Some ==> {
            let cs = spec->0@.containers;
            &&& q == QosClass::BestEffort <==> forall|i: int|
                0 <= i < cs.len() ==> !gives_resources(#[trigger] cs[i])
            &&& q == QosClass::Guaranteed <==> cs.len() > 0 && forall|i: int|
                0 <= i < cs.len() ==> {
                    let c = #[trigger] cs[i];
                    &&& c.resources is Some
                    &&& gives_both(c.resources->0.limits)
                    &&& gives_both(c.resources->0.requests) ==> c.resources->0.requests
                        == c.resources->0.limits
                }
        },
{
    if spec is Some {
        law_quality_of_service_follows_the_resources(spec->0@);
    } else {
        law_quality_of_service_follows_the_resources(arbitrary());
    }
}

/// The name of a kernel parameter is good if and only if it is made like one
/// and has at most 253 bytes.
pub proof fn law_good_sysctl_names(name: &str, r: bool)
    requires
        call_ensures(is_valid_sysctl_name, (name,), r),
    ensures
        r <==> made_like_sysctl(name@) && encode_utf8(name@).len() <= 253,
{
    law_sysctl_names(name@);
}

/// A pod that is created is pending unless it says otherwise, has its quality
/// of service, and is otherwise as it was.
pub proof fn law_first_status_of_a_pod(pod: Pod, r: Pod)
    requires
        call_ensures(set_first_status, (pod,), r),
    ensures
        r@.metadata == pod@.metadata,
        r@.spec == pod@.spec,
        r@.status is Some,
        pod@.status is Some && pod@.status->0.phase is Some ==> r@.status->0.phase
            == pod@.status->0.phase,
        pod@.status is None || pod@.status->0.phase is None ==> r@.status->0.phase == Some(
            Phase::Pending,
        ),
        pod@.status is Some ==> r@.status->0.resize == pod@.status->0.resize
            && r@.status->0.conditions == pod@.status->0.conditions,
        r@.status->0.qos_class == Some(crate::pod_rules::qos_of(pod@.spec)),
{
}

/// The class that a pod names is looked up, all where it names none, and none
/// where the name is empty.
pub proof fn law_which_priority_classes_are_looked_up(spec: PodSpec, q: PriorityQuestion)
    requires
        call_ensures(priority_question, (&spec,), q),
    ensures
        q is AllClasses <==> spec.priority_class_name is None,
        q is Nothing <==> spec.priority_class_name is Some && spec.priority_class_name->0@.len()
            == 0,
        q is Class ==> Some(q->Class_0) == spec.priority_class_name,
{
}

/// A priority class is read from the fields of these names.
pub proof fn law_priority_class_is_read(j: Json, c: PriorityClass)
    requires
        call_ensures(read_priority_class, (&j,), c),
    ensures
        c.value == as_int(member(j@, "value"@)),
        c.global_default == as_bool(member(j@, "globalDefault"@)),
        ({
            let name = as_text(opt_member(member(j@, "metadata"@), "name"@));
            let policy = as_text(member(j@, "preemptionPolicy"@));
            &&& c.name is Some <==> name is Some
            &&& name is Some ==> c.name->0@ == name->0
            &&& c.preemption_policy is Some <==> policy is Some
            &&& policy is Some ==> c.preemption_policy->0@ == policy->0
        }),
{
}

/// A pod gets the priority of the class that decides it, or is forbidden where
/// it asks for another.
pub proof fn law_priority_is_admitted(
    spec: PodSpec,
    answer: PriorityAnswer,
    r: Result<PodSpec, Error>,
    c: PriorityClass,
)
    requires
        call_ensures(admit_priority, (spec, answer), r),
        answer == PriorityAnswer::Found(c),
        c.value is Some,
        i32::MIN <= c.value->0 <= i32::MAX,
    ensures
        r is Ok <==> spec@.priority is None || spec@.priority->0 == c.value->0,
        r is Ok ==> r->Ok_0@.priority == Some(c.value->0 as i32),
        r is Ok ==> r->Ok_0@.priority_class_name == spec@.priority_class_name,
        r is Ok ==> r->Ok_0@.containers == spec@.containers,
        r is Err ==> r->Err_0@ is Forbidden,
{
    crate::json_laws::law_lower_bits(c.value->0 as int);
}

proof fn lemma_text_members(m: Seq<(Seq<char>, JsonView)>, n: nat, key: Seq<char>)
    requires
        n <= m.len(),
        forall|i: int, k: int| 0 <= i < k < m.len() ==> (#[trigger] m[i]).0 != (#[trigger] m[k]).0,
    ensures
        text_members(m, n).dom().contains(key) <==> exists|i: int|
            0 <= i < n && (#[trigger] m[i]).0 == key && m[i].1 is Text,
        forall|i: int|
            0 <= i < n && (#[trigger] m[i]).0 == key && m[i].1 is Text ==> text_members(m, n)[key]
                == m[i].1->Text_0,
    decreases n,
{
    if n > 0 {
        lemma_text_members(m, (n - 1) as nat, key);
        let last = m[n - 1];
        if exists|i: int| 0 <= i < n - 1 && (#[trigger] m[i]).0 == key && m[i].1 is Text {
            let i = choose|i: int| 0 <= i < n - 1 && (#[trigger] m[i]).0 == key && m[i].1 is Text;
            assert(m[i].0 != m[n - 1].0);
        }
    }
}

/// The overhead of a runtime class is every amount of its `podFixed`.
pub proof fn law_overhead_of_a_runtime_class(
    class: Json,
    r: Option<StringMap>,
    m: Seq<(Seq<char>, JsonView)>,
    key: Seq<char>,
)
    requires
        call_ensures(runtime_class_overhead, (&class,), r),
        opt_member(member(class@, "overhead"@), "podFixed"@) == Some(JsonView::Object(m)),
        forall|i: int, k: int| 0 <= i < k < m.len() ==> (#[trigger] m[i]).0 != (#[trigger] m[k]).0,
    ensures
        (r is Some && r->0@.dom().contains(key)) <==> exists|i: int|
            0 <= i < m.len() && (#[trigger] m[i]).0 == key && m[i].1 is Text,
        forall|i: int|
            0 <= i < m.len() && (#[trigger] m[i]).0 == key && m[i].1 is Text ==> r->0@[key]
                == m[i].1->Text_0,
{
    lemma_text_members(m, m.len(), key);
}

/// A class without an overhead gives none.
pub proof fn law_runtime_class_without_overhead(class: Json, r: Option<StringMap>)
    requires
        call_ensures(runtime_class_overhead, (&class,), r),
        opt_member(member(class@, "overhead"@), "podFixed"@) is None,
    ensures
        r is None,
{
}

/// A body that decodes is taken as it is; one in which a field stands twice is
/// taken as it decodes leniently; any other is a bad request.
pub proof fn law_bodies_are_decoded<T>(
    first: Result<T, String>,
    leniently: Result<T, String>,
    r: Result<T, Error>,
)
    requires
        call_ensures(decode_pod_body::<T>, (first, leniently), r),
    ensures
        first is Ok ==> r == Ok::<T, Error>(first->Ok_0),
        first is Err && is_duplicate_field(first->Err_0@) && leniently is Ok ==> r == Ok::<
            T,
            Error,
        >(leniently->Ok_0),
        first is Err && (!is_duplicate_field(first->Err_0@) || leniently is Err) ==> r is Err
            && r->Err_0@ is BadRequest,
{
}

/// A creation starts with its first check, and nothing of it is decided.
pub proof fn law_creations_start_at_the_beginning(
    pod: Pod,
    namespace: String,
    dry_run: bool,
    at: PodCreation,
)
    requires
        call_ensures(start_creation, (pod, namespace, dry_run), at),
    ensures
        at.phase is StrictFields,
        at.pod == pod,
        at.namespace == namespace,
        at.dry_run == dry_run,
{
}

/// The authorizer is asked whether pods may be created in the namespace.
pub proof fn law_creation_is_asked_for(namespace: &str, r: RequestAttributes)
    requires
        call_ensures(create_attributes, (namespace,), r),
    ensures
        r.verb@ == "create"@,
        r.resource@ == "pods"@,
        r.api_group@.len() == 0,
        r.namespace is Some && r.namespace->0@ == namespace@,
        r.name is None,
        r.subresource is None,
{
    reveal_strlit("");
    assert(r@.verb == "create"@);
}

/// A pod is healthy if and only if it is in phase `Running`.
pub proof fn law_healthy_pods_run(pod: Pod, r: bool)
    requires
        call_ensures(is_pod_healthy, (&pod,), r),
    ensures
        r <==> pod@.status is Some && pod@.status->0.phase == Some(Phase::Running),
{
}

/// No budget protects a pod that is being deleted, has ended or has not
/// started; every other one is protected.
pub proof fn law_unprotected_pods(pod: Pod, r: bool)
    requires
        call_ensures(pod_can_ignore_pdb, (&pod,), r),
    ensures
        r <==> pod@.metadata.deletion_timestamp is Some || (pod@.status is Some && (
        pod@.status->0.phase == Some(Phase::Pending) || pod@.status->0.phase == Some(
            Phase::Succeeded,
        ) || pod@.status->0.phase == Some(Phase::Failed))),
{
}

/// A budget selects a pod if and only if it has labels, all that the budget
/// asks for among them.
pub proof fn law_budget_selects_by_labels(b: DisruptionBudget, pod: Pod, r: bool)
    requires
        call_ensures(pod_matches_pdb_selector, (&pod, &b.match_labels), r),
    ensures
        r == selects_pod_of(b, pod),
{
}

/// The healthy pods of a budget are those it selects that run, the total all it
/// selects.
pub proof fn law_pods_are_counted(
    b: DisruptionBudget,
    pods: Vec<Pod>,
    healthy: i32,
    total: i32,
)
    requires
        call_ensures(compute_pdb_healthy_count, (&b, &pods), healthy),
        call_ensures(compute_pdb_total_count, (&b, &pods), total),
    ensures
        healthy == running_pods(b, pods@).len(),
        total == selected_pods(b, pods@).len(),
{
    law_healthy_pods_are_those_that_run(b, pods@);
}

/// A budget of numbers allows as many disruptions as more of its pods run than
/// it wants to.
pub proof fn law_disruptions_that_a_budget_allows(
    b: DisruptionBudget,
    pods: Vec<Pod>,
    r: i64,
)
    requires
        call_ensures(compute_pdb_disruptions_allowed, (&b, &pods, None), r),
        !gives_percentage(b),
    ensures
        r == running_pods(b, pods@).len() - wants_running(b, selected_pods(b, pods@).len() as int),
{
    law_healthy_pods_are_those_that_run(b, pods@);
}

/// A budget wants the pods that must be available, or all but those that may be
/// missing; of a percentage the share that was worked out counts.
pub proof fn law_pods_that_a_budget_wants(
    b: DisruptionBudget,
    total: i32,
    share: Option<i32>,
    r: i64,
)
    requires
        call_ensures(compute_pdb_desired_healthy, (&b, total, share), r),
    ensures
        b.min_available is Some && b.min_available->0 is Count ==> r
            == b.min_available->0->Count_0,
        b.min_available is Some && b.min_available->0 is Share ==> r == if share is Some {
            share->0 as int
        } else {
            total as int
        },
        b.min_available is None && b.max_unavailable is Some && b.max_unavailable->0 is Count ==> r
            == total - b.max_unavailable->0->Count_0,
        b.min_available is None && b.max_unavailable is Some && b.max_unavailable->0 is Share ==> r
            == if share is Some {
            total - share->0
        } else {
            total as int
        },
        b.min_available is None && b.max_unavailable is None ==> r == total,
{
}

/// Merging gives each container that is named the resources that are asked for,
/// requests, limits and claims alike, and changes nothing else of the pod;
/// it says whether anything changed.
pub proof fn law_resources_are_merged(target: Pod, desired: Pod, r: (Pod, bool))
    requires
        call_ensures(merge_container_resources_from, (target, &desired), r),
        target@.spec is Some,
        desired@.spec is Some,
        names_are_distinct(target@.spec->0),
        names_are_distinct(desired@.spec->0),
    ensures
        r.0@.spec is Some,
        spec_as_asked(target@.spec->0, desired@.spec->0, r.0@.spec->0),
        r.0@.metadata == target@.metadata,
        r.0@.status == target@.status,
        r.1 <==> r.0@.spec != target@.spec,
{
    let b = target@.spec->0;
    let d = desired@.spec->0;
    crate::resize_laws::lemma_as_asked(b.containers, d.containers);
    if b.init_containers is Some && d.init_containers is Some {
        crate::resize_laws::lemma_as_asked(b.init_containers->0, d.init_containers->0);
    }
}

/// A resize gives the pod the resources that are asked for, proposes them, and
/// raises the generation where the specification changes.
pub proof fn law_pod_is_resized(fresh: Pod, desired: Pod, grown: Option<i64>, r: Pod)
    requires
        call_ensures(apply_pod_resize, (fresh, &desired, grown), r),
        fresh@.spec is Some,
        desired@.spec is Some,
        names_are_distinct(fresh@.spec->0),
        names_are_distinct(desired@.spec->0),
    ensures
        r@.spec is Some,
        spec_as_asked(fresh@.spec->0, desired@.spec->0, r@.spec->0),
        r@.metadata == (ObjectMetaView { generation: r@.metadata.generation, ..fresh@.metadata }),
        r@.metadata.generation == if r@.spec != fresh@.spec {
            grown
        } else {
            fresh@.metadata.generation
        },
        r@.status is Some && r@.status->0.resize == Some("Proposed"@),
        fresh@.status is Some ==> r@.status->0.phase == fresh@.status->0.phase
            && r@.status->0.conditions == fresh@.status->0.conditions && r@.status->0.qos_class
            == fresh@.status->0.qos_class,
{
    let b = fresh@.spec->0;
    let d = desired@.spec->0;
    crate::resize_laws::lemma_as_asked(b.containers, d.containers);
    if b.init_containers is Some && d.init_containers is Some {
        crate::resize_laws::lemma_as_asked(b.init_containers->0, d.init_containers->0);
    }
}

/// A change of resources is noticed if and only if there is one.
pub proof fn law_changes_of_resources_are_noticed(before: Pod, after: Pod, r: bool)
    requires
        call_ensures(detect_container_resource_change, (&before, &after), r),
    ensures
        r == resized(before@.spec, after@.spec),
{
}

/// A pod is guaranteed if and only if it has containers, and each has equal
/// requests and limits for CPU and memory.
pub proof fn law_guaranteed_pods(pod: Pod, r: bool)
    requires
        call_ensures(is_guaranteed_qos, (&pod,), r),
    ensures
        r <==> pod@.spec is Some && pod@.spec->0.containers.len() > 0 && forall|i: int|
            0 <= i < pod@.spec->0.containers.len() ==> has_guarantee(
                #[trigger] pod@.spec->0.containers[i],
            ),
{
    if pod@.spec is Some {
        let cs = pod@.spec->0.containers;
        assert forall|i: int| 0 <= i < cs.len() implies has_guarantee(#[trigger] cs[i])
            == crate::resize::requests_equal_limits(cs[i]) by {}
        if r {
            assert forall|i: int| 0 <= i < cs.len() implies has_guarantee(#[trigger] cs[i]) by {
                assert(crate::resize::requests_equal_limits(cs[i]));
            }
        }
    }
}

/// A write that meets a conflict is tried again while there are tries left; any
/// other outcome is final.
pub proof fn law_what_follows_a_write<T>(
    attempt: usize,
    most: usize,
    result: Result<T, Error>,
    r: Attempt<T>,
)
    requires
        call_ensures(after_write::<T>, (attempt, most, result), r),
    ensures
        result is Ok ==> r == Attempt::Done(result->Ok_0),
        result is Err && result->Err_0 is Conflict && attempt + 1 < most ==> r is Again,
        result is Err && (!(result->Err_0 is Conflict) || attempt + 1 >= most) ==> r
            == Attempt::<T>::Failed(result->Err_0),
{
}

/// The number of ephemeral containers may grow under their subresource, and
/// nowhere else changes.
pub proof fn law_ephemeral_containers_are_kept(
    before: Pod,
    after: Pod,
    subresource: bool,
    r: Result<(), Error>,
)
    requires
        call_ensures(check_ephemeral_containers, (&before, &after, subresource), r),
    ensures
        r is Ok <==> ephemeral_allowed(before@, after@, subresource),
        r is Err ==> r->Err_0@ is Forbidden,
{
}

/// A deadline is positive, does not grow, and does not go.
pub proof fn law_deadlines_only_shrink(
    before: Option<i64>,
    after: Option<i64>,
    r: Result<(), Error>,
)
    requires
        call_ensures(check_active_deadline, (before, after), r),
    ensures
        r is Ok <==> match after {
            Some(n) => n > 0 && (before is Some ==> n <= before->0),
            None => before is None,
        },
        r is Err ==> r->Err_0@ is InvalidResource,
{
}

/// A pod that has a node keeps it.
pub proof fn law_pods_keep_their_node(before: Pod, after: Pod, r: Result<(), Error>)
    requires
        call_ensures(check_node_name, (&before, &after), r),
    ensures
        r is Ok <==> (node(before@) is Some ==> node(after@) == node(before@)),
{
    reveal_strlit("");
}

} // verus!
