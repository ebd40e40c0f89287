//! What roles give away: no binding permits a request that its maker was not
//! permitted.
use vstd::prelude::*;
use crate::access::Decision;
use crate::rbac::{
    all_covered, atom, atom_parts, atoms, combines, covered_by_one, covers, is_atom_of,
    law_atoms_are_the_combinations, rule_is_covered, rule_views, PolicyRule, RuleView,
};
use crate::roles::{
    escalate_question, escalates, gathered, law_gathered_rules_come_from_the_selected,
    materialised, reported_views, selector_selects, with_rules, ClusterRole, Escalation,
    EscalationReply, Granting, LabelRequirement, LabelSelector, ResourceRule,
};

verus! {

/// Whether a list that may be missing holds a text.
pub open spec fn lists(axis: Option<Seq<Seq<char>>>, x: Seq<char>) -> bool {
    match axis {
        Some(l) => l.contains(x),
        None => false,
    }
}

/// Whether a list that may be missing holds nothing.
pub open spec fn lists_nothing(axis: Option<Seq<Seq<char>>>) -> bool {
    match axis {
        Some(l) => l.len() == 0,
        None => true,
    }
}

/// Whether a rule permits a request: a star stands for every verb, group or
/// resource, nothing else stands for another, and a rule without names is for
/// every name.
pub open spec fn permits(
    rule: RuleView,
    verb: Seq<char>,
    group: Seq<char>,
    resource: Seq<char>,
    name: Seq<char>,
) -> bool {
    &&& rule.verbs.contains("*"@) || rule.verbs.contains(verb)
    &&& lists(rule.api_groups, "*"@) || lists(rule.api_groups, group)
    &&& lists(rule.resources, "*"@) || lists(rule.resources, resource)
    &&& lists_nothing(rule.resource_names) || lists(rule.resource_names, name)
}

/// Whether a rule names this verb, group and resource, and this name or, for
/// `None`, no name.
pub open spec fn names_request(
    rule: RuleView,
    verb: Seq<char>,
    group: Seq<char>,
    resource: Seq<char>,
    name: Option<Seq<char>>,
) -> bool {
    &&& rule.verbs.contains(verb)
    &&& lists(rule.api_groups, group)
    &&& lists(rule.resources, resource)
    &&& match name {
        Some(n) => lists(rule.resource_names, n),
        None => lists_nothing(rule.resource_names),
    }
}

/// Whether a rule is wide enough for this verb, group, resource and name; for
/// `None`, for every name.
pub open spec fn wide_enough(
    rule: RuleView,
    verb: Seq<char>,
    group: Seq<char>,
    resource: Seq<char>,
    name: Option<Seq<char>>,
) -> bool {
    &&& rule.verbs.contains("*"@) || rule.verbs.contains(verb)
    &&& lists(rule.api_groups, "*"@) || lists(rule.api_groups, group)
    &&& lists(rule.resources, "*"@) || lists(rule.resources, resource)
    &&& lists_nothing(rule.resource_names) || match name {
        Some(n) => lists(rule.resource_names, n),
        None => false,
    }
}

proof fn lemma_covers_atom(
    owner: RuleView,
    verb: Seq<char>,
    group: Seq<char>,
    resource: Seq<char>,
    name: Option<Seq<char>>,
)
    ensures
        covers(owner, atom(verb, group, resource, name)) == wide_enough(
            owner,
            verb,
            group,
            resource,
            name,
        ),
{
    let a = atom(verb, group, resource, name);
    assert(a.verbs[0] == verb);
    assert(a.api_groups->0[0] == group);
    assert(a.resources->0[0] == resource);
    match name {
        Some(n) => {
            assert(a.resource_names->0[0] == n);
        },
        None => {},
    }
}

/// One rule covers a rule of one verb, group and resource if and only if it is
/// wide enough for them.
pub proof fn law_rule_covers_what_it_is_wide_enough_for(owner: RuleView, servant: RuleView)
    ensures
        covers(owner, servant) <==> {
            &&& owner.verbs.contains("*"@) || forall|i: int|
                0 <= i < servant.verbs.len() ==> owner.verbs.contains(#[trigger] servant.verbs[i])
            &&& lists(owner.api_groups, "*"@) || forall|g: Seq<char>|
                #[trigger] lists(servant.api_groups, g) ==> lists(owner.api_groups, g)
            &&& lists(owner.resources, "*"@) || forall|r: Seq<char>|
                #[trigger] lists(servant.resources, r) ==> lists(owner.resources, r)
            &&& lists_nothing(owner.resource_names) || (!lists_nothing(servant.resource_names)
                && forall|n: Seq<char>|
                #[trigger] lists(servant.resource_names, n) ==> lists(owner.resource_names, n))
        },
{
    lemma_axis(owner.api_groups, servant.api_groups);
    lemma_axis(owner.resources, servant.resources);
    lemma_axis(owner.resource_names, servant.resource_names);
}

proof fn lemma_axis(owner: Option<Seq<Seq<char>>>, servant: Option<Seq<Seq<char>>>)
    ensures
        crate::rbac::contains_all(crate::rbac::or_empty(owner), crate::rbac::or_empty(servant))
            <==> forall|x: Seq<char>| #[trigger] lists(servant, x) ==> lists(owner, x),
{
    let o = crate::rbac::or_empty(owner);
    let s = crate::rbac::or_empty(servant);
    if crate::rbac::contains_all(o, s) {
        assert forall|x: Seq<char>| #[trigger] lists(servant, x) implies lists(owner, x) by {
            let i = choose|i: int| 0 <= i < s.len() && s[i] == x;
            assert(o.contains(s[i]));
        }
    }
    if forall|x: Seq<char>| #[trigger] lists(servant, x) ==> lists(owner, x) {
        assert forall|i: int| 0 <= i < s.len() implies o.contains(#[trigger] s[i]) by {
            assert(lists(servant, s[i]));
        }
    }
}

/// Held rules cover granted ones if and only if for each verb, group, resource
/// and name that a granted rule names some held rule is wide enough for all
/// four.
pub proof fn law_covering_is_by_each_combination(held: Seq<RuleView>, granted: Seq<RuleView>)
    ensures
        all_covered(held, granted) <==> forall|
            i: int,
            verb: Seq<char>,
            group: Seq<char>,
            resource: Seq<char>,
            name: Option<Seq<char>>,
        |
            0 <= i < granted.len() && #[trigger] names_request(
                granted[i],
                verb,
                group,
                resource,
                name,
            ) ==> exists|k: int|
                0 <= k < held.len() && #[trigger] wide_enough(
                    held[k],
                    verb,
                    group,
                    resource,
                    name,
                ),
{
    if all_covered(held, granted) {
        assert forall|
            i: int,
            verb: Seq<char>,
            group: Seq<char>,
            resource: Seq<char>,
            name: Option<Seq<char>>,
        |
            0 <= i < granted.len() && #[trigger] names_request(
                granted[i],
                verb,
                group,
                resource,
                name,
            ) implies exists|k: int|
            0 <= k < held.len() && #[trigger] wide_enough(
                held[k],
                verb,
                group,
                resource,
                name,
            ) by {
            lemma_combination_covered(held, granted, i, verb, group, resource, name);
        }
    }
    if forall|
        i: int,
        verb: Seq<char>,
        group: Seq<char>,
        resource: Seq<char>,
        name: Option<Seq<char>>,
    |
        0 <= i < granted.len() && #[trigger] names_request(
            granted[i],
            verb,
            group,
            resource,
            name,
        ) ==> exists|k: int|
            0 <= k < held.len() && #[trigger] wide_enough(held[k], verb, group, resource, name) {
        assert forall|i: int| 0 <= i < granted.len() implies rule_is_covered(
            held,
            #[trigger] granted[i],
        ) by {
            let rule = granted[i];
            assert forall|j: int| 0 <= j < atoms(rule).len() implies covered_by_one(
                held,
                #[trigger] atoms(rule)[j],
            ) by {
                let a = atoms(rule)[j];
                law_atoms_are_the_combinations(rule, a);
                let (verb, group, resource, name) = atom_parts(a);
                assert(names_request(granted[i], verb, group, resource, name));
                let k = choose|k: int|
                    0 <= k < held.len() && #[trigger] wide_enough(
                        held[k],
                        verb,
                        group,
                        resource,
                        name,
                    );
                lemma_covers_atom(held[k], verb, group, resource, name);
                assert(covers(held[k], a));
            }
        }
    }
}

proof fn lemma_combination_covered(
    held: Seq<RuleView>,
    granted: Seq<RuleView>,
    i: int,
    verb: Seq<char>,
    group: Seq<char>,
    resource: Seq<char>,
    name: Option<Seq<char>>,
)
    requires
        all_covered(held, granted),
        0 <= i < granted.len(),
        names_request(granted[i], verb, group, resource, name),
    ensures
        exists|k: int|
            0 <= k < held.len() && #[trigger] wide_enough(held[k], verb, group, resource, name),
{
    let rule = granted[i];
    let a = atom(verb, group, resource, name);
    assert(a.verbs[0] == verb);
    assert(a.api_groups->0[0] == group);
    assert(a.resources->0[0] == resource);
    assert(combines(rule, verb, group, resource, name));
    assert(is_atom_of(rule, a)) by {
        match name {
            Some(n) => {
                assert(a.resource_names->0[0] == n);
            },
            None => {},
        }
    }
    law_atoms_are_the_combinations(rule, a);
    assert(rule_is_covered(held, rule));
    let j = choose|j: int| 0 <= j < atoms(rule).len() && atoms(rule)[j] == a;
    assert(covered_by_one(held, atoms(rule)[j]));
    let k = choose|k: int| 0 <= k < held.len() && covers(#[trigger] held[k], a);
    lemma_covers_atom(held[k], verb, group, resource, name);
}

/// Whether one of the rules permits a request.
pub open spec fn permitted(
    rules: Seq<RuleView>,
    verb: Seq<char>,
    group: Seq<char>,
    resource: Seq<char>,
    name: Seq<char>,
) -> bool {
    exists|i: int|
        0 <= i < rules.len() && #[trigger] permits(rules[i], verb, group, resource, name)
}

/// What covered rules permit, the rules that cover them permit.
pub proof fn law_covered_rules_permit_no_more(
    held: Seq<RuleView>,
    granted: Seq<RuleView>,
    verb: Seq<char>,
    group: Seq<char>,
    resource: Seq<char>,
    name: Seq<char>,
)
    requires
        all_covered(held, granted),
        permitted(granted, verb, group, resource, name),
    ensures
        permitted(held, verb, group, resource, name),
{
    let i = choose|i: int|
        0 <= i < granted.len() && #[trigger] permits(granted[i], verb, group, resource, name);
    let rule = granted[i];
    let v = if rule.verbs.contains(verb) {
        verb
    } else {
        "*"@
    };
    let g = if lists(rule.api_groups, group) {
        group
    } else {
        "*"@
    };
    let r = if lists(rule.resources, resource) {
        resource
    } else {
        "*"@
    };
    let n = if lists_nothing(rule.resource_names) {
        None
    } else {
        Some(name)
    };
    assert(names_request(granted[i], v, g, r, n));
    lemma_combination_covered(held, granted, i, v, g, r, n);
    let k = choose|k: int| 0 <= k < held.len() && #[trigger] wide_enough(held[k], v, g, r, n);
    assert(permits(held[k], verb, group, resource, name));
}

/// A binding that is confirmed on what its maker holds permits no request that
/// the maker was not permitted.
pub proof fn law_confirmed_binding_permits_no_more(
    g: Granting,
    granted: Vec<PolicyRule>,
    held: Vec<ResourceRule>,
    next: Escalation,
    verb: Seq<char>,
    group: Seq<char>,
    resource: Seq<char>,
    name: Seq<char>,
)
    requires
        escalates(g, Escalation::AskHeld { granted }, EscalationReply::Held(held), next),
        next is Confirmed,
        exists|i: int|
            0 <= i < granted@.len() && #[trigger] permits(
                granted@[i]@,
                verb,
                group,
                resource,
                name,
            ),
    ensures
        exists|k: int|
            0 <= k < held@.len() && #[trigger] permits(held@[k]@, verb, group, resource, name),
{
    let h = reported_views(held@);
    let r = rule_views(granted@);
    let i = choose|i: int|
        0 <= i < granted@.len() && #[trigger] permits(granted@[i]@, verb, group, resource, name);
    assert(permits(r[i], verb, group, resource, name));
    law_covered_rules_permit_no_more(h, r, verb, group, resource, name);
    let k = choose|k: int|
        0 <= k < h.len() && #[trigger] permits(h[k], verb, group, resource, name);
    assert(permits(held@[k]@, verb, group, resource, name));
}

/// A binding needs no more than that its maker holds a rule that is wide enough
/// for each thing that the role names; short of that, the right to escalate is
/// asked for.
pub proof fn law_binding_asks_to_escalate_only_beyond_what_is_held(
    g: Granting,
    granted: Vec<PolicyRule>,
    held: Vec<ResourceRule>,
    next: Escalation,
)
    requires
        escalates(g, Escalation::AskHeld { granted }, EscalationReply::Held(held), next),
    ensures
        next is Confirmed || next is AskEscalate,
        next is Confirmed <==> forall|
            i: int,
            verb: Seq<char>,
            group: Seq<char>,
            resource: Seq<char>,
            name: Option<Seq<char>>,
        |
            0 <= i < granted@.len() && #[trigger] names_request(
                granted@[i]@,
                verb,
                group,
                resource,
                name,
            ) ==> exists|k: int|
                0 <= k < held@.len() && #[trigger] wide_enough(
                    held@[k]@,
                    verb,
                    group,
                    resource,
                    name,
                ),
{
    let h = reported_views(held@);
    let r = rule_views(granted@);
    law_covering_is_by_each_combination(h, r);
    if next is Confirmed {
        assert forall|
            i: int,
            verb: Seq<char>,
            group: Seq<char>,
            resource: Seq<char>,
            name: Option<Seq<char>>,
        |
            0 <= i < granted@.len() && #[trigger] names_request(
                granted@[i]@,
                verb,
                group,
                resource,
                name,
            ) implies exists|k: int|
            0 <= k < held@.len() && #[trigger] wide_enough(
                held@[k]@,
                verb,
                group,
                resource,
                name,
            ) by {
            assert(names_request(r[i], verb, group, resource, name));
            let k = choose|k: int|
                0 <= k < h.len() && #[trigger] wide_enough(h[k], verb, group, resource, name);
            assert(wide_enough(held@[k]@, verb, group, resource, name));
        }
    } else if forall|
        i: int,
        verb: Seq<char>,
        group: Seq<char>,
        resource: Seq<char>,
        name: Option<Seq<char>>,
    |
        0 <= i < granted@.len() && #[trigger] names_request(
            granted@[i]@,
            verb,
            group,
            resource,
            name,
        ) ==> exists|k: int|
            0 <= k < held@.len() && #[trigger] wide_enough(
                held@[k]@,
                verb,
                group,
                resource,
                name,
            ) {
        assert forall|
            i: int,
            verb: Seq<char>,
            group: Seq<char>,
            resource: Seq<char>,
            name: Option<Seq<char>>,
        |
            0 <= i < r.len() && #[trigger] names_request(
                r[i],
                verb,
                group,
                resource,
                name,
            ) implies exists|k: int|
            0 <= k < h.len() && #[trigger] wide_enough(h[k], verb, group, resource, name) by {
            assert(names_request(granted@[i]@, verb, group, resource, name));
            let k = choose|k: int|
                0 <= k < held@.len() && #[trigger] wide_enough(
                    held@[k]@,
                    verb,
                    group,
                    resource,
                    name,
                );
            assert(wide_enough(h[k], verb, group, resource, name));
        }
    }
}

/// The right to escalate decides the rest: with it the binding is confirmed,
/// without it forbidden, and a failure to find out refuses it with that
/// failure.
pub proof fn law_right_to_escalate_decides(
    g: Granting,
    at: Escalation,
    reply: EscalationReply,
    next: Escalation,
)
    requires
        escalates(g, at, reply, next),
    ensures
        at is AskEscalate && reply == EscalationReply::Answer(Decision::Allow) ==> next
            is Confirmed,
        at is AskEscalate && reply is Answer && reply->Answer_0 is Deny ==> next is Refused
            && next->Refused_0@ is Forbidden,
        (at is AskEscalate || at is AskHeld) && reply is Failed ==> next == Escalation::Refused(
            reply->Failed_0,
        ),
        at is FetchRole && reply is Role ==> (next is Confirmed <==> reply->Role_0@.len() == 0)
            && (reply->Role_0@.len() > 0 ==> next == (Escalation::AskHeld {
            granted: reply->Role_0,
        })),
        at is Confirmed || at is Refused ==> next == at,
{
}

/// The question is whether the caller may escalate that very role, cluster-wide
/// where the binding has no namespace.
pub proof fn law_escalate_question_is_about_the_role(g: Granting)
    ensures
        escalate_question(g).verb == "escalate"@,
        escalate_question(g).api_group == "rbac.authorization.k8s.io"@,
        escalate_question(g).resource == "clusterroles"@ <==> g.role_ref.kind@ == "ClusterRole"@,
        escalate_question(g).resource != "clusterroles"@ ==> escalate_question(g).resource
            == "roles"@,
        escalate_question(g).name == Some(g.role_ref.name@),
        escalate_question(g).subresource is None,
        escalate_question(g).namespace is None <==> g.binding_namespace@.len() == 0,
        escalate_question(g).namespace is Some ==> escalate_question(g).namespace->0
            == g.binding_namespace@,
{
    reveal_strlit("roles");
    reveal_strlit("clusterroles");
    assert("roles"@.len() != "clusterroles"@.len());
}

/// A check from its start: the states it goes through, and what was found out.
pub open spec fn is_check(
    g: Granting,
    states: Seq<Escalation>,
    replies: Seq<EscalationReply>,
) -> bool {
    &&& states.len() == replies.len() + 1
    &&& states[0] is FetchRole
    &&& forall|i: int|
        0 <= i < replies.len() ==> escalates(g, states[i], #[trigger] replies[i], states[i + 1])
}

proof fn lemma_check_asks_about_the_role(
    g: Granting,
    states: Seq<Escalation>,
    replies: Seq<EscalationReply>,
    n: int,
)
    requires
        is_check(g, states, replies),
        0 <= n < states.len(),
        states[n] is AskHeld,
    ensures
        exists|t: int|
            0 <= t < n && #[trigger] replies[t] == EscalationReply::Role(states[n]->granted),
    decreases n,
{
    if n > 0 {
        assert(escalates(g, states[n - 1], replies[n - 1], states[n]));
        if states[n - 1] is AskHeld {
            lemma_check_asks_about_the_role(g, states, replies, n - 1);
        } else {
            assert(replies[n - 1] == EscalationReply::Role(states[n]->granted));
        }
    }
}

/// Nobody gains by a binding: where a check ends with a yes, the role has no
/// rules, or the caller may escalate, or whatever the rules of the role permit
/// the rules that the caller holds permit.
pub proof fn law_nobody_gains_by_a_binding(
    g: Granting,
    states: Seq<Escalation>,
    replies: Seq<EscalationReply>,
)
    requires
        is_check(g, states, replies),
        states.last() is Confirmed,
    ensures
        exists|t: int|
            0 <= t < replies.len() && {
                ||| #[trigger] replies[t] == EscalationReply::Answer(Decision::Allow)
                ||| (replies[t] is Role && replies[t]->Role_0@.len() == 0)
                ||| exists|u: int|
                    #![trigger replies[u]]
                    t < u < replies.len() && replies[t] is Role && replies[u] is Held && forall|
                        verb: Seq<char>,
                        group: Seq<char>,
                        resource: Seq<char>,
                        name: Seq<char>,
                    |
                        #[trigger] permitted(
                            rule_views(replies[t]->Role_0@),
                            verb,
                            group,
                            resource,
                            name,
                        ) ==> permitted(
                            reported_views(replies[u]->Held_0@),
                            verb,
                            group,
                            resource,
                            name,
                        )
            },
    decreases replies.len(),
{
    let n = replies.len() as int;
    assert(n > 0);
    assert(escalates(g, states[n - 1], replies[n - 1], states[n]));
    if states[n - 1] is Confirmed {
        let s = states.drop_last();
        let r = replies.drop_last();
        assert forall|i: int| 0 <= i < r.len() implies escalates(
            g,
            s[i],
            #[trigger] r[i],
            s[i + 1],
        ) by {
            assert(escalates(g, states[i], replies[i], states[i + 1]));
        }
        assert(s[0] == states[0]);
        law_nobody_gains_by_a_binding(g, s, r);
        let t = choose|t: int|
            0 <= t < r.len() && {
                ||| #[trigger] r[t] == EscalationReply::Answer(Decision::Allow)
                ||| (r[t] is Role && r[t]->Role_0@.len() == 0)
                ||| exists|u: int|
                    #![trigger r[u]]
                    t < u < r.len() && r[t] is Role && r[u] is Held && forall|
                        verb: Seq<char>,
                        group: Seq<char>,
                        resource: Seq<char>,
                        name: Seq<char>,
                    |
                        #[trigger] permitted(
                            rule_views(r[t]->Role_0@),
                            verb,
                            group,
                            resource,
                            name,
                        ) ==> permitted(
                            reported_views(r[u]->Held_0@),
                            verb,
                            group,
                            resource,
                            name,
                        )
            };
        assert(replies[t] == r[t]);
        if r[t] != EscalationReply::Answer(Decision::Allow) && !(r[t] is Role
            && r[t]->Role_0@.len() == 0) {
            let u = choose|u: int|
                #![trigger r[u]]
                t < u < r.len() && r[t] is Role && r[u] is Held && forall|
                    verb: Seq<char>,
                    group: Seq<char>,
                    resource: Seq<char>,
                    name: Seq<char>,
                |
                    #[trigger] permitted(
                        rule_views(r[t]->Role_0@),
                        verb,
                        group,
                        resource,
                        name,
                    ) ==> permitted(
                        reported_views(r[u]->Held_0@),
                        verb,
                        group,
                        resource,
                        name,
                    );
            assert(replies[u] == r[u]);
        }
    } else if states[n - 1] is AskHeld {
        lemma_check_asks_about_the_role(g, states, replies, n - 1);
        let t = choose|t: int|
            0 <= t < n - 1 && #[trigger] replies[t] == EscalationReply::Role(
                states[n - 1]->granted,
            );
        let u = n - 1;
        assert forall|verb: Seq<char>, group: Seq<char>, resource: Seq<char>, name: Seq<char>|
            #[trigger] permitted(
                rule_views(replies[t]->Role_0@),
                verb,
                group,
                resource,
                name,
            ) implies permitted(
            reported_views(replies[u]->Held_0@),
            verb,
            group,
            resource,
            name,
        ) by {
            law_covered_rules_permit_no_more(
                reported_views(replies[u]->Held_0@),
                rule_views(replies[t]->Role_0@),
                verb,
                group,
                resource,
                name,
            );
        }
        assert(replies[u] is Held);
    } else {
        assert(replies[n - 1] == EscalationReply::Answer(Decision::Allow) || replies[n - 1]
            is Role);
    }
}

/// Whether labels have the key with one of the values.
pub open spec fn labelled_with_one_of(
    labels: Map<Seq<char>, Seq<char>>,
    key: Seq<char>,
    values: Option<Vec<String>>,
) -> bool {
    &&& labels.dom().contains(key)
    &&& values is Some
    &&& exists|i: int| 0 <= i < values->0@.len() && (#[trigger] values->0@[i])@ == labels[key]
}

/// A role's label selector selects labels if and only if it asks for a label or
/// has an expression, every label it asks for is there, and every expression
/// holds: `In`, `NotIn`, `Exists` and `DoesNotExist` as their names say, and no
/// other.
pub proof fn law_role_selector_means_its_parts(
    s: LabelSelector,
    labels: Map<Seq<char>, Seq<char>>,
)
    ensures
        selector_selects(s, labels) <==> {
            &&& (s.match_labels is Some && exists|k: Seq<char>|
                #[trigger] s.match_labels->0@.dom().contains(k)) || (s.match_expressions is Some
                && s.match_expressions->0@.len() > 0)
            &&& s.match_labels is Some ==> forall|k: Seq<char>|
                #[trigger] s.match_labels->0@.dom().contains(k) ==> labels.dom().contains(k)
                    && labels[k] == s.match_labels->0@[k]
            &&& s.match_expressions is Some ==> forall|i: int|
                0 <= i < s.match_expressions->0@.len() ==> {
                    let e = #[trigger] s.match_expressions->0@[i];
                    let one = labelled_with_one_of(labels, e.key@, e.values);
                    let there = labels.dom().contains(e.key@);
                    ||| (e.operator@ == "In"@ && one)
                    ||| (e.operator@ == "NotIn"@ && !one)
                    ||| (e.operator@ == "Exists"@ && there)
                    ||| (e.operator@ == "DoesNotExist"@ && !there)
                }
        },
{
    reveal_strlit("In");
    reveal_strlit("NotIn");
    reveal_strlit("Exists");
    reveal_strlit("DoesNotExist");
    assert("In"@.len() == 2 && "NotIn"@.len() == 5 && "Exists"@.len() == 6
        && "DoesNotExist"@.len() == 12);
    if s.match_labels is Some {
        let m = s.match_labels->0@;
        if forall|k: Seq<char>| !#[trigger] m.dom().contains(k) {
            assert(m =~= Map::<Seq<char>, Seq<char>>::empty());
        }
    }
    if s.match_expressions is Some {
        let es = s.match_expressions->0@;
        assert forall|i: int| 0 <= i < es.len() implies #[trigger] crate::roles::expression_holds(
            es[i],
            labels,
        ) == ({
            let e = es[i];
            let one = labelled_with_one_of(labels, e.key@, e.values);
            let there = labels.dom().contains(e.key@);
            ||| (e.operator@ == "In"@ && one)
            ||| (e.operator@ == "NotIn"@ && !one)
            ||| (e.operator@ == "Exists"@ && there)
            ||| (e.operator@ == "DoesNotExist"@ && !there)
        }) by {
            lemma_expression_values(es[i], labels);
        }
        if selector_selects(s, labels) {
            assert forall|i: int| 0 <= i < es.len() implies ({
                let e = #[trigger] es[i];
                let one = labelled_with_one_of(labels, e.key@, e.values);
                let there = labels.dom().contains(e.key@);
                ||| (e.operator@ == "In"@ && one)
                ||| (e.operator@ == "NotIn"@ && !one)
                ||| (e.operator@ == "Exists"@ && there)
                ||| (e.operator@ == "DoesNotExist"@ && !there)
            }) by {
                assert(crate::roles::expression_holds(es[i], labels));
            }
        }
    }
}

proof fn lemma_expression_values(e: LabelRequirement, labels: Map<Seq<char>, Seq<char>>)
    ensures
        crate::selector::has_one_of(
            labels,
            e.key@,
            crate::rbac::or_empty(crate::model::opt_texts(e.values)),
        ) == labelled_with_one_of(labels, e.key@, e.values),
{
    let v = crate::rbac::or_empty(crate::model::opt_texts(e.values));
    if labels.dom().contains(e.key@) {
        if v.contains(labels[e.key@]) {
            let i = choose|i: int| 0 <= i < v.len() && v[i] == labels[e.key@];
            assert(e.values->0@[i]@ == labels[e.key@]);
        }
        if labelled_with_one_of(labels, e.key@, e.values) {
            let i = choose|i: int|
                0 <= i < e.values->0@.len() && (#[trigger] e.values->0@[i])@ == labels[e.key@];
            assert(v[i] == labels[e.key@]);
        }
    }
}

/// Whether a role takes over the rules of another.
pub open spec fn takes_over(role: ClusterRole, selectors: Seq<LabelSelector>, c: ClusterRole) -> bool {
    &&& c.name@ != role.name@
    &&& c.aggregation is None
    &&& exists|j: int|
        0 <= j < selectors.len() && selector_selects(
            #[trigger] selectors[j],
            if c.labels is Some {
                c.labels->0@
            } else {
                Map::empty()
            },
        )
}

/// An aggregating role has a rule if and only if another role has it that
/// aggregates nothing itself and that one of the selectors selects.
pub proof fn law_aggregated_rules_are_those_of_the_selected(
    role: ClusterRole,
    selectors: Vec<LabelSelector>,
    candidates: Seq<ClusterRole>,
    rule: RuleView,
)
    requires
        role.aggregation == Some(Some(selectors)),
    ensures
        materialised(role, Some(candidates)).contains(rule) <==> exists|i: int, k: int|
            0 <= i < candidates.len() && 0 <= k < candidates[i].rules@.len() && takes_over(
                role,
                selectors@,
                #[trigger] candidates[i],
            ) && (#[trigger] candidates[i].rules@[k])@ == rule,
        materialised(role, Some(candidates)).no_duplicates(),
{
    let n = candidates.len();
    crate::roles::law_gathered_rules_are_distinct(role.name@, selectors@, candidates, n);
    law_gathered_rules_come_from_the_selected(role.name@, selectors@, candidates, n, rule);
    assert forall|i: int| 0 <= i < n implies #[trigger] crate::roles::gathers(
        role.name@,
        selectors@,
        candidates[i],
    ) == takes_over(role, selectors@, candidates[i]) by {
        let c = candidates[i];
        let l = if c.labels is Some {
            c.labels->0@
        } else {
            Map::empty()
        };
        assert(crate::roles::labels_or_none(c.labels) == l);
        if crate::roles::selected_by_one(selectors@, l) {
            let j = choose|j: int|
                0 <= j < selectors@.len() && selector_selects(#[trigger] selectors@[j], l);
            assert(selector_selects(selectors@[j], l));
        }
    }
    if materialised(role, Some(candidates)).contains(rule) {
        let i = choose|i: int|
            0 <= i < n && crate::roles::gathers(
                role.name@,
                selectors@,
                #[trigger] candidates[i],
            ) && rule_views(candidates[i].rules@).contains(rule);
        let all = rule_views(candidates[i].rules@);
        let k = choose|k: int| 0 <= k < all.len() && all[k] == rule;
        assert(candidates[i].rules@[k]@ == rule);
        assert(takes_over(role, selectors@, candidates[i]));
    }
    if exists|i: int, k: int|
        0 <= i < candidates.len() && 0 <= k < candidates[i].rules@.len() && takes_over(
            role,
            selectors@,
            #[trigger] candidates[i],
        ) && (#[trigger] candidates[i].rules@[k])@ == rule {
        let (i, k) = choose|i: int, k: int|
            0 <= i < candidates.len() && 0 <= k < candidates[i].rules@.len() && takes_over(
                role,
                selectors@,
                #[trigger] candidates[i],
            ) && (#[trigger] candidates[i].rules@[k])@ == rule;
        let all = rule_views(candidates[i].rules@);
        assert(all[k] == rule);
        assert(crate::roles::gathers(role.name@, selectors@, candidates[i]));
    }
}

proof fn lemma_with_rules_extends(have: Seq<RuleView>, rules: Seq<RuleView>, n: nat)
    ensures
        with_rules(have, rules, n).len() >= have.len(),
        with_rules(have, rules, n).take(have.len() as int) == have,
    decreases n,
{
    if n > 0 && n <= rules.len() {
        lemma_with_rules_extends(have, rules, (n - 1) as nat);
        let before = with_rules(have, rules, (n - 1) as nat);
        assert(with_rules(have, rules, n).take(have.len() as int) =~= before.take(
            have.len() as int,
        ));
    } else {
        assert(have.take(have.len() as int) =~= have);
    }
}

proof fn lemma_gathered_prefix(
    parent: Seq<char>,
    selectors: Seq<LabelSelector>,
    candidates: Seq<ClusterRole>,
    last: ClusterRole,
    n: nat,
)
    requires
        n <= candidates.len(),
    ensures
        gathered(parent, selectors, candidates.push(last), n) == gathered(
            parent,
            selectors,
            candidates,
            n,
        ),
    decreases n,
{
    if n > 0 {
        lemma_gathered_prefix(parent, selectors, candidates, last, (n - 1) as nat);
        assert(candidates.push(last)[n - 1] == candidates[n - 1]);
    }
}

/// The rules of a further role come after those of the roles before it.
pub proof fn law_aggregated_rules_keep_the_order_of_the_roles(
    role: ClusterRole,
    selectors: Vec<LabelSelector>,
    candidates: Seq<ClusterRole>,
    last: ClusterRole,
)
    requires
        role.aggregation == Some(Some(selectors)),
    ensures
        ({
            let before = materialised(role, Some(candidates));
            let after = materialised(role, Some(candidates.push(last)));
            after.len() >= before.len() && after.take(before.len() as int) == before
        }),
{
    let n = candidates.len();
    lemma_gathered_prefix(role.name@, selectors@, candidates, last, n);
    let before = gathered(role.name@, selectors@, candidates, n);
    assert(candidates.push(last)[n as int] == last);
    lemma_with_rules_extends(before, rule_views(last.rules@), last.rules@.len());
    assert(before.take(before.len() as int) =~= before);
}

proof fn lemma_with_distinct_rules(rules: Seq<RuleView>, n: nat)
    requires
        rules.no_duplicates(),
        n <= rules.len(),
    ensures
        with_rules(Seq::empty(), rules, n) == rules.take(n as int),
    decreases n,
{
    if n > 0 {
        lemma_with_distinct_rules(rules, (n - 1) as nat);
        let before = rules.take(n - 1);
        if before.contains(rules[n - 1]) {
            let j = choose|j: int| 0 <= j < before.len() && before[j] == rules[n - 1];
            assert(rules[j] == rules[n - 1]);
        }
        assert(rules.take(n as int) =~= before.push(rules[n - 1]));
    } else {
        assert(rules.take(0) =~= Seq::empty());
    }
}

/// From one role that is taken over come its rules as they stand, and from
/// none where it is not; a role that aggregates nothing keeps its own, one
/// without selectors has none, and one keeps its own where the roles could not
/// be listed.
pub proof fn law_aggregation_of_one_role(role: ClusterRole, c: ClusterRole)
    ensures
        role.aggregation is None ==> materialised(role, Some(seq![c])) == rule_views(role.rules@),
        role.aggregation == Some(None::<Vec<LabelSelector>>) ==> materialised(
            role,
            Some(seq![c]),
        ).len() == 0,
        role.aggregation is Some && role.aggregation->0 is Some ==> materialised(role, None)
            == rule_views(role.rules@),
        role.aggregation is Some && role.aggregation->0 is Some && takes_over(
            role,
            role.aggregation->0->0@,
            c,
        ) && rule_views(c.rules@).no_duplicates() ==> materialised(role, Some(seq![c]))
            == rule_views(c.rules@),
        role.aggregation is Some && role.aggregation->0 is Some && !takes_over(
            role,
            role.aggregation->0->0@,
            c,
        ) ==> materialised(role, Some(seq![c])).len() == 0,
{
    if role.aggregation is Some && role.aggregation->0 is Some {
        let selectors = role.aggregation->0->0;
        let cs = seq![c];
        let all = rule_views(c.rules@);
        assert(gathered(role.name@, selectors@, cs, 0) =~= Seq::empty());
        let l = if c.labels is Some {
            c.labels->0@
        } else {
            Map::empty()
        };
        assert(crate::roles::labels_or_none(c.labels) == l);
        if crate::roles::selected_by_one(selectors@, l) {
            let j = choose|j: int|
                0 <= j < selectors@.len() && selector_selects(#[trigger] selectors@[j], l);
            assert(selector_selects(selectors@[j], l));
        }
        assert(crate::roles::gathers(role.name@, selectors@, c) == takes_over(
            role,
            selectors@,
            c,
        ));
        assert(cs[0] == c);
        assert(gathered(role.name@, selectors@, cs, 1) == if takes_over(role, selectors@, c) {
            with_rules(Seq::empty(), all, all.len())
        } else {
            Seq::empty()
        });
        if all.no_duplicates() {
            lemma_with_distinct_rules(all, all.len());
            assert(all.take(all.len() as int) =~= all);
        }
    }
}

/// A grant that is refused names who tried it, with their groups, and what they
/// may not escalate.
pub proof fn law_refused_grant_says_why(g: Granting, reason: String, next: Escalation)
    requires
        escalates(
            g,
            Escalation::AskEscalate,
            EscalationReply::Answer(Decision::Deny(reason)),
            next,
        ),
        g.groups@.len() == 1,
    ensures
        next is Refused,
        next->Refused_0@ == crate::error::ErrorView::Forbidden(
            "user \""@ + g.username@ + "\" (groups="@ + ("["@ + crate::text::debug_quoted(
                g.groups@[0]@,
            ) + "]"@)
                + ") is attempting to grant RBAC permissions not currently held and is not authorized to escalate "@
                + (if g.role_ref.kind@ == "ClusterRole"@ {
                "clusterroles"@
            } else {
                "roles"@
            }) + " \""@ + g.binding_name@ + "\""@,
        ),
{
    let v = crate::text::texts(g.groups@);
    let q = v.map_values(|s: Seq<char>| crate::text::debug_quoted(s));
    assert(q =~= seq![crate::text::debug_quoted(g.groups@[0]@)]);
    crate::text_laws::law_texts_are_joined(
        Seq::empty(),
        ", "@,
        crate::text::debug_quoted(g.groups@[0]@),
    );
}

} // verus!
