use api_server::access::Decision;
use api_server::collections::StringMap;
use api_server::error::Error;
use api_server::rbac::{
    breakdown_rule, has, has_all, resource_covers_all, rule_covers, rules_cover, PolicyRule,
};
use api_server::roles::{
    confirm_no_escalation, escalate_attributes, label_selector_matches,
    materialise_aggregated_rules, resolve_role_ref_rules, resource_rules_to_policy_rules,
    ClusterRole, Escalation, EscalationReply, Granting, LabelRequirement, LabelSelector,
    ResourceRule, RoleRef, RoleSource,
};

fn map(pairs: &[(&str, &str)]) -> StringMap {
    let mut m = StringMap::new();
    for (k, v) in pairs {
        m.insert(k.to_string(), v.to_string());
    }
    m
}

fn strings(v: &[&str]) -> Vec<String> {
    v.iter().map(|s| s.to_string()).collect()
}

fn rule(verbs: &[&str], groups: &[&str], resources: &[&str], names: &[&str]) -> PolicyRule {
    PolicyRule {
        verbs: strings(verbs),
        api_groups: Some(strings(groups)),
        resources: Some(strings(resources)),
        resource_names: if names.is_empty() { None } else { Some(strings(names)) },
        non_resource_urls: None,
    }
}

fn held(verbs: &[&str], resources: &[&str]) -> ResourceRule {
    ResourceRule {
        verbs: strings(verbs),
        api_groups: Some(strings(&[""])),
        resources: Some(strings(resources)),
        resource_names: None,
    }
}

fn granting(namespace: &str) -> Granting {
    Granting {
        username: "jane".to_string(),
        groups: strings(&["dev", "ops"]),
        role_ref: RoleRef { kind: "ClusterRole".to_string(), name: "admin".to_string() },
        binding_namespace: namespace.to_string(),
        binding_name: "b".to_string(),
    }
}

#[test]
fn lists_and_stars() {
    let set = strings(&["get", "list"]);
    assert!(has(&set, "get"));
    assert!(!has(&set, "watch"));
    assert!(has_all(&set, &strings(&["list", "get"])));
    assert!(!has_all(&set, &strings(&["list", "watch"])));
    assert!(has_all(&set, &[]));
    assert!(resource_covers_all(&strings(&["*"]), &strings(&["pods"])));
    assert!(!resource_covers_all(&strings(&["pods"]), &strings(&["pods", "nodes"])));
}

#[test]
fn names_restrict_what_a_rule_covers() {
    let any = rule(&["get"], &[""], &["pods"], &[]);
    let one = rule(&["get"], &[""], &["pods"], &["a"]);
    assert!(rule_covers(&any, &one));
    assert!(!rule_covers(&one, &any), "names do not cover the absence of names");
    assert!(rule_covers(&one, &one));
    assert!(!rule_covers(&one, &rule(&["get"], &[""], &["pods"], &["a", "b"])));
}

#[test]
fn rules_break_down_into_combinations() {
    let parts = breakdown_rule(&rule(&["get", "list"], &[""], &["pods", "nodes"], &["a", "b", "c"]));
    assert_eq!(parts.len(), 12);
    assert_eq!(parts[0].verbs, strings(&["get"]));
    assert_eq!(parts[0].resource_names, Some(strings(&["a"])));
    assert_eq!(parts[11].verbs, strings(&["list"]));
    assert_eq!(parts[11].resources, Some(strings(&["nodes"])));
    assert_eq!(parts[11].resource_names, Some(strings(&["c"])));
    let plain = breakdown_rule(&rule(&["get"], &[""], &["pods"], &[]));
    assert_eq!(plain.len(), 1);
    assert!(plain[0].resource_names.is_none());
}

#[test]
fn rules_together_cover_what_none_covers_alone() {
    let owners = vec![rule(&["get"], &[""], &["pods"], &[]), rule(&["list"], &[""], &["pods"], &[])];
    let both = vec![rule(&["get", "list"], &[""], &["pods"], &[])];
    assert!(rules_cover(&owners, &both));
    assert!(!rule_covers(&owners[0], &both[0]));
    assert!(!rules_cover(&owners, &vec![rule(&["watch"], &[""], &["pods"], &[])]));
    let stars = vec![rule(&["*"], &["*"], &["*"], &[])];
    assert!(rules_cover(&stars, &both));
    assert!(!rules_cover(&both, &stars));
}

#[test]
fn selectors_select_labels() {
    let labels = map(&[("app", "web")]);
    let by_labels = |pairs: &[(&str, &str)]| LabelSelector {
        match_labels: Some(map(pairs)),
        match_expressions: None,
    };
    assert!(label_selector_matches(&by_labels(&[("app", "web")]), &labels));
    assert!(!label_selector_matches(&by_labels(&[("app", "api")]), &labels));
    assert!(!label_selector_matches(&by_labels(&[]), &labels), "asking for nothing selects nothing");
    let by_expression = |key: &str, operator: &str, values: Option<&[&str]>| LabelSelector {
        match_labels: None,
        match_expressions: Some(vec![LabelRequirement {
            key: key.to_string(),
            operator: operator.to_string(),
            values: values.map(strings),
        }]),
    };
    assert!(label_selector_matches(&by_expression("app", "In", Some(&["web", "x"])), &labels));
    assert!(!label_selector_matches(&by_expression("app", "In", None), &labels));
    assert!(!label_selector_matches(&by_expression("app", "NotIn", Some(&["web"])), &labels));
    assert!(label_selector_matches(&by_expression("gone", "NotIn", Some(&["web"])), &labels));
    assert!(label_selector_matches(&by_expression("app", "NotIn", None), &labels));
    assert!(label_selector_matches(&by_expression("app", "Exists", None), &labels));
    assert!(label_selector_matches(&by_expression("gone", "DoesNotExist", None), &labels));
    assert!(!label_selector_matches(&by_expression("app", "Gt", Some(&["1"])), &labels));
}

fn role(name: &str, labels: &[(&str, &str)], rules: Vec<PolicyRule>) -> ClusterRole {
    ClusterRole { name: name.to_string(), labels: Some(map(labels)), aggregation: None, rules }
}

fn aggregating(name: &str, selectors: Option<Vec<LabelSelector>>) -> ClusterRole {
    ClusterRole {
        name: name.to_string(),
        labels: None,
        aggregation: Some(selectors),
        rules: vec![rule(&["old"], &[""], &["x"], &[])],
    }
}

#[test]
fn aggregated_roles_gather_rules_once() {
    let selector = || LabelSelector { match_labels: Some(map(&[("agg", "yes")])), match_expressions: None };
    let get = || rule(&["get"], &[""], &["pods"], &[]);
    let list = || rule(&["list"], &[""], &["pods"], &[]);
    let mut parent = aggregating("parent", Some(vec![selector()]));
    let mut nested = aggregating("nested", None);
    nested.labels = Some(map(&[("agg", "yes")]));
    materialise_aggregated_rules(
        &mut parent,
        Some(vec![
            role("a", &[("agg", "yes")], vec![get(), list()]),
            role("b", &[("agg", "yes")], vec![get()]),
            role("c", &[("agg", "no")], vec![rule(&["delete"], &[""], &["pods"], &[])]),
            role("parent", &[("agg", "yes")], vec![rule(&["own"], &[""], &["x"], &[])]),
            nested,
        ]),
    );
    assert_eq!(parent.rules.len(), 2);
    assert!(parent.rules[0].equals(&get()) && parent.rules[1].equals(&list()));

    let mut unreadable = aggregating("p", Some(vec![selector()]));
    materialise_aggregated_rules(&mut unreadable, None);
    assert_eq!(unreadable.rules.len(), 1, "rules stay where the roles cannot be listed");
    let mut bare = aggregating("p", None);
    materialise_aggregated_rules(&mut bare, Some(vec![]));
    assert!(bare.rules.is_empty());
    let mut plain = role("p", &[], vec![get()]);
    materialise_aggregated_rules(&mut plain, Some(vec![]));
    assert_eq!(plain.rules.len(), 1);
}

#[test]
fn referenced_roles_are_found() {
    let find = |kind: &str| {
        resolve_role_ref_rules(&RoleRef { kind: kind.to_string(), name: "r".to_string() }, "ns")
    };
    assert_eq!(find("ClusterRole"), RoleSource::ClusterRole("r".to_string()));
    assert_eq!(find("Role"), RoleSource::Role("ns".to_string(), "r".to_string()));
    assert_eq!(find("Group"), RoleSource::Nowhere);
}

#[test]
fn holders_and_escalators_may_bind() {
    let g = granting("ns");
    let start = || Escalation::FetchRole;
    let at = confirm_no_escalation(&g, start(), EscalationReply::Role(vec![]));
    assert!(matches!(at, Escalation::Confirmed), "a role without rules grants nothing");

    let granted = || vec![rule(&["get", "list"], &[""], &["pods"], &[])];
    let at = confirm_no_escalation(&g, start(), EscalationReply::Role(granted()));
    let at = confirm_no_escalation(&g, at, EscalationReply::Held(vec![held(&["get"], &["pods"]), held(&["list"], &["pods"])]));
    assert!(matches!(at, Escalation::Confirmed));

    let at = confirm_no_escalation(&g, start(), EscalationReply::Role(granted()));
    let at = confirm_no_escalation(&g, at, EscalationReply::Held(vec![held(&["get"], &["pods"])]));
    assert!(matches!(at, Escalation::AskEscalate));
    let at = confirm_no_escalation(&g, at, EscalationReply::Answer(Decision::Allow));
    assert!(matches!(at, Escalation::Confirmed));
    assert_eq!(resource_rules_to_policy_rules(&vec![held(&["get"], &["pods"])])[0].verbs, strings(&["get"]));
}

#[test]
fn nobody_grants_more_than_they_hold() {
    let g = granting("ns");
    let at = confirm_no_escalation(
        &g,
        Escalation::AskEscalate,
        EscalationReply::Answer(Decision::Deny("why".to_string())),
    );
    match at {
        Escalation::Refused(Error::Forbidden(m)) => assert_eq!(
            m,
            "user \"jane\" (groups=[\"dev\", \"ops\"]) is attempting to grant RBAC permissions not \
             currently held and is not authorized to escalate clusterroles \"b\""
        ),
        _ => panic!("a refusal was expected"),
    }
    let a = escalate_attributes(&g);
    assert_eq!((a.verb.as_str(), a.resource.as_str()), ("escalate", "clusterroles"));
    assert_eq!(a.api_group, "rbac.authorization.k8s.io");
    assert_eq!((a.namespace.as_deref(), a.name.as_deref()), (Some("ns"), Some("admin")));
    assert_eq!(escalate_attributes(&granting("")).namespace, None);
    let at = confirm_no_escalation(
        &g,
        Escalation::AskHeld { granted: vec![] },
        EscalationReply::Failed(Error::Internal("down".to_string())),
    );
    assert!(matches!(at, Escalation::Refused(Error::Internal(_))));
}
