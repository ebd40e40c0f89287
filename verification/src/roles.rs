//! Aggregated roles, and that nobody grants more than they hold.
use vstd::prelude::*;
use vstd::string::StringExecFns;
use crate::access::{attributes, AttributesView, Decision, RequestAttributes};
use crate::collections::StringMap;
use crate::error::{Error, ErrorView};
use crate::eviction::{has_all_labels, labels_match};
use crate::model::{copy_opt_texts, copy_texts, opt_texts, same_texts};
use crate::rbac::{
    all_covered, or_empty, rule_views, rules_cover, PolicyRule, RuleView,
};
use crate::selector::{has_one_of, label_in};
use crate::text::{debug_quoted, debug_text, join, joined, same, texts};

verus! {

/// One expression of a label selector.
pub struct LabelRequirement {
    pub key: String,
    pub operator: String,
    pub values: Option<Vec<String>>,
}

/// A label selector: labels that must be there, and expressions that must hold.
pub struct LabelSelector {
    pub match_labels: Option<StringMap>,
    pub match_expressions: Option<Vec<LabelRequirement>>,
}

/// Whether `labels` meets one expression. An operator that is not known is
/// never met.
pub open spec fn expression_holds(
    r: LabelRequirement,
    labels: Map<Seq<char>, Seq<char>>,
) -> bool {
    let listed = has_one_of(labels, r.key@, or_empty(opt_texts(r.values)));
    if r.operator@ == "In"@ {
        listed
    } else if r.operator@ == "NotIn"@ {
        !listed
    } else if r.operator@ == "Exists"@ {
        labels.dom().contains(r.key@)
    } else if r.operator@ == "DoesNotExist"@ {
        !labels.dom().contains(r.key@)
    } else {
        false
    }
}

/// Whether a selector asks for nothing.
pub open spec fn asks_nothing(s: LabelSelector) -> bool {
    &&& s.match_labels is None || s.match_labels->0@ == Map::<Seq<char>, Seq<char>>::empty()
    &&& s.match_expressions is None || s.match_expressions->0@.len() == 0
}

/// Whether a selector selects `labels`: it asks for something, and all of it
/// holds.
pub open spec fn selector_selects(
    s: LabelSelector,
    labels: Map<Seq<char>, Seq<char>>,
) -> bool {
    &&& !asks_nothing(s)
    &&& s.match_labels is Some ==> has_all_labels(labels, s.match_labels->0@)
    &&& s.match_expressions is Some ==> forall|i: int|
        0 <= i < s.match_expressions->0@.len() ==> expression_holds(
            #[trigger] s.match_expressions->0@[i],
            labels,
        )
}

fn expression_met(r: &LabelRequirement, labels: &StringMap) -> (ok: bool)
    ensures
        ok == expression_holds(*r, labels@),
{
    let listed: bool = match &r.values {
        Some(v) => label_in(labels, r.key.as_str(), v),
        None => false,
    };
    let present: bool = labels.contains_key(r.key.as_str());
    let operator: &str = r.operator.as_str();
    if same(operator, "In") {
        listed
    } else if same(operator, "NotIn") {
        !listed
    } else if same(operator, "Exists") {
        present
    } else if same(operator, "DoesNotExist") {
        !present
    } else {
        false
    }
}

/// Whether a selector selects `labels`. One that asks for nothing selects nothing.
pub fn label_selector_matches(selector: &LabelSelector, labels: &StringMap) -> (r: bool)
    ensures
        r == selector_selects(*selector, labels@),
{
    let has_labels: bool = match &selector.match_labels {
        Some(m) => !m.is_empty(),
        None => false,
    };
    let has_expressions: bool = match &selector.match_expressions {
        Some(e) => e.len() > 0,
        None => false,
    };
    if !has_labels && !has_expressions {
        return false;
    }
    if let Some(wanted) = &selector.match_labels {
        if !labels_match(labels, wanted) {
            return false;
        }
    }
    if let Some(expressions) = &selector.match_expressions {
        let mut i: usize = 0;
        while i < expressions.len()
            invariant
                i <= expressions@.len(),
                selector.match_expressions == Some(*expressions),
                forall|j: int|
                    0 <= j < i ==> expression_holds(#[trigger] expressions@[j], labels@),
            decreases expressions.len() - i,
        {
            if !expression_met(&expressions[i], labels) {
                assert(!expression_holds(selector.match_expressions->0@[i as int], labels@));
                return false;
            }
            i = i + 1;
        }
    }
    true
}

/// A cluster role, as far as aggregation reads it.
pub struct ClusterRole {
    pub name: String,
    pub labels: Option<StringMap>,
    /// What it gathers rules from, where it gathers any; the selectors may be
    /// missing.
    pub aggregation: Option<Option<Vec<LabelSelector>>>,
    pub rules: Vec<PolicyRule>,
}

/// Whether one of the selectors selects `labels`.
pub open spec fn selected_by_one(
    selectors: Seq<LabelSelector>,
    labels: Map<Seq<char>, Seq<char>>,
) -> bool {
    exists|i: int|
        0 <= i < selectors.len() && selector_selects(#[trigger] selectors[i], labels)
}

/// The labels, none where there are none.
pub open spec fn labels_or_none(labels: Option<StringMap>) -> Map<Seq<char>, Seq<char>> {
    match labels {
        Some(m) => m@,
        None => Map::empty(),
    }
}

/// Whether the role called `parent` gathers the rules of `candidate`: another
/// role, which gathers none itself, and which a selector selects.
pub open spec fn gathers(
    parent: Seq<char>,
    selectors: Seq<LabelSelector>,
    candidate: ClusterRole,
) -> bool {
    &&& candidate.name@ != parent
    &&& candidate.aggregation is None
    &&& selected_by_one(selectors, labels_or_none(candidate.labels))
}

/// `have` and the first `n` of `rules`, each rule once.
pub open spec fn with_rules(have: Seq<RuleView>, rules: Seq<RuleView>, n: nat) -> Seq<RuleView>
    decreases n,
{
    if n == 0 || n > rules.len() {
        have
    } else {
        let before = with_rules(have, rules, (n - 1) as nat);
        if before.contains(rules[n - 1]) {
            before
        } else {
            before.push(rules[n - 1])
        }
    }
}

/// The rules gathered from the first `n` candidates, each rule once, in order.
pub open spec fn gathered(
    parent: Seq<char>,
    selectors: Seq<LabelSelector>,
    candidates: Seq<ClusterRole>,
    n: nat,
) -> Seq<RuleView>
    decreases n,
{
    if n == 0 || n > candidates.len() {
        Seq::empty()
    } else {
        let before = gathered(parent, selectors, candidates, (n - 1) as nat);
        let c = candidates[n - 1];
        if gathers(parent, selectors, c) {
            with_rules(before, rule_views(c.rules@), c.rules@.len())
        } else {
            before
        }
    }
}

/// The rules of `role` once its aggregation has been carried out. Without one
/// they stay; without selectors there are none; and where the roles could not
/// be listed they stay.
pub open spec fn materialised(
    role: ClusterRole,
    candidates: Option<Seq<ClusterRole>>,
) -> Seq<RuleView> {
    match role.aggregation {
        None => rule_views(role.rules@),
        Some(None) => Seq::empty(),
        Some(Some(selectors)) => match candidates {
            None => rule_views(role.rules@),
            Some(c) => gathered(role.name@, selectors@, c, c.len()),
        },
    }
}

fn same_list(a: &Option<Vec<String>>, b: &Option<Vec<String>>) -> (r: bool)
    ensures
        r == (opt_texts(*a) == opt_texts(*b)),
{
    match (a, b) {
        (Some(x), Some(y)) => same_texts(x, y),
        (None, None) => true,
        _ => false,
    }
}

impl PolicyRule {
    /// A copy of the rule.
    pub fn duplicate(&self) -> (r: PolicyRule)
        ensures
            r@ == self@,
    {
        PolicyRule {
            verbs: copy_texts(&self.verbs),
            api_groups: copy_opt_texts(&self.api_groups),
            resources: copy_opt_texts(&self.resources),
            resource_names: copy_opt_texts(&self.resource_names),
            non_resource_urls: copy_opt_texts(&self.non_resource_urls),
        }
    }

    /// Whether two rules say the same.
    pub fn equals(&self, other: &PolicyRule) -> (r: bool)
        ensures
            r == (self@ == other@),
    {
        same_texts(&self.verbs, &other.verbs) && same_list(&self.api_groups, &other.api_groups)
            && same_list(&self.resources, &other.resources) && same_list(
            &self.resource_names,
            &other.resource_names,
        ) && same_list(&self.non_resource_urls, &other.non_resource_urls)
    }
}

fn holds_rule(rules: &Vec<PolicyRule>, rule: &PolicyRule) -> (r: bool)
    ensures
        r == rule_views(rules@).contains(rule@),
{
    let ghost all = rule_views(rules@);
    let mut i: usize = 0;
    while i < rules.len()
        invariant
            i <= rules@.len(),
            all == rule_views(rules@),
            forall|j: int| 0 <= j < i ==> #[trigger] all[j] != rule@,
        decreases rules.len() - i,
    {
        assert(all[i as int] == rules@[i as int]@);
        if rules[i].equals(rule) {
            return true;
        }
        i = i + 1;
    }
    false
}

fn add_rules(have: &mut Vec<PolicyRule>, rules: &Vec<PolicyRule>)
    ensures
        rule_views(final(have)@) == with_rules(
            rule_views(old(have)@),
            rule_views(rules@),
            rules@.len(),
        ),
{
    let ghost start = rule_views(have@);
    let ghost all = rule_views(rules@);
    let mut i: usize = 0;
    while i < rules.len()
        invariant
            i <= rules@.len(),
            all == rule_views(rules@),
            rule_views(have@) == with_rules(start, all, i as nat),
        decreases rules.len() - i,
    {
        assert(all[i as int] == rules@[i as int]@);
        if !holds_rule(have, &rules[i]) {
            let copy: PolicyRule = rules[i].duplicate();
            assert(rule_views(have@.push(copy)) =~= rule_views(have@).push(copy@));
            have.push(copy);
        }
        i = i + 1;
    }
}

fn any_selects(selectors: &Vec<LabelSelector>, labels: &StringMap) -> (r: bool)
    ensures
        r == selected_by_one(selectors@, labels@),
{
    let mut i: usize = 0;
    while i < selectors.len()
        invariant
            i <= selectors@.len(),
            forall|j: int| 0 <= j < i ==> !selector_selects(#[trigger] selectors@[j], labels@),
        decreases selectors.len() - i,
    {
        if label_selector_matches(&selectors[i], labels) {
            return true;
        }
        i = i + 1;
    }
    false
}

fn gathers_from(parent: &str, selectors: &Vec<LabelSelector>, candidate: &ClusterRole) -> (r: bool)
    ensures
        r == gathers(parent@, selectors@, *candidate),
{
    if same(candidate.name.as_str(), parent) || candidate.aggregation.is_some() {
        return false;
    }
    match &candidate.labels {
        Some(m) => any_selects(selectors, m),
        None => {
            let none: StringMap = StringMap::new();
            any_selects(selectors, &none)
        },
    }
}

fn gather(parent: &str, selectors: &Vec<LabelSelector>, candidates: &Vec<ClusterRole>) -> (out: Vec<
    PolicyRule,
>)
    ensures
        rule_views(out@) == gathered(parent@, selectors@, candidates@, candidates@.len()),
{
    let mut out: Vec<PolicyRule> = Vec::new();
    let mut i: usize = 0;
    assert(rule_views(out@) =~= gathered(parent@, selectors@, candidates@, 0));
    while i < candidates.len()
        invariant
            i <= candidates@.len(),
            rule_views(out@) == gathered(parent@, selectors@, candidates@, i as nat),
        decreases candidates.len() - i,
    {
        if gathers_from(parent, selectors, &candidates[i]) {
            add_rules(&mut out, &candidates[i].rules);
        }
        i = i + 1;
    }
    out
}

/// Fills in the rules of a role that gathers them from other roles.
/// `candidates` are the roles there are, nothing where they could not be listed.
pub fn materialise_aggregated_rules(role: &mut ClusterRole, candidates: Option<Vec<ClusterRole>>)
    ensures
        final(role).name == old(role).name,
        final(role).labels == old(role).labels,
        final(role).aggregation == old(role).aggregation,
        rule_views(final(role).rules@) == materialised(
            *old(role),
            match candidates {
                Some(c) => Some(c@),
                None => None,
            },
        ),
{
    let rules: Vec<PolicyRule> = match &role.aggregation {
        None => {
            return;
        },
        Some(None) => {
            let none: Vec<PolicyRule> = Vec::new();
            assert(rule_views(none@) =~= Seq::<RuleView>::empty());
            none
        },
        Some(Some(selectors)) => match &candidates {
            None => {
                return;
            },
            Some(c) => gather(role.name.as_str(), selectors, c),
        },
    };
    role.rules = rules;
}

/// A rule as the authorizer reports it for a user.
pub struct ResourceRule {
    pub verbs: Vec<String>,
    pub api_groups: Option<Vec<String>>,
    pub resources: Option<Vec<String>>,
    pub resource_names: Option<Vec<String>>,
}

impl View for ResourceRule {
    type V = RuleView;

    open spec fn view(&self) -> RuleView {
        RuleView {
            verbs: texts(self.verbs@),
            api_groups: opt_texts(self.api_groups),
            resources: opt_texts(self.resources),
            resource_names: opt_texts(self.resource_names),
            non_resource_urls: None,
        }
    }
}

/// The contents of a list of reported rules.
pub open spec fn reported_views(v: Seq<ResourceRule>) -> Seq<RuleView> {
    Seq::new(v.len(), |i: int| v[i]@)
}

/// Turns reported rules into rules that can be compared.
pub fn resource_rules_to_policy_rules(rules: &Vec<ResourceRule>) -> (out: Vec<PolicyRule>)
    ensures
        rule_views(out@) == reported_views(rules@),
{
    let mut out: Vec<PolicyRule> = Vec::new();
    let mut i: usize = 0;
    while i < rules.len()
        invariant
            i <= rules@.len(),
            out@.len() == i,
            forall|j: int| 0 <= j < i ==> (#[trigger] out@[j])@ == rules@[j]@,
        decreases rules.len() - i,
    {
        let r: &ResourceRule = &rules[i];
        out.push(
            PolicyRule {
                verbs: copy_texts(&r.verbs),
                api_groups: copy_opt_texts(&r.api_groups),
                resources: copy_opt_texts(&r.resources),
                resource_names: copy_opt_texts(&r.resource_names),
                non_resource_urls: None,
            },
        );
        i = i + 1;
    }
    assert(rule_views(out@) =~= reported_views(rules@));
    out
}

/// The role that a binding refers to.
pub struct RoleRef {
    pub kind: String,
    pub name: String,
}

/// Where the rules of a referenced role are found.
#[derive(Debug, PartialEq, Eq)]
pub enum RoleSource {
    /// The cluster role of this name.
    ClusterRole(String),
    /// The role in this namespace, of this name.
    Role(String, String),
    /// Nowhere: it grants nothing.
    Nowhere,
}

/// The content of a [`RoleSource`].
pub enum RoleSourceView {
    ClusterRole(Seq<char>),
    Role(Seq<char>, Seq<char>),
    Nowhere,
}

impl View for RoleSource {
    type V = RoleSourceView;

    open spec fn view(&self) -> RoleSourceView {
        match self {
            RoleSource::ClusterRole(name) => RoleSourceView::ClusterRole(name@),
            RoleSource::Role(namespace, name) => RoleSourceView::Role(namespace@, name@),
            RoleSource::Nowhere => RoleSourceView::Nowhere,
        }
    }
}

/// Where the rules of the role that `role_ref` names are found: a `Role` in the
/// binding's namespace, a `ClusterRole` in the cluster.
pub fn resolve_role_ref_rules(role_ref: &RoleRef, binding_namespace: &str) -> (r: RoleSource)
    ensures
        r@ == (if role_ref.kind@ == "ClusterRole"@ {
            RoleSourceView::ClusterRole(role_ref.name@)
        } else if role_ref.kind@ == "Role"@ {
            RoleSourceView::Role(binding_namespace@, role_ref.name@)
        } else {
            RoleSourceView::Nowhere
        }),
{
    if same(role_ref.kind.as_str(), "ClusterRole") {
        RoleSource::ClusterRole(role_ref.name.clone())
    } else if same(role_ref.kind.as_str(), "Role") {
        RoleSource::Role(binding_namespace.to_owned(), role_ref.name.clone())
    } else {
        RoleSource::Nowhere
    }
}

/// Who binds a role, and where.
pub struct Granting {
    pub username: String,
    pub groups: Vec<String>,
    pub role_ref: RoleRef,
    /// Empty for a binding in the cluster.
    pub binding_namespace: String,
    pub binding_name: String,
}

/// How far the check of a binding has come: what to find out next, or the outcome.
pub enum Escalation {
    /// Fetch the rules of the referenced role.
    FetchRole,
    /// Ask which rules the caller holds in the binding's namespace.
    AskHeld { granted: Vec<PolicyRule> },
    /// Ask whether the caller may escalate.
    AskEscalate,
    /// The binding may be made.
    Confirmed,
    /// The binding is refused.
    Refused(Error),
}

/// What was found out.
pub enum EscalationReply {
    /// The rules of the role; none where there is no such role.
    Role(Vec<PolicyRule>),
    /// The rules that the caller holds.
    Held(Vec<ResourceRule>),
    /// The answer to the last question.
    Answer(Decision),
    /// The authorizer failed.
    Failed(Error),
}

/// The resource that the verb `escalate` is asked about.
pub open spec fn escalate_resource(kind: Seq<char>) -> Seq<char> {
    if kind == "ClusterRole"@ {
        "clusterroles"@
    } else {
        "roles"@
    }
}

/// The attributes of the question whether the caller may escalate.
pub open spec fn escalate_question(g: Granting) -> AttributesView {
    AttributesView {
        verb: "escalate"@,
        resource: escalate_resource(g.role_ref.kind@),
        api_group: "rbac.authorization.k8s.io"@,
        namespace: if g.binding_namespace@.len() > 0 {
            Some(g.binding_namespace@)
        } else {
            None
        },
        name: Some(g.role_ref.name@),
        subresource: None,
    }
}

/// The texts as `Debug` shows a list of them.
pub open spec fn debug_list(v: Seq<Seq<char>>) -> Seq<char> {
    "["@ + joined(v.map_values(|s: Seq<char>| debug_quoted(s)), ", "@) + "]"@
}

/// The message that refuses a grant.
pub open spec fn escalation_message(g: Granting) -> Seq<char> {
    "user \""@ + g.username@ + "\" (groups="@ + debug_list(texts(g.groups@))
        + ") is attempting to grant RBAC permissions not currently held and is not authorized to escalate "@
        + escalate_resource(g.role_ref.kind@) + " \""@ + g.binding_name@ + "\""@
}

fn resource_to_escalate(kind: &str) -> (r: &'static str)
    ensures
        r@ == escalate_resource(kind@),
{
    if same(kind, "ClusterRole") {
        "clusterroles"
    } else {
        "roles"
    }
}

/// The question whether the caller may escalate.
pub fn escalate_attributes(g: &Granting) -> (r: RequestAttributes)
    ensures
        r@ == escalate_question(*g),
{
    let namespace: &str = g.binding_namespace.as_str();
    let cluster_wide: bool = same(namespace, "");
    proof {
        reveal_strlit("");
        if namespace@.len() == 0 {
            assert(namespace@ =~= ""@);
        }
    }
    attributes(
        "escalate",
        resource_to_escalate(g.role_ref.kind.as_str()),
        "rbac.authorization.k8s.io",
        if cluster_wide {
            None
        } else {
            Some(namespace)
        },
        Some(g.role_ref.name.as_str()),
        None,
    )
}

fn debug_texts(v: &Vec<String>) -> (r: String)
    ensures
        r@ == debug_list(texts(v@)),
{
    let mut quoted: Vec<String> = Vec::new();
    let ghost wanted = texts(v@).map_values(|s: Seq<char>| debug_quoted(s));
    let mut i: usize = 0;
    while i < v.len()
        invariant
            i <= v@.len(),
            quoted@.len() == i,
            forall|j: int| 0 <= j < i ==> (#[trigger] quoted@[j])@ == debug_quoted(v@[j]@),
        decreases v.len() - i,
    {
        quoted.push(debug_text(v[i].as_str()));
        i = i + 1;
    }
    assert(texts(quoted@) =~= wanted);
    let mut out: String = "[".to_owned();
    out.append(join(&quoted, ", ").as_str());
    out.append("]");
    out
}

fn refuse_escalation(g: &Granting) -> (e: Error)
    ensures
        e@ == ErrorView::Forbidden(escalation_message(*g)),
{
    let mut m: String = "user \"".to_owned();
    m.append(g.username.as_str());
    m.append("\" (groups=");
    m.append(debug_texts(&g.groups).as_str());
    m.append(
        ") is attempting to grant RBAC permissions not currently held and is not authorized to escalate ",
    );
    m.append(resource_to_escalate(g.role_ref.kind.as_str()));
    m.append(" \"");
    m.append(g.binding_name.as_str());
    m.append("\"");
    Error::Forbidden(m)
}

/// Whether `next` follows when `reply` answers the question of `at`.
pub open spec fn escalates(
    g: Granting,
    at: Escalation,
    reply: EscalationReply,
    next: Escalation,
) -> bool {
    match (at, reply) {
        (Escalation::FetchRole, EscalationReply::Role(granted)) => if granted@.len() == 0 {
            next == Escalation::Confirmed
        } else {
            next == (Escalation::AskHeld { granted })
        },
        (Escalation::AskHeld { granted }, EscalationReply::Held(held)) => if all_covered(
            reported_views(held@),
            rule_views(granted@),
        ) {
            next == Escalation::Confirmed
        } else {
            next == Escalation::AskEscalate
        },
        (Escalation::AskHeld { .. }, EscalationReply::Failed(e)) => next == Escalation::Refused(e),
        (Escalation::AskEscalate, EscalationReply::Answer(Decision::Allow)) => next
            == Escalation::Confirmed,
        (Escalation::AskEscalate, EscalationReply::Answer(Decision::Deny(_))) => {
            &&& next is Refused
            &&& next->Refused_0@ == ErrorView::Forbidden(escalation_message(g))
        },
        (Escalation::AskEscalate, EscalationReply::Failed(e)) => next == Escalation::Refused(e),
        (other, _) => next == other,
    }
}

/// One step of the check that a binding grants nothing that its maker neither
/// holds nor may escalate to. Starts at [`Escalation::FetchRole`]; a reply that
/// answers no question changes nothing.
pub fn confirm_no_escalation(g: &Granting, at: Escalation, reply: EscalationReply) -> (next:
    Escalation)
    ensures
        escalates(*g, at, reply, next),
{
    match (at, reply) {
        (Escalation::FetchRole, EscalationReply::Role(granted)) => if granted.len() == 0 {
            Escalation::Confirmed
        } else {
            Escalation::AskHeld { granted }
        },
        (Escalation::AskHeld { granted }, EscalationReply::Held(held)) => {
            let caller: Vec<PolicyRule> = resource_rules_to_policy_rules(&held);
            if rules_cover(&caller, &granted) {
                Escalation::Confirmed
            } else {
                Escalation::AskEscalate
            }
        },
        (Escalation::AskHeld { .. }, EscalationReply::Failed(e)) => Escalation::Refused(e),
        (Escalation::AskEscalate, EscalationReply::Answer(Decision::Allow)) => Escalation::Confirmed,
        (Escalation::AskEscalate, EscalationReply::Answer(Decision::Deny(_))) => Escalation::Refused(
            refuse_escalation(g),
        ),
        (Escalation::AskEscalate, EscalationReply::Failed(e)) => Escalation::Refused(e),
        (other, _) => other,
    }
}

/// Nobody grants more than they hold: a binding is confirmed only where the role
/// grants nothing, where the caller holds all of it, or where the caller may
/// escalate.
pub proof fn law_no_grant_beyond_what_is_held(
    g: Granting,
    at: Escalation,
    reply: EscalationReply,
    next: Escalation,
)
    requires
        escalates(g, at, reply, next),
        !(at is Confirmed),
        next is Confirmed,
    ensures
        match reply {
            EscalationReply::Role(granted) => granted@.len() == 0,
            EscalationReply::Held(held) => at is AskHeld && all_covered(
                reported_views(held@),
                rule_views(at->granted@),
            ),
            EscalationReply::Answer(d) => d is Allow,
            EscalationReply::Failed(_) => false,
        },
{
}

/// Who holds the rules of a role can bind it without more being asked.
pub proof fn law_holder_may_grant(
    g: Granting,
    granted: Vec<PolicyRule>,
    held: Vec<ResourceRule>,
    next: Escalation,
)
    requires
        escalates(g, Escalation::AskHeld { granted }, EscalationReply::Held(held), next),
        reported_views(held@) == rule_views(granted@),
    ensures
        next is Confirmed,
{
    crate::rbac::law_rules_cover_themselves(rule_views(granted@));
}

proof fn lemma_with_rules_once(have: Seq<RuleView>, rules: Seq<RuleView>, n: nat)
    requires
        have.no_duplicates(),
    ensures
        with_rules(have, rules, n).no_duplicates(),
    decreases n,
{
    if n > 0 && n <= rules.len() {
        lemma_with_rules_once(have, rules, (n - 1) as nat);
    }
}

/// A gathered rule stands once, however many roles have it.
pub proof fn law_gathered_rules_are_distinct(
    parent: Seq<char>,
    selectors: Seq<LabelSelector>,
    candidates: Seq<ClusterRole>,
    n: nat,
)
    ensures
        gathered(parent, selectors, candidates, n).no_duplicates(),
    decreases n,
{
    if n > 0 && n <= candidates.len() {
        law_gathered_rules_are_distinct(parent, selectors, candidates, (n - 1) as nat);
        let c = candidates[n - 1];
        lemma_with_rules_once(
            gathered(parent, selectors, candidates, (n - 1) as nat),
            rule_views(c.rules@),
            c.rules@.len(),
        );
    }
}

proof fn lemma_with_rules_members(
    have: Seq<RuleView>,
    rules: Seq<RuleView>,
    n: nat,
    rule: RuleView,
)
    requires
        n <= rules.len(),
    ensures
        with_rules(have, rules, n).contains(rule) <==> have.contains(rule) || rules.take(
            n as int,
        ).contains(rule),
    decreases n,
{
    if n > 0 {
        lemma_with_rules_members(have, rules, (n - 1) as nat, rule);
        let before = with_rules(have, rules, (n - 1) as nat);
        let t = rules.take(n as int);
        let u = rules.take(n - 1);
        assert(t =~= u.push(rules[n - 1]));
        crate::rbac::lemma_push_rule_contains(u, rules[n - 1], rule);
        crate::rbac::lemma_push_rule_contains(before, rules[n - 1], rule);
    } else {
        assert(rules.take(0) =~= Seq::empty());
    }
}

/// A rule is gathered if and only if one of the roles that are gathered from
/// has it.
pub proof fn law_gathered_rules_come_from_the_selected(
    parent: Seq<char>,
    selectors: Seq<LabelSelector>,
    candidates: Seq<ClusterRole>,
    n: nat,
    rule: RuleView,
)
    requires
        n <= candidates.len(),
    ensures
        gathered(parent, selectors, candidates, n).contains(rule) <==> exists|i: int|
            0 <= i < n && gathers(parent, selectors, #[trigger] candidates[i]) && rule_views(
                candidates[i].rules@,
            ).contains(rule),
    decreases n,
{
    if n > 0 {
        law_gathered_rules_come_from_the_selected(
            parent,
            selectors,
            candidates,
            (n - 1) as nat,
            rule,
        );
        let c = candidates[n - 1];
        let before = gathered(parent, selectors, candidates, (n - 1) as nat);
        let rules = rule_views(c.rules@);
        lemma_with_rules_members(before, rules, c.rules@.len(), rule);
        assert(rules.take(c.rules@.len() as int) =~= rules);
        if gathers(parent, selectors, c) && rules.contains(rule) {
            assert(gathers(parent, selectors, candidates[n - 1]));
        }
        if before.contains(rule) {
            let i = choose|i: int|
                0 <= i < n - 1 && gathers(parent, selectors, #[trigger] candidates[i])
                    && rule_views(candidates[i].rules@).contains(rule);
            assert(gathers(parent, selectors, candidates[i]));
        }
    }
}

} // verus!
