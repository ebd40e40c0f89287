//! The rules of roles, and when rules cover other rules.
use vstd::prelude::*;
use crate::model::{copy_texts, opt_texts};
use crate::text::{contains_text, texts};

verus! {

/// What may be done to what.
pub struct PolicyRule {
    pub verbs: Vec<String>,
    pub api_groups: Option<Vec<String>>,
    pub resources: Option<Vec<String>>,
    pub resource_names: Option<Vec<String>>,
    pub non_resource_urls: Option<Vec<String>>,
}

/// The content of a [`PolicyRule`].
pub struct RuleView {
    pub verbs: Seq<Seq<char>>,
    pub api_groups: Option<Seq<Seq<char>>>,
    pub resources: Option<Seq<Seq<char>>>,
    pub resource_names: Option<Seq<Seq<char>>>,
    pub non_resource_urls: Option<Seq<Seq<char>>>,
}

impl View for PolicyRule {
    type V = RuleView;

    open spec fn view(&self) -> RuleView {
        RuleView {
            verbs: texts(self.verbs@),
            api_groups: opt_texts(self.api_groups),
            resources: opt_texts(self.resources),
            resource_names: opt_texts(self.resource_names),
            non_resource_urls: opt_texts(self.non_resource_urls),
        }
    }
}

/// The contents of a list of rules.
pub open spec fn rule_views(v: Seq<PolicyRule>) -> Seq<RuleView> {
    Seq::new(v.len(), |i: int| v[i]@)
}

/// A list, an empty one where there is none.
pub open spec fn or_empty(v: Option<Seq<Seq<char>>>) -> Seq<Seq<char>> {
    match v {
        Some(x) => x,
        None => Seq::empty(),
    }
}

/// Whether every text of `wanted` is in `set`.
pub open spec fn contains_all(set: Seq<Seq<char>>, wanted: Seq<Seq<char>>) -> bool {
    forall|i: int| 0 <= i < wanted.len() ==> set.contains(#[trigger] wanted[i])
}

/// Whether `owner` covers `servant`: by a star, or text by text.
pub open spec fn axis_covers(owner: Seq<Seq<char>>, servant: Seq<Seq<char>>) -> bool {
    owner.contains("*"@) || contains_all(owner, servant)
}

/// Whether `set` holds `ele`.
pub fn has(set: &[String], ele: &str) -> (r: bool)
    ensures
        r == texts(set@).contains(ele@),
{
    contains_text(set, ele)
}

/// Whether `set` holds everything in `contains`.
pub fn has_all(set: &[String], contains: &[String]) -> (r: bool)
    ensures
        r == contains_all(texts(set@), texts(contains@)),
{
    let ghost wanted = texts(contains@);
    let mut i: usize = 0;
    while i < contains.len()
        invariant
            i <= contains@.len(),
            wanted == texts(contains@),
            forall|j: int| 0 <= j < i ==> texts(set@).contains(#[trigger] wanted[j]),
        decreases contains.len() - i,
    {
        assert(wanted[i as int] == contains@[i as int]@);
        if !contains_text(set, contains[i].as_str()) {
            assert(!texts(set@).contains(wanted[i as int]));
            return false;
        }
        i = i + 1;
    }
    true
}

/// Whether `owner` covers `servant` on the axis of resources.
pub fn resource_covers_all(owner: &[String], servant: &[String]) -> (r: bool)
    ensures
        r == axis_covers(texts(owner@), texts(servant@)),
{
    has(owner, "*") || has_all(owner, servant)
}

/// Whether rule `owner` covers rule `servant`. A rule without names covers
/// any; one with names covers these names only.
pub open spec fn covers(owner: RuleView, servant: RuleView) -> bool {
    let owner_names = or_empty(owner.resource_names);
    let servant_names = or_empty(servant.resource_names);
    &&& axis_covers(owner.verbs, servant.verbs)
    &&& axis_covers(or_empty(owner.api_groups), or_empty(servant.api_groups))
    &&& axis_covers(or_empty(owner.resources), or_empty(servant.resources))
    &&& owner_names.len() == 0 || (servant_names.len() > 0 && contains_all(
        owner_names,
        servant_names,
    ))
}

/// A list, an empty one where there is none.
fn list_or_empty(v: &Option<Vec<String>>) -> (r: Vec<String>)
    ensures
        texts(r@) == or_empty(opt_texts(*v)),
{
    match v {
        Some(x) => copy_texts(x),
        None => {
            let none: Vec<String> = Vec::new();
            assert(texts(none@) =~= Seq::<Seq<char>>::empty());
            none
        },
    }
}

/// Whether rule `owner` covers rule `servant`.
pub fn rule_covers(owner: &PolicyRule, servant: &PolicyRule) -> (r: bool)
    ensures
        r == covers(owner@, servant@),
{
    let owner_groups: Vec<String> = list_or_empty(&owner.api_groups);
    let servant_groups: Vec<String> = list_or_empty(&servant.api_groups);
    let owner_resources: Vec<String> = list_or_empty(&owner.resources);
    let servant_resources: Vec<String> = list_or_empty(&servant.resources);
    let owner_names: Vec<String> = list_or_empty(&owner.resource_names);
    let servant_names: Vec<String> = list_or_empty(&servant.resource_names);
    assert(texts(owner_names@).len() == owner_names@.len());
    assert(texts(servant_names@).len() == servant_names@.len());
    let verbs: bool = resource_covers_all(owner.verbs.as_slice(), servant.verbs.as_slice());
    let groups: bool = resource_covers_all(owner_groups.as_slice(), servant_groups.as_slice());
    let resources: bool = resource_covers_all(
        owner_resources.as_slice(),
        servant_resources.as_slice(),
    );
    let names: bool = owner_names.len() == 0 || (servant_names.len() > 0 && has_all(
        owner_names.as_slice(),
        servant_names.as_slice(),
    ));
    verbs && groups && resources && names
}

/// A rule of one verb, one group, one resource and at most one name.
pub open spec fn atom(
    verb: Seq<char>,
    group: Seq<char>,
    resource: Seq<char>,
    name: Option<Seq<char>>,
) -> RuleView {
    RuleView {
        verbs: seq![verb],
        api_groups: Some(seq![group]),
        resources: Some(seq![resource]),
        resource_names: match name {
            Some(n) => Some(seq![n]),
            None => None,
        },
        non_resource_urls: None,
    }
}

/// The atoms of one verb, group and resource, for the first `n` names.
pub open spec fn atoms_of_names(
    verb: Seq<char>,
    group: Seq<char>,
    resource: Seq<char>,
    names: Seq<Seq<char>>,
    n: nat,
) -> Seq<RuleView>
    decreases n,
{
    if n == 0 || n > names.len() {
        Seq::empty()
    } else {
        atoms_of_names(verb, group, resource, names, (n - 1) as nat).push(
            atom(verb, group, resource, Some(names[n - 1])),
        )
    }
}

/// The atoms of one verb and group, for the first `n` resources.
pub open spec fn atoms_of_resources(
    rule: RuleView,
    verb: Seq<char>,
    group: Seq<char>,
    n: nat,
) -> Seq<RuleView>
    decreases n,
{
    let resources = or_empty(rule.resources);
    let names = or_empty(rule.resource_names);
    if n == 0 || n > resources.len() {
        Seq::empty()
    } else {
        atoms_of_resources(rule, verb, group, (n - 1) as nat) + (if names.len() == 0 {
            seq![atom(verb, group, resources[n - 1], None)]
        } else {
            atoms_of_names(verb, group, resources[n - 1], names, names.len())
        })
    }
}

/// The atoms of one verb, for the first `n` groups.
pub open spec fn atoms_of_groups(rule: RuleView, verb: Seq<char>, n: nat) -> Seq<RuleView>
    decreases n,
{
    let groups = or_empty(rule.api_groups);
    if n == 0 || n > groups.len() {
        Seq::empty()
    } else {
        atoms_of_groups(rule, verb, (n - 1) as nat) + atoms_of_resources(
            rule,
            verb,
            groups[n - 1],
            or_empty(rule.resources).len(),
        )
    }
}

/// The atoms of the first `n` verbs.
pub open spec fn atoms_of_verbs(rule: RuleView, n: nat) -> Seq<RuleView>
    decreases n,
{
    if n == 0 || n > rule.verbs.len() {
        Seq::empty()
    } else {
        atoms_of_verbs(rule, (n - 1) as nat) + atoms_of_groups(
            rule,
            rule.verbs[n - 1],
            or_empty(rule.api_groups).len(),
        )
    }
}

/// A rule as atoms: one for each verb, group, resource and name.
pub open spec fn atoms(rule: RuleView) -> Seq<RuleView> {
    atoms_of_verbs(rule, rule.verbs.len())
}

/// One text as a list.
fn single(s: &str) -> (r: Vec<String>)
    ensures
        texts(r@) == seq![s@],
{
    let mut v: Vec<String> = Vec::new();
    v.push(s.to_owned());
    assert(texts(v@) =~= seq![s@]);
    v
}

fn make_atom(verb: &str, group: &str, resource: &str, name: Option<&str>) -> (r: PolicyRule)
    ensures
        r@ == atom(verb@, group@, resource@, crate::access::opt_str(name)),
{
    PolicyRule {
        verbs: single(verb),
        api_groups: Some(single(group)),
        resources: Some(single(resource)),
        resource_names: match name {
            Some(n) => Some(single(n)),
            None => None,
        },
        non_resource_urls: None,
    }
}

proof fn lemma_push_rule(v: Seq<PolicyRule>, r: PolicyRule)
    ensures
        rule_views(v.push(r)) == rule_views(v).push(r@),
{
    assert(rule_views(v.push(r)) =~= rule_views(v).push(r@));
}

/// What a list holds once a rule has been put at its end.
pub proof fn lemma_push_rule_contains(v: Seq<RuleView>, last: RuleView, rule: RuleView)
    ensures
        v.push(last).contains(rule) <==> v.contains(rule) || rule == last,
{
    let all = v.push(last);
    if v.contains(rule) {
        let j = choose|j: int| 0 <= j < v.len() && v[j] == rule;
        assert(all[j] == rule);
    }
    if rule == last {
        assert(all[v.len() as int] == rule);
    }
    if all.contains(rule) && rule != last {
        let j = choose|j: int| 0 <= j < all.len() && all[j] == rule;
        assert(v[j] == rule);
    }
}

fn push_name_atoms(
    out: &mut Vec<PolicyRule>,
    verb: &str,
    group: &str,
    resource: &str,
    names: &Vec<String>,
)
    ensures
        rule_views(final(out)@) == rule_views(old(out)@) + (if texts(names@).len() == 0 {
            seq![atom(verb@, group@, resource@, None)]
        } else {
            atoms_of_names(verb@, group@, resource@, texts(names@), texts(names@).len())
        }),
{
    let ghost start = rule_views(out@);
    let ghost all = texts(names@);
    if names.len() == 0 {
        let a: PolicyRule = make_atom(verb, group, resource, None);
        proof {
            lemma_push_rule(out@, a);
        }
        out.push(a);
        assert(rule_views(out@) =~= start + seq![atom(verb@, group@, resource@, None)]);
        return;
    }
    let mut i: usize = 0;
    assert(start =~= start + atoms_of_names(verb@, group@, resource@, all, 0));
    while i < names.len()
        invariant
            i <= names@.len(),
            all == texts(names@),
            rule_views(out@) == start + atoms_of_names(verb@, group@, resource@, all, i as nat),
        decreases names.len() - i,
    {
        assert(all[i as int] == names@[i as int]@);
        let a: PolicyRule = make_atom(verb, group, resource, Some(names[i].as_str()));
        proof {
            lemma_push_rule(out@, a);
        }
        out.push(a);
        i = i + 1;
        assert(rule_views(out@) =~= start + atoms_of_names(verb@, group@, resource@, all, i as nat));
    }
}

/// Breaks a rule down into atoms, so that each can be covered by one rule.
#[verifier::loop_isolation(false)]
pub fn breakdown_rule(rule: &PolicyRule) -> (out: Vec<PolicyRule>)
    ensures
        rule_views(out@) == atoms(rule@),
{
    let mut out: Vec<PolicyRule> = Vec::new();
    let groups: Vec<String> = list_or_empty(&rule.api_groups);
    let resources: Vec<String> = list_or_empty(&rule.resources);
    let names: Vec<String> = list_or_empty(&rule.resource_names);
    let ghost view = rule@;
    let ghost gs = or_empty(view.api_groups);
    let ghost rs = or_empty(view.resources);
    assert(rule_views(out@) =~= atoms_of_verbs(view, 0));
    let mut i: usize = 0;
    while i < rule.verbs.len()
        invariant
            i <= rule.verbs@.len(),
            rule_views(out@) == atoms_of_verbs(view, i as nat),
        decreases rule.verbs.len() - i,
    {
        let verb: &str = rule.verbs[i].as_str();
        let ghost before_verb = rule_views(out@);
        assert(view.verbs[i as int] == verb@);
        let mut j: usize = 0;
        assert(before_verb =~= before_verb + atoms_of_groups(view, verb@, 0));
        while j < groups.len()
            invariant
                j <= groups@.len(),
                rule_views(out@) == before_verb + atoms_of_groups(view, verb@, j as nat),
            decreases groups.len() - j,
        {
            let group: &str = groups[j].as_str();
            let ghost before_group = rule_views(out@);
            assert(gs[j as int] == group@);
            let mut k: usize = 0;
            assert(before_group =~= before_group + atoms_of_resources(view, verb@, group@, 0));
            while k < resources.len()
                invariant
                    k <= resources@.len(),
                    rule_views(out@) == before_group + atoms_of_resources(
                        view,
                        verb@,
                        group@,
                        k as nat,
                    ),
                decreases resources.len() - k,
            {
                assert(rs[k as int] == resources@[k as int]@);
                push_name_atoms(&mut out, verb, group, resources[k].as_str(), &names);
                k = k + 1;
                assert(rule_views(out@) =~= before_group + atoms_of_resources(
                    view,
                    verb@,
                    group@,
                    k as nat,
                ));
            }
            j = j + 1;
            assert(rs.len() == resources@.len());
            assert(rule_views(out@) =~= before_verb + atoms_of_groups(view, verb@, j as nat));
        }
        i = i + 1;
        assert(gs.len() == groups@.len());
        assert(rule_views(out@) =~= atoms_of_verbs(view, i as nat));
    }
    out
}

/// Whether one of the rules covers `atom`.
pub open spec fn covered_by_one(owners: Seq<RuleView>, servant: RuleView) -> bool {
    exists|i: int| 0 <= i < owners.len() && covers(#[trigger] owners[i], servant)
}

/// Whether every atom of a rule is covered by one of the rules.
pub open spec fn rule_is_covered(owners: Seq<RuleView>, servant: RuleView) -> bool {
    forall|j: int|
        0 <= j < atoms(servant).len() ==> covered_by_one(owners, #[trigger] atoms(servant)[j])
}

/// Whether the rules `owners` cover the rules `servants`.
pub open spec fn all_covered(owners: Seq<RuleView>, servants: Seq<RuleView>) -> bool {
    forall|i: int| 0 <= i < servants.len() ==> rule_is_covered(owners, #[trigger] servants[i])
}

fn any_covers(owners: &Vec<PolicyRule>, servant: &PolicyRule) -> (r: bool)
    ensures
        r == covered_by_one(rule_views(owners@), servant@),
{
    let ghost all = rule_views(owners@);
    let mut i: usize = 0;
    while i < owners.len()
        invariant
            i <= owners@.len(),
            all == rule_views(owners@),
            forall|j: int| 0 <= j < i ==> !covers(#[trigger] all[j], servant@),
        decreases owners.len() - i,
    {
        assert(all[i as int] == owners@[i as int]@);
        if rule_covers(&owners[i], servant) {
            assert(covers(all[i as int], servant@));
            return true;
        }
        i = i + 1;
    }
    false
}

/// Whether the rules `owner_rules` cover the rules `servant_rules`: each of
/// these atom by atom.
pub fn rules_cover(owner_rules: &Vec<PolicyRule>, servant_rules: &Vec<PolicyRule>) -> (r: bool)
    ensures
        r == all_covered(rule_views(owner_rules@), rule_views(servant_rules@)),
{
    let ghost owners = rule_views(owner_rules@);
    let ghost servants = rule_views(servant_rules@);
    let mut i: usize = 0;
    while i < servant_rules.len()
        invariant
            i <= servant_rules@.len(),
            owners == rule_views(owner_rules@),
            servants == rule_views(servant_rules@),
            forall|k: int| 0 <= k < i ==> rule_is_covered(owners, #[trigger] servants[k]),
        decreases servant_rules.len() - i,
    {
        assert(servants[i as int] == servant_rules@[i as int]@);
        let parts: Vec<PolicyRule> = breakdown_rule(&servant_rules[i]);
        let ghost all = atoms(servants[i as int]);
        let mut j: usize = 0;
        while j < parts.len()
            invariant
                j <= parts@.len(),
                i < servant_rules@.len(),
                servants == rule_views(servant_rules@),
                rule_views(parts@) == all,
                all == atoms(servants[i as int]),
                owners == rule_views(owner_rules@),
                forall|k: int| 0 <= k < j ==> covered_by_one(owners, #[trigger] all[k]),
            decreases parts.len() - j,
        {
            assert(all[j as int] == parts@[j as int]@);
            if !any_covers(owner_rules, &parts[j]) {
                assert(!covered_by_one(owners, all[j as int]));
                assert(!rule_is_covered(owners, servants[i as int]));
                return false;
            }
            j = j + 1;
        }
        i = i + 1;
    }
    true
}

/// Whether `a` combines a verb, a group, a resource and a name of the rule, or
/// no name where the rule has none.
pub open spec fn combines(
    rule: RuleView,
    verb: Seq<char>,
    group: Seq<char>,
    resource: Seq<char>,
    name: Option<Seq<char>>,
) -> bool {
    let names = or_empty(rule.resource_names);
    &&& rule.verbs.contains(verb)
    &&& or_empty(rule.api_groups).contains(group)
    &&& or_empty(rule.resources).contains(resource)
    &&& match name {
        Some(n) => names.contains(n),
        None => names.len() == 0,
    }
}

proof fn lemma_name_atom(
    verb: Seq<char>,
    group: Seq<char>,
    resource: Seq<char>,
    names: Seq<Seq<char>>,
    n: nat,
    k: int,
)
    requires
        0 <= k < n <= names.len(),
    ensures
        atoms_of_names(verb, group, resource, names, n).contains(
            atom(verb, group, resource, Some(names[k])),
        ),
    decreases n,
{
    let all = atoms_of_names(verb, group, resource, names, n);
    if k == n - 1 {
        assert(all.last() == atom(verb, group, resource, Some(names[k])));
    } else {
        lemma_name_atom(verb, group, resource, names, (n - 1) as nat, k);
        let before = atoms_of_names(verb, group, resource, names, (n - 1) as nat);
        let j = choose|j: int|
            0 <= j < before.len() && before[j] == atom(verb, group, resource, Some(names[k]));
        assert(all[j] == before[j]);
    }
}

proof fn lemma_resource_atom(
    rule: RuleView,
    verb: Seq<char>,
    group: Seq<char>,
    n: nat,
    k: int,
    name: Option<Seq<char>>,
)
    requires
        0 <= k < n <= or_empty(rule.resources).len(),
        match name {
            Some(x) => or_empty(rule.resource_names).contains(x),
            None => or_empty(rule.resource_names).len() == 0,
        },
    ensures
        atoms_of_resources(rule, verb, group, n).contains(
            atom(verb, group, or_empty(rule.resources)[k], name),
        ),
    decreases n,
{
    let all = atoms_of_resources(rule, verb, group, n);
    let before = atoms_of_resources(rule, verb, group, (n - 1) as nat);
    let wanted = atom(verb, group, or_empty(rule.resources)[k], name);
    if k == n - 1 {
        match name {
            Some(x) => {
                let names = or_empty(rule.resource_names);
                let i = choose|i: int| 0 <= i < names.len() && names[i] == x;
                lemma_name_atom(verb, group, or_empty(rule.resources)[k], names, names.len(), i);
                let part = atoms_of_names(
                    verb,
                    group,
                    or_empty(rule.resources)[k],
                    names,
                    names.len(),
                );
                let j = choose|j: int| 0 <= j < part.len() && part[j] == wanted;
                assert(all[before.len() + j] == wanted);
            },
            None => {
                assert(all[before.len() as int] == wanted);
            },
        }
    } else {
        lemma_resource_atom(rule, verb, group, (n - 1) as nat, k, name);
        let j = choose|j: int| 0 <= j < before.len() && before[j] == wanted;
        assert(all[j] == wanted);
    }
}

proof fn lemma_group_atom(
    rule: RuleView,
    verb: Seq<char>,
    n: nat,
    k: int,
    resource: Seq<char>,
    name: Option<Seq<char>>,
)
    requires
        0 <= k < n <= or_empty(rule.api_groups).len(),
        or_empty(rule.resources).contains(resource),
        match name {
            Some(x) => or_empty(rule.resource_names).contains(x),
            None => or_empty(rule.resource_names).len() == 0,
        },
    ensures
        atoms_of_groups(rule, verb, n).contains(
            atom(verb, or_empty(rule.api_groups)[k], resource, name),
        ),
    decreases n,
{
    let all = atoms_of_groups(rule, verb, n);
    let before = atoms_of_groups(rule, verb, (n - 1) as nat);
    let group = or_empty(rule.api_groups)[k];
    let wanted = atom(verb, group, resource, name);
    if k == n - 1 {
        let resources = or_empty(rule.resources);
        let i = choose|i: int| 0 <= i < resources.len() && resources[i] == resource;
        lemma_resource_atom(rule, verb, group, resources.len(), i, name);
        let part = atoms_of_resources(rule, verb, group, resources.len());
        let j = choose|j: int| 0 <= j < part.len() && part[j] == wanted;
        assert(all[before.len() + j] == wanted);
    } else {
        lemma_group_atom(rule, verb, (n - 1) as nat, k, resource, name);
        let j = choose|j: int| 0 <= j < before.len() && before[j] == wanted;
        assert(all[j] == wanted);
    }
}

proof fn lemma_verb_atom(
    rule: RuleView,
    n: nat,
    k: int,
    group: Seq<char>,
    resource: Seq<char>,
    name: Option<Seq<char>>,
)
    requires
        0 <= k < n <= rule.verbs.len(),
        combines(rule, rule.verbs[k], group, resource, name),
    ensures
        atoms_of_verbs(rule, n).contains(atom(rule.verbs[k], group, resource, name)),
    decreases n,
{
    let all = atoms_of_verbs(rule, n);
    let before = atoms_of_verbs(rule, (n - 1) as nat);
    let wanted = atom(rule.verbs[k], group, resource, name);
    if k == n - 1 {
        let groups = or_empty(rule.api_groups);
        let i = choose|i: int| 0 <= i < groups.len() && groups[i] == group;
        lemma_group_atom(rule, rule.verbs[k], groups.len(), i, resource, name);
        let part = atoms_of_groups(rule, rule.verbs[k], groups.len());
        let j = choose|j: int| 0 <= j < part.len() && part[j] == wanted;
        assert(all[before.len() + j] == wanted);
    } else {
        lemma_verb_atom(rule, (n - 1) as nat, k, group, resource, name);
        let j = choose|j: int| 0 <= j < before.len() && before[j] == wanted;
        assert(all[j] == wanted);
    }
}

/// The parts of an atom, found where it stands.
pub open spec fn atom_parts(a: RuleView) -> (Seq<char>, Seq<char>, Seq<char>, Option<Seq<char>>) {
    (
        a.verbs[0],
        or_empty(a.api_groups)[0],
        or_empty(a.resources)[0],
        match a.resource_names {
            Some(n) => Some(n[0]),
            None => None,
        },
    )
}

/// Whether `a` is an atom of combined parts of the rule.
pub open spec fn is_atom_of(rule: RuleView, a: RuleView) -> bool {
    let (verb, group, resource, name) = atom_parts(a);
    a == atom(verb, group, resource, name) && combines(rule, verb, group, resource, name)
}

proof fn lemma_names_atoms(
    verb: Seq<char>,
    group: Seq<char>,
    resource: Seq<char>,
    names: Seq<Seq<char>>,
    n: nat,
    j: int,
)
    requires
        0 <= j < atoms_of_names(verb, group, resource, names, n).len(),
        n <= names.len(),
    ensures
        exists|k: int|
            0 <= k < names.len() && atoms_of_names(verb, group, resource, names, n)[j] == atom(
                verb,
                group,
                resource,
                Some(#[trigger] names[k]),
            ),
    decreases n,
{
    let all = atoms_of_names(verb, group, resource, names, n);
    if j == all.len() - 1 {
        assert(all[j] == atom(verb, group, resource, Some(names[n - 1])));
    } else {
        lemma_names_atoms(verb, group, resource, names, (n - 1) as nat, j);
    }
}

proof fn lemma_atom_is(
    rule: RuleView,
    verb: Seq<char>,
    group: Seq<char>,
    resource: Seq<char>,
    name: Option<Seq<char>>,
)
    requires
        combines(rule, verb, group, resource, name),
    ensures
        is_atom_of(rule, atom(verb, group, resource, name)),
{
}

proof fn lemma_resources_atoms(rule: RuleView, verb: Seq<char>, group: Seq<char>, n: nat, j: int)
    requires
        0 <= j < atoms_of_resources(rule, verb, group, n).len(),
        n <= or_empty(rule.resources).len(),
        rule.verbs.contains(verb),
        or_empty(rule.api_groups).contains(group),
    ensures
        is_atom_of(rule, atoms_of_resources(rule, verb, group, n)[j]),
    decreases n,
{
    let before = atoms_of_resources(rule, verb, group, (n - 1) as nat);
    if j < before.len() {
        lemma_resources_atoms(rule, verb, group, (n - 1) as nat, j);
    } else {
        let resource = or_empty(rule.resources)[n - 1];
        let names = or_empty(rule.resource_names);
        if names.len() == 0 {
            lemma_atom_is(rule, verb, group, resource, None);
        } else {
            let i: int = j - before.len();
            lemma_names_atoms(verb, group, resource, names, names.len(), i);
            let k = choose|k: int|
                0 <= k < names.len() && atoms_of_names(
                    verb,
                    group,
                    resource,
                    names,
                    names.len(),
                )[i] == atom(verb, group, resource, Some(#[trigger] names[k]));
            lemma_atom_is(rule, verb, group, resource, Some(names[k]));
        }
    }
}

proof fn lemma_groups_atoms(rule: RuleView, verb: Seq<char>, n: nat, j: int)
    requires
        0 <= j < atoms_of_groups(rule, verb, n).len(),
        n <= or_empty(rule.api_groups).len(),
        rule.verbs.contains(verb),
    ensures
        is_atom_of(rule, atoms_of_groups(rule, verb, n)[j]),
    decreases n,
{
    let before = atoms_of_groups(rule, verb, (n - 1) as nat);
    if j < before.len() {
        lemma_groups_atoms(rule, verb, (n - 1) as nat, j);
    } else {
        lemma_resources_atoms(
            rule,
            verb,
            or_empty(rule.api_groups)[n - 1],
            or_empty(rule.resources).len(),
            j - before.len(),
        );
    }
}

proof fn lemma_verbs_atoms(rule: RuleView, n: nat, j: int)
    requires
        0 <= j < atoms_of_verbs(rule, n).len(),
        n <= rule.verbs.len(),
    ensures
        is_atom_of(rule, atoms_of_verbs(rule, n)[j]),
    decreases n,
{
    let before = atoms_of_verbs(rule, (n - 1) as nat);
    if j < before.len() {
        lemma_verbs_atoms(rule, (n - 1) as nat, j);
    } else {
        lemma_groups_atoms(
            rule,
            rule.verbs[n - 1],
            or_empty(rule.api_groups).len(),
            j - before.len(),
        );
    }
}

/// A rule breaks down into exactly the combinations of its verbs, groups,
/// resources and names.
pub proof fn law_atoms_are_the_combinations(rule: RuleView, a: RuleView)
    ensures
        atoms(rule).contains(a) <==> is_atom_of(rule, a),
{
    if atoms(rule).contains(a) {
        let j = choose|j: int| 0 <= j < atoms(rule).len() && atoms(rule)[j] == a;
        lemma_verbs_atoms(rule, rule.verbs.len(), j);
    }
    if is_atom_of(rule, a) {
        let (verb, group, resource, name) = atom_parts(a);
        let k = choose|k: int| 0 <= k < rule.verbs.len() && rule.verbs[k] == verb;
        lemma_verb_atom(rule, rule.verbs.len(), k, group, resource, name);
    }
}

/// Rules cover themselves: who holds a rule can grant it.
pub proof fn law_rules_cover_themselves(rules: Seq<RuleView>)
    ensures
        all_covered(rules, rules),
{
    assert forall|i: int| 0 <= i < rules.len() implies rule_is_covered(
        rules,
        #[trigger] rules[i],
    ) by {
        let rule = rules[i];
        assert forall|j: int| 0 <= j < atoms(rule).len() implies covered_by_one(
            rules,
            #[trigger] atoms(rule)[j],
        ) by {
            lemma_verbs_atoms(rule, rule.verbs.len(), j);
            assert(covers(rules[i], atoms(rule)[j]));
        }
    }
}

/// More rules cover no less.
pub proof fn law_more_rules_cover_more(
    owners: Seq<RuleView>,
    more: Seq<RuleView>,
    servants: Seq<RuleView>,
)
    requires
        all_covered(owners, servants),
    ensures
        all_covered(owners + more, servants),
{
    assert forall|i: int| 0 <= i < servants.len() implies rule_is_covered(
        owners + more,
        #[trigger] servants[i],
    ) by {
        let rule = servants[i];
        assert(rule_is_covered(owners, rule));
        assert forall|j: int| 0 <= j < atoms(rule).len() implies covered_by_one(
            owners + more,
            #[trigger] atoms(rule)[j],
        ) by {
            assert(covered_by_one(owners, atoms(rule)[j]));
            let k = choose|k: int|
                0 <= k < owners.len() && covers(#[trigger] owners[k], atoms(rule)[j]);
            assert((owners + more)[k] == owners[k]);
        }
    }
}

/// A rule of stars, without names, covers every rule.
pub proof fn law_stars_cover_everything(owners: Seq<RuleView>, k: int, servants: Seq<RuleView>)
    requires
        0 <= k < owners.len(),
        owners[k].verbs.contains("*"@),
        or_empty(owners[k].api_groups).contains("*"@),
        or_empty(owners[k].resources).contains("*"@),
        or_empty(owners[k].resource_names).len() == 0,
    ensures
        all_covered(owners, servants),
{
    assert forall|i: int, j: int|
        0 <= i < servants.len() && 0 <= j < atoms(servants[i]).len() implies covered_by_one(
        owners,
        #[trigger] atoms(#[trigger] servants[i])[j],
    ) by {
        assert(covers(owners[k], atoms(servants[i])[j]));
    }
}

/// The part of an axis that stands for `wanted`: a star where there is one.
pub open spec fn standing_for(axis: Seq<Seq<char>>, wanted: Seq<char>) -> Seq<char> {
    if axis.contains("*"@) {
        "*"@
    } else {
        wanted
    }
}

proof fn lemma_cover_through(owners: Seq<RuleView>, middle: RuleView, a: RuleView)
    requires
        rule_is_covered(owners, middle),
        covers(middle, a),
        a == atom(atom_parts(a).0, atom_parts(a).1, atom_parts(a).2, atom_parts(a).3),
    ensures
        covered_by_one(owners, a),
{
    let (verb, group, resource, name) = atom_parts(a);
    let groups = or_empty(middle.api_groups);
    let resources = or_empty(middle.resources);
    let names = or_empty(middle.resource_names);
    assert(seq![verb][0] == verb && seq![group][0] == group && seq![resource][0] == resource);
    let v = standing_for(middle.verbs, verb);
    let g = standing_for(groups, group);
    let r = standing_for(resources, resource);
    let n = if names.len() == 0 {
        None
    } else {
        name
    };
    assert(combines(middle, v, g, r, n)) by {
        if names.len() > 0 {
            assert(or_empty(a.resource_names)[0] == name->0);
        }
    }
    let b = atom(v, g, r, n);
    lemma_atom_is(middle, v, g, r, n);
    law_atoms_are_the_combinations(middle, b);
    let j = choose|j: int| 0 <= j < atoms(middle).len() && atoms(middle)[j] == b;
    assert(covered_by_one(owners, atoms(middle)[j]));
    let k = choose|k: int| 0 <= k < owners.len() && covers(#[trigger] owners[k], b);
    let owner = owners[k];
    assert(seq![v][0] == v && seq![g][0] == g && seq![r][0] == r);
    assert(or_empty(b.api_groups)[0] == g);
    assert(or_empty(b.resources)[0] == r);
    assert(axis_covers(owner.verbs, a.verbs));
    assert(axis_covers(or_empty(owner.api_groups), or_empty(a.api_groups)));
    assert(axis_covers(or_empty(owner.resources), or_empty(a.resources)));
    if names.len() > 0 {
        assert(a.resource_names == b.resource_names);
    }
    assert(covers(owner, a));
}

/// What is covered by covered rules is covered: granting along a chain gives
/// nobody more than the first holder had.
pub proof fn law_covering_is_transitive(
    owners: Seq<RuleView>,
    middle: Seq<RuleView>,
    servants: Seq<RuleView>,
)
    requires
        all_covered(owners, middle),
        all_covered(middle, servants),
    ensures
        all_covered(owners, servants),
{
    assert forall|i: int| 0 <= i < servants.len() implies rule_is_covered(
        owners,
        #[trigger] servants[i],
    ) by {
        let rule = servants[i];
        assert(rule_is_covered(middle, rule));
        assert forall|j: int| 0 <= j < atoms(rule).len() implies covered_by_one(
            owners,
            #[trigger] atoms(rule)[j],
        ) by {
            let a = atoms(rule)[j];
            assert(covered_by_one(middle, a));
            lemma_verbs_atoms(rule, rule.verbs.len(), j);
            let k = choose|k: int| 0 <= k < middle.len() && covers(#[trigger] middle[k], a);
            lemma_cover_through(owners, middle[k], a);
        }
    }
}

} // verus!
