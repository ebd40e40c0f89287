//! The rules that a pod has to meet, and what is filled in where it is silent.
use vstd::prelude::*;
use vstd::string::StrSliceExecFns;
use vstd::string::StringExecFns;
use vstd::utf8::encode_utf8;
use crate::collections::StringMap;
use crate::error::{one_invalid_field, invalid_field, Error, ErrorView, FieldErrorKind};
use crate::json::{
    as_bool, as_int, as_text, bool_of_json, copy_text_of, get_in, int_of_json, low_32_bits,
    member, narrow, opt_member, Json, JsonView,
};
use crate::model::{
    container_views, copy_map, copy_text, opt_map, opt_spec, opt_texts, same_map, status_or_empty,
    Container, ContainerView, Phase, Pod, PodSpec, PodSpecView, PodStatus, PodStatusView, PodView,
    QosClass, ResourceRequirements, ResourcesView,
};
use crate::text::{
    chars_of, ends_with, ends_with_text, i64_text, join, joined, opt_text, same, signed_decimal,
    split, split_at_char, texts, trim_end_char, without_end,
};

verus! {

/// A lower case ASCII letter or a digit.
pub open spec fn is_lower_alnum(c: char) -> bool {
    ('a' <= c && c <= 'z') || ('0' <= c && c <= '9')
}

/// One part of a kernel parameter's name.
pub open spec fn is_sysctl_part(s: Seq<char>) -> bool {
    &&& s.len() > 0
    &&& is_lower_alnum(s[0])
    &&& is_lower_alnum(s.last())
    &&& forall|i: int|
        0 <= i < s.len() ==> is_lower_alnum(#[trigger] s[i]) || s[i] == '-' || s[i] == '_'
}

/// `s` with every slash as a dot.
pub open spec fn dotted(s: Seq<char>) -> Seq<char> {
    Seq::new(
        s.len(),
        |i: int|
            if s[i] == '/' {
                '.'
            } else {
                s[i]
            },
    )
}

/// The name of a kernel parameter: at most 253 bytes of parts between dots or slashes.
pub open spec fn is_sysctl_name(s: Seq<char>) -> bool {
    &&& s.len() > 0
    &&& encode_utf8(s).len() <= 253
    &&& forall|i: int|
        0 <= i < split_at_char(dotted(s), '.').len() ==> is_sysctl_part(
            #[trigger] split_at_char(dotted(s), '.')[i],
        )
}

fn lower_alnum(c: char) -> (r: bool)
    ensures
        r == is_lower_alnum(c),
{
    ('a' <= c && c <= 'z') || ('0' <= c && c <= '9')
}

fn sysctl_part_ok(part: &str) -> (r: bool)
    ensures
        r == is_sysctl_part(part@),
{
    let v: Vec<char> = chars_of(part);
    let n: usize = v.len();
    if n == 0 || !lower_alnum(v[0]) || !lower_alnum(v[n - 1]) {
        return false;
    }
    let mut i: usize = 0;
    while i < n
        invariant
            n == v@.len(),
            i <= n,
            v@ == part@,
            forall|j: int|
                0 <= j < i ==> is_lower_alnum(#[trigger] v@[j]) || v@[j] == '-' || v@[j] == '_',
        decreases n - i,
    {
        let c: char = v[i];
        if !lower_alnum(c) && c != '-' && c != '_' {
            assert(!is_lower_alnum(part@[i as int]));
            return false;
        }
        i = i + 1;
    }
    true
}

/// Whether `name` is the name of a kernel parameter. Slashes count as dots.
pub fn is_valid_sysctl_name(name: &str) -> (r: bool)
    ensures
        r == is_sysctl_name(name@),
{
    if name.is_empty() || name.as_bytes().len() > 253 {
        return false;
    }
    let v: Vec<char> = chars_of(name);
    let mut dots: String = String::new();
    let mut i: usize = 0;
    while i < v.len()
        invariant
            i <= v@.len(),
            v@ == name@,
            dots@ == dotted(name@).take(i as int),
        decreases v.len() - i,
    {
        let c: char = v[i];
        dots.push(if c == '/' {
            '.'
        } else {
            c
        });
        i = i + 1;
        assert(dotted(name@).take(i as int) =~= dotted(name@).take(i - 1).push(
            dotted(name@)[i - 1],
        ));
    }
    assert(dotted(name@).take(i as int) =~= dotted(name@));
    let parts: Vec<String> = split(dots.as_str(), '.');
    let ghost all = split_at_char(dotted(name@), '.');
    let mut k: usize = 0;
    while k < parts.len()
        invariant
            k <= parts@.len(),
            texts(parts@) == all,
            all == split_at_char(dotted(name@), '.'),
            forall|j: int| 0 <= j < k ==> is_sysctl_part(#[trigger] all[j]),
        decreases parts.len() - k,
    {
        assert(parts@[k as int]@ == all[k as int]);
        if !sysctl_part_ok(parts[k].as_str()) {
            assert(!is_sysctl_part(all[k as int]));
            return false;
        }
        k = k + 1;
    }
    true
}

/// What is said of a kernel parameter's name that is none.
pub open spec fn sysctl_message(name: Seq<char>) -> Seq<char> {
    "spec.securityContext.sysctls: Invalid value: \""@ + name
        + "\": must have at most 253 characters and match regex ^([a-z0-9][-_a-z0-9]*[a-z0-9]?\\.)*[a-z0-9][-_a-z0-9]*[a-z0-9]?$"@
}

/// What is said of the names that are none, in their order.
pub open spec fn sysctl_messages(names: Seq<Seq<char>>) -> Seq<Seq<char>>
    decreases names.len(),
{
    if names.len() == 0 {
        Seq::empty()
    } else {
        let before = sysctl_messages(names.drop_last());
        if is_sysctl_name(names.last()) {
            before
        } else {
            before.push(sysctl_message(names.last()))
        }
    }
}

/// Why a pod's kernel parameters are refused.
pub open spec fn sysctl_refusal(names: Option<Seq<Seq<char>>>) -> Option<ErrorView> {
    match names {
        Some(n) => if sysctl_messages(n).len() > 0 {
            Some(ErrorView::InvalidResource(joined(sysctl_messages(n), ", "@)))
        } else {
            None
        },
        None => None,
    }
}

/// Checks the names of a pod's kernel parameters and reports all that are none.
pub fn check_sysctls(names: &Option<Vec<String>>) -> (r: Result<(), Error>)
    ensures
        match r {
            Ok(_) => sysctl_refusal(opt_texts(*names)) is None,
            Err(e) => sysctl_refusal(opt_texts(*names)) == Some(e@),
        },
{
    let list: &Vec<String> = match names {
        Some(l) => l,
        None => {
            return Ok(());
        },
    };
    let mut messages: Vec<String> = Vec::new();
    let mut i: usize = 0;
    let ghost all = texts(list@);
    assert(all.take(0) =~= Seq::<Seq<char>>::empty());
    assert(texts(messages@) =~= sysctl_messages(all.take(0)));
    while i < list.len()
        invariant
            i <= list@.len(),
            all == texts(list@),
            texts(messages@) == sysctl_messages(all.take(i as int)),
        decreases list.len() - i,
    {
        let ghost before = texts(messages@);
        proof {
            assert(all.take(i + 1).drop_last() =~= all.take(i as int));
            assert(all.take(i + 1).last() == list@[i as int]@);
        }
        if !is_valid_sysctl_name(list[i].as_str()) {
            let mut m: String = "spec.securityContext.sysctls: Invalid value: \"".to_owned();
            m.append(list[i].as_str());
            m.append(
                "\": must have at most 253 characters and match regex ^([a-z0-9][-_a-z0-9]*[a-z0-9]?\\.)*[a-z0-9][-_a-z0-9]*[a-z0-9]?$",
            );
            let ghost text = m@;
            messages.push(m);
            assert(texts(messages@) =~= before.push(text));
        }
        i = i + 1;
    }
    assert(all.take(i as int) =~= all);
    if messages.len() > 0 {
        Err(Error::InvalidResource(join(&messages, ", ")))
    } else {
        Ok(())
    }
}

/// Resources in which each request that is missing is the limit.
pub open spec fn requests_from_limits(r: ResourcesView) -> ResourcesView {
    match r.limits {
        Some(l) => if l == Map::<Seq<char>, Seq<char>>::empty() {
            r
        } else {
            ResourcesView {
                requests: Some(
                    match r.requests {
                        Some(q) => l.union_prefer_right(q),
                        None => l,
                    },
                ),
                ..r
            }
        },
        None => r,
    }
}

/// A container with its requests filled in.
pub open spec fn container_with_requests(c: ContainerView) -> ContainerView {
    ContainerView {
        resources: match c.resources {
            Some(r) => Some(requests_from_limits(r)),
            None => None,
        },
        ..c
    }
}

/// Containers with their requests filled in.
pub open spec fn all_with_requests(cs: Seq<ContainerView>) -> Seq<ContainerView> {
    Seq::new(cs.len(), |i: int| container_with_requests(cs[i]))
}

/// Gives every key of `limits` that `requests` lacks its limit.
fn fill_requests(limits: &StringMap, requests: &mut StringMap)
    ensures
        final(requests)@ == limits@.union_prefer_right(old(requests)@),
{
    let n: usize = limits.len();
    let ghost before = requests@;
    let ghost order = limits.key_order();
    let mut i: usize = 0;
    while i < n
        invariant
            i <= n,
            n == order.len(),
            order == limits.key_order(),
            order.to_set() =~= limits@.dom(),
            forall|k: Seq<char>| #[trigger] before.dom().contains(k) ==> requests@.dom().contains(k)
                && requests@[k] == before[k],
            forall|k: Seq<char>| #[trigger] requests@.dom().contains(k) && !before.dom().contains(k)
                ==> limits@.dom().contains(k) && requests@[k] == limits@[k],
            forall|j: int| 0 <= j < i ==> requests@.dom().contains(#[trigger] order[j]),
        decreases n - i,
    {
        let (k, v) = limits.entry(i);
        if !requests.contains_key(k.as_str()) {
            requests.insert(k.clone(), v.clone());
        }
        i = i + 1;
    }
    proof {
        let want = limits@.union_prefer_right(before);
        assert forall|k: Seq<char>| requests@.dom().contains(k) <==> want.dom().contains(k) by {
            if limits@.dom().contains(k) {
                assert(order.to_set().contains(k));
                let j = choose|j: int| 0 <= j < order.len() && order[j] == k;
                assert(requests@.dom().contains(order[j]));
            }
        }
        assert(requests@ =~= want);
    }
}

/// Fills in the requests of containers from their limits.
pub fn default_requests(containers: Vec<Container>) -> (r: Vec<Container>)
    ensures
        container_views(r@) == all_with_requests(container_views(containers@)),
{
    let mut out: Vec<Container> = Vec::new();
    let ghost all = containers@;
    for c in it: containers
        invariant
            it.seq() == all,
            out@.len() == it.index(),
            forall|j: int|
                0 <= j < out@.len() ==> (#[trigger] out@[j])@ == container_with_requests(all[j]@),
    {
        let ghost old_view = c@;
        let mut filled: Container = c;
        if let Some(res) = filled.resources {
            let mut resources: ResourceRequirements = res;
            if let Some(limits) = &resources.limits {
                if !limits.is_empty() {
                    let mut requests: StringMap = match copy_map(&resources.requests) {
                        Some(q) => q,
                        None => StringMap::new(),
                    };
                    fill_requests(limits, &mut requests);
                    assert(limits@.union_prefer_right(Map::<Seq<char>, Seq<char>>::empty())
                        =~= limits@);
                    resources.requests = Some(requests);
                }
            }
            filled.resources = Some(resources);
        }
        out.push(filled);
    }
    assert(container_views(out@) =~= all_with_requests(container_views(all)));
    out
}

/// What a pod's specification becomes by defaults that hold for pods alone.
pub open spec fn with_pod_defaults(s: PodSpecView) -> PodSpecView {
    PodSpecView {
        enable_service_links: Some(
            match s.enable_service_links {
                Some(b) => b,
                None => true,
            },
        ),
        containers: all_with_requests(s.containers),
        ..s
    }
}

/// Turns service links on unless the pod says otherwise.
pub fn default_service_links(spec: PodSpec) -> (r: PodSpec)
    ensures
        r@ == (PodSpecView {
            enable_service_links: Some(
                match spec.enable_service_links {
                    Some(b) => b,
                    None => true,
                },
            ),
            ..spec@
        }),
{
    let mut out: PodSpec = spec;
    if out.enable_service_links.is_none() {
        out.enable_service_links = Some(true);
    }
    out
}

/// Applies the defaults that hold for pods alone.
pub fn apply_pod_defaults(spec: PodSpec) -> (r: PodSpec)
    ensures
        r@ == with_pod_defaults(spec@),
{
    let mut out: PodSpec = default_service_links(spec);
    let mut list: Vec<Container> = Vec::new();
    std::mem::swap(&mut list, &mut out.containers);
    out.containers = default_requests(list);
    out
}

/// What a priority class says.
pub struct PriorityClass {
    pub name: Option<String>,
    pub value: Option<i64>,
    pub preemption_policy: Option<String>,
    pub global_default: Option<bool>,
}

/// What has to be looked up to find a pod's priority.
pub enum PriorityQuestion {
    Nothing,
    Class(String),
    AllClasses,
}

/// What was found of priority classes.
pub enum PriorityAnswer {
    /// Nothing was asked, or the store could not say.
    Nothing,
    Found(PriorityClass),
    Missing,
    All(Vec<PriorityClass>),
}

/// The class that a pod names has to be looked up; where it names none, all
/// have to be, for the one that is the default.
pub fn priority_question(spec: &PodSpec) -> (q: PriorityQuestion)
    ensures
        match spec.priority_class_name {
            Some(n) => if n@.len() == 0 {
                q is Nothing
            } else {
                q == PriorityQuestion::Class(n)
            },
            None => q is AllClasses,
        },
{
    match &spec.priority_class_name {
        Some(n) => {
            if n.as_str().is_empty() {
                PriorityQuestion::Nothing
            } else {
                PriorityQuestion::Class(n.clone())
            }
        },
        None => PriorityQuestion::AllClasses,
    }
}

/// Whether `c` is the priority class that is stored as `j`. What has another
/// type than it should counts as missing.
pub open spec fn is_class_of(c: PriorityClass, j: JsonView) -> bool {
    &&& opt_text(c.name) == as_text(opt_member(member(j, "metadata"@), "name"@))
    &&& c.value == as_int(member(j, "value"@))
    &&& opt_text(c.preemption_policy) == as_text(member(j, "preemptionPolicy"@))
    &&& c.global_default == as_bool(member(j, "globalDefault"@))
}

/// Reads a stored priority class.
pub fn read_priority_class(j: &Json) -> (c: PriorityClass)
    ensures
        is_class_of(c, j@),
{
    PriorityClass {
        name: copy_text_of(get_in(j.get("metadata"), "name")),
        value: int_of_json(j.get("value")),
        preemption_policy: copy_text_of(j.get("preemptionPolicy")),
        global_default: bool_of_json(j.get("globalDefault")),
    }
}

/// The value of a priority class, cut to 32 bits; zero where it has none.
pub open spec fn class_value(c: PriorityClass) -> i32 {
    match c.value {
        Some(n) => low_32_bits(n as int) as i32,
        None => 0,
    }
}

/// The position of the first class from `i` on that is the default.
pub open spec fn default_class_from(classes: Seq<PriorityClass>, i: int) -> Option<int>
    decreases classes.len() - i,
{
    if i < 0 || i >= classes.len() {
        None
    } else if classes[i].global_default == Some(true) {
        Some(i)
    } else {
        default_class_from(classes, i + 1)
    }
}

/// The class that decides a pod's priority.
pub open spec fn deciding_class(answer: PriorityAnswer) -> Option<PriorityClass> {
    match answer {
        PriorityAnswer::Found(c) => Some(c),
        PriorityAnswer::All(classes) => match default_class_from(classes@, 0) {
            Some(i) => Some(classes@[i]),
            None => None,
        },
        _ => None,
    }
}

/// A pod's priority.
pub open spec fn priority_of(answer: PriorityAnswer) -> i32 {
    match deciding_class(answer) {
        Some(c) => class_value(c),
        None => 0,
    }
}

/// Why a pod's priority is refused: its class does not exist, or it sets
/// another value than its class has.
pub open spec fn priority_refusal(s: PodSpecView, answer: PriorityAnswer) -> Option<ErrorView> {
    if answer is Missing {
        Some(
            ErrorView::Forbidden(
                "no PriorityClass with name "@ + (match s.priority_class_name {
                    Some(n) => n,
                    None => ""@,
                }) + " was found"@,
            ),
        )
    } else {
        match s.priority {
            Some(p) => if p != priority_of(answer) {
                Some(
                    ErrorView::Forbidden(
                        "the integer value of priority ("@ + signed_decimal(p as int)
                            + ") must not be provided in pod spec; priority admission controller computed "@
                            + signed_decimal(priority_of(answer) as int)
                            + " from the given PriorityClass name"@,
                    ),
                )
            } else {
                None
            },
            None => None,
        }
    }
}

/// A pod's specification with its priority. A default class also gives its
/// name, and any class its preemption policy, where the pod has none.
pub open spec fn with_priority(s: PodSpecView, answer: PriorityAnswer) -> PodSpecView {
    PodSpecView {
        priority: Some(priority_of(answer)),
        priority_class_name: match (answer, deciding_class(answer)) {
            (PriorityAnswer::All(classes), Some(c)) => match c.name {
                Some(n) => Some(n@),
                None => s.priority_class_name,
            },
            _ => s.priority_class_name,
        },
        preemption_policy: match s.preemption_policy {
            Some(p) => Some(p),
            None => match deciding_class(answer) {
                Some(c) => opt_text(c.preemption_policy),
                None => None,
            },
        },
        ..s
    }
}

/// Finds the class that is the default.
fn find_default_class(classes: &Vec<PriorityClass>) -> (r: Option<usize>)
    ensures
        match r {
            Some(i) => default_class_from(classes@, 0) == Some(i as int) && i < classes@.len(),
            None => default_class_from(classes@, 0) is None,
        },
{
    let mut i: usize = 0;
    while i < classes.len()
        invariant
            i <= classes@.len(),
            default_class_from(classes@, 0) == default_class_from(classes@, i as int),
        decreases classes.len() - i,
    {
        let is_default: bool = match classes[i].global_default {
            Some(b) => b,
            None => false,
        };
        if is_default {
            return Some(i);
        }
        i = i + 1;
    }
    None
}

fn value_of_class(c: &PriorityClass) -> (v: i32)
    ensures
        v == class_value(*c),
{
    match c.value {
        Some(n) => narrow(n),
        None => 0,
    }
}

/// Sets a pod's priority from what was found of priority classes.
pub fn admit_priority(spec: PodSpec, answer: PriorityAnswer) -> (r: Result<PodSpec, Error>)
    ensures
        match r {
            Ok(s) => priority_refusal(spec@, answer) is None && s@ == with_priority(spec@, answer),
            Err(e) => priority_refusal(spec@, answer) == Some(e@),
        },
{
    let mut out: PodSpec = spec;
    let mut priority: i32 = 0;
    let mut policy: Option<String> = None;
    let mut name: Option<String> = copy_text(&out.priority_class_name);
    match &answer {
        PriorityAnswer::Nothing => {},
        PriorityAnswer::Missing => {
            let mut m: String = "no PriorityClass with name ".to_owned();
            match &out.priority_class_name {
                Some(n) => {
                    m.append(n.as_str());
                },
                None => {
                    m.append("");
                },
            }
            m.append(" was found");
            return Err(Error::Forbidden(m));
        },
        PriorityAnswer::Found(c) => {
            priority = value_of_class(c);
            policy = copy_text(&c.preemption_policy);
        },
        PriorityAnswer::All(classes) => {
            if let Some(i) = find_default_class(classes) {
                let c: &PriorityClass = &classes[i];
                priority = value_of_class(c);
                policy = copy_text(&c.preemption_policy);
                if let Some(n) = &c.name {
                    name = Some(n.clone());
                }
            }
        },
    }
    if let Some(p) = out.priority {
        if p != priority {
            let mut m: String = "the integer value of priority (".to_owned();
            m.append(i64_text(p as i64).as_str());
            m.append(
                ") must not be provided in pod spec; priority admission controller computed ",
            );
            m.append(i64_text(priority as i64).as_str());
            m.append(" from the given PriorityClass name");
            return Err(Error::Forbidden(m));
        }
    }
    out.priority = Some(priority);
    out.priority_class_name = name;
    if out.preemption_policy.is_none() {
        out.preemption_policy = policy;
    }
    Ok(out)
}

/// Whether `m` has both CPU and memory.
pub open spec fn has_both(m: Option<Map<Seq<char>, Seq<char>>>) -> bool {
    m matches Some(x) && x.dom().contains("cpu"@) && x.dom().contains("memory"@)
}

/// Whether `m` has both CPU and memory.
pub fn names_both(m: &Option<StringMap>) -> (r: bool)
    ensures
        r == has_both(opt_map(*m)),
{
    match m {
        Some(x) => x.contains_key("cpu") && x.contains_key("memory"),
        None => false,
    }
}

/// Whether a container states CPU and memory at all.
pub open spec fn states_resources(c: ContainerView) -> bool {
    c.resources matches Some(r) && (has_both(r.limits) || has_both(r.requests))
}

/// Whether a container gets exactly what it asks for.
pub open spec fn is_guaranteed(c: ContainerView) -> bool {
    c.resources matches Some(r) && has_both(r.limits) && (has_both(r.requests) ==> r.limits
        == r.requests)
}

/// A pod's quality of service.
pub open spec fn qos_of(s: Option<PodSpecView>) -> QosClass {
    match s {
        None => QosClass::BestEffort,
        Some(s) => if forall|i: int|
            0 <= i < s.containers.len() ==> !states_resources(#[trigger] s.containers[i]) {
            QosClass::BestEffort
        } else if forall|i: int|
            0 <= i < s.containers.len() ==> is_guaranteed(#[trigger] s.containers[i]) {
            QosClass::Guaranteed
        } else {
            QosClass::Burstable
        },
    }
}

/// Computes a pod's quality of service.
pub fn compute_qos(spec: &Option<PodSpec>) -> (q: QosClass)
    ensures
        q == qos_of(opt_spec(*spec)),
{
    let cs: &Vec<Container> = match spec {
        Some(s) => &s.containers,
        None => {
            return QosClass::BestEffort;
        },
    };
    let ghost all = container_views(cs@);
    let mut any: bool = false;
    let mut guaranteed: bool = true;
    let mut i: usize = 0;
    while i < cs.len()
        invariant
            i <= cs@.len(),
            all == container_views(cs@),
            !any <==> forall|j: int| 0 <= j < i ==> !states_resources(#[trigger] all[j]),
            guaranteed <==> forall|j: int| 0 <= j < i ==> is_guaranteed(#[trigger] all[j]),
        decreases cs.len() - i,
    {
        assert(all[i as int] == cs@[i as int]@);
        match &cs[i].resources {
            Some(r) => {
                let limits: bool = names_both(&r.limits);
                let requests: bool = names_both(&r.requests);
                if limits || requests {
                    any = true;
                    assert(states_resources(all[i as int]));
                }
                if !limits || (requests && !same_map(&r.limits, &r.requests)) {
                    guaranteed = false;
                    assert(!is_guaranteed(all[i as int]));
                }
            },
            None => {
                guaranteed = false;
                assert(!is_guaranteed(all[i as int]));
            },
        }
        i = i + 1;
    }
    assert(opt_spec(*spec)->0.containers == all);
    if !any {
        QosClass::BestEffort
    } else if guaranteed {
        QosClass::Guaranteed
    } else {
        QosClass::Burstable
    }
}

/// The status of a pod that is created: pending unless it says more, with its
/// quality of service.
pub open spec fn first_status(p: PodView) -> PodStatusView {
    let s = status_or_empty(p.status);
    PodStatusView {
        phase: Some(
            match s.phase {
                Some(x) => x,
                None => Phase::Pending,
            },
        ),
        qos_class: Some(qos_of(p.spec)),
        ..s
    }
}

/// Sets the status of a pod that is created.
pub fn set_first_status(pod: Pod) -> (r: Pod)
    ensures
        r@ == (PodView { status: Some(first_status(pod@)), ..pod@ }),
{
    let mut out: Pod = pod;
    let mut status: PodStatus = match out.status {
        Some(s) => s,
        None => PodStatus::empty(),
    };
    if status.phase.is_none() {
        status.phase = Some(Phase::Pending);
    }
    status.qos_class = Some(compute_qos(&out.spec));
    out.status = Some(status);
    out
}

/// Whether a request goes to the subresource of ephemeral containers.
pub open spec fn is_ephemeral_path(path: Seq<char>) -> bool {
    ends_with_text(without_end(path, '/'), "/ephemeralcontainers"@)
}

/// Whether a request goes to the subresource of ephemeral containers.
pub fn is_ephemeral_subresource(path: &str) -> (r: bool)
    ensures
        r == is_ephemeral_path(path@),
{
    ends_with(trim_end_char(path, '/'), "/ephemeralcontainers")
}

/// How many ephemeral containers a pod has.
pub open spec fn ephemeral_count(p: PodView) -> nat {
    match p.spec {
        Some(s) => match s.ephemeral_containers {
            Some(c) => c.len(),
            None => 0,
        },
        None => 0,
    }
}

/// Why a change of the ephemeral containers is refused.
pub open spec fn ephemeral_refusal(old_pod: PodView, new_pod: PodView, subresource: bool) -> Option<
    ErrorView,
> {
    if subresource {
        if ephemeral_count(new_pod) < ephemeral_count(old_pod) {
            Some(
                ErrorView::Forbidden(
                    "spec.ephemeralContainers: Forbidden: existing ephemeral containers may not be removed"@,
                ),
            )
        } else {
            None
        }
    } else if ephemeral_count(new_pod) != ephemeral_count(old_pod) {
        Some(
            ErrorView::Forbidden(
                "spec.ephemeralContainers: Forbidden: may not be updated outside of the ephemeralcontainers subresource"@,
            ),
        )
    } else {
        None
    }
}

fn count_ephemeral(p: &Pod) -> (n: usize)
    ensures
        n == ephemeral_count(p@),
{
    match &p.spec {
        Some(s) => match &s.ephemeral_containers {
            Some(c) => c.len(),
            None => 0,
        },
        None => 0,
    }
}

/// Ephemeral containers change through their subresource only, and there
/// none may go.
pub fn check_ephemeral_containers(old_pod: &Pod, new_pod: &Pod, subresource: bool) -> (r: Result<
    (),
    Error,
>)
    ensures
        match r {
            Ok(_) => ephemeral_refusal(old_pod@, new_pod@, subresource) is None,
            Err(e) => ephemeral_refusal(old_pod@, new_pod@, subresource) == Some(e@),
        },
{
    let before: usize = count_ephemeral(old_pod);
    let after: usize = count_ephemeral(new_pod);
    if subresource {
        if after < before {
            return Err(
                Error::Forbidden(
                    "spec.ephemeralContainers: Forbidden: existing ephemeral containers may not be removed".to_owned(),
                ),
            );
        }
    } else if after != before {
        return Err(
            Error::Forbidden(
                "spec.ephemeralContainers: Forbidden: may not be updated outside of the ephemeralcontainers subresource".to_owned(),
            ),
        );
    }
    Ok(())
}

/// The deadline of a pod.
pub open spec fn deadline_of(p: PodView) -> Option<i64> {
    match p.spec {
        Some(s) => s.active_deadline_seconds,
        None => None,
    }
}

/// Why a change of the deadline is refused: it has to be positive, may shrink
/// only, and never goes once it is set.
pub open spec fn deadline_refusal(before: Option<i64>, after: Option<i64>) -> Option<ErrorView> {
    match (before, after) {
        (_, Some(n)) => if before is Some && n > before->0 {
            Some(
                ErrorView::InvalidResource(
                    "spec.activeDeadlineSeconds: Invalid value: "@ + signed_decimal(n as int)
                        + ": must be less than or equal to "@ + signed_decimal(before->0 as int),
                ),
            )
        } else if n <= 0 {
            Some(
                ErrorView::InvalidResource(
                    "spec.activeDeadlineSeconds: Invalid value: "@ + signed_decimal(n as int)
                        + ": must be greater than 0"@,
                ),
            )
        } else {
            None
        },
        (Some(o), None) => Some(
            ErrorView::InvalidResource(
                "spec.activeDeadlineSeconds: Invalid value: nil: must not be removed"@,
            ),
        ),
        (None, None) => None,
    }
}

/// Checks a change of the deadline.
pub fn check_active_deadline(before: Option<i64>, after: Option<i64>) -> (r: Result<(), Error>)
    ensures
        match r {
            Ok(_) => deadline_refusal(before, after) is None,
            Err(e) => deadline_refusal(before, after) == Some(e@),
        },
{
    match after {
        Some(n) => {
            if let Some(o) = before {
                if n > o {
                    let mut m: String = "spec.activeDeadlineSeconds: Invalid value: ".to_owned();
                    m.append(i64_text(n).as_str());
                    m.append(": must be less than or equal to ");
                    m.append(i64_text(o).as_str());
                    return Err(Error::InvalidResource(m));
                }
            }
            if n <= 0 {
                let mut m: String = "spec.activeDeadlineSeconds: Invalid value: ".to_owned();
                m.append(i64_text(n).as_str());
                m.append(": must be greater than 0");
                return Err(Error::InvalidResource(m));
            }
            Ok(())
        },
        None => {
            if before.is_some() {
                Err(
                    Error::InvalidResource(
                        "spec.activeDeadlineSeconds: Invalid value: nil: must not be removed".to_owned(),
                    ),
                )
            } else {
                Ok(())
            }
        },
    }
}

/// The node of a pod; empty where it has none.
pub open spec fn node_of(p: PodView) -> Seq<char> {
    match p.spec {
        Some(s) => match s.node_name {
            Some(n) => n,
            None => ""@,
        },
        None => ""@,
    }
}

/// Why a change of the node is refused: it stays once it is set.
pub open spec fn node_refusal(old_pod: PodView, new_pod: PodView) -> Option<ErrorView> {
    if node_of(old_pod).len() > 0 && node_of(new_pod) != node_of(old_pod) {
        Some(
            invalid_field(FieldErrorKind::Forbidden, "spec.nodeName"@, ""@, "field is immutable"@),
        )
    } else {
        None
    }
}

/// The node of a pod; empty where it has none.
pub fn pod_node(p: &Pod) -> (n: &str)
    ensures
        n@ == node_of(p@),
{
    match &p.spec {
        Some(s) => match &s.node_name {
            Some(n) => n.as_str(),
            None => "",
        },
        None => "",
    }
}

/// Checks that a pod keeps its node.
pub fn check_node_name(old_pod: &Pod, new_pod: &Pod) -> (r: Result<(), Error>)
    ensures
        match r {
            Ok(_) => node_refusal(old_pod@, new_pod@) is None,
            Err(e) => node_refusal(old_pod@, new_pod@) == Some(e@),
        },
{
    let before: &str = pod_node(old_pod);
    let after: &str = pod_node(new_pod);
    if !before.is_empty() && !same(after, before) {
        Err(
            one_invalid_field(
                FieldErrorKind::Forbidden,
                "spec.nodeName",
                "".to_owned(),
                "field is immutable",
            ),
        )
    } else {
        Ok(())
    }
}

} // verus!
