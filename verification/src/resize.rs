//! Changing the resources of a running pod in place.
use vstd::prelude::*;
use vstd::string::StringExecFns;
use crate::collections::StringMap;
use crate::access::Decision;
use crate::error::{Error, ErrorView};
use crate::model::{
    container_views, copy_resources, opt_map, opt_resources, same_map, same_resources,
    status_or_empty, Container, ContainerView, Pod, PodSpec, PodSpecView, PodStatus, PodStatusView,
    PodView, ResourceRequirements, ResourcesView,
};
use crate::pod_rules::{has_both, names_both, node_of, pod_node};
use crate::text::{contains_text, same, texts};

verus! {

/// The first container from `i` on with this name.
pub open spec fn first_named_from(cs: Seq<ContainerView>, name: Seq<char>, i: int) -> Option<int>
    decreases cs.len() - i,
{
    if i < 0 || i >= cs.len() {
        None
    } else if cs[i].name == name {
        Some(i)
    } else {
        first_named_from(cs, name, i + 1)
    }
}

/// The first container with this name.
pub open spec fn first_named(cs: Seq<ContainerView>, name: Seq<char>) -> Option<int> {
    first_named_from(cs, name, 0)
}

/// The last of the first `n` containers with this name.
pub open spec fn last_named_in(cs: Seq<ContainerView>, name: Seq<char>, n: int) -> Option<int>
    decreases n,
{
    if n <= 0 || n > cs.len() {
        None
    } else if cs[n - 1].name == name {
        Some(n - 1)
    } else {
        last_named_in(cs, name, n - 1)
    }
}

/// The last container with this name.
pub open spec fn last_named(cs: Seq<ContainerView>, name: Seq<char>) -> Option<int> {
    last_named_in(cs, name, cs.len() as int)
}

fn find_first(cs: &Vec<Container>, name: &str) -> (r: Option<usize>)
    ensures
        match r {
            Some(i) => i < cs@.len() && first_named(container_views(cs@), name@) == Some(i as int),
            None => first_named(container_views(cs@), name@) is None,
        },
{
    let ghost all = container_views(cs@);
    let mut i: usize = 0;
    while i < cs.len()
        invariant
            i <= cs@.len(),
            all == container_views(cs@),
            first_named(all, name@) == first_named_from(all, name@, i as int),
        decreases cs.len() - i,
    {
        if same(cs[i].name.as_str(), name) {
            return Some(i);
        }
        i = i + 1;
    }
    None
}

fn find_last(cs: &Vec<Container>, name: &str) -> (r: Option<usize>)
    ensures
        match r {
            Some(i) => i < cs@.len() && last_named(container_views(cs@), name@) == Some(i as int),
            None => last_named(container_views(cs@), name@) is None,
        },
{
    let ghost all = container_views(cs@);
    let mut n: usize = cs.len();
    while n > 0
        invariant
            n <= cs@.len(),
            all == container_views(cs@),
            last_named(all, name@) == last_named_in(all, name@, n as int),
        decreases n,
    {
        if same(cs[n - 1].name.as_str(), name) {
            return Some(n - 1);
        }
        n = n - 1;
    }
    None
}

/// Whether a map says anything.
pub open spec fn says_something(m: Option<Map<Seq<char>, Seq<char>>>) -> bool {
    m matches Some(x) && x != Map::<Seq<char>, Seq<char>>::empty()
}

/// Resources, where they request or limit anything.
pub open spec fn meaningful(r: Option<ResourcesView>) -> Option<ResourcesView> {
    match r {
        Some(x) => if says_something(x.requests) || says_something(x.limits) {
            Some(x)
        } else {
            None
        },
        None => None,
    }
}

/// Whether two containers' resources differ. Empty resources are none.
pub open spec fn resources_differ(a: Option<ResourcesView>, b: Option<ResourcesView>) -> bool {
    match (meaningful(a), meaningful(b)) {
        (Some(x), Some(y)) => x.requests != y.requests || x.limits != y.limits,
        (None, None) => false,
        _ => true,
    }
}

/// Whether a container of `after` differs from its namesake in `before`.
pub open spec fn resized_at(before: Seq<ContainerView>, after: Seq<ContainerView>, j: int) -> bool {
    match first_named(before, after[j].name) {
        Some(i) => resources_differ(before[i].resources, after[j].resources),
        None => false,
    }
}

/// Whether the resources of any container changed.
pub open spec fn resized(before: Option<PodSpecView>, after: Option<PodSpecView>) -> bool {
    match (before, after) {
        (Some(b), Some(a)) => exists|j: int|
            0 <= j < a.containers.len() && #[trigger] resized_at(b.containers, a.containers, j),
        _ => false,
    }
}

fn map_says_something(m: &Option<StringMap>) -> (r: bool)
    ensures
        r == says_something(opt_map(*m)),
{
    match m {
        Some(x) => !x.is_empty(),
        None => false,
    }
}

fn as_meaningful(r: &Option<ResourceRequirements>) -> (m: Option<&ResourceRequirements>)
    ensures
        match m {
            Some(x) => meaningful(opt_resources(*r)) == Some(x@),
            None => meaningful(opt_resources(*r)) is None,
        },
{
    match r {
        Some(x) => {
            if map_says_something(&x.requests) || map_says_something(&x.limits) {
                Some(x)
            } else {
                None
            }
        },
        None => None,
    }
}

/// Whether the resources of any container differ between two versions of a
/// pod. Containers are matched by name.
pub fn detect_container_resource_change(old_pod: &Pod, new_pod: &Pod) -> (r: bool)
    ensures
        r == resized(old_pod@.spec, new_pod@.spec),
{
    let (old_cs, new_cs): (&Vec<Container>, &Vec<Container>) = match (&old_pod.spec, &new_pod.spec) {
        (Some(a), Some(b)) => (&a.containers, &b.containers),
        _ => {
            return false;
        },
    };
    let ghost b = container_views(old_cs@);
    let ghost a = container_views(new_cs@);
    assert(old_pod@.spec->0.containers == b && new_pod@.spec->0.containers == a);
    let mut j: usize = 0;
    while j < new_cs.len()
        invariant
            j <= new_cs@.len(),
            b == container_views(old_cs@),
            a == container_views(new_cs@),
            forall|k: int| 0 <= k < j ==> !#[trigger] resized_at(b, a, k),
            old_pod@.spec matches Some(s) && s.containers == b,
            new_pod@.spec matches Some(s) && s.containers == a,
        decreases new_cs.len() - j,
    {
        assert(a[j as int] == new_cs@[j as int]@);
        if let Some(i) = find_first(old_cs, new_cs[j].name.as_str()) {
            assert(b[i as int] == old_cs@[i as int]@);
            let before: Option<&ResourceRequirements> = as_meaningful(&old_cs[i].resources);
            let after: Option<&ResourceRequirements> = as_meaningful(&new_cs[j].resources);
            let differ: bool = match (before, after) {
                (Some(x), Some(y)) => !same_map(&x.requests, &y.requests) || !same_map(
                    &x.limits,
                    &y.limits,
                ),
                (None, None) => false,
                _ => true,
            };
            if differ {
                assert(resized_at(b, a, j as int));
                return true;
            }
        }
        assert(!resized_at(b, a, j as int));
        j = j + 1;
    }
    false
}

/// A pod that is marked as to be resized, where its containers' resources
/// changed and it has a status.
pub open spec fn with_proposal(before: PodView, p: PodView) -> PodView {
    match p.status {
        Some(s) => if resized(before.spec, p.spec) {
            PodView { status: Some(PodStatusView { resize: Some("Proposed"@), ..s }), ..p }
        } else {
            p
        },
        None => p,
    }
}

/// Marks a pod as to be resized where its containers' resources changed.
pub fn propose_resize(before: &Pod, pod: Pod) -> (r: Pod)
    ensures
        r@ == with_proposal(before@, pod@),
{
    let changed: bool = detect_container_resource_change(before, &pod);
    let mut out: Pod = pod;
    if changed {
        match out.status {
            Some(status) => {
                let mut s: PodStatus = status;
                s.resize = Some("Proposed".to_owned());
                out.status = Some(s);
            },
            None => {
                out.status = None;
            },
        }
    }
    out
}

/// What a container becomes when the resources of `desired` are taken over:
/// the first of its name takes those of the last of that name.
pub open spec fn merged_at(
    target: Seq<ContainerView>,
    desired: Seq<ContainerView>,
    i: int,
) -> ContainerView {
    if first_named(target, target[i].name) == Some(i) {
        match last_named(desired, target[i].name) {
            Some(j) => ContainerView { resources: desired[j].resources, ..target[i] },
            None => target[i],
        }
    } else {
        target[i]
    }
}

/// Containers with the resources of their namesakes in `desired`.
pub open spec fn merged(target: Seq<ContainerView>, desired: Seq<ContainerView>) -> Seq<
    ContainerView,
> {
    Seq::new(target.len(), |i: int| merged_at(target, desired, i))
}

/// A specification with the resources of `desired`.
pub open spec fn merged_spec(target: Option<PodSpecView>, desired: Option<PodSpecView>) -> Option<
    PodSpecView,
> {
    match (target, desired) {
        (Some(t), Some(d)) => Some(
            PodSpecView {
                containers: merged(t.containers, d.containers),
                init_containers: match (t.init_containers, d.init_containers) {
                    (Some(a), Some(b)) => Some(merged(a, b)),
                    _ => t.init_containers,
                },
                ..t
            },
        ),
        _ => target,
    }
}

/// Takes over the resources of the namesakes in `desired`; whether anything changed.
fn merge_containers(target: Vec<Container>, desired: &Vec<Container>) -> (r: (Vec<Container>, bool))
    ensures
        container_views(r.0@) == merged(container_views(target@), container_views(desired@)),
        r.1 == (container_views(r.0@) != container_views(target@)),
{
    let ghost t = container_views(target@);
    let ghost d = container_views(desired@);
    let ghost all = target@;
    let n: usize = target.len();
    let mut wanted: Vec<Option<usize>> = Vec::new();
    let mut i: usize = 0;
    while i < n
        invariant
            n == target@.len(),
            target@ == all,
            t == container_views(target@),
            d == container_views(desired@),
            i <= n,
            wanted@.len() == i,
            forall|k: int|
                0 <= k < i ==> match #[trigger] wanted@[k] {
                    Some(j) => j < desired@.len() && first_named(t, t[k].name) == Some(k)
                        && last_named(d, t[k].name) == Some(j as int),
                    None => first_named(t, t[k].name) != Some(k) || last_named(d, t[k].name) is None,
                },
        decreases n - i,
    {
        let name: &str = target[i].name.as_str();
        assert(t[i as int].name == name@);
        let first: Option<usize> = find_first(&target, name);
        let is_first: bool = match first {
            Some(k) => k == i,
            None => false,
        };
        if is_first {
            wanted.push(find_last(desired, name));
        } else {
            wanted.push(None);
        }
        i = i + 1;
    }
    let mut out: Vec<Container> = Vec::new();
    let mut changed: bool = false;
    for c in it: target
        invariant
            it.seq() == all,
            n == all.len(),
            t == container_views(all),
            d == container_views(desired@),
            wanted@.len() == n,
            forall|k: int|
                0 <= k < n ==> match #[trigger] wanted@[k] {
                    Some(j) => j < desired@.len() && first_named(t, t[k].name) == Some(k)
                        && last_named(d, t[k].name) == Some(j as int),
                    None => first_named(t, t[k].name) != Some(k) || last_named(d, t[k].name) is None,
                },
            out@.len() == it.index(),
            forall|k: int| 0 <= k < out@.len() ==> (#[trigger] out@[k])@ == merged_at(t, d, k),
            changed <==> exists|k: int| 0 <= k < out@.len() && (#[trigger] out@[k])@ != t[k],
    {
        let ghost k = it.index();
        let ghost before = out@;
        let at: usize = out.len();
        assert(c == all[k as int]);
        assert(t[k as int] == c@);
        let mut next: Container = c;
        let mut differs: bool = false;
        if let Some(j) = wanted[at] {
            assert(d[j as int] == desired@[j as int]@);
            differs = !same_resources(&next.resources, &desired[j].resources);
            next.resources = copy_resources(&desired[j].resources);
        }
        assert(next@ == merged_at(t, d, k as int));
        assert(differs == (next@ != t[k as int]));
        out.push(next);
        proof {
            if changed {
                let w = choose|w: int| 0 <= w < before.len() && (#[trigger] before[w])@ != t[w];
                assert(out@[w]@ != t[w]);
            }
            if differs {
                assert(out@[k as int]@ != t[k as int]);
            }
        }
        changed = changed || differs;
    }
    proof {
        assert(container_views(out@) =~= merged(t, d));
        if changed {
            let w = choose|w: int| 0 <= w < out@.len() && (#[trigger] out@[w])@ != t[w];
            assert(container_views(out@)[w] != t[w]);
        } else {
            assert(container_views(out@) =~= t) by {
                assert forall|w: int| 0 <= w < t.len() implies container_views(out@)[w] == t[w] by {
                    assert(out@[w]@ == t[w]);
                }
            }
        }
    }
    (out, changed)
}

/// Takes the resources of the containers and init containers of `desired`
/// over into `target`, by name; whether anything changed.
pub fn merge_container_resources_from(target: Pod, desired: &Pod) -> (r: (Pod, bool))
    ensures
        r.0@ == (PodView { spec: merged_spec(target@.spec, desired@.spec), ..target@ }),
        r.1 == (r.0@.spec != target@.spec),
{
    let ghost before = target@;
    let mut out: Pod = target;
    let mut changed: bool = false;
    match (out.spec, &desired.spec) {
        (Some(spec), Some(want)) => {
            let mut s: PodSpec = spec;
            let ghost old_view = s@;
            let (containers, first): (Vec<Container>, bool) = merge_containers(
                s.containers,
                &want.containers,
            );
            s.containers = containers;
            let mut second: bool = false;
            match (s.init_containers, &want.init_containers) {
                (Some(a), Some(b)) => {
                    let (inits, differ): (Vec<Container>, bool) = merge_containers(a, b);
                    s.init_containers = Some(inits);
                    second = differ;
                },
                (a, _) => {
                    s.init_containers = a;
                },
            }
            changed = first || second;
            assert(changed == (s@ != old_view));
            out.spec = Some(s);
        },
        (spec, _) => {
            out.spec = spec;
        },
    }
    (out, changed)
}

/// What a pod becomes by a resize. `grown` is its generation after one more change.
pub open spec fn resized_pod(p: PodView, desired: PodView, grown: Option<i64>) -> PodView {
    let spec = merged_spec(p.spec, desired.spec);
    PodView {
        metadata: crate::model::ObjectMetaView {
            generation: if spec != p.spec {
                grown
            } else {
                p.metadata.generation
            },
            ..p.metadata
        },
        spec,
        status: Some(
            PodStatusView { resize: Some("Proposed"@), ..status_or_empty(p.status) },
        ),
    }
}

/// Applies a resize to a pod as it is stored.
pub fn apply_pod_resize(fresh: Pod, desired: &Pod, grown: Option<i64>) -> (r: Pod)
    ensures
        r@ == resized_pod(fresh@, desired@, grown),
{
    let (merged_pod, changed): (Pod, bool) = merge_container_resources_from(fresh, desired);
    let mut out: Pod = merged_pod;
    if changed {
        out.metadata.generation = grown;
    }
    let mut status: PodStatus = match out.status {
        Some(s) => s,
        None => PodStatus::empty(),
    };
    status.resize = Some("Proposed".to_owned());
    out.status = Some(status);
    out
}

/// How often a resize is tried where others write at the same time.
pub const POD_RESIZE_MAX_RETRIES: usize = 5;

/// What follows a write.
pub enum Attempt<T> {
    Done(T),
    /// Others wrote first: read again and try once more.
    Again,
    Failed(Error),
}

/// What follows the write number `attempt`, counted from zero, of at most `most`.
pub open spec fn write_outcome<T>(attempt: usize, most: usize, result: Result<T, Error>) -> Attempt<
    T,
> {
    match result {
        Ok(x) => Attempt::Done(x),
        Err(e) => if e is Conflict && attempt + 1 < most {
            Attempt::Again
        } else {
            Attempt::Failed(e)
        },
    }
}

/// Decides what follows a write: a conflict is tried again, as long as there
/// are tries left; any other failure is final.
pub fn after_write<T>(attempt: usize, most: usize, result: Result<T, Error>) -> (r: Attempt<T>)
    ensures
        r == write_outcome(attempt, most, result),
{
    match result {
        Ok(x) => Attempt::Done(x),
        Err(e) => match e {
            Error::Conflict(m) => {
                if attempt < most && most - attempt > 1 {
                    Attempt::Again
                } else {
                    Attempt::Failed(Error::Conflict(m))
                }
            },
            other => Attempt::Failed(other),
        },
    }
}

/// The feature that a node declares once it can change the CPU of pods with
/// guaranteed resources.
pub open spec fn cpu_resize_feature() -> Seq<char> {
    "GuaranteedQoSPodCPUResize"@
}

/// Whether a container has CPU and memory in its requests and limits, and the
/// two are equal.
pub open spec fn requests_equal_limits(c: ContainerView) -> bool {
    c.resources matches Some(r) && has_both(r.limits) && has_both(r.requests) && r.requests
        == r.limits
}

/// Whether every container of a pod, which has some, has its resources guaranteed.
pub open spec fn is_guaranteed_pod(p: PodView) -> bool {
    p.spec matches Some(s) && s.containers.len() > 0 && forall|i: int|
        0 <= i < s.containers.len() ==> requests_equal_limits(#[trigger] s.containers[i])
}

/// Whether a pod's resources are guaranteed.
#[verifier::loop_isolation(false)]
pub fn is_guaranteed_qos(pod: &Pod) -> (r: bool)
    ensures
        r == is_guaranteed_pod(pod@),
{
    let cs: &Vec<Container> = match &pod.spec {
        Some(s) => &s.containers,
        None => {
            return false;
        },
    };
    if cs.len() == 0 {
        return false;
    }
    let ghost all = container_views(cs@);
    assert(pod@.spec->0.containers == all);
    let mut i: usize = 0;
    while i < cs.len()
        invariant
            i <= cs@.len(),
            forall|j: int| 0 <= j < i ==> requests_equal_limits(#[trigger] all[j]),
        decreases cs.len() - i,
    {
        assert(all[i as int] == cs@[i as int]@);
        let ok: bool = match &cs[i].resources {
            Some(r) => names_both(&r.limits) && same_map(&r.limits, &r.requests),
            None => false,
        };
        if !ok {
            assert(!requests_equal_limits(all[i as int]));
            return false;
        }
        i = i + 1;
    }
    true
}

/// The CPU entry of a map.
pub open spec fn cpu_of(m: Option<Map<Seq<char>, Seq<char>>>) -> Option<Seq<char>> {
    match m {
        Some(x) => if x.dom().contains("cpu"@) {
            Some(x["cpu"@])
        } else {
            None
        },
        None => None,
    }
}

/// The CPU that a container requests.
pub open spec fn cpu_request(c: ContainerView) -> Option<Seq<char>> {
    match c.resources {
        Some(r) => cpu_of(r.requests),
        None => None,
    }
}

/// The CPU that a container is limited to.
pub open spec fn cpu_limit(c: ContainerView) -> Option<Seq<char>> {
    match c.resources {
        Some(r) => cpu_of(r.limits),
        None => None,
    }
}

/// Whether the CPU of container `j` differs from that of its namesake.
pub open spec fn cpu_changes_at(
    current: Seq<ContainerView>,
    desired: Seq<ContainerView>,
    j: int,
) -> bool {
    match first_named(current, desired[j].name) {
        Some(i) => cpu_request(current[i]) != cpu_request(desired[j]) || cpu_limit(current[i])
            != cpu_limit(desired[j]),
        None => false,
    }
}

/// Whether the CPU request or limit of any container changes. A value on one
/// side only is a change.
pub open spec fn cpu_changes(current: Option<PodSpecView>, desired: Option<PodSpecView>) -> bool {
    match (current, desired) {
        (Some(c), Some(d)) => exists|j: int|
            0 <= j < d.containers.len() && #[trigger] cpu_changes_at(
                c.containers,
                d.containers,
                j,
            ),
        _ => false,
    }
}

fn cpu_entry(m: &Option<StringMap>) -> (r: Option<&String>)
    ensures
        match r {
            Some(v) => cpu_of(opt_map(*m)) == Some(v@),
            None => cpu_of(opt_map(*m)) is None,
        },
{
    match m {
        Some(x) => x.get("cpu"),
        None => None,
    }
}

fn same_entry(a: Option<&String>, b: Option<&String>) -> (r: bool)
    ensures
        r == match (a, b) {
            (Some(x), Some(y)) => x@ == y@,
            (None, None) => true,
            _ => false,
        },
{
    match (a, b) {
        (Some(x), Some(y)) => same(x.as_str(), y.as_str()),
        (None, None) => true,
        _ => false,
    }
}

fn same_cpu(a: &Container, b: &Container) -> (r: bool)
    ensures
        r == (cpu_request(a@) == cpu_request(b@) && cpu_limit(a@) == cpu_limit(b@)),
{
    let (ra, la): (Option<&String>, Option<&String>) = match &a.resources {
        Some(x) => (cpu_entry(&x.requests), cpu_entry(&x.limits)),
        None => (None, None),
    };
    let (rb, lb): (Option<&String>, Option<&String>) = match &b.resources {
        Some(x) => (cpu_entry(&x.requests), cpu_entry(&x.limits)),
        None => (None, None),
    };
    same_entry(ra, rb) && same_entry(la, lb)
}

/// Whether a resize changes the CPU of any container.
#[verifier::loop_isolation(false)]
pub fn resize_changes_cpu(current: &Pod, desired: &Pod) -> (r: bool)
    ensures
        r == cpu_changes(current@.spec, desired@.spec),
{
    let (cur, des): (&Vec<Container>, &Vec<Container>) = match (&current.spec, &desired.spec) {
        (Some(a), Some(b)) => (&a.containers, &b.containers),
        _ => {
            return false;
        },
    };
    let ghost c = container_views(cur@);
    let ghost d = container_views(des@);
    assert(current@.spec->0.containers == c && desired@.spec->0.containers == d);
    let mut j: usize = 0;
    while j < des.len()
        invariant
            j <= des@.len(),
            forall|k: int| 0 <= k < j ==> !#[trigger] cpu_changes_at(c, d, k),
        decreases des.len() - j,
    {
        assert(d[j as int] == des@[j as int]@);
        if let Some(i) = find_first(cur, des[j].name.as_str()) {
            assert(c[i as int] == cur@[i as int]@);
            if !same_cpu(&cur[i], &des[j]) {
                assert(cpu_changes_at(c, d, j as int));
                return true;
            }
        }
        assert(!cpu_changes_at(c, d, j as int));
        j = j + 1;
    }
    false
}

/// The node that has to be asked whether it can do a resize.
pub open spec fn node_to_ask(gates_on: bool, current: PodView, desired: PodView) -> Option<
    Seq<char>,
> {
    if gates_on && is_guaranteed_pod(current) && cpu_changes(current.spec, desired.spec)
        && node_of(current).len() > 0 {
        Some(node_of(current))
    } else {
        None
    }
}

/// The node that has to be asked whether it can do a resize: that of a bound
/// pod with guaranteed resources whose CPU changes, while both feature gates
/// are on.
pub fn resize_node_to_ask<'a>(
    node_declared_features: bool,
    in_place_scaling: bool,
    current: &'a Pod,
    desired: &Pod,
) -> (r: Option<&'a str>)
    ensures
        match r {
            Some(n) => node_to_ask(
                node_declared_features && in_place_scaling,
                current@,
                desired@,
            ) == Some(n@),
            None => node_to_ask(
                node_declared_features && in_place_scaling,
                current@,
                desired@,
            ) is None,
        },
{
    if !node_declared_features || !in_place_scaling {
        return None;
    }
    if !is_guaranteed_qos(current) || !resize_changes_cpu(current, desired) {
        return None;
    }
    let node: &str = pod_node(current);
    if node.is_empty() {
        None
    } else {
        Some(node)
    }
}

/// Why a resize is refused by what was found of the node.
pub open spec fn feature_refusal(
    node: Seq<char>,
    found: Result<Option<Vec<String>>, Error>,
) -> Option<ErrorView> {
    match found {
        Ok(features) => if features is Some && texts(features->0@).contains(cpu_resize_feature()) {
            None
        } else {
            Some(
                ErrorView::Forbidden(
                    "spec.containers[*].resources: Forbidden: node \""@ + node
                        + "\" has not declared feature \""@ + cpu_resize_feature() + "\""@,
                ),
            )
        },
        Err(e) => if e is NotFound {
            None
        } else {
            Some(e@)
        },
    }
}

/// Checks that the node has declared the feature. A node that does not exist
/// is no obstacle.
pub fn check_node_declared_features_for_resize(
    node: &str,
    found: Result<Option<Vec<String>>, Error>,
) -> (r: Result<(), Error>)
    ensures
        match r {
            Ok(_) => feature_refusal(node@, found) is None,
            Err(e) => feature_refusal(node@, found) == Some(e@),
        },
{
    match found {
        Ok(features) => {
            let declared: bool = match &features {
                Some(list) => contains_text(list.as_slice(), "GuaranteedQoSPodCPUResize"),
                None => false,
            };
            if declared {
                Ok(())
            } else {
                let mut m: String =
                    "spec.containers[*].resources: Forbidden: node \"".to_owned();
                m.append(node);
                m.append("\" has not declared feature \"");
                m.append("GuaranteedQoSPodCPUResize");
                m.append("\"");
                Err(Error::Forbidden(m))
            }
        },
        Err(e) => match e {
            Error::NotFound(_) => Ok(()),
            other => Err(other),
        },
    }
}

proof fn lemma_first_named_by_names(a: Seq<ContainerView>, b: Seq<ContainerView>, name: Seq<char>, i: int)
    requires
        a.len() == b.len(),
        forall|k: int| 0 <= k < a.len() ==> (#[trigger] a[k]).name == b[k].name,
    ensures
        first_named_from(a, name, i) == first_named_from(b, name, i),
    decreases a.len() - i,
{
    if 0 <= i < a.len() {
        assert(a[i].name == b[i].name);
        if a[i].name != name {
            lemma_first_named_by_names(a, b, name, i + 1);
        }
    }
}

proof fn lemma_merge_twice(t: Seq<ContainerView>, d: Seq<ContainerView>)
    ensures
        merged(merged(t, d), d) == merged(t, d),
{
    let m = merged(t, d);
    assert forall|k: int| 0 <= k < t.len() implies (#[trigger] m[k]).name == t[k].name by {}
    assert forall|i: int| 0 <= i < m.len() implies merged_at(m, d, i) == m[i] by {
        assert(m[i].name == t[i].name);
        lemma_first_named_by_names(m, t, t[i].name, 0);
    }
    assert(merged(m, d) =~= m);
}

/// A resize that is applied a second time changes neither the specification
/// nor the generation.
pub proof fn law_resize_again_is_no_change(
    p: PodView,
    desired: PodView,
    grown: Option<i64>,
    grown_again: Option<i64>,
)
    ensures
        resized_pod(resized_pod(p, desired, grown), desired, grown_again) == resized_pod(
            p,
            desired,
            grown,
        ),
{
    if p.spec is Some && desired.spec is Some {
        let t = p.spec->0;
        let d = desired.spec->0;
        lemma_merge_twice(t.containers, d.containers);
        if t.init_containers is Some && d.init_containers is Some {
            lemma_merge_twice(t.init_containers->0, d.init_containers->0);
        }
    }
}

/// A resize raises the generation if and only if it changes the specification.
pub proof fn law_resize_raises_generation_on_change(p: PodView, desired: PodView, grown: i64)
    requires
        p.metadata.generation != Some(grown),
    ensures
        (resized_pod(p, desired, Some(grown)).metadata.generation == Some(grown)) <==> resized_pod(
            p,
            desired,
            Some(grown),
        ).spec != p.spec,
{
}

/// A resize leaves every container where it is, under its name, and touches
/// none that the request does not name.
pub proof fn law_resize_keeps_other_containers(
    target: Seq<ContainerView>,
    desired: Seq<ContainerView>,
    i: int,
)
    requires
        0 <= i < target.len(),
    ensures
        merged(target, desired).len() == target.len(),
        merged(target, desired)[i].name == target[i].name,
        last_named(desired, target[i].name) is None ==> merged(target, desired)[i] == target[i],
{
}

/// A pod whose containers' resources stay the same is not resized.
pub proof fn law_unchanged_pod_is_not_resized(spec: PodSpecView)
    requires
        forall|i: int, j: int|
            0 <= i < j < spec.containers.len() ==> (#[trigger] spec.containers[i]).name != (
            #[trigger] spec.containers[j]).name,
    ensures
        !resized(Some(spec), Some(spec)),
{
    assert forall|j: int| 0 <= j < spec.containers.len() implies !resized_at(
        spec.containers,
        spec.containers,
        j,
    ) by {
        lemma_first_named_is(spec.containers, j, 0);
    }
}

proof fn lemma_first_named_is(cs: Seq<ContainerView>, j: int, i: int)
    requires
        0 <= i <= j < cs.len(),
        forall|a: int, b: int|
            0 <= a < b < cs.len() ==> (#[trigger] cs[a]).name != (#[trigger] cs[b]).name,
    ensures
        first_named_from(cs, cs[j].name, i) == Some(j),
    decreases j - i,
{
    if i < j {
        assert(cs[i].name != cs[j].name);
        lemma_first_named_is(cs, j, i + 1);
    }
}

/// What is asked of a pod that is to be resized.
pub struct ResizeRequest {
    /// The pod with the resources that are wanted, or what the decoder says of
    /// the body.
    pub desired: Result<Pod, String>,
    /// Whether the feature gates for declared features and for scaling in place
    /// are on.
    pub node_declared_features: bool,
    pub in_place_scaling: bool,
}

/// How far a resize has come: what to do next, or the outcome.
pub enum Resizing {
    /// Ask the authorizer.
    Authorize,
    /// Read the pod.
    ReadPod,
    /// Ask which features the node declares.
    AskNode { node: String, current: Pod, projected: Pod },
    /// Check the quota: the pod would change from `current` to `projected`.
    CheckQuota { current: Pod, projected: Pod },
    /// Read the pod as it is now, for the write number `attempt`.
    Reread { attempt: usize },
    /// Write the resized pod.
    Write { pod: Pod, attempt: usize },
    Done(Pod),
    Failed(Error),
}

/// What came of it.
pub enum ResizeReply {
    Decided(Decision),
    /// The pod, and what its generation becomes if its specification changes.
    Pod(Pod, Option<i64>),
    Features(Result<Option<Vec<String>>, Error>),
    /// Whether the quota allows it; nothing where that could not be found out.
    Quota(Option<bool>),
    Written(Result<Pod, Error>),
    Error(Error),
}

/// What a body that does not decode is refused with.
pub open spec fn resize_body_refusal(message: Seq<char>) -> ErrorView {
    ErrorView::InvalidResource("failed to decode resize body: "@ + message)
}

/// Whether `next` follows when `reply` answers what `at` waits for.
pub open spec fn resizes(
    req: ResizeRequest,
    at: Resizing,
    reply: ResizeReply,
    next: Resizing,
) -> bool {
    match (at, reply) {
        (Resizing::Authorize, ResizeReply::Error(e)) => next == Resizing::Failed(e),
        (Resizing::Authorize, ResizeReply::Decided(Decision::Deny(reason))) => next
            == Resizing::Failed(Error::Forbidden(reason)),
        (Resizing::Authorize, ResizeReply::Decided(Decision::Allow)) => match req.desired {
            Ok(_) => next == Resizing::ReadPod,
            Err(m) => next matches Resizing::Failed(e) && e@ == resize_body_refusal(m@),
        },
        (Resizing::ReadPod, ResizeReply::Error(e)) => next == Resizing::Failed(e),
        (Resizing::ReadPod, ResizeReply::Pod(p, _)) => match req.desired {
            Ok(d) => {
                let projected = PodView { spec: merged_spec(p@.spec, d@.spec), ..p@ };
                match node_to_ask(
                    req.node_declared_features && req.in_place_scaling,
                    p@,
                    projected,
                ) {
                    Some(n) => next matches Resizing::AskNode { node, current, projected: q }
                        && node@ == n && current@ == p@ && q@ == projected,
                    None => next matches Resizing::CheckQuota { current, projected: q }
                        && current@ == p@ && q@ == projected,
                }
            },
            Err(m) => next matches Resizing::Failed(e) && e@ == resize_body_refusal(m@),
        },
        (Resizing::AskNode { .. }, ResizeReply::Error(e)) => next == Resizing::Failed(e),
        (
            Resizing::AskNode { node, current, projected },
            ResizeReply::Features(found),
        ) => match feature_refusal(node@, found) {
            Some(why) => next matches Resizing::Failed(e) && e@ == why,
            None => next == (Resizing::CheckQuota { current, projected }),
        },
        (Resizing::CheckQuota { .. }, ResizeReply::Quota(within)) => if within == Some(false) {
            next matches Resizing::Failed(e) && e@ == ErrorView::Forbidden("exceeded quota"@)
        } else {
            next == (Resizing::Reread { attempt: 0 })
        },
        (Resizing::Reread { .. }, ResizeReply::Error(e)) => next == Resizing::Failed(e),
        (Resizing::Reread { attempt }, ResizeReply::Pod(p, grown)) => match req.desired {
            Ok(d) => next matches Resizing::Write { pod, attempt: n } && n == attempt && pod@
                == resized_pod(p@, d@, grown),
            Err(m) => next matches Resizing::Failed(e) && e@ == resize_body_refusal(m@),
        },
        (Resizing::Write { attempt, .. }, ResizeReply::Written(result)) => match write_outcome(
            attempt,
            POD_RESIZE_MAX_RETRIES,
            result,
        ) {
            Attempt::Done(pod) => next == Resizing::Done(pod),
            Attempt::Again => next == (Resizing::Reread { attempt: (attempt + 1) as usize }),
            Attempt::Failed(e) => next == Resizing::Failed(e),
        },
        (other, _) => next == other,
    }
}

fn refuse_resize_body(message: &str) -> (e: Error)
    ensures
        e@ == resize_body_refusal(message@),
{
    let mut m: String = "failed to decode resize body: ".to_owned();
    m.append(message);
    Error::InvalidResource(m)
}

fn project(req: &ResizeRequest, current: Pod, desired: &Pod) -> (next: Resizing)
    requires
        req.desired is Ok && req.desired->Ok_0 == *desired,
    ensures
        resizes(*req, Resizing::ReadPod, ResizeReply::Pod(current, None), next),
{
    let (projected, _changed): (Pod, bool) = merge_container_resources_from(
        current.duplicate(),
        desired,
    );
    let node: Option<String> = match resize_node_to_ask(
        req.node_declared_features,
        req.in_place_scaling,
        &current,
        &projected,
    ) {
        Some(n) => Some(n.to_owned()),
        None => None,
    };
    match node {
        Some(node) => Resizing::AskNode { node, current, projected },
        None => Resizing::CheckQuota { current, projected },
    }
}

/// One step of resizing a pod in place. Starts at [`Resizing::Authorize`]; a
/// reply that answers nothing changes nothing.
pub fn resize_step(req: &ResizeRequest, at: Resizing, reply: ResizeReply) -> (next: Resizing)
    ensures
        resizes(*req, at, reply, next),
{
    match (at, reply) {
        (Resizing::Authorize, ResizeReply::Error(e)) => Resizing::Failed(e),
        (Resizing::Authorize, ResizeReply::Decided(Decision::Deny(reason))) => Resizing::Failed(
            Error::Forbidden(reason),
        ),
        (Resizing::Authorize, ResizeReply::Decided(Decision::Allow)) => match &req.desired {
            Ok(_) => Resizing::ReadPod,
            Err(m) => Resizing::Failed(refuse_resize_body(m.as_str())),
        },
        (Resizing::ReadPod, ResizeReply::Error(e)) => Resizing::Failed(e),
        (Resizing::ReadPod, ResizeReply::Pod(p, _)) => match &req.desired {
            Ok(d) => project(req, p, d),
            Err(m) => Resizing::Failed(refuse_resize_body(m.as_str())),
        },
        (Resizing::AskNode { .. }, ResizeReply::Error(e)) => Resizing::Failed(e),
        (Resizing::AskNode { node, current, projected }, ResizeReply::Features(found)) => {
            match check_node_declared_features_for_resize(node.as_str(), found) {
                Ok(_) => Resizing::CheckQuota { current, projected },
                Err(e) => Resizing::Failed(e),
            }
        },
        (Resizing::CheckQuota { .. }, ResizeReply::Quota(within)) => match within {
            Some(false) => Resizing::Failed(Error::Forbidden("exceeded quota".to_owned())),
            _ => Resizing::Reread { attempt: 0 },
        },
        (Resizing::Reread { .. }, ResizeReply::Error(e)) => Resizing::Failed(e),
        (Resizing::Reread { attempt }, ResizeReply::Pod(p, grown)) => match &req.desired {
            Ok(d) => Resizing::Write { pod: apply_pod_resize(p, d, grown), attempt },
            Err(m) => Resizing::Failed(refuse_resize_body(m.as_str())),
        },
        (Resizing::Write { attempt, .. }, ResizeReply::Written(result)) => {
            match after_write(attempt, POD_RESIZE_MAX_RETRIES, result) {
                Attempt::Done(pod) => Resizing::Done(pod),
                Attempt::Again => Resizing::Reread { attempt: attempt + 1 },
                Attempt::Failed(e) => Resizing::Failed(e),
            }
        },
        (other, _) => other,
    }
}

/// A pod is resized only after permission, and after the quota did not object:
/// the only way to the first write leads through both.
pub proof fn law_resize_passes_the_quota(
    req: ResizeRequest,
    at: Resizing,
    reply: ResizeReply,
    next: Resizing,
)
    requires
        resizes(req, at, reply, next),
    ensures
        next is Write && !(at is Write) ==> at is Reread,
        next is Reread && next->Reread_attempt == 0 && !(at is Reread) ==> at is CheckQuota
            && reply is Quota && reply->Quota_0 != Some(false),
        next is ReadPod && !(at is ReadPod) ==> at is Authorize && reply
            == ResizeReply::Decided(Decision::Allow),
{
}

/// Every try reads the pod anew, and the tries run out.
pub proof fn law_resize_tries_run_out(
    req: ResizeRequest,
    at: Resizing,
    reply: ResizeReply,
    next: Resizing,
)
    requires
        resizes(req, at, reply, next),
        at is Write,
        !(next is Write),
    ensures
        next is Done || next is Failed || (next is Reread && next->Reread_attempt
            == at->Write_attempt + 1 && next->Reread_attempt < POD_RESIZE_MAX_RETRIES),
{
}

} // verus!
