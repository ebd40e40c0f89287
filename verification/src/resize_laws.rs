//! What a resize changes, and what it leaves.
use vstd::prelude::*;
use crate::access::Decision;
use crate::error::{Error, ErrorView};
use crate::model::{ContainerView, ObjectMetaView, Pod, PodSpecView, PodStatusView, PodView};
use crate::resize::{
    first_named, first_named_from, last_named, last_named_in, merged, resized, resizes,
    with_proposal, Resizing, ResizeReply, ResizeRequest,
};

verus! {

/// Whether no two containers have the same name.
pub open spec fn distinct_names(cs: Seq<ContainerView>) -> bool {
    forall|a: int, b: int|
        0 <= a < b < cs.len() ==> (#[trigger] cs[a]).name != (#[trigger] cs[b]).name
}

/// Whether a container of this name is there.
pub open spec fn is_named(cs: Seq<ContainerView>, name: Seq<char>) -> bool {
    exists|j: int| 0 <= j < cs.len() && (#[trigger] cs[j]).name == name
}

proof fn lemma_first(cs: Seq<ContainerView>, name: Seq<char>, i: int)
    requires
        0 <= i,
    ensures
        match first_named_from(cs, name, i) {
            Some(k) => i <= k < cs.len() && cs[k].name == name && forall|j: int|
                i <= j < k ==> (#[trigger] cs[j]).name != name,
            None => forall|j: int| i <= j < cs.len() ==> (#[trigger] cs[j]).name != name,
        },
    decreases cs.len() - i,
{
    if i < cs.len() && cs[i].name != name {
        lemma_first(cs, name, i + 1);
    }
}

proof fn lemma_last(cs: Seq<ContainerView>, name: Seq<char>, n: int)
    requires
        0 <= n <= cs.len(),
    ensures
        match last_named_in(cs, name, n) {
            Some(k) => 0 <= k < n && cs[k].name == name && forall|j: int|
                k < j < n ==> (#[trigger] cs[j]).name != name,
            None => forall|j: int| 0 <= j < n ==> (#[trigger] cs[j]).name != name,
        },
    decreases n,
{
    if n > 0 && cs[n - 1].name != name {
        lemma_last(cs, name, n - 1);
    }
}

/// After a resize each container that the request names has exactly the
/// resources of the request, its requests, limits and claims alike, under its
/// name and in its place; each other one is what it was.
pub proof fn law_named_containers_get_what_was_asked(
    target: Seq<ContainerView>,
    desired: Seq<ContainerView>,
    i: int,
)
    requires
        distinct_names(target),
        distinct_names(desired),
        0 <= i < target.len(),
    ensures
        merged(target, desired).len() == target.len(),
        merged(target, desired)[i].name == target[i].name,
        forall|j: int|
            0 <= j < desired.len() && (#[trigger] desired[j]).name == target[i].name ==> merged(
                target,
                desired,
            )[i].resources == desired[j].resources,
        !is_named(desired, target[i].name) ==> merged(target, desired)[i].resources
            == target[i].resources,
{
    lemma_first(target, target[i].name, 0);
    lemma_last(desired, target[i].name, desired.len() as int);
    let k = first_named(target, target[i].name);
    assert(k == Some(i)) by {
        if k is Some && k->0 < i {
            assert(target[k->0].name != target[i].name);
        }
        if k is Some && k->0 > i {
            assert(target[i].name != target[i].name);
        }
    }
    match last_named(desired, target[i].name) {
        Some(l) => {
            assert forall|j: int|
                0 <= j < desired.len() && (#[trigger] desired[j]).name
                    == target[i].name implies merged(target, desired)[i].resources
                == desired[j].resources by {
                if j < l {
                    assert(desired[j].name != desired[l].name);
                }
            }
            assert(is_named(desired, target[i].name));
        },
        None => {},
    }
}

/// Where names stand more than once, the first container of a name gets what
/// the last of that name in the request says, and the others stay.
pub proof fn law_repeated_names(target: Seq<ContainerView>, desired: Seq<ContainerView>, i: int)
    requires
        0 <= i < target.len(),
    ensures
        (exists|k: int| 0 <= k < i && (#[trigger] target[k]).name == target[i].name) ==> merged(
            target,
            desired,
        )[i] == target[i],
        forall|j: int|
            0 <= j < desired.len() && (#[trigger] desired[j]).name == target[i].name && (forall|
                k: int,
            |
                0 <= k < i ==> (#[trigger] target[k]).name != target[i].name) && (forall|k: int|
                j < k < desired.len() ==> (#[trigger] desired[k]).name != target[i].name)
                ==> merged(target, desired)[i].resources == desired[j].resources,
{
    lemma_first(target, target[i].name, 0);
    lemma_last(desired, target[i].name, desired.len() as int);
    let f = first_named(target, target[i].name);
    if exists|k: int| 0 <= k < i && (#[trigger] target[k]).name == target[i].name {
        let k = choose|k: int| 0 <= k < i && (#[trigger] target[k]).name == target[i].name;
        assert(f != Some(i));
    }
    assert forall|j: int|
        0 <= j < desired.len() && (#[trigger] desired[j]).name == target[i].name && (forall|
            k: int,
        |
            0 <= k < i ==> (#[trigger] target[k]).name != target[i].name) && (forall|k: int|
            j < k < desired.len() ==> (#[trigger] desired[k]).name
                != target[i].name) implies merged(target, desired)[i].resources
        == desired[j].resources by {
        if f is None {
            assert(target[i].name != target[i].name);
        }
        assert(f == Some(i)) by {
            if f->0 < i {
                assert(target[f->0].name != target[i].name);
            }
            if f->0 > i {
                assert(target[i].name != target[i].name);
            }
        }
        let l = last_named(desired, target[i].name);
        if l is None {
            assert(desired[j].name != target[i].name);
        }
        if l->0 < j {
            assert(desired[j].name != target[i].name);
        }
        if l->0 > j {
            assert(desired[l->0].name != target[i].name);
        }
    }
}

/// Whether containers are what the request makes of them.
pub open spec fn as_asked(
    before: Seq<ContainerView>,
    desired: Seq<ContainerView>,
    after: Seq<ContainerView>,
) -> bool {
    &&& after.len() == before.len()
    &&& forall|i: int| 0 <= i < before.len() ==> (#[trigger] after[i]).name == before[i].name
    &&& forall|i: int, j: int|
        0 <= i < before.len() && 0 <= j < desired.len() && (#[trigger] desired[j]).name
            == before[i].name ==> (#[trigger] after[i]).resources == desired[j].resources
    &&& forall|i: int|
        0 <= i < before.len() && !is_named(desired, before[i].name) ==> #[trigger] after[i]
            == before[i]
}

pub proof fn lemma_as_asked(before: Seq<ContainerView>, desired: Seq<ContainerView>)
    requires
        distinct_names(before),
        distinct_names(desired),
    ensures
        as_asked(before, desired, merged(before, desired)),
{
    let after = merged(before, desired);
    assert forall|i: int| 0 <= i < before.len() implies (#[trigger] after[i]).name
        == before[i].name by {}
    assert forall|i: int, j: int|
        0 <= i < before.len() && 0 <= j < desired.len() && (#[trigger] desired[j]).name
            == before[i].name implies (#[trigger] after[i]).resources == desired[j].resources by {
        law_named_containers_get_what_was_asked(before, desired, i);
    }
    assert forall|i: int|
        0 <= i < before.len() && !is_named(desired, before[i].name) implies #[trigger] after[i]
        == before[i] by {
        law_named_containers_get_what_was_asked(before, desired, i);
    }
}

/// Whether a specification is what the request makes of it: its containers and
/// init containers by name, and nothing else.
pub open spec fn spec_as_asked(
    before: PodSpecView,
    desired: PodSpecView,
    after: PodSpecView,
) -> bool {
    &&& as_asked(before.containers, desired.containers, after.containers)
    &&& before.init_containers is Some <==> after.init_containers is Some
    &&& before.init_containers is Some && desired.init_containers is Some ==> as_asked(
        before.init_containers->0,
        desired.init_containers->0,
        after.init_containers->0,
    )
    &&& desired.init_containers is None ==> after.init_containers == before.init_containers
    &&& after == (PodSpecView {
        containers: after.containers,
        init_containers: after.init_containers,
        ..before
    })
}

/// Whether the containers and init containers of a specification have distinct
/// names.
pub open spec fn names_are_distinct(s: PodSpecView) -> bool {
    distinct_names(s.containers) && (s.init_containers is Some ==> distinct_names(
        s.init_containers->0,
    ))
}

/// The pod that is written has the resources that were asked for, and is
/// otherwise as it was read: but for `Proposed` as its resize status, and for
/// its generation, which is the next one if and only if the specification
/// changes.
pub proof fn law_written_pod_has_what_was_asked(
    req: ResizeRequest,
    attempt: usize,
    p: Pod,
    grown: Option<i64>,
    next: Resizing,
)
    requires
        resizes(req, Resizing::Reread { attempt }, ResizeReply::Pod(p, grown), next),
        req.desired is Ok,
        p@.spec is Some,
        req.desired->Ok_0@.spec is Some,
        names_are_distinct(p@.spec->0),
        names_are_distinct(req.desired->Ok_0@.spec->0),
    ensures
        next is Write,
        next->Write_attempt == attempt,
        ({
            let q = next->Write_pod@;
            &&& q.spec is Some
            &&& spec_as_asked(p@.spec->0, req.desired->Ok_0@.spec->0, q.spec->0)
            &&& q.metadata == (ObjectMetaView { generation: q.metadata.generation, ..p@.metadata })
            &&& q.spec != p@.spec ==> q.metadata.generation == grown
            &&& q.spec == p@.spec ==> q.metadata.generation == p@.metadata.generation
            &&& q.status is Some
            &&& q.status->0.resize == Some("Proposed"@)
            &&& p@.status is Some ==> q.status->0 == (PodStatusView {
                resize: q.status->0.resize,
                ..p@.status->0
            })
            &&& p@.status is None ==> q.status->0.phase is None && q.status->0.qos_class is None
                && q.status->0.conditions is None
        }),
{
    let b = p@.spec->0;
    let d = req.desired->Ok_0@.spec->0;
    lemma_as_asked(b.containers, d.containers);
    if b.init_containers is Some && d.init_containers is Some {
        lemma_as_asked(b.init_containers->0, d.init_containers->0);
    }
}

/// A pod or a request without a specification has nothing to resize.
pub proof fn law_nothing_to_resize(
    req: ResizeRequest,
    attempt: usize,
    p: Pod,
    grown: Option<i64>,
    next: Resizing,
)
    requires
        resizes(req, Resizing::Reread { attempt }, ResizeReply::Pod(p, grown), next),
        req.desired is Ok,
        p@.spec is None || req.desired->Ok_0@.spec is None,
    ensures
        next is Write,
        next->Write_pod@.spec == p@.spec,
        next->Write_pod@.metadata == p@.metadata,
{
}

/// The quota is asked about the pod as it is and as it would be: with the
/// resources that were asked for, and otherwise as it is.
pub proof fn law_quota_sees_what_was_asked(
    req: ResizeRequest,
    p: Pod,
    g: Option<i64>,
    next: Resizing,
)
    requires
        resizes(req, Resizing::ReadPod, ResizeReply::Pod(p, g), next),
        req.desired is Ok,
        p@.spec is Some,
        req.desired->Ok_0@.spec is Some,
        names_are_distinct(p@.spec->0),
        names_are_distinct(req.desired->Ok_0@.spec->0),
    ensures
        next is CheckQuota || next is AskNode,
        ({
            let current = if next is AskNode {
                next->AskNode_current@
            } else {
                next->CheckQuota_current@
            };
            let projected = if next is AskNode {
                next->AskNode_projected@
            } else {
                next->CheckQuota_projected@
            };
            &&& current == p@
            &&& projected.spec is Some
            &&& spec_as_asked(p@.spec->0, req.desired->Ok_0@.spec->0, projected.spec->0)
            &&& projected.metadata == p@.metadata
            &&& projected.status == p@.status
        }),
{
    let b = p@.spec->0;
    let d = req.desired->Ok_0@.spec->0;
    lemma_as_asked(b.containers, d.containers);
    if b.init_containers is Some && d.init_containers is Some {
        lemma_as_asked(b.init_containers->0, d.init_containers->0);
    }
}

/// The CPU that a map gives.
pub open spec fn cpu_in(m: Option<Map<Seq<char>, Seq<char>>>) -> Option<Seq<char>> {
    match m {
        Some(x) => if x.dom().contains("cpu"@) {
            Some(x["cpu"@])
        } else {
            None
        },
        None => None,
    }
}

/// The CPU requested and the CPU limit of a container.
pub open spec fn cpu_pair(c: ContainerView) -> (Option<Seq<char>>, Option<Seq<char>>) {
    match c.resources {
        Some(r) => (cpu_in(r.requests), cpu_in(r.limits)),
        None => (None, None),
    }
}

/// Whether a container's requests are its limits, with CPU and memory among
/// them.
pub open spec fn has_guarantee(c: ContainerView) -> bool {
    match c.resources {
        Some(r) => r.limits is Some && r.limits == r.requests && r.limits->0.dom().contains("cpu"@)
            && r.limits->0.dom().contains("memory"@),
        None => false,
    }
}

/// The node is asked if and only if both feature gates are on, every container
/// of the pod has a guarantee, the CPU of one that the request names would
/// change, and the pod has a node; and then it is that node.
pub proof fn law_when_the_node_is_asked(
    req: ResizeRequest,
    p: Pod,
    g: Option<i64>,
    next: Resizing,
)
    requires
        resizes(req, Resizing::ReadPod, ResizeReply::Pod(p, g), next),
        req.desired is Ok,
        p@.spec is Some,
        req.desired->Ok_0@.spec is Some,
        names_are_distinct(p@.spec->0),
        names_are_distinct(req.desired->Ok_0@.spec->0),
    ensures
        ({
            let s = p@.spec->0;
            let d = req.desired->Ok_0@.spec->0;
            &&& next is AskNode <==> {
                &&& req.node_declared_features
                &&& req.in_place_scaling
                &&& s.containers.len() > 0
                &&& forall|i: int|
                    0 <= i < s.containers.len() ==> has_guarantee(#[trigger] s.containers[i])
                &&& exists|i: int, j: int|
                    0 <= i < s.containers.len() && 0 <= j < d.containers.len() && (
                    #[trigger] s.containers[i]).name == (#[trigger] d.containers[j]).name
                        && cpu_pair(s.containers[i]) != cpu_pair(d.containers[j])
                &&& s.node_name is Some
                &&& s.node_name->0.len() > 0
            }
            &&& next is AskNode ==> Some(next->AskNode_node@) == s.node_name
        }),
{
    let s = p@.spec->0;
    let d = req.desired->Ok_0@.spec->0;
    let m = merged(s.containers, d.containers);
    assert forall|i: int| 0 <= i < s.containers.len() implies has_guarantee(
        #[trigger] s.containers[i],
    ) == crate::resize::requests_equal_limits(s.containers[i]) by {}
    if s.containers.len() > 0 && (forall|i: int|
        0 <= i < s.containers.len() ==> has_guarantee(#[trigger] s.containers[i])) {
        assert(crate::resize::is_guaranteed_pod(p@)) by {
            assert forall|i: int|
                0 <= i
                    < s.containers.len() implies #[trigger] crate::resize::requests_equal_limits(
                s.containers[i],
            ) by {
                assert(has_guarantee(s.containers[i]));
            }
        }
    }
    if crate::resize::is_guaranteed_pod(p@) {
        assert forall|i: int| 0 <= i < s.containers.len() implies has_guarantee(
            #[trigger] s.containers[i],
        ) by {
            assert(crate::resize::requests_equal_limits(s.containers[i]));
        }
    }
    lemma_cpu(s.containers, d.containers);
    reveal_strlit("");
    let projected = PodView {
        spec: crate::resize::merged_spec(p@.spec, req.desired->Ok_0@.spec),
        ..p@
    };
    assert(projected.spec->0.containers == m);
    let changes = exists|i: int, j: int|
        0 <= i < s.containers.len() && 0 <= j < d.containers.len() && (
        #[trigger] s.containers[i]).name == (#[trigger] d.containers[j]).name && cpu_pair(
            s.containers[i],
        ) != cpu_pair(d.containers[j]);
    assert(crate::resize::cpu_changes(p@.spec, projected.spec) == changes);
    assert(crate::resize::is_guaranteed_pod(p@) == (s.containers.len() > 0 && forall|i: int|
        0 <= i < s.containers.len() ==> has_guarantee(#[trigger] s.containers[i])));
    assert(next is AskNode == (crate::resize::node_to_ask(
        req.node_declared_features && req.in_place_scaling,
        p@,
        projected,
    ) is Some));
}

proof fn lemma_cpu(s: Seq<ContainerView>, d: Seq<ContainerView>)
    requires
        distinct_names(s),
        distinct_names(d),
    ensures
        (exists|j: int|
            0 <= j < merged(s, d).len() && #[trigger] crate::resize::cpu_changes_at(
                s,
                merged(s, d),
                j,
            )) <==> exists|i: int, j: int|
            0 <= i < s.len() && 0 <= j < d.len() && (#[trigger] s[i]).name == (
            #[trigger] d[j]).name && cpu_pair(s[i]) != cpu_pair(d[j]),
{
    let m = merged(s, d);
    lemma_as_asked(s, d);
    assert forall|k: int| 0 <= k < s.len() implies first_named(s, #[trigger] m[k].name) == Some(
        k,
    ) by {
        lemma_first(s, s[k].name, 0);
        let f = first_named(s, s[k].name);
        if f is Some && f->0 < k {
            assert(s[f->0].name != s[k].name);
        }
        if f is None || f->0 > k {
            assert(s[k].name != s[k].name);
        }
    }
    if exists|j: int|
        0 <= j < m.len() && #[trigger] crate::resize::cpu_changes_at(s, m, j) {
        let k = choose|j: int|
            0 <= j < m.len() && #[trigger] crate::resize::cpu_changes_at(s, m, j);
        assert(first_named(s, m[k].name) == Some(k));
        if !is_named(d, s[k].name) {
            assert(m[k] == s[k]);
        }
        let j = choose|j: int| 0 <= j < d.len() && (#[trigger] d[j]).name == s[k].name;
        assert(m[k].resources == d[j].resources);
        assert(s[k].name == d[j].name && cpu_pair(s[k]) != cpu_pair(d[j]));
    }
    if exists|i: int, j: int|
        0 <= i < s.len() && 0 <= j < d.len() && (#[trigger] s[i]).name == (#[trigger] d[j]).name
            && cpu_pair(s[i]) != cpu_pair(d[j]) {
        let (i, j) = choose|i: int, j: int|
            0 <= i < s.len() && 0 <= j < d.len() && (#[trigger] s[i]).name == (
            #[trigger] d[j]).name && cpu_pair(s[i]) != cpu_pair(d[j]);
        assert(m[i].resources == d[j].resources);
        assert(first_named(s, m[i].name) == Some(i));
        assert(crate::resize::cpu_changes_at(s, m, i));
    }
}

/// A node that is asked lets the resize go on if and only if it has declared
/// the feature, or does not exist.
pub proof fn law_node_must_have_declared_the_feature(
    req: ResizeRequest,
    node: String,
    current: Pod,
    projected: Pod,
    found: Result<Option<Vec<String>>, Error>,
    next: Resizing,
)
    requires
        resizes(
            req,
            (Resizing::AskNode { node, current, projected }),
            ResizeReply::Features(found),
            next,
        ),
    ensures
        next is CheckQuota <==> (found is Err && found->Err_0 is NotFound) || (found is Ok
            && found->Ok_0 is Some && exists|i: int|
            0 <= i < found->Ok_0->0@.len() && (#[trigger] found->Ok_0->0@[i])@
                == "GuaranteedQoSPodCPUResize"@),
        next is CheckQuota ==> next == (Resizing::CheckQuota { current, projected }),
        !(next is CheckQuota) ==> next is Failed,
        next is Failed && found is Ok ==> next->Failed_0@ is Forbidden,
        next is Failed && found is Err ==> next->Failed_0@ == found->Err_0@,
{
    if found is Ok && found->Ok_0 is Some {
        let v = found->Ok_0->0@;
        let t = crate::text::texts(v);
        if t.contains("GuaranteedQoSPodCPUResize"@) {
            let i = choose|i: int| 0 <= i < t.len() && t[i] == "GuaranteedQoSPodCPUResize"@;
            assert(v[i]@ == "GuaranteedQoSPodCPUResize"@);
        }
        if exists|i: int| 0 <= i < v.len() && (#[trigger] v[i])@ == "GuaranteedQoSPodCPUResize"@ {
            let i = choose|i: int|
                0 <= i < v.len() && (#[trigger] v[i])@ == "GuaranteedQoSPodCPUResize"@;
            assert(t[i] == "GuaranteedQoSPodCPUResize"@);
        }
    }
}

/// A resize that is denied is forbidden, one whose body did not decode is
/// refused, one beyond the quota is forbidden, and where the quota cannot be
/// found out it goes on.
pub proof fn law_refused_resizes(
    req: ResizeRequest,
    at: Resizing,
    reply: ResizeReply,
    next: Resizing,
)
    requires
        resizes(req, at, reply, next),
    ensures
        at is Authorize && reply is Decided && reply->Decided_0 is Deny ==> next
            == Resizing::Failed(Error::Forbidden(reply->Decided_0->Deny_0)),
        at is Authorize && reply == ResizeReply::Decided(Decision::Allow) ==> (next is ReadPod
            <==> req.desired is Ok) && (req.desired is Err ==> next is Failed && next->Failed_0@
            == ErrorView::InvalidResource("failed to decode resize body: "@ + req.desired->Err_0@)),
        at is CheckQuota && reply is Quota ==> (next is Failed <==> reply->Quota_0 == Some(false))
            && (next is Failed ==> next->Failed_0@ == ErrorView::Forbidden("exceeded quota"@)) && (
        !(next is Failed) ==> next == (Resizing::Reread { attempt: 0 })),
        (at is Authorize || at is ReadPod || at is AskNode || at is Reread) && reply is Error
            ==> next == Resizing::Failed(reply->Error_0),
        at is Done || at is Failed ==> next == at,
{
}

/// A write that meets a conflict is tried again, five times in all; any other
/// outcome is final.
pub proof fn law_conflicts_are_tried_again(
    req: ResizeRequest,
    pod: Pod,
    attempt: usize,
    result: Result<Pod, Error>,
    next: Resizing,
)
    requires
        resizes(req, (Resizing::Write { pod, attempt }), ResizeReply::Written(result), next),
    ensures
        result is Ok ==> next == Resizing::Done(result->Ok_0),
        result is Err && result->Err_0 is Conflict && attempt < 4 ==> next == (Resizing::Reread {
            attempt: (attempt + 1) as usize,
        }),
        result is Err && (!(result->Err_0 is Conflict) || attempt >= 4) ==> next
            == Resizing::Failed(result->Err_0),
{
}

/// Whether nothing is requested or limited.
pub open spec fn asks_for_nothing(c: ContainerView) -> bool {
    match c.resources {
        Some(r) => (forall|k: Seq<char>|
            r.requests is Some ==> !#[trigger] r.requests->0.dom().contains(k)) && (forall|
            k: Seq<char>,
        |
            r.limits is Some ==> !#[trigger] r.limits->0.dom().contains(k)),
        None => true,
    }
}

/// A pod was resized if and only if some container has a namesake that has
/// other requests or limits; containers that neither request nor limit anything
/// do not differ.
pub proof fn law_resized_pods_differ_in_resources(before: PodSpecView, after: PodSpecView)
    requires
        distinct_names(before.containers),
    ensures
        resized(Some(before), Some(after)) <==> exists|i: int, j: int|
            0 <= i < before.containers.len() && 0 <= j < after.containers.len() && (
            #[trigger] before.containers[i]).name == (#[trigger] after.containers[j]).name && {
                let b = before.containers[i];
                let a = after.containers[j];
                if asks_for_nothing(b) || asks_for_nothing(a) {
                    asks_for_nothing(b) != asks_for_nothing(a)
                } else {
                    b.resources->0.requests != a.resources->0.requests || b.resources->0.limits
                        != a.resources->0.limits
                }
            },
        !resized(None, Some(after)),
        !resized(Some(before), None),
{
    let bs = before.containers;
    let cs = after.containers;
    assert forall|c: ContainerView|
        #[trigger] asks_for_nothing(c) == (crate::resize::meaningful(c.resources) is None) by {
        lemma_asks_for_nothing(c);
    }
    assert forall|i: int, j: int|
        0 <= i < bs.len() && 0 <= j < cs.len() && (#[trigger] bs[i]).name == (
        #[trigger] cs[j]).name implies first_named(bs, cs[j].name) == Some(i) by {
        lemma_first(bs, cs[j].name, 0);
        let f = first_named(bs, cs[j].name);
        if f is None {
            assert(bs[i].name != cs[j].name);
        }
        if f is Some && f->0 < i {
            assert(bs[f->0].name != bs[i].name);
        }
        if f is Some && f->0 > i {
            assert(bs[i].name != cs[j].name);
        }
    }
    if resized(Some(before), Some(after)) {
        let j = choose|j: int|
            0 <= j < cs.len() && #[trigger] crate::resize::resized_at(bs, cs, j);
        lemma_first(bs, cs[j].name, 0);
        let i = first_named(bs, cs[j].name)->0;
        assert(bs[i].name == cs[j].name);
        assert(asks_for_nothing(bs[i]) == (crate::resize::meaningful(bs[i].resources) is None));
        assert(asks_for_nothing(cs[j]) == (crate::resize::meaningful(cs[j].resources) is None));
    }
    if exists|i: int, j: int|
        0 <= i < bs.len() && 0 <= j < cs.len() && (#[trigger] bs[i]).name == (#[trigger] cs[j]).name
            && {
            let b = bs[i];
            let a = cs[j];
            if asks_for_nothing(b) || asks_for_nothing(a) {
                asks_for_nothing(b) != asks_for_nothing(a)
            } else {
                b.resources->0.requests != a.resources->0.requests || b.resources->0.limits
                    != a.resources->0.limits
            }
        } {
        let (i, j) = choose|i: int, j: int|
            0 <= i < bs.len() && 0 <= j < cs.len() && (#[trigger] bs[i]).name == (
            #[trigger] cs[j]).name && {
                let b = bs[i];
                let a = cs[j];
                if asks_for_nothing(b) || asks_for_nothing(a) {
                    asks_for_nothing(b) != asks_for_nothing(a)
                } else {
                    b.resources->0.requests != a.resources->0.requests || b.resources->0.limits
                        != a.resources->0.limits
                }
            };
        assert(first_named(bs, cs[j].name) == Some(i));
        assert(crate::resize::resized_at(bs, cs, j));
    }
}

proof fn lemma_asks_for_nothing(c: ContainerView)
    ensures
        asks_for_nothing(c) == (crate::resize::meaningful(c.resources) is None),
{
    if c.resources is Some {
        let r = c.resources->0;
        if r.requests is Some && (forall|k: Seq<char>| !#[trigger] r.requests->0.dom().contains(k)) {
            assert(r.requests->0 =~= Map::<Seq<char>, Seq<char>>::empty());
        }
        if r.limits is Some && (forall|k: Seq<char>| !#[trigger] r.limits->0.dom().contains(k)) {
            assert(r.limits->0 =~= Map::<Seq<char>, Seq<char>>::empty());
        }
    }
}

/// An updated pod is marked for a resize if and only if it was resized and has
/// a status; nothing else of it changes.
pub proof fn law_resized_pod_is_proposed(before: PodView, p: PodView)
    ensures
        with_proposal(before, p).metadata == p.metadata,
        with_proposal(before, p).spec == p.spec,
        p.status is None ==> with_proposal(before, p).status is None,
        p.status is Some && !resized(before.spec, p.spec) ==> with_proposal(before, p) == p,
        p.status is Some && resized(before.spec, p.spec) ==> with_proposal(before, p).status
            == Some(PodStatusView { resize: Some("Proposed"@), ..p.status->0 }),
{
}

/// An answer that a resize does not wait for changes nothing.
pub proof fn law_other_answers_leave_a_resize(
    req: ResizeRequest,
    at: Resizing,
    reply: ResizeReply,
    next: Resizing,
)
    requires
        resizes(req, at, reply, next),
        match at {
            Resizing::Authorize => !(reply is Decided) && !(reply is Error),
            Resizing::ReadPod => !(reply is Pod) && !(reply is Error),
            Resizing::AskNode { node, current, projected } => !(reply is Features) && !(reply
                is Error),
            Resizing::CheckQuota { current, projected } => !(reply is Quota),
            Resizing::Reread { attempt } => !(reply is Pod) && !(reply is Error),
            Resizing::Write { pod, attempt } => !(reply is Written),
            _ => true,
        },
    ensures
        next == at,
{
}

} // verus!
