//! What the server's rules read of the objects that it stores.
use vstd::prelude::*;
use crate::collections::StringMap;
use crate::text::{opt_text, texts};

verus! {

/// The content of an optional map.
pub open spec fn opt_map(m: Option<StringMap>) -> Option<Map<Seq<char>, Seq<char>>> {
    match m {
        Some(m) => Some(m@),
        None => None,
    }
}

/// The texts of an optional list.
pub open spec fn opt_texts(v: Option<Vec<String>>) -> Option<Seq<Seq<char>>> {
    match v {
        Some(v) => Some(texts(v@)),
        None => None,
    }
}

/// A copy of an optional map.
pub fn copy_map(m: &Option<StringMap>) -> (r: Option<StringMap>)
    ensures
        opt_map(r) == opt_map(*m),
{
    match m {
        Some(m) => Some(m.duplicate()),
        None => None,
    }
}

/// A copy of an optional text.
pub fn copy_text(s: &Option<String>) -> (r: Option<String>)
    ensures
        r == *s,
{
    match s {
        Some(s) => Some(s.clone()),
        None => None,
    }
}

/// A copy of a list of texts.
pub fn copy_texts(v: &Vec<String>) -> (r: Vec<String>)
    ensures
        texts(r@) == texts(v@),
{
    let mut out: Vec<String> = Vec::new();
    let mut i: usize = 0;
    while i < v.len()
        invariant
            i <= v@.len(),
            out@.len() == i,
            forall|j: int| 0 <= j < i ==> (#[trigger] out@[j])@ == v@[j]@,
        decreases v.len() - i,
    {
        out.push(v[i].clone());
        i = i + 1;
    }
    assert(texts(out@) =~= texts(v@));
    out
}

/// Whether two optional maps hold the same.
pub fn same_map(a: &Option<StringMap>, b: &Option<StringMap>) -> (r: bool)
    ensures
        r == (opt_map(*a) == opt_map(*b)),
{
    match (a, b) {
        (Some(x), Some(y)) => x.equals(y),
        (None, None) => true,
        _ => false,
    }
}

/// Whether two lists hold the same texts.
pub fn same_texts(a: &Vec<String>, b: &Vec<String>) -> (r: bool)
    ensures
        r == (texts(a@) == texts(b@)),
{
    if a.len() != b.len() {
        assert(texts(a@).len() != texts(b@).len());
        return false;
    }
    let mut i: usize = 0;
    while i < a.len()
        invariant
            i <= a@.len(),
            a@.len() == b@.len(),
            forall|j: int| 0 <= j < i ==> (#[trigger] a@[j])@ == b@[j]@,
        decreases a.len() - i,
    {
        if !crate::text::same(a[i].as_str(), b[i].as_str()) {
            assert(texts(a@)[i as int] != texts(b@)[i as int]);
            return false;
        }
        i = i + 1;
    }
    assert(texts(a@) =~= texts(b@));
    true
}

/// An object's metadata. Times are in their text form.
pub struct ObjectMeta {
    pub name: String,
    pub namespace: Option<String>,
    pub uid: String,
    pub resource_version: Option<String>,
    pub generation: Option<i64>,
    pub creation_timestamp: Option<String>,
    pub deletion_timestamp: Option<String>,
    pub deletion_grace_period_seconds: Option<i64>,
    pub labels: Option<StringMap>,
}

/// The content of [`ObjectMeta`].
pub struct ObjectMetaView {
    pub name: Seq<char>,
    pub namespace: Option<Seq<char>>,
    pub uid: Seq<char>,
    pub resource_version: Option<Seq<char>>,
    pub generation: Option<i64>,
    pub creation_timestamp: Option<Seq<char>>,
    pub deletion_timestamp: Option<Seq<char>>,
    pub deletion_grace_period_seconds: Option<i64>,
    pub labels: Option<Map<Seq<char>, Seq<char>>>,
}

impl View for ObjectMeta {
    type V = ObjectMetaView;

    open spec fn view(&self) -> ObjectMetaView {
        ObjectMetaView {
            name: self.name@,
            namespace: opt_text(self.namespace),
            uid: self.uid@,
            resource_version: opt_text(self.resource_version),
            generation: self.generation,
            creation_timestamp: opt_text(self.creation_timestamp),
            deletion_timestamp: opt_text(self.deletion_timestamp),
            deletion_grace_period_seconds: self.deletion_grace_period_seconds,
            labels: opt_map(self.labels),
        }
    }
}

/// What a container asks for and may use at most.
pub struct ResourceRequirements {
    pub limits: Option<StringMap>,
    pub requests: Option<StringMap>,
    pub claims: Option<Vec<String>>,
}

/// The content of [`ResourceRequirements`].
pub struct ResourcesView {
    pub limits: Option<Map<Seq<char>, Seq<char>>>,
    pub requests: Option<Map<Seq<char>, Seq<char>>>,
    pub claims: Option<Seq<Seq<char>>>,
}

impl View for ResourceRequirements {
    type V = ResourcesView;

    open spec fn view(&self) -> ResourcesView {
        ResourcesView {
            limits: opt_map(self.limits),
            requests: opt_map(self.requests),
            claims: opt_texts(self.claims),
        }
    }
}

/// The content of optional resources.
pub open spec fn opt_resources(r: Option<ResourceRequirements>) -> Option<ResourcesView> {
    match r {
        Some(r) => Some(r@),
        None => None,
    }
}

/// A copy of optional resources.
pub fn copy_resources(r: &Option<ResourceRequirements>) -> (c: Option<ResourceRequirements>)
    ensures
        opt_resources(c) == opt_resources(*r),
{
    match r {
        Some(r) => Some(
            ResourceRequirements {
                limits: copy_map(&r.limits),
                requests: copy_map(&r.requests),
                claims: match &r.claims {
                    Some(c) => Some(copy_texts(c)),
                    None => None,
                },
            },
        ),
        None => None,
    }
}

/// Whether two optional resources are the same.
pub fn same_resources(
    a: &Option<ResourceRequirements>,
    b: &Option<ResourceRequirements>,
) -> (r: bool)
    ensures
        r == (opt_resources(*a) == opt_resources(*b)),
{
    match (a, b) {
        (Some(x), Some(y)) => same_map(&x.limits, &y.limits) && same_map(&x.requests, &y.requests)
            && (match (&x.claims, &y.claims) {
            (Some(p), Some(q)) => same_texts(p, q),
            (None, None) => true,
            _ => false,
        }),
        (None, None) => true,
        _ => false,
    }
}

/// A container of a pod.
pub struct Container {
    pub name: String,
    pub resources: Option<ResourceRequirements>,
}

/// The content of a [`Container`].
pub struct ContainerView {
    pub name: Seq<char>,
    pub resources: Option<ResourcesView>,
}

impl View for Container {
    type V = ContainerView;

    open spec fn view(&self) -> ContainerView {
        ContainerView { name: self.name@, resources: opt_resources(self.resources) }
    }
}

/// The contents of a list of containers.
pub open spec fn container_views(v: Seq<Container>) -> Seq<ContainerView> {
    Seq::new(v.len(), |i: int| v[i]@)
}

/// The contents of an optional list of containers.
pub open spec fn opt_containers(v: Option<Vec<Container>>) -> Option<Seq<ContainerView>> {
    match v {
        Some(v) => Some(container_views(v@)),
        None => None,
    }
}

/// What a pod is to run.
pub struct PodSpec {
    pub containers: Vec<Container>,
    pub init_containers: Option<Vec<Container>>,
    /// The names of the ephemeral containers.
    pub ephemeral_containers: Option<Vec<String>>,
    pub node_name: Option<String>,
    pub active_deadline_seconds: Option<i64>,
    pub termination_grace_period_seconds: Option<i64>,
    pub priority: Option<i32>,
    pub priority_class_name: Option<String>,
    pub preemption_policy: Option<String>,
    pub enable_service_links: Option<bool>,
    pub runtime_class_name: Option<String>,
    pub overhead: Option<StringMap>,
    /// The names of the kernel parameters in the security context.
    pub sysctls: Option<Vec<String>>,
}

/// The content of a [`PodSpec`].
pub struct PodSpecView {
    pub containers: Seq<ContainerView>,
    pub init_containers: Option<Seq<ContainerView>>,
    pub ephemeral_containers: Option<Seq<Seq<char>>>,
    pub node_name: Option<Seq<char>>,
    pub active_deadline_seconds: Option<i64>,
    pub termination_grace_period_seconds: Option<i64>,
    pub priority: Option<i32>,
    pub priority_class_name: Option<Seq<char>>,
    pub preemption_policy: Option<Seq<char>>,
    pub enable_service_links: Option<bool>,
    pub runtime_class_name: Option<Seq<char>>,
    pub overhead: Option<Map<Seq<char>, Seq<char>>>,
    pub sysctls: Option<Seq<Seq<char>>>,
}

impl View for PodSpec {
    type V = PodSpecView;

    open spec fn view(&self) -> PodSpecView {
        PodSpecView {
            containers: container_views(self.containers@),
            init_containers: opt_containers(self.init_containers),
            ephemeral_containers: opt_texts(self.ephemeral_containers),
            node_name: opt_text(self.node_name),
            active_deadline_seconds: self.active_deadline_seconds,
            termination_grace_period_seconds: self.termination_grace_period_seconds,
            priority: self.priority,
            priority_class_name: opt_text(self.priority_class_name),
            preemption_policy: opt_text(self.preemption_policy),
            enable_service_links: self.enable_service_links,
            runtime_class_name: opt_text(self.runtime_class_name),
            overhead: opt_map(self.overhead),
            sysctls: opt_texts(self.sysctls),
        }
    }
}

/// How far a pod has come.
#[derive(Clone, Copy, Debug, PartialEq, Eq, Structural)]
pub enum Phase {
    Pending,
    Running,
    Succeeded,
    Failed,
    Unknown,
}

/// How much a pod's resources are guaranteed.
#[derive(Clone, Copy, Debug, PartialEq, Eq, Structural)]
pub enum QosClass {
    Guaranteed,
    Burstable,
    BestEffort,
}

/// A condition of a pod.
pub struct PodCondition {
    pub condition_type: String,
    pub status: String,
    pub reason: Option<String>,
    pub message: Option<String>,
    pub last_transition_time: Option<String>,
}

/// The content of a [`PodCondition`].
pub struct PodConditionView {
    pub condition_type: Seq<char>,
    pub status: Seq<char>,
    pub reason: Option<Seq<char>>,
    pub message: Option<Seq<char>>,
    pub last_transition_time: Option<Seq<char>>,
}

impl View for PodCondition {
    type V = PodConditionView;

    open spec fn view(&self) -> PodConditionView {
        PodConditionView {
            condition_type: self.condition_type@,
            status: self.status@,
            reason: opt_text(self.reason),
            message: opt_text(self.message),
            last_transition_time: opt_text(self.last_transition_time),
        }
    }
}

/// The contents of a list of conditions.
pub open spec fn condition_views(v: Seq<PodCondition>) -> Seq<PodConditionView> {
    Seq::new(v.len(), |i: int| v[i]@)
}

/// What is known of a pod.
pub struct PodStatus {
    pub phase: Option<Phase>,
    pub qos_class: Option<QosClass>,
    pub resize: Option<String>,
    pub conditions: Option<Vec<PodCondition>>,
}

/// The content of a [`PodStatus`].
pub struct PodStatusView {
    pub phase: Option<Phase>,
    pub qos_class: Option<QosClass>,
    pub resize: Option<Seq<char>>,
    pub conditions: Option<Seq<PodConditionView>>,
}

impl View for PodStatus {
    type V = PodStatusView;

    open spec fn view(&self) -> PodStatusView {
        PodStatusView {
            phase: self.phase,
            qos_class: self.qos_class,
            resize: opt_text(self.resize),
            conditions: match self.conditions {
                Some(c) => Some(condition_views(c@)),
                None => None,
            },
        }
    }
}

/// A status of which nothing is known.
pub open spec fn no_status() -> PodStatusView {
    PodStatusView { phase: None, qos_class: None, resize: None, conditions: None }
}

/// A pod.
pub struct Pod {
    pub metadata: ObjectMeta,
    pub spec: Option<PodSpec>,
    pub status: Option<PodStatus>,
}

/// The content of a [`Pod`].
pub struct PodView {
    pub metadata: ObjectMetaView,
    pub spec: Option<PodSpecView>,
    pub status: Option<PodStatusView>,
}

/// The content of an optional specification.
pub open spec fn opt_spec(s: Option<PodSpec>) -> Option<PodSpecView> {
    match s {
        Some(s) => Some(s@),
        None => None,
    }
}

/// The content of an optional status.
pub open spec fn opt_status(s: Option<PodStatus>) -> Option<PodStatusView> {
    match s {
        Some(s) => Some(s@),
        None => None,
    }
}

impl View for Pod {
    type V = PodView;

    open spec fn view(&self) -> PodView {
        PodView {
            metadata: self.metadata@,
            spec: opt_spec(self.spec),
            status: opt_status(self.status),
        }
    }
}

/// The status of a pod, an empty one where it has none.
pub open spec fn status_or_empty(s: Option<PodStatusView>) -> PodStatusView {
    match s {
        Some(s) => s,
        None => no_status(),
    }
}

impl PodStatus {
    /// A status of which nothing is known.
    pub fn empty() -> (s: PodStatus)
        ensures
            s@ == no_status(),
    {
        PodStatus { phase: None, qos_class: None, resize: None, conditions: None }
    }
}

/// A copy of a list of conditions.
fn copy_conditions(v: &Vec<PodCondition>) -> (r: Vec<PodCondition>)
    ensures
        condition_views(r@) == condition_views(v@),
{
    let mut out: Vec<PodCondition> = Vec::new();
    let mut i: usize = 0;
    while i < v.len()
        invariant
            i <= v@.len(),
            out@.len() == i,
            forall|j: int| 0 <= j < i ==> (#[trigger] out@[j])@ == v@[j]@,
        decreases v.len() - i,
    {
        let c: &PodCondition = &v[i];
        out.push(
            PodCondition {
                condition_type: c.condition_type.clone(),
                status: c.status.clone(),
                reason: copy_text(&c.reason),
                message: copy_text(&c.message),
                last_transition_time: copy_text(&c.last_transition_time),
            },
        );
        i = i + 1;
    }
    assert(condition_views(out@) =~= condition_views(v@));
    out
}

/// A copy of an optional status.
pub fn copy_status(s: &Option<PodStatus>) -> (r: Option<PodStatus>)
    ensures
        opt_status(r) == opt_status(*s),
{
    match s {
        Some(s) => Some(
            PodStatus {
                phase: s.phase,
                qos_class: s.qos_class,
                resize: copy_text(&s.resize),
                conditions: match &s.conditions {
                    Some(c) => Some(copy_conditions(c)),
                    None => None,
                },
            },
        ),
        None => None,
    }
}

/// A copy of an optional list of texts.
pub fn copy_opt_texts(v: &Option<Vec<String>>) -> (r: Option<Vec<String>>)
    ensures
        opt_texts(r) == opt_texts(*v),
{
    match v {
        Some(x) => Some(copy_texts(x)),
        None => None,
    }
}

impl ObjectMeta {
    /// A copy of the metadata.
    pub fn duplicate(&self) -> (r: ObjectMeta)
        ensures
            r@ == self@,
    {
        ObjectMeta {
            name: self.name.clone(),
            namespace: copy_text(&self.namespace),
            uid: self.uid.clone(),
            resource_version: copy_text(&self.resource_version),
            generation: self.generation,
            creation_timestamp: copy_text(&self.creation_timestamp),
            deletion_timestamp: copy_text(&self.deletion_timestamp),
            deletion_grace_period_seconds: self.deletion_grace_period_seconds,
            labels: copy_map(&self.labels),
        }
    }
}

/// A copy of a list of containers.
fn copy_containers(v: &Vec<Container>) -> (r: Vec<Container>)
    ensures
        container_views(r@) == container_views(v@),
{
    let mut out: Vec<Container> = Vec::new();
    let mut i: usize = 0;
    while i < v.len()
        invariant
            i <= v@.len(),
            out@.len() == i,
            forall|j: int| 0 <= j < i ==> (#[trigger] out@[j])@ == v@[j]@,
        decreases v.len() - i,
    {
        out.push(
            Container { name: v[i].name.clone(), resources: copy_resources(&v[i].resources) },
        );
        i = i + 1;
    }
    assert(container_views(out@) =~= container_views(v@));
    out
}

impl Pod {
    /// A copy of the pod.
    pub fn duplicate(&self) -> (r: Pod)
        ensures
            r@ == self@,
    {
        let spec: Option<PodSpec> = match &self.spec {
            Some(s) => Some(
                PodSpec {
                    containers: copy_containers(&s.containers),
                    init_containers: match &s.init_containers {
                        Some(c) => Some(copy_containers(c)),
                        None => None,
                    },
                    ephemeral_containers: copy_opt_texts(&s.ephemeral_containers),
                    node_name: copy_text(&s.node_name),
                    active_deadline_seconds: s.active_deadline_seconds,
                    termination_grace_period_seconds: s.termination_grace_period_seconds,
                    priority: s.priority,
                    priority_class_name: copy_text(&s.priority_class_name),
                    preemption_policy: copy_text(&s.preemption_policy),
                    enable_service_links: s.enable_service_links,
                    runtime_class_name: copy_text(&s.runtime_class_name),
                    overhead: copy_map(&s.overhead),
                    sysctls: copy_opt_texts(&s.sysctls),
                },
            ),
            None => None,
        };
        Pod { metadata: self.metadata.duplicate(), spec, status: copy_status(&self.status) }
    }
}

} // verus!
