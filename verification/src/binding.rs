//! Binding a pod to a node.
use vstd::prelude::*;
use vstd::string::StringExecFns;
use crate::access::{attributes, AttributesView, Decision, RequestAttributes};
use crate::collections::StringMap;
use crate::error::{Error, ErrorView};
use crate::json::{as_text, get_in, member, opt_member, outcome_of, text_of_json, Json, JsonView};
use crate::json_text::{json_document, parse_document};
use crate::model::{opt_map, ObjectMetaView, Pod, PodSpec, PodSpecView, PodView};
use crate::pod_rules::{node_of, pod_node};
use crate::text::same;

verus! {

/// The node that a binding names, or why it is refused.
pub open spec fn bound_node(parsed: Result<JsonView, Seq<char>>) -> Result<Seq<char>, ErrorView> {
    match parsed {
        Err(e) => Err(ErrorView::InvalidResource("Invalid binding format: "@ + e)),
        Ok(j) => {
            let target = member(j, "target"@);
            let kind = as_text(opt_member(target, "kind"@));
            let name = as_text(opt_member(target, "name"@));
            if kind is Some && kind->0.len() > 0 && kind->0 != "Node"@ {
                Err(
                    ErrorView::InvalidResource(
                        "Unsupported value: target.kind: \""@ + kind->0
                            + "\": supported values: \"Node\", \"<empty>\""@,
                    ),
                )
            } else {
                match name {
                    Some(n) => Ok(n),
                    None => Err(ErrorView::InvalidResource("Missing target.name in binding"@)),
                }
            }
        },
    }
}

/// Reads the node that a binding names. `parsed` is its body, or what the
/// JSON parser says of it.
pub fn read_binding(parsed: Result<Json, String>) -> (r: Result<String, Error>)
    ensures
        match (r, bound_node(outcome_of(parsed))) {
            (Ok(n), Ok(node)) => n@ == node,
            (Err(e), Err(why)) => e@ == why,
            _ => false,
        },
{
    match parsed {
        Err(e) => {
            let mut m: String = "Invalid binding format: ".to_owned();
            m.append(e.as_str());
            Err(Error::InvalidResource(m))
        },
        Ok(j) => {
            let target: Option<&Json> = j.get("target");
            if let Some(kind) = text_of_json(get_in(target, "kind")) {
                if !kind.as_str().is_empty() && !same(kind.as_str(), "Node") {
                    let mut m: String = "Unsupported value: target.kind: \"".to_owned();
                    m.append(kind.as_str());
                    m.append("\": supported values: \"Node\", \"<empty>\"");
                    return Err(Error::InvalidResource(m));
                }
            }
            match text_of_json(get_in(target, "name")) {
                Some(n) => Ok(n.clone()),
                None => Err(Error::InvalidResource("Missing target.name in binding".to_owned())),
            }
        },
    }
}

/// Reads the node that a binding names from the body of its request.
pub fn read_binding_body(body: &[u8]) -> (r: Result<String, Error>)
    ensures
        match (r, bound_node(json_document(body@))) {
            (Ok(n), Ok(node)) => n@ == node,
            (Err(e), Err(why)) => e@ == why,
            _ => false,
        },
{
    read_binding(parse_document(body))
}

/// What a pod becomes when it is bound, or why it is not: a pod is bound once.
pub open spec fn bound_pod(p: PodView, name: Seq<char>, node: Seq<char>) -> Result<
    PodView,
    ErrorView,
> {
    if node_of(p).len() > 0 {
        Err(
            ErrorView::Conflict(
                "pod "@ + name + " is already assigned to node \""@ + node_of(p) + "\""@,
            ),
        )
    } else {
        match p.spec {
            Some(s) => Ok(PodView { spec: Some(PodSpecView { node_name: Some(node), ..s }), ..p }),
            None => Err(ErrorView::InvalidResource("Pod has no spec"@)),
        }
    }
}

/// Binds a pod to a node.
pub fn bind_pod(pod: Pod, name: &str, node: &str) -> (r: Result<Pod, Error>)
    ensures
        match (r, bound_pod(pod@, name@, node@)) {
            (Ok(p), Ok(want)) => p@ == want,
            (Err(e), Err(why)) => e@ == why,
            _ => false,
        },
{
    let existing: &str = pod_node(&pod);
    if !existing.is_empty() {
        let mut m: String = "pod ".to_owned();
        m.append(name);
        m.append(" is already assigned to node \"");
        m.append(existing);
        m.append("\"");
        return Err(Error::Conflict(m));
    }
    let mut out: Pod = pod;
    match out.spec {
        Some(spec) => {
            let mut s: PodSpec = spec;
            s.node_name = Some(node.to_owned());
            out.spec = Some(s);
            Ok(out)
        },
        None => Err(Error::InvalidResource("Pod has no spec".to_owned())),
    }
}

/// Labels with the one that `node` has under `key`, if it has it.
pub open spec fn with_node_label(
    labels: Option<Map<Seq<char>, Seq<char>>>,
    node: Map<Seq<char>, Seq<char>>,
    key: Seq<char>,
) -> Option<Map<Seq<char>, Seq<char>>> {
    if node.dom().contains(key) {
        Some(
            (match labels {
                Some(l) => l,
                None => Map::empty(),
            }).insert(key, node[key]),
        )
    } else {
        labels
    }
}

/// Labels with the zone and region of a node.
pub open spec fn with_topology(
    labels: Option<Map<Seq<char>, Seq<char>>>,
    node: Option<Map<Seq<char>, Seq<char>>>,
) -> Option<Map<Seq<char>, Seq<char>>> {
    match node {
        Some(n) => with_node_label(
            with_node_label(labels, n, "topology.kubernetes.io/zone"@),
            n,
            "topology.kubernetes.io/region"@,
        ),
        None => labels,
    }
}

fn copy_label(labels: Option<StringMap>, node: &StringMap, key: &str) -> (r: Option<StringMap>)
    ensures
        opt_map(r) == with_node_label(opt_map(labels), node@, key@),
{
    match node.get(key) {
        Some(v) => {
            let mut map: StringMap = match labels {
                Some(l) => l,
                None => StringMap::new(),
            };
            map.insert(key.to_owned(), v.clone());
            Some(map)
        },
        None => labels,
    }
}

/// Copies the zone and region labels of the node onto a pod; no others.
pub fn copy_topology_labels(pod: Pod, node_labels: &Option<StringMap>) -> (r: Pod)
    ensures
        r@ == (PodView {
            metadata: ObjectMetaView {
                labels: with_topology(pod@.metadata.labels, opt_map(*node_labels)),
                ..pod@.metadata
            },
            ..pod@
        }),
{
    let mut out: Pod = pod;
    if let Some(node) = node_labels {
        let labels: Option<StringMap> = copy_label(
            out.metadata.labels,
            node,
            "topology.kubernetes.io/zone",
        );
        out.metadata.labels = copy_label(labels, node, "topology.kubernetes.io/region");
    }
    out
}

/// What the authorizer is asked for a subresource of a pod.
pub fn pod_subresource_attributes(
    verb: &str,
    namespace: &str,
    name: &str,
    subresource: &str,
) -> (r: RequestAttributes)
    ensures
        r@ == (AttributesView {
            verb: verb@,
            resource: "pods"@,
            api_group: ""@,
            namespace: Some(namespace@),
            name: Some(name@),
            subresource: Some(subresource@),
        }),
{
    attributes(verb, "pods", "", Some(namespace), Some(name), Some(subresource))
}

/// A pod that was bound cannot be bound again, to whatever node.
pub proof fn law_bound_once(p: PodView, name: Seq<char>, node: Seq<char>, other: Seq<char>)
    requires
        bound_pod(p, name, node) is Ok,
        node.len() > 0,
    ensures
        bound_pod(bound_pod(p, name, node)->Ok_0, name, other) is Err,
{
}

/// Of the node's labels zone and region are copied, and win over those of the
/// pod; every other label is as it was.
pub proof fn law_only_zone_and_region_are_copied(
    labels: Map<Seq<char>, Seq<char>>,
    node: Map<Seq<char>, Seq<char>>,
    key: Seq<char>,
)
    ensures
        with_topology(Some(labels), Some(node)) matches Some(after) && if (key
            == "topology.kubernetes.io/zone"@ || key == "topology.kubernetes.io/region"@)
            && node.dom().contains(key) {
            after.dom().contains(key) && after[key] == node[key]
        } else {
            (after.dom().contains(key) <==> labels.dom().contains(key)) && (after.dom().contains(
                key,
            ) ==> after[key] == labels[key])
        },
{
}

/// How far a binding has come: what to do next, or the outcome.
pub enum Binding {
    /// Ask the authorizer. The body names this node, or is refused for this.
    Authorize { target: Result<String, Error> },
    /// Read the pod.
    ReadPod { node: String },
    /// Read the labels of the node.
    ReadNode { pod: Pod, node: String },
    /// Write the bound pod.
    Write { pod: Pod, node: String },
    Bound { node: String },
    Failed(Error),
}

/// What came of it.
pub enum BindReply {
    Decided(Decision),
    Pod(Pod),
    /// The labels of the node, if it has any.
    Node(Option<StringMap>),
    Written,
    Error(Error),
}

/// Whether `next` follows when `reply` answers what `at` waits for. `copies`
/// tells whether the labels of the node are copied; a node that cannot be read
/// has none.
pub open spec fn binds(
    name: Seq<char>,
    copies: bool,
    at: Binding,
    reply: BindReply,
    next: Binding,
) -> bool {
    match (at, reply) {
        (Binding::Authorize { target }, BindReply::Error(e)) => next == Binding::Failed(e),
        (Binding::Authorize { target }, BindReply::Decided(Decision::Deny(reason))) => next
            == Binding::Failed(Error::Forbidden(reason)),
        (Binding::Authorize { target }, BindReply::Decided(Decision::Allow)) => match target {
            Ok(node) => next == (Binding::ReadPod { node }),
            Err(e) => next == Binding::Failed(e),
        },
        (Binding::ReadPod { node }, BindReply::Error(e)) => next == Binding::Failed(e),
        (Binding::ReadPod { node }, BindReply::Pod(p)) => match bound_pod(p@, name, node@) {
            Ok(want) => if copies {
                next matches Binding::ReadNode { pod, node: n } && pod@ == want && n == node
            } else {
                next matches Binding::Write { pod, node: n } && pod@ == want && n == node
            },
            Err(why) => next matches Binding::Failed(e) && e@ == why,
        },
        (Binding::ReadNode { pod, node }, BindReply::Error(_)) => next == (Binding::Write {
            pod,
            node,
        }),
        (Binding::ReadNode { pod, node }, BindReply::Node(labels)) => next matches Binding::Write {
            pod: q,
            node: n,
        } && n == node && q@ == (PodView {
            metadata: ObjectMetaView {
                labels: with_topology(pod@.metadata.labels, opt_map(labels)),
                ..pod@.metadata
            },
            ..pod@
        }),
        (Binding::Write { pod, node }, BindReply::Error(e)) => next == Binding::Failed(e),
        (Binding::Write { pod, node }, BindReply::Written) => next == (Binding::Bound { node }),
        (other, _) => next == other,
    }
}

/// One step of binding the pod `name`. A reply that answers nothing changes
/// nothing.
pub fn bind_step(name: &str, copies: bool, at: Binding, reply: BindReply) -> (next: Binding)
    ensures
        binds(name@, copies, at, reply, next),
{
    match (at, reply) {
        (Binding::Authorize { .. }, BindReply::Error(e)) => Binding::Failed(e),
        (Binding::Authorize { .. }, BindReply::Decided(Decision::Deny(reason))) => Binding::Failed(
            Error::Forbidden(reason),
        ),
        (Binding::Authorize { target }, BindReply::Decided(Decision::Allow)) => match target {
            Ok(node) => Binding::ReadPod { node },
            Err(e) => Binding::Failed(e),
        },
        (Binding::ReadPod { .. }, BindReply::Error(e)) => Binding::Failed(e),
        (Binding::ReadPod { node }, BindReply::Pod(p)) => match bind_pod(p, name, node.as_str()) {
            Ok(pod) => if copies {
                Binding::ReadNode { pod, node }
            } else {
                Binding::Write { pod, node }
            },
            Err(e) => Binding::Failed(e),
        },
        (Binding::ReadNode { pod, node }, BindReply::Error(_)) => Binding::Write { pod, node },
        (Binding::ReadNode { pod, node }, BindReply::Node(labels)) => Binding::Write {
            pod: copy_topology_labels(pod, &labels),
            node,
        },
        (Binding::Write { .. }, BindReply::Error(e)) => Binding::Failed(e),
        (Binding::Write { node, .. }, BindReply::Written) => Binding::Bound { node },
        (other, _) => other,
    }
}

/// A pod that is bound already is refused with a conflict, and not written.
pub proof fn law_bound_pod_is_not_written(
    name: Seq<char>,
    copies: bool,
    node: String,
    pod: Pod,
    next: Binding,
)
    requires
        binds(name, copies, Binding::ReadPod { node }, BindReply::Pod(pod), next),
        node_of(pod@).len() > 0,
    ensures
        next is Failed && next->Failed_0@ is Conflict,
{
}

} // verus!
