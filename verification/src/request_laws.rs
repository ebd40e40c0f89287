//! What the functions behind requests give back, seen by their callers.
use vstd::prelude::*;
use vstd::utf8::encode_utf8;
use crate::access::{require_allowed, Decision, RequestAttributes};
use crate::binding::{bind_pod, copy_topology_labels, pod_subresource_attributes, read_binding};
use crate::collections::StringMap;
use crate::connect::{
    build_kubelet_stream_url, NodeConn,
    container_pair_from, find_endpoint, forward_ports, forward_upgrade, log_container, ports_of,
    stream_attributes, PortForwardQuery, Stream, Upgrade,
};
use crate::error::{Error, FieldError, ErrorView};
use crate::field_laws::{law_good_names, says_nothing, small_letter_or_digit};
use crate::json::{as_int, as_text, member, opt_member, outcome_of, Json, JsonView};
use crate::kinds::{kind_of, resource_type_to_kind_and_version};
use crate::model::{ObjectMetaView, Pod, PodSpecView, PodView};
use crate::objects::{clear_status, move_status, place};
use crate::plan::{after_replace, compared, plan, Upserted, request_question, Request};
use crate::pod_delete::{grace_period, mark_terminating};
use crate::pod_list::{
    list_order, list_version, page_failure, page_request, ListKey, PageFailure, PageRequest,
};
use crate::pod_patch::{apply_is_forced, finish_apply, ApplyAction, invalid_because, pin_metadata};
use crate::pod_create::decode_failure;
use crate::pod_rules::is_ephemeral_subresource;
use crate::pod_update::{pod_attributes, update_decode_failure};
use crate::resources::Resource;
use crate::scale::{
    check_replicas, extract_scale, parse_scale_uri, put_replicas, scale_attributes, scale_target,
    Scale, ScaleRequest,
};
use crate::text::{find_text, signed_decimal, split_at_char, split_once_at, without_end, decimal};
use crate::validation::{
    is_droppable_default, no_field_errors, require_optional_object_name, validate_resource_name,
};
use crate::volumes::{
    apply_pv_defaults, apply_storageclass_defaults, apply_volume_mode_defaults, check_claim_limits,
    BindingMode, PersistentVolume, ReclaimPolicy, StorageClass, Volume, VolumeMode, VolumePhase,
};
use crate::watch::{
    is_watch_request, matches_field_selector, K8sWatchEvent, WatchEventType, WatchParams, Watched,
};
use crate::watch_laws::{
    begins_with_objects, law_replay_is_from_the_named_version, law_streams_begin_with_what_is_there,
    law_watches_are_bounded_in_time, law_which_requests_are_watches, shown_first, spells_yes,
};
use crate::watch_open::{
    resource_expired_status, watch_attributes, watch_error_event, Status,
};
use crate::watch_stream::{
    plan_watch, replay_revision, should_send_initial, start_watch, WatchLine, WatchPlan, WatchScope,
    WatchSession,
};
use crate::workload_laws::has_mode_of;
use crate::workloads::{
    collection_policy, fill_type, policy_in_body, removal_policy, revision_of, sha256,
    template_revision,
};

verus! {

/// A permission lets a request pass; a denial forbids it for its reason.
pub proof fn law_denials_forbid(decision: Decision, r: Result<(), Error>)
    requires
        call_ensures(require_allowed, (decision,), r),
    ensures
        r is Ok <==> decision is Allow,
        decision is Deny ==> r == Err::<(), Error>(Error::Forbidden(decision->Deny_0)),
{
}

/// A watch does what its parameters say: bookmarks and initial objects only
/// where they are asked for, within its time, and by its selectors unless it
/// passes objects on as they are stored.
pub proof fn law_watch_does_what_was_asked(
    scope: WatchScope,
    raw: bool,
    params: WatchParams,
    kind: String,
    api_version: String,
    plan: WatchPlan,
)
    requires
        call_ensures(plan_watch, (scope, raw, params, kind, api_version), plan),
    ensures
        plan.scope == scope,
        plan.raw == raw,
        plan.allow_bookmarks <==> params.allow_watch_bookmarks == Some(true),
        plan.send_initial_events <==> params.send_initial_events == Some(true),
        raw ==> plan.timeout_seconds <= 300,
        !raw ==> plan.timeout_seconds <= 600,
        params.timeout_seconds is Some ==> plan.timeout_seconds <= params.timeout_seconds->0,
        params.timeout_seconds is Some && params.timeout_seconds->0 <= 300 ==> plan.timeout_seconds
            == params.timeout_seconds->0,
        params.timeout_seconds is None ==> plan.timeout_seconds == if raw {
            300u64
        } else {
            600u64
        },
        !raw ==> plan.label_selector == params.label_selector && plan.field_selector
            == params.field_selector,
        raw ==> plan.label_selector is None && plan.field_selector is None,
        plan.requested == params.resource_version,
        plan.kind == kind,
        plan.api_version == api_version,
{
    law_watches_are_bounded_in_time(params.timeout_seconds, raw);
}

/// A watch replays from the version that is named.
pub proof fn law_watch_replays(
    requested: Option<String>,
    n: i64,
    current: i64,
    r: Option<i64>,
)
    requires
        call_ensures(replay_revision, (&requested, current), r),
        requested is Some,
        requested->0@ == signed_decimal(n as int),
    ensures
        r == if 1 < n && n <= current + 1000 {
            Some(n)
        } else {
            None
        },
{
    law_replay_is_from_the_named_version(n as int, current as int);
}

/// A watch begins with the objects that are there where that is asked for.
pub proof fn law_watch_begins_with_objects(plan: WatchPlan, r: bool)
    requires
        call_ensures(should_send_initial, (&plan,), r),
    ensures
        r == begins_with_objects(plan),
{
}

/// The first lines of a watch are the objects that are there and in it, in
/// order and as added, and then bookmarks.
pub proof fn law_first_lines_of_a_watch<T>(
    plan: WatchPlan,
    existing: Vec<Watched<T>>,
    current: i64,
    r: (Vec<WatchLine<T>>, WatchSession),
    i: int,
)
    requires
        call_ensures(start_watch::<T>, (plan, existing, current), r),
        0 <= i < r.0@.len(),
    ensures
        r.1.plan == plan,
        ({
            let shown = if begins_with_objects(plan) {
                shown_first(plan, existing@)
            } else {
                Seq::empty()
            };
            &&& shown.len() <= r.0@.len() <= shown.len() + 2
            &&& i < shown.len() ==> r.0@[i]@ == shown[i]
            &&& i >= shown.len() ==> r.0@[i]@ is Bookmark
            &&& plan.send_initial_events ==> r.0@.len() > shown.len()
        }),
{
    law_streams_begin_with_what_is_there(plan, existing@, current as int);
    let lines = crate::watch_stream::line_views(r.0@);
    assert(lines.len() == r.0@.len());
    assert(lines[i] == r.0@[i]@);
}

/// A request is a watch if and only if its parameter spells yes.
pub proof fn law_watch_requests(params: StringMap, r: bool)
    requires
        call_ensures(is_watch_request, (&params,), r),
    ensures
        r <==> params@.dom().contains("watch"@) && spells_yes(params@["watch"@]),
{
    law_which_requests_are_watches(params@, Seq::empty());
}

/// Without a field selector, or with an empty one, every object meets it.
pub proof fn law_field_selectors<T>(o: Watched<T>, selector: Option<String>, r: bool)
    requires
        call_ensures(matches_field_selector::<T>, (&o, &selector), r),
    ensures
        selector is None || selector->0@.len() == 0 ==> r,
        selector is Some && selector->0@.len() > 0 ==> r == o.field_match,
{
}

/// A watch from a version that is gone is told so, with status 410, as an error.
pub proof fn law_expired_watches_are_told(
    since: i64,
    current: i64,
    s: Status,
    e: K8sWatchEvent<Status>,
)
    requires
        call_ensures(resource_expired_status, (since, current), s),
        call_ensures(watch_error_event, (s,), e),
    ensures
        s.code == 410,
        s.reason@ == "Expired"@,
        s.message@ == "too old resource version: "@ + signed_decimal(since as int) + " ("@
            + signed_decimal(current as int) + ")"@,
        e.event_type == WatchEventType::Error,
        e.object == s,
{
}

/// The authorizer is asked whether the resource may be watched.
pub proof fn law_watching_is_asked_for(
    resource_type: &str,
    api_group: &str,
    namespace: Option<&str>,
    r: RequestAttributes,
)
    requires
        call_ensures(watch_attributes, (resource_type, api_group, namespace), r),
    ensures
        r.verb@ == "watch"@,
        r.resource@ == resource_type@,
        r.api_group@ == api_group@,
        r.namespace is Some <==> namespace is Some,
        namespace is Some ==> r.namespace->0@ == namespace->0@,
        r.name is None,
        r.subresource is None,
{
    assert(r@.verb == "watch"@);
}

/// Requests on a pod, its subresources and its streams are asked for by name:
/// logs are read, commands and attachments created.
pub proof fn law_pod_requests_are_asked_for(
    verb: &str,
    namespace: &str,
    name: &str,
    subresource: &str,
    kind: Stream,
    pod: RequestAttributes,
    sub: RequestAttributes,
    stream: RequestAttributes,
)
    requires
        call_ensures(pod_attributes, (verb, namespace, name), pod),
        call_ensures(pod_subresource_attributes, (verb, namespace, name, subresource), sub),
        call_ensures(stream_attributes, (kind, namespace, name), stream),
    ensures
        pod.verb@ == verb@ && pod.resource@ == "pods"@ && pod.api_group@.len() == 0,
        pod.namespace is Some && pod.namespace->0@ == namespace@,
        pod.name is Some && pod.name->0@ == name@,
        pod.subresource is None,
        sub.verb@ == verb@ && sub.resource@ == "pods"@ && sub.api_group@.len() == 0,
        sub.namespace is Some && sub.namespace->0@ == namespace@,
        sub.name is Some && sub.name->0@ == name@,
        sub.subresource is Some && sub.subresource->0@ == subresource@,
        stream.verb@ == if kind == Stream::Logs {
            "get"@
        } else {
            "create"@
        },
        stream.resource@ == "pods"@,
        stream.namespace is Some && stream.namespace->0@ == namespace@,
        stream.name is Some && stream.name->0@ == name@,
        stream.subresource is Some && stream.subresource->0@ == (if kind == Stream::Logs {
            "log"@
        } else if kind == Stream::Exec {
            "exec"@
        } else {
            "attach"@
        }),
{
    reveal_strlit("");
    assert(pod@.verb == verb@);
    assert(sub@.verb == verb@);
    assert(stream@.resource == "pods"@);
}

/// A stream goes to the node of the pod, and to the container that is asked for
/// or the first.
pub proof fn law_streams_find_their_endpoint(
    kind: Stream,
    pod: Pod,
    namespace: &str,
    name: &str,
    asked: Option<String>,
    r: Result<(String, String), Error>,
)
    requires
        call_ensures(find_endpoint, (kind, &pod, namespace, name, asked), r),
    ensures
        ({
            let s = pod@.spec;
            let bound = s is Some && s->0.node_name is Some && s->0.node_name->0.len() > 0;
            let some = asked is Some || (s is Some && s->0.containers.len() > 0);
            &&& r is Ok <==> bound && some
            &&& r is Ok ==> Some(r->Ok_0.0@) == s->0.node_name
            &&& r is Ok && asked is Some ==> r->Ok_0.1@ == asked->0@
            &&& r is Ok && asked is None ==> r->Ok_0.1@ == s->0.containers[0].name
            &&& r is Err ==> r->Err_0@ is InvalidResource
        }),
{
    reveal_strlit("");
}

proof fn lemma_log_container(pairs: Seq<Seq<char>>, i: int)
    requires
        0 <= i,
    ensures
        match container_pair_from(pairs, i) {
            Some(v) => exists|k: int|
                i <= k < pairs.len() && split_once_at(#[trigger] pairs[k], '=') == Some(
                    ("container"@, v),
                ) && forall|j: int|
                    i <= j < k ==> (split_once_at(#[trigger] pairs[j], '=') matches Some(p)
                        ==> p.0 != "container"@),
            None => forall|j: int|
                i <= j < pairs.len() ==> (split_once_at(#[trigger] pairs[j], '=') matches Some(p)
                    ==> p.0 != "container"@),
        },
    decreases pairs.len() - i,
{
    if i < pairs.len() {
        lemma_log_container(pairs, i + 1);
        match split_once_at(pairs[i], '=') {
            Some((key, v)) => {
                if key == "container"@ {
                    assert(split_once_at(pairs[i], '=') == Some(("container"@, v)));
                } else if container_pair_from(pairs, i + 1) is Some {
                    let w = container_pair_from(pairs, i + 1)->0;
                    let k = choose|k: int|
                        i + 1 <= k < pairs.len() && split_once_at(#[trigger] pairs[k], '=')
                            == Some(("container"@, w)) && forall|j: int|
                            i + 1 <= j < k ==> (split_once_at(
                                #[trigger] pairs[j],
                                '=',
                            ) matches Some(p) ==> p.0 != "container"@);
                    assert(split_once_at(pairs[k], '=') == Some(("container"@, w)));
                }
            },
            None => {
                if container_pair_from(pairs, i + 1) is Some {
                    let w = container_pair_from(pairs, i + 1)->0;
                    let k = choose|k: int|
                        i + 1 <= k < pairs.len() && split_once_at(#[trigger] pairs[k], '=')
                            == Some(("container"@, w)) && forall|j: int|
                            i + 1 <= j < k ==> (split_once_at(
                                #[trigger] pairs[j],
                                '=',
                            ) matches Some(p) ==> p.0 != "container"@);
                    assert(split_once_at(pairs[k], '=') == Some(("container"@, w)));
                }
            },
        }
    }
}

/// The container of a log is the first that the query names.
pub proof fn law_container_of_a_log(raw_query: &str, r: Option<String>)
    requires
        call_ensures(log_container, (raw_query,), r),
    ensures
        ({
            let pairs = split_at_char(raw_query@, '&');
            &&& r is Some ==> exists|k: int|
                0 <= k < pairs.len() && split_once_at(#[trigger] pairs[k], '=') == Some(
                    ("container"@, r->0@),
                ) && forall|j: int|
                    0 <= j < k ==> (split_once_at(#[trigger] pairs[j], '=') matches Some(p)
                        ==> p.0 != "container"@)
            &&& r is None ==> forall|j: int|
                0 <= j < pairs.len() ==> (split_once_at(#[trigger] pairs[j], '=') matches Some(p)
                    ==> p.0 != "container"@)
        }),
{
    lemma_log_container(split_at_char(raw_query@, '&'), 0);
}

/// Ports are forwarded where there are any, over SPDY before web sockets.
pub proof fn law_forwarded_ports(
    query: PortForwardQuery,
    r: Result<Vec<u16>, Error>,
    is_spdy: bool,
    is_websocket: bool,
    u: Option<Upgrade>,
)
    requires
        call_ensures(forward_ports, (&query,), r),
        call_ensures(forward_upgrade, (is_spdy, is_websocket), u),
    ensures
        ({
            let ports = ports_of(
                if query.ports is Some {
                    Some(query.ports->0@)
                } else {
                    None
                },
            );
            &&& r is Ok <==> ports.len() > 0
            &&& r is Ok ==> r->Ok_0@ == ports
            &&& r is Err ==> r->Err_0@ is InvalidResource
        }),
        u is Some <==> is_spdy || is_websocket,
        is_spdy ==> u == Some(Upgrade::Spdy),
        !is_spdy && is_websocket ==> u == Some(Upgrade::WebSocket),
{
}

/// A pod is bound to a node once: where it has a specification and no node.
pub proof fn law_pods_are_bound(pod: Pod, name: &str, node: &str, r: Result<Pod, Error>)
    requires
        call_ensures(bind_pod, (pod, name, node), r),
    ensures
        ({
            let s = pod@.spec;
            let free = s is Some && (s->0.node_name is None || s->0.node_name->0.len() == 0);
            &&& r is Ok <==> free
            &&& r is Ok ==> r->Ok_0@ == (PodView {
                spec: Some(PodSpecView { node_name: Some(node@), ..s->0 }),
                ..pod@
            })
            &&& s is Some && !free ==> r->Err_0@ is Conflict
            &&& s is None ==> r->Err_0@ is InvalidResource
        }),
{
    reveal_strlit("");
}

/// A binding names its node.
pub proof fn law_bindings_name_their_node(j: Json, r: Result<String, Error>)
    requires
        call_ensures(read_binding, (Ok::<Json, String>(j),), r),
    ensures
        ({
            let target = member(j@, "target"@);
            let kind = as_text(opt_member(target, "kind"@));
            let name = as_text(opt_member(target, "name"@));
            &&& r is Ok <==> (kind is None || kind->0.len() == 0 || kind->0 == "Node"@) && name
                is Some
            &&& r is Ok ==> r->Ok_0@ == name->0
        }),
{
    crate::subresource_laws::law_node_that_a_binding_names(j@);
    assert(outcome_of(Ok::<Json, String>(j)) == Ok::<JsonView, Seq<char>>(j@));
}

/// Zone and region of the node become labels of the pod; nothing else changes.
pub proof fn law_topology_is_copied(
    pod: Pod,
    node_labels: Option<StringMap>,
    r: Pod,
    key: Seq<char>,
)
    requires
        call_ensures(copy_topology_labels, (pod, &node_labels), r),
    ensures
        r@.spec == pod@.spec,
        r@.status == pod@.status,
        r@.metadata == (ObjectMetaView { labels: r@.metadata.labels, ..pod@.metadata }),
        ({
            let copied = node_labels is Some && node_labels->0@.dom().contains(key) && (key
                == "topology.kubernetes.io/zone"@ || key == "topology.kubernetes.io/region"@);
            let had = pod@.metadata.labels is Some && pod@.metadata.labels->0.dom().contains(key);
            let has = r@.metadata.labels is Some && r@.metadata.labels->0.dom().contains(key);
            &&& copied ==> has && r@.metadata.labels->0[key] == node_labels->0@[key]
            &&& !copied ==> (has <==> had) && (has ==> r@.metadata.labels->0[key]
                == pod@.metadata.labels->0[key])
        }),
{
    reveal_strlit("topology.kubernetes.io/zone");
    reveal_strlit("topology.kubernetes.io/region");
    assert("topology.kubernetes.io/zone"@.len() != "topology.kubernetes.io/region"@.len());
}

/// The scale of a workload is what its fields say.
pub proof fn law_scale_is_extracted(
    resource: Json,
    namespace: &str,
    name: &str,
    r: Result<Scale, Error>,
)
    requires
        call_ensures(extract_scale, (&resource, namespace, name), r),
    ensures
        ({
            let meta = member(resource@, "metadata"@);
            let spec = member(resource@, "spec"@);
            let asked = as_int(opt_member(spec, "replicas"@));
            &&& r is Ok <==> meta is Some && spec is Some
            &&& r is Ok ==> r->Ok_0.metadata.name@ == name@ && r->Ok_0.metadata.namespace@
                == namespace@
            &&& r is Ok && asked is None ==> r->Ok_0.spec.replicas == 1
            &&& r is Ok && asked is Some && i32::MIN <= asked->0 <= i32::MAX
                ==> r->Ok_0.spec.replicas == asked->0
            &&& r is Err ==> r->Err_0@ is InvalidResource
        }),
{
    crate::subresource_laws::law_scale_of_a_workload(resource@, namespace@, name@);
    if r is Ok {
        assert(r->Ok_0@.replicas == r->Ok_0.spec.replicas);
    }
}

/// Replicas are put where they belong, and a negative count is refused.
pub proof fn law_replicas_are_put(
    resource: Json,
    replicas: i32,
    r: Json,
    checked: Result<(), Error>,
)
    requires
        call_ensures(put_replicas, (resource, replicas), r),
        call_ensures(check_replicas, (replicas,), checked),
        resource@ is Object,
        member(resource@, "spec"@) is Some,
        member(resource@, "spec"@)->0 is Object,
    ensures
        opt_member(member(r@, "spec"@), "replicas"@) == Some(JsonView::Int(replicas as int)),
        checked is Ok <==> replicas >= 0,
        checked is Err ==> checked->Err_0@ is Invalid,
{
    reveal_strlit("");
    reveal_strlit("spec");
    reveal_strlit("replicas");
    assert(""@.len() != "spec"@.len() && ""@.len() != "replicas"@.len());
    crate::subresource_laws::law_only_the_replicas_are_set(resource@, replicas as int, ""@, ""@);
}

/// A scale is asked for by the verb of the request, as a subresource of what
/// its path names.
pub proof fn law_scale_is_asked_for(
    request: ScaleRequest,
    path: &str,
    namespace: &str,
    name: &str,
    r: RequestAttributes,
    target: (String, String, String),
)
    requires
        call_ensures(scale_attributes, (&request, path, namespace, name), r),
        call_ensures(parse_scale_uri, (path,), target),
    ensures
        r.verb@ == match request {
            ScaleRequest::Get => "get"@,
            ScaleRequest::Update(_) => "update"@,
            ScaleRequest::Patch(_) => "patch"@,
        },
        r.resource@ == target.2@,
        r.api_group@ == target.0@,
        r.namespace is Some && r.namespace->0@ == namespace@,
        r.name is Some && r.name->0@ == name@,
        r.subresource is Some && r.subresource->0@ == "scale"@,
        (target.0@, target.1@, target.2@) == scale_target(path@),
{
    assert(r@.resource == target.2@);
}

/// The grace period of a deletion comes from the query, the body, the pod, or
/// is half a minute.
pub proof fn law_grace_period_of_a_deletion(
    params: StringMap,
    body: Option<i64>,
    pod: Pod,
    n: i64,
    r: i64,
)
    requires
        call_ensures(grace_period, (&params, body, &pod), r),
    ensures
        params@.dom().contains("gracePeriodSeconds"@) && params@["gracePeriodSeconds"@]
            == signed_decimal(n as int) ==> r == n,
        !params@.dom().contains("gracePeriodSeconds"@) && body is Some ==> r == body->0,
        !params@.dom().contains("gracePeriodSeconds"@) && body is None && pod@.spec is Some
            && pod@.spec->0.termination_grace_period_seconds is Some ==> r
            == pod@.spec->0.termination_grace_period_seconds->0,
        !params@.dom().contains("gracePeriodSeconds"@) && body is None && (pod@.spec is None
            || pod@.spec->0.termination_grace_period_seconds is None) ==> r == 30,
{
    crate::text_laws::law_signed_number_is_read_back(n as int);
}

/// A pod that is to go keeps the time it has, and gets the grace period.
pub proof fn law_going_pods_are_marked(pod: Pod, now: String, grace: i64, r: Pod)
    requires
        call_ensures(mark_terminating, (pod, now, grace), r),
    ensures
        r@.spec == pod@.spec,
        r@.status == pod@.status,
        r@.metadata == (ObjectMetaView {
            deletion_timestamp: if pod@.metadata.deletion_timestamp is Some {
                pod@.metadata.deletion_timestamp
            } else {
                Some(now@)
            },
            deletion_grace_period_seconds: Some(grace),
            ..pod@.metadata
        }),
{
}

/// A list holds every object once, ordered by key.
pub proof fn law_lists_are_ordered(keys: Vec<ListKey>, order: Vec<usize>, a: int, b: int)
    requires
        call_ensures(list_order, (&keys,), order),
        0 <= a < b < keys@.len(),
    ensures
        order@.len() == keys@.len(),
        order@[a] != order@[b],
        order@[a] < keys@.len() && order@[b] < keys@.len(),
        !crate::pod_list::key_before(keys@[order@[b] as int], keys@[order@[a] as int]),
{
    crate::change_laws::law_lists_are_in_order(keys@, order@, a, b);
}

/// A list has the revision of the store, or else the version that it would have.
pub proof fn law_version_of_a_list(revision: Option<i64>, fallback: String, r: String)
    requires
        call_ensures(list_version, (revision, fallback), r),
    ensures
        revision is Some ==> r@ == signed_decimal(revision->0 as int),
        revision is None ==> r@ == fallback@,
{
}

/// A page that is gone has expired, with a token to go on with where there is
/// one; any other failure refuses it.
pub proof fn law_failed_pages(
    message: String,
    fresh: Option<String>,
    version: String,
    r: PageFailure,
)
    requires
        call_ensures(page_failure, (message, fresh, version), r),
    ensures
        r is Expired <==> find_text(message@, "410 Gone"@) is Some,
        r matches PageFailure::Expired { message: m, resume } ==> m == message && (resume is Some
            <==> fresh is Some) && (fresh is Some ==> resume == Some((version, fresh->0))),
        r is Refused ==> r->Refused_0 == Error::InvalidResource(message),
{
}

/// A page is asked for by `limit` and `continue`.
pub proof fn law_requested_pages(params: StringMap, n: i64, r: PageRequest)
    requires
        call_ensures(page_request, (&params,), r),
    ensures
        params@.dom().contains("limit"@) && params@["limit"@] == signed_decimal(n as int)
            ==> r.limit == Some(n),
        !params@.dom().contains("limit"@) ==> r.limit is None,
        r.continue_token is Some <==> params@.dom().contains("continue"@),
        r.continue_token is Some ==> r.continue_token->0@ == params@["continue"@],
{
    crate::text_laws::law_signed_number_is_read_back(n as int);
}

/// An apply is forced by the word `true` alone.
pub proof fn law_forced_applies(params: StringMap, r: bool)
    requires
        call_ensures(apply_is_forced, (&params,), r),
    ensures
        r <==> params@.dom().contains("force"@) && params@["force"@] == "true"@,
{
    law_which_requests_are_watches(params@, params@["force"@]);
}

/// An applied pod is returned in a dry run, takes the place of the stored one,
/// or is created.
pub proof fn law_applied_pods(
    applied: Pod,
    current: Option<Pod>,
    namespace: &str,
    name: &str,
    dry_run: bool,
    r: ApplyAction,
)
    requires
        call_ensures(finish_apply, (applied, &current, namespace, name, dry_run), r),
    ensures
        r is Return <==> dry_run,
        r is Update <==> !dry_run && current is Some,
        r is Create <==> !dry_run && current is None,
        ({
            let q = match r {
                ApplyAction::Return(p) => p@,
                ApplyAction::Update(p) => p@,
                ApplyAction::Create(p) => p@,
            };
            &&& q.metadata == (ObjectMetaView {
                name: name@,
                namespace: Some(namespace@),
                ..applied@.metadata
            })
            &&& q.spec == applied@.spec
        }),
{
}

/// A request goes to the ephemeral containers if and only if its path ends with
/// their name, slashes at the end aside.
pub proof fn law_ephemeral_paths(path: &str, r: bool)
    requires
        call_ensures(is_ephemeral_subresource, (path,), r),
    ensures
        r <==> exists|t: Seq<char>|
            without_end(path@, '/') == #[trigger] (t + "/ephemeralcontainers"@),
{
    crate::text_laws::law_first_place_is_found(
        without_end(path@, '/'),
        "/ephemeralcontainers"@,
    );
}

/// A volume is pending, its data are kept and it holds files, unless it says
/// otherwise.
pub proof fn law_defaults_of_volumes(
    pv: PersistentVolume,
    r: PersistentVolume,
    sc: StorageClass,
    s: StorageClass,
)
    requires
        call_ensures(apply_pv_defaults, (pv,), r),
        call_ensures(apply_storageclass_defaults, (sc,), s),
    ensures
        r.phase == if pv.phase is Some {
            pv.phase
        } else {
            Some(VolumePhase::Pending)
        },
        r.reclaim_policy == if pv.reclaim_policy is Some {
            pv.reclaim_policy
        } else {
            Some(ReclaimPolicy::Retain)
        },
        r.volume_mode == if pv.volume_mode is Some {
            pv.volume_mode
        } else {
            Some(VolumeMode::Filesystem)
        },
        s.reclaim_policy == if sc.reclaim_policy is Some {
            sc.reclaim_policy
        } else {
            Some(ReclaimPolicy::Delete)
        },
        s.volume_binding_mode == if sc.volume_binding_mode is Some {
            sc.volume_binding_mode
        } else {
            Some(BindingMode::Immediate)
        },
{
}

/// The files of every volume get their mode.
pub proof fn law_modes_of_volumes(volumes: Vec<Volume>, r: Option<Vec<Volume>>, i: int)
    requires
        call_ensures(apply_volume_mode_defaults, (Some(volumes),), r),
        0 <= i < volumes@.len(),
    ensures
        r is Some,
        r->0@.len() == volumes@.len(),
        has_mode_of(volumes@[i].secret, r->0@[i].secret),
        has_mode_of(volumes@[i].config_map, r->0@[i].config_map),
        has_mode_of(volumes@[i].downward_api, r->0@[i].downward_api),
        has_mode_of(volumes@[i].projected, r->0@[i].projected),
{
    crate::workload_laws::law_volume_files_have_a_mode(volumes@[i]);
}

/// A claim is forbidden if and only if it is known to break a limit.
pub proof fn law_limits_of_claims(
    within: Option<bool>,
    namespace: &str,
    name: &str,
    r: Result<(), Error>,
)
    requires
        call_ensures(check_claim_limits, (within, namespace, name), r),
    ensures
        r is Err <==> within == Some(false),
        r is Err ==> r->Err_0@ is Forbidden,
{
}

/// The policy of the request counts for the dependents of controllers, claims,
/// slices and, from the query, of stateful sets; of collections for claims and
/// slices.
pub proof fn law_policies_for_dependents(
    res: Resource,
    params: StringMap,
    body: &[u8],
    p: Option<String>,
    c: Option<String>,
)
    requires
        call_ensures(removal_policy, (res, &params, body), p),
        call_ensures(collection_policy, (res, &params, body), c),
    ensures
        ({
            let named = params@.dom().contains("propagationPolicy"@);
            let both = res is ReplicationController || res is ResourceClaim || res
                is ResourceSlice;
            &&& (both || res is StatefulSet) && named ==> p is Some && p->0@
                == params@["propagationPolicy"@]
            &&& both && !named ==> (p is Some <==> policy_in_body(body@) is Some) && (p is Some
                ==> Some(p->0@) == policy_in_body(body@))
            &&& res is StatefulSet && !named ==> p is None
            &&& !both && !(res is StatefulSet) ==> p is None
            &&& (res is ResourceClaim || res is ResourceSlice) && named ==> c is Some && c->0@
                == params@["propagationPolicy"@]
            &&& !(res is ResourceClaim || res is ResourceSlice) ==> c is None
        }),
{
}

/// What is not there to be replaced is created; any other failure is final.
pub proof fn law_missing_objects_are_created<T>(result: Result<T, Error>, r: Upserted<T>)
    requires
        call_ensures(after_replace::<T>, (result,), r),
    ensures
        result is Ok ==> r == Upserted::Done(result->Ok_0),
        result is Err && result->Err_0 is NotFound ==> r is CreateInstead,
        result is Err && !(result->Err_0 is NotFound) ==> r == Upserted::<T>::Failed(
            result->Err_0,
        ),
{
}

/// What the comparison finds wrong counts where there is something to compare
/// with; errors of fields always do.
pub proof fn law_field_errors_refuse(
    was_read: bool,
    errs: Vec<FieldError>,
    c: Result<(), Error>,
    n: Result<(), Error>,
)
    requires
        call_ensures(compared, (was_read, errs), c),
        call_ensures(no_field_errors, (errs,), n),
    ensures
        c is Ok <==> !was_read || errs@.len() == 0,
        c is Err ==> c->Err_0 == Error::Invalid(errs),
        n is Ok <==> errs@.len() == 0,
        n is Err ==> n->Err_0 == Error::Invalid(errs),
{
}

/// Kind and version are filled in where they are empty, and kept otherwise.
pub proof fn law_types_are_filled_in(
    kind: String,
    version: String,
    default_kind: &str,
    default_version: &str,
    r: (String, String),
)
    requires
        call_ensures(fill_type, (kind, version, default_kind, default_version), r),
    ensures
        kind@.len() > 0 ==> r.0@ == kind@,
        kind@.len() == 0 ==> r.0@ == default_kind@,
        version@.len() > 0 ==> r.1@ == version@,
        version@.len() == 0 ==> r.1@ == default_version@,
{
}

/// A name is good, or refused.
pub proof fn law_names_are_checked(name: &str, r: Result<(), Error>)
    requires
        call_ensures(validate_resource_name, (name,), r),
    ensures
        r is Ok <==> {
            &&& name@.len() > 0
            &&& encode_utf8(name@).len() <= 253
            &&& small_letter_or_digit(name@[0])
            &&& small_letter_or_digit(name@[name@.len() - 1])
            &&& forall|i: int|
                0 <= i < name@.len() ==> small_letter_or_digit(#[trigger] name@[i]) || name@[i]
                    == '-' || name@[i] == '.'
        },
{
    law_good_names(name@);
}

/// An object must have a name.
pub proof fn law_names_are_required(name: Option<&str>, r: Result<&str, Error>)
    requires
        call_ensures(require_optional_object_name, (name,), r),
    ensures
        r is Ok <==> name is Some && name->0@.len() > 0,
        r is Ok ==> r->Ok_0@ == name->0@,
        r is Err ==> r->Err_0@ is Invalid,
{
}

/// A value may be dropped if and only if it says nothing.
pub proof fn law_droppable_values(value: Json, r: bool)
    requires
        call_ensures(is_droppable_default, (&value,), r),
    ensures
        r == says_nothing(value@),
{
}

/// The status of one object replaces that of another.
pub proof fn law_status_is_moved(source: Json, object: Json, r: Json, c: Json, key: Seq<char>)
    requires
        call_ensures(move_status, (source, object), r),
        call_ensures(clear_status, (object,), c),
        object@ is Object,
        crate::json::names_once(object@),
        key != "status"@,
    ensures
        member(r@, "status"@) == member(source@, "status"@),
        member(r@, key) == member(object@, key),
        member(c@, "status"@) is None,
        member(c@, key) == member(object@, key),
{
    crate::objects::law_status_is_replaced(object@, member(source@, "status"@), key);
    crate::objects::law_status_is_replaced(object@, None, key);
}

/// A revision is that of the template's hash.
pub proof fn law_revision_of_a_template(template: &str, r: String)
    requires
        call_ensures(template_revision, (template,), r),
    ensures
        r@ == revision_of(sha256(encode_utf8(template@))),
{
}

/// Resources say of themselves what their requests need.
pub proof fn law_flags_of_resources(
    res: Resource,
    namespaced: bool,
    raw: bool,
    table: bool,
    lenient: bool,
    defaulted: bool,
    passes: bool,
)
    requires
        call_ensures(Resource::is_defaulted_when_read, (res,), defaulted),
        call_ensures(Resource::passes_over_lost, (res,), passes),
        call_ensures(Resource::namespaced, (res,), namespaced),
        call_ensures(Resource::is_watched_raw, (res,), raw),
        call_ensures(Resource::has_table, (res,), table),
        call_ensures(Resource::has_lenient_flags, (res,), lenient),
    ensures
        !namespaced <==> res is ClusterRole || res is ClusterRoleBinding || res is PersistentVolume
            || res is ResourceSlice || res is ServiceCidr || res is StorageClass,
        raw <==> res is ResourceClaim || res is ResourceSlice,
        table <==> res is Pod || res is ReplicaSet || res is ReplicationController,
        lenient <==> res is Secret || res is ReplicaSet || res is ResourceClaim || res
            is ResourceSlice,
        defaulted <==> res is StatefulSet || res is PersistentVolumeClaim,
        passes <==> res is StatefulSet || res is PersistentVolume || res is PersistentVolumeClaim
            || res is ResourceClaim || res is ResourceSlice || res is ServiceCidr,
{
}

/// The kind and version of a resource are those of its plural and group.
pub proof fn law_kind_and_version(resource_type: &str, api_group: &str, r: (String, String))
    requires
        call_ensures(resource_type_to_kind_and_version, (resource_type, api_group), r),
    ensures
        r.0@ == kind_of(resource_type@),
        api_group@.len() == 0 ==> r.1@ == "v1"@,
        api_group@.len() > 0 ==> r.1@ == api_group@ + "/v1"@,
{
}

/// A body that does not decode is told so with what the decoder says: a bad
/// request where a pod is created, an invalid one where it is changed.
pub proof fn law_undecoded_bodies_are_told(
    heading: &str,
    message: &str,
    created: Error,
    updated: Error,
    other: Error,
)
    requires
        call_ensures(decode_failure, (message,), created),
        call_ensures(update_decode_failure, (message,), updated),
        call_ensures(invalid_because, (heading, message), other),
    ensures
        created@ == ErrorView::BadRequest("failed to decode: "@ + message@),
        updated@ == ErrorView::InvalidResource("failed to decode: "@ + message@),
        other@ == ErrorView::InvalidResource(heading@ + message@),
{
}

/// A connection is passed on to the kubelet by its scheme, host and port, with
/// the query where there is one.
pub proof fn law_urls_of_streams(
    conn: NodeConn,
    kind: &str,
    ns: &str,
    pod: &str,
    container: &str,
    raw_query: &str,
    url: String,
)
    requires
        call_ensures(build_kubelet_stream_url, (&conn, kind, ns, pod, container, raw_query), url),
    ensures
        ({
            let path = conn.scheme@ + "://"@ + conn.host@ + ":"@ + decimal(conn.port as nat) + ("/"@
                + kind@ + "/"@ + ns@ + "/"@ + pod@ + "/"@ + container@);
            &&& raw_query@.len() == 0 ==> url@ == path
            &&& raw_query@.len() > 0 ==> url@ == path + "?"@ + raw_query@
        }),
{
}

/// The authorizer is asked about a request as it is: its verb, its resource and
/// group, and the object where it is about one.
pub proof fn law_requests_are_asked_for(
    res: Resource,
    request: Request,
    namespace: Option<&str>,
    name: &str,
    a: RequestAttributes,
)
    requires
        call_ensures(request_question, (res, request, namespace, name), a),
    ensures
        request is Create ==> a.verb@ == "create"@,
        request is Get ==> a.verb@ == "get"@,
        request is List ==> a.verb@ == "list"@,
        request is Delete ==> a.verb@ == "delete"@,
        request is Update || request is UpdateStatus ==> a.verb@ == "update"@,
        a.api_group@ == crate::resources::group_of(res),
        a.namespace is Some <==> namespace is Some,
        namespace is Some ==> a.namespace->0@ == namespace->0@,
        a.name is Some <==> !(request is Create || request is List),
        a.name is Some ==> a.name->0@ == name@,
        !(request is UpdateStatus) ==> a.resource@ == crate::resources::plural_of(res),
{
    assert(a@.verb == crate::plan::verb_of(request));
}

/// A patched object is put back under the name and namespace of the request.
pub proof fn law_patched_objects_are_pinned(
    patched: Json,
    namespace: &str,
    name: &str,
    r: Json,
)
    requires
        call_ensures(pin_metadata, (patched, namespace, name), r),
        patched@ is Object,
        member(patched@, "metadata"@) is Some,
        member(patched@, "metadata"@)->0 is Object,
    ensures
        opt_member(member(r@, "metadata"@), "name"@) == Some(JsonView::Text(name@)),
        opt_member(member(r@, "metadata"@), "namespace"@) == Some(JsonView::Text(namespace@)),
{
    reveal_strlit("");
    reveal_strlit("metadata");
    reveal_strlit("name");
    reveal_strlit("namespace");
    assert(""@.len() == 0 && "metadata"@.len() == 8 && "name"@.len() == 4 && "namespace"@.len()
        == 9);
    crate::change_laws::law_patched_object_stays_where_it_is(
        patched@,
        namespace@,
        name@,
        ""@,
        ""@,
    );
}

} // verus!
