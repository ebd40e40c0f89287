use api_server::access::Decision;
use api_server::binding::{bind_pod, bind_step, pod_subresource_attributes, read_binding, read_binding_body, BindReply, Binding};
use api_server::collections::StringMap;
use api_server::connect::{
    build_kubelet_stream_url, connect_step, find_endpoint, forward_ports, forward_step,
    log_container, parse_exec_query, percent_decode_str, stream_attributes, Admission,
    ConnectReply, ConnectRequest, Connecting, ForwardReply, ForwardRequest, Forwarding, NodeConn,
    PortForwardQuery, Stream, Upgrade,
};
use api_server::error::Error;
use api_server::eviction::{
    compute_pdb_desired_healthy, compute_pdb_disruptions_allowed, compute_pdb_healthy_count,
    eviction_step, is_pod_healthy, mark_disruption_target, pod_can_ignore_pdb,
    pod_matches_pdb_selector, read_eviction, read_eviction_body, share_to_work_out, Amount, DisruptionBudget, Evicting,
    EvictionReply, Rounding,
};
use api_server::json::Json;
use api_server::model::{
    Container, ObjectMeta, Phase, Pod, PodSpec, PodStatus, ResourceRequirements,
};
use api_server::resize::{
    apply_pod_resize, check_node_declared_features_for_resize, is_guaranteed_qos,
    resize_changes_cpu, resize_node_to_ask, resize_step, ResizeReply, ResizeRequest, Resizing,
};
use api_server::validation::body_document;

fn map(pairs: &[(&str, &str)]) -> StringMap {
    let mut m = StringMap::new();
    for (k, v) in pairs {
        m.insert(k.to_string(), v.to_string());
    }
    m
}

fn parse(text: &str) -> Json {
    body_document(text.as_bytes()).unwrap()
}

fn container(name: &str, cpu: Option<&str>) -> Container {
    Container {
        name: name.to_string(),
        resources: cpu.map(|c| ResourceRequirements {
            limits: Some(map(&[("cpu", c)])),
            requests: Some(map(&[("cpu", c)])),
            claims: None,
        }),
    }
}

fn pod_with(name: &str, labels: &[(&str, &str)], phase: Phase, containers: Vec<Container>) -> Pod {
    Pod {
        metadata: ObjectMeta {
            name: name.to_string(),
            namespace: Some("ns".to_string()),
            uid: "u1".to_string(),
            resource_version: None,
            generation: Some(1),
            creation_timestamp: None,
            deletion_timestamp: None,
            deletion_grace_period_seconds: None,
            labels: Some(map(labels)),
        },
        spec: Some(PodSpec {
            containers,
            init_containers: None,
            ephemeral_containers: None,
            node_name: None,
            active_deadline_seconds: None,
            termination_grace_period_seconds: None,
            priority: None,
            priority_class_name: None,
            preemption_policy: None,
            enable_service_links: None,
            runtime_class_name: None,
            overhead: None,
            sysctls: None,
        }),
        status: Some(PodStatus { phase: Some(phase), qos_class: None, resize: None, conditions: None }),
    }
}

fn make_pod(name: &str, labels: &[(&str, &str)], running: bool) -> Pod {
    let phase = if running { Phase::Running } else { Phase::Pending };
    pod_with(name, labels, phase, vec![container("test", None)])
}

fn make_pdb(name: &str, min_available: i32, match_labels: &[(&str, &str)]) -> DisruptionBudget {
    DisruptionBudget {
        name: name.to_string(),
        selects_pod: true,
        match_labels: Some(map(match_labels)),
        min_available: Some(Amount::Count(min_available)),
        max_unavailable: None,
    }
}

/// The share of `total` pods that a budget counts with.
fn share(budget: &DisruptionBudget, total: i32) -> Option<i32> {
    let (percent, rounding) = share_to_work_out(budget)?;
    let percentage: f64 = percent.parse().ok()?;
    let exact = (total as f64) * (percentage / 100.0);
    Some(match rounding {
        Rounding::Up => exact.ceil() as i32,
        Rounding::Down => exact.floor() as i32,
    })
}

#[test]
fn test_pdb_blocks_eviction_then_allows_after_update() {
    let labels = [("app", "web")];
    let pods = vec![make_pod("test-pod-1", &labels, true)];

    let mut pdb = make_pdb("test-pdb", 1, &labels);
    let disruptions = compute_pdb_disruptions_allowed(&pdb, &pods, None);
    assert_eq!(
        disruptions, 0,
        "Should not allow any disruptions with minAvailable=1 and 1 pod"
    );

    let healthy = compute_pdb_healthy_count(&pdb, &pods);
    assert_eq!(healthy, 1);
    let desired = compute_pdb_desired_healthy(&pdb, 1, None);
    assert_eq!(desired, 1);

    pdb.min_available = Some(Amount::Count(0));
    let disruptions_after = compute_pdb_disruptions_allowed(&pdb, &pods, None);
    assert_eq!(
        disruptions_after, 1,
        "Should allow 1 disruption after lowering minAvailable to 0"
    );
}

#[test]
fn test_resize_bumps_generation_on_spec_change() {
    let pod = pod_with("p1", &[], Phase::Running, vec![container("c1", Some("1"))]);
    let desired = pod_with("p1", &[], Phase::Running, vec![container("c1", Some("2"))]);

    let updated = apply_pod_resize(pod, &desired, Some(2));
    assert_eq!(
        updated.metadata.generation,
        Some(2),
        "resize that changes resources must bump generation 1 -> 2"
    );
    let cpu = updated.spec.as_ref().unwrap().containers[0]
        .resources
        .as_ref()
        .unwrap()
        .requests
        .as_ref()
        .unwrap()
        .get("cpu")
        .unwrap()
        .clone();
    assert_eq!(cpu, "2", "resized cpu request must be applied");

    let again = apply_pod_resize(updated, &desired, Some(3));
    assert_eq!(
        again.metadata.generation,
        Some(2),
        "no-op resize must not bump generation"
    );
}

#[test]
fn test_pdb_allows_eviction_with_extra_pods() {
    let labels = [("app", "web")];
    let pods: Vec<Pod> = (1..=3).map(|i| make_pod(&format!("pod-{}", i), &labels, true)).collect();
    let pdb = make_pdb("pdb-extra", 2, &labels);
    let disruptions = compute_pdb_disruptions_allowed(&pdb, &pods, None);
    assert_eq!(
        disruptions, 1,
        "Should allow 1 disruption with 3 healthy pods and minAvailable=2"
    );
}

#[test]
fn test_pdb_no_status_still_blocks() {
    let labels = [("app", "web")];
    let pods: Vec<Pod> = (1..=2).map(|i| make_pod(&format!("pod-{}", i), &labels, true)).collect();
    let pdb = make_pdb("pdb-no-status", 2, &labels);
    let disruptions = compute_pdb_disruptions_allowed(&pdb, &pods, None);
    assert_eq!(
        disruptions, 0,
        "PDB with no status should still block when minAvailable equals pod count"
    );
}

#[test]
fn test_pod_matches_pdb_selector_basic() {
    let pod = make_pod("p1", &[("app", "web")], true);
    assert!(pod_matches_pdb_selector(&pod, &Some(map(&[("app", "web")]))));
    assert!(!pod_matches_pdb_selector(&pod, &Some(map(&[("app", "api")]))));
}

#[test]
fn test_is_pod_healthy_checks_phase() {
    let running_pod = make_pod("p1", &[], true);
    assert!(is_pod_healthy(&running_pod));

    let pending_pod = make_pod("p2", &[], false);
    assert!(!is_pod_healthy(&pending_pod));
}

#[test]
fn test_compute_desired_healthy_min_available() {
    let pdb = make_pdb("pdb", 3, &[("app", "web")]);
    assert_eq!(compute_pdb_desired_healthy(&pdb, 5, None), 3);
}

#[test]
fn test_compute_desired_healthy_percentage() {
    let mut pdb = make_pdb("pdb", 0, &[]);
    pdb.min_available = Some(Amount::Share("50%".to_string()));
    let share = share(&pdb, 10);
    assert_eq!(compute_pdb_desired_healthy(&pdb, 10, share), 5);
}

#[test]
fn shares_are_rounded_for_safety() {
    let mut pdb = make_pdb("pdb", 0, &[]);
    pdb.min_available = None;
    pdb.max_unavailable = Some(Amount::Share("30%".to_string()));
    assert!(matches!(share_to_work_out(&pdb), Some((p, Rounding::Down)) if p == "30"));
    let s = share(&pdb, 5);
    assert_eq!(compute_pdb_desired_healthy(&pdb, 5, s), 4);
    pdb.max_unavailable = Some(Amount::Share("lots".to_string()));
    assert!(share_to_work_out(&pdb).is_none());
    assert_eq!(compute_pdb_desired_healthy(&pdb, 5, None), 5);
    pdb.max_unavailable = Some(Amount::Count(2));
    assert_eq!(compute_pdb_desired_healthy(&pdb, 5, None), 3);
    pdb.max_unavailable = None;
    assert_eq!(compute_pdb_desired_healthy(&pdb, 5, None), 5);
}

fn conn(host: &str) -> NodeConn {
    NodeConn { host: host.to_string(), port: 10250, scheme: "http".to_string() }
}

#[test]
fn exec_kubelet_url_matches_upstream_shape() {
    let u = build_kubelet_stream_url(
        &conn("10.0.0.5"),
        "exec",
        "ns1",
        "pod1",
        "c1",
        "command=id&tty=false&stdin=false&stdout=true&stderr=true",
    );
    assert_eq!(
        u.to_string(),
        "http://10.0.0.5:10250/exec/ns1/pod1/c1?command=id&tty=false&stdin=false&stdout=true&stderr=true"
    );
}

#[test]
fn attach_kubelet_url_matches_upstream_shape() {
    let u = build_kubelet_stream_url(
        &conn("192.168.1.10"),
        "attach",
        "default",
        "my-pod",
        "main",
        "stdin=true&stdout=true",
    );
    assert_eq!(
        u.to_string(),
        "http://192.168.1.10:10250/attach/default/my-pod/main?stdin=true&stdout=true"
    );
}

#[test]
fn kubelet_url_no_query() {
    let u = build_kubelet_stream_url(
        &conn("10.0.0.1"),
        "exec",
        "kube-system",
        "coredns",
        "coredns",
        "",
    );
    assert_eq!(
        u.to_string(),
        "http://10.0.0.1:10250/exec/kube-system/coredns/coredns"
    );
}

#[test]
fn logs_kubelet_url_uses_containerlogs_path() {
    let u = build_kubelet_stream_url(
        &conn("10.0.0.6"),
        "containerLogs",
        "ns1",
        "pod1",
        "c1",
        "tailLines=5&follow=false",
    );
    assert_eq!(
        u.to_string(),
        "http://10.0.0.6:10250/containerLogs/ns1/pod1/c1?tailLines=5&follow=false"
    );
}

#[test]
fn exec_queries_are_decoded() {
    let q = parse_exec_query("command=ls&command=-l%20a+b&container=c1&stdin=1&stdout=true&tty=no&x");
    assert_eq!(q.command, vec!["ls".to_string(), percent_decode_str("-l%20a+b")]);
    assert_eq!(q.container.as_deref(), Some("c1"));
    assert!(q.stdin && q.stdout && !q.stderr && !q.tty);
    assert_eq!(percent_decode_str("a%20b"), "a b");
    assert_eq!(percent_decode_str("plain"), "plain");
    assert_eq!(percent_decode_str("%6C%73+%2Dl"), "ls -l");
    assert_eq!(percent_decode_str("%C3%A9"), "\u{c3}\u{a9}", "each byte is one character");
    assert_eq!(percent_decode_str("\u{e9}"), "\u{c3}\u{a9}");
    assert_eq!(percent_decode_str("%4"), "@");
    assert_eq!(percent_decode_str("100%zz"), "100%zz");
    assert_eq!(percent_decode_str("%ff"), "\u{ff}");
    assert_eq!(log_container("follow=true&container=main").as_deref(), Some("main"));
    assert_eq!(log_container(""), None);
}

fn request(kind: Stream) -> ConnectRequest {
    ConnectRequest {
        kind,
        namespace: "ns".to_string(),
        name: "p".to_string(),
        raw_query: "q=1".to_string(),
        container: None,
    }
}

fn bound_pod() -> Pod {
    let mut pod = make_pod("p", &[], true);
    pod.spec.as_mut().unwrap().node_name = Some("n1".to_string());
    pod
}

#[test]
fn connections_are_proxied_to_the_kubelet() {
    let req = request(Stream::Exec);
    let at = connect_step(&req, Connecting::Authorizing, ConnectReply::Decided(Decision::Allow));
    assert!(matches!(at, Connecting::Admitting));
    let at = connect_step(&req, at, ConnectReply::Admitted(Admission::Allow));
    let at = connect_step(&req, at, ConnectReply::Pod(bound_pod()));
    assert!(matches!(&at, Connecting::ReadingNode { node, container } if node == "n1" && container == "test"));
    let at = connect_step(&req, at, ConnectReply::Node(conn("h")));
    assert!(matches!(at, Connecting::Proxying { url } if url == "http://h:10250/exec/ns/p/test?q=1"));
    let logs = connect_step(&request(Stream::Logs), Connecting::Authorizing, ConnectReply::Decided(Decision::Allow));
    assert!(matches!(logs, Connecting::ReadingPod), "logs are not put before webhooks");
    let denied = connect_step(&req, Connecting::Admitting, ConnectReply::Admitted(Admission::Deny("no".to_string())));
    assert!(matches!(denied, Connecting::Failed(Error::Forbidden(m)) if m == "admission webhook denied the request: no"));
    match find_endpoint(Stream::Attach, &make_pod("p", &[], true), "ns", "p", None) {
        Err(Error::InvalidResource(m)) => assert_eq!(m, "pod ns/p has not been assigned to a node"),
        _ => panic!("a refusal was expected"),
    }
    let a = stream_attributes(Stream::Exec, "ns", "p");
    assert_eq!(a.subresource.as_deref(), Some("exec"));
}

#[test]
fn ports_are_forwarded() {
    let query = |p: Option<&str>| PortForwardQuery { ports: p.map(|s| s.to_string()) };
    assert_eq!(forward_ports(&query(Some("80, 443,x,70000"))).unwrap(), vec![80, 443]);
    assert!(matches!(forward_ports(&query(None)), Err(Error::InvalidResource(_))));
    let req = |is_spdy: bool, is_websocket: bool| ForwardRequest { query: query(Some("80")), is_spdy, is_websocket };
    let at = forward_step(&req(true, true), Forwarding::ReadPod, ForwardReply::Found);
    assert!(matches!(at, Forwarding::Carry { upgrade: Upgrade::Spdy, .. }));
    let at = forward_step(&req(false, true), Forwarding::ReadPod, ForwardReply::Found);
    assert!(matches!(at, Forwarding::Carry { upgrade: Upgrade::WebSocket, .. }));
    let at = forward_step(&req(false, false), Forwarding::ReadPod, ForwardReply::Found);
    assert!(matches!(at, Forwarding::AskForUpgrade));
    let at = forward_step(&req(true, false), Forwarding::Authorize, ForwardReply::Decided(Decision::Deny("no".to_string())));
    assert!(matches!(at, Forwarding::Failed(Error::Forbidden(_))));
}

#[test]
fn bindings_name_a_node() {
    let read = |text: &str| read_binding_body(text.as_bytes());
    assert_eq!(read(r#"{"target": {"kind": "Node", "name": "n1"}}"#).unwrap(), "n1");
    assert_eq!(read(r#"{"target": {"kind": "", "name": "n1"}}"#).unwrap(), "n1");
    match read(r#"{"target": {"kind": "Pod", "name": "n1"}}"#) {
        Err(Error::InvalidResource(m)) => assert_eq!(
            m,
            "Unsupported value: target.kind: \"Pod\": supported values: \"Node\", \"<empty>\""
        ),
        _ => panic!("a refusal was expected"),
    }
    assert!(matches!(read("{}"), Err(Error::InvalidResource(m)) if m == "Missing target.name in binding"));
    assert!(matches!(read("{"), Err(Error::InvalidResource(m)) if m.starts_with("Invalid binding format: EOF")));
    assert!(matches!(read_binding(Err("EOF".to_string())), Err(Error::InvalidResource(m)) if m == "Invalid binding format: EOF"));
    assert!(matches!(bind_pod(bound_pod(), "p", "n2"), Err(Error::Conflict(m)) if m == "pod p is already assigned to node \"n1\""));
}

#[test]
fn pod_is_bound_with_the_topology_of_its_node() {
    let target = read_binding_body(br#"{"target": {"name": "n1"}}"#);
    let at = bind_step("p", true, Binding::Authorize { target }, BindReply::Decided(Decision::Allow));
    let at = bind_step("p", true, at, BindReply::Pod(make_pod("p", &[("app", "web")], true)));
    assert!(matches!(&at, Binding::ReadNode { node, .. } if node == "n1"));
    let node = map(&[("topology.kubernetes.io/zone", "z1"), ("topology.kubernetes.io/rack", "r1")]);
    let at = bind_step("p", true, at, BindReply::Node(Some(node)));
    match &at {
        Binding::Write { pod, .. } => {
            let labels = pod.metadata.labels.as_ref().unwrap();
            assert_eq!(labels.get("topology.kubernetes.io/zone").map(String::as_str), Some("z1"));
            assert!(!labels.contains_key("topology.kubernetes.io/rack"));
            assert!(labels.contains_key("app"));
            assert_eq!(pod.spec.as_ref().unwrap().node_name.as_deref(), Some("n1"));
        }
        _ => panic!("a write was expected"),
    }
    assert!(matches!(bind_step("p", true, at, BindReply::Written), Binding::Bound { node } if node == "n1"));
    let at = Binding::ReadPod { node: "n2".to_string() };
    assert!(matches!(bind_step("p", true, at, BindReply::Pod(bound_pod())), Binding::Failed(Error::Conflict(_))));
    let at = Binding::ReadNode { pod: make_pod("p", &[], true), node: "n2".to_string() };
    assert!(matches!(
        bind_step("p", true, at, BindReply::Error(Error::NotFound("n2".to_string()))),
        Binding::Write { .. }
    ), "an unknown node has no labels");
    let a = pod_subresource_attributes("create", "ns", "p", "binding");
    assert_eq!(a.subresource.as_deref(), Some("binding"));
}

#[test]
fn evictions_are_read() {
    let read = |text: &str| read_eviction_body(text.as_bytes());
    let r = read(r#"{"apiVersion": "policy/v1", "deleteOptions": {"dryRun": ["All"], "gracePeriodSeconds": 5, "preconditions": {"uid": "u"}}}"#).unwrap();
    assert!(r.dry_run);
    assert_eq!((r.uid.as_deref(), r.grace_period_seconds), (Some("u"), Some(5)));
    match read(r#"{"apiVersion": "policy/v9"}"#) {
        Err(Error::InvalidResource(m)) => assert_eq!(
            m,
            "unsupported Eviction apiVersion \"policy/v9\"; expected policy/v1 or policy/v1beta1"
        ),
        _ => panic!("a refusal was expected"),
    }
    match read(r#"{"deleteOptions": {"gracePeriodSeconds": -1}}"#) {
        Err(Error::Invalid(e)) => assert_eq!(e[0].field, "deleteOptions.gracePeriodSeconds"),
        _ => panic!("a refusal was expected"),
    }
    assert!(matches!(read("{"), Err(Error::InvalidResource(m)) if m.starts_with("Invalid eviction format: EOF")));
    assert!(matches!(read_eviction(Err("EOF".to_string())), Err(Error::InvalidResource(_))));
}

fn evict(text: &str, budgets: Vec<DisruptionBudget>) -> Evicting {
    let request = read_eviction_body(text.as_bytes());
    let at = eviction_step(Evicting::Authorizing(request), EvictionReply::Decided(Decision::Allow));
    let at = eviction_step(at, EvictionReply::Pod(make_pod("p", &[("app", "web")], true), "t".to_string()));
    eviction_step(at, EvictionReply::Budgets(budgets))
}

fn web_pods(n: usize) -> Vec<Pod> {
    (0..n).map(|i| make_pod(&format!("p{}", i), &[("app", "web")], true)).collect()
}

#[test]
fn budgets_hold_evictions_up() {
    let at = evict("{}", vec![make_pdb("b", 2, &[("app", "web")])]);
    let at = eviction_step(at, EvictionReply::Pods(web_pods(2)));
    assert!(matches!(at, Evicting::CountingHealthy { .. }));
    match eviction_step(at, EvictionReply::Pods(web_pods(2))) {
        Evicting::Refused(r) => {
            assert_eq!(r.message, "Cannot evict pod as it would violate the pod's disruption budget.");
            assert_eq!(r.detail, "The disruption budget b needs 2 healthy pods and has 2 currently");
            assert_eq!(r.retry_after_seconds, 10);
        }
        _ => panic!("a refusal was expected"),
    }
    let at = evict("{}", vec![make_pdb("b", 2, &[("app", "web")])]);
    let at = eviction_step(at, EvictionReply::Pods(web_pods(3)));
    assert!(matches!(&at, Evicting::Recording { allowed: 1, .. }));
    let at = eviction_step(at, EvictionReply::Error(Error::Conflict("c".to_string())));
    assert!(matches!(at, Evicting::ReadingForMark), "a booking that fails holds nothing up");
    let at = eviction_step(at, EvictionReply::Pod(make_pod("p", &[], true), "t".to_string()));
    assert!(matches!(&at, Evicting::Marking(p) if p.status.as_ref().unwrap().conditions.as_ref().unwrap()[0].condition_type == "DisruptionTarget"));
    let at = eviction_step(at, EvictionReply::Written);
    let at = eviction_step(at, EvictionReply::Pod(make_pod("p", &[], true), "t".to_string()));
    assert!(matches!(eviction_step(at, EvictionReply::Deleted), Evicting::Done));
}

#[test]
fn shares_are_worked_out_on_the_way() {
    let budget = || {
        let mut b = make_pdb("b", 0, &[("app", "web")]);
        b.min_available = Some(Amount::Share("50%".to_string()));
        b
    };
    let at = eviction_step(evict("{}", vec![budget()]), EvictionReply::Pods(web_pods(4)));
    match &at {
        Evicting::WorkingOut { total, healthy, percent, rounding, .. } => {
            assert_eq!((*total, *healthy, percent.as_str()), (4, 4, "50"));
            assert_eq!(*rounding, Rounding::Up);
        }
        _ => panic!("a share was to be worked out"),
    }
    assert!(matches!(eviction_step(at, EvictionReply::Share(Some(2))), Evicting::Recording { allowed: 2, .. }));
    let at = eviction_step(evict("{}", vec![budget()]), EvictionReply::Error(Error::Internal("x".to_string())));
    let at = eviction_step(at, EvictionReply::Share(Some(0)));
    let at = eviction_step(at, EvictionReply::Pods(web_pods(1)));
    assert!(matches!(at, Evicting::WorkingOutRefusal { healthy: 1, .. }));
    assert!(matches!(eviction_step(at, EvictionReply::Share(None)), Evicting::Refused(r)
        if r.detail == "The disruption budget b needs 1 healthy pods and has 1 currently"));
}

#[test]
fn dry_evictions_change_nothing() {
    let text = r#"{"deleteOptions": {"dryRun": ["All"]}}"#;
    let at = evict(text, vec![make_pdb("b", 0, &[("app", "web")])]);
    assert!(matches!(eviction_step(at, EvictionReply::Pods(web_pods(1))), Evicting::Done));
    let request = read_eviction_body(br#"{"deleteOptions": {"preconditions": {"uid": "other"}}}"#);
    let at = eviction_step(Evicting::Authorizing(request), EvictionReply::Decided(Decision::Allow));
    let at = eviction_step(at, EvictionReply::Pod(make_pod("p", &[], true), "t".to_string()));
    assert!(matches!(at, Evicting::Failed(Error::Conflict(_))));
    assert!(pod_can_ignore_pdb(&make_pod("p", &[], false)));
    assert!(!pod_can_ignore_pdb(&make_pod("p", &[], true)));
    let marked = mark_disruption_target(make_pod("p", &[], true), "t".to_string()).unwrap();
    assert!(mark_disruption_target(marked, "later".to_string()).is_none(), "marked once");
}

fn guaranteed(cpu: &str) -> Pod {
    let both = || Some(map(&[("cpu", cpu), ("memory", "1Gi")]));
    let mut pod = pod_with("p", &[], Phase::Running, vec![Container {
        name: "c".to_string(),
        resources: Some(ResourceRequirements { limits: both(), requests: both(), claims: None }),
    }]);
    pod.spec.as_mut().unwrap().node_name = Some("n1".to_string());
    pod
}

#[test]
fn guaranteed_pods_need_a_capable_node() {
    assert!(is_guaranteed_qos(&guaranteed("1")));
    let mut limited = guaranteed("1");
    limited.spec.as_mut().unwrap().containers[0].resources.as_mut().unwrap().requests = None;
    assert!(!is_guaranteed_qos(&limited), "limits without requests guarantee nothing");
    assert!(resize_changes_cpu(&guaranteed("1"), &guaranteed("2")));
    assert!(!resize_changes_cpu(&guaranteed("1"), &guaranteed("1")));
    assert_eq!(resize_node_to_ask(true, true, &guaranteed("1"), &guaranteed("2")), Some("n1"));
    assert_eq!(resize_node_to_ask(false, true, &guaranteed("1"), &guaranteed("2")), None);
    let declared = Ok(Some(vec!["GuaranteedQoSPodCPUResize".to_string()]));
    assert!(check_node_declared_features_for_resize("n1", declared).is_ok());
    match check_node_declared_features_for_resize("n1", Ok(None)) {
        Err(Error::Forbidden(m)) => assert!(m.contains("node \"n1\" has not declared feature")),
        _ => panic!("a refusal was expected"),
    }
    assert!(check_node_declared_features_for_resize("n1", Err(Error::NotFound("n1".to_string()))).is_ok());
}

#[test]
fn pod_is_resized_step_by_step() {
    let req = ResizeRequest { desired: Ok(guaranteed("2")), node_declared_features: true, in_place_scaling: true };
    let at = resize_step(&req, Resizing::Authorize, ResizeReply::Decided(Decision::Allow));
    let at = resize_step(&req, at, ResizeReply::Pod(guaranteed("1"), None));
    assert!(matches!(&at, Resizing::AskNode { node, .. } if node == "n1"));
    let at = resize_step(&req, at, ResizeReply::Features(Err(Error::NotFound("n1".to_string()))));
    assert!(matches!(at, Resizing::CheckQuota { .. }));
    let mut at = resize_step(&req, at, ResizeReply::Quota(None));
    for attempt in 0..5 {
        assert!(matches!(at, Resizing::Reread { attempt: n } if n == attempt));
        at = resize_step(&req, at, ResizeReply::Pod(guaranteed("1"), Some(2)));
        assert!(matches!(&at, Resizing::Write { pod, .. } if pod.metadata.generation == Some(2)));
        at = resize_step(&req, at, ResizeReply::Written(Err(Error::Conflict("c".to_string()))));
    }
    assert!(matches!(at, Resizing::Failed(Error::Conflict(_))));
    let at = resize_step(&req, Resizing::CheckQuota { current: guaranteed("1"), projected: guaranteed("2") }, ResizeReply::Quota(Some(false)));
    assert!(matches!(at, Resizing::Failed(Error::Forbidden(m)) if m == "exceeded quota"));
    let bad = ResizeRequest { desired: Err("EOF".to_string()), node_declared_features: false, in_place_scaling: false };
    let at = resize_step(&bad, Resizing::Authorize, ResizeReply::Decided(Decision::Allow));
    assert!(matches!(at, Resizing::Failed(Error::InvalidResource(m)) if m == "failed to decode resize body: EOF"));
}
