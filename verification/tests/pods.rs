use api_server::access::Decision;
use api_server::collections::StringMap;
use api_server::connect::Admission;
use api_server::error::Error;
use api_server::json::Json;
use api_server::model::{
    Container, ObjectMeta, Phase, Pod, PodSpec, PodStatus, QosClass, ResourceRequirements,
};
use api_server::pod_create::{
    create_attributes, create_step, decode_pod_body, decodes_leniently, runtime_class_overhead,
    start_creation, CreatePhase, CreateReply, PodCreation,
};
use api_server::pod_delete::{
    body_grace_period, delete_step, grace_period, mark_stored_terminating, DeletePhase,
    DeleteReply, PodDeletion,
};
use api_server::pod_list::{
    list_order, list_version, page_failure, page_request, ListKey, PageFailure,
};
use api_server::pod_patch::{
    apply_is_forced, apply_step, finish_apply, patch_content_type, patch_step, pin_metadata,
    refuse_conflicts, refuse_patch, server_side_apply_manager, start_apply, start_patch, ApplyAction, ApplyConflict, ApplyReply, Applying, Header,
    PatchFailure, PatchPhase, PatchReply, PodPatch,
};
use api_server::pod_rules::{
    admit_priority, check_active_deadline, check_ephemeral_containers, check_node_name,
    check_sysctls, compute_qos, default_requests, is_ephemeral_subresource, is_valid_sysctl_name,
    priority_question, read_priority_class, PriorityAnswer, PriorityClass, PriorityQuestion,
};
use api_server::pod_update::{
    pod_attributes, update_decode_failure, update_step, PodUpdate, UpdatePhase, UpdateReply,
};
use api_server::resize::detect_container_resource_change;
use api_server::validation::body_document;

fn map(pairs: &[(&str, &str)]) -> StringMap {
    let mut m = StringMap::new();
    for (k, v) in pairs {
        m.insert(k.to_string(), v.to_string());
    }
    m
}

fn meta(name: &str) -> ObjectMeta {
    ObjectMeta {
        name: name.to_string(),
        namespace: Some("default".to_string()),
        uid: String::new(),
        resource_version: None,
        generation: None,
        creation_timestamp: None,
        deletion_timestamp: None,
        deletion_grace_period_seconds: None,
        labels: None,
    }
}

fn spec(containers: Vec<Container>) -> PodSpec {
    PodSpec {
        containers,
        init_containers: None,
        ephemeral_containers: None,
        node_name: None,
        active_deadline_seconds: None,
        termination_grace_period_seconds: None,
        priority: None,
        priority_class_name: None,
        preemption_policy: None,
        enable_service_links: None,
        runtime_class_name: None,
        overhead: None,
        sysctls: None,
    }
}

fn make_container_with_resources(
    name: &str,
    cpu_limit: Option<&str>,
    mem_limit: Option<&str>,
) -> Container {
    let mut limits = StringMap::new();
    if let Some(c) = cpu_limit {
        limits.insert("cpu".to_string(), c.to_string());
    }
    if let Some(m) = mem_limit {
        limits.insert("memory".to_string(), m.to_string());
    }
    Container {
        name: name.to_string(),
        resources: if limits.is_empty() {
            None
        } else {
            Some(ResourceRequirements { limits: Some(limits), requests: None, claims: None })
        },
    }
}

fn make_pod_with_containers(name: &str, containers: Vec<Container>) -> Pod {
    Pod { metadata: meta(name), spec: Some(spec(containers)), status: None }
}

fn plain_pod(name: &str) -> Pod {
    make_pod_with_containers(name, vec![make_container_with_resources("c1", None, None)])
}

#[test]
fn test_detect_resource_change_no_change() {
    let pod1 = make_pod_with_containers(
        "p",
        vec![make_container_with_resources("c1", Some("100m"), Some("128Mi"))],
    );
    let pod2 = make_pod_with_containers(
        "p",
        vec![make_container_with_resources("c1", Some("100m"), Some("128Mi"))],
    );
    assert!(!detect_container_resource_change(&pod1, &pod2));
}

#[test]
fn test_detect_resource_change_cpu_changed() {
    let pod1 = make_pod_with_containers(
        "p",
        vec![make_container_with_resources("c1", Some("100m"), Some("128Mi"))],
    );
    let pod2 = make_pod_with_containers(
        "p",
        vec![make_container_with_resources("c1", Some("200m"), Some("128Mi"))],
    );
    assert!(detect_container_resource_change(&pod1, &pod2));
}

#[test]
fn test_detect_resource_change_memory_changed() {
    let pod1 = make_pod_with_containers(
        "p",
        vec![make_container_with_resources("c1", Some("100m"), Some("128Mi"))],
    );
    let pod2 = make_pod_with_containers(
        "p",
        vec![make_container_with_resources("c1", Some("100m"), Some("256Mi"))],
    );
    assert!(detect_container_resource_change(&pod1, &pod2));
}

#[test]
fn test_detect_resource_change_no_resources_to_some() {
    let pod1 = make_pod_with_containers("p", vec![make_container_with_resources("c1", None, None)]);
    let pod2 = make_pod_with_containers(
        "p",
        vec![make_container_with_resources("c1", Some("100m"), None)],
    );
    assert!(detect_container_resource_change(&pod1, &pod2));
}

#[test]
fn test_detect_resource_change_both_no_resources() {
    let pod1 = make_pod_with_containers("p", vec![make_container_with_resources("c1", None, None)]);
    let pod2 = make_pod_with_containers("p", vec![make_container_with_resources("c1", None, None)]);
    assert!(!detect_container_resource_change(&pod1, &pod2));
}

#[test]
fn test_sysctl_safe_list() {
    let safe = [
        "kernel.shm_rmid_forced",
        "net.ipv4.ip_local_port_range",
        "net.ipv4.tcp_syncookies",
        "net.ipv4.ping_group_range",
        "net.ipv4.ip_unprivileged_port_start",
        "net.ipv4.conf.all.forwarding",
        "net.ipv6.conf.all.forwarding",
    ];
    let safe_sysctls = [
        "kernel.shm_rmid_forced",
        "net.ipv4.ip_local_port_range",
        "net.ipv4.tcp_syncookies",
        "net.ipv4.ping_group_range",
        "net.ipv4.ip_unprivileged_port_start",
    ];
    for name in &safe {
        let is_safe = safe_sysctls.contains(name)
            || name.starts_with("net.ipv4.conf.")
            || name.starts_with("net.ipv6.conf.");
        assert!(is_safe, "Expected {} to be classified as safe", name);
        assert!(check_sysctls(&Some(vec![name.to_string()])).is_ok());
    }
}

#[test]
fn test_sysctl_unsafe_list() {
    let unsafe_sysctls = [
        "kernel.msgmax",
        "kernel.sem",
        "net.core.somaxconn",
        "vm.max_map_count",
    ];
    let safe_sysctls = [
        "kernel.shm_rmid_forced",
        "net.ipv4.ip_local_port_range",
        "net.ipv4.tcp_syncookies",
        "net.ipv4.ping_group_range",
        "net.ipv4.ip_unprivileged_port_start",
    ];
    for name in &unsafe_sysctls {
        let is_safe = safe_sysctls.contains(name)
            || name.starts_with("net.ipv4.conf.")
            || name.starts_with("net.ipv6.conf.");
        assert!(!is_safe, "Expected {} to be classified as unsafe", name);
        assert!(check_sysctls(&Some(vec![name.to_string()])).is_ok(), "left to the kubelet");
    }
}

#[test]
fn test_sysctl_name_accepts_slash_separator() {
    assert!(is_valid_sysctl_name("kernel/shm_rmid_forced"));
    assert!(is_valid_sysctl_name("net/ipv4/tcp_syncookies"));
    assert!(is_valid_sysctl_name("kernel.shm_rmid_forced"));
    assert!(!is_valid_sysctl_name("Kernel/Shm"));
    assert!(!is_valid_sysctl_name("kernel//shm"));
    assert!(!is_valid_sysctl_name("kernel/"));
}

#[test]
fn all_bad_sysctls_are_reported() {
    let names = Some(vec!["Bad".to_string(), "kernel.sem".to_string(), "a..b".to_string()]);
    match check_sysctls(&names) {
        Err(Error::InvalidResource(m)) => {
            assert_eq!(m.matches("spec.securityContext.sysctls: Invalid value").count(), 2);
            assert!(m.contains("\"Bad\"") && m.contains("\"a..b\"") && !m.contains("kernel.sem"));
        }
        _ => panic!("a refusal was expected"),
    }
}

#[test]
fn requests_default_to_limits() {
    let filled = default_requests(vec![make_container_with_resources("c", Some("1"), None)]);
    let r = filled[0].resources.as_ref().unwrap();
    assert_eq!(r.requests.as_ref().unwrap().get("cpu").map(String::as_str), Some("1"));
}

#[test]
fn quality_of_service_follows_the_resources() {
    let qos = |c: Container| compute_qos(&Some(spec(vec![c])));
    assert_eq!(qos(make_container_with_resources("c", None, None)), QosClass::BestEffort);
    assert_eq!(qos(make_container_with_resources("c", Some("1"), Some("1Gi"))), QosClass::Guaranteed);
    let mut c = make_container_with_resources("c", Some("2"), Some("1Gi"));
    c.resources.as_mut().unwrap().requests = Some(map(&[("cpu", "1"), ("memory", "1Gi")]));
    assert_eq!(qos(c), QosClass::Burstable);
    assert_eq!(compute_qos(&None), QosClass::BestEffort);
}

fn class(name: &str, value: i64, default: bool) -> PriorityClass {
    PriorityClass {
        name: Some(name.to_string()),
        value: Some(value),
        preemption_policy: Some("Never".to_string()),
        global_default: Some(default),
    }
}

#[test]
fn priority_comes_from_the_class() {
    let mut s = spec(vec![]);
    s.priority_class_name = Some("high".to_string());
    assert!(matches!(priority_question(&s), PriorityQuestion::Class(n) if n == "high"));
    let admitted = admit_priority(s, PriorityAnswer::Found(class("high", 1000, false))).unwrap();
    assert_eq!(admitted.priority, Some(1000));
    assert_eq!(admitted.preemption_policy.as_deref(), Some("Never"));

    assert!(matches!(priority_question(&spec(vec![])), PriorityQuestion::AllClasses));
    let all = PriorityAnswer::All(vec![class("a", 1, false), class("b", 7, true)]);
    let admitted = admit_priority(spec(vec![]), all).unwrap();
    assert_eq!(admitted.priority, Some(7));
    assert_eq!(admitted.priority_class_name.as_deref(), Some("b"));

    let mut s = spec(vec![]);
    s.priority_class_name = Some("gone".to_string());
    match admit_priority(s, PriorityAnswer::Missing) {
        Err(Error::Forbidden(m)) => assert_eq!(m, "no PriorityClass with name gone was found"),
        _ => panic!("a refusal was expected"),
    }
    let mut s = spec(vec![]);
    s.priority = Some(5);
    assert!(matches!(
        admit_priority(s, PriorityAnswer::Found(class("x", 6, false))),
        Err(Error::Forbidden(_))
    ));
}

#[test]
fn updates_keep_deadline_node_and_ephemeral_containers() {
    assert!(check_active_deadline(Some(10), Some(5)).is_ok());
    assert!(check_active_deadline(Some(10), Some(11)).is_err());
    assert!(check_active_deadline(Some(10), None).is_err());
    assert!(check_active_deadline(None, Some(0)).is_err());
    assert!(check_active_deadline(None, None).is_ok());

    let mut bound = plain_pod("p");
    bound.spec.as_mut().unwrap().node_name = Some("n1".to_string());
    match check_node_name(&bound, &plain_pod("p")) {
        Err(Error::Invalid(errs)) => assert_eq!(errs[0].field, "spec.nodeName"),
        _ => panic!("a refusal was expected"),
    }
    assert!(check_node_name(&plain_pod("p"), &bound).is_ok());

    let mut debugged = plain_pod("p");
    debugged.spec.as_mut().unwrap().ephemeral_containers = Some(vec!["e".to_string()]);
    assert!(check_ephemeral_containers(&plain_pod("p"), &debugged, true).is_ok());
    assert!(check_ephemeral_containers(&plain_pod("p"), &debugged, false).is_err());
    assert!(check_ephemeral_containers(&debugged, &plain_pod("p"), true).is_err());
    assert!(is_ephemeral_subresource("/api/v1/namespaces/ns/pods/p/ephemeralcontainers/"));
    assert!(!is_ephemeral_subresource("/api/v1/namespaces/ns/pods/p"));
}

fn through_admission(at: PodCreation) -> PodCreation {
    let mut at = create_step(at, CreateReply::Passed);
    at = create_step(at, CreateReply::Passed);
    at = create_step(at, CreateReply::Decided(Decision::Allow));
    at = create_step(at, CreateReply::Pod(plain_pod("p")));
    at = create_step(at, CreateReply::Validated(vec![]));
    at = create_step(at, CreateReply::Priority(PriorityAnswer::Nothing));
    at = create_step(at, CreateReply::Pod(plain_pod("p")));
    at = create_step(at, CreateReply::Mutated(Admission::Allow, None));
    at = create_step(at, CreateReply::Pod(plain_pod("p")));
    at = create_step(at, CreateReply::Pod(plain_pod("p")));
    at = create_step(at, CreateReply::Limited(plain_pod("p"), Some(true)));
    at = create_step(at, CreateReply::Passed);
    at = create_step(at, CreateReply::Quota(Ok(true)));
    at = create_step(at, CreateReply::Reviewed(Admission::Allow));
    at = create_step(at, CreateReply::Passed);
    create_step(at, CreateReply::Pod(plain_pod("p")))
}

#[test]
fn pod_is_created_step_by_step() {
    let at = through_admission(start_creation(plain_pod("p"), "ns".to_string(), false));
    assert!(matches!(at.phase, CreatePhase::Storing));
    let status = at.pod.status.as_ref().unwrap();
    assert_eq!(status.phase, Some(Phase::Pending));
    assert_eq!(status.qos_class, Some(QosClass::BestEffort));
    let at = create_step(at, CreateReply::Pod(plain_pod("stored")));
    assert!(matches!(at.phase, CreatePhase::Done));
    assert_eq!(at.pod.metadata.name, "stored");
    let at = through_admission(start_creation(plain_pod("p"), "ns".to_string(), true));
    assert!(matches!(at.phase, CreatePhase::Done), "a dry run ends before the store");
    let a = create_attributes("ns");
    assert_eq!((a.verb.as_str(), a.resource.as_str()), ("create", "pods"));
}

#[test]
fn pod_creation_is_refused() {
    let at = |phase: CreatePhase| PodCreation {
        pod: plain_pod("p"),
        namespace: "ns".to_string(),
        dry_run: false,
        phase,
    };
    let failure = |at: PodCreation| match at.phase {
        CreatePhase::Failed(e) => e,
        _ => panic!("a failure was expected"),
    };
    let denied = create_step(
        at(CreatePhase::Authorizing),
        CreateReply::Decided(Decision::Deny("no".to_string())),
    );
    assert!(matches!(failure(denied), Error::Forbidden(m) if m == "no"));
    let limited = create_step(at(CreatePhase::LimitRanges), CreateReply::Limited(plain_pod("p"), Some(false)));
    assert!(matches!(failure(limited), Error::Forbidden(m) if m == "Pod violates LimitRange constraints"));
    let quota = create_step(at(CreatePhase::Quota), CreateReply::Quota(Ok(false)));
    assert!(matches!(failure(quota), Error::Forbidden(m) if m == "exceeded quota"));
    let quota = create_step(at(CreatePhase::Quota), CreateReply::Quota(Err("down".to_string())));
    assert!(matches!(failure(quota), Error::Internal(m) if m == "error checking ResourceQuota: down"));
    let runtime = create_step(
        at(CreatePhase::RuntimeClass("gvisor".to_string())),
        CreateReply::RuntimeClass(None),
    );
    assert!(matches!(failure(runtime), Error::Forbidden(m)
        if m == "pod p references non-existent RuntimeClass \"gvisor\""));
}

#[test]
fn bodies_decode_leniently_where_a_field_stands_twice() {
    assert!(decodes_leniently("duplicate field `a` at line 1"));
    assert!(!decodes_leniently("missing field `a`"));
    assert!(matches!(decode_pod_body(Ok(1), Err("x".to_string())), Ok(1)));
    assert!(matches!(decode_pod_body(Err("duplicate field `a`".to_string()), Ok(2)), Ok(2)));
    match decode_pod_body::<i32>(Err("duplicate field `a`".to_string()), Err("second".to_string())) {
        Err(Error::BadRequest(m)) => assert_eq!(m, "failed to decode: second"),
        _ => panic!("a bad request was expected"),
    }
    match decode_pod_body::<i32>(Err("first".to_string()), Ok(3)) {
        Err(Error::BadRequest(m)) => assert_eq!(m, "failed to decode: first"),
        _ => panic!("a bad request was expected"),
    }
}

#[test]
fn runtime_classes_give_overhead() {
    let class = |fixed: Vec<(String, Json)>| {
        Json::Object(vec![(
            "overhead".to_string(),
            Json::Object(vec![("podFixed".to_string(), Json::Object(fixed))]),
        )])
    };
    let o = runtime_class_overhead(&class(vec![("cpu".to_string(), Json::Text("250m".to_string()))]));
    assert_eq!(o.unwrap().get("cpu").map(String::as_str), Some("250m"));
    assert!(runtime_class_overhead(&class(vec![])).is_none());
    assert!(runtime_class_overhead(&Json::Null).is_none());
}

fn update(phase: UpdatePhase, dry_run: bool) -> PodUpdate {
    PodUpdate {
        pod: plain_pod("other"),
        old: None,
        namespace: "ns".to_string(),
        name: "p".to_string(),
        subresource: false,
        dry_run,
        phase,
    }
}

fn replace(dry_run: bool) -> PodUpdate {
    let mut stored = plain_pod("p");
    stored.status = Some(PodStatus {
        phase: Some(Phase::Running),
        qos_class: None,
        resize: None,
        conditions: None,
    });
    let mut at = update_step(update(UpdatePhase::StrictFields, dry_run), UpdateReply::Passed);
    at = update_step(at, UpdateReply::Decided(Decision::Allow));
    assert_eq!(at.pod.metadata.name, "p", "the name is that of the request");
    at = update_step(at, UpdateReply::Pod(stored));
    at = update_step(at, UpdateReply::Passed);
    let phase = at.pod.status.as_ref().unwrap().phase;
    assert_eq!(phase, Some(Phase::Running), "the status stays");
    let pod = at.pod.duplicate();
    at = update_step(at, UpdateReply::Pod(pod));
    at = update_step(at, UpdateReply::SpecChecked(Ok(())));
    at = update_step(at, UpdateReply::Mutated(Admission::Allow, None));
    at = update_step(at, UpdateReply::Reviewed(Admission::Allow));
    at = update_step(at, UpdateReply::Generation(Some(4)));
    update_step(at, UpdateReply::Quota(None))
}

#[test]
fn pod_is_updated_step_by_step() {
    let at = replace(false);
    assert!(matches!(at.phase, UpdatePhase::Storing));
    assert_eq!(at.pod.metadata.generation, Some(4));
    assert!(matches!(replace(true).phase, UpdatePhase::Done));
    let at = update_step(update(UpdatePhase::CheckingSpec, false), UpdateReply::SpecChecked(Err("immutable".to_string())));
    assert!(matches!(at.phase, UpdatePhase::Failed(Error::InvalidResource(m)) if m == "immutable"));
    let a = pod_attributes("update", "ns", "p");
    assert_eq!((a.verb.as_str(), a.name.as_deref()), ("update", Some("p")));
    assert!(matches!(update_decode_failure("EOF"), Error::InvalidResource(_) | Error::BadRequest(_)));
}

fn patch(body: &str, dry_run: bool) -> PodPatch {
    let at = start_patch(body.as_bytes(), "ns".to_string(), "p".to_string(), false, dry_run);
    patch_step(at, PatchReply::Decided(Decision::Allow))
}

#[test]
fn pod_is_patched_step_by_step() {
    for dry_run in [false, true] {
        let mut at = patch(r#"{"metadata": {"name": "renamed"}}"#, dry_run);
        at = patch_step(at, PatchReply::Typed(Ok(())));
        at = patch_step(at, PatchReply::Pod(plain_pod("p")));
        match &at.phase {
            PatchPhase::Applying(patch) => assert!(patch.get("metadata").is_some()),
            _ => panic!("the patch is applied next"),
        }
        let object = body_document(br#"{"metadata": {"name": "renamed"}}"#).unwrap();
        at = patch_step(at, PatchReply::Patched(Ok(object)));
        match &at.phase {
            PatchPhase::Decoding(object) => {
                let metadata = object.get("metadata").unwrap();
                assert!(matches!(metadata.get("name"), Some(Json::Text(t)) if t == "p"));
            }
            _ => panic!("the object is decoded next"),
        }
        let mut patched = plain_pod("renamed");
        patched.metadata.resource_version = Some("5".to_string());
        patched.status = Some(PodStatus {
            phase: Some(Phase::Running),
            qos_class: None,
            resize: None,
            conditions: None,
        });
        patched.spec = Some(spec(vec![make_container_with_resources("c1", Some("1"), None)]));
        at = patch_step(at, PatchReply::Decoded(Ok(patched)));
        let pod = at.pod.as_ref().unwrap();
        assert_eq!(pod.metadata.name, "p", "a patch does not rename");
        assert_eq!(pod.status.as_ref().unwrap().resize.as_deref(), Some("Proposed"));
        at = patch_step(at, PatchReply::Quota(Some(true)));
        if dry_run {
            assert!(matches!(at.phase, PatchPhase::Done));
        } else {
            at = patch_step(at, PatchReply::Generation(Some(2)));
            assert!(matches!(at.phase, PatchPhase::Storing));
            assert_eq!(at.pod.as_ref().unwrap().metadata.resource_version, None);
        }
    }
}

#[test]
fn patches_are_refused_in_order() {
    let failure = |at: PodPatch| match at.phase {
        PatchPhase::Failed(Error::InvalidResource(m)) => m,
        _ => panic!("a refusal was expected"),
    };
    let at = patch_step(patch("{", false), PatchReply::Typed(Err("unsupported".to_string())));
    assert_eq!(failure(at), "unsupported", "the type counts before the body");
    let at = patch_step(patch("{", false), PatchReply::Typed(Ok(())));
    let at = patch_step(at, PatchReply::Pod(plain_pod("p")));
    assert_eq!(failure(at), "Invalid patch: EOF while parsing an object at line 1 column 1");
    let applying = || {
        let at = patch_step(patch("{}", false), PatchReply::Typed(Ok(())));
        patch_step(at, PatchReply::Pod(plain_pod("p")))
    };
    let other = PatchFailure::Other("no".to_string());
    assert_eq!(failure(patch_step(applying(), PatchReply::Patched(Err(other)))), "no");
    let at = patch_step(applying(), PatchReply::Patched(Ok(Json::Null)));
    let at = patch_step(at, PatchReply::Decoded(Err("eof".to_string())));
    assert_eq!(failure(at), "Invalid result: eof");
}

#[test]
fn applies_are_recognised_and_finished() {
    let header = |t: &str| Some(Header { text: Some(t.to_string()) });
    assert_eq!(patch_content_type(header("a"), header("b"), "c"), "a");
    assert_eq!(patch_content_type(None, header("b"), "c"), "b");
    assert_eq!(patch_content_type(None, None, "c"), "c");
    assert_eq!(patch_content_type(Some(Header { text: None }), header("b"), "c"), "c");
    let q = map(&[("fieldManager", "kubectl"), ("force", "true")]);
    assert_eq!(
        server_side_apply_manager("application/apply-patch+yaml", &q).map(String::as_str),
        Some("kubectl")
    );
    assert!(server_side_apply_manager("application/json-patch+json", &q).is_none());
    assert!(apply_is_forced(&q) && !apply_is_forced(&StringMap::new()));
    let conflicts = vec![ApplyConflict {
        field: "spec".to_string(),
        current_manager: "a".to_string(),
        applying_manager: "b".to_string(),
    }];
    match refuse_conflicts(&conflicts) {
        Error::Conflict(m) => assert_eq!(
            m,
            "Apply conflict: Field 'spec' is owned by 'a' (applying as 'b'). Use force=true to override."
        ),
        _ => panic!("a conflict was expected"),
    }
    assert!(matches!(refuse_patch(PatchFailure::PathNotFound("/x".to_string())), Error::Invalid(_)));
    assert!(matches!(refuse_patch(PatchFailure::Other("m".to_string())), Error::InvalidResource(_)));
    assert!(matches!(finish_apply(plain_pod("x"), &None, "ns", "p", false), ApplyAction::Create(p) if p.metadata.name == "p"));
    assert!(matches!(finish_apply(plain_pod("x"), &Some(plain_pod("p")), "ns", "p", false), ApplyAction::Update(_)));
    assert!(matches!(finish_apply(plain_pod("x"), &None, "ns", "p", true), ApplyAction::Return(_)));
    let patched = Json::Object(vec![(
        "metadata".to_string(),
        Json::Object(vec![("name".to_string(), Json::Text("evil".to_string()))]),
    )]);
    let pinned = pin_metadata(patched, "ns", "p");
    let metadata = pinned.get("metadata").unwrap();
    assert!(matches!(metadata.get("name"), Some(Json::Text(t)) if t == "p"));
    assert!(matches!(metadata.get("namespace"), Some(Json::Text(t)) if t == "ns"));
}

fn deletion(query: &[(&str, &str)], dry_run: bool) -> PodDeletion {
    PodDeletion {
        pod: None,
        read_at: String::new(),
        params: map(query),
        body_grace: None,
        grace: 0,
        dry_run,
        phase: DeletePhase::Authorizing,
    }
}

fn reviewed(at: PodDeletion) -> PodDeletion {
    let mut at = delete_step(at, DeleteReply::Decided(Decision::Allow));
    at = delete_step(at, DeleteReply::Pod(plain_pod("p"), "t0".to_string()));
    at = delete_step(at, DeleteReply::Passed);
    delete_step(at, DeleteReply::Passed)
}

#[test]
fn pod_is_deleted_with_grace() {
    let at = reviewed(deletion(&[], false));
    assert_eq!(at.grace, 30);
    assert!(matches!(at.phase, DeletePhase::Rereading { attempt: 0 }));
    let at = delete_step(at, DeleteReply::Pod(plain_pod("p"), "t1".to_string()));
    let m = &at.pod.as_ref().unwrap().metadata;
    assert_eq!(m.deletion_timestamp.as_deref(), Some("t1"));
    assert_eq!((m.deletion_grace_period_seconds, m.generation), (Some(30), Some(2)));
    let at = delete_step(at, DeleteReply::Written(Err(Error::Conflict("c".to_string()))));
    assert!(matches!(at.phase, DeletePhase::Rereading { attempt: 1 }));
    let at = delete_step(at, DeleteReply::Pod(plain_pod("p"), "t2".to_string()));
    let at = delete_step(at, DeleteReply::Written(Err(Error::Conflict("c".to_string()))));
    assert!(matches!(at.phase, DeletePhase::Failed(Error::Conflict(_))));

    let at = reviewed(deletion(&[("gracePeriodSeconds", "0")], false));
    assert!(matches!(at.phase, DeletePhase::Removing));
    assert!(matches!(delete_step(at, DeleteReply::Removed).phase, DeletePhase::Done));
    assert!(matches!(reviewed(deletion(&[], true)).phase, DeletePhase::Done));
}

#[test]
fn grace_comes_from_query_body_or_pod() {
    assert_eq!(body_grace_period(br#"{"gracePeriodSeconds": 12}"#), Some(12));
    assert_eq!(body_grace_period(b""), None);
    assert_eq!(body_grace_period(b"no json"), None);
    let mut pod = plain_pod("p");
    pod.spec.as_mut().unwrap().termination_grace_period_seconds = Some(7);
    assert_eq!(grace_period(&map(&[("gracePeriodSeconds", "3")]), Some(5), &pod), 3);
    assert_eq!(grace_period(&StringMap::new(), Some(5), &pod), 5);
    assert_eq!(grace_period(&StringMap::new(), None, &pod), 7);
    assert_eq!(grace_period(&map(&[("gracePeriodSeconds", "x")]), None, &plain_pod("p")), 30);
    let mut going = plain_pod("p");
    going.metadata.deletion_timestamp = Some("first".to_string());
    going.metadata.generation = Some(8);
    let marked = mark_stored_terminating(going, "later".to_string(), 1);
    assert_eq!(marked.metadata.deletion_timestamp.as_deref(), Some("first"));
    assert_eq!(marked.metadata.generation, Some(9));
}

#[test]
fn lists_are_ordered_and_paged() {
    let key = |ns: Option<&str>, name: &str| ListKey {
        namespace: ns.map(|s| s.to_string()),
        name: name.to_string(),
    };
    let keys = vec![key(Some("b"), "a"), key(Some("a"), "z"), key(None, "m"), key(Some("a"), "b"), key(Some("a"), "b")];
    assert_eq!(list_order(&keys), vec![2, 3, 4, 1, 0]);
    assert_eq!(list_version(Some(12), "x".to_string()), "12");
    assert_eq!(list_version(None, "x".to_string()), "x");
    let p = page_request(&map(&[("limit", "5"), ("continue", "tok")]));
    assert_eq!((p.limit, p.continue_token.as_deref()), (Some(5), Some("tok")));
    assert_eq!(page_request(&map(&[("limit", "many")])).limit, None);
    match page_failure("410 Gone: expired".to_string(), Some("t".to_string()), "9".to_string()) {
        PageFailure::Expired { resume: Some((rv, t)), .. } => assert_eq!((rv.as_str(), t.as_str()), ("9", "t")),
        _ => panic!("an expired page was expected"),
    }
    assert!(matches!(
        page_failure("bad token".to_string(), None, "9".to_string()),
        PageFailure::Refused(Error::InvalidResource(m)) if m == "bad token"
    ));
}

#[test]
fn stored_priority_class_is_read() {
    let stored = Json::Object(vec![
        (
            "metadata".to_string(),
            Json::Object(vec![("name".to_string(), Json::Text("high".to_string()))]),
        ),
        ("value".to_string(), Json::Int(1000)),
        ("preemptionPolicy".to_string(), Json::Text("Never".to_string())),
        ("globalDefault".to_string(), Json::Bool(true)),
    ]);
    let c = read_priority_class(&stored);
    assert_eq!(c.name.as_deref(), Some("high"));
    assert_eq!(c.value, Some(1000));
    assert_eq!(c.preemption_policy.as_deref(), Some("Never"));
    assert_eq!(c.global_default, Some(true));
    let c = read_priority_class(&Json::Null);
    assert!(c.name.is_none() && c.value.is_none());
    assert!(c.preemption_policy.is_none() && c.global_default.is_none());
}

#[test]
fn apply_creates_or_updates() {
    let missing = ApplyReply::Current(Err(Error::NotFound("p".to_string())));
    let mut at = apply_step("default", "p", false, start_apply(br#"{"a": 1}"#), missing);
    match &at {
        Applying::Apply { current: None, desired } => assert!(desired.get("a").is_some()),
        _ => panic!("the body is applied next"),
    }
    at = apply_step("default", "p", false, at, ApplyReply::Applied(Ok(plain_pod("other"))));
    match &at {
        Applying::Save(ApplyAction::Create(pod)) => assert_eq!(pod.metadata.name, "p"),
        _ => panic!("a pod that is not there is created"),
    }
    at = apply_step("default", "p", false, at, ApplyReply::Saved(Ok(plain_pod("p"))));
    assert!(matches!(at, Applying::Answer(_)));

    let current = || Applying::Apply { current: Some(plain_pod("p")), desired: Json::Null };
    let applied = || ApplyReply::Applied(Ok(plain_pod("p")));
    let at = apply_step("default", "p", false, current(), applied());
    assert!(matches!(at, Applying::Save(ApplyAction::Update(_))));
    let at = apply_step("default", "p", true, current(), applied());
    assert!(matches!(at, Applying::Answer(_)), "a dry run writes nothing");
}

#[test]
fn apply_is_refused_for_conflicts_and_bad_bodies() {
    let conflict = ApplyConflict {
        field: "spec.nodeName".to_string(),
        current_manager: "a".to_string(),
        applying_manager: "b".to_string(),
    };
    let current = || Applying::Apply { current: Some(plain_pod("p")), desired: Json::Null };
    match apply_step("default", "p", false, current(), ApplyReply::Conflicts(vec![conflict])) {
        Applying::Failed(Error::Conflict(m)) => assert_eq!(
            m,
            "Apply conflict: Field 'spec.nodeName' is owned by 'a' (applying as 'b'). \
             Use force=true to override."
        ),
        _ => panic!("a conflict refuses the apply"),
    }
    let found = ApplyReply::Current(Ok(plain_pod("p")));
    match apply_step("default", "p", false, start_apply(b"{"), found) {
        Applying::Failed(Error::InvalidResource(m)) => {
            assert_eq!(m, "Invalid resource: EOF while parsing an object at line 1 column 1")
        }
        _ => panic!("a body that is no object is refused"),
    }
    match apply_step("default", "p", false, current(), ApplyReply::Applied(Err("eof".to_string()))) {
        Applying::Failed(Error::InvalidResource(m)) => assert_eq!(m, "Invalid result: eof"),
        _ => panic!("a result that is no pod is refused"),
    }
    let down = ApplyReply::Current(Err(Error::Internal("down".to_string())));
    let at = apply_step("default", "p", false, start_apply(b"{}"), down);
    assert!(matches!(at, Applying::Failed(Error::Internal(_))));
}
