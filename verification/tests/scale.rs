use api_server::access::Decision;
use api_server::error::Error;
use api_server::json::Json;
use api_server::scale::{
    check_replicas, extract_scale, media_type, parse_scale_uri, patch_request, put_replicas,
    scale_attributes, scale_step, ScaleReply, ScaleRequest, Scaling,
};
use api_server::validation::body_document;

fn parse(text: &str) -> Json {
    body_document(text.as_bytes()).unwrap()
}

fn workload(replicas: i64) -> Json {
    parse(&format!(
        r#"{{"metadata": {{"name": "d", "resourceVersion": "1"}},
            "spec": {{"replicas": {}, "selector": {{"matchLabels": {{"app": "test", "tier": "x"}}}}}},
            "status": {{"replicas": 2}}}}"#,
        replicas
    ))
}

#[test]
fn test_extract_scale() {
    let resource = parse(
        r#"{
        "apiVersion": "apps/v1",
        "kind": "Deployment",
        "metadata": {
            "name": "test-deployment",
            "namespace": "default",
            "resourceVersion": "100",
            "creationTimestamp": "2026-03-10T00:00:00Z"
        },
        "spec": {
            "replicas": 3,
            "selector": { "matchLabels": { "app": "test" } }
        },
        "status": { "replicas": 3, "readyReplicas": 3 }
    }"#,
    );

    let scale = extract_scale(&resource, "default", "test-deployment").unwrap();

    assert_eq!(scale.kind, "Scale");
    assert_eq!(scale.api_version, "autoscaling/v1");
    assert_eq!(scale.metadata.name, "test-deployment");
    assert_eq!(scale.metadata.namespace, "default");
    assert_eq!(scale.spec.replicas, 3);
    assert_eq!(scale.status.replicas, 3);
    assert_eq!(scale.status.selector.as_deref(), Some("app=test"));
    assert_eq!(scale.metadata.resource_version.as_deref(), Some("100"));
}

#[test]
fn test_extract_scale_no_status() {
    let resource = parse(
        r#"{
        "apiVersion": "apps/v1",
        "kind": "Deployment",
        "metadata": { "name": "test-deployment", "namespace": "default" },
        "spec": { "replicas": 5 }
    }"#,
    );

    let scale = extract_scale(&resource, "default", "test-deployment").unwrap();

    assert_eq!(scale.spec.replicas, 5);
    assert_eq!(scale.status.replicas, 0);
}

#[test]
fn selectors_become_text() {
    let selector = |text: &str| {
        let j = parse(&format!(r#"{{"metadata": {{}}, "spec": {{"selector": {}}}}}"#, text));
        extract_scale(&j, "ns", "n").unwrap().status.selector
    };
    assert_eq!(selector(r#"{"a": "1", "b": "2"}"#).as_deref(), Some("a=1,b=2"));
    assert_eq!(selector(r#"{"matchLabels": {"a": 1}}"#).as_deref(), Some("a="));
    assert_eq!(selector(r#"{"matchExpressions": []}"#), None);
    assert_eq!(selector(r#""a=b""#).as_deref(), Some("a=b"));
    assert_eq!(selector("7"), None);
}

#[test]
fn missing_parts_are_named() {
    for (text, want) in [(r#"{"spec": {}}"#, "Missing metadata"), (r#"{"metadata": {}}"#, "Missing spec")] {
        match extract_scale(&parse(text), "ns", "n") {
            Err(Error::InvalidResource(m)) => assert_eq!(m, want),
            other => panic!("{:?}", other),
        }
    }
    let s = extract_scale(&parse(r#"{"metadata": {}, "spec": {"replicas": 4294967299}}"#), "ns", "n");
    assert_eq!(s.unwrap().spec.replicas, 3, "the lower bits count");
}

#[test]
fn paths_name_group_version_and_resource() {
    let parts = |p: &str| parse_scale_uri(p);
    assert_eq!(
        parts("/apis/apps/v1/namespaces/default/deployments/foo/scale"),
        ("apps".to_string(), "v1".to_string(), "deployments".to_string())
    );
    assert_eq!(
        parts("/api/v1/namespaces/default/replicationcontrollers/foo/scale"),
        (String::new(), "v1".to_string(), "replicationcontrollers".to_string())
    );
    assert_eq!(parts("/"), (String::new(), "v1".to_string(), "unknown".to_string()));
    let a = scale_attributes(
        &patch_request(b"{}"),
        "/apis/apps/v1/namespaces/default/deployments/foo/scale",
        "default",
        "foo",
    );
    assert_eq!(a.verb, "patch");
    assert_eq!(a.resource, "deployments");
    assert_eq!(a.api_group, "apps");
    assert_eq!(a.subresource.as_deref(), Some("scale"));
    assert_eq!(media_type("application/json; charset=utf-8"), "application/json");
}

#[test]
fn replicas_are_written_and_read_back() {
    let scale = extract_scale(&put_replicas(workload(2), 7), "ns", "d").unwrap();
    assert_eq!(scale.spec.replicas, 7);
    assert_eq!(scale.status.replicas, 2);
    assert_eq!(scale.status.selector.as_deref(), Some("app=test,tier=x"));
    let bare = put_replicas(parse(r#"{"metadata": {}, "spec": {}}"#), 4);
    assert_eq!(extract_scale(&bare, "ns", "d").unwrap().spec.replicas, 4);
    match check_replicas(-1) {
        Err(Error::Invalid(errs)) => {
            assert_eq!(errs[0].field, "spec.replicas");
            assert_eq!(errs[0].value, "-1");
            assert_eq!(errs[0].detail, "must be greater than or equal to 0");
        }
        _ => panic!("a negative count is refused"),
    }
    assert!(check_replicas(0).is_ok());
}

#[test]
fn patch_is_tried_again_after_a_conflict() {
    let request = patch_request(br#"{"spec": {"replicas": 5}}"#);
    match &request {
        ScaleRequest::Patch(Ok(patch)) => assert!(patch.get("spec").is_some()),
        _ => panic!("a patch was expected"),
    }
    let mut at = Scaling::Authorize;
    at = scale_step(&request, "ns", "d", at, ScaleReply::Authorized(Ok(Decision::Allow)));
    for round in 0..5 {
        assert!(matches!(at, Scaling::Fetch { tries } if tries == round));
        at = scale_step(&request, "ns", "d", at, ScaleReply::Fetched(Ok(workload(2))));
        assert!(matches!(&at, Scaling::Apply { scale, .. } if scale.spec.replicas == 2));
        at = scale_step(&request, "ns", "d", at, ScaleReply::Applied(Ok(parse(r#"{"spec": {"replicas": 5}}"#))));
        match &at {
            Scaling::Write { resource, .. } => {
                assert_eq!(extract_scale(resource, "ns", "d").unwrap().spec.replicas, 5)
            }
            _ => panic!("a write was expected"),
        }
        at = scale_step(&request, "ns", "d", at, ScaleReply::Written(Err(Error::Conflict("c".to_string()))));
    }
    assert!(matches!(at, Scaling::Refused(Error::Conflict(_))), "the tries ran out");
}

#[test]
fn update_refuses_negative_counts_and_denials() {
    let request = ScaleRequest::Update(-3);
    let at = scale_step(&request, "ns", "d", Scaling::Authorize, ScaleReply::Authorized(Ok(Decision::Allow)));
    assert!(matches!(at, Scaling::Refused(Error::Invalid(_))));
    let request = ScaleRequest::Update(3);
    let at = scale_step(
        &request,
        "ns",
        "d",
        Scaling::Authorize,
        ScaleReply::Authorized(Ok(Decision::Deny("no".to_string()))),
    );
    assert!(matches!(at, Scaling::Refused(Error::Forbidden(m)) if m == "no"));
    let at = scale_step(&request, "ns", "d", Scaling::Fetch { tries: 0 }, ScaleReply::Fetched(Ok(workload(1))));
    let resource = match at {
        Scaling::Write { resource, .. } => resource,
        _ => panic!("a write was expected"),
    };
    let at = scale_step(
        &request,
        "ns",
        "d",
        Scaling::Write { resource: Json::Null, tries: 0 },
        ScaleReply::Written(Ok(resource)),
    );
    assert!(matches!(at, Scaling::Answer(s) if s.spec.replicas == 3));
    let at = scale_step(
        &request,
        "ns",
        "d",
        Scaling::Write { resource: Json::Null, tries: 0 },
        ScaleReply::Written(Err(Error::Conflict("c".to_string()))),
    );
    assert!(matches!(at, Scaling::Refused(Error::Conflict(_))), "an update is not tried again");
}

#[test]
fn bad_patches_are_refused() {
    let allow = || ScaleReply::Authorized(Ok(Decision::Allow));
    let at = scale_step(&patch_request(b"{"), "ns", "d", Scaling::Authorize, allow());
    match at {
        Scaling::Refused(Error::InvalidResource(m)) => {
            assert_eq!(m, "Invalid patch body: EOF while parsing an object at line 1 column 1")
        }
        _ => panic!("a refusal was expected"),
    }
    let request = patch_request(b"{}");
    let at = scale_step(&request, "ns", "d", Scaling::Fetch { tries: 0 }, ScaleReply::Fetched(Ok(workload(1))));
    let at = scale_step(&request, "ns", "d", at, ScaleReply::Applied(Err("no".to_string())));
    assert!(matches!(at, Scaling::Refused(Error::InvalidResource(m)) if m == "Failed to apply scale patch: no"));
    let at = scale_step(&request, "ns", "d", Scaling::Write { resource: Json::Null, tries: 0 }, ScaleReply::Written(Ok(Json::Null)));
    assert!(matches!(at, Scaling::Refused(Error::Conflict(m)) if m == "scale patch failed after retries"));
}
