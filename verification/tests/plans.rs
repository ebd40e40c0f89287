use api_server::access::{require_allowed, Decision};
use api_server::collection::{clear_step, collection_answer, ClearReply, Clearing};
use api_server::error::{Error, FieldError, FieldErrorKind};
use api_server::json::{text_of_json, Json};
use api_server::kinds::resource_type_to_kind_and_version;
use api_server::model::ObjectMeta;
use api_server::objects::{clear_status, move_status, place};
use api_server::plan::{
    after_replace, after_step, compared, go_on, name_kind, plan, request_question, Next, Request, Step, Upserted,
};
use api_server::resources::Resource;
use api_server::validation::{body_document, NameKind};

const ALL: [Resource; 15] = [
    Resource::Pod,
    Resource::Role,
    Resource::RoleBinding,
    Resource::ClusterRole,
    Resource::ClusterRoleBinding,
    Resource::ReplicationController,
    Resource::ReplicaSet,
    Resource::StatefulSet,
    Resource::Secret,
    Resource::PersistentVolume,
    Resource::PersistentVolumeClaim,
    Resource::ResourceClaim,
    Resource::ResourceSlice,
    Resource::ServiceCidr,
    Resource::StorageClass,
];

/// The steps that are carried out where every one of them succeeds.
fn run(r: Resource, request: Request, dry_run: bool) -> Vec<Step> {
    let steps = plan(r, request);
    let mut done = Vec::new();
    let mut next = go_on(&steps, 0, dry_run);
    while let Next::Do(at) = next {
        done.push(steps[at]);
        next = after_step(r, "n", &steps, at, dry_run, Ok(()));
    }
    done
}

#[test]
fn kinds_agree_with_the_kind_table() {
    for r in ALL {
        let (kind, version) = resource_type_to_kind_and_version(r.plural(), r.group());
        assert_eq!(kind, r.kind(), "{}", r.plural());
        assert_eq!(version, r.api_version(), "{}", r.plural());
    }
    assert_eq!(Resource::ServiceCidr.list_kind(), "ServiceCIDRList");
    assert!(Resource::Role.namespaced());
    assert!(!Resource::ClusterRole.namespaced());
    let a = Resource::Role.request_attributes("update", Some("ns"), Some("n"));
    assert_eq!((a.verb.as_str(), a.resource.as_str()), ("update", "roles"));
    assert_eq!(a.api_group, "rbac.authorization.k8s.io");
    let a = request_question(Resource::ResourceClaim, Request::UpdateStatus, Some("ns"), "c");
    assert_eq!((a.verb.as_str(), a.resource.as_str()), ("update", "resourceclaims/status"));
    let a = request_question(Resource::Role, Request::Create, Some("ns"), "r");
    assert_eq!((a.verb.as_str(), a.name), ("create", None));
}

#[test]
fn dry_runs_write_nothing() {
    let writes = [Step::Store, Step::Replace, Step::Upsert, Step::Remove, Step::FinishDeletion];
    for r in ALL {
        for request in [Request::Create, Request::Update, Request::Delete] {
            if r == Resource::ReplicationController && request != Request::Delete {
                continue;
            }
            let steps = run(r, request, true);
            assert!(!steps.iter().any(|s| writes.contains(s)), "{:?} {:?}", r, request);
        }
    }
}

#[test]
fn role_bindings_are_created_in_order() {
    assert_eq!(
        run(Resource::RoleBinding, Request::Create, false),
        vec![
            Step::Authorize,
            Step::ConfirmGrant,
            Step::CheckMeta,
            Step::Default,
            Step::Validate,
            Step::Place,
            Step::Identify,
            Step::Store,
        ]
    );
    assert_eq!(
        run(Resource::ReplicationController, Request::Create, true),
        run(Resource::ReplicationController, Request::Create, false),
        "replication controllers know no dry run"
    );
    assert_eq!(run(Resource::Pod, Request::List, false).len(), 5);
    assert_eq!(run(Resource::ServiceCidr, Request::List, false), vec![Step::Authorize, Step::ReadAll]);
    assert!(plan(Resource::Secret, Request::Create).is_empty());
    assert_eq!(run(Resource::ResourceClaim, Request::UpdateStatus, false).last(), Some(&Step::Replace));
}

#[test]
fn failures_end_a_request() {
    let steps = plan(Resource::Role, Request::Create);
    let store = steps.len() - 1;
    let taken = || Err(Error::AlreadyExists("/registry/roles/ns/n".to_string()));
    match after_step(Resource::Role, "n", &steps, store, false, taken()) {
        Next::Refused(Error::AlreadyExists(m)) => assert_eq!(m, "roles \"n\" already exists"),
        _ => panic!("a refusal was expected"),
    }
    let steps = plan(Resource::ClusterRole, Request::Create);
    match after_step(Resource::ClusterRole, "n", &steps, steps.len() - 1, false, taken()) {
        Next::Refused(Error::AlreadyExists(m)) => assert_eq!(m, "/registry/roles/ns/n"),
        _ => panic!("a refusal was expected"),
    }
    let denied = require_allowed(Decision::Deny("no".to_string()));
    assert!(matches!(
        after_step(Resource::Role, "n", &steps, 0, false, denied),
        Next::Refused(Error::Forbidden(m)) if m == "no"
    ));
}

#[test]
fn comparison_needs_a_stored_object() {
    let errs = || {
        vec![FieldError {
            kind: FieldErrorKind::Forbidden,
            field: "roleRef".to_string(),
            value: String::new(),
            detail: "immutable".to_string(),
        }]
    };
    assert!(compared(false, errs()).is_ok());
    assert!(compared(true, vec![]).is_ok());
    assert!(matches!(compared(true, errs()), Err(Error::Invalid(e)) if e.len() == 1));
}

#[test]
fn missing_objects_are_written_anew() {
    assert!(matches!(after_replace(Ok(1)), Upserted::Done(1)));
    assert!(matches!(
        after_replace::<i32>(Err(Error::NotFound("x".to_string()))),
        Upserted::CreateInstead
    ));
    assert!(matches!(
        after_replace::<i32>(Err(Error::Conflict("x".to_string()))),
        Upserted::Failed(Error::Conflict(_))
    ));
}

#[test]
fn collections_are_cleared_object_by_object() {
    let r = Resource::StatefulSet;
    let mut at = clear_step(r, false, Clearing::Authorize, ClearReply::Authorized(Ok(Decision::Allow)));
    at = clear_step(r, false, at, ClearReply::Read(Ok(())));
    at = clear_step(
        r,
        false,
        at,
        ClearReply::Selected(Ok(vec!["a".to_string(), "b".to_string(), "c".to_string()])),
    );
    for (i, gone) in [Some(true), None, Some(false)].into_iter().enumerate() {
        assert!(matches!(&at, Clearing::AskWebhooks { index, .. } if *index == i));
        at = clear_step(r, false, at, ClearReply::Asked(Ok(())));
        assert!(matches!(&at, Clearing::Remove { index, .. } if *index == i));
        at = clear_step(r, false, at, ClearReply::Removed(Ok(gone)));
    }
    assert!(matches!(at, Clearing::Done { deleted: 1 }));
    let at = clear_step(r, true, Clearing::Authorize, ClearReply::Authorized(Ok(Decision::Allow)));
    assert!(matches!(at, Clearing::Done { deleted: 0 }));
    let at = clear_step(
        r,
        false,
        Clearing::Authorize,
        ClearReply::Authorized(Ok(Decision::Deny("no".to_string()))),
    );
    assert!(matches!(at, Clearing::Refused(Error::Forbidden(_))));
    let at = clear_step(Resource::StorageClass, false, Clearing::Select, ClearReply::Selected(Ok(vec!["s".to_string()])));
    assert!(matches!(at, Clearing::Remove { .. }), "no webhooks are asked");
}

#[test]
fn stateful_sets_answer_with_a_status() {
    let status = collection_answer(Resource::StatefulSet, false).unwrap();
    assert_eq!(text_of_json(status.get("kind")).map(|s| s.as_str()), Some("Status"));
    assert!(matches!(status.get("code"), Some(Json::Int(200))));
    assert_eq!(text_of_json(status.get("details").and_then(|d| d.get("kind"))).map(|s| s.as_str()), Some("StatefulSet"));
    match status {
        Json::Object(m) => assert_eq!(m.len(), 6),
        _ => panic!("an object was expected"),
    }
    match collection_answer(Resource::StatefulSet, true).unwrap() {
        Json::Object(m) => {
            let names: Vec<&str> = m.iter().map(|(k, _)| k.as_str()).collect();
            assert_eq!(names, ["apiVersion", "code", "kind", "metadata", "status"]);
        }
        _ => panic!("an object was expected"),
    }
    assert!(collection_answer(Resource::Role, false).is_none());
}

#[test]
fn names_of_roles_are_path_segments() {
    for r in ALL {
        let role = matches!(
            r,
            Resource::Role
                | Resource::RoleBinding
                | Resource::ClusterRole
                | Resource::ClusterRoleBinding
        );
        assert_eq!(matches!(name_kind(r), NameKind::PathSegment), role);
        assert_eq!(matches!(name_kind(r), NameKind::DnsSubdomain), !role);
    }
}

#[test]
fn status_and_place_come_from_the_request() {
    let read = |text: &str| body_document(text.as_bytes()).unwrap();
    let stored = || read(r#"{"spec": 1, "status": "old"}"#);
    let sent = || read(r#"{"spec": 2, "status": "new"}"#);
    let kept = move_status(stored(), sent());
    assert!(matches!(kept.get("status"), Some(Json::Text(t)) if t == "old"));
    assert!(matches!(kept.get("spec"), Some(Json::Int(2))));
    let taken = move_status(read("{}"), stored());
    assert!(taken.get("status").is_none() && taken.get("spec").is_some());
    assert!(clear_status(sent()).get("status").is_none());
    assert!(matches!(clear_status(Json::Null), Json::Null));
    let meta = || ObjectMeta {
        name: "body".to_string(),
        namespace: None,
        uid: "u".to_string(),
        resource_version: None,
        generation: None,
        creation_timestamp: None,
        deletion_timestamp: None,
        deletion_grace_period_seconds: None,
        labels: None,
    };
    let m = place(meta(), "url", Some("ns"));
    assert_eq!((m.name.as_str(), m.namespace.as_deref(), m.uid.as_str()), ("url", Some("ns"), "u"));
    assert_eq!(place(meta(), "url", None).namespace, None);
}

#[test]
fn kinds_differ_in_how_they_are_served() {
    let kinds = |f: fn(Resource) -> bool| ALL.iter().copied().filter(|r| f(*r)).collect::<Vec<_>>();
    assert_eq!(
        kinds(Resource::has_lenient_flags),
        [Resource::ReplicaSet, Resource::Secret, Resource::ResourceClaim, Resource::ResourceSlice]
    );
    assert_eq!(
        kinds(Resource::is_defaulted_when_read),
        [Resource::StatefulSet, Resource::PersistentVolumeClaim]
    );
    assert_eq!(
        kinds(Resource::has_table),
        [Resource::Pod, Resource::ReplicationController, Resource::ReplicaSet]
    );
    assert_eq!(kinds(Resource::is_watched_raw), [Resource::ResourceClaim, Resource::ResourceSlice]);
    let strict = kinds(|r| !r.passes_over_lost());
    assert!(strict.contains(&Resource::Role) && strict.contains(&Resource::StorageClass));
    assert!(!strict.contains(&Resource::PersistentVolume));
}
