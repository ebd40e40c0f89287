use api_server::collections::StringMap;
use api_server::error::Error;
use api_server::identity::{
    identify, identify_with, read_for_deletion, read_for_eviction, record_disruption_now,
};
use api_server::eviction::EvictionReply;
use api_server::model::{ObjectMeta, Pod};
use api_server::pod_delete::DeleteReply;
use api_server::resources::Resource;
use api_server::volumes::{
    apply_pv_defaults, apply_storageclass_defaults, apply_volume_mode_defaults, check_claim_limits,
    BindingMode, FileSource, PersistentVolume, ReclaimPolicy, StorageClass, Volume, VolumeMode,
    VolumePhase, DEFAULT_VOLUME_FILE_MODE,
};
use api_server::workloads::{
    apply_replicationcontroller_defaults, choose_policy, collection_policy, decode_rc_body, fill_type,
    note_revision, propagation_policy, removal_policy, revision_text, template_revision,
    update_revision, ReplicationController, ReplicationControllerSpec, StatefulSetStatus,
};

fn map(pairs: &[(&str, &str)]) -> StringMap {
    let mut m = StringMap::new();
    for (k, v) in pairs {
        m.insert(k.to_string(), v.to_string());
    }
    m
}

fn meta(name: &str, labels: Option<StringMap>) -> ObjectMeta {
    ObjectMeta {
        name: name.to_string(),
        namespace: None,
        uid: String::new(),
        resource_version: None,
        generation: None,
        creation_timestamp: None,
        deletion_timestamp: None,
        deletion_grace_period_seconds: None,
        labels,
    }
}

#[test]
fn defaults_replicas_selector_and_labels_from_template() {
    let mut r = ReplicationController {
        metadata: meta("r", None),
        spec: ReplicationControllerSpec {
            replicas: None,
            selector: None,
            template_labels: Some(map(&[("app", "web")])),
        },
    };
    apply_replicationcontroller_defaults(&mut r);
    assert_eq!(r.spec.replicas, Some(1));
    assert_eq!(
        r.spec.selector.as_ref().unwrap().get("app").map(String::as_str),
        Some("web")
    );
    assert_eq!(
        r.metadata.labels.as_ref().unwrap().get("app").map(String::as_str),
        Some("web")
    );
}

#[test]
fn explicit_values_preserved() {
    let mut r = ReplicationController {
        metadata: meta("r", Some(map(&[("team", "x")]))),
        spec: ReplicationControllerSpec {
            replicas: Some(3),
            selector: Some(map(&[("app", "explicit")])),
            template_labels: Some(map(&[("app", "web")])),
        },
    };
    apply_replicationcontroller_defaults(&mut r);
    assert_eq!(r.spec.replicas, Some(3));
    assert_eq!(
        r.spec.selector.as_ref().unwrap().get("app").map(String::as_str),
        Some("explicit")
    );
    assert_eq!(
        r.metadata.labels.as_ref().unwrap().get("team").map(String::as_str),
        Some("x")
    );
    assert!(!r.metadata.labels.as_ref().unwrap().contains_key("app"));
}

#[test]
fn template_without_labels_defaults_nothing_but_replicas() {
    let mut r = ReplicationController {
        metadata: meta("r", Some(StringMap::new())),
        spec: ReplicationControllerSpec {
            replicas: None,
            selector: None,
            template_labels: Some(StringMap::new()),
        },
    };
    apply_replicationcontroller_defaults(&mut r);
    assert_eq!(r.spec.replicas, Some(1));
    assert!(r.spec.selector.is_none());
    assert!(r.metadata.labels.as_ref().unwrap().is_empty());
}

#[test]
fn repeated_fields_decode_leniently() {
    assert!(matches!(decode_rc_body(Ok(1), None), Ok(1)));
    let twice = || Err("duplicate field `a`".to_string());
    assert!(matches!(decode_rc_body(twice(), Some(2)), Ok(2)));
    match decode_rc_body::<i32>(twice(), None) {
        Err(Error::BadRequest(m)) => assert_eq!(m, "failed to decode: duplicate field `a`"),
        _ => panic!("a bad request was expected"),
    }
    match decode_rc_body(Err("EOF".to_string()), Some(2)) {
        Err(Error::BadRequest(m)) => assert_eq!(m, "failed to decode: EOF"),
        _ => panic!("a bad request was expected"),
    }
}

#[test]
fn propagation_policy_of_query_or_body() {
    let query = map(&[("propagationPolicy", "Orphan")]);
    let body = br#"{"propagationPolicy": "Foreground"}"#;
    assert_eq!(propagation_policy(&query, body).as_deref(), Some("Orphan"));
    assert_eq!(propagation_policy(&StringMap::new(), body).as_deref(), Some("Foreground"));
    assert_eq!(propagation_policy(&StringMap::new(), b""), None);
    assert_eq!(propagation_policy(&StringMap::new(), br#"{"propagationPolicy": 7}"#), None);
    assert_eq!(choose_policy(None, Some("b".to_string())).as_deref(), Some("b"));
    let none = StringMap::new();
    assert_eq!(removal_policy(Resource::ReplicationController, &none, body).as_deref(), Some("Foreground"));
    assert_eq!(removal_policy(Resource::StatefulSet, &none, body), None);
    assert_eq!(removal_policy(Resource::StatefulSet, &query, body).as_deref(), Some("Orphan"));
    assert_eq!(removal_policy(Resource::Role, &query, body), None);
    for r in [Resource::ResourceClaim, Resource::ResourceSlice] {
        assert_eq!(removal_policy(r, &none, body).as_deref(), Some("Foreground"));
        assert_eq!(removal_policy(r, &query, body).as_deref(), Some("Orphan"));
        assert_eq!(collection_policy(r, &query, body).as_deref(), Some("Orphan"));
        assert_eq!(collection_policy(r, &none, b""), None);
    }
    assert_eq!(collection_policy(Resource::ReplicationController, &query, body), None);
}

#[test]
fn revisions_are_the_start_of_the_hash() {
    assert_eq!(revision_text(&[0, 0, 0, 0, 0, 0, 0, 0x2a, 0xff]), "000000002a");
    assert_eq!(revision_text(&[0xff; 8]), "ffffffffffffffff");
    assert_eq!(revision_text(&[0, 0, 0, 0x01, 0x23, 0x45, 0x67, 0x89]), "0123456789");
    // The SHA-256 hash of "hello world" starts with b94d27b9934d3e08.
    assert_eq!(template_revision("hello world"), "b94d27b9934d3e08");
    assert_ne!(template_revision("a"), template_revision("b"));
}

#[test]
fn revision_is_noted_in_the_status() {
    let first = update_revision(None, "hello world");
    assert_eq!(first.replicas, 0);
    assert_eq!(first.update_revision.as_deref(), Some("b94d27b9934d3e08"));
    assert_eq!(first.current_revision.as_deref(), Some("b94d27b9934d3e08"));
    let second = note_revision(Some(first), "0000000001".to_string());
    assert_eq!(second.update_revision.as_deref(), Some("0000000001"));
    assert_eq!(second.current_revision.as_deref(), Some("b94d27b9934d3e08"));
    let kept = note_revision(
        Some(StatefulSetStatus { replicas: 4, ready_replicas: Some(2), ..second }),
        "0000000001".to_string(),
    );
    assert_eq!((kept.replicas, kept.ready_replicas), (4, Some(2)));
}

#[test]
fn type_is_filled_in_where_it_is_empty() {
    let filled = fill_type(String::new(), "apps/v2".to_string(), "StatefulSet", "apps/v1");
    assert_eq!(filled, ("StatefulSet".to_string(), "apps/v2".to_string()));
}

#[test]
fn identity_is_given_once() {
    let done = identify(meta("n", None), Some("ns"));
    assert_eq!(done.namespace.as_deref(), Some("ns"));
    assert_eq!(done.uid.len(), 36);
    let parsed: uuid::Uuid = done.uid.parse().unwrap();
    assert_eq!(parsed.get_version_num(), 4);
    assert_eq!(parsed.to_string(), done.uid);
    let time = done.creation_timestamp.clone().unwrap();
    let read = chrono::DateTime::parse_from_rfc3339(&time).unwrap();
    assert!(time.ends_with('Z') && time.len() >= 20);
    assert_eq!((&time[4..5], &time[10..11], &time[13..14]), ("-", "T", ":"));
    let age = chrono::Utc::now().signed_duration_since(read);
    assert!(age.num_seconds().abs() < 3600);
    let uid = done.uid.clone();
    let again = identify(done, Some("ns"));
    assert_eq!(again.uid, uid);
    assert_eq!(again.creation_timestamp, Some(time));
    let other = identify(meta("m", None), None);
    assert_ne!(other.uid, uid);
    assert_eq!(other.namespace, None);
    let exact = identify_with(meta("n", None), None, "u".to_string(), "t".to_string());
    assert_eq!((exact.uid.as_str(), exact.creation_timestamp.as_deref()), ("u", Some("t")));
}

#[test]
fn readings_carry_their_time() {
    let pod = || Pod { metadata: meta("p", None), spec: None, status: None };
    match read_for_deletion(pod()) {
        DeleteReply::Pod(p, now) => {
            assert_eq!(p.metadata.name, "p");
            assert!(chrono::DateTime::parse_from_rfc3339(&now).is_ok());
        }
        _ => panic!("a pod was expected"),
    }
    match read_for_eviction(pod()) {
        EvictionReply::Pod(_, now) => assert!(chrono::DateTime::parse_from_rfc3339(&now).is_ok()),
        _ => panic!("a pod was expected"),
    }
    let status = record_disruption_now(None, "p", 2);
    assert_eq!(status.disruptions_allowed, 1);
    assert!(status.disrupted_pods.unwrap().contains_key("p"));
}

#[test]
fn volume_modes_are_filled_in() {
    let source = |m: Option<i32>| Some(FileSource { default_mode: m });
    let volumes = apply_volume_mode_defaults(Some(vec![Volume {
        secret: source(None),
        config_map: source(Some(0)),
        downward_api: source(Some(0o600)),
        projected: None,
    }]))
    .unwrap();
    let v = &volumes[0];
    assert_eq!(v.secret.as_ref().unwrap().default_mode, Some(DEFAULT_VOLUME_FILE_MODE));
    assert_eq!(DEFAULT_VOLUME_FILE_MODE, 420);
    assert_eq!(v.config_map.as_ref().unwrap().default_mode, Some(0), "zero is a mode");
    assert_eq!(v.downward_api.as_ref().unwrap().default_mode, Some(0o600));
    assert!(v.projected.is_none());
    assert!(apply_volume_mode_defaults(None).is_none());
}

#[test]
fn storage_defaults() {
    let pv = apply_pv_defaults(PersistentVolume { phase: None, reclaim_policy: None, volume_mode: None });
    assert_eq!(pv.phase, Some(VolumePhase::Pending));
    assert_eq!(pv.reclaim_policy, Some(ReclaimPolicy::Retain));
    assert_eq!(pv.volume_mode, Some(VolumeMode::Filesystem));
    let set = PersistentVolume {
        phase: Some(VolumePhase::Bound),
        reclaim_policy: Some(ReclaimPolicy::Delete),
        volume_mode: Some(VolumeMode::Block),
    };
    assert_eq!(apply_pv_defaults(set), set);
    let sc = apply_storageclass_defaults(StorageClass { reclaim_policy: None, volume_binding_mode: None });
    assert_eq!(sc.reclaim_policy, Some(ReclaimPolicy::Delete));
    assert_eq!(sc.volume_binding_mode, Some(BindingMode::Immediate));
}

#[test]
fn claims_keep_within_their_limits() {
    assert!(check_claim_limits(Some(true), "ns", "c").is_ok());
    assert!(check_claim_limits(None, "ns", "c").is_ok(), "limits that cannot be read hold nothing up");
    match check_claim_limits(Some(false), "ns", "c") {
        Err(Error::Forbidden(m)) => assert_eq!(m, "PVC ns/c violates a LimitRange constraint"),
        _ => panic!("a refusal was expected"),
    }
}
