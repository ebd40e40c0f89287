use api_server::access::Decision;
use api_server::collections::{StringMap, StringSet};
use api_server::error::Error;
use api_server::json::Json;
use api_server::kinds::resource_type_to_kind_and_version;
use api_server::selector::{matches_label_selector, parse_set_requirement, split_label_requirements};
use api_server::watch::{
    is_watch_request, normalize_resource_version, parse_k8s_bool, watch_added_matches,
    watch_modified_event_type, watch_params_from_query, watch_params_with_flags, K8sWatchEvent,
    WatchEventType, WatchParams, Watched,
};
use api_server::watch_open::{
    advance, resource_expired_status, watch_attributes, watch_error_event, Opening, Reply,
};
use api_server::watch_routes::WatchRoute;
use api_server::watch_stream::{
    build_delete_fallback_json, extract_rv_from_json, json_resource_version, plan_watch,
    read_raw_object, replay_revision, should_send_initial, start_watch, watch_lagged_error_line, WatchInput, WatchLine, WatchPlan,
    WatchScope,
};

fn map(pairs: &[(&str, &str)]) -> StringMap {
    let mut m = StringMap::new();
    for (k, v) in pairs {
        m.insert(k.to_string(), v.to_string());
    }
    m
}

/// An object with a selectable field `color`, as a watch on `color=blue` sees it.
fn colored(name: &str, color: &str) -> Watched<String> {
    Watched {
        name: name.to_string(),
        resource_version: None,
        labels: None,
        field_match: color == "blue",
        object: color.to_string(),
    }
}

fn object(name: &str, rv: &str, labels: &[(&str, &str)]) -> Watched<String> {
    Watched {
        name: name.to_string(),
        resource_version: Some(rv.to_string()),
        labels: Some(map(labels)),
        field_match: true,
        object: name.to_string(),
    }
}

fn sel(s: &str) -> Option<String> {
    Some(s.to_string())
}

fn params(rv: Option<&str>) -> WatchParams {
    WatchParams {
        resource_version: rv.map(|s| s.to_string()),
        timeout_seconds: None,
        label_selector: None,
        field_selector: None,
        watch: Some(true),
        allow_watch_bookmarks: Some(true),
        send_initial_events: None,
    }
}

fn plan(scope: WatchScope, raw: bool, p: WatchParams) -> WatchPlan {
    plan_watch(scope, raw, p, "Pod".to_string(), "v1".to_string())
}

#[test]
fn apiservice_maps_to_correct_kind() {
    let (kind, api_version) =
        resource_type_to_kind_and_version("apiservices", "apiregistration.k8s.io");
    assert_eq!(kind, "APIService");
    assert_eq!(api_version, "apiregistration.k8s.io/v1");
}

#[test]
fn builtin_pod_maps_to_pod() {
    let (kind, api_version) = resource_type_to_kind_and_version("pods", "");
    assert_eq!(kind, "Pod");
    assert_eq!(api_version, "v1");
}

#[test]
fn unknown_resource_gets_a_guessed_kind() {
    let (kind, api_version) = resource_type_to_kind_and_version("crontabs", "stable.example.com");
    assert_eq!(kind, "Crontab");
    assert_eq!(api_version, "stable.example.com/v1");
}

#[test]
fn parse_k8s_bool_accepts_go_spellings() {
    for t in ["1", "t", "T", "true", "True", "TRUE"] {
        assert_eq!(parse_k8s_bool(t), Some(true), "{t} should be true");
    }
    for f in ["0", "f", "F", "false", "False", "FALSE"] {
        assert_eq!(parse_k8s_bool(f), Some(false), "{f} should be false");
    }
    assert_eq!(parse_k8s_bool("yes"), None);
    assert_eq!(parse_k8s_bool(""), None);
}

#[test]
fn is_watch_request_recognizes_watch_eq_1() {
    let mut p = StringMap::new();
    p.insert("watch".to_string(), "1".to_string());
    assert!(is_watch_request(&p), "?watch=1 must be a watch");

    p.insert("watch".to_string(), "true".to_string());
    assert!(is_watch_request(&p), "?watch=true must be a watch");

    p.insert("watch".to_string(), "0".to_string());
    assert!(!is_watch_request(&p), "?watch=0 is not a watch");

    assert!(!is_watch_request(&StringMap::new()), "no watch param = list");
}

#[test]
fn added_matches_tracks_exclusions() {
    let fs = sel("color=blue");
    let mut excluded = StringSet::new();

    assert!(!watch_added_matches(&colored("c1", "red"), &None, &fs, &mut excluded));
    assert!(excluded.contains("c1"));

    assert!(watch_added_matches(&colored("c2", "blue"), &None, &fs, &mut excluded));
    assert!(!excluded.contains("c2"));
}

#[test]
fn modified_out_of_selector_emits_deleted_once() {
    let fs = sel("color=blue");
    let mut excluded = StringSet::new();

    let et = watch_modified_event_type(&colored("c1", "red"), &None, &fs, &mut excluded)
        .expect("out-of-selector transition must emit an event");
    assert!(matches!(et, WatchEventType::Deleted));
    assert!(excluded.contains("c1"));

    assert!(
        watch_modified_event_type(&colored("c1", "green"), &None, &fs, &mut excluded).is_none(),
        "repeat non-match must be suppressed, not a second DELETED"
    );
}

#[test]
fn modified_into_selector_emits_added() {
    let fs = sel("color=blue");
    let mut excluded = StringSet::new();
    excluded.insert("c1".to_string());

    let et = watch_modified_event_type(&colored("c1", "blue"), &None, &fs, &mut excluded)
        .expect("into-selector transition must emit an event");
    assert!(matches!(et, WatchEventType::Added));
    assert!(!excluded.contains("c1"));
}

#[test]
fn modified_match_to_match_stays_modified() {
    let fs = sel("color=blue");
    let mut excluded = StringSet::new();
    let et = watch_modified_event_type(&colored("c1", "blue"), &None, &fs, &mut excluded)
        .expect("match to match must emit MODIFIED");
    assert!(matches!(et, WatchEventType::Modified));
}

#[test]
fn modified_without_selector_always_modified() {
    let mut excluded = StringSet::new();
    let et = watch_modified_event_type(&colored("c1", "red"), &None, &None, &mut excluded)
        .expect("no selector must always emit MODIFIED");
    assert!(matches!(et, WatchEventType::Modified));
    assert!(!excluded.contains("c1"), "no selector, no exclusion tracking");
}

#[test]
fn watch_parameters_are_read_from_the_query() {
    let q = map(&[
        ("resourceVersion", "42"),
        ("timeoutSeconds", "30"),
        ("labelSelector", "app=web"),
        ("allowWatchBookmarks", "true"),
        ("sendInitialEvents", "1"),
    ]);
    let p = watch_params_from_query(&q);
    assert_eq!(p.resource_version.as_deref(), Some("42"));
    assert_eq!(p.timeout_seconds, Some(30));
    assert_eq!(p.label_selector.as_deref(), Some("app=web"));
    assert_eq!(p.field_selector, None);
    assert_eq!(p.watch, Some(true));
    assert_eq!(p.allow_watch_bookmarks, Some(true));
    assert_eq!(p.send_initial_events, None, "only true and false count here");
    let p = watch_params_with_flags(&q, Some(false), Some(true));
    assert_eq!(p.allow_watch_bookmarks, Some(false));
    assert_eq!(p.send_initial_events, Some(true));
    assert_eq!(normalize_resource_version(Some(String::new())), None);
    assert_eq!(normalize_resource_version(sel("7")), sel("7"));
    assert_eq!(normalize_resource_version(None), None);
}

#[test]
fn label_selectors_select_by_equality_and_by_set() {
    let labels = Some(map(&[("app", "web"), ("tier", "front")]));
    for yes in [
        "app=web",
        "app==web",
        "app!=api",
        "app",
        "!gone",
        "app in (web, api)",
        "app notin (api)",
        "app=web,tier=front",
        "app in (web),tier notin (back)",
        "",
    ] {
        assert!(matches_label_selector(&labels, &sel(yes)), "{:?}", yes);
    }
    for no in ["app=api", "app!=web", "gone", "!app", "app in (api)", "app notin (web, x)", "app=web,tier=back"] {
        assert!(!matches_label_selector(&labels, &sel(no)), "{:?}", no);
    }
    assert!(matches_label_selector(&None, &None));
    assert_eq!(split_label_requirements("a in (x,y),b=c"), vec!["a in (x,y)", "b=c"]);
    assert!(parse_set_requirement("a=b").is_none());
}

#[test]
fn stream_starts_with_what_is_there() {
    let p = plan(WatchScope::Namespaced, false, params(None));
    assert!(should_send_initial(&p));
    let (lines, session) = start_watch(p, vec![object("a", "3", &[]), object("b", "5", &[])], 7);
    assert!(lines.len() >= 2);
    for (line, name) in lines.iter().zip(["a", "b"]) {
        match line {
            WatchLine::Object(K8sWatchEvent { event_type, object }) => {
                assert!(matches!(event_type, WatchEventType::Added));
                assert_eq!(object, name);
            }
            _ => panic!("an object was expected"),
        }
    }
    assert_eq!(session.latest_resource_version, "7");
}

#[test]
fn cluster_watch_from_version_one_sends_nothing_at_first() {
    assert!(!should_send_initial(&plan(WatchScope::Cluster, false, params(Some("1")))));
    assert!(should_send_initial(&plan(WatchScope::Namespaced, false, params(Some("1")))));
    assert!(should_send_initial(&plan(WatchScope::Cluster, false, params(Some("0")))));
    assert!(!should_send_initial(&plan(WatchScope::Namespaced, false, params(Some("9")))));
}

#[test]
fn session_follows_changes_of_the_selection() {
    let mut asked = params(Some("9"));
    asked.label_selector = sel("app=web");
    let p = plan(WatchScope::Namespaced, false, asked);
    let (_, mut session) = start_watch::<String>(p, vec![], 9);
    let step = session.step(WatchInput::Added(Some(object("a", "10", &[("app", "api")]))));
    assert!(step.line.is_none() && !step.close);
    assert_eq!(session.latest_resource_version, "10");
    let step = session.step(WatchInput::Modified(Some(object("a", "11", &[("app", "web")]))));
    match step.line {
        Some(WatchLine::Object(e)) => assert!(matches!(e.event_type, WatchEventType::Added)),
        _ => panic!("the object came into the selection"),
    }
    let step = session.step(WatchInput::Modified(Some(object("a", "12", &[("app", "api")]))));
    match step.line {
        Some(WatchLine::Object(e)) => assert!(matches!(e.event_type, WatchEventType::Deleted)),
        _ => panic!("the object left the selection"),
    }
    let step = session.step(WatchInput::Modified(Some(object("a", "13", &[("app", "api")]))));
    assert!(step.line.is_none(), "it is deleted once");
    let step = session.step(WatchInput::<String>::Tick);
    match step.line {
        Some(WatchLine::Bookmark(e)) => {
            assert_eq!(e.object.resource_version.as_deref(), Some("13"));
            assert_eq!(e.object.kind.as_deref(), Some("Pod"));
            assert!(e.object.annotations.is_none());
        }
        _ => panic!("a bookmark was expected"),
    }
    assert!(session.step(WatchInput::<String>::TimedOut).close);
}

#[test]
fn initial_events_end_with_a_bookmark() {
    let mut asked = params(None);
    asked.send_initial_events = Some(true);
    let p = plan(WatchScope::Cluster, false, asked);
    let (lines, _) = start_watch(p, vec![object("a", "3", &[])], 7);
    let ends = lines.iter().filter(|l| match l {
        WatchLine::Bookmark(e) => e.object.annotations.as_ref().is_some_and(|a| {
            a.get("k8s.io/initial-events-end").map(|s| s.as_str()) == Some("true")
        }),
        _ => false,
    });
    assert_eq!(ends.count(), 1);
}

#[test]
fn undecodable_deletion_is_told_by_its_text() {
    let stored = r#"{ "metadata": { "name": "p", "resourceVersion": "77" } }"#;
    let event = build_delete_fallback_json("/registry/pods/ns/p", stored).unwrap();
    assert_eq!(
        event,
        r#"{"object":{"metadata":{"name":"p","resourceVersion":"77"}},"type":"DELETED"}"#
    );
    assert_eq!(extract_rv_from_json(stored).as_deref(), Some("77"));
    assert_eq!(extract_rv_from_json("no json"), None);
    let event = build_delete_fallback_json("/registry/pods/ns/p\"q", "no json").unwrap();
    assert_eq!(
        event,
        r#"{"object":{"metadata":{"name":"p\"q","namespace":"ns"}},"type":"DELETED"}"#
    );
    let event = build_delete_fallback_json("/registry/nodes/n1", "").unwrap();
    assert_eq!(event, r#"{"object":{"metadata":{"name":"n1","namespace":""}},"type":"DELETED"}"#);
}

#[test]
fn lost_changes_are_answered_with_gone() {
    let line = watch_lagged_error_line("too \"old\"");
    assert!(line.ends_with('\n'));
    let v: serde_json::Value = serde_json::from_str(line.trim_end()).unwrap();
    assert_eq!(v["type"], "ERROR");
    assert_eq!(v["object"]["code"], 410);
    assert_eq!(v["object"]["reason"], "Expired");
    assert_eq!(v["object"]["message"], "too \"old\"");
    let odd = "a\u{1}\t\u{1f}\\\u{7f}é";
    let line = watch_lagged_error_line(odd);
    assert!(line.contains("\"a\\u0001\\t\\u001f\\\\\u{7f}é\""));
    let v: serde_json::Value = serde_json::from_str(line.trim_end()).unwrap();
    assert_eq!(v["object"]["message"], odd);
    let (_, mut session) =
        start_watch::<String>(plan(WatchScope::Namespaced, false, params(Some("9"))), vec![], 9);
    let step = session.step(WatchInput::<String>::Gone("lost".to_string()));
    assert!(step.close);
    assert!(matches!(step.line, Some(WatchLine::Text(_))));
}

#[test]
fn replay_starts_at_a_plausible_revision() {
    assert_eq!(replay_revision(&sel("50"), 40), Some(50));
    assert_eq!(replay_revision(&sel("1040"), 40), Some(1040));
    assert_eq!(replay_revision(&sel("1041"), 40), None);
    assert_eq!(replay_revision(&sel("0"), 40), None);
    assert_eq!(replay_revision(&sel("1"), 40), None);
    assert_eq!(replay_revision(&sel("x"), 40), None);
    assert_eq!(replay_revision(&None, 40), None);
}

#[test]
fn watch_is_opened_step_by_step() {
    let requested = sel("50");
    let scope = WatchScope::Namespaced;
    let at = advance(scope, false, &requested, Opening::Authorizing, Reply::Decided(Decision::Allow));
    assert!(matches!(at, Opening::AskingRevision));
    let at = advance(scope, false, &requested, at, Reply::Revision(Some(60)));
    assert!(matches!(at, Opening::CheckingCompaction { since: 50, current: 60 }));
    let at = advance(scope, false, &requested, at, Reply::Compacted(Some(false)));
    assert!(matches!(at, Opening::SubscribingFrom { since: 50, list: true }));
    let at = advance(scope, false, &requested, at, Reply::Subscribed);
    assert!(matches!(at, Opening::Listing));
    let at = advance(scope, false, &requested, at, Reply::Listed);
    let at = advance(scope, false, &requested, at, Reply::Revision(None));
    assert!(matches!(at, Opening::Ready { current: 1 }));
}

#[test]
fn watch_is_not_opened_without_permission_or_history() {
    let none: Option<String> = None;
    let at = advance(
        WatchScope::Cluster,
        false,
        &none,
        Opening::Authorizing,
        Reply::Decided(Decision::Deny("no".to_string())),
    );
    match at {
        Opening::Failed(Error::Forbidden(m)) => assert_eq!(m, "no"),
        _ => panic!("a denial was expected"),
    }
    let at = advance(
        WatchScope::Cluster,
        false,
        &none,
        Opening::CheckingCompaction { since: 5, current: 90 },
        Reply::Compacted(Some(true)),
    );
    assert!(matches!(at, Opening::Expired { since: 5, bound: 90 }));
    let s = resource_expired_status(5, 90);
    assert_eq!(s.code, 410);
    assert!(s.message.contains('5') && s.message.contains("90"));
    let a = watch_attributes("pods", "", Some("ns"));
    assert_eq!((a.verb.as_str(), a.resource.as_str()), ("watch", "pods"));
    assert_eq!(a.namespace.as_deref(), Some("ns"));
}

#[test]
fn stored_object_tells_its_resource_version() {
    let stored = |version: Json| {
        Json::Object(vec![(
            "metadata".to_string(),
            Json::Object(vec![("resourceVersion".to_string(), version)]),
        )])
    };
    assert_eq!(json_resource_version(&stored(Json::Text("7".to_string()))).as_deref(), Some("7"));
    assert_eq!(json_resource_version(&stored(Json::Int(7))), None);
    assert_eq!(json_resource_version(&Json::Null), None);
}

#[test]
fn refused_watch_sends_one_error() {
    let event = watch_error_event(resource_expired_status(5, 9));
    assert_eq!(event.event_type, WatchEventType::Error);
    assert_eq!(event.object.message, "too old resource version: 5 (9)");
    assert_eq!(event.object.reason, "Expired");
    assert_eq!(event.object.code, 410);
}

#[test]
fn routes_name_type_group_and_scope() {
    let r = WatchRoute::EndpointSlice;
    assert_eq!((r.resource_type(), r.api_group()), ("endpointslices", "discovery.k8s.io"));
    assert_eq!(r.scope(), WatchScope::Namespaced);
    let r = WatchRoute::CustomResourceDefinition;
    assert_eq!(
        (r.resource_type(), r.api_group()),
        ("customresourcedefinitions", "apiextensions.k8s.io")
    );
    assert_eq!(r.scope(), WatchScope::Cluster);
    let (one, all) = (WatchRoute::ResourceQuota, WatchRoute::ResourceQuotaEverywhere);
    assert_eq!(one.resource_type(), all.resource_type());
    assert_eq!(one.scope(), WatchScope::Namespaced);
    assert_eq!(all.scope(), WatchScope::Cluster);
    let r = WatchRoute::PodTemplate;
    let (kind, version) = resource_type_to_kind_and_version(r.resource_type(), r.api_group());
    assert_eq!((kind.as_str(), version.as_str()), ("PodTemplate", "v1"));
}

#[test]
fn raw_objects_are_passed_on_as_stored() {
    let o = read_raw_object(r#"{"metadata": {"name": "c", "resourceVersion": "7"}, "x": 1}"#).unwrap();
    assert_eq!((o.name.as_str(), o.resource_version.as_deref()), ("c", Some("7")));
    assert!(matches!(o.object.get("x"), Some(Json::Int(1))));
    let bare = read_raw_object("[]").unwrap();
    assert_eq!((bare.name.as_str(), bare.resource_version), ("", None));
    assert!(read_raw_object("no json").is_none());
}
