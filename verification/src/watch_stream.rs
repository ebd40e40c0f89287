//! The stream of one watch: its first lines, and one step for each thing that
//! happens while it is open.
use vstd::prelude::*;
use vstd::string::StringExecFns;
use vstd::utf8::encode_utf8;
use crate::collections::{StringMap, StringSet};
use crate::json::{as_text, copy_text_of, get_in, member, opt_member, Json, JsonView};
use crate::json_text::{compact, json_document, json_quoted, parse_document, quoted, rewritten};
use crate::selector::{labels_view, matches_label_selector};
use crate::text::{
    i64_text, opt_text, parse_i64, same, signed_decimal, signed_value, split, split_at_char, texts,
};
use crate::watch::{
    change_event, excluded_after, has_selector, matches_field_selector, selected,
    watch_added_matches, watch_modified_event_type, K8sWatchEvent, WatchEventType, WatchParams,
    Watched,
};

verus! {

/// The object of a bookmark: a resource version that the client has reached.
pub struct BookmarkObject {
    pub kind: Option<String>,
    pub api_version: Option<String>,
    pub resource_version: Option<String>,
    pub annotations: Option<StringMap>,
}

/// A line of the stream.
pub enum WatchLine<T> {
    /// An object of the store.
    Object(K8sWatchEvent<T>),
    /// A bookmark.
    Bookmark(K8sWatchEvent<BookmarkObject>),
    /// A line that is already JSON text, with its line end.
    Text(String),
}

/// The content of a [`WatchLine`].
pub enum LineView<T> {
    Object(WatchEventType, T),
    Bookmark {
        kind: Seq<char>,
        api_version: Seq<char>,
        resource_version: Seq<char>,
        annotations: Option<Map<Seq<char>, Seq<char>>>,
    },
    Text(Seq<char>),
    /// A line that no watch sends.
    Malformed,
}

impl<T> View for WatchLine<T> {
    type V = LineView<T>;

    open spec fn view(&self) -> LineView<T> {
        match self {
            WatchLine::Object(e) => LineView::Object(e.event_type, e.object),
            WatchLine::Bookmark(e) => if e.event_type == WatchEventType::Bookmark
                && e.object.kind is Some && e.object.api_version is Some
                && e.object.resource_version is Some {
                LineView::Bookmark {
                    kind: e.object.kind->0@,
                    api_version: e.object.api_version->0@,
                    resource_version: e.object.resource_version->0@,
                    annotations: labels_view(e.object.annotations),
                }
            } else {
                LineView::Malformed
            },
            WatchLine::Text(s) => LineView::Text(s@),
        }
    }
}

/// The contents of a sequence of lines.
pub open spec fn line_views<T>(lines: Seq<WatchLine<T>>) -> Seq<LineView<T>> {
    Seq::new(lines.len(), |i: int| lines[i]@)
}

/// Whether a watch covers one namespace or the whole cluster.
#[derive(Clone, Copy, Debug, PartialEq, Eq, Structural)]
pub enum WatchScope {
    Namespaced,
    Cluster,
}

/// What a watch does, decided from the request. A raw watch passes objects on
/// as they are stored and knows no selectors.
pub struct WatchPlan {
    pub scope: WatchScope,
    pub raw: bool,
    pub allow_bookmarks: bool,
    pub send_initial_events: bool,
    pub timeout_seconds: u64,
    pub label_selector: Option<String>,
    pub field_selector: Option<String>,
    pub requested: Option<String>,
    pub kind: String,
    pub api_version: String,
}

/// The longest time that a watch stays open, in seconds.
pub open spec fn longest_watch(raw: bool) -> u64 {
    if raw {
        300
    } else {
        600
    }
}

/// How long a watch stays open: as long as the client asks, within the limit.
pub open spec fn watch_timeout(asked: Option<u64>, raw: bool) -> u64 {
    match asked {
        Some(s) => if s < longest_watch(raw) {
            s
        } else {
            longest_watch(raw)
        },
        None => longest_watch(raw),
    }
}

/// Decides what a watch does.
pub fn plan_watch(
    scope: WatchScope,
    raw: bool,
    params: WatchParams,
    kind: String,
    api_version: String,
) -> (plan: WatchPlan)
    ensures
        plan == (WatchPlan {
            scope,
            raw,
            allow_bookmarks: params.allow_watch_bookmarks == Some(true),
            send_initial_events: params.send_initial_events == Some(true),
            timeout_seconds: watch_timeout(params.timeout_seconds, raw),
            label_selector: if raw {
                None
            } else {
                params.label_selector
            },
            field_selector: if raw {
                None
            } else {
                params.field_selector
            },
            requested: params.resource_version,
            kind,
            api_version,
        }),
{
    let longest: u64 = if raw {
        300
    } else {
        600
    };
    let timeout: u64 = match params.timeout_seconds {
        Some(s) => if s < longest {
            s
        } else {
            longest
        },
        None => longest,
    };
    let label: Option<String> = if raw {
        None
    } else {
        params.label_selector
    };
    let field: Option<String> = if raw {
        None
    } else {
        params.field_selector
    };
    WatchPlan {
        scope,
        raw,
        allow_bookmarks: match params.allow_watch_bookmarks {
            Some(b) => b,
            None => false,
        },
        send_initial_events: match params.send_initial_events {
            Some(b) => b,
            None => false,
        },
        timeout_seconds: timeout,
        label_selector: label,
        field_selector: field,
        requested: params.resource_version,
        kind,
        api_version,
    }
}

/// The revision that a watch replays from: the one the client names, unless
/// it asks for the current state (`0`, `1` or nothing) or names one that lies
/// too far ahead of the store to be a revision.
pub open spec fn replay_from(requested: Option<Seq<char>>, current: int) -> Option<int> {
    match requested {
        Some(rv) => if rv.len() == 0 || rv == "0"@ || rv == "1"@ {
            None
        } else {
            match signed_value(rv) {
                Some(n) => if 0 < n <= current + 1000 {
                    Some(n)
                } else {
                    None
                },
                None => None,
            }
        },
        None => None,
    }
}

/// The revision that a watch replays from.
pub fn replay_revision(requested: &Option<String>, current: i64) -> (r: Option<i64>)
    ensures
        match r {
            Some(n) => replay_from(opt_text(*requested), current as int) == Some(n as int),
            None => replay_from(opt_text(*requested), current as int) is None,
        },
{
    let rv: &str = match requested {
        Some(s) => s.as_str(),
        None => {
            return None;
        },
    };
    if rv.is_empty() || same(rv, "0") || same(rv, "1") {
        return None;
    }
    match parse_i64(rv) {
        Some(n) => {
            if n > 0 && n - 1000 <= current {
                Some(n)
            } else {
                None
            }
        },
        None => None,
    }
}

/// Whether the objects that are there at the start are sent.
pub open spec fn sends_existing(plan: WatchPlan) -> bool {
    ||| plan.send_initial_events
    ||| plan.requested is None
    ||| plan.requested->0@ == "0"@
    ||| plan.scope == WatchScope::Namespaced && (plan.raw || plan.requested->0@ == "1"@)
}

/// The resource version of the last of the first `n` objects that has one.
pub open spec fn last_version<T>(existing: Seq<Watched<T>>, n: nat) -> Option<Seq<char>>
    decreases n,
{
    if n == 0 || n > existing.len() {
        None
    } else {
        match existing[n - 1].resource_version {
            Some(rv) => Some(rv@),
            None => last_version(existing, (n - 1) as nat),
        }
    }
}

/// The names that are excluded after the first `n` objects.
pub open spec fn excluded_at_start<T>(
    existing: Seq<Watched<T>>,
    n: nat,
    label: Option<Seq<char>>,
    field: Option<Seq<char>>,
) -> Set<Seq<char>>
    decreases n,
{
    if n == 0 || n > existing.len() {
        Set::empty()
    } else {
        let o = existing[n - 1];
        excluded_after(
            excluded_at_start(existing, (n - 1) as nat, label, field),
            o.name@,
            selected(o, label, field),
            has_selector(label, field),
        )
    }
}

/// The lines for the first `n` objects: each that is selected, as added.
pub open spec fn added_lines<T>(
    existing: Seq<Watched<T>>,
    n: nat,
    label: Option<Seq<char>>,
    field: Option<Seq<char>>,
) -> Seq<LineView<T>>
    decreases n,
{
    if n == 0 || n > existing.len() {
        Seq::empty()
    } else {
        let before = added_lines(existing, (n - 1) as nat, label, field);
        let o = existing[n - 1];
        if selected(o, label, field) {
            before.push(LineView::Object(WatchEventType::Added, o.object))
        } else {
            before
        }
    }
}

/// The annotation that marks the end of the initial objects.
pub open spec fn initial_events_end() -> Map<Seq<char>, Seq<char>> {
    Map::<Seq<char>, Seq<char>>::empty().insert("k8s.io/initial-events-end"@, "true"@)
}

/// The larger of two integers.
pub open spec fn larger(a: int, b: int) -> int {
    if a >= b {
        a
    } else {
        b
    }
}

/// What the client's resource version says, where it is a number.
pub open spec fn requested_number(plan: WatchPlan) -> Option<int> {
    match plan.requested {
        Some(rv) => signed_value(rv@),
        None => None,
    }
}

/// The resource version that bookmarks carry when the stream starts. `sent` is
/// that of the last object that was there.
pub open spec fn first_version(plan: WatchPlan, sent: Option<Seq<char>>, current: int) -> Seq<char> {
    if plan.raw {
        match sent {
            Some(rv) => rv,
            None => signed_decimal(current),
        }
    } else if plan.scope == WatchScope::Cluster {
        match sent {
            Some(rv) => rv,
            None => signed_decimal(
                larger(
                    match requested_number(plan) {
                        Some(n) => n,
                        None => 0,
                    },
                    current,
                ),
            ),
        }
    } else {
        let known = match sent {
            Some(rv) => signed_value(rv),
            None => requested_number(plan),
        };
        signed_decimal(
            match known {
                Some(n) => larger(n, current),
                None => current,
            },
        )
    }
}

/// A bookmark of this watch.
pub open spec fn bookmark_line<T>(
    plan: WatchPlan,
    rv: Seq<char>,
    annotations: Option<Map<Seq<char>, Seq<char>>>,
) -> LineView<T> {
    LineView::Bookmark {
        kind: plan.kind@,
        api_version: plan.api_version@,
        resource_version: rv,
        annotations,
    }
}

/// The bookmark that ends the initial objects, where the client asked for these.
pub open spec fn end_bookmark<T>(plan: WatchPlan, sent: Option<Seq<char>>, current: int) -> Seq<
    LineView<T>,
> {
    if plan.send_initial_events {
        let rv = if plan.raw || plan.scope == WatchScope::Cluster {
            first_version(plan, sent, current)
        } else {
            match sent {
                Some(v) => v,
                None => signed_decimal(current),
            }
        };
        seq![bookmark_line(plan, rv, Some(initial_events_end()))]
    } else {
        Seq::empty()
    }
}

/// The bookmark that is sent at once where no object is, so that the client
/// sees data.
pub open spec fn immediate_bookmark<T>(
    plan: WatchPlan,
    none_there: bool,
    sent: Option<Seq<char>>,
    current: int,
) -> Seq<LineView<T>> {
    if !plan.raw && plan.allow_bookmarks && (none_there || !sends_existing(plan)) {
        let rv = if plan.scope == WatchScope::Cluster {
            first_version(plan, sent, current)
        } else {
            match sent {
                Some(v) => v,
                None => match plan.requested {
                    Some(r) => r@,
                    None => signed_decimal(current),
                },
            }
        };
        seq![bookmark_line(plan, rv, None)]
    } else {
        Seq::empty()
    }
}

/// The first lines of the stream.
pub open spec fn first_lines<T>(plan: WatchPlan, existing: Seq<Watched<T>>, current: int) -> Seq<
    LineView<T>,
> {
    let shown = if sends_existing(plan) {
        existing.len()
    } else {
        0
    };
    let sent = last_version(existing, shown);
    let added = added_lines(
        existing,
        shown,
        opt_text(plan.label_selector),
        opt_text(plan.field_selector),
    );
    let end = end_bookmark(plan, sent, current);
    let at_once = immediate_bookmark(plan, existing.len() == 0, sent, current);
    if plan.scope == WatchScope::Cluster {
        added + at_once + end
    } else {
        added + end + at_once
    }
}

/// The state of an open watch.
pub struct WatchSession {
    pub plan: WatchPlan,
    pub latest_resource_version: String,
    pub excluded: StringSet,
}

/// A bookmark of this watch.
fn bookmark<T>(plan: &WatchPlan, rv: String, initial_end: bool) -> (line: WatchLine<T>)
    ensures
        line@ == bookmark_line::<T>(
            *plan,
            rv@,
            if initial_end {
                Some(initial_events_end())
            } else {
                None
            },
        ),
{
    let annotations: Option<StringMap> = if initial_end {
        let mut m: StringMap = StringMap::new();
        m.insert("k8s.io/initial-events-end".to_owned(), "true".to_owned());
        Some(m)
    } else {
        None
    };
    WatchLine::Bookmark(
        K8sWatchEvent {
            event_type: WatchEventType::Bookmark,
            object: BookmarkObject {
                kind: Some(plan.kind.clone()),
                api_version: Some(plan.api_version.clone()),
                resource_version: Some(rv),
                annotations,
            },
        },
    )
}

/// Whether the objects that are there at the start are sent.
pub fn should_send_initial(plan: &WatchPlan) -> (r: bool)
    ensures
        r == sends_existing(*plan),
{
    if plan.send_initial_events {
        return true;
    }
    match &plan.requested {
        None => true,
        Some(rv) => same(rv.as_str(), "0") || (plan.scope == WatchScope::Namespaced && (plan.raw
            || same(rv.as_str(), "1"))),
    }
}

/// A copy of an optional text.
fn copy_text(s: &Option<String>) -> (r: Option<String>)
    ensures
        opt_text(r) == opt_text(*s),
{
    match s {
        Some(t) => Some(t.clone()),
        None => None,
    }
}

/// The resource version that bookmarks carry when the stream starts.
fn opening_version(plan: &WatchPlan, sent: &Option<String>, current: i64) -> (r: String)
    ensures
        r@ == first_version(*plan, opt_text(*sent), current as int),
{
    let asked: Option<i64> = match &plan.requested {
        Some(rv) => parse_i64(rv.as_str()),
        None => None,
    };
    if plan.raw {
        return match sent {
            Some(rv) => rv.clone(),
            None => i64_text(current),
        };
    }
    if plan.scope == WatchScope::Cluster {
        return match sent {
            Some(rv) => rv.clone(),
            None => {
                let n: i64 = match asked {
                    Some(n) => n,
                    None => 0,
                };
                i64_text(if n >= current {
                    n
                } else {
                    current
                })
            },
        };
    }
    let known: Option<i64> = match sent {
        Some(rv) => parse_i64(rv.as_str()),
        None => asked,
    };
    i64_text(
        match known {
            Some(n) => if n >= current {
                n
            } else {
                current
            },
            None => current,
        },
    )
}

/// Starts the stream: its first lines and the state from which it goes on.
/// `existing` are the objects of the store, `current` its revision.
pub fn start_watch<T>(plan: WatchPlan, existing: Vec<Watched<T>>, current: i64) -> (r: (
    Vec<WatchLine<T>>,
    WatchSession,
))
    ensures
        line_views(r.0@) == first_lines(plan, existing@, current as int),
        r.1.plan == plan,
        ({
            let shown = if sends_existing(plan) {
                existing@.len()
            } else {
                0
            };
            &&& r.1.latest_resource_version@ == first_version(
                plan,
                last_version(existing@, shown),
                current as int,
            )
            &&& r.1.excluded@ == excluded_at_start(
                existing@,
                shown,
                opt_text(plan.label_selector),
                opt_text(plan.field_selector),
            )
        }),
{
    let mut lines: Vec<WatchLine<T>> = Vec::new();
    let mut excluded: StringSet = StringSet::new();
    let mut sent: Option<String> = None;
    let none_there: bool = existing.len() == 0;
    let show: bool = should_send_initial(&plan);
    let ghost label = opt_text(plan.label_selector);
    let ghost field = opt_text(plan.field_selector);
    let ghost all = existing@;
    let ghost shown: nat = if show {
        all.len()
    } else {
        0
    };
    assert(line_views(lines@) =~= Seq::<LineView<T>>::empty());
    if show {
        for o in it: existing
            invariant
                it.seq() == all,
                label == opt_text(plan.label_selector),
                field == opt_text(plan.field_selector),
                opt_text(sent) == last_version(all, it.index() as nat),
                excluded@ == excluded_at_start(all, it.index() as nat, label, field),
                line_views(lines@) == added_lines(all, it.index() as nat, label, field),
        {
            let ghost n = it.index();
            assert(o == all[n as int]);
            let ghost before = line_views(lines@);
            match &o.resource_version {
                Some(rv) => {
                    sent = Some(rv.clone());
                },
                None => {},
            }
            if watch_added_matches(&o, &plan.label_selector, &plan.field_selector, &mut excluded) {
                lines.push(
                    WatchLine::Object(
                        K8sWatchEvent { event_type: WatchEventType::Added, object: o.object },
                    ),
                );
                assert(line_views(lines@) =~= before.push(
                    LineView::Object(WatchEventType::Added, all[n as int].object),
                ));
            }
        }
    }
    let ghost added = added_lines(all, shown, label, field);
    let latest: String = opening_version(&plan, &sent, current);
    let cluster: bool = plan.scope == WatchScope::Cluster;
    let mut end: Option<WatchLine<T>> = None;
    if plan.send_initial_events {
        let rv: String = if plan.raw || cluster {
            latest.clone()
        } else {
            match copy_text(&sent) {
                Some(v) => v,
                None => i64_text(current),
            }
        };
        end = Some(bookmark(&plan, rv, true));
    }
    let mut at_once: Option<WatchLine<T>> = None;
    if !plan.raw && plan.allow_bookmarks && (none_there || !show) {
        let rv: String = if cluster {
            latest.clone()
        } else {
            match copy_text(&sent) {
                Some(v) => v,
                None => match copy_text(&plan.requested) {
                    Some(v) => v,
                    None => i64_text(current),
                },
            }
        };
        at_once = Some(bookmark(&plan, rv, false));
    }
    let ghost end_view = end_bookmark::<T>(plan, opt_text(sent), current as int);
    let ghost once_view = immediate_bookmark::<T>(
        plan,
        all.len() == 0,
        opt_text(sent),
        current as int,
    );
    if cluster {
        push_line(&mut lines, at_once, Ghost(once_view));
        push_line(&mut lines, end, Ghost(end_view));
    } else {
        push_line(&mut lines, end, Ghost(end_view));
        push_line(&mut lines, at_once, Ghost(once_view));
    }
    (lines, WatchSession { plan, latest_resource_version: latest, excluded })
}

/// Appends a line, if there is one.
fn push_line<T>(lines: &mut Vec<WatchLine<T>>, line: Option<WatchLine<T>>, content: Ghost<
    Seq<LineView<T>>,
>)
    requires
        content@ == match line {
            Some(l) => seq![l@],
            None => Seq::empty(),
        },
    ensures
        line_views(final(lines)@) == line_views(old(lines)@) + content@,
{
    let ghost before = line_views(lines@);
    if let Some(l) = line {
        lines.push(l);
    }
    assert(line_views(lines@) =~= before + content@);
}

/// The resource version in a stored object.
pub open spec fn version_in(object: JsonView) -> Option<Seq<char>> {
    as_text(opt_member(member(object, "metadata"@), "resourceVersion"@))
}

/// The resource version in an object's JSON text; none where it is no JSON.
pub open spec fn version_in_json(json: Seq<char>) -> Option<Seq<char>> {
    match json_document(encode_utf8(json)) {
        Ok(object) => version_in(object),
        Err(_) => None,
    }
}

/// The resource version in an object's JSON text.
pub fn extract_rv_from_json(json: &str) -> (r: Option<String>)
    ensures
        opt_text(r) == version_in_json(json@),
{
    match parse_document(json.as_bytes()) {
        Ok(object) => json_resource_version(&object),
        Err(_) => None,
    }
}

/// The resource version of an object that is passed on as it is stored.
pub fn json_resource_version(object: &Json) -> (r: Option<String>)
    ensures
        opt_text(r) == version_in(object@),
{
    copy_text_of(get_in(object.get("metadata"), "resourceVersion"))
}

/// Whether `o` is a stored object as a raw watch passes it on.
pub open spec fn is_raw_object(o: Watched<Json>, object: JsonView) -> bool {
    &&& o.object@ == object
    &&& opt_text(o.resource_version) == version_in(object)
    &&& o.name@ == (match as_text(opt_member(member(object, "metadata"@), "name"@)) {
        Some(name) => name,
        None => Seq::empty(),
    })
    &&& o.labels is None
    &&& o.field_match
}

/// A stored object as a raw watch passes it on.
pub fn raw_object(object: Json) -> (o: Watched<Json>)
    ensures
        is_raw_object(o, object@),
{
    let name: String = match copy_text_of(get_in(object.get("metadata"), "name")) {
        Some(name) => name,
        None => {
            let empty: String = String::new();
            assert(empty@ =~= Seq::<char>::empty());
            empty
        },
    };
    Watched {
        name,
        resource_version: json_resource_version(&object),
        labels: None,
        field_match: true,
        object,
    }
}

/// Reads the stored text of an object that a raw watch passes on; nothing where
/// it is no JSON.
pub fn read_raw_object(text: &str) -> (r: Option<Watched<Json>>)
    ensures
        match json_document(encode_utf8(text@)) {
            Ok(object) => r matches Some(o) && is_raw_object(o, object),
            Err(_) => r is None,
        },
{
    match parse_document(text.as_bytes()) {
        Ok(object) => Some(raw_object(object)),
        Err(_) => None,
    }
}

/// The last part of a key.
pub open spec fn key_name(key: Seq<char>) -> Seq<char> {
    split_at_char(key, '/').last()
}

/// The namespace in a key of the form `/registry/{type}/{namespace}/{name}`;
/// empty where the key has fewer parts.
pub open spec fn key_namespace(key: Seq<char>) -> Seq<char> {
    let parts = split_at_char(key, '/');
    if parts.len() >= 5 {
        parts[parts.len() - 2]
    } else {
        ""@
    }
}

/// A deleted event around an object's JSON text.
pub open spec fn deleted_event(object: Seq<char>) -> Seq<char> {
    "{\"object\":"@ + object + ",\"type\":\"DELETED\"}"@
}

/// The least that can be told of a deleted object: its name and namespace.
pub open spec fn minimal_object(name: Seq<char>, namespace: Seq<char>) -> Seq<char> {
    "{\"metadata\":{\"name\":"@ + json_quoted(name) + ",\"namespace\":"@ + json_quoted(namespace)
        + "}}"@
}

/// The deleted event for an object that cannot be decoded. `stored` is its
/// JSON text again, where it is JSON.
pub open spec fn fallback_event(key: Seq<char>, stored: Option<Seq<char>>) -> Seq<char> {
    deleted_event(
        match stored {
            Some(object) => object,
            None => minimal_object(key_name(key), key_namespace(key)),
        },
    )
}

/// The deleted event for the object under `key`, given its JSON text again
/// where it was JSON.
pub fn delete_fallback(key: &str, stored: Option<String>) -> (r: String)
    ensures
        r@ == fallback_event(key@, opt_text(stored)),
{
    let object: String = match stored {
        Some(text) => text,
        None => {
            let parts: Vec<String> = split(key, '/');
            let n: usize = parts.len();
            assert(texts(parts@)[n - 1] == parts@[n - 1]@);
            let mut text: String = "{\"metadata\":{\"name\":".to_owned();
            text.append(quoted(parts[n - 1].as_str()).as_str());
            text.append(",\"namespace\":");
            if n >= 5 {
                assert(texts(parts@)[n - 2] == parts@[n - 2]@);
                text.append(quoted(parts[n - 2].as_str()).as_str());
            } else {
                text.append(quoted("").as_str());
            }
            text.append("}}");
            text
        },
    };
    let mut event: String = "{\"object\":".to_owned();
    event.append(object.as_str());
    event.append(",\"type\":\"DELETED\"}");
    event
}

/// The deleted event for an object that cannot be decoded: around its stored
/// text where that is JSON, else around the name and namespace in its key.
pub fn build_delete_fallback_json(key: &str, prev_value: &str) -> (r: Option<String>)
    ensures
        r matches Some(text) && text@ == fallback_event(key@, rewritten(prev_value@)),
{
    let stored: Option<String> = compact(prev_value);
    Some(delete_fallback(key, stored))
}

/// The error line of a watch that cannot go on: status 410, so that the
/// client lists again.
pub open spec fn expired_line(message: Seq<char>) -> Seq<char> {
    "{\"object\":{\"apiVersion\":\"v1\",\"code\":410,\"kind\":\"Status\",\"message\":"@ + json_quoted(
        message,
    ) + ",\"metadata\":{},\"reason\":\"Expired\",\"status\":\"Failure\"},\"type\":\"ERROR\"}\n"@
}

/// The error line of a watch that fell behind or ended.
pub fn watch_lagged_error_line(message: &str) -> (r: String)
    ensures
        r@ == expired_line(message@),
{
    let mut line: String =
        "{\"object\":{\"apiVersion\":\"v1\",\"code\":410,\"kind\":\"Status\",\"message\":".to_owned();
    line.append(quoted(message).as_str());
    line.append(
        ",\"metadata\":{},\"reason\":\"Expired\",\"status\":\"Failure\"},\"type\":\"ERROR\"}\n",
    );
    line
}

/// Something that happens while a watch is open. An object that could not be
/// decoded is `None`.
pub enum WatchInput<T> {
    Added(Option<Watched<T>>),
    Modified(Option<Watched<T>>),
    Deleted { key: String, object: Option<Watched<T>>, previous: String },
    /// Changes were lost: the text of the error.
    Gone(String),
    /// An error after which the stream of changes goes on.
    Interrupted,
    /// The stream of changes ended.
    Ended,
    /// It is time for a bookmark.
    Tick,
    /// The watch's time is up.
    TimedOut,
}

/// What is done about an input: perhaps a line, perhaps the end.
pub struct WatchStep<T> {
    pub line: Option<WatchLine<T>>,
    pub close: bool,
}

/// The line of a step.
pub open spec fn step_line<T>(step: WatchStep<T>) -> Option<LineView<T>> {
    match step.line {
        Some(l) => Some(l@),
        None => None,
    }
}

/// The resource version that bookmarks carry after `input`.
pub open spec fn version_after<T>(plan: WatchPlan, latest: Seq<char>, input: WatchInput<T>) -> Seq<
    char,
> {
    let seen = match input {
        WatchInput::Added(Some(o)) => opt_text(o.resource_version),
        WatchInput::Modified(Some(o)) => opt_text(o.resource_version),
        WatchInput::Deleted { key, object: Some(o), previous } => opt_text(o.resource_version),
        WatchInput::Deleted { key, object: None, previous } => if plan.raw {
            None
        } else {
            version_in_json(previous@)
        },
        _ => None,
    };
    match seen {
        Some(rv) => rv,
        None => latest,
    }
}

/// The names that are excluded after `input`.
pub open spec fn excluded_next<T>(
    plan: WatchPlan,
    excluded: Set<Seq<char>>,
    input: WatchInput<T>,
) -> Set<Seq<char>> {
    let label = opt_text(plan.label_selector);
    let field = opt_text(plan.field_selector);
    let any = has_selector(label, field);
    match input {
        WatchInput::Added(Some(o)) => excluded_after(
            excluded,
            o.name@,
            selected(o, label, field),
            any,
        ),
        WatchInput::Modified(Some(o)) => if any {
            excluded_after(excluded, o.name@, selected(o, label, field), any)
        } else {
            excluded
        },
        WatchInput::Deleted { key, object: Some(o), previous } => if selected(o, label, field) {
            excluded.remove(o.name@)
        } else {
            excluded
        },
        _ => excluded,
    }
}

/// The line that `input` is answered with.
pub open spec fn line_for<T>(
    plan: WatchPlan,
    latest: Seq<char>,
    excluded: Set<Seq<char>>,
    input: WatchInput<T>,
) -> Option<LineView<T>> {
    let label = opt_text(plan.label_selector);
    let field = opt_text(plan.field_selector);
    match input {
        WatchInput::Added(Some(o)) => if selected(o, label, field) {
            Some(LineView::Object(WatchEventType::Added, o.object))
        } else {
            None
        },
        WatchInput::Modified(Some(o)) => match change_event(
            selected(o, label, field),
            excluded.contains(o.name@),
            has_selector(label, field),
        ) {
            Some(event) => Some(LineView::Object(event, o.object)),
            None => None,
        },
        WatchInput::Deleted { key, object: Some(o), previous } => if selected(o, label, field) {
            Some(LineView::Object(WatchEventType::Deleted, o.object))
        } else {
            None
        },
        WatchInput::Deleted { key, object: None, previous } => if plan.raw {
            None
        } else {
            Some(LineView::Text(fallback_event(key@, rewritten(previous@)) + "\n"@))
        },
        WatchInput::Gone(message) => Some(LineView::Text(expired_line(message@))),
        WatchInput::Ended => Some(
            LineView::Text(expired_line("watch stream ended; please relist"@)),
        ),
        WatchInput::Tick => if plan.allow_bookmarks || plan.send_initial_events {
            Some(bookmark_line(plan, latest, None))
        } else {
            None
        },
        WatchInput::TimedOut => if !plan.raw && (plan.allow_bookmarks || plan.send_initial_events) {
            Some(bookmark_line(plan, latest, None))
        } else {
            None
        },
        _ => None,
    }
}

/// Whether the stream ends with `input`.
pub open spec fn closes<T>(input: WatchInput<T>) -> bool {
    input is Gone || input is Ended || input is TimedOut
}

impl WatchSession {
    /// Remembers an object's resource version, if it has one.
    fn note_version(&mut self, rv: &Option<String>)
        ensures
            final(self).plan == old(self).plan,
            final(self).excluded == old(self).excluded,
            final(self).latest_resource_version@ == match opt_text(*rv) {
                Some(v) => v,
                None => old(self).latest_resource_version@,
            },
    {
        if let Some(v) = rv {
            self.latest_resource_version = v.clone();
        }
    }

    /// Answers one input.
    pub fn step<T>(&mut self, input: WatchInput<T>) -> (step: WatchStep<T>)
        ensures
            final(self).plan == old(self).plan,
            final(self).latest_resource_version@ == version_after(
                old(self).plan,
                old(self).latest_resource_version@,
                input,
            ),
            final(self).excluded@ == excluded_next(old(self).plan, old(self).excluded@, input),
            step_line(step) == line_for(
                old(self).plan,
                old(self).latest_resource_version@,
                old(self).excluded@,
                input,
            ),
            step.close == closes(input),
    {
        let none: WatchStep<T> = WatchStep { line: None, close: false };
        match input {
            WatchInput::Added(decoded) => match decoded {
                Some(o) => {
                    self.note_version(&o.resource_version);
                    if watch_added_matches(
                        &o,
                        &self.plan.label_selector,
                        &self.plan.field_selector,
                        &mut self.excluded,
                    ) {
                        object_step(WatchEventType::Added, o.object)
                    } else {
                        none
                    }
                },
                None => none,
            },
            WatchInput::Modified(decoded) => match decoded {
                Some(o) => {
                    self.note_version(&o.resource_version);
                    match watch_modified_event_type(
                        &o,
                        &self.plan.label_selector,
                        &self.plan.field_selector,
                        &mut self.excluded,
                    ) {
                        Some(event) => object_step(event, o.object),
                        None => none,
                    }
                },
                None => none,
            },
            WatchInput::Deleted { key, object, previous } => match object {
                Some(o) => {
                    self.note_version(&o.resource_version);
                    if matches_label_selector(&o.labels, &self.plan.label_selector)
                        && matches_field_selector(&o, &self.plan.field_selector) {
                        let _ = self.excluded.remove(o.name.as_str());
                        object_step(WatchEventType::Deleted, o.object)
                    } else {
                        none
                    }
                },
                None => {
                    if self.plan.raw {
                        return none;
                    }
                    let rv: Option<String> = extract_rv_from_json(previous.as_str());
                    self.note_version(&rv);
                    match build_delete_fallback_json(key.as_str(), previous.as_str()) {
                        Some(json) => {
                            let mut line: String = json;
                            line.append("\n");
                            WatchStep { line: Some(WatchLine::Text(line)), close: false }
                        },
                        None => none,
                    }
                },
            },
            WatchInput::Gone(message) => WatchStep {
                line: Some(WatchLine::Text(watch_lagged_error_line(message.as_str()))),
                close: true,
            },
            WatchInput::Interrupted => none,
            WatchInput::Ended => WatchStep {
                line: Some(
                    WatchLine::Text(watch_lagged_error_line("watch stream ended; please relist")),
                ),
                close: true,
            },
            WatchInput::Tick => {
                if self.plan.allow_bookmarks || self.plan.send_initial_events {
                    let rv: String = self.latest_resource_version.clone();
                    WatchStep { line: Some(bookmark(&self.plan, rv, false)), close: false }
                } else {
                    none
                }
            },
            WatchInput::TimedOut => {
                if !self.plan.raw && (self.plan.allow_bookmarks || self.plan.send_initial_events) {
                    let rv: String = self.latest_resource_version.clone();
                    WatchStep { line: Some(bookmark(&self.plan, rv, false)), close: true }
                } else {
                    WatchStep { line: None, close: true }
                }
            },
        }
    }
}

/// A step that sends an object.
fn object_step<T>(event_type: WatchEventType, object: T) -> (step: WatchStep<T>)
    ensures
        step_line(step) == Some(LineView::Object(event_type, object)),
        !step.close,
{
    WatchStep {
        line: Some(WatchLine::Object(K8sWatchEvent { event_type, object })),
        close: false,
    }
}

/// The names that a client holds after a line about the object `name`.
pub open spec fn held_after<T>(
    held: Set<Seq<char>>,
    name: Seq<char>,
    line: Option<LineView<T>>,
) -> Set<Seq<char>> {
    match line {
        Some(LineView::Object(event, o)) => if event == WatchEventType::Deleted {
            held.remove(name)
        } else {
            held.insert(name)
        },
        _ => held,
    }
}

/// Whether the client holds exactly the objects that are there and selected,
/// and the watch knows which are not. `live` says of each object that is
/// there whether it is selected.
pub open spec fn in_step(
    plan: WatchPlan,
    live: Map<Seq<char>, bool>,
    held: Set<Seq<char>>,
    excluded: Set<Seq<char>>,
) -> bool {
    let any = has_selector(opt_text(plan.label_selector), opt_text(plan.field_selector));
    &&& forall|n: Seq<char>| #[trigger]
        held.contains(n) <==> live.dom().contains(n) && live[n]
    &&& any ==> forall|n: Seq<char>| #[trigger]
        live.dom().contains(n) ==> (excluded.contains(n) <==> !live[n])
}

/// What is there after `input`, which is about an object that was decoded.
pub open spec fn live_after<T>(plan: WatchPlan, live: Map<Seq<char>, bool>, input: WatchInput<T>) -> Map<
    Seq<char>,
    bool,
> {
    let label = opt_text(plan.label_selector);
    let field = opt_text(plan.field_selector);
    match input {
        WatchInput::Added(Some(o)) => live.insert(o.name@, selected(o, label, field)),
        WatchInput::Modified(Some(o)) => live.insert(o.name@, selected(o, label, field)),
        WatchInput::Deleted { key, object: Some(o), previous } => live.remove(o.name@),
        _ => live,
    }
}

/// The name of the object that `input` is about.
pub open spec fn subject<T>(input: WatchInput<T>) -> Option<Seq<char>> {
    match input {
        WatchInput::Added(Some(o)) => Some(o.name@),
        WatchInput::Modified(Some(o)) => Some(o.name@),
        WatchInput::Deleted { key, object: Some(o), previous } => Some(o.name@),
        _ => None,
    }
}

/// Whether `input` can happen: what is added was not there, what is modified
/// or deleted was, and the latter comes as it last was.
pub open spec fn possible<T>(plan: WatchPlan, live: Map<Seq<char>, bool>, input: WatchInput<T>) -> bool {
    let label = opt_text(plan.label_selector);
    let field = opt_text(plan.field_selector);
    match input {
        WatchInput::Added(Some(o)) => !live.dom().contains(o.name@),
        WatchInput::Modified(Some(o)) => live.dom().contains(o.name@),
        WatchInput::Deleted { key, object: Some(o), previous } => live.dom().contains(o.name@)
            && live[o.name@] == selected(o, label, field),
        _ => false,
    }
}

/// However objects come, change and go, a client that follows the stream
/// holds exactly the objects that are there and selected.
pub proof fn law_client_holds_the_selection<T>(
    plan: WatchPlan,
    live: Map<Seq<char>, bool>,
    held: Set<Seq<char>>,
    excluded: Set<Seq<char>>,
    latest: Seq<char>,
    input: WatchInput<T>,
)
    requires
        in_step(plan, live, held, excluded),
        possible(plan, live, input),
    ensures
        in_step(
            plan,
            live_after(plan, live, input),
            held_after(held, subject(input)->0, line_for(plan, latest, excluded, input)),
            excluded_next(plan, excluded, input),
        ),
{
    let name = subject(input)->0;
    assert(held.contains(name) <==> live.dom().contains(name) && live[name]);
    assert(live.dom().contains(name) ==> live.dom().contains(name));
}

/// What the first lines leave a client with, when all that is there is shown.
pub open spec fn held_at_start<T>(
    existing: Seq<Watched<T>>,
    n: nat,
    label: Option<Seq<char>>,
    field: Option<Seq<char>>,
) -> Set<Seq<char>>
    decreases n,
{
    if n == 0 || n > existing.len() {
        Set::empty()
    } else {
        let o = existing[n - 1];
        let before = held_at_start(existing, (n - 1) as nat, label, field);
        if selected(o, label, field) {
            before.insert(o.name@)
        } else {
            before
        }
    }
}

/// Which of the first `n` objects are there and selected.
pub open spec fn live_at_start<T>(
    existing: Seq<Watched<T>>,
    n: nat,
    label: Option<Seq<char>>,
    field: Option<Seq<char>>,
) -> Map<Seq<char>, bool>
    decreases n,
{
    if n == 0 || n > existing.len() {
        Map::empty()
    } else {
        let o = existing[n - 1];
        live_at_start(existing, (n - 1) as nat, label, field).insert(
            o.name@,
            selected(o, label, field),
        )
    }
}

/// A watch that shows what is there, under names that differ, starts with the
/// client holding exactly the selected objects.
pub proof fn law_watch_starts_in_step<T>(plan: WatchPlan, existing: Seq<Watched<T>>, n: nat)
    requires
        n <= existing.len(),
        forall|i: int, j: int|
            0 <= i < j < existing.len() ==> (#[trigger] existing[i]).name@ != (
            #[trigger] existing[j]).name@,
    ensures
        ({
            let label = opt_text(plan.label_selector);
            let field = opt_text(plan.field_selector);
            in_step(
                plan,
                live_at_start(existing, n, label, field),
                held_at_start(existing, n, label, field),
                excluded_at_start(existing, n, label, field),
            )
        }),
    decreases n,
{
    let label = opt_text(plan.label_selector);
    let field = opt_text(plan.field_selector);
    if n > 0 {
        law_watch_starts_in_step(plan, existing, (n - 1) as nat);
        lemma_live_names(existing, (n - 1) as nat, label, field);
        let o = existing[n - 1];
        let live = live_at_start(existing, (n - 1) as nat, label, field);
        assert(!live.dom().contains(o.name@));
    }
}

proof fn lemma_live_names<T>(
    existing: Seq<Watched<T>>,
    n: nat,
    label: Option<Seq<char>>,
    field: Option<Seq<char>>,
)
    requires
        n <= existing.len(),
    ensures
        forall|k: Seq<char>|
            live_at_start(existing, n, label, field).dom().contains(k) ==> exists|i: int|
                0 <= i < n && (#[trigger] existing[i]).name@ == k,
    decreases n,
{
    if n > 0 {
        lemma_live_names(existing, (n - 1) as nat, label, field);
        assert forall|k: Seq<char>|
            live_at_start(existing, n, label, field).dom().contains(k) implies exists|i: int|
            0 <= i < n && (#[trigger] existing[i]).name@ == k by {
            if k == existing[n - 1].name@ {
                assert(existing[n - 1].name@ == k);
            } else {
                assert(live_at_start(existing, (n - 1) as nat, label, field).dom().contains(k));
                let i = choose|i: int| 0 <= i < n - 1 && (#[trigger] existing[i]).name@ == k;
                assert(existing[i].name@ == k);
            }
        }
    }
}

/// An object that leaves the selection is sent as deleted once: a second
/// change outside the selection sends nothing.
pub proof fn law_deleted_once<T>(
    plan: WatchPlan,
    latest: Seq<char>,
    excluded: Set<Seq<char>>,
    first: Watched<T>,
    second: Watched<T>,
)
    requires
        first.name@ == second.name@,
        !selected(first, opt_text(plan.label_selector), opt_text(plan.field_selector)),
        !selected(second, opt_text(plan.label_selector), opt_text(plan.field_selector)),
    ensures
        line_for(
            plan,
            latest,
            excluded_next(plan, excluded, WatchInput::Modified(Some(first))),
            WatchInput::Modified(Some(second)),
        ) is None,
{
}

} // verus!
