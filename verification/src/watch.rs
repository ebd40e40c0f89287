//! Watching a collection: what a client asked for, what it is sent at the
//! start, and how each change in the store turns into a line of the stream.
use vstd::prelude::*;
use crate::collections::{StringMap, StringSet};
use crate::error::Error;
use crate::selector::{label_selected, labels_view, matches_label_selector};
use crate::text::{opt_text, parse_unsigned, same, unsigned_value};

verus! {

/// The type of a watch event.
#[derive(Clone, Copy, Debug, PartialEq, Eq, Structural)]
pub enum WatchEventType {
    Added,
    Modified,
    Deleted,
    Bookmark,
    Error,
}

/// A watch event: its type and the object that it is about.
#[derive(Debug)]
pub struct K8sWatchEvent<T> {
    pub event_type: WatchEventType,
    pub object: T,
}

/// What a client asks of a watch.
pub struct WatchParams {
    pub resource_version: Option<String>,
    pub timeout_seconds: Option<u64>,
    pub label_selector: Option<String>,
    pub field_selector: Option<String>,
    pub watch: Option<bool>,
    pub allow_watch_bookmarks: Option<bool>,
    pub send_initial_events: Option<bool>,
}

/// A resource version, where the empty text counts as none.
pub open spec fn normalized(rv: Option<Seq<char>>) -> Option<Seq<char>> {
    match rv {
        Some(s) => if s.len() == 0 {
            None
        } else {
            Some(s)
        },
        None => None,
    }
}

/// Treats the empty resource version as none.
pub fn normalize_resource_version(rv: Option<String>) -> (r: Option<String>)
    ensures
        opt_text(r) == normalized(opt_text(rv)),
{
    match rv {
        Some(s) => {
            if s.as_str().is_empty() {
                None
            } else {
                Some(s)
            }
        },
        None => None,
    }
}

/// The boolean that a query parameter spells.
pub open spec fn query_bool(v: Seq<char>) -> Option<bool> {
    if v == "1"@ || v == "t"@ || v == "T"@ || v == "TRUE"@ || v == "true"@ || v == "True"@ {
        Some(true)
    } else if v == "0"@ || v == "f"@ || v == "F"@ || v == "FALSE"@ || v == "false"@ || v
        == "False"@ {
        Some(false)
    } else {
        None
    }
}

/// Parses a query parameter as a boolean, in any of the spellings that
/// Kubernetes clients use.
pub fn parse_k8s_bool(v: &str) -> (r: Option<bool>)
    ensures
        r == query_bool(v@),
{
    if same(v, "1") || same(v, "t") || same(v, "T") || same(v, "TRUE") || same(v, "true") || same(
        v,
        "True",
    ) {
        Some(true)
    } else if same(v, "0") || same(v, "f") || same(v, "F") || same(v, "FALSE") || same(v, "false")
        || same(v, "False") {
        Some(false)
    } else {
        None
    }
}

/// The value of a query parameter.
pub open spec fn param(params: Map<Seq<char>, Seq<char>>, key: Seq<char>) -> Option<Seq<char>> {
    if params.dom().contains(key) {
        Some(params[key])
    } else {
        None
    }
}

/// Whether the query parameters ask for a watch.
pub open spec fn asks_for_watch(params: Map<Seq<char>, Seq<char>>) -> bool {
    match param(params, "watch"@) {
        Some(v) => query_bool(v) == Some(true),
        None => false,
    }
}

/// Whether the query parameters ask for a watch.
pub fn is_watch_request(params: &StringMap) -> (r: bool)
    ensures
        r == asks_for_watch(params@),
{
    match params.get("watch") {
        Some(v) => match parse_k8s_bool(v.as_str()) {
            Some(b) => b,
            None => false,
        },
        None => false,
    }
}

/// The boolean that the words `true` and `false` write, and nothing else.
pub open spec fn plain_bool(v: Option<Seq<char>>) -> Option<bool> {
    match v {
        Some(s) => if s == "true"@ {
            Some(true)
        } else if s == "false"@ {
            Some(false)
        } else {
            None
        },
        None => None,
    }
}

/// Reads `true` or `false`.
fn parse_plain_bool(v: Option<&String>) -> (r: Option<bool>)
    ensures
        match v {
            Some(s) => r == plain_bool(Some(s@)),
            None => r is None,
        },
{
    match v {
        Some(s) => {
            if same(s.as_str(), "true") {
                Some(true)
            } else if same(s.as_str(), "false") {
                Some(false)
            } else {
                None
            }
        },
        None => None,
    }
}

/// A copy of the value of a query parameter.
pub fn param_copy(params: &StringMap, key: &str) -> (r: Option<String>)
    ensures
        opt_text(r) == param(params@, key@),
{
    match params.get(key) {
        Some(v) => Some(v.clone()),
        None => None,
    }
}

/// Whether `w` is the watch that the query parameters describe, with these two
/// flags.
pub open spec fn describes_watch(
    params: Map<Seq<char>, Seq<char>>,
    bookmarks: Option<bool>,
    initial: Option<bool>,
    w: WatchParams,
) -> bool {
    &&& opt_text(w.resource_version) == normalized(param(params, "resourceVersion"@))
    &&& w.timeout_seconds == (match param(params, "timeoutSeconds"@) {
        Some(v) => match unsigned_value(v, u64::MAX as nat) {
            Some(n) => Some(n as u64),
            None => None,
        },
        None => None,
    })
    &&& opt_text(w.label_selector) == param(params, "labelSelector"@)
    &&& opt_text(w.field_selector) == param(params, "fieldSelector"@)
    &&& w.watch == Some(true)
    &&& w.allow_watch_bookmarks == bookmarks
    &&& w.send_initial_events == initial
}

/// The watch that the query parameters describe, with its two flags read
/// already.
pub fn watch_params_with_flags(
    params: &StringMap,
    bookmarks: Option<bool>,
    initial: Option<bool>,
) -> (r: WatchParams)
    ensures
        describes_watch(params@, bookmarks, initial, r),
{
    let timeout: Option<u64> = match params.get("timeoutSeconds") {
        Some(v) => parse_unsigned(v.as_str(), u64::MAX),
        None => None,
    };
    WatchParams {
        resource_version: normalize_resource_version(param_copy(params, "resourceVersion")),
        timeout_seconds: timeout,
        label_selector: param_copy(params, "labelSelector"),
        field_selector: param_copy(params, "fieldSelector"),
        watch: Some(true),
        allow_watch_bookmarks: bookmarks,
        send_initial_events: initial,
    }
}

/// The watch that the query parameters describe.
pub fn watch_params_from_query(params: &StringMap) -> (r: WatchParams)
    ensures
        describes_watch(
            params@,
            plain_bool(param(params@, "allowWatchBookmarks"@)),
            plain_bool(param(params@, "sendInitialEvents"@)),
            r,
        ),
{
    watch_params_with_flags(
        params,
        parse_plain_bool(params.get("allowWatchBookmarks")),
        parse_plain_bool(params.get("sendInitialEvents")),
    )
}

/// An object of the store as a watch sees it. `object` is what the client is
/// sent; the rest is read from it.
pub struct Watched<T> {
    pub name: String,
    pub resource_version: Option<String>,
    pub labels: Option<StringMap>,
    /// Whether the object meets the watch's field selector.
    pub field_match: bool,
    pub object: T,
}

/// Whether a selector was given.
pub open spec fn has_selector(label: Option<Seq<char>>, field: Option<Seq<char>>) -> bool {
    label is Some || field is Some
}

/// Whether the watch's selectors let `o` through. An empty field selector
/// selects everything.
pub open spec fn selected<T>(
    o: Watched<T>,
    label: Option<Seq<char>>,
    field: Option<Seq<char>>,
) -> bool {
    label_selected(label, labels_view(o.labels)) && (field is None || field->0.len() == 0
        || o.field_match)
}

/// Whether `object` meets a field selector.
pub fn matches_field_selector<T>(object: &Watched<T>, selector: &Option<String>) -> (r: bool)
    ensures
        r == (opt_text(*selector) is None || opt_text(*selector)->0.len() == 0
            || object.field_match),
{
    match selector {
        Some(s) => s.as_str().is_empty() || object.field_match,
        None => true,
    }
}

/// What the set of excluded names becomes when `name` is seen selected or not.
pub open spec fn excluded_after(
    excluded: Set<Seq<char>>,
    name: Seq<char>,
    is_selected: bool,
    any_selector: bool,
) -> Set<Seq<char>> {
    if is_selected {
        excluded.remove(name)
    } else if any_selector {
        excluded.insert(name)
    } else {
        excluded
    }
}

/// Whether an object that was added, or stood there at the start, is sent.
/// `excluded` keeps the names of the objects that do not match, so that one
/// which comes to match later is sent as added.
pub fn watch_added_matches<T>(
    object: &Watched<T>,
    label_selector: &Option<String>,
    field_selector: &Option<String>,
    excluded: &mut StringSet,
) -> (r: bool)
    ensures
        r == selected(*object, opt_text(*label_selector), opt_text(*field_selector)),
        final(excluded)@ == excluded_after(
            old(excluded)@,
            object.name@,
            r,
            has_selector(opt_text(*label_selector), opt_text(*field_selector)),
        ),
{
    let matches: bool = matches_label_selector(&object.labels, label_selector)
        && matches_field_selector(object, field_selector);
    if matches {
        let _ = excluded.remove(object.name.as_str());
        true
    } else {
        if label_selector.is_some() || field_selector.is_some() {
            let _ = excluded.insert(object.name.clone());
        }
        false
    }
}

/// The event that a change of an object is sent as: into the selection it is
/// added, out of it deleted, once, and within it modified.
pub open spec fn change_event(
    is_selected: bool,
    was_excluded: bool,
    any_selector: bool,
) -> Option<WatchEventType> {
    if !any_selector {
        Some(WatchEventType::Modified)
    } else if !is_selected {
        if was_excluded {
            None
        } else {
            Some(WatchEventType::Deleted)
        }
    } else if was_excluded {
        Some(WatchEventType::Added)
    } else {
        Some(WatchEventType::Modified)
    }
}

/// The event that a change of `object` is sent as; none where it stays
/// outside the selection.
pub fn watch_modified_event_type<T>(
    object: &Watched<T>,
    label_selector: &Option<String>,
    field_selector: &Option<String>,
    excluded: &mut StringSet,
) -> (r: Option<WatchEventType>)
    ensures
        ({
            let label = opt_text(*label_selector);
            let field = opt_text(*field_selector);
            let any = has_selector(label, field);
            let is_selected = selected(*object, label, field);
            &&& r == change_event(is_selected, old(excluded)@.contains(object.name@), any)
            &&& final(excluded)@ == if any {
                excluded_after(old(excluded)@, object.name@, is_selected, any)
            } else {
                old(excluded)@
            }
        }),
{
    let any: bool = label_selector.is_some() || field_selector.is_some();
    let matches: bool = matches_label_selector(&object.labels, label_selector)
        && matches_field_selector(object, field_selector);
    if !matches {
        if !any {
            return Some(WatchEventType::Modified);
        }
        if excluded.insert(object.name.clone()) {
            Some(WatchEventType::Deleted)
        } else {
            None
        }
    } else if any && excluded.remove(object.name.as_str()) {
        Some(WatchEventType::Added)
    } else {
        assert(old(excluded)@.remove(object.name@) =~= old(excluded)@ || !any
            || old(excluded)@.contains(object.name@));
        Some(WatchEventType::Modified)
    }
}

} // verus!
