//! What a client of a watch can count on.
use vstd::prelude::*;
use vstd::utf8::encode_utf8;
use crate::access::Decision;
use crate::error::Error;
use crate::selector::label_selected;
use crate::json::{as_text, member, opt_member, Json};
use crate::json_text::{json_document, json_quoted};
use crate::text::{opt_text, signed_decimal, signed_value, split_at_char};
use crate::watch::{
    asks_for_watch, describes_watch, plain_bool, query_bool, selected, WatchEventType, WatchParams,
    Watched,
};
use crate::watch_open::{opening_after, Opening, Reply};
use crate::watch_stream::{
    excluded_at_start, start_watch, WatchLine, WatchSession,
    added_lines, closes, excluded_next, fallback_event, raw_object, first_lines, first_version, last_version, line_for,
    replay_from, sends_existing, version_after, watch_timeout, LineView, WatchInput, WatchPlan,
    WatchScope,
};

verus! {

/// Whether an object is in a watch: its labels meet the label selector, and it
/// meets the field selector, where one is given.
pub open spec fn in_watch<T>(plan: WatchPlan, o: Watched<T>) -> bool {
    let labels = if o.labels is Some {
        Some(o.labels->0@)
    } else {
        None
    };
    let label = if plan.label_selector is Some {
        Some(plan.label_selector->0@)
    } else {
        None
    };
    &&& label_selected(label, labels)
    &&& plan.field_selector is None || plan.field_selector->0@.len() == 0 || o.field_match
}

/// Whether a watch has a selector.
pub open spec fn has_any_selector(plan: WatchPlan) -> bool {
    plan.label_selector is Some || plan.field_selector is Some
}

proof fn lemma_in_watch<T>(plan: WatchPlan, o: Watched<T>)
    ensures
        selected(o, opt_text(plan.label_selector), opt_text(plan.field_selector)) == in_watch(
            plan,
            o,
        ),
{
}

/// An object that is added is sent, as added and as it is, if and only if it is
/// in the watch.
pub proof fn law_added_objects_are_sent_if_in_the_watch<T>(
    plan: WatchPlan,
    latest: Seq<char>,
    excluded: Set<Seq<char>>,
    o: Watched<T>,
)
    ensures
        in_watch(plan, o) ==> line_for(plan, latest, excluded, WatchInput::Added(Some(o))) == Some(
            LineView::Object(WatchEventType::Added, o.object),
        ),
        !in_watch(plan, o) ==> line_for(plan, latest, excluded, WatchInput::Added(Some(o)))
            is None,
        has_any_selector(plan) ==> (excluded_next(
            plan,
            excluded,
            WatchInput::Added(Some(o)),
        ).contains(o.name@) <==> !in_watch(plan, o)),
{
    lemma_in_watch(plan, o);
}

/// A change is sent as added where the object comes into the watch, as deleted
/// where it leaves it, as modified where it stays in it, and not at all where
/// it stays outside; a watch without selectors sends every change as modified.
pub proof fn law_changes_are_sent_by_where_the_object_goes<T>(
    plan: WatchPlan,
    latest: Seq<char>,
    excluded: Set<Seq<char>>,
    o: Watched<T>,
)
    ensures
        ({
            let line = line_for(plan, latest, excluded, WatchInput::Modified(Some(o)));
            let was_in = !excluded.contains(o.name@);
            let is_in = in_watch(plan, o);
            if !has_any_selector(plan) {
                line == Some(LineView::Object(WatchEventType::Modified, o.object))
            } else if is_in && !was_in {
                line == Some(LineView::Object(WatchEventType::Added, o.object))
            } else if is_in && was_in {
                line == Some(LineView::Object(WatchEventType::Modified, o.object))
            } else if !is_in && was_in {
                line == Some(LineView::Object(WatchEventType::Deleted, o.object))
            } else {
                line is None
            }
        }),
        has_any_selector(plan) ==> (excluded_next(
            plan,
            excluded,
            WatchInput::Modified(Some(o)),
        ).contains(o.name@) <==> !in_watch(plan, o)),
{
    lemma_in_watch(plan, o);
}

/// A deleted object is sent, as deleted, if and only if it is in the watch as
/// it last was.
pub proof fn law_deleted_objects_are_sent_if_in_the_watch<T>(
    plan: WatchPlan,
    latest: Seq<char>,
    excluded: Set<Seq<char>>,
    key: String,
    o: Watched<T>,
    previous: String,
)
    ensures
        ({
            let input = WatchInput::Deleted { key, object: Some(o), previous };
            let line = line_for(plan, latest, excluded, input);
            &&& in_watch(plan, o) ==> line == Some(
                LineView::Object(WatchEventType::Deleted, o.object),
            )
            &&& !in_watch(plan, o) ==> line is None
            &&& in_watch(plan, o) ==> !excluded_next(plan, excluded, input).contains(o.name@)
            &&& !in_watch(plan, o) ==> excluded_next(plan, excluded, input) == excluded
        }),
{
    lemma_in_watch(plan, o);
}

/// What happens to one object changes nothing of what the watch knows of others.
pub proof fn law_other_objects_are_left_alone<T>(
    plan: WatchPlan,
    excluded: Set<Seq<char>>,
    input: WatchInput<T>,
    name: Seq<char>,
)
    requires
        match input {
            WatchInput::Added(Some(o)) => o.name@ != name,
            WatchInput::Modified(Some(o)) => o.name@ != name,
            WatchInput::Deleted { key, object: Some(o), previous } => o.name@ != name,
            _ => true,
        },
    ensures
        excluded_next(plan, excluded, input).contains(name) <==> excluded.contains(name),
{
}

/// Bookmarks carry the version of the object that was last seen, in the watch
/// or not; an object without one, and anything else, leaves it as it was.
pub proof fn law_bookmarks_carry_the_last_version<T>(
    plan: WatchPlan,
    latest: Seq<char>,
    excluded: Set<Seq<char>>,
    o: Watched<T>,
    key: String,
    previous: String,
)
    ensures
        ({
            let v = if o.resource_version is Some {
                o.resource_version->0@
            } else {
                latest
            };
            &&& version_after(plan, latest, WatchInput::Added(Some(o))) == v
            &&& version_after(plan, latest, WatchInput::Modified(Some(o))) == v
            &&& version_after(
                plan,
                latest,
                (WatchInput::Deleted { key, object: Some(o), previous }),
            ) == v
        }),
        version_after(plan, latest, WatchInput::<T>::Tick) == latest,
        version_after(plan, latest, WatchInput::<T>::Interrupted) == latest,
        version_after(plan, latest, WatchInput::<T>::Added(None)) == latest,
        version_after(plan, latest, WatchInput::<T>::Modified(None)) == latest,
        ({
            let line = line_for(plan, latest, excluded, WatchInput::<T>::Tick);
            &&& plan.allow_bookmarks || plan.send_initial_events <==> line is Some
            &&& line is Some ==> (line->0 matches LineView::Bookmark {
                kind,
                api_version,
                resource_version,
                annotations,
            } && kind == plan.kind@ && api_version == plan.api_version@ && resource_version
                == latest && annotations is None)
        }),
        ({
            let line = line_for(plan, latest, excluded, WatchInput::<T>::TimedOut);
            &&& !plan.raw && (plan.allow_bookmarks || plan.send_initial_events) <==> line is Some
            &&& line is Some ==> (line->0 matches LineView::Bookmark {
                kind,
                api_version,
                resource_version,
                annotations,
            } && kind == plan.kind@ && api_version == plan.api_version@ && resource_version
                == latest && annotations is None)
        }),
{
}

/// A stream ends when its time is up or changes were lost, and at nothing else;
/// where changes were lost the client is told, and where an error passes or an
/// object cannot be decoded it is sent nothing.
pub proof fn law_when_a_stream_ends<T>(
    plan: WatchPlan,
    latest: Seq<char>,
    excluded: Set<Seq<char>>,
    input: WatchInput<T>,
)
    ensures
        closes(input) <==> input is Gone || input is Ended || input is TimedOut,
        input is Gone || input is Ended ==> line_for(plan, latest, excluded, input) is Some
            && line_for(plan, latest, excluded, input)->0 is Text,
        input is Interrupted ==> line_for(plan, latest, excluded, input) is None,
        input == WatchInput::<T>::Added(None) ==> line_for(plan, latest, excluded, input) is None,
        input == WatchInput::<T>::Modified(None) ==> line_for(plan, latest, excluded, input)
            is None,
{
}

proof fn lemma_added<T>(existing: Seq<Watched<T>>, n: nat, plan: WatchPlan)
    requires
        n <= existing.len(),
    ensures
        added_lines(existing, n, opt_text(plan.label_selector), opt_text(plan.field_selector))
            == existing.take(n as int).filter(|o: Watched<T>| in_watch(plan, o)).map_values(
            |o: Watched<T>| LineView::Object(WatchEventType::Added, o.object),
        ),
    decreases n,
{
    reveal(Seq::filter);
    let keep = |o: Watched<T>| in_watch(plan, o);
    let show = |o: Watched<T>| LineView::Object(WatchEventType::Added, o.object);
    let label = opt_text(plan.label_selector);
    let field = opt_text(plan.field_selector);
    let t = existing.take(n as int);
    if n > 0 {
        lemma_added(existing, (n - 1) as nat, plan);
        assert(t.drop_last() =~= existing.take(n - 1));
        assert(t.last() == existing[n - 1]);
        lemma_in_watch(plan, existing[n - 1]);
        let before = existing.take(n - 1).filter(keep);
        if in_watch(plan, existing[n - 1]) {
            assert(before.push(existing[n - 1]).map_values(show) =~= before.map_values(show).push(
                LineView::Object(WatchEventType::Added, existing[n - 1].object),
            ));
        }
    } else {
        assert(t.filter(keep).map_values(show) =~= Seq::empty());
    }
}

/// The objects that are there at the start and in the watch.
pub open spec fn shown_first<T>(plan: WatchPlan, existing: Seq<Watched<T>>) -> Seq<LineView<T>> {
    existing.filter(|o: Watched<T>| in_watch(plan, o)).map_values(
        |o: Watched<T>| LineView::Object(WatchEventType::Added, o.object),
    )
}

/// Whether a watch begins with the objects that are there: where the client
/// asks for them or names no version or `0`; in a namespace also where it names
/// `1`, and always where objects are passed on as they are stored.
pub open spec fn begins_with_objects(plan: WatchPlan) -> bool {
    ||| plan.send_initial_events
    ||| plan.requested is None
    ||| plan.requested->0@ == "0"@
    ||| plan.scope == WatchScope::Namespaced && plan.requested->0@ == "1"@
    ||| plan.scope == WatchScope::Namespaced && plan.raw
}

/// A stream that begins with the objects that are there sends each that is in
/// the watch, once, in order and as added; after these come bookmarks only, one
/// that ends the initial objects if and only if the client asked for these, and
/// one at once if and only if bookmarks are allowed and no object was there or
/// shown.
pub proof fn law_streams_begin_with_what_is_there<T>(
    plan: WatchPlan,
    existing: Seq<Watched<T>>,
    current: int,
)
    ensures
        ({
            let lines = first_lines(plan, existing, current);
            let shown = if begins_with_objects(plan) {
                shown_first(plan, existing)
            } else {
                Seq::empty()
            };
            let at_once = !plan.raw && plan.allow_bookmarks && (existing.len() == 0
                || !begins_with_objects(plan));
            let count: int = (if plan.send_initial_events {
                1int
            } else {
                0int
            }) + (if at_once {
                1int
            } else {
                0int
            });
            let end = if plan.scope == WatchScope::Cluster && at_once {
                shown.len() as int + 1
            } else {
                shown.len() as int
            };
            &&& lines.len() == shown.len() + count
            &&& forall|i: int| 0 <= i < shown.len() ==> #[trigger] lines[i] == shown[i]
            &&& forall|i: int|
                shown.len() <= i < lines.len() ==> (#[trigger] lines[i] matches LineView::Bookmark {
                    kind,
                    api_version,
                    resource_version,
                    annotations,
                } && kind == plan.kind@ && api_version == plan.api_version@ && (annotations is Some
                    <==> plan.send_initial_events && i == end) && (annotations is Some
                    ==> annotations->0.dom().contains("k8s.io/initial-events-end"@)
                    && annotations->0["k8s.io/initial-events-end"@] == "true"@))
        }),
{
    let label = opt_text(plan.label_selector);
    let field = opt_text(plan.field_selector);
    assert(sends_existing(plan) == begins_with_objects(plan));
    if begins_with_objects(plan) {
        lemma_added(existing, existing.len(), plan);
        assert(existing.take(existing.len() as int) =~= existing);
        assert(added_lines(existing, existing.len(), label, field) == shown_first(plan, existing));
    } else {
        assert(added_lines(existing, 0, label, field) =~= Seq::empty());
    }
}

proof fn lemma_last_version<T>(existing: Seq<Watched<T>>, n: nat)
    requires
        n <= existing.len(),
    ensures
        match last_version(existing, n) {
            Some(v) => exists|i: int|
                0 <= i < n && (#[trigger] existing[i]).resource_version is Some
                    && existing[i].resource_version->0@ == v && forall|j: int|
                    i < j < n ==> (#[trigger] existing[j]).resource_version is None,
            None => forall|j: int|
                0 <= j < n ==> (#[trigger] existing[j]).resource_version is None,
        },
    decreases n,
{
    if n > 0 && existing[n - 1].resource_version is None {
        lemma_last_version(existing, (n - 1) as nat);
        if last_version(existing, n) is Some {
            let i = choose|i: int|
                0 <= i < n - 1 && (#[trigger] existing[i]).resource_version is Some
                    && existing[i].resource_version->0@ == last_version(existing, n)->0 && forall|
                    j: int,
                |
                    i < j < n - 1 ==> (#[trigger] existing[j]).resource_version is None;
            assert(existing[i].resource_version is Some);
        }
    } else if n > 0 {
        assert(existing[n - 1].resource_version is Some);
    }
}

/// The version with which bookmarks begin is never behind the store: where the
/// last object that was sent has the version `v`, it is `v`, or in a namespace
/// the larger of `v` and the revision of the store; where none was sent, the
/// larger of that revision and the version that the client named.
pub proof fn law_first_version_is_not_behind(
    plan: WatchPlan,
    sent: Option<Seq<char>>,
    current: int,
)
    requires
        i64::MIN <= current <= i64::MAX,
        !plan.raw,
    ensures
        sent is Some && plan.scope == WatchScope::Cluster ==> first_version(plan, sent, current)
            == sent->0,
        sent is Some && plan.scope == WatchScope::Namespaced && signed_value(sent->0) is Some
            && signed_value(sent->0)->0 >= current ==> first_version(plan, sent, current)
            == signed_decimal(signed_value(sent->0)->0),
        sent is Some && plan.scope == WatchScope::Namespaced && (signed_value(sent->0) is None
            || signed_value(sent->0)->0 <= current) ==> first_version(plan, sent, current)
            == signed_decimal(current),
        sent is None && plan.requested is Some && signed_value(plan.requested->0@) is Some
            && signed_value(plan.requested->0@)->0 >= current ==> first_version(
            plan,
            sent,
            current,
        ) == signed_decimal(signed_value(plan.requested->0@)->0),
        sent is None && current >= 0 && (plan.requested is None || signed_value(
            plan.requested->0@,
        ) is None || signed_value(plan.requested->0@)->0 <= current) ==> first_version(
            plan,
            sent,
            current,
        ) == signed_decimal(current),
{
}

/// A watch of objects as they are stored begins with the version of the last of
/// them, or with the revision of the store.
pub proof fn law_first_version_of_stored_objects(
    plan: WatchPlan,
    sent: Option<Seq<char>>,
    current: int,
)
    requires
        plan.raw,
    ensures
        first_version(plan, sent, current) == if sent is Some {
            sent->0
        } else {
            signed_decimal(current)
        },
{
}

/// The version of the last object is that of the last which has one.
pub proof fn law_last_version_is_the_last<T>(existing: Seq<Watched<T>>, i: int)
    requires
        0 <= i < existing.len(),
        existing[i].resource_version is Some,
        forall|j: int| i < j < existing.len() ==> (#[trigger] existing[j]).resource_version is None,
    ensures
        last_version(existing, existing.len()) == Some(existing[i].resource_version->0@),
{
    lemma_last_version(existing, existing.len());
    match last_version(existing, existing.len()) {
        Some(v) => {
            let k = choose|k: int|
                0 <= k < existing.len() && (#[trigger] existing[k]).resource_version is Some
                    && existing[k].resource_version->0@ == v && forall|j: int|
                    k < j < existing.len() ==> (#[trigger] existing[j]).resource_version is None;
            if k < i {
                assert(existing[i].resource_version is None);
            }
            if i < k {
                assert(existing[k].resource_version is None);
            }
        },
        None => {
            assert(existing[i].resource_version is None);
        },
    }
}

/// A watch stays open as long as the client asks, but no longer than ten
/// minutes, or five where objects are passed on as they are stored.
pub proof fn law_watches_are_bounded_in_time(asked: Option<u64>, raw: bool)
    ensures
        asked is None && raw ==> watch_timeout(asked, raw) == 300,
        asked is None && !raw ==> watch_timeout(asked, raw) == 600,
        raw ==> watch_timeout(asked, raw) <= 300,
        !raw ==> watch_timeout(asked, raw) <= 600,
        asked is Some ==> watch_timeout(asked, raw) <= asked->0,
        asked is Some && asked->0 <= 300 ==> watch_timeout(asked, raw) == asked->0,
        asked is Some && !raw && asked->0 <= 600 ==> watch_timeout(asked, raw) == asked->0,
        asked is Some && asked->0 >= 600 ==> watch_timeout(asked, raw) == if raw {
            300u64
        } else {
            600u64
        },
{
}

/// A watch replays from the version that the client names: a number above one
/// that is at most a thousand ahead of the store. From `0`, from `1`, from
/// nothing and from what is no such number it does not replay.
pub proof fn law_replay_is_from_the_named_version(n: int, current: int)
    requires
        i64::MIN <= n <= i64::MAX,
    ensures
        replay_from(Some(signed_decimal(n)), current) == if 1 < n && n <= current + 1000 {
            Some(n)
        } else {
            None
        },
        replay_from(None, current) is None,
        replay_from(Some(Seq::empty()), current) is None,
        forall|s: Seq<char>|
            signed_value(s) is None ==> #[trigger] replay_from(Some(s), current) is None,
{
    crate::text_laws::law_signed_number_is_read_back(n);
    crate::text_laws::law_signed_number_is_read_back(0);
    crate::text_laws::law_signed_number_is_read_back(1);
    reveal_strlit("0");
    reveal_strlit("1");
    assert("0"@ =~= signed_decimal(0));
    assert("1"@ =~= signed_decimal(1));
}

/// Whether a text spells yes.
pub open spec fn spells_yes(v: Seq<char>) -> bool {
    v == "1"@ || v == "t"@ || v == "T"@ || v == "TRUE"@ || v == "true"@ || v == "True"@
}

/// Whether a text spells no.
pub open spec fn spells_no(v: Seq<char>) -> bool {
    v == "0"@ || v == "f"@ || v == "F"@ || v == "FALSE"@ || v == "false"@ || v == "False"@
}

/// A request is a watch if and only if its parameter `watch` spells yes; the
/// flags of a watch take `true` and `false` only.
pub proof fn law_which_requests_are_watches(params: Map<Seq<char>, Seq<char>>, v: Seq<char>)
    ensures
        asks_for_watch(params) <==> params.dom().contains("watch"@) && spells_yes(
            params["watch"@],
        ),
        query_bool(v) == Some(true) <==> spells_yes(v),
        query_bool(v) == Some(false) <==> spells_no(v),
        plain_bool(Some(v)) == Some(true) <==> v == "true"@,
        plain_bool(Some(v)) == Some(false) <==> v == "false"@,
        plain_bool(None) is None,
{
    reveal_strlit("1");
    reveal_strlit("t");
    reveal_strlit("T");
    reveal_strlit("TRUE");
    reveal_strlit("true");
    reveal_strlit("True");
    reveal_strlit("0");
    reveal_strlit("f");
    reveal_strlit("F");
    reveal_strlit("FALSE");
    reveal_strlit("false");
    reveal_strlit("False");
    assert(spells_no(v) ==> !spells_yes(v)) by {
        if spells_no(v) && spells_yes(v) {
            assert("1"@[0] == '1' && "t"@[0] == 't' && "T"@[0] == 'T' && "TRUE"@[0] == 'T'
                && "true"@[0] == 't' && "True"@[0] == 'T');
            assert("0"@[0] == '0' && "f"@[0] == 'f' && "F"@[0] == 'F' && "FALSE"@[0] == 'F'
                && "false"@[0] == 'f' && "False"@[0] == 'F');
        }
    }
    assert("true"@.len() == 4 && "false"@.len() == 5);
}

/// A watch takes version, selectors and time from the parameters of these
/// names; an empty version is none, and a time that is no number is none.
pub proof fn law_watch_is_what_the_parameters_say(
    params: Map<Seq<char>, Seq<char>>,
    bookmarks: Option<bool>,
    initial: Option<bool>,
    w: WatchParams,
    n: nat,
)
    requires
        describes_watch(params, bookmarks, initial, w),
        n <= u64::MAX,
    ensures
        w.resource_version is Some <==> params.dom().contains("resourceVersion"@)
            && params["resourceVersion"@].len() > 0,
        w.resource_version is Some ==> w.resource_version->0@ == params["resourceVersion"@],
        w.label_selector is Some <==> params.dom().contains("labelSelector"@),
        w.label_selector is Some ==> w.label_selector->0@ == params["labelSelector"@],
        w.field_selector is Some <==> params.dom().contains("fieldSelector"@),
        w.field_selector is Some ==> w.field_selector->0@ == params["fieldSelector"@],
        params.dom().contains("timeoutSeconds"@) && params["timeoutSeconds"@]
            == crate::text::decimal(n) ==> w.timeout_seconds == Some(n as u64),
        !params.dom().contains("timeoutSeconds"@) ==> w.timeout_seconds is None,
        w.watch == Some(true),
        w.allow_watch_bookmarks == bookmarks,
        w.send_initial_events == initial,
{
    crate::text_laws::law_number_is_read_back(n, u64::MAX as nat);
}

/// Opening a watch asks in order: a denial forbids it; a version that the store
/// has given up, or that the event cache does not reach back to, has expired;
/// and any error fails it.
pub proof fn law_opening_a_watch(
    scope: WatchScope,
    raw: bool,
    requested: Option<Seq<char>>,
    at: Opening,
    reply: Reply,
)
    ensures
        ({
            let next = opening_after(scope, raw, requested, at, reply);
            &&& at is Authorizing && reply is Decided && reply->Decided_0 is Deny ==> next
                == Opening::Failed(Error::Forbidden(reply->Decided_0->Deny_0))
            &&& at is Authorizing && reply == Reply::Decided(Decision::Allow) && !raw ==> next
                is AskingRevision
            &&& at is Authorizing && reply == Reply::Decided(Decision::Allow) && raw ==> next
                is Subscribing || next is SubscribingFrom
            &&& reply is Error && !(at is Ready) && !(at is Expired) && !(at is Failed) ==> next
                == Opening::Failed(reply->Error_0)
            &&& next is Expired && !(at is Expired) ==> (at is CheckingCompaction && reply
                == Reply::Compacted(Some(true))) || (at is SubscribingFrom && reply is TooOld)
            &&& match at {
                Opening::CheckingCompaction { since, current } => {
                    &&& reply == Reply::Compacted(Some(true)) ==> next == (Opening::Expired {
                        since,
                        bound: current,
                    })
                    &&& reply is Compacted && reply->Compacted_0 != Some(true) ==> next == (
                    Opening::SubscribingFrom { since, list: true })
                },
                Opening::SubscribingFrom { since, list } => {
                    &&& reply is TooOld ==> next == (Opening::Expired {
                        since,
                        bound: reply->TooOld_0,
                    })
                    &&& reply is Subscribed && list ==> next is Listing
                    &&& reply is Subscribed && !list ==> next is AskingRevisionAgain
                },
                _ => true,
            }
            &&& at is Subscribing && reply is Subscribed ==> next is Listing
            &&& at is Listing && reply is Listed ==> next is AskingRevisionAgain
            &&& next is Ready && !(at is Ready) ==> at is AskingRevisionAgain && reply is Revision
        }),
{
}

/// A watch subscribes from the version that the client names before it lists,
/// and knows the revision of the store, one where the store could not say it.
pub proof fn law_watch_subscribes_from_the_named_version(
    scope: WatchScope,
    n: int,
    r: Option<i64>,
)
    requires
        i64::MIN <= n <= i64::MAX,
    ensures
        ({
            let requested = Some(signed_decimal(n));
            let current: i64 = if r is Some {
                r->0
            } else {
                1
            };
            let asked = opening_after(
                scope,
                false,
                requested,
                Opening::AskingRevision,
                Reply::Revision(r),
            );
            &&& 1 < n <= current + 1000 ==> asked == (Opening::CheckingCompaction {
                since: n as i64,
                current,
            })
            &&& !(1 < n <= current + 1000) ==> asked is Subscribing
            &&& opening_after(
                scope,
                false,
                requested,
                Opening::AskingRevisionAgain,
                Reply::Revision(r),
            ) == (Opening::Ready { current })
            &&& opening_after(
                scope,
                true,
                requested,
                Opening::Authorizing,
                Reply::Decided(Decision::Allow),
            ) == if scope == WatchScope::Cluster && n > 1 {
                (Opening::SubscribingFrom { since: n as i64, list: false })
            } else {
                Opening::Subscribing
            }
        }),
{
    law_replay_is_from_the_named_version(
        n,
        if r is Some {
            r->0 as int
        } else {
            1
        },
    );
    crate::text_laws::law_signed_number_is_read_back(n);
}

/// The deleted event for an object that cannot be decoded is about the object as
/// it was stored, or else about the name and the namespace at the end of its
/// key.
pub proof fn law_deleted_object_that_cannot_be_decoded(
    front: Seq<char>,
    namespace: Seq<char>,
    name: Seq<char>,
    stored: Seq<char>,
)
    requires
        !namespace.contains('/'),
        !name.contains('/'),
        split_at_char(front, '/').len() >= 3,
    ensures
        fallback_event(front + seq!['/'] + namespace + seq!['/'] + name, Some(stored))
            == "{\"object\":"@ + stored + ",\"type\":\"DELETED\"}"@,
        fallback_event(front + seq!['/'] + namespace + seq!['/'] + name, None)
            == "{\"object\":"@ + ("{\"metadata\":{\"name\":"@ + json_quoted(name)
            + ",\"namespace\":"@ + json_quoted(namespace) + "}}"@) + ",\"type\":\"DELETED\"}"@,
{
    let key = front + seq!['/'] + namespace + seq!['/'] + name;
    crate::subresource_laws::lemma_split_more(front, '/', namespace);
    crate::subresource_laws::lemma_split_more(front + seq!['/'] + namespace, '/', name);
    let parts = split_at_char(key, '/');
    let n = parts.len();
    assert(parts.last() == name);
    assert(parts[n - 2] == namespace);
}

/// A key of fewer parts names no namespace.
pub proof fn law_key_without_a_namespace(front: Seq<char>, name: Seq<char>)
    requires
        !name.contains('/'),
        split_at_char(front, '/').len() < 4,
    ensures
        fallback_event(front + seq!['/'] + name, None) == "{\"object\":"@ + (
        "{\"metadata\":{\"name\":"@ + json_quoted(name) + ",\"namespace\":"@ + json_quoted(""@)
            + "}}"@) + ",\"type\":\"DELETED\"}"@,
{
    crate::subresource_laws::lemma_split_more(front, '/', name);
}

/// A client whose watch was cut off is told to list again: the error is a
/// status of code 410, with what happened as its message.
pub proof fn law_lost_changes_are_told<T>(
    plan: WatchPlan,
    latest: Seq<char>,
    excluded: Set<Seq<char>>,
    message: String,
)
    ensures
        line_for(plan, latest, excluded, WatchInput::<T>::Gone(message)) == Some(
            LineView::<T>::Text(
                "{\"object\":{\"apiVersion\":\"v1\",\"code\":410,\"kind\":\"Status\",\"message\":"@
                    + json_quoted(message@)
                    + ",\"metadata\":{},\"reason\":\"Expired\",\"status\":\"Failure\"},\"type\":\"ERROR\"}\n"@,
            ),
        ),
        line_for(plan, latest, excluded, WatchInput::<T>::Ended) == Some(
            LineView::<T>::Text(
                "{\"object\":{\"apiVersion\":\"v1\",\"code\":410,\"kind\":\"Status\",\"message\":"@
                    + json_quoted("watch stream ended; please relist"@)
                    + ",\"metadata\":{},\"reason\":\"Expired\",\"status\":\"Failure\"},\"type\":\"ERROR\"}\n"@,
            ),
        ),
{
}

/// An object that is passed on as it is stored is whole: with its name and
/// version as its metadata gives them, and selected by everything.
pub proof fn law_stored_objects_are_passed_on(object: Json, o: Watched<Json>)
    requires
        call_ensures(raw_object, (object,), o),
    ensures
        o.object@ == object@,
        ({
            let meta = member(object@, "metadata"@);
            let version = as_text(opt_member(meta, "resourceVersion"@));
            let name = as_text(opt_member(meta, "name"@));
            &&& o.resource_version is Some <==> version is Some
            &&& version is Some ==> o.resource_version->0@ == version->0
            &&& name is Some ==> o.name@ == name->0
            &&& name is None ==> o.name@.len() == 0
        }),
        o.labels is None,
        o.field_match,
{
}

/// Of an object that cannot be decoded the stored text still gives the version,
/// but where objects are passed on as they are stored.
pub proof fn law_version_of_an_undecoded_object<T>(
    plan: WatchPlan,
    latest: Seq<char>,
    key: String,
    previous: String,
)
    ensures
        ({
            let input = WatchInput::<T>::Deleted { key, object: None, previous };
            let stored = json_document(encode_utf8(previous@));
            let version = as_text(opt_member(member(stored->Ok_0, "metadata"@), "resourceVersion"@));
            &&& plan.raw || stored is Err || version is None ==> version_after(plan, latest, input)
                == latest
            &&& !plan.raw && stored is Ok && version is Some ==> version_after(plan, latest, input)
                == version->0
        }),
{
}

/// Whether a line is a bookmark with this version.
pub open spec fn is_bookmark_at<T>(line: LineView<T>, version: Seq<char>) -> bool {
    line matches LineView::Bookmark { kind, api_version, resource_version, annotations }
        && resource_version == version
}

/// The bookmark that ends the initial objects carries the version of the last
/// of them, or else the revision of the store; the one that is sent at once the
/// version of the last object, or else what the client named, or else the
/// revision of the store. In a watch of the cluster, and of objects as they are
/// stored, both carry the version with which bookmarks begin.
pub proof fn law_versions_of_the_first_bookmarks<T>(
    plan: WatchPlan,
    existing: Seq<Watched<T>>,
    current: int,
)
    ensures
        ({
            let lines = first_lines(plan, existing, current);
            let sent = if begins_with_objects(plan) {
                last_version(existing, existing.len())
            } else {
                None
            };
            let at_once = !plan.raw && plan.allow_bookmarks && (existing.len() == 0
                || !begins_with_objects(plan));
            let local = plan.scope == WatchScope::Namespaced;
            let begin = first_version(plan, sent, current);
            let n = lines.len();
            &&& local && plan.send_initial_events && !plan.raw ==> is_bookmark_at(
                lines[if at_once {
                    n - 2
                } else {
                    n - 1
                }],
                if sent is Some {
                    sent->0
                } else {
                    signed_decimal(current)
                },
            )
            &&& local && at_once ==> is_bookmark_at(
                lines[n - 1],
                if sent is Some {
                    sent->0
                } else if plan.requested is Some {
                    plan.requested->0@
                } else {
                    signed_decimal(current)
                },
            )
            &&& !local && plan.send_initial_events ==> is_bookmark_at(lines[n - 1], begin)
            &&& !local && at_once ==> is_bookmark_at(
                lines[if plan.send_initial_events {
                    n - 2
                } else {
                    n - 1
                }],
                begin,
            )
            &&& plan.raw && plan.send_initial_events ==> is_bookmark_at(lines[n - 1], begin)
        }),
{
    assert(sends_existing(plan) == begins_with_objects(plan));
    law_streams_begin_with_what_is_there(plan, existing, current);
    if !begins_with_objects(plan) {
        assert(last_version(existing, 0) is None);
    }
}

/// A watch that has started knows the version with which its bookmarks begin,
/// and which of the objects that it showed are not in it.
pub proof fn law_started_watch_knows_what_it_showed<T>(
    plan: WatchPlan,
    existing: Vec<Watched<T>>,
    current: i64,
    r: (Vec<WatchLine<T>>, WatchSession),
    i: int,
)
    requires
        call_ensures(start_watch::<T>, (plan, existing, current), r),
        0 <= i < existing@.len(),
        forall|a: int, b: int|
            0 <= a < b < existing@.len() ==> (#[trigger] existing@[a]).name@ != (
            #[trigger] existing@[b]).name@,
    ensures
        r.1.latest_resource_version@ == first_version(
            plan,
            if begins_with_objects(plan) {
                last_version(existing@, existing@.len())
            } else {
                None
            },
            current as int,
        ),
        begins_with_objects(plan) && has_any_selector(plan) ==> (r.1.excluded@.contains(
            existing@[i].name@,
        ) <==> !in_watch(plan, existing@[i])),
        !begins_with_objects(plan) ==> !r.1.excluded@.contains(existing@[i].name@),
{
    assert(sends_existing(plan) == begins_with_objects(plan));
    if begins_with_objects(plan) {
        lemma_excluded(plan, existing@, existing@.len(), i);
    } else {
        assert(last_version(existing@, 0) is None);
    }
}

proof fn lemma_excluded<T>(plan: WatchPlan, existing: Seq<Watched<T>>, n: nat, i: int)
    requires
        0 <= i < existing.len(),
        n <= existing.len(),
        forall|a: int, b: int|
            0 <= a < b < existing.len() ==> (#[trigger] existing[a]).name@ != (
            #[trigger] existing[b]).name@,
    ensures
        ({
            let excluded = excluded_at_start(
                existing,
                n,
                opt_text(plan.label_selector),
                opt_text(plan.field_selector),
            );
            &&& i < n && has_any_selector(plan) ==> (excluded.contains(existing[i].name@)
                <==> !in_watch(plan, existing[i]))
            &&& i >= n ==> !excluded.contains(existing[i].name@)
        }),
    decreases n,
{
    if n > 0 {
        lemma_excluded(plan, existing, (n - 1) as nat, i);
        lemma_in_watch(plan, existing[n - 1]);
        if i < n - 1 {
            assert(existing[i].name@ != existing[n - 1].name@);
        } else if i >= n {
            assert(existing[n - 1].name@ != existing[i].name@);
        }
    }
}

} // verus!
