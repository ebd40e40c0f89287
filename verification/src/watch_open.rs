//! Opening a watch: what is asked of the authorizer, the store and the event
//! cache, in which order, and what each answer leads to.
use vstd::prelude::*;
use vstd::string::StringExecFns;
use crate::access::{attributes, require_allowed, verdict, AttributesView, Decision, RequestAttributes};
use crate::error::Error;
use crate::text::{i64_text, opt_text, parse_i64, signed_decimal, signed_value};
use crate::watch::{K8sWatchEvent, WatchEventType};
use crate::watch_stream::{replay_from, replay_revision, WatchScope};

verus! {

/// What a watch is waiting for while it is opened.
pub enum Opening {
    /// The authorizer's answer.
    Authorizing,
    /// The revision of the store.
    AskingRevision,
    /// Whether the revision `since` is gone from the store, now at `current`.
    CheckingCompaction { since: i64, current: i64 },
    /// Changes since a revision; `list` if the objects are listed afterwards.
    SubscribingFrom { since: i64, list: bool },
    /// Changes from now on.
    Subscribing,
    /// The objects that are there.
    Listing,
    /// The revision of the store once more, for bookmarks.
    AskingRevisionAgain,
    /// Everything: the stream starts at this revision.
    Ready { current: i64 },
    /// Nothing: the client is told that `since` is older than `bound`.
    Expired { since: i64, bound: i64 },
    /// Nothing: the request fails.
    Failed(Error),
}

/// An answer to what is asked while a watch is opened.
pub enum Reply {
    Decided(Decision),
    /// The store's revision, where it could say.
    Revision(Option<i64>),
    /// Whether the revision is gone, where the store could say.
    Compacted(Option<bool>),
    Subscribed,
    /// The event cache reaches back to this revision only.
    TooOld(i64),
    Listed,
    Error(Error),
}

/// The store's revision; the first one where the store could not say.
pub open spec fn revision_or_first(r: Option<i64>) -> i64 {
    match r {
        Some(n) => n,
        None => 1,
    }
}

/// The store's revision; the first one where the store could not say.
fn known_revision(r: Option<i64>) -> (n: i64)
    ensures
        n == revision_or_first(r),
{
    match r {
        Some(n) => n,
        None => 1,
    }
}

/// The revision that a raw watch of the cluster replays from.
pub open spec fn raw_replay_from(scope: WatchScope, requested: Option<Seq<char>>) -> Option<int> {
    match requested {
        Some(rv) => match signed_value(rv) {
            Some(n) => if scope == WatchScope::Cluster && n > 1 {
                Some(n)
            } else {
                None
            },
            None => None,
        },
        None => None,
    }
}

/// What follows `at` on `reply`. An answer that was not asked for changes nothing.
pub open spec fn opening_after(
    scope: WatchScope,
    raw: bool,
    requested: Option<Seq<char>>,
    at: Opening,
    reply: Reply,
) -> Opening {
    match (at, reply) {
        (Opening::Ready { current }, _) => at,
        (Opening::Expired { since, bound }, _) => at,
        (Opening::Failed(e), _) => at,
        (_, Reply::Error(e)) => Opening::Failed(e),
        (Opening::Authorizing, Reply::Decided(d)) => match verdict(d) {
            Err(e) => Opening::Failed(e),
            Ok(_) => if !raw {
                Opening::AskingRevision
            } else {
                match raw_replay_from(scope, requested) {
                    Some(n) => Opening::SubscribingFrom { since: n as i64, list: false },
                    None => Opening::Subscribing,
                }
            },
        },
        (Opening::AskingRevision, Reply::Revision(r)) => match replay_from(
            requested,
            revision_or_first(r) as int,
        ) {
            Some(n) => Opening::CheckingCompaction {
                since: n as i64,
                current: revision_or_first(r),
            },
            None => Opening::Subscribing,
        },
        (Opening::CheckingCompaction { since, current }, Reply::Compacted(gone)) => if gone == Some(
            true,
        ) {
            Opening::Expired { since, bound: current }
        } else {
            Opening::SubscribingFrom { since, list: true }
        },
        (Opening::SubscribingFrom { since, list }, Reply::TooOld(floor)) => Opening::Expired {
            since,
            bound: floor,
        },
        (Opening::SubscribingFrom { since, list }, Reply::Subscribed) => if list {
            Opening::Listing
        } else {
            Opening::AskingRevisionAgain
        },
        (Opening::Subscribing, Reply::Subscribed) => Opening::Listing,
        (Opening::Listing, Reply::Listed) => Opening::AskingRevisionAgain,
        (Opening::AskingRevisionAgain, Reply::Revision(r)) => Opening::Ready {
            current: revision_or_first(r),
        },
        _ => at,
    }
}

/// Takes one answer into account.
pub fn advance(
    scope: WatchScope,
    raw: bool,
    requested: &Option<String>,
    at: Opening,
    reply: Reply,
) -> (next: Opening)
    ensures
        next == opening_after(scope, raw, opt_text(*requested), at, reply),
{
    match at {
        Opening::Ready { current } => {
            return Opening::Ready { current };
        },
        Opening::Expired { since, bound } => {
            return Opening::Expired { since, bound };
        },
        Opening::Failed(e) => {
            return Opening::Failed(e);
        },
        _ => {},
    }
    match (at, reply) {
        (_, Reply::Error(e)) => Opening::Failed(e),
        (Opening::Authorizing, Reply::Decided(d)) => match require_allowed(d) {
            Err(e) => Opening::Failed(e),
            Ok(_) => {
                if !raw {
                    return Opening::AskingRevision;
                }
                let asked: Option<i64> = match requested {
                    Some(rv) => parse_i64(rv.as_str()),
                    None => None,
                };
                match asked {
                    Some(n) => {
                        if scope == WatchScope::Cluster && n > 1 {
                            Opening::SubscribingFrom { since: n, list: false }
                        } else {
                            Opening::Subscribing
                        }
                    },
                    None => Opening::Subscribing,
                }
            },
        },
        (Opening::AskingRevision, Reply::Revision(r)) => {
            let current: i64 = known_revision(r);
            match replay_revision(requested, current) {
                Some(since) => Opening::CheckingCompaction { since, current },
                None => Opening::Subscribing,
            }
        },
        (Opening::CheckingCompaction { since, current }, Reply::Compacted(gone)) => {
            let is_gone: bool = match gone {
                Some(b) => b,
                None => false,
            };
            if is_gone {
                Opening::Expired { since, bound: current }
            } else {
                Opening::SubscribingFrom { since, list: true }
            }
        },
        (Opening::SubscribingFrom { since, list: _ }, Reply::TooOld(floor)) => Opening::Expired {
            since,
            bound: floor,
        },
        (Opening::SubscribingFrom { since: _, list }, Reply::Subscribed) => {
            if list {
                Opening::Listing
            } else {
                Opening::AskingRevisionAgain
            }
        },
        (Opening::Subscribing, Reply::Subscribed) => Opening::Listing,
        (Opening::Listing, Reply::Listed) => Opening::AskingRevisionAgain,
        (Opening::AskingRevisionAgain, Reply::Revision(r)) => Opening::Ready {
            current: known_revision(r),
        },
        (other, _) => other,
    }
}

/// What the authorizer is asked for a watch.
pub fn watch_attributes(resource_type: &str, api_group: &str, namespace: Option<&str>) -> (r:
    RequestAttributes)
    ensures
        r@ == (AttributesView {
            verb: "watch"@,
            resource: resource_type@,
            api_group: api_group@,
            namespace: crate::access::opt_str(namespace),
            name: None,
            subresource: None,
        }),
{
    attributes("watch", resource_type, api_group, namespace, None, None)
}

/// A failure status: its message, reason and code.
#[derive(Debug)]
pub struct Status {
    pub message: String,
    pub reason: String,
    pub code: u16,
}

/// The status of a watch that asks for a revision which is gone.
pub fn resource_expired_status(since_rev: i64, current_rev: i64) -> (s: Status)
    ensures
        s.message@ == "too old resource version: "@ + signed_decimal(since_rev as int) + " ("@
            + signed_decimal(current_rev as int) + ")"@,
        s.reason@ == "Expired"@,
        s.code == 410,
{
    let mut message: String = "too old resource version: ".to_owned();
    message.append(i64_text(since_rev).as_str());
    message.append(" (");
    message.append(i64_text(current_rev).as_str());
    message.append(")");
    Status { message, reason: "Expired".to_owned(), code: 410 }
}

/// The event that a watch is refused with: the only one of its stream.
pub fn watch_error_event(status: Status) -> (e: K8sWatchEvent<Status>)
    ensures
        e.event_type == WatchEventType::Error,
        e.object == status,
{
    K8sWatchEvent { event_type: WatchEventType::Error, object: status }
}

/// Where a watch stands after a list of answers.
pub open spec fn opening_at(
    scope: WatchScope,
    raw: bool,
    requested: Option<Seq<char>>,
    replies: Seq<Reply>,
) -> Opening
    decreases replies.len(),
{
    if replies.len() == 0 {
        Opening::Authorizing
    } else {
        opening_after(
            scope,
            raw,
            requested,
            opening_at(scope, raw, requested, replies.drop_last()),
            replies.last(),
        )
    }
}

/// No watch gets past the authorizer, and none starts, unless it was allowed.
pub proof fn law_no_watch_without_permission(
    scope: WatchScope,
    raw: bool,
    requested: Option<Seq<char>>,
    replies: Seq<Reply>,
)
    requires
        forall|i: int|
            0 <= i < replies.len() ==> (#[trigger] replies[i]) != Reply::Decided(Decision::Allow),
    ensures
        opening_at(scope, raw, requested, replies) is Authorizing || opening_at(
            scope,
            raw,
            requested,
            replies,
        ) is Failed,
    decreases replies.len(),
{
    if replies.len() > 0 {
        let before = replies.drop_last();
        assert forall|i: int| 0 <= i < before.len() implies (#[trigger] before[i])
            != Reply::Decided(Decision::Allow) by {
            assert(before[i] == replies[i]);
        }
        law_no_watch_without_permission(scope, raw, requested, before);
        assert(replies.last() == replies[replies.len() - 1]);
    }
}

} // verus!
