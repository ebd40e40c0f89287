//! Deleting a pod, with time to end in peace.
use vstd::prelude::*;
use crate::access::Decision;
use crate::collections::StringMap;
use crate::error::Error;
use crate::json::{as_int, int_of_json, member, outcome_of, Json, JsonView};
use crate::json_text::{json_document, parse_document};
use crate::model::{ObjectMetaView, Pod, PodView};
use crate::resize::{after_write, write_outcome, Attempt};
use crate::text::{parse_i64, signed_value};
use crate::watch::param;

verus! {

/// The grace period in delete options; none where they are no JSON.
pub open spec fn grace_in_options(options: Result<JsonView, Seq<char>>) -> Option<i64> {
    match options {
        Ok(j) => as_int(member(j, "gracePeriodSeconds"@)),
        Err(_) => None,
    }
}

/// The grace period in delete options.
pub fn options_grace_period(options: &Result<Json, String>) -> (r: Option<i64>)
    ensures
        r == grace_in_options(outcome_of(*options)),
{
    match options {
        Ok(j) => int_of_json(j.get("gracePeriodSeconds")),
        Err(_) => None,
    }
}

/// The grace period that the body of a request asks for.
pub open spec fn grace_in_body(body: Seq<u8>) -> Option<i64> {
    if body.len() == 0 {
        None
    } else {
        grace_in_options(json_document(body))
    }
}

/// The grace period that the body of a request asks for.
pub fn body_grace_period(body: &[u8]) -> (r: Option<i64>)
    ensures
        r == grace_in_body(body@),
{
    if body.len() == 0 {
        None
    } else {
        options_grace_period(&parse_document(body))
    }
}

/// The grace period that the query asks for.
pub open spec fn grace_in_query(params: Map<Seq<char>, Seq<char>>) -> Option<int> {
    match param(params, "gracePeriodSeconds"@) {
        Some(v) => signed_value(v),
        None => None,
    }
}

/// The grace period of a pod's specification.
pub open spec fn grace_in_spec(p: PodView) -> Option<i64> {
    match p.spec {
        Some(s) => s.termination_grace_period_seconds,
        None => None,
    }
}

/// The grace period of a deletion: that of the query, of the body, of the
/// pod, or half a minute.
pub open spec fn grace_of(query: Option<int>, body: Option<i64>, spec: Option<i64>) -> int {
    match query {
        Some(n) => n,
        None => match body {
            Some(n) => n as int,
            None => match spec {
                Some(n) => n as int,
                None => 30,
            },
        },
    }
}

/// Finds the grace period of a deletion.
pub fn grace_period(params: &StringMap, body: Option<i64>, pod: &Pod) -> (r: i64)
    ensures
        r == grace_of(grace_in_query(params@), body, grace_in_spec(pod@)),
{
    let query: Option<i64> = match params.get("gracePeriodSeconds") {
        Some(v) => parse_i64(v.as_str()),
        None => None,
    };
    match query {
        Some(n) => n,
        None => match body {
            Some(n) => n,
            None => match &pod.spec {
                Some(s) => match s.termination_grace_period_seconds {
                    Some(n) => n,
                    None => 30,
                },
                None => 30,
            },
        },
    }
}

/// A pod that is to go: since when, unless that is known, and how long it has.
pub open spec fn terminating(p: PodView, now: Seq<char>, grace: i64) -> PodView {
    PodView {
        metadata: ObjectMetaView {
            deletion_timestamp: Some(
                match p.metadata.deletion_timestamp {
                    Some(t) => t,
                    None => now,
                },
            ),
            deletion_grace_period_seconds: Some(grace),
            ..p.metadata
        },
        ..p
    }
}

/// The generation of a pod that has none is the first.
pub open spec fn generation_of(p: PodView) -> int {
    match p.metadata.generation {
        Some(g) => g as int,
        None => 1,
    }
}

/// A pod that is to go, as it is stored: one generation on.
pub open spec fn stored_terminating(p: PodView, now: Seq<char>, grace: i64) -> PodView {
    let t = terminating(p, now, grace);
    PodView {
        metadata: ObjectMetaView { generation: Some((generation_of(p) + 1) as i64), ..t.metadata },
        ..t
    }
}

/// Marks a pod as one that is to go.
pub fn mark_terminating(pod: Pod, now: String, grace: i64) -> (r: Pod)
    ensures
        r@ == terminating(pod@, now@, grace),
{
    let mut out: Pod = pod;
    if out.metadata.deletion_timestamp.is_none() {
        out.metadata.deletion_timestamp = Some(now);
    }
    out.metadata.deletion_grace_period_seconds = Some(grace);
    out
}

/// Marks a pod as one that is to go, for the store.
pub fn mark_stored_terminating(pod: Pod, now: String, grace: i64) -> (r: Pod)
    requires
        generation_of(pod@) < i64::MAX,
    ensures
        r@ == stored_terminating(pod@, now@, grace),
{
    let generation: i64 = match pod.metadata.generation {
        Some(g) => g,
        None => 1,
    };
    let mut out: Pod = mark_terminating(pod, now, grace);
    out.metadata.generation = Some(generation + 1);
    out
}

/// What the deletion of a pod waits for.
pub enum DeletePhase {
    /// The authorizer's answer.
    Authorizing,
    /// The pod.
    ReadingPod,
    /// The preconditions of the request.
    CheckingPreconditions,
    /// The validating webhooks.
    Reviewing,
    /// The pod to be gone from the store at once.
    Removing,
    /// The pod as it is now, for the write number `attempt`.
    Rereading { attempt: usize },
    /// The pod to be written.
    Writing { attempt: usize },
    Done,
    Failed(Error),
}

/// An answer to what the deletion of a pod waits for.
pub enum DeleteReply {
    Decided(Decision),
    Passed,
    /// The pod, and the time at which it was read.
    Pod(Pod, String),
    Removed,
    Written(Result<Pod, Error>),
    Error(Error),
}

/// A pod that is being deleted. `grace` is known once the pod was read.
pub struct PodDeletion {
    pub pod: Option<Pod>,
    /// When the pod was read.
    pub read_at: String,
    pub params: StringMap,
    pub body_grace: Option<i64>,
    pub grace: i64,
    pub dry_run: bool,
    pub phase: DeletePhase,
}

/// How often a pod that is to go is written, where others write too.
pub const DELETE_ATTEMPTS: usize = 2;

/// Whether everything but pod, time, grace and phase stayed.
pub open spec fn same_request(at: PodDeletion, next: PodDeletion) -> bool {
    next.params == at.params && next.body_grace == at.body_grace && next.dry_run == at.dry_run
}

/// The content of an optional pod.
pub open spec fn opt_pod(p: Option<Pod>) -> Option<PodView> {
    match p {
        Some(p) => Some(p@),
        None => None,
    }
}

/// Whether `next` follows `at` on `reply`. An answer that was not asked for
/// changes nothing.
pub open spec fn deletes(at: PodDeletion, reply: DeleteReply, next: PodDeletion) -> bool {
    match (at.phase, reply) {
        (DeletePhase::Done, _) => next == at,
        (DeletePhase::Failed(e), _) => next == at,
        (_, DeleteReply::Error(e)) => next == (PodDeletion { phase: DeletePhase::Failed(e), ..at }),
        (DeletePhase::Authorizing, DeleteReply::Decided(d)) => match d {
            Decision::Deny(reason) => next == (PodDeletion {
                phase: DeletePhase::Failed(Error::Forbidden(reason)),
                ..at
            }),
            Decision::Allow => next == (PodDeletion { phase: DeletePhase::ReadingPod, ..at }),
        },
        (DeletePhase::ReadingPod, DeleteReply::Pod(p, now)) => next == (PodDeletion {
            pod: Some(p),
            read_at: now,
            phase: DeletePhase::CheckingPreconditions,
            ..at
        }),
        (DeletePhase::CheckingPreconditions, DeleteReply::Passed) => next == (PodDeletion {
            phase: DeletePhase::Reviewing,
            ..at
        }),
        (DeletePhase::Reviewing, DeleteReply::Passed) => match at.pod {
            None => next == at,
            Some(p) => if at.dry_run {
                next == (PodDeletion { phase: DeletePhase::Done, ..at })
            } else {
                let grace = grace_of(
                    grace_in_query(at.params@),
                    at.body_grace,
                    grace_in_spec(p@),
                ) as i64;
                &&& same_request(at, next)
                &&& opt_pod(next.pod) == Some(terminating(p@, at.read_at@, grace))
                &&& next.grace == grace
                &&& next.phase == if grace == 0 {
                    DeletePhase::Removing
                } else {
                    DeletePhase::Rereading { attempt: 0 }
                }
            },
        },
        (DeletePhase::Removing, DeleteReply::Removed) => next == (PodDeletion {
            phase: DeletePhase::Done,
            ..at
        }),
        (DeletePhase::Rereading { attempt }, DeleteReply::Pod(p, now)) => {
            &&& same_request(at, next)
            &&& opt_pod(next.pod) == Some(stored_terminating(p@, now@, at.grace))
            &&& next.grace == at.grace
            &&& next.phase == DeletePhase::Writing { attempt }
        },
        (DeletePhase::Writing { attempt }, DeleteReply::Written(result)) => {
            match write_outcome(attempt, DELETE_ATTEMPTS, result) {
                Attempt::Done(p) => next == (PodDeletion {
                    pod: Some(p),
                    phase: DeletePhase::Done,
                    ..at
                }),
                Attempt::Again => next == (PodDeletion {
                    phase: DeletePhase::Rereading { attempt: (attempt + 1) as usize },
                    ..at
                }),
                Attempt::Failed(e) => next == (PodDeletion {
                    phase: DeletePhase::Failed(e),
                    ..at
                }),
            }
        },
        _ => next == at,
    }
}

/// Takes one answer into account.
#[verifier::rlimit(40)]
pub fn delete_step(at: PodDeletion, reply: DeleteReply) -> (next: PodDeletion)
    requires
        at.phase is Rereading && reply is Pod ==> generation_of(reply->Pod_0@) < i64::MAX,
    ensures
        deletes(at, reply, next),
{
    let PodDeletion { pod, read_at, params, body_grace, grace, dry_run, phase } = at;
    let mut pod: Option<Pod> = pod;
    let mut read_at: String = read_at;
    let mut grace: i64 = grace;
    let target: DeletePhase = match (phase, reply) {
        (DeletePhase::Done, _) => DeletePhase::Done,
        (DeletePhase::Failed(e), _) => DeletePhase::Failed(e),
        (_, DeleteReply::Error(e)) => DeletePhase::Failed(e),
        (DeletePhase::Authorizing, DeleteReply::Decided(d)) => match d {
            Decision::Deny(reason) => DeletePhase::Failed(Error::Forbidden(reason)),
            Decision::Allow => DeletePhase::ReadingPod,
        },
        (DeletePhase::ReadingPod, DeleteReply::Pod(p, now)) => {
            pod = Some(p);
            read_at = now;
            DeletePhase::CheckingPreconditions
        },
        (DeletePhase::CheckingPreconditions, DeleteReply::Passed) => DeletePhase::Reviewing,
        (DeletePhase::Reviewing, DeleteReply::Passed) => match pod {
            None => {
                pod = None;
                DeletePhase::Reviewing
            },
            Some(p) => {
                if dry_run {
                    pod = Some(p);
                    DeletePhase::Done
                } else {
                    grace = grace_period(&params, body_grace, &p);
                    pod = Some(mark_terminating(p, read_at.clone(), grace));
                    if grace == 0 {
                        DeletePhase::Removing
                    } else {
                        DeletePhase::Rereading { attempt: 0 }
                    }
                }
            },
        },
        (DeletePhase::Removing, DeleteReply::Removed) => DeletePhase::Done,
        (DeletePhase::Rereading { attempt }, DeleteReply::Pod(p, now)) => {
            pod = Some(mark_stored_terminating(p, now, grace));
            DeletePhase::Writing { attempt }
        },
        (DeletePhase::Writing { attempt }, DeleteReply::Written(result)) => match after_write(
            attempt,
            DELETE_ATTEMPTS,
            result,
        ) {
            Attempt::Done(p) => {
                pod = Some(p);
                DeletePhase::Done
            },
            Attempt::Again => DeletePhase::Rereading { attempt: attempt + 1 },
            Attempt::Failed(e) => DeletePhase::Failed(e),
        },
        (other, _) => other,
    };
    PodDeletion { pod, read_at, params, body_grace, grace, dry_run, phase: target }
}

/// A dry run never comes to change the store.
pub proof fn law_dry_deletion_changes_nothing(at: PodDeletion, reply: DeleteReply, next: PodDeletion)
    requires
        deletes(at, reply, next),
        at.dry_run,
        !(at.phase is Removing || at.phase is Rereading || at.phase is Writing),
    ensures
        !(next.phase is Removing || next.phase is Rereading || next.phase is Writing),
{
}

/// A pod that is going already keeps the time from which on it goes.
pub proof fn law_deletion_time_stays(p: PodView, now: Seq<char>, later: Seq<char>, grace: i64, again: i64)
    ensures
        terminating(terminating(p, now, grace), later, again).metadata.deletion_timestamp
            == terminating(p, now, grace).metadata.deletion_timestamp,
{
}

/// Only a grace period of zero removes a pod at once.
pub proof fn law_only_zero_grace_removes(at: PodDeletion, reply: DeleteReply, next: PodDeletion)
    requires
        deletes(at, reply, next),
        !(at.phase is Removing),
        next.phase is Removing,
    ensures
        next.grace == 0,
{
}

} // verus!
