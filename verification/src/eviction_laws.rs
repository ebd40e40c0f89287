//! What evictions keep: the pods that a budget wants to run go on running.
use vstd::prelude::*;
use crate::access::Decision;
use crate::error::Error;
use crate::eviction::{
    at_budget, budget_from, condition_from, conditions_of, count_pods, disruption_booked, evicts,
    healthy_of, total_of, Amount, BudgetStatus, DisruptionBudget, Evicting, EvictionReply,
    EvictionRequest, Rounding,
};
use crate::model::{opt_map, Phase, Pod, PodConditionView};
use crate::text::signed_decimal;

verus! {

/// Whether a pod is in phase `Running`; one whose phase is another or missing
/// is not.
pub open spec fn runs(p: Pod) -> bool {
    match p@.status {
        Some(s) => s.phase == Some(Phase::Running),
        None => false,
    }
}

/// Whether a budget selects a pod: it has labels, and every one that the budget
/// asks for is among them with that value.
pub open spec fn selects_pod_of(b: DisruptionBudget, p: Pod) -> bool {
    match p@.metadata.labels {
        Some(l) => match b.match_labels {
            Some(m) => forall|k: Seq<char>| #[trigger]
                m@.dom().contains(k) ==> l.dom().contains(k) && l[k] == m@[k],
            None => true,
        },
        None => false,
    }
}

/// The pods that a budget selects.
pub open spec fn selected_pods(b: DisruptionBudget, pods: Seq<Pod>) -> Seq<Pod> {
    pods.filter(|p: Pod| selects_pod_of(b, p))
}

/// The pods that a budget selects and that run.
pub open spec fn running_pods(b: DisruptionBudget, pods: Seq<Pod>) -> Seq<Pod> {
    pods.filter(|p: Pod| selects_pod_of(b, p) && runs(p))
}

proof fn lemma_count(b: DisruptionBudget, pods: Seq<Pod>, n: nat)
    requires
        n <= pods.len(),
    ensures
        count_pods(pods, n, opt_map(b.match_labels), false) == selected_pods(
            b,
            pods.take(n as int),
        ).len(),
        count_pods(pods, n, opt_map(b.match_labels), true) == running_pods(
            b,
            pods.take(n as int),
        ).len(),
    decreases n,
{
    reveal(Seq::filter);
    if n > 0 {
        lemma_count(b, pods, (n - 1) as nat);
        let t = pods.take(n as int);
        assert(t.drop_last() =~= pods.take(n - 1));
        assert(t.last() == pods[n - 1]);
    }
}

/// A pod counts as healthy for a budget if and only if the budget selects it
/// and it is in phase `Running`; all that the budget selects make the total.
pub proof fn law_healthy_pods_are_those_that_run(b: DisruptionBudget, pods: Seq<Pod>)
    ensures
        healthy_of(b, pods) == running_pods(b, pods).len(),
        total_of(b, pods) == selected_pods(b, pods).len(),
{
    lemma_count(b, pods, pods.len());
    assert(pods.take(pods.len() as int) =~= pods);
}

/// One more pod makes one more healthy pod if and only if the budget selects it
/// and it runs; a pod that is pending, has ended, or whose phase is unknown or
/// missing makes none.
pub proof fn law_one_more_pod_counts_if_it_runs(b: DisruptionBudget, pods: Seq<Pod>, p: Pod)
    ensures
        healthy_of(b, pods.push(p)) == healthy_of(b, pods) + (if selects_pod_of(b, p) && runs(p) {
            1int
        } else {
            0int
        }),
        total_of(b, pods.push(p)) == total_of(b, pods) + (if selects_pod_of(b, p) {
            1int
        } else {
            0int
        }),
        healthy_of(b, Seq::empty()) == 0,
        p@.status is None || p@.status->0.phase is None || p@.status->0.phase == Some(
            Phase::Pending,
        ) || p@.status->0.phase == Some(Phase::Succeeded) || p@.status->0.phase == Some(
            Phase::Failed,
        ) || p@.status->0.phase == Some(Phase::Unknown) ==> healthy_of(b, pods.push(p))
            == healthy_of(b, pods),
{
    reveal(Seq::filter);
    law_healthy_pods_are_those_that_run(b, pods);
    law_healthy_pods_are_those_that_run(b, pods.push(p));
    assert(pods.push(p).drop_last() =~= pods);
    assert(pods.push(p).last() == p);
}

/// Whether a text is a percentage.
pub open spec fn is_percentage(s: Seq<char>) -> bool {
    s.len() > 0 && s[s.len() - 1] == '%'
}

/// How many pods a budget that gives numbers wants to run: as many as must be
/// available, or all that it selects but those that may be missing, or all.
pub open spec fn wants_running(b: DisruptionBudget, selected: int) -> int {
    match b.min_available {
        Some(Amount::Count(n)) => n as int,
        Some(Amount::Share(_)) => selected,
        None => match b.max_unavailable {
            Some(Amount::Count(n)) => selected - n,
            _ => selected,
        },
    }
}

/// Whether a budget gives a percentage that counts.
pub open spec fn gives_percentage(b: DisruptionBudget) -> bool {
    match b.min_available {
        Some(Amount::Count(_)) => false,
        Some(Amount::Share(s)) => is_percentage(s@),
        None => match b.max_unavailable {
            Some(Amount::Share(s)) => is_percentage(s@),
            _ => false,
        },
    }
}

/// An eviction gets past a budget if and only if more of the pods that it
/// selects run than it wants to: so many of them run still when the pod is gone.
pub proof fn law_eviction_leaves_enough_pods_running(
    request: EvictionRequest,
    budgets: Vec<DisruptionBudget>,
    index: usize,
    pods: Vec<Pod>,
    next: Evicting,
)
    requires
        index < budgets@.len(),
        pods@.len() <= i32::MAX,
        evicts(
            (Evicting::CountingPods { request, budgets, index }),
            EvictionReply::Pods(pods),
            next,
        ),
        !gives_percentage(budgets@[index as int]),
    ensures
        ({
            let b = budgets@[index as int];
            let running = running_pods(b, pods@).len() as int;
            let wanted = wants_running(b, selected_pods(b, pods@).len() as int);
            &&& next is CountingHealthy <==> running - 1 < wanted
            &&& next is CountingHealthy ==> next == (Evicting::CountingHealthy { budgets, index })
            &&& !(next is CountingHealthy) && !request.dry_run ==> next == (Evicting::Recording {
                request,
                budgets,
                index,
                allowed: (running - wanted) as i64,
            })
            &&& !(next is CountingHealthy) && request.dry_run ==> next is CountingPods || next
                is Done
        }),
{
    law_healthy_pods_are_those_that_run(budgets@[index as int], pods@);
}

/// Of a percentage the share of the pods that the budget selects is worked out,
/// rounded up for those that must be available and down for those that may be
/// missing.
pub proof fn law_percentages_are_of_the_selected_pods(
    request: EvictionRequest,
    budgets: Vec<DisruptionBudget>,
    index: usize,
    pods: Vec<Pod>,
    next: Evicting,
)
    requires
        index < budgets@.len(),
        pods@.len() <= i32::MAX,
        evicts(
            (Evicting::CountingPods { request, budgets, index }),
            EvictionReply::Pods(pods),
            next,
        ),
        gives_percentage(budgets@[index as int]),
    ensures
        ({
            let b = budgets@[index as int];
            let text = if b.min_available is Some {
                b.min_available->0->Share_0@
            } else {
                b.max_unavailable->0->Share_0@
            };
            &&& next matches Evicting::WorkingOut {
                request: r,
                budgets: bs,
                index: i,
                total,
                healthy,
                percent,
                rounding,
            } && r == request && bs == budgets && i == index && total == selected_pods(
                b,
                pods@,
            ).len() && healthy == running_pods(b, pods@).len() && percent@.push('%') == text && (
            rounding is Up <==> b.min_available is Some)
        }),
{
    let b = budgets@[index as int];
    law_healthy_pods_are_those_that_run(b, pods@);
    let text = if b.min_available is Some {
        b.min_available->0->Share_0@
    } else {
        b.max_unavailable->0->Share_0@
    };
    assert(text.drop_last().push('%') =~= text);
}

/// With its share worked out, a budget of percentages lets an eviction pass if
/// and only if more pods run than the share wants: the share itself where it
/// must be available, the rest where it may be missing, and all where the
/// percentage is no number.
pub proof fn law_shares_are_kept_running(
    request: EvictionRequest,
    budgets: Vec<DisruptionBudget>,
    index: usize,
    total: i32,
    healthy: i32,
    percent: String,
    rounding: Rounding,
    share: Option<i32>,
    next: Evicting,
)
    requires
        index < budgets@.len(),
        gives_percentage(budgets@[index as int]),
        evicts(
            (Evicting::WorkingOut { request, budgets, index, total, healthy, percent, rounding }),
            EvictionReply::Share(share),
            next,
        ),
    ensures
        ({
            let b = budgets@[index as int];
            let wanted: int = if share is None {
                total as int
            } else if b.min_available is Some {
                share->0 as int
            } else {
                total - share->0
            };
            &&& next is CountingHealthy <==> healthy - 1 < wanted
            &&& !(next is CountingHealthy) && !request.dry_run ==> next == (Evicting::Recording {
                request,
                budgets,
                index,
                allowed: (healthy - wanted) as i64,
            })
        }),
{
}

proof fn lemma_budget_from(budgets: Seq<DisruptionBudget>, i: int)
    requires
        0 <= i,
    ensures
        match budget_from(budgets, i) {
            Some(k) => i <= k < budgets.len() && budgets[k].selects_pod && forall|j: int|
                i <= j < k ==> !(#[trigger] budgets[j]).selects_pod,
            None => forall|j: int| i <= j < budgets.len() ==> !(#[trigger] budgets[j]).selects_pod,
        },
    decreases budgets.len() - i,
{
    if i < budgets.len() && !budgets[i].selects_pod {
        lemma_budget_from(budgets, i + 1);
    }
}

/// Budgets are taken in their order; one is passed over if and only if it does
/// not select the pod, and only after the last is the pod marked, or a dry run
/// done.
pub proof fn law_no_budget_is_passed_over(
    request: EvictionRequest,
    budgets: Vec<DisruptionBudget>,
    from: int,
)
    requires
        0 <= from,
    ensures
        match at_budget(request, budgets, from) {
            Evicting::CountingPods { request: r, budgets: b, index } => {
                &&& r == request
                &&& b == budgets
                &&& from <= index < budgets@.len()
                &&& budgets@[index as int].selects_pod
                &&& forall|j: int| from <= j < index ==> !(#[trigger] budgets@[j]).selects_pod
            },
            Evicting::Done => request.dry_run && forall|j: int|
                from <= j < budgets@.len() ==> !(#[trigger] budgets@[j]).selects_pod,
            Evicting::ReadingForMark => !request.dry_run && forall|j: int|
                from <= j < budgets@.len() ==> !(#[trigger] budgets@[j]).selects_pod,
            _ => false,
        },
{
    lemma_budget_from(budgets@, from);
    assert(budgets@.len() <= usize::MAX) by {
        assert(budgets.len() == budgets@.len());
    }
}

/// An eviction as it goes: the states it goes through, and the answers.
pub open spec fn is_course(states: Seq<Evicting>, replies: Seq<EvictionReply>) -> bool {
    &&& states.len() == replies.len() + 1
    &&& forall|i: int|
        0 <= i < replies.len() ==> evicts(states[i], #[trigger] replies[i], states[i + 1])
}

/// Whether the eviction has weighed budget `j` at step `t`.
pub open spec fn weighed(
    states: Seq<Evicting>,
    replies: Seq<EvictionReply>,
    budgets: Vec<DisruptionBudget>,
    j: int,
    t: int,
) -> bool {
    states[t] matches Evicting::CountingPods { request, budgets: b, index } && b == budgets
        && index == j && (replies[t] is Pods || replies[t] is Error) && !(states[t
        + 1] is CountingHealthy) && !(states[t + 1] is CountingPods && states[t + 1]
        == states[t])
}

/// How many budgets a state has behind it, where it is about `budgets`.
pub open spec fn behind(at: Evicting, budgets: Vec<DisruptionBudget>) -> Option<int> {
    match at {
        Evicting::CountingPods { request, budgets: b, index } => if b == budgets {
            Some(index as int)
        } else {
            None
        },
        Evicting::WorkingOut { request, budgets: b, index, .. } => if b == budgets {
            Some(index + 1)
        } else {
            None
        },
        Evicting::Recording { request, budgets: b, index, allowed } => if b == budgets {
            Some(index + 1)
        } else {
            None
        },
        Evicting::CountingHealthy { budgets: b, index } => None,
        Evicting::WorkingOutRefusal { .. } => None,
        Evicting::Refused(_) => None,
        Evicting::Failed(_) => None,
        _ => Some(budgets@.len() as int),
    }
}

proof fn lemma_budgets_weighed(
    states: Seq<Evicting>,
    replies: Seq<EvictionReply>,
    budgets: Vec<DisruptionBudget>,
    n: int,
)
    requires
        is_course(states, replies),
        replies.len() > 0,
        states[0] is ListingBudgets,
        replies[0] == EvictionReply::Budgets(budgets),
        1 <= n < states.len(),
    ensures
        match states[n] {
            Evicting::Authorizing(_) => false,
            Evicting::ReadingPod(_) => false,
            Evicting::ListingBudgets(_) => false,
            Evicting::CountingPods { request, budgets: b, index } => b == budgets && index
                < budgets@.len(),
            Evicting::WorkingOut { request, budgets: b, index, .. } => b == budgets && index
                < budgets@.len(),
            Evicting::Recording { request, budgets: b, index, allowed } => b == budgets && index
                < budgets@.len(),
            _ => true,
        },
        behind(states[n], budgets) is Some ==> forall|j: int|
            0 <= j < behind(states[n], budgets)->0 && (#[trigger] budgets@[j]).selects_pod
                ==> exists|t: int| 0 < t < n && #[trigger] weighed(states, replies, budgets, j, t),
    decreases n,
{
    let at = states[n - 1];
    let next = states[n];
    let reply = replies[n - 1];
    assert(evicts(states[n - 1], replies[n - 1], states[n - 1 + 1]));
    if n == 1 {
        law_no_budget_is_passed_over(at->ListingBudgets_0, budgets, 0);
    } else {
        lemma_budgets_weighed(states, replies, budgets, n - 1);
        match at {
            Evicting::CountingPods { request, budgets: b, index } => {
                law_no_budget_is_passed_over(request, budgets, index + 1);
                if next != at && !(next is CountingHealthy) && (reply is Pods || reply is Error) {
                    assert(weighed(states, replies, budgets, index as int, n - 1));
                }
            },
            Evicting::WorkingOut { request, budgets: b, index, .. } => {
                law_no_budget_is_passed_over(request, budgets, index + 1);
            },
            Evicting::Recording { request, budgets: b, index, allowed } => {
                law_no_budget_is_passed_over(request, budgets, index + 1);
            },
            _ => {},
        }
        if behind(next, budgets) is Some {
            assert forall|j: int|
                0 <= j < behind(next, budgets)->0 && (
                #[trigger] budgets@[j]).selects_pod implies exists|t: int|
                0 < t < n && #[trigger] weighed(states, replies, budgets, j, t) by {
                if behind(at, budgets) is Some && j < behind(at, budgets)->0 {
                    let t = choose|t: int|
                        0 < t < n - 1 && #[trigger] weighed(states, replies, budgets, j, t);
                    assert(weighed(states, replies, budgets, j, t));
                }
            }
        }
    }
}

/// Once budgets are listed, the pod is marked, deleted, or reported to be
/// evictable only after every budget that selects it was weighed and did not
/// refuse.
pub proof fn law_every_budget_of_the_pod_is_weighed(
    states: Seq<Evicting>,
    replies: Seq<EvictionReply>,
    budgets: Vec<DisruptionBudget>,
    n: int,
    j: int,
)
    requires
        is_course(states, replies),
        replies.len() > 0,
        states[0] is ListingBudgets,
        replies[0] == EvictionReply::Budgets(budgets),
        1 <= n < states.len(),
        states[n] is ReadingForMark || states[n] is Marking || states[n] is Rereading || states[n]
            is Deleting || states[n] is Done,
        0 <= j < budgets@.len(),
        budgets@[j].selects_pod,
    ensures
        exists|t: int| 0 < t < n && #[trigger] weighed(states, replies, budgets, j, t),
{
    lemma_budgets_weighed(states, replies, budgets, n);
}

/// A pod is read after permission; it goes past the budgets if and only if it
/// is being deleted, has ended, or has not started; a pod of another identity
/// than the eviction asks for is a conflict.
pub proof fn law_which_pods_the_budgets_protect(
    r: EvictionRequest,
    p: Pod,
    now: String,
    next: Evicting,
)
    requires
        evicts(Evicting::ReadingPod(r), EvictionReply::Pod(p, now), next),
    ensures
        ({
            let other = r.uid is Some && r.uid->0@.len() > 0 && r.uid->0@ != p.metadata.uid@;
            let free = p@.metadata.deletion_timestamp is Some || (p@.status is Some && (
            p@.status->0.phase == Some(Phase::Pending) || p@.status->0.phase == Some(
                Phase::Succeeded,
            ) || p@.status->0.phase == Some(Phase::Failed)));
            &&& other <==> next is Failed
            &&& other ==> next->Failed_0@ is Conflict
            &&& !other && !free ==> next == Evicting::ListingBudgets(r)
            &&& !other && free && r.dry_run ==> next is Done
            &&& !other && free && !r.dry_run ==> next is ReadingForMark
        }),
{
}

/// A denial forbids the eviction, a body that could not be read fails it, and
/// only a permitted one reads the pod.
pub proof fn law_eviction_needs_permission(
    request: Result<EvictionRequest, Error>,
    reply: EvictionReply,
    next: Evicting,
)
    requires
        evicts(Evicting::Authorizing(request), reply, next),
    ensures
        next is ReadingPod <==> reply == EvictionReply::Decided(Decision::Allow) && request is Ok,
        next is ReadingPod ==> next == Evicting::ReadingPod(request->Ok_0),
        reply is Decided && reply->Decided_0 is Deny ==> next == Evicting::Failed(
            Error::Forbidden(reply->Decided_0->Deny_0),
        ),
        reply == EvictionReply::Decided(Decision::Allow) && request is Err ==> next
            == Evicting::Failed(request->Err_0),
        next == Evicting::Authorizing(request) || next is ReadingPod || next is Failed,
{
}

/// The pod is deleted only once it was marked, or found to be marked, and read
/// again; errors on the way end the eviction.
pub proof fn law_pod_is_marked_before_it_is_deleted(
    at: Evicting,
    reply: EvictionReply,
    next: Evicting,
)
    requires
        evicts(at, reply, next),
        next != at,
    ensures
        next is Deleting ==> at is Rereading && reply is Pod,
        next is Rereading ==> (at is Marking && reply is Written) || (at is ReadingForMark && reply
            is Pod),
        next is Marking ==> at is ReadingForMark && reply is Pod,
        at is Deleting ==> (reply is Deleted && next is Done) || (reply is Error && next
            == Evicting::Failed(reply->Error_0)),
        at is Marking && reply is Error ==> next == Evicting::Failed(reply->Error_0),
        at is Rereading && reply is Error ==> next == Evicting::Failed(reply->Error_0),
        at is ReadingForMark && reply is Error ==> next == Evicting::Failed(reply->Error_0),
        at is ReadingPod && reply is Error ==> next == Evicting::Failed(reply->Error_0),
        at is ListingBudgets && reply is Error ==> next is Done || next is ReadingForMark,
{
}

pub proof fn lemma_condition_found(cs: Seq<PodConditionView>, kind: Seq<char>, i: int)
    requires
        0 <= i,
    ensures
        match condition_from(cs, kind, i) {
            Some(k) => i <= k < cs.len() && cs[k].condition_type == kind && forall|j: int|
                i <= j < k ==> (#[trigger] cs[j]).condition_type != kind,
            None => forall|j: int| i <= j < cs.len() ==> (#[trigger] cs[j]).condition_type != kind,
        },
    decreases cs.len() - i,
{
    if i < cs.len() && cs[i].condition_type != kind {
        lemma_condition_found(cs, kind, i + 1);
    }
}

/// Marking gives the pod one condition of type `DisruptionTarget` that is true
/// because of the eviction, from that time on; it keeps every other condition,
/// and all else of the pod.
pub proof fn law_mark_says_why_the_pod_goes(p: Pod, now: String, next: Evicting)
    requires
        evicts(Evicting::ReadingForMark, EvictionReply::Pod(p, now), next),
        next is Marking,
    ensures
        ({
            let q = next->Marking_0@;
            let before = if p@.status is Some && p@.status->0.conditions is Some {
                p@.status->0.conditions->0
            } else {
                Seq::empty()
            };
            let after = q.status->0.conditions->0;
            &&& q.metadata == p@.metadata
            &&& q.spec == p@.spec
            &&& q.status is Some && q.status->0.conditions is Some
            &&& p@.status is Some ==> q.status->0.phase == p@.status->0.phase
                && q.status->0.qos_class == p@.status->0.qos_class && q.status->0.resize
                == p@.status->0.resize
            &&& p@.status is None ==> q.status->0.phase is None && q.status->0.qos_class is None
                && q.status->0.resize is None
            &&& after.len() == before.len() || after.len() == before.len() + 1
            &&& exists|k: int|
                0 <= k < after.len() && {
                    let mark = #[trigger] after[k];
                    &&& mark.condition_type == "DisruptionTarget"@
                    &&& mark.status == "True"@
                    &&& mark.reason == Some("EvictionByEvictionAPI"@)
                    &&& mark.message == Some("Eviction API: evicting"@)
                    &&& mark.last_transition_time == Some(now@)
                    &&& forall|j: int| 0 <= j < before.len() && j != k ==> #[trigger] after[j]
                        == before[j]
                    &&& k < before.len() ==> before[k].condition_type == "DisruptionTarget"@
                        && after.len() == before.len()
                    &&& k >= before.len() ==> k == before.len() && forall|j: int|
                        0 <= j < before.len() ==> (#[trigger] before[j]).condition_type
                            != "DisruptionTarget"@
                }
        }),
{
    let before = conditions_of(p@);
    lemma_condition_found(before, "DisruptionTarget"@, 0);
    let after = next->Marking_0@.status->0.conditions->0;
    match condition_from(before, "DisruptionTarget"@, 0) {
        Some(i) => {
            assert(after[i].status == "True"@);
        },
        None => {
            assert(after[before.len() as int].status == "True"@);
        },
    }
}

/// A pod is not marked again if and only if its first condition of that type
/// is true already because of an eviction.
pub proof fn law_marked_pod_is_not_marked_again(p: Pod, now: String, next: Evicting)
    requires
        evicts(Evicting::ReadingForMark, EvictionReply::Pod(p, now), next),
    ensures
        next is Marking || next is Rereading,
        next is Rereading <==> p@.status is Some && p@.status->0.conditions is Some && exists|
            k: int,
        |
            0 <= k < p@.status->0.conditions->0.len() && {
                let c = #[trigger] p@.status->0.conditions->0[k];
                &&& c.condition_type == "DisruptionTarget"@
                &&& c.status == "True"@
                &&& c.reason == Some("EvictionByEvictionAPI"@)
                &&& forall|j: int|
                    0 <= j < k ==> (#[trigger] p@.status->0.conditions->0[j]).condition_type
                        != "DisruptionTarget"@
            },
{
    let cs = conditions_of(p@);
    lemma_condition_found(cs, "DisruptionTarget"@, 0);
    match condition_from(cs, "DisruptionTarget"@, 0) {
        Some(i) => {
            assert forall|k: int|
                0 <= k < cs.len() && (#[trigger] cs[k]).condition_type == "DisruptionTarget"@ && (
                forall|j: int|
                    0 <= j < k ==> (#[trigger] cs[j]).condition_type
                        != "DisruptionTarget"@) implies k == i by {
                if i < k {
                    assert(cs[i].condition_type != "DisruptionTarget"@);
                }
                if k < i {
                    assert(cs[k].condition_type != "DisruptionTarget"@);
                }
            }
            assert(cs[i].condition_type == "DisruptionTarget"@);
        },
        None => {},
    }
}

/// Booking a disruption leaves one fewer, notes the pod with the time, forgets
/// no other pod and changes no other number.
pub proof fn law_booked_disruption_is_one_fewer(
    before: Option<BudgetStatus>,
    pod_name: Seq<char>,
    now: Seq<char>,
    allowed: i64,
    after: BudgetStatus,
    other: Seq<char>,
)
    requires
        disruption_booked(before, pod_name, now, allowed, after),
        other != pod_name,
    ensures
        after.disruptions_allowed + 1 == allowed,
        after.disrupted_pods is Some,
        after.disrupted_pods->0@.dom().contains(pod_name),
        after.disrupted_pods->0@[pod_name] == now,
        after.disrupted_pods->0@.dom().contains(other) <==> before is Some
            && before->0.disrupted_pods is Some && before->0.disrupted_pods->0@.dom().contains(
            other,
        ),
        before is Some && before->0.disrupted_pods is Some
            && before->0.disrupted_pods->0@.dom().contains(other)
            ==> after.disrupted_pods->0@[other] == before->0.disrupted_pods->0@[other],
        before is Some ==> after.current_healthy == before->0.current_healthy
            && after.desired_healthy == before->0.desired_healthy && after.expected_pods
            == before->0.expected_pods,
        before is None ==> after.current_healthy == 0 && after.desired_healthy == 0
            && after.expected_pods == 0,
{
}

/// A refusal by a budget of numbers tells to come back in ten seconds, and how
/// many pods run and how many the budget needs of them.
pub proof fn law_refusal_says_what_the_budget_needs(
    budgets: Vec<DisruptionBudget>,
    index: usize,
    pods: Vec<Pod>,
    next: Evicting,
)
    requires
        index < budgets@.len(),
        pods@.len() <= i32::MAX,
        evicts((Evicting::CountingHealthy { budgets, index }), EvictionReply::Pods(pods), next),
        !gives_percentage(budgets@[index as int]),
    ensures
        next is Refused,
        ({
            let r = next->Refused_0;
            let b = budgets@[index as int];
            let running = running_pods(b, pods@).len() as int;
            &&& r.message@ == "Cannot evict pod as it would violate the pod's disruption budget."@
            &&& r.retry_after_seconds == 10
            &&& r.detail@ == "The disruption budget "@ + b.name@ + " needs "@ + signed_decimal(
                wants_running(b, running),
            ) + " healthy pods and has "@ + signed_decimal(running) + " currently"@
        }),
{
    law_healthy_pods_are_those_that_run(budgets@[index as int], pods@);
}

/// An eviction that is not refused goes on: from budget to budget, whether a
/// disruption could be booked or not, to the mark and to the deletion.
pub proof fn law_eviction_goes_on(at: Evicting, reply: EvictionReply, next: Evicting)
    requires
        evicts(at, reply, next),
    ensures
        match at {
            Evicting::ListingBudgets(r) => {
                &&& reply is Budgets ==> next == at_budget(r, reply->Budgets_0, 0)
                &&& reply is Error && r.dry_run ==> next is Done
                &&& reply is Error && !r.dry_run ==> next is ReadingForMark
            },
            Evicting::Recording { request, budgets, index, allowed } => reply is Recorded || reply
                is Error ==> next == at_budget(request, budgets, index + 1),
            Evicting::Marking(_) => reply is Written ==> next is Rereading,
            Evicting::Rereading => reply is Pod ==> next is Deleting,
            Evicting::Deleting => reply is Deleted ==> next is Done,
            Evicting::Done => next is Done,
            Evicting::Refused(_) => next == at,
            Evicting::Failed(_) => next == at,
            _ => true,
        },
{
}

/// Where the pods of a budget cannot be listed none of them counts.
pub proof fn law_pods_that_cannot_be_listed(
    request: EvictionRequest,
    budgets: Vec<DisruptionBudget>,
    index: usize,
    e: Error,
    next: Evicting,
)
    requires
        index < budgets@.len(),
        evicts(
            (Evicting::CountingPods { request, budgets, index }),
            EvictionReply::Error(e),
            next,
        ),
        !gives_percentage(budgets@[index as int]),
    ensures
        next is CountingHealthy <==> wants_running(budgets@[index as int], 0) >= 0,
{
    law_healthy_pods_are_those_that_run(budgets@[index as int], Seq::empty());
    reveal(Seq::filter);
}

/// A refusal by a budget of percentages is worked out over the pods that run.
pub proof fn law_refusal_by_a_share(
    budgets: Vec<DisruptionBudget>,
    index: usize,
    pods: Vec<Pod>,
    counted: Evicting,
    share: Option<i32>,
    next: Evicting,
)
    requires
        index < budgets@.len(),
        pods@.len() <= i32::MAX,
        gives_percentage(budgets@[index as int]),
        evicts((Evicting::CountingHealthy { budgets, index }), EvictionReply::Pods(pods), counted),
        evicts(counted, EvictionReply::Share(share), next),
    ensures
        ({
            let b = budgets@[index as int];
            let running = running_pods(b, pods@).len() as int;
            let wanted: int = if share is None {
                running
            } else if b.min_available is Some {
                share->0 as int
            } else {
                running - share->0
            };
            &&& counted is WorkingOutRefusal
            &&& next is Refused
            &&& next->Refused_0.retry_after_seconds == 10
            &&& next->Refused_0.message@
                == "Cannot evict pod as it would violate the pod's disruption budget."@
            &&& next->Refused_0.detail@ == "The disruption budget "@ + b.name@ + " needs "@
                + signed_decimal(wanted) + " healthy pods and has "@ + signed_decimal(running)
                + " currently"@
        }),
{
    law_healthy_pods_are_those_that_run(budgets@[index as int], pods@);
}

/// An answer that an eviction does not wait for changes nothing.
pub proof fn law_other_answers_leave_an_eviction(
    at: Evicting,
    reply: EvictionReply,
    next: Evicting,
)
    requires
        evicts(at, reply, next),
        !(reply is Error),
        match at {
            Evicting::Authorizing(_) => !(reply is Decided),
            Evicting::ReadingPod(_) => !(reply is Pod),
            Evicting::ListingBudgets(_) => !(reply is Budgets),
            Evicting::CountingPods { request, budgets, index } => !(reply is Pods),
            Evicting::WorkingOut { .. } => !(reply is Share),
            Evicting::CountingHealthy { budgets, index } => !(reply is Pods),
            Evicting::WorkingOutRefusal { .. } => !(reply is Share),
            Evicting::Recording { request, budgets, index, allowed } => !(reply is Recorded),
            Evicting::ReadingForMark => !(reply is Pod),
            Evicting::Marking(_) => !(reply is Written),
            Evicting::Rereading => !(reply is Pod),
            Evicting::Deleting => !(reply is Deleted),
            _ => true,
        },
    ensures
        next == at,
{
}

} // verus!
