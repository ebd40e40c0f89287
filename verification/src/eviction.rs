//! Evicting a pod within its disruption budgets.
use vstd::prelude::*;
use vstd::string::StringExecFns;
use crate::access::Decision;
use crate::collections::StringMap;
use crate::error::{invalid_field, one_invalid_field, Error, ErrorView, FieldErrorKind};
use crate::json::{
    as_int, as_text, copy_text_of, get_in, int_of_json, item_views, lemma_json_view, member,
    opt_member, outcome_of, text_of_json, Json, JsonView,
};
use crate::json_text::{json_document, parse_document};
use crate::model::{
    condition_views, opt_map, status_or_empty, Phase, Pod, PodCondition, PodConditionView,
    PodStatus, PodStatusView, PodView,
};
use crate::text::{
    chars_of, debug_quoted, debug_text, i64_text, opt_text, same, signed_decimal, text_of,
};

verus! {

/// What an eviction asks for.
pub struct EvictionRequest {
    pub uid: Option<String>,
    pub dry_run: bool,
    pub grace_period_seconds: Option<i64>,
}

/// Whether a list of JSON values holds this text.
pub open spec fn lists_text(items: Seq<JsonView>, s: Seq<char>) -> bool {
    exists|i: int| 0 <= i < items.len() && as_text(Some(#[trigger] items[i])) == Some(s)
}

/// Whether the delete options ask for a dry run.
pub open spec fn asks_dry_run(options: Option<JsonView>) -> bool {
    match opt_member(options, "dryRun"@) {
        Some(JsonView::Array(items)) => lists_text(items, "All"@),
        _ => false,
    }
}

/// Why an eviction is refused by what it says.
pub open spec fn eviction_refusal(parsed: Result<JsonView, Seq<char>>) -> Option<ErrorView> {
    match parsed {
        Err(e) => Some(ErrorView::InvalidResource("Invalid eviction format: "@ + e)),
        Ok(j) => {
            let version = as_text(member(j, "apiVersion"@));
            let grace = as_int(opt_member(member(j, "deleteOptions"@), "gracePeriodSeconds"@));
            if version is Some && version->0.len() > 0 && version->0 != "policy/v1"@ && version->0
                != "policy/v1beta1"@ {
                Some(
                    ErrorView::InvalidResource(
                        "unsupported Eviction apiVersion "@ + debug_quoted(version->0)
                            + "; expected policy/v1 or policy/v1beta1"@,
                    ),
                )
            } else if grace is Some && grace->0 < 0 {
                Some(
                    invalid_field(
                        FieldErrorKind::Invalid,
                        "deleteOptions.gracePeriodSeconds"@,
                        signed_decimal(grace->0 as int),
                        "must be greater than or equal to 0"@,
                    ),
                )
            } else {
                None
            }
        },
    }
}

fn has_text_item(items: &Vec<Json>, s: &str) -> (r: bool)
    ensures
        r == lists_text(item_views(items@), s@),
{
    let ghost all = item_views(items@);
    let mut i: usize = 0;
    while i < items.len()
        invariant
            i <= items@.len(),
            all == item_views(items@),
            forall|j: int| 0 <= j < i ==> as_text(Some(#[trigger] all[j])) != Some(s@),
        decreases items.len() - i,
    {
        assert(all[i as int] == items@[i as int]@);
        if let Some(t) = text_of_json(Some(&items[i])) {
            if same(t.as_str(), s) {
                assert(as_text(Some(all[i as int])) == Some(s@));
                return true;
            }
        }
        i = i + 1;
    }
    false
}

/// Whether `r` is what the body of an eviction says, or why it is refused.
pub open spec fn is_eviction(
    parsed: Result<JsonView, Seq<char>>,
    r: Result<EvictionRequest, Error>,
) -> bool {
    match r {
        Err(e) => eviction_refusal(parsed) == Some(e@),
        Ok(req) => eviction_refusal(parsed) is None && ({
            let options = member(parsed->Ok_0, "deleteOptions"@);
            &&& opt_text(req.uid) == as_text(
                opt_member(opt_member(options, "preconditions"@), "uid"@),
            )
            &&& req.dry_run == asks_dry_run(options)
            &&& req.grace_period_seconds == as_int(opt_member(options, "gracePeriodSeconds"@))
        }),
    }
}

/// Reads an eviction. `parsed` is its body, or what the JSON parser says of it.
pub fn read_eviction(parsed: Result<Json, String>) -> (r: Result<EvictionRequest, Error>)
    ensures
        is_eviction(outcome_of(parsed), r),
{
    broadcast use lemma_json_view;

    match parsed {
        Err(e) => {
            let mut m: String = "Invalid eviction format: ".to_owned();
            m.append(e.as_str());
            Err(Error::InvalidResource(m))
        },
        Ok(j) => {
            if let Some(v) = text_of_json(j.get("apiVersion")) {
                if !v.as_str().is_empty() && !same(v.as_str(), "policy/v1") && !same(
                    v.as_str(),
                    "policy/v1beta1",
                ) {
                    let mut m: String = "unsupported Eviction apiVersion ".to_owned();
                    m.append(debug_text(v.as_str()).as_str());
                    m.append("; expected policy/v1 or policy/v1beta1");
                    return Err(Error::InvalidResource(m));
                }
            }
            let options: Option<&Json> = j.get("deleteOptions");
            let uid: Option<String> = copy_text_of(
                get_in(get_in(options, "preconditions"), "uid"),
            );
            let dry_run: bool = match get_in(options, "dryRun") {
                Some(Json::Array(items)) => has_text_item(items, "All"),
                _ => false,
            };
            let grace: Option<i64> = int_of_json(get_in(options, "gracePeriodSeconds"));
            if let Some(g) = grace {
                if g < 0 {
                    return Err(
                        one_invalid_field(
                            FieldErrorKind::Invalid,
                            "deleteOptions.gracePeriodSeconds",
                            i64_text(g),
                            "must be greater than or equal to 0",
                        ),
                    );
                }
            }
            Ok(EvictionRequest { uid, dry_run, grace_period_seconds: grace })
        },
    }
}

/// Reads an eviction from the body of its request.
pub fn read_eviction_body(body: &[u8]) -> (r: Result<EvictionRequest, Error>)
    ensures
        is_eviction(json_document(body@), r),
{
    read_eviction(parse_document(body))
}

/// Why an eviction is refused by the pod's identity.
pub open spec fn uid_refusal(wanted: Option<Seq<char>>, uid: Seq<char>) -> Option<ErrorView> {
    match wanted {
        Some(w) => if w.len() > 0 && w != uid {
            Some(
                ErrorView::Conflict(
                    "the UID in the precondition ("@ + w + ") does not match the UID in record ("@
                        + uid
                        + "). The object might have been deleted and then recreated"@,
                ),
            )
        } else {
            None
        },
        None => None,
    }
}

/// Checks that the pod is the one that the eviction means.
pub fn check_uid(wanted: &Option<String>, uid: &str) -> (r: Result<(), Error>)
    ensures
        match r {
            Ok(_) => uid_refusal(opt_text(*wanted), uid@) is None,
            Err(e) => uid_refusal(opt_text(*wanted), uid@) == Some(e@),
        },
{
    if let Some(w) = wanted {
        if !w.as_str().is_empty() && !same(w.as_str(), uid) {
            let mut m: String = "the UID in the precondition (".to_owned();
            m.append(w.as_str());
            m.append(") does not match the UID in record (");
            m.append(uid);
            m.append("). The object might have been deleted and then recreated");
            return Err(Error::Conflict(m));
        }
    }
    Ok(())
}

/// The phase of a pod.
pub open spec fn phase_of(p: PodView) -> Option<Phase> {
    match p.status {
        Some(s) => s.phase,
        None => None,
    }
}

/// Whether no budget protects a pod: it is going already, has ended, or has
/// not started.
pub open spec fn ignores_budgets(p: PodView) -> bool {
    p.metadata.deletion_timestamp is Some || phase_of(p) == Some(Phase::Succeeded) || phase_of(p)
        == Some(Phase::Failed) || phase_of(p) == Some(Phase::Pending)
}

/// Whether no budget protects a pod.
pub fn pod_can_ignore_pdb(pod: &Pod) -> (r: bool)
    ensures
        r == ignores_budgets(pod@),
{
    if pod.metadata.deletion_timestamp.is_some() {
        return true;
    }
    match &pod.status {
        Some(s) => match s.phase {
            Some(Phase::Succeeded) => true,
            Some(Phase::Failed) => true,
            Some(Phase::Pending) => true,
            _ => false,
        },
        None => false,
    }
}

/// Whether a pod runs.
pub open spec fn is_running(p: PodView) -> bool {
    phase_of(p) == Some(Phase::Running)
}

/// Whether a pod is healthy: it runs.
pub fn is_pod_healthy(pod: &Pod) -> (r: bool)
    ensures
        r == is_running(pod@),
{
    match &pod.status {
        Some(s) => match s.phase {
            Some(Phase::Running) => true,
            _ => false,
        },
        None => false,
    }
}

/// Whether every wanted label is there with its value.
pub open spec fn has_all_labels(
    labels: Map<Seq<char>, Seq<char>>,
    wanted: Map<Seq<char>, Seq<char>>,
) -> bool {
    forall|k: Seq<char>| #[trigger]
        wanted.dom().contains(k) ==> labels.dom().contains(k) && labels[k] == wanted[k]
}

/// Whether a budget counts a pod: one with labels, all that are wanted among them.
pub open spec fn counted(
    labels: Option<Map<Seq<char>, Seq<char>>>,
    wanted: Option<Map<Seq<char>, Seq<char>>>,
) -> bool {
    labels is Some && (wanted is None || has_all_labels(labels->0, wanted->0))
}

/// Whether `labels` has every entry of `wanted`.
pub fn labels_match(labels: &StringMap, wanted: &StringMap) -> (r: bool)
    ensures
        r == has_all_labels(labels@, wanted@),
{
    let n: usize = wanted.len();
    let ghost order = wanted.key_order();
    let mut i: usize = 0;
    while i < n
        invariant
            i <= n,
            n == order.len(),
            order == wanted.key_order(),
            order.to_set() =~= wanted@.dom(),
            forall|j: int|
                0 <= j < i ==> labels@.dom().contains(#[trigger] order[j]) && labels@[order[j]]
                    == wanted@[order[j]],
        decreases n - i,
    {
        let (k, v) = wanted.entry(i);
        let ok: bool = match labels.get(k.as_str()) {
            Some(x) => same(x.as_str(), v.as_str()),
            None => false,
        };
        if !ok {
            assert(wanted@.dom().contains(k@));
            return false;
        }
        i = i + 1;
    }
    assert forall|k: Seq<char>| #[trigger] wanted@.dom().contains(k) implies labels@.dom().contains(
        k,
    ) && labels@[k] == wanted@[k] by {
        assert(order.to_set().contains(k));
        let j = choose|j: int| 0 <= j < order.len() && order[j] == k;
        assert(labels@.dom().contains(order[j]));
    }
    true
}

/// Whether a budget's labels select a pod.
pub fn pod_matches_pdb_selector(pod: &Pod, match_labels: &Option<StringMap>) -> (r: bool)
    ensures
        r == counted(pod@.metadata.labels, opt_map(*match_labels)),
{
    match &pod.metadata.labels {
        Some(labels) => match match_labels {
            Some(wanted) => labels_match(labels, wanted),
            None => true,
        },
        None => false,
    }
}

/// A number of pods: given outright, or as a share of those there are, such as
/// `50%`.
pub enum Amount {
    Count(i32),
    Share(String),
}

/// A disruption budget.
pub struct DisruptionBudget {
    pub name: String,
    /// Whether the budget's whole selector selects the pod to be evicted.
    pub selects_pod: bool,
    pub match_labels: Option<StringMap>,
    pub min_available: Option<Amount>,
    pub max_unavailable: Option<Amount>,
}

/// How a share that is no whole number of pods is rounded.
#[derive(Clone, Copy, Debug, PartialEq, Eq, Structural)]
pub enum Rounding {
    Up,
    Down,
}

/// What stands before the percent sign of a share.
pub open spec fn percent_in(s: Seq<char>) -> Option<Seq<char>> {
    if s.len() > 0 && s.last() == '%' {
        Some(s.drop_last())
    } else {
        None
    }
}

/// The percentage that a budget counts with, and how its share is rounded: up
/// for the pods that must be there, down for those that may be missing.
pub open spec fn share_of(budget: DisruptionBudget) -> Option<(Seq<char>, Rounding)> {
    match budget.min_available {
        Some(Amount::Count(_)) => None,
        Some(Amount::Share(s)) => match percent_in(s@) {
            Some(p) => Some((p, Rounding::Up)),
            None => None,
        },
        None => match budget.max_unavailable {
            Some(Amount::Share(s)) => match percent_in(s@) {
                Some(p) => Some((p, Rounding::Down)),
                None => None,
            },
            _ => None,
        },
    }
}

/// What stands before the percent sign of a share.
fn read_percent(s: &String) -> (r: Option<String>)
    ensures
        opt_text(r) == percent_in(s@),
{
    let v: Vec<char> = chars_of(s.as_str());
    let n: usize = v.len();
    if n > 0 && v[n - 1] == '%' {
        let p: String = text_of(v.as_slice(), 0, n - 1);
        assert(p@ =~= s@.drop_last());
        Some(p)
    } else {
        None
    }
}

/// The percentage whose share of the pods has to be worked out, if any.
pub fn share_to_work_out(budget: &DisruptionBudget) -> (r: Option<(String, Rounding)>)
    ensures
        match r {
            Some((p, rounding)) => share_of(*budget) == Some((p@, rounding)),
            None => share_of(*budget) is None,
        },
{
    match &budget.min_available {
        Some(Amount::Count(_)) => None,
        Some(Amount::Share(s)) => match read_percent(s) {
            Some(p) => Some((p, Rounding::Up)),
            None => None,
        },
        None => match &budget.max_unavailable {
            Some(Amount::Share(s)) => match read_percent(s) {
                Some(p) => Some((p, Rounding::Down)),
                None => None,
            },
            _ => None,
        },
    }
}

/// How many of `total` pods a budget wants to be healthy. `share` is the share
/// of the total that was worked out; without one a budget wants all of them.
pub open spec fn desired_healthy(budget: DisruptionBudget, total: int, share: Option<i32>) -> int {
    match budget.min_available {
        Some(Amount::Count(n)) => n as int,
        Some(Amount::Share(_)) => match share {
            Some(n) => n as int,
            None => total,
        },
        None => match budget.max_unavailable {
            Some(Amount::Count(n)) => total - n,
            Some(Amount::Share(_)) => match share {
                Some(n) => total - n,
                None => total,
            },
            None => total,
        },
    }
}

/// How many of `total` pods a budget wants to be healthy, with this share of
/// them worked out.
pub fn compute_pdb_desired_healthy(budget: &DisruptionBudget, total: i32, share: Option<i32>) -> (r:
    i64)
    ensures
        r == desired_healthy(*budget, total as int, share),
{
    match &budget.min_available {
        Some(Amount::Count(n)) => *n as i64,
        Some(Amount::Share(_)) => match share {
            Some(n) => n as i64,
            None => total as i64,
        },
        None => match &budget.max_unavailable {
            Some(Amount::Count(n)) => total as i64 - *n as i64,
            Some(Amount::Share(_)) => match share {
                Some(n) => total as i64 - n as i64,
                None => total as i64,
            },
            None => total as i64,
        },
    }
}

/// How many of the first `n` pods a budget counts; only those that run, if `running`.
pub open spec fn count_pods(
    pods: Seq<Pod>,
    n: nat,
    wanted: Option<Map<Seq<char>, Seq<char>>>,
    running: bool,
) -> nat
    decreases n,
{
    if n == 0 || n > pods.len() {
        0
    } else {
        let p = pods[n - 1]@;
        count_pods(pods, (n - 1) as nat, wanted, running) + (if counted(p.metadata.labels, wanted)
            && (!running || is_running(p)) {
            1nat
        } else {
            0nat
        })
    }
}

/// How many pods a budget counts, and how many of these run.
pub open spec fn total_of(budget: DisruptionBudget, pods: Seq<Pod>) -> nat {
    count_pods(pods, pods.len(), opt_map(budget.match_labels), false)
}

/// How many of the pods that a budget counts run.
pub open spec fn healthy_of(budget: DisruptionBudget, pods: Seq<Pod>) -> nat {
    count_pods(pods, pods.len(), opt_map(budget.match_labels), true)
}

fn count_matching(budget: &DisruptionBudget, pods: &Vec<Pod>, running: bool) -> (r: i32)
    requires
        pods@.len() <= i32::MAX,
    ensures
        r == count_pods(pods@, pods@.len(), opt_map(budget.match_labels), running),
        0 <= r,
{
    let ghost wanted = opt_map(budget.match_labels);
    let mut count: i32 = 0;
    let mut i: usize = 0;
    while i < pods.len()
        invariant
            i <= pods@.len(),
            pods@.len() <= i32::MAX,
            wanted == opt_map(budget.match_labels),
            count == count_pods(pods@, i as nat, wanted, running),
            0 <= count <= i,
        decreases pods.len() - i,
    {
        if pod_matches_pdb_selector(&pods[i], &budget.match_labels) && (!running || is_pod_healthy(
            &pods[i],
        )) {
            count = count + 1;
        }
        i = i + 1;
    }
    count
}

/// How many healthy pods a budget counts.
pub fn compute_pdb_healthy_count(budget: &DisruptionBudget, pods: &Vec<Pod>) -> (r: i32)
    requires
        pods@.len() <= i32::MAX,
    ensures
        r == healthy_of(*budget, pods@),
{
    count_matching(budget, pods, true)
}

/// How many pods a budget counts.
pub fn compute_pdb_total_count(budget: &DisruptionBudget, pods: &Vec<Pod>) -> (r: i32)
    requires
        pods@.len() <= i32::MAX,
    ensures
        r == total_of(*budget, pods@),
{
    count_matching(budget, pods, false)
}

/// How many disruptions a budget allows: its healthy pods less those it wants.
pub open spec fn allowed_by(
    budget: DisruptionBudget,
    total: int,
    healthy: int,
    share: Option<i32>,
) -> int {
    healthy - desired_healthy(budget, total, share)
}

/// How many disruptions a budget allows, with this share of all the pods that
/// it counts worked out.
pub fn compute_pdb_disruptions_allowed(
    budget: &DisruptionBudget,
    pods: &Vec<Pod>,
    share: Option<i32>,
) -> (r: i64)
    requires
        pods@.len() <= i32::MAX,
    ensures
        r == allowed_by(
            *budget,
            total_of(*budget, pods@) as int,
            healthy_of(*budget, pods@) as int,
            share,
        ),
{
    let total: i32 = count_matching(budget, pods, false);
    let healthy: i32 = count_matching(budget, pods, true);
    disruptions_left(budget, total, healthy, share)
}

fn disruptions_left(budget: &DisruptionBudget, total: i32, healthy: i32, share: Option<i32>) -> (r:
    i64)
    ensures
        r == allowed_by(*budget, total as int, healthy as int, share),
{
    healthy as i64 - compute_pdb_desired_healthy(budget, total, share)
}

/// The refusal that a budget makes.
pub struct TooManyRequests {
    pub message: String,
    pub detail: String,
    pub retry_after_seconds: u64,
}

/// What is said of a budget that would be violated.
pub open spec fn budget_detail(name: Seq<char>, desired: int, healthy: int) -> Seq<char> {
    "The disruption budget "@ + name + " needs "@ + signed_decimal(desired) + " healthy pods and has "@
        + signed_decimal(healthy) + " currently"@
}

/// Whether `r` is the refusal of a budget. `healthy` is how many healthy pods it
/// counts, also as the total of which it wants a part.
pub open spec fn refused_by(
    r: TooManyRequests,
    budget: DisruptionBudget,
    healthy: int,
    share: Option<i32>,
) -> bool {
    &&& r.message@ == "Cannot evict pod as it would violate the pod's disruption budget."@
    &&& r.detail@ == budget_detail(
        budget.name@,
        desired_healthy(budget, healthy, share),
        healthy,
    )
    &&& r.retry_after_seconds == 10
}

/// Refuses an eviction that a budget does not allow. `healthy` is how many
/// healthy pods the budget counts, `share` the share of them that was worked out.
pub fn refuse_by_budget(budget: &DisruptionBudget, healthy: i32, share: Option<i32>) -> (r:
    TooManyRequests)
    ensures
        refused_by(r, *budget, healthy as int, share),
{
    let desired: i64 = compute_pdb_desired_healthy(budget, healthy, share);
    let mut detail: String = "The disruption budget ".to_owned();
    detail.append(budget.name.as_str());
    detail.append(" needs ");
    detail.append(i64_text(desired).as_str());
    detail.append(" healthy pods and has ");
    detail.append(i64_text(healthy as i64).as_str());
    detail.append(" currently");
    TooManyRequests {
        message: "Cannot evict pod as it would violate the pod's disruption budget.".to_owned(),
        detail,
        retry_after_seconds: 10,
    }
}

/// What a budget knows of disruptions.
pub struct BudgetStatus {
    pub current_healthy: i32,
    pub desired_healthy: i32,
    pub disruptions_allowed: i64,
    pub expected_pods: i32,
    /// When each pod was disrupted.
    pub disrupted_pods: Option<StringMap>,
}

/// The disrupted pods of an optional status.
pub open spec fn disrupted_in(s: Option<BudgetStatus>) -> Map<Seq<char>, Seq<char>> {
    match s {
        Some(x) => match x.disrupted_pods {
            Some(m) => m@,
            None => Map::empty(),
        },
        None => Map::empty(),
    }
}

/// Whether `after` is `status` with the disruption of a pod booked: one fewer
/// is allowed than before.
pub open spec fn disruption_booked(
    status: Option<BudgetStatus>,
    pod_name: Seq<char>,
    now: Seq<char>,
    allowed: i64,
    after: BudgetStatus,
) -> bool {
    &&& after.disruptions_allowed == allowed - 1
    &&& opt_map(after.disrupted_pods) == Some(disrupted_in(status).insert(pod_name, now))
    &&& after.current_healthy == (match status {
        Some(s) => s.current_healthy,
        None => 0,
    })
    &&& after.desired_healthy == (match status {
        Some(s) => s.desired_healthy,
        None => 0,
    })
    &&& after.expected_pods == (match status {
        Some(s) => s.expected_pods,
        None => 0,
    })
}

/// Books the disruption of a pod: one fewer is allowed from now on.
pub fn record_disruption(
    status: Option<BudgetStatus>,
    pod_name: &str,
    now: String,
    allowed: i64,
) -> (r: BudgetStatus)
    requires
        allowed > i64::MIN,
    ensures
        disruption_booked(status, pod_name@, now@, allowed, r),
{
    let mut s: BudgetStatus = match status {
        Some(s) => s,
        None => BudgetStatus {
            current_healthy: 0,
            desired_healthy: 0,
            disruptions_allowed: 0,
            expected_pods: 0,
            disrupted_pods: None,
        },
    };
    let mut pods: StringMap = match s.disrupted_pods {
        Some(m) => m,
        None => StringMap::new(),
    };
    pods.insert(pod_name.to_owned(), now);
    s.disrupted_pods = Some(pods);
    s.disruptions_allowed = allowed - 1;
    s
}

/// The condition that marks a pod to be evicted.
pub open spec fn disruption_target(now: Seq<char>) -> PodConditionView {
    PodConditionView {
        condition_type: "DisruptionTarget"@,
        status: "True"@,
        reason: Some("EvictionByEvictionAPI"@),
        message: Some("Eviction API: evicting"@),
        last_transition_time: Some(now),
    }
}

/// The first condition from `i` on of this type.
pub open spec fn condition_from(cs: Seq<PodConditionView>, kind: Seq<char>, i: int) -> Option<int>
    decreases cs.len() - i,
{
    if i < 0 || i >= cs.len() {
        None
    } else if cs[i].condition_type == kind {
        Some(i)
    } else {
        condition_from(cs, kind, i + 1)
    }
}

/// The conditions of a pod.
pub open spec fn conditions_of(p: PodView) -> Seq<PodConditionView> {
    match p.status {
        Some(s) => match s.conditions {
            Some(c) => c,
            None => Seq::empty(),
        },
        None => Seq::empty(),
    }
}

/// The conditions of a pod with the one that marks it to be evicted; nothing
/// where it is marked already.
pub open spec fn marked_conditions(cs: Seq<PodConditionView>, now: Seq<char>) -> Option<
    Seq<PodConditionView>,
> {
    let mark = disruption_target(now);
    match condition_from(cs, "DisruptionTarget"@, 0) {
        Some(i) => if cs[i].status == mark.status && cs[i].reason == mark.reason {
            None
        } else {
            Some(
                cs.update(i, PodConditionView { condition_type: cs[i].condition_type, ..mark }),
            )
        },
        None => Some(cs.push(mark)),
    }
}

fn find_condition(cs: &Vec<PodCondition>, kind: &str) -> (r: Option<usize>)
    ensures
        match r {
            Some(i) => i < cs@.len() && condition_from(condition_views(cs@), kind@, 0) == Some(
                i as int,
            ),
            None => condition_from(condition_views(cs@), kind@, 0) is None,
        },
{
    let ghost all = condition_views(cs@);
    let mut i: usize = 0;
    while i < cs.len()
        invariant
            i <= cs@.len(),
            all == condition_views(cs@),
            condition_from(all, kind@, 0) == condition_from(all, kind@, i as int),
        decreases cs.len() - i,
    {
        if same(cs[i].condition_type.as_str(), kind) {
            return Some(i);
        }
        i = i + 1;
    }
    None
}

/// Marks a pod to be evicted. Nothing comes back where it is marked already,
/// so that nothing has to be written.
pub fn mark_disruption_target(pod: Pod, now: String) -> (r: Option<Pod>)
    ensures
        match marked_conditions(conditions_of(pod@), now@) {
            Some(c) => r matches Some(p) && p@ == (PodView {
                status: Some(
                    PodStatusView { conditions: Some(c), ..status_or_empty(pod@.status) },
                ),
                ..pod@
            }),
            None => r is None,
        },
{
    let ghost before = pod@;
    let ghost time = now@;
    let mut out: Pod = pod;
    let mut status: PodStatus = match out.status {
        Some(s) => s,
        None => PodStatus::empty(),
    };
    let mut list: Vec<PodCondition> = match status.conditions {
        Some(c) => c,
        None => Vec::new(),
    };
    let ghost cs = condition_views(list@);
    assert(cs =~= conditions_of(before));
    let mark: PodCondition = PodCondition {
        condition_type: "DisruptionTarget".to_owned(),
        status: "True".to_owned(),
        reason: Some("EvictionByEvictionAPI".to_owned()),
        message: Some("Eviction API: evicting".to_owned()),
        last_transition_time: Some(now),
    };
    match find_condition(&list, "DisruptionTarget") {
        Some(i) => {
            assert(cs[i as int] == list@[i as int]@);
            let same_reason: bool = match &list[i].reason {
                Some(x) => same(x.as_str(), "EvictionByEvictionAPI"),
                None => false,
            };
            if same(list[i].status.as_str(), "True") && same_reason {
                return None;
            }
            let kind: String = list[i].condition_type.clone();
            let next: PodCondition = PodCondition { condition_type: kind, ..mark };
            list.set(i, next);
            assert(condition_views(list@) =~= cs.update(i as int, next@));
        },
        None => {
            list.push(mark);
            assert(condition_views(list@) =~= cs.push(mark@));
        },
    }
    status.conditions = Some(list);
    out.status = Some(status);
    Some(out)
}

/// The first budget from `i` on that selects the pod.
pub open spec fn budget_from(budgets: Seq<DisruptionBudget>, i: int) -> Option<int>
    decreases budgets.len() - i,
{
    if i < 0 || i >= budgets.len() {
        None
    } else if budgets[i].selects_pod {
        Some(i)
    } else {
        budget_from(budgets, i + 1)
    }
}

/// The first budget from `from` on that selects the pod.
pub fn next_budget(budgets: &Vec<DisruptionBudget>, from: usize) -> (r: Option<usize>)
    ensures
        match r {
            Some(i) => from <= i < budgets@.len() && budget_from(budgets@, from as int) == Some(
                i as int,
            ),
            None => budget_from(budgets@, from as int) is None,
        },
{
    let mut i: usize = from;
    while i < budgets.len()
        invariant
            from <= i,
            budget_from(budgets@, from as int) == budget_from(budgets@, i as int),
        decreases budgets.len() - i,
    {
        if budgets[i].selects_pod {
            return Some(i);
        }
        i = i + 1;
    }
    None
}

/// Where an eviction stands, and what it waits for.
pub enum Evicting {
    /// The authorizer's answer. The request is read already.
    Authorizing(Result<EvictionRequest, Error>),
    /// The pod.
    ReadingPod(EvictionRequest),
    /// The disruption budgets.
    ListingBudgets(EvictionRequest),
    /// The pods that budget `index` counts.
    CountingPods { request: EvictionRequest, budgets: Vec<DisruptionBudget>, index: usize },
    /// The share of `total` pods that budget `index` counts with: `percent` of
    /// them, rounded.
    WorkingOut {
        request: EvictionRequest,
        budgets: Vec<DisruptionBudget>,
        index: usize,
        total: i32,
        healthy: i32,
        percent: String,
        rounding: Rounding,
    },
    /// The same pods once more, for the refusal by budget `index`.
    CountingHealthy { budgets: Vec<DisruptionBudget>, index: usize },
    /// The share of `healthy` pods, for the refusal by budget `index`.
    WorkingOutRefusal {
        budgets: Vec<DisruptionBudget>,
        index: usize,
        healthy: i32,
        percent: String,
        rounding: Rounding,
    },
    /// The disruption to be booked on budget `index`, which allowed `allowed`.
    Recording {
        request: EvictionRequest,
        budgets: Vec<DisruptionBudget>,
        index: usize,
        allowed: i64,
    },
    /// The pod, to be marked.
    ReadingForMark,
    /// The marked pod to be written.
    Marking(Pod),
    /// The pod, to be deleted.
    Rereading,
    /// The pod to be deleted.
    Deleting,
    Done,
    Refused(TooManyRequests),
    Failed(Error),
}

/// An answer to what an eviction waits for.
pub enum EvictionReply {
    Decided(Decision),
    Budgets(Vec<DisruptionBudget>),
    Pods(Vec<Pod>),
    /// A share of pods; nothing where the percentage is no number.
    Share(Option<i32>),
    Recorded,
    /// The pod, and the time at which it was read.
    Pod(Pod, String),
    Written,
    Deleted,
    Error(Error),
}

/// Where an eviction goes when no budget is left that could refuse it.
pub open spec fn after_budgets(request: EvictionRequest) -> Evicting {
    if request.dry_run {
        Evicting::Done
    } else {
        Evicting::ReadingForMark
    }
}

/// Where an eviction goes when the budgets before `from` have allowed it.
pub open spec fn at_budget(
    request: EvictionRequest,
    budgets: Vec<DisruptionBudget>,
    from: int,
) -> Evicting {
    match budget_from(budgets@, from) {
        Some(i) => Evicting::CountingPods { request, budgets, index: i as usize },
        None => after_budgets(request),
    }
}

/// Whether `next` follows once the pods that budget `index` counts are known.
pub open spec fn counts(
    request: EvictionRequest,
    budgets: Vec<DisruptionBudget>,
    index: usize,
    pods: Seq<Pod>,
    next: Evicting,
) -> bool {
    let b = budgets@[index as int];
    let total = total_of(b, pods) as int;
    let healthy = healthy_of(b, pods) as int;
    match share_of(b) {
        Some((percent, rounding)) => next matches Evicting::WorkingOut {
            request: r,
            budgets: bs,
            index: i,
            total: t,
            healthy: h,
            percent: p,
            rounding: up,
        } && r == request && bs == budgets && i == index && t == total && h == healthy && p@
            == percent && up == rounding,
        None => weighs(request, budgets, index, allowed_by(b, total, healthy, None), next),
    }
}

/// Whether `next` follows once the pods are known for the refusal by budget
/// `index`.
pub open spec fn counts_for_refusal(
    budgets: Vec<DisruptionBudget>,
    index: usize,
    pods: Seq<Pod>,
    next: Evicting,
) -> bool {
    let b = budgets@[index as int];
    let healthy = healthy_of(b, pods) as int;
    match share_of(b) {
        Some((percent, rounding)) => next matches Evicting::WorkingOutRefusal {
            budgets: bs,
            index: i,
            healthy: h,
            percent: p,
            rounding: up,
        } && bs == budgets && i == index && h == healthy && p@ == percent && up == rounding,
        None => next matches Evicting::Refused(r) && refused_by(r, b, healthy, None),
    }
}

/// Whether `next` follows once it is known what budget `index` allows.
pub open spec fn weighs(
    request: EvictionRequest,
    budgets: Vec<DisruptionBudget>,
    index: usize,
    allowed: int,
    next: Evicting,
) -> bool {
    if allowed <= 0 {
        next == Evicting::CountingHealthy { budgets, index }
    } else if request.dry_run {
        next == at_budget(request, budgets, index + 1)
    } else {
        next == Evicting::Recording { request, budgets, index, allowed: allowed as i64 }
    }
}

/// Whether `next` follows `at` on `reply`. Budgets or pods that cannot be listed
/// count as none, and a disruption that cannot be booked holds nothing up; any
/// other error ends the eviction. An answer that was not asked for changes
/// nothing.
pub open spec fn evicts(at: Evicting, reply: EvictionReply, next: Evicting) -> bool {
    match (at, reply) {
        (Evicting::Done, _) => next == at,
        (Evicting::Refused(r), _) => next == at,
        (Evicting::Failed(e), _) => next == at,
        (Evicting::ListingBudgets(r), EvictionReply::Error(_)) => next == after_budgets(r),
        (Evicting::CountingPods { request, budgets, index }, EvictionReply::Error(_)) => counts(
            request,
            budgets,
            index,
            Seq::empty(),
            next,
        ),
        (Evicting::CountingHealthy { budgets, index }, EvictionReply::Error(
            _,
        )) => counts_for_refusal(budgets, index, Seq::empty(), next),
        (Evicting::Recording { request, budgets, index, allowed }, EvictionReply::Error(_)) => next
            == at_budget(request, budgets, index + 1),
        (_, EvictionReply::Error(e)) => next == Evicting::Failed(e),
        (Evicting::Authorizing(request), EvictionReply::Decided(d)) => match (d, request) {
            (Decision::Deny(reason), _) => next == Evicting::Failed(Error::Forbidden(reason)),
            (Decision::Allow, Err(e)) => next == Evicting::Failed(e),
            (Decision::Allow, Ok(r)) => next == Evicting::ReadingPod(r),
        },
        (Evicting::ReadingPod(r), EvictionReply::Pod(p, now)) => match uid_refusal(
            opt_text(r.uid),
            p.metadata.uid@,
        ) {
            Some(why) => next matches Evicting::Failed(e) && e@ == why,
            None => next == if ignores_budgets(p@) {
                after_budgets(r)
            } else {
                Evicting::ListingBudgets(r)
            },
        },
        (Evicting::ListingBudgets(r), EvictionReply::Budgets(b)) => next == at_budget(r, b, 0),
        (Evicting::CountingPods { request, budgets, index }, EvictionReply::Pods(pods)) => counts(
            request,
            budgets,
            index,
            pods@,
            next,
        ),
        (
            Evicting::WorkingOut { request, budgets, index, total, healthy, percent, rounding },
            EvictionReply::Share(share),
        ) => weighs(
            request,
            budgets,
            index,
            allowed_by(budgets@[index as int], total as int, healthy as int, share),
            next,
        ),
        (Evicting::CountingHealthy { budgets, index }, EvictionReply::Pods(
            pods,
        )) => counts_for_refusal(budgets, index, pods@, next),
        (
            Evicting::WorkingOutRefusal { budgets, index, healthy, percent, rounding },
            EvictionReply::Share(share),
        ) => next matches Evicting::Refused(r) && refused_by(
            r,
            budgets@[index as int],
            healthy as int,
            share,
        ),
        (
            Evicting::Recording { request, budgets, index, allowed },
            EvictionReply::Recorded,
        ) => next == at_budget(request, budgets, index + 1),
        (Evicting::ReadingForMark, EvictionReply::Pod(p, now)) => match marked_conditions(
            conditions_of(p@),
            now@,
        ) {
            Some(c) => next matches Evicting::Marking(q) && q@ == (PodView {
                status: Some(PodStatusView { conditions: Some(c), ..status_or_empty(p@.status) }),
                ..p@
            }),
            None => next == Evicting::Rereading,
        },
        (Evicting::Marking(p), EvictionReply::Written) => next == Evicting::Rereading,
        (Evicting::Rereading, EvictionReply::Pod(p, now)) => next == Evicting::Deleting,
        (Evicting::Deleting, EvictionReply::Deleted) => next == Evicting::Done,
        _ => next == at,
    }
}

/// Whether a state holds together: a budget it speaks of is there.
pub open spec fn eviction_ok(at: Evicting) -> bool {
    match at {
        Evicting::CountingPods { request, budgets, index } => index < budgets@.len(),
        Evicting::WorkingOut { request, budgets, index, .. } => index < budgets@.len(),
        Evicting::CountingHealthy { budgets, index } => index < budgets@.len(),
        Evicting::WorkingOutRefusal { budgets, index, .. } => index < budgets@.len(),
        Evicting::Recording { request, budgets, index, allowed } => index < budgets@.len(),
        _ => true,
    }
}

/// Goes on with the budgets from `from` on.
fn go_to_budget(request: EvictionRequest, budgets: Vec<DisruptionBudget>, from: usize) -> (next:
    Evicting)
    ensures
        next == at_budget(request, budgets, from as int),
        eviction_ok(next),
{
    match next_budget(&budgets, from) {
        Some(index) => Evicting::CountingPods { request, budgets, index },
        None => {
            if request.dry_run {
                Evicting::Done
            } else {
                Evicting::ReadingForMark
            }
        },
    }
}

fn weigh(
    request: EvictionRequest,
    budgets: Vec<DisruptionBudget>,
    index: usize,
    allowed: i64,
) -> (next: Evicting)
    requires
        index < budgets@.len(),
    ensures
        weighs(request, budgets, index, allowed as int, next),
        eviction_ok(next),
{
    if allowed <= 0 {
        Evicting::CountingHealthy { budgets, index }
    } else if request.dry_run {
        let count: usize = budgets.len();
        assert(index < count);
        go_to_budget(request, budgets, index + 1)
    } else {
        Evicting::Recording { request, budgets, index, allowed }
    }
}

fn count(
    request: EvictionRequest,
    budgets: Vec<DisruptionBudget>,
    index: usize,
    pods: &Vec<Pod>,
) -> (next: Evicting)
    requires
        index < budgets@.len(),
        pods@.len() <= i32::MAX,
    ensures
        counts(request, budgets, index, pods@, next),
        eviction_ok(next),
{
    let total: i32 = compute_pdb_total_count(&budgets[index], pods);
    let healthy: i32 = compute_pdb_healthy_count(&budgets[index], pods);
    match share_to_work_out(&budgets[index]) {
        Some((percent, rounding)) => Evicting::WorkingOut {
            request,
            budgets,
            index,
            total,
            healthy,
            percent,
            rounding,
        },
        None => {
            let allowed: i64 = disruptions_left(&budgets[index], total, healthy, None);
            weigh(request, budgets, index, allowed)
        },
    }
}

fn count_for_refusal(budgets: Vec<DisruptionBudget>, index: usize, pods: &Vec<Pod>) -> (next:
    Evicting)
    requires
        index < budgets@.len(),
        pods@.len() <= i32::MAX,
    ensures
        counts_for_refusal(budgets, index, pods@, next),
        eviction_ok(next),
{
    let healthy: i32 = compute_pdb_healthy_count(&budgets[index], pods);
    match share_to_work_out(&budgets[index]) {
        Some((percent, rounding)) => Evicting::WorkingOutRefusal {
            budgets,
            index,
            healthy,
            percent,
            rounding,
        },
        None => Evicting::Refused(refuse_by_budget(&budgets[index], healthy, None)),
    }
}

/// Takes one answer into account.
pub fn eviction_step(at: Evicting, reply: EvictionReply) -> (next: Evicting)
    requires
        eviction_ok(at),
        reply matches EvictionReply::Pods(pods) ==> pods@.len() <= i32::MAX,
    ensures
        evicts(at, reply, next),
        eviction_ok(next),
{
    match at {
        Evicting::Done => {
            return Evicting::Done;
        },
        Evicting::Refused(r) => {
            return Evicting::Refused(r);
        },
        Evicting::Failed(e) => {
            return Evicting::Failed(e);
        },
        _ => {},
    }
    match (at, reply) {
        (Evicting::ListingBudgets(r), EvictionReply::Error(_)) => {
            if r.dry_run {
                Evicting::Done
            } else {
                Evicting::ReadingForMark
            }
        },
        (Evicting::CountingPods { request, budgets, index }, EvictionReply::Error(_)) => {
            let none: Vec<Pod> = Vec::new();
            assert(none@ =~= Seq::<Pod>::empty());
            count(request, budgets, index, &none)
        },
        (Evicting::CountingHealthy { budgets, index }, EvictionReply::Error(_)) => {
            let none: Vec<Pod> = Vec::new();
            assert(none@ =~= Seq::<Pod>::empty());
            count_for_refusal(budgets, index, &none)
        },
        (Evicting::Recording { request, budgets, index, .. }, EvictionReply::Error(_)) => {
            let count: usize = budgets.len();
            assert(index < count);
            go_to_budget(request, budgets, index + 1)
        },
        (_, EvictionReply::Error(e)) => Evicting::Failed(e),
        (Evicting::Authorizing(request), EvictionReply::Decided(d)) => match d {
            Decision::Deny(reason) => Evicting::Failed(Error::Forbidden(reason)),
            Decision::Allow => match request {
                Err(e) => Evicting::Failed(e),
                Ok(r) => Evicting::ReadingPod(r),
            },
        },
        (Evicting::ReadingPod(r), EvictionReply::Pod(p, _)) => {
            if let Err(e) = check_uid(&r.uid, p.metadata.uid.as_str()) {
                return Evicting::Failed(e);
            }
            if pod_can_ignore_pdb(&p) {
                if r.dry_run {
                    Evicting::Done
                } else {
                    Evicting::ReadingForMark
                }
            } else {
                Evicting::ListingBudgets(r)
            }
        },
        (Evicting::ListingBudgets(r), EvictionReply::Budgets(b)) => go_to_budget(r, b, 0),
        (Evicting::CountingPods { request, budgets, index }, EvictionReply::Pods(pods)) => count(
            request,
            budgets,
            index,
            &pods,
        ),
        (
            Evicting::WorkingOut { request, budgets, index, total, healthy, .. },
            EvictionReply::Share(share),
        ) => {
            let allowed: i64 = disruptions_left(&budgets[index], total, healthy, share);
            weigh(request, budgets, index, allowed)
        },
        (
            Evicting::CountingHealthy { budgets, index },
            EvictionReply::Pods(pods),
        ) => count_for_refusal(budgets, index, &pods),
        (
            Evicting::WorkingOutRefusal { budgets, index, healthy, .. },
            EvictionReply::Share(share),
        ) => Evicting::Refused(refuse_by_budget(&budgets[index], healthy, share)),
        (
            Evicting::Recording { request, budgets, index, allowed: _ },
            EvictionReply::Recorded,
        ) => {
            let count: usize = budgets.len();
            assert(index < count);
            go_to_budget(request, budgets, index + 1)
        },
        (Evicting::ReadingForMark, EvictionReply::Pod(p, now)) => match mark_disruption_target(
            p,
            now,
        ) {
            Some(marked) => Evicting::Marking(marked),
            None => Evicting::Rereading,
        },
        (Evicting::Marking(_), EvictionReply::Written) => Evicting::Rereading,
        (Evicting::Rereading, EvictionReply::Pod(_, _)) => Evicting::Deleting,
        (Evicting::Deleting, EvictionReply::Deleted) => Evicting::Done,
        (other, _) => other,
    }
}

/// Whether an eviction is a dry run that has written nothing.
pub open spec fn only_looks(at: Evicting) -> bool {
    match at {
        Evicting::Authorizing(r) => r matches Ok(x) ==> x.dry_run,
        Evicting::ReadingPod(r) => r.dry_run,
        Evicting::ListingBudgets(r) => r.dry_run,
        Evicting::CountingPods { request, budgets, index } => request.dry_run,
        Evicting::WorkingOut { request, .. } => request.dry_run,
        Evicting::CountingHealthy { budgets, index } => true,
        Evicting::WorkingOutRefusal { .. } => true,
        Evicting::Done => true,
        Evicting::Refused(r) => true,
        Evicting::Failed(e) => true,
        _ => false,
    }
}

/// A dry run never comes to write a budget, to mark the pod or to delete it.
pub proof fn law_dry_run_only_looks(at: Evicting, reply: EvictionReply, next: Evicting)
    requires
        only_looks(at),
        evicts(at, reply, next),
    ensures
        only_looks(next),
{
}

/// A budget that allows no disruption ends the eviction with a refusal, or with
/// a failure: nothing else can follow.
pub proof fn law_exhausted_budget_refuses(at: Evicting, reply: EvictionReply, next: Evicting)
    requires
        at is CountingHealthy || at is WorkingOutRefusal,
        evicts(at, reply, next),
    ensures
        next is CountingHealthy || next is WorkingOutRefusal || next is Refused || next is Failed,
{
}

/// An eviction gets past a budget only where that allows a disruption: with as
/// many healthy pods left as it wants, and one more.
pub proof fn law_budget_keeps_its_healthy_pods(
    request: EvictionRequest,
    budgets: Vec<DisruptionBudget>,
    index: usize,
    total: i32,
    healthy: i32,
    share: Option<i32>,
    next: Evicting,
)
    requires
        index < budgets@.len(),
        weighs(
            request,
            budgets,
            index,
            allowed_by(budgets@[index as int], total as int, healthy as int, share),
            next,
        ),
        !(next is CountingHealthy),
    ensures
        healthy - 1 >= desired_healthy(budgets@[index as int], total as int, share),
{
}

/// A pod is marked to be evicted once: marking it again writes nothing.
pub proof fn law_marked_once(cs: Seq<PodConditionView>, now: Seq<char>, later: Seq<char>)
    requires
        marked_conditions(cs, now) is Some,
    ensures
        marked_conditions(marked_conditions(cs, now)->0, later) is None,
{
    let marked = marked_conditions(cs, now)->0;
    lemma_condition_from(cs, "DisruptionTarget"@, 0);
    match condition_from(cs, "DisruptionTarget"@, 0) {
        Some(i) => {
            lemma_condition_at(marked, "DisruptionTarget"@, 0, i);
        },
        None => {
            lemma_condition_at(marked, "DisruptionTarget"@, 0, cs.len() as int);
        },
    }
}

proof fn lemma_condition_from(cs: Seq<PodConditionView>, kind: Seq<char>, i: int)
    requires
        0 <= i,
    ensures
        match condition_from(cs, kind, i) {
            Some(k) => i <= k < cs.len() && cs[k].condition_type == kind && forall|j: int|
                i <= j < k ==> (#[trigger] cs[j]).condition_type != kind,
            None => forall|j: int| i <= j < cs.len() ==> (#[trigger] cs[j]).condition_type != kind,
        },
    decreases cs.len() - i,
{
    if i < cs.len() && cs[i].condition_type != kind {
        lemma_condition_from(cs, kind, i + 1);
    }
}

proof fn lemma_condition_at(cs: Seq<PodConditionView>, kind: Seq<char>, i: int, k: int)
    requires
        0 <= i <= k < cs.len(),
        cs[k].condition_type == kind,
        forall|j: int| i <= j < k ==> (#[trigger] cs[j]).condition_type != kind,
    ensures
        condition_from(cs, kind, i) == Some(k),
    decreases k - i,
{
    if i < k {
        assert(cs[i].condition_type != kind);
        lemma_condition_at(cs, kind, i + 1, k);
    }
}

} // verus!
