//! The policy strategy: expiry candidates from cluster-scoped policies.
//!
//! Each policy selects workloads by labels and declares a lifetime limit.
//! For a running workload, the first policy whose selector it satisfies —
//! in the order the policies were listed — supplies the limit; later
//! policies are not consulted. The workload is emitted when its effective
//! start time plus that limit lies before the current time.

use vstd::prelude::*;

use crate::clock::{effective_start_spec, effective_start_time, lifetime_is_over, lifetime_over_spec};
use crate::model::{cands_view, is_running_spec, pod_is_running, workload_id, Candidate, CandidateView, Workload};
use crate::pll::{selector_matches, selector_matches_spec, PodLifetimeLimitSpec};

verus! {

/// The limit of the first policy at index `i` or later whose selector the
/// labels satisfy, if any does.
pub open spec fn first_match_from(
    policies: Seq<PodLifetimeLimitSpec>,
    labels: Seq<(String, String)>,
    i: int,
) -> Option<u64>
    decreases policies.len() - i,
{
    if i < 0 || i >= policies.len() {
        None
    } else if selector_matches_spec(policies[i].selector.match_labels@, labels) {
        Some(policies[i].max_lifetime)
    } else {
        first_match_from(policies, labels, i + 1)
    }
}

/// The limit the policies impose on a workload with these labels: that of
/// the first matching policy, if any matches.
pub open spec fn first_matching_limit(
    policies: Seq<PodLifetimeLimitSpec>,
    labels: Seq<(String, String)>,
) -> Option<u64> {
    first_match_from(policies, labels, 0)
}

/// Whether the policies declare a workload expired at `now`: some policy
/// matches it, and its earliest container start plus the first matching
/// policy's limit lies before `now`. The lifecycle phase plays no part
/// here; the strategy filters on it separately.
pub open spec fn policy_pod_expired(
    w: Workload,
    policies: Seq<PodLifetimeLimitSpec>,
    now: i64,
) -> bool {
    match first_matching_limit(policies, w.labels@) {
        Some(limit) => match effective_start_spec(w.starts@) {
            Some(start) => lifetime_over_spec(start, limit, now),
            None => false,
        },
        None => false,
    }
}

/// The candidates the policy strategy emits from `pods` at time `now`, in
/// order: the running workloads that the policies declare expired.
pub open spec fn policy_candidates_spec(
    pods: Seq<Workload>,
    policies: Seq<PodLifetimeLimitSpec>,
    now: i64,
) -> Seq<CandidateView>
    decreases pods.len(),
{
    if pods.len() == 0 {
        Seq::empty()
    } else {
        let rest = policy_candidates_spec(pods.drop_last(), policies, now);
        if is_running_spec(pods.last()) && policy_pod_expired(pods.last(), policies, now) {
            rest.push(workload_id(pods.last()))
        } else {
            rest
        }
    }
}

/// Every candidate the policy strategy emits arises from a listed workload
/// that is in the `Running` phase, has an effective start time, and that
/// the policies declare expired. In particular, a workload that is not
/// running, or none of whose containers has started, is never emitted.
pub proof fn lemma_policy_candidates_sound(
    pods: Seq<Workload>,
    policies: Seq<PodLifetimeLimitSpec>,
    now: i64,
)
    ensures
        forall|c: CandidateView| #[trigger] policy_candidates_spec(pods, policies, now).contains(c)
            ==> exists|i: int|
                0 <= i < pods.len() && is_running_spec(#[trigger] pods[i]) && policy_pod_expired(
                    pods[i],
                    policies,
                    now,
                ) && effective_start_spec(pods[i].starts@) is Some && c == workload_id(pods[i]),
    decreases pods.len(),
{
    if pods.len() > 0 {
        let prev = pods.drop_last();
        lemma_policy_candidates_sound(prev, policies, now);
        let rest = policy_candidates_spec(prev, policies, now);
        let full = policy_candidates_spec(pods, policies, now);
        assert forall|c: CandidateView| #[trigger] full.contains(c) implies exists|i: int|
            0 <= i < pods.len() && is_running_spec(#[trigger] pods[i]) && policy_pod_expired(
                pods[i],
                policies,
                now,
            ) && effective_start_spec(pods[i].starts@) is Some && c == workload_id(pods[i]) by {
            let k = choose|k: int| 0 <= k < full.len() && full[k] == c;
            if k < rest.len() {
                assert(rest[k] == c);
                assert(rest.contains(c));
                let i = choose|i: int|
                    0 <= i < prev.len() && is_running_spec(#[trigger] prev[i])
                        && policy_pod_expired(prev[i], policies, now) && effective_start_spec(
                        prev[i].starts@,
                    ) is Some && c == workload_id(prev[i]);
                assert(pods[i] == prev[i]);
            } else {
                assert(c == workload_id(pods.last()));
                assert(pods[pods.len() - 1] == pods.last());
            }
        }
    }
}

/// The other direction: a listed workload that is running and that the
/// policies declare expired is emitted. With soundness this makes the
/// policies' verdict exact: for a running workload matched by some policy,
/// `start + limit < now` under the first matching policy's limit alone
/// determines inclusion.
pub proof fn lemma_policy_candidates_complete(
    pods: Seq<Workload>,
    policies: Seq<PodLifetimeLimitSpec>,
    now: i64,
    i: int,
)
    requires
        0 <= i < pods.len(),
        is_running_spec(pods[i]),
        policy_pod_expired(pods[i], policies, now),
    ensures
        policy_candidates_spec(pods, policies, now).contains(workload_id(pods[i])),
    decreases pods.len(),
{
    let full = policy_candidates_spec(pods, policies, now);
    let rest = policy_candidates_spec(pods.drop_last(), policies, now);
    if i == pods.len() - 1 {
        assert(pods.last() == pods[i]);
        assert(full[full.len() - 1] == workload_id(pods[i]));
    } else {
        assert(pods.drop_last()[i] == pods[i]);
        lemma_policy_candidates_complete(pods.drop_last(), policies, now, i);
        let k = choose|k: int| 0 <= k < rest.len() && rest[k] == workload_id(pods[i]);
        assert(full[k] == workload_id(pods[i]));
    }
}

/// Finds the limit of the first policy whose selector `pod` satisfies.
pub fn find_first_matching_limit(
    policies: &Vec<PodLifetimeLimitSpec>,
    pod: &Workload,
) -> (r: Option<u64>)
    ensures
        r == first_matching_limit(policies@, pod.labels@),
{
    let mut k: usize = 0;
    while k < policies.len()
        invariant
            k <= policies.len(),
            first_matching_limit(policies@, pod.labels@) == first_match_from(
                policies@,
                pod.labels@,
                k as int,
            ),
        decreases policies.len() - k,
    {
        if selector_matches(&policies[k].selector, pod) {
            return Some(policies[k].max_lifetime);
        }
        k = k + 1;
    }
    None
}

/// The policy strategy: emits, in order, the running workloads of `pods`
/// that the policies declare expired at `now`.
pub fn find_expired_pods_by_crd(
    pods: &Vec<Workload>,
    policies: &Vec<PodLifetimeLimitSpec>,
    now: i64,
) -> (r: Vec<Candidate>)
    ensures
        cands_view(r@) == policy_candidates_spec(pods@, policies@, now),
{
    let mut out: Vec<Candidate> = Vec::new();
    let mut i: usize = 0;
    proof {
        assert(cands_view(out@) =~= Seq::<CandidateView>::empty());
    }
    while i < pods.len()
        invariant
            i <= pods.len(),
            cands_view(out@) == policy_candidates_spec(pods@.take(i as int), policies@, now),
        decreases pods.len() - i,
    {
        let pod = &pods[i];
        proof {
            assert(pods@.take(i + 1).drop_last() =~= pods@.take(i as int));
            assert(pods@.take(i + 1).last() == pods@[i as int]);
        }
        if pod_is_running(pod) {
            let expired: bool = match find_first_matching_limit(policies, pod) {
                Some(limit) => match effective_start_time(&pod.starts) {
                    Some(start) => lifetime_is_over(start, limit, now),
                    None => false,
                },
                None => false,
            };
            if expired {
                let c = Candidate { name: pod.name.clone(), namespace: pod.namespace.clone() };
                proof {
                    assert(c@ =~= workload_id(pods@[i as int]));
                    assert(cands_view(out@.push(c)) =~= cands_view(out@).push(c@));
                }
                out.push(c);
            }
        }
        i = i + 1;
    }
    proof {
        assert(pods@.take(pods@.len() as int) =~= pods@);
    }
    out
}

} // verus!
