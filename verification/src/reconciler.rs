//! One reconciliation cycle: merge, deduplicate, and tally.
//!
//! A cycle takes the cluster as it was observed — or the fact that observing
//! it failed — and plans the deletions: the label strategy's candidates
//! followed by the policy strategy's, with every later duplicate of a
//! (name, namespace) pair dropped, so each workload is deleted at most once.
//! When discovery failed, the plan is empty and the cycle carries the
//! failure; the loop around the library sleeps and retries, so no error is
//! fatal. The outcome of each delete request is folded into a summary, a
//! not-found answer counting as success: the workload is already gone.

use vstd::prelude::*;

use crate::clock::{effective_start_spec, unix_now};
use crate::labels::{events_view, find_expired_pods_by_label, label_candidates_spec, label_events_spec, lemma_label_candidates_sound, LabelLogEvent};
use crate::model::{cands_view, is_running_spec, workload_id, Candidate, CandidateView, Workload};
use crate::pll::PodLifetimeLimitSpec;
use crate::policy::{find_expired_pods_by_crd, lemma_policy_candidates_sound, policy_candidates_spec};

verus! {

/// What one pass over the cluster saw: the workloads carrying the lifetime
/// label, all workloads, and the lifetime policies.
pub struct ClusterSnapshot {
    pub labeled_pods: Vec<Workload>,
    pub all_pods: Vec<Workload>,
    pub policies: Vec<PodLifetimeLimitSpec>,
}

/// The result of observing the cluster: a snapshot, or the fact that the
/// list calls failed and this cycle has nothing to work on.
pub enum Discovery {
    Snapshot(ClusterSnapshot),
    Failed,
}

/// What one cycle decided: the workloads to delete, in order and free of
/// duplicates, the label-reading events to log, and whether discovery
/// failed.
pub struct CyclePlan {
    pub deletions: Vec<Candidate>,
    pub events: Vec<LabelLogEvent>,
    pub discovery_failed: bool,
}

/// The answer the cluster gave to one delete request, as the caller reports
/// it back to the library.
pub enum DeleteOutcome {
    /// The workload was deleted.
    Deleted,
    /// The workload no longer exists; the desired state already holds.
    NotFound,
    /// The delete call failed; the workload stays and will be rediscovered.
    Failed,
}

/// The running tally of one cycle's delete requests.
pub struct CycleSummary {
    pub succeeded: u64,
    pub failed: u64,
}

/// `s` with every element that repeats an earlier one removed: the first
/// occurrence of each value, in order.
pub open spec fn dedup_spec(s: Seq<CandidateView>) -> Seq<CandidateView>
    decreases s.len(),
{
    if s.len() == 0 {
        Seq::empty()
    } else {
        let d = dedup_spec(s.drop_last());
        if d.contains(s.last()) {
            d
        } else {
            d.push(s.last())
        }
    }
}

/// The deletions one cycle plans from a snapshot: both strategies'
/// candidates, label strategy first, deduplicated by (name, namespace).
pub open spec fn cycle_deletions_spec(s: ClusterSnapshot, now: i64) -> Seq<CandidateView> {
    dedup_spec(
        label_candidates_spec(s.labeled_pods@, now) + policy_candidates_spec(
            s.all_pods@,
            s.policies@,
            now,
        ),
    )
}

/// Deduplication keeps exactly the values of its input: a value is in the
/// result iff it is in the input, and no value appears twice. In
/// particular, a workload emitted by both strategies is deleted exactly
/// once.
pub proof fn lemma_dedup_exact(s: Seq<CandidateView>)
    ensures
        forall|c: CandidateView| dedup_spec(s).contains(c) <==> s.contains(c),
        forall|i: int, j: int|
            0 <= i < j < dedup_spec(s).len() ==> dedup_spec(s)[i] != dedup_spec(s)[j],
    decreases s.len(),
{
    if s.len() > 0 {
        lemma_dedup_exact(s.drop_last());
        let prev = s.drop_last();
        let d = dedup_spec(prev);
        assert forall|c: CandidateView| dedup_spec(s).contains(c) implies s.contains(c) by {
            let k = choose|k: int| 0 <= k < dedup_spec(s).len() && dedup_spec(s)[k] == c;
            if k < d.len() {
                assert(d.contains(c));
                assert(prev.contains(c));
                let m = choose|m: int| 0 <= m < prev.len() && prev[m] == c;
                assert(s[m] == c);
            } else {
                assert(s[s.len() - 1] == c);
            }
        }
        assert forall|c: CandidateView| s.contains(c) implies dedup_spec(s).contains(c) by {
            let k = choose|k: int| 0 <= k < s.len() && s[k] == c;
            if k < s.len() - 1 {
                assert(prev[k] == c);
                assert(prev.contains(c));
                assert(d.contains(c));
                let m = choose|m: int| 0 <= m < d.len() && d[m] == c;
                assert(dedup_spec(s)[m] == c);
            } else {
                if d.contains(c) {
                    let m = choose|m: int| 0 <= m < d.len() && d[m] == c;
                    assert(dedup_spec(s)[m] == c);
                } else {
                    assert(dedup_spec(s)[dedup_spec(s).len() - 1] == c);
                }
            }
        }
        if !d.contains(s.last()) {
            assert forall|i: int, j: int|
                0 <= i < j < dedup_spec(s).len() implies dedup_spec(s)[i] != dedup_spec(s)[j] by {
                if j < d.len() {
                } else {
                    assert(dedup_spec(s)[i] == d[i]);
                    assert(d.contains(d[i]));
                }
            }
        }
    }
}

/// A value is in a concatenation exactly when it is in one of the parts.
proof fn lemma_contains_concat(a: Seq<CandidateView>, b: Seq<CandidateView>, c: CandidateView)
    ensures
        (a + b).contains(c) <==> a.contains(c) || b.contains(c),
{
    if (a + b).contains(c) {
        let k = choose|k: int| 0 <= k < (a + b).len() && (a + b)[k] == c;
        if k < a.len() {
            assert(a[k] == c);
        } else {
            assert(b[k - a.len()] == c);
        }
    }
    if a.contains(c) {
        let k = choose|k: int| 0 <= k < a.len() && a[k] == c;
        assert((a + b)[k] == c);
    }
    if b.contains(c) {
        let k = choose|k: int| 0 <= k < b.len() && b[k] == c;
        assert((a + b)[a.len() + k] == c);
    }
}

/// One cycle deletes each workload at most once, and it deletes exactly the
/// workloads that at least one strategy emitted: the strategies' results
/// are unioned, never intersected, and overlap collapses to one deletion.
pub proof fn lemma_cycle_deletes_each_once(s: ClusterSnapshot, now: i64)
    ensures
        forall|i: int, j: int|
            0 <= i < j < cycle_deletions_spec(s, now).len() ==> cycle_deletions_spec(s, now)[i]
                != cycle_deletions_spec(s, now)[j],
        forall|c: CandidateView| #[trigger] cycle_deletions_spec(s, now).contains(c) <==> (
        label_candidates_spec(s.labeled_pods@, now).contains(c) || policy_candidates_spec(
            s.all_pods@,
            s.policies@,
            now,
        ).contains(c)),
{
    let a = label_candidates_spec(s.labeled_pods@, now);
    let b = policy_candidates_spec(s.all_pods@, s.policies@, now);
    lemma_dedup_exact(a + b);
    assert forall|c: CandidateView| #[trigger] cycle_deletions_spec(s, now).contains(c) <==> (
    a.contains(c) || b.contains(c)) by {
        lemma_contains_concat(a, b, c);
    }
}

/// A workload that is not in the `Running` phase is never deleted: no entry
/// of the plan carries its identity, whatever its labels and whatever the
/// policies say.
pub proof fn lemma_non_running_never_deleted(s: ClusterSnapshot, now: i64, c: CandidateView)
    requires
        forall|i: int|
            0 <= i < s.labeled_pods@.len() && workload_id(#[trigger] s.labeled_pods@[i]) == c
                ==> !is_running_spec(s.labeled_pods@[i]),
        forall|i: int|
            0 <= i < s.all_pods@.len() && workload_id(#[trigger] s.all_pods@[i]) == c
                ==> !is_running_spec(s.all_pods@[i]),
    ensures
        !cycle_deletions_spec(s, now).contains(c),
{
    let a = label_candidates_spec(s.labeled_pods@, now);
    let b = policy_candidates_spec(s.all_pods@, s.policies@, now);
    lemma_dedup_exact(a + b);
    lemma_contains_concat(a, b, c);
    lemma_label_candidates_sound(s.labeled_pods@, now);
    lemma_policy_candidates_sound(s.all_pods@, s.policies@, now);
    if cycle_deletions_spec(s, now).contains(c) {
        if a.contains(c) {
            let i = choose|i: int|
                0 <= i < s.labeled_pods@.len() && is_running_spec(#[trigger] s.labeled_pods@[i])
                    && crate::labels::label_pod_expired(s.labeled_pods@[i], now)
                    && effective_start_spec(s.labeled_pods@[i].starts@) is Some && c == workload_id(
                    s.labeled_pods@[i],
                );
            assert(false);
        } else {
            let i = choose|i: int|
                0 <= i < s.all_pods@.len() && is_running_spec(#[trigger] s.all_pods@[i])
                    && crate::policy::policy_pod_expired(s.all_pods@[i], s.policies@, now)
                    && effective_start_spec(s.all_pods@[i].starts@) is Some && c == workload_id(
                    s.all_pods@[i],
                );
            assert(false);
        }
    }
}

/// A workload none of whose containers has started — one with no effective
/// start time — is never deleted, whatever its labels and whatever the
/// policies say.
pub proof fn lemma_startless_never_deleted(s: ClusterSnapshot, now: i64, c: CandidateView)
    requires
        forall|i: int|
            0 <= i < s.labeled_pods@.len() && workload_id(#[trigger] s.labeled_pods@[i]) == c
                ==> effective_start_spec(s.labeled_pods@[i].starts@) is None,
        forall|i: int|
            0 <= i < s.all_pods@.len() && workload_id(#[trigger] s.all_pods@[i]) == c
                ==> effective_start_spec(s.all_pods@[i].starts@) is None,
    ensures
        !cycle_deletions_spec(s, now).contains(c),
{
    let a = label_candidates_spec(s.labeled_pods@, now);
    let b = policy_candidates_spec(s.all_pods@, s.policies@, now);
    lemma_dedup_exact(a + b);
    lemma_contains_concat(a, b, c);
    lemma_label_candidates_sound(s.labeled_pods@, now);
    lemma_policy_candidates_sound(s.all_pods@, s.policies@, now);
    if cycle_deletions_spec(s, now).contains(c) {
        if a.contains(c) {
            let i = choose|i: int|
                0 <= i < s.labeled_pods@.len() && is_running_spec(#[trigger] s.labeled_pods@[i])
                    && crate::labels::label_pod_expired(s.labeled_pods@[i], now)
                    && effective_start_spec(s.labeled_pods@[i].starts@) is Some && c == workload_id(
                    s.labeled_pods@[i],
                );
            assert(false);
        } else {
            let i = choose|i: int|
                0 <= i < s.all_pods@.len() && is_running_spec(#[trigger] s.all_pods@[i])
                    && crate::policy::policy_pod_expired(s.all_pods@[i], s.policies@, now)
                    && effective_start_spec(s.all_pods@[i].starts@) is Some && c == workload_id(
                    s.all_pods@[i],
                );
            assert(false);
        }
    }
}

/// Removes every candidate that repeats an earlier one, keeping first
/// occurrences in order.
pub fn dedup_candidates(cands: Vec<Candidate>) -> (r: Vec<Candidate>)
    ensures
        cands_view(r@) == dedup_spec(cands_view(cands@)),
{
    let mut out: Vec<Candidate> = Vec::new();
    let mut i: usize = 0;
    proof {
        assert(cands_view(out@) =~= Seq::<CandidateView>::empty());
        assert(cands_view(cands@).take(0) =~= Seq::<CandidateView>::empty());
    }
    while i < cands.len()
        invariant
            i <= cands.len(),
            cands_view(out@) == dedup_spec(cands_view(cands@).take(i as int)),
        decreases cands.len() - i,
    {
        let c = &cands[i];
        let mut seen: bool = false;
        let mut j: usize = 0;
        while j < out.len() && !seen
            invariant
                j <= out.len(),
                i < cands.len(),
                c == &cands@[i as int],
                !seen ==> forall|k: int| 0 <= k < j ==> cands_view(out@)[k] != c@,
                seen ==> cands_view(out@).contains(c@),
            decreases out.len() - j + (if seen { 0int } else { 1int }),
        {
            if &out[j] == c {
                proof {
                    assert(cands_view(out@)[j as int] == c@);
                }
                seen = true;
            } else {
                j = j + 1;
            }
        }
        proof {
            let cv = cands_view(cands@);
            assert(cv.take(i + 1).drop_last() =~= cv.take(i as int));
            assert(cv.take(i + 1).last() == cv[i as int]);
            assert(cv[i as int] == c@);
            if !seen {
                assert(forall|k: int| 0 <= k < cands_view(out@).len() ==> cands_view(out@)[k]
                    != c@);
                assert(!cands_view(out@).contains(c@));
            }
        }
        if !seen {
            let copy = Candidate { name: c.name.clone(), namespace: c.namespace.clone() };
            proof {
                assert(copy@ =~= c@);
                assert(cands_view(out@.push(copy)) =~= cands_view(out@).push(copy@));
            }
            out.push(copy);
        }
        i = i + 1;
    }
    proof {
        assert(cands_view(cands@).take(cands@.len() as int) =~= cands_view(cands@));
    }
    out
}

/// Plans one cycle from what discovery produced, at time `now`. A failed
/// discovery plans nothing and is carried in the plan; a snapshot yields
/// both strategies' candidates, deduplicated, and the label events.
pub fn plan_cycle(discovery: &Discovery, now: i64) -> (p: CyclePlan)
    ensures
        match *discovery {
            Discovery::Failed => p.deletions@.len() == 0 && p.events@.len() == 0
                && p.discovery_failed,
            Discovery::Snapshot(s) => cands_view(p.deletions@) == cycle_deletions_spec(s, now)
                && events_view(p.events@) == label_events_spec(s.labeled_pods@)
                && !p.discovery_failed,
        },
{
    match discovery {
        Discovery::Failed => CyclePlan {
            deletions: Vec::new(),
            events: Vec::new(),
            discovery_failed: true,
        },
        Discovery::Snapshot(s) => {
            let mut events: Vec<LabelLogEvent> = Vec::new();
            proof {
                assert(events_view(events@) =~= Seq::<crate::labels::LabelLogEventView>::empty());
            }
            let mut all = find_expired_pods_by_label(&s.labeled_pods, now, &mut events);
            let mut from_policies = find_expired_pods_by_crd(&s.all_pods, &s.policies, now);
            proof {
                assert(cands_view(all@ + from_policies@) =~= cands_view(all@) + cands_view(
                    from_policies@,
                ));
            }
            all.append(&mut from_policies);
            let deletions = dedup_candidates(all);
            CyclePlan { deletions, events, discovery_failed: false }
        }
    }
}

/// Plans one cycle at the current wall-clock time, which is read once and
/// returned beside the plan.
pub fn plan_cycle_at_current_time(discovery: &Discovery) -> (r: (CyclePlan, i64))
    ensures
        match *discovery {
            Discovery::Failed => r.0.deletions@.len() == 0 && r.0.events@.len() == 0
                && r.0.discovery_failed,
            Discovery::Snapshot(s) => cands_view(r.0.deletions@) == cycle_deletions_spec(s, r.1)
                && events_view(r.0.events@) == label_events_spec(s.labeled_pods@)
                && !r.0.discovery_failed,
        },
{
    let now = unix_now();
    (plan_cycle(discovery, now), now)
}

/// A fresh tally with nothing counted yet.
pub fn new_cycle_summary() -> (s: CycleSummary)
    ensures
        s.succeeded == 0,
        s.failed == 0,
{
    CycleSummary { succeeded: 0, failed: 0 }
}

/// Folds the answer to one delete request into the cycle's tally. A
/// deletion counts as a success; so does not-found, since a workload that no
/// longer exists is exactly the desired state; any other failure counts as a
/// failure and aborts nothing.
pub fn apply_delete_outcome(summary: &mut CycleSummary, outcome: &DeleteOutcome)
    requires
        old(summary).succeeded < u64::MAX,
        old(summary).failed < u64::MAX,
    ensures
        match *outcome {
            DeleteOutcome::Deleted => final(summary).succeeded == old(summary).succeeded + 1
                && final(summary).failed == old(summary).failed,
            DeleteOutcome::NotFound => final(summary).succeeded == old(summary).succeeded + 1
                && final(summary).failed == old(summary).failed,
            DeleteOutcome::Failed => final(summary).failed == old(summary).failed + 1
                && final(summary).succeeded == old(summary).succeeded,
        },
{
    match outcome {
        DeleteOutcome::Deleted => {
            summary.succeeded = summary.succeeded + 1;
        }
        DeleteOutcome::NotFound => {
            summary.succeeded = summary.succeeded + 1;
        }
        DeleteOutcome::Failed => {
            summary.failed = summary.failed + 1;
        }
    }
}

} // verus!
