//! The cluster-scoped pod-lifetime-limit policy resource.
//!
//! A policy carries a label selector and a lifetime limit in seconds. A
//! workload matches a policy exactly when every key of the selector exists in
//! the workload's labels with an identical value; in particular an empty
//! selector matches every workload. That last consequence is intentional,
//! if risky: a policy with no selector applies its limit cluster-wide.

use vstd::prelude::*;

use crate::model::{label_lookup, Workload};

verus! {

/// The declared intent of a pod-lifetime-limit policy.
#[derive(Clone)]
pub struct PodLifetimeLimitSpec {
    pub selector: PodLifetimeLimitSelector,
    pub max_lifetime: u64,
}

/// The label selector of a policy: every listed pair is required.
#[derive(Clone)]
pub struct PodLifetimeLimitSelector {
    pub match_labels: Vec<(String, String)>,
}

/// The observed status of a policy: how many workloads it currently matches.
/// Written for operators to read; the reconciler's own decisions never
/// consume it.
#[derive(Clone)]
pub struct PodLifetimeLimitStatus {
    pub related_pods_count: u64,
}

/// The `j`-th pair of a selector is satisfied: its key is present in the
/// labels with an identical value.
pub open spec fn selector_pair_ok(
    selector: Seq<(String, String)>,
    labels: Seq<(String, String)>,
    j: int,
) -> bool {
    label_lookup(labels, selector[j].0@) == Some(selector[j].1@)
}

/// A workload's labels satisfy a selector exactly when each selector pair's
/// key is present with an identical value.
pub open spec fn selector_matches_spec(
    selector: Seq<(String, String)>,
    labels: Seq<(String, String)>,
) -> bool {
    forall|j: int| 0 <= j < selector.len() ==> #[trigger] selector_pair_ok(selector, labels, j)
}

/// An empty selector matches every workload.
pub proof fn lemma_empty_selector_matches_all(labels: Seq<(String, String)>)
    ensures
        selector_matches_spec(Seq::empty(), labels),
{
}

/// Tests whether `pod`'s labels satisfy `selector`.
pub fn selector_matches(selector: &PodLifetimeLimitSelector, pod: &Workload) -> (r: bool)
    ensures
        r == selector_matches_spec(selector.match_labels@, pod.labels@),
{
    let sel = &selector.match_labels;
    let mut j: usize = 0;
    while j < sel.len()
        invariant
            j <= sel.len(),
            sel@ == selector.match_labels@,
            forall|k: int| 0 <= k < j ==> #[trigger] selector_pair_ok(sel@, pod.labels@, k),
        decreases sel.len() - j,
    {
        let matched: bool = match crate::model::lookup_label(&pod.labels, sel[j].0.as_str()) {
            Some(v) => *v == sel[j].1,
            None => false,
        };
        if !matched {
            proof {
                assert(!selector_pair_ok(sel@, pod.labels@, j as int));
            }
            return false;
        }
        proof {
            assert(selector_pair_ok(sel@, pod.labels@, j as int));
        }
        j = j + 1;
    }
    true
}

} // verus!
