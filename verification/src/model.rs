//! The cluster data the reconciler reads, as plain values.
//!
//! A workload is a pod as the strategies see it: identity, labels, lifecycle
//! phase, and the per-container start times. The cluster client observes the
//! real objects and hands the library these values; the library never talks
//! to the cluster itself.

use vstd::prelude::*;

verus! {

/// A workload (pod) as observed at the start of a cycle.
///
/// `starts` holds one entry per container: the time the container started
/// running, in seconds since the Unix epoch, or `None` when the container has
/// no recorded start.
#[derive(Clone)]
pub struct Workload {
    pub name: String,
    pub namespace: String,
    pub phase: String,
    pub labels: Vec<(String, String)>,
    pub starts: Vec<Option<i64>>,
}

/// An expiry candidate: the identity of a workload to delete this cycle.
#[derive(Clone)]
pub struct Candidate {
    pub name: String,
    pub namespace: String,
}

/// The mathematical identity of a candidate.
#[verifier::ext_equal]
pub ghost struct CandidateView {
    pub name: Seq<char>,
    pub namespace: Seq<char>,
}

impl View for Candidate {
    type V = CandidateView;

    open spec fn view(&self) -> CandidateView {
        CandidateView { name: self.name@, namespace: self.namespace@ }
    }
}

impl PartialEq for Candidate {
    fn eq(&self, other: &Candidate) -> (r: bool) {
        self.name == other.name && self.namespace == other.namespace
    }
}

impl vstd::std_specs::cmp::PartialEqSpecImpl for Candidate {
    open spec fn obeys_eq_spec() -> bool {
        true
    }

    open spec fn eq_spec(&self, other: &Candidate) -> bool {
        self@ == other@
    }
}

/// The views of a sequence of candidates, element for element.
pub open spec fn cands_view(s: Seq<Candidate>) -> Seq<CandidateView> {
    s.map_values(|c: Candidate| c@)
}

/// The identity under which a workload is deleted.
pub open spec fn workload_id(w: Workload) -> CandidateView {
    CandidateView { name: w.name@, namespace: w.namespace@ }
}

/// Whether the workload's lifecycle phase is `Running`.
pub open spec fn is_running_spec(w: Workload) -> bool {
    w.phase@ == "Running"@
}

/// The value stored under `key` in a label list: the first pair whose key
/// equals `key`, or `None` when no pair has that key.
pub open spec fn label_lookup(labels: Seq<(String, String)>, key: Seq<char>) -> Option<Seq<char>>
    decreases labels.len(),
{
    if labels.len() == 0 {
        None
    } else if labels.first().0@ == key {
        Some(labels.first().1@)
    } else {
        label_lookup(labels.drop_first(), key)
    }
}

/// `label_lookup`, unrolled from an arbitrary index onward.
pub open spec fn label_lookup_from(
    labels: Seq<(String, String)>,
    key: Seq<char>,
    i: int,
) -> Option<Seq<char>>
    decreases labels.len() - i,
{
    if i < 0 || i >= labels.len() {
        None
    } else if labels[i].0@ == key {
        Some(labels[i].1@)
    } else {
        label_lookup_from(labels, key, i + 1)
    }
}

/// `label_lookup` agrees with its indexed unrolling.
pub proof fn lemma_label_lookup_from(labels: Seq<(String, String)>, key: Seq<char>)
    ensures
        label_lookup(labels, key) == label_lookup_from(labels, key, 0),
    decreases labels.len(),
{
    if labels.len() > 0 {
        lemma_label_lookup_from(labels.drop_first(), key);
        lemma_label_lookup_from_shift(labels, key, 1);
    }
}

/// Dropping the first pair shifts the unrolling by one.
proof fn lemma_label_lookup_from_shift(labels: Seq<(String, String)>, key: Seq<char>, i: int)
    requires
        1 <= i <= labels.len(),
    ensures
        label_lookup_from(labels, key, i) == label_lookup_from(labels.drop_first(), key, i - 1),
    decreases labels.len() - i,
{
    if i < labels.len() {
        lemma_label_lookup_from_shift(labels, key, i + 1);
    }
}

/// Checks whether the workload's phase is `Running`.
pub fn pod_is_running(pod: &Workload) -> (r: bool)
    ensures
        r == is_running_spec(*pod),
{
    let running: String = "Running".to_owned();
    pod.phase == running
}

/// Looks a key up in a workload's labels: the value of the first pair whose
/// key equals `key`, if any pair does.
pub fn lookup_label<'a>(labels: &'a Vec<(String, String)>, key: &str) -> (r: Option<&'a String>)
    ensures
        match r {
            Some(v) => label_lookup(labels@, key@) == Some(v@),
            None => label_lookup(labels@, key@) is None,
        },
{
    proof {
        lemma_label_lookup_from(labels@, key@);
    }
    let key_string: String = key.to_owned();
    let mut i: usize = 0;
    while i < labels.len()
        invariant
            i <= labels.len(),
            key_string@ == key@,
            label_lookup(labels@, key@) == label_lookup_from(labels@, key@, i as int),
        decreases labels.len() - i,
    {
        if labels[i].0 == key_string {
            return Some(&labels[i].1);
        }
        i = i + 1;
    }
    None
}

} // verus!
