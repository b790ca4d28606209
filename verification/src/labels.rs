//! The label strategy: expiry candidates from a per-pod lifetime label.
//!
//! A workload may carry the label `pod.kubernetes.io/lifetime`, whose value
//! is its allowed lifetime in seconds. Among the workloads in the `Running`
//! phase, the strategy emits those whose effective start time plus that
//! lifetime lies before the current time. A value that does not parse, or
//! parses to zero, excludes the workload and produces an error event; a
//! value below the reconciliation interval is accepted with a warning event.

use vstd::prelude::*;

use crate::clock::{effective_start_spec, effective_start_time, lifetime_is_over, lifetime_over_spec};
use crate::model::{
    cands_view, is_running_spec, label_lookup, lookup_label, pod_is_running, workload_id, Candidate,
    CandidateView, Workload,
};
use crate::parse::{parse_u64_spec, parse_u64_str};

verus! {

/// The fixed pause between reconciliation cycles, in seconds. A lifetime
/// below it is legal but pointless, since expiry is only checked once per
/// cycle.
pub const SLEEP_SECONDS: u64 = 10;

/// The reserved label key that declares a workload's allowed lifetime.
pub open spec fn lifetime_label() -> Seq<char> {
    "pod.kubernetes.io/lifetime"@
}

/// The reserved label key, as a string slice.
pub fn lifetime_label_str() -> (s: &'static str)
    ensures
        s@ == lifetime_label(),
{
    "pod.kubernetes.io/lifetime"
}

/// A log-worthy observation made while reading lifetime labels. The library
/// records these as values; the caller renders and emits them.
#[derive(Clone)]
pub enum LabelLogEvent {
    /// The label value is not a base-10 unsigned integer.
    InvalidValue { pod_name: String },
    /// The label value parses to zero, which is rejected.
    ZeroValue { pod_name: String },
    /// The label value is below the reconciliation interval: accepted, but
    /// likely unintentional.
    ShortLifetime { pod_name: String },
}

/// The mathematical identity of a label log event.
#[verifier::ext_equal]
pub ghost enum LabelLogEventView {
    InvalidValue { pod_name: Seq<char> },
    ZeroValue { pod_name: Seq<char> },
    ShortLifetime { pod_name: Seq<char> },
}

impl View for LabelLogEvent {
    type V = LabelLogEventView;

    open spec fn view(&self) -> LabelLogEventView {
        match self {
            LabelLogEvent::InvalidValue { pod_name } => LabelLogEventView::InvalidValue {
                pod_name: pod_name@,
            },
            LabelLogEvent::ZeroValue { pod_name } => LabelLogEventView::ZeroValue {
                pod_name: pod_name@,
            },
            LabelLogEvent::ShortLifetime { pod_name } => LabelLogEventView::ShortLifetime {
                pod_name: pod_name@,
            },
        }
    }
}

/// The views of a sequence of label log events, element for element.
pub open spec fn events_view(s: Seq<LabelLogEvent>) -> Seq<LabelLogEventView> {
    s.map_values(|e: LabelLogEvent| e@)
}

/// What a lifetime label value means: the parsed number of seconds when it
/// parses to one or more; nothing when it does not parse or parses to zero.
pub open spec fn lifetime_value_spec(label: Seq<char>) -> Option<u64> {
    match parse_u64_spec(label) {
        Some(v) => if v == 0 {
            None
        } else {
            Some(v)
        },
        None => None,
    }
}

/// The events that reading one lifetime label value produces: an error when
/// it does not parse or is zero, a warning when it is positive but below the
/// reconciliation interval, and nothing otherwise.
pub open spec fn label_value_events(label: Seq<char>, pod_name: Seq<char>) -> Seq<
    LabelLogEventView,
> {
    match parse_u64_spec(label) {
        None => seq![LabelLogEventView::InvalidValue { pod_name }],
        Some(v) => if v == 0 {
            seq![LabelLogEventView::ZeroValue { pod_name }]
        } else if v < SLEEP_SECONDS {
            seq![LabelLogEventView::ShortLifetime { pod_name }]
        } else {
            Seq::empty()
        },
    }
}

/// The workload's own lifetime limit, as its label declares it.
pub open spec fn label_limit_of(w: Workload) -> Option<u64> {
    match label_lookup(w.labels@, lifetime_label()) {
        Some(value) => lifetime_value_spec(value),
        None => None,
    }
}

/// Whether a workload's own label declares it expired at `now`: it carries a
/// usable lifetime label, some container has started, and the earliest start
/// plus the declared lifetime lies before `now`. The lifecycle phase plays
/// no part here; the strategy filters on it separately.
pub open spec fn label_pod_expired(w: Workload, now: i64) -> bool {
    match label_limit_of(w) {
        Some(limit) => match effective_start_spec(w.starts@) {
            Some(start) => lifetime_over_spec(start, limit, now),
            None => false,
        },
        None => false,
    }
}

/// The events that evaluating one workload produces: those of its label
/// value, when it is running and carries the lifetime label.
pub open spec fn pod_label_events(w: Workload) -> Seq<LabelLogEventView> {
    if is_running_spec(w) {
        match label_lookup(w.labels@, lifetime_label()) {
            Some(value) => label_value_events(value, w.name@),
            None => Seq::empty(),
        }
    } else {
        Seq::empty()
    }
}

/// The candidates the label strategy emits from `pods` at time `now`, in
/// order: the running workloads whose own label declares them expired.
pub open spec fn label_candidates_spec(pods: Seq<Workload>, now: i64) -> Seq<CandidateView>
    decreases pods.len(),
{
    if pods.len() == 0 {
        Seq::empty()
    } else {
        let rest = label_candidates_spec(pods.drop_last(), now);
        if is_running_spec(pods.last()) && label_pod_expired(pods.last(), now) {
            rest.push(workload_id(pods.last()))
        } else {
            rest
        }
    }
}

/// The events the label strategy produces from `pods`, in order.
pub open spec fn label_events_spec(pods: Seq<Workload>) -> Seq<LabelLogEventView>
    decreases pods.len(),
{
    if pods.len() == 0 {
        Seq::empty()
    } else {
        label_events_spec(pods.drop_last()) + pod_label_events(pods.last())
    }
}

/// Every candidate the label strategy emits arises from a listed workload
/// that is in the `Running` phase, has an effective start time, and whose
/// own label declares it expired. In particular, a workload that is not
/// running, or none of whose containers has started, is never emitted.
pub proof fn lemma_label_candidates_sound(pods: Seq<Workload>, now: i64)
    ensures
        forall|c: CandidateView| #[trigger] label_candidates_spec(pods, now).contains(c)
            ==> exists|i: int|
                0 <= i < pods.len() && is_running_spec(#[trigger] pods[i]) && label_pod_expired(
                    pods[i],
                    now,
                ) && effective_start_spec(pods[i].starts@) is Some && c == workload_id(pods[i]),
    decreases pods.len(),
{
    if pods.len() > 0 {
        let prev = pods.drop_last();
        lemma_label_candidates_sound(prev, now);
        let rest = label_candidates_spec(prev, now);
        let full = label_candidates_spec(pods, now);
        assert forall|c: CandidateView| #[trigger] full.contains(c) implies exists|i: int|
            0 <= i < pods.len() && is_running_spec(#[trigger] pods[i]) && label_pod_expired(
                pods[i],
                now,
            ) && effective_start_spec(pods[i].starts@) is Some && c == workload_id(pods[i]) by {
            let k = choose|k: int| 0 <= k < full.len() && full[k] == c;
            if k < rest.len() {
                assert(rest[k] == c);
                assert(rest.contains(c));
                let i = choose|i: int|
                    0 <= i < prev.len() && is_running_spec(#[trigger] prev[i])
                        && label_pod_expired(prev[i], now) && effective_start_spec(
                        prev[i].starts@,
                    ) is Some && c == workload_id(prev[i]);
                assert(pods[i] == prev[i]);
            } else {
                assert(c == workload_id(pods.last()));
                assert(pods[pods.len() - 1] == pods.last());
            }
        }
    }
}

/// A running workload whose lifetime label fails to parse, or parses to
/// zero, has exactly one event — an error, never the short-lifetime
/// warning — among the events the strategy produces. Together with
/// soundness, which keeps such a workload out of the candidates, this says a
/// bad label value excludes the workload and is reported.
pub proof fn lemma_bad_label_value_logged(pods: Seq<Workload>, i: int)
    requires
        0 <= i < pods.len(),
        is_running_spec(pods[i]),
        label_lookup(pods[i].labels@, lifetime_label()) is Some,
        lifetime_value_spec(label_lookup(pods[i].labels@, lifetime_label()).unwrap()) is None,
    ensures
        ({
            let value = label_lookup(pods[i].labels@, lifetime_label()).unwrap();
            let events = label_value_events(value, pods[i].name@);
            events.len() == 1 && !(events[0] is ShortLifetime) && label_events_spec(
                pods,
            ).contains(events[0])
        }),
    decreases pods.len(),
{
    let value = label_lookup(pods[i].labels@, lifetime_label()).unwrap();
    let events = label_value_events(value, pods[i].name@);
    let prefix = label_events_spec(pods.drop_last());
    if i == pods.len() - 1 {
        assert(pods.last() == pods[i]);
        assert(pod_label_events(pods.last()) == events);
        assert(label_events_spec(pods)[prefix.len() as int] == events[0]);
    } else {
        assert(pods.drop_last()[i] == pods[i]);
        lemma_bad_label_value_logged(pods.drop_last(), i);
        let k = choose|k: int| 0 <= k < prefix.len() && prefix[k] == events[0];
        assert(label_events_spec(pods)[k] == events[0]);
    }
}

/// The other direction: a listed workload that is running and whose own
/// label declares it expired is emitted. With soundness this makes the
/// label's verdict exact: for a running workload with a valid positive
/// label value, `start + value < now` alone determines inclusion.
pub proof fn lemma_label_candidates_complete(pods: Seq<Workload>, now: i64, i: int)
    requires
        0 <= i < pods.len(),
        is_running_spec(pods[i]),
        label_pod_expired(pods[i], now),
    ensures
        label_candidates_spec(pods, now).contains(workload_id(pods[i])),
    decreases pods.len(),
{
    let full = label_candidates_spec(pods, now);
    let rest = label_candidates_spec(pods.drop_last(), now);
    if i == pods.len() - 1 {
        assert(pods.last() == pods[i]);
        assert(full[full.len() - 1] == workload_id(pods[i]));
    } else {
        assert(pods.drop_last()[i] == pods[i]);
        lemma_label_candidates_complete(pods.drop_last(), now, i);
        let k = choose|k: int| 0 <= k < rest.len() && rest[k] == workload_id(pods[i]);
        assert(full[k] == workload_id(pods[i]));
    }
}

/// Reads a lifetime label value: the parsed number of seconds, or nothing
/// when the value does not parse or is zero. The error or warning that the
/// reading deserves is appended to `events`, with `pod_name` naming the
/// workload it concerns.
pub fn parse_lifetime_label_and_log_error(
    label: &str,
    pod_name: String,
    events: &mut Vec<LabelLogEvent>,
) -> (r: Option<u64>)
    ensures
        r == lifetime_value_spec(label@),
        events_view(final(events)@) == events_view(old(events)@) + label_value_events(
            label@,
            pod_name@,
        ),
{
    let ghost orig = events@;
    let r: Option<u64> = match parse_u64_str(label) {
        None => {
            events.push(LabelLogEvent::InvalidValue { pod_name });
            None
        }
        Some(v) => {
            if v == 0 {
                events.push(LabelLogEvent::ZeroValue { pod_name });
                None
            } else if v < SLEEP_SECONDS {
                events.push(LabelLogEvent::ShortLifetime { pod_name });
                Some(v)
            } else {
                Some(v)
            }
        }
    };
    proof {
        assert(events_view(events@) =~= events_view(orig) + label_value_events(
            label@,
            pod_name@,
        ));
    }
    r
}

/// Decides whether `pod`'s own lifetime label declares it expired at `now`,
/// appending to `events` whatever reading the label deserves. The caller is
/// expected to have filtered on the `Running` phase already; this decision
/// does not look at the phase.
pub fn pod_lifetime_is_over(pod: &Workload, now: i64, events: &mut Vec<LabelLogEvent>) -> (r: bool)
    ensures
        r == label_pod_expired(*pod, now),
        events_view(final(events)@) == events_view(old(events)@) + match label_lookup(
            pod.labels@,
            lifetime_label(),
        ) {
            Some(value) => label_value_events(value, pod.name@),
            None => Seq::empty(),
        },
{
    match lookup_label(&pod.labels, lifetime_label_str()) {
        None => {
            proof {
                assert(events_view(events@) =~= events_view(events@) + Seq::<
                    LabelLogEventView,
                >::empty());
            }
            false
        }
        Some(value) => {
            let limit = parse_lifetime_label_and_log_error(
                value.as_str(),
                pod.name.clone(),
                events,
            );
            match limit {
                None => false,
                Some(limit) => match effective_start_time(&pod.starts) {
                    None => false,
                    Some(start) => lifetime_is_over(start, limit, now),
                },
            }
        }
    }
}

/// The label strategy: emits, in order, the running workloads of `pods`
/// whose own lifetime label declares them expired at `now`, and appends the
/// label-reading events of every running workload to `events`.
pub fn find_expired_pods_by_label(
    pods: &Vec<Workload>,
    now: i64,
    events: &mut Vec<LabelLogEvent>,
) -> (r: Vec<Candidate>)
    ensures
        cands_view(r@) == label_candidates_spec(pods@, now),
        events_view(final(events)@) == events_view(old(events)@) + label_events_spec(pods@),
{
    let mut out: Vec<Candidate> = Vec::new();
    let ghost orig = events@;
    let mut i: usize = 0;
    proof {
        assert(cands_view(out@) =~= Seq::<CandidateView>::empty());
        assert(events_view(events@) =~= events_view(orig) + label_events_spec(
            pods@.take(0),
        ));
    }
    while i < pods.len()
        invariant
            i <= pods.len(),
            cands_view(out@) == label_candidates_spec(pods@.take(i as int), now),
            events_view(events@) == events_view(orig) + label_events_spec(pods@.take(i as int)),
        decreases pods.len() - i,
    {
        let pod = &pods[i];
        let ghost before = events@;
        proof {
            assert(pods@.take(i + 1).drop_last() =~= pods@.take(i as int));
            assert(pods@.take(i + 1).last() == pods@[i as int]);
        }
        if pod_is_running(pod) {
            let expired = pod_lifetime_is_over(pod, now, events);
            proof {
                assert(events_view(events@) =~= events_view(orig) + label_events_spec(
                    pods@.take(i + 1),
                ));
            }
            if expired {
                let c = Candidate { name: pod.name.clone(), namespace: pod.namespace.clone() };
                proof {
                    assert(c@ =~= workload_id(pods@[i as int]));
                    assert(cands_view(out@.push(c)) =~= cands_view(out@).push(c@));
                }
                out.push(c);
            }
        } else {
            proof {
                assert(pod_label_events(pods@[i as int]) =~= Seq::<LabelLogEventView>::empty());
                assert(events_view(events@) =~= events_view(orig) + label_events_spec(
                    pods@.take(i + 1),
                ));
            }
        }
        i = i + 1;
    }
    proof {
        assert(pods@.take(pods@.len() as int) =~= pods@);
    }
    out
}

} // verus!
