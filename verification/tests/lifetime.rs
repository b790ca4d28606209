use pod_lifetime_manager::labels::{
    find_expired_pods_by_label, parse_lifetime_label_and_log_error, LabelLogEvent,
};
use pod_lifetime_manager::model::Workload;
use pod_lifetime_manager::pll::{PodLifetimeLimitSelector, PodLifetimeLimitSpec};
use pod_lifetime_manager::policy::find_expired_pods_by_crd;
use pod_lifetime_manager::reconciler::{
    apply_delete_outcome, new_cycle_summary, plan_cycle, ClusterSnapshot, CyclePlan, DeleteOutcome,
    Discovery,
};

const LIFETIME_LABEL: &str = "pod.kubernetes.io/lifetime";

fn pod(name: &str, namespace: &str, phase: &str, labels: &[(&str, &str)], starts: &[Option<i64>]) -> Workload {
    Workload {
        name: name.to_string(),
        namespace: namespace.to_string(),
        phase: phase.to_string(),
        labels: labels.iter().map(|(k, v)| (k.to_string(), v.to_string())).collect(),
        starts: starts.to_vec(),
    }
}

fn policy(selector: &[(&str, &str)], max_lifetime: u64) -> PodLifetimeLimitSpec {
    PodLifetimeLimitSpec {
        selector: PodLifetimeLimitSelector {
            match_labels: selector.iter().map(|(k, v)| (k.to_string(), v.to_string())).collect(),
        },
        max_lifetime,
    }
}

fn names(cands: &[pod_lifetime_manager::model::Candidate]) -> Vec<(String, String)> {
    cands.iter().map(|c| (c.name.clone(), c.namespace.clone())).collect()
}

#[test]
fn parse_plain_value() {
    let mut events: Vec<LabelLogEvent> = Vec::new();
    let r = parse_lifetime_label_and_log_error("100", "web-1".to_string(), &mut events);
    assert_eq!(r, Some(100));
    assert!(events.is_empty());
}

#[test]
fn parse_leading_plus() {
    let mut events: Vec<LabelLogEvent> = Vec::new();
    let r = parse_lifetime_label_and_log_error("+86400", "web-1".to_string(), &mut events);
    assert_eq!(r, Some(86400));
    assert!(events.is_empty());
}

#[test]
fn parse_zero_is_rejected_with_error() {
    let mut events: Vec<LabelLogEvent> = Vec::new();
    let r = parse_lifetime_label_and_log_error("0", "web-2".to_string(), &mut events);
    assert_eq!(r, None);
    assert_eq!(events.len(), 1);
    assert!(matches!(
        &events[0],
        LabelLogEvent::ZeroValue { pod_name } if pod_name == "web-2"
    ));
}

#[test]
fn parse_garbage_is_rejected_with_error() {
    let mut events: Vec<LabelLogEvent> = Vec::new();
    let r = parse_lifetime_label_and_log_error("12abc", "web-3".to_string(), &mut events);
    assert_eq!(r, None);
    assert_eq!(events.len(), 1);
    assert!(matches!(
        &events[0],
        LabelLogEvent::InvalidValue { pod_name } if pod_name == "web-3"
    ));
}

#[test]
fn parse_empty_and_bare_plus_are_rejected() {
    let mut events: Vec<LabelLogEvent> = Vec::new();
    assert_eq!(parse_lifetime_label_and_log_error("", "p".to_string(), &mut events), None);
    assert_eq!(parse_lifetime_label_and_log_error("+", "p".to_string(), &mut events), None);
    assert_eq!(events.len(), 2);
}

#[test]
fn parse_negative_is_rejected() {
    let mut events: Vec<LabelLogEvent> = Vec::new();
    assert_eq!(parse_lifetime_label_and_log_error("-5", "p".to_string(), &mut events), None);
    assert_eq!(events.len(), 1);
}

#[test]
fn parse_largest_value_fits() {
    let mut events: Vec<LabelLogEvent> = Vec::new();
    let r = parse_lifetime_label_and_log_error(
        "18446744073709551615",
        "p".to_string(),
        &mut events,
    );
    assert_eq!(r, Some(u64::MAX));
    assert!(events.is_empty());
}

#[test]
fn parse_overflow_is_rejected() {
    let mut events: Vec<LabelLogEvent> = Vec::new();
    let r = parse_lifetime_label_and_log_error(
        "18446744073709551616",
        "p".to_string(),
        &mut events,
    );
    assert_eq!(r, None);
    assert_eq!(events.len(), 1);
}

#[test]
fn parse_short_lifetime_warns_but_accepts() {
    let mut events: Vec<LabelLogEvent> = Vec::new();
    let r = parse_lifetime_label_and_log_error("5", "quick".to_string(), &mut events);
    assert_eq!(r, Some(5));
    assert_eq!(events.len(), 1);
    assert!(matches!(
        &events[0],
        LabelLogEvent::ShortLifetime { pod_name } if pod_name == "quick"
    ));
}

#[test]
fn scenario_expired_labeled_pod_is_deleted() {
    let now: i64 = 1_000_000;
    let web1 = pod(
        "web-1",
        "default",
        "Running",
        &[(LIFETIME_LABEL, "100")],
        &[Some(now - 150)],
    );
    let mut events = Vec::new();
    let cands = find_expired_pods_by_label(&vec![web1], now, &mut events);
    assert_eq!(names(&cands), vec![("web-1".to_string(), "default".to_string())]);
    assert!(events.is_empty());
}

#[test]
fn scenario_zero_label_excluded_and_logged() {
    let now: i64 = 1_000_000;
    let web2 = pod(
        "web-2",
        "default",
        "Running",
        &[(LIFETIME_LABEL, "0")],
        &[Some(now - 150)],
    );
    let mut events = Vec::new();
    let cands = find_expired_pods_by_label(&vec![web2], now, &mut events);
    assert!(cands.is_empty());
    assert_eq!(events.len(), 1);
    assert!(matches!(
        &events[0],
        LabelLogEvent::ZeroValue { pod_name } if pod_name == "web-2"
    ));
}

#[test]
fn label_not_yet_expired_is_kept() {
    let now: i64 = 1_000_000;
    let w = pod(
        "web-1",
        "default",
        "Running",
        &[(LIFETIME_LABEL, "100")],
        &[Some(now - 50)],
    );
    let mut events = Vec::new();
    let cands = find_expired_pods_by_label(&vec![w], now, &mut events);
    assert!(cands.is_empty());
}

#[test]
fn label_boundary_is_strict() {
    // start + limit == now is not yet over; one second later it is.
    let now: i64 = 1_000;
    let at_limit = pod("a", "ns", "Running", &[(LIFETIME_LABEL, "100")], &[Some(900)]);
    let over_limit = pod("b", "ns", "Running", &[(LIFETIME_LABEL, "100")], &[Some(899)]);
    let mut events = Vec::new();
    let cands = find_expired_pods_by_label(&vec![at_limit, over_limit], now, &mut events);
    assert_eq!(names(&cands), vec![("b".to_string(), "ns".to_string())]);
}

#[test]
fn non_running_pod_never_emitted_by_label() {
    let now: i64 = 1_000_000;
    let w = pod(
        "web-1",
        "default",
        "Pending",
        &[(LIFETIME_LABEL, "100")],
        &[Some(now - 150)],
    );
    let mut events = Vec::new();
    let cands = find_expired_pods_by_label(&vec![w], now, &mut events);
    assert!(cands.is_empty());
    assert!(events.is_empty());
}

#[test]
fn startless_pod_never_emitted_by_label() {
    let now: i64 = 1_000_000;
    let no_containers = pod("a", "ns", "Running", &[(LIFETIME_LABEL, "100")], &[]);
    let not_started = pod("b", "ns", "Running", &[(LIFETIME_LABEL, "100")], &[None, None]);
    let mut events = Vec::new();
    let cands = find_expired_pods_by_label(&vec![no_containers, not_started], now, &mut events);
    assert!(cands.is_empty());
}

#[test]
fn earliest_container_start_decides() {
    let now: i64 = 1_000;
    // Earliest start is 150s ago, latest 10s ago: the pod is as old as its
    // first container, so a 100s lifetime is over.
    let w = pod(
        "old",
        "ns",
        "Running",
        &[(LIFETIME_LABEL, "100")],
        &[Some(now - 10), Some(now - 150), None],
    );
    let mut events = Vec::new();
    let cands = find_expired_pods_by_label(&vec![w], now, &mut events);
    assert_eq!(cands.len(), 1);
}

#[test]
fn scenario_policy_match_expired_is_deleted() {
    let now: i64 = 1_000_000;
    let batch7 = pod(
        "batch-7",
        "jobs",
        "Running",
        &[("app", "batch"), ("env", "prod")],
        &[Some(now - 90)],
    );
    let p = policy(&[("app", "batch")], 60);
    let cands = find_expired_pods_by_crd(&vec![batch7], &vec![p], now);
    assert_eq!(names(&cands), vec![("batch-7".to_string(), "jobs".to_string())]);
}

#[test]
fn policy_missing_key_or_wrong_value_no_match() {
    let now: i64 = 1_000_000;
    let w = pod("w", "ns", "Running", &[("app", "web")], &[Some(now - 500)]);
    let missing_key = policy(&[("tier", "front")], 60);
    let wrong_value = policy(&[("app", "batch")], 60);
    let cands = find_expired_pods_by_crd(&vec![w], &vec![missing_key, wrong_value], now);
    assert!(cands.is_empty());
}

#[test]
fn empty_selector_matches_every_workload() {
    let now: i64 = 1_000_000;
    let w = pod("w", "ns", "Running", &[], &[Some(now - 500)]);
    let catch_all = policy(&[], 60);
    let cands = find_expired_pods_by_crd(&vec![w], &vec![catch_all], now);
    assert_eq!(cands.len(), 1);
}

#[test]
fn first_matching_policy_wins() {
    let now: i64 = 1_000_000;
    // The first matching policy allows 1000s, so a 500s-old pod is kept even
    // though a later policy with a 60s limit also matches.
    let w = pod("w", "ns", "Running", &[("app", "batch")], &[Some(now - 500)]);
    let lenient = policy(&[("app", "batch")], 1000);
    let strict = policy(&[("app", "batch")], 60);
    let kept = find_expired_pods_by_crd(&vec![w.clone()], &vec![lenient, strict], now);
    assert!(kept.is_empty());
    let strict_first = policy(&[("app", "batch")], 60);
    let lenient_second = policy(&[("app", "batch")], 1000);
    let deleted = find_expired_pods_by_crd(&vec![w], &vec![strict_first, lenient_second], now);
    assert_eq!(deleted.len(), 1);
}

#[test]
fn non_running_pod_never_emitted_by_policy() {
    let now: i64 = 1_000_000;
    let w = pod("w", "ns", "Succeeded", &[("app", "batch")], &[Some(now - 500)]);
    let p = policy(&[("app", "batch")], 60);
    let cands = find_expired_pods_by_crd(&vec![w], &vec![p], now);
    assert!(cands.is_empty());
}

#[test]
fn scenario_union_label_says_no_policy_says_yes() {
    // The workload's own label allows 200s and only 90s have passed, but a
    // matching policy allows 60s: the strategies are unioned, so the
    // workload is still deleted this cycle, exactly once.
    let now: i64 = 1_000_000;
    let batch7 = pod(
        "batch-7",
        "jobs",
        "Running",
        &[("app", "batch"), (LIFETIME_LABEL, "200")],
        &[Some(now - 90)],
    );
    let snapshot = ClusterSnapshot {
        labeled_pods: vec![batch7.clone()],
        all_pods: vec![batch7],
        policies: vec![policy(&[("app", "batch")], 60)],
    };
    let plan = plan_cycle(&Discovery::Snapshot(snapshot), now);
    assert!(!plan.discovery_failed);
    assert_eq!(names(&plan.deletions), vec![("batch-7".to_string(), "jobs".to_string())]);
}

#[test]
fn matched_by_both_strategies_deleted_once() {
    let now: i64 = 1_000_000;
    let w = pod(
        "dup",
        "ns",
        "Running",
        &[("app", "batch"), (LIFETIME_LABEL, "100")],
        &[Some(now - 500)],
    );
    let snapshot = ClusterSnapshot {
        labeled_pods: vec![w.clone()],
        all_pods: vec![w],
        policies: vec![policy(&[("app", "batch")], 60)],
    };
    let plan = plan_cycle(&Discovery::Snapshot(snapshot), now);
    assert_eq!(plan.deletions.len(), 1);
    assert_eq!(names(&plan.deletions), vec![("dup".to_string(), "ns".to_string())]);
}

#[test]
fn same_name_different_namespace_both_deleted() {
    let now: i64 = 1_000_000;
    let a = pod("web", "alpha", "Running", &[(LIFETIME_LABEL, "100")], &[Some(now - 500)]);
    let b = pod("web", "beta", "Running", &[(LIFETIME_LABEL, "100")], &[Some(now - 500)]);
    let snapshot = ClusterSnapshot {
        labeled_pods: vec![a, b],
        all_pods: vec![],
        policies: vec![],
    };
    let plan = plan_cycle(&Discovery::Snapshot(snapshot), now);
    assert_eq!(
        names(&plan.deletions),
        vec![
            ("web".to_string(), "alpha".to_string()),
            ("web".to_string(), "beta".to_string()),
        ]
    );
}

#[test]
fn scenario_discovery_failure_plans_nothing_then_recovers() {
    let now: i64 = 1_000_000;
    let failed: CyclePlan = plan_cycle(&Discovery::Failed, now);
    assert!(failed.discovery_failed);
    assert!(failed.deletions.is_empty());
    assert!(failed.events.is_empty());

    // The next cycle sees a fresh snapshot and resumes normal evaluation.
    let w = pod("web-1", "default", "Running", &[(LIFETIME_LABEL, "100")], &[Some(now - 150)]);
    let snapshot = ClusterSnapshot {
        labeled_pods: vec![w],
        all_pods: vec![],
        policies: vec![],
    };
    let next = plan_cycle(&Discovery::Snapshot(snapshot), now);
    assert!(!next.discovery_failed);
    assert_eq!(next.deletions.len(), 1);
}

#[test]
fn not_found_on_delete_counts_as_success() {
    let mut summary = new_cycle_summary();
    apply_delete_outcome(&mut summary, &DeleteOutcome::Deleted);
    apply_delete_outcome(&mut summary, &DeleteOutcome::NotFound);
    assert_eq!(summary.succeeded, 2);
    assert_eq!(summary.failed, 0);
}

#[test]
fn delete_failure_is_counted_and_does_not_stop_the_cycle() {
    let mut summary = new_cycle_summary();
    apply_delete_outcome(&mut summary, &DeleteOutcome::Deleted);
    apply_delete_outcome(&mut summary, &DeleteOutcome::Failed);
    apply_delete_outcome(&mut summary, &DeleteOutcome::Deleted);
    assert_eq!(summary.succeeded, 2);
    assert_eq!(summary.failed, 1);
}

#[test]
fn current_time_plan_on_failed_discovery_is_empty() {
    let (plan, _now) = pod_lifetime_manager::reconciler::plan_cycle_at_current_time(
        &Discovery::Failed,
    );
    assert!(plan.discovery_failed);
    assert!(plan.deletions.is_empty());
}

#[test]
fn current_time_plan_deletes_long_expired_pod() {
    // A pod whose container started at the epoch with a one-second lifetime
    // is expired at any plausible reading of the clock.
    let w = pod("ancient", "ns", "Running", &[(LIFETIME_LABEL, "1")], &[Some(0)]);
    let snapshot = ClusterSnapshot {
        labeled_pods: vec![w],
        all_pods: vec![],
        policies: vec![],
    };
    let (plan, now) = pod_lifetime_manager::reconciler::plan_cycle_at_current_time(
        &Discovery::Snapshot(snapshot),
    );
    assert!(now > 1);
    assert_eq!(names(&plan.deletions), vec![("ancient".to_string(), "ns".to_string())]);
}
