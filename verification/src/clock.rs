//! The lifetime clock: effective start times and expiry comparison.
//!
//! A workload's effective start time is the earliest recorded "started
//! running" timestamp among its containers, as seconds since the Unix epoch.
//! A workload with a lifetime limit of `limit` seconds is expired once
//! `start + limit < now`.

use vstd::prelude::*;

verus! {

/// The earliest recorded start time among a workload's containers, or `None`
/// when no container has started.
pub open spec fn effective_start_spec(starts: Seq<Option<i64>>) -> Option<i64>
    decreases starts.len(),
{
    if starts.len() == 0 {
        None
    } else {
        let rest = effective_start_spec(starts.drop_last());
        match (rest, starts.last()) {
            (None, last) => last,
            (Some(m), None) => Some(m),
            (Some(m), Some(t)) => if t < m { Some(t) } else { Some(m) },
        }
    }
}

/// `start + limit < now`, over unbounded integers so no overflow is involved.
pub open spec fn lifetime_over_spec(start: i64, limit: u64, now: i64) -> bool {
    start + limit < now
}

/// Computes the effective start time of a workload from its per-container
/// start times.
pub fn effective_start_time(starts: &Vec<Option<i64>>) -> (r: Option<i64>)
    ensures
        r == effective_start_spec(starts@),
{
    let mut r: Option<i64> = None;
    let mut i: usize = 0;
    while i < starts.len()
        invariant
            i <= starts.len(),
            r == effective_start_spec(starts@.take(i as int)),
        decreases starts.len() - i,
    {
        proof {
            assert(starts@.take(i + 1).drop_last() =~= starts@.take(i as int));
        }
        match (r, starts[i]) {
            (None, last) => { r = last; }
            (Some(m), Some(t)) => { if t < m { r = Some(t); } }
            (Some(_), None) => {}
        }
        i = i + 1;
    }
    proof {
        assert(starts@.take(starts@.len() as int) =~= starts@);
    }
    r
}

/// Decides whether a workload that started at `start` and is allowed `limit`
/// seconds of lifetime is expired at time `now`. The comparison is exact:
/// it is carried out in a width where `start + limit` cannot overflow.
pub fn lifetime_is_over(start: i64, limit: u64, now: i64) -> (r: bool)
    ensures
        r == lifetime_over_spec(start, limit, now),
{
    (start as i128) + (limit as i128) < (now as i128)
}

/// Relies on `chrono::Utc::now` and `chrono::DateTime::timestamp`: reads the
/// wall clock as whole seconds since the Unix epoch. Nothing is assumed of
/// the value; callers state what holds of every reading.
#[verifier::external_body]
pub(crate) fn unix_now() -> i64 {
    chrono::Utc::now().timestamp()
}

} // verus!
