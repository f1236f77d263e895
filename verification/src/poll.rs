//! What a poll thread records as a heartbeat's metric, and the
//! per-heartbeat manual overrides that pin a metric.  `M` is the type
//! of a metric value.

use vstd::prelude::*;

verus! {

/// The metric a poll records: a manual override wins; otherwise the
/// probe's reading; a failed probe keeps the previous metric.
pub open spec fn next_metric_spec<M>(previous: M, override_value: Option<M>, probe: Option<M>) -> M {
    match override_value {
        Some(v) => v,
        None => match probe {
            Some(v) => v,
            None => previous,
        },
    }
}

/// Whether a poll has to run the probe: only when no override pins the
/// metric.
pub fn needs_probe<M>(override_value: &Option<M>) -> (r: bool)
    ensures
        r == override_value.is_none(),
{
    override_value.is_none()
}

/// The metric recorded after a poll (see `next_metric_spec`).  `probe`
/// is the probe's reading, `None` when it failed or did not run.
pub fn next_metric<M>(previous: M, override_value: Option<M>, probe: Option<M>) -> (r: M)
    ensures
        r == next_metric_spec(previous, override_value, probe),
{
    match override_value {
        Some(v) => v,
        None => match probe {
            Some(v) => v,
            None => previous,
        },
    }
}

/// Pin (`Some`) or release (`None`) the metric of heartbeat `idx`.
/// Returns `false`, changing nothing, when there is no such heartbeat.
pub fn set_override<M>(overrides: &mut Vec<Option<M>>, idx: usize, value: Option<M>) -> (r: bool)
    ensures
        r == (idx < old(overrides)@.len()),
        r ==> final(overrides)@ == old(overrides)@.update(idx as int, value),
        !r ==> final(overrides)@ == old(overrides)@,
{
    if idx < overrides.len() {
        overrides.set(idx, value);
        true
    } else {
        false
    }
}

/// Pinning one heartbeat's metric leaves every other heartbeat's
/// override, and so the metric its polls record, as it was.
pub proof fn lemma_override_is_per_heartbeat<M>(
    before: Seq<Option<M>>,
    idx: int,
    value: Option<M>,
    other: int,
    previous: M,
    probe: Option<M>,
)
    requires
        0 <= idx < before.len(),
        0 <= other < before.len(),
        other != idx,
    ensures
        before.update(idx, value)[other] == before[other],
        next_metric_spec(previous, before.update(idx, value)[other], probe) == next_metric_spec(
            previous,
            before[other],
            probe,
        ),
{
}

} // verus!
