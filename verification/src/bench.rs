//! The scene-plan witness a benchmark scenario settles against: every timed
//! overlay frame runs exactly its NAMED planning passes, and each plan holds
//! at most the drawn window's rows.
use vstd::prelude::*;
use vstd::string::StringExecFns;

verus! {

/// The named planning passes one timed overlay frame is entitled to: the
/// frame's own drawn plan, plus the right-anchored content-hug measurement
/// when this world really ran it.
pub struct FramePasses {
    pub content_hug: bool,
}

impl FramePasses {
    /// Plans per frame: the frame's own, plus one for the hug measurement.
    pub fn per_frame(&self) -> (n: u64)
        ensures
            n == (if self.content_hug { 2u64 } else { 1u64 }),
    {
        if self.content_hug {
            2
        } else {
            1
        }
    }

    /// The named passes, joined by ` + `.
    pub fn names(&self) -> (s: String)
        ensures
            s@ == (if self.content_hug {
                "the frame's own drawn plan"@ + " + "@
                    + "the right-anchored content-hug measurement (`measure_overlay_content_w`)"@
            } else {
                "the frame's own drawn plan"@
            }),
    {
        let mut s = String::from_str("the frame's own drawn plan");
        if self.content_hug {
            s.append(" + ");
            s.append("the right-anchored content-hug measurement (`measure_overlay_content_w`)");
        }
        s
    }
}

/// Why a benchmark's planner witness refused to settle.
#[derive(Debug, PartialEq, Eq)]
pub enum WitnessError {
    /// The planner did not run exactly once per timed frame per named pass.
    PlanCount { plans: u64, frames: u64, per_frame: u64 },
    /// A plan held no rows, or more rows than the drawn window.
    PlanRows { mean: u64, window_rows: usize, items: u64 },
}

/// The planner's `(plans, rows)` counters read before the timed samples.
pub struct PlanWitness {
    pub plans: u64,
    pub rows: u64,
}

/// What `settle` concludes from the counters' growth.
pub open spec fn spec_settle(plans: int, rows: int, frames: int, per_frame: int, window_rows: int) -> Option<(int, int)> {
    let mean = if plans > 1 { rows / plans } else { rows };
    if plans != frames * per_frame {
        None
    } else if !(mean > 0 && mean <= window_rows) {
        None
    } else {
        Some((plans / frames, mean))
    }
}

impl PlanWitness {
    /// Mark the planner's counters `(plans, rows)` before the timed samples.
    pub fn mark(counters: (u64, u64)) -> (w: PlanWitness)
        ensures
            w.plans == counters.0,
            w.rows == counters.1,
    {
        PlanWitness { plans: counters.0, rows: counters.1 }
    }

    /// Settle against the counters `now` read after `frames` timed frames:
    /// `(plans per frame, mean planned rows per plan)` when the planner ran
    /// exactly the named passes per frame and each plan held `1..=window_rows`
    /// rows; otherwise the witness that failed.
    pub fn settle(&self, now: (u64, u64), frames: u64, passes: &FramePasses, window_rows: usize, items: u64) -> (r: Result<(u64, u64), WitnessError>)
        requires
            now.0 >= self.plans,
            now.1 >= self.rows,
            frames * (if passes.content_hug { 2int } else { 1int }) <= u64::MAX,
            frames > 0 || now.0 - self.plans != 0 || !(0 < now.1 - self.rows <= window_rows),
        ensures
            r matches Ok(v) ==> spec_settle(now.0 - self.plans, now.1 - self.rows, frames as int,
                if passes.content_hug { 2int } else { 1int }, window_rows as int) == Some((v.0 as int, v.1 as int)),
            r is Err <==> spec_settle(now.0 - self.plans, now.1 - self.rows, frames as int,
                if passes.content_hug { 2int } else { 1int }, window_rows as int) is None,
            r matches Err(WitnessError::PlanCount { plans, frames: f, per_frame }) ==> plans == now.0 - self.plans
                && f == frames && per_frame == (if passes.content_hug { 2u64 } else { 1u64 }),
    {
        let plans = now.0 - self.plans;
        let rows = now.1 - self.rows;
        let per_frame = passes.per_frame();
        if plans != frames * per_frame {
            return Err(WitnessError::PlanCount { plans, frames, per_frame });
        }
        let mean = rows / (if plans > 1 { plans } else { 1 });
        if !(mean > 0 && mean <= window_rows as u64) {
            return Err(WitnessError::PlanRows { mean, window_rows, items });
        }
        Ok((plans / frames, mean))
    }
}

} // verus!

verus! {

/// A settled witness proves the planner ran exactly the named passes on
/// every timed frame, and that each plan held between one row and the drawn
/// window's rows.
pub proof fn law_a_settled_witness_ran_exactly_the_named_passes(plans: int, rows: int, frames: int, per_frame: int, window_rows: int)
    requires
        spec_settle(plans, rows, frames, per_frame, window_rows) is Some,
    ensures
        plans == frames * per_frame,
        1 <= (spec_settle(plans, rows, frames, per_frame, window_rows)->0).1 <= window_rows,
{
}

} // verus!
