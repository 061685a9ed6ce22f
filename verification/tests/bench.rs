use awl::bench::{FramePasses, PlanWitness, WitnessError};

#[test]
fn each_frame_plans_once_plus_its_named_hug_pass() {
    let plain = FramePasses { content_hug: false };
    let hug = FramePasses { content_hug: true };
    assert_eq!(plain.per_frame(), 1);
    assert_eq!(hug.per_frame(), 2);
    assert_eq!(plain.names(), "the frame's own drawn plan");
    assert_eq!(
        hug.names(),
        "the frame's own drawn plan + the right-anchored content-hug measurement (`measure_overlay_content_w`)"
    );
}

#[test]
fn the_witness_settles_only_on_exactly_the_named_passes() {
    let w = PlanWitness::mark((100, 1000));
    let hug = FramePasses { content_hug: true };
    assert_eq!(w.settle((120, 1160), 10, &hug, 12, 500), Ok((2, 8)));
    assert_eq!(
        w.settle((121, 1160), 10, &hug, 12, 500),
        Err(WitnessError::PlanCount { plans: 21, frames: 10, per_frame: 2 })
    );
    assert_eq!(
        w.settle((120, 1000), 10, &hug, 12, 500),
        Err(WitnessError::PlanRows { mean: 0, window_rows: 12, items: 500 }),
        "a plan that held no rows"
    );
    assert_eq!(
        w.settle((120, 1300), 10, &hug, 12, 500),
        Err(WitnessError::PlanRows { mean: 15, window_rows: 12, items: 500 }),
        "a plan that grew past the window is O(doc)"
    );
}
