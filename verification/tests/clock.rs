use rsx::clock::{
    next_sample_target, display_needs_present, inspect_needs_paint, pace, present_wait, sample_period, slice_step,
    target_cycles, wait_for_wall, Duration, Pace, SliceStep,
};

#[test]
fn one_wall_second_is_the_crystal() {
    assert_eq!(target_cycles(0, Duration::from_secs(1)), 33_868_800);
    assert_eq!(target_cycles(100, Duration::from_secs(1)), 100 + 33_868_800);
}

#[test]
fn guest_behind_wall_runs() {
    assert_eq!(pace(0, 0, Duration::from_secs(1)), Pace::Run);
}

#[test]
fn guest_ahead_of_wall_waits_the_difference() {
    assert_eq!(
        pace(33_868_800, 0, Duration::zero()),
        Pace::Wait(Duration::from_secs(1))
    );
}

#[test]
fn in_sync_waits_one_spu_sample() {
    let sample = sample_period();
    assert_eq!(sample, Duration::from_nanos(22_676));
    assert_eq!(pace(0, 0, Duration::zero()), Pace::Wait(sample));
    assert_eq!(
        pace(33_868_800, 0, Duration::from_secs(1)),
        Pace::Wait(sample)
    );
}

#[test]
fn wait_for_wall_is_none_when_behind_or_equal() {
    assert!(wait_for_wall(0, 0, Duration::from_secs(1)).is_none());
    assert!(wait_for_wall(33_868_800, 0, Duration::from_secs(1)).is_none());
}

#[test]
fn present_wait_is_at_least_one_vblank_not_one_spu_sample() {
    let sample = sample_period();
    let w = present_wait(sample);
    assert!(
        w >= Duration::from_millis(15),
        "egui must not wake every SPU sample ({sample:?} → {w:?})"
    );
    let long = Duration::from_millis(50);
    assert_eq!(present_wait(long), long);
}

#[test]
fn display_needs_present_only_when_vblank_advanced() {
    assert!(!display_needs_present(12, 12));
    assert!(display_needs_present(12, 13));
    assert!(display_needs_present(0, 1));
}

#[test]
fn inspect_ui_is_skipped_while_behind() {
    assert!(
        !inspect_needs_paint(Pace::Run),
        "32 GPR labels + log must not rebuild on a catch-up slice"
    );
    assert!(inspect_needs_paint(Pace::Wait(Duration::from_millis(16))));
}

/// A present slice as the Debugger runs it: decide, run the guest, decide again.
fn run_slice(
    origin_cycles: u64,
    wall: impl Fn() -> Duration,
    guest_cycles: impl Fn() -> u64,
    budget: Duration,
    host_dt: impl Fn() -> Duration,
    mut run_to: impl FnMut(u64),
) -> Pace {
    loop {
        match slice_step(origin_cycles, wall(), guest_cycles(), budget, host_dt()) {
            SliceStep::Return(p) => return p,
            SliceStep::RunToWall => run_to(target_cycles(origin_cycles, wall())),
        }
    }
}

#[test]
fn run_slice_stops_at_wait_when_guest_catches_wall() {
    let guest = std::cell::Cell::new(0u64);
    let wall = Duration::from_millis(10);
    let p = run_slice(
        0,
        || wall,
        || guest.get(),
        Duration::from_secs(1),
        || Duration::zero(),
        |target| guest.set(target),
    );
    assert!(
        matches!(p, Pace::Wait(_)),
        "one catch-up to the wall must Wait, not spin Run"
    );
    assert!(guest.get() >= target_cycles(0, wall));
}

#[test]
fn run_slice_keeps_running_until_budget_when_still_behind() {
    let guest = std::cell::Cell::new(0u64);
    let host = std::cell::Cell::new(Duration::zero());
    let steps = std::cell::Cell::new(0u32);
    let wall = Duration::from_secs(1);
    let p = run_slice(
        0,
        || wall,
        || guest.get(),
        Duration::from_millis(5),
        || host.get(),
        |_target| {
            guest.set(guest.get() + 1);
            steps.set(steps.get() + 1);
            host.set(Duration::from_nanos(host.get().as_nanos() as u64 + 1_000_000));
        },
    );
    assert_eq!(p, Pace::Run, "still behind after the present budget");
    assert!(
        steps.get() >= 5,
        "must keep calling run_to until budget, not once (steps={})",
        steps.get()
    );
}

#[test]
fn target_cycles_never_moves_back_with_more_wall_time() {
    let a = target_cycles(7, Duration::from_millis(3));
    let b = target_cycles(7, Duration::from_millis(4));
    assert!(a <= b);
    assert_eq!(target_cycles(u64::MAX, Duration::from_secs(1)), u64::MAX);
}

#[test]
fn headless_targets_step_by_period_and_stop_at_until() {
    assert_eq!(next_sample_target(0, None, 60), Some(60));
    assert_eq!(next_sample_target(10, Some(25), 60), Some(25));
    assert_eq!(next_sample_target(25, Some(25), 60), None);
    assert_eq!(next_sample_target(30, Some(25), 60), None);
    assert_eq!(next_sample_target(5, None, 0), Some(6), "a zero period is one vblank");
    assert_eq!(next_sample_target(u64::MAX, None, 1), None);
}
