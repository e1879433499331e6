//! Guest crystal versus wall time. The DAC is a speaker, not this clock.
use vstd::prelude::*;

use crate::display::{cycles_in_nanos, cycles_in_nanos_spec, CPU_HZ, CYCLES_PER_LINE, LINES_PER_FRAME};

verus! {

/// A span of wall time, in nanoseconds.
#[derive(Clone, Copy, Debug, PartialEq, Eq, PartialOrd, Ord, Hash)]
pub struct Duration {
    pub nanos: u128,
}

impl Duration {
    pub fn zero() -> (d: Duration)
        ensures
            d.nanos == 0,
    {
        Duration { nanos: 0 }
    }

    pub fn from_nanos(n: u64) -> (d: Duration)
        ensures
            d.nanos == n,
    {
        Duration { nanos: n as u128 }
    }

    pub fn from_millis(ms: u64) -> (d: Duration)
        ensures
            d.nanos == ms * 1_000_000,
    {
        Duration { nanos: (ms as u128) * 1_000_000 }
    }

    pub fn from_secs(s: u64) -> (d: Duration)
        ensures
            d.nanos == s * 1_000_000_000,
    {
        Duration { nanos: (s as u128) * 1_000_000_000 }
    }

    pub fn as_nanos(&self) -> (n: u128)
        ensures
            n == self.nanos,
    {
        self.nanos
    }

    pub fn is_zero(&self) -> (b: bool)
        ensures
            b == (self.nanos == 0),
    {
        self.nanos == 0
    }
}

/// What the host does next: run the guest, or present and sleep.
#[derive(Clone, Copy, Debug, PartialEq, Eq)]
pub enum Pace {
    /// Guest is behind wall: run until `target_cycles`.
    Run,
    /// Guest is at or ahead of wall: present and sleep this long.
    Wait(Duration),
}

/// Wall nanoseconds of one SPU sample (768 master cycles), rounded up.
pub open spec fn sample_period_spec() -> int {
    (768 * 1_000_000_000 + CPU_HZ - 1) / (CPU_HZ as int)
}

/// Wall time of one SPU sample (768 master cycles). In-sync wake, not a guessed floor.
pub fn sample_period() -> (d: Duration)
    ensures
        d.nanos == sample_period_spec(),
{
    let ns: u128 = (768u128 * 1_000_000_000 + CPU_HZ as u128 - 1) / CPU_HZ as u128;
    Duration { nanos: ns }
}

/// The guest cycle that `elapsed` of wall time after `origin_cycles` reaches.
pub open spec fn target_spec(origin_cycles: u64, elapsed: Duration) -> int {
    let t = origin_cycles + cycles_in_nanos_spec(elapsed.nanos);
    if t > u64::MAX {
        u64::MAX as int
    } else {
        t
    }
}

/// Guest cycle deadline for `elapsed` of wall time since `origin_cycles`.
pub fn target_cycles(origin_cycles: u64, elapsed: Duration) -> (t: u64)
    ensures
        t == target_spec(origin_cycles, elapsed),
{
    origin_cycles.saturating_add(cycles_in_nanos(elapsed.nanos))
}

/// Wall nanoseconds at which `guest_cycles` is due, counting from `origin_cycles`.
pub open spec fn due_spec(guest_cycles: u64, origin_cycles: u64) -> int {
    let g = if guest_cycles > origin_cycles { guest_cycles - origin_cycles } else { 0 };
    g * 1_000_000_000 / (CPU_HZ as int)
}

/// How long wall time must advance before `guest_cycles` is due.
pub fn wait_for_wall(guest_cycles: u64, origin_cycles: u64, elapsed: Duration) -> (r: Option<
    Duration,
>)
    ensures
        match r {
            Some(d) => due_spec(guest_cycles, origin_cycles) > elapsed.nanos && d.nanos == (if due_spec(
                guest_cycles,
                origin_cycles,
            ) - elapsed.nanos > u64::MAX {
                u64::MAX as int
            } else {
                due_spec(guest_cycles, origin_cycles) - elapsed.nanos
            }),
            None => due_spec(guest_cycles, origin_cycles) <= elapsed.nanos,
        },
{
    let g: u64 = if guest_cycles > origin_cycles {
        guest_cycles - origin_cycles
    } else {
        0
    };
    let due_ns: u128 = (g as u128) * 1_000_000_000 / CPU_HZ as u128;
    let elapsed_ns = elapsed.nanos;
    if due_ns > elapsed_ns {
        let d = due_ns - elapsed_ns;
        Some(
            Duration {
                nanos: if d > u64::MAX as u128 {
                    u64::MAX as u128
                } else {
                    d
                },
            },
        )
    } else {
        None
    }
}

/// Run while the guest is behind the wall; else wait until it is due, or one SPU
/// sample when it is exactly in step.
pub open spec fn pace_spec(guest_cycles: u64, origin_cycles: u64, elapsed: Duration) -> Pace {
    if guest_cycles < target_spec(origin_cycles, elapsed) {
        Pace::Run
    } else {
        let due = due_spec(guest_cycles, origin_cycles);
        let wait = if due > elapsed.nanos {
            if due - elapsed.nanos > u64::MAX { u64::MAX as int } else { due - elapsed.nanos }
        } else {
            0
        };
        Pace::Wait(
            Duration {
                nanos: if wait == 0 {
                    sample_period_spec() as u128
                } else {
                    wait as u128
                },
            },
        )
    }
}

pub fn pace(guest_cycles: u64, origin_cycles: u64, elapsed: Duration) -> (p: Pace)
    ensures
        p == pace_spec(guest_cycles, origin_cycles, elapsed),
{
    if guest_cycles < target_cycles(origin_cycles, elapsed) {
        Pace::Run
    } else {
        let wait = match wait_for_wall(guest_cycles, origin_cycles, elapsed) {
            Some(d) => d,
            None => Duration::zero(),
        };
        Pace::Wait(
            if wait.is_zero() {
                sample_period()
            } else {
                wait
            },
        )
    }
}

/// Wall nanoseconds of one NTSC frame (263 lines of 2160 cycles).
pub open spec fn vblank_nanos_spec() -> int {
    (CYCLES_PER_LINE * LINES_PER_FRAME) * 1_000_000_000 / (CPU_HZ as int)
}

/// Floor for the host's wait before it presents again when the guest is at or ahead
/// of wall: at least one NTSC frame, so the host does not wake every SPU sample.
pub fn present_wait(wait: Duration) -> (d: Duration)
    ensures
        d.nanos == (if wait.nanos < vblank_nanos_spec() {
            vblank_nanos_spec()
        } else {
            wait.nanos as int
        }),
{
    let vblank_ns: u64 = (CYCLES_PER_LINE * LINES_PER_FRAME as u64) * 1_000_000_000 / CPU_HZ;
    let min = Duration::from_nanos(vblank_ns);
    if wait.nanos < min.nanos {
        min
    } else {
        wait
    }
}

/// The vblank count the headless run goes to next from `now`: `period` (at least one)
/// vblanks on, held at `until` and at the top of the counter; `None` once `until` is
/// reached or no later count is left.
pub open spec fn next_sample_target_spec(now: u64, until: Option<u64>, period: u64) -> Option<u64> {
    let step: int = if period == 0 { 1 } else { period as int };
    let ahead: int = if now + step > u64::MAX { u64::MAX as int } else { now + step };
    let t: int = match until {
        Some(n) => if (n as int) < ahead { n as int } else { ahead },
        None => ahead,
    };
    if (until matches Some(n) && now >= n) || t <= now {
        None
    } else {
        Some(t as u64)
    }
}

pub fn next_sample_target(now: u64, until: Option<u64>, period: u64) -> (t: Option<u64>)
    ensures
        t == next_sample_target_spec(now, until, period),
{
    if let Some(n) = until {
        if now >= n {
            return None;
        }
    }
    let step: u64 = if period == 0 {
        1
    } else {
        period
    };
    let mut target = now.saturating_add(step);
    if let Some(n) = until {
        if n < target {
            target = n;
        }
    }
    if target <= now {
        None
    } else {
        Some(target)
    }
}

/// Present the Display area again only when the guest vblank advanced.
pub fn display_needs_present(uploaded_vblank: u64, guest_vblank: u64) -> (b: bool)
    ensures
        b == (guest_vblank != uploaded_vblank),
{
    guest_vblank != uploaded_vblank
}

/// The inspector is not rebuilt while the guest is catching up.
pub fn inspect_needs_paint(pace: Pace) -> (b: bool)
    ensures
        b == !(pace is Run),
{
    match pace {
        Pace::Run => false,
        Pace::Wait(_) => true,
    }
}

/// One decision of a present slice.
#[derive(Clone, Copy, Debug, PartialEq, Eq)]
pub enum SliceStep {
    /// The slice ends with this pace.
    Return(Pace),
    /// Run the guest to `target_cycles` of the wall clock now, then decide again.
    RunToWall,
}

/// The decision a present slice makes each time round: stop once the guest is at
/// or ahead of the wall, or once `budget` of host time is spent; else run on.
pub fn slice_step(
    origin_cycles: u64,
    wall: Duration,
    guest_cycles: u64,
    budget: Duration,
    host_dt: Duration,
) -> (s: SliceStep)
    ensures
        s == (match pace_spec(guest_cycles, origin_cycles, wall) {
            Pace::Wait(d) => SliceStep::Return(Pace::Wait(d)),
            Pace::Run => if host_dt.nanos >= budget.nanos {
                SliceStep::Return(Pace::Run)
            } else {
                SliceStep::RunToWall
            },
        }),
{
    let p = pace(guest_cycles, origin_cycles, wall);
    match p {
        Pace::Wait(_) => SliceStep::Return(p),
        Pace::Run => {
            if host_dt.nanos >= budget.nanos {
                SliceStep::Return(Pace::Run)
            } else {
                SliceStep::RunToWall
            }
        },
    }
}

/// More wall time never moves the guest deadline back.
pub proof fn law_target_is_monotonic(origin_cycles: u64, e1: Duration, e2: Duration)
    requires
        e1.nanos <= e2.nanos,
    ensures
        target_spec(origin_cycles, e1) <= target_spec(origin_cycles, e2),
{
    let a = if e1.nanos * (CPU_HZ as int) > u128::MAX { u128::MAX as int } else { e1.nanos * (CPU_HZ as int) };
    let b = if e2.nanos * (CPU_HZ as int) > u128::MAX { u128::MAX as int } else { e2.nanos * (CPU_HZ as int) };
    assert(e1.nanos * (CPU_HZ as int) <= e2.nanos * (CPU_HZ as int)) by (nonlinear_arith)
        requires
            e1.nanos <= e2.nanos,
    ;
    assert(a <= b);
    assert(a / 1_000_000_000 <= b / 1_000_000_000) by (nonlinear_arith)
        requires
            0 <= a <= b,
    ;
}

} // verus!
