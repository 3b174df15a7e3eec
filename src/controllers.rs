use vstd::prelude::*;

use std::time::Instant;

verus! {

/// std's `Instant`, a reading of the monotonic clock, held opaque: controllers only
/// store instants and hand them back to std to measure elapsed time.
#[verifier::external_type_specification]
#[verifier::external_body]
pub struct ExInstant(std::time::Instant);

/// Relies on std's `Instant::now` to read the clock; nothing is promised of the reading.
pub assume_specification[ std::time::Instant::now ]() -> std::time::Instant;

/// Whole nanoseconds from `earlier` to `now` as std measures them (zero when `earlier`
/// is not before `now`); it depends on the two instants alone.
pub uninterp spec fn elapsed_nanos_of(earlier: Instant, now: Instant) -> u128;

/// Relies on std's `Instant::saturating_duration_since`: the time from `earlier` to
/// `now`, zero when `earlier` is not before `now`; read out as whole nanoseconds.
#[verifier::external_body]
fn nanos_between(earlier: &Instant, now: &Instant) -> (r: u128)
    ensures
        r == elapsed_nanos_of(*earlier, *now),
        *earlier == *now ==> r == 0,
{
    now.saturating_duration_since(*earlier).as_nanos()
}

/// Least time, in nanoseconds, that the color controller lets pass between two actions
/// (it acts only once strictly more than this has elapsed).
pub const COLOR_THROTTLE_NANOS: u128 = 10_000_000;

/// Whether a color controller whose last action lies `elapsed_nanos` in the past acts again.
pub fn color_throttle_elapsed(elapsed_nanos: u128) -> (r: bool)
    ensures
        r == (elapsed_nanos > COLOR_THROTTLE_NANOS),
{
    elapsed_nanos > COLOR_THROTTLE_NANOS
}

/// Behaviour that jitters its entity's mesh and turns its transform, at most once
/// every ten milliseconds of its own clock.
pub struct ColorController {
    last_update: Instant,
}

impl ColorController {
    /// The instant of the controller's last action (its creation, before any).
    pub closed spec fn last_update(&self) -> Instant {
        self.last_update
    }

    /// A controller whose clock starts at `now`.
    pub fn starting_at(now: Instant) -> (r: Self)
        ensures
            r.last_update() == now,
    {
        ColorController { last_update: now }
    }

    /// A controller whose clock starts now.
    pub fn new() -> (r: Self) {
        Self::starting_at(Instant::now())
    }

    /// Decides whether the controller acts at `now`: exactly when more than
    /// `COLOR_THROTTLE_NANOS` have passed since its last action. If it acts, its clock
    /// restarts at `now`. Returns whether it acts.
    pub fn begin_update(&mut self, now: Instant) -> (acted: bool)
        ensures
            acted == (elapsed_nanos_of(old(self).last_update(), now) > COLOR_THROTTLE_NANOS),
            acted ==> final(self).last_update() == now,
            !acted ==> final(self).last_update() == old(self).last_update(),
    {
        let elapsed = nanos_between(&self.last_update, &now);
        if color_throttle_elapsed(elapsed) {
            self.last_update = now;
            true
        } else {
            false
        }
    }
}

/// Behaviour that turns its entity's transform on every pass.
pub struct RotatorController {
    last_update: Instant,
}

impl RotatorController {
    /// The instant the controller was made.
    pub closed spec fn last_update(&self) -> Instant {
        self.last_update
    }

    /// A controller whose clock starts at `now`.
    pub fn starting_at(now: Instant) -> (r: Self)
        ensures
            r.last_update() == now,
    {
        RotatorController { last_update: now }
    }

    /// A controller whose clock starts now.
    pub fn new() -> (r: Self) {
        Self::starting_at(Instant::now())
    }
}

} // verus!
