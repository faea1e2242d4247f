use vstd::prelude::*;

verus! {

/// How much one press of the up or down arrow changes the playback speed, in
/// simulated seconds per real second.
pub const SIM_SPEED_STEP: i64 = 200;

/// The playback speed never goes beyond this, in either direction.
pub const SIM_SPEED_LIMIT: i64 = 7200;

/// The playback speed the viewer starts with: one real second shows one simulated hour.
pub const INITIAL_SIM_SPEED: i64 = 3600;

/// Playback speed after one frame's keys: up raises it by a step (capped at the
/// limit), then down lowers it by a step (floored at minus the limit), then space
/// stops playback.
pub open spec fn speed_after_keys(speed: int, up: bool, down: bool, pause: bool) -> int {
    let raised = if up {
        if speed + SIM_SPEED_STEP < SIM_SPEED_LIMIT {
            speed + SIM_SPEED_STEP
        } else {
            SIM_SPEED_LIMIT as int
        }
    } else {
        speed
    };
    let lowered = if down {
        if raised - SIM_SPEED_STEP > -SIM_SPEED_LIMIT {
            raised - SIM_SPEED_STEP
        } else {
            -SIM_SPEED_LIMIT
        }
    } else {
        raised
    };
    if pause {
        0
    } else {
        lowered
    }
}

/// Applies this frame's arrow keys and space bar to the playback speed.
/// The speed is a whole number of simulated seconds per real second.
pub fn adjust_sim_speed(speed: i64, up: bool, down: bool, pause: bool) -> (next: i64)
    ensures
        next == speed_after_keys(speed as int, up, down, pause),
        up && !down && !pause ==> next == (if speed + 200 < 7200 { speed + 200 } else { 7200 }),
        !up && down && !pause ==> next == (if speed - 200 > -7200 { speed - 200 } else { -7200 }),
        !up && !down && !pause ==> next == speed,
        pause ==> next == 0,
{
    proof {
        lemma_up_alone(speed as int);
        lemma_down_alone(speed as int);
        lemma_no_keys(speed as int);
    }
    let mut s = speed;
    if up {
        s = if s < SIM_SPEED_LIMIT - SIM_SPEED_STEP {
            s + SIM_SPEED_STEP
        } else {
            SIM_SPEED_LIMIT
        };
    }
    if down {
        s = if s > SIM_SPEED_STEP - SIM_SPEED_LIMIT {
            s - SIM_SPEED_STEP
        } else {
            -SIM_SPEED_LIMIT
        };
    }
    if pause {
        s = 0;
    }
    s
}

/// A speed within the limits, and on the grid of whole steps, stays so after any keys.
pub proof fn lemma_speed_stays_in_range(speed: int, up: bool, down: bool, pause: bool)
    requires
        -SIM_SPEED_LIMIT <= speed <= SIM_SPEED_LIMIT,
        speed % (SIM_SPEED_STEP as int) == 0,
    ensures
        -SIM_SPEED_LIMIT <= speed_after_keys(speed, up, down, pause) <= SIM_SPEED_LIMIT,
        speed_after_keys(speed, up, down, pause) % (SIM_SPEED_STEP as int) == 0,
{
    let raised = if up {
        if speed + 200 < 7200 {
            speed + 200
        } else {
            7200
        }
    } else {
        speed
    };
    assert(raised % 200 == 0);
    assert(-7200 <= raised <= 7200);
}

/// Up alone raises the speed by exactly 200, from any speed (backwards, paused or
/// forwards), and never beyond 7200.
pub proof fn lemma_up_alone(speed: int)
    ensures
        speed + 200 < 7200 ==> speed_after_keys(speed, true, false, false) == speed + 200,
        speed + 200 >= 7200 ==> speed_after_keys(speed, true, false, false) == 7200,
{
}

/// Down alone lowers the speed by exactly 200, from any speed (so it also starts
/// backwards playback from a pause), and never below -7200.
pub proof fn lemma_down_alone(speed: int)
    ensures
        speed - 200 > -7200 ==> speed_after_keys(speed, false, true, false) == speed - 200,
        speed - 200 <= -7200 ==> speed_after_keys(speed, false, true, false) == -7200,
{
}

/// With no key pressed the speed does not change.
pub proof fn lemma_no_keys(speed: int)
    ensures
        speed_after_keys(speed, false, false, false) == speed,
{
}

/// The space bar always stops playback.
pub proof fn lemma_pause_stops(speed: int, up: bool, down: bool)
    ensures
        speed_after_keys(speed, up, down, true) == 0,
{
}

/// Up then down, away from the limits, brings the speed back where it was.
pub proof fn lemma_up_down_cancel(speed: int)
    requires
        -SIM_SPEED_LIMIT <= speed <= SIM_SPEED_LIMIT - SIM_SPEED_STEP,
    ensures
        speed_after_keys(speed, true, true, false) == speed,
{
}

} // verus!
