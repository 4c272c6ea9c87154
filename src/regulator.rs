use vstd::prelude::*;
use crate::constants::{
    ANGLE_SCALE, ENGAGE_THRESHOLD, MAX_ACCUMULATED, MAX_BIAS, MAX_COORD, MAX_GAIN,
    MAX_TILT_ACCUMULATED, MAX_TILT_ERROR, MILLI, MOVING_FORCE, POSITION_INTEGRATION_STEP,
};
use crate::estimator::Pendulum;

verus! {

/// Gains and memory of one PID regulator. Gains are in thousandths.
#[derive(Clone, Copy, Debug, PartialEq, Eq, Structural)]
pub struct RegulatorCoefficient {
    pub proportional: i64,
    pub integral: i64,
    pub derivative: i64,
    /// Running integral of the error; it is never reset.
    pub cumulative_error: i64,
    /// Error of the last engaged tick, for the derivative term.
    pub last_error: i64,
}

impl RegulatorCoefficient {
    /// Gains and memory lie within the ranges the regulator computes on;
    /// `error_bound` bounds the errors its loop can see and
    /// `accumulated_bound` is where its integral saturates.
    pub open spec fn wf(self, error_bound: int, accumulated_bound: int) -> bool {
        &&& -MAX_GAIN <= self.proportional <= MAX_GAIN
        &&& -MAX_GAIN <= self.integral <= MAX_GAIN
        &&& -MAX_GAIN <= self.derivative <= MAX_GAIN
        &&& -accumulated_bound <= self.cumulative_error <= accumulated_bound
        &&& -error_bound <= self.last_error <= error_bound
    }

    /// Gains with an empty memory.
    pub open spec fn fresh(proportional: int, integral: int, derivative: int) -> Self {
        RegulatorCoefficient {
            proportional: proportional as i64,
            integral: integral as i64,
            derivative: derivative as i64,
            cumulative_error: 0,
            last_error: 0,
        }
    }

    /// A regulator with the given gains and empty memory.
    pub fn new(proportional: i64, integral: i64, derivative: i64) -> (r: Self)
        requires
            -MAX_GAIN <= proportional <= MAX_GAIN,
            -MAX_GAIN <= integral <= MAX_GAIN,
            -MAX_GAIN <= derivative <= MAX_GAIN,
        ensures
            r == Self::fresh(proportional as int, integral as int, derivative as int),
    {
        RegulatorCoefficient { proportional, integral, derivative, cumulative_error: 0, last_error: 0 }
    }

    /// The same gains, with the memory of one more engaged tick.
    pub open spec fn remember(self, cumulative_error: int, last_error: int) -> Self {
        RegulatorCoefficient {
            cumulative_error: cumulative_error as i64,
            last_error: last_error as i64,
            ..self
        }
    }
}

/// Division of fixed-point products, rounding toward zero.
pub open spec fn div_toward_zero(a: int, d: int) -> int {
    if a >= 0 {
        a / d
    } else {
        -((-a) / d)
    }
}

/// An accumulator value held within a saturation bound.
pub open spec fn saturate(v: int, bound: int) -> int {
    if v > bound {
        bound
    } else if v < -bound {
        -bound
    } else {
        v
    }
}

/// The tilt is known and strictly inside the engagement window.
pub open spec fn in_engagement_window(tilt_angle: Option<i64>) -> bool {
    match tilt_angle {
        Some(t) => -ENGAGE_THRESHOLD < t < ENGAGE_THRESHOLD,
        None => false,
    }
}

/// The tilt regulator acts: the pendulum stands above the cart and its
/// tilt is inside the engagement window.
pub open spec fn tilt_engaged(pendulum: Pendulum) -> bool {
    pendulum.above_cart && in_engagement_window(pendulum.tilt_angle)
}

/// Tests whether a tilt is known and strictly inside the engagement window.
pub fn within_engagement_window(tilt_angle: Option<i64>) -> (r: bool)
    ensures
        r == in_engagement_window(tilt_angle),
{
    match tilt_angle {
        Some(t) => -ENGAGE_THRESHOLD < t && t < ENGAGE_THRESHOLD,
        None => false,
    }
}

proof fn lemma_mul_abs_bound(a: int, b: int, ba: int, bb: int)
    requires
        -ba <= a <= ba,
        -bb <= b <= bb,
    ensures
        -(ba * bb) <= a * b <= ba * bb,
{
    assert(-(ba * bb) <= a * b <= ba * bb) by (nonlinear_arith)
        requires
            -ba <= a <= ba,
            -bb <= b <= bb,
    ;
}

proof fn lemma_div_toward_zero_bound(a: int, d: int, bound: int)
    requires
        d > 0,
        -bound <= a <= bound,
    ensures
        -(bound / d) <= div_toward_zero(a, d) <= bound / d,
{
    if a >= 0 {
        assert(a / d <= bound / d) by (nonlinear_arith)
            requires
                0 <= a <= bound,
                d > 0,
        ;
        assert(a / d >= 0) by (nonlinear_arith)
            requires
                0 <= a,
                d > 0,
        ;
    } else {
        assert((-a) / d <= bound / d) by (nonlinear_arith)
            requires
                0 <= -a <= bound,
                d > 0,
        ;
        assert((-a) / d >= 0) by (nonlinear_arith)
            requires
                0 <= -a,
                d > 0,
        ;
    }
}

/// Divides a fixed-point product, rounding toward zero.
fn divide_toward_zero(a: i128, d: i128) -> (r: i128)
    requires
        d > 0,
        a > i128::MIN,
    ensures
        r == div_toward_zero(a as int, d as int),
{
    if a >= 0 {
        a / d
    } else {
        let q = (-a) / d;
        proof {
            assert(q >= 0) by (nonlinear_arith)
                requires
                    q == (-a) / (d as int),
                    -a >= 0,
                    d > 0,
            ;
        }
        -q
    }
}

/// Adds to an accumulator, saturating at the bound.
fn accumulate(current: i64, increment: i128, bound: i64) -> (r: i64)
    requires
        0 < bound <= MAX_TILT_ACCUMULATED,
        -bound <= current <= bound,
        -MAX_TILT_ACCUMULATED <= increment <= MAX_TILT_ACCUMULATED,
    ensures
        r == saturate(current + increment, bound as int),
{
    let sum = current as i128 + increment;
    if sum > bound as i128 {
        bound
    } else if sum < -(bound as i128) {
        -bound
    } else {
        sum as i64
    }
}

/// Error of the tilt regulator: the biased target minus the tilt.
pub open spec fn tilt_error(pendulum: Pendulum, bias: int) -> int {
    bias - pendulum.tilt_angle->0
}

/// Force of an engaged tilt regulator for an error, given its memory before
/// the tick and its integral after it.
pub open spec fn tilt_force(c: RegulatorCoefficient, error: int, cumulative_error: int) -> int {
    div_toward_zero(
        error * MOVING_FORCE * c.proportional + (error - c.last_error) * MOVING_FORCE
            * c.derivative + cumulative_error * c.integral,
        ANGLE_SCALE as int,
    )
}

/// One tick of the tilt regulator: its memory afterwards and the force it
/// commands. Disengaged, it commands no force and keeps its memory.
pub open spec fn tilt_step(c: RegulatorCoefficient, pendulum: Pendulum, bias: int) -> (
    RegulatorCoefficient,
    int,
) {
    if tilt_engaged(pendulum) {
        let error = tilt_error(pendulum, bias);
        let cumulative = saturate(c.cumulative_error + error, MAX_TILT_ACCUMULATED as int);
        (c.remember(cumulative, error), tilt_force(c, error, cumulative))
    } else {
        (c, 0)
    }
}

/// Error of the position regulator: the setpoint minus the cart's offset.
pub open spec fn position_error(target: int, pendulum: Pendulum) -> int {
    target - pendulum.position_error
}

/// Target bias of an engaged position regulator for an error, given its
/// memory before the tick and its integral after it. The integral is kept
/// in thousandths of the error, so its term is scaled down once more.
pub open spec fn position_bias(c: RegulatorCoefficient, error: int, cumulative_error: int) -> int {
    div_toward_zero(
        MILLI * c.proportional * error + MILLI * c.derivative * (error - c.last_error)
            + c.integral * cumulative_error,
        MILLI as int,
    )
}

/// One tick of the position regulator: its memory afterwards and the tilt
/// bias it hands on. It engages together with the tilt regulator; while
/// disengaged it hands on no bias and keeps its memory.
pub open spec fn position_step(c: RegulatorCoefficient, target: int, pendulum: Pendulum) -> (
    RegulatorCoefficient,
    int,
) {
    if tilt_engaged(pendulum) {
        let error = position_error(target, pendulum);
        let cumulative = saturate(
            c.cumulative_error + POSITION_INTEGRATION_STEP * error,
            MAX_ACCUMULATED as int,
        );
        (c.remember(cumulative, error), position_bias(c, error, cumulative))
    } else {
        (c, 0)
    }
}

/// With a negative proportional gain alone, the tilt regulator pushes
/// against its error: the force never has the sign of the error, and is
/// nonzero once the unscaled product reaches one step of force.
pub proof fn lemma_proportional_force_opposes_error(
    c: RegulatorCoefficient,
    pendulum: Pendulum,
    bias: int,
)
    requires
        c.wf(MAX_TILT_ERROR as int, MAX_TILT_ACCUMULATED as int),
        c.proportional < 0,
        c.integral == 0,
        c.derivative == 0,
        tilt_engaged(pendulum),
        -MAX_BIAS <= bias <= MAX_BIAS,
    ensures
        tilt_error(pendulum, bias) > 0 ==> tilt_step(c, pendulum, bias).1 <= 0,
        tilt_error(pendulum, bias) < 0 ==> tilt_step(c, pendulum, bias).1 >= 0,
        tilt_error(pendulum, bias) * MOVING_FORCE * c.proportional >= ANGLE_SCALE ==> tilt_step(
            c,
            pendulum,
            bias,
        ).1 > 0,
        tilt_error(pendulum, bias) * MOVING_FORCE * c.proportional <= -ANGLE_SCALE ==> tilt_step(
            c,
            pendulum,
            bias,
        ).1 < 0,
{
    let e = tilt_error(pendulum, bias);
    let cumulative = saturate(c.cumulative_error + e, MAX_TILT_ACCUMULATED as int);
    let kp = c.proportional as int;
    let product = e * MOVING_FORCE * kp;
    let total = product + (e - c.last_error) * MOVING_FORCE * c.derivative + cumulative
        * c.integral;
    assert((e - c.last_error) * MOVING_FORCE * 0 == 0 && cumulative * 0 == 0) by (nonlinear_arith);
    assert(total == product);
    if e > 0 {
        assert(product <= 0) by (nonlinear_arith)
            requires
                product == e * MOVING_FORCE * kp,
                e >= 1,
                kp <= -1,
                MOVING_FORCE > 0,
        ;
        assert((-product) / 1_000_000 >= 0) by (nonlinear_arith)
            requires
                -product >= 0,
        ;
    } else if e < 0 {
        assert(product >= 0) by (nonlinear_arith)
            requires
                product == e * MOVING_FORCE * kp,
                e <= -1,
                kp <= -1,
                MOVING_FORCE > 0,
        ;
    }
    if product >= ANGLE_SCALE {
        assert(product / 1_000_000 >= 1) by (nonlinear_arith)
            requires
                product >= 1_000_000,
        ;
    }
    if product <= -ANGLE_SCALE {
        assert((-product) / 1_000_000 >= 1) by (nonlinear_arith)
            requires
                -product >= 1_000_000,
        ;
    }
}

/// The inner loop: keeps the tilt at a target that the outer loop biases.
#[derive(Clone, Copy, Debug, PartialEq, Eq, Structural)]
pub struct TiltRegulator {
    pub coefficient: RegulatorCoefficient,
}

/// The outer loop: turns the cart's distance from its setpoint into a
/// small lean of the tilt target.
#[derive(Clone, Copy, Debug, PartialEq, Eq, Structural)]
pub struct PositionRegulator {
    pub coefficient: RegulatorCoefficient,
    /// Where the cart should stand on the track.
    pub target: i64,
}

impl TiltRegulator {
    /// Gains and memory within range; the last error is at most a bias
    /// plus a tilt inside the window.
    pub open spec fn wf(self) -> bool {
        self.coefficient.wf(MAX_TILT_ERROR as int, MAX_TILT_ACCUMULATED as int)
    }

    /// The tilt regulator with its initial gains (-0.8, -0.4, -0.6).
    pub fn new() -> (r: Self)
        ensures
            r.wf(),
            r.coefficient == RegulatorCoefficient::fresh(-800, -400, -600),
    {
        TiltRegulator { coefficient: RegulatorCoefficient::new(-800, -400, -600) }
    }

    /// Runs one tick: returns the cart's horizontal force, in thousandths.
    pub fn step(&mut self, pendulum: &Pendulum, bias: i64) -> (force: i64)
        requires
            old(self).wf(),
            -MAX_BIAS <= bias <= MAX_BIAS,
        ensures
            final(self).wf(),
            (final(self).coefficient, force as int) == tilt_step(
                old(self).coefficient,
                *pendulum,
                bias as int,
            ),
            !tilt_engaged(*pendulum) ==> force == 0 && *final(self) == *old(self),
    {
        let engaged = pendulum.above_cart && within_engagement_window(pendulum.tilt_angle);
        if !engaged {
            return 0;
        }
        let tilt = match pendulum.tilt_angle {
            Some(t) => t,
            None => 0,
        };
        let c = self.coefficient;
        let error: i64 = bias - tilt;
        let cumulative = accumulate(c.cumulative_error, error as i128, MAX_TILT_ACCUMULATED);
        let ghost g_error = error as int;
        let ghost g_delta = g_error - c.last_error;
        let ghost bound_p = MAX_TILT_ERROR * MOVING_FORCE * MAX_GAIN;
        let ghost bound_d = 2 * MAX_TILT_ERROR * MOVING_FORCE * MAX_GAIN;
        let ghost bound_i = MAX_TILT_ACCUMULATED * MAX_GAIN;
        proof {
            lemma_mul_abs_bound(g_error, MOVING_FORCE as int, MAX_TILT_ERROR as int, MOVING_FORCE as int);
            lemma_mul_abs_bound(g_error * MOVING_FORCE, c.proportional as int, MAX_TILT_ERROR * MOVING_FORCE, MAX_GAIN as int);
            lemma_mul_abs_bound(g_delta, MOVING_FORCE as int, 2 * MAX_TILT_ERROR, MOVING_FORCE as int);
            lemma_mul_abs_bound(g_delta * MOVING_FORCE, c.derivative as int, 2 * MAX_TILT_ERROR * MOVING_FORCE, MAX_GAIN as int);
            lemma_mul_abs_bound(cumulative as int, c.integral as int, MAX_TILT_ACCUMULATED as int, MAX_GAIN as int);
        }
        let p = error as i128 * MOVING_FORCE as i128 * c.proportional as i128;
        let d = (error as i128 - c.last_error as i128) * MOVING_FORCE as i128 * c.derivative as i128;
        let i = cumulative as i128 * c.integral as i128;
        let total = p + d + i;
        proof {
            lemma_div_toward_zero_bound(total as int, ANGLE_SCALE as int, bound_p + bound_d + bound_i);
        }
        let force = divide_toward_zero(total, ANGLE_SCALE as i128);
        self.coefficient = RegulatorCoefficient { cumulative_error: cumulative, last_error: error, ..c };
        force as i64
    }
}

impl PositionRegulator {
    /// Gains, memory and setpoint within range; the last error is at most
    /// the distance between two coordinates.
    pub open spec fn wf(self) -> bool {
        &&& self.coefficient.wf(2 * MAX_COORD, MAX_ACCUMULATED as int)
        &&& -MAX_COORD <= self.target <= MAX_COORD
    }

    /// The position regulator with its initial gains, all zero, and the
    /// setpoint at the origin of the track.
    pub fn new() -> (r: Self)
        ensures
            r.wf(),
            r.coefficient == RegulatorCoefficient::fresh(0, 0, 0),
            r.target == 0,
    {
        PositionRegulator { coefficient: RegulatorCoefficient::new(0, 0, 0), target: 0 }
    }

    /// Runs one tick: returns the bias of the tilt target, in millionths of
    /// a degree.
    pub fn step(&mut self, pendulum: &Pendulum) -> (bias: i64)
        requires
            old(self).wf(),
            -MAX_COORD <= pendulum.position_error <= MAX_COORD,
        ensures
            final(self).wf(),
            -MAX_BIAS <= bias <= MAX_BIAS,
            (final(self).coefficient, bias as int) == position_step(
                old(self).coefficient,
                old(self).target as int,
                *pendulum,
            ),
            final(self).target == old(self).target,
            !tilt_engaged(*pendulum) ==> bias == 0 && *final(self) == *old(self),
    {
        if !(pendulum.above_cart && within_engagement_window(pendulum.tilt_angle)) {
            return 0;
        }
        let c = self.coefficient;
        let error: i64 = self.target - pendulum.position_error;
        assert(-2 * MAX_COORD <= error <= 2 * MAX_COORD);
        let cumulative = accumulate(
            c.cumulative_error,
            POSITION_INTEGRATION_STEP as i128 * error as i128,
            MAX_ACCUMULATED,
        );
        proof {
            lemma_mul_abs_bound(MILLI as int, c.proportional as int, 1000, 10_000);
            lemma_mul_abs_bound(MILLI as int, c.derivative as int, 1000, 10_000);
        }
        let kp = MILLI as i128 * c.proportional as i128;
        let kd = MILLI as i128 * c.derivative as i128;
        let delta = error as i128 - c.last_error as i128;
        // Bounds: |kp|, |kd| <= MILLI * MAX_GAIN, |error| <= 2 * MAX_COORD,
        // |delta| <= 4 * MAX_COORD, |cumulative| <= MAX_ACCUMULATED.
        proof {
            lemma_mul_abs_bound(kp as int, error as int, 10_000_000, 2_000_000_000);
            lemma_mul_abs_bound(kd as int, delta as int, 10_000_000, 4_000_000_000);
            lemma_mul_abs_bound(c.integral as int, cumulative as int, 10_000, 1_000_000_000_000);
        }
        let p = kp * error as i128;
        let d = kd * delta;
        let i = c.integral as i128 * cumulative as i128;
        let total = p + d + i;
        proof {
            lemma_div_toward_zero_bound(total as int, 1000, 70_000_000_000_000_000);
        }
        let bias = divide_toward_zero(total, MILLI as i128);
        self.coefficient = RegulatorCoefficient { cumulative_error: cumulative, last_error: error, ..c };
        bias as i64
    }
}

} // verus!
