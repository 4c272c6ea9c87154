use vstd::prelude::*;
use crate::constants::{HALF_TURN, MAX_COORD, PENDULUM_HEIGHT, QUARTER_TURN};

verus! {

/// A position in the plane of the simulation, in thousandths of a pixel.
#[derive(Clone, Copy, Debug, PartialEq, Eq, Structural)]
pub struct Point {
    pub x: i64,
    pub y: i64,
}

impl Point {
    /// Both coordinates lie within the range the library computes on.
    pub open spec fn in_range(self) -> bool {
        -MAX_COORD <= self.x <= MAX_COORD && -MAX_COORD <= self.y <= MAX_COORD
    }
}

/// What the regulators know of the pendulum in one tick.
#[derive(Clone, Copy, Debug, PartialEq, Eq)]
pub struct Pendulum {
    /// Signed tilt from upright over the full circle, in millionths of a
    /// degree; `None` where the geometry gives no angle.
    pub tilt_angle: Option<i64>,
    /// Offset of the cart from the origin of the track.
    pub position_error: i64,
    /// The pendulum's mass stands higher than the cart.
    pub above_cart: bool,
}

impl Default for Pendulum {
    fn default() -> (r: Self)
        ensures
            r.tilt_angle == Some(0i64),
            r.position_error == 0,
            !r.above_cart,
    {
        Pendulum { tilt_angle: Some(0), position_error: 0, above_cart: false }
    }
}

/// The horizontal offset of the pendulum from the cart is no longer than
/// the arm, so that its arcsine exists.
pub open spec fn within_arm(cart: Point, pendulum: Point) -> bool {
    -PENDULUM_HEIGHT <= pendulum.x - cart.x <= PENDULUM_HEIGHT
}

/// Full-circle tilt from the arcsine of the horizontal offset: above the
/// cart it is the arcsine itself, below it is mirrored about the horizontal
/// on the side where the pendulum hangs.
pub open spec fn full_circle_tilt(raw_angle: int, above_cart: bool, right_side: bool) -> int {
    if above_cart {
        raw_angle
    } else if right_side {
        HALF_TURN - raw_angle
    } else {
        -HALF_TURN - raw_angle
    }
}

/// The tilt that the estimator reports for two positions and the arcsine of
/// their normalised horizontal offset.
pub open spec fn estimated_tilt(cart: Point, pendulum: Point, raw_angle: int) -> Option<i64> {
    if within_arm(cart, pendulum) {
        Some(full_circle_tilt(raw_angle, pendulum.y > cart.y, pendulum.x > cart.x) as i64)
    } else {
        None
    }
}

/// Derives the pendulum's state from the positions of the cart and of the
/// pendulum. `raw_angle` is `degrees(asin((pendulum.x - cart.x) / L))` in
/// millionths of a degree, for the arm length `L`; where the offset is
/// longer than the arm the tilt is `None`, whatever `raw_angle` holds.
pub fn calculate_pendulum_state(cart: Point, pendulum: Point, raw_angle: i64) -> (r: Pendulum)
    requires
        cart.in_range(),
        pendulum.in_range(),
        -QUARTER_TURN <= raw_angle <= QUARTER_TURN,
    ensures
        r.position_error == cart.x,
        r.above_cart == (pendulum.y > cart.y),
        r.tilt_angle == estimated_tilt(cart, pendulum, raw_angle as int),
        within_arm(cart, pendulum) && pendulum.y > cart.y ==> r.tilt_angle == Some(raw_angle),
{
    let above_cart = pendulum.y > cart.y;
    let offset = pendulum.x - cart.x;
    let tilt_angle = if offset > PENDULUM_HEIGHT || offset < -PENDULUM_HEIGHT {
        None
    } else if above_cart {
        Some(raw_angle)
    } else if pendulum.x > cart.x {
        Some(HALF_TURN - raw_angle)
    } else {
        Some(-HALF_TURN - raw_angle)
    };
    Pendulum { tilt_angle, position_error: cart.x, above_cart }
}

/// The arcsine, in millionths of a degree, of the sine of an angle
/// `theta` measured from upright toward the right.
pub open spec fn arcsine_of_sine(theta: int) -> int {
    if theta > QUARTER_TURN {
        HALF_TURN - theta
    } else if theta < -QUARTER_TURN {
        -HALF_TURN - theta
    } else {
        theta
    }
}

/// The tilt that the estimator reports for a pendulum at angle `theta` from
/// upright: on the arm's circle the offset from the cart is
/// `(L sin theta, L cos theta)`, so the pendulum stands above the cart when
/// `|theta|` is below a quarter turn and right of it when `theta` is
/// positive, and the arcsine handed in is that of `sin theta`.
pub open spec fn tilt_at(theta: int) -> int {
    full_circle_tilt(arcsine_of_sine(theta), -QUARTER_TURN < theta < QUARTER_TURN, theta > 0)
}

/// The estimate recovers the pendulum's angle everywhere on the circle but
/// straight down, where the offset gives no side.
pub proof fn lemma_estimate_recovers_angle(theta: int)
    requires
        -HALF_TURN < theta < HALF_TURN,
    ensures
        tilt_at(theta) == theta,
{
}

/// The full-circle tilt has no jump, also where the pendulum crosses the
/// horizontal: between two positions of the pendulum the reported tilt
/// moves exactly as far as the pendulum turned.
pub proof fn lemma_tilt_continuous_across_horizontal(theta1: int, theta2: int)
    requires
        -HALF_TURN < theta1 < HALF_TURN,
        -HALF_TURN < theta2 < HALF_TURN,
    ensures
        tilt_at(theta2) - tilt_at(theta1) == theta2 - theta1,
{
    lemma_estimate_recovers_angle(theta1);
    lemma_estimate_recovers_angle(theta2);
}

} // verus!
