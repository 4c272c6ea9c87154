use vstd::prelude::*;

verus! {

/// Scale of every fixed-point quantity: one unit is this many steps.
pub const MILLI: i64 = 1000;

/// Steps of an angle in one degree.
pub const ANGLE_SCALE: i64 = 1_000_000;

/// Half a turn, in millionths of a degree.
pub const HALF_TURN: i64 = 180_000_000;

/// A quarter turn, in millionths of a degree: the range of an arcsine.
pub const QUARTER_TURN: i64 = 90_000_000;

/// Length of the pendulum arm, in thousandths of a pixel.
pub const PENDULUM_HEIGHT: i64 = 100_000;

/// Mass of the cart.
pub const CART_MASS: i64 = 100;

/// Top horizontal speed of the cart, in thousandths of a pixel per second.
pub const MAX_CART_SPEED: i64 = 250_000;

/// Force that brings the cart to its top speed in two seconds, in whole
/// force units: half the cart's mass, times ten, times the top speed in
/// pixels per second.
pub const MOVING_FORCE: i64 = 125_000;

/// Half the width of the track, in thousandths of a pixel.
pub const TRACK_WIDTH: i64 = 320_000;

/// Tilt at or beyond which both regulators let go, in millionths of a
/// degree.
pub const ENGAGE_THRESHOLD: i64 = 50_000_000;

/// Weight of one tick in the position regulator's integral, in thousandths.
pub const POSITION_INTEGRATION_STEP: i64 = 3;

/// Largest magnitude of a regulator gain, in thousandths.
pub const MAX_GAIN: i64 = 10_000;

/// Largest magnitude of a coordinate or a position target.
pub const MAX_COORD: i64 = 1_000_000_000;

/// Largest magnitude of the target bias handed to the tilt regulator.
pub const MAX_BIAS: i64 = 100_000_000_000_000;

/// Largest magnitude of a tilt error: a bias plus a tilt inside the window.
pub const MAX_TILT_ERROR: i64 = 200_000_000_000_000;

/// Bound at which the position regulator's integral saturates.
pub const MAX_ACCUMULATED: i64 = 1_000_000_000_000;

/// Bound at which the tilt regulator's integral saturates.
pub const MAX_TILT_ACCUMULATED: i64 = 1_000_000_000_000_000;

/// Number of samples that a telemetry history keeps.
pub const HISTORY_LENGTH: usize = 800;

} // verus!
