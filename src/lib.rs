//! Stabilisation of an inverted pendulum on a sliding cart.
//!
//! All quantities are fixed-point integers: lengths and positions in
//! thousandths of a pixel, angles in millionths of a degree, regulator gains
//! in thousandths, forces in thousandths of the physics engine's force unit.
//!
//! Each tick the estimator turns the positions of the cart and the pendulum
//! into a `Pendulum` state; the position regulator turns the cart's offset
//! into a bias of the tilt target; the tilt regulator turns the biased tilt
//! error into a horizontal force; the limiter holds the cart's speed and
//! position within bounds.
pub mod constants;
pub mod control;
pub mod estimator;
pub mod history;
pub mod limiter;
pub mod regulator;

pub use control::{regulator, replay, replay_tilt, setup_regulation};
pub use estimator::{calculate_pendulum_state, Pendulum, Point};
pub use history::{limit_vector_size, PendulumHistory};
pub use limiter::{cart_control, limit_horizontal_position, limit_horizontal_speed, Cart};
pub use regulator::{PositionRegulator, RegulatorCoefficient, TiltRegulator};
