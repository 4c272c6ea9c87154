use vstd::prelude::*;
use crate::constants::{MAX_CART_SPEED, MILLI, MOVING_FORCE, TRACK_WIDTH};

verus! {

/// Horizontal state of the cart: position in thousandths of a pixel,
/// velocity in thousandths of a pixel per second.
#[derive(Clone, Copy, Debug, PartialEq, Eq, Structural)]
pub struct Cart {
    pub position: i64,
    pub velocity: i64,
}

/// A horizontal velocity held to the cart's top speed, sign kept.
pub open spec fn clamped_speed(velocity: int) -> int {
    if velocity > MAX_CART_SPEED {
        MAX_CART_SPEED as int
    } else if velocity < -MAX_CART_SPEED {
        -MAX_CART_SPEED
    } else {
        velocity
    }
}

/// The cart is past an end of the track.
pub open spec fn off_track(position: int) -> bool {
    position > TRACK_WIDTH || position < -TRACK_WIDTH
}

/// A position held to the track.
pub open spec fn clamped_position(position: int) -> int {
    if position > TRACK_WIDTH {
        TRACK_WIDTH as int
    } else if position < -TRACK_WIDTH {
        -TRACK_WIDTH
    } else {
        position
    }
}

/// Holds the cart's horizontal velocity to its top speed.
pub fn limit_horizontal_speed(velocity: &mut i64)
    ensures
        *final(velocity) == clamped_speed(*old(velocity) as int),
{
    if *velocity > MAX_CART_SPEED {
        *velocity = MAX_CART_SPEED;
    }
    if *velocity < -MAX_CART_SPEED {
        *velocity = -MAX_CART_SPEED;
    }
}

/// Holds the cart on the track: past an end it stops dead at that end.
pub fn limit_horizontal_position(position: &mut i64, velocity: &mut i64)
    ensures
        *final(position) == clamped_position(*old(position) as int),
        *final(velocity) == if off_track(*old(position) as int) {
            0
        } else {
            *old(velocity)
        },
{
    if *position > TRACK_WIDTH {
        *position = TRACK_WIDTH;
        *velocity = 0;
    }
    if *position < -TRACK_WIDTH {
        *position = -TRACK_WIDTH;
        *velocity = 0;
    }
}

/// Force, in thousandths, that the arrow keys ask for: left wins over right.
pub open spec fn manual_force(left_pressed: bool, right_pressed: bool) -> int {
    if left_pressed {
        -(MOVING_FORCE * MILLI)
    } else if right_pressed {
        MOVING_FORCE * MILLI
    } else {
        0
    }
}

impl Cart {
    /// Applies both clamps, speed first, then track.
    pub fn limit(&mut self)
        ensures
            final(self).position == clamped_position(old(self).position as int),
            final(self).velocity == if off_track(old(self).position as int) {
                0
            } else {
                clamped_speed(old(self).velocity as int)
            },
    {
        limit_horizontal_speed(&mut self.velocity);
        limit_horizontal_position(&mut self.position, &mut self.velocity);
    }
}

/// Manual driving: returns the force that the pressed keys ask for and
/// holds the cart within its speed and track limits.
pub fn cart_control(left_pressed: bool, right_pressed: bool, cart: &mut Cart) -> (force: i64)
    ensures
        force == manual_force(left_pressed, right_pressed),
        final(cart).position == clamped_position(old(cart).position as int),
        final(cart).velocity == if off_track(old(cart).position as int) {
            0
        } else {
            clamped_speed(old(cart).velocity as int)
        },
{
    let force = if left_pressed {
        -(MOVING_FORCE * MILLI)
    } else if right_pressed {
        MOVING_FORCE * MILLI
    } else {
        0
    };
    cart.limit();
    force
}

/// Past its top speed, the cart is slowed to exactly that speed, in the
/// direction it was moving.
pub proof fn lemma_speed_clamp_keeps_sign(velocity: int)
    requires
        velocity > MAX_CART_SPEED || velocity < -MAX_CART_SPEED,
    ensures
        clamped_speed(velocity) == if velocity > 0 {
            MAX_CART_SPEED as int
        } else {
            -MAX_CART_SPEED
        },
        velocity > 0 <==> clamped_speed(velocity) > 0,
{
}

/// The track clamp is symmetric: a position mirrored about the origin is
/// clamped to the mirrored position.
pub proof fn lemma_track_clamp_symmetric(position: int)
    ensures
        clamped_position(-position) == -clamped_position(position),
        off_track(-position) == off_track(position),
{
}

} // verus!
