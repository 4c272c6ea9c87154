use inverted_pendulum::{
    calculate_pendulum_state, regulator, replay, replay_tilt, setup_regulation, Pendulum, Point,
    PositionRegulator, RegulatorCoefficient, TiltRegulator,
};

/// One degree, in the library's angle steps.
const DEGREE: i64 = 1_000_000;

fn upright(tilt: i64) -> Pendulum {
    Pendulum { tilt_angle: Some(tilt), position_error: 0, above_cart: true }
}

#[test]
fn initial_gains() {
    let (tilt, position) = setup_regulation();
    assert_eq!(tilt.coefficient, RegulatorCoefficient::new(-800, -400, -600));
    assert_eq!(position.coefficient, RegulatorCoefficient::new(0, 0, 0));
    assert_eq!(position.target, 0);
    assert_eq!(tilt.coefficient.cumulative_error, 0);
    assert_eq!(tilt.coefficient.last_error, 0);
}

#[test]
fn tilt_step_exact_force() {
    let mut tilt = TiltRegulator::new();
    let force = tilt.step(&upright(DEGREE), 0);
    // P: 100000, D: 75000, I: 0.4, in whole units.
    assert_eq!(force, 175_000_400);
    assert_eq!(tilt.coefficient.cumulative_error, -DEGREE);
    assert_eq!(tilt.coefficient.last_error, -DEGREE);
}

#[test]
fn tilt_step_rounds_toward_zero() {
    let mut tilt = TiltRegulator::new();
    let force = tilt.step(&upright(-1), 0);
    assert_eq!(force, -175);
}

#[test]
fn tilt_bias_shifts_the_target() {
    let mut tilt = TiltRegulator { coefficient: RegulatorCoefficient::new(-800, 0, 0) };
    let force = tilt.step(&upright(DEGREE), DEGREE);
    assert_eq!(force, 0);
    let force = tilt.step(&upright(DEGREE), 2 * DEGREE);
    assert_eq!(force, -100_000_000);
}

#[test]
fn position_step_exact_bias() {
    let mut position = PositionRegulator::new();
    position.coefficient.proportional = 100;
    position.coefficient.integral = 200;
    let state = Pendulum { tilt_angle: Some(0), position_error: 10_000, above_cart: true };
    let bias = position.step(&state);
    // -10 px at gain 0.1 is -1 degree; the integral adds -0.006 degree.
    assert_eq!(bias, -1_006_000);
    assert_eq!(position.coefficient.cumulative_error, -30_000);
    assert_eq!(position.coefficient.last_error, -10_000);
}

#[test]
fn position_setpoint_is_configurable() {
    let mut position = PositionRegulator::new();
    position.coefficient.proportional = 100;
    position.target = 20_000;
    let state = Pendulum { tilt_angle: Some(0), position_error: 10_000, above_cart: true };
    assert_eq!(position.step(&state), DEGREE);
}

#[test]
fn disengaged_outside_the_window() {
    let mut tilt = TiltRegulator::new();
    tilt.step(&upright(DEGREE), 0);
    let memory = tilt.coefficient;
    assert_eq!(tilt.step(&upright(50 * DEGREE), 0), 0);
    assert_eq!(tilt.step(&upright(-50 * DEGREE), 0), 0);
    assert_eq!(tilt.step(&upright(120 * DEGREE), 0), 0);
    assert_eq!(tilt.coefficient, memory);
}

#[test]
fn disengaged_without_an_angle_or_below_the_cart() {
    let mut tilt = TiltRegulator::new();
    let mut position = PositionRegulator::new();
    position.coefficient.proportional = 100;
    let memory = position.coefficient;
    let unknown = Pendulum { tilt_angle: None, position_error: 5_000, above_cart: true };
    assert_eq!(regulator(&mut tilt, &mut position, &unknown), 0);
    assert_eq!(position.coefficient, memory);
    let below = Pendulum { tilt_angle: Some(DEGREE), position_error: 0, above_cart: false };
    assert_eq!(tilt.step(&below, 0), 0);
    assert_eq!(tilt.coefficient, TiltRegulator::new().coefficient);
}

#[test]
fn both_loops_rest_below_the_cart() {
    let mut tilt = TiltRegulator::new();
    let mut position = PositionRegulator::new();
    position.coefficient.proportional = 100;
    let memory = position.coefficient;
    let state = Pendulum { tilt_angle: Some(DEGREE), position_error: 10_000, above_cart: false };
    assert_eq!(regulator(&mut tilt, &mut position, &state), 0);
    assert_eq!(position.coefficient, memory);
    assert_eq!(tilt.coefficient, TiltRegulator::new().coefficient);
    let before_estimate = Pendulum::default();
    assert_eq!(regulator(&mut tilt, &mut position, &before_estimate), 0);
    assert_eq!(position.coefficient, memory);
    assert_eq!(tilt.coefficient, TiltRegulator::new().coefficient);
}

#[test]
fn no_windup_while_disengaged() {
    let mut interrupted = TiltRegulator::new();
    let mut direct = TiltRegulator::new();
    assert_eq!(interrupted.step(&upright(DEGREE), 0), direct.step(&upright(DEGREE), 0));
    let memory = interrupted.coefficient;
    assert_eq!(interrupted.step(&upright(60 * DEGREE), 0), 0);
    assert_eq!(interrupted.step(&Pendulum { tilt_angle: None, position_error: 0, above_cart: true }, 0), 0);
    assert_eq!(interrupted.step(&Pendulum { tilt_angle: Some(DEGREE), position_error: 0, above_cart: false }, 0), 0);
    assert_eq!(interrupted.coefficient, memory);
    let after_break = interrupted.step(&upright(2 * DEGREE), 0);
    let straight = direct.step(&upright(2 * DEGREE), 0);
    assert_eq!(after_break, straight);
    assert_eq!(interrupted.coefficient, direct.coefficient);
}

fn with_position_gains() -> (TiltRegulator, PositionRegulator) {
    let (tilt, mut position) = setup_regulation();
    position.coefficient.proportional = 100;
    position.coefficient.integral = 50;
    position.coefficient.derivative = 20;
    (tilt, position)
}

fn at(tilt: i64, offset: i64) -> Pendulum {
    Pendulum { tilt_angle: Some(tilt), position_error: offset, above_cart: true }
}

#[test]
fn cascade_no_windup_across_a_disengaged_interval() {
    let before = vec![at(DEGREE, 3_000), at(-2 * DEGREE, 4_000)];
    let idle = vec![
        at(70 * DEGREE, 90_000),
        Pendulum { tilt_angle: None, position_error: -8_000, above_cart: true },
        Pendulum { tilt_angle: Some(DEGREE), position_error: 1_000, above_cart: false },
    ];
    let after = vec![at(3 * DEGREE, -2_000), at(DEGREE / 2, 500)];
    let interrupted: Vec<Pendulum> = before.iter().chain(&idle).chain(&after).copied().collect();
    let straight: Vec<Pendulum> = before.iter().chain(&after).copied().collect();
    let (mut tilt_a, mut position_a) = with_position_gains();
    let (mut tilt_b, mut position_b) = with_position_gains();
    let forces_a = replay(&mut tilt_a, &mut position_a, &interrupted);
    let forces_b = replay(&mut tilt_b, &mut position_b, &straight);
    assert_eq!(&forces_a[0..2], &forces_b[0..2]);
    assert_eq!(&forces_a[2..5], &[0, 0, 0]);
    assert_eq!(&forces_a[5..7], &forces_b[2..4]);
    assert_eq!(tilt_a.coefficient, tilt_b.coefficient);
    assert_eq!(position_a.coefficient, position_b.coefficient);
}

#[test]
fn cascade_replay_is_deterministic() {
    let ticks = vec![
        at(DEGREE, 3_000),
        at(-4 * DEGREE, -1_000),
        at(80 * DEGREE, 0),
        Pendulum { tilt_angle: Some(DEGREE), position_error: 7_000, above_cart: false },
        at(2 * DEGREE, 12_000),
    ];
    let (mut tilt_a, mut position_a) = with_position_gains();
    let (mut tilt_b, mut position_b) = with_position_gains();
    let a = replay(&mut tilt_a, &mut position_a, &ticks);
    let b = replay(&mut tilt_b, &mut position_b, &ticks);
    assert_eq!(a, b);
    assert_eq!(a.len(), ticks.len());
    assert_eq!(tilt_a.coefficient, tilt_b.coefficient);
    assert_eq!(position_a.coefficient, position_b.coefficient);
    assert_eq!(a[2], 0);
    assert_eq!(a[3], 0);
}

#[test]
fn cascade_replay_matches_single_ticks() {
    let ticks = vec![at(DEGREE, 3_000), at(-2 * DEGREE, 5_000), at(60 * DEGREE, 0), at(DEGREE, -4_000)];
    let (mut tilt_a, mut position_a) = with_position_gains();
    let forces = replay(&mut tilt_a, &mut position_a, &ticks);
    let (mut tilt_b, mut position_b) = with_position_gains();
    for (k, state) in ticks.iter().enumerate() {
        assert_eq!(regulator(&mut tilt_b, &mut position_b, state), forces[k]);
    }
    assert_eq!(tilt_a.coefficient, tilt_b.coefficient);
    assert_eq!(position_a.coefficient, position_b.coefficient);
}

#[test]
fn replay_is_deterministic() {
    let ticks = vec![
        (upright(DEGREE), 0),
        (upright(2_500_000), -300_000),
        (upright(70 * DEGREE), 0),
        (upright(-4 * DEGREE), 1_200_000),
        (Pendulum { tilt_angle: None, position_error: 0, above_cart: true }, 0),
        (upright(-1), 0),
    ];
    let mut first = TiltRegulator::new();
    let mut second = TiltRegulator::new();
    let a = replay_tilt(&mut first, &ticks);
    let b = replay_tilt(&mut second, &ticks);
    assert_eq!(a, b);
    assert_eq!(first.coefficient, second.coefficient);
    assert_eq!(a.len(), ticks.len());
    assert_eq!(a[0], 175_000_400);
    assert_eq!(a[2], 0);
    assert_eq!(a[4], 0);
}

#[test]
fn replay_matches_single_steps() {
    let ticks = vec![(upright(DEGREE), 0), (upright(-2 * DEGREE), 500_000), (upright(3 * DEGREE), -500_000)];
    let mut replayed = TiltRegulator::new();
    let forces = replay_tilt(&mut replayed, &ticks);
    let mut stepped = TiltRegulator::new();
    for (k, (state, bias)) in ticks.iter().enumerate() {
        assert_eq!(stepped.step(state, *bias), forces[k]);
    }
    assert_eq!(stepped.coefficient, replayed.coefficient);
}

/// asin(5 / 100) in degrees, to the library's step.
const PUSH_ANGLE: i64 = 2_865_984;

#[test]
fn perturbation_gets_a_restoring_force() {
    let (_, mut position) = setup_regulation();
    let mut tilt = TiltRegulator { coefficient: RegulatorCoefficient::new(-800, 0, 0) };
    let cart = Point { x: 0, y: 0 };
    let level = calculate_pendulum_state(cart, Point { x: 0, y: 100_000 }, 0);
    assert_eq!(level.tilt_angle, Some(0));
    assert!(level.above_cart);
    assert_eq!(level.position_error, 0);
    assert_eq!(regulator(&mut tilt, &mut position, &level), 0);
    let expected_tilt = 5.0f64 / 100.0;
    let expected_tilt = expected_tilt.asin().to_degrees();
    assert!((PUSH_ANGLE as f64 / DEGREE as f64 - expected_tilt).abs() <= 1e-5);
    let pushed = calculate_pendulum_state(cart, Point { x: 5_000, y: 99_875 }, PUSH_ANGLE);
    assert_eq!(pushed.tilt_angle, Some(PUSH_ANGLE));
    let force = regulator(&mut tilt, &mut position, &pushed);
    // e * F * Kp = -2.865984 * 125000 * -0.8 = 286598.4 whole units.
    assert_eq!(force, 286_598_400);
    // The force opposes the tilt error (target minus tilt) and drives the
    // cart under the leaning mass.
    assert!(force > 0);
}

#[test]
fn perturbation_to_the_left_mirrors() {
    let (_, mut position) = setup_regulation();
    let mut tilt = TiltRegulator { coefficient: RegulatorCoefficient::new(-800, 0, 0) };
    let pushed = calculate_pendulum_state(Point { x: 0, y: 0 }, Point { x: -5_000, y: 99_875 }, -PUSH_ANGLE);
    assert_eq!(pushed.tilt_angle, Some(-PUSH_ANGLE));
    assert_eq!(regulator(&mut tilt, &mut position, &pushed), -286_598_400);
}
