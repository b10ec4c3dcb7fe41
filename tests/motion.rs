use inert::backend::{rotation_outcome, watched_limit, BLOCK_TURN};
use inert::stepper::{half_step, net_steps, rotation_of_steps, step_back_steps, steps_needed};
use inert::backend::requested_rotation;
use inert::{
    Polled,
    ActuatorBackend, BackendComponents, CameraBackend, CameraFrame, FakeBackend, FakeCamera,
    MagnetBackend, FakeLimit, FakeMotor, LimitSide, LimitSwitchBackend, MotorBackend, MotorDirection,
    MotorRotation, ProtectedMotor, ProtectedMotorError,
};

fn micro(turns_millionths: u128) -> MotorRotation {
    MotorRotation { micro_turns: turns_millionths }
}

/// A motor that records how often it was asked to turn and achieves what it is told.
struct CountingMotor {
    calls: usize,
}

impl MotorBackend for CountingMotor {
    fn rotate<S: LimitSwitchBackend>(
        &mut self,
        _direction: MotorDirection,
        rotation: MotorRotation,
        _limit: &mut Polled<S>,
    ) -> MotorRotation {
        self.calls += 1;
        rotation
    }

    fn epsilon(&self) -> MotorRotation {
        MotorRotation { micro_turns: 0 }
    }
}

/// A limit switch that records how often it was read.
struct CountingLimit {
    reads: usize,
}

impl LimitSwitchBackend for CountingLimit {
    fn is_pressed(&mut self) -> bool {
        self.reads += 1;
        false
    }
}

#[test]
fn direction_flips_both_ways() {
    assert_eq!(MotorDirection::Clockwise.flipped(), MotorDirection::AntiClockwise);
    assert_eq!(MotorDirection::AntiClockwise.flipped(), MotorDirection::Clockwise);
    assert_eq!(!MotorDirection::Clockwise, MotorDirection::AntiClockwise);
    assert_eq!(!!MotorDirection::AntiClockwise, MotorDirection::AntiClockwise);
}

#[test]
fn direction_from_bool() {
    assert_eq!(MotorDirection::from(true), MotorDirection::AntiClockwise);
    assert_eq!(MotorDirection::from(false), MotorDirection::Clockwise);
}

#[test]
fn rotation_constants() {
    assert_eq!(MotorRotation::full().micro_turns, 1_000_000);
    assert_eq!(MotorRotation::half().micro_turns, 500_000);
    assert_eq!(MotorRotation::quarter().micro_turns, 250_000);
    assert_eq!(MotorRotation::default(), MotorRotation::full());
    assert_eq!(u128::from(MotorRotation::quarter()), 250_000);
}

#[test]
fn limit_side_follows_direction() {
    assert_eq!(watched_limit(MotorDirection::Clockwise), LimitSide::Left);
    assert_eq!(watched_limit(MotorDirection::AntiClockwise), LimitSide::Right);
}

#[test]
fn zero_blocks_touch_no_hardware() {
    for direction in [MotorDirection::Clockwise, MotorDirection::AntiClockwise] {
        let mut motor = ProtectedMotor::new(
            CountingMotor { calls: 0 },
            CountingLimit { reads: 0 },
            CountingLimit { reads: 0 },
        );
        assert_eq!(motor.rotate_block(direction, 0), Ok(()));
        assert_eq!(motor.motor().calls, 0);
        assert_eq!(motor.limit_l().reads, 0);
        assert_eq!(motor.limit_r().reads, 0);
    }
}

#[test]
fn full_rotation_with_epsilon_is_ok() {
    // 0.07 turns per block, epsilon 0.0005 turns, all ten blocks travelled.
    assert_eq!(BLOCK_TURN, 70_000);
    assert_eq!(rotation_outcome(10, micro(700_000), micro(500)), Ok(()));
}

#[test]
fn limit_after_six_of_ten_blocks() {
    assert_eq!(
        rotation_outcome(10, micro(420_000), micro(500)),
        Err(ProtectedMotorError::LimitHit { left_over: 4 })
    );
}

#[test]
fn shortfall_within_epsilon_is_not_a_hit() {
    assert_eq!(rotation_outcome(10, micro(699_500), micro(500)), Ok(()));
    assert_eq!(
        rotation_outcome(10, micro(699_499), micro(500)),
        Err(ProtectedMotorError::LimitHit { left_over: 0 })
    );
}

#[test]
fn overshoot_is_not_a_hit() {
    assert_eq!(rotation_outcome(3, micro(300_000), micro(0)), Ok(()));
}

#[test]
fn left_over_rounds_to_nearest_block() {
    // 2.5 blocks missed rounds up, 2.4 rounds down.
    assert_eq!(
        rotation_outcome(5, micro(175_000), micro(500)),
        Err(ProtectedMotorError::LimitHit { left_over: 3 })
    );
    assert_eq!(
        rotation_outcome(5, micro(182_000), micro(500)),
        Err(ProtectedMotorError::LimitHit { left_over: 2 })
    );
    assert_eq!(
        rotation_outcome(5, micro(0), micro(500)),
        Err(ProtectedMotorError::LimitHit { left_over: 5 })
    );
}

#[test]
fn left_over_stays_within_request() {
    for amount in 1..40usize {
        for achieved in [0u128, 1, 35_000, 69_999, 70_000, 140_000, 2_000_000] {
            match rotation_outcome(amount, micro(achieved), micro(156)) {
                Ok(()) => {}
                Err(ProtectedMotorError::LimitHit { left_over }) => {
                    assert!(left_over <= amount);
                    let missed = amount as u128 * 70_000 - achieved.min(amount as u128 * 70_000);
                    if missed >= 35_000 {
                        assert!(left_over > 0);
                    }
                }
            }
        }
    }
}

#[test]
fn stepper_conversions() {
    assert_eq!(steps_needed(micro(70_000)), 224);
    assert_eq!(steps_needed(MotorRotation::full()), 3200);
    assert_eq!(steps_needed(micro(156)), 0);
    assert_eq!(steps_needed(micro(157)), 1);
    assert_eq!(rotation_of_steps(224).micro_turns, 70_000);
    assert_eq!(rotation_of_steps(1).micro_turns, 312);
    assert_eq!(step_back_steps(1000), 800);
    assert_eq!(step_back_steps(5), 5);
    assert_eq!(half_step().micro_turns, 156);
}

#[test]
fn fake_motor_turns_fully_when_free() {
    let mut motor = ProtectedMotor::new(
        FakeMotor::new(1),
        FakeLimit::new(false),
        FakeLimit::new(false),
    );
    assert_eq!(motor.rotate_block(MotorDirection::Clockwise, 10), Ok(()));
    let mut m = FakeMotor::new(2);
    let mut free = Polled::new(FakeLimit::new(false));
    let r = m.rotate(MotorDirection::AntiClockwise, micro(70_000), &mut free);
    assert_eq!(r.micro_turns, 70_000);
    assert_eq!(m.epsilon().micro_turns, 156);
}

#[test]
fn fake_motor_stops_on_pressed_limit() {
    // Only the switch in the direction of travel is read.
    let mut motor = ProtectedMotor::new(
        FakeMotor::new(1),
        FakeLimit::new(true),
        FakeLimit::new(false),
    );
    assert_eq!(
        motor.rotate_block(MotorDirection::Clockwise, 10),
        Err(ProtectedMotorError::LimitHit { left_over: 10 })
    );
    assert_eq!(motor.rotate_block(MotorDirection::AntiClockwise, 10), Ok(()));
}

#[test]
fn fake_camera_gives_empty_frame() {
    let mut camera = FakeCamera;
    assert!(camera.start().starts_with("https://"));
    assert_eq!(camera.capture().take(), Some(Vec::new()));
    camera.stop();
}

#[test]
fn fake_actuator_and_magnet_remember_state() {
    let mut actuator = FakeBackend::actuator();
    assert!(!actuator.extended);
    actuator.extend();
    assert!(actuator.extended);
    actuator.contract();
    assert!(!actuator.extended);
    let mut magnet = FakeBackend::magnet();
    magnet.set(true);
    assert!(magnet.on);
    magnet.set(false);
    assert!(!magnet.on);
    assert_eq!(FakeBackend::motor_x().id(), 1);
    assert_eq!(FakeBackend::motor_y().id(), 2);
}

#[test]
fn net_steps_after_a_press() {
    assert_eq!(net_steps(224, None), 224);
    // Pressed after the first step: one step taken, nothing to back off.
    assert_eq!(net_steps(224, Some(0)), 1);
    // Pressed after step 99: 100 taken, 99 backed off.
    assert_eq!(net_steps(2240, Some(99)), 1);
    // Pressed after step 1999: 2000 taken, a quarter turn (800) backed off.
    assert_eq!(net_steps(2240, Some(1999)), 1200);
}

#[test]
fn requested_rotation_per_block() {
    assert_eq!(requested_rotation(0).micro_turns, 0);
    assert_eq!(requested_rotation(10).micro_turns, 700_000);
}
