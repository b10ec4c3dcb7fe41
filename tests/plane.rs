use std::cell::Cell;
use std::rc::Rc;

use inert::plane::{
    achieved_offset, homing_next, measured_extent, offset_between, shifted, x_axis_move, y_axis_move,
    offset_for, AxisMove, Direction, HOMING_RETRIES, MAX_WIDTH,
};
use inert::{
    Polled,
    CalibrationError, FakeLimit, FakeMotor, LimitSwitchBackend, MotorBackend, MotorDirection,
    MotorRotation, PlaneData, PlaneImpl, ProtectedMotor, ProtectedMotorError,
};

const STEPS_PER_BLOCK: i64 = 224;

/// A simulated axis carriage: a position in micro-steps from the zero end, shared by the
/// axis's motor and its two limit switches.
struct SimMotor {
    pos: Rc<Cell<i64>>,
    /// The direction that moves the carriage away from zero.
    outward: MotorDirection,
    rotations: Rc<Cell<usize>>,
}

impl MotorBackend for SimMotor {
    fn rotate<S: LimitSwitchBackend>(
        &mut self,
        direction: MotorDirection,
        rotation: MotorRotation,
        limit: &mut Polled<S>,
    ) -> MotorRotation {
        self.rotations.set(self.rotations.get() + 1);
        let steps = (rotation.micro_turns * 3200 + 500_000) / 1_000_000;
        let delta = if direction == self.outward { 1 } else { -1 };
        let mut taken: u128 = 0;
        while taken < steps {
            if limit.read() {
                break;
            }
            self.pos.set(self.pos.get() + delta);
            taken += 1;
        }
        MotorRotation { micro_turns: taken * 1_000_000 / 3200 }
    }

    fn epsilon(&self) -> MotorRotation {
        MotorRotation { micro_turns: 156 }
    }
}

/// Pressed when the carriage is at or beyond `at`, on the side given by `far`.
struct SimLimit {
    pos: Rc<Cell<i64>>,
    at: i64,
    far: bool,
}

impl LimitSwitchBackend for SimLimit {
    fn is_pressed(&mut self) -> bool {
        if self.far {
            self.pos.get() >= self.at
        } else {
            self.pos.get() <= self.at
        }
    }
}

struct Rig {
    x: Rc<Cell<i64>>,
    y: Rc<Cell<i64>>,
    rotations_x: Rc<Cell<usize>>,
    rotations_y: Rc<Cell<usize>>,
}

/// A plane whose axes can travel `width` and `height` blocks, with its carriage at
/// (`start_x`, `start_y`) blocks.
fn sim_plane(
    width: i64,
    height: i64,
    start_x: i64,
    start_y: i64,
) -> (PlaneImpl<SimMotor, SimLimit>, Rig) {
    let x = Rc::new(Cell::new(start_x * STEPS_PER_BLOCK));
    let y = Rc::new(Cell::new(start_y * STEPS_PER_BLOCK));
    let rotations_x = Rc::new(Cell::new(0));
    let rotations_y = Rc::new(Cell::new(0));
    // x: clockwise runs outwards, towards the left switch; y the other way round.
    let motor_x = ProtectedMotor::new(
        SimMotor { pos: x.clone(), outward: MotorDirection::Clockwise, rotations: rotations_x.clone() },
        SimLimit { pos: x.clone(), at: width * STEPS_PER_BLOCK, far: true },
        SimLimit { pos: x.clone(), at: 0, far: false },
    );
    let motor_y = ProtectedMotor::new(
        SimMotor {
            pos: y.clone(),
            outward: MotorDirection::AntiClockwise,
            rotations: rotations_y.clone(),
        },
        SimLimit { pos: y.clone(), at: 0, far: false },
        SimLimit { pos: y.clone(), at: height * STEPS_PER_BLOCK, far: true },
    );
    (PlaneImpl::new(motor_x, motor_y), Rig { x, y, rotations_x, rotations_y })
}

fn fake_plane() -> PlaneImpl<FakeMotor, FakeLimit> {
    let free = || FakeLimit::new(false);
    PlaneImpl::new(
        ProtectedMotor::new(FakeMotor::new(1), free(), free()),
        ProtectedMotor::new(FakeMotor::new(2), free(), free()),
    )
}

#[test]
fn axis_sign_conventions() {
    assert_eq!(x_axis_move(5), AxisMove { direction: MotorDirection::Clockwise, blocks: 5 });
    assert_eq!(x_axis_move(-5), AxisMove { direction: MotorDirection::AntiClockwise, blocks: 5 });
    assert_eq!(x_axis_move(0), AxisMove { direction: MotorDirection::Clockwise, blocks: 0 });
    assert_eq!(y_axis_move(5), AxisMove { direction: MotorDirection::AntiClockwise, blocks: 5 });
    assert_eq!(y_axis_move(-5), AxisMove { direction: MotorDirection::Clockwise, blocks: 5 });
    assert_eq!(
        x_axis_move(isize::MIN),
        AxisMove { direction: MotorDirection::AntiClockwise, blocks: 1usize << 63 }
    );
}

#[test]
fn achieved_offset_keeps_sign() {
    let hit = |left_over| Err(ProtectedMotorError::LimitHit { left_over });
    assert_eq!(achieved_offset(7, Ok(())), 7);
    assert_eq!(achieved_offset(7, hit(3)), 4);
    assert_eq!(achieved_offset(-7, hit(3)), -4);
    assert_eq!(achieved_offset(-7, hit(7)), 0);
    assert_eq!(achieved_offset(0, hit(0)), 0);
}

#[test]
fn shifted_clamps() {
    assert_eq!(shifted(5, -10), 0);
    assert_eq!(shifted(5, 10), 15);
    assert_eq!(shifted(usize::MAX, 1), usize::MAX);
    assert_eq!(offset_between(3, 10), -7);
    assert_eq!(offset_between(usize::MAX, 0), isize::MAX);
}

#[test]
fn measured_extent_values() {
    assert_eq!(measured_extent(MAX_WIDTH, Ok(())), None);
    assert_eq!(
        measured_extent(MAX_WIDTH, Err(ProtectedMotorError::LimitHit { left_over: 880 })),
        Some(120)
    );
}

#[test]
fn unobstructed_move_adds_offset() {
    let mut plane = fake_plane();
    plane.move_with(5, 7);
    assert_eq!(plane.current_x_y(), (5, 7));
    plane.move_with(-10, 3);
    assert_eq!(plane.current_x_y(), (0, 10));
    plane.move_to(2, 4);
    assert_eq!(plane.current_x_y(), (2, 4));
}

#[test]
fn axis_order_does_not_matter() {
    let hit = Err(ProtectedMotorError::LimitHit { left_over: 2 });
    let mut a = PlaneData::new();
    let mut b = PlaneData::new();
    a.record_move(10, 20, Ok(()), Ok(()));
    b.record_move(10, 20, Ok(()), Ok(()));
    a.record_move(-4, 0, hit, Ok(()));
    a.record_move(0, 6, Ok(()), Ok(()));
    b.record_move(0, 6, Ok(()), Ok(()));
    b.record_move(-4, 0, hit, Ok(()));
    assert_eq!(a.current_x_y(), (8, 26));
    assert_eq!(b.current_x_y(), (8, 26));
}

#[test]
fn calibration_finds_extents() {
    let (mut plane, rig) = sim_plane(120, 90, 30, 40);
    assert_eq!(plane.setup(), Ok(()));
    assert_eq!((plane.width(), plane.height()), (120, 90));
    assert_eq!(plane.current_x_y(), (0, 0));
    assert_eq!((rig.x.get(), rig.y.get()), (0, 0));
}

#[test]
fn move_to_beyond_width_stops_at_limit() {
    let (mut plane, rig) = sim_plane(120, 90, 0, 0);
    assert_eq!(plane.setup(), Ok(()));
    plane.move_to(200, 50);
    let (x, y) = plane.current_x_y();
    assert!(x <= 120);
    assert_ne!(x, 200);
    assert_eq!((x, y), (120, 50));
    assert_eq!(rig.x.get(), 120 * STEPS_PER_BLOCK);
}

#[test]
fn move_back_past_zero_clamps() {
    let (mut plane, _rig) = sim_plane(120, 90, 0, 0);
    plane.move_with(10, 10);
    plane.move_with(-25, -3);
    assert_eq!(plane.current_x_y(), (0, 7));
}

#[test]
fn homing_twice_lands_at_origin() {
    let (mut plane, rig) = sim_plane(120, 90, 0, 0);
    plane.move_with(50, 60);
    assert_eq!(plane.current_x_y(), (50, 60));
    let (hx, hy) = plane.homeing();
    assert_eq!(plane.current_x_y(), (0, 0));
    assert!(hx.limit_reached && hy.limit_reached);
    let before = (rig.rotations_x.get(), rig.rotations_y.get());
    let (hx2, hy2) = plane.homeing();
    assert_eq!(plane.current_x_y(), (0, 0));
    assert!(hx2.attempts <= HOMING_RETRIES + 1 && hy2.attempts <= HOMING_RETRIES + 1);
    assert_eq!(rig.rotations_x.get() - before.0, hx2.attempts);
    assert_eq!(rig.rotations_y.get() - before.1, hy2.attempts);
    assert_eq!((hx2.attempts, hy2.attempts), (1, 1));
}

#[test]
fn homing_gives_up_after_budget() {
    let mut plane = fake_plane();
    plane.move_with(3, 3);
    for _ in 0..2 {
        let (hx, hy) = plane.homeing();
        assert_eq!(plane.current_x_y(), (0, 0));
        assert_eq!(hx.attempts, HOMING_RETRIES + 1);
        assert!(!hx.limit_reached && !hy.limit_reached);
    }
}

#[test]
fn calibration_without_limits_fails() {
    let mut plane = fake_plane();
    assert_eq!(plane.setup(), Err(CalibrationError::WidthUnbounded));
    assert_eq!((plane.width(), plane.height()), (0, 0));
    assert_eq!(plane.current_x_y(), (0, 0));
    let mut data = PlaneData::new();
    assert_eq!(data.record_extents(Some(5), None), Err(CalibrationError::HeightUnbounded));
    assert_eq!(data.record_extents(Some(5), Some(6)), Ok(()));
    assert_eq!((data.width(), data.height()), (5, 6));
}

#[test]
fn homing_decision() {
    let hit = Err(ProtectedMotorError::LimitHit { left_over: 200 });
    assert_eq!(homing_next(10, Ok(())), Some(9));
    assert_eq!(homing_next(1, Ok(())), Some(0));
    assert_eq!(homing_next(0, Ok(())), None);
    assert_eq!(homing_next(10, hit), None);
}

#[test]
fn zero_move_leaves_axes_idle() {
    let (mut plane, rig) = sim_plane(120, 90, 0, 0);
    plane.move_with(4, 6);
    let before = (rig.rotations_x.get(), rig.rotations_y.get());
    plane.move_to(4, 6);
    assert_eq!(plane.current_x_y(), (4, 6));
    assert_eq!((rig.rotations_x.get(), rig.rotations_y.get()), before);
    plane.move_with(0, 2);
    assert_eq!(rig.rotations_x.get(), before.0);
    assert_eq!(rig.rotations_y.get(), before.1 + 1);
}

#[test]
fn compass_offsets() {
    assert_eq!(offset_for(Direction::North, 3), (0, 3));
    assert_eq!(offset_for(Direction::South, 3), (0, -3));
    assert_eq!(offset_for(Direction::East, 3), (3, 0));
    assert_eq!(offset_for(Direction::West, 3), (-3, 0));
    assert_eq!(offset_for(Direction::East, usize::MAX), (isize::MAX, 0));
}
