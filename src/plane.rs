//! The plane: a logical (x, y) position in blocks kept over two independently limited axes.

use crate::backend::{
    rotated, within_request, RotationRecord, BLOCK_TURN, LimitSwitchBackend, MotorBackend, MotorDirection, ProtectedMotor,
    ProtectedMotorError,
};
use vstd::prelude::*;

verus! {

/// Calibration drives the x axis at most this many blocks towards its far limit.
pub const MAX_WIDTH: usize = 1000;

/// Calibration drives the y axis at most this many blocks towards its far limit.
pub const MAX_HEIGHT: usize = 1000;

/// Blocks requested by each homing attempt.
pub const HOMING_BLOCKS: usize = 200;

/// Homing attempts made after the first before giving up on an axis.
pub const HOMING_RETRIES: usize = 10;

/// A relative move of one axis.
#[derive(Debug, Clone, Copy, PartialEq, Eq, Structural)]
pub struct AxisMove {
    pub direction: MotorDirection,
    pub blocks: usize,
}

pub open spec fn abs(v: int) -> nat {
    if v < 0 {
        (-v) as nat
    } else {
        v as nat
    }
}

/// The x axis moves towards zero anticlockwise.
pub open spec fn x_move_spec(ax: int) -> AxisMove {
    AxisMove {
        direction: if ax < 0 {
            MotorDirection::AntiClockwise
        } else {
            MotorDirection::Clockwise
        },
        blocks: abs(ax) as usize,
    }
}

/// The y axis is mounted the other way round: it moves towards zero clockwise.
pub open spec fn y_move_spec(ay: int) -> AxisMove {
    AxisMove {
        direction: if ay < 0 {
            MotorDirection::Clockwise
        } else {
            MotorDirection::AntiClockwise
        },
        blocks: abs(ay) as usize,
    }
}

fn magnitude(v: isize) -> (r: usize)
    ensures
        r == abs(v as int),
{
    if v < 0 {
        (-(v as i128)) as usize
    } else {
        v as usize
    }
}

/// The motor command for a relative move of `ax` blocks along x.
pub fn x_axis_move(ax: isize) -> (r: AxisMove)
    ensures
        r == x_move_spec(ax as int),
{
    let direction = if ax < 0 {
        MotorDirection::AntiClockwise
    } else {
        MotorDirection::Clockwise
    };
    AxisMove { direction, blocks: magnitude(ax) }
}

/// The motor command for a relative move of `ay` blocks along y.
pub fn y_axis_move(ay: isize) -> (r: AxisMove)
    ensures
        r == y_move_spec(ay as int),
{
    let direction = if ay < 0 {
        MotorDirection::Clockwise
    } else {
        MotorDirection::AntiClockwise
    };
    AxisMove { direction, blocks: magnitude(ay) }
}

/// The signed offset travelled when `requested` blocks were asked for: all of it, or, after a
/// limit hit, its magnitude less the blocks left over, with its sign kept.
pub open spec fn achieved_spec(requested: int, outcome: Result<(), ProtectedMotorError>) -> int {
    match outcome {
        Ok(()) => requested,
        Err(ProtectedMotorError::LimitHit { left_over }) => if requested < 0 {
            requested + left_over
        } else {
            requested - left_over
        },
    }
}

/// A position clamped into the range a `usize` can hold (and so never below zero).
pub open spec fn clamp_position(v: int) -> nat {
    if v < 0 {
        0
    } else if v > usize::MAX {
        usize::MAX as nat
    } else {
        v as nat
    }
}

/// One coordinate after a move of `requested` blocks that ended with `outcome`.
pub open spec fn moved(cur: nat, requested: int, outcome: Result<(), ProtectedMotorError>) -> nat {
    clamp_position(cur + achieved_spec(requested, outcome))
}

/// A position after the x axis's part of a move.
pub open spec fn after_x(pos: (nat, nat), ax: int, rx: Result<(), ProtectedMotorError>) -> (
    nat,
    nat,
) {
    (moved(pos.0, ax, rx), pos.1)
}

/// A position after the y axis's part of a move.
pub open spec fn after_y(pos: (nat, nat), ay: int, ry: Result<(), ProtectedMotorError>) -> (
    nat,
    nat,
) {
    (pos.0, moved(pos.1, ay, ry))
}

/// The signed offset travelled by a move of `requested` blocks that ended with `outcome`.
pub fn achieved_offset(requested: isize, outcome: Result<(), ProtectedMotorError>) -> (r: isize)
    requires
        within_request(abs(requested as int), outcome),
    ensures
        r == achieved_spec(requested as int, outcome),
{
    match outcome {
        Ok(()) => requested,
        Err(ProtectedMotorError::LimitHit { left_over }) => {
            if requested < 0 {
                (requested as i128 + left_over as i128) as isize
            } else {
                (requested as i128 - left_over as i128) as isize
            }
        },
    }
}

/// `cur` shifted by `delta`, clamped at zero and at the largest position.
pub fn shifted(cur: usize, delta: isize) -> (r: usize)
    ensures
        r == clamp_position(cur + delta),
{
    let v: i128 = cur as i128 + delta as i128;
    if v < 0 {
        0
    } else if v > usize::MAX as i128 {
        usize::MAX
    } else {
        v as usize
    }
}

/// The relative move from `cur` to `target`, saturated to the range of an `isize`.
pub open spec fn offset_spec(target: nat, cur: nat) -> int {
    let d = target - cur;
    if d > isize::MAX {
        isize::MAX as int
    } else if d < isize::MIN {
        isize::MIN as int
    } else {
        d
    }
}

/// The relative move from `cur` to `target`.
pub fn offset_between(target: usize, cur: usize) -> (r: isize)
    ensures
        r == offset_spec(target as nat, cur as nat),
{
    let d: i128 = target as i128 - cur as i128;
    if d > isize::MAX as i128 {
        isize::MAX
    } else if d < isize::MIN as i128 {
        isize::MIN
    } else {
        d as isize
    }
}

/// A compass heading on the plane: north and east are the positive y and x directions.
#[derive(Debug, Clone, Copy, PartialEq, Eq, Structural)]
pub enum Direction {
    North,
    South,
    East,
    West,
}

/// The relative move of `amount` blocks towards `direction`, the amount saturated to the range
/// of an `isize`.
pub open spec fn offset_for_spec(direction: Direction, amount: nat) -> (int, int) {
    let a = if amount > isize::MAX {
        isize::MAX as int
    } else {
        amount as int
    };
    match direction {
        Direction::North => (0, a),
        Direction::South => (0, -a),
        Direction::East => (a, 0),
        Direction::West => (-a, 0),
    }
}

/// The relative move of `amount` blocks towards `direction`.
pub fn offset_for(direction: Direction, amount: usize) -> (r: (isize, isize))
    ensures
        (r.0 as int, r.1 as int) == offset_for_spec(direction, amount as nat),
{
    let a: isize = if amount > isize::MAX as usize {
        isize::MAX
    } else {
        amount as isize
    };
    match direction {
        Direction::North => (0, a),
        Direction::South => (0, -a),
        Direction::East => (a, 0),
        Direction::West => (-a, 0),
    }
}

/// The axes are independent: applying the x axis's part of a move before the y axis's part
/// gives the same position as the other order.
pub proof fn lemma_axis_order_irrelevant(
    pos: (nat, nat),
    ax: int,
    rx: Result<(), ProtectedMotorError>,
    ay: int,
    ry: Result<(), ProtectedMotorError>,
)
    ensures
        after_y(after_x(pos, ax, rx), ay, ry) == after_x(after_y(pos, ay, ry), ax, rx),
{
}

/// When neither axis strikes a limit, a relative move lands on the old position plus the
/// offset, clamped at zero (and at the largest position).
pub proof fn lemma_unobstructed_move(pos: (nat, nat), ax: int, ay: int)
    ensures
        after_y(after_x(pos, ax, Ok(())), ay, Ok(())) == (
            clamp_position(pos.0 + ax),
            clamp_position(pos.1 + ay),
        ),
{
}


/// What homing one axis did.
#[derive(Debug, Clone, Copy, PartialEq, Eq, Structural)]
pub struct HomingReport {
    /// Rotations issued towards the zero limit.
    pub attempts: usize,
    /// Whether the last of them ended on the limit switch.
    pub limit_reached: bool,
}

/// The outcome of the last protected rotation of `amount` blocks on `motor`: success when
/// nothing was asked, else the outcome logged for it.
pub open spec fn axis_outcome<M, S>(motor: ProtectedMotor<M, S>, amount: nat) -> Result<
    (),
    ProtectedMotorError,
> {
    if amount == 0 {
        Ok(())
    } else {
        motor.log().last().outcome
    }
}

/// `run` is what homing one axis in `direction` handed to its motor, and `r` reports it: at
/// most `HOMING_RETRIES + 1` rotations of `HOMING_BLOCKS` blocks each, stopping at the first
/// limit hit.
pub open spec fn homing_run(run: Seq<RotationRecord>, direction: MotorDirection, r: HomingReport) -> bool {
    &&& 1 <= run.len() <= HOMING_RETRIES + 1
    &&& r.attempts == run.len()
    &&& forall|i: int|
        0 <= i < run.len() ==> (#[trigger] run[i]).direction == direction
            && run[i].requested.micro_turns == HOMING_BLOCKS * BLOCK_TURN
    &&& forall|i: int| 0 <= i < run.len() - 1 ==> (#[trigger] run[i]).outcome is Ok
    &&& r.limit_reached <==> run.last().outcome is Err
    &&& run.len() < HOMING_RETRIES + 1 ==> r.limit_reached
}

/// The decision after one homing rotation with `timeout` retries left: stop (`None`) on a
/// limit hit or when no retry is left, else retry with one fewer.
pub open spec fn homing_next_spec(timeout: usize, outcome: Result<(), ProtectedMotorError>) -> Option<
    usize,
> {
    match outcome {
        Err(_) => None,
        Ok(()) => if timeout == 0 {
            None
        } else {
            Some((timeout - 1) as usize)
        },
    }
}

pub fn homing_next(timeout: usize, outcome: Result<(), ProtectedMotorError>) -> (r: Option<usize>)
    ensures
        r == homing_next_spec(timeout, outcome),
{
    match outcome {
        Err(_) => None,
        Ok(()) => {
            if timeout == 0 {
                None
            } else {
                Some(timeout - 1)
            }
        },
    }
}

/// Drives one axis towards its zero limit, `HOMING_BLOCKS` at a time, until a rotation ends on
/// the limit or the retry budget runs out.
pub fn home_axis<M: MotorBackend, S: LimitSwitchBackend>(
    motor: &mut ProtectedMotor<M, S>,
    direction: MotorDirection,
) -> (r: HomingReport)
    ensures
        exists|run: Seq<RotationRecord>|
            final(motor).log() == old(motor).log() + run && #[trigger] homing_run(run, direction, r),
{
    let ghost start = motor.log();
    let mut timeout: usize = HOMING_RETRIES;
    let mut attempts: usize = 0;
    loop
        invariant
            start == old(motor).log(),
            attempts + timeout == HOMING_RETRIES,
            motor.log().len() == start.len() + attempts,
            motor.log().subrange(0, start.len() as int) == start,
            forall|i: int|
                start.len() <= i < motor.log().len() ==> (#[trigger] motor.log()[i]).direction
                    == direction && motor.log()[i].requested.micro_turns == HOMING_BLOCKS
                    * BLOCK_TURN && motor.log()[i].outcome is Ok,
        decreases timeout,
    {
        let ghost before = motor.log();
        let outcome = motor.rotate_block(direction, HOMING_BLOCKS);
        attempts = attempts + 1;
        proof {
            assert(motor.log().subrange(0, start.len() as int) =~= start) by {
                assert forall|i: int| 0 <= i < start.len() implies motor.log()[i] == start[i] by {
                    assert(motor.log()[i] == before[i]);
                    assert(before.subrange(0, start.len() as int)[i] == before[i]);
                }
            }
            assert forall|i: int| start.len() <= i < motor.log().len() - 1 implies (
            #[trigger] motor.log()[i]).direction == direction && motor.log()[i].requested.micro_turns
                == HOMING_BLOCKS * BLOCK_TURN && motor.log()[i].outcome is Ok by {
                assert(motor.log()[i] == before[i]);
            }
        }
        match homing_next(timeout, outcome) {
            None => {
                let r = HomingReport {
                    attempts,
                    limit_reached: match outcome {
                        Ok(()) => false,
                        Err(_) => true,
                    },
                };
                proof {
                    let run = motor.log().subrange(start.len() as int, motor.log().len() as int);
                    assert(motor.log() =~= start + run);
                    assert(run.last() == motor.log().last());
                    assert(homing_run(run, direction, r));
                }
                return r;
            },
            Some(t) => {
                timeout = t;
            },
        }
    }
}

/// `after` is `before` followed by what calibrating one axis handed to its motor: a homing run
/// towards `home`, the drive `drive` of `limit` blocks towards `far`, and another homing run.
pub open spec fn calibration_run(
    before: Seq<RotationRecord>,
    after: Seq<RotationRecord>,
    home: MotorDirection,
    far: MotorDirection,
    limit: nat,
    drive: RotationRecord,
) -> bool {
    &&& drive.direction == far
    &&& drive.requested.micro_turns == limit * BLOCK_TURN
    &&& within_request(limit, drive.outcome)
    &&& exists|a: Seq<RotationRecord>, b: Seq<RotationRecord>, ra: HomingReport, rb: HomingReport|
        after == before + a + seq![drive] + b && #[trigger] homing_run(a, home, ra)
            && #[trigger] homing_run(b, home, rb)
}

/// The extent that calibration records from a drive of `limit` blocks towards the far end:
/// none if no limit was struck, else the blocks actually travelled.
pub open spec fn extent_spec(limit: nat, outcome: Result<(), ProtectedMotorError>) -> Option<
    usize,
> {
    match outcome {
        Ok(()) => None,
        Err(ProtectedMotorError::LimitHit { left_over }) => Some((limit - left_over) as usize),
    }
}

/// The extent recorded from a calibration drive of `limit` blocks that ended with `outcome`.
pub fn measured_extent(limit: usize, outcome: Result<(), ProtectedMotorError>) -> (r: Option<
    usize,
>)
    requires
        within_request(limit as nat, outcome),
    ensures
        r == extent_spec(limit as nat, outcome),
{
    match outcome {
        Ok(()) => None,
        Err(ProtectedMotorError::LimitHit { left_over }) => Some(limit - left_over),
    }
}

/// Drives one axis up to `limit` blocks in `direction` and measures how far it got before
/// striking its limit.
pub fn measure_axis<M: MotorBackend, S: LimitSwitchBackend>(
    motor: &mut ProtectedMotor<M, S>,
    direction: MotorDirection,
    limit: usize,
) -> (r: Option<usize>)
    ensures
        rotated(*old(motor), *final(motor), direction, limit as nat, axis_outcome(*final(motor), limit as nat)),
        r == extent_spec(limit as nat, axis_outcome(*final(motor), limit as nat)),
        r matches Some(e) ==> e <= limit,
{
    let outcome = motor.rotate_block(direction, limit);
    measured_extent(limit, outcome)
}

/// Calibration found no far limit within reach on an axis.
#[derive(Debug, Clone, Copy, PartialEq, Eq, Structural)]
pub enum CalibrationError {
    /// The x axis travelled `MAX_WIDTH` blocks without a limit strike.
    WidthUnbounded,
    /// The y axis travelled `MAX_HEIGHT` blocks without a limit strike.
    HeightUnbounded,
}

/// The extents recorded from the two measurements, or the first axis that had none.
pub open spec fn extents_spec(width: Option<usize>, height: Option<usize>) -> Result<
    (usize, usize),
    CalibrationError,
> {
    match (width, height) {
        (Some(w), Some(h)) => Ok((w, h)),
        (None, _) => Err(CalibrationError::WidthUnbounded),
        (Some(_), None) => Err(CalibrationError::HeightUnbounded),
    }
}

/// The logical position and calibrated extents of the plane, in blocks.
pub struct PlaneData {
    cur_x: usize,
    cur_y: usize,
    width: usize,
    height: usize,
}

impl PlaneData {
    /// The logical position.
    pub closed spec fn position(&self) -> (nat, nat) {
        (self.cur_x as nat, self.cur_y as nat)
    }

    /// The calibrated width and height (zero before calibration).
    pub closed spec fn extents(&self) -> (nat, nat) {
        (self.width as nat, self.height as nat)
    }

    /// An uncalibrated plane, believed to stand at (0, 0).
    pub fn new() -> (r: PlaneData)
        ensures
            r.position() == (0nat, 0nat),
            r.extents() == (0nat, 0nat),
    {
        PlaneData { cur_x: 0, cur_y: 0, width: 0, height: 0 }
    }

    pub fn current_x_y(&self) -> (r: (usize, usize))
        ensures
            (r.0 as nat, r.1 as nat) == self.position(),
    {
        (self.cur_x, self.cur_y)
    }

    pub fn width(&self) -> (r: usize)
        ensures
            r == self.extents().0,
    {
        self.width
    }

    pub fn height(&self) -> (r: usize)
        ensures
            r == self.extents().1,
    {
        self.height
    }

    /// Records that both axes have been homed: the position becomes (0, 0).
    pub fn record_homed(&mut self)
        ensures
            final(self).position() == (0nat, 0nat),
            final(self).extents() == old(self).extents(),
    {
        self.cur_x = 0;
        self.cur_y = 0;
    }

    /// Records a finished relative move of (`ax`, `ay`) whose axes ended with `rx` and `ry`.
    pub fn record_move(
        &mut self,
        ax: isize,
        ay: isize,
        rx: Result<(), ProtectedMotorError>,
        ry: Result<(), ProtectedMotorError>,
    )
        requires
            within_request(abs(ax as int), rx),
            within_request(abs(ay as int), ry),
        ensures
            final(self).position() == after_y(
                after_x(old(self).position(), ax as int, rx),
                ay as int,
                ry,
            ),
            final(self).extents() == old(self).extents(),
    {
        let dx = achieved_offset(ax, rx);
        let dy = achieved_offset(ay, ry);
        self.cur_x = shifted(self.cur_x, dx);
        self.cur_y = shifted(self.cur_y, dy);
    }

    /// Records the measured extents; without a measurement on either axis nothing is recorded.
    pub fn record_extents(&mut self, width: Option<usize>, height: Option<usize>) -> (r: Result<
        (),
        CalibrationError,
    >)
        ensures
            r is Ok <==> extents_spec(width, height) is Ok,
            extents_spec(width, height) matches Ok((w, h)) ==> final(self).extents() == (
                w as nat,
                h as nat,
            ),
            extents_spec(width, height) matches Err(e) ==> r == Err::<(), CalibrationError>(e)
                && final(self).extents() == old(self).extents(),
            final(self).position() == old(self).position(),
    {
        match (width, height) {
            (Some(w), Some(h)) => {
                self.width = w;
                self.height = h;
                Ok(())
            },
            (None, _) => Err(CalibrationError::WidthUnbounded),
            (Some(_), None) => Err(CalibrationError::HeightUnbounded),
        }
    }
}

/// The plane over its two axis motors.
pub struct PlaneImpl<M, S> {
    pub motor_x: ProtectedMotor<M, S>,
    pub motor_y: ProtectedMotor<M, S>,
    pub data: PlaneData,
}

impl<M: MotorBackend, S: LimitSwitchBackend> PlaneImpl<M, S> {
    pub open spec fn position(&self) -> (nat, nat) {
        self.data.position()
    }

    pub open spec fn extents(&self) -> (nat, nat) {
        self.data.extents()
    }

    /// An uncalibrated plane over the two axes, believed to stand at (0, 0).
    pub fn new(motor_x: ProtectedMotor<M, S>, motor_y: ProtectedMotor<M, S>) -> (r: Self)
        ensures
            r.motor_x == motor_x,
            r.motor_y == motor_y,
            r.position() == (0nat, 0nat),
            r.extents() == (0nat, 0nat),
    {
        PlaneImpl { motor_x, motor_y, data: PlaneData::new() }
    }

    pub fn current_x_y(&self) -> (r: (usize, usize))
        ensures
            (r.0 as nat, r.1 as nat) == self.position(),
    {
        self.data.current_x_y()
    }

    pub fn width(&self) -> (r: usize)
        ensures
            r == self.extents().0,
    {
        self.data.width()
    }

    pub fn height(&self) -> (r: usize)
        ensures
            r == self.extents().1,
    {
        self.data.height()
    }

    /// Homes the plane to (0, 0): the x axis is driven anticlockwise and the y axis clockwise
    /// towards its zero limit until it strikes it or its retry budget runs out. The position
    /// becomes (0, 0) either way; the reports say whether each limit was actually reached.
    pub fn homeing(&mut self) -> (r: (HomingReport, HomingReport))
        ensures
            final(self).position() == (0nat, 0nat),
            final(self).extents() == old(self).extents(),
            exists|run: Seq<RotationRecord>|
                final(self).motor_x.log() == old(self).motor_x.log() + run && #[trigger] homing_run(
                    run,
                    MotorDirection::AntiClockwise,
                    r.0,
                ),
            exists|run: Seq<RotationRecord>|
                final(self).motor_y.log() == old(self).motor_y.log() + run && #[trigger] homing_run(
                    run,
                    MotorDirection::Clockwise,
                    r.1,
                ),
    {
        let ghost x0 = self.motor_x.log();
        let ghost y0 = self.motor_y.log();
        let x = home_axis(&mut self.motor_x, MotorDirection::AntiClockwise);
        let y = home_axis(&mut self.motor_y, MotorDirection::Clockwise);
        self.data.record_homed();
        proof {
            let rx = choose|run: Seq<RotationRecord>|
                self.motor_x.log() == x0 + run && #[trigger] homing_run(
                    run,
                    MotorDirection::AntiClockwise,
                    x,
                );
            let ry = choose|run: Seq<RotationRecord>|
                self.motor_y.log() == y0 + run && #[trigger] homing_run(run, MotorDirection::Clockwise, y);
            assert(homing_run(rx, MotorDirection::AntiClockwise, (x, y).0));
            assert(homing_run(ry, MotorDirection::Clockwise, (x, y).1));
        }
        (x, y)
    }

    /// Calibrates the plane: homes it, drives the x axis clockwise up to `MAX_WIDTH` blocks and
    /// the y axis anticlockwise up to `MAX_HEIGHT` blocks to measure how far each can travel,
    /// and homes it again.
    pub fn setup(&mut self) -> (r: Result<(), CalibrationError>)
        ensures
            final(self).position() == (0nat, 0nat),
            exists|dx: RotationRecord, dy: RotationRecord|
                {
                    &&& #[trigger] calibration_run(
                        old(self).motor_x.log(),
                        final(self).motor_x.log(),
                        MotorDirection::AntiClockwise,
                        MotorDirection::Clockwise,
                        MAX_WIDTH as nat,
                        dx,
                    )
                    &&& #[trigger] calibration_run(
                        old(self).motor_y.log(),
                        final(self).motor_y.log(),
                        MotorDirection::Clockwise,
                        MotorDirection::AntiClockwise,
                        MAX_HEIGHT as nat,
                        dy,
                    )
                    &&& (r is Ok <==> extents_spec(
                        extent_spec(MAX_WIDTH as nat, dx.outcome),
                        extent_spec(MAX_HEIGHT as nat, dy.outcome),
                    ) is Ok)
                    &&& (extents_spec(
                        extent_spec(MAX_WIDTH as nat, dx.outcome),
                        extent_spec(MAX_HEIGHT as nat, dy.outcome),
                    ) matches Ok((w, h)) ==> final(self).extents() == (w as nat, h as nat))
                },
            r is Err ==> final(self).extents() == old(self).extents(),
    {
        let ghost x0 = self.motor_x.log();
        let ghost y0 = self.motor_y.log();
        let (hx1, hy1) = self.homeing();
        let ghost x1 = self.motor_x.log();
        let ghost y1 = self.motor_y.log();
        let width = measure_axis(&mut self.motor_x, MotorDirection::Clockwise, MAX_WIDTH);
        let height = measure_axis(&mut self.motor_y, MotorDirection::AntiClockwise, MAX_HEIGHT);
        let ghost x2 = self.motor_x.log();
        let ghost y2 = self.motor_y.log();
        let (hx2, hy2) = self.homeing();
        let r = self.data.record_extents(width, height);
        proof {
            let ax = choose|run: Seq<RotationRecord>|
                x1 == x0 + run && #[trigger] homing_run(run, MotorDirection::AntiClockwise, hx1);
            let bx = choose|run: Seq<RotationRecord>|
                self.motor_x.log() == x2 + run && #[trigger] homing_run(
                    run,
                    MotorDirection::AntiClockwise,
                    hx2,
                );
            let ay = choose|run: Seq<RotationRecord>|
                y1 == y0 + run && #[trigger] homing_run(run, MotorDirection::Clockwise, hy1);
            let by = choose|run: Seq<RotationRecord>|
                self.motor_y.log() == y2 + run && #[trigger] homing_run(
                    run,
                    MotorDirection::Clockwise,
                    hy2,
                );
            let dx = x2.last();
            let dy = y2.last();
            assert(x2 == x1.push(dx));
            assert(y2 == y1.push(dy));
            assert(self.motor_x.log() =~= x0 + ax + seq![dx] + bx);
            assert(self.motor_y.log() =~= y0 + ay + seq![dy] + by);
            assert(calibration_run(
                x0,
                self.motor_x.log(),
                MotorDirection::AntiClockwise,
                MotorDirection::Clockwise,
                MAX_WIDTH as nat,
                dx,
            ));
            assert(calibration_run(
                y0,
                self.motor_y.log(),
                MotorDirection::Clockwise,
                MotorDirection::AntiClockwise,
                MAX_HEIGHT as nat,
                dy,
            ));
        }
        r
    }

    /// Moves the plane by (`ax`, `ay`) blocks relative to where it stands. The x axis is
    /// driven clockwise for a positive offset and the y axis anticlockwise, each by the
    /// offset's magnitude; an axis with nothing to do is left alone. A limit hit shortens
    /// that axis's move by the blocks left over. The position then advances by what was
    /// achieved, clamped at zero.
    pub fn move_with(&mut self, ax: isize, ay: isize)
        ensures
            rotated(
                old(self).motor_x,
                final(self).motor_x,
                x_move_spec(ax as int).direction,
                abs(ax as int),
                axis_outcome(final(self).motor_x, abs(ax as int)),
            ),
            rotated(
                old(self).motor_y,
                final(self).motor_y,
                y_move_spec(ay as int).direction,
                abs(ay as int),
                axis_outcome(final(self).motor_y, abs(ay as int)),
            ),
            final(self).position() == after_y(
                after_x(
                    old(self).position(),
                    ax as int,
                    axis_outcome(final(self).motor_x, abs(ax as int)),
                ),
                ay as int,
                axis_outcome(final(self).motor_y, abs(ay as int)),
            ),
            final(self).extents() == old(self).extents(),
    {
        let mx = x_axis_move(ax);
        let my = y_axis_move(ay);
        let rx = self.motor_x.rotate_block(mx.direction, mx.blocks);
        let ry = self.motor_y.rotate_block(my.direction, my.blocks);
        self.data.record_move(ax, ay, rx, ry);
    }

    /// Moves the plane to (`x`, `y`) as the relative move from where it stands. The target
    /// is not checked against the extents: the limit switches stop an axis that runs out.
    pub fn move_to(&mut self, x: usize, y: usize)
        ensures
            ({
                let ax = offset_spec(x as nat, old(self).position().0);
                let ay = offset_spec(y as nat, old(self).position().1);
                &&& rotated(
                    old(self).motor_x,
                    final(self).motor_x,
                    x_move_spec(ax).direction,
                    abs(ax),
                    axis_outcome(final(self).motor_x, abs(ax)),
                )
                &&& rotated(
                    old(self).motor_y,
                    final(self).motor_y,
                    y_move_spec(ay).direction,
                    abs(ay),
                    axis_outcome(final(self).motor_y, abs(ay)),
                )
                &&& final(self).position() == after_y(
                    after_x(old(self).position(), ax, axis_outcome(final(self).motor_x, abs(ax))),
                    ay,
                    axis_outcome(final(self).motor_y, abs(ay)),
                )
            }),
            final(self).extents() == old(self).extents(),
    {
        let (cur_x, cur_y) = self.data.current_x_y();
        let ax = offset_between(x, cur_x);
        let ay = offset_between(y, cur_y);
        self.move_with(ax, ay);
    }
}

} // verus!
