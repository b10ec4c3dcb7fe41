//! The hardware capability set and the limit-protected rotation protocol.

use vstd::prelude::*;

verus! {

/// Rotations are counted in millionths of a turn.
pub const MICRO_TURNS_PER_TURN: u128 = 1_000_000;

/// The rotation of an axis motor that moves the plane by one block.
pub const BLOCK_TURN: u128 = 70_000;

/// Direction in which a motor shaft turns.
#[derive(Debug, Clone, Copy, PartialEq, Eq, Structural)]
pub enum MotorDirection {
    Clockwise,
    AntiClockwise,
}

impl MotorDirection {
    pub open spec fn flipped_spec(self) -> MotorDirection {
        match self {
            MotorDirection::Clockwise => MotorDirection::AntiClockwise,
            MotorDirection::AntiClockwise => MotorDirection::Clockwise,
        }
    }

    /// The opposite direction.
    pub fn flipped(self) -> (r: MotorDirection)
        ensures
            r == self.flipped_spec(),
    {
        match self {
            MotorDirection::Clockwise => MotorDirection::AntiClockwise,
            MotorDirection::AntiClockwise => MotorDirection::Clockwise,
        }
    }
}

impl core::ops::Not for MotorDirection {
    type Output = MotorDirection;

    fn not(self) -> MotorDirection {
        self.flipped()
    }
}

impl vstd::std_specs::ops::NotSpecImpl for MotorDirection {
    open spec fn obeys_not_spec() -> bool {
        true
    }

    open spec fn not_req(self) -> bool {
        true
    }

    open spec fn not_spec(self) -> MotorDirection {
        self.flipped_spec()
    }
}

/// `true` selects anticlockwise, `false` clockwise.
impl From<bool> for MotorDirection {
    fn from(value: bool) -> (r: MotorDirection) {
        if value {
            MotorDirection::AntiClockwise
        } else {
            MotorDirection::Clockwise
        }
    }
}

impl vstd::std_specs::convert::FromSpecImpl<bool> for MotorDirection {
    open spec fn obeys_from_spec() -> bool {
        true
    }

    open spec fn from_spec(v: bool) -> MotorDirection {
        if v {
            MotorDirection::AntiClockwise
        } else {
            MotorDirection::Clockwise
        }
    }
}


/// A rotation amount, in millionths of a turn.
#[derive(Debug, Clone, Copy, PartialEq, Eq, Structural)]
pub struct MotorRotation {
    pub micro_turns: u128,
}

impl MotorRotation {
    /// One full turn.
    pub fn full() -> (r: MotorRotation)
        ensures
            r.micro_turns == MICRO_TURNS_PER_TURN,
    {
        MotorRotation { micro_turns: MICRO_TURNS_PER_TURN }
    }

    /// Half a turn.
    pub fn half() -> (r: MotorRotation)
        ensures
            r.micro_turns * 2 == MICRO_TURNS_PER_TURN,
    {
        MotorRotation { micro_turns: MICRO_TURNS_PER_TURN / 2 }
    }

    /// A quarter of a turn.
    pub fn quarter() -> (r: MotorRotation)
        ensures
            r.micro_turns * 4 == MICRO_TURNS_PER_TURN,
    {
        MotorRotation { micro_turns: MICRO_TURNS_PER_TURN / 4 }
    }
}

/// The default rotation is one full turn.
impl Default for MotorRotation {
    fn default() -> (r: MotorRotation)
        ensures
            r.micro_turns == MICRO_TURNS_PER_TURN,
    {
        MotorRotation::full()
    }
}

impl From<MotorRotation> for u128 {
    fn from(value: MotorRotation) -> (r: u128) {
        value.micro_turns
    }
}

impl vstd::std_specs::convert::FromSpecImpl<MotorRotation> for u128 {
    open spec fn obeys_from_spec() -> bool {
        true
    }

    open spec fn from_spec(v: MotorRotation) -> u128 {
        v.micro_turns
    }
}

/// Why a protected rotation stopped short.
#[derive(Debug, Clone, Copy, PartialEq, Eq, Structural)]
pub enum ProtectedMotorError {
    /// A limit switch tripped; `left_over` blocks of the request were not travelled.
    LimitHit { left_over: usize },
}

/// A binary sensor at one end of an axis.
pub trait LimitSwitchBackend {
    /// Whether the switch reads pressed right now.
    fn is_pressed(&mut self) -> bool;
}

/// A limit switch together with every reading taken of it through `read`.
pub struct Polled<S> {
    switch: S,
    readings: Ghost<Seq<bool>>,
}

impl<S> Polled<S> {
    pub closed spec fn switch_view(self) -> S {
        self.switch
    }

    /// Every reading taken so far, oldest first.
    pub closed spec fn readings(self) -> Seq<bool> {
        self.readings@
    }
}

impl<S: LimitSwitchBackend> Polled<S> {
    pub fn new(switch: S) -> (r: Self)
        ensures
            r.switch_view() == switch,
            r.readings() == Seq::<bool>::empty(),
    {
        Polled { switch, readings: Ghost(Seq::empty()) }
    }

    /// Reads the switch once.
    pub fn read(&mut self) -> (r: bool)
        ensures
            final(self).readings() == old(self).readings().push(r),
    {
        let r = self.switch.is_pressed();
        self.readings = Ghost(self.readings@.push(r));
        r
    }

    pub fn switch(&self) -> (r: &S)
        ensures
            *r == self.switch_view(),
    {
        &self.switch
    }
}

/// A rotation a motor was asked for, and what it achieved.
#[derive(Debug, Clone, Copy, PartialEq, Eq, Structural)]
pub struct MotorCall {
    pub direction: MotorDirection,
    pub requested: MotorRotation,
    pub achieved: MotorRotation,
}

/// A motor that turns one axis of the plane.
pub trait MotorBackend {
    /// Turns by `rotation` in `direction` as a sequence of micro-steps. `limit` is read once
    /// per step; when it reads pressed the motor steps back a fixed fraction of a turn and
    /// halts. Returns the rotation achieved, net of any step-back.
    fn rotate<S: LimitSwitchBackend>(
        &mut self,
        direction: MotorDirection,
        rotation: MotorRotation,
        limit: &mut Polled<S>,
    ) -> MotorRotation;

    /// The rotation of a single step: a shortfall no larger than this is rounding noise.
    fn epsilon(&self) -> MotorRotation {
        MotorRotation { micro_turns: 0 }
    }
}

/// A motor together with every rotation asked of it through `rotate`.
pub struct Commanded<M> {
    motor: M,
    calls: Ghost<Seq<MotorCall>>,
    epsilons: Ghost<Seq<MotorRotation>>,
}

impl<M> Commanded<M> {
    pub closed spec fn motor_view(self) -> M {
        self.motor
    }

    /// Every rotation asked of the motor so far, oldest first.
    pub closed spec fn calls(self) -> Seq<MotorCall> {
        self.calls@
    }

    /// Every step size the motor reported so far, oldest first.
    pub closed spec fn epsilons(self) -> Seq<MotorRotation> {
        self.epsilons@
    }
}

impl<M: MotorBackend> Commanded<M> {
    pub fn new(motor: M) -> (r: Self)
        ensures
            r.motor_view() == motor,
            r.calls() == Seq::<MotorCall>::empty(),
            r.epsilons() == Seq::<MotorRotation>::empty(),
    {
        Commanded { motor, calls: Ghost(Seq::empty()), epsilons: Ghost(Seq::empty()) }
    }

    /// Asks the motor for one rotation.
    pub fn rotate<S: LimitSwitchBackend>(
        &mut self,
        direction: MotorDirection,
        rotation: MotorRotation,
        limit: &mut Polled<S>,
    ) -> (r: MotorRotation)
        ensures
            final(self).calls() == old(self).calls().push(
                MotorCall { direction, requested: rotation, achieved: r },
            ),
            final(self).epsilons() == old(self).epsilons(),
    {
        let r = self.motor.rotate(direction, rotation, limit);
        self.calls = Ghost(self.calls@.push(MotorCall { direction, requested: rotation, achieved: r }));
        r
    }

    /// Asks the motor for its step size.
    pub fn epsilon(&mut self) -> (r: MotorRotation)
        ensures
            final(self).epsilons() == old(self).epsilons().push(r),
            final(self).calls() == old(self).calls(),
    {
        let r = self.motor.epsilon();
        self.epsilons = Ghost(self.epsilons@.push(r));
        r
    }

    pub fn motor(&self) -> (r: &M)
        ensures
            *r == self.motor_view(),
    {
        &self.motor
    }
}

/// A linear actuator that runs each stroke to completion.
pub trait ActuatorBackend {
    fn contract(&mut self);

    fn extend(&mut self);
}

/// An electromagnet on the payload.
pub trait MagnetBackend {
    fn set(&mut self, on: bool);
}

/// Which of an axis's two limit switches a rotation runs towards.
#[derive(Debug, Clone, Copy, PartialEq, Eq, Structural)]
pub enum LimitSide {
    /// The left (or lower) switch.
    Left,
    /// The right (or upper) switch.
    Right,
}

pub open spec fn watched_side(direction: MotorDirection) -> LimitSide {
    match direction {
        MotorDirection::Clockwise => LimitSide::Left,
        MotorDirection::AntiClockwise => LimitSide::Right,
    }
}

/// The limit switch that guards a rotation in `direction`: clockwise approaches the left
/// switch, anticlockwise the right one.
pub fn watched_limit(direction: MotorDirection) -> (r: LimitSide)
    ensures
        r == watched_side(direction),
{
    match direction {
        MotorDirection::Clockwise => LimitSide::Left,
        MotorDirection::AntiClockwise => LimitSide::Right,
    }
}

/// Rounds `missed / BLOCK_TURN` to the nearest block, halves upwards.
pub open spec fn blocks_rounded(missed: nat) -> nat {
    ((missed + BLOCK_TURN / 2) as nat) / (BLOCK_TURN as nat)
}

/// How far a rotation of `amount` blocks fell short when `achieved` was turned.
pub open spec fn missed_turns(amount: nat, achieved: nat) -> nat {
    let requested = amount * BLOCK_TURN;
    if achieved >= requested {
        0
    } else {
        (requested - achieved) as nat
    }
}

/// The outcome of a rotation of `amount` blocks that achieved `achieved` with a step of
/// `epsilon` (all rotations in micro-turns).
pub open spec fn rotation_outcome_spec(amount: nat, achieved: nat, epsilon: nat) -> Result<
    (),
    ProtectedMotorError,
> {
    let missed = missed_turns(amount, achieved);
    if missed > epsilon {
        Err(ProtectedMotorError::LimitHit { left_over: blocks_rounded(missed) as usize })
    } else {
        Ok(())
    }
}

proof fn lemma_rounded_at_most(amount: nat, missed: nat)
    requires
        missed <= amount * BLOCK_TURN,
    ensures
        blocks_rounded(missed) <= amount,
{
    assert((missed + BLOCK_TURN / 2) < (amount + 1) * BLOCK_TURN) by (nonlinear_arith)
        requires
            missed <= amount * BLOCK_TURN,
    ;
    assert(((missed + BLOCK_TURN / 2) as nat) / (BLOCK_TURN as nat) < amount + 1) by (nonlinear_arith)
        requires
            (missed + BLOCK_TURN / 2) < (amount + 1) * BLOCK_TURN,
    ;
}

/// A limit hit never reports more blocks left over than were requested, and reports at least
/// one block whenever the shortfall reaches half a block. Only a shortfall above `epsilon` but
/// under half a block rounds to a hit of zero blocks, so such shortfalls are excluded.
pub proof fn lemma_left_over_bounds(amount: nat, achieved: nat, epsilon: nat)
    requires
        amount <= usize::MAX,
        !(epsilon < missed_turns(amount, achieved) && missed_turns(amount, achieved) < BLOCK_TURN
            / 2),
    ensures
        rotation_outcome_spec(amount, achieved, epsilon) matches Err(
            ProtectedMotorError::LimitHit { left_over },
        ) ==> 0 < left_over && left_over <= amount,
{
    let missed = missed_turns(amount, achieved);
    if missed > epsilon {
        lemma_rounded_at_most(amount, missed);
        assert(blocks_rounded(missed) >= 1) by (nonlinear_arith)
            requires
                missed >= BLOCK_TURN / 2,
        ;
    }
}

/// Reconciles a requested rotation of `amount` blocks with the rotation the motor achieved.
/// A shortfall within `epsilon` is success; a larger one is a limit hit carrying the
/// shortfall rounded to whole blocks.
pub fn rotation_outcome(amount: usize, achieved: MotorRotation, epsilon: MotorRotation) -> (r:
    Result<(), ProtectedMotorError>)
    ensures
        r == rotation_outcome_spec(amount as nat, achieved.micro_turns as nat, epsilon.micro_turns as nat),
        r matches Err(ProtectedMotorError::LimitHit { left_over }) ==> left_over <= amount,
{
    let requested: u128 = amount as u128 * BLOCK_TURN;
    let missed: u128 = if achieved.micro_turns >= requested {
        0
    } else {
        requested - achieved.micro_turns
    };
    if missed > epsilon.micro_turns {
        proof {
            lemma_rounded_at_most(amount as nat, missed as nat);
        }
        let left_over = (missed + BLOCK_TURN / 2) / BLOCK_TURN;
        Err(ProtectedMotorError::LimitHit { left_over: left_over as usize })
    } else {
        Ok(())
    }
}

/// A rotation that a protected motor handed to its motor, and how it ended.
#[derive(Debug, Clone, Copy)]
pub struct RotationRecord {
    pub direction: MotorDirection,
    pub requested: MotorRotation,
    pub outcome: Result<(), ProtectedMotorError>,
}

/// One axis motor together with both of its limit switches.
pub struct ProtectedMotor<M, S> {
    motor: Commanded<M>,
    /// The switch at the end that clockwise rotation approaches.
    limit_l: Polled<S>,
    /// The switch at the end that anticlockwise rotation approaches.
    limit_r: Polled<S>,
    /// Every rotation handed to `motor` through `rotate_block`, oldest first.
    log: Ghost<Seq<RotationRecord>>,
}

/// The outcome of a protected rotation: success, or a limit hit that left at most the whole
/// request untravelled.
pub open spec fn within_request(requested: nat, outcome: Result<(), ProtectedMotorError>) -> bool {
    match outcome {
        Ok(()) => true,
        Err(ProtectedMotorError::LimitHit { left_over }) => left_over <= requested,
    }
}

/// The rotation that moves an axis by `amount` blocks.
pub fn requested_rotation(amount: usize) -> (r: MotorRotation)
    ensures
        r.micro_turns == amount * BLOCK_TURN,
{
    MotorRotation { micro_turns: amount as u128 * BLOCK_TURN }
}

impl<M, S> ProtectedMotor<M, S> {
    pub closed spec fn motor_view(self) -> Commanded<M> {
        self.motor
    }

    pub closed spec fn limit_l_view(self) -> Polled<S> {
        self.limit_l
    }

    pub closed spec fn limit_r_view(self) -> Polled<S> {
        self.limit_r
    }

    /// Every rotation handed to the motor through `rotate_block`, oldest first.
    pub closed spec fn log(self) -> Seq<RotationRecord> {
        self.log@
    }
}

/// `new` is `old` after one protected rotation of `amount` blocks in `direction` that ended
/// with `outcome`: nothing at all when `amount` is zero; else exactly one rotation of
/// `amount` blocks in `direction` asked of the motor, one step size asked of it, the outcome
/// reconciled from what it achieved and that step size, and the switch on the far side left
/// alone.
pub open spec fn rotated<M, S>(
    old: ProtectedMotor<M, S>,
    new: ProtectedMotor<M, S>,
    direction: MotorDirection,
    amount: nat,
    outcome: Result<(), ProtectedMotorError>,
) -> bool {
    if amount == 0 {
        new == old && outcome == Ok::<(), ProtectedMotorError>(())
    } else {
        let requested = MotorRotation { micro_turns: (amount * BLOCK_TURN) as u128 };
        let call = new.motor_view().calls().last();
        &&& new.motor_view().calls() == old.motor_view().calls().push(
            MotorCall { direction, requested, achieved: call.achieved },
        )
        &&& new.motor_view().epsilons().len() == old.motor_view().epsilons().len() + 1
        &&& outcome == rotation_outcome_spec(
            amount,
            call.achieved.micro_turns as nat,
            new.motor_view().epsilons().last().micro_turns as nat,
        )
        &&& new.log() == old.log().push(RotationRecord { direction, requested, outcome })
        &&& watched_side(direction) == LimitSide::Left ==> new.limit_r_view()
            == old.limit_r_view()
        &&& watched_side(direction) == LimitSide::Right ==> new.limit_l_view()
            == old.limit_l_view()
        &&& within_request(amount, outcome)
    }
}

impl<M: MotorBackend, S: LimitSwitchBackend> ProtectedMotor<M, S> {
    pub fn new(motor: M, limit_l: S, limit_r: S) -> (r: Self)
        ensures
            r.motor_view().motor_view() == motor,
            r.motor_view().calls() == Seq::<MotorCall>::empty(),
            r.limit_l_view().switch_view() == limit_l,
            r.limit_l_view().readings() == Seq::<bool>::empty(),
            r.limit_r_view().switch_view() == limit_r,
            r.limit_r_view().readings() == Seq::<bool>::empty(),
            r.log() == Seq::<RotationRecord>::empty(),
    {
        ProtectedMotor {
            motor: Commanded::new(motor),
            limit_l: Polled::new(limit_l),
            limit_r: Polled::new(limit_r),
            log: Ghost(Seq::empty()),
        }
    }

    pub fn motor(&self) -> (r: &M)
        ensures
            *r == self.motor_view().motor_view(),
    {
        self.motor.motor()
    }

    pub fn limit_l(&self) -> (r: &S)
        ensures
            *r == self.limit_l_view().switch_view(),
    {
        self.limit_l.switch()
    }

    pub fn limit_r(&self) -> (r: &S)
        ensures
            *r == self.limit_r_view().switch_view(),
    {
        self.limit_r.switch()
    }

    /// Turns the axis by `amount` blocks in `direction`, polling the limit switch that the
    /// direction approaches. A request of zero blocks succeeds without touching the hardware.
    /// A limit hit is reported with the blocks left untravelled and is never retried here.
    pub fn rotate_block(&mut self, direction: MotorDirection, amount: usize) -> (r: Result<
        (),
        ProtectedMotorError,
    >)
        ensures
            rotated(*old(self), *final(self), direction, amount as nat, r),
            within_request(amount as nat, r),
    {
        if amount == 0 {
            return Ok(());
        }
        let requested = requested_rotation(amount);
        let achieved = match watched_limit(direction) {
            LimitSide::Left => self.motor.rotate(direction, requested, &mut self.limit_l),
            LimitSide::Right => self.motor.rotate(direction, requested, &mut self.limit_r),
        };
        let epsilon = self.motor.epsilon();
        let r = rotation_outcome(amount, achieved, epsilon);
        self.log = Ghost(self.log@.push(RotationRecord { direction, requested, outcome: r }));
        r
    }
}

/// The set of components one deployment runs on: real hardware or a simulation.
pub trait BackendComponents {
    type Motor: MotorBackend;

    type Actuator: ActuatorBackend;

    type Magnet: MagnetBackend;

    type Limit: LimitSwitchBackend;

    fn motor_x() -> Self::Motor;

    fn motor_y() -> Self::Motor;

    fn actuator() -> Self::Actuator;

    fn magnet() -> Self::Magnet;

    fn limit_x_l() -> Self::Limit;

    fn limit_x_r() -> Self::Limit;

    fn limit_y_l() -> Self::Limit;

    fn limit_y_r() -> Self::Limit;
}

} // verus!
