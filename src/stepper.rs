//! A step/direction stepper driver (such as a DRV8825) that turns by counting micro-steps.

use crate::backend::{
    LimitSwitchBackend, MotorBackend, Polled, MotorDirection, MotorRotation, MICRO_TURNS_PER_TURN,
};
use vstd::prelude::*;

verus! {

/// Micro-steps per turn with the driver in 1/16 micro-stepping.
pub const STEPS_PER_TURN: u128 = 3200;

/// Fraction of a turn, in micro-turns, that the motor backs off after a limit strike.
pub const STEP_BACK_TURN: u128 = 250_000;

/// Half a micro-step, in micro-turns (rounded down).
pub const HALF_STEP_TURN: u128 = MICRO_TURNS_PER_TURN / (2 * STEPS_PER_TURN);

/// Rotations beyond this many micro-turns are stepped as this many.
pub const MAX_STEPPED_ROTATION: u128 = 18_446_744_073_709_551_615;

/// The step and direction lines of a driver.
pub trait StepPins {
    /// Drives the direction line and waits for the driver to settle.
    fn set_direction(&mut self, direction: MotorDirection);

    /// Emits one step pulse and waits out the step period.
    fn pulse(&mut self);
}

/// A driver's lines together with everything driven on them through this wrapper.
pub struct Driven<P> {
    pins: P,
    events: Ghost<Seq<PinEvent>>,
}

impl<P> Driven<P> {
    pub closed spec fn pins_view(self) -> P {
        self.pins
    }

    /// Everything driven on the lines so far, oldest first.
    pub closed spec fn events(self) -> Seq<PinEvent> {
        self.events@
    }
}

impl<P: StepPins> Driven<P> {
    pub fn new(pins: P) -> (r: Self)
        ensures
            r.pins_view() == pins,
            r.events() == Seq::<PinEvent>::empty(),
    {
        Driven { pins, events: Ghost(Seq::empty()) }
    }

    pub fn set_direction(&mut self, direction: MotorDirection)
        ensures
            final(self).events() == old(self).events().push(PinEvent::Direction(direction)),
    {
        self.pins.set_direction(direction);
        self.events = Ghost(self.events@.push(PinEvent::Direction(direction)));
    }

    pub fn pulse(&mut self)
        ensures
            final(self).events() == old(self).events().push(PinEvent::Pulse),
    {
        self.pins.pulse();
        self.events = Ghost(self.events@.push(PinEvent::Pulse));
    }
}

/// One thing driven on a driver's lines.
#[derive(Debug, Clone, Copy, PartialEq, Eq, Structural)]
pub enum PinEvent {
    /// The direction line was set.
    Direction(MotorDirection),
    /// One step pulse.
    Pulse,
}

pub open spec fn pulses(n: nat) -> Seq<PinEvent> {
    Seq::new(n, |i: int| PinEvent::Pulse)
}

/// `n` readings of a released switch.
pub open spec fn released(n: nat) -> Seq<bool> {
    Seq::new(n, |i: int| false)
}

/// A run of `steps` steps in `direction` that read the switch `readings`, drove the lines
/// with `events` and travelled `net` steps net. Either the switch never read pressed: one
/// reading after each of the `steps` pulses, and all of them count. Or it first read pressed
/// after pulse `i + 1`: polling stops there, the direction is reversed and
/// `step_back_for(i)` pulses are taken back.
pub open spec fn step_run(
    direction: MotorDirection,
    steps: nat,
    readings: Seq<bool>,
    events: Seq<PinEvent>,
    net: nat,
) -> bool {
    ||| {
        &&& readings == released(steps)
        &&& events == seq![PinEvent::Direction(direction)] + pulses(steps)
        &&& net == steps
    }
    ||| exists|i: nat|
        {
            &&& i < steps
            &&& readings == #[trigger] released(i).push(true)
            &&& events == seq![PinEvent::Direction(direction)] + pulses((i + 1) as nat) + seq![
                PinEvent::Direction(direction.flipped_spec()),
            ] + pulses(step_back_for(i))
            &&& net == net_steps_spec(steps, Some(i))
        }
}

/// Steps needed for `rotation` micro-turns, rounded to the nearest step.
pub open spec fn steps_for(rotation: nat) -> nat {
    let bounded = if rotation > MAX_STEPPED_ROTATION {
        MAX_STEPPED_ROTATION as nat
    } else {
        rotation
    };
    ((bounded * STEPS_PER_TURN + MICRO_TURNS_PER_TURN / 2) as nat) / (MICRO_TURNS_PER_TURN as nat)
}

/// Steps backed off after a limit strike: a quarter turn, but never more than were taken.
pub open spec fn step_back_for(taken: nat) -> nat {
    let quarter = ((STEP_BACK_TURN * STEPS_PER_TURN + MICRO_TURNS_PER_TURN / 2) as nat) / (
    MICRO_TURNS_PER_TURN as nat);
    if quarter < taken {
        quarter
    } else {
        taken
    }
}

/// The rotation, in micro-turns, of `steps` micro-steps.
pub open spec fn rotation_of(steps: nat) -> nat {
    ((steps * MICRO_TURNS_PER_TURN) as nat) / (STEPS_PER_TURN as nat)
}

/// Micro-steps needed to turn by `rotation`.
pub fn steps_needed(rotation: MotorRotation) -> (r: u128)
    ensures
        r == steps_for(rotation.micro_turns as nat),
        r <= MAX_STEPPED_ROTATION,
{
    let bounded: u128 = if rotation.micro_turns > MAX_STEPPED_ROTATION {
        MAX_STEPPED_ROTATION
    } else {
        rotation.micro_turns
    };
    assert(bounded * STEPS_PER_TURN + MICRO_TURNS_PER_TURN / 2 <= u128::MAX) by (nonlinear_arith)
        requires
            bounded <= MAX_STEPPED_ROTATION,
    ;
    let r = (bounded * STEPS_PER_TURN + MICRO_TURNS_PER_TURN / 2) / MICRO_TURNS_PER_TURN;
    assert(r <= MAX_STEPPED_ROTATION) by (nonlinear_arith)
        requires
            bounded <= MAX_STEPPED_ROTATION,
            r == (bounded * STEPS_PER_TURN + MICRO_TURNS_PER_TURN / 2) as int / MICRO_TURNS_PER_TURN as int,
    ;
    r
}

/// Micro-steps to back off after a limit strike that came after `taken` steps.
pub fn step_back_steps(taken: u128) -> (r: u128)
    ensures
        r == step_back_for(taken as nat),
        r <= taken,
{
    let quarter: u128 = (STEP_BACK_TURN * STEPS_PER_TURN + MICRO_TURNS_PER_TURN / 2)
        / MICRO_TURNS_PER_TURN;
    if quarter < taken {
        quarter
    } else {
        taken
    }
}

/// The rotation of `steps` micro-steps, rounded down to a micro-turn.
pub fn rotation_of_steps(steps: u128) -> (r: MotorRotation)
    requires
        steps <= MAX_STEPPED_ROTATION,
    ensures
        r.micro_turns == rotation_of(steps as nat),
{
    assert(steps * MICRO_TURNS_PER_TURN <= u128::MAX) by (nonlinear_arith)
        requires
            steps <= MAX_STEPPED_ROTATION,
    ;
    MotorRotation { micro_turns: steps * MICRO_TURNS_PER_TURN / STEPS_PER_TURN }
}

/// Net steps travelled by a run of `steps` steps: all of them if the limit never read pressed
/// (`first_press` is `None`); if it first read pressed after step `i` (counting from zero), the
/// `i + 1` steps taken less the step-back.
pub open spec fn net_steps_spec(steps: nat, first_press: Option<nat>) -> nat {
    match first_press {
        None => steps,
        Some(i) => (i + 1 - step_back_for(i)) as nat,
    }
}

pub open spec fn as_nat(o: Option<u128>) -> Option<nat> {
    match o {
        None => None,
        Some(i) => Some(i as nat),
    }
}

/// `first_press`, if any, is a step of a run of `steps`.
pub open spec fn press_within(steps: nat, first_press: Option<nat>) -> bool {
    first_press matches Some(i) ==> i < steps
}

/// Net steps travelled by a run of `steps` steps whose limit first read pressed after step
/// `first_press`, if ever.
pub fn net_steps(steps: u128, first_press: Option<u128>) -> (r: u128)
    requires
        first_press matches Some(i) ==> i < steps,
    ensures
        r == net_steps_spec(steps as nat, as_nat(first_press)),
        r <= steps,
{
    match first_press {
        None => steps,
        Some(i) => i + 1 - step_back_steps(i),
    }
}

/// Steps `steps` times in `direction`, polling `limit` after each step. When the limit first
/// reads pressed, stepping stops, the direction is reversed and `step_back_steps` steps are
/// taken back. Returns the net steps travelled.
pub fn step<P: StepPins, S: LimitSwitchBackend>(
    pins: &mut Driven<P>,
    direction: MotorDirection,
    steps: u128,
    limit: &mut Polled<S>,
) -> (r: u128)
    ensures
        exists|readings: Seq<bool>, events: Seq<PinEvent>|
            {
                &&& final(limit).readings() == old(limit).readings() + readings
                &&& final(pins).events() == old(pins).events() + events
                &&& #[trigger] step_run(direction, steps as nat, readings, events, r as nat)
            },
        r <= steps,
{
    pins.set_direction(direction);
    let ghost head = seq![PinEvent::Direction(direction)];
    proof {
        assert(pins.events() =~= old(pins).events() + head + pulses(0));
        assert(limit.readings() =~= old(limit).readings() + released(0));
    }
    let mut i: u128 = 0;
    while i < steps
        invariant
            i <= steps,
            head == seq![PinEvent::Direction(direction)],
            pins.events() == old(pins).events() + head + pulses(i as nat),
            limit.readings() == old(limit).readings() + released(i as nat),
        decreases steps - i,
    {
        pins.pulse();
        proof {
            assert(pins.events() =~= old(pins).events() + head + pulses((i + 1) as nat));
        }
        let pressed = limit.read();
        if pressed {
            let back = step_back_steps(i);
            let ghost at_press = pins.events();
            pins.set_direction(direction.flipped());
            let ghost turned = pins.events();
            proof {
                assert(turned =~= turned + pulses(0));
            }
            let mut j: u128 = 0;
            while j < back
                invariant
                    j <= back,
                    pins.events() == turned + pulses(j as nat),
                decreases back - j,
            {
                pins.pulse();
                proof {
                    assert(pins.events() =~= turned + pulses((j + 1) as nat));
                }
                j = j + 1;
            }
            let r = net_steps(steps, Some(i));
            proof {
                let readings = released(i as nat).push(true);
                let events = seq![PinEvent::Direction(direction)] + pulses((i + 1) as nat) + seq![
                    PinEvent::Direction(direction.flipped_spec()),
                ] + pulses(step_back_for(i as nat));
                assert(limit.readings() =~= old(limit).readings() + readings);
                assert(pins.events() =~= old(pins).events() + events);
                assert(step_run(direction, steps as nat, readings, events, r as nat));
            }
            return r;
        }
        proof {
            assert(limit.readings() =~= old(limit).readings() + released((i + 1) as nat));
        }
        i = i + 1;
    }
    let r = net_steps(steps, None);
    proof {
        let events = seq![PinEvent::Direction(direction)] + pulses(steps as nat);
        assert(pins.events() =~= old(pins).events() + events);
        assert(step_run(direction, steps as nat, released(steps as nat), events, r as nat));
    }
    r
}

/// Turns by `rotation` on a step/direction driver; see [`step`].
pub fn step_rotation<P: StepPins, S: LimitSwitchBackend>(
    pins: &mut Driven<P>,
    direction: MotorDirection,
    rotation: MotorRotation,
    limit: &mut Polled<S>,
) -> (r: MotorRotation)
    ensures
        stepped_rotation(
            direction,
            rotation,
            old(limit).readings(),
            final(limit).readings(),
            old(pins).events(),
            final(pins).events(),
            r,
        ),
{
    let needed = steps_needed(rotation);
    let taken = step(pins, direction, needed, limit);
    let r = rotation_of_steps(taken);
    proof {
        let (readings, events) = choose|readings: Seq<bool>, events: Seq<PinEvent>|
            {
                &&& final(limit).readings() == old(limit).readings() + readings
                &&& final(pins).events() == old(pins).events() + events
                &&& #[trigger] step_run(direction, needed as nat, readings, events, taken as nat)
            };
        assert(step_run(direction, steps_for(rotation.micro_turns as nat), readings, events, taken as nat));
    }
    r
}

/// A turn by `rotation` in `direction` whose switch readings went from `r0` to `r1` and
/// whose pin events went from `e0` to `e1` achieved `r`: a run of the steps the rotation
/// needs, and the rotation of the net steps travelled.
pub open spec fn stepped_rotation(
    direction: MotorDirection,
    rotation: MotorRotation,
    r0: Seq<bool>,
    r1: Seq<bool>,
    e0: Seq<PinEvent>,
    e1: Seq<PinEvent>,
    r: MotorRotation,
) -> bool {
    exists|readings: Seq<bool>, events: Seq<PinEvent>, taken: nat|
        {
            &&& r1 == r0 + readings
            &&& e1 == e0 + events
            &&& #[trigger] step_run(
                direction,
                steps_for(rotation.micro_turns as nat),
                readings,
                events,
                taken,
            )
            &&& r.micro_turns == rotation_of(taken)
        }
}

/// The rotation of half a micro-step, the smallest shortfall that is not rounding noise.
pub fn half_step() -> (r: MotorRotation)
    ensures
        r.micro_turns == HALF_STEP_TURN,
{
    MotorRotation { micro_turns: HALF_STEP_TURN }
}

/// A stepper motor on a DRV8825 driver.
pub struct Drv8825Motor<P> {
    pins: Driven<P>,
}

impl<P> Drv8825Motor<P> {
    pub closed spec fn pins_view(self) -> Driven<P> {
        self.pins
    }
}

impl<P: StepPins> Drv8825Motor<P> {
    pub fn new(pins: P) -> (r: Self)
        ensures
            r.pins_view().pins_view() == pins,
            r.pins_view().events() == Seq::<PinEvent>::empty(),
    {
        Drv8825Motor { pins: Driven::new(pins) }
    }
}

impl<P: StepPins> MotorBackend for Drv8825Motor<P> {
    fn rotate<S: LimitSwitchBackend>(
        &mut self,
        direction: MotorDirection,
        rotation: MotorRotation,
        limit: &mut Polled<S>,
    ) -> (r: MotorRotation)
        ensures
            stepped_rotation(
                direction,
                rotation,
                old(limit).readings(),
                final(limit).readings(),
                old(self).pins_view().events(),
                final(self).pins_view().events(),
                r,
            ),
    {
        step_rotation(&mut self.pins, direction, rotation, limit)
    }

    fn epsilon(&self) -> (r: MotorRotation)
        ensures
            r.micro_turns == HALF_STEP_TURN,
    {
        half_step()
    }
}

} // verus!
