//! A simulated backend: deterministic stand-ins for the hardware, for development and tests.

use crate::backend::{
    ActuatorBackend, BackendComponents, LimitSwitchBackend, MagnetBackend, MotorBackend,
    MotorDirection, MotorRotation, Polled,
};
use crate::stepper::{step_rotation, stepped_rotation, Driven, PinEvent, StepPins, HALF_STEP_TURN};
use vstd::prelude::*;

verus! {

/// A simulated stepper motor, numbered for identification. It steps like the real driver but
/// drives no pins.
pub struct FakeMotor {
    id: usize,
    pins: Driven<FakePins>,
}

/// Step and direction lines that lead nowhere.
pub struct FakePins;

impl StepPins for FakePins {
    fn set_direction(&mut self, direction: MotorDirection) {
    }

    fn pulse(&mut self) {
    }
}

impl FakeMotor {
    pub closed spec fn id_view(self) -> usize {
        self.id
    }

    pub closed spec fn pins_view(self) -> Driven<FakePins> {
        self.pins
    }

    pub fn new(id: usize) -> (r: FakeMotor)
        ensures
            r.id_view() == id,
            r.pins_view().events() == Seq::<PinEvent>::empty(),
    {
        FakeMotor { id, pins: Driven::new(FakePins) }
    }

    pub fn id(&self) -> (r: usize)
        ensures
            r == self.id_view(),
    {
        self.id
    }
}

impl MotorBackend for FakeMotor {
    fn rotate<S: LimitSwitchBackend>(
        &mut self,
        direction: MotorDirection,
        rotation: MotorRotation,
        limit: &mut Polled<S>,
    ) -> (r: MotorRotation)
        ensures
            stepped_rotation(
                direction,
                rotation,
                old(limit).readings(),
                final(limit).readings(),
                old(self).pins_view().events(),
                final(self).pins_view().events(),
                r,
            ),
            final(self).id_view() == old(self).id_view(),
    {
        step_rotation(&mut self.pins, direction, rotation, limit)
    }

    fn epsilon(&self) -> (r: MotorRotation)
        ensures
            r.micro_turns == HALF_STEP_TURN,
    {
        MotorRotation { micro_turns: HALF_STEP_TURN }
    }
}

/// A simulated limit switch that reads whatever it was set to.
#[derive(Debug, Clone, Copy, PartialEq, Eq, Structural)]
pub struct FakeLimit {
    pub pressed: bool,
}

impl FakeLimit {
    pub fn new(pressed: bool) -> (r: FakeLimit)
        ensures
            r.pressed == pressed,
    {
        FakeLimit { pressed }
    }
}

impl LimitSwitchBackend for FakeLimit {
    fn is_pressed(&mut self) -> (r: bool)
        ensures
            r == old(self).pressed,
            *final(self) == *old(self),
    {
        self.pressed
    }
}

/// A simulated linear actuator that remembers its last stroke.
#[derive(Debug, Clone, Copy, PartialEq, Eq, Structural)]
pub struct FakeActuator {
    pub extended: bool,
}

impl ActuatorBackend for FakeActuator {
    fn contract(&mut self)
        ensures
            !final(self).extended,
    {
        self.extended = false;
    }

    fn extend(&mut self)
        ensures
            final(self).extended,
    {
        self.extended = true;
    }
}

/// A simulated electromagnet that remembers whether it is on.
#[derive(Debug, Clone, Copy, PartialEq, Eq, Structural)]
pub struct FakeMagnet {
    pub on: bool,
}

impl MagnetBackend for FakeMagnet {
    fn set(&mut self, on: bool)
        ensures
            final(self).on == on,
    {
        self.on = on;
    }
}

/// The simulated deployment: motors 1 and 2, released limit switches, a contracted actuator
/// and a magnet that is off.
pub struct FakeBackend;

impl BackendComponents for FakeBackend {
    type Motor = FakeMotor;

    type Actuator = FakeActuator;

    type Magnet = FakeMagnet;

    type Limit = FakeLimit;

    fn motor_x() -> FakeMotor {
        FakeMotor::new(1)
    }

    fn motor_y() -> FakeMotor {
        FakeMotor::new(2)
    }

    fn actuator() -> FakeActuator {
        FakeActuator { extended: false }
    }

    fn magnet() -> FakeMagnet {
        FakeMagnet { on: false }
    }

    fn limit_x_l() -> FakeLimit {
        FakeLimit::new(false)
    }

    fn limit_x_r() -> FakeLimit {
        FakeLimit::new(false)
    }

    fn limit_y_l() -> FakeLimit {
        FakeLimit::new(false)
    }

    fn limit_y_r() -> FakeLimit {
        FakeLimit::new(false)
    }
}

} // verus!
