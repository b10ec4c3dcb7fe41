//! Motion control for a two-axis gantry: limit-aware stepper rotation, a logical coordinate
//! tracker that calibrates and moves the plane, and free-space bookkeeping for item slots.

pub mod allocator;
pub mod backend;
pub mod camera;
pub mod mjpeg;
pub mod plane;
pub mod sim;
pub mod stepper;

pub use allocator::{ItemAllocator, Rectangle};
pub use backend::{
    ActuatorBackend, BackendComponents, Commanded, LimitSide, LimitSwitchBackend, MagnetBackend,
    MotorBackend, MotorCall, MotorDirection, MotorRotation, Polled, ProtectedMotor,
    ProtectedMotorError, RotationRecord,
};
pub use camera::{CameraBackend, CameraFrame, FakeCamera, FakeCameraFrame};
pub use plane::{CalibrationError, HomingReport, PlaneData, PlaneImpl};
pub use sim::{FakeActuator, FakeBackend, FakeLimit, FakeMagnet, FakeMotor};
pub use stepper::{Driven, Drv8825Motor, PinEvent, StepPins};
