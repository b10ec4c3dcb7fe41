//! The camera as seen by the rest of the system: an opaque source of frames.

use vstd::prelude::*;

verus! {

/// A frame that has been asked for and can be waited on.
pub trait CameraFrame {
    /// The encoded image, or nothing if the capture failed.
    fn take(self) -> Option<Vec<u8>>;
}

pub trait CameraBackend {
    type FrameType: CameraFrame;

    /// Starts the camera's video server and returns its address.
    fn start(&mut self) -> String;

    /// Asks for a single frame.
    fn capture(&mut self) -> Self::FrameType;

    /// Stops the camera's video server.
    fn stop(&mut self);
}

/// A simulated camera whose server address is a fixed sample image.
pub struct FakeCamera;

/// A simulated frame: an empty image.
pub struct FakeCameraFrame;

impl CameraFrame for FakeCameraFrame {
    fn take(self) -> (r: Option<Vec<u8>>)
        ensures
            r matches Some(v) && v@.len() == 0,
    {
        Some(Vec::new())
    }
}

impl CameraBackend for FakeCamera {
    type FrameType = FakeCameraFrame;

    fn start(&mut self) -> String {
        "https://cdn.mos.cms.futurecdn.net/4wpKrH93D37dDPTisdqGy4-1200-80.jpg".to_owned()
    }

    fn capture(&mut self) -> FakeCameraFrame {
        FakeCameraFrame
    }

    fn stop(&mut self) {
    }
}

} // verus!
