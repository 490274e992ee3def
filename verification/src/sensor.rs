//! Abstractions over the distance sensor.

use vstd::prelude::*;
use rand::RngCore;
use crate::frame::FrameError;

verus! {

/// Errors from interacting with the sensor.
#[derive(Clone, Copy, Debug, PartialEq, Eq, Structural)]
pub enum SensorError {
    /// The underlying transport failed.
    IOError,
    /// The sensor's frame stream was malformed.
    LunaErr(FrameError),
}

/// A distance reading.
#[derive(Clone, Copy, Debug, PartialEq, Eq, Structural)]
pub struct DistanceReading {
    /// Distance reading in mm.
    pub dist: u32,
}

impl DistanceReading {
    pub fn new(dist: u32) -> (r: DistanceReading)
        ensures
            r == (DistanceReading { dist }),
    {
        DistanceReading { dist }
    }
}

/// A sensor capable of reading distance values.
///
/// Implementations decide where the readings come from; nothing is
/// assumed of the values they return.
pub trait DistanceSensor {
    /// Gets a distance reading.
    fn get_reading(&mut self) -> Result<DistanceReading, SensorError>;
}

/// Reads random distance values between two bounds.
pub struct MockDistanceReader {
    max: u32,
    min: u32,
}

impl MockDistanceReader {
    /// Creates a mock sensor that reads random values between min and max.
    pub fn new(min: u32, max: u32) -> (r: MockDistanceReader)
        ensures
            r.spec_min() == min,
            r.spec_max() == max,
    {
        MockDistanceReader { max, min }
    }

    /// The configured lower bound.
    pub closed spec fn spec_min(self) -> u32 {
        self.min
    }

    /// The configured upper bound.
    pub closed spec fn spec_max(self) -> u32 {
        self.max
    }
}

/// Relies on `rand::thread_rng` and `rand::RngCore::next_u32` for a
/// uniformly random draw; nothing is promised of the value.
#[verifier::external_body]
fn random_u32() -> u32 {
    rand::thread_rng().next_u32()
}

impl DistanceSensor for MockDistanceReader {
    fn get_reading(&mut self) -> (r: Result<DistanceReading, SensorError>)
        ensures
            r matches Ok(d) && d.dist >= old(self).spec_min(),
            (old(self).spec_min() < old(self).spec_max() ==> (r matches Ok(d) && d.dist < old(
                self,
            ).spec_max())),
    {
        let raw: u32 = random_u32();
        let bounded: u32 = if self.max == 0 {
            0
        } else {
            raw % self.max
        };
        let dist: u32 = if bounded < self.min {
            self.min
        } else {
            bounded
        };
        Ok(DistanceReading::new(dist))
    }
}

} // verus!
