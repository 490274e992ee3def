//! Sensor node application logic: zeroing and debounced triggering.
//!
//! From a stream of noisy distance readings the node derives one event
//! per vehicle pass.  A calibration baseline (the zero) is the mean of
//! one hundred readings; a reading triggers when it comes in closer
//! than the baseline by at least a threshold; and a debounce window
//! collapses a slow pass into a single emitted trigger.

use vstd::prelude::*;
use crate::sensor::DistanceSensor;
use crate::sensor::SensorError;

verus! {

/// How many readings the zero routine averages.
pub const ZERO_SAMPLES: usize = 100;

/// How long after a trigger candidate further triggers are swallowed,
/// in milliseconds of the monotonic clock.
pub const DEBOUNCE_MS: u64 = 2000;

/// Whether a reading counts as the vehicle passing: it must be closer
/// than the baseline by at least the threshold.
pub open spec fn spec_should_trigger(zero: u32, threshold: u32, reading: u32) -> bool {
    reading < zero && zero - reading >= threshold
}

/// Checks if a reading counts as a trigger of the car passing.
pub fn should_trigger(zero: u32, threshold: u32, reading: u32) -> (r: bool)
    ensures
        r == spec_should_trigger(zero, threshold, reading),
{
    reading < zero && zero - reading >= threshold
}

/// The sum of the samples.
pub open spec fn spec_sum(s: Seq<u32>) -> int
    decreases s.len(),
{
    if s.len() == 0 {
        0
    } else {
        spec_sum(s.drop_last()) + s.last()
    }
}

/// The integer mean of one hundred samples.
pub fn sample_mean(samples: &Vec<u32>) -> (m: u32)
    requires
        samples@.len() == ZERO_SAMPLES,
    ensures
        m == spec_sum(samples@) / 100,
{
    let mut sum: u64 = 0;
    let mut i: usize = 0;
    while i < ZERO_SAMPLES
        invariant
            0 <= i <= ZERO_SAMPLES,
            samples@.len() == ZERO_SAMPLES,
            sum == spec_sum(samples@.take(i as int)),
            sum <= i * 0xffff_ffff,
        decreases ZERO_SAMPLES - i,
    {
        proof {
            assert(samples@.take(i + 1).drop_last() =~= samples@.take(i as int));
        }
        sum = sum + samples[i] as u64;
        i += 1;
    }
    proof {
        assert(samples@.take(ZERO_SAMPLES as int) =~= samples@);
    }
    (sum / 100) as u32
}

/// The milliseconds elapsed from `last` to `now` on a monotonic clock,
/// zero when `now` lies before `last`.
pub open spec fn spec_elapsed(last: u64, now: u64) -> int {
    if now >= last {
        now - last
    } else {
        0
    }
}

/// Sensor node specific application state.
///
/// Time enters as milliseconds of a monotonic clock whose origin lies
/// at or before the context's creation; the caller reads that clock
/// and passes it in.
pub struct ApplicationContext<T: DistanceSensor> {
    /// The connected sensor.
    pub sensor: T,
    /// Current sensor zero, mm.
    pub zero: u32,
    /// Delta off of zero to count as a trigger, mm.
    pub threshold: u32,
    /// When the last trigger candidate was seen, in monotonic
    /// milliseconds.  Used to keep the sensor from triggering over and
    /// over while the vehicle passes slowly.
    pub last_detection_ms: u64,
}

impl<T: DistanceSensor> ApplicationContext<T> {
    /// Creates a new context.  The sensor should already be connected
    /// and ready.
    ///
    /// `threshold` is the difference off zero to consider a trigger,
    /// in mm.
    pub fn new(sensor: T, default_zero: u32, threshold: u32) -> (r: ApplicationContext<T>)
        ensures
            r.zero == default_zero,
            r.threshold == threshold,
            r.last_detection_ms == 0,
    {
        ApplicationContext { sensor, zero: default_zero, threshold, last_detection_ms: 0 }
    }

    /// Zeros the sensor from one hundred fresh readings; the new zero
    /// is their integer mean, stored internally and also returned.
    ///
    /// A read error propagates and leaves the stored zero untouched:
    /// there is no partial update.
    pub fn zero(&mut self) -> (r: Result<u32, SensorError>)
        ensures
            final(self).threshold == old(self).threshold,
            final(self).last_detection_ms == old(self).last_detection_ms,
            match r {
                Ok(z) => final(self).zero == z,
                Err(_) => final(self).zero == old(self).zero,
            },
    {
        let mut samples: Vec<u32> = Vec::new();
        let mut i: usize = 0;
        while i < ZERO_SAMPLES
            invariant
                0 <= i <= ZERO_SAMPLES,
                samples@.len() == i,
                self.zero == old(self).zero,
                self.threshold == old(self).threshold,
                self.last_detection_ms == old(self).last_detection_ms,
            decreases ZERO_SAMPLES - i,
        {
            match self.sensor.get_reading() {
                Ok(reading) => {
                    samples.push(reading.dist);
                },
                Err(e) => {
                    return Err(e);
                },
            }
            i += 1;
        }
        let z: u32 = sample_mean(&samples);
        self.zero = z;
        Ok(z)
    }

    /// Decides one reading of the trigger loop: returns whether the
    /// reading is an emitted trigger.
    ///
    /// A reading inside the trigger band resets the debounce clock
    /// whether or not it is emitted, so a slow-moving vehicle that
    /// stays in range keeps pushing its own emission away; it is
    /// emitted only when the debounce window had already elapsed.
    pub fn process_reading(&mut self, dist: u32, now_ms: u64) -> (r: bool)
        ensures
            final(self).zero == old(self).zero,
            final(self).threshold == old(self).threshold,
            final(self).last_detection_ms == (if spec_should_trigger(
                old(self).zero,
                old(self).threshold,
                dist,
            ) {
                now_ms
            } else {
                old(self).last_detection_ms
            }),
            r == (spec_should_trigger(old(self).zero, old(self).threshold, dist) && spec_elapsed(
                old(self).last_detection_ms,
                now_ms,
            ) >= DEBOUNCE_MS),
    {
        if should_trigger(self.zero, self.threshold, dist) {
            let elapsed: u64 = if now_ms >= self.last_detection_ms {
                now_ms - self.last_detection_ms
            } else {
                0
            };
            self.last_detection_ms = now_ms;
            elapsed >= DEBOUNCE_MS
        } else {
            false
        }
    }
}

} // verus!
