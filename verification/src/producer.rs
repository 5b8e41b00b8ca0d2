//! The producer: what becomes of each sample that the sensor gives.

use crate::bus::{all_after_publish, Topic};
use crate::reading::Reading;
use vstd::prelude::*;

verus! {

/// The seconds to wait after a failed read of the sensor before the next one.
pub const SENSOR_RETRY_SECS: u32 = 10;

/// What a read of the sensor gave.
#[derive(Debug, Clone, Copy, PartialEq, Eq, Structural)]
pub enum Sample {
    /// The sensor answered with this reading.
    Read(Reading),
    /// The sensor did not answer, or its answer was damaged.
    Failed,
}

/// What is done with a sample.
#[derive(Debug, Clone, Copy, PartialEq, Eq, Structural)]
pub enum Verdict {
    /// The reading is in the sensor's range, and is published.
    Publish(Reading),
    /// The reading is out of the sensor's range, and is dropped.
    Discard(Reading),
    /// There is no reading; the sensor is read again after a short wait.
    Retry,
}

/// What is done with `sample`.
pub open spec fn verdict_of(sample: Sample) -> Verdict {
    match sample {
        Sample::Read(reading) => if reading.is_valid() {
            Verdict::Publish(reading)
        } else {
            Verdict::Discard(reading)
        },
        Sample::Failed => Verdict::Retry,
    }
}

/// The seconds to wait before the sensor is read again: the sampling interval after a
/// reading, whether it was published or not, and a short fixed wait after a failed read.
pub open spec fn pause_after(sample: Sample, interval_secs: u32) -> u32 {
    match sample {
        Sample::Read(_) => interval_secs,
        Sample::Failed => SENSOR_RETRY_SECS,
    }
}

/// Decides what is done with `sample`.
pub fn judge(sample: Sample) -> (verdict: Verdict)
    ensures
        verdict == verdict_of(sample),
{
    match sample {
        Sample::Read(reading) => if reading.is_correct() {
            Verdict::Publish(reading)
        } else {
            Verdict::Discard(reading)
        },
        Sample::Failed => Verdict::Retry,
    }
}

/// Takes one sample in: publishes its reading to `topic` if it is in the sensor's range, and
/// tells what was done and how many seconds to wait before the next read. The producer
/// never waits for a subscriber.
pub fn produce(topic: &mut Topic, sample: Sample, interval_secs: u32) -> (done: (Verdict, u32))
    requires
        old(topic).wf(),
    ensures
        final(topic).wf(),
        final(topic).limit() == old(topic).limit(),
        done.0 == verdict_of(sample),
        done.1 == pause_after(sample, interval_secs),
        final(topic).backlogs() == (match verdict_of(sample) {
            Verdict::Publish(reading) => all_after_publish(
                old(topic).backlogs(),
                reading,
                old(topic).limit(),
            ),
            _ => old(topic).backlogs(),
        }),
{
    let verdict = judge(sample);
    if let Verdict::Publish(reading) = verdict {
        topic.publish(reading);
    }
    let pause = match sample {
        Sample::Read(_) => interval_secs,
        Sample::Failed => SENSOR_RETRY_SECS,
    };
    (verdict, pause)
}

} // verus!
