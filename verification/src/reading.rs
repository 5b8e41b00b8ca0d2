//! One sample of the sensor.

use crate::decimal::Decimal;
use vstd::prelude::*;

verus! {

/// The temperature in degrees Celsius and the relative humidity in percent, as sampled
/// together.
#[derive(Debug, Clone, Copy, PartialEq, Eq, Structural)]
pub struct Reading {
    /// Degrees Celsius.
    pub temperature: Decimal,
    /// Percent of relative humidity.
    pub humidity: Decimal,
}

impl Reading {
    /// Whether the reading lies in the range that the sensor can measure: a temperature from
    /// -40 to 80 degrees, both included, and a humidity above 0 and below 100 percent.
    pub open spec fn is_valid(self) -> bool {
        &&& -400 <= self.temperature.tenths <= 800
        &&& 0 < self.humidity.tenths < 1000
    }

    /// The four digits that the display shows: tens and units of the temperature, then tens
    /// and units of the humidity.
    pub open spec fn display_digits(self) -> Seq<u8> {
        seq![
            ((self.temperature.whole() / 10) % 10) as u8,
            (self.temperature.whole() % 10) as u8,
            ((self.humidity.whole() / 10) % 10) as u8,
            (self.humidity.whole() % 10) as u8,
        ]
    }

    /// Whether the reading lies in the sensor's range. A reading that does not is discarded
    /// before it is published.
    pub fn is_correct(&self) -> (correct: bool)
        ensures
            correct == self.is_valid(),
    {
        let humidity_correct = self.humidity.tenths > 0 && self.humidity.tenths < 1000;
        let temperature_correct = self.temperature.tenths >= -400 && self.temperature.tenths
            <= 800;
        humidity_correct && temperature_correct
    }

    /// The digits to show for this reading.
    pub fn digits(&self) -> (shown: [u8; 4])
        ensures
            shown@ == self.display_digits(),
    {
        let t: u32 = self.temperature.whole_part();
        let h: u32 = self.humidity.whole_part();
        let shown: [u8; 4] = [
            ((t / 10) % 10) as u8,
            (t % 10) as u8,
            ((h / 10) % 10) as u8,
            (h % 10) as u8,
        ];
        proof {
            assert(shown@ =~= self.display_digits());
        }
        shown
    }
}

} // verus!
