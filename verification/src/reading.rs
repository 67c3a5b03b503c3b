//! The decoded sensor values.

use vstd::prelude::*;
use crate::frame::{NUM_FANS, NUM_TEMP};

verus! {

/// One complete set of sensor values, as one answer frame carried them.
///
/// Decoding fills all three fields from the same frame, or gives no reading
/// at all.
#[derive(Clone, Copy, Debug, PartialEq, Eq)]
pub struct SensorReading {
    /// Temperature of each sensor in hundredths of a degree Celsius.
    pub temp: [u16; NUM_TEMP],
    /// Revolutions per minute of each fan; 0 where the fan gives no
    /// tachometer signal.
    pub rpm: [u16; NUM_FANS],
    /// Duty of each fan in per cent.
    pub duty: [u8; NUM_FANS],
}

/// What a [`SensorReading`] stands for: the three sequences of values.
pub struct ReadingView {
    pub temp: Seq<u16>,
    pub rpm: Seq<u16>,
    pub duty: Seq<u8>,
}

impl View for SensorReading {
    type V = ReadingView;

    open spec fn view(&self) -> ReadingView {
        ReadingView { temp: self.temp@, rpm: self.rpm@, duty: self.duty@ }
    }
}

impl SensorReading {
    /// The reading before any answer has arrived: every value is 0.
    pub open spec fn spec_blank() -> ReadingView {
        ReadingView {
            temp: Seq::new(NUM_TEMP as nat, |i: int| 0u16),
            rpm: Seq::new(NUM_FANS as nat, |i: int| 0u16),
            duty: Seq::new(NUM_FANS as nat, |i: int| 0u8),
        }
    }

    /// A reading with every value 0, for the time before the first answer.
    pub fn blank() -> (reading: SensorReading)
        ensures
            reading@ == Self::spec_blank(),
    {
        let reading = SensorReading { temp: [0, 0], rpm: [0, 0, 0, 0], duty: [0, 0, 0, 0] };
        assert(reading.temp@ =~= Self::spec_blank().temp);
        assert(reading.rpm@ =~= Self::spec_blank().rpm);
        assert(reading.duty@ =~= Self::spec_blank().duty);
        reading
    }
}

} // verus!
