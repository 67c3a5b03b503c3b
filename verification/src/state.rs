//! The state of the sensors as the last good answer gave it.

use vstd::prelude::*;
use crate::frame::{carried_by_frame, lemma_blank_is_carried_by_frame};
use crate::poller::{interpret_reply, poll_result, PollError};
use crate::reading::{ReadingView, SensorReading};
use crate::transport::TransportError;

verus! {

/// The last good reading.
///
/// It is at every moment the reading that a single complete answer carried
/// (before the first answer, the one that an answer with a body of zeros
/// would carry): it is only ever replaced as a whole, by what an answer
/// decodes to.
#[derive(Clone, Copy, Debug, PartialEq, Eq)]
pub struct SensorState {
    reading: SensorReading,
}

impl View for SensorState {
    type V = ReadingView;

    closed spec fn view(&self) -> ReadingView {
        self.reading@
    }
}

impl SensorState {
    /// The invariant of the type: what it holds, a complete answer carried.
    #[verifier::type_invariant]
    pub open spec fn holds_one_frame(self) -> bool {
        carried_by_frame(self@)
    }

    /// The state before the first answer: the blank reading.
    pub fn new() -> (state: SensorState)
        ensures
            state@ == SensorReading::spec_blank(),
    {
        proof {
            lemma_blank_is_carried_by_frame();
        }
        SensorState { reading: SensorReading::blank() }
    }

    /// The reading that the state holds.
    pub fn reading(&self) -> (reading: SensorReading)
        ensures
            reading@ == self@,
            carried_by_frame(reading@),
    {
        proof {
            use_type_invariant(self);
        }
        self.reading
    }

    /// Ends an exchange, given what the connection delivered as the answer:
    /// replaces the reading by the one that the answer carries, or leaves
    /// the state as it is where the answer carries none.
    pub fn refresh(&mut self, received: Result<Vec<u8>, TransportError>) -> (result: Result<
        (),
        PollError,
    >)
        ensures
            match poll_result(received) {
                Ok(reading) => result is Ok && final(self)@ == reading,
                Err(e) => result == Err::<(), PollError>(e) && *final(self) == *old(self),
            },
    {
        match interpret_reply(received) {
            Ok(reading) => {
                self.reading = reading;
                Ok(())
            },
            Err(e) => Err(e),
        }
    }
}

} // verus!
