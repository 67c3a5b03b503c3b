//! One exchange with the controller: query, answer, new reading.

use vstd::prelude::*;
use crate::frame::{
    carried_by_frame, decode_response, decode_spec, encode_query, DecodeError, FRAME_LEN,
    MSG_CMD_STATUS, MSG_SOF, QUERY_LEN,
};
use crate::reading::{ReadingView, SensorReading};
use crate::state::SensorState;
use crate::transport::{
    missing, receive_run, send_result, SerialLink, Transport, TransportError,
};

verus! {

/// Why an exchange gave no new reading.
#[derive(Clone, Copy, Debug, PartialEq, Eq)]
pub enum PollError {
    /// The query could not be sent.
    Send(TransportError),
    /// No answer could be collected: the device stayed silent or failed.
    Receive(TransportError),
    /// The answer was cut short or garbled.
    Decode(DecodeError),
}

/// What an exchange gives, by what the connection delivered as the answer.
pub open spec fn poll_result(received: Result<Vec<u8>, TransportError>) -> Result<
    ReadingView,
    PollError,
> {
    match received {
        Err(e) => Err(PollError::Receive(e)),
        Ok(bytes) => match decode_spec(bytes@) {
            Err(e) => Err(PollError::Decode(e)),
            Ok(reading) => Ok(reading),
        },
    }
}

/// Turns what the connection delivered as the answer into a reading: a
/// failure of the connection is passed on, bytes are decoded.
pub fn interpret_reply(received: Result<Vec<u8>, TransportError>) -> (result: Result<
    SensorReading,
    PollError,
>)
    ensures
        match result {
            Ok(reading) => poll_result(received) == Ok::<ReadingView, PollError>(reading@),
            Err(e) => poll_result(received) == Err::<ReadingView, PollError>(e),
        },
        result is Ok ==> carried_by_frame(result->Ok_0@),
{
    match received {
        Err(e) => Err(PollError::Receive(e)),
        Ok(bytes) => match decode_response(bytes.as_slice()) {
            Err(e) => Err(PollError::Decode(e)),
            Ok(reading) => Ok(reading),
        },
    }
}

/// The controller as the program sees it: the state of its sensors and the
/// connection that the next reading comes over.
pub struct FanBoy<L> {
    /// The values of the last exchange that succeeded.
    pub state: SensorState,
    /// The connection to the device.
    pub transport: Transport<L>,
}

/// Sets up the controller on an open device, with a blank reading.
pub fn fanboy_init<L: SerialLink>(link: L) -> (fanboy: FanBoy<L>)
    ensures
        fanboy.state@ == SensorReading::spec_blank(),
        fanboy.transport.link == link,
{
    FanBoy { state: SensorState::new(), transport: Transport::new(link) }
}

impl<L: SerialLink> FanBoy<L> {
    /// Runs one exchange: sends the query, collects [`FRAME_LEN`] bytes and
    /// decodes them.
    ///
    /// On success the state holds the reading that the answer carries. On
    /// any failure (the query not sent, no or too short an answer, a wrong
    /// header) the state stays as it was. Nothing is tried twice.
    ///
    /// The contract follows the exchange through the device's own calls.
    /// There is one write of the query to the device as it was. Where
    /// [`send_result`] makes a failure of its answer, the exchange fails
    /// with it and nothing is read. Else there is a run of reads as
    /// [`Transport::receive`] makes them for [`FRAME_LEN`] bytes, the first
    /// on the device as the write left it, and the result and the new state
    /// are what the received bytes decode to, or the failure of the
    /// receive.
    pub fn update(&mut self) -> (result: Result<(), PollError>)
        ensures
            result is Err ==> final(self).state == old(self).state,
            carried_by_frame(final(self).state@),
            exists|wlink: &mut L, query: &[u8], written: Result<usize, TransportError>|
                query@ == seq![MSG_SOF, MSG_CMD_STATUS] && mut_ref_current(wlink) == old(
                    self,
                ).transport.link && #[trigger] call_ensures(L::write, (wlink, query), written) && (
                send_result(QUERY_LEN as nat, written) is Err ==> (result == Err::<(), PollError>(
                    PollError::Send(TransportError::Io),
                ) && final(self).transport.link == mut_ref_future(wlink))) && (send_result(
                    QUERY_LEN as nat,
                    written,
                ) is Ok ==> exists|
                    states: Seq<L>,
                    outcomes: Seq<Result<Vec<u8>, TransportError>>,
                    gots: Seq<Seq<u8>>,
                    received: Result<Seq<u8>, TransportError>,
                |
                    #![trigger receive_run(FRAME_LEN as nat, outcomes, gots, received), states.last()]
                    receive_run(FRAME_LEN as nat, outcomes, gots, received) && states.len()
                        == outcomes.len() + 1 && states[0] == mut_ref_future(wlink)
                        && states.last() == final(self).transport.link && (forall|i: int|
                        #![trigger gots[i]]
                        0 <= i < outcomes.len() ==> missing(FRAME_LEN, gots[i]) > 0 && exists|
                            rlink: &mut L,
                        |
                            mut_ref_current(rlink) == states[i] && mut_ref_future(rlink) == states[i
                                + 1] && #[trigger] call_ensures(
                                L::read,
                                (rlink, missing(FRAME_LEN, gots[i])),
                                outcomes[i],
                            )) && match received {
                        Err(e) => result == Err::<(), PollError>(PollError::Receive(e)),
                        Ok(bytes) => match decode_spec(bytes) {
                            Err(e) => result == Err::<(), PollError>(PollError::Decode(e)),
                            Ok(reading) => result is Ok && final(self).state@ == reading,
                        },
                    }),
    {
        let query = encode_query();
        match self.transport.send(query.as_slice()) {
            Err(e) => {
                proof {
                    use_type_invariant(&self.state);
                }
                return Err(PollError::Send(e));
            },
            Ok(()) => {},
        }
        let received = self.transport.receive(FRAME_LEN);
        let result = self.state.refresh(received);
        proof {
            use_type_invariant(&self.state);
        }
        result
    }
}

} // verus!
