//! The serial connection: sending a request and collecting its answer.

use vstd::prelude::*;

verus! {

/// Data rate of the connection in symbols per second.
pub const BAUD_RATE: u32 = 115_200;

/// Longest time that one operation on the device may block, in milliseconds.
pub const TIMEOUT_MS: u64 = 500;

/// Why the connection did not deliver.
#[derive(Clone, Copy, Debug, PartialEq, Eq)]
pub enum TransportError {
    /// The device could not be opened.
    Connection,
    /// The device stayed silent for the whole timeout.
    Timeout,
    /// The device failed, or did not take all that was written.
    Io,
}

impl TransportError {
    /// Whether the error ends the program: only a device that cannot be
    /// opened does. A failed write or read spoils one exchange and no more.
    pub fn is_fatal(&self) -> (fatal: bool)
        ensures
            fatal == (*self == TransportError::Connection),
    {
        match self {
            TransportError::Connection => true,
            TransportError::Timeout => false,
            TransportError::Io => false,
        }
    }
}

/// An open serial device.
///
/// Both operations block no longer than the timeout that the device was
/// opened with. Nothing is assumed of what an implementation returns.
pub trait SerialLink {
    /// Hands `bytes` to the device. `Ok` holds the number of bytes that the
    /// device accepted.
    fn write(&mut self, bytes: &[u8]) -> Result<usize, TransportError>;

    /// Waits for bytes from the device and returns those that arrived, `max`
    /// at most. `Err(TransportError::Timeout)` says that none arrived in
    /// time.
    fn read(&mut self, max: usize) -> Result<Vec<u8>, TransportError>;
}

/// What a send comes to, given the `len` bytes to send and what the device
/// said of the write: it worked if the device took them all.
pub open spec fn send_result(len: nat, written: Result<usize, TransportError>) -> Result<
    (),
    TransportError,
> {
    match written {
        Ok(accepted) => if accepted >= len {
            Ok(())
        } else {
            Err(TransportError::Io)
        },
        Err(_) => Err(TransportError::Io),
    }
}

/// Judges a write of `len` bytes by what the device said of it.
pub fn check_written(len: usize, written: Result<usize, TransportError>) -> (result: Result<
    (),
    TransportError,
>)
    ensures
        result == send_result(len as nat, written),
{
    match written {
        Ok(accepted) => {
            if accepted >= len {
                Ok(())
            } else {
                Err(TransportError::Io)
            }
        },
        Err(_) => Err(TransportError::Io),
    }
}

/// How a receive goes on after one read of the device.
#[derive(Debug, PartialEq, Eq)]
pub enum ReceiveStep {
    /// Bytes are still missing: these are the ones collected so far.
    Pending(Vec<u8>),
    /// The receive is over, with this result.
    Done(Result<Vec<u8>, TransportError>),
}

/// What a [`ReceiveStep`] stands for.
pub enum ReceiveStepView {
    Pending(Seq<u8>),
    Done(Result<Seq<u8>, TransportError>),
}

impl View for ReceiveStep {
    type V = ReceiveStepView;

    open spec fn view(&self) -> ReceiveStepView {
        match *self {
            ReceiveStep::Pending(got) => ReceiveStepView::Pending(got@),
            ReceiveStep::Done(Ok(got)) => ReceiveStepView::Done(Ok(got@)),
            ReceiveStep::Done(Err(e)) => ReceiveStepView::Done(Err(e)),
        }
    }
}

/// The step that follows one read, for a receive of `want` bytes that has
/// collected `got`.
///
/// * With nothing missing the receive is over and returns `got`.
/// * Bytes that arrived are appended. With `want` bytes or more together
///   the receive is over and returns the first `want` of them; else it goes
///   on.
/// * When the device stayed silent the receive is over: it returns what it
///   has, or fails with `Timeout` if that is nothing.
/// * A failure of the device ends the receive with that failure.
pub open spec fn receive_step_spec(
    want: nat,
    got: Seq<u8>,
    outcome: Result<Vec<u8>, TransportError>,
) -> ReceiveStepView {
    if got.len() >= want {
        ReceiveStepView::Done(Ok(got))
    } else {
        match outcome {
            Ok(chunk) => if chunk@.len() == 0 {
                silence(got)
            } else if got.len() + chunk@.len() >= want {
                ReceiveStepView::Done(Ok((got + chunk@).take(want as int)))
            } else {
                ReceiveStepView::Pending(got + chunk@)
            },
            Err(TransportError::Timeout) => silence(got),
            Err(e) => ReceiveStepView::Done(Err(e)),
        }
    }
}

/// How a receive that has collected `got` ends when nothing more arrives.
pub open spec fn silence(got: Seq<u8>) -> ReceiveStepView {
    if got.len() == 0 {
        ReceiveStepView::Done(Err(TransportError::Timeout))
    } else {
        ReceiveStepView::Done(Ok(got))
    }
}

/// The number of bytes that a receive of `want` bytes still misses after
/// `got`.
pub open spec fn missing(want: usize, got: Seq<u8>) -> usize {
    if got.len() <= want {
        (want - got.len()) as usize
    } else {
        0
    }
}

/// What a receive returned, with the bytes as a sequence.
pub open spec fn received_view(result: Result<Vec<u8>, TransportError>) -> Result<
    Seq<u8>,
    TransportError,
> {
    match result {
        Ok(bytes) => Ok(bytes@),
        Err(e) => Err(e),
    }
}

/// Whether a receive of `want` bytes comes to `result` when its reads of the
/// device end in `outcomes`, in turn, with `gots[i]` the bytes collected
/// before read `i`.
///
/// For `want` 0 there is no read and the result is no bytes. Else there is
/// a read or more; the first starts from nothing, each but the last leaves
/// the receive pending with what the next starts from, and the last ends
/// it with `result`, all by [`receive_step_spec`].
pub open spec fn receive_run(
    want: nat,
    outcomes: Seq<Result<Vec<u8>, TransportError>>,
    gots: Seq<Seq<u8>>,
    result: Result<Seq<u8>, TransportError>,
) -> bool {
    &&& gots.len() == outcomes.len()
    &&& if want == 0 {
        outcomes.len() == 0 && result == Ok::<Seq<u8>, TransportError>(Seq::empty())
    } else {
        &&& outcomes.len() > 0
        &&& gots[0] == Seq::<u8>::empty()
        &&& forall|i: int|
            #![trigger outcomes[i]]
            0 <= i < outcomes.len() - 1 ==> receive_step_spec(want, gots[i], outcomes[i])
                == ReceiveStepView::Pending(gots[i + 1])
        &&& receive_step_spec(want, gots.last(), outcomes.last()) == ReceiveStepView::Done(result)
    }
}

/// Decides how a receive of `want` bytes that has collected `got` goes on
/// after a read of the device that ended in `outcome`.
pub fn receive_step(want: usize, got: Vec<u8>, outcome: Result<Vec<u8>, TransportError>) -> (step:
    ReceiveStep)
    ensures
        step@ == receive_step_spec(want as nat, got@, outcome),
{
    if got.len() >= want {
        return ReceiveStep::Done(Ok(got));
    }
    match outcome {
        Ok(chunk) => {
            if chunk.len() == 0 {
                return end_of_data(got);
            }
            let room: usize = want - got.len();
            let take: usize = if chunk.len() < room {
                chunk.len()
            } else {
                room
            };
            let mut all = got;
            let mut i: usize = 0;
            while i < take
                invariant
                    take <= chunk@.len(),
                    i <= take,
                    all@ == got@ + chunk@.take(i as int),
                decreases take - i,
            {
                all.push(chunk[i]);
                i += 1;
                assert(chunk@.take(i as int) =~= chunk@.take(i - 1).push(chunk@[i - 1]));
                assert(all@ =~= got@ + chunk@.take(i as int));
            }
            assert(chunk@.take(chunk@.len() as int) =~= chunk@);
            assert(got@.len() + chunk@.len() >= want ==> all@ =~= (got@ + chunk@).take(
                want as int,
            ));
            if all.len() >= want {
                ReceiveStep::Done(Ok(all))
            } else {
                ReceiveStep::Pending(all)
            }
        },
        Err(TransportError::Timeout) => end_of_data(got),
        Err(e) => ReceiveStep::Done(Err(e)),
    }
}

/// Ends a receive that has collected `got` and gets nothing more.
fn end_of_data(got: Vec<u8>) -> (step: ReceiveStep)
    ensures
        step@ == silence(got@),
{
    if got.len() == 0 {
        ReceiveStep::Done(Err(TransportError::Timeout))
    } else {
        ReceiveStep::Done(Ok(got))
    }
}

/// The connection to the controller: one open serial device.
pub struct Transport<L> {
    /// The device.
    pub link: L,
}

impl<L: SerialLink> Transport<L> {
    /// Takes over an open device.
    pub fn new(link: L) -> (transport: Transport<L>)
        ensures
            transport.link == link,
    {
        Transport { link }
    }

    /// Writes `bytes` to the device, once.
    ///
    /// Fails with `Io` if the write fails or the device takes only a part:
    /// the result is what [`send_result`] makes of an answer that the
    /// device's `write` gave for exactly these bytes, on the device as it
    /// was before the call, leaving it as it is after. Nothing is known of a
    /// device but what its `write` says of itself, so the contract names the
    /// call and its answer and no more.
    pub fn send(&mut self, bytes: &[u8]) -> (result: Result<(), TransportError>)
        ensures
            exists|link: &mut L, written: Result<usize, TransportError>|
                mut_ref_current(link) == old(self).link && mut_ref_future(link) == final(self).link
                    && #[trigger] call_ensures(L::write, (link, bytes), written) && result
                    == send_result(bytes@.len(), written),
            result is Err ==> result == Err::<(), TransportError>(TransportError::Io),
    {
        let written = self.link.write(bytes);
        check_written(bytes.len(), written)
    }

    /// Collects up to `n` bytes from the device.
    ///
    /// Reads until `n` bytes are together, the device stays silent for its
    /// timeout, or it fails; [`receive_step`] decides after each read. Bytes
    /// that arrive beyond `n` are dropped. Every read but the last adds a
    /// byte or more, so there are `n` reads at most.
    ///
    /// The contract follows the receive through the device's own calls.
    /// There is a run of reads, each on the device as the one before left
    /// it (`states`), each asking for the bytes that were still missing
    /// after `gots[i]`, a byte or more, and each but the last leaving more
    /// to come; the result is what [`receive_run`] makes of their answers
    /// (`outcomes`). With `n` 0 the run is empty and the device is left
    /// alone.
    pub fn receive(&mut self, n: usize) -> (result: Result<Vec<u8>, TransportError>)
        ensures
            result is Ok ==> result->Ok_0@.len() <= n,
            result is Ok && n > 0 ==> result->Ok_0@.len() > 0,
            n == 0 ==> result is Ok && final(self).link == old(self).link,
            exists|
                states: Seq<L>,
                outcomes: Seq<Result<Vec<u8>, TransportError>>,
                gots: Seq<Seq<u8>>,
            |
                #![trigger receive_run(n as nat, outcomes, gots, received_view(result)), states.last()]
                receive_run(n as nat, outcomes, gots, received_view(result))
                    && states.len() == outcomes.len() + 1 && states[0] == old(self).link
                    && states.last() == final(self).link && forall|i: int|
                    #![trigger gots[i]]
                    0 <= i < outcomes.len() ==> missing(n, gots[i]) > 0 && exists|link: &mut L|
                        mut_ref_current(link) == states[i] && mut_ref_future(link) == states[i + 1]
                            && #[trigger] call_ensures(
                            L::read,
                            (link, missing(n, gots[i])),
                            outcomes[i],
                        ),
    {
        let mut got: Vec<u8> = Vec::new();
        let ghost mut states: Seq<L> = seq![self.link];
        let ghost mut outcomes: Seq<Result<Vec<u8>, TransportError>> = Seq::empty();
        let ghost mut gots: Seq<Seq<u8>> = seq![Seq::<u8>::empty()];
        while got.len() < n
            invariant
                n > 0 ==> got@.len() < n,
                n == 0 ==> outcomes.len() == 0,
                states.len() == outcomes.len() + 1,
                gots.len() == outcomes.len() + 1,
                states[0] == old(self).link,
                states.last() == self.link,
                gots[0] == Seq::<u8>::empty(),
                gots.last() == got@,
                forall|i: int|
                    0 <= i < outcomes.len() ==> #[trigger] receive_step_spec(
                        n as nat,
                        gots[i],
                        outcomes[i],
                    ) == ReceiveStepView::Pending(gots[i + 1]),
                forall|i: int|
                    #![trigger gots[i]]
                    0 <= i < outcomes.len() ==> missing(n, gots[i]) > 0 && exists|link: &mut L|
                        mut_ref_current(link) == states[i] && mut_ref_future(link) == states[i + 1]
                            && #[trigger] call_ensures(
                            L::read,
                            (link, missing(n, gots[i])),
                            outcomes[i],
                        ),
            decreases n - got@.len(),
        {
            let ghost read_so_far = outcomes.len() as int;
            let ghost earlier_states = states;
            let ghost earlier_outcomes = outcomes;
            let ghost before = self.link;
            let ghost asked = missing(n, got@);
            let outcome = self.link.read(n - got.len());
            let ghost after = self.link;
            assert(exists|link: &mut L|
                mut_ref_current(link) == before && mut_ref_future(link) == after
                    && #[trigger] call_ensures(L::read, (link, asked), outcome));
            proof {
                states = states.push(after);
                outcomes = outcomes.push(outcome);
                assert forall|i: int|
                    #![trigger gots[i]]
                    0 <= i < outcomes.len() implies missing(n, gots[i]) > 0 && exists|link: &mut L|
                    mut_ref_current(link) == states[i] && mut_ref_future(link) == states[i + 1]
                        && #[trigger] call_ensures(
                        L::read,
                        (link, missing(n, gots[i])),
                        outcomes[i],
                    ) by {
                    if i < read_so_far {
                        assert(outcomes[i] == earlier_outcomes[i]);
                        assert(states[i] == earlier_states[i]);
                        assert(states[i + 1] == earlier_states[i + 1]);
                    } else {
                        assert(outcomes[i] == outcome);
                        assert(states[i] == before);
                        assert(states[i + 1] == after);
                        assert(missing(n, gots[i]) == asked);
                    }
                }
            }
            match receive_step(n, got, outcome) {
                ReceiveStep::Pending(more) => {
                    proof {
                        gots = gots.push(more@);
                    }
                    got = more;
                },
                ReceiveStep::Done(result) => {
                    proof {
                        assert(receive_run(n as nat, outcomes, gots, received_view(result)));
                        assert(states.last() == self.link);
                    }
                    return result;
                },
            }
        }
        proof {
            assert(receive_run(n as nat, outcomes, Seq::<Seq<u8>>::empty(), received_view(Ok(got))));
        }
        Ok(got)
    }
}

} // verus!
