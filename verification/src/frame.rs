//! The wire format: the status query and the frame that answers it.

use byteorder::{ByteOrder, LittleEndian};
use vstd::prelude::*;
use vstd::slice::slice_subrange;
use crate::reading::{ReadingView, SensorReading};

verus! {

/// Number of fans that the controller reports.
pub const NUM_FANS: usize = 4;

/// Number of temperature sensors that the controller reports.
pub const NUM_TEMP: usize = 2;

/// Start-of-frame marker, first byte of the query and of the answer.
pub const MSG_SOF: u8 = 0x42;

/// Command code that asks for the full status, second byte of both.
pub const MSG_CMD_STATUS: u8 = 0x01;

/// Length of the query in bytes.
pub const QUERY_LEN: usize = 2;

/// Length of the answer in bytes: the header, three bytes for each fan and
/// two for each temperature sensor.
pub const FRAME_LEN: usize = 18;

/// Tachometer value by which the controller says that a fan gives no signal.
pub const RPM_UNKNOWN: u16 = 0xFFFF;

/// Offset of the first fan's record in the answer.
pub const FANS_AT: usize = 2;

/// Length of one fan's record: one byte of duty, two of tachometer reading.
pub const FAN_RECORD_LEN: usize = 3;

/// Offset of the first temperature in the answer.
pub const TEMPS_AT: usize = 14;

/// Length of one temperature.
pub const TEMP_RECORD_LEN: usize = 2;

/// Why an answer could not be decoded.
#[derive(Clone, Copy, Debug, PartialEq, Eq)]
pub enum DecodeError {
    /// Fewer bytes than a frame has.
    ShortFrame,
    /// The first two bytes are not the marker and the command of the query.
    BadHeader,
}

/// The number that two bytes spell in little-endian order.
pub open spec fn le16(lo: u8, hi: u8) -> int {
    lo as int + 256 * (hi as int)
}

/// The fan speed that a tachometer value stands for: the value itself, but 0
/// for the one that marks a missing signal.
pub open spec fn rpm_of(raw: int) -> int {
    if raw == RPM_UNKNOWN as int {
        0
    } else {
        raw
    }
}

/// Whether `frame` begins with the marker and the command.
pub open spec fn has_header(frame: Seq<u8>) -> bool {
    frame.len() >= 2 && frame[0] == MSG_SOF && frame[1] == MSG_CMD_STATUS
}

/// Whether `frame` can be decoded: it is long enough and has the header.
pub open spec fn is_valid_frame(frame: Seq<u8>) -> bool {
    frame.len() >= FRAME_LEN && has_header(frame)
}

/// The duty byte of fan `fan`.
pub open spec fn frame_duty(frame: Seq<u8>, fan: int) -> u8 {
    frame[FANS_AT + FAN_RECORD_LEN * fan]
}

/// The tachometer value of fan `fan` as the frame spells it.
pub open spec fn frame_raw_rpm(frame: Seq<u8>, fan: int) -> int {
    le16(frame[FANS_AT + FAN_RECORD_LEN * fan + 1], frame[FANS_AT + FAN_RECORD_LEN * fan + 2])
}

/// The speed of fan `fan`.
pub open spec fn frame_rpm(frame: Seq<u8>, fan: int) -> int {
    rpm_of(frame_raw_rpm(frame, fan))
}

/// The value of temperature sensor `sensor`, in hundredths of a degree.
pub open spec fn frame_temp(frame: Seq<u8>, sensor: int) -> int {
    le16(frame[TEMPS_AT + TEMP_RECORD_LEN * sensor], frame[TEMPS_AT + TEMP_RECORD_LEN * sensor + 1])
}

/// The reading that a valid frame carries.
pub open spec fn reading_of(frame: Seq<u8>) -> ReadingView {
    ReadingView {
        temp: Seq::new(NUM_TEMP as nat, |i: int| frame_temp(frame, i) as u16),
        rpm: Seq::new(NUM_FANS as nat, |i: int| frame_rpm(frame, i) as u16),
        duty: Seq::new(NUM_FANS as nat, |i: int| frame_duty(frame, i)),
    }
}

/// Whether `reading` is what some complete answer carries.
pub open spec fn carried_by_frame(reading: ReadingView) -> bool {
    exists|frame: Seq<u8>|
        frame.len() == FRAME_LEN && has_header(frame) && #[trigger] reading_of(frame) == reading
}

/// A valid frame carries what its first [`FRAME_LEN`] bytes carry.
pub proof fn lemma_reading_ignores_the_rest(frame: Seq<u8>)
    requires
        is_valid_frame(frame),
    ensures
        reading_of(frame) == reading_of(frame.take(FRAME_LEN as int)),
        is_valid_frame(frame.take(FRAME_LEN as int)),
        carried_by_frame(reading_of(frame)),
{
    let head = frame.take(FRAME_LEN as int);
    assert(reading_of(frame).temp =~= reading_of(head).temp);
    assert(reading_of(frame).rpm =~= reading_of(head).rpm);
    assert(reading_of(frame).duty =~= reading_of(head).duty);
}

/// The blank reading is the one that an answer with a body of zeros carries.
pub proof fn lemma_blank_is_carried_by_frame()
    ensures
        carried_by_frame(SensorReading::spec_blank()),
{
    let frame = Seq::new(
        FRAME_LEN as nat,
        |i: int|
            if i == 0 {
                MSG_SOF
            } else if i == 1 {
                MSG_CMD_STATUS
            } else {
                0u8
            },
    );
    assert(reading_of(frame).temp =~= SensorReading::spec_blank().temp);
    assert(reading_of(frame).rpm =~= SensorReading::spec_blank().rpm);
    assert(reading_of(frame).duty =~= SensorReading::spec_blank().duty);
}

/// The speed of a fan is 0 where the frame spells the marker of a missing
/// signal, and what the frame spells everywhere else; so it is never the
/// marker.
pub proof fn lemma_rpm_marker_reads_zero(frame: Seq<u8>, fan: int)
    requires
        0 <= fan < NUM_FANS,
    ensures
        frame_raw_rpm(frame, fan) == RPM_UNKNOWN ==> reading_of(frame).rpm[fan] == 0,
        frame_raw_rpm(frame, fan) != RPM_UNKNOWN ==> reading_of(frame).rpm[fan] == frame_raw_rpm(
            frame,
            fan,
        ),
        reading_of(frame).rpm[fan] != RPM_UNKNOWN,
{
}

/// What decoding `frame` gives: the reading, or the reason why there is none.
pub open spec fn decode_spec(frame: Seq<u8>) -> Result<ReadingView, DecodeError> {
    if frame.len() < FRAME_LEN {
        Err(DecodeError::ShortFrame)
    } else if !has_header(frame) {
        Err(DecodeError::BadHeader)
    } else {
        Ok(reading_of(frame))
    }
}

/// Builds the status query: the start-of-frame marker, then the command.
pub fn encode_query() -> (query: [u8; QUERY_LEN])
    ensures
        query@ == seq![MSG_SOF, MSG_CMD_STATUS],
{
    let query: [u8; QUERY_LEN] = [MSG_SOF, MSG_CMD_STATUS];
    assert(query@ =~= seq![MSG_SOF, MSG_CMD_STATUS]);
    query
}

/// Reads two bytes as a little-endian number with
/// `<byteorder::LittleEndian as byteorder::ByteOrder>::read_u16`.
///
/// Trusted: the result is taken to be the first byte of `buf` plus 256 times
/// the second. The call panics on fewer than two bytes, so they are required.
#[verifier::external_body]
fn read_u16_le(buf: &[u8]) -> (value: u16)
    requires
        buf@.len() >= 2,
    ensures
        value as int == le16(buf@[0], buf@[1]),
{
    LittleEndian::read_u16(buf)
}

/// The little-endian number at offset `at` of `bytes`.
fn u16_at(bytes: &[u8], at: usize) -> (value: u16)
    requires
        at + 2 <= bytes@.len(),
    ensures
        value as int == le16(bytes@[at as int], bytes@[at + 1]),
{
    let len: usize = bytes.len();
    assert(at + 2 <= len);
    read_u16_le(slice_subrange(bytes, at, at + 2))
}

/// The speed that the tachometer value `raw` stands for: `raw` itself, or 0
/// where `raw` is the value that marks a missing signal.
pub fn normalize_rpm(raw: u16) -> (rpm: u16)
    ensures
        raw == RPM_UNKNOWN ==> rpm == 0,
        raw != RPM_UNKNOWN ==> rpm == raw,
        rpm as int == rpm_of(raw as int),
{
    if raw == RPM_UNKNOWN {
        0
    } else {
        raw
    }
}

/// Decodes an answer of the controller.
///
/// Fails on fewer than [`FRAME_LEN`] bytes, then on a wrong header. Otherwise
/// every field is taken from its fixed place in the frame, fans and sensors
/// in the order in which the frame holds them; bytes beyond the frame are
/// ignored. There is no partial result.
pub fn decode_response(bytes: &[u8]) -> (result: Result<SensorReading, DecodeError>)
    ensures
        match result {
            Ok(reading) => decode_spec(bytes@) == Ok::<ReadingView, DecodeError>(reading@),
            Err(e) => decode_spec(bytes@) == Err::<ReadingView, DecodeError>(e),
        },
        result is Ok <==> is_valid_frame(bytes@),
        result == Err::<SensorReading, DecodeError>(DecodeError::ShortFrame) <==> bytes@.len()
            < FRAME_LEN,
        result == Err::<SensorReading, DecodeError>(DecodeError::BadHeader) <==> bytes@.len()
            >= FRAME_LEN && (bytes@[0] != MSG_SOF || bytes@[1] != MSG_CMD_STATUS),
        result is Ok ==> forall|fan: int|
            0 <= fan < NUM_FANS ==> {
                &&& (#[trigger] result->Ok_0.duty[fan]) == frame_duty(bytes@, fan)
                &&& (#[trigger] result->Ok_0.rpm[fan]) as int == frame_rpm(bytes@, fan)
            },
        result is Ok ==> forall|sensor: int|
            0 <= sensor < NUM_TEMP ==> (#[trigger] result->Ok_0.temp[sensor]) as int == frame_temp(
                bytes@,
                sensor,
            ),
        result is Ok ==> carried_by_frame(result->Ok_0@),
{
    if bytes.len() < FRAME_LEN {
        return Err(DecodeError::ShortFrame);
    }
    if bytes[0] != MSG_SOF || bytes[1] != MSG_CMD_STATUS {
        return Err(DecodeError::BadHeader);
    }
    let mut reading = SensorReading::blank();
    let mut fan: usize = 0;
    while fan < NUM_FANS
        invariant
            bytes@.len() >= FRAME_LEN,
            fan <= NUM_FANS,
            forall|i: int|
                0 <= i < fan ==> (#[trigger] reading.duty[i]) == frame_duty(bytes@, i),
            forall|i: int|
                0 <= i < fan ==> (#[trigger] reading.rpm[i]) as int == frame_rpm(bytes@, i),
        decreases NUM_FANS - fan,
    {
        let at: usize = FANS_AT + FAN_RECORD_LEN * fan;
        reading.duty[fan] = bytes[at];
        reading.rpm[fan] = normalize_rpm(u16_at(bytes, at + 1));
        fan += 1;
    }
    let mut sensor: usize = 0;
    while sensor < NUM_TEMP
        invariant
            bytes@.len() >= FRAME_LEN,
            sensor <= NUM_TEMP,
            forall|i: int|
                0 <= i < NUM_FANS ==> (#[trigger] reading.duty[i]) == frame_duty(bytes@, i),
            forall|i: int|
                0 <= i < NUM_FANS ==> (#[trigger] reading.rpm[i]) as int == frame_rpm(bytes@, i),
            forall|i: int|
                0 <= i < sensor ==> (#[trigger] reading.temp[i]) as int == frame_temp(bytes@, i),
        decreases NUM_TEMP - sensor,
    {
        let at: usize = TEMPS_AT + TEMP_RECORD_LEN * sensor;
        reading.temp[sensor] = u16_at(bytes, at);
        sensor += 1;
    }
    proof {
        lemma_reading_ignores_the_rest(bytes@);
        assert(reading@.temp =~= reading_of(bytes@).temp);
        assert(reading@.rpm =~= reading_of(bytes@).rpm);
        assert(reading@.duty =~= reading_of(bytes@).duty);
    }
    Ok(reading)
}

} // verus!
