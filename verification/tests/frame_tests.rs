use fanboy::frame::{
    decode_response, encode_query, normalize_rpm, DecodeError, FRAME_LEN, MSG_CMD_STATUS, MSG_SOF,
    NUM_FANS, NUM_TEMP, QUERY_LEN, RPM_UNKNOWN,
};
use fanboy::reading::SensorReading;

const SAMPLE: [u8; 18] = [
    0x42, 0x01, 0x32, 0xB8, 0x0B, 0x28, 0xE8, 0x03, 0x1E, 0xD0, 0x07, 0x00, 0xFF, 0xFF, 0x0A, 0x27,
    0x11, 0x27,
];

fn frame_with(fans: [(u8, u16); 4], temps: [u16; 2]) -> Vec<u8> {
    let mut frame = vec![0x42, 0x01];
    for (duty, rpm) in fans {
        frame.push(duty);
        frame.extend_from_slice(&rpm.to_le_bytes());
    }
    for t in temps {
        frame.extend_from_slice(&t.to_le_bytes());
    }
    frame
}

#[test]
fn query_is_marker_then_command() {
    assert_eq!(encode_query(), [0x42, 0x01]);
    assert_eq!(encode_query(), [MSG_SOF, MSG_CMD_STATUS]);
    assert_eq!(encode_query().len(), QUERY_LEN);
}

#[test]
fn query_is_the_same_every_time() {
    assert_eq!(encode_query(), encode_query());
}

#[test]
fn layout_constants() {
    assert_eq!(NUM_FANS, 4);
    assert_eq!(NUM_TEMP, 2);
    assert_eq!(FRAME_LEN, 18);
    assert_eq!(FRAME_LEN, 2 + 3 * NUM_FANS + 2 * NUM_TEMP);
    assert_eq!(RPM_UNKNOWN, 0xFFFF);
}

#[test]
fn sample_frame_decodes() {
    let reading = decode_response(&SAMPLE).unwrap();
    assert_eq!(reading.duty, [0x32, 0x28, 0x1E, 0x00]);
    assert_eq!(reading.rpm, [3000, 1000, 2000, 0]);
    assert_eq!(reading.temp[0], 9994);
    assert_eq!(reading.temp[0] as f32 / 100.0, 99.94);
    // The last two bytes, 11 27, spell 0x2711.
    assert_eq!(reading.temp[1], 0x2711);
    assert_eq!(reading.temp[1], 10001);
    assert_eq!(reading.temp[1] as f32 / 100.0, 100.01);
}

#[test]
fn temperature_of_ninety_nine_point_ninety_nine() {
    let mut frame = SAMPLE;
    frame[16] = 0x0F;
    frame[17] = 0x27;
    let reading = decode_response(&frame).unwrap();
    assert_eq!(reading.temp, [9994, 9999]);
    assert_eq!(reading.temp[1] as f32 / 100.0, 99.99);
}

#[test]
fn temperatures_are_hundredths() {
    for raw in [0u16, 1, 99, 100, 2550, 9994, 0xFFFF] {
        let reading = decode_response(&frame_with([(0, 0); 4], [raw, 0])).unwrap();
        assert_eq!(reading.temp[0], raw);
        assert_eq!(reading.temp[0] as f32 / 100.0, raw as f32 / 100.0);
    }
    let reading = decode_response(&frame_with([(0, 0); 4], [2550, 0xFFFF])).unwrap();
    assert_eq!(reading.temp[0] as f64 / 100.0, 25.5);
    assert_eq!(reading.temp[1] as f64 / 100.0, 655.35);
}

#[test]
fn fields_keep_the_order_of_the_frame() {
    let frame = frame_with(
        [(1, 0x0102), (2, 0x0304), (3, 0x0506), (4, 0x0708)],
        [0x090A, 0x0B0C],
    );
    assert_eq!(
        frame,
        vec![
            0x42, 0x01, 1, 0x02, 0x01, 2, 0x04, 0x03, 3, 0x06, 0x05, 4, 0x08, 0x07, 0x0A, 0x09,
            0x0C, 0x0B
        ]
    );
    let reading = decode_response(&frame).unwrap();
    assert_eq!(reading.duty, [1, 2, 3, 4]);
    assert_eq!(reading.rpm, [0x0102, 0x0304, 0x0506, 0x0708]);
    assert_eq!(reading.temp, [0x090A, 0x0B0C]);
}

#[test]
fn two_bytes_are_read_low_byte_first() {
    let mut frame = vec![0u8; 18];
    frame[0] = 0x42;
    frame[1] = 0x01;
    frame[3] = 0x34;
    frame[4] = 0x12;
    frame[14] = 0x01;
    frame[15] = 0x00;
    frame[16] = 0x00;
    frame[17] = 0x01;
    let reading = decode_response(&frame).unwrap();
    assert_eq!(reading.rpm[0], 0x1234);
    assert_eq!(reading.temp, [1, 256]);
}

#[test]
fn every_valid_frame_decodes() {
    for seed in 0u32..500 {
        let mut frame = vec![0x42u8, 0x01];
        let mut x = seed.wrapping_mul(2654435761).wrapping_add(12345);
        for _ in 2..18 {
            x = x.wrapping_mul(1664525).wrapping_add(1013904223);
            frame.push((x >> 24) as u8);
        }
        let reading = decode_response(&frame).unwrap();
        for fan in 0..4 {
            let at = 2 + 3 * fan;
            let raw = u16::from(frame[at + 1]) | u16::from(frame[at + 2]) << 8;
            assert_eq!(reading.duty[fan], frame[at]);
            assert_eq!(reading.rpm[fan], if raw == 0xFFFF { 0 } else { raw });
        }
        for sensor in 0..2 {
            let at = 14 + 2 * sensor;
            assert_eq!(
                reading.temp[sensor],
                u16::from(frame[at]) | u16::from(frame[at + 1]) << 8
            );
        }
    }
}

#[test]
fn missing_tachometer_signal_reads_zero() {
    let frame = frame_with([(10, 0xFFFF), (20, 0xFFFE), (30, 0), (40, 0xFFFF)], [0, 0]);
    let reading = decode_response(&frame).unwrap();
    assert_eq!(reading.rpm, [0, 0xFFFE, 0, 0]);
    assert_eq!(reading.duty, [10, 20, 30, 40]);
}

#[test]
fn normalize_rpm_changes_the_marker_only() {
    assert_eq!(normalize_rpm(0xFFFF), 0);
    assert_eq!(normalize_rpm(0), 0);
    assert_eq!(normalize_rpm(1), 1);
    assert_eq!(normalize_rpm(3000), 3000);
    assert_eq!(normalize_rpm(0xFFFE), 0xFFFE);
    assert_eq!(normalize_rpm(0x00FF), 0x00FF);
    assert_eq!(normalize_rpm(0xFF00), 0xFF00);
    for raw in 0..0xFFFFu16 {
        assert_eq!(normalize_rpm(raw), raw);
    }
}

#[test]
fn duty_takes_the_whole_byte() {
    let frame = frame_with([(0, 1), (100, 1), (200, 1), (255, 1)], [0, 0]);
    assert_eq!(decode_response(&frame).unwrap().duty, [0, 100, 200, 255]);
}

#[test]
fn empty_input_is_a_short_frame() {
    assert_eq!(decode_response(&[]), Err(DecodeError::ShortFrame));
}

#[test]
fn every_prefix_is_a_short_frame() {
    for len in 0..18 {
        assert_eq!(decode_response(&SAMPLE[..len]), Err(DecodeError::ShortFrame));
    }
}

#[test]
fn short_frame_comes_before_bad_header() {
    assert_eq!(decode_response(&[0x00]), Err(DecodeError::ShortFrame));
    assert_eq!(decode_response(&[0x00, 0x00]), Err(DecodeError::ShortFrame));
    assert_eq!(decode_response(&[0xFF; 17]), Err(DecodeError::ShortFrame));
}

#[test]
fn wrong_marker_is_a_bad_header() {
    let mut frame = SAMPLE;
    frame[0] = 0x43;
    assert_eq!(decode_response(&frame), Err(DecodeError::BadHeader));
    frame[0] = 0x00;
    assert_eq!(decode_response(&frame), Err(DecodeError::BadHeader));
}

#[test]
fn wrong_command_is_a_bad_header() {
    let mut frame = SAMPLE;
    frame[1] = 0x02;
    assert_eq!(decode_response(&frame), Err(DecodeError::BadHeader));
    frame[1] = 0x42;
    assert_eq!(decode_response(&frame), Err(DecodeError::BadHeader));
}

#[test]
fn swapped_header_is_a_bad_header() {
    let mut frame = SAMPLE;
    frame[0] = 0x01;
    frame[1] = 0x42;
    assert_eq!(decode_response(&frame), Err(DecodeError::BadHeader));
}

#[test]
fn bad_header_whatever_follows() {
    for fill in [0x00u8, 0x42, 0x01, 0xFF] {
        let mut frame = vec![fill; 18];
        frame[0] = 0x41;
        frame[1] = 0x01;
        assert_eq!(decode_response(&frame), Err(DecodeError::BadHeader));
        frame[0] = 0x42;
        frame[1] = 0x00;
        assert_eq!(decode_response(&frame), Err(DecodeError::BadHeader));
    }
}

#[test]
fn bytes_beyond_the_frame_are_ignored() {
    let mut long = SAMPLE.to_vec();
    long.extend_from_slice(&[0xAA, 0xBB, 0xCC]);
    assert_eq!(decode_response(&long), decode_response(&SAMPLE));
    assert!(decode_response(&long).is_ok());
}

#[test]
fn blank_reading_is_all_zero() {
    let blank = SensorReading::blank();
    assert_eq!(blank.temp, [0, 0]);
    assert_eq!(blank.rpm, [0, 0, 0, 0]);
    assert_eq!(blank.duty, [0, 0, 0, 0]);
}

#[test]
fn all_zero_frame_body_decodes_to_blank() {
    let mut frame = vec![0u8; 18];
    frame[0] = 0x42;
    frame[1] = 0x01;
    assert_eq!(decode_response(&frame), Ok(SensorReading::blank()));
}
