use calculator_program::error::ProcessError;
use calculator_program::state::ComputeResult;

fn record(result: Option<i32>) -> ComputeResult {
    ComputeResult { result }
}

#[test]
fn record_without_result_is_one_zero_byte() {
    assert_eq!(record(None).to_vec(), vec![0]);
}

#[test]
fn record_with_result_is_flag_and_little_endian_value() {
    assert_eq!(record(Some(0)).to_vec(), vec![1, 0, 0, 0, 0]);
    assert_eq!(record(Some(1)).to_vec(), vec![1, 1, 0, 0, 0]);
    assert_eq!(record(Some(26)).to_vec(), vec![1, 26, 0, 0, 0]);
    assert_eq!(record(Some(256)).to_vec(), vec![1, 0, 1, 0, 0]);
    assert_eq!(
        record(Some(0x1234_5678)).to_vec(),
        vec![1, 0x78, 0x56, 0x34, 0x12]
    );
    assert_eq!(record(Some(-1)).to_vec(), vec![1, 0xff, 0xff, 0xff, 0xff]);
    assert_eq!(record(Some(-2)).to_vec(), vec![1, 0xfe, 0xff, 0xff, 0xff]);
    assert_eq!(
        record(Some(i32::MAX)).to_vec(),
        vec![1, 0xff, 0xff, 0xff, 0x7f]
    );
    assert_eq!(
        record(Some(i32::MIN)).to_vec(),
        vec![1, 0x00, 0x00, 0x00, 0x80]
    );
}

#[test]
fn record_never_takes_more_than_five_bytes() {
    for result in [None, Some(0), Some(-1), Some(i32::MIN), Some(i32::MAX)] {
        let len = record(result).to_vec().len();
        assert!(1 <= len && len <= 5);
    }
}

#[test]
fn record_bytes_are_those_of_borsh() {
    for result in [
        None,
        Some(0),
        Some(7),
        Some(-7),
        Some(i32::MIN),
        Some(i32::MAX),
    ] {
        assert_eq!(record(result).to_vec(), borsh::to_vec(&result).unwrap());
    }
}

#[test]
fn record_is_read_from_its_bytes() {
    assert_eq!(ComputeResult::deserialize(&[0]), Ok(record(None)));
    assert_eq!(
        ComputeResult::deserialize(&[1, 0, 0, 0, 0]),
        Ok(record(Some(0)))
    );
    assert_eq!(
        ComputeResult::deserialize(&[1, 0x78, 0x56, 0x34, 0x12]),
        Ok(record(Some(0x1234_5678)))
    );
    assert_eq!(
        ComputeResult::deserialize(&[1, 0xff, 0xff, 0xff, 0xff]),
        Ok(record(Some(-1)))
    );
    assert_eq!(
        ComputeResult::deserialize(&[1, 0, 0, 0, 0x80]),
        Ok(record(Some(i32::MIN)))
    );
}

#[test]
fn record_is_read_from_the_start_of_longer_bytes() {
    assert_eq!(ComputeResult::deserialize(&[0, 0]), Ok(record(None)));
    assert_eq!(
        ComputeResult::deserialize(&[0, 26, 0, 0, 0]),
        Ok(record(None))
    );
    assert_eq!(
        ComputeResult::deserialize(&[0, 0xff, 0xff, 0xff, 0xff, 0xff]),
        Ok(record(None))
    );
    assert_eq!(
        ComputeResult::deserialize(&[1, 26, 0, 0, 0, 0xff]),
        Ok(record(Some(26)))
    );
    assert_eq!(
        ComputeResult::deserialize(&[1, 0, 0, 0, 0, 1, 2, 3, 4]),
        Ok(record(Some(0)))
    );
}

#[test]
fn record_is_not_read_from_other_bytes() {
    let corrupt: [&[u8]; 10] = [
        &[],
        &[2],
        &[255],
        &[1],
        &[1, 0],
        &[1, 0, 0],
        &[1, 0, 0, 0],
        &[2, 0, 0, 0, 0],
        &[255, 0, 0, 0, 0, 0],
        &[0x80, 1, 0, 0, 0],
    ];
    for bytes in corrupt.iter() {
        assert_eq!(
            ComputeResult::deserialize(bytes),
            Err(ProcessError::CorruptRecord),
            "{:?}",
            bytes
        );
    }
}

#[test]
fn record_written_into_a_slot_is_read_back() {
    for result in [None, Some(0), Some(26), Some(-1), Some(i32::MIN), Some(i32::MAX)] {
        for len in 5..9 {
            for fill in [0u8, 1, 2, 0xff] {
                let mut data = vec![fill; len];
                assert_eq!(record(result).serialize(&mut data), Ok(()));
                assert_eq!(data.len(), len);
                assert_eq!(ComputeResult::deserialize(&data), Ok(record(result)));
            }
        }
    }
}

#[test]
fn record_round_trip() {
    let mut values = vec![
        0,
        1,
        -1,
        127,
        128,
        255,
        256,
        65535,
        65536,
        0x00ff_ffff,
        0x0100_0000,
        i32::MAX,
        i32::MIN,
        i32::MAX - 1,
        i32::MIN + 1,
    ];
    let mut x: i32 = 1;
    for _ in 0..2000 {
        x = x.wrapping_mul(1_103_515_245).wrapping_add(12345);
        values.push(x);
    }
    assert_eq!(
        ComputeResult::deserialize(&record(None).to_vec()),
        Ok(record(None))
    );
    for v in values {
        let bytes = record(Some(v)).to_vec();
        assert_eq!(bytes.len(), 5);
        assert_eq!(ComputeResult::deserialize(&bytes), Ok(record(Some(v))));
    }
}

#[test]
fn bytes_round_trip() {
    let all: [&[u8]; 4] = [
        &[0],
        &[1, 0, 0, 0, 0],
        &[1, 1, 2, 3, 4],
        &[1, 0xff, 0xfe, 0xfd, 0xfc],
    ];
    for bytes in all.iter() {
        let read = ComputeResult::deserialize(bytes).unwrap();
        assert_eq!(read.to_vec(), bytes.to_vec());
    }
}

#[test]
fn serialize_overwrites_a_slot_of_record_size() {
    let mut data = vec![9, 9, 9, 9, 9];
    assert_eq!(record(Some(26)).serialize(&mut data), Ok(()));
    assert_eq!(data, vec![1, 26, 0, 0, 0]);
}

#[test]
fn serialize_keeps_the_bytes_after_the_record() {
    let mut data = vec![9, 9, 9, 9, 9, 7, 8];
    assert_eq!(record(Some(-1)).serialize(&mut data), Ok(()));
    assert_eq!(data, vec![1, 0xff, 0xff, 0xff, 0xff, 7, 8]);

    let mut data = vec![1, 26, 0, 0, 0];
    assert_eq!(record(None).serialize(&mut data), Ok(()));
    assert_eq!(data, vec![0, 26, 0, 0, 0]);
}

#[test]
fn serialize_into_a_short_slot_fails_and_writes_nothing() {
    for len in 0..5 {
        let mut data = vec![9u8; len];
        assert_eq!(
            record(Some(26)).serialize(&mut data),
            Err(ProcessError::SlotTooSmall)
        );
        assert_eq!(data, vec![9u8; len]);
    }
    let mut data: Vec<u8> = Vec::new();
    assert_eq!(
        record(None).serialize(&mut data),
        Err(ProcessError::SlotTooSmall)
    );
    assert!(data.is_empty());
}

#[test]
fn serialize_without_result_needs_one_byte() {
    let mut data = vec![9];
    assert_eq!(record(None).serialize(&mut data), Ok(()));
    assert_eq!(data, vec![0]);
}
