use sendstream::hex;
use sendstream::FileType;
use sendstream::MixedString;
use sendstream::OffsetedReader;
use sendstream::Timestamp;

#[test]
fn hex_small() {
    let data = &[0, 1, 2];
    let hexed = hex(data);
    assert_eq!(hexed, "00 01 02");
}

#[test]
fn hex_medium() {
    let data = &[0, 1, 2, 3, 4, 5, 6, 7, 8, 9, 10, 11, 12, 13];
    let hexed = hex(data);
    assert_eq!(hexed, "000102030405060708090a0b0c0d");
}

#[test]
fn hex_large() {
    let data = &[0, 1, 2, 3, 4, 5, 6, 7, 8, 9, 10, 11, 12, 13, 14, 15, 16];
    let hexed = hex(data);
    assert_eq!(hexed, "00 01 02 03 ... 0d 0e 0f 10");
}

#[test]
fn hex_empty() {
    let data: &[u8] = &[];
    assert_eq!(hex(data), "");
}

#[test]
fn read_timespec() {
    const DAYS: u64 = 9012;
    const SECONDS: u64 = 1234;
    const NANOS: u32 = 5678;

    const SECS: u64 = (DAYS * 24 * 3600) + SECONDS;
    const EXPECTED: i64 = (SECS * 1_000_000_000 + NANOS as u64) as i64;

    let mut data = Vec::new();
    data.extend_from_slice(&SECS.to_le_bytes());
    data.extend_from_slice(&NANOS.to_le_bytes());

    let mut reader = OffsetedReader::new(&data);
    let ts = sendstream::read_timespec(&mut reader);
    let ts = ts.unwrap();

    assert_eq!(ts.timestamp_nanos(), EXPECTED);
}

#[test]
fn timespec_too_much_seconds() {
    const SECS: u64 = u64::MAX;
    const NANOS: u32 = 5678;

    let mut data = Vec::new();
    data.extend_from_slice(&SECS.to_le_bytes());
    data.extend_from_slice(&NANOS.to_le_bytes());

    let mut reader = OffsetedReader::new(&data);
    let ts = sendstream::read_timespec(&mut reader);
    assert!(ts.is_err())
}

#[test]
fn timespec_invalid_nanos() {
    const SECS: u64 = 10;
    const NANOS: u32 = 2_000_000_000;

    let mut data = Vec::new();
    data.extend_from_slice(&SECS.to_le_bytes());
    data.extend_from_slice(&NANOS.to_le_bytes());

    let mut reader = OffsetedReader::new(&data);
    let ts = sendstream::read_timespec(&mut reader);
    assert!(ts.is_err())
}

#[test]
fn timespec_invalid_secs() {
    const SECS: u64 = i64::MAX as u64;
    const NANOS: u32 = 0;

    let mut data = Vec::new();
    data.extend_from_slice(&SECS.to_le_bytes());
    data.extend_from_slice(&NANOS.to_le_bytes());

    let mut reader = OffsetedReader::new(&data);
    let ts = sendstream::read_timespec(&mut reader);
    assert!(ts.is_err())
}

#[test]
fn read_bytes() {
    let data: [u8; 3] = [1, 2, 3];

    let mut reader = OffsetedReader::new(&data);
    let bytes = sendstream::read_bytes(&mut reader);

    assert_eq!(bytes, data);
}

#[test]
fn read_bytes_empty() {
    let data: [u8; 0] = [];

    let mut reader = OffsetedReader::new(&data);
    let bytes = sendstream::read_bytes(&mut reader);

    assert_eq!(bytes, data);
}

#[test]
fn utils_read_mixed() {
    let expected = MixedString::from_string("Hello!".to_string());
    let data = expected.to_bytes();

    let mut reader = OffsetedReader::new(&data);
    let s = sendstream::read_mixed(&mut reader);

    assert_eq!(s, expected);
}

#[test]
fn reader_offsets() {
    let data: [u8; 6] = [9, 8, 7, 6, 5, 4];
    let mut reader = OffsetedReader::new(&data);
    assert_eq!(reader.get_offset(), 0);
    let first = reader.read_exact(2).unwrap();
    assert_eq!(first, vec![9, 8]);
    assert_eq!(reader.get_offset(), 2);

    let mut sub = reader.take(3);
    assert_eq!(sub.get_offset(), 2);
    let inner = sendstream::read_bytes(&mut sub);
    assert_eq!(inner, vec![7, 6, 5]);
    assert_eq!(sub.get_offset(), 5);

    // the parent is already past the whole window
    assert_eq!(reader.get_offset(), 5);
    assert_eq!(reader.remaining_len(), 1);
}

#[test]
fn reader_take_is_bounded() {
    let data: [u8; 4] = [1, 2, 3, 4];
    let mut reader = OffsetedReader::new(&data);
    let mut sub = reader.take(100);
    assert_eq!(sendstream::read_bytes(&mut sub), vec![1, 2, 3, 4]);
    assert_eq!(reader.remaining_len(), 0);
}

#[test]
fn reader_after_biases_offset() {
    let data: [u8; 2] = [1, 2];
    let reader = OffsetedReader::new(&data);
    assert_eq!(reader.get_offset(), 0);
    let biased = OffsetedReader::after(40, &data);
    assert_eq!(biased.get_offset(), 40);
}

#[test]
fn sentinel_matches_calendar() {
    let date = chrono::NaiveDate::from_ymd_opt(99999, 12, 31).unwrap();
    let time = chrono::NaiveTime::from_hms_opt(23, 58, 59).unwrap();
    let expected = chrono::NaiveDateTime::new(date, time).and_utc().timestamp();
    assert_eq!(Timestamp::sentinel().secs, expected);
    assert_eq!(Timestamp::sentinel().nanos, 0);
}

#[test]
fn file_type_numbers() {
    assert_eq!(FileType::File.to_num(), 0);
    assert_eq!(FileType::Directory.to_num(), 1);
    assert_eq!(FileType::Symlink.to_num(), 2);
    assert_eq!(FileType::BlockDevice.to_num(), 3);
    assert_eq!(FileType::CharDevice.to_num(), 4);
    assert_eq!(FileType::Fifo.to_num(), 5);
    assert_eq!(FileType::Socket.to_num(), 6);
    assert_eq!(FileType::Unknown.to_num(), 7);
}
