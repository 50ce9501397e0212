use sendstream::read_tlvs;
use sendstream::Command;
use sendstream::OffsetedReader;
use sendstream::TLVValue;
use sendstream::TLVs;
use sendstream::TLV;

const DATA: &[u8] = &[
    0x05, 0x00, // type: 5 = "Mode"
    0x08, 0x00, // length: 8 (u64)
    0x01, 0x02, 0x03, 0x04, 0x05, 0x06, 0x07, 0x08, // DATA_MODE
];
const DATA_MODE: u64 = 0x08_07_06_05_04_03_02_01;
const DATA_INVALID: &[u8] = &[
    0x05, 0x00, // type: 5 = "Mode"
    0x08, 0x00, // length: 8 (u64)
          // No data (truncated)
];
const DATA_MIXED: &[u8] = &[
    0x05, 0x00, // type: 5 = "Mode"
    0x08, 0x00, // length: 8 (u64)
    0x01, 0x02, 0x03, 0x04, 0x05, 0x06, 0x07, 0x08, // DATA_MODE
    0x07, 0x00, // type: 7 = "Gid"
    0x02, 0x00, // length: 2 (must be 8)
    0x00, 0x00, // Some data
];

const ONE: [u8; 8] = [0x01, 0, 0, 0, 0, 0, 0, 0];
const TWO: [u8; 8] = [0x02, 0, 0, 0, 0, 0, 0, 0];

const GID: u16 = 7;
const MODE: u16 = 5;

#[test]
fn tlv_value_into_none() {
    let val: TLVValue<()> = TLVValue::WNone(TLVs::Mode);
    let res: Option<()> = val.into_option();
    assert!(res.is_none())
}

#[test]
fn tlv_value_into_some() {
    let val = TLVValue::WSome(123);
    let res: Option<u8> = val.into_option();
    assert!(res.is_some());
    assert_eq!(res.unwrap(), 123);
}

#[test]
fn default_none() {
    let tlv = TLV::new();

    let t: Option<u64> = tlv.Mode.into_option();
    assert!(t.is_none());

    let t: Option<u64> = tlv.Gid.into_option();
    assert!(t.is_none());
}

#[test]
fn fill_tlv() {
    let mut tlv = TLV::new();

    let res = tlv.add(MODE, &mut OffsetedReader::new(&ONE));
    assert!(res.is_ok());

    let res = tlv.add(GID, &mut OffsetedReader::new(&TWO));
    assert!(res.is_ok());

    assert_eq!(tlv.Mode.into_option().unwrap_or(0), 1);
    assert_eq!(tlv.Gid.into_option().unwrap_or(0), 2);
}

#[test]
fn get_auto() {
    let val: TLVValue<u64> = TLVValue::WNone(TLVs::Mode);
    let cmd = Command::Unknown;

    let res = cmd.tlv_get_auto(val);
    assert!(res.is_ok());
    assert_eq!(res.unwrap(), u64::MAX);
}

#[test]
fn get_def() {
    let val: TLVValue<u64> = TLVValue::WNone(TLVs::Mode);
    let cmd = Command::Unknown;

    let res = cmd.tlv_get_def(val, 123);
    assert!(res.is_ok());
    assert_eq!(res.unwrap(), 123);
}

#[test]
fn get_some() {
    let val: TLVValue<u64> = TLVValue::WSome(123);
    let cmd = Command::Unknown;

    let res = cmd.tlv_get(val);
    assert!(res.is_ok());
    assert_eq!(res.unwrap(), 123);
}

#[test]
fn get_none() {
    let val: TLVValue<u64> = TLVValue::WNone(TLVs::Mode);
    let cmd = Command::Unknown;

    let res = cmd.tlv_get(val);
    assert!(res.is_err());
}

#[test]
fn read_data() {
    let data = DATA.to_vec();
    let mut reader = OffsetedReader::new(&data);

    let tlvs = read_tlvs(&mut reader);

    assert!(tlvs.is_ok());
    let tlvs = tlvs.unwrap();

    let cmd = Command::Unknown;
    let res = cmd.tlv_get(tlvs.Mode);

    assert!(res.is_ok());
    assert_eq!(res.unwrap(), DATA_MODE)
}

#[test]
fn read_error() {
    let data = DATA_INVALID.to_vec();
    let mut reader = OffsetedReader::new(&data);

    let tlvs = read_tlvs(&mut reader);

    assert!(tlvs.is_ok());
    let tlvs = tlvs.unwrap();

    let cmd = Command::Unknown;
    let res = cmd.tlv_get(tlvs.Mode);

    assert!(res.is_err());
}

#[test]
fn tlv_read_mixed() {
    let data = DATA_MIXED.to_vec();
    let mut reader = OffsetedReader::new(&data);

    let tlvs = read_tlvs(&mut reader);

    assert!(tlvs.is_ok());
    let tlvs = tlvs.unwrap();

    let cmd = Command::Unknown;
    let res = cmd.tlv_get(tlvs.Mode);
    assert!(res.is_ok());
    assert_eq!(res.unwrap(), DATA_MODE);

    let res = cmd.tlv_get(tlvs.Gid);
    assert!(res.is_err());
}

#[test]
fn dump() {
    let datasets: &[&[u8]] = &[
        &[
            0x05, 0x00, 1, 0x00, // 1 byte
            0,
        ],
        &[
            0x05, 0x00, 2, 0x00, // 2 byte
            0, 0,
        ],
        &[
            0x05, 0x00, 4, 0x00, // 4 byte
            0, 0, 0, 0,
        ],
        &[
            0x05, 0x00, 8, 0x00, // 8 byte
            0, 0, 0, 0, 0, 0, 0, 0,
        ],
        &[
            0x09, 0x00, 12, 0x00, // 12 byte
            0, 0, 0, 0, 0, 0, 0, 0, 0, 0, 0, 0,
        ],
        &[
            0x01, 0x00, 16, 0x00, // 16 byte
            0, 0, 0, 0, 0, 0, 0, 0, 0, 0, 0, 0, 0, 0, 0, 0,
        ],
    ];
    for data in datasets {
        let mut reader = OffsetedReader::new(data);

        let tlvs = read_tlvs(&mut reader);

        assert!(tlvs.is_ok());
    }
}

#[test]
fn path_attribute_decodes_to_mixed_string() {
    // type 15 = Path, carrying text.
    let data: &[u8] = &[0x0f, 0x00, 0x03, 0x00, 0x61, 0x2f, 0x62];
    let mut reader = OffsetedReader::new(data);
    let tlvs = read_tlvs(&mut reader).unwrap();
    let cmd = Command::Unknown;
    let p = cmd.tlv_get(tlvs.Path).unwrap();
    assert_eq!(p.to_string(), "a/b");
}

#[test]
fn unknown_attribute_skipped() {
    // type 40 is not in the table; the Mode record after it still lands.
    let data: &[u8] = &[
        40, 0x00, 0x02, 0x00, 0xaa, 0xbb, // unknown, skipped
        0x05, 0x00, 0x08, 0x00, 9, 0, 0, 0, 0, 0, 0, 0, // Mode = 9
    ];
    let mut reader = OffsetedReader::new(data);
    let tlvs = read_tlvs(&mut reader).unwrap();
    let cmd = Command::Unknown;
    assert_eq!(cmd.tlv_get(tlvs.Mode).unwrap(), 9);
}
