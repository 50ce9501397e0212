use sendstream::FileType;
use sendstream::MixedString;
use sendstream::ParseError;
use sendstream::Parser;
use sendstream::Settings;
use sendstream::SubvolumeInfo;
use sendstream::SubvolumeSource;

fn header() -> Vec<u8> {
    let mut out = b"btrfs-stream\0".to_vec();
    out.extend_from_slice(&1u32.to_le_bytes());
    out
}

fn tlv(id: u16, payload: &[u8]) -> Vec<u8> {
    let mut out = Vec::new();
    out.extend_from_slice(&id.to_le_bytes());
    out.extend_from_slice(&(payload.len() as u16).to_le_bytes());
    out.extend_from_slice(payload);
    out
}

fn frame(op: u16, body: &[u8]) -> Vec<u8> {
    let mut out = Vec::new();
    out.extend_from_slice(&(body.len() as u32).to_le_bytes());
    out.extend_from_slice(&op.to_le_bytes());
    out.extend_from_slice(&0u32.to_le_bytes());
    out.extend_from_slice(body);
    out
}

fn subvolume_frame(uuid_bytes: &[u8]) -> Vec<u8> {
    frame(1, &tlv(1, uuid_bytes))
}

fn end_frame() -> Vec<u8> {
    frame(21, &[])
}

fn path_tlv(id: u16, text: &str) -> Vec<u8> {
    tlv(id, text.as_bytes())
}

fn parse_bypassing(data: &[u8]) -> Result<Vec<SubvolumeInfo>, ParseError> {
    Parser::new(Settings { bypass_errors: true }).parse(data)
}

fn path(text: &str) -> MixedString {
    MixedString::from_string(text.to_string())
}

#[test]
fn empty_valid_stream() {
    let data = header();
    let res = parse_bypassing(&data).unwrap();
    assert!(res.is_empty());
}

#[test]
fn minimal_subvolume() {
    let uuid: Vec<u8> = (0x00u8..0x10u8).collect();
    let mut data = header();
    data.extend_from_slice(&subvolume_frame(&uuid));
    data.extend_from_slice(&end_frame());

    let res = parse_bypassing(&data).unwrap();
    assert_eq!(res.len(), 1);
    let subvol = &res[0];
    match &subvol.source {
        SubvolumeSource::Btrfs { uuid } => {
            assert_eq!(*uuid, 0x0f0e0d0c0b0a09080706050403020100u128);
        },
        SubvolumeSource::Find { .. } => panic!("wrong source kind"),
    }
    assert!(subvol.overwrite);
    assert_eq!(subvol.files.len(), 0);
}

#[test]
fn mkdir_then_chmod() {
    let mut data = header();
    data.extend_from_slice(&subvolume_frame(&[0u8; 16]));
    data.extend_from_slice(&frame(4, &path_tlv(15, "a/b")));
    let mut chmod_body = path_tlv(15, "a/b");
    chmod_body.extend_from_slice(&tlv(5, &0o755u64.to_le_bytes()));
    data.extend_from_slice(&frame(18, &chmod_body));
    data.extend_from_slice(&end_frame());

    let res = parse_bypassing(&data).unwrap();
    assert_eq!(res.len(), 1);
    let subvol = &res[0];
    assert_eq!(subvol.files.len(), 1);
    let entry = subvol.files.get(&path("a/b")).unwrap();
    let info = entry.info().unwrap();
    assert_eq!(info.permissions, 0o755);
    assert_eq!(info.filetype, FileType::Directory);

    // the whole inventory can be walked position by position
    let pair = subvol.files.entry_at(0);
    assert_eq!(pair.0, path("a/b"));
    assert!(!pair.1.is_tombstone());
}

#[test]
fn rename_moves_entry() {
    let mut data = header();
    data.extend_from_slice(&subvolume_frame(&[0u8; 16]));
    data.extend_from_slice(&frame(4, &path_tlv(15, "x")));
    let mut rename_body = path_tlv(15, "x");
    rename_body.extend_from_slice(&path_tlv(16, "y"));
    data.extend_from_slice(&frame(9, &rename_body));
    data.extend_from_slice(&end_frame());

    let res = parse_bypassing(&data).unwrap();
    assert_eq!(res.len(), 1);
    let subvol = &res[0];
    assert!(subvol.files.get(&path("y")).is_some());
    assert!(subvol.files.get(&path("x")).is_none());
}

#[test]
fn rename_chain_ends_at_last_name() {
    let mut data = header();
    data.extend_from_slice(&subvolume_frame(&[0u8; 16]));
    data.extend_from_slice(&frame(4, &path_tlv(15, "a")));
    let mut first = path_tlv(15, "a");
    first.extend_from_slice(&path_tlv(16, "b"));
    data.extend_from_slice(&frame(9, &first));
    let mut second = path_tlv(15, "b");
    second.extend_from_slice(&path_tlv(16, "c"));
    data.extend_from_slice(&frame(9, &second));
    data.extend_from_slice(&end_frame());

    let res = parse_bypassing(&data).unwrap();
    let subvol = &res[0];
    assert!(subvol.files.get(&path("c")).is_some());
    assert!(subvol.files.get(&path("a")).is_none());
    assert!(subvol.files.get(&path("b")).is_none());
}

#[test]
fn unlink_in_snapshot_removes_added_path() {
    let mut data = header();
    data.extend_from_slice(&frame(2, &tlv(1, &[0u8; 16])));
    data.extend_from_slice(&frame(4, &path_tlv(15, "p")));
    data.extend_from_slice(&frame(11, &path_tlv(15, "p")));
    data.extend_from_slice(&end_frame());

    let res = parse_bypassing(&data).unwrap();
    assert_eq!(res.len(), 1);
    let subvol = &res[0];
    assert!(!subvol.overwrite);
    assert!(subvol.files.get(&path("p")).is_none());
    assert_eq!(subvol.files.len(), 0);
}

#[test]
fn malformed_magic() {
    let mut data = b"btrfs-streaX\0".to_vec();
    data.extend_from_slice(&1u32.to_le_bytes());
    data.extend_from_slice(&subvolume_frame(&[0u8; 16]));
    data.extend_from_slice(&end_frame());

    let res = parse_bypassing(&data);
    assert!(matches!(res, Err(ParseError::InvalidData(_))));
}

#[test]
fn wrong_version() {
    let mut data = b"btrfs-stream\0".to_vec();
    data.extend_from_slice(&2u32.to_le_bytes());
    data.extend_from_slice(&subvolume_frame(&[0u8; 16]));
    data.extend_from_slice(&end_frame());

    let res = parse_bypassing(&data);
    assert!(matches!(res, Err(ParseError::InvalidData(_))));
}

#[test]
fn truncated_header() {
    let res = parse_bypassing(b"btrfs");
    assert!(matches!(res, Err(ParseError::UnexpectedEof)));
}

#[test]
fn clean_stop_at_frame_boundary() {
    let mut data = header();
    data.extend_from_slice(&subvolume_frame(&[0u8; 16]));
    data.extend_from_slice(&frame(4, &path_tlv(15, "d")));
    data.extend_from_slice(&end_frame());
    // the stream ends exactly after the last frame: results, no error
    let res = parse_bypassing(&data).unwrap();
    assert_eq!(res.len(), 1);
}

#[test]
fn truncated_mid_record_keeps_finished_subvolumes() {
    let mut data = header();
    data.extend_from_slice(&subvolume_frame(&[1u8; 16]));
    data.extend_from_slice(&end_frame());
    data.extend_from_slice(&subvolume_frame(&[2u8; 16]));
    // a frame that promises a 20-byte body but carries only 3 bytes,
    // cutting the stream inside an attribute header
    data.extend_from_slice(&20u32.to_le_bytes());
    data.extend_from_slice(&4u16.to_le_bytes());
    data.extend_from_slice(&0u32.to_le_bytes());
    data.extend_from_slice(&[0x0f, 0x00, 0x03]);

    let res = parse_bypassing(&data).unwrap();
    // the finished subvolume is returned; the open one is discarded
    assert_eq!(res.len(), 1);
    match &res[0].source {
        SubvolumeSource::Btrfs { uuid } => assert_eq!(*uuid, u128::from_le_bytes([1u8; 16])),
        SubvolumeSource::Find { .. } => panic!("wrong source kind"),
    }
}

#[test]
fn utimes_uses_sentinel_for_omitted_fields() {
    let mut data = header();
    data.extend_from_slice(&subvolume_frame(&[0u8; 16]));
    data.extend_from_slice(&frame(4, &path_tlv(15, "f")));
    // Utimes carrying only Atime (type 11); Ctime and Mtime omitted
    let mut body = path_tlv(15, "f");
    let mut when = Vec::new();
    when.extend_from_slice(&1000u64.to_le_bytes());
    when.extend_from_slice(&42u32.to_le_bytes());
    body.extend_from_slice(&tlv(11, &when));
    data.extend_from_slice(&frame(20, &body));
    data.extend_from_slice(&end_frame());

    let res = parse_bypassing(&data).unwrap();
    let info_entry = res[0].files.get(&path("f")).unwrap();
    let info = info_entry.info().unwrap();
    assert_eq!(info.accessed.secs, 1000);
    assert_eq!(info.accessed.nanos, 42);
    assert_eq!(info.created, sendstream::Timestamp::sentinel());
    assert_eq!(info.modified, sendstream::Timestamp::sentinel());
}

#[test]
fn bypass_skips_failed_command() {
    let mut data = header();
    // a MkDir before any subvolume is rejected
    data.extend_from_slice(&frame(4, &path_tlv(15, "q")));
    data.extend_from_slice(&subvolume_frame(&[0u8; 16]));
    data.extend_from_slice(&end_frame());

    let res = parse_bypassing(&data).unwrap();
    assert_eq!(res.len(), 1);
}

#[test]
fn without_bypass_first_error_stops() {
    let mut data = header();
    data.extend_from_slice(&frame(4, &path_tlv(15, "q")));
    data.extend_from_slice(&subvolume_frame(&[0u8; 16]));
    data.extend_from_slice(&end_frame());

    let res = Parser::new(Settings { bypass_errors: false }).parse(&data).unwrap();
    assert!(res.is_empty());
}

#[test]
fn link_copies_entry_to_new_name() {
    let mut data = header();
    data.extend_from_slice(&subvolume_frame(&[0u8; 16]));
    data.extend_from_slice(&frame(4, &path_tlv(15, "orig")));
    let mut body = path_tlv(15, "orig");
    body.extend_from_slice(&path_tlv(17, "alias"));
    data.extend_from_slice(&frame(10, &body));
    data.extend_from_slice(&end_frame());

    let res = parse_bypassing(&data).unwrap();
    let subvol = &res[0];
    let copied = subvol.files.get(&path("alias")).unwrap().info().unwrap();
    assert_eq!(copied.filename, path("alias"));
    assert!(subvol.files.get(&path("orig")).is_some());
}

#[test]
fn end_without_subvolume_is_skipped() {
    let mut data = header();
    data.extend_from_slice(&end_frame());
    data.extend_from_slice(&subvolume_frame(&[0u8; 16]));
    data.extend_from_slice(&end_frame());

    let res = parse_bypassing(&data).unwrap();
    assert_eq!(res.len(), 1);
}

#[test]
fn default_settings_do_not_bypass() {
    let settings: Settings = Default::default();
    assert!(!settings.bypass_errors);
}

#[test]
fn chown_sets_owner_and_group() {
    let mut data = header();
    data.extend_from_slice(&subvolume_frame(&[0u8; 16]));
    data.extend_from_slice(&frame(4, &path_tlv(15, "o")));
    let mut body = path_tlv(15, "o");
    body.extend_from_slice(&tlv(6, &7u64.to_le_bytes()));
    body.extend_from_slice(&tlv(7, &9u64.to_le_bytes()));
    data.extend_from_slice(&frame(19, &body));
    data.extend_from_slice(&end_frame());

    let res = parse_bypassing(&data).unwrap();
    let info_entry = res[0].files.get(&path("o")).unwrap();
    let info = info_entry.info().unwrap();
    assert_eq!(info.user_id, 7);
    assert_eq!(info.group_id, 9);
}
