use sendstream::FileInfo;
use sendstream::FileMap;
use sendstream::FileType;
use sendstream::MixedString;
use sendstream::Mutation;
use sendstream::SubvolumeInfo;
use sendstream::SubvolumeSource;

fn get_subvol(overwrite: bool) -> SubvolumeInfo {
    SubvolumeInfo {
        source: SubvolumeSource::Btrfs { uuid: 0 },
        overwrite,
        files: FileMap::new(),
    }
}

fn path(text: &str) -> MixedString {
    MixedString::from_string(text.to_string())
}

fn validate(info: &FileInfo, p: &MixedString) {
    assert_eq!(&info.filename, p);
    assert_eq!(info.permissions, 123);
    assert_eq!(info.filetype, FileType::Unknown);
}

#[test]
fn add() {
    let mut info = get_subvol(true);
    let p = path("a/b/c");
    info.add_file(p.clone(), FileType::Unknown, 123).unwrap();

    let v = info.files.get(&p).unwrap();
    let v = v.info().unwrap();
    validate(v, &p);
}

#[test]
fn pop() {
    let mut info = get_subvol(true);
    let p = path("a/b/c");
    info.add_file(p.clone(), FileType::Unknown, 123).unwrap();

    let popped = info.pop_file(&p).unwrap();
    let popped = popped.info().unwrap();

    validate(popped, &p);
}

#[test]
fn pop_unexisting() {
    let mut info = get_subvol(false);
    let p = path("a/b/c");

    let res = info.pop_file(&p);
    assert!(res.is_err())
}

#[test]
fn get() {
    let mut info = get_subvol(true);
    let p = path("a/b/c");
    info.add_file(p.clone(), FileType::Unknown, 123).unwrap();

    let got = info.get_file(&p).unwrap();
    let got = got.info().unwrap();

    validate(got, &p);
}

#[test]
fn get_unexisting() {
    let mut info = get_subvol(false);
    let p = path("a/b/c");

    let res = info.get_file(&p);
    assert!(res.is_err())
}

#[test]
fn copy() {
    let mut info = get_subvol(true);
    let p = path("a/b/c");
    info.add_file(p.clone(), FileType::Unknown, 123).unwrap();

    let new_path = path("d/e/f");
    info.copy_file(&p, new_path.clone()).unwrap();

    let new = info.files.get(&new_path).unwrap().info().unwrap();
    validate(new, &new_path);

    let old = info.files.get(&p).unwrap().info().unwrap();
    validate(old, &p);
}

#[test]
fn modify() {
    let mut info = get_subvol(true);
    let p = path("a/b/c");
    info.add_file(p.clone(), FileType::Unknown, 123).unwrap();

    info.modify(p.clone(), Mutation::Chown(999, 0)).unwrap();

    let v = info.files.get(&p).unwrap().info().unwrap();
    validate(v, &p);
    assert_eq!(v.user_id, 999);
}

#[test]
fn modify_err_unexisting() {
    let mut info = get_subvol(false);
    let p = path("a/b/c");
    let res = info.modify(p, Mutation::Chown(999, 0));

    assert!(res.is_err());
}

#[test]
fn modify_err_deleted() {
    let mut info = get_subvol(false);
    let p = path("a/b/c");

    info.add_file(p.clone(), FileType::Unknown, 123).unwrap();
    info.del_file(p.clone()).unwrap();

    let res = info.modify(p, Mutation::Chown(999, 0));

    assert!(res.is_err());
}

#[test]
fn del() {
    let mut info = get_subvol(true);
    let p = path("a/b/c");
    info.add_file(p.clone(), FileType::Unknown, 123).unwrap();

    info.del_file(p.clone()).unwrap();
    assert!(!info.files.contains_key(&p));
}

#[test]
fn del_twice() {
    let mut info = get_subvol(false);
    let p = path("a/b/c");
    info.add_file(p.clone(), FileType::Unknown, 123).unwrap();

    info.del_file(p.clone()).unwrap();
    let res = info.del_file(p);
    assert!(res.is_err());
}

#[test]
fn del_unexisting() {
    let mut info = get_subvol(false);
    let p = path("a/b/c");

    let res = info.del_file(p);
    assert!(res.is_err());
}

#[test]
fn del_no_overwrite() {
    let mut info = get_subvol(false);
    let p = path("a/b/c");
    info.add_file(p.clone(), FileType::Unknown, 123).unwrap();

    info.del_file(p.clone()).unwrap();
    let f = info.files.get(&p).unwrap();
    assert!(f.is_tombstone());
}

#[test]
fn chmod_changes_only_permissions() {
    let mut info = get_subvol(true);
    let p = path("a");
    info.add_file(p.clone(), FileType::File, 0).unwrap();
    info.modify(p.clone(), Mutation::Chmod(0o640)).unwrap();
    let v = info.files.get(&p).unwrap().info().unwrap();
    assert_eq!(v.permissions, 0o640);
    assert_eq!(v.user_id, 0);
    assert_eq!(v.filetype, FileType::File);
}
