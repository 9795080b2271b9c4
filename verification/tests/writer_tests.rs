use blackd_client::errors::ErrorKind;
use blackd_client::writer::write_pyfile;

#[test]
fn a_successful_write_replaces_the_contents_exactly() {
    let dir = tempfile::tempdir().unwrap();
    let target = dir.path().join("t.py");
    fs_err::write(&target, b"the old contents, rather longer than the new ones").unwrap();
    let r = write_pyfile(target.to_str().unwrap(), b"x = 1\n".to_vec());
    assert_eq!(r.unwrap(), true);
    assert_eq!(fs_err::read(&target).unwrap(), b"x = 1\n");
}

#[test]
fn a_successful_write_may_grow_the_file() {
    let dir = tempfile::tempdir().unwrap();
    let target = dir.path().join("t.py");
    fs_err::write(&target, b"x=1").unwrap();
    let new_bytes = b"x = 1\ny = 2\nz = 3\n".to_vec();
    let r = write_pyfile(target.to_str().unwrap(), new_bytes.clone());
    assert_eq!(r.unwrap(), true);
    assert_eq!(fs_err::read(&target).unwrap(), new_bytes);
}

#[test]
fn an_interrupted_write_leaves_the_target_untouched() {
    let dir = tempfile::tempdir().unwrap();
    let blocker = dir.path().join("t.py");
    fs_err::write(&blocker, b"original, precious contents").unwrap();
    // The temporary file must be created in the target's directory; with
    // a plain file standing where that directory should be, the write
    // fails before any rename can happen.
    let target = blocker.join("inner.py");
    let r = write_pyfile(target.to_str().unwrap(), b"new".to_vec());
    assert_eq!(r.unwrap_err().kind, ErrorKind::Persist);
    assert_eq!(fs_err::read(&blocker).unwrap(), b"original, precious contents");
    assert!(fs_err::read(&target).is_err());
}

#[test]
fn a_missing_directory_fails_without_creating_the_target() {
    let dir = tempfile::tempdir().unwrap();
    let target = dir.path().join("nowhere").join("t.py");
    let r = write_pyfile(target.to_str().unwrap(), b"new".to_vec());
    assert_eq!(r.unwrap_err().kind, ErrorKind::Persist);
    assert!(fs_err::read(&target).is_err());
}
