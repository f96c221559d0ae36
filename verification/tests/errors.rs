use contaddr::error::{
    last_error, last_error_wpath, last_error_wroot, EEXIST, EINTR, ENOENT, ENOTDIR,
};
use contaddr::{Detail, ErrorKind, StoreError};

#[test]
fn error_numbers_have_their_values() {
    assert_eq!(ENOENT, 2);
    assert_eq!(EINTR, 4);
    assert_eq!(EEXIST, 17);
    assert_eq!(ENOTDIR, 20);
}

#[test]
fn last_error_names_a_missing_file() {
    let e = last_error(2);
    assert_eq!(e.kind, ErrorKind::NotFound);
    assert_eq!(e.detail, Detail::Message("File not found".to_string()));
}

#[test]
fn last_error_names_a_taken_name() {
    let e = last_error(17);
    assert_eq!(e.kind, ErrorKind::AlreadyExists);
    assert_eq!(e.detail, Detail::Message("File already exists".to_string()));
}

#[test]
fn last_error_passes_other_numbers_on() {
    for errno in [0, 1, 3, 13, 16, 18, 28, -1, i32::MAX] {
        let e = last_error(errno);
        assert_eq!(e.kind, ErrorKind::Other);
        assert_eq!(e.detail, Detail::Errno(errno));
        assert_eq!(e.errno(), Some(errno));
    }
}

#[test]
fn last_error_wpath_carries_the_path() {
    let missing = last_error_wpath(2, "./ab/abcd");
    assert_eq!(
        missing,
        StoreError { kind: ErrorKind::NotFound, detail: Detail::Path("./ab/abcd".to_string()) }
    );
    let taken = last_error_wpath(17, "./ab");
    assert_eq!(
        taken,
        StoreError { kind: ErrorKind::AlreadyExists, detail: Detail::Path("./ab".to_string()) }
    );
}

#[test]
fn last_error_wroot_carries_the_bytes_of_the_root() {
    let root: &[u8] = b"/srv/\xff";
    assert_eq!(
        last_error_wroot(2, root),
        StoreError { kind: ErrorKind::NotFound, detail: Detail::Root(root.to_vec()) }
    );
    assert_eq!(
        last_error_wroot(17, root),
        StoreError { kind: ErrorKind::AlreadyExists, detail: Detail::Root(root.to_vec()) }
    );
    assert_eq!(last_error_wroot(20, root), StoreError::from_errno(20));
    let e = last_error_wroot(2, root);
    assert_eq!(e.clone(), e);
}

#[test]
fn last_error_wpath_passes_other_numbers_on() {
    let e = last_error_wpath(13, "./ab");
    assert_eq!(e, StoreError { kind: ErrorKind::Other, detail: Detail::Errno(13) });
}

#[test]
fn described_errors_carry_no_number() {
    let e = StoreError::new(ErrorKind::HashMismatch, "Hash mismatch!");
    assert_eq!(e.kind, ErrorKind::HashMismatch);
    assert_eq!(e.detail, Detail::Message("Hash mismatch!".to_string()));
    assert_eq!(e.errno(), None);
    assert_eq!(StoreError::from_errno(5).errno(), Some(5));
}

#[test]
fn errors_clone_to_equal_errors() {
    let e = last_error_wpath(2, "./00");
    assert_eq!(e.clone(), e);
    let n = StoreError::from_errno(28);
    assert_eq!(n.clone(), n);
}
