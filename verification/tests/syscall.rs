use contaddr::syscall::{
    cstr, cstr_bytes, AT_FDCWD, AT_SYMLINK_FOLLOW, DIRECTORY_FLAGS, OBJECT_MODE, O_CLOEXEC,
    O_DIRECTORY, O_RDONLY, O_RDWR, O_TMPFILE, PENDING_FLAGS, SHARD_MODE,
};
use contaddr::{Detail, ErrorKind, Reply, Request, StoreError};

fn unexpected() -> StoreError {
    StoreError {
        kind: ErrorKind::InvalidInput,
        detail: Detail::Message("the reply does not answer the request".to_string()),
    }
}

#[test]
fn flags_and_modes_have_their_values() {
    assert_eq!(AT_FDCWD, -100);
    assert_eq!(AT_SYMLINK_FOLLOW, 0x400);
    assert_eq!(O_RDONLY, 0);
    assert_eq!(O_RDWR, 2);
    assert_eq!(O_DIRECTORY, 0x10000);
    assert_eq!(O_CLOEXEC, 0x80000);
    assert_eq!(O_TMPFILE, 0x410000);
    assert_eq!(DIRECTORY_FLAGS, O_CLOEXEC | O_DIRECTORY);
    assert_eq!(PENDING_FLAGS, O_CLOEXEC | O_TMPFILE | O_RDWR);
    assert_eq!(SHARD_MODE, 448);
    assert_eq!(OBJECT_MODE, 420);
}

#[test]
fn paths_with_a_nul_are_refused() {
    assert_eq!(cstr("./ab/abcd"), Ok(()));
    assert_eq!(cstr(""), Ok(()));
    let refused = StoreError {
        kind: ErrorKind::InvalidInput,
        detail: Detail::Message("path contained a null".to_string()),
    };
    assert_eq!(cstr("\0"), Err(refused.clone()));
    assert_eq!(cstr("./ab\0cd"), Err(refused.clone()));
    assert_eq!(cstr("abc\0"), Err(refused.clone()));
    assert_eq!(cstr_bytes(b"/srv/store"), Ok(()));
    assert_eq!(cstr_bytes(b"/srv/\xff"), Ok(()));
    assert_eq!(cstr_bytes(b""), Ok(()));
    assert_eq!(cstr_bytes(b"/srv\0/store"), Err(refused.clone()));
    assert_eq!(cstr_bytes(b"\0"), Err(refused));
}

#[test]
fn a_value_other_than_minus_one_is_success() {
    let request = Request::OpenAt { dirfd: 3, path: "./ab/abcd".to_string(), flags: 0, mode: 0 };
    assert_eq!(request.status(&Reply::Returned { value: 7, errno: 0 }), Ok(7));
    assert_eq!(request.status(&Reply::Returned { value: 0, errno: 2 }), Ok(0));
    assert_eq!(request.status(&Reply::Returned { value: -2, errno: 2 }), Ok(-2));
}

#[test]
fn failures_with_a_path_carry_it() {
    let open = Request::Open { path: b"/srv/store".to_vec(), flags: DIRECTORY_FLAGS, mode: 0 };
    let mkdir = Request::MkdirAt { dirfd: 3, path: "./ab".to_string(), mode: SHARD_MODE };
    let openat = Request::OpenAt { dirfd: 3, path: "./ab/abcd".to_string(), flags: 0, mode: 0 };
    let unlink = Request::UnlinkAt { dirfd: 3, path: "./ab/abcd".to_string(), flags: 0 };
    assert_eq!(
        open.status(&Reply::Returned { value: -1, errno: 2 }),
        Err(StoreError { kind: ErrorKind::NotFound, detail: Detail::Root(b"/srv/store".to_vec()) })
    );
    assert_eq!(
        mkdir.status(&Reply::Returned { value: -1, errno: 17 }),
        Err(StoreError {
            kind: ErrorKind::AlreadyExists,
            detail: Detail::Path("./ab".to_string())
        })
    );
    assert_eq!(
        openat.status(&Reply::Returned { value: -1, errno: 2 }),
        Err(StoreError { kind: ErrorKind::NotFound, detail: Detail::Path("./ab/abcd".to_string()) })
    );
    assert_eq!(
        unlink.status(&Reply::Returned { value: -1, errno: 2 }),
        Err(StoreError { kind: ErrorKind::NotFound, detail: Detail::Path("./ab/abcd".to_string()) })
    );
    assert_eq!(
        unlink.status(&Reply::Returned { value: -1, errno: 13 }),
        Err(StoreError { kind: ErrorKind::Other, detail: Detail::Errno(13) })
    );
}

#[test]
fn failures_without_a_path_are_described() {
    let link = Request::LinkAt {
        olddirfd: AT_FDCWD,
        oldpath: "/proc/self/fd/7".to_string(),
        newdirfd: 3,
        newpath: "./ab/abcd".to_string(),
        flags: AT_SYMLINK_FOLLOW,
    };
    let chmod = Request::Fchmod { fd: 7, mode: OBJECT_MODE };
    assert_eq!(
        link.status(&Reply::Returned { value: -1, errno: 17 }),
        Err(StoreError {
            kind: ErrorKind::AlreadyExists,
            detail: Detail::Message("File already exists".to_string())
        })
    );
    assert_eq!(
        link.status(&Reply::Returned { value: -1, errno: 2 }),
        Err(StoreError {
            kind: ErrorKind::NotFound,
            detail: Detail::Message("File not found".to_string())
        })
    );
    assert_eq!(
        chmod.status(&Reply::Returned { value: -1, errno: 9 }),
        Err(StoreError { kind: ErrorKind::Other, detail: Detail::Errno(9) })
    );
}

#[test]
fn failures_of_reads_and_seeks_are_passed_on() {
    for request in [Request::Rewind { fd: 7 }, Request::Read { fd: 7 }, Request::Close { fd: 7 }] {
        for errno in [2, 5, 17] {
            assert_eq!(
                request.failure(errno),
                StoreError { kind: ErrorKind::Other, detail: Detail::Errno(errno) }
            );
        }
    }
}

#[test]
fn bytes_do_not_answer_a_call() {
    let chmod = Request::Fchmod { fd: 7, mode: OBJECT_MODE };
    assert_eq!(chmod.status(&Reply::Data(vec![1, 2, 3])), Err(unexpected()));
}

#[test]
fn a_read_is_answered_by_bytes_or_a_failure() {
    let read = Request::Read { fd: 7 };
    assert_eq!(read.data(Reply::Data(vec![1, 2, 3])), Ok(vec![1, 2, 3]));
    assert_eq!(read.data(Reply::Data(vec![])), Ok(vec![]));
    assert_eq!(
        read.data(Reply::Returned { value: -1, errno: 5 }),
        Err(StoreError { kind: ErrorKind::Other, detail: Detail::Errno(5) })
    );
    assert_eq!(read.data(Reply::Returned { value: 3, errno: 0 }), Err(unexpected()));
}
