use contaddr::syscall::{
    AT_FDCWD, AT_SYMLINK_FOLLOW, DIRECTORY_FLAGS, OBJECT_MODE, O_RDONLY, PENDING_FLAGS, SHARD_MODE,
};
use contaddr::{
    Committing, ContAddr, Detail, ErrorKind, FileHandle, HashType, Opening, Reply, Request,
    Staged, Staging, Step, StoreError, TempFile, Validating,
};

const SHA256_ABC: &str = "ba7816bf8f01cfea414140de5dae2223b00361a396177a9cb410ff61f20015ad";

fn ok(value: i32) -> Reply {
    Reply::Returned { value, errno: 0 }
}

fn failed(errno: i32) -> Reply {
    Reply::Returned { value: -1, errno }
}

fn data(bytes: &[u8]) -> Reply {
    Reply::Data(bytes.to_vec())
}

fn pending<M, T>(step: Step<M, T>) -> M {
    match step {
        Step::Pending(machine) => machine,
        Step::Done(Ok(_)) => panic!("the operation is over"),
        Step::Done(Err(e)) => panic!("the operation failed: {:?}", e),
    }
}

fn done<M, T>(step: Step<M, T>) -> Result<T, StoreError> {
    match step {
        Step::Pending(_) => panic!("the operation goes on"),
        Step::Done(outcome) => outcome,
    }
}

fn failure<M, T>(step: Step<M, T>) -> StoreError {
    match done(step) {
        Ok(_) => panic!("the operation succeeded"),
        Err(e) => e,
    }
}

fn described(kind: ErrorKind, message: &str) -> StoreError {
    StoreError { kind, detail: Detail::Message(message.to_string()) }
}

fn short_address() -> StoreError {
    described(ErrorKind::InvalidInput, "address must be at least two characters")
}

fn nul_in_path() -> StoreError {
    described(ErrorKind::InvalidInput, "path contained a null")
}

fn digest_failure() -> StoreError {
    described(ErrorKind::Other, "the digest could not be computed")
}

fn open_store(dir: i32, digest: HashType) -> ContAddr {
    let opening: Opening = pending(ContAddr::open(b"/srv/store", digest));
    let mut step = opening.resume(ok(dir));
    loop {
        match step {
            Step::Pending(machine) => step = machine.resume(ok(0)),
            Step::Done(outcome) => return outcome.unwrap(),
        }
    }
}

fn create(store: &ContAddr, fd: i32) -> TempFile {
    done(pending(store.create()).resume(ok(fd))).unwrap()
}

fn stage(store: &ContAddr, fd: i32, chunks: &[&[u8]]) -> Staged {
    let mut staging: Staging = pending(store.stage(create(store, fd)));
    staging = pending(staging.resume(ok(0)));
    for chunk in chunks {
        staging = pending(staging.resume(data(chunk)));
    }
    staging = pending(staging.resume(data(&[])));
    match done(staging.resume(ok(0))) {
        Ok(staged) => staged,
        Err(e) => panic!("staging failed: {:?}", e),
    }
}

#[test]
fn open_asks_for_the_root_then_for_each_shard_in_order() {
    let mut opening: Opening = pending(ContAddr::open(b"/srv/store", HashType::SHA256));
    assert_eq!(
        opening.request(),
        Request::Open { path: b"/srv/store".to_vec(), flags: DIRECTORY_FLAGS, mode: 0 }
    );
    opening = pending(opening.resume(ok(3)));
    for index in 0..256 {
        assert_eq!(
            opening.request(),
            Request::MkdirAt { dirfd: 3, path: format!("./{:02x}", index), mode: SHARD_MODE }
        );
        let step = opening.resume(ok(0));
        if index < 255 {
            opening = pending(step);
        } else {
            let store = done(step).unwrap();
            assert_eq!(store.dir(), 3);
            assert_eq!(store.digest(), HashType::SHA256);
            return;
        }
    }
}

#[test]
fn open_fails_at_once_for_a_path_with_a_nul() {
    assert_eq!(failure(ContAddr::open(b"/srv/\0store", HashType::MD5)), nul_in_path());
}

#[test]
fn open_takes_a_root_whose_path_is_no_text() {
    let path: &[u8] = b"/srv/\xff\xfe store";
    let opening = pending(ContAddr::open(path, HashType::MD5));
    assert_eq!(
        opening.request(),
        Request::Open { path: path.to_vec(), flags: DIRECTORY_FLAGS, mode: 0 }
    );
    assert_eq!(
        failure(opening.resume(failed(2))),
        StoreError { kind: ErrorKind::NotFound, detail: Detail::Root(path.to_vec()) }
    );
}

#[test]
fn open_reports_a_missing_root_as_not_found() {
    let opening = pending(ContAddr::open(b"/srv/store", HashType::MD5));
    assert_eq!(
        failure(opening.resume(failed(2))),
        StoreError { kind: ErrorKind::NotFound, detail: Detail::Root(b"/srv/store".to_vec()) }
    );
}

#[test]
fn open_passes_on_a_root_that_is_no_directory() {
    let opening = pending(ContAddr::open(b"/srv/store", HashType::MD5));
    assert_eq!(failure(opening.resume(failed(20))), StoreError::from_errno(20));
}

#[test]
fn open_accepts_shards_that_exist_as_directories() {
    let mut opening = pending(ContAddr::open(b"/srv/store", HashType::MD5));
    opening = pending(opening.resume(ok(3)));
    let mut probe = 10;
    let mut step = Step::Pending(opening);
    for index in 0..256 {
        let path = format!("./{:02x}", index);
        let making = pending(step);
        assert_eq!(
            making.request(),
            Request::MkdirAt { dirfd: 3, path: path.clone(), mode: SHARD_MODE }
        );
        let probing = pending(making.resume(failed(17)));
        assert_eq!(
            probing.request(),
            Request::OpenAt { dirfd: 3, path, flags: DIRECTORY_FLAGS, mode: 0 }
        );
        let releasing = pending(probing.resume(ok(probe)));
        assert_eq!(releasing.request(), Request::Close { fd: probe });
        step = releasing.resume(ok(0));
        probe += 1;
    }
    assert_eq!(done(step).unwrap().dir(), 3);
}

#[test]
fn open_refuses_a_shard_name_taken_by_a_file() {
    let mut opening = pending(ContAddr::open(b"/srv/store", HashType::MD5));
    opening = pending(opening.resume(ok(3)));
    opening = pending(opening.resume(ok(0)));
    opening = pending(opening.resume(failed(17)));
    let closing = pending(opening.resume(failed(20)));
    assert_eq!(closing.request(), Request::Close { fd: 3 });
    assert_eq!(
        failure(closing.resume(ok(0))),
        StoreError { kind: ErrorKind::AlreadyExists, detail: Detail::Path("./01".to_string()) }
    );
}

#[test]
fn open_closes_the_root_when_a_shard_cannot_be_made() {
    let mut opening = pending(ContAddr::open(b"/srv/store", HashType::MD5));
    opening = pending(opening.resume(ok(3)));
    let closing = pending(opening.resume(failed(28)));
    assert_eq!(closing.request(), Request::Close { fd: 3 });
    assert_eq!(failure(closing.resume(failed(9))), StoreError::from_errno(28));
}

#[test]
fn open_passes_on_a_probe_that_fails_otherwise() {
    let mut opening = pending(ContAddr::open(b"/srv/store", HashType::MD5));
    opening = pending(opening.resume(ok(3)));
    opening = pending(opening.resume(failed(17)));
    let closing = pending(opening.resume(failed(24)));
    assert_eq!(failure(closing.resume(ok(0))), StoreError::from_errno(24));
}

#[test]
fn closing_a_store_releases_its_root() {
    assert_eq!(open_store(5, HashType::MD5).close(), Request::Close { fd: 5 });
}

#[test]
fn mkdir_makes_the_shard_of_an_address() {
    let store = open_store(3, HashType::MD5);
    let making = pending(store.mkdir("abcdef"));
    assert_eq!(
        making.request(),
        Request::MkdirAt { dirfd: 3, path: "./ab".to_string(), mode: SHARD_MODE }
    );
    assert_eq!(done(making.resume(ok(0))), Ok(()));
}

#[test]
fn mkdir_refuses_short_addresses_and_nul() {
    let store = open_store(3, HashType::MD5);
    assert_eq!(failure(store.mkdir("")), short_address());
    assert_eq!(failure(store.mkdir("a")), short_address());
    assert_eq!(failure(store.mkdir("a\0cdef")), nul_in_path());
}

#[test]
fn mkdir_passes_on_other_failures() {
    let store = open_store(3, HashType::MD5);
    let making = pending(store.mkdir("abcdef"));
    assert_eq!(failure(making.resume(failed(13))), StoreError::from_errno(13));
    let making = pending(store.mkdir("abcdef"));
    assert_eq!(
        failure(making.resume(failed(2))),
        StoreError { kind: ErrorKind::NotFound, detail: Detail::Path("./ab".to_string()) }
    );
}

#[test]
fn create_makes_an_unnamed_file_in_the_root() {
    let store = open_store(3, HashType::MD5);
    let creating = pending(store.create());
    assert_eq!(
        creating.request(),
        Request::OpenAt { dirfd: 3, path: ".".to_string(), flags: PENDING_FLAGS, mode: 0 }
    );
    let temp: TempFile = done(creating.resume(ok(7))).unwrap();
    assert_eq!(temp.fd(), 7);
}

#[test]
fn create_passes_a_failure_on() {
    let store = open_store(3, HashType::MD5);
    assert_eq!(failure(pending(store.create()).resume(failed(28))), StoreError::from_errno(28));
    assert_eq!(
        failure(pending(store.create()).resume(failed(2))),
        StoreError { kind: ErrorKind::NotFound, detail: Detail::Path(".".to_string()) }
    );
}

#[test]
fn stage_rewinds_reads_to_the_end_and_rewinds_again() {
    let store = open_store(3, HashType::SHA256);
    let mut staging = pending(store.stage(create(&store, 7)));
    assert_eq!(staging.request(), Request::Rewind { fd: 7 });
    staging = pending(staging.resume(ok(0)));
    assert_eq!(staging.request(), Request::Read { fd: 7 });
    staging = pending(staging.resume(data(b"ab")));
    assert_eq!(staging.request(), Request::Read { fd: 7 });
    staging = pending(staging.resume(data(b"c")));
    assert_eq!(staging.request(), Request::Read { fd: 7 });
    staging = pending(staging.resume(data(b"")));
    assert_eq!(staging.request(), Request::Rewind { fd: 7 });
    let staged = match done(staging.resume(ok(0))) {
        Ok(staged) => staged,
        Err(e) => panic!("staging failed: {:?}", e),
    };
    assert_eq!(staged.fd(), 7);
    assert_eq!(staged.get_address().as_hex(), SHA256_ABC);
}

#[test]
fn stage_closes_the_object_when_the_last_rewind_fails() {
    let store = open_store(3, HashType::SHA256);
    let mut staging = pending(store.stage(create(&store, 7)));
    staging = pending(staging.resume(ok(0)));
    staging = pending(staging.resume(data(b"abc")));
    staging = pending(staging.resume(data(b"")));
    assert_eq!(staging.request(), Request::Rewind { fd: 7 });
    let closing = pending(staging.resume(failed(29)));
    assert_eq!(closing.request(), Request::Close { fd: 7 });
    assert_eq!(failure(closing.resume(ok(0))), StoreError::from_errno(29));
}

#[test]
fn a_read_that_a_signal_cut_short_is_asked_for_again() {
    let store = open_store(3, HashType::SHA256);
    let mut staging = pending(store.stage(create(&store, 7)));
    staging = pending(staging.resume(ok(0)));
    staging = pending(staging.resume(failed(4)));
    assert_eq!(staging.request(), Request::Read { fd: 7 });
    staging = pending(staging.resume(data(b"ab")));
    staging = pending(staging.resume(failed(4)));
    staging = pending(staging.resume(failed(4)));
    assert_eq!(staging.request(), Request::Read { fd: 7 });
    staging = pending(staging.resume(data(b"c")));
    staging = pending(staging.resume(data(b"")));
    let staged = match done(staging.resume(ok(0))) {
        Ok(staged) => staged,
        Err(e) => panic!("staging failed: {:?}", e),
    };
    assert_eq!(staged.get_address().as_hex(), SHA256_ABC);

    let mut validating = pending(store.validate_read(SHA256_ABC));
    validating = pending(validating.resume(ok(9)));
    validating = pending(validating.resume(failed(4)));
    assert_eq!(validating.request(), Request::Read { fd: 9 });
    validating = pending(validating.resume(data(b"abc")));
    validating = pending(validating.resume(data(b"")));
    assert_eq!(validating.request(), Request::Rewind { fd: 9 });
}

#[test]
fn a_rewind_that_a_signal_cut_short_is_a_failure() {
    let store = open_store(3, HashType::SHA256);
    let staging = pending(store.stage(create(&store, 7)));
    let closing = pending(staging.resume(failed(4)));
    assert_eq!(closing.request(), Request::Close { fd: 7 });
    assert_eq!(failure(closing.resume(ok(0))), StoreError::from_errno(4));
}

#[test]
fn stage_of_no_content_gives_the_address_of_nothing() {
    let store = open_store(3, HashType::MD5);
    assert_eq!(stage(&store, 7, &[]).get_address().as_hex(), "d41d8cd98f00b204e9800998ecf8427e");
}

#[test]
fn stage_uses_the_digest_of_the_store() {
    let md5 = open_store(3, HashType::MD5);
    let sha1 = open_store(4, HashType::SHA1);
    assert_eq!(
        stage(&md5, 7, &[b"abc"]).get_address().as_hex(),
        "900150983cd24fb0d6963f7d28e17f72"
    );
    assert_eq!(
        stage(&sha1, 8, &[b"abc"]).get_address().as_hex(),
        "a9993e364706816aba3e25717850c26c9cd0d89d"
    );
}

#[test]
fn stage_closes_the_object_when_the_rewind_fails() {
    let store = open_store(3, HashType::MD5);
    let staging = pending(store.stage(create(&store, 7)));
    let closing = pending(staging.resume(failed(29)));
    assert_eq!(closing.request(), Request::Close { fd: 7 });
    assert_eq!(failure(closing.resume(ok(0))), StoreError::from_errno(29));
}

#[test]
fn stage_closes_the_object_when_a_read_fails() {
    let store = open_store(3, HashType::MD5);
    let mut staging = pending(store.stage(create(&store, 7)));
    staging = pending(staging.resume(ok(0)));
    staging = pending(staging.resume(data(b"abc")));
    let closing = pending(staging.resume(failed(5)));
    assert_eq!(closing.request(), Request::Close { fd: 7 });
    assert_eq!(failure(closing.resume(ok(0))), StoreError::from_errno(5));
}

#[test]
fn stage_takes_a_number_for_bytes_as_a_failure() {
    let store = open_store(3, HashType::MD5);
    let mut staging = pending(store.stage(create(&store, 7)));
    staging = pending(staging.resume(ok(0)));
    let closing = pending(staging.resume(ok(3)));
    assert_eq!(
        failure(closing.resume(ok(0))),
        described(ErrorKind::InvalidInput, "the reply does not answer the request")
    );
}

#[test]
fn commit_sets_the_mode_links_and_closes() {
    let store = open_store(3, HashType::SHA256);
    let mut committing: Committing = pending(store.commit(stage(&store, 7, &[b"abc"])));
    assert_eq!(committing.request(), Request::Fchmod { fd: 7, mode: OBJECT_MODE });
    committing = pending(committing.resume(ok(0)));
    assert_eq!(
        committing.request(),
        Request::LinkAt {
            olddirfd: AT_FDCWD,
            oldpath: "/proc/self/fd/7".to_string(),
            newdirfd: 3,
            newpath: format!("./ba/{}", SHA256_ABC),
            flags: AT_SYMLINK_FOLLOW,
        }
    );
    committing = pending(committing.resume(ok(0)));
    assert_eq!(committing.request(), Request::Close { fd: 7 });
    let address = done(committing.resume(ok(0))).unwrap();
    assert_eq!(address.as_hex(), SHA256_ABC);
}

#[test]
fn commit_reports_a_taken_address_with_its_path() {
    let store = open_store(3, HashType::SHA256);
    let mut committing = pending(store.commit(stage(&store, 7, &[b"abc"])));
    committing = pending(committing.resume(ok(0)));
    committing = pending(committing.resume(failed(17)));
    assert_eq!(committing.request(), Request::Close { fd: 7 });
    assert_eq!(
        failure(committing.resume(ok(0))),
        described(ErrorKind::AlreadyExists, &format!("./ba/{}", SHA256_ABC))
    );
}

#[test]
fn commit_does_not_link_when_the_mode_cannot_be_set() {
    let store = open_store(3, HashType::SHA256);
    let committing = pending(store.commit(stage(&store, 7, &[b"abc"])));
    let closing = pending(committing.resume(failed(1)));
    assert_eq!(closing.request(), Request::Close { fd: 7 });
    assert_eq!(failure(closing.resume(ok(0))), StoreError::from_errno(1));
}

#[test]
fn commit_passes_on_other_failures_of_the_link() {
    let store = open_store(3, HashType::SHA256);
    let mut committing = pending(store.commit(stage(&store, 7, &[b"abc"])));
    committing = pending(committing.resume(ok(0)));
    committing = pending(committing.resume(failed(2)));
    assert_eq!(
        failure(committing.resume(ok(0))),
        described(ErrorKind::NotFound, "File not found")
    );
    let mut committing = pending(store.commit(stage(&store, 8, &[b"abc"])));
    committing = pending(committing.resume(ok(0)));
    committing = pending(committing.resume(failed(28)));
    assert_eq!(failure(committing.resume(ok(0))), StoreError::from_errno(28));
}

#[test]
fn commit_hands_the_outcome_out_whatever_close_returns() {
    let store = open_store(3, HashType::SHA256);
    let mut committing = pending(store.commit(stage(&store, 7, &[b"abc"])));
    committing = pending(committing.resume(ok(0)));
    committing = pending(committing.resume(ok(0)));
    assert_eq!(done(committing.resume(failed(5))).unwrap().as_hex(), SHA256_ABC);
}

#[test]
fn read_rejects_addresses_without_a_shard() {
    let store = open_store(3, HashType::SHA256);
    assert_eq!(failure(store.read("")), short_address());
    assert_eq!(failure(store.read("a")), short_address());
    assert_eq!(failure(store.validate_read("")), short_address());
    assert_eq!(failure(store.validate_read("a")), short_address());
}

#[test]
fn read_rejects_addresses_with_a_nul() {
    let store = open_store(3, HashType::SHA256);
    assert_eq!(failure(store.read("ab\0cd")), nul_in_path());
    assert_eq!(failure(store.validate_read("\0bcd")), nul_in_path());
}

#[test]
fn read_opens_the_object_in_its_shard() {
    let store = open_store(3, HashType::SHA256);
    let reading = pending(store.read(SHA256_ABC));
    assert_eq!(
        reading.request(),
        Request::OpenAt {
            dirfd: 3,
            path: format!("./ba/{}", SHA256_ABC),
            flags: O_RDONLY,
            mode: 0,
        }
    );
    let file: FileHandle = done(reading.resume(ok(9))).unwrap();
    assert_eq!(file.fd(), 9);
}

#[test]
fn read_takes_an_address_of_two_characters() {
    let store = open_store(3, HashType::SHA256);
    let reading = pending(store.read("ab"));
    assert_eq!(
        reading.request(),
        Request::OpenAt { dirfd: 3, path: "./ab/ab".to_string(), flags: O_RDONLY, mode: 0 }
    );
}

#[test]
fn read_reports_a_missing_object_as_not_found() {
    let store = open_store(3, HashType::SHA256);
    let reading = pending(store.read(SHA256_ABC));
    assert_eq!(
        failure(reading.resume(failed(2))),
        StoreError {
            kind: ErrorKind::NotFound,
            detail: Detail::Path(format!("./ba/{}", SHA256_ABC)),
        }
    );
}

#[test]
fn validate_read_hands_out_content_that_matches_rewound() {
    let store = open_store(3, HashType::SHA256);
    let mut validating: Validating = pending(store.validate_read(SHA256_ABC));
    assert_eq!(
        validating.request(),
        Request::OpenAt {
            dirfd: 3,
            path: format!("./ba/{}", SHA256_ABC),
            flags: O_RDONLY,
            mode: 0,
        }
    );
    validating = pending(validating.resume(ok(9)));
    assert_eq!(validating.request(), Request::Read { fd: 9 });
    validating = pending(validating.resume(data(b"a")));
    validating = pending(validating.resume(data(b"bc")));
    validating = pending(validating.resume(data(b"")));
    assert_eq!(validating.request(), Request::Rewind { fd: 9 });
    let file = done(validating.resume(ok(0))).unwrap();
    assert_eq!(file.fd(), 9);
}

#[test]
fn validate_read_removes_content_that_does_not_match() {
    let store = open_store(3, HashType::SHA256);
    let mut validating = pending(store.validate_read(SHA256_ABC));
    validating = pending(validating.resume(ok(9)));
    validating = pending(validating.resume(data(b"tampered")));
    validating = pending(validating.resume(data(b"")));
    assert_eq!(
        validating.request(),
        Request::UnlinkAt { dirfd: 3, path: format!("./ba/{}", SHA256_ABC), flags: 0 }
    );
    validating = pending(validating.resume(ok(0)));
    assert_eq!(validating.request(), Request::Close { fd: 9 });
    assert_eq!(
        failure(validating.resume(ok(0))),
        described(ErrorKind::HashMismatch, "Hash mismatch!")
    );
}

#[test]
fn validate_read_takes_an_address_in_capitals_for_another() {
    let store = open_store(3, HashType::SHA256);
    let capitals = SHA256_ABC.to_uppercase();
    let mut validating = pending(store.validate_read(&capitals));
    validating = pending(validating.resume(ok(9)));
    validating = pending(validating.resume(data(b"abc")));
    validating = pending(validating.resume(data(b"")));
    assert_eq!(
        validating.request(),
        Request::UnlinkAt { dirfd: 3, path: format!("./BA/{}", capitals), flags: 0 }
    );
}

#[test]
fn validate_read_reports_the_failure_of_the_removal() {
    let store = open_store(3, HashType::SHA256);
    let mut validating = pending(store.validate_read(SHA256_ABC));
    validating = pending(validating.resume(ok(9)));
    validating = pending(validating.resume(data(b"")));
    validating = pending(validating.resume(failed(13)));
    assert_eq!(validating.request(), Request::Close { fd: 9 });
    assert_eq!(failure(validating.resume(ok(0))), StoreError::from_errno(13));
}

#[test]
fn validate_read_fails_at_once_when_the_object_is_missing() {
    let store = open_store(3, HashType::SHA256);
    let validating = pending(store.validate_read(SHA256_ABC));
    assert_eq!(
        failure(validating.resume(failed(2))),
        StoreError {
            kind: ErrorKind::NotFound,
            detail: Detail::Path(format!("./ba/{}", SHA256_ABC)),
        }
    );
}

#[test]
fn validate_read_closes_the_object_when_a_read_fails() {
    let store = open_store(3, HashType::SHA256);
    let mut validating = pending(store.validate_read(SHA256_ABC));
    validating = pending(validating.resume(ok(9)));
    validating = pending(validating.resume(failed(5)));
    assert_eq!(validating.request(), Request::Close { fd: 9 });
    assert_eq!(failure(validating.resume(ok(0))), StoreError::from_errno(5));
}

#[test]
fn validate_read_closes_the_object_when_the_rewind_fails() {
    let store = open_store(3, HashType::SHA256);
    let mut validating = pending(store.validate_read(SHA256_ABC));
    validating = pending(validating.resume(ok(9)));
    validating = pending(validating.resume(data(b"abc")));
    validating = pending(validating.resume(data(b"")));
    validating = pending(validating.resume(failed(29)));
    assert_eq!(validating.request(), Request::Close { fd: 9 });
    assert_eq!(failure(validating.resume(ok(0))), StoreError::from_errno(29));
}

#[test]
fn a_digest_that_cannot_be_started_fails_the_staging() {
    let store = open_store(3, HashType::RIPEMD160);
    let staging = pending(store.stage(create(&store, 7)));
    let next = pending(staging.resume(ok(0)));
    match next.request() {
        Request::Read { fd } => assert_eq!(fd, 7),
        Request::Close { fd } => {
            assert_eq!(fd, 7);
            assert_eq!(failure(next.resume(ok(0))), digest_failure());
        }
        other => panic!("unexpected request: {:?}", other),
    }
}
