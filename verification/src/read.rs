//! Reading an object by its address, with or without checking its content.
use crate::address::{has_nul, object_path, object_path_of, Address};
use crate::contaddr::{ContAddr, FileHandle};
use crate::digest::{digest_failure, Digester, HashType};
use crate::error::{ErrorKind, StoreError, StoreErrorView, DetailView};
use crate::shard::short_address;
use crate::stage::{Hashing, HashingView};
use crate::step::{Step, StepView};
use crate::syscall::{cstr, nul_in_path, Reply, ReplyView, Request, RequestView, O_RDONLY};
use vstd::prelude::*;
use vstd::string::*;

verus! {

/// The mathematical content of a [`Reading`].
pub struct ReadingView {
    /// The descriptor of the root.
    pub dir: i32,
    /// The path of the object, relative to the root.
    pub path: Seq<char>,
}

impl ReadingView {
    /// The path can be handed to the kernel.
    pub open spec fn wf(self) -> bool {
        !has_nul(self.path)
    }

    /// The primitive to perform: the object is opened for reading.
    pub open spec fn request(self) -> RequestView {
        RequestView::OpenAt { dirfd: self.dir, path: self.path, flags: O_RDONLY, mode: 0 }
    }

    /// What the machine does with the reply: the descriptor that came back is
    /// the object, a failure is handed on. An object that is not there fails
    /// as not found.
    pub open spec fn resume(self, reply: ReplyView) -> StepView<ReadingView, i32> {
        match self.request().status(reply) {
            Ok(fd) => StepView::Done(Ok(fd)),
            Err(e) => StepView::Done(Err(e)),
        }
    }
}

/// How reading the object under `address` starts: it fails at once for an
/// address of fewer than two characters, and for one that holds a NUL
/// character.
pub open spec fn read_start(dir: i32, address: Seq<char>) -> StepView<ReadingView, i32> {
    if address.len() < 2 {
        StepView::Done(Err(short_address()))
    } else if has_nul(object_path(address)) {
        StepView::Done(Err(nul_in_path()))
    } else {
        StepView::Pending(ReadingView { dir, path: object_path(address) })
    }
}

/// The opening of an object for reading.
pub struct Reading {
    dir: i32,
    path: String,
}

impl View for Reading {
    type V = ReadingView;

    closed spec fn view(&self) -> ReadingView {
        ReadingView { dir: self.dir, path: self.path@ }
    }
}

impl Reading {
    #[verifier::type_invariant]
    spec fn well_formed(self) -> bool {
        self@.wf()
    }

    /// The primitive to perform. Its path holds no NUL character.
    pub fn request(&self) -> (request: Request)
        ensures
            request@ == self@.request(),
            !request@.has_nul(),
            self@.wf(),
    {
        proof {
            use_type_invariant(self);
        }
        Request::OpenAt { dirfd: self.dir, path: self.path.clone(), flags: O_RDONLY, mode: 0 }
    }

    /// Takes the reply to the request and ends the operation.
    pub fn resume(self, reply: Reply) -> (next: Step<Reading, FileHandle>)
        ensures
            next@ == self@.resume(reply@),
    {
        let request = self.request();
        match request.status(&reply) {
            Ok(fd) => Step::Done(Ok(FileHandle::new(fd))),
            Err(e) => Step::Done(Err(e)),
        }
    }
}

/// The failure reported for content that does not hash to its address.
pub open spec fn hash_mismatch() -> StoreErrorView {
    StoreErrorView { kind: ErrorKind::HashMismatch, detail: DetailView::Message("Hash mismatch!"@) }
}

/// The mathematical content of a [`Validating`].
pub enum ValidatingView {
    /// The object is being opened.
    Open { dir: i32, algorithm: HashType, address: Seq<char> },
    /// Its content is being hashed.
    Hash { dir: i32, address: Seq<char>, hashing: HashingView },
    /// The content does not hash to the address: the object is being removed.
    Unlink { dir: i32, address: Seq<char>, fd: i32 },
    /// The content hashes to the address: the object is being moved to its start.
    Rewind { fd: i32 },
    /// Validation failed: the object is being closed.
    Closing { fd: i32, error: StoreErrorView },
}

impl ValidatingView {
    /// The address has a shard, and its path can be handed to the kernel.
    pub open spec fn wf(self) -> bool {
        match self {
            ValidatingView::Open { address, .. } => address.len() >= 2 && !has_nul(
                object_path(address),
            ),
            ValidatingView::Hash { address, .. } => address.len() >= 2 && !has_nul(
                object_path(address),
            ),
            ValidatingView::Unlink { address, .. } => address.len() >= 2 && !has_nul(
                object_path(address),
            ),
            ValidatingView::Rewind { .. } => true,
            ValidatingView::Closing { .. } => true,
        }
    }

    /// The primitive to perform next.
    pub open spec fn request(self) -> RequestView {
        match self {
            ValidatingView::Open { dir, address, .. } => RequestView::OpenAt {
                dirfd: dir,
                path: object_path(address),
                flags: O_RDONLY,
                mode: 0,
            },
            ValidatingView::Hash { hashing, .. } => hashing.request(),
            ValidatingView::Unlink { dir, address, .. } => RequestView::UnlinkAt {
                dirfd: dir,
                path: object_path(address),
                flags: 0,
            },
            ValidatingView::Rewind { fd } => RequestView::Rewind { fd },
            ValidatingView::Closing { fd, .. } => RequestView::Close { fd },
        }
    }

    /// How the machine goes on when the hashing that stood at `hashing` is
    /// over: with the address asked for, to moving the object to its start;
    /// with another address, to removing the object; with a failure, to
    /// closing the object.
    pub open spec fn hashed(
        dir: i32,
        address: Seq<char>,
        hashing: HashingView,
        outcome: Result<Seq<char>, StoreErrorView>,
    ) -> StepView<ValidatingView, i32> {
        match outcome {
            Ok(computed) => if computed == address {
                StepView::Pending(ValidatingView::Rewind { fd: hashing.fd })
            } else {
                StepView::Pending(ValidatingView::Unlink { dir, address, fd: hashing.fd })
            },
            Err(e) => StepView::Pending(ValidatingView::Closing { fd: hashing.fd, error: e }),
        }
    }

    /// What the machine does with the reply to its request, where OpenSSL
    /// does its part (`digest_ok`) and where it does not.
    ///
    /// The object is opened and read to its end. Where the address of what
    /// was read is the address asked for, the object is moved to its start
    /// and handed out. Where it is another, the object is removed from its
    /// shard and the operation fails with the hash mismatch. An object that
    /// does not open fails the operation at once; every later failure closes
    /// the object first.
    pub open spec fn resume(self, reply: ReplyView, digest_ok: bool) -> StepView<
        ValidatingView,
        i32,
    > {
        match self {
            ValidatingView::Open { dir, algorithm, address } => match self.request().status(
                reply,
            ) {
                Err(e) => StepView::Done(Err(e)),
                Ok(fd) => if digest_ok {
                    StepView::Pending(
                        ValidatingView::Hash {
                            dir,
                            address,
                            hashing: HashingView::begin(fd, algorithm),
                        },
                    )
                } else {
                    StepView::Pending(ValidatingView::Closing { fd, error: digest_failure() })
                },
            },
            ValidatingView::Hash { dir, address, hashing } => match hashing.resume(
                reply,
                digest_ok,
            ) {
                StepView::Pending(next) => StepView::Pending(
                    ValidatingView::Hash { dir, address, hashing: next },
                ),
                StepView::Done(outcome) => ValidatingView::hashed(dir, address, hashing, outcome),
            },
            ValidatingView::Unlink { fd, .. } => match self.request().status(reply) {
                Ok(_) => StepView::Pending(ValidatingView::Closing { fd, error: hash_mismatch() }),
                Err(e) => StepView::Pending(ValidatingView::Closing { fd, error: e }),
            },
            ValidatingView::Rewind { fd } => match self.request().status(reply) {
                Ok(_) => StepView::Done(Ok(fd)),
                Err(e) => StepView::Pending(ValidatingView::Closing { fd, error: e }),
            },
            ValidatingView::Closing { error, .. } => StepView::Done(Err(error)),
        }
    }
}

/// How the validated reading of the object under `address` starts: as
/// reading it does.
pub open spec fn validate_start(dir: i32, algorithm: HashType, address: Seq<char>) -> StepView<
    ValidatingView,
    i32,
> {
    if address.len() < 2 {
        StepView::Done(Err(short_address()))
    } else if has_nul(object_path(address)) {
        StepView::Done(Err(nul_in_path()))
    } else {
        StepView::Pending(ValidatingView::Open { dir, algorithm, address })
    }
}

enum ValidatingState {
    Open { dir: i32, algorithm: HashType, address: String },
    Hash { dir: i32, address: String, hashing: Hashing },
    Unlink { dir: i32, address: String, fd: i32 },
    Rewind { fd: i32 },
    Closing { fd: i32, error: StoreError },
}

/// The reading of an object whose content is checked against its address.
pub struct Validating {
    state: ValidatingState,
}

impl View for Validating {
    type V = ValidatingView;

    closed spec fn view(&self) -> ValidatingView {
        match self.state {
            ValidatingState::Open { dir, algorithm, address } => ValidatingView::Open {
                dir,
                algorithm,
                address: address@,
            },
            ValidatingState::Hash { dir, address, hashing } => ValidatingView::Hash {
                dir,
                address: address@,
                hashing: hashing@,
            },
            ValidatingState::Unlink { dir, address, fd } => ValidatingView::Unlink {
                dir,
                address: address@,
                fd,
            },
            ValidatingState::Rewind { fd } => ValidatingView::Rewind { fd },
            ValidatingState::Closing { fd, error } => ValidatingView::Closing { fd, error: error@ },
        }
    }
}

impl Validating {
    #[verifier::type_invariant]
    spec fn well_formed(self) -> bool {
        self@.wf()
    }

    /// The primitive to perform next. Its path holds no NUL character.
    pub fn request(&self) -> (request: Request)
        ensures
            request@ == self@.request(),
            !request@.has_nul(),
            self@.wf(),
    {
        proof {
            use_type_invariant(self);
        }
        match &self.state {
            ValidatingState::Open { dir, address, .. } => Request::OpenAt {
                dirfd: *dir,
                path: object_path_of(address.as_str()),
                flags: O_RDONLY,
                mode: 0,
            },
            ValidatingState::Hash { hashing, .. } => hashing.request(),
            ValidatingState::Unlink { dir, address, .. } => Request::UnlinkAt {
                dirfd: *dir,
                path: object_path_of(address.as_str()),
                flags: 0,
            },
            ValidatingState::Rewind { fd } => Request::Rewind { fd: *fd },
            ValidatingState::Closing { fd, .. } => Request::Close { fd: *fd },
        }
    }

    /// Goes on after the object was opened, with what starting the digest
    /// gave: to the hashing, or to closing the object after the failure.
    fn opened(dir: i32, address: String, fd: i32, made: Result<Digester, StoreError>) -> (next:
        Step<Validating, FileHandle>)
        requires
            address@.len() >= 2,
            !has_nul(object_path(address@)),
        ensures
            match made {
                Ok(digester) => next@ == StepView::<ValidatingView, i32>::Pending(
                    ValidatingView::Hash {
                        dir,
                        address: address@,
                        hashing: HashingView {
                            fd,
                            algorithm: digester.algorithm(),
                            consumed: digester.input(),
                        },
                    },
                ),
                Err(e) => next@ == StepView::<ValidatingView, i32>::Pending(
                    ValidatingView::Closing { fd, error: e@ },
                ),
            },
    {
        match made {
            Ok(digester) => Step::Pending(
                Validating {
                    state: ValidatingState::Hash {
                        dir,
                        address,
                        hashing: Hashing::begin(fd, digester),
                    },
                },
            ),
            Err(e) => Step::Pending(
                Validating { state: ValidatingState::Closing { fd, error: e } },
            ),
        }
    }

    /// Goes on after the content was hashed to the address `computed`: to
    /// moving the object to its start where that is the address asked for, to
    /// removing the object where it is another.
    fn compared(dir: i32, address: String, fd: i32, computed: Address) -> (next: Step<
        Validating,
        FileHandle,
    >)
        requires
            address@.len() >= 2,
            !has_nul(object_path(address@)),
        ensures
            next@ == StepView::<ValidatingView, i32>::Pending(
                if computed@ == address@ {
                    ValidatingView::Rewind { fd }
                } else {
                    ValidatingView::Unlink { dir, address: address@, fd }
                },
            ),
    {
        let text = computed.as_hex();
        if text == address {
            Step::Pending(Validating { state: ValidatingState::Rewind { fd } })
        } else {
            Step::Pending(Validating { state: ValidatingState::Unlink { dir, address, fd } })
        }
    }

    /// Takes the reply to the request and goes on. Whether OpenSSL does its
    /// part is not known beforehand: the step is the one for either case.
    pub fn resume(self, reply: Reply) -> (next: Step<Validating, FileHandle>)
        ensures
            next@ == self@.resume(reply@, true) || next@ == self@.resume(reply@, false),
    {
        let request = self.request();
        match self.state {
            ValidatingState::Open { dir, algorithm, address } => match request.status(&reply) {
                Err(e) => Step::Done(Err(e)),
                Ok(fd) => Validating::opened(dir, address, fd, Digester::new(algorithm)),
            },
            ValidatingState::Hash { dir, address, hashing } => {
                let fd = hashing.fd();
                match hashing.resume(reply) {
                    Step::Pending(hashing) => Step::Pending(
                        Validating { state: ValidatingState::Hash { dir, address, hashing } },
                    ),
                    Step::Done(Ok(computed)) => Validating::compared(dir, address, fd, computed),
                    Step::Done(Err(e)) => Step::Pending(
                        Validating { state: ValidatingState::Closing { fd, error: e } },
                    ),
                }
            },
            ValidatingState::Unlink { fd, .. } => match request.status(&reply) {
                Ok(_) => Step::Pending(
                    Validating {
                        state: ValidatingState::Closing {
                            fd,
                            error: StoreError::new(ErrorKind::HashMismatch, "Hash mismatch!"),
                        },
                    },
                ),
                Err(e) => Step::Pending(
                    Validating { state: ValidatingState::Closing { fd, error: e } },
                ),
            },
            ValidatingState::Rewind { fd } => match request.status(&reply) {
                Ok(_) => Step::Done(Ok(FileHandle::new(fd))),
                Err(e) => Step::Pending(
                    Validating { state: ValidatingState::Closing { fd, error: e } },
                ),
            },
            ValidatingState::Closing { error, .. } => Step::Done(Err(error)),
        }
    }
}

impl ContAddr {
    /// Sets out to open the object under `address` for reading, without a
    /// look at its content. Fails at once, with nothing asked of the file
    /// system, for an address of fewer than two characters and for one that
    /// holds a NUL character.
    pub fn read(&self, address: &str) -> (first: Step<Reading, FileHandle>)
        ensures
            first@ == read_start(self@.dir, address@),
    {
        if address.unicode_len() < 2 {
            return Step::Done(
                Err(
                    StoreError::new(
                        ErrorKind::InvalidInput,
                        "address must be at least two characters",
                    ),
                ),
            );
        }
        let path = object_path_of(address);
        match cstr(path.as_str()) {
            Err(e) => Step::Done(Err(e)),
            Ok(_) => Step::Pending(Reading { dir: self.dir(), path }),
        }
    }

    /// Sets out to open the object under `address` for reading and to check
    /// that its content hashes to `address`. Fails at once where reading
    /// does.
    pub fn validate_read(&self, address: &str) -> (first: Step<Validating, FileHandle>)
        ensures
            first@ == validate_start(self@.dir, self@.digest, address@),
    {
        if address.unicode_len() < 2 {
            return Step::Done(
                Err(
                    StoreError::new(
                        ErrorKind::InvalidInput,
                        "address must be at least two characters",
                    ),
                ),
            );
        }
        let path = object_path_of(address);
        match cstr(path.as_str()) {
            Err(e) => Step::Done(Err(e)),
            Ok(_) => Step::Pending(
                Validating {
                    state: ValidatingState::Open {
                        dir: self.dir(),
                        algorithm: self.digest(),
                        address: String::from_str(address),
                    },
                },
            ),
        }
    }
}

} // verus!
