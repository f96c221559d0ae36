//! Staging: the content of a pending object is hashed, which fixes its
//! address, and the object is left at its start.
use crate::address::Address;
use crate::contaddr::{ContAddr, Staged, StagedView, TempFile};
use crate::digest::{digest_failure, digest_of, Digester, HashType};
use crate::error::{ErrorKind, StoreError, StoreErrorView, EINTR};
use crate::hex::hex;
use crate::step::{Step, StepView};
use crate::syscall::{Reply, ReplyView, Request, RequestView};
use vstd::prelude::*;

verus! {

/// The mathematical content of a [`Hashing`].
pub struct HashingView {
    /// The descriptor that is read.
    pub fd: i32,
    /// The digest the content is hashed under.
    pub algorithm: HashType,
    /// The content read so far.
    pub consumed: Seq<u8>,
}

impl HashingView {
    /// The machine that has read nothing yet.
    pub open spec fn begin(fd: i32, algorithm: HashType) -> HashingView {
        HashingView { fd, algorithm, consumed: Seq::<u8>::empty() }
    }

    /// The primitive to perform next: the next bytes are read.
    pub open spec fn request(self) -> RequestView {
        RequestView::Read { fd: self.fd }
    }

    /// The address of the content read so far; the digest failure where its
    /// digest is empty.
    pub open spec fn address(self) -> Result<Seq<char>, StoreErrorView> {
        let digest = digest_of(self.algorithm, self.consumed);
        if digest.len() == 0 {
            Err(digest_failure())
        } else {
            Ok(hex(digest))
        }
    }

    /// What the machine does with the reply to its request, where OpenSSL
    /// does its part (`digest_ok`) and where it does not.
    ///
    /// A read that a signal cut short is asked for again. Bytes that were
    /// read are added to the content. A read that gives no bytes ends the
    /// content: the machine is done with the address of all that was read.
    /// Every other failed read is handed on, and a refusal of OpenSSL is the
    /// digest failure.
    pub open spec fn resume(self, reply: ReplyView, digest_ok: bool) -> StepView<
        HashingView,
        Seq<char>,
    > {
        if interrupted(reply) {
            StepView::Pending(self)
        } else {
            match self.request().data(reply) {
                Err(e) => StepView::Done(Err(e)),
                Ok(bytes) => if !digest_ok {
                    StepView::Done(Err(digest_failure()))
                } else if bytes.len() == 0 {
                    StepView::Done(self.address())
                } else {
                    StepView::Pending(HashingView { consumed: self.consumed + bytes, ..self })
                },
            }
        }
    }
}

/// Whether `reply` is that of a call which a signal cut short.
pub open spec fn interrupted(reply: ReplyView) -> bool {
    reply == (ReplyView::Returned { value: -1i32, errno: EINTR })
}

/// The hashing of all that a descriptor gives, from where it stands to the
/// end of the file.
pub struct Hashing {
    fd: i32,
    digester: Digester,
}

impl View for Hashing {
    type V = HashingView;

    closed spec fn view(&self) -> HashingView {
        HashingView {
            fd: self.fd,
            algorithm: self.digester.algorithm(),
            consumed: self.digester.input(),
        }
    }
}

impl Hashing {
    pub(crate) fn begin(fd: i32, digester: Digester) -> (machine: Hashing)
        ensures
            machine@ == (HashingView {
                fd,
                algorithm: digester.algorithm(),
                consumed: digester.input(),
            }),
    {
        Hashing { fd, digester }
    }

    /// The descriptor that is read.
    pub fn fd(&self) -> (fd: i32)
        ensures
            fd == self@.fd,
    {
        self.fd
    }

    /// The primitive to perform next.
    pub fn request(&self) -> (request: Request)
        ensures
            request@ == self@.request(),
            !request@.has_nul(),
    {
        Request::Read { fd: self.fd }
    }

    /// Goes on after bytes were fed to the digest: with the digest as it now
    /// stands, or to the failure that feeding gave.
    pub fn absorbed(fd: i32, fed: Result<Digester, StoreError>) -> (next: Step<Hashing, Address>)
        ensures
            match fed {
                Ok(digester) => next@ == StepView::<HashingView, Seq<char>>::Pending(
                    HashingView {
                        fd,
                        algorithm: digester.algorithm(),
                        consumed: digester.input(),
                    },
                ),
                Err(e) => next@ == StepView::<HashingView, Seq<char>>::Done(Err(e@)),
            },
    {
        match fed {
            Ok(digester) => Step::Pending(Hashing::begin(fd, digester)),
            Err(e) => Step::Done(Err(e)),
        }
    }

    /// Ends the hashing with what finishing the digest gave: the address of a
    /// digest, the digest failure for an empty one, or the failure it gave.
    pub fn concluded(digest: Result<Vec<u8>, StoreError>) -> (next: Step<Hashing, Address>)
        ensures
            match digest {
                Ok(bytes) => if bytes@.len() == 0 {
                    next@ == StepView::<HashingView, Seq<char>>::Done(Err(digest_failure()))
                } else {
                    next@ == StepView::<HashingView, Seq<char>>::Done(Ok(hex(bytes@)))
                },
                Err(e) => next@ == StepView::<HashingView, Seq<char>>::Done(Err(e@)),
            },
    {
        match digest {
            Ok(bytes) => match Address::from_digest(bytes.as_slice()) {
                Some(address) => Step::Done(Ok(address)),
                None => Step::Done(
                    Err(StoreError::new(ErrorKind::Other, "the digest could not be computed")),
                ),
            },
            Err(e) => Step::Done(Err(e)),
        }
    }

    /// Takes the reply to the request and goes on. Whether OpenSSL does its
    /// part is not known beforehand: the step is the one for either case.
    pub fn resume(self, reply: Reply) -> (next: Step<Hashing, Address>)
        ensures
            next@ == self@.resume(reply@, true) || next@ == self@.resume(reply@, false),
    {
        let cut_short = match &reply {
            Reply::Returned { value, errno } => *value == -1 && *errno == EINTR,
            Reply::Data(_) => false,
        };
        if cut_short {
            return Step::Pending(self);
        }
        let request = self.request();
        match request.data(reply) {
            Err(e) => Step::Done(Err(e)),
            Ok(bytes) => {
                if bytes.len() == 0 {
                    Hashing::concluded(self.digester.finish())
                } else {
                    Hashing::absorbed(self.fd, self.digester.feed(bytes.as_slice()))
                }
            },
        }
    }
}

/// The mathematical content of a [`Staging`].
pub enum StagingView {
    /// The pending object is being moved to its start.
    Rewind { fd: i32, algorithm: HashType },
    /// Its content is being hashed.
    Hash { hashing: HashingView },
    /// Its content is hashed: the object is being moved back to its start.
    Restore { staged: StagedView },
    /// Staging failed: the pending object is being closed.
    Closing { fd: i32, error: StoreErrorView },
}

impl StagingView {
    /// The primitive to perform next.
    pub open spec fn request(self) -> RequestView {
        match self {
            StagingView::Rewind { fd, .. } => RequestView::Rewind { fd },
            StagingView::Hash { hashing } => hashing.request(),
            StagingView::Restore { staged } => RequestView::Rewind { fd: staged.fd },
            StagingView::Closing { fd, .. } => RequestView::Close { fd },
        }
    }

    /// How the machine goes on when the hashing that stood at `hashing` is
    /// over: with an address, to moving the object back to its start; with a
    /// failure, to closing the object.
    pub open spec fn hashed(
        hashing: HashingView,
        outcome: Result<Seq<char>, StoreErrorView>,
    ) -> StepView<StagingView, StagedView> {
        match outcome {
            Ok(address) => StepView::Pending(
                StagingView::Restore {
                    staged: StagedView {
                        fd: hashing.fd,
                        address,
                        algorithm: hashing.algorithm,
                        content: hashing.consumed,
                    },
                },
            ),
            Err(e) => StepView::Pending(StagingView::Closing { fd: hashing.fd, error: e }),
        }
    }

    /// What the machine does with the reply to its request, where OpenSSL
    /// does its part (`digest_ok`) and where it does not.
    ///
    /// The object is moved to its start, read to its end, and moved back to
    /// its start. The staged object holds the address of all that was read,
    /// and stands at its first byte. Every failure closes the pending object
    /// first and is then handed on.
    pub open spec fn resume(self, reply: ReplyView, digest_ok: bool) -> StepView<
        StagingView,
        StagedView,
    > {
        match self {
            StagingView::Rewind { fd, algorithm } => match self.request().status(reply) {
                Err(e) => StepView::Pending(StagingView::Closing { fd, error: e }),
                Ok(_) => if digest_ok {
                    StepView::Pending(
                        StagingView::Hash { hashing: HashingView::begin(fd, algorithm) },
                    )
                } else {
                    StepView::Pending(StagingView::Closing { fd, error: digest_failure() })
                },
            },
            StagingView::Hash { hashing } => match hashing.resume(reply, digest_ok) {
                StepView::Pending(next) => StepView::Pending(StagingView::Hash { hashing: next }),
                StepView::Done(outcome) => StagingView::hashed(hashing, outcome),
            },
            StagingView::Restore { staged } => match self.request().status(reply) {
                Ok(_) => StepView::Done(Ok(staged)),
                Err(e) => StepView::Pending(StagingView::Closing { fd: staged.fd, error: e }),
            },
            StagingView::Closing { error, .. } => StepView::Done(Err(error)),
        }
    }
}

/// How the staging of the pending object `fd` under `algorithm` starts.
pub open spec fn stage_start(fd: i32, algorithm: HashType) -> StepView<StagingView, StagedView> {
    StepView::Pending(StagingView::Rewind { fd, algorithm })
}

enum StagingState {
    Rewind { fd: i32, algorithm: HashType },
    Hash { hashing: Hashing },
    Restore { staged: Staged },
    Closing { fd: i32, error: StoreError },
}

/// The staging of a pending object.
pub struct Staging {
    state: StagingState,
}

impl View for Staging {
    type V = StagingView;

    closed spec fn view(&self) -> StagingView {
        match self.state {
            StagingState::Rewind { fd, algorithm } => StagingView::Rewind { fd, algorithm },
            StagingState::Hash { hashing } => StagingView::Hash { hashing: hashing@ },
            StagingState::Restore { staged } => StagingView::Restore { staged: staged@ },
            StagingState::Closing { fd, error } => StagingView::Closing { fd, error: error@ },
        }
    }
}

impl Staging {
    /// The primitive to perform next.
    pub fn request(&self) -> (request: Request)
        ensures
            request@ == self@.request(),
            !request@.has_nul(),
    {
        match &self.state {
            StagingState::Rewind { fd, .. } => Request::Rewind { fd: *fd },
            StagingState::Hash { hashing } => hashing.request(),
            StagingState::Restore { staged } => Request::Rewind { fd: staged.fd() },
            StagingState::Closing { fd, .. } => Request::Close { fd: *fd },
        }
    }

    /// Goes on after the object was moved to its start, with what starting
    /// the digest gave: to the hashing, or to closing the object after the
    /// failure.
    pub fn started(fd: i32, made: Result<Digester, StoreError>) -> (next: Step<Staging, Staged>)
        ensures
            match made {
                Ok(digester) => next@ == StepView::<StagingView, StagedView>::Pending(
                    StagingView::Hash {
                        hashing: HashingView {
                            fd,
                            algorithm: digester.algorithm(),
                            consumed: digester.input(),
                        },
                    },
                ),
                Err(e) => next@ == StepView::<StagingView, StagedView>::Pending(
                    StagingView::Closing { fd, error: e@ },
                ),
            },
    {
        match made {
            Ok(digester) => Step::Pending(
                Staging { state: StagingState::Hash { hashing: Hashing::begin(fd, digester) } },
            ),
            Err(e) => Step::Pending(Staging { state: StagingState::Closing { fd, error: e } }),
        }
    }

    /// Takes the reply to the request and goes on. Whether OpenSSL does its
    /// part is not known beforehand: the step is the one for either case.
    pub fn resume(self, reply: Reply) -> (next: Step<Staging, Staged>)
        ensures
            next@ == self@.resume(reply@, true) || next@ == self@.resume(reply@, false),
    {
        let request = self.request();
        match self.state {
            StagingState::Rewind { fd, algorithm } => match request.status(&reply) {
                Err(e) => Step::Pending(Staging { state: StagingState::Closing { fd, error: e } }),
                Ok(_) => Staging::started(fd, Digester::new(algorithm)),
            },
            StagingState::Hash { hashing } => {
                let ghost before = hashing@;
                let fd = hashing.fd();
                match hashing.resume(reply) {
                    Step::Pending(hashing) => Step::Pending(
                        Staging { state: StagingState::Hash { hashing } },
                    ),
                    Step::Done(Ok(address)) => Step::Pending(
                        Staging {
                            state: StagingState::Restore {
                                staged: Staged::new(
                                    TempFile::new(fd),
                                    address,
                                    Ghost(before.algorithm),
                                    Ghost(before.consumed),
                                ),
                            },
                        },
                    ),
                    Step::Done(Err(e)) => Step::Pending(
                        Staging { state: StagingState::Closing { fd, error: e } },
                    ),
                }
            },
            StagingState::Restore { staged } => {
                let fd = staged.fd();
                match request.status(&reply) {
                    Ok(_) => Step::Done(Ok(staged)),
                    Err(e) => Step::Pending(
                        Staging { state: StagingState::Closing { fd, error: e } },
                    ),
                }
            },
            StagingState::Closing { error, .. } => Step::Done(Err(error)),
        }
    }
}

impl ContAddr {
    /// Sets out to stage `target`: its content, from the start to the end, is
    /// hashed under the digest of the store, and the object is left at its
    /// start. Nothing in the store changes.
    pub fn stage(&self, target: TempFile) -> (first: Step<Staging, Staged>)
        ensures
            first@ == stage_start(target@, self@.digest),
    {
        Step::Pending(
            Staging { state: StagingState::Rewind { fd: target.fd(), algorithm: self.digest() } },
        )
    }
}

} // verus!
