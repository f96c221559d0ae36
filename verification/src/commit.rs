//! Committing: a staged object gets its name, at once and for good.
use crate::address::{
    descriptor_path, descriptor_path_of, is_address_text, lemma_descriptor_path_has_no_nul,
    object_path, Address,
};
use crate::contaddr::{ContAddr, Staged};
use crate::error::{described, Detail, ErrorKind, StoreError, StoreErrorView};
use crate::step::{Step, StepView};
use crate::syscall::{
    Reply, ReplyView, Request, RequestView, AT_FDCWD, AT_SYMLINK_FOLLOW, OBJECT_MODE,
};
use vstd::prelude::*;

verus! {

/// The failure reported where the address is taken already. It carries the
/// path the object was to get.
pub open spec fn already_present(address: Seq<char>) -> StoreErrorView {
    described(ErrorKind::AlreadyExists, object_path(address))
}

/// The mathematical content of a [`Committing`].
pub enum CommittingView {
    /// The mode of the pending object is being set.
    Chmod { dir: i32, fd: i32, address: Seq<char> },
    /// The pending object is being linked under its address.
    Link { dir: i32, fd: i32, address: Seq<char> },
    /// The outcome stands: the pending object is being closed.
    Closing { fd: i32, outcome: Result<Seq<char>, StoreErrorView> },
}

impl CommittingView {
    /// The address is one.
    pub open spec fn wf(self) -> bool {
        match self {
            CommittingView::Chmod { address, .. } => is_address_text(address),
            CommittingView::Link { address, .. } => is_address_text(address),
            CommittingView::Closing { .. } => true,
        }
    }

    /// The primitive to perform next. The link is made from the path under
    /// which the kernel shows the descriptor of the pending object, following
    /// it to the file, to the path of the address below the root.
    pub open spec fn request(self) -> RequestView {
        match self {
            CommittingView::Chmod { fd, .. } => RequestView::Fchmod { fd, mode: OBJECT_MODE },
            CommittingView::Link { dir, fd, address } => RequestView::LinkAt {
                olddirfd: AT_FDCWD,
                oldpath: descriptor_path(fd as int),
                newdirfd: dir,
                newpath: object_path(address),
                flags: AT_SYMLINK_FOLLOW,
            },
            CommittingView::Closing { fd, .. } => RequestView::Close { fd },
        }
    }

    /// What the machine does with the reply to its request.
    ///
    /// The mode is set before the link is made, so that the name never shows
    /// a file with another mode. A link that was made gives the address; one
    /// that was refused because the name exists gives the failure that
    /// carries the path; every other failure is handed on. Whatever the
    /// outcome is, the pending object is closed before it is handed out.
    pub open spec fn resume(self, reply: ReplyView) -> StepView<CommittingView, Seq<char>> {
        match self {
            CommittingView::Chmod { dir, fd, address } => match self.request().status(reply) {
                Ok(_) => StepView::Pending(CommittingView::Link { dir, fd, address }),
                Err(e) => StepView::Pending(CommittingView::Closing { fd, outcome: Err(e) }),
            },
            CommittingView::Link { fd, address, .. } => match self.request().status(reply) {
                Ok(_) => StepView::Pending(CommittingView::Closing { fd, outcome: Ok(address) }),
                Err(e) => if e.kind == ErrorKind::AlreadyExists {
                    StepView::Pending(
                        CommittingView::Closing { fd, outcome: Err(already_present(address)) },
                    )
                } else {
                    StepView::Pending(CommittingView::Closing { fd, outcome: Err(e) })
                },
            },
            CommittingView::Closing { outcome, .. } => StepView::Done(outcome),
        }
    }
}

/// How the committing of the object `fd`, staged with `address`, starts.
pub open spec fn commit_start(dir: i32, fd: i32, address: Seq<char>) -> StepView<
    CommittingView,
    Seq<char>,
> {
    StepView::Pending(CommittingView::Chmod { dir, fd, address })
}

enum CommittingState {
    Chmod { dir: i32, fd: i32, address: Address },
    Link { dir: i32, fd: i32, address: Address },
    Closing { fd: i32, outcome: Result<Address, StoreError> },
}

/// The committing of a staged object.
pub struct Committing {
    state: CommittingState,
}

impl View for Committing {
    type V = CommittingView;

    closed spec fn view(&self) -> CommittingView {
        match self.state {
            CommittingState::Chmod { dir, fd, address } => CommittingView::Chmod {
                dir,
                fd,
                address: address@,
            },
            CommittingState::Link { dir, fd, address } => CommittingView::Link {
                dir,
                fd,
                address: address@,
            },
            CommittingState::Closing { fd, outcome } => CommittingView::Closing {
                fd,
                outcome: match outcome {
                    Ok(address) => Ok(address@),
                    Err(e) => Err(e@),
                },
            },
        }
    }
}

impl Committing {
    #[verifier::type_invariant]
    spec fn well_formed(self) -> bool {
        self@.wf()
    }

    /// The primitive to perform next. Its paths hold no NUL character.
    pub fn request(&self) -> (request: Request)
        ensures
            request@ == self@.request(),
            !request@.has_nul(),
            self@.wf(),
    {
        proof {
            use_type_invariant(self);
        }
        match &self.state {
            CommittingState::Chmod { fd, .. } => Request::Fchmod { fd: *fd, mode: OBJECT_MODE },
            CommittingState::Link { dir, fd, address } => {
                proof {
                    lemma_descriptor_path_has_no_nul(*fd as int);
                }
                Request::LinkAt {
                    olddirfd: AT_FDCWD,
                    oldpath: descriptor_path_of(*fd),
                    newdirfd: *dir,
                    newpath: address.object_path(),
                    flags: AT_SYMLINK_FOLLOW,
                }
            },
            CommittingState::Closing { fd, .. } => Request::Close { fd: *fd },
        }
    }

    /// Takes the reply to the request and goes on.
    pub fn resume(self, reply: Reply) -> (next: Step<Committing, Address>)
        ensures
            next@ == self@.resume(reply@),
    {
        let request = self.request();
        match self.state {
            CommittingState::Chmod { dir, fd, address } => match request.status(&reply) {
                Ok(_) => Step::Pending(
                    Committing { state: CommittingState::Link { dir, fd, address } },
                ),
                Err(e) => Step::Pending(
                    Committing { state: CommittingState::Closing { fd, outcome: Err(e) } },
                ),
            },
            CommittingState::Link { dir, fd, address } => match request.status(&reply) {
                Ok(_) => Step::Pending(
                    Committing { state: CommittingState::Closing { fd, outcome: Ok(address) } },
                ),
                Err(e) => {
                    if e.kind == ErrorKind::AlreadyExists {
                        let target = address.object_path();
                        let present = StoreError {
                            kind: ErrorKind::AlreadyExists,
                            detail: Detail::Message(target),
                        };
                        Step::Pending(
                            Committing {
                                state: CommittingState::Closing { fd, outcome: Err(present) },
                            },
                        )
                    } else {
                        Step::Pending(
                            Committing { state: CommittingState::Closing { fd, outcome: Err(e) } },
                        )
                    }
                },
            },
            CommittingState::Closing { outcome, .. } => Step::Done(outcome),
        }
    }
}

impl ContAddr {
    /// Sets out to commit `staged`: to make it visible, under its address, in
    /// the shard its address belongs to.
    pub fn commit(&self, staged: Staged) -> (first: Step<Committing, Address>)
        ensures
            first@ == commit_start(self@.dir, staged@.fd, staged@.address),
            is_address_text(staged@.address),
    {
        let dir = self.dir();
        let (tmpfile, address) = staged.into_parts();
        Step::Pending(
            Committing { state: CommittingState::Chmod { dir, fd: tmpfile.fd(), address } },
        )
    }
}

} // verus!
