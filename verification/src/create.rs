//! Making a pending object.
use crate::contaddr::{ContAddr, TempFile};
use crate::step::{Step, StepView};
use crate::syscall::{Reply, ReplyView, Request, RequestView, PENDING_FLAGS};
use vstd::prelude::*;
use vstd::string::*;

verus! {

/// The mathematical content of a [`Creating`].
pub struct CreatingView {
    /// The descriptor of the root.
    pub dir: i32,
}

impl CreatingView {
    /// The primitive to perform: an unnamed file is made in the root itself.
    pub open spec fn request(self) -> RequestView {
        RequestView::OpenAt { dirfd: self.dir, path: seq!['.'], flags: PENDING_FLAGS, mode: 0 }
    }

    /// What the machine does with the reply: the descriptor that came back is
    /// the pending object, a failure is handed on.
    pub open spec fn resume(self, reply: ReplyView) -> StepView<CreatingView, i32> {
        match self.request().status(reply) {
            Ok(fd) => StepView::Done(Ok(fd)),
            Err(e) => StepView::Done(Err(e)),
        }
    }
}

/// How the making of a pending object starts.
pub open spec fn create_start(dir: i32) -> StepView<CreatingView, i32> {
    StepView::Pending(CreatingView { dir })
}

/// The making of a pending object.
pub struct Creating {
    dir: i32,
}

impl View for Creating {
    type V = CreatingView;

    closed spec fn view(&self) -> CreatingView {
        CreatingView { dir: self.dir }
    }
}

impl Creating {
    /// The primitive to perform. Its path holds no NUL character.
    pub fn request(&self) -> (request: Request)
        ensures
            request@ == self@.request(),
            !request@.has_nul(),
    {
        proof {
            reveal_strlit(".");
        }
        let path = String::from_str(".");
        assert(path@ =~= seq!['.']);
        assert(!crate::address::has_nul(path@)) by {
            assert forall|i: int| 0 <= i < path@.len() implies path@[i] != '\0' by {}
        }
        Request::OpenAt { dirfd: self.dir, path, flags: PENDING_FLAGS, mode: 0 }
    }

    /// Takes the reply to the request and ends the operation.
    pub fn resume(self, reply: Reply) -> (next: Step<Creating, TempFile>)
        ensures
            next@ == self@.resume(reply@),
    {
        let request = self.request();
        match request.status(&reply) {
            Ok(fd) => Step::Done(Ok(TempFile::new(fd))),
            Err(e) => Step::Done(Err(e)),
        }
    }
}

impl ContAddr {
    /// Sets out to make a pending object: a file without a name, which no
    /// directory shows until it is committed.
    pub fn create(&self) -> (first: Step<Creating, TempFile>)
        ensures
            first@ == create_start(self@.dir),
    {
        Step::Pending(Creating { dir: self.dir() })
    }
}

} // verus!
