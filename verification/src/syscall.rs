//! The directory primitives the store asks its caller to perform, and the
//! meaning of what they return.
//!
//! A [`Request`] names one primitive with its arguments; the caller performs
//! it and hands back a [`Reply`] with the raw return value. Paths are checked
//! for NUL characters before a request is made, and return values are turned
//! into results here, so that the caller decides nothing.
use crate::address::{has_nul, has_nul_byte};
use crate::error::{
    described, last_error, last_error_view, last_error_wpath, last_error_wpath_view,
    last_error_wroot, last_error_wroot_view, passed_on, ErrorKind, StoreError, StoreErrorView,
};
use vstd::prelude::*;
use vstd::string::*;

verus! {

/// In place of a directory descriptor: paths are taken as they stand.
pub const AT_FDCWD: i32 = -100;

/// Link what a symbolic link points at, not the link.
pub const AT_SYMLINK_FOLLOW: i32 = 0o2000;

/// Open for reading.
pub const O_RDONLY: i32 = 0;

/// Open for reading and writing.
pub const O_RDWR: i32 = 2;

/// Fail unless the path names a directory.
pub const O_DIRECTORY: i32 = 0o200000;

/// Close the descriptor when the process runs another program.
pub const O_CLOEXEC: i32 = 0o2000000;

/// Make an unnamed file in the directory the path names.
pub const O_TMPFILE: i32 = 0o20200000;

/// The flags the root directory is opened with, and those an existing shard is
/// probed with: the descriptor is not inherited, and only a directory will do.
pub const DIRECTORY_FLAGS: i32 = 0o2200000;

/// The flags a pending object is made with: an unnamed file, open for reading
/// and writing, whose descriptor is not inherited.
pub const PENDING_FLAGS: i32 = 0o22200002;

/// The mode of a shard directory: all rights for the owner, none for others.
pub const SHARD_MODE: u32 = 0o700;

/// The mode of a published object: the owner reads and writes, others read.
pub const OBJECT_MODE: u32 = 0o644;

/// The combined flags are the single flags taken together.
pub proof fn lemma_combined_flags()
    ensures
        DIRECTORY_FLAGS == O_CLOEXEC | O_DIRECTORY | O_RDONLY,
        PENDING_FLAGS == O_CLOEXEC | O_TMPFILE | O_RDWR,
{
    assert(0o2200000i32 == 0o2000000i32 | 0o200000i32 | 0i32) by (bit_vector);
    assert(0o22200002i32 == 0o2000000i32 | 0o20200000i32 | 2i32) by (bit_vector);
}

/// One directory primitive, with its arguments.
#[derive(Debug, PartialEq, Eq)]
pub enum Request {
    /// `open(path, flags, mode)`: returns a descriptor. The path is that of
    /// the root, given by its bytes: it need not be text.
    Open { path: Vec<u8>, flags: i32, mode: u32 },
    /// `mkdirat(dirfd, path, mode)`.
    MkdirAt { dirfd: i32, path: String, mode: u32 },
    /// `openat(dirfd, path, flags, mode)`: returns a descriptor.
    OpenAt { dirfd: i32, path: String, flags: i32, mode: u32 },
    /// `linkat(olddirfd, oldpath, newdirfd, newpath, flags)`.
    LinkAt { olddirfd: i32, oldpath: String, newdirfd: i32, newpath: String, flags: i32 },
    /// `unlinkat(dirfd, path, flags)`.
    UnlinkAt { dirfd: i32, path: String, flags: i32 },
    /// `fchmod(fd, mode)`.
    Fchmod { fd: i32, mode: u32 },
    /// Move the position of `fd` to the start of the file.
    Rewind { fd: i32 },
    /// Read the next bytes of `fd`, at least one unless the file has ended.
    Read { fd: i32 },
    /// `close(fd)`.
    Close { fd: i32 },
}

/// The mathematical content of a [`Request`].
pub enum RequestView {
    Open { path: Seq<u8>, flags: i32, mode: u32 },
    MkdirAt { dirfd: i32, path: Seq<char>, mode: u32 },
    OpenAt { dirfd: i32, path: Seq<char>, flags: i32, mode: u32 },
    LinkAt { olddirfd: i32, oldpath: Seq<char>, newdirfd: i32, newpath: Seq<char>, flags: i32 },
    UnlinkAt { dirfd: i32, path: Seq<char>, flags: i32 },
    Fchmod { fd: i32, mode: u32 },
    Rewind { fd: i32 },
    Read { fd: i32 },
    Close { fd: i32 },
}

impl View for Request {
    type V = RequestView;

    open spec fn view(&self) -> RequestView {
        match self {
            Request::Open { path, flags, mode } => RequestView::Open {
                path: path@,
                flags: *flags,
                mode: *mode,
            },
            Request::MkdirAt { dirfd, path, mode } => RequestView::MkdirAt {
                dirfd: *dirfd,
                path: path@,
                mode: *mode,
            },
            Request::OpenAt { dirfd, path, flags, mode } => RequestView::OpenAt {
                dirfd: *dirfd,
                path: path@,
                flags: *flags,
                mode: *mode,
            },
            Request::LinkAt { olddirfd, oldpath, newdirfd, newpath, flags } => RequestView::LinkAt {
                olddirfd: *olddirfd,
                oldpath: oldpath@,
                newdirfd: *newdirfd,
                newpath: newpath@,
                flags: *flags,
            },
            Request::UnlinkAt { dirfd, path, flags } => RequestView::UnlinkAt {
                dirfd: *dirfd,
                path: path@,
                flags: *flags,
            },
            Request::Fchmod { fd, mode } => RequestView::Fchmod { fd: *fd, mode: *mode },
            Request::Rewind { fd } => RequestView::Rewind { fd: *fd },
            Request::Read { fd } => RequestView::Read { fd: *fd },
            Request::Close { fd } => RequestView::Close { fd: *fd },
        }
    }
}

/// What a primitive handed back.
#[derive(Debug, PartialEq, Eq)]
pub enum Reply {
    /// The primitive returned `value`. Where that is -1 it failed, and `errno`
    /// is the error number it left; otherwise `errno` means nothing.
    Returned { value: i32, errno: i32 },
    /// The bytes a read gave; none of them where the file has ended.
    Data(Vec<u8>),
}

/// The mathematical content of a [`Reply`].
pub enum ReplyView {
    Returned { value: i32, errno: i32 },
    Data(Seq<u8>),
}

impl View for Reply {
    type V = ReplyView;

    open spec fn view(&self) -> ReplyView {
        match self {
            Reply::Returned { value, errno } => ReplyView::Returned {
                value: *value,
                errno: *errno,
            },
            Reply::Data(bytes) => ReplyView::Data(bytes@),
        }
    }
}

/// The failure reported for a path that holds a NUL character.
pub open spec fn nul_in_path() -> StoreErrorView {
    described(ErrorKind::InvalidInput, "path contained a null"@)
}

/// The failure reported for a reply that cannot answer the request it was
/// given for: bytes where a return value is due, or a return value other than
/// -1 where bytes are due.
pub open spec fn unexpected_reply() -> StoreErrorView {
    described(ErrorKind::InvalidInput, "the reply does not answer the request"@)
}

impl RequestView {
    /// Whether a path of this request holds a NUL character.
    pub open spec fn has_nul(self) -> bool {
        match self {
            RequestView::Open { path, .. } => has_nul_byte(path),
            RequestView::MkdirAt { path, .. } => has_nul(path),
            RequestView::OpenAt { path, .. } => has_nul(path),
            RequestView::UnlinkAt { path, .. } => has_nul(path),
            RequestView::LinkAt { oldpath, newpath, .. } => has_nul(oldpath) || has_nul(newpath),
            RequestView::Fchmod { .. } => false,
            RequestView::Rewind { .. } => false,
            RequestView::Read { .. } => false,
            RequestView::Close { .. } => false,
        }
    }

    /// What a failure of this primitive with error number `errno` is reported
    /// as. The primitives that are given one path report it with a missing or
    /// a taken name; linking and changing the mode report those two with a
    /// fixed description; the others pass every number on.
    pub open spec fn failure(self, errno: i32) -> StoreErrorView {
        match self {
            RequestView::Open { path, .. } => last_error_wroot_view(errno, path),
            RequestView::MkdirAt { path, .. } => last_error_wpath_view(errno, path),
            RequestView::OpenAt { path, .. } => last_error_wpath_view(errno, path),
            RequestView::UnlinkAt { path, .. } => last_error_wpath_view(errno, path),
            RequestView::LinkAt { .. } => last_error_view(errno),
            RequestView::Fchmod { .. } => last_error_view(errno),
            RequestView::Rewind { .. } => passed_on(errno),
            RequestView::Read { .. } => passed_on(errno),
            RequestView::Close { .. } => passed_on(errno),
        }
    }

    /// The meaning of `reply` where the primitive returns a number: -1 is its
    /// failure, every other value is handed on.
    pub open spec fn status(self, reply: ReplyView) -> Result<i32, StoreErrorView> {
        match reply {
            ReplyView::Returned { value, errno } => if value == -1 {
                Err(self.failure(errno))
            } else {
                Ok(value)
            },
            ReplyView::Data(_) => Err(unexpected_reply()),
        }
    }

    /// The meaning of `reply` where the primitive reads: the bytes, or its
    /// failure where it returned -1.
    pub open spec fn data(self, reply: ReplyView) -> Result<Seq<u8>, StoreErrorView> {
        match reply {
            ReplyView::Data(bytes) => Ok(bytes),
            ReplyView::Returned { value, errno } => if value == -1 {
                Err(self.failure(errno))
            } else {
                Err(unexpected_reply())
            },
        }
    }
}

impl Request {
    /// What a failure of this primitive with error number `errno` is reported as.
    pub fn failure(&self, errno: i32) -> (e: StoreError)
        ensures
            e@ == self@.failure(errno),
    {
        match self {
            Request::Open { path, .. } => last_error_wroot(errno, path.as_slice()),
            Request::MkdirAt { path, .. } => last_error_wpath(errno, path.as_str()),
            Request::OpenAt { path, .. } => last_error_wpath(errno, path.as_str()),
            Request::UnlinkAt { path, .. } => last_error_wpath(errno, path.as_str()),
            Request::LinkAt { .. } => last_error(errno),
            Request::Fchmod { .. } => last_error(errno),
            Request::Rewind { .. } => StoreError::from_errno(errno),
            Request::Read { .. } => StoreError::from_errno(errno),
            Request::Close { .. } => StoreError::from_errno(errno),
        }
    }

    /// The meaning of `reply` where this primitive returns a number.
    pub fn status(&self, reply: &Reply) -> (r: Result<i32, StoreError>)
        ensures
            match (r, self@.status(reply@)) {
                (Ok(value), Ok(expected)) => value == expected,
                (Err(e), Err(expected)) => e@ == expected,
                _ => false,
            },
    {
        match reply {
            Reply::Returned { value, errno } => {
                if *value == -1 {
                    Err(self.failure(*errno))
                } else {
                    Ok(*value)
                }
            },
            Reply::Data(_) => Err(
                StoreError::new(ErrorKind::InvalidInput, "the reply does not answer the request"),
            ),
        }
    }

    /// The meaning of `reply` where this primitive reads.
    pub fn data(&self, reply: Reply) -> (r: Result<Vec<u8>, StoreError>)
        ensures
            match (r, self@.data(reply@)) {
                (Ok(bytes), Ok(expected)) => bytes@ == expected,
                (Err(e), Err(expected)) => e@ == expected,
                _ => false,
            },
    {
        match reply {
            Reply::Data(bytes) => Ok(bytes),
            Reply::Returned { value, errno } => {
                if value == -1 {
                    Err(self.failure(errno))
                } else {
                    Err(
                        StoreError::new(
                            ErrorKind::InvalidInput,
                            "the reply does not answer the request",
                        ),
                    )
                }
            },
        }
    }
}

/// Whether `path` holds a NUL character.
fn holds_nul(path: &str) -> (found: bool)
    ensures
        found == has_nul(path@),
{
    let mut found = false;
    for c in it: path.chars()
        invariant
            it.seq() == path@,
            found == has_nul(path@.take(it.index())),
    {
        proof {
            let seen = path@.take(it.index());
            let next = path@.take(it.index() + 1);
            assert(next =~= seen.push(c));
            if has_nul(seen) {
                let k = choose|k: int| 0 <= k < seen.len() && seen[k] == '\0';
                assert(next[k] == '\0');
            }
            if c == '\0' {
                assert(next[seen.len() as int] == '\0');
            }
            if has_nul(next) {
                let k = choose|k: int| 0 <= k < next.len() && next[k] == '\0';
                if k < seen.len() {
                    assert(seen[k] == '\0');
                }
            }
        }
        if c == '\0' {
            found = true;
        }
    }
    assert(path@.take(path@.len() as int) =~= path@);
    found
}

/// Checks that `path` can be handed to the kernel: it fails, with a path that
/// holds a NUL character, before any primitive is asked for.
pub fn cstr(path: &str) -> (r: Result<(), StoreError>)
    ensures
        match r {
            Ok(_) => !has_nul(path@),
            Err(e) => has_nul(path@) && e@ == nul_in_path(),
        },
{
    if holds_nul(path) {
        Err(StoreError::new(ErrorKind::InvalidInput, "path contained a null"))
    } else {
        Ok(())
    }
}

/// Whether the bytes of `path` hold a NUL byte.
fn holds_nul_byte(path: &[u8]) -> (found: bool)
    ensures
        found == has_nul_byte(path@),
{
    let mut i: usize = 0;
    while i < path.len()
        invariant
            i <= path.len(),
            forall|k: int| 0 <= k < i ==> path@[k] != 0u8,
        decreases path.len() - i,
    {
        if path[i] == 0 {
            return true;
        }
        i += 1;
    }
    false
}

/// Checks that the path of a root, given by its bytes, can be handed to the
/// kernel: it fails, with a path that holds a NUL byte, before any primitive
/// is asked for.
pub fn cstr_bytes(path: &[u8]) -> (r: Result<(), StoreError>)
    ensures
        match r {
            Ok(_) => !has_nul_byte(path@),
            Err(e) => has_nul_byte(path@) && e@ == nul_in_path(),
        },
{
    if holds_nul_byte(path) {
        Err(StoreError::new(ErrorKind::InvalidInput, "path contained a null"))
    } else {
        Ok(())
    }
}

} // verus!
