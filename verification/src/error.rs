//! The failures the store reports, and how operating system error numbers
//! become them.
use vstd::prelude::*;
use vstd::slice::slice_to_vec;
use vstd::string::*;

verus! {

/// The error number for a name that does not exist.
pub const ENOENT: i32 = 2;

/// The error number for a call that a signal cut short before it did anything.
pub const EINTR: i32 = 4;

/// The error number for a name that is already taken.
pub const EEXIST: i32 = 17;

/// The error number for a name that is taken by something other than a directory.
pub const ENOTDIR: i32 = 20;

/// What went wrong, as far as the store tells failures apart.
#[derive(Clone, Copy, Debug, PartialEq, Eq, Structural)]
pub enum ErrorKind {
    /// The root directory or the addressed object does not exist.
    NotFound,
    /// The name to be created is already taken.
    AlreadyExists,
    /// The address is too short to name a shard, a path holds a NUL character,
    /// or a reply does not answer the request it was given for.
    InvalidInput,
    /// The content of an object does not hash to the address it was read under.
    HashMismatch,
    /// Any other failure of the storage underneath or of the digest.
    Other,
}

/// What a failure carries beside its kind.
#[derive(Debug, PartialEq, Eq)]
pub enum Detail {
    /// The path the failed primitive was given.
    Path(String),
    /// The bytes of the path of the root, which need not be text.
    Root(Vec<u8>),
    /// A fixed description, or the path a publication was refused for.
    Message(String),
    /// The operating system's error number, passed on unchanged.
    Errno(i32),
}

/// The mathematical content of a [`Detail`].
pub enum DetailView {
    Path(Seq<char>),
    Root(Seq<u8>),
    Message(Seq<char>),
    Errno(i32),
}

impl View for Detail {
    type V = DetailView;

    open spec fn view(&self) -> DetailView {
        match self {
            Detail::Path(p) => DetailView::Path(p@),
            Detail::Root(p) => DetailView::Root(p@),
            Detail::Message(m) => DetailView::Message(m@),
            Detail::Errno(n) => DetailView::Errno(*n),
        }
    }
}

impl Clone for Detail {
    fn clone(&self) -> (copy: Self)
        ensures
            copy@ == self@,
    {
        match self {
            Detail::Path(p) => Detail::Path(p.clone()),
            Detail::Root(p) => Detail::Root(slice_to_vec(p.as_slice())),
            Detail::Message(m) => Detail::Message(m.clone()),
            Detail::Errno(n) => Detail::Errno(*n),
        }
    }
}

/// A failure of a store operation.
#[derive(Debug, PartialEq, Eq)]
pub struct StoreError {
    pub kind: ErrorKind,
    pub detail: Detail,
}

/// The mathematical content of a [`StoreError`].
pub struct StoreErrorView {
    pub kind: ErrorKind,
    pub detail: DetailView,
}

impl View for StoreError {
    type V = StoreErrorView;

    open spec fn view(&self) -> StoreErrorView {
        StoreErrorView { kind: self.kind, detail: self.detail@ }
    }
}

impl Clone for StoreError {
    fn clone(&self) -> (copy: Self)
        ensures
            copy@ == self@,
    {
        StoreError { kind: self.kind, detail: self.detail.clone() }
    }
}

/// A failure of the given kind with a fixed description.
pub open spec fn described(kind: ErrorKind, message: Seq<char>) -> StoreErrorView {
    StoreErrorView { kind, detail: DetailView::Message(message) }
}

/// The failure that passes an error number on unchanged.
pub open spec fn passed_on(errno: i32) -> StoreErrorView {
    StoreErrorView { kind: ErrorKind::Other, detail: DetailView::Errno(errno) }
}

/// What `last_error` makes of an error number.
pub open spec fn last_error_view(errno: i32) -> StoreErrorView {
    if errno == ENOENT {
        described(ErrorKind::NotFound, "File not found"@)
    } else if errno == EEXIST {
        described(ErrorKind::AlreadyExists, "File already exists"@)
    } else {
        passed_on(errno)
    }
}

/// What `last_error_wpath` makes of an error number and the path concerned.
pub open spec fn last_error_wpath_view(errno: i32, target: Seq<char>) -> StoreErrorView {
    if errno == ENOENT {
        StoreErrorView { kind: ErrorKind::NotFound, detail: DetailView::Path(target) }
    } else if errno == EEXIST {
        StoreErrorView { kind: ErrorKind::AlreadyExists, detail: DetailView::Path(target) }
    } else {
        passed_on(errno)
    }
}

/// What `last_error_wroot` makes of an error number and the path of the root.
pub open spec fn last_error_wroot_view(errno: i32, target: Seq<u8>) -> StoreErrorView {
    if errno == ENOENT {
        StoreErrorView { kind: ErrorKind::NotFound, detail: DetailView::Root(target) }
    } else if errno == EEXIST {
        StoreErrorView { kind: ErrorKind::AlreadyExists, detail: DetailView::Root(target) }
    } else {
        passed_on(errno)
    }
}

impl StoreError {
    /// A failure of the given kind with a fixed description.
    pub fn new(kind: ErrorKind, message: &str) -> (e: StoreError)
        ensures
            e@ == described(kind, message@),
    {
        StoreError { kind, detail: Detail::Message(String::from_str(message)) }
    }

    /// The failure that passes the error number `errno` on unchanged.
    pub fn from_errno(errno: i32) -> (e: StoreError)
        ensures
            e@ == passed_on(errno),
    {
        StoreError { kind: ErrorKind::Other, detail: Detail::Errno(errno) }
    }

    /// The error number this failure passes on, if it passes one on.
    pub fn errno(&self) -> (n: Option<i32>)
        ensures
            n == match self@.detail {
                DetailView::Errno(code) => Some(code),
                _ => None::<i32>,
            },
    {
        match &self.detail {
            Detail::Errno(code) => Some(*code),
            _ => None,
        }
    }
}

/// Names the failure behind the error number of a primitive that was given no
/// path worth reporting: a missing name and a taken name get their own kinds
/// and a fixed description, every other number is passed on unchanged.
pub fn last_error(errno: i32) -> (e: StoreError)
    ensures
        e@ == last_error_view(errno),
{
    if errno == ENOENT {
        StoreError::new(ErrorKind::NotFound, "File not found")
    } else if errno == EEXIST {
        StoreError::new(ErrorKind::AlreadyExists, "File already exists")
    } else {
        StoreError::from_errno(errno)
    }
}

/// Names the failure behind the error number of a primitive that was given the
/// path `target`: a missing name and a taken name get their own kinds and
/// carry the path, every other number is passed on unchanged.
pub fn last_error_wpath(errno: i32, target: &str) -> (e: StoreError)
    ensures
        e@ == last_error_wpath_view(errno, target@),
{
    if errno == ENOENT {
        StoreError { kind: ErrorKind::NotFound, detail: Detail::Path(String::from_str(target)) }
    } else if errno == EEXIST {
        StoreError {
            kind: ErrorKind::AlreadyExists,
            detail: Detail::Path(String::from_str(target)),
        }
    } else {
        StoreError::from_errno(errno)
    }
}

/// Names the failure behind the error number of a primitive that was given the
/// path `target` of the root, as `last_error_wpath` does for a path below it.
pub fn last_error_wroot(errno: i32, target: &[u8]) -> (e: StoreError)
    ensures
        e@ == last_error_wroot_view(errno, target@),
{
    if errno == ENOENT {
        StoreError { kind: ErrorKind::NotFound, detail: Detail::Root(slice_to_vec(target)) }
    } else if errno == EEXIST {
        StoreError { kind: ErrorKind::AlreadyExists, detail: Detail::Root(slice_to_vec(target)) }
    } else {
        StoreError::from_errno(errno)
    }
}

} // verus!
