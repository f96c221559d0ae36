//! An ideal directory tree, to say what the operations of the store achieve.
//!
//! The tree is a mathematical object. It answers each request the way a file
//! system does that never runs out of space and is used by nobody else. What
//! is proved of the store against it holds of the store on a file system as
//! far as that file system answers alike.
use crate::address::descriptor_path;
use crate::error::{EEXIST, ENOENT, ENOTDIR};
use crate::protocol::Protocol;
use crate::step::StepView;
use crate::syscall::{
    ReplyView, RequestView, AT_FDCWD, AT_SYMLINK_FOLLOW, DIRECTORY_FLAGS, O_RDONLY, PENDING_FLAGS,
};
use vstd::prelude::*;

verus! {

/// The error number for a descriptor that is not open, or not of the kind asked for.
pub const EBADF: i32 = 9;

/// The error number for arguments that make no sense.
pub const EINVAL: i32 = 22;

/// The error number for a process that has no descriptor left.
pub const EMFILE: i32 = 24;

/// A file with a name.
pub struct Object {
    pub content: Seq<u8>,
    pub mode: u32,
}

/// What an open descriptor stands for.
pub enum Descriptor {
    /// The root directory.
    Root,
    /// A shard directory.
    Shard,
    /// A file, named or not, with the position that the next read starts at.
    File { object: Object, position: int },
}

/// The root directory of a store with all that is below it, and the
/// descriptors of the process that uses it.
pub struct Disk {
    /// The path of the root directory, by its bytes.
    pub root: Seq<u8>,
    /// The directories below the root, by their paths relative to it.
    pub dirs: Set<Seq<char>>,
    /// The named files below the root, by their paths relative to it.
    pub files: Map<Seq<char>, Object>,
    /// The open descriptors.
    pub open: Map<i32, Descriptor>,
    /// How many bytes a read would like to give when so many are left.
    pub piece: spec_fn(int) -> int,
}

/// How many bytes a read gives when `left` are left: as many as it likes,
/// but at least one and at most all of them; none when none is left.
pub open spec fn given(piece: spec_fn(int) -> int, left: int) -> int {
    if left <= 0 {
        0
    } else if 1 <= piece(left) <= left {
        piece(left)
    } else {
        left
    }
}

/// The number of reads it takes to come to know that a file has ended when
/// `left` bytes are left: the last of them gives no bytes.
pub open spec fn reads(piece: spec_fn(int) -> int, left: int) -> nat
    decreases left,
{
    if left <= 0 {
        1
    } else {
        1 + reads(piece, left - given(piece, left))
    }
}

/// Whether a descriptor is left beside those in `taken`.
pub open spec fn some_free(taken: Set<i32>) -> bool {
    exists|fd: i32| 0 <= fd && !taken.contains(fd)
}

/// The descriptor that is handed out next when those in `taken` are open.
pub open spec fn fresh(taken: Set<i32>) -> i32 {
    choose|fd: i32| 0 <= fd && !taken.contains(fd)
}

/// Whether `count` descriptors can be handed out, one after the other,
/// beside those in `taken`.
pub open spec fn room(taken: Set<i32>, count: nat) -> bool
    decreases count,
{
    count == 0 || (some_free(taken) && room(taken.insert(fresh(taken)), (count - 1) as nat))
}

/// The reply of a primitive that succeeded with `value`.
pub open spec fn returned(value: i32) -> ReplyView {
    ReplyView::Returned { value, errno: 0 }
}

/// The reply of a primitive that failed with `errno`.
pub open spec fn failed(errno: i32) -> ReplyView {
    ReplyView::Returned { value: -1i32, errno }
}

/// The directory that a path names a file in: all of the path before the
/// name, which follows the last of its first five characters.
pub open spec fn parent(path: Seq<char>) -> Seq<char> {
    path.take(4)
}

impl Disk {
    /// No name is that of a directory and of a file at once.
    pub open spec fn wf(self) -> bool {
        forall|path: Seq<char>| !(self.dirs.contains(path) && self.files.contains_key(path))
    }

    /// Whether `path` names something below the root.
    pub open spec fn taken(self, path: Seq<char>) -> bool {
        self.dirs.contains(path) || self.files.contains_key(path)
    }

    /// Whether `fd` is open on the root directory.
    pub open spec fn is_root(self, fd: i32) -> bool {
        self.open.contains_key(fd) && self.open[fd] is Root
    }

    /// Whether `fd` is open on a file.
    pub open spec fn is_file(self, fd: i32) -> bool {
        self.open.contains_key(fd) && self.open[fd] is File
    }

    /// Whether `count` descriptors can be handed out, one after the other.
    pub open spec fn has_room(self, count: nat) -> bool {
        room(self.open.dom(), count)
    }

    /// The descriptor that is handed out next. A descriptor that was closed
    /// may be handed out again.
    pub open spec fn next(self) -> i32 {
        fresh(self.open.dom())
    }

    /// The tree with the next descriptor open on `what`.
    pub open spec fn with_open(self, what: Descriptor) -> Disk {
        Disk { open: self.open.insert(self.next(), what), ..self }
    }

    /// The tree with a new descriptor for `what`, and the reply that hands
    /// the descriptor out; where none is left, the failure.
    pub open spec fn hand_out(self, what: Descriptor) -> (Disk, ReplyView) {
        if some_free(self.open.dom()) {
            (self.with_open(what), returned(self.next()))
        } else {
            (self, failed(EMFILE))
        }
    }

    /// The open descriptor that the kernel shows under `path`, if there is one.
    pub open spec fn shown_under(self, path: Seq<char>) -> Option<i32> {
        if exists|fd: i32| self.open.contains_key(fd) && descriptor_path(fd as int) == path {
            Some(choose|fd: i32| self.open.contains_key(fd) && descriptor_path(fd as int) == path)
        } else {
            None
        }
    }

    /// The tree after the caller wrote `bytes` through `fd`, at the end of
    /// what the file holds.
    pub open spec fn write(self, fd: i32, bytes: Seq<u8>) -> Disk {
        if self.is_file(fd) {
            let object = self.open[fd]->object;
            Disk {
                open: self.open.insert(
                    fd,
                    Descriptor::File {
                        object: Object { content: object.content + bytes, ..object },
                        position: (object.content.len() + bytes.len()) as int,
                    },
                ),
                ..self
            }
        } else {
            self
        }
    }

    /// The tree with the file that `fd` is open on at the given position.
    pub open spec fn at_position(self, fd: i32, position: int) -> Disk {
        Disk {
            open: self.open.insert(
                fd,
                Descriptor::File { object: self.open[fd]->object, position },
            ),
            ..self
        }
    }

    /// The tree after `request` was performed, and the reply to it.
    pub open spec fn serve(self, request: RequestView) -> (Disk, ReplyView) {
        match request {
            RequestView::Open { path, flags, .. } => if path == self.root && flags
                == DIRECTORY_FLAGS {
                self.hand_out(Descriptor::Root)
            } else {
                (self, failed(ENOENT))
            },
            RequestView::MkdirAt { dirfd, path, .. } => if !self.is_root(dirfd) {
                (self, failed(EBADF))
            } else if self.taken(path) {
                (self, failed(EEXIST))
            } else {
                (Disk { dirs: self.dirs.insert(path), ..self }, returned(0))
            },
            RequestView::OpenAt { dirfd, path, flags, .. } => if !self.is_root(dirfd) {
                (self, failed(EBADF))
            } else if flags == PENDING_FLAGS {
                self.hand_out(
                    Descriptor::File {
                        object: Object { content: Seq::<u8>::empty(), mode: 0 },
                        position: 0,
                    },
                )
            } else if flags == DIRECTORY_FLAGS {
                if self.dirs.contains(path) {
                    self.hand_out(Descriptor::Shard)
                } else if self.files.contains_key(path) {
                    (self, failed(ENOTDIR))
                } else {
                    (self, failed(ENOENT))
                }
            } else if flags == O_RDONLY {
                if self.files.contains_key(path) {
                    self.hand_out(Descriptor::File { object: self.files[path], position: 0 })
                } else {
                    (self, failed(ENOENT))
                }
            } else {
                (self, failed(EINVAL))
            },
            RequestView::LinkAt { olddirfd, oldpath, newdirfd, newpath, flags } => if olddirfd
                != AT_FDCWD || flags != AT_SYMLINK_FOLLOW {
                (self, failed(EINVAL))
            } else if !self.is_root(newdirfd) {
                (self, failed(EBADF))
            } else {
                match self.shown_under(oldpath) {
                    Some(fd) => if !(self.open[fd] is File) {
                        (self, failed(EINVAL))
                    } else if self.taken(newpath) {
                        (self, failed(EEXIST))
                    } else if !self.dirs.contains(parent(newpath)) {
                        (self, failed(ENOENT))
                    } else {
                        (
                            Disk {
                                files: self.files.insert(newpath, self.open[fd]->object),
                                ..self
                            },
                            returned(0),
                        )
                    },
                    None => (self, failed(ENOENT)),
                }
            },
            RequestView::UnlinkAt { dirfd, path, .. } => if !self.is_root(dirfd) {
                (self, failed(EBADF))
            } else if self.files.contains_key(path) {
                (Disk { files: self.files.remove(path), ..self }, returned(0))
            } else {
                (self, failed(ENOENT))
            },
            RequestView::Fchmod { fd, mode } => if self.is_file(fd) {
                let object = self.open[fd]->object;
                let position = self.open[fd]->position;
                (
                    Disk {
                        open: self.open.insert(
                            fd,
                            Descriptor::File { object: Object { mode, ..object }, position },
                        ),
                        ..self
                    },
                    returned(0),
                )
            } else {
                (self, failed(EBADF))
            },
            RequestView::Rewind { fd } => if self.is_file(fd) {
                (self.at_position(fd, 0), returned(0))
            } else {
                (self, failed(EBADF))
            },
            RequestView::Read { fd } => if self.is_file(fd) {
                let object = self.open[fd]->object;
                let position = self.open[fd]->position;
                let end = position + given(self.piece, object.content.len() - position);
                (self.at_position(fd, end), ReplyView::Data(object.content.subrange(position, end)))
            } else {
                (self, failed(EBADF))
            },
            RequestView::Close { fd } => if self.open.contains_key(fd) {
                (Disk { open: self.open.remove(fd), ..self }, returned(0))
            } else {
                (self, failed(EBADF))
            },
        }
    }

    /// The content of the file that `fd` is open on.
    pub open spec fn content_of(self, fd: i32) -> Seq<u8> {
        self.open[fd]->object.content
    }
}

/// The tree and the operation after the operation was run against the tree
/// for at most `fuel` requests.
pub open spec fn run<M: Protocol>(disk: Disk, step: StepView<M, M::Output>, fuel: nat) -> (
    Disk,
    StepView<M, M::Output>,
)
    decreases fuel,
{
    match step {
        StepView::Done(_) => (disk, step),
        StepView::Pending(machine) => if fuel == 0 {
            (disk, step)
        } else {
            let (served, reply) = disk.serve(machine.asks());
            run(served, machine.takes(reply), (fuel - 1) as nat)
        },
    }
}

} // verus!
