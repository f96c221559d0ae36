//! A content-addressable object store over a sharded directory.
//!
//! The store never touches the file system itself. Each operation is a small
//! state machine: it names the directory primitive to perform next (a
//! [`syscall::Request`]), and is resumed with what that primitive returned (a
//! [`syscall::Reply`]). The caller performs the primitives; every decision of
//! the staging and publishing protocol is taken, and verified, here.
//!
//! An object is written in three operations. [`ContAddr::create`] makes a
//! pending object: a file without a name. [`ContAddr::stage`] hashes what was
//! written into it, which fixes its address, and leaves it at its start.
//! [`ContAddr::commit`] links it
//! under its address, in the shard that the first two characters of the
//! address name; of all who commit the same content, the kernel lets one
//! win, and the others find the content present. [`ContAddr::read`] and
//! [`ContAddr::validate_read`] open an object by its address; the validated
//! reading hashes it again and removes it where it is corrupt.
//!
//! What the operations achieve is stated and proved in [`laws`] and [`race`],
//! against the ideal directory tree of [`model`].
pub mod address;
pub mod commit;
pub mod contaddr;
pub mod create;
pub mod digest;
pub mod error;
pub mod hex;
pub mod laws;
pub mod model;
pub mod protocol;
pub mod race;
pub mod read;
pub mod shard;
pub mod stage;
pub mod step;
pub mod syscall;

pub use address::Address;
pub use commit::Committing;
pub use contaddr::{ContAddr, FileHandle, Staged, TempFile};
pub use create::Creating;
pub use digest::{Digester, HashType};
pub use error::{Detail, ErrorKind, StoreError};
pub use read::{Reading, Validating};
pub use shard::{MakingShard, Opening};
pub use stage::{Hashing, Staging};
pub use step::Step;
pub use syscall::{Reply, Request};
