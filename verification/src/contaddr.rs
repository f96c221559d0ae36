//! The store and the objects it hands out.
use crate::address::{is_address_text, Address};
use crate::digest::{digest_of, HashType};
use crate::hex::hex;
use crate::syscall::{Request, RequestView};
use vstd::prelude::*;

verus! {

/// An open store: the descriptor of its root directory, and the digest that
/// names its objects. It is made by opening a root, and gives its descriptor
/// up once, when it is closed.
#[derive(Debug, PartialEq, Eq)]
pub struct ContAddr {
    dir: i32,
    digest: HashType,
}

/// The mathematical content of a [`ContAddr`].
pub struct ContAddrView {
    pub dir: i32,
    pub digest: HashType,
}

impl View for ContAddr {
    type V = ContAddrView;

    closed spec fn view(&self) -> ContAddrView {
        ContAddrView { dir: self.dir, digest: self.digest }
    }
}

impl ContAddr {
    pub(crate) fn new(dir: i32, digest: HashType) -> (store: ContAddr)
        ensures
            store@ == (ContAddrView { dir, digest }),
    {
        ContAddr { dir, digest }
    }

    /// The descriptor of the root directory.
    pub fn dir(&self) -> (dir: i32)
        ensures
            dir == self@.dir,
    {
        self.dir
    }

    /// The digest that names the objects of this store.
    pub fn digest(&self) -> (digest: HashType)
        ensures
            digest == self@.digest,
    {
        self.digest
    }

    /// Gives the store up: the one request left to perform releases the
    /// descriptor of its root.
    pub fn close(self) -> (request: Request)
        ensures
            request@ == (RequestView::Close { fd: self@.dir }),
    {
        Request::Close { fd: self.dir }
    }
}

/// An object being written: an unnamed file that no directory shows, known by
/// its descriptor. It has no address yet.
#[derive(Debug, PartialEq, Eq)]
pub struct TempFile {
    fd: i32,
}

impl View for TempFile {
    type V = i32;

    closed spec fn view(&self) -> i32 {
        self.fd
    }
}

impl TempFile {
    pub(crate) fn new(fd: i32) -> (file: TempFile)
        ensures
            file@ == fd,
    {
        TempFile { fd }
    }

    /// The descriptor to write the content through.
    pub fn fd(&self) -> (fd: i32)
        ensures
            fd == self@,
    {
        self.fd
    }
}

/// An object opened for reading, known by its descriptor.
#[derive(Debug, PartialEq, Eq)]
pub struct FileHandle {
    fd: i32,
}

impl View for FileHandle {
    type V = i32;

    closed spec fn view(&self) -> i32 {
        self.fd
    }
}

impl FileHandle {
    pub(crate) fn new(fd: i32) -> (file: FileHandle)
        ensures
            file@ == fd,
    {
        FileHandle { fd }
    }

    /// The descriptor to read the content through.
    pub fn fd(&self) -> (fd: i32)
        ensures
            fd == self@,
    {
        self.fd
    }
}

/// An object whose content has been hashed: the pending object together with
/// the address of the content it held when it was staged.
pub struct Staged {
    tmpfile: TempFile,
    address: Address,
    algorithm: Ghost<HashType>,
    content: Ghost<Seq<u8>>,
}

/// The mathematical content of a [`Staged`].
pub struct StagedView {
    /// The descriptor of the pending object.
    pub fd: i32,
    /// The address of the content.
    pub address: Seq<char>,
    /// The digest the address was computed under.
    pub algorithm: HashType,
    /// The content that was read when the object was staged.
    pub content: Seq<u8>,
}

impl StagedView {
    /// The address is the hexadecimal text of the digest of the content, and
    /// that digest is not empty.
    pub open spec fn wf(self) -> bool {
        &&& digest_of(self.algorithm, self.content).len() > 0
        &&& self.address == hex(digest_of(self.algorithm, self.content))
    }
}

impl View for Staged {
    type V = StagedView;

    closed spec fn view(&self) -> StagedView {
        StagedView {
            fd: self.tmpfile@,
            address: self.address@,
            algorithm: self.algorithm@,
            content: self.content@,
        }
    }
}

impl Staged {
    #[verifier::type_invariant]
    spec fn well_formed(self) -> bool {
        self@.wf()
    }

    pub(crate) fn new(
        tmpfile: TempFile,
        address: Address,
        algorithm: Ghost<HashType>,
        content: Ghost<Seq<u8>>,
    ) -> (staged: Staged)
        requires
            digest_of(algorithm@, content@).len() > 0,
            address@ == hex(digest_of(algorithm@, content@)),
        ensures
            staged@ == (StagedView {
                fd: tmpfile@,
                address: address@,
                algorithm: algorithm@,
                content: content@,
            }),
    {
        Staged { tmpfile, address, algorithm, content }
    }

    /// The address the object will be published under.
    pub fn get_address(&self) -> (address: &Address)
        ensures
            address@ == self@.address,
            self@.wf(),
            is_address_text(address@),
    {
        proof {
            use_type_invariant(self);
            crate::hex::lemma_hex_is_hex_text(digest_of(self.algorithm@, self.content@));
        }
        &self.address
    }

    /// The descriptor of the pending object.
    pub fn fd(&self) -> (fd: i32)
        ensures
            fd == self@.fd,
    {
        self.tmpfile.fd()
    }

    /// Takes the staged object apart.
    pub(crate) fn into_parts(self) -> (parts: (TempFile, Address))
        ensures
            parts.0@ == self@.fd,
            parts.1@ == self@.address,
            self@.wf(),
            is_address_text(self@.address),
    {
        proof {
            use_type_invariant(&self);
            crate::hex::lemma_hex_is_hex_text(digest_of(self.algorithm@, self.content@));
        }
        (self.tmpfile, self.address)
    }
}

} // verus!
