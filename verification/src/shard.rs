//! Opening a store: the root directory and its 256 shard directories.
use crate::address::{
    has_nul, has_nul_byte, lemma_object_path_has_no_nul, shard_name, shard_name_of, shard_path,
    shard_path_of,
};
use crate::contaddr::{ContAddr, ContAddrView};
use crate::digest::HashType;
use crate::error::{
    described, DetailView, ErrorKind, StoreError, StoreErrorView, Detail, ENOTDIR,
};
use crate::hex::lemma_hex_is_hex_text;
use crate::step::{Step, StepView};
use crate::syscall::{
    cstr, cstr_bytes, nul_in_path, Reply, ReplyView, Request, RequestView, DIRECTORY_FLAGS,
    SHARD_MODE,
};
use vstd::prelude::*;
use vstd::slice::slice_to_vec;
use vstd::string::*;

verus! {

/// The failure reported for an address too short to name a shard.
pub open spec fn short_address() -> StoreErrorView {
    described(ErrorKind::InvalidInput, "address must be at least two characters"@)
}

/// How far the making of one shard directory has come.
#[derive(Clone, Copy, Debug, PartialEq, Eq, Structural)]
pub enum ShardPhase {
    /// The directory is being made.
    Create,
    /// The name was taken: it is being opened as a directory, to see that it is one.
    Probe,
    /// It is a directory: the descriptor that showed so is being closed.
    Release,
}

/// The mathematical content of a [`MakingShard`].
pub struct MakingShardView {
    /// The descriptor of the root.
    pub dir: i32,
    /// The path of the shard directory, relative to the root.
    pub path: Seq<char>,
    pub phase: ShardPhase,
    /// In the last phase, the descriptor to close.
    pub probe: i32,
}

impl MakingShardView {
    /// The path can be handed to the kernel.
    pub open spec fn wf(self) -> bool {
        !has_nul(self.path)
    }

    /// The machine that sets out to make the shard directory at `path`.
    pub open spec fn begin(dir: i32, path: Seq<char>) -> MakingShardView {
        MakingShardView { dir, path, phase: ShardPhase::Create, probe: 0 }
    }

    /// The primitive to perform next.
    pub open spec fn request(self) -> RequestView {
        match self.phase {
            ShardPhase::Create => RequestView::MkdirAt {
                dirfd: self.dir,
                path: self.path,
                mode: SHARD_MODE,
            },
            ShardPhase::Probe => RequestView::OpenAt {
                dirfd: self.dir,
                path: self.path,
                flags: DIRECTORY_FLAGS,
                mode: 0,
            },
            ShardPhase::Release => RequestView::Close { fd: self.probe },
        }
    }

    /// The failure reported where the name is taken by something that is no directory.
    pub open spec fn taken(self) -> StoreErrorView {
        StoreErrorView { kind: ErrorKind::AlreadyExists, detail: DetailView::Path(self.path) }
    }

    /// What the machine does with the reply to its request.
    ///
    /// A directory that was made is done. A name that was taken is probed: it
    /// is done, once the probe is closed, where the name opens as a directory;
    /// it fails as taken where the probe says it is no directory. Every other
    /// failure is handed on.
    pub open spec fn resume(self, reply: ReplyView) -> StepView<MakingShardView, ()> {
        match self.phase {
            ShardPhase::Create => match self.request().status(reply) {
                Ok(_) => StepView::Done(Ok(())),
                Err(e) => if e.kind == ErrorKind::AlreadyExists {
                    StepView::Pending(MakingShardView { phase: ShardPhase::Probe, ..self })
                } else {
                    StepView::Done(Err(e))
                },
            },
            ShardPhase::Probe => match self.request().status(reply) {
                Ok(fd) => StepView::Pending(
                    MakingShardView { phase: ShardPhase::Release, probe: fd, ..self },
                ),
                Err(e) => if e.detail == DetailView::Errno(ENOTDIR) {
                    StepView::Done(Err(self.taken()))
                } else {
                    StepView::Done(Err(e))
                },
            },
            ShardPhase::Release => StepView::Done(Ok(())),
        }
    }
}

/// How the making of the shard directory of `address` starts: it fails at
/// once for an address of fewer than two characters, and for one whose first
/// two hold a NUL character.
pub open spec fn mkdir_start(dir: i32, address: Seq<char>) -> StepView<MakingShardView, ()> {
    if address.len() < 2 {
        StepView::Done(Err(short_address()))
    } else if has_nul(shard_path(address)) {
        StepView::Done(Err(nul_in_path()))
    } else {
        StepView::Pending(MakingShardView::begin(dir, shard_path(address)))
    }
}

/// The making of one shard directory, which may exist already.
pub struct MakingShard {
    dir: i32,
    path: String,
    phase: ShardPhase,
    probe: i32,
}

impl View for MakingShard {
    type V = MakingShardView;

    closed spec fn view(&self) -> MakingShardView {
        MakingShardView { dir: self.dir, path: self.path@, phase: self.phase, probe: self.probe }
    }
}

impl MakingShard {
    #[verifier::type_invariant]
    spec fn well_formed(self) -> bool {
        self@.wf()
    }

    pub(crate) fn begin(dir: i32, path: String) -> (machine: MakingShard)
        requires
            !has_nul(path@),
        ensures
            machine@ == MakingShardView::begin(dir, path@),
            machine@.wf(),
    {
        MakingShard { dir, path, phase: ShardPhase::Create, probe: 0 }
    }

    /// The primitive to perform next. Its path holds no NUL character.
    pub fn request(&self) -> (request: Request)
        ensures
            request@ == self@.request(),
            !request@.has_nul(),
            self@.wf(),
    {
        proof {
            use_type_invariant(self);
        }
        match self.phase {
            ShardPhase::Create => Request::MkdirAt {
                dirfd: self.dir,
                path: self.path.clone(),
                mode: SHARD_MODE,
            },
            ShardPhase::Probe => Request::OpenAt {
                dirfd: self.dir,
                path: self.path.clone(),
                flags: DIRECTORY_FLAGS,
                mode: 0,
            },
            ShardPhase::Release => Request::Close { fd: self.probe },
        }
    }

    /// Takes the reply to the request and goes on.
    pub fn resume(self, reply: Reply) -> (next: Step<MakingShard, ()>)
        ensures
            next@ == self@.resume(reply@),
    {
        let request = self.request();
        match self.phase {
            ShardPhase::Create => match request.status(&reply) {
                Ok(_) => Step::Done(Ok(())),
                Err(e) => {
                    if e.kind == ErrorKind::AlreadyExists {
                        Step::Pending(
                            MakingShard {
                                dir: self.dir,
                                path: self.path,
                                phase: ShardPhase::Probe,
                                probe: self.probe,
                            },
                        )
                    } else {
                        Step::Done(Err(e))
                    }
                },
            },
            ShardPhase::Probe => match request.status(&reply) {
                Ok(fd) => Step::Pending(
                    MakingShard {
                        dir: self.dir,
                        path: self.path,
                        phase: ShardPhase::Release,
                        probe: fd,
                    },
                ),
                Err(e) => {
                    let no_directory = match e.errno() {
                        Some(code) => code == ENOTDIR,
                        None => false,
                    };
                    if no_directory {
                        Step::Done(
                            Err(
                                StoreError {
                                    kind: ErrorKind::AlreadyExists,
                                    detail: Detail::Path(self.path),
                                },
                            ),
                        )
                    } else {
                        Step::Done(Err(e))
                    }
                },
            },
            ShardPhase::Release => Step::Done(Ok(())),
        }
    }
}

impl ContAddr {
    /// Sets out to make the shard directory that `address` belongs to, which
    /// may exist already. Fails at once, with nothing asked of the file
    /// system, for an address of fewer than two characters and for one whose
    /// first two hold a NUL character.
    pub fn mkdir(&self, address: &str) -> (first: Step<MakingShard, ()>)
        ensures
            first@ == mkdir_start(self@.dir, address@),
    {
        if address.unicode_len() < 2 {
            return Step::Done(
                Err(
                    StoreError::new(
                        ErrorKind::InvalidInput,
                        "address must be at least two characters",
                    ),
                ),
            );
        }
        let path = shard_path_of(address);
        match cstr(path.as_str()) {
            Err(e) => Step::Done(Err(e)),
            Ok(_) => Step::Pending(MakingShard::begin(self.dir(), path)),
        }
    }
}

/// The shard machine for the shard directory with the given index.
pub open spec fn shard_begin(dir: i32, index: u8) -> MakingShardView {
    MakingShardView::begin(dir, shard_path(shard_name(index)))
}

/// The mathematical content of an [`Opening`].
pub enum OpeningView {
    /// The root directory is being opened.
    Root { path: Seq<u8>, digest: HashType },
    /// The root is open; the shard directory with this index is being made.
    Shards { dir: i32, digest: HashType, index: u8, shard: MakingShardView },
    /// A shard could not be made: the root is being closed again.
    Closing { dir: i32, error: StoreErrorView },
}

impl OpeningView {
    /// Every path can be handed to the kernel.
    pub open spec fn wf(self) -> bool {
        match self {
            OpeningView::Root { path, .. } => !has_nul_byte(path),
            OpeningView::Shards { shard, .. } => shard.wf(),
            OpeningView::Closing { .. } => true,
        }
    }

    /// The primitive to perform next.
    pub open spec fn request(self) -> RequestView {
        match self {
            OpeningView::Root { path, .. } => RequestView::Open {
                path,
                flags: DIRECTORY_FLAGS,
                mode: 0,
            },
            OpeningView::Shards { shard, .. } => shard.request(),
            OpeningView::Closing { dir, .. } => RequestView::Close { fd: dir },
        }
    }

    /// How the machine goes on when the making of the shard with the given
    /// index is over: after the last shard the store is handed out, after
    /// every other the next is made; a failure closes the root again.
    pub open spec fn made(
        dir: i32,
        digest: HashType,
        index: u8,
        outcome: Result<(), StoreErrorView>,
    ) -> StepView<OpeningView, ContAddrView> {
        match outcome {
            Ok(_) => if index == 255 {
                StepView::Done(Ok(ContAddrView { dir, digest }))
            } else {
                StepView::Pending(
                    OpeningView::Shards {
                        dir,
                        digest,
                        index: (index + 1) as u8,
                        shard: shard_begin(dir, (index + 1) as u8),
                    },
                )
            },
            Err(e) => StepView::Pending(OpeningView::Closing { dir, error: e }),
        }
    }

    /// What the machine does with the reply to its request.
    ///
    /// Once the root is open, the shard directories are made in the order of
    /// their index. The store is handed out when the last of them is done. A
    /// root that does not open fails the operation at once; a shard that
    /// cannot be made fails it once the root is closed again.
    pub open spec fn resume(self, reply: ReplyView) -> StepView<OpeningView, ContAddrView> {
        match self {
            OpeningView::Root { path, digest } => match self.request().status(reply) {
                Ok(fd) => StepView::Pending(
                    OpeningView::Shards { dir: fd, digest, index: 0, shard: shard_begin(fd, 0) },
                ),
                Err(e) => StepView::Done(Err(e)),
            },
            OpeningView::Shards { dir, digest, index, shard } => match shard.resume(reply) {
                StepView::Pending(shard) => StepView::Pending(
                    OpeningView::Shards { dir, digest, index, shard },
                ),
                StepView::Done(outcome) => OpeningView::made(dir, digest, index, outcome),
            },
            OpeningView::Closing { error, .. } => StepView::Done(Err(error)),
        }
    }
}

/// How opening the root at `path` starts: it fails at once for a path that
/// holds a NUL byte. The path is given by its bytes: it need not be text.
pub open spec fn open_start(path: Seq<u8>, digest: HashType) -> StepView<
    OpeningView,
    ContAddrView,
> {
    if has_nul_byte(path) {
        StepView::Done(Err(nul_in_path()))
    } else {
        StepView::Pending(OpeningView::Root { path, digest })
    }
}

enum OpeningState {
    Root { path: Vec<u8>, digest: HashType },
    Shards { store: ContAddr, index: u8, shard: MakingShard },
    Closing { store: ContAddr, error: StoreError },
}

/// The opening of a store.
pub struct Opening {
    state: OpeningState,
}

impl View for Opening {
    type V = OpeningView;

    closed spec fn view(&self) -> OpeningView {
        match self.state {
            OpeningState::Root { path, digest } => OpeningView::Root { path: path@, digest },
            OpeningState::Shards { store, index, shard } => OpeningView::Shards {
                dir: store@.dir,
                digest: store@.digest,
                index,
                shard: shard@,
            },
            OpeningState::Closing { store, error } => OpeningView::Closing {
                dir: store@.dir,
                error: error@,
            },
        }
    }
}

impl Opening {
    #[verifier::type_invariant]
    spec fn well_formed(self) -> bool {
        self@.wf()
    }

    /// The machine that makes the shard directory `index` of `store`.
    fn shard(store: ContAddr, index: u8) -> (machine: Opening)
        ensures
            machine@ == (OpeningView::Shards {
                dir: store@.dir,
                digest: store@.digest,
                index,
                shard: shard_begin(store@.dir, index),
            }),
    {
        let name = shard_name_of(index);
        let path = shard_path_of(name.as_str());
        proof {
            lemma_hex_is_hex_text(seq![index]);
            lemma_object_path_has_no_nul(name@);
        }
        let shard = MakingShard::begin(store.dir(), path);
        Opening { state: OpeningState::Shards { store, index, shard } }
    }

    /// The primitive to perform next. Its path holds no NUL character.
    pub fn request(&self) -> (request: Request)
        ensures
            request@ == self@.request(),
            !request@.has_nul(),
            self@.wf(),
    {
        proof {
            use_type_invariant(self);
        }
        match &self.state {
            OpeningState::Root { path, .. } => Request::Open {
                path: slice_to_vec(path.as_slice()),
                flags: DIRECTORY_FLAGS,
                mode: 0,
            },
            OpeningState::Shards { shard, .. } => shard.request(),
            OpeningState::Closing { store, .. } => Request::Close { fd: store.dir() },
        }
    }

    /// Takes the reply to the request and goes on.
    pub fn resume(self, reply: Reply) -> (next: Step<Opening, ContAddr>)
        ensures
            next@ == self@.resume(reply@),
    {
        let request = self.request();
        match self.state {
            OpeningState::Root { path, digest } => match request.status(&reply) {
                Ok(fd) => Step::Pending(Opening::shard(ContAddr::new(fd, digest), 0)),
                Err(e) => Step::Done(Err(e)),
            },
            OpeningState::Shards { store, index, shard } => match shard.resume(reply) {
                Step::Pending(shard) => {
                    proof {
                        use_type_invariant(&shard);
                    }
                    Step::Pending(Opening { state: OpeningState::Shards { store, index, shard } })
                },
                Step::Done(Ok(_)) => {
                    if index == 255 {
                        Step::Done(Ok(store))
                    } else {
                        Step::Pending(Opening::shard(store, index + 1))
                    }
                },
                Step::Done(Err(e)) => Step::Pending(
                    Opening { state: OpeningState::Closing { store, error: e } },
                ),
            },
            OpeningState::Closing { error, .. } => Step::Done(Err(error)),
        }
    }
}

impl ContAddr {
    /// Sets out to open the store rooted at the directory `dir`, whose objects
    /// are named by `digest`. The path is given by its bytes, as the kernel
    /// takes it. Fails at once, with nothing asked of the file system, for a
    /// path that holds a NUL byte.
    pub fn open(dir: &[u8], digest: HashType) -> (first: Step<Opening, ContAddr>)
        ensures
            first@ == open_start(dir@, digest),
    {
        match cstr_bytes(dir) {
            Err(e) => Step::Done(Err(e)),
            Ok(_) => Step::Pending(
                Opening { state: OpeningState::Root { path: slice_to_vec(dir), digest } },
            ),
        }
    }
}

} // verus!
