//! What the operations of the store achieve, run against the ideal tree.
//!
//! Each law states the whole tree that an operation leaves, so that the laws
//! can be chained.
use crate::address::{
    descriptor_path, has_nul, has_nul_byte, lemma_descriptor_path_injective,
    lemma_object_path_has_no_nul, lemma_shard_of_address, object_path, shard_name, shard_path,
};
use crate::commit::{already_present, commit_start, CommittingView};
use crate::contaddr::{ContAddrView, StagedView};
use crate::create::{create_start, CreatingView};
use crate::digest::{digest_of, HashType};
use crate::error::{last_error_wpath_view, StoreErrorView, ENOENT};
use crate::hex::{hex, lemma_hex_injective};
use crate::model::{fresh, given, reads, room, run, some_free, Descriptor, Disk, Object};
use crate::protocol::{after_replies, Hashes, MakesShard, Protocol};
use crate::read::{hash_mismatch, read_start, validate_start, ReadingView, ValidatingView};
use crate::shard::{
    mkdir_start, open_start, shard_begin, short_address, MakingShardView, OpeningView, ShardPhase,
};
use crate::stage::{stage_start, HashingView, StagingView};
use crate::step::StepView;
use crate::syscall::{ReplyView, OBJECT_MODE};
use vstd::prelude::*;

verus! {

/// The address of `content` under `algorithm`.
pub open spec fn address_of(algorithm: HashType, content: Seq<u8>) -> Seq<char> {
    hex(digest_of(algorithm, content))
}

/// Whether `address` can be asked for: it has a shard, and its path can be
/// handed to the kernel.
pub open spec fn askable(address: Seq<char>) -> bool {
    address.len() >= 2 && !has_nul(object_path(address))
}

/// The paths of the shard directories with the given index and above.
pub open spec fn shard_paths(from: int) -> Set<Seq<char>> {
    Set::new(
        |path: Seq<char>|
            exists|j: u8| from <= j && path == #[trigger] shard_path(shard_name(j)),
    )
}

/// Whether `store` is an open store on the tree: its descriptor is open on
/// the root, and all 256 shard directories exist.
pub open spec fn ready(disk: Disk, store: ContAddrView) -> bool {
    &&& disk.wf()
    &&& disk.is_root(store.dir)
    &&& forall|index: u8| disk.dirs.contains(#[trigger] shard_path(shard_name(index)))
}

/// Whether a store can be opened on the tree: no file has the name of a
/// shard, and two descriptors are left, one for the root and one to look at
/// a shard with.
pub open spec fn openable(disk: Disk) -> bool {
    &&& disk.wf()
    &&& !has_nul_byte(disk.root)
    &&& disk.has_room(2)
    &&& forall|index: u8| !disk.files.contains_key(#[trigger] shard_path(shard_name(index)))
}

/// Making a pending object, run to its end.
pub open spec fn create(disk: Disk, store: ContAddrView) -> (Disk, StepView<CreatingView, i32>) {
    run(disk, create_start(store.dir), 1)
}

/// Staging the pending object `fd`, run to its end.
pub open spec fn stage(disk: Disk, store: ContAddrView, fd: i32) -> (
    Disk,
    StepView<StagingView, StagedView>,
) {
    run(disk, stage_start(fd, store.digest), disk.content_of(fd).len() + 3)
}

/// Committing a staged object, run to its end.
pub open spec fn commit(disk: Disk, store: ContAddrView, staged: StagedView) -> (
    Disk,
    StepView<CommittingView, Seq<char>>,
) {
    run(disk, commit_start(store.dir, staged.fd, staged.address), 3)
}

/// Reading the object under `address`, run to its end.
pub open spec fn read(disk: Disk, store: ContAddrView, address: Seq<char>) -> (
    Disk,
    StepView<ReadingView, i32>,
) {
    run(disk, read_start(store.dir, address), 1)
}

/// The validated reading of the object under `address`, run to its end.
pub open spec fn validate_read(disk: Disk, store: ContAddrView, address: Seq<char>) -> (
    Disk,
    StepView<ValidatingView, i32>,
) {
    run(
        disk,
        validate_start(store.dir, store.digest, address),
        disk.files[object_path(address)].content.len() + 4,
    )
}

/// Making the shard directory of `address`, run to its end.
pub open spec fn mkdir(disk: Disk, store: ContAddrView, address: Seq<char>) -> (
    Disk,
    StepView<MakingShardView, ()>,
) {
    run(disk, mkdir_start(store.dir, address), 3)
}

/// Opening a store, run to its end.
pub open spec fn open(disk: Disk, path: Seq<u8>, digest: HashType) -> (
    Disk,
    StepView<OpeningView, ContAddrView>,
) {
    run(disk, open_start(path, digest), 769)
}

/// The file of a pending object that nothing was written into.
pub open spec fn blank() -> Descriptor {
    Descriptor::File { object: Object { content: Seq::<u8>::empty(), mode: 0 }, position: 0 }
}

/// The tree after the shard directory at `path` was made or found: the
/// directory is there, unless a file has its name.
pub open spec fn with_shard(disk: Disk, path: Seq<char>) -> Disk {
    if disk.taken(path) {
        disk
    } else {
        Disk { dirs: disk.dirs.insert(path), ..disk }
    }
}

/// What the making of the shard directory at `path` ends with: it fails
/// where a file has the name.
pub open spec fn shard_outcome(disk: Disk, path: Seq<char>) -> Result<(), StoreErrorView> {
    if disk.files.contains_key(path) {
        Err(MakingShardView::begin(0, path).taken())
    } else {
        Ok(())
    }
}

/// The number of requests that the making of the shard directory at `path`
/// takes: one where the name is free, three where a directory has it, two
/// where a file has it.
pub open spec fn shard_requests(disk: Disk, path: Seq<char>) -> nat {
    if disk.dirs.contains(path) {
        3
    } else if disk.files.contains_key(path) {
        2
    } else {
        1
    }
}

/// One request is performed and its reply taken.
proof fn lemma_run_step<M: Protocol>(disk: Disk, machine: M, fuel: nat)
    requires
        fuel > 0,
    ensures
        run(disk, StepView::<M, M::Output>::Pending(machine), fuel) == run(
            disk.serve(machine.asks()).0,
            machine.takes(disk.serve(machine.asks()).1),
            (fuel - 1) as nat,
        ),
{
}

/// An operation that is done stays as it is.
proof fn lemma_run_done<M: Protocol>(
    disk: Disk,
    outcome: Result<M::Output, StoreErrorView>,
    fuel: nat,
)
    ensures
        run(disk, StepView::<M, M::Output>::Done(outcome), fuel) == (
            disk,
            StepView::<M, M::Output>::Done(outcome),
        ),
{
}

/// With no request left to perform, an operation stays where it stands.
proof fn lemma_run_stops<M: Protocol>(disk: Disk, step: StepView<M, M::Output>)
    ensures
        run(disk, step, 0) == (disk, step),
{
}

/// Running on is running from where the operation stood.
proof fn lemma_run_resumes<M: Protocol>(
    disk: Disk,
    step: StepView<M, M::Output>,
    first: nat,
    more: nat,
)
    ensures
        run(disk, step, first + more) == run(
            run(disk, step, first).0,
            run(disk, step, first).1,
            more,
        ),
    decreases first,
{
    match step {
        StepView::Done(_) => {},
        StepView::Pending(machine) => {
            if first > 0 {
                let (served, reply) = disk.serve(machine.asks());
                lemma_run_resumes(served, machine.takes(reply), (first - 1) as nat, more);
            }
        },
    }
}

/// An operation that is done within some requests is done within more.
proof fn lemma_run_is_over<M: Protocol>(
    disk: Disk,
    step: StepView<M, M::Output>,
    first: nat,
    fuel: nat,
)
    requires
        run(disk, step, first).1 is Done,
        first <= fuel,
    ensures
        run(disk, step, fuel) == run(disk, step, first),
{
    lemma_run_resumes(disk, step, first, (fuel - first) as nat);
    lemma_run_done::<M>(
        run(disk, step, first).0,
        run(disk, step, first).1->Done_0,
        (fuel - first) as nat,
    );
}

/// The kernel shows an open descriptor under its path, and no other.
proof fn lemma_shown_under(disk: Disk, fd: i32)
    requires
        disk.open.contains_key(fd),
    ensures
        disk.shown_under(descriptor_path(fd as int)) == Some(fd),
{
    let path = descriptor_path(fd as int);
    let shown = choose|other: i32|
        disk.open.contains_key(other) && descriptor_path(other as int) == path;
    lemma_descriptor_path_injective(shown as int, fd as int);
}

/// Reading to the end takes a read for each byte at most, and one more.
proof fn lemma_reads_are_few(piece: spec_fn(int) -> int, left: int)
    requires
        0 <= left,
    ensures
        reads(piece, left) <= left + 1,
    decreases left,
{
    if left > 0 {
        lemma_reads_are_few(piece, left - given(piece, left));
    }
}

/// Where there is room for some descriptors, there is room for fewer.
pub proof fn lemma_room_for_fewer(taken: Set<i32>, count: nat, fewer: nat)
    requires
        room(taken, count),
        fewer <= count,
    ensures
        room(taken, fewer),
    decreases fewer,
{
    if fewer > 0 {
        lemma_room_for_fewer(taken.insert(fresh(taken)), (count - 1) as nat, (fewer - 1) as nat);
    }
}

/// The descriptor that is handed out next is not open, and no root.
proof fn lemma_next_is_new(disk: Disk)
    requires
        disk.has_room(1),
    ensures
        some_free(disk.open.dom()),
        0 <= disk.next(),
        !disk.open.contains_key(disk.next()),
        disk.with_open(Descriptor::Shard).open.remove(disk.next()) == disk.open,
{
    assert(disk.with_open(Descriptor::Shard).open.remove(disk.next()) =~= disk.open);
}

/// An operation reads on to the end: from any position in the file, with
/// what was read so far taken in, its hashing ends with the address of the
/// whole content, in whatever pieces the content comes, and the operation
/// goes on from there.
proof fn lemma_reads_on<M: Hashes>(disk: Disk, frame: M::Frame, hashing: HashingView)
    requires
        disk.is_file(hashing.fd),
        0 <= disk.open[hashing.fd]->position <= disk.content_of(hashing.fd).len(),
        hashing.consumed == disk.content_of(hashing.fd).take(disk.open[hashing.fd]->position),
    ensures
        ({
            let content = disk.content_of(hashing.fd);
            let whole = HashingView { consumed: content, ..hashing };
            run(
                disk,
                StepView::<M, M::Output>::Pending(M::hashing_at(frame, hashing)),
                reads(disk.piece, content.len() - disk.open[hashing.fd]->position),
            ) == (
                disk.at_position(hashing.fd, content.len() as int),
                M::hashed(frame, whole, whole.address()),
            )
        }),
    decreases disk.content_of(hashing.fd).len() - disk.open[hashing.fd]->position,
{
    let fd = hashing.fd;
    let content = disk.content_of(fd);
    let position = disk.open[fd]->position;
    let left = content.len() - position;
    let whole = HashingView { consumed: content, ..hashing };
    let (served, reply) = disk.serve(hashing.request());
    M::lemma_follows(frame, hashing, reply);
    lemma_run_step(disk, M::hashing_at(frame, hashing), reads(disk.piece, left));
    if left == 0 {
        assert(content.subrange(position, position) =~= Seq::<u8>::empty());
        assert(hashing.consumed =~= content);
        assert(served.open =~= disk.at_position(fd, content.len() as int).open);
        lemma_run_stops(served, M::hashed(frame, whole, whole.address()));
    } else {
        let end = position + given(disk.piece, left);
        let fed = HashingView {
            consumed: hashing.consumed + content.subrange(position, end),
            ..hashing
        };
        assert(fed.consumed =~= content.take(end));
        lemma_reads_on::<M>(served, frame, fed);
        assert(served.at_position(fd, content.len() as int).open =~= disk.at_position(
            fd,
            content.len() as int,
        ).open);
    }
}

/// An operation makes its shard: the directory is made where the name is
/// free, found where a directory has it, and refused where a file has it;
/// the operation goes on from there. No descriptor stays open.
proof fn lemma_shard_runs<M: MakesShard>(
    disk: Disk,
    frame: M::Frame,
    dir: i32,
    path: Seq<char>,
    fuel: nat,
)
    requires
        disk.wf(),
        disk.is_root(dir),
        disk.has_room(1),
        fuel >= 3,
    ensures
        run(
            disk,
            StepView::<M, M::Output>::Pending(
                M::making_at(frame, MakingShardView::begin(dir, path)),
            ),
            fuel,
        ) == run(
            with_shard(disk, path),
            M::made(frame, shard_outcome(disk, path)),
            (fuel - shard_requests(disk, path)) as nat,
        ),
{
    lemma_next_is_new(disk);
    let making = MakingShardView::begin(dir, path);
    let probing = MakingShardView { phase: ShardPhase::Probe, ..making };
    let releasing = MakingShardView { phase: ShardPhase::Release, probe: disk.next(), ..making };
    M::lemma_follows(frame, making, disk.serve(making.request()).1);
    lemma_run_step(disk, M::making_at(frame, making), fuel);
    if disk.taken(path) {
        M::lemma_follows(frame, probing, disk.serve(probing.request()).1);
        lemma_run_step(disk, M::making_at(frame, probing), (fuel - 1) as nat);
        if disk.dirs.contains(path) {
            let probed = disk.with_open(Descriptor::Shard);
            M::lemma_follows(frame, releasing, probed.serve(releasing.request()).1);
            lemma_run_step(probed, M::making_at(frame, releasing), (fuel - 2) as nat);
            assert(probed.serve(releasing.request()).0 == disk);
        }
    }
}

/// Staging hashes what was written: the pending object `fd` is staged with
/// the address of its content, whatever its position was and in whatever
/// pieces it is read. Nothing changes but that the object now stands at its
/// start.
pub proof fn lemma_stage_hashes(disk: Disk, store: ContAddrView, fd: i32)
    requires
        disk.is_file(fd),
        digest_of(store.digest, disk.content_of(fd)).len() > 0,
    ensures
        stage(disk, store, fd) == (
            disk.at_position(fd, 0),
            StepView::<StagingView, StagedView>::Done(
                Ok(
                    StagedView {
                        fd,
                        address: address_of(store.digest, disk.content_of(fd)),
                        algorithm: store.digest,
                        content: disk.content_of(fd),
                    },
                ),
            ),
        ),
{
    let content = disk.content_of(fd);
    let algorithm = store.digest;
    let first = stage_start(fd, algorithm);
    let asked = reads(disk.piece, content.len() as int);
    lemma_reads_are_few(disk.piece, content.len() as int);
    let rewound = disk.at_position(fd, 0);
    let hashing = HashingView::begin(fd, algorithm);
    let staged = StagedView { fd, address: address_of(algorithm, content), algorithm, content };
    let restore = StagingView::Restore { staged };
    lemma_run_step(disk, StagingView::Rewind { fd, algorithm }, asked + 2);
    assert(hashing.consumed =~= content.take(0));
    lemma_reads_on::<StagingView>(rewound, (), hashing);
    let read = rewound.at_position(fd, content.len() as int);
    lemma_run_resumes(rewound, StepView::Pending(StagingView::Hash { hashing }), asked, 1);
    lemma_run_step(read, restore, 1);
    assert(read.at_position(fd, 0).open =~= rewound.open);
    lemma_run_done::<StagingView>(rewound, Ok(staged), 0);
    lemma_run_is_over(disk, first, asked + 2, content.len() + 3);
}

/// Committing decides by the name: the mode is set, the link is tried, and
/// the pending object is closed. Where the address is free the object gets
/// the path of its address, with the mode of a published object; where it
/// is taken nothing changes below the root.
proof fn lemma_commit_decides(disk: Disk, store: ContAddrView, staged: StagedView)
    requires
        ready(disk, store),
        staged.wf(),
        disk.is_file(staged.fd),
    ensures
        commit(disk, store, staged) == if disk.taken(object_path(staged.address)) {
            (
                Disk { open: disk.open.remove(staged.fd), ..disk },
                StepView::<CommittingView, Seq<char>>::Done(
                    Err(already_present(staged.address)),
                ),
            )
        } else {
            (
                Disk {
                    files: disk.files.insert(
                        object_path(staged.address),
                        Object { content: disk.content_of(staged.fd), mode: OBJECT_MODE },
                    ),
                    open: disk.open.remove(staged.fd),
                    ..disk
                },
                StepView::<CommittingView, Seq<char>>::Done(Ok(staged.address)),
            )
        },
        ready(commit(disk, store, staged).0, store),
{
    let fd = staged.fd;
    let address = staged.address;
    let digest = digest_of(staged.algorithm, staged.content);
    lemma_shard_of_address(digest);
    assert(disk.dirs.contains(shard_path(shard_name(digest[0]))));
    let outcome = if disk.taken(object_path(address)) {
        Err(already_present(address))
    } else {
        Ok(address)
    };
    let chmod = CommittingView::Chmod { dir: store.dir, fd, address };
    let link = CommittingView::Link { dir: store.dir, fd, address };
    let closing = CommittingView::Closing { fd, outcome };
    lemma_run_step(disk, chmod, 3);
    let moded = disk.serve(chmod.asks()).0;
    lemma_run_step(moded, link, 2);
    lemma_shown_under(moded, fd);
    let linked = moded.serve(link.asks()).0;
    lemma_run_step(linked, closing, 1);
    let closed = linked.serve(closing.asks()).0;
    lemma_run_done::<CommittingView>(closed, outcome, 0);
    assert(closed.open =~= disk.open.remove(fd));
}

/// Committing publishes: where the address is not taken, the pending object
/// gets the path of its address, with the mode of a published object, and
/// the address is handed out. Nothing else changes but that the pending
/// object is closed. The store is as open as it was.
pub proof fn lemma_commit_publishes(disk: Disk, store: ContAddrView, staged: StagedView)
    requires
        ready(disk, store),
        staged.wf(),
        disk.is_file(staged.fd),
        !disk.taken(object_path(staged.address)),
    ensures
        commit(disk, store, staged) == (
            Disk {
                files: disk.files.insert(
                    object_path(staged.address),
                    Object { content: disk.content_of(staged.fd), mode: OBJECT_MODE },
                ),
                open: disk.open.remove(staged.fd),
                ..disk
            },
            StepView::<CommittingView, Seq<char>>::Done(Ok(staged.address)),
        ),
        ready(commit(disk, store, staged).0, store),
{
    lemma_commit_decides(disk, store, staged);
}

/// Committing finds what is there: where the address is taken, nothing
/// changes but that the pending object is closed, and the operation fails
/// with the path that is taken. The store is as open as it was.
pub proof fn lemma_commit_finds_present(disk: Disk, store: ContAddrView, staged: StagedView)
    requires
        ready(disk, store),
        staged.wf(),
        disk.is_file(staged.fd),
        disk.taken(object_path(staged.address)),
    ensures
        commit(disk, store, staged) == (
            Disk { open: disk.open.remove(staged.fd), ..disk },
            StepView::<CommittingView, Seq<char>>::Done(Err(already_present(staged.address))),
        ),
        ready(commit(disk, store, staged).0, store),
{
    lemma_commit_decides(disk, store, staged);
}

/// Reading opens what is there: the object under an address that is taken by
/// a file is handed out, opened at its start, and nothing else changes.
pub proof fn lemma_read_opens(disk: Disk, store: ContAddrView, address: Seq<char>)
    requires
        disk.is_root(store.dir),
        disk.has_room(1),
        askable(address),
        disk.files.contains_key(object_path(address)),
    ensures
        read(disk, store, address) == (
            disk.with_open(
                Descriptor::File { object: disk.files[object_path(address)], position: 0 },
            ),
            StepView::<ReadingView, i32>::Done(Ok(disk.next())),
        ),
{
    lemma_next_is_new(disk);
    let reading = ReadingView { dir: store.dir, path: object_path(address) };
    lemma_run_step(disk, reading, 1);
    lemma_run_done::<ReadingView>(disk.serve(reading.asks()).0, Ok(disk.next()), 0);
}

/// Reading does not find what is not there: the operation fails as not
/// found, with the path of the address, and nothing changes.
pub proof fn lemma_read_misses(disk: Disk, store: ContAddrView, address: Seq<char>)
    requires
        disk.is_root(store.dir),
        askable(address),
        !disk.files.contains_key(object_path(address)),
    ensures
        read(disk, store, address) == (
            disk,
            StepView::<ReadingView, i32>::Done(
                Err(last_error_wpath_view(ENOENT, object_path(address))),
            ),
        ),
{
    let reading = ReadingView { dir: store.dir, path: object_path(address) };
    lemma_run_step(disk, reading, 1);
    lemma_run_done::<ReadingView>(
        disk,
        Err(last_error_wpath_view(ENOENT, object_path(address))),
        0,
    );
}

/// The validated reading of an address that is taken by a file opens the
/// file and hashes its content: it then stands where the hashing of the
/// whole content leaves it, with the file read to its end.
proof fn lemma_validate_hashes(disk: Disk, store: ContAddrView, address: Seq<char>)
    requires
        disk.is_root(store.dir),
        disk.has_room(1),
        askable(address),
        disk.files.contains_key(object_path(address)),
    ensures
        ({
            let object = disk.files[object_path(address)];
            let whole = HashingView {
                fd: disk.next(),
                algorithm: store.digest,
                consumed: object.content,
            };
            run(
                disk,
                validate_start(store.dir, store.digest, address),
                1 + reads(disk.piece, object.content.len() as int),
            ) == (
                disk.with_open(
                    Descriptor::File { object, position: object.content.len() as int },
                ),
                ValidatingView::hashed(store.dir, address, whole, whole.address()),
            )
        }),
{
    lemma_next_is_new(disk);
    let object = disk.files[object_path(address)];
    let fd = disk.next();
    let open = ValidatingView::Open { dir: store.dir, algorithm: store.digest, address };
    lemma_run_step(disk, open, 1 + reads(disk.piece, object.content.len() as int));
    let opened = disk.with_open(Descriptor::File { object, position: 0 });
    let hashing = HashingView::begin(fd, store.digest);
    assert(hashing.consumed =~= object.content.take(0));
    lemma_reads_on::<ValidatingView>(opened, (store.dir, address), hashing);
    assert(opened.at_position(fd, object.content.len() as int).open =~= disk.with_open(
        Descriptor::File { object, position: object.content.len() as int },
    ).open);
}

/// From the shard with the given index on, every shard directory is made or
/// found, and the store is handed out. Beside the shards nothing changes.
proof fn lemma_shards_are_made(disk: Disk, dir: i32, digest: HashType, index: u8, fuel: nat)
    requires
        disk.wf(),
        disk.is_root(dir),
        disk.has_room(1),
        forall|j: u8| !disk.files.contains_key(#[trigger] shard_path(shard_name(j))),
        fuel >= 3 * (256 - index),
    ensures
        run(
            disk,
            StepView::<OpeningView, ContAddrView>::Pending(
                OpeningView::Shards { dir, digest, index, shard: shard_begin(dir, index) },
            ),
            fuel,
        ) == (
            Disk { dirs: disk.dirs.union(shard_paths(index as int)), ..disk },
            StepView::<OpeningView, ContAddrView>::Done(Ok(ContAddrView { dir, digest })),
        ),
    decreases 256 - index,
{
    let path = shard_path(shard_name(index));
    let made = with_shard(disk, path);
    let after = Disk { dirs: disk.dirs.union(shard_paths(index as int)), ..disk };
    lemma_shard_runs::<OpeningView>(disk, (dir, digest, index), dir, path, fuel);
    let asked = shard_requests(disk, path);
    assert(made.dirs =~= disk.dirs.insert(path));
    if index == 255 {
        let store = ContAddrView { dir, digest };
        lemma_run_done::<OpeningView>(made, Ok(store), (fuel - asked) as nat);
        assert(after.dirs =~= made.dirs) by {
            assert forall|p: Seq<char>| shard_paths(255).contains(p) implies p == path by {}
            assert(shard_paths(255).contains(path));
        }
    } else {
        let next = (index + 1) as u8;
        lemma_shards_are_made(made, dir, digest, next, (fuel - asked) as nat);
        assert(after.dirs =~= made.dirs.union(shard_paths(next as int))) by {
            assert(shard_paths(index as int).contains(path));
            assert forall|p: Seq<char>| shard_paths(index as int).contains(p) implies p == path
                || shard_paths(next as int).contains(p) by {
                let j = choose|j: u8| index <= j && p == #[trigger] shard_path(shard_name(j));
                if j != index {
                    assert(next <= j);
                }
            }
            assert forall|p: Seq<char>| shard_paths(next as int).contains(p) implies shard_paths(
                index as int,
            ).contains(p) by {
                let j = choose|j: u8| next <= j && p == #[trigger] shard_path(shard_name(j));
                assert(index <= j);
            }
        }
    }
}

/// From the shard with the given index on, the shard directories are made or
/// found up to the first whose name is taken by a file: there the root is
/// closed again and the operation fails with the name that is taken.
proof fn lemma_shards_stop_at_a_file(
    disk: Disk,
    dir: i32,
    digest: HashType,
    index: u8,
    taken: u8,
    fuel: nat,
)
    requires
        disk.wf(),
        disk.is_root(dir),
        disk.has_room(1),
        index <= taken,
        disk.files.contains_key(shard_path(shard_name(taken))),
        forall|j: u8|
            index <= j < taken ==> !disk.files.contains_key(#[trigger] shard_path(shard_name(j))),
        fuel >= 3 * (256 - index),
    ensures
        ({
            let (after, step) = run(
                disk,
                StepView::<OpeningView, ContAddrView>::Pending(
                    OpeningView::Shards { dir, digest, index, shard: shard_begin(dir, index) },
                ),
                fuel,
            );
            &&& step == StepView::<OpeningView, ContAddrView>::Done(
                Err(MakingShardView::begin(0, shard_path(shard_name(taken))).taken()),
            )
            &&& after.files == disk.files
            &&& after.open == disk.open.remove(dir)
            &&& after.root == disk.root
            &&& after.piece == disk.piece
            &&& after.wf()
            &&& forall|p: Seq<char>| disk.dirs.contains(p) ==> after.dirs.contains(p)
        }),
    decreases taken - index,
{
    let path = shard_path(shard_name(index));
    let made = with_shard(disk, path);
    lemma_shard_runs::<OpeningView>(disk, (dir, digest, index), dir, path, fuel);
    let asked = shard_requests(disk, path);
    let left = (fuel - asked) as nat;
    if index == taken {
        let error = MakingShardView::begin(0, path).taken();
        let closing = OpeningView::Closing { dir, error };
        lemma_run_step(disk, closing, left);
        lemma_run_done::<OpeningView>(disk.serve(closing.asks()).0, Err(error), (left - 1) as nat);
    } else {
        assert(made.files.contains_key(shard_path(shard_name(taken))));
        lemma_shards_stop_at_a_file(made, dir, digest, (index + 1) as u8, taken, left);
    }
}

/// The index of the first shard, from `from` on, whose name is taken by a
/// file; 256 where there is none.
pub open spec fn first_file(disk: Disk, from: int) -> int
    decreases 256 - from,
{
    if from >= 256 || from < 0 {
        256
    } else if disk.files.contains_key(shard_path(shard_name(from as u8))) {
        from
    } else {
        first_file(disk, from + 1)
    }
}

/// The first shard whose name is taken by a file is one, and the first.
proof fn lemma_first_file(disk: Disk, from: int)
    requires
        0 <= from <= 256,
    ensures
        from <= first_file(disk, from) <= 256,
        first_file(disk, from) < 256 ==> disk.files.contains_key(
            shard_path(shard_name(first_file(disk, from) as u8)),
        ),
        forall|j: u8|
            from <= j < first_file(disk, from) ==> !disk.files.contains_key(
                #[trigger] shard_path(shard_name(j)),
            ),
    decreases 256 - from,
{
    if from < 256 && !disk.files.contains_key(shard_path(shard_name(from as u8))) {
        lemma_first_file(disk, from + 1);
    }
}

/// The round trip: content that is written into a new pending object, then
/// staged and committed, is what a reading of the address that committing
/// handed out gives, from its start. The address is the address of the
/// content, the staged object stands at its start, and the tree holds one
/// file more when all is done.
pub proof fn law_round_trip(disk: Disk, store: ContAddrView, content: Seq<u8>)
    requires
        ready(disk, store),
        disk.has_room(1),
        digest_of(store.digest, content).len() > 0,
        !disk.taken(object_path(address_of(store.digest, content))),
    ensures
        ({
            let address = address_of(store.digest, content);
            let fd = disk.next();
            let staged = StagedView { fd, address, algorithm: store.digest, content };
            let made = disk.with_open(blank());
            let hashed = made.write(fd, content).at_position(fd, 0);
            let stored = Object { content, mode: OBJECT_MODE };
            let published = Disk { files: disk.files.insert(object_path(address), stored), ..disk };
            &&& create(disk, store) == (made, StepView::<CreatingView, i32>::Done(Ok(fd)))
            &&& stage(made.write(fd, content), store, fd) == (
                hashed,
                StepView::<StagingView, StagedView>::Done(Ok(staged)),
            )
            &&& hashed.open[fd] == Descriptor::File {
                object: Object { content, mode: 0 },
                position: 0,
            }
            &&& commit(hashed, store, staged) == (
                published,
                StepView::<CommittingView, Seq<char>>::Done(Ok(address)),
            )
            &&& read(published, store, address) == (
                published.with_open(Descriptor::File { object: stored, position: 0 }),
                StepView::<ReadingView, i32>::Done(Ok(fd)),
            )
            &&& ready(published, store)
        }),
{
    let address = address_of(store.digest, content);
    let fd = disk.next();
    let staged = StagedView { fd, address, algorithm: store.digest, content };
    lemma_next_is_new(disk);
    let creating = CreatingView { dir: store.dir };
    lemma_run_step(disk, creating, 1);
    let made = disk.with_open(blank());
    lemma_run_done::<CreatingView>(made, Ok(fd), 0);
    let written = made.write(fd, content);
    assert(written.content_of(fd) =~= content);
    lemma_stage_hashes(written, store, fd);
    let hashed = written.at_position(fd, 0);
    lemma_shard_of_address(digest_of(store.digest, content));
    lemma_object_path_has_no_nul(address);
    lemma_commit_publishes(hashed, store, staged);
    let published = commit(hashed, store, staged).0;
    assert(published.open =~= disk.open);
    lemma_read_opens(published, store, address);
}

/// Committing twice is committing once: of two staged objects with the same
/// content, staged under the same digest, the first is published under their
/// common address, and the second finds it present; the tree then holds, at
/// that address, one file with the content, and nothing else has changed
/// but that both objects are closed.
pub proof fn law_idempotent_commit(
    disk: Disk,
    store: ContAddrView,
    first: StagedView,
    second: StagedView,
)
    requires
        ready(disk, store),
        first.wf(),
        second.wf(),
        first.algorithm == second.algorithm,
        first.content == second.content,
        first.fd != second.fd,
        disk.is_file(first.fd),
        disk.is_file(second.fd),
        disk.content_of(first.fd) == first.content,
        !disk.taken(object_path(first.address)),
    ensures
        first.address == second.address,
        ({
            let stored = Object { content: first.content, mode: OBJECT_MODE };
            let files = disk.files.insert(object_path(first.address), stored);
            let once = Disk { files, open: disk.open.remove(first.fd), ..disk };
            let twice = Disk { files, open: disk.open.remove(first.fd).remove(second.fd), ..disk };
            &&& commit(disk, store, first) == (
                once,
                StepView::<CommittingView, Seq<char>>::Done(Ok(first.address)),
            )
            &&& commit(once, store, second) == (
                twice,
                StepView::<CommittingView, Seq<char>>::Done(Err(already_present(first.address))),
            )
            &&& ready(twice, store)
        }),
{
    lemma_commit_publishes(disk, store, first);
    let once = commit(disk, store, first).0;
    lemma_commit_finds_present(once, store, second);
}

/// The address is determined by the content: two objects staged under the
/// same digest have the same address where they have the same content, and
/// they have the same address exactly where their contents have the same
/// digest.
pub proof fn law_address_is_determined(first: StagedView, second: StagedView)
    requires
        first.wf(),
        second.wf(),
        first.algorithm == second.algorithm,
    ensures
        first.content == second.content ==> first.address == second.address,
        first.address == second.address <==> digest_of(first.algorithm, first.content)
            == digest_of(second.algorithm, second.content),
{
    if first.address == second.address {
        lemma_hex_injective(
            digest_of(first.algorithm, first.content),
            digest_of(second.algorithm, second.content),
        );
    }
}

/// The replies of a file that gives its content in the given pieces, and
/// then none: the end of the file.
pub open spec fn read_in_pieces(pieces: Seq<Seq<u8>>) -> Seq<ReplyView> {
    Seq::new(
        pieces.len() + 1,
        |i: int|
            if i < pieces.len() {
                ReplyView::Data(pieces[i])
            } else {
                ReplyView::Data(Seq::<u8>::empty())
            },
    )
}

/// Hashing adds up what it reads, and staging then moves the object back.
proof fn lemma_hashing_adds_up(hashing: HashingView, pieces: Seq<Seq<u8>>)
    requires
        forall|i: int| 0 <= i < pieces.len() ==> (#[trigger] pieces[i]).len() > 0,
        digest_of(hashing.algorithm, hashing.consumed + pieces.flatten()).len() > 0,
    ensures
        after_replies(
            StepView::<StagingView, StagedView>::Pending(StagingView::Hash { hashing }),
            read_in_pieces(pieces),
        ) == StepView::<StagingView, StagedView>::Pending(
            StagingView::Restore {
                staged: StagedView {
                    fd: hashing.fd,
                    address: address_of(hashing.algorithm, hashing.consumed + pieces.flatten()),
                    algorithm: hashing.algorithm,
                    content: hashing.consumed + pieces.flatten(),
                },
            },
        ),
    decreases pieces.len(),
{
    let replies = read_in_pieces(pieces);
    let machine = StagingView::Hash { hashing };
    let taken = machine.takes(replies[0]);
    assert(after_replies(StepView::<StagingView, StagedView>::Pending(machine), replies)
        == after_replies(taken, replies.drop_first()));
    if pieces.len() == 0 {
        assert(pieces.flatten() =~= Seq::<u8>::empty());
        assert(hashing.consumed + pieces.flatten() =~= hashing.consumed);
        assert(replies[0] == ReplyView::Data(Seq::<u8>::empty()));
        assert(replies.drop_first().len() == 0);
        assert(taken is Pending);
        assert(after_replies(taken, replies.drop_first()) == taken);
    } else {
        let rest = pieces.drop_first();
        let fed = HashingView { consumed: hashing.consumed + pieces[0], ..hashing };
        assert(replies[0] == ReplyView::Data(pieces[0]));
        assert(replies.drop_first() =~= read_in_pieces(rest));
        assert(pieces.flatten() =~= pieces[0] + rest.flatten());
        assert(fed.consumed + rest.flatten() =~= hashing.consumed + pieces.flatten());
        assert(taken == StepView::<StagingView, StagedView>::Pending(
            StagingView::Hash { hashing: fed },
        ));
        lemma_hashing_adds_up(fed, rest);
    }
}

/// The pieces that content is read in do not matter: a pending object that
/// is moved to its start, gives its content in any number of pieces, and is
/// moved to its start again, is staged with the address of all the pieces
/// taken together.
pub proof fn law_pieces_do_not_matter(fd: i32, algorithm: HashType, pieces: Seq<Seq<u8>>)
    requires
        forall|i: int| 0 <= i < pieces.len() ==> (#[trigger] pieces[i]).len() > 0,
        digest_of(algorithm, pieces.flatten()).len() > 0,
    ensures
        ({
            let moved = seq![ReplyView::Returned { value: 0, errno: 0 }];
            after_replies(stage_start(fd, algorithm), moved + read_in_pieces(pieces) + moved)
                == StepView::<StagingView, StagedView>::Done(
                Ok(
                    StagedView {
                        fd,
                        address: address_of(algorithm, pieces.flatten()),
                        algorithm,
                        content: pieces.flatten(),
                    },
                ),
            )
        }),
{
    let moved = seq![ReplyView::Returned { value: 0, errno: 0 }];
    let replies = moved + read_in_pieces(pieces) + moved;
    let hashing = HashingView::begin(fd, algorithm);
    let staged = StagedView {
        fd,
        address: address_of(algorithm, pieces.flatten()),
        algorithm,
        content: pieces.flatten(),
    };
    assert(hashing.consumed + pieces.flatten() =~= pieces.flatten());
    lemma_hashing_adds_up(hashing, pieces);
    let rewind = StagingView::Rewind { fd, algorithm };
    assert(rewind.takes(replies[0]) == StepView::<StagingView, StagedView>::Pending(
        StagingView::Hash { hashing },
    ));
    assert(after_replies(stage_start(fd, algorithm), replies) == after_replies(
        rewind.takes(replies[0]),
        replies.drop_first(),
    ));
    assert(replies.drop_first() =~= read_in_pieces(pieces) + moved);
    lemma_replies_go_on(
        StepView::<StagingView, StagedView>::Pending(StagingView::Hash { hashing }),
        read_in_pieces(pieces),
        moved,
    );
    let restore = StagingView::Restore { staged };
    assert(after_replies(StepView::<StagingView, StagedView>::Pending(restore), moved)
        == after_replies(restore.takes(moved[0]), moved.drop_first()));
}

/// Taking replies on is taking them from where the operation stood.
proof fn lemma_replies_go_on<M: Protocol>(
    step: StepView<M, M::Output>,
    first: Seq<ReplyView>,
    more: Seq<ReplyView>,
)
    ensures
        after_replies(step, first + more) == after_replies(after_replies(step, first), more),
    decreases first.len(),
{
    if first.len() == 0 {
        assert(first + more =~= more);
        if step is Pending {
            assert(after_replies(step, first) == step);
        }
    } else {
        match step {
            StepView::Done(_) => {
                assert(after_replies(step, first) == step);
            },
            StepView::Pending(machine) => {
                assert((first + more).drop_first() =~= first.drop_first() + more);
                assert((first + more)[0] == first[0]);
                lemma_replies_go_on(machine.takes(first[0]), first.drop_first(), more);
            },
        }
    }
}

/// Making a shard directory makes it where the name is free, finds it where
/// a directory has the name, and fails, with the name as taken, where a file
/// has it. No descriptor stays open, and nothing else changes.
pub proof fn law_mkdir_makes_or_finds(disk: Disk, store: ContAddrView, address: Seq<char>)
    requires
        disk.wf(),
        disk.is_root(store.dir),
        disk.has_room(1),
        address.len() >= 2,
        !has_nul(shard_path(address)),
    ensures
        mkdir(disk, store, address) == (
            with_shard(disk, shard_path(address)),
            StepView::<MakingShardView, ()>::Done(shard_outcome(disk, shard_path(address))),
        ),
{
    let path = shard_path(address);
    lemma_shard_runs::<MakingShardView>(disk, (), store.dir, path, 3);
    let asked = shard_requests(disk, path);
    lemma_run_done::<MakingShardView>(
        with_shard(disk, path),
        shard_outcome(disk, path),
        (3 - asked) as nat,
    );
}

/// Making a shard directory twice is making it once: where no file has its
/// name, the first making leaves the tree with the directory and nothing
/// else changed, and the second leaves it as it finds it.
pub proof fn law_mkdir_is_idempotent(disk: Disk, store: ContAddrView, address: Seq<char>)
    requires
        disk.wf(),
        disk.is_root(store.dir),
        disk.has_room(1),
        address.len() >= 2,
        !has_nul(shard_path(address)),
        !disk.files.contains_key(shard_path(address)),
    ensures
        ({
            let made = Disk { dirs: disk.dirs.insert(shard_path(address)), ..disk };
            &&& mkdir(disk, store, address) == (
                made,
                StepView::<MakingShardView, ()>::Done(Ok(())),
            )
            &&& mkdir(made, store, address) == (
                made,
                StepView::<MakingShardView, ()>::Done(Ok(())),
            )
            &&& made.wf()
        }),
{
    let made = Disk { dirs: disk.dirs.insert(shard_path(address)), ..disk };
    law_mkdir_makes_or_finds(disk, store, address);
    assert(with_shard(disk, shard_path(address)).dirs =~= made.dirs);
    law_mkdir_makes_or_finds(made, store, address);
}

/// After a store was opened, all 256 shard directories exist: on a tree
/// where no file has the name of a shard, opening the root hands the store
/// out, and leaves the tree with every shard directory beside what it had.
/// The one descriptor that stays open is that of the root.
pub proof fn law_open_makes_every_shard(disk: Disk, digest: HashType)
    requires
        openable(disk),
    ensures
        ({
            let store = ContAddrView { dir: disk.next(), digest };
            let opened = Disk {
                dirs: disk.dirs.union(shard_paths(0)),
                open: disk.open.insert(disk.next(), Descriptor::Root),
                ..disk
            };
            &&& open(disk, disk.root, digest) == (
                opened,
                StepView::<OpeningView, ContAddrView>::Done(Ok(store)),
            )
            &&& ready(opened, store)
            &&& !disk.open.contains_key(store.dir)
        }),
{
    lemma_room_for_fewer(disk.open.dom(), 2, 1);
    lemma_next_is_new(disk);
    let root = OpeningView::Root { path: disk.root, digest };
    lemma_run_step(disk, root, 769);
    let rooted = disk.with_open(Descriptor::Root);
    assert(rooted.open.dom() =~= disk.open.dom().insert(disk.next()));
    lemma_shards_are_made(rooted, disk.next(), digest, 0, 768);
    let opened = Disk { dirs: disk.dirs.union(shard_paths(0)), ..rooted };
    assert forall|index: u8| opened.dirs.contains(#[trigger] shard_path(shard_name(index))) by {
        assert(shard_paths(0).contains(shard_path(shard_name(index))));
    }
    assert forall|p: Seq<char>| !(opened.dirs.contains(p) && opened.files.contains_key(p)) by {
        if shard_paths(0).contains(p) {
            let j = choose|j: u8| 0 <= j && p == #[trigger] shard_path(shard_name(j));
        }
    }
}

/// Opening a store again succeeds: on the tree that opening a store left,
/// whatever was committed since, opening the same root hands out a store as
/// well, and changes nothing but that one more descriptor is open on the
/// root.
pub proof fn law_open_succeeds_again(disk: Disk, store: ContAddrView, again: HashType)
    requires
        ready(disk, store),
        !has_nul_byte(disk.root),
        disk.has_room(2),
    ensures
        ({
            let second = ContAddrView { dir: disk.next(), digest: again };
            let reopened = Disk { open: disk.open.insert(disk.next(), Descriptor::Root), ..disk };
            &&& open(disk, disk.root, again) == (
                reopened,
                StepView::<OpeningView, ContAddrView>::Done(Ok(second)),
            )
            &&& ready(reopened, second)
            &&& ready(reopened, store)
        }),
{
    assert forall|index: u8| !disk.files.contains_key(
        #[trigger] shard_path(shard_name(index)),
    ) by {
        assert(disk.dirs.contains(shard_path(shard_name(index))));
    }
    law_open_makes_every_shard(disk, again);
    assert(disk.dirs.union(shard_paths(0)) =~= disk.dirs) by {
        assert forall|p: Seq<char>| shard_paths(0).contains(p) implies disk.dirs.contains(p) by {
            let j = choose|j: u8| 0 <= j && p == #[trigger] shard_path(shard_name(j));
        }
    }
}

/// A file with the name of a shard is no shard: on a tree where a file has
/// the name of a shard directory, opening the root fails with the first
/// such name as taken. The root is closed again, and no file is touched.
pub proof fn law_open_refuses_a_file_among_the_shards(disk: Disk, digest: HashType, taken: u8)
    requires
        disk.wf(),
        !has_nul_byte(disk.root),
        disk.has_room(2),
        disk.files.contains_key(shard_path(shard_name(taken))),
        forall|j: u8| j < taken ==> !disk.files.contains_key(#[trigger] shard_path(shard_name(j))),
    ensures
        ({
            let (after, step) = open(disk, disk.root, digest);
            &&& step == StepView::<OpeningView, ContAddrView>::Done(
                Err(MakingShardView::begin(0, shard_path(shard_name(taken))).taken()),
            )
            &&& after.files == disk.files
            &&& after.open == disk.open
            &&& after.root == disk.root
            &&& after.piece == disk.piece
            &&& after.wf()
            &&& forall|p: Seq<char>| disk.dirs.contains(p) ==> after.dirs.contains(p)
        }),
{
    lemma_room_for_fewer(disk.open.dom(), 2, 1);
    lemma_next_is_new(disk);
    let root = OpeningView::Root { path: disk.root, digest };
    lemma_run_step(disk, root, 769);
    let rooted = disk.with_open(Descriptor::Root);
    assert(rooted.open.dom() =~= disk.open.dom().insert(disk.next()));
    lemma_shards_stop_at_a_file(rooted, disk.next(), digest, 0, taken, 768);
    assert(rooted.open.remove(disk.next()) =~= disk.open);
}

/// A store that was handed out is ready: on every tree, with whatever files
/// in it, where opening the root succeeds all 256 shard directories exist
/// afterwards, the descriptor of the store is open on the root, and no file
/// was touched.
pub proof fn law_open_hands_out_a_ready_store(disk: Disk, digest: HashType)
    requires
        disk.wf(),
        !has_nul_byte(disk.root),
        disk.has_room(2),
    ensures
        ({
            let (after, step) = open(disk, disk.root, digest);
            &&& step is Done
            &&& after.files == disk.files
            &&& step matches StepView::Done(Ok(store)) ==> ready(after, store)
            &&& step matches StepView::Done(Err(_)) ==> after.open == disk.open
        }),
{
    lemma_first_file(disk, 0);
    let first = first_file(disk, 0);
    if first < 256 {
        law_open_refuses_a_file_among_the_shards(disk, digest, first as u8);
    } else {
        assert forall|index: u8| !disk.files.contains_key(
            #[trigger] shard_path(shard_name(index)),
        ) by {}
        law_open_makes_every_shard(disk, digest);
    }
}

/// Corrupt content is put away: where the file at the path of an address
/// holds content with another address, the validated reading of the address
/// fails with the hash mismatch, and leaves the tree without the file and
/// otherwise as it was: no descriptor stays open, and the store is as open
/// as before. A reading of the address then fails as not found.
pub proof fn law_corruption_is_quarantined(disk: Disk, store: ContAddrView, address: Seq<char>)
    requires
        ready(disk, store),
        disk.has_room(1),
        askable(address),
        disk.files.contains_key(object_path(address)),
        digest_of(store.digest, disk.files[object_path(address)].content).len() > 0,
        address_of(store.digest, disk.files[object_path(address)].content) != address,
    ensures
        ({
            let put_away = Disk { files: disk.files.remove(object_path(address)), ..disk };
            &&& validate_read(disk, store, address) == (
                put_away,
                StepView::<ValidatingView, i32>::Done(Err(hash_mismatch())),
            )
            &&& read(put_away, store, address) == (
                put_away,
                StepView::<ReadingView, i32>::Done(
                    Err(last_error_wpath_view(ENOENT, object_path(address))),
                ),
            )
            &&& ready(put_away, store)
            &&& put_away.has_room(1)
            &&& !put_away.taken(object_path(address))
        }),
{
    let path = object_path(address);
    let content = disk.files[path].content;
    let fd = disk.next();
    let first = validate_start(store.dir, store.digest, address);
    lemma_next_is_new(disk);
    lemma_validate_hashes(disk, store, address);
    lemma_reads_are_few(disk.piece, content.len() as int);
    let asked = 1 + reads(disk.piece, content.len() as int);
    let hashed = run(disk, first, asked).0;
    let unlink = ValidatingView::Unlink { dir: store.dir, address, fd };
    let closing = ValidatingView::Closing { fd, error: hash_mismatch() };
    lemma_run_resumes(disk, first, asked, 2);
    lemma_run_step(hashed, unlink, 2);
    let removed = hashed.serve(unlink.asks()).0;
    lemma_run_step(removed, closing, 1);
    let closed = removed.serve(closing.asks()).0;
    lemma_run_done::<ValidatingView>(closed, Err(hash_mismatch()), 0);
    assert(closed.open =~= disk.open);
    lemma_run_is_over(disk, first, asked + 2, content.len() + 4);
    let put_away = Disk { files: disk.files.remove(path), ..disk };
    lemma_read_misses(put_away, store, address);
}

/// The quarantine frees the address: once corrupt content was put away, a
/// staged object with the address is published under it as under any free
/// address.
pub proof fn law_quarantine_frees_the_address(
    disk: Disk,
    store: ContAddrView,
    staged: StagedView,
)
    requires
        ready(disk, store),
        disk.has_room(1),
        staged.wf(),
        disk.is_file(staged.fd),
        disk.files.contains_key(object_path(staged.address)),
        digest_of(store.digest, disk.files[object_path(staged.address)].content).len() > 0,
        address_of(store.digest, disk.files[object_path(staged.address)].content)
            != staged.address,
    ensures
        ({
            let address = staged.address;
            let put_away = validate_read(disk, store, address).0;
            let stored = Object { content: disk.content_of(staged.fd), mode: OBJECT_MODE };
            &&& commit(put_away, store, staged) == (
                Disk {
                    files: disk.files.insert(object_path(address), stored),
                    open: disk.open.remove(staged.fd),
                    ..disk
                },
                StepView::<CommittingView, Seq<char>>::Done(Ok(address)),
            )
        }),
{
    let address = staged.address;
    lemma_shard_of_address(digest_of(staged.algorithm, staged.content));
    lemma_object_path_has_no_nul(address);
    law_corruption_is_quarantined(disk, store, address);
    let put_away = Disk { files: disk.files.remove(object_path(address)), ..disk };
    lemma_commit_publishes(put_away, store, staged);
    let stored = Object { content: disk.content_of(staged.fd), mode: OBJECT_MODE };
    assert(put_away.files.insert(object_path(address), stored) =~= disk.files.insert(
        object_path(address),
        stored,
    ));
}

/// Sound content is handed out: where the file at the path of an address
/// holds content with that address, the validated reading of the address
/// hands the file out, opened at its start, and nothing else changes.
pub proof fn law_sound_content_is_handed_out(disk: Disk, store: ContAddrView, address: Seq<char>)
    requires
        ready(disk, store),
        disk.has_room(1),
        askable(address),
        disk.files.contains_key(object_path(address)),
        digest_of(store.digest, disk.files[object_path(address)].content).len() > 0,
        address_of(store.digest, disk.files[object_path(address)].content) == address,
    ensures
        ({
            let handed_out = disk.with_open(
                Descriptor::File { object: disk.files[object_path(address)], position: 0 },
            );
            &&& validate_read(disk, store, address) == (
                handed_out,
                StepView::<ValidatingView, i32>::Done(Ok(disk.next())),
            )
            &&& ready(handed_out, store)
        }),
{
    let object = disk.files[object_path(address)];
    let fd = disk.next();
    let first = validate_start(store.dir, store.digest, address);
    lemma_next_is_new(disk);
    lemma_validate_hashes(disk, store, address);
    lemma_reads_are_few(disk.piece, object.content.len() as int);
    let asked = 1 + reads(disk.piece, object.content.len() as int);
    let hashed = run(disk, first, asked).0;
    let rewind = ValidatingView::Rewind { fd };
    lemma_run_resumes(disk, first, asked, 1);
    lemma_run_step(hashed, rewind, 1);
    let rewound = hashed.serve(rewind.asks()).0;
    lemma_run_done::<ValidatingView>(rewound, Ok(fd), 0);
    assert(rewound.open =~= disk.with_open(Descriptor::File { object, position: 0 }).open);
    lemma_run_is_over(disk, first, asked + 1, object.content.len() + 4);
}

/// The validated reading does not find what is not there: for an address
/// that no file has, it fails as not found, with the path of the address,
/// and nothing changes.
pub proof fn law_validated_read_misses(disk: Disk, store: ContAddrView, address: Seq<char>)
    requires
        disk.is_root(store.dir),
        askable(address),
        !disk.files.contains_key(object_path(address)),
    ensures
        validate_read(disk, store, address) == (
            disk,
            StepView::<ValidatingView, i32>::Done(
                Err(last_error_wpath_view(ENOENT, object_path(address))),
            ),
        ),
{
    let open = ValidatingView::Open { dir: store.dir, algorithm: store.digest, address };
    let fuel = disk.files[object_path(address)].content.len() + 4;
    lemma_run_step(disk, open, fuel);
    lemma_run_done::<ValidatingView>(
        disk,
        Err(last_error_wpath_view(ENOENT, object_path(address))),
        (fuel - 1) as nat,
    );
}

/// An address without a shard is rejected at once: reading, with or without
/// validation, fails as invalid input for an address of fewer than two
/// characters, and asks nothing of the tree, which stays as it is.
pub proof fn law_short_address_is_rejected(
    disk: Disk,
    store: ContAddrView,
    address: Seq<char>,
    fuel: nat,
)
    requires
        address.len() < 2,
    ensures
        read_start(store.dir, address) == StepView::<ReadingView, i32>::Done(
            Err(short_address()),
        ),
        validate_start(store.dir, store.digest, address) == StepView::<
            ValidatingView,
            i32,
        >::Done(Err(short_address())),
        run(disk, read_start(store.dir, address), fuel).0 == disk,
        run(disk, validate_start(store.dir, store.digest, address), fuel).0 == disk,
{
    lemma_run_done::<ReadingView>(disk, Err(short_address()), fuel);
    lemma_run_done::<ValidatingView>(disk, Err(short_address()), fuel);
}

} // verus!
