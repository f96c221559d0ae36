//! Many commits of one content, taking turns in any order.
use crate::address::{
    descriptor_path, lemma_descriptor_path_injective, lemma_shard_of_address, object_path,
    shard_name, shard_path,
};
use crate::commit::{already_present, commit_start, CommittingView};
use crate::contaddr::{ContAddrView, StagedView};
use crate::digest::digest_of;
use crate::laws::ready;
use crate::model::{Disk, Object};
use crate::protocol::Protocol;
use crate::step::StepView;
use crate::syscall::OBJECT_MODE;
use vstd::prelude::*;

verus! {

/// The commits as they start, one for each of the staged objects.
pub open spec fn starts(store: ContAddrView, objects: Seq<StagedView>) -> Seq<
    StepView<CommittingView, Seq<char>>,
> {
    Seq::new(
        objects.len(),
        |i: int| commit_start(store.dir, objects[i].fd, objects[i].address),
    )
}

/// The tree and the commits after the commit `who` took one turn: its
/// request was performed and it took the reply. A commit that is done, and
/// a turn of nobody, change nothing.
pub open spec fn turn(
    disk: Disk,
    racers: Seq<StepView<CommittingView, Seq<char>>>,
    who: int,
) -> (Disk, Seq<StepView<CommittingView, Seq<char>>>) {
    if 0 <= who < racers.len() {
        match racers[who] {
            StepView::Pending(machine) => {
                let (served, reply) = disk.serve(machine.asks());
                (served, racers.update(who, machine.takes(reply)))
            },
            StepView::Done(_) => (disk, racers),
        }
    } else {
        (disk, racers)
    }
}

/// The tree and the commits after the commits took their turns in the order
/// of `schedule`.
pub open spec fn race(
    disk: Disk,
    racers: Seq<StepView<CommittingView, Seq<char>>>,
    schedule: Seq<int>,
) -> (Disk, Seq<StepView<CommittingView, Seq<char>>>)
    decreases schedule.len(),
{
    if schedule.len() == 0 {
        (disk, racers)
    } else {
        let (served, moved) = turn(disk, racers, schedule[0]);
        race(served, moved, schedule.drop_first())
    }
}

/// The number of turns that `schedule` gives to the commit `who`.
pub open spec fn turns(schedule: Seq<int>, who: int) -> nat
    decreases schedule.len(),
{
    if schedule.len() == 0 {
        0
    } else if schedule[0] == who {
        1 + turns(schedule.drop_first(), who)
    } else {
        turns(schedule.drop_first(), who)
    }
}

/// How far a commit has come: the number of turns it has behind it at least.
pub open spec fn rank(racer: StepView<CommittingView, Seq<char>>) -> nat {
    match racer {
        StepView::Pending(CommittingView::Chmod { .. }) => 0,
        StepView::Pending(CommittingView::Link { .. }) => 1,
        StepView::Pending(CommittingView::Closing { .. }) => 2,
        StepView::Done(_) => 3,
    }
}

/// Whether `objects` are staged objects of one content, each behind a
/// descriptor of its own, on a tree with an open store where the address of
/// the content is free.
pub open spec fn lined_up(disk: Disk, store: ContAddrView, objects: Seq<StagedView>) -> bool {
    &&& ready(disk, store)
    &&& objects.len() > 0
    &&& !disk.taken(object_path(objects[0].address))
    &&& forall|i: int|
        0 <= i < objects.len() ==> {
            &&& (#[trigger] objects[i]).wf()
            &&& objects[i].algorithm == objects[0].algorithm
            &&& objects[i].content == objects[0].content
            &&& disk.is_file(objects[i].fd)
            &&& disk.content_of(objects[i].fd) == objects[0].content
        }
    &&& forall|i: int, j: int|
        0 <= i < objects.len() && 0 <= j < objects.len() && i != j ==> (#[trigger] objects[i]).fd
            != (#[trigger] objects[j]).fd
}

/// The descriptor that a commit works on.
spec fn fd_of(machine: CommittingView) -> i32 {
    match machine {
        CommittingView::Chmod { fd, .. } => fd,
        CommittingView::Link { fd, .. } => fd,
        CommittingView::Closing { fd, .. } => fd,
    }
}

/// The commit has not tried its link yet.
spec fn early(racer: StepView<CommittingView, Seq<char>>, dir: i32, object: StagedView) -> bool {
    ||| racer == StepView::<CommittingView, Seq<char>>::Pending(
        CommittingView::Chmod { dir, fd: object.fd, address: object.address },
    )
    ||| racer == StepView::<CommittingView, Seq<char>>::Pending(
        CommittingView::Link { dir, fd: object.fd, address: object.address },
    )
}

/// The link of the commit was made.
spec fn won(racer: StepView<CommittingView, Seq<char>>, object: StagedView) -> bool {
    ||| racer == StepView::<CommittingView, Seq<char>>::Pending(
        CommittingView::Closing { fd: object.fd, outcome: Ok(object.address) },
    )
    ||| racer == StepView::<CommittingView, Seq<char>>::Done(Ok(object.address))
}

/// The link of the commit was refused, the address being taken.
spec fn lost(racer: StepView<CommittingView, Seq<char>>, object: StagedView) -> bool {
    ||| racer == StepView::<CommittingView, Seq<char>>::Pending(
        CommittingView::Closing { fd: object.fd, outcome: Err(already_present(object.address)) },
    )
    ||| racer == StepView::<CommittingView, Seq<char>>::Done(
        Err(already_present(object.address)),
    )
}

/// What holds of one commit at every moment of the race: before its link it
/// has its object open, with the content, and with the mode of a published
/// object once the mode was set; after its link it has won or lost.
spec fn stands(
    disk: Disk,
    racer: StepView<CommittingView, Seq<char>>,
    dir: i32,
    object: StagedView,
    content: Seq<u8>,
) -> bool {
    ||| {
        &&& early(racer, dir, object)
        &&& disk.is_file(object.fd)
        &&& disk.content_of(object.fd) == content
        &&& racer matches StepView::Pending(CommittingView::Link { .. })
            ==> disk.open[object.fd]->object.mode == OBJECT_MODE
    }
    ||| won(racer, object)
    ||| lost(racer, object)
}

/// Exactly one of the commits has won.
spec fn one_has_won(
    racers: Seq<StepView<CommittingView, Seq<char>>>,
    objects: Seq<StagedView>,
) -> bool {
    exists|w: int|
        0 <= w < objects.len() && won(#[trigger] racers[w], objects[w]) && forall|i: int|
            0 <= i < objects.len() && i != w ==> !won(#[trigger] racers[i], objects[i])
}

/// The files of the tree once the content is published.
spec fn published(origin: Disk, objects: Seq<StagedView>) -> Map<Seq<char>, Object> {
    origin.files.insert(
        object_path(objects[0].address),
        Object { content: objects[0].content, mode: OBJECT_MODE },
    )
}

/// What holds of the tree and the commits at every moment of the race.
spec fn racing(
    origin: Disk,
    store: ContAddrView,
    objects: Seq<StagedView>,
    disk: Disk,
    racers: Seq<StepView<CommittingView, Seq<char>>>,
) -> bool {
    &&& racers.len() == objects.len()
    &&& disk.is_root(store.dir)
    &&& disk.dirs == origin.dirs
    &&& forall|i: int|
        0 <= i < objects.len() ==> stands(
            disk,
            #[trigger] racers[i],
            store.dir,
            objects[i],
            objects[0].content,
        )
    &&& {
        ||| {
            &&& disk.files == origin.files
            &&& forall|i: int|
                0 <= i < objects.len() ==> early(#[trigger] racers[i], store.dir, objects[i])
        }
        ||| disk.files == published(origin, objects) && one_has_won(racers, objects)
    }
}

/// All the objects have the address of the first, none sits behind the
/// descriptor of the root, and the shard of the address is there.
proof fn lemma_one_address(disk: Disk, store: ContAddrView, objects: Seq<StagedView>)
    requires
        lined_up(disk, store, objects),
    ensures
        forall|i: int|
            0 <= i < objects.len() ==> (#[trigger] objects[i]).address == objects[0].address,
        forall|i: int| 0 <= i < objects.len() ==> (#[trigger] objects[i]).fd != store.dir,
        disk.dirs.contains(object_path(objects[0].address).take(4)),
{
    let digest = digest_of(objects[0].algorithm, objects[0].content);
    lemma_shard_of_address(digest);
    assert(objects[0].wf());
    assert(disk.dirs.contains(shard_path(shard_name(digest[0]))));
    assert forall|i: int| 0 <= i < objects.len() implies (#[trigger] objects[i]).address
        == objects[0].address by {
        assert(objects[i].wf());
    }
    assert forall|i: int| 0 <= i < objects.len() implies (#[trigger] objects[i]).fd
        != store.dir by {
        assert(disk.is_file(objects[i].fd));
    }
}

/// The turn of a commit leaves every descriptor but its own as it is, and
/// the directories as well.
proof fn lemma_turn_leaves_others(disk: Disk, machine: CommittingView, other: i32)
    requires
        other != fd_of(machine),
    ensures
        ({
            let served = disk.serve(machine.asks()).0;
            &&& served.open.contains_key(other) == disk.open.contains_key(other)
            &&& served.open[other] == disk.open[other]
            &&& served.dirs == disk.dirs
        }),
{
}

/// The one who has won stays the one: a turn of a commit that neither wins
/// nor gives its win up leaves exactly one commit as having won.
proof fn lemma_winner_stays(
    racers: Seq<StepView<CommittingView, Seq<char>>>,
    objects: Seq<StagedView>,
    who: int,
    moved: StepView<CommittingView, Seq<char>>,
)
    requires
        racers.len() == objects.len(),
        0 <= who < racers.len(),
        one_has_won(racers, objects),
        won(moved, objects[who]) == won(racers[who], objects[who]),
    ensures
        one_has_won(racers.update(who, moved), objects),
{
    let after = racers.update(who, moved);
    let w = choose|w: int|
        0 <= w < objects.len() && won(#[trigger] racers[w], objects[w]) && forall|i: int|
            0 <= i < objects.len() && i != w ==> !won(#[trigger] racers[i], objects[i]);
    assert(won(after[w], objects[w]));
    assert forall|i: int| 0 <= i < objects.len() && i != w implies !won(
        #[trigger] after[i],
        objects[i],
    ) by {
        if i != who {
            assert(after[i] == racers[i]);
        }
    }
}

/// A turn keeps what holds of the race.
proof fn lemma_turn_keeps(
    origin: Disk,
    store: ContAddrView,
    objects: Seq<StagedView>,
    disk: Disk,
    racers: Seq<StepView<CommittingView, Seq<char>>>,
    who: int,
)
    requires
        lined_up(origin, store, objects),
        racing(origin, store, objects, disk, racers),
    ensures
        racing(origin, store, objects, turn(disk, racers, who).0, turn(disk, racers, who).1),
{
    lemma_one_address(origin, store, objects);
    let dir = store.dir;
    let content = objects[0].content;
    let path = object_path(objects[0].address);
    let (served, moved) = turn(disk, racers, who);
    if 0 <= who < racers.len() && racers[who] is Pending {
        let object = objects[who];
        let fd = object.fd;
        let machine = racers[who]->Pending_0;
        let decided = disk.files == published(origin, objects) && one_has_won(racers, objects);
        assert(stands(disk, racers[who], dir, object, content));
        assert(fd_of(machine) == fd);
        lemma_turn_leaves_others(disk, machine, dir);
        assert forall|i: int| 0 <= i < objects.len() && i != who implies stands(
            served,
            #[trigger] moved[i],
            dir,
            objects[i],
            content,
        ) by {
            assert(moved[i] == racers[i]);
            lemma_turn_leaves_others(disk, machine, objects[i].fd);
        }
        if machine is Link {
            assert(early(racers[who], dir, object));
            assert(disk.shown_under(descriptor_path(fd as int)) == Some(fd)) by {
                let shown = choose|other: i32|
                    disk.open.contains_key(other) && descriptor_path(other as int)
                        == descriptor_path(fd as int);
                lemma_descriptor_path_injective(shown as int, fd as int);
            }
        }
        if machine is Link && !disk.files.contains_key(path) {
            assert(served.files =~= published(origin, objects));
            assert(won(moved[who], object));
            assert forall|i: int| 0 <= i < objects.len() && i != who implies !won(
                #[trigger] moved[i],
                objects[i],
            ) by {
                assert(early(racers[i], dir, objects[i]));
            }
        } else {
            assert(served.files == disk.files) by {
                if machine is Link {
                    assert(disk.taken(path));
                }
            }
            assert(stands(served, moved[who], dir, object, content));
            assert(won(moved[who], object) == won(racers[who], object));
            if decided {
                lemma_winner_stays(racers, objects, who, moved[who]);
            } else {
                assert(machine is Chmod);
                assert forall|i: int| 0 <= i < objects.len() implies early(
                    #[trigger] moved[i],
                    dir,
                    objects[i],
                ) by {
                    if i != who {
                        assert(moved[i] == racers[i]);
                    }
                }
            }
        }
    }
}

/// A race keeps what holds of it.
proof fn lemma_race_keeps(
    origin: Disk,
    store: ContAddrView,
    objects: Seq<StagedView>,
    disk: Disk,
    racers: Seq<StepView<CommittingView, Seq<char>>>,
    schedule: Seq<int>,
)
    requires
        lined_up(origin, store, objects),
        racing(origin, store, objects, disk, racers),
    ensures
        racing(
            origin,
            store,
            objects,
            race(disk, racers, schedule).0,
            race(disk, racers, schedule).1,
        ),
    decreases schedule.len(),
{
    if schedule.len() > 0 {
        lemma_turn_keeps(origin, store, objects, disk, racers, schedule[0]);
        let (served, moved) = turn(disk, racers, schedule[0]);
        lemma_race_keeps(origin, store, objects, served, moved, schedule.drop_first());
    }
}

/// No commit waits for another: on every tree, whatever the other commits
/// do, a commit is done once it has had three turns of its own.
pub proof fn law_every_commit_ends(
    disk: Disk,
    racers: Seq<StepView<CommittingView, Seq<char>>>,
    schedule: Seq<int>,
    who: int,
)
    requires
        0 <= who < racers.len(),
    ensures
        race(disk, racers, schedule).1.len() == racers.len(),
        rank(race(disk, racers, schedule).1[who]) >= rank(racers[who]),
        rank(race(disk, racers, schedule).1[who]) >= 3 || rank(race(disk, racers, schedule).1[who])
            >= rank(racers[who]) + turns(schedule, who),
        turns(schedule, who) >= 3 ==> race(disk, racers, schedule).1[who] is Done,
    decreases schedule.len(),
{
    if schedule.len() > 0 {
        let (served, moved) = turn(disk, racers, schedule[0]);
        assert(moved.len() == racers.len());
        assert(rank(moved[who]) >= rank(racers[who]));
        if schedule[0] == who && racers[who] is Pending {
            assert(rank(moved[who]) >= rank(racers[who]) + 1);
        }
        law_every_commit_ends(served, moved, schedule.drop_first(), who);
    }
}

/// Of many commits of one content, one wins: whatever the order is in which
/// the commits of staged objects with the same content take their turns,
/// once each has had three turns all of them are done, exactly one has
/// handed out the address, and every other has found it present. The tree
/// then holds, at that address, one file with the content and the mode of a
/// published object; nothing else has changed below the root.
pub proof fn law_one_commit_wins(
    disk: Disk,
    store: ContAddrView,
    objects: Seq<StagedView>,
    schedule: Seq<int>,
)
    requires
        lined_up(disk, store, objects),
        forall|i: int| 0 <= i < objects.len() ==> turns(schedule, i) >= 3,
    ensures
        ({
            let (after, racers) = race(disk, starts(store, objects), schedule);
            let address = objects[0].address;
            &&& racers.len() == objects.len()
            &&& exists|w: int|
                0 <= w < objects.len() && #[trigger] racers[w] == StepView::<
                    CommittingView,
                    Seq<char>,
                >::Done(Ok(address)) && forall|i: int|
                    0 <= i < objects.len() && i != w ==> #[trigger] racers[i] == StepView::<
                        CommittingView,
                        Seq<char>,
                    >::Done(Err(already_present(address)))
            &&& after.files == disk.files.insert(
                object_path(address),
                Object { content: objects[0].content, mode: OBJECT_MODE },
            )
            &&& after.dirs == disk.dirs
            &&& after.is_root(store.dir)
        }),
{
    lemma_one_address(disk, store, objects);
    let first = starts(store, objects);
    assert(racing(disk, store, objects, disk, first)) by {
        assert forall|i: int| 0 <= i < objects.len() implies early(
            #[trigger] first[i],
            store.dir,
            objects[i],
        ) by {}
    }
    lemma_race_keeps(disk, store, objects, disk, first, schedule);
    let (after, racers) = race(disk, first, schedule);
    let address = objects[0].address;
    assert forall|i: int| 0 <= i < objects.len() implies (#[trigger] racers[i]) is Done by {
        law_every_commit_ends(disk, first, schedule, i);
    }
    assert(racers[0] is Done);
    assert(!early(racers[0], store.dir, objects[0]));
    let w = choose|w: int|
        0 <= w < objects.len() && won(#[trigger] racers[w], objects[w]) && forall|i: int|
            0 <= i < objects.len() && i != w ==> !won(#[trigger] racers[i], objects[i]);
    assert(racers[w] is Done);
    assert(racers[w] == StepView::<CommittingView, Seq<char>>::Done(Ok(address)));
    assert forall|i: int| 0 <= i < objects.len() && i != w implies #[trigger] racers[i]
        == StepView::<CommittingView, Seq<char>>::Done(Err(already_present(address))) by {
        assert(racers[i] is Done);
        assert(stands(after, racers[i], store.dir, objects[i], objects[0].content));
    }
}

} // verus!
