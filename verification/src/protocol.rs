//! What all the machines of the store have in common, as mathematics: each
//! asks for one primitive and takes its reply.
use crate::commit::CommittingView;
use crate::contaddr::{ContAddrView, StagedView};
use crate::digest::HashType;
use crate::error::StoreErrorView;
use crate::create::CreatingView;
use crate::read::{ReadingView, ValidatingView};
use crate::shard::{MakingShardView, OpeningView};
use crate::stage::{HashingView, StagingView};
use crate::step::StepView;
use crate::syscall::{ReplyView, RequestView};
use vstd::prelude::*;

verus! {

/// An operation of the store as a machine. For the operations that compute a
/// digest, this is the machine where OpenSSL does its part.
pub trait Protocol: Sized {
    /// What the machine hands out when it is done.
    type Output;

    /// The primitive the machine asks for.
    spec fn asks(self) -> RequestView;

    /// What the machine does with the reply.
    spec fn takes(self, reply: ReplyView) -> StepView<Self, Self::Output>;
}

impl Protocol for MakingShardView {
    type Output = ();

    open spec fn asks(self) -> RequestView {
        self.request()
    }

    open spec fn takes(self, reply: ReplyView) -> StepView<Self, ()> {
        self.resume(reply)
    }
}

impl Protocol for OpeningView {
    type Output = ContAddrView;

    open spec fn asks(self) -> RequestView {
        self.request()
    }

    open spec fn takes(self, reply: ReplyView) -> StepView<Self, ContAddrView> {
        self.resume(reply)
    }
}

impl Protocol for CreatingView {
    type Output = i32;

    open spec fn asks(self) -> RequestView {
        self.request()
    }

    open spec fn takes(self, reply: ReplyView) -> StepView<Self, i32> {
        self.resume(reply)
    }
}

impl Protocol for StagingView {
    type Output = StagedView;

    open spec fn asks(self) -> RequestView {
        self.request()
    }

    open spec fn takes(self, reply: ReplyView) -> StepView<Self, StagedView> {
        self.resume(reply, true)
    }
}

impl Protocol for CommittingView {
    type Output = Seq<char>;

    open spec fn asks(self) -> RequestView {
        self.request()
    }

    open spec fn takes(self, reply: ReplyView) -> StepView<Self, Seq<char>> {
        self.resume(reply)
    }
}

impl Protocol for ReadingView {
    type Output = i32;

    open spec fn asks(self) -> RequestView {
        self.request()
    }

    open spec fn takes(self, reply: ReplyView) -> StepView<Self, i32> {
        self.resume(reply)
    }
}

impl Protocol for ValidatingView {
    type Output = i32;

    open spec fn asks(self) -> RequestView {
        self.request()
    }

    open spec fn takes(self, reply: ReplyView) -> StepView<Self, i32> {
        self.resume(reply, true)
    }
}

/// Where an operation stands after it was handed the given replies, one
/// after the other, for as long as it went on.
pub open spec fn after_replies<M: Protocol>(
    step: StepView<M, M::Output>,
    replies: Seq<ReplyView>,
) -> StepView<M, M::Output>
    decreases replies.len(),
{
    match step {
        StepView::Done(_) => step,
        StepView::Pending(machine) => if replies.len() == 0 {
            step
        } else {
            after_replies(machine.takes(replies[0]), replies.drop_first())
        },
    }
}

/// An operation that hashes the content of a descriptor on its way: while a
/// hashing goes on, the operation asks what the hashing asks, and it goes on
/// in its own way when the hashing is over.
pub trait Hashes: Protocol {
    /// What the operation keeps beside the hashing while it hashes.
    type Frame;

    /// The operation where its hashing stands at `hashing`.
    spec fn hashing_at(frame: Self::Frame, hashing: HashingView) -> Self;

    /// How the operation goes on when the hashing that stood at `hashing`
    /// is over with `outcome`.
    spec fn hashed(
        frame: Self::Frame,
        hashing: HashingView,
        outcome: Result<Seq<char>, StoreErrorView>,
    ) -> StepView<Self, Self::Output>;

    /// The operation follows its hashing.
    proof fn lemma_follows(frame: Self::Frame, hashing: HashingView, reply: ReplyView)
        ensures
            Self::hashing_at(frame, hashing).asks() == hashing.request(),
            Self::hashing_at(frame, hashing).takes(reply) == match hashing.resume(reply, true) {
                StepView::Pending(next) => StepView::Pending(Self::hashing_at(frame, next)),
                StepView::Done(outcome) => Self::hashed(frame, hashing, outcome),
            },
    ;
}

impl Hashes for StagingView {
    type Frame = ();

    open spec fn hashing_at(frame: (), hashing: HashingView) -> StagingView {
        StagingView::Hash { hashing }
    }

    open spec fn hashed(
        frame: (),
        hashing: HashingView,
        outcome: Result<Seq<char>, StoreErrorView>,
    ) -> StepView<StagingView, StagedView> {
        StagingView::hashed(hashing, outcome)
    }

    proof fn lemma_follows(frame: (), hashing: HashingView, reply: ReplyView) {
    }
}

impl Hashes for ValidatingView {
    /// The descriptor of the root, and the address asked for.
    type Frame = (i32, Seq<char>);

    open spec fn hashing_at(frame: (i32, Seq<char>), hashing: HashingView) -> ValidatingView {
        ValidatingView::Hash { dir: frame.0, address: frame.1, hashing }
    }

    open spec fn hashed(
        frame: (i32, Seq<char>),
        hashing: HashingView,
        outcome: Result<Seq<char>, StoreErrorView>,
    ) -> StepView<ValidatingView, i32> {
        ValidatingView::hashed(frame.0, frame.1, hashing, outcome)
    }

    proof fn lemma_follows(frame: (i32, Seq<char>), hashing: HashingView, reply: ReplyView) {
    }
}

/// An operation that makes a shard directory on its way: while the making
/// goes on, the operation asks what the making asks, and it goes on in its
/// own way when the making is over.
pub trait MakesShard: Protocol {
    /// What the operation keeps beside the making of the shard.
    type Frame;

    /// The operation where the making of its shard stands at `shard`.
    spec fn making_at(frame: Self::Frame, shard: MakingShardView) -> Self;

    /// How the operation goes on when the making is over with `outcome`.
    spec fn made(frame: Self::Frame, outcome: Result<(), StoreErrorView>) -> StepView<
        Self,
        Self::Output,
    >;

    /// The operation follows the making of its shard.
    proof fn lemma_follows(frame: Self::Frame, shard: MakingShardView, reply: ReplyView)
        ensures
            Self::making_at(frame, shard).asks() == shard.request(),
            Self::making_at(frame, shard).takes(reply) == match shard.resume(reply) {
                StepView::Pending(next) => StepView::Pending(Self::making_at(frame, next)),
                StepView::Done(outcome) => Self::made(frame, outcome),
            },
    ;
}

impl MakesShard for MakingShardView {
    type Frame = ();

    open spec fn making_at(frame: (), shard: MakingShardView) -> MakingShardView {
        shard
    }

    open spec fn made(frame: (), outcome: Result<(), StoreErrorView>) -> StepView<
        MakingShardView,
        (),
    > {
        StepView::Done(outcome)
    }

    proof fn lemma_follows(frame: (), shard: MakingShardView, reply: ReplyView) {
    }
}

impl MakesShard for OpeningView {
    /// The descriptor of the root, the digest of the store, and the index of
    /// the shard that is being made.
    type Frame = (i32, HashType, u8);

    open spec fn making_at(frame: (i32, HashType, u8), shard: MakingShardView) -> OpeningView {
        OpeningView::Shards { dir: frame.0, digest: frame.1, index: frame.2, shard }
    }

    open spec fn made(frame: (i32, HashType, u8), outcome: Result<(), StoreErrorView>) -> StepView<
        OpeningView,
        ContAddrView,
    > {
        OpeningView::made(frame.0, frame.1, frame.2, outcome)
    }

    proof fn lemma_follows(frame: (i32, HashType, u8), shard: MakingShardView, reply: ReplyView) {
    }
}

} // verus!
