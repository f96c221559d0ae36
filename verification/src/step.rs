//! How an operation hands control back to its caller.
use crate::error::{StoreError, StoreErrorView};
use vstd::prelude::*;

verus! {

/// Where an operation stands: it waits for the reply to the request of the
/// machine `M`, or it is over with a `T` or a failure.
pub enum Step<M, T> {
    /// The operation goes on: perform the machine's request, then resume it.
    Pending(M),
    /// The operation is over.
    Done(Result<T, StoreError>),
}

/// The mathematical content of a [`Step`].
pub enum StepView<M, T> {
    Pending(M),
    Done(Result<T, StoreErrorView>),
}

impl<M: View, T: View> View for Step<M, T> {
    type V = StepView<M::V, T::V>;

    open spec fn view(&self) -> StepView<M::V, T::V> {
        match self {
            Step::Pending(machine) => StepView::Pending(machine@),
            Step::Done(Ok(value)) => StepView::Done(Ok(value@)),
            Step::Done(Err(e)) => StepView::Done(Err(e@)),
        }
    }
}

} // verus!
