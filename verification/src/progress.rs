//! Procedures that need answers from outside.
//!
//! A procedure is a function of what it was called with and of the answers it has been given so
//! far. Where the next answer is missing it says what to ask; otherwise it has come to its end.
//! Whoever runs it performs what is asked, appends the answer to the list and calls it again.

use vstd::prelude::*;

verus! {

/// How far a procedure gets with the answers that are there.
pub enum Progress<Q, E, T> {
    /// The procedure waits for the answer to a question.
    Ask(Q),
    /// The procedure failed, and the number of answers it had used up by then.
    Failed(E, usize),
    /// The procedure has a result, and the number of answers it has used up.
    Done(T, usize),
}

/// How far a procedure gets, in specifications.
pub enum Step<Q, E, T> {
    Ask(Q),
    Failed(E, int),
    Done(T, int),
}

impl<Q: DeepView, E: DeepView, T: DeepView> DeepView for Progress<Q, E, T> {
    type V = Step<Q::V, E::V, T::V>;

    open spec fn deep_view(&self) -> Step<Q::V, E::V, T::V> {
        match self {
            Progress::Ask(question) => Step::Ask(question.deep_view()),
            Progress::Failed(error, used) => Step::Failed(error.deep_view(), *used as int),
            Progress::Done(value, used) => Step::Done(value.deep_view(), *used as int),
        }
    }
}

} // verus!
