//! What can go wrong.

use vstd::prelude::*;

verus! {

/// The error of a failed model run or node lookup; its contents are `rten`'s own
/// business here.
#[verifier::external_type_specification]
#[verifier::external_body]
pub struct ExRunError(rten::RunError);

/// The kinds of values that a network gives out.
#[derive(Debug, Clone, Copy, PartialEq, Eq, Structural)]
pub enum ValueKind {
    FloatTensor,
    Int32Tensor,
    Int8Tensor,
    UInt8Tensor,
    FloatSequence,
    Int32Sequence,
    Int8Sequence,
    UInt8Sequence,
    /// A kind that is not among the others.
    Unknown,
}

/// A network's output is not the kind of tensor that was expected.
#[derive(Debug, Clone, Copy, PartialEq, Eq, Structural)]
pub enum ValueError {
    /// The elements have another type, or the value is no tensor.
    WrongType { actual: ValueKind, expected: ValueKind },
    /// The tensor has another number of axes.
    WrongRank { actual: usize, expected: usize },
}

/// Errors of this crate.
#[derive(Debug)]
pub enum Error {
    /// The model files are not what they should be.
    Config(String),
    /// A tensor cannot be given the shape that is needed.
    Model(String),
    /// A node is missing from a network, or running the network failed.
    Run(rten::RunError),
    /// A network's output has an unexpected type or rank.
    Value(ValueError),
}

/// An [`Error`], with its text as a sequence of characters.
pub enum Fault {
    Config(Seq<char>),
    Model(Seq<char>),
    Run(rten::RunError),
    Value(ValueError),
}

impl View for Error {
    type V = Fault;

    open spec fn view(&self) -> Fault {
        match *self {
            Error::Config(text) => Fault::Config(text@),
            Error::Model(text) => Fault::Model(text@),
            Error::Run(error) => Fault::Run(error),
            Error::Value(error) => Fault::Value(error),
        }
    }
}

/// A result, with its value and its error both taken by their views.
pub open spec fn seen<T: View>(result: Result<T, Error>) -> Result<T::V, Fault> {
    match result {
        Ok(value) => Ok(value@),
        Err(error) => Err(error@),
    }
}

/// What is seen of a result is its kind with what it carries: a value stays a value,
/// and each error stays the error that it is.
pub proof fn law_results_are_seen_as_they_are<T: View>(
    value: T,
    text: String,
    run: rten::RunError,
    kind: ValueError,
)
    ensures
        seen(Ok::<T, Error>(value)) == Ok::<T::V, Fault>(value@),
        seen(Err::<T, Error>(Error::Config(text))) == Err::<T::V, Fault>(Fault::Config(text@)),
        seen(Err::<T, Error>(Error::Model(text))) == Err::<T::V, Fault>(Fault::Model(text@)),
        seen(Err::<T, Error>(Error::Run(run))) == Err::<T::V, Fault>(Fault::Run(run)),
        seen(Err::<T, Error>(Error::Value(kind))) == Err::<T::V, Fault>(Fault::Value(kind)),
{
}

} // verus!
