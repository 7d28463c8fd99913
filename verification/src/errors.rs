use vstd::prelude::*;

verus! {

/// Everything that construction or evaluation of a piecewise function can
/// report. All of these are recoverable values handed back to the caller;
/// no operation of this crate panics.
#[derive(Clone, Copy, Debug, PartialEq, Eq)]
pub enum PiecewiseErr {
    /// Construction was given no points at all.
    InputEmpty,
    /// Two points share an x but disagree on y: the input is not a function.
    InputUndefined,
    /// An evaluation query lies outside the constructed domain.
    NotInDomain,
    /// A supplied value is not a number.
    InputNaN,
}

impl PiecewiseErr {
    /// A short human-readable description of the error.
    pub fn message(&self) -> (r: &'static str)
        ensures
            r@ == match *self {
                PiecewiseErr::InputEmpty => "The provided segment is empty"@,
                PiecewiseErr::InputUndefined => "The function is undefined"@,
                PiecewiseErr::NotInDomain => "The value is not in the domain"@,
                PiecewiseErr::InputNaN => "The value provided is NaN"@,
            },
    {
        match *self {
            PiecewiseErr::InputEmpty => "The provided segment is empty",
            PiecewiseErr::InputUndefined => "The function is undefined",
            PiecewiseErr::NotInDomain => "The value is not in the domain",
            PiecewiseErr::InputNaN => "The value provided is NaN",
        }
    }
}

} // verus!
