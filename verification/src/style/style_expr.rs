//! The value of a style attribute.
use vstd::prelude::*;

verus! {

/// The value of a style attribute, which can be either a constant or a variable.
#[derive(Debug, Clone, PartialEq)]
pub enum StyleExpr<T> {
    /// An expression that has already been cast to the correct type.
    Constant(T),
}

/// Errors that reading a style expression can report. No read fails yet.
pub enum StyleError {
    /// Reserved for failures of variable lookup; no function of this module returns it.
    Unsupported,
}

impl<T: Copy> StyleExpr<T> {
    /// Return the value of this style expression, but only if it's a constant. Otherwise
    /// returns an error.
    pub fn get(&self) -> (res: Result<T, StyleError>)
        ensures
            res == Ok::<T, StyleError>(self->Constant_0),
    {
        match self {
            StyleExpr::Constant(val) => Ok(*val),
        }
    }
}

} // verus!
