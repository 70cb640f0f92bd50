//! Style expressions that may refer to named variables.
use vstd::prelude::*;

verus! {

/// A style value: either a constant, or a reference to a named variable "${varname}".
#[derive(Debug, Clone)]
pub enum StyleExpr<T> {
    /// An expression that has already been cast to the correct type.
    Constant(T),
    /// A reference to a named variable "${varname}".
    Var(String),
}

/// Errors that evaluating a style expression can report. No evaluation fails yet.
pub enum StyleError {
    /// Reserved for failures of variable lookup; no function of this module returns it.
    Unsupported,
}

impl<T: Copy> StyleExpr<T> {
    /// Evaluate the expression. Variables are not supported yet: evaluating one is not
    /// allowed, so only constants may be passed.
    pub fn eval(&self) -> (res: Result<T, StyleError>)
        requires
            self is Constant,
        ensures
            res == Ok::<T, StyleError>(self->Constant_0),
    {
        match self {
            StyleExpr::Constant(val) => Ok(*val),
            StyleExpr::Var(_) => unreached(),
        }
    }
}

} // verus!
