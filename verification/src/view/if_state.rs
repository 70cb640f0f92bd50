//! Conditional views: which of two children is shown, and how an update goes.
use vstd::prelude::*;

verus! {

/// The state of a conditional view: the state of the child that is shown.
pub enum IfState<Pos, Neg> {
    /// The condition held; the state of the first child.
    True(Pos),
    /// The condition did not hold; the state of the second child.
    False(Neg),
}

/// What updating a conditional view does.
#[derive(Clone, Copy, PartialEq, Eq, Structural, Debug)]
pub enum IfStep {
    /// Update the state of the first child in place.
    UpdateTrue,
    /// Update the state of the second child in place.
    UpdateFalse,
    /// Raze the second child, mark the shape as changed, and build the first child.
    ReplaceWithTrue,
    /// Raze the first child, mark the shape as changed, and build the second child.
    ReplaceWithFalse,
}

impl<Pos, Neg> IfState<Pos, Neg> {
    /// The step that an update with condition `test` takes: the shown child is updated in
    /// place when the condition still selects it, and replaced otherwise.
    pub fn update_step(&self, test: bool) -> (r: IfStep)
        ensures
            r == (if test {
                if self is True {
                    IfStep::UpdateTrue
                } else {
                    IfStep::ReplaceWithTrue
                }
            } else {
                if self is False {
                    IfStep::UpdateFalse
                } else {
                    IfStep::ReplaceWithFalse
                }
            }),
    {
        if test {
            match self {
                IfState::True(_) => IfStep::UpdateTrue,
                IfState::False(_) => IfStep::ReplaceWithTrue,
            }
        } else {
            match self {
                IfState::False(_) => IfStep::UpdateFalse,
                IfState::True(_) => IfStep::ReplaceWithFalse,
            }
        }
    }
}

} // verus!
