//! Views: their local state and the bookkeeping of lists of child views.
pub mod local;
pub mod keyed;
pub mod indexed;
pub mod if_state;
pub mod render;
pub mod span;
