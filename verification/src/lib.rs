//! Quill: the verified core of a reactive UI framework. This crate holds the parts of the
//! framework that are pure logic: style selectors (their grammar, printing and matching),
//! style sets and the bookkeeping of views and their local state.

pub mod cursor;
mod sharing;
pub mod style;
pub mod style_expr;
pub mod view;

pub use cursor::Cursor;
