//! Styles: expressions, selectors, style sets and their matching against an element tree.
pub mod classes;
pub mod component_plan;
pub mod selector;
pub mod selector_parse;
pub mod selector_print;
pub mod selector_matcher;
pub mod style_set;
pub mod style_tuple;
pub mod update;
pub mod round_trip;
pub mod style_expr;

pub use selector::Selector;
pub use style_expr::StyleExpr;
