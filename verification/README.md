# Quill

Quill is a reactive UI framework for the Bevy engine. This crate is its logic, written in
Verus and proved against its contracts; the engine side lives in `app/`.

## Layout

- `src/style/selector.rs` — style selectors and their mathematical model; depth and the
  pseudo-classes a selector uses.
- `src/style/selector_parse.rs` — the selector grammar, stated as spec functions over
  characters, and a parser proved to follow it.
- `src/style/selector_print.rs` — the CSS-like text of a selector.
- `src/style/round_trip.rs` — the law that printing a selector and parsing the text gives it
  back, for every selector in the form that both agree on.
- `src/style/selector_matcher.rs` — matching selectors against a snapshot of the element tree
  (parents, children, class lists, hover and focus), with the laws that matching ignores the
  hover state when no `:hover` is used and looks no higher than a selector's depth.
- `src/style/style_set.rs`, `style_tuple.rs` — style sets, shared handles, the summary an
  element keeps of its styles, and tuples of handles.
- `src/style/component_plan.rs` — which engine components a computed style inserts, updates
  or removes on an element, the transform and its animation included.
- `src/style/update.rs` — deciding which elements need their styles computed again, and the
  law that an element found unchanged keeps every selector's answer.
- `src/style/classes.rs` — the class names of an element, held in the engine's hash set, and
  (possibly conditional, nested) tuples of class names.
- `src/view/keyed.rs` — the keyed list update: the longest run of equal keys is kept and the
  rest handled around it; proved to fill every new item once, consume every old item once and
  move a state only between equal keys.
- `src/view/indexed.rs`, `if_state.rs` — positional lists and conditional views.
- `src/view/render.rs` — the rebuild loop of presenters and when it gives up.
- `src/view/span.rs` — spans of display nodes, their nodes in order, and what a sequence
  does with the spans of its children.
- `src/view/local.rs` — local state slots of views and their shared change flag.
- `app/` — components, the conversion of the engine's world into matcher snapshots, and views
  that run the verified plans on a `World`.
