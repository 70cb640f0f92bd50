use std::collections::HashMap;

use quill::style::classes::ElementClasses;
use quill::style::selector::Selector;
use quill::style::selector_matcher::SelectorMatcher;
use quill::style::style_set::{ElementStyles, StyleHandle, StyleSet};
use quill::style::update::is_changed;

// A small tree:
//   1
//   +-- 2 (classes: "panel")
//   |   +-- 4 (classes: "button", "primary")
//   |   +-- 5
//   +-- 3
fn tree(hovered: Vec<u64>, focus: Option<u64>) -> SelectorMatcher {
    let mut parents = HashMap::new();
    parents.insert(2u64, 1u64);
    parents.insert(3, 1);
    parents.insert(4, 2);
    parents.insert(5, 2);
    let mut children = HashMap::new();
    children.insert(1u64, vec![2u64, 3]);
    children.insert(2, vec![4, 5]);
    let mut classes = HashMap::new();
    classes.insert(2u64, class_list(&["panel"]));
    classes.insert(4, class_list(&["button", "primary"]));
    SelectorMatcher::new(parents, children, classes, hovered, focus)
}

fn class_list(names: &[&str]) -> ElementClasses {
    let mut c = ElementClasses::new();
    for n in names {
        c.add_class(n);
    }
    c
}

fn sel(text: &str) -> Selector {
    text.parse::<Selector>().unwrap()
}

#[test]
fn matches_classes_and_parents() {
    let m = tree(vec![], None);
    assert!(m.selector_match(&sel("&.button"), 4));
    assert!(m.selector_match(&sel(".button.primary"), 4));
    assert!(!m.selector_match(&sel(".button.secondary"), 4));
    assert!(m.selector_match(&sel(".panel > &.button"), 4));
    assert!(!m.selector_match(&sel(".panel > &.button"), 5));
    assert!(!m.selector_match(&sel(".panel > &"), 2));
    assert!(m.selector_match(&sel(".panel > * > &"), 4) == false);
    assert!(m.selector_match(&sel("* > .panel > &"), 4));
    assert!(m.selector_match(&sel(".nothing, .panel > &"), 5));
    assert!(m.selector_match(&sel("&"), 3));
}

#[test]
fn matches_hover_of_ancestors() {
    // An element is hovered when it, or one of its ancestors, is in the hover list.
    let m = tree(vec![2], None);
    assert!(m.is_hovering(2));
    assert!(m.is_hovering(4));
    assert!(m.is_hovering(5));
    assert!(!m.is_hovering(1));
    assert!(!m.is_hovering(3));
    let leaf = tree(vec![4], None);
    assert!(leaf.is_hovering(4));
    assert!(!leaf.is_hovering(2));
    assert!(m.selector_match(&sel(".panel:hover"), 2));
    assert!(m.selector_match(&sel(":hover > &"), 5));
    assert!(!m.selector_match(&sel("&:hover"), 3));
}

#[test]
fn matches_focus() {
    let m = tree(vec![], Some(5));
    assert!(m.is_focused(5));
    assert!(!m.is_focused(2));
    assert!(m.is_focus_visible(5));
    assert!(m.is_focus_within(2));
    assert!(m.is_focus_within(1));
    assert!(!m.is_focus_within(4));
    assert!(m.selector_match(&sel(":focus"), 5));
    assert!(m.selector_match(
        &Selector::FocusWithin(Box::new(Selector::Accept)),
        2
    ));
    let none = tree(vec![], None);
    assert!(!none.is_focus_within(1));
}

#[test]
fn matches_first_and_last_child() {
    let m = tree(vec![], None);
    assert!(m.is_first_child(4));
    assert!(!m.is_last_child(4));
    assert!(m.is_last_child(5));
    assert!(m.is_first_child(2));
    assert!(m.is_last_child(3));
    assert!(!m.is_first_child(1));
    assert!(m.selector_match(&sel("&:last-child"), 5));
    assert!(!m.selector_match(&sel("&:first-child"), 5));
}

#[test]
fn style_set_queries() {
    let mut set: StyleSet<u32> = StyleSet::new();
    set.props.push(1);
    set.selectors.push((Box::new(sel(".panel > &")), vec![2]));
    set.selectors.push((Box::new(sel(".button:hover")), vec![3]));
    set.selectors.push((Box::new(sel("&.button")), vec![4]));
    assert_eq!(set.depth(), 2);
    assert!(set.uses_hover());
    assert!(!set.uses_focus_within());
    let m = tree(vec![], None);
    assert_eq!(set.matching_selectors(&m, 4), vec![0, 2]);
    assert_eq!(set.matching_selectors(&m, 3), Vec::<usize>::new());
    let hovered = tree(vec![4], None);
    assert_eq!(set.matching_selectors(&hovered, 4), vec![0, 1, 2]);
    assert_eq!(StyleSet::<u32>::new().depth(), 0);
}

#[test]
fn element_styles_summary() {
    let mut a: StyleSet<u32> = StyleSet::new();
    a.selectors.push((Box::new(sel(".x > .y > &")), vec![]));
    let mut b: StyleSet<u32> = StyleSet::new();
    b.selectors.push((Box::new(sel("&:hover")), vec![]));
    let mut styles =
        ElementStyles::new(vec![StyleHandle::new(a), StyleHandle::new(b)]);
    assert_eq!(styles.selector_depth, 3);
    assert!(styles.uses_hover);
    assert!(!styles.uses_focus_within);
    styles.update(vec![]);
    assert_eq!(styles.selector_depth, 0);
    assert!(!styles.uses_hover);
}

#[test]
fn changes_of_ancestors() {
    let now = tree(vec![4], None);
    let before = tree(vec![], None);
    // Own styles changed.
    assert!(is_changed(true, 0, false, 5, &now, &before, &vec![]));
    // Nothing looked at.
    assert!(!is_changed(false, 0, true, 4, &now, &before, &vec![4]));
    // Hover changed on an element with classes, and the selectors use hover.
    assert!(is_changed(false, 1, true, 4, &now, &before, &vec![]));
    assert!(!is_changed(false, 1, false, 4, &now, &before, &vec![]));
    // A class list two levels up changed.
    assert!(!is_changed(false, 1, false, 5, &now, &before, &vec![2]));
    assert!(is_changed(false, 2, false, 5, &now, &before, &vec![2]));
    // Element 5 has no class list, so its own hover change is not looked at.
    let now5 = tree(vec![5], None);
    assert!(!is_changed(false, 1, true, 5, &now5, &before, &vec![]));
}

#[test]
fn matching_looks_no_higher_than_depth() {
    // `.panel > &` has depth 2: it looks at the element and its parent only.
    let s = sel(".panel > &");
    let before = tree(vec![], None);
    // Give the root (two levels above 4) a class: nothing within depth changed.
    let mut parents = HashMap::new();
    parents.insert(2u64, 1u64);
    parents.insert(3, 1);
    parents.insert(4, 2);
    parents.insert(5, 2);
    let mut children = HashMap::new();
    children.insert(1u64, vec![2u64, 3]);
    children.insert(2, vec![4, 5]);
    let mut classes = HashMap::new();
    classes.insert(1u64, class_list(&["root"]));
    classes.insert(2, class_list(&["panel"]));
    classes.insert(4, class_list(&["button", "primary"]));
    let now = SelectorMatcher::new(parents, children, classes, vec![], None);
    assert_eq!(now.selector_match(&s, 4), before.selector_match(&s, 4));
    assert!(now.selector_match(&s, 4));
    // The change is two levels up: a depth of 2 finds nothing to restyle.
    assert!(!is_changed(false, 2, false, 4, &now, &before, &vec![1]));
    assert!(is_changed(false, 3, false, 4, &now, &before, &vec![1]));
}
