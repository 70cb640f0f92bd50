use std::collections::HashSet;

use quill::style::classes::{ClassNames, ElementClasses};

fn get_names<'a, CN: ClassNames<'a>>(class_names: CN) -> HashSet<String> {
    let mut classes = ElementClasses::new();
    class_names.add_classes(&mut classes);
    classes.names().into_iter().collect()
}

#[test]
fn test_class_names() {
    let cl = get_names(());
    assert_eq!(cl, HashSet::new());

    let cl = get_names("test");
    assert_eq!(cl, ["test".to_owned()].into());

    let cl = get_names(("one", "two"));
    assert_eq!(cl, ["one".to_owned(), "two".to_owned()].into());

    let cl = get_names(("one".if_true(true), "two"));
    assert_eq!(cl, ["one".to_owned(), "two".to_owned()].into());

    let cl = get_names(("one".if_true(false), "two"));
    assert_eq!(cl, ["two".to_owned()].into());

    let cl = get_names(("one".if_true(true).if_true(false), "two"));
    assert_eq!(cl, ["two".to_owned()].into());
}

#[test]
fn class_names_count() {
    assert_eq!(().len(), 0);
    assert!(().is_empty());
    assert_eq!(ClassNames::len(&"a"), 1);
    assert_eq!(("a", ("b", "c".to_string())).len(), 3);
    assert_eq!(("a".if_true(false), "b").len(), 1);
    // A tuple is empty when it holds no enabled names.
    assert_eq!(("a".if_true(false),).len(), 0);
    assert!(("a".if_true(false),).is_empty());
    assert!(((),).is_empty());
    assert!(!("a".if_true(false), "b").is_empty());
    assert!("a".if_true(false).is_empty());
    assert!(!"a".if_true(true).is_empty());
}

#[test]
fn class_names_nested_and_repeated() {
    let set = (("a", "b"), ("b".to_string(), ("c".if_true(true), "d".if_true(false)))).to_set();
    let names: HashSet<String> = set.names().into_iter().collect();
    assert_eq!(names, ["a", "b", "c"].iter().map(|s| s.to_string()).collect());
    assert_eq!(set.names().len(), 3);
}

#[test]
fn element_classes_add_and_remove() {
    let mut c = ElementClasses::default();
    c.add_class("one");
    c.add_class("two");
    c.add_class("one");
    let names: HashSet<String> = c.names().into_iter().collect();
    assert_eq!(names, ["one".to_owned(), "two".to_owned()].into());
    assert_eq!(c.names().len(), 2);
    assert!(c.contains("two"));
    c.remove_class("one");
    assert!(!c.contains("one"));
    c.remove_class("missing");
    assert_eq!(c.names(), vec!["two".to_string()]);
}

#[test]
fn if_true_law_on_values() {
    // Two conditions in turn act as one that holds when both do.
    let set = ("a", "b").if_true(true).if_true(true).to_set();
    let both: HashSet<String> = set.names().into_iter().collect();
    assert_eq!(both, ["a".to_owned(), "b".to_owned()].into());
    assert!(("a", "b").if_true(true).if_true(false).to_set().names().is_empty());
    assert!(("a", "b").if_true(false).if_true(true).to_set().names().is_empty());
    assert_eq!(("a", "b").if_true(true).len(), 2);
    assert_eq!(("a", "b").if_true(false).len(), 0);
    // Adding class names never removes one that was there.
    let mut classes = ElementClasses::new();
    classes.add_class("x");
    ("a".if_true(false), "b").add_classes(&mut classes);
    assert!(classes.contains("x") && classes.contains("b") && !classes.contains("a"));
}
