use std::sync::Arc;

use quill::style::style_set::{StyleHandle, StyleSet};
use quill::style::style_tuple::StyleTuple;

// A style with a single border property.
fn border(width: u32) -> StyleHandle<u32> {
    let mut set = StyleSet::new();
    set.props.push(width);
    StyleHandle::new(set)
}

// Helper function to convert a tuple of styles into a vector of style handles.
fn styles<S: StyleTuple<u32>>(items: S) -> Vec<StyleHandle<u32>> {
    items.to_vec()
}

#[test]
fn test_style_tuple_empty() {
    let s = styles(());
    assert_eq!(s.len(), 0);
}

#[test]
fn test_style_tuple_single() {
    let s1 = border(1);
    let s = styles(s1);
    assert_eq!(s.len(), 1);

    let s1 = border(1);
    let s = styles((s1,));
    assert_eq!(s.len(), 1);
}

#[test]
fn test_style_tuple_2() {
    let s1 = border(1);
    let s2 = border(2);
    let s = styles((s1, s2));
    assert_eq!(s.len(), 2);
}

#[test]
fn test_style_tuple_nested() {
    let s1 = border(1);
    let s2 = border(2);
    let s3 = border(3);
    let s = styles((s1, (s2, s3)));
    assert_eq!(s.len(), 3);
}

#[test]
fn style_tuple_keeps_order_and_shares_sets() {
    let s1 = border(1);
    let s2 = border(2);
    let s3 = border(3);
    let v = styles((s1.clone(), (None, s2.clone()), Some(s3.clone())));
    assert_eq!(v.len(), 3);
    assert!(Arc::ptr_eq(&v[0].0, &s1.0));
    assert!(Arc::ptr_eq(&v[1].0, &s2.0));
    assert!(Arc::ptr_eq(&v[2].0, &s3.0));
    assert_eq!(v[2].0.props, vec![3]);
}

#[test]
fn style_tuple_counts() {
    let none: Option<StyleHandle<u32>> = None;
    // An absent handle counts as none: the count is the number of handles collected.
    assert_eq!(none.len(), 0);
    assert!(none.is_empty());
    assert_eq!(none.to_vec().len(), 0);
    assert_eq!(Some(border(1)).len(), 1);
    assert_eq!(Some(border(1)).to_vec().len(), 1);
    assert!(StyleTuple::<u32>::is_empty(&()));
    assert_eq!((border(1), (border(2), none)).len(), 2);
    assert_eq!((border(1), (border(2), None::<StyleHandle<u32>>)).to_vec().len(), 2);
}

#[test]
fn style_handles_default_and_compare() {
    let d: StyleHandle<u32> = StyleHandle::default();
    assert!(d.0.props.is_empty() && d.0.selectors.is_empty());
    assert!(border(1) == border(1));
    assert!(border(1) != border(2));
}
