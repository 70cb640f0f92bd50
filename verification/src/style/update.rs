//! Deciding which elements need their styles computed again.
use vstd::prelude::*;

use super::selector::{spec_depth, spec_uses_hover, SelectorModel};
use super::selector_matcher::{
    agree_within, ancestor_within, is_ancestor_or_self, lemma_depth_zero_never_matches,
    lemma_match_ignores_hover, lemma_match_within_depth,
    MatcherView, SelectorMatcher,
};

verus! {

/// Whether, looking at `e` and then up to `k - 1` of its ancestors, some element that carries
/// a class list has a changed class list, or (when `uses_hover`) a changed hover state.
pub open spec fn ancestors_changed(
    now: MatcherView,
    prev: MatcherView,
    changed_classes: Seq<u64>,
    uses_hover: bool,
    e: u64,
    k: nat,
) -> bool
    decreases k,
{
    k > 0 && ({
        ||| now.classes.contains_key(e) && ((uses_hover && now.hovering(e) != prev.hovering(e))
            || changed_classes.contains(e))
        ||| now.parents.contains_key(e) && ancestors_changed(
            now,
            prev,
            changed_classes,
            uses_hover,
            now.parents[e],
            (k - 1) as nat,
        )
    })
}

/// Detects whether the given entity's styles have changed, or whether any of its ancestors
/// have changed in a way that would affect the computation of styles.
///
/// `styles_changed` tells whether the element's own style list changed; `selector_depth` and
/// `uses_hover` are what its selectors need of the tree; `matcher` and `matcher_prev` describe
/// the tree now and at the previous update; `changed_classes` lists the elements whose class
/// list changed since then.
#[verifier::loop_isolation(false)]
pub fn is_changed(
    styles_changed: bool,
    selector_depth: usize,
    uses_hover: bool,
    entity: u64,
    matcher: &SelectorMatcher,
    matcher_prev: &SelectorMatcher,
    changed_classes: &Vec<u64>,
) -> (b: bool)
    ensures
        b == (styles_changed || ancestors_changed(
            matcher@,
            matcher_prev@,
            changed_classes@,
            uses_hover,
            entity,
            selector_depth as nat,
        )),
{
    // Style changes only affect current element, not children.
    if styles_changed {
        return true;
    }
    // Search ancestors to see if any have changed.
    // We want to know if either the class list or the hover state has changed.
    let mut e = entity;
    let mut k = selector_depth;
    loop
        invariant
            ancestors_changed(
                matcher@,
                matcher_prev@,
                changed_classes@,
                uses_hover,
                entity,
                selector_depth as nat,
            ) == ancestors_changed(
                matcher@,
                matcher_prev@,
                changed_classes@,
                uses_hover,
                e,
                k as nat,
            ),
        decreases k,
    {
        if k == 0 {
            return false;
        }
        if matcher.has_class_list(e) {
            if uses_hover && matcher.is_hovering(e) != matcher_prev.is_hovering(e) {
                return true;
            }
            let mut i: usize = 0;
            while i < changed_classes.len()
                invariant
                    i <= changed_classes.len(),
                    forall|j: int| 0 <= j < i ==> changed_classes@[j] != e,
                decreases changed_classes.len() - i,
            {
                if changed_classes[i] == e {
                    assert(changed_classes@[i as int] == e);
                    return true;
                }
                i = i + 1;
            }
        }
        match matcher.parent_of(e) {
            Some(p) => {
                e = p;
                k = k - 1;
            },
            None => {
                return false;
            },
        }
    }
}

/// Between the two snapshots, only the elements in `changed_classes` may have other class
/// lists, and no element lost its class list.
pub open spec fn classes_changed_only_at(
    now: MatcherView,
    prev: MatcherView,
    changed_classes: Seq<u64>,
) -> bool {
    &&& forall|x: u64|
        #![trigger now.classes.contains_key(x)]
        !changed_classes.contains(x) ==> {
            &&& now.classes.contains_key(x) == prev.classes.contains_key(x)
            &&& now.classes.contains_key(x) ==> now.classes[x]@ == prev.classes[x]@
        }
    &&& forall|x: u64| #[trigger] prev.classes.contains_key(x) ==> now.classes.contains_key(x)
}

/// Looking at `e` and up to `k - 1` of its ancestors found no change: every element among
/// them that carries a class list is not in `changed_classes`, and (when `uses_hover`) has the
/// same hover state.
proof fn lemma_unchanged_chain(
    now: MatcherView,
    prev: MatcherView,
    changed_classes: Seq<u64>,
    uses_hover: bool,
    e: u64,
    k: nat,
    x: u64,
)
    requires
        k >= 1,
        !ancestors_changed(now, prev, changed_classes, uses_hover, e, k),
        ancestor_within(now.parents, e, x, (k - 1) as nat),
    ensures
        now.classes.contains_key(x) ==> !changed_classes.contains(x) && (uses_hover
            ==> now.hovering(x) == prev.hovering(x)),
    decreases k,
{
    if x != e {
        let p = now.parents[e];
        lemma_unchanged_chain(now, prev, changed_classes, uses_hover, p, (k - 1) as nat, x);
    }
}

/// When [`is_changed`] finds nothing for an element, none of its selectors changed its
/// answer: two snapshots of the tree with the same parent links, child lists and focus, whose
/// class lists differ only at the elements listed as changed, give the same answer for every
/// selector `s` of the element, provided that `ancestors_changed` is false for a depth of at
/// least that of `s`, and looks at hover when `s` uses it. Elements without a class list are
/// not looked at, so their hover state is taken to be unchanged.
pub proof fn lemma_unchanged_keeps_matches(
    now: MatcherView,
    prev: MatcherView,
    changed_classes: Seq<u64>,
    uses_hover: bool,
    s: SelectorModel,
    e: u64,
    depth: nat,
)
    requires
        now.parents == prev.parents,
        now.children == prev.children,
        now.focus == prev.focus,
        classes_changed_only_at(now, prev, changed_classes),
        forall|x: u64| !now.classes.contains_key(x) ==> now.hovering(x) == prev.hovering(x),
        spec_depth(s) <= depth,
        spec_uses_hover(s) ==> uses_hover,
        !ancestors_changed(now, prev, changed_classes, uses_hover, e, depth),
    ensures
        now.matches(s, e) == prev.matches(s, e),
{
    if depth == 0 {
        lemma_depth_zero_never_matches(now, s, e);
        lemma_depth_zero_never_matches(prev, s, e);
    } else {
        let n = (depth - 1) as nat;
        if spec_uses_hover(s) {
            assert forall|x: u64| #[trigger] ancestor_within(now.parents, e, x, n) implies {
                &&& now.classes.contains_key(x) == prev.classes.contains_key(x)
                &&& now.classes.contains_key(x) ==> now.classes[x]@ == prev.classes[x]@
                &&& now.hovering(x) == prev.hovering(x)
            } by {
                lemma_unchanged_chain(now, prev, changed_classes, uses_hover, e, depth, x);
                if now.classes.contains_key(x) {
                    assert(!changed_classes.contains(x));
                } else {
                    assert(!prev.classes.contains_key(x));
                }
            }
            assert(agree_within(now, prev, e, n));
            lemma_match_within_depth(now, prev, s, e, n);
        } else {
            let mid = MatcherView { hovered: prev.hovered, ..now };
            assert(mid.parents == prev.parents && mid.hovered == prev.hovered);
            lemma_match_ignores_hover(now, mid, s, e);
            assert forall|x: u64| #[trigger] ancestor_within(mid.parents, e, x, n) implies {
                &&& mid.classes.contains_key(x) == prev.classes.contains_key(x)
                &&& mid.classes.contains_key(x) ==> mid.classes[x]@ == prev.classes[x]@
                &&& mid.hovering(x) == prev.hovering(x)
            } by {
                lemma_unchanged_chain(now, prev, changed_classes, uses_hover, e, depth, x);
                if now.classes.contains_key(x) {
                    assert(!changed_classes.contains(x));
                } else {
                    assert(!prev.classes.contains_key(x));
                }
                assert(mid.hovering(x) == prev.hovering(x)) by {
                    if mid.hovering(x) {
                        let i = choose|i: int|
                            0 <= i < mid.hovered.len() && is_ancestor_or_self(
                                mid.parents,
                                x,
                                #[trigger] mid.hovered[i],
                            );
                        assert(is_ancestor_or_self(prev.parents, x, prev.hovered[i]));
                    }
                    if prev.hovering(x) {
                        let i = choose|i: int|
                            0 <= i < prev.hovered.len() && is_ancestor_or_self(
                                prev.parents,
                                x,
                                #[trigger] prev.hovered[i],
                            );
                        assert(is_ancestor_or_self(mid.parents, x, mid.hovered[i]));
                    }
                }
            }
            assert(agree_within(mid, prev, e, n));
            lemma_match_within_depth(mid, prev, s, e, n);
        }
    }
}

/// What to do with the text styles that an element passes on to its children, once its
/// computed style is worked out again.
#[derive(Clone, Copy, PartialEq, Eq, Structural, Debug)]
pub enum TextStylesAction {
    /// Store them on the element: they differ from what it stored before.
    Store,
    /// Remove them from the element: they are what it stored before.
    Remove,
}

/// Whether an element's computed style must be worked out again, in the walk over the tree.
/// A UI node is restyled when its style list, or what its selectors look at, changed
/// (`own_changed`: what [`is_changed`] finds, or false when it has no style list); otherwise,
/// when the text styles it inherits changed, it is restyled when the text styles it stored
/// differ from the inherited ones. What is not a UI node is not restyled.
pub fn needs_restyle(
    is_node: bool,
    own_changed: bool,
    inherited_changed: bool,
    stored_differs: bool,
) -> (b: bool)
    ensures
        b == (is_node && (own_changed || (inherited_changed && stored_differs))),
{
    if !is_node {
        return false;
    }
    let mut changed = own_changed;
    if !changed && inherited_changed {
        changed = stored_differs;
    }
    changed
}

/// After an element is restyled: its new text styles are stored when they differ from those
/// it stored, and removed otherwise; and the children are told that the inherited text
/// styles changed when they already had been, or when the element's differ.
pub fn text_styles_step(inherited_changed: bool, new_differs: bool) -> (r: (
    TextStylesAction,
    bool,
))
    ensures
        r.0 == (if new_differs {
            TextStylesAction::Store
        } else {
            TextStylesAction::Remove
        }),
        r.1 == (inherited_changed || new_differs),
{
    if new_differs {
        (TextStylesAction::Store, true)
    } else {
        (TextStylesAction::Remove, inherited_changed)
    }
}

} // verus!
