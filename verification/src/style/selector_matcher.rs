//! Matching selectors against a snapshot of the element tree.
use vstd::prelude::*;
use vstd::std_specs::hash::group_hash_axioms;

use std::collections::HashMap;

use super::classes::ElementClasses;
use super::selector::{
    any_uses_hover, lemma_models_of, max_depth, models_of, spec_depth, spec_uses_hover, Selector,
    SelectorModel,
};

verus! {

broadcast use group_hash_axioms;

/// The facts about the element tree that selectors are matched against, as plain values.
/// Elements are named by 64-bit ids.
pub struct SelectorMatcher {
    /// The parent of each element that has one.
    parents: HashMap<u64, u64>,
    /// The children, in order, of each element that has children.
    children: HashMap<u64, Vec<u64>>,
    /// The class names of each element that carries a class list.
    classes: HashMap<u64, ElementClasses>,
    /// The elements that the mouse pointer is over.
    hovered: Vec<u64>,
    /// The element that has keyboard focus, if any.
    focus: Option<u64>,
}

/// The mathematical value of a [`SelectorMatcher`].
pub struct MatcherView {
    /// The parent of each element that has one.
    pub parents: Map<u64, u64>,
    /// The children, in order, of each element that has children.
    pub children: Map<u64, Vec<u64>>,
    /// The class names of each element that carries a class list.
    pub classes: Map<u64, ElementClasses>,
    /// The elements that the mouse pointer is over.
    pub hovered: Seq<u64>,
    /// The element that has keyboard focus, if any.
    pub focus: Option<u64>,
}


impl View for SelectorMatcher {
    type V = MatcherView;

    closed spec fn view(&self) -> MatcherView {
        MatcherView {
            parents: self.parents@,
            children: self.children@,
            classes: self.classes@,
            hovered: self.hovered@,
            focus: self.focus,
        }
    }
}

/// `e` is `x`, or one of the first `n` ancestors of `x`.
pub open spec fn ancestor_within(parents: Map<u64, u64>, x: u64, e: u64, n: nat) -> bool
    decreases n,
{
    x == e || (n > 0 && parents.contains_key(x) && ancestor_within(
        parents,
        parents[x],
        e,
        (n - 1) as nat,
    ))
}

/// `e` is `x` or an ancestor of `x`. A chain of parent links in a tree of `n` links has at
/// most `n` steps, so the ancestors looked at are the first `n`.
pub open spec fn is_ancestor_or_self(parents: Map<u64, u64>, x: u64, e: u64) -> bool {
    ancestor_within(parents, x, e, parents.dom().len())
}

impl MatcherView {
    /// `e`, or one of its ancestors, is under the mouse pointer.
    pub open spec fn hovering(self, e: u64) -> bool {
        exists|i: int|
            0 <= i < self.hovered.len() && is_ancestor_or_self(
                self.parents,
                e,
                #[trigger] self.hovered[i],
            )
    }

    /// `e` has keyboard focus.
    pub open spec fn focused(self, e: u64) -> bool {
        self.focus == Some(e)
    }

    /// `e`, or one of its descendants, has keyboard focus.
    pub open spec fn focus_within(self, e: u64) -> bool {
        self.focus matches Some(f) && is_ancestor_or_self(self.parents, f, e)
    }

    /// `e` has a parent, and is the first of that parent's children.
    pub open spec fn first_child(self, e: u64) -> bool {
        &&& self.parents.contains_key(e)
        &&& self.children.contains_key(self.parents[e])
        &&& self.children[self.parents[e]]@.len() > 0
        &&& self.children[self.parents[e]]@[0] == e
    }

    /// `e` has a parent, and is the last of that parent's children.
    pub open spec fn last_child(self, e: u64) -> bool {
        &&& self.parents.contains_key(e)
        &&& self.children.contains_key(self.parents[e])
        &&& self.children[self.parents[e]]@.len() > 0
        &&& self.children[self.parents[e]]@.last() == e
    }

    /// `e` carries a class list that holds `name`.
    pub open spec fn has_class(self, e: u64, name: Seq<char>) -> bool {
        self.classes.contains_key(e) && self.classes[e]@.contains(name)
    }

    /// Whether selector `s` matches element `e`.
    pub open spec fn matches(self, s: SelectorModel, e: u64) -> bool
        decreases s, 0int,
    {
        match s {
            SelectorModel::Accept => true,
            SelectorModel::Class(name, next) => self.has_class(e, name) && self.matches(*next, e),
            SelectorModel::Hover(next) => self.hovering(e) && self.matches(*next, e),
            SelectorModel::Focus(next) => self.focused(e) && self.matches(*next, e),
            SelectorModel::FocusWithin(next) => self.focus_within(e) && self.matches(*next, e),
            SelectorModel::FocusVisible(next) => self.focused(e) && self.matches(*next, e),
            SelectorModel::FirstChild(next) => self.first_child(e) && self.matches(*next, e),
            SelectorModel::LastChild(next) => self.last_child(e) && self.matches(*next, e),
            SelectorModel::Current(next) => self.matches(*next, e),
            SelectorModel::Parent(next) => self.parents.contains_key(e) && self.matches(
                *next,
                self.parents[e],
            ),
            SelectorModel::Either(opts) => self.matches_any(opts, e),
        }
    }

    /// Whether some alternative matches element `e`.
    pub open spec fn matches_any(self, opts: Seq<SelectorModel>, e: u64) -> bool
        decreases opts, 0int,
    {
        if opts.len() == 0 {
            false
        } else {
            self.matches_any(opts.subrange(0, opts.len() - 1), e) || self.matches(
                opts[opts.len() - 1],
                e,
            )
        }
    }
}

impl SelectorMatcher {
    /// Collects the facts that matching reads: parent links, child lists, class lists, the
    /// elements under the mouse pointer and the focused element.
    pub fn new(
        parents: HashMap<u64, u64>,
        children: HashMap<u64, Vec<u64>>,
        classes: HashMap<u64, ElementClasses>,
        hovered: Vec<u64>,
        focus: Option<u64>,
    ) -> (r: SelectorMatcher)
        ensures
            r@ == (MatcherView {
                parents: parents@,
                children: children@,
                classes: classes@,
                hovered: hovered@,
                focus: focus,
            }),
    {
        SelectorMatcher { parents, children, classes, hovered, focus }
    }

    /// The parent of `e`, if it has one.
    pub fn parent_of(&self, e: u64) -> (r: Option<u64>)
        ensures
            r == (if self@.parents.contains_key(e) {
                Some(self@.parents[e])
            } else {
                None
            }),
    {
        match self.parents.get(&e) {
            Some(p) => Some(*p),
            None => None,
        }
    }

    /// Whether `e` carries a class list.
    pub fn has_class_list(&self, e: u64) -> (b: bool)
        ensures
            b == self@.classes.contains_key(e),
    {
        self.classes.contains_key(&e)
    }

    /// Whether `e` is `x` or an ancestor of `x`.
    fn ancestor_or_self(&self, x: u64, e: u64) -> (b: bool)
        ensures
            b == is_ancestor_or_self(self@.parents, x, e),
    {
        let mut cur = x;
        let mut fuel = self.parents.len();
        let ghost n = self@.parents.dom().len();
        assert(fuel == n);
        loop
            invariant
                fuel <= n,
                n == self@.parents.dom().len(),
                ancestor_within(self@.parents, x, e, n) == ancestor_within(
                    self@.parents,
                    cur,
                    e,
                    fuel as nat,
                ),
            decreases fuel,
        {
            if cur == e {
                return true;
            }
            if fuel == 0 {
                return false;
            }
            match self.parents.get(&cur) {
                Some(p) => {
                    cur = *p;
                    fuel = fuel - 1;
                },
                None => {
                    return false;
                },
            }
        }
    }

    /// True if the given entity, or an ancestor of it, is in the hover map for the mouse.
    ///
    /// This is used to determine whether to apply the :hover pseudo-class.
    pub fn is_hovering(&self, e: u64) -> (b: bool)
        ensures
            b == self@.hovering(e),
    {
        let mut i: usize = 0;
        while i < self.hovered.len()
            invariant
                i <= self.hovered.len(),
                forall|j: int|
                    0 <= j < i ==> !is_ancestor_or_self(
                        self@.parents,
                        e,
                        #[trigger] self@.hovered[j],
                    ),
            decreases self.hovered.len() - i,
        {
            if self.ancestor_or_self(e, self.hovered[i]) {
                assert(is_ancestor_or_self(self@.parents, e, self@.hovered[i as int]));
                return true;
            }
            i = i + 1;
        }
        false
    }

    /// True if the given entity has keyboard focus.
    ///
    /// This is used to determine whether to apply the :focus pseudo-class.
    pub fn is_focused(&self, e: u64) -> (b: bool)
        ensures
            b == self@.focused(e),
    {
        match self.focus {
            Some(f) => f == e,
            None => false,
        }
    }

    /// True if the given entity, or a descendant of it has keyboard focus.
    ///
    /// This is used to determine whether to apply the :focus-within pseudo-class.
    pub fn is_focus_within(&self, e: u64) -> (b: bool)
        ensures
            b == self@.focus_within(e),
    {
        match self.focus {
            Some(f) => self.ancestor_or_self(f, e),
            None => false,
        }
    }

    /// True if the given entity has focus and focus visibility is enabled.
    ///
    /// This is used to determine whether to apply the :focus-visible pseudo-class.
    pub fn is_focus_visible(&self, e: u64) -> (b: bool)
        ensures
            b == self@.focused(e),
    {
        match self.focus {
            Some(f) => f == e,
            None => false,
        }
    }

    /// True if this entity is the first child of its parent.
    pub fn is_first_child(&self, e: u64) -> (b: bool)
        ensures
            b == self@.first_child(e),
    {
        match self.parents.get(&e) {
            Some(p) => match self.children.get(p) {
                Some(kids) => kids.len() > 0 && kids[0] == e,
                None => false,
            },
            None => false,
        }
    }

    /// True if this entity is the last child of its parent.
    pub fn is_last_child(&self, e: u64) -> (b: bool)
        ensures
            b == self@.last_child(e),
    {
        match self.parents.get(&e) {
            Some(p) => match self.children.get(p) {
                Some(kids) => kids.len() > 0 && kids[kids.len() - 1] == e,
                None => false,
            },
            None => false,
        }
    }

    /// True if the entity carries a class list that holds `name`.
    pub fn has_class(&self, e: u64, name: &String) -> (b: bool)
        ensures
            b == self@.has_class(e, name@),
    {
        match self.classes.get(&e) {
            Some(names) => names.contains(name.as_str()),
            None => false,
        }
    }

    /// Match the selector expression against the given entity and its ancestors.
    pub fn selector_match(&self, selector: &Selector, e: u64) -> (b: bool)
        ensures
            b == self@.matches(selector@, e),
        decreases selector,
    {
        match selector {
            Selector::Accept => true,
            Selector::Class(name, next) => self.has_class(e, name) && self.selector_match(next, e),
            Selector::Hover(next) => self.is_hovering(e) && self.selector_match(next, e),
            Selector::Focus(next) => self.is_focused(e) && self.selector_match(next, e),
            Selector::FocusWithin(next) => self.is_focus_within(e) && self.selector_match(
                next,
                e,
            ),
            Selector::FocusVisible(next) => self.is_focus_visible(e) && self.selector_match(
                next,
                e,
            ),
            Selector::FirstChild(next) => self.is_first_child(e) && self.selector_match(next, e),
            Selector::LastChild(next) => self.is_last_child(e) && self.selector_match(next, e),
            Selector::Current(next) => self.selector_match(next, e),
            Selector::Parent(next) => match self.parents.get(&e) {
                Some(p) => self.selector_match(next, *p),
                None => false,
            },
            Selector::Either(opts) => {
                proof {
                    lemma_models_of(opts@);
                }
                let mut i: usize = 0;
                while i < opts.len()
                    invariant
                        i <= opts.len(),
                        models_of(opts@).len() == opts@.len(),
                        forall|j: int|
                            0 <= j < opts@.len() ==> #[trigger] models_of(opts@)[j] == (
                            *opts@[j]).model(),
                        !self@.matches_any(models_of(opts@).subrange(0, i as int), e),
                        *selector == Selector::Either(*opts),
                    decreases opts.len() - i,
                {
                    let ghost ms = models_of(opts@);
                    proof {
                        assert(ms.subrange(0, i + 1).subrange(0, i as int) == ms.subrange(
                            0,
                            i as int,
                        ));
                        assert(decreases_to!(*selector => selector->Either_0));
                        assert(decreases_to!(*opts => opts@));
                        assert(decreases_to!(opts@ => opts@[i as int]));
                    }
                    if self.selector_match(&opts[i], e) {
                        proof {
                            lemma_matches_any_member(self@, ms, i as int, e);
                        }
                        return true;
                    }
                    i = i + 1;
                }
                proof {
                    assert(models_of(opts@).subrange(0, i as int) == models_of(opts@));
                }
                false
            },
        }
    }
}

/// A selector that does not use `:hover` matches the same elements whatever is under the
/// mouse pointer: two snapshots of the tree that differ only in the hovered elements give the
/// same answer.
pub proof fn lemma_match_ignores_hover(m1: MatcherView, m2: MatcherView, s: SelectorModel, e: u64)
    requires
        m1.parents == m2.parents,
        m1.children == m2.children,
        m1.classes == m2.classes,
        m1.focus == m2.focus,
        !spec_uses_hover(s),
    ensures
        m1.matches(s, e) == m2.matches(s, e),
    decreases s, 0int,
{
    match s {
        SelectorModel::Accept => {},
        SelectorModel::Class(_, next) => lemma_match_ignores_hover(m1, m2, *next, e),
        SelectorModel::Hover(_) => {},
        SelectorModel::Focus(next) => lemma_match_ignores_hover(m1, m2, *next, e),
        SelectorModel::FocusWithin(next) => lemma_match_ignores_hover(m1, m2, *next, e),
        SelectorModel::FocusVisible(next) => lemma_match_ignores_hover(m1, m2, *next, e),
        SelectorModel::FirstChild(next) => lemma_match_ignores_hover(m1, m2, *next, e),
        SelectorModel::LastChild(next) => lemma_match_ignores_hover(m1, m2, *next, e),
        SelectorModel::Current(next) => lemma_match_ignores_hover(m1, m2, *next, e),
        SelectorModel::Parent(next) => {
            if m1.parents.contains_key(e) {
                lemma_match_ignores_hover(m1, m2, *next, m1.parents[e]);
            }
        },
        SelectorModel::Either(opts) => lemma_match_any_ignores_hover(m1, m2, opts, e),
    }
}

/// The alternatives, none of which uses `:hover`, match the same elements whatever is under
/// the mouse pointer.
pub proof fn lemma_match_any_ignores_hover(
    m1: MatcherView,
    m2: MatcherView,
    opts: Seq<SelectorModel>,
    e: u64,
)
    requires
        m1.parents == m2.parents,
        m1.children == m2.children,
        m1.classes == m2.classes,
        m1.focus == m2.focus,
        !any_uses_hover(opts),
    ensures
        m1.matches_any(opts, e) == m2.matches_any(opts, e),
    decreases opts, 0int,
{
    if opts.len() > 0 {
        lemma_match_any_ignores_hover(m1, m2, opts.subrange(0, opts.len() - 1), e);
        lemma_match_ignores_hover(m1, m2, opts[opts.len() - 1], e);
    }
}

/// `e` and its first `n` ancestors carry the same class lists, and have the same hover state,
/// in both snapshots of the tree.
pub open spec fn agree_within(m1: MatcherView, m2: MatcherView, e: u64, n: nat) -> bool {
    forall|x: u64|
        #![trigger ancestor_within(m1.parents, e, x, n)]
        ancestor_within(m1.parents, e, x, n) ==> {
            &&& m1.classes.contains_key(x) == m2.classes.contains_key(x)
            &&& m1.classes.contains_key(x) ==> m1.classes[x]@ == m2.classes[x]@
            &&& m1.hovering(x) == m2.hovering(x)
        }
}

/// A selector of depth 0 (alternatives with nothing in them) matches no element.
pub proof fn lemma_depth_zero_never_matches(m: MatcherView, s: SelectorModel, e: u64)
    requires
        spec_depth(s) == 0,
    ensures
        !m.matches(s, e),
    decreases s, 0int,
{
    match s {
        SelectorModel::Accept => {},
        SelectorModel::Class(_, next) => lemma_depth_zero_never_matches(m, *next, e),
        SelectorModel::Hover(next) => lemma_depth_zero_never_matches(m, *next, e),
        SelectorModel::Focus(next) => lemma_depth_zero_never_matches(m, *next, e),
        SelectorModel::FocusWithin(next) => lemma_depth_zero_never_matches(m, *next, e),
        SelectorModel::FocusVisible(next) => lemma_depth_zero_never_matches(m, *next, e),
        SelectorModel::FirstChild(next) => lemma_depth_zero_never_matches(m, *next, e),
        SelectorModel::LastChild(next) => lemma_depth_zero_never_matches(m, *next, e),
        SelectorModel::Current(next) => lemma_depth_zero_never_matches(m, *next, e),
        SelectorModel::Parent(_) => {},
        SelectorModel::Either(opts) => lemma_depth_zero_never_matches_any(m, opts, e),
    }
}

/// Alternatives whose depths are all 0 match no element.
pub proof fn lemma_depth_zero_never_matches_any(m: MatcherView, opts: Seq<SelectorModel>, e: u64)
    requires
        max_depth(opts) == 0,
    ensures
        !m.matches_any(opts, e),
    decreases opts, 0int,
{
    if opts.len() > 0 {
        lemma_depth_zero_never_matches_any(m, opts.subrange(0, opts.len() - 1), e);
        lemma_depth_zero_never_matches(m, opts[opts.len() - 1], e);
    }
}

/// A selector looks no further up the tree than its depth: two snapshots of the tree with the
/// same parent links, child lists and focus, in which `e` and its first `n` ancestors carry
/// the same class lists and hover states, give the same answer for every selector whose depth
/// is at most `n + 1`.
pub proof fn lemma_match_within_depth(
    m1: MatcherView,
    m2: MatcherView,
    s: SelectorModel,
    e: u64,
    n: nat,
)
    requires
        m1.parents == m2.parents,
        m1.children == m2.children,
        m1.focus == m2.focus,
        spec_depth(s) <= n + 1,
        agree_within(m1, m2, e, n),
    ensures
        m1.matches(s, e) == m2.matches(s, e),
    decreases s, 0int,
{
    assert(ancestor_within(m1.parents, e, e, n));
    match s {
        SelectorModel::Accept => {},
        SelectorModel::Class(_, next) => lemma_match_within_depth(m1, m2, *next, e, n),
        SelectorModel::Hover(next) => lemma_match_within_depth(m1, m2, *next, e, n),
        SelectorModel::Focus(next) => lemma_match_within_depth(m1, m2, *next, e, n),
        SelectorModel::FocusWithin(next) => lemma_match_within_depth(m1, m2, *next, e, n),
        SelectorModel::FocusVisible(next) => lemma_match_within_depth(m1, m2, *next, e, n),
        SelectorModel::FirstChild(next) => lemma_match_within_depth(m1, m2, *next, e, n),
        SelectorModel::LastChild(next) => lemma_match_within_depth(m1, m2, *next, e, n),
        SelectorModel::Current(next) => lemma_match_within_depth(m1, m2, *next, e, n),
        SelectorModel::Parent(next) => {
            if m1.parents.contains_key(e) {
                let p = m1.parents[e];
                if n == 0 {
                    lemma_depth_zero_never_matches(m1, *next, p);
                    lemma_depth_zero_never_matches(m2, *next, p);
                } else {
                    let k = (n - 1) as nat;
                    assert forall|x: u64| #[trigger]
                        ancestor_within(m1.parents, p, x, k) implies ancestor_within(
                        m1.parents,
                        e,
                        x,
                        n,
                    ) by {}
                    assert(agree_within(m1, m2, p, k));
                    lemma_match_within_depth(m1, m2, *next, p, k);
                }
            }
        },
        SelectorModel::Either(opts) => lemma_match_any_within_depth(m1, m2, opts, e, n),
    }
}

/// The alternatives, each of depth at most `n + 1`, give the same answer in two snapshots
/// that agree on `e` and its first `n` ancestors.
pub proof fn lemma_match_any_within_depth(
    m1: MatcherView,
    m2: MatcherView,
    opts: Seq<SelectorModel>,
    e: u64,
    n: nat,
)
    requires
        m1.parents == m2.parents,
        m1.children == m2.children,
        m1.focus == m2.focus,
        max_depth(opts) <= n + 1,
        agree_within(m1, m2, e, n),
    ensures
        m1.matches_any(opts, e) == m2.matches_any(opts, e),
    decreases opts, 0int,
{
    if opts.len() > 0 {
        lemma_match_any_within_depth(m1, m2, opts.subrange(0, opts.len() - 1), e, n);
        lemma_match_within_depth(m1, m2, opts[opts.len() - 1], e, n);
    }
}

/// If one alternative matches, the alternatives match.
proof fn lemma_matches_any_member(m: MatcherView, ms: Seq<SelectorModel>, i: int, e: u64)
    requires
        0 <= i < ms.len(),
        m.matches(ms[i], e),
    ensures
        m.matches_any(ms, e),
    decreases ms.len(),
{
    if i < ms.len() - 1 {
        let init = ms.subrange(0, ms.len() - 1);
        assert(init[i] == ms[i]);
        lemma_matches_any_member(m, init, i, e);
    }
}

/// The alternatives match exactly when one of them does.
pub proof fn lemma_matches_any_exists(m: MatcherView, ms: Seq<SelectorModel>, e: u64)
    ensures
        m.matches_any(ms, e) <==> exists|i: int| 0 <= i < ms.len() && #[trigger] m.matches(ms[i], e),
    decreases ms.len(),
{
    if ms.len() > 0 {
        let init = ms.subrange(0, ms.len() - 1);
        lemma_matches_any_exists(m, init, e);
        if m.matches_any(ms, e) {
            if m.matches_any(init, e) {
                let i = choose|i: int| 0 <= i < init.len() && #[trigger] m.matches(init[i], e);
                assert(init[i] == ms[i]);
                assert(m.matches(ms[i], e));
            } else {
                assert(m.matches(ms[ms.len() - 1], e));
            }
        }
        if exists|i: int| 0 <= i < ms.len() && #[trigger] m.matches(ms[i], e) {
            let i = choose|i: int| 0 <= i < ms.len() && #[trigger] m.matches(ms[i], e);
            lemma_matches_any_member(m, ms, i, e);
        }
    }
}

/// What each test of a selector asks of the element, in terms of the facts collected. A class
/// test asks for the class in the element's class list; `:hover` for a hovered element among
/// the element and its ancestors; `:focus` and `:focus-visible` that the element itself has
/// the keyboard focus; `:focus-within` that the focused element is the element or lies below
/// it; `:first-child` and `:last-child` for the element's place among its parent's children.
/// Each test also asks that the rest of the selector matches the element. A parent step asks
/// for a parent that matches the rest; `&` asks nothing more than the rest; a list of
/// alternatives matches when one of them does; and the empty selector matches everything.
pub proof fn lemma_match_tests(m: MatcherView, s: SelectorModel, e: u64)
    ensures
        s is Accept ==> m.matches(s, e),
        s matches SelectorModel::Class(name, next) ==> (m.matches(s, e) <==> (
        m.classes.contains_key(e) && m.classes[e]@.contains(name) && m.matches(*next, e))),
        s matches SelectorModel::Hover(next) ==> (m.matches(s, e) <==> ((exists|i: int|
            0 <= i < m.hovered.len() && #[trigger] is_ancestor_or_self(
                m.parents,
                e,
                m.hovered[i],
            )) && m.matches(*next, e))),
        s matches SelectorModel::Focus(next) ==> (m.matches(s, e) <==> (m.focus == Some(e)
            && m.matches(*next, e))),
        s matches SelectorModel::FocusVisible(next) ==> (m.matches(s, e) <==> (m.focus == Some(
            e,
        ) && m.matches(*next, e))),
        s matches SelectorModel::FocusWithin(next) ==> (m.matches(s, e) <==> (m.focus is Some
            && is_ancestor_or_self(m.parents, m.focus->0, e) && m.matches(*next, e))),
        s matches SelectorModel::FirstChild(next) ==> (m.matches(s, e) <==> (
        m.parents.contains_key(e) && m.children.contains_key(m.parents[e])
            && m.children[m.parents[e]]@.len() > 0 && m.children[m.parents[e]]@[0] == e
            && m.matches(*next, e))),
        s matches SelectorModel::LastChild(next) ==> (m.matches(s, e) <==> (
        m.parents.contains_key(e) && m.children.contains_key(m.parents[e])
            && m.children[m.parents[e]]@.len() > 0 && m.children[m.parents[e]]@[m.children[m.parents[e]]@.len() - 1] == e
            && m.matches(*next, e))),
        s matches SelectorModel::Current(next) ==> (m.matches(s, e) <==> m.matches(*next, e)),
        s matches SelectorModel::Parent(next) ==> (m.matches(s, e) <==> (m.parents.contains_key(e)
            && m.matches(*next, m.parents[e]))),
        s matches SelectorModel::Either(opts) ==> (m.matches(s, e) <==> exists|i: int|
            0 <= i < opts.len() && #[trigger] m.matches(opts[i], e)),
{
    if let SelectorModel::Either(opts) = s {
        lemma_matches_any_exists(m, opts, e);
    }
}

/// `:focus` matches no element but the focused one.
pub proof fn lemma_focus_only_focused(m: MatcherView, next: SelectorModel, e: u64)
    requires
        m.focus != Some(e),
    ensures
        !m.matches(SelectorModel::Focus(Box::new(next)), e),
        !m.matches(SelectorModel::FocusVisible(Box::new(next)), e),
{
    lemma_match_tests(m, SelectorModel::Focus(Box::new(next)), e);
    lemma_match_tests(m, SelectorModel::FocusVisible(Box::new(next)), e);
}

} // verus!
