//! Style sets: unconditional properties plus properties guarded by selectors.
use vstd::prelude::*;

use std::sync::Arc;

use super::selector::{Selector, spec_depth, spec_uses_focus_within, spec_uses_hover};
use super::selector_matcher::{MatcherView, SelectorMatcher};
use crate::sharing::share_arc;

verus! {

/// A collection of style attributes which can be merged to create a computed style. The
/// attributes are of any type `P`; this type only decides which of them apply.
#[derive(PartialEq)]
pub struct StyleSet<P> {
    /// List of style attributes.
    /// Rather than storing the attributes in a struct full of optional fields, we store a flat
    /// vector of enums, each of which stores a single style attribute. This "sparse" representation
    /// allows for fast merging of styles, particularly for styles which have few or no attributes.
    pub props: Vec<P>,
    /// List of conditional styles: the attributes of an entry apply where its selector matches.
    pub selectors: Vec<(Box<Selector>, Vec<P>)>,
}

/// The largest selector depth among the first `n` entries, or 0.
pub open spec fn rules_depth<P>(rules: Seq<(Box<Selector>, Vec<P>)>, n: int) -> nat
    decreases n,
{
    if n <= 0 {
        0
    } else {
        let d = spec_depth(rules[n - 1].0@);
        let rest = rules_depth(rules, n - 1);
        if d > rest {
            d
        } else {
            rest
        }
    }
}

/// Whether one of the first `n` selectors uses `:hover`.
pub open spec fn rules_use_hover<P>(rules: Seq<(Box<Selector>, Vec<P>)>, n: int) -> bool
    decreases n,
{
    n > 0 && (rules_use_hover(rules, n - 1) || spec_uses_hover(rules[n - 1].0@))
}

/// Whether one of the first `n` selectors uses `:focus-within`.
pub open spec fn rules_use_focus_within<P>(rules: Seq<(Box<Selector>, Vec<P>)>, n: int) -> bool
    decreases n,
{
    n > 0 && (rules_use_focus_within(rules, n - 1) || spec_uses_focus_within(rules[n - 1].0@))
}

/// The positions, in order, of those among the first `n` entries whose selector matches
/// element `e`.
pub open spec fn matching_rules<P>(
    m: MatcherView,
    rules: Seq<(Box<Selector>, Vec<P>)>,
    e: u64,
    n: int,
) -> Seq<usize>
    decreases n,
{
    if n <= 0 {
        Seq::empty()
    } else if m.matches(rules[n - 1].0@, e) {
        matching_rules(m, rules, e, n - 1).push((n - 1) as usize)
    } else {
        matching_rules(m, rules, e, n - 1)
    }
}

impl<P> StyleSet<P> {
    /// Every selector's depth fits in a machine word.
    pub open spec fn depths_fit(&self) -> bool {
        forall|i: int|
            0 <= i < self.selectors@.len() ==> spec_depth(#[trigger] self.selectors@[i].0@)
                <= usize::MAX
    }

    /// The number of UiNode levels referenced by selectors.
    pub open spec fn spec_depth(&self) -> nat {
        rules_depth(self.selectors@, self.selectors@.len() as int)
    }

    /// Whether any of the selectors use the ':hover' pseudo-class.
    pub open spec fn spec_uses_hover(&self) -> bool {
        rules_use_hover(self.selectors@, self.selectors@.len() as int)
    }

    /// Whether any of the selectors use the ':focus-within' pseudo-class.
    pub open spec fn spec_uses_focus_within(&self) -> bool {
        rules_use_focus_within(self.selectors@, self.selectors@.len() as int)
    }

    /// An empty style set.
    pub fn new() -> (r: Self)
        ensures
            r.props@.len() == 0,
            r.selectors@.len() == 0,
    {
        StyleSet { props: Vec::new(), selectors: Vec::new() }
    }

    /// Return the number of UiNode levels referenced by selectors.
    pub fn depth(&self) -> (d: usize)
        requires
            self.depths_fit(),
        ensures
            d == self.spec_depth(),
    {
        let mut best: usize = 0;
        let mut i: usize = 0;
        while i < self.selectors.len()
            invariant
                i <= self.selectors.len(),
                self.depths_fit(),
                best == rules_depth(self.selectors@, i as int),
            decreases self.selectors.len() - i,
        {
            let d = self.selectors[i].0.depth();
            if d > best {
                best = d;
            }
            i = i + 1;
        }
        best
    }

    /// Return whether any of the selectors use the ':hover' pseudo-class.
    pub fn uses_hover(&self) -> (b: bool)
        ensures
            b == self.spec_uses_hover(),
    {
        let mut found = false;
        let mut i: usize = 0;
        while i < self.selectors.len()
            invariant
                i <= self.selectors.len(),
                found == rules_use_hover(self.selectors@, i as int),
            decreases self.selectors.len() - i,
        {
            let h = self.selectors[i].0.uses_hover();
            found = found || h;
            i = i + 1;
        }
        found
    }

    /// Return whether any of the selectors use the ':focus-within' pseudo-class.
    pub fn uses_focus_within(&self) -> (b: bool)
        ensures
            b == self.spec_uses_focus_within(),
    {
        let mut found = false;
        let mut i: usize = 0;
        while i < self.selectors.len()
            invariant
                i <= self.selectors.len(),
                found == rules_use_focus_within(self.selectors@, i as int),
            decreases self.selectors.len() - i,
        {
            let h = self.selectors[i].0.uses_focus_within();
            found = found || h;
            i = i + 1;
        }
        found
    }

    /// The order in which the conditional styles apply to `entity`: the positions of the
    /// entries whose selector matches it. The unconditional properties apply before them.
    pub fn matching_selectors(&self, matcher: &SelectorMatcher, entity: u64) -> (r: Vec<usize>)
        ensures
            r@ == matching_rules(matcher@, self.selectors@, entity, self.selectors@.len() as int),
    {
        let mut r: Vec<usize> = Vec::new();
        let mut i: usize = 0;
        while i < self.selectors.len()
            invariant
                i <= self.selectors.len(),
                r@ == matching_rules(matcher@, self.selectors@, entity, i as int),
            decreases self.selectors.len() - i,
        {
            if matcher.selector_match(&self.selectors[i].0, entity) {
                r.push(i);
            }
            i = i + 1;
        }
        r
    }
}

/// A sharable reference to a collection of UI style properties.
#[derive(PartialEq)]
pub struct StyleHandle<P>(pub Arc<StyleSet<P>>);

impl<P> Default for StyleSet<P> {
    /// An empty style set.
    fn default() -> (r: Self)
        ensures
            r.props@.len() == 0,
            r.selectors@.len() == 0,
    {
        StyleSet::new()
    }
}

impl<P> Default for StyleHandle<P> {
    /// A handle to an empty style set.
    fn default() -> (r: Self)
        ensures
            r.0.props@.len() == 0,
            r.0.selectors@.len() == 0,
    {
        StyleHandle::new(StyleSet::new())
    }
}

impl<P> Clone for StyleHandle<P> {
    /// Another handle to the same style set.
    fn clone(&self) -> (r: Self)
        ensures
            r == *self,
    {
        StyleHandle(share_arc(&self.0))
    }
}

impl<P> StyleHandle<P> {
    /// Wraps a style set so that it can be shared.
    pub fn new(set: StyleSet<P>) -> (r: Self)
        ensures
            *r.0 == set,
    {
        StyleHandle(Arc::new(set))
    }

    /// Return the number of UiNode levels referenced by selectors.
    pub fn depth(&self) -> (d: usize)
        requires
            self.0.depths_fit(),
        ensures
            d == self.0.spec_depth(),
    {
        self.0.depth()
    }

    /// Return whether any of the selectors use the ':hover' pseudo-class.
    pub fn uses_hover(&self) -> (b: bool)
        ensures
            b == self.0.spec_uses_hover(),
    {
        self.0.uses_hover()
    }

    /// Return whether any of the selectors use the ':focus-within' pseudo-class.
    pub fn uses_focus_within(&self) -> (b: bool)
        ensures
            b == self.0.spec_uses_focus_within(),
    {
        self.0.uses_focus_within()
    }
}

/// The largest depth among the first `n` handles, or 0.
pub open spec fn handles_depth<P>(styles: Seq<StyleHandle<P>>, n: int) -> nat
    decreases n,
{
    if n <= 0 {
        0
    } else {
        let d = styles[n - 1].0.spec_depth();
        let rest = handles_depth(styles, n - 1);
        if d > rest {
            d
        } else {
            rest
        }
    }
}

/// Whether one of the first `n` handles has a selector that uses `:hover`.
pub open spec fn handles_use_hover<P>(styles: Seq<StyleHandle<P>>, n: int) -> bool
    decreases n,
{
    n > 0 && (handles_use_hover(styles, n - 1) || styles[n - 1].0.spec_uses_hover())
}

/// Whether one of the first `n` handles has a selector that uses `:focus-within`.
pub open spec fn handles_use_focus_within<P>(styles: Seq<StyleHandle<P>>, n: int) -> bool
    decreases n,
{
    n > 0 && (handles_use_focus_within(styles, n - 1) || styles[n - 1].0.spec_uses_focus_within())
}

/// Every selector of every handle has a depth that fits in a machine word.
pub open spec fn handles_fit<P>(styles: Seq<StyleHandle<P>>) -> bool {
    forall|i: int| 0 <= i < styles.len() ==> (#[trigger] styles[i]).0.depths_fit()
}

/// The style handles attached to an element, with what their selectors need of the element
/// tree.
pub struct ElementStyles<P> {
    /// The collection of styles associated with this element.
    pub styles: Vec<StyleHandle<P>>,
    /// How far up the hierarchy the selectors need to search
    pub selector_depth: usize,
    /// Whether any selectors use the :hover pseudo-class
    pub uses_hover: bool,
    /// Whether any selectors use the :focus-within pseudo-class
    pub uses_focus_within: bool,
}

impl<P> ElementStyles<P> {
    /// The summary fields agree with the handles.
    pub open spec fn summarizes(&self) -> bool {
        &&& self.selector_depth == handles_depth(self.styles@, self.styles@.len() as int)
        &&& self.uses_hover == handles_use_hover(self.styles@, self.styles@.len() as int)
        &&& self.uses_focus_within == handles_use_focus_within(
            self.styles@,
            self.styles@.len() as int,
        )
    }

    /// Attach a list of style handles, working out the summary fields.
    pub fn new(styles: Vec<StyleHandle<P>>) -> (r: Self)
        requires
            handles_fit(styles@),
        ensures
            r.styles@ == styles@,
            r.summarizes(),
    {
        let mut depth: usize = 0;
        let mut hover = false;
        let mut focus_within = false;
        let mut i: usize = 0;
        while i < styles.len()
            invariant
                i <= styles.len(),
                handles_fit(styles@),
                depth == handles_depth(styles@, i as int),
                hover == handles_use_hover(styles@, i as int),
                focus_within == handles_use_focus_within(styles@, i as int),
            decreases styles.len() - i,
        {
            assert(styles@[i as int].0.depths_fit());
            let d = styles[i].depth();
            if d > depth {
                depth = d;
            }
            let h = styles[i].uses_hover();
            hover = hover || h;
            let f = styles[i].uses_focus_within();
            focus_within = focus_within || f;
            i = i + 1;
        }
        ElementStyles {
            styles,
            selector_depth: depth,
            uses_hover: hover,
            uses_focus_within: focus_within,
        }
    }

    /// Replace the list of style handles, working out the summary fields again.
    pub fn update(&mut self, styles: Vec<StyleHandle<P>>)
        requires
            handles_fit(styles@),
        ensures
            final(self).styles@ == styles@,
            final(self).summarizes(),
    {
        *self = ElementStyles::new(styles);
    }
}

/// The summaries of the first `n` conditional styles: `:hover` or `:focus-within` is used
/// exactly when one of their selectors uses it, and the depth is the largest of theirs.
proof fn lemma_rules_summary<P>(rules: Seq<(Box<Selector>, Vec<P>)>, n: int)
    requires
        0 <= n <= rules.len(),
    ensures
        rules_use_hover(rules, n) <==> exists|k: int|
            0 <= k < n && #[trigger] spec_uses_hover(rules[k].0@),
        rules_use_focus_within(rules, n) <==> exists|k: int|
            0 <= k < n && #[trigger] spec_uses_focus_within(rules[k].0@),
        forall|k: int| 0 <= k < n ==> #[trigger] spec_depth(rules[k].0@) <= rules_depth(rules, n),
        n == 0 ==> rules_depth(rules, n) == 0,
        n > 0 ==> exists|k: int|
            0 <= k < n && #[trigger] spec_depth(rules[k].0@) == rules_depth(rules, n),
    decreases n,
{
    if n > 0 {
        lemma_rules_summary(rules, n - 1);
        if rules_depth(rules, n - 1) >= spec_depth(rules[n - 1].0@) && n > 1 {
            let k = choose|k: int|
                0 <= k < n - 1 && #[trigger] spec_depth(rules[k].0@) == rules_depth(rules, n - 1);
            assert(spec_depth(rules[k].0@) == rules_depth(rules, n));
        } else {
            assert(spec_depth(rules[n - 1].0@) == rules_depth(rules, n));
        }
        if spec_uses_hover(rules[n - 1].0@) {
            assert(spec_uses_hover(rules[n - 1].0@));
        }
        if spec_uses_focus_within(rules[n - 1].0@) {
            assert(spec_uses_focus_within(rules[n - 1].0@));
        }
    }
}

/// The summaries of the first `n` handles: `:hover` or `:focus-within` is used exactly when
/// one of the handles uses it, and the depth is the largest of theirs.
proof fn lemma_handles_summary<P>(styles: Seq<StyleHandle<P>>, n: int)
    requires
        0 <= n <= styles.len(),
    ensures
        handles_use_hover(styles, n) <==> exists|i: int|
            0 <= i < n && #[trigger] styles[i].0.spec_uses_hover(),
        handles_use_focus_within(styles, n) <==> exists|i: int|
            0 <= i < n && #[trigger] styles[i].0.spec_uses_focus_within(),
        forall|i: int| 0 <= i < n ==> #[trigger] styles[i].0.spec_depth() <= handles_depth(styles, n),
        n == 0 ==> handles_depth(styles, n) == 0,
        n > 0 ==> exists|i: int|
            0 <= i < n && #[trigger] styles[i].0.spec_depth() == handles_depth(styles, n),
    decreases n,
{
    if n > 0 {
        lemma_handles_summary(styles, n - 1);
        if handles_depth(styles, n - 1) >= styles[n - 1].0.spec_depth() && n > 1 {
            let i = choose|i: int|
                0 <= i < n - 1 && #[trigger] styles[i].0.spec_depth() == handles_depth(styles, n - 1);
            assert(styles[i].0.spec_depth() == handles_depth(styles, n));
        } else {
            assert(styles[n - 1].0.spec_depth() == handles_depth(styles, n));
        }
        if styles[n - 1].0.spec_uses_hover() {
            assert(styles[n - 1].0.spec_uses_hover());
        }
        if styles[n - 1].0.spec_uses_focus_within() {
            assert(styles[n - 1].0.spec_uses_focus_within());
        }
    }
}

impl<P> StyleSet<P> {
    /// A style set uses `:hover` exactly when one of its selectors does, and `:focus-within`
    /// exactly when one of its selectors does; its depth is the largest depth of its
    /// selectors, or 0 when it has none.
    pub proof fn lemma_set_summary(&self)
        ensures
            self.spec_uses_hover() <==> exists|k: int|
                0 <= k < self.selectors@.len() && #[trigger] spec_uses_hover(self.selectors@[k].0@),
            self.spec_uses_focus_within() <==> exists|k: int|
                0 <= k < self.selectors@.len() && #[trigger] spec_uses_focus_within(
                    self.selectors@[k].0@,
                ),
            forall|k: int|
                0 <= k < self.selectors@.len() ==> #[trigger] spec_depth(self.selectors@[k].0@)
                    <= self.spec_depth(),
            self.selectors@.len() == 0 ==> self.spec_depth() == 0,
            self.selectors@.len() > 0 ==> exists|k: int|
                0 <= k < self.selectors@.len() && #[trigger] spec_depth(self.selectors@[k].0@)
                    == self.spec_depth(),
    {
        lemma_rules_summary(self.selectors@, self.selectors@.len() as int);
    }
}

impl<P> ElementStyles<P> {
    /// The summary an element keeps of its styles: it uses `:hover` exactly when some selector
    /// of some handle uses it, and `:focus-within` likewise; its depth is at least that of
    /// every selector of every handle, and is that of one of them when it is not 0.
    pub proof fn lemma_summary(&self)
        requires
            self.summarizes(),
        ensures
            self.uses_hover <==> exists|i: int, k: int|
                0 <= i < self.styles@.len() && 0 <= k < self.styles@[i].0.selectors@.len()
                    && #[trigger] spec_uses_hover(self.styles@[i].0.selectors@[k].0@),
            self.uses_focus_within <==> exists|i: int, k: int|
                0 <= i < self.styles@.len() && 0 <= k < self.styles@[i].0.selectors@.len()
                    && #[trigger] spec_uses_focus_within(self.styles@[i].0.selectors@[k].0@),
            forall|i: int, k: int|
                0 <= i < self.styles@.len() && 0 <= k < self.styles@[i].0.selectors@.len()
                    ==> #[trigger] spec_depth(self.styles@[i].0.selectors@[k].0@)
                    <= self.selector_depth,
            self.selector_depth > 0 ==> exists|i: int, k: int|
                0 <= i < self.styles@.len() && 0 <= k < self.styles@[i].0.selectors@.len()
                    && #[trigger] spec_depth(self.styles@[i].0.selectors@[k].0@)
                    == self.selector_depth,
    {
        let st = self.styles@;
        let n = st.len() as int;
        lemma_handles_summary(st, n);
        assert forall|i: int| 0 <= i < n implies #[trigger] st[i].0.spec_uses_hover() <==> exists|
            k: int,
        | 0 <= k < st[i].0.selectors@.len() && #[trigger] spec_uses_hover(st[i].0.selectors@[k].0@) by {
            st[i].0.lemma_set_summary();
        }
        assert forall|i: int| 0 <= i < n implies #[trigger] st[i].0.spec_uses_focus_within()
            <==> exists|k: int|
            0 <= k < st[i].0.selectors@.len() && #[trigger] spec_uses_focus_within(
                st[i].0.selectors@[k].0@,
            ) by {
            st[i].0.lemma_set_summary();
        }
        if self.uses_hover {
            let i = choose|i: int| 0 <= i < n && #[trigger] st[i].0.spec_uses_hover();
            let k = choose|k: int|
                0 <= k < st[i].0.selectors@.len() && #[trigger] spec_uses_hover(
                    st[i].0.selectors@[k].0@,
                );
            assert(spec_uses_hover(st[i].0.selectors@[k].0@));
        }
        if exists|i: int, k: int|
            0 <= i < n && 0 <= k < st[i].0.selectors@.len() && #[trigger] spec_uses_hover(
                st[i].0.selectors@[k].0@,
            ) {
            let (i, k) = choose|i: int, k: int|
                0 <= i < n && 0 <= k < st[i].0.selectors@.len() && #[trigger] spec_uses_hover(
                    st[i].0.selectors@[k].0@,
                );
            assert(st[i].0.spec_uses_hover());
        }
        if self.uses_focus_within {
            let i = choose|i: int| 0 <= i < n && #[trigger] st[i].0.spec_uses_focus_within();
            let k = choose|k: int|
                0 <= k < st[i].0.selectors@.len() && #[trigger] spec_uses_focus_within(
                    st[i].0.selectors@[k].0@,
                );
            assert(spec_uses_focus_within(st[i].0.selectors@[k].0@));
        }
        if exists|i: int, k: int|
            0 <= i < n && 0 <= k < st[i].0.selectors@.len() && #[trigger] spec_uses_focus_within(
                st[i].0.selectors@[k].0@,
            ) {
            let (i, k) = choose|i: int, k: int|
                0 <= i < n && 0 <= k < st[i].0.selectors@.len() && #[trigger] spec_uses_focus_within(
                    st[i].0.selectors@[k].0@,
                );
            assert(st[i].0.spec_uses_focus_within());
        }
        assert forall|i: int, k: int|
            0 <= i < n && 0 <= k < st[i].0.selectors@.len() implies #[trigger] spec_depth(
            st[i].0.selectors@[k].0@,
        ) <= self.selector_depth by {
            st[i].0.lemma_set_summary();
            assert(st[i].0.spec_depth() <= self.selector_depth);
        }
        if self.selector_depth > 0 {
            let i = choose|i: int|
                0 <= i < n && #[trigger] st[i].0.spec_depth() == handles_depth(st, n);
            st[i].0.lemma_set_summary();
            let k = choose|k: int|
                0 <= k < st[i].0.selectors@.len() && #[trigger] spec_depth(st[i].0.selectors@[k].0@)
                    == st[i].0.spec_depth();
            assert(spec_depth(st[i].0.selectors@[k].0@) == self.selector_depth);
        }
    }
}

} // verus!
