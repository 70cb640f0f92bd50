//! Style selectors: their abstract model, and the queries that style sets ask of them.
use vstd::prelude::*;

verus! {

/// Represents a predicate which can be used to conditionally style a node.
/// Selectors support a subset of CSS grammar:
///
/// * Current element (`&`)
/// * Classname matching
/// * Parent element (`>`) pattern
/// * Multiple patterns can be specified by commas.
///
/// Examples:
/// ```css
///   &
///   &.name
///   :hover
///   .state > &
///   .state > * > &.name
/// ```
///
/// Selectors must target the "current element": this means that the "`&`" selector is
/// required, and it can only appear on the last term of the selector expression. This means
/// that parent elements cannot implicitly style their children; child elements must have styles
/// explicitly specified (although those styles can be conditional on the state of their parents).
#[derive(Debug, PartialEq)]
pub enum Selector {
    /// If we reach this state, it means the match was successful
    Accept,
    /// Match an element with a specific class name.
    Class(String, Box<Selector>),
    /// Element that is being hovered.
    Hover(Box<Selector>),
    /// Element that currently has keyboard focus.
    Focus(Box<Selector>),
    /// Element that currently has keyboard focus, or contains a descendant that does.
    FocusWithin(Box<Selector>),
    /// Element that currently has keyboard focus, when focus is shown.
    FocusVisible(Box<Selector>),
    /// Element is the first child of its parent.
    FirstChild(Box<Selector>),
    /// Element is the last child of its parent.
    LastChild(Box<Selector>),
    /// Reference to the current element.
    Current(Box<Selector>),
    /// Reference to the parent of this element.
    Parent(Box<Selector>),
    /// List of alternate choices.
    #[allow(clippy::vec_box)]
    Either(Vec<Box<Selector>>),
}

/// The mathematical value of a [`Selector`]: class names are character sequences and the
/// alternatives of `Either` form a sequence.
pub enum SelectorModel {
    /// Matches everything.
    Accept,
    /// A class name test, then the rest of the selector.
    Class(Seq<char>, Box<SelectorModel>),
    /// The `:hover` test.
    Hover(Box<SelectorModel>),
    /// The `:focus` test.
    Focus(Box<SelectorModel>),
    /// The `:focus-within` test.
    FocusWithin(Box<SelectorModel>),
    /// The `:focus-visible` test.
    FocusVisible(Box<SelectorModel>),
    /// The `:first-child` test.
    FirstChild(Box<SelectorModel>),
    /// The `:last-child` test.
    LastChild(Box<SelectorModel>),
    /// The `&` marker.
    Current(Box<SelectorModel>),
    /// Step to the parent element.
    Parent(Box<SelectorModel>),
    /// Alternatives.
    Either(Seq<SelectorModel>),
}

impl Selector {
    /// The model of this selector.
    pub open spec fn model(self) -> SelectorModel
        decreases self, 0int,
    {
        match self {
            Selector::Accept => SelectorModel::Accept,
            Selector::Class(name, next) => SelectorModel::Class(name@, Box::new(next.model())),
            Selector::Hover(next) => SelectorModel::Hover(Box::new(next.model())),
            Selector::Focus(next) => SelectorModel::Focus(Box::new(next.model())),
            Selector::FocusWithin(next) => SelectorModel::FocusWithin(Box::new(next.model())),
            Selector::FocusVisible(next) => SelectorModel::FocusVisible(Box::new(next.model())),
            Selector::FirstChild(next) => SelectorModel::FirstChild(Box::new(next.model())),
            Selector::LastChild(next) => SelectorModel::LastChild(Box::new(next.model())),
            Selector::Current(next) => SelectorModel::Current(Box::new(next.model())),
            Selector::Parent(next) => SelectorModel::Parent(Box::new(next.model())),
            Selector::Either(opts) => SelectorModel::Either(models_of(opts@)),
        }
    }
}

/// The models of a sequence of boxed selectors, in order.
pub open spec fn models_of(opts: Seq<Box<Selector>>) -> Seq<SelectorModel>
    decreases opts, 0int,
{
    if opts.len() == 0 {
        Seq::empty()
    } else {
        models_of(opts.subrange(0, opts.len() - 1)).push((*opts[opts.len() - 1]).model())
    }
}

impl View for Selector {
    type V = SelectorModel;

    open spec fn view(&self) -> SelectorModel {
        self.model()
    }
}

/// `models_of` keeps the length, and element `i` is the model of selector `i`.
pub proof fn lemma_models_of(opts: Seq<Box<Selector>>)
    ensures
        models_of(opts).len() == opts.len(),
        forall|i: int| 0 <= i < opts.len() ==> #[trigger] models_of(opts)[i] == (*opts[i]).model(),
    decreases opts.len(),
{
    if opts.len() > 0 {
        let init = opts.subrange(0, opts.len() - 1);
        lemma_models_of(init);
        assert forall|i: int| 0 <= i < opts.len() implies #[trigger] models_of(opts)[i]
            == (*opts[i]).model() by {
            if i < opts.len() - 1 {
                assert(init[i] == opts[i]);
            }
        }
    }
}

/// How many levels up the ancestor chain a selector may look.
pub open spec fn spec_depth(s: SelectorModel) -> nat
    decreases s, 0int,
{
    match s {
        SelectorModel::Accept => 1,
        SelectorModel::Class(_, next) => spec_depth(*next),
        SelectorModel::Hover(next) => spec_depth(*next),
        SelectorModel::Focus(next) => spec_depth(*next),
        SelectorModel::FocusWithin(next) => spec_depth(*next),
        SelectorModel::FocusVisible(next) => spec_depth(*next),
        SelectorModel::FirstChild(next) => spec_depth(*next),
        SelectorModel::LastChild(next) => spec_depth(*next),
        SelectorModel::Current(next) => spec_depth(*next),
        SelectorModel::Parent(next) => spec_depth(*next) + 1,
        SelectorModel::Either(opts) => max_depth(opts),
    }
}

/// The largest depth among the alternatives, or 0 when there are none.
pub open spec fn max_depth(opts: Seq<SelectorModel>) -> nat
    decreases opts, 0int,
{
    if opts.len() == 0 {
        0
    } else {
        let d = spec_depth(opts[opts.len() - 1]);
        let rest = max_depth(opts.subrange(0, opts.len() - 1));
        if d > rest {
            d
        } else {
            rest
        }
    }
}

/// Whether a selector contains the `:hover` test.
pub open spec fn spec_uses_hover(s: SelectorModel) -> bool
    decreases s, 0int,
{
    match s {
        SelectorModel::Accept => false,
        SelectorModel::Class(_, next) => spec_uses_hover(*next),
        SelectorModel::Hover(_) => true,
        SelectorModel::Focus(next) => spec_uses_hover(*next),
        SelectorModel::FocusWithin(next) => spec_uses_hover(*next),
        SelectorModel::FocusVisible(next) => spec_uses_hover(*next),
        SelectorModel::FirstChild(next) => spec_uses_hover(*next),
        SelectorModel::LastChild(next) => spec_uses_hover(*next),
        SelectorModel::Current(next) => spec_uses_hover(*next),
        SelectorModel::Parent(next) => spec_uses_hover(*next),
        SelectorModel::Either(opts) => any_uses_hover(opts),
    }
}

/// Whether some alternative contains the `:hover` test.
pub open spec fn any_uses_hover(opts: Seq<SelectorModel>) -> bool
    decreases opts, 0int,
{
    if opts.len() == 0 {
        false
    } else {
        any_uses_hover(opts.subrange(0, opts.len() - 1)) || spec_uses_hover(opts[opts.len() - 1])
    }
}

/// Whether a selector contains the `:focus-within` test.
pub open spec fn spec_uses_focus_within(s: SelectorModel) -> bool
    decreases s, 0int,
{
    match s {
        SelectorModel::Accept => false,
        SelectorModel::Class(_, next) => spec_uses_focus_within(*next),
        SelectorModel::Hover(next) => spec_uses_focus_within(*next),
        SelectorModel::Focus(next) => spec_uses_focus_within(*next),
        SelectorModel::FocusWithin(_) => true,
        SelectorModel::FocusVisible(next) => spec_uses_focus_within(*next),
        SelectorModel::FirstChild(next) => spec_uses_focus_within(*next),
        SelectorModel::LastChild(next) => spec_uses_focus_within(*next),
        SelectorModel::Current(next) => spec_uses_focus_within(*next),
        SelectorModel::Parent(next) => spec_uses_focus_within(*next),
        SelectorModel::Either(opts) => any_uses_focus_within(opts),
    }
}

/// Whether some alternative contains the `:focus-within` test.
pub open spec fn any_uses_focus_within(opts: Seq<SelectorModel>) -> bool
    decreases opts, 0int,
{
    if opts.len() == 0 {
        false
    } else {
        any_uses_focus_within(opts.subrange(0, opts.len() - 1)) || spec_uses_focus_within(
            opts[opts.len() - 1],
        )
    }
}

impl Selector {
    /// Returns a number indicating how many levels up the entity ancestor hierarchy we might
    /// have to search to look for classes.
    pub fn depth(&self) -> (d: usize)
        requires
            spec_depth(self@) <= usize::MAX,
        ensures
            d == spec_depth(self@),
        decreases self,
    {
        match self {
            Selector::Accept => 1,
            Selector::Class(_, next) => next.depth(),
            Selector::Hover(next) => next.depth(),
            Selector::Focus(next) => next.depth(),
            Selector::FocusWithin(next) => next.depth(),
            Selector::FocusVisible(next) => next.depth(),
            Selector::FirstChild(next) => next.depth(),
            Selector::LastChild(next) => next.depth(),
            Selector::Current(next) => next.depth(),
            Selector::Parent(next) => next.depth() + 1,
            Selector::Either(opts) => {
                proof {
                    lemma_models_of(opts@);
                }
                let mut best: usize = 0;
                let mut i: usize = 0;
                while i < opts.len()
                    invariant
                        i <= opts.len(),
                        models_of(opts@).len() == opts@.len(),
                        forall|j: int|
                            0 <= j < opts@.len() ==> #[trigger] models_of(opts@)[j] == (
                            *opts@[j]).model(),
                        max_depth(models_of(opts@)) <= usize::MAX,
                        best == max_depth(models_of(opts@).subrange(0, i as int)),
                        *self == Selector::Either(*opts),
                    decreases opts.len() - i,
                {
                    let ghost ms = models_of(opts@);
                    proof {
                        assert(ms.subrange(0, i + 1).subrange(0, i as int) == ms.subrange(
                            0,
                            i as int,
                        ));
                        lemma_max_depth_prefix(ms, i + 1);
                        lemma_max_depth_bound(ms, i as int);
                        assert(decreases_to!(*self => self->Either_0));
                        assert(decreases_to!(*opts => opts@));
                        assert(decreases_to!(opts@ => opts@[i as int]));
                    }
                    let d = opts[i].depth();
                    if d > best {
                        best = d;
                    }
                    i = i + 1;
                }
                proof {
                    assert(models_of(opts@).subrange(0, i as int) == models_of(opts@));
                }
                best
            },
        }
    }

    /// Returns whether this selector uses the hover pseudo-class.
    pub fn uses_hover(&self) -> (b: bool)
        ensures
            b == spec_uses_hover(self@),
        decreases self,
    {
        match self {
            Selector::Accept => false,
            Selector::Class(_, next) => next.uses_hover(),
            Selector::Hover(_) => true,
            Selector::Focus(next) => next.uses_hover(),
            Selector::FocusWithin(next) => next.uses_hover(),
            Selector::FocusVisible(next) => next.uses_hover(),
            Selector::FirstChild(next) => next.uses_hover(),
            Selector::LastChild(next) => next.uses_hover(),
            Selector::Current(next) => next.uses_hover(),
            Selector::Parent(next) => next.uses_hover(),
            Selector::Either(opts) => {
                proof {
                    lemma_models_of(opts@);
                }
                let mut found = false;
                let mut i: usize = 0;
                while i < opts.len()
                    invariant
                        i <= opts.len(),
                        models_of(opts@).len() == opts@.len(),
                        forall|j: int|
                            0 <= j < opts@.len() ==> #[trigger] models_of(opts@)[j] == (
                            *opts@[j]).model(),
                        found == any_uses_hover(models_of(opts@).subrange(0, i as int)),
                        *self == Selector::Either(*opts),
                    decreases opts.len() - i,
                {
                    let ghost ms = models_of(opts@);
                    proof {
                        assert(ms.subrange(0, i + 1).subrange(0, i as int) == ms.subrange(
                            0,
                            i as int,
                        ));
                        assert(decreases_to!(*self => self->Either_0));
                        assert(decreases_to!(*opts => opts@));
                        assert(decreases_to!(opts@ => opts@[i as int]));
                    }
                    let h = opts[i].uses_hover();
                    found = found || h;
                    i = i + 1;
                }
                proof {
                    assert(models_of(opts@).subrange(0, i as int) == models_of(opts@));
                }
                found
            },
        }
    }

    /// Returns whether this selector uses the focus-within pseudo-class, at any level of it
    /// and in any of its alternatives. A `:hover` test alone does not count.
    pub fn uses_focus_within(&self) -> (b: bool)
        ensures
            b == spec_uses_focus_within(self@),
        decreases self,
    {
        match self {
            Selector::Accept => false,
            Selector::Class(_, next) => next.uses_focus_within(),
            Selector::Hover(next) => next.uses_focus_within(),
            Selector::Focus(next) => next.uses_focus_within(),
            Selector::FocusWithin(_) => true,
            Selector::FocusVisible(next) => next.uses_focus_within(),
            Selector::FirstChild(next) => next.uses_focus_within(),
            Selector::LastChild(next) => next.uses_focus_within(),
            Selector::Current(next) => next.uses_focus_within(),
            Selector::Parent(next) => next.uses_focus_within(),
            Selector::Either(opts) => {
                proof {
                    lemma_models_of(opts@);
                }
                let mut found = false;
                let mut i: usize = 0;
                while i < opts.len()
                    invariant
                        i <= opts.len(),
                        models_of(opts@).len() == opts@.len(),
                        forall|j: int|
                            0 <= j < opts@.len() ==> #[trigger] models_of(opts@)[j] == (
                            *opts@[j]).model(),
                        found == any_uses_focus_within(models_of(opts@).subrange(0, i as int)),
                        *self == Selector::Either(*opts),
                    decreases opts.len() - i,
                {
                    let ghost ms = models_of(opts@);
                    proof {
                        assert(ms.subrange(0, i + 1).subrange(0, i as int) == ms.subrange(
                            0,
                            i as int,
                        ));
                        assert(decreases_to!(*self => self->Either_0));
                        assert(decreases_to!(*opts => opts@));
                        assert(decreases_to!(opts@ => opts@[i as int]));
                    }
                    let h = opts[i].uses_focus_within();
                    found = found || h;
                    i = i + 1;
                }
                proof {
                    assert(models_of(opts@).subrange(0, i as int) == models_of(opts@));
                }
                found
            },
        }
    }
}

impl Clone for Selector {
    fn clone(&self) -> (r: Self)
        ensures
            r@ == self@,
        decreases self,
    {
        match self {
            Selector::Accept => Selector::Accept,
            Selector::Class(name, next) => {
                Selector::Class(name.clone(), Box::new((**next).clone()))
            },
            Selector::Hover(next) => Selector::Hover(Box::new((**next).clone())),
            Selector::Focus(next) => Selector::Focus(Box::new((**next).clone())),
            Selector::FocusWithin(next) => Selector::FocusWithin(Box::new((**next).clone())),
            Selector::FocusVisible(next) => Selector::FocusVisible(Box::new((**next).clone())),
            Selector::FirstChild(next) => Selector::FirstChild(Box::new((**next).clone())),
            Selector::LastChild(next) => Selector::LastChild(Box::new((**next).clone())),
            Selector::Current(next) => Selector::Current(Box::new((**next).clone())),
            Selector::Parent(next) => Selector::Parent(Box::new((**next).clone())),
            Selector::Either(opts) => {
                proof {
                    lemma_models_of(opts@);
                }
                let mut copies: Vec<Box<Selector>> = Vec::new();
                let mut i: usize = 0;
                while i < opts.len()
                    invariant
                        i <= opts.len(),
                        models_of(opts@).len() == opts@.len(),
                        forall|j: int|
                            0 <= j < opts@.len() ==> #[trigger] models_of(opts@)[j] == (
                            *opts@[j]).model(),
                        models_of(copies@) == models_of(opts@).subrange(0, i as int),
                        *self == Selector::Either(*opts),
                    decreases opts.len() - i,
                {
                    proof {
                        assert(decreases_to!(*self => self->Either_0));
                        assert(decreases_to!(*opts => opts@));
                        assert(decreases_to!(opts@ => opts@[i as int]));
                    }
                    let c = (*opts[i]).clone();
                    let ghost before = copies@;
                    copies.push(Box::new(c));
                    proof {
                        assert(copies@.subrange(0, copies@.len() - 1) == before);
                        assert(models_of(opts@).subrange(0, i + 1) == models_of(opts@).subrange(
                            0,
                            i as int,
                        ).push(models_of(opts@)[i as int]));
                    }
                    i = i + 1;
                }
                proof {
                    assert(models_of(opts@).subrange(0, i as int) == models_of(opts@));
                }
                Selector::Either(copies)
            },
        }
    }
}

/// The depth of a prefix grows by at most the depth of the next alternative.
proof fn lemma_max_depth_prefix(ms: Seq<SelectorModel>, n: int)
    requires
        0 < n <= ms.len(),
    ensures
        max_depth(ms.subrange(0, n)) == if spec_depth(ms[n - 1]) > max_depth(
            ms.subrange(0, n - 1),
        ) {
            spec_depth(ms[n - 1])
        } else {
            max_depth(ms.subrange(0, n - 1))
        },
{
    assert(ms.subrange(0, n).subrange(0, n - 1) == ms.subrange(0, n - 1));
}

/// Every alternative, and every prefix, has depth at most that of the whole list.
pub proof fn lemma_max_depth_bound(ms: Seq<SelectorModel>, i: int)
    requires
        0 <= i < ms.len(),
    ensures
        spec_depth(ms[i]) <= max_depth(ms),
        max_depth(ms.subrange(0, i)) <= max_depth(ms),
        max_depth(ms.subrange(0, i + 1)) <= max_depth(ms),
    decreases ms.len(),
{
    let init = ms.subrange(0, ms.len() - 1);
    if i == ms.len() - 1 {
        assert(ms.subrange(0, i) == init);
        assert(ms.subrange(0, i + 1) == ms);
    } else {
        lemma_max_depth_bound(init, i);
        assert(init[i] == ms[i]);
        assert(init.subrange(0, i) == ms.subrange(0, i));
        assert(init.subrange(0, i + 1) == ms.subrange(0, i + 1));
    }
}

/// A list of alternatives uses `:hover` exactly when one of them does, and `:focus-within`
/// exactly when one of them does.
pub proof fn lemma_any_uses_exists(ms: Seq<SelectorModel>)
    ensures
        any_uses_hover(ms) <==> exists|i: int| 0 <= i < ms.len() && #[trigger] spec_uses_hover(ms[i]),
        any_uses_focus_within(ms) <==> exists|i: int|
            0 <= i < ms.len() && #[trigger] spec_uses_focus_within(ms[i]),
    decreases ms.len(),
{
    if ms.len() > 0 {
        let init = ms.subrange(0, ms.len() - 1);
        lemma_any_uses_exists(init);
        assert forall|i: int| 0 <= i < init.len() implies init[i] == ms[i] by {}
        assert(any_uses_hover(ms) == (any_uses_hover(init) || spec_uses_hover(ms[ms.len() - 1])));
        assert(any_uses_focus_within(ms) == (any_uses_focus_within(init)
            || spec_uses_focus_within(ms[ms.len() - 1])));
        if exists|i: int| 0 <= i < ms.len() && #[trigger] spec_uses_hover(ms[i]) {
            let i = choose|i: int| 0 <= i < ms.len() && #[trigger] spec_uses_hover(ms[i]);
            if i < ms.len() - 1 {
                assert(spec_uses_hover(init[i]));
            }
        }
        if any_uses_hover(init) {
            let i = choose|i: int| 0 <= i < init.len() && #[trigger] spec_uses_hover(init[i]);
            assert(spec_uses_hover(ms[i]));
        }
        if exists|i: int| 0 <= i < ms.len() && #[trigger] spec_uses_focus_within(ms[i]) {
            let i = choose|i: int| 0 <= i < ms.len() && #[trigger] spec_uses_focus_within(ms[i]);
            if i < ms.len() - 1 {
                assert(spec_uses_focus_within(init[i]));
            }
        }
        if any_uses_focus_within(init) {
            let i = choose|i: int|
                0 <= i < init.len() && #[trigger] spec_uses_focus_within(init[i]);
            assert(spec_uses_focus_within(ms[i]));
        }
    }
}

/// The depth of a list of alternatives is the largest of their depths: none is deeper, and
/// one of them, when there are any, is as deep.
pub proof fn lemma_max_depth_is_max(ms: Seq<SelectorModel>)
    ensures
        forall|i: int| 0 <= i < ms.len() ==> #[trigger] spec_depth(ms[i]) <= max_depth(ms),
        ms.len() == 0 ==> max_depth(ms) == 0,
        ms.len() > 0 ==> exists|i: int|
            0 <= i < ms.len() && #[trigger] spec_depth(ms[i]) == max_depth(ms),
    decreases ms.len(),
{
    assert forall|i: int| 0 <= i < ms.len() implies #[trigger] spec_depth(ms[i]) <= max_depth(
        ms,
    ) by {
        lemma_max_depth_bound(ms, i);
    }
    if ms.len() > 0 {
        let init = ms.subrange(0, ms.len() - 1);
        lemma_max_depth_is_max(init);
        if spec_depth(ms[ms.len() - 1]) > max_depth(init) || init.len() == 0 {
            assert(spec_depth(ms[ms.len() - 1]) == max_depth(ms));
        } else {
            let i = choose|i: int| 0 <= i < init.len() && #[trigger] spec_depth(init[i]) == max_depth(init);
            assert(init[i] == ms[i]);
            assert(spec_depth(ms[i]) == max_depth(ms));
        }
    }
}

} // verus!
