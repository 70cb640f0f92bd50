//! Tuples of style handles, as a view's styles are written.
use vstd::prelude::*;

use super::style_set::StyleHandle;

verus! {

/// `StyleTuple` - a variable-length tuple of [`StyleHandle`]s.
pub trait StyleTuple<P>: Sized {
    /// The handles, in order, that this tuple puts into a vector.
    spec fn handles(&self) -> Seq<StyleHandle<P>>;

    /// The number of handles that this tuple counts.
    spec fn count(&self) -> nat;

    /// Return the actual number of [`StyleHandle`]s in this tuple (including nesting).
    fn len(&self) -> (r: usize)
        requires
            self.count() <= usize::MAX,
        ensures
            r == self.count(),
            r == <Self as StyleTuple<P>>::handles(self).len(),
    ;

    /// True if the tuple is empty.
    fn is_empty(&self) -> (r: bool)
        requires
            self.count() <= usize::MAX,
        ensures
            r == (self.count() == 0),
    {
        self.len() == 0
    }

    /// Insert the [`StyleHandle`]s into a vector.
    fn collect(&self, v: &mut Vec<StyleHandle<P>>)
        ensures
            final(v)@ == old(v)@ + self.handles(),
    ;

    /// Convert the tuple into a vector of [`StyleHandle`]s.
    fn to_vec(&self) -> (r: Vec<StyleHandle<P>>)
        ensures
            r@ == self.handles(),
    {
        let mut v: Vec<StyleHandle<P>> = Vec::new();
        self.collect(&mut v);
        assert(v@ =~= self.handles());
        v
    }
}

/// Empty tuple.
impl<P> StyleTuple<P> for () {
    open spec fn handles(&self) -> Seq<StyleHandle<P>> {
        Seq::empty()
    }

    open spec fn count(&self) -> nat {
        0
    }

    fn len(&self) -> (r: usize) {
        assert(<() as StyleTuple<P>>::handles(self).len() == 0);
        0
    }

    fn collect(&self, v: &mut Vec<StyleHandle<P>>) {
        assert(v@ =~= old(v)@ + Seq::<StyleHandle<P>>::empty());
    }
}

impl<P> StyleTuple<P> for StyleHandle<P> {
    open spec fn handles(&self) -> Seq<StyleHandle<P>> {
        seq![*self]
    }

    open spec fn count(&self) -> nat {
        1
    }

    fn len(&self) -> (r: usize) {
        assert(<StyleHandle<P> as StyleTuple<P>>::handles(self).len() == 1);
        1
    }

    fn collect(&self, v: &mut Vec<StyleHandle<P>>) {
        v.push(self.clone());
        assert(v@ =~= old(v)@ + seq![*self]);
    }
}

/// An optional handle counts as one when it is there, and as none otherwise.
impl<P> StyleTuple<P> for Option<StyleHandle<P>> {
    open spec fn handles(&self) -> Seq<StyleHandle<P>> {
        match self {
            Some(st) => seq![*st],
            None => Seq::empty(),
        }
    }

    open spec fn count(&self) -> nat {
        match self {
            Some(_) => 1,
            None => 0,
        }
    }

    fn len(&self) -> (r: usize) {
        assert(<Option<StyleHandle<P>> as StyleTuple<P>>::handles(self).len() == self.count());
        match self {
            Some(_) => 1,
            None => 0,
        }
    }

    fn collect(&self, v: &mut Vec<StyleHandle<P>>) {
        if let Some(st) = self {
            v.push(st.clone());
        }
        assert(v@ =~= old(v)@ + self.handles());
    }
}

impl<P, A: StyleTuple<P>> StyleTuple<P> for (A,) {
    open spec fn handles(&self) -> Seq<StyleHandle<P>> {
        self.0.handles()
    }

    open spec fn count(&self) -> nat {
        self.0.count()
    }

    fn len(&self) -> (r: usize) {
        let r: usize = self.0.len();
        assert(<(A,) as StyleTuple<P>>::handles(self).len() ==
            <A as StyleTuple<P>>::handles(&self.0).len());
        r
    }

    fn collect(&self, v: &mut Vec<StyleHandle<P>>) {
        self.0.collect(v);
        assert(v@ =~= old(v)@ + self.handles());
    }
}

impl<P, A: StyleTuple<P>, B: StyleTuple<P>> StyleTuple<P> for (A, B) {
    open spec fn handles(&self) -> Seq<StyleHandle<P>> {
        self.0.handles() + self.1.handles()
    }

    open spec fn count(&self) -> nat {
        self.0.count() + self.1.count()
    }

    fn len(&self) -> (r: usize) {
        let r: usize = self.0.len() + self.1.len();
        assert(<(A, B) as StyleTuple<P>>::handles(self).len() ==
            <A as StyleTuple<P>>::handles(&self.0).len()
            + <B as StyleTuple<P>>::handles(&self.1).len());
        r
    }

    fn collect(&self, v: &mut Vec<StyleHandle<P>>) {
        self.0.collect(v);
        self.1.collect(v);
        assert(v@ =~= old(v)@ + self.handles());
    }
}

impl<P, A: StyleTuple<P>, B: StyleTuple<P>, C: StyleTuple<P>> StyleTuple<P> for (A, B, C) {
    open spec fn handles(&self) -> Seq<StyleHandle<P>> {
        self.0.handles() + self.1.handles() + self.2.handles()
    }

    open spec fn count(&self) -> nat {
        self.0.count() + self.1.count() + self.2.count()
    }

    fn len(&self) -> (r: usize) {
        let r: usize = self.0.len() + self.1.len() + self.2.len();
        assert(<(A, B, C) as StyleTuple<P>>::handles(self).len() ==
            <A as StyleTuple<P>>::handles(&self.0).len()
            + <B as StyleTuple<P>>::handles(&self.1).len()
            + <C as StyleTuple<P>>::handles(&self.2).len());
        r
    }

    fn collect(&self, v: &mut Vec<StyleHandle<P>>) {
        self.0.collect(v);
        self.1.collect(v);
        self.2.collect(v);
        assert(v@ =~= old(v)@ + self.handles());
    }
}

impl<
    P,
    A: StyleTuple<P>,
    B: StyleTuple<P>,
    C: StyleTuple<P>,
    D: StyleTuple<P>,
> StyleTuple<P> for (A, B, C, D) {
    open spec fn handles(&self) -> Seq<StyleHandle<P>> {
        self.0.handles() + self.1.handles() + self.2.handles() + self.3.handles()
    }

    open spec fn count(&self) -> nat {
        self.0.count() + self.1.count() + self.2.count() + self.3.count()
    }

    fn len(&self) -> (r: usize) {
        let r: usize = self.0.len() + self.1.len() + self.2.len() + self.3.len();
        assert(<(A, B, C, D) as StyleTuple<P>>::handles(self).len() ==
            <A as StyleTuple<P>>::handles(&self.0).len()
            + <B as StyleTuple<P>>::handles(&self.1).len()
            + <C as StyleTuple<P>>::handles(&self.2).len()
            + <D as StyleTuple<P>>::handles(&self.3).len());
        r
    }

    fn collect(&self, v: &mut Vec<StyleHandle<P>>) {
        self.0.collect(v);
        self.1.collect(v);
        self.2.collect(v);
        self.3.collect(v);
        assert(v@ =~= old(v)@ + self.handles());
    }
}

impl<
    P,
    A: StyleTuple<P>,
    B: StyleTuple<P>,
    C: StyleTuple<P>,
    D: StyleTuple<P>,
    E: StyleTuple<P>,
> StyleTuple<P> for (A, B, C, D, E) {
    open spec fn handles(&self) -> Seq<StyleHandle<P>> {
        self.0.handles() + self.1.handles() + self.2.handles() + self.3.handles() + self.4.handles()
    }

    open spec fn count(&self) -> nat {
        self.0.count() + self.1.count() + self.2.count() + self.3.count() + self.4.count()
    }

    fn len(&self) -> (r: usize) {
        let r: usize = self.0.len() + self.1.len() + self.2.len() + self.3.len() + self.4.len();
        assert(<(A, B, C, D, E) as StyleTuple<P>>::handles(self).len() ==
            <A as StyleTuple<P>>::handles(&self.0).len()
            + <B as StyleTuple<P>>::handles(&self.1).len()
            + <C as StyleTuple<P>>::handles(&self.2).len()
            + <D as StyleTuple<P>>::handles(&self.3).len()
            + <E as StyleTuple<P>>::handles(&self.4).len());
        r
    }

    fn collect(&self, v: &mut Vec<StyleHandle<P>>) {
        self.0.collect(v);
        self.1.collect(v);
        self.2.collect(v);
        self.3.collect(v);
        self.4.collect(v);
        assert(v@ =~= old(v)@ + self.handles());
    }
}

impl<
    P,
    A: StyleTuple<P>,
    B: StyleTuple<P>,
    C: StyleTuple<P>,
    D: StyleTuple<P>,
    E: StyleTuple<P>,
    F: StyleTuple<P>,
> StyleTuple<P> for (A, B, C, D, E, F) {
    open spec fn handles(&self) -> Seq<StyleHandle<P>> {
        self.0.handles()
            + self.1.handles()
            + self.2.handles()
            + self.3.handles()
            + self.4.handles()
            + self.5.handles()
    }

    open spec fn count(&self) -> nat {
        self.0.count()
            + self.1.count()
            + self.2.count()
            + self.3.count()
            + self.4.count()
            + self.5.count()
    }

    fn len(&self) -> (r: usize) {
        let r: usize = self.0.len()
            + self.1.len()
            + self.2.len()
            + self.3.len()
            + self.4.len()
            + self.5.len();
        assert(<(A, B, C, D, E, F) as StyleTuple<P>>::handles(self).len() ==
            <A as StyleTuple<P>>::handles(&self.0).len()
            + <B as StyleTuple<P>>::handles(&self.1).len()
            + <C as StyleTuple<P>>::handles(&self.2).len()
            + <D as StyleTuple<P>>::handles(&self.3).len()
            + <E as StyleTuple<P>>::handles(&self.4).len()
            + <F as StyleTuple<P>>::handles(&self.5).len());
        r
    }

    fn collect(&self, v: &mut Vec<StyleHandle<P>>) {
        self.0.collect(v);
        self.1.collect(v);
        self.2.collect(v);
        self.3.collect(v);
        self.4.collect(v);
        self.5.collect(v);
        assert(v@ =~= old(v)@ + self.handles());
    }
}

impl<
    P,
    A: StyleTuple<P>,
    B: StyleTuple<P>,
    C: StyleTuple<P>,
    D: StyleTuple<P>,
    E: StyleTuple<P>,
    F: StyleTuple<P>,
    G: StyleTuple<P>,
> StyleTuple<P> for (A, B, C, D, E, F, G) {
    open spec fn handles(&self) -> Seq<StyleHandle<P>> {
        self.0.handles()
            + self.1.handles()
            + self.2.handles()
            + self.3.handles()
            + self.4.handles()
            + self.5.handles()
            + self.6.handles()
    }

    open spec fn count(&self) -> nat {
        self.0.count()
            + self.1.count()
            + self.2.count()
            + self.3.count()
            + self.4.count()
            + self.5.count()
            + self.6.count()
    }

    fn len(&self) -> (r: usize) {
        let r: usize = self.0.len()
            + self.1.len()
            + self.2.len()
            + self.3.len()
            + self.4.len()
            + self.5.len()
            + self.6.len();
        assert(<(A, B, C, D, E, F, G) as StyleTuple<P>>::handles(self).len() ==
            <A as StyleTuple<P>>::handles(&self.0).len()
            + <B as StyleTuple<P>>::handles(&self.1).len()
            + <C as StyleTuple<P>>::handles(&self.2).len()
            + <D as StyleTuple<P>>::handles(&self.3).len()
            + <E as StyleTuple<P>>::handles(&self.4).len()
            + <F as StyleTuple<P>>::handles(&self.5).len()
            + <G as StyleTuple<P>>::handles(&self.6).len());
        r
    }

    fn collect(&self, v: &mut Vec<StyleHandle<P>>) {
        self.0.collect(v);
        self.1.collect(v);
        self.2.collect(v);
        self.3.collect(v);
        self.4.collect(v);
        self.5.collect(v);
        self.6.collect(v);
        assert(v@ =~= old(v)@ + self.handles());
    }
}

impl<
    P,
    A: StyleTuple<P>,
    B: StyleTuple<P>,
    C: StyleTuple<P>,
    D: StyleTuple<P>,
    E: StyleTuple<P>,
    F: StyleTuple<P>,
    G: StyleTuple<P>,
    H: StyleTuple<P>,
> StyleTuple<P> for (A, B, C, D, E, F, G, H) {
    open spec fn handles(&self) -> Seq<StyleHandle<P>> {
        self.0.handles()
            + self.1.handles()
            + self.2.handles()
            + self.3.handles()
            + self.4.handles()
            + self.5.handles()
            + self.6.handles()
            + self.7.handles()
    }

    open spec fn count(&self) -> nat {
        self.0.count()
            + self.1.count()
            + self.2.count()
            + self.3.count()
            + self.4.count()
            + self.5.count()
            + self.6.count()
            + self.7.count()
    }

    fn len(&self) -> (r: usize) {
        let r: usize = self.0.len()
            + self.1.len()
            + self.2.len()
            + self.3.len()
            + self.4.len()
            + self.5.len()
            + self.6.len()
            + self.7.len();
        assert(<(A, B, C, D, E, F, G, H) as StyleTuple<P>>::handles(self).len() ==
            <A as StyleTuple<P>>::handles(&self.0).len()
            + <B as StyleTuple<P>>::handles(&self.1).len()
            + <C as StyleTuple<P>>::handles(&self.2).len()
            + <D as StyleTuple<P>>::handles(&self.3).len()
            + <E as StyleTuple<P>>::handles(&self.4).len()
            + <F as StyleTuple<P>>::handles(&self.5).len()
            + <G as StyleTuple<P>>::handles(&self.6).len()
            + <H as StyleTuple<P>>::handles(&self.7).len());
        r
    }

    fn collect(&self, v: &mut Vec<StyleHandle<P>>) {
        self.0.collect(v);
        self.1.collect(v);
        self.2.collect(v);
        self.3.collect(v);
        self.4.collect(v);
        self.5.collect(v);
        self.6.collect(v);
        self.7.collect(v);
        assert(v@ =~= old(v)@ + self.handles());
    }
}

impl<
    P,
    A: StyleTuple<P>,
    B: StyleTuple<P>,
    C: StyleTuple<P>,
    D: StyleTuple<P>,
    E: StyleTuple<P>,
    F: StyleTuple<P>,
    G: StyleTuple<P>,
    H: StyleTuple<P>,
    I: StyleTuple<P>,
> StyleTuple<P> for (A, B, C, D, E, F, G, H, I) {
    open spec fn handles(&self) -> Seq<StyleHandle<P>> {
        self.0.handles()
            + self.1.handles()
            + self.2.handles()
            + self.3.handles()
            + self.4.handles()
            + self.5.handles()
            + self.6.handles()
            + self.7.handles()
            + self.8.handles()
    }

    open spec fn count(&self) -> nat {
        self.0.count()
            + self.1.count()
            + self.2.count()
            + self.3.count()
            + self.4.count()
            + self.5.count()
            + self.6.count()
            + self.7.count()
            + self.8.count()
    }

    fn len(&self) -> (r: usize) {
        let r: usize = self.0.len()
            + self.1.len()
            + self.2.len()
            + self.3.len()
            + self.4.len()
            + self.5.len()
            + self.6.len()
            + self.7.len()
            + self.8.len();
        assert(<(A, B, C, D, E, F, G, H, I) as StyleTuple<P>>::handles(self).len() ==
            <A as StyleTuple<P>>::handles(&self.0).len()
            + <B as StyleTuple<P>>::handles(&self.1).len()
            + <C as StyleTuple<P>>::handles(&self.2).len()
            + <D as StyleTuple<P>>::handles(&self.3).len()
            + <E as StyleTuple<P>>::handles(&self.4).len()
            + <F as StyleTuple<P>>::handles(&self.5).len()
            + <G as StyleTuple<P>>::handles(&self.6).len()
            + <H as StyleTuple<P>>::handles(&self.7).len()
            + <I as StyleTuple<P>>::handles(&self.8).len());
        r
    }

    fn collect(&self, v: &mut Vec<StyleHandle<P>>) {
        self.0.collect(v);
        self.1.collect(v);
        self.2.collect(v);
        self.3.collect(v);
        self.4.collect(v);
        self.5.collect(v);
        self.6.collect(v);
        self.7.collect(v);
        self.8.collect(v);
        assert(v@ =~= old(v)@ + self.handles());
    }
}

impl<
    P,
    A: StyleTuple<P>,
    B: StyleTuple<P>,
    C: StyleTuple<P>,
    D: StyleTuple<P>,
    E: StyleTuple<P>,
    F: StyleTuple<P>,
    G: StyleTuple<P>,
    H: StyleTuple<P>,
    I: StyleTuple<P>,
    J: StyleTuple<P>,
> StyleTuple<P> for (A, B, C, D, E, F, G, H, I, J) {
    open spec fn handles(&self) -> Seq<StyleHandle<P>> {
        self.0.handles()
            + self.1.handles()
            + self.2.handles()
            + self.3.handles()
            + self.4.handles()
            + self.5.handles()
            + self.6.handles()
            + self.7.handles()
            + self.8.handles()
            + self.9.handles()
    }

    open spec fn count(&self) -> nat {
        self.0.count()
            + self.1.count()
            + self.2.count()
            + self.3.count()
            + self.4.count()
            + self.5.count()
            + self.6.count()
            + self.7.count()
            + self.8.count()
            + self.9.count()
    }

    fn len(&self) -> (r: usize) {
        let r: usize = self.0.len()
            + self.1.len()
            + self.2.len()
            + self.3.len()
            + self.4.len()
            + self.5.len()
            + self.6.len()
            + self.7.len()
            + self.8.len()
            + self.9.len();
        assert(<(A, B, C, D, E, F, G, H, I, J) as StyleTuple<P>>::handles(self).len() ==
            <A as StyleTuple<P>>::handles(&self.0).len()
            + <B as StyleTuple<P>>::handles(&self.1).len()
            + <C as StyleTuple<P>>::handles(&self.2).len()
            + <D as StyleTuple<P>>::handles(&self.3).len()
            + <E as StyleTuple<P>>::handles(&self.4).len()
            + <F as StyleTuple<P>>::handles(&self.5).len()
            + <G as StyleTuple<P>>::handles(&self.6).len()
            + <H as StyleTuple<P>>::handles(&self.7).len()
            + <I as StyleTuple<P>>::handles(&self.8).len()
            + <J as StyleTuple<P>>::handles(&self.9).len());
        r
    }

    fn collect(&self, v: &mut Vec<StyleHandle<P>>) {
        self.0.collect(v);
        self.1.collect(v);
        self.2.collect(v);
        self.3.collect(v);
        self.4.collect(v);
        self.5.collect(v);
        self.6.collect(v);
        self.7.collect(v);
        self.8.collect(v);
        self.9.collect(v);
        assert(v@ =~= old(v)@ + self.handles());
    }
}

impl<
    P,
    A: StyleTuple<P>,
    B: StyleTuple<P>,
    C: StyleTuple<P>,
    D: StyleTuple<P>,
    E: StyleTuple<P>,
    F: StyleTuple<P>,
    G: StyleTuple<P>,
    H: StyleTuple<P>,
    I: StyleTuple<P>,
    J: StyleTuple<P>,
    K: StyleTuple<P>,
> StyleTuple<P> for (A, B, C, D, E, F, G, H, I, J, K) {
    open spec fn handles(&self) -> Seq<StyleHandle<P>> {
        self.0.handles()
            + self.1.handles()
            + self.2.handles()
            + self.3.handles()
            + self.4.handles()
            + self.5.handles()
            + self.6.handles()
            + self.7.handles()
            + self.8.handles()
            + self.9.handles()
            + self.10.handles()
    }

    open spec fn count(&self) -> nat {
        self.0.count()
            + self.1.count()
            + self.2.count()
            + self.3.count()
            + self.4.count()
            + self.5.count()
            + self.6.count()
            + self.7.count()
            + self.8.count()
            + self.9.count()
            + self.10.count()
    }

    fn len(&self) -> (r: usize) {
        let r: usize = self.0.len()
            + self.1.len()
            + self.2.len()
            + self.3.len()
            + self.4.len()
            + self.5.len()
            + self.6.len()
            + self.7.len()
            + self.8.len()
            + self.9.len()
            + self.10.len();
        assert(<(A, B, C, D, E, F, G, H, I, J, K) as StyleTuple<P>>::handles(self).len() ==
            <A as StyleTuple<P>>::handles(&self.0).len()
            + <B as StyleTuple<P>>::handles(&self.1).len()
            + <C as StyleTuple<P>>::handles(&self.2).len()
            + <D as StyleTuple<P>>::handles(&self.3).len()
            + <E as StyleTuple<P>>::handles(&self.4).len()
            + <F as StyleTuple<P>>::handles(&self.5).len()
            + <G as StyleTuple<P>>::handles(&self.6).len()
            + <H as StyleTuple<P>>::handles(&self.7).len()
            + <I as StyleTuple<P>>::handles(&self.8).len()
            + <J as StyleTuple<P>>::handles(&self.9).len()
            + <K as StyleTuple<P>>::handles(&self.10).len());
        r
    }

    fn collect(&self, v: &mut Vec<StyleHandle<P>>) {
        self.0.collect(v);
        self.1.collect(v);
        self.2.collect(v);
        self.3.collect(v);
        self.4.collect(v);
        self.5.collect(v);
        self.6.collect(v);
        self.7.collect(v);
        self.8.collect(v);
        self.9.collect(v);
        self.10.collect(v);
        assert(v@ =~= old(v)@ + self.handles());
    }
}

impl<
    P,
    A: StyleTuple<P>,
    B: StyleTuple<P>,
    C: StyleTuple<P>,
    D: StyleTuple<P>,
    E: StyleTuple<P>,
    F: StyleTuple<P>,
    G: StyleTuple<P>,
    H: StyleTuple<P>,
    I: StyleTuple<P>,
    J: StyleTuple<P>,
    K: StyleTuple<P>,
    L: StyleTuple<P>,
> StyleTuple<P> for (A, B, C, D, E, F, G, H, I, J, K, L) {
    open spec fn handles(&self) -> Seq<StyleHandle<P>> {
        self.0.handles()
            + self.1.handles()
            + self.2.handles()
            + self.3.handles()
            + self.4.handles()
            + self.5.handles()
            + self.6.handles()
            + self.7.handles()
            + self.8.handles()
            + self.9.handles()
            + self.10.handles()
            + self.11.handles()
    }

    open spec fn count(&self) -> nat {
        self.0.count()
            + self.1.count()
            + self.2.count()
            + self.3.count()
            + self.4.count()
            + self.5.count()
            + self.6.count()
            + self.7.count()
            + self.8.count()
            + self.9.count()
            + self.10.count()
            + self.11.count()
    }

    fn len(&self) -> (r: usize) {
        let r: usize = self.0.len()
            + self.1.len()
            + self.2.len()
            + self.3.len()
            + self.4.len()
            + self.5.len()
            + self.6.len()
            + self.7.len()
            + self.8.len()
            + self.9.len()
            + self.10.len()
            + self.11.len();
        assert(<(A, B, C, D, E, F, G, H, I, J, K, L) as StyleTuple<P>>::handles(self).len() ==
            <A as StyleTuple<P>>::handles(&self.0).len()
            + <B as StyleTuple<P>>::handles(&self.1).len()
            + <C as StyleTuple<P>>::handles(&self.2).len()
            + <D as StyleTuple<P>>::handles(&self.3).len()
            + <E as StyleTuple<P>>::handles(&self.4).len()
            + <F as StyleTuple<P>>::handles(&self.5).len()
            + <G as StyleTuple<P>>::handles(&self.6).len()
            + <H as StyleTuple<P>>::handles(&self.7).len()
            + <I as StyleTuple<P>>::handles(&self.8).len()
            + <J as StyleTuple<P>>::handles(&self.9).len()
            + <K as StyleTuple<P>>::handles(&self.10).len()
            + <L as StyleTuple<P>>::handles(&self.11).len());
        r
    }

    fn collect(&self, v: &mut Vec<StyleHandle<P>>) {
        self.0.collect(v);
        self.1.collect(v);
        self.2.collect(v);
        self.3.collect(v);
        self.4.collect(v);
        self.5.collect(v);
        self.6.collect(v);
        self.7.collect(v);
        self.8.collect(v);
        self.9.collect(v);
        self.10.collect(v);
        self.11.collect(v);
        assert(v@ =~= old(v)@ + self.handles());
    }
}

impl<
    P,
    A: StyleTuple<P>,
    B: StyleTuple<P>,
    C: StyleTuple<P>,
    D: StyleTuple<P>,
    E: StyleTuple<P>,
    F: StyleTuple<P>,
    G: StyleTuple<P>,
    H: StyleTuple<P>,
    I: StyleTuple<P>,
    J: StyleTuple<P>,
    K: StyleTuple<P>,
    L: StyleTuple<P>,
    M: StyleTuple<P>,
> StyleTuple<P> for (A, B, C, D, E, F, G, H, I, J, K, L, M) {
    open spec fn handles(&self) -> Seq<StyleHandle<P>> {
        self.0.handles()
            + self.1.handles()
            + self.2.handles()
            + self.3.handles()
            + self.4.handles()
            + self.5.handles()
            + self.6.handles()
            + self.7.handles()
            + self.8.handles()
            + self.9.handles()
            + self.10.handles()
            + self.11.handles()
            + self.12.handles()
    }

    open spec fn count(&self) -> nat {
        self.0.count()
            + self.1.count()
            + self.2.count()
            + self.3.count()
            + self.4.count()
            + self.5.count()
            + self.6.count()
            + self.7.count()
            + self.8.count()
            + self.9.count()
            + self.10.count()
            + self.11.count()
            + self.12.count()
    }

    fn len(&self) -> (r: usize) {
        let r: usize = self.0.len()
            + self.1.len()
            + self.2.len()
            + self.3.len()
            + self.4.len()
            + self.5.len()
            + self.6.len()
            + self.7.len()
            + self.8.len()
            + self.9.len()
            + self.10.len()
            + self.11.len()
            + self.12.len();
        assert(<(A, B, C, D, E, F, G, H, I, J, K, L, M) as StyleTuple<P>>::handles(self).len() ==
            <A as StyleTuple<P>>::handles(&self.0).len()
            + <B as StyleTuple<P>>::handles(&self.1).len()
            + <C as StyleTuple<P>>::handles(&self.2).len()
            + <D as StyleTuple<P>>::handles(&self.3).len()
            + <E as StyleTuple<P>>::handles(&self.4).len()
            + <F as StyleTuple<P>>::handles(&self.5).len()
            + <G as StyleTuple<P>>::handles(&self.6).len()
            + <H as StyleTuple<P>>::handles(&self.7).len()
            + <I as StyleTuple<P>>::handles(&self.8).len()
            + <J as StyleTuple<P>>::handles(&self.9).len()
            + <K as StyleTuple<P>>::handles(&self.10).len()
            + <L as StyleTuple<P>>::handles(&self.11).len()
            + <M as StyleTuple<P>>::handles(&self.12).len());
        r
    }

    fn collect(&self, v: &mut Vec<StyleHandle<P>>) {
        self.0.collect(v);
        self.1.collect(v);
        self.2.collect(v);
        self.3.collect(v);
        self.4.collect(v);
        self.5.collect(v);
        self.6.collect(v);
        self.7.collect(v);
        self.8.collect(v);
        self.9.collect(v);
        self.10.collect(v);
        self.11.collect(v);
        self.12.collect(v);
        assert(v@ =~= old(v)@ + self.handles());
    }
}

impl<
    P,
    A: StyleTuple<P>,
    B: StyleTuple<P>,
    C: StyleTuple<P>,
    D: StyleTuple<P>,
    E: StyleTuple<P>,
    F: StyleTuple<P>,
    G: StyleTuple<P>,
    H: StyleTuple<P>,
    I: StyleTuple<P>,
    J: StyleTuple<P>,
    K: StyleTuple<P>,
    L: StyleTuple<P>,
    M: StyleTuple<P>,
    N: StyleTuple<P>,
> StyleTuple<P> for (A, B, C, D, E, F, G, H, I, J, K, L, M, N) {
    open spec fn handles(&self) -> Seq<StyleHandle<P>> {
        self.0.handles()
            + self.1.handles()
            + self.2.handles()
            + self.3.handles()
            + self.4.handles()
            + self.5.handles()
            + self.6.handles()
            + self.7.handles()
            + self.8.handles()
            + self.9.handles()
            + self.10.handles()
            + self.11.handles()
            + self.12.handles()
            + self.13.handles()
    }

    open spec fn count(&self) -> nat {
        self.0.count()
            + self.1.count()
            + self.2.count()
            + self.3.count()
            + self.4.count()
            + self.5.count()
            + self.6.count()
            + self.7.count()
            + self.8.count()
            + self.9.count()
            + self.10.count()
            + self.11.count()
            + self.12.count()
            + self.13.count()
    }

    fn len(&self) -> (r: usize) {
        let r: usize = self.0.len()
            + self.1.len()
            + self.2.len()
            + self.3.len()
            + self.4.len()
            + self.5.len()
            + self.6.len()
            + self.7.len()
            + self.8.len()
            + self.9.len()
            + self.10.len()
            + self.11.len()
            + self.12.len()
            + self.13.len();
        assert(<(A, B, C, D, E, F, G, H, I, J, K, L, M, N) as StyleTuple<P>>::handles(self).len() ==
            <A as StyleTuple<P>>::handles(&self.0).len()
            + <B as StyleTuple<P>>::handles(&self.1).len()
            + <C as StyleTuple<P>>::handles(&self.2).len()
            + <D as StyleTuple<P>>::handles(&self.3).len()
            + <E as StyleTuple<P>>::handles(&self.4).len()
            + <F as StyleTuple<P>>::handles(&self.5).len()
            + <G as StyleTuple<P>>::handles(&self.6).len()
            + <H as StyleTuple<P>>::handles(&self.7).len()
            + <I as StyleTuple<P>>::handles(&self.8).len()
            + <J as StyleTuple<P>>::handles(&self.9).len()
            + <K as StyleTuple<P>>::handles(&self.10).len()
            + <L as StyleTuple<P>>::handles(&self.11).len()
            + <M as StyleTuple<P>>::handles(&self.12).len()
            + <N as StyleTuple<P>>::handles(&self.13).len());
        r
    }

    fn collect(&self, v: &mut Vec<StyleHandle<P>>) {
        self.0.collect(v);
        self.1.collect(v);
        self.2.collect(v);
        self.3.collect(v);
        self.4.collect(v);
        self.5.collect(v);
        self.6.collect(v);
        self.7.collect(v);
        self.8.collect(v);
        self.9.collect(v);
        self.10.collect(v);
        self.11.collect(v);
        self.12.collect(v);
        self.13.collect(v);
        assert(v@ =~= old(v)@ + self.handles());
    }
}

impl<
    P,
    A: StyleTuple<P>,
    B: StyleTuple<P>,
    C: StyleTuple<P>,
    D: StyleTuple<P>,
    E: StyleTuple<P>,
    F: StyleTuple<P>,
    G: StyleTuple<P>,
    H: StyleTuple<P>,
    I: StyleTuple<P>,
    J: StyleTuple<P>,
    K: StyleTuple<P>,
    L: StyleTuple<P>,
    M: StyleTuple<P>,
    N: StyleTuple<P>,
    O: StyleTuple<P>,
> StyleTuple<P> for (A, B, C, D, E, F, G, H, I, J, K, L, M, N, O) {
    open spec fn handles(&self) -> Seq<StyleHandle<P>> {
        self.0.handles()
            + self.1.handles()
            + self.2.handles()
            + self.3.handles()
            + self.4.handles()
            + self.5.handles()
            + self.6.handles()
            + self.7.handles()
            + self.8.handles()
            + self.9.handles()
            + self.10.handles()
            + self.11.handles()
            + self.12.handles()
            + self.13.handles()
            + self.14.handles()
    }

    open spec fn count(&self) -> nat {
        self.0.count()
            + self.1.count()
            + self.2.count()
            + self.3.count()
            + self.4.count()
            + self.5.count()
            + self.6.count()
            + self.7.count()
            + self.8.count()
            + self.9.count()
            + self.10.count()
            + self.11.count()
            + self.12.count()
            + self.13.count()
            + self.14.count()
    }

    fn len(&self) -> (r: usize) {
        let r: usize = self.0.len()
            + self.1.len()
            + self.2.len()
            + self.3.len()
            + self.4.len()
            + self.5.len()
            + self.6.len()
            + self.7.len()
            + self.8.len()
            + self.9.len()
            + self.10.len()
            + self.11.len()
            + self.12.len()
            + self.13.len()
            + self.14.len();
        assert(
            <(A, B, C, D, E, F, G, H, I, J, K, L, M, N, O) as StyleTuple<P>>::handles(self).len() ==
            <A as StyleTuple<P>>::handles(&self.0).len()
            + <B as StyleTuple<P>>::handles(&self.1).len()
            + <C as StyleTuple<P>>::handles(&self.2).len()
            + <D as StyleTuple<P>>::handles(&self.3).len()
            + <E as StyleTuple<P>>::handles(&self.4).len()
            + <F as StyleTuple<P>>::handles(&self.5).len()
            + <G as StyleTuple<P>>::handles(&self.6).len()
            + <H as StyleTuple<P>>::handles(&self.7).len()
            + <I as StyleTuple<P>>::handles(&self.8).len()
            + <J as StyleTuple<P>>::handles(&self.9).len()
            + <K as StyleTuple<P>>::handles(&self.10).len()
            + <L as StyleTuple<P>>::handles(&self.11).len()
            + <M as StyleTuple<P>>::handles(&self.12).len()
            + <N as StyleTuple<P>>::handles(&self.13).len()
            + <O as StyleTuple<P>>::handles(&self.14).len());
        r
    }

    fn collect(&self, v: &mut Vec<StyleHandle<P>>) {
        self.0.collect(v);
        self.1.collect(v);
        self.2.collect(v);
        self.3.collect(v);
        self.4.collect(v);
        self.5.collect(v);
        self.6.collect(v);
        self.7.collect(v);
        self.8.collect(v);
        self.9.collect(v);
        self.10.collect(v);
        self.11.collect(v);
        self.12.collect(v);
        self.13.collect(v);
        self.14.collect(v);
        assert(v@ =~= old(v)@ + self.handles());
    }
}

impl<
    P,
    A: StyleTuple<P>,
    B: StyleTuple<P>,
    C: StyleTuple<P>,
    D: StyleTuple<P>,
    E: StyleTuple<P>,
    F: StyleTuple<P>,
    G: StyleTuple<P>,
    H: StyleTuple<P>,
    I: StyleTuple<P>,
    J: StyleTuple<P>,
    K: StyleTuple<P>,
    L: StyleTuple<P>,
    M: StyleTuple<P>,
    N: StyleTuple<P>,
    O: StyleTuple<P>,
    Q: StyleTuple<P>,
> StyleTuple<P> for (A, B, C, D, E, F, G, H, I, J, K, L, M, N, O, Q) {
    open spec fn handles(&self) -> Seq<StyleHandle<P>> {
        self.0.handles()
            + self.1.handles()
            + self.2.handles()
            + self.3.handles()
            + self.4.handles()
            + self.5.handles()
            + self.6.handles()
            + self.7.handles()
            + self.8.handles()
            + self.9.handles()
            + self.10.handles()
            + self.11.handles()
            + self.12.handles()
            + self.13.handles()
            + self.14.handles()
            + self.15.handles()
    }

    open spec fn count(&self) -> nat {
        self.0.count()
            + self.1.count()
            + self.2.count()
            + self.3.count()
            + self.4.count()
            + self.5.count()
            + self.6.count()
            + self.7.count()
            + self.8.count()
            + self.9.count()
            + self.10.count()
            + self.11.count()
            + self.12.count()
            + self.13.count()
            + self.14.count()
            + self.15.count()
    }

    fn len(&self) -> (r: usize) {
        let r: usize = self.0.len()
            + self.1.len()
            + self.2.len()
            + self.3.len()
            + self.4.len()
            + self.5.len()
            + self.6.len()
            + self.7.len()
            + self.8.len()
            + self.9.len()
            + self.10.len()
            + self.11.len()
            + self.12.len()
            + self.13.len()
            + self.14.len()
            + self.15.len();
        assert(
            <(A, B, C, D, E, F, G, H, I, J, K, L, M, N, O, Q) as StyleTuple<P>>::handles(self).len() ==
            <A as StyleTuple<P>>::handles(&self.0).len()
            + <B as StyleTuple<P>>::handles(&self.1).len()
            + <C as StyleTuple<P>>::handles(&self.2).len()
            + <D as StyleTuple<P>>::handles(&self.3).len()
            + <E as StyleTuple<P>>::handles(&self.4).len()
            + <F as StyleTuple<P>>::handles(&self.5).len()
            + <G as StyleTuple<P>>::handles(&self.6).len()
            + <H as StyleTuple<P>>::handles(&self.7).len()
            + <I as StyleTuple<P>>::handles(&self.8).len()
            + <J as StyleTuple<P>>::handles(&self.9).len()
            + <K as StyleTuple<P>>::handles(&self.10).len()
            + <L as StyleTuple<P>>::handles(&self.11).len()
            + <M as StyleTuple<P>>::handles(&self.12).len()
            + <N as StyleTuple<P>>::handles(&self.13).len()
            + <O as StyleTuple<P>>::handles(&self.14).len()
            + <Q as StyleTuple<P>>::handles(&self.15).len());
        r
    }

    fn collect(&self, v: &mut Vec<StyleHandle<P>>) {
        self.0.collect(v);
        self.1.collect(v);
        self.2.collect(v);
        self.3.collect(v);
        self.4.collect(v);
        self.5.collect(v);
        self.6.collect(v);
        self.7.collect(v);
        self.8.collect(v);
        self.9.collect(v);
        self.10.collect(v);
        self.11.collect(v);
        self.12.collect(v);
        self.13.collect(v);
        self.14.collect(v);
        self.15.collect(v);
        assert(v@ =~= old(v)@ + self.handles());
    }
}

/// A tuple of 2 puts in the handles of all but its last element, in order, then those of
/// the last; equally, those of its first element, then those of the rest in order.
pub proof fn lemma_tuple2_order<P, A: StyleTuple<P>, B: StyleTuple<P>>(t: (A, B))
    ensures
        <(A, B) as StyleTuple<P>>::handles(&t) == <(A,) as StyleTuple<P>>::handles(&(t.0,)) + <B as StyleTuple<P>>::handles(&t.1),
        <(A, B) as StyleTuple<P>>::handles(&t) == <A as StyleTuple<P>>::handles(&t.0) + <(B,) as StyleTuple<P>>::handles(&(t.1,)),
        <(A, B) as StyleTuple<P>>::count(&t) == <(A,) as StyleTuple<P>>::count(&(t.0,)) + <B as StyleTuple<P>>::count(&t.1),
        <(A, B) as StyleTuple<P>>::count(&t) == <A as StyleTuple<P>>::count(&t.0) + <(B,) as StyleTuple<P>>::count(&(t.1,)),
{
    assert(<(A, B) as StyleTuple<P>>::handles(&t) =~= <(A,) as StyleTuple<P>>::handles(&(t.0,)) + <B as StyleTuple<P>>::handles(&t.1));
    assert(<(A, B) as StyleTuple<P>>::handles(&t) =~= <A as StyleTuple<P>>::handles(&t.0) + <(B,) as StyleTuple<P>>::handles(&(t.1,)));
}

/// A tuple of 3 puts in the handles of all but its last element, in order, then those of
/// the last; equally, those of its first element, then those of the rest in order.
pub proof fn lemma_tuple3_order<P, A: StyleTuple<P>, B: StyleTuple<P>, C: StyleTuple<P>>(t: (A, B, C))
    ensures
        <(A, B, C) as StyleTuple<P>>::handles(&t) == <(A, B) as StyleTuple<P>>::handles(&(t.0, t.1)) + <C as StyleTuple<P>>::handles(&t.2),
        <(A, B, C) as StyleTuple<P>>::handles(&t) == <A as StyleTuple<P>>::handles(&t.0) + <(B, C) as StyleTuple<P>>::handles(&(t.1, t.2)),
        <(A, B, C) as StyleTuple<P>>::count(&t) == <(A, B) as StyleTuple<P>>::count(&(t.0, t.1)) + <C as StyleTuple<P>>::count(&t.2),
        <(A, B, C) as StyleTuple<P>>::count(&t) == <A as StyleTuple<P>>::count(&t.0) + <(B, C) as StyleTuple<P>>::count(&(t.1, t.2)),
{
    assert(<(A, B, C) as StyleTuple<P>>::handles(&t) =~= <(A, B) as StyleTuple<P>>::handles(&(t.0, t.1)) + <C as StyleTuple<P>>::handles(&t.2));
    assert(<(A, B, C) as StyleTuple<P>>::handles(&t) =~= <A as StyleTuple<P>>::handles(&t.0) + <(B, C) as StyleTuple<P>>::handles(&(t.1, t.2)));
}

/// A tuple of 4 puts in the handles of all but its last element, in order, then those of
/// the last; equally, those of its first element, then those of the rest in order.
pub proof fn lemma_tuple4_order<P, A: StyleTuple<P>, B: StyleTuple<P>, C: StyleTuple<P>, D: StyleTuple<P>>(t: (A, B, C, D))
    ensures
        <(A, B, C, D) as StyleTuple<P>>::handles(&t) == <(A, B, C) as StyleTuple<P>>::handles(&(t.0, t.1, t.2)) + <D as StyleTuple<P>>::handles(&t.3),
        <(A, B, C, D) as StyleTuple<P>>::handles(&t) == <A as StyleTuple<P>>::handles(&t.0) + <(B, C, D) as StyleTuple<P>>::handles(&(t.1, t.2, t.3)),
        <(A, B, C, D) as StyleTuple<P>>::count(&t) == <(A, B, C) as StyleTuple<P>>::count(&(t.0, t.1, t.2)) + <D as StyleTuple<P>>::count(&t.3),
        <(A, B, C, D) as StyleTuple<P>>::count(&t) == <A as StyleTuple<P>>::count(&t.0) + <(B, C, D) as StyleTuple<P>>::count(&(t.1, t.2, t.3)),
{
    assert(<(A, B, C, D) as StyleTuple<P>>::handles(&t) =~= <(A, B, C) as StyleTuple<P>>::handles(&(t.0, t.1, t.2)) + <D as StyleTuple<P>>::handles(&t.3));
    assert(<(A, B, C, D) as StyleTuple<P>>::handles(&t) =~= <A as StyleTuple<P>>::handles(&t.0) + <(B, C, D) as StyleTuple<P>>::handles(&(t.1, t.2, t.3)));
}

/// A tuple of 5 puts in the handles of all but its last element, in order, then those of
/// the last; equally, those of its first element, then those of the rest in order.
pub proof fn lemma_tuple5_order<P, A: StyleTuple<P>, B: StyleTuple<P>, C: StyleTuple<P>, D: StyleTuple<P>, E: StyleTuple<P>>(t: (A, B, C, D, E))
    ensures
        <(A, B, C, D, E) as StyleTuple<P>>::handles(&t) == <(A, B, C, D) as StyleTuple<P>>::handles(&(t.0, t.1, t.2, t.3)) + <E as StyleTuple<P>>::handles(&t.4),
        <(A, B, C, D, E) as StyleTuple<P>>::handles(&t) == <A as StyleTuple<P>>::handles(&t.0) + <(B, C, D, E) as StyleTuple<P>>::handles(&(t.1, t.2, t.3, t.4)),
        <(A, B, C, D, E) as StyleTuple<P>>::count(&t) == <(A, B, C, D) as StyleTuple<P>>::count(&(t.0, t.1, t.2, t.3)) + <E as StyleTuple<P>>::count(&t.4),
        <(A, B, C, D, E) as StyleTuple<P>>::count(&t) == <A as StyleTuple<P>>::count(&t.0) + <(B, C, D, E) as StyleTuple<P>>::count(&(t.1, t.2, t.3, t.4)),
{
    assert(<(A, B, C, D, E) as StyleTuple<P>>::handles(&t) =~= <(A, B, C, D) as StyleTuple<P>>::handles(&(t.0, t.1, t.2, t.3)) + <E as StyleTuple<P>>::handles(&t.4));
    assert(<(A, B, C, D, E) as StyleTuple<P>>::handles(&t) =~= <A as StyleTuple<P>>::handles(&t.0) + <(B, C, D, E) as StyleTuple<P>>::handles(&(t.1, t.2, t.3, t.4)));
}

/// A tuple of 6 puts in the handles of all but its last element, in order, then those of
/// the last; equally, those of its first element, then those of the rest in order.
pub proof fn lemma_tuple6_order<P, A: StyleTuple<P>, B: StyleTuple<P>, C: StyleTuple<P>, D: StyleTuple<P>, E: StyleTuple<P>, F: StyleTuple<P>>(t: (A, B, C, D, E, F))
    ensures
        <(A, B, C, D, E, F) as StyleTuple<P>>::handles(&t) == <(A, B, C, D, E) as StyleTuple<P>>::handles(&(t.0, t.1, t.2, t.3, t.4)) + <F as StyleTuple<P>>::handles(&t.5),
        <(A, B, C, D, E, F) as StyleTuple<P>>::handles(&t) == <A as StyleTuple<P>>::handles(&t.0) + <(B, C, D, E, F) as StyleTuple<P>>::handles(&(t.1, t.2, t.3, t.4, t.5)),
        <(A, B, C, D, E, F) as StyleTuple<P>>::count(&t) == <(A, B, C, D, E) as StyleTuple<P>>::count(&(t.0, t.1, t.2, t.3, t.4)) + <F as StyleTuple<P>>::count(&t.5),
        <(A, B, C, D, E, F) as StyleTuple<P>>::count(&t) == <A as StyleTuple<P>>::count(&t.0) + <(B, C, D, E, F) as StyleTuple<P>>::count(&(t.1, t.2, t.3, t.4, t.5)),
{
    assert(<(A, B, C, D, E, F) as StyleTuple<P>>::handles(&t) =~= <(A, B, C, D, E) as StyleTuple<P>>::handles(&(t.0, t.1, t.2, t.3, t.4)) + <F as StyleTuple<P>>::handles(&t.5));
    assert(<(A, B, C, D, E, F) as StyleTuple<P>>::handles(&t) =~= <A as StyleTuple<P>>::handles(&t.0) + <(B, C, D, E, F) as StyleTuple<P>>::handles(&(t.1, t.2, t.3, t.4, t.5)));
}

/// A tuple of 7 puts in the handles of all but its last element, in order, then those of
/// the last; equally, those of its first element, then those of the rest in order.
pub proof fn lemma_tuple7_order<P, A: StyleTuple<P>, B: StyleTuple<P>, C: StyleTuple<P>, D: StyleTuple<P>, E: StyleTuple<P>, F: StyleTuple<P>, G: StyleTuple<P>>(t: (A, B, C, D, E, F, G))
    ensures
        <(A, B, C, D, E, F, G) as StyleTuple<P>>::handles(&t) == <(A, B, C, D, E, F) as StyleTuple<P>>::handles(&(t.0, t.1, t.2, t.3, t.4, t.5)) + <G as StyleTuple<P>>::handles(&t.6),
        <(A, B, C, D, E, F, G) as StyleTuple<P>>::handles(&t) == <A as StyleTuple<P>>::handles(&t.0) + <(B, C, D, E, F, G) as StyleTuple<P>>::handles(&(t.1, t.2, t.3, t.4, t.5, t.6)),
        <(A, B, C, D, E, F, G) as StyleTuple<P>>::count(&t) == <(A, B, C, D, E, F) as StyleTuple<P>>::count(&(t.0, t.1, t.2, t.3, t.4, t.5)) + <G as StyleTuple<P>>::count(&t.6),
        <(A, B, C, D, E, F, G) as StyleTuple<P>>::count(&t) == <A as StyleTuple<P>>::count(&t.0) + <(B, C, D, E, F, G) as StyleTuple<P>>::count(&(t.1, t.2, t.3, t.4, t.5, t.6)),
{
    assert(<(A, B, C, D, E, F, G) as StyleTuple<P>>::handles(&t) =~= <(A, B, C, D, E, F) as StyleTuple<P>>::handles(&(t.0, t.1, t.2, t.3, t.4, t.5)) + <G as StyleTuple<P>>::handles(&t.6));
    assert(<(A, B, C, D, E, F, G) as StyleTuple<P>>::handles(&t) =~= <A as StyleTuple<P>>::handles(&t.0) + <(B, C, D, E, F, G) as StyleTuple<P>>::handles(&(t.1, t.2, t.3, t.4, t.5, t.6)));
}

/// A tuple of 8 puts in the handles of all but its last element, in order, then those of
/// the last; equally, those of its first element, then those of the rest in order.
pub proof fn lemma_tuple8_order<P, A: StyleTuple<P>, B: StyleTuple<P>, C: StyleTuple<P>, D: StyleTuple<P>, E: StyleTuple<P>, F: StyleTuple<P>, G: StyleTuple<P>, H: StyleTuple<P>>(t: (A, B, C, D, E, F, G, H))
    ensures
        <(A, B, C, D, E, F, G, H) as StyleTuple<P>>::handles(&t) == <(A, B, C, D, E, F, G) as StyleTuple<P>>::handles(&(t.0, t.1, t.2, t.3, t.4, t.5, t.6)) + <H as StyleTuple<P>>::handles(&t.7),
        <(A, B, C, D, E, F, G, H) as StyleTuple<P>>::handles(&t) == <A as StyleTuple<P>>::handles(&t.0) + <(B, C, D, E, F, G, H) as StyleTuple<P>>::handles(&(t.1, t.2, t.3, t.4, t.5, t.6, t.7)),
        <(A, B, C, D, E, F, G, H) as StyleTuple<P>>::count(&t) == <(A, B, C, D, E, F, G) as StyleTuple<P>>::count(&(t.0, t.1, t.2, t.3, t.4, t.5, t.6)) + <H as StyleTuple<P>>::count(&t.7),
        <(A, B, C, D, E, F, G, H) as StyleTuple<P>>::count(&t) == <A as StyleTuple<P>>::count(&t.0) + <(B, C, D, E, F, G, H) as StyleTuple<P>>::count(&(t.1, t.2, t.3, t.4, t.5, t.6, t.7)),
{
    assert(<(A, B, C, D, E, F, G, H) as StyleTuple<P>>::handles(&t) =~= <(A, B, C, D, E, F, G) as StyleTuple<P>>::handles(&(t.0, t.1, t.2, t.3, t.4, t.5, t.6)) + <H as StyleTuple<P>>::handles(&t.7));
    assert(<(A, B, C, D, E, F, G, H) as StyleTuple<P>>::handles(&t) =~= <A as StyleTuple<P>>::handles(&t.0) + <(B, C, D, E, F, G, H) as StyleTuple<P>>::handles(&(t.1, t.2, t.3, t.4, t.5, t.6, t.7)));
}

/// A tuple of 9 puts in the handles of all but its last element, in order, then those of
/// the last; equally, those of its first element, then those of the rest in order.
pub proof fn lemma_tuple9_order<P, A: StyleTuple<P>, B: StyleTuple<P>, C: StyleTuple<P>, D: StyleTuple<P>, E: StyleTuple<P>, F: StyleTuple<P>, G: StyleTuple<P>, H: StyleTuple<P>, I: StyleTuple<P>>(t: (A, B, C, D, E, F, G, H, I))
    ensures
        <(A, B, C, D, E, F, G, H, I) as StyleTuple<P>>::handles(&t) == <(A, B, C, D, E, F, G, H) as StyleTuple<P>>::handles(&(t.0, t.1, t.2, t.3, t.4, t.5, t.6, t.7)) + <I as StyleTuple<P>>::handles(&t.8),
        <(A, B, C, D, E, F, G, H, I) as StyleTuple<P>>::handles(&t) == <A as StyleTuple<P>>::handles(&t.0) + <(B, C, D, E, F, G, H, I) as StyleTuple<P>>::handles(&(t.1, t.2, t.3, t.4, t.5, t.6, t.7, t.8)),
        <(A, B, C, D, E, F, G, H, I) as StyleTuple<P>>::count(&t) == <(A, B, C, D, E, F, G, H) as StyleTuple<P>>::count(&(t.0, t.1, t.2, t.3, t.4, t.5, t.6, t.7)) + <I as StyleTuple<P>>::count(&t.8),
        <(A, B, C, D, E, F, G, H, I) as StyleTuple<P>>::count(&t) == <A as StyleTuple<P>>::count(&t.0) + <(B, C, D, E, F, G, H, I) as StyleTuple<P>>::count(&(t.1, t.2, t.3, t.4, t.5, t.6, t.7, t.8)),
{
    assert(<(A, B, C, D, E, F, G, H, I) as StyleTuple<P>>::handles(&t) =~= <(A, B, C, D, E, F, G, H) as StyleTuple<P>>::handles(&(t.0, t.1, t.2, t.3, t.4, t.5, t.6, t.7)) + <I as StyleTuple<P>>::handles(&t.8));
    assert(<(A, B, C, D, E, F, G, H, I) as StyleTuple<P>>::handles(&t) =~= <A as StyleTuple<P>>::handles(&t.0) + <(B, C, D, E, F, G, H, I) as StyleTuple<P>>::handles(&(t.1, t.2, t.3, t.4, t.5, t.6, t.7, t.8)));
}

/// A tuple of 10 puts in the handles of all but its last element, in order, then those of
/// the last; equally, those of its first element, then those of the rest in order.
pub proof fn lemma_tuple10_order<P, A: StyleTuple<P>, B: StyleTuple<P>, C: StyleTuple<P>, D: StyleTuple<P>, E: StyleTuple<P>, F: StyleTuple<P>, G: StyleTuple<P>, H: StyleTuple<P>, I: StyleTuple<P>, J: StyleTuple<P>>(t: (A, B, C, D, E, F, G, H, I, J))
    ensures
        <(A, B, C, D, E, F, G, H, I, J) as StyleTuple<P>>::handles(&t) == <(A, B, C, D, E, F, G, H, I) as StyleTuple<P>>::handles(&(t.0, t.1, t.2, t.3, t.4, t.5, t.6, t.7, t.8)) + <J as StyleTuple<P>>::handles(&t.9),
        <(A, B, C, D, E, F, G, H, I, J) as StyleTuple<P>>::handles(&t) == <A as StyleTuple<P>>::handles(&t.0) + <(B, C, D, E, F, G, H, I, J) as StyleTuple<P>>::handles(&(t.1, t.2, t.3, t.4, t.5, t.6, t.7, t.8, t.9)),
        <(A, B, C, D, E, F, G, H, I, J) as StyleTuple<P>>::count(&t) == <(A, B, C, D, E, F, G, H, I) as StyleTuple<P>>::count(&(t.0, t.1, t.2, t.3, t.4, t.5, t.6, t.7, t.8)) + <J as StyleTuple<P>>::count(&t.9),
        <(A, B, C, D, E, F, G, H, I, J) as StyleTuple<P>>::count(&t) == <A as StyleTuple<P>>::count(&t.0) + <(B, C, D, E, F, G, H, I, J) as StyleTuple<P>>::count(&(t.1, t.2, t.3, t.4, t.5, t.6, t.7, t.8, t.9)),
{
    assert(<(A, B, C, D, E, F, G, H, I, J) as StyleTuple<P>>::handles(&t) =~= <(A, B, C, D, E, F, G, H, I) as StyleTuple<P>>::handles(&(t.0, t.1, t.2, t.3, t.4, t.5, t.6, t.7, t.8)) + <J as StyleTuple<P>>::handles(&t.9));
    assert(<(A, B, C, D, E, F, G, H, I, J) as StyleTuple<P>>::handles(&t) =~= <A as StyleTuple<P>>::handles(&t.0) + <(B, C, D, E, F, G, H, I, J) as StyleTuple<P>>::handles(&(t.1, t.2, t.3, t.4, t.5, t.6, t.7, t.8, t.9)));
}

/// A tuple of 11 puts in the handles of all but its last element, in order, then those of
/// the last; equally, those of its first element, then those of the rest in order.
pub proof fn lemma_tuple11_order<P, A: StyleTuple<P>, B: StyleTuple<P>, C: StyleTuple<P>, D: StyleTuple<P>, E: StyleTuple<P>, F: StyleTuple<P>, G: StyleTuple<P>, H: StyleTuple<P>, I: StyleTuple<P>, J: StyleTuple<P>, K: StyleTuple<P>>(t: (A, B, C, D, E, F, G, H, I, J, K))
    ensures
        <(A, B, C, D, E, F, G, H, I, J, K) as StyleTuple<P>>::handles(&t) == <(A, B, C, D, E, F, G, H, I, J) as StyleTuple<P>>::handles(&(t.0, t.1, t.2, t.3, t.4, t.5, t.6, t.7, t.8, t.9)) + <K as StyleTuple<P>>::handles(&t.10),
        <(A, B, C, D, E, F, G, H, I, J, K) as StyleTuple<P>>::handles(&t) == <A as StyleTuple<P>>::handles(&t.0) + <(B, C, D, E, F, G, H, I, J, K) as StyleTuple<P>>::handles(&(t.1, t.2, t.3, t.4, t.5, t.6, t.7, t.8, t.9, t.10)),
        <(A, B, C, D, E, F, G, H, I, J, K) as StyleTuple<P>>::count(&t) == <(A, B, C, D, E, F, G, H, I, J) as StyleTuple<P>>::count(&(t.0, t.1, t.2, t.3, t.4, t.5, t.6, t.7, t.8, t.9)) + <K as StyleTuple<P>>::count(&t.10),
        <(A, B, C, D, E, F, G, H, I, J, K) as StyleTuple<P>>::count(&t) == <A as StyleTuple<P>>::count(&t.0) + <(B, C, D, E, F, G, H, I, J, K) as StyleTuple<P>>::count(&(t.1, t.2, t.3, t.4, t.5, t.6, t.7, t.8, t.9, t.10)),
{
    assert(<(A, B, C, D, E, F, G, H, I, J, K) as StyleTuple<P>>::handles(&t) =~= <(A, B, C, D, E, F, G, H, I, J) as StyleTuple<P>>::handles(&(t.0, t.1, t.2, t.3, t.4, t.5, t.6, t.7, t.8, t.9)) + <K as StyleTuple<P>>::handles(&t.10));
    assert(<(A, B, C, D, E, F, G, H, I, J, K) as StyleTuple<P>>::handles(&t) =~= <A as StyleTuple<P>>::handles(&t.0) + <(B, C, D, E, F, G, H, I, J, K) as StyleTuple<P>>::handles(&(t.1, t.2, t.3, t.4, t.5, t.6, t.7, t.8, t.9, t.10)));
}

/// A tuple of 12 puts in the handles of all but its last element, in order, then those of
/// the last; equally, those of its first element, then those of the rest in order.
pub proof fn lemma_tuple12_order<P, A: StyleTuple<P>, B: StyleTuple<P>, C: StyleTuple<P>, D: StyleTuple<P>, E: StyleTuple<P>, F: StyleTuple<P>, G: StyleTuple<P>, H: StyleTuple<P>, I: StyleTuple<P>, J: StyleTuple<P>, K: StyleTuple<P>, L: StyleTuple<P>>(t: (A, B, C, D, E, F, G, H, I, J, K, L))
    ensures
        <(A, B, C, D, E, F, G, H, I, J, K, L) as StyleTuple<P>>::handles(&t) == <(A, B, C, D, E, F, G, H, I, J, K) as StyleTuple<P>>::handles(&(t.0, t.1, t.2, t.3, t.4, t.5, t.6, t.7, t.8, t.9, t.10)) + <L as StyleTuple<P>>::handles(&t.11),
        <(A, B, C, D, E, F, G, H, I, J, K, L) as StyleTuple<P>>::handles(&t) == <A as StyleTuple<P>>::handles(&t.0) + <(B, C, D, E, F, G, H, I, J, K, L) as StyleTuple<P>>::handles(&(t.1, t.2, t.3, t.4, t.5, t.6, t.7, t.8, t.9, t.10, t.11)),
        <(A, B, C, D, E, F, G, H, I, J, K, L) as StyleTuple<P>>::count(&t) == <(A, B, C, D, E, F, G, H, I, J, K) as StyleTuple<P>>::count(&(t.0, t.1, t.2, t.3, t.4, t.5, t.6, t.7, t.8, t.9, t.10)) + <L as StyleTuple<P>>::count(&t.11),
        <(A, B, C, D, E, F, G, H, I, J, K, L) as StyleTuple<P>>::count(&t) == <A as StyleTuple<P>>::count(&t.0) + <(B, C, D, E, F, G, H, I, J, K, L) as StyleTuple<P>>::count(&(t.1, t.2, t.3, t.4, t.5, t.6, t.7, t.8, t.9, t.10, t.11)),
{
    assert(<(A, B, C, D, E, F, G, H, I, J, K, L) as StyleTuple<P>>::handles(&t) =~= <(A, B, C, D, E, F, G, H, I, J, K) as StyleTuple<P>>::handles(&(t.0, t.1, t.2, t.3, t.4, t.5, t.6, t.7, t.8, t.9, t.10)) + <L as StyleTuple<P>>::handles(&t.11));
    assert(<(A, B, C, D, E, F, G, H, I, J, K, L) as StyleTuple<P>>::handles(&t) =~= <A as StyleTuple<P>>::handles(&t.0) + <(B, C, D, E, F, G, H, I, J, K, L) as StyleTuple<P>>::handles(&(t.1, t.2, t.3, t.4, t.5, t.6, t.7, t.8, t.9, t.10, t.11)));
}

/// A tuple of 13 puts in the handles of all but its last element, in order, then those of
/// the last; equally, those of its first element, then those of the rest in order.
pub proof fn lemma_tuple13_order<P, A: StyleTuple<P>, B: StyleTuple<P>, C: StyleTuple<P>, D: StyleTuple<P>, E: StyleTuple<P>, F: StyleTuple<P>, G: StyleTuple<P>, H: StyleTuple<P>, I: StyleTuple<P>, J: StyleTuple<P>, K: StyleTuple<P>, L: StyleTuple<P>, M: StyleTuple<P>>(t: (A, B, C, D, E, F, G, H, I, J, K, L, M))
    ensures
        <(A, B, C, D, E, F, G, H, I, J, K, L, M) as StyleTuple<P>>::handles(&t) == <(A, B, C, D, E, F, G, H, I, J, K, L) as StyleTuple<P>>::handles(&(t.0, t.1, t.2, t.3, t.4, t.5, t.6, t.7, t.8, t.9, t.10, t.11)) + <M as StyleTuple<P>>::handles(&t.12),
        <(A, B, C, D, E, F, G, H, I, J, K, L, M) as StyleTuple<P>>::handles(&t) == <A as StyleTuple<P>>::handles(&t.0) + <(B, C, D, E, F, G, H, I, J, K, L, M) as StyleTuple<P>>::handles(&(t.1, t.2, t.3, t.4, t.5, t.6, t.7, t.8, t.9, t.10, t.11, t.12)),
        <(A, B, C, D, E, F, G, H, I, J, K, L, M) as StyleTuple<P>>::count(&t) == <(A, B, C, D, E, F, G, H, I, J, K, L) as StyleTuple<P>>::count(&(t.0, t.1, t.2, t.3, t.4, t.5, t.6, t.7, t.8, t.9, t.10, t.11)) + <M as StyleTuple<P>>::count(&t.12),
        <(A, B, C, D, E, F, G, H, I, J, K, L, M) as StyleTuple<P>>::count(&t) == <A as StyleTuple<P>>::count(&t.0) + <(B, C, D, E, F, G, H, I, J, K, L, M) as StyleTuple<P>>::count(&(t.1, t.2, t.3, t.4, t.5, t.6, t.7, t.8, t.9, t.10, t.11, t.12)),
{
    assert(<(A, B, C, D, E, F, G, H, I, J, K, L, M) as StyleTuple<P>>::handles(&t) =~= <(A, B, C, D, E, F, G, H, I, J, K, L) as StyleTuple<P>>::handles(&(t.0, t.1, t.2, t.3, t.4, t.5, t.6, t.7, t.8, t.9, t.10, t.11)) + <M as StyleTuple<P>>::handles(&t.12));
    assert(<(A, B, C, D, E, F, G, H, I, J, K, L, M) as StyleTuple<P>>::handles(&t) =~= <A as StyleTuple<P>>::handles(&t.0) + <(B, C, D, E, F, G, H, I, J, K, L, M) as StyleTuple<P>>::handles(&(t.1, t.2, t.3, t.4, t.5, t.6, t.7, t.8, t.9, t.10, t.11, t.12)));
}

/// A tuple of 14 puts in the handles of all but its last element, in order, then those of
/// the last; equally, those of its first element, then those of the rest in order.
pub proof fn lemma_tuple14_order<P, A: StyleTuple<P>, B: StyleTuple<P>, C: StyleTuple<P>, D: StyleTuple<P>, E: StyleTuple<P>, F: StyleTuple<P>, G: StyleTuple<P>, H: StyleTuple<P>, I: StyleTuple<P>, J: StyleTuple<P>, K: StyleTuple<P>, L: StyleTuple<P>, M: StyleTuple<P>, N: StyleTuple<P>>(t: (A, B, C, D, E, F, G, H, I, J, K, L, M, N))
    ensures
        <(A, B, C, D, E, F, G, H, I, J, K, L, M, N) as StyleTuple<P>>::handles(&t) == <(A, B, C, D, E, F, G, H, I, J, K, L, M) as StyleTuple<P>>::handles(&(t.0, t.1, t.2, t.3, t.4, t.5, t.6, t.7, t.8, t.9, t.10, t.11, t.12)) + <N as StyleTuple<P>>::handles(&t.13),
        <(A, B, C, D, E, F, G, H, I, J, K, L, M, N) as StyleTuple<P>>::handles(&t) == <A as StyleTuple<P>>::handles(&t.0) + <(B, C, D, E, F, G, H, I, J, K, L, M, N) as StyleTuple<P>>::handles(&(t.1, t.2, t.3, t.4, t.5, t.6, t.7, t.8, t.9, t.10, t.11, t.12, t.13)),
        <(A, B, C, D, E, F, G, H, I, J, K, L, M, N) as StyleTuple<P>>::count(&t) == <(A, B, C, D, E, F, G, H, I, J, K, L, M) as StyleTuple<P>>::count(&(t.0, t.1, t.2, t.3, t.4, t.5, t.6, t.7, t.8, t.9, t.10, t.11, t.12)) + <N as StyleTuple<P>>::count(&t.13),
        <(A, B, C, D, E, F, G, H, I, J, K, L, M, N) as StyleTuple<P>>::count(&t) == <A as StyleTuple<P>>::count(&t.0) + <(B, C, D, E, F, G, H, I, J, K, L, M, N) as StyleTuple<P>>::count(&(t.1, t.2, t.3, t.4, t.5, t.6, t.7, t.8, t.9, t.10, t.11, t.12, t.13)),
{
    assert(<(A, B, C, D, E, F, G, H, I, J, K, L, M, N) as StyleTuple<P>>::handles(&t) =~= <(A, B, C, D, E, F, G, H, I, J, K, L, M) as StyleTuple<P>>::handles(&(t.0, t.1, t.2, t.3, t.4, t.5, t.6, t.7, t.8, t.9, t.10, t.11, t.12)) + <N as StyleTuple<P>>::handles(&t.13));
    assert(<(A, B, C, D, E, F, G, H, I, J, K, L, M, N) as StyleTuple<P>>::handles(&t) =~= <A as StyleTuple<P>>::handles(&t.0) + <(B, C, D, E, F, G, H, I, J, K, L, M, N) as StyleTuple<P>>::handles(&(t.1, t.2, t.3, t.4, t.5, t.6, t.7, t.8, t.9, t.10, t.11, t.12, t.13)));
}

/// A tuple of 15 puts in the handles of all but its last element, in order, then those of
/// the last; equally, those of its first element, then those of the rest in order.
pub proof fn lemma_tuple15_order<P, A: StyleTuple<P>, B: StyleTuple<P>, C: StyleTuple<P>, D: StyleTuple<P>, E: StyleTuple<P>, F: StyleTuple<P>, G: StyleTuple<P>, H: StyleTuple<P>, I: StyleTuple<P>, J: StyleTuple<P>, K: StyleTuple<P>, L: StyleTuple<P>, M: StyleTuple<P>, N: StyleTuple<P>, O: StyleTuple<P>>(t: (A, B, C, D, E, F, G, H, I, J, K, L, M, N, O))
    ensures
        <(A, B, C, D, E, F, G, H, I, J, K, L, M, N, O) as StyleTuple<P>>::handles(&t) == <(A, B, C, D, E, F, G, H, I, J, K, L, M, N) as StyleTuple<P>>::handles(&(t.0, t.1, t.2, t.3, t.4, t.5, t.6, t.7, t.8, t.9, t.10, t.11, t.12, t.13)) + <O as StyleTuple<P>>::handles(&t.14),
        <(A, B, C, D, E, F, G, H, I, J, K, L, M, N, O) as StyleTuple<P>>::handles(&t) == <A as StyleTuple<P>>::handles(&t.0) + <(B, C, D, E, F, G, H, I, J, K, L, M, N, O) as StyleTuple<P>>::handles(&(t.1, t.2, t.3, t.4, t.5, t.6, t.7, t.8, t.9, t.10, t.11, t.12, t.13, t.14)),
        <(A, B, C, D, E, F, G, H, I, J, K, L, M, N, O) as StyleTuple<P>>::count(&t) == <(A, B, C, D, E, F, G, H, I, J, K, L, M, N) as StyleTuple<P>>::count(&(t.0, t.1, t.2, t.3, t.4, t.5, t.6, t.7, t.8, t.9, t.10, t.11, t.12, t.13)) + <O as StyleTuple<P>>::count(&t.14),
        <(A, B, C, D, E, F, G, H, I, J, K, L, M, N, O) as StyleTuple<P>>::count(&t) == <A as StyleTuple<P>>::count(&t.0) + <(B, C, D, E, F, G, H, I, J, K, L, M, N, O) as StyleTuple<P>>::count(&(t.1, t.2, t.3, t.4, t.5, t.6, t.7, t.8, t.9, t.10, t.11, t.12, t.13, t.14)),
{
    assert(<(A, B, C, D, E, F, G, H, I, J, K, L, M, N, O) as StyleTuple<P>>::handles(&t) =~= <(A, B, C, D, E, F, G, H, I, J, K, L, M, N) as StyleTuple<P>>::handles(&(t.0, t.1, t.2, t.3, t.4, t.5, t.6, t.7, t.8, t.9, t.10, t.11, t.12, t.13)) + <O as StyleTuple<P>>::handles(&t.14));
    assert(<(A, B, C, D, E, F, G, H, I, J, K, L, M, N, O) as StyleTuple<P>>::handles(&t) =~= <A as StyleTuple<P>>::handles(&t.0) + <(B, C, D, E, F, G, H, I, J, K, L, M, N, O) as StyleTuple<P>>::handles(&(t.1, t.2, t.3, t.4, t.5, t.6, t.7, t.8, t.9, t.10, t.11, t.12, t.13, t.14)));
}

/// A tuple of 16 puts in the handles of all but its last element, in order, then those of
/// the last; equally, those of its first element, then those of the rest in order.
pub proof fn lemma_tuple16_order<P, A: StyleTuple<P>, B: StyleTuple<P>, C: StyleTuple<P>, D: StyleTuple<P>, E: StyleTuple<P>, F: StyleTuple<P>, G: StyleTuple<P>, H: StyleTuple<P>, I: StyleTuple<P>, J: StyleTuple<P>, K: StyleTuple<P>, L: StyleTuple<P>, M: StyleTuple<P>, N: StyleTuple<P>, O: StyleTuple<P>, Q: StyleTuple<P>>(t: (A, B, C, D, E, F, G, H, I, J, K, L, M, N, O, Q))
    ensures
        <(A, B, C, D, E, F, G, H, I, J, K, L, M, N, O, Q) as StyleTuple<P>>::handles(&t) == <(A, B, C, D, E, F, G, H, I, J, K, L, M, N, O) as StyleTuple<P>>::handles(&(t.0, t.1, t.2, t.3, t.4, t.5, t.6, t.7, t.8, t.9, t.10, t.11, t.12, t.13, t.14)) + <Q as StyleTuple<P>>::handles(&t.15),
        <(A, B, C, D, E, F, G, H, I, J, K, L, M, N, O, Q) as StyleTuple<P>>::handles(&t) == <A as StyleTuple<P>>::handles(&t.0) + <(B, C, D, E, F, G, H, I, J, K, L, M, N, O, Q) as StyleTuple<P>>::handles(&(t.1, t.2, t.3, t.4, t.5, t.6, t.7, t.8, t.9, t.10, t.11, t.12, t.13, t.14, t.15)),
        <(A, B, C, D, E, F, G, H, I, J, K, L, M, N, O, Q) as StyleTuple<P>>::count(&t) == <(A, B, C, D, E, F, G, H, I, J, K, L, M, N, O) as StyleTuple<P>>::count(&(t.0, t.1, t.2, t.3, t.4, t.5, t.6, t.7, t.8, t.9, t.10, t.11, t.12, t.13, t.14)) + <Q as StyleTuple<P>>::count(&t.15),
        <(A, B, C, D, E, F, G, H, I, J, K, L, M, N, O, Q) as StyleTuple<P>>::count(&t) == <A as StyleTuple<P>>::count(&t.0) + <(B, C, D, E, F, G, H, I, J, K, L, M, N, O, Q) as StyleTuple<P>>::count(&(t.1, t.2, t.3, t.4, t.5, t.6, t.7, t.8, t.9, t.10, t.11, t.12, t.13, t.14, t.15)),
{
    assert(<(A, B, C, D, E, F, G, H, I, J, K, L, M, N, O, Q) as StyleTuple<P>>::handles(&t) =~= <(A, B, C, D, E, F, G, H, I, J, K, L, M, N, O) as StyleTuple<P>>::handles(&(t.0, t.1, t.2, t.3, t.4, t.5, t.6, t.7, t.8, t.9, t.10, t.11, t.12, t.13, t.14)) + <Q as StyleTuple<P>>::handles(&t.15));
    assert(<(A, B, C, D, E, F, G, H, I, J, K, L, M, N, O, Q) as StyleTuple<P>>::handles(&t) =~= <A as StyleTuple<P>>::handles(&t.0) + <(B, C, D, E, F, G, H, I, J, K, L, M, N, O, Q) as StyleTuple<P>>::handles(&(t.1, t.2, t.3, t.4, t.5, t.6, t.7, t.8, t.9, t.10, t.11, t.12, t.13, t.14, t.15)));
}

} // verus!
