//! The class names attached to an element, and values that give class names.
use vstd::prelude::*;

use bevy::utils::HashSet;
use std::marker::PhantomData;

verus! {

/// A set of class names, held in the engine's hash set. Verus does not see inside it: what
/// it holds is [`class_set_names`].
#[verifier::external_body]
pub struct ClassSet {
    set: HashSet<String>,
}

/// The texts of the names that a [`ClassSet`] holds.
pub uninterp spec fn class_set_names(set: ClassSet) -> Set<Seq<char>>;

/// `HashSet::default`: a set that holds no name.
#[verifier::external_body]
fn class_set_new() -> (r: ClassSet)
    ensures
        class_set_names(r) == Set::<Seq<char>>::empty(),
{
    ClassSet { set: HashSet::default() }
}

/// `HashSet::insert` of a copy of `name`: the set then holds `name` besides what it held.
#[verifier::external_body]
fn class_set_insert(set: &mut ClassSet, name: &str)
    ensures
        class_set_names(*final(set)) == class_set_names(*old(set)).insert(name@),
{
    set.set.insert(name.to_string());
}

/// `HashSet::remove`: the set then holds what it held but `name`.
#[verifier::external_body]
fn class_set_remove(set: &mut ClassSet, name: &str)
    ensures
        class_set_names(*final(set)) == class_set_names(*old(set)).remove(name@),
{
    set.set.remove(name);
}

/// `HashSet::contains`: whether the set holds `name`.
#[verifier::external_body]
fn class_set_contains(set: &ClassSet, name: &str) -> (b: bool)
    ensures
        b == class_set_names(*set).contains(name@),
{
    set.set.contains(name)
}

/// `HashSet::iter`, each name copied into a `Vec`. The names come out in the order in which
/// the set is walked, which rests on hashing; only which names come out, each once, is
/// stated.
#[verifier::external_body]
fn class_set_list(set: &ClassSet) -> (r: Vec<String>)
    ensures
        forall|c: Seq<char>| #[trigger]
            class_set_names(*set).contains(c) <==> exists|i: int|
                0 <= i < r@.len() && (#[trigger] r@[i])@ == c,
        forall|i: int, j: int|
            0 <= i < j < r@.len() ==> (#[trigger] r@[i])@ != (#[trigger] r@[j])@,
{
    set.set.iter().cloned().collect()
}

/// List of class names which are attached to a given UiNode. Style selectors can use these
/// class names to conditionally apply styles.
pub struct ElementClasses {
    names: ClassSet,
}

impl View for ElementClasses {
    type V = Set<Seq<char>>;

    closed spec fn view(&self) -> Set<Seq<char>> {
        class_set_names(self.names)
    }
}

impl ElementClasses {
    /// An element with no class names.
    pub fn new() -> (r: Self)
        ensures
            r@ == Set::<Seq<char>>::empty(),
    {
        ElementClasses { names: class_set_new() }
    }

    /// Whether the element has the class name `cls`.
    pub fn contains(&self, cls: &str) -> (b: bool)
        ensures
            b == self@.contains(cls@),
    {
        class_set_contains(&self.names, cls)
    }

    /// The class names, each once, in no particular order.
    pub fn names(&self) -> (r: Vec<String>)
        ensures
            forall|c: Seq<char>| #[trigger]
                self@.contains(c) <==> exists|i: int| 0 <= i < r@.len() && (#[trigger] r@[i])@ == c,
            forall|i: int, j: int|
                0 <= i < j < r@.len() ==> (#[trigger] r@[i])@ != (#[trigger] r@[j])@,
    {
        class_set_list(&self.names)
    }

    /// Add a classname to this element. Be careful using this method with `.class_names()`,
    /// because the latter will overwrite any changes you make with this method.
    pub fn add_class(&mut self, cls: &str)
        ensures
            final(self)@ == old(self)@.insert(cls@),
    {
        class_set_insert(&mut self.names, cls);
    }

    /// Remove a classname from this element. Be careful using this method with `.class_names()`,
    /// because the latter will overwrite any changes you make with this method.
    pub fn remove_class(&mut self, cls: &str)
        ensures
            final(self)@ == old(self)@.remove(cls@),
    {
        class_set_remove(&mut self.names, cls);
    }
}

impl Default for ElementClasses {
    /// An element with no class names.
    fn default() -> (r: Self)
        ensures
            r@ == Set::<Seq<char>>::empty(),
    {
        ElementClasses::new()
    }
}

/// Class names that are added only when `enabled` holds.
#[derive(PartialEq)]
pub struct ConditionalClassNames<'a, C> {
    pub(crate) inner: C,
    pub(crate) enabled: bool,
    pub(crate) marker: PhantomData<&'a ()>,
}

impl<'a, C> ConditionalClassNames<'a, C> {
    /// The class names that are added when enabled.
    pub closed spec fn inner(&self) -> C {
        self.inner
    }

    /// Whether the class names are added.
    pub closed spec fn enabled(&self) -> bool {
        self.enabled
    }
}

/// Tuple of class names, possibly conditional, possibly nested.
pub trait ClassNames<'a>: Send + Sized {
    /// The texts of the class names that this value adds to a set.
    spec fn added(&self) -> Set<Seq<char>>;

    /// The number of class names that this value counts.
    spec fn count(&self) -> nat;

    /// Return the number of class names.
    fn len(&self) -> (r: usize)
        requires
            self.count() <= usize::MAX,
        ensures
            r == self.count(),
    ;

    /// True if the list of class names is empty.
    fn is_empty(&self) -> (r: bool)
        ensures
            r == (self.count() == 0),
    ;

    /// Add all of the enabled class names to a set.
    fn add_classes(&self, classes: &mut ElementClasses)
        ensures
            final(classes)@ == old(classes)@.union(self.added()),
    ;

    /// Make this set of class names conditional; if the condition is false, then the
    /// class names will not be added to the set.
    fn if_true(self, enabled: bool) -> (r: ConditionalClassNames<'a, Self>)
        ensures
            r.inner() == self,
            r.enabled() == enabled,
    {
        ConditionalClassNames { inner: self, enabled, marker: PhantomData }
    }

    /// Convert this set of class names into a set.
    fn to_set(&self) -> (r: ElementClasses)
        ensures
            r@ == self.added(),
    {
        let mut result = ElementClasses::new();
        self.add_classes(&mut result);
        assert(result@ =~= self.added());
        result
    }
}

impl<'a> ClassNames<'a> for () {
    open spec fn added(&self) -> Set<Seq<char>> {
        Set::empty()
    }

    open spec fn count(&self) -> nat {
        0
    }

    fn len(&self) -> (r: usize) {
        0
    }

    fn is_empty(&self) -> (r: bool) {
        true
    }

    fn add_classes(&self, classes: &mut ElementClasses) {
        assert(classes@ =~= old(classes)@.union(Set::empty()));
    }
}

impl<'a> ClassNames<'a> for String {
    open spec fn added(&self) -> Set<Seq<char>> {
        set![self@]
    }

    open spec fn count(&self) -> nat {
        1
    }

    fn len(&self) -> (r: usize) {
        1
    }

    fn is_empty(&self) -> (r: bool) {
        false
    }

    fn add_classes(&self, classes: &mut ElementClasses) {
        classes.add_class(self.as_str());
        assert(classes@ =~= old(classes)@.union(set![self@]));
    }
}

impl<'a, 'b> ClassNames<'a> for &'b str {
    open spec fn added(&self) -> Set<Seq<char>> {
        set![self@]
    }

    open spec fn count(&self) -> nat {
        1
    }

    fn len(&self) -> (r: usize) {
        1
    }

    fn is_empty(&self) -> (r: bool) {
        false
    }

    fn add_classes(&self, classes: &mut ElementClasses) {
        classes.add_class(*self);
        assert(classes@ =~= old(classes)@.union(set![self@]));
    }
}

impl<'a, C: ClassNames<'a>> ClassNames<'a> for ConditionalClassNames<'a, C> {
    open spec fn added(&self) -> Set<Seq<char>> {
        if self.enabled() {
            self.inner().added()
        } else {
            Set::empty()
        }
    }

    open spec fn count(&self) -> nat {
        if self.enabled() {
            self.inner().count()
        } else {
            0
        }
    }

    fn len(&self) -> (r: usize) {
        if self.enabled {
            self.inner.len()
        } else {
            0
        }
    }

    fn is_empty(&self) -> (r: bool) {
        if self.enabled {
            self.inner.is_empty()
        } else {
            true
        }
    }

    fn add_classes(&self, classes: &mut ElementClasses) {
        if self.enabled {
            self.inner.add_classes(classes);
        } else {
            assert(classes@ =~= old(classes)@.union(Set::empty()));
        }
    }
}

/// Conditional class names add, and count, the names they hold when the condition is true,
/// and nothing when it is false. Two conditions in turn act as one that holds when both do.
/// Adding class names to a set never removes a name that was there.
pub proof fn lemma_conditional_names<'a, C: ClassNames<'a>>(
    names: C,
    enabled: bool,
    c: ConditionalClassNames<'a, C>,
    outer: bool,
    cc: ConditionalClassNames<'a, ConditionalClassNames<'a, C>>,
    before: Set<Seq<char>>,
)
    requires
        c.inner() == names,
        c.enabled() == enabled,
        cc.inner() == c,
        cc.enabled() == outer,
    ensures
        c.added() == (if enabled {
            names.added()
        } else {
            Set::<Seq<char>>::empty()
        }),
        c.count() == (if enabled {
            names.count()
        } else {
            0
        }),
        cc.added() == (if enabled && outer {
            names.added()
        } else {
            Set::<Seq<char>>::empty()
        }),
        cc.count() == (if enabled && outer {
            names.count()
        } else {
            0
        }),
        before.subset_of(before.union(c.added())),
{
}

impl<'a, C: ClassNames<'a> + Clone> Clone for ConditionalClassNames<'a, C> {
    fn clone(&self) -> Self {
        ConditionalClassNames {
            inner: self.inner.clone(),
            enabled: self.enabled,
            marker: self.marker,
        }
    }
}

impl<'a, A: ClassNames<'a>> ClassNames<'a> for (A,) {
    open spec fn added(&self) -> Set<Seq<char>> {
        self.0.added()
    }

    open spec fn count(&self) -> nat {
        self.0.count()
    }

    fn len(&self) -> (r: usize) {
        self.0.len()
    }

    fn is_empty(&self) -> (r: bool) {
        self.0.is_empty()
    }

    fn add_classes(&self, classes: &mut ElementClasses) {
        self.0.add_classes(classes);
        assert(classes@ =~= old(classes)@.union(self.added()));
    }
}

impl<'a, A: ClassNames<'a>, B: ClassNames<'a>> ClassNames<'a> for (A, B) {
    open spec fn added(&self) -> Set<Seq<char>> {
        self.0.added().union(self.1.added())
    }

    open spec fn count(&self) -> nat {
        self.0.count() + self.1.count()
    }

    fn len(&self) -> (r: usize) {
        self.0.len() + self.1.len()
    }

    fn is_empty(&self) -> (r: bool) {
        self.0.is_empty() && self.1.is_empty()
    }

    fn add_classes(&self, classes: &mut ElementClasses) {
        self.0.add_classes(classes);
        self.1.add_classes(classes);
        assert(classes@ =~= old(classes)@.union(self.added()));
    }
}

impl<'a, A: ClassNames<'a>, B: ClassNames<'a>, C: ClassNames<'a>> ClassNames<'a> for (A, B, C) {
    open spec fn added(&self) -> Set<Seq<char>> {
        self.0.added().union(self.1.added()).union(self.2.added())
    }

    open spec fn count(&self) -> nat {
        self.0.count() + self.1.count() + self.2.count()
    }

    fn len(&self) -> (r: usize) {
        self.0.len() + self.1.len() + self.2.len()
    }

    fn is_empty(&self) -> (r: bool) {
        self.0.is_empty() && self.1.is_empty() && self.2.is_empty()
    }

    fn add_classes(&self, classes: &mut ElementClasses) {
        self.0.add_classes(classes);
        self.1.add_classes(classes);
        self.2.add_classes(classes);
        assert(classes@ =~= old(classes)@.union(self.added()));
    }
}

impl<
    'a,
    A: ClassNames<'a>,
    B: ClassNames<'a>,
    C: ClassNames<'a>,
    D: ClassNames<'a>,
> ClassNames<'a> for (A, B, C, D) {
    open spec fn added(&self) -> Set<Seq<char>> {
        self.0.added().union(self.1.added()).union(self.2.added()).union(self.3.added())
    }

    open spec fn count(&self) -> nat {
        self.0.count() + self.1.count() + self.2.count() + self.3.count()
    }

    fn len(&self) -> (r: usize) {
        self.0.len() + self.1.len() + self.2.len() + self.3.len()
    }

    fn is_empty(&self) -> (r: bool) {
        self.0.is_empty() && self.1.is_empty() && self.2.is_empty() && self.3.is_empty()
    }

    fn add_classes(&self, classes: &mut ElementClasses) {
        self.0.add_classes(classes);
        self.1.add_classes(classes);
        self.2.add_classes(classes);
        self.3.add_classes(classes);
        assert(classes@ =~= old(classes)@.union(self.added()));
    }
}

impl<
    'a,
    A: ClassNames<'a>,
    B: ClassNames<'a>,
    C: ClassNames<'a>,
    D: ClassNames<'a>,
    E: ClassNames<'a>,
> ClassNames<'a> for (A, B, C, D, E) {
    open spec fn added(&self) -> Set<Seq<char>> {
        self.0.added()
            .union(self.1.added())
            .union(self.2.added())
            .union(self.3.added())
            .union(self.4.added())
    }

    open spec fn count(&self) -> nat {
        self.0.count() + self.1.count() + self.2.count() + self.3.count() + self.4.count()
    }

    fn len(&self) -> (r: usize) {
        self.0.len() + self.1.len() + self.2.len() + self.3.len() + self.4.len()
    }

    fn is_empty(&self) -> (r: bool) {
        self.0.is_empty()
        && self.1.is_empty()
        && self.2.is_empty()
        && self.3.is_empty()
        && self.4.is_empty()
    }

    fn add_classes(&self, classes: &mut ElementClasses) {
        self.0.add_classes(classes);
        self.1.add_classes(classes);
        self.2.add_classes(classes);
        self.3.add_classes(classes);
        self.4.add_classes(classes);
        assert(classes@ =~= old(classes)@.union(self.added()));
    }
}

impl<
    'a,
    A: ClassNames<'a>,
    B: ClassNames<'a>,
    C: ClassNames<'a>,
    D: ClassNames<'a>,
    E: ClassNames<'a>,
    F: ClassNames<'a>,
> ClassNames<'a> for (A, B, C, D, E, F) {
    open spec fn added(&self) -> Set<Seq<char>> {
        self.0.added()
            .union(self.1.added())
            .union(self.2.added())
            .union(self.3.added())
            .union(self.4.added())
            .union(self.5.added())
    }

    open spec fn count(&self) -> nat {
        self.0.count()
            + self.1.count()
            + self.2.count()
            + self.3.count()
            + self.4.count()
            + self.5.count()
    }

    fn len(&self) -> (r: usize) {
        self.0.len() + self.1.len() + self.2.len() + self.3.len() + self.4.len() + self.5.len()
    }

    fn is_empty(&self) -> (r: bool) {
        self.0.is_empty()
        && self.1.is_empty()
        && self.2.is_empty()
        && self.3.is_empty()
        && self.4.is_empty()
        && self.5.is_empty()
    }

    fn add_classes(&self, classes: &mut ElementClasses) {
        self.0.add_classes(classes);
        self.1.add_classes(classes);
        self.2.add_classes(classes);
        self.3.add_classes(classes);
        self.4.add_classes(classes);
        self.5.add_classes(classes);
        assert(classes@ =~= old(classes)@.union(self.added()));
    }
}

impl<
    'a,
    A: ClassNames<'a>,
    B: ClassNames<'a>,
    C: ClassNames<'a>,
    D: ClassNames<'a>,
    E: ClassNames<'a>,
    F: ClassNames<'a>,
    G: ClassNames<'a>,
> ClassNames<'a> for (A, B, C, D, E, F, G) {
    open spec fn added(&self) -> Set<Seq<char>> {
        self.0.added()
            .union(self.1.added())
            .union(self.2.added())
            .union(self.3.added())
            .union(self.4.added())
            .union(self.5.added())
            .union(self.6.added())
    }

    open spec fn count(&self) -> nat {
        self.0.count()
            + self.1.count()
            + self.2.count()
            + self.3.count()
            + self.4.count()
            + self.5.count()
            + self.6.count()
    }

    fn len(&self) -> (r: usize) {
        self.0.len()
            + self.1.len()
            + self.2.len()
            + self.3.len()
            + self.4.len()
            + self.5.len()
            + self.6.len()
    }

    fn is_empty(&self) -> (r: bool) {
        self.0.is_empty()
        && self.1.is_empty()
        && self.2.is_empty()
        && self.3.is_empty()
        && self.4.is_empty()
        && self.5.is_empty()
        && self.6.is_empty()
    }

    fn add_classes(&self, classes: &mut ElementClasses) {
        self.0.add_classes(classes);
        self.1.add_classes(classes);
        self.2.add_classes(classes);
        self.3.add_classes(classes);
        self.4.add_classes(classes);
        self.5.add_classes(classes);
        self.6.add_classes(classes);
        assert(classes@ =~= old(classes)@.union(self.added()));
    }
}

impl<
    'a,
    A: ClassNames<'a>,
    B: ClassNames<'a>,
    C: ClassNames<'a>,
    D: ClassNames<'a>,
    E: ClassNames<'a>,
    F: ClassNames<'a>,
    G: ClassNames<'a>,
    H: ClassNames<'a>,
> ClassNames<'a> for (A, B, C, D, E, F, G, H) {
    open spec fn added(&self) -> Set<Seq<char>> {
        self.0.added()
            .union(self.1.added())
            .union(self.2.added())
            .union(self.3.added())
            .union(self.4.added())
            .union(self.5.added())
            .union(self.6.added())
            .union(self.7.added())
    }

    open spec fn count(&self) -> nat {
        self.0.count()
            + self.1.count()
            + self.2.count()
            + self.3.count()
            + self.4.count()
            + self.5.count()
            + self.6.count()
            + self.7.count()
    }

    fn len(&self) -> (r: usize) {
        self.0.len()
            + self.1.len()
            + self.2.len()
            + self.3.len()
            + self.4.len()
            + self.5.len()
            + self.6.len()
            + self.7.len()
    }

    fn is_empty(&self) -> (r: bool) {
        self.0.is_empty()
        && self.1.is_empty()
        && self.2.is_empty()
        && self.3.is_empty()
        && self.4.is_empty()
        && self.5.is_empty()
        && self.6.is_empty()
        && self.7.is_empty()
    }

    fn add_classes(&self, classes: &mut ElementClasses) {
        self.0.add_classes(classes);
        self.1.add_classes(classes);
        self.2.add_classes(classes);
        self.3.add_classes(classes);
        self.4.add_classes(classes);
        self.5.add_classes(classes);
        self.6.add_classes(classes);
        self.7.add_classes(classes);
        assert(classes@ =~= old(classes)@.union(self.added()));
    }
}

impl<
    'a,
    A: ClassNames<'a>,
    B: ClassNames<'a>,
    C: ClassNames<'a>,
    D: ClassNames<'a>,
    E: ClassNames<'a>,
    F: ClassNames<'a>,
    G: ClassNames<'a>,
    H: ClassNames<'a>,
    I: ClassNames<'a>,
> ClassNames<'a> for (A, B, C, D, E, F, G, H, I) {
    open spec fn added(&self) -> Set<Seq<char>> {
        self.0.added()
            .union(self.1.added())
            .union(self.2.added())
            .union(self.3.added())
            .union(self.4.added())
            .union(self.5.added())
            .union(self.6.added())
            .union(self.7.added())
            .union(self.8.added())
    }

    open spec fn count(&self) -> nat {
        self.0.count()
            + self.1.count()
            + self.2.count()
            + self.3.count()
            + self.4.count()
            + self.5.count()
            + self.6.count()
            + self.7.count()
            + self.8.count()
    }

    fn len(&self) -> (r: usize) {
        self.0.len()
            + self.1.len()
            + self.2.len()
            + self.3.len()
            + self.4.len()
            + self.5.len()
            + self.6.len()
            + self.7.len()
            + self.8.len()
    }

    fn is_empty(&self) -> (r: bool) {
        self.0.is_empty()
        && self.1.is_empty()
        && self.2.is_empty()
        && self.3.is_empty()
        && self.4.is_empty()
        && self.5.is_empty()
        && self.6.is_empty()
        && self.7.is_empty()
        && self.8.is_empty()
    }

    fn add_classes(&self, classes: &mut ElementClasses) {
        self.0.add_classes(classes);
        self.1.add_classes(classes);
        self.2.add_classes(classes);
        self.3.add_classes(classes);
        self.4.add_classes(classes);
        self.5.add_classes(classes);
        self.6.add_classes(classes);
        self.7.add_classes(classes);
        self.8.add_classes(classes);
        assert(classes@ =~= old(classes)@.union(self.added()));
    }
}

impl<
    'a,
    A: ClassNames<'a>,
    B: ClassNames<'a>,
    C: ClassNames<'a>,
    D: ClassNames<'a>,
    E: ClassNames<'a>,
    F: ClassNames<'a>,
    G: ClassNames<'a>,
    H: ClassNames<'a>,
    I: ClassNames<'a>,
    J: ClassNames<'a>,
> ClassNames<'a> for (A, B, C, D, E, F, G, H, I, J) {
    open spec fn added(&self) -> Set<Seq<char>> {
        self.0.added()
            .union(self.1.added())
            .union(self.2.added())
            .union(self.3.added())
            .union(self.4.added())
            .union(self.5.added())
            .union(self.6.added())
            .union(self.7.added())
            .union(self.8.added())
            .union(self.9.added())
    }

    open spec fn count(&self) -> nat {
        self.0.count()
            + self.1.count()
            + self.2.count()
            + self.3.count()
            + self.4.count()
            + self.5.count()
            + self.6.count()
            + self.7.count()
            + self.8.count()
            + self.9.count()
    }

    fn len(&self) -> (r: usize) {
        self.0.len()
            + self.1.len()
            + self.2.len()
            + self.3.len()
            + self.4.len()
            + self.5.len()
            + self.6.len()
            + self.7.len()
            + self.8.len()
            + self.9.len()
    }

    fn is_empty(&self) -> (r: bool) {
        self.0.is_empty()
        && self.1.is_empty()
        && self.2.is_empty()
        && self.3.is_empty()
        && self.4.is_empty()
        && self.5.is_empty()
        && self.6.is_empty()
        && self.7.is_empty()
        && self.8.is_empty()
        && self.9.is_empty()
    }

    fn add_classes(&self, classes: &mut ElementClasses) {
        self.0.add_classes(classes);
        self.1.add_classes(classes);
        self.2.add_classes(classes);
        self.3.add_classes(classes);
        self.4.add_classes(classes);
        self.5.add_classes(classes);
        self.6.add_classes(classes);
        self.7.add_classes(classes);
        self.8.add_classes(classes);
        self.9.add_classes(classes);
        assert(classes@ =~= old(classes)@.union(self.added()));
    }
}

impl<
    'a,
    A: ClassNames<'a>,
    B: ClassNames<'a>,
    C: ClassNames<'a>,
    D: ClassNames<'a>,
    E: ClassNames<'a>,
    F: ClassNames<'a>,
    G: ClassNames<'a>,
    H: ClassNames<'a>,
    I: ClassNames<'a>,
    J: ClassNames<'a>,
    K: ClassNames<'a>,
> ClassNames<'a> for (A, B, C, D, E, F, G, H, I, J, K) {
    open spec fn added(&self) -> Set<Seq<char>> {
        self.0.added()
            .union(self.1.added())
            .union(self.2.added())
            .union(self.3.added())
            .union(self.4.added())
            .union(self.5.added())
            .union(self.6.added())
            .union(self.7.added())
            .union(self.8.added())
            .union(self.9.added())
            .union(self.10.added())
    }

    open spec fn count(&self) -> nat {
        self.0.count()
            + self.1.count()
            + self.2.count()
            + self.3.count()
            + self.4.count()
            + self.5.count()
            + self.6.count()
            + self.7.count()
            + self.8.count()
            + self.9.count()
            + self.10.count()
    }

    fn len(&self) -> (r: usize) {
        self.0.len()
            + self.1.len()
            + self.2.len()
            + self.3.len()
            + self.4.len()
            + self.5.len()
            + self.6.len()
            + self.7.len()
            + self.8.len()
            + self.9.len()
            + self.10.len()
    }

    fn is_empty(&self) -> (r: bool) {
        self.0.is_empty()
        && self.1.is_empty()
        && self.2.is_empty()
        && self.3.is_empty()
        && self.4.is_empty()
        && self.5.is_empty()
        && self.6.is_empty()
        && self.7.is_empty()
        && self.8.is_empty()
        && self.9.is_empty()
        && self.10.is_empty()
    }

    fn add_classes(&self, classes: &mut ElementClasses) {
        self.0.add_classes(classes);
        self.1.add_classes(classes);
        self.2.add_classes(classes);
        self.3.add_classes(classes);
        self.4.add_classes(classes);
        self.5.add_classes(classes);
        self.6.add_classes(classes);
        self.7.add_classes(classes);
        self.8.add_classes(classes);
        self.9.add_classes(classes);
        self.10.add_classes(classes);
        assert(classes@ =~= old(classes)@.union(self.added()));
    }
}

impl<
    'a,
    A: ClassNames<'a>,
    B: ClassNames<'a>,
    C: ClassNames<'a>,
    D: ClassNames<'a>,
    E: ClassNames<'a>,
    F: ClassNames<'a>,
    G: ClassNames<'a>,
    H: ClassNames<'a>,
    I: ClassNames<'a>,
    J: ClassNames<'a>,
    K: ClassNames<'a>,
    L: ClassNames<'a>,
> ClassNames<'a> for (A, B, C, D, E, F, G, H, I, J, K, L) {
    open spec fn added(&self) -> Set<Seq<char>> {
        self.0.added()
            .union(self.1.added())
            .union(self.2.added())
            .union(self.3.added())
            .union(self.4.added())
            .union(self.5.added())
            .union(self.6.added())
            .union(self.7.added())
            .union(self.8.added())
            .union(self.9.added())
            .union(self.10.added())
            .union(self.11.added())
    }

    open spec fn count(&self) -> nat {
        self.0.count()
            + self.1.count()
            + self.2.count()
            + self.3.count()
            + self.4.count()
            + self.5.count()
            + self.6.count()
            + self.7.count()
            + self.8.count()
            + self.9.count()
            + self.10.count()
            + self.11.count()
    }

    fn len(&self) -> (r: usize) {
        self.0.len()
            + self.1.len()
            + self.2.len()
            + self.3.len()
            + self.4.len()
            + self.5.len()
            + self.6.len()
            + self.7.len()
            + self.8.len()
            + self.9.len()
            + self.10.len()
            + self.11.len()
    }

    fn is_empty(&self) -> (r: bool) {
        self.0.is_empty()
        && self.1.is_empty()
        && self.2.is_empty()
        && self.3.is_empty()
        && self.4.is_empty()
        && self.5.is_empty()
        && self.6.is_empty()
        && self.7.is_empty()
        && self.8.is_empty()
        && self.9.is_empty()
        && self.10.is_empty()
        && self.11.is_empty()
    }

    fn add_classes(&self, classes: &mut ElementClasses) {
        self.0.add_classes(classes);
        self.1.add_classes(classes);
        self.2.add_classes(classes);
        self.3.add_classes(classes);
        self.4.add_classes(classes);
        self.5.add_classes(classes);
        self.6.add_classes(classes);
        self.7.add_classes(classes);
        self.8.add_classes(classes);
        self.9.add_classes(classes);
        self.10.add_classes(classes);
        self.11.add_classes(classes);
        assert(classes@ =~= old(classes)@.union(self.added()));
    }
}

impl<
    'a,
    A: ClassNames<'a>,
    B: ClassNames<'a>,
    C: ClassNames<'a>,
    D: ClassNames<'a>,
    E: ClassNames<'a>,
    F: ClassNames<'a>,
    G: ClassNames<'a>,
    H: ClassNames<'a>,
    I: ClassNames<'a>,
    J: ClassNames<'a>,
    K: ClassNames<'a>,
    L: ClassNames<'a>,
    M: ClassNames<'a>,
> ClassNames<'a> for (A, B, C, D, E, F, G, H, I, J, K, L, M) {
    open spec fn added(&self) -> Set<Seq<char>> {
        self.0.added()
            .union(self.1.added())
            .union(self.2.added())
            .union(self.3.added())
            .union(self.4.added())
            .union(self.5.added())
            .union(self.6.added())
            .union(self.7.added())
            .union(self.8.added())
            .union(self.9.added())
            .union(self.10.added())
            .union(self.11.added())
            .union(self.12.added())
    }

    open spec fn count(&self) -> nat {
        self.0.count()
            + self.1.count()
            + self.2.count()
            + self.3.count()
            + self.4.count()
            + self.5.count()
            + self.6.count()
            + self.7.count()
            + self.8.count()
            + self.9.count()
            + self.10.count()
            + self.11.count()
            + self.12.count()
    }

    fn len(&self) -> (r: usize) {
        self.0.len()
            + self.1.len()
            + self.2.len()
            + self.3.len()
            + self.4.len()
            + self.5.len()
            + self.6.len()
            + self.7.len()
            + self.8.len()
            + self.9.len()
            + self.10.len()
            + self.11.len()
            + self.12.len()
    }

    fn is_empty(&self) -> (r: bool) {
        self.0.is_empty()
        && self.1.is_empty()
        && self.2.is_empty()
        && self.3.is_empty()
        && self.4.is_empty()
        && self.5.is_empty()
        && self.6.is_empty()
        && self.7.is_empty()
        && self.8.is_empty()
        && self.9.is_empty()
        && self.10.is_empty()
        && self.11.is_empty()
        && self.12.is_empty()
    }

    fn add_classes(&self, classes: &mut ElementClasses) {
        self.0.add_classes(classes);
        self.1.add_classes(classes);
        self.2.add_classes(classes);
        self.3.add_classes(classes);
        self.4.add_classes(classes);
        self.5.add_classes(classes);
        self.6.add_classes(classes);
        self.7.add_classes(classes);
        self.8.add_classes(classes);
        self.9.add_classes(classes);
        self.10.add_classes(classes);
        self.11.add_classes(classes);
        self.12.add_classes(classes);
        assert(classes@ =~= old(classes)@.union(self.added()));
    }
}

impl<
    'a,
    A: ClassNames<'a>,
    B: ClassNames<'a>,
    C: ClassNames<'a>,
    D: ClassNames<'a>,
    E: ClassNames<'a>,
    F: ClassNames<'a>,
    G: ClassNames<'a>,
    H: ClassNames<'a>,
    I: ClassNames<'a>,
    J: ClassNames<'a>,
    K: ClassNames<'a>,
    L: ClassNames<'a>,
    M: ClassNames<'a>,
    N: ClassNames<'a>,
> ClassNames<'a> for (A, B, C, D, E, F, G, H, I, J, K, L, M, N) {
    open spec fn added(&self) -> Set<Seq<char>> {
        self.0.added()
            .union(self.1.added())
            .union(self.2.added())
            .union(self.3.added())
            .union(self.4.added())
            .union(self.5.added())
            .union(self.6.added())
            .union(self.7.added())
            .union(self.8.added())
            .union(self.9.added())
            .union(self.10.added())
            .union(self.11.added())
            .union(self.12.added())
            .union(self.13.added())
    }

    open spec fn count(&self) -> nat {
        self.0.count()
            + self.1.count()
            + self.2.count()
            + self.3.count()
            + self.4.count()
            + self.5.count()
            + self.6.count()
            + self.7.count()
            + self.8.count()
            + self.9.count()
            + self.10.count()
            + self.11.count()
            + self.12.count()
            + self.13.count()
    }

    fn len(&self) -> (r: usize) {
        self.0.len()
            + self.1.len()
            + self.2.len()
            + self.3.len()
            + self.4.len()
            + self.5.len()
            + self.6.len()
            + self.7.len()
            + self.8.len()
            + self.9.len()
            + self.10.len()
            + self.11.len()
            + self.12.len()
            + self.13.len()
    }

    fn is_empty(&self) -> (r: bool) {
        self.0.is_empty()
        && self.1.is_empty()
        && self.2.is_empty()
        && self.3.is_empty()
        && self.4.is_empty()
        && self.5.is_empty()
        && self.6.is_empty()
        && self.7.is_empty()
        && self.8.is_empty()
        && self.9.is_empty()
        && self.10.is_empty()
        && self.11.is_empty()
        && self.12.is_empty()
        && self.13.is_empty()
    }

    fn add_classes(&self, classes: &mut ElementClasses) {
        self.0.add_classes(classes);
        self.1.add_classes(classes);
        self.2.add_classes(classes);
        self.3.add_classes(classes);
        self.4.add_classes(classes);
        self.5.add_classes(classes);
        self.6.add_classes(classes);
        self.7.add_classes(classes);
        self.8.add_classes(classes);
        self.9.add_classes(classes);
        self.10.add_classes(classes);
        self.11.add_classes(classes);
        self.12.add_classes(classes);
        self.13.add_classes(classes);
        assert(classes@ =~= old(classes)@.union(self.added()));
    }
}

impl<
    'a,
    A: ClassNames<'a>,
    B: ClassNames<'a>,
    C: ClassNames<'a>,
    D: ClassNames<'a>,
    E: ClassNames<'a>,
    F: ClassNames<'a>,
    G: ClassNames<'a>,
    H: ClassNames<'a>,
    I: ClassNames<'a>,
    J: ClassNames<'a>,
    K: ClassNames<'a>,
    L: ClassNames<'a>,
    M: ClassNames<'a>,
    N: ClassNames<'a>,
    O: ClassNames<'a>,
> ClassNames<'a> for (A, B, C, D, E, F, G, H, I, J, K, L, M, N, O) {
    open spec fn added(&self) -> Set<Seq<char>> {
        self.0.added()
            .union(self.1.added())
            .union(self.2.added())
            .union(self.3.added())
            .union(self.4.added())
            .union(self.5.added())
            .union(self.6.added())
            .union(self.7.added())
            .union(self.8.added())
            .union(self.9.added())
            .union(self.10.added())
            .union(self.11.added())
            .union(self.12.added())
            .union(self.13.added())
            .union(self.14.added())
    }

    open spec fn count(&self) -> nat {
        self.0.count()
            + self.1.count()
            + self.2.count()
            + self.3.count()
            + self.4.count()
            + self.5.count()
            + self.6.count()
            + self.7.count()
            + self.8.count()
            + self.9.count()
            + self.10.count()
            + self.11.count()
            + self.12.count()
            + self.13.count()
            + self.14.count()
    }

    fn len(&self) -> (r: usize) {
        self.0.len()
            + self.1.len()
            + self.2.len()
            + self.3.len()
            + self.4.len()
            + self.5.len()
            + self.6.len()
            + self.7.len()
            + self.8.len()
            + self.9.len()
            + self.10.len()
            + self.11.len()
            + self.12.len()
            + self.13.len()
            + self.14.len()
    }

    fn is_empty(&self) -> (r: bool) {
        self.0.is_empty()
        && self.1.is_empty()
        && self.2.is_empty()
        && self.3.is_empty()
        && self.4.is_empty()
        && self.5.is_empty()
        && self.6.is_empty()
        && self.7.is_empty()
        && self.8.is_empty()
        && self.9.is_empty()
        && self.10.is_empty()
        && self.11.is_empty()
        && self.12.is_empty()
        && self.13.is_empty()
        && self.14.is_empty()
    }

    fn add_classes(&self, classes: &mut ElementClasses) {
        self.0.add_classes(classes);
        self.1.add_classes(classes);
        self.2.add_classes(classes);
        self.3.add_classes(classes);
        self.4.add_classes(classes);
        self.5.add_classes(classes);
        self.6.add_classes(classes);
        self.7.add_classes(classes);
        self.8.add_classes(classes);
        self.9.add_classes(classes);
        self.10.add_classes(classes);
        self.11.add_classes(classes);
        self.12.add_classes(classes);
        self.13.add_classes(classes);
        self.14.add_classes(classes);
        assert(classes@ =~= old(classes)@.union(self.added()));
    }
}

impl<
    'a,
    A: ClassNames<'a>,
    B: ClassNames<'a>,
    C: ClassNames<'a>,
    D: ClassNames<'a>,
    E: ClassNames<'a>,
    F: ClassNames<'a>,
    G: ClassNames<'a>,
    H: ClassNames<'a>,
    I: ClassNames<'a>,
    J: ClassNames<'a>,
    K: ClassNames<'a>,
    L: ClassNames<'a>,
    M: ClassNames<'a>,
    N: ClassNames<'a>,
    O: ClassNames<'a>,
    P: ClassNames<'a>,
> ClassNames<'a> for (A, B, C, D, E, F, G, H, I, J, K, L, M, N, O, P) {
    open spec fn added(&self) -> Set<Seq<char>> {
        self.0.added()
            .union(self.1.added())
            .union(self.2.added())
            .union(self.3.added())
            .union(self.4.added())
            .union(self.5.added())
            .union(self.6.added())
            .union(self.7.added())
            .union(self.8.added())
            .union(self.9.added())
            .union(self.10.added())
            .union(self.11.added())
            .union(self.12.added())
            .union(self.13.added())
            .union(self.14.added())
            .union(self.15.added())
    }

    open spec fn count(&self) -> nat {
        self.0.count()
            + self.1.count()
            + self.2.count()
            + self.3.count()
            + self.4.count()
            + self.5.count()
            + self.6.count()
            + self.7.count()
            + self.8.count()
            + self.9.count()
            + self.10.count()
            + self.11.count()
            + self.12.count()
            + self.13.count()
            + self.14.count()
            + self.15.count()
    }

    fn len(&self) -> (r: usize) {
        self.0.len()
            + self.1.len()
            + self.2.len()
            + self.3.len()
            + self.4.len()
            + self.5.len()
            + self.6.len()
            + self.7.len()
            + self.8.len()
            + self.9.len()
            + self.10.len()
            + self.11.len()
            + self.12.len()
            + self.13.len()
            + self.14.len()
            + self.15.len()
    }

    fn is_empty(&self) -> (r: bool) {
        self.0.is_empty()
        && self.1.is_empty()
        && self.2.is_empty()
        && self.3.is_empty()
        && self.4.is_empty()
        && self.5.is_empty()
        && self.6.is_empty()
        && self.7.is_empty()
        && self.8.is_empty()
        && self.9.is_empty()
        && self.10.is_empty()
        && self.11.is_empty()
        && self.12.is_empty()
        && self.13.is_empty()
        && self.14.is_empty()
        && self.15.is_empty()
    }

    fn add_classes(&self, classes: &mut ElementClasses) {
        self.0.add_classes(classes);
        self.1.add_classes(classes);
        self.2.add_classes(classes);
        self.3.add_classes(classes);
        self.4.add_classes(classes);
        self.5.add_classes(classes);
        self.6.add_classes(classes);
        self.7.add_classes(classes);
        self.8.add_classes(classes);
        self.9.add_classes(classes);
        self.10.add_classes(classes);
        self.11.add_classes(classes);
        self.12.add_classes(classes);
        self.13.add_classes(classes);
        self.14.add_classes(classes);
        self.15.add_classes(classes);
        assert(classes@ =~= old(classes)@.union(self.added()));
    }
}

} // verus!
