//! Printing selectors back to text.
use vstd::prelude::*;

use super::selector::{lemma_models_of, models_of, Selector, SelectorModel};
use super::selector_parse::{
    lit_first_child, lit_focus, lit_focus_visible, lit_focus_within, lit_hover, lit_last_child,
};

verus! {

/// The text of a selector. A `&` is printed before the class names that it is followed by in
/// the model; a parent step prints ` > `, or `* > ` when the step before it is a parent step
/// too; alternatives are joined by `, `.
pub open spec fn selector_text(s: SelectorModel) -> Seq<char>
    decreases s, 0int,
{
    match s {
        SelectorModel::Accept => Seq::empty(),
        SelectorModel::Current(prev) => current_text(*prev, Seq::empty()),
        SelectorModel::Class(name, prev) => selector_text(*prev) + seq!['.'] + name,
        SelectorModel::Hover(prev) => selector_text(*prev) + lit_hover(),
        SelectorModel::Focus(prev) => selector_text(*prev) + lit_focus(),
        SelectorModel::FocusWithin(prev) => selector_text(*prev) + lit_focus_within(),
        SelectorModel::FocusVisible(prev) => selector_text(*prev) + lit_focus_visible(),
        SelectorModel::FirstChild(prev) => selector_text(*prev) + lit_first_child(),
        SelectorModel::LastChild(prev) => selector_text(*prev) + lit_last_child(),
        SelectorModel::Parent(prev) => match *prev {
            SelectorModel::Parent(_) => selector_text(*prev) + seq!['*', ' ', '>', ' '],
            _ => selector_text(*prev) + seq![' ', '>', ' '],
        },
        SelectorModel::Either(items) => join_text(items),
    }
}

/// The text of `&` followed by the class names at the head of `x`, innermost first, then
/// `suffix`; the rest of `x` is printed before the `&`.
pub open spec fn current_text(x: SelectorModel, suffix: Seq<char>) -> Seq<char>
    decreases x, 1int,
{
    match x {
        SelectorModel::Class(name, rest) => current_text(*rest, seq!['.'] + name + suffix),
        _ => selector_text(x) + seq!['&'] + suffix,
    }
}

/// The texts of the alternatives, separated by `, `.
pub open spec fn join_text(items: Seq<SelectorModel>) -> Seq<char>
    decreases items, 0int,
{
    if items.len() == 0 {
        Seq::empty()
    } else if items.len() == 1 {
        selector_text(items[0])
    } else {
        join_text(items.subrange(0, items.len() - 1)) + seq![',', ' '] + selector_text(
            items[items.len() - 1],
        )
    }
}

pub(crate) proof fn lemma_current_text_suffix(x: SelectorModel, suffix: Seq<char>)
    ensures
        current_text(x, suffix) == current_text(x, Seq::empty()) + suffix,
    decreases x,
{
    match x {
        SelectorModel::Class(name, rest) => {
            lemma_current_text_suffix(*rest, seq!['.'] + name + suffix);
            lemma_current_text_suffix(*rest, seq!['.'] + name);
            assert(seq!['.'] + name + suffix == (seq!['.'] + name) + suffix);
            assert(current_text(*rest, Seq::empty()) + (seq!['.'] + name + suffix) == (
            current_text(*rest, Seq::empty()) + (seq!['.'] + name)) + suffix);
        },
        _ => {
            assert(selector_text(x) + seq!['&'] + suffix == (selector_text(x) + seq!['&']
                + Seq::<char>::empty()) + suffix);
        },
    }
}

impl Selector {
    /// Appends the text of this selector to `out`.
    fn write_to(&self, out: &mut String)
        ensures
            final(out)@ == old(out)@ + selector_text(self@),
        decreases self, 0int,
    {
        match self {
            Selector::Accept => {
                assert(old(out)@ + Seq::<char>::empty() == old(out)@);
            },
            Selector::Current(prev) => {
                Selector::write_current(prev, out);
            },
            Selector::Class(name, prev) => {
                prev.write_to(out);
                out.append(".");
                out.append(name.as_str());
                proof {
                    reveal_strlit(".");
                    assert(old(out)@ + selector_text(prev@) + "."@ + name@ == old(out)@ + (
                    selector_text(prev@) + seq!['.'] + name@));
                }
            },
            Selector::Hover(prev) => {
                prev.write_to(out);
                out.append(":hover");
                proof {
                    reveal_strlit(":hover");
                    assert(":hover"@ == lit_hover());
                }
            },
            Selector::Focus(prev) => {
                prev.write_to(out);
                out.append(":focus");
                proof {
                    reveal_strlit(":focus");
                    assert(":focus"@ == lit_focus());
                }
            },
            Selector::FocusWithin(prev) => {
                prev.write_to(out);
                out.append(":focus-within");
                proof {
                    reveal_strlit(":focus-within");
                    assert(":focus-within"@ == lit_focus_within());
                }
            },
            Selector::FocusVisible(prev) => {
                prev.write_to(out);
                out.append(":focus-visible");
                proof {
                    reveal_strlit(":focus-visible");
                    assert(":focus-visible"@ == lit_focus_visible());
                }
            },
            Selector::FirstChild(prev) => {
                prev.write_to(out);
                out.append(":first-child");
                proof {
                    reveal_strlit(":first-child");
                    assert(":first-child"@ == lit_first_child());
                }
            },
            Selector::LastChild(prev) => {
                prev.write_to(out);
                out.append(":last-child");
                proof {
                    reveal_strlit(":last-child");
                    assert(":last-child"@ == lit_last_child());
                }
            },
            Selector::Parent(prev) => {
                prev.write_to(out);
                match &**prev {
                    Selector::Parent(_) => {
                        out.append("* > ");
                        proof {
                            reveal_strlit("* > ");
                            assert("* > "@ == seq!['*', ' ', '>', ' ']);
                        }
                    },
                    _ => {
                        out.append(" > ");
                        proof {
                            reveal_strlit(" > ");
                            assert(" > "@ == seq![' ', '>', ' ']);
                        }
                    },
                }
            },
            Selector::Either(items) => {
                proof {
                    lemma_models_of(items@);
                }
                let ghost start = old(out)@;
                let mut i: usize = 0;
                while i < items.len()
                    invariant
                        i <= items.len(),
                        models_of(items@).len() == items@.len(),
                        forall|j: int|
                            0 <= j < items@.len() ==> #[trigger] models_of(items@)[j] == (
                            *items@[j]).model(),
                        out@ == start + join_text(models_of(items@).subrange(0, i as int)),
                        *self == Selector::Either(*items),
                    decreases items.len() - i,
                {
                    let ghost ms = models_of(items@);
                    proof {
                        assert(ms.subrange(0, i + 1).subrange(0, i as int) == ms.subrange(
                            0,
                            i as int,
                        ));
                        assert(decreases_to!(*self => self->Either_0));
                        assert(decreases_to!(*items => items@));
                        assert(decreases_to!(items@ => items@[i as int]));
                    }
                    if i > 0 {
                        out.append(", ");
                        proof {
                            reveal_strlit(", ");
                            assert(", "@ == seq![',', ' ']);
                        }
                    }
                    items[i].write_to(out);
                    proof {
                        if i == 0 {
                            assert(ms.subrange(0, 0) =~= Seq::<SelectorModel>::empty());
                            assert(ms.subrange(0, 1) =~= seq![ms[0]]);
                        }
                    }
                    i = i + 1;
                }
                proof {
                    assert(models_of(items@).subrange(0, i as int) == models_of(items@));
                }
            },
        }
    }

    /// Appends the text of `Current(x)` to `out`.
    fn write_current(x: &Selector, out: &mut String)
        ensures
            final(out)@ == old(out)@ + current_text(x@, Seq::empty()),
        decreases x, 1int,
    {
        match x {
            Selector::Class(name, rest) => {
                Selector::write_current(rest, out);
                out.append(".");
                out.append(name.as_str());
                proof {
                    reveal_strlit(".");
                    lemma_current_text_suffix(rest@, seq!['.'] + name@);
                    assert(old(out)@ + current_text(rest@, Seq::empty()) + "."@ + name@ == old(
                        out,
                    )@ + (current_text(rest@, Seq::empty()) + (seq!['.'] + name@)));
                }
            },
            _ => {
                x.write_to(out);
                out.append("&");
                proof {
                    reveal_strlit("&");
                    assert(selector_text(x@) + seq!['&'] + Seq::<char>::empty() == selector_text(
                        x@,
                    ) + seq!['&']);
                }
            },
        }
    }

    /// The text of this selector, in the form that `parse_selector` reads.
    pub fn to_string(&self) -> (r: String)
        ensures
            r@ == selector_text(self@),
    {
        let mut out = String::new();
        self.write_to(&mut out);
        out
    }
}

} // verus!
