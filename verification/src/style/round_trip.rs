//! Printing a selector, then reading the text back.
use vstd::prelude::*;

use super::selector::SelectorModel;
use super::selector_parse::{
    is_alpha, is_name_char, is_space, is_white_space, parse_result, trimmed, white_end,
    white_start, lit_at, lit_first_child, lit_focus, lit_hover,
    lit_last_child, name_end, read_alternatives, read_desc, read_parents, read_selector,
    read_simple, read_tokens, skip_spaces, token_at, wrap, lemma_read_simple, lemma_skip_spaces,
    TokenKind,
};
use super::selector_print::{current_text, join_text, lemma_current_text_suffix, selector_text};

verus! {

/// A class name that the grammar reads whole: a letter, then letters, digits, `-` and `_`.
pub open spec fn valid_name(name: Seq<char>) -> bool {
    &&& name.len() >= 1
    &&& is_alpha(name[0])
    &&& forall|i: int| 1 <= i < name.len() ==> is_name_char(#[trigger] name[i])
}

/// `c` is tokens that print and read back alike (valid class names, `:hover`, `:first-child`,
/// `:last-child`, `:focus`) wrapped around a base: nothing, or a parent step from a printable
/// alternative.
pub open spec fn token_chain(c: SelectorModel) -> bool
    decreases c, 1int,
{
    match c {
        SelectorModel::Accept => true,
        SelectorModel::Parent(d) => printable_desc(*d),
        SelectorModel::Class(name, n) => valid_name(name) && token_chain(*n),
        SelectorModel::Hover(n) => token_chain(*n),
        SelectorModel::FirstChild(n) => token_chain(*n),
        SelectorModel::LastChild(n) => token_chain(*n),
        SelectorModel::Focus(n) => token_chain(*n),
        _ => false,
    }
}

/// `c` is valid class names wrapped around a base, as `&` may be followed by.
pub open spec fn class_chain(c: SelectorModel) -> bool
    decreases c, 1int,
{
    match c {
        SelectorModel::Accept => true,
        SelectorModel::Parent(d) => printable_desc(*d),
        SelectorModel::Class(name, n) => valid_name(name) && class_chain(*n),
        _ => false,
    }
}

/// One alternative in the form that printing and reading agree on: a chain of tokens, or `&`
/// followed by class names, around a base.
pub open spec fn printable_desc(d: SelectorModel) -> bool
    decreases d, 2int,
{
    match d {
        SelectorModel::Current(n) => class_chain(*n),
        _ => token_chain(d),
    }
}

/// A selector in the form that printing and reading agree on: one printable alternative, or
/// two or more of them.
pub open spec fn printable(s: SelectorModel) -> bool {
    match s {
        SelectorModel::Either(items) => items.len() >= 2 && forall|i: int|
            0 <= i < items.len() ==> printable_desc(#[trigger] items[i]),
        _ => printable_desc(s),
    }
}

/// The base that the tokens of `c` wrap.
pub open spec fn chain_base(c: SelectorModel) -> SelectorModel
    decreases c,
{
    match c {
        SelectorModel::Class(_, n) => chain_base(*n),
        SelectorModel::Hover(n) => chain_base(*n),
        SelectorModel::FirstChild(n) => chain_base(*n),
        SelectorModel::LastChild(n) => chain_base(*n),
        SelectorModel::Focus(n) => chain_base(*n),
        _ => c,
    }
}

/// The text of the tokens of `c`, innermost first.
pub open spec fn tokens_text(c: SelectorModel) -> Seq<char>
    decreases c,
{
    match c {
        SelectorModel::Class(name, n) => tokens_text(*n) + seq!['.'] + name,
        SelectorModel::Hover(n) => tokens_text(*n) + lit_hover(),
        SelectorModel::FirstChild(n) => tokens_text(*n) + lit_first_child(),
        SelectorModel::LastChild(n) => tokens_text(*n) + lit_last_child(),
        SelectorModel::Focus(n) => tokens_text(*n) + lit_focus(),
        _ => Seq::empty(),
    }
}

/// `t` stands in `s` at position `p`.
pub open spec fn text_at(s: Seq<char>, p: int, t: Seq<char>) -> bool {
    0 <= p && p + t.len() <= s.len() && s.subrange(p, p + t.len()) == t
}

proof fn lemma_text_at_split(s: Seq<char>, p: int, a: Seq<char>, b: Seq<char>)
    requires
        text_at(s, p, a + b),
    ensures
        text_at(s, p, a),
        text_at(s, p + a.len(), b),
{
    let whole = s.subrange(p, p + a.len() + b.len());
    assert(whole == a + b);
    assert(s.subrange(p, p + a.len()) =~= whole.subrange(0, a.len() as int));
    assert(whole.subrange(0, a.len() as int) =~= a);
    assert(s.subrange(p + a.len(), p + a.len() + b.len()) =~= whole.subrange(
        a.len() as int,
        whole.len() as int,
    ));
    assert(whole.subrange(a.len() as int, whole.len() as int) =~= b);
}

proof fn lemma_text_at_char(s: Seq<char>, p: int, t: Seq<char>, i: int)
    requires
        text_at(s, p, t),
        0 <= i < t.len(),
    ensures
        s[p + i] == t[i],
{
    assert(s.subrange(p, p + t.len())[i] == s[p + i]);
}

/// The text of a chain of tokens is that of its base, then that of its tokens.
proof fn lemma_chain_text(c: SelectorModel)
    ensures
        selector_text(c) == selector_text(chain_base(c)) + tokens_text(c),
    decreases c,
{
    match c {
        SelectorModel::Class(name, n) => {
            lemma_chain_text(*n);
            assert(selector_text(c) =~= selector_text(chain_base(c)) + tokens_text(c));
        },
        SelectorModel::Hover(n) => {
            lemma_chain_text(*n);
            assert(selector_text(c) =~= selector_text(chain_base(c)) + tokens_text(c));
        },
        SelectorModel::FirstChild(n) => {
            lemma_chain_text(*n);
            assert(selector_text(c) =~= selector_text(chain_base(c)) + tokens_text(c));
        },
        SelectorModel::LastChild(n) => {
            lemma_chain_text(*n);
            assert(selector_text(c) =~= selector_text(chain_base(c)) + tokens_text(c));
        },
        SelectorModel::Focus(n) => {
            lemma_chain_text(*n);
            assert(selector_text(c) =~= selector_text(chain_base(c)) + tokens_text(c));
        },
        SelectorModel::FocusWithin(n) => {},
        SelectorModel::FocusVisible(n) => {},
        _ => {
            assert(selector_text(c) =~= selector_text(c) + Seq::<char>::empty());
        },
    }
}

/// The text of `&` and class names is that of their base, then `&`, then the class names.
proof fn lemma_current_chain_text(n: SelectorModel)
    requires
        class_chain(n),
    ensures
        selector_text(SelectorModel::Current(Box::new(n))) == selector_text(chain_base(n))
            + seq!['&'] + tokens_text(n),
    decreases n,
{
    match n {
        SelectorModel::Class(name, rest) => {
            lemma_current_chain_text(*rest);
            lemma_current_text_suffix(*rest, seq!['.'] + name);
            assert(current_text(n, Seq::empty()) == current_text(*rest, seq!['.'] + name));
            assert(current_text(n, Seq::empty()) =~= selector_text(chain_base(n)) + seq!['&']
                + tokens_text(n));
        },
        _ => {
            assert(current_text(n, Seq::empty()) =~= selector_text(chain_base(n)) + seq!['&']
                + tokens_text(n));
        },
    }
}

/// The tokens of `c` print and read back alike: valid class names, `:hover`, `:first-child`,
/// `:last-child` and `:focus`.
pub open spec fn tokens_ok(c: SelectorModel) -> bool
    decreases c,
{
    match c {
        SelectorModel::Class(name, n) => valid_name(name) && tokens_ok(*n),
        SelectorModel::Hover(n) => tokens_ok(*n),
        SelectorModel::FirstChild(n) => tokens_ok(*n),
        SelectorModel::LastChild(n) => tokens_ok(*n),
        SelectorModel::Focus(n) => tokens_ok(*n),
        SelectorModel::FocusWithin(_) => false,
        SelectorModel::FocusVisible(_) => false,
        _ => true,
    }
}

proof fn lemma_name_end_run(s: Seq<char>, a: int, b: int)
    requires
        0 <= a <= b <= s.len(),
        forall|i: int| a <= i < b ==> is_name_char(#[trigger] s[i]),
        b == s.len() || !is_name_char(s[b]),
    ensures
        name_end(s, a) == b,
    decreases b - a,
{
    if a < b {
        lemma_name_end_run(s, a + 1, b);
    }
}

/// A printed class name is read as one class token.
proof fn lemma_token_class(s: Seq<char>, q: int, name: Seq<char>)
    requires
        valid_name(name),
        text_at(s, q, seq!['.'] + name),
        q + 1 + name.len() == s.len() || !is_name_char(s[q + 1 + name.len()]),
    ensures
        token_at(s, q) == Some((TokenKind::Class, q + 1 + name.len())),
{
    let t = seq!['.'] + name;
    lemma_text_at_char(s, q, t, 0);
    lemma_text_at_char(s, q, t, 1);
    assert forall|i: int| q + 2 <= i < q + 1 + name.len() implies is_name_char(#[trigger] s[i]) by {
        lemma_text_at_char(s, q, t, i - q);
        assert(t[i - q] == name[i - q - 1]);
    }
    lemma_name_end_run(s, q + 2, q + 1 + name.len());
}

/// A token that begins with `:` is not one whose text differs at position `k`.
proof fn lemma_not_lit(s: Seq<char>, q: int, t: Seq<char>, lit: Seq<char>, k: int)
    requires
        text_at(s, q, t),
        0 <= k < t.len(),
        k < lit.len(),
        t[k] != lit[k],
    ensures
        !lit_at(s, q, lit),
{
    lemma_text_at_char(s, q, t, k);
    if lit_at(s, q, lit) {
        assert(s.subrange(q, q + lit.len())[k] == s[q + k]);
    }
}

/// A printed `:hover`, `:first-child`, `:last-child` or `:focus` is read as that token.
proof fn lemma_token_lits(s: Seq<char>, q: int)
    ensures
        text_at(s, q, lit_hover()) ==> token_at(s, q) == Some((TokenKind::Hover, q + 6)),
        text_at(s, q, lit_first_child()) ==> token_at(s, q) == Some(
            (TokenKind::FirstChild, q + 12),
        ),
        text_at(s, q, lit_last_child()) ==> token_at(s, q) == Some(
            (TokenKind::LastChild, q + 11),
        ),
        text_at(s, q, lit_focus()) ==> token_at(s, q) == Some((TokenKind::Focus, q + 6)),
{
    if text_at(s, q, lit_hover()) {
        lemma_text_at_char(s, q, lit_hover(), 0);
    }
    if text_at(s, q, lit_first_child()) {
        lemma_text_at_char(s, q, lit_first_child(), 0);
        lemma_not_lit(s, q, lit_first_child(), lit_hover(), 1);
    }
    if text_at(s, q, lit_last_child()) {
        lemma_text_at_char(s, q, lit_last_child(), 0);
        lemma_not_lit(s, q, lit_last_child(), lit_hover(), 1);
        lemma_not_lit(s, q, lit_last_child(), lit_first_child(), 1);
    }
    if text_at(s, q, lit_focus()) {
        lemma_text_at_char(s, q, lit_focus(), 0);
        lemma_not_lit(s, q, lit_focus(), lit_hover(), 1);
        lemma_not_lit(s, q, lit_focus(), lit_first_child(), 2);
        lemma_not_lit(s, q, lit_focus(), lit_last_child(), 1);
    }
}

/// No token starts at the end of the text, nor at a character other than `.` and `:`.
proof fn lemma_tokens_stop(s: Seq<char>, e: int, sel: SelectorModel)
    requires
        0 <= e <= s.len(),
        e == s.len() || (s[e] != '.' && s[e] != ':'),
    ensures
        read_tokens(s, e, sel) == (sel, e),
{
    if lit_at(s, e, lit_hover()) {
        lemma_text_at_char(s, e, lit_hover(), 0);
    }
    if lit_at(s, e, lit_first_child()) {
        lemma_text_at_char(s, e, lit_first_child(), 0);
    }
    if lit_at(s, e, lit_last_child()) {
        lemma_text_at_char(s, e, lit_last_child(), 0);
    }
    if lit_at(s, e, lit_focus()) {
        lemma_text_at_char(s, e, lit_focus(), 0);
    }
    if lit_at(s, e, super::selector_parse::lit_focus_within()) {
        lemma_text_at_char(s, e, super::selector_parse::lit_focus_within(), 0);
    }
    if lit_at(s, e, super::selector_parse::lit_focus_visible()) {
        lemma_text_at_char(s, e, super::selector_parse::lit_focus_visible(), 0);
    }
    assert(token_at(s, e) is None);
}

/// Reading the printed tokens of `c`, starting from its base, reaches `c` at the end of them.
proof fn lemma_read_chain_tokens(s: Seq<char>, r: int, c: SelectorModel)
    requires
        tokens_ok(c),
        text_at(s, r, tokens_text(c)),
        r + tokens_text(c).len() == s.len() || !is_name_char(s[r + tokens_text(c).len()]),
    ensures
        read_tokens(s, r, chain_base(c)) == read_tokens(s, r + tokens_text(c).len(), c),
    decreases c,
{
    match c {
        SelectorModel::Class(name, n) => {
            let tn = tokens_text(*n);
            let q = r + tn.len();
            assert(tokens_text(c) =~= tn + (seq!['.'] + name));
            lemma_text_at_split(s, r, tn, seq!['.'] + name);
            lemma_text_at_char(s, q, seq!['.'] + name, 0);
            lemma_read_chain_tokens(s, r, *n);
            lemma_token_class(s, q, name);
            assert(s.subrange(q + 1, q + 1 + name.len()) =~= (seq!['.'] + name).subrange(
                1,
                1 + name.len() as int,
            )) by {
                assert(s.subrange(q, q + 1 + name.len()) == seq!['.'] + name);
            }
            assert((seq!['.'] + name).subrange(1, 1 + name.len() as int) =~= name);
            assert(wrap(TokenKind::Class, s.subrange(q + 1, q + 1 + name.len()), *n) == c);
        },
        SelectorModel::Hover(n) => {
            let tn = tokens_text(*n);
            let q = r + tn.len();
            lemma_text_at_split(s, r, tn, lit_hover());
            lemma_text_at_char(s, q, lit_hover(), 0);
            lemma_read_chain_tokens(s, r, *n);
            lemma_token_lits(s, q);
        },
        SelectorModel::FirstChild(n) => {
            let tn = tokens_text(*n);
            let q = r + tn.len();
            lemma_text_at_split(s, r, tn, lit_first_child());
            lemma_text_at_char(s, q, lit_first_child(), 0);
            lemma_read_chain_tokens(s, r, *n);
            lemma_token_lits(s, q);
        },
        SelectorModel::LastChild(n) => {
            let tn = tokens_text(*n);
            let q = r + tn.len();
            lemma_text_at_split(s, r, tn, lit_last_child());
            lemma_text_at_char(s, q, lit_last_child(), 0);
            lemma_read_chain_tokens(s, r, *n);
            lemma_token_lits(s, q);
        },
        SelectorModel::Focus(n) => {
            let tn = tokens_text(*n);
            let q = r + tn.len();
            lemma_text_at_split(s, r, tn, lit_focus());
            lemma_text_at_char(s, q, lit_focus(), 0);
            lemma_read_chain_tokens(s, r, *n);
            lemma_token_lits(s, q);
        },
        _ => {},
    }
}

/// The number of nodes of a selector, counting alternatives as one.
pub open spec fn size(s: SelectorModel) -> nat
    decreases s,
{
    match s {
        SelectorModel::Class(_, n) => 1 + size(*n),
        SelectorModel::Hover(n) => 1 + size(*n),
        SelectorModel::Focus(n) => 1 + size(*n),
        SelectorModel::FocusWithin(n) => 1 + size(*n),
        SelectorModel::FocusVisible(n) => 1 + size(*n),
        SelectorModel::FirstChild(n) => 1 + size(*n),
        SelectorModel::LastChild(n) => 1 + size(*n),
        SelectorModel::Current(n) => 1 + size(*n),
        SelectorModel::Parent(n) => 1 + size(*n),
        _ => 1,
    }
}

/// What a chain of tokens is made of, and the first character of its tokens.
proof fn lemma_chain_facts(c: SelectorModel)
    ensures
        size(chain_base(c)) <= size(c),
        token_chain(c) ==> tokens_ok(c) && (chain_base(c) is Accept || chain_base(
            c,
        ) is Parent),
        class_chain(c) ==> tokens_ok(c) && (chain_base(c) is Accept || chain_base(
            c,
        ) is Parent),
        chain_base(c) matches SelectorModel::Parent(y) ==> (token_chain(c) || class_chain(c))
            ==> printable_desc(*y),
        tokens_ok(c) && tokens_text(c).len() > 0 ==> tokens_text(c)[0] == '.' || tokens_text(
            c,
        )[0] == ':',
        class_chain(c) && tokens_text(c).len() > 0 ==> tokens_text(c)[0] == '.',
        tokens_text(c).len() == 0 ==> chain_base(c) == c,
    decreases c,
{
    match c {
        SelectorModel::Class(name, n) => {
            lemma_chain_facts(*n);
            if tokens_text(*n).len() > 0 {
                assert(tokens_text(c)[0] == tokens_text(*n)[0]);
            } else {
                assert(tokens_text(c)[0] == '.');
            }
        },
        SelectorModel::Hover(n) => {
            lemma_chain_facts(*n);
            if tokens_text(*n).len() > 0 {
                assert(tokens_text(c)[0] == tokens_text(*n)[0]);
            } else {
                assert(tokens_text(c)[0] == lit_hover()[0]);
            }
        },
        SelectorModel::FirstChild(n) => {
            lemma_chain_facts(*n);
            if tokens_text(*n).len() > 0 {
                assert(tokens_text(c)[0] == tokens_text(*n)[0]);
            } else {
                assert(tokens_text(c)[0] == lit_first_child()[0]);
            }
        },
        SelectorModel::LastChild(n) => {
            lemma_chain_facts(*n);
            if tokens_text(*n).len() > 0 {
                assert(tokens_text(c)[0] == tokens_text(*n)[0]);
            } else {
                assert(tokens_text(c)[0] == lit_last_child()[0]);
            }
        },
        SelectorModel::Focus(n) => {
            lemma_chain_facts(*n);
            if tokens_text(*n).len() > 0 {
                assert(tokens_text(c)[0] == tokens_text(*n)[0]);
            } else {
                assert(tokens_text(c)[0] == lit_focus()[0]);
            }
        },
        _ => {},
    }
}

/// What may follow the text of alternative `d` for it to be read whole: the end of the text,
/// a `,`, a space unless `d` is a bare parent step, or, when it is one, the `* ` that a
/// further parent step prints.
pub open spec fn desc_follow(s: Seq<char>, e: int, d: SelectorModel) -> bool {
    ||| e == s.len()
    ||| 0 <= e < s.len() && s[e] == ','
    ||| 0 <= e < s.len() && s[e] == ' ' && !(d is Parent)
    ||| 0 <= e && e + 1 < s.len() && s[e] == '*' && s[e + 1] == ' ' && d is Parent
}

/// Where reading goes on after a text that ends at `e`: past a `*` there.
pub open spec fn resume_at(s: Seq<char>, e: int) -> int {
    if 0 <= e < s.len() && s[e] == '*' {
        e + 1
    } else {
        e
    }
}

/// A single space followed by something else is skipped as one.
proof fn lemma_skip_one(s: Seq<char>, g: int)
    requires
        0 <= g < s.len(),
        is_space(s[g]),
        g + 1 == s.len() || !is_space(s[g + 1]),
    ensures
        skip_spaces(s, g) == g + 1,
{
    assert(skip_spaces(s, g + 1) == g + 1);
}

/// Reading the printed text of a printable alternative ends with that alternative, ready to
/// read what follows it.
proof fn lemma_read_desc_text(s: Seq<char>, p: int, d: SelectorModel)
    requires
        printable_desc(d),
        text_at(s, p, selector_text(d)),
        desc_follow(s, p + selector_text(d).len(), d),
    ensures
        read_desc(s, p) == read_parents(s, resume_at(s, p + selector_text(d).len()), d),
    decreases size(d),
{
    let e = p + selector_text(d).len();
    // The chain of tokens (after `&`, if any) and its base.
    let (c, amp) = match d {
        SelectorModel::Current(n) => (*n, true),
        _ => (d, false),
    };
    lemma_chain_facts(c);
    let b = chain_base(c);
    let toks = tokens_text(c);
    let head = if amp {
        seq!['&'] + toks
    } else {
        toks
    };
    if amp {
        lemma_current_chain_text(c);
        assert(selector_text(d) =~= selector_text(b) + head);
    } else {
        lemma_chain_text(c);
        assert(selector_text(d) == selector_text(b) + head);
    }
    lemma_text_at_split(s, p, selector_text(b), head);
    let h = e - head.len();
    let t0 = if amp {
        h + 1
    } else {
        h
    };
    assert(text_at(s, t0, toks)) by {
        if amp {
            lemma_text_at_split(s, h, seq!['&'], toks);
        }
    }
    // The character after the tokens ends them.
    assert(e == s.len() || (!is_name_char(s[e]) && s[e] != '.' && s[e] != ':'));
    if amp {
        lemma_text_at_char(s, h, head, 0);
    }
    if toks.len() > 0 {
        lemma_text_at_char(s, t0, toks, 0);
    }
    // Reading the head from `h`, on top of the base, gives `d`.
    match b {
        SelectorModel::Parent(y) => {
            assert(printable_desc(*y));
            let sep = selector_text(b).subrange(
                selector_text(*y).len() as int,
                selector_text(b).len() as int,
            );
            let star = *y is Parent;
            assert(selector_text(b) =~= selector_text(*y) + sep);
            assert(sep =~= if star {
                seq!['*', ' ', '>', ' ']
            } else {
                seq![' ', '>', ' ']
            });
            lemma_text_at_split(s, p, selector_text(*y), sep);
            let ey = p + selector_text(*y).len();
            lemma_text_at_char(s, ey, sep, 0);
            lemma_text_at_char(s, ey, sep, 1);
            lemma_text_at_char(s, ey, sep, 2);
            if star {
                lemma_text_at_char(s, ey, sep, 3);
            }
            assert(size(*y) < size(d)) by {
                lemma_chain_facts(c);
            }
            lemma_read_desc_text(s, p, *y);
            let g = resume_at(s, ey);
            assert(g + 3 == h);
            lemma_skip_one(s, g);
            assert(s[g + 1] == '>');
            if h < s.len() {
                lemma_skip_one(s, g + 2);
            } else {
                assert(skip_spaces(s, g + 3) == g + 3);
            }
            assert(skip_spaces(s, g + 2) == h);
            if amp {
                lemma_read_chain_tokens(s, t0, c);
                lemma_tokens_stop(s, e, c);
                assert(read_simple(s, h, b) == (d, e));
            } else if toks.len() > 0 {
                lemma_read_chain_tokens(s, t0, c);
                lemma_tokens_stop(s, e, c);
                assert(read_simple(s, h, b) == (d, e));
            } else {
                assert(h == e);
                if e < s.len() && s[e] == '*' {
                    lemma_tokens_stop(s, e + 1, b);
                } else {
                    lemma_tokens_stop(s, e, b);
                }
                assert(read_simple(s, h, b) == (d, resume_at(s, e)));
            }
        },
        _ => {
            assert(b is Accept);
            assert(selector_text(b) == Seq::<char>::empty());
            assert(h == p);
            if amp {
                lemma_read_chain_tokens(s, t0, c);
                lemma_tokens_stop(s, e, c);
            } else if toks.len() > 0 {
                lemma_read_chain_tokens(s, t0, c);
                lemma_tokens_stop(s, e, c);
            } else {
                lemma_tokens_stop(s, e, b);
            }
            assert(read_simple(s, p, SelectorModel::Accept) == (d, e));
        },
    }
}

/// The printed text of an alternative starts with a space only when a parent step follows
/// an empty first part: the space is then followed by `>`.
proof fn lemma_desc_text_start(d: SelectorModel)
    requires
        printable_desc(d),
    ensures
        selector_text(d).len() > 0 && selector_text(d)[0] == ' ' ==> selector_text(d).len() > 1
            && selector_text(d)[1] == '>',
        selector_text(d).len() > 0 ==> selector_text(d)[0] != ',' && !is_name_char(
            selector_text(d)[0],
        ) && (selector_text(d)[0] == ' ' || !is_space(selector_text(d)[0])),
        selector_text(d).len() > 0 ==> selector_text(d)[0] == '.' || selector_text(d)[0] == ':'
            || selector_text(d)[0] == '&' || selector_text(d)[0] == ' ',
    decreases size(d),
{
    let (c, amp) = match d {
        SelectorModel::Current(n) => (*n, true),
        _ => (d, false),
    };
    lemma_chain_facts(c);
    let b = chain_base(c);
    let toks = tokens_text(c);
    let head = if amp {
        seq!['&'] + toks
    } else {
        toks
    };
    if amp {
        lemma_current_chain_text(c);
        assert(selector_text(d) =~= selector_text(b) + head);
    } else {
        lemma_chain_text(c);
    }
    match b {
        SelectorModel::Parent(y) => {
            assert(size(*y) < size(d));
            lemma_desc_text_start(*y);
            let sep = selector_text(b).subrange(
                selector_text(*y).len() as int,
                selector_text(b).len() as int,
            );
            assert(selector_text(b) =~= selector_text(*y) + sep);
            if *y is Parent {
                assert(sep =~= seq!['*', ' ', '>', ' ']);
                assert(selector_text(*y).len() > 0);
            } else {
                assert(sep =~= seq![' ', '>', ' ']);
            }
            if selector_text(*y).len() > 0 {
                assert(selector_text(d)[0] == selector_text(*y)[0]);
                if selector_text(*y).len() > 1 {
                    assert(selector_text(d)[1] == selector_text(*y)[1]);
                }
            } else {
                assert(selector_text(d)[0] == sep[0]);
                assert(selector_text(d)[1] == sep[1]);
            }
        },
        _ => {
            if selector_text(d).len() > 0 {
                assert(selector_text(d)[0] == head[0]);
            }
        },
    }
}

/// Reading an alternative from a space that a `>` follows is reading it from the `>`.
proof fn lemma_read_desc_space(s: Seq<char>, x: int)
    requires
        0 <= x,
        x + 1 < s.len(),
        s[x] == ' ',
        s[x + 1] == '>',
    ensures
        read_desc(s, x) == read_desc(s, x + 1),
{
    lemma_tokens_stop(s, x, SelectorModel::Accept);
    lemma_tokens_stop(s, x + 1, SelectorModel::Accept);
    assert(read_simple(s, x, SelectorModel::Accept) == (SelectorModel::Accept, x));
    assert(read_simple(s, x + 1, SelectorModel::Accept) == (SelectorModel::Accept, x + 1));
    lemma_skip_one(s, x);
    assert(skip_spaces(s, x + 1) == x + 1);
    let q = x + 1;
    lemma_skip_spaces(s, q + 1);
    let r = skip_spaces(s, q + 1);
    let base = SelectorModel::Parent(Box::new(SelectorModel::Accept));
    lemma_read_simple(s, r, base);
    let (next, p2) = read_simple(s, r, base);
    assert(x + 1 < p2 <= s.len());
    assert(read_parents(s, x, SelectorModel::Accept) == read_parents(s, p2, next));
    assert(read_parents(s, x + 1, SelectorModel::Accept) == read_parents(s, p2, next));
}

/// The printed text of `items`, without its last character when `cut` holds.
pub open spec fn joined(items: Seq<SelectorModel>, cut: bool) -> Seq<char> {
    if cut {
        join_text(items).drop_last()
    } else {
        join_text(items)
    }
}

/// A text that stands at the start of another, and is shorter, stands at the start of it
/// without its last character.
proof fn lemma_text_at_cut(s: Seq<char>, x: Seq<char>)
    requires
        text_at(s, 0, x),
        x.len() < s.len(),
    ensures
        text_at(s.drop_last(), 0, x),
{
    assert(s.drop_last().subrange(0, x.len() as int) =~= s.subrange(0, x.len() as int));
}

/// What stands at the start of the printed text of `items` and is shorter than it stands at
/// the start of `joined(items, cut)`.
proof fn lemma_text_at_joined(items: Seq<SelectorModel>, cut: bool, x: Seq<char>)
    requires
        text_at(join_text(items), 0, x),
        cut ==> x.len() < join_text(items).len(),
    ensures
        text_at(joined(items, cut), 0, x),
{
    if cut {
        lemma_text_at_cut(join_text(items), x);
    }
}

/// Reading the printed text of a bare parent step without its last space, at the end of the
/// text, ends with that step at the end of the text.
proof fn lemma_read_desc_cut(s: Seq<char>, p: int, d: SelectorModel)
    requires
        d matches SelectorModel::Parent(y) && printable_desc(*y),
        text_at(s, p, selector_text(d).drop_last()),
        p + selector_text(d).len() - 1 == s.len(),
    ensures
        read_desc(s, p) == (d, s.len() as int),
{
    let y = match d {
        SelectorModel::Parent(y) => *y,
        _ => d,
    };
    let td = selector_text(d);
    let sep = td.subrange(selector_text(y).len() as int, td.len() as int);
    let star = y is Parent;
    assert(td =~= selector_text(y) + sep);
    assert(sep =~= if star {
        seq!['*', ' ', '>', ' ']
    } else {
        seq![' ', '>', ' ']
    });
    let cut = sep.drop_last();
    assert(td.drop_last() =~= selector_text(y) + cut);
    lemma_text_at_split(s, p, selector_text(y), cut);
    let ey = p + selector_text(y).len();
    lemma_text_at_char(s, ey, cut, 0);
    lemma_text_at_char(s, ey, cut, 1);
    if star {
        lemma_text_at_char(s, ey, cut, 2);
    }
    assert(desc_follow(s, ey, y));
    lemma_read_desc_text(s, p, y);
    let g = resume_at(s, ey);
    assert(g + 2 == s.len());
    assert(s[g] == ' ');
    lemma_skip_one(s, g);
    assert(s[g + 1] == '>');
    assert(skip_spaces(s, g + 2) == g + 2);
    let base = SelectorModel::Parent(Box::new(y));
    assert(base == d);
    lemma_tokens_stop(s, g + 2, base);
    assert(read_simple(s, g + 2, base) == (d, g + 2));
    assert(read_parents(s, g, y) == read_parents(s, g + 2, d));
    assert(skip_spaces(s, s.len() as int) == s.len());
    assert(read_parents(s, s.len() as int, d) == (d, s.len() as int));
}

/// Where alternative `k` starts reading: after the text of the ones before it, less the cut
/// character when it is the end.
pub open spec fn rest_start(items: Seq<SelectorModel>, cut: bool, k: int) -> int {
    join_text(items.subrange(0, k)).len() as int - (if cut && k == items.len() {
        1int
    } else {
        0int
    })
}

/// After the first `k` alternatives, the printed text goes on with `, `, then with the text of
/// alternative `k`; only the `,` is left when the cut space is that of the last `, `.
proof fn lemma_alt_comma(items: Seq<SelectorModel>, cut: bool, k: int)
    requires
        items.len() >= 2,
        1 <= k < items.len(),
        forall|i: int| 0 <= i < items.len() ==> printable_desc(#[trigger] items[i]),
        cut ==> items.last() is Parent || items.last() is Accept,
    ensures
        rest_start(items, cut, k) + 1 <= joined(items, cut).len(),
        joined(items, cut)[rest_start(items, cut, k)] == ',',
        !(cut && k + 1 == items.len() && items[k] is Accept) ==> rest_start(items, cut, k) + 2
            <= joined(items, cut).len() && joined(items, cut)[rest_start(items, cut, k) + 1]
            == ' ',
        join_text(items.subrange(0, k + 1)) == join_text(items.subrange(0, k)) + seq![',', ' ']
            + selector_text(items[k]),
        text_at(
            join_text(items),
            0,
            join_text(items.subrange(0, k)) + seq![',', ' '] + selector_text(items[k]),
        ),
{
    let t = joined(items, cut);
    let n = items.len() as int;
    let jk = rest_start(items, cut, k);
    let before = join_text(items.subrange(0, k));
    let next = selector_text(items[k]);
    lemma_join_prefix(items, k + 1);
    lemma_join_text_prefix(items, k + 1);
    lemma_desc_text_end(items[n - 1]);
    if k + 1 < n {
        lemma_join_prefix(items, k + 2);
        lemma_join_text_prefix(items, k + 2);
    } else {
        assert(items.subrange(0, k + 1) =~= items);
    }
    assert(jk == before.len());
    lemma_text_at_split(join_text(items), 0, before + seq![',', ' '], next);
    assert(before + seq![',', ' '] =~= (before + seq![',']) + seq![' ']);
    lemma_text_at_split(join_text(items), 0, before + seq![','], seq![' ']);
    lemma_text_at_joined(items, cut, before + seq![',']);
    lemma_text_at_split(t, 0, before, seq![',']);
    lemma_text_at_char(t, jk, seq![','], 0);
    if !(cut && k + 1 == n && items[k] is Accept) {
        lemma_text_at_joined(items, cut, before + seq![',', ' ']);
        lemma_text_at_split(t, 0, before, seq![',', ' ']);
        lemma_text_at_char(t, jk, seq![',', ' '], 1);
    }
}

/// How the printed text goes on after the first `k` alternatives, when alternative `k` is
/// printed whole: its text, then a `,` or the end.
proof fn lemma_alt_whole(items: Seq<SelectorModel>, cut: bool, k: int)
    requires
        items.len() >= 2,
        1 <= k < items.len(),
        forall|i: int| 0 <= i < items.len() ==> printable_desc(#[trigger] items[i]),
        cut ==> items.last() is Parent || items.last() is Accept,
        !(cut && k + 1 == items.len()),
    ensures
        ({
            let t = joined(items, cut);
            let jk = rest_start(items, cut, k);
            let next = selector_text(items[k]);
            let ek = jk + 2 + next.len();
            &&& text_at(t, jk + 2, next)
            &&& desc_follow(t, ek, items[k])
            &&& (ek == t.len() || t[ek] == ',')
            &&& resume_at(t, ek) == ek
            &&& skip_spaces(t, ek) == ek
            &&& rest_start(items, cut, k + 1) == ek
        }),
{
    let t = joined(items, cut);
    let n = items.len() as int;
    let jk = rest_start(items, cut, k);
    let before = join_text(items.subrange(0, k));
    let next = selector_text(items[k]);
    let front = join_text(items.subrange(0, k + 1));
    let ek = jk + 2 + next.len();
    lemma_alt_comma(items, cut, k);
    lemma_join_text_prefix(items, k + 1);
    lemma_desc_text_end(items[n - 1]);
    if k + 1 < n {
        lemma_alt_comma(items, cut, k + 1);
        assert(rest_start(items, cut, k + 1) == front.len());
        lemma_text_at_joined(items, cut, front);
        lemma_text_at_split(t, 0, before + seq![',', ' '], next);
    } else {
        assert(items.subrange(0, k + 1) =~= items);
        assert(t == front);
        lemma_text_at_split(t, 0, before + seq![',', ' '], next);
    }
}

/// How the printed text ends when alternative `k` is the last and the cut one: its text
/// without the last space.
proof fn lemma_alt_cut(items: Seq<SelectorModel>, k: int)
    requires
        items.len() >= 2,
        k + 1 == items.len(),
        forall|i: int| 0 <= i < items.len() ==> printable_desc(#[trigger] items[i]),
        items.last() is Parent,
    ensures
        ({
            let t = joined(items, true);
            let jk = rest_start(items, true, k);
            let next = selector_text(items[k]);
            &&& items[k] is Parent
            &&& text_at(t, jk + 2, next.drop_last())
            &&& jk + 2 + next.len() - 1 == t.len()
            &&& rest_start(items, true, k + 1) == t.len()
            &&& next.len() >= 3
            &&& t[jk + 2] == next[0]
            &&& t[jk + 3] == next[1]
        }),
{
    let t = joined(items, true);
    let jk = rest_start(items, true, k);
    let before = join_text(items.subrange(0, k));
    let next = selector_text(items[k]);
    lemma_alt_comma(items, true, k);
    lemma_desc_text_end(items[k]);
    assert(items.subrange(0, k + 1) =~= items);
    assert(t =~= (before + seq![',', ' ']) + next.drop_last());
    assert(t.subrange(0, t.len() as int) =~= t);
    lemma_text_at_split(t, 0, before + seq![',', ' '], next.drop_last());
    assert(next.drop_last()[0] == next[0]);
    assert(next.drop_last()[1] == next[1]);
    lemma_text_at_char(t, jk + 2, next.drop_last(), 0);
    lemma_text_at_char(t, jk + 2, next.drop_last(), 1);
}

/// Reading alternative `k` after the first `k` goes on with the first `k + 1`.
proof fn lemma_read_step(items: Seq<SelectorModel>, cut: bool, k: int)
    requires
        items.len() >= 2,
        1 <= k < items.len(),
        forall|i: int| 0 <= i < items.len() ==> printable_desc(#[trigger] items[i]),
        cut ==> items.last() is Parent || items.last() is Accept,
    ensures
        read_alternatives(joined(items, cut), rest_start(items, cut, k), items.subrange(0, k))
            == read_alternatives(
            joined(items, cut),
            rest_start(items, cut, k + 1),
            items.subrange(0, k + 1),
        ),
{
    let t = joined(items, cut);
    let jk = rest_start(items, cut, k);
    let next = selector_text(items[k]);
    lemma_alt_comma(items, cut, k);
    lemma_desc_text_start(items[k]);
    if cut && k + 1 == items.len() && items[k] is Accept {
        // Only the `,` of the last `, ` is left: an empty alternative at the end.
        assert(items.subrange(0, k + 1) =~= items);
        assert(t.len() == jk + 1);
        assert(skip_spaces(t, jk + 1) == jk + 1);
        lemma_tokens_stop(t, jk + 1, SelectorModel::Accept);
        assert(read_desc(t, jk + 1) == (SelectorModel::Accept, jk + 1));
        assert(skip_spaces(t, jk) == jk);
        assert(items.subrange(0, k).push(items[k]) =~= items.subrange(0, k + 1));
        return;
    }
    if cut && k + 1 == items.len() {
        lemma_alt_cut(items, k);
        lemma_read_desc_cut(t, jk + 2, items[k]);
    } else {
        lemma_alt_whole(items, cut, k);
        lemma_read_desc_text(t, jk + 2, items[k]);
        if next.len() > 0 {
            lemma_text_at_char(t, jk + 2, next, 0);
        }
        if next.len() > 1 {
            lemma_text_at_char(t, jk + 2, next, 1);
        }
    }
    assert(read_desc(t, jk + 2) == (items[k], rest_start(items, cut, k + 1)));
    if next.len() > 0 && next[0] == ' ' {
        lemma_skip_one(t, jk + 2);
        assert(skip_spaces(t, jk + 1) == jk + 3);
        lemma_read_desc_space(t, jk + 2);
    } else {
        lemma_skip_one(t, jk + 1);
    }
    assert(skip_spaces(t, jk) == jk);
    assert(items.subrange(0, k).push(items[k]) =~= items.subrange(0, k + 1));
}

/// Reading the alternatives after the first `k` reads the rest of them.
proof fn lemma_read_rest(items: Seq<SelectorModel>, cut: bool, k: int)
    requires
        items.len() >= 2,
        1 <= k <= items.len(),
        forall|i: int| 0 <= i < items.len() ==> printable_desc(#[trigger] items[i]),
        cut ==> items.last() is Parent || items.last() is Accept,
    ensures
        read_alternatives(joined(items, cut), rest_start(items, cut, k), items.subrange(0, k))
            == (items, joined(items, cut).len() as int),
    decreases items.len() - k,
{
    let t = joined(items, cut);
    if k == items.len() {
        assert(items.subrange(0, k) =~= items);
        assert(rest_start(items, cut, k) == t.len());
        assert(skip_spaces(t, t.len() as int) == t.len());
    } else {
        lemma_read_step(items, cut, k);
        lemma_read_rest(items, cut, k + 1);
    }
}

/// The last alternative of a selector: itself, unless it holds alternatives.
pub open spec fn last_desc(sel: SelectorModel) -> SelectorModel {
    match sel {
        SelectorModel::Either(items) => items.last(),
        _ => sel,
    }
}

/// The printed text of a selector, without its last character when `cut` holds.
pub open spec fn printed(sel: SelectorModel, cut: bool) -> Seq<char> {
    if cut {
        selector_text(sel).drop_last()
    } else {
        selector_text(sel)
    }
}

/// The printed text of a selector ends with a space when its last alternative is a bare
/// parent step, or, among two or more, an empty one.
pub open spec fn ends_in_space(sel: SelectorModel) -> bool {
    last_desc(sel) is Parent || (sel is Either && last_desc(sel) is Accept)
}

/// Printing a printable selector and reading the text back gives the selector, and reads all
/// of the text.
pub proof fn lemma_print_then_read(sel: SelectorModel)
    requires
        printable(sel),
    ensures
        read_selector(selector_text(sel)) == (sel, selector_text(sel).len() as int),
{
    lemma_read_printed(sel, false);
}

/// Reading the printed text of a printable selector gives it back; so does reading the text
/// without its last space, when the last alternative is a bare parent step.
proof fn lemma_read_printed(sel: SelectorModel, cut: bool)
    requires
        printable(sel),
        cut ==> ends_in_space(sel),
    ensures
        read_selector(printed(sel, cut)) == (sel, printed(sel, cut).len() as int),
{
    let t = printed(sel, cut);
    match sel {
        SelectorModel::Either(items) => {
            assert(t == joined(items, cut));
            lemma_read_either(items, cut);
        },
        _ => {
            if cut {
                lemma_desc_text_end(sel);
                assert(text_at(t, 0, selector_text(sel).drop_last())) by {
                    assert(t.subrange(0, t.len() as int) =~= t);
                }
                lemma_read_desc_cut(t, 0, sel);
            } else {
                assert(text_at(t, 0, t)) by {
                    assert(t.subrange(0, t.len() as int) =~= t);
                }
                lemma_read_desc_text(t, 0, sel);
            }
            assert(skip_spaces(t, t.len() as int) == t.len());
        },
    }
}

/// Reading the printed text of two or more printable alternatives gives them back; so does
/// reading it without its last space, when the last alternative is a bare parent step.
proof fn lemma_read_either(items: Seq<SelectorModel>, cut: bool)
    requires
        items.len() >= 2,
        forall|i: int| 0 <= i < items.len() ==> printable_desc(#[trigger] items[i]),
        cut ==> items.last() is Parent || items.last() is Accept,
    ensures
        read_selector(joined(items, cut)) == (SelectorModel::Either(items), joined(
            items,
            cut,
        ).len() as int),
{
    let t = joined(items, cut);
    lemma_join_prefix(items, 2);
    lemma_alt_comma(items, cut, 1);
    let first = selector_text(items[0]);
    assert(rest_start(items, cut, 1) == first.len());
    lemma_text_at_split(
        join_text(items),
        0,
        first + seq![',', ' '],
        selector_text(items[1]),
    );
    assert(first + seq![',', ' '] =~= first + (seq![','] + seq![' ']));
    lemma_text_at_split(join_text(items), 0, first, seq![','] + seq![' ']);
    lemma_text_at_joined(items, cut, first);
    lemma_read_desc_text(t, 0, items[0]);
    assert(skip_spaces(t, first.len() as int) == first.len());
    assert(seq![items[0]] =~= items.subrange(0, 1));
    lemma_read_rest(items, cut, 1);
}

/// The text of the first `k` alternatives is that of the first `k - 1`, a `, `, then the
/// text of alternative `k - 1`.
proof fn lemma_join_prefix(items: Seq<SelectorModel>, k: int)
    requires
        2 <= k <= items.len(),
    ensures
        join_text(items.subrange(0, k)) == join_text(items.subrange(0, k - 1)) + seq![',', ' ']
            + selector_text(items[k - 1]),
        join_text(items.subrange(0, 1)) == selector_text(items[0]),
{
    assert(items.subrange(0, k).subrange(0, k - 1) =~= items.subrange(0, k - 1));
    assert(items.subrange(0, k)[k - 1] == items[k - 1]);
}

/// The text of the first `k` alternatives begins the text of all of them.
proof fn lemma_join_text_prefix(items: Seq<SelectorModel>, k: int)
    requires
        1 <= k <= items.len(),
    ensures
        text_at(join_text(items), 0, join_text(items.subrange(0, k))),
    decreases items.len() - k,
{
    let t = join_text(items);
    if k == items.len() {
        assert(items.subrange(0, k) =~= items);
        assert(t.subrange(0, t.len() as int) =~= t);
    } else {
        lemma_join_text_prefix(items, k + 1);
        lemma_join_prefix(items, k + 1);
        assert(join_text(items.subrange(0, k + 1)) =~= join_text(items.subrange(0, k)) + (seq![
            ',',
            ' ',
        ] + selector_text(items[k])));
        lemma_text_at_split(
            t,
            0,
            join_text(items.subrange(0, k)),
            seq![',', ' '] + selector_text(items[k]),
        );
    }
}

// ---------------------------------------------------------------------------------------
// Reading a text from which the first `k` characters were taken is reading the whole text
// from position `k` on.

proof fn lemma_shift_skip_spaces(t: Seq<char>, k: int, p: int)
    requires
        0 <= k <= t.len(),
        0 <= p <= t.len() - k,
    ensures
        skip_spaces(t.subrange(k, t.len() as int), p) == skip_spaces(t, p + k) - k,
    decreases t.len() - k - p,
{
    let u = t.subrange(k, t.len() as int);
    if p < u.len() {
        assert(u[p] == t[p + k]);
        if is_space(u[p]) {
            lemma_shift_skip_spaces(t, k, p + 1);
        }
    }
}

proof fn lemma_shift_name_end(t: Seq<char>, k: int, p: int)
    requires
        0 <= k <= t.len(),
        0 <= p <= t.len() - k,
    ensures
        name_end(t.subrange(k, t.len() as int), p) == name_end(t, p + k) - k,
    decreases t.len() - k - p,
{
    let u = t.subrange(k, t.len() as int);
    if p < u.len() {
        assert(u[p] == t[p + k]);
        if is_name_char(u[p]) {
            lemma_shift_name_end(t, k, p + 1);
        }
    }
}

proof fn lemma_shift_lit_at(t: Seq<char>, k: int, p: int, lit: Seq<char>)
    requires
        0 <= k <= t.len(),
        0 <= p <= t.len() - k,
    ensures
        lit_at(t.subrange(k, t.len() as int), p, lit) == lit_at(t, p + k, lit),
{
    let u = t.subrange(k, t.len() as int);
    if p + lit.len() <= u.len() {
        assert(u.subrange(p, p + lit.len()) =~= t.subrange(p + k, p + k + lit.len()));
    }
}

proof fn lemma_shift_token_at(t: Seq<char>, k: int, p: int)
    requires
        0 <= k <= t.len(),
        0 <= p <= t.len() - k,
    ensures
        token_at(t.subrange(k, t.len() as int), p) == match token_at(t, p + k) {
            Some((kind, q)) => Some((kind, q - k)),
            None => None,
        },
{
    let u = t.subrange(k, t.len() as int);
    if p + 1 < u.len() {
        assert(u[p] == t[p + k]);
        assert(u[p + 1] == t[p + 1 + k]);
    }
    if p + 2 <= u.len() {
        lemma_shift_name_end(t, k, p + 2);
    }
    lemma_shift_lit_at(t, k, p, lit_hover());
    lemma_shift_lit_at(t, k, p, lit_first_child());
    lemma_shift_lit_at(t, k, p, lit_last_child());
    lemma_shift_lit_at(t, k, p, lit_focus());
    lemma_shift_lit_at(t, k, p, super::selector_parse::lit_focus_within());
    lemma_shift_lit_at(t, k, p, super::selector_parse::lit_focus_visible());
}

proof fn lemma_shift_read_tokens(t: Seq<char>, k: int, p: int, sel: SelectorModel)
    requires
        0 <= k <= t.len(),
        0 <= p <= t.len() - k,
    ensures
        read_tokens(t.subrange(k, t.len() as int), p, sel) == (
            read_tokens(t, p + k, sel).0,
            read_tokens(t, p + k, sel).1 - k,
        ),
    decreases t.len() - k - p,
{
    let u = t.subrange(k, t.len() as int);
    lemma_shift_token_at(t, k, p);
    if let Some((kind, q)) = token_at(u, p) {
        if p < q <= u.len() {
            assert(u.subrange(p + 1, q) =~= t.subrange(p + k + 1, q + k));
            lemma_shift_read_tokens(t, k, q, wrap(kind, u.subrange(p + 1, q), sel));
        }
    }
}

proof fn lemma_shift_read_simple(t: Seq<char>, k: int, p: int, base: SelectorModel)
    requires
        0 <= k <= t.len(),
        0 <= p <= t.len() - k,
    ensures
        read_simple(t.subrange(k, t.len() as int), p, base) == (
            read_simple(t, p + k, base).0,
            read_simple(t, p + k, base).1 - k,
        ),
{
    let u = t.subrange(k, t.len() as int);
    if p < u.len() {
        assert(u[p] == t[p + k]);
    }
    lemma_shift_read_tokens(t, k, p, base);
    if p < u.len() {
        lemma_shift_read_tokens(t, k, p + 1, base);
    }
}

proof fn lemma_shift_read_parents(t: Seq<char>, k: int, p: int, sel: SelectorModel)
    requires
        0 <= k <= t.len(),
        0 <= p <= t.len() - k,
    ensures
        read_parents(t.subrange(k, t.len() as int), p, sel) == (
            read_parents(t, p + k, sel).0,
            read_parents(t, p + k, sel).1 - k,
        ),
    decreases t.len() - k - p,
{
    let u = t.subrange(k, t.len() as int);
    lemma_shift_skip_spaces(t, k, p);
    lemma_skip_spaces(u, p);
    let q = skip_spaces(u, p);
    if 0 <= q < u.len() {
        assert(u[q] == t[q + k]);
    }
    if 0 <= q < u.len() && u[q] == '>' {
        lemma_shift_skip_spaces(t, k, q + 1);
        lemma_skip_spaces(u, q + 1);
        let r = skip_spaces(u, q + 1);
        let base = SelectorModel::Parent(Box::new(sel));
        lemma_shift_read_simple(t, k, r, base);
        lemma_read_simple(u, r, base);
        let (next, p2) = read_simple(u, r, base);
        if p < p2 <= u.len() {
            lemma_shift_read_parents(t, k, p2, next);
        }
    }
}

proof fn lemma_shift_read_desc(t: Seq<char>, k: int, p: int)
    requires
        0 <= k <= t.len(),
        0 <= p <= t.len() - k,
    ensures
        read_desc(t.subrange(k, t.len() as int), p) == (
            read_desc(t, p + k).0,
            read_desc(t, p + k).1 - k,
        ),
{
    let u = t.subrange(k, t.len() as int);
    lemma_shift_read_simple(t, k, p, SelectorModel::Accept);
    lemma_read_simple(u, p, SelectorModel::Accept);
    let (first, p1) = read_simple(u, p, SelectorModel::Accept);
    lemma_shift_read_parents(t, k, p1, first);
}

proof fn lemma_shift_read_alternatives(
    t: Seq<char>,
    k: int,
    p: int,
    items: Seq<SelectorModel>,
)
    requires
        0 <= k <= t.len(),
        0 <= p <= t.len() - k,
    ensures
        read_alternatives(t.subrange(k, t.len() as int), p, items) == (
            read_alternatives(t, p + k, items).0,
            read_alternatives(t, p + k, items).1 - k,
        ),
    decreases t.len() - k - p,
{
    let u = t.subrange(k, t.len() as int);
    lemma_shift_skip_spaces(t, k, p);
    lemma_skip_spaces(u, p);
    let q = skip_spaces(u, p);
    if 0 <= q < u.len() {
        assert(u[q] == t[q + k]);
    }
    if 0 <= q < u.len() && u[q] == ',' {
        lemma_shift_skip_spaces(t, k, q + 1);
        lemma_skip_spaces(u, q + 1);
        let r = skip_spaces(u, q + 1);
        lemma_shift_read_desc(t, k, r);
        super::selector_parse::lemma_read_desc(u, r);
        let (d, p2) = read_desc(u, r);
        if p < p2 <= u.len() {
            lemma_shift_read_alternatives(t, k, p2, items.push(d));
        }
    }
}

/// The printed text of an alternative ends with a space exactly when it is a bare parent step,
/// and then a `>` comes before the space; otherwise its last character is no white space.
proof fn lemma_desc_text_end(d: SelectorModel)
    requires
        printable_desc(d),
    ensures
        d is Parent ==> selector_text(d).len() >= 3 && selector_text(d).last() == ' '
            && selector_text(d)[selector_text(d).len() - 2] == '>',
        !(d is Parent) && selector_text(d).len() > 0 ==> !is_white_space(selector_text(d).last()),
        selector_text(d).len() == 0 <==> d is Accept,
{
    let (c, amp) = match d {
        SelectorModel::Current(n) => (*n, true),
        _ => (d, false),
    };
    lemma_chain_facts(c);
    let b = chain_base(c);
    let toks = tokens_text(c);
    if amp {
        lemma_current_chain_text(c);
        assert(selector_text(d).last() == (seq!['&'] + toks).last());
        lemma_tokens_last(c);
    } else {
        lemma_chain_text(c);
        if toks.len() > 0 {
            assert(selector_text(d).last() == toks.last());
            lemma_tokens_last(c);
        } else {
            assert(c == b);
            if let SelectorModel::Parent(y) = b {
                let td = selector_text(d);
                let sep = td.subrange(selector_text(*y).len() as int, td.len() as int);
                assert(td =~= selector_text(*y) + sep);
                if *y is Parent {
                    assert(sep =~= seq!['*', ' ', '>', ' ']);
                } else {
                    assert(sep =~= seq![' ', '>', ' ']);
                }
                assert(td.last() == sep.last());
                assert(td[td.len() - 2] == sep[sep.len() - 2]);
            }
        }
    }
}

/// The last character of the printed tokens of a chain is a letter, a digit, `-` or `_`.
proof fn lemma_tokens_last(c: SelectorModel)
    requires
        tokens_ok(c),
    ensures
        tokens_text(c).len() > 0 ==> is_name_char(tokens_text(c).last()),
{
    match c {
        SelectorModel::Class(name, n) => {
            assert(tokens_text(c).last() == name.last());
            if name.len() > 1 {
                assert(is_name_char(name[name.len() - 1]));
            }
        },
        SelectorModel::Hover(n) => {
            assert(tokens_text(c).last() == lit_hover().last());
        },
        SelectorModel::FirstChild(n) => {
            assert(tokens_text(c).last() == lit_first_child().last());
        },
        SelectorModel::LastChild(n) => {
            assert(tokens_text(c).last() == lit_last_child().last());
        },
        SelectorModel::Focus(n) => {
            assert(tokens_text(c).last() == lit_focus().last());
        },
        _ => {},
    }
}

/// The printed text of a printable selector starts with a space only when a `>` follows it,
/// and starts with no other white space.
proof fn lemma_text_start(sel: SelectorModel)
    requires
        printable(sel),
    ensures
        ({
            let t = selector_text(sel);
            &&& t.len() > 0 && t[0] == ' ' ==> t.len() > 1 && t[1] == '>'
            &&& t.len() > 0 && t[0] != ' ' ==> !is_white_space(t[0])
        }),
{
    let t = selector_text(sel);
    match sel {
        SelectorModel::Either(items) => {
            lemma_join_prefix(items, 2);
            lemma_alt_comma(items, false, 1);
            let first = selector_text(items[0]);
            lemma_desc_text_start(items[0]);
            lemma_text_at_split(t, 0, first + seq![',', ' '], selector_text(items[1]));
            lemma_text_at_split(t, 0, first, seq![',', ' ']);
            if first.len() > 0 {
                lemma_text_at_char(t, 0, first, 0);
                if first[0] == ' ' {
                    lemma_text_at_char(t, 0, first, 1);
                }
            } else {
                lemma_text_at_char(t, 0, seq![',', ' '], 0);
            }
        },
        _ => {
            lemma_desc_text_start(sel);
        },
    }
}

/// The printed text of a printable selector ends with a space, a character that is no white
/// space coming before it, exactly when [`ends_in_space`] holds; otherwise it ends with no
/// white space.
proof fn lemma_text_end(sel: SelectorModel)
    requires
        printable(sel),
    ensures
        ({
            let t = selector_text(sel);
            &&& ends_in_space(sel) ==> t.len() >= 2 && t.last() == ' ' && !is_white_space(
                t[t.len() - 2],
            )
            &&& !ends_in_space(sel) && t.len() > 0 ==> !is_white_space(t.last())
        }),
{
    let t = selector_text(sel);
    match sel {
        SelectorModel::Either(items) => {
            let n = items.len() as int;
            lemma_join_prefix(items, n);
            assert(items.subrange(0, n) =~= items);
            let last = selector_text(items[n - 1]);
            lemma_desc_text_end(items[n - 1]);
            let before = join_text(items.subrange(0, n - 1)) + seq![',', ' '];
            assert(t == before + last);
            if last.len() > 0 {
                assert(t.last() == last.last());
                if last.len() >= 2 {
                    assert(t[t.len() - 2] == last[last.len() - 2]);
                }
            } else {
                assert(t.last() == ' ');
                assert(t[t.len() - 2] == ',');
            }
        },
        _ => {
            lemma_desc_text_end(sel);
        },
    }
}

/// Printing a printable selector and parsing the text gives the selector back: the text read
/// is the printed text trimmed of white space at both ends, and all of it is read.
pub proof fn lemma_print_then_parse(sel: SelectorModel)
    requires
        printable(sel),
    ensures
        parse_result(selector_text(sel)) == Ok::<SelectorModel, Seq<char>>(sel),
{
    let t = selector_text(sel);
    let n = t.len() as int;
    lemma_text_start(sel);
    lemma_text_end(sel);
    let cut = ends_in_space(sel);
    // Where the white space at each end stops.
    let lo: int = if n > 0 && t[0] == ' ' {
        1
    } else {
        0
    };
    let hi: int = if cut {
        n - 1
    } else {
        n
    };
    if n > 0 && t[0] == ' ' {
        assert(white_end(t, 1) == 1);
    }
    assert(white_end(t, 0) == lo);
    if cut {
        assert(lo <= n - 2);
        assert(white_start(t, lo, n - 1) == n - 1);
    }
    assert(white_start(t, lo, n) == hi);
    assert(trimmed(t) == t.subrange(lo, hi));
    let v = printed(sel, cut);
    assert(v =~= t.subrange(0, hi));
    let u = v.subrange(lo, v.len() as int);
    assert(u =~= trimmed(t));
    lemma_read_printed(sel, cut);
    // Reading from `lo` on reads as from the start.
    if lo == 1 {
        assert(v[0] == ' ' && v[1] == '>');
        lemma_read_desc_space(v, 0);
    }
    lemma_shift_read_desc(v, lo, 0);
    super::selector_parse::lemma_read_desc(v, lo);
    let (first, p0) = read_desc(v, 0);
    lemma_shift_read_alternatives(v, lo, p0 - lo, seq![first]);
}

} // verus!
