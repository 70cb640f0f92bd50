//! The selector grammar: a hand-written parser over characters with its specification.
//!
//! The grammar, read greedily from left to right:
//!
//! ```text
//! either   := desc ( space* ',' space* desc )*
//! desc     := simple ( space* '>' space* simple )*
//! simple   := ( '*' | '&' )? token*
//! token    := '.' alpha namechar* | ':hover' | ':first-child' | ':last-child'
//!           | ':focus' | ':focus-within' | ':focus-visible'
//! ```
//!
//! Tokens are tried in the order listed; as `:focus` is tried before `:focus-within`, the
//! longer names never match a token on their own. A whole text is a selector when, once
//! trimmed of white space at both ends, `either` reads all of it.
use vstd::prelude::*;

use winnow::error::ContextError;
use winnow::token::take;
use winnow::Parser;

use super::selector::{lemma_models_of, models_of, Selector, SelectorModel};

verus! {

/// Space and tab, the characters that may surround `>` and `,`.
pub open spec fn is_space(c: char) -> bool {
    c == ' ' || c == '\t'
}

/// ASCII letters.
pub open spec fn is_alpha(c: char) -> bool {
    ('a' <= c && c <= 'z') || ('A' <= c && c <= 'Z')
}

/// The characters that may follow the first letter of a class name.
pub open spec fn is_name_char(c: char) -> bool {
    is_alpha(c) || ('0' <= c && c <= '9') || c == '-' || c == '_'
}

/// Unicode white space (the `White_Space` property), which trimming removes.
pub open spec fn is_white_space(c: char) -> bool {
    ||| '\u{9}' <= c && c <= '\u{d}'
    ||| c == ' '
    ||| c == '\u{85}'
    ||| c == '\u{a0}'
    ||| c == '\u{1680}'
    ||| '\u{2000}' <= c && c <= '\u{200a}'
    ||| c == '\u{2028}'
    ||| c == '\u{2029}'
    ||| c == '\u{202f}'
    ||| c == '\u{205f}'
    ||| c == '\u{3000}'
}

/// The first position at or after `p` that does not hold a white-space character.
pub open spec fn white_end(s: Seq<char>, p: int) -> int
    decreases s.len() - p,
{
    if 0 <= p < s.len() && is_white_space(s[p]) {
        white_end(s, p + 1)
    } else {
        p
    }
}

/// The last position in `lo..=q` such that no character in it up to `q` is white space.
pub open spec fn white_start(s: Seq<char>, lo: int, q: int) -> int
    decreases q - lo,
{
    if lo < q && is_white_space(s[q - 1]) {
        white_start(s, lo, q - 1)
    } else {
        q
    }
}

/// The text without white space at either end.
pub open spec fn trimmed(s: Seq<char>) -> Seq<char> {
    let lo = white_end(s, 0);
    s.subrange(lo, white_start(s, lo, s.len() as int))
}

/// The position after the run of spaces and tabs that starts at `p`.
pub open spec fn skip_spaces(s: Seq<char>, p: int) -> int
    decreases s.len() - p,
{
    if 0 <= p < s.len() && is_space(s[p]) {
        skip_spaces(s, p + 1)
    } else {
        p
    }
}

/// The position after the run of class-name characters that starts at `p`.
pub open spec fn name_end(s: Seq<char>, p: int) -> int
    decreases s.len() - p,
{
    if 0 <= p < s.len() && is_name_char(s[p]) {
        name_end(s, p + 1)
    } else {
        p
    }
}

/// Whether `lit` occurs in `s` at position `p`.
pub open spec fn lit_at(s: Seq<char>, p: int, lit: Seq<char>) -> bool {
    0 <= p && p + lit.len() <= s.len() && s.subrange(p, p + lit.len()) == lit
}

/// `:hover`
pub open spec fn lit_hover() -> Seq<char> {
    seq![':', 'h', 'o', 'v', 'e', 'r']
}

/// `:first-child`
pub open spec fn lit_first_child() -> Seq<char> {
    seq![':', 'f', 'i', 'r', 's', 't', '-', 'c', 'h', 'i', 'l', 'd']
}

/// `:last-child`
pub open spec fn lit_last_child() -> Seq<char> {
    seq![':', 'l', 'a', 's', 't', '-', 'c', 'h', 'i', 'l', 'd']
}

/// `:focus`
pub open spec fn lit_focus() -> Seq<char> {
    seq![':', 'f', 'o', 'c', 'u', 's']
}

/// `:focus-within`
pub open spec fn lit_focus_within() -> Seq<char> {
    seq![':', 'f', 'o', 'c', 'u', 's', '-', 'w', 'i', 't', 'h', 'i', 'n']
}

/// `:focus-visible`
pub open spec fn lit_focus_visible() -> Seq<char> {
    seq![':', 'f', 'o', 'c', 'u', 's', '-', 'v', 'i', 's', 'i', 'b', 'l', 'e']
}

/// The kinds of token a simple selector is made of.
#[derive(Clone, Copy, PartialEq, Eq, Structural, Debug)]
pub enum TokenKind {
    /// `.name`
    Class,
    /// `:hover`
    Hover,
    /// `:first-child`
    FirstChild,
    /// `:last-child`
    LastChild,
    /// `:focus`
    Focus,
    /// `:focus-within`
    FocusWithin,
    /// `:focus-visible`
    FocusVisible,
}

/// The token at position `p`, tried in grammar order, and the position after it.
pub open spec fn token_at(s: Seq<char>, p: int) -> Option<(TokenKind, int)> {
    if 0 <= p && p + 1 < s.len() && s[p] == '.' && is_alpha(s[p + 1]) {
        Some((TokenKind::Class, name_end(s, p + 2)))
    } else if lit_at(s, p, lit_hover()) {
        Some((TokenKind::Hover, p + 6))
    } else if lit_at(s, p, lit_first_child()) {
        Some((TokenKind::FirstChild, p + 12))
    } else if lit_at(s, p, lit_last_child()) {
        Some((TokenKind::LastChild, p + 11))
    } else if lit_at(s, p, lit_focus()) {
        Some((TokenKind::Focus, p + 6))
    } else if lit_at(s, p, lit_focus_within()) {
        Some((TokenKind::FocusWithin, p + 13))
    } else if lit_at(s, p, lit_focus_visible()) {
        Some((TokenKind::FocusVisible, p + 14))
    } else {
        None
    }
}

/// The selector that a token adds in front of `inner`; `name` is read for class tokens.
pub open spec fn wrap(kind: TokenKind, name: Seq<char>, inner: SelectorModel) -> SelectorModel {
    match kind {
        TokenKind::Class => SelectorModel::Class(name, Box::new(inner)),
        TokenKind::Hover => SelectorModel::Hover(Box::new(inner)),
        TokenKind::FirstChild => SelectorModel::FirstChild(Box::new(inner)),
        TokenKind::LastChild => SelectorModel::LastChild(Box::new(inner)),
        TokenKind::Focus => SelectorModel::Focus(Box::new(inner)),
        TokenKind::FocusWithin => SelectorModel::FocusWithin(Box::new(inner)),
        TokenKind::FocusVisible => SelectorModel::FocusVisible(Box::new(inner)),
    }
}

/// Reads tokens from `p` on, wrapping `sel` in each in turn; returns the result and the
/// position after the last token.
pub open spec fn read_tokens(s: Seq<char>, p: int, sel: SelectorModel) -> (SelectorModel, int)
    decreases s.len() - p,
{
    match token_at(s, p) {
        Some((kind, q)) => if p < q <= s.len() {
            read_tokens(s, q, wrap(kind, s.subrange(p + 1, q), sel))
        } else {
            (sel, p)
        },
        None => (sel, p),
    }
}

/// Reads a simple selector at `p` on top of `base`: an optional `*` or `&`, then tokens.
pub open spec fn read_simple(s: Seq<char>, p: int, base: SelectorModel) -> (SelectorModel, int) {
    let prefixed = 0 <= p < s.len() && (s[p] == '*' || s[p] == '&');
    let amp = prefixed && s[p] == '&';
    let p1 = if prefixed {
        p + 1
    } else {
        p
    };
    let (sel, p2) = read_tokens(s, p1, base);
    (
        if amp {
            SelectorModel::Current(Box::new(sel))
        } else {
            sel
        },
        p2,
    )
}

/// Reads `( space* '>' space* simple )*` at `p` on top of `sel`. When no `>` follows, the
/// spaces before the position where it was looked for are consumed.
pub open spec fn read_parents(s: Seq<char>, p: int, sel: SelectorModel) -> (SelectorModel, int)
    decreases s.len() - p,
{
    let q = skip_spaces(s, p);
    if 0 <= q < s.len() && s[q] == '>' {
        let r = skip_spaces(s, q + 1);
        let (next, p2) = read_simple(s, r, SelectorModel::Parent(Box::new(sel)));
        if p < p2 <= s.len() {
            read_parents(s, p2, next)
        } else {
            (next, p2)
        }
    } else {
        (sel, q)
    }
}

/// Reads one alternative at `p`.
pub open spec fn read_desc(s: Seq<char>, p: int) -> (SelectorModel, int) {
    let (first, p1) = read_simple(s, p, SelectorModel::Accept);
    read_parents(s, p1, first)
}

/// Reads `( space* ',' space* desc )*` at `p`, appending alternatives to `items`. When no
/// `,` follows, the position goes back to `p`.
pub open spec fn read_alternatives(s: Seq<char>, p: int, items: Seq<SelectorModel>) -> (
    Seq<SelectorModel>,
    int,
)
    decreases s.len() - p,
{
    let q = skip_spaces(s, p);
    if 0 <= q < s.len() && s[q] == ',' {
        let r = skip_spaces(s, q + 1);
        let (d, p2) = read_desc(s, r);
        if p < p2 <= s.len() {
            read_alternatives(s, p2, items.push(d))
        } else {
            (items.push(d), p2)
        }
    } else {
        (items, p)
    }
}

/// Reads a selector from the start of `s`: the selector, and how many characters it took.
pub open spec fn read_selector(s: Seq<char>) -> (SelectorModel, int) {
    let (first, p0) = read_desc(s, 0);
    let (items, end) = read_alternatives(s, p0, seq![first]);
    (
        if items.len() == 1 {
            items[0]
        } else {
            SelectorModel::Either(items)
        },
        end,
    )
}

/// The text of the report that the parser library gives of a parse of `text` that stopped
/// `offset` characters in, short of its end, where nothing was expected in particular: the
/// text, a caret under the place where the parse stopped, and the line and column when the
/// text has more than one line.
pub uninterp spec fn parse_error_message(text: Seq<char>, offset: nat) -> Seq<char>;

/// `winnow::Parser::parse` of `take(offset)` on `text`, and the `Display` of the error it
/// reports. The parse reads `offset` characters and then finds the text not at its end, so it
/// stops there with nothing expected, as a selector parse that stopped there does; the text
/// of the report is [`parse_error_message`].
#[verifier::external_body]
fn parse_error_report(text: &str, offset: usize) -> (r: String)
    requires
        offset < text@.len(),
    ensures
        r@ == parse_error_message(text@, offset as nat),
{
    match take::<usize, &str, ContextError>(offset).parse(text) {
        Ok(_) => String::new(),
        Err(e) => e.to_string(),
    }
}

/// The result of parsing a whole selector text.
pub open spec fn parse_result(text: Seq<char>) -> Result<SelectorModel, Seq<char>> {
    let t = trimmed(text);
    let (sel, end) = read_selector(t);
    if end == t.len() {
        Ok(sel)
    } else {
        Err(parse_error_message(t, end as nat))
    }
}

// ---------------------------------------------------------------------------------------
// Facts about the positions the readers return.
pub(crate) proof fn lemma_skip_spaces(s: Seq<char>, p: int)
    requires
        0 <= p <= s.len(),
    ensures
        p <= skip_spaces(s, p) <= s.len(),
    decreases s.len() - p,
{
    if p < s.len() && is_space(s[p]) {
        lemma_skip_spaces(s, p + 1);
    }
}

proof fn lemma_name_end(s: Seq<char>, p: int)
    requires
        0 <= p <= s.len(),
    ensures
        p <= name_end(s, p) <= s.len(),
        forall|i: int| p <= i < name_end(s, p) ==> is_name_char(#[trigger] s[i]),
        name_end(s, p) < s.len() ==> !is_name_char(s[name_end(s, p)]),
    decreases s.len() - p,
{
    if p < s.len() && is_name_char(s[p]) {
        lemma_name_end(s, p + 1);
    }
}

proof fn lemma_token_at(s: Seq<char>, p: int)
    requires
        0 <= p <= s.len(),
    ensures
        token_at(s, p) matches Some((k, q)) ==> p + 2 <= q <= s.len(),
{
    if 0 <= p && p + 1 < s.len() && s[p] == '.' && is_alpha(s[p + 1]) {
        lemma_name_end(s, p + 2);
    }
}

pub(crate) proof fn lemma_read_tokens(s: Seq<char>, p: int, sel: SelectorModel)
    requires
        0 <= p <= s.len(),
    ensures
        p <= read_tokens(s, p, sel).1 <= s.len(),
    decreases s.len() - p,
{
    lemma_token_at(s, p);
    if let Some((kind, q)) = token_at(s, p) {
        lemma_read_tokens(s, q, wrap(kind, s.subrange(p + 1, q), sel));
    }
}

pub(crate) proof fn lemma_read_simple(s: Seq<char>, p: int, base: SelectorModel)
    requires
        0 <= p <= s.len(),
    ensures
        p <= read_simple(s, p, base).1 <= s.len(),
{
    if 0 <= p < s.len() && (s[p] == '*' || s[p] == '&') {
        lemma_read_tokens(s, p + 1, base);
    } else {
        lemma_read_tokens(s, p, base);
    }
}

proof fn lemma_read_parents(s: Seq<char>, p: int, sel: SelectorModel)
    requires
        0 <= p <= s.len(),
    ensures
        p <= read_parents(s, p, sel).1 <= s.len(),
    decreases s.len() - p,
{
    lemma_skip_spaces(s, p);
    let q = skip_spaces(s, p);
    if 0 <= q < s.len() && s[q] == '>' {
        lemma_skip_spaces(s, q + 1);
        let r = skip_spaces(s, q + 1);
        lemma_read_simple(s, r, SelectorModel::Parent(Box::new(sel)));
        let (next, p2) = read_simple(s, r, SelectorModel::Parent(Box::new(sel)));
        lemma_read_parents(s, p2, next);
    }
}

pub(crate) proof fn lemma_read_desc(s: Seq<char>, p: int)
    requires
        0 <= p <= s.len(),
    ensures
        p <= read_desc(s, p).1 <= s.len(),
{
    lemma_read_simple(s, p, SelectorModel::Accept);
    let (first, p1) = read_simple(s, p, SelectorModel::Accept);
    lemma_read_parents(s, p1, first);
}

// ---------------------------------------------------------------------------------------
// The executable parser.
fn is_space_exec(c: char) -> (b: bool)
    ensures
        b == is_space(c),
{
    c == ' ' || c == '\t'
}

fn is_alpha_exec(c: char) -> (b: bool)
    ensures
        b == is_alpha(c),
{
    ('a' <= c && c <= 'z') || ('A' <= c && c <= 'Z')
}

fn is_name_char_exec(c: char) -> (b: bool)
    ensures
        b == is_name_char(c),
{
    is_alpha_exec(c) || ('0' <= c && c <= '9') || c == '-' || c == '_'
}

fn is_white_space_exec(c: char) -> (b: bool)
    ensures
        b == is_white_space(c),
{
    ('\u{9}' <= c && c <= '\u{d}') || c == ' ' || c == '\u{85}' || c == '\u{a0}' || c
        == '\u{1680}' || ('\u{2000}' <= c && c <= '\u{200a}') || c == '\u{2028}' || c
        == '\u{2029}' || c == '\u{202f}' || c == '\u{205f}' || c == '\u{3000}'
}

/// The characters of a text, in order.
fn chars_of(text: &str) -> (cs: Vec<char>)
    ensures
        cs@ == text@,
{
    let n = text.unicode_len();
    let mut cs: Vec<char> = Vec::new();
    let mut i: usize = 0;
    while i < n
        invariant
            n == text@.len(),
            i <= n,
            cs@ == text@.subrange(0, i as int),
        decreases n - i,
    {
        let c = text.get_char(i);
        cs.push(c);
        i = i + 1;
    }
    cs
}

fn skip_spaces_exec(cs: &Vec<char>, p: usize) -> (r: usize)
    requires
        p <= cs.len(),
    ensures
        r == skip_spaces(cs@, p as int),
        p <= r <= cs.len(),
{
    let mut i = p;
    while i < cs.len() && is_space_exec(cs[i])
        invariant
            p <= i <= cs.len(),
            skip_spaces(cs@, i as int) == skip_spaces(cs@, p as int),
        decreases cs.len() - i,
    {
        i = i + 1;
    }
    i
}

fn name_end_exec(cs: &Vec<char>, p: usize) -> (r: usize)
    requires
        p <= cs.len(),
    ensures
        r == name_end(cs@, p as int),
        p <= r <= cs.len(),
{
    let mut i = p;
    while i < cs.len() && is_name_char_exec(cs[i])
        invariant
            p <= i <= cs.len(),
            name_end(cs@, i as int) == name_end(cs@, p as int),
        decreases cs.len() - i,
    {
        i = i + 1;
    }
    i
}

fn lit_at_exec(cs: &Vec<char>, p: usize, lit: &Vec<char>) -> (b: bool)
    requires
        p <= cs.len(),
    ensures
        b == lit_at(cs@, p as int, lit@),
{
    if lit.len() > cs.len() - p {
        return false;
    }
    let mut i: usize = 0;
    while i < lit.len()
        invariant
            p + lit.len() <= cs.len(),
            i <= lit.len(),
            forall|j: int| 0 <= j < i ==> cs@[p + j] == lit@[j],
        decreases lit.len() - i,
    {
        if cs[p + i] != lit[i] {
            proof {
                assert(cs@.subrange(p as int, p + lit.len())[i as int] != lit@[i as int]);
            }
            return false;
        }
        i = i + 1;
    }
    proof {
        assert(cs@.subrange(p as int, p + lit.len()) =~= lit@);
    }
    true
}

fn token_at_exec(cs: &Vec<char>, p: usize) -> (r: Option<(TokenKind, usize)>)
    requires
        p <= cs.len(),
    ensures
        match r {
            Some((k, q)) => token_at(cs@, p as int) == Some((k, q as int)),
            None => token_at(cs@, p as int) is None,
        },
{
    if p < cs.len() && cs.len() - p >= 2 && cs[p] == '.' && is_alpha_exec(cs[p + 1]) {
        let q = name_end_exec(cs, p + 2);
        return Some((TokenKind::Class, q));
    }
    let hover = vec![':', 'h', 'o', 'v', 'e', 'r'];
    assert(hover@ == lit_hover());
    if lit_at_exec(cs, p, &hover) {
        return Some((TokenKind::Hover, p + 6));
    }
    let first_child = vec![':', 'f', 'i', 'r', 's', 't', '-', 'c', 'h', 'i', 'l', 'd'];
    assert(first_child@ == lit_first_child());
    if lit_at_exec(cs, p, &first_child) {
        return Some((TokenKind::FirstChild, p + 12));
    }
    let last_child = vec![':', 'l', 'a', 's', 't', '-', 'c', 'h', 'i', 'l', 'd'];
    assert(last_child@ == lit_last_child());
    if lit_at_exec(cs, p, &last_child) {
        return Some((TokenKind::LastChild, p + 11));
    }
    let focus = vec![':', 'f', 'o', 'c', 'u', 's'];
    assert(focus@ == lit_focus());
    if lit_at_exec(cs, p, &focus) {
        return Some((TokenKind::Focus, p + 6));
    }
    let focus_within = vec![':', 'f', 'o', 'c', 'u', 's', '-', 'w', 'i', 't', 'h', 'i', 'n'];
    assert(focus_within@ == lit_focus_within());
    if lit_at_exec(cs, p, &focus_within) {
        return Some((TokenKind::FocusWithin, p + 13));
    }
    let focus_visible = vec![':', 'f', 'o', 'c', 'u', 's', '-', 'v', 'i', 's', 'i', 'b', 'l', 'e'];
    assert(focus_visible@ == lit_focus_visible());
    if lit_at_exec(cs, p, &focus_visible) {
        return Some((TokenKind::FocusVisible, p + 14));
    }
    None
}

/// Wraps `inner` in the selector that a token stands for.
fn wrap_exec(kind: TokenKind, name: String, inner: Box<Selector>) -> (r: Box<Selector>)
    ensures
        r@ == wrap(kind, name@, inner@),
{
    match kind {
        TokenKind::Class => Box::new(Selector::Class(name, inner)),
        TokenKind::Hover => Box::new(Selector::Hover(inner)),
        TokenKind::FirstChild => Box::new(Selector::FirstChild(inner)),
        TokenKind::LastChild => Box::new(Selector::LastChild(inner)),
        TokenKind::Focus => Box::new(Selector::Focus(inner)),
        TokenKind::FocusWithin => Box::new(Selector::FocusWithin(inner)),
        TokenKind::FocusVisible => Box::new(Selector::FocusVisible(inner)),
    }
}

/// Reads tokens from `p` on, as [`read_tokens`] does.
fn read_tokens_exec(text: &str, cs: &Vec<char>, p: usize, base: Box<Selector>) -> (r: (
    Box<Selector>,
    usize,
))
    requires
        text@ == cs@,
        p <= cs.len(),
    ensures
        (r.0@, r.1 as int) == read_tokens(cs@, p as int, base@),
{
    let ghost sel0 = base@;
    let mut sel = base;
    let mut i = p;
    let ghost s = cs@;
    let ghost goal = read_tokens(s, p as int, sel0);
    loop
        invariant
            goal == read_tokens(s, p as int, sel0),
            sel0 == base@,
            text@ == cs@,
            s == cs@,
            p <= i <= cs.len(),
            read_tokens(s, i as int, sel@) == goal,
        decreases cs.len() - i,
    {
        proof {
            lemma_token_at(s, i as int);
        }
        match token_at_exec(cs, i) {
            Some((kind, q)) => {
                let name = if kind == TokenKind::Class {
                    String::from_str(text.substring_char(i + 1, q))
                } else {
                    String::new()
                };
                let ghost old_sel = sel@;
                sel = wrap_exec(kind, name, sel);
                proof {
                    if kind == TokenKind::Class {
                        assert(sel@ == wrap(kind, s.subrange(i + 1, q as int), old_sel));
                    }
                }
                i = q;
            },
            None => {
                return (sel, i);
            },
        }
    }
}

/// Reads a simple selector at `p`, as [`read_simple`] does.
fn read_simple_exec(text: &str, cs: &Vec<char>, p: usize, base: Box<Selector>) -> (r: (
    Box<Selector>,
    usize,
))
    requires
        text@ == cs@,
        p <= cs.len(),
    ensures
        (r.0@, r.1 as int) == read_simple(cs@, p as int, base@),
        p <= r.1 <= cs.len(),
{
    let prefixed = p < cs.len() && (cs[p] == '*' || cs[p] == '&');
    let amp = prefixed && cs[p] == '&';
    let p1 = if prefixed {
        p + 1
    } else {
        p
    };
    proof {
        lemma_read_tokens(cs@, p1 as int, base@);
    }
    let (sel, p2) = read_tokens_exec(text, cs, p1, base);
    if amp {
        (Box::new(Selector::Current(sel)), p2)
    } else {
        (sel, p2)
    }
}

/// Reads one alternative at `p`, as [`read_desc`] does.
fn read_desc_exec(text: &str, cs: &Vec<char>, p: usize) -> (r: (Box<Selector>, usize))
    requires
        text@ == cs@,
        p <= cs.len(),
    ensures
        (r.0@, r.1 as int) == read_desc(cs@, p as int),
        p <= r.1 <= cs.len(),
{
    let ghost s = cs@;
    let (first, p1) = read_simple_exec(text, cs, p, Box::new(Selector::Accept));
    let ghost goal = read_parents(s, p1 as int, first@);
    proof {
        lemma_read_parents(s, p1 as int, first@);
    }
    let mut sel = first;
    let mut i = p1;
    loop
        invariant
            text@ == cs@,
            s == cs@,
            p <= p1 <= i <= cs.len(),
            read_parents(s, i as int, sel@) == goal,
            p1 <= goal.1 <= cs.len(),
            goal == read_desc(s, p as int),
        decreases cs.len() - i,
    {
        let q = skip_spaces_exec(cs, i);
        if q < cs.len() && cs[q] == '>' {
            let r = skip_spaces_exec(cs, q + 1);
            let (next, p2) = read_simple_exec(text, cs, r, Box::new(Selector::Parent(sel)));
            sel = next;
            i = p2;
        } else {
            return (sel, q);
        }
    }
}

impl Selector {
    /// Reads a selector from the start of `input`, as far as the grammar goes. Returns the
    /// selector and the number of characters it was read from.
    pub fn parser(input: &str) -> (r: (Box<Selector>, usize))
        ensures
            (r.0@, r.1 as int) == read_selector(input@),
    {
        let cs = chars_of(input);
        let ghost s = cs@;
        let (first, p0) = read_desc_exec(input, &cs, 0);
        let mut items: Vec<Box<Selector>> = Vec::new();
        items.push(first);
        proof {
            assert(items@.subrange(0, 0) =~= Seq::<Box<Selector>>::empty());
            assert(models_of(items@.subrange(0, 0)) =~= Seq::<SelectorModel>::empty());
            assert(models_of(items@) =~= seq![first@]);
        }
        let ghost goal = read_alternatives(s, p0 as int, seq![first@]);
        let ghost first_read = read_desc(s, 0);
        let mut i = p0;
        loop
            invariant
                first_read == read_desc(s, 0),
                goal == read_alternatives(s, first_read.1, seq![first_read.0]),
                input@ == cs@,
                s == cs@,
                i <= cs.len(),
                items@.len() >= 1,
                read_alternatives(s, i as int, models_of(items@)) == goal,
            decreases cs.len() - i,
        {
            let q = skip_spaces_exec(&cs, i);
            if q < cs.len() && cs[q] == ',' {
                let r = skip_spaces_exec(&cs, q + 1);
                let (d, p2) = read_desc_exec(input, &cs, r);
                let ghost old_items = items@;
                items.push(d);
                proof {
                    assert(items@.subrange(0, items@.len() - 1) == old_items);
                    assert(models_of(items@) == models_of(old_items).push(d@));
                }
                i = p2;
            } else {
                proof {
                    lemma_models_of(items@);
                }
                if items.len() == 1 {
                    let sel = items.pop().unwrap();
                    return (sel, i);
                } else {
                    return (Box::new(Selector::Either(items)), i);
                }
            }
        }
    }

    /// Parses a whole selector text, ignoring white space at both ends. Fails with the parser
    /// library's report of where the reading stopped.
    pub fn parse_selector(input: &str) -> (r: Result<Selector, String>)
        ensures
            match parse_result(input@) {
                Ok(m) => r matches Ok(sel) && sel@ == m,
                Err(msg) => r matches Err(e) && e@ == msg,
            },
    {
        let cs = chars_of(input);
        let n = cs.len();
        let mut lo: usize = 0;
        while lo < n && is_white_space_exec(cs[lo])
            invariant
                lo <= n,
                n == cs@.len(),
                white_end(cs@, lo as int) == white_end(cs@, 0),
            decreases n - lo,
        {
            lo = lo + 1;
        }
        let mut hi: usize = n;
        while lo < hi && is_white_space_exec(cs[hi - 1])
            invariant
                lo <= hi <= n,
                n == cs@.len(),
                lo == white_end(cs@, 0),
                white_start(cs@, lo as int, hi as int) == white_start(cs@, lo as int, n as int),
            decreases hi - lo,
        {
            hi = hi - 1;
        }
        let text = input.substring_char(lo, hi);
        assert(text@ == trimmed(input@));
        let (sel, end) = Selector::parser(text);
        let tn = text.unicode_len();
        if end == tn {
            Ok(*sel)
        } else {
            proof {
                lemma_read_selector_end(text@);
            }
            Err(parse_error_report(text, end))
        }
    }
}

/// A selector is never read past the end of its text.
proof fn lemma_read_selector_end(s: Seq<char>)
    ensures
        0 <= read_selector(s).1 <= s.len(),
{
    lemma_read_desc(s, 0);
    let (first, p0) = read_desc(s, 0);
    lemma_read_alternatives(s, p0, seq![first]);
}

proof fn lemma_read_alternatives(s: Seq<char>, p: int, items: Seq<SelectorModel>)
    requires
        0 <= p <= s.len(),
    ensures
        p <= read_alternatives(s, p, items).1 <= s.len(),
    decreases s.len() - p,
{
    lemma_skip_spaces(s, p);
    let q = skip_spaces(s, p);
    if 0 <= q < s.len() && s[q] == ',' {
        lemma_skip_spaces(s, q + 1);
        let r = skip_spaces(s, q + 1);
        lemma_read_desc(s, r);
        let (d, p2) = read_desc(s, r);
        lemma_read_alternatives(s, p2, items.push(d));
    }
}

impl core::str::FromStr for Selector {
    type Err = String;

    /// Parses a whole selector text, as [`Selector::parse_selector`] does.
    fn from_str(input: &str) -> (r: Result<Self, Self::Err>)
        ensures
            match parse_result(input@) {
                Ok(m) => r matches Ok(sel) && sel@ == m,
                Err(msg) => r matches Err(e) && e@ == msg,
            },
    {
        Selector::parse_selector(input)
    }
}

} // verus!
