//! Selectors. Parts are stored subject first: the parts of the element
//! being matched come before those of its parent or ancestors, the reverse
//! of the text, because matching walks outward from that element.
use crate::text::{chars_of, lit_eq, string_of};
use crate::tokenizer::{is_ident_char, tokenize_chars, tokens_of, toks_view, Tok};
use vstd::prelude::*;

verus! {

/// A simple selector.
#[derive(Debug, Clone, PartialEq)]
pub enum Component {
    LocalName(String),
    Identifier(String),
    ClassName(String),
    /// Attribute selectors, pseudo-classes and sibling combinators: kept in
    /// place so that nothing matches, never an error.
    Unsupported,
}

#[derive(Debug, Clone, Copy, PartialEq, Eq, Structural)]
pub enum Combinator {
    Universal,
    /// The next part is the parent (`>` in the text).
    Parent,
    /// The next part is an ancestor (a space in the text).
    Ancestor,
    /// Starts another alternative (`,` in the text).
    Or,
}

#[derive(Debug, Clone, PartialEq)]
pub enum SelectorPart {
    Component(Component),
    Combinator(Combinator),
}

/// A selector part as the contracts see it.
pub enum PartView {
    LocalName(Seq<char>),
    Identifier(Seq<char>),
    ClassName(Seq<char>),
    Unsupported,
    Comb(Combinator),
}

impl View for SelectorPart {
    type V = PartView;

    open spec fn view(&self) -> PartView {
        match self {
            SelectorPart::Component(Component::LocalName(s)) => PartView::LocalName(s@),
            SelectorPart::Component(Component::Identifier(s)) => PartView::Identifier(s@),
            SelectorPart::Component(Component::ClassName(s)) => PartView::ClassName(s@),
            SelectorPart::Component(Component::Unsupported) => PartView::Unsupported,
            SelectorPart::Combinator(c) => PartView::Comb(*c),
        }
    }
}

pub open spec fn parts_view(v: Seq<SelectorPart>) -> Seq<PartView> {
    v.map_values(|p: SelectorPart| p@)
}

/// A token that can be a name.
pub open spec fn is_ident_tok(t: Tok) -> bool {
    t.len() > 0 && is_ident_char(t[0])
}

/// The first position at or after `j` that holds `]`.
pub open spec fn close_bracket(ts: Seq<Tok>, j: int) -> Option<int>
    decreases ts.len() - j,
{
    if j < 0 || j >= ts.len() {
        None
    } else if ts[j] == "]"@ {
        Some(j)
    } else {
        close_bracket(ts, j + 1)
    }
}

/// One simple selector at `i`, and where it ends: `*`, `#name`, `.name`,
/// a name, an attribute selector in brackets, or a pseudo-class after one
/// or two colons.
pub open spec fn tag_at(ts: Seq<Tok>, i: int) -> Option<(PartView, int)> {
    if i < 0 || i >= ts.len() {
        None
    } else if ts[i] == "*"@ {
        Some((PartView::Comb(Combinator::Universal), i + 1))
    } else if ts[i] == "#"@ {
        if i + 1 < ts.len() && is_ident_tok(ts[i + 1]) {
            Some((PartView::Identifier(ts[i + 1]), i + 2))
        } else {
            None
        }
    } else if ts[i] == "."@ {
        if i + 1 < ts.len() && is_ident_tok(ts[i + 1]) {
            Some((PartView::ClassName(ts[i + 1]), i + 2))
        } else {
            None
        }
    } else if is_ident_tok(ts[i]) {
        Some((PartView::LocalName(ts[i]), i + 1))
    } else if ts[i] == "["@ {
        match close_bracket(ts, i + 1) {
            Some(j) => if j > i + 1 {
                Some((PartView::Unsupported, j + 1))
            } else {
                None
            },
            None => None,
        }
    } else if ts[i] == ":"@ {
        if i + 1 < ts.len() && ts[i + 1] == ":"@ {
            if i + 2 < ts.len() && is_ident_tok(ts[i + 2]) {
                Some((PartView::Unsupported, i + 3))
            } else {
                None
            }
        } else if i + 1 < ts.len() && is_ident_tok(ts[i + 1]) {
            Some((PartView::Unsupported, i + 2))
        } else {
            None
        }
    } else {
        None
    }
}

/// A combinator at `i`: `>`, a space, `,`, or a sibling combinator, which
/// is kept as an unsupported part.
pub open spec fn comb_at(ts: Seq<Tok>, i: int) -> Option<PartView> {
    if i < 0 || i >= ts.len() {
        None
    } else if ts[i] == ">"@ {
        Some(PartView::Comb(Combinator::Parent))
    } else if ts[i] == seq![' '] {
        Some(PartView::Comb(Combinator::Ancestor))
    } else if ts[i] == ","@ {
        Some(PartView::Comb(Combinator::Or))
    } else if ts[i] == "+"@ || ts[i] == "~"@ {
        Some(PartView::Unsupported)
    } else {
        None
    }
}

/// An optional combinator followed by a simple selector, at `i`. Once a
/// combinator is read, the simple selector must follow.
pub open spec fn step_at(ts: Seq<Tok>, i: int) -> Option<(Option<PartView>, PartView, int)> {
    match comb_at(ts, i) {
        Some(c) => match tag_at(ts, i + 1) {
            Some((t, k)) => Some((Some(c), t, k)),
            None => None,
        },
        None => match tag_at(ts, i) {
            Some((t, k)) => Some((None, t, k)),
            None => None,
        },
    }
}

/// As many steps as can be read from `i`, and where they end.
pub open spec fn steps_from(ts: Seq<Tok>, i: int) -> (Seq<(Option<PartView>, PartView)>, int)
    decreases ts.len() - i,
{
    if i < 0 || i >= ts.len() {
        (seq![], i)
    } else {
        match step_at(ts, i) {
            Some((c, t, k)) => if i < k <= ts.len() {
                let (rest, e) = steps_from(ts, k);
                (seq![(c, t)] + rest, e)
            } else {
                (seq![], i)
            },
            None => (seq![], i),
        }
    }
}

/// The steps, last first, each as its simple selector then its combinator.
pub open spec fn reversed_steps(steps: Seq<(Option<PartView>, PartView)>) -> Seq<PartView>
    decreases steps.len(),
{
    if steps.len() == 0 {
        seq![]
    } else {
        let (c, t) = steps.last();
        seq![t] + (match c {
            Some(x) => seq![x],
            None => seq![],
        }) + reversed_steps(steps.drop_last())
    }
}

/// The selector at `i`, parts subject first, and where it ends.
pub open spec fn selector_at(ts: Seq<Tok>, i: int) -> Option<(Seq<PartView>, int)> {
    match tag_at(ts, i) {
        Some((h, j)) => {
            let (steps, e) = steps_from(ts, j);
            Some((reversed_steps(steps) + seq![h], e))
        },
        None => None,
    }
}

/// The selector the tokens write, all of them; a single unsupported part
/// where they do not form one.
pub open spec fn selector_of(ts: Seq<Tok>) -> Seq<PartView> {
    match selector_at(ts, 0) {
        Some((ps, e)) => if e == ts.len() {
            ps
        } else {
            seq![PartView::Unsupported]
        },
        None => seq![PartView::Unsupported],
    }
}

proof fn lemma_steps_end(ts: Seq<Tok>, i: int)
    ensures
        steps_from(ts, i).1 >= i,
    decreases ts.len() - i,
{
    if 0 <= i < ts.len() {
        if let Some((c, t, k)) = step_at(ts, i) {
            if i < k <= ts.len() {
                lemma_steps_end(ts, k);
            }
        }
    }
}

proof fn lemma_close_bracket(ts: Seq<Tok>, j: int)
    ensures
        close_bracket(ts, j) matches Some(k) ==> j <= k,
    decreases ts.len() - j,
{
    if !(j < 0 || j >= ts.len()) && ts[j] != "]"@ {
        lemma_close_bracket(ts, j + 1);
    }
}

/// A selector, when there is one, is not empty.
pub proof fn lemma_selector_end(ts: Seq<Tok>, i: int)
    ensures
        selector_at(ts, i) matches Some((ps, e)) ==> i < e,
{
    lemma_close_bracket(ts, i + 1);
    if let Some((h, j)) = tag_at(ts, i) {
        lemma_steps_end(ts, j);
    }
}

pub(crate) fn is_ident_token(t: &Vec<char>) -> (r: bool)
    ensures
        r == is_ident_tok(t@),
{
    if t.len() == 0 {
        return false;
    }
    let c = t[0];
    ('a' <= c && c <= 'z') || ('A' <= c && c <= 'Z') || ('0' <= c && c <= '9') || c == '-'
}

fn tag_toks(ts: &[Vec<char>], i: usize) -> (r: Option<(SelectorPart, usize)>)
    ensures
        match tag_at(toks_view(ts@), i as int) {
            Some((p, k)) => r matches Some((q, k2)) && q@ == p && k2 == k && i < k <= ts.len(),
            None => r is None,
        },
{
    let ghost tv = toks_view(ts@);
    proof {
        assert forall|j: int| 0 <= j < ts.len() implies tv[j] == (#[trigger] ts@[j])@ by {}
    }
    if i >= ts.len() {
        return None;
    }
    let t = ts[i].as_slice();
    if lit_eq(t, "*") {
        return Some((SelectorPart::Combinator(Combinator::Universal), i + 1));
    }
    if lit_eq(t, "#") {
        if i + 1 < ts.len() && is_ident_token(&ts[i + 1]) {
            let s = string_of(ts[i + 1].as_slice());
            return Some((SelectorPart::Component(Component::Identifier(s)), i + 2));
        }
        return None;
    }
    if lit_eq(t, ".") {
        if i + 1 < ts.len() && is_ident_token(&ts[i + 1]) {
            let s = string_of(ts[i + 1].as_slice());
            return Some((SelectorPart::Component(Component::ClassName(s)), i + 2));
        }
        return None;
    }
    if is_ident_token(&ts[i]) {
        let s = string_of(t);
        return Some((SelectorPart::Component(Component::LocalName(s)), i + 1));
    }
    if lit_eq(t, "[") {
        let mut j = i + 1;
        while j < ts.len() && !lit_eq(ts[j].as_slice(), "]")
            invariant
                i + 1 <= j <= ts.len(),
                tv == toks_view(ts@),
                forall|m: int| 0 <= m < ts.len() ==> tv[m] == (#[trigger] ts@[m])@,
                close_bracket(tv, i + 1) == close_bracket(tv, j as int),
            decreases ts.len() - j,
        {
            j = j + 1;
        }
        if j < ts.len() && j > i + 1 {
            return Some((SelectorPart::Component(Component::Unsupported), j + 1));
        }
        return None;
    }
    if lit_eq(t, ":") {
        if i + 1 < ts.len() && lit_eq(ts[i + 1].as_slice(), ":") {
            if i + 2 < ts.len() && is_ident_token(&ts[i + 2]) {
                return Some((SelectorPart::Component(Component::Unsupported), i + 3));
            }
            return None;
        }
        if i + 1 < ts.len() && is_ident_token(&ts[i + 1]) {
            return Some((SelectorPart::Component(Component::Unsupported), i + 2));
        }
        return None;
    }
    None
}

fn comb_toks(ts: &[Vec<char>], i: usize) -> (r: Option<SelectorPart>)
    ensures
        match comb_at(toks_view(ts@), i as int) {
            Some(p) => r matches Some(q) && q@ == p,
            None => r is None,
        },
{
    if i >= ts.len() {
        return None;
    }
    proof {
        assert(toks_view(ts@)[i as int] == ts@[i as int]@);
    }
    let t = ts[i].as_slice();
    if lit_eq(t, ">") {
        Some(SelectorPart::Combinator(Combinator::Parent))
    } else if t.len() == 1 && t[0] == ' ' {
        proof {
            assert(t@ =~= seq![' ']);
        }
        Some(SelectorPart::Combinator(Combinator::Ancestor))
    } else if lit_eq(t, ",") {
        proof {
            if t.len() == 1 {
                assert(t@ =~= seq![t@[0]]);
            }
            assert(t@ != seq![' ']);
        }
        Some(SelectorPart::Combinator(Combinator::Or))
    } else if lit_eq(t, "+") || lit_eq(t, "~") {
        proof {
            if t.len() == 1 {
                assert(t@ =~= seq![t@[0]]);
            }
        }
        Some(SelectorPart::Component(Component::Unsupported))
    } else {
        proof {
            if t.len() == 1 {
                assert(t@ =~= seq![t@[0]]);
            }
        }
        None
    }
}

pub open spec fn steps_view(v: Seq<(Option<SelectorPart>, SelectorPart)>) -> Seq<
    (Option<PartView>, PartView),
> {
    v.map_values(
        |s: (Option<SelectorPart>, SelectorPart)|
            (
                match s.0 {
                    Some(c) => Some(c@),
                    None => None,
                },
                s.1@,
            ),
    )
}

/// Parses a selector at `i`; the parts come subject first.
pub fn selector_toks(ts: &[Vec<char>], i: usize) -> (r: Option<(Vec<SelectorPart>, usize)>)
    ensures
        match selector_at(toks_view(ts@), i as int) {
            Some((ps, e)) => r matches Some((v, e2)) && parts_view(v@) == ps && e2 == e && e
                <= ts.len(),
            None => r is None,
        },
{
    let ghost tv = toks_view(ts@);
    let (head, j) = match tag_toks(ts, i) {
        Some(x) => x,
        None => {
            return None;
        },
    };
    let mut steps: Vec<(Option<SelectorPart>, SelectorPart)> = Vec::new();
    let mut k = j;
    proof {
        assert(steps_view(steps@) =~= seq![]);
    }
    loop
        invariant
            j <= k <= ts.len(),
            tv == toks_view(ts@),
            steps_from(tv, j as int) == (
                steps_view(steps@) + steps_from(tv, k as int).0,
                steps_from(tv, k as int).1,
            ),
        ensures
            j <= k <= ts.len(),
            steps_from(tv, j as int) == (steps_view(steps@), k as int),
        decreases ts.len() - k,
    {
        if k >= ts.len() {
            proof {
                assert(steps_view(steps@) + seq![] =~= steps_view(steps@));
            }
            break;
        }
        let step = match comb_toks(ts, k) {
            Some(c) => match tag_toks(ts, k + 1) {
                Some((t, k2)) => Some((Some(c), t, k2)),
                None => None,
            },
            None => match tag_toks(ts, k) {
                Some((t, k2)) => Some((None, t, k2)),
                None => None,
            },
        };
        match step {
            Some((c, t, k2)) => {
                let ghost before = steps@;
                steps.push((c, t));
                proof {
                    assert(steps_view(steps@) =~= steps_view(before) + seq![
                        steps_view(steps@).last(),
                    ]);
                }
                k = k2;
            },
            None => {
                proof {
                    assert(step_at(tv, k as int) is None);
                    assert(steps_view(steps@) + seq![] =~= steps_view(steps@));
                }
                break;
            },
        }
    }
    let ghost all = steps_view(steps@);
    let mut parts: Vec<SelectorPart> = Vec::new();
    proof {
        assert(parts_view(parts@) + reversed_steps(all) =~= reversed_steps(all));
    }
    while steps.len() > 0
        invariant
            parts_view(parts@) + reversed_steps(steps_view(steps@)) == reversed_steps(all),
        decreases steps.len(),
    {
        let ghost before = steps@;
        let (c, t) = steps.pop().unwrap();
        proof {
            assert(before.drop_last() == steps@);
            assert(steps_view(before).drop_last() =~= steps_view(steps@));
            assert(steps_view(before).last() == steps_view(before)[before.len() - 1]);
        }
        let ghost earlier = parts@;
        parts.push(t);
        match c {
            Some(cv) => {
                parts.push(cv);
            },
            None => {},
        }
        proof {
            let (sc, st) = steps_view(before).last();
            let mid = seq![st] + (match sc {
                Some(x) => seq![x],
                None => seq![],
            });
            assert(parts_view(parts@) =~= parts_view(earlier) + mid);
            assert(reversed_steps(steps_view(before)) == mid + reversed_steps(steps_view(steps@)));
            assert(parts_view(parts@) + reversed_steps(steps_view(steps@)) =~= parts_view(earlier)
                + reversed_steps(steps_view(before)));
        }
    }
    let ghost body = parts@;
    parts.push(head);
    proof {
        assert(steps_view(steps@) =~= seq![]);
        assert(parts_view(parts@) =~= parts_view(body) + seq![head@]);
    }
    Some((parts, k))
}

/// A selector: its parts, subject first, with `Or` between alternatives.
#[derive(Debug, PartialEq)]
pub struct Selector {
    parts: Vec<SelectorPart>,
}

impl View for Selector {
    type V = Seq<PartView>;

    closed spec fn view(&self) -> Seq<PartView> {
        parts_view(self.parts@)
    }
}

impl Selector {
    pub fn parts(&self) -> (r: &Vec<SelectorPart>)
        ensures
            parts_view(r@) == self@,
    {
        &self.parts
    }

    pub fn from_parts(parts: Vec<SelectorPart>) -> (r: Selector)
        ensures
            r@ == parts_view(parts@),
    {
        Selector { parts }
    }

    /// The selector the tokens write; one unsupported part where they do
    /// not form a selector.
    pub fn from_tokens(ts: &[Vec<char>]) -> (r: Selector)
        ensures
            r@ == selector_of(toks_view(ts@)),
    {
        match selector_toks(ts, 0) {
            Some((parts, e)) => {
                if e == ts.len() {
                    return Selector { parts };
                }
            },
            None => {},
        }
        let mut parts: Vec<SelectorPart> = Vec::new();
        parts.push(SelectorPart::Component(Component::Unsupported));
        proof {
            assert(parts_view(parts@) =~= seq![PartView::Unsupported]);
        }
        Selector { parts }
    }

    /// Tokenizes `text` and reads the selector it writes.
    pub fn parse(text: &str) -> (r: Selector)
        ensures
            r@ == selector_of(tokens_of(text@)),
    {
        let cs = chars_of(text);
        let ts = tokenize_chars(&cs);
        Selector::from_tokens(ts.as_slice())
    }
}

proof fn lemma_close_bracket_shift(p: Seq<Tok>, ts: Seq<Tok>, j: int)
    requires
        0 <= j,
    ensures
        close_bracket(p + ts, p.len() + j) == match close_bracket(ts, j) {
            Some(k) => Some(k + p.len()),
            None => None,
        },
    decreases ts.len() - j,
{
    if j < ts.len() {
        assert((p + ts)[p.len() + j] == ts[j]);
        lemma_close_bracket_shift(p, ts, j + 1);
    }
}

/// Reading a selector at a position depends only on the tokens from there
/// on.
pub proof fn lemma_selector_shift(p: Seq<Tok>, ts: Seq<Tok>, i: int)
    requires
        0 <= i,
    ensures
        selector_at(p + ts, p.len() + i) == match selector_at(ts, i) {
            Some((ps, e)) => Some((ps, e + p.len())),
            None => None,
        },
{
    lemma_tag_shift(p, ts, i);
    if let Some((h, j)) = tag_at(ts, i) {
        lemma_steps_shift(p, ts, j);
    }
}

proof fn lemma_tag_shift(p: Seq<Tok>, ts: Seq<Tok>, i: int)
    requires
        0 <= i,
    ensures
        tag_at(p + ts, p.len() + i) == match tag_at(ts, i) {
            Some((t, e)) => Some((t, e + p.len())),
            None => None,
        },
{
    let t = p + ts;
    let o = p.len() as int;
    if i < ts.len() {
        assert(t[o + i] == ts[i]);
    }
    if i + 1 < ts.len() {
        assert(t[o + i + 1] == ts[i + 1]);
    }
    if i + 2 < ts.len() {
        assert(t[o + i + 2] == ts[i + 2]);
    }
    lemma_close_bracket_shift(p, ts, i + 1);
}

proof fn lemma_steps_shift(p: Seq<Tok>, ts: Seq<Tok>, i: int)
    requires
        0 <= i,
    ensures
        steps_from(p + ts, p.len() + i) == (steps_from(ts, i).0, steps_from(ts, i).1 + p.len()),
    decreases ts.len() - i,
{
    let t = p + ts;
    let o = p.len() as int;
    if i < ts.len() {
        assert(t[o + i] == ts[i]);
        lemma_tag_shift(p, ts, i);
        lemma_tag_shift(p, ts, i + 1);
        match step_at(ts, i) {
            Some((c, tg, k)) => {
                if i < k <= ts.len() {
                    lemma_steps_shift(p, ts, k);
                }
            },
            None => {},
        }
    }
}

proof fn lemma_close_bracket_prefix(a: Seq<Tok>, b: Seq<Tok>, j: int)
    requires
        0 <= j,
        close_bracket(a, j) is Some,
    ensures
        close_bracket(a + b, j) == close_bracket(a, j),
    decreases a.len() - j,
{
    if j < a.len() {
        assert((a + b)[j] == a[j]);
        if a[j] != "]"@ {
            lemma_close_bracket_prefix(a, b, j + 1);
        }
    }
}

proof fn lemma_tag_prefix(a: Seq<Tok>, b: Seq<Tok>, i: int)
    requires
        0 <= i,
        tag_at(a, i) is Some,
    ensures
        tag_at(a + b, i) == tag_at(a, i),
        (tag_at(a, i)->0).1 <= a.len(),
{
    let t = a + b;
    assert(t[i] == a[i]);
    if i + 1 < a.len() {
        assert(t[i + 1] == a[i + 1]);
    }
    if i + 2 < a.len() {
        assert(t[i + 2] == a[i + 2]);
    }
    lemma_close_bracket(a, i + 1);
    if a[i] == "["@ && !(a[i] == "*"@ || a[i] == "#"@ || a[i] == "."@ || is_ident_tok(a[i])) {
        lemma_close_bracket_prefix(a, b, i + 1);
        lemma_close_bracket_in(a, i + 1);
    }
}

proof fn lemma_close_bracket_in(ts: Seq<Tok>, j: int)
    ensures
        close_bracket(ts, j) matches Some(k) ==> k < ts.len(),
    decreases ts.len() - j,
{
    if !(j < 0 || j >= ts.len()) && ts[j] != "]"@ {
        lemma_close_bracket_in(ts, j + 1);
    }
}

/// `{` neither starts a simple selector nor is a combinator.
proof fn lemma_brace_stops(ts: Seq<Tok>, i: int)
    requires
        0 <= i < ts.len(),
        ts[i] == "{"@,
    ensures
        tag_at(ts, i) is None,
        comb_at(ts, i) is None,
{
    reveal_strlit("{");
    reveal_strlit("*");
    reveal_strlit("#");
    reveal_strlit(".");
    reveal_strlit("[");
    reveal_strlit(":");
    reveal_strlit(">");
    reveal_strlit(",");
    reveal_strlit("+");
    reveal_strlit("~");
    let c = "{"@[0];
    assert(c != "*"@[0] && c != "#"@[0] && c != "."@[0] && c != "["@[0] && c != ":"@[0]);
    assert(c != ">"@[0] && c != ","@[0] && c != "+"@[0] && c != "~"@[0] && c != ' ');
    assert(ts[i] != seq![' ']) by {
        assert(seq![' '][0] != ts[i][0]);
    }
}

proof fn lemma_steps_prefix(a: Seq<Tok>, b: Seq<Tok>, i: int)
    requires
        0 <= i,
        steps_from(a, i).1 < a.len(),
        a[steps_from(a, i).1] == "{"@,
    ensures
        steps_from(a + b, i) == steps_from(a, i),
    decreases a.len() - i,
{
    let t = a + b;
    lemma_steps_end(a, i);
    if i < a.len() {
        assert(t[i] == a[i]);
        match step_at(a, i) {
            Some((c, tg, k)) => {
                if comb_at(a, i) is Some {
                    lemma_tag_prefix(a, b, i + 1);
                } else {
                    lemma_tag_prefix(a, b, i);
                }
                assert(step_at(t, i) == step_at(a, i));
                if i < k <= a.len() {
                    lemma_steps_end(a, k);
                    lemma_steps_prefix(a, b, k);
                } else {
                    assert(false);
                }
            },
            None => {
                lemma_brace_stops(a, i);
                lemma_brace_stops(t, i);
            },
        }
    }
}

/// A selector read within `a`, up to a `{` in `a`, reads the same when
/// more tokens follow.
pub proof fn lemma_selector_prefix(a: Seq<Tok>, b: Seq<Tok>, i: int)
    requires
        0 <= i,
        selector_at(a, i) matches Some((ps, e)) && e < a.len() && a[e] == "{"@,
    ensures
        selector_at(a + b, i) == selector_at(a, i),
{
    lemma_tag_prefix(a, b, i);
    let j = (tag_at(a, i)->0).1;
    lemma_steps_prefix(a, b, j);
}

pub open spec fn opt_part(c: Option<PartView>) -> Seq<PartView> {
    match c {
        Some(x) => seq![x],
        None => seq![],
    }
}

/// The steps in source order: each combinator, then its simple selector.
pub open spec fn forward_steps(steps: Seq<(Option<PartView>, PartView)>) -> Seq<PartView>
    decreases steps.len(),
{
    if steps.len() == 0 {
        seq![]
    } else {
        forward_steps(steps.drop_last()) + opt_part(steps.last().0) + seq![steps.last().1]
    }
}

proof fn lemma_reversed_steps(steps: Seq<(Option<PartView>, PartView)>)
    ensures
        reversed_steps(steps) == forward_steps(steps).reverse(),
    decreases steps.len(),
{
    if steps.len() > 0 {
        lemma_reversed_steps(steps.drop_last());
        let f = forward_steps(steps.drop_last());
        let o = opt_part(steps.last().0);
        let t = seq![steps.last().1];
        assert(o.reverse() =~= o);
        assert((f + o + t).reverse() =~= t + o + f.reverse());
    }
}

/// A selector's parts are the parts of its text exactly reversed: the
/// first simple selector, then each combinator and simple selector in
/// source order, read back to front. None is added or dropped.
pub proof fn law_selector_reverses(ts: Seq<Tok>, i: int)
    requires
        selector_at(ts, i) is Some,
    ensures
        ({
            let (h, j) = tag_at(ts, i)->0;
            (selector_at(ts, i)->0).0 == (seq![h] + forward_steps(steps_from(ts, j).0)).reverse()
        }),
{
    let (h, j) = tag_at(ts, i)->0;
    let f = forward_steps(steps_from(ts, j).0);
    lemma_reversed_steps(steps_from(ts, j).0);
    assert((seq![h] + f).reverse() =~= f.reverse() + seq![h]);
}

} // verus!
