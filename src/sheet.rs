//! Stylesheets: rules in source order. Parsing never fails: an at-rule is
//! skipped whole, up to its `;` or to the `}` that balances its block, and
//! anything else that is not a rule is skipped up to and including the
//! next `}`.
use crate::props::PropView;
use crate::selector::{is_ident_tok, is_ident_token, selector_at, selector_toks, tag_at, PartView, Selector};
use crate::style::{keys_unique, resolve, with_props, Style};
use crate::text::{chars_of, lit_eq};
use crate::tokenizer::{tokenize_chars, tokens_of, toks_view, Tok};
use vstd::prelude::*;

verus! {

/// Length of the run of tokens from `k` that are neither `;` nor `}`.
pub open spec fn value_run(ts: Seq<Tok>, k: int) -> nat
    decreases ts.len() - k,
{
    if 0 <= k < ts.len() && ts[k] != ";"@ && ts[k] != "}"@ {
        1 + value_run(ts, k + 1)
    } else {
        0
    }
}

/// Length of the run of `;` tokens from `k`.
pub open spec fn semis(ts: Seq<Tok>, k: int) -> nat
    decreases ts.len() - k,
{
    if 0 <= k < ts.len() && ts[k] == ";"@ {
        1 + semis(ts, k + 1)
    } else {
        0
    }
}

/// A declaration at `i`: a name, `:`, one or more value tokens up to `;`
/// or `}`, and any number of `;`. Gives the name, the value and the end.
pub open spec fn decl_at(ts: Seq<Tok>, i: int) -> Option<(Tok, Seq<Tok>, int)> {
    if 0 <= i && i + 1 < ts.len() && is_ident_tok(ts[i]) && ts[i + 1] == ":"@ && value_run(
        ts,
        i + 2,
    ) >= 1 {
        let e = i + 2 + value_run(ts, i + 2);
        Some((ts[i], ts.subrange(i + 2, e), e + semis(ts, e)))
    } else {
        None
    }
}

/// The declarations from `i` on, as many as can be read, and where they
/// end.
pub open spec fn decls_from(ts: Seq<Tok>, i: int) -> (Seq<(Tok, Seq<Tok>)>, int)
    decreases ts.len() - i,
{
    if i < 0 || i >= ts.len() {
        (seq![], i)
    } else {
        match decl_at(ts, i) {
            Some((n, v, e)) => if i < e <= ts.len() {
                let (rest, end) = decls_from(ts, e);
                (seq![(n, v)] + rest, end)
            } else {
                (seq![], i)
            },
            None => (seq![], i),
        }
    }
}

/// The properties of `ps` after the declarations, in order.
pub open spec fn apply_decls(ps: Seq<PropView>, ds: Seq<(Tok, Seq<Tok>)>) -> Seq<PropView>
    decreases ds.len(),
{
    if ds.len() == 0 {
        ps
    } else {
        apply_decls(with_props(ps, resolve(ds[0].0, ds[0].1)), ds.drop_first())
    }
}

/// A rule as the contracts see it.
pub struct RuleView {
    pub selector: Seq<PartView>,
    pub style: Seq<PropView>,
}

/// A rule at `i`: a selector, `{`, declarations, `}`.
pub open spec fn rule_at(ts: Seq<Tok>, i: int) -> Option<(RuleView, int)> {
    match selector_at(ts, i) {
        Some((sel, j)) => if 0 <= j < ts.len() && ts[j] == "{"@ {
            let (ds, k) = decls_from(ts, j + 1);
            if 0 <= k < ts.len() && ts[k] == "}"@ {
                Some((RuleView { selector: sel, style: apply_decls(seq![], ds) }, k + 1))
            } else {
                None
            }
        } else {
            None
        },
        None => None,
    }
}

/// The first position at or after `k` that holds `;` or `{`: where the
/// prelude of an at-rule ends.
pub open spec fn prelude_end(ts: Seq<Tok>, k: int) -> Option<int>
    decreases ts.len() - k,
{
    if k < 0 || k >= ts.len() {
        None
    } else if ts[k] == ";"@ || ts[k] == "{"@ {
        Some(k)
    } else {
        prelude_end(ts, k + 1)
    }
}

/// Just past the `}` that closes a block open to depth `d` at `k`, braces
/// counted; none where the tokens end first.
pub open spec fn block_end(ts: Seq<Tok>, k: int, d: nat) -> Option<int>
    decreases ts.len() - k,
{
    if k < 0 || k >= ts.len() {
        None
    } else if ts[k] == "{"@ {
        block_end(ts, k + 1, d + 1)
    } else if ts[k] == "}"@ {
        if d <= 1 {
            Some(k + 1)
        } else {
            block_end(ts, k + 1, (d - 1) as nat)
        }
    } else {
        block_end(ts, k + 1, d)
    }
}

/// Where an at-rule at `i` closes: just past the `;` that ends its
/// prelude, or past the `}` that balances the `{` that ends it.
pub open spec fn at_rule_close(ts: Seq<Tok>, i: int) -> Option<int> {
    match prelude_end(ts, i + 1) {
        Some(k) => if ts[k] == ";"@ {
            Some(k + 1)
        } else {
            block_end(ts, k + 1, 1)
        },
        None => None,
    }
}

/// Where an at-rule at `i` ends: where it closes, or at the end of the
/// tokens.
pub open spec fn at_rule_end(ts: Seq<Tok>, i: int) -> int {
    match at_rule_close(ts, i) {
        Some(e) => e,
        None => ts.len() as int,
    }
}

/// The first position at or after `j` that holds `}`.
pub open spec fn next_close(ts: Seq<Tok>, j: int) -> Option<int>
    decreases ts.len() - j,
{
    if j < 0 || j >= ts.len() {
        None
    } else if ts[j] == "}"@ {
        Some(j)
    } else {
        next_close(ts, j + 1)
    }
}

/// Where a block that is skipped from `i` ends: just past the next `}`, or
/// at the end of the tokens.
pub open spec fn skip_end(ts: Seq<Tok>, i: int) -> int {
    match next_close(ts, i) {
        Some(k) => k + 1,
        None => ts.len() as int,
    }
}

/// The rules from `i` on: a rule is kept, an at-rule (`@media` too) is
/// skipped whole, and anything else is skipped up to the next `}`.
pub open spec fn rules_from(ts: Seq<Tok>, i: int) -> Seq<RuleView>
    decreases ts.len() - i,
{
    if i < 0 || i >= ts.len() {
        seq![]
    } else {
        match rule_at(ts, i) {
            Some((r, e)) => if i < e <= ts.len() {
                seq![r] + rules_from(ts, e)
            } else {
                seq![]
            },
            None => if ts[i] == "@"@ {
                if i < at_rule_end(ts, i) <= ts.len() {
                    rules_from(ts, at_rule_end(ts, i))
                } else {
                    seq![]
                }
            } else if i < skip_end(ts, i) <= ts.len() {
                rules_from(ts, skip_end(ts, i))
            } else {
                seq![]
            },
        }
    }
}

/// The rules of a stylesheet.
pub open spec fn sheet_of(ts: Seq<Tok>) -> Seq<RuleView> {
    rules_from(ts, 0)
}

/// The parse never stops early: a well-formed rule at `i` is kept, in
/// place; an at-rule is skipped to its `;` or to the `}` that balances its
/// block; anything else that is not a rule is skipped to the next `}`.
/// Reading then goes on from there, so no rule after it is lost.
pub proof fn law_forgiving(ts: Seq<Tok>, i: int)
    requires
        0 <= i < ts.len(),
    ensures
        match rule_at(ts, i) {
            Some((r, e)) => rules_from(ts, i) == seq![r] + rules_from(ts, e),
            None => if ts[i] == "@"@ {
                rules_from(ts, i) == rules_from(ts, at_rule_end(ts, i))
            } else {
                rules_from(ts, i) == rules_from(ts, skip_end(ts, i))
            },
        },
{
    lemma_rule_end(ts, i);
    lemma_at_rule_end(ts, i);
    lemma_skip_end(ts, i);
}

proof fn lemma_decls_end(ts: Seq<Tok>, i: int)
    ensures
        decls_from(ts, i).1 >= i,
    decreases ts.len() - i,
{
    if 0 <= i < ts.len() {
        if let Some((n, v, e)) = decl_at(ts, i) {
            if i < e <= ts.len() {
                lemma_decls_end(ts, e);
            }
        }
    }
}

proof fn lemma_rule_end(ts: Seq<Tok>, i: int)
    ensures
        rule_at(ts, i) matches Some((r, e)) ==> i < e <= ts.len(),
{
    if let Some((sel, j)) = selector_at(ts, i) {
        crate::selector::lemma_selector_end(ts, i);
        lemma_decls_end(ts, j + 1);
    }
}

proof fn lemma_prelude_end(ts: Seq<Tok>, k: int)
    ensures
        prelude_end(ts, k) matches Some(m) ==> k <= m < ts.len(),
    decreases ts.len() - k,
{
    if !(k < 0 || k >= ts.len()) && !(ts[k] == ";"@ || ts[k] == "{"@) {
        lemma_prelude_end(ts, k + 1);
    }
}

proof fn lemma_block_end(ts: Seq<Tok>, k: int, d: nat)
    ensures
        block_end(ts, k, d) matches Some(e) ==> k < e <= ts.len(),
    decreases ts.len() - k,
{
    if !(k < 0 || k >= ts.len()) {
        if ts[k] == "{"@ {
            lemma_block_end(ts, k + 1, d + 1);
        } else if ts[k] == "}"@ {
            if d > 1 {
                lemma_block_end(ts, k + 1, (d - 1) as nat);
            }
        } else {
            lemma_block_end(ts, k + 1, d);
        }
    }
}

proof fn lemma_at_rule_end(ts: Seq<Tok>, i: int)
    requires
        0 <= i < ts.len(),
    ensures
        i < at_rule_end(ts, i) <= ts.len(),
{
    lemma_prelude_end(ts, i + 1);
    if let Some(k) = prelude_end(ts, i + 1) {
        lemma_block_end(ts, k + 1, 1);
    }
}

proof fn lemma_next_close(ts: Seq<Tok>, j: int)
    ensures
        next_close(ts, j) matches Some(k) ==> j <= k < ts.len(),
    decreases ts.len() - j,
{
    if !(j < 0 || j >= ts.len()) && ts[j] != "}"@ {
        lemma_next_close(ts, j + 1);
    }
}

proof fn lemma_skip_end(ts: Seq<Tok>, i: int)
    requires
        0 <= i < ts.len(),
    ensures
        i < skip_end(ts, i) <= ts.len(),
{
    lemma_next_close(ts, i);
}

fn tok_is(ts: &[Vec<char>], i: usize, lit: &str) -> (r: bool)
    ensures
        r == (i < ts.len() && toks_view(ts@)[i as int] == lit@),
{
    if i < ts.len() {
        proof {
            assert(toks_view(ts@)[i as int] == ts@[i as int]@);
        }
        lit_eq(ts[i].as_slice(), lit)
    } else {
        false
    }
}

fn value_run_len(ts: &[Vec<char>], k: usize) -> (r: usize)
    requires
        k <= ts.len(),
    ensures
        r == value_run(toks_view(ts@), k as int),
        k + r <= ts.len(),
{
    let mut j = k;
    while j < ts.len() && !tok_is(ts, j, ";") && !tok_is(ts, j, "}")
        invariant
            k <= j <= ts.len(),
            value_run(toks_view(ts@), k as int) == (j - k) + value_run(toks_view(ts@), j as int),
        decreases ts.len() - j,
    {
        j = j + 1;
    }
    j - k
}

fn semis_len(ts: &[Vec<char>], k: usize) -> (r: usize)
    requires
        k <= ts.len(),
    ensures
        r == semis(toks_view(ts@), k as int),
        k + r <= ts.len(),
{
    let mut j = k;
    while j < ts.len() && tok_is(ts, j, ";")
        invariant
            k <= j <= ts.len(),
            semis(toks_view(ts@), k as int) == (j - k) + semis(toks_view(ts@), j as int),
        decreases ts.len() - j,
    {
        j = j + 1;
    }
    j - k
}

/// Reads declarations from `i` into a new style; gives the style and
/// where the declarations end.
fn decls_toks(ts: &[Vec<char>], i: usize) -> (r: (Style, usize))
    requires
        i <= ts.len(),
    ensures
        r.0@ == apply_decls(seq![], decls_from(toks_view(ts@), i as int).0),
        r.1 == decls_from(toks_view(ts@), i as int).1,
        i <= r.1 <= ts.len(),
        keys_unique(r.0@),
{
    let ghost tv = toks_view(ts@);
    let mut style = Style::new();
    let mut k = i;
    proof {
        assert(keys_unique(style@));
    }
    loop
        invariant
            i <= k <= ts.len(),
            tv == toks_view(ts@),
            keys_unique(style@),
            apply_decls(style@, decls_from(tv, k as int).0) == apply_decls(
                seq![],
                decls_from(tv, i as int).0,
            ),
            decls_from(tv, k as int).1 == decls_from(tv, i as int).1,
        ensures
            i <= k <= ts.len(),
            keys_unique(style@),
            style@ == apply_decls(seq![], decls_from(tv, i as int).0),
            k == decls_from(tv, i as int).1,
        decreases ts.len() - k,
    {
        if k >= ts.len() || !is_ident_token(&ts[k]) || !tok_is(ts, k + 1, ":") {
            break;
        }
        let v = value_run_len(ts, k + 2);
        if v == 0 {
            break;
        }
        let e = k + 2 + v;
        let sc = semis_len(ts, e);
        proof {
            let ds = decls_from(tv, k as int);
            assert(ts@.subrange(k + 2, e as int).map_values(|t: Vec<char>| t@) =~= tv.subrange(
                k + 2,
                e as int,
            ));
            assert(ds.0 == seq![(tv[k as int], tv.subrange(k + 2, e as int))] + decls_from(
                tv,
                (e + sc) as int,
            ).0);
            assert(ds.0.drop_first() =~= decls_from(tv, (e + sc) as int).0);
            assert(tv[k as int] == ts@[k as int]@);
        }
        style.apply_declaration(ts[k].as_slice(), &ts[k + 2..e]);
        k = e + sc;
    }
    (style, k)
}

/// A rule: its selector and its style.
#[derive(Debug, PartialEq)]
pub struct Rule {
    selector: Selector,
    style: Style,
}

impl View for Rule {
    type V = RuleView;

    closed spec fn view(&self) -> RuleView {
        RuleView { selector: self.selector@, style: self.style@ }
    }
}

impl Rule {
    pub fn new(selector: Selector, style: Style) -> (r: Rule)
        ensures
            r@ == (RuleView { selector: selector@, style: style@ }),
    {
        Rule { selector, style }
    }

    pub fn selector(&self) -> (r: &Selector)
        ensures
            r@ == self@.selector,
    {
        &self.selector
    }

    pub fn style(&self) -> (r: &Style)
        ensures
            r@ == self@.style,
    {
        &self.style
    }
}

fn rule_toks(ts: &[Vec<char>], i: usize) -> (r: Option<(Rule, usize)>)
    ensures
        match rule_at(toks_view(ts@), i as int) {
            Some((rv, e)) => r matches Some((x, e2)) && x@ == rv && e2 == e && e <= ts.len(),
            None => r is None,
        },
{
    let ghost tv = toks_view(ts@);
    let (parts, j) = match selector_toks(ts, i) {
        Some(x) => x,
        None => {
            return None;
        },
    };
    if !tok_is(ts, j, "{") {
        return None;
    }
    let (style, k) = decls_toks(ts, j + 1);
    if !tok_is(ts, k, "}") {
        return None;
    }
    let selector = Selector::from_parts(parts);
    Some((Rule { selector, style }, k + 1))
}

fn at_rule_toks(ts: &[Vec<char>], i: usize) -> (r: usize)
    requires
        i < ts.len(),
    ensures
        r == at_rule_end(toks_view(ts@), i as int),
        i < r <= ts.len(),
{
    let ghost tv = toks_view(ts@);
    proof {
        lemma_at_rule_end(tv, i as int);
    }
    let mut k = i + 1;
    while k < ts.len() && !tok_is(ts, k, ";") && !tok_is(ts, k, "{")
        invariant
            i + 1 <= k <= ts.len(),
            prelude_end(tv, i + 1) == prelude_end(tv, k as int),
            tv == toks_view(ts@),
        decreases ts.len() - k,
    {
        k = k + 1;
    }
    if k >= ts.len() {
        return ts.len();
    }
    if tok_is(ts, k, ";") {
        return k + 1;
    }
    let mut j = k + 1;
    let mut d: usize = 1;
    while j < ts.len()
        invariant
            k + 1 <= j <= ts.len(),
            i < k < ts.len(),
            prelude_end(tv, i + 1) == Some(k as int),
            tv[k as int] != ";"@,
            1 <= d <= j - k,
            block_end(tv, k + 1, 1) == block_end(tv, j as int, d as nat),
            tv == toks_view(ts@),
        decreases ts.len() - j,
    {
        if tok_is(ts, j, "{") {
            d = d + 1;
        } else if tok_is(ts, j, "}") {
            if d <= 1 {
                return j + 1;
            }
            d = d - 1;
        }
        j = j + 1;
    }
    ts.len()
}

fn skip_toks(ts: &[Vec<char>], i: usize) -> (r: usize)
    requires
        i < ts.len(),
    ensures
        r == skip_end(toks_view(ts@), i as int),
        i < r <= ts.len(),
{
    let ghost tv = toks_view(ts@);
    let mut k = i;
    while k < ts.len() && !tok_is(ts, k, "}")
        invariant
            i <= k <= ts.len(),
            next_close(tv, i as int) == next_close(tv, k as int),
            tv == toks_view(ts@),
        decreases ts.len() - k,
    {
        k = k + 1;
    }
    if k < ts.len() {
        k + 1
    } else {
        k
    }
}

pub open spec fn rules_view(v: Seq<Rule>) -> Seq<RuleView> {
    v.map_values(|r: Rule| r@)
}

/// Rules in source order.
#[derive(Debug, PartialEq)]
pub struct StyleSheet {
    rules: Vec<Rule>,
}

impl View for StyleSheet {
    type V = Seq<RuleView>;

    closed spec fn view(&self) -> Seq<RuleView> {
        rules_view(self.rules@)
    }
}

impl StyleSheet {
    pub fn rules(&self) -> (r: &Vec<Rule>)
        ensures
            rules_view(r@) == self@,
    {
        &self.rules
    }

    /// The rules the tokens write.
    pub fn from_tokens(ts: &[Vec<char>]) -> (r: StyleSheet)
        ensures
            r@ == sheet_of(toks_view(ts@)),
    {
        let ghost tv = toks_view(ts@);
        let mut rules: Vec<Rule> = Vec::new();
        let mut i: usize = 0;
        while i < ts.len()
            invariant
                i <= ts.len(),
                tv == toks_view(ts@),
                sheet_of(tv) == rules_view(rules@) + rules_from(tv, i as int),
            decreases ts.len() - i,
        {
            proof {
                law_forgiving(tv, i as int);
            }
            match rule_toks(ts, i) {
                Some((r, e)) => {
                    let ghost before = rules@;
                    rules.push(r);
                    proof {
                        assert(rules_view(rules@) =~= rules_view(before) + seq![r@]);
                        assert(rules_from(tv, i as int) == seq![r@] + rules_from(tv, e as int));
                        assert(rules_view(before) + rules_from(tv, i as int) =~= rules_view(rules@)
                            + rules_from(tv, e as int));
                    }
                    i = e;
                },
                None => {
                    let e = if tok_is(ts, i, "@") {
                        at_rule_toks(ts, i)
                    } else {
                        skip_toks(ts, i)
                    };
                    proof {
                        assert(rules_from(tv, i as int) == rules_from(tv, e as int));
                    }
                    i = e;
                },
            }
        }
        proof {
            assert(rules_view(rules@) + rules_from(tv, i as int) =~= rules_view(rules@));
        }
        StyleSheet { rules }
    }

    /// Tokenizes `text` and reads its rules.
    pub fn parse(text: &str) -> (r: StyleSheet)
        ensures
            r@ == sheet_of(tokens_of(text@)),
    {
        let cs = chars_of(text);
        let ts = tokenize_chars(&cs);
        StyleSheet::from_tokens(ts.as_slice())
    }
}

impl Style {
    /// The style that the declarations in `text` give, read from its start
    /// for as long as declarations can be read.
    pub fn parse(text: &str) -> (r: Style)
        ensures
            r@ == apply_decls(seq![], decls_from(tokens_of(text@), 0).0),
            keys_unique(r@),
    {
        let cs = chars_of(text);
        let ts = tokenize_chars(&cs);
        let (style, _) = decls_toks(ts.as_slice(), 0);
        style
    }
}

proof fn lemma_value_run_bound(ts: Seq<Tok>, k: int)
    requires
        0 <= k,
    ensures
        k + value_run(ts, k) <= ts.len() || value_run(ts, k) == 0,
    decreases ts.len() - k,
{
    if 0 <= k < ts.len() && ts[k] != ";"@ && ts[k] != "}"@ {
        lemma_value_run_bound(ts, k + 1);
    }
}

proof fn lemma_value_run_shift(p: Seq<Tok>, ts: Seq<Tok>, k: int)
    requires
        0 <= k,
    ensures
        value_run(p + ts, p.len() + k) == value_run(ts, k),
        semis(p + ts, p.len() + k) == semis(ts, k),
    decreases ts.len() - k,
{
    if k < ts.len() {
        assert((p + ts)[p.len() + k] == ts[k]);
        lemma_value_run_shift(p, ts, k + 1);
    }
}

proof fn lemma_decls_shift(p: Seq<Tok>, ts: Seq<Tok>, i: int)
    requires
        0 <= i,
    ensures
        decls_from(p + ts, p.len() + i) == (decls_from(ts, i).0, decls_from(ts, i).1 + p.len()),
    decreases ts.len() - i,
{
    let t = p + ts;
    let o = p.len() as int;
    if i < ts.len() {
        assert(t[o + i] == ts[i]);
        if i + 1 < ts.len() {
            assert(t[o + i + 1] == ts[i + 1]);
        }
        lemma_value_run_shift(p, ts, i + 2);
        if let Some((n, v, e)) = decl_at(ts, i) {
            let ve = i + 2 + value_run(ts, i + 2);
            lemma_value_run_bound(ts, i + 2);
            lemma_value_run_shift(p, ts, ve);
            assert(t.subrange(o + i + 2, o + ve) =~= ts.subrange(i + 2, ve));
            if i < e <= ts.len() {
                lemma_decls_shift(p, ts, e);
            }
        }
    }
}

proof fn lemma_rule_shift(p: Seq<Tok>, ts: Seq<Tok>, i: int)
    requires
        0 <= i,
    ensures
        rule_at(p + ts, p.len() + i) == match rule_at(ts, i) {
            Some((r, e)) => Some((r, e + p.len())),
            None => None,
        },
{
    let t = p + ts;
    let o = p.len() as int;
    crate::selector::lemma_selector_shift(p, ts, i);
    match selector_at(ts, i) {
        None => {},
        Some((sel, j)) => {
            crate::selector::lemma_selector_end(ts, i);
            assert(selector_at(t, o + i) == Some((sel, j + o)));
            if 0 <= j < ts.len() {
                assert(t[o + j] == ts[j]);
                if ts[j] == "{"@ {
                    lemma_decls_shift(p, ts, j + 1);
                    lemma_decls_end(ts, j + 1);
                    let ds = decls_from(ts, j + 1).0;
                    let k = decls_from(ts, j + 1).1;
                    assert(decls_from(t, o + j + 1) == (ds, k + o));
                    if 0 <= k < ts.len() {
                        assert(t[o + k] == ts[k]);
                    }
                }
            }
        },
    }
}

proof fn lemma_close_shift(p: Seq<Tok>, ts: Seq<Tok>, j: int)
    requires
        0 <= j,
    ensures
        prelude_end(p + ts, p.len() + j) == match prelude_end(ts, j) {
            Some(k) => Some(k + p.len()),
            None => None,
        },
        next_close(p + ts, p.len() + j) == match next_close(ts, j) {
            Some(k) => Some(k + p.len()),
            None => None,
        },
    decreases ts.len() - j,
{
    if j < ts.len() {
        assert((p + ts)[p.len() + j] == ts[j]);
        lemma_close_shift(p, ts, j + 1);
    }
}

proof fn lemma_block_shift(p: Seq<Tok>, ts: Seq<Tok>, j: int, d: nat)
    requires
        0 <= j,
    ensures
        block_end(p + ts, p.len() + j, d) == match block_end(ts, j, d) {
            Some(k) => Some(k + p.len()),
            None => None,
        },
    decreases ts.len() - j,
{
    if j < ts.len() {
        assert((p + ts)[p.len() + j] == ts[j]);
        lemma_block_shift(p, ts, j + 1, d + 1);
        lemma_block_shift(p, ts, j + 1, d);
        if d > 1 {
            lemma_block_shift(p, ts, j + 1, (d - 1) as nat);
        }
    }
}

proof fn lemma_at_rule_shift(p: Seq<Tok>, ts: Seq<Tok>, i: int)
    requires
        0 <= i < ts.len(),
    ensures
        at_rule_end(p + ts, p.len() + i) == at_rule_end(ts, i) + p.len(),
{
    lemma_close_shift(p, ts, i + 1);
    lemma_prelude_end(ts, i + 1);
    if let Some(k) = prelude_end(ts, i + 1) {
        assert((p + ts)[p.len() + k] == ts[k]);
        lemma_block_shift(p, ts, k + 1, 1);
    }
}

/// The rules read from a position depend only on the tokens from there on.
proof fn lemma_rules_shift(p: Seq<Tok>, ts: Seq<Tok>, i: int)
    requires
        0 <= i,
    ensures
        rules_from(p + ts, p.len() + i) == rules_from(ts, i),
    decreases ts.len() - i,
{
    let t = p + ts;
    let o = p.len() as int;
    if i < ts.len() {
        assert(t[o + i] == ts[i]);
        if i + 1 < ts.len() {
            assert(t[o + i + 1] == ts[i + 1]);
        }
        lemma_rule_shift(p, ts, i);
        lemma_close_shift(p, ts, i);
        lemma_rule_end(ts, i);
        lemma_at_rule_end(ts, i);
        lemma_at_rule_shift(p, ts, i);
        lemma_skip_end(ts, i);
        match rule_at(ts, i) {
            Some((r, e)) => {
                lemma_rules_shift(p, ts, e);
            },
            None => if ts[i] == "@"@ {
                lemma_rules_shift(p, ts, at_rule_end(ts, i));
            } else {
                lemma_rules_shift(p, ts, skip_end(ts, i));
            },
        }
    }
}

/// A token that can begin a simple selector.
pub open spec fn starts_selector(t: Tok) -> bool {
    t == "*"@ || t == "#"@ || t == "."@ || t == "["@ || t == ":"@ || is_ident_tok(t)
}

/// A block that is not a rule (it starts with a token that can begin
/// neither a selector nor an at-rule) and ends at its first `}`, put in
/// front of any stylesheet, takes no rule away and adds none: the same
/// rules come out, in the same order.
pub proof fn law_skips_unknown_block(junk: Seq<Tok>, rest: Seq<Tok>)
    requires
        junk.len() >= 1,
        junk.last() == "}"@,
        forall|m: int| 0 <= m < junk.len() - 1 ==> junk[m] != "}"@,
        !starts_selector(junk[0]),
        junk[0] != "@"@,
    ensures
        sheet_of(junk + rest) == sheet_of(rest),
{
    let t = junk + rest;
    let n = junk.len() as int;
    assert(t[0] == junk[0]);
    assert(tag_at(t, 0) is None);
    assert(selector_at(t, 0) is None);
    assert(rule_at(t, 0) is None);
    lemma_next_close_at(t, 0, n - 1);
    assert(skip_end(t, 0) == n);
    lemma_rules_shift(junk, rest, 0);
}

proof fn lemma_prelude_prefix(a: Seq<Tok>, b: Seq<Tok>, k: int)
    requires
        0 <= k,
        prelude_end(a, k) is Some,
    ensures
        prelude_end(a + b, k) == prelude_end(a, k),
    decreases a.len() - k,
{
    if k < a.len() {
        assert((a + b)[k] == a[k]);
        if !(a[k] == ";"@ || a[k] == "{"@) {
            lemma_prelude_prefix(a, b, k + 1);
        }
    }
}

proof fn lemma_block_prefix(a: Seq<Tok>, b: Seq<Tok>, k: int, d: nat)
    requires
        0 <= k,
        block_end(a, k, d) is Some,
    ensures
        block_end(a + b, k, d) == block_end(a, k, d),
    decreases a.len() - k,
{
    if k < a.len() {
        assert((a + b)[k] == a[k]);
        if a[k] == "{"@ {
            lemma_block_prefix(a, b, k + 1, d + 1);
        } else if a[k] == "}"@ {
            if d > 1 {
                lemma_block_prefix(a, b, k + 1, (d - 1) as nat);
            }
        } else {
            lemma_block_prefix(a, b, k + 1, d);
        }
    }
}

/// An at-rule of any name, closed by a `;` or by the `}` that balances its
/// block, put in front of any stylesheet, takes no rule away and adds
/// none, whatever rules or blocks it holds inside: the same rules come out,
/// in the same order.
pub proof fn law_skips_at_rule(at_rule: Seq<Tok>, rest: Seq<Tok>)
    requires
        at_rule.len() >= 1,
        at_rule[0] == "@"@,
        at_rule_close(at_rule, 0) == Some(at_rule.len() as int),
    ensures
        sheet_of(at_rule + rest) == sheet_of(rest),
{
    let t = at_rule + rest;
    let n = at_rule.len() as int;
    assert(t[0] == at_rule[0]);
    reveal_strlit("@");
    reveal_strlit("*");
    reveal_strlit("#");
    reveal_strlit(".");
    reveal_strlit("[");
    reveal_strlit(":");
    assert("@"@[0] != "*"@[0] && "@"@[0] != "#"@[0] && "@"@[0] != "."@[0]);
    assert("@"@[0] != "["@[0] && "@"@[0] != ":"@[0]);
    assert(!is_ident_tok("@"@));
    assert(tag_at(t, 0) is None);
    assert(selector_at(t, 0) is None);
    assert(rule_at(t, 0) is None);
    lemma_prelude_end(at_rule, 1);
    lemma_prelude_prefix(at_rule, rest, 1);
    let k = prelude_end(at_rule, 1)->0;
    assert(t[k] == at_rule[k]);
    if at_rule[k] != ";"@ {
        lemma_block_prefix(at_rule, rest, k + 1, 1);
    }
    assert(at_rule_end(t, 0) == n);
    lemma_rules_shift(at_rule, rest, 0);
}

proof fn lemma_next_close_at(t: Seq<Tok>, j: int, k: int)
    requires
        0 <= j <= k < t.len(),
        t[k] == "}"@,
        forall|m: int| j <= m < k ==> t[m] != "}"@,
    ensures
        next_close(t, j) == Some(k),
    decreases k - j,
{
    if j < k {
        lemma_next_close_at(t, j + 1, k);
    }
}

proof fn lemma_runs_prefix(a: Seq<Tok>, b: Seq<Tok>, k: int)
    requires
        0 <= k,
    ensures
        k + value_run(a, k) < a.len() ==> value_run(a + b, k) == value_run(a, k),
        k + semis(a, k) < a.len() ==> semis(a + b, k) == semis(a, k),
    decreases a.len() - k,
{
    if k < a.len() {
        assert((a + b)[k] == a[k]);
        lemma_runs_prefix(a, b, k + 1);
    }
}

proof fn lemma_decls_prefix(a: Seq<Tok>, b: Seq<Tok>, i: int)
    requires
        0 <= i,
        decls_from(a, i).1 < a.len(),
        a[decls_from(a, i).1] == "}"@,
    ensures
        decls_from(a + b, i) == decls_from(a, i),
    decreases a.len() - i,
{
    let t = a + b;
    lemma_decls_end(a, i);
    if i < a.len() {
        assert(t[i] == a[i]);
        match decl_at(a, i) {
            Some((n, v, e)) => {
                let e0 = i + 2 + value_run(a, i + 2);
                lemma_value_run_bound(a, i + 2);
                if i < e <= a.len() {
                    lemma_decls_end(a, e);
                    assert(e < a.len());
                    lemma_runs_prefix(a, b, i + 2);
                    lemma_runs_prefix(a, b, e0);
                    assert(t[i + 1] == a[i + 1]);
                    assert(t.subrange(i + 2, e0) =~= a.subrange(i + 2, e0));
                    assert(decl_at(t, i) == decl_at(a, i));
                    lemma_decls_prefix(a, b, e);
                } else {
                    lemma_semis_bound(a, e0);
                }
            },
            None => {
                reveal_strlit("}");
                assert(!is_ident_tok(a[i]));
            },
        }
    }
}

proof fn lemma_semis_bound(ts: Seq<Tok>, k: int)
    requires
        0 <= k,
    ensures
        k + semis(ts, k) <= ts.len() || semis(ts, k) == 0,
    decreases ts.len() - k,
{
    if 0 <= k < ts.len() && ts[k] == ";"@ {
        lemma_semis_bound(ts, k + 1);
    }
}

/// A rule read within `a` reads the same when more tokens follow.
proof fn lemma_rule_prefix(a: Seq<Tok>, b: Seq<Tok>, i: int)
    requires
        0 <= i,
        rule_at(a, i) is Some,
    ensures
        rule_at(a + b, i) == rule_at(a, i),
{
    let t = a + b;
    let j = (selector_at(a, i)->0).1;
    crate::selector::lemma_selector_prefix(a, b, i);
    assert(t[j] == a[j]);
    lemma_decls_prefix(a, b, j + 1);
    let k = decls_from(a, j + 1).1;
    assert(t[k] == a[k]);
}

/// The tokens of one well-formed rule and nothing more.
pub open spec fn is_rule_text(w: Seq<Tok>) -> bool {
    rule_at(w, 0) matches Some((r, e)) && e == w.len()
}

/// Tokens that are skipped whole: an at-rule closed by `;` or by the `}`
/// that balances its block, or a block that starts with a token that can
/// begin neither a selector nor an at-rule and ends at its first `}`.
pub open spec fn is_skipped_text(j: Seq<Tok>) -> bool {
    j.len() >= 1 && ((j[0] == "@"@ && at_rule_close(j, 0) == Some(j.len() as int)) || (
    !starts_selector(j[0]) && j[0] != "@"@ && j.last() == "}"@ && forall|m: int|
        0 <= m < j.len() - 1 ==> j[m] != "}"@))
}

/// The rules a piece gives: its rule, or none.
pub open spec fn piece_rules(w: Seq<Tok>) -> Seq<RuleView> {
    if is_rule_text(w) {
        seq![(rule_at(w, 0)->0).0]
    } else {
        seq![]
    }
}

pub open spec fn join_tokens(ps: Seq<Seq<Tok>>) -> Seq<Tok>
    decreases ps.len(),
{
    if ps.len() == 0 {
        seq![]
    } else {
        ps[0] + join_tokens(ps.drop_first())
    }
}

pub open spec fn join_rules(ps: Seq<Seq<Tok>>) -> Seq<RuleView>
    decreases ps.len(),
{
    if ps.len() == 0 {
        seq![]
    } else {
        piece_rules(ps[0]) + join_rules(ps.drop_first())
    }
}

proof fn lemma_rule_piece(w: Seq<Tok>, rest: Seq<Tok>)
    requires
        is_rule_text(w),
    ensures
        sheet_of(w + rest) == piece_rules(w) + sheet_of(rest),
{
    let t = w + rest;
    lemma_rule_prefix(w, rest, 0);
    let r = (rule_at(w, 0)->0).0;
    assert(rule_at(t, 0) == Some((r, w.len() as int)));
    lemma_rules_shift(w, rest, 0);
    assert(rules_from(t, w.len() as int) == rules_from(rest, 0));
}

/// A sheet made of well-formed rules, at-rules and malformed blocks, in
/// any order, followed by anything, gives every well-formed rule, in
/// source order, and none from inside the skipped pieces.
#[verifier::rlimit(50)]
pub proof fn law_forgiving_sheet(pieces: Seq<Seq<Tok>>, rest: Seq<Tok>)
    requires
        forall|k: int|
            0 <= k < pieces.len() ==> is_rule_text(#[trigger] pieces[k]) || is_skipped_text(
                pieces[k],
            ),
    ensures
        sheet_of(join_tokens(pieces) + rest) == join_rules(pieces) + sheet_of(rest),
    decreases pieces.len(),
{
    if pieces.len() == 0 {
        assert(join_tokens(pieces) + rest =~= rest);
        assert(join_rules(pieces) + sheet_of(rest) =~= sheet_of(rest));
    } else {
        let w = pieces[0];
        let tail = pieces.drop_first();
        let r2 = join_tokens(tail) + rest;
        assert forall|k: int| 0 <= k < tail.len() implies is_rule_text(#[trigger] tail[k])
            || is_skipped_text(tail[k]) by {
            assert(tail[k] == pieces[k + 1]);
        }
        law_forgiving_sheet(tail, rest);
        assert(join_tokens(pieces) + rest =~= w + r2);
        if is_rule_text(w) {
            lemma_rule_piece(w, r2);
            assert(join_rules(pieces) == piece_rules(w) + join_rules(tail));
        } else if w[0] == "@"@ && at_rule_close(w, 0) == Some(w.len() as int) {
            law_skips_at_rule(w, r2);
            assert(join_rules(pieces) =~= join_rules(tail));
        } else {
            law_skips_unknown_block(w, r2);
            assert(join_rules(pieces) =~= join_rules(tail));
        }
        assert(join_rules(pieces) + sheet_of(rest) =~= piece_rules(w) + (join_rules(tail)
            + sheet_of(rest)));
    }
}

} // verus!
