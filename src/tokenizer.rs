//! Splits stylesheet text into tokens. Tokens carry no tag: parsers tell
//! them apart by their text. Comments are skipped, a run of whitespace
//! becomes one space token, and space tokens are then dropped except where
//! they separate two parts of a selector or of a multi-value property.
use crate::text::{chars_of, string_of};
use vstd::prelude::*;

verus! {

/// A token's text.
pub type Tok = Seq<char>;

pub open spec fn is_alnum(c: char) -> bool {
    ('a' <= c && c <= 'z') || ('A' <= c && c <= 'Z') || ('0' <= c && c <= '9')
}

pub open spec fn is_ident_char(c: char) -> bool {
    is_alnum(c) || c == '-'
}

pub open spec fn is_space(c: char) -> bool {
    c == ' ' || c == '\t' || c == '\r' || c == '\n'
}

pub open spec fn is_digit(c: char) -> bool {
    '0' <= c && c <= '9'
}

/// Classes of characters that form runs.
pub enum CharClass {
    Space,
    Alnum,
    Ident,
    /// Anything but the given quote.
    NotQuote(char),
}

pub open spec fn in_class(c: char, k: CharClass) -> bool {
    match k {
        CharClass::Space => is_space(c),
        CharClass::Alnum => is_alnum(c),
        CharClass::Ident => is_ident_char(c),
        CharClass::NotQuote(q) => c != q,
    }
}

/// Length of the run of characters of class `k` that starts at `i`.
pub open spec fn run(s: Seq<char>, i: int, k: CharClass) -> nat
    decreases s.len() - i,
{
    if 0 <= i < s.len() && in_class(s[i], k) {
        1 + run(s, i + 1, k)
    } else {
        0
    }
}

/// Length of the run of digits with at most one `.` that starts at `i`;
/// `dot` says whether a `.` was already taken.
pub open spec fn num_body(s: Seq<char>, i: int, dot: bool) -> nat
    decreases s.len() - i,
{
    if 0 <= i < s.len() && is_digit(s[i]) {
        1 + num_body(s, i + 1, dot)
    } else if 0 <= i < s.len() && s[i] == '.' && !dot {
        1 + num_body(s, i + 1, true)
    } else {
        0
    }
}

/// Length of a number at `i`: an optional `-`, then digits and at most one
/// `.`; zero where there is none.
pub open spec fn num_len(s: Seq<char>, i: int) -> nat {
    let j = if 0 <= i < s.len() && s[i] == '-' {
        i + 1
    } else {
        i
    };
    if num_body(s, j, false) > 0 {
        ((j - i) + num_body(s, j, false)) as nat
    } else {
        0
    }
}

/// Length of a string quoted by `q` at `i`, quotes included; zero where
/// there is none or it is not closed.
pub open spec fn quoted_len(s: Seq<char>, i: int, q: char) -> nat {
    if 0 <= i < s.len() && s[i] == q {
        let r = run(s, i + 1, CharClass::NotQuote(q));
        if i + 1 + r < s.len() {
            r + 2
        } else {
            0
        }
    } else {
        0
    }
}

/// The position just past the first `*/` at or after `k`.
pub open spec fn comment_close(s: Seq<char>, k: int) -> Option<int>
    decreases s.len() - k,
{
    if k < 0 || k + 1 >= s.len() {
        None
    } else if s[k] == '*' && s[k + 1] == '/' {
        Some(k + 2)
    } else {
        comment_close(s, k + 1)
    }
}

/// Where a comment that starts at `i` ends, if one does.
pub open spec fn comment_end(s: Seq<char>, i: int) -> Option<int> {
    if 0 <= i && i + 1 < s.len() && s[i] == '/' && s[i + 1] == '*' {
        comment_close(s, i + 2)
    } else {
        None
    }
}

/// Length of the token at `i`, trying in order: whitespace, an
/// alphanumeric run right after `#`, a number, an identifier, a quoted
/// string, and a single character.
pub open spec fn token_len(s: Seq<char>, i: int) -> nat {
    if run(s, i, CharClass::Space) > 0 {
        run(s, i, CharClass::Space)
    } else if i > 0 && s[i - 1] == '#' && run(s, i, CharClass::Alnum) > 0 {
        run(s, i, CharClass::Alnum)
    } else if num_len(s, i) > 0 {
        num_len(s, i)
    } else if run(s, i, CharClass::Ident) > 0 {
        run(s, i, CharClass::Ident)
    } else if quoted_len(s, i, '\'') > 0 {
        quoted_len(s, i, '\'')
    } else if quoted_len(s, i, '"') > 0 {
        quoted_len(s, i, '"')
    } else {
        1
    }
}

/// The tokens of `s` from position `i` on, before spaces are filtered.
pub open spec fn raw_tokens(s: Seq<char>, i: int) -> Seq<Tok>
    decreases s.len() - i,
{
    if i < 0 || i >= s.len() {
        seq![]
    } else if comment_end(s, i) is Some && i < comment_end(s, i)->0 <= s.len() {
        raw_tokens(s, comment_end(s, i)->0)
    } else if 0 < token_len(s, i) && i + token_len(s, i) <= s.len() {
        let l = token_len(s, i);
        let t = if is_space(s[i]) {
            seq![' ']
        } else {
            s.subrange(i, i + l)
        };
        seq![t] + raw_tokens(s, i + l)
    } else {
        // not reached: a token is never empty and never runs past the end
        seq![]
    }
}

/// A token that can end a selector part or a value.
pub open spec fn can_end(t: Tok) -> bool {
    t.len() > 0 && (is_ident_char(t[0]) || t == seq!['*'] || t == seq![']'])
}

/// A token that can start a selector part or a value.
pub open spec fn can_start(t: Tok) -> bool {
    t.len() > 0 && (is_ident_char(t[0]) || t == seq!['.'] || t == seq!['#'] || t == seq!['*'])
}

/// The first `n` raw tokens with spaces dropped, but for those between a
/// kept token that can end a part and a token that can start one.
pub open spec fn filter_spaces(raw: Seq<Tok>, n: int) -> Seq<Tok>
    decreases n,
{
    if n <= 0 || n > raw.len() {
        seq![]
    } else {
        let prev = filter_spaces(raw, n - 1);
        let t = raw[n - 1];
        if t == seq![' '] && !(prev.len() > 0 && can_end(prev.last()) && n < raw.len() && can_start(
            raw[n],
        )) {
            prev
        } else {
            prev.push(t)
        }
    }
}

/// The tokens of `s`.
pub open spec fn tokens_of(s: Seq<char>) -> Seq<Tok> {
    let raw = raw_tokens(s, 0);
    filter_spaces(raw, raw.len() as int)
}

pub open spec fn toks_view(v: Seq<Vec<char>>) -> Seq<Tok> {
    v.map_values(|t: Vec<char>| t@)
}

pub open spec fn strings_view(v: Seq<String>) -> Seq<Tok> {
    v.map_values(|t: String| t@)
}

fn class_has(c: char, k: &CharClass) -> (r: bool)
    ensures
        r == in_class(c, *k),
{
    match k {
        CharClass::Space => c == ' ' || c == '\t' || c == '\r' || c == '\n',
        CharClass::Alnum => ('a' <= c && c <= 'z') || ('A' <= c && c <= 'Z') || ('0' <= c && c
            <= '9'),
        CharClass::Ident => ('a' <= c && c <= 'z') || ('A' <= c && c <= 'Z') || ('0' <= c && c
            <= '9') || c == '-',
        CharClass::NotQuote(q) => c != *q,
    }
}

fn run_len(s: &Vec<char>, i: usize, k: CharClass) -> (r: usize)
    requires
        i <= s.len(),
    ensures
        r == run(s@, i as int, k),
        i + r <= s.len(),
{
    let mut j = i;
    while j < s.len() && class_has(s[j], &k)
        invariant
            i <= j <= s.len(),
            run(s@, i as int, k) == (j - i) + run(s@, j as int, k),
        decreases s.len() - j,
    {
        j = j + 1;
    }
    j - i
}

fn num_body_len(s: &Vec<char>, i: usize) -> (r: usize)
    requires
        i <= s.len(),
    ensures
        r == num_body(s@, i as int, false),
        i + r <= s.len(),
{
    let mut j = i;
    let mut dot = false;
    while j < s.len() && (('0' <= s[j] && s[j] <= '9') || (s[j] == '.' && !dot))
        invariant
            i <= j <= s.len(),
            num_body(s@, i as int, false) == (j - i) + num_body(s@, j as int, dot),
        decreases s.len() - j,
    {
        if s[j] == '.' && !('0' <= s[j] && s[j] <= '9') {
            dot = true;
        }
        j = j + 1;
    }
    j - i
}

fn number_len(s: &Vec<char>, i: usize) -> (r: usize)
    requires
        i < s.len(),
    ensures
        r == num_len(s@, i as int),
        i + r <= s.len(),
{
    let j = if s[i] == '-' {
        i + 1
    } else {
        i
    };
    let b = num_body_len(s, j);
    if b > 0 {
        (j - i) + b
    } else {
        0
    }
}

fn quoted(s: &Vec<char>, i: usize, q: char) -> (r: usize)
    requires
        i < s.len(),
    ensures
        r == quoted_len(s@, i as int, q),
        i + r <= s.len(),
{
    if s[i] == q {
        let r = run_len(s, i + 1, CharClass::NotQuote(q));
        if i + 1 + r < s.len() {
            r + 2
        } else {
            0
        }
    } else {
        0
    }
}

fn comment_end_at(s: &Vec<char>, i: usize) -> (r: Option<usize>)
    requires
        i < s.len(),
    ensures
        match comment_end(s@, i as int) {
            Some(e) => r == Some(e as usize) && i < e <= s.len(),
            None => r is None,
        },
{
    if i + 1 < s.len() && s[i] == '/' && s[i + 1] == '*' {
        let mut k = i + 2;
        while k < s.len() - 1 && !(s[k] == '*' && s[k + 1] == '/')
            invariant
                i + 2 <= k <= s.len(),
                comment_end(s@, i as int) == comment_close(s@, k as int),
            decreases s.len() - k,
        {
            k = k + 1;
        }
        if k < s.len() - 1 {
            Some(k + 2)
        } else {
            None
        }
    } else {
        None
    }
}

fn token_length(s: &Vec<char>, i: usize) -> (r: usize)
    requires
        i < s.len(),
    ensures
        r == token_len(s@, i as int),
        0 < r,
        i + r <= s.len(),
{
    let sp = run_len(s, i, CharClass::Space);
    if sp > 0 {
        return sp;
    }
    if i > 0 && s[i - 1] == '#' {
        let an = run_len(s, i, CharClass::Alnum);
        if an > 0 {
            return an;
        }
    }
    let n = number_len(s, i);
    if n > 0 {
        return n;
    }
    let id = run_len(s, i, CharClass::Ident);
    if id > 0 {
        return id;
    }
    let q1 = quoted(s, i, '\'');
    if q1 > 0 {
        return q1;
    }
    let q2 = quoted(s, i, '"');
    if q2 > 0 {
        return q2;
    }
    1
}

/// The characters of `s` from `a` to `b`.
pub fn sub_chars(s: &[char], a: usize, b: usize) -> (r: Vec<char>)
    requires
        a <= b <= s.len(),
    ensures
        r@ == s@.subrange(a as int, b as int),
{
    let mut v: Vec<char> = Vec::new();
    let mut k = a;
    while k < b
        invariant
            a <= k <= b <= s.len(),
            v@ == s@.subrange(a as int, k as int),
        decreases b - k,
    {
        v.push(s[k]);
        k = k + 1;
        proof {
            assert(v@ =~= s@.subrange(a as int, k as int));
        }
    }
    v
}

fn raw_tokenize(s: &Vec<char>) -> (r: Vec<Vec<char>>)
    ensures
        toks_view(r@) == raw_tokens(s@, 0),
{
    let mut out: Vec<Vec<char>> = Vec::new();
    let mut i: usize = 0;
    while i < s.len()
        invariant
            i <= s.len(),
            raw_tokens(s@, 0) == toks_view(out@) + raw_tokens(s@, i as int),
        decreases s.len() - i,
    {
        match comment_end_at(s, i) {
            Some(e) => {
                i = e;
            },
            None => {
                let l = token_length(s, i);
                let t = if s[i] == ' ' || s[i] == '\t' || s[i] == '\r' || s[i] == '\n' {
                    vec![' ']
                } else {
                    sub_chars(s.as_slice(), i, i + l)
                };
                proof {
                    assert(t@ =~= (if is_space(s@[i as int]) {
                        seq![' ']
                    } else {
                        s@.subrange(i as int, i + l)
                    }));
                    assert(toks_view(out@.push(t)) =~= toks_view(out@) + seq![t@]);
                }
                out.push(t);
                i = i + l;
            },
        }
    }
    proof {
        assert(toks_view(out@) + raw_tokens(s@, i as int) =~= toks_view(out@));
    }
    out
}

fn can_end_tok(t: &Vec<char>) -> (r: bool)
    ensures
        r == can_end(t@),
{
    if t.len() == 0 {
        return false;
    }
    let c = t[0];
    let r = ('a' <= c && c <= 'z') || ('A' <= c && c <= 'Z') || ('0' <= c && c <= '9') || c == '-'
        || (t.len() == 1 && (c == '*' || c == ']'));
    proof {
        if t.len() == 1 {
            assert(t@ =~= seq![c]);
        }
    }
    r
}

fn can_start_tok(t: &Vec<char>) -> (r: bool)
    ensures
        r == can_start(t@),
{
    if t.len() == 0 {
        return false;
    }
    let c = t[0];
    let r = ('a' <= c && c <= 'z') || ('A' <= c && c <= 'Z') || ('0' <= c && c <= '9') || c == '-'
        || (t.len() == 1 && (c == '.' || c == '#' || c == '*'));
    proof {
        if t.len() == 1 {
            assert(t@ =~= seq![c]);
        }
    }
    r
}

fn is_space_tok(t: &Vec<char>) -> (r: bool)
    ensures
        r == (t@ == seq![' ']),
{
    let r = t.len() == 1 && t[0] == ' ';
    proof {
        if t.len() == 1 {
            assert(t@ =~= seq![t@[0]]);
        }
    }
    r
}

/// The tokens of `s`, as character vectors.
pub fn tokenize_chars(s: &Vec<char>) -> (r: Vec<Vec<char>>)
    ensures
        toks_view(r@) == tokens_of(s@),
{
    let raw = raw_tokenize(s);
    let ghost rv = toks_view(raw@);
    let mut res: Vec<Vec<char>> = Vec::new();
    let mut k: usize = 0;
    while k < raw.len()
        invariant
            k <= raw.len(),
            rv == toks_view(raw@),
            toks_view(res@) == filter_spaces(rv, k as int),
        decreases raw.len() - k,
    {
        let t = &raw[k];
        let keep = if is_space_tok(t) {
            res.len() > 0 && can_end_tok(&res[res.len() - 1]) && k + 1 < raw.len() && can_start_tok(
                &raw[k + 1],
            )
        } else {
            true
        };
        proof {
            assert(rv[k as int] == t@);
            if res.len() > 0 {
                assert(toks_view(res@).last() == res@[res.len() - 1]@);
            }
            if k + 1 < raw.len() {
                assert(rv[k + 1] == raw@[k + 1]@);
            }
        }
        if keep {
            let c = t.clone();
            proof {
                assert(c@ == t@);
                assert(toks_view(res@.push(c)) =~= toks_view(res@).push(t@));
            }
            res.push(c);
        }
        k = k + 1;
    }
    res
}

/// The tokens of `input`.
pub fn tokenize(input: &str) -> (r: Vec<String>)
    ensures
        strings_view(r@) == tokens_of(input@),
{
    let cs = chars_of(input);
    let toks = tokenize_chars(&cs);
    let mut out: Vec<String> = Vec::new();
    let mut k: usize = 0;
    while k < toks.len()
        invariant
            k <= toks.len(),
            strings_view(out@) == toks_view(toks@).take(k as int),
        decreases toks.len() - k,
    {
        let st = string_of(toks[k].as_slice());
        proof {
            assert(st@ == toks_view(toks@)[k as int]);
            assert(strings_view(out@.push(st)) =~= strings_view(out@).push(st@));
            assert(toks_view(toks@).take(k + 1) =~= toks_view(toks@).take(k as int).push(st@));
        }
        out.push(st);
        k = k + 1;
    }
    proof {
        assert(toks_view(toks@).take(k as int) =~= toks_view(toks@));
    }
    out
}

proof fn lemma_run_bound(s: Seq<char>, i: int, k: CharClass)
    requires
        0 <= i,
    ensures
        i + run(s, i, k) <= s.len() || run(s, i, k) == 0,
    decreases s.len() - i,
{
    if 0 <= i < s.len() && in_class(s[i], k) {
        lemma_run_bound(s, i + 1, k);
    }
}

proof fn lemma_run_shift(p: Seq<char>, s: Seq<char>, j: int, k: CharClass)
    requires
        0 <= j,
    ensures
        run(p + s, p.len() + j, k) == run(s, j, k),
    decreases s.len() - j,
{
    if j < s.len() {
        assert((p + s)[p.len() + j] == s[j]);
        lemma_run_shift(p, s, j + 1, k);
    }
}

proof fn lemma_num_body_shift(p: Seq<char>, s: Seq<char>, j: int, dot: bool)
    requires
        0 <= j,
    ensures
        num_body(p + s, p.len() + j, dot) == num_body(s, j, dot),
    decreases s.len() - j,
{
    if j < s.len() {
        assert((p + s)[p.len() + j] == s[j]);
        lemma_num_body_shift(p, s, j + 1, dot);
        lemma_num_body_shift(p, s, j + 1, true);
    }
}

proof fn lemma_comment_close_shift(p: Seq<char>, s: Seq<char>, j: int)
    requires
        0 <= j,
    ensures
        comment_close(p + s, p.len() + j) == match comment_close(s, j) {
            Some(e) => Some(e + p.len()),
            None => None,
        },
    decreases s.len() - j,
{
    if j + 1 < s.len() {
        assert((p + s)[p.len() + j] == s[j]);
        assert((p + s)[p.len() + j + 1] == s[j + 1]);
        lemma_comment_close_shift(p, s, j + 1);
    }
}

proof fn lemma_token_len_shift(p: Seq<char>, s: Seq<char>, j: int)
    requires
        0 <= j < s.len(),
        j == 0 ==> p.len() == 0 || p.last() != '#' || !is_alnum(s[0]),
    ensures
        token_len(p + s, p.len() + j) == token_len(s, j),
        comment_end(p + s, p.len() + j) == match comment_end(s, j) {
            Some(e) => Some(e + p.len()),
            None => None,
        },
        (p + s)[p.len() + j] == s[j],
{
    let t = p + s;
    let o = p.len() as int;
    lemma_run_shift(p, s, j, CharClass::Space);
    lemma_run_shift(p, s, j, CharClass::Alnum);
    lemma_run_shift(p, s, j, CharClass::Ident);
    lemma_run_shift(p, s, j + 1, CharClass::NotQuote('\''));
    lemma_run_shift(p, s, j + 1, CharClass::NotQuote('"'));
    lemma_num_body_shift(p, s, j, false);
    lemma_num_body_shift(p, s, j + 1, false);
    lemma_comment_close_shift(p, s, j + 2);
    assert(t[o + j] == s[j]);
    if j + 1 < s.len() {
        assert(t[o + j + 1] == s[j + 1]);
    }
    if j > 0 {
        assert(t[o + j - 1] == s[j - 1]);
    } else if o > 0 {
        assert(t[o - 1] == p.last());
    }
}

proof fn lemma_token_len_bound(s: Seq<char>, i: int)
    requires
        0 <= i < s.len(),
    ensures
        0 < token_len(s, i),
        i + token_len(s, i) <= s.len(),
{
    lemma_run_bound(s, i, CharClass::Space);
    lemma_run_bound(s, i, CharClass::Alnum);
    lemma_run_bound(s, i, CharClass::Ident);
    lemma_run_bound(s, i + 1, CharClass::NotQuote('\''));
    lemma_run_bound(s, i + 1, CharClass::NotQuote('"'));
    let j = if s[i] == '-' {
        i + 1
    } else {
        i
    };
    lemma_num_body_bound(s, j, false);
}

proof fn lemma_num_body_bound(s: Seq<char>, i: int, dot: bool)
    requires
        0 <= i,
    ensures
        i + num_body(s, i, dot) <= s.len() || num_body(s, i, dot) == 0,
    decreases s.len() - i,
{
    if 0 <= i < s.len() {
        lemma_num_body_bound(s, i + 1, dot);
        lemma_num_body_bound(s, i + 1, true);
    }
}

/// Tokenizing from a position depends only on what follows it, and, where
/// an alphanumeric character follows, on whether the one before is `#`.
proof fn lemma_raw_shift(p: Seq<char>, s: Seq<char>, j: int)
    requires
        0 <= j,
        j == 0 && 0 < s.len() ==> p.len() == 0 || p.last() != '#' || !is_alnum(s[0]),
    ensures
        raw_tokens(p + s, p.len() + j) == raw_tokens(s, j),
    decreases s.len() - j,
{
    if j < s.len() {
        let t = p + s;
        let o = p.len() as int;
        lemma_token_len_shift(p, s, j);
        lemma_comment_close_bound(s, j + 2);
        match comment_end(s, j) {
            Some(e) => {
                if j < e <= s.len() {
                    lemma_raw_shift(p, s, e);
                } else {
                    lemma_token_len_bound(s, j);
                    let l = token_len(s, j);
                    lemma_raw_shift(p, s, j + l);
                    assert(t.subrange(o + j, o + j + l) =~= s.subrange(j, j + l));
                }
            },
            None => {
                lemma_token_len_bound(s, j);
                let l = token_len(s, j);
                lemma_raw_shift(p, s, j + l);
                assert(t.subrange(o + j, o + j + l) =~= s.subrange(j, j + l));
            },
        }
    }
}

proof fn lemma_comment_close_bound(s: Seq<char>, k: int)
    ensures
        comment_close(s, k) matches Some(e) ==> k + 2 <= e <= s.len(),
    decreases s.len() - k,
{
    if !(k < 0 || k + 1 >= s.len()) && !(s[k] == '*' && s[k + 1] == '/') {
        lemma_comment_close_bound(s, k + 1);
    }
}

/// Dropping a leading space token changes nothing after filtering.
proof fn lemma_filter_leading_space(x: Seq<Tok>, n: int)
    requires
        0 <= n <= x.len(),
    ensures
        filter_spaces(seq![seq![' ']] + x, n + 1) == filter_spaces(x, n),
    decreases n,
{
    let y = seq![seq![' ']] + x;
    assert(y.len() == x.len() + 1);
    if n > 0 {
        lemma_filter_leading_space(x, n - 1);
        assert(y[n] == x[n - 1]);
        if n + 1 < y.len() {
            assert(y[n + 1] == x[n]);
        }
        assert(filter_spaces(y, n) == filter_spaces(x, n - 1));
    } else {
        assert(y[0] == seq![' ']);
        assert(filter_spaces(y, 0) == Seq::<Tok>::empty());
    }
}

proof fn lemma_space_prefix_run(w: Seq<char>, s: Seq<char>, i: int)
    requires
        0 <= i <= w.len(),
        forall|m: int| 0 <= m < w.len() ==> is_space(#[trigger] w[m]),
    ensures
        run(w + s, i, CharClass::Space) == (w.len() - i) + run(s, 0, CharClass::Space),
    decreases w.len() - i,
{
    if i < w.len() {
        assert((w + s)[i] == w[i]);
        lemma_space_prefix_run(w, s, i + 1);
    } else {
        lemma_run_shift(w, s, 0, CharClass::Space);
    }
}

/// Whitespace before the first token changes no token.
pub proof fn law_leading_space(w: Seq<char>, s: Seq<char>)
    requires
        w.len() > 0,
        forall|m: int| 0 <= m < w.len() ==> is_space(#[trigger] w[m]),
    ensures
        tokens_of(w + s) == tokens_of(s),
{
    let t = w + s;
    assert(t[0] == w[0]);
    lemma_space_prefix_run(w, s, 0);
    let r = run(s, 0, CharClass::Space) as int;
    lemma_run_bound(s, 0, CharClass::Space);
    assert(token_len(t, 0) == w.len() + r);
    assert(raw_tokens(t, 0) == seq![seq![' ']] + raw_tokens(t, w.len() + r));
    if r == 0 {
        assert(w.last() == w[w.len() - 1]);
        lemma_raw_shift(w, s, 0);
        let x = raw_tokens(s, 0);
        lemma_filter_leading_space(x, x.len() as int);
    } else {
        assert(s[0] == t[w.len() as int]);
        assert(is_space(s[0]));
        lemma_raw_shift(w, s, r);
        assert(raw_tokens(s, 0) == seq![seq![' ']] + raw_tokens(s, r));
    }
}

/// A closed comment before the first token changes no token.
pub proof fn law_leading_comment(c: Seq<char>, s: Seq<char>)
    requires
        c.len() >= 4,
        c[0] == '/',
        c[1] == '*',
        comment_close(c, 2) == Some(c.len() as int),
    ensures
        tokens_of(c + s) == tokens_of(s),
{
    let t = c + s;
    lemma_comment_close_prefix(c, s, 2);
    assert(t[0] == c[0] && t[1] == c[1]);
    assert(comment_end(t, 0) == Some(c.len() as int));
    assert(c.last() == '/') by {
        lemma_comment_close_ends(c, 2);
    }
    lemma_raw_shift(c, s, 0);
}

proof fn lemma_comment_close_ends(c: Seq<char>, k: int)
    ensures
        comment_close(c, k) matches Some(e) ==> 2 <= e <= c.len() && c[e - 1] == '/',
    decreases c.len() - k,
{
    if !(k < 0 || k + 1 >= c.len()) && !(c[k] == '*' && c[k + 1] == '/') {
        lemma_comment_close_ends(c, k + 1);
    }
}

proof fn lemma_comment_close_prefix(c: Seq<char>, s: Seq<char>, k: int)
    requires
        0 <= k,
        comment_close(c, k) is Some,
    ensures
        comment_close(c + s, k) == comment_close(c, k),
    decreases c.len() - k,
{
    let t = c + s;
    if k + 1 < c.len() {
        assert(t[k] == c[k] && t[k + 1] == c[k + 1]);
        if !(c[k] == '*' && c[k + 1] == '/') {
            lemma_comment_close_prefix(c, s, k + 1);
        }
    }
}

/// `k` space tokens.
pub open spec fn spaces(k: nat) -> Seq<Tok> {
    Seq::new(k, |i: int| seq![' '])
}

proof fn lemma_filter_double_space(x: Seq<Tok>, y: Seq<Tok>)
    ensures
        ({
            let s1 = x + seq![seq![' ']] + y;
            let s2 = x + seq![seq![' '], seq![' ']] + y;
            filter_spaces(s2, s2.len() as int) == filter_spaces(s1, s1.len() as int)
        }),
{
    let sp = seq![' '];
    let s1 = x + seq![sp] + y;
    let s2 = x + seq![sp, sp] + y;
    let n = x.len() as int;
    assert forall|m: int| 0 <= m <= n implies filter_spaces(s2, m) == filter_spaces(s1, m) by {
        lemma_filter_front(x, y, m);
    }
    assert(s2[n] == sp && s2[n + 1] == sp && s1[n] == sp);
    assert(!can_start(sp));
    assert(filter_spaces(s2, n + 1) == filter_spaces(s1, n));
    if y.len() > 0 {
        assert(s2[n + 2] == y[0] && s1[n + 1] == y[0]);
    }
    assert(filter_spaces(s2, n + 2) == filter_spaces(s1, n + 1));
    lemma_filter_back(x, y, y.len() as int);
}

proof fn lemma_filter_front(x: Seq<Tok>, y: Seq<Tok>, m: int)
    requires
        0 <= m <= x.len(),
    ensures
        filter_spaces(x + seq![seq![' '], seq![' ']] + y, m) == filter_spaces(
            x + seq![seq![' ']] + y,
            m,
        ),
    decreases m,
{
    let s1 = x + seq![seq![' ']] + y;
    let s2 = x + seq![seq![' '], seq![' ']] + y;
    if m > 0 {
        lemma_filter_front(x, y, m - 1);
        assert(s1[m - 1] == s2[m - 1]);
        assert(s1[m] == s2[m]);
    }
}

proof fn lemma_filter_back(x: Seq<Tok>, y: Seq<Tok>, m: int)
    requires
        0 <= m <= y.len(),
        ({
            let s1 = x + seq![seq![' ']] + y;
            let s2 = x + seq![seq![' '], seq![' ']] + y;
            filter_spaces(s2, x.len() as int + 2) == filter_spaces(s1, x.len() as int + 1)
        }),
    ensures
        ({
            let s1 = x + seq![seq![' ']] + y;
            let s2 = x + seq![seq![' '], seq![' ']] + y;
            filter_spaces(s2, x.len() + 2 + m) == filter_spaces(s1, x.len() + 1 + m)
        }),
    decreases m,
{
    let s1 = x + seq![seq![' ']] + y;
    let s2 = x + seq![seq![' '], seq![' ']] + y;
    let n = x.len() as int;
    if m > 0 {
        lemma_filter_back(x, y, m - 1);
        assert(s2[n + 1 + m] == y[m - 1] && s1[n + m] == y[m - 1]);
        if m < y.len() {
            assert(s2[n + 2 + m] == y[m] && s1[n + 1 + m] == y[m]);
        }
    }
}

/// A row of one or more space tokens filters as one space token does.
proof fn lemma_filter_spaces_run(x: Seq<Tok>, k: nat, y: Seq<Tok>)
    requires
        k >= 1,
    ensures
        ({
            let s1 = x + seq![seq![' ']] + y;
            let sk = x + spaces(k) + y;
            filter_spaces(sk, sk.len() as int) == filter_spaces(s1, s1.len() as int)
        }),
    decreases k,
{
    if k == 1 {
        assert(spaces(1) =~= seq![seq![' ']]);
    } else {
        let x2 = x + spaces((k - 2) as nat);
        lemma_filter_double_space(x2, y);
        assert(x + spaces(k) + y =~= x2 + seq![seq![' '], seq![' ']] + y);
        assert(x + spaces((k - 1) as nat) + y =~= x2 + seq![seq![' ']] + y);
        lemma_filter_spaces_run(x, (k - 1) as nat, y);
    }
}

proof fn lemma_run_facts(s: Seq<char>, i: int, k: CharClass)
    requires
        0 <= i,
    ensures
        forall|j: int| i <= j < i + run(s, i, k) ==> in_class(#[trigger] s[j], k),
        i + run(s, i, k) < s.len() ==> !in_class(s[i + run(s, i, k)], k),
        i + run(s, i, k) <= s.len() || run(s, i, k) == 0,
    decreases s.len() - i,
{
    if 0 <= i < s.len() && in_class(s[i], k) {
        lemma_run_facts(s, i + 1, k);
    }
}

proof fn lemma_run_prefix(a: Seq<char>, y: Seq<char>, i: int, k: CharClass)
    requires
        0 <= i <= a.len(),
        i + run(a, i, k) < a.len() || y.len() == 0 || !in_class(y[0], k),
    ensures
        run(a + y, i, k) == run(a, i, k),
    decreases a.len() - i,
{
    let t = a + y;
    if i < a.len() {
        assert(t[i] == a[i]);
        if in_class(a[i], k) {
            lemma_run_prefix(a, y, i + 1, k);
        }
    } else if y.len() > 0 {
        assert(t[i] == y[0]);
    }
}

proof fn lemma_num_body_prefix(a: Seq<char>, y: Seq<char>, i: int, dot: bool)
    requires
        0 <= i <= a.len(),
        y.len() == 0 || !(is_digit(y[0]) || y[0] == '.'),
    ensures
        num_body(a + y, i, dot) == num_body(a, i, dot),
    decreases a.len() - i,
{
    let t = a + y;
    if i < a.len() {
        assert(t[i] == a[i]);
        lemma_num_body_prefix(a, y, i + 1, dot);
        lemma_num_body_prefix(a, y, i + 1, true);
    } else if y.len() > 0 {
        assert(t[i] == y[0]);
    }
}

/// Text without quotes or comment openings, not ending in whitespace,
/// tokenizes the same whatever whitespace or `/` follows it.
proof fn lemma_raw_prefix(a: Seq<char>, y: Seq<char>, i: int)
    requires
        0 <= i <= a.len(),
        forall|m: int| 0 <= m < a.len() ==> a[m] != '\'' && a[m] != '"',
        forall|m: int| 0 <= m < a.len() - 1 ==> !(#[trigger] a[m] == '/' && a[m + 1] == '*'),
        a.len() == 0 || !is_space(a.last()),
        y.len() == 0 || is_space(y[0]) || y[0] == '/',
    ensures
        raw_tokens(a + y, i) == raw_tokens(a, i) + raw_tokens(a + y, a.len() as int),
    decreases a.len() - i,
{
    let t = a + y;
    if i == a.len() {
        assert(raw_tokens(a, i) =~= Seq::<Tok>::empty());
        assert(raw_tokens(a, i) + raw_tokens(t, i) =~= raw_tokens(t, i));
    } else {
        assert(t[i] == a[i]);
        if i + 1 < a.len() {
            assert(t[i + 1] == a[i + 1]);
        } else if y.len() > 0 {
            assert(t[i + 1] == y[0]);
        }
        if i > 0 {
            assert(t[i - 1] == a[i - 1]);
        }
        assert(comment_end(t, i) is None);
        assert(comment_end(a, i) is None);
        lemma_run_facts(a, i, CharClass::Space);
        if i + run(a, i, CharClass::Space) == a.len() && run(a, i, CharClass::Space) > 0 {
            assert(a.last() == a[a.len() - 1]);
        }
        lemma_run_prefix(a, y, i, CharClass::Space);
        lemma_run_prefix(a, y, i, CharClass::Alnum);
        lemma_run_prefix(a, y, i, CharClass::Ident);
        lemma_num_body_prefix(a, y, i, false);
        lemma_num_body_prefix(a, y, i + 1, false);
        assert(quoted_len(t, i, '\'') == 0 && quoted_len(a, i, '\'') == 0);
        assert(quoted_len(t, i, '"') == 0 && quoted_len(a, i, '"') == 0);
        assert(token_len(t, i) == token_len(a, i));
        lemma_token_len_bound(a, i);
        let l = token_len(a, i);
        assert(t.subrange(i, i + l) =~= a.subrange(i, i + l));
        lemma_raw_prefix(a, y, i + l);
        assert(raw_tokens(t, i) == seq![raw_tokens(a, i)[0]] + raw_tokens(t, i + l));
        assert(raw_tokens(a, i) == seq![raw_tokens(a, i)[0]] + raw_tokens(a, i + l));
        assert(raw_tokens(t, i) =~= raw_tokens(a, i) + raw_tokens(t, a.len() as int));
    }
}

/// Whitespace and closed comments, and how many separate runs of
/// whitespace it holds; none where it holds anything else.
pub open spec fn layout_spaces(r: Seq<char>) -> Option<nat>
    decreases r.len(),
{
    if r.len() == 0 {
        Some(0)
    } else if is_space(r[0]) {
        let m = run(r, 0, CharClass::Space);
        if 0 < m <= r.len() {
            match layout_spaces(r.skip(m as int)) {
                Some(k) => Some(k + 1),
                None => None,
            }
        } else {
            None
        }
    } else if r.len() >= 4 && r[0] == '/' && r[1] == '*' {
        match comment_close(r, 2) {
            Some(e) => if 2 < e <= r.len() {
                layout_spaces(r.skip(e))
            } else {
                None
            },
            None => None,
        }
    } else {
        None
    }
}

proof fn lemma_layout_raw(r: Seq<char>, b: Seq<char>)
    requires
        layout_spaces(r) is Some,
        b.len() == 0 || !is_space(b[0]),
    ensures
        raw_tokens(r + b, 0) == spaces(layout_spaces(r)->0) + raw_tokens(b, 0),
    decreases r.len(),
{
    let t = r + b;
    if r.len() == 0 {
        assert(t =~= b);
        assert(spaces(0) + raw_tokens(b, 0) =~= raw_tokens(b, 0));
    } else if is_space(r[0]) {
        let m = run(r, 0, CharClass::Space) as int;
        let rest = r.skip(m);
        lemma_run_facts(r, 0, CharClass::Space);
        let head = r.take(m);
        assert(t =~= head + (rest + b));
        assert forall|j: int| 0 <= j < head.len() implies is_space(#[trigger] head[j]) by {
            assert(head[j] == r[j]);
            assert(in_class(r[j], CharClass::Space));
        }
        lemma_space_prefix_run(head, rest + b, 0);
        if rest.len() > 0 {
            assert((rest + b)[0] == r[m]);
        } else if b.len() > 0 {
            assert((rest + b)[0] == b[0]);
        }
        assert(run(rest + b, 0, CharClass::Space) == 0);
        assert(t[0] == r[0]);
        assert(comment_end(t, 0) is None);
        assert(run(t, 0, CharClass::Space) == m);
        assert(token_len(t, 0) == m);
        assert(raw_tokens(t, 0) == seq![seq![' ']] + raw_tokens(t, m));
        assert(head.last() == r[m - 1]);
        lemma_raw_shift(head, rest + b, 0);
        lemma_layout_raw(rest, b);
        let k = layout_spaces(rest)->0;
        assert(spaces(k + 1) =~= seq![seq![' ']] + spaces(k));
    } else {
        let e = comment_close(r, 2)->0;
        lemma_comment_close_prefix(r, b, 2);
        lemma_comment_close_ends(r, 2);
        assert(t[0] == r[0] && t[1] == r[1]);
        assert(comment_end(t, 0) == Some(e));
        let head = r.take(e);
        let rest = r.skip(e);
        assert(t =~= head + (rest + b));
        assert(head.last() == r[e - 1]);
        lemma_raw_shift(head, rest + b, 0);
        lemma_layout_raw(rest, b);
    }
}

/// A run of whitespace and closed comments that holds some whitespace
/// tokenizes as a single space, wherever it stands: after text without
/// quotes or comments that does not end in whitespace, and before text
/// that does not start with whitespace. Collapsing the runs of a text one
/// by one, from the left, gives the tokens of its minimal form.
pub proof fn law_layout_run(a: Seq<char>, r: Seq<char>, b: Seq<char>)
    requires
        forall|m: int| 0 <= m < a.len() ==> a[m] != '\'' && a[m] != '"',
        forall|m: int| 0 <= m < a.len() - 1 ==> !(#[trigger] a[m] == '/' && a[m + 1] == '*'),
        a.len() == 0 || !is_space(a.last()),
        b.len() == 0 || !is_space(b[0]),
        layout_spaces(r) is Some,
        layout_spaces(r)->0 >= 1,
    ensures
        tokens_of(a + r + b) == tokens_of(a + seq![' '] + b),
{
    let sp = seq![' '];
    let y1 = r + b;
    let y2 = sp + b;
    assert(r.len() > 0);
    assert(y1[0] == r[0]);
    assert(y2[0] == ' ');
    assert(a + r + b =~= a + y1);
    assert(a + sp + b =~= a + y2);
    lemma_raw_prefix(a, y1, 0);
    lemma_raw_prefix(a, y2, 0);
    lemma_raw_shift(a, y1, 0);
    lemma_raw_shift(a, y2, 0);
    lemma_layout_raw(r, b);
    assert(run(sp, 1, CharClass::Space) == 0);
    assert(run(sp, 0, CharClass::Space) == 1);
    assert(sp.skip(1) =~= Seq::<char>::empty());
    assert(sp[0] == ' ');
    assert(layout_spaces(sp.skip(1)) == Some(0nat));
    assert(layout_spaces(sp) == Some(1nat));
    lemma_layout_raw(sp, b);
    assert(spaces(1) =~= seq![sp]);
    let ra = raw_tokens(a, 0);
    let rb = raw_tokens(b, 0);
    let k = layout_spaces(r)->0;
    lemma_filter_spaces_run(ra, k, rb);
    assert(raw_tokens(a + y1, 0) =~= ra + spaces(k) + rb);
    assert(raw_tokens(a + y2, 0) =~= ra + seq![sp] + rb);
}

} // verus!
