//! Typed property values and their parsers. Each parser takes the whole
//! token slice of one value and fails, without panicking, when the slice
//! has the wrong number of tokens or a token of the wrong kind.
use crate::text::lit_eq;
use crate::tokenizer::{is_digit, is_ident_char, toks_view, Tok};
use vstd::prelude::*;

verus! {

/// The decimal `mantissa / 10^scale`. Parsed numbers carry no trailing zero
/// after the point, so two parsed numbers are equal exactly when their
/// values are.
#[derive(Debug, Clone, Copy, PartialEq, Eq, Structural)]
pub struct CssNumber {
    pub mantissa: i64,
    pub scale: u32,
}

impl CssNumber {
    /// The whole number `n`.
    pub fn from_int(n: i32) -> (r: CssNumber)
        ensures
            r == (CssNumber { mantissa: n as i64, scale: 0 }),
    {
        CssNumber { mantissa: n as i64, scale: 0 }
    }
}

/// A length.
#[derive(Debug, Clone, Copy, PartialEq, Eq, Structural)]
pub enum CssDimension {
    Px(CssNumber),
    Percent(CssNumber),
    Auto,
    /// A bare `0`, which needs no unit.
    Zero,
}

/// A color as four 8-bit channels.
#[derive(Debug, Clone, Copy, PartialEq, Eq, Structural)]
pub struct CssColor {
    pub r: u8,
    pub g: u8,
    pub b: u8,
    pub a: u8,
}

impl CssColor {
    pub fn transparent() -> (c: CssColor)
        ensures
            c == (CssColor { r: 0, g: 0, b: 0, a: 0 }),
    {
        CssColor { r: 0, g: 0, b: 0, a: 0 }
    }

    pub fn black() -> (c: CssColor)
        ensures
            c == (CssColor { r: 0, g: 0, b: 0, a: 255 }),
    {
        CssColor { r: 0, g: 0, b: 0, a: 255 }
    }

    pub fn white() -> (c: CssColor)
        ensures
            c == (CssColor { r: 255, g: 255, b: 255, a: 255 }),
    {
        CssColor { r: 255, g: 255, b: 255, a: 255 }
    }

    pub fn red() -> (c: CssColor)
        ensures
            c == (CssColor { r: 255, g: 0, b: 0, a: 255 }),
    {
        CssColor { r: 255, g: 0, b: 0, a: 255 }
    }

    pub fn green() -> (c: CssColor)
        ensures
            c == (CssColor { r: 0, g: 255, b: 0, a: 255 }),
    {
        CssColor { r: 0, g: 255, b: 0, a: 255 }
    }

    pub fn blue() -> (c: CssColor)
        ensures
            c == (CssColor { r: 0, g: 0, b: 255, a: 255 }),
    {
        CssColor { r: 0, g: 0, b: 255, a: 255 }
    }

    pub fn from_rgba8(r: u8, g: u8, b: u8, a: u8) -> (c: CssColor)
        ensures
            c == (CssColor { r, g, b, a }),
    {
        CssColor { r, g, b, a }
    }
}

/// A value type with a parser over the tokens of one value.
pub trait CssValue: Sized + Copy {
    /// The value `ts` writes, if any.
    spec fn tokens_spec(ts: Seq<Tok>) -> Option<Self>;

    fn from_tokens(ts: &[Vec<char>]) -> (r: Option<Self>)
        ensures
            r == Self::tokens_spec(toks_view(ts@)),
    ;
}

impl CssValue for CssNumber {
    open spec fn tokens_spec(ts: Seq<Tok>) -> Option<CssNumber> {
        float_of(ts)
    }

    fn from_tokens(ts: &[Vec<char>]) -> (r: Option<CssNumber>) {
        float_toks(ts)
    }
}

impl CssValue for CssDimension {
    open spec fn tokens_spec(ts: Seq<Tok>) -> Option<CssDimension> {
        dimension_of(ts)
    }

    fn from_tokens(ts: &[Vec<char>]) -> (r: Option<CssDimension>) {
        dimension_toks(ts)
    }
}

impl CssValue for CssColor {
    open spec fn tokens_spec(ts: Seq<Tok>) -> Option<CssColor> {
        color_of(ts)
    }

    fn from_tokens(ts: &[Vec<char>]) -> (r: Option<CssColor>) {
        color_toks(ts)
    }
}

/// A value that failed to parse.
#[derive(Debug, Clone, Copy, PartialEq, Eq, Structural)]
pub struct ParseError;

pub open spec fn digit_val(c: char) -> nat {
    (c as int - '0' as int) as nat
}

pub open spec fn pow10(n: nat) -> nat
    decreases n,
{
    if n == 0 {
        1
    } else {
        10 * pow10((n - 1) as nat)
    }
}

/// Reads digits with at most one `.`, left to right: the mantissa, the
/// digits after the point, whether a point was seen, and the digit count.
pub open spec fn scan_number(b: Seq<char>) -> Option<(nat, nat, bool, nat)>
    decreases b.len(),
{
    if b.len() == 0 {
        Some((0, 0, false, 0))
    } else {
        match scan_number(b.drop_last()) {
            None => None,
            Some((m, sc, dot, n)) => {
                let c = b.last();
                if c == '.' {
                    if dot {
                        None
                    } else {
                        Some((m, sc, true, n))
                    }
                } else if is_digit(c) {
                    Some((m * 10 + digit_val(c), if dot {
                        sc + 1
                    } else {
                        sc
                    }, dot, n + 1))
                } else {
                    None
                }
            },
        }
    }
}

/// `m / 10^sc` with the trailing zeros after the point taken off.
pub open spec fn canon(m: nat, sc: nat) -> (nat, nat)
    decreases sc,
{
    if sc > 0 && m % 10 == 0 {
        canon(m / 10, (sc - 1) as nat)
    } else {
        (m, sc)
    }
}

/// The number a token writes: an optional `-`, then one to eighteen digits
/// with at most one `.` among them.
pub open spec fn number_of(t: Tok) -> Option<CssNumber> {
    let neg = t.len() > 0 && t[0] == '-';
    let b = if neg {
        t.drop_first()
    } else {
        t
    };
    match scan_number(b) {
        Some((m, sc, _, n)) => if 1 <= n <= 18 {
            let (cm, cs) = canon(m, sc);
            Some(
                CssNumber {
                    mantissa: (if neg {
                        -cm
                    } else {
                        cm as int
                    }) as i64,
                    scale: cs as u32,
                },
            )
        } else {
            None
        },
        None => None,
    }
}

proof fn lemma_canon_bound(m: nat, sc: nat, n: nat)
    requires
        m < pow10(n),
        sc <= n,
    ensures
        canon(m, sc).0 <= m,
        canon(m, sc).1 <= sc,
    decreases sc,
{
    if sc > 0 && m % 10 == 0 {
        lemma_canon_bound(m / 10, (sc - 1) as nat, n);
    }
}

proof fn lemma_pow10_18()
    ensures
        pow10(18) == 1_000_000_000_000_000_000,
{
    reveal_with_fuel(pow10, 19);
}

fn number_tok(t: &[char]) -> (r: Option<CssNumber>)
    ensures
        r == number_of(t@),
{
    let neg = t.len() > 0 && t[0] == '-';
    let start: usize = if neg {
        1
    } else {
        0
    };
    let ghost b = if neg {
        t@.drop_first()
    } else {
        t@
    };
    proof {
        assert(b =~= t@.subrange(start as int, t@.len() as int));
    }
    let mut ok = true;
    let mut m: u64 = 0;
    let mut sc: usize = 0;
    let mut dot = false;
    let mut n: usize = 0;
    let mut k = start;
    while k < t.len()
        invariant
            start <= k <= t.len(),
            b == t@.subrange(start as int, t@.len() as int),
            ok == scan_number(b.take(k - start)) is Some,
            ok ==> ({
                let (sm, ss, sd, sn) = scan_number(b.take(k - start))->0;
                &&& dot == sd
                &&& n == sn
                &&& sc == ss
                &&& sc <= n
                &&& (n <= 18 ==> m == sm && sm < pow10(sn))
            }),
            n <= k,
        decreases t.len() - k,
    {
        let c = t[k];
        proof {
            let p = b.take(k - start);
            let q = b.take(k + 1 - start);
            assert(q.drop_last() =~= p);
            assert(q.last() == c);
        }
        if ok {
            if c == '.' {
                if dot {
                    ok = false;
                } else {
                    dot = true;
                }
            } else if '0' <= c && c <= '9' {
                if n < 18 {
                    let d = (c as u32 - '0' as u32) as u64;
                    proof {
                        lemma_pow10_18();
                        assert(pow10((n + 1) as nat) == 10 * pow10(n as nat));
                        assert(m < pow10(n as nat));
                        assert(pow10(n as nat) <= pow10(18)) by {
                            lemma_pow10_mono(n as nat, 18);
                        }
                        assert(m * 10 + d < pow10((n + 1) as nat)) by (nonlinear_arith)
                            requires
                                m < pow10(n as nat),
                                d <= 9,
                                pow10((n + 1) as nat) == 10 * pow10(n as nat),
                        ;
                        assert(m * 10 + d < 10 * pow10(18)) by (nonlinear_arith)
                            requires
                                m < pow10(n as nat),
                                d <= 9,
                                pow10(n as nat) <= pow10(18),
                        ;
                        assert(d == digit_val(c));
                    }
                    m = m * 10 + d;
                }
                n = n + 1;
                if dot {
                    sc = sc + 1;
                }
            } else {
                ok = false;
            }
        }
        k = k + 1;
    }
    proof {
        assert(b.take(k - start) =~= b);
    }
    if !ok || n < 1 || n > 18 {
        return None;
    }
    let ghost m0 = m as nat;
    let ghost sc0 = sc as nat;
    proof {
        lemma_canon_bound(m0, sc0, n as nat);
    }
    while sc > 0 && m % 10 == 0
        invariant
            canon(m0, sc0) == canon(m as nat, sc as nat),
        decreases sc,
    {
        m = m / 10;
        sc = sc - 1;
    }
    proof {
        lemma_pow10_18();
        lemma_pow10_mono(n as nat, 18);
    }
    let mag = m as i64;
    let mantissa = if neg {
        -mag
    } else {
        mag
    };
    Some(CssNumber { mantissa, scale: sc as u32 })
}

proof fn lemma_pow10_mono(a: nat, b: nat)
    requires
        a <= b,
    ensures
        pow10(a) <= pow10(b),
    decreases b,
{
    if a < b {
        lemma_pow10_mono(a, (b - 1) as nat);
    }
}

/// The value of a run of decimal digits.
pub open spec fn digits_value(d: Seq<char>) -> nat
    decreases d.len(),
{
    if d.len() == 0 {
        0
    } else {
        digits_value(d.drop_last()) * 10 + digit_val(d.last())
    }
}

/// A color channel: one to any number of decimal digits worth at most 255.
pub open spec fn u8_of(t: Tok) -> Option<u8> {
    if t.len() > 0 && (forall|i: int| 0 <= i < t.len() ==> is_digit(#[trigger] t[i]))
        && digits_value(t) <= 255 {
        Some(digits_value(t) as u8)
    } else {
        None
    }
}

fn u8_tok(t: &[char]) -> (r: Option<u8>)
    ensures
        r == u8_of(t@),
{
    let mut v: u32 = 0;
    let mut k: usize = 0;
    while k < t.len()
        invariant
            k <= t.len(),
            forall|i: int| 0 <= i < k ==> is_digit(#[trigger] t@[i]),
            v == if digits_value(t@.take(k as int)) < 256 {
                digits_value(t@.take(k as int))
            } else {
                256
            },
        decreases t.len() - k,
    {
        let c = t[k];
        if !('0' <= c && c <= '9') {
            return None;
        }
        let d = c as u32 - '0' as u32;
        proof {
            let p = t@.take(k as int);
            let q = t@.take(k + 1);
            assert(q.drop_last() =~= p);
            assert(digits_value(q) == digits_value(p) * 10 + d);
        }
        v = if v * 10 + d < 256 {
            v * 10 + d
        } else {
            256
        };
        k = k + 1;
    }
    proof {
        assert(t@.take(k as int) =~= t@);
    }
    if k == 0 || v > 255 {
        None
    } else {
        Some(v as u8)
    }
}

/// A single token read as a number.
pub open spec fn float_of(ts: Seq<Tok>) -> Option<CssNumber> {
    if ts.len() == 1 {
        number_of(ts[0])
    } else {
        None
    }
}

pub fn float_toks(ts: &[Vec<char>]) -> (r: Option<CssNumber>)
    ensures
        r == float_of(toks_view(ts@)),
{
    if ts.len() == 1 {
        number_tok(ts[0].as_slice())
    } else {
        None
    }
}

/// `<number>px`, `<number>%`, `auto` or a bare `0`.
pub open spec fn dimension_of(ts: Seq<Tok>) -> Option<CssDimension> {
    if ts.len() == 2 && ts[1] == "px"@ && number_of(ts[0]) is Some {
        Some(CssDimension::Px(number_of(ts[0])->0))
    } else if ts.len() == 2 && ts[1] == "%"@ && number_of(ts[0]) is Some {
        Some(CssDimension::Percent(number_of(ts[0])->0))
    } else if ts.len() == 1 && ts[0] == "auto"@ {
        Some(CssDimension::Auto)
    } else if ts.len() == 1 && ts[0] == "0"@ {
        Some(CssDimension::Zero)
    } else {
        None
    }
}

pub fn dimension_toks(ts: &[Vec<char>]) -> (r: Option<CssDimension>)
    ensures
        r == dimension_of(toks_view(ts@)),
{
    let ghost v = toks_view(ts@);
    if ts.len() == 2 {
        proof {
            assert(v[0] == ts@[0]@ && v[1] == ts@[1]@);
        }
        if lit_eq(ts[1].as_slice(), "px") {
            if let Some(n) = number_tok(ts[0].as_slice()) {
                return Some(CssDimension::Px(n));
            }
        } else if lit_eq(ts[1].as_slice(), "%") {
            if let Some(n) = number_tok(ts[0].as_slice()) {
                return Some(CssDimension::Percent(n));
            }
        }
        None
    } else if ts.len() == 1 {
        proof {
            assert(v[0] == ts@[0]@);
        }
        if lit_eq(ts[0].as_slice(), "auto") {
            Some(CssDimension::Auto)
        } else if lit_eq(ts[0].as_slice(), "0") {
            Some(CssDimension::Zero)
        } else {
            None
        }
    } else {
        None
    }
}

/// The value of a hexadecimal digit.
pub open spec fn hex_val(c: char) -> Option<nat> {
    if '0' <= c && c <= '9' {
        Some((c as int - '0' as int) as nat)
    } else if 'a' <= c && c <= 'f' {
        Some((c as int - 'a' as int + 10) as nat)
    } else if 'A' <= c && c <= 'F' {
        Some((c as int - 'A' as int + 10) as nat)
    } else {
        None
    }
}

pub open spec fn hx(h: Tok, i: int) -> nat {
    hex_val(h[i])->0
}

/// The color of `#rgb`, `#rgba`, `#rrggbb` or `#rrggbbaa`, given the digits;
/// a short form repeats each digit.
pub open spec fn hex_color(h: Tok) -> Option<CssColor> {
    if !(forall|i: int| 0 <= i < h.len() ==> (#[trigger] hex_val(h[i])) is Some) {
        None
    } else if h.len() == 6 || h.len() == 8 {
        Some(
            CssColor {
                r: (hx(h, 0) * 16 + hx(h, 1)) as u8,
                g: (hx(h, 2) * 16 + hx(h, 3)) as u8,
                b: (hx(h, 4) * 16 + hx(h, 5)) as u8,
                a: if h.len() == 8 {
                    (hx(h, 6) * 16 + hx(h, 7)) as u8
                } else {
                    255
                },
            },
        )
    } else if h.len() == 3 || h.len() == 4 {
        Some(
            CssColor {
                r: (hx(h, 0) * 17) as u8,
                g: (hx(h, 1) * 17) as u8,
                b: (hx(h, 2) * 17) as u8,
                a: if h.len() == 4 {
                    (hx(h, 3) * 17) as u8
                } else {
                    255
                },
            },
        )
    } else {
        None
    }
}

fn hex_digit(c: char) -> (r: Option<u8>)
    ensures
        match hex_val(c) {
            Some(v) => r == Some(v as u8) && v < 16,
            None => r is None,
        },
{
    if '0' <= c && c <= '9' {
        Some((c as u32 - '0' as u32) as u8)
    } else if 'a' <= c && c <= 'f' {
        Some((c as u32 - 'a' as u32 + 10) as u8)
    } else if 'A' <= c && c <= 'F' {
        Some((c as u32 - 'A' as u32 + 10) as u8)
    } else {
        None
    }
}

fn hex_color_tok(h: &[char]) -> (r: Option<CssColor>)
    ensures
        r == hex_color(h@),
{
    let mut ds: Vec<u8> = Vec::new();
    let mut k: usize = 0;
    while k < h.len()
        invariant
            k <= h.len(),
            ds.len() == k,
            forall|i: int| 0 <= i < k ==> hex_val(#[trigger] h@[i]) is Some,
            forall|i: int| 0 <= i < k ==> #[trigger] ds@[i] as nat == hx(h@, i) && ds@[i] < 16,
        decreases h.len() - k,
    {
        match hex_digit(h[k]) {
            Some(d) => ds.push(d),
            None => {
                proof {
                    assert(hex_val(h@[k as int]) is None);
                }
                return None;
            },
        }
        k = k + 1;
    }
    proof {
        assert forall|i: int| 0 <= i < h.len() implies (#[trigger] hex_val(h@[i])) is Some by {
            assert(hex_val(h@[i]) is Some);
        }
    }
    if h.len() == 6 || h.len() == 8 {
        let a = if h.len() == 8 {
            ds[6] * 16 + ds[7]
        } else {
            255
        };
        Some(CssColor { r: ds[0] * 16 + ds[1], g: ds[2] * 16 + ds[3], b: ds[4] * 16 + ds[5], a })
    } else if h.len() == 3 || h.len() == 4 {
        let a = if h.len() == 4 {
            ds[3] * 17
        } else {
            255
        };
        Some(CssColor { r: ds[0] * 17, g: ds[1] * 17, b: ds[2] * 17, a })
    } else {
        None
    }
}

/// `alpha` of `rgba(...)`: the number times 255, truncated and kept within
/// 0 to 255.
pub open spec fn alpha_of(n: CssNumber) -> u8 {
    if n.mantissa <= 0 {
        0
    } else if n.mantissa as int * 255 / pow10(n.scale as nat) as int >= 255 {
        255
    } else {
        (n.mantissa as int * 255 / pow10(n.scale as nat) as int) as u8
    }
}

fn alpha8(n: CssNumber) -> (r: u8)
    ensures
        r == alpha_of(n),
{
    if n.mantissa <= 0 {
        return 0;
    }
    let mut p: u128 = 1;
    let mut k: u32 = 0;
    proof {
        lemma_pow10_mono(0, n.scale as nat);
    }
    while k < n.scale
        invariant
            k <= n.scale,
            p == pow10(k as nat),
            p <= pow10(n.scale as nat),
            pow10(n.scale as nat) >= 1,
            n.mantissa > 0,
        decreases n.scale - k,
    {
        proof {
            assert(pow10((k + 1) as nat) == 10 * pow10(k as nat));
            lemma_pow10_mono((k + 1) as nat, n.scale as nat);
        }
        if p >= 1_000_000_000_000_000_000_000_000 {
            // the quotient is below one
            proof {
                assert(n.mantissa as int * 255 < p) by (nonlinear_arith)
                    requires
                        0 < n.mantissa as int <= 0x7fff_ffff_ffff_ffff,
                        p >= 1_000_000_000_000_000_000_000_000,
                ;
                lemma_pow10_mono(k as nat, n.scale as nat);
                assert(n.mantissa as int * 255 / pow10(n.scale as nat) as int == 0) by (nonlinear_arith)
                    requires
                        0 < n.mantissa as int,
                        n.mantissa as int * 255 < p,
                        p <= pow10(n.scale as nat),
                ;
            }
            return 0;
        }
        p = p * 10;
        k = k + 1;
    }
    let q = (n.mantissa as u128) * 255 / p;
    if q >= 255 {
        255
    } else {
        q as u8
    }
}

/// `rgb(r, g, b)` with each channel a whole number from 0 to 255.
pub open spec fn rgb_of(ts: Seq<Tok>) -> Option<CssColor> {
    if ts.len() == 8 && ts[0] == "rgb"@ && ts[1] == "("@ && ts[3] == ","@ && ts[5] == ","@
        && ts[7] == ")"@ && u8_of(ts[2]) is Some && u8_of(ts[4]) is Some && u8_of(ts[6]) is Some {
        Some(CssColor { r: u8_of(ts[2])->0, g: u8_of(ts[4])->0, b: u8_of(ts[6])->0, a: 255 })
    } else {
        None
    }
}

/// `rgba(r, g, b, a)`, the alpha a number from 0 to 1.
pub open spec fn rgba_of(ts: Seq<Tok>) -> Option<CssColor> {
    if ts.len() == 10 && ts[0] == "rgba"@ && ts[1] == "("@ && ts[3] == ","@ && ts[5] == ","@
        && ts[7] == ","@ && ts[9] == ")"@ && u8_of(ts[2]) is Some && u8_of(ts[4]) is Some && u8_of(
        ts[6],
    ) is Some && number_of(ts[8]) is Some {
        Some(
            CssColor {
                r: u8_of(ts[2])->0,
                g: u8_of(ts[4])->0,
                b: u8_of(ts[6])->0,
                a: alpha_of(number_of(ts[8])->0),
            },
        )
    } else {
        None
    }
}

/// The named colors, matched exactly.
pub open spec fn named_color(t: Tok) -> Option<CssColor> {
    if t == "transparent"@ {
        Some(CssColor { r: 0, g: 0, b: 0, a: 0 })
    } else if t == "black"@ {
        Some(CssColor { r: 0, g: 0, b: 0, a: 255 })
    } else if t == "silver"@ {
        Some(CssColor { r: 192, g: 192, b: 192, a: 255 })
    } else if t == "gray"@ {
        Some(CssColor { r: 128, g: 128, b: 128, a: 255 })
    } else if t == "white"@ {
        Some(CssColor { r: 255, g: 255, b: 255, a: 255 })
    } else if t == "maroon"@ {
        Some(CssColor { r: 128, g: 0, b: 0, a: 255 })
    } else if t == "red"@ {
        Some(CssColor { r: 255, g: 0, b: 0, a: 255 })
    } else if t == "purple"@ {
        Some(CssColor { r: 128, g: 0, b: 128, a: 255 })
    } else if t == "fuchsia"@ {
        Some(CssColor { r: 255, g: 0, b: 255, a: 255 })
    } else if t == "green"@ {
        Some(CssColor { r: 0, g: 128, b: 0, a: 255 })
    } else if t == "lime"@ {
        Some(CssColor { r: 0, g: 255, b: 0, a: 255 })
    } else if t == "olive"@ {
        Some(CssColor { r: 128, g: 128, b: 0, a: 255 })
    } else if t == "yellow"@ {
        Some(CssColor { r: 255, g: 255, b: 0, a: 255 })
    } else if t == "navy"@ {
        Some(CssColor { r: 0, g: 0, b: 128, a: 255 })
    } else if t == "blue"@ {
        Some(CssColor { r: 0, g: 0, b: 255, a: 255 })
    } else if t == "teal"@ {
        Some(CssColor { r: 0, g: 128, b: 128, a: 255 })
    } else if t == "aqua"@ {
        Some(CssColor { r: 0, g: 255, b: 255, a: 255 })
    } else if t == "orange"@ {
        Some(CssColor { r: 255, g: 165, b: 0, a: 255 })
    } else {
        None
    }
}

fn named_color_tok(t: &[char]) -> (r: Option<CssColor>)
    ensures
        r == named_color(t@),
{
    if lit_eq(t, "transparent") {
        Some(CssColor { r: 0, g: 0, b: 0, a: 0 })
    } else if lit_eq(t, "black") {
        Some(CssColor { r: 0, g: 0, b: 0, a: 255 })
    } else if lit_eq(t, "silver") {
        Some(CssColor { r: 192, g: 192, b: 192, a: 255 })
    } else if lit_eq(t, "gray") {
        Some(CssColor { r: 128, g: 128, b: 128, a: 255 })
    } else if lit_eq(t, "white") {
        Some(CssColor { r: 255, g: 255, b: 255, a: 255 })
    } else if lit_eq(t, "maroon") {
        Some(CssColor { r: 128, g: 0, b: 0, a: 255 })
    } else if lit_eq(t, "red") {
        Some(CssColor { r: 255, g: 0, b: 0, a: 255 })
    } else if lit_eq(t, "purple") {
        Some(CssColor { r: 128, g: 0, b: 128, a: 255 })
    } else if lit_eq(t, "fuchsia") {
        Some(CssColor { r: 255, g: 0, b: 255, a: 255 })
    } else if lit_eq(t, "green") {
        Some(CssColor { r: 0, g: 128, b: 0, a: 255 })
    } else if lit_eq(t, "lime") {
        Some(CssColor { r: 0, g: 255, b: 0, a: 255 })
    } else if lit_eq(t, "olive") {
        Some(CssColor { r: 128, g: 128, b: 0, a: 255 })
    } else if lit_eq(t, "yellow") {
        Some(CssColor { r: 255, g: 255, b: 0, a: 255 })
    } else if lit_eq(t, "navy") {
        Some(CssColor { r: 0, g: 0, b: 128, a: 255 })
    } else if lit_eq(t, "blue") {
        Some(CssColor { r: 0, g: 0, b: 255, a: 255 })
    } else if lit_eq(t, "teal") {
        Some(CssColor { r: 0, g: 128, b: 128, a: 255 })
    } else if lit_eq(t, "aqua") {
        Some(CssColor { r: 0, g: 255, b: 255, a: 255 })
    } else if lit_eq(t, "orange") {
        Some(CssColor { r: 255, g: 165, b: 0, a: 255 })
    } else {
        None
    }
}

/// A color: `#` and hex digits, `rgb(...)`, `rgba(...)` or a name.
pub open spec fn color_of(ts: Seq<Tok>) -> Option<CssColor> {
    if ts.len() == 2 && ts[0] == "#"@ {
        hex_color(ts[1])
    } else if rgb_of(ts) is Some {
        rgb_of(ts)
    } else if rgba_of(ts) is Some {
        rgba_of(ts)
    } else if ts.len() == 1 {
        named_color(ts[0])
    } else {
        None
    }
}

pub fn color_toks(ts: &[Vec<char>]) -> (r: Option<CssColor>)
    ensures
        r == color_of(toks_view(ts@)),
{
    let ghost v = toks_view(ts@);
    proof {
        assert forall|i: int| 0 <= i < ts.len() implies v[i] == (#[trigger] ts@[i])@ by {}
    }
    if ts.len() == 2 && lit_eq(ts[0].as_slice(), "#") {
        return hex_color_tok(ts[1].as_slice());
    }
    if ts.len() == 8 && lit_eq(ts[0].as_slice(), "rgb") && lit_eq(ts[1].as_slice(), "(")
        && lit_eq(ts[3].as_slice(), ",") && lit_eq(ts[5].as_slice(), ",") && lit_eq(
        ts[7].as_slice(),
        ")",
    ) {
        if let (Some(r), Some(g), Some(b)) = (
            u8_tok(ts[2].as_slice()),
            u8_tok(ts[4].as_slice()),
            u8_tok(ts[6].as_slice()),
        ) {
            return Some(CssColor { r, g, b, a: 255 });
        }
    }
    if ts.len() == 10 && lit_eq(ts[0].as_slice(), "rgba") && lit_eq(ts[1].as_slice(), "(")
        && lit_eq(ts[3].as_slice(), ",") && lit_eq(ts[5].as_slice(), ",") && lit_eq(
        ts[7].as_slice(),
        ",",
    ) && lit_eq(ts[9].as_slice(), ")") {
        if let (Some(r), Some(g), Some(b), Some(a)) = (
            u8_tok(ts[2].as_slice()),
            u8_tok(ts[4].as_slice()),
            u8_tok(ts[6].as_slice()),
            number_tok(ts[8].as_slice()),
        ) {
            return Some(CssColor { r, g, b, a: alpha8(a) });
        }
    }
    if ts.len() == 1 {
        return named_color_tok(ts[0].as_slice());
    }
    None
}

/// `none`, which is transparent, or a color.
pub open spec fn background_of(ts: Seq<Tok>) -> Option<CssColor> {
    if ts.len() == 1 && ts[0] == "none"@ {
        Some(CssColor { r: 0, g: 0, b: 0, a: 0 })
    } else {
        color_of(ts)
    }
}

pub fn background_toks(ts: &[Vec<char>]) -> (r: Option<CssColor>)
    ensures
        r == background_of(toks_view(ts@)),
{
    proof {
        if ts.len() == 1 {
            assert(toks_view(ts@)[0] == ts@[0]@);
        }
    }
    if ts.len() == 1 && lit_eq(ts[0].as_slice(), "none") {
        Some(CssColor { r: 0, g: 0, b: 0, a: 0 })
    } else {
        color_toks(ts)
    }
}

/// A font family: one token that starts like an identifier.
pub open spec fn font_family_of(ts: Seq<Tok>) -> Option<Seq<char>> {
    if ts.len() == 1 && ts[0].len() > 0 && is_ident_char(ts[0][0]) {
        Some(ts[0])
    } else {
        None
    }
}

} // verus!
