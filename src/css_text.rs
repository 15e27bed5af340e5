//! Serialization of styles back to declaration text.
use crate::keywords::Keyword;
use crate::props::{key, key_name, PropView, StyleProp};
use crate::style::{props_view, Style};
use crate::text::{chars_of, string_of};
use crate::values::{CssColor, CssDimension, CssNumber};
use vstd::prelude::*;

verus! {

pub open spec fn digit_char(d: nat) -> char {
    if d == 0 {
        '0'
    } else if d == 1 {
        '1'
    } else if d == 2 {
        '2'
    } else if d == 3 {
        '3'
    } else if d == 4 {
        '4'
    } else if d == 5 {
        '5'
    } else if d == 6 {
        '6'
    } else if d == 7 {
        '7'
    } else if d == 8 {
        '8'
    } else {
        '9'
    }
}

/// The decimal digits of `n`, without leading zeros.
pub open spec fn digits_of(n: nat) -> Seq<char>
    decreases n,
{
    if n < 10 {
        seq![digit_char(n)]
    } else {
        digits_of(n / 10).push(digit_char(n % 10))
    }
}

/// `ds` with zeros put in front until it has at least `w` characters.
pub open spec fn pad(ds: Seq<char>, w: nat) -> Seq<char>
    decreases w - ds.len(),
{
    if ds.len() >= w {
        ds
    } else {
        pad(seq!['0'] + ds, w)
    }
}

pub open spec fn abs(m: i64) -> nat {
    if m < 0 {
        (-(m as int)) as nat
    } else {
        m as nat
    }
}

/// A number in decimal: a `-` when negative, and a point before the last
/// `scale` digits.
pub open spec fn number_text(n: CssNumber) -> Seq<char> {
    let ds = pad(digits_of(abs(n.mantissa)), n.scale as nat + 1);
    let cut = ds.len() - n.scale as nat;
    let body = if n.scale == 0 {
        ds
    } else {
        ds.subrange(0, cut) + seq!['.'] + ds.subrange(cut, ds.len() as int)
    };
    if n.mantissa < 0 {
        seq!['-'] + body
    } else {
        body
    }
}

pub open spec fn dimension_text(d: CssDimension) -> Seq<char> {
    match d {
        CssDimension::Px(n) => number_text(n) + "px"@,
        CssDimension::Percent(n) => number_text(n) + "%"@,
        CssDimension::Auto => "auto"@,
        CssDimension::Zero => "0"@,
    }
}

pub open spec fn color_text(c: CssColor) -> Seq<char> {
    "rgba("@ + digits_of(c.r as nat) + ", "@ + digits_of(c.g as nat) + ", "@ + digits_of(
        c.b as nat,
    ) + ", "@ + digits_of(c.a as nat) + ")"@
}

/// The value of a property as text.
pub open spec fn value_text(p: PropView) -> Seq<char> {
    match p {
        PropView::Width(x) => dimension_text(x),
        PropView::Height(x) => dimension_text(x),
        PropView::MinWidth(x) => dimension_text(x),
        PropView::MinHeight(x) => dimension_text(x),
        PropView::MaxWidth(x) => dimension_text(x),
        PropView::MaxHeight(x) => dimension_text(x),
        PropView::PaddingTop(x) => dimension_text(x),
        PropView::PaddingRight(x) => dimension_text(x),
        PropView::PaddingBottom(x) => dimension_text(x),
        PropView::PaddingLeft(x) => dimension_text(x),
        PropView::MarginTop(x) => dimension_text(x),
        PropView::MarginRight(x) => dimension_text(x),
        PropView::MarginBottom(x) => dimension_text(x),
        PropView::MarginLeft(x) => dimension_text(x),
        PropView::Position(x) => x.name_spec(),
        PropView::Top(x) => dimension_text(x),
        PropView::Right(x) => dimension_text(x),
        PropView::Bottom(x) => dimension_text(x),
        PropView::Left(x) => dimension_text(x),
        PropView::Display(x) => x.name_spec(),
        PropView::Visibility(x) => x.name_spec(),
        PropView::Opacity(x) => number_text(x),
        PropView::FlexGrow(x) => number_text(x),
        PropView::FlexShrink(x) => number_text(x),
        PropView::FlexBasis(x) => dimension_text(x),
        PropView::FlexDirection(x) => x.name_spec(),
        PropView::FlexWrap(x) => x.name_spec(),
        PropView::AlignContent(x) => x.name_spec(),
        PropView::AlignItems(x) => x.name_spec(),
        PropView::AlignSelf(x) => x.name_spec(),
        PropView::JustifyContent(x) => x.name_spec(),
        PropView::OverflowX(x) => x.name_spec(),
        PropView::OverflowY(x) => x.name_spec(),
        PropView::Color(x) => color_text(x),
        PropView::BackgroundColor(x) => color_text(x),
        PropView::BorderTopWidth(x) => dimension_text(x),
        PropView::BorderRightWidth(x) => dimension_text(x),
        PropView::BorderBottomWidth(x) => dimension_text(x),
        PropView::BorderLeftWidth(x) => dimension_text(x),
        PropView::BorderTopStyle(x) => x.name_spec(),
        PropView::BorderRightStyle(x) => x.name_spec(),
        PropView::BorderBottomStyle(x) => x.name_spec(),
        PropView::BorderLeftStyle(x) => x.name_spec(),
        PropView::BorderTopColor(x) => color_text(x),
        PropView::BorderRightColor(x) => color_text(x),
        PropView::BorderBottomColor(x) => color_text(x),
        PropView::BorderLeftColor(x) => color_text(x),
        PropView::BorderTopLeftRadius(x) => dimension_text(x),
        PropView::BorderTopRightRadius(x) => dimension_text(x),
        PropView::BorderBottomRightRadius(x) => dimension_text(x),
        PropView::BorderBottomLeftRadius(x) => dimension_text(x),
        PropView::OutlineWidth(x) => dimension_text(x),
        PropView::OutlineStyle(x) => x.name_spec(),
        PropView::OutlineColor(x) => color_text(x),
        PropView::FontFamily(x) => x,
        PropView::FontSize(x) => dimension_text(x),
        PropView::LineHeight(x) => dimension_text(x),
        PropView::TextAlign(x) => x.name_spec(),
    }
}

/// One declaration: `name: value;`.
pub open spec fn prop_text(p: PropView) -> Seq<char> {
    key_name(key(p)) + ": "@ + value_text(p) + ";"@
}

/// The declarations of `ps`, in order, separated by single spaces.
pub open spec fn css_text_of(ps: Seq<PropView>) -> Seq<char>
    decreases ps.len(),
{
    if ps.len() == 0 {
        seq![]
    } else if ps.len() == 1 {
        prop_text(ps[0])
    } else {
        css_text_of(ps.drop_last()) + " "@ + prop_text(ps.last())
    }
}

fn push_str(v: &mut Vec<char>, s: &str)
    ensures
        final(v)@ == old(v)@ + s@,
{
    let cs = chars_of(s);
    let mut i: usize = 0;
    while i < cs.len()
        invariant
            i <= cs.len(),
            cs@ == s@,
            v@ == old(v)@ + cs@.take(i as int),
        decreases cs.len() - i,
    {
        v.push(cs[i]);
        i = i + 1;
        proof {
            assert(cs@.take(i as int) =~= cs@.take(i - 1).push(cs@[i - 1]));
        }
    }
    proof {
        assert(cs@.take(i as int) =~= cs@);
    }
}

fn push_chars(v: &mut Vec<char>, s: &[char])
    ensures
        final(v)@ == old(v)@ + s@,
{
    let mut i: usize = 0;
    while i < s.len()
        invariant
            i <= s.len(),
            v@ == old(v)@ + s@.take(i as int),
        decreases s.len() - i,
    {
        v.push(s[i]);
        i = i + 1;
        proof {
            assert(s@.take(i as int) =~= s@.take(i - 1).push(s@[i - 1]));
        }
    }
    proof {
        assert(s@.take(i as int) =~= s@);
    }
}

fn digit(d: u64) -> (c: char)
    requires
        d < 10,
    ensures
        c == digit_char(d as nat),
{
    if d == 0 {
        '0'
    } else if d == 1 {
        '1'
    } else if d == 2 {
        '2'
    } else if d == 3 {
        '3'
    } else if d == 4 {
        '4'
    } else if d == 5 {
        '5'
    } else if d == 6 {
        '6'
    } else if d == 7 {
        '7'
    } else if d == 8 {
        '8'
    } else {
        '9'
    }
}

fn digits(n: u64) -> (r: Vec<char>)
    ensures
        r@ == digits_of(n as nat),
{
    let mut acc: Vec<char> = Vec::new();
    let mut q = n;
    while q >= 10
        invariant
            digits_of(n as nat) == digits_of(q as nat) + acc@,
        decreases q,
    {
        let c = digit(q % 10);
        let ghost a0 = acc@;
        acc.insert(0, c);
        proof {
            assert(digits_of(q as nat) == digits_of((q / 10) as nat).push(c));
            assert(digits_of((q / 10) as nat).push(c) + a0 =~= digits_of((q / 10) as nat) + acc@);
        }
        q = q / 10;
    }
    let mut r: Vec<char> = Vec::new();
    r.push(digit(q));
    proof {
        assert(r@ =~= digits_of(q as nat));
    }
    push_chars(&mut r, acc.as_slice());
    r
}

fn number_chars(n: CssNumber) -> (r: Vec<char>)
    ensures
        r@ == number_text(n),
{
    let m: u64 = if n.mantissa < 0 {
        (-(n.mantissa as i128)) as u64
    } else {
        n.mantissa as u64
    };
    let mut ds = digits(m);
    let ghost d0 = ds@;
    let w: u64 = n.scale as u64 + 1;
    while (ds.len() as u64) < w
        invariant
            pad(d0, w as nat) == pad(ds@, w as nat),
            w == n.scale as u64 + 1,
        decreases w - ds.len(),
    {
        let ghost before = ds@;
        ds.insert(0, '0');
        proof {
            assert(ds@ =~= seq!['0'] + before);
        }
    }
    let mut r: Vec<char> = Vec::new();
    if n.mantissa < 0 {
        r.push('-');
    }
    let ghost r0 = r@;
    if n.scale == 0 {
        push_chars(&mut r, ds.as_slice());
    } else {
        let cut = ds.len() - n.scale as usize;
        push_chars(&mut r, &ds[0..cut]);
        r.push('.');
        push_chars(&mut r, &ds[cut..ds.len()]);
        proof {
            assert(r@ =~= r0 + (ds@.subrange(0, cut as int) + seq!['.'] + ds@.subrange(
                cut as int,
                ds@.len() as int,
            )));
        }
    }
    proof {
        assert(abs(n.mantissa) == m as nat);
        assert(pad(ds@, w as nat) == ds@);
        if n.mantissa < 0 {
            assert(r0 =~= seq!['-']);
        } else {
            assert(r0 =~= seq![]);
        }
    }
    r
}

fn dimension_chars(d: CssDimension) -> (r: Vec<char>)
    ensures
        r@ == dimension_text(d),
{
    match d {
        CssDimension::Px(n) => {
            let mut r = number_chars(n);
            push_str(&mut r, "px");
            r
        },
        CssDimension::Percent(n) => {
            let mut r = number_chars(n);
            push_str(&mut r, "%");
            r
        },
        CssDimension::Auto => {
            let mut r: Vec<char> = Vec::new();
            push_str(&mut r, "auto");
            proof {
                assert(r@ =~= "auto"@);
            }
            r
        },
        CssDimension::Zero => {
            let mut r: Vec<char> = Vec::new();
            push_str(&mut r, "0");
            proof {
                assert(r@ =~= "0"@);
            }
            r
        },
    }
}

fn color_chars(c: CssColor) -> (r: Vec<char>)
    ensures
        r@ == color_text(c),
{
    let mut r: Vec<char> = Vec::new();
    push_str(&mut r, "rgba(");
    push_chars(&mut r, digits(c.r as u64).as_slice());
    push_str(&mut r, ", ");
    push_chars(&mut r, digits(c.g as u64).as_slice());
    push_str(&mut r, ", ");
    push_chars(&mut r, digits(c.b as u64).as_slice());
    push_str(&mut r, ", ");
    push_chars(&mut r, digits(c.a as u64).as_slice());
    push_str(&mut r, ")");
    proof {
        assert(r@ =~= color_text(c));
    }
    r
}

fn value_chars(p: &StyleProp) -> (r: Vec<char>)
    ensures
        r@ == value_text(p@),
{
    match p {
        StyleProp::Width(x) => dimension_chars(*x),
        StyleProp::Height(x) => dimension_chars(*x),
        StyleProp::MinWidth(x) => dimension_chars(*x),
        StyleProp::MinHeight(x) => dimension_chars(*x),
        StyleProp::MaxWidth(x) => dimension_chars(*x),
        StyleProp::MaxHeight(x) => dimension_chars(*x),
        StyleProp::PaddingTop(x) => dimension_chars(*x),
        StyleProp::PaddingRight(x) => dimension_chars(*x),
        StyleProp::PaddingBottom(x) => dimension_chars(*x),
        StyleProp::PaddingLeft(x) => dimension_chars(*x),
        StyleProp::MarginTop(x) => dimension_chars(*x),
        StyleProp::MarginRight(x) => dimension_chars(*x),
        StyleProp::MarginBottom(x) => dimension_chars(*x),
        StyleProp::MarginLeft(x) => dimension_chars(*x),
        StyleProp::Position(x) => chars_of(x.name()),
        StyleProp::Top(x) => dimension_chars(*x),
        StyleProp::Right(x) => dimension_chars(*x),
        StyleProp::Bottom(x) => dimension_chars(*x),
        StyleProp::Left(x) => dimension_chars(*x),
        StyleProp::Display(x) => chars_of(x.name()),
        StyleProp::Visibility(x) => chars_of(x.name()),
        StyleProp::Opacity(x) => number_chars(*x),
        StyleProp::FlexGrow(x) => number_chars(*x),
        StyleProp::FlexShrink(x) => number_chars(*x),
        StyleProp::FlexBasis(x) => dimension_chars(*x),
        StyleProp::FlexDirection(x) => chars_of(x.name()),
        StyleProp::FlexWrap(x) => chars_of(x.name()),
        StyleProp::AlignContent(x) => chars_of(x.name()),
        StyleProp::AlignItems(x) => chars_of(x.name()),
        StyleProp::AlignSelf(x) => chars_of(x.name()),
        StyleProp::JustifyContent(x) => chars_of(x.name()),
        StyleProp::OverflowX(x) => chars_of(x.name()),
        StyleProp::OverflowY(x) => chars_of(x.name()),
        StyleProp::Color(x) => color_chars(*x),
        StyleProp::BackgroundColor(x) => color_chars(*x),
        StyleProp::BorderTopWidth(x) => dimension_chars(*x),
        StyleProp::BorderRightWidth(x) => dimension_chars(*x),
        StyleProp::BorderBottomWidth(x) => dimension_chars(*x),
        StyleProp::BorderLeftWidth(x) => dimension_chars(*x),
        StyleProp::BorderTopStyle(x) => chars_of(x.name()),
        StyleProp::BorderRightStyle(x) => chars_of(x.name()),
        StyleProp::BorderBottomStyle(x) => chars_of(x.name()),
        StyleProp::BorderLeftStyle(x) => chars_of(x.name()),
        StyleProp::BorderTopColor(x) => color_chars(*x),
        StyleProp::BorderRightColor(x) => color_chars(*x),
        StyleProp::BorderBottomColor(x) => color_chars(*x),
        StyleProp::BorderLeftColor(x) => color_chars(*x),
        StyleProp::BorderTopLeftRadius(x) => dimension_chars(*x),
        StyleProp::BorderTopRightRadius(x) => dimension_chars(*x),
        StyleProp::BorderBottomRightRadius(x) => dimension_chars(*x),
        StyleProp::BorderBottomLeftRadius(x) => dimension_chars(*x),
        StyleProp::OutlineWidth(x) => dimension_chars(*x),
        StyleProp::OutlineStyle(x) => chars_of(x.name()),
        StyleProp::OutlineColor(x) => color_chars(*x),
        StyleProp::FontFamily(x) => chars_of(x.as_str()),
        StyleProp::FontSize(x) => dimension_chars(*x),
        StyleProp::LineHeight(x) => dimension_chars(*x),
        StyleProp::TextAlign(x) => chars_of(x.name()),
    }
}

fn prop_chars(p: &StyleProp) -> (r: Vec<char>)
    ensures
        r@ == prop_text(p@),
{
    let mut r: Vec<char> = Vec::new();
    push_str(&mut r, p.css_name());
    push_str(&mut r, ": ");
    push_chars(&mut r, value_chars(p).as_slice());
    push_str(&mut r, ";");
    proof {
        assert(r@ =~= prop_text(p@));
    }
    r
}

impl Style {
    /// The declarations, in order: `name: value;` each, separated by
    /// single spaces.
    pub fn css_text(&self) -> (r: String)
        ensures
            r@ == css_text_of(self@),
    {
        let ps = self.props();
        let mut out: Vec<char> = Vec::new();
        let mut i: usize = 0;
        proof {
            assert(props_view(ps@).take(0) =~= Seq::<PropView>::empty());
        }
        while i < ps.len()
            invariant
                i <= ps.len(),
                props_view(ps@) == self@,
                out@ == css_text_of(props_view(ps@).take(i as int)),
            decreases ps.len() - i,
        {
            let ghost pv = props_view(ps@);
            if i > 0 {
                push_str(&mut out, " ");
            }
            let t = prop_chars(&ps[i]);
            push_chars(&mut out, t.as_slice());
            proof {
                let next = pv.take(i + 1);
                assert(next.drop_last() =~= pv.take(i as int));
                assert(next.last() == ps@[i as int]@);
                if i == 0 {
                    assert(next =~= seq![ps@[0]@]);
                    assert(out@ =~= prop_text(ps@[0]@));
                } else {
                    assert(out@ =~= css_text_of(pv.take(i as int)) + " "@ + prop_text(next.last()));
                }
            }
            i = i + 1;
        }
        proof {
            assert(props_view(ps@).take(i as int) =~= props_view(ps@));
        }
        string_of(out.as_slice())
    }
}

} // verus!
