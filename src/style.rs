//! Shorthands, and `Style`: an ordered list of longhands that holds at most
//! one value per longhand, the one written last, whether it came from a
//! longhand or from a shorthand.
use crate::keywords::{CssBorderStyle, CssOverflow};
use crate::props::{key, longhand_of, longhand_toks, PropView, StyleProp};
use crate::text::{chars_of, lit_eq};
use crate::tokenizer::{tokenize_chars, tokens_of, toks_view, Tok};
use crate::values::{
    background_of, background_toks, CssColor, CssDimension, CssNumber, CssValue, ParseError,
};
use vstd::prelude::*;

verus! {

/// The tokens split at each space token into the components of a
/// multi-value property.
pub open spec fn split_spaces(ts: Seq<Tok>) -> Seq<Seq<Tok>>
    decreases ts.len(),
{
    if ts.len() == 0 {
        seq![seq![]]
    } else {
        let g = split_spaces(ts.drop_last());
        if ts.last() == seq![' '] {
            g.push(seq![])
        } else {
            g.update(g.len() - 1, g.last().push(ts.last()))
        }
    }
}

pub open spec fn groups_view(g: Seq<Vec<Vec<char>>>) -> Seq<Seq<Tok>> {
    g.map_values(|v: Vec<Vec<char>>| toks_view(v@))
}

fn split_toks(ts: &[Vec<char>]) -> (r: Vec<Vec<Vec<char>>>)
    ensures
        groups_view(r@) == split_spaces(toks_view(ts@)),
{
    let ghost tv = toks_view(ts@);
    let mut groups: Vec<Vec<Vec<char>>> = Vec::new();
    let first: Vec<Vec<char>> = Vec::new();
    groups.push(first);
    let mut k: usize = 0;
    proof {
        assert(tv.take(0) =~= seq![]);
        assert(toks_view(groups@[0]@) =~= seq![]);
        assert(groups_view(groups@) =~= seq![seq![]]);
    }
    while k < ts.len()
        invariant
            k <= ts.len(),
            tv == toks_view(ts@),
            groups.len() >= 1,
            groups_view(groups@) == split_spaces(tv.take(k as int)),
        decreases ts.len() - k,
    {
        let t = &ts[k];
        proof {
            assert(tv.take(k + 1).drop_last() =~= tv.take(k as int));
            assert(tv.take(k + 1).last() == t@);
        }
        if t.len() == 1 && t[0] == ' ' {
            proof {
                assert(t@ =~= seq![' ']);
            }
            let ghost before = groups@;
            let fresh: Vec<Vec<char>> = Vec::new();
            groups.push(fresh);
            proof {
                assert(toks_view(groups@.last()@) =~= seq![]);
                assert(groups_view(groups@) =~= groups_view(before).push(seq![]));
            }
        } else {
            proof {
                if t.len() == 1 {
                    assert(t@ =~= seq![t@[0]]);
                }
                assert(t@ != seq![' ']);
            }
            let last = groups.len() - 1;
            let ghost before = groups@;
            let c = t.clone();
            proof {
                assert(c@ == t@);
            }
            groups[last].push(c);
            proof {
                assert(groups@ == before.update(last as int, groups@[last as int]));
                assert(toks_view(groups@[last as int]@) =~= toks_view(before[last as int]@).push(t@));
                assert(groups_view(groups@) =~= groups_view(before).update(
                    last as int,
                    groups_view(before).last().push(t@),
                ));
            }
        }
        k = k + 1;
    }
    proof {
        assert(tv.take(k as int) =~= tv);
    }
    groups
}

/// Whether every component parses as a `T`.
pub open spec fn all_parse<T: CssValue>(comps: Seq<Seq<Tok>>) -> bool {
    forall|i: int| 0 <= i < comps.len() ==> (#[trigger] T::tokens_spec(comps[i])) is Some
}

pub open spec fn pv<T: CssValue>(comps: Seq<Seq<Tok>>, i: int) -> T {
    T::tokens_spec(comps[i])->0
}

/// One to four values for top, right, bottom and left: one value is used
/// for all sides, two for vertical and horizontal, three for top,
/// horizontal and bottom.
pub open spec fn sides_of<T: CssValue>(comps: Seq<Seq<Tok>>) -> Option<(T, T, T, T)> {
    if !all_parse::<T>(comps) {
        None
    } else if comps.len() == 1 {
        Some((pv(comps, 0), pv(comps, 0), pv(comps, 0), pv(comps, 0)))
    } else if comps.len() == 2 {
        Some((pv(comps, 0), pv(comps, 1), pv(comps, 0), pv(comps, 1)))
    } else if comps.len() == 3 {
        Some((pv(comps, 0), pv(comps, 1), pv(comps, 2), pv(comps, 1)))
    } else if comps.len() == 4 {
        Some((pv(comps, 0), pv(comps, 1), pv(comps, 2), pv(comps, 3)))
    } else {
        None
    }
}

fn sides_toks<T: CssValue>(comps: &Vec<Vec<Vec<char>>>) -> (r: Option<(T, T, T, T)>)
    ensures
        r == sides_of::<T>(groups_view(comps@)),
{
    let ghost gv = groups_view(comps@);
    if comps.len() == 0 || comps.len() > 4 {
        return None;
    }
    let mut vals: Vec<T> = Vec::new();
    let mut k: usize = 0;
    while k < comps.len()
        invariant
            k <= comps.len(),
            gv == groups_view(comps@),
            vals.len() == k,
            forall|i: int| 0 <= i < k ==> (#[trigger] T::tokens_spec(gv[i])) == Some(vals@[i]),
        decreases comps.len() - k,
    {
        proof {
            assert(gv[k as int] == toks_view(comps@[k as int]@));
        }
        match T::from_tokens(comps[k].as_slice()) {
            Some(v) => vals.push(v),
            None => {
                return None;
            },
        }
        k = k + 1;
    }
    proof {
        assert(all_parse::<T>(gv));
    }
    if vals.len() == 1 {
        Some((vals[0], vals[0], vals[0], vals[0]))
    } else if vals.len() == 2 {
        Some((vals[0], vals[1], vals[0], vals[1]))
    } else if vals.len() == 3 {
        Some((vals[0], vals[1], vals[2], vals[1]))
    } else {
        Some((vals[0], vals[1], vals[2], vals[3]))
    }
}

pub open spec fn one() -> CssNumber {
    CssNumber { mantissa: 1, scale: 0 }
}

/// `flex: <grow> [<shrink>] [<basis>]`; shrink defaults to 1 and basis to
/// `auto`.
pub open spec fn flex_of(comps: Seq<Seq<Tok>>) -> Option<Seq<PropView>> {
    if comps.len() == 1 && CssNumber::tokens_spec(comps[0]) is Some {
        Some(
            seq![
                PropView::FlexGrow(pv(comps, 0)),
                PropView::FlexShrink(one()),
                PropView::FlexBasis(CssDimension::Auto),
            ],
        )
    } else if comps.len() == 2 && CssNumber::tokens_spec(comps[0]) is Some
        && CssNumber::tokens_spec(comps[1]) is Some {
        Some(
            seq![
                PropView::FlexGrow(pv(comps, 0)),
                PropView::FlexShrink(pv(comps, 1)),
                PropView::FlexBasis(CssDimension::Auto),
            ],
        )
    } else if comps.len() == 2 && CssNumber::tokens_spec(comps[0]) is Some
        && CssDimension::tokens_spec(comps[1]) is Some {
        Some(
            seq![
                PropView::FlexGrow(pv(comps, 0)),
                PropView::FlexShrink(one()),
                PropView::FlexBasis(pv(comps, 1)),
            ],
        )
    } else if comps.len() == 3 && CssNumber::tokens_spec(comps[0]) is Some
        && CssNumber::tokens_spec(comps[1]) is Some && CssDimension::tokens_spec(comps[2]) is Some {
        Some(
            seq![
                PropView::FlexGrow(pv(comps, 0)),
                PropView::FlexShrink(pv(comps, 1)),
                PropView::FlexBasis(pv(comps, 2)),
            ],
        )
    } else {
        None
    }
}

/// `overflow: <x> [<y>]`; y defaults to x.
pub open spec fn overflow_of(comps: Seq<Seq<Tok>>) -> Option<Seq<PropView>> {
    if comps.len() == 1 && CssOverflow::tokens_spec(comps[0]) is Some {
        Some(seq![PropView::OverflowX(pv(comps, 0)), PropView::OverflowY(pv(comps, 0))])
    } else if comps.len() == 2 && CssOverflow::tokens_spec(comps[0]) is Some
        && CssOverflow::tokens_spec(comps[1]) is Some {
        Some(seq![PropView::OverflowX(pv(comps, 0)), PropView::OverflowY(pv(comps, 1))])
    } else {
        None
    }
}

/// `outline: <width> <style> <color>`, in that order.
pub open spec fn outline_of(comps: Seq<Seq<Tok>>) -> Option<Seq<PropView>> {
    if comps.len() == 3 && CssDimension::tokens_spec(comps[0]) is Some
        && CssBorderStyle::tokens_spec(comps[1]) is Some && CssColor::tokens_spec(comps[2]) is Some {
        Some(
            seq![
                PropView::OutlineWidth(pv(comps, 0)),
                PropView::OutlineStyle(pv(comps, 1)),
                PropView::OutlineColor(pv(comps, 2)),
            ],
        )
    } else {
        None
    }
}

/// `padding`, one to four values.
pub open spec fn padding_of(comps: Seq<Seq<Tok>>) -> Option<Seq<PropView>> {
    match sides_of::<CssDimension>(comps) {
        Some((t, r, b, l)) => Some(
            seq![
                PropView::PaddingTop(t),
                PropView::PaddingRight(r),
                PropView::PaddingBottom(b),
                PropView::PaddingLeft(l),
            ],
        ),
        None => None,
    }
}

/// `margin`, one to four values.
pub open spec fn margin_of(comps: Seq<Seq<Tok>>) -> Option<Seq<PropView>> {
    match sides_of::<CssDimension>(comps) {
        Some((t, r, b, l)) => Some(
            seq![
                PropView::MarginTop(t),
                PropView::MarginRight(r),
                PropView::MarginBottom(b),
                PropView::MarginLeft(l),
            ],
        ),
        None => None,
    }
}

/// `border-width`, one to four values.
pub open spec fn border_width_of(comps: Seq<Seq<Tok>>) -> Option<Seq<PropView>> {
    match sides_of::<CssDimension>(comps) {
        Some((t, r, b, l)) => Some(
            seq![
                PropView::BorderTopWidth(t),
                PropView::BorderRightWidth(r),
                PropView::BorderBottomWidth(b),
                PropView::BorderLeftWidth(l),
            ],
        ),
        None => None,
    }
}

/// `border-style`, one to four values.
pub open spec fn border_style_of(comps: Seq<Seq<Tok>>) -> Option<Seq<PropView>> {
    match sides_of::<CssBorderStyle>(comps) {
        Some((t, r, b, l)) => Some(
            seq![
                PropView::BorderTopStyle(t),
                PropView::BorderRightStyle(r),
                PropView::BorderBottomStyle(b),
                PropView::BorderLeftStyle(l),
            ],
        ),
        None => None,
    }
}

/// `border-color`, one to four values.
pub open spec fn border_color_of(comps: Seq<Seq<Tok>>) -> Option<Seq<PropView>> {
    match sides_of::<CssColor>(comps) {
        Some((t, r, b, l)) => Some(
            seq![
                PropView::BorderTopColor(t),
                PropView::BorderRightColor(r),
                PropView::BorderBottomColor(b),
                PropView::BorderLeftColor(l),
            ],
        ),
        None => None,
    }
}

/// `border-radius`, one to four values.
pub open spec fn border_radius_of(comps: Seq<Seq<Tok>>) -> Option<Seq<PropView>> {
    match sides_of::<CssDimension>(comps) {
        Some((t, r, b, l)) => Some(
            seq![
                PropView::BorderTopLeftRadius(t),
                PropView::BorderTopRightRadius(r),
                PropView::BorderBottomRightRadius(b),
                PropView::BorderBottomLeftRadius(l),
            ],
        ),
        None => None,
    }
}

/// `background`: one color, or `none`.
pub open spec fn background_sh_of(ts: Seq<Tok>) -> Option<Seq<PropView>> {
    match background_of(ts) {
        Some(c) => Some(seq![PropView::BackgroundColor(c)]),
        None => None,
    }
}

/// The longhands a shorthand named `name` expands to, in a fixed order, if
/// the name is a shorthand and the value parses.
pub open spec fn shorthand_of(name: Seq<char>, ts: Seq<Tok>) -> Option<Seq<PropView>> {
    let comps = split_spaces(ts);
    if name == "overflow"@ {
        overflow_of(comps)
    } else if name == "flex"@ {
        flex_of(comps)
    } else if name == "padding"@ {
        padding_of(comps)
    } else if name == "margin"@ {
        margin_of(comps)
    } else if name == "border-width"@ {
        border_width_of(comps)
    } else if name == "border-style"@ {
        border_style_of(comps)
    } else if name == "border-color"@ {
        border_color_of(comps)
    } else if name == "border-radius"@ {
        border_radius_of(comps)
    } else if name == "outline"@ {
        outline_of(comps)
    } else if name == "background"@ {
        background_sh_of(ts)
    } else {
        None
    }
}

pub open spec fn props_view(v: Seq<StyleProp>) -> Seq<PropView> {
    v.map_values(|p: StyleProp| p@)
}

pub open spec fn opt_props_view(r: Option<Vec<StyleProp>>) -> Option<Seq<PropView>> {
    match r {
        Some(v) => Some(props_view(v@)),
        None => None,
    }
}

fn four(a: StyleProp, b: StyleProp, c: StyleProp, d: StyleProp) -> (r: Vec<StyleProp>)
    ensures
        props_view(r@) == seq![a@, b@, c@, d@],
{
    let mut v: Vec<StyleProp> = Vec::new();
    v.push(a);
    v.push(b);
    v.push(c);
    v.push(d);
    proof {
        assert(props_view(v@) =~= seq![a@, b@, c@, d@]);
    }
    v
}

fn three(a: StyleProp, b: StyleProp, c: StyleProp) -> (r: Vec<StyleProp>)
    ensures
        props_view(r@) == seq![a@, b@, c@],
{
    let mut v: Vec<StyleProp> = Vec::new();
    v.push(a);
    v.push(b);
    v.push(c);
    proof {
        assert(props_view(v@) =~= seq![a@, b@, c@]);
    }
    v
}

fn two(a: StyleProp, b: StyleProp) -> (r: Vec<StyleProp>)
    ensures
        props_view(r@) == seq![a@, b@],
{
    let mut v: Vec<StyleProp> = Vec::new();
    v.push(a);
    v.push(b);
    proof {
        assert(props_view(v@) =~= seq![a@, b@]);
    }
    v
}

fn padding_toks(comps: &Vec<Vec<Vec<char>>>) -> (r: Option<Vec<StyleProp>>)
    ensures
        opt_props_view(r) == padding_of(groups_view(comps@)),
{
    match sides_toks::<CssDimension>(comps) {
        Some((t, r, b, l)) => Some(
            four(
                StyleProp::PaddingTop(t),
                StyleProp::PaddingRight(r),
                StyleProp::PaddingBottom(b),
                StyleProp::PaddingLeft(l),
            ),
        ),
        None => None,
    }
}

fn margin_toks(comps: &Vec<Vec<Vec<char>>>) -> (r: Option<Vec<StyleProp>>)
    ensures
        opt_props_view(r) == margin_of(groups_view(comps@)),
{
    match sides_toks::<CssDimension>(comps) {
        Some((t, r, b, l)) => Some(
            four(
                StyleProp::MarginTop(t),
                StyleProp::MarginRight(r),
                StyleProp::MarginBottom(b),
                StyleProp::MarginLeft(l),
            ),
        ),
        None => None,
    }
}

fn border_width_toks(comps: &Vec<Vec<Vec<char>>>) -> (r: Option<Vec<StyleProp>>)
    ensures
        opt_props_view(r) == border_width_of(groups_view(comps@)),
{
    match sides_toks::<CssDimension>(comps) {
        Some((t, r, b, l)) => Some(
            four(
                StyleProp::BorderTopWidth(t),
                StyleProp::BorderRightWidth(r),
                StyleProp::BorderBottomWidth(b),
                StyleProp::BorderLeftWidth(l),
            ),
        ),
        None => None,
    }
}

fn border_style_toks(comps: &Vec<Vec<Vec<char>>>) -> (r: Option<Vec<StyleProp>>)
    ensures
        opt_props_view(r) == border_style_of(groups_view(comps@)),
{
    match sides_toks::<CssBorderStyle>(comps) {
        Some((t, r, b, l)) => Some(
            four(
                StyleProp::BorderTopStyle(t),
                StyleProp::BorderRightStyle(r),
                StyleProp::BorderBottomStyle(b),
                StyleProp::BorderLeftStyle(l),
            ),
        ),
        None => None,
    }
}

fn border_color_toks(comps: &Vec<Vec<Vec<char>>>) -> (r: Option<Vec<StyleProp>>)
    ensures
        opt_props_view(r) == border_color_of(groups_view(comps@)),
{
    match sides_toks::<CssColor>(comps) {
        Some((t, r, b, l)) => Some(
            four(
                StyleProp::BorderTopColor(t),
                StyleProp::BorderRightColor(r),
                StyleProp::BorderBottomColor(b),
                StyleProp::BorderLeftColor(l),
            ),
        ),
        None => None,
    }
}

fn border_radius_toks(comps: &Vec<Vec<Vec<char>>>) -> (r: Option<Vec<StyleProp>>)
    ensures
        opt_props_view(r) == border_radius_of(groups_view(comps@)),
{
    match sides_toks::<CssDimension>(comps) {
        Some((t, r, b, l)) => Some(
            four(
                StyleProp::BorderTopLeftRadius(t),
                StyleProp::BorderTopRightRadius(r),
                StyleProp::BorderBottomRightRadius(b),
                StyleProp::BorderBottomLeftRadius(l),
            ),
        ),
        None => None,
    }
}

fn overflow_toks(comps: &Vec<Vec<Vec<char>>>) -> (r: Option<Vec<StyleProp>>)
    ensures
        opt_props_view(r) == overflow_of(groups_view(comps@)),
{
    let ghost gv = groups_view(comps@);
    proof {
        assert forall|i: int| 0 <= i < comps.len() implies gv[i] == toks_view(
            (#[trigger] comps@[i])@,
        ) by {}
    }
    if comps.len() == 1 {
        if let Some(x) = CssOverflow::from_tokens(comps[0].as_slice()) {
            return Some(two(StyleProp::OverflowX(x), StyleProp::OverflowY(x)));
        }
    } else if comps.len() == 2 {
        if let (Some(x), Some(y)) = (
            CssOverflow::from_tokens(comps[0].as_slice()),
            CssOverflow::from_tokens(comps[1].as_slice()),
        ) {
            return Some(two(StyleProp::OverflowX(x), StyleProp::OverflowY(y)));
        }
    }
    None
}

fn flex_toks(comps: &Vec<Vec<Vec<char>>>) -> (r: Option<Vec<StyleProp>>)
    ensures
        opt_props_view(r) == flex_of(groups_view(comps@)),
{
    let ghost gv = groups_view(comps@);
    proof {
        assert forall|i: int| 0 <= i < comps.len() implies gv[i] == toks_view(
            (#[trigger] comps@[i])@,
        ) by {}
    }
    if comps.len() == 1 {
        if let Some(g) = CssNumber::from_tokens(comps[0].as_slice()) {
            return Some(
                three(
                    StyleProp::FlexGrow(g),
                    StyleProp::FlexShrink(CssNumber { mantissa: 1, scale: 0 }),
                    StyleProp::FlexBasis(CssDimension::Auto),
                ),
            );
        }
    } else if comps.len() == 2 {
        if let Some(g) = CssNumber::from_tokens(comps[0].as_slice()) {
            if let Some(s) = CssNumber::from_tokens(comps[1].as_slice()) {
                return Some(
                    three(
                        StyleProp::FlexGrow(g),
                        StyleProp::FlexShrink(s),
                        StyleProp::FlexBasis(CssDimension::Auto),
                    ),
                );
            }
            if let Some(b) = CssDimension::from_tokens(comps[1].as_slice()) {
                return Some(
                    three(
                        StyleProp::FlexGrow(g),
                        StyleProp::FlexShrink(CssNumber { mantissa: 1, scale: 0 }),
                        StyleProp::FlexBasis(b),
                    ),
                );
            }
        }
    } else if comps.len() == 3 {
        if let (Some(g), Some(s), Some(b)) = (
            CssNumber::from_tokens(comps[0].as_slice()),
            CssNumber::from_tokens(comps[1].as_slice()),
            CssDimension::from_tokens(comps[2].as_slice()),
        ) {
            return Some(
                three(StyleProp::FlexGrow(g), StyleProp::FlexShrink(s), StyleProp::FlexBasis(b)),
            );
        }
    }
    None
}

fn outline_toks(comps: &Vec<Vec<Vec<char>>>) -> (r: Option<Vec<StyleProp>>)
    ensures
        opt_props_view(r) == outline_of(groups_view(comps@)),
{
    let ghost gv = groups_view(comps@);
    proof {
        assert forall|i: int| 0 <= i < comps.len() implies gv[i] == toks_view(
            (#[trigger] comps@[i])@,
        ) by {}
    }
    if comps.len() == 3 {
        if let (Some(w), Some(s), Some(c)) = (
            CssDimension::from_tokens(comps[0].as_slice()),
            CssBorderStyle::from_tokens(comps[1].as_slice()),
            CssColor::from_tokens(comps[2].as_slice()),
        ) {
            return Some(
                three(StyleProp::OutlineWidth(w), StyleProp::OutlineStyle(s), StyleProp::OutlineColor(c)),
            );
        }
    }
    None
}

fn background_sh_toks(ts: &[Vec<char>]) -> (r: Option<Vec<StyleProp>>)
    ensures
        opt_props_view(r) == background_sh_of(toks_view(ts@)),
{
    match background_toks(ts) {
        Some(c) => {
            let mut v: Vec<StyleProp> = Vec::new();
            v.push(StyleProp::BackgroundColor(c));
            proof {
                assert(props_view(v@) =~= seq![PropView::BackgroundColor(c)]);
            }
            Some(v)
        },
        None => None,
    }
}

/// Expands the shorthand `name`.
pub fn shorthand_toks(name: &[char], ts: &[Vec<char>]) -> (r: Option<Vec<StyleProp>>)
    ensures
        opt_props_view(r) == shorthand_of(name@, toks_view(ts@)),
{
    let comps = split_toks(ts);
    if lit_eq(name, "overflow") {
        overflow_toks(&comps)
    } else if lit_eq(name, "flex") {
        flex_toks(&comps)
    } else if lit_eq(name, "padding") {
        padding_toks(&comps)
    } else if lit_eq(name, "margin") {
        margin_toks(&comps)
    } else if lit_eq(name, "border-width") {
        border_width_toks(&comps)
    } else if lit_eq(name, "border-style") {
        border_style_toks(&comps)
    } else if lit_eq(name, "border-color") {
        border_color_toks(&comps)
    } else if lit_eq(name, "border-radius") {
        border_radius_toks(&comps)
    } else if lit_eq(name, "outline") {
        outline_toks(&comps)
    } else if lit_eq(name, "background") {
        background_sh_toks(ts)
    } else {
        None
    }
}

/// What a declaration `name: ts` contributes: the longhand table first,
/// then the shorthands; nothing for an unknown name or a value that does
/// not parse.
pub open spec fn resolve(name: Seq<char>, ts: Seq<Tok>) -> Seq<PropView> {
    match longhand_of(name, ts) {
        Some(p) => seq![p],
        None => match shorthand_of(name, ts) {
            Some(ps) => ps,
            None => seq![],
        },
    }
}

/// The first index at or after `i` of a property with key `k`.
pub open spec fn key_index_from(ps: Seq<PropView>, k: nat, i: int) -> Option<int>
    decreases ps.len() - i,
{
    if i < 0 || i >= ps.len() {
        None
    } else if key(ps[i]) == k {
        Some(i)
    } else {
        key_index_from(ps, k, i + 1)
    }
}

pub open spec fn key_index(ps: Seq<PropView>, k: nat) -> Option<int> {
    key_index_from(ps, k, 0)
}

/// The value a list of properties gives the longhand with key `k`.
pub open spec fn effective(ps: Seq<PropView>, k: nat) -> Option<PropView> {
    match key_index(ps, k) {
        Some(i) => Some(ps[i]),
        None => None,
    }
}

/// No longhand appears twice.
pub open spec fn keys_unique(ps: Seq<PropView>) -> bool {
    forall|i: int, j: int|
        0 <= i < ps.len() && 0 <= j < ps.len() && key(#[trigger] ps[i]) == key(#[trigger] ps[j])
            ==> i == j
}

/// `ps` with `p` written: it replaces the value of its longhand in place,
/// or is appended.
pub open spec fn with_prop(ps: Seq<PropView>, p: PropView) -> Seq<PropView> {
    match key_index(ps, key(p)) {
        Some(i) => ps.update(i, p),
        None => ps.push(p),
    }
}

/// `ps` with each of `qs` written, in order.
pub open spec fn with_props(ps: Seq<PropView>, qs: Seq<PropView>) -> Seq<PropView>
    decreases qs.len(),
{
    if qs.len() == 0 {
        ps
    } else {
        with_prop(with_props(ps, qs.drop_last()), qs.last())
    }
}

/// The last of `qs` with key `k`.
pub open spec fn last_with_key(qs: Seq<PropView>, k: nat) -> Option<PropView>
    decreases qs.len(),
{
    if qs.len() == 0 {
        None
    } else if key(qs.last()) == k {
        Some(qs.last())
    } else {
        last_with_key(qs.drop_last(), k)
    }
}

proof fn lemma_key_index_from(ps: Seq<PropView>, k: nat, i: int)
    requires
        0 <= i,
    ensures
        match key_index_from(ps, k, i) {
            Some(j) => i <= j < ps.len() && key(ps[j]) == k && forall|m: int|
                i <= m < j ==> key(#[trigger] ps[m]) != k,
            None => forall|m: int| i <= m < ps.len() ==> key(#[trigger] ps[m]) != k,
        },
    decreases ps.len() - i,
{
    if i < ps.len() && key(ps[i]) != k {
        lemma_key_index_from(ps, k, i + 1);
    }
}

proof fn lemma_key_index(ps: Seq<PropView>, k: nat)
    requires
        keys_unique(ps),
    ensures
        match key_index(ps, k) {
            Some(j) => 0 <= j < ps.len() && key(ps[j]) == k,
            None => forall|m: int| 0 <= m < ps.len() ==> key(#[trigger] ps[m]) != k,
        },
{
    lemma_key_index_from(ps, k, 0);
}

/// Writing a property keeps the longhands unique, gives its longhand the
/// written value, and leaves every other longhand as it was.
pub proof fn law_write_prop(ps: Seq<PropView>, p: PropView)
    requires
        keys_unique(ps),
    ensures
        keys_unique(with_prop(ps, p)),
        effective(with_prop(ps, p), key(p)) == Some(p),
        forall|k: nat| k != key(p) ==> #[trigger] effective(with_prop(ps, p), k) == effective(ps, k),
{
    let q = with_prop(ps, p);
    lemma_key_index(ps, key(p));
    assert(keys_unique(q));
    lemma_key_index(q, key(p));
    match key_index(ps, key(p)) {
        Some(j) => {
            assert(key(q[j]) == key(p));
        },
        None => {
            assert(key(q[ps.len() as int]) == key(p));
        },
    }
    assert forall|k: nat| k != key(p) implies #[trigger] effective(q, k) == effective(ps, k) by {
        lemma_key_index(ps, k);
        lemma_key_index(q, k);
        match key_index(ps, k) {
            Some(j) => {
                assert(q[j] == ps[j]);
                assert(key(q[j]) == k);
            },
            None => {
                assert forall|m: int| 0 <= m < q.len() implies key(#[trigger] q[m]) != k by {
                    if m < ps.len() && q[m] != p {
                        assert(q[m] == ps[m]);
                    }
                }
            },
        }
    }
}

/// Last write wins: after writing `qs` in order, each longhand holds the
/// last value `qs` gives it, or its earlier value if `qs` gives none, and
/// no longhand appears twice. This holds whichever longhands or shorthands
/// produced `qs`.
pub proof fn law_last_write_wins(ps: Seq<PropView>, qs: Seq<PropView>)
    requires
        keys_unique(ps),
    ensures
        keys_unique(with_props(ps, qs)),
        forall|k: nat| #[trigger]
            effective(with_props(ps, qs), k) == match last_with_key(qs, k) {
                Some(p) => Some(p),
                None => effective(ps, k),
            },
    decreases qs.len(),
{
    if qs.len() > 0 {
        law_last_write_wins(ps, qs.drop_last());
        law_write_prop(with_props(ps, qs.drop_last()), qs.last());
    }
}


/// Setting `background-color` and then applying the `background` shorthand
/// leaves one background color in the style: the one `background` gives.
pub proof fn law_background_overrides_background_color(
    ps: Seq<PropView>,
    v1: Seq<Tok>,
    v2: Seq<Tok>,
)
    requires
        keys_unique(ps),
        CssColor::tokens_spec(v1) is Some,
        background_of(v2) is Some,
    ensures
        ({
            let s = with_props(
                with_props(ps, resolve("background-color"@, v1)),
                resolve("background"@, v2),
            );
            let bg = PropView::BackgroundColor(background_of(v2)->0);
            &&& keys_unique(s)
            &&& effective(s, key(bg)) == Some(bg)
            &&& forall|i: int| 0 <= i < s.len() && key(#[trigger] s[i]) == key(bg) ==> s[i] == bg
        }),
{
    reveal_strlit("width");
    reveal_strlit("height");
    reveal_strlit("min-width");
    reveal_strlit("min-height");
    reveal_strlit("max-width");
    reveal_strlit("max-height");
    reveal_strlit("padding-top");
    reveal_strlit("padding-right");
    reveal_strlit("padding-bottom");
    reveal_strlit("padding-left");
    reveal_strlit("margin-top");
    reveal_strlit("margin-right");
    reveal_strlit("margin-bottom");
    reveal_strlit("margin-left");
    reveal_strlit("position");
    reveal_strlit("top");
    reveal_strlit("right");
    reveal_strlit("bottom");
    reveal_strlit("left");
    reveal_strlit("display");
    reveal_strlit("visibility");
    reveal_strlit("opacity");
    reveal_strlit("flex-grow");
    reveal_strlit("flex-shrink");
    reveal_strlit("flex-basis");
    reveal_strlit("flex-direction");
    reveal_strlit("flex-wrap");
    reveal_strlit("align-content");
    reveal_strlit("align-items");
    reveal_strlit("align-self");
    reveal_strlit("justify-content");
    reveal_strlit("overflow-x");
    reveal_strlit("overflow-y");
    reveal_strlit("color");
    reveal_strlit("background-color");
    reveal_strlit("border-top-width");
    reveal_strlit("border-right-width");
    reveal_strlit("border-bottom-width");
    reveal_strlit("border-left-width");
    reveal_strlit("border-top-style");
    reveal_strlit("border-right-style");
    reveal_strlit("border-bottom-style");
    reveal_strlit("border-left-style");
    reveal_strlit("border-top-color");
    reveal_strlit("border-right-color");
    reveal_strlit("border-bottom-color");
    reveal_strlit("border-left-color");
    reveal_strlit("border-top-left-radius");
    reveal_strlit("border-top-right-radius");
    reveal_strlit("border-bottom-right-radius");
    reveal_strlit("border-bottom-left-radius");
    reveal_strlit("outline-width");
    reveal_strlit("outline-style");
    reveal_strlit("outline-color");
    reveal_strlit("font-family");
    reveal_strlit("font-size");
    reveal_strlit("line-height");
    reveal_strlit("text-align");
    reveal_strlit("overflow");
    reveal_strlit("flex");
    reveal_strlit("padding");
    reveal_strlit("margin");
    reveal_strlit("border-width");
    reveal_strlit("border-style");
    reveal_strlit("border-color");
    reveal_strlit("border-radius");
    reveal_strlit("outline");
    reveal_strlit("background");
    assert("background-color"@.len() != "width"@.len());
    assert("background-color"@.len() != "height"@.len());
    assert("background-color"@.len() != "min-width"@.len());
    assert("background-color"@.len() != "min-height"@.len());
    assert("background-color"@.len() != "max-width"@.len());
    assert("background-color"@.len() != "max-height"@.len());
    assert("background-color"@.len() != "padding-top"@.len());
    assert("background-color"@.len() != "padding-right"@.len());
    assert("background-color"@.len() != "padding-bottom"@.len());
    assert("background-color"@.len() != "padding-left"@.len());
    assert("background-color"@.len() != "margin-top"@.len());
    assert("background-color"@.len() != "margin-right"@.len());
    assert("background-color"@.len() != "margin-bottom"@.len());
    assert("background-color"@.len() != "margin-left"@.len());
    assert("background-color"@.len() != "position"@.len());
    assert("background-color"@.len() != "top"@.len());
    assert("background-color"@.len() != "right"@.len());
    assert("background-color"@.len() != "bottom"@.len());
    assert("background-color"@.len() != "left"@.len());
    assert("background-color"@.len() != "display"@.len());
    assert("background-color"@.len() != "visibility"@.len());
    assert("background-color"@.len() != "opacity"@.len());
    assert("background-color"@.len() != "flex-grow"@.len());
    assert("background-color"@.len() != "flex-shrink"@.len());
    assert("background-color"@.len() != "flex-basis"@.len());
    assert("background-color"@.len() != "flex-direction"@.len());
    assert("background-color"@.len() != "flex-wrap"@.len());
    assert("background-color"@.len() != "align-content"@.len());
    assert("background-color"@.len() != "align-items"@.len());
    assert("background-color"@.len() != "align-self"@.len());
    assert("background-color"@.len() != "justify-content"@.len());
    assert("background-color"@.len() != "overflow-x"@.len());
    assert("background-color"@.len() != "overflow-y"@.len());
    assert("background-color"@.len() != "color"@.len());
    assert("background"@.len() != "width"@.len());
    assert("background"@.len() != "height"@.len());
    assert("background"@.len() != "min-width"@.len());
    assert("background"@[0] != "min-height"@[0]);
    assert("background"@.len() != "max-width"@.len());
    assert("background"@[0] != "max-height"@[0]);
    assert("background"@.len() != "padding-top"@.len());
    assert("background"@.len() != "padding-right"@.len());
    assert("background"@.len() != "padding-bottom"@.len());
    assert("background"@.len() != "padding-left"@.len());
    assert("background"@[0] != "margin-top"@[0]);
    assert("background"@.len() != "margin-right"@.len());
    assert("background"@.len() != "margin-bottom"@.len());
    assert("background"@.len() != "margin-left"@.len());
    assert("background"@.len() != "position"@.len());
    assert("background"@.len() != "top"@.len());
    assert("background"@.len() != "right"@.len());
    assert("background"@.len() != "bottom"@.len());
    assert("background"@.len() != "left"@.len());
    assert("background"@.len() != "display"@.len());
    assert("background"@[0] != "visibility"@[0]);
    assert("background"@.len() != "opacity"@.len());
    assert("background"@.len() != "flex-grow"@.len());
    assert("background"@.len() != "flex-shrink"@.len());
    assert("background"@[0] != "flex-basis"@[0]);
    assert("background"@.len() != "flex-direction"@.len());
    assert("background"@.len() != "flex-wrap"@.len());
    assert("background"@.len() != "align-content"@.len());
    assert("background"@.len() != "align-items"@.len());
    assert("background"@[0] != "align-self"@[0]);
    assert("background"@.len() != "justify-content"@.len());
    assert("background"@[0] != "overflow-x"@[0]);
    assert("background"@[0] != "overflow-y"@[0]);
    assert("background"@.len() != "color"@.len());
    assert("background"@.len() != "background-color"@.len());
    assert("background"@.len() != "border-top-width"@.len());
    assert("background"@.len() != "border-right-width"@.len());
    assert("background"@.len() != "border-bottom-width"@.len());
    assert("background"@.len() != "border-left-width"@.len());
    assert("background"@.len() != "border-top-style"@.len());
    assert("background"@.len() != "border-right-style"@.len());
    assert("background"@.len() != "border-bottom-style"@.len());
    assert("background"@.len() != "border-left-style"@.len());
    assert("background"@.len() != "border-top-color"@.len());
    assert("background"@.len() != "border-right-color"@.len());
    assert("background"@.len() != "border-bottom-color"@.len());
    assert("background"@.len() != "border-left-color"@.len());
    assert("background"@.len() != "border-top-left-radius"@.len());
    assert("background"@.len() != "border-top-right-radius"@.len());
    assert("background"@.len() != "border-bottom-right-radius"@.len());
    assert("background"@.len() != "border-bottom-left-radius"@.len());
    assert("background"@.len() != "outline-width"@.len());
    assert("background"@.len() != "outline-style"@.len());
    assert("background"@.len() != "outline-color"@.len());
    assert("background"@.len() != "font-family"@.len());
    assert("background"@.len() != "font-size"@.len());
    assert("background"@.len() != "line-height"@.len());
    assert("background"@[0] != "text-align"@[0]);
    assert("background"@.len() != "overflow"@.len());
    assert("background"@.len() != "flex"@.len());
    assert("background"@.len() != "padding"@.len());
    assert("background"@.len() != "margin"@.len());
    assert("background"@.len() != "border-width"@.len());
    assert("background"@.len() != "border-style"@.len());
    assert("background"@.len() != "border-color"@.len());
    assert("background"@.len() != "border-radius"@.len());
    assert("background"@.len() != "outline"@.len());
    let c1 = PropView::BackgroundColor(CssColor::tokens_spec(v1)->0);
    let bg = PropView::BackgroundColor(background_of(v2)->0);
    assert(longhand_of("background-color"@, v1) == Some(c1));
    assert(resolve("background-color"@, v1) == seq![c1]);
    assert(longhand_of("background"@, v2) is None);
    assert(shorthand_of("background"@, v2) == Some(seq![bg]));
    assert(resolve("background"@, v2) == seq![bg]);
    let s1 = with_props(ps, seq![c1]);
    assert(seq![c1].drop_last() =~= Seq::<PropView>::empty());
    assert(seq![c1].last() == c1);
    assert(with_props(ps, Seq::<PropView>::empty()) == ps);
    assert(s1 == with_prop(ps, c1));
    law_write_prop(ps, c1);
    assert(seq![bg].drop_last() =~= Seq::<PropView>::empty());
    assert(seq![bg].last() == bg);
    assert(with_props(s1, Seq::<PropView>::empty()) == s1);
    let s = with_props(s1, seq![bg]);
    assert(s == with_prop(s1, bg));
    law_write_prop(s1, bg);
    lemma_key_index(s, key(bg));
}

pub open spec fn strs_view(v: Seq<&str>) -> Seq<Tok> {
    v.map_values(|s: &str| s@)
}

/// The characters of each token.
pub fn toks_of_strs(v: &[&str]) -> (r: Vec<Vec<char>>)
    ensures
        toks_view(r@) == strs_view(v@),
{
    let mut out: Vec<Vec<char>> = Vec::new();
    let mut k: usize = 0;
    while k < v.len()
        invariant
            k <= v.len(),
            toks_view(out@) == strs_view(v@).take(k as int),
        decreases v.len() - k,
    {
        let cs = chars_of(v[k]);
        proof {
            assert(toks_view(out@.push(cs)) =~= toks_view(out@).push(cs@));
            assert(strs_view(v@).take(k + 1) =~= strs_view(v@).take(k as int).push(v@[k as int]@));
        }
        out.push(cs);
        k = k + 1;
    }
    proof {
        assert(strs_view(v@).take(k as int) =~= strs_view(v@));
    }
    out
}

/// An ordered list of longhand properties, each longhand at most once.
#[derive(Debug, PartialEq)]
pub struct Style {
    props: Vec<StyleProp>,
}

impl View for Style {
    type V = Seq<PropView>;

    closed spec fn view(&self) -> Seq<PropView> {
        props_view(self.props@)
    }
}

impl Style {
    /// A style without properties.
    pub fn new() -> (r: Style)
        ensures
            r@ == Seq::<PropView>::empty(),
    {
        let r = Style { props: Vec::new() };
        proof {
            assert(props_view(r.props@) =~= Seq::<PropView>::empty());
        }
        r
    }

    /// The properties, in order.
    pub fn props(&self) -> (r: &Vec<StyleProp>)
        ensures
            props_view(r@) == self@,
    {
        &self.props
    }

    /// Writes `p`: it replaces the value of its longhand, keeping the
    /// position, or is appended.
    pub fn add_prop(&mut self, p: StyleProp)
        requires
            keys_unique(old(self)@),
        ensures
            final(self)@ == with_prop(old(self)@, p@),
            keys_unique(final(self)@),
    {
        let ghost ps = self@;
        let k = p.key();
        let mut i: usize = 0;
        while i < self.props.len() && self.props[i].key() != k
            invariant
                i <= self.props.len(),
                ps == props_view(self.props@),
                key_index(ps, k as nat) == key_index_from(ps, k as nat, i as int),
            decreases self.props.len() - i,
        {
            proof {
                assert(ps[i as int] == self.props@[i as int]@);
            }
            i = i + 1;
        }
        proof {
            law_write_prop(ps, p@);
            if i < self.props.len() {
                assert(ps[i as int] == self.props@[i as int]@);
            }
        }
        if i < self.props.len() {
            self.props.set(i, p);
            proof {
                assert(props_view(self.props@) =~= ps.update(i as int, p@));
            }
        } else {
            self.props.push(p);
            proof {
                assert(props_view(self.props@) =~= ps.push(p@));
            }
        }
    }

    /// Writes each of `qs`, in order.
    pub fn add_props(&mut self, qs: Vec<StyleProp>)
        requires
            keys_unique(old(self)@),
        ensures
            final(self)@ == with_props(old(self)@, props_view(qs@)),
            keys_unique(final(self)@),
    {
        let ghost all = props_view(qs@);
        let total = qs.len();
        let mut rest = qs;
        let mut n: usize = 0;
        while rest.len() > 0
            invariant
                n + rest.len() == all.len(),
                all.len() == total,
                keys_unique(self@),
                props_view(rest@) == all.skip(n as int),
                self@ == with_props(old(self)@, all.take(n as int)),
            decreases rest.len(),
        {
            let ghost r0 = rest@;
            proof {
                assert(props_view(r0)[0] == r0[0]@);
                assert(all.skip(n as int)[0] == all[n as int]);
            }
            let p = rest.remove(0);
            proof {
                assert(p@ == all[n as int]);
                assert(props_view(rest@) =~= props_view(r0).skip(1));
                assert(all.skip(n as int).skip(1) =~= all.skip(n + 1));
                assert(all.take(n + 1).drop_last() =~= all.take(n as int));
            }
            self.add_prop(p);
            n = n + 1;
        }
        proof {
            assert(all.take(n as int) =~= all);
        }
    }

    /// Applies the declaration `name: ts`.
    pub fn apply_declaration(&mut self, name: &[char], ts: &[Vec<char>])
        requires
            keys_unique(old(self)@),
        ensures
            final(self)@ == with_props(old(self)@, resolve(name@, toks_view(ts@))),
            keys_unique(final(self)@),
    {
        let ghost ps = self@;
        match longhand_toks(name, ts) {
            Some(p) => {
                self.add_prop(p);
                proof {
                    let one = seq![p@];
                    assert(one.drop_last() =~= Seq::<PropView>::empty());
                    assert(with_props(ps, Seq::<PropView>::empty()) == ps);
                    assert(with_props(ps, one) == with_prop(ps, p@));
                }
            },
            None => match shorthand_toks(name, ts) {
                Some(v) => self.add_props(v),
                None => {
                    proof {
                        assert(with_props(ps, Seq::<PropView>::empty()) == ps);
                    }
                },
            },
        }
    }

    /// Tokenizes `value` and applies the declaration `prop: value`.
    pub fn set_property(&mut self, prop: &str, value: &str)
        requires
            keys_unique(old(self)@),
        ensures
            final(self)@ == with_props(old(self)@, resolve(prop@, tokens_of(value@))),
            keys_unique(final(self)@),
    {
        let name = chars_of(prop);
        let vs = chars_of(value);
        let ts = tokenize_chars(&vs);
        self.apply_declaration(name.as_slice(), ts.as_slice());
    }
}

/// Applies the declaration `prop: value` to `style`, the value given as
/// tokens; an unknown property or a value that does not parse changes
/// nothing.
pub fn parse_prop_into(prop: &str, value: &[&str], style: &mut Style)
    requires
        keys_unique(old(style)@),
    ensures
        final(style)@ == with_props(old(style)@, resolve(prop@, strs_view(value@))),
        keys_unique(final(style)@),
{
    let name = chars_of(prop);
    let ts = toks_of_strs(value);
    style.apply_declaration(name.as_slice(), ts.as_slice());
}

/// The value of type `T` that the tokens write.
pub fn parse_value<T: CssValue>(value: &[&str]) -> (r: Result<T, ParseError>)
    ensures
        match T::tokens_spec(strs_view(value@)) {
            Some(v) => r == Ok::<T, ParseError>(v),
            None => r == Err::<T, ParseError>(ParseError),
        },
{
    let ts = toks_of_strs(value);
    match T::from_tokens(ts.as_slice()) {
        Some(v) => Ok(v),
        None => Err(ParseError),
    }
}

/// The longhand `prop` with the value the tokens write.
pub fn parse_prop(prop: &str, value: &[&str]) -> (r: Result<StyleProp, ParseError>)
    ensures
        match longhand_of(prop@, strs_view(value@)) {
            Some(p) => r matches Ok(q) && q@ == p,
            None => r == Err::<StyleProp, ParseError>(ParseError),
        },
{
    let name = chars_of(prop);
    let ts = toks_of_strs(value);
    match longhand_toks(name.as_slice(), ts.as_slice()) {
        Some(p) => Ok(p),
        None => Err(ParseError),
    }
}

/// The longhands the shorthand `prop` expands to with the value the tokens
/// write.
pub fn parse_shorthand(prop: &str, value: &[&str]) -> (r: Result<Vec<StyleProp>, ParseError>)
    ensures
        match shorthand_of(prop@, strs_view(value@)) {
            Some(ps) => r matches Ok(v) && props_view(v@) == ps,
            None => r == Err::<Vec<StyleProp>, ParseError>(ParseError),
        },
{
    let name = chars_of(prop);
    let ts = toks_of_strs(value);
    match shorthand_toks(name.as_slice(), ts.as_slice()) {
        Some(v) => Ok(v),
        None => Err(ParseError),
    }
}

} // verus!
