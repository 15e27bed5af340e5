//! Style properties: the longhand table, the shorthands that expand to
//! longhands, and `Style`, an ordered list that holds at most one value per
//! longhand, the last one written.
use crate::keywords::{
    CssAlign, CssBorderStyle, CssDisplay, CssFlexDirection, CssFlexWrap, CssJustify, CssOverflow,
    CssPosition, CssTextAlign, CssVisibility,
};
use crate::text::{lit_eq, string_of};
use crate::tokenizer::{toks_view, Tok};
use crate::values::{font_family_of, CssColor, CssDimension, CssNumber, CssValue};
use vstd::prelude::*;

verus! {

/// One longhand property with its value.
#[derive(Debug, Clone, PartialEq)]
pub enum StyleProp {
    Width(CssDimension),
    Height(CssDimension),
    MinWidth(CssDimension),
    MinHeight(CssDimension),
    MaxWidth(CssDimension),
    MaxHeight(CssDimension),
    PaddingTop(CssDimension),
    PaddingRight(CssDimension),
    PaddingBottom(CssDimension),
    PaddingLeft(CssDimension),
    MarginTop(CssDimension),
    MarginRight(CssDimension),
    MarginBottom(CssDimension),
    MarginLeft(CssDimension),
    Position(CssPosition),
    Top(CssDimension),
    Right(CssDimension),
    Bottom(CssDimension),
    Left(CssDimension),
    Display(CssDisplay),
    Visibility(CssVisibility),
    Opacity(CssNumber),
    FlexGrow(CssNumber),
    FlexShrink(CssNumber),
    FlexBasis(CssDimension),
    FlexDirection(CssFlexDirection),
    FlexWrap(CssFlexWrap),
    AlignContent(CssAlign),
    AlignItems(CssAlign),
    AlignSelf(CssAlign),
    JustifyContent(CssJustify),
    OverflowX(CssOverflow),
    OverflowY(CssOverflow),
    Color(CssColor),
    BackgroundColor(CssColor),
    BorderTopWidth(CssDimension),
    BorderRightWidth(CssDimension),
    BorderBottomWidth(CssDimension),
    BorderLeftWidth(CssDimension),
    BorderTopStyle(CssBorderStyle),
    BorderRightStyle(CssBorderStyle),
    BorderBottomStyle(CssBorderStyle),
    BorderLeftStyle(CssBorderStyle),
    BorderTopColor(CssColor),
    BorderRightColor(CssColor),
    BorderBottomColor(CssColor),
    BorderLeftColor(CssColor),
    BorderTopLeftRadius(CssDimension),
    BorderTopRightRadius(CssDimension),
    BorderBottomRightRadius(CssDimension),
    BorderBottomLeftRadius(CssDimension),
    OutlineWidth(CssDimension),
    OutlineStyle(CssBorderStyle),
    OutlineColor(CssColor),
    FontFamily(String),
    FontSize(CssDimension),
    LineHeight(CssDimension),
    TextAlign(CssTextAlign),
}

/// A longhand property as the contracts see it.
pub enum PropView {
    Width(CssDimension),
    Height(CssDimension),
    MinWidth(CssDimension),
    MinHeight(CssDimension),
    MaxWidth(CssDimension),
    MaxHeight(CssDimension),
    PaddingTop(CssDimension),
    PaddingRight(CssDimension),
    PaddingBottom(CssDimension),
    PaddingLeft(CssDimension),
    MarginTop(CssDimension),
    MarginRight(CssDimension),
    MarginBottom(CssDimension),
    MarginLeft(CssDimension),
    Position(CssPosition),
    Top(CssDimension),
    Right(CssDimension),
    Bottom(CssDimension),
    Left(CssDimension),
    Display(CssDisplay),
    Visibility(CssVisibility),
    Opacity(CssNumber),
    FlexGrow(CssNumber),
    FlexShrink(CssNumber),
    FlexBasis(CssDimension),
    FlexDirection(CssFlexDirection),
    FlexWrap(CssFlexWrap),
    AlignContent(CssAlign),
    AlignItems(CssAlign),
    AlignSelf(CssAlign),
    JustifyContent(CssJustify),
    OverflowX(CssOverflow),
    OverflowY(CssOverflow),
    Color(CssColor),
    BackgroundColor(CssColor),
    BorderTopWidth(CssDimension),
    BorderRightWidth(CssDimension),
    BorderBottomWidth(CssDimension),
    BorderLeftWidth(CssDimension),
    BorderTopStyle(CssBorderStyle),
    BorderRightStyle(CssBorderStyle),
    BorderBottomStyle(CssBorderStyle),
    BorderLeftStyle(CssBorderStyle),
    BorderTopColor(CssColor),
    BorderRightColor(CssColor),
    BorderBottomColor(CssColor),
    BorderLeftColor(CssColor),
    BorderTopLeftRadius(CssDimension),
    BorderTopRightRadius(CssDimension),
    BorderBottomRightRadius(CssDimension),
    BorderBottomLeftRadius(CssDimension),
    OutlineWidth(CssDimension),
    OutlineStyle(CssBorderStyle),
    OutlineColor(CssColor),
    FontFamily(Seq<char>),
    FontSize(CssDimension),
    LineHeight(CssDimension),
    TextAlign(CssTextAlign),
}

impl View for StyleProp {
    type V = PropView;

    open spec fn view(&self) -> PropView {
        match self {
            StyleProp::Width(x) => PropView::Width(*x),
            StyleProp::Height(x) => PropView::Height(*x),
            StyleProp::MinWidth(x) => PropView::MinWidth(*x),
            StyleProp::MinHeight(x) => PropView::MinHeight(*x),
            StyleProp::MaxWidth(x) => PropView::MaxWidth(*x),
            StyleProp::MaxHeight(x) => PropView::MaxHeight(*x),
            StyleProp::PaddingTop(x) => PropView::PaddingTop(*x),
            StyleProp::PaddingRight(x) => PropView::PaddingRight(*x),
            StyleProp::PaddingBottom(x) => PropView::PaddingBottom(*x),
            StyleProp::PaddingLeft(x) => PropView::PaddingLeft(*x),
            StyleProp::MarginTop(x) => PropView::MarginTop(*x),
            StyleProp::MarginRight(x) => PropView::MarginRight(*x),
            StyleProp::MarginBottom(x) => PropView::MarginBottom(*x),
            StyleProp::MarginLeft(x) => PropView::MarginLeft(*x),
            StyleProp::Position(x) => PropView::Position(*x),
            StyleProp::Top(x) => PropView::Top(*x),
            StyleProp::Right(x) => PropView::Right(*x),
            StyleProp::Bottom(x) => PropView::Bottom(*x),
            StyleProp::Left(x) => PropView::Left(*x),
            StyleProp::Display(x) => PropView::Display(*x),
            StyleProp::Visibility(x) => PropView::Visibility(*x),
            StyleProp::Opacity(x) => PropView::Opacity(*x),
            StyleProp::FlexGrow(x) => PropView::FlexGrow(*x),
            StyleProp::FlexShrink(x) => PropView::FlexShrink(*x),
            StyleProp::FlexBasis(x) => PropView::FlexBasis(*x),
            StyleProp::FlexDirection(x) => PropView::FlexDirection(*x),
            StyleProp::FlexWrap(x) => PropView::FlexWrap(*x),
            StyleProp::AlignContent(x) => PropView::AlignContent(*x),
            StyleProp::AlignItems(x) => PropView::AlignItems(*x),
            StyleProp::AlignSelf(x) => PropView::AlignSelf(*x),
            StyleProp::JustifyContent(x) => PropView::JustifyContent(*x),
            StyleProp::OverflowX(x) => PropView::OverflowX(*x),
            StyleProp::OverflowY(x) => PropView::OverflowY(*x),
            StyleProp::Color(x) => PropView::Color(*x),
            StyleProp::BackgroundColor(x) => PropView::BackgroundColor(*x),
            StyleProp::BorderTopWidth(x) => PropView::BorderTopWidth(*x),
            StyleProp::BorderRightWidth(x) => PropView::BorderRightWidth(*x),
            StyleProp::BorderBottomWidth(x) => PropView::BorderBottomWidth(*x),
            StyleProp::BorderLeftWidth(x) => PropView::BorderLeftWidth(*x),
            StyleProp::BorderTopStyle(x) => PropView::BorderTopStyle(*x),
            StyleProp::BorderRightStyle(x) => PropView::BorderRightStyle(*x),
            StyleProp::BorderBottomStyle(x) => PropView::BorderBottomStyle(*x),
            StyleProp::BorderLeftStyle(x) => PropView::BorderLeftStyle(*x),
            StyleProp::BorderTopColor(x) => PropView::BorderTopColor(*x),
            StyleProp::BorderRightColor(x) => PropView::BorderRightColor(*x),
            StyleProp::BorderBottomColor(x) => PropView::BorderBottomColor(*x),
            StyleProp::BorderLeftColor(x) => PropView::BorderLeftColor(*x),
            StyleProp::BorderTopLeftRadius(x) => PropView::BorderTopLeftRadius(*x),
            StyleProp::BorderTopRightRadius(x) => PropView::BorderTopRightRadius(*x),
            StyleProp::BorderBottomRightRadius(x) => PropView::BorderBottomRightRadius(*x),
            StyleProp::BorderBottomLeftRadius(x) => PropView::BorderBottomLeftRadius(*x),
            StyleProp::OutlineWidth(x) => PropView::OutlineWidth(*x),
            StyleProp::OutlineStyle(x) => PropView::OutlineStyle(*x),
            StyleProp::OutlineColor(x) => PropView::OutlineColor(*x),
            StyleProp::FontFamily(x) => PropView::FontFamily(x@),
            StyleProp::FontSize(x) => PropView::FontSize(*x),
            StyleProp::LineHeight(x) => PropView::LineHeight(*x),
            StyleProp::TextAlign(x) => PropView::TextAlign(*x),
        }
    }
}

/// Which longhand a property sets; a later value of the same longhand
/// replaces an earlier one.
pub open spec fn key(p: PropView) -> nat {
    match p {
        PropView::Width(_) => 0,
        PropView::Height(_) => 1,
        PropView::MinWidth(_) => 2,
        PropView::MinHeight(_) => 3,
        PropView::MaxWidth(_) => 4,
        PropView::MaxHeight(_) => 5,
        PropView::PaddingTop(_) => 6,
        PropView::PaddingRight(_) => 7,
        PropView::PaddingBottom(_) => 8,
        PropView::PaddingLeft(_) => 9,
        PropView::MarginTop(_) => 10,
        PropView::MarginRight(_) => 11,
        PropView::MarginBottom(_) => 12,
        PropView::MarginLeft(_) => 13,
        PropView::Position(_) => 14,
        PropView::Top(_) => 15,
        PropView::Right(_) => 16,
        PropView::Bottom(_) => 17,
        PropView::Left(_) => 18,
        PropView::Display(_) => 19,
        PropView::Visibility(_) => 20,
        PropView::Opacity(_) => 21,
        PropView::FlexGrow(_) => 22,
        PropView::FlexShrink(_) => 23,
        PropView::FlexBasis(_) => 24,
        PropView::FlexDirection(_) => 25,
        PropView::FlexWrap(_) => 26,
        PropView::AlignContent(_) => 27,
        PropView::AlignItems(_) => 28,
        PropView::AlignSelf(_) => 29,
        PropView::JustifyContent(_) => 30,
        PropView::OverflowX(_) => 31,
        PropView::OverflowY(_) => 32,
        PropView::Color(_) => 33,
        PropView::BackgroundColor(_) => 34,
        PropView::BorderTopWidth(_) => 35,
        PropView::BorderRightWidth(_) => 36,
        PropView::BorderBottomWidth(_) => 37,
        PropView::BorderLeftWidth(_) => 38,
        PropView::BorderTopStyle(_) => 39,
        PropView::BorderRightStyle(_) => 40,
        PropView::BorderBottomStyle(_) => 41,
        PropView::BorderLeftStyle(_) => 42,
        PropView::BorderTopColor(_) => 43,
        PropView::BorderRightColor(_) => 44,
        PropView::BorderBottomColor(_) => 45,
        PropView::BorderLeftColor(_) => 46,
        PropView::BorderTopLeftRadius(_) => 47,
        PropView::BorderTopRightRadius(_) => 48,
        PropView::BorderBottomRightRadius(_) => 49,
        PropView::BorderBottomLeftRadius(_) => 50,
        PropView::OutlineWidth(_) => 51,
        PropView::OutlineStyle(_) => 52,
        PropView::OutlineColor(_) => 53,
        PropView::FontFamily(_) => 54,
        PropView::FontSize(_) => 55,
        PropView::LineHeight(_) => 56,
        PropView::TextAlign(_) => 57,
    }
}

/// The name of the longhand with key `k`.
pub open spec fn key_name(k: nat) -> Seq<char> {
    if k == 0 {
        "width"@
    } else if k == 1 {
        "height"@
    } else if k == 2 {
        "min-width"@
    } else if k == 3 {
        "min-height"@
    } else if k == 4 {
        "max-width"@
    } else if k == 5 {
        "max-height"@
    } else if k == 6 {
        "padding-top"@
    } else if k == 7 {
        "padding-right"@
    } else if k == 8 {
        "padding-bottom"@
    } else if k == 9 {
        "padding-left"@
    } else if k == 10 {
        "margin-top"@
    } else if k == 11 {
        "margin-right"@
    } else if k == 12 {
        "margin-bottom"@
    } else if k == 13 {
        "margin-left"@
    } else if k == 14 {
        "position"@
    } else if k == 15 {
        "top"@
    } else if k == 16 {
        "right"@
    } else if k == 17 {
        "bottom"@
    } else if k == 18 {
        "left"@
    } else if k == 19 {
        "display"@
    } else if k == 20 {
        "visibility"@
    } else if k == 21 {
        "opacity"@
    } else if k == 22 {
        "flex-grow"@
    } else if k == 23 {
        "flex-shrink"@
    } else if k == 24 {
        "flex-basis"@
    } else if k == 25 {
        "flex-direction"@
    } else if k == 26 {
        "flex-wrap"@
    } else if k == 27 {
        "align-content"@
    } else if k == 28 {
        "align-items"@
    } else if k == 29 {
        "align-self"@
    } else if k == 30 {
        "justify-content"@
    } else if k == 31 {
        "overflow-x"@
    } else if k == 32 {
        "overflow-y"@
    } else if k == 33 {
        "color"@
    } else if k == 34 {
        "background-color"@
    } else if k == 35 {
        "border-top-width"@
    } else if k == 36 {
        "border-right-width"@
    } else if k == 37 {
        "border-bottom-width"@
    } else if k == 38 {
        "border-left-width"@
    } else if k == 39 {
        "border-top-style"@
    } else if k == 40 {
        "border-right-style"@
    } else if k == 41 {
        "border-bottom-style"@
    } else if k == 42 {
        "border-left-style"@
    } else if k == 43 {
        "border-top-color"@
    } else if k == 44 {
        "border-right-color"@
    } else if k == 45 {
        "border-bottom-color"@
    } else if k == 46 {
        "border-left-color"@
    } else if k == 47 {
        "border-top-left-radius"@
    } else if k == 48 {
        "border-top-right-radius"@
    } else if k == 49 {
        "border-bottom-right-radius"@
    } else if k == 50 {
        "border-bottom-left-radius"@
    } else if k == 51 {
        "outline-width"@
    } else if k == 52 {
        "outline-style"@
    } else if k == 53 {
        "outline-color"@
    } else if k == 54 {
        "font-family"@
    } else if k == 55 {
        "font-size"@
    } else if k == 56 {
        "line-height"@
    } else if k == 57 {
        "text-align"@
    } else {
        seq![]
    }
}

impl StyleProp {
    pub fn key(&self) -> (r: u8)
        ensures
            r as nat == key(self@),
    {
        match self {
            StyleProp::Width(_) => 0,
            StyleProp::Height(_) => 1,
            StyleProp::MinWidth(_) => 2,
            StyleProp::MinHeight(_) => 3,
            StyleProp::MaxWidth(_) => 4,
            StyleProp::MaxHeight(_) => 5,
            StyleProp::PaddingTop(_) => 6,
            StyleProp::PaddingRight(_) => 7,
            StyleProp::PaddingBottom(_) => 8,
            StyleProp::PaddingLeft(_) => 9,
            StyleProp::MarginTop(_) => 10,
            StyleProp::MarginRight(_) => 11,
            StyleProp::MarginBottom(_) => 12,
            StyleProp::MarginLeft(_) => 13,
            StyleProp::Position(_) => 14,
            StyleProp::Top(_) => 15,
            StyleProp::Right(_) => 16,
            StyleProp::Bottom(_) => 17,
            StyleProp::Left(_) => 18,
            StyleProp::Display(_) => 19,
            StyleProp::Visibility(_) => 20,
            StyleProp::Opacity(_) => 21,
            StyleProp::FlexGrow(_) => 22,
            StyleProp::FlexShrink(_) => 23,
            StyleProp::FlexBasis(_) => 24,
            StyleProp::FlexDirection(_) => 25,
            StyleProp::FlexWrap(_) => 26,
            StyleProp::AlignContent(_) => 27,
            StyleProp::AlignItems(_) => 28,
            StyleProp::AlignSelf(_) => 29,
            StyleProp::JustifyContent(_) => 30,
            StyleProp::OverflowX(_) => 31,
            StyleProp::OverflowY(_) => 32,
            StyleProp::Color(_) => 33,
            StyleProp::BackgroundColor(_) => 34,
            StyleProp::BorderTopWidth(_) => 35,
            StyleProp::BorderRightWidth(_) => 36,
            StyleProp::BorderBottomWidth(_) => 37,
            StyleProp::BorderLeftWidth(_) => 38,
            StyleProp::BorderTopStyle(_) => 39,
            StyleProp::BorderRightStyle(_) => 40,
            StyleProp::BorderBottomStyle(_) => 41,
            StyleProp::BorderLeftStyle(_) => 42,
            StyleProp::BorderTopColor(_) => 43,
            StyleProp::BorderRightColor(_) => 44,
            StyleProp::BorderBottomColor(_) => 45,
            StyleProp::BorderLeftColor(_) => 46,
            StyleProp::BorderTopLeftRadius(_) => 47,
            StyleProp::BorderTopRightRadius(_) => 48,
            StyleProp::BorderBottomRightRadius(_) => 49,
            StyleProp::BorderBottomLeftRadius(_) => 50,
            StyleProp::OutlineWidth(_) => 51,
            StyleProp::OutlineStyle(_) => 52,
            StyleProp::OutlineColor(_) => 53,
            StyleProp::FontFamily(_) => 54,
            StyleProp::FontSize(_) => 55,
            StyleProp::LineHeight(_) => 56,
            StyleProp::TextAlign(_) => 57,
        }
    }

    /// The CSS name of this property.
    pub fn css_name(&self) -> (r: &'static str)
        ensures
            r@ == key_name(key(self@)),
    {
        match self {
            StyleProp::Width(_) => "width",
            StyleProp::Height(_) => "height",
            StyleProp::MinWidth(_) => "min-width",
            StyleProp::MinHeight(_) => "min-height",
            StyleProp::MaxWidth(_) => "max-width",
            StyleProp::MaxHeight(_) => "max-height",
            StyleProp::PaddingTop(_) => "padding-top",
            StyleProp::PaddingRight(_) => "padding-right",
            StyleProp::PaddingBottom(_) => "padding-bottom",
            StyleProp::PaddingLeft(_) => "padding-left",
            StyleProp::MarginTop(_) => "margin-top",
            StyleProp::MarginRight(_) => "margin-right",
            StyleProp::MarginBottom(_) => "margin-bottom",
            StyleProp::MarginLeft(_) => "margin-left",
            StyleProp::Position(_) => "position",
            StyleProp::Top(_) => "top",
            StyleProp::Right(_) => "right",
            StyleProp::Bottom(_) => "bottom",
            StyleProp::Left(_) => "left",
            StyleProp::Display(_) => "display",
            StyleProp::Visibility(_) => "visibility",
            StyleProp::Opacity(_) => "opacity",
            StyleProp::FlexGrow(_) => "flex-grow",
            StyleProp::FlexShrink(_) => "flex-shrink",
            StyleProp::FlexBasis(_) => "flex-basis",
            StyleProp::FlexDirection(_) => "flex-direction",
            StyleProp::FlexWrap(_) => "flex-wrap",
            StyleProp::AlignContent(_) => "align-content",
            StyleProp::AlignItems(_) => "align-items",
            StyleProp::AlignSelf(_) => "align-self",
            StyleProp::JustifyContent(_) => "justify-content",
            StyleProp::OverflowX(_) => "overflow-x",
            StyleProp::OverflowY(_) => "overflow-y",
            StyleProp::Color(_) => "color",
            StyleProp::BackgroundColor(_) => "background-color",
            StyleProp::BorderTopWidth(_) => "border-top-width",
            StyleProp::BorderRightWidth(_) => "border-right-width",
            StyleProp::BorderBottomWidth(_) => "border-bottom-width",
            StyleProp::BorderLeftWidth(_) => "border-left-width",
            StyleProp::BorderTopStyle(_) => "border-top-style",
            StyleProp::BorderRightStyle(_) => "border-right-style",
            StyleProp::BorderBottomStyle(_) => "border-bottom-style",
            StyleProp::BorderLeftStyle(_) => "border-left-style",
            StyleProp::BorderTopColor(_) => "border-top-color",
            StyleProp::BorderRightColor(_) => "border-right-color",
            StyleProp::BorderBottomColor(_) => "border-bottom-color",
            StyleProp::BorderLeftColor(_) => "border-left-color",
            StyleProp::BorderTopLeftRadius(_) => "border-top-left-radius",
            StyleProp::BorderTopRightRadius(_) => "border-top-right-radius",
            StyleProp::BorderBottomRightRadius(_) => "border-bottom-right-radius",
            StyleProp::BorderBottomLeftRadius(_) => "border-bottom-left-radius",
            StyleProp::OutlineWidth(_) => "outline-width",
            StyleProp::OutlineStyle(_) => "outline-style",
            StyleProp::OutlineColor(_) => "outline-color",
            StyleProp::FontFamily(_) => "font-family",
            StyleProp::FontSize(_) => "font-size",
            StyleProp::LineHeight(_) => "line-height",
            StyleProp::TextAlign(_) => "text-align",
        }
    }
}

/// The longhand named `name` with the value the tokens write, if both are
/// known.
pub open spec fn longhand_of(name: Seq<char>, ts: Seq<Tok>) -> Option<PropView> {
    if name == "width"@ {
        match CssDimension::tokens_spec(ts) {
            Some(x) => Some(PropView::Width(x)),
            None => None,
        }
    } else if name == "height"@ {
        match CssDimension::tokens_spec(ts) {
            Some(x) => Some(PropView::Height(x)),
            None => None,
        }
    } else if name == "min-width"@ {
        match CssDimension::tokens_spec(ts) {
            Some(x) => Some(PropView::MinWidth(x)),
            None => None,
        }
    } else if name == "min-height"@ {
        match CssDimension::tokens_spec(ts) {
            Some(x) => Some(PropView::MinHeight(x)),
            None => None,
        }
    } else if name == "max-width"@ {
        match CssDimension::tokens_spec(ts) {
            Some(x) => Some(PropView::MaxWidth(x)),
            None => None,
        }
    } else if name == "max-height"@ {
        match CssDimension::tokens_spec(ts) {
            Some(x) => Some(PropView::MaxHeight(x)),
            None => None,
        }
    } else if name == "padding-top"@ {
        match CssDimension::tokens_spec(ts) {
            Some(x) => Some(PropView::PaddingTop(x)),
            None => None,
        }
    } else if name == "padding-right"@ {
        match CssDimension::tokens_spec(ts) {
            Some(x) => Some(PropView::PaddingRight(x)),
            None => None,
        }
    } else if name == "padding-bottom"@ {
        match CssDimension::tokens_spec(ts) {
            Some(x) => Some(PropView::PaddingBottom(x)),
            None => None,
        }
    } else if name == "padding-left"@ {
        match CssDimension::tokens_spec(ts) {
            Some(x) => Some(PropView::PaddingLeft(x)),
            None => None,
        }
    } else if name == "margin-top"@ {
        match CssDimension::tokens_spec(ts) {
            Some(x) => Some(PropView::MarginTop(x)),
            None => None,
        }
    } else if name == "margin-right"@ {
        match CssDimension::tokens_spec(ts) {
            Some(x) => Some(PropView::MarginRight(x)),
            None => None,
        }
    } else if name == "margin-bottom"@ {
        match CssDimension::tokens_spec(ts) {
            Some(x) => Some(PropView::MarginBottom(x)),
            None => None,
        }
    } else if name == "margin-left"@ {
        match CssDimension::tokens_spec(ts) {
            Some(x) => Some(PropView::MarginLeft(x)),
            None => None,
        }
    } else if name == "position"@ {
        match CssPosition::tokens_spec(ts) {
            Some(x) => Some(PropView::Position(x)),
            None => None,
        }
    } else if name == "top"@ {
        match CssDimension::tokens_spec(ts) {
            Some(x) => Some(PropView::Top(x)),
            None => None,
        }
    } else if name == "right"@ {
        match CssDimension::tokens_spec(ts) {
            Some(x) => Some(PropView::Right(x)),
            None => None,
        }
    } else if name == "bottom"@ {
        match CssDimension::tokens_spec(ts) {
            Some(x) => Some(PropView::Bottom(x)),
            None => None,
        }
    } else if name == "left"@ {
        match CssDimension::tokens_spec(ts) {
            Some(x) => Some(PropView::Left(x)),
            None => None,
        }
    } else if name == "display"@ {
        match CssDisplay::tokens_spec(ts) {
            Some(x) => Some(PropView::Display(x)),
            None => None,
        }
    } else if name == "visibility"@ {
        match CssVisibility::tokens_spec(ts) {
            Some(x) => Some(PropView::Visibility(x)),
            None => None,
        }
    } else if name == "opacity"@ {
        match CssNumber::tokens_spec(ts) {
            Some(x) => Some(PropView::Opacity(x)),
            None => None,
        }
    } else if name == "flex-grow"@ {
        match CssNumber::tokens_spec(ts) {
            Some(x) => Some(PropView::FlexGrow(x)),
            None => None,
        }
    } else if name == "flex-shrink"@ {
        match CssNumber::tokens_spec(ts) {
            Some(x) => Some(PropView::FlexShrink(x)),
            None => None,
        }
    } else if name == "flex-basis"@ {
        match CssDimension::tokens_spec(ts) {
            Some(x) => Some(PropView::FlexBasis(x)),
            None => None,
        }
    } else if name == "flex-direction"@ {
        match CssFlexDirection::tokens_spec(ts) {
            Some(x) => Some(PropView::FlexDirection(x)),
            None => None,
        }
    } else if name == "flex-wrap"@ {
        match CssFlexWrap::tokens_spec(ts) {
            Some(x) => Some(PropView::FlexWrap(x)),
            None => None,
        }
    } else if name == "align-content"@ {
        match CssAlign::tokens_spec(ts) {
            Some(x) => Some(PropView::AlignContent(x)),
            None => None,
        }
    } else if name == "align-items"@ {
        match CssAlign::tokens_spec(ts) {
            Some(x) => Some(PropView::AlignItems(x)),
            None => None,
        }
    } else if name == "align-self"@ {
        match CssAlign::tokens_spec(ts) {
            Some(x) => Some(PropView::AlignSelf(x)),
            None => None,
        }
    } else if name == "justify-content"@ {
        match CssJustify::tokens_spec(ts) {
            Some(x) => Some(PropView::JustifyContent(x)),
            None => None,
        }
    } else if name == "overflow-x"@ {
        match CssOverflow::tokens_spec(ts) {
            Some(x) => Some(PropView::OverflowX(x)),
            None => None,
        }
    } else if name == "overflow-y"@ {
        match CssOverflow::tokens_spec(ts) {
            Some(x) => Some(PropView::OverflowY(x)),
            None => None,
        }
    } else if name == "color"@ {
        match CssColor::tokens_spec(ts) {
            Some(x) => Some(PropView::Color(x)),
            None => None,
        }
    } else if name == "background-color"@ {
        match CssColor::tokens_spec(ts) {
            Some(x) => Some(PropView::BackgroundColor(x)),
            None => None,
        }
    } else if name == "border-top-width"@ {
        match CssDimension::tokens_spec(ts) {
            Some(x) => Some(PropView::BorderTopWidth(x)),
            None => None,
        }
    } else if name == "border-right-width"@ {
        match CssDimension::tokens_spec(ts) {
            Some(x) => Some(PropView::BorderRightWidth(x)),
            None => None,
        }
    } else if name == "border-bottom-width"@ {
        match CssDimension::tokens_spec(ts) {
            Some(x) => Some(PropView::BorderBottomWidth(x)),
            None => None,
        }
    } else if name == "border-left-width"@ {
        match CssDimension::tokens_spec(ts) {
            Some(x) => Some(PropView::BorderLeftWidth(x)),
            None => None,
        }
    } else if name == "border-top-style"@ {
        match CssBorderStyle::tokens_spec(ts) {
            Some(x) => Some(PropView::BorderTopStyle(x)),
            None => None,
        }
    } else if name == "border-right-style"@ {
        match CssBorderStyle::tokens_spec(ts) {
            Some(x) => Some(PropView::BorderRightStyle(x)),
            None => None,
        }
    } else if name == "border-bottom-style"@ {
        match CssBorderStyle::tokens_spec(ts) {
            Some(x) => Some(PropView::BorderBottomStyle(x)),
            None => None,
        }
    } else if name == "border-left-style"@ {
        match CssBorderStyle::tokens_spec(ts) {
            Some(x) => Some(PropView::BorderLeftStyle(x)),
            None => None,
        }
    } else if name == "border-top-color"@ {
        match CssColor::tokens_spec(ts) {
            Some(x) => Some(PropView::BorderTopColor(x)),
            None => None,
        }
    } else if name == "border-right-color"@ {
        match CssColor::tokens_spec(ts) {
            Some(x) => Some(PropView::BorderRightColor(x)),
            None => None,
        }
    } else if name == "border-bottom-color"@ {
        match CssColor::tokens_spec(ts) {
            Some(x) => Some(PropView::BorderBottomColor(x)),
            None => None,
        }
    } else if name == "border-left-color"@ {
        match CssColor::tokens_spec(ts) {
            Some(x) => Some(PropView::BorderLeftColor(x)),
            None => None,
        }
    } else if name == "border-top-left-radius"@ {
        match CssDimension::tokens_spec(ts) {
            Some(x) => Some(PropView::BorderTopLeftRadius(x)),
            None => None,
        }
    } else if name == "border-top-right-radius"@ {
        match CssDimension::tokens_spec(ts) {
            Some(x) => Some(PropView::BorderTopRightRadius(x)),
            None => None,
        }
    } else if name == "border-bottom-right-radius"@ {
        match CssDimension::tokens_spec(ts) {
            Some(x) => Some(PropView::BorderBottomRightRadius(x)),
            None => None,
        }
    } else if name == "border-bottom-left-radius"@ {
        match CssDimension::tokens_spec(ts) {
            Some(x) => Some(PropView::BorderBottomLeftRadius(x)),
            None => None,
        }
    } else if name == "outline-width"@ {
        match CssDimension::tokens_spec(ts) {
            Some(x) => Some(PropView::OutlineWidth(x)),
            None => None,
        }
    } else if name == "outline-style"@ {
        match CssBorderStyle::tokens_spec(ts) {
            Some(x) => Some(PropView::OutlineStyle(x)),
            None => None,
        }
    } else if name == "outline-color"@ {
        match CssColor::tokens_spec(ts) {
            Some(x) => Some(PropView::OutlineColor(x)),
            None => None,
        }
    } else if name == "font-family"@ {
        match font_family_of(ts) {
            Some(x) => Some(PropView::FontFamily(x)),
            None => None,
        }
    } else if name == "font-size"@ {
        match CssDimension::tokens_spec(ts) {
            Some(x) => Some(PropView::FontSize(x)),
            None => None,
        }
    } else if name == "line-height"@ {
        match CssDimension::tokens_spec(ts) {
            Some(x) => Some(PropView::LineHeight(x)),
            None => None,
        }
    } else if name == "text-align"@ {
        match CssTextAlign::tokens_spec(ts) {
            Some(x) => Some(PropView::TextAlign(x)),
            None => None,
        }
    } else {
        None
    }
}

pub open spec fn opt_view(r: Option<StyleProp>) -> Option<PropView> {
    match r {
        Some(p) => Some(p@),
        None => None,
    }
}

fn font_family_toks(ts: &[Vec<char>]) -> (r: Option<String>)
    ensures
        match font_family_of(toks_view(ts@)) {
            Some(s) => r matches Some(x) && x@ == s,
            None => r is None,
        },
{
    if ts.len() == 1 {
        proof {
            assert(toks_view(ts@)[0] == ts@[0]@);
        }
        let t = &ts[0];
        if t.len() > 0 {
            let c = t[0];
            if ('a' <= c && c <= 'z') || ('A' <= c && c <= 'Z') || ('0' <= c && c <= '9') || c == '-' {
                return Some(string_of(t.as_slice()));
            }
        }
    }
    None
}

/// Looks `name` up in the longhand table and parses the value for it.
pub fn longhand_toks(name: &[char], ts: &[Vec<char>]) -> (r: Option<StyleProp>)
    ensures
        opt_view(r) == longhand_of(name@, toks_view(ts@)),
{
    if lit_eq(name, "width") {
        return match CssDimension::from_tokens(ts) {
            Some(x) => Some(StyleProp::Width(x)),
            None => None,
        };
    }
    if lit_eq(name, "height") {
        return match CssDimension::from_tokens(ts) {
            Some(x) => Some(StyleProp::Height(x)),
            None => None,
        };
    }
    if lit_eq(name, "min-width") {
        return match CssDimension::from_tokens(ts) {
            Some(x) => Some(StyleProp::MinWidth(x)),
            None => None,
        };
    }
    if lit_eq(name, "min-height") {
        return match CssDimension::from_tokens(ts) {
            Some(x) => Some(StyleProp::MinHeight(x)),
            None => None,
        };
    }
    if lit_eq(name, "max-width") {
        return match CssDimension::from_tokens(ts) {
            Some(x) => Some(StyleProp::MaxWidth(x)),
            None => None,
        };
    }
    if lit_eq(name, "max-height") {
        return match CssDimension::from_tokens(ts) {
            Some(x) => Some(StyleProp::MaxHeight(x)),
            None => None,
        };
    }
    if lit_eq(name, "padding-top") {
        return match CssDimension::from_tokens(ts) {
            Some(x) => Some(StyleProp::PaddingTop(x)),
            None => None,
        };
    }
    if lit_eq(name, "padding-right") {
        return match CssDimension::from_tokens(ts) {
            Some(x) => Some(StyleProp::PaddingRight(x)),
            None => None,
        };
    }
    if lit_eq(name, "padding-bottom") {
        return match CssDimension::from_tokens(ts) {
            Some(x) => Some(StyleProp::PaddingBottom(x)),
            None => None,
        };
    }
    if lit_eq(name, "padding-left") {
        return match CssDimension::from_tokens(ts) {
            Some(x) => Some(StyleProp::PaddingLeft(x)),
            None => None,
        };
    }
    if lit_eq(name, "margin-top") {
        return match CssDimension::from_tokens(ts) {
            Some(x) => Some(StyleProp::MarginTop(x)),
            None => None,
        };
    }
    if lit_eq(name, "margin-right") {
        return match CssDimension::from_tokens(ts) {
            Some(x) => Some(StyleProp::MarginRight(x)),
            None => None,
        };
    }
    if lit_eq(name, "margin-bottom") {
        return match CssDimension::from_tokens(ts) {
            Some(x) => Some(StyleProp::MarginBottom(x)),
            None => None,
        };
    }
    if lit_eq(name, "margin-left") {
        return match CssDimension::from_tokens(ts) {
            Some(x) => Some(StyleProp::MarginLeft(x)),
            None => None,
        };
    }
    if lit_eq(name, "position") {
        return match CssPosition::from_tokens(ts) {
            Some(x) => Some(StyleProp::Position(x)),
            None => None,
        };
    }
    if lit_eq(name, "top") {
        return match CssDimension::from_tokens(ts) {
            Some(x) => Some(StyleProp::Top(x)),
            None => None,
        };
    }
    if lit_eq(name, "right") {
        return match CssDimension::from_tokens(ts) {
            Some(x) => Some(StyleProp::Right(x)),
            None => None,
        };
    }
    if lit_eq(name, "bottom") {
        return match CssDimension::from_tokens(ts) {
            Some(x) => Some(StyleProp::Bottom(x)),
            None => None,
        };
    }
    if lit_eq(name, "left") {
        return match CssDimension::from_tokens(ts) {
            Some(x) => Some(StyleProp::Left(x)),
            None => None,
        };
    }
    if lit_eq(name, "display") {
        return match CssDisplay::from_tokens(ts) {
            Some(x) => Some(StyleProp::Display(x)),
            None => None,
        };
    }
    if lit_eq(name, "visibility") {
        return match CssVisibility::from_tokens(ts) {
            Some(x) => Some(StyleProp::Visibility(x)),
            None => None,
        };
    }
    if lit_eq(name, "opacity") {
        return match CssNumber::from_tokens(ts) {
            Some(x) => Some(StyleProp::Opacity(x)),
            None => None,
        };
    }
    if lit_eq(name, "flex-grow") {
        return match CssNumber::from_tokens(ts) {
            Some(x) => Some(StyleProp::FlexGrow(x)),
            None => None,
        };
    }
    if lit_eq(name, "flex-shrink") {
        return match CssNumber::from_tokens(ts) {
            Some(x) => Some(StyleProp::FlexShrink(x)),
            None => None,
        };
    }
    if lit_eq(name, "flex-basis") {
        return match CssDimension::from_tokens(ts) {
            Some(x) => Some(StyleProp::FlexBasis(x)),
            None => None,
        };
    }
    if lit_eq(name, "flex-direction") {
        return match CssFlexDirection::from_tokens(ts) {
            Some(x) => Some(StyleProp::FlexDirection(x)),
            None => None,
        };
    }
    if lit_eq(name, "flex-wrap") {
        return match CssFlexWrap::from_tokens(ts) {
            Some(x) => Some(StyleProp::FlexWrap(x)),
            None => None,
        };
    }
    if lit_eq(name, "align-content") {
        return match CssAlign::from_tokens(ts) {
            Some(x) => Some(StyleProp::AlignContent(x)),
            None => None,
        };
    }
    if lit_eq(name, "align-items") {
        return match CssAlign::from_tokens(ts) {
            Some(x) => Some(StyleProp::AlignItems(x)),
            None => None,
        };
    }
    if lit_eq(name, "align-self") {
        return match CssAlign::from_tokens(ts) {
            Some(x) => Some(StyleProp::AlignSelf(x)),
            None => None,
        };
    }
    if lit_eq(name, "justify-content") {
        return match CssJustify::from_tokens(ts) {
            Some(x) => Some(StyleProp::JustifyContent(x)),
            None => None,
        };
    }
    if lit_eq(name, "overflow-x") {
        return match CssOverflow::from_tokens(ts) {
            Some(x) => Some(StyleProp::OverflowX(x)),
            None => None,
        };
    }
    if lit_eq(name, "overflow-y") {
        return match CssOverflow::from_tokens(ts) {
            Some(x) => Some(StyleProp::OverflowY(x)),
            None => None,
        };
    }
    if lit_eq(name, "color") {
        return match CssColor::from_tokens(ts) {
            Some(x) => Some(StyleProp::Color(x)),
            None => None,
        };
    }
    if lit_eq(name, "background-color") {
        return match CssColor::from_tokens(ts) {
            Some(x) => Some(StyleProp::BackgroundColor(x)),
            None => None,
        };
    }
    if lit_eq(name, "border-top-width") {
        return match CssDimension::from_tokens(ts) {
            Some(x) => Some(StyleProp::BorderTopWidth(x)),
            None => None,
        };
    }
    if lit_eq(name, "border-right-width") {
        return match CssDimension::from_tokens(ts) {
            Some(x) => Some(StyleProp::BorderRightWidth(x)),
            None => None,
        };
    }
    if lit_eq(name, "border-bottom-width") {
        return match CssDimension::from_tokens(ts) {
            Some(x) => Some(StyleProp::BorderBottomWidth(x)),
            None => None,
        };
    }
    if lit_eq(name, "border-left-width") {
        return match CssDimension::from_tokens(ts) {
            Some(x) => Some(StyleProp::BorderLeftWidth(x)),
            None => None,
        };
    }
    if lit_eq(name, "border-top-style") {
        return match CssBorderStyle::from_tokens(ts) {
            Some(x) => Some(StyleProp::BorderTopStyle(x)),
            None => None,
        };
    }
    if lit_eq(name, "border-right-style") {
        return match CssBorderStyle::from_tokens(ts) {
            Some(x) => Some(StyleProp::BorderRightStyle(x)),
            None => None,
        };
    }
    if lit_eq(name, "border-bottom-style") {
        return match CssBorderStyle::from_tokens(ts) {
            Some(x) => Some(StyleProp::BorderBottomStyle(x)),
            None => None,
        };
    }
    if lit_eq(name, "border-left-style") {
        return match CssBorderStyle::from_tokens(ts) {
            Some(x) => Some(StyleProp::BorderLeftStyle(x)),
            None => None,
        };
    }
    if lit_eq(name, "border-top-color") {
        return match CssColor::from_tokens(ts) {
            Some(x) => Some(StyleProp::BorderTopColor(x)),
            None => None,
        };
    }
    if lit_eq(name, "border-right-color") {
        return match CssColor::from_tokens(ts) {
            Some(x) => Some(StyleProp::BorderRightColor(x)),
            None => None,
        };
    }
    if lit_eq(name, "border-bottom-color") {
        return match CssColor::from_tokens(ts) {
            Some(x) => Some(StyleProp::BorderBottomColor(x)),
            None => None,
        };
    }
    if lit_eq(name, "border-left-color") {
        return match CssColor::from_tokens(ts) {
            Some(x) => Some(StyleProp::BorderLeftColor(x)),
            None => None,
        };
    }
    if lit_eq(name, "border-top-left-radius") {
        return match CssDimension::from_tokens(ts) {
            Some(x) => Some(StyleProp::BorderTopLeftRadius(x)),
            None => None,
        };
    }
    if lit_eq(name, "border-top-right-radius") {
        return match CssDimension::from_tokens(ts) {
            Some(x) => Some(StyleProp::BorderTopRightRadius(x)),
            None => None,
        };
    }
    if lit_eq(name, "border-bottom-right-radius") {
        return match CssDimension::from_tokens(ts) {
            Some(x) => Some(StyleProp::BorderBottomRightRadius(x)),
            None => None,
        };
    }
    if lit_eq(name, "border-bottom-left-radius") {
        return match CssDimension::from_tokens(ts) {
            Some(x) => Some(StyleProp::BorderBottomLeftRadius(x)),
            None => None,
        };
    }
    if lit_eq(name, "outline-width") {
        return match CssDimension::from_tokens(ts) {
            Some(x) => Some(StyleProp::OutlineWidth(x)),
            None => None,
        };
    }
    if lit_eq(name, "outline-style") {
        return match CssBorderStyle::from_tokens(ts) {
            Some(x) => Some(StyleProp::OutlineStyle(x)),
            None => None,
        };
    }
    if lit_eq(name, "outline-color") {
        return match CssColor::from_tokens(ts) {
            Some(x) => Some(StyleProp::OutlineColor(x)),
            None => None,
        };
    }
    if lit_eq(name, "font-family") {
        return match font_family_toks(ts) {
            Some(x) => Some(StyleProp::FontFamily(x)),
            None => None,
        };
    }
    if lit_eq(name, "font-size") {
        return match CssDimension::from_tokens(ts) {
            Some(x) => Some(StyleProp::FontSize(x)),
            None => None,
        };
    }
    if lit_eq(name, "line-height") {
        return match CssDimension::from_tokens(ts) {
            Some(x) => Some(StyleProp::LineHeight(x)),
            None => None,
        };
    }
    if lit_eq(name, "text-align") {
        return match CssTextAlign::from_tokens(ts) {
            Some(x) => Some(StyleProp::TextAlign(x)),
            None => None,
        };
    }
    None
}

} // verus!
