//! Properties whose values are one keyword out of a fixed list, matched
//! exactly and with case.
use crate::text::lit_eq;
use crate::tokenizer::{toks_view, Tok};
use crate::values::CssValue;
use vstd::prelude::*;

verus! {

/// A value written as one keyword.
pub trait Keyword: Sized {
    /// The value `t` names, if any.
    spec fn keyword_spec(t: Seq<char>) -> Option<Self>;

    fn from_keyword(t: &[char]) -> (r: Option<Self>)
        ensures
            r == Self::keyword_spec(t@),
    ;

    /// The keyword of this value.
    spec fn name_spec(&self) -> Seq<char>;

    fn name(&self) -> (r: &'static str)
        ensures
            r@ == self.name_spec(),
    ;
}

/// A value given as exactly one keyword token.
pub open spec fn keyword_of<T: Keyword>(ts: Seq<Tok>) -> Option<T> {
    if ts.len() == 1 {
        T::keyword_spec(ts[0])
    } else {
        None
    }
}

pub fn keyword_toks<T: Keyword>(ts: &[Vec<char>]) -> (r: Option<T>)
    ensures
        r == keyword_of::<T>(toks_view(ts@)),
{
    if ts.len() == 1 {
        proof {
            assert(toks_view(ts@)[0] == ts@[0]@);
        }
        T::from_keyword(ts[0].as_slice())
    } else {
        None
    }
}

/// How items are aligned across the main axis.
#[derive(Debug, Clone, Copy, PartialEq, Eq, Structural)]
pub enum CssAlign {
    Auto,
    FlexStart,
    Center,
    FlexEnd,
    Stretch,
    Baseline,
    SpaceBetween,
    SpaceAround,
}

impl Keyword for CssAlign {
    open spec fn keyword_spec(t: Seq<char>) -> Option<CssAlign> {
        if t == "auto"@ {
            Some(CssAlign::Auto)
        } else if t == "flex-start"@ {
            Some(CssAlign::FlexStart)
        } else if t == "center"@ {
            Some(CssAlign::Center)
        } else if t == "flex-end"@ {
            Some(CssAlign::FlexEnd)
        } else if t == "stretch"@ {
            Some(CssAlign::Stretch)
        } else if t == "baseline"@ {
            Some(CssAlign::Baseline)
        } else if t == "space-between"@ {
            Some(CssAlign::SpaceBetween)
        } else if t == "space-around"@ {
            Some(CssAlign::SpaceAround)
        } else {
            None
        }
    }

    fn from_keyword(t: &[char]) -> (r: Option<CssAlign>) {
        if lit_eq(t, "auto") {
            Some(CssAlign::Auto)
        } else if lit_eq(t, "flex-start") {
            Some(CssAlign::FlexStart)
        } else if lit_eq(t, "center") {
            Some(CssAlign::Center)
        } else if lit_eq(t, "flex-end") {
            Some(CssAlign::FlexEnd)
        } else if lit_eq(t, "stretch") {
            Some(CssAlign::Stretch)
        } else if lit_eq(t, "baseline") {
            Some(CssAlign::Baseline)
        } else if lit_eq(t, "space-between") {
            Some(CssAlign::SpaceBetween)
        } else if lit_eq(t, "space-around") {
            Some(CssAlign::SpaceAround)
        } else {
            None
        }
    }

    open spec fn name_spec(&self) -> Seq<char> {
        match self {
            CssAlign::Auto => "auto"@,
            CssAlign::FlexStart => "flex-start"@,
            CssAlign::Center => "center"@,
            CssAlign::FlexEnd => "flex-end"@,
            CssAlign::Stretch => "stretch"@,
            CssAlign::Baseline => "baseline"@,
            CssAlign::SpaceBetween => "space-between"@,
            CssAlign::SpaceAround => "space-around"@,
        }
    }

    fn name(&self) -> (r: &'static str) {
        match self {
            CssAlign::Auto => "auto",
            CssAlign::FlexStart => "flex-start",
            CssAlign::Center => "center",
            CssAlign::FlexEnd => "flex-end",
            CssAlign::Stretch => "stretch",
            CssAlign::Baseline => "baseline",
            CssAlign::SpaceBetween => "space-between",
            CssAlign::SpaceAround => "space-around",
        }
    }
}

/// How items are spread along the main axis.
#[derive(Debug, Clone, Copy, PartialEq, Eq, Structural)]
pub enum CssJustify {
    FlexStart,
    Center,
    FlexEnd,
    SpaceBetween,
    SpaceAround,
    SpaceEvenly,
}

impl Keyword for CssJustify {
    open spec fn keyword_spec(t: Seq<char>) -> Option<CssJustify> {
        if t == "flex-start"@ {
            Some(CssJustify::FlexStart)
        } else if t == "center"@ {
            Some(CssJustify::Center)
        } else if t == "flex-end"@ {
            Some(CssJustify::FlexEnd)
        } else if t == "space-between"@ {
            Some(CssJustify::SpaceBetween)
        } else if t == "space-around"@ {
            Some(CssJustify::SpaceAround)
        } else if t == "space-evenly"@ {
            Some(CssJustify::SpaceEvenly)
        } else {
            None
        }
    }

    fn from_keyword(t: &[char]) -> (r: Option<CssJustify>) {
        if lit_eq(t, "flex-start") {
            Some(CssJustify::FlexStart)
        } else if lit_eq(t, "center") {
            Some(CssJustify::Center)
        } else if lit_eq(t, "flex-end") {
            Some(CssJustify::FlexEnd)
        } else if lit_eq(t, "space-between") {
            Some(CssJustify::SpaceBetween)
        } else if lit_eq(t, "space-around") {
            Some(CssJustify::SpaceAround)
        } else if lit_eq(t, "space-evenly") {
            Some(CssJustify::SpaceEvenly)
        } else {
            None
        }
    }

    open spec fn name_spec(&self) -> Seq<char> {
        match self {
            CssJustify::FlexStart => "flex-start"@,
            CssJustify::Center => "center"@,
            CssJustify::FlexEnd => "flex-end"@,
            CssJustify::SpaceBetween => "space-between"@,
            CssJustify::SpaceAround => "space-around"@,
            CssJustify::SpaceEvenly => "space-evenly"@,
        }
    }

    fn name(&self) -> (r: &'static str) {
        match self {
            CssJustify::FlexStart => "flex-start",
            CssJustify::Center => "center",
            CssJustify::FlexEnd => "flex-end",
            CssJustify::SpaceBetween => "space-between",
            CssJustify::SpaceAround => "space-around",
            CssJustify::SpaceEvenly => "space-evenly",
        }
    }
}

/// The line style of a border or an outline.
#[derive(Debug, Clone, Copy, PartialEq, Eq, Structural)]
pub enum CssBorderStyle {
    /// `none`
    NoBorder,
    Hidden,
    Dotted,
    Dashed,
    Solid,
    Double,
    Groove,
    Ridge,
    Inset,
    Outset,
}

impl Keyword for CssBorderStyle {
    open spec fn keyword_spec(t: Seq<char>) -> Option<CssBorderStyle> {
        if t == "none"@ {
            Some(CssBorderStyle::NoBorder)
        } else if t == "hidden"@ {
            Some(CssBorderStyle::Hidden)
        } else if t == "dotted"@ {
            Some(CssBorderStyle::Dotted)
        } else if t == "dashed"@ {
            Some(CssBorderStyle::Dashed)
        } else if t == "solid"@ {
            Some(CssBorderStyle::Solid)
        } else if t == "double"@ {
            Some(CssBorderStyle::Double)
        } else if t == "groove"@ {
            Some(CssBorderStyle::Groove)
        } else if t == "ridge"@ {
            Some(CssBorderStyle::Ridge)
        } else if t == "inset"@ {
            Some(CssBorderStyle::Inset)
        } else if t == "outset"@ {
            Some(CssBorderStyle::Outset)
        } else {
            None
        }
    }

    fn from_keyword(t: &[char]) -> (r: Option<CssBorderStyle>) {
        if lit_eq(t, "none") {
            Some(CssBorderStyle::NoBorder)
        } else if lit_eq(t, "hidden") {
            Some(CssBorderStyle::Hidden)
        } else if lit_eq(t, "dotted") {
            Some(CssBorderStyle::Dotted)
        } else if lit_eq(t, "dashed") {
            Some(CssBorderStyle::Dashed)
        } else if lit_eq(t, "solid") {
            Some(CssBorderStyle::Solid)
        } else if lit_eq(t, "double") {
            Some(CssBorderStyle::Double)
        } else if lit_eq(t, "groove") {
            Some(CssBorderStyle::Groove)
        } else if lit_eq(t, "ridge") {
            Some(CssBorderStyle::Ridge)
        } else if lit_eq(t, "inset") {
            Some(CssBorderStyle::Inset)
        } else if lit_eq(t, "outset") {
            Some(CssBorderStyle::Outset)
        } else {
            None
        }
    }

    open spec fn name_spec(&self) -> Seq<char> {
        match self {
            CssBorderStyle::NoBorder => "none"@,
            CssBorderStyle::Hidden => "hidden"@,
            CssBorderStyle::Dotted => "dotted"@,
            CssBorderStyle::Dashed => "dashed"@,
            CssBorderStyle::Solid => "solid"@,
            CssBorderStyle::Double => "double"@,
            CssBorderStyle::Groove => "groove"@,
            CssBorderStyle::Ridge => "ridge"@,
            CssBorderStyle::Inset => "inset"@,
            CssBorderStyle::Outset => "outset"@,
        }
    }

    fn name(&self) -> (r: &'static str) {
        match self {
            CssBorderStyle::NoBorder => "none",
            CssBorderStyle::Hidden => "hidden",
            CssBorderStyle::Dotted => "dotted",
            CssBorderStyle::Dashed => "dashed",
            CssBorderStyle::Solid => "solid",
            CssBorderStyle::Double => "double",
            CssBorderStyle::Groove => "groove",
            CssBorderStyle::Ridge => "ridge",
            CssBorderStyle::Inset => "inset",
            CssBorderStyle::Outset => "outset",
        }
    }
}

/// How a node takes part in layout.
#[derive(Debug, Clone, Copy, PartialEq, Eq, Structural)]
pub enum CssDisplay {
    /// `none`
    NoDisplay,
    Block,
    Inline,
    Flex,
}

impl Keyword for CssDisplay {
    open spec fn keyword_spec(t: Seq<char>) -> Option<CssDisplay> {
        if t == "none"@ {
            Some(CssDisplay::NoDisplay)
        } else if t == "block"@ {
            Some(CssDisplay::Block)
        } else if t == "inline"@ {
            Some(CssDisplay::Inline)
        } else if t == "flex"@ {
            Some(CssDisplay::Flex)
        } else {
            None
        }
    }

    fn from_keyword(t: &[char]) -> (r: Option<CssDisplay>) {
        if lit_eq(t, "none") {
            Some(CssDisplay::NoDisplay)
        } else if lit_eq(t, "block") {
            Some(CssDisplay::Block)
        } else if lit_eq(t, "inline") {
            Some(CssDisplay::Inline)
        } else if lit_eq(t, "flex") {
            Some(CssDisplay::Flex)
        } else {
            None
        }
    }

    open spec fn name_spec(&self) -> Seq<char> {
        match self {
            CssDisplay::NoDisplay => "none"@,
            CssDisplay::Block => "block"@,
            CssDisplay::Inline => "inline"@,
            CssDisplay::Flex => "flex"@,
        }
    }

    fn name(&self) -> (r: &'static str) {
        match self {
            CssDisplay::NoDisplay => "none",
            CssDisplay::Block => "block",
            CssDisplay::Inline => "inline",
            CssDisplay::Flex => "flex",
        }
    }
}

/// The main axis of a flex container.
#[derive(Debug, Clone, Copy, PartialEq, Eq, Structural)]
pub enum CssFlexDirection {
    Row,
    Column,
    RowReverse,
    ColumnReverse,
}

impl Keyword for CssFlexDirection {
    open spec fn keyword_spec(t: Seq<char>) -> Option<CssFlexDirection> {
        if t == "row"@ {
            Some(CssFlexDirection::Row)
        } else if t == "column"@ {
            Some(CssFlexDirection::Column)
        } else if t == "row-reverse"@ {
            Some(CssFlexDirection::RowReverse)
        } else if t == "column-reverse"@ {
            Some(CssFlexDirection::ColumnReverse)
        } else {
            None
        }
    }

    fn from_keyword(t: &[char]) -> (r: Option<CssFlexDirection>) {
        if lit_eq(t, "row") {
            Some(CssFlexDirection::Row)
        } else if lit_eq(t, "column") {
            Some(CssFlexDirection::Column)
        } else if lit_eq(t, "row-reverse") {
            Some(CssFlexDirection::RowReverse)
        } else if lit_eq(t, "column-reverse") {
            Some(CssFlexDirection::ColumnReverse)
        } else {
            None
        }
    }

    open spec fn name_spec(&self) -> Seq<char> {
        match self {
            CssFlexDirection::Row => "row"@,
            CssFlexDirection::Column => "column"@,
            CssFlexDirection::RowReverse => "row-reverse"@,
            CssFlexDirection::ColumnReverse => "column-reverse"@,
        }
    }

    fn name(&self) -> (r: &'static str) {
        match self {
            CssFlexDirection::Row => "row",
            CssFlexDirection::Column => "column",
            CssFlexDirection::RowReverse => "row-reverse",
            CssFlexDirection::ColumnReverse => "column-reverse",
        }
    }
}

/// Whether flex items wrap.
#[derive(Debug, Clone, Copy, PartialEq, Eq, Structural)]
pub enum CssFlexWrap {
    NoWrap,
    Wrap,
    WrapReverse,
}

impl Keyword for CssFlexWrap {
    open spec fn keyword_spec(t: Seq<char>) -> Option<CssFlexWrap> {
        if t == "nowrap"@ {
            Some(CssFlexWrap::NoWrap)
        } else if t == "wrap"@ {
            Some(CssFlexWrap::Wrap)
        } else if t == "wrap-reverse"@ {
            Some(CssFlexWrap::WrapReverse)
        } else {
            None
        }
    }

    fn from_keyword(t: &[char]) -> (r: Option<CssFlexWrap>) {
        if lit_eq(t, "nowrap") {
            Some(CssFlexWrap::NoWrap)
        } else if lit_eq(t, "wrap") {
            Some(CssFlexWrap::Wrap)
        } else if lit_eq(t, "wrap-reverse") {
            Some(CssFlexWrap::WrapReverse)
        } else {
            None
        }
    }

    open spec fn name_spec(&self) -> Seq<char> {
        match self {
            CssFlexWrap::NoWrap => "nowrap"@,
            CssFlexWrap::Wrap => "wrap"@,
            CssFlexWrap::WrapReverse => "wrap-reverse"@,
        }
    }

    fn name(&self) -> (r: &'static str) {
        match self {
            CssFlexWrap::NoWrap => "nowrap",
            CssFlexWrap::Wrap => "wrap",
            CssFlexWrap::WrapReverse => "wrap-reverse",
        }
    }
}

/// What happens to content that does not fit, along one axis.
#[derive(Debug, Clone, Copy, PartialEq, Eq, Structural)]
pub enum CssOverflow {
    Visible,
    Hidden,
    Scroll,
    Auto,
}

impl Keyword for CssOverflow {
    open spec fn keyword_spec(t: Seq<char>) -> Option<CssOverflow> {
        if t == "visible"@ {
            Some(CssOverflow::Visible)
        } else if t == "hidden"@ {
            Some(CssOverflow::Hidden)
        } else if t == "scroll"@ {
            Some(CssOverflow::Scroll)
        } else if t == "auto"@ {
            Some(CssOverflow::Auto)
        } else {
            None
        }
    }

    fn from_keyword(t: &[char]) -> (r: Option<CssOverflow>) {
        if lit_eq(t, "visible") {
            Some(CssOverflow::Visible)
        } else if lit_eq(t, "hidden") {
            Some(CssOverflow::Hidden)
        } else if lit_eq(t, "scroll") {
            Some(CssOverflow::Scroll)
        } else if lit_eq(t, "auto") {
            Some(CssOverflow::Auto)
        } else {
            None
        }
    }

    open spec fn name_spec(&self) -> Seq<char> {
        match self {
            CssOverflow::Visible => "visible"@,
            CssOverflow::Hidden => "hidden"@,
            CssOverflow::Scroll => "scroll"@,
            CssOverflow::Auto => "auto"@,
        }
    }

    fn name(&self) -> (r: &'static str) {
        match self {
            CssOverflow::Visible => "visible",
            CssOverflow::Hidden => "hidden",
            CssOverflow::Scroll => "scroll",
            CssOverflow::Auto => "auto",
        }
    }
}

/// How a node is positioned.
#[derive(Debug, Clone, Copy, PartialEq, Eq, Structural)]
pub enum CssPosition {
    Static,
    Relative,
    Absolute,
    Sticky,
}

impl Keyword for CssPosition {
    open spec fn keyword_spec(t: Seq<char>) -> Option<CssPosition> {
        if t == "static"@ {
            Some(CssPosition::Static)
        } else if t == "relative"@ {
            Some(CssPosition::Relative)
        } else if t == "absolute"@ {
            Some(CssPosition::Absolute)
        } else if t == "sticky"@ {
            Some(CssPosition::Sticky)
        } else {
            None
        }
    }

    fn from_keyword(t: &[char]) -> (r: Option<CssPosition>) {
        if lit_eq(t, "static") {
            Some(CssPosition::Static)
        } else if lit_eq(t, "relative") {
            Some(CssPosition::Relative)
        } else if lit_eq(t, "absolute") {
            Some(CssPosition::Absolute)
        } else if lit_eq(t, "sticky") {
            Some(CssPosition::Sticky)
        } else {
            None
        }
    }

    open spec fn name_spec(&self) -> Seq<char> {
        match self {
            CssPosition::Static => "static"@,
            CssPosition::Relative => "relative"@,
            CssPosition::Absolute => "absolute"@,
            CssPosition::Sticky => "sticky"@,
        }
    }

    fn name(&self) -> (r: &'static str) {
        match self {
            CssPosition::Static => "static",
            CssPosition::Relative => "relative",
            CssPosition::Absolute => "absolute",
            CssPosition::Sticky => "sticky",
        }
    }
}

/// Horizontal alignment of text.
#[derive(Debug, Clone, Copy, PartialEq, Eq, Structural)]
pub enum CssTextAlign {
    Left,
    Center,
    Right,
    Justify,
}

impl Keyword for CssTextAlign {
    open spec fn keyword_spec(t: Seq<char>) -> Option<CssTextAlign> {
        if t == "left"@ {
            Some(CssTextAlign::Left)
        } else if t == "center"@ {
            Some(CssTextAlign::Center)
        } else if t == "right"@ {
            Some(CssTextAlign::Right)
        } else if t == "justify"@ {
            Some(CssTextAlign::Justify)
        } else {
            None
        }
    }

    fn from_keyword(t: &[char]) -> (r: Option<CssTextAlign>) {
        if lit_eq(t, "left") {
            Some(CssTextAlign::Left)
        } else if lit_eq(t, "center") {
            Some(CssTextAlign::Center)
        } else if lit_eq(t, "right") {
            Some(CssTextAlign::Right)
        } else if lit_eq(t, "justify") {
            Some(CssTextAlign::Justify)
        } else {
            None
        }
    }

    open spec fn name_spec(&self) -> Seq<char> {
        match self {
            CssTextAlign::Left => "left"@,
            CssTextAlign::Center => "center"@,
            CssTextAlign::Right => "right"@,
            CssTextAlign::Justify => "justify"@,
        }
    }

    fn name(&self) -> (r: &'static str) {
        match self {
            CssTextAlign::Left => "left",
            CssTextAlign::Center => "center",
            CssTextAlign::Right => "right",
            CssTextAlign::Justify => "justify",
        }
    }
}

/// Whether a node is painted.
#[derive(Debug, Clone, Copy, PartialEq, Eq, Structural)]
pub enum CssVisibility {
    Visible,
    Hidden,
    Collapse,
}

impl Keyword for CssVisibility {
    open spec fn keyword_spec(t: Seq<char>) -> Option<CssVisibility> {
        if t == "visible"@ {
            Some(CssVisibility::Visible)
        } else if t == "hidden"@ {
            Some(CssVisibility::Hidden)
        } else if t == "collapse"@ {
            Some(CssVisibility::Collapse)
        } else {
            None
        }
    }

    fn from_keyword(t: &[char]) -> (r: Option<CssVisibility>) {
        if lit_eq(t, "visible") {
            Some(CssVisibility::Visible)
        } else if lit_eq(t, "hidden") {
            Some(CssVisibility::Hidden)
        } else if lit_eq(t, "collapse") {
            Some(CssVisibility::Collapse)
        } else {
            None
        }
    }

    open spec fn name_spec(&self) -> Seq<char> {
        match self {
            CssVisibility::Visible => "visible"@,
            CssVisibility::Hidden => "hidden"@,
            CssVisibility::Collapse => "collapse"@,
        }
    }

    fn name(&self) -> (r: &'static str) {
        match self {
            CssVisibility::Visible => "visible",
            CssVisibility::Hidden => "hidden",
            CssVisibility::Collapse => "collapse",
        }
    }
}

impl CssValue for CssAlign {
    open spec fn tokens_spec(ts: Seq<Tok>) -> Option<CssAlign> {
        keyword_of::<CssAlign>(ts)
    }

    fn from_tokens(ts: &[Vec<char>]) -> (r: Option<CssAlign>) {
        keyword_toks(ts)
    }
}

impl CssValue for CssJustify {
    open spec fn tokens_spec(ts: Seq<Tok>) -> Option<CssJustify> {
        keyword_of::<CssJustify>(ts)
    }

    fn from_tokens(ts: &[Vec<char>]) -> (r: Option<CssJustify>) {
        keyword_toks(ts)
    }
}

impl CssValue for CssBorderStyle {
    open spec fn tokens_spec(ts: Seq<Tok>) -> Option<CssBorderStyle> {
        keyword_of::<CssBorderStyle>(ts)
    }

    fn from_tokens(ts: &[Vec<char>]) -> (r: Option<CssBorderStyle>) {
        keyword_toks(ts)
    }
}

impl CssValue for CssDisplay {
    open spec fn tokens_spec(ts: Seq<Tok>) -> Option<CssDisplay> {
        keyword_of::<CssDisplay>(ts)
    }

    fn from_tokens(ts: &[Vec<char>]) -> (r: Option<CssDisplay>) {
        keyword_toks(ts)
    }
}

impl CssValue for CssFlexDirection {
    open spec fn tokens_spec(ts: Seq<Tok>) -> Option<CssFlexDirection> {
        keyword_of::<CssFlexDirection>(ts)
    }

    fn from_tokens(ts: &[Vec<char>]) -> (r: Option<CssFlexDirection>) {
        keyword_toks(ts)
    }
}

impl CssValue for CssFlexWrap {
    open spec fn tokens_spec(ts: Seq<Tok>) -> Option<CssFlexWrap> {
        keyword_of::<CssFlexWrap>(ts)
    }

    fn from_tokens(ts: &[Vec<char>]) -> (r: Option<CssFlexWrap>) {
        keyword_toks(ts)
    }
}

impl CssValue for CssOverflow {
    open spec fn tokens_spec(ts: Seq<Tok>) -> Option<CssOverflow> {
        keyword_of::<CssOverflow>(ts)
    }

    fn from_tokens(ts: &[Vec<char>]) -> (r: Option<CssOverflow>) {
        keyword_toks(ts)
    }
}

impl CssValue for CssPosition {
    open spec fn tokens_spec(ts: Seq<Tok>) -> Option<CssPosition> {
        keyword_of::<CssPosition>(ts)
    }

    fn from_tokens(ts: &[Vec<char>]) -> (r: Option<CssPosition>) {
        keyword_toks(ts)
    }
}

impl CssValue for CssTextAlign {
    open spec fn tokens_spec(ts: Seq<Tok>) -> Option<CssTextAlign> {
        keyword_of::<CssTextAlign>(ts)
    }

    fn from_tokens(ts: &[Vec<char>]) -> (r: Option<CssTextAlign>) {
        keyword_toks(ts)
    }
}

impl CssValue for CssVisibility {
    open spec fn tokens_spec(ts: Seq<Tok>) -> Option<CssVisibility> {
        keyword_of::<CssVisibility>(ts)
    }

    fn from_tokens(ts: &[Vec<char>]) -> (r: Option<CssVisibility>) {
        keyword_toks(ts)
    }
}

} // verus!
