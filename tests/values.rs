use graffiti::keywords::{
    CssAlign, CssBorderStyle, CssDisplay, CssFlexDirection, CssFlexWrap, CssJustify, CssOverflow,
    CssPosition, CssTextAlign, CssVisibility,
};
use graffiti::style::parse_value;
use graffiti::tokenizer::tokenize;
use graffiti::values::{CssColor, CssDimension, CssNumber, ParseError};

fn toks(s: &str) -> Vec<String> {
    tokenize(s)
}

fn color_of(s: &str) -> Result<CssColor, ParseError> {
    let t = toks(s);
    let v: Vec<&str> = t.iter().map(|x| x.as_str()).collect();
    parse_value(&v)
}

#[test]
fn parse_align() {
    assert_eq!(parse_value(&["auto"]), Ok(CssAlign::Auto));
    assert_eq!(parse_value(&["flex-start"]), Ok(CssAlign::FlexStart));
    assert_eq!(parse_value(&["center"]), Ok(CssAlign::Center));
    assert_eq!(parse_value(&["flex-end"]), Ok(CssAlign::FlexEnd));
    assert_eq!(parse_value(&["stretch"]), Ok(CssAlign::Stretch));
    assert_eq!(parse_value(&["baseline"]), Ok(CssAlign::Baseline));
    assert_eq!(parse_value(&["space-between"]), Ok(CssAlign::SpaceBetween));
    assert_eq!(parse_value(&["space-around"]), Ok(CssAlign::SpaceAround));
}

#[test]
fn parse_justify() {
    assert_eq!(parse_value(&["flex-start"]), Ok(CssJustify::FlexStart));
    assert_eq!(parse_value(&["center"]), Ok(CssJustify::Center));
    assert_eq!(parse_value(&["flex-end"]), Ok(CssJustify::FlexEnd));
    assert_eq!(parse_value(&["space-between"]), Ok(CssJustify::SpaceBetween));
    assert_eq!(parse_value(&["space-around"]), Ok(CssJustify::SpaceAround));
    assert_eq!(parse_value(&["space-evenly"]), Ok(CssJustify::SpaceEvenly));
}

#[test]
fn parse_dimension() {
    assert_eq!(parse_value(&["auto"]), Ok(CssDimension::Auto));
    assert_eq!(parse_value(&["10", "px"]), Ok(CssDimension::Px(CssNumber::from_int(10))));
    assert_eq!(parse_value(&["100", "%"]), Ok(CssDimension::Percent(CssNumber::from_int(100))));
    // a bare zero stays its own form
    assert_eq!(parse_value(&["0"]), Ok(CssDimension::Zero));
}

#[test]
fn parse_color() {
    assert_eq!(parse_value(&["#", "000000"]), Ok(CssColor::black()));
    assert_eq!(parse_value(&["#", "ff0000"]), Ok(CssColor::red()));
    assert_eq!(parse_value(&["#", "00ff00"]), Ok(CssColor::green()));
    assert_eq!(parse_value(&["#", "0000ff"]), Ok(CssColor::blue()));

    assert_eq!(parse_value(&["#", "80808080"]), Ok(CssColor::from_rgba8(128, 128, 128, 128)));
    assert_eq!(parse_value(&["#", "00000080"]), Ok(CssColor::from_rgba8(0, 0, 0, 128)));

    assert_eq!(parse_value(&["#", "000"]), Ok(CssColor::black()));
    assert_eq!(parse_value(&["#", "f00"]), Ok(CssColor::red()));
    assert_eq!(parse_value(&["#", "fff"]), Ok(CssColor::white()));

    assert_eq!(parse_value(&["#", "0000"]), Ok(CssColor::transparent()));
    assert_eq!(parse_value(&["#", "f00f"]), Ok(CssColor::red()));

    assert_eq!(color_of("rgb(0, 0, 0)"), Ok(CssColor::black()));
    assert_eq!(color_of("rgba(0, 0, 0, 0)"), Ok(CssColor::transparent()));

    assert_eq!(parse_value(&["transparent"]), Ok(CssColor::transparent()));
    assert_eq!(parse_value(&["black"]), Ok(CssColor::black()));
}

#[test]
fn parse_border_style() {
    assert_eq!(parse_value(&["none"]), Ok(CssBorderStyle::NoBorder));
    assert_eq!(parse_value(&["hidden"]), Ok(CssBorderStyle::Hidden));
    assert_eq!(parse_value(&["dotted"]), Ok(CssBorderStyle::Dotted));
    assert_eq!(parse_value(&["dashed"]), Ok(CssBorderStyle::Dashed));
    assert_eq!(parse_value(&["solid"]), Ok(CssBorderStyle::Solid));
    assert_eq!(parse_value(&["double"]), Ok(CssBorderStyle::Double));
    assert_eq!(parse_value(&["groove"]), Ok(CssBorderStyle::Groove));
    assert_eq!(parse_value(&["ridge"]), Ok(CssBorderStyle::Ridge));
    assert_eq!(parse_value(&["inset"]), Ok(CssBorderStyle::Inset));
    assert_eq!(parse_value(&["outset"]), Ok(CssBorderStyle::Outset));
}

#[test]
fn parse_display() {
    assert_eq!(parse_value(&["none"]), Ok(CssDisplay::NoDisplay));
    assert_eq!(parse_value(&["block"]), Ok(CssDisplay::Block));
    assert_eq!(parse_value(&["inline"]), Ok(CssDisplay::Inline));
    assert_eq!(parse_value(&["flex"]), Ok(CssDisplay::Flex));
}

#[test]
fn parse_flex_direction() {
    assert_eq!(parse_value(&["row"]), Ok(CssFlexDirection::Row));
    assert_eq!(parse_value(&["column"]), Ok(CssFlexDirection::Column));
    assert_eq!(parse_value(&["row-reverse"]), Ok(CssFlexDirection::RowReverse));
    assert_eq!(parse_value(&["column-reverse"]), Ok(CssFlexDirection::ColumnReverse));
}

#[test]
fn parse_flex_wrap() {
    assert_eq!(parse_value(&["nowrap"]), Ok(CssFlexWrap::NoWrap));
    assert_eq!(parse_value(&["wrap"]), Ok(CssFlexWrap::Wrap));
    assert_eq!(parse_value(&["wrap-reverse"]), Ok(CssFlexWrap::WrapReverse));
}

#[test]
fn parse_overflow() {
    assert_eq!(parse_value(&["visible"]), Ok(CssOverflow::Visible));
    assert_eq!(parse_value(&["hidden"]), Ok(CssOverflow::Hidden));
    assert_eq!(parse_value(&["scroll"]), Ok(CssOverflow::Scroll));
    assert_eq!(parse_value(&["auto"]), Ok(CssOverflow::Auto));
}

#[test]
fn parse_position() {
    assert_eq!(parse_value(&["static"]), Ok(CssPosition::Static));
    assert_eq!(parse_value(&["relative"]), Ok(CssPosition::Relative));
    assert_eq!(parse_value(&["absolute"]), Ok(CssPosition::Absolute));
    assert_eq!(parse_value(&["sticky"]), Ok(CssPosition::Sticky));
}

#[test]
fn parse_text_align() {
    assert_eq!(parse_value(&["left"]), Ok(CssTextAlign::Left));
    assert_eq!(parse_value(&["center"]), Ok(CssTextAlign::Center));
    assert_eq!(parse_value(&["right"]), Ok(CssTextAlign::Right));
    assert_eq!(parse_value(&["justify"]), Ok(CssTextAlign::Justify));
}

#[test]
fn parse_visibility() {
    assert_eq!(parse_value(&["visible"]), Ok(CssVisibility::Visible));
    assert_eq!(parse_value(&["hidden"]), Ok(CssVisibility::Hidden));
    assert_eq!(parse_value(&["collapse"]), Ok(CssVisibility::Collapse));
}

#[test]
fn color_round_trip() {
    let red = CssColor::from_rgba8(255, 0, 0, 255);
    assert_eq!(color_of("#f00"), Ok(red));
    assert_eq!(color_of("#ff0000ff"), Ok(red));
    assert_eq!(color_of("rgb(255,0,0)"), Ok(red));
    assert_eq!(color_of("red"), Ok(red));
    assert_eq!(color_of("rgba(0,0,0,0)"), Ok(CssColor::from_rgba8(0, 0, 0, 0)));
}

#[test]
fn rgba_alpha_is_scaled_and_truncated() {
    assert_eq!(color_of("rgba(1, 2, 3, 0.5)"), Ok(CssColor::from_rgba8(1, 2, 3, 127)));
    assert_eq!(color_of("rgba(1, 2, 3, 1)"), Ok(CssColor::from_rgba8(1, 2, 3, 255)));
    assert_eq!(color_of("rgba(1, 2, 3, 2.5)"), Ok(CssColor::from_rgba8(1, 2, 3, 255)));
    assert_eq!(color_of("rgba(1, 2, 3, -1)"), Ok(CssColor::from_rgba8(1, 2, 3, 0)));
}

#[test]
fn bad_colors_fail() {
    assert_eq!(parse_value::<CssColor>(&["#", "12345"]), Err(ParseError));
    assert_eq!(parse_value::<CssColor>(&["#", "gggggg"]), Err(ParseError));
    assert_eq!(parse_value::<CssColor>(&["Black"]), Err(ParseError));
    assert_eq!(color_of("rgb(256, 0, 0)"), Err(ParseError));
    assert_eq!(color_of("rgb(0, 0)"), Err(ParseError));
}

#[test]
fn numbers() {
    let n = |s: &str| parse_value::<CssNumber>(&[s]);
    assert_eq!(n("1.50"), Ok(CssNumber { mantissa: 15, scale: 1 }));
    assert_eq!(n("-2.25"), Ok(CssNumber { mantissa: -225, scale: 2 }));
    assert_eq!(n("10.000"), Ok(CssNumber::from_int(10)));
    assert_eq!(n(".5"), Ok(CssNumber { mantissa: 5, scale: 1 }));
    assert_eq!(n("3."), Ok(CssNumber::from_int(3)));
    assert_eq!(n("."), Err(ParseError));
    assert_eq!(n("-"), Err(ParseError));
    assert_eq!(n("1.2.3"), Err(ParseError));
    assert_eq!(n("1234567890123456789"), Err(ParseError));
    assert_eq!(n("123456789012345678"), Ok(CssNumber { mantissa: 123456789012345678, scale: 0 }));
}

#[test]
fn dimensions_need_exact_arity() {
    assert_eq!(parse_value::<CssDimension>(&["10"]), Err(ParseError));
    assert_eq!(parse_value::<CssDimension>(&["10", "px", "x"]), Err(ParseError));
    assert_eq!(parse_value::<CssDimension>(&["10", "em"]), Err(ParseError));
    assert_eq!(parse_value::<CssDimension>(&["0", "px"]), Ok(CssDimension::Px(CssNumber::from_int(0))));
    assert_eq!(parse_value::<CssAlign>(&["Center"]), Err(ParseError));
}
