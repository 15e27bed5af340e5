use graffiti::keywords::{CssBorderStyle, CssOverflow};
use graffiti::props::StyleProp;
use graffiti::style::{parse_prop_into, parse_shorthand, Style};
use graffiti::values::{CssColor, CssDimension, CssNumber, ParseError};

fn px(n: i32) -> CssDimension {
    CssDimension::Px(CssNumber::from_int(n))
}

fn num(n: i32) -> CssNumber {
    CssNumber::from_int(n)
}

#[test]
fn shorthands() {
    assert_eq!(
        Style::parse("overflow: hidden").props(),
        &[StyleProp::OverflowX(CssOverflow::Hidden), StyleProp::OverflowY(CssOverflow::Hidden)]
    );

    assert_eq!(
        Style::parse("overflow: visible hidden").props(),
        &[StyleProp::OverflowX(CssOverflow::Visible), StyleProp::OverflowY(CssOverflow::Hidden)]
    );

    assert_eq!(
        Style::parse("flex: 1").props(),
        &[StyleProp::FlexGrow(num(1)), StyleProp::FlexShrink(num(1)), StyleProp::FlexBasis(CssDimension::Auto)]
    );

    assert_eq!(
        Style::parse("flex: 2 3 10px").props(),
        &[StyleProp::FlexGrow(num(2)), StyleProp::FlexShrink(num(3)), StyleProp::FlexBasis(px(10))]
    );

    assert_eq!(
        Style::parse("padding: 0").props(),
        &[
            StyleProp::PaddingTop(CssDimension::Zero),
            StyleProp::PaddingRight(CssDimension::Zero),
            StyleProp::PaddingBottom(CssDimension::Zero),
            StyleProp::PaddingLeft(CssDimension::Zero)
        ]
    );

    assert_eq!(
        Style::parse("padding: 10px 20px").props(),
        &[
            StyleProp::PaddingTop(px(10)),
            StyleProp::PaddingRight(px(20)),
            StyleProp::PaddingBottom(px(10)),
            StyleProp::PaddingLeft(px(20))
        ]
    );

    assert_eq!(
        Style::parse("background: none").props(),
        &[StyleProp::BackgroundColor(CssColor::transparent())]
    );
    assert_eq!(
        Style::parse("background: #000").props(),
        &[StyleProp::BackgroundColor(CssColor::black())]
    );

    // override
    let mut s = Style::parse("background-color: #fff");
    s.set_property("background", "#000");
    assert_eq!(s.props(), &[StyleProp::BackgroundColor(CssColor::black())]);

    // remove
    let mut s = Style::parse("background-color: #fff");
    s.set_property("background", "none");
    assert_eq!(s.props(), &[StyleProp::BackgroundColor(CssColor::transparent())]);
}

#[test]
fn parse_prop() {
    assert_eq!(graffiti::style::parse_prop("padding-left", &["10", "px"]), Ok(StyleProp::PaddingLeft(px(10))));
    assert_eq!(
        graffiti::style::parse_prop("margin-top", &["5", "%"]),
        Ok(StyleProp::MarginTop(CssDimension::Percent(num(5))))
    );
    assert_eq!(graffiti::style::parse_prop("opacity", &["1"]), Ok(StyleProp::Opacity(num(1))));
    assert_eq!(graffiti::style::parse_prop("color", &["#", "000000"]), Ok(StyleProp::Color(CssColor::black())));
    assert_eq!(graffiti::style::parse_prop("colour", &["#", "000000"]), Err(ParseError));
    assert_eq!(graffiti::style::parse_prop("padding", &["10", "px"]), Err(ParseError));
}

#[test]
fn sides_expansion() {
    let sides = |v: &[&str]| parse_shorthand("margin", v);
    assert_eq!(
        sides(&["1", "px", " ", "2", "px", " ", "3", "px"]),
        Ok(vec![
            StyleProp::MarginTop(px(1)),
            StyleProp::MarginRight(px(2)),
            StyleProp::MarginBottom(px(3)),
            StyleProp::MarginLeft(px(2))
        ])
    );
    assert_eq!(
        sides(&["1", "px", " ", "2", "px", " ", "3", "px", " ", "4", "px"]),
        Ok(vec![
            StyleProp::MarginTop(px(1)),
            StyleProp::MarginRight(px(2)),
            StyleProp::MarginBottom(px(3)),
            StyleProp::MarginLeft(px(4))
        ])
    );
    assert_eq!(sides(&["1", "px", " ", "2", "px", " ", "3", "px", " ", "4", "px", " ", "5", "px"]), Err(ParseError));
    assert_eq!(sides(&[]), Err(ParseError));
}

#[test]
fn flex_with_basis_only() {
    assert_eq!(
        Style::parse("flex: 1 auto").props(),
        &[StyleProp::FlexGrow(num(1)), StyleProp::FlexShrink(num(1)), StyleProp::FlexBasis(CssDimension::Auto)]
    );
}

#[test]
fn outline_shorthand() {
    assert_eq!(
        Style::parse("outline: 1px solid red").props(),
        &[
            StyleProp::OutlineWidth(px(1)),
            StyleProp::OutlineStyle(CssBorderStyle::Solid),
            StyleProp::OutlineColor(CssColor::red())
        ]
    );
    assert_eq!(Style::parse("outline: solid 1px red").props(), &[]);
}

#[test]
fn last_write_wins_across_longhand_and_shorthand() {
    let s = Style::parse("padding-left: 5px; padding: 1px; padding-top: 7px");
    assert_eq!(
        s.props(),
        &[
            StyleProp::PaddingLeft(px(1)),
            StyleProp::PaddingTop(px(7)),
            StyleProp::PaddingRight(px(1)),
            StyleProp::PaddingBottom(px(1))
        ]
    );
}

#[test]
fn bad_declaration_is_dropped() {
    let s = Style::parse("color: nope; width: 10px; unknown-prop: 1; height: auto");
    assert_eq!(s.props(), &[StyleProp::Width(px(10)), StyleProp::Height(CssDimension::Auto)]);
}

#[test]
fn parse_prop_into_appends() {
    let mut s = Style::new();
    parse_prop_into("width", &["10", "px"], &mut s);
    parse_prop_into("overflow", &["scroll"], &mut s);
    parse_prop_into("nothing", &["scroll"], &mut s);
    parse_prop_into("width", &["auto"], &mut s);
    assert_eq!(
        s.props(),
        &[
            StyleProp::Width(CssDimension::Auto),
            StyleProp::OverflowX(CssOverflow::Scroll),
            StyleProp::OverflowY(CssOverflow::Scroll)
        ]
    );
}

#[test]
fn font_family() {
    assert_eq!(
        Style::parse("font-family: Arial").props(),
        &[StyleProp::FontFamily("Arial".to_string())]
    );
}
