use graffiti::props::StyleProp;
use graffiti::selector::{Component, Selector, SelectorPart};
use graffiti::sheet::{Rule, StyleSheet};
use graffiti::style::Style;
use graffiti::values::{CssDimension, CssNumber};

#[test]
fn basic() {
    let sheet = StyleSheet::parse("div { color: #fff }");

    assert_eq!(sheet.rules()[0], Rule::new(Selector::parse("div"), Style::parse("color: #fff")));
    assert_eq!(sheet.rules()[0].style().css_text(), "color: rgba(255, 255, 255, 255);");

    // white-space
    assert_eq!(StyleSheet::parse(" *{}").rules().len(), 1);
    assert_eq!(StyleSheet::parse("\n*{\n}\n").rules().len(), 1);

    // forgiving/future-compatibility
    assert_eq!(StyleSheet::parse(":root {} a { v: 0 }").rules().len(), 2);
    assert_eq!(StyleSheet::parse("a {} @media { a { v: 0 } } b {}").rules().len(), 2);
    assert_eq!(StyleSheet::parse("@media { a { v: 0 } } a {} b {}").rules().len(), 2);
}

fn names(sheet: &StyleSheet) -> Vec<Vec<SelectorPart>> {
    sheet.rules().iter().map(|r| r.selector().parts().clone()).collect()
}

fn local(n: &str) -> Vec<SelectorPart> {
    vec![SelectorPart::Component(Component::LocalName(n.into()))]
}

#[test]
fn malformed_blocks_keep_the_other_rules() {
    let sheet = StyleSheet::parse("a { width: 1px } @import x; } b { width: 2px } ) ( } c {}");
    assert_eq!(names(&sheet), vec![local("a"), local("b"), local("c")]);
    assert_eq!(
        sheet.rules()[1].style().props(),
        &[StyleProp::Width(CssDimension::Px(CssNumber::from_int(2)))]
    );

    let sheet = StyleSheet::parse("} a {} @font-face { x: y } b {}");
    assert_eq!(names(&sheet), vec![local("a"), local("b")]);

    let sheet = StyleSheet::parse("a { color }  b { height: 0 }");
    assert_eq!(names(&sheet), vec![local("b")]);
}

#[test]
fn missing_final_semicolon_and_repeated_ones() {
    let sheet = StyleSheet::parse("a { width: 1px;; height: 2px }");
    assert_eq!(
        sheet.rules()[0].style().props(),
        &[
            StyleProp::Width(CssDimension::Px(CssNumber::from_int(1))),
            StyleProp::Height(CssDimension::Px(CssNumber::from_int(2)))
        ]
    );
}

#[test]
fn css_text_lists_each_property() {
    let s = Style::parse("width: 1.5px; opacity: 0.25; display: none; margin-top: -2%; height: 0");
    assert_eq!(
        s.css_text(),
        "width: 1.5px; opacity: 0.25; display: none; margin-top: -2%; height: 0;"
    );
}

#[test]
fn at_rules_are_skipped_whole() {
    assert_eq!(names(&StyleSheet::parse("@i; a {}")), vec![local("a")]);
    assert_eq!(names(&StyleSheet::parse("@import url(x); a {} b {}")), vec![local("a"), local("b")]);
    assert_eq!(
        names(&StyleSheet::parse("@supports (x) { a {} b {} } c {}")),
        vec![local("c")]
    );
    assert_eq!(
        names(&StyleSheet::parse("a {} @media screen { b { x: y } @media print { c {} } } d {}")),
        vec![local("a"), local("d")]
    );
    assert_eq!(names(&StyleSheet::parse("a {} @font-face { src: x }")), vec![local("a")]);
    assert_eq!(names(&StyleSheet::parse("a {} @media { b {}")), vec![local("a")]);
}
