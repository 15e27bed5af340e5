use graffiti::selector::{Combinator, Component, Selector, SelectorPart};

fn s(text: &str) -> Vec<SelectorPart> {
    Selector::parse(text).parts().clone()
}

fn local(n: &str) -> SelectorPart {
    SelectorPart::Component(Component::LocalName(n.into()))
}

fn id(n: &str) -> SelectorPart {
    SelectorPart::Component(Component::Identifier(n.into()))
}

fn class(n: &str) -> SelectorPart {
    SelectorPart::Component(Component::ClassName(n.into()))
}

fn comb(c: Combinator) -> SelectorPart {
    SelectorPart::Combinator(c)
}

fn unsupported() -> SelectorPart {
    SelectorPart::Component(Component::Unsupported)
}

#[test]
fn parse_selector() {
    // simple
    assert_eq!(s("*"), &[comb(Combinator::Universal)]);
    assert_eq!(s("body"), &[local("body")]);
    assert_eq!(s("h2"), &[local("h2")]);
    assert_eq!(s("#app"), &[id("app")]);
    assert_eq!(s(".btn"), &[class("btn")]);

    // combined
    assert_eq!(s(".btn.btn-primary"), &[class("btn-primary"), class("btn")]);
    assert_eq!(s("*.test"), &[class("test"), comb(Combinator::Universal)]);
    assert_eq!(s("div#app.test"), &[class("test"), id("app"), local("div")]);

    // combined with combinators
    assert_eq!(
        s("body > div.test div#test"),
        &[
            id("test"),
            local("div"),
            comb(Combinator::Ancestor),
            class("test"),
            local("div"),
            comb(Combinator::Parent),
            local("body")
        ]
    );

    // multi
    assert_eq!(s("html, body"), &[local("body"), comb(Combinator::Or), local("html")]);
    assert_eq!(
        s("body > div, div button span"),
        &[
            local("span"),
            comb(Combinator::Ancestor),
            local("button"),
            comb(Combinator::Ancestor),
            local("div"),
            comb(Combinator::Or),
            local("div"),
            comb(Combinator::Parent),
            local("body"),
        ]
    );

    // unsupported for now
    assert_eq!(s(":root"), &[unsupported()]);
    assert_eq!(s("* + *"), &[comb(Combinator::Universal), unsupported(), comb(Combinator::Universal)]);
    assert_eq!(s("* ~ *"), &[comb(Combinator::Universal), unsupported(), comb(Combinator::Universal)]);

    // invalid
    assert_eq!(s(""), &[unsupported()]);
    assert_eq!(s(" "), &[unsupported()]);
    assert_eq!(s("a,,b"), &[unsupported()]);
    assert_eq!(s("a>>b"), &[unsupported()]);

    // bugs & edge-cases
    assert_eq!(s("input[type=\"submit\"]"), &[unsupported(), local("input")]);
}

#[test]
fn pseudo_elements_are_unsupported() {
    assert_eq!(s("a::before"), &[unsupported(), local("a")]);
    assert_eq!(s("[x]"), &[unsupported()]);
    assert_eq!(s("[]"), &[unsupported()]);
}
