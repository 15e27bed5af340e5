use graffiti::tokenizer::tokenize;

#[test]
fn test_tokenize() {
    assert_eq!(tokenize(""), Vec::<String>::new());
    assert_eq!(tokenize(" "), Vec::<String>::new());
    assert_eq!(tokenize(" /**/ /**/ "), Vec::<String>::new());

    assert_eq!(tokenize("block"), vec!["block"]);
    assert_eq!(tokenize("10px"), vec!["10", "px"]);
    assert_eq!(tokenize("-10px"), vec!["-10", "px"]);
    assert_eq!(tokenize("ident2"), vec!["ident2"]);
    assert_eq!(tokenize("ff0"), vec!["ff0"]);
    assert_eq!(tokenize("00f"), vec!["00", "f"]);
    assert_eq!(tokenize("#00f"), vec!["#", "00f"]);
    assert_eq!(tokenize("0 0 10px 0"), vec!["0", " ", "0", " ", "10", "px", " ", "0"]);

    assert_eq!(tokenize("a b"), vec!["a", " ", "b"]);
    assert_eq!(tokenize(".a .b"), vec![".", "a", " ", ".", "b"]);

    assert_eq!(tokenize("-webkit-xxx"), vec!["-webkit-xxx"]);
    assert_eq!(tokenize("--var"), vec!["--var"]);

    assert_eq!(
        tokenize("parent .btn { /**/ padding: 10px }"),
        vec!["parent", " ", ".", "btn", "{", "padding", ":", "10", "px", "}"]
    );

    assert_eq!(
        tokenize("@media { a b { left: 10% } }"),
        vec!["@", "media", "{", "a", " ", "b", "{", "left", ":", "10", "%", "}", "}"]
    );

    assert_eq!(tokenize("/**/ a /**/ b {}"), vec!["a", " ", "b", "{", "}"]);
}

#[test]
fn whitespace_and_comments_collapse() {
    let minimal = tokenize("a b");
    assert_eq!(minimal, vec!["a", " ", "b"]);
    assert_eq!(tokenize("a   b"), minimal);
    assert_eq!(tokenize("a/**/ b"), minimal);
    assert_eq!(tokenize("a \t\n b"), minimal);
    assert_eq!(tokenize("  /* x */ a /* y */\n b  "), minimal);
    assert_eq!(tokenize("a /**//**/ b"), minimal);
    assert_eq!(tokenize("a/* x */ /**/\t/**/b"), minimal);
}

#[test]
fn strings_and_numbers() {
    assert_eq!(tokenize("'a b' \"c\""), vec!["'a b'", "\"c\""]);
    assert_eq!(tokenize("1.5.5"), vec!["1.5", ".5"]);
    assert_eq!(tokenize("'open"), vec!["'", "open"]);
    assert_eq!(tokenize("/* open"), vec!["/", "*", " ", "open"]);
}

#[test]
fn trailing_space_is_dropped() {
    assert_eq!(tokenize("a "), vec!["a"]);
    assert_eq!(tokenize("a > b"), vec!["a", ">", "b"]);
}
