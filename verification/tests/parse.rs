use typetrait::ast::{Blanket, Bound, Single, Token, Visibility};
use typetrait::lexer::lex;

#[test]
fn can_parse() {
    let blanket = Blanket::parse("pub Safe = Send + Sync").unwrap();
    assert_eq!(blanket.visibility.as_text(), "pub");
    assert_eq!(blanket.trait_name, "Safe");
    assert_eq!(blanket.bounds[0].as_text(), "Send");
    assert_eq!(blanket.bounds[1].as_text(), "Sync");
}

#[test]
fn can_parse_lifetime_bounds() {
    let _: Blanket = Blanket::parse("pub Safe = 'static").unwrap();
}

#[test]
fn can_parse_single() {
    let single = Single::parse("#[foo] pub Foo = Bar | Baz").unwrap();
    assert_eq!(single.attributes.len(), 1);
    assert_eq!(single.visibility.as_text(), "pub");
    assert_eq!(single.trait_name, "Foo");
    assert_eq!(single.struct_names[0], "Bar");
    assert_eq!(single.struct_names[1], "Baz");
}

#[test]
fn allows_trailing_pipe() {
    let _: Single = Single::parse("Foo = Bar | ").unwrap();
}

#[test]
fn trailing_pipe_parses_as_without() {
    let with = Single::parse("Foo = Bar | Baz |").unwrap();
    let without = Single::parse("Foo = Bar | Baz").unwrap();
    assert_eq!(with.struct_names, without.struct_names);
    assert_eq!(with.struct_names, vec!["Bar".to_string(), "Baz".to_string()]);
}

#[test]
fn zero_variants_parse() {
    let single = Single::parse("Foo = ").unwrap();
    assert_eq!(single.trait_name, "Foo");
    assert!(single.struct_names.is_empty());
    assert!(single.attributes.is_empty());
    assert_eq!(single.visibility.as_text(), "");
}

#[test]
fn duplicate_variants_are_kept() {
    let single = Single::parse("Foo = Bar | Bar").unwrap();
    assert_eq!(single.struct_names, vec!["Bar".to_string(), "Bar".to_string()]);
}

#[test]
fn scoped_visibility_is_echoed() {
    let single = Single::parse("pub(crate) Foo = Bar").unwrap();
    assert_eq!(single.visibility.as_text(), "pub(crate)");
}

#[test]
fn attribute_text_is_verbatim() {
    let single = Single::parse("#[derive(Debug)] Foo = Bar").unwrap();
    assert_eq!(single.attributes, vec!["#[derive(Debug)]".to_string()]);
}

#[test]
fn union_rejects_missing_equals() {
    let err = Single::parse("Foo").unwrap_err();
    assert_eq!(err.position, 1);
}

#[test]
fn union_rejects_leading_equals() {
    let err = Single::parse("= Bar").unwrap_err();
    assert_eq!(err.position, 0);
}

#[test]
fn union_rejects_non_identifier_variant() {
    // Tokens: Foo, =, Bar, |, + — the plus sign offends at token index 4.
    let err = Single::parse("Foo = Bar | +").unwrap_err();
    assert_eq!(err.position, 4);
}

#[test]
fn blanket_rejects_empty_bound_list() {
    // Tokens: Foo, = — a bound is required where the input ends, token index 2.
    let err = Blanket::parse("Foo = ").unwrap_err();
    assert_eq!(err.position, 2);
}

#[test]
fn blanket_rejects_trailing_plus() {
    // Tokens: Foo, =, Send, + — a bound is required where the input ends.
    let err = Blanket::parse("Foo = Send +").unwrap_err();
    assert_eq!(err.position, 4);
}

#[test]
fn blanket_allows_implicit_visibility() {
    let blanket = Blanket::parse("Safe = Send").unwrap();
    assert_eq!(blanket.visibility.as_text(), "");
    assert_eq!(blanket.trait_name, "Safe");
    assert_eq!(blanket.bounds.len(), 1);
}

#[test]
fn lexer_splits_all_token_kinds() {
    let tokens = lex("#[foo] pub(in crate::x) Name = 'a | +").unwrap();
    assert_eq!(tokens.len(), 7);
    assert!(matches!(&tokens[0], Token::Attr(s) if s == "#[foo]"));
    assert!(
        matches!(&tokens[1], Token::Vis(Visibility::Scoped(s)) if s == "in crate::x")
    );
    assert!(matches!(&tokens[2], Token::Ident(s) if s == "Name"));
    assert!(matches!(&tokens[3], Token::Eq));
    assert!(matches!(&tokens[4], Token::Lifetime(s) if s == "a"));
    assert!(matches!(&tokens[5], Token::Pipe));
    assert!(matches!(&tokens[6], Token::Plus));
}

#[test]
fn lexer_rejects_stray_character() {
    // The dollar sign stands at character index 6.
    let err = lex("Foo = $").unwrap_err();
    assert_eq!(err.position, 6);
}

#[test]
fn lexer_rejects_unterminated_attribute() {
    let err = lex("#[foo").unwrap_err();
    assert_eq!(err.position, 0);
}

#[test]
fn lexer_handles_nested_attribute_brackets() {
    let tokens = lex("#[cfg(any(a, b))] X = Y").unwrap();
    assert!(matches!(&tokens[0], Token::Attr(s) if s == "#[cfg(any(a, b))]"));
    let tokens = lex("#[doc = [1]] X = Y").unwrap();
    assert!(matches!(&tokens[0], Token::Attr(s) if s == "#[doc = [1]]"));
}

#[test]
fn bound_text_restores_lifetime_quote() {
    let blanket = Blanket::parse("Safe = 'static + Send").unwrap();
    assert_eq!(blanket.bounds[0].as_text(), "'static");
    assert!(matches!(&blanket.bounds[0], Bound::Lifetime(s) if s == "static"));
    assert!(matches!(&blanket.bounds[1], Bound::Trait(s) if s == "Send"));
}
