use typetrait::ast::{Decl, Single, Token};
use typetrait::codegen::generate;
use typetrait::union::union_impl;
use typetrait::blanket::blanket_impl;
use typetrait::{blanket, union};

#[test]
fn union_status_scenario() {
    let out = union("pub Status = Validated | Unvalidated").unwrap();
    let expected = "pub trait Status: __status_private::StatusSealed {}\npub enum Validated {}\nimpl Status for Validated {}\npub enum Unvalidated {}\nimpl Status for Unvalidated {}\nmod __status_private {\npub trait StatusSealed {}\nimpl StatusSealed for super::Validated {}\nimpl StatusSealed for super::Unvalidated {}\n}\n";
    assert_eq!(out, expected);
}

#[test]
fn blanket_safe_scenario() {
    let out = blanket("pub Safe = Send + Sync + 'static").unwrap();
    let expected = "pub trait Safe: Send + Sync + 'static {}\nimpl<BlanketTypeParameter> Safe for BlanketTypeParameter where BlanketTypeParameter: Send + Sync + 'static {}\n";
    assert_eq!(out, expected);
}

#[test]
fn zero_variant_union() {
    let out = union("Foo = ").unwrap();
    let expected = "trait Foo: __foo_private::FooSealed {}\nmod __foo_private {\npub trait FooSealed {}\n}\n";
    assert_eq!(out, expected);
    assert!(!out.contains("enum"));
}

#[test]
fn union_is_deterministic() {
    let a = union("pub Status = Validated | Unvalidated").unwrap();
    let b = union("pub Status = Validated | Unvalidated").unwrap();
    assert_eq!(a, b);
}

#[test]
fn union_failure_produces_no_output() {
    assert!(union("Foo = Bar | +").is_err());
    assert!(union("= Bar").is_err());
}

#[test]
fn derived_names_are_snake_cased() {
    let out = union("pub MyState = A").unwrap();
    assert!(out.contains("mod __my_state_private {"));
    assert!(out.contains("trait MyStateSealed {}"));
}

#[test]
fn attributes_go_on_every_marker() {
    let out = union("#[derive(Debug)] pub Foo = A | B").unwrap();
    assert_eq!(out.matches("#[derive(Debug)]\npub enum").count(), 2);
}

#[test]
fn scoped_visibility_in_output() {
    let out = union("pub(crate) Foo = A").unwrap();
    assert!(out.contains("pub(crate) trait Foo:"));
    assert!(out.contains("pub(crate) enum A {}"));
}

#[test]
fn generate_orders_declarations() {
    let single = Single::parse("pub Status = Validated | Unvalidated").unwrap();
    let decls = generate(single);
    assert_eq!(decls.len(), 6);
    assert!(matches!(&decls[0], Decl::Capability { name, .. } if name == "Status"));
    assert!(matches!(&decls[1], Decl::Marker { name, .. } if name == "Validated"));
    assert!(
        matches!(&decls[2], Decl::CapImpl { cap, target } if cap == "Status" && target == "Validated")
    );
    assert!(matches!(&decls[3], Decl::Marker { name, .. } if name == "Unvalidated"));
    assert!(
        matches!(&decls[4], Decl::CapImpl { cap, target } if cap == "Status" && target == "Unvalidated")
    );
    assert!(matches!(&decls[5], Decl::SealModule { mod_name, seal_cap, targets }
        if mod_name == "__status_private" && seal_cap == "StatusSealed"
            && targets == &vec!["Validated".to_string(), "Unvalidated".to_string()]));
}

#[test]
fn union_impl_over_tokens() {
    let tokens = vec![Token::Ident("Foo".to_string()), Token::Eq];
    let decls = union_impl(&tokens).unwrap();
    assert_eq!(decls.len(), 2);
    assert!(matches!(&decls[0], Decl::Capability { name, .. } if name == "Foo"));
    assert!(matches!(&decls[1], Decl::SealModule { targets, .. } if targets.is_empty()));
}

#[test]
fn blanket_impl_over_tokens() {
    let tokens = vec![
        Token::Ident("Safe".to_string()),
        Token::Eq,
        Token::Ident("Send".to_string()),
    ];
    let decls = blanket_impl(&tokens).unwrap();
    assert_eq!(decls.len(), 2);
    assert!(matches!(&decls[0], Decl::Capability { name, supers, .. }
        if name == "Safe" && supers.len() == 1));
    assert!(matches!(&decls[1], Decl::BlanketImpl { cap, bounds }
        if cap == "Safe" && bounds.len() == 1));
}

#[test]
fn blanket_keeps_every_bound_in_order() {
    let out = blanket("T = A + B + C").unwrap();
    assert!(out.contains("trait T: A + B + C {}"));
    assert!(out.contains("where BlanketTypeParameter: A + B + C {}"));
}
