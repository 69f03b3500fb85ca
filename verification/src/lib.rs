use vstd::prelude::*;

pub mod ast;
pub mod blanket;
pub mod codegen;
pub mod laws;
pub mod lexer;
pub mod render;
pub mod union;

use crate::ast::SyntaxError;
use crate::blanket::parse::spec_blanket_parse_text;
use crate::render::{render_decls, spec_render_decls};
use crate::union::parse::spec_union_parse_text;

verus! {

/// The union surface as a text transform: the rendered declarations of the
/// parsed request, or the position of the offence (a character index when no
/// token fits there, a token index when the token sequence leaves the
/// grammar).
pub open spec fn spec_union_expand(s: Seq<char>) -> Result<Seq<char>, nat> {
    match spec_union_parse_text(s) {
        Ok(r) => Ok(spec_render_decls(crate::codegen::spec_union_decls(r))),
        Err(p) => Err(p),
    }
}

/// The blanket surface as a text transform.
pub open spec fn spec_blanket_expand(s: Seq<char>) -> Result<Seq<char>, nat> {
    match spec_blanket_parse_text(s) {
        Ok(r) => Ok(spec_render_decls(crate::blanket::codegen::spec_blanket_decls(r))),
        Err(p) => Err(p),
    }
}

/// Expands a union description into the boilerplate it stands for: one
/// sealed capability declaration, one empty marker type per variant with an
/// implementation of the capability, and a private module that holds the
/// sealing capability with one implementation per marker type. Fails, with
/// no partial output, exactly when the input leaves the union grammar.
pub fn union(input: &str) -> (res: Result<String, SyntaxError>)
    ensures
        match res {
            Ok(out) => spec_union_expand(input@) == Ok::<Seq<char>, nat>(out@),
            Err(e) => spec_union_expand(input@) == Err::<Seq<char>, nat>(e.position as nat),
        },
{
    match crate::ast::Single::parse(input) {
        Ok(single) => {
            let decls = crate::codegen::generate(single);
            Ok(render_decls(&decls))
        },
        Err(e) => Err(e),
    }
}

/// Expands a blanket description into the boilerplate it stands for: one
/// capability declaration requiring the whole bound conjunction, and one
/// universal implementation for every type satisfying it. Fails, with no
/// partial output, exactly when the input leaves the blanket grammar.
pub fn blanket(input: &str) -> (res: Result<String, SyntaxError>)
    ensures
        match res {
            Ok(out) => spec_blanket_expand(input@) == Ok::<Seq<char>, nat>(out@),
            Err(e) => spec_blanket_expand(input@) == Err::<Seq<char>, nat>(e.position as nat),
        },
{
    match crate::ast::Blanket::parse(input) {
        Ok(blanket) => {
            let decls = crate::blanket::codegen::generate(blanket);
            Ok(render_decls(&decls))
        },
        Err(e) => Err(e),
    }
}

} // verus!
