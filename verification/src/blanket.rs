pub mod codegen;
pub mod parse;

use vstd::prelude::*;

use crate::ast::{BlanketV, Decl, SyntaxError, Token, dseq, tseq};
use crate::blanket::codegen::{generate, spec_blanket_decls};
use crate::blanket::parse::spec_parse_blanket;

verus! {

/// One whole blanket expansion over tokens: parse, then generate. Succeeds
/// exactly when the tokens fit the blanket grammar; a failure carries the
/// offending token's index, and no partial output.
pub fn blanket_impl(tokens: &Vec<Token>) -> (res: Result<Vec<Decl>, SyntaxError>)
    ensures
        match res {
            Ok(ds) => spec_parse_blanket(tseq(tokens@)) matches Ok(r) && dseq(ds@)
                == spec_blanket_decls(r),
            Err(e) => spec_parse_blanket(tseq(tokens@)) == Err::<BlanketV, nat>(
                e.position as nat,
            ),
        },
{
    match crate::ast::Blanket::parse_tokens(tokens) {
        Ok(blanket) => Ok(generate(blanket)),
        Err(e) => Err(e),
    }
}

} // verus!
