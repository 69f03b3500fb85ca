pub mod parse;

use vstd::prelude::*;

use crate::ast::{Decl, SingleV, SyntaxError, Token, dseq, tseq};
use crate::codegen::{generate, spec_union_decls};
use crate::union::parse::spec_parse_union;

verus! {

/// One whole union expansion over tokens: parse, then generate. Succeeds
/// exactly when the tokens fit the union grammar; a failure carries the
/// offending token's index, and no partial output.
pub fn union_impl(tokens: &Vec<Token>) -> (res: Result<Vec<Decl>, SyntaxError>)
    ensures
        match res {
            Ok(ds) => spec_parse_union(tseq(tokens@)) matches Ok(r) && dseq(ds@)
                == spec_union_decls(r),
            Err(e) => spec_parse_union(tseq(tokens@)) == Err::<SingleV, nat>(e.position as nat),
        },
{
    match crate::ast::Single::parse_tokens(tokens) {
        Ok(single) => Ok(generate(single)),
        Err(e) => Err(e),
    }
}

} // verus!
