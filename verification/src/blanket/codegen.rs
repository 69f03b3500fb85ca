use vstd::prelude::*;

use crate::ast::{Blanket, BlanketV, Decl, DeclV, dseq, duplicate_bounds};

verus! {

/// Everything the blanket generator emits, in order: the capability
/// declaration requiring the whole bound conjunction, then one universal
/// implementation for every type satisfying it. No sealing: blanket
/// capabilities are open.
pub open spec fn spec_blanket_decls(r: BlanketV) -> Seq<DeclV> {
    seq![
        DeclV::Capability { vis: r.visibility, name: r.trait_name, supers: r.bounds },
        DeclV::BlanketImpl { cap: r.trait_name, bounds: r.bounds },
    ]
}

/// Expands a blanket request into its declaration pair.
pub fn generate(blanket: Blanket) -> (out: Vec<Decl>)
    ensures
        dseq(out@) == spec_blanket_decls(blanket@),
{
    let Blanket { visibility, trait_name, bounds } = blanket;
    let supers = duplicate_bounds(&bounds);
    let mut out: Vec<Decl> = Vec::new();
    out.push(Decl::Capability { vis: visibility, name: trait_name.clone(), supers });
    out.push(Decl::BlanketImpl { cap: trait_name, bounds });
    proof {
        assert(dseq(out@) =~= spec_blanket_decls(blanket@));
    }
    out
}

} // verus!
