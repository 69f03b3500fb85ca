use vstd::prelude::*;

use crate::ast::{Bound, BoundV, Decl, DeclV, Single, SingleV, VisibilityV, dseq, duplicate_strings,
    sseq};

verus! {

/// The snake-case form of an identifier. What it is on given characters only
/// convert_case decides; the derived names below use it only as a name.
pub uninterp spec fn snake_of(s: Seq<char>) -> Seq<char>;

/// Relies on convert_case's `Casing::to_case` with `Case::Snake`: the result
/// is a function of the input characters alone.
#[verifier::external_body]
fn to_snake_case(s: &str) -> (r: String)
    ensures
        r@ == snake_of(s@),
{
    convert_case::Casing::to_case(&s, convert_case::Case::Snake)
}

/// The sealing capability's name: the capability name with a fixed suffix.
pub open spec fn spec_seal_trait_name(name: Seq<char>) -> Seq<char> {
    name + "Sealed"@
}

/// The private module's name: a fixed prefix, the snake-cased capability
/// name, and a fixed suffix. The leading underscores keep it clear of
/// ordinary user identifiers.
pub open spec fn spec_private_mod_name(name: Seq<char>) -> Seq<char> {
    "__"@ + snake_of(name) + "_private"@
}

/// The path by which the public capability names the sealing capability.
pub open spec fn spec_seal_path(name: Seq<char>) -> Seq<char> {
    spec_private_mod_name(name) + "::"@ + spec_seal_trait_name(name)
}

/// The public capability declaration: the request's visibility and name,
/// sealed by requiring the private module's sealing capability.
pub open spec fn spec_capability_decl(vis: VisibilityV, name: Seq<char>) -> DeclV {
    DeclV::Capability { vis, name, supers: seq![BoundV::Trait(spec_seal_path(name))] }
}

/// The private module: the sealing capability and one implementation of it
/// per marker type.
pub open spec fn spec_seal_module_decl(name: Seq<char>, targets: Seq<Seq<char>>) -> DeclV {
    DeclV::SealModule {
        mod_name: spec_private_mod_name(name),
        seal_cap: spec_seal_trait_name(name),
        targets,
    }
}

/// For each variant in input order: its marker type declaration, immediately
/// followed by its implementation of the public capability.
pub open spec fn spec_variant_decls(
    attrs: Seq<Seq<char>>,
    vis: VisibilityV,
    cap: Seq<char>,
    names: Seq<Seq<char>>,
) -> Seq<DeclV>
    decreases names.len(),
{
    if names.len() == 0 {
        seq![]
    } else {
        spec_variant_decls(attrs, vis, cap, names.drop_last()) + seq![
            DeclV::Marker { attrs, vis, name: names.last() },
            DeclV::CapImpl { cap, target: names.last() },
        ]
    }
}

/// Everything the union generator emits, in its guaranteed order: the sealed
/// capability first, then the variants in input order (each marker type
/// immediately followed by its capability implementation), and the private
/// sealing module last.
pub open spec fn spec_union_decls(r: SingleV) -> Seq<DeclV> {
    seq![spec_capability_decl(r.visibility, r.trait_name)] + spec_variant_decls(
        r.attributes,
        r.visibility,
        r.trait_name,
        r.struct_names,
    ) + seq![spec_seal_module_decl(r.trait_name, r.struct_names)]
}

/// The sealing capability's name for a capability name.
pub fn seal_trait_name(name: &str) -> (r: String)
    ensures
        r@ == spec_seal_trait_name(name@),
{
    let mut r = name.to_owned();
    r.append("Sealed");
    r
}

/// The private module's name for a capability name.
pub fn private_mod_name(name: &str) -> (r: String)
    ensures
        r@ == spec_private_mod_name(name@),
{
    let snake = to_snake_case(name);
    let mut r = "__".to_owned();
    r.append(snake.as_str());
    r.append("_private");
    r
}

/// Expands a union request into its declaration sequence.
pub fn generate(single: Single) -> (out: Vec<Decl>)
    ensures
        dseq(out@) == spec_union_decls(single@),
{
    let Single { attributes, visibility, trait_name, struct_names } = single;
    let ghost attrs_v = sseq(attributes@);
    let ghost vis_v = visibility@;
    let ghost name_v = trait_name@;
    let ghost names_v = sseq(struct_names@);

    let modname = private_mod_name(trait_name.as_str());
    let seal = seal_trait_name(trait_name.as_str());
    let mut path = modname.clone();
    path.append("::");
    path.append(seal.as_str());

    let mut supers: Vec<Bound> = Vec::new();
    supers.push(Bound::Trait(path));
    proof {
        assert(crate::ast::bseq(supers@) =~= seq![BoundV::Trait(spec_seal_path(name_v))]);
    }
    let mut out: Vec<Decl> = Vec::new();
    out.push(
        Decl::Capability { vis: visibility.duplicate(), name: trait_name.clone(), supers },
    );
    proof {
        assert(dseq(out@)[0] == spec_capability_decl(vis_v, name_v));
        assert(dseq(out@) =~= seq![spec_capability_decl(vis_v, name_v)]);
    }

    let mut i: usize = 0;
    while i < struct_names.len()
        invariant
            i <= struct_names.len(),
            names_v == sseq(struct_names@),
            attrs_v == sseq(attributes@),
            vis_v == visibility@,
            name_v == trait_name@,
            dseq(out@) == seq![spec_capability_decl(vis_v, name_v)] + spec_variant_decls(
                attrs_v,
                vis_v,
                name_v,
                names_v.take(i as int),
            ),
        decreases struct_names.len() - i,
    {
        let ghost old_out = out@;
        out.push(
            Decl::Marker {
                attrs: duplicate_strings(&attributes),
                vis: visibility.duplicate(),
                name: struct_names[i].clone(),
            },
        );
        out.push(Decl::CapImpl { cap: trait_name.clone(), target: struct_names[i].clone() });
        proof {
            assert(names_v.take(i + 1).drop_last() =~= names_v.take(i as int));
            assert(names_v.take(i + 1).last() == struct_names@[i as int]@);
            let m = DeclV::Marker { attrs: attrs_v, vis: vis_v, name: names_v.take(i + 1).last() };
            let c = DeclV::CapImpl { cap: name_v, target: names_v.take(i + 1).last() };
            assert(dseq(out@) =~= dseq(old_out) + seq![m, c]);
            assert(spec_variant_decls(attrs_v, vis_v, name_v, names_v.take(i + 1))
                == spec_variant_decls(attrs_v, vis_v, name_v, names_v.take(i as int)) + seq![m, c]);
            assert(dseq(out@) =~= seq![spec_capability_decl(vis_v, name_v)]
                + spec_variant_decls(attrs_v, vis_v, name_v, names_v.take(i + 1)));
        }
        i = i + 1;
    }
    proof {
        assert(names_v.take(names_v.len() as int) =~= names_v);
    }
    out.push(Decl::SealModule { mod_name: modname, seal_cap: seal, targets: struct_names });
    proof {
        assert(dseq(out@) =~= seq![spec_capability_decl(vis_v, name_v)] + spec_variant_decls(
            attrs_v,
            vis_v,
            name_v,
            names_v,
        ) + seq![spec_seal_module_decl(name_v, names_v)]);
    }
    out
}

} // verus!
