use vstd::prelude::*;

use crate::ast::{DeclV, SingleV, TokenV, VisibilityV};
use crate::blanket::codegen::spec_blanket_decls;
use crate::codegen::{spec_union_decls, spec_variant_decls};
use crate::render::spec_render_decls;
use crate::union::parse::{attr_texts, attrs_end, spec_parse_union, spec_parse_variants};

verus! {

/// The attribute tokens of a union input.
pub open spec fn attr_tokens(attrs: Seq<Seq<char>>) -> Seq<TokenV> {
    attrs.map_values(|a: Seq<char>| TokenV::Attr(a))
}

/// The visibility tokens of an input: none when it is implicit.
pub open spec fn vis_tokens(vis: VisibilityV) -> Seq<TokenV> {
    match vis {
        VisibilityV::Private => seq![],
        _ => seq![TokenV::Vis(vis)],
    }
}

/// The literal variant list of a union input: identifiers separated by
/// pipes, without a trailing separator.
pub open spec fn variant_tokens(names: Seq<Seq<char>>) -> Seq<TokenV>
    decreases names.len(),
{
    if names.len() == 0 {
        seq![]
    } else if names.len() == 1 {
        seq![TokenV::Ident(names[0])]
    } else {
        seq![TokenV::Ident(names[0]), TokenV::Pipe] + variant_tokens(names.drop_first())
    }
}

/// A valid union input for a request: its attributes, its visibility, the
/// capability name, the equals sign, and its literal variant list, with or
/// without a trailing pipe.
pub open spec fn union_tokens(r: SingleV, trailing: bool) -> Seq<TokenV> {
    attr_tokens(r.attributes) + vis_tokens(r.visibility) + seq![
        TokenV::Ident(r.trait_name),
        TokenV::Eq,
    ] + variant_tokens(r.struct_names) + (if trailing {
        seq![TokenV::Pipe]
    } else {
        seq![]
    })
}

proof fn lemma_attr_scan(ts: Seq<TokenV>, i: nat, attrs: Seq<Seq<char>>)
    requires
        i + attrs.len() <= ts.len(),
        forall|k: int| 0 <= k < attrs.len() ==> ts[i + k] == TokenV::Attr(attrs[k]),
        i + attrs.len() == ts.len() || !(ts[(i + attrs.len()) as int] is Attr),
    ensures
        attrs_end(ts, i) == i + attrs.len(),
        attr_texts(ts, i) == attrs,
    decreases attrs.len(),
{
    if attrs.len() == 0 {
        assert(attr_texts(ts, i) =~= attrs);
    } else {
        assert(ts[i as int] == TokenV::Attr(attrs[0]));
        let rest = attrs.drop_first();
        assert(forall|k: int|
            0 <= k < rest.len() ==> ts[i + 1 + k] == TokenV::Attr(#[trigger] rest[k])) by {
            assert(forall|k: int| 0 <= k < rest.len() ==> #[trigger] rest[k] == attrs[k + 1]);
        }
        lemma_attr_scan(ts, i + 1, rest);
        assert(attr_texts(ts, i) =~= seq![attrs[0]] + attr_texts(ts, i + 1));
        assert(seq![attrs[0]] + rest =~= attrs);
    }
}

proof fn lemma_variant_scan(ts: Seq<TokenV>, i: nat, names: Seq<Seq<char>>, trailing: bool)
    requires
        i <= ts.len(),
        ts.subrange(i as int, ts.len() as int) == variant_tokens(names) + (if trailing {
            seq![TokenV::Pipe]
        } else {
            seq![]
        }),
        trailing ==> names.len() >= 1,
    ensures
        spec_parse_variants(ts, i) == Ok::<Seq<Seq<char>>, nat>(names),
    decreases names.len(),
{
    let suffix = ts.subrange(i as int, ts.len() as int);
    if names.len() == 0 {
        assert(suffix.len() == 0);
        assert(i == ts.len());
        assert(names =~= Seq::<Seq<char>>::empty());
    } else if names.len() == 1 {
        assert(suffix[0] == TokenV::Ident(names[0]));
        assert(ts[i as int] == suffix[0]);
        if trailing {
            assert(suffix.len() == 2);
            assert(ts[i as int + 1] == suffix[1]);
            assert(suffix[1] == TokenV::Pipe);
            assert(spec_parse_variants(ts, i + 2) == Ok::<Seq<Seq<char>>, nat>(seq![]));
            assert(seq![names[0]] + seq![] =~= names);
        } else {
            assert(suffix.len() == 1);
            assert(i + 1 == ts.len());
            assert(seq![names[0]] =~= names);
        }
    } else {
        let rest = names.drop_first();
        assert(variant_tokens(names) == seq![TokenV::Ident(names[0]), TokenV::Pipe]
            + variant_tokens(rest));
        assert(suffix[0] == TokenV::Ident(names[0]));
        assert(suffix[1] == TokenV::Pipe);
        assert(ts[i as int] == suffix[0]);
        assert(ts[i as int + 1] == suffix[1]);
        assert(suffix.len() >= 3);
        assert(ts.subrange(i as int + 2, ts.len() as int) =~= variant_tokens(rest) + (if trailing {
            seq![TokenV::Pipe]
        } else {
            seq![]
        })) by {
            let tail = ts.subrange(i as int + 2, ts.len() as int);
            assert(forall|k: int| 0 <= k < tail.len() ==> tail[k] == suffix[k + 2]);
        }
        lemma_variant_scan(ts, i + 2, rest, trailing);
        assert(seq![names[0]] + rest =~= names);
    }
}

/// Round-trip parse fidelity: a valid union input parses, and the parsed
/// request carries the literal attribute, visibility, name and variant list
/// of the input, in input order — with a trailing pipe exactly as without
/// one.
pub proof fn lemma_union_round_trip(r: SingleV, trailing: bool)
    requires
        trailing ==> r.struct_names.len() >= 1,
    ensures
        spec_parse_union(union_tokens(r, trailing)) == Ok::<SingleV, nat>(r),
{
    let ts = union_tokens(r, trailing);
    let na = r.attributes.len();
    let nv = vis_tokens(r.visibility).len();
    assert(attr_tokens(r.attributes).len() == na);
    assert(forall|k: int| 0 <= k < na ==> ts[k] == TokenV::Attr(#[trigger] r.attributes[k]));
    assert(ts[na as int] == vis_tokens(r.visibility) [0] || ts[na as int] == TokenV::Ident(
        r.trait_name,
    ));
    assert(!(ts[na as int] is Attr));
    lemma_attr_scan(ts, 0, r.attributes);
    let v = na + nv;
    assert(ts[v as int] == TokenV::Ident(r.trait_name));
    assert(ts[v as int + 1] == TokenV::Eq);
    if r.visibility is Private {
        assert(!(ts[na as int] is Vis));
    } else {
        assert(ts[na as int] == TokenV::Vis(r.visibility));
    }
    assert(ts.subrange(v as int + 2, ts.len() as int) =~= variant_tokens(r.struct_names) + (
    if trailing {
        seq![TokenV::Pipe]
    } else {
        seq![]
    }));
    lemma_variant_scan(ts, v + 2, r.struct_names, trailing);
}

/// The variant-list tail of a union input, with or without its trailing
/// pipe.
pub open spec fn variant_suffix(names: Seq<Seq<char>>, trailing: bool) -> Seq<TokenV> {
    variant_tokens(names) + (if trailing {
        seq![TokenV::Pipe]
    } else {
        seq![]
    })
}

/// The tokens from `i` on are exactly the literal variant list of `names`.
pub open spec fn suffix_matches(
    ts: Seq<TokenV>,
    i: nat,
    names: Seq<Seq<char>>,
    trailing: bool,
) -> bool {
    &&& i <= ts.len()
    &&& (trailing ==> names.len() >= 1)
    &&& ts.subrange(i as int, ts.len() as int) == variant_suffix(names, trailing)
}

proof fn lemma_attrs_sound(ts: Seq<TokenV>, i: nat)
    requires
        i <= ts.len(),
    ensures
        ({
            let e = attrs_end(ts, i);
            &&& i <= e <= ts.len()
            &&& attr_texts(ts, i).len() == e - i
            &&& forall|k: int| i <= k < e ==> ts[k] == TokenV::Attr(attr_texts(ts, i)[k - i])
            &&& e == ts.len() || !(ts[e as int] is Attr)
        }),
    decreases ts.len() - i,
{
    if i < ts.len() && ts[i as int] is Attr {
        lemma_attrs_sound(ts, i + 1);
        let e = attrs_end(ts, i);
        assert(attr_texts(ts, i) == seq![ts[i as int]->Attr_0] + attr_texts(ts, i + 1));
        assert(forall|k: int| i <= k < e ==> ts[k] == TokenV::Attr(attr_texts(ts, i)[k - i])) by {
            assert(attr_texts(ts, i)[0] == ts[i as int]->Attr_0);
            assert(forall|k: int|
                i + 1 <= k < e ==> #[trigger] attr_texts(ts, i)[k - i] == attr_texts(ts, i + 1)[k
                    - (i + 1)]);
        }
    }
}

proof fn lemma_variants_sound(ts: Seq<TokenV>, i: nat, names: Seq<Seq<char>>)
    requires
        i <= ts.len(),
        spec_parse_variants(ts, i) == Ok::<Seq<Seq<char>>, nat>(names),
    ensures
        exists|trailing: bool| #[trigger] suffix_matches(ts, i, names, trailing),
    decreases ts.len() - i,
{
    let suffix = ts.subrange(i as int, ts.len() as int);
    if i >= ts.len() {
        assert(suffix =~= variant_suffix(names, false));
        assert(suffix_matches(ts, i, names, false));
    } else if i + 1 == ts.len() {
        assert(names == seq![ts[i as int]->Ident_0]);
        assert(suffix =~= variant_suffix(names, false));
        assert(suffix_matches(ts, i, names, false));
    } else {
        let rest = spec_parse_variants(ts, i + 2)->Ok_0;
        lemma_variants_sound(ts, i + 2, rest);
        let t2 = choose|t: bool| #[trigger] suffix_matches(ts, i + 2, rest, t);
        assert(suffix_matches(ts, i + 2, rest, t2));
        let tail = ts.subrange(i as int + 2, ts.len() as int);
        assert(names == seq![ts[i as int]->Ident_0] + rest);
        if rest.len() == 0 {
            assert(!t2);
            assert(tail.len() == 0);
            assert(names.len() == 1);
            assert(suffix =~= variant_suffix(names, true));
            assert(suffix_matches(ts, i, names, true));
        } else {
            assert(names.len() >= 2);
            assert(names.drop_first() =~= rest);
            assert(variant_tokens(names) == seq![TokenV::Ident(names[0]), TokenV::Pipe]
                + variant_tokens(rest));
            assert(suffix =~= variant_suffix(names, t2)) by {
                assert(forall|k: int| 0 <= k < tail.len() ==> tail[k] == suffix[k + 2]);
                assert(tail == variant_suffix(rest, t2));
                assert(suffix[0] == ts[i as int]);
                assert(suffix[1] == ts[i as int + 1]);
                assert(ts[i as int] == TokenV::Ident(names[0]));
                assert(ts[i as int + 1] == TokenV::Pipe);
                assert(forall|k: int|
                    2 <= k < suffix.len() ==> suffix[k] == #[trigger] variant_suffix(
                        rest,
                        t2,
                    )[k - 2]);
                assert(variant_suffix(names, t2) =~= seq![
                    TokenV::Ident(names[0]),
                    TokenV::Pipe,
                ] + variant_suffix(rest, t2));
            }
            assert(suffix_matches(ts, i, names, t2));
        }
    }
}

/// The converse of round-trip fidelity: the union parser accepts nothing but
/// valid union inputs. Whenever a token sequence parses, it is exactly the
/// rendering of the parsed request, up to one optional trailing pipe. An
/// explicitly private visibility token is excluded: the lexer never emits
/// one, and no input renders to one.
pub proof fn lemma_union_parse_sound(ts: Seq<TokenV>, r: SingleV)
    requires
        spec_parse_union(ts) == Ok::<SingleV, nat>(r),
        forall|k: int| 0 <= k < ts.len() ==> ts[k] != TokenV::Vis(VisibilityV::Private),
    ensures
        exists|trailing: bool| ts == #[trigger] union_tokens(r, trailing),
{
    lemma_attrs_sound(ts, 0);
    let a = attrs_end(ts, 0);
    let has_vis = a < ts.len() && ts[a as int] is Vis;
    let v: nat = if has_vis {
        a + 1
    } else {
        a
    };
    assert(r.attributes == attr_texts(ts, 0));
    assert(r.struct_names == spec_parse_variants(ts, v + 2)->Ok_0);
    lemma_variants_sound(ts, v + 2, r.struct_names);
    let trailing = choose|t: bool| #[trigger] suffix_matches(ts, v + 2, r.struct_names, t);
    assert(suffix_matches(ts, v + 2, r.struct_names, trailing));
    let out = union_tokens(r, trailing);
    assert(attr_tokens(r.attributes).len() == a);
    assert(vis_tokens(r.visibility).len() == if has_vis {
        1nat
    } else {
        0nat
    }) by {
        if has_vis {
            assert(r.visibility == ts[a as int]->Vis_0);
            assert(ts[a as int] != TokenV::Vis(VisibilityV::Private));
            assert(!(r.visibility is Private));
        }
    }
    assert(ts =~= out) by {
        assert(ts.len() == v + 2 + variant_suffix(r.struct_names, trailing).len());
        assert(out.len() == ts.len());
        assert(forall|k: int| 0 <= k < a ==> out[k] == attr_tokens(r.attributes)[k]);
        assert(forall|k: int|
            0 <= k < a ==> attr_tokens(r.attributes)[k] == TokenV::Attr(r.attributes[k]));
        if has_vis {
            assert(ts[a as int] == TokenV::Vis(r.visibility));
            assert(out[a as int] == vis_tokens(r.visibility)[0]);
        }
        assert(ts[v as int] == TokenV::Ident(r.trait_name));
        assert(ts[v as int + 1] == TokenV::Eq);
        assert(out[v as int] == TokenV::Ident(r.trait_name));
        assert(out[v as int + 1] == TokenV::Eq);
        assert(forall|k: int|
            v + 2 <= k < ts.len() ==> ts[k] == ts.subrange(v as int + 2, ts.len() as int)[k - v
                - 2]);
        assert(forall|k: int|
            v + 2 <= k < ts.len() ==> out[k] == variant_suffix(r.struct_names, trailing)[k - v
                - 2]);
    }
}

/// Determinism: structurally equal union requests produce the same
/// declaration sequence — the same derived sealing names included — and the
/// same rendered text.
pub proof fn lemma_union_deterministic(a: SingleV, b: SingleV)
    requires
        a == b,
    ensures
        spec_union_decls(a) == spec_union_decls(b),
        spec_render_decls(spec_union_decls(a)) == spec_render_decls(spec_union_decls(b)),
{
}

/// The targets of the emitted implementations of a capability, in order.
pub open spec fn cap_impl_targets(ds: Seq<DeclV>, cap: Seq<char>) -> Seq<Seq<char>>
    decreases ds.len(),
{
    if ds.len() == 0 {
        seq![]
    } else {
        cap_impl_targets(ds.drop_last(), cap) + (match ds.last() {
            DeclV::CapImpl { cap: c, target } => if c == cap {
                seq![target]
            } else {
                seq![]
            },
            _ => seq![],
        })
    }
}

/// The names of the emitted marker types, in order.
pub open spec fn marker_names(ds: Seq<DeclV>) -> Seq<Seq<char>>
    decreases ds.len(),
{
    if ds.len() == 0 {
        seq![]
    } else {
        marker_names(ds.drop_last()) + (match ds.last() {
            DeclV::Marker { name, .. } => seq![name],
            _ => seq![],
        })
    }
}

proof fn lemma_cap_impl_targets_add(a: Seq<DeclV>, b: Seq<DeclV>, cap: Seq<char>)
    ensures
        cap_impl_targets(a + b, cap) == cap_impl_targets(a, cap) + cap_impl_targets(b, cap),
    decreases b.len(),
{
    if b.len() == 0 {
        assert(a + b =~= a);
        assert(cap_impl_targets(a, cap) + cap_impl_targets(b, cap) =~= cap_impl_targets(a, cap));
    } else {
        assert((a + b).drop_last() =~= a + b.drop_last());
        assert((a + b).last() == b.last());
        lemma_cap_impl_targets_add(a, b.drop_last(), cap);
        assert(cap_impl_targets(a + b, cap) =~= cap_impl_targets(a, cap) + cap_impl_targets(
            b,
            cap,
        ));
    }
}

proof fn lemma_marker_names_add(a: Seq<DeclV>, b: Seq<DeclV>)
    ensures
        marker_names(a + b) == marker_names(a) + marker_names(b),
    decreases b.len(),
{
    if b.len() == 0 {
        assert(a + b =~= a);
        assert(marker_names(a) + marker_names(b) =~= marker_names(a));
    } else {
        assert((a + b).drop_last() =~= a + b.drop_last());
        assert((a + b).last() == b.last());
        lemma_marker_names_add(a, b.drop_last());
        assert(marker_names(a + b) =~= marker_names(a) + marker_names(b));
    }
}

proof fn lemma_decl_push(a: Seq<DeclV>, d: DeclV, cap: Seq<char>)
    ensures
        cap_impl_targets(a.push(d), cap) == cap_impl_targets(a, cap) + (match d {
            DeclV::CapImpl { cap: c, target } => if c == cap {
                seq![target]
            } else {
                seq![]
            },
            _ => seq![],
        }),
        marker_names(a.push(d)) == marker_names(a) + (match d {
            DeclV::Marker { name, .. } => seq![name],
            _ => seq![],
        }),
{
    assert(a.push(d).drop_last() =~= a);
    assert(a.push(d).last() == d);
}

proof fn lemma_variant_decls_names(
    attrs: Seq<Seq<char>>,
    vis: VisibilityV,
    cap: Seq<char>,
    names: Seq<Seq<char>>,
)
    ensures
        cap_impl_targets(spec_variant_decls(attrs, vis, cap, names), cap) == names,
        marker_names(spec_variant_decls(attrs, vis, cap, names)) == names,
    decreases names.len(),
{
    if names.len() == 0 {
        assert(cap_impl_targets(spec_variant_decls(attrs, vis, cap, names), cap) =~= names);
        assert(marker_names(spec_variant_decls(attrs, vis, cap, names)) =~= names);
    } else {
        let front = spec_variant_decls(attrs, vis, cap, names.drop_last());
        let m = DeclV::Marker { attrs, vis, name: names.last() };
        let c = DeclV::CapImpl { cap, target: names.last() };
        lemma_variant_decls_names(attrs, vis, cap, names.drop_last());
        assert(spec_variant_decls(attrs, vis, cap, names) =~= front.push(m).push(c));
        lemma_decl_push(front, m, cap);
        lemma_decl_push(front.push(m), c, cap);
        assert(cap_impl_targets(spec_variant_decls(attrs, vis, cap, names), cap) =~= names);
        assert(marker_names(spec_variant_decls(attrs, vis, cap, names)) =~= names);
    }
}

/// Closed world: the implementations of the public capability that a union
/// expansion emits are exactly its emitted marker types, which are exactly
/// the request's variants in order; and the private module's sealing
/// implementations cover exactly the same set. No other implementer is
/// emitted, and none can be added without the sealing capability, which only
/// that private module declares.
pub proof fn lemma_union_closed_world(r: SingleV)
    ensures
        cap_impl_targets(spec_union_decls(r), r.trait_name) == r.struct_names,
        marker_names(spec_union_decls(r)) == r.struct_names,
        spec_union_decls(r).last() matches DeclV::SealModule { targets, .. } && targets
            == r.struct_names,
{
    let cap = seq![crate::codegen::spec_capability_decl(r.visibility, r.trait_name)];
    let vars = spec_variant_decls(r.attributes, r.visibility, r.trait_name, r.struct_names);
    let seal = seq![crate::codegen::spec_seal_module_decl(r.trait_name, r.struct_names)];
    lemma_variant_decls_names(r.attributes, r.visibility, r.trait_name, r.struct_names);
    lemma_cap_impl_targets_add(cap, vars, r.trait_name);
    lemma_cap_impl_targets_add(cap + vars, seal, r.trait_name);
    lemma_marker_names_add(cap, vars);
    lemma_marker_names_add(cap + vars, seal);
    assert(spec_union_decls(r) == (cap + vars) + seal);
    assert(cap =~= Seq::<DeclV>::empty().push(cap[0]));
    assert(seal =~= Seq::<DeclV>::empty().push(seal[0]));
    lemma_decl_push(Seq::<DeclV>::empty(), cap[0], r.trait_name);
    lemma_decl_push(Seq::<DeclV>::empty(), seal[0], r.trait_name);
    assert(cap_impl_targets(cap, r.trait_name) =~= Seq::<Seq<char>>::empty());
    assert(cap_impl_targets(seal, r.trait_name) =~= Seq::<Seq<char>>::empty());
    assert(marker_names(cap) =~= Seq::<Seq<char>>::empty());
    assert(marker_names(seal) =~= Seq::<Seq<char>>::empty());
    assert(cap_impl_targets(spec_union_decls(r), r.trait_name) =~= r.struct_names);
    assert(marker_names(spec_union_decls(r)) =~= r.struct_names);
    assert((cap + vars + seal).last() == seal[0]);
}

/// Bound conjunction completeness: the blanket expansion is exactly one
/// capability declaration and one universal implementation, and both carry
/// exactly the request's bounds — none dropped, none added, in input order.
pub proof fn lemma_blanket_bounds_complete(r: crate::ast::BlanketV)
    ensures
        spec_blanket_decls(r).len() == 2,
        spec_blanket_decls(r)[0] matches DeclV::Capability { vis, name, supers } && vis
            == r.visibility && name == r.trait_name && supers == r.bounds,
        spec_blanket_decls(r)[1] matches DeclV::BlanketImpl { cap, bounds } && cap == r.trait_name
            && bounds == r.bounds,
{
}

} // verus!
