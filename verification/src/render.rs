use vstd::prelude::*;

use crate::ast::{Bound, BoundV, Decl, DeclV, Visibility, VisibilityV, bseq, dseq, spec_bound_text,
    spec_vis_text, sseq};

verus! {

/// The visibility with a trailing space, or nothing when it is private.
pub open spec fn spec_vis_prefix(v: VisibilityV) -> Seq<char> {
    match v {
        VisibilityV::Private => Seq::<char>::empty(),
        _ => spec_vis_text(v) + " "@,
    }
}

/// A bound list joined with plus signs.
pub open spec fn spec_render_bounds(bs: Seq<BoundV>) -> Seq<char>
    decreases bs.len(),
{
    if bs.len() == 0 {
        Seq::<char>::empty()
    } else if bs.len() == 1 {
        spec_bound_text(bs[0])
    } else {
        spec_bound_text(bs[0]) + " + "@ + spec_render_bounds(bs.drop_first())
    }
}

/// Attribute annotations, one per line.
pub open spec fn spec_render_attrs(attrs: Seq<Seq<char>>) -> Seq<char>
    decreases attrs.len(),
{
    if attrs.len() == 0 {
        Seq::<char>::empty()
    } else {
        attrs[0] + "\n"@ + spec_render_attrs(attrs.drop_first())
    }
}

/// One sealing implementation per marker type, reaching the marker one
/// module level up.
pub open spec fn spec_render_seal_impls(seal: Seq<char>, targets: Seq<Seq<char>>) -> Seq<char>
    decreases targets.len(),
{
    if targets.len() == 0 {
        Seq::<char>::empty()
    } else {
        "impl "@ + seal + " for super::"@ + targets[0] + " {}\n"@ + spec_render_seal_impls(
            seal,
            targets.drop_first(),
        )
    }
}

/// The source text of one declaration.
pub open spec fn spec_render_decl(d: DeclV) -> Seq<char> {
    match d {
        DeclV::Capability { vis, name, supers } => spec_vis_prefix(vis) + "trait "@ + name + ": "@
            + spec_render_bounds(supers) + " {}\n"@,
        DeclV::Marker { attrs, vis, name } => spec_render_attrs(attrs) + spec_vis_prefix(vis)
            + "enum "@ + name + " {}\n"@,
        DeclV::CapImpl { cap, target } => "impl "@ + cap + " for "@ + target + " {}\n"@,
        DeclV::BlanketImpl { cap, bounds } => "impl<BlanketTypeParameter> "@ + cap
            + " for BlanketTypeParameter where BlanketTypeParameter: "@ + spec_render_bounds(
            bounds,
        ) + " {}\n"@,
        DeclV::SealModule { mod_name, seal_cap, targets } => "mod "@ + mod_name + " {\npub trait "@
            + seal_cap + " {}\n"@ + spec_render_seal_impls(seal_cap, targets) + "}\n"@,
    }
}

/// The source text of a declaration sequence, in order.
pub open spec fn spec_render_decls(ds: Seq<DeclV>) -> Seq<char>
    decreases ds.len(),
{
    if ds.len() == 0 {
        Seq::<char>::empty()
    } else {
        spec_render_decl(ds[0]) + spec_render_decls(ds.drop_first())
    }
}

fn render_vis_prefix(v: &Visibility) -> (r: String)
    ensures
        r@ == spec_vis_prefix(v@),
{
    match v {
        Visibility::Private => String::new(),
        _ => {
            let mut r = v.as_text();
            r.append(" ");
            r
        },
    }
}

fn render_bounds_from(bs: &Vec<Bound>, i: usize) -> (r: String)
    requires
        i <= bs@.len(),
    ensures
        r@ == spec_render_bounds(bseq(bs@).skip(i as int)),
    decreases bs@.len() - i,
{
    let ghost tail = bseq(bs@).skip(i as int);
    proof {
        assert(tail.len() == bs@.len() - i);
        if i < bs@.len() {
            assert(tail[0] == bs@[i as int]@);
            assert(tail.drop_first() =~= bseq(bs@).skip(i as int + 1));
        }
    }
    if i == bs.len() {
        String::new()
    } else if i + 1 == bs.len() {
        bs[i].as_text()
    } else {
        let mut r = bs[i].as_text();
        r.append(" + ");
        let rest = render_bounds_from(bs, i + 1);
        r.append(rest.as_str());
        r
    }
}

fn render_attrs_from(attrs: &Vec<String>, i: usize) -> (r: String)
    requires
        i <= attrs@.len(),
    ensures
        r@ == spec_render_attrs(sseq(attrs@).skip(i as int)),
    decreases attrs@.len() - i,
{
    let ghost tail = sseq(attrs@).skip(i as int);
    proof {
        assert(tail.len() == attrs@.len() - i);
        if i < attrs@.len() {
            assert(tail[0] == attrs@[i as int]@);
            assert(tail.drop_first() =~= sseq(attrs@).skip(i as int + 1));
        }
    }
    if i == attrs.len() {
        String::new()
    } else {
        let mut r = attrs[i].clone();
        r.append("\n");
        let rest = render_attrs_from(attrs, i + 1);
        r.append(rest.as_str());
        r
    }
}

fn render_seal_impls_from(seal: &str, targets: &Vec<String>, i: usize) -> (r: String)
    requires
        i <= targets@.len(),
    ensures
        r@ == spec_render_seal_impls(seal@, sseq(targets@).skip(i as int)),
    decreases targets@.len() - i,
{
    let ghost tail = sseq(targets@).skip(i as int);
    proof {
        assert(tail.len() == targets@.len() - i);
        if i < targets@.len() {
            assert(tail[0] == targets@[i as int]@);
            assert(tail.drop_first() =~= sseq(targets@).skip(i as int + 1));
        }
    }
    if i == targets.len() {
        String::new()
    } else {
        let mut r = "impl ".to_owned();
        r.append(seal);
        r.append(" for super::");
        r.append(targets[i].as_str());
        r.append(" {}\n");
        let rest = render_seal_impls_from(seal, targets, i + 1);
        r.append(rest.as_str());
        r
    }
}

/// Renders one declaration as source text.
pub fn render_decl(d: &Decl) -> (r: String)
    ensures
        r@ == spec_render_decl(d@),
{
    match d {
        Decl::Capability { vis, name, supers } => {
            let mut r = render_vis_prefix(vis);
            r.append("trait ");
            r.append(name.as_str());
            r.append(": ");
            let b = render_bounds_from(supers, 0);
            proof {
                assert(bseq(supers@).skip(0) =~= bseq(supers@));
            }
            r.append(b.as_str());
            r.append(" {}\n");
            r
        },
        Decl::Marker { attrs, vis, name } => {
            let mut r = render_attrs_from(attrs, 0);
            proof {
                assert(sseq(attrs@).skip(0) =~= sseq(attrs@));
            }
            let p = render_vis_prefix(vis);
            r.append(p.as_str());
            r.append("enum ");
            r.append(name.as_str());
            r.append(" {}\n");
            r
        },
        Decl::CapImpl { cap, target } => {
            let mut r = "impl ".to_owned();
            r.append(cap.as_str());
            r.append(" for ");
            r.append(target.as_str());
            r.append(" {}\n");
            r
        },
        Decl::BlanketImpl { cap, bounds } => {
            let mut r = "impl<BlanketTypeParameter> ".to_owned();
            r.append(cap.as_str());
            r.append(" for BlanketTypeParameter where BlanketTypeParameter: ");
            let b = render_bounds_from(bounds, 0);
            proof {
                assert(bseq(bounds@).skip(0) =~= bseq(bounds@));
            }
            r.append(b.as_str());
            r.append(" {}\n");
            r
        },
        Decl::SealModule { mod_name, seal_cap, targets } => {
            let mut r = "mod ".to_owned();
            r.append(mod_name.as_str());
            r.append(" {\npub trait ");
            r.append(seal_cap.as_str());
            r.append(" {}\n");
            let im = render_seal_impls_from(seal_cap.as_str(), targets, 0);
            proof {
                assert(sseq(targets@).skip(0) =~= sseq(targets@));
            }
            r.append(im.as_str());
            r.append("}\n");
            r
        },
    }
}

fn render_decls_from(ds: &Vec<Decl>, i: usize) -> (r: String)
    requires
        i <= ds@.len(),
    ensures
        r@ == spec_render_decls(dseq(ds@).skip(i as int)),
    decreases ds@.len() - i,
{
    let ghost tail = dseq(ds@).skip(i as int);
    proof {
        assert(tail.len() == ds@.len() - i);
        if i < ds@.len() {
            assert(tail[0] == ds@[i as int]@);
            assert(tail.drop_first() =~= dseq(ds@).skip(i as int + 1));
        }
    }
    if i == ds.len() {
        String::new()
    } else {
        let mut r = render_decl(&ds[i]);
        let rest = render_decls_from(ds, i + 1);
        r.append(rest.as_str());
        r
    }
}

/// Renders a declaration sequence as source text, in order.
pub fn render_decls(ds: &Vec<Decl>) -> (r: String)
    ensures
        r@ == spec_render_decls(dseq(ds@)),
{
    let r = render_decls_from(ds, 0);
    proof {
        assert(dseq(ds@).skip(0) =~= dseq(ds@));
    }
    r
}

} // verus!
