use vstd::prelude::*;

use crate::ast::{Single, SingleV, SyntaxError, Token, TokenV, Visibility, VisibilityV, sseq, tseq};
use crate::lexer::{lex, spec_lex};

verus! {

/// The first index at or after `i` that holds no attribute token.
pub open spec fn attrs_end(ts: Seq<TokenV>, i: nat) -> nat
    decreases ts.len() - i,
    when i <= ts.len()
{
    if i < ts.len() && ts[i as int] is Attr {
        attrs_end(ts, i + 1)
    } else {
        i
    }
}

/// The texts of the attribute tokens from `i` up to `attrs_end`.
pub open spec fn attr_texts(ts: Seq<TokenV>, i: nat) -> Seq<Seq<char>>
    decreases ts.len() - i,
    when i <= ts.len()
{
    if i < ts.len() && ts[i as int] is Attr {
        seq![ts[i as int]->Attr_0] + attr_texts(ts, i + 1)
    } else {
        seq![]
    }
}

/// The variant-name list from token `i` on: identifiers separated by pipes,
/// a trailing pipe permitted, zero names permitted. On failure, the index of
/// the offending token (the token count when the input ended where a name
/// was required after a pipe would have been fine).
pub open spec fn spec_parse_variants(ts: Seq<TokenV>, i: nat) -> Result<Seq<Seq<char>>, nat>
    decreases ts.len() - i,
    when i <= ts.len()
{
    if i >= ts.len() {
        Ok(seq![])
    } else if ts[i as int] is Ident {
        if i + 1 == ts.len() {
            Ok(seq![ts[i as int]->Ident_0])
        } else if ts[i as int + 1] is Pipe {
            match spec_parse_variants(ts, i + 2) {
                Ok(rest) => Ok(seq![ts[i as int]->Ident_0] + rest),
                Err(p) => Err(p),
            }
        } else {
            Err((i + 1) as nat)
        }
    } else {
        Err(i)
    }
}

/// The union grammar over a token sequence: attributes, an optional
/// visibility, the capability name, an equals sign, then the variant list.
/// On failure, the index of the offending token.
pub open spec fn spec_parse_union(ts: Seq<TokenV>) -> Result<SingleV, nat> {
    let a = attrs_end(ts, 0);
    let has_vis = a < ts.len() && ts[a as int] is Vis;
    let vis = if has_vis {
        ts[a as int]->Vis_0
    } else {
        VisibilityV::Private
    };
    let v = if has_vis {
        a + 1
    } else {
        a
    };
    if v < ts.len() && ts[v as int] is Ident {
        if v + 1 < ts.len() && ts[v as int + 1] is Eq {
            match spec_parse_variants(ts, v + 2) {
                Ok(names) => Ok(
                    SingleV {
                        attributes: attr_texts(ts, 0),
                        visibility: vis,
                        trait_name: ts[v as int]->Ident_0,
                        struct_names: names,
                    },
                ),
                Err(p) => Err(p),
            }
        } else {
            Err((v + 1) as nat)
        }
    } else {
        Err(v as nat)
    }
}

/// The union grammar over input text: the tokens of `spec_lex`, then
/// `spec_parse_union`. A failure carries the offending character's index
/// when the lexer fails, and the offending token's index when the parser
/// does.
pub open spec fn spec_union_parse_text(s: Seq<char>) -> Result<SingleV, nat> {
    match spec_lex(s, 0) {
        Ok(ts) => spec_parse_union(ts),
        Err(p) => Err(p),
    }
}

fn collect_attrs(tokens: &Vec<Token>, i: usize) -> (r: (Vec<String>, usize))
    requires
        i <= tokens@.len(),
    ensures
        r.1 == attrs_end(tseq(tokens@), i as nat),
        i <= r.1 <= tokens@.len(),
        sseq(r.0@) == attr_texts(tseq(tokens@), i as nat),
    decreases tokens@.len() - i,
{
    proof {
        assert(tseq(tokens@).len() == tokens@.len());
        if i < tokens@.len() {
            assert(tseq(tokens@)[i as int] == tokens@[i as int]@);
        }
    }
    if i < tokens.len() {
        match &tokens[i] {
            Token::Attr(s) => {
                let (rest, end) = collect_attrs(tokens, i + 1);
                let mut v = rest;
                let ghost oldv = v@;
                let text = s.clone();
                v.insert(0, text);
                proof {
                    assert(v@ =~= seq![text] + oldv);
                    assert(sseq(seq![text] + oldv) =~= seq![text@] + sseq(oldv));
                }
                (v, end)
            },
            _ => (Vec::new(), i),
        }
    } else {
        (Vec::new(), i)
    }
}

fn parse_variants(tokens: &Vec<Token>, i: usize) -> (res: Result<Vec<String>, SyntaxError>)
    requires
        i <= tokens@.len(),
    ensures
        match res {
            Ok(v) => spec_parse_variants(tseq(tokens@), i as nat) == Ok::<Seq<Seq<char>>, nat>(
                sseq(v@),
            ),
            Err(e) => spec_parse_variants(tseq(tokens@), i as nat) == Err::<Seq<Seq<char>>, nat>(
                e.position as nat,
            ),
        },
    decreases tokens@.len() - i,
{
    proof {
        assert(tseq(tokens@).len() == tokens@.len());
        if i < tokens@.len() {
            assert(tseq(tokens@)[i as int] == tokens@[i as int]@);
        }
        if i + 1 < tokens@.len() {
            assert(tseq(tokens@)[i as int + 1] == tokens@[i as int + 1]@);
        }
    }
    if i >= tokens.len() {
        proof {
            assert(sseq(Seq::<String>::empty()) =~= Seq::<Seq<char>>::empty());
        }
        Ok(Vec::new())
    } else {
        match &tokens[i] {
            Token::Ident(s) => {
                let name = s.clone();
                if i + 1 == tokens.len() {
                    let mut v: Vec<String> = Vec::new();
                    v.push(name);
                    proof {
                        assert(sseq(v@) =~= seq![name@]);
                    }
                    Ok(v)
                } else {
                    match &tokens[i + 1] {
                        Token::Pipe => {
                            match parse_variants(tokens, i + 2) {
                                Ok(rest) => {
                                    let mut v = rest;
                                    let ghost oldv = v@;
                                    v.insert(0, name);
                                    proof {
                                        assert(v@ =~= seq![name] + oldv);
                                        assert(sseq(seq![name] + oldv) =~= seq![name@] + sseq(
                                            oldv,
                                        ));
                                    }
                                    Ok(v)
                                },
                                Err(e) => Err(e),
                            }
                        },
                        _ => Err(SyntaxError { position: i + 1 }),
                    }
                }
            },
            _ => Err(SyntaxError { position: i }),
        }
    }
}

impl Single {
    /// Parses a union request from a token sequence. Returns the request
    /// exactly when the tokens fit the union grammar, and otherwise the
    /// index of the offending token.
    pub fn parse_tokens(tokens: &Vec<Token>) -> (res: Result<Single, SyntaxError>)
        ensures
            match res {
                Ok(r) => spec_parse_union(tseq(tokens@)) == Ok::<SingleV, nat>(r@),
                Err(e) => spec_parse_union(tseq(tokens@)) == Err::<SingleV, nat>(
                    e.position as nat,
                ),
            },
    {
        let ghost ts = tseq(tokens@);
        proof {
            assert(ts.len() == tokens@.len());
        }
        let n = tokens.len();
        let (attributes, a) = collect_attrs(tokens, 0);
        proof {
            if a < tokens@.len() {
                assert(ts[a as int] == tokens@[a as int]@);
            }
        }
        let (visibility, v) = if a < n {
            match &tokens[a] {
                Token::Vis(vis) => (vis.duplicate(), a + 1),
                _ => (Visibility::Private, a),
            }
        } else {
            (Visibility::Private, a)
        };
        proof {
            if v < tokens@.len() {
                assert(ts[v as int] == tokens@[v as int]@);
            }
            if v + 1 < tokens@.len() {
                assert(ts[v as int + 1] == tokens@[v as int + 1]@);
            }
        }
        if v < n {
            match &tokens[v] {
                Token::Ident(s) => {
                    let trait_name = s.clone();
                    if v + 1 < n {
                        match &tokens[v + 1] {
                            Token::Eq => {
                                match parse_variants(tokens, v + 2) {
                                    Ok(struct_names) => Ok(
                                        Single { attributes, visibility, trait_name, struct_names },
                                    ),
                                    Err(e) => Err(e),
                                }
                            },
                            _ => Err(SyntaxError { position: v + 1 }),
                        }
                    } else {
                        Err(SyntaxError { position: v + 1 })
                    }
                },
                _ => Err(SyntaxError { position: v }),
            }
        } else {
            Err(SyntaxError { position: v })
        }
    }

    /// Parses a union request from input text: lexing, then the union
    /// grammar.
    pub fn parse(input: &str) -> (res: Result<Single, SyntaxError>)
        ensures
            match res {
                Ok(r) => spec_union_parse_text(input@) == Ok::<SingleV, nat>(r@),
                Err(e) => spec_union_parse_text(input@) == Err::<SingleV, nat>(
                    e.position as nat,
                ),
            },
    {
        match lex(input) {
            Ok(tokens) => Single::parse_tokens(&tokens),
            Err(e) => Err(e),
        }
    }
}

} // verus!
