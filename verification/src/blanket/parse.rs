use vstd::prelude::*;

use crate::ast::{Blanket, BlanketV, Bound, BoundV, SyntaxError, Token, TokenV, Visibility,
    VisibilityV, bseq, tseq};
use crate::lexer::{lex, spec_lex};

verus! {

/// The bound a single token stands for: an identifier is a named-capability
/// bound, a lifetime token a lifetime bound.
pub open spec fn spec_bound_of(t: TokenV) -> Option<BoundV> {
    match t {
        TokenV::Ident(s) => Some(BoundV::Trait(s)),
        TokenV::Lifetime(s) => Some(BoundV::Lifetime(s)),
        _ => None,
    }
}

/// The bound list from token `i` on: at least one bound, separated by plus
/// signs, no trailing separator. On failure, the index of the offending
/// token (the token count when the input ended where a bound was required).
pub open spec fn spec_parse_bounds(ts: Seq<TokenV>, i: nat) -> Result<Seq<BoundV>, nat>
    decreases ts.len() - i,
    when i <= ts.len()
{
    if i >= ts.len() {
        Err(i)
    } else {
        match spec_bound_of(ts[i as int]) {
            Some(b) => if i + 1 == ts.len() {
                Ok(seq![b])
            } else if ts[i as int + 1] is Plus {
                match spec_parse_bounds(ts, i + 2) {
                    Ok(rest) => Ok(seq![b] + rest),
                    Err(p) => Err(p),
                }
            } else {
                Err((i + 1) as nat)
            },
            None => Err(i),
        }
    }
}

/// The blanket grammar over a token sequence: an optional visibility, the
/// capability name, an equals sign, then the bound list. On failure, the
/// index of the offending token.
pub open spec fn spec_parse_blanket(ts: Seq<TokenV>) -> Result<BlanketV, nat> {
    let has_vis = 0 < ts.len() && ts[0] is Vis;
    let vis = if has_vis {
        ts[0]->Vis_0
    } else {
        VisibilityV::Private
    };
    let v: nat = if has_vis {
        1
    } else {
        0
    };
    if v < ts.len() && ts[v as int] is Ident {
        if v + 1 < ts.len() && ts[v as int + 1] is Eq {
            match spec_parse_bounds(ts, v + 2) {
                Ok(bounds) => Ok(
                    BlanketV { visibility: vis, trait_name: ts[v as int]->Ident_0, bounds },
                ),
                Err(p) => Err(p),
            }
        } else {
            Err((v + 1) as nat)
        }
    } else {
        Err(v)
    }
}

/// The blanket grammar over input text: the tokens of `spec_lex`, then
/// `spec_parse_blanket`. A failure carries the offending character's index
/// when the lexer fails, and the offending token's index when the parser
/// does.
pub open spec fn spec_blanket_parse_text(s: Seq<char>) -> Result<BlanketV, nat> {
    match spec_lex(s, 0) {
        Ok(ts) => spec_parse_blanket(ts),
        Err(p) => Err(p),
    }
}

fn parse_bounds(tokens: &Vec<Token>, i: usize) -> (res: Result<Vec<Bound>, SyntaxError>)
    requires
        i <= tokens@.len(),
    ensures
        match res {
            Ok(v) => spec_parse_bounds(tseq(tokens@), i as nat) == Ok::<Seq<BoundV>, nat>(
                bseq(v@),
            ),
            Err(e) => spec_parse_bounds(tseq(tokens@), i as nat) == Err::<Seq<BoundV>, nat>(
                e.position as nat,
            ),
        },
    decreases tokens@.len() - i,
{
    proof {
        assert(tseq(tokens@).len() == tokens@.len());
        if i < tokens@.len() {
            assert(tseq(tokens@)[i as int] == tokens@[i as int]@);
        }
        if i + 1 < tokens@.len() {
            assert(tseq(tokens@)[i as int + 1] == tokens@[i as int + 1]@);
        }
    }
    if i >= tokens.len() {
        Err(SyntaxError { position: i })
    } else {
        let bound = match &tokens[i] {
            Token::Ident(s) => Some(Bound::Trait(s.clone())),
            Token::Lifetime(s) => Some(Bound::Lifetime(s.clone())),
            _ => None,
        };
        match bound {
            Some(b) => {
                if i + 1 == tokens.len() {
                    let mut v: Vec<Bound> = Vec::new();
                    let ghost bv = b@;
                    v.push(b);
                    proof {
                        assert(bseq(v@) =~= seq![bv]);
                    }
                    Ok(v)
                } else {
                    match &tokens[i + 1] {
                        Token::Plus => {
                            match parse_bounds(tokens, i + 2) {
                                Ok(rest) => {
                                    let mut v = rest;
                                    let ghost oldv = v@;
                                    let ghost bv = b@;
                                    v.insert(0, b);
                                    proof {
                                        assert(v@ =~= seq![v@[0]] + oldv);
                                        assert(bseq(v@) =~= seq![bv] + bseq(oldv));
                                    }
                                    Ok(v)
                                },
                                Err(e) => Err(e),
                            }
                        },
                        _ => Err(SyntaxError { position: i + 1 }),
                    }
                }
            },
            None => Err(SyntaxError { position: i }),
        }
    }
}

impl Blanket {
    /// Parses a blanket request from a token sequence. Returns the request
    /// exactly when the tokens fit the blanket grammar, and otherwise the
    /// index of the offending token.
    pub fn parse_tokens(tokens: &Vec<Token>) -> (res: Result<Blanket, SyntaxError>)
        ensures
            match res {
                Ok(r) => spec_parse_blanket(tseq(tokens@)) == Ok::<BlanketV, nat>(r@),
                Err(e) => spec_parse_blanket(tseq(tokens@)) == Err::<BlanketV, nat>(
                    e.position as nat,
                ),
            },
    {
        let ghost ts = tseq(tokens@);
        proof {
            assert(ts.len() == tokens@.len());
            if 0 < tokens@.len() {
                assert(ts[0] == tokens@[0]@);
            }
        }
        let n = tokens.len();
        let (visibility, v): (Visibility, usize) = if 0 < n {
            match &tokens[0] {
                Token::Vis(vis) => (vis.duplicate(), 1),
                _ => (Visibility::Private, 0),
            }
        } else {
            (Visibility::Private, 0)
        };
        proof {
            if v < tokens@.len() {
                assert(ts[v as int] == tokens@[v as int]@);
            }
            if v + 1 < tokens@.len() {
                assert(ts[v as int + 1] == tokens@[v as int + 1]@);
            }
        }
        if v < n {
            match &tokens[v] {
                Token::Ident(s) => {
                    let trait_name = s.clone();
                    if v + 1 < n {
                        match &tokens[v + 1] {
                            Token::Eq => {
                                match parse_bounds(tokens, v + 2) {
                                    Ok(bounds) => Ok(Blanket { visibility, trait_name, bounds }),
                                    Err(e) => Err(e),
                                }
                            },
                            _ => Err(SyntaxError { position: v + 1 }),
                        }
                    } else {
                        Err(SyntaxError { position: v + 1 })
                    }
                },
                _ => Err(SyntaxError { position: v }),
            }
        } else {
            Err(SyntaxError { position: v })
        }
    }

    /// Parses a blanket request from input text: lexing, then the blanket
    /// grammar.
    pub fn parse(input: &str) -> (res: Result<Blanket, SyntaxError>)
        ensures
            match res {
                Ok(r) => spec_blanket_parse_text(input@) == Ok::<BlanketV, nat>(r@),
                Err(e) => spec_blanket_parse_text(input@) == Err::<BlanketV, nat>(
                    e.position as nat,
                ),
            },
    {
        match lex(input) {
            Ok(tokens) => Blanket::parse_tokens(&tokens),
            Err(e) => Err(e),
        }
    }
}

} // verus!
