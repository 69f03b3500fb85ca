use vstd::prelude::*;

use crate::ast::{SyntaxError, Token, TokenV, Visibility, VisibilityV, tseq};

verus! {

/// Whitespace accepted between tokens.
pub open spec fn spec_is_space(c: char) -> bool {
    c == ' ' || c == '\t' || c == '\n' || c == '\r'
}

fn is_space(c: char) -> (r: bool)
    ensures
        r == spec_is_space(c),
{
    c == ' ' || c == '\t' || c == '\n' || c == '\r'
}

/// A character that may start an identifier: a letter, an underscore, or any
/// character outside the ASCII range.
pub open spec fn spec_is_ident_start(c: char) -> bool {
    let u = c as u32;
    (65 <= u && u <= 90) || (97 <= u && u <= 122) || u == 95 || u >= 128
}

fn is_ident_start(c: char) -> (r: bool)
    ensures
        r == spec_is_ident_start(c),
{
    let u = c as u32;
    (65 <= u && u <= 90) || (97 <= u && u <= 122) || u == 95 || u >= 128
}

/// A character that may continue an identifier: an identifier-start
/// character or a digit.
pub open spec fn spec_is_ident_cont(c: char) -> bool {
    spec_is_ident_start(c) || (48 <= c as u32 && c as u32 <= 57)
}

fn is_ident_cont(c: char) -> (r: bool)
    ensures
        r == spec_is_ident_cont(c),
{
    let u = c as u32;
    is_ident_start(c) || (48 <= u && u <= 57)
}

/// The first index at or after `i` whose character does not continue an
/// identifier.
pub open spec fn spec_ident_end(s: Seq<char>, i: nat) -> nat
    decreases s.len() - i,
    when i <= s.len()
{
    if i < s.len() && spec_is_ident_cont(s[i as int]) {
        spec_ident_end(s, i + 1)
    } else {
        i
    }
}

pub proof fn lemma_ident_end_bounds(s: Seq<char>, i: nat)
    requires
        i <= s.len(),
    ensures
        i <= spec_ident_end(s, i) <= s.len(),
    decreases s.len() - i,
{
    if i < s.len() && spec_is_ident_cont(s[i as int]) {
        lemma_ident_end_bounds(s, i + 1);
    }
}

fn ident_end(s: &str, i: usize, n: usize) -> (j: usize)
    requires
        n == s@.len(),
        i <= n,
    ensures
        j == spec_ident_end(s@, i as nat),
        i <= j <= n,
        i < n && spec_is_ident_cont(s@[i as int]) ==> i < j,
    decreases n - i,
{
    if i < n && is_ident_cont(s.get_char(i)) {
        ident_end(s, i + 1, n)
    } else {
        i
    }
}

/// The first index at or after `i` whose character is not whitespace.
pub open spec fn spec_spaces_end(s: Seq<char>, i: nat) -> nat
    decreases s.len() - i,
    when i <= s.len()
{
    if i < s.len() && spec_is_space(s[i as int]) {
        spec_spaces_end(s, i + 1)
    } else {
        i
    }
}

pub proof fn lemma_spaces_end_bounds(s: Seq<char>, i: nat)
    requires
        i <= s.len(),
    ensures
        i <= spec_spaces_end(s, i) <= s.len(),
    decreases s.len() - i,
{
    if i < s.len() && spec_is_space(s[i as int]) {
        lemma_spaces_end_bounds(s, i + 1);
    }
}

fn spaces_end(s: &str, i: usize, n: usize) -> (j: usize)
    requires
        n == s@.len(),
        i <= n,
    ensures
        j == spec_spaces_end(s@, i as nat),
        i <= j <= n,
    decreases n - i,
{
    if i < n && is_space(s.get_char(i)) {
        spaces_end(s, i + 1, n)
    } else {
        i
    }
}

/// Scans forward from `i` for the closing delimiter that balances `depth`
/// already-open groups, counting nested `open`/`close` pairs. Returns the
/// index just past that closing delimiter, or nothing when the input ends
/// first.
pub open spec fn spec_scan_group(s: Seq<char>, i: nat, open: char, close: char, depth: nat) -> Option<
    nat,
>
    decreases s.len() - i,
    when i <= s.len() && depth >= 1
{
    if i >= s.len() {
        None
    } else if s[i as int] == close {
        if depth == 1 {
            Some((i + 1) as nat)
        } else {
            spec_scan_group(s, i + 1, open, close, (depth - 1) as nat)
        }
    } else if s[i as int] == open {
        spec_scan_group(s, i + 1, open, close, depth + 1)
    } else {
        spec_scan_group(s, i + 1, open, close, depth)
    }
}

pub proof fn lemma_scan_group_bounds(s: Seq<char>, i: nat, open: char, close: char, depth: nat)
    requires
        i <= s.len(),
        depth >= 1,
    ensures
        match spec_scan_group(s, i, open, close, depth) {
            Some(j) => i < j <= s.len(),
            None => true,
        },
    decreases s.len() - i,
{
    if i < s.len() {
        if s[i as int] == close {
            if depth > 1 {
                lemma_scan_group_bounds(s, i + 1, open, close, (depth - 1) as nat);
            }
        } else if s[i as int] == open {
            lemma_scan_group_bounds(s, i + 1, open, close, depth + 1);
        } else {
            lemma_scan_group_bounds(s, i + 1, open, close, depth);
        }
    }
}

fn scan_group(s: &str, i: usize, n: usize, open: char, close: char, depth: usize) -> (res: Option<
    usize,
>)
    requires
        n == s@.len(),
        i <= n,
        1 <= depth <= i,
    ensures
        match res {
            Some(j) => Some(j as nat) == spec_scan_group(s@, i as nat, open, close, depth as nat)
                && i < j <= n,
            None => spec_scan_group(s@, i as nat, open, close, depth as nat) is None,
        },
    decreases n - i,
{
    if i >= n {
        None
    } else {
        let c = s.get_char(i);
        if c == close {
            if depth == 1 {
                Some(i + 1)
            } else {
                scan_group(s, i + 1, n, open, close, depth - 1)
            }
        } else if c == open {
            scan_group(s, i + 1, n, open, close, depth + 1)
        } else {
            scan_group(s, i + 1, n, open, close, depth)
        }
    }
}

/// The three characters of the `pub` keyword.
pub open spec fn pub_word() -> Seq<char> {
    seq!['p', 'u', 'b']
}

/// Prepends a token to the result of lexing the rest of the input.
pub open spec fn cons_tok(t: TokenV, rest: Result<Seq<TokenV>, nat>) -> Result<Seq<TokenV>, nat> {
    match rest {
        Ok(ts) => Ok(seq![t] + ts),
        Err(p) => Err(p),
    }
}

/// The tokens of the input from character `i` on, or the index of the first
/// character that fits no token.
pub open spec fn spec_lex(s: Seq<char>, i: nat) -> Result<Seq<TokenV>, nat>
    decreases s.len() - i,
    when i <= s.len()
    via spec_lex_decreases
{
    if i >= s.len() {
        Ok(seq![])
    } else {
        let c = s[i as int];
        if spec_is_space(c) {
            spec_lex(s, i + 1)
        } else if c == '=' {
            cons_tok(TokenV::Eq, spec_lex(s, i + 1))
        } else if c == '|' {
            cons_tok(TokenV::Pipe, spec_lex(s, i + 1))
        } else if c == '+' {
            cons_tok(TokenV::Plus, spec_lex(s, i + 1))
        } else if c == '\'' {
            let j = spec_ident_end(s, i + 1);
            if j == i + 1 {
                Err(i)
            } else {
                cons_tok(TokenV::Lifetime(s.subrange(i as int + 1, j as int)), spec_lex(s, j))
            }
        } else if c == '#' {
            if i + 1 < s.len() && s[i as int + 1] == '[' {
                match spec_scan_group(s, i + 2, '[', ']', 1) {
                    Some(j) => cons_tok(TokenV::Attr(s.subrange(i as int, j as int)), spec_lex(s, j)),
                    None => Err(i),
                }
            } else {
                Err(i)
            }
        } else if spec_is_ident_start(c) {
            let j = spec_ident_end(s, i);
            if s.subrange(i as int, j as int) == pub_word() {
                let k = spec_spaces_end(s, j);
                if k < s.len() && s[k as int] == '(' {
                    match spec_scan_group(s, k + 1, '(', ')', 1) {
                        Some(m) => cons_tok(
                            TokenV::Vis(VisibilityV::Scoped(s.subrange(k as int + 1, m - 1))),
                            spec_lex(s, m),
                        ),
                        None => Err(k),
                    }
                } else {
                    cons_tok(TokenV::Vis(VisibilityV::Public), spec_lex(s, j))
                }
            } else {
                cons_tok(TokenV::Ident(s.subrange(i as int, j as int)), spec_lex(s, j))
            }
        } else {
            Err(i)
        }
    }
}

#[via_fn]
proof fn spec_lex_decreases(s: Seq<char>, i: nat) {
    if i < s.len() {
        lemma_ident_end_bounds(s, i + 1);
        lemma_ident_end_bounds(s, i);
        let j = spec_ident_end(s, i);
        lemma_spaces_end_bounds(s, j);
        let k = spec_spaces_end(s, j);
        if spec_is_ident_start(s[i as int]) {
            assert(spec_ident_end(s, i) == spec_ident_end(s, i + 1));
        }
        if i + 2 <= s.len() {
            lemma_scan_group_bounds(s, i + 2, '[', ']', 1);
        }
        if k + 1 <= s.len() {
            lemma_scan_group_bounds(s, k + 1, '(', ')', 1);
        }
    }
}

/// Prepends one freshly lexed token to the tokens of the rest of the input.
fn cons_exec(t: Token, rest: Result<Vec<Token>, SyntaxError>, Ghost(s): Ghost<Seq<char>>, Ghost(
    j,
): Ghost<nat>) -> (res: Result<Vec<Token>, SyntaxError>)
    requires
        match rest {
            Ok(v) => spec_lex(s, j) == Ok::<Seq<TokenV>, nat>(tseq(v@)),
            Err(e) => spec_lex(s, j) == Err::<Seq<TokenV>, nat>(e.position as nat),
        },
    ensures
        match res {
            Ok(v) => cons_tok(t@, spec_lex(s, j)) == Ok::<Seq<TokenV>, nat>(tseq(v@)),
            Err(e) => cons_tok(t@, spec_lex(s, j)) == Err::<Seq<TokenV>, nat>(e.position as nat),
        },
{
    match rest {
        Ok(v) => {
            let mut v = v;
            let ghost oldv = v@;
            v.insert(0, t);
            proof {
                assert(v@ =~= seq![t] + oldv);
                assert(tseq(seq![t] + oldv) =~= seq![t@] + tseq(oldv));
            }
            Ok(v)
        },
        Err(e) => Err(e),
    }
}

fn lex_from(s: &str, i: usize, n: usize) -> (res: Result<Vec<Token>, SyntaxError>)
    requires
        n == s@.len(),
        i <= n,
    ensures
        match res {
            Ok(v) => spec_lex(s@, i as nat) == Ok::<Seq<TokenV>, nat>(tseq(v@)),
            Err(e) => spec_lex(s@, i as nat) == Err::<Seq<TokenV>, nat>(e.position as nat),
        },
    decreases n - i,
{
    if i >= n {
        proof {
            assert(tseq(Seq::<Token>::empty()) =~= Seq::<TokenV>::empty());
        }
        Ok(Vec::new())
    } else {
        let c = s.get_char(i);
        if is_space(c) {
            lex_from(s, i + 1, n)
        } else if c == '=' {
            let rest = lex_from(s, i + 1, n);
            cons_exec(Token::Eq, rest, Ghost(s@), Ghost((i + 1) as nat))
        } else if c == '|' {
            let rest = lex_from(s, i + 1, n);
            cons_exec(Token::Pipe, rest, Ghost(s@), Ghost((i + 1) as nat))
        } else if c == '+' {
            let rest = lex_from(s, i + 1, n);
            cons_exec(Token::Plus, rest, Ghost(s@), Ghost((i + 1) as nat))
        } else if c == '\'' {
            let j = ident_end(s, i + 1, n);
            if j == i + 1 {
                Err(SyntaxError { position: i })
            } else {
                let text = s.substring_char(i + 1, j).to_owned();
                let rest = lex_from(s, j, n);
                cons_exec(Token::Lifetime(text), rest, Ghost(s@), Ghost(j as nat))
            }
        } else if c == '#' {
            if i + 1 < n && s.get_char(i + 1) == '[' {
                match scan_group(s, i + 2, n, '[', ']', 1) {
                    Some(j) => {
                        let text = s.substring_char(i, j).to_owned();
                        let rest = lex_from(s, j, n);
                        cons_exec(Token::Attr(text), rest, Ghost(s@), Ghost(j as nat))
                    },
                    None => Err(SyntaxError { position: i }),
                }
            } else {
                Err(SyntaxError { position: i })
            }
        } else if is_ident_start(c) {
            let j = ident_end(s, i, n);
            let is_pub = j - i == 3 && s.get_char(i) == 'p' && s.get_char(i + 1) == 'u'
                && s.get_char(i + 2) == 'b';
            proof {
                assert(is_pub <==> s@.subrange(i as int, j as int) =~= pub_word());
            }
            if is_pub {
                let k = spaces_end(s, j, n);
                if k < n && s.get_char(k) == '(' {
                    match scan_group(s, k + 1, n, '(', ')', 1) {
                        Some(m) => {
                            let scope = s.substring_char(k + 1, m - 1).to_owned();
                            let rest = lex_from(s, m, n);
                            cons_exec(
                                Token::Vis(Visibility::Scoped(scope)),
                                rest,
                                Ghost(s@),
                                Ghost(m as nat),
                            )
                        },
                        None => Err(SyntaxError { position: k }),
                    }
                } else {
                    let rest = lex_from(s, j, n);
                    cons_exec(Token::Vis(Visibility::Public), rest, Ghost(s@), Ghost(j as nat))
                }
            } else {
                let text = s.substring_char(i, j).to_owned();
                let rest = lex_from(s, j, n);
                cons_exec(Token::Ident(text), rest, Ghost(s@), Ghost(j as nat))
            }
        } else {
            Err(SyntaxError { position: i })
        }
    }
}

/// Splits the input text into the tokens of the two front-end grammars, or
/// fails at the first character that fits no token.
pub fn lex(input: &str) -> (res: Result<Vec<Token>, SyntaxError>)
    ensures
        match res {
            Ok(v) => spec_lex(input@, 0) == Ok::<Seq<TokenV>, nat>(tseq(v@)),
            Err(e) => spec_lex(input@, 0) == Err::<Seq<TokenV>, nat>(e.position as nat),
        },
{
    let n = input.unicode_len();
    lex_from(input, 0, n)
}

} // verus!
