//! Token streams and literal keyword matching.
use vstd::prelude::*;
use vstd::slice::slice_subrange;
use vstd::string::*;

verus! {

/// The text of every token in a stream.
pub open spec fn words(input: &[&str]) -> Seq<Seq<char>> {
    input@.map_values(|t: &str| t@)
}

/// True when the token reads exactly as the literal (case-sensitive).
pub fn token_is(tok: &str, lit: &str) -> (r: bool)
    ensures
        r == (tok@ == lit@),
{
    let n = tok.unicode_len();
    let m = lit.unicode_len();
    if n != m {
        return false;
    }
    let mut i: usize = 0;
    while i < n
        invariant
            n == tok@.len(),
            m == lit@.len(),
            n == m,
            i <= n,
            tok@.subrange(0, i as int) == lit@.subrange(0, i as int),
        decreases n - i,
    {
        if tok.get_char(i) != lit.get_char(i) {
            return false;
        }
        assert(tok@.subrange(0, i + 1) == tok@.subrange(0, i as int).push(tok@[i as int]));
        assert(lit@.subrange(0, i + 1) == lit@.subrange(0, i as int).push(lit@[i as int]));
        i = i + 1;
    }
    assert(tok@ == tok@.subrange(0, n as int));
    assert(lit@ == lit@.subrange(0, n as int));
    true
}


/// The failure of a grammar: the tokens do not have its shape.
#[derive(Debug, PartialEq, Eq, Clone, Copy, Structural)]
pub struct NoMatch;

/// Consumes the first token when it reads as `lit`; fails otherwise.
pub fn match_literal<'a>(input: &'a [&'a str], lit: &str) -> (r: Result<(&'a [&'a str], &'a str), NoMatch>)
    ensures
        match r {
            Ok((rest, tok)) => {
                &&& words(input).len() > 0
                &&& words(input)[0] == lit@
                &&& tok@ == lit@
                &&& rest@ == input@.skip(1)
            },
            Err(_) => words(input).len() == 0 || words(input)[0] != lit@,
        },
{
    if input.len() == 0 {
        return Err(NoMatch);
    }
    let tok: &str = input[0];
    if token_is(tok, lit) {
        let rest = slice_subrange(input, 1, input.len());
        proof {
            assert(rest@ =~= input@.skip(1));
        }
        Ok((rest, tok))
    } else {
        Err(NoMatch)
    }
}

} // verus!
