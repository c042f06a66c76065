//! Turns host tokens into number tokens.
use vstd::prelude::*;
use crate::token::{NumToken, ParseError, RawToken};
use crate::vocab::{parse_single_token, word_meaning, WordMeaning};

verus! {

/// The effect of the token `t`, found at input position `pos`, on the number
/// tokens read so far.
pub open spec fn lex_one(done: Seq<NumToken>, t: RawToken, pos: int) -> Result<
    Seq<NumToken>,
    ParseError,
> {
    match t {
        RawToken::Punct(c) => if c == '-' {
            Ok(done)
        } else {
            Err(ParseError::NonWordToken(pos as usize))
        },
        RawToken::Other => Err(ParseError::NonWordToken(pos as usize)),
        RawToken::Word(w) => match word_meaning(w@) {
            WordMeaning::Unknown => Err(ParseError::UnknownWord(pos as usize)),
            WordMeaning::Connective => Ok(done),
            WordMeaning::Number(n) => if n is Sign && done.len() > 0 {
                Err(ParseError::MisplacedSign(pos as usize))
            } else {
                Ok(done.push(n))
            },
        },
    }
}

/// The number tokens of a whole input, or the error at its first offending
/// token.
pub open spec fn lex(ts: Seq<RawToken>) -> Result<Seq<NumToken>, ParseError>
    decreases ts.len(),
{
    if ts.len() == 0 {
        Ok(Seq::empty())
    } else {
        match lex(ts.drop_last()) {
            Err(e) => Err(e),
            Ok(done) => lex_one(done, ts.last(), ts.len() - 1),
        }
    }
}

/// Maps each word through the vocabulary, drops connecting hyphens and the
/// connective "and", and fails at the first token that is not a known word,
/// or at a sign word that does not come first.
pub fn parse_tokens(tokens: &Vec<RawToken>) -> (r: Result<Vec<NumToken>, ParseError>)
    ensures
        match r {
            Ok(v) => lex(tokens@) == Ok::<Seq<NumToken>, ParseError>(v@),
            Err(e) => lex(tokens@) == Err::<Seq<NumToken>, ParseError>(e),
        },
{
    let mut num_tokens: Vec<NumToken> = Vec::new();
    let n = tokens.len();
    let mut i: usize = 0;
    while i < n
        invariant
            n == tokens@.len(),
            i <= n,
            lex(tokens@.subrange(0, i as int)) == Ok::<Seq<NumToken>, ParseError>(num_tokens@),
        decreases n - i,
    {
        let ghost prefix = tokens@.subrange(0, i + 1);
        assert(prefix.drop_last() =~= tokens@.subrange(0, i as int));
        match &tokens[i] {
            RawToken::Word(w) => {
                match parse_single_token(w.as_str(), i) {
                    Err(e) => {
                        proof { lemma_lex_error_persists(tokens@, i + 1); }
                        return Err(e);
                    },
                    Ok(None) => {},
                    Ok(Some(t)) => {
                        if matches!(t, NumToken::Sign(_)) && num_tokens.len() > 0 {
                            proof { lemma_lex_error_persists(tokens@, i + 1); }
                            return Err(ParseError::MisplacedSign(i));
                        }
                        num_tokens.push(t);
                    },
                }
            },
            RawToken::Punct(c) => {
                if *c != '-' {
                    proof { lemma_lex_error_persists(tokens@, i + 1); }
                    return Err(ParseError::NonWordToken(i));
                }
            },
            RawToken::Other => {
                proof { lemma_lex_error_persists(tokens@, i + 1); }
                return Err(ParseError::NonWordToken(i));
            },
        }
        i = i + 1;
    }
    assert(tokens@.subrange(0, n as int) =~= tokens@);
    Ok(num_tokens)
}

/// Once a prefix of the input fails, the whole input fails with the same error.
pub proof fn lemma_lex_error_persists(ts: Seq<RawToken>, k: int)
    requires
        0 <= k <= ts.len(),
        lex(ts.subrange(0, k)) is Err,
    ensures
        lex(ts) == lex(ts.subrange(0, k)),
    decreases ts.len() - k,
{
    if k == ts.len() {
        assert(ts.subrange(0, k) =~= ts);
    } else {
        assert(ts.subrange(0, k + 1).drop_last() =~= ts.subrange(0, k));
        lemma_lex_error_persists(ts, k + 1);
    }
}

} // verus!
