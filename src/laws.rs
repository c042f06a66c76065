//! Properties of the evaluator, stated over the specifications of the
//! functions they relate.
use vstd::prelude::*;
use crate::eval::{
    evaluation, fits_i128, group_fold, larger_multiplier_follows, magnitude, phrase_value,
    sign_of, strip_sign, with_implicit_one,
};
use crate::lexer::{lemma_lex_error_persists, lex, lex_one};
use crate::token::{NumToken, ParseError, RawToken, Sign, SizedInt};
use crate::vocab::{lower_of, meaning_of, word_meaning, WordMeaning};

verus! {

/// The grouping fold over the first `n` tokens in unbounded integers.
pub open spec fn exact_fold(ts: Seq<NumToken>, n: nat) -> (int, int)
    decreases n,
{
    if n == 0 {
        (0, 0)
    } else {
        let (acc, sum) = exact_fold(ts, (n - 1) as nat);
        match ts[n - 1] {
            NumToken::Literal(v) => (acc + v, sum),
            NumToken::Multiplier(m) => if larger_multiplier_follows(ts, n - 1, m as int) {
                (acc * m, sum)
            } else {
                (0, sum + acc * m)
            },
            NumToken::Sign(_) => (acc, sum),
        }
    }
}

/// The exact value of a sign-free token sequence, with no bound on its size.
pub open spec fn exact_value(ts: Seq<NumToken>) -> int {
    let (acc, sum) = exact_fold(ts, ts.len());
    sum + acc
}

/// Where the bounded fold succeeds it agrees with the unbounded one.
proof fn lemma_fold_agrees(ts: Seq<NumToken>, n: nat)
    requires
        group_fold(ts, n) is Some,
    ensures
        group_fold(ts, n) == Some(exact_fold(ts, n)),
    decreases n,
{
    if n > 0 {
        lemma_fold_agrees(ts, (n - 1) as nat);
    }
}

/// A value whose exact magnitude exceeds `i128` fails with `MagnitudeOverflow`.
pub proof fn too_large_fails(ts: Seq<RawToken>, toks: Seq<NumToken>)
    requires
        lex(ts) == Ok::<Seq<NumToken>, ParseError>(toks),
        exact_value(with_implicit_one(strip_sign(toks))) > i128::MAX,
    ensures
        phrase_value(ts) == Err::<SizedInt, ParseError>(ParseError::MagnitudeOverflow),
{
    let body = with_implicit_one(strip_sign(toks));
    if group_fold(body, body.len()) is Some {
        lemma_fold_agrees(body, body.len());
    }
    assert(magnitude(body) is None);
}

/// A word outside the vocabulary fails with `UnknownWord` at its own position,
/// provided the tokens before it are accepted.
pub proof fn unknown_word_fails(ts: Seq<RawToken>, i: int)
    requires
        0 <= i < ts.len(),
        lex(ts.subrange(0, i)) is Ok,
        ts[i] is Word,
        word_meaning(ts[i]->Word_0@) == WordMeaning::Unknown,
    ensures
        phrase_value(ts) == Err::<SizedInt, ParseError>(ParseError::UnknownWord(i as usize)),
{
    assert(ts.subrange(0, i + 1).drop_last() =~= ts.subrange(0, i));
    lemma_lex_error_persists(ts, i + 1);
}

/// A sign word that comes after a number word fails with `MisplacedSign` at
/// its own position, provided the tokens before it are accepted.
pub proof fn misplaced_sign_fails(ts: Seq<RawToken>, i: int)
    requires
        0 <= i < ts.len(),
        lex(ts.subrange(0, i)) matches Ok(done) && done.len() > 0,
        ts[i] is Word,
        word_meaning(ts[i]->Word_0@) matches WordMeaning::Number(t) && t is Sign,
    ensures
        phrase_value(ts) == Err::<SizedInt, ParseError>(ParseError::MisplacedSign(i as usize)),
{
    assert(ts.subrange(0, i + 1).drop_last() =~= ts.subrange(0, i));
    lemma_lex_error_persists(ts, i + 1);
}

/// Two tokens with the same text.
pub open spec fn same_text(a: RawToken, b: RawToken) -> bool {
    match (a, b) {
        (RawToken::Word(x), RawToken::Word(y)) => x@ == y@,
        (RawToken::Punct(x), RawToken::Punct(y)) => x == y,
        (RawToken::Other, RawToken::Other) => true,
        _ => false,
    }
}

/// Evaluation is a function of the tokens' text: evaluating the same phrase
/// again gives the same value and the same width.
pub proof fn evaluation_is_deterministic(a: Seq<RawToken>, b: Seq<RawToken>)
    requires
        a.len() == b.len(),
        forall|i: int| 0 <= i < a.len() ==> same_text(#[trigger] a[i], b[i]),
    ensures
        phrase_value(a) == phrase_value(b),
{
    lemma_lex_same_text(a, b);
}

proof fn lemma_lex_same_text(a: Seq<RawToken>, b: Seq<RawToken>)
    requires
        a.len() == b.len(),
        forall|i: int| 0 <= i < a.len() ==> same_text(#[trigger] a[i], b[i]),
    ensures
        lex(a) == lex(b),
    decreases a.len(),
{
    if a.len() > 0 {
        let (a0, b0) = (a.drop_last(), b.drop_last());
        assert forall|i: int| 0 <= i < a0.len() implies same_text(#[trigger] a0[i], b0[i]) by {
            assert(same_text(a[i], b[i]));
        }
        lemma_lex_same_text(a0, b0);
        assert(same_text(a.last(), b.last()));
    }
}

/// A phrase that starts with a scale word has the value of the same phrase
/// with `one` in front.
pub proof fn implicit_one(toks: Seq<NumToken>)
    requires
        toks.len() > 0,
        toks[0] is Multiplier,
    ensures
        evaluation(toks) == evaluation(seq![NumToken::Literal(1)] + toks),
{
    let with_one = seq![NumToken::Literal(1)] + toks;
    assert(with_one[0] == NumToken::Literal(1));
    assert(strip_sign(with_one) == with_one);
    assert(with_implicit_one(with_one) == with_one);
    assert(with_implicit_one(strip_sign(toks)) =~= with_one);
}

/// The name of a digit.
pub open spec fn digit_name(d: int) -> Seq<char> {
    if d == 0 { "zero"@ }
    else if d == 1 { "one"@ }
    else if d == 2 { "two"@ }
    else if d == 3 { "three"@ }
    else if d == 4 { "four"@ }
    else if d == 5 { "five"@ }
    else if d == 6 { "six"@ }
    else if d == 7 { "seven"@ }
    else if d == 8 { "eight"@ }
    else { "nine"@ }
}

/// A phrase of one word whose lowercase form names a digit evaluates to that
/// digit, as `i8`.
pub proof fn digit_word_value(ts: Seq<RawToken>, d: int)
    requires
        0 <= d <= 9,
        ts.len() == 1,
        ts[0] is Word,
        lower_of(ts[0]->Word_0@) == digit_name(d),
    ensures
        phrase_value(ts) == Ok::<SizedInt, ParseError>(SizedInt::I8(d as i8)),
{
    broadcast use vstd::string::group_string_axioms;

    reveal_strlit("zero");
    reveal_strlit("one");
    reveal_strlit("a");
    reveal_strlit("two");
    reveal_strlit("three");
    reveal_strlit("four");
    reveal_strlit("five");
    reveal_strlit("six");
    reveal_strlit("seven");
    reveal_strlit("eight");
    reveal_strlit("nine");
    let t = NumToken::Literal(d as i128);
    assert("zero"@.len() == 4 && "zero"@[0] == 'z' && "zero"@[1] == 'e');
    assert("one"@.len() == 3 && "one"@[0] == 'o' && "one"@[1] == 'n');
    assert("two"@.len() == 3 && "two"@[0] == 't' && "two"@[1] == 'w');
    assert("three"@.len() == 5 && "three"@[0] == 't' && "three"@[1] == 'h');
    assert("four"@.len() == 4 && "four"@[0] == 'f' && "four"@[1] == 'o');
    assert("five"@.len() == 4 && "five"@[0] == 'f' && "five"@[1] == 'i');
    assert("six"@.len() == 3 && "six"@[0] == 's' && "six"@[1] == 'i');
    assert("seven"@.len() == 5 && "seven"@[0] == 's' && "seven"@[1] == 'e');
    assert("eight"@.len() == 5 && "eight"@[0] == 'e' && "eight"@[1] == 'i');
    assert("nine"@.len() == 4 && "nine"@[0] == 'n' && "nine"@[1] == 'i');
    assert("a"@.len() == 1);
    if d == 0 {
        assert(meaning_of("zero"@) == WordMeaning::Number(t));
    } else if d == 1 {
        assert(meaning_of("one"@) == WordMeaning::Number(t));
    } else if d == 2 {
        assert(meaning_of("two"@) == WordMeaning::Number(t));
    } else if d == 3 {
        assert(meaning_of("three"@) == WordMeaning::Number(t));
    } else if d == 4 {
        assert(meaning_of("four"@) == WordMeaning::Number(t));
    } else if d == 5 {
        assert(meaning_of("five"@) == WordMeaning::Number(t));
    } else if d == 6 {
        assert(meaning_of("six"@) == WordMeaning::Number(t));
    } else if d == 7 {
        assert(meaning_of("seven"@) == WordMeaning::Number(t));
    } else if d == 8 {
        assert(meaning_of("eight"@) == WordMeaning::Number(t));
    } else {
        assert(meaning_of("nine"@) == WordMeaning::Number(t));
    }
    assert(ts.drop_last() =~= Seq::<RawToken>::empty());
    assert(lex(Seq::<RawToken>::empty()) == Ok::<Seq<NumToken>, ParseError>(Seq::empty()));
    assert(lex(ts) == lex_one(Seq::empty(), ts[0], 0));
    let toks = seq![t];
    assert(lex(ts) == Ok::<Seq<NumToken>, ParseError>(toks));
    assert(sign_of(toks) == Sign::Unspecified);
    assert(with_implicit_one(strip_sign(toks)) == toks);
    assert(group_fold(toks, 0) == Some((0int, 0int)));
    assert(group_fold(toks, 1) == Some((d, 0int)));
    assert(magnitude(toks) == Some(d));
    assert(fits_i128(d));
}

} // verus!
