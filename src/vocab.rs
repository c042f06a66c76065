//! The vocabulary: what each lowercase word means.
use vstd::prelude::*;
use crate::token::{NumToken, ParseError, Sign};

verus! {

/// What a single word contributes to a phrase.
#[derive(Debug, Clone, Copy, PartialEq, Eq, Structural)]
pub enum WordMeaning {
    /// The word stands for a number token.
    Number(NumToken),
    /// A connective ("and") that contributes nothing.
    Connective,
    /// The word is not in the vocabulary.
    Unknown,
}

pub open spec fn literal(v: int) -> WordMeaning {
    WordMeaning::Number(NumToken::Literal(v as i128))
}

pub open spec fn scale(v: int) -> WordMeaning {
    WordMeaning::Number(NumToken::Multiplier(v as i128))
}

pub open spec fn sign_word(s: Sign) -> WordMeaning {
    WordMeaning::Number(NumToken::Sign(s))
}

/// The vocabulary table, on lowercase words.
pub open spec fn meaning_of(w: Seq<char>) -> WordMeaning {
    if w == "zero"@ { literal(0) }
    else if w == "one"@ || w == "a"@ { literal(1) }
    else if w == "two"@ { literal(2) }
    else if w == "three"@ { literal(3) }
    else if w == "four"@ { literal(4) }
    else if w == "five"@ { literal(5) }
    else if w == "six"@ { literal(6) }
    else if w == "seven"@ { literal(7) }
    else if w == "eight"@ { literal(8) }
    else if w == "nine"@ { literal(9) }
    else if w == "ten"@ { literal(10) }
    else if w == "eleven"@ { literal(11) }
    else if w == "twelve"@ { literal(12) }
    else if w == "thirteen"@ { literal(13) }
    else if w == "fourteen"@ { literal(14) }
    else if w == "fifteen"@ { literal(15) }
    else if w == "sixteen"@ { literal(16) }
    else if w == "seventeen"@ { literal(17) }
    else if w == "eighteen"@ { literal(18) }
    else if w == "nineteen"@ { literal(19) }
    else if w == "twenty"@ { literal(20) }
    else if w == "thirty"@ { literal(30) }
    else if w == "forty"@ || w == "fourty"@ { literal(40) }
    else if w == "fifty"@ { literal(50) }
    else if w == "sixty"@ { literal(60) }
    else if w == "seventy"@ { literal(70) }
    else if w == "eighty"@ { literal(80) }
    else if w == "ninety"@ { literal(90) }
    else if w == "hundred"@ { scale(100) }
    else if w == "thousand"@ { scale(1_000) }
    else if w == "million"@ { scale(1_000_000) }
    else if w == "billion"@ { scale(1_000_000_000) }
    else if w == "trillion"@ { scale(1_000_000_000_000) }
    else if w == "quadrillion"@ { scale(1_000_000_000_000_000) }
    else if w == "quintillion"@ { scale(1_000_000_000_000_000_000) }
    else if w == "septillion"@ { scale(1_000_000_000_000_000_000_000) }
    else if w == "octillion"@ { scale(1_000_000_000_000_000_000_000_000) }
    else if w == "plus"@ || w == "positive"@ { sign_word(Sign::Positive) }
    else if w == "minus"@ || w == "negative"@ { sign_word(Sign::Negative) }
    else if w == "and"@ { WordMeaning::Connective }
    else { WordMeaning::Unknown }
}

/// The lowercase form of a word, as `str::to_lowercase` computes it.
pub uninterp spec fn lower_of(s: Seq<char>) -> Seq<char>;

/// Relies on `str::to_lowercase`: the result depends on the characters alone.
#[verifier::external_body]
fn lowercase(s: &str) -> (r: String)
    ensures
        r@ == lower_of(s@),
{
    s.to_lowercase()
}

/// Whether two strings hold the same characters.
fn same_chars(a: &str, b: &str) -> (r: bool)
    ensures
        r == (a@ == b@),
{
    let n = a.unicode_len();
    if n != b.unicode_len() {
        return false;
    }
    let mut i: usize = 0;
    while i < n
        invariant
            n == a@.len(),
            n == b@.len(),
            i <= n,
            a@.subrange(0, i as int) == b@.subrange(0, i as int),
        decreases n - i,
    {
        if a.get_char(i) != b.get_char(i) {
            return false;
        }
        assert(a@.subrange(0, i + 1) =~= a@.subrange(0, i as int).push(a@[i as int]));
        assert(b@.subrange(0, i + 1) =~= b@.subrange(0, i as int).push(b@[i as int]));
        i = i + 1;
    }
    assert(a@ =~= a@.subrange(0, n as int));
    assert(b@ =~= b@.subrange(0, n as int));
    true
}

/// Looks a lowercase word up in the vocabulary.
pub fn lookup_word(w: &str) -> (r: WordMeaning)
    ensures
        r == meaning_of(w@),
{
    if same_chars(w, "zero") { WordMeaning::Number(NumToken::Literal(0)) }
    else if same_chars(w, "one") || same_chars(w, "a") { WordMeaning::Number(NumToken::Literal(1)) }
    else if same_chars(w, "two") { WordMeaning::Number(NumToken::Literal(2)) }
    else if same_chars(w, "three") { WordMeaning::Number(NumToken::Literal(3)) }
    else if same_chars(w, "four") { WordMeaning::Number(NumToken::Literal(4)) }
    else if same_chars(w, "five") { WordMeaning::Number(NumToken::Literal(5)) }
    else if same_chars(w, "six") { WordMeaning::Number(NumToken::Literal(6)) }
    else if same_chars(w, "seven") { WordMeaning::Number(NumToken::Literal(7)) }
    else if same_chars(w, "eight") { WordMeaning::Number(NumToken::Literal(8)) }
    else if same_chars(w, "nine") { WordMeaning::Number(NumToken::Literal(9)) }
    else if same_chars(w, "ten") { WordMeaning::Number(NumToken::Literal(10)) }
    else if same_chars(w, "eleven") { WordMeaning::Number(NumToken::Literal(11)) }
    else if same_chars(w, "twelve") { WordMeaning::Number(NumToken::Literal(12)) }
    else if same_chars(w, "thirteen") { WordMeaning::Number(NumToken::Literal(13)) }
    else if same_chars(w, "fourteen") { WordMeaning::Number(NumToken::Literal(14)) }
    else if same_chars(w, "fifteen") { WordMeaning::Number(NumToken::Literal(15)) }
    else if same_chars(w, "sixteen") { WordMeaning::Number(NumToken::Literal(16)) }
    else if same_chars(w, "seventeen") { WordMeaning::Number(NumToken::Literal(17)) }
    else if same_chars(w, "eighteen") { WordMeaning::Number(NumToken::Literal(18)) }
    else if same_chars(w, "nineteen") { WordMeaning::Number(NumToken::Literal(19)) }
    else if same_chars(w, "twenty") { WordMeaning::Number(NumToken::Literal(20)) }
    else if same_chars(w, "thirty") { WordMeaning::Number(NumToken::Literal(30)) }
    else if same_chars(w, "forty") || same_chars(w, "fourty") { WordMeaning::Number(NumToken::Literal(40)) }
    else if same_chars(w, "fifty") { WordMeaning::Number(NumToken::Literal(50)) }
    else if same_chars(w, "sixty") { WordMeaning::Number(NumToken::Literal(60)) }
    else if same_chars(w, "seventy") { WordMeaning::Number(NumToken::Literal(70)) }
    else if same_chars(w, "eighty") { WordMeaning::Number(NumToken::Literal(80)) }
    else if same_chars(w, "ninety") { WordMeaning::Number(NumToken::Literal(90)) }
    else if same_chars(w, "hundred") { WordMeaning::Number(NumToken::Multiplier(100)) }
    else if same_chars(w, "thousand") { WordMeaning::Number(NumToken::Multiplier(1_000)) }
    else if same_chars(w, "million") { WordMeaning::Number(NumToken::Multiplier(1_000_000)) }
    else if same_chars(w, "billion") { WordMeaning::Number(NumToken::Multiplier(1_000_000_000)) }
    else if same_chars(w, "trillion") { WordMeaning::Number(NumToken::Multiplier(1_000_000_000_000)) }
    else if same_chars(w, "quadrillion") {
        WordMeaning::Number(NumToken::Multiplier(1_000_000_000_000_000))
    } else if same_chars(w, "quintillion") {
        WordMeaning::Number(NumToken::Multiplier(1_000_000_000_000_000_000))
    } else if same_chars(w, "septillion") {
        WordMeaning::Number(NumToken::Multiplier(1_000_000_000_000_000_000_000))
    } else if same_chars(w, "octillion") {
        WordMeaning::Number(NumToken::Multiplier(1_000_000_000_000_000_000_000_000))
    } else if same_chars(w, "plus") || same_chars(w, "positive") {
        WordMeaning::Number(NumToken::Sign(Sign::Positive))
    } else if same_chars(w, "minus") || same_chars(w, "negative") {
        WordMeaning::Number(NumToken::Sign(Sign::Negative))
    } else if same_chars(w, "and") {
        WordMeaning::Connective
    } else {
        WordMeaning::Unknown
    }
}

/// The meaning of a word in any letter case.
pub open spec fn word_meaning(w: Seq<char>) -> WordMeaning {
    meaning_of(lower_of(w))
}

/// Reads one word: its number token, `None` for a connective, or
/// `UnknownWord` at position `pos`.
pub fn parse_single_token(w: &str, pos: usize) -> (r: Result<Option<NumToken>, ParseError>)
    ensures
        r == (match word_meaning(w@) {
            WordMeaning::Number(t) => Ok(Some(t)),
            WordMeaning::Connective => Ok(None),
            WordMeaning::Unknown => Err(ParseError::UnknownWord(pos)),
        }),
{
    let lowered = lowercase(w);
    match lookup_word(lowered.as_str()) {
        WordMeaning::Number(t) => Ok(Some(t)),
        WordMeaning::Connective => Ok(None),
        WordMeaning::Unknown => Err(ParseError::UnknownWord(pos)),
    }
}

} // verus!
