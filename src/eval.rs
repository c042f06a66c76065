//! From number tokens to a typed integer.
use vstd::prelude::*;
use crate::lexer::{lex, parse_tokens};
use crate::token::{NumToken, ParseError, RawToken, Sign, SizedInt};

verus! {

/// Whether `v` is held by `i128`, the type of every intermediate result.
pub open spec fn fits_i128(v: int) -> bool {
    i128::MIN <= v <= i128::MAX
}

/// The sign of a token sequence: its first token if that is a sign.
pub open spec fn sign_of(ts: Seq<NumToken>) -> Sign {
    if ts.len() > 0 {
        match ts[0] {
            NumToken::Sign(s) => s,
            _ => Sign::Unspecified,
        }
    } else {
        Sign::Unspecified
    }
}

/// The token sequence without its leading sign, if it has one.
pub open spec fn strip_sign(ts: Seq<NumToken>) -> Seq<NumToken> {
    if ts.len() > 0 && ts[0] is Sign {
        ts.drop_first()
    } else {
        ts
    }
}

/// The token sequence with an implicit `one` before a leading scale word.
pub open spec fn with_implicit_one(ts: Seq<NumToken>) -> Seq<NumToken> {
    if ts.len() > 0 && ts[0] is Multiplier {
        seq![NumToken::Literal(1)] + ts
    } else {
        ts
    }
}

/// Whether `x` is a scale factor strictly greater than `than`.
pub open spec fn larger_multiplier(x: NumToken, than: int) -> bool {
    match x {
        NumToken::Multiplier(v) => v > than,
        _ => false,
    }
}

/// Whether a scale factor greater than `m` comes after position `i`.
pub open spec fn larger_multiplier_follows(ts: Seq<NumToken>, i: int, m: int) -> bool {
    exists|j: int| i < j < ts.len() && larger_multiplier(#[trigger] ts[j], m)
}

/// One step of the grouping fold on the state `(acc, sum)`: the open group and
/// the total of closed groups. `None` when a result leaves `i128`.
pub open spec fn group_step(st: (int, int), ts: Seq<NumToken>, i: int) -> Option<(int, int)> {
    let (acc, sum) = st;
    match ts[i] {
        NumToken::Literal(v) => if fits_i128(acc + v) {
            Some((acc + v, sum))
        } else {
            None
        },
        NumToken::Multiplier(m) => if !fits_i128(acc * m) {
            None
        } else if larger_multiplier_follows(ts, i, m as int) {
            Some((acc * m, sum))
        } else if fits_i128(sum + acc * m) {
            Some((0, sum + acc * m))
        } else {
            None
        },
        NumToken::Sign(_) => Some(st),
    }
}

/// The grouping fold over the first `n` tokens.
pub open spec fn group_fold(ts: Seq<NumToken>, n: nat) -> Option<(int, int)>
    decreases n,
{
    if n == 0 {
        Some((0, 0))
    } else {
        match group_fold(ts, (n - 1) as nat) {
            None => None,
            Some(st) => group_step(st, ts, n - 1),
        }
    }
}

/// The magnitude of a sign-free token sequence: the closed groups plus the
/// group still open at the end. `None` when a result leaves `i128`.
pub open spec fn magnitude(ts: Seq<NumToken>) -> Option<int> {
    match group_fold(ts, ts.len()) {
        None => None,
        Some((acc, sum)) => if fits_i128(sum + acc) {
            Some(sum + acc)
        } else {
            None
        },
    }
}

/// The narrowest type for `v`: unsigned after an explicit positive sign,
/// signed otherwise. `None` when no supported type holds `v`.
pub open spec fn sized(sign: Sign, v: int) -> Option<SizedInt> {
    if sign == Sign::Positive {
        if 0 <= v <= u8::MAX {
            Some(SizedInt::U8(v as u8))
        } else if 0 <= v <= u16::MAX {
            Some(SizedInt::U16(v as u16))
        } else if 0 <= v <= u32::MAX {
            Some(SizedInt::U32(v as u32))
        } else if 0 <= v <= u64::MAX {
            Some(SizedInt::U64(v as u64))
        } else if 0 <= v <= u128::MAX {
            Some(SizedInt::U128(v as u128))
        } else {
            None
        }
    } else {
        if i8::MIN <= v <= i8::MAX {
            Some(SizedInt::I8(v as i8))
        } else if i16::MIN <= v <= i16::MAX {
            Some(SizedInt::I16(v as i16))
        } else if i32::MIN <= v <= i32::MAX {
            Some(SizedInt::I32(v as i32))
        } else if i64::MIN <= v <= i64::MAX {
            Some(SizedInt::I64(v as i64))
        } else if i128::MIN <= v <= i128::MAX {
            Some(SizedInt::I128(v as i128))
        } else {
            None
        }
    }
}

/// The magnitude with the sign applied.
pub open spec fn signed(sign: Sign, m: int) -> int {
    if sign == Sign::Negative {
        -m
    } else {
        m
    }
}

/// The typed value of a lexed token sequence.
pub open spec fn evaluation(ts: Seq<NumToken>) -> Result<SizedInt, ParseError> {
    match magnitude(with_implicit_one(strip_sign(ts))) {
        None => Err(ParseError::MagnitudeOverflow),
        Some(m) => match sized(sign_of(ts), signed(sign_of(ts), m)) {
            Some(s) => Ok(s),
            None => Err(ParseError::MagnitudeOverflow),
        },
    }
}

/// The typed value of a whole input phrase.
pub open spec fn phrase_value(ts: Seq<RawToken>) -> Result<SizedInt, ParseError> {
    match lex(ts) {
        Err(e) => Err(e),
        Ok(toks) => evaluation(toks),
    }
}

/// Removes a leading sign token and returns it; `Unspecified` when there is
/// none.
pub fn get_sign(num_tokens: &mut Vec<NumToken>) -> (r: Sign)
    ensures
        r == sign_of(old(num_tokens)@),
        final(num_tokens)@ == strip_sign(old(num_tokens)@),
{
    if num_tokens.len() > 0 {
        if let NumToken::Sign(s) = num_tokens[0] {
            num_tokens.remove(0);
            return s;
        }
    }
    Sign::Unspecified
}

/// Whether `x` is a scale factor strictly greater than `than`.
pub fn is_larger_multiplier(x: NumToken, than: i128) -> (r: bool)
    ensures
        r == larger_multiplier(x, than as int),
{
    if let NumToken::Multiplier(value) = x {
        value > than
    } else {
        false
    }
}

/// Whether a scale factor greater than `m` comes after position `i`.
fn larger_multiplier_after(toks: &Vec<NumToken>, i: usize, m: i128) -> (r: bool)
    requires
        i < toks@.len(),
    ensures
        r == larger_multiplier_follows(toks@, i as int, m as int),
{
    let len = toks.len();
    let mut j: usize = i + 1;
    while j < len
        invariant
            len == toks@.len(),
            i < j <= len,
            forall|k: int| i < k < j ==> !larger_multiplier(#[trigger] toks@[k], m as int),
        decreases toks@.len() - j,
    {
        if is_larger_multiplier(toks[j], m) {
            return true;
        }
        j = j + 1;
    }
    false
}

/// Once the fold has left `i128`, it stays out.
proof fn lemma_fold_overflow_persists(ts: Seq<NumToken>, k: nat, n: nat)
    requires
        k <= n,
        group_fold(ts, k) is None,
    ensures
        group_fold(ts, n) is None,
    decreases n - k,
{
    if k < n {
        lemma_fold_overflow_persists(ts, k + 1, n);
    }
}

/// Sums the groups of a sign-free token sequence, closing a group at a scale
/// word unless a larger one follows.
pub fn group_total(toks: &Vec<NumToken>) -> (r: Option<i128>)
    ensures
        match r {
            Some(v) => magnitude(toks@) == Some(v as int),
            None => magnitude(toks@) is None,
        },
{
    let n = toks.len();
    let mut sum: i128 = 0;
    let mut acc: i128 = 0;
    let mut i: usize = 0;
    while i < n
        invariant
            n == toks@.len(),
            i <= n,
            group_fold(toks@, i as nat) == Some((acc as int, sum as int)),
        decreases n - i,
    {
        match toks[i] {
            NumToken::Literal(value) => {
                match acc.checked_add(value) {
                    Some(a) => acc = a,
                    None => {
                        proof { lemma_fold_overflow_persists(toks@, (i + 1) as nat, n as nat); }
                        return None;
                    },
                }
            },
            NumToken::Multiplier(value) => {
                match acc.checked_mul(value) {
                    Some(a) => acc = a,
                    None => {
                        proof { lemma_fold_overflow_persists(toks@, (i + 1) as nat, n as nat); }
                        return None;
                    },
                }
                if !larger_multiplier_after(toks, i, value) {
                    match sum.checked_add(acc) {
                        Some(s) => {
                            sum = s;
                            acc = 0;
                        },
                        None => {
                            proof { lemma_fold_overflow_persists(toks@, (i + 1) as nat, n as nat); }
                            return None;
                        },
                    }
                }
            },
            NumToken::Sign(_) => {},
        }
        i = i + 1;
    }
    sum.checked_add(acc)
}

/// Picks the narrowest type for `value`: unsigned after an explicit positive
/// sign, signed otherwise.
pub fn make_sized_num_literal(sign: Sign, value: i128) -> (r: Option<SizedInt>)
    ensures
        r == sized(sign, value as int),
{
    match sign {
        Sign::Positive => {
            if 0 <= value && value <= u8::MAX as i128 {
                Some(SizedInt::U8(value as u8))
            } else if 0 <= value && value <= u16::MAX as i128 {
                Some(SizedInt::U16(value as u16))
            } else if 0 <= value && value <= u32::MAX as i128 {
                Some(SizedInt::U32(value as u32))
            } else if 0 <= value && value <= u64::MAX as i128 {
                Some(SizedInt::U64(value as u64))
            } else if 0 <= value {
                Some(SizedInt::U128(value as u128))
            } else {
                None
            }
        },
        Sign::Unspecified | Sign::Negative => {
            if i8::MIN as i128 <= value && value <= i8::MAX as i128 {
                Some(SizedInt::I8(value as i8))
            } else if i16::MIN as i128 <= value && value <= i16::MAX as i128 {
                Some(SizedInt::I16(value as i16))
            } else if i32::MIN as i128 <= value && value <= i32::MAX as i128 {
                Some(SizedInt::I32(value as i32))
            } else if i64::MIN as i128 <= value && value <= i64::MAX as i128 {
                Some(SizedInt::I64(value as i64))
            } else {
                Some(SizedInt::I128(value))
            }
        },
    }
}

/// Evaluates lexed number tokens: extracts the sign, supplies an implicit
/// `one` before a leading scale word, sums the groups and picks the width.
pub fn evaluate(num_tokens: Vec<NumToken>) -> (r: Result<SizedInt, ParseError>)
    ensures
        r == evaluation(num_tokens@),
{
    let mut num_tokens = num_tokens;
    let ghost given = num_tokens@;
    let sign = get_sign(&mut num_tokens);
    if num_tokens.len() > 0 && matches!(num_tokens[0], NumToken::Multiplier(_)) {
        num_tokens.insert(0, NumToken::Literal(1));
    }
    assert(num_tokens@ =~= with_implicit_one(strip_sign(given)));
    let total = match group_total(&num_tokens) {
        Some(t) => t,
        None => return Err(ParseError::MagnitudeOverflow),
    };
    let value = match sign {
        Sign::Negative => {
            if total == i128::MIN {
                return Err(ParseError::MagnitudeOverflow);
            }
            -total
        },
        _ => total,
    };
    match make_sized_num_literal(sign, value) {
        Some(s) => Ok(s),
        None => Err(ParseError::MagnitudeOverflow),
    }
}

/// Evaluates a phrase of host tokens to the narrowest typed integer, or to
/// the error of its first offending token.
pub fn num(tokens: &Vec<RawToken>) -> (r: Result<SizedInt, ParseError>)
    ensures
        r == phrase_value(tokens@),
{
    match parse_tokens(tokens) {
        Ok(num_tokens) => evaluate(num_tokens),
        Err(e) => Err(e),
    }
}

} // verus!
