//! The values that flow through the evaluator.
use vstd::prelude::*;

verus! {

/// Polarity requested by a leading sign word.
#[derive(Debug, Clone, Copy, PartialEq, Eq, Structural)]
pub enum Sign {
    Unspecified,
    Positive,
    Negative,
}

/// A word after it has been given its numeric meaning.
#[derive(Debug, Clone, Copy, PartialEq, Eq, Structural)]
pub enum NumToken {
    /// A value added to the open group.
    Literal(i128),
    /// A scale factor that multiplies the open group.
    Multiplier(i128),
    /// A polarity marker, legal only as the first token.
    Sign(Sign),
}

/// One input token as the host hands it over.
#[derive(Debug, PartialEq, Eq)]
pub enum RawToken {
    /// A word.
    Word(String),
    /// A single punctuation mark.
    Punct(char),
    /// Anything else, such as a numeric literal or a bracketed group.
    Other,
}

/// Why a phrase could not be evaluated. Lexing errors carry the index of the
/// offending input token.
#[derive(Debug, Clone, Copy, PartialEq, Eq, Structural)]
pub enum ParseError {
    /// A punctuation mark other than a connecting hyphen.
    NonWordToken(usize),
    /// A word outside the vocabulary.
    UnknownWord(usize),
    /// A sign word after the first number word.
    MisplacedSign(usize),
    /// A value or an intermediate result that no supported integer type holds.
    MagnitudeOverflow,
}

/// An integer value together with the fixed-width type chosen for it.
#[derive(Debug, Clone, Copy, PartialEq, Eq, Structural)]
pub enum SizedInt {
    I8(i8),
    I16(i16),
    I32(i32),
    I64(i64),
    I128(i128),
    U8(u8),
    U16(u16),
    U32(u32),
    U64(u64),
    U128(u128),
}

impl SizedInt {
    /// The mathematical value held, whatever its width.
    pub open spec fn value(self) -> int {
        match self {
            SizedInt::I8(v) => v as int,
            SizedInt::I16(v) => v as int,
            SizedInt::I32(v) => v as int,
            SizedInt::I64(v) => v as int,
            SizedInt::I128(v) => v as int,
            SizedInt::U8(v) => v as int,
            SizedInt::U16(v) => v as int,
            SizedInt::U32(v) => v as int,
            SizedInt::U64(v) => v as int,
            SizedInt::U128(v) => v as int,
        }
    }

    /// Whether the chosen type is unsigned.
    pub open spec fn is_unsigned(self) -> bool {
        match self {
            SizedInt::U8(_) | SizedInt::U16(_) | SizedInt::U32(_) | SizedInt::U64(_)
            | SizedInt::U128(_) => true,
            _ => false,
        }
    }
}

} // verus!
