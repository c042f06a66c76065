//! Evaluation of integer literals spelled out in English words.
//!
//! A phrase such as `minus two hundred forty-seven thousand` arrives as a
//! sequence of word and punctuation tokens. The lexer maps each word through a
//! fixed vocabulary, the evaluator folds the resulting number tokens into one
//! exact magnitude, and the width selector picks the narrowest fixed-width
//! integer type that holds the signed result.
use vstd::prelude::*;

pub mod token;
pub mod vocab;
pub mod lexer;
pub mod eval;
pub mod laws;

pub use crate::eval::{evaluate, get_sign, is_larger_multiplier, make_sized_num_literal, num};
pub use crate::lexer::parse_tokens;
pub use crate::token::{NumToken, ParseError, RawToken, Sign, SizedInt};
pub use crate::vocab::{lookup_word, parse_single_token, WordMeaning};
