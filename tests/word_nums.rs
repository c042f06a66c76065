use word_nums::{num, ParseError, RawToken, SizedInt};

/// Splits a phrase the way the host tokenizer does: words on white space,
/// with each hyphen a punctuation token of its own.
fn phrase(text: &str) -> Vec<RawToken> {
    let mut out = Vec::new();
    for part in text.split_whitespace() {
        for (k, word) in part.split('-').enumerate() {
            if k > 0 {
                out.push(RawToken::Punct('-'));
            }
            if !word.is_empty() {
                out.push(RawToken::Word(word.to_string()));
            }
        }
    }
    out
}

fn eval(text: &str) -> Result<SizedInt, ParseError> {
    num(&phrase(text))
}

#[test]
fn test_single_digits() {
    assert_eq!(eval("one"), Ok(SizedInt::I8(1i8)));
    assert_eq!(eval("two"), Ok(SizedInt::I8(2i8)));
    assert_eq!(eval("three"), Ok(SizedInt::I8(3i8)));
    assert_eq!(eval("four"), Ok(SizedInt::I8(4i8)));
    assert_eq!(eval("five"), Ok(SizedInt::I8(5i8)));
    assert_eq!(eval("six"), Ok(SizedInt::I8(6i8)));
    assert_eq!(eval("seven"), Ok(SizedInt::I8(7i8)));
    assert_eq!(eval("eight"), Ok(SizedInt::I8(8i8)));
    assert_eq!(eval("nine"), Ok(SizedInt::I8(9i8)));
}

#[test]
fn test_double_digit() {
    assert_eq!(eval("ten"), Ok(SizedInt::I8(10i8)));
    assert_eq!(eval("twenty one"), Ok(SizedInt::I8(21i8)));
    assert_eq!(eval("thirty two"), Ok(SizedInt::I8(32i8)));
    assert_eq!(eval("fourty"), Ok(SizedInt::I8(40i8)));
    assert_eq!(eval("fifty six"), Ok(SizedInt::I8(56i8)));
    assert_eq!(eval("sixty seven"), Ok(SizedInt::I8(67i8)));
    assert_eq!(eval("seventy seven"), Ok(SizedInt::I8(77i8)));
    assert_eq!(eval("eighty one"), Ok(SizedInt::I8(81i8)));
    assert_eq!(eval("ninety three"), Ok(SizedInt::I8(93i8)));
}

#[test]
fn test_negative() {
    assert_eq!(eval("minus ten"), Ok(SizedInt::I8(-10i8)));
    assert_eq!(
        eval("negative one thousand three hundred thirty seven"),
        Ok(SizedInt::I16(-1337i16))
    );
}

#[test]
fn test_explicit_unsigned() {
    assert_eq!(
        eval("plus one thousand three hundred thirty seven"),
        Ok(SizedInt::U16(1337u16))
    );
    assert_eq!(
        eval("positive seven thousand three hundred thirty one"),
        Ok(SizedInt::U16(7331u16))
    );
}

#[test]
fn test_implicit_one() {
    assert_eq!(eval("hundred twenty three"), Ok(SizedInt::I8(123i8)));
    assert_eq!(
        eval("thousand three hundred thirty seven"),
        Ok(SizedInt::I16(1337i16))
    );
}

#[test]
fn test_a() {
    assert_eq!(eval("a hundred twenty three"), Ok(SizedInt::I8(123i8)));
}

#[test]
fn test_and() {
    assert_eq!(
        eval("one thousand three hundred and thirty seven"),
        Ok(SizedInt::I16(1337i16))
    );
}

#[test]
fn test_thousands_as_hundreds() {
    assert_eq!(eval("thirteen hundred thirty seven"), Ok(SizedInt::I16(1337i16)));
}

#[test]
fn test_number_types() {
    assert_eq!(eval("one hundred twenty seven"), Ok(SizedInt::I8(127i8)));
    assert_eq!(eval("plus two hundred fifty five"), Ok(SizedInt::U8(255u8)));
    assert_eq!(
        eval("thirty two thousand seven hundred sixty seven"),
        Ok(SizedInt::I16(32767i16))
    );
    assert_eq!(
        eval("plus sixty five thousand five hundred thirty five"),
        Ok(SizedInt::U16(65535u16))
    );
    assert_eq!(
        eval("two billion one hundred forty seven million four hundred eighty-three thousand six hundred forty seven"),
        Ok(SizedInt::I32(2147483647i32))
    );
    assert_eq!(
        eval("plus four billion two hundred ninety four million nine hundred sixty seven thousand two hundred ninety five"),
        Ok(SizedInt::U32(4294967295u32))
    );
    assert_eq!(
        eval("nine quintillion two hundred twenty three quadrillion three hundred seventy two trillion thirty six billion eight hundred fifty four million seven hundred seventy five thousand eight hundred seven"),
        Ok(SizedInt::I64(9223372036854775807i64))
    );
    assert_eq!(
        eval("plus eighteen quintillion four hundred forty-six quadrillion seven hundred forty four trillion seventy three billion seven hundred nine million five hundred fifty one thousand six hundred fifteen"),
        Ok(SizedInt::U64(18446744073709551615u64))
    );
}

#[test]
fn test_zero() {
    assert_eq!(eval("zero"), Ok(SizedInt::I8(0i8)));
    assert_eq!(eval("plus zero"), Ok(SizedInt::U8(0u8)));
    assert_eq!(eval("minus zero"), Ok(SizedInt::I8(0i8)));
}
