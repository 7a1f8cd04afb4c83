use vstd::prelude::*;
use crate::decimal::{parse_text, parsed_decimal, Decimal, DecimalView};
use crate::error::ErrorKind;
use crate::limits::{check_limits, limits_verdict};
use crate::spacing::{check_spaces, spacing_verdict};
use crate::text::{normalize, normalized};

verus! {

/// What a typed text reads as. The spacing is judged on the text as typed;
/// the text is then normalized and read as a decimal; the decimal and the
/// normalized text are held against the limits. The first of these to fail
/// gives the error.
pub open spec fn reading(text: Seq<char>) -> Result<DecimalView, ErrorKind> {
    match spacing_verdict(text) {
        Err(e) => Err(e),
        Ok(_) => match parsed_decimal(normalized(text)) {
            None => Err(ErrorKind::InvalidNumber),
            Some(v) => match limits_verdict(v, normalized(text)) {
                Err(e) => Err(e),
                Ok(_) => Ok(v),
            },
        },
    }
}

/// The value of a reading.
pub open spec fn read_view(r: Result<Decimal, ErrorKind>) -> Result<DecimalView, ErrorKind> {
    match r {
        Ok(d) => Ok(d@),
        Err(e) => Err(e),
    }
}

/// The verdict a reading amounts to.
pub open spec fn verdict_of(r: Result<DecimalView, ErrorKind>) -> Result<(), ErrorKind> {
    match r {
        Ok(_) => Ok(()),
        Err(e) => Err(e),
    }
}

/// Judges what the decimal reader made of a normalized text: no decimal is an
/// invalid number, and a decimal is held against the limits.
pub fn accept(parsed: Result<Decimal, rust_decimal::Error>, normalized: &str) -> (r: Result<
    Decimal,
    ErrorKind,
>)
    ensures
        r == match parsed {
            Err(_) => Err::<Decimal, ErrorKind>(ErrorKind::InvalidNumber),
            Ok(v) => match limits_verdict(v@, normalized@) {
                Err(e) => Err(e),
                Ok(_) => Ok(v),
            },
        },
{
    match parsed {
        Err(_) => Err(ErrorKind::InvalidNumber),
        Ok(v) => match check_limits(&v, normalized) {
            Err(e) => Err(e),
            Ok(_) => Ok(v),
        },
    }
}

/// Reads a typed text as an operand.
pub fn read_operand(text: &str) -> (r: Result<Decimal, ErrorKind>)
    ensures
        read_view(r) == reading(text@),
{
    match check_spaces(text) {
        Err(e) => Err(e),
        Ok(_) => {
            let plain = normalize(text);
            accept(parse_text(plain.as_str()), plain.as_str())
        },
    }
}

/// One operand field: the text as the user left it, and the value of the last
/// text that read well.
pub struct Operand {
    pub value: Decimal,
    pub text: String,
}

impl Operand {
    /// Reads the text anew. A text that reads well replaces the value; any
    /// other leaves the value as it was.
    pub fn refresh(&mut self) -> (r: Result<(), ErrorKind>)
        ensures
            final(self).text == old(self).text,
            r == verdict_of(reading(old(self).text@)),
            match reading(old(self).text@) {
                Ok(v) => final(self).value@ == v,
                Err(_) => final(self).value == old(self).value,
            },
    {
        match read_operand(self.text.as_str()) {
            Ok(v) => {
                self.value = v;
                Ok(())
            },
            Err(e) => Err(e),
        }
    }
}

} // verus!
