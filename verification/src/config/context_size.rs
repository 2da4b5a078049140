//! The context length of a model as the configuration writes it: a plain
//! number of tokens, or a number of units of 1024 tokens followed by `k`.

use crate::text::{
    chars_of, decimal, lemma_decimal_round_trip, parse_i32_range, parse_signed,
    push_signed_decimal, signed_decimal,
};
use vstd::prelude::*;

verus! {

/// A context length in tokens.
#[derive(Clone, Copy, Debug, PartialEq, Eq)]
pub struct ContextSize(i32);

impl Default for ContextSize {
    /// No tokens.
    fn default() -> (r: ContextSize)
        ensures
            r.tokens() == 0,
    {
        ContextSize(0)
    }
}

/// How a context length is written in a configuration.
#[derive(Clone, Debug, PartialEq, Eq)]
pub enum ContextForm {
    /// As text: a number followed by `k`.
    Text(String),
    /// As a number.
    Integer(i32),
}

/// A `ContextForm` as a plain value.
pub enum ContextFormView {
    Text(Seq<char>),
    Integer(i32),
}

impl View for ContextForm {
    type V = ContextFormView;

    open spec fn view(&self) -> ContextFormView {
        match self {
            ContextForm::Text(text) => ContextFormView::Text(text@),
            ContextForm::Integer(n) => ContextFormView::Integer(*n),
        }
    }
}

/// Why a value is no context length.
#[derive(Clone, Copy, Debug, PartialEq, Eq)]
pub enum ContextError {
    /// The number does not fit in 32 bits.
    OutOfRange,
    /// The text is empty.
    Empty,
    /// What stands before the `k` is not a number.
    InvalidKilo,
    /// The text is not a number.
    Invalid,
}

/// How `size` tokens are written: a multiple of 1024 as the multiplier
/// followed by `k`, any other number as it is.
pub open spec fn written(size: i32) -> ContextFormView {
    if size % 1024 == 0 {
        ContextFormView::Text(signed_decimal(size as int / 1024).push('k'))
    } else {
        ContextFormView::Integer(size)
    }
}

/// What a number in a configuration reads as.
pub open spec fn read_integer(n: int) -> Result<i32, ContextError> {
    if i32::MIN <= n <= i32::MAX {
        Ok(n as i32)
    } else {
        Err(ContextError::OutOfRange)
    }
}

/// What a text in a configuration reads as. A text that ends in `k` or `K`
/// counts units of 1024 tokens; any other text counts tokens.
pub open spec fn read_text(text: Seq<char>) -> Result<i32, ContextError> {
    if text.len() == 0 {
        Err(ContextError::Empty)
    } else if text.last() == 'k' || text.last() == 'K' {
        match parse_signed(text.drop_last(), i32::MIN as int, i32::MAX as int) {
            Some(n) => read_integer(n * 1024),
            None => Err(ContextError::InvalidKilo),
        }
    } else {
        match parse_signed(text, i32::MIN as int, i32::MAX as int) {
            Some(n) => Ok(n as i32),
            None => Err(ContextError::Invalid),
        }
    }
}

/// What a written context length reads as.
pub open spec fn read(form: ContextFormView) -> Result<i32, ContextError> {
    match form {
        ContextFormView::Text(text) => read_text(text),
        ContextFormView::Integer(n) => read_integer(n as int),
    }
}

impl ContextSize {
    /// The length in tokens.
    pub closed spec fn tokens(self) -> i32 {
        self.0
    }

    pub fn new(size: i32) -> (r: ContextSize)
        ensures
            r.tokens() == size,
    {
        ContextSize(size)
    }

    pub fn size(&self) -> (size: i32)
        ensures
            size == self.tokens(),
    {
        self.0
    }

    /// Reads a signed number as a context length.
    pub fn from_i64(v: i64) -> (r: Result<ContextSize, ContextError>)
        ensures
            match read_integer(v as int) {
                Ok(n) => r matches Ok(size) && size.tokens() == n,
                Err(e) => r == Err::<ContextSize, ContextError>(e),
            },
    {
        if v > i32::MAX as i64 || v < i32::MIN as i64 {
            return Err(ContextError::OutOfRange);
        }
        Ok(ContextSize(v as i32))
    }

    /// Reads an unsigned number as a context length.
    pub fn from_u64(v: u64) -> (r: Result<ContextSize, ContextError>)
        ensures
            match read_integer(v as int) {
                Ok(n) => r matches Ok(size) && size.tokens() == n,
                Err(e) => r == Err::<ContextSize, ContextError>(e),
            },
    {
        if v > i32::MAX as u64 {
            return Err(ContextError::OutOfRange);
        }
        Ok(ContextSize(v as i32))
    }

    /// Reads a text as a context length.
    pub fn parse(v: &str) -> (r: Result<ContextSize, ContextError>)
        ensures
            match read_text(v@) {
                Ok(n) => r matches Ok(size) && size.tokens() == n,
                Err(e) => r == Err::<ContextSize, ContextError>(e),
            },
    {
        let chars = chars_of(v);
        let len = chars.len();
        if len == 0 {
            return Err(ContextError::Empty);
        }
        let last = chars[len - 1];
        assert(chars@.subrange(0, len as int) == chars@);
        assert(chars@.subrange(0, len - 1) == chars@.drop_last());
        if last == 'k' || last == 'K' {
            match parse_i32_range(chars.as_slice(), 0, len - 1) {
                Some(n) => Self::from_i64(n as i64 * 1024),
                None => Err(ContextError::InvalidKilo),
            }
        } else {
            match parse_i32_range(chars.as_slice(), 0, len) {
                Some(n) => Ok(ContextSize(n)),
                None => Err(ContextError::Invalid),
            }
        }
    }

    /// Reads a written context length.
    pub fn deserialize(form: &ContextForm) -> (r: Result<ContextSize, ContextError>)
        ensures
            match read(form@) {
                Ok(n) => r matches Ok(size) && size.tokens() == n,
                Err(e) => r == Err::<ContextSize, ContextError>(e),
            },
    {
        match form {
            ContextForm::Text(text) => Self::parse(text.as_str()),
            ContextForm::Integer(n) => Self::from_i64(*n as i64),
        }
    }

    /// Writes the context length.
    pub fn serialize(&self) -> (form: ContextForm)
        ensures
            form@ == written(self.tokens()),
    {
        let size = self.0 as i64;
        let magnitude: i64 = if size < 0 {
            0 - size
        } else {
            size
        };
        if magnitude % 1024 == 0 {
            let units = magnitude / 1024;
            let signed_units = if size < 0 {
                0 - units
            } else {
                units
            };
            assert(signed_units == size / 1024 && size % 1024 == 0) by (nonlinear_arith)
                requires
                    magnitude % 1024 == 0,
                    units == magnitude / 1024,
                    size < 0 ==> magnitude == -size && signed_units == -units,
                    size >= 0 ==> magnitude == size && signed_units == units,
            ;
            let mut buffer = String::new();
            push_signed_decimal(&mut buffer, signed_units);
            buffer.push('k');
            assert(buffer@ =~= signed_decimal(signed_units as int).push('k'));
            ContextForm::Text(buffer)
        } else {
            assert(size % 1024 != 0) by (nonlinear_arith)
                requires
                    magnitude % 1024 != 0,
                    size < 0 ==> magnitude == -size,
                    size >= 0 ==> magnitude == size,
            ;
            ContextForm::Integer(self.0)
        }
    }
}

/// Writing a context length and reading it back gives the same length.
pub proof fn lemma_context_round_trip(size: i32)
    ensures
        read(written(size)) == Ok::<i32, ContextError>(size),
{
    if size % 1024 == 0 {
        let units = size as int / 1024;
        let digits = signed_decimal(units);
        let text = digits.push('k');
        assert(text.last() == 'k');
        assert(text.drop_last() == digits);
        assert(units * 1024 == size);
        if units < 0 {
            let body = decimal((-units) as nat);
            lemma_decimal_round_trip((-units) as nat);
            assert(digits[0] == '-');
            assert(digits.drop_first() == body);
        } else {
            lemma_decimal_round_trip(units as nat);
            assert(digits[0] != '-' && digits[0] != '+');
        }
        assert(parse_signed(digits, i32::MIN as int, i32::MAX as int) == Some(units));
    }
}

} // verus!
