//! Memory estimation for a model from the head of its weight file.
//!
//! The weight file starts with a little-endian header: a magic number, a
//! version, a tensor count, a count of metadata entries, and the entries
//! themselves, each a key, a type selector and a value. The estimator reads
//! the few entries that describe the model's shape and derives from them, the
//! file's size and the context length how much memory the model needs.

use crate::text::{
    chars_of, decimal, ends_with, find_last, has_suffix, last_index_of, parse_unsigned,
    parse_unsigned_range, push_decimal, push_decimal_wide, string_of, trim, trim_range,
};
use vstd::string::StringExecFns;
use vstd::slice::slice_subrange;
use vstd::prelude::*;
use vstd::utf8::*;

verus! {

/// Why the head of a weight file could not be read.
#[derive(Debug, Clone, Copy, PartialEq, Eq)]
pub enum InvalidFormat {
    /// The data ends before the value that is being read.
    UnexpectedEnd,
    /// The file does not start with the magic number.
    BadMagic,
    /// The version is newer than the newest one supported.
    UnsupportedVersion,
    /// A string announces more bytes than a string may have.
    StringTooLong,
    /// A string that has to be read is not UTF-8.
    InvalidText,
    /// A string in a numeric slot does not write a number of the slot's width.
    InvalidNumber,
    /// A 64-bit value in a 32-bit slot is too large for it.
    ValueOutOfRange,
    /// The entry's type is not one that a number can be read from.
    NotNumeric,
    /// The type selector is none of the known ones.
    UnknownType,
    /// One of the required parameters is not in the metadata.
    MissingParameter,
}

/// The magic number: the first number of a weight file, read like every
/// other number of the header, lowest byte first.
pub const MAGIC: u32 = 0x4747_5546;

/// The newest supported version of the format.
pub const MAX_VERSION: u32 = 3;

/// The longest string that is read, in bytes.
pub const MAX_STRING_LEN: u64 = 1_048_576;

/// The longest string that is skipped, in bytes.
pub const MAX_SKIPPED_STRING_LEN: u64 = 10_000_000;

/// A cursor over the bytes of a weight file.
pub struct ByteSource<'a> {
    data: &'a [u8],
    pos: usize,
}

/// The little-endian number in the two bytes at `pos`.
pub open spec fn le_u16(data: Seq<u8>, pos: int) -> nat {
    (data[pos] + 256 * data[pos + 1]) as nat
}

/// The little-endian number in the four bytes at `pos`.
pub open spec fn le_u32(data: Seq<u8>, pos: int) -> nat {
    (data[pos] + 256 * data[pos + 1] + 65_536 * data[pos + 2] + 16_777_216 * data[pos + 3]) as nat
}

/// The little-endian number in the eight bytes at `pos`.
pub open spec fn le_u64(data: Seq<u8>, pos: int) -> nat {
    (le_u32(data, pos) + 4_294_967_296 * le_u32(data, pos + 4)) as nat
}

/// What reading one byte at `pos` gives: the byte and the position behind
/// it, or `UnexpectedEnd` at the end of the data.
pub open spec fn u8_at(data: Seq<u8>, pos: nat) -> Result<(u8, nat), InvalidFormat> {
    if pos + 1 <= data.len() {
        Ok((data[pos as int], pos + 1))
    } else {
        Err(InvalidFormat::UnexpectedEnd)
    }
}

/// What reading a two-byte number at `pos` gives.
pub open spec fn u16_at(data: Seq<u8>, pos: nat) -> Result<(u16, nat), InvalidFormat> {
    if pos + 2 <= data.len() {
        Ok((le_u16(data, pos as int) as u16, pos + 2))
    } else {
        Err(InvalidFormat::UnexpectedEnd)
    }
}

/// What reading a four-byte number at `pos` gives.
pub open spec fn u32_at(data: Seq<u8>, pos: nat) -> Result<(u32, nat), InvalidFormat> {
    if pos + 4 <= data.len() {
        Ok((le_u32(data, pos as int) as u32, pos + 4))
    } else {
        Err(InvalidFormat::UnexpectedEnd)
    }
}

/// What reading an eight-byte number at `pos` gives.
pub open spec fn u64_at(data: Seq<u8>, pos: nat) -> Result<(u64, nat), InvalidFormat> {
    if pos + 8 <= data.len() {
        Ok((le_u64(data, pos as int) as u64, pos + 8))
    } else {
        Err(InvalidFormat::UnexpectedEnd)
    }
}

impl<'a> ByteSource<'a> {
    /// The bytes under the cursor, all of them.
    pub closed spec fn bytes(&self) -> Seq<u8> {
        self.data@
    }

    /// How many bytes have been consumed.
    pub closed spec fn position(&self) -> nat {
        self.pos as nat
    }

    /// The cursor never stands behind the end of its bytes.
    pub open spec fn wf(&self) -> bool {
        self.position() <= self.bytes().len()
    }

    /// Whether the cursor stands where `expected` says it should after a
    /// read that started from `before`, and `got` is the value read there.
    pub open spec fn read_as<T>(
        &self,
        before: &Self,
        got: Result<T, InvalidFormat>,
        expected: Result<(T, nat), InvalidFormat>,
    ) -> bool {
        &&& self.wf()
        &&& self.bytes() == before.bytes()
        &&& match expected {
            Ok((value, next)) => got == Ok::<T, InvalidFormat>(value) && self.position() == next,
            Err(e) => got == Err::<T, InvalidFormat>(e),
        }
    }

    /// A cursor at the start of `data`.
    pub fn new(data: &'a [u8]) -> (src: Self)
        ensures
            src.wf(),
            src.bytes() == data@,
            src.position() == 0,
    {
        ByteSource { data, pos: 0 }
    }

    /// Moves the cursor `n` bytes on, or to the end if fewer are left.
    fn advance(&mut self, n: u64)
        requires
            old(self).wf(),
        ensures
            final(self).wf(),
            final(self).bytes() == old(self).bytes(),
            final(self).position() == advanced(old(self).bytes(), old(self).position(), n as nat),
    {
        let left: usize = self.data.len() - self.pos;
        if n > left as u64 {
            self.pos = self.data.len();
        } else {
            self.pos = self.pos + n as usize;
        }
    }
}

/// The position `n` bytes behind `pos`, or the end of the data if that is
/// nearer. Skipping may run off the end; only a read there fails.
pub open spec fn advanced(data: Seq<u8>, pos: nat, n: nat) -> nat {
    if pos + n <= data.len() {
        pos + n
    } else {
        data.len()
    }
}

pub fn read_u8(src: &mut ByteSource) -> (r: Result<u8, InvalidFormat>)
    requires
        old(src).wf(),
    ensures
        final(src).read_as(old(src), r, u8_at(old(src).bytes(), old(src).position())),
{
    if src.data.len() - src.pos < 1 {
        return Err(InvalidFormat::UnexpectedEnd);
    }
    let value = src.data[src.pos];
    src.pos = src.pos + 1;
    Ok(value)
}

pub fn read_u16(src: &mut ByteSource) -> (r: Result<u16, InvalidFormat>)
    requires
        old(src).wf(),
    ensures
        final(src).read_as(old(src), r, u16_at(old(src).bytes(), old(src).position())),
{
    if src.data.len() - src.pos < 2 {
        return Err(InvalidFormat::UnexpectedEnd);
    }
    let p = src.pos;
    let value: u16 = src.data[p] as u16 + 256 * (src.data[p + 1] as u16);
    src.pos = p + 2;
    Ok(value)
}

pub fn read_u32(src: &mut ByteSource) -> (r: Result<u32, InvalidFormat>)
    requires
        old(src).wf(),
    ensures
        final(src).read_as(old(src), r, u32_at(old(src).bytes(), old(src).position())),
{
    if src.data.len() - src.pos < 4 {
        return Err(InvalidFormat::UnexpectedEnd);
    }
    let p = src.pos;
    let value: u32 = src.data[p] as u32 + 256 * (src.data[p + 1] as u32) + 65_536 * (src.data[p
        + 2] as u32) + 16_777_216 * (src.data[p + 3] as u32);
    src.pos = p + 4;
    Ok(value)
}

pub fn read_u64(src: &mut ByteSource) -> (r: Result<u64, InvalidFormat>)
    requires
        old(src).wf(),
    ensures
        final(src).read_as(old(src), r, u64_at(old(src).bytes(), old(src).position())),
{
    if src.data.len() - src.pos < 8 {
        return Err(InvalidFormat::UnexpectedEnd);
    }
    let p = src.pos;
    let low: u64 = src.data[p] as u64 + 256 * (src.data[p + 1] as u64) + 65_536 * (src.data[p
        + 2] as u64) + 16_777_216 * (src.data[p + 3] as u64);
    let high: u64 = src.data[p + 4] as u64 + 256 * (src.data[p + 5] as u64) + 65_536 * (src.data[p
        + 6] as u64) + 16_777_216 * (src.data[p + 7] as u64);
    src.pos = p + 8;
    Ok(low + 4_294_967_296 * high)
}


/// `std::str::from_utf8` accepts exactly the byte strings that are valid
/// UTF-8, and the text it returns is what they decode to.
#[verifier::external_body]
fn decode_text(bytes: &[u8]) -> (r: Option<String>)
    ensures
        r is Some <==> valid_utf8(bytes@),
        r matches Some(text) ==> text@ == decode_utf8(bytes@),
{
    match std::str::from_utf8(bytes) {
        Ok(text) => Some(text.to_string()),
        Err(_) => None,
    }
}

/// What reading a string at `pos` gives: its text and the position behind
/// it. A string is an eight-byte length followed by that many bytes of UTF-8.
pub open spec fn string_at(data: Seq<u8>, pos: nat) -> Result<(Seq<char>, nat), InvalidFormat> {
    match u64_at(data, pos) {
        Err(e) => Err(e),
        Ok((len, start)) => {
            if len > MAX_STRING_LEN {
                Err(InvalidFormat::StringTooLong)
            } else if start + len > data.len() {
                Err(InvalidFormat::UnexpectedEnd)
            } else if !valid_utf8(data.subrange(start as int, start + len)) {
                Err(InvalidFormat::InvalidText)
            } else {
                Ok((decode_utf8(data.subrange(start as int, start + len)), (start + len) as nat))
            }
        },
    }
}

/// Reads a string: its length, then its bytes, which must be UTF-8.
pub fn read_string(src: &mut ByteSource) -> (r: Result<String, InvalidFormat>)
    requires
        old(src).wf(),
    ensures
        final(src).wf(),
        final(src).bytes() == old(src).bytes(),
        match string_at(old(src).bytes(), old(src).position()) {
            Ok((text, next)) => r matches Ok(s) && s@ == text && final(src).position() == next,
            Err(e) => r == Err::<String, InvalidFormat>(e),
        },
{
    let len = match read_u64(src) {
        Ok(len) => len,
        Err(e) => {
            return Err(e);
        },
    };
    if len > MAX_STRING_LEN {
        return Err(InvalidFormat::StringTooLong);
    }
    if len > (src.data.len() - src.pos) as u64 {
        return Err(InvalidFormat::UnexpectedEnd);
    }
    let start = src.pos;
    let end = start + len as usize;
    let bytes = slice_subrange(src.data, start, end);
    match decode_text(bytes) {
        Some(text) => {
            src.pos = end;
            Ok(text)
        },
        None => Err(InvalidFormat::InvalidText),
    }
}

/// The number that a string value writes once white space around it is
/// removed, if it is a decimal number no greater than `max`.
pub open spec fn text_number(text: Seq<char>, max: nat) -> Result<nat, InvalidFormat> {
    match parse_unsigned(trim(text), max) {
        Some(v) => Ok(v),
        None => Err(InvalidFormat::InvalidNumber),
    }
}

/// Reads the text of a string value as a decimal number no greater than `max`.
fn number_of_text(text: &str, max: u64) -> (r: Result<u64, InvalidFormat>)
    ensures
        r == match text_number(text@, max as nat) {
            Ok(v) => Ok::<u64, InvalidFormat>(v as u64),
            Err(e) => Err(e),
        },
{
    let chars = chars_of(text);
    let (from, to) = trim_range(chars.as_slice(), 0, chars.len());
    assert(chars@.subrange(0, chars@.len() as int) == chars@);
    match parse_unsigned_range(chars.as_slice(), from, to, max) {
        Some(v) => Ok(v),
        None => Err(InvalidFormat::InvalidNumber),
    }
}

/// What reading a value of type `typ` into a 32-bit slot gives. The integer
/// types up to 32 bits are taken as they are, a 32-bit float by its bits, a
/// 64-bit integer if it fits, a string if it writes a decimal number that
/// fits. Nothing else is a number.
pub open spec fn u32_of_type_at(data: Seq<u8>, pos: nat, typ: u32) -> Result<
    (u32, nat),
    InvalidFormat,
> {
    if typ == 0 || typ == 1 {
        match u8_at(data, pos) {
            Ok((v, next)) => Ok((v as u32, next)),
            Err(e) => Err(e),
        }
    } else if typ == 2 || typ == 3 {
        match u16_at(data, pos) {
            Ok((v, next)) => Ok((v as u32, next)),
            Err(e) => Err(e),
        }
    } else if 4 <= typ <= 6 {
        u32_at(data, pos)
    } else if typ == 8 {
        match string_at(data, pos) {
            Ok((text, next)) => match text_number(text, u32::MAX as nat) {
                Ok(v) => Ok((v as u32, next)),
                Err(e) => Err(e),
            },
            Err(e) => Err(e),
        }
    } else if typ == 10 || typ == 11 {
        match u64_at(data, pos) {
            Ok((v, next)) => if v > u32::MAX {
                Err(InvalidFormat::ValueOutOfRange)
            } else {
                Ok((v as u32, next))
            },
            Err(e) => Err(e),
        }
    } else {
        Err(InvalidFormat::NotNumeric)
    }
}

/// What reading a value of type `typ` into a 64-bit slot gives. Only the
/// 32-bit and 64-bit integer types and strings that write a decimal number
/// are accepted there.
pub open spec fn u64_of_type_at(data: Seq<u8>, pos: nat, typ: u32) -> Result<
    (u64, nat),
    InvalidFormat,
> {
    if typ == 4 || typ == 5 {
        match u32_at(data, pos) {
            Ok((v, next)) => Ok((v as u64, next)),
            Err(e) => Err(e),
        }
    } else if typ == 10 || typ == 11 {
        u64_at(data, pos)
    } else if typ == 8 {
        match string_at(data, pos) {
            Ok((text, next)) => match text_number(text, u64::MAX as nat) {
                Ok(v) => Ok((v as u64, next)),
                Err(e) => Err(e),
            },
            Err(e) => Err(e),
        }
    } else {
        Err(InvalidFormat::NotNumeric)
    }
}

/// Reads a value of type `typ` as a 32-bit number.
pub fn read_u32_of_type(src: &mut ByteSource, typ: u32) -> (r: Result<u32, InvalidFormat>)
    requires
        old(src).wf(),
    ensures
        final(src).read_as(old(src), r, u32_of_type_at(old(src).bytes(), old(src).position(), typ)),
{
    match typ {
        0 | 1 => match read_u8(src) {
            Ok(v) => Ok(v as u32),
            Err(e) => Err(e),
        },
        2 | 3 => match read_u16(src) {
            Ok(v) => Ok(v as u32),
            Err(e) => Err(e),
        },
        4 | 5 | 6 => read_u32(src),
        8 => match read_string(src) {
            Ok(text) => match number_of_text(text.as_str(), 4_294_967_295) {
                Ok(v) => Ok(v as u32),
                Err(e) => Err(e),
            },
            Err(e) => Err(e),
        },
        10 | 11 => match read_u64(src) {
            Ok(v) => if v > 4_294_967_295 {
                Err(InvalidFormat::ValueOutOfRange)
            } else {
                Ok(v as u32)
            },
            Err(e) => Err(e),
        },
        _ => Err(InvalidFormat::NotNumeric),
    }
}

/// Reads a value of type `typ` as a 64-bit number.
pub fn read_u64_of_type(src: &mut ByteSource, typ: u32) -> (r: Result<u64, InvalidFormat>)
    requires
        old(src).wf(),
    ensures
        final(src).read_as(old(src), r, u64_of_type_at(old(src).bytes(), old(src).position(), typ)),
{
    match typ {
        4 | 5 => match read_u32(src) {
            Ok(v) => Ok(v as u64),
            Err(e) => Err(e),
        },
        10 | 11 => read_u64(src),
        8 => match read_string(src) {
            Ok(text) => number_of_text(text.as_str(), u64::MAX),
            Err(e) => Err(e),
        },
        _ => Err(InvalidFormat::NotNumeric),
    }
}


/// The width in bytes of a value of type `typ`, for the types whose values
/// all have the same width: the integers, the floats and the boolean.
pub open spec fn fixed_width(typ: u32) -> Option<nat> {
    if typ == 0 || typ == 1 || typ == 7 {
        Some(1)
    } else if typ == 2 || typ == 3 {
        Some(2)
    } else if 4 <= typ <= 6 {
        Some(4)
    } else if 10 <= typ <= 12 {
        Some(8)
    } else {
        None
    }
}

/// How many bytes `count` values of type `typ` take, one after the other
/// from `pos`. A value of fixed width takes its width whether or not the
/// data holds it; a string takes its length field and the bytes it
/// announces; an array takes its element type, its count and its elements.
/// A length field or an array header that the data does not hold, a string
/// that announces too many bytes, and a type that is not known are errors.
pub open spec fn skip_span(data: Seq<u8>, pos: nat, typ: u32, count: nat) -> Result<
    nat,
    InvalidFormat,
>
    decreases data.len() - pos, count,
{
    if count == 0 {
        Ok(0)
    } else if fixed_width(typ) is Some {
        Ok(count * fixed_width(typ)->0)
    } else if typ == 8 {
        match u64_at(data, pos) {
            Err(e) => Err(e),
            Ok((len, _)) => if len > MAX_SKIPPED_STRING_LEN {
                Err(InvalidFormat::StringTooLong)
            } else {
                match skip_span(data, advanced(data, pos, 8 + len as nat), typ, (count - 1) as nat) {
                    Ok(rest) => Ok(8 + len as nat + rest),
                    Err(e) => Err(e),
                }
            },
        }
    } else if typ == 9 {
        if pos + 12 > data.len() {
            Err(InvalidFormat::UnexpectedEnd)
        } else {
            let elem_type = le_u32(data, pos as int) as u32;
            let elem_count = le_u64(data, pos as int + 4) as u64;
            match skip_span(data, pos + 12, elem_type, elem_count as nat) {
                Err(e) => Err(e),
                Ok(inner) => match skip_span(
                    data,
                    advanced(data, pos, 12 + inner),
                    typ,
                    (count - 1) as nat,
                ) {
                    Ok(rest) => Ok(12 + inner + rest),
                    Err(e) => Err(e),
                },
            }
        }
    } else {
        Err(InvalidFormat::UnknownType)
    }
}

/// Whether a cursor that started at `start` and now stands at `now`, with
/// `rest` still to skip from there, is on its way to skipping `whole`.
pub open spec fn skip_continues(
    data: Seq<u8>,
    start: nat,
    whole: Result<nat, InvalidFormat>,
    now: nat,
    rest: Result<nat, InvalidFormat>,
) -> bool {
    match rest {
        Ok(c) => whole is Ok && advanced(data, start, whole->Ok_0) == advanced(data, now, c),
        Err(e) => whole == Err::<nat, InvalidFormat>(e),
    }
}

/// Skipping `count` values is skipping the first and then the others.
proof fn lemma_skip_first(data: Seq<u8>, pos: nat, typ: u32, count: nat)
    requires
        pos <= data.len(),
        count >= 1,
        fixed_width(typ) is None,
    ensures
        skip_span(data, pos, typ, count) == match skip_span(data, pos, typ, 1) {
            Err(e) => Err::<nat, InvalidFormat>(e),
            Ok(first) => match skip_span(
                data,
                advanced(data, pos, first),
                typ,
                (count - 1) as nat,
            ) {
                Ok(rest) => Ok(first + rest),
                Err(e) => Err(e),
            },
        },
{
    if typ == 8 {
        match u64_at(data, pos) {
            Err(e) => {},
            Ok((len, _)) => {
                if len <= MAX_SKIPPED_STRING_LEN {
                    let next = advanced(data, pos, 8 + len as nat);
                    assert(skip_span(data, next, typ, 0) == Ok::<nat, InvalidFormat>(0));
                }
            },
        }
    } else if typ == 9 {
        if pos + 12 <= data.len() {
            let elem_type = le_u32(data, pos as int) as u32;
            let elem_count = le_u64(data, pos as int + 4) as u64;
            match skip_span(data, pos + 12, elem_type, elem_count as nat) {
                Err(e) => {},
                Ok(inner) => {
                    let next = advanced(data, pos, 12 + inner);
                    assert(skip_span(data, next, typ, 0) == Ok::<nat, InvalidFormat>(0));
                },
            }
        }
    }
}

/// Skips one value of type `typ`.
pub fn skip_value(src: &mut ByteSource, typ: u32) -> (r: Result<(), InvalidFormat>)
    requires
        old(src).wf(),
    ensures
        final(src).wf(),
        final(src).bytes() == old(src).bytes(),
        match skip_span(old(src).bytes(), old(src).position(), typ, 1) {
            Ok(c) => r is Ok && final(src).position() == advanced(
                old(src).bytes(),
                old(src).position(),
                c,
            ),
            Err(e) => r == Err::<(), InvalidFormat>(e),
        },
    decreases old(src).bytes().len() - old(src).position(), 0nat,
{
    let ghost data = src.bytes();
    let ghost pos = src.position();
    match typ {
        0 | 1 | 7 => {
            src.advance(1);
            Ok(())
        },
        2 | 3 => {
            src.advance(2);
            Ok(())
        },
        4 | 5 | 6 => {
            src.advance(4);
            Ok(())
        },
        10 | 11 | 12 => {
            src.advance(8);
            Ok(())
        },
        8 => {
            let len = match read_u64(src) {
                Ok(len) => len,
                Err(e) => {
                    return Err(e);
                },
            };
            if len > MAX_SKIPPED_STRING_LEN {
                return Err(InvalidFormat::StringTooLong);
            }
            src.advance(len);
            assert(skip_span(data, advanced(data, pos, 8 + len as nat), typ, 0) == Ok::<
                nat,
                InvalidFormat,
            >(0));
            Ok(())
        },
        9 => {
            if src.data.len() - src.pos < 12 {
                return Err(InvalidFormat::UnexpectedEnd);
            }
            let elem_type = match read_u32(src) {
                Ok(v) => v,
                Err(e) => {
                    return Err(e);
                },
            };
            let elem_count = match read_u64(src) {
                Ok(v) => v,
                Err(e) => {
                    return Err(e);
                },
            };
            let r = skip_values(src, elem_type, elem_count);
            proof {
                match skip_span(data, pos + 12, elem_type, elem_count as nat) {
                    Ok(inner) => {
                        assert(skip_span(data, advanced(data, pos, 12 + inner), typ, 0) == Ok::<
                            nat,
                            InvalidFormat,
                        >(0));
                    },
                    Err(e) => {},
                }
            }
            r
        },
        _ => Err(InvalidFormat::UnknownType),
    }
}

/// Skips `count` values of type `typ`, one after the other.
fn skip_values(src: &mut ByteSource, typ: u32, count: u64) -> (r: Result<(), InvalidFormat>)
    requires
        old(src).wf(),
    ensures
        final(src).wf(),
        final(src).bytes() == old(src).bytes(),
        match skip_span(old(src).bytes(), old(src).position(), typ, count as nat) {
            Ok(c) => r is Ok && final(src).position() == advanced(
                old(src).bytes(),
                old(src).position(),
                c,
            ),
            Err(e) => r == Err::<(), InvalidFormat>(e),
        },
    decreases old(src).bytes().len() - old(src).position(), 1nat,
{
    let ghost data = src.bytes();
    let ghost start = src.position();
    let ghost whole = skip_span(data, start, typ, count as nat);
    let width: u64 = match typ {
        0 | 1 | 7 => 1,
        2 | 3 => 2,
        4 | 5 | 6 => 4,
        10 | 11 | 12 => 8,
        _ => 0,
    };
    if width != 0 {
        let len = src.data.len();
        if count > u64::MAX / width {
            assert(count * width > data.len()) by (nonlinear_arith)
                requires
                    count > u64::MAX / width,
                    1 <= width <= 8,
                    data.len() <= u64::MAX,
            ;
            src.pos = len;
        } else {
            assert(count * width <= u64::MAX) by (nonlinear_arith)
                requires
                    count <= u64::MAX / width,
                    1 <= width <= 8,
            ;
            src.advance(count * width);
        }
        return Ok(());
    }
    let mut i: u64 = 0;
    while i < count
        invariant
            i <= count,
            fixed_width(typ) is None,
            src.wf(),
            src.bytes() == data,
            start <= src.position(),
            data == old(src).bytes(),
            start == old(src).position(),
            whole == skip_span(data, start, typ, count as nat),
            skip_continues(
                data,
                start,
                whole,
                src.position(),
                skip_span(data, src.position(), typ, (count - i) as nat),
            ),
        decreases count - i,
    {
        let ghost now = src.position();
        proof {
            lemma_skip_first(data, now, typ, (count - i) as nat);
        }
        match skip_value(src, typ) {
            Ok(()) => {},
            Err(e) => {
                return Err(e);
            },
        }
        i += 1;
    }
    Ok(())
}


/// The parameters of a model that its weight file's metadata may hold.
#[derive(Debug, Clone, Copy, PartialEq, Eq)]
pub struct ModelParams {
    /// Number of attention heads.
    pub attention_heads: Option<u32>,
    /// Number of key/value heads.
    pub kv_heads: Option<u32>,
    /// Number of layers (blocks).
    pub hidden_layers: Option<u32>,
    /// Width of the embedding.
    pub hidden_size: Option<u64>,
    /// Number of files the model is split into.
    pub split_count: Option<u32>,
}

/// The parameters that the estimator looks for.
#[derive(Debug, Clone, Copy, PartialEq, Eq)]
pub enum Parameter {
    AttentionHeads,
    KvHeads,
    HiddenLayers,
    HiddenSize,
    SplitCount,
}

impl ModelParams {
    /// No parameter known yet.
    pub open spec fn none() -> ModelParams {
        ModelParams {
            attention_heads: None,
            kv_heads: None,
            hidden_layers: None,
            hidden_size: None,
            split_count: None,
        }
    }

    /// Whether the three required parameters are known.
    pub open spec fn complete(self) -> bool {
        self.attention_heads is Some && self.hidden_layers is Some && self.hidden_size is Some
    }

    /// Whether `parameter` is already known.
    pub open spec fn knows(self, parameter: Parameter) -> bool {
        match parameter {
            Parameter::AttentionHeads => self.attention_heads is Some,
            Parameter::KvHeads => self.kv_heads is Some,
            Parameter::HiddenLayers => self.hidden_layers is Some,
            Parameter::HiddenSize => self.hidden_size is Some,
            Parameter::SplitCount => self.split_count is Some,
        }
    }

    /// These parameters with `parameter` set to `value`.
    pub open spec fn with(self, parameter: Parameter, value: u64) -> ModelParams {
        match parameter {
            Parameter::AttentionHeads => ModelParams {
                attention_heads: Some(value as u32),
                ..self
            },
            Parameter::KvHeads => ModelParams { kv_heads: Some(value as u32), ..self },
            Parameter::HiddenLayers => ModelParams { hidden_layers: Some(value as u32), ..self },
            Parameter::HiddenSize => ModelParams { hidden_size: Some(value), ..self },
            Parameter::SplitCount => ModelParams { split_count: Some(value as u32), ..self },
        }
    }
}

/// The parameter that a metadata key names, told by the key's ending.
pub open spec fn parameter_of_key(key: Seq<char>) -> Option<Parameter> {
    if has_suffix(key, ".attention.head_count"@) {
        Some(Parameter::AttentionHeads)
    } else if has_suffix(key, ".attention.head_count_kv"@) {
        Some(Parameter::KvHeads)
    } else if has_suffix(key, ".block_count"@) {
        Some(Parameter::HiddenLayers)
    } else if has_suffix(key, ".embedding_length"@) {
        Some(Parameter::HiddenSize)
    } else if has_suffix(key, "split.count"@) {
        Some(Parameter::SplitCount)
    } else {
        None
    }
}

fn classify_key(key: &str) -> (r: Option<Parameter>)
    ensures
        r == parameter_of_key(key@),
{
    let chars = chars_of(key);
    if ends_with(chars.as_slice(), ".attention.head_count") {
        Some(Parameter::AttentionHeads)
    } else if ends_with(chars.as_slice(), ".attention.head_count_kv") {
        Some(Parameter::KvHeads)
    } else if ends_with(chars.as_slice(), ".block_count") {
        Some(Parameter::HiddenLayers)
    } else if ends_with(chars.as_slice(), ".embedding_length") {
        Some(Parameter::HiddenSize)
    } else if ends_with(chars.as_slice(), "split.count") {
        Some(Parameter::SplitCount)
    } else {
        None
    }
}

/// The value of `parameter` read at `pos` from a value of type `typ`: the
/// embedding width is a 64-bit number, the others are 32-bit numbers.
pub open spec fn parameter_at(data: Seq<u8>, pos: nat, typ: u32, parameter: Parameter) -> Result<
    (u64, nat),
    InvalidFormat,
> {
    if parameter == Parameter::HiddenSize {
        u64_of_type_at(data, pos, typ)
    } else {
        match u32_of_type_at(data, pos, typ) {
            Ok((v, next)) => Ok((v as u64, next)),
            Err(e) => Err(e),
        }
    }
}

/// What one metadata entry at `pos` does to the parameters known so far.
/// An entry is a key, a type selector and a value. The value is read when
/// the key names a parameter that is not known yet, and skipped otherwise,
/// so the first entry for a parameter decides.
#[verifier::opaque]
pub open spec fn entry_at(data: Seq<u8>, pos: nat, known: ModelParams) -> Result<
    (ModelParams, nat),
    InvalidFormat,
> {
    match string_at(data, pos) {
        Err(e) => Err(e),
        Ok((key, type_pos)) => match u32_at(data, type_pos) {
            Err(e) => Err(e),
            Ok((typ, value_pos)) => {
                let parameter = parameter_of_key(key);
                if parameter is Some && !known.knows(parameter->0) {
                    match parameter_at(data, value_pos, typ, parameter->0) {
                        Ok((v, next)) => Ok((known.with(parameter->0, v), next)),
                        Err(e) => Err(e),
                    }
                } else {
                    match skip_span(data, value_pos, typ, 1) {
                        Ok(c) => Ok((known, advanced(data, value_pos, c))),
                        Err(e) => Err(e),
                    }
                }
            },
        },
    }
}

/// The parameters known after up to `count` entries from `pos`. Reading
/// stops early once the required parameters are known.
pub open spec fn entries_from(data: Seq<u8>, pos: nat, count: nat, known: ModelParams) -> Result<
    ModelParams,
    InvalidFormat,
>
    decreases count,
{
    if count == 0 {
        Ok(known)
    } else {
        match entry_at(data, pos, known) {
            Err(e) => Err(e),
            Ok((next, next_pos)) => if next.complete() {
                Ok(next)
            } else {
                entries_from(data, next_pos, (count - 1) as nat, next)
            },
        }
    }
}

/// The position of the entry count: behind the tensor count, which the
/// header holds from version 1 on.
pub open spec fn entry_count_pos(data: Seq<u8>, pos: nat, version: u32) -> Result<
    nat,
    InvalidFormat,
> {
    if version >= 1 {
        match u64_at(data, pos) {
            Ok((_, next)) => Ok(next),
            Err(e) => Err(e),
        }
    } else {
        Ok(pos)
    }
}

/// The parameters as they are handed out: the number of key/value heads
/// defaults to the number of attention heads, and the three required
/// parameters must be known.
pub open spec fn finished(known: ModelParams) -> Result<ModelParams, InvalidFormat> {
    if known.complete() {
        Ok(
            ModelParams {
                kv_heads: if known.kv_heads is None {
                    known.attention_heads
                } else {
                    known.kv_heads
                },
                ..known
            },
        )
    } else {
        Err(InvalidFormat::MissingParameter)
    }
}

/// The parameters that the header starting at `pos` holds.
pub open spec fn model_params_at(data: Seq<u8>, pos: nat) -> Result<ModelParams, InvalidFormat> {
    match u32_at(data, pos) {
        Err(e) => Err(e),
        Ok((magic, version_pos)) => if magic != MAGIC {
            Err(InvalidFormat::BadMagic)
        } else {
            match u32_at(data, version_pos) {
                Err(e) => Err(e),
                Ok((version, tensors_pos)) => if version > MAX_VERSION {
                    Err(InvalidFormat::UnsupportedVersion)
                } else {
                    match entry_count_pos(data, tensors_pos, version) {
                        Err(e) => Err(e),
                        Ok(count_pos) => match u64_at(data, count_pos) {
                            Err(e) => Err(e),
                            Ok((count, entries_pos)) => match entries_from(
                                data,
                                entries_pos,
                                count as nat,
                                ModelParams::none(),
                            ) {
                                Err(e) => Err(e),
                                Ok(known) => finished(known),
                            },
                        },
                    }
                },
            }
        },
    }
}

/// Reads one metadata entry into `known`.
fn read_entry(src: &mut ByteSource, known: ModelParams) -> (r: Result<ModelParams, InvalidFormat>)
    requires
        old(src).wf(),
    ensures
        final(src).read_as(old(src), r, entry_at(old(src).bytes(), old(src).position(), known)),
{
    reveal(entry_at);
    let key = match read_string(src) {
        Ok(key) => key,
        Err(e) => {
            return Err(e);
        },
    };
    let typ = match read_u32(src) {
        Ok(typ) => typ,
        Err(e) => {
            return Err(e);
        },
    };
    let wanted = match classify_key(key.as_str()) {
        Some(Parameter::AttentionHeads) => known.attention_heads.is_none(),
        Some(Parameter::KvHeads) => known.kv_heads.is_none(),
        Some(Parameter::HiddenLayers) => known.hidden_layers.is_none(),
        Some(Parameter::HiddenSize) => known.hidden_size.is_none(),
        Some(Parameter::SplitCount) => known.split_count.is_none(),
        None => false,
    };
    if !wanted {
        return match skip_value(src, typ) {
            Ok(()) => Ok(known),
            Err(e) => Err(e),
        };
    }
    match classify_key(key.as_str()) {
        Some(Parameter::HiddenSize) => match read_u64_of_type(src, typ) {
            Ok(v) => Ok(ModelParams { hidden_size: Some(v), ..known }),
            Err(e) => Err(e),
        },
        Some(Parameter::AttentionHeads) => match read_u32_of_type(src, typ) {
            Ok(v) => Ok(ModelParams { attention_heads: Some(v), ..known }),
            Err(e) => Err(e),
        },
        Some(Parameter::KvHeads) => match read_u32_of_type(src, typ) {
            Ok(v) => Ok(ModelParams { kv_heads: Some(v), ..known }),
            Err(e) => Err(e),
        },
        Some(Parameter::HiddenLayers) => match read_u32_of_type(src, typ) {
            Ok(v) => Ok(ModelParams { hidden_layers: Some(v), ..known }),
            Err(e) => Err(e),
        },
        Some(Parameter::SplitCount) => match read_u32_of_type(src, typ) {
            Ok(v) => Ok(ModelParams { split_count: Some(v), ..known }),
            Err(e) => Err(e),
        },
        None => Ok(known),
    }
}

/// Reads up to `count` metadata entries.
fn read_entries(src: &mut ByteSource, count: u64) -> (r: Result<ModelParams, InvalidFormat>)
    requires
        old(src).wf(),
    ensures
        final(src).wf(),
        final(src).bytes() == old(src).bytes(),
        r == entries_from(old(src).bytes(), old(src).position(), count as nat, ModelParams::none()),
{
    let ghost data = src.bytes();
    let ghost whole = entries_from(data, src.position(), count as nat, ModelParams::none());
    let mut known = ModelParams {
        attention_heads: None,
        kv_heads: None,
        hidden_layers: None,
        hidden_size: None,
        split_count: None,
    };
    let mut i: u64 = 0;
    while i < count
        invariant
            i <= count,
            src.wf(),
            src.bytes() == data,
            data == old(src).bytes(),
            whole == entries_from(data, old(src).position(), count as nat, ModelParams::none()),
            whole == entries_from(data, src.position(), (count - i) as nat, known),
        decreases count - i,
    {
        known = match read_entry(src, known) {
            Ok(next) => next,
            Err(e) => {
                return Err(e);
            },
        };
        if known.attention_heads.is_some() && known.hidden_layers.is_some()
            && known.hidden_size.is_some() {
            return Ok(known);
        }
        i += 1;
    }
    Ok(known)
}

/// Reads the header of a weight file and the parameters in its metadata.
pub fn read_model_params(src: &mut ByteSource) -> (r: Result<ModelParams, InvalidFormat>)
    requires
        old(src).wf(),
    ensures
        final(src).wf(),
        final(src).bytes() == old(src).bytes(),
        r == model_params_at(old(src).bytes(), old(src).position()),
{
    let magic = match read_u32(src) {
        Ok(v) => v,
        Err(e) => {
            return Err(e);
        },
    };
    if magic != MAGIC {
        return Err(InvalidFormat::BadMagic);
    }
    let version = match read_u32(src) {
        Ok(v) => v,
        Err(e) => {
            return Err(e);
        },
    };
    if version > MAX_VERSION {
        return Err(InvalidFormat::UnsupportedVersion);
    }
    if version >= 1 {
        match read_u64(src) {
            Ok(_) => {},
            Err(e) => {
                return Err(e);
            },
        }
    }
    let count = match read_u64(src) {
        Ok(v) => v,
        Err(e) => {
            return Err(e);
        },
    };
    let known = match read_entries(src, count) {
        Ok(known) => known,
        Err(e) => {
            return Err(e);
        },
    };
    if known.attention_heads.is_none() || known.hidden_layers.is_none()
        || known.hidden_size.is_none() {
        return Err(InvalidFormat::MissingParameter);
    }
    let kv_heads = if known.kv_heads.is_none() {
        known.attention_heads
    } else {
        known.kv_heads
    };
    Ok(ModelParams { kv_heads, ..known })
}


/// Whether the position `longer` in a file stands for the position `pos`
/// in a head of `len` bytes of that file: it is the same position, or the
/// head was run off and the file has been gone through as far or farther.
pub open spec fn stands_for(len: nat, pos: nat, longer: nat) -> bool {
    pos <= len && (longer == pos || (pos == len && longer >= len))
}

/// Numbers and strings that the head holds are read from the file as from
/// the head.
proof fn lemma_head_reads(head: Seq<u8>, rest: Seq<u8>, pos: nat)
    requires
        pos <= head.len(),
    ensures
        u8_at(head, pos) is Ok ==> u8_at(head + rest, pos) == u8_at(head, pos),
        u16_at(head, pos) is Ok ==> u16_at(head + rest, pos) == u16_at(head, pos),
        u32_at(head, pos) is Ok ==> u32_at(head + rest, pos) == u32_at(head, pos),
        u64_at(head, pos) is Ok ==> u64_at(head + rest, pos) == u64_at(head, pos),
        string_at(head, pos) != Err::<(Seq<char>, nat), InvalidFormat>(InvalidFormat::UnexpectedEnd)
            ==> string_at(head + rest, pos) == string_at(head, pos),
{
    let file = head + rest;
    assert forall|i: int| 0 <= i < head.len() implies file[i] == head[i] by {}
    if u64_at(head, pos) is Ok {
        let len = le_u64(head, pos as int) as u64;
        let start = pos + 8;
        if len <= MAX_STRING_LEN && start + len <= head.len() {
            assert(file.subrange(start as int, start + len) =~= head.subrange(
                start as int,
                start + len,
            ));
        }
    }
}

/// A value that the head holds is read from the file as from the head.
proof fn lemma_head_values(head: Seq<u8>, rest: Seq<u8>, pos: nat, typ: u32)
    requires
        pos <= head.len(),
    ensures
        u32_of_type_at(head, pos, typ) != Err::<(u32, nat), InvalidFormat>(
            InvalidFormat::UnexpectedEnd,
        ) ==> u32_of_type_at(head + rest, pos, typ) == u32_of_type_at(head, pos, typ),
        u64_of_type_at(head, pos, typ) != Err::<(u64, nat), InvalidFormat>(
            InvalidFormat::UnexpectedEnd,
        ) ==> u64_of_type_at(head + rest, pos, typ) == u64_of_type_at(head, pos, typ),
{
    lemma_head_reads(head, rest, pos);
}

/// What is skipped in the head without running out of it takes as many
/// bytes in the file.
proof fn lemma_head_skips(
    head: Seq<u8>,
    rest: Seq<u8>,
    pos: nat,
    longer: nat,
    typ: u32,
    count: nat,
)
    requires
        stands_for(head.len(), pos, longer),
        skip_span(head, pos, typ, count) != Err::<nat, InvalidFormat>(InvalidFormat::UnexpectedEnd),
    ensures
        skip_span(head + rest, longer, typ, count) == skip_span(head, pos, typ, count),
    decreases head.len() - pos, count,
{
    let file = head + rest;
    if count == 0 || fixed_width(typ) is Some {
    } else if typ == 8 {
        lemma_head_reads(head, rest, pos);
        match u64_at(head, pos) {
            Err(e) => {},
            Ok((len, _)) => {
                if len <= MAX_SKIPPED_STRING_LEN {
                    let next = advanced(head, pos, 8 + len as nat);
                    let next_longer = advanced(file, pos, 8 + len as nat);
                    lemma_head_skips(head, rest, next, next_longer, typ, (count - 1) as nat);
                }
            },
        }
    } else if typ == 9 {
        if pos + 12 <= head.len() {
            lemma_head_reads(head, rest, pos);
            lemma_head_reads(head, rest, pos + 4);
            let elem_type = le_u32(head, pos as int) as u32;
            let elem_count = le_u64(head, pos as int + 4) as u64;
            assert(u32_at(head, pos) is Ok && u64_at(head, pos + 4) is Ok);
            assert(le_u32(file, pos as int) == le_u32(head, pos as int));
            assert(le_u64(file, pos as int + 4) == le_u64(head, pos as int + 4));
            lemma_head_skips(head, rest, pos + 12, pos + 12, elem_type, elem_count as nat);
            match skip_span(head, pos + 12, elem_type, elem_count as nat) {
                Err(e) => {},
                Ok(inner) => {
                    let next = advanced(head, pos, 12 + inner);
                    let next_longer = advanced(file, pos, 12 + inner);
                    lemma_head_skips(head, rest, next, next_longer, typ, (count - 1) as nat);
                },
            }
        }
    }
}

/// An entry that the head holds does to the parameters what it does in the
/// file, and the position behind it in the file stands for the one in the
/// head.
proof fn lemma_head_entry(head: Seq<u8>, rest: Seq<u8>, pos: nat, known: ModelParams)
    requires
        pos <= head.len(),
    ensures
        match entry_at(head, pos, known) {
            Ok((next_known, next)) => entry_at(head + rest, pos, known) matches Ok(
                (file_known, file_next),
            ) && file_known == next_known && stands_for(head.len(), next, file_next),
            Err(e) => e != InvalidFormat::UnexpectedEnd ==> entry_at(head + rest, pos, known)
                == Err::<(ModelParams, nat), InvalidFormat>(e),
        },
{
    reveal(entry_at);
    let file = head + rest;
    lemma_head_reads(head, rest, pos);
    match string_at(head, pos) {
        Err(e) => {},
        Ok((key, type_pos)) => {
            lemma_head_reads(head, rest, type_pos);
            match u32_at(head, type_pos) {
                Err(e) => {},
                Ok((typ, value_pos)) => {
                    let parameter = parameter_of_key(key);
                    if parameter is Some && !known.knows(parameter->0) {
                        lemma_head_values(head, rest, value_pos, typ);
                    } else {
                        if skip_span(head, value_pos, typ, 1) != Err::<nat, InvalidFormat>(
                            InvalidFormat::UnexpectedEnd,
                        ) {
                            lemma_head_skips(head, rest, value_pos, value_pos, typ, 1);
                        }
                    }
                },
            }
        },
    }
}

/// The entries that the head holds leave the parameters as they do in the
/// file.
proof fn lemma_head_entries(
    head: Seq<u8>,
    rest: Seq<u8>,
    pos: nat,
    longer: nat,
    count: nat,
    known: ModelParams,
)
    requires
        stands_for(head.len(), pos, longer),
        entries_from(head, pos, count, known) != Err::<ModelParams, InvalidFormat>(
            InvalidFormat::UnexpectedEnd,
        ),
    ensures
        entries_from(head + rest, longer, count, known) == entries_from(head, pos, count, known),
    decreases count,
{
    if count > 0 {
        if longer != pos {
            reveal(entry_at);
            assert(entry_at(head, pos, known) == Err::<(ModelParams, nat), InvalidFormat>(
                InvalidFormat::UnexpectedEnd,
            ));
        } else {
            lemma_head_entry(head, rest, pos, known);
            match entry_at(head, pos, known) {
                Err(e) => {},
                Ok((next_known, next)) => {
                    let file_next = entry_at(head + rest, pos, known)->Ok_0.1;
                    if !next_known.complete() {
                        lemma_head_entries(
                            head,
                            rest,
                            next,
                            file_next,
                            (count - 1) as nat,
                            next_known,
                        );
                    }
                },
            }
        }
    }
}

/// The head of a file is enough: whatever the parameters are that a head
/// of the file gives without running out of it, the whole file gives the
/// same, and where the head is refused for another reason than its end,
/// the file is refused for the same.
pub proof fn lemma_head_suffices(head: Seq<u8>, rest: Seq<u8>)
    requires
        model_params_at(head, 0) != Err::<ModelParams, InvalidFormat>(InvalidFormat::UnexpectedEnd),
    ensures
        model_params_at(head + rest, 0) == model_params_at(head, 0),
{
    let file = head + rest;
    lemma_head_reads(head, rest, 0);
    match u32_at(head, 0) {
        Err(e) => {},
        Ok((magic, version_pos)) => {
            if magic == MAGIC {
                lemma_head_reads(head, rest, version_pos);
                match u32_at(head, version_pos) {
                    Err(e) => {},
                    Ok((version, tensors_pos)) => {
                        if version <= MAX_VERSION {
                            lemma_head_reads(head, rest, tensors_pos);
                            match entry_count_pos(head, tensors_pos, version) {
                                Err(e) => {},
                                Ok(count_pos) => {
                                    lemma_head_reads(head, rest, count_pos);
                                    match u64_at(head, count_pos) {
                                        Err(e) => {},
                                        Ok((count, entries_pos)) => {
                                            lemma_head_entries(
                                                head,
                                                rest,
                                                entries_pos,
                                                entries_pos,
                                                count as nat,
                                                ModelParams::none(),
                                            );
                                        },
                                    }
                                },
                            }
                        }
                    },
                }
            }
        },
    }
}

/// The estimate that a head of the file gives without running out of it is
/// the estimate that the whole file gives.
pub proof fn lemma_head_gives_the_estimate(
    head: Seq<u8>,
    rest: Seq<u8>,
    file_size: u64,
    name_shards: Option<u32>,
    context_tokens: usize,
    kv_quant: KvQuant,
)
    requires
        estimate_of_file(head, file_size, name_shards, context_tokens, kv_quant) != Err::<
            Estimate,
            InvalidFormat,
        >(InvalidFormat::UnexpectedEnd),
    ensures
        estimate_of_file(head + rest, file_size, name_shards, context_tokens, kv_quant)
            == estimate_of_file(head, file_size, name_shards, context_tokens, kv_quant),
{
    lemma_head_suffices(head, rest);
}

/// What to do after an estimate was made from a head of a file.
#[derive(Debug, Clone, Copy, PartialEq, Eq)]
pub enum HeadStep {
    /// The estimate stands.
    Done,
    /// Read a head of this many bytes and estimate again.
    ReadMore(u64),
}

/// The head to ask for after one of `wanted` bytes: twice as long, as far
/// as lengths go.
pub open spec fn longer_head(wanted: u64) -> u64 {
    if wanted == 0 {
        1
    } else if 2 * wanted > u64::MAX {
        u64::MAX
    } else {
        (2 * wanted) as u64
    }
}

/// What to do after an estimate from a head of `head_len` bytes, when
/// `wanted` bytes were asked for: a longer head is read where the
/// estimator ran out of the head and the head was as long as asked for, so
/// that the file may hold more.
pub open spec fn head_step_of(ran_out: bool, head_len: u64, wanted: u64) -> HeadStep {
    if ran_out && head_len >= wanted {
        HeadStep::ReadMore(longer_head(wanted))
    } else {
        HeadStep::Done
    }
}

/// Says what to do after the estimate `result` was made from a head of
/// `head_len` bytes of a file, when `wanted` bytes were asked for.
pub fn next_head(
    result: &Result<Option<MemoryEstimation>, InvalidFormat>,
    head_len: u64,
    wanted: u64,
) -> (step: HeadStep)
    ensures
        step == head_step_of(
            *result == Err::<Option<MemoryEstimation>, InvalidFormat>(InvalidFormat::UnexpectedEnd),
            head_len,
            wanted,
        ),
{
    let ran_out = match result {
        Err(InvalidFormat::UnexpectedEnd) => true,
        _ => false,
    };
    if ran_out && head_len >= wanted {
        HeadStep::ReadMore(
            if wanted == 0 {
                1
            } else if wanted > u64::MAX / 2 {
                u64::MAX
            } else {
                2 * wanted
            },
        )
    } else {
        HeadStep::Done
    }
}

/// An estimate that stands is the estimate of the file. Where a head of a
/// file that is shorter than what was asked for is the whole file, and no
/// longer head is to be read after the estimate from `head`, the file,
/// whatever follows the head in it, has the same estimate.
pub proof fn lemma_done_is_the_estimate_of_the_file(
    head: Seq<u8>,
    rest: Seq<u8>,
    file_size: u64,
    name_shards: Option<u32>,
    context_tokens: usize,
    kv_quant: KvQuant,
    wanted: u64,
)
    requires
        head.len() <= u64::MAX,
        head.len() < wanted ==> rest.len() == 0,
        head_step_of(
            estimate_of_file(head, file_size, name_shards, context_tokens, kv_quant) == Err::<
                Estimate,
                InvalidFormat,
            >(InvalidFormat::UnexpectedEnd),
            head.len() as u64,
            wanted,
        ) == HeadStep::Done,
    ensures
        estimate_of_file(head + rest, file_size, name_shards, context_tokens, kv_quant)
            == estimate_of_file(head, file_size, name_shards, context_tokens, kv_quant),
{
    if estimate_of_file(head, file_size, name_shards, context_tokens, kv_quant) == Err::<
        Estimate,
        InvalidFormat,
    >(InvalidFormat::UnexpectedEnd) {
        assert(head + rest =~= head);
    } else {
        lemma_head_gives_the_estimate(
            head,
            rest,
            file_size,
            name_shards,
            context_tokens,
            kv_quant,
        );
    }
}

/// The quantisations that a key/value cache can be held in.
#[derive(Debug, Clone, Copy, PartialEq, Eq)]
pub enum KvQuant {
    FP32,
    FP16,
    Int8,
    Q6,
    Q5,
    Q4,
}

impl KvQuant {
    /// Four times the bytes that one cached value takes: the table is 8, 4,
    /// 2, 1.5, 1.25 and 1 bytes, held in quarters of a byte to stay exact.
    pub open spec fn quarter_bytes(self) -> nat {
        match self {
            KvQuant::FP32 => 32,
            KvQuant::FP16 => 16,
            KvQuant::Int8 => 8,
            KvQuant::Q6 => 6,
            KvQuant::Q5 => 5,
            KvQuant::Q4 => 4,
        }
    }

    /// The name under which the quantisation is shown.
    pub open spec fn label_text(self) -> Seq<char> {
        match self {
            KvQuant::FP32 => "FP32"@,
            KvQuant::FP16 => "FP16/BF16"@,
            KvQuant::Int8 => "INT8"@,
            KvQuant::Q6 => "Q6 (6-bit)"@,
            KvQuant::Q5 => "Q5 (5-bit)"@,
            KvQuant::Q4 => "Q4 (4-bit)"@,
        }
    }

    /// Bytes per cached value, in quarters of a byte.
    pub fn quarter_bytes_per_value(self) -> (q: u64)
        ensures
            q == self.quarter_bytes(),
    {
        match self {
            KvQuant::FP32 => 32,
            KvQuant::FP16 => 16,
            KvQuant::Int8 => 8,
            KvQuant::Q6 => 6,
            KvQuant::Q5 => 5,
            KvQuant::Q4 => 4,
        }
    }

    pub fn label(self) -> (text: &'static str)
        ensures
            text@ == self.label_text(),
    {
        match self {
            KvQuant::FP32 => "FP32",
            KvQuant::FP16 => "FP16/BF16",
            KvQuant::Int8 => "INT8",
            KvQuant::Q6 => "Q6 (6-bit)",
            KvQuant::Q5 => "Q5 (5-bit)",
            KvQuant::Q4 => "Q4 (4-bit)",
        }
    }
}

/// The numbers that a double-precision number can hold exactly have no
/// more than 53 binary digits: they are below this limit, or such a number
/// times a power of two.
pub const SIGNIFICAND_LIMIT: u128 = 9_007_199_254_740_992;

/// `num / den` rounded to the nearest whole number, and to the even one
/// where two are equally near.
pub open spec fn nearest_even(num: nat, den: nat) -> nat {
    let below = num / den;
    let rest = num % den;
    if 2 * rest > den || (2 * rest == den && below % 2 == 1) {
        below + 1
    } else {
        below
    }
}

/// The least of `from`, `2 * from`, `4 * from`, ... of which `n` is less
/// than 2^53 times.
pub open spec fn doubled_above(n: nat, from: nat) -> nat
    decreases
            (if n >= SIGNIFICAND_LIMIT * from {
                n - SIGNIFICAND_LIMIT * from + 1
            } else {
                0
            }),
{
    if from == 0 || n < SIGNIFICAND_LIMIT * from {
        from
    } else {
        doubled_above(n, 2 * from)
    }
}

/// The greatest of `from`, `2 * from`, `4 * from`, ... with which `n`
/// multiplied stays below 2^53 times `den`; `from` itself where none does.
pub open spec fn doubled_below(n: nat, den: nat, from: nat) -> nat
    decreases
            (if n * from * 2 < SIGNIFICAND_LIMIT * den {
                SIGNIFICAND_LIMIT * den - n * from * 2
            } else {
                0
            }),
{
    if n == 0 || from == 0 || n * from * 2 >= SIGNIFICAND_LIMIT * den {
        from
    } else {
        proof {
            assert(n * (2 * from) * 2 > n * from * 2) by (nonlinear_arith)
                requires
                    n > 0,
                    from > 0,
            ;
        }
        doubled_below(n, den, 2 * from)
    }
}

/// The double-precision number nearest to `n`: `n` itself while it has no
/// more than 53 binary digits, else the nearest number that has.
pub open spec fn nearest_double(n: nat) -> nat {
    let unit = doubled_above(n, 1);
    nearest_even(n, unit) * unit
}

/// A size of `mb` megabytes in tenths of a gigabyte, as it is shown. The
/// size is taken as a double-precision number and divided by 1000 in double
/// precision: the quotient is a whole number of `unit`-ths with no more
/// than 53 binary digits, times `step`. That quotient is then rounded to
/// the nearest tenth, and to the even one where two are equally near.
pub open spec fn tenths_of_gb(mb: u64) -> nat {
    let size = nearest_double(mb as nat);
    let divisor = doubled_above(size, 1000);
    let unit = doubled_below(size, divisor, 1);
    let step = divisor / 1000;
    let quotient = nearest_even(size * unit, divisor);
    nearest_even(10 * quotient * step, unit)
}

/// How a size of `mb` megabytes is shown: in gigabytes with one decimal from
/// 1000 MB on, in megabytes below.
pub open spec fn memory_text(mb: u64) -> Seq<char> {
    if mb >= 1000 {
        decimal(tenths_of_gb(mb) / 10) + "."@ + decimal(tenths_of_gb(mb) % 10) + " GB"@
    } else {
        decimal(mb as nat) + " MB"@
    }
}

/// Rounds `num / den` to the nearest whole number, and to the even one
/// where two are equally near.
fn round_nearest_even(num: u128, den: u128) -> (r: u128)
    requires
        den > 0,
        den <= u128::MAX / 2,
        num < u128::MAX,
    ensures
        r == nearest_even(num as nat, den as nat),
        r <= num + 1,
        r <= num / den + 1,
{
    let below = num / den;
    let rest = num % den;
    assert(below <= num) by (nonlinear_arith)
        requires
            below == num / den,
            den > 0,
    ;
    if 2 * rest > den || (2 * rest == den && below % 2 == 1) {
        below + 1
    } else {
        below
    }
}

/// Computes a size of `mb` megabytes in tenths of a gigabyte, as it is
/// shown.
fn shown_tenths(mb: u64) -> (tenths: u128)
    ensures
        tenths == tenths_of_gb(mb),
{
    let n: u128 = mb as u128;
    let mut spacing: u128 = 1;
    while n >= SIGNIFICAND_LIMIT * spacing
        invariant
            1 <= spacing <= 4096,
            n == mb,
            doubled_above(n as nat, 1) == doubled_above(n as nat, spacing as nat),
        decreases 4096 - spacing,
    {
        spacing = spacing * 2;
    }
    let rounded = round_nearest_even(n, spacing);
    assert(rounded * spacing <= 0x1_0000_0000_0000_0000 * 4096) by (nonlinear_arith)
        requires
            rounded <= n + 1,
            n < 0x1_0000_0000_0000_0000,
            spacing <= 4096,
    ;
    let size: u128 = rounded * spacing;
    assert(size == nearest_double(mb as nat));
    let mut divisor: u128 = 1000;
    while size >= SIGNIFICAND_LIMIT * divisor
        invariant
            1000 <= divisor <= 0x1_0000_0000_0000,
            size <= 0x1_0000_0000_0000_0000 * 4096,
            doubled_above(size as nat, 1000) == doubled_above(size as nat, divisor as nat),
        decreases 0x1_0000_0000_0000 - divisor,
    {
        divisor = divisor * 2;
    }
    let mut unit: u128 = 1;
    assert(size * 1 == size) by (nonlinear_arith);
    while size != 0 && size * unit * 2 < SIGNIFICAND_LIMIT * divisor
        invariant
            unit >= 1,
            divisor <= 0x1_0000_0000_0000,
            size * unit < SIGNIFICAND_LIMIT * divisor,
            doubled_below(size as nat, divisor as nat, 1) == doubled_below(
                size as nat,
                divisor as nat,
                unit as nat,
            ),
        decreases SIGNIFICAND_LIMIT * divisor - size * unit,
    {
        assert(size * (unit * 2) == size * unit * 2 && size * unit * 2 > size * unit && unit * 2
            <= size * unit * 2) by (nonlinear_arith)
            requires
                size > 0,
                unit > 0,
        ;
        unit = unit * 2;
    }
    assert(unit <= size * unit || size == 0) by (nonlinear_arith)
        requires
            unit >= 1,
    ;
    let step = divisor / 1000;
    let scaled: u128 = size * unit;
    let quotient = round_nearest_even(scaled, divisor);
    assert(scaled / divisor < SIGNIFICAND_LIMIT) by (nonlinear_arith)
        requires
            scaled < SIGNIFICAND_LIMIT * divisor,
            divisor > 0,
    ;
    assert(10 * quotient * step <= 10 * 0x20_0000_0000_0000 * 0x1_0000_0000_0000)
        by (nonlinear_arith)
        requires
            quotient <= 0x20_0000_0000_0000,
            step <= 0x1_0000_0000_0000,
    ;
    round_nearest_even(10 * quotient * step, unit)
}

/// Appends the text of a size of `mb` megabytes to `out`.
fn push_memory(out: &mut String, mb: u64)
    ensures
        final(out)@ == old(out)@ + memory_text(mb),
{
    if mb >= 1000 {
        let tenths = shown_tenths(mb);
        push_decimal_wide(out, tenths / 10);
        out.append(".");
        push_decimal_wide(out, tenths % 10);
        out.append(" GB");
        assert(out@ == old(out)@ + memory_text(mb)) by {
            assert(old(out)@ + decimal((tenths / 10) as nat) + "."@ + decimal((tenths % 10) as nat)
                + " GB"@ =~= old(out)@ + (decimal((tenths / 10) as nat) + "."@ + decimal(
                (tenths % 10) as nat,
            ) + " GB"@));
        }
    } else {
        push_decimal(out, mb);
        out.append(" MB");
        assert(old(out)@ + decimal(mb as nat) + " MB"@ =~= old(out)@ + (decimal(mb as nat)
            + " MB"@));
    }
}

/// Shows a size of `mb` megabytes.
pub fn fmt_memory(mb: u64) -> (text: String)
    ensures
        text@ == memory_text(mb),
{
    let mut text = String::new();
    push_memory(&mut text, mb);
    assert(Seq::<char>::empty() + memory_text(mb) =~= memory_text(mb));
    text
}

/// The pattern that the stem of a shard's file name ends with: a dash, the
/// shard's number, `-of-`, and the number of shards.
pub const SHARD_PATTERN: &'static str = "-(\\d+)-of-(\\d+)$";

/// What capture group `group` holds in the first match of the regular
/// expression `pattern` in `text`: nothing where the pattern does not
/// compile, does not match, or matches without that group.
pub uninterp spec fn regex_capture(pattern: Seq<char>, text: Seq<char>, group: nat) -> Option<
    Seq<char>,
>;

/// `regex::Regex::new` compiles `pattern`, `Regex::captures` looks for its
/// leftmost match in `text`, and `Captures::get` hands out the text of one
/// group of that match. All three depend on their arguments alone.
#[verifier::external_body]
fn capture_group(pattern: &str, text: &str, group: usize) -> (r: Option<String>)
    ensures
        r is Some <==> regex_capture(pattern@, text@, group as nat) is Some,
        r matches Some(found) ==> regex_capture(pattern@, text@, group as nat) == Some(found@),
{
    match regex::Regex::new(pattern) {
        Ok(re) => match re.captures(text) {
            Some(caps) => match caps.get(group) {
                Some(found) => Some(found.as_str().to_string()),
                None => None,
            },
            None => None,
        },
        Err(_) => None,
    }
}

/// The last component of a path: what follows its last `/`.
pub open spec fn file_name(path: Seq<char>) -> Seq<char> {
    match last_index_of(path, '/') {
        Some(i) => path.skip(i + 1),
        None => path,
    }
}

/// A file name without its extension: what stands before its last `.`,
/// unless the name has none or only starts with one.
pub open spec fn file_stem(path: Seq<char>) -> Seq<char> {
    let name = file_name(path);
    match last_index_of(name, '.') {
        Some(i) => if i > 0 {
            name.take(i)
        } else {
            name
        },
        None => name,
    }
}

/// The number of shards that the captured text announces: the number it
/// writes, if it writes one greater than 1.
pub open spec fn shards_announced(capture: Option<Seq<char>>) -> Option<u32> {
    match capture {
        Some(text) => match parse_unsigned(text, u32::MAX as nat) {
            Some(n) => if n > 1 {
                Some(n as u32)
            } else {
                None
            },
            None => None,
        },
        None => None,
    }
}

/// Reads the number of shards from the text that the shard pattern captured
/// in a file name.
pub fn split_count_of_capture(capture: Option<&str>) -> (r: Option<u32>)
    ensures
        r == shards_announced(
            match capture {
                Some(text) => Some(text@),
                None => None,
            },
        ),
{
    match capture {
        Some(text) => {
            let chars = chars_of(text);
            assert(chars@.subrange(0, chars@.len() as int) == chars@);
            match parse_unsigned_range(chars.as_slice(), 0, chars.len(), 4_294_967_295) {
                Some(n) => if n > 1 {
                    Some(n as u32)
                } else {
                    None
                },
                None => None,
            }
        },
        None => None,
    }
}

/// The stem of the file that `path` names.
fn stem_of_path(path: &str) -> (stem: String)
    ensures
        stem@ == file_stem(path@),
{
    let chars = chars_of(path);
    let len = chars.len();
    assert(chars@.subrange(0, len as int) == chars@);
    let start = match find_last(chars.as_slice(), 0, len, '/') {
        Some(i) => i + 1,
        None => 0,
    };
    assert(chars@.subrange(start as int, len as int) =~= file_name(path@));
    let end = match find_last(chars.as_slice(), start, len, '.') {
        Some(i) => if i > 0 {
            start + i
        } else {
            len
        },
        None => len,
    };
    assert(chars@.subrange(start as int, end as int) =~= file_stem(path@));
    string_of(chars.as_slice(), start, end)
}

/// Infers the number of shards of a model from the name of one of its
/// files: the stem of a shard's name ends with the shard's number and the
/// number of shards, as in `-00001-of-00005`.
pub fn infer_split_count_from_path(path: &str) -> (r: Option<u32>)
    ensures
        r == shards_announced(regex_capture(SHARD_PATTERN@, file_stem(path@), 2)),
{
    let stem = stem_of_path(path);
    match capture_group(SHARD_PATTERN, stem.as_str(), 2) {
        Some(found) => split_count_of_capture(Some(found.as_str())),
        None => split_count_of_capture(None),
    }
}


/// What the estimator found out about a model.
#[derive(Debug, Clone, PartialEq, Eq)]
pub struct MemoryEstimation {
    /// Size of the model's files in megabytes, rounded down.
    pub model_size_mb: u64,
    /// Size of the key/value cache in megabytes, rounded down.
    pub kv_cache_mb: u64,
    /// Memory required in all, in megabytes.
    pub total_required_mb: u64,
    /// The three sizes and the quantisation in words.
    pub display: String,
    /// The quantisation that the key/value cache was estimated for.
    pub kv_quant: KvQuant,
}

/// A `MemoryEstimation` as a plain value.
pub struct Estimate {
    pub model_size_mb: u64,
    pub kv_cache_mb: u64,
    pub total_required_mb: u64,
    pub display: Seq<char>,
    pub kv_quant: KvQuant,
}

impl View for MemoryEstimation {
    type V = Estimate;

    open spec fn view(&self) -> Estimate {
        Estimate {
            model_size_mb: self.model_size_mb,
            kv_cache_mb: self.kv_cache_mb,
            total_required_mb: self.total_required_mb,
            display: self.display@,
            kv_quant: self.kv_quant,
        }
    }
}

/// The largest number of megabytes that can be reported; larger sizes are
/// reported as this one.
pub open spec fn capped(n: int) -> u64 {
    if n > u64::MAX {
        u64::MAX
    } else {
        n as u64
    }
}

/// The number of files that make up the model. The number in the file's
/// name decides where it is greater than 1; else the number in the metadata
/// where that is greater than 1; else the model is one file.
pub open spec fn shard_count(split_count: Option<u32>, name_shards: Option<u32>) -> nat {
    if name_shards is Some && name_shards->0 > 1 {
        name_shards->0 as nat
    } else if split_count is Some && split_count->0 > 1 {
        split_count->0 as nat
    } else {
        1
    }
}

/// Megabytes of weights: the size of one file times the number of files.
pub open spec fn model_megabytes(file_size: u64, shards: nat) -> u64 {
    (capped(file_size * shards) / 1_000_000) as u64
}

/// Megabytes of key/value cache: bytes per value times embedding width
/// times layers times context length, in megabytes, rounded down.
pub open spec fn kv_megabytes(
    hidden_size: u64,
    hidden_layers: u32,
    context_tokens: usize,
    kv_quant: KvQuant,
) -> u64 {
    capped((kv_quant.quarter_bytes() * hidden_size * hidden_layers * context_tokens) / 4_000_000)
}

/// The estimate in words.
pub open spec fn display_text(total: u64, model: u64, kv: u64, kv_quant: KvQuant) -> Seq<char> {
    memory_text(total) + " (Model: "@ + memory_text(model) + " + KV: "@ + memory_text(kv)
        + " @ "@ + kv_quant.label_text() + ")"@
}

/// The estimate for a model of the given shape.
pub open spec fn estimate_of(
    hidden_size: u64,
    hidden_layers: u32,
    split_count: Option<u32>,
    file_size: u64,
    name_shards: Option<u32>,
    context_tokens: usize,
    kv_quant: KvQuant,
) -> Estimate {
    let model = model_megabytes(file_size, shard_count(split_count, name_shards));
    let kv = kv_megabytes(hidden_size, hidden_layers, context_tokens, kv_quant);
    let total = capped(model + kv);
    Estimate {
        model_size_mb: model,
        kv_cache_mb: kv,
        total_required_mb: total,
        display: display_text(total, model, kv, kv_quant),
        kv_quant,
    }
}

/// The estimate for the model whose weight file starts with `header`.
pub open spec fn estimate_of_file(
    header: Seq<u8>,
    file_size: u64,
    name_shards: Option<u32>,
    context_tokens: usize,
    kv_quant: KvQuant,
) -> Result<Estimate, InvalidFormat> {
    match model_params_at(header, 0) {
        Ok(params) => Ok(
            estimate_of(
                params.hidden_size->0,
                params.hidden_layers->0,
                params.split_count,
                file_size,
                name_shards,
                context_tokens,
                kv_quant,
            ),
        ),
        Err(e) => Err(e),
    }
}

/// Whether `r` is what the estimator gives where `expected` is what it is
/// to find: the estimate itself, or the error.
pub open spec fn is_estimate(
    r: Result<Option<MemoryEstimation>, InvalidFormat>,
    expected: Result<Estimate, InvalidFormat>,
) -> bool {
    match expected {
        Ok(estimate) => r matches Ok(Some(est)) && est@ == estimate,
        Err(e) => r == Err::<Option<MemoryEstimation>, InvalidFormat>(e),
    }
}

/// The plain value of what the estimator gives.
pub open spec fn result_view(r: Result<Option<MemoryEstimation>, InvalidFormat>) -> Result<
    Option<Estimate>,
    InvalidFormat,
> {
    match r {
        Ok(Some(est)) => Ok(Some(est@)),
        Ok(None) => Ok(None),
        Err(e) => Err(e),
    }
}

/// The estimate depends on nothing but the header, the file's size and
/// name, the context length and the quantisation: two estimates of the same
/// are the same to the last digit.
pub proof fn lemma_estimate_is_determined(
    header: Seq<u8>,
    file_size: u64,
    path: Seq<char>,
    context_tokens: usize,
    kv_quant: KvQuant,
    first: Result<Option<MemoryEstimation>, InvalidFormat>,
    second: Result<Option<MemoryEstimation>, InvalidFormat>,
)
    requires
        is_estimate(
            first,
            estimate_of_file(
                header,
                file_size,
                shards_announced(regex_capture(SHARD_PATTERN@, file_stem(path), 2)),
                context_tokens,
                kv_quant,
            ),
        ),
        is_estimate(
            second,
            estimate_of_file(
                header,
                file_size,
                shards_announced(regex_capture(SHARD_PATTERN@, file_stem(path), 2)),
                context_tokens,
                kv_quant,
            ),
        ),
    ensures
        result_view(first) == result_view(second),
{
}

/// Computes the size of the key/value cache in megabytes.
pub fn kv_cache_mb(hidden_size: u64, hidden_layers: u32, context_tokens: usize, kv_quant: KvQuant) -> (mb:
    u64)
    ensures
        mb == kv_megabytes(hidden_size, hidden_layers, context_tokens, kv_quant),
{
    let q = kv_quant.quarter_bytes_per_value();
    assert(q * hidden_size <= 32 * 0xffff_ffff_ffff_ffff) by (nonlinear_arith)
        requires
            q <= 32,
            hidden_size <= 0xffff_ffff_ffff_ffff,
    ;
    let per_layer: u128 = q as u128 * hidden_size as u128;
    assert(per_layer * hidden_layers <= 32 * 0xffff_ffff_ffff_ffff * 0xffff_ffff)
        by (nonlinear_arith)
        requires
            per_layer <= 32 * 0xffff_ffff_ffff_ffff,
            hidden_layers <= 0xffff_ffff,
    ;
    let per_token: u128 = per_layer * hidden_layers as u128;
    assert(per_token * context_tokens == q * hidden_size * hidden_layers * context_tokens)
        by (nonlinear_arith)
        requires
            per_token == q * hidden_size * hidden_layers,
    ;
    match per_token.checked_mul(context_tokens as u128) {
        Some(quarters) => {
            let mb = quarters / 4_000_000;
            if mb > u64::MAX as u128 {
                u64::MAX
            } else {
                mb as u64
            }
        },
        None => {
            assert((per_token * context_tokens) / 4_000_000 > u64::MAX) by (nonlinear_arith)
                requires
                    per_token * context_tokens > u128::MAX,
            ;
            u64::MAX
        },
    }
}

/// Computes the estimate for a model of the given shape.
fn estimate(
    hidden_size: u64,
    hidden_layers: u32,
    split_count: Option<u32>,
    file_size: u64,
    name_shards: Option<u32>,
    context_tokens: usize,
    kv_quant: KvQuant,
) -> (est: MemoryEstimation)
    ensures
        est@ == estimate_of(
            hidden_size,
            hidden_layers,
            split_count,
            file_size,
            name_shards,
            context_tokens,
            kv_quant,
        ),
{
    let shards: u64 = match name_shards {
        Some(n) if n > 1 => n as u64,
        _ => match split_count {
            Some(n) if n > 1 => n as u64,
            _ => 1,
        },
    };
    assert(shards == shard_count(split_count, name_shards));
    let total_bytes = match file_size.checked_mul(shards) {
        Some(bytes) => bytes,
        None => u64::MAX,
    };
    let model_mb = total_bytes / 1_000_000;
    let kv_mb = kv_cache_mb(hidden_size, hidden_layers, context_tokens, kv_quant);
    let total_mb = match model_mb.checked_add(kv_mb) {
        Some(mb) => mb,
        None => u64::MAX,
    };
    let mut display = String::new();
    push_memory(&mut display, total_mb);
    display.append(" (Model: ");
    push_memory(&mut display, model_mb);
    display.append(" + KV: ");
    push_memory(&mut display, kv_mb);
    display.append(" @ ");
    display.append(kv_quant.label());
    display.append(")");
    assert(display@ =~= display_text(total_mb, model_mb, kv_mb, kv_quant));
    MemoryEstimation {
        model_size_mb: model_mb,
        kv_cache_mb: kv_mb,
        total_required_mb: total_mb,
        display,
        kv_quant,
    }
}

/// Estimates the memory that a model needs from the head of its weight
/// file, the size of that file, the number of shards that the file's name
/// announces, if any, the context length and the cache's quantisation.
///
/// The estimate is there whenever the header can be read.
pub fn estimate_with_shards(
    header: &[u8],
    file_size: u64,
    name_shards: Option<u32>,
    context_tokens: usize,
    kv_quant: KvQuant,
) -> (r: Result<Option<MemoryEstimation>, InvalidFormat>)
    ensures
        is_estimate(
            r,
            estimate_of_file(header@, file_size, name_shards, context_tokens, kv_quant),
        ),
{
    let mut src = ByteSource::new(header);
    let params = match read_model_params(&mut src) {
        Ok(params) => params,
        Err(e) => {
            return Err(e);
        },
    };
    match (params.hidden_size, params.hidden_layers) {
        (Some(hidden_size), Some(hidden_layers)) => Ok(
            Some(
                estimate(
                    hidden_size,
                    hidden_layers,
                    params.split_count,
                    file_size,
                    name_shards,
                    context_tokens,
                    kv_quant,
                ),
            ),
        ),
        _ => Err(InvalidFormat::MissingParameter),
    }
}

/// Estimates the memory that the model in the file at `path` needs, from
/// the head of the file and its size. Any head of the file will do that
/// does not end before the parameters are read: it gives what the whole
/// file gives.
pub fn estimate_memory(
    header: &[u8],
    file_size: u64,
    path: &str,
    context_tokens: usize,
    kv_quant: KvQuant,
) -> (r: Result<Option<MemoryEstimation>, InvalidFormat>)
    ensures
        is_estimate(
            r,
            estimate_of_file(
                header@,
                file_size,
                shards_announced(regex_capture(SHARD_PATTERN@, file_stem(path@), 2)),
                context_tokens,
                kv_quant,
            ),
        ),
{
    let name_shards = infer_split_count_from_path(path);
    estimate_with_shards(header, file_size, name_shards, context_tokens, kv_quant)
}

} // verus!
