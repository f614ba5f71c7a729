//! Errors of the RESP decoders, and `RedisType`: the RESP3 value kinds
//! read as raw byte fields, with the leftover input handed back.
use vstd::prelude::*;
use vstd::string::StringSliceAdditionalSpecFns;

use crate::consts::{CR, DOLLAR, LF, MINUS, PLUS, STAR};
use crate::parser::messages::{
    crlf, find_crlf, find_crlf_from, is_line_text, lemma_byte_at, lemma_digits_have_no_cr,
    lemma_find_crlf_bounds, lemma_header_line, lemma_split_at, RedisMessageType, RespValue,
};
use crate::parser::numbers::{
    digits_value, is_digit, lemma_nat_digits, nat_digits, parse_decimal_i64, parse_i64,
    parse_signed, push_decimal,
};
use crate::utils::bytes::{append, copy_bytes, copy_range, text};

verus! {

/// Why a byte string could not be decoded as a RESP message.
#[derive(Debug, Clone, Copy, PartialEq, Eq, Structural)]
pub enum RedisParseError {
    /// The frame is incomplete: more bytes are needed.
    NotEnoughBytes,
    /// A declared length is impossible or a CRLF is missing where one must stand.
    InvalidFormat,
    /// The first byte is not a type tag.
    InvalidStartingByte,
    /// There is no byte at all.
    NoStartingByte,
    /// A number in the frame is not a decimal integer that fits in 64 bits.
    InvalidNumber,
}

/// The name of an error, as it is written in replies.
pub open spec fn error_name(e: RedisParseError) -> Seq<u8> {
    match e {
        RedisParseError::NotEnoughBytes => "NotEnoughBytes".spec_bytes(),
        RedisParseError::InvalidFormat => "InvalidFormat".spec_bytes(),
        RedisParseError::InvalidStartingByte => "InvalidStartingByte".spec_bytes(),
        RedisParseError::NoStartingByte => "NoStartingByte".spec_bytes(),
        RedisParseError::InvalidNumber => "InvalidNumber".spec_bytes(),
    }
}

impl RedisParseError {
    fn name(&self) -> (r: &'static str)
        ensures
            r.spec_bytes() == error_name(*self),
    {
        match self {
            RedisParseError::NotEnoughBytes => "NotEnoughBytes",
            RedisParseError::InvalidFormat => "InvalidFormat",
            RedisParseError::InvalidStartingByte => "InvalidStartingByte",
            RedisParseError::NoStartingByte => "NoStartingByte",
            RedisParseError::InvalidNumber => "InvalidNumber",
        }
    }

    /// The error as an error reply: `An error occurred: <name>`.
    pub fn as_redis_type(&self) -> (r: RedisMessageType)
        ensures
            r@ == RespValue::Error("An error occurred: ".spec_bytes() + error_name(*self)),
    {
        let mut t = text("An error occurred: ");
        append(&mut t, self.name().as_bytes());
        RedisMessageType::Error(t)
    }

    /// The error as an error reply with more context:
    /// `An error occurred: <name> (<information>)`.
    pub fn as_redis_type_with_additional_information(&self, information: &str) -> (r: RedisMessageType)
        ensures
            r@ == RespValue::Error(
                "An error occurred: ".spec_bytes() + error_name(*self) + " (".spec_bytes()
                    + information.spec_bytes() + ")".spec_bytes(),
            ),
    {
        let mut t = text("An error occurred: ");
        append(&mut t, self.name().as_bytes());
        append(&mut t, " (".as_bytes());
        append(&mut t, information.as_bytes());
        append(&mut t, ")".as_bytes());
        RedisMessageType::Error(t)
    }
}

#[verifier::external_type_specification]
#[verifier::external_body]
pub struct ExParseIntError(std::num::ParseIntError);

/// A failed integer parse is an invalid number.
impl From<std::num::ParseIntError> for RedisParseError {
    fn from(_e: std::num::ParseIntError) -> (r: RedisParseError)
        ensures
            r == RedisParseError::InvalidNumber,
    {
        RedisParseError::InvalidNumber
    }
}

impl vstd::std_specs::convert::FromSpecImpl<std::num::ParseIntError> for RedisParseError {
    open spec fn obeys_from_spec() -> bool {
        true
    }

    open spec fn from_spec(v: std::num::ParseIntError) -> RedisParseError {
        RedisParseError::InvalidNumber
    }
}

pub const UNDERSCORE: u8 = 0x5f;
pub const HASH: u8 = 0x23;
pub const OPEN_PAREN: u8 = 0x28;
pub const GREATER: u8 = 0x3e;
pub const COLON_TAG: u8 = 0x3a;

/// A RESP3 value, its scalar fields kept as the raw bytes of their line.
#[derive(PartialEq, Debug)]
pub enum RedisType {
    Null,
    NullBulkString,
    Integer(Vec<u8>),
    Boolean(Vec<u8>),
    RDBFile(Vec<u8>),
    BigNumber(Vec<u8>),
    BulkString(Vec<u8>),
    SimpleError(Vec<u8>),
    SimpleString(Vec<u8>),
    Push(Vec<RedisType>),
    Array(Vec<RedisType>),
}

/// The value of a [`RedisType`].
pub enum Resp3Value {
    Null,
    NullBulkString,
    Integer(Seq<u8>),
    Boolean(Seq<u8>),
    RDBFile(Seq<u8>),
    BigNumber(Seq<u8>),
    BulkString(Seq<u8>),
    SimpleError(Seq<u8>),
    SimpleString(Seq<u8>),
    Push(Seq<Resp3Value>),
    Array(Seq<Resp3Value>),
}

pub open spec fn resp3_view(t: RedisType) -> Resp3Value
    decreases t,
{
    match t {
        RedisType::Null => Resp3Value::Null,
        RedisType::NullBulkString => Resp3Value::NullBulkString,
        RedisType::Integer(b) => Resp3Value::Integer(b@),
        RedisType::Boolean(b) => Resp3Value::Boolean(b@),
        RedisType::RDBFile(b) => Resp3Value::RDBFile(b@),
        RedisType::BigNumber(b) => Resp3Value::BigNumber(b@),
        RedisType::BulkString(b) => Resp3Value::BulkString(b@),
        RedisType::SimpleError(b) => Resp3Value::SimpleError(b@),
        RedisType::SimpleString(b) => Resp3Value::SimpleString(b@),
        RedisType::Push(xs) => Resp3Value::Push(
            Seq::new(
                xs@.len(),
                |i: int|
                    if 0 <= i < xs@.len() {
                        resp3_view(xs[i])
                    } else {
                        Resp3Value::Null
                    },
            ),
        ),
        RedisType::Array(xs) => Resp3Value::Array(
            Seq::new(
                xs@.len(),
                |i: int|
                    if 0 <= i < xs@.len() {
                        resp3_view(xs[i])
                    } else {
                        Resp3Value::Null
                    },
            ),
        ),
    }
}

impl View for RedisType {
    type V = Resp3Value;

    open spec fn view(&self) -> Resp3Value {
        resp3_view(*self)
    }
}

/// The value of a parse result: the value read and what is left.
pub type RedisParseResult = Result<(RedisType, Vec<u8>), RedisParseError>;

/// The line of `b` from `pos + 1` to the first CR LF, and where the rest
/// starts.
pub open spec fn spec_line(b: Seq<u8>, pos: int) -> Result<(Seq<u8>, int), RedisParseError> {
    match find_crlf(b, pos + 1) {
        None => Err(RedisParseError::NotEnoughBytes),
        Some(e) => Ok((b.subrange(pos + 1, e), e + 2)),
    }
}

/// A bulk string whose header line starts at `pos` (the tag byte is not
/// looked at). A length of `-1` is the null bulk string; other small
/// negative lengths are malformed.
pub open spec fn spec_bulk_at(b: Seq<u8>, pos: int) -> Result<(Resp3Value, int), RedisParseError> {
    match spec_line(b, pos) {
        Err(e) => Err(e),
        Ok((line, start)) => match parse_i64(line) {
            None => Err(RedisParseError::InvalidNumber),
            Some(n) => if n >= 0 {
                if start + n + 2 > b.len() {
                    Err(RedisParseError::NotEnoughBytes)
                } else if b[start + n] != CR || b[start + n + 1] != LF {
                    Err(RedisParseError::InvalidFormat)
                } else {
                    Ok((Resp3Value::BulkString(b.subrange(start, start + n)), start + n + 2))
                }
            } else if n == -1 {
                Ok((Resp3Value::NullBulkString, start))
            } else if n >= -128 {
                Err(RedisParseError::InvalidFormat)
            } else {
                Err(RedisParseError::InvalidNumber)
            },
        },
    }
}

/// A value of any kind at `pos`.
pub open spec fn spec_deserialize_at(b: Seq<u8>, pos: int) -> Result<(Resp3Value, int), RedisParseError>
    decreases b.len() - pos, 1int, 0int,
{
    if pos < 0 || pos >= b.len() {
        Err(RedisParseError::NoStartingByte)
    } else {
        let tag = b[pos];
        if tag == DOLLAR {
            spec_bulk_at(b, pos)
        } else if tag == STAR || tag == GREATER {
            spec_sequence_at(b, pos, tag == STAR)
        } else if tag == PLUS || tag == MINUS || tag == COLON_TAG || tag == UNDERSCORE || tag
            == HASH || tag == OPEN_PAREN {
            match spec_line(b, pos) {
                Err(e) => Err(e),
                Ok((line, next)) => if tag == PLUS {
                    Ok((Resp3Value::SimpleString(line), next))
                } else if tag == MINUS {
                    Ok((Resp3Value::SimpleError(line), next))
                } else if tag == OPEN_PAREN {
                    Ok((Resp3Value::BigNumber(line), next))
                } else if tag == COLON_TAG {
                    if parse_i64(line) is Some {
                        Ok((Resp3Value::Integer(line), next))
                    } else {
                        Err(RedisParseError::InvalidNumber)
                    }
                } else if tag == UNDERSCORE {
                    if line.len() == 0 && next == b.len() {
                        Ok((Resp3Value::Null, next))
                    } else {
                        Err(RedisParseError::InvalidFormat)
                    }
                } else if line == seq![0x74u8] || line == seq![0x66u8] {
                    Ok((Resp3Value::Boolean(line), next))
                } else {
                    Err(RedisParseError::InvalidFormat)
                },
            }
        } else {
            Err(RedisParseError::InvalidStartingByte)
        }
    }
}

/// An array (`is_array`) or a push whose header line starts at `pos` (the
/// tag byte is not looked at). A count that the input cannot hold is
/// malformed.
pub open spec fn spec_sequence_at(b: Seq<u8>, pos: int, is_array: bool) -> Result<(Resp3Value, int), RedisParseError>
    decreases b.len() - pos, 0int, 0int,
{
    if pos < 0 || pos >= b.len() {
        Err(RedisParseError::NoStartingByte)
    } else {
        match spec_line(b, pos) {
            Err(e) => Err(e),
            Ok((line, start)) => match parse_i64(line) {
                None => Err(RedisParseError::InvalidNumber),
                Some(n) => if n < 0 {
                    Err(RedisParseError::InvalidNumber)
                } else if n >= b.len() - pos {
                    Err(RedisParseError::InvalidFormat)
                } else {
                    proof {
                        lemma_find_crlf_bounds(b, pos + 1);
                    }
                    match spec_elements_at(b, start, n as nat, n as nat) {
                        Err(e) => Err(e),
                        Ok((xs, end)) => Ok(
                            (
                                if is_array {
                                    Resp3Value::Array(xs)
                                } else {
                                    Resp3Value::Push(xs)
                                },
                                end,
                            ),
                        ),
                    }
                },
            },
        }
    }
}

/// The last `left` of `count` elements, from `pos`. Input that runs out
/// before the last element is malformed.
pub open spec fn spec_elements_at(b: Seq<u8>, pos: int, left: nat, count: nat) -> Result<
    (Seq<Resp3Value>, int),
    RedisParseError,
>
    decreases b.len() - pos, 2int, left,
{
    if left == 0 {
        Ok((Seq::empty(), pos))
    } else {
        match spec_deserialize_at(b, pos) {
            Err(e) => Err(e),
            Ok((v, next)) => if next <= pos || next > b.len() {
                Err(RedisParseError::InvalidFormat)
            } else if next == b.len() && left > 1 {
                Err(RedisParseError::InvalidFormat)
            } else {
                match spec_elements_at(b, next, (left - 1) as nat, count) {
                    Err(e) => Err(e),
                    Ok((vs, end)) => Ok((seq![v] + vs, end)),
                }
            },
        }
    }
}

/// `r` is the executable form of `s`: the value and the rest of `b` from
/// where the value ends.
pub open spec fn parsed_as(r: RedisParseResult, s: Result<(Resp3Value, int), RedisParseError>, b: Seq<u8>) -> bool {
    match r {
        Ok((v, rest)) => s matches Ok((sv, end)) && v@ == sv && 0 <= end <= b.len() && rest@
            == b.subrange(end, b.len() as int),
        Err(e) => s == Err::<(Resp3Value, int), RedisParseError>(e),
    }
}

fn read_line(b: &[u8], pos: usize) -> (r: Result<(usize, usize), RedisParseError>)
    requires
        pos < b@.len(),
    ensures
        match spec_line(b@, pos as int) {
            Ok((line, next)) => r matches Ok((e, n)) && n == next && e + 2 == next && pos + 1 <= e && pos < next
                <= b@.len() && line == b@.subrange(pos + 1, e as int),
            Err(err) => r == Err::<(usize, usize), RedisParseError>(err),
        },
{
    if b.len() - pos < 3 {
        return Err(RedisParseError::NotEnoughBytes);
    }
    match find_crlf_from(b, pos + 1) {
        None => Err(RedisParseError::NotEnoughBytes),
        Some(e) => {
            proof {
                lemma_find_crlf_bounds(b@, pos + 1);
            }
            Ok((e, e + 2))
        },
    }
}

fn bulk_at(b: &[u8], pos: usize) -> (r: Result<(RedisType, usize), RedisParseError>)
    requires
        pos < b@.len(),
    ensures
        match r {
            Ok((v, end)) => spec_bulk_at(b@, pos as int) == Ok::<(Resp3Value, int), RedisParseError>(
                (v@, end as int),
            ) && pos < end <= b@.len(),
            Err(e) => spec_bulk_at(b@, pos as int) == Err::<(Resp3Value, int), RedisParseError>(e),
        },
{
    let (e, start) = match read_line(b, pos) {
        Err(err) => {
            return Err(err);
        },
        Ok(x) => x,
    };
    let n = match parse_decimal_i64(b, pos + 1, e) {
        None => {
            return Err(RedisParseError::InvalidNumber);
        },
        Some(n) => n,
    };
    if n >= 0 {
        if n as u64 as u128 + 2 > (b.len() - start) as u128 {
            return Err(RedisParseError::NotEnoughBytes);
        }
        let len = n as usize;
        if b[start + len] != CR || b[start + len + 1] != LF {
            return Err(RedisParseError::InvalidFormat);
        }
        Ok((RedisType::BulkString(copy_range(b, start, start + len)), start + len + 2))
    } else if n == -1 {
        Ok((RedisType::NullBulkString, start))
    } else if n >= -128 {
        Err(RedisParseError::InvalidFormat)
    } else {
        Err(RedisParseError::InvalidNumber)
    }
}

fn sequence_at(b: &[u8], pos: usize, is_array: bool) -> (r: Result<(RedisType, usize), RedisParseError>)
    requires
        pos < b@.len(),
    ensures
        match r {
            Ok((v, end)) => spec_sequence_at(b@, pos as int, is_array) == Ok::<(Resp3Value, int), RedisParseError>(
                (v@, end as int),
            ) && pos < end <= b@.len(),
            Err(e) => spec_sequence_at(b@, pos as int, is_array) == Err::<(Resp3Value, int), RedisParseError>(e),
        },
    decreases b@.len() - pos, 0int,
{
    let (e, start) = match read_line(b, pos) {
        Err(err) => {
            return Err(err);
        },
        Ok(x) => x,
    };
    let n = match parse_decimal_i64(b, pos + 1, e) {
        None => {
            return Err(RedisParseError::InvalidNumber);
        },
        Some(n) => n,
    };
    if n < 0 {
        return Err(RedisParseError::InvalidNumber);
    }
    if n as u64 as u128 >= (b.len() - pos) as u128 {
        return Err(RedisParseError::InvalidFormat);
    }
    let count = n as usize;
    let mut items: Vec<RedisType> = Vec::new();
    let mut p: usize = start;
    let mut left: usize = count;
    while left > 0
        invariant
            pos < p <= b@.len(),
            left <= count,
            spec_sequence_at(b@, pos as int, is_array) == (match spec_elements_at(b@, start as int, count as nat, count as nat) {
                Err(e) => Err(e),
                Ok((xs, end)) => Ok(
                    (
                        if is_array {
                            Resp3Value::Array(xs)
                        } else {
                            Resp3Value::Push(xs)
                        },
                        end,
                    ),
                ),
            }),
            spec_elements_at(b@, start as int, count as nat, count as nat) == (match spec_elements_at(
                b@,
                p as int,
                left as nat,
                count as nat,
            ) {
                Ok((vs, end)) => Ok((items@.map_values(|m: RedisType| m@) + vs, end)),
                Err(err) => Err(err),
            }),
        decreases left,
    {
        let (m, next) = match deserialize_at(b, p) {
            Err(err) => {
                return Err(err);
            },
            Ok(x) => x,
        };
        if next == b.len() && left > 1 {
            return Err(RedisParseError::InvalidFormat);
        }
        let ghost before = items@.map_values(|m: RedisType| m@);
        items.push(m);
        proof {
            assert(items@.map_values(|m: RedisType| m@) =~= before + seq![m@]);
            if let Ok((vs, end)) = spec_elements_at(b@, next as int, (left - 1) as nat, count as nat) {
                assert(before + (seq![m@] + vs) =~= (before + seq![m@]) + vs);
            }
        }
        p = next;
        left = left - 1;
    }
    let ghost views = items@.map_values(|m: RedisType| m@);
    assert(views + Seq::<Resp3Value>::empty() =~= views);
    let r = if is_array {
        RedisType::Array(items)
    } else {
        RedisType::Push(items)
    };
    assert(r@ == (if is_array {
        Resp3Value::Array(views)
    } else {
        Resp3Value::Push(views)
    })) by {
        if is_array {
            assert(r@->Array_0 =~= views);
        } else {
            assert(r@->Push_0 =~= views);
        }
    }
    Ok((r, p))
}

fn deserialize_at(b: &[u8], pos: usize) -> (r: Result<(RedisType, usize), RedisParseError>)
    ensures
        match r {
            Ok((v, end)) => spec_deserialize_at(b@, pos as int) == Ok::<(Resp3Value, int), RedisParseError>(
                (v@, end as int),
            ) && pos < end <= b@.len(),
            Err(e) => spec_deserialize_at(b@, pos as int) == Err::<(Resp3Value, int), RedisParseError>(e),
        },
    decreases b@.len() - pos, 1int,
{
    if pos >= b.len() {
        return Err(RedisParseError::NoStartingByte);
    }
    let tag = b[pos];
    if tag == DOLLAR {
        return bulk_at(b, pos);
    }
    if tag == STAR || tag == GREATER {
        return sequence_at(b, pos, tag == STAR);
    }
    if tag == PLUS || tag == MINUS || tag == COLON_TAG || tag == UNDERSCORE || tag == HASH || tag
        == OPEN_PAREN {
        let (e, next) = match read_line(b, pos) {
            Err(err) => {
                return Err(err);
            },
            Ok(x) => x,
        };
        let line = copy_range(b, pos + 1, e);
        if tag == PLUS {
            return Ok((RedisType::SimpleString(line), next));
        }
        if tag == MINUS {
            return Ok((RedisType::SimpleError(line), next));
        }
        if tag == OPEN_PAREN {
            return Ok((RedisType::BigNumber(line), next));
        }
        if tag == COLON_TAG {
            if parse_decimal_i64(b, pos + 1, e).is_some() {
                return Ok((RedisType::Integer(line), next));
            }
            return Err(RedisParseError::InvalidNumber);
        }
        if tag == UNDERSCORE {
            if line.len() == 0 && next == b.len() {
                return Ok((RedisType::Null, next));
            }
            return Err(RedisParseError::InvalidFormat);
        }
        if line.len() == 1 && (line[0] == 0x74 || line[0] == 0x66) {
            assert(line@ =~= seq![line@[0]]);
            return Ok((RedisType::Boolean(line), next));
        }
        proof {
            if line@ == seq![0x74u8] || line@ == seq![0x66u8] {
                assert(line@.len() == 1);
            }
        }
        return Err(RedisParseError::InvalidFormat);
    }
    Err(RedisParseError::InvalidStartingByte)
}

fn with_rest(data: &Vec<u8>, r: Result<(RedisType, usize), RedisParseError>) -> (out: RedisParseResult)
    requires
        r matches Ok((_, end)) ==> end <= data@.len(),
    ensures
        match r {
            Ok((v, end)) => out matches Ok((w, rest)) && w == v && rest@ == data@.subrange(
                end as int,
                data@.len() as int,
            ),
            Err(e) => out == Err::<(RedisType, Vec<u8>), RedisParseError>(e),
        },
{
    match r {
        Ok((v, end)) => Ok((v, copy_range(data.as_slice(), end, data.len()))),
        Err(e) => Err(e),
    }
}

/// Reads a bulk string whose header starts after the first byte of `data`
/// (that byte is not looked at), and hands back the rest.
pub fn parse_bulk_string(data: Vec<u8>) -> (r: RedisParseResult)
    requires
        data@.len() > 0,
    ensures
        parsed_as(r, spec_bulk_at(data@, 0), data@),
{
    let res = bulk_at(data.as_slice(), 0);
    with_rest(&data, res)
}

/// Reads an array whose header starts after the first byte of `data` (that
/// byte is not looked at), and hands back the rest.
pub fn parse_array(data: Vec<u8>) -> (r: RedisParseResult)
    requires
        data@.len() > 0,
    ensures
        parsed_as(r, spec_sequence_at(data@, 0, true), data@),
{
    let res = sequence_at(data.as_slice(), 0, true);
    with_rest(&data, res)
}

/// The bytes of `t` on the wire. An RDB file is sent as a bulk string
/// without the closing CR LF.
pub open spec fn spec_serialize(t: Resp3Value) -> Seq<u8>
    decreases t, 1int,
{
    let crlf = seq![CR, LF];
    match t {
        Resp3Value::Null => seq![UNDERSCORE] + crlf,
        Resp3Value::NullBulkString => seq![DOLLAR, MINUS, 0x31u8] + crlf,
        Resp3Value::SimpleString(d) => seq![PLUS] + d + crlf,
        Resp3Value::SimpleError(d) => seq![MINUS] + d + crlf,
        Resp3Value::Integer(d) => seq![COLON_TAG] + d + crlf,
        Resp3Value::Boolean(d) => seq![HASH] + d + crlf,
        Resp3Value::BigNumber(d) => seq![OPEN_PAREN] + d + crlf,
        Resp3Value::BulkString(d) => seq![DOLLAR] + nat_digits(d.len()) + crlf + d + crlf,
        Resp3Value::RDBFile(d) => seq![DOLLAR] + nat_digits(d.len()) + crlf + d,
        Resp3Value::Array(xs) => seq![STAR] + nat_digits(xs.len()) + crlf + serialized_elements(xs).flatten(),
        Resp3Value::Push(xs) => seq![GREATER] + nat_digits(xs.len()) + crlf + serialized_elements(xs).flatten(),
    }
}

/// The bytes of each of `xs`.
pub open spec fn serialized_elements(xs: Seq<Resp3Value>) -> Seq<Seq<u8>>
    decreases xs, 0int,
{
    Seq::new(
        xs.len(),
        |i: int|
            if 0 <= i < xs.len() {
                spec_serialize(xs[i])
            } else {
                Seq::empty()
            },
    )
}

/// A value that its encoding carries back: line fields without CR or LF,
/// integer fields that read as an `i64`, booleans `t` or `f`, and counts that
/// fit in an `i64`. A null and an RDB file are left out: a null reads back
/// only at the very end of the input, and an RDB file has no closing CR LF.
pub open spec fn resp3_well_formed(v: Resp3Value) -> bool
    decreases v,
{
    match v {
        Resp3Value::SimpleString(s) => is_line_text(s),
        Resp3Value::SimpleError(s) => is_line_text(s),
        Resp3Value::BigNumber(s) => is_line_text(s),
        Resp3Value::Integer(d) => parse_i64(d) is Some,
        Resp3Value::Boolean(d) => d == seq![0x74u8] || d == seq![0x66u8],
        Resp3Value::BulkString(d) => d.len() <= i64::MAX,
        Resp3Value::NullBulkString => true,
        Resp3Value::Array(xs) => xs.len() <= i64::MAX && forall|i: int|
            0 <= i < xs.len() ==> resp3_well_formed(#[trigger] xs[i]),
        Resp3Value::Push(xs) => xs.len() <= i64::MAX && forall|i: int|
            0 <= i < xs.len() ==> resp3_well_formed(#[trigger] xs[i]),
        _ => false,
    }
}

/// Text that reads as a signed decimal has no CR in it.
proof fn lemma_signed_text_has_no_cr(d: Seq<u8>)
    requires
        parse_signed(d) is Some,
    ensures
        forall|j: int| 0 <= j < d.len() ==> #[trigger] d[j] != CR,
{
    assert forall|j: int| 0 <= j < d.len() implies #[trigger] d[j] != CR by {
        if d[0] == MINUS || d[0] == PLUS {
            if j > 0 {
                assert(d[j] == d.drop_first()[j - 1]);
                assert(is_digit(d.drop_first()[j - 1]));
            }
        } else {
            assert(is_digit(d[j]));
        }
    }
}

proof fn lemma_line_text_has_no_cr(s: Seq<u8>)
    requires
        is_line_text(s),
    ensures
        forall|j: int| 0 <= j < s.len() ==> #[trigger] s[j] != CR,
{
    assert forall|j: int| 0 <= j < s.len() implies #[trigger] s[j] != CR by {
        assert(s[j] != CR && s[j] != LF);
    }
}

pub proof fn lemma_serialize_nonempty(v: Resp3Value)
    ensures
        spec_serialize(v).len() > 0,
{
}

/// The encodings of `xs[i..]` take at least one byte each.
proof fn lemma_elements_length(xs: Seq<Resp3Value>, i: int)
    requires
        0 <= i <= xs.len(),
    ensures
        serialized_elements(xs).subrange(i, xs.len() as int).flatten().len() >= xs.len() - i,
    decreases xs.len() - i,
{
    let encs = serialized_elements(xs);
    let all = encs.subrange(i, xs.len() as int);
    if i < xs.len() {
        lemma_elements_length(xs, i + 1);
        assert(all.drop_first() =~= encs.subrange(i + 1, xs.len() as int));
        lemma_serialize_nonempty(xs[i]);
    }
}

/// A well-formed value encoded at `pos` of `b` reads back as itself and ends
/// where its encoding ends.
pub proof fn lemma_deserialize_serialized(v: Resp3Value, b: Seq<u8>, pos: int)
    requires
        resp3_well_formed(v),
        0 <= pos,
        pos + spec_serialize(v).len() <= b.len(),
        b.subrange(pos, pos + spec_serialize(v).len()) == spec_serialize(v),
    ensures
        spec_deserialize_at(b, pos) == Ok::<(Resp3Value, int), RedisParseError>(
            (v, pos + spec_serialize(v).len()),
        ),
    decreases v, 1int,
{
    let enc = spec_serialize(v);
    match v {
        Resp3Value::SimpleString(d) => {
            lemma_line_text_has_no_cr(d);
            assert(enc =~= seq![PLUS] + d + crlf() + Seq::<u8>::empty());
            lemma_header_line(b, pos, PLUS, d, Seq::empty());
        },
        Resp3Value::SimpleError(d) => {
            lemma_line_text_has_no_cr(d);
            assert(enc =~= seq![MINUS] + d + crlf() + Seq::<u8>::empty());
            lemma_header_line(b, pos, MINUS, d, Seq::empty());
        },
        Resp3Value::BigNumber(d) => {
            lemma_line_text_has_no_cr(d);
            assert(enc =~= seq![OPEN_PAREN] + d + crlf() + Seq::<u8>::empty());
            lemma_header_line(b, pos, OPEN_PAREN, d, Seq::empty());
        },
        Resp3Value::Integer(d) => {
            lemma_signed_text_has_no_cr(d);
            assert(enc =~= seq![COLON_TAG] + d + crlf() + Seq::<u8>::empty());
            lemma_header_line(b, pos, COLON_TAG, d, Seq::empty());
        },
        Resp3Value::Boolean(d) => {
            assert(forall|j: int| 0 <= j < d.len() ==> #[trigger] d[j] != CR);
            assert(enc =~= seq![HASH] + d + crlf() + Seq::<u8>::empty());
            lemma_header_line(b, pos, HASH, d, Seq::empty());
        },
        Resp3Value::BulkString(data) => {
            let d = nat_digits(data.len());
            lemma_nat_digits(data.len());
            lemma_digits_have_no_cr(d);
            assert(parse_signed(d) == Some(data.len() as int)) by {
                assert(is_digit(d[0]));
            }
            let rest = data + crlf();
            assert(enc =~= seq![DOLLAR] + d + crlf() + rest);
            lemma_header_line(b, pos, DOLLAR, d, rest);
            let start = pos + 1 + d.len() + 2;
            lemma_split_at(b, start, data, crlf());
            lemma_byte_at(b, start, rest, data.len() as int);
            lemma_byte_at(b, start, rest, data.len() as int + 1);
        },
        Resp3Value::NullBulkString => {
            let d = seq![MINUS, 0x31u8];
            assert(enc =~= seq![DOLLAR] + d + crlf() + Seq::<u8>::empty());
            lemma_header_line(b, pos, DOLLAR, d, Seq::empty());
            assert(parse_signed(d) == Some(-1int)) by {
                let one = d.drop_first();
                assert(one =~= seq![0x31u8]);
                assert(one.drop_last() =~= Seq::<u8>::empty());
                assert(digits_value(one.drop_last()) == 0);
                assert(digits_value(one) == 1);
            }
        },
        Resp3Value::Array(xs) => {
            lemma_deserialize_sequence(xs, b, pos, true);
        },
        Resp3Value::Push(xs) => {
            lemma_deserialize_sequence(xs, b, pos, false);
        },
        _ => {},
    }
}

/// An array or push of well-formed values, encoded at `pos`, reads back.
proof fn lemma_deserialize_sequence(xs: Seq<Resp3Value>, b: Seq<u8>, pos: int, is_array: bool)
    requires
        xs.len() <= i64::MAX,
        forall|i: int| 0 <= i < xs.len() ==> resp3_well_formed(#[trigger] xs[i]),
        0 <= pos,
        pos + spec_serialize(if is_array { Resp3Value::Array(xs) } else { Resp3Value::Push(xs) }).len() <= b.len(),
        b.subrange(pos, pos + spec_serialize(if is_array { Resp3Value::Array(xs) } else { Resp3Value::Push(xs) }).len())
            == spec_serialize(if is_array { Resp3Value::Array(xs) } else { Resp3Value::Push(xs) }),
    ensures
        spec_deserialize_at(b, pos) == Ok::<(Resp3Value, int), RedisParseError>(
            (
                if is_array { Resp3Value::Array(xs) } else { Resp3Value::Push(xs) },
                pos + spec_serialize(if is_array { Resp3Value::Array(xs) } else { Resp3Value::Push(xs) }).len(),
            ),
        ),
    decreases xs, 2int,
{
    let v = if is_array { Resp3Value::Array(xs) } else { Resp3Value::Push(xs) };
    let tag = if is_array { STAR } else { GREATER };
    let enc = spec_serialize(v);
    let d = nat_digits(xs.len());
    lemma_nat_digits(xs.len());
    lemma_digits_have_no_cr(d);
    assert(parse_signed(d) == Some(xs.len() as int)) by {
        assert(is_digit(d[0]));
    }
    let encs = serialized_elements(xs);
    let rest = encs.flatten();
    assert(enc =~= seq![tag] + d + crlf() + rest);
    lemma_header_line(b, pos, tag, d, rest);
    let start = pos + 1 + d.len() + 2;
    assert(encs.subrange(0, xs.len() as int) =~= encs);
    lemma_elements_length(xs, 0);
    lemma_deserialize_serialized_elements(xs, 0, b, start);
    assert(xs.subrange(0, xs.len() as int) =~= xs);
}

/// The encodings of `xs[i..]`, one after the other at `p` of `b`, read back
/// as `xs[i..]` and end where they end.
proof fn lemma_deserialize_serialized_elements(xs: Seq<Resp3Value>, i: int, b: Seq<u8>, p: int)
    requires
        0 <= i <= xs.len(),
        forall|j: int| 0 <= j < xs.len() ==> resp3_well_formed(#[trigger] xs[j]),
        0 <= p,
        p + serialized_elements(xs).subrange(i, xs.len() as int).flatten().len() <= b.len(),
        b.subrange(p, p + serialized_elements(xs).subrange(i, xs.len() as int).flatten().len())
            == serialized_elements(xs).subrange(i, xs.len() as int).flatten(),
    ensures
        spec_elements_at(b, p, (xs.len() - i) as nat, xs.len() as nat) == Ok::<
            (Seq<Resp3Value>, int),
            RedisParseError,
        >(
            (
                xs.subrange(i, xs.len() as int),
                p + serialized_elements(xs).subrange(i, xs.len() as int).flatten().len(),
            ),
        ),
    decreases xs, 1int, xs.len() - i,
{
    let encs = serialized_elements(xs);
    let all = encs.subrange(i, xs.len() as int);
    if i == xs.len() {
        assert(all =~= Seq::<Seq<u8>>::empty());
        assert(xs.subrange(i, xs.len() as int) =~= Seq::<Resp3Value>::empty());
    } else {
        let e = spec_serialize(xs[i]);
        let later = encs.subrange(i + 1, xs.len() as int);
        assert(all.drop_first() =~= later);
        assert(all.first() == e);
        assert(all.flatten() == e + later.flatten());
        lemma_split_at(b, p, e, later.flatten());
        lemma_deserialize_serialized(xs[i], b, p);
        lemma_serialize_nonempty(xs[i]);
        lemma_elements_length(xs, i + 1);
        lemma_deserialize_serialized_elements(xs, i + 1, b, p + e.len());
        assert(seq![xs[i]] + xs.subrange(i + 1, xs.len() as int) =~= xs.subrange(
            i,
            xs.len() as int,
        ));
    }
}

/// Reading back the encoding of a well-formed value, followed by anything,
/// gives the value and the rest untouched.
pub proof fn lemma_resp3_round_trip(v: Resp3Value, t: Seq<u8>)
    requires
        resp3_well_formed(v),
    ensures
        spec_deserialize_at(spec_serialize(v) + t, 0) == Ok::<(Resp3Value, int), RedisParseError>(
            (v, spec_serialize(v).len() as int),
        ),
        (spec_serialize(v) + t).subrange(spec_serialize(v).len() as int, (spec_serialize(v) + t).len() as int)
            == t,
{
    let enc = spec_serialize(v);
    let b = enc + t;
    lemma_serialize_nonempty(v);
    assert(b.subrange(0, enc.len() as int) =~= enc);
    lemma_deserialize_serialized(v, b, 0);
    assert(b.subrange(enc.len() as int, b.len() as int) =~= t);
}

/// The request `*<n>` followed by each of `words` as a bulk string.
pub open spec fn bulk_array_bytes(words: Seq<Seq<u8>>) -> Seq<u8> {
    seq![STAR] + nat_digits(words.len()) + seq![CR, LF] + Seq::new(
        words.len(),
        |i: int| seq![DOLLAR] + nat_digits(words[i].len()) + seq![CR, LF] + words[i] + seq![CR, LF],
    ).flatten()
}

/// `words` joined by LF, with a final LF.
pub open spec fn lines_text(words: Seq<Seq<u8>>) -> Seq<u8> {
    Seq::new(words.len(), |i: int| words[i] + seq![LF]).flatten()
}

/// The UTF-8 bytes of each of `data`.
pub open spec fn str_bytes(data: Seq<&str>) -> Seq<Seq<u8>> {
    data.map_values(|s: &str| s.spec_bytes())
}

fn push_tagged_line(out: &mut Vec<u8>, tag: u8, d: &Vec<u8>)
    ensures
        final(out)@ == old(out)@ + seq![tag] + d@ + seq![CR, LF],
{
    out.push(tag);
    append(out, d.as_slice());
    out.push(CR);
    out.push(LF);
    assert(final(out)@ =~= old(out)@ + seq![tag] + d@ + seq![CR, LF]);
}

fn push_header(out: &mut Vec<u8>, tag: u8, n: usize)
    ensures
        final(out)@ == old(out)@ + seq![tag] + nat_digits(n as nat) + seq![CR, LF],
{
    out.push(tag);
    push_decimal(out, n as u64);
    out.push(CR);
    out.push(LF);
    assert(final(out)@ =~= old(out)@ + seq![tag] + nat_digits(n as nat) + seq![CR, LF]);
}

impl RedisType {
    /// Appends the bytes of `self` on the wire.
    pub fn serilize(&self, writer: &mut Vec<u8>)
        ensures
            final(writer)@ == old(writer)@ + spec_serialize(self@),
        decreases self,
    {
        match self {
            RedisType::Null => {
                writer.push(UNDERSCORE);
                writer.push(CR);
                writer.push(LF);
            },
            RedisType::NullBulkString => {
                writer.push(DOLLAR);
                writer.push(MINUS);
                writer.push(0x31);
                writer.push(CR);
                writer.push(LF);
            },
            RedisType::SimpleString(d) => push_tagged_line(writer, PLUS, d),
            RedisType::SimpleError(d) => push_tagged_line(writer, MINUS, d),
            RedisType::Integer(d) => push_tagged_line(writer, COLON_TAG, d),
            RedisType::Boolean(d) => push_tagged_line(writer, HASH, d),
            RedisType::BigNumber(d) => push_tagged_line(writer, OPEN_PAREN, d),
            RedisType::BulkString(d) => {
                push_header(writer, DOLLAR, d.len());
                append(writer, d.as_slice());
                writer.push(CR);
                writer.push(LF);
            },
            RedisType::RDBFile(d) => {
                push_header(writer, DOLLAR, d.len());
                append(writer, d.as_slice());
            },
            RedisType::Array(xs) | RedisType::Push(xs) => {
                let tag = if let RedisType::Array(_) = self {
                    STAR
                } else {
                    GREATER
                };
                push_header(writer, tag, xs.len());
                let ghost header = writer@;
                let ghost vs = match self@ {
                    Resp3Value::Array(vs) => vs,
                    Resp3Value::Push(vs) => vs,
                    _ => Seq::empty(),
                };
                let ghost encs = serialized_elements(vs);
                let mut i: usize = 0;
                while i < xs.len()
                    invariant
                        *self == RedisType::Array(*xs) || *self == RedisType::Push(*xs),
                        i <= xs@.len(),
                        vs.len() == xs@.len(),
                        forall|j: int| 0 <= j < xs@.len() ==> #[trigger] vs[j] == xs@[j]@,
                        encs.len() == vs.len(),
                        forall|j: int| 0 <= j < vs.len() ==> #[trigger] encs[j] == spec_serialize(vs[j]),
                        writer@ == header + encs.subrange(0, i as int).flatten(),
                    decreases xs.len() - i,
                {
                    proof {
                        if *self == RedisType::Array(*xs) {
                            assert(decreases_to!(*self => (*self)->Array_0));
                        } else {
                            assert(decreases_to!(*self => (*self)->Push_0));
                        }
                        assert(decreases_to!(*xs => xs[i as int]));
                    }
                    xs[i].serilize(writer);
                    proof {
                        assert(encs.subrange(0, i + 1) =~= encs.subrange(0, i as int).push(encs[i as int]));
                        encs.subrange(0, i as int).lemma_flatten_push(encs[i as int]);
                    }
                    i = i + 1;
                }
                assert(encs.subrange(0, i as int) =~= encs);
            },
        }
        assert(final(writer)@ =~= old(writer)@ + spec_serialize(self@));
    }

    /// Builds the array of bulk strings `data` and reads it back.
    pub fn array_bulk_string_from_vec_str(data: Vec<&str>) -> (r: RedisParseResult)
        ensures
            parsed_as(r, spec_deserialize_at(bulk_array_bytes(str_bytes(data@)), 0), bulk_array_bytes(
                str_bytes(data@),
            )),
    {
        let ghost words = str_bytes(data@);
        let ghost parts = Seq::new(
            words.len(),
            |i: int| seq![DOLLAR] + nat_digits(words[i].len()) + seq![CR, LF] + words[i] + seq![CR, LF],
        );
        let mut raw_bytes: Vec<u8> = Vec::new();
        push_header(&mut raw_bytes, STAR, data.len());
        let ghost header = raw_bytes@;
        let mut i: usize = 0;
        while i < data.len()
            invariant
                i <= data@.len(),
                words == str_bytes(data@),
                parts.len() == data@.len(),
                forall|j: int| 0 <= j < parts.len() ==> #[trigger] parts[j] == seq![DOLLAR] + nat_digits(words[j].len()) + seq![CR, LF] + words[j] + seq![CR, LF],
                raw_bytes@ == header + parts.subrange(0, i as int).flatten(),
            decreases data.len() - i,
        {
            let element = data[i].as_bytes();
            let ghost before = raw_bytes@;
            push_header(&mut raw_bytes, DOLLAR, element.len());
            append(&mut raw_bytes, element);
            raw_bytes.push(CR);
            raw_bytes.push(LF);
            proof {
                assert(words[i as int] == element@);
                assert(raw_bytes@ =~= before + parts[i as int]);
                assert(parts.subrange(0, i + 1) =~= parts.subrange(0, i as int).push(parts[i as int]));
                parts.subrange(0, i as int).lemma_flatten_push(parts[i as int]);
            }
            i = i + 1;
        }
        assert(parts.subrange(0, i as int) =~= parts);
        assert(raw_bytes@ =~= bulk_array_bytes(words));
        Self::from_vec_u8(raw_bytes)
    }

    /// Joins `data` by LF, with a final LF, and reads that back as one bulk
    /// string.
    pub fn bulk_string_from_vec_str(data: Vec<&str>) -> (r: RedisParseResult)
        ensures
            ({
                let text = lines_text(str_bytes(data@));
                let raw = seq![DOLLAR] + nat_digits(text.len()) + seq![CR, LF] + text + seq![CR, LF];
                parsed_as(r, spec_deserialize_at(raw, 0), raw)
            }),
    {
        let ghost words = str_bytes(data@);
        let ghost parts = Seq::new(words.len(), |i: int| words[i] + seq![LF]);
        let mut concated: Vec<u8> = Vec::new();
        let mut i: usize = 0;
        while i < data.len()
            invariant
                i <= data@.len(),
                words == str_bytes(data@),
                parts.len() == data@.len(),
                forall|j: int| 0 <= j < parts.len() ==> #[trigger] parts[j] == words[j] + seq![LF],
                concated@ == parts.subrange(0, i as int).flatten(),
            decreases data.len() - i,
        {
            let ghost before = concated@;
            append(&mut concated, data[i].as_bytes());
            concated.push(LF);
            proof {
                assert(concated@ =~= before + parts[i as int]);
                assert(parts.subrange(0, i + 1) =~= parts.subrange(0, i as int).push(parts[i as int]));
                parts.subrange(0, i as int).lemma_flatten_push(parts[i as int]);
            }
            i = i + 1;
        }
        assert(parts.subrange(0, i as int) =~= parts);
        let mut raw: Vec<u8> = Vec::new();
        push_header(&mut raw, DOLLAR, concated.len());
        append(&mut raw, concated.as_slice());
        raw.push(CR);
        raw.push(LF);
        assert(raw@ =~= seq![DOLLAR] + nat_digits(concated@.len()) + seq![CR, LF] + concated@ + seq![CR, LF]);
        Self::from_vec_u8(raw)
    }

    /// Reads one value at the start of `data` and hands back the rest.
    pub fn deserilize(data: Vec<u8>) -> (r: RedisParseResult)
        ensures
            parsed_as(r, spec_deserialize_at(data@, 0), data@),
    {
        let res = deserialize_at(data.as_slice(), 0);
        with_rest(&data, res)
    }

    pub fn from_vec_u8(data: Vec<u8>) -> (r: RedisParseResult)
        ensures
            parsed_as(r, spec_deserialize_at(data@, 0), data@),
    {
        Self::deserilize(data)
    }

    pub fn from_str(data: &str) -> (r: RedisParseResult)
        ensures
            parsed_as(r, spec_deserialize_at(data.spec_bytes(), 0), data.spec_bytes()),
    {
        Self::deserilize(copy_bytes(data.as_bytes()))
    }

    /// An error value holding the bytes of `data`.
    pub fn simple_error_from_string(data: String) -> (r: RedisType)
        ensures
            r@ == Resp3Value::SimpleError(vstd::utf8::encode_utf8(data@)),
    {
        RedisType::SimpleError(copy_bytes(data.as_str().as_bytes()))
    }
}

/// The value of a hexadecimal digit.
pub open spec fn hex_digit_value(c: u8) -> u8 {
    if 0x41 <= c <= 0x46 {
        (c - 0x41 + 10) as u8
    } else if 0x61 <= c <= 0x66 {
        (c - 0x61 + 10) as u8
    } else {
        (c - 0x30) as u8
    }
}

pub open spec fn is_hex_digit(c: u8) -> bool {
    (0x41 <= c <= 0x46) || (0x61 <= c <= 0x66) || (0x30 <= c <= 0x39)
}

fn hex_val(c: u8) -> (r: u8)
    requires
        is_hex_digit(c),
    ensures
        r == hex_digit_value(c),
        r < 16,
{
    if 0x41 <= c && c <= 0x46 {
        c - 0x41 + 10
    } else if 0x61 <= c && c <= 0x66 {
        c - 0x61 + 10
    } else {
        c - 0x30
    }
}

/// The bytes that pairs of hexadecimal digits spell; a last odd digit is
/// left out.
pub fn decode_hex(hex: &str) -> (r: Vec<u8>)
    requires
        forall|i: int| 0 <= i < hex.spec_bytes().len() / 2 * 2 ==> is_hex_digit(#[trigger] hex.spec_bytes()[i]),
    ensures
        r@.len() == hex.spec_bytes().len() / 2,
        forall|i: int| 0 <= i < r@.len() ==> #[trigger] r@[i] == hex_digit_value(hex.spec_bytes()[2 * i]) * 16
            + hex_digit_value(hex.spec_bytes()[2 * i + 1]),
{
    let b = hex.as_bytes();
    let mut out: Vec<u8> = Vec::new();
    let mut i: usize = 0;
    while i + 1 < b.len()
        invariant
            b@ == hex.spec_bytes(),
            i % 2 == 0,
            i <= b@.len(),
            out@.len() == i / 2,
            forall|j: int| 0 <= j < b@.len() / 2 * 2 ==> is_hex_digit(#[trigger] b@[j]),
            forall|j: int| 0 <= j < out@.len() ==> #[trigger] out@[j] == hex_digit_value(b@[2 * j]) * 16
                + hex_digit_value(b@[2 * j + 1]),
        decreases b.len() - i,
    {
        assert(i + 1 < b@.len() / 2 * 2) by {
            assert(i % 2 == 0);
        }
        let high = hex_val(b[i]);
        let low = hex_val(b[i + 1]);
        out.push(high * 16 + low);
        i = i + 2;
    }
    out
}

} // verus!
