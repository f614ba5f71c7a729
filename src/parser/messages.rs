//! The RESP wire codec: messages, their byte encoding, and the decoder.
use vstd::prelude::*;

use crate::consts::{COLON, CR, DOLLAR, LF, MINUS, PLUS, STAR};
use crate::parser::numbers::{
    all_digits, int_digits, lemma_int_digits_parse, lemma_nat_digits, nat_digits, parse_decimal_i64,
    parse_i64, parse_signed, push_decimal, push_signed_decimal,
};
use crate::parser::parse::RedisParseError;
use crate::utils::bytes::{append, copy_range};

verus! {

broadcast use vstd::std_specs::vec::axiom_vec_index_decreases, Seq::lemma_flatten_push;

/// The value a RESP message stands for.
pub enum RespValue {
    SimpleString(Seq<u8>),
    Error(Seq<u8>),
    Integer(int),
    BulkString(Seq<u8>),
    NullBulkString,
    Array(Seq<RespValue>),
}

/// A RESP message.
#[derive(Debug, PartialEq, Eq)]
pub enum RedisMessageType {
    SimpleString(Vec<u8>),
    Error(Vec<u8>),
    Integer(i64),
    BulkString(Vec<u8>),
    NullBulkString,
    Array(Vec<RedisMessageType>),
}

pub open spec fn message_view(m: RedisMessageType) -> RespValue
    decreases m,
{
    match m {
        RedisMessageType::SimpleString(s) => RespValue::SimpleString(s@),
        RedisMessageType::Error(s) => RespValue::Error(s@),
        RedisMessageType::Integer(n) => RespValue::Integer(n as int),
        RedisMessageType::BulkString(b) => RespValue::BulkString(b@),
        RedisMessageType::NullBulkString => RespValue::NullBulkString,
        RedisMessageType::Array(xs) => RespValue::Array(
            Seq::new(
                xs@.len(),
                |i: int|
                    if 0 <= i < xs@.len() {
                        message_view(xs[i])
                    } else {
                        RespValue::NullBulkString
                    },
            ),
        ),
    }
}

impl View for RedisMessageType {
    type V = RespValue;

    open spec fn view(&self) -> RespValue {
        message_view(*self)
    }
}

pub open spec fn crlf() -> Seq<u8> {
    seq![CR, LF]
}

/// Text that a simple string or an error can carry: no CR and no LF.
pub open spec fn is_line_text(s: Seq<u8>) -> bool {
    forall|i: int| 0 <= i < s.len() ==> #[trigger] s[i] != CR && s[i] != LF
}

/// A message that the encoding can carry: line text in simple strings and
/// errors, 64-bit integers, and lengths that fit in an `i64`.
pub open spec fn well_formed(v: RespValue) -> bool
    decreases v,
{
    match v {
        RespValue::SimpleString(s) => is_line_text(s),
        RespValue::Error(s) => is_line_text(s),
        RespValue::Integer(n) => i64::MIN <= n <= i64::MAX,
        RespValue::BulkString(b) => b.len() <= i64::MAX,
        RespValue::NullBulkString => true,
        RespValue::Array(xs) => xs.len() <= i64::MAX && forall|i: int|
            0 <= i < xs.len() ==> well_formed(#[trigger] xs[i]),
    }
}

/// The bytes of a message on the wire.
pub open spec fn spec_encode(v: RespValue) -> Seq<u8>
    decreases v, 1int,
{
    match v {
        RespValue::SimpleString(s) => seq![PLUS] + s + crlf(),
        RespValue::Error(s) => seq![MINUS] + s + crlf(),
        RespValue::Integer(n) => seq![COLON] + int_digits(n) + crlf(),
        RespValue::BulkString(b) => seq![DOLLAR] + nat_digits(b.len()) + crlf() + b + crlf(),
        RespValue::NullBulkString => seq![DOLLAR, MINUS, 49u8] + crlf(),
        RespValue::Array(xs) => seq![STAR] + nat_digits(xs.len()) + crlf() + element_encodings(
            xs,
        ).flatten(),
    }
}

/// The encoding of each of `xs`.
pub open spec fn element_encodings(xs: Seq<RespValue>) -> Seq<Seq<u8>>
    decreases xs, 0int,
{
    Seq::new(
        xs.len(),
        |i: int|
            if 0 <= i < xs.len() {
                spec_encode(xs[i])
            } else {
                Seq::empty()
            },
    )
}

/// The position of the first CR LF pair that starts at `i` or later.
pub open spec fn find_crlf(b: Seq<u8>, i: int) -> Option<int>
    decreases b.len() - i,
{
    if i < 0 || i + 1 >= b.len() {
        None
    } else if b[i] == CR && b[i + 1] == LF {
        Some(i)
    } else {
        find_crlf(b, i + 1)
    }
}

pub proof fn lemma_find_crlf_bounds(b: Seq<u8>, i: int)
    ensures
        find_crlf(b, i) matches Some(e) ==> i <= e && e + 1 < b.len() && b[e] == CR && b[e + 1]
            == LF,
    decreases b.len() - i,
{
    if !(i < 0 || i + 1 >= b.len()) && !(b[i] == CR && b[i + 1] == LF) {
        lemma_find_crlf_bounds(b, i + 1);
    }
}

/// A CR LF at `k`, with no CR in `b[i..k]`, is the first one from `i`.
pub proof fn lemma_find_crlf_at(b: Seq<u8>, i: int, k: int)
    requires
        0 <= i <= k,
        k + 1 < b.len(),
        b[k] == CR,
        b[k + 1] == LF,
        forall|j: int| i <= j < k ==> #[trigger] b[j] != CR,
    ensures
        find_crlf(b, i) == Some(k),
    decreases k - i,
{
    if i < k {
        lemma_find_crlf_at(b, i + 1, k);
    }
}

pub open spec fn is_type_tag(c: u8) -> bool {
    c == PLUS || c == MINUS || c == COLON || c == DOLLAR || c == STAR
}

/// Decodes one message that starts at `pos`: the message and the position
/// just past it.
pub open spec fn decode_at(b: Seq<u8>, pos: int) -> Result<(RespValue, int), RedisParseError>
    decreases b.len() - pos, 0int, 0int,
{
    if pos < 0 || pos >= b.len() {
        Err(RedisParseError::NotEnoughBytes)
    } else if !is_type_tag(b[pos]) {
        Err(RedisParseError::InvalidStartingByte)
    } else {
        let tag = b[pos];
        match find_crlf(b, pos + 1) {
            None => Err(RedisParseError::NotEnoughBytes),
            Some(e) => {
                let line = b.subrange(pos + 1, e);
                if tag == PLUS {
                    Ok((RespValue::SimpleString(line), e + 2))
                } else if tag == MINUS {
                    Ok((RespValue::Error(line), e + 2))
                } else {
                    match parse_i64(line) {
                        None => Err(RedisParseError::InvalidNumber),
                        Some(n) => {
                            if tag == COLON {
                                Ok((RespValue::Integer(n as int), e + 2))
                            } else if tag == DOLLAR {
                                let start = e + 2;
                                if n == -1 {
                                    Ok((RespValue::NullBulkString, e + 2))
                                } else if n < 0 {
                                    Err(RedisParseError::InvalidFormat)
                                } else if start + n + 2 > b.len() {
                                    Err(RedisParseError::NotEnoughBytes)
                                } else if b[start + n] != CR || b[start + n + 1] != LF {
                                    Err(RedisParseError::InvalidFormat)
                                } else {
                                    Ok(
                                        (
                                            RespValue::BulkString(b.subrange(start, start + n)),
                                            start + n + 2,
                                        ),
                                    )
                                }
                            } else if n < 0 {
                                Err(RedisParseError::InvalidFormat)
                            } else {
                                proof {
                                    lemma_find_crlf_bounds(b, pos + 1);
                                }
                                match decode_elements(b, e + 2, n as nat) {
                                    Ok((xs, end)) => Ok((RespValue::Array(xs), end)),
                                    Err(err) => Err(err),
                                }
                            }
                        },
                    }
                }
            },
        }
    }
}

/// Decodes `count` messages one after the other from `pos`.
pub open spec fn decode_elements(b: Seq<u8>, pos: int, count: nat) -> Result<
    (Seq<RespValue>, int),
    RedisParseError,
>
    decreases b.len() - pos, 1int, count,
{
    if count == 0 {
        Ok((Seq::empty(), pos))
    } else {
        match decode_at(b, pos) {
            Err(err) => Err(err),
            Ok((v, next)) => {
                // Every message takes at least one byte; this guard keeps the
                // definition obviously well-founded.
                if next <= pos || next > b.len() {
                    Err(RedisParseError::InvalidFormat)
                } else {
                    match decode_elements(b, next, (count - 1) as nat) {
                        Err(err) => Err(err),
                        Ok((vs, end)) => Ok((seq![v] + vs, end)),
                    }
                }
            },
        }
    }
}

/// Decodes the message at the start of `b`: the message and the number of
/// bytes it takes.
pub open spec fn spec_decode(b: Seq<u8>) -> Result<(RespValue, int), RedisParseError> {
    if b.len() == 0 {
        Err(RedisParseError::NoStartingByte)
    } else {
        decode_at(b, 0)
    }
}

/// `r` is the executable form of the spec result `s`.
pub open spec fn decoded_as(
    r: Result<(RedisMessageType, usize), RedisParseError>,
    s: Result<(RespValue, int), RedisParseError>,
) -> bool {
    match r {
        Ok((m, n)) => s == Ok::<(RespValue, int), RedisParseError>((m@, n as int)),
        Err(e) => s == Err::<(RespValue, int), RedisParseError>(e),
    }
}

/// `b` holds `enc` at `pos`: byte `j` of `enc` is byte `pos + j` of `b`.
pub proof fn lemma_byte_at(b: Seq<u8>, pos: int, enc: Seq<u8>, j: int)
    requires
        0 <= pos,
        pos + enc.len() <= b.len(),
        b.subrange(pos, pos + enc.len()) == enc,
        0 <= j < enc.len(),
    ensures
        b[pos + j] == enc[j],
{
    assert(b.subrange(pos, pos + enc.len())[j] == b[pos + j]);
}

/// `b` holds `x + y` at `pos`: it holds `x` there and `y` right after.
pub proof fn lemma_split_at(b: Seq<u8>, pos: int, x: Seq<u8>, y: Seq<u8>)
    requires
        0 <= pos,
        pos + x.len() + y.len() <= b.len(),
        b.subrange(pos, pos + x.len() + y.len()) == x + y,
    ensures
        b.subrange(pos, pos + x.len()) == x,
        b.subrange(pos + x.len(), pos + x.len() + y.len()) == y,
{
    assert forall|j: int| 0 <= j < x.len() implies #[trigger] b.subrange(pos, pos + x.len())[j]
        == x[j] by {
        lemma_byte_at(b, pos, x + y, j);
    }
    assert forall|j: int| 0 <= j < y.len() implies #[trigger] b.subrange(
        pos + x.len(),
        pos + x.len() + y.len(),
    )[j] == y[j] by {
        lemma_byte_at(b, pos, x + y, x.len() + j);
    }
    assert(b.subrange(pos, pos + x.len()) =~= x);
    assert(b.subrange(pos + x.len(), pos + x.len() + y.len()) =~= y);
}

/// A decimal spelling has no CR in it.
pub proof fn lemma_digits_have_no_cr(d: Seq<u8>)
    requires
        all_digits(d),
    ensures
        forall|j: int| 0 <= j < d.len() ==> #[trigger] d[j] != CR,
{
    assert forall|j: int| 0 <= j < d.len() implies #[trigger] d[j] != CR by {
        assert(crate::parser::numbers::is_digit(d[j]));
    }
}

/// Decoding a header `tag`, text `d` and CR LF at `pos`: the line is found
/// and is `d`.
pub proof fn lemma_header_line(b: Seq<u8>, pos: int, tag: u8, d: Seq<u8>, rest: Seq<u8>)
    requires
        0 <= pos,
        forall|j: int| 0 <= j < d.len() ==> #[trigger] d[j] != CR,
        pos + 1 + d.len() + 2 + rest.len() <= b.len(),
        b.subrange(pos, pos + 1 + d.len() + 2 + rest.len()) == seq![tag] + d + crlf() + rest,
    ensures
        b[pos] == tag,
        find_crlf(b, pos + 1) == Some(pos + 1 + d.len()),
        b.subrange(pos + 1, pos + 1 + d.len()) == d,
        b.subrange(pos + 1 + d.len() + 2, pos + 1 + d.len() + 2 + rest.len()) == rest,
{
    let enc = seq![tag] + d + crlf() + rest;
    let k = pos + 1 + d.len();
    lemma_byte_at(b, pos, enc, 0);
    lemma_byte_at(b, pos, enc, 1 + d.len() as int);
    lemma_byte_at(b, pos, enc, 2 + d.len() as int);
    assert forall|j: int| pos + 1 <= j < k implies #[trigger] b[j] != CR by {
        lemma_byte_at(b, pos, enc, j - pos);
        assert(enc[j - pos] == d[j - pos - 1]);
    }
    lemma_find_crlf_at(b, pos + 1, k);
    assert(enc =~= seq![tag] + (d + (crlf() + rest)));
    lemma_split_at(b, pos, seq![tag], d + (crlf() + rest));
    lemma_split_at(b, pos + 1, d, crlf() + rest);
    lemma_split_at(b, pos + 1 + d.len(), crlf(), rest);
}

pub proof fn lemma_encode_nonempty(v: RespValue)
    ensures
        spec_encode(v).len() > 0,
{
}

/// A well-formed message encoded at `pos` of `b` decodes to itself and
/// ends where its encoding ends, whatever surrounds it.
pub proof fn lemma_decode_encoded(v: RespValue, b: Seq<u8>, pos: int)
    requires
        well_formed(v),
        0 <= pos,
        pos + spec_encode(v).len() <= b.len(),
        b.subrange(pos, pos + spec_encode(v).len()) == spec_encode(v),
    ensures
        decode_at(b, pos) == Ok::<(RespValue, int), RedisParseError>(
            (v, pos + spec_encode(v).len()),
        ),
    decreases v, 1int,
{
    let enc = spec_encode(v);
    match v {
        RespValue::SimpleString(s) => {
            assert(enc =~= seq![PLUS] + s + crlf() + Seq::<u8>::empty());
            lemma_header_line(b, pos, PLUS, s, Seq::empty());
        },
        RespValue::Error(s) => {
            assert(enc =~= seq![MINUS] + s + crlf() + Seq::<u8>::empty());
            lemma_header_line(b, pos, MINUS, s, Seq::empty());
        },
        RespValue::Integer(n) => {
            let d = int_digits(n);
            lemma_int_digits_parse(n);
            assert(enc =~= seq![COLON] + d + crlf() + Seq::<u8>::empty());
            lemma_header_line(b, pos, COLON, d, Seq::empty());
        },
        RespValue::BulkString(data) => {
            let d = nat_digits(data.len());
            lemma_nat_digits(data.len());
            lemma_digits_have_no_cr(d);
            assert(parse_signed(d) == Some(data.len() as int)) by {
                assert(crate::parser::numbers::is_digit(d[0]));
            }
            let rest = data + crlf();
            assert(enc =~= seq![DOLLAR] + d + crlf() + rest);
            lemma_header_line(b, pos, DOLLAR, d, rest);
            let start = pos + 1 + d.len() + 2;
            lemma_split_at(b, start, data, crlf());
            lemma_byte_at(b, start, rest, data.len() as int);
            lemma_byte_at(b, start, rest, data.len() as int + 1);
        },
        RespValue::NullBulkString => {
            let d = seq![MINUS, 49u8];
            assert(enc =~= seq![DOLLAR] + d + crlf() + Seq::<u8>::empty());
            lemma_header_line(b, pos, DOLLAR, d, Seq::empty());
            assert(parse_signed(d) == Some(-1int)) by {
                let one = d.drop_first();
                assert(one =~= seq![49u8]);
                assert(one.drop_last() =~= Seq::<u8>::empty());
                assert(crate::parser::numbers::digits_value(one.drop_last()) == 0);
                assert(crate::parser::numbers::digits_value(one) == 1);
            }
        },
        RespValue::Array(xs) => {
            let d = nat_digits(xs.len());
            lemma_nat_digits(xs.len());
            lemma_digits_have_no_cr(d);
            assert(parse_signed(d) == Some(xs.len() as int)) by {
                assert(crate::parser::numbers::is_digit(d[0]));
            }
            let encs = element_encodings(xs);
            let rest = encs.flatten();
            assert(enc =~= seq![STAR] + d + crlf() + rest);
            lemma_header_line(b, pos, STAR, d, rest);
            let start = pos + 1 + d.len() + 2;
            assert(encs.subrange(0, xs.len() as int) =~= encs);
            assert forall|j: int| 0 <= j < xs.len() implies #[trigger] well_formed(xs[j]) by {
                assert(well_formed(RespValue::Array(xs)));
                assert(xs[j] == xs[j]);
            }
            lemma_decode_encoded_elements(xs, 0, b, start);
            assert(xs.subrange(0, xs.len() as int) =~= xs);
        },
    }
}

/// The encodings of `xs[i..]`, one after the other, at `p` of `b` decode to
/// `xs[i..]` and end where they end.
pub proof fn lemma_decode_encoded_elements(xs: Seq<RespValue>, i: int, b: Seq<u8>, p: int)
    requires
        0 <= i <= xs.len(),
        forall|j: int| 0 <= j < xs.len() ==> #[trigger] well_formed(xs[j]),
        0 <= p,
        p + element_encodings(xs).subrange(i, xs.len() as int).flatten().len() <= b.len(),
        b.subrange(p, p + element_encodings(xs).subrange(i, xs.len() as int).flatten().len())
            == element_encodings(xs).subrange(i, xs.len() as int).flatten(),
    ensures
        decode_elements(b, p, (xs.len() - i) as nat) == Ok::<(Seq<RespValue>, int), RedisParseError>(
            (
                xs.subrange(i, xs.len() as int),
                p + element_encodings(xs).subrange(i, xs.len() as int).flatten().len(),
            ),
        ),
    decreases xs, xs.len() - i,
{
    let encs = element_encodings(xs);
    let all = encs.subrange(i, xs.len() as int);
    if i == xs.len() {
        assert(all =~= Seq::<Seq<u8>>::empty());
        assert(xs.subrange(i, xs.len() as int) =~= Seq::<RespValue>::empty());
    } else {
        let e = spec_encode(xs[i]);
        let later = encs.subrange(i + 1, xs.len() as int);
        assert(all.drop_first() =~= later);
        assert(all.first() == e);
        assert(all.flatten() == e + later.flatten());
        lemma_split_at(b, p, e, later.flatten());
        lemma_decode_encoded(xs[i], b, p);
        lemma_encode_nonempty(xs[i]);
        lemma_decode_encoded_elements(xs, i + 1, b, p + e.len());
        assert(seq![xs[i]] + xs.subrange(i + 1, xs.len() as int) =~= xs.subrange(
            i,
            xs.len() as int,
        ));
    }
}

/// Decoding the encoding of a well-formed message gives back the message and
/// the length of its encoding.
pub proof fn lemma_round_trip(v: RespValue)
    requires
        well_formed(v),
    ensures
        spec_decode(spec_encode(v)) == Ok::<(RespValue, int), RedisParseError>(
            (v, spec_encode(v).len() as int),
        ),
{
    let enc = spec_encode(v);
    lemma_encode_nonempty(v);
    assert(enc.subrange(0, enc.len() as int) =~= enc);
    lemma_decode_encoded(v, enc, 0);
}

/// Bytes after an encoded message change nothing: the decoder returns the
/// message and stops where its encoding ends.
pub proof fn lemma_prefix_invariance(v: RespValue, t: Seq<u8>)
    requires
        well_formed(v),
    ensures
        spec_decode(spec_encode(v) + t) == Ok::<(RespValue, int), RedisParseError>(
            (v, spec_encode(v).len() as int),
        ),
{
    let enc = spec_encode(v);
    let b = enc + t;
    lemma_encode_nonempty(v);
    assert(b.subrange(0, enc.len() as int) =~= enc);
    lemma_decode_encoded(v, b, 0);
}

pub fn find_crlf_from(b: &[u8], start: usize) -> (r: Option<usize>)
    ensures
        r matches Some(e) ==> find_crlf(b@, start as int) == Some(e as int),
        r is None ==> find_crlf(b@, start as int) is None,
{
    let mut i: usize = start;
    while i < b.len() && i + 1 < b.len()
        invariant
            start <= i,
            find_crlf(b@, start as int) == find_crlf(b@, i as int),
        decreases b.len() - i,
    {
        if b[i] == CR && b[i + 1] == LF {
            return Some(i);
        }
        i = i + 1;
    }
    None
}

impl RedisMessageType {
    pub fn encode(&self) -> (r: Vec<u8>)
        ensures
            r@ == spec_encode(self@),
    {
        let mut out: Vec<u8> = Vec::new();
        self.encode_into(&mut out);
        assert(out@ =~= spec_encode(self@));
        out
    }

    /// Appends the encoding of `self` to `out`.
    pub fn encode_into(&self, out: &mut Vec<u8>)
        ensures
            final(out)@ == old(out)@ + spec_encode(self@),
        decreases self,
    {
        match self {
            RedisMessageType::SimpleString(s) => {
                out.push(PLUS);
                append(out, s.as_slice());
                out.push(CR);
                out.push(LF);
            },
            RedisMessageType::Error(s) => {
                out.push(MINUS);
                append(out, s.as_slice());
                out.push(CR);
                out.push(LF);
            },
            RedisMessageType::Integer(n) => {
                out.push(COLON);
                push_signed_decimal(out, *n);
                out.push(CR);
                out.push(LF);
            },
            RedisMessageType::BulkString(b) => {
                out.push(DOLLAR);
                push_decimal(out, b.len() as u64);
                out.push(CR);
                out.push(LF);
                append(out, b.as_slice());
                out.push(CR);
                out.push(LF);
            },
            RedisMessageType::NullBulkString => {
                out.push(DOLLAR);
                out.push(MINUS);
                out.push(49u8);
                out.push(CR);
                out.push(LF);
            },
            RedisMessageType::Array(xs) => {
                out.push(STAR);
                push_decimal(out, xs.len() as u64);
                out.push(CR);
                out.push(LF);
                let ghost header = out@;
                let ghost vs = self@->Array_0;
                let ghost encs = element_encodings(vs);
                let mut i: usize = 0;
                while i < xs.len()
                    invariant
                        *self == RedisMessageType::Array(*xs),
                        i <= xs@.len(),
                        vs.len() == xs@.len(),
                        forall|j: int| 0 <= j < xs@.len() ==> #[trigger] vs[j] == xs@[j]@,
                        encs.len() == vs.len(),
                        forall|j: int| 0 <= j < vs.len() ==> #[trigger] encs[j] == spec_encode(vs[j]),
                        out@ == header + encs.subrange(0, i as int).flatten(),
                    decreases xs.len() - i,
                {
                    proof {
                        assert(decreases_to!(*self => (*self)->Array_0));
                        assert(decreases_to!(*xs => xs[i as int]));
                    }
                    xs[i].encode_into(out);
                    proof {
                        assert(encs.subrange(0, i + 1) =~= encs.subrange(0, i as int).push(encs[i as int]));
                    }
                    i = i + 1;
                }
                assert(encs.subrange(0, i as int) =~= encs);
                assert(final(out)@ =~= old(out)@ + spec_encode(self@));
            },
        }
        assert(final(out)@ =~= old(out)@ + spec_encode(self@));
    }

    /// Decodes the message at the start of `input`, with the number of bytes
    /// it takes; anything after it is left alone.
    pub fn decode(input: &[u8]) -> (r: Result<(RedisMessageType, usize), RedisParseError>)
        ensures
            decoded_as(r, spec_decode(input@)),
    {
        if input.len() == 0 {
            return Err(RedisParseError::NoStartingByte);
        }
        Self::decode_at(input, 0)
    }

    /// Decodes the message that starts at `pos`; on success, also the
    /// position just past it.
    pub fn decode_at(b: &[u8], pos: usize) -> (r: Result<(RedisMessageType, usize), RedisParseError>)
        requires
            pos <= b@.len(),
        ensures
            decoded_as(r, decode_at(b@, pos as int)),
            r matches Ok((_, end)) ==> pos < end <= b@.len(),
        decreases b@.len() - pos,
    {
        if pos >= b.len() {
            return Err(RedisParseError::NotEnoughBytes);
        }
        let tag = b[pos];
        if !(tag == PLUS || tag == MINUS || tag == COLON || tag == DOLLAR || tag == STAR) {
            return Err(RedisParseError::InvalidStartingByte);
        }
        let e = match find_crlf_from(b, pos + 1) {
            None => {
                return Err(RedisParseError::NotEnoughBytes);
            },
            Some(e) => e,
        };
        proof {
            lemma_find_crlf_bounds(b@, pos + 1);
        }
        if tag == PLUS {
            return Ok((RedisMessageType::SimpleString(copy_range(b, pos + 1, e)), e + 2));
        }
        if tag == MINUS {
            return Ok((RedisMessageType::Error(copy_range(b, pos + 1, e)), e + 2));
        }
        let n = match parse_decimal_i64(b, pos + 1, e) {
            None => {
                return Err(RedisParseError::InvalidNumber);
            },
            Some(n) => n,
        };
        if tag == COLON {
            return Ok((RedisMessageType::Integer(n), e + 2));
        }
        let start = e + 2;
        if tag == DOLLAR {
            if n == -1 {
                return Ok((RedisMessageType::NullBulkString, start));
            }
            if n < 0 {
                return Err(RedisParseError::InvalidFormat);
            }
            let available: usize = b.len() - start;
            if n as u64 as u128 + 2 > available as u128 {
                return Err(RedisParseError::NotEnoughBytes);
            }
            let len: usize = n as usize;
            if b[start + len] != CR || b[start + len + 1] != LF {
                return Err(RedisParseError::InvalidFormat);
            }
            return Ok((RedisMessageType::BulkString(copy_range(b, start, start + len)), start + len + 2));
        }
        if n < 0 {
            return Err(RedisParseError::InvalidFormat);
        }
        let ghost count = n as nat;
        let mut items: Vec<RedisMessageType> = Vec::new();
        let mut p: usize = start;
        let mut remaining: u64 = n as u64;
        while remaining > 0
            invariant
                pos < p <= b@.len(),
                decode_at(b@, pos as int) == (match decode_elements(b@, start as int, count) {
                    Ok((xs, end)) => Ok((RespValue::Array(xs), end)),
                    Err(err) => Err(err),
                }),
                decode_elements(b@, start as int, count) == (match decode_elements(
                    b@,
                    p as int,
                    remaining as nat,
                ) {
                    Ok((vs, end)) => Ok((items@.map_values(|m: RedisMessageType| m@) + vs, end)),
                    Err(err) => Err(err),
                }),
            decreases remaining,
        {
            let (m, next) = match Self::decode_at(b, p) {
                Err(err) => {
                    return Err(err);
                },
                Ok(x) => x,
            };
            let ghost before = items@.map_values(|m: RedisMessageType| m@);
            items.push(m);
            proof {
                assert(items@.map_values(|m: RedisMessageType| m@) =~= before + seq![m@]);
                let tail = decode_elements(b@, next as int, (remaining - 1) as nat);
                if let Ok((vs, end)) = tail {
                    assert(before + (seq![m@] + vs) =~= (before + seq![m@]) + vs);
                }
            }
            p = next;
            remaining = remaining - 1;
        }
        let ghost views = items@.map_values(|m: RedisMessageType| m@);
        assert(views + Seq::<RespValue>::empty() =~= views);
        let r = RedisMessageType::Array(items);
        assert(r@ == RespValue::Array(views)) by {
            assert(r@->Array_0 =~= views);
        }
        Ok((r, p))
    }
}

/// The character of an ASCII byte; `None` for any other byte.
pub fn u8_to_char(byte: u8) -> (r: Option<char>)
    ensures
        r == (if byte < 0x80 {
            Some(byte as char)
        } else {
            None
        }),
{
    if byte < 0x80 {
        Some(byte as char)
    } else {
        None
    }
}

} // verus!
