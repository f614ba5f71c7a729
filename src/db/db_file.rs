//! The RDB snapshot decoder: header, metadata, sub-databases and their
//! key/value records, over length-encoded integers and strings.
use vstd::prelude::*;

use crate::parser::numbers::{nat_digits, push_decimal};
use crate::utils::bytes::copy_range;

verus! {

/// Why a snapshot could not be decoded.
#[derive(Debug, Clone, Copy, PartialEq, Eq, Structural)]
pub enum RdbError {
    /// The input ends before the structure does.
    MissingBytes,
    /// The header is not exactly nine bytes.
    InvalidHeaderLength,
    /// The header does not start with `REDIS`.
    InvalidMagic,
    /// A section or record does not start with the marker byte it must have.
    UnexpectedByte,
    /// A record holds a value type other than string.
    UnsupportedValueType,
    /// An LZF-compressed string, which this decoder does not read.
    UnsupportedEncoding,
    /// A key, value or header version that is not UTF-8.
    InvalidUtf8,
}

/// Starts a metadata sub-section.
pub const METADATA_MARKER: u8 = 0xFA;
/// Starts a sub-database.
pub const DATABASE_MARKER: u8 = 0xFE;
/// Precedes the table sizes of a sub-database.
pub const TABLE_SIZES_MARKER: u8 = 0xFB;
/// Expiry in milliseconds, 8 bytes little-endian.
pub const EXPIRY_MS_MARKER: u8 = 0xFC;
/// Expiry in seconds, 4 bytes little-endian.
pub const EXPIRY_SECS_MARKER: u8 = 0xFD;
/// The value-type tag of a string.
pub const STRING_TYPE: u8 = 0x00;

/// What a length-encoded field holds.
#[derive(Debug, Clone, Copy, PartialEq, Eq, Structural)]
pub enum LengthEncoding {
    /// A length, or any other count.
    NormalLength(u32),
    /// A string written as an integer (1, 2 or 4 bytes little-endian).
    IntegerString(u32),
}

impl View for LengthEncoding {
    type V = LengthEncoding;

    open spec fn view(&self) -> LengthEncoding {
        *self
    }
}

impl LengthEncoding {
    pub open spec fn spec_value(self) -> u32 {
        match self {
            LengthEncoding::NormalLength(n) => n,
            LengthEncoding::IntegerString(n) => n,
        }
    }
}

/// `r` is the executable form of the spec result `s`: on success the value
/// and the position just past it.
pub open spec fn decoded<T: View>(r: Result<(T, usize), RdbError>, s: Result<(T::V, int), RdbError>) -> bool {
    match r {
        Ok((x, n)) => s == Ok::<(T::V, int), RdbError>((x@, n as int)),
        Err(e) => s == Err::<(T::V, int), RdbError>(e),
    }
}

pub open spec fn le_u16(b: Seq<u8>, i: int) -> nat {
    (b[i] + b[i + 1] * 0x100) as nat
}

pub open spec fn le_u32(b: Seq<u8>, i: int) -> nat {
    (b[i] + b[i + 1] * 0x100 + b[i + 2] * 0x1_0000 + b[i + 3] * 0x100_0000) as nat
}

pub open spec fn le_u64(b: Seq<u8>, i: int) -> nat {
    le_u32(b, i) + le_u32(b, i + 4) * 0x1_0000_0000
}

pub open spec fn be_u32(b: Seq<u8>, i: int) -> nat {
    (b[i] * 0x100_0000 + b[i + 1] * 0x1_0000 + b[i + 2] * 0x100 + b[i + 3]) as nat
}

/// Reads the length encoding at `pos`: what it holds and the position just
/// past it. The top two bits of the first byte choose the form: 6 bits, 14
/// bits, 4 bytes big-endian, or an integer string whose width the low two
/// bits choose (LZF, the fourth choice, is refused).
pub open spec fn spec_length(b: Seq<u8>, pos: int) -> Result<(LengthEncoding, int), RdbError> {
    if pos < 0 || pos >= b.len() {
        Err(RdbError::MissingBytes)
    } else {
        let b0 = b[pos];
        let kind = b0 / 64;
        if kind == 0 {
            Ok((LengthEncoding::NormalLength((b0 % 64) as u32), pos + 1))
        } else if kind == 1 {
            if pos + 2 > b.len() {
                Err(RdbError::MissingBytes)
            } else {
                Ok((LengthEncoding::NormalLength(((b0 % 64) * 256 + b[pos + 1]) as u32), pos + 2))
            }
        } else if kind == 2 {
            if pos + 5 > b.len() {
                Err(RdbError::MissingBytes)
            } else {
                Ok((LengthEncoding::NormalLength(be_u32(b, pos + 1) as u32), pos + 5))
            }
        } else if b0 % 4 == 0 {
            if pos + 2 > b.len() {
                Err(RdbError::MissingBytes)
            } else {
                Ok((LengthEncoding::IntegerString(b[pos + 1] as u32), pos + 2))
            }
        } else if b0 % 4 == 1 {
            if pos + 3 > b.len() {
                Err(RdbError::MissingBytes)
            } else {
                Ok((LengthEncoding::IntegerString(le_u16(b, pos + 1) as u32), pos + 3))
            }
        } else if b0 % 4 == 2 {
            if pos + 5 > b.len() {
                Err(RdbError::MissingBytes)
            } else {
                Ok((LengthEncoding::IntegerString(le_u32(b, pos + 1) as u32), pos + 5))
            }
        } else {
            Err(RdbError::UnsupportedEncoding)
        }
    }
}

/// The bytes that encode the length `n` in the shortest form.
pub open spec fn spec_length_bytes(n: nat) -> Seq<u8> {
    if n < 64 {
        seq![n as u8]
    } else if n < 0x4000 {
        seq![(64 + n / 256) as u8, (n % 256) as u8]
    } else {
        seq![
            0x80u8,
            (n / 0x100_0000) as u8,
            (n / 0x1_0000 % 256) as u8,
            (n / 256 % 256) as u8,
            (n % 256) as u8,
        ]
    }
}

/// Every length up to 2^32 - 1, written in its shortest form and followed by
/// anything, reads back as that length, taking exactly the bytes written.
pub proof fn lemma_length_encoding_round_trip(n: nat, rest: Seq<u8>)
    requires
        n <= u32::MAX,
    ensures
        spec_length(spec_length_bytes(n) + rest, 0) == Ok::<(LengthEncoding, int), RdbError>(
            (LengthEncoding::NormalLength(n as u32), spec_length_bytes(n).len() as int),
        ),
{
    let enc = spec_length_bytes(n);
    let b = enc + rest;
    if n < 64 {
        assert(b[0] == n);
    } else if n < 0x4000 {
        assert(b[0] == 64 + n / 256);
        assert(b[1] == n % 256);
        assert(n == (n / 256) * 256 + n % 256) by (nonlinear_arith);
    } else {
        assert(b[0] == 0x80);
        assert(b[1] == n / 0x100_0000);
        assert(b[2] == n / 0x1_0000 % 256);
        assert(b[3] == n / 256 % 256);
        assert(b[4] == n % 256);
        assert(n == (n / 0x100_0000) * 0x100_0000 + (n / 0x1_0000 % 256) * 0x1_0000 + (n / 256
            % 256) * 256 + n % 256) by (nonlinear_arith)
            requires
                n <= u32::MAX,
        ;
        assert(n / 0x100_0000 < 256) by (nonlinear_arith)
            requires
                n <= u32::MAX,
        ;
    }
}

/// Reads the length encoding at `pos` of `b`.
pub fn parse_length_at(b: &[u8], pos: usize) -> (r: Result<(LengthEncoding, usize), RdbError>)
    ensures
        decoded(r, spec_length(b@, pos as int)),
{
    if pos >= b.len() {
        return Err(RdbError::MissingBytes);
    }
    let b0 = b[pos];
    let kind = b0 / 64;
    if kind == 0 {
        Ok((LengthEncoding::NormalLength((b0 % 64) as u32), pos + 1))
    } else if kind == 1 {
        if b.len() - pos < 2 {
            return Err(RdbError::MissingBytes);
        }
        Ok((LengthEncoding::NormalLength((b0 % 64) as u32 * 256 + b[pos + 1] as u32), pos + 2))
    } else if kind == 2 {
        if b.len() - pos < 5 {
            return Err(RdbError::MissingBytes);
        }
        let v = b[pos + 1] as u32 * 0x100_0000 + b[pos + 2] as u32 * 0x1_0000 + b[pos + 3] as u32
            * 0x100 + b[pos + 4] as u32;
        Ok((LengthEncoding::NormalLength(v), pos + 5))
    } else if b0 % 4 == 0 {
        if b.len() - pos < 2 {
            return Err(RdbError::MissingBytes);
        }
        Ok((LengthEncoding::IntegerString(b[pos + 1] as u32), pos + 2))
    } else if b0 % 4 == 1 {
        if b.len() - pos < 3 {
            return Err(RdbError::MissingBytes);
        }
        let v = b[pos + 1] as u32 + b[pos + 2] as u32 * 0x100;
        Ok((LengthEncoding::IntegerString(v), pos + 3))
    } else if b0 % 4 == 2 {
        if b.len() - pos < 5 {
            return Err(RdbError::MissingBytes);
        }
        let v = b[pos + 1] as u32 + b[pos + 2] as u32 * 0x100 + b[pos + 3] as u32 * 0x1_0000
            + b[pos + 4] as u32 * 0x100_0000;
        Ok((LengthEncoding::IntegerString(v), pos + 5))
    } else {
        Err(RdbError::UnsupportedEncoding)
    }
}

/// Reads a length encoding at the start of `buf`: the number it holds (a
/// length, or the integer of an integer string) and how many bytes it takes.
pub fn parse_length_encoding(buf: &[u8]) -> (r: Result<(usize, usize), RdbError>)
    ensures
        match r {
            Ok((v, n)) => spec_length(buf@, 0) matches Ok((enc, end)) && v == enc.spec_value()
                && n == end,
            Err(e) => spec_length(buf@, 0) == Err::<(LengthEncoding, int), RdbError>(e),
        },
{
    match parse_length_at(buf, 0) {
        Ok((LengthEncoding::NormalLength(v), n)) => Ok((v as usize, n)),
        Ok((LengthEncoding::IntegerString(v), n)) => Ok((v as usize, n)),
        Err(e) => Err(e),
    }
}

pub proof fn lemma_length_progress(b: Seq<u8>, pos: int)
    ensures
        spec_length(b, pos) matches Ok((_, end)) ==> pos < end <= b.len(),
{
}

/// Reads a string at `pos`: a length and that many bytes, or an integer
/// string, which stands for its decimal spelling.
pub open spec fn spec_string(b: Seq<u8>, pos: int) -> Result<(Seq<u8>, int), RdbError> {
    match spec_length(b, pos) {
        Err(e) => Err(e),
        Ok((LengthEncoding::NormalLength(n), p)) => if p + n > b.len() {
            Err(RdbError::MissingBytes)
        } else {
            Ok((b.subrange(p, p + n), p + n))
        },
        Ok((LengthEncoding::IntegerString(v), p)) => Ok((nat_digits(v as nat), p)),
    }
}

pub proof fn lemma_string_progress(b: Seq<u8>, pos: int)
    ensures
        spec_string(b, pos) matches Ok((_, end)) ==> pos < end <= b.len(),
{
    lemma_length_progress(b, pos);
}

/// Reads the string at `pos` of `b`.
pub fn parse_string_at(b: &[u8], pos: usize) -> (r: Result<(Vec<u8>, usize), RdbError>)
    ensures
        decoded(r, spec_string(b@, pos as int)),
{
    match parse_length_at(b, pos) {
        Err(e) => Err(e),
        Ok((LengthEncoding::NormalLength(n), p)) => {
            proof {
                lemma_length_progress(b@, pos as int);
            }
            if (b.len() - p) < n as usize {
                return Err(RdbError::MissingBytes);
            }
            Ok((copy_range(b, p, p + n as usize), p + n as usize))
        },
        Ok((LengthEncoding::IntegerString(v), p)) => {
            let mut digits: Vec<u8> = Vec::new();
            push_decimal(&mut digits, v as u64);
            assert(digits@ =~= nat_digits(v as nat));
            Ok((digits, p))
        },
    }
}

/// Relies on `std::str::from_utf8`: it accepts exactly the well-formed
/// UTF-8 byte strings.
#[verifier::external_body]
fn is_utf8(b: &[u8]) -> (r: bool)
    ensures
        r == vstd::utf8::valid_utf8(b@),
{
    std::str::from_utf8(b).is_ok()
}

/// A string at `pos` that must be UTF-8: the keys and values.
pub open spec fn spec_text(b: Seq<u8>, pos: int) -> Result<(Seq<u8>, int), RdbError> {
    match spec_string(b, pos) {
        Err(e) => Err(e),
        Ok((t, end)) => if vstd::utf8::valid_utf8(t) {
            Ok((t, end))
        } else {
            Err(RdbError::InvalidUtf8)
        },
    }
}

/// Reads the UTF-8 string at `pos` of `b`.
pub fn parse_text_at(b: &[u8], pos: usize) -> (r: Result<(Vec<u8>, usize), RdbError>)
    ensures
        decoded(r, spec_text(b@, pos as int)),
{
    match parse_string_at(b, pos) {
        Err(e) => Err(e),
        Ok((t, end)) => {
            if is_utf8(t.as_slice()) {
                Ok((t, end))
            } else {
                Err(RdbError::InvalidUtf8)
            }
        },
    }
}

/// The nine-byte header: the magic `REDIS` and a four-byte version.
#[derive(Debug, Clone, PartialEq, Eq)]
pub struct Header {
    pub magic_string: Vec<u8>,
    pub version: Vec<u8>,
}

impl View for Header {
    type V = (Seq<u8>, Seq<u8>);

    open spec fn view(&self) -> (Seq<u8>, Seq<u8>) {
        (self.magic_string@, self.version@)
    }
}

pub open spec fn redis_magic() -> Seq<u8> {
    seq![0x52u8, 0x45u8, 0x44u8, 0x49u8, 0x53u8]
}

/// The header held by exactly nine bytes: the magic, then a version that
/// must be UTF-8.
pub open spec fn spec_header(b: Seq<u8>) -> Result<(Seq<u8>, Seq<u8>), RdbError> {
    if b.len() != 9 {
        Err(RdbError::InvalidHeaderLength)
    } else if b.subrange(0, 5) != redis_magic() {
        Err(RdbError::InvalidMagic)
    } else if !vstd::utf8::valid_utf8(b.subrange(5, 9)) {
        Err(RdbError::InvalidUtf8)
    } else {
        Ok((b.subrange(0, 5), b.subrange(5, 9)))
    }
}

impl Header {
    pub fn decode(input: &[u8]) -> (r: Result<Header, RdbError>)
        ensures
            match r {
                Ok(h) => spec_header(input@) == Ok::<(Seq<u8>, Seq<u8>), RdbError>(h@),
                Err(e) => spec_header(input@) == Err::<(Seq<u8>, Seq<u8>), RdbError>(e),
            },
    {
        if input.len() != 9 {
            return Err(RdbError::InvalidHeaderLength);
        }
        if !(input[0] == 0x52 && input[1] == 0x45 && input[2] == 0x44 && input[3] == 0x49
            && input[4] == 0x53) {
            proof {
                if input@.subrange(0, 5) == redis_magic() {
                    assert(input@.subrange(0, 5)[0] == input@[0]);
                    assert(input@.subrange(0, 5)[1] == input@[1]);
                    assert(input@.subrange(0, 5)[2] == input@[2]);
                    assert(input@.subrange(0, 5)[3] == input@[3]);
                    assert(input@.subrange(0, 5)[4] == input@[4]);
                }
            }
            return Err(RdbError::InvalidMagic);
        }
        let magic_string = copy_range(input, 0, 5);
        let version = copy_range(input, 5, 9);
        assert(input@.subrange(0, 5) =~= redis_magic());
        if !is_utf8(version.as_slice()) {
            return Err(RdbError::InvalidUtf8);
        }
        Ok(Header { magic_string, version })
    }
}

/// One metadata pair.
#[derive(Debug, Clone, PartialEq, Eq)]
pub struct MetadataSubSection {
    pub key: Vec<u8>,
    pub value: Vec<u8>,
}

impl View for MetadataSubSection {
    type V = (Seq<u8>, Seq<u8>);

    open spec fn view(&self) -> (Seq<u8>, Seq<u8>) {
        (self.key@, self.value@)
    }
}

/// A metadata pair at `pos`: the marker `0xFA`, then key and value strings.
pub open spec fn spec_metadata_pair(b: Seq<u8>, pos: int) -> Result<((Seq<u8>, Seq<u8>), int), RdbError> {
    if pos < 0 || pos >= b.len() {
        Err(RdbError::MissingBytes)
    } else if b[pos] != METADATA_MARKER {
        Err(RdbError::UnexpectedByte)
    } else {
        match spec_text(b, pos + 1) {
            Err(e) => Err(e),
            Ok((key, p)) => match spec_text(b, p) {
                Err(e) => Err(e),
                Ok((value, end)) => Ok(((key, value), end)),
            },
        }
    }
}

pub proof fn lemma_metadata_pair_progress(b: Seq<u8>, pos: int)
    ensures
        spec_metadata_pair(b, pos) matches Ok((_, end)) ==> pos < end <= b.len(),
{
    lemma_string_progress(b, pos + 1);
    if let Ok((_, p)) = spec_text(b, pos + 1) {
        lemma_string_progress(b, p);
    }
}

impl MetadataSubSection {
    pub fn decode_at(b: &[u8], pos: usize) -> (r: Result<(MetadataSubSection, usize), RdbError>)
        ensures
            decoded(r, spec_metadata_pair(b@, pos as int)),
    {
        if pos >= b.len() {
            return Err(RdbError::MissingBytes);
        }
        if b[pos] != METADATA_MARKER {
            return Err(RdbError::UnexpectedByte);
        }
        let (key, p) = match parse_text_at(b, pos + 1) {
            Err(e) => {
                return Err(e);
            },
            Ok(x) => x,
        };
        let (value, end) = match parse_text_at(b, p) {
            Err(e) => {
                return Err(e);
            },
            Ok(x) => x,
        };
        Ok((MetadataSubSection { key, value }, end))
    }

    /// Decodes the metadata pair at the start of `input`, with the number of
    /// bytes it takes.
    pub fn decode(input: &[u8]) -> (r: Result<(MetadataSubSection, usize), RdbError>)
        ensures
            decoded(r, spec_metadata_pair(input@, 0)),
    {
        Self::decode_at(input, 0)
    }
}

/// The metadata section.
#[derive(Debug, Clone, PartialEq, Eq)]
pub struct MetadataSection {
    pub subsections: Vec<MetadataSubSection>,
}

impl View for MetadataSection {
    type V = Seq<(Seq<u8>, Seq<u8>)>;

    open spec fn view(&self) -> Seq<(Seq<u8>, Seq<u8>)> {
        self.subsections@.map_values(|s: MetadataSubSection| s@)
    }
}

/// The metadata pairs from `pos` on, up to the first byte that is not `0xFA`.
pub open spec fn spec_metadata(b: Seq<u8>, pos: int) -> Result<(Seq<(Seq<u8>, Seq<u8>)>, int), RdbError>
    decreases b.len() - pos,
{
    if pos < 0 || pos >= b.len() {
        Err(RdbError::MissingBytes)
    } else if b[pos] != METADATA_MARKER {
        Ok((Seq::empty(), pos))
    } else {
        match spec_metadata_pair(b, pos) {
            Err(e) => Err(e),
            Ok((pair, p)) => {
                proof {
                    lemma_metadata_pair_progress(b, pos);
                }
                match spec_metadata(b, p) {
                    Err(e) => Err(e),
                    Ok((rest, end)) => Ok((seq![pair] + rest, end)),
                }
            },
        }
    }
}

impl MetadataSection {
    pub fn decode_at(b: &[u8], pos: usize) -> (r: Result<(MetadataSection, usize), RdbError>)
        ensures
            decoded(r, spec_metadata(b@, pos as int)),
    {
        let mut subsections: Vec<MetadataSubSection> = Vec::new();
        let mut p: usize = pos;
        loop
            invariant
                spec_metadata(b@, pos as int) == (match spec_metadata(b@, p as int) {
                    Ok((rest, end)) => Ok(
                        (subsections@.map_values(|s: MetadataSubSection| s@) + rest, end),
                    ),
                    Err(e) => Err(e),
                }),
            decreases b@.len() - p,
        {
            if p >= b.len() {
                return Err(RdbError::MissingBytes);
            }
            if b[p] != METADATA_MARKER {
                let ghost views = subsections@.map_values(|s: MetadataSubSection| s@);
                assert(views + Seq::<(Seq<u8>, Seq<u8>)>::empty() =~= views);
                return Ok((MetadataSection { subsections }, p));
            }
            let (sub, next) = match MetadataSubSection::decode_at(b, p) {
                Err(e) => {
                    return Err(e);
                },
                Ok(x) => x,
            };
            proof {
                lemma_metadata_pair_progress(b@, p as int);
            }
            let ghost before = subsections@.map_values(|s: MetadataSubSection| s@);
            subsections.push(sub);
            proof {
                assert(subsections@.map_values(|s: MetadataSubSection| s@) =~= before + seq![sub@]);
                if let Ok((rest, end)) = spec_metadata(b@, next as int) {
                    assert(before + (seq![sub@] + rest) =~= (before + seq![sub@]) + rest);
                }
            }
            p = next;
        }
    }

    /// Decodes the metadata section at the start of `input`, with the number
    /// of bytes it takes.
    pub fn decode(input: &[u8]) -> (r: Result<(MetadataSection, usize), RdbError>)
        ensures
            decoded(r, spec_metadata(input@, 0)),
    {
        Self::decode_at(input, 0)
    }
}

/// A key/value record.
#[derive(Debug, Clone, PartialEq, Eq)]
pub struct KeyValueDataUnit {
    pub key: Vec<u8>,
    pub value: Vec<u8>,
    /// When the record expires, in milliseconds since the Unix epoch.
    pub expiry: Option<u64>,
}

impl View for KeyValueDataUnit {
    type V = (Seq<u8>, Seq<u8>, Option<u64>);

    open spec fn view(&self) -> (Seq<u8>, Seq<u8>, Option<u64>) {
        (self.key@, self.value@, self.expiry)
    }
}

/// The optional expiry prefix of a record at `pos`, in milliseconds since the
/// Unix epoch.
pub open spec fn spec_expiry(b: Seq<u8>, pos: int) -> Result<(Option<u64>, int), RdbError> {
    if pos < 0 || pos >= b.len() {
        Err(RdbError::MissingBytes)
    } else if b[pos] == EXPIRY_MS_MARKER {
        if pos + 9 > b.len() {
            Err(RdbError::MissingBytes)
        } else {
            Ok((Some(le_u64(b, pos + 1) as u64), pos + 9))
        }
    } else if b[pos] == EXPIRY_SECS_MARKER {
        if pos + 5 > b.len() {
            Err(RdbError::MissingBytes)
        } else {
            Ok((Some((le_u32(b, pos + 1) * 1000) as u64), pos + 5))
        }
    } else {
        Ok((None, pos))
    }
}

/// A record at `pos`: optional expiry, the string type tag, key and value.
pub open spec fn spec_entry(b: Seq<u8>, pos: int) -> Result<((Seq<u8>, Seq<u8>, Option<u64>), int), RdbError> {
    match spec_expiry(b, pos) {
        Err(e) => Err(e),
        Ok((expiry, p)) => if p >= b.len() {
            Err(RdbError::MissingBytes)
        } else if b[p] != STRING_TYPE {
            Err(RdbError::UnsupportedValueType)
        } else {
            match spec_text(b, p + 1) {
                Err(e) => Err(e),
                Ok((key, q)) => match spec_text(b, q) {
                    Err(e) => Err(e),
                    Ok((value, end)) => Ok(((key, value, expiry), end)),
                },
            }
        },
    }
}

/// `count` records one after the other from `pos`.
pub open spec fn spec_entries(b: Seq<u8>, pos: int, count: nat) -> Result<
    (Seq<(Seq<u8>, Seq<u8>, Option<u64>)>, int),
    RdbError,
>
    decreases count,
{
    if count == 0 {
        Ok((Seq::empty(), pos))
    } else {
        match spec_entry(b, pos) {
            Err(e) => Err(e),
            Ok((kv, p)) => match spec_entries(b, p, (count - 1) as nat) {
                Err(e) => Err(e),
                Ok((rest, end)) => Ok((seq![kv] + rest, end)),
            },
        }
    }
}

pub proof fn lemma_entry_progress(b: Seq<u8>, pos: int)
    ensures
        spec_entry(b, pos) matches Ok((_, end)) ==> pos < end <= b.len(),
{
    if let Ok((_, p)) = spec_expiry(b, pos) {
        lemma_string_progress(b, p + 1);
        if let Ok((_, q)) = spec_text(b, p + 1) {
            lemma_string_progress(b, q);
        }
    }
}

pub proof fn lemma_entries_progress(b: Seq<u8>, pos: int, count: nat)
    requires
        0 <= pos <= b.len(),
    ensures
        spec_entries(b, pos, count) matches Ok((_, end)) ==> pos <= end <= b.len(),
    decreases count,
{
    if count > 0 {
        lemma_entry_progress(b, pos);
        if let Ok((_, p)) = spec_entry(b, pos) {
            lemma_entries_progress(b, p, (count - 1) as nat);
        }
    }
}

impl KeyValueDataUnit {
    pub fn decode_at(b: &[u8], pos: usize) -> (r: Result<(KeyValueDataUnit, usize), RdbError>)
        ensures
            decoded(r, spec_entry(b@, pos as int)),
    {
        if pos >= b.len() {
            return Err(RdbError::MissingBytes);
        }
        let (expiry, p) = if b[pos] == EXPIRY_MS_MARKER {
            if b.len() - pos < 9 {
                return Err(RdbError::MissingBytes);
            }
            let low = b[pos + 1] as u64 + b[pos + 2] as u64 * 0x100 + b[pos + 3] as u64 * 0x1_0000
                + b[pos + 4] as u64 * 0x100_0000;
            let high = b[pos + 5] as u64 + b[pos + 6] as u64 * 0x100 + b[pos + 7] as u64
                * 0x1_0000 + b[pos + 8] as u64 * 0x100_0000;
            (Some(low + high * 0x1_0000_0000), pos + 9)
        } else if b[pos] == EXPIRY_SECS_MARKER {
            if b.len() - pos < 5 {
                return Err(RdbError::MissingBytes);
            }
            let secs = b[pos + 1] as u64 + b[pos + 2] as u64 * 0x100 + b[pos + 3] as u64 * 0x1_0000
                + b[pos + 4] as u64 * 0x100_0000;
            (Some(secs * 1000), pos + 5)
        } else {
            (None, pos)
        };
        assert(spec_expiry(b@, pos as int) == Ok::<(Option<u64>, int), RdbError>((expiry, p as int)));
        if p >= b.len() {
            return Err(RdbError::MissingBytes);
        }
        if b[p] != STRING_TYPE {
            return Err(RdbError::UnsupportedValueType);
        }
        let (key, q) = match parse_text_at(b, p + 1) {
            Err(e) => {
                return Err(e);
            },
            Ok(x) => x,
        };
        let (value, end) = match parse_text_at(b, q) {
            Err(e) => {
                return Err(e);
            },
            Ok(x) => x,
        };
        Ok((KeyValueDataUnit { key, value, expiry }, end))
    }

    /// Decodes the record at the start of `input`, with the number of bytes
    /// it takes.
    pub fn decode(input: &[u8]) -> (r: Result<(KeyValueDataUnit, usize), RdbError>)
        ensures
            decoded(r, spec_entry(input@, 0)),
    {
        Self::decode_at(input, 0)
    }
}

/// The head of a sub-database: its index and the sizes of its two tables.
#[derive(Debug, Clone, Copy, PartialEq, Eq, Structural)]
pub struct DatabaseSubSectionHeader {
    pub index: usize,
    pub hash_table_size: usize,
    pub expiry_hash_table_size: usize,
}

impl View for DatabaseSubSectionHeader {
    type V = DatabaseSubSectionHeader;

    open spec fn view(&self) -> DatabaseSubSectionHeader {
        *self
    }
}

/// A sub-database head at `pos`: `0xFE`, the index, `0xFB`, and the two
/// table sizes, each length-encoded.
pub open spec fn spec_database_header(b: Seq<u8>, pos: int) -> Result<(DatabaseSubSectionHeader, int), RdbError> {
    if pos < 0 || pos >= b.len() {
        Err(RdbError::MissingBytes)
    } else if b[pos] != DATABASE_MARKER {
        Err(RdbError::UnexpectedByte)
    } else {
        match spec_length(b, pos + 1) {
            Err(e) => Err(e),
            Ok((index, p)) => if p >= b.len() {
                Err(RdbError::MissingBytes)
            } else if b[p] != TABLE_SIZES_MARKER {
                Err(RdbError::UnexpectedByte)
            } else {
                match spec_length(b, p + 1) {
                    Err(e) => Err(e),
                    Ok((size, q)) => match spec_length(b, q) {
                        Err(e) => Err(e),
                        Ok((expiry_size, end)) => Ok(
                            (
                                DatabaseSubSectionHeader {
                                    index: index.spec_value() as usize,
                                    hash_table_size: size.spec_value() as usize,
                                    expiry_hash_table_size: expiry_size.spec_value() as usize,
                                },
                                end,
                            ),
                        ),
                    },
                }
            },
        }
    }
}

pub proof fn lemma_database_header_progress(b: Seq<u8>, pos: int)
    ensures
        spec_database_header(b, pos) matches Ok((_, end)) ==> pos < end <= b.len(),
{
    lemma_length_progress(b, pos + 1);
    if let Ok((_, p)) = spec_length(b, pos + 1) {
        lemma_length_progress(b, p + 1);
        if let Ok((_, q)) = spec_length(b, p + 1) {
            lemma_length_progress(b, q);
        }
    }
}

impl DatabaseSubSectionHeader {
    pub fn decode_at(b: &[u8], pos: usize) -> (r: Result<(DatabaseSubSectionHeader, usize), RdbError>)
        ensures
            decoded(r, spec_database_header(b@, pos as int)),
    {
        if pos >= b.len() {
            return Err(RdbError::MissingBytes);
        }
        if b[pos] != DATABASE_MARKER {
            return Err(RdbError::UnexpectedByte);
        }
        let (index, p) = match parse_length_at(b, pos + 1) {
            Err(e) => {
                return Err(e);
            },
            Ok(x) => x,
        };
        if p >= b.len() {
            return Err(RdbError::MissingBytes);
        }
        if b[p] != TABLE_SIZES_MARKER {
            return Err(RdbError::UnexpectedByte);
        }
        let (size, q) = match parse_length_at(b, p + 1) {
            Err(e) => {
                return Err(e);
            },
            Ok(x) => x,
        };
        let (expiry_size, end) = match parse_length_at(b, q) {
            Err(e) => {
                return Err(e);
            },
            Ok(x) => x,
        };
        let header = DatabaseSubSectionHeader {
            index: length_value(index),
            hash_table_size: length_value(size),
            expiry_hash_table_size: length_value(expiry_size),
        };
        Ok((header, end))
    }

    /// Decodes the sub-database head at the start of `input`, with the number
    /// of bytes it takes.
    pub fn decode(input: &[u8]) -> (r: Result<(DatabaseSubSectionHeader, usize), RdbError>)
        ensures
            decoded(r, spec_database_header(input@, 0)),
    {
        Self::decode_at(input, 0)
    }
}

fn length_value(enc: LengthEncoding) -> (r: usize)
    ensures
        r == enc.spec_value() as usize,
{
    match enc {
        LengthEncoding::NormalLength(v) => v as usize,
        LengthEncoding::IntegerString(v) => v as usize,
    }
}

/// A sub-database: its head and its records.
#[derive(Debug, Clone, PartialEq, Eq)]
pub struct DatabaseSubSection {
    pub header: DatabaseSubSectionHeader,
    pub key_value_data_units: Vec<KeyValueDataUnit>,
}

impl View for DatabaseSubSection {
    type V = (DatabaseSubSectionHeader, Seq<(Seq<u8>, Seq<u8>, Option<u64>)>);

    open spec fn view(&self) -> (DatabaseSubSectionHeader, Seq<(Seq<u8>, Seq<u8>, Option<u64>)>) {
        (self.header, self.key_value_data_units@.map_values(|e: KeyValueDataUnit| e@))
    }
}

/// A sub-database at `pos`: its head, then as many records as the head's
/// hash-table size says.
pub open spec fn spec_database_section(b: Seq<u8>, pos: int) -> Result<
    ((DatabaseSubSectionHeader, Seq<(Seq<u8>, Seq<u8>, Option<u64>)>), int),
    RdbError,
> {
    match spec_database_header(b, pos) {
        Err(e) => Err(e),
        Ok((header, p)) => match spec_entries(b, p, header.hash_table_size as nat) {
            Err(e) => Err(e),
            Ok((entries, end)) => Ok(((header, entries), end)),
        },
    }
}

pub proof fn lemma_database_section_progress(b: Seq<u8>, pos: int)
    ensures
        spec_database_section(b, pos) matches Ok((_, end)) ==> pos < end <= b.len(),
{
    lemma_database_header_progress(b, pos);
    if let Ok((header, p)) = spec_database_header(b, pos) {
        lemma_entries_progress(b, p, header.hash_table_size as nat);
    }
}

impl DatabaseSubSection {
    pub fn decode_at(b: &[u8], pos: usize) -> (r: Result<(DatabaseSubSection, usize), RdbError>)
        ensures
            decoded(r, spec_database_section(b@, pos as int)),
    {
        let (header, start) = match DatabaseSubSectionHeader::decode_at(b, pos) {
            Err(e) => {
                return Err(e);
            },
            Ok(x) => x,
        };
        let ghost count = header.hash_table_size as nat;
        let mut units: Vec<KeyValueDataUnit> = Vec::new();
        let mut p: usize = start;
        let mut remaining: usize = header.hash_table_size;
        while remaining > 0
            invariant
                spec_database_section(b@, pos as int) == (match spec_entries(b@, start as int, count) {
                    Err(e) => Err(e),
                    Ok((entries, end)) => Ok(((header, entries), end)),
                }),
                spec_entries(b@, start as int, count) == (match spec_entries(b@, p as int, remaining as nat) {
                    Ok((rest, end)) => Ok((units@.map_values(|e: KeyValueDataUnit| e@) + rest, end)),
                    Err(e) => Err(e),
                }),
            decreases remaining,
        {
            let (unit, next) = match KeyValueDataUnit::decode_at(b, p) {
                Err(e) => {
                    return Err(e);
                },
                Ok(x) => x,
            };
            let ghost before = units@.map_values(|e: KeyValueDataUnit| e@);
            units.push(unit);
            proof {
                assert(units@.map_values(|e: KeyValueDataUnit| e@) =~= before + seq![unit@]);
                if let Ok((rest, end)) = spec_entries(b@, next as int, (remaining - 1) as nat) {
                    assert(before + (seq![unit@] + rest) =~= (before + seq![unit@]) + rest);
                }
            }
            p = next;
            remaining = remaining - 1;
        }
        let ghost views = units@.map_values(|e: KeyValueDataUnit| e@);
        assert(views + Seq::<(Seq<u8>, Seq<u8>, Option<u64>)>::empty() =~= views);
        Ok((DatabaseSubSection { header, key_value_data_units: units }, p))
    }

    /// Decodes the sub-database at the start of `input`, with the number of
    /// bytes it takes.
    pub fn decode(input: &[u8]) -> (r: Result<(DatabaseSubSection, usize), RdbError>)
        ensures
            decoded(r, spec_database_section(input@, 0)),
    {
        Self::decode_at(input, 0)
    }
}

/// The database section: the sub-databases, in order.
#[derive(Debug, Clone, PartialEq, Eq)]
pub struct Database {
    pub subsections: Vec<DatabaseSubSection>,
}

impl View for Database {
    type V = Seq<(DatabaseSubSectionHeader, Seq<(Seq<u8>, Seq<u8>, Option<u64>)>)>;

    open spec fn view(&self) -> Seq<(DatabaseSubSectionHeader, Seq<(Seq<u8>, Seq<u8>, Option<u64>)>)> {
        self.subsections@.map_values(|s: DatabaseSubSection| s@)
    }
}

/// The sub-databases from `pos` on, up to the first byte that is not `0xFE`.
pub open spec fn spec_database(b: Seq<u8>, pos: int) -> Result<
    (Seq<(DatabaseSubSectionHeader, Seq<(Seq<u8>, Seq<u8>, Option<u64>)>)>, int),
    RdbError,
>
    decreases b.len() - pos,
{
    if pos < 0 || pos >= b.len() {
        Err(RdbError::MissingBytes)
    } else if b[pos] != DATABASE_MARKER {
        Ok((Seq::empty(), pos))
    } else {
        match spec_database_section(b, pos) {
            Err(e) => Err(e),
            Ok((section, p)) => {
                proof {
                    lemma_database_section_progress(b, pos);
                }
                match spec_database(b, p) {
                    Err(e) => Err(e),
                    Ok((rest, end)) => Ok((seq![section] + rest, end)),
                }
            },
        }
    }
}

impl Database {
    pub fn decode_at(b: &[u8], pos: usize) -> (r: Result<(Database, usize), RdbError>)
        ensures
            decoded(r, spec_database(b@, pos as int)),
    {
        let mut subsections: Vec<DatabaseSubSection> = Vec::new();
        let mut p: usize = pos;
        loop
            invariant
                spec_database(b@, pos as int) == (match spec_database(b@, p as int) {
                    Ok((rest, end)) => Ok(
                        (subsections@.map_values(|s: DatabaseSubSection| s@) + rest, end),
                    ),
                    Err(e) => Err(e),
                }),
            decreases b@.len() - p,
        {
            if p >= b.len() {
                return Err(RdbError::MissingBytes);
            }
            if b[p] != DATABASE_MARKER {
                let ghost views = subsections@.map_values(|s: DatabaseSubSection| s@);
                assert(views + Seq::<(DatabaseSubSectionHeader, Seq<(Seq<u8>, Seq<u8>, Option<u64>)>)>::empty() =~= views);
                return Ok((Database { subsections }, p));
            }
            let (sub, next) = match DatabaseSubSection::decode_at(b, p) {
                Err(e) => {
                    return Err(e);
                },
                Ok(x) => x,
            };
            proof {
                lemma_database_section_progress(b@, p as int);
            }
            let ghost before = subsections@.map_values(|s: DatabaseSubSection| s@);
            subsections.push(sub);
            proof {
                assert(subsections@.map_values(|s: DatabaseSubSection| s@) =~= before + seq![sub@]);
                if let Ok((rest, end)) = spec_database(b@, next as int) {
                    assert(before + (seq![sub@] + rest) =~= (before + seq![sub@]) + rest);
                }
            }
            p = next;
        }
    }

    /// Decodes the database section at the start of `input`, with the number
    /// of bytes it takes.
    pub fn decode(input: &[u8]) -> (r: Result<(Database, usize), RdbError>)
        ensures
            decoded(r, spec_database(input@, 0)),
    {
        Self::decode_at(input, 0)
    }
}

/// The end of the file: the byte after the last sub-database.
#[derive(Debug, Clone, Copy, PartialEq, Eq, Structural)]
pub struct EndOfFile {}

/// A decoded snapshot.
#[derive(Debug, Clone, PartialEq, Eq)]
pub struct RdbFile {
    pub header: Header,
    pub metadata: MetadataSection,
    pub db: Database,
    pub eof: EndOfFile,
}

impl View for RdbFile {
    type V = (
        (Seq<u8>, Seq<u8>),
        Seq<(Seq<u8>, Seq<u8>)>,
        Seq<(DatabaseSubSectionHeader, Seq<(Seq<u8>, Seq<u8>, Option<u64>)>)>,
    );

    open spec fn view(&self) -> Self::V {
        (self.header@, self.metadata@, self.db@)
    }
}

/// A whole snapshot: the header in the first nine bytes, then the metadata,
/// then the database section, which must be followed by at least one byte.
pub open spec fn spec_rdb_file(b: Seq<u8>) -> Result<
    (
        (Seq<u8>, Seq<u8>),
        Seq<(Seq<u8>, Seq<u8>)>,
        Seq<(DatabaseSubSectionHeader, Seq<(Seq<u8>, Seq<u8>, Option<u64>)>)>,
    ),
    RdbError,
> {
    if b.len() < 9 {
        Err(RdbError::MissingBytes)
    } else {
        match spec_header(b.subrange(0, 9)) {
            Err(e) => Err(e),
            Ok(header) => match spec_metadata(b, 9) {
                Err(e) => Err(e),
                Ok((metadata, p)) => match spec_database(b, p) {
                    Err(e) => Err(e),
                    Ok((db, _)) => Ok((header, metadata, db)),
                },
            },
        }
    }
}

impl RdbFile {
    pub fn decode(input: &[u8]) -> (r: Result<RdbFile, RdbError>)
        ensures
            match r {
                Ok(f) => spec_rdb_file(input@) == Ok::<_, RdbError>(f@),
                Err(e) => spec_rdb_file(input@) == Err::<
                    (
                        (Seq<u8>, Seq<u8>),
                        Seq<(Seq<u8>, Seq<u8>)>,
                        Seq<(DatabaseSubSectionHeader, Seq<(Seq<u8>, Seq<u8>, Option<u64>)>)>,
                    ),
                    RdbError,
                >(e),
            },
    {
        if input.len() < 9 {
            return Err(RdbError::MissingBytes);
        }
        let raw_header = copy_range(input, 0, 9);
        let header = match Header::decode(raw_header.as_slice()) {
            Err(e) => {
                return Err(e);
            },
            Ok(h) => h,
        };
        let (metadata, p) = match MetadataSection::decode_at(input, 9) {
            Err(e) => {
                return Err(e);
            },
            Ok(x) => x,
        };
        let (db, _) = match Database::decode_at(input, p) {
            Err(e) => {
                return Err(e);
            },
            Ok(x) => x,
        };
        Ok(RdbFile { header, metadata, db, eof: EndOfFile {} })
    }

    pub fn get_database(&self) -> (r: &Database)
        ensures
            r == &self.db,
    {
        &self.db
    }
}

} // verus!
