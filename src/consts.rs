//! Byte values of the wire protocol.
use vstd::prelude::*;

verus! {

pub const CR: u8 = 13;
pub const LF: u8 = 10;
/// `+`: simple strings; also an explicit sign.
pub const PLUS: u8 = 43;
/// `-`: errors; also the sign of a negative number.
pub const MINUS: u8 = 45;
/// `:`: integers.
pub const COLON: u8 = 58;
/// `$`: bulk strings.
pub const DOLLAR: u8 = 36;
/// `*`: arrays.
pub const STAR: u8 = 42;

} // verus!
