//! Printable renderings of raw bytes for log lines.
use vstd::prelude::*;

verus! {

/// The byte as shown in a log line: printable ASCII and the space stay,
/// everything else becomes `.`.
pub open spec fn shown(b: u8) -> u8 {
    if 0x20 <= b <= 0x7e {
        b
    } else {
        0x2e
    }
}

/// Relies on `String::from_utf8`: ASCII bytes are valid UTF-8, and each
/// stands for the character with the same code.
#[verifier::external_body]
fn ascii_to_string(b: Vec<u8>) -> (r: String)
    requires
        forall|i: int| 0 <= i < b@.len() ==> b@[i] < 0x80,
    ensures
        r@ == b@.map_values(|c: u8| c as char),
{
    match String::from_utf8(b) {
        Ok(s) => s,
        Err(_) => String::new(),
    }
}

/// `bytes` with each byte shown as [`shown`] says.
pub fn generate_hex_log(bytes: &[u8]) -> (r: String)
    ensures
        r@ == bytes@.map_values(|b: u8| shown(b) as char),
{
    let mut out: Vec<u8> = Vec::new();
    let mut i: usize = 0;
    while i < bytes.len()
        invariant
            i <= bytes@.len(),
            out@ == bytes@.subrange(0, i as int).map_values(|b: u8| shown(b)),
        decreases bytes.len() - i,
    {
        let b = bytes[i];
        let c: u8 = if 0x20 <= b && b <= 0x7e {
            b
        } else {
            0x2e
        };
        out.push(c);
        i = i + 1;
        assert(out@ =~= bytes@.subrange(0, i as int).map_values(|b: u8| shown(b)));
    }
    assert(bytes@.subrange(0, i as int) =~= bytes@);
    let r = ascii_to_string(out);
    assert(r@ =~= bytes@.map_values(|b: u8| shown(b) as char));
    r
}

} // verus!
