//! Hexadecimal text, decoded by verified code.
//!
//! Job messages carry the hash-valued header fields as hex strings; the
//! decoder here turns them back into raw bytes, accepting both upper- and
//! lower-case digits, and rejects anything else.

use vstd::prelude::*;
use vstd::string::StringSliceAdditionalSpecFns;

verus! {

/// `b` is the ASCII code of a hexadecimal digit.
pub open spec fn is_hex_digit(b: u8) -> bool {
    (0x30 <= b <= 0x39) || (0x41 <= b <= 0x46) || (0x61 <= b <= 0x66)
}

/// The value 0..=15 of the hexadecimal digit with ASCII code `b`.
pub open spec fn hex_digit_value(b: u8) -> u8 {
    if 0x30 <= b <= 0x39 {
        (b - 0x30) as u8
    } else if 0x41 <= b <= 0x46 {
        (b - 0x41 + 10) as u8
    } else {
        (b - 0x61 + 10) as u8
    }
}

/// `s` is well-formed hexadecimal text: an even number of hex digits.
pub open spec fn valid_hex(s: Seq<u8>) -> bool {
    s.len() % 2 == 0 && forall|i: int| 0 <= i < s.len() ==> is_hex_digit(s[i])
}

/// The bytes spelled by the hexadecimal text `s`, two digits per byte, most
/// significant digit first.
pub open spec fn hex_decoded(s: Seq<u8>) -> Seq<u8> {
    Seq::new((s.len() / 2) as nat, |i: int| (hex_digit_value(s[2 * i]) * 16 + hex_digit_value(s[2 * i + 1])) as u8)
}

/// The value of one hexadecimal digit byte, or `None` if it is no digit.
fn hex_digit(b: u8) -> (r: Option<u8>)
    ensures
        r is Some <==> is_hex_digit(b),
        r matches Some(v) ==> v == hex_digit_value(b),
{
    if 0x30 <= b && b <= 0x39 {
        Some(b - 0x30)
    } else if 0x41 <= b && b <= 0x46 {
        Some(b - 0x41 + 10)
    } else if 0x61 <= b && b <= 0x66 {
        Some(b - 0x61 + 10)
    } else {
        None
    }
}

/// Decode hexadecimal text to bytes.  Returns `None` exactly when the text
/// has odd length or holds a non-digit.
pub fn hex_decode(s: &str) -> (r: Option<Vec<u8>>)
    ensures
        r is Some <==> valid_hex(s.spec_bytes()),
        r matches Some(v) ==> v@ == hex_decoded(s.spec_bytes()),
{
    let bs = s.as_bytes();
    let n: usize = bs.len();
    if n % 2 != 0 {
        return None;
    }
    let mut out: Vec<u8> = Vec::new();
    let mut i: usize = 0;
    while i < n
        invariant
            n == bs@.len() < usize::MAX,
            bs@ == s.spec_bytes(),
            n % 2 == 0,
            i % 2 == 0,
            i <= n,
            out@.len() == i / 2,
            forall|k: int| 0 <= k < i ==> is_hex_digit(bs@[k]),
            forall|k: int|
                0 <= k < i / 2 ==> out@[k] == (hex_digit_value(bs@[2 * k]) * 16 + hex_digit_value(
                    bs@[2 * k + 1],
                )) as u8,
        decreases n - i,
    {
        let hi = match hex_digit(bs[i]) {
            Some(v) => v,
            None => {
                return None;
            },
        };
        let lo = match hex_digit(bs[i + 1]) {
            Some(v) => v,
            None => {
                return None;
            },
        };
        out.push(hi * 16 + lo);
        i = i + 2;
    }
    assert(out@ =~= hex_decoded(s.spec_bytes()));
    Some(out)
}

/// Decode hexadecimal text that must spell exactly 32 bytes.
pub fn hex_decode_32(s: &str) -> (r: Option<[u8; 32]>)
    ensures
        r is Some <==> valid_hex(s.spec_bytes()) && s.spec_bytes().len() == 64,
        r matches Some(a) ==> a@ == hex_decoded(s.spec_bytes()),
{
    let v = match hex_decode(s) {
        Some(v) => v,
        None => {
            return None;
        },
    };
    if v.len() != 32 {
        return None;
    }
    let mut a: [u8; 32] = [0; 32];
    let mut i: usize = 0;
    while i < 32
        invariant
            i <= 32,
            v@.len() == 32,
            a@.len() == 32,
            forall|k: int| 0 <= k < i ==> a@[k] == v@[k],
        decreases 32 - i,
    {
        a[i] = v[i];
        i = i + 1;
    }
    assert(a@ =~= v@);
    Some(a)
}

/// Decode hexadecimal text that must spell exactly 8 bytes.
pub fn hex_decode_8(s: &str) -> (r: Option<[u8; 8]>)
    ensures
        r is Some <==> valid_hex(s.spec_bytes()) && s.spec_bytes().len() == 16,
        r matches Some(a) ==> a@ == hex_decoded(s.spec_bytes()),
{
    let v = match hex_decode(s) {
        Some(v) => v,
        None => {
            return None;
        },
    };
    if v.len() != 8 {
        return None;
    }
    let mut a: [u8; 8] = [0; 8];
    let mut i: usize = 0;
    while i < 8
        invariant
            i <= 8,
            v@.len() == 8,
            a@.len() == 8,
            forall|k: int| 0 <= k < i ==> a@[k] == v@[k],
        decreases 8 - i,
    {
        a[i] = v[i];
        i = i + 1;
    }
    assert(a@ =~= v@);
    Some(a)
}

} // verus!
