//! Hex payloads of the backend's bounded reads.
use vstd::prelude::*;
use crate::fault::ExportFault;
use crate::text::{chars_of, trim, trim_chars};

verus! {

/// A hex digit of either case.
pub open spec fn is_hex_digit(c: char) -> bool {
    ('0' <= c && c <= '9') || ('a' <= c && c <= 'f') || ('A' <= c && c <= 'F')
}

/// The value of a hex digit.
pub open spec fn nibble_value(c: char) -> nat {
    if '0' <= c && c <= '9' {
        (c as nat - '0' as nat) as nat
    } else if 'a' <= c && c <= 'f' {
        (c as nat - 'a' as nat + 10) as nat
    } else {
        (c as nat - 'A' as nat + 10) as nat
    }
}

/// `t` is an even number of hex digits.
pub open spec fn is_hex_text(t: Seq<char>) -> bool {
    t.len() % 2 == 0 && forall|i: int| 0 <= i < t.len() ==> is_hex_digit(#[trigger] t[i])
}

/// The bytes that the hex digits `t` write, two digits to a byte, high nibble first.
pub open spec fn hex_bytes(t: Seq<char>) -> Seq<u8> {
    Seq::new(
        t.len() / 2,
        |i: int| (nibble_value(t[2 * i]) * 16 + nibble_value(t[2 * i + 1])) as u8,
    )
}

/// The bytes that a payload `s` carries: the hex text between surrounding
/// whitespace, or a fault where that is not hex.
pub open spec fn payload_bytes(s: Seq<char>) -> Result<Seq<u8>, ExportFault> {
    if is_hex_text(trim(s)) {
        Ok(hex_bytes(trim(s)))
    } else {
        Err(ExportFault::MalformedPayload)
    }
}

fn nibble(c: char) -> (r: Option<u8>)
    ensures
        r is Some <==> is_hex_digit(c),
        r matches Some(v) ==> v as nat == nibble_value(c) && v < 16,
{
    if '0' <= c && c <= '9' {
        Some((c as u32 - '0' as u32) as u8)
    } else if 'a' <= c && c <= 'f' {
        Some((c as u32 - 'a' as u32 + 10) as u8)
    } else if 'A' <= c && c <= 'F' {
        Some((c as u32 - 'A' as u32 + 10) as u8)
    } else {
        None
    }
}

/// The bytes of a hex payload of the backend. Surrounding whitespace is
/// ignored; an odd number of digits or a character that is no hex digit is a
/// malformed payload.
pub fn decode_hex_bytes(data_hex: &str) -> (r: Result<Vec<u8>, ExportFault>)
    ensures
        match r {
            Ok(v) => payload_bytes(data_hex@) == Ok::<Seq<u8>, ExportFault>(v@),
            Err(e) => payload_bytes(data_hex@) == Err::<Seq<u8>, ExportFault>(e),
        },
{
    let all = chars_of(data_hex);
    let t = trim_chars(&all);
    let n = t.len();
    if n % 2 != 0 {
        return Err(ExportFault::MalformedPayload);
    }
    let mut out: Vec<u8> = Vec::new();
    let mut i: usize = 0;
    while i < n / 2
        invariant
            n == t@.len(),
            t@ == trim(data_hex@),
            n % 2 == 0,
            i <= n / 2,
            forall|k: int| 0 <= k < 2 * i ==> is_hex_digit(#[trigger] t@[k]),
            out@ =~= hex_bytes(t@).subrange(0, i as int),
        decreases n / 2 - i,
    {
        let hi = nibble(t[2 * i]);
        let lo = nibble(t[2 * i + 1]);
        match (hi, lo) {
            (Some(h), Some(l)) => {
                out.push(h * 16 + l);
            },
            _ => {
                proof {
                    if hi is None {
                        assert(!is_hex_digit(t@[2 * i as int]));
                    } else {
                        assert(!is_hex_digit(t@[2 * i + 1]));
                    }
                    assert(!is_hex_text(t@));
                }
                return Err(ExportFault::MalformedPayload);
            },
        }
        i = i + 1;
        assert(out@ =~= hex_bytes(t@).subrange(0, i as int));
    }
    assert(out@ =~= hex_bytes(t@));
    Ok(out)
}

} // verus!
