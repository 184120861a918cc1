use vstd::prelude::*;

use vstd::utf8::encode_utf8;

use crate::error::Error;

verus! {

/// The value of one ASCII hex digit, either case.
pub open spec fn hex_digit(c: u8) -> Option<u8> {
    if 0x30 <= c <= 0x39 {
        Some((c - 0x30) as u8)
    } else if 0x61 <= c <= 0x66 {
        Some((c - 0x61 + 10) as u8)
    } else if 0x41 <= c <= 0x46 {
        Some((c - 0x41 + 10) as u8)
    } else {
        None
    }
}

/// The text with one leading `0x` removed, if it has one.
pub open spec fn strip_0x(t: Seq<u8>) -> Seq<u8> {
    if t.len() >= 2 && t[0] == 0x30 && t[1] == 0x78 {
        t.subrange(2, t.len() as int)
    } else {
        t
    }
}

/// An even number of hex digits.
pub open spec fn is_hex_digits(d: Seq<u8>) -> bool {
    &&& d.len() % 2 == 0
    &&& forall|i: int| 0 <= i < d.len() ==> (#[trigger] hex_digit(d[i])) is Some
}

/// The bytes spelled by pairs of hex digits, high nibble first.
pub open spec fn hex_bytes(d: Seq<u8>) -> Seq<u8> {
    Seq::new(
        d.len() / 2,
        |i: int| (hex_digit(d[2 * i])->0 * 16 + hex_digit(d[2 * i + 1])->0) as u8,
    )
}

/// What decoding the UTF-8 text `t` as hex yields: an optional `0x` prefix
/// followed by an even number of hex digits.
pub open spec fn hex_decode(t: Seq<u8>) -> Result<Seq<u8>, Error> {
    if is_hex_digits(strip_0x(t)) {
        Ok(hex_bytes(strip_0x(t)))
    } else {
        Err(Error::InvalidHexFormat)
    }
}

fn digit_value(c: u8) -> (r: Option<u8>)
    ensures
        r == hex_digit(c),
{
    if 0x30 <= c && c <= 0x39 {
        Some(c - 0x30)
    } else if 0x61 <= c && c <= 0x66 {
        Some(c - 0x61 + 10)
    } else if 0x41 <= c && c <= 0x46 {
        Some(c - 0x41 + 10)
    } else {
        None
    }
}

/// Decodes a hex string, with or without a `0x` prefix, into bytes.
pub fn hex_to_bytes(hex_str: &str) -> (r: Result<Vec<u8>, Error>)
    ensures
        match r {
            Ok(v) => hex_decode(encode_utf8(hex_str@)) == Ok::<Seq<u8>, Error>(v@),
            Err(e) => hex_decode(encode_utf8(hex_str@)) == Err::<Seq<u8>, Error>(e),
        },
{
    let t = hex_str.as_bytes();
    let ghost d = strip_0x(t@);
    let start: usize = if t.len() >= 2 && t[0] == 0x30 && t[1] == 0x78 {
        2
    } else {
        0
    };
    assert(d =~= t@.subrange(start as int, t@.len() as int));
    let n: usize = t.len() - start;
    if n % 2 != 0 {
        return Err(Error::InvalidHexFormat);
    }
    let half: usize = n / 2;
    let mut out: Vec<u8> = Vec::with_capacity(half);
    let mut k: usize = 0;
    while k < half
        invariant
            n == d.len(),
            n == 2 * half,
            t@ == encode_utf8(hex_str@),
            d == strip_0x(t@),
            half == d.len() / 2,
            d == t@.subrange(start as int, t@.len() as int),
            start + n == t@.len(),
            k <= half,
            out@.len() == k,
            forall|j: int| 0 <= j < 2 * k ==> (#[trigger] hex_digit(d[j])) is Some,
            forall|i: int| 0 <= i < k ==> out@[i] == hex_bytes(d)[i],
        decreases half - k,
    {
        let hi = digit_value(t[start + 2 * k]);
        let lo = digit_value(t[start + 2 * k + 1]);
        match (hi, lo) {
            (Some(h), Some(l)) => {
                assert(d[2 * k] == t@[start + 2 * k]);
                assert(d[2 * k + 1] == t@[start + 2 * k + 1]);
                out.push(h * 16 + l);
                k = k + 1;
                assert forall|j: int| 0 <= j < 2 * k implies (#[trigger] hex_digit(d[j])) is Some by {
                    if j >= 2 * k - 2 {
                        assert(j == 2 * k - 2 || j == 2 * k - 1);
                    }
                }
            },
            _ => {
                proof {
                    if hi is None {
                        assert(d[2 * k] == t@[start + 2 * k]);
                        assert(hex_digit(d[2 * k]) is None);
                    } else {
                        assert(d[2 * k + 1] == t@[start + 2 * k + 1]);
                        assert(hex_digit(d[2 * k + 1]) is None);
                    }
                }
                return Err(Error::InvalidHexFormat);
            },
        }
    }
    assert(out@ =~= hex_bytes(d));
    Ok(out)
}

} // verus!
