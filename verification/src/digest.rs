//! Content digests for executable artifacts. A module's digest gives it a
//! stable identity independent of its filesystem path.

use vstd::prelude::*;

use crate::text::ascii_view;
use crate::text::ascii_to_string;

use sha2::Digest;

verus! {

/// The SHA-256 digest of a byte string. The digest is a pure function of
/// the input alone; its definition lives in the outside hash library.
pub uninterp spec fn sha256_of(data: Seq<u8>) -> Seq<u8>;

/// Relies on `sha2::Sha256` through the one-shot `Digest::digest`: the
/// digest depends on the input bytes alone, and is 32 bytes long.
#[verifier::external_body]
pub fn sha256(data: &Vec<u8>) -> (r: Vec<u8>)
    ensures
        r@ == sha256_of(data@),
        r@.len() == 32,
{
    sha2::Sha256::digest(data.as_slice()).to_vec()
}

/// Lowercase hexadecimal digit for a nibble value. Values of 16 and above
/// never arise; they map to `'0'` to keep the function total.
pub open spec fn hex_digit(d: u8) -> u8 {
    if d < 10 {
        (0x30 + d) as u8
    } else if d < 16 {
        (0x57 + d) as u8
    } else {
        0x30
    }
}

/// Lowercase hexadecimal rendering of a byte string, two digits per byte.
pub open spec fn hex_bytes_of(data: Seq<u8>) -> Seq<u8> {
    Seq::new(
        data.len() * 2,
        |i: int|
            if i % 2 == 0 {
                hex_digit(data[i / 2] / 16)
            } else {
                hex_digit(data[i / 2] % 16)
            },
    )
}

fn hex_digit_byte(d: u8) -> (r: u8)
    ensures
        r == hex_digit(d),
{
    if d < 10 {
        0x30 + d
    } else if d < 16 {
        0x57 + d
    } else {
        0x30
    }
}

pub fn to_hex(data: &Vec<u8>) -> (r: Vec<u8>)
    ensures
        r@ == hex_bytes_of(data@),
{
    let mut out: Vec<u8> = Vec::new();
    let mut i: usize = 0;
    while i < data.len()
        invariant
            0 <= i <= data@.len(),
            out@ =~= hex_bytes_of(data@).take(2 * i),
        decreases data@.len() - i,
    {
        let b = data[i];
        out.push(hex_digit_byte(b / 16));
        out.push(hex_digit_byte(b % 16));
        proof {
            assert(out@ =~= hex_bytes_of(data@).take(2 * (i + 1)));
        }
        i = i + 1;
    }
    proof {
        assert(hex_bytes_of(data@).take(2 * data@.len() as int) =~= hex_bytes_of(data@));
    }
    out
}

pub proof fn lemma_hex_ascii(data: Seq<u8>)
    ensures
        forall|i: int| 0 <= i < hex_bytes_of(data).len() ==> #[trigger] hex_bytes_of(data)[i]
            < 0x80,
{
}

/// The digest of a byte string, rendered as 64 lowercase hexadecimal
/// characters.
pub fn digest_string(data: &Vec<u8>) -> (r: String)
    ensures
        r@ == ascii_view(hex_bytes_of(sha256_of(data@))),
        r@.len() == 64,
{
    let d = sha256(data);
    proof {
        lemma_hex_ascii(d@);
    }
    ascii_to_string(to_hex(&d))
}

} // verus!
