//! Instance and worker identifiers: 128-bit values that are globally
//! unique and time-sortable, with their canonical text renderings.

use vstd::prelude::*;

use crate::text::ascii_view;
use crate::text::ascii_to_string;
use crate::digest::hex_digit;

verus! {

/// Relies on `uuid::Uuid::new_v4` (read through `as_u128`): a freshly
/// drawn random identifier. Its source fixes the version nibble to 4 and
/// the variant bits to the RFC pattern; the rest is random.
#[verifier::external_body]
pub fn fresh_uuid() -> (r: u128)
    ensures
        (r >> 76) & 0xf == 4,
        (r >> 62) & 0x3 == 2,
{
    uuid::Uuid::new_v4().as_u128()
}

/// Relies on `ulid::Ulid::generate`: a fresh identifier built from the
/// current time and randomness. Nothing is promised of the value: it
/// depends on the clock and on chance.
#[verifier::external_body]
pub fn fresh_ulid() -> (r: u128) {
    ulid::Ulid::generate().0
}

/// Crockford base32 digit for a five-bit value. Values of 32 and above
/// never arise; they map to `'0'` to keep the function total.
pub open spec fn crockford_digit(d: u8) -> u8 {
    if d < 10 {
        (0x30 + d) as u8
    } else if d < 18 {
        (0x41 + (d - 10)) as u8
    } else if d < 20 {
        (0x4a + (d - 18)) as u8
    } else if d < 22 {
        (0x4d + (d - 20)) as u8
    } else if d < 27 {
        (0x50 + (d - 22)) as u8
    } else if d < 32 {
        (0x56 + (d - 27)) as u8
    } else {
        0x30
    }
}

/// The canonical 26-character Crockford base32 rendering of a 128-bit
/// identifier, most significant bits first.
pub open spec fn crockford_seq(v: u128) -> Seq<u8> {
    Seq::new(26, |i: int| crockford_digit(((v >> ((125 - 5 * i) as u128)) & 0x1f) as u8))
}

fn crockford_digit_byte(d: u8) -> (r: u8)
    ensures
        r == crockford_digit(d),
{
    if d < 10 {
        0x30 + d
    } else if d < 18 {
        0x41 + (d - 10)
    } else if d < 20 {
        0x4a + (d - 18)
    } else if d < 22 {
        0x4d + (d - 20)
    } else if d < 27 {
        0x50 + (d - 22)
    } else if d < 32 {
        0x56 + (d - 27)
    } else {
        0x30
    }
}

pub fn crockford_bytes(v: u128) -> (r: Vec<u8>)
    ensures
        r@ == crockford_seq(v),
{
    let mut out: Vec<u8> = Vec::new();
    let mut i: usize = 0;
    while i < 26
        invariant
            0 <= i <= 26,
            out@ =~= crockford_seq(v).take(i as int),
        decreases 26 - i,
    {
        let sh: u128 = (125 - 5 * i) as u128;
        let d: u8 = ((v >> sh) & 0x1f) as u8;
        out.push(crockford_digit_byte(d));
        proof {
            assert(out@ =~= crockford_seq(v).take(i + 1));
        }
        i = i + 1;
    }
    proof {
        assert(crockford_seq(v).take(26) =~= crockford_seq(v));
    }
    out
}

pub proof fn lemma_crockford_ascii(v: u128)
    ensures
        forall|i: int| 0 <= i < crockford_seq(v).len() ==> #[trigger] crockford_seq(v)[i] < 0x80,
{
}

/// The canonical text rendering of a 128-bit identifier: 26 characters.
pub fn crockford_string(v: u128) -> (r: String)
    ensures
        r@ == ascii_view(crockford_seq(v)),
        r@.len() == 26,
{
    proof {
        lemma_crockford_ascii(v);
    }
    ascii_to_string(crockford_bytes(v))
}

/// A globally unique, time-sortable identifier for one instance,
/// assigned when the instance is requested and never reused.
#[derive(Debug, Clone, Copy, PartialEq, Eq, Hash, PartialOrd, Ord, Structural)]
pub struct InstanceId(pub u128);

impl InstanceId {
    pub fn new(id: u128) -> (r: Self)
        ensures
            r.0 == id,
    {
        InstanceId(id)
    }

    /// Draws a fresh identifier.
    pub fn generate() -> Self {
        Self::new(fresh_ulid())
    }

    /// The canonical 26-character text rendering, in place of a
    /// `Display` rendering.
    pub fn to_id_string(&self) -> (r: String)
        ensures
            r@ == ascii_view(crockford_seq(self.0)),
            r@.len() == 26,
    {
        crockford_string(self.0)
    }
}

/// Identifier of one worker (the task pairing an instance with its
/// lifecycle handling).
#[derive(Debug, Clone, Copy, PartialEq, Eq, Hash, PartialOrd, Ord, Structural)]
pub struct WorkerId(pub u128);

impl WorkerId {
    pub fn new(id: u128) -> (r: Self)
        ensures
            r.0 == id,
    {
        WorkerId(id)
    }

    pub fn generate() -> Self {
        Self::new(fresh_ulid())
    }

    pub fn to_id_string(&self) -> (r: String)
        ensures
            r@ == ascii_view(crockford_seq(self.0)),
            r@.len() == 26,
    {
        crockford_string(self.0)
    }
}

/// One four-bit group of the hyphenated rendering, counted from the most
/// significant end.
pub open spec fn uuid_nibble(v: u128, j: int) -> u8 {
    hex_digit(((v >> ((124 - 4 * j) as u128)) & 0xf) as u8)
}

/// The standard hyphenated rendering of a 128-bit identifier: 32 lowercase
/// hexadecimal digits in groups of 8, 4, 4, 4 and 12, joined by hyphens.
pub open spec fn uuid_seq(v: u128) -> Seq<u8> {
    Seq::new(
        36,
        |i: int|
            if i == 8 || i == 13 || i == 18 || i == 23 {
                0x2du8
            } else if i < 8 {
                uuid_nibble(v, i)
            } else if i < 13 {
                uuid_nibble(v, i - 1)
            } else if i < 18 {
                uuid_nibble(v, i - 2)
            } else if i < 23 {
                uuid_nibble(v, i - 3)
            } else {
                uuid_nibble(v, i - 4)
            },
    )
}

fn hex_nibble_byte(v: u128, j: usize) -> (r: u8)
    requires
        j < 32,
    ensures
        r == uuid_nibble(v, j as int),
{
    let sh: u128 = (124 - 4 * j) as u128;
    let d: u8 = ((v >> sh) & 0xf) as u8;
    if d < 10 {
        0x30 + d
    } else if d < 16 {
        0x57 + d
    } else {
        0x30
    }
}

pub fn uuid_bytes(v: u128) -> (r: Vec<u8>)
    ensures
        r@ == uuid_seq(v),
{
    let mut out: Vec<u8> = Vec::new();
    let mut i: usize = 0;
    while i < 36
        invariant
            0 <= i <= 36,
            out@ =~= uuid_seq(v).take(i as int),
        decreases 36 - i,
    {
        if i == 8 || i == 13 || i == 18 || i == 23 {
            out.push(0x2d);
        } else if i < 8 {
            out.push(hex_nibble_byte(v, i));
        } else if i < 13 {
            out.push(hex_nibble_byte(v, i - 1));
        } else if i < 18 {
            out.push(hex_nibble_byte(v, i - 2));
        } else if i < 23 {
            out.push(hex_nibble_byte(v, i - 3));
        } else {
            out.push(hex_nibble_byte(v, i - 4));
        }
        proof {
            assert(out@ =~= uuid_seq(v).take(i + 1));
        }
        i = i + 1;
    }
    proof {
        assert(uuid_seq(v).take(36) =~= uuid_seq(v));
    }
    out
}

pub proof fn lemma_uuid_seq_ascii(v: u128)
    ensures
        forall|i: int| 0 <= i < uuid_seq(v).len() ==> #[trigger] uuid_seq(v)[i] < 0x80,
{
}

/// The standard hyphenated text rendering of an instance identifier:
/// 36 characters.
pub fn uuid_string(v: u128) -> (r: String)
    ensures
        r@ == ascii_view(uuid_seq(v)),
        r@.len() == 36,
{
    proof {
        lemma_uuid_seq_ascii(v);
    }
    ascii_to_string(uuid_bytes(v))
}

} // verus!
