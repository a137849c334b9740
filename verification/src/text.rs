//! ASCII text utilities shared by the rest of the library: decimal
//! rendering and parsing over byte strings, and conversion of ASCII byte
//! vectors into `String` values.

use vstd::prelude::*;

verus! {

/// The characters of an ASCII byte string, one character per byte.
pub open spec fn ascii_view(bytes: Seq<u8>) -> Seq<char> {
    bytes.map_values(|b: u8| b as char)
}

pub open spec fn is_ascii_digit(b: u8) -> bool {
    0x30 <= b <= 0x39
}

pub open spec fn all_digits(s: Seq<u8>) -> bool {
    forall|i: int| 0 <= i < s.len() ==> is_ascii_digit(#[trigger] s[i])
}

/// Value of one decimal digit byte; non-digits count as zero so that the
/// function is total.
pub open spec fn digit_val(b: u8) -> nat {
    if is_ascii_digit(b) {
        (b - 0x30) as nat
    } else {
        0
    }
}

/// Numeric value of a decimal digit string, most significant digit first.
pub open spec fn dec_value(s: Seq<u8>) -> nat
    decreases s.len(),
{
    if s.len() == 0 {
        0
    } else {
        dec_value(s.drop_last()) * 10 + digit_val(s.last())
    }
}

/// Decimal digit string of a number, without leading zeros.
pub open spec fn dec_bytes(n: nat) -> Seq<u8>
    decreases n,
{
    if n < 10 {
        seq![(n + 0x30) as u8]
    } else {
        dec_bytes(n / 10) + seq![(n % 10 + 0x30) as u8]
    }
}

/// A rendered number is a non-empty string of digits.
pub proof fn lemma_dec_bytes_digits(n: nat)
    ensures
        all_digits(dec_bytes(n)),
        dec_bytes(n).len() >= 1,
    decreases n,
{
    if n >= 10 {
        lemma_dec_bytes_digits(n / 10);
    }
}

/// Rendering and parsing are inverse: the digit string of a number reads
/// back as that number.
pub proof fn lemma_dec_round_trip(n: nat)
    ensures
        dec_value(dec_bytes(n)) == n,
    decreases n,
{
    if n < 10 {
        assert(dec_bytes(n).drop_last() =~= Seq::<u8>::empty());
        assert(dec_value(dec_bytes(n).drop_last()) == 0);
        assert(dec_bytes(n).last() == (n + 0x30) as u8);
        assert(digit_val((n + 0x30) as u8) == n);
        assert(dec_value(dec_bytes(n)) == dec_value(dec_bytes(n).drop_last()) * 10 + digit_val(
            dec_bytes(n).last(),
        ));
    } else {
        lemma_dec_round_trip(n / 10);
        assert(dec_bytes(n) == dec_bytes(n / 10) + seq![(n % 10 + 0x30) as u8]);
        assert(dec_bytes(n).drop_last() =~= dec_bytes(n / 10));
        assert(dec_bytes(n).last() == (n % 10 + 0x30) as u8);
        assert(digit_val((n % 10 + 0x30) as u8) == n % 10);
        assert(dec_value(dec_bytes(n)) == dec_value(dec_bytes(n).drop_last()) * 10 + digit_val(
            dec_bytes(n).last(),
        ));
        assert(dec_value(dec_bytes(n).drop_last()) == n / 10);
        assert(dec_value(dec_bytes(n)) == (n / 10) * 10 + n % 10);
        vstd::arithmetic::div_mod::lemma_fundamental_div_mod(n as int, 10);
        assert((n / 10) * 10 + n % 10 == n);
    }
}

pub fn u64_to_dec(n: u64) -> (r: Vec<u8>)
    ensures
        r@ == dec_bytes(n as nat),
    decreases n,
{
    if n < 10 {
        let mut v: Vec<u8> = Vec::new();
        v.push((n as u8) + 0x30);
        proof {
            assert(v@ =~= dec_bytes(n as nat));
        }
        v
    } else {
        let mut v = u64_to_dec(n / 10);
        v.push((n % 10) as u8 + 0x30);
        proof {
            assert(v@ =~= dec_bytes(n as nat));
        }
        v
    }
}

/// Relies on `String::from_utf8`: a vector of ASCII bytes converts to the
/// string holding exactly those characters.
#[verifier::external_body]
pub fn ascii_to_string(bytes: Vec<u8>) -> (r: String)
    requires
        forall|i: int| 0 <= i < bytes@.len() ==> bytes@[i] < 0x80,
    ensures
        r@ == ascii_view(bytes@),
{
    match String::from_utf8(bytes) {
        Ok(s) => s,
        Err(_) => String::new(),
    }
}

/// Decimal rendering of a number as a `String`.
pub fn u64_string(n: u64) -> (r: String)
    ensures
        r@ == ascii_view(dec_bytes(n as nat)),
{
    proof {
        lemma_dec_bytes_digits(n as nat);
    }
    ascii_to_string(u64_to_dec(n))
}

/// Value of a prefix never exceeds the value of a longer prefix of the
/// same digit string.
pub proof fn lemma_dec_value_prefix_mono(s: Seq<u8>, i: int, j: int)
    requires
        0 <= i <= j <= s.len(),
    ensures
        dec_value(s.take(i)) <= dec_value(s.take(j)),
    decreases j - i,
{
    if i < j {
        lemma_dec_value_prefix_mono(s, i, j - 1);
        assert(s.take(j).drop_last() =~= s.take(j - 1));
        assert(dec_value(s.take(j)) == dec_value(s.take(j - 1)) * 10 + digit_val(s.take(j).last()));
    }
}

/// Parses a whole byte string as a decimal number. Returns the value
/// exactly when the string is a non-empty run of digits whose value fits
/// in a `u64`.
pub fn parse_u64(s: &[u8]) -> (r: Option<u64>)
    ensures
        match r {
            Some(v) => s@.len() > 0 && all_digits(s@) && dec_value(s@) <= u64::MAX && v
                == dec_value(s@),
            None => !(s@.len() > 0 && all_digits(s@) && dec_value(s@) <= u64::MAX),
        },
{
    if s.len() == 0 {
        return None;
    }
    let mut acc: u64 = 0;
    let mut i: usize = 0;
    while i < s.len()
        invariant
            0 <= i <= s@.len(),
            all_digits(s@.take(i as int)),
            acc == dec_value(s@.take(i as int)),
        decreases s@.len() - i,
    {
        let b = s[i];
        if !(0x30 <= b && b <= 0x39) {
            assert(!is_ascii_digit(s@[i as int]));
            return None;
        }
        let d: u64 = (b - 0x30) as u64;
        proof {
            assert(s@.take(i + 1).drop_last() =~= s@.take(i as int));
            assert(dec_value(s@.take(i + 1)) == dec_value(s@.take(i as int)) * 10 + digit_val(
                s@[i as int],
            ));
        }
        if acc > u64::MAX / 10 || (acc == u64::MAX / 10 && d > u64::MAX % 10) {
            proof {
                assert(dec_value(s@.take(i + 1)) > u64::MAX);
                lemma_dec_value_prefix_mono(s@, i + 1, s@.len() as int);
                assert(s@.take(s@.len() as int) =~= s@);
            }
            return None;
        }
        acc = acc * 10 + d;
        i = i + 1;
    }
    proof {
        assert(s@.take(s@.len() as int) =~= s@);
    }
    Some(acc)
}

/// Whether a byte is horizontal whitespace (space or tab).
pub open spec fn is_blank(b: u8) -> bool {
    b == 0x20 || b == 0x09
}

/// Whether a byte is whitespace, newlines included.
pub open spec fn is_space(b: u8) -> bool {
    b == 0x20 || b == 0x09 || b == 0x0a || b == 0x0d
}

/// Length of the longest prefix made of whitespace of any kind.
pub open spec fn space_prefix_len(s: Seq<u8>) -> nat
    decreases s.len(),
{
    if s.len() > 0 && is_space(s[0]) {
        1 + space_prefix_len(s.drop_first())
    } else {
        0
    }
}

/// Length of the longest suffix made of whitespace of any kind.
pub open spec fn space_suffix_len(s: Seq<u8>) -> nat
    decreases s.len(),
{
    if s.len() > 0 && is_space(s.last()) {
        1 + space_suffix_len(s.drop_last())
    } else {
        0
    }
}

/// The byte string with its leading and trailing whitespace removed.
pub open spec fn spec_trimmed(s: Seq<u8>) -> Seq<u8> {
    let t = s.skip(space_prefix_len(s) as int);
    t.take((t.len() - space_suffix_len(t)) as int)
}

/// The whitespace prefix length is the index of the first non-space byte.
pub proof fn lemma_space_prefix_char(s: Seq<u8>, k: int)
    requires
        0 <= k <= s.len(),
        forall|m: int| 0 <= m < k ==> is_space(#[trigger] s[m]),
        k == s.len() || !is_space(s[k]),
    ensures
        space_prefix_len(s) == k,
    decreases k,
{
    if k > 0 {
        lemma_space_prefix_char(s.drop_first(), k - 1);
    }
}

/// The whitespace suffix length counts the spaces at the end.
pub proof fn lemma_space_suffix_char(s: Seq<u8>, k: int)
    requires
        0 <= k <= s.len(),
        forall|m: int| s.len() - k <= m < s.len() ==> is_space(#[trigger] s[m]),
        k == s.len() || !is_space(s[s.len() - k - 1]),
    ensures
        space_suffix_len(s) == k,
    decreases k,
{
    if k > 0 {
        assert(is_space(s.last()));
        assert forall|m: int|
            s.drop_last().len() - (k - 1) <= m < s.drop_last().len() implies is_space(
            #[trigger] s.drop_last()[m],
        ) by {
            assert(s.drop_last()[m] == s[m]);
        }
        lemma_space_suffix_char(s.drop_last(), k - 1);
    }
}

/// Parses a byte string as a decimal number after removing leading and
/// trailing whitespace, as when reading a figure out of a tool's output.
pub fn parse_u64_trimmed(s: &[u8]) -> (r: Option<u64>)
    ensures
        ({
            let t = spec_trimmed(s@);
            match r {
                Some(v) => t.len() > 0 && all_digits(t) && dec_value(t) <= u64::MAX && v
                    == dec_value(t),
                None => !(t.len() > 0 && all_digits(t) && dec_value(t) <= u64::MAX),
            }
        }),
{
    let n: usize = s.len();
    let mut i: usize = 0;
    while i < n && (s[i] == 0x20 || s[i] == 0x09 || s[i] == 0x0a || s[i] == 0x0d)
        invariant
            0 <= i <= n,
            n == s@.len(),
            forall|m: int| 0 <= m < i ==> is_space(#[trigger] s@[m]),
        decreases n - i,
    {
        i = i + 1;
    }
    let mut j: usize = n;
    while j > i && (s[j - 1] == 0x20 || s[j - 1] == 0x09 || s[j - 1] == 0x0a || s[j - 1] == 0x0d)
        invariant
            i <= j <= n,
            n == s@.len(),
            forall|m: int| j <= m < n ==> is_space(#[trigger] s@[m]),
        decreases j,
    {
        j = j - 1;
    }
    proof {
        lemma_space_prefix_char(s@, i as int);
        let t1 = s@.skip(i as int);
        assert forall|m: int| t1.len() - (n - j) <= m < t1.len() implies is_space(
            #[trigger] t1[m],
        ) by {
            assert(t1[m] == s@[i + m]);
        }
        if j > i {
            assert(t1[j - i - 1] == s@[j - 1]);
        }
        lemma_space_suffix_char(t1, n - j);
        assert(spec_trimmed(s@) =~= s@.subrange(i as int, j as int));
    }
    parse_u64(&s[i..j])
}

/// Length of the longest prefix made of horizontal whitespace.
pub open spec fn blank_prefix_len(s: Seq<u8>) -> nat
    decreases s.len(),
{
    if s.len() > 0 && is_blank(s[0]) {
        1 + blank_prefix_len(s.drop_first())
    } else {
        0
    }
}

/// Length of the longest prefix made of decimal digits.
pub open spec fn digit_prefix_len(s: Seq<u8>) -> nat
    decreases s.len(),
{
    if s.len() > 0 && is_ascii_digit(s[0]) {
        1 + digit_prefix_len(s.drop_first())
    } else {
        0
    }
}

pub proof fn lemma_blank_prefix_le_len(s: Seq<u8>)
    ensures
        blank_prefix_len(s) <= s.len(),
    decreases s.len(),
{
    if s.len() > 0 && is_blank(s[0]) {
        lemma_blank_prefix_le_len(s.drop_first());
    }
}

pub proof fn lemma_digit_prefix_le_len(s: Seq<u8>)
    ensures
        digit_prefix_len(s) <= s.len(),
    decreases s.len(),
{
    if s.len() > 0 && is_ascii_digit(s[0]) {
        lemma_digit_prefix_le_len(s.drop_first());
    }
}

/// The blank prefix length is the index of the first non-blank byte.
pub proof fn lemma_blank_prefix_char(s: Seq<u8>, k: int)
    requires
        0 <= k <= s.len(),
        forall|m: int| 0 <= m < k ==> is_blank(#[trigger] s[m]),
        k == s.len() || !is_blank(s[k]),
    ensures
        blank_prefix_len(s) == k,
    decreases k,
{
    if k == 0 {
    } else {
        lemma_blank_prefix_char(s.drop_first(), k - 1);
    }
}

/// The digit prefix length is the index of the first non-digit byte.
pub proof fn lemma_digit_prefix_char(s: Seq<u8>, k: int)
    requires
        0 <= k <= s.len(),
        forall|m: int| 0 <= m < k ==> is_ascii_digit(#[trigger] s[m]),
        k == s.len() || !is_ascii_digit(s[k]),
    ensures
        digit_prefix_len(s) == k,
    decreases k,
{
    if k == 0 {
    } else {
        lemma_digit_prefix_char(s.drop_first(), k - 1);
    }
}

/// Every byte inside the digit prefix is a digit.
pub proof fn lemma_digit_prefix_digits(s: Seq<u8>)
    ensures
        forall|i: int| 0 <= i < digit_prefix_len(s) ==> is_ascii_digit(#[trigger] s[i]),
    decreases s.len(),
{
    if s.len() > 0 && is_ascii_digit(s[0]) {
        lemma_digit_prefix_digits(s.drop_first());
        lemma_digit_prefix_le_len(s.drop_first());
        assert forall|i: int| 0 <= i < digit_prefix_len(s) implies is_ascii_digit(
            #[trigger] s[i],
        ) by {
            if i > 0 {
                assert(s.drop_first()[i - 1] == s[i]);
            }
        }
    }
}

/// Index of the first non-blank byte, computed executably.
pub fn skip_blanks(s: &[u8], from: usize) -> (r: usize)
    requires
        from <= s@.len(),
    ensures
        from <= r <= s@.len(),
        blank_prefix_len(s@.skip(from as int)) == r - from,
{
    let mut i: usize = from;
    while i < s.len() && (s[i] == 0x20 || s[i] == 0x09)
        invariant
            from <= i <= s@.len(),
            forall|m: int| from <= m < i ==> is_blank(#[trigger] s@[m]),
        decreases s@.len() - i,
    {
        i = i + 1;
    }
    proof {
        assert forall|m: int| 0 <= m < i - from implies is_blank(
            #[trigger] s@.skip(from as int)[m],
        ) by {
            assert(s@.skip(from as int)[m] == s@[from + m]);
        }
        if i < s@.len() {
            assert(s@.skip(from as int)[i - from] == s@[i as int]);
        }
        lemma_blank_prefix_char(s@.skip(from as int), i - from);
    }
    i
}

/// Index one past the last byte of the digit run beginning at `from`.
pub fn scan_digits(s: &[u8], from: usize) -> (r: usize)
    requires
        from <= s@.len(),
    ensures
        from <= r <= s@.len(),
        digit_prefix_len(s@.skip(from as int)) == r - from,
{
    let mut i: usize = from;
    while i < s.len() && 0x30 <= s[i] && s[i] <= 0x39
        invariant
            from <= i <= s@.len(),
            forall|m: int| from <= m < i ==> is_ascii_digit(#[trigger] s@[m]),
        decreases s@.len() - i,
    {
        i = i + 1;
    }
    proof {
        assert forall|m: int| 0 <= m < i - from implies is_ascii_digit(
            #[trigger] s@.skip(from as int)[m],
        ) by {
            assert(s@.skip(from as int)[m] == s@[from + m]);
        }
        if i < s@.len() {
            assert(s@.skip(from as int)[i - from] == s@[i as int]);
        }
        lemma_digit_prefix_char(s@.skip(from as int), i - from);
    }
    i
}

/// An element-for-element copy of a vector of strings.
pub fn clone_string_vec(v: &Vec<String>) -> (r: Vec<String>)
    ensures
        r@ == v@,
{
    let mut out: Vec<String> = Vec::new();
    let mut i: usize = 0;
    while i < v.len()
        invariant
            0 <= i <= v@.len(),
            out@ =~= v@.take(i as int),
        decreases v@.len() - i,
    {
        out.push(v[i].clone());
        proof {
            assert(out@ =~= v@.take(i + 1));
        }
        i = i + 1;
    }
    proof {
        assert(v@.take(v@.len() as int) =~= v@);
    }
    out
}

/// Whether `s` begins with `p` at offset `at`.
pub fn starts_with_at(s: &[u8], at: usize, p: &Vec<u8>) -> (r: bool)
    requires
        at <= s@.len(),
    ensures
        r == (s@.len() - at >= p@.len() && s@.skip(at as int).take(p@.len() as int) == p@),
{
    let n: usize = s.len();
    if n - at < p.len() {
        return false;
    }
    let mut i: usize = 0;
    while i < p.len()
        invariant
            0 <= i <= p@.len(),
            at + p@.len() <= n,
            n == s@.len(),
            forall|m: int| 0 <= m < i ==> s@[at + m] == p@[m],
        decreases p@.len() - i,
    {
        if s[at + i] != p[i] {
            proof {
                assert(s@.skip(at as int).take(p@.len() as int)[i as int] == s@[at + i]);
            }
            return false;
        }
        i = i + 1;
    }
    proof {
        assert(s@.skip(at as int).take(p@.len() as int) =~= p@);
    }
    true
}

} // verus!
