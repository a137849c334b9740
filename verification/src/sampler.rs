//! Memory sampling: reading a point-in-time private-memory figure for one
//! process out of its memory-mapping accounting text, and a host-wide
//! figure out of the system memory accounting text.
//!
//! The accounting text is line-based. A value line reads
//! `<label> <value> kB`, and the private footprint of a process is the sum
//! of all `Private_Clean:` and `Private_Dirty:` lines — the memory the
//! process owns outright, excluding shared libraries and copy-on-write
//! pages. The reading of the text itself (and the existence check on the
//! process) happens outside the library; the parsing here is pure.

use vstd::prelude::*;

use crate::text::all_digits;
use crate::text::blank_prefix_len;
use crate::text::dec_value;
use crate::text::digit_prefix_len;
use crate::text::lemma_digit_prefix_digits;
use crate::text::parse_u64;
use crate::text::scan_digits;
use crate::text::skip_blanks;
use crate::text::starts_with_at;

verus! {

/// Why a sample could not be taken. Both cases are expected during normal
/// operation and mean "skip this cycle", never "crash the loop".
#[derive(Debug, Clone, Copy, PartialEq, Eq, Structural)]
pub enum SampleError {
    /// The target process no longer exists; its pid is stale.
    ProcessGone,
    /// The accounting data is malformed or out of range.
    Unreadable,
}

/// The value of a `<spaces> <digits> <spaces> kB` field, when the bytes
/// after a label have exactly that shape.
pub open spec fn kb_field_value(rest: Seq<u8>) -> Option<nat> {
    let b = blank_prefix_len(rest) as int;
    let t = rest.skip(b);
    let d = digit_prefix_len(t) as int;
    let g = blank_prefix_len(t.skip(d)) as int;
    if d > 0 && g > 0 && t.skip(d).skip(g) == seq![0x6bu8, 0x42u8] {
        Some(dec_value(t.take(d)))
    } else {
        None
    }
}

/// The value a line contributes for a given label: the kB field after the
/// label when the line starts with the label, nothing otherwise.
pub open spec fn line_kb(line: Seq<u8>, label: Seq<u8>) -> Option<nat> {
    if line.len() >= label.len() && line.take(label.len() as int) == label {
        kb_field_value(line.skip(label.len() as int))
    } else {
        None
    }
}

pub open spec fn or_zero(o: Option<nat>) -> nat {
    match o {
        Some(v) => v,
        None => 0,
    }
}

/// The lines of a text, split on newline bytes.
pub open spec fn lines_of(s: Seq<u8>) -> Seq<Seq<u8>>
    decreases s.len(),
{
    if s.len() == 0 {
        seq![Seq::<u8>::empty()]
    } else if s[0] == 0x0a {
        seq![Seq::<u8>::empty()] + lines_of(s.drop_first())
    } else {
        let r = lines_of(s.drop_first());
        seq![seq![s[0]] + r[0]] + r.drop_first()
    }
}

pub proof fn lemma_lines_nonempty(s: Seq<u8>)
    ensures
        lines_of(s).len() >= 1,
    decreases s.len(),
{
    if s.len() > 0 {
        lemma_lines_nonempty(s.drop_first());
    }
}

/// A text without newlines is one single line.
proof fn lemma_lines_single(s: Seq<u8>)
    requires
        forall|m: int| 0 <= m < s.len() ==> s[m] != 0x0a,
    ensures
        lines_of(s) == seq![s],
    decreases s.len(),
{
    if s.len() == 0 {
        assert(s =~= Seq::<u8>::empty());
        assert(lines_of(s) =~= seq![s]);
    } else {
        assert(s[0] != 0x0a);
        assert forall|m: int| 0 <= m < s.drop_first().len() implies s.drop_first()[m] != 0x0a by {
            assert(s.drop_first()[m] == s[m + 1]);
        }
        lemma_lines_single(s.drop_first());
        lemma_lines_nonempty(s.drop_first());
        let r = lines_of(s.drop_first());
        assert(r == seq![s.drop_first()]);
        assert(lines_of(s) == seq![seq![s[0]] + r[0]] + r.drop_first());
        assert(r[0] == s.drop_first());
        assert(seq![s[0]] + s.drop_first() =~= s);
        assert(r.drop_first() =~= Seq::<Seq<u8>>::empty());
        assert(lines_of(s) =~= seq![s]);
    }
}

/// Splitting at the first newline peels off the first line.
proof fn lemma_lines_split(s: Seq<u8>, i: int)
    requires
        0 <= i < s.len(),
        s[i] == 0x0a,
        forall|m: int| 0 <= m < i ==> s[m] != 0x0a,
    ensures
        lines_of(s) == seq![s.take(i)] + lines_of(s.skip(i + 1)),
    decreases i,
{
    if i == 0 {
        assert(s.take(0) =~= Seq::<u8>::empty());
        assert(s.drop_first() =~= s.skip(1));
        assert(lines_of(s) =~= seq![s.take(0)] + lines_of(s.skip(1)));
    } else {
        lemma_lines_split(s.drop_first(), i - 1);
        lemma_lines_nonempty(s.drop_first().skip(i));
        assert(s.drop_first().take(i - 1) =~= s.take(i).drop_first());
        assert(s.drop_first().skip(i) =~= s.skip(i + 1));
        assert(lines_of(s.drop_first()) == seq![s.take(i).drop_first()] + lines_of(s.skip(i + 1)));
        assert(lines_of(s.drop_first())[0] == s.take(i).drop_first());
        assert(seq![s[0]] + s.take(i).drop_first() =~= s.take(i));
        assert(lines_of(s.drop_first()).drop_first() =~= lines_of(s.skip(i + 1)));
        assert(lines_of(s) =~= seq![s.take(i)] + lines_of(s.skip(i + 1)));
    }
}

/// Sum of the values that a sequence of lines contributes for a label.
pub open spec fn label_sum_lines(ls: Seq<Seq<u8>>, label: Seq<u8>) -> nat
    decreases ls.len(),
{
    if ls.len() == 0 {
        0
    } else {
        or_zero(line_kb(ls[0], label)) + label_sum_lines(ls.drop_first(), label)
    }
}

/// Sum of the values of all lines of a text that carry the given label.
pub open spec fn label_kb_total(s: Seq<u8>, label: Seq<u8>) -> nat {
    label_sum_lines(lines_of(s), label)
}

/// Result of reading one kB field.
#[derive(Debug, Clone, Copy, PartialEq, Eq, Structural)]
enum KbField {
    Absent,
    Value(u64),
    TooBig,
}

/// Reads the `<spaces> <digits> <spaces> kB` field of a line remainder.
#[verifier::rlimit(60)]
fn parse_kb_field(rest: &[u8]) -> (r: KbField)
    ensures
        match r {
            KbField::Absent => kb_field_value(rest@) is None,
            KbField::Value(v) => kb_field_value(rest@) == Some(v as nat),
            KbField::TooBig => kb_field_value(rest@) is Some && kb_field_value(rest@)->Some_0
                > u64::MAX,
        },
{
    proof {
        assert(rest@.skip(0) =~= rest@);
    }
    let b = skip_blanks(rest, 0);
    let ghost t = rest@.skip(b as int);
    let d_end = scan_digits(rest, b);
    proof {
        assert(rest@.skip(b as int) == t);
    }
    if d_end == b {
        return KbField::Absent;
    }
    let g_end = skip_blanks(rest, d_end);
    proof {
        assert(t.skip((d_end - b) as int) =~= rest@.skip(d_end as int));
    }
    if g_end == d_end {
        return KbField::Absent;
    }
    let ghost tail = t.skip((d_end - b) as int).skip((g_end - d_end) as int);
    proof {
        assert(tail =~= rest@.skip(g_end as int));
    }
    if !(rest.len() - g_end == 2 && rest[g_end] == 0x6b && rest[g_end + 1] == 0x42) {
        proof {
            if tail.len() == 2 {
                assert(tail[0] == rest@[g_end as int]);
                assert(tail[1] == rest@[g_end + 1]);
                assert(tail != seq![0x6bu8, 0x42u8] ==> kb_field_value(rest@) is None);
                if tail == seq![0x6bu8, 0x42u8] {
                    assert(tail[0] == 0x6b && tail[1] == 0x42);
                }
            } else {
                assert(tail != seq![0x6bu8, 0x42u8]);
            }
        }
        return KbField::Absent;
    }
    proof {
        assert(tail =~= seq![0x6bu8, 0x42u8]);
        lemma_digit_prefix_digits(t);
        assert forall|m: int| 0 <= m < d_end - b implies crate::text::is_ascii_digit(
            #[trigger] rest@.subrange(b as int, d_end as int)[m],
        ) by {
            assert(rest@.subrange(b as int, d_end as int)[m] == t[m]);
        }
        assert(rest@.subrange(b as int, d_end as int) =~= t.take((d_end - b) as int));
    }
    match parse_u64(&rest[b..d_end]) {
        Some(v) => KbField::Value(v),
        None => {
            proof {
                assert(all_digits(t.take((d_end - b) as int)));
            }
            KbField::TooBig
        },
    }
}

/// Reads the value a line contributes for a label.
fn line_label_kb(line: &[u8], label: &Vec<u8>) -> (r: KbField)
    ensures
        match r {
            KbField::Absent => line_kb(line@, label@) is None,
            KbField::Value(v) => line_kb(line@, label@) == Some(v as nat),
            KbField::TooBig => line_kb(line@, label@) is Some && line_kb(line@, label@)->Some_0
                > u64::MAX,
        },
{
    proof {
        assert(line@.skip(0) =~= line@);
    }
    if !starts_with_at(line, 0, label) {
        return KbField::Absent;
    }
    proof {
        assert(line@.skip(label@.len() as int) =~= line@.skip(label@.len() as int));
    }
    parse_kb_field(&line[label.len()..line.len()])
}

/// Index of the first newline at or after `from`, or the text's length.
fn find_nl(s: &[u8], from: usize) -> (r: usize)
    requires
        from <= s@.len(),
    ensures
        from <= r <= s@.len(),
        forall|m: int| from <= m < r ==> s@[m] != 0x0a,
        r < s@.len() ==> s@[r as int] == 0x0a,
{
    let mut i: usize = from;
    while i < s.len() && s[i] != 0x0a
        invariant
            from <= i <= s@.len(),
            forall|m: int| from <= m < i ==> s@[m] != 0x0a,
        decreases s@.len() - i,
    {
        i = i + 1;
    }
    i
}

/// Sums the values of all lines carrying the given label. Fails only when
/// the true sum does not fit in a `u64`.
pub fn sum_label_kb(s: &[u8], label: &Vec<u8>) -> (r: Result<u64, SampleError>)
    ensures
        match r {
            Ok(v) => v == label_kb_total(s@, label@) && label_kb_total(s@, label@) <= u64::MAX,
            Err(e) => e == SampleError::Unreadable && label_kb_total(s@, label@) > u64::MAX,
        },
{
    let mut acc: u64 = 0;
    let mut pos: usize = 0;
    proof {
        assert(s@.skip(0) =~= s@);
    }
    loop
        invariant
            pos <= s@.len(),
            label_kb_total(s@, label@) == acc + label_sum_lines(lines_of(s@.skip(pos as int)), label@),
        decreases s@.len() - pos,
    {
        let j = find_nl(s, pos);
        let ghost t = s@.skip(pos as int);
        let ghost line = s@.subrange(pos as int, j as int);
        proof {
            assert(line =~= t.take((j - pos) as int));
            lemma_lines_nonempty(t);
            if j < s@.len() {
                assert forall|m: int| 0 <= m < j - pos implies t[m] != 0x0a by {
                    assert(t[m] == s@[pos + m]);
                }
                assert(t[(j - pos) as int] == s@[j as int]);
                lemma_lines_split(t, (j - pos) as int);
                assert(t.take((j - pos) as int) == line);
                assert(t.skip((j - pos + 1) as int) =~= s@.skip((j + 1) as int));
                assert(lines_of(t) == seq![line] + lines_of(s@.skip((j + 1) as int)));
            } else {
                assert forall|m: int| 0 <= m < t.len() implies t[m] != 0x0a by {
                    assert(t[m] == s@[pos + m]);
                }
                assert(line =~= t);
                lemma_lines_single(t);
                assert(lines_of(t) == seq![line]);
            }
            assert(lines_of(t)[0] == line);
            assert(label_sum_lines(lines_of(t), label@) == or_zero(line_kb(line, label@))
                + label_sum_lines(lines_of(t).drop_first(), label@));
        }
        match line_label_kb(&s[pos..j], label) {
            KbField::Absent => {},
            KbField::Value(v) => {
                if v > u64::MAX - acc {
                    proof {
                        assert(label_kb_total(s@, label@) > u64::MAX);
                    }
                    return Err(SampleError::Unreadable);
                }
                acc = acc + v;
            },
            KbField::TooBig => {
                proof {
                    assert(label_kb_total(s@, label@) > u64::MAX);
                }
                return Err(SampleError::Unreadable);
            },
        }
        if j == s.len() {
            proof {
                assert(lines_of(t).drop_first() =~= Seq::<Seq<u8>>::empty());
            }
            return Ok(acc);
        }
        proof {
            assert(lines_of(t).drop_first() =~= lines_of(s@.skip((j + 1) as int)));
        }
        pos = j + 1;
    }
}

/// The label of private-clean value lines: `Private_Clean:`.
pub open spec fn clean_label() -> Seq<u8> {
    seq![
        0x50u8,
        0x72u8,
        0x69u8,
        0x76u8,
        0x61u8,
        0x74u8,
        0x65u8,
        0x5fu8,
        0x43u8,
        0x6cu8,
        0x65u8,
        0x61u8,
        0x6eu8,
        0x3au8,
    ]
}

/// The label of private-dirty value lines: `Private_Dirty:`.
pub open spec fn dirty_label() -> Seq<u8> {
    seq![
        0x50u8,
        0x72u8,
        0x69u8,
        0x76u8,
        0x61u8,
        0x74u8,
        0x65u8,
        0x5fu8,
        0x44u8,
        0x69u8,
        0x72u8,
        0x74u8,
        0x79u8,
        0x3au8,
    ]
}

/// The label of the free-memory line of the system accounting: `MemFree:`.
pub open spec fn memfree_label() -> Seq<u8> {
    seq![0x4du8, 0x65u8, 0x6du8, 0x46u8, 0x72u8, 0x65u8, 0x65u8, 0x3au8]
}

/// The label of the total-memory line of the system accounting:
/// `MemTotal:`.
pub open spec fn memtotal_label() -> Seq<u8> {
    seq![0x4du8, 0x65u8, 0x6du8, 0x54u8, 0x6fu8, 0x74u8, 0x61u8, 0x6cu8, 0x3au8]
}

fn clean_label_vec() -> (r: Vec<u8>)
    ensures
        r@ == clean_label(),
{
    let mut v: Vec<u8> = Vec::new();
    v.push(0x50);
    v.push(0x72);
    v.push(0x69);
    v.push(0x76);
    v.push(0x61);
    v.push(0x74);
    v.push(0x65);
    v.push(0x5f);
    v.push(0x43);
    v.push(0x6c);
    v.push(0x65);
    v.push(0x61);
    v.push(0x6e);
    v.push(0x3a);
    proof {
        assert(v@ =~= clean_label());
    }
    v
}

fn dirty_label_vec() -> (r: Vec<u8>)
    ensures
        r@ == dirty_label(),
{
    let mut v: Vec<u8> = Vec::new();
    v.push(0x50);
    v.push(0x72);
    v.push(0x69);
    v.push(0x76);
    v.push(0x61);
    v.push(0x74);
    v.push(0x65);
    v.push(0x5f);
    v.push(0x44);
    v.push(0x69);
    v.push(0x72);
    v.push(0x74);
    v.push(0x79);
    v.push(0x3a);
    proof {
        assert(v@ =~= dirty_label());
    }
    v
}

fn memfree_label_vec() -> (r: Vec<u8>)
    ensures
        r@ == memfree_label(),
{
    let mut v: Vec<u8> = Vec::new();
    v.push(0x4d);
    v.push(0x65);
    v.push(0x6d);
    v.push(0x46);
    v.push(0x72);
    v.push(0x65);
    v.push(0x65);
    v.push(0x3a);
    proof {
        assert(v@ =~= memfree_label());
    }
    v
}

fn memtotal_label_vec() -> (r: Vec<u8>)
    ensures
        r@ == memtotal_label(),
{
    let mut v: Vec<u8> = Vec::new();
    v.push(0x4d);
    v.push(0x65);
    v.push(0x6d);
    v.push(0x54);
    v.push(0x6f);
    v.push(0x74);
    v.push(0x61);
    v.push(0x6c);
    v.push(0x3a);
    proof {
        assert(v@ =~= memtotal_label());
    }
    v
}

/// The private memory footprint recorded in a process's memory-mapping
/// accounting text: the sum of all private-clean and private-dirty lines,
/// in kilobytes.
pub open spec fn private_kb_total(s: Seq<u8>) -> nat {
    label_kb_total(s, clean_label()) + label_kb_total(s, dirty_label())
}

/// Parses the memory-mapping accounting text of one process into its
/// private memory footprint. Fails only when the true total does not fit
/// in a `u64`.
pub fn parse_private_kb(data: &[u8]) -> (r: Result<u64, SampleError>)
    ensures
        match r {
            Ok(v) => v == private_kb_total(data@) && private_kb_total(data@) <= u64::MAX,
            Err(e) => e == SampleError::Unreadable && private_kb_total(data@) > u64::MAX,
        },
{
    let clean_l = clean_label_vec();
    let dirty_l = dirty_label_vec();
    let clean = match sum_label_kb(data, &clean_l) {
        Ok(v) => v,
        Err(e) => {
            return Err(SampleError::Unreadable);
        },
    };
    let dirty = match sum_label_kb(data, &dirty_l) {
        Ok(v) => v,
        Err(e) => {
            return Err(SampleError::Unreadable);
        },
    };
    if dirty > u64::MAX - clean {
        return Err(SampleError::Unreadable);
    }
    Ok(clean + dirty)
}

/// Turns the outcome of reading a process's accounting data into a sample.
/// A missing read means the process is gone: the sampler reports that
/// explicitly, never a stale or zero figure.
pub fn sample_from_read(read: &Option<Vec<u8>>) -> (r: Result<u64, SampleError>)
    ensures
        read is None ==> r == Err::<u64, SampleError>(SampleError::ProcessGone),
        read matches Some(d) ==> match r {
            Ok(v) => v == private_kb_total(d@) && private_kb_total(d@) <= u64::MAX,
            Err(e) => e == SampleError::Unreadable && private_kb_total(d@) > u64::MAX,
        },
{
    match read {
        None => Err(SampleError::ProcessGone),
        Some(d) => parse_private_kb(d.as_slice()),
    }
}

/// The whole machine, as a sampling target for aggregate pressure.
#[derive(Debug, Clone, Copy, PartialEq, Eq, Structural)]
pub struct HostMachine {}

/// Parses the system memory accounting text into the host-wide used
/// figure: total minus free, in kilobytes. Fails when either figure does
/// not fit in a `u64` or free exceeds total.
pub fn parse_host_used_kb(data: &[u8]) -> (r: Result<u64, SampleError>)
    ensures
        ({
            let f = label_kb_total(data@, memfree_label());
            let t = label_kb_total(data@, memtotal_label());
            match r {
                Ok(v) => f <= u64::MAX && t <= u64::MAX && f <= t && v == t - f,
                Err(e) => e == SampleError::Unreadable && (f > u64::MAX || t > u64::MAX || f > t),
            }
        }),
{
    let free_l = memfree_label_vec();
    let total_l = memtotal_label_vec();
    let free = match sum_label_kb(data, &free_l) {
        Ok(v) => v,
        Err(e) => {
            return Err(SampleError::Unreadable);
        },
    };
    let total = match sum_label_kb(data, &total_l) {
        Ok(v) => v,
        Err(e) => {
            return Err(SampleError::Unreadable);
        },
    };
    if free > total {
        return Err(SampleError::Unreadable);
    }
    Ok(total - free)
}

/// A source of memory-usage samples. The real sources read accounting
/// data outside the library; a scripted source replays a fixed list.
pub trait MemoryUsage {
    fn memory_usage(&mut self) -> Result<u64, SampleError>;
}

/// A sampler that replays a fixed list of outcomes, for driving the
/// restart policy deterministically.
pub struct ScriptedSampler {
    pub samples: Vec<Result<u64, SampleError>>,
    pub next: usize,
}

impl ScriptedSampler {
    pub fn new(samples: Vec<Result<u64, SampleError>>) -> (r: Self)
        ensures
            r.samples == samples,
            r.next == 0,
    {
        ScriptedSampler { samples, next: 0 }
    }

    /// The next scripted outcome; the script reports the process gone once
    /// it runs out.
    pub fn take_next(&mut self) -> (r: Result<u64, SampleError>)
        ensures
            final(self).samples == old(self).samples,
            old(self).next < old(self).samples@.len() ==> (r == old(self).samples@[old(
                self,
            ).next as int] && final(self).next == old(self).next + 1),
            old(self).next >= old(self).samples@.len() ==> (r == Err::<u64, SampleError>(
                SampleError::ProcessGone,
            ) && final(self).next == old(self).next),
    {
        if self.next < self.samples.len() {
            let r = self.samples[self.next];
            self.next = self.next + 1;
            r
        } else {
            Err(SampleError::ProcessGone)
        }
    }
}

impl MemoryUsage for ScriptedSampler {
    fn memory_usage(&mut self) -> Result<u64, SampleError> {
        self.take_next()
    }
}

} // verus!
