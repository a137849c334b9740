use memsched::sampler::{parse_host_used_kb, parse_private_kb, sample_from_read, SampleError,
    ScriptedSampler};
use memsched::text::{parse_u64, parse_u64_trimmed, u64_string, u64_to_dec};

#[test]
fn parse_u64_plain() {
    assert_eq!(parse_u64(b"0"), Some(0));
    assert_eq!(parse_u64(b"123"), Some(123));
    assert_eq!(parse_u64(b"007"), Some(7));
}

#[test]
fn parse_u64_rejects_empty_and_nondigits() {
    assert_eq!(parse_u64(b""), None);
    assert_eq!(parse_u64(b"12a"), None);
    assert_eq!(parse_u64(b" 12"), None);
    assert_eq!(parse_u64(b"-4"), None);
}

#[test]
fn parse_u64_at_the_limit() {
    assert_eq!(parse_u64(b"18446744073709551615"), Some(u64::MAX));
    assert_eq!(parse_u64(b"18446744073709551616"), None);
}

#[test]
fn parse_u64_trimmed_strips_surrounding_whitespace() {
    assert_eq!(parse_u64_trimmed(b"  1234\n"), Some(1234));
    assert_eq!(parse_u64_trimmed(b"1234"), Some(1234));
    assert_eq!(parse_u64_trimmed(b"\t77 \r\n"), Some(77));
    assert_eq!(parse_u64_trimmed(b"  \n"), None);
    assert_eq!(parse_u64_trimmed(b"12 34"), None);
    assert_eq!(parse_u64_trimmed(b"x12"), None);
}

#[test]
fn u64_rendering() {
    assert_eq!(u64_string(0), "0");
    assert_eq!(u64_string(90210), "90210");
    assert_eq!(u64_string(u64::MAX), "18446744073709551615");
    assert_eq!(u64_to_dec(1024), b"1024".to_vec());
}

#[test]
fn private_memory_sums_clean_and_dirty_lines() {
    let text = b"Rss:     100 kB\n\
Private_Clean:      10 kB\n\
Private_Dirty:   7 kB\n\
Shared_Clean:       5 kB\n\
Private_Dirty: 3 kB\n";
    assert_eq!(parse_private_kb(text), Ok(20));
}

#[test]
fn private_memory_ignores_malformed_lines() {
    let text = b"Private_Clean: kB\n\
Private_Clean: 4 kBx\n\
Private_Cleanish: 9 kB\n\
Private_Dirty: 6 kB";
    assert_eq!(parse_private_kb(text), Ok(6));
}

#[test]
fn private_memory_of_empty_text_is_zero() {
    assert_eq!(parse_private_kb(b""), Ok(0));
}

#[test]
fn host_used_is_total_minus_free() {
    let text = b"MemTotal:     100 kB\nMemFree:      40 kB\nBuffers: 2 kB\n";
    assert_eq!(parse_host_used_kb(text), Ok(60));
}

#[test]
fn host_used_rejects_free_over_total() {
    let text = b"MemTotal: 10 kB\nMemFree: 40 kB\n";
    assert_eq!(parse_host_used_kb(text), Err(SampleError::Unreadable));
}

#[test]
fn missing_read_is_process_gone_not_zero() {
    assert_eq!(sample_from_read(&None), Err(SampleError::ProcessGone));
    assert_eq!(sample_from_read(&Some(b"Private_Clean: 8 kB".to_vec())), Ok(8));
}

#[test]
fn scripted_sampler_replays_then_reports_gone() {
    let mut s = ScriptedSampler::new(vec![Ok(5), Err(SampleError::Unreadable)]);
    assert_eq!(s.take_next(), Ok(5));
    assert_eq!(s.take_next(), Err(SampleError::Unreadable));
    assert_eq!(s.take_next(), Err(SampleError::ProcessGone));
}
