use sysinfo::linux::{
    extract_stat_fields, parse_io_content, parse_nul_entries, parse_uid_gid, record_from_stat,
    status_from_state_byte,
};
use sysinfo::process::{CounterSample, ProcessIdentity};
use sysinfo::stat::{parse_u64, parse_u64_or_zero, parse_stat_file, split_byte, split_ws};
use sysinfo::status::ProcessStatus;

fn parts_of(line: &str) -> Vec<Vec<u8>> {
    parse_stat_file(&line.as_bytes().to_vec()).expect("record must parse")
}

#[test]
fn stat_record_parses_positionally() {
    let parts = parts_of("1234 (bash) S 1 2 3");
    assert_eq!(parts[0], b"1234".to_vec());
    assert_eq!(parts[1], b"bash".to_vec());
    assert_eq!(parts[2], b"S".to_vec());
    assert_eq!(parts[3], b"1".to_vec());
    assert_eq!(parts[5], b"3".to_vec());
    assert_eq!(parts.len(), 6);
}

#[test]
fn name_with_grouping_punctuation_keeps_fields_unshifted() {
    // The free-text name holds the closing and opening punctuation
    // itself; the rightmost closing parenthesis still bounds it and
    // the numeric fields after it stay in their positions.
    let parts = parts_of("1234 (a)b(c) R 5678 9 10");
    assert_eq!(parts[0], b"1234".to_vec());
    assert_eq!(parts[1], b"a)b(c".to_vec());
    assert_eq!(parts[2], b"R".to_vec());
    assert_eq!(parts[3], b"5678".to_vec());
    assert_eq!(parts[4], b"9".to_vec());
    assert_eq!(parts[5], b"10".to_vec());
}

#[test]
fn name_with_spaces_is_one_field() {
    let parts = parts_of("7 (Web Content) Z 1");
    assert_eq!(parts[1], b"Web Content".to_vec());
    assert_eq!(parts[2], b"Z".to_vec());
}

#[test]
fn truncated_records_are_refused_not_panicked_on() {
    assert!(parse_stat_file(&b"".to_vec()).is_err());
    assert!(parse_stat_file(&b"1234".to_vec()).is_err());
    assert!(parse_stat_file(&b"1234 (truncated".to_vec()).is_err());
}

#[test]
fn short_records_are_refused_by_field_extraction() {
    let parts = parts_of("1 (x) S 1 2 3");
    assert!(extract_stat_fields(&parts).is_err());
}

#[test]
fn counter_fields_are_read_from_their_positions() {
    let parts = parts_of(
        "7 (worker) S 10 0 0 0 0 0 0 0 0 0 111 222 0 0 0 0 0 0 3000 4444 55",
    );
    let f = extract_stat_fields(&parts).expect("long enough");
    assert_eq!(f.status, ProcessStatus::Sleep);
    assert_eq!(f.parent, Some(10));
    assert_eq!(f.utime, 111);
    assert_eq!(f.stime, 222);
    assert_eq!(f.start_ticks, 3000);
    assert_eq!(f.virtual_memory, 4444);
    assert_eq!(f.rss_pages, 55);
}

#[test]
fn record_assembly_derives_start_and_run_time() {
    let parts = parts_of(
        "7 (worker) S 10 0 0 0 0 0 0 0 0 0 111 222 0 0 0 0 0 0 3000 4444 55",
    );
    let f = extract_stat_fields(&parts).unwrap();
    let r = record_from_stat(
        7,
        &f,
        4,
        500,
        10_000,
        100,
        None,
        ProcessIdentity::empty(),
        CounterSample::Missing,
        CounterSample::Missing,
    );
    // 3000 ticks at 100 per second: alive since second 30 of uptime
    // 500, so running 470 seconds, started at wall-clock 9530.
    assert_eq!(r.run_time, 470);
    assert_eq!(r.start_time, 9530);
    assert_eq!(r.memory, 220);
    assert_eq!(r.virtual_memory, 4444);
    assert_eq!(r.parent, Some(10));
}

#[test]
fn unsigned_numbers_parse_exactly() {
    assert_eq!(parse_u64(&b"123".to_vec()), Some(123));
    assert_eq!(parse_u64(&b"0".to_vec()), Some(0));
    assert_eq!(parse_u64(&b"".to_vec()), None);
    assert_eq!(parse_u64(&b"12a".to_vec()), None);
    assert_eq!(parse_u64(&b"-5".to_vec()), None);
    assert_eq!(parse_u64(&b"18446744073709551615".to_vec()), Some(u64::MAX));
    assert_eq!(parse_u64(&b"18446744073709551616".to_vec()), None);
    assert_eq!(parse_u64_or_zero(&b"junk".to_vec()), 0);
}

#[test]
fn effective_owner_ids_come_from_the_status_text() {
    let data = b"Name:\tbash\nUid:\t1000\t1001\t1002\t1003\nGid:\t2000\t2001\t2002\t2003\n";
    assert_eq!(parse_uid_gid(&data.to_vec()), Some((1001, 2001)));
}

#[test]
fn missing_owner_lines_yield_nothing() {
    assert_eq!(parse_uid_gid(&b"Name:\tbash\n".to_vec()), None);
    assert_eq!(parse_uid_gid(&b"Uid:\t1\t2\t3\t4\n".to_vec()), None);
}

#[test]
fn io_counters_are_sampled_from_their_lines() {
    let data = b"rchar: 1\nread_bytes: 100\nwrite_bytes: 200\n";
    let (read, written) = parse_io_content(&data.to_vec());
    assert_eq!(read, CounterSample::Value(100));
    assert_eq!(written, CounterSample::Value(200));
}

#[test]
fn absent_and_corrupt_io_counters_degrade() {
    let (read, written) = parse_io_content(&b"read_bytes: junk\n".to_vec());
    assert_eq!(read, CounterSample::Corrupt);
    assert_eq!(written, CounterSample::Missing);
    let (read, written) = parse_io_content(&b"".to_vec());
    assert_eq!(read, CounterSample::Missing);
    assert_eq!(written, CounterSample::Missing);
}

#[test]
fn command_line_entries_split_at_terminators() {
    let entries = parse_nul_entries(&b"/bin/ls\0-l\0".to_vec());
    assert_eq!(entries, vec![b"/bin/ls".to_vec(), b"-l".to_vec()]);
}

#[test]
fn unterminated_command_line_remainder_is_dropped() {
    let entries = parse_nul_entries(&b"/bin/ls\0half".to_vec());
    assert_eq!(entries, vec![b"/bin/ls".to_vec()]);
}

#[test]
fn command_line_entries_are_trimmed_and_empty_segments_skipped() {
    let entries = parse_nul_entries(&b" a \0\0b\0".to_vec());
    assert_eq!(entries, vec![b"a".to_vec(), b"b".to_vec()]);
}

#[test]
fn state_letters_map_to_the_shared_enumeration() {
    assert_eq!(status_from_state_byte(b'R'), ProcessStatus::Run);
    assert_eq!(status_from_state_byte(b'S'), ProcessStatus::Sleep);
    assert_eq!(status_from_state_byte(b'D'), ProcessStatus::Idle);
    assert_eq!(status_from_state_byte(b'Z'), ProcessStatus::Zombie);
    assert_eq!(status_from_state_byte(b'T'), ProcessStatus::Stop);
    assert_eq!(status_from_state_byte(b't'), ProcessStatus::Tracing);
    assert_eq!(status_from_state_byte(b'X'), ProcessStatus::Dead);
    assert_eq!(status_from_state_byte(b'K'), ProcessStatus::Wakekill);
    assert_eq!(status_from_state_byte(b'W'), ProcessStatus::Waking);
    assert_eq!(status_from_state_byte(b'P'), ProcessStatus::Parked);
    assert_eq!(status_from_state_byte(b'?'), ProcessStatus::Unknown(63));
}

#[test]
fn splitting_helpers_behave_like_their_models() {
    let fields = split_ws(&b"  a  bb\tc ".to_vec());
    assert_eq!(fields, vec![b"a".to_vec(), b"bb".to_vec(), b"c".to_vec()]);
    let lines = split_byte(&b"x\ny\n".to_vec(), b'\n');
    assert_eq!(lines, vec![b"x".to_vec(), b"y".to_vec(), b"".to_vec()]);
}

#[test]
fn a_realistic_init_record_parses_end_to_end() {
    let line = "1 (systemd) S 0 1 1 0 -1 4194560 38069 5911444 89 4327 361 168 7336 2702 20 0 1 0 3 175169536 2467 18446744073709551615";
    let parts = parts_of(line);
    let f = extract_stat_fields(&parts).expect("a full record");
    assert_eq!(f.status, ProcessStatus::Sleep);
    // The root of the process tree names parent zero: no parent.
    assert_eq!(f.parent, None);
    assert_eq!(f.utime, 361);
    assert_eq!(f.stime, 168);
    assert_eq!(f.start_ticks, 3);
    assert_eq!(f.virtual_memory, 175169536);
    assert_eq!(f.rss_pages, 2467);
}
