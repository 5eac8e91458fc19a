use native_high_performance::telemetry::{
    disk_bytes_from_sectors, disk_stats_bytes, read_stats_record, scan_disk_stats, telemetry_delta,
    DiskStatsScan,
};
use native_high_performance::text::{chars_of, parse_u64_chars, split_fields};

fn lines(text: &[&str]) -> Vec<String> {
    text.iter().map(|l| l.to_string()).collect()
}

fn parse(s: &str) -> Option<u64> {
    parse_u64_chars(&s.chars().collect())
}

#[test]
fn sectors_of_the_named_device_are_counted_in_bytes() {
    let stats = lines(&[
        "   8       0 sda 1000 0 2000 0 3000 0 4000 0 0 0 0",
        "   8       1 sda1 10 0 20 0 30 0 40 0 0 0 0",
    ]);
    assert_eq!(scan_disk_stats(&stats, "sda"), DiskStatsScan::Sectors(4000));
    assert_eq!(disk_stats_bytes(&stats, "sda"), 4000 * 512);
    assert_eq!(disk_stats_bytes(&stats, "sda1"), 40 * 512);
}

#[test]
fn unknown_device_gives_zero() {
    let stats = lines(&["   8       0 sda 1000 0 2000 0 3000 0 4000 0 0 0 0"]);
    assert_eq!(scan_disk_stats(&stats, "nvme0n1"), DiskStatsScan::Absent);
    assert_eq!(disk_stats_bytes(&stats, "nvme0n1"), 0);
    assert_eq!(disk_stats_bytes(&Vec::new(), "sda"), 0);
}

#[test]
fn short_lines_and_unreadable_counts() {
    // Too few fields to name a device: skipped.
    let stats = lines(&["8 0 sda 1 2 3 4", "8 0 sda 1 2 3 4 5 6 77"]);
    assert_eq!(disk_stats_bytes(&stats, "sda"), 77 * 512);
    // A record of the device that ends before the sectors field.
    let short = lines(&["8 0 sda 1 2 3 4 5 6"]);
    assert_eq!(scan_disk_stats(&short, "sda"), DiskStatsScan::ShortRecord);
    // A count that does not read as a number lets the search go on.
    let bad = lines(&["8 0 sda 1 2 3 4 5 6 x7", "8 0 sda 1 2 3 4 5 6 8"]);
    assert_eq!(disk_stats_bytes(&bad, "sda"), 8 * 512);
}

#[test]
fn fields_are_split_on_unicode_white_space() {
    let line: Vec<char> = " a\tb\u{3000}c  \u{85}dd\n".chars().collect();
    let fields: Vec<String> = split_fields(&line).iter().map(|f| f.iter().collect()).collect();
    assert_eq!(fields, vec!["a", "b", "c", "dd"]);
    let expected: Vec<&str> = " a\tb\u{3000}c  \u{85}dd\n".split_whitespace().collect();
    assert_eq!(fields, expected);
    assert!(split_fields(&"   ".chars().collect()).is_empty());
    assert_eq!(chars_of("héllo"), vec!['h', 'é', 'l', 'l', 'o']);
}

#[test]
fn numbers_read_as_std_reads_them() {
    for s in ["0", "42", "+5", "+", "", "-1", "00012", "18446744073709551615", "18446744073709551616", "1 2", "99999999999999999999999"] {
        assert_eq!(parse(s), s.parse::<u64>().ok(), "{s:?}");
    }
    assert_eq!(parse("18446744073709551615"), Some(u64::MAX));
}

#[test]
fn delta_is_the_growth_or_zero() {
    assert_eq!(telemetry_delta(100, 250), 150);
    assert_eq!(telemetry_delta(250, 100), 0);
    assert_eq!(telemetry_delta(7, 7), 0);
    assert_eq!(telemetry_delta(0, u64::MAX), u64::MAX);
}

#[test]
fn single_lines_are_read_on_their_own() {
    let line = "   8       0 sda 1000 0 2000 0 3000 0 4000 0 0 0 0";
    assert_eq!(read_stats_record(line, "sda"), DiskStatsScan::Sectors(4000));
    assert_eq!(read_stats_record(line, "sdb"), DiskStatsScan::Absent);
    assert_eq!(read_stats_record("8 0 sda 1 2 3 4 5", "sda"), DiskStatsScan::ShortRecord);
    assert_eq!(read_stats_record("8 0 sda 1 2 3 4 5 6 -3", "sda"), DiskStatsScan::Absent);
    assert_eq!(disk_bytes_from_sectors(4000), 2_048_000);
    assert_eq!(disk_bytes_from_sectors(u64::MAX / 512), (u64::MAX / 512) * 512);
}
