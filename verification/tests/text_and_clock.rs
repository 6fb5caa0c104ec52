use ralph::clock::{current_date, current_timestamp, format_date, format_timestamp, now_local, DateTime};
use ralph::progress::{log_entry, log_entry_now};
use ralph::text::{
    ends_with, i32_to_string, join_lines, split_lines, split_words, starts_with, trim,
    u64_to_string, u64_to_string_padded,
};

#[test]
fn trim_strips_both_ends() {
    assert_eq!(trim("  hello  "), "hello");
    assert_eq!(trim("\t\r\n x \n"), "x");
    assert_eq!(trim("inner  space"), "inner  space");
    assert_eq!(trim("   "), "");
    assert_eq!(trim(""), "");
}

#[test]
fn prefix_and_suffix_tests() {
    assert!(starts_with("brain-dump-001.md", "brain-dump-"));
    assert!(!starts_with("brain", "brain-dump-"));
    assert!(ends_with("note.md", ".md"));
    assert!(!ends_with("note.txt", ".md"));
    assert!(starts_with("abc", ""));
    assert!(ends_with("abc", ""));
}

#[test]
fn decimal_formatting() {
    assert_eq!(u64_to_string(0), "0");
    assert_eq!(u64_to_string(7), "7");
    assert_eq!(u64_to_string(120), "120");
    assert_eq!(u64_to_string(98765), "98765");
    assert_eq!(u64_to_string_padded(7, 3), "007");
    assert_eq!(u64_to_string_padded(0, 3), "000");
    assert_eq!(u64_to_string_padded(123, 3), "123");
    assert_eq!(u64_to_string_padded(1234, 3), "1234");
    assert_eq!(i32_to_string(0), "0");
    assert_eq!(i32_to_string(42), "42");
    assert_eq!(i32_to_string(-42), "-42");
    assert_eq!(i32_to_string(i32::MIN), "-2147483648");
}

#[test]
fn line_splitting_matches_line_semantics() {
    assert_eq!(split_lines("a\nb"), vec!["a", "b"]);
    assert_eq!(split_lines("a\r\nb\r\n"), vec!["a", "b"]);
    assert_eq!(split_lines("a\n\nb"), vec!["a", "", "b"]);
    assert_eq!(split_lines("a\n"), vec!["a"]);
    assert!(split_lines("").is_empty());
    assert_eq!(split_lines("a\r"), vec!["a\r"]);
}

#[test]
fn joining_lines_roundtrips_simple_text() {
    let lines = split_lines("one\ntwo\nthree");
    assert_eq!(join_lines(&lines), "one\ntwo\nthree");
    assert_eq!(join_lines(&Vec::new()), "");
    assert_eq!(join_lines(&vec!["solo".to_string()]), "solo");
}

#[test]
fn word_splitting_drops_all_whitespace() {
    assert_eq!(split_words("code --wait"), vec!["code", "--wait"]);
    assert_eq!(split_words("  a \t b  "), vec!["a", "b"]);
    assert!(split_words("").is_empty());
    assert!(split_words(" \t ").is_empty());
}

#[test]
fn date_and_timestamp_formats_pad_components() {
    let d = DateTime { year: 987, month: 6, day: 3, hour: 4, minute: 5, second: 9 };
    assert_eq!(format_date(&d), "0987-06-03");
    assert_eq!(format_timestamp(&d), "0987-06-03 04:05:09");
    let e = DateTime { year: 2025, month: 12, day: 31, hour: 23, minute: 59, second: 59 };
    assert_eq!(format_date(&e), "2025-12-31");
    assert_eq!(format_timestamp(&e), "2025-12-31 23:59:59");
}

#[test]
fn clock_reads_are_in_range_and_format() {
    let d = now_local();
    assert!((1..=12).contains(&d.month));
    assert!((1..=31).contains(&d.day));
    assert!(d.hour <= 23 && d.minute <= 59 && d.second <= 59);

    let date = current_date().expect("a contemporary year");
    assert_eq!(date.len(), 10);
    assert_eq!(&date[4..5], "-");
    assert_eq!(&date[7..8], "-");

    let ts = current_timestamp().expect("a contemporary year");
    assert_eq!(ts.len(), 19);
    assert_eq!(&ts[10..11], " ");
    assert_eq!(&ts[13..14], ":");
}

#[test]
fn log_entries_have_the_journal_shape() {
    assert_eq!(
        log_entry("2025-01-02 03:04:05", "Starting iteration 1"),
        "## [2025-01-02 03:04:05]\nStarting iteration 1\n"
    );
    let entry = log_entry_now("hello").expect("a contemporary year");
    assert!(entry.starts_with("## ["));
    assert!(entry.ends_with("]\nhello\n"));
    assert_eq!(entry.len(), "## []\nhello\n".len() + 19);
}
