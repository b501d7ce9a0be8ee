use dated_diary::commit::{Commit, Diary, FileParseError, Message};
use dated_diary::timestamp::{parse_timestamp, Timestamp};

fn ts(year: u16, month: u8, day: u8, hour: u8, minute: u8, second: u8) -> Timestamp {
    Timestamp { year, month, day, hour, minute, second, off_neg: false, off_hour: 0, off_min: 0 }
}

fn single_commit_diary(name: &str, t: Timestamp, text: &str) -> Diary {
    let msg = Message::from_commit(Commit::from(t, String::from(text)));
    Diary::from(String::from(name), vec![msg])
}

// The concrete scenario: one entry with one commit serializes to exactly
// the three expected lines and parses back to the identical structure.
#[test]
fn serialize_one_entry() {
    let d = single_commit_diary("j", ts(2024, 1, 1, 0, 0, 0), "hello");
    let s = d.serialize();
    assert_eq!(s, "j\n2024 Jan 01 00:00:00 +0000|hello\n;\n");
    let back = Diary::parse(&s).unwrap();
    assert_eq!(back, d);
}

#[test]
fn round_trip_multiple_entries_and_revisions() {
    let t1 = ts(2023, 12, 31, 23, 59, 58);
    let t2 = ts(2024, 2, 29, 6, 30, 0);
    let mut first = Message::from_commit(Commit::from(t1, String::from("draft")));
    first.push_commit(Commit::from(t2, String::from("final wording")));
    let second = Message::from_commit(Commit::from(t2, String::from("pipes | are | fine")));
    let d = Diary::from(String::from("work log"), vec![first, second]);
    let s = d.serialize();
    let back = Diary::parse(&s).unwrap();
    assert_eq!(back, d);
    assert_eq!(back.serialize(), s);
}

#[test]
fn round_trip_empty_name_and_empty_diary() {
    let d = Diary::new();
    let s = d.serialize();
    assert_eq!(s, "\n");
    assert_eq!(Diary::parse(&s).unwrap(), d);
    let d2 = single_commit_diary("", ts(2020, 7, 15, 12, 0, 1), "");
    assert_eq!(Diary::parse(&d2.serialize()).unwrap(), d2);
}

#[test]
fn parse_ignores_blank_lines_between_entries() {
    let text = "n\n\n2024 Jan 01 00:00:00 +0000|a\n\n;\n\n";
    let d = Diary::parse(text).unwrap();
    assert_eq!(d.message_count(), 1);
    let msg = d.message_at(0).unwrap();
    assert_eq!(msg.most_recent().unwrap().data(), "a");
}

// A commit line without the delimiter is rejected.
#[test]
fn parse_missing_delimiter_fails() {
    let r = Diary::parse("name\n2024 Jan 01 00:00:00 +0000NOPIPE\n;\n");
    assert_eq!(r.unwrap_err(), FileParseError::MissingDelimiter);
}

// A document whose last entry is never closed by `;` is rejected.
#[test]
fn parse_unterminated_entry_fails() {
    let r = Diary::parse("name\n2024 Jan 01 00:00:00 +0000|hello\n");
    assert_eq!(r.unwrap_err(), FileParseError::UnterminatedEntry);
}

#[test]
fn parse_bad_timestamp_fails() {
    let r = Diary::parse("name\nyesterday-ish|hello\n;\n");
    assert_eq!(r.unwrap_err(), FileParseError::BadTimestamp);
    let r2 = Diary::parse("name\n2024 Jan 01 00:00:99 +0000|hello\n;\n");
    assert_eq!(r2.unwrap_err(), FileParseError::BadTimestamp);
    let r3 = Diary::parse("name\n2024 Foo 01 00:00:00 +0000|hello\n;\n");
    assert_eq!(r3.unwrap_err(), FileParseError::BadTimestamp);
}

#[test]
fn parse_empty_entry_fails() {
    let r = Diary::parse("name\n;\n");
    assert_eq!(r.unwrap_err(), FileParseError::EmptyEntry);
}

#[test]
fn parse_commit_string_splits_at_first_pipe() {
    let c = dated_diary::codec::parse_commit_string("2024 Dec 09 08:07:06 -0130|a|b|c").unwrap();
    assert_eq!(c.data(), "a|b|c");
    let t = c.time();
    assert_eq!(t.year, 2024);
    assert_eq!(t.month, 12);
    assert_eq!(t.day, 9);
    assert_eq!(t.hour, 8);
    assert_eq!(t.minute, 7);
    assert_eq!(t.second, 6);
    assert!(t.off_neg);
    assert_eq!(t.off_hour, 1);
    assert_eq!(t.off_min, 30);
}

#[test]
fn timestamp_parser_accepts_exactly_the_fixed_format() {
    let good: Vec<char> = "2024 Jan 01 00:00:00 +0000".chars().collect();
    let t = parse_timestamp(&good).unwrap();
    assert_eq!(t, ts(2024, 1, 1, 0, 0, 0));
    let bad_day: Vec<char> = "2024 Jan 32 00:00:00 +0000".chars().collect();
    assert!(parse_timestamp(&bad_day).is_none());
    let zero_day: Vec<char> = "2024 Jan 00 00:00:00 +0000".chars().collect();
    assert!(parse_timestamp(&zero_day).is_none());
    let bad_sep: Vec<char> = "2024 Jan 01 00.00.00 +0000".chars().collect();
    assert!(parse_timestamp(&bad_sep).is_none());
    let short: Vec<char> = "2024 Jan 1 0:0:0 +0000".chars().collect();
    assert!(parse_timestamp(&short).is_none());
}

#[test]
fn every_month_round_trips() {
    let names = [
        "Jan", "Feb", "Mar", "Apr", "May", "Jun", "Jul", "Aug", "Sep", "Oct", "Nov", "Dec",
    ];
    for m in 1u8..=12 {
        let d = single_commit_diary("m", ts(2001, m, 28, 1, 2, 3), "x");
        let s = d.serialize();
        assert!(s.contains(names[(m - 1) as usize]));
        assert_eq!(Diary::parse(&s).unwrap(), d);
    }
}
