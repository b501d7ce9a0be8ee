use dated_diary::elphy::ascii_reversed;
use dated_diary::strutil::{is_line_ok, trim_end_str};
use dated_diary::util::current_time_string;
use dated_diary::word::next_word;

#[test]
fn next_word_stops_on_repeated_nonword_classes() {
    // Two spaces in a row: the second one is the stop.
    assert_eq!(next_word("a  b", 0), Some(2));
    // Two punctuation marks in a row.
    assert_eq!(next_word("a..b", 0), Some(2));
    // Ordinary letters never stop the cursor.
    assert_eq!(next_word("hello world", 0), None);
    // Starting past the end finds nothing.
    assert_eq!(next_word("hi", 5), None);
    assert_eq!(next_word("", 0), None);
    // The scan starts strictly after the current position.
    assert_eq!(next_word("x   y", 1), Some(2));
    assert_eq!(next_word("x   y", 2), Some(3));
}

#[test]
fn ascii_reversed_pads_and_mirrors() {
    assert_eq!(ascii_reversed("ab\ncdef"), "  ba\nfedc");
    assert_eq!(ascii_reversed("x"), "x");
    assert_eq!(ascii_reversed(""), "");
    assert_eq!(ascii_reversed("<-\n->"), "-<\n>-");
}

#[test]
fn trim_end_str_drops_trailing_whitespace_only() {
    assert_eq!(trim_end_str("  note \t\n"), "  note");
    assert_eq!(trim_end_str(""), "");
    assert_eq!(trim_end_str("   "), "");
    assert_eq!(trim_end_str("solid"), "solid");
}

#[test]
fn line_ok_rejects_newlines() {
    assert!(is_line_ok("one line"));
    assert!(!is_line_ok("two\nlines"));
    assert!(is_line_ok(""));
}

#[test]
fn current_time_string_has_the_display_shape() {
    let s = current_time_string();
    let v: Vec<char> = s.chars().collect();
    assert_eq!(v.len(), 22);
    assert_eq!(v[4], '-');
    assert_eq!(v[7], '-');
    assert_eq!(v[10], ' ');
    assert_eq!(v[13], ':');
    assert_eq!(v[16], ':');
    assert_eq!(v[19], ' ');
    assert!(v[20] == 'A' || v[20] == 'P');
    assert_eq!(v[21], 'M');
    for i in [0, 1, 2, 3, 5, 6, 8, 9, 11, 12, 14, 15, 17, 18] {
        assert!(v[i].is_ascii_digit());
    }
}
