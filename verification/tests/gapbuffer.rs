use dated_diary::gapbuffer::{EditOp, GapBuffer};

#[test]
fn new_buffer_is_empty() {
    let gb = GapBuffer::new();
    assert_eq!(gb.as_string(), "");
    assert_eq!(gb.gap_start(), 0);
}

#[test]
fn from_string_puts_cursor_at_end() {
    let gb = GapBuffer::from_string(String::from("hello"));
    assert_eq!(gb.as_string(), "hello");
    assert_eq!(gb.gap_start(), 5);
    assert_eq!(gb.start(), 5);
}

#[test]
fn from_empty_string() {
    let gb = GapBuffer::from_string(String::new());
    assert_eq!(gb.as_string(), "");
    assert_eq!(gb.gap_start(), 0);
}

#[test]
fn put_inserts_at_cursor() {
    let mut gb = GapBuffer::new();
    gb.put('a');
    gb.put('b');
    gb.put('c');
    assert_eq!(gb.as_string(), "abc");
    gb.left();
    gb.put('x');
    assert_eq!(gb.as_string(), "abxc");
}

#[test]
fn back_deletes_before_cursor() {
    let mut gb = GapBuffer::from_string(String::from("abc"));
    gb.back();
    assert_eq!(gb.as_string(), "ab");
    gb.left();
    gb.back();
    assert_eq!(gb.as_string(), "b");
}

#[test]
fn delete_removes_after_cursor() {
    let mut gb = GapBuffer::from_string(String::from("abc"));
    gb.left();
    gb.delete();
    assert_eq!(gb.as_string(), "ab");
}

// Boundary operations change nothing: moving left at the start, moving
// right at the end, backspace at the start, delete at the end.
#[test]
fn boundary_ops_are_noops() {
    let mut gb = GapBuffer::from_string(String::from("ab"));
    gb.right();
    assert_eq!(gb.as_string(), "ab");
    assert_eq!(gb.gap_start(), 2);
    gb.delete();
    assert_eq!(gb.as_string(), "ab");
    gb.c_home();
    assert_eq!(gb.gap_start(), 0);
    gb.left();
    assert_eq!(gb.gap_start(), 0);
    gb.back();
    assert_eq!(gb.as_string(), "ab");
    assert_eq!(gb.gap_start(), 0);
}

#[test]
fn moves_do_not_change_content() {
    let mut gb = GapBuffer::from_string(String::from("hello world"));
    gb.left();
    gb.left();
    gb.right();
    gb.c_home();
    assert_eq!(gb.as_string(), "hello world");
    assert_eq!(gb.gap_start(), 0);
    gb.c_end();
    assert_eq!(gb.as_string(), "hello world");
    assert_eq!(gb.gap_start(), 11);
}

#[test]
fn c_home_far_from_start_rebuilds() {
    let long: String = std::iter::repeat('x').take(150).collect();
    let mut gb = GapBuffer::from_string(long.clone());
    assert_eq!(gb.gap_start(), 150);
    gb.c_home();
    assert_eq!(gb.gap_start(), 0);
    assert_eq!(gb.as_string(), long);
}

#[test]
fn clear_resets() {
    let mut gb = GapBuffer::from_string(String::from("abc"));
    gb.clear();
    assert_eq!(gb.as_string(), "");
    assert_eq!(gb.gap_start(), 0);
}

#[test]
fn trim_end_drops_trailing_whitespace() {
    let mut gb = GapBuffer::from_string(String::from("note  \t "));
    gb.trim_end();
    assert_eq!(gb.as_string(), "note");
    let mut gb2 = GapBuffer::from_string(String::from("   "));
    gb2.trim_end();
    assert_eq!(gb2.as_string(), "");
    let mut gb3 = GapBuffer::from_string(String::from("no trailing"));
    gb3.trim_end();
    assert_eq!(gb3.as_string(), "no trailing");
}

#[test]
fn trim_end_with_cursor_in_middle() {
    let mut gb = GapBuffer::from_string(String::from("ab   "));
    gb.c_home();
    gb.right();
    gb.trim_end();
    assert_eq!(gb.as_string(), "ab");
    assert_eq!(gb.gap_start(), 1);
}

#[test]
fn shrink_keeps_content_and_cursor() {
    let mut gb = GapBuffer::from_string(String::from("abcdef"));
    // Absorb enough characters into the gap to make it oversized.
    for _ in 0..1100 {
        gb.put('y');
    }
    for _ in 0..1100 {
        gb.back();
    }
    gb.shrink();
    assert_eq!(gb.as_string(), "abcdef");
    assert_eq!(gb.gap_start(), 6);
}

// A plain text-and-cursor model of the buffer, as an independent shadow
// implementation.
fn model_apply(mut text: Vec<char>, mut cursor: usize, ops: &[EditOp]) -> (Vec<char>, usize) {
    for op in ops {
        match *op {
            EditOp::Insert(c) => {
                text.insert(cursor, c);
                cursor += 1;
            }
            EditOp::DeleteBefore => {
                if cursor > 0 {
                    text.remove(cursor - 1);
                    cursor -= 1;
                }
            }
            EditOp::DeleteAfter => {
                if cursor < text.len() {
                    text.remove(cursor);
                }
            }
            EditOp::MoveLeft => {
                if cursor > 0 {
                    cursor -= 1;
                }
            }
            EditOp::MoveRight => {
                if cursor < text.len() {
                    cursor += 1;
                }
            }
            EditOp::MoveHome => {
                cursor = 0;
            }
        }
    }
    (text, cursor)
}

// The buffer agrees with the shadow model over a whole keystroke
// sequence, hammering every operation including its boundary cases.
#[test]
fn differential_against_reference_model() {
    let ops = vec![
        EditOp::Insert('h'),
        EditOp::Insert('e'),
        EditOp::Insert('y'),
        EditOp::MoveLeft,
        EditOp::MoveLeft,
        EditOp::MoveLeft,
        EditOp::MoveLeft,
        EditOp::Insert('T'),
        EditOp::MoveRight,
        EditOp::DeleteBefore,
        EditOp::DeleteAfter,
        EditOp::MoveRight,
        EditOp::MoveRight,
        EditOp::MoveRight,
        EditOp::Insert('!'),
        EditOp::MoveHome,
        EditOp::Insert('>'),
        EditOp::DeleteAfter,
        EditOp::DeleteBefore,
        EditOp::DeleteBefore,
        EditOp::MoveRight,
        EditOp::Insert('z'),
    ];
    let mut gb = GapBuffer::from_string(String::from("seed"));
    gb.apply_edits(&ops);
    let (text, cursor) = model_apply("seed".chars().collect(), 4, &ops);
    let expected: String = text.into_iter().collect();
    assert_eq!(gb.as_string(), expected);
    assert_eq!(gb.gap_start(), cursor);
}
