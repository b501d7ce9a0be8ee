use dated_diary::commit::{Commit, Diary, Message};
use dated_diary::timestamp::Timestamp;

fn ts(year: u16, month: u8, day: u8, hour: u8, minute: u8, second: u8) -> Timestamp {
    Timestamp { year, month, day, hour, minute, second, off_neg: false, off_hour: 0, off_min: 0 }
}

// Commit immutability: revising a message adds one commit on top and
// leaves the first commit's text and timestamp untouched.
#[test]
fn revision_never_touches_history() {
    let t1 = ts(2024, 3, 1, 10, 0, 0);
    let t2 = ts(2024, 3, 2, 11, 30, 5);
    let mut msg = Message::from_commit(Commit::from(t1, String::from("first wording")));
    msg.push_commit(Commit::from(t2, String::from("second wording")));
    assert_eq!(msg.commit_count(), 2);
    let oldest = msg.commit_at(0).unwrap();
    assert_eq!(oldest.data(), "first wording");
    assert_eq!(oldest.time(), t1);
    assert_eq!(msg.most_recent().unwrap().data(), "second wording");
    assert_eq!(msg.created(), Some(t1));
    assert_eq!(msg.modified(), Some(t2));
}

#[test]
fn empty_message_reports_nothing() {
    let msg = Message::new();
    assert!(msg.empty());
    assert_eq!(msg.commit_count(), 0);
    assert!(msg.created().is_none());
    assert!(msg.modified().is_none());
    assert!(msg.most_recent().is_none());
    assert!(msg.commit_at(0).is_none());
}

// Commit::new and Commit::from_data read the real clock; whatever instant
// it reports must fit the persisted text format.
#[test]
fn clock_commits_carry_valid_times() {
    let c = Commit::new();
    assert!(c.time().is_valid());
    assert_eq!(c.data(), "");
    let c2 = Commit::from_data(String::from("noted"));
    assert!(c2.time().is_valid());
    assert_eq!(c2.data(), "noted");
}

#[test]
fn diary_names() {
    let mut d = Diary::new();
    assert_eq!(d.name(), "");
    d.set_name(String::from("journal.txt"));
    assert_eq!(d.name(), "journal.txt");
}

#[test]
fn push_string_appends_single_commit_message() {
    let mut d = Diary::new();
    d.push_string(String::from("first entry  "));
    d.push_string(String::from("second entry"));
    assert_eq!(d.message_count(), 2);
    let m0 = d.message_at(0).unwrap();
    assert_eq!(m0.commit_count(), 1);
    assert_eq!(m0.most_recent().unwrap().data(), "first entry  ");
    assert!(m0.most_recent().unwrap().time().is_valid());
    assert_eq!(d.message_at(1).unwrap().most_recent().unwrap().data(), "second entry");
    assert!(d.message_at(2).is_none());
}

#[test]
fn push_msg_keeps_storage_order() {
    let t = ts(1999, 12, 31, 23, 59, 59);
    let mut d = Diary::new();
    d.push_msg(Message::from_commit(Commit::from(t, String::from("a"))));
    d.push_msg(Message::from_commit(Commit::from(t, String::from("b"))));
    assert_eq!(d.message_at(0).unwrap().most_recent().unwrap().data(), "a");
    assert_eq!(d.message_at(1).unwrap().most_recent().unwrap().data(), "b");
}

#[test]
fn revise_at_pushes_on_the_right_message() {
    let t = ts(2010, 6, 1, 0, 0, 0);
    let t2 = ts(2010, 6, 2, 0, 0, 0);
    let mut d = Diary::new();
    d.push_msg(Message::from_commit(Commit::from(t, String::from("a"))));
    d.push_msg(Message::from_commit(Commit::from(t, String::from("b"))));
    let ok = d.revise_at(1, Commit::from(t2, String::from("b2")));
    assert!(ok);
    assert_eq!(d.message_at(0).unwrap().commit_count(), 1);
    assert_eq!(d.message_at(1).unwrap().commit_count(), 2);
    assert_eq!(d.message_at(1).unwrap().most_recent().unwrap().data(), "b2");
    assert_eq!(d.message_at(1).unwrap().commit_at(0).unwrap().data(), "b");
    let out_of_range = d.revise_at(5, Commit::from(t2, String::from("x")));
    assert!(!out_of_range);
    assert_eq!(d.message_count(), 2);
}

#[test]
fn clamped_clock_fields() {
    let t = Timestamp::from_clock(2024, 5, 17, 23, 59, 59);
    assert_eq!(t, ts(2024, 5, 17, 23, 59, 59));
    assert!(t.is_valid());
    let far = Timestamp::from_clock(123456, 5, 17, 0, 0, 0);
    assert!(far.is_valid());
    assert_eq!(far.year, 9999);
    let bc = Timestamp::from_clock(-44, 3, 15, 12, 0, 0);
    assert!(bc.is_valid());
    assert_eq!(bc.year, 0);
}
