use dated_diary::app::{Action, App, AppRoute, EditorMode, Key};
use dated_diary::commit::Diary;

fn type_str(app: &mut App, s: &str) {
    for c in s.chars() {
        let a = app.run(Key::Char(c));
        assert_eq!(a, Action::Nothing);
    }
}

#[test]
fn default_state() {
    let app = App::default();
    assert_eq!(app.route, AppRoute::Start);
    assert_eq!(app.mode, EditorMode::Normal);
    assert!(!app.should_quit());
    assert!(app.selected().is_none());
    assert_eq!(app.file.message_count(), 0);
    assert!(app.config.mru.is_empty());
}

#[test]
fn start_screen_navigation() {
    let mut app = App::default();
    app.config.mru.push_back(String::from("/tmp/a"));
    app.config.mru.push_back(String::from("/tmp/b"));
    // Up walks backwards from the end of the list; Down walks forward.
    app.run(Key::Up);
    assert_eq!(app.selected(), Some(1));
    app.run(Key::Up);
    assert_eq!(app.selected(), Some(0));
    app.run(Key::Down);
    assert_eq!(app.selected(), Some(1));
    app.run(Key::Esc);
    assert!(app.selected().is_none());
}

#[test]
fn start_screen_opens_selected_file() {
    let mut app = App::default();
    app.config.mru.push_back(String::from("/tmp/diary.txt"));
    app.run(Key::Up);
    assert_eq!(app.selected(), Some(0));
    let action = app.run(Key::Enter);
    assert_eq!(app.route, AppRoute::Edit);
    match action {
        Action::Load { path } => assert_eq!(path, "/tmp/diary.txt"),
        other => panic!("expected a load action, got {:?}", other),
    }
}

#[test]
fn writing_a_new_entry() {
    let mut app = App::default();
    app.run(Key::Char('n'));
    assert_eq!(app.route, AppRoute::Edit);
    app.run(Key::Char('i'));
    assert_eq!(app.mode, EditorMode::Writing);
    type_str(&mut app, "dear diary  ");
    app.run(Key::Left);
    app.run(Key::Right);
    let a = app.run(Key::Enter);
    assert_eq!(a, Action::Nothing);
    assert_eq!(app.file.message_count(), 1);
    let msg = app.file.message_at(0).unwrap();
    assert_eq!(msg.most_recent().unwrap().data(), "dear diary");
    assert_eq!(app.input.as_string(), "");
}

#[test]
fn writing_edits_respect_the_cursor() {
    let mut app = App::default();
    app.run(Key::Char('n'));
    app.run(Key::Char('i'));
    type_str(&mut app, "abc");
    app.run(Key::Left);
    app.run(Key::Backspace);
    assert_eq!(app.input.as_string(), "ac");
    app.run(Key::Delete);
    assert_eq!(app.input.as_string(), "a");
    app.run(Key::Delete);
    assert_eq!(app.input.as_string(), "a");
}

#[test]
fn revising_an_existing_entry() {
    let mut app = App::default();
    app.run(Key::Char('n'));
    app.run(Key::Char('i'));
    type_str(&mut app, "oldest");
    app.run(Key::Enter);
    type_str(&mut app, "newest");
    app.run(Key::Enter);
    app.run(Key::Esc);
    app.run(Key::BackTab);
    assert_eq!(app.mode, EditorMode::Normal);
    // Select the most recent row: display order is reversed, so row 0 is
    // the newest message, which sits last in storage.
    app.run(Key::Up);
    assert_eq!(app.selected(), Some(0));
    app.run(Key::Char('e'));
    assert_eq!(app.mode, EditorMode::Editing);
    assert_eq!(app.edit.as_ref().unwrap().index, 1);
    assert_eq!(app.edit.as_ref().unwrap().edit_input, "newest");
    type_str(&mut app, "!");
    app.run(Key::Enter);
    assert_eq!(app.mode, EditorMode::Normal);
    assert!(app.edit.is_none());
    let revised = app.file.message_at(1).unwrap();
    assert_eq!(revised.commit_count(), 2);
    assert_eq!(revised.commit_at(0).unwrap().data(), "newest");
    assert_eq!(revised.most_recent().unwrap().data(), "newest!");
    assert_eq!(app.file.message_at(0).unwrap().commit_count(), 1);
}

#[test]
fn editing_without_selection_falls_back_to_writing() {
    let mut app = App::default();
    app.run(Key::Char('n'));
    app.run(Key::Char('e'));
    assert_eq!(app.mode, EditorMode::Writing);
}

#[test]
fn saving_names_the_file_and_returns_a_write() {
    let mut app = App::default();
    app.run(Key::Char('n'));
    app.run(Key::Char('i'));
    type_str(&mut app, "entry");
    app.run(Key::Enter);
    app.run(Key::Esc);
    let a = app.run(Key::Char('w'));
    assert_eq!(a, Action::Nothing);
    assert_eq!(app.mode, EditorMode::Saving);
    type_str(&mut app, "mine.diary");
    let action = app.run(Key::Enter);
    assert_eq!(app.mode, EditorMode::Normal);
    assert_eq!(app.file.name(), "mine.diary");
    assert_eq!(app.temp_input, "");
    match action {
        Action::Write { path, contents, remember } => {
            assert_eq!(path, "mine.diary");
            assert!(remember);
            assert!(contents.starts_with("mine.diary\n"));
            assert!(contents.ends_with("|entry\n;\n"));
        }
        other => panic!("expected a write action, got {:?}", other),
    }
}

#[test]
fn saving_a_named_file_writes_in_place() {
    let mut app = App::default();
    app.run(Key::Char('n'));
    app.run(Key::Char('i'));
    type_str(&mut app, "entry");
    app.run(Key::Enter);
    app.run(Key::Esc);
    app.file.set_name(String::from("kept.diary"));
    let action = app.run(Key::Char('w'));
    match action {
        Action::Write { path, remember, .. } => {
            assert_eq!(path, "kept.diary");
            assert!(!remember);
        }
        other => panic!("expected a write action, got {:?}", other),
    }
    assert_eq!(app.mode, EditorMode::Normal);
}

#[test]
fn writing_with_nothing_to_write_sets_status() {
    let mut app = App::default();
    app.run(Key::Char('n'));
    app.run(Key::Char('w'));
    assert_eq!(app.status_msg, "Nothing to write!...");
    app.run(Key::Char('W'));
    assert_eq!(app.status_msg, "Nothing to write!...");
}

#[test]
fn quit_flow() {
    let mut app = App::default();
    app.run(Key::Char('q'));
    assert_eq!(app.route, AppRoute::PreQuit);
    app.run(Key::Char('n'));
    assert_eq!(app.route, AppRoute::Edit);
    app.run(Key::Char('q'));
    app.run(Key::Char('y'));
    assert_eq!(app.route, AppRoute::Quit);
    assert!(app.should_quit());
    let a = app.run(Key::Char('x'));
    assert_eq!(a, Action::Nothing);
    assert_eq!(app.route, AppRoute::Quit);
}

#[test]
fn loaded_diary_is_adopted_and_remembered() {
    let mut app = App::default();
    let d = Diary::parse("j\n2024 Jan 01 00:00:00 +0000|hello\n;\n").unwrap();
    app.apply_loaded(d, String::from("/home/me/j"));
    assert_eq!(app.route, AppRoute::Edit);
    assert_eq!(app.file.message_count(), 1);
    assert_eq!(app.config.mru.len(), 1);
    assert_eq!(app.config.mru[0], "/home/me/j");
    // Loading the same path again does not duplicate the entry.
    app.apply_saved(String::from("/home/me/j"));
    assert_eq!(app.config.mru.len(), 1);
}

#[test]
fn mru_caps_its_length() {
    let mut app = App::default();
    for i in 0..31 {
        app.apply_saved(format!("/tmp/f{}", i));
    }
    assert_eq!(app.config.mru.len(), 31);
    app.apply_saved(String::from("/tmp/last"));
    assert_eq!(app.config.mru.len(), 31);
    assert_eq!(app.config.mru[0], "/tmp/f1");
    assert_eq!(app.config.mru[30], "/tmp/last");
}

#[test]
fn newline_keystrokes_never_enter_the_texts() {
    let mut app = App::default();
    app.run(Key::Char('n'));
    app.run(Key::Char('i'));
    app.run(Key::Char('\n'));
    assert_eq!(app.input.as_string(), "");
    type_str(&mut app, "ok");
    app.run(Key::Char('\n'));
    assert_eq!(app.input.as_string(), "ok");
}
