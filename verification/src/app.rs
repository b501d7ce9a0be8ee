//! The editing session's state machine: what one keystroke does to the
//! application state, and which outside action (a file read or write) the
//! surrounding layer must perform next.
//!
//! The surrounding layer owns the terminal and the file system. It polls
//! one key, hands it to [`App::run`], performs the returned [`Action`],
//! and reports a completed load back through [`App::apply_loaded`] and a
//! completed save through [`App::apply_saved`].

use vstd::prelude::*;

use crate::codec::spec_serialize;
use crate::commit::{msg_view_wf, Commit, CommitView, Diary, DiaryView};
use crate::config::{spec_mru_update, DiaryConfig};
use crate::gapbuffer::GapBuffer;
use crate::strutil::{lemma_trim_line_ok, line_ok, trim_end_str, trim_trailing_ws};

verus! {

/// What the editor is doing inside the edit screen.
#[derive(Clone, Copy, Debug, PartialEq, Eq, Structural)]
pub enum EditorMode {
    Normal,
    Writing,
    Editing,
    Saving,
}

/// Which screen the application is on.
#[derive(Clone, Copy, Debug, PartialEq, Eq, Structural)]
pub enum AppRoute {
    Start,
    Edit,
    PreQuit,
    Quit,
}

/// One revision in progress: the text being edited and the storage index
/// of the message it will be committed to.
#[derive(Debug, Clone, PartialEq)]
pub struct Edit {
    pub edit_input: String,
    pub index: usize,
}

impl Edit {
    pub fn from(edit_input: String, index: usize) -> (r: Edit)
        ensures
            r.edit_input == edit_input,
            r.index == index,
    {
        Edit { edit_input, index }
    }

    pub fn update(&mut self, s: String)
        ensures
            final(self).edit_input == s,
            final(self).index == old(self).index,
    {
        self.edit_input = s;
    }
}

/// One keystroke, as the state machine sees it.
#[derive(Clone, Copy, Debug, PartialEq, Eq, Structural)]
pub enum Key {
    Char(char),
    Enter,
    Backspace,
    Delete,
    Left,
    Right,
    Up,
    Down,
    Esc,
    BackTab,
}

/// What the surrounding layer must do after a step: nothing, write this
/// text to this path (remembering the file in the used list when asked),
/// or load a diary from this path.
#[derive(Debug, Clone, PartialEq)]
pub enum Action {
    Nothing,
    Write { path: String, contents: String, remember: bool },
    Load { path: String },
}

/// The mathematical value of the whole application state.
#[verifier::ext_equal]
pub ghost struct AppView {
    pub mru: Seq<Seq<char>>,
    pub route: AppRoute,
    pub file: DiaryView,
    pub input_text: Seq<char>,
    pub input_cursor: int,
    pub edit: Option<(Seq<char>, int)>,
    pub mode: EditorMode,
    pub status: Seq<char>,
    pub temp: Seq<char>,
    pub select: Option<usize>,
}

/// The state of the application.
pub struct App {
    /// The persisted configuration: the most-recently-used list.
    pub config: DiaryConfig,
    /// Which screen is showing.
    pub route: AppRoute,
    /// The one open diary.
    pub file: Diary,
    /// The live input buffer for a new message.
    pub input: GapBuffer,
    /// The revision in progress, if any.
    pub edit: Option<Edit>,
    /// What the edit screen is doing.
    pub mode: EditorMode,
    /// The status bar message.
    pub status_msg: String,
    /// Scratch input for the saving prompt.
    pub temp_input: String,
    /// Which list row is selected, if any.
    pub select: Option<usize>,
}

impl View for App {
    type V = AppView;

    open spec fn view(&self) -> AppView {
        AppView {
            mru: self.config.mru.deep_view(),
            route: self.route,
            file: self.file@,
            input_text: self.input.content(),
            input_cursor: self.input.cursor(),
            edit: match self.edit {
                Some(e) => Some((e.edit_input@, e.index as int)),
                None => None,
            },
            mode: self.mode,
            status: self.status_msg@,
            temp: self.temp_input@,
            select: self.select,
        }
    }
}

/// The status line shown when there is nothing to write yet.
pub open spec fn nothing_msg() -> Seq<char> {
    "Nothing to write!..."@
}

/// Moving the selection away from the input bar, towards older rows.
pub open spec fn spec_select_up(sel: Option<usize>, len: int) -> Option<usize> {
    match sel {
        Some(i) => if len == 0 || i >= len - 1 {
            None
        } else {
            Some((i + 1) as usize)
        },
        None => if len == 0 {
            None
        } else {
            Some(0usize)
        },
    }
}

/// Moving the selection back towards the input bar.
pub open spec fn spec_select_down(sel: Option<usize>, len: int) -> Option<usize> {
    match sel {
        Some(i) => if i == 0 {
            None
        } else {
            Some((i - 1) as usize)
        },
        None => if len == 0 {
            None
        } else {
            Some((len - 1) as usize)
        },
    }
}

/// A fresh message was appended: everything already stored is untouched
/// and the new message holds one commit of the given text, stamped at
/// some valid time.
pub open spec fn new_single_message(
    pre: Seq<Seq<CommitView>>,
    post: Seq<Seq<CommitView>>,
    data: Seq<char>,
) -> bool {
    &&& post.len() == pre.len() + 1
    &&& post.drop_last() == pre
    &&& post.last().len() == 1
    &&& post.last()[0].data == data
    &&& post.last()[0].time.valid()
}

/// One message was revised: every other message is untouched, the
/// revised one keeps its whole history and gains one commit of the given
/// text on top, stamped at some valid time.
pub open spec fn revised_at(
    pre: Seq<Seq<CommitView>>,
    post: Seq<Seq<CommitView>>,
    idx: int,
    data: Seq<char>,
) -> bool {
    &&& 0 <= idx < pre.len()
    &&& post.len() == pre.len()
    &&& forall|i: int| 0 <= i < pre.len() && i != idx ==> post[i] == pre[i]
    &&& post[idx].len() == pre[idx].len() + 1
    &&& post[idx].drop_last() == pre[idx]
    &&& post[idx].last().data == data
    &&& post[idx].last().time.valid()
}

/// The start screen: open a file, start a new one, move the selection,
/// or head for the exit.
pub open spec fn start_step(pre: AppView, key: Key, post: AppView, r: Action) -> bool {
    match key {
        Key::Char(c) => if c == 'q' {
            post == (AppView { route: AppRoute::PreQuit, ..pre }) && r == Action::Nothing
        } else if c == 'n' {
            post == (AppView { route: AppRoute::Edit, ..pre }) && r == Action::Nothing
        } else {
            post == pre && r == Action::Nothing
        },
        Key::Enter => match pre.select {
            Some(idx) => if idx < pre.mru.len() {
                post == (AppView { route: AppRoute::Edit, ..pre }) && (r matches Action::Load {
                    path,
                } && path@ == pre.mru[idx as int])
            } else {
                post == (AppView { route: AppRoute::Edit, ..pre }) && r == Action::Nothing
            },
            None => post == pre && r == Action::Nothing,
        },
        Key::Up => post == (AppView {
            select: spec_select_down(pre.select, pre.mru.len() as int),
            ..pre
        }) && r == Action::Nothing,
        Key::Down => post == (AppView {
            select: spec_select_up(pre.select, pre.mru.len() as int),
            ..pre
        }) && r == Action::Nothing,
        Key::Esc => post == (AppView { select: None, ..pre }) && r == Action::Nothing,
        _ => post == pre && r == Action::Nothing,
    }
}

/// The quit prompt: stay, or go.
pub open spec fn prequit_step(pre: AppView, key: Key, post: AppView) -> bool {
    match key {
        Key::Char(c) => if c == 'n' {
            post == (AppView { route: AppRoute::Edit, ..pre })
        } else if c == 'y' {
            post == (AppView { route: AppRoute::Quit, ..pre })
        } else {
            post == pre
        },
        Key::Enter => post == (AppView { route: AppRoute::Quit, ..pre }),
        _ => post == pre,
    }
}

/// The edit screen in normal mode.
pub open spec fn edit_normal_step(pre: AppView, key: Key, post: AppView, r: Action) -> bool {
    match key {
        Key::Char(c) => if c == 'i' {
            post == (AppView {
                mode: EditorMode::Writing,
                status: Seq::<char>::empty(),
                select: None,
                ..pre
            }) && r == Action::Nothing
        } else if c == 'e' {
            match pre.select {
                Some(idx) => if idx < pre.file.messages.len() {
                    post == (AppView {
                        mode: EditorMode::Editing,
                        status: Seq::<char>::empty(),
                        edit: Some(
                            (
                                pre.file.messages[pre.file.messages.len() - idx - 1].last().data,
                                pre.file.messages.len() - idx - 1,
                            ),
                        ),
                        ..pre
                    }) && r == Action::Nothing
                } else {
                    post == (AppView {
                        mode: EditorMode::Writing,
                        status: Seq::<char>::empty(),
                        select: None,
                        ..pre
                    }) && r == Action::Nothing
                },
                None => post == (AppView {
                    mode: EditorMode::Writing,
                    status: Seq::<char>::empty(),
                    ..pre
                }) && r == Action::Nothing,
            }
        } else if c == 'W' {
            if pre.file.messages.len() > 0 {
                post == (AppView { mode: EditorMode::Saving, status: Seq::<char>::empty(), ..pre })
                    && r == Action::Nothing
            } else {
                post == (AppView { status: nothing_msg(), ..pre }) && r == Action::Nothing
            }
        } else if c == 'w' {
            if pre.file.messages.len() == 0 {
                post == (AppView { status: nothing_msg(), ..pre }) && r == Action::Nothing
            } else if pre.file.name.len() == 0 {
                post == (AppView { mode: EditorMode::Saving, status: Seq::<char>::empty(), ..pre })
                    && r == Action::Nothing
            } else {
                post == pre && (r matches Action::Write { path, contents, remember } && path@
                    == pre.file.name && contents@ == spec_serialize(pre.file) && remember == false)
            }
        } else if c == 'q' {
            post == (AppView { route: AppRoute::PreQuit, ..pre }) && r == Action::Nothing
        } else {
            post == pre && r == Action::Nothing
        },
        Key::Up => post == (AppView {
            select: spec_select_up(pre.select, pre.file.messages.len() as int),
            ..pre
        }) && r == Action::Nothing,
        Key::Down => post == (AppView {
            select: spec_select_down(pre.select, pre.file.messages.len() as int),
            ..pre
        }) && r == Action::Nothing,
        Key::Esc => post == (AppView { select: None, ..pre }) && r == Action::Nothing,
        _ => post == pre && r == Action::Nothing,
    }
}

/// The edit screen while composing a new message: one keystroke edits
/// the input buffer, Enter commits it as a fresh entry.
pub open spec fn edit_writing_step(pre: AppView, key: Key, post: AppView, r: Action) -> bool {
    match key {
        Key::Enter => {
            &&& post.file.name == pre.file.name
            &&& new_single_message(
                pre.file.messages,
                post.file.messages,
                trim_trailing_ws(pre.input_text),
            )
            &&& post == (AppView {
                file: post.file,
                input_text: Seq::<char>::empty(),
                input_cursor: 0,
                ..pre
            })
            &&& r == Action::Nothing
        },
        Key::Char(c) => if c != '\n' {
            post == (AppView {
                input_text: pre.input_text.insert(pre.input_cursor, c),
                input_cursor: pre.input_cursor + 1,
                ..pre
            }) && r == Action::Nothing
        } else {
            post == pre && r == Action::Nothing
        },
        Key::Left => post == (AppView {
            input_cursor: if pre.input_cursor > 0 {
                pre.input_cursor - 1
            } else {
                0int
            },
            ..pre
        }) && r == Action::Nothing,
        Key::Right => post == (AppView {
            input_cursor: if pre.input_cursor < pre.input_text.len() {
                pre.input_cursor + 1
            } else {
                pre.input_cursor
            },
            ..pre
        }) && r == Action::Nothing,
        Key::Backspace => post == (AppView {
            input_text: if pre.input_cursor > 0 {
                pre.input_text.remove(pre.input_cursor - 1)
            } else {
                pre.input_text
            },
            input_cursor: if pre.input_cursor > 0 {
                pre.input_cursor - 1
            } else {
                0int
            },
            ..pre
        }) && r == Action::Nothing,
        Key::Delete => post == (AppView {
            input_text: if pre.input_cursor < pre.input_text.len() {
                pre.input_text.remove(pre.input_cursor)
            } else {
                pre.input_text
            },
            ..pre
        }) && r == Action::Nothing,
        Key::Esc => post == (AppView { mode: EditorMode::Normal, status: Seq::<char>::empty(), ..pre })
            && r == Action::Nothing,
        Key::BackTab => post == (AppView {
            mode: EditorMode::Normal,
            status: Seq::<char>::empty(),
            ..pre
        }) && r == Action::Nothing,
        _ => post == pre && r == Action::Nothing,
    }
}

/// The edit screen while revising an existing message: keystrokes edit
/// the revision text, Enter pushes it onto that message's history.
pub open spec fn edit_editing_step(pre: AppView, key: Key, post: AppView, r: Action) -> bool {
    match pre.edit {
        Some(et) => match key {
            Key::Enter => {
                &&& post.file.name == pre.file.name
                &&& revised_at(pre.file.messages, post.file.messages, et.1, trim_trailing_ws(et.0))
                &&& post == (AppView {
                    file: post.file,
                    mode: EditorMode::Normal,
                    status: Seq::<char>::empty(),
                    edit: None,
                    select: None,
                    ..pre
                })
                &&& r == Action::Nothing
            },
            Key::Char(c) => if c != '\n' {
                post == (AppView { edit: Some((et.0.push(c), et.1)), ..pre }) && r
                    == Action::Nothing
            } else {
                post == pre && r == Action::Nothing
            },
            Key::Backspace => post == (AppView {
                edit: Some(
                    (
                        if et.0.len() > 0 {
                            et.0.drop_last()
                        } else {
                            et.0
                        },
                        et.1,
                    ),
                ),
                ..pre
            }) && r == Action::Nothing,
            Key::Esc => post == (AppView {
                mode: EditorMode::Normal,
                status: Seq::<char>::empty(),
                edit: None,
                ..pre
            }) && r == Action::Nothing,
            Key::BackTab => post == (AppView {
                mode: EditorMode::Normal,
                status: Seq::<char>::empty(),
                edit: None,
                ..pre
            }) && r == Action::Nothing,
            _ => post == pre && r == Action::Nothing,
        },
        None => post == (AppView {
            mode: EditorMode::Writing,
            status: Seq::<char>::empty(),
            select: None,
            ..pre
        }) && r == Action::Nothing,
    }
}

/// The edit screen while naming the file to save to.
pub open spec fn edit_saving_step(pre: AppView, key: Key, post: AppView, r: Action) -> bool {
    match key {
        Key::Char(c) => if c != '\n' {
            post == (AppView { temp: pre.temp.push(c), ..pre }) && r == Action::Nothing
        } else {
            post == pre && r == Action::Nothing
        },
        Key::Backspace => post == (AppView {
            temp: if pre.temp.len() > 0 {
                pre.temp.drop_last()
            } else {
                pre.temp
            },
            ..pre
        }) && r == Action::Nothing,
        Key::Esc => post == (AppView { mode: EditorMode::Normal, status: Seq::<char>::empty(), ..pre })
            && r == Action::Nothing,
        Key::Enter => if pre.file.name.len() == 0 {
            if pre.file.messages.len() > 0 {
                &&& post == (AppView {
                    file: DiaryView { name: pre.temp, messages: pre.file.messages },
                    temp: Seq::<char>::empty(),
                    mode: EditorMode::Normal,
                    status: Seq::<char>::empty(),
                    ..pre
                })
                &&& (r matches Action::Write { path, contents, remember } && path@ == pre.temp
                    && contents@ == spec_serialize(
                    DiaryView { name: pre.temp, messages: pre.file.messages },
                ) && remember == true)
            } else {
                post == (AppView { mode: EditorMode::Normal, status: Seq::<char>::empty(), ..pre })
                    && r == Action::Nothing
            }
        } else {
            post == (AppView { mode: EditorMode::Normal, status: Seq::<char>::empty(), ..pre }) && (
            r matches Action::Write { path, contents, remember } && path@ == pre.file.name
                && contents@ == spec_serialize(pre.file) && remember == false)
        },
        _ => post == pre && r == Action::Nothing,
    }
}

/// The whole edit screen: one keystroke under the current mode.
pub open spec fn edit_step(pre: AppView, key: Key, post: AppView, r: Action) -> bool {
    match pre.mode {
        EditorMode::Normal => edit_normal_step(pre, key, post, r),
        EditorMode::Writing => edit_writing_step(pre, key, post, r),
        EditorMode::Editing => edit_editing_step(pre, key, post, r),
        EditorMode::Saving => edit_saving_step(pre, key, post, r),
    }
}

impl App {
    /// The state a session can always be in: the diary and the input
    /// buffer are well formed, the live texts fit on one line, and a
    /// revision in progress points at a real message.
    pub open spec fn wf(&self) -> bool {
        &&& self.file.wf()
        &&& self.input.wf()
        &&& line_ok(self.input.content())
        &&& line_ok(self.temp_input@)
        &&& match self.edit {
            Some(e) => e.index < self.file@.messages.len() && line_ok(e.edit_input@),
            None => true,
        }
    }

    /// Startup hook; the session state is already complete.
    pub fn startup(&mut self)
        ensures
            *final(self) == *old(self),
    {
    }

    /// Whether the session is over.
    pub fn should_quit(&self) -> (r: bool)
        ensures
            r == (self@.route == AppRoute::Quit),
    {
        self.route == AppRoute::Quit
    }

    /// The selected list row, if any.
    pub fn selected(&self) -> (r: Option<usize>)
        ensures
            r == self@.select,
    {
        self.select
    }

    /// Clear the selection.
    pub fn unselect(&mut self)
        ensures
            old(self).wf() ==> final(self).wf(),
            final(self)@ == (AppView { select: None, ..old(self)@ }),
    {
        self.select = None;
    }

    /// Move the selection one row away from the input bar.
    pub fn select_up(&mut self, len: usize)
        ensures
            old(self).wf() ==> final(self).wf(),
            final(self)@ == (AppView {
                select: spec_select_up(old(self)@.select, len as int),
                ..old(self)@
            }),
    {
        let idx = match self.select {
            Some(i) => if len == 0 || i >= len - 1 {
                None
            } else {
                Some(i + 1)
            },
            None => if len == 0 {
                None
            } else {
                Some(0)
            },
        };
        self.select = idx;
    }

    /// Move the selection one row back towards the input bar.
    pub fn select_down(&mut self, len: usize)
        ensures
            old(self).wf() ==> final(self).wf(),
            final(self)@ == (AppView {
                select: spec_select_down(old(self)@.select, len as int),
                ..old(self)@
            }),
    {
        let idx = match self.select {
            Some(i) => if i == 0 {
                None
            } else {
                Some(i - 1)
            },
            None => if len == 0 {
                None
            } else {
                Some(len - 1)
            },
        };
        self.select = idx;
    }

    /// Switch mode and wipe the status line.
    pub fn change_mode(&mut self, mode: EditorMode)
        ensures
            old(self).wf() ==> final(self).wf(),
            final(self)@ == (AppView { mode, status: Seq::<char>::empty(), ..old(self)@ }),
    {
        self.status_msg = String::new();
        self.mode = mode;
    }

    /// Put a message on the status line.
    pub fn set_status(&mut self, msg: String)
        ensures
            old(self).wf() ==> final(self).wf(),
            final(self)@ == (AppView { status: msg@, ..old(self)@ }),
    {
        self.status_msg = msg;
    }

    /// A finished load: adopt the diary, remember the path, and show the
    /// edit screen. Any selection or revision in progress is dropped.
    pub fn apply_loaded(&mut self, diary: Diary, path: String)
        requires
            old(self).wf(),
            diary.wf(),
        ensures
            final(self).wf(),
            final(self)@ == (AppView {
                file: diary@,
                mru: spec_mru_update(old(self)@.mru, path@),
                route: AppRoute::Edit,
                edit: None,
                select: None,
                ..old(self)@
            }),
    {
        self.file = diary;
        self.edit = None;
        self.select = None;
        self.route = AppRoute::Edit;
        self.config.update_mru_with(path);
    }

    /// A finished save: remember the canonical path of the written file.
    pub fn apply_saved(&mut self, canonical_path: String)
        requires
            old(self).wf(),
        ensures
            final(self).wf(),
            final(self)@ == (AppView {
                mru: spec_mru_update(old(self)@.mru, canonical_path@),
                ..old(self)@
            }),
    {
        self.config.update_mru_with(canonical_path);
    }

    /// One keystroke on the start screen.
    pub fn run_start(&mut self, key: Key) -> (r: Action)
        requires
            old(self).wf(),
        ensures
            final(self).wf(),
            start_step(old(self)@, key, final(self)@, r),
    {
        match key {
            Key::Char(c) => {
                if c == 'q' {
                    self.route = AppRoute::PreQuit;
                } else if c == 'n' {
                    self.route = AppRoute::Edit;
                }
                Action::Nothing
            },
            Key::Enter => {
                match self.select {
                    Some(idx) => {
                        self.route = AppRoute::Edit;
                        if idx < self.config.mru.len() {
                            let path: String = self.config.mru[idx].clone();
                            proof {
                                assert(path@ == old(self)@.mru[idx as int]);
                            }
                            Action::Load { path }
                        } else {
                            Action::Nothing
                        }
                    },
                    None => Action::Nothing,
                }
            },
            Key::Up => {
                let len = self.config.mru.len();
                self.select_down(len);
                Action::Nothing
            },
            Key::Down => {
                let len = self.config.mru.len();
                self.select_up(len);
                Action::Nothing
            },
            Key::Esc => {
                self.unselect();
                Action::Nothing
            },
            _ => Action::Nothing,
        }
    }

    /// One keystroke on the quit prompt.
    pub fn run_prequit(&mut self, key: Key)
        requires
            old(self).wf(),
        ensures
            final(self).wf(),
            prequit_step(old(self)@, key, final(self)@),
    {
        match key {
            Key::Char(c) => {
                if c == 'n' {
                    self.route = AppRoute::Edit;
                } else if c == 'y' {
                    self.route = AppRoute::Quit;
                }
            },
            Key::Enter => {
                self.route = AppRoute::Quit;
            },
            _ => {},
        }
    }

    /// One keystroke on the edit screen, under the current mode.
    pub fn run_edit(&mut self, key: Key) -> (r: Action)
        requires
            old(self).wf(),
        ensures
            final(self).wf(),
            edit_step(old(self)@, key, final(self)@, r),
    {
        match self.mode {
            EditorMode::Normal => self.run_edit_normal(key),
            EditorMode::Writing => self.run_edit_writing(key),
            EditorMode::Editing => self.run_edit_editing(key),
            EditorMode::Saving => self.run_edit_saving(key),
        }
    }

    fn run_edit_normal(&mut self, key: Key) -> (r: Action)
        requires
            old(self).wf(),
            old(self)@.mode == EditorMode::Normal,
        ensures
            final(self).wf(),
            edit_normal_step(old(self)@, key, final(self)@, r),
    {
        match key {
            Key::Char(c) => {
                if c == 'i' {
                    self.change_mode(EditorMode::Writing);
                    self.unselect();
                    Action::Nothing
                } else if c == 'e' {
                    match self.select {
                        Some(idx) => {
                            let msg_count = self.file.message_count();
                            if idx < msg_count {
                                self.change_mode(EditorMode::Editing);
                                let file_idx = msg_count - idx - 1;
                                let msg = self.file.message_at(file_idx).unwrap();
                                proof {
                                    assert(msg_view_wf(msg@));
                                }
                                let mrc = msg.most_recent().unwrap();
                                let text = String::from_str(mrc.data());
                                self.edit = Some(Edit::from(text, file_idx));
                                Action::Nothing
                            } else {
                                self.change_mode(EditorMode::Writing);
                                self.unselect();
                                Action::Nothing
                            }
                        },
                        None => {
                            self.change_mode(EditorMode::Writing);
                            Action::Nothing
                        },
                    }
                } else if c == 'W' {
                    if self.file.message_count() > 0 {
                        self.change_mode(EditorMode::Saving);
                    } else {
                        self.set_status(String::from_str("Nothing to write!..."));
                    }
                    Action::Nothing
                } else if c == 'w' {
                    if self.file.message_count() == 0 {
                        self.set_status(String::from_str("Nothing to write!..."));
                        Action::Nothing
                    } else if self.file.name().unicode_len() == 0 {
                        self.change_mode(EditorMode::Saving);
                        Action::Nothing
                    } else {
                        let path = String::from_str(self.file.name());
                        let contents = self.file.serialize();
                        Action::Write { path, contents, remember: false }
                    }
                } else if c == 'q' {
                    self.route = AppRoute::PreQuit;
                    Action::Nothing
                } else {
                    Action::Nothing
                }
            },
            Key::Up => {
                let len = self.file.message_count();
                self.select_up(len);
                Action::Nothing
            },
            Key::Down => {
                let len = self.file.message_count();
                self.select_down(len);
                Action::Nothing
            },
            Key::Esc => {
                self.unselect();
                Action::Nothing
            },
            _ => Action::Nothing,
        }
    }

    fn run_edit_writing(&mut self, key: Key) -> (r: Action)
        requires
            old(self).wf(),
            old(self)@.mode == EditorMode::Writing,
        ensures
            final(self).wf(),
            edit_writing_step(old(self)@, key, final(self)@, r),
    {
        match key {
            Key::Enter => {
                self.input.trim_end();
                let text = self.input.as_string();
                proof {
                    lemma_trim_line_ok(old(self)@.input_text);
                }
                self.file.push_string(text);
                proof {
                    assert(self@.file.messages.drop_last() =~~= old(self)@.file.messages);
                }
                self.input.clear();
                Action::Nothing
            },
            Key::Char(c) => {
                if c != '\n' {
                    self.input.put(c);
                    proof {
                        old(self).input.lemma_cursor_in_content();
                        old(self)@.input_text.insert_ensures(old(self)@.input_cursor, c);
                        assert(line_ok(self.input.content()));
                    }
                }
                Action::Nothing
            },
            Key::Left => {
                self.input.left();
                Action::Nothing
            },
            Key::Right => {
                self.input.right();
                Action::Nothing
            },
            Key::Backspace => {
                self.input.back();
                proof {
                    if old(self)@.input_cursor > 0 {
                        old(self).input.lemma_cursor_in_content();
                        old(self)@.input_text.remove_ensures(old(self)@.input_cursor - 1);
                    }
                    assert(line_ok(self.input.content()));
                }
                Action::Nothing
            },
            Key::Delete => {
                self.input.delete();
                proof {
                    if old(self)@.input_cursor < old(self)@.input_text.len() {
                        old(self).input.lemma_cursor_in_content();
                        old(self)@.input_text.remove_ensures(old(self)@.input_cursor);
                    }
                    assert(line_ok(self.input.content()));
                }
                Action::Nothing
            },
            Key::Esc => {
                self.change_mode(EditorMode::Normal);
                Action::Nothing
            },
            Key::BackTab => {
                self.change_mode(EditorMode::Normal);
                Action::Nothing
            },
            _ => Action::Nothing,
        }
    }

    fn run_edit_editing(&mut self, key: Key) -> (r: Action)
        requires
            old(self).wf(),
            old(self)@.mode == EditorMode::Editing,
        ensures
            final(self).wf(),
            edit_editing_step(old(self)@, key, final(self)@, r),
    {
        let (text, index): (String, usize) = match &self.edit {
            Some(e) => (e.edit_input.clone(), e.index),
            None => {
                self.change_mode(EditorMode::Writing);
                self.unselect();
                return Action::Nothing;
            },
        };
        proof {
            assert(text@ == (old(self)@.edit->0).0);
        }
        match key {
            Key::Enter => {
                let trimmed = trim_end_str(text.as_str());
                proof {
                    lemma_trim_line_ok(text@);
                }
                let commit = Commit::from_data(trimmed);
                let ok = self.file.revise_at(index, commit);
                proof {
                    assert(ok);
                    assert(self@.file.messages[index as int].drop_last() =~~= old(
                        self,
                    )@.file.messages[index as int]);
                }
                self.change_mode(EditorMode::Normal);
                self.edit = None;
                self.unselect();
                Action::Nothing
            },
            Key::Char(c) => {
                if c != '\n' {
                    let mut t = text;
                    crate::ext::push_char(&mut t, c);
                    self.edit = Some(Edit::from(t, index));
                }
                Action::Nothing
            },
            Key::Backspace => {
                let mut t = text;
                crate::ext::pop_char(&mut t);
                self.edit = Some(Edit::from(t, index));
                Action::Nothing
            },
            Key::Esc => {
                self.change_mode(EditorMode::Normal);
                self.edit = None;
                Action::Nothing
            },
            Key::BackTab => {
                self.change_mode(EditorMode::Normal);
                self.edit = None;
                Action::Nothing
            },
            _ => Action::Nothing,
        }
    }

    fn run_edit_saving(&mut self, key: Key) -> (r: Action)
        requires
            old(self).wf(),
            old(self)@.mode == EditorMode::Saving,
        ensures
            final(self).wf(),
            edit_saving_step(old(self)@, key, final(self)@, r),
    {
        match key {
            Key::Char(c) => {
                if c != '\n' {
                    crate::ext::push_char(&mut self.temp_input, c);
                }
                Action::Nothing
            },
            Key::Backspace => {
                crate::ext::pop_char(&mut self.temp_input);
                Action::Nothing
            },
            Key::Esc => {
                self.change_mode(EditorMode::Normal);
                Action::Nothing
            },
            Key::Enter => {
                let r: Action;
                if self.file.name().unicode_len() == 0 {
                    if self.file.message_count() > 0 {
                        let name = self.temp_input.clone();
                        self.temp_input = String::new();
                        self.file.set_name(name.clone());
                        let contents = self.file.serialize();
                        r = Action::Write { path: name, contents, remember: true };
                    } else {
                        r = Action::Nothing;
                    }
                } else {
                    let path = String::from_str(self.file.name());
                    let contents = self.file.serialize();
                    r = Action::Write { path, contents, remember: false };
                }
                self.change_mode(EditorMode::Normal);
                r
            },
            _ => Action::Nothing,
        }
    }

    /// One keystroke, dispatched to whichever screen is showing. After
    /// quitting, keystrokes change nothing.
    pub fn run(&mut self, key: Key) -> (r: Action)
        requires
            old(self).wf(),
        ensures
            final(self).wf(),
            match old(self)@.route {
                AppRoute::Start => start_step(old(self)@, key, final(self)@, r),
                AppRoute::Edit => edit_step(old(self)@, key, final(self)@, r),
                AppRoute::PreQuit => prequit_step(old(self)@, key, final(self)@) && r
                    == Action::Nothing,
                AppRoute::Quit => final(self)@ == old(self)@ && r == Action::Nothing,
            },
    {
        match self.route {
            AppRoute::Start => self.run_start(key),
            AppRoute::Edit => self.run_edit(key),
            AppRoute::PreQuit => {
                self.run_prequit(key);
                Action::Nothing
            },
            AppRoute::Quit => Action::Nothing,
        }
    }
}

impl Default for App {
    /// A fresh session: the start screen, an unnamed empty diary, an
    /// empty input buffer and no configuration loaded yet.
    fn default() -> (r: App)
        ensures
            r.wf(),
            r@ == (AppView {
                mru: Seq::<Seq<char>>::empty(),
                route: AppRoute::Start,
                file: DiaryView { name: Seq::<char>::empty(), messages: Seq::<Seq<CommitView>>::empty() },
                input_text: Seq::<char>::empty(),
                input_cursor: 0,
                edit: None,
                mode: EditorMode::Normal,
                status: Seq::<char>::empty(),
                temp: Seq::<char>::empty(),
                select: None,
            }),
    {
        let r = App {
            config: DiaryConfig::default(),
            route: AppRoute::Start,
            file: Diary::new(),
            input: GapBuffer::default(),
            edit: None,
            mode: EditorMode::Normal,
            status_msg: String::new(),
            temp_input: String::new(),
            select: None,
        };
        proof {
            assert(r@ =~~= (AppView {
                mru: Seq::<Seq<char>>::empty(),
                route: AppRoute::Start,
                file: DiaryView {
                    name: Seq::<char>::empty(),
                    messages: Seq::<Seq<CommitView>>::empty(),
                },
                input_text: Seq::<char>::empty(),
                input_cursor: 0,
                edit: None,
                mode: EditorMode::Normal,
                status: Seq::<char>::empty(),
                temp: Seq::<char>::empty(),
                select: None,
            }));
        }
        r
    }
}

} // verus!
