//! The versioned document model: a [`Diary`] is a named, ordered sequence
//! of [`Message`]s, and a message is an append-only stack of immutable
//! [`Commit`]s. Revising a message only ever pushes a new commit on top;
//! nothing edits or removes history.

use vstd::prelude::*;

use crate::ext::now_utc_fields;
use crate::strutil::line_ok;
use crate::timestamp::Timestamp;

verus! {

/// Why a persisted document failed to parse.
#[derive(Clone, Copy, Debug, PartialEq, Eq, Structural)]
pub enum FileParseError {
    /// A commit line whose timestamp segment does not match the fixed format.
    BadTimestamp,
    /// A commit line without the `|` between timestamp and text.
    MissingDelimiter,
    /// Input ended before the final entry was closed by a `;` line.
    UnterminatedEntry,
    /// A `;` line closed an entry that holds no commit at all.
    EmptyEntry,
}

/// The mathematical value of one commit: when, and what text.
pub ghost struct CommitView {
    pub time: Timestamp,
    pub data: Seq<char>,
}

/// The mathematical value of a whole diary.
#[verifier::ext_equal]
pub ghost struct DiaryView {
    pub name: Seq<char>,
    pub messages: Seq<Seq<CommitView>>,
}

/// A commit can be persisted: its timestamp fits the text format and its
/// text fits on one line.
pub open spec fn commit_view_wf(c: CommitView) -> bool {
    c.time.valid() && line_ok(c.data)
}

/// A message can be persisted: it holds at least one commit, all of them
/// persistable.
pub open spec fn msg_view_wf(m: Seq<CommitView>) -> bool {
    m.len() >= 1 && forall|i: int| 0 <= i < m.len() ==> commit_view_wf(#[trigger] m[i])
}

/// A diary can be persisted: its name fits on one line and every message
/// can be persisted.
pub open spec fn diary_view_wf(v: DiaryView) -> bool {
    line_ok(v.name) && forall|i: int|
        0 <= i < v.messages.len() ==> msg_view_wf(#[trigger] v.messages[i])
}

/// A commit is a text snapshot plus the time it was taken. A commit is
/// never edited; the only way to change a past entry is a new commit.
#[derive(Debug, Clone, PartialEq)]
pub struct Commit {
    time: Timestamp,
    data: String,
}

impl View for Commit {
    type V = CommitView;

    closed spec fn view(&self) -> CommitView {
        CommitView { time: self.time, data: self.data@ }
    }
}

impl Commit {
    pub open spec fn wf(&self) -> bool {
        commit_view_wf(self@)
    }

    /// An empty commit stamped with the current time.
    pub fn new() -> (c: Commit)
        ensures
            c.wf(),
            c@.data == Seq::<char>::empty(),
    {
        let (y, mo, d, h, mi, se) = now_utc_fields();
        Commit { time: Timestamp::from_clock(y, mo, d, h, mi, se), data: String::new() }
    }

    /// A commit of the given text at the given time.
    pub fn from(time: Timestamp, data: String) -> (c: Commit)
        requires
            time.valid(),
            line_ok(data@),
        ensures
            c@.time == time,
            c@.data == data@,
            c.wf(),
    {
        Commit { time, data }
    }

    /// A commit of the given text stamped with the current time.
    pub fn from_data(data: String) -> (c: Commit)
        requires
            line_ok(data@),
        ensures
            c@.data == data@,
            c.wf(),
    {
        let (y, mo, d, h, mi, se) = now_utc_fields();
        Commit { time: Timestamp::from_clock(y, mo, d, h, mi, se), data }
    }

    /// The committed text.
    pub fn data(&self) -> (r: &str)
        ensures
            r@ == self@.data,
    {
        self.data.as_str()
    }

    /// When the commit was taken.
    pub fn time(&self) -> (r: Timestamp)
        ensures
            r == self@.time,
    {
        self.time
    }
}

/// A message is a stack of commits; the most recent commit on top is the
/// message's current value.
#[derive(Debug, Clone, PartialEq)]
pub struct Message {
    commits: Vec<Commit>,
}

impl View for Message {
    type V = Seq<CommitView>;

    closed spec fn view(&self) -> Seq<CommitView> {
        Seq::new(self.commits@.len(), |i: int| self.commits@[i]@)
    }
}

impl Message {
    pub open spec fn wf(&self) -> bool {
        forall|i: int| 0 <= i < self@.len() ==> commit_view_wf(#[trigger] self@[i])
    }

    /// An empty stack, waiting for its first commit; a message joins a
    /// diary only once it holds one.
    pub fn new() -> (m: Message)
        ensures
            m@ == Seq::<CommitView>::empty(),
            m.wf(),
    {
        let m = Message { commits: Vec::new() };
        proof {
            assert(m@ =~= Seq::<CommitView>::empty());
        }
        m
    }

    /// A message born with its first commit.
    pub fn from_commit(c: Commit) -> (m: Message)
        requires
            c.wf(),
        ensures
            m@ =~= seq![c@],
            m.wf(),
            msg_view_wf(m@),
    {
        let mut commits: Vec<Commit> = Vec::new();
        commits.push(c);
        let m = Message { commits };
        proof {
            assert(m@ =~= seq![c@]);
        }
        m
    }

    /// A message holding the given commits, oldest first.
    pub(crate) fn from_commits(commits: Vec<Commit>) -> (m: Message)
        ensures
            m@.len() == commits@.len(),
            forall|i: int| 0 <= i < commits@.len() ==> m@[i] == commits@[i]@,
    {
        Message { commits }
    }

    /// Whether the stack holds no commit yet.
    pub fn empty(&self) -> (r: bool)
        ensures
            r == (self@.len() == 0),
    {
        self.commits.is_empty()
    }

    /// When the message was first committed, if ever.
    pub fn created(&self) -> (r: Option<Timestamp>)
        ensures
            self@.len() == 0 ==> r is None,
            self@.len() > 0 ==> r == Some(self@.first().time),
    {
        if self.commits.len() > 0 {
            Some(self.commits[0].time())
        } else {
            None
        }
    }

    /// When the message was last committed, if ever.
    pub fn modified(&self) -> (r: Option<Timestamp>)
        ensures
            self@.len() == 0 ==> r is None,
            self@.len() > 0 ==> r == Some(self@.last().time),
    {
        if self.commits.len() > 0 {
            Some(self.commits[self.commits.len() - 1].time())
        } else {
            None
        }
    }

    /// The commit on top of the stack: the message's current value.
    pub fn most_recent(&self) -> (r: Option<&Commit>)
        ensures
            self@.len() == 0 ==> r is None,
            self@.len() > 0 ==> r is Some && r->0@ == self@.last(),
    {
        if self.commits.len() > 0 {
            Some(&self.commits[self.commits.len() - 1])
        } else {
            None
        }
    }

    /// How many commits the stack holds.
    pub fn commit_count(&self) -> (r: usize)
        ensures
            r == self@.len(),
    {
        self.commits.len()
    }

    /// The commit at the given position, oldest first.
    pub fn commit_at(&self, i: usize) -> (r: Option<&Commit>)
        ensures
            i < self@.len() ==> r is Some && r->0@ == self@[i as int],
            i >= self@.len() ==> r is None,
    {
        if i < self.commits.len() {
            Some(&self.commits[i])
        } else {
            None
        }
    }

    /// Push a new commit on top. Nothing below it moves: this is the sole
    /// way a message ever changes.
    pub fn push_commit(&mut self, commit: Commit)
        requires
            old(self).wf(),
            commit.wf(),
        ensures
            final(self)@ == old(self)@.push(commit@),
            final(self).wf(),
            msg_view_wf(final(self)@),
    {
        self.commits.push(commit);
        proof {
            assert(self@ =~= old(self)@.push(commit@));
        }
    }
}

/// Revising a message never touches its history: after a push, every
/// older commit is exactly where it was, the length grew by one, and the
/// new commit is the current value.
pub proof fn lemma_commit_immutability(before: Seq<CommitView>, after: Seq<CommitView>, c: CommitView)
    requires
        after == before.push(c),
    ensures
        after.len() == before.len() + 1,
        forall|i: int| 0 <= i < before.len() ==> after[i] == before[i],
        after.last() == c,
        before.len() >= 1 ==> after.first() == before.first(),
{
}

/// A diary: a name and the messages it holds, in creation order. Display
/// may show them newest first, but this storage order is canonical.
#[derive(Debug, Clone, PartialEq)]
pub struct Diary {
    file_name: String,
    pub messages: Vec<Message>,
}

impl View for Diary {
    type V = DiaryView;

    closed spec fn view(&self) -> DiaryView {
        DiaryView {
            name: self.file_name@,
            messages: Seq::new(self.messages@.len(), |i: int| self.messages@[i]@),
        }
    }
}

impl Diary {
    pub open spec fn wf(&self) -> bool {
        diary_view_wf(self@)
    }

    /// An unnamed diary with no messages.
    pub fn new() -> (d: Diary)
        ensures
            d@.name == Seq::<char>::empty(),
            d@.messages == Seq::<Seq<CommitView>>::empty(),
            d.wf(),
    {
        let d = Diary { file_name: String::new(), messages: Vec::new() };
        proof {
            assert(d@.messages =~= Seq::<Seq<CommitView>>::empty());
            assert(d.wf());
        }
        d
    }

    /// A diary from a name and messages; every message must already hold
    /// a commit.
    pub fn from(file_name: String, messages: Vec<Message>) -> (d: Diary)
        requires
            line_ok(file_name@),
            forall|i: int| 0 <= i < messages@.len() ==> msg_view_wf(#[trigger] messages@[i]@),
        ensures
            d@.name == file_name@,
            d@.messages.len() == messages@.len(),
            forall|i: int| 0 <= i < messages@.len() ==> d@.messages[i] == messages@[i]@,
            d.wf(),
    {
        let d = Diary { file_name, messages };
        d
    }

    /// The diary's name: the first line of its persisted form.
    pub fn name(&self) -> (r: &str)
        ensures
            r@ == self@.name,
    {
        self.file_name.as_str()
    }

    /// Rename the diary; the name must fit on one line.
    pub fn set_name(&mut self, file_name: String)
        requires
            line_ok(file_name@),
        ensures
            final(self)@.name == file_name@,
            final(self)@.messages == old(self)@.messages,
    {
        self.file_name = file_name;
    }

    /// Append a brand-new message whose single commit holds the given
    /// text, stamped with the current time.
    pub fn push_string(&mut self, s: String)
        requires
            old(self).wf(),
            line_ok(s@),
        ensures
            final(self).wf(),
            final(self)@.name == old(self)@.name,
            final(self)@.messages.len() == old(self)@.messages.len() + 1,
            forall|i: int|
                0 <= i < old(self)@.messages.len() ==> final(self)@.messages[i] == old(
                    self,
                )@.messages[i],
            final(self)@.messages.last().len() == 1,
            final(self)@.messages.last()[0].data == s@,
            final(self)@.messages.last()[0].time.valid(),
    {
        let msg = Message::from_commit(Commit::from_data(s));
        self.messages.push(msg);
        proof {
            assert(final(self)@.messages =~= old(self)@.messages.push(msg@));
        }
    }

    /// Append an existing message; it must already hold a commit.
    pub fn push_msg(&mut self, msg: Message)
        requires
            old(self).wf(),
            msg_view_wf(msg@),
        ensures
            final(self).wf(),
            final(self)@.name == old(self)@.name,
            final(self)@.messages == old(self)@.messages.push(msg@),
    {
        self.messages.push(msg);
        proof {
            assert(final(self)@.messages =~= old(self)@.messages.push(msg@));
        }
    }

    /// How many messages the diary holds.
    pub fn message_count(&self) -> (r: usize)
        ensures
            r == self@.messages.len(),
    {
        self.messages.len()
    }

    /// The message at the given storage index.
    pub fn message_at(&self, i: usize) -> (r: Option<&Message>)
        ensures
            i < self@.messages.len() ==> r is Some && r->0@ == self@.messages[i as int],
            i >= self@.messages.len() ==> r is None,
    {
        if i < self.messages.len() {
            Some(&self.messages[i])
        } else {
            None
        }
    }

    /// Push a revision onto the message at the given storage index; all
    /// earlier commits of that message stay untouched. Returns false, and
    /// changes nothing, when no message sits at that index.
    pub fn revise_at(&mut self, index: usize, commit: Commit) -> (r: bool)
        requires
            old(self).wf(),
            commit.wf(),
        ensures
            final(self).wf(),
            r == (index < old(self)@.messages.len()),
            final(self)@.name == old(self)@.name,
            final(self)@.messages.len() == old(self)@.messages.len(),
            !r ==> final(self)@ == old(self)@,
            r ==> final(self)@.messages[index as int] == old(self)@.messages[index as int].push(
                commit@,
            ),
            r ==> forall|i: int|
                0 <= i < old(self)@.messages.len() && i != index ==> final(self)@.messages[i]
                    == old(self)@.messages[i],
    {
        if index < self.messages.len() {
            let mut msg = self.messages.remove(index);
            proof {
                assert(msg@ == old(self)@.messages[index as int]);
                assert(msg_view_wf(msg@));
            }
            msg.push_commit(commit);
            self.messages.insert(index, msg);
            proof {
                assert(self@.messages =~= old(self)@.messages.update(
                    index as int,
                    old(self)@.messages[index as int].push(commit@),
                ));
            }
            true
        } else {
            proof {
                assert(self@ =~= old(self)@);
            }
            false
        }
    }
}

} // verus!
