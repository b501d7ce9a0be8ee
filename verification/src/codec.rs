//! The codec: the plain-text persisted form of a [`Diary`] and its parser.
//!
//! The format is line oriented. The first line is the diary's name; each
//! message is one `<timestamp>|<text>` line per commit, oldest first,
//! closed by a line holding exactly `;`. Blank lines between entries are
//! cosmetic. Parsing a serialized diary gives the diary back; the
//! round-trip lemma at the bottom proves it for every persistable diary.

use vstd::prelude::*;

use crate::commit::{
    commit_view_wf, diary_view_wf, msg_view_wf, Commit, CommitView, Diary, DiaryView,
    FileParseError, Message,
};
use crate::strutil::{chars_to_string, line_ok, str_to_chars};
use crate::timestamp::{
    lemma_render_ts_chars, lemma_ts_round_trip, parse_timestamp, render_timestamp, spec_parse_ts,
    spec_render_ts, Timestamp,
};

verus! {

// ------------------------------------------------------------------
// Splitting text into lines.
// ------------------------------------------------------------------
/// The lines of a text, split at every newline: one line more than there
/// are newlines, so text ending in a newline ends in an empty line.
pub open spec fn spec_split_lines(s: Seq<char>) -> Seq<Seq<char>>
    decreases s.len(),
{
    if s.len() == 0 {
        seq![Seq::<char>::empty()]
    } else if s.first() == '\n' {
        seq![Seq::<char>::empty()] + spec_split_lines(s.drop_first())
    } else {
        let rest = spec_split_lines(s.drop_first());
        seq![seq![s.first()] + rest.first()] + rest.drop_first()
    }
}

pub proof fn lemma_split_lines_len(s: Seq<char>)
    ensures
        spec_split_lines(s).len() >= 1,
    decreases s.len(),
{
    if s.len() != 0 {
        lemma_split_lines_len(s.drop_first());
    }
}

/// A text without newlines is one single line.
pub proof fn lemma_split_single(a: Seq<char>)
    requires
        line_ok(a),
    ensures
        spec_split_lines(a) == seq![a],
    decreases a.len(),
{
    if a.len() == 0 {
        assert(a =~= Seq::<char>::empty());
        assert(spec_split_lines(a) =~~= seq![a]);
    } else {
        assert(a[0] != '\n');
        assert(line_ok(a.drop_first()));
        lemma_split_single(a.drop_first());
        lemma_split_lines_len(a.drop_first());
        assert(spec_split_lines(a) =~~= seq![seq![a.first()] + a.drop_first()]);
        assert(seq![a.first()] + a.drop_first() =~= a);
        assert(spec_split_lines(a) =~~= seq![a]);
    }
}

/// Splitting peels one newline-terminated line off the front.
pub proof fn lemma_split_peel(a: Seq<char>, b: Seq<char>)
    requires
        line_ok(a),
    ensures
        spec_split_lines(a + seq!['\n'] + b) == seq![a] + spec_split_lines(b),
    decreases a.len(),
{
    let s = a + seq!['\n'] + b;
    if a.len() == 0 {
        assert(s.first() == '\n');
        assert(s.drop_first() =~= b);
        assert(a =~= Seq::<char>::empty());
        assert(spec_split_lines(s) =~~= seq![a] + spec_split_lines(b));
    } else {
        assert(s.first() == a.first());
        assert(a.first() != '\n');
        assert(line_ok(a.drop_first()));
        assert(s.drop_first() =~= a.drop_first() + seq!['\n'] + b);
        lemma_split_peel(a.drop_first(), b);
        let rest = spec_split_lines(s.drop_first());
        lemma_split_lines_len(b);
        assert(rest == seq![a.drop_first()] + spec_split_lines(b));
        assert(rest.first() =~= a.drop_first());
        assert(rest.drop_first() =~~= spec_split_lines(b));
        assert(seq![s.first()] + rest.first() =~= a);
        assert(spec_split_lines(s) =~~= seq![a] + spec_split_lines(b));
    }
}

/// No split line holds a newline.
pub proof fn lemma_split_lines_ok(s: Seq<char>)
    ensures
        forall|i: int|
            0 <= i < spec_split_lines(s).len() ==> line_ok(#[trigger] spec_split_lines(s)[i]),
    decreases s.len(),
{
    let lines = spec_split_lines(s);
    if s.len() == 0 {
        assert(line_ok(lines[0]));
    } else if s.first() == '\n' {
        lemma_split_lines_ok(s.drop_first());
        assert forall|i: int| 0 <= i < lines.len() implies line_ok(#[trigger] lines[i]) by {
            if i > 0 {
                assert(lines[i] == spec_split_lines(s.drop_first())[i - 1]);
            }
        }
    } else {
        lemma_split_lines_ok(s.drop_first());
        lemma_split_lines_len(s.drop_first());
        let rest = spec_split_lines(s.drop_first());
        assert forall|i: int| 0 <= i < lines.len() implies line_ok(#[trigger] lines[i]) by {
            if i == 0 {
                assert(line_ok(rest.first()));
                assert(lines[0] == seq![s.first()] + rest.first());
                assert(s.first() != '\n');
                assert forall|j: int| 0 <= j < lines[0].len() implies lines[0][j] != '\n' by {
                    if j > 0 {
                        assert(lines[0][j] == rest.first()[j - 1]);
                    }
                }
            } else {
                assert(lines[i] == rest.drop_first()[i - 1]);
                assert(lines[i] == rest[i]);
            }
        }
    }
}

// ------------------------------------------------------------------
// Finding the first delimiter in a line.
// ------------------------------------------------------------------
/// The first position of a character, or the length when it is absent.
pub open spec fn spec_find(s: Seq<char>, c: char) -> int
    decreases s.len(),
{
    if s.len() == 0 {
        0
    } else if s.first() == c {
        0
    } else {
        1 + spec_find(s.drop_first(), c)
    }
}

pub proof fn lemma_spec_find(s: Seq<char>, c: char)
    ensures
        0 <= spec_find(s, c) <= s.len(),
        spec_find(s, c) < s.len() ==> s[spec_find(s, c)] == c,
        forall|j: int| 0 <= j < spec_find(s, c) ==> s[j] != c,
    decreases s.len(),
{
    if s.len() > 0 && s.first() != c {
        lemma_spec_find(s.drop_first(), c);
        assert forall|j: int| 0 <= j < spec_find(s, c) implies s[j] != c by {
            if j > 0 {
                assert(s[j] == s.drop_first()[j - 1]);
            }
        }
    }
}

// ------------------------------------------------------------------
// Rendering.
// ------------------------------------------------------------------
/// One commit line: the fixed timestamp form, the delimiter, the text.
pub open spec fn spec_render_commit(c: CommitView) -> Seq<char> {
    spec_render_ts(c.time) + seq!['|'] + c.data
}

/// The commit lines of one message, oldest first, each newline-closed.
pub open spec fn spec_commit_lines(m: Seq<CommitView>) -> Seq<char>
    decreases m.len(),
{
    if m.len() == 0 {
        Seq::<char>::empty()
    } else {
        spec_render_commit(m.first()) + seq!['\n'] + spec_commit_lines(m.drop_first())
    }
}

/// One message: its commit lines closed by a `;` line.
pub open spec fn spec_render_msg(m: Seq<CommitView>) -> Seq<char> {
    spec_commit_lines(m) + seq![';', '\n']
}

/// All messages, in storage order.
pub open spec fn spec_render_msgs(ms: Seq<Seq<CommitView>>) -> Seq<char>
    decreases ms.len(),
{
    if ms.len() == 0 {
        Seq::<char>::empty()
    } else {
        spec_render_msg(ms.first()) + spec_render_msgs(ms.drop_first())
    }
}

/// The whole persisted form: the name line, then every message.
pub open spec fn spec_serialize(v: DiaryView) -> Seq<char> {
    v.name + seq!['\n'] + spec_render_msgs(v.messages)
}

proof fn lemma_commit_lines_push(m: Seq<CommitView>, c: CommitView)
    ensures
        spec_commit_lines(m.push(c)) == spec_commit_lines(m) + spec_render_commit(c) + seq!['\n'],
    decreases m.len(),
{
    if m.len() == 0 {
        assert(m.push(c).first() == c);
        assert(m.push(c).drop_first() =~= Seq::<CommitView>::empty());
        assert(spec_commit_lines(Seq::<CommitView>::empty()) == Seq::<char>::empty());
        assert(m =~= Seq::<CommitView>::empty());
        assert(spec_commit_lines(m.push(c)) =~= spec_commit_lines(m) + spec_render_commit(c)
            + seq!['\n']);
    } else {
        assert(m.push(c).first() == m.first());
        assert(m.push(c).drop_first() =~= m.drop_first().push(c));
        lemma_commit_lines_push(m.drop_first(), c);
        assert(spec_commit_lines(m.push(c)) =~= spec_commit_lines(m) + spec_render_commit(c)
            + seq!['\n']);
    }
}

proof fn lemma_render_msgs_push(ms: Seq<Seq<CommitView>>, m: Seq<CommitView>)
    ensures
        spec_render_msgs(ms.push(m)) == spec_render_msgs(ms) + spec_render_msg(m),
    decreases ms.len(),
{
    if ms.len() == 0 {
        assert(ms.push(m).first() == m);
        assert(ms.push(m).drop_first() =~~= Seq::<Seq<CommitView>>::empty());
        assert(spec_render_msgs(Seq::<Seq<CommitView>>::empty()) == Seq::<char>::empty());
        assert(ms =~~= Seq::<Seq<CommitView>>::empty());
        assert(spec_render_msgs(ms.push(m)) =~= spec_render_msgs(ms) + spec_render_msg(m));
    } else {
        assert(ms.push(m).first() == ms.first());
        assert(ms.push(m).drop_first() =~~= ms.drop_first().push(m));
        lemma_render_msgs_push(ms.drop_first(), m);
        assert(spec_render_msgs(ms.push(m)) =~= spec_render_msgs(ms) + spec_render_msg(m));
    }
}

/// Append one rendered commit line, newline included.
fn render_commit_line(out: &mut Vec<char>, c: &Commit)
    requires
        c.wf(),
    ensures
        final(out)@ == old(out)@ + spec_render_commit(c@) + seq!['\n'],
{
    let t = c.time();
    render_timestamp(out, &t);
    out.push('|');
    let mut data = str_to_chars(c.data());
    out.append(&mut data);
    out.push('\n');
    proof {
        assert(out@ =~= old(out)@ + spec_render_commit(c@) + seq!['\n']);
    }
}

impl Diary {
    /// The persisted plain-text form of the diary. Pure and total: every
    /// persistable diary serializes.
    pub fn serialize(&self) -> (r: String)
        requires
            self.wf(),
        ensures
            r@ == spec_serialize(self@),
    {
        let mut out: Vec<char> = str_to_chars(self.name());
        out.push('\n');
        proof {
            assert(out@ =~= self@.name + seq!['\n']);
            assert(self@.messages.take(0) =~~= Seq::<Seq<CommitView>>::empty());
        }
        let n = self.message_count();
        let mut i: usize = 0;
        while i < n
            invariant
                self.wf(),
                n == self@.messages.len(),
                i <= n,
                out@ == self@.name + seq!['\n'] + spec_render_msgs(self@.messages.take(i as int)),
            decreases n - i,
        {
            let msg: &Message = self.message_at(i).unwrap();
            proof {
                assert(msg@ == self@.messages[i as int]);
                assert(msg_view_wf(msg@));
                assert(msg.wf());
                assert(msg@.take(0) =~= Seq::<CommitView>::empty());
            }
            let ghost out_msg_start = out@;
            let k = msg.commit_count();
            let mut j: usize = 0;
            while j < k
                invariant
                    msg.wf(),
                    k == msg@.len(),
                    j <= k,
                    out@ == out_msg_start + spec_commit_lines(msg@.take(j as int)),
                decreases k - j,
            {
                let c = msg.commit_at(j).unwrap();
                render_commit_line(&mut out, c);
                proof {
                    lemma_commit_lines_push(msg@.take(j as int), msg@[j as int]);
                    assert(msg@.take(j as int).push(msg@[j as int]) =~= msg@.take(j + 1 as int));
                }
                j = j + 1;
            }
            out.push(';');
            out.push('\n');
            proof {
                assert(msg@.take(k as int) =~= msg@);
                assert(out@ =~= out_msg_start + spec_render_msg(msg@));
                lemma_render_msgs_push(self@.messages.take(i as int), msg@);
                assert(self@.messages.take(i as int).push(msg@) =~~= self@.messages.take(
                    i + 1 as int,
                ));
            }
            i = i + 1;
        }
        proof {
            assert(self@.messages.take(n as int) =~~= self@.messages);
        }
        chars_to_string(&out)
    }
}

// ------------------------------------------------------------------
// Parsing.
// ------------------------------------------------------------------
/// What one commit line parses to: its timestamp and its text, split at
/// the first `|`; or the reason it is malformed.
pub open spec fn spec_parse_commit_line(line: Seq<char>) -> Result<CommitView, FileParseError> {
    let i = spec_find(line, '|');
    if i == line.len() {
        Err(FileParseError::MissingDelimiter)
    } else {
        match spec_parse_ts(line.take(i)) {
            None => Err(FileParseError::BadTimestamp),
            Some(t) => Ok(CommitView { time: t, data: line.skip(i + 1) }),
        }
    }
}

/// What the lines after the name line parse to, with the commits of the
/// entry still open carried along: the messages, or the first error.
pub open spec fn spec_parse_entries(lines: Seq<Seq<char>>, cur: Seq<CommitView>) -> Result<
    Seq<Seq<CommitView>>,
    FileParseError,
>
    decreases lines.len(),
{
    if lines.len() == 0 {
        if cur.len() == 0 {
            Ok(Seq::<Seq<CommitView>>::empty())
        } else {
            Err(FileParseError::UnterminatedEntry)
        }
    } else if lines.first() == seq![';'] {
        if cur.len() == 0 {
            Err(FileParseError::EmptyEntry)
        } else {
            match spec_parse_entries(lines.drop_first(), Seq::<CommitView>::empty()) {
                Ok(ms) => Ok(seq![cur] + ms),
                Err(e) => Err(e),
            }
        }
    } else if lines.first().len() == 0 {
        spec_parse_entries(lines.drop_first(), cur)
    } else {
        match spec_parse_commit_line(lines.first()) {
            Ok(c) => spec_parse_entries(lines.drop_first(), cur.push(c)),
            Err(e) => Err(e),
        }
    }
}

/// What a whole persisted text parses to: the first line is the name,
/// the rest are entries.
pub open spec fn spec_parse(s: Seq<char>) -> Result<DiaryView, FileParseError> {
    let lines = spec_split_lines(s);
    match spec_parse_entries(lines.drop_first(), Seq::<CommitView>::empty()) {
        Ok(ms) => Ok(DiaryView { name: lines.first(), messages: ms }),
        Err(e) => Err(e),
    }
}

/// The commits of a vector, as their mathematical values.
pub open spec fn commits_view(s: Seq<Commit>) -> Seq<CommitView> {
    Seq::new(s.len(), |i: int| s[i]@)
}

/// The messages of a vector, as their mathematical values.
pub open spec fn msgs_view(s: Seq<Message>) -> Seq<Seq<CommitView>> {
    Seq::new(s.len(), |i: int| s[i]@)
}

/// Split text into its lines.
pub(crate) fn split_chars(chars: &Vec<char>) -> (r: Vec<Vec<char>>)
    ensures
        r.deep_view() == spec_split_lines(chars@),
        r@.len() >= 1,
{
    let mut done: Vec<Vec<char>> = Vec::new();
    let mut cur: Vec<char> = Vec::new();
    let n = chars.len();
    let mut i: usize = 0;
    proof {
        assert(cur@ + chars@.skip(0) =~= chars@);
        assert(spec_split_lines(chars@) =~~= done.deep_view() + spec_split_lines(
            cur@ + chars@.skip(0),
        ));
    }
    while i < n
        invariant
            n == chars@.len(),
            i <= n,
            line_ok(cur@),
            spec_split_lines(chars@) =~~= done.deep_view() + spec_split_lines(
                cur@ + chars@.skip(i as int),
            ),
        decreases n - i,
    {
        let c = chars[i];
        if c == '\n' {
            proof {
                assert(cur@ + chars@.skip(i as int) =~= cur@ + seq!['\n'] + chars@.skip(i + 1));
                lemma_split_peel(cur@, chars@.skip(i + 1));
            }
            let ghost done0 = done.deep_view();
            done.push(cur);
            cur = Vec::new();
            proof {
                assert(done.deep_view() =~~= done0.push(done@[done@.len() - 1]@));
                assert(cur@ + chars@.skip(i + 1) =~= chars@.skip(i + 1));
                assert(spec_split_lines(chars@) =~~= done.deep_view() + spec_split_lines(
                    cur@ + chars@.skip(i + 1),
                ));
            }
        } else {
            proof {
                assert((cur@.push(c)) + chars@.skip(i + 1) =~= cur@ + chars@.skip(i as int));
            }
            cur.push(c);
        }
        i = i + 1;
    }
    proof {
        assert(cur@ + chars@.skip(n as int) =~= cur@);
        lemma_split_single(cur@);
    }
    let ghost done0 = done.deep_view();
    done.push(cur);
    proof {
        assert(done.deep_view() =~~= done0.push(done@[done@.len() - 1]@));
        assert(done.deep_view() =~~= spec_split_lines(chars@));
    }
    done
}

/// The position of the first `|`, or the line's length.
fn find_pipe(line: &Vec<char>) -> (r: usize)
    ensures
        r as int == spec_find(line@, '|'),
{
    let n = line.len();
    let mut i: usize = 0;
    while i < n
        invariant
            i <= n,
            n == line@.len(),
            forall|j: int| 0 <= j < i ==> line@[j] != '|',
        decreases n - i,
    {
        if line[i] == '|' {
            proof {
                lemma_spec_find(line@, '|');
            }
            return i;
        }
        i = i + 1;
    }
    proof {
        lemma_spec_find(line@, '|');
    }
    n
}

/// Parse one commit line held as characters.
fn parse_commit_chars(line: &Vec<char>) -> (r: Result<Commit, FileParseError>)
    requires
        line_ok(line@),
    ensures
        match r {
            Ok(c) => spec_parse_commit_line(line@) == Ok::<CommitView, FileParseError>(c@)
                && c.wf(),
            Err(e) => spec_parse_commit_line(line@) == Err::<CommitView, FileParseError>(e),
        },
{
    let n = line.len();
    let p = find_pipe(line);
    proof {
        lemma_spec_find(line@, '|');
    }
    if p == n {
        return Err(FileParseError::MissingDelimiter);
    }
    let mut seg: Vec<char> = Vec::new();
    let mut i: usize = 0;
    while i < p
        invariant
            i <= p,
            p < line@.len(),
            seg@ == line@.subrange(0, i as int),
        decreases p - i,
    {
        let c = line[i];
        seg.push(c);
        proof {
            assert(seg@ =~= line@.subrange(0, i + 1 as int));
        }
        i = i + 1;
    }
    proof {
        assert(seg@ =~= line@.take(p as int));
    }
    let t = match parse_timestamp(&seg) {
        Some(t) => t,
        None => {
            return Err(FileParseError::BadTimestamp);
        },
    };
    let mut data: Vec<char> = Vec::new();
    let mut j: usize = p + 1;
    while j < n
        invariant
            p + 1 <= j <= n,
            n == line@.len(),
            data@ == line@.subrange(p + 1, j as int),
        decreases n - j,
    {
        let c = line[j];
        data.push(c);
        proof {
            assert(data@ =~= line@.subrange(p + 1, j + 1 as int));
        }
        j = j + 1;
    }
    proof {
        assert(data@ =~= line@.skip(p + 1));
    }
    let ds = chars_to_string(&data);
    Ok(Commit::from(t, ds))
}

/// Parse one `<timestamp>|<text>` line.
pub fn parse_commit_string(commit: &str) -> (r: Result<Commit, FileParseError>)
    requires
        line_ok(commit@),
    ensures
        match r {
            Ok(c) => spec_parse_commit_line(commit@) == Ok::<CommitView, FileParseError>(c@)
                && c.wf(),
            Err(e) => spec_parse_commit_line(commit@) == Err::<CommitView, FileParseError>(e),
        },
{
    let chars = str_to_chars(commit);
    parse_commit_chars(&chars)
}

impl Diary {
    /// Parse a persisted text back into a diary. Fails, with the reason,
    /// exactly where the text does not follow the format; never panics.
    pub fn parse(s: &str) -> (r: Result<Diary, FileParseError>)
        ensures
            match r {
                Ok(d) => spec_parse(s@) == Ok::<DiaryView, FileParseError>(d@) && d.wf(),
                Err(e) => spec_parse(s@) == Err::<DiaryView, FileParseError>(e),
            },
    {
        let chars = str_to_chars(s);
        let lines = split_chars(&chars);
        proof {
            lemma_split_lines_len(chars@);
            lemma_split_lines_ok(chars@);
            assert(lines.deep_view()[0] =~= lines@[0]@);
        }
        let name = chars_to_string(&lines[0]);
        let mut msgs: Vec<Message> = Vec::new();
        let mut cur: Vec<Commit> = Vec::new();
        let mut i: usize = 1;
        let nl = lines.len();
        proof {
            assert(commits_view(cur@) =~= Seq::<CommitView>::empty());
            assert(msgs_view(msgs@) =~~= Seq::<Seq<CommitView>>::empty());
        }
        while i < nl
            invariant
                1 <= i <= nl,
                nl == lines@.len(),
                chars@ == s@,
                name@ == spec_split_lines(chars@).first(),
                lines.deep_view() == spec_split_lines(chars@),
                forall|k: int|
                    0 <= k < lines.deep_view().len() ==> line_ok(#[trigger] lines.deep_view()[k]),
                forall|k: int| 0 <= k < cur@.len() ==> (#[trigger] cur@[k]).wf(),
                forall|k: int| 0 <= k < msgs@.len() ==> msg_view_wf(#[trigger] msgs@[k]@),
                spec_parse_entries(lines.deep_view().skip(1), Seq::<CommitView>::empty()) == (
                match spec_parse_entries(lines.deep_view().skip(i as int), commits_view(cur@)) {
                    Ok(ms) => Ok::<Seq<Seq<CommitView>>, FileParseError>(msgs_view(msgs@) + ms),
                    Err(e) => Err::<Seq<Seq<CommitView>>, FileParseError>(e),
                }),
            decreases nl - i,
        {
            let ghost rest = lines.deep_view().skip(i as int);
            proof {
                assert(lines.deep_view()[i as int] =~= lines@[i as int]@);
                assert(rest.first() == lines.deep_view()[i as int]);
                assert(rest.drop_first() =~~= lines.deep_view().skip(i + 1));
            }
            let line = &lines[i];
            if line.len() == 1 && line[0] == ';' {
                proof {
                    assert(line@ =~= seq![';']);
                }
                if cur.is_empty() {
                    proof {
                        assert(commits_view(cur@).len() == 0);
                        assert(spec_split_lines(s@).drop_first() =~~= lines.deep_view().skip(1));
                    }
                    return Err(FileParseError::EmptyEntry);
                }
                proof {
                    assert(commits_view(cur@).len() > 0);
                }
                let ghost curv = commits_view(cur@);
                let ghost msgsv = msgs_view(msgs@);
                let m = Message::from_commits(cur);
                proof {
                    assert(m@ =~= curv);
                    assert(msg_view_wf(m@));
                }
                cur = Vec::new();
                msgs.push(m);
                proof {
                    assert(commits_view(cur@) =~= Seq::<CommitView>::empty());
                    assert(msgs_view(msgs@) =~~= msgsv.push(curv));
                    assert(msgs_view(msgs@) + Seq::<Seq<CommitView>>::empty() =~~= msgs_view(
                        msgs@,
                    ));
                    assert forall|ms: Seq<Seq<CommitView>>| true implies (msgsv + (seq![curv] + ms)
                        =~~= msgs_view(msgs@) + ms) by {}
                }
            } else if line.len() == 0 {
                proof {
                    assert(line@.len() == 0);
                    assert(rest.first().len() == 0);
                    assert(rest.first() != seq![';']);
                }
            } else {
                proof {
                    assert(line@.len() > 0);
                    assert(rest.first().len() > 0);
                    if rest.first() == seq![';'] {
                        assert(line@ =~= seq![';']);
                        assert(line@.len() == 1 && line@[0] == ';');
                        assert(false);
                    }
                }
                match parse_commit_chars(line) {
                    Ok(c) => {
                        let ghost curv = commits_view(cur@);
                        cur.push(c);
                        proof {
                            assert(commits_view(cur@) =~= curv.push(c@));
                        }
                    },
                    Err(e) => {
                        proof {
                            assert(spec_split_lines(s@).drop_first() =~~= lines.deep_view().skip(
                                1,
                            ));
                        }
                        return Err(e);
                    },
                }
            }
            i = i + 1;
        }
        proof {
            assert(lines.deep_view().skip(nl as int) =~~= Seq::<Seq<char>>::empty());
        }
        if !cur.is_empty() {
            proof {
                assert(commits_view(cur@).len() > 0);
                assert(spec_split_lines(s@).drop_first() =~~= lines.deep_view().skip(1));
            }
            return Err(FileParseError::UnterminatedEntry);
        }
        proof {
            assert(commits_view(cur@).len() == 0);
            assert(msgs_view(msgs@) + Seq::<Seq<CommitView>>::empty() =~~= msgs_view(msgs@));
        }
        let d = Diary::from(name, msgs);
        proof {
            assert(spec_split_lines(s@).drop_first() =~~= lines.deep_view().skip(1));
            assert(d@.messages =~~= msgs_view(msgs@));
            assert(d@.name == spec_split_lines(chars@).first());
            assert(spec_parse(s@) == Ok::<DiaryView, FileParseError>(d@));
        }
        Ok(d)
    }
}

// ------------------------------------------------------------------
// The round trip.
// ------------------------------------------------------------------
/// A rendered commit line is one line, and parses back to its commit.
proof fn lemma_commit_round_trip(c: CommitView)
    requires
        commit_view_wf(c),
    ensures
        line_ok(spec_render_commit(c)),
        spec_render_commit(c).len() >= 27,
        spec_parse_commit_line(spec_render_commit(c)) == Ok::<CommitView, FileParseError>(c),
{
    let line = spec_render_commit(c);
    lemma_render_ts_chars(c.time);
    assert(line.len() == 27 + c.data.len());
    assert forall|i: int| 0 <= i < line.len() implies line[i] != '\n' by {
        if i < 26 {
            assert(line[i] == spec_render_ts(c.time)[i]);
        } else if i == 26 {
            assert(line[i] == '|');
        } else {
            assert(line[i] == c.data[i - 27]);
        }
    }
    assert(line[26] == '|');
    assert forall|j: int| 0 <= j < 26 implies line[j] != '|' by {
        assert(line[j] == spec_render_ts(c.time)[j]);
    }
    lemma_spec_find(line, '|');
    assert(spec_find(line, '|') == 26);
    assert(line.take(26) =~= spec_render_ts(c.time));
    lemma_ts_round_trip(c.time);
    assert(spec_parse_ts(line.take(26)) == Some(c.time));
    assert(line.skip(27) =~= c.data);
}

/// The lines a rendered message turns into: its commit lines, then `;`.
spec fn spec_msg_lines(m: Seq<CommitView>) -> Seq<Seq<char>>
    decreases m.len(),
{
    if m.len() == 0 {
        seq![seq![';']]
    } else {
        seq![spec_render_commit(m.first())] + spec_msg_lines(m.drop_first())
    }
}

/// Splitting a rendered message peels exactly its lines off the front.
proof fn lemma_split_msg(m: Seq<CommitView>, tail: Seq<char>)
    requires
        forall|i: int| 0 <= i < m.len() ==> commit_view_wf(#[trigger] m[i]),
    ensures
        spec_split_lines(spec_render_msg(m) + tail) == spec_msg_lines(m) + spec_split_lines(tail),
    decreases m.len(),
{
    if m.len() == 0 {
        assert(spec_commit_lines(m) == Seq::<char>::empty());
        assert(spec_render_msg(m) + tail =~= seq![';'] + seq!['\n'] + tail);
        assert(line_ok(seq![';']));
        lemma_split_peel(seq![';'], tail);
        assert(spec_split_lines(spec_render_msg(m) + tail) =~~= spec_msg_lines(m)
            + spec_split_lines(tail));
    } else {
        let rc = spec_render_commit(m.first());
        lemma_commit_round_trip(m.first());
        assert(spec_render_msg(m) + tail =~= rc + seq!['\n'] + (spec_render_msg(m.drop_first())
            + tail));
        lemma_split_peel(rc, spec_render_msg(m.drop_first()) + tail);
        lemma_split_msg(m.drop_first(), tail);
        assert(spec_split_lines(spec_render_msg(m) + tail) =~~= spec_msg_lines(m)
            + spec_split_lines(tail));
    }
}

/// Parsing the lines of one rendered message closes exactly one entry:
/// the open commits followed by the message's own.
proof fn lemma_parse_msg_lines(m: Seq<CommitView>, rest: Seq<Seq<char>>, cur: Seq<CommitView>)
    requires
        forall|i: int| 0 <= i < m.len() ==> commit_view_wf(#[trigger] m[i]),
        cur.len() + m.len() >= 1,
    ensures
        spec_parse_entries(spec_msg_lines(m) + rest, cur) == (match spec_parse_entries(
            rest,
            Seq::<CommitView>::empty(),
        ) {
            Ok(ms) => Ok::<Seq<Seq<CommitView>>, FileParseError>(seq![cur + m] + ms),
            Err(e) => Err::<Seq<Seq<CommitView>>, FileParseError>(e),
        }),
    decreases m.len(),
{
    let lines = spec_msg_lines(m) + rest;
    if m.len() == 0 {
        assert(lines.first() == seq![';']);
        assert(lines.drop_first() =~~= rest);
        assert(cur.len() >= 1);
        assert(cur + m =~= cur);
        match spec_parse_entries(rest, Seq::<CommitView>::empty()) {
            Ok(ms) => {
                assert(seq![cur] + ms =~~= seq![cur + m] + ms);
            },
            Err(e) => {},
        }
    } else {
        let rc = spec_render_commit(m.first());
        lemma_commit_round_trip(m.first());
        assert(lines.first() == rc);
        assert(rc.len() >= 27);
        assert(rc != seq![';']);
        assert(rc.len() != 0);
        assert(lines.drop_first() =~~= spec_msg_lines(m.drop_first()) + rest);
        lemma_parse_msg_lines(m.drop_first(), rest, cur.push(m.first()));
        assert(cur.push(m.first()) + m.drop_first() =~= cur + m);
        match spec_parse_entries(rest, Seq::<CommitView>::empty()) {
            Ok(ms) => {
                assert(seq![cur.push(m.first()) + m.drop_first()] + ms =~~= seq![cur + m] + ms);
            },
            Err(e) => {},
        }
    }
}

/// Parsing the split form of rendered messages gives the messages back.
proof fn lemma_parse_render_msgs(ms: Seq<Seq<CommitView>>)
    requires
        forall|i: int| 0 <= i < ms.len() ==> msg_view_wf(#[trigger] ms[i]),
    ensures
        spec_parse_entries(spec_split_lines(spec_render_msgs(ms)), Seq::<CommitView>::empty())
            == Ok::<Seq<Seq<CommitView>>, FileParseError>(ms),
    decreases ms.len(),
{
    if ms.len() == 0 {
        assert(spec_render_msgs(ms) == Seq::<char>::empty());
        let lines = spec_split_lines(Seq::<char>::empty());
        assert(lines =~~= seq![Seq::<char>::empty()]);
        assert(lines.first().len() == 0);
        assert(seq![';'].len() == 1);
        assert(lines.first() != seq![';']);
        assert(lines.drop_first() =~~= Seq::<Seq<char>>::empty());
        assert(spec_parse_entries(Seq::<Seq<char>>::empty(), Seq::<CommitView>::empty())
            == Ok::<Seq<Seq<CommitView>>, FileParseError>(Seq::<Seq<CommitView>>::empty()));
        assert(spec_parse_entries(lines, Seq::<CommitView>::empty())
            == Ok::<Seq<Seq<CommitView>>, FileParseError>(Seq::<Seq<CommitView>>::empty()));
        assert(ms =~~= Seq::<Seq<CommitView>>::empty());
    } else {
        let m0 = ms.first();
        assert(msg_view_wf(m0));
        let tail = spec_render_msgs(ms.drop_first());
        assert(spec_render_msgs(ms) == spec_render_msg(m0) + tail);
        lemma_split_msg(m0, tail);
        lemma_parse_render_msgs(ms.drop_first());
        lemma_parse_msg_lines(m0, spec_split_lines(tail), Seq::<CommitView>::empty());
        assert(Seq::<CommitView>::empty() + m0 =~= m0);
        assert(seq![m0] + ms.drop_first() =~~= ms);
    }
}

/// The round trip: parsing the serialized form of any persistable diary
/// gives back a structurally identical diary, name, message order,
/// commit order, timestamps and text included.
pub proof fn lemma_round_trip(v: DiaryView)
    requires
        diary_view_wf(v),
    ensures
        spec_parse(spec_serialize(v)) == Ok::<DiaryView, FileParseError>(v),
{
    let s = spec_serialize(v);
    lemma_split_peel(v.name, spec_render_msgs(v.messages));
    let lines = spec_split_lines(s);
    assert(lines == seq![v.name] + spec_split_lines(spec_render_msgs(v.messages)));
    assert(lines.first() == v.name);
    assert(lines.drop_first() =~~= spec_split_lines(spec_render_msgs(v.messages)));
    lemma_parse_render_msgs(v.messages);
    assert(DiaryView { name: v.name, messages: v.messages } == v);
}

} // verus!
