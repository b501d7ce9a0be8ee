//! A gap buffer: the mutable text store behind the editing session.
//!
//! The buffer keeps one contiguous unused region (the gap) at the cursor
//! position, so edits at the cursor never shift the rest of the text. The
//! logical content is everything before the gap followed by everything
//! after it, and the cursor sits at the first gap slot.

use vstd::prelude::*;

use crate::strutil::{chars_to_string, is_whitespace_char, str_to_chars, trim_trailing_ws, whitespace_char};

verus! {

/// How many empty slots one growth step adds to the gap.
pub const GAP_GROWTH: usize = 256;

/// One editing keystroke, for replaying a whole session against the
/// plain text-and-cursor reference model.
#[derive(Clone, Copy, Debug, PartialEq, Eq)]
pub enum EditOp {
    Insert(char),
    DeleteBefore,
    DeleteAfter,
    MoveLeft,
    MoveRight,
    MoveHome,
}

/// The reference model of an editing state: the plain text and the cursor
/// position inside it.
pub ghost struct EditModel {
    pub text: Seq<char>,
    pub cursor: int,
}

/// What one keystroke does to the reference model.
pub open spec fn model_step(m: EditModel, op: EditOp) -> EditModel {
    match op {
        EditOp::Insert(c) => EditModel { text: m.text.insert(m.cursor, c), cursor: m.cursor + 1 },
        EditOp::DeleteBefore => if m.cursor > 0 {
            EditModel { text: m.text.remove(m.cursor - 1), cursor: m.cursor - 1 }
        } else {
            m
        },
        EditOp::DeleteAfter => if m.cursor < m.text.len() {
            EditModel { text: m.text.remove(m.cursor), cursor: m.cursor }
        } else {
            m
        },
        EditOp::MoveLeft => EditModel {
            text: m.text,
            cursor: if m.cursor > 0 { m.cursor - 1 } else { 0 },
        },
        EditOp::MoveRight => EditModel {
            text: m.text,
            cursor: if m.cursor < m.text.len() { m.cursor + 1 } else { m.cursor },
        },
        EditOp::MoveHome => EditModel { text: m.text, cursor: 0 },
    }
}

/// What a whole keystroke sequence does to the reference model.
pub open spec fn model_apply(m: EditModel, ops: Seq<EditOp>) -> EditModel
    decreases ops.len(),
{
    if ops.len() == 0 {
        m
    } else {
        model_apply(model_step(m, ops.first()), ops.drop_first())
    }
}

pub proof fn lemma_model_apply_push(m: EditModel, ops: Seq<EditOp>, op: EditOp)
    ensures
        model_apply(m, ops.push(op)) == model_step(model_apply(m, ops), op),
    decreases ops.len(),
{
    assert(ops.push(op).len() == ops.len() + 1);
    if ops.len() == 0 {
        assert(ops.push(op).first() == op);
        assert(ops.push(op).drop_first() =~= Seq::<EditOp>::empty());
        assert(model_apply(model_step(m, op), Seq::<EditOp>::empty()) == model_step(m, op));
    } else {
        assert(ops.push(op).first() == ops.first());
        assert(ops.push(op).drop_first() =~= ops.drop_first().push(op));
        lemma_model_apply_push(model_step(m, ops.first()), ops.drop_first(), op);
        assert(model_apply(m, ops.push(op)) == model_apply(
            model_step(m, ops.first()),
            ops.drop_first().push(op),
        ));
        assert(model_apply(m, ops) == model_apply(model_step(m, ops.first()), ops.drop_first()));
    }
}

pub struct GapBuffer {
    buffer: Vec<char>,
    gap_start: usize,
    gap_end: usize,
}

impl GapBuffer {
    /// The gap is the inclusive slot range `gap_start ..= gap_end`; it
    /// stays in bounds and never empty, so an insert always has a slot.
    pub closed spec fn wf(&self) -> bool {
        self.gap_start <= self.gap_end && self.gap_end < self.buffer.len()
    }

    /// The logical text: the slots before the gap followed by the slots
    /// after it.
    pub closed spec fn content(&self) -> Seq<char> {
        self.buffer@.subrange(0, self.gap_start as int) + self.buffer@.subrange(
            self.gap_end + 1,
            self.buffer.len() as int,
        )
    }

    /// The cursor position in the logical text.
    pub closed spec fn cursor(&self) -> int {
        self.gap_start as int
    }

    /// How many unused slots the gap holds.
    pub closed spec fn spec_gap_len(&self) -> int {
        self.gap_end + 1 - self.gap_start
    }

    pub proof fn lemma_cursor_in_content(&self)
        requires
            self.wf(),
        ensures
            0 <= self.cursor() <= self.content().len(),
    {
    }

    /// An empty buffer whose gap spans the full initial capacity.
    pub fn new() -> (r: GapBuffer)
        ensures
            r.wf(),
            r.content() == Seq::<char>::empty(),
            r.cursor() == 0,
    {
        let buffer: Vec<char> = vec![' '; GAP_GROWTH];
        let r = GapBuffer { buffer, gap_start: 0, gap_end: GAP_GROWTH - 1 };
        proof {
            assert(r.content() =~= Seq::<char>::empty());
        }
        r
    }

    /// A buffer holding the given text, with the cursor at its end.
    pub fn from_string(s: String) -> (r: GapBuffer)
        ensures
            r.wf(),
            r.content() == s@,
            r.cursor() == s@.len(),
    {
        let mut buffer = str_to_chars(s.as_str());
        let n = buffer.len();
        let mut pad: Vec<char> = vec![' '; GAP_GROWTH];
        buffer.append(&mut pad);
        let m = buffer.len();
        let r = GapBuffer { buffer, gap_start: n, gap_end: m - 1 };
        proof {
            assert(r.content() =~= s@);
        }
        r
    }

    /// The logical content; the cursor is invisible to this projection.
    pub fn as_string(&self) -> (r: String)
        requires
            self.wf(),
        ensures
            r@ == self.content(),
    {
        let mut v: Vec<char> = Vec::new();
        let mut i: usize = 0;
        while i < self.gap_start
            invariant
                self.wf(),
                i <= self.gap_start,
                v@ == self.buffer@.subrange(0, i as int),
            decreases self.gap_start - i,
        {
            let c = self.buffer[i];
            v.push(c);
            proof {
                assert(v@ =~= self.buffer@.subrange(0, i + 1 as int));
            }
            i = i + 1;
        }
        let mut j: usize = self.gap_end + 1;
        while j < self.buffer.len()
            invariant
                self.wf(),
                self.gap_end + 1 <= j <= self.buffer.len(),
                v@ == self.buffer@.subrange(0, self.gap_start as int) + self.buffer@.subrange(
                    self.gap_end + 1,
                    j as int,
                ),
            decreases self.buffer.len() - j,
        {
            let c = self.buffer[j];
            v.push(c);
            proof {
                assert(v@ =~= self.buffer@.subrange(0, self.gap_start as int)
                    + self.buffer@.subrange(self.gap_end + 1, j + 1 as int));
            }
            j = j + 1;
        }
        proof {
            assert(v@ =~= self.content());
        }
        chars_to_string(&v)
    }

    /// First gap slot; equals the cursor position in the logical text.
    pub fn gap_start(&self) -> (r: usize)
        ensures
            r == self.cursor(),
    {
        self.gap_start
    }

    /// Last gap slot.
    pub fn gap_end(&self) -> (r: usize)
        ensures
            r + 1 == self.cursor() + self.spec_gap_len(),
    {
        self.gap_end
    }

    /// First gap slot, under the older name.
    pub fn start(&self) -> (r: usize)
        ensures
            r == self.cursor(),
    {
        self.gap_start
    }

    /// Last gap slot, under the older name.
    pub fn end(&self) -> (r: usize)
        ensures
            r + 1 == self.cursor() + self.spec_gap_len(),
    {
        self.gap_end
    }

    fn gap_len(&self) -> (r: usize)
        requires
            self.wf(),
        ensures
            r == self.spec_gap_len(),
    {
        (self.gap_end + 1) - self.gap_start
    }

    /// Move the cursor one position left by swapping the boundary
    /// character across the gap; a no-op at the start of the text.
    pub fn left(&mut self)
        requires
            old(self).wf(),
        ensures
            final(self).wf(),
            final(self).content() == old(self).content(),
            final(self).cursor() == if old(self).cursor() > 0 {
                old(self).cursor() - 1
            } else {
                0int
            },
    {
        if self.gap_start > 0 {
            let moved = self.buffer[self.gap_start - 1];
            let junk = self.buffer[self.gap_end];
            self.buffer[self.gap_start - 1] = junk;
            self.buffer[self.gap_end] = moved;
            self.gap_start = self.gap_start - 1;
            self.gap_end = self.gap_end - 1;
            proof {
                assert(self.content() =~= old(self).content());
            }
        }
    }

    /// Move the cursor one position right; a no-op at the end of the text.
    pub fn right(&mut self)
        requires
            old(self).wf(),
        ensures
            final(self).wf(),
            final(self).content() == old(self).content(),
            final(self).cursor() == if old(self).cursor() < old(self).content().len() {
                old(self).cursor() + 1
            } else {
                old(self).cursor()
            },
    {
        if self.gap_end + 1 < self.buffer.len() {
            let moved = self.buffer[self.gap_end + 1];
            let junk = self.buffer[self.gap_start];
            self.buffer[self.gap_end + 1] = junk;
            self.buffer[self.gap_start] = moved;
            self.gap_start = self.gap_start + 1;
            self.gap_end = self.gap_end + 1;
            proof {
                assert(self.content() =~= old(self).content());
            }
        } else {
            proof {
                assert(old(self).cursor() == old(self).content().len());
            }
        }
    }

    /// Make the gap larger by one growth step, leaving text and cursor
    /// alone.
    fn grow(&mut self)
        requires
            old(self).gap_start <= old(self).gap_end + 1,
            old(self).gap_end < old(self).buffer.len(),
        ensures
            final(self).wf(),
            final(self).content() == old(self).content(),
            final(self).cursor() == old(self).cursor(),
            final(self).spec_gap_len() == old(self).spec_gap_len() + GAP_GROWTH,
    {
        let mut tail = self.buffer.split_off(self.gap_start);
        let mut pad: Vec<char> = vec![' '; GAP_GROWTH];
        self.buffer.append(&mut pad);
        self.buffer.append(&mut tail);
        let m = self.buffer.len();
        self.gap_end = self.gap_end + GAP_GROWTH;
        proof {
            assert(self.content() =~= old(self).content());
        }
    }

    /// Write one character at the cursor, growing the gap when the write
    /// fills it. Amortized constant time.
    pub fn put(&mut self, ch: char)
        requires
            old(self).wf(),
        ensures
            final(self).wf(),
            final(self).content() == old(self).content().insert(old(self).cursor(), ch),
            final(self).cursor() == old(self).cursor() + 1,
    {
        self.buffer[self.gap_start] = ch;
        self.gap_start = self.gap_start + 1;
        proof {
            assert(self.content() =~= old(self).content().insert(old(self).cursor(), ch));
        }
        if self.gap_start > self.gap_end {
            self.grow();
        }
    }

    /// Drop the character just before the cursor by absorbing it into the
    /// gap; a no-op at the start of the text.
    pub fn back(&mut self)
        requires
            old(self).wf(),
        ensures
            final(self).wf(),
            final(self).content() == if old(self).cursor() > 0 {
                old(self).content().remove(old(self).cursor() - 1)
            } else {
                old(self).content()
            },
            final(self).cursor() == if old(self).cursor() > 0 {
                old(self).cursor() - 1
            } else {
                0int
            },
    {
        if self.gap_start > 0 {
            self.gap_start = self.gap_start - 1;
            proof {
                assert(self.content() =~= old(self).content().remove(old(self).cursor() - 1));
            }
        }
    }

    /// Drop the character just after the cursor by absorbing it into the
    /// gap; a no-op at the end of the text.
    pub fn delete(&mut self)
        requires
            old(self).wf(),
        ensures
            final(self).wf(),
            final(self).content() == if old(self).cursor() < old(self).content().len() {
                old(self).content().remove(old(self).cursor())
            } else {
                old(self).content()
            },
            final(self).cursor() == old(self).cursor(),
    {
        if self.gap_end + 1 < self.buffer.len() {
            self.gap_end = self.gap_end + 1;
            proof {
                assert(self.content() =~= old(self).content().remove(old(self).cursor()));
            }
        } else {
            proof {
                assert(old(self).cursor() == old(self).content().len());
            }
        }
    }

    /// Move the cursor to the start of the text. Near the start this
    /// repeats single steps; further away it rebuilds the buffer once,
    /// with the gap in front.
    pub fn c_home(&mut self)
        requires
            old(self).wf(),
        ensures
            final(self).wf(),
            final(self).content() == old(self).content(),
            final(self).cursor() == 0,
    {
        if self.gap_start < 100 {
            while self.gap_start > 0
                invariant
                    self.wf(),
                    self.content() == old(self).content(),
                decreases self.gap_start,
            {
                self.left();
            }
        } else {
            let g = self.gap_len();
            let mut nb: Vec<char> = vec![' '; g];
            let mut i: usize = 0;
            while i < self.gap_start
                invariant
                    self.wf(),
                    g == self.spec_gap_len(),
                    i <= self.gap_start,
                    nb@.len() == g + i,
                    nb@.subrange(g as int, nb@.len() as int) =~= self.buffer@.subrange(
                        0,
                        i as int,
                    ),
                decreases self.gap_start - i,
            {
                let c = self.buffer[i];
                nb.push(c);
                proof {
                    assert(nb@.subrange(g as int, nb@.len() as int) =~= self.buffer@.subrange(
                        0,
                        i + 1 as int,
                    ));
                }
                i = i + 1;
            }
            let mut j: usize = self.gap_end + 1;
            while j < self.buffer.len()
                invariant
                    self.wf(),
                    g == self.spec_gap_len(),
                    self.gap_end + 1 <= j <= self.buffer.len(),
                    nb@.len() == g + self.gap_start + (j - self.gap_end - 1),
                    nb@.subrange(g as int, g + self.gap_start) =~= self.buffer@.subrange(
                        0,
                        self.gap_start as int,
                    ),
                    nb@.subrange(g + self.gap_start, nb@.len() as int) =~= self.buffer@.subrange(
                        self.gap_end + 1,
                        j as int,
                    ),
                decreases self.buffer.len() - j,
            {
                let c = self.buffer[j];
                nb.push(c);
                proof {
                    assert(nb@.subrange(g as int, g + self.gap_start) =~= self.buffer@.subrange(
                        0,
                        self.gap_start as int,
                    ));
                    assert(nb@.subrange(g + self.gap_start, nb@.len() as int)
                        =~= self.buffer@.subrange(self.gap_end + 1, j + 1 as int));
                }
                j = j + 1;
            }
            self.buffer = nb;
            self.gap_start = 0;
            self.gap_end = g - 1;
            proof {
                assert(self.content() =~= old(self).content());
            }
        }
    }

    /// Move the cursor to the end of the text by stepping right until the
    /// gap reaches the back of the buffer.
    pub fn c_end(&mut self)
        requires
            old(self).wf(),
        ensures
            final(self).wf(),
            final(self).content() == old(self).content(),
            final(self).cursor() == old(self).content().len(),
    {
        while self.gap_end + 1 < self.buffer.len()
            invariant
                self.wf(),
                self.content() == old(self).content(),
            decreases self.buffer.len() - self.gap_end,
        {
            proof {
                assert(self.cursor() < self.content().len());
            }
            self.right();
        }
        proof {
            assert(self.cursor() == self.content().len());
        }
    }

    /// Reset to an empty buffer with a fresh gap.
    pub fn clear(&mut self)
        ensures
            final(self).wf(),
            final(self).content() == Seq::<char>::empty(),
            final(self).cursor() == 0,
    {
        self.buffer = vec![' '; GAP_GROWTH];
        self.gap_start = 0;
        self.gap_end = GAP_GROWTH - 1;
        proof {
            assert(self.content() =~= Seq::<char>::empty());
        }
    }

    /// Drop trailing whitespace from the logical end of the content; the
    /// cursor stays where it was unless the end moves past it.
    pub fn trim_end(&mut self)
        requires
            old(self).wf(),
        ensures
            final(self).wf(),
            final(self).content() == trim_trailing_ws(old(self).content()),
            final(self).cursor() == if old(self).cursor() <= final(self).content().len() {
                old(self).cursor()
            } else {
                final(self).content().len() as int
            },
    {
        loop
            invariant
                self.wf(),
                trim_trailing_ws(self.content()) == trim_trailing_ws(old(self).content()),
                self.cursor() == if old(self).cursor() <= self.content().len() {
                    old(self).cursor()
                } else {
                    self.content().len() as int
                },
            ensures
                self.content() == trim_trailing_ws(old(self).content()),
            decreases self.content().len(),
        {
            let ghost prev = *self;
            if self.gap_end + 1 < self.buffer.len() {
                let last = self.buffer[self.buffer.len() - 1];
                if whitespace_char(last) {
                    proof {
                        assert(self.content().last() == last);
                    }
                    self.buffer.pop();
                    proof {
                        assert(self.content() =~= prev.content().drop_last());
                    }
                } else {
                    proof {
                        assert(self.content().len() > 0 && !is_whitespace_char(
                            self.content().last(),
                        ));
                    }
                    break ;
                }
            } else {
                if self.gap_start > 0 {
                    let last = self.buffer[self.gap_start - 1];
                    proof {
                        assert(self.content() =~= self.buffer@.subrange(
                            0,
                            self.gap_start as int,
                        ));
                        assert(self.content().last() == last);
                    }
                    if whitespace_char(last) {
                        self.gap_start = self.gap_start - 1;
                        proof {
                            assert(self.content() =~= prev.content().drop_last());
                        }
                    } else {
                        break ;
                    }
                } else {
                    proof {
                        assert(self.content() =~= Seq::<char>::empty());
                    }
                    break ;
                }
            }
        }
    }

    /// Compact an oversized gap back down; maintenance only, meant for
    /// idle moments, never needed during edits.
    pub fn shrink(&mut self)
        requires
            old(self).wf(),
        ensures
            final(self).wf(),
            final(self).content() == old(self).content(),
            final(self).cursor() == old(self).cursor(),
            final(self).spec_gap_len() == if old(self).spec_gap_len() > 4 * GAP_GROWTH {
                old(self).spec_gap_len() - 3 * GAP_GROWTH
            } else {
                old(self).spec_gap_len()
            },
    {
        if self.gap_len() > 4 * GAP_GROWTH {
            let mut tail = self.buffer.split_off(self.gap_end + 1);
            let keep = self.buffer.len() - 3 * GAP_GROWTH;
            self.buffer.truncate(keep);
            self.buffer.append(&mut tail);
            self.gap_end = self.gap_end - 3 * GAP_GROWTH;
            proof {
                assert(self.content() =~= old(self).content());
            }
        }
    }

    /// Replay a keystroke sequence; the result is exactly what the plain
    /// text-and-cursor reference model prescribes for that sequence.
    pub fn apply_edits(&mut self, ops: &Vec<EditOp>)
        requires
            old(self).wf(),
        ensures
            final(self).wf(),
            final(self).content() == model_apply(
                EditModel { text: old(self).content(), cursor: old(self).cursor() },
                ops@,
            ).text,
            final(self).cursor() == model_apply(
                EditModel { text: old(self).content(), cursor: old(self).cursor() },
                ops@,
            ).cursor,
    {
        let ghost m0 = EditModel { text: old(self).content(), cursor: old(self).cursor() };
        let mut i: usize = 0;
        while i < ops.len()
            invariant
                self.wf(),
                i <= ops.len(),
                m0 == (EditModel { text: old(self).content(), cursor: old(self).cursor() }),
                self.content() == model_apply(m0, ops@.take(i as int)).text,
                self.cursor() == model_apply(m0, ops@.take(i as int)).cursor,
            decreases ops.len() - i,
        {
            let op = ops[i];
            match op {
                EditOp::Insert(c) => self.put(c),
                EditOp::DeleteBefore => self.back(),
                EditOp::DeleteAfter => self.delete(),
                EditOp::MoveLeft => self.left(),
                EditOp::MoveRight => self.right(),
                EditOp::MoveHome => self.c_home(),
            }
            proof {
                lemma_model_apply_push(m0, ops@.take(i as int), op);
                assert(ops@.take(i as int).push(op) =~= ops@.take(i + 1 as int));
            }
            i = i + 1;
        }
        proof {
            assert(ops@.take(ops@.len() as int) =~= ops@);
        }
    }
}

impl Default for GapBuffer {
    /// Same as [`GapBuffer::new`]: an empty buffer.
    fn default() -> (r: GapBuffer)
        ensures
            r.wf(),
            r.content() == Seq::<char>::empty(),
            r.cursor() == 0,
    {
        GapBuffer::new()
    }
}

} // verus!
