//! Word motions over a line of text: from a cursor position, find where
//! the next word-wise stop is.

use vstd::prelude::*;

use crate::strutil::is_whitespace_char;

verus! {

/// The class a character falls in for word motions.
#[derive(Clone, Copy, Debug, PartialEq, Eq, Structural)]
pub enum CharKind {
    Whitespace,
    Punctuation,
    Other,
}

/// The ASCII punctuation ranges.
pub open spec fn is_ascii_punct(c: char) -> bool {
    ('!' <= c && c <= '/') || (':' <= c && c <= '@') || ('[' <= c && c <= '`') || ('{' <= c && c
        <= '~')
}

/// Which class a character falls in: whitespace first, then ASCII
/// punctuation, then everything else.
pub open spec fn spec_kind(c: char) -> CharKind {
    if is_whitespace_char(c) {
        CharKind::Whitespace
    } else if is_ascii_punct(c) {
        CharKind::Punctuation
    } else {
        CharKind::Other
    }
}

pub trait HasCharKind {
    spec fn spec_char_kind(&self) -> CharKind;

    fn kind(&self) -> (k: CharKind)
        ensures
            k == self.spec_char_kind(),
    ;
}

impl HasCharKind for char {
    open spec fn spec_char_kind(&self) -> CharKind {
        spec_kind(*self)
    }

    fn kind(&self) -> (k: CharKind) {
        if crate::strutil::whitespace_char(*self) {
            CharKind::Whitespace
        } else if ('!' <= *self && *self <= '/') || (':' <= *self && *self <= '@') || ('[' <= *self
            && *self <= '`') || ('{' <= *self && *self <= '~') {
            CharKind::Punctuation
        } else {
            CharKind::Other
        }
    }
}

/// A position is a word stop when its character is not ordinary text and
/// repeats the class of the character just before it.
pub open spec fn word_stop(line: Seq<char>, p: int) -> bool {
    spec_kind(line[p]) != CharKind::Other && spec_kind(line[p]) == spec_kind(line[p - 1])
}

/// The first word stop strictly after the current position, if any.
pub fn next_word(line: &str, current: usize) -> (r: Option<usize>)
    ensures
        match r {
            Some(p) => current < p < line@.len() && word_stop(line@, p as int) && forall|q: int|
                current < q < p ==> !word_stop(line@, q),
            None => forall|q: int| current < q < line@.len() ==> !word_stop(line@, q),
        },
{
    let n = line.unicode_len();
    if current >= n {
        return None;
    }
    let mut prev = line.get_char(current).kind();
    let mut pos = current + 1;
    while pos < n
        invariant
            current < pos <= n,
            n == line@.len(),
            prev == spec_kind(line@[pos - 1]),
            forall|q: int| current < q < pos ==> !word_stop(line@, q),
        decreases n - pos,
    {
        let k = line.get_char(pos).kind();
        if k != CharKind::Other && prev == k {
            return Some(pos);
        }
        prev = k;
        pos = pos + 1;
    }
    None
}

} // verus!
