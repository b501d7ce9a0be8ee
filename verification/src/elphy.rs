//! Mirror-image ASCII art: pad every line of a piece of art to the width
//! of its longest line, then reverse each line, so the whole picture
//! faces the other way.

use vstd::prelude::*;

use pad::PadStr;

use crate::codec::{spec_split_lines, split_chars};
use crate::strutil::{chars_to_string, str_to_chars};

verus! {

/// The display width that the `unicode-width` crate assigns to text: a
/// function of the characters alone.
pub uninterp spec fn display_width(s: Seq<char>) -> nat;

/// A line padded on the right with spaces up to a display width; text at
/// or over the width comes back unchanged.
pub open spec fn spec_pad_line(line: Seq<char>, w: int) -> Seq<char> {
    if display_width(line) >= w {
        line
    } else {
        line + Seq::new((w - display_width(line)) as nat, |i: int| ' ')
    }
}

/// Relies on pad::PadStr::pad_to_width: left alignment, space padding, no
/// truncation; the target is the display width of `unicode-width`.
#[verifier::external_body]
fn pad_line(s: &str, width: usize) -> (r: String)
    ensures
        display_width(s@) >= width ==> r@ == s@,
        display_width(s@) < width ==> r@ == s@ + Seq::new((width - display_width(s@)) as nat, |i: int| ' '),
        r@ == spec_pad_line(s@, width as int),
{
    s.pad_to_width(width)
}

/// The length of the longest line, in characters.
pub open spec fn max_line_len(lines: Seq<Seq<char>>) -> int
    decreases lines.len(),
{
    if lines.len() == 0 {
        0
    } else {
        let m = max_line_len(lines.drop_last());
        if lines.last().len() > m {
            lines.last().len() as int
        } else {
            m
        }
    }
}

/// Every line padded to the given width and reversed, joined again with
/// newlines.
pub open spec fn spec_rev_join(lines: Seq<Seq<char>>, w: int) -> Seq<char>
    decreases lines.len(),
{
    if lines.len() == 0 {
        Seq::<char>::empty()
    } else if lines.len() == 1 {
        spec_pad_line(lines.first(), w).reverse()
    } else {
        spec_rev_join(lines.drop_last(), w) + seq!['\n'] + spec_pad_line(lines.last(), w).reverse()
    }
}

/// The art flipped left-to-right: lines padded to the longest line, each
/// reversed, joined with newlines again.
pub fn ascii_reversed(art: &str) -> (r: String)
    ensures
        r@ == spec_rev_join(
            spec_split_lines(art@),
            max_line_len(spec_split_lines(art@)),
        ),
{
    let chars = str_to_chars(art);
    let lines = split_chars(&chars);
    let n = lines.len();
    let mut w: usize = 0;
    let mut i: usize = 0;
    proof {
        assert(lines.deep_view().take(0) =~~= Seq::<Seq<char>>::empty());
    }
    while i < n
        invariant
            i <= n,
            n == lines@.len(),
            lines.deep_view() == spec_split_lines(chars@),
            w as int == max_line_len(lines.deep_view().take(i as int)),
        decreases n - i,
    {
        proof {
            assert(lines.deep_view()[i as int] =~= lines@[i as int]@);
            assert(lines.deep_view().take(i + 1 as int).drop_last() =~~= lines.deep_view().take(
                i as int,
            ));
            assert(lines.deep_view().take(i + 1 as int).last() == lines.deep_view()[i as int]);
        }
        let len_i = lines[i].len();
        if len_i > w {
            w = len_i;
        }
        i = i + 1;
    }
    proof {
        assert(lines.deep_view().take(n as int) =~~= lines.deep_view());
    }
    let mut out: Vec<char> = Vec::new();
    let mut i: usize = 0;
    proof {
        assert(out@ =~= spec_rev_join(lines.deep_view().take(0), w as int));
    }
    while i < n
        invariant
            i <= n,
            n == lines@.len(),
            chars@ == art@,
            lines.deep_view() == spec_split_lines(chars@),
            w as int == max_line_len(lines.deep_view()),
            out@ == spec_rev_join(lines.deep_view().take(i as int), w as int),
        decreases n - i,
    {
        proof {
            assert(lines.deep_view()[i as int] =~= lines@[i as int]@);
            assert(lines.deep_view().take(i + 1 as int).drop_last() =~~= lines.deep_view().take(
                i as int,
            ));
            assert(lines.deep_view().take(i + 1 as int).last() == lines.deep_view()[i as int]);
            assert(lines.deep_view().take(i + 1 as int).first() == lines.deep_view().take(
                i + 1 as int,
            )[0]);
        }
        if i > 0 {
            out.push('\n');
        }
        let ghost base = out@;
        let s = chars_to_string(&lines[i]);
        let p = pad_line(s.as_str(), w);
        let pv = str_to_chars(p.as_str());
        let ghost padded = spec_pad_line(lines.deep_view()[i as int], w as int);
        proof {
            assert(pv@ == padded);
        }
        let mut j: usize = pv.len();
        proof {
            assert(padded.skip(j as int).reverse() =~= Seq::<char>::empty());
            assert(out@ =~= base + padded.skip(j as int).reverse());
        }
        while j > 0
            invariant
                j <= pv@.len(),
                pv@ == padded,
                out@ == base + padded.skip(j as int).reverse(),
            decreases j,
        {
            let c = pv[j - 1];
            out.push(c);
            proof {
                assert(padded.skip(j - 1 as int).reverse() =~= padded.skip(
                    j as int,
                ).reverse().push(padded[j - 1]));
                assert(out@ =~= base + padded.skip(j - 1 as int).reverse());
            }
            j = j - 1;
        }
        proof {
            assert(padded.skip(0) =~= padded);
            assert(out@ =~= base + padded.reverse());
            assert(out@ =~= spec_rev_join(lines.deep_view().take(i + 1 as int), w as int));
        }
        i = i + 1;
    }
    proof {
        assert(lines.deep_view().take(n as int) =~~= lines.deep_view());
    }
    chars_to_string(&out)
}

} // verus!
