//! Character and string helpers shared by the buffer and the codec.

use vstd::prelude::*;

use crate::ext::push_char;

verus! {

/// Whitespace test used when trimming committed text, covering the
/// characters with the Unicode `White_Space` property.
pub open spec fn is_whitespace_char(c: char) -> bool {
    ||| c == ' '
    ||| c == '\t'
    ||| c == '\n'
    ||| c == '\r'
    ||| c == '\u{000b}'
    ||| c == '\u{000c}'
    ||| c == '\u{0085}'
    ||| c == '\u{00a0}'
    ||| c == '\u{1680}'
    ||| ('\u{2000}' <= c && c <= '\u{200a}')
    ||| c == '\u{2028}'
    ||| c == '\u{2029}'
    ||| c == '\u{202f}'
    ||| c == '\u{205f}'
    ||| c == '\u{3000}'
}

/// Executable counterpart of [`is_whitespace_char`].
pub fn whitespace_char(c: char) -> (r: bool)
    ensures
        r == is_whitespace_char(c),
{
    c == ' ' || c == '\t' || c == '\n' || c == '\r' || c == '\u{000b}' || c == '\u{000c}'
        || c == '\u{0085}' || c == '\u{00a0}' || c == '\u{1680}' || ('\u{2000}' <= c && c
        <= '\u{200a}') || c == '\u{2028}' || c == '\u{2029}' || c == '\u{202f}' || c == '\u{205f}'
        || c == '\u{3000}'
}

/// True of text that can stand on one line of the persisted format:
/// it holds no newline.
pub open spec fn line_ok(s: Seq<char>) -> bool {
    forall|i: int| 0 <= i < s.len() ==> s[i] != '\n'
}

/// Executable counterpart of [`line_ok`].
pub fn is_line_ok(s: &str) -> (r: bool)
    ensures
        r == line_ok(s@),
{
    let n = s.unicode_len();
    let mut i: usize = 0;
    while i < n
        invariant
            i <= n,
            n == s@.len(),
            forall|j: int| 0 <= j < i ==> s@[j] != '\n',
        decreases n - i,
    {
        if s.get_char(i) == '\n' {
            return false;
        }
        i = i + 1;
    }
    true
}

/// A sequence with its trailing whitespace removed.
pub open spec fn trim_trailing_ws(s: Seq<char>) -> Seq<char>
    decreases s.len(),
{
    if s.len() > 0 && is_whitespace_char(s.last()) {
        trim_trailing_ws(s.drop_last())
    } else {
        s
    }
}

/// Trimming keeps every character it keeps in place, so text that fits
/// on one line still does after trimming.
pub proof fn lemma_trim_line_ok(s: Seq<char>)
    requires
        line_ok(s),
    ensures
        line_ok(trim_trailing_ws(s)),
    decreases s.len(),
{
    if s.len() > 0 && is_whitespace_char(s.last()) {
        assert(line_ok(s.drop_last()));
        lemma_trim_line_ok(s.drop_last());
    }
}

/// A copy of the text with its trailing whitespace removed.
pub fn trim_end_str(s: &str) -> (r: String)
    ensures
        r@ == trim_trailing_ws(s@),
{
    let mut v = str_to_chars(s);
    loop
        invariant
            trim_trailing_ws(v@) == trim_trailing_ws(s@),
        ensures
            v@ == trim_trailing_ws(s@),
        decreases v@.len(),
    {
        let n = v.len();
        if n == 0 {
            break ;
        }
        let last = v[n - 1];
        if whitespace_char(last) {
            let ghost prev = v@;
            v.pop();
            proof {
                assert(v@ =~= prev.drop_last());
            }
        } else {
            break ;
        }
    }
    chars_to_string(&v)
}

/// The characters of a string slice, in order, as a vector.
pub fn str_to_chars(s: &str) -> (r: Vec<char>)
    ensures
        r@ == s@,
{
    let n = s.unicode_len();
    let mut v: Vec<char> = Vec::new();
    let mut i: usize = 0;
    while i < n
        invariant
            i <= n,
            n == s@.len(),
            v@ == s@.subrange(0, i as int),
        decreases n - i,
    {
        let c = s.get_char(i);
        v.push(c);
        proof {
            assert(v@ =~= s@.subrange(0, i + 1 as int));
        }
        i = i + 1;
    }
    proof {
        assert(s@.subrange(0, n as int) =~= s@);
    }
    v
}

/// A string holding exactly the given characters, in order.
pub fn chars_to_string(v: &Vec<char>) -> (r: String)
    ensures
        r@ == v@,
{
    let mut s = String::new();
    let mut i: usize = 0;
    while i < v.len()
        invariant
            i <= v.len(),
            s@ == v@.subrange(0, i as int),
        decreases v.len() - i,
    {
        push_char(&mut s, v[i]);
        proof {
            assert(s@ =~= v@.subrange(0, i + 1 as int));
        }
        i = i + 1;
    }
    proof {
        assert(v@.subrange(0, v@.len() as int) =~= v@);
    }
    s
}

} // verus!
