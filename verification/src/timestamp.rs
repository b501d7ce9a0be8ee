//! Calendar timestamps as plain values, with the fixed, unambiguous text
//! form `YYYY Mon DD HH:MM:SS +ZZZZ` used by the persisted file format.
//!
//! The wall clock itself is read through the `chrono` crate; everything
//! here only renders and parses the plain fields, and the two directions
//! are proved inverse for every valid timestamp.

use vstd::prelude::*;

verus! {

/// One instant, held as plain calendar fields plus a fixed utc offset.
#[derive(Clone, Copy, Debug, PartialEq, Eq, Structural)]
pub struct Timestamp {
    pub year: u16,
    pub month: u8,
    pub day: u8,
    pub hour: u8,
    pub minute: u8,
    pub second: u8,
    pub off_neg: bool,
    pub off_hour: u8,
    pub off_min: u8,
}

impl Timestamp {
    /// Field ranges the text format can carry: a four-digit year, a real
    /// month number, and day/time/offset fields inside their clock ranges.
    pub open spec fn valid(self) -> bool {
        &&& self.year <= 9999
        &&& 1 <= self.month <= 12
        &&& 1 <= self.day <= 31
        &&& self.hour <= 23
        &&& self.minute <= 59
        &&& self.second <= 59
        &&& self.off_hour <= 23
        &&& self.off_min <= 59
    }

    /// Executable counterpart of [`Timestamp::valid`].
    pub fn is_valid(&self) -> (r: bool)
        ensures
            r == self.valid(),
    {
        self.year <= 9999 && 1 <= self.month && self.month <= 12 && 1 <= self.day && self.day <= 31
            && self.hour <= 23 && self.minute <= 59 && self.second <= 59 && self.off_hour <= 23
            && self.off_min <= 59
    }

    /// A timestamp from raw clock fields, clamping anything out of range
    /// into it (only the year can be out of range for a real clock).
    pub fn from_clock(year: i64, month: u8, day: u8, hour: u8, minute: u8, second: u8) -> (r:
        Timestamp)
        ensures
            r.valid(),
            0 <= year <= 9999 && 1 <= month <= 12 && 1 <= day <= 31 && hour <= 23 && minute <= 59
                && second <= 59 ==> r == (Timestamp {
                year: year as u16,
                month,
                day,
                hour,
                minute,
                second,
                off_neg: false,
                off_hour: 0,
                off_min: 0,
            }),
    {
        let y: u16 = if year < 0 {
            0
        } else if year > 9999 {
            9999
        } else {
            year as u16
        };
        Timestamp {
            year: y,
            month: if 1 <= month && month <= 12 {
                month
            } else {
                1
            },
            day: if 1 <= day && day <= 31 {
                day
            } else {
                1
            },
            hour: if hour <= 23 {
                hour
            } else {
                0
            },
            minute: if minute <= 59 {
                minute
            } else {
                0
            },
            second: if second <= 59 {
                second
            } else {
                0
            },
            off_neg: false,
            off_hour: 0,
            off_min: 0,
        }
    }
}

/// The character for one decimal digit.
pub open spec fn digit_char(d: int) -> char {
    if d == 0 {
        '0'
    } else if d == 1 {
        '1'
    } else if d == 2 {
        '2'
    } else if d == 3 {
        '3'
    } else if d == 4 {
        '4'
    } else if d == 5 {
        '5'
    } else if d == 6 {
        '6'
    } else if d == 7 {
        '7'
    } else if d == 8 {
        '8'
    } else {
        '9'
    }
}

pub open spec fn is_digit(c: char) -> bool {
    c == '0' || c == '1' || c == '2' || c == '3' || c == '4' || c == '5' || c == '6' || c == '7'
        || c == '8' || c == '9'
}

/// The value of one decimal digit character.
pub open spec fn digit_val(c: char) -> int {
    if c == '0' {
        0
    } else if c == '1' {
        1
    } else if c == '2' {
        2
    } else if c == '3' {
        3
    } else if c == '4' {
        4
    } else if c == '5' {
        5
    } else if c == '6' {
        6
    } else if c == '7' {
        7
    } else if c == '8' {
        8
    } else {
        9
    }
}

pub proof fn lemma_digit_round_trip(d: int)
    requires
        0 <= d <= 9,
    ensures
        is_digit(digit_char(d)),
        digit_val(digit_char(d)) == d,
{
}

/// A number below 100 as two digits.
pub open spec fn two_digits(n: int) -> Seq<char> {
    seq![digit_char(n / 10 % 10), digit_char(n % 10)]
}

/// A number below 10000 as four digits.
pub open spec fn four_digits(n: int) -> Seq<char> {
    seq![
        digit_char(n / 1000 % 10),
        digit_char(n / 100 % 10),
        digit_char(n / 10 % 10),
        digit_char(n % 10),
    ]
}

/// The three-letter month name, months numbered from one.
pub open spec fn month_abbrev(m: int) -> Seq<char> {
    if m == 1 {
        seq!['J', 'a', 'n']
    } else if m == 2 {
        seq!['F', 'e', 'b']
    } else if m == 3 {
        seq!['M', 'a', 'r']
    } else if m == 4 {
        seq!['A', 'p', 'r']
    } else if m == 5 {
        seq!['M', 'a', 'y']
    } else if m == 6 {
        seq!['J', 'u', 'n']
    } else if m == 7 {
        seq!['J', 'u', 'l']
    } else if m == 8 {
        seq!['A', 'u', 'g']
    } else if m == 9 {
        seq!['S', 'e', 'p']
    } else if m == 10 {
        seq!['O', 'c', 't']
    } else if m == 11 {
        seq!['N', 'o', 'v']
    } else {
        seq!['D', 'e', 'c']
    }
}

/// The month number for three letters, or zero when they name no month.
pub open spec fn month_num(a: char, b: char, c: char) -> int {
    if a == 'J' && b == 'a' && c == 'n' {
        1
    } else if a == 'F' && b == 'e' && c == 'b' {
        2
    } else if a == 'M' && b == 'a' && c == 'r' {
        3
    } else if a == 'A' && b == 'p' && c == 'r' {
        4
    } else if a == 'M' && b == 'a' && c == 'y' {
        5
    } else if a == 'J' && b == 'u' && c == 'n' {
        6
    } else if a == 'J' && b == 'u' && c == 'l' {
        7
    } else if a == 'A' && b == 'u' && c == 'g' {
        8
    } else if a == 'S' && b == 'e' && c == 'p' {
        9
    } else if a == 'O' && b == 'c' && c == 't' {
        10
    } else if a == 'N' && b == 'o' && c == 'v' {
        11
    } else if a == 'D' && b == 'e' && c == 'c' {
        12
    } else {
        0
    }
}

pub proof fn lemma_month_round_trip(m: int)
    requires
        1 <= m <= 12,
    ensures
        month_abbrev(m).len() == 3,
        month_num(month_abbrev(m)[0], month_abbrev(m)[1], month_abbrev(m)[2]) == m,
{
}

/// The rendered form: `YYYY Mon DD HH:MM:SS +ZZZZ`, 26 characters.
/// Opaque: proofs go through [`lemma_render_positions`]-derived facts.
#[verifier::opaque]
pub open spec fn spec_render_ts(t: Timestamp) -> Seq<char> {
    four_digits(t.year as int) + seq![' '] + month_abbrev(t.month as int) + seq![' '] + two_digits(
        t.day as int,
    ) + seq![' '] + two_digits(t.hour as int) + seq![':'] + two_digits(t.minute as int) + seq![':']
        + two_digits(t.second as int) + seq![' '] + seq![
        if t.off_neg {
            '-'
        } else {
            '+'
        },
    ] + two_digits(t.off_hour as int) + two_digits(t.off_min as int)
}

/// What parsing 26 characters yields: the timestamp they render, or
/// nothing when they do not match the fixed format.
pub open spec fn spec_parse_ts(s: Seq<char>) -> Option<Timestamp> {
    if s.len() != 26 {
        None
    } else if !(is_digit(s[0]) && is_digit(s[1]) && is_digit(s[2]) && is_digit(s[3])) {
        None
    } else if s[4] != ' ' {
        None
    } else if month_num(s[5], s[6], s[7]) == 0 {
        None
    } else if s[8] != ' ' {
        None
    } else if !(is_digit(s[9]) && is_digit(s[10])) {
        None
    } else if s[11] != ' ' {
        None
    } else if !(is_digit(s[12]) && is_digit(s[13])) {
        None
    } else if s[14] != ':' {
        None
    } else if !(is_digit(s[15]) && is_digit(s[16])) {
        None
    } else if s[17] != ':' {
        None
    } else if !(is_digit(s[18]) && is_digit(s[19])) {
        None
    } else if s[20] != ' ' {
        None
    } else if s[21] != '+' && s[21] != '-' {
        None
    } else if !(is_digit(s[22]) && is_digit(s[23]) && is_digit(s[24]) && is_digit(s[25])) {
        None
    } else {
        let t = Timestamp {
            year: (1000 * digit_val(s[0]) + 100 * digit_val(s[1]) + 10 * digit_val(s[2])
                + digit_val(s[3])) as u16,
            month: month_num(s[5], s[6], s[7]) as u8,
            day: (10 * digit_val(s[9]) + digit_val(s[10])) as u8,
            hour: (10 * digit_val(s[12]) + digit_val(s[13])) as u8,
            minute: (10 * digit_val(s[15]) + digit_val(s[16])) as u8,
            second: (10 * digit_val(s[18]) + digit_val(s[19])) as u8,
            off_neg: s[21] == '-',
            off_hour: (10 * digit_val(s[22]) + digit_val(s[23])) as u8,
            off_min: (10 * digit_val(s[24]) + digit_val(s[25])) as u8,
        };
        if t.valid() {
            Some(t)
        } else {
            None
        }
    }
}

/// Where each field of the rendered form sits, stated over the bare
/// component sequences so that no field definition has to be unfolded.
#[verifier::rlimit(60)]
#[verifier::spinoff_prover]
proof fn lemma_ts_shape(
    a: Seq<char>,
    mn: Seq<char>,
    d: Seq<char>,
    h: Seq<char>,
    mi: Seq<char>,
    se: Seq<char>,
    sg: char,
    oh: Seq<char>,
    om: Seq<char>,
)
    requires
        a.len() == 4,
        mn.len() == 3,
        d.len() == 2,
        h.len() == 2,
        mi.len() == 2,
        se.len() == 2,
        oh.len() == 2,
        om.len() == 2,
    ensures
        ({
            let s = a + seq![' '] + mn + seq![' '] + d + seq![' '] + h + seq![':'] + mi + seq![':']
                + se + seq![' '] + seq![sg] + oh + om;
            &&& s.len() == 26
            &&& s[0] == a[0]
            &&& s[1] == a[1]
            &&& s[2] == a[2]
            &&& s[3] == a[3]
            &&& s[4] == ' '
            &&& s[5] == mn[0]
            &&& s[6] == mn[1]
            &&& s[7] == mn[2]
            &&& s[8] == ' '
            &&& s[9] == d[0]
            &&& s[10] == d[1]
            &&& s[11] == ' '
            &&& s[12] == h[0]
            &&& s[13] == h[1]
            &&& s[14] == ':'
            &&& s[15] == mi[0]
            &&& s[16] == mi[1]
            &&& s[17] == ':'
            &&& s[18] == se[0]
            &&& s[19] == se[1]
            &&& s[20] == ' '
            &&& s[21] == sg
            &&& s[22] == oh[0]
            &&& s[23] == oh[1]
            &&& s[24] == om[0]
            &&& s[25] == om[1]
        }),
{
}

/// The shape lemma, instantiated for a rendered timestamp.
proof fn lemma_render_positions(t: Timestamp)
    requires
        t.valid(),
    ensures
        spec_render_ts(t).len() == 26,
        spec_render_ts(t)[0] == four_digits(t.year as int)[0],
        spec_render_ts(t)[1] == four_digits(t.year as int)[1],
        spec_render_ts(t)[2] == four_digits(t.year as int)[2],
        spec_render_ts(t)[3] == four_digits(t.year as int)[3],
        spec_render_ts(t)[4] == ' ',
        spec_render_ts(t)[5] == month_abbrev(t.month as int)[0],
        spec_render_ts(t)[6] == month_abbrev(t.month as int)[1],
        spec_render_ts(t)[7] == month_abbrev(t.month as int)[2],
        spec_render_ts(t)[8] == ' ',
        spec_render_ts(t)[9] == two_digits(t.day as int)[0],
        spec_render_ts(t)[10] == two_digits(t.day as int)[1],
        spec_render_ts(t)[11] == ' ',
        spec_render_ts(t)[12] == two_digits(t.hour as int)[0],
        spec_render_ts(t)[13] == two_digits(t.hour as int)[1],
        spec_render_ts(t)[14] == ':',
        spec_render_ts(t)[15] == two_digits(t.minute as int)[0],
        spec_render_ts(t)[16] == two_digits(t.minute as int)[1],
        spec_render_ts(t)[17] == ':',
        spec_render_ts(t)[18] == two_digits(t.second as int)[0],
        spec_render_ts(t)[19] == two_digits(t.second as int)[1],
        spec_render_ts(t)[20] == ' ',
        spec_render_ts(t)[21] == if t.off_neg {
            '-'
        } else {
            '+'
        },
        spec_render_ts(t)[22] == two_digits(t.off_hour as int)[0],
        spec_render_ts(t)[23] == two_digits(t.off_hour as int)[1],
        spec_render_ts(t)[24] == two_digits(t.off_min as int)[0],
        spec_render_ts(t)[25] == two_digits(t.off_min as int)[1],
{
    reveal(spec_render_ts);
    lemma_month_round_trip(t.month as int);
    lemma_ts_shape(
        four_digits(t.year as int),
        month_abbrev(t.month as int),
        two_digits(t.day as int),
        two_digits(t.hour as int),
        two_digits(t.minute as int),
        two_digits(t.second as int),
        if t.off_neg {
            '-'
        } else {
            '+'
        },
        two_digits(t.off_hour as int),
        two_digits(t.off_min as int),
    );
}

/// A digit character is never a delimiter of the surrounding format.
proof fn lemma_digit_char_safe(d: int)
    ensures
        digit_char(d) != '|',
        digit_char(d) != '\n',
{
}

/// No month letter is a delimiter of the surrounding format.
proof fn lemma_month_chars_safe(m: int)
    requires
        1 <= m <= 12,
    ensures
        month_abbrev(m)[0] != '|' && month_abbrev(m)[0] != '\n',
        month_abbrev(m)[1] != '|' && month_abbrev(m)[1] != '\n',
        month_abbrev(m)[2] != '|' && month_abbrev(m)[2] != '\n',
{
}

/// The rendered form never holds a newline or the field delimiter, so a
/// commit line always splits back apart at its first `|`.
#[verifier::rlimit(100)]
#[verifier::spinoff_prover]
pub proof fn lemma_render_ts_chars(t: Timestamp)
    requires
        t.valid(),
    ensures
        spec_render_ts(t).len() == 26,
        forall|i: int|
            0 <= i < 26 ==> #[trigger] spec_render_ts(t)[i] != '|' && spec_render_ts(t)[i] != '\n',
{
    let s = spec_render_ts(t);
    lemma_render_positions(t);
    lemma_month_chars_safe(t.month as int);
    assert forall|i: int| 0 <= i < 26 implies #[trigger] s[i] != '|' && s[i] != '\n' by {
        lemma_digit_char_safe(t.year as int / 1000 % 10);
        lemma_digit_char_safe(t.year as int / 100 % 10);
        lemma_digit_char_safe(t.year as int / 10 % 10);
        lemma_digit_char_safe(t.year as int % 10);
        lemma_digit_char_safe(t.day as int / 10 % 10);
        lemma_digit_char_safe(t.day as int % 10);
        lemma_digit_char_safe(t.hour as int / 10 % 10);
        lemma_digit_char_safe(t.hour as int % 10);
        lemma_digit_char_safe(t.minute as int / 10 % 10);
        lemma_digit_char_safe(t.minute as int % 10);
        lemma_digit_char_safe(t.second as int / 10 % 10);
        lemma_digit_char_safe(t.second as int % 10);
        lemma_digit_char_safe(t.off_hour as int / 10 % 10);
        lemma_digit_char_safe(t.off_hour as int % 10);
        lemma_digit_char_safe(t.off_min as int / 10 % 10);
        lemma_digit_char_safe(t.off_min as int % 10);
    }
}

/// Two rendered digits read back as the number they came from.
#[verifier::rlimit(100)]
#[verifier::spinoff_prover]
proof fn lemma_two_digits_round_trip(n: int)
    requires
        0 <= n <= 99,
    ensures
        is_digit(two_digits(n)[0]),
        is_digit(two_digits(n)[1]),
        10 * digit_val(two_digits(n)[0]) + digit_val(two_digits(n)[1]) == n,
{
    lemma_digit_round_trip(n / 10 % 10);
    lemma_digit_round_trip(n % 10);
    assert(n / 10 % 10 == n / 10);
}

/// Four rendered digits read back as the number they came from.
#[verifier::rlimit(100)]
#[verifier::spinoff_prover]
proof fn lemma_four_digits_round_trip(n: int)
    requires
        0 <= n <= 9999,
    ensures
        is_digit(four_digits(n)[0]),
        is_digit(four_digits(n)[1]),
        is_digit(four_digits(n)[2]),
        is_digit(four_digits(n)[3]),
        1000 * digit_val(four_digits(n)[0]) + 100 * digit_val(four_digits(n)[1]) + 10 * digit_val(
            four_digits(n)[2],
        ) + digit_val(four_digits(n)[3]) == n,
{
    lemma_digit_round_trip(n / 1000 % 10);
    lemma_digit_round_trip(n / 100 % 10);
    lemma_digit_round_trip(n / 10 % 10);
    lemma_digit_round_trip(n % 10);
    assert(n / 1000 % 10 == n / 1000);
    assert(n == 1000 * (n / 1000) + 100 * (n / 100 % 10) + 10 * (n / 10 % 10) + n % 10);
}

/// Parsing inverts rendering: every valid timestamp comes back from its
/// own text form.
#[verifier::rlimit(100)]
#[verifier::spinoff_prover]
pub proof fn lemma_ts_round_trip(t: Timestamp)
    requires
        t.valid(),
    ensures
        spec_parse_ts(spec_render_ts(t)) == Some(t),
{
    let s = spec_render_ts(t);
    lemma_render_positions(t);
    lemma_month_round_trip(t.month as int);
    lemma_four_digits_round_trip(t.year as int);
    lemma_two_digits_round_trip(t.day as int);
    lemma_two_digits_round_trip(t.hour as int);
    lemma_two_digits_round_trip(t.minute as int);
    lemma_two_digits_round_trip(t.second as int);
    lemma_two_digits_round_trip(t.off_hour as int);
    lemma_two_digits_round_trip(t.off_min as int);
    assert(month_num(s[5], s[6], s[7]) == t.month as int);
    assert(s[21] == '-' <==> t.off_neg);
    assert(s[21] == '+' || s[21] == '-');
    assert(spec_parse_ts(s) == Some(t));
}

/// The character for one decimal digit.
fn digit_ch(d: u8) -> (c: char)
    requires
        d <= 9,
    ensures
        c == digit_char(d as int),
{
    match d {
        0 => '0',
        1 => '1',
        2 => '2',
        3 => '3',
        4 => '4',
        5 => '5',
        6 => '6',
        7 => '7',
        8 => '8',
        _ => '9',
    }
}

/// The value of one decimal digit character, or nothing.
fn digit_of(c: char) -> (r: Option<u8>)
    ensures
        r is Some <==> is_digit(c),
        r is Some ==> r->0 as int == digit_val(c),
{
    match c {
        '0' => Some(0),
        '1' => Some(1),
        '2' => Some(2),
        '3' => Some(3),
        '4' => Some(4),
        '5' => Some(5),
        '6' => Some(6),
        '7' => Some(7),
        '8' => Some(8),
        '9' => Some(9),
        _ => None,
    }
}

/// Append a number below 100 as two digits.
pub(crate) fn push_two(v: &mut Vec<char>, n: u8)
    requires
        n <= 99,
    ensures
        final(v)@ == old(v)@ + two_digits(n as int),
{
    v.push(digit_ch(n / 10));
    v.push(digit_ch(n % 10));
    proof {
        assert(n as int / 10 % 10 == n as int / 10);
        assert(v@ =~= old(v)@ + two_digits(n as int));
    }
}

/// Append a number below 10000 as four digits.
pub(crate) fn push_four(v: &mut Vec<char>, n: u16)
    requires
        n <= 9999,
    ensures
        final(v)@ == old(v)@ + four_digits(n as int),
{
    v.push(digit_ch((n / 1000 % 10) as u8));
    v.push(digit_ch((n / 100 % 10) as u8));
    v.push(digit_ch((n / 10 % 10) as u8));
    v.push(digit_ch((n % 10) as u8));
    proof {
        assert(v@ =~= old(v)@ + four_digits(n as int));
    }
}

/// Append the three-letter month name.
fn push_month(v: &mut Vec<char>, m: u8)
    requires
        1 <= m <= 12,
    ensures
        final(v)@ == old(v)@ + month_abbrev(m as int),
{
    let (a, b, c): (char, char, char) = match m {
        1 => ('J', 'a', 'n'),
        2 => ('F', 'e', 'b'),
        3 => ('M', 'a', 'r'),
        4 => ('A', 'p', 'r'),
        5 => ('M', 'a', 'y'),
        6 => ('J', 'u', 'n'),
        7 => ('J', 'u', 'l'),
        8 => ('A', 'u', 'g'),
        9 => ('S', 'e', 'p'),
        10 => ('O', 'c', 't'),
        11 => ('N', 'o', 'v'),
        _ => ('D', 'e', 'c'),
    };
    v.push(a);
    v.push(b);
    v.push(c);
    proof {
        assert(v@ =~= old(v)@ + month_abbrev(m as int));
    }
}

/// Append the rendered form of a timestamp.
#[verifier::rlimit(100)]
#[verifier::spinoff_prover]
pub fn render_timestamp(v: &mut Vec<char>, t: &Timestamp)
    requires
        t.valid(),
    ensures
        final(v)@ == old(v)@ + spec_render_ts(*t),
{
    let mut w: Vec<char> = Vec::new();
    push_four(&mut w, t.year);
    w.push(' ');
    push_month(&mut w, t.month);
    w.push(' ');
    push_two(&mut w, t.day);
    w.push(' ');
    push_two(&mut w, t.hour);
    w.push(':');
    push_two(&mut w, t.minute);
    w.push(':');
    push_two(&mut w, t.second);
    w.push(' ');
    w.push(
        if t.off_neg {
            '-'
        } else {
            '+'
        },
    );
    push_two(&mut w, t.off_hour);
    push_two(&mut w, t.off_min);
    proof {
        reveal(spec_render_ts);
        lemma_month_round_trip(t.month as int);
        assert(w@ =~= spec_render_ts(*t));
    }
    v.append(&mut w);
}

/// Read one two-digit number at the given position.
fn parse_two_at(s: &Vec<char>, i: usize) -> (r: Option<u8>)
    requires
        i + 2 <= s.len(),
    ensures
        r is Some <==> is_digit(s@[i as int]) && is_digit(s@[i + 1]),
        r is Some ==> r->0 as int == 10 * digit_val(s@[i as int]) + digit_val(s@[i + 1]),
{
    let hi = digit_of(s[i]);
    let lo = digit_of(s[i + 1]);
    match (hi, lo) {
        (Some(h), Some(l)) => Some(10 * h + l),
        _ => None,
    }
}

/// Parse exactly the fixed 26-character timestamp form.
pub fn parse_timestamp(s: &Vec<char>) -> (r: Option<Timestamp>)
    ensures
        r == spec_parse_ts(s@),
{
    if s.len() != 26 {
        return None;
    }
    let y0 = digit_of(s[0]);
    let y1 = digit_of(s[1]);
    let y2 = digit_of(s[2]);
    let y3 = digit_of(s[3]);
    let year: u16 = match (y0, y1, y2, y3) {
        (Some(a), Some(b), Some(c), Some(d)) => 1000 * (a as u16) + 100 * (b as u16) + 10 * (
        c as u16) + (d as u16),
        _ => {
            return None;
        },
    };
    if s[4] != ' ' {
        return None;
    }
    let month: u8 = {
        let a = s[5];
        let b = s[6];
        let c = s[7];
        if a == 'J' && b == 'a' && c == 'n' {
            1
        } else if a == 'F' && b == 'e' && c == 'b' {
            2
        } else if a == 'M' && b == 'a' && c == 'r' {
            3
        } else if a == 'A' && b == 'p' && c == 'r' {
            4
        } else if a == 'M' && b == 'a' && c == 'y' {
            5
        } else if a == 'J' && b == 'u' && c == 'n' {
            6
        } else if a == 'J' && b == 'u' && c == 'l' {
            7
        } else if a == 'A' && b == 'u' && c == 'g' {
            8
        } else if a == 'S' && b == 'e' && c == 'p' {
            9
        } else if a == 'O' && b == 'c' && c == 't' {
            10
        } else if a == 'N' && b == 'o' && c == 'v' {
            11
        } else if a == 'D' && b == 'e' && c == 'c' {
            12
        } else {
            return None;
        }
    };
    if s[8] != ' ' {
        return None;
    }
    let day: u8 = match parse_two_at(s, 9) {
        Some(d) => d,
        None => {
            return None;
        },
    };
    if s[11] != ' ' {
        return None;
    }
    let hour: u8 = match parse_two_at(s, 12) {
        Some(d) => d,
        None => {
            return None;
        },
    };
    if s[14] != ':' {
        return None;
    }
    let minute: u8 = match parse_two_at(s, 15) {
        Some(d) => d,
        None => {
            return None;
        },
    };
    if s[17] != ':' {
        return None;
    }
    let second: u8 = match parse_two_at(s, 18) {
        Some(d) => d,
        None => {
            return None;
        },
    };
    if s[20] != ' ' {
        return None;
    }
    let sign = s[21];
    if sign != '+' && sign != '-' {
        return None;
    }
    let off_hour: u8 = match parse_two_at(s, 22) {
        Some(d) => d,
        None => {
            return None;
        },
    };
    let off_min: u8 = match parse_two_at(s, 24) {
        Some(d) => d,
        None => {
            return None;
        },
    };
    let t = Timestamp {
        year,
        month,
        day,
        hour,
        minute,
        second,
        off_neg: sign == '-',
        off_hour,
        off_min,
    };
    if t.is_valid() {
        Some(t)
    } else {
        None
    }
}

} // verus!
