//! A human-readable stamp of the current wall-clock time, for display in
//! the surrounding layer.

use vstd::prelude::*;

use crate::ext::now_local_fields;
use crate::timestamp::{four_digits, push_four, push_two, two_digits, Timestamp};

verus! {

/// The display form `YYYY-MM-DD hh:MM:SS AM|PM`, with a twelve-hour
/// clock.
pub open spec fn spec_clock_line(t: Timestamp) -> Seq<char> {
    four_digits(t.year as int) + seq!['-'] + two_digits(t.month as int) + seq!['-'] + two_digits(
        t.day as int,
    ) + seq![' '] + two_digits(
        if t.hour as int % 12 == 0 {
            12
        } else {
            t.hour as int % 12
        },
    ) + seq![':'] + two_digits(t.minute as int) + seq![':'] + two_digits(t.second as int) + seq![
        ' ',
    ] + (if t.hour < 12 {
        seq!['A', 'M']
    } else {
        seq!['P', 'M']
    })
}

/// Render one instant in the display form.
pub fn format_clock_line(t: &Timestamp) -> (r: String)
    requires
        t.valid(),
    ensures
        r@ == spec_clock_line(*t),
{
    let mut w: Vec<char> = Vec::new();
    push_four(&mut w, t.year);
    w.push('-');
    push_two(&mut w, t.month);
    w.push('-');
    push_two(&mut w, t.day);
    w.push(' ');
    let h12: u8 = if t.hour % 12 == 0 {
        12
    } else {
        t.hour % 12
    };
    push_two(&mut w, h12);
    w.push(':');
    push_two(&mut w, t.minute);
    w.push(':');
    push_two(&mut w, t.second);
    w.push(' ');
    if t.hour < 12 {
        w.push('A');
    } else {
        w.push('P');
    }
    w.push('M');
    proof {
        assert(w@ =~= spec_clock_line(*t));
    }
    crate::strutil::chars_to_string(&w)
}

/// The current local time in the display form. Which instant the clock
/// reports cannot be pinned down; the result is the display form of some
/// valid timestamp.
pub fn current_time_string() -> (r: String)
    ensures
        exists|t: Timestamp| t.valid() && r@ == spec_clock_line(t),
{
    let (y, mo, d, h, mi, se) = now_local_fields();
    let t = Timestamp::from_clock(y, mo, d, h, mi, se);
    let r = format_clock_line(&t);
    proof {
        assert(t.valid() && r@ == spec_clock_line(t));
    }
    r
}

} // verus!
