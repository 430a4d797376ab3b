//! Clock content for the LCD: one wall-clock reading as plain field values,
//! the 20-column date-and-seconds line, and the full clock grid with the
//! time rendered in jumbo glyphs on the three lower rows.

use vstd::prelude::*;

use chrono::{Datelike, Timelike};

use crate::jumbo::{
    jumbo_line,
    jumbo_width,
    lemma_jumbo_line_len,
    lemma_jumbo_width_bound,
    write_jumbo_text,
};
use crate::lcd::{write_row, LcdText, LCD_WIDTH};

verus! {

/// One reading of the local wall clock, as plain field values.
#[derive(Copy, Clone, Debug, PartialEq, Eq, Structural)]
pub struct ClockTime {
    /// Day of the week, Sunday is zero.
    pub weekday: u8,
    /// Month of the year, January is one.
    pub month: u8,
    /// Day of the month, from one.
    pub day: u8,
    /// Hour on the 12-hour dial, one through twelve.
    pub hour12: u8,
    pub minute: u8,
    pub second: u8,
}

impl ClockTime {
    /// The ranges every real clock reading satisfies.
    pub open spec fn wf(self) -> bool {
        &&& self.weekday < 7
        &&& 1 <= self.month <= 12
        &&& 1 <= self.day <= 31
        &&& 1 <= self.hour12 <= 12
        &&& self.minute < 60
        &&& self.second < 60
    }
}

/// Relies on chrono: `Local::now` reads the current local time, and the
/// `Datelike`/`Timelike` accessors used here return plain numbers whose
/// documented ranges are exactly the bounds of `ClockTime::wf` (weekday
/// 0..=6 counted from Sunday, month 1..=12, day 1..=31, 12-hour clock
/// 1..=12, minute and second 0..=59).
#[verifier::external_body]
pub fn read_clock() -> (t: ClockTime)
    ensures
        t.wf(),
{
    let now = chrono::Local::now();
    ClockTime {
        weekday: now.weekday().num_days_from_sunday() as u8,
        month: now.month() as u8,
        day: now.day() as u8,
        hour12: now.hour12().1 as u8,
        minute: now.minute() as u8,
        second: now.second() as u8,
    }
}

/// ASCII bytes of the full English weekday name, Sunday first.
pub open spec fn weekday_name(w: int) -> Seq<u8> {
    if w == 0 {
        // "Sunday"
        seq![83u8, 117, 110, 100, 97, 121]
    } else if w == 1 {
        // "Monday"
        seq![77u8, 111, 110, 100, 97, 121]
    } else if w == 2 {
        // "Tuesday"
        seq![84u8, 117, 101, 115, 100, 97, 121]
    } else if w == 3 {
        // "Wednesday"
        seq![87u8, 101, 100, 110, 101, 115, 100, 97, 121]
    } else if w == 4 {
        // "Thursday"
        seq![84u8, 104, 117, 114, 115, 100, 97, 121]
    } else if w == 5 {
        // "Friday"
        seq![70u8, 114, 105, 100, 97, 121]
    } else {
        // "Saturday"
        seq![83u8, 97, 116, 117, 114, 100, 97, 121]
    }
}

/// ASCII bytes of the three-letter month abbreviation, January is one.
pub open spec fn month_abbr(m: int) -> Seq<u8> {
    if m == 1 {
        // "Jan"
        seq![74u8, 97, 110]
    } else if m == 2 {
        // "Feb"
        seq![70u8, 101, 98]
    } else if m == 3 {
        // "Mar"
        seq![77u8, 97, 114]
    } else if m == 4 {
        // "Apr"
        seq![65u8, 112, 114]
    } else if m == 5 {
        // "May"
        seq![77u8, 97, 121]
    } else if m == 6 {
        // "Jun"
        seq![74u8, 117, 110]
    } else if m == 7 {
        // "Jul"
        seq![74u8, 117, 108]
    } else if m == 8 {
        // "Aug"
        seq![65u8, 117, 103]
    } else if m == 9 {
        // "Sep"
        seq![83u8, 101, 112]
    } else if m == 10 {
        // "Oct"
        seq![79u8, 99, 116]
    } else if m == 11 {
        // "Nov"
        seq![78u8, 111, 118]
    } else {
        // "Dec"
        seq![68u8, 101, 99]
    }
}

/// `n` spaces.
pub open spec fn spaces(n: int) -> Seq<u8> {
    Seq::new(n as nat, |i: int| 32u8)
}

/// Two decimal digits, zero-padded.
pub open spec fn two_digits(v: int) -> Seq<u8> {
    seq![(48 + v / 10) as u8, (48 + v % 10) as u8]
}

/// One or two decimal digits, no leading zero.
pub open spec fn short_digits(v: int) -> Seq<u8> {
    if v < 10 {
        seq![(48 + v) as u8]
    } else {
        two_digits(v)
    }
}

/// The date part of the top line: weekday, comma, abbreviated month, day.
pub open spec fn date_text(t: ClockTime) -> Seq<u8> {
    weekday_name(t.weekday as int) + seq![44u8, 32u8] + month_abbr(t.month as int) + seq![32u8]
        + short_digits(t.day as int)
}

/// The whole top line: the date left-justified to 18 columns, then the
/// two-digit seconds.
pub open spec fn line0_text(t: ClockTime) -> Seq<u8> {
    date_text(t) + spaces(18 - date_text(t).len() as int) + two_digits(t.second as int)
}

/// The time as text: 12-hour hour without leading zero, colon, minutes.
pub open spec fn time_text(t: ClockTime) -> Seq<u8> {
    short_digits(t.hour12 as int) + seq![58u8] + two_digits(t.minute as int)
}

/// One of the three jumbo rows of the clock grid, padded with spaces to the
/// display width.
pub open spec fn jumbo_row_text(t: ClockTime, r: int) -> Seq<u8> {
    jumbo_line(time_text(t), r) + spaces(LCD_WIDTH as int - jumbo_width(time_text(t)) as int)
}

/// The whole 20x4 clock grid: the date-and-seconds line, then the time in
/// jumbo glyphs.
pub open spec fn spec_clock_text(t: ClockTime) -> Seq<u8> {
    line0_text(t) + jumbo_row_text(t, 0) + jumbo_row_text(t, 1) + jumbo_row_text(t, 2)
}

/// The date text never overflows its 18 columns.
proof fn lemma_date_text_len(t: ClockTime)
    requires
        t.wf(),
    ensures
        13 <= date_text(t).len() <= 17,
{
}

/// The time text is four or five characters, all of them jumbo-renderable,
/// so its rendering fits the display width.
proof fn lemma_time_text_fits(t: ClockTime)
    requires
        t.wf(),
    ensures
        4 <= time_text(t).len() <= 5,
        jumbo_width(time_text(t)) <= LCD_WIDTH,
{
    lemma_jumbo_width_bound(time_text(t));
}

/// ASCII bytes of the weekday name.
fn weekday_bytes(w: u8) -> (r: Vec<u8>)
    requires
        w < 7,
    ensures
        r@ == weekday_name(w as int),
{
    let mut v: Vec<u8> = Vec::new();
    match w {
        0 => {
            // "Sunday"
            v.push(83);
            v.push(117);
            v.push(110);
            v.push(100);
            v.push(97);
            v.push(121);
        },
        1 => {
            // "Monday"
            v.push(77);
            v.push(111);
            v.push(110);
            v.push(100);
            v.push(97);
            v.push(121);
        },
        2 => {
            // "Tuesday"
            v.push(84);
            v.push(117);
            v.push(101);
            v.push(115);
            v.push(100);
            v.push(97);
            v.push(121);
        },
        3 => {
            // "Wednesday"
            v.push(87);
            v.push(101);
            v.push(100);
            v.push(110);
            v.push(101);
            v.push(115);
            v.push(100);
            v.push(97);
            v.push(121);
        },
        4 => {
            // "Thursday"
            v.push(84);
            v.push(104);
            v.push(117);
            v.push(114);
            v.push(115);
            v.push(100);
            v.push(97);
            v.push(121);
        },
        5 => {
            // "Friday"
            v.push(70);
            v.push(114);
            v.push(105);
            v.push(100);
            v.push(97);
            v.push(121);
        },
        _ => {
            // "Saturday"
            v.push(83);
            v.push(97);
            v.push(116);
            v.push(117);
            v.push(114);
            v.push(100);
            v.push(97);
            v.push(121);
        },
    }
    proof {
        assert(v@ =~= weekday_name(w as int));
    }
    v
}

/// ASCII bytes of the month abbreviation.
fn month_bytes(m: u8) -> (r: Vec<u8>)
    requires
        1 <= m <= 12,
    ensures
        r@ == month_abbr(m as int),
{
    let mut v: Vec<u8> = Vec::new();
    match m {
        1 => {
            // "Jan"
            v.push(74);
            v.push(97);
            v.push(110);
        },
        2 => {
            // "Feb"
            v.push(70);
            v.push(101);
            v.push(98);
        },
        3 => {
            // "Mar"
            v.push(77);
            v.push(97);
            v.push(114);
        },
        4 => {
            // "Apr"
            v.push(65);
            v.push(112);
            v.push(114);
        },
        5 => {
            // "May"
            v.push(77);
            v.push(97);
            v.push(121);
        },
        6 => {
            // "Jun"
            v.push(74);
            v.push(117);
            v.push(110);
        },
        7 => {
            // "Jul"
            v.push(74);
            v.push(117);
            v.push(108);
        },
        8 => {
            // "Aug"
            v.push(65);
            v.push(117);
            v.push(103);
        },
        9 => {
            // "Sep"
            v.push(83);
            v.push(101);
            v.push(112);
        },
        10 => {
            // "Oct"
            v.push(79);
            v.push(99);
            v.push(116);
        },
        11 => {
            // "Nov"
            v.push(78);
            v.push(111);
            v.push(118);
        },
        _ => {
            // "Dec"
            v.push(68);
            v.push(101);
            v.push(99);
        },
    }
    proof {
        assert(v@ =~= month_abbr(m as int));
    }
    v
}

/// Append one or two decimal digits without a leading zero.
fn push_short_digits(out: &mut Vec<u8>, v: u8)
    requires
        v < 100,
    ensures
        final(out)@ == old(out)@ + crate::clock::short_digits(v as int),
{
    if v < 10 {
        out.push(48 + v);
    } else {
        out.push(48 + v / 10);
        out.push(48 + v % 10);
    }
    proof {
        assert(final(out)@ =~= old(out)@ + short_digits(v as int));
    }
}

/// Append exactly two decimal digits, zero-padded.
fn push_two_digits(out: &mut Vec<u8>, v: u8)
    requires
        v < 100,
    ensures
        final(out)@ == old(out)@ + two_digits(v as int),
{
    out.push(48 + v / 10);
    out.push(48 + v % 10);
    proof {
        assert(final(out)@ =~= old(out)@ + two_digits(v as int));
    }
}

/// Format one clock reading as the full 20x4 LCD grid.
pub fn get_clock_text(t: &ClockTime) -> (r: LcdText)
    requires
        t.wf(),
    ensures
        r.wf(),
        r@ == spec_clock_text(*t),
{
    proof {
        lemma_date_text_len(*t);
        lemma_time_text_fits(*t);
        lemma_jumbo_line_len(time_text(*t), 0);
        lemma_jumbo_line_len(time_text(*t), 1);
        lemma_jumbo_line_len(time_text(*t), 2);
    }
    let mut text = LcdText::default();

    // Top line: date left-justified to 18 columns, then seconds.
    let mut line = weekday_bytes(t.weekday);
    line.push(44);
    line.push(32);
    let mut mon = month_bytes(t.month);
    line.append(&mut mon);
    line.push(32);
    push_short_digits(&mut line, t.day);
    proof {
        assert(line@ =~= date_text(*t));
    }
    let ghost date = date_text(*t);
    while line.len() < 18
        invariant
            date.len() <= line@.len() <= 18,
            line@ == date + spaces(line@.len() - date.len() as int),
        decreases 18 - line@.len(),
    {
        line.push(32);
        proof {
            assert(line@ =~= date + spaces(line@.len() - date.len() as int));
        }
    }
    push_two_digits(&mut line, t.second);
    proof {
        assert(line@ =~= line0_text(*t));
    }
    write_row(&mut text, 0, &line);
    let ghost text1 = text@;

    // Lower three lines: the time in jumbo glyphs.
    let mut ts: Vec<u8> = Vec::new();
    push_short_digits(&mut ts, t.hour12);
    ts.push(58);
    push_two_digits(&mut ts, t.minute);
    proof {
        assert(ts@ =~= time_text(*t));
    }
    write_jumbo_text(&mut text, &ts);

    proof {
        let tt = *t;
        let w = jumbo_width(time_text(tt)) as int;
        assert forall|j: int| 0 <= j < text@.len() implies text@[j] == spec_clock_text(tt)[j] by {
            if j < 20 {
                assert(text@[j] == text1[j]);
                assert(text1[0 * (LCD_WIDTH as int) + j] == line@[j]);
            } else {
                let r = if j < 40 {
                    0int
                } else if j < 60 {
                    1int
                } else {
                    2int
                };
                let i = j - (1 + r) * (LCD_WIDTH as int);
                assert(j == (1 + r) * (LCD_WIDTH as int) + i);
                if i < w {
                    assert(text@[(1 + r) * (LCD_WIDTH as int) + i] == jumbo_line(ts@, r)[i]);
                } else {
                    assert(text@[(1 + r) * (LCD_WIDTH as int) + i] == text1[(1 + r) * (
                    LCD_WIDTH as int) + i]);
                    assert(text1[(1 + r) * (LCD_WIDTH as int) + i] == 32u8);
                }
            }
        }
        assert(text@ =~= spec_clock_text(tt));
    }
    text
}

} // verus!
