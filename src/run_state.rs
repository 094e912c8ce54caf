//! The run-state record: the day of the last pipeline start and whether that run
//! completed. One record serves every index directory.

use vstd::prelude::*;

use chrono::Datelike;

verus! {

/// A calendar day of years 0 through 9999.
#[derive(PartialEq, Eq, Structural, Clone, Copy, Debug)]
pub struct Day {
    pub year: i32,
    pub month: u32,
    pub day: u32,
}

impl Day {
    pub open spec fn wf(self) -> bool {
        &&& 0 <= self.year <= 9999
        &&& 1 <= self.month <= 12
        &&& 1 <= self.day <= 31
    }

    /// The day with these parts, when they are in range.
    pub fn new(year: i32, month: u32, day: u32) -> (r: Option<Day>)
        ensures
            r matches Some(d) ==> d.wf() && d.year == year && d.month == month && d.day == day,
            r is Some <==> (Day { year, month, day }).wf(),
    {
        if 0 <= year && year <= 9999 && 1 <= month && month <= 12 && 1 <= day && day <= 31 {
            Some(Day { year, month, day })
        } else {
            None
        }
    }

    /// The day as `YYYY-MM-DD`.
    pub fn iso(&self) -> (r: String)
        requires
            self.wf(),
        ensures
            r@ == day_text(*self),
    {
        let mut s = String::new();
        let y = self.year as u32;
        push_char(&mut s, digit(y / 1000));
        push_char(&mut s, digit(y / 100 % 10));
        push_char(&mut s, digit(y / 10 % 10));
        push_char(&mut s, digit(y % 10));
        push_char(&mut s, '-');
        push_char(&mut s, digit(self.month / 10));
        push_char(&mut s, digit(self.month % 10));
        push_char(&mut s, '-');
        push_char(&mut s, digit(self.day / 10));
        push_char(&mut s, digit(self.day % 10));
        proof {
            assert(s@ =~= day_text(*self));
        }
        s
    }
}

/// Decimal digit of a value below 10.
pub open spec fn digit_char(n: int) -> char {
    if n == 0 {
        '0'
    } else if n == 1 {
        '1'
    } else if n == 2 {
        '2'
    } else if n == 3 {
        '3'
    } else if n == 4 {
        '4'
    } else if n == 5 {
        '5'
    } else if n == 6 {
        '6'
    } else if n == 7 {
        '7'
    } else if n == 8 {
        '8'
    } else {
        '9'
    }
}

fn digit(n: u32) -> (r: char)
    requires
        n < 10,
    ensures
        r == digit_char(n as int),
{
    if n == 0 {
        '0'
    } else if n == 1 {
        '1'
    } else if n == 2 {
        '2'
    } else if n == 3 {
        '3'
    } else if n == 4 {
        '4'
    } else if n == 5 {
        '5'
    } else if n == 6 {
        '6'
    } else if n == 7 {
        '7'
    } else if n == 8 {
        '8'
    } else {
        '9'
    }
}

/// `YYYY-MM-DD`, each part zero-padded.
pub open spec fn day_text(d: Day) -> Seq<char> {
    let y = d.year as int;
    seq![
        digit_char(y / 1000),
        digit_char(y / 100 % 10),
        digit_char(y / 10 % 10),
        digit_char(y % 10),
        '-',
        digit_char(d.month as int / 10),
        digit_char(d.month as int % 10),
        '-',
        digit_char(d.day as int / 10),
        digit_char(d.day as int % 10),
    ]
}

/// Relies on `String::push`: appends one character.
#[verifier::external_body]
fn push_char(s: &mut String, c: char)
    ensures
        final(s)@ == old(s)@.push(c),
{
    s.push(c)
}

/// Relies on chrono's conversion `DateTime<Local>::from(SystemTime)`: the local
/// date of the current system time as year, month (1 to 12) and day of month
/// (1 to 31). The conversion also handles clocks set before the UNIX epoch.
#[verifier::external_body]
fn local_date() -> (r: (i32, u32, u32))
    ensures
        1 <= r.1 <= 12,
        1 <= r.2 <= 31,
{
    let now = chrono::DateTime::<chrono::Local>::from(std::time::SystemTime::now());
    (now.year(), now.month(), now.day())
}

/// Today's local date, when its year is within 0 through 9999.
pub fn local_today() -> (r: Option<Day>)
    ensures
        r matches Some(d) ==> d.wf(),
{
    let (y, m, d) = local_date();
    Day::new(y, m, d)
}

/// The run-state record.
pub struct PipelineState {
    /// Day of the last start, as `YYYY-MM-DD`.
    pub last_day: Option<String>,
    pub completed: bool,
}

impl Default for PipelineState {
    /// No run yet.
    fn default() -> (r: PipelineState)
        ensures
            r.last_day is None,
            !r.completed,
    {
        PipelineState { last_day: None, completed: false }
    }
}

pub open spec fn day_view(o: Option<String>) -> Option<Seq<char>> {
    match o {
        Some(s) => Some(s@),
        None => None,
    }
}

/// The record written when a run starts on `today`.
pub fn started_state(today: &Day) -> (r: PipelineState)
    requires
        today.wf(),
    ensures
        day_view(r.last_day) == Some(day_text(*today)),
        !r.completed,
{
    PipelineState { last_day: Some(today.iso()), completed: false }
}

/// The record written when a run completes on `today`.
pub fn completed_state(today: &Day) -> (r: PipelineState)
    requires
        today.wf(),
    ensures
        day_view(r.last_day) == Some(day_text(*today)),
        r.completed,
{
    PipelineState { last_day: Some(today.iso()), completed: true }
}

/// The record as read back: the stored one, or the empty record when none was stored.
pub fn load_or_default(stored: Option<PipelineState>) -> (r: PipelineState)
    ensures
        match stored {
            Some(s) => r == s,
            None => r.last_day is None && !r.completed,
        },
{
    match stored {
        Some(s) => s,
        None => PipelineState { last_day: None, completed: false },
    }
}

/// A run is in progress when it has started and not completed.
pub fn is_running(st: &PipelineState) -> (r: bool)
    ensures
        r == (st.last_day is Some && !st.completed),
{
    st.last_day.is_some() && !st.completed
}

} // verus!
