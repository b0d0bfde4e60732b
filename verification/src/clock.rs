//! The time of day at which a frame was received, to the minute.

use vstd::prelude::*;
use vstd::string::*;

verus! {

/// A time of day as mathematical values.
pub struct ClockView {
    pub hour: nat,
    pub minute: nat,
}

/// The hours and minutes of a day.
pub open spec fn is_time_of_day(hour: nat, minute: nat) -> bool {
    hour < 24 && minute < 60
}

/// The decimal digit for a number below ten.
pub open spec fn digit(n: nat) -> char {
    if n == 0 {
        '0'
    } else if n == 1 {
        '1'
    } else if n == 2 {
        '2'
    } else if n == 3 {
        '3'
    } else if n == 4 {
        '4'
    } else if n == 5 {
        '5'
    } else if n == 6 {
        '6'
    } else if n == 7 {
        '7'
    } else if n == 8 {
        '8'
    } else {
        '9'
    }
}

/// A number below a hundred in two decimal digits.
pub open spec fn two_digits(n: nat) -> Seq<char> {
    seq![digit(n / 10), digit(n % 10)]
}

/// A time of day as `HH:MM`.
pub open spec fn clock_text(time: ClockView) -> Seq<char> {
    two_digits(time.hour) + seq![':'] + two_digits(time.minute)
}

/// The hour and the minute of the local time, by `chrono::Local::now`
/// and the `hour` and `minute` of `chrono::Timelike`. Nothing is claimed
/// of which time it is: only that the hour is one of a day's 24 and the
/// minute one of an hour's 60, as `Timelike` documents.
#[verifier::external_body]
fn local_hour_minute() -> (now: (u32, u32))
    ensures
        now.0 < 24,
        now.1 < 60,
{
    let now = chrono::Local::now();
    (chrono::Timelike::hour(&now), chrono::Timelike::minute(&now))
}

/// A time of day, to the minute.
#[derive(Debug, Clone, Copy, PartialEq, Eq)]
pub struct ClockTime {
    hour: u32,
    minute: u32,
}

impl View for ClockTime {
    type V = ClockView;

    closed spec fn view(&self) -> ClockView {
        ClockView { hour: self.hour as nat, minute: self.minute as nat }
    }
}

/// The text of a digit.
fn digit_text(n: u32) -> (s: &'static str)
    requires
        n < 10,
    ensures
        s@ == seq![digit(n as nat)],
{
    proof {
        reveal_strlit("0");
        reveal_strlit("1");
        reveal_strlit("2");
        reveal_strlit("3");
        reveal_strlit("4");
        reveal_strlit("5");
        reveal_strlit("6");
        reveal_strlit("7");
        reveal_strlit("8");
        reveal_strlit("9");
    }
    let s = if n == 0 {
        "0"
    } else if n == 1 {
        "1"
    } else if n == 2 {
        "2"
    } else if n == 3 {
        "3"
    } else if n == 4 {
        "4"
    } else if n == 5 {
        "5"
    } else if n == 6 {
        "6"
    } else if n == 7 {
        "7"
    } else if n == 8 {
        "8"
    } else {
        "9"
    };
    assert(s@ =~= seq![digit(n as nat)]);
    s
}

impl ClockTime {
    #[verifier::type_invariant]
    closed spec fn inv(&self) -> bool {
        self.hour < 24 && self.minute < 60
    }

    /// The time of day with this hour and minute, if there is one.
    pub fn new(hour: u32, minute: u32) -> (time: Option<Self>)
        ensures
            time is Some <==> is_time_of_day(hour as nat, minute as nat),
            time matches Some(t) ==> t@ == (ClockView { hour: hour as nat, minute: minute as nat }),
    {
        if hour < 24 && minute < 60 {
            Some(ClockTime { hour, minute })
        } else {
            None
        }
    }

    /// The local time of day at this moment.
    pub fn now() -> (time: Self)
        ensures
            is_time_of_day(time@.hour, time@.minute),
    {
        let (hour, minute) = local_hour_minute();
        ClockTime { hour, minute }
    }

    /// The hour, from 0 to 23.
    pub fn hour(&self) -> (hour: u32)
        ensures
            hour == self@.hour,
            hour < 24,
    {
        proof {
            use_type_invariant(self);
        }
        self.hour
    }

    /// The minute, from 0 to 59.
    pub fn minute(&self) -> (minute: u32)
        ensures
            minute == self@.minute,
            minute < 60,
    {
        proof {
            use_type_invariant(self);
        }
        self.minute
    }

    /// The time as `HH:MM`.
    pub fn text(&self) -> (text: String)
        ensures
            text@ == clock_text(self@),
    {
        proof {
            use_type_invariant(self);
            reveal_strlit(":");
        }
        let mut text = String::new();
        text.append(digit_text(self.hour / 10));
        text.append(digit_text(self.hour % 10));
        text.append(":");
        text.append(digit_text(self.minute / 10));
        text.append(digit_text(self.minute % 10));
        assert(text@ =~= clock_text(self@));
        text
    }
}

} // verus!
