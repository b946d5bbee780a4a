//! The closed set of bar widths and the mapping from an instant to the start
//! of the window that contains it.

use vstd::arithmetic::div_mod::{
    lemma_div_is_ordered, lemma_fundamental_div_mod, lemma_fundamental_div_mod_converse,
    lemma_mod_bound,
};
use vstd::prelude::*;

verus! {

/// Width of an aggregation window.
#[derive(Clone, Copy, Debug, PartialEq, Eq, Structural)]
pub enum Interval {
    OneSecond,
    OneMinute,
    FiveMinutes,
    FifteenMinutes,
    OneHour,
}

/// Why a call that names an interval or an instant was turned down.
#[derive(Clone, Copy, Debug, PartialEq, Eq, Structural)]
pub enum IntervalError {
    /// The label is none of `1s`, `1m`, `5m`, `15m`, `1h`.
    UnknownInterval,
    /// The window that holds the instant starts before the earliest
    /// representable second.
    TimestampOutOfRange,
}

/// Number of supported intervals.
pub const INTERVAL_COUNT: usize = 5;

/// The bytes of which the labels are made: `1`, `5`, `s`, `m` and `h`.
const DIGIT_ONE: u8 = 0x31;

const DIGIT_FIVE: u8 = 0x35;

const LETTER_S: u8 = 0x73;

const LETTER_M: u8 = 0x6d;

const LETTER_H: u8 = 0x68;

/// The interval whose label is `label`, if there is one.
pub open spec fn interval_of_label(label: Seq<char>) -> Option<Interval> {
    if label == seq!['1', 's'] {
        Some(Interval::OneSecond)
    } else if label == seq!['1', 'm'] {
        Some(Interval::OneMinute)
    } else if label == seq!['5', 'm'] {
        Some(Interval::FiveMinutes)
    } else if label == seq!['1', '5', 'm'] {
        Some(Interval::FifteenMinutes)
    } else if label == seq!['1', 'h'] {
        Some(Interval::OneHour)
    } else {
        None
    }
}

/// Start of the window of width `interval` that contains second `t`: the
/// largest multiple of the width that is not above `t`.
pub open spec fn window_start(t: int, interval: Interval) -> int {
    (t / interval.duration()) * interval.duration()
}

impl Interval {
    /// The interval at position `i` in the order finest to coarsest.
    pub open spec fn at(i: int) -> Interval {
        if i <= 0 {
            Interval::OneSecond
        } else if i == 1 {
            Interval::OneMinute
        } else if i == 2 {
            Interval::FiveMinutes
        } else if i == 3 {
            Interval::FifteenMinutes
        } else {
            Interval::OneHour
        }
    }

    /// Width of the window in seconds.
    pub open spec fn duration(self) -> int {
        match self {
            Interval::OneSecond => 1,
            Interval::OneMinute => 60,
            Interval::FiveMinutes => 300,
            Interval::FifteenMinutes => 900,
            Interval::OneHour => 3600,
        }
    }

    /// Position of the interval in the order finest to coarsest.
    pub open spec fn ordinal(self) -> int {
        match self {
            Interval::OneSecond => 0,
            Interval::OneMinute => 1,
            Interval::FiveMinutes => 2,
            Interval::FifteenMinutes => 3,
            Interval::OneHour => 4,
        }
    }

    /// The characters of the interval's label.
    pub open spec fn label_chars(self) -> Seq<char> {
        match self {
            Interval::OneSecond => seq!['1', 's'],
            Interval::OneMinute => seq!['1', 'm'],
            Interval::FiveMinutes => seq!['5', 'm'],
            Interval::FifteenMinutes => seq!['1', '5', 'm'],
            Interval::OneHour => seq!['1', 'h'],
        }
    }

    /// Width of the window in seconds.
    pub fn seconds(self) -> (d: i64)
        ensures
            d == self.duration(),
    {
        match self {
            Interval::OneSecond => 1,
            Interval::OneMinute => 60,
            Interval::FiveMinutes => 300,
            Interval::FifteenMinutes => 900,
            Interval::OneHour => 3600,
        }
    }

    /// Position of the interval in the order finest to coarsest.
    pub fn index(self) -> (i: usize)
        ensures
            i == self.ordinal(),
            i < INTERVAL_COUNT,
            Interval::at(i as int) == self,
    {
        match self {
            Interval::OneSecond => 0,
            Interval::OneMinute => 1,
            Interval::FiveMinutes => 2,
            Interval::FifteenMinutes => 3,
            Interval::OneHour => 4,
        }
    }

    /// The interval at position `i`, for `i` below `INTERVAL_COUNT`.
    pub fn from_index(i: usize) -> (r: Option<Interval>)
        ensures
            r == (if i < INTERVAL_COUNT {
                Some(Interval::at(i as int))
            } else {
                None
            }),
            i < INTERVAL_COUNT ==> Interval::at(i as int).ordinal() == i,
    {
        if i == 0 {
            Some(Interval::OneSecond)
        } else if i == 1 {
            Some(Interval::OneMinute)
        } else if i == 2 {
            Some(Interval::FiveMinutes)
        } else if i == 3 {
            Some(Interval::FifteenMinutes)
        } else if i == 4 {
            Some(Interval::OneHour)
        } else {
            None
        }
    }

    /// The label under which the interval is known to callers.
    pub fn label(self) -> (s: &'static str)
        ensures
            s@ == self.label_chars(),
    {
        proof {
            reveal_strlit("1s");
            reveal_strlit("1m");
            reveal_strlit("5m");
            reveal_strlit("15m");
            reveal_strlit("1h");
        }
        let s = match self {
            Interval::OneSecond => "1s",
            Interval::OneMinute => "1m",
            Interval::FiveMinutes => "5m",
            Interval::FifteenMinutes => "15m",
            Interval::OneHour => "1h",
        };
        assert(s@ =~= self.label_chars());
        s
    }

    /// Reads a label. Only the five exact labels are recognised; nothing is
    /// defaulted.
    pub fn parse(label: &str) -> (r: Option<Interval>)
        ensures
            r == interval_of_label(label@),
    {
        if !label.is_ascii() {
            proof {
                lemma_labels_are_ascii();
            }
            return None;
        }
        let bytes = label.as_bytes();
        proof {
            vstd::string::is_ascii_spec_bytes(label);
        }
        let n = bytes.len();
        if n == 2 {
            let a = bytes[0];
            let b = bytes[1];
            assert(label@ =~= seq![label@[0], label@[1]]);
            if a == DIGIT_ONE && b == LETTER_S {
                Some(Interval::OneSecond)
            } else if a == DIGIT_ONE && b == LETTER_M {
                Some(Interval::OneMinute)
            } else if a == DIGIT_FIVE && b == LETTER_M {
                Some(Interval::FiveMinutes)
            } else if a == DIGIT_ONE && b == LETTER_H {
                Some(Interval::OneHour)
            } else {
                None
            }
        } else if n == 3 {
            let a = bytes[0];
            let b = bytes[1];
            let c = bytes[2];
            assert(label@ =~= seq![label@[0], label@[1], label@[2]]);
            if a == DIGIT_ONE && b == DIGIT_FIVE && c == LETTER_M {
                Some(Interval::FifteenMinutes)
            } else {
                None
            }
        } else {
            None
        }
    }

    /// Start of the window of this width that contains second `t`, or `None`
    /// where that start lies below `i64::MIN`.
    pub fn window_start(self, t: i64) -> (r: Option<i64>)
        ensures
            r == (if window_start(t as int, self) >= i64::MIN {
                Some(window_start(t as int, self) as i64)
            } else {
                None
            }),
    {
        let d = self.seconds();
        let into_window: i64 = if t >= 0 {
            t % d
        } else {
            d - 1 - (-(t + 1)) % d
        };
        proof {
            lemma_width_is_positive(self);
            lemma_distance_into_window(t as int, d as int);
        }
        if t < i64::MIN + into_window {
            None
        } else {
            Some(t - into_window)
        }
    }
}

/// Every label is made of ASCII characters, so a text with any other
/// character is no label.
proof fn lemma_labels_are_ascii()
    ensures
        forall|s: Seq<char>| #[trigger] interval_of_label(s).is_some() ==> vstd::utf8::is_ascii_chars(s),
{
}

/// Reading the label of an interval gives that interval back, and the
/// position of an interval leads back to it.
pub proof fn lemma_label_round_trip(interval: Interval)
    ensures
        interval_of_label(interval.label_chars()) == Some(interval),
        Interval::at(interval.ordinal()) == interval,
        0 <= interval.ordinal() < INTERVAL_COUNT,
{
    assert(seq!['1', 's'][1] != seq!['1', 'm'][1]);
    assert(seq!['1', 's'][0] != seq!['5', 'm'][0]);
    assert(seq!['1', 'm'][0] != seq!['5', 'm'][0]);
    assert(seq!['1', 'h'][1] != seq!['1', 's'][1]);
    assert(seq!['1', 'h'][1] != seq!['1', 'm'][1]);
    assert(seq!['1', 'h'][0] != seq!['5', 'm'][0]);
    assert(seq!['1', '5', 'm'].len() != seq!['1', 's'].len());
}

/// Every width is at least one second.
proof fn lemma_width_is_positive(interval: Interval)
    ensures
        interval.duration() > 0,
{
}

/// Rounding `t` down to a multiple of `d` gives a multiple of `d` that is
/// at most `t` and less than `d` below it.
proof fn lemma_floor_multiple(t: int, d: int)
    requires
        d > 0,
    ensures
        (t / d) * d <= t < (t / d) * d + d,
        ((t / d) * d) / d == t / d,
{
    lemma_fundamental_div_mod(t, d);
    lemma_mod_bound(t, d);
    let x = (t / d) * d;
    assert(x == t - t % d) by (nonlinear_arith)
        requires
            x == (t / d) * d,
            t == d * (t / d) + t % d,
    ;
    lemma_fundamental_div_mod_converse(x, d, t / d, 0);
}

/// How far `t` lies above the multiple of `d` below it, computed without
/// dividing a negative number.
proof fn lemma_distance_into_window(t: int, d: int)
    requires
        d > 0,
    ensures
        0 <= t % d < d,
        (t / d) * d == t - t % d,
        t < 0 ==> t % d == d - 1 - (-(t + 1)) % d,
{
    lemma_fundamental_div_mod(t, d);
    lemma_mod_bound(t, d);
    assert((t / d) * d == t - t % d) by (nonlinear_arith)
        requires
            t == d * (t / d) + t % d,
    ;
    if t < 0 {
        let a = -(t + 1);
        lemma_fundamental_div_mod(a, d);
        lemma_mod_bound(a, d);
        let q = -(a / d) - 1;
        let r = d - 1 - a % d;
        assert(t == q * d + r) by (nonlinear_arith)
            requires
                a == d * (a / d) + a % d,
                a == -(t + 1),
                q == -(a / d) - 1,
                r == d - 1 - a % d,
        ;
        lemma_fundamental_div_mod_converse(t, d, q, r);
    }
}

/// Every instant lies inside the window that `window_start` gives for it,
/// and rounding an instant that is already a window start changes nothing.
pub proof fn lemma_window_start_bounds(t: int, interval: Interval)
    ensures
        window_start(t, interval) <= t < window_start(t, interval) + interval.duration(),
        window_start(window_start(t, interval), interval) == window_start(t, interval),
{
    lemma_width_is_positive(interval);
    lemma_floor_multiple(t, interval.duration());
}

/// Two instants share a window exactly when rounding gives them the same
/// start.
pub proof fn lemma_same_window(t: int, u: int, interval: Interval)
    ensures
        window_start(t, interval) == window_start(u, interval) <==> (window_start(t, interval) <= u
            < window_start(t, interval) + interval.duration()),
{
    let d = interval.duration();
    lemma_width_is_positive(interval);
    lemma_floor_multiple(t, d);
    lemma_floor_multiple(u, d);
    let start = window_start(t, interval);
    if start <= u < start + d {
        lemma_fundamental_div_mod_converse(u, d, t / d, u - start);
    }
}

/// Rounding keeps the order of instants.
pub proof fn lemma_window_start_monotonic(t: int, u: int, interval: Interval)
    requires
        t <= u,
    ensures
        window_start(t, interval) <= window_start(u, interval),
{
    let d = interval.duration();
    lemma_width_is_positive(interval);
    lemma_div_is_ordered(t, u, d);
    assert((t / d) * d <= (u / d) * d) by (nonlinear_arith)
        requires
            t / d <= u / d,
            d > 0,
    ;
}

/// The width of a coarser interval is a whole multiple of the width of a
/// finer one.
proof fn lemma_widths_divide(fine: Interval, coarse: Interval)
    requires
        fine.ordinal() <= coarse.ordinal(),
    ensures
        coarse.duration() / fine.duration() >= 1,
        coarse.duration() == (coarse.duration() / fine.duration()) * fine.duration(),
{
    match fine {
        Interval::OneSecond => match coarse {
            Interval::OneSecond => {},
            Interval::OneMinute => {},
            Interval::FiveMinutes => {},
            Interval::FifteenMinutes => {},
            Interval::OneHour => {},
        },
        Interval::OneMinute => match coarse {
            Interval::OneSecond => {},
            Interval::OneMinute => {},
            Interval::FiveMinutes => {},
            Interval::FifteenMinutes => {},
            Interval::OneHour => {},
        },
        Interval::FiveMinutes => match coarse {
            Interval::OneSecond => {},
            Interval::OneMinute => {},
            Interval::FiveMinutes => {},
            Interval::FifteenMinutes => {},
            Interval::OneHour => {},
        },
        Interval::FifteenMinutes => match coarse {
            Interval::OneSecond => {},
            Interval::OneMinute => {},
            Interval::FiveMinutes => {},
            Interval::FifteenMinutes => {},
            Interval::OneHour => {},
        },
        Interval::OneHour => match coarse {
            Interval::OneSecond => {},
            Interval::OneMinute => {},
            Interval::FiveMinutes => {},
            Interval::FifteenMinutes => {},
            Interval::OneHour => {},
        },
    }
}

/// Rounding down to a multiple of `k * d` gives no more than rounding down
/// to a multiple of `d`, and gives the same whether or not the instant was
/// rounded down to a multiple of `d` first.
proof fn lemma_multiples_nest(t: int, d: int, k: int)
    requires
        d > 0,
        k > 0,
    ensures
        (t / (k * d)) * (k * d) <= (t / d) * d,
        (((t / d) * d) / (k * d)) * (k * d) == (t / (k * d)) * (k * d),
{
    let big = k * d;
    assert(big > 0) by (nonlinear_arith)
        requires
            d > 0,
            k > 0,
            big == k * d,
    ;
    lemma_fundamental_div_mod(t, big);
    lemma_mod_bound(t, big);
    lemma_fundamental_div_mod(t, d);
    lemma_mod_bound(t, d);
    let q = t / big;
    let x = (t / d) * d;
    let m = t / d - q * k;
    assert(x - q * big == m * d) by (nonlinear_arith)
        requires
            x == (t / d) * d,
            big == k * d,
            m == t / d - q * k,
    ;
    assert(x == t - t % d) by (nonlinear_arith)
        requires
            x == (t / d) * d,
            t == d * (t / d) + t % d,
    ;
    assert(q * big == t - t % big) by (nonlinear_arith)
        requires
            t == big * q + t % big,
    ;
    assert(m >= 0) by (nonlinear_arith)
        requires
            m * d > -d,
            d > 0,
    ;
    assert(m * d >= 0) by (nonlinear_arith)
        requires
            m >= 0,
            d > 0,
    ;
    lemma_fundamental_div_mod_converse(x, big, q, x - q * big);
}

/// Windows nest: the window of a coarser interval starts no later than the
/// window of a finer one around the same instant, and it is the coarser
/// window of every instant of the finer one.
pub proof fn lemma_windows_nest(t: int, fine: Interval, coarse: Interval)
    requires
        fine.ordinal() <= coarse.ordinal(),
    ensures
        window_start(t, coarse) <= window_start(t, fine),
        window_start(window_start(t, fine), coarse) == window_start(t, coarse),
{
    lemma_widths_divide(fine, coarse);
    lemma_multiples_nest(t, fine.duration(), coarse.duration() / fine.duration());
}

/// Start of the window named by `interval` that contains second `timestamp`.
///
/// An unrecognised label is an error, and so is an instant whose window
/// would start before the earliest representable second.
pub fn round_to_interval(timestamp: i64, interval: &str) -> (r: Result<i64, IntervalError>)
    ensures
        r == (match interval_of_label(interval@) {
            None => Err(IntervalError::UnknownInterval),
            Some(i) => if window_start(timestamp as int, i) >= i64::MIN {
                Ok(window_start(timestamp as int, i) as i64)
            } else {
                Err(IntervalError::TimestampOutOfRange)
            },
        }),
{
    match Interval::parse(interval) {
        None => Err(IntervalError::UnknownInterval),
        Some(i) => match i.window_start(timestamp) {
            Some(start) => Ok(start),
            None => Err(IntervalError::TimestampOutOfRange),
        },
    }
}

} // verus!
