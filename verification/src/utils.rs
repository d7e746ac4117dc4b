use vstd::prelude::*;
use vstd::string::StringExecFns;

use crate::data::Candle;
use crate::data::OHLC;

verus! {

/// The highest high over a candle series (zero for an empty series).
pub open spec fn spec_max_high(s: Seq<OHLC>) -> int
    decreases s.len(),
{
    if s.len() == 0 {
        0
    } else if s.len() == 1 {
        s[0].h as int
    } else {
        let m = spec_max_high(s.drop_last());
        if s.last().h > m {
            s.last().h as int
        } else {
            m
        }
    }
}

/// The lowest low over a candle series (zero for an empty series).
pub open spec fn spec_min_low(s: Seq<OHLC>) -> int
    decreases s.len(),
{
    if s.len() == 0 {
        0
    } else if s.len() == 1 {
        s[0].l as int
    } else {
        let m = spec_min_low(s.drop_last());
        if s.last().l < m {
            s.last().l as int
        } else {
            m
        }
    }
}

/// Summary of a whole candle series: its overall open, high, low and close,
/// and the volume figures of the last candle.
pub struct SetAggregate {
    /// Opening price of the first candle.
    pub o: i64,
    /// Highest high over the series.
    pub h: i64,
    /// Lowest low over the series.
    pub l: i64,
    /// Closing price of the last candle.
    pub c: i64,
    /// Buy-side volume of the last candle.
    pub bv: Option<i64>,
    /// Total volume of the last candle.
    pub v: i64,
}

impl Candle for SetAggregate {
    open spec fn open_spec(&self) -> i64 {
        self.o
    }

    open spec fn high_spec(&self) -> i64 {
        self.h
    }

    open spec fn low_spec(&self) -> i64 {
        self.l
    }

    open spec fn close_spec(&self) -> i64 {
        self.c
    }

    open spec fn buy_volume_spec(&self) -> Option<i64> {
        self.bv
    }

    open spec fn total_volume_spec(&self) -> i64 {
        self.v
    }

    fn open(&self) -> (r: i64) {
        self.o
    }

    fn high(&self) -> (r: i64) {
        self.h
    }

    fn low(&self) -> (r: i64) {
        self.l
    }

    fn close(&self) -> (r: i64) {
        self.c
    }

    fn buy_volume(&self) -> (r: Option<i64>) {
        self.bv
    }

    fn total_volume(&self) -> (r: i64) {
        self.v
    }

    fn sell_volume(&self) -> (r: Option<i64>) {
        match self.bv {
            Some(b) => match self.v.checked_sub(b) {
                Some(d) => Some(d),
                None => None,
            },
            None => None,
        }
    }
}

/// Reduce a candle series to its summary: open of the first candle, close
/// of the last, highest high and lowest low over all candles, and the last
/// candle's volume figures. An empty series gives a zeroed summary.
pub fn aggregate(data: &[OHLC]) -> (r: SetAggregate)
    ensures
        data@.len() == 0 ==> r.o == 0 && r.h == 0 && r.l == 0 && r.c == 0 && r.bv is None
            && r.v == 0,
        data@.len() > 0 ==> {
            &&& r.o == data@[0].o
            &&& r.c == data@[data@.len() - 1].c
            &&& r.bv == data@[data@.len() - 1].bv
            &&& r.v == data@[data@.len() - 1].v
            &&& r.h == spec_max_high(data@)
            &&& r.l == spec_min_low(data@)
            &&& forall|i: int| 0 <= i < data@.len() ==> #[trigger] data@[i].h <= r.h
            &&& forall|i: int| 0 <= i < data@.len() ==> #[trigger] data@[i].l >= r.l
            &&& exists|i: int| 0 <= i < data@.len() && r.h == #[trigger] data@[i].h
            &&& exists|i: int| 0 <= i < data@.len() && r.l == #[trigger] data@[i].l
        },
{
    let n = data.len();
    if n == 0 {
        return SetAggregate { o: 0, h: 0, l: 0, c: 0, bv: None, v: 0 };
    }
    let first = data[0];
    let last = data[n - 1];
    let mut h = first.h;
    let mut l = first.l;
    let mut i: usize = 0;
    while i < n
        invariant
            0 < n == data@.len(),
            0 <= i <= n,
            i == 0 ==> h == data@[0].h && l == data@[0].l,
            i > 0 ==> h == spec_max_high(data@.take(i as int)),
            i > 0 ==> l == spec_min_low(data@.take(i as int)),
            forall|j: int| 0 <= j < i ==> #[trigger] data@[j].h <= h,
            forall|j: int| 0 <= j < i ==> #[trigger] data@[j].l >= l,
            i > 0 ==> exists|j: int| 0 <= j < i && h == #[trigger] data@[j].h,
            i > 0 ==> exists|j: int| 0 <= j < i && l == #[trigger] data@[j].l,
            i == 0 ==> exists|j: int| 0 <= j < n && h == #[trigger] data@[j].h,
            i == 0 ==> exists|j: int| 0 <= j < n && l == #[trigger] data@[j].l,
        decreases n - i,
    {
        let elem = &data[i];
        proof {
            assert(data@.take(i as int + 1).drop_last() =~= data@.take(i as int));
            assert(data@.take(i as int + 1).last() == data@[i as int]);
            assert(data@.take(i as int + 1)[0] == data@[0]);
        }
        if elem.h > h {
            h = elem.h;
        }
        if elem.l < l {
            l = elem.l;
        }
        i = i + 1;
    }
    proof {
        assert(data@.take(n as int) =~= data@);
    }
    SetAggregate { o: first.o, h, l, c: last.c, bv: last.bv, v: last.v }
}

/// Reduce a candle series to a single summary candle: open of the first,
/// close of the last, highest high and lowest low over all candles. An
/// empty series gives a zeroed candle.
pub fn calculate_ohlc_of_set(data: &[OHLC]) -> (r: OHLC)
    ensures
        data@.len() == 0 ==> r.o == 0 && r.h == 0 && r.l == 0 && r.c == 0,
        data@.len() > 0 ==> {
            &&& r.o == data@[0].o
            &&& r.c == data@[data@.len() - 1].c
            &&& forall|i: int| 0 <= i < data@.len() ==> #[trigger] data@[i].h <= r.h
            &&& forall|i: int| 0 <= i < data@.len() ==> #[trigger] data@[i].l >= r.l
            &&& exists|i: int| 0 <= i < data@.len() && r.h == #[trigger] data@[i].h
            &&& exists|i: int| 0 <= i < data@.len() && r.l == #[trigger] data@[i].l
        },
        r.bv is None,
        r.v == 0,
{
    let agg = aggregate(data);
    if data.len() == 0 {
        return OHLC::new();
    }
    OHLC { o: agg.o, h: agg.h, l: agg.l, c: agg.c, bv: None, v: 0 }
}

/// The decimal digit character of a value in 0..=9.
pub open spec fn spec_digit_char(d: int) -> char {
    if d == 0 {
        '0'
    } else if d == 1 {
        '1'
    } else if d == 2 {
        '2'
    } else if d == 3 {
        '3'
    } else if d == 4 {
        '4'
    } else if d == 5 {
        '5'
    } else if d == 6 {
        '6'
    } else if d == 7 {
        '7'
    } else if d == 8 {
        '8'
    } else {
        '9'
    }
}

/// The decimal digit string of a non-negative number, most significant
/// digit first, with no leading zeroes (zero itself is "0").
pub open spec fn spec_decimal(n: int) -> Seq<char>
    decreases n,
{
    if n < 0 {
        Seq::empty()
    } else if n < 10 {
        seq![spec_digit_char(n)]
    } else {
        spec_decimal(n / 10).push(spec_digit_char(n % 10))
    }
}

/// One decimal digit as a string slice.
fn digit_str(d: u64) -> (r: &'static str)
    requires
        d < 10,
    ensures
        r@ == seq![spec_digit_char(d as int)],
{
    proof {
        reveal_strlit("0");
        reveal_strlit("1");
        reveal_strlit("2");
        reveal_strlit("3");
        reveal_strlit("4");
        reveal_strlit("5");
        reveal_strlit("6");
        reveal_strlit("7");
        reveal_strlit("8");
        reveal_strlit("9");
    }
    let r = if d == 0 {
        "0"
    } else if d == 1 {
        "1"
    } else if d == 2 {
        "2"
    } else if d == 3 {
        "3"
    } else if d == 4 {
        "4"
    } else if d == 5 {
        "5"
    } else if d == 6 {
        "6"
    } else if d == 7 {
        "7"
    } else if d == 8 {
        "8"
    } else {
        "9"
    };
    proof {
        assert(r@ =~= seq![spec_digit_char(d as int)]);
    }
    r
}

/// The decimal digit string of a number, as `spec_decimal` states.
pub fn u64_to_string(n: u64) -> (r: String)
    ensures
        r@ == spec_decimal(n as int),
    decreases n,
{
    if n < 10 {
        String::from_str(digit_str(n))
    } else {
        let mut s = u64_to_string(n / 10);
        s.append(digit_str(n % 10));
        proof {
            assert(s@ =~= spec_decimal(n as int / 10).push(spec_digit_char(n as int % 10)));
        }
        s
    }
}

/// The decimal digit string of a signed number: a minus sign before the
/// digits of its magnitude.
pub open spec fn spec_i64_decimal(n: int) -> Seq<char> {
    if n < 0 {
        "-"@ + spec_decimal(-n)
    } else {
        spec_decimal(n)
    }
}

/// The decimal digit string of a signed number, as `spec_i64_decimal`
/// states.
pub fn i64_to_string(n: i64) -> (r: String)
    requires
        n > i64::MIN,
    ensures
        r@ == spec_i64_decimal(n as int),
{
    if n < 0 {
        let mut s = String::from_str("-");
        s.append(u64_to_string((-n) as u64).as_str());
        proof {
            assert(s@ =~= "-"@ + spec_decimal(-(n as int)));
        }
        s
    } else {
        u64_to_string(n as u64)
    }
}

/// How many seconds a minute, hour, day, week, month (30 days) and year
/// (365 days) last.
pub const LEN_OF_MINUTE: u64 = 60;

pub const LEN_OF_HOUR: u64 = 60 * LEN_OF_MINUTE;

pub const LEN_OF_DAY: u64 = 24 * LEN_OF_HOUR;

pub const LEN_OF_WEEK: u64 = 7 * LEN_OF_DAY;

pub const LEN_OF_MONTH: u64 = 30 * LEN_OF_DAY;

pub const LEN_OF_YEAR: u64 = 365 * LEN_OF_DAY;

/// The compact text of an elapsed duration: years, months, weeks, days,
/// hours, minutes and seconds, each written only when non-zero; anything
/// under ten seconds reads "Now".
pub open spec fn spec_duration_string(e: int) -> Seq<char> {
    if e < 10 {
        "Now"@
    } else {
        let secs = e % (LEN_OF_MINUTE as int);
        let mins = (e % (LEN_OF_HOUR as int)) / (LEN_OF_MINUTE as int);
        let hours = (e % (LEN_OF_DAY as int)) / (LEN_OF_HOUR as int);
        let days = (((e % (LEN_OF_YEAR as int)) % (LEN_OF_MONTH as int)) % (LEN_OF_WEEK as int))
            / (LEN_OF_DAY as int);
        let weeks = ((e % (LEN_OF_YEAR as int)) % (LEN_OF_MONTH as int)) / (LEN_OF_WEEK as int);
        let months = (e % (LEN_OF_YEAR as int)) / (LEN_OF_MONTH as int);
        let years = e / (LEN_OF_YEAR as int);
        spec_unit_part(years, "y"@) + spec_unit_part(months, "m"@) + spec_unit_part(
            weeks,
            "w"@,
        ) + spec_unit_part(days, "d"@) + spec_unit_part(hours, "h"@) + spec_unit_part(
            mins,
            "m"@,
        ) + spec_unit_part(secs, "s"@)
    }
}

/// Write an elapsed duration compactly, as `spec_duration_string` states:
/// for example one hour, one minute and one second read "1h1m1s".
#[verifier::rlimit(100)]
pub fn duration_string(elapsed: u64) -> (r: String)
    ensures
        r@ == spec_duration_string(elapsed as int),
{
    if elapsed < 10 {
        return String::from_str("Now");
    }
    let secs = elapsed % LEN_OF_MINUTE;
    let mins = (elapsed % LEN_OF_HOUR) / LEN_OF_MINUTE;
    let hours = (elapsed % LEN_OF_DAY) / LEN_OF_HOUR;
    let days = (((elapsed % LEN_OF_YEAR) % LEN_OF_MONTH) % LEN_OF_WEEK) / LEN_OF_DAY;
    let weeks = ((elapsed % LEN_OF_YEAR) % LEN_OF_MONTH) / LEN_OF_WEEK;
    let months = (elapsed % LEN_OF_YEAR) / LEN_OF_MONTH;
    let years = elapsed / LEN_OF_YEAR;
    let mut s = String::new();
    append_unit(&mut s, years, "y");
    append_unit(&mut s, months, "m");
    append_unit(&mut s, weeks, "w");
    append_unit(&mut s, days, "d");
    append_unit(&mut s, hours, "h");
    append_unit(&mut s, mins, "m");
    append_unit(&mut s, secs, "s");
    proof {
        assert(s@ =~= spec_duration_string(elapsed as int));
    }
    s
}

/// The text of one duration component: its value and unit letter when the
/// value is non-zero, nothing otherwise.
pub open spec fn spec_unit_part(value: int, unit: Seq<char>) -> Seq<char> {
    if value > 0 {
        spec_decimal(value) + unit
    } else {
        Seq::empty()
    }
}

/// Append one duration component, as `spec_unit_part` states.
fn append_unit(s: &mut String, value: u64, unit: &'static str)
    ensures
        final(s)@ == old(s)@ + spec_unit_part(value as int, unit@),
{
    if value > 0 {
        s.append(u64_to_string(value).as_str());
        s.append(unit);
    }
    proof {
        assert(s@ =~= old(s)@ + spec_unit_part(value as int, unit@));
    }
}

} // verus!
