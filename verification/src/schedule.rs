//! Schedule definitions and their compilation into Windows Task Scheduler
//! (`schtasks`) arguments plus a human readable summary.
use crate::text::{
    join,
    split_on_chars, split_whitespace,
    chars_eq_str, contains_char, copy_range, matches_at, parse_u32, split_once_char, str_chars, to_ascii_upper,
    ascii_upper, parse_u32_spec, split_on, split_once, split_ws, starts_with,
    str_eq, decimal, digits_value, is_digit, owned, push_chars, push_decimal, push_decimal_padded, push_str,
    string_from_chars, trim, trim_str, zero_pad, is_ws, lemma_trim_starts_non_ws,
    lemma_split_once_absent, lemma_two_digits, trim_start, trim_end,
};
use vstd::prelude::*;
use vstd::utf8::*;

verus! {

/// Largest trigger delay `schtasks /DELAY` accepts: `9999:59` (mmmm:ss).
pub const MAX_TRIGGER_DELAY_SECONDS: u32 = 599999;

/// A day of the week.
#[derive(Debug, Clone, Copy, PartialEq, Eq, Structural, PartialOrd, Ord, Hash)]
pub enum Weekday {
    Monday,
    Tuesday,
    Wednesday,
    Thursday,
    Friday,
    Saturday,
    Sunday,
}

/// `schtasks` name of a weekday.
pub open spec fn weekday_name(d: Weekday) -> Seq<char> {
    match d {
        Weekday::Monday => "MON"@,
        Weekday::Tuesday => "TUE"@,
        Weekday::Wednesday => "WED"@,
        Weekday::Thursday => "THU"@,
        Weekday::Friday => "FRI"@,
        Weekday::Saturday => "SAT"@,
        Weekday::Sunday => "SUN"@,
    }
}

/// Display label of a weekday.
pub open spec fn weekday_label(d: Weekday) -> Seq<char> {
    match d {
        Weekday::Monday => "周一"@,
        Weekday::Tuesday => "周二"@,
        Weekday::Wednesday => "周三"@,
        Weekday::Thursday => "周四"@,
        Weekday::Friday => "周五"@,
        Weekday::Saturday => "周六"@,
        Weekday::Sunday => "周日"@,
    }
}

impl Weekday {
    /// The day's name in `schtasks /D` (`MON` ... `SUN`).
    pub fn schtasks_name(self) -> (r: &'static str)
        ensures
            r@ == weekday_name(self),
    {
        match self {
            Weekday::Monday => "MON",
            Weekday::Tuesday => "TUE",
            Weekday::Wednesday => "WED",
            Weekday::Thursday => "THU",
            Weekday::Friday => "FRI",
            Weekday::Saturday => "SAT",
            Weekday::Sunday => "SUN",
        }
    }

    /// The day's name as the summary shows it.
    pub fn label(self) -> (r: &'static str)
        ensures
            r@ == weekday_label(self),
    {
        match self {
            Weekday::Monday => "周一",
            Weekday::Tuesday => "周二",
            Weekday::Wednesday => "周三",
            Weekday::Thursday => "周四",
            Weekday::Friday => "周五",
            Weekday::Saturday => "周六",
            Weekday::Sunday => "周日",
        }
    }
}

/// A month of the year.
#[derive(Debug, Clone, Copy, PartialEq, Eq, Structural, PartialOrd, Ord, Hash)]
pub enum Month {
    January,
    February,
    March,
    April,
    May,
    June,
    July,
    August,
    September,
    October,
    November,
    December,
}

/// `schtasks` name of a month.
pub open spec fn month_name(m: Month) -> Seq<char> {
    match m {
        Month::January => "JAN"@,
        Month::February => "FEB"@,
        Month::March => "MAR"@,
        Month::April => "APR"@,
        Month::May => "MAY"@,
        Month::June => "JUN"@,
        Month::July => "JUL"@,
        Month::August => "AUG"@,
        Month::September => "SEP"@,
        Month::October => "OCT"@,
        Month::November => "NOV"@,
        Month::December => "DEC"@,
    }
}

/// Display label of a month.
pub open spec fn month_label(m: Month) -> Seq<char> {
    match m {
        Month::January => "1月"@,
        Month::February => "2月"@,
        Month::March => "3月"@,
        Month::April => "4月"@,
        Month::May => "5月"@,
        Month::June => "6月"@,
        Month::July => "7月"@,
        Month::August => "8月"@,
        Month::September => "9月"@,
        Month::October => "10月"@,
        Month::November => "11月"@,
        Month::December => "12月"@,
    }
}

/// The largest day number a month can have in any year.
pub open spec fn month_max_day(m: Month) -> u8 {
    match m {
        Month::February => 29,
        Month::April | Month::June | Month::September | Month::November => 30,
        _ => 31,
    }
}

impl Month {
    /// The month's name in `schtasks /M` (`JAN` ... `DEC`).
    pub fn schtasks_name(self) -> (r: &'static str)
        ensures
            r@ == month_name(self),
    {
        match self {
            Month::January => "JAN",
            Month::February => "FEB",
            Month::March => "MAR",
            Month::April => "APR",
            Month::May => "MAY",
            Month::June => "JUN",
            Month::July => "JUL",
            Month::August => "AUG",
            Month::September => "SEP",
            Month::October => "OCT",
            Month::November => "NOV",
            Month::December => "DEC",
        }
    }

    /// The month's name as the summary shows it.
    pub fn label(self) -> (r: &'static str)
        ensures
            r@ == month_label(self),
    {
        match self {
            Month::January => "1月",
            Month::February => "2月",
            Month::March => "3月",
            Month::April => "4月",
            Month::May => "5月",
            Month::June => "6月",
            Month::July => "7月",
            Month::August => "8月",
            Month::September => "9月",
            Month::October => "10月",
            Month::November => "11月",
            Month::December => "12月",
        }
    }

    /// The largest day the month can have (29 for February).
    pub fn maximum_day(self) -> (r: u8)
        ensures
            r == month_max_day(self),
    {
        match self {
            Month::February => 29,
            Month::April | Month::June | Month::September | Month::November => 30,
            _ => 31,
        }
    }
}

/// The day of a monthly trigger: a day number, or the month's last day.
#[derive(Debug, Clone, Copy, PartialEq, Eq, Structural)]
pub enum MonthlyDay {
    Day { day: u8 },
    LastDay,
}

/// The unit of a repetition interval.
#[derive(Debug, Clone, Copy, PartialEq, Eq, Structural)]
pub enum IntervalUnit {
    Minutes,
    Hours,
}

/// A trigger definition as the user configures it.
#[derive(Debug, Clone)]
pub enum ScheduleConfig {
    Daily { time: String, every_days: u16 },
    Weekly { time: String, every_weeks: u8, days: Vec<Weekday> },
    Monthly { time: String, day: MonthlyDay, months: Vec<Month> },
    Interval { unit: IntervalUnit, every: u16, start_time: String },
    AtLogon { delay_seconds: u32 },
    AtStartup { delay_seconds: u32 },
    Cron { expression: String },
}

/// Mathematical model of a [`ScheduleConfig`].
pub enum ScheduleSpec {
    Daily { time: Seq<char>, every_days: u16 },
    Weekly { time: Seq<char>, every_weeks: u8, days: Seq<Weekday> },
    Monthly { time: Seq<char>, day: MonthlyDay, months: Seq<Month> },
    Interval { unit: IntervalUnit, every: u16, start_time: Seq<char> },
    AtLogon { delay_seconds: u32 },
    AtStartup { delay_seconds: u32 },
    Cron { expression: Seq<char> },
}

impl View for ScheduleConfig {
    type V = ScheduleSpec;

    open spec fn view(&self) -> ScheduleSpec {
        match self {
            ScheduleConfig::Daily { time, every_days } => ScheduleSpec::Daily {
                time: time@,
                every_days: *every_days,
            },
            ScheduleConfig::Weekly { time, every_weeks, days } => ScheduleSpec::Weekly {
                time: time@,
                every_weeks: *every_weeks,
                days: days@,
            },
            ScheduleConfig::Monthly { time, day, months } => ScheduleSpec::Monthly {
                time: time@,
                day: *day,
                months: months@,
            },
            ScheduleConfig::Interval { unit, every, start_time } => ScheduleSpec::Interval {
                unit: *unit,
                every: *every,
                start_time: start_time@,
            },
            ScheduleConfig::AtLogon { delay_seconds } => ScheduleSpec::AtLogon {
                delay_seconds: *delay_seconds,
            },
            ScheduleConfig::AtStartup { delay_seconds } => ScheduleSpec::AtStartup {
                delay_seconds: *delay_seconds,
            },
            ScheduleConfig::Cron { expression } => ScheduleSpec::Cron { expression: expression@ },
        }
    }
}

/// The default schedule: daily at 08:40.
pub open spec fn default_schedule() -> ScheduleSpec {
    ScheduleSpec::Daily { time: "08:40"@, every_days: 1 }
}

impl ScheduleConfig {
    /// The default schedule (std's `Default`).
    pub fn default() -> (s: ScheduleConfig)
        ensures
            s@ == default_schedule(),
    {
        ScheduleConfig::Daily { time: owned("08:40"), every_days: 1 }
    }
}

/// A compiled trigger: `schtasks` arguments and a summary.
#[derive(Debug, Clone, PartialEq, Eq)]
pub struct CompiledSchedule {
    pub schtasks_args: Vec<String>,
    pub summary: String,
}

/// Model of a [`CompiledSchedule`].
pub struct CompiledSpec {
    pub args: Seq<Seq<char>>,
    pub summary: Seq<char>,
}

impl View for CompiledSchedule {
    type V = CompiledSpec;

    open spec fn view(&self) -> CompiledSpec {
        CompiledSpec { args: self.schtasks_args.deep_view(), summary: self.summary@ }
    }
}

/// Model of the result of compiling: the compiled trigger or the error text.
pub open spec fn compiled_view(r: Result<CompiledSchedule, String>) -> Result<CompiledSpec, Seq<char>> {
    match r {
        Ok(c) => Ok(c@),
        Err(e) => Err(e@),
    }
}

// ---------------------------------------------------------------------------
// Time of day.
// ---------------------------------------------------------------------------

/// `s` is two ASCII digits, `:`, two ASCII digits, with hour < 24 and
/// minute < 60.
pub open spec fn is_plain_hhmm(s: Seq<char>) -> bool {
    &&& s.len() == 5
    &&& s[2] == ':'
    &&& is_digit(s[0]) && is_digit(s[1]) && is_digit(s[3]) && is_digit(s[4])
    &&& digits_value(s.subrange(0, 2)) < 24
    &&& digits_value(s.subrange(3, 5)) < 60
}

/// Whether `c` is one of the ASCII characters that std counts as
/// whitespace: tab, line feed, vertical tab, form feed, carriage return and
/// space.
pub open spec fn is_ascii_ws(c: char) -> bool {
    ('\u{9}' <= c && c <= '\u{d}') || c == ' '
}

/// The five-character times of day that `%H:%M` reads: a two-digit hour
/// below 24, `:`, then a two-digit minute below 60, or one whitespace
/// character and a one-digit minute.
pub open spec fn hhmm_accepted(v: Seq<char>) -> bool {
    &&& v.len() == 5
    &&& v[2] == ':'
    &&& is_digit(v[0]) && is_digit(v[1]) && digits_value(v.subrange(0, 2)) < 24
    &&& is_digit(v[4])
    &&& (is_ascii_ws(v[3]) || (is_digit(v[3]) && digits_value(v.subrange(3, 5)) < 60))
}

/// Whether `chrono::NaiveTime::parse_from_str(s, "%H:%M")` succeeds, on a
/// string of five bytes with `:` third and no leading whitespace. There
/// chrono's parser (format/parse.rs) skips whitespace before each number,
/// reads one or two ASCII digits for the hour and for the minute, requires
/// the `:` between them and nothing after, and `Parsed::set_hour` and
/// `set_minute` refuse an hour above 23 and a minute above 59: the outcome
/// is [`hhmm_accepted`].
#[verifier::external_body]
fn naive_time_parses_hhmm(s: &str) -> (ok: bool)
    requires
        encode_utf8(s@).len() == 5,
        encode_utf8(s@)[2] == 58u8,
        !is_ws(s@[0]),
    ensures
        ok == hhmm_accepted(s@),
{
    chrono::NaiveTime::parse_from_str(s, "%H:%M").is_ok()
}

/// The check that `validate_time` performs on a configured time.
pub open spec fn time_check(t: Seq<char>) -> Result<(), Seq<char>> {
    let v = trim(t);
    if encode_utf8(v).len() != 5 || encode_utf8(v)[2] != 58u8 {
        Err("计划时间必须使用严格 HH:mm 格式"@)
    } else if !hhmm_accepted(v) {
        Err("计划时间必须是 00:00 到 23:59 的有效时间"@)
    } else {
        Ok(())
    }
}

/// A configured time that is, once trimmed, a plain `HH:MM` with an hour
/// below 24 and a minute below 60 passes the time check.
pub proof fn law_plain_time_is_accepted(t: Seq<char>)
    requires
        is_plain_hhmm(trim(t)),
    ensures
        time_check(t) is Ok,
{
    let v = trim(t);
    assert(is_ascii_chars(v));
    is_ascii_chars_encode_utf8(v);
    assert(encode_utf8(v)[2] == v[2] as u8);
}

/// Model of a `Result<(), String>`.
pub open spec fn unit_view(r: Result<(), String>) -> Result<(), Seq<char>> {
    match r {
        Ok(()) => Ok(()),
        Err(e) => Err(e@),
    }
}

/// Checks that `value` is a strict `HH:mm` time of day.
pub fn validate_time(value: &str) -> (r: Result<(), String>)
    ensures
        unit_view(r) == time_check(value@),
        is_plain_hhmm(trim(value@)) ==> r is Ok,
{
    proof {
        if is_plain_hhmm(trim(value@)) {
            law_plain_time_is_accepted(value@);
        }
    }
    let tv = trim_str(value);
    let ts = string_from_chars(&tv);
    let t: &str = ts.as_str();
    let bytes = t.as_bytes();
    if bytes.len() != 5 || bytes[2] != 58u8 {
        return Err(owned("计划时间必须使用严格 HH:mm 格式"));
    }
    proof {
        lemma_trim_starts_non_ws(value@);
        if ts@.len() == 0 {
            assert(encode_utf8(ts@).len() == 0);
        }
    }
    if !naive_time_parses_hhmm(t) {
        return Err(owned("计划时间必须是 00:00 到 23:59 的有效时间"));
    }
    Ok(())
}

// ---------------------------------------------------------------------------
// Ordered, duplicate-free selections of weekdays and months.
// ---------------------------------------------------------------------------

/// The weekday at position `i` of the week (Monday first).
pub open spec fn weekday_at(i: int) -> Weekday {
    if i == 0 {
        Weekday::Monday
    } else if i == 1 {
        Weekday::Tuesday
    } else if i == 2 {
        Weekday::Wednesday
    } else if i == 3 {
        Weekday::Thursday
    } else if i == 4 {
        Weekday::Friday
    } else if i == 5 {
        Weekday::Saturday
    } else {
        Weekday::Sunday
    }
}

/// The weekdays whose flag is set, in week order (Monday first).
pub open spec fn select_weekdays(flags: Seq<bool>) -> Seq<Weekday>
    decreases flags.len(),
{
    if flags.len() == 0 {
        seq![]
    } else {
        let prev = select_weekdays(flags.drop_last());
        if flags.last() {
            prev.push(weekday_at(flags.len() - 1))
        } else {
            prev
        }
    }
}

/// The month at position `i` of the year (January first).
pub open spec fn month_at(i: int) -> Month {
    if i == 0 {
        Month::January
    } else if i == 1 {
        Month::February
    } else if i == 2 {
        Month::March
    } else if i == 3 {
        Month::April
    } else if i == 4 {
        Month::May
    } else if i == 5 {
        Month::June
    } else if i == 6 {
        Month::July
    } else if i == 7 {
        Month::August
    } else if i == 8 {
        Month::September
    } else if i == 9 {
        Month::October
    } else if i == 10 {
        Month::November
    } else {
        Month::December
    }
}

/// The months whose flag is set, in calendar order.
pub open spec fn select_months(flags: Seq<bool>) -> Seq<Month>
    decreases flags.len(),
{
    if flags.len() == 0 {
        seq![]
    } else {
        let prev = select_months(flags.drop_last());
        if flags.last() {
            prev.push(month_at(flags.len() - 1))
        } else {
            prev
        }
    }
}

fn weekday_at_exec(i: usize) -> (d: Weekday)
    ensures
        d == weekday_at(i as int),
{
    if i == 0 {
        Weekday::Monday
    } else if i == 1 {
        Weekday::Tuesday
    } else if i == 2 {
        Weekday::Wednesday
    } else if i == 3 {
        Weekday::Thursday
    } else if i == 4 {
        Weekday::Friday
    } else if i == 5 {
        Weekday::Saturday
    } else {
        Weekday::Sunday
    }
}

fn month_at_exec(i: usize) -> (m: Month)
    ensures
        m == month_at(i as int),
{
    if i == 0 {
        Month::January
    } else if i == 1 {
        Month::February
    } else if i == 2 {
        Month::March
    } else if i == 3 {
        Month::April
    } else if i == 4 {
        Month::May
    } else if i == 5 {
        Month::June
    } else if i == 6 {
        Month::July
    } else if i == 7 {
        Month::August
    } else if i == 8 {
        Month::September
    } else if i == 9 {
        Month::October
    } else if i == 10 {
        Month::November
    } else {
        Month::December
    }
}

fn weekdays_where(flags: &Vec<bool>) -> (r: Vec<Weekday>)
    ensures
        r@ == select_weekdays(flags@),
{
    let mut r: Vec<Weekday> = Vec::new();
    let mut i: usize = 0;
    while i < flags.len()
        invariant
            i <= flags.len(),
            r@ == select_weekdays(flags@.take(i as int)),
        decreases flags.len() - i,
    {
        assert(flags@.take(i + 1).drop_last() =~= flags@.take(i as int));
        if flags[i] {
            r.push(weekday_at_exec(i));
        }
        i = i + 1;
    }
    assert(flags@.take(flags.len() as int) =~= flags@);
    r
}

fn months_where(flags: &Vec<bool>) -> (r: Vec<Month>)
    ensures
        r@ == select_months(flags@),
{
    let mut r: Vec<Month> = Vec::new();
    let mut i: usize = 0;
    while i < flags.len()
        invariant
            i <= flags.len(),
            r@ == select_months(flags@.take(i as int)),
        decreases flags.len() - i,
    {
        assert(flags@.take(i + 1).drop_last() =~= flags@.take(i as int));
        if flags[i] {
            r.push(month_at_exec(i));
        }
        i = i + 1;
    }
    assert(flags@.take(flags.len() as int) =~= flags@);
    r
}

/// For each weekday in week order, whether it occurs in `days`.
pub open spec fn weekday_flags(days: Seq<Weekday>) -> Seq<bool> {
    Seq::new(7, |i: int| days.contains(weekday_at(i)))
}

/// For each month in calendar order, whether it occurs in `months`.
pub open spec fn month_flags(months: Seq<Month>) -> Seq<bool> {
    Seq::new(12, |i: int| months.contains(month_at(i)))
}

fn contains_weekday(v: &Vec<Weekday>, d: Weekday) -> (r: bool)
    ensures
        r == v@.contains(d),
{
    let mut i: usize = 0;
    while i < v.len()
        invariant
            i <= v.len(),
            forall|k: int| 0 <= k < i ==> v@[k] != d,
        decreases v.len() - i,
    {
        if v[i] == d {
            return true;
        }
        i = i + 1;
    }
    false
}

fn contains_month(v: &Vec<Month>, m: Month) -> (r: bool)
    ensures
        r == v@.contains(m),
{
    let mut i: usize = 0;
    while i < v.len()
        invariant
            i <= v.len(),
            forall|k: int| 0 <= k < i ==> v@[k] != m,
        decreases v.len() - i,
    {
        if v[i] == m {
            return true;
        }
        i = i + 1;
    }
    false
}

/// The distinct weekdays of `days` in week order, or the error for an
/// empty selection.
pub open spec fn normalized_weekdays_spec(days: Seq<Weekday>) -> Result<Seq<Weekday>, Seq<char>> {
    let r = select_weekdays(weekday_flags(days));
    if r.len() == 0 {
        Err("每周触发至少选择一个星期"@)
    } else {
        Ok(r)
    }
}

/// Sorts and deduplicates the selected weekdays; fails when none is selected.
pub fn normalized_weekdays(days: &Vec<Weekday>) -> (r: Result<Vec<Weekday>, String>)
    ensures
        match r {
            Ok(v) => normalized_weekdays_spec(days@) == Ok::<Seq<Weekday>, Seq<char>>(v@),
            Err(e) => normalized_weekdays_spec(days@) == Err::<Seq<Weekday>, Seq<char>>(e@),
        },
{
    let mut flags: Vec<bool> = Vec::new();
    let mut i: usize = 0;
    while i < 7
        invariant
            i <= 7,
            flags@ == weekday_flags(days@).take(i as int),
        decreases 7 - i,
    {
        flags.push(contains_weekday(days, weekday_at_exec(i)));
        i = i + 1;
        assert(flags@ =~= weekday_flags(days@).take(i as int));
    }
    assert(flags@ =~= weekday_flags(days@));
    let r = weekdays_where(&flags);
    if r.len() == 0 {
        Err(owned("每周触发至少选择一个星期"))
    } else {
        Ok(r)
    }
}

/// The distinct months of `months` in calendar order.
pub open spec fn normalized_months_spec(months: Seq<Month>) -> Seq<Month> {
    select_months(month_flags(months))
}

/// Sorts and deduplicates the selected months.
pub fn normalized_months(months: &Vec<Month>) -> (r: Vec<Month>)
    ensures
        r@ == normalized_months_spec(months@),
{
    let mut flags: Vec<bool> = Vec::new();
    let mut i: usize = 0;
    while i < 12
        invariant
            i <= 12,
            flags@ == month_flags(months@).take(i as int),
        decreases 12 - i,
    {
        flags.push(contains_month(months, month_at_exec(i)));
        i = i + 1;
        assert(flags@ =~= month_flags(months@).take(i as int));
    }
    assert(flags@ =~= month_flags(months@));
    months_where(&flags)
}

} // verus!

verus! {

// ---------------------------------------------------------------------------
// Joining and argument lists.
// ---------------------------------------------------------------------------

/// `schtasks` names of the weekdays.
pub open spec fn weekday_names(days: Seq<Weekday>) -> Seq<Seq<char>> {
    days.map_values(|d: Weekday| weekday_name(d))
}

/// Labels of the weekdays.
pub open spec fn weekday_labels(days: Seq<Weekday>) -> Seq<Seq<char>> {
    days.map_values(|d: Weekday| weekday_label(d))
}

/// `schtasks` names of the months.
pub open spec fn month_names(months: Seq<Month>) -> Seq<Seq<char>> {
    months.map_values(|m: Month| month_name(m))
}

/// Labels of the months.
pub open spec fn month_labels(months: Seq<Month>) -> Seq<Seq<char>> {
    months.map_values(|m: Month| month_label(m))
}

/// Joins the names (or, with `labels`, the display labels) of weekdays.
fn join_weekdays(days: &Vec<Weekday>, labels: bool, sep: &str) -> (r: Vec<char>)
    ensures
        r@ == join(if labels { weekday_labels(days@) } else { weekday_names(days@) }, sep@),
{
    let ghost parts = if labels {
        weekday_labels(days@)
    } else {
        weekday_names(days@)
    };
    let mut r: Vec<char> = Vec::new();
    let mut i: usize = 0;
    while i < days.len()
        invariant
            i <= days.len(),
            parts.len() == days.len(),
            parts == (if labels { weekday_labels(days@) } else { weekday_names(days@) }),
            r@ == join(parts.take(i as int), sep@),
        decreases days.len() - i,
    {
        let d = days[i];
        let piece: &str = if labels {
            d.label()
        } else {
            d.schtasks_name()
        };
        assert(piece@ == parts[i as int]);
        assert(parts.take(i + 1).drop_last() =~= parts.take(i as int));
        if i > 0 {
            push_str(&mut r, sep);
        } else {
            assert(r@ =~= Seq::<char>::empty());
        }
        push_str(&mut r, piece);
        i = i + 1;
    }
    assert(parts.take(days.len() as int) =~= parts);
    r
}

/// Joins the names (or, with `labels`, the display labels) of months.
fn join_months(months: &Vec<Month>, labels: bool, sep: &str) -> (r: Vec<char>)
    ensures
        r@ == join(if labels { month_labels(months@) } else { month_names(months@) }, sep@),
{
    let ghost parts = if labels {
        month_labels(months@)
    } else {
        month_names(months@)
    };
    let mut r: Vec<char> = Vec::new();
    let mut i: usize = 0;
    while i < months.len()
        invariant
            i <= months.len(),
            parts.len() == months.len(),
            parts == (if labels { month_labels(months@) } else { month_names(months@) }),
            r@ == join(parts.take(i as int), sep@),
        decreases months.len() - i,
    {
        let m = months[i];
        let piece: &str = if labels {
            m.label()
        } else {
            m.schtasks_name()
        };
        assert(piece@ == parts[i as int]);
        assert(parts.take(i + 1).drop_last() =~= parts.take(i as int));
        if i > 0 {
            push_str(&mut r, sep);
        } else {
            assert(r@ =~= Seq::<char>::empty());
        }
        push_str(&mut r, piece);
        i = i + 1;
    }
    assert(parts.take(months.len() as int) =~= parts);
    r
}

/// Appends `s` as one argument.
fn push_arg(args: &mut Vec<String>, s: &str)
    ensures
        final(args).deep_view() == old(args).deep_view().push(s@),
{
    let ghost before = args.deep_view();
    args.push(owned(s));
    assert(args.deep_view() =~= before.push(s@));
}

/// Appends the characters `v` as one argument.
fn push_arg_chars(args: &mut Vec<String>, v: &Vec<char>)
    ensures
        final(args).deep_view() == old(args).deep_view().push(v@),
{
    let ghost before = args.deep_view();
    args.push(string_from_chars(v));
    assert(args.deep_view() =~= before.push(v@));
}

// ---------------------------------------------------------------------------
// Compiling the visual schedule kinds.
// ---------------------------------------------------------------------------

/// Position of the first month in `ms` that has no day `day`.
pub open spec fn first_short_month(ms: Seq<Month>, day: u8) -> Option<int>
    decreases ms.len(),
{
    if ms.len() == 0 {
        None
    } else if day > month_max_day(ms[0]) {
        Some(0)
    } else {
        match first_short_month(ms.drop_first(), day) {
            Some(i) => Some(i + 1),
            None => None,
        }
    }
}

/// An event-triggered (logon/startup) schedule.
pub open spec fn event_spec(schedule_type: Seq<char>, label: Seq<char>, delay_seconds: u32) -> Result<CompiledSpec, Seq<char>> {
    if delay_seconds > MAX_TRIGGER_DELAY_SECONDS {
        Err("触发延迟不能超过 "@ + decimal(MAX_TRIGGER_DELAY_SECONDS as nat) + " 秒"@)
    } else if delay_seconds == 0 {
        Ok(CompiledSpec { args: seq!["/SC"@, schedule_type], summary: label })
    } else {
        Ok(
            CompiledSpec {
                args: seq![
                    "/SC"@,
                    schedule_type,
                    "/DELAY"@,
                    zero_pad(decimal((delay_seconds / 60) as nat), 4) + ":"@ + zero_pad(
                        decimal((delay_seconds % 60) as nat),
                        2,
                    ),
                ],
                summary: label + "延迟 "@ + decimal(delay_seconds as nat) + " 秒"@,
            },
        )
    }
}

/// Compilation of every schedule kind but `Cron`.
pub open spec fn compile_basic_spec(s: ScheduleSpec) -> Result<CompiledSpec, Seq<char>> {
    match s {
        ScheduleSpec::Daily { time, every_days } => {
            let t = trim(time);
            if time_check(time) is Err {
                Err(time_check(time)->Err_0)
            } else if !(1 <= every_days <= 365) {
                Err("每日触发间隔必须在 1..=365 天之间"@)
            } else {
                Ok(
                    CompiledSpec {
                        args: seq!["/SC"@, "DAILY"@, "/MO"@, decimal(every_days as nat), "/ST"@, t],
                        summary: if every_days == 1 {
                            "每天 "@ + t
                        } else {
                            "每 "@ + decimal(every_days as nat) + " 天 "@ + t
                        },
                    },
                )
            }
        },
        ScheduleSpec::Weekly { time, every_weeks, days } => {
            let t = trim(time);
            if time_check(time) is Err {
                Err(time_check(time)->Err_0)
            } else if !(1 <= every_weeks <= 52) {
                Err("每周触发间隔必须在 1..=52 周之间"@)
            } else if normalized_weekdays_spec(days) is Err {
                Err(normalized_weekdays_spec(days)->Err_0)
            } else {
                let ds = normalized_weekdays_spec(days)->Ok_0;
                let day_argument = join(weekday_names(ds), ","@);
                let day_summary = join(weekday_labels(ds), "、"@);
                Ok(
                    CompiledSpec {
                        args: seq![
                            "/SC"@,
                            "WEEKLY"@,
                            "/MO"@,
                            decimal(every_weeks as nat),
                            "/D"@,
                            day_argument,
                            "/ST"@,
                            t,
                        ],
                        summary: if every_weeks == 1 {
                            "每周 "@ + day_summary + " "@ + t
                        } else {
                            "每 "@ + decimal(every_weeks as nat) + " 周 "@ + day_summary + " "@ + t
                        },
                    },
                )
            }
        },
        ScheduleSpec::Monthly { time, day, months } => {
            let t = trim(time);
            let ms = normalized_months_spec(months);
            let d: u8 = match day {
                MonthlyDay::Day { day: d } => d,
                MonthlyDay::LastDay => 0,
            };
            if time_check(time) is Err {
                Err(time_check(time)->Err_0)
            } else if day is Day && !(1 <= d <= 31) {
                Err("每月触发日期必须在 1..=31 之间"@)
            } else if day is Day && first_short_month(ms, d) is Some {
                let m = ms[first_short_month(ms, d)->Some_0];
                Err(month_label(m) + " 不存在第 "@ + decimal(d as nat) + " 天"@)
            } else {
                let month_argument = if ms.len() == 0 {
                    "*"@
                } else {
                    join(month_names(ms), ","@)
                };
                let month_summary = if ms.len() == 0 {
                    "每月"@
                } else {
                    join(month_labels(ms), "、"@)
                };
                let day_args = match day {
                    MonthlyDay::Day { day: d } => seq!["/D"@, decimal(d as nat)],
                    MonthlyDay::LastDay => seq!["/MO"@, "LASTDAY"@],
                };
                let day_summary = match day {
                    MonthlyDay::Day { day: d } => decimal(d as nat) + "日"@,
                    MonthlyDay::LastDay => "最后一天"@,
                };
                Ok(
                    CompiledSpec {
                        args: seq!["/SC"@, "MONTHLY"@] + day_args + seq![
                            "/M"@,
                            month_argument,
                            "/ST"@,
                            t,
                        ],
                        summary: month_summary + day_summary + " "@ + t,
                    },
                )
            }
        },
        ScheduleSpec::Interval { unit, every, start_time } => {
            let t = trim(start_time);
            let schedule_type = match unit {
                IntervalUnit::Minutes => "MINUTE"@,
                IntervalUnit::Hours => "HOURLY"@,
            };
            let max: u32 = match unit {
                IntervalUnit::Minutes => 1439,
                IntervalUnit::Hours => 23,
            };
            let unit_label = match unit {
                IntervalUnit::Minutes => "分钟"@,
                IntervalUnit::Hours => "小时"@,
            };
            if time_check(start_time) is Err {
                Err(time_check(start_time)->Err_0)
            } else if every == 0 || every > max {
                Err(unit_label + "间隔必须在 1..="@ + decimal(max as nat) + " 之间"@)
            } else {
                Ok(
                    CompiledSpec {
                        args: seq!["/SC"@, schedule_type, "/MO"@, decimal(every as nat), "/ST"@, t],
                        summary: "从 "@ + t + " 起每 "@ + decimal(every as nat) + " "@ + unit_label,
                    },
                )
            }
        },
        ScheduleSpec::AtLogon { delay_seconds } => event_spec("ONLOGON"@, "用户登录时"@, delay_seconds),
        ScheduleSpec::AtStartup { delay_seconds } => event_spec(
            "ONSTART"@,
            "Windows 启动时"@,
            delay_seconds,
        ),
        ScheduleSpec::Cron { .. } => Err(seq![]),
    }
}

fn compile_event_schedule(schedule_type: &str, label: &str, delay_seconds: u32) -> (r: Result<
    CompiledSchedule,
    String,
>)
    ensures
        compiled_view(r) == event_spec(schedule_type@, label@, delay_seconds),
{
    if delay_seconds > MAX_TRIGGER_DELAY_SECONDS {
        let mut m: Vec<char> = Vec::new();
        push_str(&mut m, "触发延迟不能超过 ");
        push_decimal(&mut m, MAX_TRIGGER_DELAY_SECONDS as u64);
        push_str(&mut m, " 秒");
        assert(m@ =~= "触发延迟不能超过 "@ + decimal(MAX_TRIGGER_DELAY_SECONDS as nat) + " 秒"@);
        return Err(string_from_chars(&m));
    }
    let mut args: Vec<String> = Vec::new();
    push_arg(&mut args, "/SC");
    push_arg(&mut args, schedule_type);
    let mut summary: Vec<char> = Vec::new();
    push_str(&mut summary, label);
    if delay_seconds != 0 {
        let minutes = delay_seconds / 60;
        let seconds = delay_seconds % 60;
        let mut delay: Vec<char> = Vec::new();
        push_decimal_padded(&mut delay, minutes as u64, 4);
        push_str(&mut delay, ":");
        push_decimal_padded(&mut delay, seconds as u64, 2);
        push_arg(&mut args, "/DELAY");
        push_arg_chars(&mut args, &delay);
        push_str(&mut summary, "延迟 ");
        push_decimal(&mut summary, delay_seconds as u64);
        push_str(&mut summary, " 秒");
        assert(delay@ =~= zero_pad(decimal(minutes as nat), 4) + ":"@ + zero_pad(
            decimal(seconds as nat),
            2,
        ));
        assert(args.deep_view() =~~= seq!["/SC"@, schedule_type@, "/DELAY"@, delay@]);
        assert(summary@ =~= label@ + "延迟 "@ + decimal(delay_seconds as nat) + " 秒"@);
    } else {
        assert(args.deep_view() =~~= seq!["/SC"@, schedule_type@]);
        assert(summary@ =~= label@);
    }
    let r = CompiledSchedule { schtasks_args: args, summary: string_from_chars(&summary) };
    Ok(r)
}

} // verus!

verus! {

fn err_text(r: Result<(), String>) -> (e: String)
    requires
        r is Err,
    ensures
        unit_view(r) == Err::<(), Seq<char>>(e@),
{
    match r {
        Err(e) => e,
        Ok(()) => owned(""),
    }
}

fn compile_daily(time: &String, every_days: u16) -> (r: Result<CompiledSchedule, String>)
    ensures
        compiled_view(r) == compile_basic_spec(
            ScheduleSpec::Daily { time: time@, every_days: every_days },
        ),
{
    let checked = validate_time(time.as_str());
    if checked.is_err() {
        return Err(err_text(checked));
    }
    if !(1 <= every_days && every_days <= 365) {
        return Err(owned("每日触发间隔必须在 1..=365 天之间"));
    }
    let t = trim_str(time.as_str());
    let mut n: Vec<char> = Vec::new();
    push_decimal(&mut n, every_days as u64);
    assert(n@ =~= decimal(every_days as nat));
    let mut args: Vec<String> = Vec::new();
    push_arg(&mut args, "/SC");
    push_arg(&mut args, "DAILY");
    push_arg(&mut args, "/MO");
    push_arg_chars(&mut args, &n);
    push_arg(&mut args, "/ST");
    push_arg_chars(&mut args, &t);
    let mut summary: Vec<char> = Vec::new();
    if every_days == 1 {
        push_str(&mut summary, "每天 ");
        push_chars(&mut summary, &t);
        assert(summary@ =~= "每天 "@ + t@);
    } else {
        push_str(&mut summary, "每 ");
        push_chars(&mut summary, &n);
        push_str(&mut summary, " 天 ");
        push_chars(&mut summary, &t);
        assert(summary@ =~= "每 "@ + n@ + " 天 "@ + t@);
    }
    assert(args.deep_view() =~~= seq!["/SC"@, "DAILY"@, "/MO"@, n@, "/ST"@, t@]);
    let r = CompiledSchedule { schtasks_args: args, summary: string_from_chars(&summary) };
    assert(compiled_view(Ok(r)) =~~= compile_basic_spec(
        ScheduleSpec::Daily { time: time@, every_days: every_days },
    ));
    Ok(r)
}

fn compile_weekly(time: &String, every_weeks: u8, days: &Vec<Weekday>) -> (r: Result<
    CompiledSchedule,
    String,
>)
    ensures
        compiled_view(r) == compile_basic_spec(
            ScheduleSpec::Weekly { time: time@, every_weeks: every_weeks, days: days@ },
        ),
{
    let checked = validate_time(time.as_str());
    if checked.is_err() {
        return Err(err_text(checked));
    }
    if !(1 <= every_weeks && every_weeks <= 52) {
        return Err(owned("每周触发间隔必须在 1..=52 周之间"));
    }
    let ds = match normalized_weekdays(days) {
        Ok(ds) => ds,
        Err(e) => {
            return Err(e);
        },
    };
    let t = trim_str(time.as_str());
    let day_argument = join_weekdays(&ds, false, ",");
    let day_summary = join_weekdays(&ds, true, "、");
    let mut n: Vec<char> = Vec::new();
    push_decimal(&mut n, every_weeks as u64);
    assert(n@ =~= decimal(every_weeks as nat));
    let mut args: Vec<String> = Vec::new();
    push_arg(&mut args, "/SC");
    push_arg(&mut args, "WEEKLY");
    push_arg(&mut args, "/MO");
    push_arg_chars(&mut args, &n);
    push_arg(&mut args, "/D");
    push_arg_chars(&mut args, &day_argument);
    push_arg(&mut args, "/ST");
    push_arg_chars(&mut args, &t);
    let mut summary: Vec<char> = Vec::new();
    if every_weeks == 1 {
        push_str(&mut summary, "每周 ");
        push_chars(&mut summary, &day_summary);
        push_str(&mut summary, " ");
        push_chars(&mut summary, &t);
        assert(summary@ =~= "每周 "@ + day_summary@ + " "@ + t@);
    } else {
        push_str(&mut summary, "每 ");
        push_chars(&mut summary, &n);
        push_str(&mut summary, " 周 ");
        push_chars(&mut summary, &day_summary);
        push_str(&mut summary, " ");
        push_chars(&mut summary, &t);
        assert(summary@ =~= "每 "@ + n@ + " 周 "@ + day_summary@ + " "@ + t@);
    }
    assert(args.deep_view() =~~= seq![
        "/SC"@,
        "WEEKLY"@,
        "/MO"@,
        n@,
        "/D"@,
        day_argument@,
        "/ST"@,
        t@,
    ]);
    let r = CompiledSchedule { schtasks_args: args, summary: string_from_chars(&summary) };
    assert(compiled_view(Ok(r)) =~~= compile_basic_spec(
        ScheduleSpec::Weekly { time: time@, every_weeks: every_weeks, days: days@ },
    ));
    Ok(r)
}

fn find_short_month(ms: &Vec<Month>, day: u8) -> (r: Option<usize>)
    ensures
        match r {
            Some(i) => first_short_month(ms@, day) == Some(i as int) && i < ms.len(),
            None => first_short_month(ms@, day) is None,
        },
{
    let mut i: usize = 0;
    assert(ms@.skip(0) =~= ms@);
    while i < ms.len()
        invariant
            i <= ms.len(),
            forall|k: int| 0 <= k < i ==> day <= month_max_day(#[trigger] ms@[k]),
            first_short_month(ms@, day) == (match first_short_month(ms@.skip(i as int), day) {
                Some(j) => Some(j + i),
                None => None,
            }),
        decreases ms.len() - i,
    {
        let ghost rest = ms@.skip(i as int);
        assert(rest.drop_first() =~= ms@.skip(i + 1));
        assert(rest[0] == ms@[i as int]);
        if day > ms[i].maximum_day() {
            return Some(i);
        }
        i = i + 1;
    }
    assert(ms@.skip(i as int) =~= Seq::<Month>::empty());
    None
}

fn compile_monthly(time: &String, day: MonthlyDay, months: &Vec<Month>) -> (r: Result<
    CompiledSchedule,
    String,
>)
    ensures
        compiled_view(r) == compile_basic_spec(
            ScheduleSpec::Monthly { time: time@, day: day, months: months@ },
        ),
{
    let checked = validate_time(time.as_str());
    if checked.is_err() {
        return Err(err_text(checked));
    }
    let ms = normalized_months(months);
    assert(ms@.skip(0) =~= ms@);
    if let MonthlyDay::Day { day: d } = day {
        if !(1 <= d && d <= 31) {
            return Err(owned("每月触发日期必须在 1..=31 之间"));
        }
        if let Some(i) = find_short_month(&ms, d) {
            let mut m: Vec<char> = Vec::new();
            push_str(&mut m, ms[i].label());
            push_str(&mut m, " 不存在第 ");
            push_decimal(&mut m, d as u64);
            push_str(&mut m, " 天");
            assert(m@ =~= month_label(ms@[i as int]) + " 不存在第 "@ + decimal(d as nat) + " 天"@);
            return Err(string_from_chars(&m));
        }
    }
    let t = trim_str(time.as_str());
    let mut month_argument: Vec<char> = Vec::new();
    let mut month_summary: Vec<char> = Vec::new();
    if ms.len() == 0 {
        push_str(&mut month_argument, "*");
        push_str(&mut month_summary, "每月");
        assert(month_argument@ =~= "*"@);
        assert(month_summary@ =~= "每月"@);
    } else {
        month_argument = join_months(&ms, false, ",");
        month_summary = join_months(&ms, true, "、");
    }
    let mut args: Vec<String> = Vec::new();
    push_arg(&mut args, "/SC");
    push_arg(&mut args, "MONTHLY");
    let mut summary: Vec<char> = Vec::new();
    push_chars(&mut summary, &month_summary);
    let ghost day_args: Seq<Seq<char>>;
    let ghost day_summary: Seq<char>;
    match day {
        MonthlyDay::Day { day: d } => {
            let mut n: Vec<char> = Vec::new();
            push_decimal(&mut n, d as u64);
            assert(n@ =~= decimal(d as nat));
            push_arg(&mut args, "/D");
            push_arg_chars(&mut args, &n);
            push_chars(&mut summary, &n);
            push_str(&mut summary, "日");
            proof {
                day_args = seq!["/D"@, n@];
                day_summary = n@ + "日"@;
            }
        },
        MonthlyDay::LastDay => {
            push_arg(&mut args, "/MO");
            push_arg(&mut args, "LASTDAY");
            push_str(&mut summary, "最后一天");
            proof {
                day_args = seq!["/MO"@, "LASTDAY"@];
                day_summary = "最后一天"@;
            }
        },
    }
    push_arg(&mut args, "/M");
    push_arg_chars(&mut args, &month_argument);
    push_arg(&mut args, "/ST");
    push_arg_chars(&mut args, &t);
    push_str(&mut summary, " ");
    push_chars(&mut summary, &t);
    assert(summary@ =~= month_summary@ + day_summary + " "@ + t@);
    assert(args.deep_view() =~~= seq!["/SC"@, "MONTHLY"@] + day_args + seq![
        "/M"@,
        month_argument@,
        "/ST"@,
        t@,
    ]);
    let r = CompiledSchedule { schtasks_args: args, summary: string_from_chars(&summary) };
    assert(compiled_view(Ok(r)) =~~= compile_basic_spec(
        ScheduleSpec::Monthly { time: time@, day: day, months: months@ },
    ));
    Ok(r)
}

fn compile_interval(unit: IntervalUnit, every: u16, start_time: &String) -> (r: Result<
    CompiledSchedule,
    String,
>)
    ensures
        compiled_view(r) == compile_basic_spec(
            ScheduleSpec::Interval { unit: unit, every: every, start_time: start_time@ },
        ),
{
    let checked = validate_time(start_time.as_str());
    if checked.is_err() {
        return Err(err_text(checked));
    }
    let (schedule_type, max, unit_label): (&str, u32, &str) = match unit {
        IntervalUnit::Minutes => ("MINUTE", 1439, "分钟"),
        IntervalUnit::Hours => ("HOURLY", 23, "小时"),
    };
    if every == 0 || every as u32 > max {
        let mut m: Vec<char> = Vec::new();
        push_str(&mut m, unit_label);
        push_str(&mut m, "间隔必须在 1..=");
        push_decimal(&mut m, max as u64);
        push_str(&mut m, " 之间");
        assert(m@ =~= unit_label@ + "间隔必须在 1..="@ + decimal(max as nat) + " 之间"@);
        return Err(string_from_chars(&m));
    }
    let t = trim_str(start_time.as_str());
    let mut n: Vec<char> = Vec::new();
    push_decimal(&mut n, every as u64);
    assert(n@ =~= decimal(every as nat));
    let mut args: Vec<String> = Vec::new();
    push_arg(&mut args, "/SC");
    push_arg(&mut args, schedule_type);
    push_arg(&mut args, "/MO");
    push_arg_chars(&mut args, &n);
    push_arg(&mut args, "/ST");
    push_arg_chars(&mut args, &t);
    let mut summary: Vec<char> = Vec::new();
    push_str(&mut summary, "从 ");
    push_chars(&mut summary, &t);
    push_str(&mut summary, " 起每 ");
    push_chars(&mut summary, &n);
    push_str(&mut summary, " ");
    push_str(&mut summary, unit_label);
    assert(summary@ =~= "从 "@ + t@ + " 起每 "@ + n@ + " "@ + unit_label@);
    assert(args.deep_view() =~~= seq!["/SC"@, schedule_type@, "/MO"@, n@, "/ST"@, t@]);
    let r = CompiledSchedule { schtasks_args: args, summary: string_from_chars(&summary) };
    assert(compiled_view(Ok(r)) =~~= compile_basic_spec(
        ScheduleSpec::Interval { unit: unit, every: every, start_time: start_time@ },
    ));
    Ok(r)
}

} // verus!

verus! {

// ---------------------------------------------------------------------------
// Cron: the five-field subset that maps onto a single Windows trigger.
// ---------------------------------------------------------------------------

/// Whether a cron field uses list, range, step or wildcard syntax.
pub open spec fn has_cron_operator(v: Seq<char>) -> bool {
    v.contains(',') || v.contains('-') || v.contains('/') || v.contains('*')
}

/// A single number in `min..=max`, or the error naming `label`.
pub open spec fn exact_spec(value: Seq<char>, min: u32, max: u32, label: Seq<char>) -> Result<u32, Seq<char>> {
    if has_cron_operator(value) {
        Err("Cron "@ + label + " 必须是单一数值"@)
    } else {
        match parse_u32_spec(value) {
            None => Err("Cron "@ + label + " 不是有效整数: "@ + value),
            Some(n) => if !(min <= n && n <= max) {
                Err(
                    "Cron "@ + label + " 必须在 "@ + decimal(min as nat) + "..="@ + decimal(
                        max as nat,
                    ) + " 之间"@,
                )
            } else {
                Ok(n)
            },
        }
    }
}

/// `*/N` with `N` a single number in `min..=max`; `None` when the field is
/// not of that form.
pub open spec fn wildcard_step_spec(value: Seq<char>, min: u32, max: u32, label: Seq<char>) -> Result<Option<u32>, Seq<char>> {
    if starts_with(value, "*/"@) {
        match exact_spec(value.skip(2), min, max, label) {
            Ok(n) => Ok(Some(n)),
            Err(e) => Err(e),
        }
    } else {
        Ok(None)
    }
}

/// `S/N` or `*/N` in the hour field: the start hour and the step.
pub open spec fn hour_step_spec(value: Seq<char>) -> Result<Option<(u32, u32)>, Seq<char>> {
    match split_once(value, '/') {
        None => Ok(None),
        Some((start, step)) => {
            let s = if start == "*"@ {
                Ok(0u32)
            } else {
                exact_spec(start, 0, 23, "hour step start"@)
            };
            match s {
                Err(e) => Err(e),
                Ok(sv) => match exact_spec(step, 1, 23, "hour step"@) {
                    Err(e) => Err(e),
                    Ok(st) => Ok(Some((sv, st))),
                },
            }
        },
    }
}

/// All of `fields` are `*`; otherwise the step/date combination error.
pub open spec fn require_wildcards_spec(fields: Seq<Seq<char>>) -> Result<(), Seq<char>> {
    if forall|i: int| 0 <= i < fields.len() ==> fields[i] == "*"@ {
        Ok(())
    } else {
        Err("该 Cron step 与日期限制组合无法映射为单个 Windows 触发器"@)
    }
}

/// Number of a weekday name (upper case) in cron.
pub open spec fn weekday_name_value(u: Seq<char>) -> Option<u32> {
    if u == "SUN"@ {
        Some(0)
    } else if u == "MON"@ {
        Some(1)
    } else if u == "TUE"@ {
        Some(2)
    } else if u == "WED"@ {
        Some(3)
    } else if u == "THU"@ {
        Some(4)
    } else if u == "FRI"@ {
        Some(5)
    } else if u == "SAT"@ {
        Some(6)
    } else {
        None
    }
}

/// Number of a month name (upper case) in cron.
pub open spec fn month_name_value(u: Seq<char>) -> Option<u32> {
    if u == "JAN"@ {
        Some(1)
    } else if u == "FEB"@ {
        Some(2)
    } else if u == "MAR"@ {
        Some(3)
    } else if u == "APR"@ {
        Some(4)
    } else if u == "MAY"@ {
        Some(5)
    } else if u == "JUN"@ {
        Some(6)
    } else if u == "JUL"@ {
        Some(7)
    } else if u == "AUG"@ {
        Some(8)
    } else if u == "SEP"@ {
        Some(9)
    } else if u == "OCT"@ {
        Some(10)
    } else if u == "NOV"@ {
        Some(11)
    } else if u == "DEC"@ {
        Some(12)
    } else {
        None
    }
}

/// A cron name (case-insensitive) or a number in `min..=max`.
pub open spec fn named_value_spec(value: Seq<char>, min: u32, max: u32, weekday: bool, label: Seq<char>) -> Result<u32, Seq<char>> {
    let upper = value.map_values(|c: char| ascii_upper(c));
    let named = if weekday {
        weekday_name_value(upper)
    } else {
        month_name_value(upper)
    };
    match named {
        Some(n) => Ok(n),
        None => exact_spec(value, min, max, label),
    }
}

/// The numbers one comma-separated part of a cron set denotes.
pub open spec fn part_values_spec(part: Seq<char>, min: u32, max: u32, weekday: bool, label: Seq<char>) -> Result<Set<u32>, Seq<char>> {
    if part.len() == 0 || part.contains('*') || part.contains('/') {
        Err("Cron "@ + label + " 集合不支持该语法: "@ + part)
    } else {
        match split_once(part, '-') {
            Some((a, b)) => match named_value_spec(a, min, max, weekday, label) {
                Err(e) => Err(e),
                Ok(na) => match named_value_spec(b, min, max, weekday, label) {
                    Err(e) => Err(e),
                    Ok(nb) => if na > nb {
                        Err("Cron "@ + label + " 范围起点不能大于终点"@)
                    } else {
                        Ok(Set::new(|n: u32| na <= n && n <= nb))
                    },
                },
            },
            None => match named_value_spec(part, min, max, weekday, label) {
                Err(e) => Err(e),
                Ok(n) => Ok(set![n]),
            },
        }
    }
}

/// The union of the numbers of `parts`, or the first error from the left.
pub open spec fn named_parts_spec(parts: Seq<Seq<char>>, min: u32, max: u32, weekday: bool, label: Seq<char>) -> Result<Set<u32>, Seq<char>>
    decreases parts.len(),
{
    if parts.len() == 0 {
        Ok(Set::empty())
    } else {
        match named_parts_spec(parts.drop_last(), min, max, weekday, label) {
            Err(e) => Err(e),
            Ok(acc) => match part_values_spec(parts.last(), min, max, weekday, label) {
                Err(e) => Err(e),
                Ok(vs) => Ok(acc.union(vs)),
            },
        }
    }
}

/// A comma-separated cron set of names, numbers and ranges.
pub open spec fn named_set_spec(value: Seq<char>, min: u32, max: u32, weekday: bool, label: Seq<char>) -> Result<Set<u32>, Seq<char>> {
    match named_parts_spec(split_on(value, ',', ','), min, max, weekday, label) {
        Err(e) => Err(e),
        Ok(s) => if s == Set::<u32>::empty() {
            Err("Cron "@ + label + " 不能为空"@)
        } else {
            Ok(s)
        },
    }
}

/// Cron number of the weekday at position `i` of the week (Sunday is 0).
pub open spec fn cron_weekday_number(i: int) -> u32 {
    if i == 6 {
        0
    } else {
        (i + 1) as u32
    }
}

/// The weekdays a cron day-of-week field selects, in week order.
pub open spec fn weekday_set_spec(value: Seq<char>) -> Result<Seq<Weekday>, Seq<char>> {
    match named_set_spec(value, 0, 7, true, "day-of-week"@) {
        Err(e) => Err(e),
        Ok(s) => Ok(
            select_weekdays(
                Seq::new(7, |i: int| s.contains(cron_weekday_number(i)) || (i == 6 && s.contains(7))),
            ),
        ),
    }
}

/// The months a cron month field selects, in calendar order.
pub open spec fn month_set_spec(value: Seq<char>) -> Result<Seq<Month>, Seq<char>> {
    match named_set_spec(value, 1, 12, false, "month"@) {
        Err(e) => Err(e),
        Ok(s) => Ok(select_months(Seq::new(12, |i: int| s.contains((i + 1) as u32)))),
    }
}

/// `"Cron："` in front of a compiled summary.
pub open spec fn cron_prefixed(r: Result<CompiledSpec, Seq<char>>) -> Result<CompiledSpec, Seq<char>> {
    match r {
        Ok(c) => Ok(CompiledSpec { args: c.args, summary: "Cron："@ + c.summary }),
        Err(e) => Err(e),
    }
}

/// `HH:MM` with both parts zero-padded to two digits.
pub open spec fn hh_mm(h: u32, m: u32) -> Seq<char> {
    zero_pad(decimal(h as nat), 2) + ":"@ + zero_pad(decimal(m as nat), 2)
}

/// Compilation of a cron expression; only the subset that one Windows
/// trigger expresses exactly is accepted.
pub open spec fn cron_spec(expression: Seq<char>) -> Result<CompiledSpec, Seq<char>> {
    let f = split_ws(expression);
    if f.len() != 5 {
        Err("Cron 必须是五字段：minute hour day-of-month month day-of-week"@)
    } else {
        let (minute, hour, dom, month, dow) = (f[0], f[1], f[2], f[3], f[4]);
        match wildcard_step_spec(minute, 1, 59, "minute"@) {
            Err(e) => Err(e),
            Ok(Some(step)) => match require_wildcards_spec(f.skip(1)) {
                Err(e) => Err(e),
                Ok(()) => Ok(
                    CompiledSpec {
                        args: seq!["/SC"@, "MINUTE"@, "/MO"@, decimal(step as nat), "/ST"@, "00:00"@],
                        summary: "Cron：每 "@ + decimal(step as nat) + " 分钟"@,
                    },
                ),
            },
            Ok(None) => match exact_spec(minute, 0, 59, "minute"@) {
                Err(e) => Err(e),
                Ok(em) => match hour_step_spec(hour) {
                    Err(e) => Err(e),
                    Ok(Some((sh, st))) => match require_wildcards_spec(f.skip(2)) {
                        Err(e) => Err(e),
                        Ok(()) => Ok(
                            CompiledSpec {
                                args: seq![
                                    "/SC"@,
                                    "HOURLY"@,
                                    "/MO"@,
                                    decimal(st as nat),
                                    "/ST"@,
                                    hh_mm(sh, em),
                                ],
                                summary: "Cron：从 "@ + hh_mm(sh, em) + " 起每 "@ + decimal(st as nat)
                                    + " 小时"@,
                            },
                        ),
                    },
                    Ok(None) => match exact_spec(hour, 0, 23, "hour"@) {
                        Err(e) => Err(e),
                        Ok(eh) => {
                            let time = hh_mm(eh, em);
                            if dom == "*"@ && month == "*"@ && dow == "*"@ {
                                cron_prefixed(
                                    compile_basic_spec(ScheduleSpec::Daily { time: time, every_days: 1 }),
                                )
                            } else if dom == "*"@ && month == "*"@ {
                                match weekday_set_spec(dow) {
                                    Err(e) => Err(e),
                                    Ok(days) => cron_prefixed(
                                        compile_basic_spec(
                                            ScheduleSpec::Weekly { time: time, every_weeks: 1, days: days },
                                        ),
                                    ),
                                }
                            } else if dom != "*"@ && dow == "*"@ {
                                match exact_spec(dom, 1, 31, "day-of-month"@) {
                                    Err(e) => Err(e),
                                    Ok(d) => {
                                        let months = if month == "*"@ {
                                            Ok(Seq::<Month>::empty())
                                        } else {
                                            month_set_spec(month)
                                        };
                                        match months {
                                            Err(e) => Err(e),
                                            Ok(ms) => cron_prefixed(
                                                compile_basic_spec(
                                                    ScheduleSpec::Monthly {
                                                        time: time,
                                                        day: MonthlyDay::Day { day: d as u8 },
                                                        months: ms,
                                                    },
                                                ),
                                            ),
                                        }
                                    },
                                }
                            } else {
                                Err(
                                    "该 Cron 无法无损映射为单个 Windows 触发器；请改用可视化 Weekly/Monthly 类型或简化表达式"@,
                                )
                            }
                        },
                    },
                },
            },
        }
    }
}

/// A cron expression `M S/N * * *` (or `M */N * * *`, start hour 0), with
/// `M` a single minute in 0..=59, `S` a single hour in 0..=23 and `N` a
/// single step in 1..=23, compiles to an hourly trigger every `N` hours that
/// starts at hour `S`, minute `M`, each zero-padded to two digits.
pub proof fn law_cron_hour_step_starts_at_hour_then_minute(
    expression: Seq<char>,
    start: Seq<char>,
    step: Seq<char>,
    minute: u32,
    start_hour: u32,
    every: u32,
)
    requires
        split_ws(expression).len() == 5,
        !has_cron_operator(split_ws(expression)[0]),
        parse_u32_spec(split_ws(expression)[0]) == Some(minute),
        minute <= 59,
        split_once(split_ws(expression)[1], '/') == Some((start, step)),
        (start == "*"@ && start_hour == 0) || (!has_cron_operator(start) && parse_u32_spec(start)
            == Some(start_hour) && start_hour <= 23),
        !has_cron_operator(step),
        parse_u32_spec(step) == Some(every),
        1 <= every <= 23,
        split_ws(expression)[2] == "*"@,
        split_ws(expression)[3] == "*"@,
        split_ws(expression)[4] == "*"@,
    ensures
        ({
            let at = zero_pad(decimal(start_hour as nat), 2) + ":"@ + zero_pad(
                decimal(minute as nat),
                2,
            );
            cron_spec(expression) == Ok::<CompiledSpec, Seq<char>>(
                CompiledSpec {
                    args: seq!["/SC"@, "HOURLY"@, "/MO"@, decimal(every as nat), "/ST"@, at],
                    summary: "Cron：从 "@ + at + " 起每 "@ + decimal(every as nat) + " 小时"@,
                },
            )
        }),
{
    let f = split_ws(expression);
    reveal_strlit("*/");
    if starts_with(f[0], "*/"@) {
        assert(f[0][0] == "*/"@[0]);
        assert(f[0].contains('*'));
    }
    assert(wildcard_step_spec(f[0], 1, 59, "minute"@) == Ok::<Option<u32>, Seq<char>>(None));
    assert(exact_spec(f[0], 0, 59, "minute"@) == Ok::<u32, Seq<char>>(minute));
    assert(exact_spec(step, 1, 23, "hour step"@) == Ok::<u32, Seq<char>>(every));
    if start == "*"@ {
        assert(start_hour == 0) by {
            reveal_strlit("*");
            if start_hour != 0 {
                assert(start.contains('*'));
            }
        }
    } else {
        assert(exact_spec(start, 0, 23, "hour step start"@) == Ok::<u32, Seq<char>>(start_hour));
    }
    assert(hour_step_spec(f[1]) == Ok::<Option<(u32, u32)>, Seq<char>>(Some((start_hour, every))));
    assert(require_wildcards_spec(f.skip(2)) == Ok::<(), Seq<char>>(())) by {
        assert forall|i: int| 0 <= i < f.skip(2).len() implies f.skip(2)[i] == "*"@ by {
            assert(f.skip(2)[i] == f[i + 2]);
        }
    }
}

/// An hour below 24 and a minute below 60, each zero-padded to two digits
/// and joined by `:`, form a plain `HH:MM` with no surrounding space.
proof fn lemma_padded_time_is_plain(h: u32, m: u32)
    requires
        h < 24,
        m < 60,
    ensures
        is_plain_hhmm(hh_mm(h, m)),
        trim(hh_mm(h, m)) == hh_mm(h, m),
{
    let hs = zero_pad(decimal(h as nat), 2);
    let ms = zero_pad(decimal(m as nat), 2);
    lemma_two_digits(h as nat);
    lemma_two_digits(m as nat);
    let t = hh_mm(h, m);
    reveal_strlit(":");
    assert(t =~= seq![hs[0], hs[1], ':', ms[0], ms[1]]);
    assert(t.subrange(0, 2) =~= hs);
    assert(t.subrange(3, 5) =~= ms);
    assert(trim_start(t) == t);
    assert(trim_end(t) == t);
}

/// A cron expression `M H * * *`, with `M` a single minute in 0..=59 and
/// `H` a single hour in 0..=23, compiles to a daily trigger at hour `H`,
/// minute `M`, each zero-padded to two digits.
pub proof fn law_cron_daily_at_hour_then_minute(expression: Seq<char>, minute: u32, hour: u32)
    requires
        split_ws(expression).len() == 5,
        !has_cron_operator(split_ws(expression)[0]),
        parse_u32_spec(split_ws(expression)[0]) == Some(minute),
        minute <= 59,
        !has_cron_operator(split_ws(expression)[1]),
        parse_u32_spec(split_ws(expression)[1]) == Some(hour),
        hour <= 23,
        split_ws(expression)[2] == "*"@,
        split_ws(expression)[3] == "*"@,
        split_ws(expression)[4] == "*"@,
    ensures
        ({
            let at = zero_pad(decimal(hour as nat), 2) + ":"@ + zero_pad(decimal(minute as nat), 2);
            cron_spec(expression) == Ok::<CompiledSpec, Seq<char>>(
                CompiledSpec {
                    args: seq!["/SC"@, "DAILY"@, "/MO"@, "1"@, "/ST"@, at],
                    summary: "Cron：每天 "@ + at,
                },
            )
        }),
{
    let f = split_ws(expression);
    reveal_strlit("*/");
    if starts_with(f[0], "*/"@) {
        assert(f[0][0] == "*/"@[0]);
        assert(f[0].contains('*'));
    }
    assert(wildcard_step_spec(f[0], 1, 59, "minute"@) == Ok::<Option<u32>, Seq<char>>(None));
    assert(exact_spec(f[0], 0, 59, "minute"@) == Ok::<u32, Seq<char>>(minute));
    lemma_split_once_absent(f[1], '/');
    assert(hour_step_spec(f[1]) == Ok::<Option<(u32, u32)>, Seq<char>>(None));
    assert(exact_spec(f[1], 0, 23, "hour"@) == Ok::<u32, Seq<char>>(hour));
    let t = hh_mm(hour, minute);
    lemma_padded_time_is_plain(hour, minute);
    law_plain_time_is_accepted(t);
    reveal_strlit("1");
    assert(decimal(1nat) =~= "1"@);
    reveal_strlit("Cron：");
    reveal_strlit("每天 ");
    reveal_strlit("Cron：每天 ");
    assert("Cron："@ + ("每天 "@ + t) =~= "Cron：每天 "@ + t);
}

/// Compilation of any schedule.
pub open spec fn compile_spec(s: ScheduleSpec) -> Result<CompiledSpec, Seq<char>> {
    match s {
        ScheduleSpec::Cron { expression } => cron_spec(expression),
        _ => compile_basic_spec(s),
    }
}

/// A weekly schedule compiles the same whichever order its days are listed
/// in and however often one is repeated: only the set of days counts.
pub proof fn law_weekly_depends_on_the_set_of_days(
    time: Seq<char>,
    every_weeks: u8,
    d1: Seq<Weekday>,
    d2: Seq<Weekday>,
)
    requires
        forall|d: Weekday| d1.contains(d) <==> d2.contains(d),
    ensures
        compile_spec(ScheduleSpec::Weekly { time, every_weeks, days: d1 }) == compile_spec(
            ScheduleSpec::Weekly { time, every_weeks, days: d2 },
        ),
{
    assert(weekday_flags(d1) =~= weekday_flags(d2));
}

/// A monthly schedule compiles the same whichever order its months are
/// listed in and however often one is repeated: only the set of months
/// counts.
pub proof fn law_monthly_depends_on_the_set_of_months(
    time: Seq<char>,
    day: MonthlyDay,
    m1: Seq<Month>,
    m2: Seq<Month>,
)
    requires
        forall|m: Month| m1.contains(m) <==> m2.contains(m),
    ensures
        compile_spec(ScheduleSpec::Monthly { time, day, months: m1 }) == compile_spec(
            ScheduleSpec::Monthly { time, day, months: m2 },
        ),
{
    assert(month_flags(m1) =~= month_flags(m2));
    assert(normalized_months_spec(m1) == normalized_months_spec(m2));
}

} // verus!

verus! {

fn has_operator(v: &Vec<char>) -> (r: bool)
    ensures
        r == has_cron_operator(v@),
{
    contains_char(v, ',') || contains_char(v, '-') || contains_char(v, '/') || contains_char(v, '*')
}

fn parse_exact(value: &Vec<char>, min: u32, max: u32, label: &str) -> (r: Result<u32, String>)
    ensures
        match r {
            Ok(n) => exact_spec(value@, min, max, label@) == Ok::<u32, Seq<char>>(n),
            Err(e) => exact_spec(value@, min, max, label@) == Err::<u32, Seq<char>>(e@),
        },
{
    if has_operator(value) {
        let mut m: Vec<char> = Vec::new();
        push_str(&mut m, "Cron ");
        push_str(&mut m, label);
        push_str(&mut m, " 必须是单一数值");
        assert(m@ =~= "Cron "@ + label@ + " 必须是单一数值"@);
        return Err(string_from_chars(&m));
    }
    match parse_u32(value) {
        None => {
            let mut m: Vec<char> = Vec::new();
            push_str(&mut m, "Cron ");
            push_str(&mut m, label);
            push_str(&mut m, " 不是有效整数: ");
            push_chars(&mut m, value);
            assert(m@ =~= "Cron "@ + label@ + " 不是有效整数: "@ + value@);
            Err(string_from_chars(&m))
        },
        Some(n) => {
            if !(min <= n && n <= max) {
                let mut m: Vec<char> = Vec::new();
                push_str(&mut m, "Cron ");
                push_str(&mut m, label);
                push_str(&mut m, " 必须在 ");
                push_decimal(&mut m, min as u64);
                push_str(&mut m, "..=");
                push_decimal(&mut m, max as u64);
                push_str(&mut m, " 之间");
                assert(m@ =~= "Cron "@ + label@ + " 必须在 "@ + decimal(min as nat) + "..="@
                    + decimal(max as nat) + " 之间"@);
                Err(string_from_chars(&m))
            } else {
                Ok(n)
            }
        },
    }
}

fn parse_wildcard_step(value: &Vec<char>, min: u32, max: u32, label: &str) -> (r: Result<
    Option<u32>,
    String,
>)
    ensures
        match r {
            Ok(o) => wildcard_step_spec(value@, min, max, label@) == Ok::<Option<u32>, Seq<char>>(o),
            Err(e) => wildcard_step_spec(value@, min, max, label@) == Err::<Option<u32>, Seq<char>>(
                e@,
            ),
        },
{
    let prefix = str_chars("*/");
    proof {
        reveal_strlit("*/");
    }
    if !matches_at(value, &prefix, 0) {
        return Ok(None);
    }
    let step = copy_range(value, 2, value.len());
    assert(step@ =~= value@.skip(2));
    match parse_exact(&step, min, max, label) {
        Ok(n) => Ok(Some(n)),
        Err(e) => Err(e),
    }
}

fn parse_hour_step(value: &Vec<char>) -> (r: Result<Option<(u32, u32)>, String>)
    ensures
        match r {
            Ok(o) => hour_step_spec(value@) == Ok::<Option<(u32, u32)>, Seq<char>>(o),
            Err(e) => hour_step_spec(value@) == Err::<Option<(u32, u32)>, Seq<char>>(e@),
        },
{
    let (start, step) = match split_once_char(value, '/') {
        None => {
            return Ok(None);
        },
        Some(pair) => pair,
    };
    let start_value: u32 = if chars_eq_str(&start, "*") {
        0
    } else {
        match parse_exact(&start, 0, 23, "hour step start") {
            Ok(n) => n,
            Err(e) => {
                return Err(e);
            },
        }
    };
    match parse_exact(&step, 1, 23, "hour step") {
        Ok(n) => Ok(Some((start_value, n))),
        Err(e) => Err(e),
    }
}

fn require_wildcards(fields: &Vec<Vec<char>>, from: usize) -> (r: Result<(), String>)
    requires
        from <= fields.len(),
    ensures
        unit_view(r) == require_wildcards_spec(fields.deep_view().skip(from as int)),
{
    let ghost rest = fields.deep_view().skip(from as int);
    let mut i = from;
    while i < fields.len()
        invariant
            from <= i <= fields.len(),
            rest == fields.deep_view().skip(from as int),
            forall|k: int| 0 <= k < i - from ==> rest[k] == "*"@,
        decreases fields.len() - i,
    {
        assert(rest[i - from] == fields[i as int]@);
        if !chars_eq_str(&fields[i], "*") {
            return Err(owned("该 Cron step 与日期限制组合无法映射为单个 Windows 触发器"));
        }
        i = i + 1;
    }
    Ok(())
}

fn weekday_name_number(u: &Vec<char>) -> (r: Option<u32>)
    ensures
        r == weekday_name_value(u@),
{
    if chars_eq_str(u, "SUN") {
        Some(0)
    } else if chars_eq_str(u, "MON") {
        Some(1)
    } else if chars_eq_str(u, "TUE") {
        Some(2)
    } else if chars_eq_str(u, "WED") {
        Some(3)
    } else if chars_eq_str(u, "THU") {
        Some(4)
    } else if chars_eq_str(u, "FRI") {
        Some(5)
    } else if chars_eq_str(u, "SAT") {
        Some(6)
    } else {
        None
    }
}

fn month_name_number(u: &Vec<char>) -> (r: Option<u32>)
    ensures
        r == month_name_value(u@),
{
    if chars_eq_str(u, "JAN") {
        Some(1)
    } else if chars_eq_str(u, "FEB") {
        Some(2)
    } else if chars_eq_str(u, "MAR") {
        Some(3)
    } else if chars_eq_str(u, "APR") {
        Some(4)
    } else if chars_eq_str(u, "MAY") {
        Some(5)
    } else if chars_eq_str(u, "JUN") {
        Some(6)
    } else if chars_eq_str(u, "JUL") {
        Some(7)
    } else if chars_eq_str(u, "AUG") {
        Some(8)
    } else if chars_eq_str(u, "SEP") {
        Some(9)
    } else if chars_eq_str(u, "OCT") {
        Some(10)
    } else if chars_eq_str(u, "NOV") {
        Some(11)
    } else if chars_eq_str(u, "DEC") {
        Some(12)
    } else {
        None
    }
}

fn parse_named_value(value: &Vec<char>, min: u32, max: u32, weekday: bool, label: &str) -> (r:
    Result<u32, String>)
    ensures
        match r {
            Ok(n) => named_value_spec(value@, min, max, weekday, label@) == Ok::<u32, Seq<char>>(n),
            Err(e) => named_value_spec(value@, min, max, weekday, label@) == Err::<u32, Seq<char>>(
                e@,
            ),
        },
{
    let upper = to_ascii_upper(value);
    let named = if weekday {
        weekday_name_number(&upper)
    } else {
        month_name_number(&upper)
    };
    match named {
        Some(n) => Ok(n),
        None => parse_exact(value, min, max, label),
    }
}

} // verus!

verus! {

proof fn lemma_named_value_bound(value: Seq<char>, min: u32, max: u32, weekday: bool, label: Seq<char>)
    requires
        max <= 12,
        weekday ==> max >= 6,
        !weekday ==> max >= 12,
    ensures
        named_value_spec(value, min, max, weekday, label) matches Ok(n) ==> n <= max,
{
}

/// The inclusive range of numbers one part of a cron set denotes.
fn part_values(part: &Vec<char>, min: u32, max: u32, weekday: bool, label: &str) -> (r: Result<
    (u32, u32),
    String,
>)
    requires
        max <= 12,
        weekday ==> max >= 6,
        !weekday ==> max >= 12,
    ensures
        match r {
            Ok((lo, hi)) => part_values_spec(part@, min, max, weekday, label@) == Ok::<
                Set<u32>,
                Seq<char>,
            >(Set::new(|n: u32| lo <= n && n <= hi)) && lo <= hi <= max,
            Err(e) => part_values_spec(part@, min, max, weekday, label@) == Err::<
                Set<u32>,
                Seq<char>,
            >(e@),
        },
{
    if part.len() == 0 || contains_char(part, '*') || contains_char(part, '/') {
        let mut m: Vec<char> = Vec::new();
        push_str(&mut m, "Cron ");
        push_str(&mut m, label);
        push_str(&mut m, " 集合不支持该语法: ");
        push_chars(&mut m, part);
        assert(m@ =~= "Cron "@ + label@ + " 集合不支持该语法: "@ + part@);
        return Err(string_from_chars(&m));
    }
    match split_once_char(part, '-') {
        Some((a, b)) => {
            let na = match parse_named_value(&a, min, max, weekday, label) {
                Ok(n) => n,
                Err(e) => {
                    return Err(e);
                },
            };
            let nb = match parse_named_value(&b, min, max, weekday, label) {
                Ok(n) => n,
                Err(e) => {
                    return Err(e);
                },
            };
            proof {
                lemma_named_value_bound(a@, min, max, weekday, label@);
                lemma_named_value_bound(b@, min, max, weekday, label@);
            }
            if na > nb {
                let mut m: Vec<char> = Vec::new();
                push_str(&mut m, "Cron ");
                push_str(&mut m, label);
                push_str(&mut m, " 范围起点不能大于终点");
                assert(m@ =~= "Cron "@ + label@ + " 范围起点不能大于终点"@);
                return Err(string_from_chars(&m));
            }
            Ok((na, nb))
        },
        None => {
            let n = match parse_named_value(part, min, max, weekday, label) {
                Ok(n) => n,
                Err(e) => {
                    return Err(e);
                },
            };
            proof {
                lemma_named_value_bound(part@, min, max, weekday, label@);
                assert(set![n] =~= Set::new(|x: u32| n <= x && x <= n));
            }
            Ok((n, n))
        },
    }
}

proof fn lemma_named_parts_error_sticks(parts: Seq<Seq<char>>, i: int, min: u32, max: u32, weekday: bool, label: Seq<char>)
    requires
        0 <= i <= parts.len(),
        named_parts_spec(parts.take(i), min, max, weekday, label) is Err,
    ensures
        named_parts_spec(parts, min, max, weekday, label) == named_parts_spec(
            parts.take(i),
            min,
            max,
            weekday,
            label,
        ),
    decreases parts.len() - i,
{
    if i < parts.len() {
        assert(parts.drop_last().take(i) =~= parts.take(i));
        lemma_named_parts_error_sticks(parts.drop_last(), i, min, max, weekday, label);
    } else {
        assert(parts.take(i) =~= parts);
    }
}

/// Membership flags (indices `0..=12`) of the numbers a cron set denotes.
fn parse_named_set(value: &Vec<char>, min: u32, max: u32, weekday: bool, label: &str) -> (r: Result<
    Vec<bool>,
    String,
>)
    requires
        max <= 12,
        weekday ==> max >= 6,
        !weekday ==> max >= 12,
    ensures
        match r {
            Ok(flags) => {
                &&& named_set_spec(value@, min, max, weekday, label@) is Ok
                &&& flags.len() == 13
                &&& forall|n: int|
                    0 <= n < 13 ==> #[trigger] flags@[n] == named_set_spec(
                        value@,
                        min,
                        max,
                        weekday,
                        label@,
                    )->Ok_0.contains(n as u32)
                &&& forall|n: u32|
                    #[trigger] named_set_spec(value@, min, max, weekday, label@)->Ok_0.contains(n)
                        ==> n <= 12
            },
            Err(e) => named_set_spec(value@, min, max, weekday, label@) == Err::<
                Set<u32>,
                Seq<char>,
            >(e@),
        },
{
    let parts = split_on_chars(value, ',', ',');
    let ghost ps = parts.deep_view();
    assert(ps =~~= split_on(value@, ',', ','));
    let mut flags: Vec<bool> = Vec::new();
    let mut k: usize = 0;
    while k < 13
        invariant
            k <= 13,
            flags.len() == k,
            forall|n: int| 0 <= n < k ==> !flags@[n],
        decreases 13 - k,
    {
        flags.push(false);
        k = k + 1;
    }
    let ghost mut acc: Set<u32> = Set::empty();
    assert(ps.take(0) =~= Seq::<Seq<char>>::empty());
    let mut i: usize = 0;
    while i < parts.len()
        invariant
            i <= parts.len(),
            ps == parts.deep_view(),
            ps == split_on(value@, ',', ','),
            ps.len() == parts.len(),
            max <= 12,
            weekday ==> max >= 6,
            !weekday ==> max >= 12,
            flags.len() == 13,
            named_parts_spec(ps.take(i as int), min, max, weekday, label@) == Ok::<
                Set<u32>,
                Seq<char>,
            >(acc),
            forall|n: int| 0 <= n < 13 ==> #[trigger] flags@[n] == acc.contains(n as u32),
            forall|n: u32| #[trigger] acc.contains(n) ==> n <= 12,
        decreases parts.len() - i,
    {
        assert(ps.take(i + 1).drop_last() =~= ps.take(i as int));
        assert(ps.take(i + 1).last() == parts[i as int]@);
        let (lo, hi) = match part_values(&parts[i], min, max, weekday, label) {
            Ok(range) => range,
            Err(e) => {
                proof {
                    lemma_named_parts_error_sticks(ps, i + 1, min, max, weekday, label@);
                }
                return Err(e);
            },
        };
        let ghost vs = Set::new(|n: u32| lo <= n && n <= hi);
        let mut n = lo;
        while n <= hi
            invariant
                lo <= n <= hi + 1,
                hi <= 12,
                flags.len() == 13,
                forall|x: int|
                    0 <= x < 13 ==> #[trigger] flags@[x] == (acc.contains(x as u32) || (lo <= x
                        < n)),
            decreases hi + 1 - n,
        {
            flags.set(n as usize, true);
            n = n + 1;
        }
        proof {
            acc = acc.union(vs);
        }
        i = i + 1;
    }
    assert(ps.take(parts.len() as int) =~= ps);
    assert(ps =~~= split_on(value@, ',', ','));
    let mut any = false;
    let mut j: usize = 0;
    while j < 13
        invariant
            j <= 13,
            flags.len() == 13,
            any == exists|x: int| 0 <= x < j && #[trigger] flags@[x],
        decreases 13 - j,
    {
        if flags[j] {
            any = true;
        }
        j = j + 1;
    }
    if !any {
        proof {
            assert(acc =~= Set::<u32>::empty()) by {
                assert forall|x: u32| !acc.contains(x) by {
                    if acc.contains(x) {
                        assert(flags@[x as int]);
                    }
                }
            }
        }
        let mut m: Vec<char> = Vec::new();
        push_str(&mut m, "Cron ");
        push_str(&mut m, label);
        push_str(&mut m, " 不能为空");
        assert(m@ =~= "Cron "@ + label@ + " 不能为空"@);
        return Err(string_from_chars(&m));
    }
    proof {
        let x = choose|x: int| 0 <= x < 13 && #[trigger] flags@[x];
        assert(acc.contains(x as u32));
        assert(acc != Set::<u32>::empty());
    }
    Ok(flags)
}

fn parse_weekday_set(value: &Vec<char>) -> (r: Result<Vec<Weekday>, String>)
    ensures
        match r {
            Ok(days) => weekday_set_spec(value@) == Ok::<Seq<Weekday>, Seq<char>>(days@),
            Err(e) => weekday_set_spec(value@) == Err::<Seq<Weekday>, Seq<char>>(e@),
        },
{
    let numbers = match parse_named_set(value, 0, 7, true, "day-of-week") {
        Ok(flags) => flags,
        Err(e) => {
            return Err(e);
        },
    };
    let ghost s = named_set_spec(value@, 0, 7, true, "day-of-week"@)->Ok_0;
    let ghost want = Seq::new(
        7,
        |i: int| s.contains(cron_weekday_number(i)) || (i == 6 && s.contains(7)),
    );
    let mut flags: Vec<bool> = Vec::new();
    let mut i: usize = 0;
    while i < 7
        invariant
            i <= 7,
            numbers.len() == 13,
            forall|n: int| 0 <= n < 13 ==> #[trigger] numbers@[n] == s.contains(n as u32),
            want == Seq::new(
                7,
                |i: int| s.contains(cron_weekday_number(i)) || (i == 6 && s.contains(7)),
            ),
            flags@ == want.take(i as int),
        decreases 7 - i,
    {
        let number: usize = if i == 6 {
            0
        } else {
            i + 1
        };
        let f = numbers[number] || (i == 6 && numbers[7]);
        assert(f == want[i as int]);
        flags.push(f);
        i = i + 1;
        assert(flags@ =~= want.take(i as int));
    }
    assert(want.take(7) =~= want);
    Ok(weekdays_where(&flags))
}

fn parse_month_set(value: &Vec<char>) -> (r: Result<Vec<Month>, String>)
    ensures
        match r {
            Ok(ms) => month_set_spec(value@) == Ok::<Seq<Month>, Seq<char>>(ms@),
            Err(e) => month_set_spec(value@) == Err::<Seq<Month>, Seq<char>>(e@),
        },
{
    let numbers = match parse_named_set(value, 1, 12, false, "month") {
        Ok(flags) => flags,
        Err(e) => {
            return Err(e);
        },
    };
    let ghost s = named_set_spec(value@, 1, 12, false, "month"@)->Ok_0;
    let ghost want = Seq::new(12, |i: int| s.contains((i + 1) as u32));
    let mut flags: Vec<bool> = Vec::new();
    let mut i: usize = 0;
    while i < 12
        invariant
            i <= 12,
            numbers.len() == 13,
            forall|n: int| 0 <= n < 13 ==> #[trigger] numbers@[n] == s.contains(n as u32),
            want == Seq::new(12, |i: int| s.contains((i + 1) as u32)),
            flags@ == want.take(i as int),
        decreases 12 - i,
    {
        let f = numbers[i + 1];
        assert(f == want[i as int]);
        flags.push(f);
        i = i + 1;
        assert(flags@ =~= want.take(i as int));
    }
    assert(want.take(12) =~= want);
    Ok(months_where(&flags))
}

} // verus!

verus! {

fn with_cron_prefix(r: Result<CompiledSchedule, String>) -> (out: Result<CompiledSchedule, String>)
    ensures
        compiled_view(out) == cron_prefixed(compiled_view(r)),
{
    match r {
        Ok(c) => {
            let mut s: Vec<char> = Vec::new();
            push_str(&mut s, "Cron：");
            push_str(&mut s, c.summary.as_str());
            let out = CompiledSchedule { schtasks_args: c.schtasks_args, summary: string_from_chars(&s) };
            assert(compiled_view(Ok(out)) =~~= cron_prefixed(compiled_view(Ok(c))));
            Ok(out)
        },
        Err(e) => Err(e),
    }
}

fn hh_mm_chars(h: u32, m: u32) -> (r: Vec<char>)
    ensures
        r@ == hh_mm(h, m),
{
    let mut r: Vec<char> = Vec::new();
    push_decimal_padded(&mut r, h as u64, 2);
    push_str(&mut r, ":");
    push_decimal_padded(&mut r, m as u64, 2);
    assert(r@ =~= hh_mm(h, m));
    r
}

#[verifier::rlimit(40)]
#[verifier::spinoff_prover]
fn compile_cron(expression: &String) -> (r: Result<CompiledSchedule, String>)
    ensures
        compiled_view(r) == cron_spec(expression@),
{
    let v = str_chars(expression.as_str());
    let fields = split_whitespace(&v);
    if fields.len() != 5 {
        return Err(owned("Cron 必须是五字段：minute hour day-of-month month day-of-week"));
    }
    let ghost f = fields.deep_view();
    assert(f[0] == fields[0]@ && f[1] == fields[1]@ && f[2] == fields[2]@ && f[3] == fields[3]@
        && f[4] == fields[4]@);
    match parse_wildcard_step(&fields[0], 1, 59, "minute") {
        Err(e) => {
            return Err(e);
        },
        Ok(Some(step)) => {
            match require_wildcards(&fields, 1) {
                Err(e) => {
                    return Err(e);
                },
                Ok(()) => {},
            }
            let mut n: Vec<char> = Vec::new();
            push_decimal(&mut n, step as u64);
            assert(n@ =~= decimal(step as nat));
            let mut args: Vec<String> = Vec::new();
            push_arg(&mut args, "/SC");
            push_arg(&mut args, "MINUTE");
            push_arg(&mut args, "/MO");
            push_arg_chars(&mut args, &n);
            push_arg(&mut args, "/ST");
            push_arg(&mut args, "00:00");
            let mut summary: Vec<char> = Vec::new();
            push_str(&mut summary, "Cron：每 ");
            push_chars(&mut summary, &n);
            push_str(&mut summary, " 分钟");
            assert(summary@ =~= "Cron：每 "@ + n@ + " 分钟"@);
            assert(args.deep_view() =~~= seq!["/SC"@, "MINUTE"@, "/MO"@, n@, "/ST"@, "00:00"@]);
            let r = CompiledSchedule { schtasks_args: args, summary: string_from_chars(&summary) };
            assert(compiled_view(Ok(r)) =~~= cron_spec(expression@));
            return Ok(r);
        },
        Ok(None) => {},
    }
    let exact_minute = match parse_exact(&fields[0], 0, 59, "minute") {
        Ok(n) => n,
        Err(e) => {
            return Err(e);
        },
    };
    match parse_hour_step(&fields[1]) {
        Err(e) => {
            return Err(e);
        },
        Ok(Some((start_hour, step))) => {
            match require_wildcards(&fields, 2) {
                Err(e) => {
                    return Err(e);
                },
                Ok(()) => {},
            }
            let hm = hh_mm_chars(start_hour, exact_minute);
            let mut n: Vec<char> = Vec::new();
            push_decimal(&mut n, step as u64);
            assert(n@ =~= decimal(step as nat));
            let mut args: Vec<String> = Vec::new();
            push_arg(&mut args, "/SC");
            push_arg(&mut args, "HOURLY");
            push_arg(&mut args, "/MO");
            push_arg_chars(&mut args, &n);
            push_arg(&mut args, "/ST");
            push_arg_chars(&mut args, &hm);
            let mut summary: Vec<char> = Vec::new();
            push_str(&mut summary, "Cron：从 ");
            push_chars(&mut summary, &hm);
            push_str(&mut summary, " 起每 ");
            push_chars(&mut summary, &n);
            push_str(&mut summary, " 小时");
            assert(summary@ =~= "Cron：从 "@ + hm@ + " 起每 "@ + n@ + " 小时"@);
            assert(args.deep_view() =~~= seq!["/SC"@, "HOURLY"@, "/MO"@, n@, "/ST"@, hm@]);
            let r = CompiledSchedule { schtasks_args: args, summary: string_from_chars(&summary) };
            assert(compiled_view(Ok(r)) =~~= cron_spec(expression@));
            return Ok(r);
        },
        Ok(None) => {},
    }
    let exact_hour = match parse_exact(&fields[1], 0, 23, "hour") {
        Ok(n) => n,
        Err(e) => {
            return Err(e);
        },
    };
    let time = string_from_chars(&hh_mm_chars(exact_hour, exact_minute));
    let dom_any = chars_eq_str(&fields[2], "*");
    let month_any = chars_eq_str(&fields[3], "*");
    let dow_any = chars_eq_str(&fields[4], "*");
    if dom_any && month_any && dow_any {
        return with_cron_prefix(compile_daily(&time, 1));
    }
    if dom_any && month_any {
        let days = match parse_weekday_set(&fields[4]) {
            Ok(days) => days,
            Err(e) => {
                return Err(e);
            },
        };
        return with_cron_prefix(compile_weekly(&time, 1, &days));
    }
    if !dom_any && dow_any {
        let day = match parse_exact(&fields[2], 1, 31, "day-of-month") {
            Ok(n) => n,
            Err(e) => {
                return Err(e);
            },
        };
        let months: Vec<Month> = if month_any {
            Vec::new()
        } else {
            match parse_month_set(&fields[3]) {
                Ok(ms) => ms,
                Err(e) => {
                    return Err(e);
                },
            }
        };
        return with_cron_prefix(
            compile_monthly(&time, MonthlyDay::Day { day: day as u8 }, &months),
        );
    }
    Err(
        owned(
            "该 Cron 无法无损映射为单个 Windows 触发器；请改用可视化 Weekly/Monthly 类型或简化表达式",
        ),
    )
}

/// Compiles every schedule kind but `Cron`.
fn compile_basic(schedule: &ScheduleConfig) -> (r: Result<CompiledSchedule, String>)
    requires
        !(schedule is Cron),
    ensures
        compiled_view(r) == compile_basic_spec(schedule@),
{
    match schedule {
        ScheduleConfig::Daily { time, every_days } => compile_daily(time, *every_days),
        ScheduleConfig::Weekly { time, every_weeks, days } => compile_weekly(time, *every_weeks, days),
        ScheduleConfig::Monthly { time, day, months } => compile_monthly(time, *day, months),
        ScheduleConfig::Interval { unit, every, start_time } => compile_interval(
            *unit,
            *every,
            start_time,
        ),
        ScheduleConfig::AtLogon { delay_seconds } => compile_event_schedule(
            "ONLOGON",
            "用户登录时",
            *delay_seconds,
        ),
        ScheduleConfig::AtStartup { delay_seconds } => compile_event_schedule(
            "ONSTART",
            "Windows 启动时",
            *delay_seconds,
        ),
        ScheduleConfig::Cron { .. } => Err(owned("")),
    }
}

/// Compiles a schedule into `schtasks` arguments and a summary, or returns
/// the first validation error.
pub fn compile_schedule(schedule: &ScheduleConfig) -> (r: Result<CompiledSchedule, String>)
    ensures
        compiled_view(r) == compile_spec(schedule@),
{
    match schedule {
        ScheduleConfig::Cron { expression } => compile_cron(expression),
        _ => compile_basic(schedule),
    }
}

impl ScheduleConfig {
    /// Whether the schedule compiles; the compile error otherwise.
    pub fn validate(&self) -> (r: Result<(), String>)
        ensures
            r is Ok <==> compile_spec(self@) is Ok,
            r matches Err(e) ==> compile_spec(self@) == Err::<CompiledSpec, Seq<char>>(e@),
    {
        match compile_schedule(self) {
            Ok(_) => Ok(()),
            Err(e) => Err(e),
        }
    }

    /// The summary of the compiled schedule, or the compile error.
    pub fn summary(&self) -> (r: Result<String, String>)
        ensures
            match r {
                Ok(s) => compile_spec(self@) is Ok && compile_spec(self@)->Ok_0.summary == s@,
                Err(e) => compile_spec(self@) == Err::<CompiledSpec, Seq<char>>(e@),
            },
    {
        match compile_schedule(self) {
            Ok(c) => Ok(c.summary),
            Err(e) => Err(e),
        }
    }
}


fn copy_weekdays(v: &Vec<Weekday>) -> (r: Vec<Weekday>)
    ensures
        r@ == v@,
{
    let mut r: Vec<Weekday> = Vec::new();
    let mut i: usize = 0;
    while i < v.len()
        invariant
            i <= v.len(),
            r@ == v@.take(i as int),
        decreases v.len() - i,
    {
        r.push(v[i]);
        i = i + 1;
        assert(r@ =~= v@.take(i as int));
    }
    assert(v@.take(v.len() as int) =~= v@);
    r
}

fn copy_months(v: &Vec<Month>) -> (r: Vec<Month>)
    ensures
        r@ == v@,
{
    let mut r: Vec<Month> = Vec::new();
    let mut i: usize = 0;
    while i < v.len()
        invariant
            i <= v.len(),
            r@ == v@.take(i as int),
        decreases v.len() - i,
    {
        r.push(v[i]);
        i = i + 1;
        assert(r@ =~= v@.take(i as int));
    }
    assert(v@.take(v.len() as int) =~= v@);
    r
}

fn weekdays_eq(a: &Vec<Weekday>, b: &Vec<Weekday>) -> (r: bool)
    ensures
        r == (a@ == b@),
{
    if a.len() != b.len() {
        return false;
    }
    let mut i: usize = 0;
    while i < a.len()
        invariant
            i <= a.len() == b.len(),
            forall|k: int| 0 <= k < i ==> a@[k] == b@[k],
        decreases a.len() - i,
    {
        if a[i] != b[i] {
            return false;
        }
        i = i + 1;
    }
    assert(a@ =~= b@);
    true
}

fn months_eq(a: &Vec<Month>, b: &Vec<Month>) -> (r: bool)
    ensures
        r == (a@ == b@),
{
    if a.len() != b.len() {
        return false;
    }
    let mut i: usize = 0;
    while i < a.len()
        invariant
            i <= a.len() == b.len(),
            forall|k: int| 0 <= k < i ==> a@[k] == b@[k],
        decreases a.len() - i,
    {
        if a[i] != b[i] {
            return false;
        }
        i = i + 1;
    }
    assert(a@ =~= b@);
    true
}

impl ScheduleConfig {
    /// A copy of the schedule.
    pub fn duplicate(&self) -> (r: ScheduleConfig)
        ensures
            r@ == self@,
    {
        match self {
            ScheduleConfig::Daily { time, every_days } => ScheduleConfig::Daily {
                time: owned(time.as_str()),
                every_days: *every_days,
            },
            ScheduleConfig::Weekly { time, every_weeks, days } => ScheduleConfig::Weekly {
                time: owned(time.as_str()),
                every_weeks: *every_weeks,
                days: copy_weekdays(days),
            },
            ScheduleConfig::Monthly { time, day, months } => ScheduleConfig::Monthly {
                time: owned(time.as_str()),
                day: *day,
                months: copy_months(months),
            },
            ScheduleConfig::Interval { unit, every, start_time } => ScheduleConfig::Interval {
                unit: *unit,
                every: *every,
                start_time: owned(start_time.as_str()),
            },
            ScheduleConfig::AtLogon { delay_seconds } => ScheduleConfig::AtLogon {
                delay_seconds: *delay_seconds,
            },
            ScheduleConfig::AtStartup { delay_seconds } => ScheduleConfig::AtStartup {
                delay_seconds: *delay_seconds,
            },
            ScheduleConfig::Cron { expression } => ScheduleConfig::Cron {
                expression: owned(expression.as_str()),
            },
        }
    }

    /// Whether two schedules are the same configuration (std's `==`).
    pub fn same_as(&self, other: &ScheduleConfig) -> (r: bool)
        ensures
            r == (self@ == other@),
    {
        match (self, other) {
            (
                ScheduleConfig::Daily { time: t1, every_days: e1 },
                ScheduleConfig::Daily { time: t2, every_days: e2 },
            ) => *e1 == *e2 && str_eq(t1.as_str(), t2.as_str()),
            (
                ScheduleConfig::Weekly { time: t1, every_weeks: e1, days: d1 },
                ScheduleConfig::Weekly { time: t2, every_weeks: e2, days: d2 },
            ) => *e1 == *e2 && str_eq(t1.as_str(), t2.as_str()) && weekdays_eq(d1, d2),
            (
                ScheduleConfig::Monthly { time: t1, day: d1, months: m1 },
                ScheduleConfig::Monthly { time: t2, day: d2, months: m2 },
            ) => *d1 == *d2 && str_eq(t1.as_str(), t2.as_str()) && months_eq(m1, m2),
            (
                ScheduleConfig::Interval { unit: u1, every: e1, start_time: s1 },
                ScheduleConfig::Interval { unit: u2, every: e2, start_time: s2 },
            ) => *u1 == *u2 && *e1 == *e2 && str_eq(s1.as_str(), s2.as_str()),
            (
                ScheduleConfig::AtLogon { delay_seconds: a },
                ScheduleConfig::AtLogon { delay_seconds: b },
            ) => *a == *b,
            (
                ScheduleConfig::AtStartup { delay_seconds: a },
                ScheduleConfig::AtStartup { delay_seconds: b },
            ) => *a == *b,
            (ScheduleConfig::Cron { expression: a }, ScheduleConfig::Cron { expression: b }) => str_eq(
                a.as_str(),
                b.as_str(),
            ),
            _ => false,
        }
    }
}

} // verus!
