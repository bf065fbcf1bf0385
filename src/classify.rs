//! Choosing the report layout of a device from its identifying strings.
//!
//! An ordered list of rules is tried in turn and the first that matches names
//! the layout; when none matches, the newest layout applies.

use vstd::prelude::*;
use chrono::Datelike;
use crate::report::ReportFormat;

verus! {

/// A day of the proleptic Gregorian calendar.
#[derive(Clone, Copy, Debug, PartialEq, Eq, Structural)]
pub struct CalendarDate {
    pub year: i32,
    pub month: u32,
    pub day: u32,
}

pub open spec fn is_leap_year(y: int) -> bool {
    (y % 4 == 0 && y % 100 != 0) || y % 400 == 0
}

pub open spec fn days_in_month(y: int, m: int) -> int {
    if m == 2 {
        if is_leap_year(y) { 29 } else { 28 }
    } else if m == 4 || m == 6 || m == 9 || m == 11 {
        30
    } else {
        31
    }
}

/// `y-m-d` names a day of the calendar.
pub open spec fn is_valid_date(y: int, m: int, d: int) -> bool {
    1 <= m <= 12 && 1 <= d <= days_in_month(y, m)
}

impl CalendarDate {
    /// `self` is a strictly earlier day than `other`.
    pub open spec fn spec_is_before(self, other: CalendarDate) -> bool {
        ||| self.year < other.year
        ||| self.year == other.year && self.month < other.month
        ||| self.year == other.year && self.month == other.month && self.day < other.day
    }

    pub fn is_before(&self, other: &CalendarDate) -> (r: bool)
        ensures
            r == self.spec_is_before(*other),
    {
        self.year < other.year || (self.year == other.year && self.month < other.month) || (
        self.year == other.year && self.month == other.month && self.day < other.day)
    }
}

pub open spec fn is_ascii_digit(c: char) -> bool {
    '0' <= c <= '9'
}

pub open spec fn digit_value(c: char) -> int {
    (c as int) - ('0' as int)
}

/// The number written by the decimal digits `s[from..to]`.
pub open spec fn decimal_value(s: Seq<char>, from: int, to: int) -> int
    decreases to - from,
{
    if to <= from {
        0
    } else {
        decimal_value(s, from, to - 1) * 10 + digit_value(s[to - 1])
    }
}

/// Eight ASCII digits, as in `YYYYMMDD`.
pub open spec fn is_date_token(s: Seq<char>) -> bool {
    s.len() == 8 && forall|i: int| 0 <= i < 8 ==> is_ascii_digit(#[trigger] s[i])
}

/// The day that a `YYYYMMDD` token names, if it names one.
pub open spec fn date_of_token(s: Seq<char>) -> Option<CalendarDate> {
    let y = decimal_value(s, 0, 4);
    let m = decimal_value(s, 4, 6);
    let d = decimal_value(s, 6, 8);
    if is_valid_date(y, m, d) {
        Some(CalendarDate { year: y as i32, month: m as u32, day: d as u32 })
    } else {
        None
    }
}

/// Relies on chrono's `NaiveDate::parse_from_str` with the pattern `%Y%m%d`: on
/// eight ASCII digits it reads a four-digit year, a two-digit month and a
/// two-digit day, and accepts them exactly when they name a calendar day.
#[verifier::external_body]
fn parse_date_token(token: &str) -> (r: Option<CalendarDate>)
    requires
        is_date_token(token@),
    ensures
        r == date_of_token(token@),
{
    match chrono::NaiveDate::parse_from_str(token, "%Y%m%d") {
        Ok(d) => Some(CalendarDate { year: d.year(), month: d.month(), day: d.day() }),
        Err(_) => None,
    }
}

/// The characters that Unicode counts as white space.
pub open spec fn is_white_space(c: char) -> bool {
    let v = c as u32;
    ||| 0x9 <= v <= 0xd
    ||| v == 0x20
    ||| v == 0x85
    ||| v == 0xa0
    ||| v == 0x1680
    ||| 0x2000 <= v <= 0x200a
    ||| v == 0x2028
    ||| v == 0x2029
    ||| v == 0x202f
    ||| v == 0x205f
    ||| v == 0x3000
}

#[verifier::when_used_as_spec(is_white_space)]
pub fn white_space(c: char) -> (r: bool)
    ensures
        r == is_white_space(c),
{
    let v = c as u32;
    (0x9 <= v && v <= 0xd) || v == 0x20 || v == 0x85 || v == 0xa0 || v == 0x1680 || (0x2000 <= v
        && v <= 0x200a) || v == 0x2028 || v == 0x2029 || v == 0x202f || v == 0x205f || v == 0x3000
}

/// `s` without its trailing white space.
pub open spec fn trim_end(s: Seq<char>) -> Seq<char>
    decreases s.len(),
{
    if s.len() > 0 && is_white_space(s.last()) {
        trim_end(s.drop_last())
    } else {
        s
    }
}

/// The run of non-white-space characters at the very end of `s`.
pub open spec fn final_run(s: Seq<char>) -> Seq<char>
    decreases s.len(),
{
    if s.len() > 0 && !is_white_space(s.last()) {
        final_run(s.drop_last()).push(s.last())
    } else {
        Seq::empty()
    }
}

/// The last white-space-delimited word of `s`; empty when `s` has none.
pub open spec fn last_token(s: Seq<char>) -> Seq<char> {
    final_run(trim_end(s))
}

/// Finds the last white-space-delimited word of `s`, as a character range.
fn last_token_range(s: &str) -> (r: (usize, usize))
    ensures
        r.0 <= r.1 <= s@.len(),
        s@.subrange(r.0 as int, r.1 as int) == last_token(s@),
{
    let n = s.unicode_len();
    let ghost full = s@;
    let mut end: usize = n;
    assert(full.subrange(0, n as int) =~= full);
    while end > 0 && white_space(s.get_char(end - 1))
        invariant
            n == full.len(),
            full == s@,
            end <= n,
            trim_end(full.subrange(0, end as int)) == trim_end(full),
        decreases end,
    {
        assert(full.subrange(0, end as int).drop_last() =~= full.subrange(0, end - 1));
        end = end - 1;
    }
    let ghost head = full.subrange(0, end as int);
    assert(trim_end(head) == head);
    let mut start: usize = end;
    assert(head.subrange(0, end as int) =~= head);
    assert(head.subrange(end as int, end as int) =~= Seq::<char>::empty());
    while start > 0 && !white_space(s.get_char(start - 1))
        invariant
            n == full.len(),
            full == s@,
            start <= end <= n,
            head == full.subrange(0, end as int),
            final_run(head) == final_run(head.subrange(0, start as int)) + head.subrange(
                start as int,
                end as int,
            ),
        decreases start,
    {
        let ghost p = head.subrange(0, start as int);
        assert(p.drop_last() =~= head.subrange(0, start - 1));
        assert(head.subrange(start - 1, end as int) =~= seq![p.last()] + head.subrange(
            start as int,
            end as int,
        ));
        start = start - 1;
    }
    assert(final_run(head.subrange(0, start as int)) =~= Seq::empty());
    assert(head.subrange(start as int, end as int) =~= full.subrange(start as int, end as int));
    (start, end)
}

/// The build date that a firmware string ends with, if its last word is one.
pub open spec fn firmware_date(firmware: Seq<char>) -> Option<CalendarDate> {
    if is_date_token(last_token(firmware)) {
        date_of_token(last_token(firmware))
    } else {
        None
    }
}

/// Reads the build date at the end of a firmware string such as
/// `VIRPIL Controls 20241225`.
pub fn firmware_build_date(firmware: &str) -> (r: Option<CalendarDate>)
    ensures
        r == firmware_date(firmware@),
{
    let (start, end) = last_token_range(firmware);
    let token = firmware.substring_char(start, end);
    if end - start != 8 {
        return None;
    }
    let mut i: usize = 0;
    while i < 8
        invariant
            token@ == last_token(firmware@),
            token@.len() == 8,
            i <= 8,
            forall|j: int| 0 <= j < i ==> is_ascii_digit(#[trigger] token@[j]),
        decreases 8 - i,
    {
        let c = token.get_char(i);
        if !('0' <= c && c <= '9') {
            return None;
        }
        i = i + 1;
    }
    parse_date_token(token)
}

/// Whether a device with this firmware string can take part. Every firmware
/// is accepted at present, whether or not the check is skipped.
pub fn is_supported(firmware_string: String, skip_firmware: bool) -> (r: bool)
    ensures
        r,
{
    if skip_firmware {
        return true;
    }
    true
}

/// What a rule tests of a device.
#[derive(Clone, Copy, Debug, PartialEq, Eq, Structural)]
pub enum FormatPredicate {
    /// The firmware string ends with a build date strictly before this day.
    FirmwareBuiltBefore(CalendarDate),
}

pub open spec fn predicate_holds(p: FormatPredicate, name: Seq<char>, firmware: Seq<char>) -> bool {
    match p {
        FormatPredicate::FirmwareBuiltBefore(limit) => match firmware_date(firmware) {
            Some(d) => d.spec_is_before(limit),
            None => false,
        },
    }
}

/// A rule: devices that satisfy `predicate` use `format`.
#[derive(Clone, Copy, Debug)]
pub struct FormatRule {
    pub predicate: FormatPredicate,
    pub format: ReportFormat,
}

/// The first build day that uses the current layout.
pub open spec fn spec_current_layout_since() -> CalendarDate {
    CalendarDate { year: 2024, month: 12, day: 26 }
}

#[verifier::when_used_as_spec(spec_current_layout_since)]
pub fn current_layout_since() -> (r: CalendarDate)
    ensures
        r == spec_current_layout_since(),
{
    CalendarDate { year: 2024, month: 12, day: 26 }
}

/// The rules, in the order they are tried.
pub open spec fn spec_format_rules() -> Seq<FormatRule> {
    seq![
        FormatRule {
            predicate: FormatPredicate::FirmwareBuiltBefore(spec_current_layout_since()),
            format: ReportFormat::legacy_layout(),
        },
    ]
}

/// The layout that applies when no rule matches: the newest one.
pub open spec fn default_format() -> ReportFormat {
    ReportFormat::current_layout()
}

pub fn format_rules() -> (r: Vec<FormatRule>)
    ensures
        r@ == spec_format_rules(),
{
    let mut rules: Vec<FormatRule> = Vec::new();
    rules.push(
        FormatRule {
            predicate: FormatPredicate::FirmwareBuiltBefore(current_layout_since()),
            format: ReportFormat::legacy(),
        },
    );
    assert(rules@ =~= spec_format_rules());
    rules
}

/// The format of the first rule in `rules` that the device satisfies, or the
/// default when none does.
pub open spec fn first_match(rules: Seq<FormatRule>, name: Seq<char>, firmware: Seq<char>) -> ReportFormat
    decreases rules.len(),
{
    if rules.len() == 0 {
        default_format()
    } else if predicate_holds(rules[0].predicate, name, firmware) {
        rules[0].format
    } else {
        first_match(rules.drop_first(), name, firmware)
    }
}

/// Tests one predicate on a device.
pub fn predicate_matches(p: &FormatPredicate, name: &str, firmware: &str) -> (r: bool)
    ensures
        r == predicate_holds(*p, name@, firmware@),
{
    match p {
        FormatPredicate::FirmwareBuiltBefore(limit) => match firmware_build_date(firmware) {
            Some(d) => d.is_before(limit),
            None => false,
        },
    }
}

/// Chooses the report layout of a device from its name and firmware string:
/// the first rule that matches wins, and the newest layout is the default.
pub fn determine_report_format(name: &str, firmware: &str) -> (r: ReportFormat)
    ensures
        r == first_match(spec_format_rules(), name@, firmware@),
        r == (if predicate_holds(
            FormatPredicate::FirmwareBuiltBefore(spec_current_layout_since()),
            name@,
            firmware@,
        ) {
            ReportFormat::legacy_layout()
        } else {
            ReportFormat::current_layout()
        }),
{
    let rules = format_rules();
    let mut i: usize = 0;
    assert(rules@.subrange(0, rules@.len() as int) =~= rules@);
    while i < rules.len()
        invariant
            rules@ == spec_format_rules(),
            i <= rules@.len(),
            first_match(spec_format_rules(), name@, firmware@) == first_match(
                rules@.subrange(i as int, rules@.len() as int),
                name@,
                firmware@,
            ),
        decreases rules.len() - i,
    {
        let rule = &rules[i];
        assert(rules@.subrange(i as int, rules@.len() as int).drop_first() =~= rules@.subrange(
            i + 1,
            rules@.len() as int,
        ));
        if predicate_matches(&rule.predicate, name, firmware) {
            return rule.format;
        }
        i = i + 1;
    }
    proof {
        reveal_with_fuel(first_match, 2);
    }
    ReportFormat::current()
}

} // verus!
