//! The date/time-range parser.
//!
//! A recursive-descent parser with backtracking over a small, human-typed
//! grammar, matched case-insensitively (the entry point lower-cases the
//! input once):
//!
//! ```text
//! range        := multi-day-range | single-day-range
//! multi-day-range  := date time "-" date time
//! single-day-range := date [","] time "-" time
//! date         := "today" | "tomorrow" | NUMBER "/" NUMBER
//! time         := NUMBER [":" NUMBER] [meridiem]
//! meridiem     := "am" | "pm"
//! ```
//!
//! Every resolver takes the input and a cursor (the index of the first
//! unconsumed byte) and returns a new cursor together with its resolved
//! value, never mutating shared state; a failed alternative's cursor is
//! simply discarded, which is what makes speculative backtracking sound.
//! The multi-day production is attempted first (it is the more specific
//! one); on its failure the single-day production is attempted, and that
//! production's error is the one reported when both fail.
//!
//! Semantically out-of-range values are rejected before any calendar value
//! is built: an hour above 23 (after meridiem normalization) or a minute
//! above 59 fails with `IllegalTime`, as does a numeric token that exceeds
//! `u32::MAX`; a month/day pair that names no date of the current year makes
//! the date production fail, surfacing as `UnrecognizedDate`.

use vstd::prelude::*;

use crate::instant::{Instant, InstantModel, spec_midnight, spec_next_day, spec_valid_month_day,
    spec_with_month_day, days_in_month};
use vstd::string::StringSliceAdditionalSpecFns;

verus! {

/// AM/PM designator disambiguating 12-hour time input.
#[derive(PartialEq, Eq, Structural, Clone, Copy, Debug)]
pub enum Meridiem {
    Am,
    Pm,
}

/// The closed taxonomy of parse failures. `ExpectedLiteral` carries the
/// literal that was required.
#[derive(Debug, PartialEq, Eq)]
pub enum ParseErrorReason {
    /// None of the three date productions matched.
    UnrecognizedDate,
    /// Neither `am` nor `pm` matched where a meridiem was required.
    IllegalMeridiem,
    /// A required punctuation or keyword literal was absent.
    ExpectedLiteral(Vec<u8>),
    /// A required numeric token had zero leading digits.
    ExpectedNumber,
    /// A numeric time component was out of range.
    IllegalTime,
}

/// A parse failure: the reason, and the offending suffix of the
/// (lower-cased) input for diagnostics.
#[derive(Debug, PartialEq, Eq)]
pub struct ParseError {
    pub reason: ParseErrorReason,
    pub source: Option<Vec<u8>>,
}

/// The mathematical value of a [`ParseErrorReason`].
pub enum ReasonModel {
    UnrecognizedDate,
    IllegalMeridiem,
    ExpectedLiteral(Seq<u8>),
    ExpectedNumber,
    IllegalTime,
}

/// The mathematical value of a [`ParseError`].
pub struct ErrModel {
    pub reason: ReasonModel,
    pub source: Option<Seq<u8>>,
}

impl View for ParseErrorReason {
    type V = ReasonModel;

    open spec fn view(&self) -> ReasonModel {
        match self {
            ParseErrorReason::UnrecognizedDate => ReasonModel::UnrecognizedDate,
            ParseErrorReason::IllegalMeridiem => ReasonModel::IllegalMeridiem,
            ParseErrorReason::ExpectedLiteral(lit) => ReasonModel::ExpectedLiteral(lit@),
            ParseErrorReason::ExpectedNumber => ReasonModel::ExpectedNumber,
            ParseErrorReason::IllegalTime => ReasonModel::IllegalTime,
        }
    }
}

impl View for ParseError {
    type V = ErrModel;

    open spec fn view(&self) -> ErrModel {
        ErrModel {
            reason: self.reason@,
            source: match &self.source {
                Option::None => Option::None,
                Option::Some(v) => Option::Some(v@),
            },
        }
    }
}

/// The bytes of the keyword `today`.
pub open spec fn lit_today() -> Seq<u8> {
    seq![116u8, 111u8, 100u8, 97u8, 121u8]
}

/// The bytes of the keyword `tomorrow`.
pub open spec fn lit_tomorrow() -> Seq<u8> {
    seq![116u8, 111u8, 109u8, 111u8, 114u8, 114u8, 111u8, 119u8]
}

/// The bytes of the keyword `am`.
pub open spec fn lit_am() -> Seq<u8> {
    seq![97u8, 109u8]
}

/// The bytes of the keyword `pm`.
pub open spec fn lit_pm() -> Seq<u8> {
    seq![112u8, 109u8]
}

/// An ASCII space.
pub open spec fn is_space(c: u8) -> bool {
    c == 32
}

/// An ASCII decimal digit.
pub open spec fn is_digit(c: u8) -> bool {
    48 <= c <= 57
}

/// The first index at or after `i` that does not hold a space (or the end
/// of the input).
pub open spec fn spec_skip_spaces(s: Seq<u8>, i: int) -> int
    recommends
        0 <= i <= s.len(),
    decreases s.len() - i,
{
    if i < s.len() && is_space(s[i]) {
        spec_skip_spaces(s, i + 1)
    } else {
        i
    }
}

/// The end of the maximal run of digits starting at `i`.
pub open spec fn spec_digits_end(s: Seq<u8>, i: int) -> int
    recommends
        0 <= i <= s.len(),
    decreases s.len() - i,
{
    if i < s.len() && is_digit(s[i]) {
        spec_digits_end(s, i + 1)
    } else {
        i
    }
}

/// The value of the decimal digit run `s[i..j]`.
pub open spec fn spec_digits_value(s: Seq<u8>, i: int, j: int) -> int
    recommends
        0 <= i <= j <= s.len(),
    decreases j - i,
{
    if i >= j {
        0
    } else {
        spec_digits_value(s, i, j - 1) * 10 + (s[j - 1] - 48)
    }
}

pub proof fn lemma_skip_spaces_bounds(s: Seq<u8>, i: int)
    requires
        0 <= i <= s.len(),
    ensures
        i <= spec_skip_spaces(s, i) <= s.len(),
    decreases s.len() - i,
{
    if i < s.len() && is_space(s[i]) {
        lemma_skip_spaces_bounds(s, i + 1);
    }
}

/// The digit run ends within the input, holds only digits, and is maximal.
pub proof fn lemma_digits_end_digits(s: Seq<u8>, i: int)
    requires
        0 <= i <= s.len(),
    ensures
        i <= spec_digits_end(s, i) <= s.len(),
        forall|t: int| i <= t < spec_digits_end(s, i) ==> is_digit(s[t]),
        spec_digits_end(s, i) < s.len() ==> !is_digit(s[spec_digits_end(s, i)]),
    decreases s.len() - i,
{
    if i < s.len() && is_digit(s[i]) {
        lemma_digits_end_digits(s, i + 1);
    }
}

pub proof fn lemma_digits_value_nonneg(s: Seq<u8>, i: int, j: int)
    requires
        forall|t: int| i <= t < j ==> is_digit(s[t]),
    ensures
        spec_digits_value(s, i, j) >= 0,
    decreases j - i,
{
    if i < j {
        lemma_digits_value_nonneg(s, i, j - 1);
    }
}

/// Appending more digits to a run never lowers its value.
pub proof fn lemma_digits_value_mono(s: Seq<u8>, i: int, j: int, k: int)
    requires
        i <= j <= k,
        forall|t: int| i <= t < k ==> is_digit(s[t]),
    ensures
        spec_digits_value(s, i, j) <= spec_digits_value(s, i, k),
    decreases k - j,
{
    if j < k {
        lemma_digits_value_mono(s, i, j, k - 1);
        lemma_digits_value_nonneg(s, i, k - 1);
    }
}

/// A copy of the input's suffix from `i` on, carried in errors for
/// diagnostics.
fn suffix_vec(s: &[u8], i: usize) -> (v: Vec<u8>)
    requires
        i <= s.len(),
    ensures
        v@ == s@.skip(i as int),
{
    let mut v: Vec<u8> = Vec::new();
    let mut k: usize = i;
    while k < s.len()
        invariant
            i <= k <= s.len(),
            v@ == s@.subrange(i as int, k as int),
        decreases s.len() - k,
    {
        v.push(s[k]);
        k = k + 1;
        proof {
            assert(v@ =~= s@.subrange(i as int, k as int));
        }
    }
    proof {
        assert(v@ =~= s@.skip(i as int));
    }
    v
}

fn skip_spaces(s: &[u8], i: usize) -> (j: usize)
    requires
        i <= s.len(),
    ensures
        j == spec_skip_spaces(s@, i as int),
        i <= j <= s.len(),
    decreases s.len() - i,
{
    let mut j: usize = i;
    while j < s.len() && s[j] == 32
        invariant
            i <= j <= s.len(),
            spec_skip_spaces(s@, i as int) == spec_skip_spaces(s@, j as int),
        decreases s.len() - j,
    {
        j = j + 1;
    }
    j
}

fn digits_end(s: &[u8], i: usize) -> (j: usize)
    requires
        i <= s.len(),
    ensures
        j == spec_digits_end(s@, i as int),
        i <= j <= s.len(),
{
    let mut j: usize = i;
    while j < s.len() && 48 <= s[j] && s[j] <= 57
        invariant
            i <= j <= s.len(),
            spec_digits_end(s@, i as int) == spec_digits_end(s@, j as int),
        decreases s.len() - j,
    {
        j = j + 1;
    }
    j
}

/// What the number scanner yields on `s` at cursor `i`: the cursor past the
/// maximal leading digit run and the run's value, `ExpectedNumber` when no
/// digit leads, and `IllegalTime` when the value does not fit a `u32`.
pub open spec fn spec_parse_number(s: Seq<u8>, i: int) -> Result<(int, int), ErrModel> {
    let j = spec_digits_end(s, i);
    if j == i {
        Result::Err(ErrModel { reason: ReasonModel::ExpectedNumber, source: Option::Some(s.skip(i)) })
    } else if spec_digits_value(s, i, j) > u32::MAX {
        Result::Err(ErrModel { reason: ReasonModel::IllegalTime, source: Option::Some(s.skip(i)) })
    } else {
        Result::Ok((j, spec_digits_value(s, i, j)))
    }
}

/// The number scanner: consumes the maximal leading run of ASCII digits and
/// parses it as an unsigned integer. No sign and no whitespace handling —
/// whitespace belongs to the literal matcher.
pub fn parse_number(s: &[u8], i: usize) -> (r: Result<(usize, u32), ParseError>)
    requires
        i <= s.len(),
    ensures
        (match (r, spec_parse_number(s@, i as int)) {
            (Result::Ok((j, v)), Result::Ok((mj, mv))) => j == mj && v == mv && j <= s@.len(),
            (Result::Err(e), Result::Err(me)) => e@ == me,
            _ => false,
        }),
{
    let end: usize = digits_end(s, i);
    proof {
        lemma_digits_end_digits(s@, i as int);
    }
    if end == i {
        return Result::Err(ParseError {
            reason: ParseErrorReason::ExpectedNumber,
            source: Option::Some(suffix_vec(s, i)),
        });
    }
    let mut acc: u64 = 0;
    let mut k: usize = i;
    while k < end
        invariant
            i <= k <= end <= s.len(),
            end == spec_digits_end(s@, i as int),
            forall|t: int| i <= t < end ==> is_digit(s@[t]),
            acc == spec_digits_value(s@, i as int, k as int),
            acc <= u32::MAX as u64,
        decreases end - k,
    {
        let d: u64 = (s[k] - 48) as u64;
        acc = acc * 10 + d;
        k = k + 1;
        if acc > u32::MAX as u64 {
            proof {
                lemma_digits_value_mono(s@, i as int, k as int, end as int);
            }
            return Result::Err(ParseError {
                reason: ParseErrorReason::IllegalTime,
                source: Option::Some(suffix_vec(s, i)),
            });
        }
    }
    Result::Ok((end, acc as u32))
}

/// What the literal matcher yields on `s` at cursor `i` for literal `lit`:
/// leading spaces are stripped, the literal must follow; on success the
/// cursor moves past the literal and any spaces after it.
pub open spec fn spec_parse_literal(s: Seq<u8>, i: int, lit: Seq<u8>) -> Result<int, ErrModel> {
    let j = spec_skip_spaces(s, i);
    if j + lit.len() <= s.len() && s.subrange(j, j + lit.len()) == lit {
        Result::Ok(spec_skip_spaces(s, j + lit.len()))
    } else {
        Result::Err(ErrModel {
            reason: ReasonModel::ExpectedLiteral(lit),
            source: Option::Some(s.skip(j)),
        })
    }
}

/// The literal matcher: strips leading spaces, requires `lit` as a prefix,
/// then strips the literal and any spaces after it. The two-sided space
/// stripping is what lets the grammar tolerate irregular spacing around
/// punctuation.
pub fn parse_literal(s: &[u8], i: usize, lit: &[u8]) -> (r: Result<usize, ParseError>)
    requires
        i <= s.len(),
    ensures
        (match (r, spec_parse_literal(s@, i as int, lit@)) {
            (Result::Ok(j), Result::Ok(mj)) => j == mj && j <= s@.len(),
            (Result::Err(e), Result::Err(me)) => e@ == me,
            _ => false,
        }),
{
    let j: usize = skip_spaces(s, i);
    if lit.len() <= s.len() - j {
        let mut t: usize = 0;
        while t < lit.len()
            invariant
                i <= s.len(),
                i <= j <= s.len(),
                j == spec_skip_spaces(s@, i as int),
                j + lit.len() <= s.len(),
                0 <= t <= lit.len(),
                forall|u: int| 0 <= u < t ==> s@[j + u] == lit@[u],
            decreases lit.len() - t,
        {
            if s[j + t] != lit[t] {
                proof {
                    assert(s@.subrange(j as int, j as int + lit@.len())[t as int] != lit@[t as int]);
                }
                return Result::Err(ParseError {
                    reason: ParseErrorReason::ExpectedLiteral(vstd::slice::slice_to_vec(lit)),
                    source: Option::Some(suffix_vec(s, j)),
                });
            }
            t = t + 1;
        }
        proof {
            assert(s@.subrange(j as int, j as int + lit@.len()) =~= lit@);
        }
        let k: usize = skip_spaces(s, j + lit.len());
        Result::Ok(k)
    } else {
        Result::Err(ParseError {
            reason: ParseErrorReason::ExpectedLiteral(vstd::slice::slice_to_vec(lit)),
            source: Option::Some(suffix_vec(s, j)),
        })
    }
}

/// What the meridiem resolver yields: `am`, else `pm`, else
/// `IllegalMeridiem` with the remaining slice.
pub open spec fn spec_parse_meridiem(s: Seq<u8>, i: int) -> Result<(int, Meridiem), ErrModel> {
    match spec_parse_literal(s, i, lit_am()) {
        Result::Ok(j) => Result::Ok((j, Meridiem::Am)),
        Result::Err(_) => match spec_parse_literal(s, i, lit_pm()) {
            Result::Ok(j) => Result::Ok((j, Meridiem::Pm)),
            Result::Err(_) => Result::Err(ErrModel {
                reason: ReasonModel::IllegalMeridiem,
                source: Option::Some(s.skip(i)),
            }),
        },
    }
}

/// The meridiem resolver: tries the literal `am`, then `pm`. Callers treat
/// a meridiem as optional, so the failure only surfaces where one is
/// explicitly required.
pub fn parse_meridiem(s: &[u8], i: usize) -> (r: Result<(usize, Meridiem), ParseError>)
    requires
        i <= s.len(),
    ensures
        (match (r, spec_parse_meridiem(s@, i as int)) {
            (Result::Ok((j, m)), Result::Ok((mj, mm))) => j == mj && m == mm && j <= s@.len(),
            (Result::Err(e), Result::Err(me)) => e@ == me,
            _ => false,
        }),
{
    let am: Vec<u8> = am_bytes();
    match parse_literal(s, i, am.as_slice()) {
        Result::Ok(j) => Result::Ok((j, Meridiem::Am)),
        Result::Err(_) => {
            let pm: Vec<u8> = pm_bytes();
            match parse_literal(s, i, pm.as_slice()) {
                Result::Ok(j) => Result::Ok((j, Meridiem::Pm)),
                Result::Err(_) => Result::Err(ParseError {
                    reason: ParseErrorReason::IllegalMeridiem,
                    source: Option::Some(suffix_vec(s, i)),
                }),
            }
        },
    }
}

/// The bytes of the separator `,`.
pub open spec fn lit_comma() -> Seq<u8> {
    seq![44u8]
}

/// The bytes of the separator `-`.
pub open spec fn lit_hyphen() -> Seq<u8> {
    seq![45u8]
}

/// The bytes of the separator `/`.
pub open spec fn lit_slash() -> Seq<u8> {
    seq![47u8]
}

/// The bytes of the separator `:`.
pub open spec fn lit_colon() -> Seq<u8> {
    seq![58u8]
}

/// Meridiem-driven hour normalization: hour 12 with AM becomes 0, hour 12
/// with PM stays 12, any other hour gains 12 under PM. An absent meridiem
/// defaults to AM, so a 24-hour reading like `14` is taken literally (and
/// a bare `12` resolves to midnight, by the same default).
pub open spec fn spec_norm_hour(h: int, m: Option<Meridiem>) -> int {
    if h == 12 && m != Option::Some(Meridiem::Pm) {
        0
    } else if h != 12 && m == Option::Some(Meridiem::Pm) {
        h + 12
    } else {
        h
    }
}

/// The tail of the time-of-day resolver, after the hour (and optional
/// minute) tokens: an optional meridiem, hour normalization, and the range
/// check that rejects an out-of-range hour or minute as `IllegalTime`
/// (carrying the slice the whole time resolver started on) before any
/// calendar value is built.
pub open spec fn spec_finish_time(
    base: InstantModel,
    s: Seq<u8>,
    istart: int,
    i2: int,
    h: int,
    mi: int,
) -> Result<(int, InstantModel), ErrModel> {
    let (i3, mer) = match spec_parse_meridiem(s, i2) {
        Result::Ok((j, m)) => (j, Option::Some(m)),
        Result::Err(_) => (i2, Option::<Meridiem>::None),
    };
    let nh = spec_norm_hour(h, mer);
    if nh > 23 || mi > 59 {
        Result::Err(ErrModel { reason: ReasonModel::IllegalTime, source: Option::Some(s.skip(istart)) })
    } else {
        Result::Ok((i3, InstantModel { hour: nh, minute: mi, ..base }))
    }
}

/// What the time-of-day resolver yields on `s` at cursor `i`, anchored to
/// `base` (a date-resolved instant): an hour, optionally `:` and a minute
/// (default 0), optionally a meridiem. The normalized hour and the minute
/// replace `base`'s time-of-day fields; everything else of `base` is kept.
pub open spec fn spec_parse_time(base: InstantModel, s: Seq<u8>, i: int) -> Result<
    (int, InstantModel),
    ErrModel,
> {
    match spec_parse_number(s, i) {
        Result::Err(e) => Result::Err(e),
        Result::Ok((i1, h)) => match spec_parse_literal(s, i1, lit_colon()) {
            Result::Ok(ic) => match spec_parse_number(s, ic) {
                Result::Err(e) => Result::Err(e),
                Result::Ok((i2, mi)) => spec_finish_time(base, s, i, i2, h, mi),
            },
            Result::Err(_) => spec_finish_time(base, s, i, i1, h, 0),
        },
    }
}

fn finish_time(base: &Instant, s: &[u8], istart: usize, i2: usize, h: u32, mi: u32) -> (r: Result<
    (usize, Instant),
    ParseError,
>)
    requires
        istart <= s.len(),
        i2 <= s.len(),
    ensures
        (match (r, spec_finish_time(base@, s@, istart as int, i2 as int, h as int, mi as int)) {
            (Result::Ok((j, t)), Result::Ok((mj, mt))) => j == mj && t@ == mt && j <= s@.len(),
            (Result::Err(e), Result::Err(me)) => e@ == me,
            _ => false,
        }),
{
    let m_res: Result<(usize, Meridiem), ParseError> = parse_meridiem(s, i2);
    let (i3, mo): (usize, Option<Meridiem>) = match m_res {
        Result::Ok((j, m)) => (j, Option::Some(m)),
        Result::Err(_) => (i2, Option::None),
    };
    let is_pm: bool = match mo {
        Option::Some(Meridiem::Pm) => true,
        _ => false,
    };
    if h > 23 {
        return Result::Err(ParseError {
            reason: ParseErrorReason::IllegalTime,
            source: Option::Some(suffix_vec(s, istart)),
        });
    }
    let nh: u32 = if h == 12 && !is_pm {
        0
    } else if h != 12 && is_pm {
        h + 12
    } else {
        h
    };
    if nh > 23 || mi > 59 {
        return Result::Err(ParseError {
            reason: ParseErrorReason::IllegalTime,
            source: Option::Some(suffix_vec(s, istart)),
        });
    }
    Result::Ok((i3, Instant {
        year: base.year,
        month: base.month,
        day: base.day,
        hour: nh,
        minute: mi,
        second: base.second,
        tz: base.tz.clone(),
    }))
}

/// The time-of-day resolver: `NUMBER [":" NUMBER] [meridiem]`, anchored to
/// `base`. No bound is assumed of the numeric tokens; an hour above 23
/// after meridiem normalization, or a minute above 59, fails with
/// `IllegalTime` before any calendar value is built.
pub fn parse_time(base: &Instant, s: &[u8], i: usize) -> (r: Result<(usize, Instant), ParseError>)
    requires
        i <= s.len(),
    ensures
        (match (r, spec_parse_time(base@, s@, i as int)) {
            (Result::Ok((j, t)), Result::Ok((mj, mt))) => j == mj && t@ == mt && j <= s@.len(),
            (Result::Err(e), Result::Err(me)) => e@ == me,
            _ => false,
        }),
{
    let hr: Result<(usize, u32), ParseError> = parse_number(s, i);
    let (i1, h): (usize, u32) = match hr {
        Result::Ok(p) => p,
        Result::Err(e) => {
            return Result::Err(e);
        },
    };
    let colon: Vec<u8> = one_byte_vec(58);
    match parse_literal(s, i1, colon.as_slice()) {
        Result::Ok(ic) => match parse_number(s, ic) {
            Result::Ok((i2, mi)) => finish_time(base, s, i, i2, h, mi),
            Result::Err(e) => Result::Err(e),
        },
        Result::Err(_) => finish_time(base, s, i, i1, h, 0),
    }
}

/// The `UnrecognizedDate` failure for the slice starting at `i`.
pub open spec fn spec_unrecognized_date(s: Seq<u8>, i: int) -> ErrModel {
    ErrModel { reason: ReasonModel::UnrecognizedDate, source: Option::Some(s.skip(i)) }
}

/// What the month/day date production yields: `NUMBER "/" NUMBER`, kept
/// only when the pair names a date of `now`'s year (the year is always
/// taken from `now`; the grammar has no year token). Any failure —
/// lexical, or a pair that names no real date — is `UnrecognizedDate`.
pub open spec fn spec_parse_month_day(now: InstantModel, s: Seq<u8>, i: int) -> Result<
    (int, InstantModel),
    ErrModel,
> {
    match spec_parse_number(s, i) {
        Result::Err(_) => Result::Err(spec_unrecognized_date(s, i)),
        Result::Ok((i1, m)) => match spec_parse_literal(s, i1, lit_slash()) {
            Result::Err(_) => Result::Err(spec_unrecognized_date(s, i)),
            Result::Ok(i2) => match spec_parse_number(s, i2) {
                Result::Err(_) => Result::Err(spec_unrecognized_date(s, i)),
                Result::Ok((i3, d)) => if spec_valid_month_day(now.year, m, d) {
                    Result::Ok((i3, spec_with_month_day(spec_midnight(now), m, d)))
                } else {
                    Result::Err(spec_unrecognized_date(s, i))
                },
            },
        },
    }
}

/// What the date resolver yields on `s` at cursor `i`: `today` is `now`
/// truncated to local midnight; `tomorrow` is that midnight's next
/// calendar day; otherwise the month/day production is attempted. Each
/// alternative restarts from the original cursor, so a failed attempt
/// leaks nothing into the next.
pub open spec fn spec_parse_date(now: InstantModel, s: Seq<u8>, i: int) -> Result<
    (int, InstantModel),
    ErrModel,
> {
    if spec_parse_literal(s, i, lit_today()) is Ok {
        Result::Ok((spec_parse_literal(s, i, lit_today())->Ok_0, spec_midnight(now)))
    } else if spec_parse_literal(s, i, lit_tomorrow()) is Ok {
        Result::Ok((spec_parse_literal(s, i, lit_tomorrow())->Ok_0, spec_next_day(spec_midnight(now))))
    } else {
        spec_parse_month_day(now, s, i)
    }
}

fn unrecognized_date_err(s: &[u8], i: usize) -> (e: ParseError)
    requires
        i <= s.len(),
    ensures
        e@ == spec_unrecognized_date(s@, i as int),
{
    ParseError { reason: ParseErrorReason::UnrecognizedDate, source: Option::Some(suffix_vec(s, i)) }
}

fn parse_month_day_date(now: &Instant, s: &[u8], i: usize) -> (r: Result<(usize, Instant), ParseError>)
    requires
        now@.wf(),
        i <= s.len(),
    ensures
        (match (r, spec_parse_month_day(now@, s@, i as int)) {
            (Result::Ok((j, d)), Result::Ok((mj, md))) => j == mj && d@ == md && j <= s@.len(),
            (Result::Err(e), Result::Err(me)) => e@ == me,
            _ => false,
        }),
{
    let mr: Result<(usize, u32), ParseError> = parse_number(s, i);
    let (i1, m): (usize, u32) = match mr {
        Result::Ok(p) => p,
        Result::Err(_) => {
            return Result::Err(unrecognized_date_err(s, i));
        },
    };
    let slash: Vec<u8> = one_byte_vec(47);
    let i2: usize = match parse_literal(s, i1, slash.as_slice()) {
        Result::Ok(j) => j,
        Result::Err(_) => {
            return Result::Err(unrecognized_date_err(s, i));
        },
    };
    let dr: Result<(usize, u32), ParseError> = parse_number(s, i2);
    let (i3, d): (usize, u32) = match dr {
        Result::Ok(p) => p,
        Result::Err(_) => {
            return Result::Err(unrecognized_date_err(s, i));
        },
    };
    if 1 <= m && m <= 12 {
        let dim: u32 = days_in_month(now.year, m);
        if 1 <= d && d <= dim {
            return Result::Ok((i3, Instant {
                year: now.year,
                month: m,
                day: d,
                hour: 0,
                minute: 0,
                second: 0,
                tz: now.tz.clone(),
            }));
        }
    }
    Result::Err(unrecognized_date_err(s, i))
}

/// The date resolver: tries `today`, then `tomorrow`, then
/// `NUMBER "/" NUMBER`, each attempt restarting from the original cursor;
/// if none matches, fails with `UnrecognizedDate` carrying the whole
/// slice.
pub fn parse_date(now: &Instant, s: &[u8], i: usize) -> (r: Result<(usize, Instant), ParseError>)
    requires
        now@.wf(),
        i <= s.len(),
    ensures
        (match (r, spec_parse_date(now@, s@, i as int)) {
            (Result::Ok((j, d)), Result::Ok((mj, md))) => j == mj && d@ == md && j <= s@.len(),
            (Result::Err(e), Result::Err(me)) => e@ == me,
            _ => false,
        }),
{
    let today: Vec<u8> = today_bytes();
    match parse_literal(s, i, today.as_slice()) {
        Result::Ok(j) => {
            return Result::Ok((j, now.midnight()));
        },
        Result::Err(_) => {},
    }
    let tomorrow: Vec<u8> = tomorrow_bytes();
    match parse_literal(s, i, tomorrow.as_slice()) {
        Result::Ok(j) => {
            let t: Instant = now.midnight();
            return Result::Ok((j, t.next_day()));
        },
        Result::Err(_) => {},
    }
    parse_month_day_date(now, s, i)
}

/// ASCII lower-casing of one byte.
pub open spec fn spec_lower_byte(c: u8) -> u8 {
    if 65 <= c <= 90 {
        (c + 32) as u8
    } else {
        c
    }
}

/// ASCII lower-casing of the whole input, applied once by the entry
/// point. Every keyword and separator of the grammar is ASCII, so this is
/// exactly what case-insensitive matching needs; bytes outside the ASCII
/// uppercase range pass through unchanged.
pub open spec fn spec_lower(s: Seq<u8>) -> Seq<u8> {
    Seq::new(s.len(), |k: int| spec_lower_byte(s[k]))
}

fn to_lower_vec(s: &[u8]) -> (v: Vec<u8>)
    ensures
        v@ == spec_lower(s@),
{
    let mut v: Vec<u8> = Vec::new();
    let mut k: usize = 0;
    while k < s.len()
        invariant
            0 <= k <= s.len(),
            v@.len() == k,
            forall|t: int| 0 <= t < k ==> v@[t] == spec_lower_byte(s@[t]),
        decreases s.len() - k,
    {
        let c: u8 = s[k];
        let lc: u8 = if 65 <= c && c <= 90 {
            c + 32
        } else {
            c
        };
        v.push(lc);
        k = k + 1;
    }
    proof {
        assert(v@ =~= spec_lower(s@));
    }
    v
}

/// What the single-day production yields: a date, an optional comma, and
/// two times, both anchored to that date — start and end share the
/// calendar date the date token resolved to and differ only in
/// time-of-day.
pub open spec fn spec_parse_single(now: InstantModel, s: Seq<u8>) -> Result<
    (InstantModel, InstantModel),
    ErrModel,
> {
    match spec_parse_date(now, s, 0) {
        Result::Err(e) => Result::Err(e),
        Result::Ok((i1, date)) => {
            let i2 = match spec_parse_literal(s, i1, lit_comma()) {
                Result::Ok(j) => j,
                Result::Err(_) => i1,
            };
            match spec_parse_time(date, s, i2) {
                Result::Err(e) => Result::Err(e),
                Result::Ok((i3, start)) => match spec_parse_literal(s, i3, lit_hyphen()) {
                    Result::Err(e) => Result::Err(e),
                    Result::Ok(i4) => match spec_parse_time(date, s, i4) {
                        Result::Err(e) => Result::Err(e),
                        Result::Ok((i5, end)) => Result::Ok((start, end)),
                    },
                },
            }
        },
    }
}

/// What the multi-day production yields: a date and time, a hyphen, then
/// a second date and time. Both dates are resolved independently against
/// the same `now`, so `tomorrow` after the hyphen is still relative to
/// the caller's real now, not to the first resolved date.
pub open spec fn spec_parse_multi(now: InstantModel, s: Seq<u8>) -> Result<
    (InstantModel, InstantModel),
    ErrModel,
> {
    match spec_parse_date(now, s, 0) {
        Result::Err(e) => Result::Err(e),
        Result::Ok((i1, d1)) => match spec_parse_time(d1, s, i1) {
            Result::Err(e) => Result::Err(e),
            Result::Ok((i2, start)) => match spec_parse_literal(s, i2, lit_hyphen()) {
                Result::Err(e) => Result::Err(e),
                Result::Ok(i3) => match spec_parse_date(now, s, i3) {
                    Result::Err(e) => Result::Err(e),
                    Result::Ok((i4, d2)) => match spec_parse_time(d2, s, i4) {
                        Result::Err(e) => Result::Err(e),
                        Result::Ok((i5, end)) => Result::Ok((start, end)),
                    },
                },
            },
        },
    }
}

/// What `parse` yields on the lower-cased input: the multi-day production
/// is attempted first (it is the more specific one); on its failure the
/// single-day production is attempted, and that production's error is the
/// one reported when both fail.
pub open spec fn spec_parse_range(now: InstantModel, s: Seq<u8>) -> Result<
    (InstantModel, InstantModel),
    ErrModel,
> {
    match spec_parse_multi(now, s) {
        Result::Ok(r) => Result::Ok(r),
        Result::Err(_) => spec_parse_single(now, s),
    }
}

/// What `parse` yields on the raw input: the range grammar applied to the
/// ASCII-lower-cased bytes.
pub open spec fn spec_parse(now: InstantModel, raw: Seq<u8>) -> Result<
    (InstantModel, InstantModel),
    ErrModel,
> {
    spec_parse_range(now, spec_lower(raw))
}

fn parse_single_day(now: &Instant, s: &[u8]) -> (r: Result<(Instant, Instant), ParseError>)
    requires
        now@.wf(),
    ensures
        (match (r, spec_parse_single(now@, s@)) {
            (Result::Ok((a, b)), Result::Ok((ma, mb))) => a@ == ma && b@ == mb,
            (Result::Err(e), Result::Err(me)) => e@ == me,
            _ => false,
        }),
{
    let dr: Result<(usize, Instant), ParseError> = parse_date(now, s, 0);
    let (i1, date): (usize, Instant) = match dr {
        Result::Ok(p) => p,
        Result::Err(e) => {
            return Result::Err(e);
        },
    };
    let comma: Vec<u8> = one_byte_vec(44);
    let i2: usize = match parse_literal(s, i1, comma.as_slice()) {
        Result::Ok(j) => j,
        Result::Err(_) => i1,
    };
    let t1: Result<(usize, Instant), ParseError> = parse_time(&date, s, i2);
    let (i3, start): (usize, Instant) = match t1 {
        Result::Ok(p) => p,
        Result::Err(e) => {
            return Result::Err(e);
        },
    };
    let hyphen: Vec<u8> = one_byte_vec(45);
    let i4: usize = match parse_literal(s, i3, hyphen.as_slice()) {
        Result::Ok(j) => j,
        Result::Err(e) => {
            return Result::Err(e);
        },
    };
    let t2: Result<(usize, Instant), ParseError> = parse_time(&date, s, i4);
    match t2 {
        Result::Ok((_i5, end)) => Result::Ok((start, end)),
        Result::Err(e) => Result::Err(e),
    }
}

fn parse_multi_day(now: &Instant, s: &[u8]) -> (r: Result<(Instant, Instant), ParseError>)
    requires
        now@.wf(),
    ensures
        (match (r, spec_parse_multi(now@, s@)) {
            (Result::Ok((a, b)), Result::Ok((ma, mb))) => a@ == ma && b@ == mb,
            (Result::Err(e), Result::Err(me)) => e@ == me,
            _ => false,
        }),
{
    let dr: Result<(usize, Instant), ParseError> = parse_date(now, s, 0);
    let (i1, d1): (usize, Instant) = match dr {
        Result::Ok(p) => p,
        Result::Err(e) => {
            return Result::Err(e);
        },
    };
    let t1: Result<(usize, Instant), ParseError> = parse_time(&d1, s, i1);
    let (i2, start): (usize, Instant) = match t1 {
        Result::Ok(p) => p,
        Result::Err(e) => {
            return Result::Err(e);
        },
    };
    let hyphen: Vec<u8> = one_byte_vec(45);
    let i3: usize = match parse_literal(s, i2, hyphen.as_slice()) {
        Result::Ok(j) => j,
        Result::Err(e) => {
            return Result::Err(e);
        },
    };
    let dr2: Result<(usize, Instant), ParseError> = parse_date(now, s, i3);
    let (i4, d2): (usize, Instant) = match dr2 {
        Result::Ok(p) => p,
        Result::Err(e) => {
            return Result::Err(e);
        },
    };
    let t2: Result<(usize, Instant), ParseError> = parse_time(&d2, s, i4);
    match t2 {
        Result::Ok((_i5, end)) => Result::Ok((start, end)),
        Result::Err(e) => Result::Err(e),
    }
}

/// The range parser's entry point: lower-cases the input once, tries the
/// multi-day production, then the single-day production; the first
/// success gives the override's (start, end) pair, in the order the
/// grammar produced them — chronological ordering is not checked, by
/// design, and is the caller's decision.
pub fn parse(now: &Instant, range_str: &str) -> (r: Result<(Instant, Instant), ParseError>)
    requires
        now@.wf(),
    ensures
        (match (r, spec_parse(now@, range_str.spec_bytes())) {
            (Result::Ok((a, b)), Result::Ok((ma, mb))) => a@ == ma && b@ == mb,
            (Result::Err(e), Result::Err(me)) => e@ == me,
            _ => false,
        }),
        (r matches Ok(p) ==> p.0@.valid_calendar() && p.1@.valid_calendar() && p.0@.tz == now@.tz
            && p.1@.tz == now@.tz),
{
    let bytes: &[u8] = range_str.as_bytes();
    let lowered: Vec<u8> = to_lower_vec(bytes);
    let r: Result<(Instant, Instant), ParseError> = match parse_multi_day(now, lowered.as_slice()) {
        Result::Ok(p) => Result::Ok(p),
        Result::Err(_) => parse_single_day(now, lowered.as_slice()),
    };
    proof {
        if r is Ok {
            lemma_parse_results_valid_calendar(now@, range_str.spec_bytes());
        }
    }
    r
}

/// Meridiem normalization law: hour 12 under AM resolves to 0 and stays
/// 12 under PM; any other hour gains 12 under PM and is unchanged under
/// AM; an hour other than 12 without a meridiem is taken literally
/// (24-hour interpretation). A bare 12 resolves to 0 — the AM default
/// applies to it like to every hour without a meridiem.
pub proof fn lemma_meridiem_normalization()
    ensures
        spec_norm_hour(12, Option::Some(Meridiem::Am)) == 0,
        spec_norm_hour(12, Option::Some(Meridiem::Pm)) == 12,
        spec_norm_hour(9, Option::Some(Meridiem::Pm)) == 21,
        spec_norm_hour(9, Option::Some(Meridiem::Am)) == 9,
        forall|h: int| h != 12 ==> spec_norm_hour(h, Option::Some(Meridiem::Pm)) == h + 12,
        forall|h: int| h != 12 ==> spec_norm_hour(h, Option::Some(Meridiem::Am)) == h,
        forall|h: int| h != 12 ==> spec_norm_hour(h, Option::<Meridiem>::None) == h,
        spec_norm_hour(12, Option::<Meridiem>::None) == 0,
{
}

/// Determinism law: the parser is a function of `now` and the input
/// alone, so two calls with the same `now` and the same input resolve to
/// the same result.
pub proof fn lemma_parse_deterministic(
    now1: InstantModel,
    now2: InstantModel,
    s1: Seq<u8>,
    s2: Seq<u8>,
)
    requires
        now1 == now2,
        s1 == s2,
    ensures
        spec_parse(now1, s1) == spec_parse(now2, s2),
{
}

/// Preference law: the multi-day production is attempted first, so
/// whenever it succeeds its result is the parser's result, whatever the
/// single-day production would have made of the input.
pub proof fn lemma_multi_day_preferred(now: InstantModel, s: Seq<u8>)
    requires
        spec_parse_multi(now, s) is Ok,
    ensures
        spec_parse_range(now, s) == spec_parse_multi(now, s),
{
}

/// `today` law: where the literal `today` matches, the date resolver
/// yields `now` truncated to local midnight — the same calendar date and
/// timezone, with the time-of-day fields zeroed.
pub proof fn lemma_today_resolves_to_midnight(now: InstantModel, s: Seq<u8>, i: int)
    requires
        spec_parse_literal(s, i, lit_today()) is Ok,
    ensures
        spec_parse_date(now, s, i) is Ok,
        ({
            let d = spec_parse_date(now, s, i)->Ok_0.1;
            &&& d == spec_midnight(now)
            &&& d.year == now.year
            &&& d.month == now.month
            &&& d.day == now.day
            &&& d.hour == 0
            &&& d.minute == 0
            &&& d.second == 0
            &&& d.tz == now.tz
        }),
{
}

/// `tomorrow` law: where the literal `tomorrow` matches, the date
/// resolver yields the calendar successor of today's local midnight, and
/// the result is itself a local midnight. Adding one calendar day in the
/// local calendar preserves local midnight even across a daylight-saving
/// transition, where adding a fixed 24 hours would not.
pub proof fn lemma_tomorrow_resolves_to_next_midnight(now: InstantModel, s: Seq<u8>, i: int)
    requires
        0 <= i <= s.len(),
        spec_parse_literal(s, i, lit_tomorrow()) is Ok,
    ensures
        spec_parse_date(now, s, i) is Ok,
        ({
            let d = spec_parse_date(now, s, i)->Ok_0.1;
            &&& d == spec_next_day(spec_midnight(now))
            &&& d.hour == 0
            &&& d.minute == 0
            &&& d.second == 0
            &&& d.tz == now.tz
        }),
{
    // The `today` literal cannot match where `tomorrow` does: where both
    // prefixes fit, the byte after "to" would have to be both 'd' and 'm'.
    if spec_parse_literal(s, i, lit_today()) is Ok {
        let j = spec_skip_spaces(s, i);
        lemma_skip_spaces_bounds(s, i);
        assert(lit_today()[2] == 100);
        assert(lit_tomorrow()[2] == 109);
        assert(s.subrange(j, j + 5) == lit_today());
        assert(s.subrange(j, j + 8) == lit_tomorrow());
        assert(s.subrange(j, j + 5)[2] == s[j + 2]);
        assert(s.subrange(j, j + 8)[2] == s[j + 2]);
        assert(false);
    }
}

/// The time-of-day resolver keeps the date it is anchored to: on success
/// the result differs from its base only in the hour and minute fields.
pub proof fn lemma_time_preserves_date(base: InstantModel, s: Seq<u8>, i: int)
    requires
        spec_parse_time(base, s, i) is Ok,
    ensures
        ({
            let t = spec_parse_time(base, s, i)->Ok_0.1;
            &&& t.year == base.year
            &&& t.month == base.month
            &&& t.day == base.day
            &&& t.second == base.second
            &&& t.tz == base.tz
        }),
{
}

/// Single-day law: when the single-day production succeeds, its start and
/// end share the calendar date (and timezone) the date token resolved to,
/// differing only in time-of-day.
pub proof fn lemma_single_day_shares_date(now: InstantModel, s: Seq<u8>)
    requires
        spec_parse_single(now, s) is Ok,
    ensures
        spec_parse_date(now, s, 0) is Ok,
        ({
            let (a, b) = spec_parse_single(now, s)->Ok_0;
            let d = spec_parse_date(now, s, 0)->Ok_0.1;
            &&& a.year == d.year && a.month == d.month && a.day == d.day && a.tz == d.tz
            &&& b.year == d.year && b.month == d.month && b.day == d.day && b.tz == d.tz
        }),
{
    let (i1, date) = spec_parse_date(now, s, 0)->Ok_0;
    let i2 = if spec_parse_literal(s, i1, lit_comma()) is Ok {
        spec_parse_literal(s, i1, lit_comma())->Ok_0
    } else {
        i1
    };
    lemma_time_preserves_date(date, s, i2);
    let i3 = spec_parse_time(date, s, i2)->Ok_0.0;
    let i4 = spec_parse_literal(s, i3, lit_hyphen())->Ok_0;
    lemma_time_preserves_date(date, s, i4);
}

/// A successful literal match moves the cursor forward, never past the
/// end of the input.
pub proof fn lemma_parse_literal_ok_bounds(s: Seq<u8>, i: int, lit: Seq<u8>)
    requires
        0 <= i <= s.len(),
        spec_parse_literal(s, i, lit) is Ok,
    ensures
        i <= spec_parse_literal(s, i, lit)->Ok_0 <= s.len(),
{
    lemma_skip_spaces_bounds(s, i);
    lemma_skip_spaces_bounds(s, spec_skip_spaces(s, i) + lit.len());
}

/// A successful number scan moves the cursor forward within the input
/// and yields a non-negative value that a `u32` can hold.
pub proof fn lemma_parse_number_ok_bounds(s: Seq<u8>, i: int)
    requires
        0 <= i <= s.len(),
        spec_parse_number(s, i) is Ok,
    ensures
        i <= spec_parse_number(s, i)->Ok_0.0 <= s.len(),
        0 <= spec_parse_number(s, i)->Ok_0.1 <= u32::MAX,
{
    lemma_digits_end_digits(s, i);
    lemma_digits_value_nonneg(s, i, spec_digits_end(s, i));
}

/// A successful meridiem match moves the cursor forward within the
/// input.
pub proof fn lemma_parse_meridiem_ok_bounds(s: Seq<u8>, i: int)
    requires
        0 <= i <= s.len(),
        spec_parse_meridiem(s, i) is Ok,
    ensures
        i <= spec_parse_meridiem(s, i)->Ok_0.0 <= s.len(),
{
    if spec_parse_literal(s, i, lit_am()) is Ok {
        lemma_parse_literal_ok_bounds(s, i, lit_am());
    } else {
        lemma_parse_literal_ok_bounds(s, i, lit_pm());
    }
}

proof fn lemma_finish_time_ok_valid(
    base: InstantModel,
    s: Seq<u8>,
    istart: int,
    i2: int,
    h: int,
    mi: int,
)
    requires
        0 <= i2 <= s.len(),
        0 <= h,
        0 <= mi,
        spec_finish_time(base, s, istart, i2, h, mi) is Ok,
    ensures
        i2 <= spec_finish_time(base, s, istart, i2, h, mi)->Ok_0.0 <= s.len(),
        0 <= spec_finish_time(base, s, istart, i2, h, mi)->Ok_0.1.hour <= 23,
        0 <= spec_finish_time(base, s, istart, i2, h, mi)->Ok_0.1.minute <= 59,
{
    if spec_parse_meridiem(s, i2) is Ok {
        lemma_parse_meridiem_ok_bounds(s, i2);
    }
}

/// A successful time resolution moves the cursor forward within the
/// input, and the hour and minute it sets lie in their ranges.
pub proof fn lemma_parse_time_ok_valid(base: InstantModel, s: Seq<u8>, i: int)
    requires
        0 <= i <= s.len(),
        spec_parse_time(base, s, i) is Ok,
    ensures
        i <= spec_parse_time(base, s, i)->Ok_0.0 <= s.len(),
        0 <= spec_parse_time(base, s, i)->Ok_0.1.hour <= 23,
        0 <= spec_parse_time(base, s, i)->Ok_0.1.minute <= 59,
{
    lemma_parse_number_ok_bounds(s, i);
    let (i1, h) = spec_parse_number(s, i)->Ok_0;
    if spec_parse_literal(s, i1, lit_colon()) is Ok {
        let ic = spec_parse_literal(s, i1, lit_colon())->Ok_0;
        lemma_parse_literal_ok_bounds(s, i1, lit_colon());
        lemma_parse_number_ok_bounds(s, ic);
        let (i2, mi) = spec_parse_number(s, ic)->Ok_0;
        lemma_finish_time_ok_valid(base, s, i, i2, h, mi);
    } else {
        lemma_finish_time_ok_valid(base, s, i, i1, h, 0);
    }
}

/// The date resolver yields calendar-valid local midnights: on a
/// calendar-valid `now`, every field of a resolved date lies in its
/// range, its time-of-day is zero, and the cursor stays within the
/// input.
pub proof fn lemma_parse_date_ok_valid(now: InstantModel, s: Seq<u8>, i: int)
    requires
        0 <= i <= s.len(),
        now.valid_calendar(),
        spec_parse_date(now, s, i) is Ok,
    ensures
        i <= spec_parse_date(now, s, i)->Ok_0.0 <= s.len(),
        spec_parse_date(now, s, i)->Ok_0.1.valid_calendar(),
        spec_parse_date(now, s, i)->Ok_0.1.hour == 0,
        spec_parse_date(now, s, i)->Ok_0.1.minute == 0,
        spec_parse_date(now, s, i)->Ok_0.1.second == 0,
        spec_parse_date(now, s, i)->Ok_0.1.tz == now.tz,
{
    if spec_parse_literal(s, i, lit_today()) is Ok {
        lemma_parse_literal_ok_bounds(s, i, lit_today());
    } else if spec_parse_literal(s, i, lit_tomorrow()) is Ok {
        lemma_parse_literal_ok_bounds(s, i, lit_tomorrow());
        crate::instant::lemma_next_day_valid_calendar(spec_midnight(now));
    } else {
        lemma_parse_number_ok_bounds(s, i);
        let (i1, _m) = spec_parse_number(s, i)->Ok_0;
        lemma_parse_literal_ok_bounds(s, i1, lit_slash());
        let i2 = spec_parse_literal(s, i1, lit_slash())->Ok_0;
        lemma_parse_number_ok_bounds(s, i2);
    }
}

proof fn lemma_parse_single_ok_valid(now: InstantModel, s: Seq<u8>)
    requires
        now.valid_calendar(),
        spec_parse_single(now, s) is Ok,
    ensures
        spec_parse_single(now, s)->Ok_0.0.valid_calendar(),
        spec_parse_single(now, s)->Ok_0.1.valid_calendar(),
        spec_parse_single(now, s)->Ok_0.0.tz == now.tz,
        spec_parse_single(now, s)->Ok_0.1.tz == now.tz,
{
    lemma_parse_date_ok_valid(now, s, 0);
    let (i1, date) = spec_parse_date(now, s, 0)->Ok_0;
    let i2 = if spec_parse_literal(s, i1, lit_comma()) is Ok {
        spec_parse_literal(s, i1, lit_comma())->Ok_0
    } else {
        i1
    };
    if spec_parse_literal(s, i1, lit_comma()) is Ok {
        lemma_parse_literal_ok_bounds(s, i1, lit_comma());
    }
    lemma_parse_time_ok_valid(date, s, i2);
    lemma_time_preserves_date(date, s, i2);
    let i3 = spec_parse_time(date, s, i2)->Ok_0.0;
    lemma_parse_literal_ok_bounds(s, i3, lit_hyphen());
    let i4 = spec_parse_literal(s, i3, lit_hyphen())->Ok_0;
    lemma_parse_time_ok_valid(date, s, i4);
    lemma_time_preserves_date(date, s, i4);
}

proof fn lemma_parse_multi_ok_valid(now: InstantModel, s: Seq<u8>)
    requires
        now.valid_calendar(),
        spec_parse_multi(now, s) is Ok,
    ensures
        spec_parse_multi(now, s)->Ok_0.0.valid_calendar(),
        spec_parse_multi(now, s)->Ok_0.1.valid_calendar(),
        spec_parse_multi(now, s)->Ok_0.0.tz == now.tz,
        spec_parse_multi(now, s)->Ok_0.1.tz == now.tz,
{
    lemma_parse_date_ok_valid(now, s, 0);
    let (i1, d1) = spec_parse_date(now, s, 0)->Ok_0;
    lemma_parse_time_ok_valid(d1, s, i1);
    lemma_time_preserves_date(d1, s, i1);
    let i2 = spec_parse_time(d1, s, i1)->Ok_0.0;
    lemma_parse_literal_ok_bounds(s, i2, lit_hyphen());
    let i3 = spec_parse_literal(s, i2, lit_hyphen())->Ok_0;
    lemma_parse_date_ok_valid(now, s, i3);
    let (i4, d2) = spec_parse_date(now, s, i3)->Ok_0;
    lemma_parse_time_ok_valid(d2, s, i4);
    lemma_time_preserves_date(d2, s, i4);
}

/// Validity law: on a calendar-valid `now`, whatever the parser returns
/// is calendar-valid — month, day, hour, minute and second of both
/// resolved instants lie in their ranges, and both carry `now`'s
/// timezone. Out-of-range input never reaches a calendar value; it is
/// rejected while parsing.
pub proof fn lemma_parse_results_valid_calendar(now: InstantModel, raw: Seq<u8>)
    requires
        now.valid_calendar(),
        spec_parse(now, raw) is Ok,
    ensures
        spec_parse(now, raw)->Ok_0.0.valid_calendar(),
        spec_parse(now, raw)->Ok_0.1.valid_calendar(),
        spec_parse(now, raw)->Ok_0.0.tz == now.tz,
        spec_parse(now, raw)->Ok_0.1.tz == now.tz,
{
    let s = spec_lower(raw);
    if spec_parse_multi(now, s) is Ok {
        lemma_parse_multi_ok_valid(now, s);
    } else {
        lemma_parse_single_ok_valid(now, s);
    }
}

fn today_bytes() -> (v: Vec<u8>)
    ensures
        v@ == lit_today(),
{
    let mut v: Vec<u8> = Vec::new();
    v.push(116);
    v.push(111);
    v.push(100);
    v.push(97);
    v.push(121);
    proof {
        assert(v@ =~= lit_today());
    }
    v
}

fn tomorrow_bytes() -> (v: Vec<u8>)
    ensures
        v@ == lit_tomorrow(),
{
    let mut v: Vec<u8> = Vec::new();
    v.push(116);
    v.push(111);
    v.push(109);
    v.push(111);
    v.push(114);
    v.push(114);
    v.push(111);
    v.push(119);
    proof {
        assert(v@ =~= lit_tomorrow());
    }
    v
}

fn am_bytes() -> (v: Vec<u8>)
    ensures
        v@ == lit_am(),
{
    let mut v: Vec<u8> = Vec::new();
    v.push(97);
    v.push(109);
    proof {
        assert(v@ =~= lit_am());
    }
    v
}

fn pm_bytes() -> (v: Vec<u8>)
    ensures
        v@ == lit_pm(),
{
    let mut v: Vec<u8> = Vec::new();
    v.push(112);
    v.push(109);
    proof {
        assert(v@ =~= lit_pm());
    }
    v
}

fn one_byte_vec(b: u8) -> (v: Vec<u8>)
    ensures
        v@ == seq![b],
{
    let mut v: Vec<u8> = Vec::new();
    v.push(b);
    proof {
        assert(v@ =~= seq![b]);
    }
    v
}

} // verus!
