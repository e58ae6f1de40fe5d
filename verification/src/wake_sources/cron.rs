//! Cron wake source: fires when the configured 5-field cron expression's
//! next scheduled tick passes the registry's clock.
//!
//! ## Format
//!
//! Standard 5-field cron: `minute hour day-of-month month day-of-week` (UTC).
//! Each field supports `*`, `N`, `N-M`, `*/K`, `N-M/K`, and comma-separated
//! lists of any of those. Day-of-week is `0-6` with `0 = Sunday`.
//!
//! An instant is a count of seconds since the Unix epoch.

use crate::calendar::{
    civil_date, civil_time, every_day_has_a_date, month_len, CivilTime, MAX_INSTANT, MIN_INSTANT,
};
use crate::decimal::{decimal, parse_number, parsed_number, to_decimal};
use crate::pieces::{cut_once, split, split_at_char, split_once, split_words, words};
use crate::text::{own, same, texts};
use vstd::prelude::*;
use vstd::string::*;

verus! {

// ---------------------------------------------------------------------------
// Errors
// ---------------------------------------------------------------------------

/// Why an expression is no schedule.
#[derive(Debug)]
pub enum CronError {
    FieldCount { got: usize },
    BadStep { step: String },
    ZeroStep,
    BadRangeStart { start: String },
    BadRangeEnd { end: String },
    BadValue { value: String },
    OutOfRange { field: String, min: u32, max: u32 },
}

/// What a [`CronError`] says.
pub ghost enum CronFault {
    FieldCount { got: nat },
    BadStep { step: Seq<char> },
    ZeroStep,
    BadRangeStart { start: Seq<char> },
    BadRangeEnd { end: Seq<char> },
    BadValue { value: Seq<char> },
    OutOfRange { field: Seq<char>, min: nat, max: nat },
}

impl View for CronError {
    type V = CronFault;

    open spec fn view(&self) -> CronFault {
        match self {
            CronError::FieldCount { got } => CronFault::FieldCount { got: *got as nat },
            CronError::BadStep { step } => CronFault::BadStep { step: step@ },
            CronError::ZeroStep => CronFault::ZeroStep,
            CronError::BadRangeStart { start } => CronFault::BadRangeStart { start: start@ },
            CronError::BadRangeEnd { end } => CronFault::BadRangeEnd { end: end@ },
            CronError::BadValue { value } => CronFault::BadValue { value: value@ },
            CronError::OutOfRange { field, min, max } => CronFault::OutOfRange {
                field: field@,
                min: *min as nat,
                max: *max as nat,
            },
        }
    }
}

/// The message of a fault.
pub open spec fn fault_message(f: CronFault) -> Seq<char> {
    match f {
        CronFault::FieldCount { got } => "invalid_cron: expected 5 fields, got "@ + decimal(got),
        CronFault::BadStep { step } => "invalid_cron: bad step '"@ + step + "'"@,
        CronFault::ZeroStep => "invalid_cron: step must be > 0"@,
        CronFault::BadRangeStart { start } => "invalid_cron: bad range start '"@ + start + "'"@,
        CronFault::BadRangeEnd { end } => "invalid_cron: bad range end '"@ + end + "'"@,
        CronFault::BadValue { value } => "invalid_cron: bad value '"@ + value + "'"@,
        CronFault::OutOfRange { field, min, max } => "invalid_cron: '"@ + field
            + "' out of range "@ + decimal(min) + "..="@ + decimal(max),
    }
}

impl CronError {
    /// The error as a message for people.
    pub fn to_text(&self) -> (r: String)
        ensures
            r@ == fault_message(self@),
    {
        match self {
            CronError::FieldCount { got } => {
                let mut r = own("invalid_cron: expected 5 fields, got ");
                r.append(to_decimal(*got as u64).as_str());
                r
            },
            CronError::BadStep { step } => {
                let mut r = own("invalid_cron: bad step '");
                r.append(step.as_str());
                r.append("'");
                r
            },
            CronError::ZeroStep => own("invalid_cron: step must be > 0"),
            CronError::BadRangeStart { start } => {
                let mut r = own("invalid_cron: bad range start '");
                r.append(start.as_str());
                r.append("'");
                r
            },
            CronError::BadRangeEnd { end } => {
                let mut r = own("invalid_cron: bad range end '");
                r.append(end.as_str());
                r.append("'");
                r
            },
            CronError::BadValue { value } => {
                let mut r = own("invalid_cron: bad value '");
                r.append(value.as_str());
                r.append("'");
                r
            },
            CronError::OutOfRange { field, min, max } => {
                let mut r = own("invalid_cron: '");
                r.append(field.as_str());
                r.append("' out of range ");
                r.append(to_decimal(*min as u64).as_str());
                r.append("..=");
                r.append(to_decimal(*max as u64).as_str());
                r
            },
        }
    }
}

// ---------------------------------------------------------------------------
// Fields
// ---------------------------------------------------------------------------

/// Values from `lo` to `hi` in steps of `step`.
pub ghost struct Stride {
    pub lo: nat,
    pub hi: nat,
    pub step: nat,
}

/// Whether `v` is one of the values of `s`.
pub open spec fn in_stride(s: Stride, v: int) -> bool {
    s.lo <= v <= s.hi && (v - s.lo) % (s.step as int) == 0
}

/// A number as a field writes it.
pub open spec fn field_number(s: Seq<char>) -> Option<nat> {
    parsed_number(s, u32::MAX as nat)
}

/// The range of one part of a field, before its bounds are checked. A bare
/// value with a step runs up to the end of the field.
pub open spec fn range_of(range: Seq<char>, stepped: bool, min: nat, max: nat) -> Result<
    (nat, nat),
    CronFault,
> {
    if range == "*"@ {
        Ok((min, max))
    } else {
        match split_once(range, '-') {
            Some((a, b)) => match field_number(a) {
                None => Err(CronFault::BadRangeStart { start: a }),
                Some(lo) => match field_number(b) {
                    None => Err(CronFault::BadRangeEnd { end: b }),
                    Some(hi) => Ok((lo, hi)),
                },
            },
            None => match field_number(range) {
                None => Err(CronFault::BadValue { value: range }),
                Some(v) => Ok(
                    (
                        v,
                        if stepped {
                            max
                        } else {
                            v
                        },
                    ),
                ),
            },
        }
    }
}

/// Range and step of one part, and whether it names a step: `range`, or
/// `range/step`.
pub open spec fn part_step(part: Seq<char>) -> Result<(Seq<char>, nat, bool), CronFault> {
    match split_once(part, '/') {
        Some((range, step)) => match field_number(step) {
            None => Err(CronFault::BadStep { step }),
            Some(n) => if n == 0 {
                Err(CronFault::ZeroStep)
            } else {
                Ok((range, n, true))
            },
        },
        None => Ok((part, 1, false)),
    }
}

/// The values that one part of the field `field` stands for.
pub open spec fn part_values(part: Seq<char>, field: Seq<char>, min: nat, max: nat) -> Result<
    Stride,
    CronFault,
> {
    match part_step(part) {
        Err(f) => Err(f),
        Ok((range, step, stepped)) => match range_of(range, stepped, min, max) {
            Err(f) => Err(f),
            Ok((lo, hi)) => if lo < min || hi > max || lo > hi {
                Err(CronFault::OutOfRange { field, min, max })
            } else {
                Ok(Stride { lo, hi, step })
            },
        },
    }
}

/// The first fault among the parts at or after `i`.
pub open spec fn parts_fault(
    parts: Seq<Seq<char>>,
    field: Seq<char>,
    min: nat,
    max: nat,
    i: int,
) -> Option<CronFault>
    decreases parts.len() - i,
{
    if i < 0 || i >= parts.len() {
        None
    } else {
        match part_values(parts[i], field, min, max) {
            Err(f) => Some(f),
            Ok(_) => parts_fault(parts, field, min, max, i + 1),
        }
    }
}

/// What is wrong with a field, if anything is.
pub open spec fn field_fault(field: Seq<char>, min: nat, max: nat) -> Option<CronFault> {
    parts_fault(split(field, ','), field, min, max, 0)
}

/// Whether one of the first `n` parts stands for `v`.
pub open spec fn parts_hold(
    parts: Seq<Seq<char>>,
    field: Seq<char>,
    min: nat,
    max: nat,
    n: int,
    v: int,
) -> bool {
    exists|i: int|
        0 <= i < n && (#[trigger] part_values(parts[i], field, min, max) matches Ok(s)
            && in_stride(s, v))
}

/// The values that a field stands for.
pub open spec fn field_values(field: Seq<char>, min: nat, max: nat) -> Set<int> {
    Set::new(
        |v: int|
            parts_hold(split(field, ','), field, min, max, split(field, ',').len() as int, v),
    )
}

spec fn bit(bits: u64, v: u32) -> bool {
    bits & (1u64 << v) != 0
}

proof fn lemma_bit_set(bits: u64, v: u32, w: u32)
    requires
        v < 64,
        w < 64,
    ensures
        bit(bits | (1u64 << w), v) == (v == w || bit(bits, v)),
{
    assert(v < 64 && w < 64 ==> ((bits | (1u64 << w)) & (1u64 << v) != 0) == (v == w || bits & (
    1u64 << v) != 0)) by (bit_vector);
}

proof fn lemma_bit_zero(v: u32)
    requires
        v < 64,
    ensures
        !bit(0, v),
{
    assert(v < 64 ==> 0u64 & (1u64 << v) == 0) by (bit_vector);
}

/// Allowed values of a field.
#[derive(Debug, Clone, Copy)]
pub struct FieldSet {
    /// Bit `i` is set where the value `i` is permitted.
    bits: u64,
}

impl View for FieldSet {
    type V = Set<int>;

    closed spec fn view(&self) -> Set<int> {
        Set::new(|v: int| 0 <= v < 64 && bit(self.bits, v as u32))
    }
}

impl FieldSet {
    /// Whether `v` is permitted.
    pub fn contains(&self, v: u32) -> (r: bool)
        requires
            v < 64,
        ensures
            r == self@.contains(v as int),
    {
        self.bits & (1u64 << v) != 0
    }

    fn empty() -> (r: FieldSet)
        ensures
            r@ == Set::<int>::empty(),
    {
        let r = FieldSet { bits: 0 };
        assert forall|v: int| !r@.contains(v) by {
            if 0 <= v < 64 {
                lemma_bit_zero(v as u32);
            }
        }
        assert(r@ =~= Set::<int>::empty());
        r
    }

    fn permit(&mut self, v: u32)
        requires
            v < 64,
        ensures
            final(self)@ == old(self)@.insert(v as int),
    {
        let ghost before = self.bits;
        self.bits = self.bits | (1u64 << v);
        assert forall|w: int| self@.contains(w) == old(self)@.insert(v as int).contains(w) by {
            if 0 <= w < 64 {
                lemma_bit_set(before, w as u32, v);
            }
        }
        assert(self@ =~= old(self)@.insert(v as int));
    }

    /// Permits `lo`, `lo + step`, ... up to `hi`.
    fn permit_stride(&mut self, lo: u32, hi: u32, step: u32)
        requires
            hi < 64,
            step > 0,
        ensures
            forall|v: int|
                final(self)@.contains(v) == (old(self)@.contains(v) || in_stride(
                    Stride { lo: lo as nat, hi: hi as nat, step: step as nat },
                    v,
                )),
    {
        let ghost s = Stride { lo: lo as nat, hi: hi as nat, step: step as nat };
        let ghost before = self@;
        let mut v: u64 = lo as u64;
        proof {
            vstd::arithmetic::div_mod::lemma_small_mod(0, step as nat);
        }
        while v <= hi as u64
            invariant
                hi < 64,
                step > 0,
                lo <= v <= u32::MAX + 64,
                v > lo ==> v <= hi + step,
                s == (Stride { lo: lo as nat, hi: hi as nat, step: step as nat }),
                (v - lo) % (step as int) == 0,
                forall|w: int|
                    self@.contains(w) == (before.contains(w) || (in_stride(s, w) && w < v)),
            decreases u32::MAX + 65 - v,
        {
            let ghost prev = self@;
            self.permit(v as u32);
            proof {
                assert forall|w: int|
                    self@.contains(w) == (before.contains(w) || (in_stride(s, w) && w < v
                        + step)) by {
                    if in_stride(s, w) && v < w < v + step {
                        let a = v - lo;
                        let b = w - lo;
                        let m = step as int;
                        assert(b % m == 0 && a % m == 0 && a < b < a + m);
                        vstd::arithmetic::div_mod::lemma_fundamental_div_mod(a, m);
                        vstd::arithmetic::div_mod::lemma_fundamental_div_mod(b, m);
                        let qa = a / m;
                        let qb = b / m;
                        assert(m * qa < m * qb < m * qa + m);
                        assert(false) by (nonlinear_arith)
                            requires
                                m > 0,
                                m * qa < m * qb < m * qa + m,
                        ;
                    }
                }
                vstd::arithmetic::div_mod::lemma_mod_add_multiples_vanish(v - lo, step as int);
                assert((v - lo + step) % (step as int) == 0);
            }
            v = v + step as u64;
        }
    }
}

/// Range and step of a part, or the fault that it has on its own.
struct Part {
    lo: u32,
    hi: u32,
    step: u32,
}

fn number(s: &str) -> (r: Option<u32>)
    ensures
        match r {
            Some(v) => field_number(s@) == Some(v as nat),
            None => field_number(s@) is None,
        },
{
    match parse_number(s, u32::MAX as u64) {
        Some(v) => Some(v as u32),
        None => None,
    }
}

fn parse_range(range: &str, stepped: bool, min: u32, max: u32) -> (r: Result<(u32, u32), CronError>)
    ensures
        match r {
            Ok((lo, hi)) => range_of(range@, stepped, min as nat, max as nat) == Ok::<
                (nat, nat),
                CronFault,
            >((lo as nat, hi as nat)),
            Err(e) => range_of(range@, stepped, min as nat, max as nat) == Err::<
                (nat, nat),
                CronFault,
            >(e@),
        },
{
    if same(range, "*") {
        return Ok((min, max));
    }
    match cut_once(range, '-') {
        Some((a, b)) => match number(a.as_str()) {
            None => Err(CronError::BadRangeStart { start: a }),
            Some(lo) => match number(b.as_str()) {
                None => Err(CronError::BadRangeEnd { end: b }),
                Some(hi) => Ok((lo, hi)),
            },
        },
        None => match number(range) {
            None => Err(CronError::BadValue { value: own(range) }),
            // A bare value with a step runs up to the field's end.
            Some(v) => if stepped {
                Ok((v, max))
            } else {
                Ok((v, v))
            },
        },
    }
}

fn parse_part(part: &str, field: &str, min: u32, max: u32) -> (r: Result<Part, CronError>)
    ensures
        match r {
            Ok(p) => part_values(part@, field@, min as nat, max as nat) == Ok::<Stride, CronFault>(
                Stride { lo: p.lo as nat, hi: p.hi as nat, step: p.step as nat },
            ) && p.step > 0 && p.hi <= max,
            Err(e) => part_values(part@, field@, min as nat, max as nat) == Err::<
                Stride,
                CronFault,
            >(e@),
        },
{
    let (range, step, stepped): (String, u32, bool) = match cut_once(part, '/') {
        Some((range, s)) => match number(s.as_str()) {
            None => return Err(CronError::BadStep { step: s }),
            Some(n) => {
                if n == 0 {
                    return Err(CronError::ZeroStep);
                }
                (range, n, true)
            },
        },
        None => (own(part), 1, false),
    };
    match parse_range(range.as_str(), stepped, min, max) {
        Err(e) => Err(e),
        Ok((lo, hi)) => if lo < min || hi > max || lo > hi {
            Err(CronError::OutOfRange { field: own(field), min, max })
        } else {
            Ok(Part { lo, hi, step })
        },
    }
}

fn parse_field(spec: &str, min: u32, max: u32) -> (r: Result<FieldSet, CronError>)
    requires
        max < 64,
    ensures
        match r {
            Ok(f) => field_fault(spec@, min as nat, max as nat) is None && f@ == field_values(
                spec@,
                min as nat,
                max as nat,
            ),
            Err(e) => field_fault(spec@, min as nat, max as nat) == Some(e@),
        },
{
    let parts = split_at_char(spec, ',');
    let ghost all = texts(parts@);
    let ghost lo = min as nat;
    let ghost hi = max as nat;
    let mut set = FieldSet::empty();
    let mut i: usize = 0;
    while i < parts.len()
        invariant
            max < 64,
            i <= parts@.len(),
            all == texts(parts@),
            all == split(spec@, ','),
            lo == min as nat,
            hi == max as nat,
            field_fault(spec@, lo, hi) == parts_fault(all, spec@, lo, hi, i as int),
            forall|v: int|
                set@.contains(v) == parts_hold(all, spec@, lo, hi, i as int, v),
        decreases parts@.len() - i,
    {
        assert(all[i as int] == parts@[i as int]@);
        match parse_part(parts[i].as_str(), spec, min, max) {
            Err(e) => return Err(e),
            Ok(p) => {
                let ghost before = set@;
                set.permit_stride(p.lo, p.hi, p.step);
                proof {
                    let s = Stride { lo: p.lo as nat, hi: p.hi as nat, step: p.step as nat };
                    assert(part_values(all[i as int], spec@, lo, hi) == Ok::<Stride, CronFault>(s));
                    assert forall|v: int|
                        set@.contains(v) == parts_hold(all, spec@, lo, hi, i + 1, v) by {
                        if parts_hold(all, spec@, lo, hi, i + 1, v) {
                            let k = choose|k: int|
                                0 <= k < i + 1 && (#[trigger] part_values(
                                    all[k],
                                    spec@,
                                    lo,
                                    hi,
                                ) matches Ok(s) && in_stride(s, v));
                            if k < i {
                                assert(parts_hold(all, spec@, lo, hi, i as int, v));
                            }
                        }
                        if before.contains(v) {
                            assert(parts_hold(all, spec@, lo, hi, i as int, v));
                            let k = choose|k: int|
                                0 <= k < i && (#[trigger] part_values(
                                    all[k],
                                    spec@,
                                    lo,
                                    hi,
                                ) matches Ok(s) && in_stride(s, v));
                            assert(part_values(all[k], spec@, lo, hi) is Ok);
                        }
                    }
                }
            },
        }
        i = i + 1;
    }
    assert(set@ =~= field_values(spec@, lo, hi));
    Ok(set)
}

// ---------------------------------------------------------------------------
// Schedules
// ---------------------------------------------------------------------------

/// Parsed 5-field cron expression.
#[derive(Debug, Clone, Copy)]
pub struct Schedule {
    minute: FieldSet,
    hour: FieldSet,
    dom: FieldSet,
    month: FieldSet,
    dow: FieldSet,
    dom_restricted: bool,
    dow_restricted: bool,
}

/// What a [`Schedule`] permits.
#[verifier::ext_equal]
pub ghost struct ScheduleView {
    pub minute: Set<int>,
    pub hour: Set<int>,
    pub dom: Set<int>,
    pub month: Set<int>,
    pub dow: Set<int>,
    pub dom_restricted: bool,
    pub dow_restricted: bool,
}

impl View for Schedule {
    type V = ScheduleView;

    closed spec fn view(&self) -> ScheduleView {
        ScheduleView {
            minute: self.minute@,
            hour: self.hour@,
            dom: self.dom@,
            month: self.month@,
            dow: self.dow@,
            dom_restricted: self.dom_restricted,
            dow_restricted: self.dow_restricted,
        }
    }
}

/// The first thing wrong with an expression, if anything is.
pub open spec fn schedule_fault(expr: Seq<char>) -> Option<CronFault> {
    let f = words(expr);
    if f.len() != 5 {
        Some(CronFault::FieldCount { got: f.len() })
    } else if field_fault(f[0], 0, 59) is Some {
        field_fault(f[0], 0, 59)
    } else if field_fault(f[1], 0, 23) is Some {
        field_fault(f[1], 0, 23)
    } else if field_fault(f[2], 1, 31) is Some {
        field_fault(f[2], 1, 31)
    } else if field_fault(f[3], 1, 12) is Some {
        field_fault(f[3], 1, 12)
    } else {
        field_fault(f[4], 0, 6)
    }
}

/// What an expression permits.
pub open spec fn schedule_of(expr: Seq<char>) -> ScheduleView {
    let f = words(expr);
    ScheduleView {
        minute: field_values(f[0], 0, 59),
        hour: field_values(f[1], 0, 23),
        dom: field_values(f[2], 1, 31),
        month: field_values(f[3], 1, 12),
        dow: field_values(f[4], 0, 6),
        dom_restricted: f[2] != "*"@,
        dow_restricted: f[4] != "*"@,
    }
}

/// Whether the schedule permits the day that begins `day` days after
/// 1970-01-01. Where both the day of the month and the weekday are
/// restricted, either is enough.
pub open spec fn day_permitted(s: ScheduleView, day: int) -> bool {
    let (month, dom) = civil_date(day);
    let dom_ok = s.dom.contains(dom);
    let dow_ok = s.dow.contains((day + 4) % 7);
    &&& s.month.contains(month)
    &&& if s.dom_restricted && s.dow_restricted {
        dom_ok || dow_ok
    } else {
        dom_ok && dow_ok
    }
}

/// Whether the schedule permits the minute of the instant `t`.
pub open spec fn permitted(s: ScheduleView, t: int) -> bool {
    &&& s.minute.contains((t / 60) % 60)
    &&& s.hour.contains((t / 3600) % 24)
    &&& day_permitted(s, t / 86400)
}

/// Seconds that a search looks ahead: a little over five years.
pub const LOOKAHEAD: i64 = 158_112_000;

/// Whether `t` is a tick of the schedule after `since`, within the search.
pub open spec fn tick(s: ScheduleView, since: int, t: int) -> bool {
    t % 60 == 0 && since < t <= since + LOOKAHEAD && since + LOOKAHEAD <= MAX_INSTANT && permitted(
        s,
        t,
    )
}

proof fn lemma_same_day(t: int, u: int)
    requires
        t <= u < t - t % 86400 + 86400,
    ensures
        u / 86400 == t / 86400,
{
}

proof fn lemma_within_minute(t: int, u: int)
    requires
        t % 60 == 0,
        t < u < t + 60,
    ensures
        u % 60 != 0,
{
}

/// After a minute that is no tick, none of the schedule's ticks is passed
/// over by going on at `next`: the next minute, or the next day where the
/// whole day is not permitted.
proof fn lemma_skip(s: ScheduleView, since: int, t: int, next: int)
    requires
        t % 60 == 0,
        !tick(s, since, t),
        forall|u: int| u < t ==> !#[trigger] tick(s, since, u),
        next == t + 60 || (next == t - t % 86400 + 86400 && !day_permitted(s, t / 86400)),
    ensures
        forall|u: int| u < next ==> !#[trigger] tick(s, since, u),
{
    assert forall|u: int| u < next implies !#[trigger] tick(s, since, u) by {
        if t < u {
            if next == t + 60 {
                lemma_within_minute(t, u);
            } else {
                lemma_same_day(t, u);
            }
        }
    }
}

impl Schedule {
    /// Parses a 5-field expression.
    pub fn parse(expr: &str) -> (r: Result<Schedule, CronError>)
        ensures
            match r {
                Ok(s) => schedule_fault(expr@) is None && s@ == schedule_of(expr@),
                Err(e) => schedule_fault(expr@) == Some(e@),
            },
    {
        let parts = split_words(expr);
        let ghost f = words(expr@);
        assert(f.len() == parts@.len());
        if parts.len() != 5 {
            return Err(CronError::FieldCount { got: parts.len() });
        }
        assert(forall|i: int| 0 <= i < 5 ==> f[i] == #[trigger] parts@[i]@);
        let minute = match parse_field(parts[0].as_str(), 0, 59) {
            Ok(set) => set,
            Err(e) => return Err(e),
        };
        let hour = match parse_field(parts[1].as_str(), 0, 23) {
            Ok(set) => set,
            Err(e) => return Err(e),
        };
        let dom = match parse_field(parts[2].as_str(), 1, 31) {
            Ok(set) => set,
            Err(e) => return Err(e),
        };
        let month = match parse_field(parts[3].as_str(), 1, 12) {
            Ok(set) => set,
            Err(e) => return Err(e),
        };
        let dow = match parse_field(parts[4].as_str(), 0, 6) {
            Ok(set) => set,
            Err(e) => return Err(e),
        };
        Ok(
            Schedule {
                minute,
                hour,
                dom,
                month,
                dow,
                dom_restricted: !same(parts[2].as_str(), "*"),
                dow_restricted: !same(parts[4].as_str(), "*"),
            },
        )
    }

    fn date_matches(&self, t: &CivilTime, Ghost(day): Ghost<int>) -> (r: bool)
        requires
            t.month <= 12,
            t.day <= 31,
            (t.month as int, t.day as int) == civil_date(day),
            t.weekday == (day + 4) % 7,
        ensures
            r == day_permitted(self@, day),
    {
        if !self.month.contains(t.month) {
            return false;
        }
        let day_match = self.dom.contains(t.day);
        let weekday_match = self.dow.contains(t.weekday);
        if self.dom_restricted && self.dow_restricted {
            day_match || weekday_match
        } else {
            day_match && weekday_match
        }
    }

    /// Whether the minute at `t` is permitted, and where a search goes on
    /// after it: at the next minute, or at the end of a day none of whose
    /// minutes can match.
    fn probe(&self, t: i64) -> (r: (bool, i64))
        requires
            MIN_INSTANT <= t <= MAX_INSTANT,
            t % 60 == 0,
        ensures
            r.0 == permitted(self@, t as int),
            r.1 == t + 60 || (r.1 == t - t % 86400 + 86400 && !day_permitted(
                self@,
                t as int / 86400,
            )),
            r.1 % 60 == 0,
            t < r.1 <= t + 86400,
    {
        let at = civil_time(t);
        let ghost day = t as int / 86400;
        let date_ok = self.date_matches(&at, Ghost(day));
        let matched = date_ok && self.minute.contains(at.minute) && self.hour.contains(at.hour);
        if date_ok {
            (matched, t + 60)
        } else {
            let into_day: i64 = t.checked_rem_euclid(86400).unwrap();
            let next: i64 = t - into_day + 86400;
            assert(next == (t as int / 86400 + 1) * 86400);
            (false, next)
        }
    }

    /// Smallest tick strictly after `since`. `None` where there is none
    /// within the search, or where the search would leave the calendar.
    pub fn next_after(&self, since: i64) -> (r: Option<i64>)
        requires
            MIN_INSTANT <= since <= MAX_INSTANT,
        ensures
            match r {
                Some(t) => tick(self@, since as int, t as int) && forall|u: int|
                    u < t ==> !#[trigger] tick(self@, since as int, u),
                None => forall|u: int| !#[trigger] tick(self@, since as int, u),
            },
    {
        let second: i64 = since.checked_rem_euclid(60).unwrap();
        let start: i64 = since - second + 60;
        let cap: i64 = since + LOOKAHEAD;
        if cap > MAX_INSTANT {
            return None;
        }
        let mut t: i64 = start;
        while t <= cap
            invariant
                MIN_INSTANT <= since < t,
                cap == since + LOOKAHEAD,
                cap <= MAX_INSTANT,
                t <= cap + 86400,
                t % 60 == 0,
                forall|u: int| u < t ==> !#[trigger] tick(self@, since as int, u),
            decreases cap + 86401 - t,
        {
            let (matched, next) = self.probe(t);
            if matched {
                return Some(t);
            }
            proof {
                lemma_skip(self@, since as int, t as int, next as int);
            }
            t = next;
        }
        assert forall|u: int| !#[trigger] tick(self@, since as int, u) by {
            if u >= t {
                assert(u > cap);
            }
        }
        None
    }
}

/// Configuration of a cron source.
#[derive(Debug, Clone)]
pub struct CronConfig {
    pub expr: String,
}

/// An expression and its schedule.
#[derive(Debug)]
pub struct CronSource {
    pub expr: String,
    pub schedule: Schedule,
}

impl CronSource {
    /// A source for `expr`.
    pub fn new(expr: &str) -> (r: Result<CronSource, CronError>)
        ensures
            match r {
                Ok(s) => schedule_fault(expr@) is None && s.expr@ == expr@ && s.schedule@
                    == schedule_of(expr@),
                Err(e) => schedule_fault(expr@) == Some(e@),
            },
    {
        match Schedule::parse(expr) {
            Ok(schedule) => Ok(CronSource { expr: own(expr), schedule }),
            Err(e) => Err(e),
        }
    }

    /// `Some(now)` if the source should fire: a tick lies in the half-open
    /// interval `(since, now]`, where `since` is `last_fired_at` if known and
    /// `registered_at` otherwise. However many ticks were missed, it fires
    /// once.
    pub fn evaluate(&self, now: i64, last_fired_at: Option<i64>, registered_at: i64) -> (r: Option<
        i64,
    >)
        requires
            MIN_INSTANT <= registered_at <= MAX_INSTANT,
            last_fired_at matches Some(t) ==> MIN_INSTANT <= t <= MAX_INSTANT,
        ensures
            r == (if due(self.schedule@, now as int, last_fired_at, registered_at) {
                Some(now)
            } else {
                None
            }),
    {
        let since: i64 = match last_fired_at {
            Some(t) => t,
            None => registered_at,
        };
        assert(since as int == since_of(last_fired_at, registered_at));
        let next = self.schedule.next_after(since);
        match next {
            Some(next) => {
                assert(tick(self.schedule@, since_of(last_fired_at, registered_at), next as int));
                if next <= now {
                    Some(now)
                } else {
                    None
                }
            },
            None => None,
        }
    }
}

/// The instant after which a source's ticks count.
pub open spec fn since_of(last_fired_at: Option<i64>, registered_at: i64) -> int {
    match last_fired_at {
        Some(t) => t as int,
        None => registered_at as int,
    }
}

/// Whether a tick lies after the last fire and no later than `now`.
pub open spec fn due(
    s: ScheduleView,
    now: int,
    last_fired_at: Option<i64>,
    registered_at: i64,
) -> bool {
    exists|t: int| t <= now && #[trigger] tick(s, since_of(last_fired_at, registered_at), t)
}

// ---------------------------------------------------------------------------
// Laws
// ---------------------------------------------------------------------------

/// A source that has just fired is not due again at the same instant, nor in
/// the rest of that minute.
pub proof fn one_fire_per_minute(s: ScheduleView, fired: i64, now: int, registered_at: i64)
    requires
        now < fired - fired % 60 + 60,
    ensures
        !due(s, now, Some(fired), registered_at),
{
}

/// Once due, a source stays due until it fires.
pub proof fn due_is_monotone(
    s: ScheduleView,
    now: int,
    later: int,
    last_fired_at: Option<i64>,
    registered_at: i64,
)
    requires
        now <= later,
        due(s, now, last_fired_at, registered_at),
    ensures
        due(s, later, last_fired_at, registered_at),
{
    let since = since_of(last_fired_at, registered_at);
    let t = choose|t: int| t <= now && #[trigger] tick(s, since, t);
    assert(tick(s, since, t) && t <= later);
}

/// A schedule that asks for days that its months never have, such as the
/// 30th of February, has no tick.
pub proof fn impossible_days_never_come(s: ScheduleView, since: int, t: int)
    requires
        !(s.dom_restricted && s.dow_restricted),
        forall|m: int, d: int|
            1 <= m <= 12 && #[trigger] s.month.contains(m) && #[trigger] s.dom.contains(d)
                ==> d > month_len(4, m),
    ensures
        !tick(s, since, t),
{
    let day = t / 86400;
    every_day_has_a_date(day);
    let (m, d) = civil_date(day);
    assert(!(s.month.contains(m) && s.dom.contains(d)));
}

/// A field without a fault permits only values from `min` to `max`, and at
/// least one of them.
pub proof fn field_within_bounds(field: Seq<char>, min: nat, max: nat)
    requires
        field_fault(field, min, max) is None,
    ensures
        forall|v: int| #[trigger]
            field_values(field, min, max).contains(v) ==> min <= v <= max,
        exists|v: int| #[trigger] field_values(field, min, max).contains(v),
{
    let parts = split(field, ',');
    crate::pieces::lemma_split_nonempty(field, ',');
    lemma_no_fault(parts, field, min, max, 0);
    let s = part_values(parts[0], field, min, max)->Ok_0;
    vstd::arithmetic::div_mod::lemma_small_mod(0, s.step);
    assert(in_stride(s, s.lo as int));
    assert(field_values(field, min, max).contains(s.lo as int));
}

proof fn lemma_no_fault(parts: Seq<Seq<char>>, field: Seq<char>, min: nat, max: nat, i: int)
    requires
        0 <= i <= parts.len(),
        parts_fault(parts, field, min, max, i) is None,
    ensures
        forall|k: int|
            i <= k < parts.len() ==> (#[trigger] part_values(parts[k], field, min, max)) is Ok,
    decreases parts.len() - i,
{
    if i < parts.len() {
        lemma_no_fault(parts, field, min, max, i + 1);
    }
}

/// The field `*` permits every value from `min` to `max`.
pub proof fn star_permits_all(min: nat, max: nat)
    requires
        min <= max,
    ensures
        field_fault("*"@, min, max) is None,
        forall|v: int|
            min <= v <= max ==> #[trigger] field_values("*"@, min, max).contains(v),
{
    reveal_strlit("*");
    let star = "*"@;
    crate::pieces::lemma_find(star, ',', 1);
    crate::pieces::lemma_find(star, '/', 1);
    assert(split(star, ',') =~= seq![star]);
    let parts = split(star, ',');
    let s = Stride { lo: min, hi: max, step: 1 };
    assert(part_values(parts[0], star, min, max) == Ok::<Stride, CronFault>(s));
    assert(parts_fault(parts, star, min, max, 1) is None);
    assert forall|v: int| min <= v <= max implies #[trigger] field_values(
        star,
        min,
        max,
    ).contains(v) by {
        assert(in_stride(s, v));
        assert(parts_hold(parts, star, min, max, 1, v));
    }
}

} // verus!
