//! What cron expressions mean, in terms of their texts and of numbers.

use super::cron::{
    day_permitted, due, fault_message, field_fault, field_values, in_stride, part_step,
    part_values, parts_fault, parts_hold, permitted, range_of, schedule_fault, schedule_of,
    since_of, tick, CronError, CronFault, CronSource, ScheduleView, Stride,
};
use crate::calendar::{civil_date, MAX_INSTANT, MIN_INSTANT};
use crate::decimal::{decimal, decimal_is_digits, numbers_are_bounded_digits};
use crate::pieces::{
    joined, pieces_lie_between_separators, split, the_first_separator_cuts, words,
    words_lie_between_white,
};
use crate::text::white;
use vstd::prelude::*;

verus! {

// ---------------------------------------------------------------------------
// Fields
// ---------------------------------------------------------------------------

proof fn lemma_one_part(field: Seq<char>, min: nat, max: nat)
    requires
        forall|i: int| 0 <= i < field.len() ==> #[trigger] field[i] != ',',
    ensures
        match part_values(field, field, min, max) {
            Ok(s) => field_fault(field, min, max) is None && forall|v: int| #[trigger]
                field_values(field, min, max).contains(v) <==> in_stride(s, v),
            Err(f) => field_fault(field, min, max) == Some(f),
        },
{
    pieces_lie_between_separators(field, ',', seq![]);
    let parts = split(field, ',');
    assert(parts =~= seq![field]);
    assert(parts_fault(parts, field, min, max, 1) is None);
    if let Ok(s) = part_values(field, field, min, max) {
        assert forall|v: int| #[trigger] field_values(field, min, max).contains(v) <==> in_stride(
            s,
            v,
        ) by {
            assert(part_values(parts[0], field, min, max) == Ok::<Stride, CronFault>(s));
            if in_stride(s, v) {
                assert(parts_hold(parts, field, min, max, 1, v));
            }
        }
    }
}

proof fn lemma_numbers(a: nat)
    requires
        a <= u32::MAX,
    ensures
        crate::decimal::parsed_number(decimal(a), u32::MAX as nat) == Some(a),
        forall|i: int|
            0 <= i < decimal(a).len() ==> #[trigger] decimal(a)[i] != '-' && decimal(a)[i] != '/'
                && decimal(a)[i] != ',' && decimal(a)[i] != '*' && !white(decimal(a)[i]),
        decimal(a).len() > 0,
{
    decimal_is_digits(a);
    numbers_are_bounded_digits(a, u32::MAX as nat, 'x', seq![], seq![]);
    crate::decimal::decimal_reads_back(a);
}

/// A number in decimal is not the star.
proof fn lemma_not_star(a: nat, rest: Seq<char>)
    ensures
        decimal(a) + rest != "*"@,
{
    reveal_strlit("*");
    lemma_decimal_start(a);
    let s = decimal(a) + rest;
    assert(s[0] == decimal(a)[0]);
    assert("*"@[0] == '*');
}

proof fn lemma_decimal_start(a: nat)
    ensures
        decimal(a).len() > 0,
        decimal(a)[0] != '*',
{
    crate::decimal::decimal_reads_back(a);
    decimal_is_digits(a);
}

/// The range `a-b` with the step `k` permits exactly `a`, `a + k`, `a + 2k`
/// and so on, up to `b`.
pub proof fn stepped_ranges(a: nat, b: nat, k: nat, min: nat, max: nat)
    requires
        min <= a <= b <= max <= u32::MAX,
        0 < k <= u32::MAX,
    ensures
        ({
            let field = decimal(a) + "-"@ + decimal(b) + "/"@ + decimal(k);
            &&& field_fault(field, min, max) is None
            &&& forall|v: int| #[trigger]
                field_values(field, min, max).contains(v) <==> a <= v <= b && (v - a) % (k as int)
                    == 0
        }),
{
    reveal_strlit("-");
    reveal_strlit("/");
    lemma_numbers(a);
    lemma_numbers(b);
    lemma_numbers(k);
    let range = decimal(a) + "-"@ + decimal(b);
    let field = range + "/"@ + decimal(k);
    assert("-"@ =~= seq!['-'] && "/"@ =~= seq!['/']);
    the_first_separator_cuts(range, '/', decimal(k));
    the_first_separator_cuts(decimal(a), '-', decimal(b));
    lemma_not_star(a, "-"@ + decimal(b));
    assert(decimal(a) + ("-"@ + decimal(b)) =~= range);
    assert(part_step(field) == Ok::<(Seq<char>, nat, bool), CronFault>((range, k, true)));
    assert(range_of(range, true, min, max) == Ok::<(nat, nat), CronFault>((a, b)));
    lemma_one_part(field, min, max);
}

/// The range `a-b` permits exactly the values from `a` to `b`.
pub proof fn plain_ranges(a: nat, b: nat, min: nat, max: nat)
    requires
        min <= a <= b <= max <= u32::MAX,
    ensures
        ({
            let field = decimal(a) + "-"@ + decimal(b);
            &&& field_fault(field, min, max) is None
            &&& forall|v: int| #[trigger]
                field_values(field, min, max).contains(v) <==> a <= v <= b
        }),
{
    reveal_strlit("-");
    lemma_numbers(a);
    lemma_numbers(b);
    let field = decimal(a) + "-"@ + decimal(b);
    assert("-"@ =~= seq!['-']);
    the_first_separator_cuts(field, '/', seq![]);
    the_first_separator_cuts(decimal(a), '-', decimal(b));
    lemma_not_star(a, "-"@ + decimal(b));
    assert(decimal(a) + ("-"@ + decimal(b)) =~= field);
    lemma_one_part(field, min, max);
}

/// The value `a` permits itself and nothing else.
pub proof fn single_values(a: nat, min: nat, max: nat)
    requires
        min <= a <= max <= u32::MAX,
    ensures
        field_fault(decimal(a), min, max) is None,
        forall|v: int| #[trigger] field_values(decimal(a), min, max).contains(v) <==> v == a,
{
    let field = decimal(a);
    lemma_numbers(a);
    the_first_separator_cuts(field, '/', seq![]);
    the_first_separator_cuts(field, '-', seq![]);
    lemma_not_star(a, seq![]);
    assert(field + Seq::<char>::empty() =~= field);
    lemma_one_part(field, min, max);
}

/// The value `a` with the step `k` permits exactly `a`, `a + k` and so on, up
/// to the end of the field.
pub proof fn stepped_values(a: nat, k: nat, min: nat, max: nat)
    requires
        min <= a <= max <= u32::MAX,
        0 < k <= u32::MAX,
    ensures
        ({
            let field = decimal(a) + "/"@ + decimal(k);
            &&& field_fault(field, min, max) is None
            &&& forall|v: int| #[trigger]
                field_values(field, min, max).contains(v) <==> a <= v <= max && (v - a) % (
                k as int) == 0
        }),
{
    reveal_strlit("/");
    lemma_numbers(a);
    lemma_numbers(k);
    let field = decimal(a) + "/"@ + decimal(k);
    assert("/"@ =~= seq!['/']);
    the_first_separator_cuts(decimal(a), '/', decimal(k));
    the_first_separator_cuts(decimal(a), '-', seq![]);
    lemma_not_star(a, seq![]);
    assert(decimal(a) + Seq::<char>::empty() =~= decimal(a));
    lemma_one_part(field, min, max);
}

/// The star permits every value of the field, and with the step `k` every
/// `k`th of them from the least on.
pub proof fn stepped_stars(k: nat, min: nat, max: nat)
    requires
        min <= max <= u32::MAX,
        0 < k <= u32::MAX,
    ensures
        field_fault("*"@, min, max) is None,
        forall|v: int| #[trigger] field_values("*"@, min, max).contains(v) <==> min <= v <= max,
        ({
            let field = "*/"@ + decimal(k);
            &&& field_fault(field, min, max) is None
            &&& forall|v: int| #[trigger]
                field_values(field, min, max).contains(v) <==> min <= v <= max && (v - min) % (
                k as int) == 0
        }),
{
    reveal_strlit("*");
    reveal_strlit("*/");
    lemma_numbers(k);
    let star = "*"@;
    the_first_separator_cuts(star, '/', seq![]);
    lemma_one_part(star, min, max);
    let field = "*/"@ + decimal(k);
    assert(field =~= star + seq!['/'] + decimal(k));
    the_first_separator_cuts(star, '/', decimal(k));
    lemma_one_part(field, min, max);
}

/// A value below the least or above the greatest is refused.
pub proof fn values_out_of_range(a: nat, min: nat, max: nat)
    requires
        a <= u32::MAX,
        a < min || a > max,
    ensures
        field_fault(decimal(a), min, max) == Some(
            CronFault::OutOfRange { field: decimal(a), min, max },
        ),
{
    let one = decimal(a);
    lemma_numbers(a);
    the_first_separator_cuts(one, '/', seq![]);
    the_first_separator_cuts(one, '-', seq![]);
    lemma_not_star(a, seq![]);
    assert(one + Seq::<char>::empty() =~= one);
    lemma_one_part(one, min, max);
}

/// A range that runs backwards, or that starts or ends outside the field, is
/// refused.
pub proof fn ranges_out_of_range(a: nat, b: nat, min: nat, max: nat)
    requires
        a <= u32::MAX,
        b <= u32::MAX,
        a < min || b > max || a > b,
    ensures
        field_fault(decimal(a) + "-"@ + decimal(b), min, max) == Some(
            CronFault::OutOfRange { field: decimal(a) + "-"@ + decimal(b), min, max },
        ),
{
    reveal_strlit("-");
    lemma_numbers(a);
    lemma_numbers(b);
    let range = decimal(a) + "-"@ + decimal(b);
    assert("-"@ =~= seq!['-']);
    the_first_separator_cuts(range, '/', seq![]);
    the_first_separator_cuts(decimal(a), '-', decimal(b));
    lemma_not_star(a, "-"@ + decimal(b));
    assert(decimal(a) + ("-"@ + decimal(b)) =~= range);
    lemma_one_part(range, min, max);
}

/// A step of zero is refused, whatever it steps through.
pub proof fn zero_steps(range: Seq<char>, min: nat, max: nat)
    requires
        forall|i: int| 0 <= i < range.len() ==> #[trigger] range[i] != '/' && range[i] != ',',
    ensures
        field_fault(range + seq!['/'] + decimal(0), min, max) == Some(CronFault::ZeroStep),
{
    lemma_numbers(0);
    let field = range + seq!['/'] + decimal(0);
    the_first_separator_cuts(range, '/', decimal(0));
    lemma_one_part(field, min, max);
}

proof fn lemma_parts(parts: Seq<Seq<char>>, field: Seq<char>, min: nat, max: nat, i: int)
    requires
        0 <= i <= parts.len(),
    ensures
        parts_fault(parts, field, min, max, i) is None <==> forall|k: int|
            i <= k < parts.len() ==> (#[trigger] part_values(parts[k], field, min, max)) is Ok,
    decreases parts.len() - i,
{
    if i < parts.len() {
        lemma_parts(parts, field, min, max, i + 1);
    }
}

proof fn lemma_same_part(part: Seq<char>, f: Seq<char>, g: Seq<char>, min: nat, max: nat)
    ensures
        part_values(part, f, min, max) is Ok <==> part_values(part, g, min, max) is Ok,
        part_values(part, f, min, max) is Ok ==> part_values(part, f, min, max) == part_values(
            part,
            g,
            min,
            max,
        ),
{
}

/// A list permits what one of its two sides permits, and has a fault exactly
/// where one of them has.
pub proof fn lists_are_unions(f: Seq<char>, g: Seq<char>, min: nat, max: nat)
    ensures
        field_fault(f.push(',') + g, min, max) is None <==> field_fault(f, min, max) is None
            && field_fault(g, min, max) is None,
        field_fault(f, min, max) is None && field_fault(g, min, max) is None ==> forall|v: int|
            #[trigger] field_values(f.push(',') + g, min, max).contains(v) <==> field_values(
                f,
                min,
                max,
            ).contains(v) || field_values(g, min, max).contains(v),
{
    let both = f.push(',') + g;
    pieces_lie_between_separators(f, ',', g);
    let a = split(f, ',');
    let b = split(g, ',');
    let all = split(both, ',');
    assert(all == a + b);
    lemma_parts(a, f, min, max, 0);
    lemma_parts(b, g, min, max, 0);
    lemma_parts(all, both, min, max, 0);
    assert forall|k: int| 0 <= k < a.len() implies #[trigger] all[k] == a[k] by {}
    assert forall|k: int| 0 <= k < b.len() implies #[trigger] b[k] == all[k + a.len()] by {}
    assert forall|p: Seq<char>|
        (#[trigger] part_values(p, both, min, max) is Ok <==> part_values(p, f, min, max) is Ok)
            && (part_values(p, both, min, max) is Ok <==> part_values(p, g, min, max) is Ok) by {
        lemma_same_part(p, f, both, min, max);
        lemma_same_part(p, g, both, min, max);
    }
    if field_fault(f, min, max) is None && field_fault(g, min, max) is None {
        assert forall|k: int| 0 <= k < all.len() implies (#[trigger] part_values(
            all[k],
            both,
            min,
            max,
        )) is Ok by {
            if k < a.len() {
                assert(part_values(a[k], f, min, max) is Ok);
            } else {
                assert(part_values(b[k - a.len()], g, min, max) is Ok);
            }
        }
        assert forall|v: int| #[trigger] field_values(both, min, max).contains(v) <==> field_values(
            f,
            min,
            max,
        ).contains(v) || field_values(g, min, max).contains(v) by {
            lemma_union_value(f, g, min, max, v);
        }
    }
    if field_fault(both, min, max) is None {
        assert forall|k: int| 0 <= k < a.len() implies (#[trigger] part_values(
            a[k],
            f,
            min,
            max,
        )) is Ok by {
            assert(part_values(all[k], both, min, max) is Ok);
        }
        assert forall|k: int| 0 <= k < b.len() implies (#[trigger] part_values(
            b[k],
            g,
            min,
            max,
        )) is Ok by {
            assert(part_values(all[k + a.len()], both, min, max) is Ok);
        }
    }
}

proof fn lemma_union_value(f: Seq<char>, g: Seq<char>, min: nat, max: nat, v: int)
    requires
        split(f.push(',') + g, ',') == split(f, ',') + split(g, ','),
    ensures
        field_values(f.push(',') + g, min, max).contains(v) <==> field_values(f, min, max).contains(
            v,
        ) || field_values(g, min, max).contains(v),
{
    let both = f.push(',') + g;
    let a = split(f, ',');
    let b = split(g, ',');
    let all = split(both, ',');
    if parts_hold(all, both, min, max, all.len() as int, v) {
        let i = choose|i: int|
            0 <= i < all.len() && (#[trigger] part_values(all[i], both, min, max) matches Ok(s)
                && in_stride(s, v));
        lemma_same_part(all[i], f, both, min, max);
        lemma_same_part(all[i], g, both, min, max);
        if i < a.len() {
            assert(part_values(a[i], f, min, max) is Ok);
        } else {
            assert(part_values(b[i - a.len()], g, min, max) is Ok);
        }
    }
    if parts_hold(a, f, min, max, a.len() as int, v) {
        let i = choose|i: int|
            0 <= i < a.len() && (#[trigger] part_values(a[i], f, min, max) matches Ok(s)
                && in_stride(s, v));
        lemma_same_part(a[i], f, both, min, max);
        assert(all[i] == a[i]);
        assert(part_values(all[i], both, min, max) is Ok);
    }
    if parts_hold(b, g, min, max, b.len() as int, v) {
        let i = choose|i: int|
            0 <= i < b.len() && (#[trigger] part_values(b[i], g, min, max) matches Ok(s)
                && in_stride(s, v));
        lemma_same_part(b[i], g, both, min, max);
        assert(all[i + a.len()] == b[i]);
        assert(part_values(all[i + a.len()], both, min, max) is Ok);
    }
}

// ---------------------------------------------------------------------------
// Expressions
// ---------------------------------------------------------------------------

/// Whether a text is one word.
pub open spec fn one_word(s: Seq<char>) -> bool {
    s.len() > 0 && forall|i: int| 0 <= i < s.len() ==> !white(#[trigger] s[i])
}

/// The five fields of an expression are its minute, hour, day of the month,
/// month and weekday, each within the bounds of its kind; the days are
/// restricted where their fields are not the star.
pub proof fn five_fields(
    minute: Seq<char>,
    hour: Seq<char>,
    dom: Seq<char>,
    month: Seq<char>,
    dow: Seq<char>,
)
    requires
        one_word(minute),
        one_word(hour),
        one_word(dom),
        one_word(month),
        one_word(dow),
    ensures
        ({
            let expr = joined(seq![minute, hour, dom, month, dow], seq![' ']);
            let s = schedule_of(expr);
            &&& schedule_fault(expr) is None <==> field_fault(minute, 0, 59) is None && field_fault(
                hour,
                0,
                23,
            ) is None && field_fault(dom, 1, 31) is None && field_fault(month, 1, 12) is None
                && field_fault(dow, 0, 6) is None
            &&& s.minute == field_values(minute, 0, 59)
            &&& s.hour == field_values(hour, 0, 23)
            &&& s.dom == field_values(dom, 1, 31)
            &&& s.month == field_values(month, 1, 12)
            &&& s.dow == field_values(dow, 0, 6)
            &&& s.dom_restricted == (dom != "*"@)
            &&& s.dow_restricted == (dow != "*"@)
        }),
{
    let expr = joined(seq![minute, hour, dom, month, dow], seq![' ']);
    lemma_joined_five(minute, hour, dom, month, dow);
    lemma_five_words(minute, hour, dom, month, dow);
    let f = words(expr);
    assert(f[0] == minute && f[1] == hour && f[2] == dom && f[3] == month && f[4] == dow);
}

/// Five words, one after the other.
spec fn five(a: Seq<char>, b: Seq<char>, c: Seq<char>, d: Seq<char>, e: Seq<char>) -> Seq<char> {
    a + seq![' '] + (b + seq![' '] + (c + seq![' '] + (d + seq![' '] + e)))
}

proof fn lemma_joined_two(parts: Seq<Seq<char>>, last: Seq<char>)
    requires
        parts.len() > 0,
    ensures
        joined(parts.push(last), seq![' ']) == joined(parts, seq![' ']) + seq![' '] + last,
{
    assert(parts.push(last).drop_last() =~= parts);
}

proof fn lemma_joined_five(
    a: Seq<char>,
    b: Seq<char>,
    c: Seq<char>,
    d: Seq<char>,
    e: Seq<char>,
)
    ensures
        joined(seq![a, b, c, d, e], seq![' ']) == five(a, b, c, d, e),
{
    let sp = seq![' '];
    lemma_joined_two(seq![a], b);
    lemma_joined_two(seq![a, b], c);
    lemma_joined_two(seq![a, b, c], d);
    lemma_joined_two(seq![a, b, c, d], e);
    assert(seq![a].push(b) =~= seq![a, b]);
    assert(seq![a, b].push(c) =~= seq![a, b, c]);
    assert(seq![a, b, c].push(d) =~= seq![a, b, c, d]);
    assert(seq![a, b, c, d].push(e) =~= seq![a, b, c, d, e]);
    assert(joined(seq![a], sp) == a);
    assert(a + sp + b + sp + c + sp + d + sp + e =~= five(a, b, c, d, e));
}

proof fn lemma_five_words(
    a: Seq<char>,
    b: Seq<char>,
    c: Seq<char>,
    d: Seq<char>,
    e: Seq<char>,
)
    requires
        one_word(a),
        one_word(b),
        one_word(c),
        one_word(d),
        one_word(e),
    ensures
        words(five(a, b, c, d, e)) == seq![a, b, c, d, e],
{
    let sp = seq![' '];
    let r3 = d + sp + e;
    let r2 = c + sp + r3;
    let r1 = b + sp + r2;
    words_lie_between_white(e, ' ', seq![]);
    words_lie_between_white(d, ' ', e);
    assert(words(r3) =~= seq![d, e]);
    words_lie_between_white(c, ' ', r3);
    assert(words(r2) =~= seq![c, d, e]);
    words_lie_between_white(b, ' ', r2);
    assert(words(r1) =~= seq![b, c, d, e]);
    words_lie_between_white(a, ' ', r1);
    assert(words(a + sp + r1) =~= seq![a, b, c, d, e]);
}

// ---------------------------------------------------------------------------
// Ticks
// ---------------------------------------------------------------------------

/// A minute is permitted exactly where its minute of the hour, its hour of the
/// day and its day are.
pub proof fn minutes_hours_and_days_must_agree(s: ScheduleView, day: int, hour: int, minute: int)
    requires
        0 <= hour < 24,
        0 <= minute < 60,
    ensures
        permitted(s, day * 86400 + hour * 3600 + minute * 60) <==> s.minute.contains(minute)
            && s.hour.contains(hour) && day_permitted(s, day),
{
    let t = day * 86400 + hour * 3600 + minute * 60;
    assert(t / 60 == day * 1440 + hour * 60 + minute);
    assert((t / 60) % 60 == minute);
    assert(t / 3600 == day * 24 + hour);
    assert((t / 3600) % 24 == hour);
    assert(t / 86400 == day);
}

/// A day is permitted by its month and its date: where only one of the two day
/// fields is restricted, that one decides, and where both are, either is
/// enough. The first day of 1970 was a Thursday, and weekdays follow one
/// another.
pub proof fn days_are_permitted(s: ScheduleView, day: int)
    ensures
        ({
            let (month, dom) = civil_date(day);
            let weekday = (day - 3) % 7;
            let date_ok = s.dom.contains(dom);
            let weekday_ok = s.dow.contains(weekday);
            &&& day_permitted(s, day) ==> s.month.contains(month)
            &&& s.month.contains(month) && s.dom_restricted && s.dow_restricted ==> (day_permitted(
                s,
                day,
            ) <==> date_ok || weekday_ok)
            &&& s.month.contains(month) && !(s.dom_restricted && s.dow_restricted) ==> (
            day_permitted(s, day) <==> date_ok && weekday_ok)
        }),
{
    assert((day - 3) % 7 == (day + 4) % 7);
}

/// A source is due exactly when a permitted whole minute lies after its last
/// fire, or after its registration where it never fired, and no later than
/// now, within a little over five years.
pub proof fn due_means_a_minute_has_come(
    s: ScheduleView,
    now: int,
    last_fired_at: Option<i64>,
    registered_at: i64,
)
    ensures
        ({
            let since = match last_fired_at {
                Some(t) => t as int,
                None => registered_at as int,
            };
            due(s, now, last_fired_at, registered_at) <==> since + 158_112_000 <= MAX_INSTANT
                && exists|t: int|
                since < t <= now && t <= since + 158_112_000 && t % 60 == 0 && #[trigger] permitted(
                    s,
                    t,
                )
        }),
{
    let since = match last_fired_at {
        Some(t) => t as int,
        None => registered_at as int,
    };
    assert(since == since_of(last_fired_at, registered_at));
    if due(s, now, last_fired_at, registered_at) {
        let t = choose|t: int| t <= now && #[trigger] tick(s, since, t);
        assert(permitted(s, t));
    }
    if since + 158_112_000 <= MAX_INSTANT && exists|t: int|
        since < t <= now && t <= since + 158_112_000 && t % 60 == 0 && #[trigger] permitted(s, t) {
        let t = choose|t: int|
            since < t <= now && t <= since + 158_112_000 && t % 60 == 0 && #[trigger] permitted(
                s,
                t,
            );
        assert(tick(s, since, t));
    }
}

/// A source that is due fires now, and one that is not does not. An
/// expression that is no schedule makes no source.
pub proof fn due_sources_fire_now(
    s: CronSource,
    now: i64,
    last: Option<i64>,
    registered: i64,
    r: Option<i64>,
    expr: &str,
    made: Result<CronSource, CronError>,
)
    requires
        MIN_INSTANT <= registered <= MAX_INSTANT,
        last matches Some(t) ==> MIN_INSTANT <= t <= MAX_INSTANT,
        call_ensures(CronSource::evaluate, (&s, now, last, registered), r),
        call_ensures(CronSource::new, (expr,), made),
    ensures
        r is Some <==> due(s.schedule@, now as int, last, registered),
        r matches Some(t) ==> t == now,
        made is Ok <==> schedule_fault(expr@) is None,
        made matches Ok(m) ==> m.expr@ == expr@ && m.schedule@ == schedule_of(expr@),
        made matches Err(e) ==> schedule_fault(expr@) == Some(e@),
{
}

/// What is said of an expression says what is wrong, and where.
pub proof fn messages_quote_the_fault(text: Seq<char>, n: nat, m: nat)
    ensures
        fault_message(CronFault::FieldCount { got: n }) == "invalid_cron: expected 5 fields, got "@
            + decimal(n),
        fault_message(CronFault::BadStep { step: text }) == "invalid_cron: bad step '"@ + text
            + "'"@,
        fault_message(CronFault::ZeroStep) == "invalid_cron: step must be > 0"@,
        fault_message(CronFault::BadRangeStart { start: text }) == "invalid_cron: bad range start '"@
            + text + "'"@,
        fault_message(CronFault::BadRangeEnd { end: text }) == "invalid_cron: bad range end '"@
            + text + "'"@,
        fault_message(CronFault::BadValue { value: text }) == "invalid_cron: bad value '"@ + text
            + "'"@,
        fault_message(CronFault::OutOfRange { field: text, min: n, max: m }) == "invalid_cron: '"@
            + text + "' out of range "@ + decimal(n) + "..="@ + decimal(m),
{
}

} // verus!
