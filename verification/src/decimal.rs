//! Decimal numbers as text.

use crate::text::to_chars;
use vstd::prelude::*;
use vstd::string::*;

verus! {

/// The digit that stands for `d`, for `d` below ten.
pub open spec fn digit_char(d: nat) -> char {
    if d == 0 {
        '0'
    } else if d == 1 {
        '1'
    } else if d == 2 {
        '2'
    } else if d == 3 {
        '3'
    } else if d == 4 {
        '4'
    } else if d == 5 {
        '5'
    } else if d == 6 {
        '6'
    } else if d == 7 {
        '7'
    } else if d == 8 {
        '8'
    } else {
        '9'
    }
}

/// What a digit stands for; `None` for any other character.
pub open spec fn digit_value(c: char) -> Option<nat> {
    if '0' <= c && c <= '9' {
        Some((c as u32 - '0' as u32) as nat)
    } else {
        None
    }
}

/// `n` in decimal, without leading zeros.
pub open spec fn decimal(n: nat) -> Seq<char>
    decreases n,
{
    if n < 10 {
        seq![digit_char(n)]
    } else {
        decimal(n / 10).push(digit_char(n % 10))
    }
}

/// The number that the digits `s` stand for; `None` where `s` holds anything
/// but digits.
pub open spec fn digits_value(s: Seq<char>) -> Option<nat>
    decreases s.len(),
{
    if s.len() == 0 {
        Some(0)
    } else {
        match (digits_value(s.drop_last()), digit_value(s.last())) {
            (Some(v), Some(d)) => Some(v * 10 + d),
            _ => None,
        }
    }
}

/// A number no greater than `max`, as digits with an optional plus sign
/// before them.
pub open spec fn parsed_number(s: Seq<char>, max: nat) -> Option<nat> {
    let digits = if s.len() > 0 && s[0] == '+' {
        s.drop_first()
    } else {
        s
    };
    if digits.len() == 0 {
        None
    } else {
        match digits_value(digits) {
            Some(v) => if v <= max {
                Some(v)
            } else {
                None
            },
            None => None,
        }
    }
}

/// What is written in decimal reads back as the same number.
pub proof fn decimal_reads_back(n: nat)
    ensures
        digits_value(decimal(n)) == Some(n),
        decimal(n).len() > 0,
        decimal(n)[0] != '+',
        parsed_number(decimal(n), n) == Some(n),
    decreases n,
{
    if n < 10 {
        assert(decimal(n).drop_last() =~= Seq::<char>::empty());
        assert(digits_value(Seq::<char>::empty()) == Some(0nat));
    } else {
        decimal_reads_back(n / 10);
        assert(decimal(n).drop_last() =~= decimal(n / 10));
        assert(decimal(n)[0] == decimal(n / 10)[0]);
    }
}

/// Different numbers are written differently.
pub proof fn decimal_injective(a: nat, b: nat)
    requires
        decimal(a) == decimal(b),
    ensures
        a == b,
{
    decimal_reads_back(a);
    decimal_reads_back(b);
}

fn digit(d: u64) -> (c: char)
    requires
        d < 10,
    ensures
        c == digit_char(d as nat),
{
    if d == 0 {
        '0'
    } else if d == 1 {
        '1'
    } else if d == 2 {
        '2'
    } else if d == 3 {
        '3'
    } else if d == 4 {
        '4'
    } else if d == 5 {
        '5'
    } else if d == 6 {
        '6'
    } else if d == 7 {
        '7'
    } else if d == 8 {
        '8'
    } else {
        '9'
    }
}

/// `n` in decimal.
pub fn to_decimal(n: u64) -> (s: String)
    ensures
        s@ == decimal(n as nat),
    decreases n,
{
    if n < 10 {
        let mut s = String::new();
        s.push(digit(n));
        assert(s@ =~= decimal(n as nat));
        s
    } else {
        let mut s = to_decimal(n / 10);
        s.push(digit(n % 10));
        s
    }
}

/// `n` in decimal, with a minus sign where it is negative.
pub open spec fn signed_decimal(n: int) -> Seq<char> {
    if n < 0 {
        seq!['-'] + decimal((-n) as nat)
    } else {
        decimal(n as nat)
    }
}

/// `n` in decimal, with a minus sign where it is negative.
pub fn to_signed_decimal(n: i64) -> (s: String)
    ensures
        s@ == signed_decimal(n as int),
{
    if n < 0 {
        let magnitude: u64 = if n == i64::MIN {
            9_223_372_036_854_775_808
        } else {
            (-n) as u64
        };
        let mut s = String::new();
        s.push('-');
        s.append(to_decimal(magnitude).as_str());
        assert(s@ =~= signed_decimal(n as int));
        s
    } else {
        to_decimal(n as u64)
    }
}

proof fn lemma_digits_none(s: Seq<char>, i: int)
    requires
        0 <= i <= s.len(),
        digits_value(s.take(i)) is None,
    ensures
        digits_value(s) is None,
    decreases s.len() - i,
{
    if i < s.len() {
        assert(s.take(i + 1).drop_last() =~= s.take(i));
        lemma_digits_none(s, i + 1);
    } else {
        assert(s.take(i) =~= s);
    }
}

proof fn lemma_digits_grow(s: Seq<char>, i: int)
    requires
        0 <= i <= s.len(),
        digits_value(s.take(i)) is Some,
    ensures
        digits_value(s) is Some ==> digits_value(s)->0 >= digits_value(s.take(i))->0,
    decreases s.len() - i,
{
    if i < s.len() {
        let next = s.take(i + 1);
        assert(next.drop_last() =~= s.take(i));
        if digits_value(next) is Some {
            lemma_digits_grow(s, i + 1);
        } else {
            lemma_digits_none(s, i + 1);
        }
    } else {
        assert(s.take(i) =~= s);
    }
}

/// Reads a number no greater than `max`.
pub fn parse_number(s: &str, max: u64) -> (r: Option<u64>)
    ensures
        match r {
            Some(v) => parsed_number(s@, max as nat) == Some(v as nat),
            None => parsed_number(s@, max as nat) is None,
        },
{
    let v = to_chars(s);
    let from: usize = if v.len() > 0 && v[0] == '+' {
        1
    } else {
        0
    };
    let ghost digits = v@.skip(from as int);
    proof {
        if from == 1 {
            assert(digits =~= v@.drop_first());
        } else {
            assert(digits =~= v@);
        }
    }
    if from == v.len() {
        return None;
    }
    let mut acc: u64 = 0;
    let mut i: usize = from;
    assert(digits.take(0) =~= Seq::<char>::empty());
    while i < v.len()
        invariant
            from <= i <= v@.len(),
            from < v@.len(),
            digits == v@.skip(from as int),
            digits_value(digits.take(i - from)) == Some(acc as nat),
            acc <= max,
            v@ == s@,
            parsed_number(s@, max as nat) == (match digits_value(digits) {
                Some(n) => if n <= max {
                    Some(n)
                } else {
                    None
                },
                None => None,
            }),
        decreases v@.len() - i,
    {
        let c = v[i];
        let ghost next = digits.take(i - from + 1);
        proof {
            assert(next.drop_last() =~= digits.take(i - from));
            assert(next.last() == c);
        }
        if c < '0' || c > '9' {
            proof {
                lemma_digits_none(digits, i - from + 1);
            }
            return None;
        }
        let d: u64 = (c as u32 - '0' as u32) as u64;
        if acc > (u64::MAX - d) / 10 || acc * 10 + d > max {
            proof {
                assert(digits_value(next) == Some((acc * 10 + d) as nat));
                assert(acc * 10 + d > max);
                lemma_digits_grow(digits, i - from + 1);
            }
            return None;
        }
        acc = acc * 10 + d;
        i = i + 1;
    }
    assert(digits.take(i - from) =~= digits);
    Some(acc)
}

/// Every character of a number in decimal is a digit.
pub proof fn decimal_is_digits(n: nat)
    ensures
        forall|i: int|
            0 <= i < decimal(n).len() ==> '0' <= #[trigger] decimal(n)[i] && decimal(n)[i] <= '9',
    decreases n,
{
    if n >= 10 {
        decimal_is_digits(n / 10);
        let before = decimal(n / 10);
        assert forall|i: int| 0 <= i < decimal(n).len() implies '0' <= #[trigger] decimal(n)[i]
            && decimal(n)[i] <= '9' by {
            if i < before.len() {
                assert(decimal(n)[i] == before[i]);
            }
        }
    }
}

/// A digit is written as itself, and a further digit is written at the end.
pub proof fn decimal_is_place_value(n: nat, d: nat)
    requires
        d < 10,
    ensures
        decimal(d).len() == 1,
        decimal(d)[0] as u32 == '0' as u32 + d,
        n > 0 ==> decimal(n * 10 + d) == decimal(n) + decimal(d),
{
    if n > 0 {
        assert((n * 10 + d) / 10 == n && (n * 10 + d) % 10 == d);
        assert(decimal(n) + decimal(d) =~= decimal(n).push(digit_char(d)));
    }
}

/// A negative number is its magnitude after a minus sign.
pub proof fn signs_come_first(n: nat)
    ensures
        signed_decimal(n as int) == decimal(n),
        n > 0 ==> signed_decimal(-(n as int)) == seq!['-'] + decimal(n),
{
}

/// A number is read exactly where it is digits, of which there is at least
/// one, after a plus sign or none, and it is no greater than the bound.
pub proof fn numbers_are_bounded_digits(n: nat, max: nat, c: char, a: Seq<char>, b: Seq<char>)
    ensures
        n <= max ==> parsed_number(decimal(n), max) == Some(n),
        n <= max ==> parsed_number(seq!['+'] + decimal(n), max) == Some(n),
        n > max ==> parsed_number(decimal(n), max) is None,
        parsed_number(seq![], max) is None,
        parsed_number(seq!['+'], max) is None,
        a.len() > 0 && !('0' <= c && c <= '9') ==> parsed_number(a.push(c) + b, max) is None,
{
    decimal_reads_back(n);
    assert((seq!['+'] + decimal(n)).drop_first() =~= decimal(n));
    assert(seq!['+'].drop_first() =~= Seq::<char>::empty());
    if a.len() > 0 && !('0' <= c && c <= '9') {
        let s = a.push(c) + b;
        let digits = if s[0] == '+' {
            s.drop_first()
        } else {
            s
        };
        let at = if s[0] == '+' {
            a.len() - 1
        } else {
            a.len() as int
        };
        assert(digits[at] == c);
        let upto = digits.take(at + 1);
        assert(upto.last() == c);
        assert(digits_value(upto) is None);
        lemma_digits_none(digits, at + 1);
    }
}

} // verus!
