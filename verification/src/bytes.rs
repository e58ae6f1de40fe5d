//! Sizes of texts in bytes, and texts cut to a size.

use crate::text::{from_chars, to_chars, utf8_len};
use vstd::prelude::*;
use vstd::utf8::*;

verus! {

/// Size of one character in bytes, as UTF-8.
pub open spec fn char_len(c: char) -> nat {
    let n = c as u32;
    if n < 0x80 {
        1
    } else if n < 0x800 {
        2
    } else if n < 0x10000 {
        3
    } else {
        4
    }
}

proof fn lemma_char_len(c: char)
    ensures
        encode_scalar(c as u32).len() == char_len(c),
{
}

/// The encoding of two texts, one after the other.
pub proof fn lemma_encode_concat(a: Seq<char>, b: Seq<char>)
    ensures
        encode_utf8(a + b) == encode_utf8(a) + encode_utf8(b),
    decreases a.len(),
{
    if a.len() == 0 {
        assert(a + b =~= b);
        assert(encode_utf8(a) =~= Seq::<u8>::empty());
    } else {
        lemma_encode_concat(a.drop_first(), b);
        assert((a + b).drop_first() =~= a.drop_first() + b);
        assert((a + b)[0] == a[0]);
    }
}

/// The size of two texts, one after the other.
pub proof fn lemma_utf8_len_concat(a: Seq<char>, b: Seq<char>)
    ensures
        utf8_len(a + b) == utf8_len(a) + utf8_len(b),
{
    lemma_encode_concat(a, b);
}

/// The size of a text with one more character.
pub proof fn lemma_utf8_len_push(s: Seq<char>, c: char)
    ensures
        utf8_len(s.push(c)) == utf8_len(s) + char_len(c),
{
    let one = seq![c];
    lemma_utf8_len_concat(s, one);
    assert(s.push(c) =~= s + one);
    lemma_char_len(c);
    assert(one.drop_first() =~= Seq::<char>::empty());
    assert(encode_utf8(one.drop_first()) =~= Seq::<u8>::empty());
}

/// Texts with the same bytes are the same.
pub proof fn lemma_same_bytes(a: Seq<char>, b: Seq<char>)
    requires
        encode_utf8(a) == encode_utf8(b),
    ensures
        a == b,
{
    encode_utf8_decode_utf8(a);
    encode_utf8_decode_utf8(b);
}

/// The longest start of `s` that fits in `max` bytes.
pub open spec fn fitting(s: Seq<char>, max: nat) -> Seq<char>
    decreases s.len(),
{
    if s.len() == 0 || utf8_len(s) <= max {
        s
    } else {
        fitting(s.drop_last(), max)
    }
}

proof fn lemma_take_grows(s: Seq<char>, i: int, j: int)
    requires
        0 <= i <= j <= s.len(),
    ensures
        utf8_len(s.take(i)) <= utf8_len(s.take(j)),
    decreases j - i,
{
    if i < j {
        lemma_take_grows(s, i, j - 1);
        assert(s.take(j) =~= s.take(j - 1).push(s[j - 1]));
        lemma_utf8_len_push(s.take(j - 1), s[j - 1]);
    }
}

proof fn lemma_fitting(s: Seq<char>, max: nat, k: int, j: int)
    requires
        0 <= k <= j <= s.len(),
        utf8_len(s.take(k)) <= max,
        k < s.len() ==> utf8_len(s.take(k + 1)) > max,
    ensures
        fitting(s.take(j), max) == s.take(k),
    decreases j,
{
    if k < j {
        lemma_take_grows(s, k + 1, j);
        assert(s.take(j).drop_last() =~= s.take(j - 1));
        lemma_fitting(s, max, k, j - 1);
    }
}

/// What fits is a start of the text, and no longer start fits.
pub proof fn fitting_is_longest_prefix(s: Seq<char>, max: nat)
    ensures
        fitting(s, max).is_prefix_of(s),
        utf8_len(fitting(s, max)) <= max,
        forall|k: int|
            fitting(s, max).len() < k <= s.len() ==> utf8_len(#[trigger] s.take(k)) > max,
    decreases s.len(),
{
    if s.len() > 0 && utf8_len(s) > max {
        fitting_is_longest_prefix(s.drop_last(), max);
        let f = fitting(s.drop_last(), max);
        assert(f =~= s.subrange(0, f.len() as int));
        assert forall|k: int| f.len() < k <= s.len() implies utf8_len(#[trigger] s.take(k))
            > max by {
            if k == s.len() {
                assert(s.take(k) =~= s);
            } else {
                assert(s.drop_last().take(k) =~= s.take(k));
            }
        }
    } else {
        assert(s =~= s.subrange(0, s.len() as int));
        if s.len() == 0 {
            assert(encode_utf8(s) =~= Seq::<u8>::empty());
        }
    }
}

/// Size of one character in bytes.
pub fn len_of_char(c: char) -> (n: usize)
    ensures
        n == char_len(c),
{
    let v: u32 = c as u32;
    if v < 0x80 {
        1
    } else if v < 0x800 {
        2
    } else if v < 0x10000 {
        3
    } else {
        4
    }
}

/// Size of `s` in bytes.
pub fn byte_len(s: &str) -> (n: usize)
    ensures
        n == utf8_len(s@),
{
    s.as_bytes().len()
}

/// The longest start of `s` that fits in `max` bytes.
pub fn cut_to_bytes(s: &str, max: usize) -> (r: String)
    ensures
        r@ == fitting(s@, max as nat),
{
    let v = to_chars(s);
    let mut k: usize = 0;
    let mut used: usize = 0;
    assert(v@.take(0) =~= Seq::<char>::empty());
    assert(encode_utf8(v@.take(0)) =~= Seq::<u8>::empty());
    assert(v@.take(v@.len() as int) =~= v@);
    while k < v.len()
        invariant
            v@ == s@,
            k <= v@.len(),
            used == utf8_len(v@.take(k as int)),
            used <= max,
            v@.take(v@.len() as int) == v@,
        decreases v@.len() - k,
    {
        let n: usize = len_of_char(v[k]);
        proof {
            assert(v@.take(k + 1) =~= v@.take(k as int).push(v@[k as int]));
            lemma_utf8_len_push(v@.take(k as int), v@[k as int]);
        }
        if n > max - used {
            proof {
                lemma_fitting(v@, max as nat, k as int, v@.len() as int);
            }
            let r = from_chars(&v, 0, k);
            assert(r@ =~= v@.take(k as int));
            return r;
        }
        used = used + n;
        k = k + 1;
    }
    proof {
        lemma_fitting(v@, max as nat, k as int, v@.len() as int);
    }
    let r = from_chars(&v, 0, k);
    assert(r@ =~= v@.take(k as int));
    r
}

/// The first `n` characters of `s`, or all of it where it has no more.
pub open spec fn first_chars(s: Seq<char>, n: nat) -> Seq<char> {
    if s.len() <= n {
        s
    } else {
        s.take(n as int)
    }
}

/// The first `n` characters of `s`.
pub fn cut_to_chars(s: &str, n: usize) -> (r: String)
    ensures
        r@ == first_chars(s@, n as nat),
{
    let v = to_chars(s);
    let k: usize = if v.len() <= n {
        v.len()
    } else {
        n
    };
    let r = from_chars(&v, 0, k);
    assert(r@ =~= first_chars(s@, n as nat));
    r
}

/// A text that is cut to a number of characters keeps its start, and all of
/// it where it is no longer than that.
pub proof fn cuts_keep_the_start(s: Seq<char>, n: nat)
    ensures
        first_chars(s, n).is_prefix_of(s),
        s.len() <= n ==> first_chars(s, n) == s,
        s.len() > n ==> first_chars(s, n).len() == n,
{
    assert(first_chars(s, n) =~= s.subrange(0, first_chars(s, n).len() as int));
}

} // verus!
