//! Cutting text into pieces and putting pieces together.

use crate::text::{from_chars, is_white, texts, to_chars, white};
use vstd::prelude::*;
use vstd::string::*;

verus! {

// ---------------------------------------------------------------------------
// Searching
// ---------------------------------------------------------------------------

/// Position of the first `c` in `s`; the length of `s` where there is none.
pub open spec fn find(s: Seq<char>, c: char) -> int
    decreases s.len(),
{
    if s.len() == 0 || s[0] == c {
        0
    } else {
        1 + find(s.drop_first(), c)
    }
}

/// `find` is the only position with no `c` before it and `c`, or the end, at it.
pub proof fn lemma_find(s: Seq<char>, c: char, i: int)
    requires
        0 <= i <= s.len(),
        forall|j: int| 0 <= j < i ==> s[j] != c,
        i == s.len() || s[i] == c,
    ensures
        find(s, c) == i,
    decreases s.len(),
{
    if s.len() > 0 && i > 0 {
        assert forall|j: int| 0 <= j < i - 1 implies s.drop_first()[j] != c by {
            assert(s.drop_first()[j] == s[j + 1]);
        }
        lemma_find(s.drop_first(), c, i - 1);
    }
}

/// The bounds of `find`, and what stands at it.
pub proof fn lemma_find_bounds(s: Seq<char>, c: char)
    ensures
        0 <= find(s, c) <= s.len(),
        find(s, c) < s.len() ==> s[find(s, c)] == c,
        forall|j: int| 0 <= j < find(s, c) ==> s[j] != c,
    decreases s.len(),
{
    if s.len() > 0 && s[0] != c {
        let t = s.drop_first();
        lemma_find_bounds(t, c);
        assert forall|j: int| 0 <= j < find(s, c) implies s[j] != c by {
            if j > 0 {
                assert(t[j - 1] == s[j]);
            }
        }
        if find(s, c) < s.len() {
            assert(t[find(t, c)] == s[find(t, c) + 1]);
        }
    }
}

/// Position of the first `c` at or after `from`; the length where there is none.
pub fn find_from(v: &Vec<char>, c: char, from: usize) -> (i: usize)
    requires
        from <= v@.len(),
    ensures
        from <= i <= v@.len(),
        i == from + find(v@.skip(from as int), c),
        forall|j: int| from <= j < i ==> v@[j] != c,
        i < v@.len() ==> v@[i as int] == c,
{
    let mut i: usize = from;
    while i < v.len() && v[i] != c
        invariant
            from <= i <= v@.len(),
            forall|j: int| from <= j < i ==> v@[j] != c,
        decreases v@.len() - i,
    {
        i = i + 1;
    }
    proof {
        lemma_find(v@.skip(from as int), c, i - from);
    }
    i
}

/// `s` cut at its first `sep`, which belongs to neither part; `None` where
/// `s` has no `sep`.
pub open spec fn split_once(s: Seq<char>, sep: char) -> Option<(Seq<char>, Seq<char>)> {
    let i = find(s, sep);
    if i < s.len() {
        Some((s.take(i), s.skip(i + 1)))
    } else {
        None
    }
}

/// `s` cut at its first `sep`.
pub fn cut_once(s: &str, sep: char) -> (r: Option<(String, String)>)
    ensures
        match r {
            Some((a, b)) => split_once(s@, sep) == Some((a@, b@)),
            None => split_once(s@, sep) is None,
        },
{
    let v = to_chars(s);
    let i: usize = find_from(&v, sep, 0);
    assert(v@.skip(0) =~= v@);
    if i < v.len() {
        let a = from_chars(&v, 0, i);
        let b = from_chars(&v, i + 1, v.len());
        assert(a@ =~= v@.take(i as int));
        assert(b@ =~= v@.skip(i + 1));
        Some((a, b))
    } else {
        None
    }
}

// ---------------------------------------------------------------------------
// Splitting at a separator
// ---------------------------------------------------------------------------

/// The pieces of `s` between its `sep`s: one more than there are `sep`s.
pub open spec fn split(s: Seq<char>, sep: char) -> Seq<Seq<char>>
    decreases s.len(),
    via split_decreases
{
    let i = find(s, sep);
    if i < s.len() {
        seq![s.take(i)] + split(s.skip(i + 1), sep)
    } else {
        seq![s]
    }
}

#[via_fn]
proof fn split_decreases(s: Seq<char>, sep: char) {
    lemma_find_bounds(s, sep);
}

/// A split text has at least one piece.
pub proof fn lemma_split_nonempty(s: Seq<char>, sep: char)
    ensures
        split(s, sep).len() >= 1,
    decreases s.len(),
{
    lemma_find_bounds(s, sep);
    if find(s, sep) < s.len() {
        lemma_split_nonempty(s.skip(find(s, sep) + 1), sep);
    }
}

/// The pieces of `s` between its `sep`s.
pub fn split_at_char(s: &str, sep: char) -> (r: Vec<String>)
    ensures
        texts(r@) == split(s@, sep),
        r@.len() >= 1,
{
    let v = to_chars(s);
    let mut r: Vec<String> = Vec::new();
    let mut start: usize = 0;
    assert(v@.skip(0) =~= v@);
    assert(texts(r@) + split(v@, sep) =~= split(v@, sep));
    loop
        invariant_except_break
            start <= v@.len(),
            texts(r@) + split(v@.skip(start as int), sep) == split(v@, sep),
        ensures
            texts(r@) == split(v@, sep),
        decreases v@.len() - start,
    {
        let i: usize = find_from(&v, sep, start);
        let piece = from_chars(&v, start, i);
        let ghost rest = v@.skip(start as int);
        let ghost before = texts(r@);
        proof {
            assert(piece@ =~= rest.take(i - start));
        }
        r.push(piece);
        assert(texts(r@) =~= before.push(piece@));
        if i == v.len() {
            assert(rest.take(i - start) =~= rest);
            assert(split(rest, sep) =~= seq![rest]);
            assert(before.push(piece@) =~= before + seq![rest]);
            break;
        }
        proof {
            assert(rest.skip(i - start + 1) =~= v@.skip(i + 1));
            assert(before.push(piece@) + split(v@.skip(i + 1), sep) =~= before + (seq![piece@]
                + split(v@.skip(i + 1), sep)));
        }
        start = i + 1;
    }
    proof {
        lemma_split_nonempty(v@, sep);
        assert(r@.len() == texts(r@).len());
    }
    r
}

/// One line's text without the carriage return that may end it.
pub open spec fn chomp(s: Seq<char>) -> Seq<char> {
    if s.len() > 0 && s.last() == '\r' {
        s.drop_last()
    } else {
        s
    }
}

/// The lines of `s`: its pieces between line feeds, each without a carriage
/// return at its end, and without the empty piece after a final line feed.
pub open spec fn lines(s: Seq<char>) -> Seq<Seq<char>>
    decreases s.len(),
    via lines_decreases
{
    let i = find(s, '\n');
    if s.len() == 0 {
        seq![]
    } else if i < s.len() {
        seq![chomp(s.take(i))] + lines(s.skip(i + 1))
    } else {
        seq![s]
    }
}

#[via_fn]
proof fn lines_decreases(s: Seq<char>) {
    lemma_find_bounds(s, '\n');
}

/// The lines of `s`.
pub fn split_lines(s: &str) -> (r: Vec<String>)
    ensures
        texts(r@) == lines(s@),
{
    let v = to_chars(s);
    let mut r: Vec<String> = Vec::new();
    let mut start: usize = 0;
    assert(v@.skip(0) =~= v@);
    assert(texts(r@) + lines(v@) =~= lines(v@));
    while start < v.len()
        invariant
            start <= v@.len(),
            texts(r@) + lines(v@.skip(start as int)) == lines(v@),
        decreases v@.len() - start,
    {
        let i: usize = find_from(&v, '\n', start);
        let ghost rest = v@.skip(start as int);
        let ghost before = texts(r@);
        if i == v.len() {
            let piece = from_chars(&v, start, i);
            r.push(piece);
            proof {
                assert(piece@ =~= rest);
                assert(texts(r@) =~= before + seq![rest]);
                assert(v@.skip(v@.len() as int) =~= Seq::<char>::empty());
                assert(texts(r@) + lines(v@.skip(i as int)) =~= texts(r@));
            }
            start = i;
        } else {
            let cut: bool = i > start && v[i - 1] == '\r';
            let end: usize = if cut { i - 1 } else { i };
            let piece = from_chars(&v, start, end);
            r.push(piece);
            proof {
                let whole = rest.take(i - start);
                if i > start {
                    assert(whole.last() == v@[i - 1]);
                }
                assert(piece@ =~= chomp(whole));
                assert(texts(r@) =~= before.push(piece@));
                assert(rest.skip(i - start + 1) =~= v@.skip(i + 1));
                assert(before.push(piece@) + lines(v@.skip(i + 1)) =~= before + (seq![piece@]
                    + lines(v@.skip(i + 1))));
            }
            start = i + 1;
        }
    }
    assert(v@.skip(v@.len() as int) =~= Seq::<char>::empty());
    assert(texts(r@) + lines(v@.skip(start as int)) =~= texts(r@));
    r
}

// ---------------------------------------------------------------------------
// Splitting at white space
// ---------------------------------------------------------------------------

/// Length of the longest start of `s` that has no white space.
pub open spec fn word_len(s: Seq<char>) -> int
    decreases s.len(),
{
    if s.len() == 0 || white(s[0]) {
        0
    } else {
        1 + word_len(s.drop_first())
    }
}

/// The bound of `word_len`.
pub proof fn lemma_word_len(s: Seq<char>, i: int)
    requires
        0 <= i <= s.len(),
        forall|j: int| 0 <= j < i ==> !white(s[j]),
        i == s.len() || white(s[i]),
    ensures
        word_len(s) == i,
    decreases s.len(),
{
    if s.len() > 0 && i > 0 {
        assert forall|j: int| 0 <= j < i - 1 implies !white(s.drop_first()[j]) by {
            assert(s.drop_first()[j] == s[j + 1]);
        }
        lemma_word_len(s.drop_first(), i - 1);
    }
}

/// A word is no longer than its text.
pub proof fn lemma_word_len_bounds(s: Seq<char>)
    ensures
        0 <= word_len(s) <= s.len(),
        s.len() > 0 && !white(s[0]) ==> word_len(s) > 0,
    decreases s.len(),
{
    if s.len() > 0 && !white(s[0]) {
        lemma_word_len_bounds(s.drop_first());
    }
}

/// The words of `s`: its longest pieces without white space, none of them empty.
pub open spec fn words(s: Seq<char>) -> Seq<Seq<char>>
    decreases s.len(),
    via words_decreases
{
    if s.len() == 0 {
        seq![]
    } else if white(s[0]) {
        words(s.drop_first())
    } else {
        seq![s.take(word_len(s))] + words(s.skip(word_len(s)))
    }
}

#[via_fn]
proof fn words_decreases(s: Seq<char>) {
    lemma_word_len_bounds(s);
}

/// The words of `s`.
pub fn split_words(s: &str) -> (r: Vec<String>)
    ensures
        texts(r@) == words(s@),
{
    let v = to_chars(s);
    let mut r: Vec<String> = Vec::new();
    let mut start: usize = 0;
    assert(v@.skip(0) =~= v@);
    assert(texts(r@) + words(v@) =~= words(v@));
    while start < v.len()
        invariant
            start <= v@.len(),
            texts(r@) + words(v@.skip(start as int)) == words(v@),
        decreases v@.len() - start,
    {
        let ghost rest = v@.skip(start as int);
        if is_white(v[start]) {
            assert(rest.drop_first() =~= v@.skip(start + 1));
            start = start + 1;
        } else {
            let mut i: usize = start;
            while i < v.len() && !is_white(v[i])
                invariant
                    start <= i <= v@.len(),
                    forall|j: int| start <= j < i ==> !white(v@[j]),
                decreases v@.len() - i,
            {
                i = i + 1;
            }
            let ghost before = texts(r@);
            let piece = from_chars(&v, start, i);
            r.push(piece);
            proof {
                lemma_word_len(rest, i - start);
                assert(piece@ =~= rest.take(i - start));
                assert(texts(r@) =~= before.push(piece@));
                assert(rest.skip(i - start) =~= v@.skip(i as int));
                assert(before.push(piece@) + words(v@.skip(i as int)) =~= before + (seq![piece@]
                    + words(v@.skip(i as int))));
                lemma_word_len_bounds(rest);
            }
            start = i;
        }
    }
    assert(v@.skip(v@.len() as int) =~= Seq::<char>::empty());
    assert(texts(r@) + words(v@.skip(start as int)) =~= texts(r@));
    r
}

// ---------------------------------------------------------------------------
// Joining
// ---------------------------------------------------------------------------

/// The pieces one after the other, with `sep` between each two.
pub open spec fn joined(parts: Seq<Seq<char>>, sep: Seq<char>) -> Seq<char>
    decreases parts.len(),
{
    if parts.len() == 0 {
        seq![]
    } else if parts.len() == 1 {
        parts[0]
    } else {
        joined(parts.drop_last(), sep) + sep + parts.last()
    }
}

/// The pieces one after the other, with `sep` between each two.
pub fn join(parts: &Vec<String>, sep: &str) -> (r: String)
    ensures
        r@ == joined(texts(parts@), sep@),
{
    let mut r = String::new();
    for i in 0..parts.len()
        invariant
            r@ == joined(texts(parts@).take(i as int), sep@),
    {
        if i > 0 {
            r.append(sep);
        }
        r.append(parts[i].as_str());
        proof {
            let now = texts(parts@).take(i + 1);
            assert(now.drop_last() =~= texts(parts@).take(i as int));
            assert(now.last() == parts@[i as int]@);
            if i == 0 {
                assert(texts(parts@).take(0) =~= Seq::<Seq<char>>::empty());
                assert(r@ =~= now[0]);
            }
        }
    }
    assert(texts(parts@).take(parts@.len() as int) =~= texts(parts@));
    r
}

// ---------------------------------------------------------------------------
// Replacing
// ---------------------------------------------------------------------------

/// `s` with every `pat` in it replaced by `with`, found from the left and
/// without overlap.
pub open spec fn replaced(s: Seq<char>, pat: Seq<char>, with: Seq<char>) -> Seq<char>
    decreases s.len(),
{
    if s.len() == 0 || pat.len() == 0 {
        s
    } else if pat.is_prefix_of(s) {
        with + replaced(s.skip(pat.len() as int), pat, with)
    } else {
        seq![s[0]] + replaced(s.drop_first(), pat, with)
    }
}

fn stands_at(v: &Vec<char>, pat: &Vec<char>, at: usize) -> (r: bool)
    requires
        at <= v@.len(),
    ensures
        r == pat@.is_prefix_of(v@.skip(at as int)),
{
    let n: usize = v.len();
    if pat.len() > n - at {
        return false;
    }
    let mut i: usize = 0;
    while i < pat.len()
        invariant
            n == v@.len(),
            at <= v@.len(),
            pat@.len() <= v@.len() - at,
            i <= pat@.len(),
            forall|j: int| 0 <= j < i ==> v@[at + j] == pat@[j],
        decreases pat@.len() - i,
    {
        if v[at + i] != pat[i] {
            assert(v@.skip(at as int).subrange(0, pat@.len() as int)[i as int] != pat@[i as int]);
            return false;
        }
        i = i + 1;
    }
    assert(pat@ =~= v@.skip(at as int).subrange(0, pat@.len() as int));
    true
}

/// Whether `pat` stands somewhere in `s`.
pub open spec fn occurs(s: Seq<char>, pat: Seq<char>) -> bool {
    exists|i: int| 0 <= i <= s.len() && pat.is_prefix_of(#[trigger] s.skip(i))
}

/// Whether `pat` stands somewhere in `s`.
pub fn has_text(s: &str, pat: &str) -> (r: bool)
    ensures
        r == occurs(s@, pat@),
{
    let v = to_chars(s);
    let p = to_chars(pat);
    let n: usize = v.len();
    let mut i: usize = 0;
    loop
        invariant
            v@ == s@,
            p@ == pat@,
            n == v@.len(),
            i <= n,
            forall|j: int| 0 <= j < i ==> !pat@.is_prefix_of(#[trigger] s@.skip(j)),
        decreases n - i,
    {
        if stands_at(&v, &p, i) {
            return true;
        }
        if i == n {
            return false;
        }
        i = i + 1;
    }
}

/// `s` with every `pat` in it replaced by `with`. `pat` must not be empty.
pub fn replace(s: &str, pat: &str, with: &str) -> (r: String)
    requires
        pat@.len() > 0,
    ensures
        r@ == replaced(s@, pat@, with@),
{
    let v = to_chars(s);
    let p = to_chars(pat);
    let mut r = String::new();
    let mut i: usize = 0;
    assert(v@.skip(0) =~= v@);
    assert(r@ + replaced(v@, p@, with@) =~= replaced(v@, p@, with@));
    while i < v.len()
        invariant
            p@ == pat@,
            p@.len() > 0,
            i <= v@.len(),
            r@ + replaced(v@.skip(i as int), p@, with@) == replaced(v@, p@, with@),
        decreases v@.len() - i,
    {
        let ghost rest = v@.skip(i as int);
        let ghost before = r@;
        if stands_at(&v, &p, i) {
            r.append(with);
            proof {
                assert(rest.skip(p@.len() as int) =~= v@.skip(i + p@.len()));
                let tail = replaced(v@.skip(i + p@.len()), p@, with@);
                assert(r@ + tail =~= before + (with@ + tail));
            }
            i = i + p.len();
        } else {
            r.push(v[i]);
            proof {
                assert(rest.drop_first() =~= v@.skip(i + 1));
                let tail = replaced(v@.skip(i + 1), p@, with@);
                assert(r@ + tail =~= before + (seq![rest[0]] + tail));
            }
            i = i + 1;
        }
    }
    assert(v@.skip(i as int) =~= Seq::<char>::empty());
    assert(r@ + replaced(v@.skip(i as int), p@, with@) =~= r@);
    r
}

// ---------------------------------------------------------------------------
// Laws
// ---------------------------------------------------------------------------

/// A text without the separator is its only piece; one that is cut at a
/// separator has the pieces before it and those after it.
pub proof fn pieces_lie_between_separators(a: Seq<char>, sep: char, b: Seq<char>)
    ensures
        (forall|i: int| 0 <= i < a.len() ==> #[trigger] a[i] != sep) ==> split(a, sep) == seq![a],
        split(a.push(sep) + b, sep) == split(a, sep) + split(b, sep),
    decreases a.len(),
{
    let s = a.push(sep) + b;
    lemma_find_bounds(a, sep);
    let i = find(a, sep);
    if i < a.len() {
        lemma_find(s, sep, i);
        pieces_lie_between_separators(a.skip(i + 1), sep, b);
        assert(s.take(i) =~= a.take(i));
        assert(s.skip(i + 1) =~= a.skip(i + 1).push(sep) + b);
        assert(seq![a.take(i)] + (split(a.skip(i + 1), sep) + split(b, sep)) =~= split(a, sep)
            + split(b, sep));
    } else {
        lemma_find(s, sep, a.len() as int);
        assert(s.take(a.len() as int) =~= a);
        assert(s.skip((a.len() + 1) as int) =~= b);
    }
}

/// A text is cut at its first separator: what stands before it, which has
/// none, and all that stands after it.
pub proof fn the_first_separator_cuts(a: Seq<char>, sep: char, b: Seq<char>)
    requires
        forall|i: int| 0 <= i < a.len() ==> #[trigger] a[i] != sep,
    ensures
        split_once(a + seq![sep] + b, sep) == Some((a, b)),
        split_once(a, sep) is None,
{
    let s = a + seq![sep] + b;
    lemma_find(s, sep, a.len() as int);
    lemma_find(a, sep, a.len() as int);
    assert(s.take(a.len() as int) =~= a);
    assert(s.skip((a.len() + 1) as int) =~= b);
}

/// Joined pieces come apart again at the separator, where none holds it.
pub proof fn joined_pieces_come_apart(parts: Seq<Seq<char>>, sep: char)
    requires
        parts.len() > 0,
        forall|k: int, i: int|
            0 <= k < parts.len() && 0 <= i < parts[k].len() ==> #[trigger] parts[k][i] != sep,
    ensures
        split(joined(parts, seq![sep]), sep) == parts,
    decreases parts.len(),
{
    if parts.len() == 1 {
        pieces_lie_between_separators(parts[0], sep, seq![]);
        assert(seq![parts[0]] =~= parts);
    } else {
        let init = parts.drop_last();
        joined_pieces_come_apart(init, sep);
        let head = joined(init, seq![sep]);
        pieces_lie_between_separators(head, sep, parts.last());
        pieces_lie_between_separators(parts.last(), sep, seq![]);
        assert(head + seq![sep] + parts.last() =~= head.push(sep) + parts.last());
        assert(init + seq![parts.last()] =~= parts);
    }
}

/// A word is found whole, and the words after it follow: whatever white space
/// stands before and between them.
pub proof fn words_lie_between_white(w: Seq<char>, c: char, rest: Seq<char>)
    requires
        w.len() > 0,
        forall|i: int| 0 <= i < w.len() ==> !white(#[trigger] w[i]),
        white(c),
    ensures
        words(w) == seq![w],
        words(w + seq![c] + rest) == seq![w] + words(rest),
        words(seq![c] + rest) == words(rest),
        words(seq![]).len() == 0,
{
    let s = w + seq![c] + rest;
    lemma_word_len(w, w.len() as int);
    lemma_word_len(s, w.len() as int);
    assert(w.take(w.len() as int) =~= w);
    assert(w.skip(w.len() as int) =~= Seq::<char>::empty());
    assert(!white(w[0]) && s[0] == w[0]);
    assert(words(Seq::<char>::empty()) =~= Seq::<Seq<char>>::empty());
    assert(words(w) == seq![w] + words(w.skip(w.len() as int)));
    assert(seq![w] + Seq::<Seq<char>>::empty() =~= seq![w]);
    assert(s.take(w.len() as int) =~= w);
    let tail = s.skip(w.len() as int);
    assert(tail[0] == c);
    assert(tail.drop_first() =~= rest);
    assert(words(tail) == words(rest));
    assert(words(s) == seq![w] + words(tail));
    assert((seq![c] + rest).drop_first() =~= rest);
}

/// A line ends at a line feed, which belongs to none, or at the end of the
/// text; a carriage return before the line feed belongs to none either.
pub proof fn lines_end_at_feeds(a: Seq<char>, b: Seq<char>)
    requires
        forall|i: int| 0 <= i < a.len() ==> #[trigger] a[i] != '\n',
        a.len() > 0 ==> a.last() != '\r',
    ensures
        lines(a + seq!['\n'] + b) == seq![a] + lines(b),
        lines(a + seq!['\r', '\n'] + b) == seq![a] + lines(b),
        a.len() > 0 ==> lines(a) == seq![a],
        lines(seq![]).len() == 0,
{
    let s = a + seq!['\n'] + b;
    lemma_find(s, '\n', a.len() as int);
    assert(s.take(a.len() as int) =~= a);
    assert(s.skip((a.len() + 1) as int) =~= b);
    let t = a + seq!['\r', '\n'] + b;
    lemma_find(t, '\n', (a.len() + 1) as int);
    assert(t.take((a.len() + 1) as int) =~= a.push('\r'));
    assert(a.push('\r').drop_last() =~= a);
    assert(t.skip((a.len() + 2) as int) =~= b);
    lemma_find(a, '\n', a.len() as int);
}

/// A pattern that does not stand in a text leaves it as it is; the first that
/// does is replaced, and then those after it.
pub proof fn patterns_are_replaced(
    a: Seq<char>,
    pat: Seq<char>,
    b: Seq<char>,
    with: Seq<char>,
)
    requires
        pat.len() > 0,
        forall|i: int| 0 <= i < a.len() ==> !pat.is_prefix_of(#[trigger] (a + pat + b).skip(i)),
    ensures
        replaced(a + pat + b, pat, with) == a + with + replaced(b, pat, with),
        replaced(b, pat, pat) == b,
        !occurs(b, pat) ==> replaced(b, pat, with) == b,
    decreases a.len() + b.len(),
{
    lemma_replaced_same(b, pat);
    if !occurs(b, pat) {
        lemma_replaced_absent(b, pat, with);
    }
    lemma_replaced_first(a, pat, b, with);
}

proof fn lemma_replaced_first(a: Seq<char>, pat: Seq<char>, b: Seq<char>, with: Seq<char>)
    requires
        pat.len() > 0,
        forall|i: int| 0 <= i < a.len() ==> !pat.is_prefix_of(#[trigger] (a + pat + b).skip(i)),
    ensures
        replaced(a + pat + b, pat, with) == a + with + replaced(b, pat, with),
    decreases a.len(),
{
    let s = a + pat + b;
    if a.len() == 0 {
        assert(pat =~= s.subrange(0, pat.len() as int));
        assert(s.skip(pat.len() as int) =~= b);
        assert(a + with =~= with);
    } else {
        assert(s.skip(0) =~= s);
        assert(!pat.is_prefix_of(s.skip(0)));
        let t = a.drop_first();
        assert(s.drop_first() =~= t + pat + b);
        assert forall|i: int| 0 <= i < t.len() implies !pat.is_prefix_of(
            #[trigger] (t + pat + b).skip(i),
        ) by {
            assert((t + pat + b).skip(i) =~= s.skip(i + 1));
        }
        lemma_replaced_first(t, pat, b, with);
        assert(seq![s[0]] + (t + with + replaced(b, pat, with)) =~= a + with + replaced(
            b,
            pat,
            with,
        ));
    }
}

proof fn lemma_replaced_same(s: Seq<char>, pat: Seq<char>)
    ensures
        replaced(s, pat, pat) == s,
    decreases s.len(),
{
    if s.len() > 0 && pat.len() > 0 {
        if pat.is_prefix_of(s) {
            lemma_replaced_same(s.skip(pat.len() as int), pat);
            assert(pat + s.skip(pat.len() as int) =~= s);
        } else {
            lemma_replaced_same(s.drop_first(), pat);
            assert(seq![s[0]] + s.drop_first() =~= s);
        }
    }
}

proof fn lemma_replaced_absent(s: Seq<char>, pat: Seq<char>, with: Seq<char>)
    requires
        pat.len() > 0,
        !occurs(s, pat),
    ensures
        replaced(s, pat, with) == s,
    decreases s.len(),
{
    if s.len() > 0 {
        assert(s.skip(0) =~= s);
        let t = s.drop_first();
        assert(!occurs(t, pat)) by {
            if occurs(t, pat) {
                let i = choose|i: int| 0 <= i <= t.len() && pat.is_prefix_of(#[trigger] t.skip(i));
                assert(t.skip(i) =~= s.skip(i + 1));
            }
        }
        lemma_replaced_absent(t, pat, with);
        assert(seq![s[0]] + t =~= s);
    }
}

/// A pattern stands in a text exactly where the text is something, the
/// pattern, and something.
pub proof fn patterns_occur(a: Seq<char>, pat: Seq<char>, b: Seq<char>)
    ensures
        occurs(a + pat + b, pat),
        pat.len() > a.len() ==> !occurs(a, pat),
{
    let s = a + pat + b;
    assert(pat =~= s.skip(a.len() as int).subrange(0, pat.len() as int));
    assert(pat.is_prefix_of(s.skip(a.len() as int)));
}

} // verus!
