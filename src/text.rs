//! Character-level text handling shared by the manifest and version parsers.
use vstd::prelude::*;

verus! {

/// The characters of a string slice, in order.
pub fn chars_of(s: &str) -> (r: Vec<char>)
    ensures
        r@ == s@,
{
    let mut v: Vec<char> = Vec::new();
    for c in it: s.chars()
        invariant
            v@ == it.seq().take(it.index() as int),
            it.seq() == s@,
    {
        v.push(c);
    }
    v
}

/// Whether two strings hold the same characters.
pub fn same_text(a: &str, b: &str) -> (r: bool)
    ensures
        r == (a@ == b@),
{
    let x = chars_of(a);
    let y = chars_of(b);
    if x.len() != y.len() {
        return false;
    }
    let mut i: usize = 0;
    while i < x.len()
        invariant
            x@ == a@,
            y@ == b@,
            x@.len() == y@.len(),
            i <= x@.len(),
            forall|j: int| 0 <= j < i ==> x@[j] == y@[j],
        decreases x@.len() - i,
    {
        if x[i] != y[i] {
            assert(x@[i as int] != y@[i as int]);
            return false;
        }
        i += 1;
    }
    assert(x@ =~= y@);
    true
}

/// The pieces of `s` between occurrences of `sep`, in order. A string without
/// `sep` is one piece; the empty string is one empty piece.
pub open spec fn split_on(s: Seq<char>, sep: char) -> Seq<Seq<char>>
    decreases s.len(),
{
    if s.len() == 0 {
        seq![Seq::<char>::empty()]
    } else {
        let prev = split_on(s.drop_last(), sep);
        if s.last() == sep {
            prev.push(Seq::<char>::empty())
        } else {
            prev.update(prev.len() - 1, prev.last().push(s.last()))
        }
    }
}

/// Splitting always yields at least one piece.
pub proof fn lemma_split_nonempty(s: Seq<char>, sep: char)
    ensures
        split_on(s, sep).len() >= 1,
    decreases s.len(),
{
    if s.len() > 0 {
        lemma_split_nonempty(s.drop_last(), sep);
    }
}

/// Bounds, as positions in `t`, of the pieces of `t[lo..hi]` between
/// occurrences of `sep`.
pub fn split_bounds(t: &Vec<char>, lo: usize, hi: usize, sep: char) -> (r: Vec<(usize, usize)>)
    requires
        lo <= hi <= t.len(),
    ensures
        r@.len() == split_on(t@.subrange(lo as int, hi as int), sep).len(),
        forall|k: int|
            0 <= k < r@.len() ==> lo <= #[trigger] r@[k].0 <= r@[k].1 <= hi && t@.subrange(
                r@[k].0 as int,
                r@[k].1 as int,
            ) == split_on(t@.subrange(lo as int, hi as int), sep)[k],
{
    let mut r: Vec<(usize, usize)> = Vec::new();
    let mut start: usize = lo;
    let mut i: usize = lo;
    assert(t@.subrange(lo as int, lo as int) =~= Seq::<char>::empty());
    while i < hi
        invariant
            lo <= start <= i <= hi <= t.len(),
            r@.len() + 1 == split_on(t@.subrange(lo as int, i as int), sep).len(),
            split_on(t@.subrange(lo as int, i as int), sep).last() == t@.subrange(
                start as int,
                i as int,
            ),
            forall|k: int|
                0 <= k < r@.len() ==> lo <= #[trigger] r@[k].0 <= r@[k].1 <= start && t@.subrange(
                    r@[k].0 as int,
                    r@[k].1 as int,
                ) == split_on(t@.subrange(lo as int, i as int), sep)[k],
        decreases hi - i,
    {
        let ghost prev = split_on(t@.subrange(lo as int, i as int), sep);
        proof {
            let s1 = t@.subrange(lo as int, i + 1);
            assert(s1.drop_last() =~= t@.subrange(lo as int, i as int));
            assert(s1.last() == t@[i as int]);
            lemma_split_nonempty(t@.subrange(lo as int, i as int), sep);
        }
        if t[i] == sep {
            r.push((start, i));
            start = i + 1;
            assert(t@.subrange(start as int, start as int) =~= Seq::<char>::empty());
        } else {
            assert(t@.subrange(start as int, i as int).push(t@[i as int]) =~= t@.subrange(
                start as int,
                i + 1,
            ));
        }
        i += 1;
        assert forall|k: int| 0 <= k < r@.len() implies lo <= #[trigger] r@[k].0 <= r@[k].1
            <= start && t@.subrange(r@[k].0 as int, r@[k].1 as int) == split_on(
            t@.subrange(lo as int, i as int),
            sep,
        )[k] by {
            if k < prev.len() - 1 {
            }
        }
    }
    proof {
        lemma_split_nonempty(t@.subrange(lo as int, hi as int), sep);
    }
    r.push((start, hi));
    r
}

/// Unicode white space, as `char::is_whitespace` and `str::trim` take it.
pub open spec fn is_white_space(c: char) -> bool {
    ||| c == ' '
    ||| ('\t' <= c && c <= '\r')
    ||| c == '\u{85}'
    ||| c == '\u{A0}'
    ||| c == '\u{1680}'
    ||| ('\u{2000}' <= c && c <= '\u{200A}')
    ||| c == '\u{2028}'
    ||| c == '\u{2029}'
    ||| c == '\u{202F}'
    ||| c == '\u{205F}'
    ||| c == '\u{3000}'
}

/// The characters that a strip removes: double quotes, or else white space.
pub open spec fn stripped_char(c: char, quotes: bool) -> bool {
    if quotes {
        c == '"'
    } else {
        is_white_space(c)
    }
}

/// `s` without its leading stripped characters.
pub open spec fn strip_start(s: Seq<char>, quotes: bool) -> Seq<char>
    decreases s.len(),
{
    if s.len() > 0 && stripped_char(s[0], quotes) {
        strip_start(s.drop_first(), quotes)
    } else {
        s
    }
}

/// `s` without its trailing stripped characters.
pub open spec fn strip_end(s: Seq<char>, quotes: bool) -> Seq<char>
    decreases s.len(),
{
    if s.len() > 0 && stripped_char(s.last(), quotes) {
        strip_end(s.drop_last(), quotes)
    } else {
        s
    }
}

/// `s` without white space at either end.
pub open spec fn trim(s: Seq<char>) -> Seq<char> {
    strip_end(strip_start(s, false), false)
}

/// `s` without double quotes at either end, however many there are.
pub open spec fn trim_quotes(s: Seq<char>) -> Seq<char> {
    strip_end(strip_start(s, true), true)
}

fn is_stripped_char(c: char, quotes: bool) -> (r: bool)
    ensures
        r == stripped_char(c, quotes),
{
    if quotes {
        c == '"'
    } else {
        c == ' ' || ('\t' <= c && c <= '\r') || c == '\u{85}' || c == '\u{A0}' || c == '\u{1680}'
            || ('\u{2000}' <= c && c <= '\u{200A}') || c == '\u{2028}' || c == '\u{2029}' || c
            == '\u{202F}' || c == '\u{205F}' || c == '\u{3000}'
    }
}

/// Bounds in `t` of `t[lo..hi]` with the stripped characters removed from both ends.
pub fn strip_bounds(t: &Vec<char>, lo: usize, hi: usize, quotes: bool) -> (r: (usize, usize))
    requires
        lo <= hi <= t.len(),
    ensures
        lo <= r.0 <= r.1 <= hi,
        t@.subrange(r.0 as int, r.1 as int) == strip_end(
            strip_start(t@.subrange(lo as int, hi as int), quotes),
            quotes,
        ),
{
    let mut a: usize = lo;
    while a < hi && is_stripped_char(t[a], quotes)
        invariant
            lo <= a <= hi <= t.len(),
            strip_start(t@.subrange(lo as int, hi as int), quotes) == strip_start(
                t@.subrange(a as int, hi as int),
                quotes,
            ),
        decreases hi - a,
    {
        assert(t@.subrange(a as int, hi as int).drop_first() =~= t@.subrange(a + 1, hi as int));
        a += 1;
    }
    let mut b: usize = hi;
    while b > a && is_stripped_char(t[b - 1], quotes)
        invariant
            lo <= a <= b <= hi <= t.len(),
            strip_end(t@.subrange(a as int, hi as int), quotes) == strip_end(
                t@.subrange(a as int, b as int),
                quotes,
            ),
        decreases b - a,
    {
        assert(t@.subrange(a as int, b as int).drop_last() =~= t@.subrange(a as int, b - 1));
        b -= 1;
    }
    (a, b)
}

/// Whether `c` is an ASCII decimal digit.
pub open spec fn is_digit(c: char) -> bool {
    '0' <= c && c <= '9'
}

/// The value of the decimal digit `c`.
pub open spec fn digit_value(c: char) -> int {
    c as int - '0' as int
}

/// The value of a string of decimal digits, most significant first.
pub open spec fn digits_value(s: Seq<char>) -> int
    decreases s.len(),
{
    if s.len() == 0 {
        0
    } else {
        digits_value(s.drop_last()) * 10 + digit_value(s.last())
    }
}

/// The digits of an unsigned number's text, after an optional leading `+`.
pub open spec fn unsigned_digits(s: Seq<char>) -> Seq<char> {
    if s.len() > 0 && s[0] == '+' {
        s.drop_first()
    } else {
        s
    }
}

/// Whether `s` is the text of a `u64` as `str::parse` reads one: an optional
/// `+`, then one or more decimal digits whose value fits in 64 bits.
pub open spec fn is_u64_text(s: Seq<char>) -> bool {
    &&& unsigned_digits(s).len() > 0
    &&& all_digits(unsigned_digits(s))
    &&& digits_value(unsigned_digits(s)) <= u64::MAX
}

/// Whether every character of `s` is a decimal digit.
pub open spec fn all_digits(s: Seq<char>) -> bool {
    forall|i: int| 0 <= i < s.len() ==> is_digit(#[trigger] s[i])
}

/// The `u64` that `s` is the text of, when it is one.
pub open spec fn u64_of(s: Seq<char>) -> Option<u64> {
    if is_u64_text(s) {
        Some(digits_value(unsigned_digits(s)) as u64)
    } else {
        None
    }
}

/// A string of digits is worth at least as much as any of its prefixes.
pub proof fn lemma_digits_prefix(s: Seq<char>, k: int)
    requires
        0 <= k <= s.len(),
        forall|i: int| 0 <= i < s.len() ==> is_digit(#[trigger] s[i]),
    ensures
        0 <= digits_value(s.take(k)) <= digits_value(s),
    decreases s.len(),
{
    if s.len() > 0 {
        let p = s.drop_last();
        assert forall|i: int| 0 <= i < p.len() implies is_digit(#[trigger] p[i]) by {
            assert(p[i] == s[i]);
        }
        if k < s.len() {
            lemma_digits_prefix(p, k);
            assert(p.take(k) =~= s.take(k));
        } else {
            lemma_digits_prefix(p, p.len() as int);
            assert(p.take(p.len() as int) =~= p);
            assert(s.take(k) =~= s);
        }
    } else {
        assert(s.take(k) =~= s);
    }
}

/// Reads `t[lo..hi]` as a `u64`, as `str::parse::<u64>` does.
pub fn parse_u64(t: &Vec<char>, lo: usize, hi: usize) -> (r: Option<u64>)
    requires
        lo <= hi <= t.len(),
    ensures
        r == u64_of(t@.subrange(lo as int, hi as int)),
{
    let ghost s = t@.subrange(lo as int, hi as int);
    let start: usize = if lo < hi && t[lo] == '+' {
        lo + 1
    } else {
        lo
    };
    let ghost d = unsigned_digits(s);
    assert(d =~= t@.subrange(start as int, hi as int));
    if start == hi {
        return None;
    }
    let mut value: u64 = 0;
    let mut i: usize = start;
    assert(d.take(0) =~= Seq::<char>::empty());
    while i < hi
        invariant
            lo <= start <= i <= hi <= t.len(),
            d == t@.subrange(start as int, hi as int),
            d == unsigned_digits(s),
            s == t@.subrange(lo as int, hi as int),
            forall|j: int| 0 <= j < i - start ==> is_digit(#[trigger] d[j]),
            value == digits_value(d.take(i - start)),
        decreases hi - i,
    {
        let c = t[i];
        assert(c == d[i - start]);
        if !('0' <= c && c <= '9') {
            assert(!is_digit(d[i - start]));
            assert(!all_digits(d));
            return None;
        }
        let ghost k = i - start + 1;
        assert(d.take(k).drop_last() =~= d.take(i - start));
        assert(d.take(k).last() == c);
        let dv = (c as u32 - '0' as u32) as u64;
        assert(dv == digit_value(c));
        if value > (u64::MAX - dv) / 10 {
            proof {
                assert(digits_value(d.take(k)) > u64::MAX) by (nonlinear_arith)
                    requires
                        value > (u64::MAX - dv) / 10,
                        digits_value(d.take(k)) == value * 10 + dv,
                        dv <= 9,
                ;
                if is_u64_text(s) {
                    lemma_digits_prefix(d, k);
                }
            }
            return None;
        }
        assert(value * 10 + dv <= u64::MAX) by (nonlinear_arith)
            requires
                value <= (u64::MAX - dv) / 10,
                dv <= 9,
        ;
        value = value * 10 + dv;
        i += 1;
    }
    assert(d.take(hi - start) =~= d);
    Some(value)
}

/// Whether `t[lo..hi]` begins with the characters of `p`.
pub fn has_prefix(t: &Vec<char>, lo: usize, hi: usize, p: &Vec<char>) -> (r: bool)
    requires
        lo <= hi <= t.len(),
    ensures
        r == (p@.len() <= hi - lo && t@.subrange(lo as int, lo + p@.len()) == p@),
{
    if p.len() > hi - lo {
        return false;
    }
    let mut i: usize = 0;
    while i < p.len()
        invariant
            p@.len() <= hi - lo,
            lo <= hi <= t.len(),
            0 <= i <= p@.len(),
            forall|j: int| 0 <= j < i ==> t@[lo + j] == p@[j],
        decreases p@.len() - i,
    {
        if t[lo + i] != p[i] {
            assert(t@.subrange(lo as int, lo + p@.len())[i as int] != p@[i as int]);
            return false;
        }
        i += 1;
    }
    assert(t@.subrange(lo as int, lo + p@.len()) =~= p@);
    true
}

} // verus!
