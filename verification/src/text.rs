//! Text as the rest of the library reads it: a string is its sequence of
//! characters, and every operation is stated on that sequence.

use vstd::prelude::*;
use vstd::string::*;
use vstd::utf8::*;

verus! {

/// `String::push` appends one character at the end of the string.
pub assume_specification[ String::push ](s: &mut String, c: char)
    ensures
        final(s)@ == old(s)@.push(c),
;

/// The views of a sequence of strings.
pub open spec fn texts(v: Seq<String>) -> Seq<Seq<char>> {
    v.map_values(|s: String| s@)
}

/// The Unicode `White_Space` property.
pub open spec fn is_white(c: char) -> bool {
    ||| '\u{9}' <= c <= '\u{d}'
    ||| c == ' '
    ||| c == '\u{85}'
    ||| c == '\u{a0}'
    ||| c == '\u{1680}'
    ||| '\u{2000}' <= c <= '\u{200a}'
    ||| c == '\u{2028}'
    ||| c == '\u{2029}'
    ||| c == '\u{202f}'
    ||| c == '\u{205f}'
    ||| c == '\u{3000}'
}

/// An ASCII decimal digit.
pub open spec fn is_digit(c: char) -> bool {
    '0' <= c <= '9'
}

/// `s` without its leading whitespace.
pub open spec fn trimmed_start(s: Seq<char>) -> Seq<char>
    decreases s.len(),
{
    if s.len() > 0 && is_white(s[0]) {
        trimmed_start(s.drop_first())
    } else {
        s
    }
}

/// `s` without its trailing whitespace.
pub open spec fn trimmed_end(s: Seq<char>) -> Seq<char>
    decreases s.len(),
{
    if s.len() > 0 && is_white(s.last()) {
        trimmed_end(s.drop_last())
    } else {
        s
    }
}

/// `s` without the whitespace at both ends.
pub open spec fn trimmed(s: Seq<char>) -> Seq<char> {
    trimmed_end(trimmed_start(s))
}

/// `s` without every leading `c`.
pub open spec fn without_leading(s: Seq<char>, c: char) -> Seq<char>
    decreases s.len(),
{
    if s.len() > 0 && s[0] == c {
        without_leading(s.drop_first(), c)
    } else {
        s
    }
}

/// `s` without every trailing `c`.
pub open spec fn without_trailing(s: Seq<char>, c: char) -> Seq<char>
    decreases s.len(),
{
    if s.len() > 0 && s.last() == c {
        without_trailing(s.drop_last(), c)
    } else {
        s
    }
}

/// Whether `s` begins with `prefix`.
pub open spec fn begins(s: Seq<char>, prefix: Seq<char>) -> bool {
    &&& prefix.len() <= s.len()
    &&& s.take(prefix.len() as int) == prefix
}

/// Whether `s` ends with `suffix`.
pub open spec fn ends(s: Seq<char>, suffix: Seq<char>) -> bool {
    &&& suffix.len() <= s.len()
    &&& s.skip(s.len() - suffix.len()) == suffix
}

/// The position of the first `c` in `s`, or the length of `s`.
pub open spec fn first_at(s: Seq<char>, c: char) -> int
    decreases s.len(),
{
    if s.len() == 0 || s[0] == c {
        0
    } else {
        1 + first_at(s.drop_first(), c)
    }
}

/// The part of `s` in front of the first occurrence of `mark`; all of `s`
/// where `mark` does not occur.
pub open spec fn before(s: Seq<char>, mark: Seq<char>) -> Seq<char>
    decreases s.len(),
{
    if begins(s, mark) || s.len() == 0 {
        Seq::empty()
    } else {
        seq![s[0]] + before(s.drop_first(), mark)
    }
}

/// The last piece of `s` when it is cut at every `c`.
pub open spec fn last_piece(s: Seq<char>, c: char) -> Seq<char>
    decreases s.len(),
{
    if s.len() == 0 || s.last() == c {
        Seq::empty()
    } else {
        last_piece(s.drop_last(), c).push(s.last())
    }
}

/// The pieces of `s` cut at every `c`; there is always at least one.
pub open spec fn pieces(s: Seq<char>, c: char) -> Seq<Seq<char>>
    decreases s.len(),
    via pieces_decreases
{
    let n = first_at(s, c);
    if n >= s.len() {
        seq![s]
    } else {
        seq![s.take(n)] + pieces(s.skip(n + 1), c)
    }
}

#[via_fn]
proof fn pieces_decreases(s: Seq<char>, c: char) {
    lemma_first_at(s, c);
}

/// A line without the carriage return in front of its line feed.
pub open spec fn without_cr(line: Seq<char>) -> Seq<char> {
    if line.len() > 0 && line.last() == '\r' {
        line.drop_last()
    } else {
        line
    }
}

/// The lines of `s`. A line ends at a line feed, which takes one carriage
/// return in front of it along; the last line may lack its ending.
pub open spec fn lines(s: Seq<char>) -> Seq<Seq<char>>
    decreases s.len(),
    via lines_decreases
{
    let n = first_at(s, '\n');
    if s.len() == 0 {
        Seq::empty()
    } else if n >= s.len() {
        seq![s]
    } else {
        seq![without_cr(s.take(n))] + lines(s.skip(n + 1))
    }
}

#[via_fn]
proof fn lines_decreases(s: Seq<char>) {
    lemma_first_at(s, '\n');
}

/// The value of a sequence of digits read in base ten.
pub open spec fn decimal(s: Seq<char>) -> int
    decreases s.len(),
{
    if s.len() == 0 {
        0
    } else {
        decimal(s.drop_last()) * 10 + (s.last() as int - '0' as int)
    }
}

/// The digits of a number text: all of it, or what follows one plus sign.
pub open spec fn number_digits(s: Seq<char>) -> Seq<char> {
    if s.len() > 0 && s[0] == '+' {
        s.drop_first()
    } else {
        s
    }
}

/// Whether `s` reads as a number that fits in 64 bits: an optional plus sign,
/// then one or more digits.
pub open spec fn is_number(s: Seq<char>) -> bool {
    let d = number_digits(s);
    &&& d.len() > 0
    &&& forall|i: int| 0 <= i < d.len() ==> is_digit(#[trigger] d[i])
    &&& decimal(d) <= u64::MAX
}

/// The number that `s` reads as, or 0 where it reads as none.
pub open spec fn number_or_zero(s: Seq<char>) -> int {
    if is_number(s) {
        decimal(number_digits(s))
    } else {
        0
    }
}

pub proof fn lemma_first_at(s: Seq<char>, c: char)
    ensures
        0 <= first_at(s, c) <= s.len(),
        first_at(s, c) < s.len() ==> s[first_at(s, c)] == c,
        forall|i: int| 0 <= i < first_at(s, c) ==> s[i] != c,
    decreases s.len(),
{
    if s.len() > 0 && s[0] != c {
        let t = s.drop_first();
        lemma_first_at(t, c);
        assert forall|i: int| 0 <= i < first_at(s, c) implies s[i] != c by {
            if i > 0 {
                assert(s[i] == t[i - 1]);
            }
        }
    }
}

pub proof fn lemma_first_at_is(s: Seq<char>, c: char, n: int)
    requires
        0 <= n <= s.len(),
        forall|i: int| 0 <= i < n ==> s[i] != c,
        n < s.len() ==> s[n] == c,
    ensures
        first_at(s, c) == n,
{
    lemma_first_at(s, c);
    let m = first_at(s, c);
    if m < n {
        assert(s[m] != c);
    }
    if n < m {
        assert(s[n] != c);
    }
}

/// The last piece is no longer than the text, and a separator stands in front
/// of it where it is shorter.
pub proof fn lemma_last_piece(s: Seq<char>, c: char)
    ensures
        last_piece(s, c).len() <= s.len(),
        last_piece(s, c).len() < s.len() ==> s[s.len() - last_piece(s, c).len() - 1] == c,
        last_piece(s, c) == s.skip(s.len() - last_piece(s, c).len()),
        !last_piece(s, c).contains(c),
    decreases s.len(),
{
    if s.len() > 0 && s.last() != c {
        lemma_last_piece(s.drop_last(), c);
        let head = last_piece(s.drop_last(), c);
        let l = last_piece(s, c);
        assert(l == s.skip(s.len() - l.len())) by {
            assert(head.push(s.last()) == s.skip(s.len() - head.len() - 1));
        }
        assert(!l.contains(c)) by {
            if l.contains(c) {
                let k = choose|k: int| 0 <= k < l.len() && l[k] == c;
                if k < head.len() {
                    assert(head[k] == c);
                }
            }
        }
    } else {
        assert(s.skip(s.len() as int) == Seq::<char>::empty());
    }
}

proof fn lemma_trimmed_start_front(s: Seq<char>)
    ensures
        trimmed_start(s).len() <= s.len(),
        trimmed_start(s).len() > 0 ==> !is_white(trimmed_start(s)[0]),
        trimmed_start(s).len() > 0 ==> trimmed_start(s).last() == s.last(),
    decreases s.len(),
{
    if s.len() > 0 && is_white(s[0]) {
        lemma_trimmed_start_front(s.drop_first());
    }
}

proof fn lemma_trimmed_end_back(s: Seq<char>)
    ensures
        trimmed_end(s).len() <= s.len(),
        trimmed_end(s).len() > 0 ==> !is_white(trimmed_end(s).last()),
        trimmed_end(s).len() > 0 ==> trimmed_end(s)[0] == s[0],
    decreases s.len(),
{
    if s.len() > 0 && is_white(s.last()) {
        lemma_trimmed_end_back(s.drop_last());
    }
}

/// Trimmed text neither starts nor ends with whitespace.
pub proof fn lemma_trimmed_ends(s: Seq<char>)
    ensures
        trimmed(s).len() <= s.len(),
        trimmed(s).len() > 0 ==> !is_white(trimmed(s)[0]) && !is_white(trimmed(s).last()),
{
    lemma_trimmed_start_front(s);
    lemma_trimmed_end_back(trimmed_start(s));
}

/// Text that neither starts nor ends with whitespace is already trimmed.
pub proof fn lemma_trimmed_is_self(s: Seq<char>)
    requires
        s.len() > 0 ==> !is_white(s[0]) && !is_white(s.last()),
    ensures
        trimmed(s) == s,
{
}

/// The characters of `s`.
pub fn chars(s: &str) -> (v: Vec<char>)
    ensures
        v@ == s@,
{
    let mut v: Vec<char> = Vec::new();
    for c in it: s.chars()
        invariant
            v@ == s@.take(it.index()),
            it.seq() == s@,
    {
        v.push(c);
    }
    v
}

/// The characters from `lo` up to `hi`, as a string.
pub fn slice(v: &Vec<char>, lo: usize, hi: usize) -> (r: String)
    requires
        lo <= hi <= v@.len(),
    ensures
        r@ == v@.subrange(lo as int, hi as int),
{
    let mut r = String::new();
    let mut i: usize = lo;
    while i < hi
        invariant
            lo <= i <= hi <= v@.len(),
            r@ == v@.subrange(lo as int, i as int),
        decreases hi - i,
    {
        r.push(v[i]);
        i = i + 1;
    }
    r
}

/// Whether two texts hold the same characters.
pub fn same(a: &str, b: &str) -> (r: bool)
    ensures
        r == (a@ == b@),
{
    let u = chars(a);
    let v = chars(b);
    same_chars(&u, &v)
}

/// Whether two vectors hold the same characters.
pub fn same_chars(u: &Vec<char>, v: &Vec<char>) -> (r: bool)
    ensures
        r == (u@ == v@),
{
    if u.len() != v.len() {
        return false;
    }
    let mut i: usize = 0;
    while i < u.len()
        invariant
            0 <= i <= u@.len() == v@.len(),
            u@.take(i as int) == v@.take(i as int),
        decreases u@.len() - i,
    {
        if u[i] != v[i] {
            assert(u@[i as int] != v@[i as int]);
            return false;
        }
        assert(u@.take(i + 1) == u@.take(i as int).push(u@[i as int]));
        assert(v@.take(i + 1) == v@.take(i as int).push(v@[i as int]));
        i = i + 1;
    }
    assert(u@.take(u@.len() as int) == u@);
    assert(v@.take(v@.len() as int) == v@);
    true
}

/// Whether the character is whitespace.
pub fn white(c: char) -> (r: bool)
    ensures
        r == is_white(c),
{
    ('\u{9}' <= c && c <= '\u{d}') || c == ' ' || c == '\u{85}' || c == '\u{a0}' || c == '\u{1680}'
        || ('\u{2000}' <= c && c <= '\u{200a}') || c == '\u{2028}' || c == '\u{2029}' || c
        == '\u{202f}' || c == '\u{205f}' || c == '\u{3000}'
}

/// Whether the character is an ASCII digit.
pub fn digit(c: char) -> (r: bool)
    ensures
        r == is_digit(c),
{
    '0' <= c && c <= '9'
}

/// How many characters the whitespace at the front of `v` takes.
fn white_front(v: &Vec<char>) -> (n: usize)
    ensures
        n <= v@.len(),
        trimmed_start(v@) == v@.skip(n as int),
{
    let mut n: usize = 0;
    assert(v@.skip(0) == v@);
    while n < v.len() && white(v[n])
        invariant
            n <= v@.len(),
            trimmed_start(v@) == trimmed_start(v@.skip(n as int)),
        decreases v@.len() - n,
    {
        assert(v@.skip(n as int).drop_first() == v@.skip(n + 1));
        n = n + 1;
    }
    n
}

/// Where the whitespace at the end of `v`, read from `lo` on, starts.
fn white_back(v: &Vec<char>, lo: usize) -> (n: usize)
    requires
        lo <= v@.len(),
    ensures
        lo <= n <= v@.len(),
        trimmed_end(v@.skip(lo as int)) == v@.subrange(lo as int, n as int),
{
    let mut n: usize = v.len();
    assert(v@.skip(lo as int) == v@.subrange(lo as int, n as int));
    while n > lo && white(v[n - 1])
        invariant
            lo <= n <= v@.len(),
            trimmed_end(v@.skip(lo as int)) == trimmed_end(v@.subrange(lo as int, n as int)),
        decreases n - lo,
    {
        assert(v@.subrange(lo as int, n as int).drop_last() == v@.subrange(lo as int, n - 1));
        n = n - 1;
    }
    n
}

/// The text without the whitespace at both ends.
pub fn trim(s: &str) -> (r: String)
    ensures
        r@ == trimmed(s@),
{
    let v = chars(s);
    let lo = white_front(&v);
    let hi = white_back(&v, lo);
    slice(&v, lo, hi)
}

/// The text without its leading whitespace.
pub fn trim_start(s: &str) -> (r: String)
    ensures
        r@ == trimmed_start(s@),
{
    let v = chars(s);
    let lo = white_front(&v);
    assert(v@.skip(lo as int) == v@.subrange(lo as int, v@.len() as int));
    slice(&v, lo, v.len())
}

/// Whether the text begins with `prefix`.
pub fn starts_with(s: &str, prefix: &str) -> (r: bool)
    ensures
        r == begins(s@, prefix@),
{
    let v = chars(s);
    let p = chars(prefix);
    assert(v@.skip(0) == v@);
    begins_at(&v, 0, &p)
}

/// Whether `p` stands in `v` at position `at`.
fn begins_at(v: &Vec<char>, at: usize, p: &Vec<char>) -> (r: bool)
    requires
        at <= v@.len(),
    ensures
        r == begins(v@.skip(at as int), p@),
{
    let ghost rest = v@.skip(at as int);
    if v.len() - at < p.len() {
        return false;
    }
    let mut i: usize = 0;
    while i < p.len()
        invariant
            i <= p@.len(),
            at <= v@.len(),
            p@.len() <= v.len() - at,
            rest == v@.skip(at as int),
            forall|j: int| 0 <= j < i ==> rest[j] == p@[j],
        decreases p@.len() - i,
    {
        if v[at + i] != p[i] {
            assert(rest[i as int] != p@[i as int]);
            assert(rest.take(p@.len() as int)[i as int] != p@[i as int]);
            return false;
        }
        assert(rest[i as int] == p@[i as int]);
        i = i + 1;
    }
    assert(rest.take(p@.len() as int) == p@);
    true
}

/// What follows `prefix` in the text, where the text begins with it.
pub fn strip_prefix(s: &str, prefix: &str) -> (r: Option<String>)
    ensures
        r is Some <==> begins(s@, prefix@),
        r matches Some(t) ==> t@ == s@.skip(prefix@.len() as int),
{
    let v = chars(s);
    let p = chars(prefix);
    assert(v@.skip(0) == v@);
    if begins_at(&v, 0, &p) {
        assert(v@.skip(p@.len() as int) == v@.subrange(p@.len() as int, v@.len() as int));
        Some(slice(&v, p.len(), v.len()))
    } else {
        None
    }
}

/// Whether the text ends with `suffix`.
pub fn ends_with(s: &str, suffix: &str) -> (r: bool)
    ensures
        r == ends(s@, suffix@),
{
    let v = chars(s);
    let p = chars(suffix);
    if p.len() > v.len() {
        return false;
    }
    let at = v.len() - p.len();
    let r = begins_at(&v, at, &p);
    assert(v@.skip(at as int).take(p@.len() as int) == v@.skip(at as int));
    r
}

/// Whether the character occurs in the text.
pub fn has_char(s: &str, c: char) -> (r: bool)
    ensures
        r == s@.contains(c),
{
    let v = chars(s);
    let mut i: usize = 0;
    while i < v.len()
        invariant
            i <= v@.len(),
            v@ == s@,
            forall|j: int| 0 <= j < i ==> v@[j] != c,
        decreases v@.len() - i,
    {
        if v[i] == c {
            return true;
        }
        i = i + 1;
    }
    false
}

/// The part of the text in front of the first `mark`.
pub fn cut_before(s: &str, mark: &str) -> (r: String)
    ensures
        r@ == before(s@, mark@),
{
    let v = chars(s);
    let p = chars(mark);
    let mut n: usize = 0;
    assert(v@.skip(0) == v@);
    assert(v@.take(0) == Seq::<char>::empty());
    loop
        invariant
            n <= v@.len(),
            before(v@, p@) == v@.take(n as int) + before(v@.skip(n as int), p@),
        ensures
            n <= v@.len(),
            before(v@, p@) == v@.take(n as int),
        decreases v@.len() - n,
    {
        if n >= v.len() || begins_at(&v, n, &p) {
            assert(before(v@.skip(n as int), p@) == Seq::<char>::empty());
            break;
        }
        let ghost rest = v@.skip(n as int);
        assert(rest.drop_first() == v@.skip(n + 1));
        assert(v@.take(n as int) + (seq![rest[0]] + before(rest.drop_first(), p@)) == v@.take(n + 1)
            + before(rest.drop_first(), p@));
        n = n + 1;
    }
    assert(v@.take(n as int) == v@.subrange(0, n as int));
    slice(&v, 0, n)
}

/// The last piece of the text when it is cut at every `c`.
pub fn last_of(s: &str, c: char) -> (r: String)
    ensures
        r@ == last_piece(s@, c),
{
    let v = chars(s);
    let mut n: usize = v.len();
    assert(v@.take(n as int) == v@);
    assert(v@.skip(n as int) == Seq::<char>::empty());
    while n > 0 && v[n - 1] != c
        invariant
            n <= v@.len(),
            last_piece(v@, c) == last_piece(v@.take(n as int), c) + v@.skip(n as int),
        decreases n,
    {
        let ghost head = v@.take(n as int);
        assert(head.drop_last() == v@.take(n - 1));
        assert(last_piece(head.drop_last(), c).push(head.last()) + v@.skip(n as int) == last_piece(
            v@.take(n - 1),
            c,
        ) + v@.skip(n - 1));
        n = n - 1;
    }
    assert(v@.skip(n as int) == v@.subrange(n as int, v@.len() as int));
    slice(&v, n, v.len())
}

/// The text without every leading and, of the rest, every trailing `c`.
pub fn strip_both(s: &str, c: char) -> (r: String)
    ensures
        r@ == without_trailing(without_leading(s@, c), c),
{
    let v = chars(s);
    let mut lo: usize = 0;
    assert(v@.skip(0) == v@);
    while lo < v.len() && v[lo] == c
        invariant
            lo <= v@.len(),
            without_leading(v@, c) == without_leading(v@.skip(lo as int), c),
        decreases v@.len() - lo,
    {
        assert(v@.skip(lo as int).drop_first() == v@.skip(lo + 1));
        lo = lo + 1;
    }
    let mut hi: usize = v.len();
    let ghost rest = v@.skip(lo as int);
    assert(rest == v@.subrange(lo as int, hi as int));
    while hi > lo && v[hi - 1] == c
        invariant
            lo <= hi <= v@.len(),
            without_trailing(rest, c) == without_trailing(v@.subrange(lo as int, hi as int), c),
        decreases hi - lo,
    {
        assert(v@.subrange(lo as int, hi as int).drop_last() == v@.subrange(lo as int, hi - 1));
        hi = hi - 1;
    }
    slice(&v, lo, hi)
}

/// The position of the first `c` at or after `from`, or the length.
fn seek(v: &Vec<char>, from: usize, c: char) -> (n: usize)
    requires
        from <= v@.len(),
    ensures
        from <= n <= v@.len(),
        n - from == first_at(v@.skip(from as int), c),
{
    let mut n: usize = from;
    while n < v.len() && v[n] != c
        invariant
            from <= n <= v@.len(),
            forall|j: int| from <= j < n ==> v@[j] != c,
        decreases v@.len() - n,
    {
        n = n + 1;
    }
    proof {
        lemma_first_at_is(v@.skip(from as int), c, n - from);
    }
    n
}

/// The pieces of the text cut at every `c`.
pub fn split(s: &str, c: char) -> (r: Vec<String>)
    ensures
        texts(r@) == pieces(s@, c),
{
    let v = chars(s);
    let mut out: Vec<String> = Vec::new();
    let mut from: usize = 0;
    assert(v@.skip(0) == v@);
    assert(texts(out@) == Seq::<Seq<char>>::empty());
    loop
        invariant_except_break
            from <= v@.len(),
            pieces(v@, c) == texts(out@) + pieces(v@.skip(from as int), c),
        ensures
            pieces(v@, c) == texts(out@),
        decreases v@.len() - from,
    {
        let n = seek(&v, from, c);
        let piece = slice(&v, from, n);
        let ghost rest = v@.skip(from as int);
        let ghost done = out@;
        out.push(piece);
        assert(texts(out@) == texts(done).push(piece@));
        if n >= v.len() {
            assert(piece@ == rest);
            break;
        }
        assert(piece@ == rest.take(n - from));
        assert(rest.skip(n - from + 1) == v@.skip(n + 1));
        assert(texts(done) + (seq![piece@] + pieces(v@.skip(n + 1), c)) == texts(out@) + pieces(
            v@.skip(n + 1),
            c,
        ));
        from = n + 1;
    }
    out
}

/// The lines of the text.
pub fn split_lines(s: &str) -> (r: Vec<String>)
    ensures
        texts(r@) == lines(s@),
{
    let v = chars(s);
    let mut out: Vec<String> = Vec::new();
    let mut from: usize = 0;
    assert(v@.skip(0) == v@);
    assert(texts(out@) == Seq::<Seq<char>>::empty());
    while from < v.len()
        invariant
            from <= v@.len(),
            lines(v@) == texts(out@) + lines(v@.skip(from as int)),
        decreases v@.len() - from,
    {
        let n = seek(&v, from, '\n');
        let ghost rest = v@.skip(from as int);
        let ghost done = out@;
        if n >= v.len() {
            let line = slice(&v, from, n);
            assert(line@ == rest);
            out.push(line);
            assert(texts(out@) == texts(done).push(line@));
            assert(v@.skip(n as int) == Seq::<char>::empty());
            from = n;
        } else {
            let hi = if n > from && v[n - 1] == '\r' {
                n - 1
            } else {
                n
            };
            let line = slice(&v, from, hi);
            assert(line@ == without_cr(rest.take(n - from)));
            out.push(line);
            assert(texts(out@) == texts(done).push(line@));
            assert(rest.skip(n - from + 1) == v@.skip(n + 1));
            assert(texts(done) + (seq![line@] + lines(v@.skip(n + 1))) == texts(out@) + lines(
                v@.skip(n + 1),
            ));
            from = n + 1;
        }
    }
    assert(v@.skip(from as int) == Seq::<char>::empty());
    out
}

/// The number that the text reads as, or 0 where it reads as none.
pub fn parse_or_zero(s: &str) -> (r: u64)
    ensures
        r == number_or_zero(s@),
{
    let v = chars(s);
    let from: usize = if v.len() > 0 && v[0] == '+' {
        1
    } else {
        0
    };
    let ghost d = number_digits(v@);
    assert(d == v@.skip(from as int));
    if v.len() == from {
        return 0;
    }
    let mut i: usize = from;
    let mut acc: u64 = 0;
    while i < v.len()
        invariant
            from <= i <= v@.len(),
            d == v@.skip(from as int),
            d == number_digits(s@),
            forall|j: int| 0 <= j < i - from ==> is_digit(#[trigger] d[j]),
            acc == decimal(d.take(i - from)),
        decreases v@.len() - i,
    {
        let c = v[i];
        assert(d[i - from] == c);
        if !digit(c) {
            return 0;
        }
        let ghost upto = d.take(i - from + 1);
        assert(upto.drop_last() == d.take(i - from));
        let wide: u128 = (acc as u128) * 10 + (c as u32 - '0' as u32) as u128;
        if wide > u64::MAX as u128 {
            proof {
                if is_number(s@) {
                    assert forall|j: int| 0 <= j < d.len() implies is_digit(#[trigger] d[j]) by {}
                    lemma_decimal_monotone(d, i - from + 1);
                }
            }
            return 0;
        }
        acc = wide as u64;
        i = i + 1;
    }
    assert(d.take(d.len() as int) == d);
    acc
}

/// Whether `s` is the number `n` written in base ten.
pub open spec fn writes_number(s: Seq<char>, n: int) -> bool {
    &&& s.len() > 0
    &&& forall|i: int| 0 <= i < s.len() ==> is_digit(#[trigger] s[i])
    &&& s.len() > 1 ==> s[0] != '0'
    &&& decimal(s) == n
}

/// The decimal numeral of a number below ten.
pub open spec fn numeral(d: nat) -> char {
    "0123456789"@[d as int]
}

/// A number written in base ten.
pub open spec fn base_ten(n: nat) -> Seq<char>
    decreases n,
{
    if n < 10 {
        seq![numeral(n)]
    } else {
        base_ten(n / 10).push(numeral(n % 10))
    }
}

/// Numerals are the digits from `0` on.
pub proof fn lemma_numeral(d: nat)
    requires
        d < 10,
    ensures
        is_digit(numeral(d)),
        numeral(d) as int == '0' as int + d,
{
    reveal_strlit("0123456789");
}

/// The number in base ten.
pub fn number_text(n: usize) -> (r: String)
    ensures
        writes_number(r@, n as int),
        r@ == base_ten(n as nat),
    decreases n,
{
    let low: u8 = (n % 10) as u8;
    let c = (48 + low) as char;
    proof {
        lemma_numeral((n % 10) as nat);
    }
    assert(decimal(Seq::<char>::empty()) == 0);
    if n < 10 {
        let mut r = String::new();
        r.push(c);
        assert(r@.drop_last() == Seq::<char>::empty());
        r
    } else {
        let mut r = number_text(n / 10);
        let ghost head = r@;
        r.push(c);
        proof {
            assert(r@.drop_last() == head);
            if head.len() == 1 && head[0] == '0' {
                assert(head.drop_last() == Seq::<char>::empty());
                assert(decimal(head) == 0);
            }
        }
        r
    }
}

/// The text of the first `n` bytes of `s`.
pub open spec fn byte_prefix(s: Seq<char>, n: int) -> Seq<char> {
    decode_utf8(encode_utf8(s).subrange(0, n))
}

/// Whether the first `n` bytes of `s` are there and hold whole characters.
pub open spec fn splits_at(s: Seq<char>, n: int) -> bool {
    is_char_boundary(encode_utf8(s), n)
}

/// The first `n` bytes of the text.
pub fn take_bytes(s: &str, n: usize) -> (r: String)
    requires
        splits_at(s@, n as int),
    ensures
        r@ == byte_prefix(s@, n as int),
{
    let (head, _tail) = s.split_at(n);
    proof {
        encode_utf8_decode_utf8(head@);
    }
    head.to_owned()
}

/// Of ASCII text the first `n` bytes are the first `n` characters.
pub proof fn lemma_ascii_byte_prefix(s: Seq<char>, n: int)
    requires
        is_ascii_chars(s),
        0 <= n <= s.len(),
    ensures
        splits_at(s, n),
        byte_prefix(s, n) == s.take(n),
{
    is_ascii_chars_encode_utf8(s);
    let head = s.take(n);
    let tail = s.skip(n);
    assert(s == head + tail);
    is_ascii_chars_encode_utf8(head);
    assert(encode_utf8(s).subrange(0, n) == encode_utf8(head));
    encode_utf8_decode_utf8(head);
    encode_utf8_valid_utf8(s);
    if n < s.len() {
        is_char_boundary_iff_is_leading_byte(encode_utf8(s), n);
    } else {
        is_char_boundary_start_end_of_seq(encode_utf8(s));
    }
}

proof fn lemma_decimal_monotone(d: Seq<char>, n: int)
    requires
        0 <= n <= d.len(),
        forall|j: int| 0 <= j < d.len() ==> is_digit(#[trigger] d[j]),
    ensures
        0 <= decimal(d.take(n)) <= decimal(d),
    decreases d.len() - n, n,
{
    lemma_decimal_nonneg(d.take(n));
    if n < d.len() {
        lemma_decimal_monotone(d, n + 1);
        let upto = d.take(n + 1);
        assert(upto.drop_last() == d.take(n));
        assert(is_digit(d[n]));
    } else {
        assert(d.take(n) == d);
    }
}

proof fn lemma_decimal_nonneg(d: Seq<char>)
    requires
        forall|j: int| 0 <= j < d.len() ==> is_digit(#[trigger] d[j]),
    ensures
        0 <= decimal(d),
    decreases d.len(),
{
    if d.len() > 0 {
        assert(is_digit(d[d.len() - 1]));
        assert forall|j: int| 0 <= j < d.drop_last().len() implies is_digit(
            #[trigger] d.drop_last()[j],
        ) by {
            assert(is_digit(d[j]));
        }
        lemma_decimal_nonneg(d.drop_last());
    }
}

} // verus!
