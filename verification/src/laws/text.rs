//! Laws of text: what trimming, cutting and reading numbers do to a text that
//! was put together from known parts.

use vstd::prelude::*;

use crate::text::{
    base_ten, before, begins, decimal, ends, is_digit, is_white, last_piece,
    lemma_first_at_is, lemma_numeral, lines, number_or_zero, number_digits, pieces, texts,
    trimmed, trimmed_end, trimmed_start, without_leading, without_trailing,
};

verus! {

/// Whether a text holds nothing but whitespace.
pub open spec fn blank(s: Seq<char>) -> bool {
    forall|i: int| 0 <= i < s.len() ==> is_white(#[trigger] s[i])
}

/// Whether a text has no whitespace at its ends.
pub open spec fn tight(s: Seq<char>) -> bool {
    s.len() > 0 ==> !is_white(s[0]) && !is_white(s[s.len() - 1])
}

/// Whether a character does not occur in a text.
pub open spec fn free_of(s: Seq<char>, c: char) -> bool {
    forall|i: int| 0 <= i < s.len() ==> #[trigger] s[i] != c
}

/// Whether `mark` stands in `s` at position `i`.
pub open spec fn stands_at(s: Seq<char>, mark: Seq<char>, i: int) -> bool {
    0 <= i && i + mark.len() <= s.len() && s.subrange(i, i + mark.len()) == mark
}

/// Leading whitespace is taken off, and nothing else.
pub proof fn law_trim_start(lead: Seq<char>, rest: Seq<char>)
    requires
        blank(lead),
        rest.len() > 0 ==> !is_white(rest[0]),
    ensures
        trimmed_start(lead + rest) == rest,
    decreases lead.len(),
{
    if lead.len() == 0 {
        assert(lead + rest == rest);
    } else {
        let less = lead.drop_first();
        assert forall|i: int| 0 <= i < less.len() implies is_white(#[trigger] less[i]) by {
            assert(is_white(lead[i + 1]));
        }
        assert(is_white(lead[0]));
        assert((lead + rest).drop_first() == less + rest);
        law_trim_start(less, rest);
    }
}

proof fn lemma_trim_end(rest: Seq<char>, trail: Seq<char>)
    requires
        blank(trail),
        rest.len() > 0 ==> !is_white(rest[rest.len() - 1]),
    ensures
        trimmed_end(rest + trail) == rest,
    decreases trail.len(),
{
    if trail.len() == 0 {
        assert(rest + trail == rest);
    } else {
        let less = trail.drop_last();
        assert forall|i: int| 0 <= i < less.len() implies is_white(#[trigger] less[i]) by {
            assert(is_white(trail[i]));
        }
        assert(is_white(trail[trail.len() - 1]));
        assert((rest + trail).drop_last() == rest + less);
        lemma_trim_end(rest, less);
    }
}

/// Trimming takes the whitespace off both ends, and nothing else.
pub proof fn law_trim(lead: Seq<char>, core: Seq<char>, trail: Seq<char>)
    requires
        blank(lead),
        tight(core),
        blank(trail),
    ensures
        trimmed(lead + core + trail) == core,
{
    if core.len() > 0 {
        assert(lead + core + trail == lead + (core + trail));
        law_trim_start(lead, core + trail);
        lemma_trim_end(core, trail);
    } else {
        let all = lead + core + trail;
        assert forall|i: int| 0 <= i < all.len() implies is_white(#[trigger] all[i]) by {
            if i < lead.len() {
                assert(is_white(lead[i]));
            } else {
                assert(is_white(trail[i - lead.len()]));
            }
        }
        law_trim_start(all, core);
        assert(all + core == all);
    }
}

/// A text is whitespace and what follows it.
pub proof fn lemma_front(s: Seq<char>) -> (r: (Seq<char>, Seq<char>))
    ensures
        s == r.0 + r.1,
        blank(r.0),
        r.1.len() > 0 ==> !is_white(r.1[0]),
        r.1 == trimmed_start(s),
    decreases s.len(),
{
    if s.len() > 0 && is_white(s[0]) {
        let (a, b) = lemma_front(s.drop_first());
        let lead = seq![s[0]] + a;
        assert forall|i: int| 0 <= i < lead.len() implies is_white(#[trigger] lead[i]) by {
            if i > 0 {
                assert(is_white(a[i - 1]));
            }
        }
        assert(s == seq![s[0]] + s.drop_first());
        assert(lead + b == seq![s[0]] + (a + b));
        (lead, b)
    } else {
        assert(s == Seq::<char>::empty() + s);
        (Seq::empty(), s)
    }
}

/// A text is something and the whitespace behind it.
pub proof fn lemma_back(s: Seq<char>) -> (r: (Seq<char>, Seq<char>))
    ensures
        s == r.0 + r.1,
        blank(r.1),
        r.0.len() > 0 ==> !is_white(r.0[r.0.len() - 1]),
        r.0 == trimmed_end(s),
    decreases s.len(),
{
    if s.len() > 0 && is_white(s.last()) {
        let (a, b) = lemma_back(s.drop_last());
        let trail = b.push(s.last());
        assert forall|i: int| 0 <= i < trail.len() implies is_white(#[trigger] trail[i]) by {
            if i < b.len() {
                assert(is_white(b[i]));
            }
        }
        assert(s == s.drop_last().push(s.last()));
        assert(a + trail == (a + b).push(s.last()));
        (a, trail)
    } else {
        assert(s == s + Seq::<char>::empty());
        (s, Seq::empty())
    }
}

/// Trimming twice is trimming once.
pub proof fn law_trim_is_idempotent(s: Seq<char>)
    ensures
        trimmed(trimmed(s)) == trimmed(s),
        tight(trimmed(s)),
{
    crate::text::lemma_trimmed_ends(s);
    crate::text::lemma_trimmed_is_self(trimmed(s));
}

/// A text begins with another where it has the same characters at the front.
pub proof fn law_begins(s: Seq<char>, prefix: Seq<char>)
    ensures
        begins(s, prefix) <==> prefix.len() <= s.len() && forall|i: int|
            0 <= i < prefix.len() ==> s[i] == prefix[i],
        begins(prefix + s, prefix),
{
    assert((prefix + s).take(prefix.len() as int) == prefix);
    if prefix.len() <= s.len() {
        let head = s.take(prefix.len() as int);
        if forall|i: int| 0 <= i < prefix.len() ==> s[i] == prefix[i] {
            assert(head == prefix);
        }
        if head == prefix {
            assert forall|i: int| 0 <= i < prefix.len() implies s[i] == prefix[i] by {
                assert(head[i] == s[i]);
            }
        }
    }
}

/// A text ends with another where it has the same characters at the back.
pub proof fn law_ends(s: Seq<char>, suffix: Seq<char>)
    ensures
        ends(s, suffix) <==> suffix.len() <= s.len() && forall|i: int|
            0 <= i < suffix.len() ==> #[trigger] suffix[i] == s[s.len() - suffix.len() + i],
        ends(s + suffix, suffix),
{
    assert((s + suffix).skip(s.len() as int) == suffix);
    if suffix.len() <= s.len() {
        let tail = s.skip(s.len() - suffix.len());
        if forall|i: int|
            0 <= i < suffix.len() ==> #[trigger] suffix[i] == s[s.len() - suffix.len() + i] {
            assert(tail == suffix);
        }
        if tail == suffix {
            assert forall|i: int| 0 <= i < suffix.len() implies #[trigger] suffix[i]
                == s[s.len() - suffix.len() + i] by {
                assert(tail[i] == suffix[i]);
            }
        }
    }
}

/// What stands in front of the first occurrence of a mark is kept, and all
/// else is cut off.
pub proof fn law_before_mark(s: Seq<char>, mark: Seq<char>, at: int)
    requires
        mark.len() > 0,
        stands_at(s, mark, at),
        forall|i: int| 0 <= i < at ==> !stands_at(s, mark, i),
    ensures
        before(s, mark) == s.take(at),
    decreases s.len(),
{
    if at == 0 {
        assert(s.subrange(0, mark.len() as int) == s.take(mark.len() as int));
    } else {
        let rest = s.drop_first();
        assert(!begins(s, mark)) by {
            assert(!stands_at(s, mark, 0));
            assert(s.len() >= mark.len() ==> s.subrange(0, mark.len() as int) == s.take(
                mark.len() as int,
            ));
        }
        assert(rest.subrange(at - 1, at - 1 + mark.len()) == s.subrange(at, at + mark.len()));
        assert forall|i: int| 0 <= i < at - 1 implies !stands_at(rest, mark, i) by {
            if stands_at(rest, mark, i) {
                assert(s.subrange(i + 1, i + 1 + mark.len()) == rest.subrange(i, i + mark.len()));
                assert(stands_at(s, mark, i + 1));
            }
        }
        law_before_mark(rest, mark, at - 1);
        assert(seq![s[0]] + rest.take(at - 1) == s.take(at));
    }
}

/// A text without the mark is kept whole.
pub proof fn law_before_no_mark(s: Seq<char>, mark: Seq<char>)
    requires
        mark.len() > 0,
        forall|i: int| !stands_at(s, mark, i),
    ensures
        before(s, mark) == s,
    decreases s.len(),
{
    if s.len() > 0 {
        let rest = s.drop_first();
        assert(!begins(s, mark)) by {
            assert(!stands_at(s, mark, 0));
            assert(s.len() >= mark.len() ==> s.subrange(0, mark.len() as int) == s.take(
                mark.len() as int,
            ));
        }
        assert forall|i: int| !stands_at(rest, mark, i) by {
            if stands_at(rest, mark, i) {
                assert(s.subrange(i + 1, i + 1 + mark.len()) == rest.subrange(i, i + mark.len()));
                assert(stands_at(s, mark, i + 1));
            }
        }
        law_before_no_mark(rest, mark);
        assert(seq![s[0]] + rest == s);
    }
}

/// The last piece is what stands behind the last separator.
pub proof fn law_last_piece(head: Seq<char>, c: char, tail: Seq<char>)
    requires
        free_of(tail, c),
    ensures
        last_piece(head.push(c) + tail, c) == tail,
        last_piece(tail, c) == tail,
    decreases tail.len(),
{
    if tail.len() == 0 {
        assert((head.push(c) + tail).last() == c);
    } else {
        let less = tail.drop_last();
        assert forall|i: int| 0 <= i < less.len() implies #[trigger] less[i] != c by {
            assert(tail[i] != c);
        }
        assert(tail[tail.len() - 1] != c);
        law_last_piece(head, c, less);
        assert((head.push(c) + tail).drop_last() == head.push(c) + less);
        assert((head.push(c) + tail).last() == tail.last());
        assert(less.push(tail.last()) == tail);
    }
}

/// A text is cut at each separator, and the separators are gone.
pub proof fn law_pieces(head: Seq<char>, c: char, rest: Seq<char>)
    requires
        free_of(head, c),
    ensures
        pieces(head, c) == seq![head],
        pieces(head.push(c) + rest, c) == seq![head] + pieces(rest, c),
{
    lemma_first_at_is(head, c, head.len() as int);
    let whole = head.push(c) + rest;
    assert forall|i: int| 0 <= i < head.len() implies whole[i] != c by {
        assert(head[i] != c);
    }
    lemma_first_at_is(whole, c, head.len() as int);
    assert(whole.take(head.len() as int) == head);
    assert(whole.skip(head.len() + 1int) == rest);
}

/// A line ends at a line feed, which takes one carriage return in front of it
/// along; what is left at the end is a line too, where it is anything.
pub proof fn law_lines(line: Seq<char>, rest: Seq<char>)
    requires
        free_of(line, '\n'),
    ensures
        lines(Seq::empty()) == Seq::<Seq<char>>::empty(),
        line.len() > 0 ==> lines(line) == seq![line],
        lines(line + seq!['\r', '\n'] + rest) == seq![line] + lines(rest),
        !(line.len() > 0 && line[line.len() - 1] == '\r') ==> lines(line + seq!['\n'] + rest) == seq![
            line,
        ] + lines(rest),
{
    lemma_first_at_is(line, '\n', line.len() as int);
    let a = line + seq!['\r', '\n'] + rest;
    assert forall|i: int| 0 <= i < line.len() + 1 implies a[i] != '\n' by {
        if i < line.len() {
            assert(line[i] != '\n');
        }
    }
    lemma_first_at_is(a, '\n', line.len() + 1int);
    assert(a.take(line.len() + 1int) == line.push('\r'));
    assert(line.push('\r').drop_last() == line);
    assert(a.skip(line.len() + 2int) == rest);
    let b = line + seq!['\n'] + rest;
    assert forall|i: int| 0 <= i < line.len() implies b[i] != '\n' by {
        assert(line[i] != '\n');
    }
    lemma_first_at_is(b, '\n', line.len() as int);
    assert(b.take(line.len() as int) == line);
    assert(b.skip(line.len() + 1int) == rest);
}

/// `n` times the character `c`.
pub open spec fn repeated(c: char, n: nat) -> Seq<char> {
    Seq::new(n, |i: int| c)
}

/// Every leading and every trailing occurrence of a character is taken off,
/// and nothing else.
pub proof fn law_strip(c: char, n: nat, core: Seq<char>)
    ensures
        !(core.len() > 0 && core[0] == c) ==> without_leading(repeated(c, n) + core, c) == core,
        !(core.len() > 0 && core[core.len() - 1] == c) ==> without_trailing(
            core + repeated(c, n),
            c,
        ) == core,
    decreases n,
{
    if n == 0 {
        assert(repeated(c, n) + core == core);
        assert(core + repeated(c, n) == core);
    } else {
        law_strip(c, (n - 1) as nat, core);
        let less = repeated(c, (n - 1) as nat);
        assert((repeated(c, n) + core).drop_first() == less + core);
        assert((core + repeated(c, n)).drop_last() == core + less);
    }
}

/// The texts of strings are their characters, one for one.
pub proof fn law_texts(v: Seq<String>)
    ensures
        texts(v).len() == v.len(),
        forall|i: int| 0 <= i < v.len() ==> #[trigger] texts(v)[i] == v[i]@,
{
}

proof fn lemma_base_ten(n: nat)
    ensures
        base_ten(n).len() > 0,
        forall|i: int| 0 <= i < base_ten(n).len() ==> is_digit(#[trigger] base_ten(n)[i]),
        decimal(base_ten(n)) == n,
    decreases n,
{
    lemma_numeral(n % 10);
    if n < 10 {
        lemma_numeral(n);
        assert(base_ten(n).drop_last() == Seq::<char>::empty());
        assert(decimal(Seq::<char>::empty()) == 0);
    } else {
        lemma_base_ten(n / 10);
        assert(base_ten(n).drop_last() == base_ten(n / 10));
    }
}

proof fn lemma_leading_zeros(k: nat, d: Seq<char>)
    ensures
        decimal(repeated('0', k) + d) == decimal(d),
    decreases d.len(), k,
{
    let all = repeated('0', k) + d;
    if d.len() > 0 {
        assert(all.drop_last() == repeated('0', k) + d.drop_last());
        assert(all.last() == d.last());
        lemma_leading_zeros(k, d.drop_last());
    } else if k > 0 {
        assert(all.drop_last() == repeated('0', (k - 1) as nat) + d);
        assert(all.last() == '0');
        lemma_leading_zeros((k - 1) as nat, d);
        assert(decimal(Seq::<char>::empty()) == 0);
    } else {
        assert(all == d);
    }
}

/// A number that was written in base ten is read back, with any zeros and one
/// plus sign in front; one that does not fit in 64 bits reads as 0.
pub proof fn law_number_is_read_back(n: nat, zeros: nat)
    ensures
        number_or_zero(repeated('0', zeros) + base_ten(n)) == (if n <= u64::MAX {
            n as int
        } else {
            0
        }),
        number_or_zero(seq!['+'] + (repeated('0', zeros) + base_ten(n))) == (if n <= u64::MAX {
            n as int
        } else {
            0
        }),
        number_or_zero(base_ten(n)) == (if n <= u64::MAX {
            n as int
        } else {
            0
        }),
{
    lemma_base_ten(n);
    lemma_leading_zeros(zeros, base_ten(n));
    let d = repeated('0', zeros) + base_ten(n);
    assert forall|i: int| 0 <= i < d.len() implies is_digit(#[trigger] d[i]) by {
        if i >= zeros {
            assert(is_digit(base_ten(n)[i - zeros]));
        }
    }
    assert(is_digit(d[0]));
    assert(is_digit(base_ten(n)[0]));
    assert(number_digits(d) == d);
    assert((seq!['+'] + d).drop_first() == d);
}

/// A text that is empty, a lone plus sign, or has a character that is no digit
/// and no leading plus sign, reads as 0.
pub proof fn law_no_number_is_zero(s: Seq<char>, i: int)
    requires
        s.len() == 0 || s == seq!['+'] || (0 <= i < s.len() && !('0' <= s[i] <= '9') && !(i == 0
            && s[0] == '+')),
    ensures
        number_or_zero(s) == 0,
{
    let d = number_digits(s);
    if s.len() > 0 && s != seq!['+'] {
        if s[0] == '+' {
            assert(d[i - 1] == s[i]);
        } else {
            assert(d[i] == s[i]);
        }
    } else if s.len() > 0 {
        assert(d.len() == 0);
    }
}

} // verus!
