//! Laws of installed versions: the numbers in a name, and the order of the
//! list.

use vstd::prelude::*;

use crate::laws::text::{
    free_of, law_begins, law_no_number_is_zero, law_number_is_read_back, law_pieces,
};
use crate::resolve::{components, law_installed_newest_first, newest_first, older, without_go};
use crate::text::{base_ten, begins, is_digit, lemma_numeral, number_or_zero, pieces};

verus! {

/// A version written with three numbers, and anything behind a further dot.
pub open spec fn three(a: nat, b: nat, c: nat, tail: Seq<char>) -> Seq<char> {
    base_ten(a) + "."@ + base_ten(b) + "."@ + base_ten(c) + tail
}

proof fn lemma_digits(n: nat)
    ensures
        base_ten(n).len() > 0,
        free_of(base_ten(n), '.'),
        is_digit(base_ten(n)[0]),
    decreases n,
{
    if n < 10 {
        lemma_numeral(n);
    } else {
        lemma_numeral(n % 10);
        lemma_digits(n / 10);
        assert forall|i: int| 0 <= i < base_ten(n).len() implies #[trigger] base_ten(n)[i]
            != '.' by {
            if i < base_ten(n / 10).len() {
                assert(base_ten(n / 10)[i] != '.');
            }
        }
    }
}

proof fn lemma_without_go(v: Seq<char>)
    requires
        v.len() > 0 ==> v[0] != 'g',
    ensures
        without_go("go"@ + v) == v,
        without_go(v) == v,
{
    reveal_strlit("go");
    law_begins(v, "go"@);
    assert(("go"@ + v).skip(2) == v);
    if begins(v, "go"@) {
        assert(v[0] == "go"@[0]);
    }
}

/// The numbers of a version are read from where they stand, with `go` in front
/// or without: the first three count, a missing one is 0, and whatever follows
/// a third dot is passed over.
pub proof fn law_components(a: nat, b: nat, c: nat, tail: Seq<char>)
    requires
        a <= u64::MAX,
        b <= u64::MAX,
        c <= u64::MAX,
        tail.len() == 0 || tail[0] == '.',
    ensures
        components("go"@ + three(a, b, c, tail)) == (a as int, b as int, c as int),
        components(three(a, b, c, tail)) == (a as int, b as int, c as int),
        components("go"@ + (base_ten(a) + "."@ + base_ten(b))) == (a as int, b as int, 0int),
        components("go"@ + base_ten(a)) == (a as int, 0int, 0int),
{
    reveal_strlit(".");
    lemma_digits(a);
    lemma_digits(b);
    lemma_digits(c);
    law_number_is_read_back(a, 0);
    law_number_is_read_back(b, 0);
    law_number_is_read_back(c, 0);
    let third = base_ten(c) + tail;
    let second = base_ten(b).push('.') + third;
    let whole = base_ten(a).push('.') + second;
    assert(three(a, b, c, tail) == whole);
    lemma_without_go(whole);
    law_pieces(base_ten(a), '.', second);
    law_pieces(base_ten(b), '.', third);
    if tail.len() == 0 {
        assert(third == base_ten(c));
        law_pieces(base_ten(c), '.', Seq::empty());
    } else {
        assert(third == base_ten(c).push('.') + tail.drop_first());
        law_pieces(base_ten(c), '.', tail.drop_first());
    }
    let parts = pieces(whole, '.');
    assert(parts[0] == base_ten(a));
    assert(parts[1] == base_ten(b));
    assert(parts[2] == base_ten(c));
    let two = base_ten(a) + "."@ + base_ten(b);
    assert(two == base_ten(a).push('.') + base_ten(b));
    lemma_without_go(two);
    law_pieces(base_ten(a), '.', base_ten(b));
    law_pieces(base_ten(b), '.', Seq::empty());
    assert(pieces(two, '.') == seq![base_ten(a), base_ten(b)]);
    lemma_without_go(base_ten(a));
    law_pieces(base_ten(a), '.', Seq::empty());
}

/// Each of the first three pieces counts for itself, 0 where it is no number,
/// whatever the others hold; further pieces are passed over, and missing ones
/// are 0.
pub proof fn law_components_of_pieces(
    x: Seq<char>,
    y: Seq<char>,
    z: Seq<char>,
    tail: Seq<char>,
)
    requires
        free_of(x, '.'),
        free_of(y, '.'),
        free_of(z, '.'),
        tail.len() == 0 || tail[0] == '.',
    ensures
        components("go"@ + (x + "."@ + y + "."@ + z + tail)) == (
            number_or_zero(x),
            number_or_zero(y),
            number_or_zero(z),
        ),
        components("go"@ + (x + "."@ + y)) == (number_or_zero(x), number_or_zero(y), 0int),
        components("go"@ + x) == (number_or_zero(x), 0int, 0int),
{
    reveal_strlit(".");
    let third = z + tail;
    let second = y.push('.') + third;
    let whole = x.push('.') + second;
    assert(x + "."@ + y + "."@ + z + tail == whole);
    lemma_behind_go(whole);
    law_pieces(x, '.', second);
    law_pieces(y, '.', third);
    if tail.len() == 0 {
        assert(third == z);
        law_pieces(z, '.', Seq::empty());
    } else {
        assert(third == z.push('.') + tail.drop_first());
        law_pieces(z, '.', tail.drop_first());
    }
    let parts = pieces(whole, '.');
    assert(parts[0] == x && parts[1] == y && parts[2] == z);
    let two = x + "."@ + y;
    assert(two == x.push('.') + y);
    lemma_behind_go(two);
    law_pieces(x, '.', y);
    law_pieces(y, '.', Seq::empty());
    assert(pieces(two, '.') == seq![x, y]);
    lemma_behind_go(x);
    law_pieces(x, '.', Seq::empty());
}

proof fn lemma_behind_go(v: Seq<char>)
    ensures
        without_go("go"@ + v) == v,
{
    reveal_strlit("go");
    law_begins(v, "go"@);
    assert(("go"@ + v).skip(2) == v);
}

/// A name without `go` in front has the numbers that it has with it.
pub proof fn law_go_is_passed_over(v: Seq<char>)
    requires
        !(v.len() >= 2 && v[0] == 'g' && v[1] == 'o'),
    ensures
        components("go"@ + v) == components(v),
{
    reveal_strlit("go");
    lemma_behind_go(v);
    law_begins(v, "go"@);
    if begins(v, "go"@) {
        assert(v[0] == "go"@[0] && v[1] == "go"@[1]);
    }
}

/// A piece with a character that is no digit counts as 0, and those around it
/// keep their places.
pub proof fn law_unreadable_component(a: nat, x: Seq<char>, at: int, c: nat)
    requires
        a <= u64::MAX,
        c <= u64::MAX,
        free_of(x, '.'),
        0 <= at < x.len(),
        !('0' <= x[at] <= '9'),
        !(at == 0 && x[0] == '+'),
    ensures
        components("go"@ + (base_ten(a) + "."@ + x)) == (a as int, 0int, 0int),
        components("go"@ + (base_ten(a) + "."@ + x + "."@ + base_ten(c))) == (
            a as int,
            0int,
            c as int,
        ),
        components("go"@ + (base_ten(a) + "."@ + base_ten(c) + "."@ + x)) == (
            a as int,
            c as int,
            0int,
        ),
{
    lemma_digits(a);
    lemma_digits(c);
    law_number_is_read_back(a, 0);
    law_number_is_read_back(c, 0);
    law_no_number_is_zero(x, at);
    let none = Seq::<char>::empty();
    law_components_of_pieces(base_ten(a), x, base_ten(c), none);
    law_components_of_pieces(base_ten(a), base_ten(c), x, none);
    assert(base_ten(a) + "."@ + x + "."@ + base_ten(c) + none == base_ten(a) + "."@ + x + "."@
        + base_ten(c));
    assert(base_ten(a) + "."@ + base_ten(c) + "."@ + x + none == base_ten(a) + "."@ + base_ten(c)
        + "."@ + x);
}

/// Whether three numbers come before three others, the first that differ
/// deciding.
pub open spec fn below(x: (nat, nat, nat), y: (nat, nat, nat)) -> bool {
    if x.0 != y.0 {
        x.0 < y.0
    } else if x.1 != y.1 {
        x.1 < y.1
    } else {
        x.2 < y.2
    }
}

/// Of two versions the one whose numbers come first is the older.
pub proof fn law_older_goes_by_number(
    x: (nat, nat, nat),
    y: (nat, nat, nat),
    s: Seq<char>,
    t: Seq<char>,
)
    requires
        x.0 <= u64::MAX && x.1 <= u64::MAX && x.2 <= u64::MAX,
        y.0 <= u64::MAX && y.1 <= u64::MAX && y.2 <= u64::MAX,
        s.len() == 0 || s[0] == '.',
        t.len() == 0 || t[0] == '.',
    ensures
        older("go"@ + three(x.0, x.1, x.2, s), "go"@ + three(y.0, y.1, y.2, t)) <==> below(x, y),
{
    law_components(x.0, x.1, x.2, s);
    law_components(y.0, y.1, y.2, t);
}

/// In the list of installed versions the one with the higher numbers stands
/// first, so the one at the front is a newest one.
pub proof fn law_higher_numbers_are_listed_first(
    names: Seq<Seq<char>>,
    x: (nat, nat, nat),
    y: (nat, nat, nat),
    p: int,
    q: int,
)
    requires
        x.0 <= u64::MAX && x.1 <= u64::MAX && x.2 <= u64::MAX,
        y.0 <= u64::MAX && y.1 <= u64::MAX && y.2 <= u64::MAX,
        0 <= p < newest_first(names).len(),
        0 <= q < newest_first(names).len(),
        newest_first(names)[p] == "go"@ + three(x.0, x.1, x.2, Seq::empty()),
        newest_first(names)[q] == "go"@ + three(y.0, y.1, y.2, Seq::empty()),
        below(x, y),
    ensures
        q < p,
{
    let none = Seq::<char>::empty();
    law_older_goes_by_number(x, y, none, none);
    law_older_goes_by_number(y, x, none, none);
    law_installed_newest_first(names);
    if p <= q {
        if p < q {
            assert(!older(newest_first(names)[p], newest_first(names)[q]));
        }
    }
}

/// Of two versions that are installed, in either order, the one with the higher
/// numbers is listed first.
pub proof fn law_two_installed(x: (nat, nat, nat), y: (nat, nat, nat))
    requires
        x.0 <= u64::MAX && x.1 <= u64::MAX && x.2 <= u64::MAX,
        y.0 <= u64::MAX && y.1 <= u64::MAX && y.2 <= u64::MAX,
        below(x, y),
    ensures
        ({
            let low = "go"@ + three(x.0, x.1, x.2, Seq::empty());
            let high = "go"@ + three(y.0, y.1, y.2, Seq::empty());
            &&& newest_first(seq![low, high]) == seq![high, low]
            &&& newest_first(seq![high, low]) == seq![high, low]
        }),
{
    let none = Seq::<char>::empty();
    let low = "go"@ + three(x.0, x.1, x.2, none);
    let high = "go"@ + three(y.0, y.1, y.2, none);
    law_older_goes_by_number(x, y, none, none);
    law_older_goes_by_number(y, x, none, none);
    law_begins(three(x.0, x.1, x.2, none), "go"@);
    law_begins(three(y.0, y.1, y.2, none), "go"@);
    let empty = Seq::<Seq<char>>::empty();
    assert(newest_first(empty) == empty);
    assert(seq![low].drop_last() == empty);
    assert(seq![high].drop_last() == empty);
    assert(newest_first(seq![low]) == seq![low]);
    assert(newest_first(seq![high]) == seq![high]);
    assert(seq![low, high].drop_last() == seq![low]);
    assert(seq![high, low].drop_last() == seq![high]);
    assert(crate::resolve::placed(empty, high) == seq![high]);
}

} // verus!
