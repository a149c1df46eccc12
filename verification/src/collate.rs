//! Orders on character strings: lexicographic orders built from a ranking of
//! characters, the facts that make them total orders, and a sort of string
//! lists that is proved to produce the one sorted permutation of its input.

use std::cmp::Ordering;
use vstd::prelude::*;
use vstd::std_specs::iter::IteratorSpec;
use vstd::multiset::Multiset;
use vstd::relations::{sorted_by, total_ordering};

verus! {

broadcast use vstd::string::group_string_axioms;

/// Numeric code (Unicode scalar value) of a character.
pub open spec fn code(c: char) -> int {
    (c as u32) as int
}

/// Number of characters of a string, as an integer.
pub open spec fn length(s: Seq<char>) -> int {
    s.len() as int
}

/// The character belongs to the ASCII range.
pub open spec fn is_ascii_char(c: char) -> bool {
    code(c) < 0x80
}

/// Three-way comparison of two integers.
pub open spec fn order_of(x: int, y: int) -> Ordering {
    if x < y {
        Ordering::Less
    } else if x == y {
        Ordering::Equal
    } else {
        Ordering::Greater
    }
}

/// The ordering with the opposite sense.
pub open spec fn reversed(o: Ordering) -> Ordering {
    match o {
        Ordering::Less => Ordering::Greater,
        Ordering::Equal => Ordering::Equal,
        Ordering::Greater => Ordering::Less,
    }
}

/// A ranking of characters that tells any two different characters apart.
pub open spec fn injective_rank(rank: spec_fn(char) -> int) -> bool {
    forall|x: char, y: char| #[trigger] rank(x) == #[trigger] rank(y) ==> x == y
}

/// Lexicographic order of two strings: the first position where the ranks of
/// the characters differ decides; a proper prefix comes before the longer string.
pub open spec fn lex_order(a: Seq<char>, b: Seq<char>, rank: spec_fn(char) -> int) -> Ordering
    decreases a.len(),
{
    if a.len() == 0 {
        if b.len() == 0 {
            Ordering::Equal
        } else {
            Ordering::Less
        }
    } else if b.len() == 0 {
        Ordering::Greater
    } else if rank(a[0]) != rank(b[0]) {
        order_of(rank(a[0]), rank(b[0]))
    } else {
        lex_order(a.drop_first(), b.drop_first(), rank)
    }
}

/// Swapping the arguments of a lexicographic comparison reverses its result.
pub proof fn lemma_lex_reversed(a: Seq<char>, b: Seq<char>, rank: spec_fn(char) -> int)
    ensures
        lex_order(b, a, rank) == reversed(lex_order(a, b, rank)),
    decreases a.len(),
{
    if a.len() > 0 && b.len() > 0 && rank(a[0]) == rank(b[0]) {
        lemma_lex_reversed(a.drop_first(), b.drop_first(), rank);
    }
}

/// Under an injective ranking, two strings compare equal exactly when they are equal.
pub proof fn lemma_lex_equal(a: Seq<char>, b: Seq<char>, rank: spec_fn(char) -> int)
    requires
        injective_rank(rank),
    ensures
        (lex_order(a, b, rank) == Ordering::Equal) <==> (a == b),
    decreases a.len(),
{
    if a.len() > 0 && b.len() > 0 && rank(a[0]) == rank(b[0]) {
        lemma_lex_equal(a.drop_first(), b.drop_first(), rank);
        assert(a[0] == b[0]);
        if a.drop_first() == b.drop_first() {
            assert(a =~= seq![a[0]] + a.drop_first());
            assert(b =~= seq![b[0]] + b.drop_first());
        }
        if a == b {
            assert(a.drop_first() =~= b.drop_first());
        }
    } else if a.len() == 0 && b.len() == 0 {
        assert(a =~= b);
    }
}

/// A lexicographic order is transitive, and strictly so when one step is strict.
pub proof fn lemma_lex_transitive(
    a: Seq<char>,
    b: Seq<char>,
    c: Seq<char>,
    rank: spec_fn(char) -> int,
)
    requires
        lex_order(a, b, rank) != Ordering::Greater,
        lex_order(b, c, rank) != Ordering::Greater,
    ensures
        lex_order(a, c, rank) != Ordering::Greater,
        lex_order(a, b, rank) == Ordering::Less ==> lex_order(a, c, rank) == Ordering::Less,
        lex_order(b, c, rank) == Ordering::Less ==> lex_order(a, c, rank) == Ordering::Less,
    decreases a.len(),
{
    if a.len() > 0 && b.len() > 0 && c.len() > 0 {
        if rank(a[0]) == rank(b[0]) && rank(b[0]) == rank(c[0]) {
            lemma_lex_transitive(a.drop_first(), b.drop_first(), c.drop_first(), rank);
        }
    }
}

/// "Not after" in a lexicographic order.
pub open spec fn lex_leq(rank: spec_fn(char) -> int) -> spec_fn(Seq<char>, Seq<char>) -> bool {
    |a: Seq<char>, b: Seq<char>| lex_order(a, b, rank) != Ordering::Greater
}

/// Under an injective ranking, "not after" is a total order on strings.
pub proof fn lemma_lex_total(rank: spec_fn(char) -> int)
    requires
        injective_rank(rank),
    ensures
        total_ordering(lex_leq(rank)),
{
    let leq = lex_leq(rank);
    assert forall|x: Seq<char>| #[trigger] leq(x, x) by {
        lemma_lex_equal(x, x, rank);
    }
    assert forall|x: Seq<char>, y: Seq<char>| #[trigger] leq(x, y) && #[trigger] leq(y, x) implies x
        == y by {
        lemma_lex_reversed(x, y, rank);
        lemma_lex_equal(x, y, rank);
    }
    assert forall|x: Seq<char>, y: Seq<char>, z: Seq<char>| #[trigger] leq(x, y) && #[trigger] leq(
        y,
        z,
    ) implies leq(x, z) by {
        lemma_lex_transitive(x, y, z, rank);
    }
    assert forall|x: Seq<char>, y: Seq<char>| #[trigger] leq(x, y) || #[trigger] leq(y, x) by {
        lemma_lex_reversed(x, y, rank);
    }
}

/// The orders in which the catalogue sorts lists of names.
pub enum Collation {
    /// The catalogue order of `utils::fb2sort`.
    Fb2,
    /// The length-first order of `opds::compare_patterns`.
    LengthFirst,
}

/// "Not after" in the given order.
pub open spec fn collation_leq(c: Collation) -> spec_fn(Seq<char>, Seq<char>) -> bool {
    match c {
        Collation::Fb2 => crate::utils::fb2_leq(),
        Collation::LengthFirst => crate::opds::pattern_leq(),
    }
}

/// Each of the orders is a total order.
pub proof fn lemma_collation_total(c: Collation)
    ensures
        total_ordering(collation_leq(c)),
{
    match c {
        Collation::Fb2 => crate::utils::lemma_fb2_total(),
        Collation::LengthFirst => crate::opds::lemma_pattern_total(),
    }
}

/// Whether `a` does not come after `b` in the given order.
fn not_after(c: &Collation, a: &String, b: &String) -> (r: bool)
    ensures
        r == collation_leq(*c)(a@, b@),
{
    match c {
        Collation::Fb2 => match crate::utils::fb2sort(a, b) {
            Ordering::Greater => false,
            _ => true,
        },
        Collation::LengthFirst => match crate::opds::compare_patterns(a, b) {
            Ordering::Greater => false,
            _ => true,
        },
    }
}

/// The strings of `patterns` sorted in the given order: the unique permutation
/// of the input whose elements never decrease.
pub fn sort_strings(c: Collation, patterns: Vec<String>) -> (out: Vec<String>)
    ensures
        out.deep_view() == patterns.deep_view().sort_by(collation_leq(c)),
        sorted_by(out.deep_view(), collation_leq(c)),
        out.deep_view().to_multiset() == patterns.deep_view().to_multiset(),
{
    broadcast use vstd::seq_lib::group_to_multiset_ensures;
    broadcast use vstd::multiset::group_multiset_axioms;

    let ghost leq = collation_leq(c);
    proof {
        lemma_collation_total(c);
    }
    let ghost input = patterns.deep_view();
    let mut rest = patterns;
    let mut out: Vec<String> = Vec::new();
    assert(out.deep_view() =~= Seq::<Seq<char>>::empty());
    while rest.len() > 0
        invariant
            leq == collation_leq(c),
            total_ordering(leq),
            sorted_by(out.deep_view(), leq),
            out.deep_view().to_multiset().add(rest.deep_view().to_multiset()) == input.to_multiset(),
        decreases rest.len(),
    {
        let ghost rest_before = rest.deep_view();
        let ghost out_before = out.deep_view();
        let s = rest.pop().unwrap();
        assert(rest_before =~= rest.deep_view().push(s@));
        let mut i: usize = 0;
        loop
            invariant
                i <= out.len(),
                leq == collation_leq(c),
                out.deep_view() == out_before,
                forall|p: int| 0 <= p < i ==> #[trigger] leq(out_before[p], s@),
            ensures
                i <= out.len(),
                forall|p: int| 0 <= p < i ==> #[trigger] leq(out_before[p], s@),
                i < out.len() ==> !leq(out_before[i as int], s@),
            decreases out.len() - i,
        {
            if i == out.len() {
                break;
            }
            let after = !not_after(&c, &out[i], &s);
            assert(out_before[i as int] == out@[i as int]@);
            if after {
                break;
            }
            i = i + 1;
        }
        out.insert(i, s);
        let ghost out_after = out.deep_view();
        assert(out_after =~= out_before.insert(i as int, s@));
        proof {
            vstd::seq_lib::to_multiset_insert(out_before, i as int, s@);
            vstd::seq_lib::to_multiset_build(rest.deep_view(), s@);
            assert(rest_before.to_multiset() =~= rest.deep_view().to_multiset().insert(s@));
            assert(out_after.to_multiset().add(rest.deep_view().to_multiset()) =~= out_before.to_multiset().add(
                rest_before.to_multiset(),
            ));
            assert forall|p: int, q: int| 0 <= p < q < out_after.len() implies #[trigger] leq(
                out_after[p],
                out_after[q],
            ) by {
                if q < i {
                    assert(leq(out_before[p], out_before[q]));
                } else if q == i {
                    assert(leq(out_before[p], s@));
                } else if p < i {
                    assert(leq(out_before[p], s@));
                    assert(leq(s@, out_before[i as int]));
                    if q - 1 > i {
                        assert(leq(out_before[i as int], out_before[q - 1]));
                    }
                } else if p == i {
                    assert(leq(s@, out_before[i as int]));
                    if q - 1 > i {
                        assert(leq(out_before[i as int], out_before[q - 1]));
                    }
                } else {
                    assert(leq(out_before[p - 1], out_before[q - 1]));
                }
            }
        }
    }
    proof {
        assert(rest.deep_view() =~= Seq::<Seq<char>>::empty());
        assert(rest.deep_view().to_multiset() =~= Multiset::empty());
        assert(out.deep_view().to_multiset() =~= input.to_multiset());
        input.lemma_sort_by_ensures(leq);
        vstd::seq_lib::lemma_sorted_unique(out.deep_view(), input.sort_by(leq), leq);
    }
    out
}

/// The ranking of characters by their code.
pub open spec fn code_ranking() -> spec_fn(char) -> int {
    |c: char| code(c)
}

/// Different characters have different codes.
pub proof fn lemma_code_ranking_injective()
    ensures
        injective_rank(code_ranking()),
{
    let rank = code_ranking();
    assert forall|x: char, y: char| #[trigger] rank(x) == #[trigger] rank(y) implies x == y by {
        vstd::utf8::char_u32_cast(x, x as u32);
        vstd::utf8::char_u32_cast(y, y as u32);
    }
}

/// The order of `String`'s `Ord`: lexicographic by character code (which is
/// the order of the UTF-8 bytes), a prefix first.
pub open spec fn text_order(a: Seq<char>, b: Seq<char>) -> Ordering {
    lex_order(a, b, code_ranking())
}

/// Compares two strings in the order of `String`'s `Ord`.
pub fn compare_text(a: &String, b: &String) -> (r: Ordering)
    ensures
        r == text_order(a@, b@),
{
    let mut ac = a.as_str().chars();
    let mut bc = b.as_str().chars();
    loop
        invariant
            text_order(a@, b@) == text_order(ac.remaining(), bc.remaining()),
            ac.obeys_prophetic_iter_laws(),
            bc.obeys_prophetic_iter_laws(),
            ac.decrease() is Some,
        decreases ac.decrease()->0,
    {
        let ghost ra = ac.remaining();
        let ghost rb = bc.remaining();
        match ac.next() {
            Some(x) => match bc.next() {
                Some(y) => {
                    let cx = crate::utils::char_code(x);
                    let cy = crate::utils::char_code(y);
                    proof {
                        assert(ra[0] == x && rb[0] == y);
                        assert(code_ranking()(x) == code(x));
                        assert(code_ranking()(y) == code(y));
                    }
                    if cx < cy {
                        return Ordering::Less;
                    } else if cx > cy {
                        return Ordering::Greater;
                    }
                },
                None => {
                    return Ordering::Greater;
                },
            },
            None => match bc.next() {
                Some(_) => {
                    return Ordering::Less;
                },
                None => {
                    return Ordering::Equal;
                },
            },
        }
    }
}

/// `a` does not come after `b` in the order of `String`'s `Ord`.
pub open spec fn text_leq(a: Seq<char>, b: Seq<char>) -> bool {
    text_order(a, b) != Ordering::Greater
}

/// `a` comes before `b` in the order of `String`'s `Ord`.
pub open spec fn text_less(a: Seq<char>, b: Seq<char>) -> bool {
    text_order(a, b) == Ordering::Less
}

/// Whether `a` comes before `b` in the order of `String`'s `Ord`.
pub fn text_before(a: &String, b: &String) -> (r: bool)
    ensures
        r == text_less(a@, b@),
{
    match compare_text(a, b) {
        Ordering::Less => true,
        _ => false,
    }
}

/// Whether `a` does not come after `b` in the order of `String`'s `Ord`.
pub fn text_not_after(a: &String, b: &String) -> (r: bool)
    ensures
        r == text_leq(a@, b@),
{
    match compare_text(a, b) {
        Ordering::Greater => false,
        _ => true,
    }
}

/// `x` inserted into `s` just before the first element that comes after it,
/// that is after all leading elements not after it.
pub open spec fn insert_after<T>(s: Seq<T>, x: T, leq: spec_fn(T, T) -> bool) -> Seq<T>
    decreases s.len(),
{
    if s.len() == 0 {
        seq![x]
    } else if leq(s[0], x) {
        seq![s[0]] + insert_after(s.drop_first(), x, leq)
    } else {
        seq![x] + s
    }
}

/// Stable sort of `s` by `leq`: each element in turn is inserted after the
/// elements before it that it does not come before, so that elements the order
/// does not separate keep their relative order.
pub open spec fn stable_sort<T>(s: Seq<T>, leq: spec_fn(T, T) -> bool) -> Seq<T>
    decreases s.len(),
{
    if s.len() == 0 {
        s
    } else {
        insert_after(stable_sort(s.drop_last(), leq), s.last(), leq)
    }
}

/// An order in which every two elements compare and which is transitive
/// (elements may compare both ways without being equal).
pub open spec fn total_preorder<T>(leq: spec_fn(T, T) -> bool) -> bool {
    vstd::relations::transitive(leq) && vstd::relations::strongly_connected(leq)
}

/// Inserting into a sorted sequence keeps it sorted and adds the element.
proof fn lemma_insert_after_sorted<T>(t: Seq<T>, x: T, leq: spec_fn(T, T) -> bool)
    requires
        total_preorder(leq),
        sorted_by(t, leq),
    ensures
        sorted_by(insert_after(t, x, leq), leq),
        insert_after(t, x, leq).to_multiset() == t.to_multiset().insert(x),
    decreases t.len(),
{
    broadcast use vstd::seq_lib::group_to_multiset_ensures;
    broadcast use vstd::multiset::group_multiset_axioms;

    let r = insert_after(t, x, leq);
    if t.len() == 0 {
        assert(r =~= seq![x]);
        assert(r =~= Seq::<T>::empty().push(x));
    } else if leq(t[0], x) {
        let t1 = t.drop_first();
        assert(sorted_by(t1, leq)) by {
            assert forall|i: int, j: int| 0 <= i < j < t1.len() implies #[trigger] leq(t1[i], t1[j]) by {
                assert(leq(t[i + 1], t[j + 1]));
            }
        }
        lemma_insert_after_sorted(t1, x, leq);
        let r1 = insert_after(t1, x, leq);
        assert(r =~= seq![t[0]] + r1);
        assert forall|k: int| 0 <= k < r1.len() implies #[trigger] leq(t[0], r1[k]) by {
            assert(r1.to_multiset().count(r1[k]) > 0);
            if r1[k] != x {
                assert(t1.to_multiset().count(r1[k]) > 0);
                assert(t1.contains(r1[k]));
                let j = choose|j: int| 0 <= j < t1.len() && t1[j] == r1[k];
                assert(leq(t[0], t[j + 1]));
            }
        }
        assert forall|i: int, j: int| 0 <= i < j < r.len() implies #[trigger] leq(r[i], r[j]) by {
            if i == 0 {
                assert(r[j] == r1[j - 1]);
            } else {
                assert(r[i] == r1[i - 1] && r[j] == r1[j - 1]);
            }
        }
        assert(t =~= seq![t[0]] + t1);
        vstd::seq_lib::lemma_multiset_commutative(seq![t[0]], r1);
        vstd::seq_lib::lemma_multiset_commutative(seq![t[0]], t1);
        assert(seq![t[0]] =~= Seq::<T>::empty().push(t[0]));
        assert(seq![t[0]].to_multiset() =~= Multiset::<T>::empty().insert(t[0]));
        assert(r.to_multiset() =~= t.to_multiset().insert(x));
    } else {
        assert(leq(x, t[0]));
        assert(r =~= seq![x] + t);
        assert forall|i: int, j: int| 0 <= i < j < r.len() implies #[trigger] leq(r[i], r[j]) by {
            if i == 0 {
                if j > 1 {
                    assert(leq(t[0], t[j - 1]));
                }
            } else {
                assert(leq(t[i - 1], t[j - 1]));
            }
        }
        vstd::seq_lib::lemma_multiset_commutative(seq![x], t);
        assert(seq![x] =~= Seq::<T>::empty().push(x));
        assert(seq![x].to_multiset() =~= Multiset::<T>::empty().insert(x));
        assert(r.to_multiset() =~= t.to_multiset().insert(x));
    }
}

/// A stable sort by a total preorder gives its input sorted: the same
/// elements, each not after the next.
pub proof fn lemma_stable_sort_sorted<T>(s: Seq<T>, leq: spec_fn(T, T) -> bool)
    requires
        total_preorder(leq),
    ensures
        sorted_by(stable_sort(s, leq), leq),
        stable_sort(s, leq).to_multiset() == s.to_multiset(),
    decreases s.len(),
{
    broadcast use vstd::seq_lib::group_to_multiset_ensures;

    if s.len() > 0 {
        lemma_stable_sort_sorted(s.drop_last(), leq);
        lemma_insert_after_sorted(stable_sort(s.drop_last(), leq), s.last(), leq);
        assert(s =~= s.drop_last().push(s.last()));
    } else {
        assert(s.to_multiset() =~= stable_sort(s, leq).to_multiset());
    }
}

/// Inserting after the leading elements not after `x` is inserting at the
/// first position whose element comes after `x`.
proof fn lemma_insert_after_at<T>(s: Seq<T>, x: T, leq: spec_fn(T, T) -> bool, i: int)
    requires
        0 <= i <= s.len(),
        forall|p: int| 0 <= p < i ==> #[trigger] leq(s[p], x),
        i < s.len() ==> !leq(s[i], x),
    ensures
        insert_after(s, x, leq) == s.insert(i, x),
    decreases s.len(),
{
    if s.len() == 0 {
        assert(s.insert(i, x) =~= seq![x]);
    } else if i == 0 {
        assert(s.insert(i, x) =~= seq![x] + s);
    } else {
        assert(leq(s[0], x));
        let t = s.drop_first();
        assert forall|p: int| 0 <= p < i - 1 implies #[trigger] leq(t[p], x) by {
            assert(leq(s[p + 1], x));
        }
        lemma_insert_after_at(t, x, leq, i - 1);
        assert(seq![s[0]] + t.insert(i - 1, x) =~= s.insert(i, x));
    }
}

/// `v` stably sorted by `leq`, which `le` decides.
pub fn sort_stable<T>(
    v: Vec<T>,
    le: impl Fn(&T, &T) -> bool,
    Ghost(leq): Ghost<spec_fn(T, T) -> bool>,
) -> (out: Vec<T>)
    requires
        forall|a: &T, b: &T| #[trigger] le.requires((a, b)),
        forall|a: &T, b: &T, r: bool| le.ensures((a, b), r) ==> r == leq(*a, *b),
    ensures
        out@ == stable_sort(v@, leq),
{
    let ghost input = v@;
    let n = v.len();
    let mut rest = v;
    let mut out: Vec<T> = Vec::new();
    let mut k: usize = 0;
    assert(input.take(0) =~= Seq::<T>::empty());
    assert(input.skip(0) =~= input);
    while rest.len() > 0
        invariant
            forall|a: &T, b: &T| #[trigger] le.requires((a, b)),
            forall|a: &T, b: &T, r: bool| le.ensures((a, b), r) ==> r == leq(*a, *b),
            k <= input.len(),
            k + rest@.len() == input.len(),
            input.len() == n,
            rest@ == input.skip(k as int),
            out@ == stable_sort(input.take(k as int), leq),
        decreases rest.len(),
    {
        let x = rest.remove(0);
        let ghost before = out@;
        let mut i: usize = 0;
        loop
            invariant
                forall|a: &T, b: &T| #[trigger] le.requires((a, b)),
                forall|a: &T, b: &T, r: bool| le.ensures((a, b), r) ==> r == leq(*a, *b),
                i <= out.len(),
                out@ == before,
                forall|p: int| 0 <= p < i ==> #[trigger] leq(before[p], x),
            ensures
                i <= out.len(),
                forall|p: int| 0 <= p < i ==> #[trigger] leq(before[p], x),
                i < out.len() ==> !leq(before[i as int], x),
            decreases out.len() - i,
        {
            if i == out.len() {
                break;
            }
            if !le(&out[i], &x) {
                break;
            }
            i = i + 1;
        }
        proof {
            lemma_insert_after_at(before, x, leq, i as int);
            assert(input[k as int] == x);
            assert(input.take(k as int + 1).drop_last() =~= input.take(k as int));
            assert(input.take(k as int + 1).last() == x);
        }
        out.insert(i, x);
        k = k + 1;
        assert(rest@ =~= input.skip(k as int));
    }
    assert(input.take(k as int) =~= input);
    out
}

} // verus!
