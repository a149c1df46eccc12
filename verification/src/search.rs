//! The search for name prefixes. Starting from a pattern, the database is
//! asked for the distinct prefixes one character longer than the current mask
//! of the names that start with it. A prefix equal to the mask means a name is
//! exactly the mask; a single longer prefix narrows the search to it; several
//! longer prefixes end the search with them as the choices left.

use crate::utils::{fb2_leq, sorted};
use vstd::multiset::Multiset;
use vstd::prelude::*;

verus! {

/// The elements of `s` other than `x`, in their order.
pub open spec fn without(s: Seq<Seq<char>>, x: Seq<char>) -> Seq<Seq<char>>
    decreases s.len(),
{
    if s.len() == 0 {
        s
    } else if s.last() == x {
        without(s.drop_last(), x)
    } else {
        without(s.drop_last(), x).push(s.last())
    }
}

/// How many copies of `p` there are among `ps` once every copy of `x` is taken out.
pub open spec fn count_without(ps: Seq<Seq<char>>, x: Seq<char>, p: Seq<char>) -> nat {
    if p == x {
        0
    } else {
        ps.to_multiset().count(p)
    }
}

/// Taking `x` out of `s` keeps every other element, as many times as it
/// occurs, and leaves none of `x`; it shortens `s` exactly when `x` occurs in it.
pub proof fn lemma_without(s: Seq<Seq<char>>, x: Seq<char>)
    ensures
        forall|p: Seq<char>| #[trigger] without(s, x).to_multiset().count(p) == count_without(s, x, p),
        (without(s, x).len() == s.len()) <==> !s.contains(x),
        without(s, x).len() <= s.len(),
    decreases s.len(),
{
    broadcast use vstd::seq_lib::group_to_multiset_ensures;

    if s.len() == 0 {
        assert(without(s, x).to_multiset() =~= s.to_multiset());
    } else {
        let s0 = s.drop_last();
        lemma_without(s0, x);
        assert(s =~= s0.push(s.last()));
        if s.last() == x {
            assert(s.contains(x));
        } else {
            assert(s.contains(x) == s0.contains(x)) by {
                if s.contains(x) {
                    let i = choose|i: int| 0 <= i < s.len() && s[i] == x;
                    assert(s0[i] == x);
                }
            }
        }
    }
}

/// The state of a prefix search: the current mask, and the masks found to be
/// whole names so far.
pub struct SubstringSearch {
    mask: String,
    exact: Vec<String>,
}

/// What a step of the search leads to.
pub enum SearchStep {
    /// The search goes on with a longer mask.
    Next(SubstringSearch),
    /// The search is over: the masks that are whole names, and the longer
    /// prefixes left to choose from, in the catalogue order.
    Finished(Vec<String>, Vec<String>),
}

impl SubstringSearch {
    /// The current mask.
    pub closed spec fn mask_text(&self) -> Seq<char> {
        self.mask@
    }

    /// The masks found to be whole names so far, in the order found.
    pub closed spec fn exact_names(&self) -> Seq<Seq<char>> {
        self.exact.deep_view()
    }

    /// A search that starts from `pattern`.
    pub fn new(pattern: &String) -> (r: Self)
        ensures
            r.mask_text() == pattern@,
            r.exact_names() == Seq::<Seq<char>>::empty(),
    {
        let r = SubstringSearch { mask: pattern.clone(), exact: Vec::new() };
        assert(r.exact.deep_view() =~= Seq::<Seq<char>>::empty());
        r
    }

    /// The current mask, to be bound as the pattern of the prefix query.
    pub fn mask(&self) -> (r: &String)
        ensures
            r@ == self.mask_text(),
    {
        &self.mask
    }

    /// The length of the prefixes to ask for: one more than the number of
    /// characters of the mask, as a `u32` (taken modulo 2^32).
    pub fn sequel_length(&self) -> (r: u32)
        ensures
            r as int == (self.mask_text().len() + 1) % 0x1_0000_0000,
    {
        let n = self.mask.as_str().unicode_len() as u64;
        let low = n % 0x1_0000_0000;
        let next = (low + 1) % 0x1_0000_0000;
        proof {
            vstd::arithmetic::div_mod::lemma_add_mod_noop(n as int, 1, 0x1_0000_0000);
            vstd::arithmetic::div_mod::lemma_small_mod(1, 0x1_0000_0000);
        }
        next as u32
    }

    /// One step of the search, given the prefixes the database returned for
    /// the current mask. The mask is kept as a whole name when it is among
    /// them; the other prefixes decide: none ends the search with no choices,
    /// exactly one becomes the next mask, several end the search with them as
    /// the choices, in the catalogue order.
    pub fn step(self, patterns: Vec<String>) -> (r: SearchStep)
        ensures
            ({
                let tail = without(patterns.deep_view(), self.mask_text());
                let exact = if tail.len() != patterns.len() {
                    self.exact_names().push(self.mask_text())
                } else {
                    self.exact_names()
                };
                match r {
                    SearchStep::Next(next) => {
                        &&& tail.len() == 1
                        &&& next.mask_text() == tail[0]
                        &&& next.exact_names() == exact
                    },
                    SearchStep::Finished(names, rest) => {
                        &&& tail.len() != 1
                        &&& names.deep_view() == exact
                        &&& rest.deep_view() == tail.sort_by(fb2_leq())
                    },
                }
            }),
            ({
                let ps = patterns.deep_view();
                let mask = self.mask_text();
                let exact = if ps.contains(mask) {
                    self.exact_names().push(mask)
                } else {
                    self.exact_names()
                };
                match r {
                    SearchStep::Next(next) => {
                        &&& next.exact_names() == exact
                        &&& forall|p: Seq<char>| #[trigger] count_without(ps, mask, p) == (if p == next.mask_text() { 1nat } else { 0nat })
                    },
                    SearchStep::Finished(names, rest) => {
                        &&& names.deep_view() == exact
                        &&& forall|p: Seq<char>| #[trigger] rest.deep_view().to_multiset().count(p) == count_without(ps, mask, p)
                    },
                }
            }),
    {
        let SubstringSearch { mask, exact } = self;
        let mut exact = exact;
        let ghost ps = patterns.deep_view();
        let total = patterns.len();
        let mut tail: Vec<String> = Vec::new();
        let mut i: usize = 0;
        assert(ps.take(0) =~= Seq::<Seq<char>>::empty());
        assert(tail.deep_view() =~= Seq::<Seq<char>>::empty());
        while i < patterns.len()
            invariant
                i <= patterns.len(),
                total == patterns.len(),
                ps == patterns.deep_view(),
                tail.deep_view() == without(ps.take(i as int), mask@),
            decreases patterns.len() - i,
        {
            let name = &patterns[i];
            assert(ps[i as int] == name@);
            assert(ps.take(i as int + 1).drop_last() =~= ps.take(i as int));
            if *name != mask {
                tail.push(name.clone());
                assert(tail.deep_view() =~= without(ps.take(i as int), mask@).push(name@));
            }
            i = i + 1;
        }
        assert(ps.take(i as int) =~= ps);
        proof {
            lemma_without(ps, mask@);
        }
        let ghost before = exact.deep_view();
        if tail.len() != total {
            exact.push(mask.clone());
            assert(exact.deep_view() =~= before.push(mask@));
        }
        if tail.len() == 0 {
            proof {
                let t = tail.deep_view();
                crate::utils::lemma_fb2_total();
                t.lemma_sort_by_ensures(fb2_leq());
                broadcast use vstd::seq_lib::group_to_multiset_ensures;

                assert(t.to_multiset().len() == t.len());
                assert(t.sort_by(fb2_leq()).to_multiset().len() == t.sort_by(fb2_leq()).len());
                assert(t.sort_by(fb2_leq()).len() == t.len());
                assert(t.sort_by(fb2_leq()) =~= t);
                assert forall|p: Seq<char>| #[trigger] t.to_multiset().count(p) == 0 by {
                    assert(t.to_multiset() =~= Multiset::empty());
                }
            }
            SearchStep::Finished(exact, tail)
        } else if tail.len() == 1 {
            let ghost t = tail.deep_view();
            let next = tail.pop().unwrap();
            proof {
                broadcast use vstd::seq_lib::group_to_multiset_ensures;

                assert(t =~= Seq::<Seq<char>>::empty().push(next@));
                assert(Seq::<Seq<char>>::empty().to_multiset() =~= Multiset::empty());
                assert forall|p: Seq<char>| #[trigger] count_without(ps, mask@, p) == (if p == next@ {
                    1nat
                } else {
                    0nat
                }) by {
                    assert(t.to_multiset().count(p) == count_without(ps, mask@, p));
                    assert(t.to_multiset() =~= Multiset::<Seq<char>>::empty().insert(next@));
                }
            }
            SearchStep::Next(SubstringSearch { mask: next, exact })
        } else {
            SearchStep::Finished(exact, sorted(tail))
        }
    }
}

} // verus!
