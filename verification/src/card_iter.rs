//! The combination enumerator: every five-element subset of the indices
//! `0..n`, produced exactly once each, in ascending lexicographic order.
//!
//! The enumerator keeps five ascending index positions. Each advance
//! increments the rightmost position that can still grow; the positions to
//! its right restart just above it, the standard odometer step. The
//! contracts below pin the order down completely: each advance moves to the
//! immediate lexicographic successor among all combinations, so no subset
//! is ever repeated or skipped.

use vstd::prelude::*;

verus! {

/// Whether `s` is a five-element combination of indices into a hand of
/// length `n`: strictly ascending indices, all below `n`.
pub open spec fn is_combo(s: Seq<usize>, n: int) -> bool {
    &&& s.len() == 5
    &&& s[0] < s[1]
    &&& s[1] < s[2]
    &&& s[2] < s[3]
    &&& s[3] < s[4]
    &&& (s[4] as int) < n
}

/// Strict lexicographic order on five-element index sequences.
pub open spec fn lex_lt(a: Seq<usize>, b: Seq<usize>) -> bool {
    ||| a[0] < b[0]
    ||| (a[0] == b[0] && a[1] < b[1])
    ||| (a[0] == b[0] && a[1] == b[1] && a[2] < b[2])
    ||| (a[0] == b[0] && a[1] == b[1] && a[2] == b[2] && a[3] < b[3])
    ||| (a[0] == b[0] && a[1] == b[1] && a[2] == b[2] && a[3] == b[3] && a[4] < b[4])
}

/// Non-strict lexicographic order on five-element index sequences.
pub open spec fn lex_le(a: Seq<usize>, b: Seq<usize>) -> bool {
    lex_lt(a, b) || a == b
}

/// Lazily produces every five-element index combination of a hand of `n`
/// cards, exactly once each. It is finite and restartable only by fresh
/// instantiation: once exhausted it stays exhausted.
pub struct ComboIter {
    /// The hand length the combinations index into.
    pub n: usize,
    /// The current combination, valid while `done` is false.
    pub idx: Vec<usize>,
    /// Whether the enumerator has run out of combinations.
    pub done: bool,
}

impl ComboIter {
    /// The enumerator's invariant.
    pub open spec fn wf(&self) -> bool {
        &&& self.n >= 5
        &&& self.idx@.len() == 5
        &&& !self.done ==> is_combo(self.idx@, self.n as int)
    }

    /// The current combination.
    pub open spec fn cur(&self) -> Seq<usize> {
        self.idx@
    }

    /// Start enumerating the five-element combinations of `0..n` at the
    /// lexicographically least one.
    pub fn new(n: usize) -> (it: ComboIter)
        requires
            n >= 5,
        ensures
            it.wf(),
            !it.done,
            it.n == n,
            is_combo(it.cur(), n as int),
            forall|d: Seq<usize>| is_combo(d, n as int) ==> lex_le(it.cur(), d),
    {
        let idx: Vec<usize> = vec![0, 1, 2, 3, 4];
        let it = ComboIter { n, idx, done: false };
        proof {
            assert(it.cur() =~= seq![0usize, 1usize, 2usize, 3usize, 4usize]);
            assert forall|d: Seq<usize>| is_combo(d, n as int) implies lex_le(it.cur(), d) by {
                if !lex_lt(it.cur(), d) {
                    assert(d =~= it.cur());
                }
            }
        }
        it
    }

    /// Step to the immediate lexicographic successor combination, if one
    /// remains. Once none does, the enumerator is done, and the combination
    /// it last held was the greatest one.
    pub fn advance(&mut self) -> (more: bool)
        requires
            old(self).wf(),
            !old(self).done,
        ensures
            final(self).wf(),
            final(self).n == old(self).n,
            more == !final(self).done,
            more ==> is_combo(final(self).cur(), final(self).n as int) && lex_lt(
                old(self).cur(),
                final(self).cur(),
            ) && (forall|d: Seq<usize>|
                is_combo(d, final(self).n as int) && lex_lt(old(self).cur(), d) ==> lex_le(
                    final(self).cur(),
                    d,
                )),
            !more ==> final(self).cur() == old(self).cur() && (forall|d: Seq<usize>|
                is_combo(d, final(self).n as int) ==> lex_le(d, old(self).cur())),
    {
        let n = self.n;
        let ghost o = self.idx@;
        if self.idx[4] < n - 1 {
            let t = self.idx[4];
            self.idx[4] = t + 1;
            proof {
                self.lemma_step(o, 4);
            }
            true
        } else if self.idx[3] < n - 2 {
            let t = self.idx[3];
            self.idx[3] = t + 1;
            self.idx[4] = t + 2;
            proof {
                self.lemma_step(o, 3);
            }
            true
        } else if self.idx[2] < n - 3 {
            let t = self.idx[2];
            self.idx[2] = t + 1;
            self.idx[3] = t + 2;
            self.idx[4] = t + 3;
            proof {
                self.lemma_step(o, 2);
            }
            true
        } else if self.idx[1] < n - 4 {
            let t = self.idx[1];
            self.idx[1] = t + 1;
            self.idx[2] = t + 2;
            self.idx[3] = t + 3;
            self.idx[4] = t + 4;
            proof {
                self.lemma_step(o, 1);
            }
            true
        } else if self.idx[0] < n - 5 {
            let t = self.idx[0];
            self.idx[0] = t + 1;
            self.idx[1] = t + 2;
            self.idx[2] = t + 3;
            self.idx[3] = t + 4;
            self.idx[4] = t + 5;
            proof {
                self.lemma_step(o, 0);
            }
            true
        } else {
            self.done = true;
            proof {
                assert forall|d: Seq<usize>| is_combo(d, n as int) implies lex_le(d, o) by {
                    Self::lemma_maxed_above(o, d, n as int, 0);
                    if !lex_lt(d, o) {
                        assert(d =~= o);
                    }
                }
            }
            false
        }
    }

    /// After the odometer has carried into position `j`, the new
    /// combination is the immediate successor of the old one.
    proof fn lemma_step(&self, o: Seq<usize>, j: int)
        requires
            0 <= j < 5,
            self.n >= 5,
            o.len() == 5,
            is_combo(o, self.n as int),
            self.idx@.len() == 5,
            // positions left of j are unchanged, j is incremented, the rest
            // restart right above it
            forall|i: int| 0 <= i < j ==> self.idx@[i] == o[i],
            forall|i: int| j <= i < 5 ==> self.idx@[i] as int == o[j] + 1 + (i - j),
            // position j could grow; everything right of it was maxed out
            o[j] + 1 + (4 - j) < self.n,
            forall|i: int| j < i < 5 ==> o[i] as int == self.n - 5 + i,
        ensures
            is_combo(self.idx@, self.n as int),
            lex_lt(o, self.idx@),
            forall|d: Seq<usize>|
                is_combo(d, self.n as int) && lex_lt(o, d) ==> lex_le(self.idx@, d),
    {
        let c = self.idx@;
        let n = self.n as int;
        assert(is_combo(c, n));
        assert(lex_lt(o, c));
        assert forall|d: Seq<usize>| is_combo(d, n) && lex_lt(o, d) implies lex_le(c, d) by {
            Self::lemma_maxed_above(o, d, n, j + 1);
            if !lex_lt(c, d) {
                assert(d =~= c);
            }
        }
    }

    /// No combination exceeds `o` lexicographically at or right of a
    /// position from which `o` is maxed out.
    proof fn lemma_maxed_above(o: Seq<usize>, d: Seq<usize>, n: int, j: int)
        requires
            0 <= j <= 5,
            o.len() == 5,
            is_combo(o, n),
            is_combo(d, n),
            forall|i: int| j <= i < 5 ==> o[i] as int == n - 5 + i,
        ensures
            !(exists|p: int|
                j <= p < 5 && (forall|q: int| 0 <= q < p ==> d[q] == o[q]) && d[p] > o[p]),
    {
        if exists|p: int|
            j <= p < 5 && (forall|q: int| 0 <= q < p ==> d[q] == o[q]) && d[p] > o[p] {
            let p = choose|p: int|
                j <= p < 5 && (forall|q: int| 0 <= q < p ==> d[q] == o[q]) && d[p] > o[p];
            assert(d[p] as int > n - 5 + p);
            assert(d[4] as int >= d[p] + (4 - p));
            assert(d[4] as int >= n);
        }
    }
}

} // verus!
