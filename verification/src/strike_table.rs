//! A strike-keyed contract table: an association list sorted strictly by
//! whole-dollar strike key.
//!
//! Keeping the keys sorted and unique makes every traversal deterministic,
//! so the nearest-strike search has one defined answer: the key closest to
//! the target, preferring the lower key on an exact tie.

use vstd::prelude::*;
use crate::options_data::OptionsContract;
use crate::options_data::spec_abs_diff;
use crate::options_data::spec_with_timestamp;

verus! {

/// Largest nearest-strike target magnitude, in cents, accepted as input.
pub const TARGET_LIMIT: i64 = 4_000_000_000_000;

/// Lookup in an association sequence, scanning from the end.
pub open spec fn seq_lookup(s: Seq<(u32, OptionsContract)>, k: u32) -> Option<OptionsContract>
    decreases s.len(),
{
    if s.len() == 0 {
        None
    } else if s.last().0 == k {
        Some(s.last().1)
    } else {
        seq_lookup(s.drop_last(), k)
    }
}

/// Keys strictly increase along the sequence.
pub open spec fn strictly_sorted(s: Seq<(u32, OptionsContract)>) -> bool {
    forall|i: int, j: int| #![trigger s[i], s[j]] 0 <= i < j < s.len() ==> s[i].0 < s[j].0
}

/// Distance from a whole-dollar strike key to a target in cents.
pub open spec fn spec_strike_dist(k: u32, target: int) -> int {
    spec_abs_diff(100 * k, target)
}

/// `a` beats `b` as a candidate: closer to the target, or as close and lower.
pub open spec fn spec_better_strike(a: u32, b: u32, target: int) -> bool {
    ||| spec_strike_dist(a, target) < spec_strike_dist(b, target)
    ||| (spec_strike_dist(a, target) == spec_strike_dist(b, target) && a < b)
}

/// The best key of the sequence: least distance to the target, ties broken
/// toward the lower key.
pub open spec fn seq_closest(s: Seq<(u32, OptionsContract)>, target: int) -> Option<u32>
    decreases s.len(),
{
    if s.len() == 0 {
        None
    } else {
        match seq_closest(s.drop_last(), target) {
            Option::None => Some(s.last().0),
            Option::Some(b) => if spec_better_strike(s.last().0, b, target) {
                Some(s.last().0)
            } else {
                Some(b)
            },
        }
    }
}

/// With sorted keys, a lookup finds exactly the entry carrying its key.
pub proof fn lemma_lookup_char(s: Seq<(u32, OptionsContract)>, k: u32)
    requires
        strictly_sorted(s),
    ensures
        match seq_lookup(s, k) {
            Option::Some(c) => exists|i: int| 0 <= i < s.len() && s[i] == (k, c),
            Option::None => forall|i: int| #![trigger s[i]] 0 <= i < s.len() ==> s[i].0 != k,
        },
    decreases s.len(),
{
    if s.len() == 0 {
    } else if s.last().0 == k {
        assert(s[s.len() - 1] == (k, s.last().1));
    } else {
        assert forall|i: int, j: int| #![trigger s.drop_last()[i], s.drop_last()[j]]
            0 <= i < j < s.drop_last().len() implies s.drop_last()[i].0 < s.drop_last()[j].0 by {
            assert(s.drop_last()[i] == s[i]);
            assert(s.drop_last()[j] == s[j]);
        }
        lemma_lookup_char(s.drop_last(), k);
        match seq_lookup(s.drop_last(), k) {
            Option::Some(c) => {
                let i = choose|i: int| 0 <= i < s.drop_last().len() && s.drop_last()[i] == (k, c);
                assert(s[i] == (k, c));
            },
            Option::None => {
                assert forall|i: int| #![trigger s[i]] 0 <= i < s.len() implies s[i].0 != k by {
                    if i < s.len() - 1 {
                        assert(s.drop_last()[i] == s[i]);
                    }
                }
            },
        }
    }
}

/// With sorted keys, the entry at an index is what its key looks up to.
pub proof fn lemma_lookup_at_index(s: Seq<(u32, OptionsContract)>, i: int)
    requires
        strictly_sorted(s),
        0 <= i < s.len(),
    ensures
        seq_lookup(s, s[i].0) == Some(s[i].1),
{
    lemma_lookup_char(s, s[i].0);
    match seq_lookup(s, s[i].0) {
        Option::Some(c) => {
            let j = choose|j: int| 0 <= j < s.len() && s[j] == (s[i].0, c);
            if i < j {
                assert(s[i].0 < s[j].0);
            }
            if j < i {
                assert(s[j].0 < s[i].0);
            }
        },
        Option::None => {
            assert(s[i].0 != s[i].0);
        },
    }
}

/// A strike-to-contract table with strictly increasing keys.
#[derive(Clone, Debug)]
pub struct StrikeTable {
    entries: Vec<(u32, OptionsContract)>,
}

impl StrikeTable {
    /// The entries, in key order.
    pub closed spec fn spec_entries(self) -> Seq<(u32, OptionsContract)> {
        self.entries@
    }

    /// Keys strictly increase.
    pub open spec fn wf(self) -> bool {
        strictly_sorted(self.spec_entries())
    }

    /// The contract stored under a key.
    pub open spec fn spec_get(self, k: u32) -> Option<OptionsContract> {
        seq_lookup(self.spec_entries(), k)
    }

    /// Whether a key is present.
    pub open spec fn spec_contains(self, k: u32) -> bool {
        self.spec_get(k) is Some
    }

    /// Number of entries.
    pub open spec fn spec_len(self) -> nat {
        self.spec_entries().len()
    }

    /// The key nearest to the target, ties broken toward the lower key.
    pub open spec fn spec_closest(self, target: int) -> Option<u32> {
        seq_closest(self.spec_entries(), target)
    }

    pub fn new() -> (r: Self)
        ensures
            r.spec_entries() == Seq::<(u32, OptionsContract)>::empty(),
            r.wf(),
    {
        StrikeTable { entries: Vec::new() }
    }

    pub fn len(&self) -> (r: usize)
        ensures
            r == self.spec_len(),
    {
        self.entries.len()
    }

    pub fn is_empty(&self) -> (r: bool)
        ensures
            r == (self.spec_len() == 0),
    {
        self.entries.len() == 0
    }

    /// The entry at a position, in key order.
    pub fn entry_at(&self, i: usize) -> (r: &(u32, OptionsContract))
        requires
            i < self.spec_len(),
        ensures
            *r == self.spec_entries()[i as int],
    {
        &self.entries[i]
    }

    /// Borrow the contract stored under a key.
    pub fn get(&self, k: u32) -> (r: Option<&OptionsContract>)
        ensures
            match r {
                Option::Some(c) => self.spec_get(k) == Some(*c),
                Option::None => self.spec_get(k) is None,
            },
    {
        let n = self.entries.len();
        let mut i = n;
        proof {
            assert(self.spec_entries().take(n as int) =~= self.spec_entries());
        }
        while i > 0
            invariant
                i <= n,
                n == self.spec_entries().len(),
                seq_lookup(self.spec_entries(), k)
                    == seq_lookup(self.spec_entries().take(i as int), k),
            decreases i,
        {
            if self.entries[i - 1].0 == k {
                proof {
                    assert(self.spec_entries().take(i as int).last()
                        == self.spec_entries()[i - 1]);
                }
                return Some(&self.entries[i - 1].1);
            }
            proof {
                assert(self.spec_entries().take(i as int).last()
                    == self.spec_entries()[i - 1]);
                assert(self.spec_entries().take(i as int).drop_last()
                    =~= self.spec_entries().take(i - 1));
            }
            i = i - 1;
        }
        proof {
            assert(self.spec_entries().take(0).len() == 0);
        }
        None
    }

    /// Store a contract under a key, replacing any previous one there.
    pub fn insert(&mut self, k: u32, c: OptionsContract)
        requires
            old(self).wf(),
        ensures
            final(self).wf(),
            final(self).spec_get(k) == Some(c),
            forall|q: u32| q != k ==> final(self).spec_get(q) == old(self).spec_get(q),
            final(self).spec_len() <= old(self).spec_len() + 1,
    {
        let ghost s0 = self.entries@;
        let n = self.entries.len();
        let mut pos: usize = 0;
        while pos < n && self.entries[pos].0 < k
            invariant
                pos <= n,
                n == self.entries@.len(),
                self.entries@ == s0,
                forall|i: int| #![trigger s0[i]] 0 <= i < pos ==> s0[i].0 < k,
            decreases n - pos,
        {
            pos = pos + 1;
        }
        if pos < n && self.entries[pos].0 == k {
            self.entries.remove(pos);
            self.entries.insert(pos, (k, c));
            proof {
                let s1 = self.entries@;
                assert(s1 =~= s0.update(pos as int, (k, c)));
                assert forall|i: int, j: int| #![trigger s1[i], s1[j]]
                    0 <= i < j < s1.len() implies s1[i].0 < s1[j].0 by {
                    assert(s1[i].0 == s0[i].0);
                    assert(s1[j].0 == s0[j].0);
                }
                lemma_lookup_at_index(s1, pos as int);
                assert forall|q: u32| q != k implies
                    seq_lookup(s1, q) == seq_lookup(s0, q) by {
                    lemma_lookup_char(s0, q);
                    lemma_lookup_char(s1, q);
                    match seq_lookup(s0, q) {
                        Option::Some(cq) => {
                            let i = choose|i: int| 0 <= i < s0.len() && s0[i] == (q, cq);
                            assert(s1[i] == (q, cq));
                            lemma_lookup_at_index(s1, i);
                        },
                        Option::None => {
                            match seq_lookup(s1, q) {
                                Option::Some(cq) => {
                                    let i = choose|i: int| 0 <= i < s1.len() && s1[i] == (q, cq);
                                    assert(s0[i].0 == q);
                                },
                                Option::None => {},
                            }
                        },
                    }
                }
            }
        } else {
            self.entries.insert(pos, (k, c));
            proof {
                let s1 = self.entries@;
                assert(s1 == s0.insert(pos as int, (k, c)));
                assert(s1.len() == s0.len() + 1);
                assert forall|i: int| #![trigger s1[i]] 0 <= i < s1.len() implies
                    (if i < pos { s1[i] == s0[i] }
                     else if i == pos { s1[i] == (k, c) }
                     else { s1[i] == s0[i - 1] }) by {}
                assert forall|i: int, j: int| #![trigger s1[i], s1[j]]
                    0 <= i < j < s1.len() implies s1[i].0 < s1[j].0 by {
                    if j < pos {
                    } else if j == pos {
                        assert(s1[i] == s0[i]);
                    } else {
                        // j > pos, so s1[j] == s0[j - 1] and j - 1 >= pos
                        if i < pos {
                            if pos < n {
                                assert(s0[i].0 < k);
                                assert(k < s0[pos as int].0 || pos == j - 1);
                                if pos < j - 1 {
                                    assert(s0[pos as int].0 <= s0[j - 1].0);
                                }
                            }
                        } else if i == pos {
                            assert(pos < n);
                            assert(k < s0[pos as int].0);
                            if pos < j - 1 {
                                assert(s0[pos as int].0 <= s0[j - 1].0);
                            }
                        }
                    }
                }
                lemma_lookup_at_index(s1, pos as int);
                assert forall|q: u32| q != k implies
                    seq_lookup(s1, q) == seq_lookup(s0, q) by {
                    lemma_lookup_char(s0, q);
                    lemma_lookup_char(s1, q);
                    match seq_lookup(s0, q) {
                        Option::Some(cq) => {
                            let i = choose|i: int| 0 <= i < s0.len() && s0[i] == (q, cq);
                            if i < pos {
                                assert(s1[i] == (q, cq));
                                lemma_lookup_at_index(s1, i);
                            } else {
                                assert(s1[i + 1] == (q, cq));
                                lemma_lookup_at_index(s1, i + 1);
                            }
                        },
                        Option::None => {
                            match seq_lookup(s1, q) {
                                Option::Some(cq) => {
                                    let i = choose|i: int| 0 <= i < s1.len() && s1[i] == (q, cq);
                                    if i < pos {
                                        assert(s0[i].0 == q);
                                    } else if i > pos {
                                        assert(s0[i - 1].0 == q);
                                    }
                                },
                                Option::None => {},
                            }
                        },
                    }
                }
            }
        }
    }

    /// Restamp every stored contract with a new quote timestamp.
    pub fn set_all_timestamps(&mut self, t: i64)
        ensures
            final(self).spec_entries().len() == old(self).spec_entries().len(),
            forall|i: int| #![trigger final(self).spec_entries()[i]]
                0 <= i < old(self).spec_entries().len()
                ==> final(self).spec_entries()[i]
                    == (old(self).spec_entries()[i].0,
                        spec_with_timestamp(old(self).spec_entries()[i].1, t)),
            old(self).wf() ==> final(self).wf(),
    {
        let ghost s0 = self.entries@;
        let n = self.entries.len();
        let mut out: Vec<(u32, OptionsContract)> = Vec::new();
        let mut i: usize = 0;
        while i < n
            invariant
                i <= n,
                n == self.entries@.len(),
                self.entries@ == s0,
                out@.len() == i,
                forall|j: int| #![trigger out@[j]] 0 <= j < i
                    ==> out@[j] == (s0[j].0, spec_with_timestamp(s0[j].1, t)),
            decreases n - i,
        {
            let k = self.entries[i].0;
            let mut c = self.entries[i].1.duplicate();
            c.timestamp = t;
            out.push((k, c));
            i = i + 1;
        }
        self.entries = out;
        proof {
            if strictly_sorted(s0) {
                assert forall|i2: int, j2: int|
                    #![trigger self.entries@[i2], self.entries@[j2]]
                    0 <= i2 < j2 < self.entries@.len()
                    implies self.entries@[i2].0 < self.entries@[j2].0 by {
                    assert(self.entries@[i2].0 == s0[i2].0);
                    assert(self.entries@[j2].0 == s0[j2].0);
                }
            }
        }
    }

    /// An exact copy of this table.
    pub fn duplicate(&self) -> (r: Self)
        ensures
            r.spec_entries() == self.spec_entries(),
    {
        let n = self.entries.len();
        let mut out: Vec<(u32, OptionsContract)> = Vec::new();
        let mut i: usize = 0;
        while i < n
            invariant
                i <= n,
                n == self.spec_entries().len(),
                out@.len() == i,
                forall|j: int| #![trigger out@[j]] 0 <= j < i
                    ==> out@[j] == self.spec_entries()[j],
            decreases n - i,
        {
            let k = self.entries[i].0;
            let c = self.entries[i].1.duplicate();
            out.push((k, c));
            i = i + 1;
        }
        proof {
            assert(out@ =~= self.spec_entries());
        }
        StrikeTable { entries: out }
    }

    /// The key nearest to a target given in cents, ties broken toward the
    /// lower key; nothing when the table is empty.
    pub fn closest_key(&self, target: i64) -> (r: Option<u32>)
        requires
            -TARGET_LIMIT <= target <= TARGET_LIMIT,
        ensures
            r == self.spec_closest(target as int),
    {
        let n = self.entries.len();
        if n == 0 {
            return None;
        }
        let mut best: u32 = self.entries[0].0;
        proof {
            let t1 = self.spec_entries().take(1);
            assert(t1.len() == 1);
            assert(t1.last() == self.spec_entries()[0]);
            assert(seq_closest(t1.drop_last(), target as int) is None);
            assert(seq_closest(t1, target as int) == Some(best));
        }
        let mut i: usize = 1;
        while i < n
            invariant
                1 <= i <= n,
                n == self.spec_entries().len(),
                -TARGET_LIMIT <= target <= TARGET_LIMIT,
                Some(best) == seq_closest(self.spec_entries().take(i as int), target as int),
            decreases n - i,
        {
            let cand = self.entries[i].0;
            let cand_diff = distance_to(cand, target);
            let best_diff = distance_to(best, target);
            if cand_diff < best_diff || (cand_diff == best_diff && cand < best) {
                proof {
                    assert(spec_better_strike(cand, best, target as int));
                }
                best = cand;
            } else {
                proof {
                    assert(!spec_better_strike(cand, best, target as int));
                }
            }
            proof {
                let tnext = self.spec_entries().take(i + 1);
                assert(tnext.last() == self.spec_entries()[i as int]);
                assert(tnext.drop_last() =~= self.spec_entries().take(i as int));
            }
            i = i + 1;
        }
        proof {
            assert(self.spec_entries().take(n as int) =~= self.spec_entries());
        }
        Some(best)
    }
}

/// Absolute distance from a whole-dollar key to a target in cents.
fn distance_to(k: u32, target: i64) -> (r: i64)
    requires
        -TARGET_LIMIT <= target <= TARGET_LIMIT,
    ensures
        r == spec_strike_dist(k, target as int),
{
    let cents = (k as i64) * 100;
    if cents >= target {
        cents - target
    } else {
        target - cents
    }
}

/// The nearest key exists whenever the table is non-empty, lies in the
/// table, and minimizes the distance to the target; on an exact tie the
/// lower key is reported.
pub proof fn lemma_closest_minimizes(s: Seq<(u32, OptionsContract)>, target: int)
    ensures
        (seq_closest(s, target) is Some) <==> s.len() > 0,
        match seq_closest(s, target) {
            Option::Some(k) => {
                &&& exists|i: int| 0 <= i < s.len() && s[i].0 == k
                &&& forall|j: int| #![trigger s[j]] 0 <= j < s.len()
                    ==> spec_strike_dist(k, target) <= spec_strike_dist(s[j].0, target)
                &&& forall|j: int| #![trigger s[j]] 0 <= j < s.len()
                    && spec_strike_dist(k, target) == spec_strike_dist(s[j].0, target)
                    ==> k <= s[j].0
            },
            Option::None => true,
        },
    decreases s.len(),
{
    if s.len() == 0 {
    } else {
        lemma_closest_minimizes(s.drop_last(), target);
        match seq_closest(s.drop_last(), target) {
            Option::None => {
                assert(s.drop_last().len() == 0);
                assert(s[0].0 == s.last().0);
            },
            Option::Some(b) => {
                let bi = choose|i: int|
                    0 <= i < s.drop_last().len() && s.drop_last()[i].0 == b;
                assert(s[bi].0 == b);
                let k = if spec_better_strike(s.last().0, b, target) {
                    s.last().0
                } else {
                    b
                };
                assert(s[s.len() - 1].0 == s.last().0);
                assert forall|j: int| #![trigger s[j]] 0 <= j < s.len() implies
                    spec_strike_dist(k, target) <= spec_strike_dist(s[j].0, target) by {
                    if j < s.len() - 1 {
                        assert(s.drop_last()[j] == s[j]);
                    }
                }
                assert forall|j: int| #![trigger s[j]] 0 <= j < s.len()
                    && spec_strike_dist(k, target) == spec_strike_dist(s[j].0, target)
                    implies k <= s[j].0 by {
                    if j < s.len() - 1 {
                        assert(s.drop_last()[j] == s[j]);
                    }
                }
            },
        }
    }
}

/// The nearest key, when there is one, is a key of the table.
pub proof fn lemma_closest_is_key(t: StrikeTable, target: int)
    requires
        t.wf(),
        t.spec_closest(target) is Some,
    ensures
        t.spec_contains(t.spec_closest(target)->Some_0),
{
    lemma_closest_minimizes(t.spec_entries(), target);
    let k = t.spec_closest(target)->Some_0;
    let i = choose|i: int| 0 <= i < t.spec_entries().len() && t.spec_entries()[i].0 == k;
    lemma_lookup_at_index(t.spec_entries(), i);
}

/// The nearest strike of a non-empty table exists, is a strike of the
/// table, and minimizes the distance to the target over all strikes of
/// the table; on an exact tie the lower strike is reported.
pub proof fn lemma_closest_strike_minimal(t: StrikeTable, target: int)
    requires
        t.wf(),
    ensures
        (t.spec_closest(target) is Some) <==> t.spec_len() > 0,
        match t.spec_closest(target) {
            Option::Some(k) => {
                &&& t.spec_contains(k)
                &&& forall|q: u32| #![trigger t.spec_get(q)] t.spec_contains(q)
                    ==> spec_strike_dist(k, target) <= spec_strike_dist(q, target)
                &&& forall|q: u32| #![trigger t.spec_get(q)] t.spec_contains(q)
                    && spec_strike_dist(k, target) == spec_strike_dist(q, target)
                    ==> k <= q
            },
            Option::None => true,
        },
{
    let s = t.spec_entries();
    lemma_closest_minimizes(s, target);
    match t.spec_closest(target) {
        Option::Some(k) => {
            lemma_closest_is_key(t, target);
            assert forall|q: u32| #![trigger t.spec_get(q)] t.spec_contains(q) implies
                spec_strike_dist(k, target) <= spec_strike_dist(q, target)
                && (spec_strike_dist(k, target) == spec_strike_dist(q, target)
                    ==> k <= q) by {
                lemma_lookup_char(s, q);
                match seq_lookup(s, q) {
                    Option::Some(c) => {
                        let i = choose|i: int| 0 <= i < s.len() && s[i] == (q, c);
                        assert(s[i].0 == q);
                    },
                    Option::None => {},
                }
            }
        },
        Option::None => {},
    }
}

/// A target at or beyond the highest strike of a non-empty table
/// resolves to that highest strike.
pub proof fn lemma_closest_strike_high_boundary(t: StrikeTable, target: int)
    requires
        t.wf(),
        t.spec_len() > 0,
        forall|q: u32| #![trigger t.spec_get(q)] t.spec_contains(q) ==> 100 * q <= target,
    ensures
        match t.spec_closest(target) {
            Option::Some(k) => {
                &&& t.spec_contains(k)
                &&& forall|q: u32| #![trigger t.spec_get(q)] t.spec_contains(q) ==> q <= k
            },
            Option::None => false,
        },
{
    let s = t.spec_entries();
    assert forall|j: int| #![trigger s[j]] 0 <= j < s.len() implies
        100 * s[j].0 <= target by {
        lemma_lookup_at_index(s, j);
        assert(t.spec_contains(s[j].0));
    }
    lemma_closest_boundary_high(s, target);
    lemma_closest_is_key(t, target);
    let k = t.spec_closest(target)->Some_0;
    assert forall|q: u32| #![trigger t.spec_get(q)] t.spec_contains(q) implies q <= k by {
        lemma_lookup_char(s, q);
        match seq_lookup(s, q) {
            Option::Some(c) => {
                let i = choose|i: int| 0 <= i < s.len() && s[i] == (q, c);
                assert(s[i].0 == q);
            },
            Option::None => {},
        }
    }
}

/// A target at or below the lowest strike of a non-empty table resolves
/// to that lowest strike.
pub proof fn lemma_closest_strike_low_boundary(t: StrikeTable, target: int)
    requires
        t.wf(),
        t.spec_len() > 0,
        forall|q: u32| #![trigger t.spec_get(q)] t.spec_contains(q) ==> 100 * q >= target,
    ensures
        match t.spec_closest(target) {
            Option::Some(k) => {
                &&& t.spec_contains(k)
                &&& forall|q: u32| #![trigger t.spec_get(q)] t.spec_contains(q) ==> k <= q
            },
            Option::None => false,
        },
{
    let s = t.spec_entries();
    assert forall|j: int| #![trigger s[j]] 0 <= j < s.len() implies
        100 * s[j].0 >= target by {
        lemma_lookup_at_index(s, j);
        assert(t.spec_contains(s[j].0));
    }
    lemma_closest_boundary_low(s, target);
    lemma_closest_is_key(t, target);
    let k = t.spec_closest(target)->Some_0;
    assert forall|q: u32| #![trigger t.spec_get(q)] t.spec_contains(q) implies k <= q by {
        lemma_lookup_char(s, q);
        match seq_lookup(s, q) {
            Option::Some(c) => {
                let i = choose|i: int| 0 <= i < s.len() && s[i] == (q, c);
                assert(s[i].0 == q);
            },
            Option::None => {},
        }
    }
}

/// When every key in the table lies at or below the target, the nearest
/// key is the greatest key: a target beyond the top of the table returns
/// the boundary extreme.
pub proof fn lemma_closest_boundary_high(s: Seq<(u32, OptionsContract)>, target: int)
    requires
        s.len() > 0,
        forall|j: int| #![trigger s[j]] 0 <= j < s.len() ==> 100 * s[j].0 <= target,
    ensures
        match seq_closest(s, target) {
            Option::Some(k) => forall|j: int| #![trigger s[j]] 0 <= j < s.len() ==> s[j].0 <= k,
            Option::None => false,
        },
{
    lemma_closest_minimizes(s, target);
    let k = seq_closest(s, target)->Some_0;
    let ki = choose|i: int| 0 <= i < s.len() && s[i].0 == k;
    assert forall|j: int| #![trigger s[j]] 0 <= j < s.len() implies s[j].0 <= k by {
        assert(spec_strike_dist(k, target) <= spec_strike_dist(s[j].0, target));
        assert(100 * s[ki].0 <= target);
    }
}

/// When every key in the table lies at or above the target, the nearest
/// key is the least key: a target below the bottom of the table returns
/// the boundary extreme.
pub proof fn lemma_closest_boundary_low(s: Seq<(u32, OptionsContract)>, target: int)
    requires
        s.len() > 0,
        forall|j: int| #![trigger s[j]] 0 <= j < s.len() ==> 100 * s[j].0 >= target,
    ensures
        match seq_closest(s, target) {
            Option::Some(k) => forall|j: int| #![trigger s[j]] 0 <= j < s.len() ==> k <= s[j].0,
            Option::None => false,
        },
{
    lemma_closest_minimizes(s, target);
    let k = seq_closest(s, target)->Some_0;
    let ki = choose|i: int| 0 <= i < s.len() && s[i].0 == k;
    assert forall|j: int| #![trigger s[j]] 0 <= j < s.len() implies k <= s[j].0 by {
        assert(spec_strike_dist(k, target) <= spec_strike_dist(s[j].0, target));
        assert(100 * s[ki].0 >= target);
    }
}

} // verus!
