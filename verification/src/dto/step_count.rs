//! How many order items stand at each (step, index) of production.
use vstd::prelude::*;

verus! {

/// (step, index) pairs ordered by step, then by index.
pub open spec fn key_lt(a: (i32, i32), b: (i32, i32)) -> bool {
    a.0 < b.0 || (a.0 == b.0 && a.1 < b.1)
}

/// The count that the entries give key `k`.
pub open spec fn count_in(s: Seq<(i32, i32, i32)>, k: (i32, i32)) -> Option<i32>
    decreases s.len(),
{
    if s.len() == 0 {
        None
    } else if (s.last().0, s.last().1) == k {
        Some(s.last().2)
    } else {
        count_in(s.drop_last(), k)
    }
}

/// The entries' keys ascend strictly.
pub open spec fn keys_ascending(s: Seq<(i32, i32, i32)>) -> bool {
    forall|i: int, j: int| 0 <= i < j < s.len() ==> key_lt((s[i].0, s[i].1), (s[j].0, s[j].1))
}

/// The map that ascending entries stand for.
pub open spec fn entries_map(s: Seq<(i32, i32, i32)>) -> Map<(i32, i32), i32> {
    Map::new(|k: (i32, i32)| count_in(s, k) is Some, |k: (i32, i32)| count_in(s, k)->0)
}

/// A count for every (step, index) pair that has one, kept by ascending
/// (step, index).
#[derive(Debug)]
pub struct StepIndexCount {
    entries: Vec<(i32, i32, i32)>,
}

impl View for StepIndexCount {
    type V = Map<(i32, i32), i32>;

    closed spec fn view(&self) -> Map<(i32, i32), i32> {
        entries_map(self.entries@)
    }
}

proof fn lemma_count_in_found(s: Seq<(i32, i32, i32)>, i: int)
    requires
        keys_ascending(s),
        0 <= i < s.len(),
    ensures
        count_in(s, (s[i].0, s[i].1)) == Some(s[i].2),
    decreases s.len(),
{
    if i < s.len() - 1 {
        assert(key_lt((s[i].0, s[i].1), (s.last().0, s.last().1)));
        assert(s.drop_last()[i] == s[i]);
        lemma_count_in_found(s.drop_last(), i);
    }
}

proof fn lemma_count_in_absent(s: Seq<(i32, i32, i32)>, k: (i32, i32))
    requires
        forall|i: int| 0 <= i < s.len() ==> (#[trigger] s[i].0, s[i].1) != k,
    ensures
        count_in(s, k) is None,
    decreases s.len(),
{
    if s.len() > 0 {
        assert(s[s.len() - 1] == s.last());
        assert forall|i: int| 0 <= i < s.drop_last().len() implies (
        #[trigger] s.drop_last()[i].0,
        s.drop_last()[i].1,
        ) != k by {
            assert(s.drop_last()[i] == s[i]);
        }
        lemma_count_in_absent(s.drop_last(), k);
    }
}

proof fn lemma_count_in_some(s: Seq<(i32, i32, i32)>, k: (i32, i32))
    requires
        count_in(s, k) is Some,
    ensures
        exists|i: int| 0 <= i < s.len() && (#[trigger] s[i].0, s[i].1) == k,
    decreases s.len(),
{
    if s.len() > 0 && (s.last().0, s.last().1) != k {
        lemma_count_in_some(s.drop_last(), k);
        let i = choose|i: int| 0 <= i < s.drop_last().len() && (#[trigger] s.drop_last()[i].0, s.drop_last()[i].1) == k;
        assert(s[i] == s.drop_last()[i]);
    } else if s.len() > 0 {
        assert(s[s.len() - 1] == s.last());
    }
}

/// The map of ascending entries holds exactly their keys, with their counts.
proof fn lemma_entries_map(s: Seq<(i32, i32, i32)>)
    requires
        keys_ascending(s),
    ensures
        forall|i: int| 0 <= i < s.len() ==> #[trigger] entries_map(s).contains_key((s[i].0, s[i].1))
            && entries_map(s)[(s[i].0, s[i].1)] == s[i].2,
        forall|k: (i32, i32)| #[trigger] entries_map(s).contains_key(k) ==> exists|i: int|
            0 <= i < s.len() && (#[trigger] s[i].0, s[i].1) == k,
{
    assert forall|i: int| 0 <= i < s.len() implies #[trigger] entries_map(s).contains_key(
        (s[i].0, s[i].1),
    ) && entries_map(s)[(s[i].0, s[i].1)] == s[i].2 by {
        lemma_count_in_found(s, i);
    }
    assert forall|k: (i32, i32)| #[trigger] entries_map(s).contains_key(k) implies exists|i: int|
        0 <= i < s.len() && (#[trigger] s[i].0, s[i].1) == k by {
        lemma_count_in_some(s, k);
    }
}

proof fn lemma_map_eq(s: Seq<(i32, i32, i32)>, m: Map<(i32, i32), i32>)
    requires
        keys_ascending(s),
        forall|i: int| 0 <= i < s.len() ==> #[trigger] m.contains_key((s[i].0, s[i].1)) && m[(s[i].0, s[i].1)]
            == s[i].2,
        forall|k: (i32, i32)| #[trigger] m.contains_key(k) ==> exists|i: int|
            0 <= i < s.len() && (#[trigger] s[i].0, s[i].1) == k,
    ensures
        entries_map(s) == m,
{
    let e = entries_map(s);
    assert forall|k: (i32, i32)| #[trigger] e.dom().contains(k) implies m.dom().contains(k) && e[k] == m[k] by {
        lemma_count_in_some(s, k);
        let i = choose|i: int| 0 <= i < s.len() && (#[trigger] s[i].0, s[i].1) == k;
        lemma_count_in_found(s, i);
        assert(m.contains_key((s[i].0, s[i].1)));
    }
    assert forall|k: (i32, i32)| #[trigger] m.dom().contains(k) implies e.dom().contains(k) by {
        assert(m.contains_key(k));
        let i = choose|i: int| 0 <= i < s.len() && (#[trigger] s[i].0, s[i].1) == k;
        lemma_count_in_found(s, i);
    }
    assert(e.dom() =~= m.dom());
    assert forall|k: (i32, i32)| #[trigger] e.dom().contains(k) implies e[k] == m[k] by {
        assert(e.contains_key(k));
    }
    assert(e =~= m);
}

impl StepIndexCount {
    /// The entries, by ascending (step, index).
    pub closed spec fn entries(&self) -> Seq<(i32, i32, i32)> {
        self.entries@
    }

    pub closed spec fn wf(&self) -> bool {
        keys_ascending(self.entries@)
    }

    /// The entries of a well-formed count stand for its map.
    pub proof fn lemma_entries(&self)
        requires
            self.wf(),
        ensures
            keys_ascending(self.entries()),
            self@ == entries_map(self.entries()),
            self@.dom().finite(),
            self@.dom().len() == self.entries().len(),
    {
        lemma_entries_map(self.entries@);
        let s = self.entries@;
        let keys = s.map_values(|e: (i32, i32, i32)| (e.0, e.1));
        assert(keys.no_duplicates()) by {
            assert forall|i: int, j: int| 0 <= i < keys.len() && 0 <= j < keys.len() && i != j implies keys[i]
                != keys[j] by {
                if i < j {
                    assert(key_lt((s[i].0, s[i].1), (s[j].0, s[j].1)));
                } else {
                    assert(key_lt((s[j].0, s[j].1), (s[i].0, s[i].1)));
                }
            }
        }
        assert(self@.dom() =~= keys.to_set()) by {
            assert forall|k: (i32, i32)| self@.dom().contains(k) <==> keys.to_set().contains(k) by {
                if self@.dom().contains(k) {
                    let i = choose|i: int| 0 <= i < s.len() && (#[trigger] s[i].0, s[i].1) == k;
                    assert(keys[i] == k);
                }
                if keys.to_set().contains(k) {
                    let i = choose|i: int| 0 <= i < keys.len() && keys[i] == k;
                    assert(self@.contains_key((s[i].0, s[i].1)));
                }
            }
        }
        keys.unique_seq_to_set();
    }

    /// No item counted yet.
    pub fn new() -> (r: Self)
        ensures
            r.wf(),
            r@ == Map::<(i32, i32), i32>::empty(),
    {
        let r = StepIndexCount { entries: Vec::new() };
        assert(r@ =~= Map::<(i32, i32), i32>::empty());
        r
    }

    /// The count of (`step`, `index`), if it has one.
    pub fn get(&self, step: i32, index: i32) -> (r: Option<i32>)
        requires
            self.wf(),
        ensures
            r == (if self@.contains_key((step, index)) {
                Some(self@[(step, index)])
            } else {
                None
            }),
    {
        proof {
            lemma_entries_map(self.entries@);
        }
        let mut i: usize = 0;
        while i < self.entries.len()
            invariant
                self.wf(),
                i <= self.entries@.len(),
                forall|t: int| 0 <= t < i ==> (#[trigger] self.entries@[t].0, self.entries@[t].1) != (
                    step,
                    index,
                ),
            decreases self.entries.len() - i,
        {
            let e = self.entries[i];
            if e.0 == step && e.1 == index {
                proof {
                    lemma_count_in_found(self.entries@, i as int);
                }
                return Some(e.2);
            }
            i = i + 1;
        }
        proof {
            lemma_count_in_absent(self.entries@, (step, index));
        }
        None
    }

    /// Counts one more item at (`step`, `index`).
    pub fn add_one(&mut self, step: i32, index: i32)
        requires
            old(self).wf(),
            old(self)@.contains_key((step, index)) ==> old(self)@[(step, index)] < i32::MAX,
        ensures
            final(self).wf(),
            final(self)@ == old(self)@.insert(
                (step, index),
                if old(self)@.contains_key((step, index)) {
                    (old(self)@[(step, index)] + 1) as i32
                } else {
                    1
                },
            ),
    {
        let ghost s = self.entries@;
        let ghost k = (step, index);
        proof {
            lemma_entries_map(s);
        }
        let mut p: usize = 0;
        while p < self.entries.len()
            invariant_except_break
                k == (step, index),
                s == self.entries@,
                keys_ascending(s),
                p <= s.len(),
                forall|t: int| 0 <= t < p ==> key_lt((#[trigger] s[t].0, s[t].1), k),
            ensures
                k == (step, index),
                s == self.entries@,
                keys_ascending(s),
                p <= s.len(),
                forall|t: int| 0 <= t < p ==> key_lt((#[trigger] s[t].0, s[t].1), k),
                p < s.len() ==> !key_lt((s[p as int].0, s[p as int].1), k),
            decreases self.entries.len() - p,
        {
            let e = self.entries[p];
            if !key_lt_exec((e.0, e.1), (step, index)) {
                break;
            }
            p = p + 1;
        }
        let ghost m = entries_map(s);
        if p < self.entries.len() && self.entries[p].0 == step && self.entries[p].1 == index {
            let c = self.entries[p].2;
            proof {
                lemma_count_in_found(s, p as int);
            }
            self.entries.set(p, (step, index, c + 1));
            proof {
                let s2 = self.entries@;
                let m2 = m.insert(k, (c + 1) as i32);
                assert(keys_ascending(s2)) by {
                    assert forall|i: int, j: int| 0 <= i < j < s2.len() implies key_lt(
                        (s2[i].0, s2[i].1),
                        (s2[j].0, s2[j].1),
                    ) by {
                        assert(key_lt((s[i].0, s[i].1), (s[j].0, s[j].1)));
                    }
                }
                assert forall|i: int| 0 <= i < s2.len() implies #[trigger] m2.contains_key(
                    (s2[i].0, s2[i].1),
                ) && m2[(s2[i].0, s2[i].1)] == s2[i].2 by {
                    if i != p {
                        assert(s2[i] == s[i]);
                        assert(m.contains_key((s[i].0, s[i].1)));
                    }
                }
                assert forall|j: (i32, i32)| #[trigger] m2.contains_key(j) implies exists|i: int|
                    0 <= i < s2.len() && (#[trigger] s2[i].0, s2[i].1) == j by {
                    if j == k {
                        assert((s2[p as int].0, s2[p as int].1) == j);
                    } else {
                        let i = choose|i: int| 0 <= i < s.len() && (#[trigger] s[i].0, s[i].1) == j;
                        assert(s2[i] == s[i]);
                    }
                }
                lemma_map_eq(s2, m2);
            }
        } else {
            proof {
                if m.contains_key(k) {
                    let i = choose|i: int| 0 <= i < s.len() && (#[trigger] s[i].0, s[i].1) == k;
                    if i < p {
                        assert(key_lt((s[i].0, s[i].1), k));
                    } else if i > p {
                        assert(key_lt((s[p as int].0, s[p as int].1), (s[i].0, s[i].1)));
                        assert(!key_lt((s[p as int].0, s[p as int].1), k));
                    }
                }
            }
            self.entries.insert(p, (step, index, 1));
            proof {
                let s2 = self.entries@;
                assert(s2 == s.insert(p as int, (step, index, 1)));
                let m2 = m.insert(k, 1);
                assert(keys_ascending(s2)) by {
                    assert forall|i: int, j: int| 0 <= i < j < s2.len() implies key_lt(
                        (s2[i].0, s2[i].1),
                        (s2[j].0, s2[j].1),
                    ) by {
                        if j < p {
                            assert(key_lt((s[i].0, s[i].1), (s[j].0, s[j].1)));
                        } else if j == p {
                            assert(key_lt((s[i].0, s[i].1), k));
                        } else if i == p {
                            assert(s2[j] == s[j - 1]);
                            assert(!key_lt((s[p as int].0, s[p as int].1), k));
                            if j - 1 > p {
                                assert(key_lt((s[p as int].0, s[p as int].1), (s[j - 1].0, s[j - 1].1)));
                            }
                        } else if i < p {
                            assert(s2[j] == s[j - 1]);
                            assert(key_lt((s[i].0, s[i].1), (s[j - 1].0, s[j - 1].1)));
                        } else {
                            assert(s2[i] == s[i - 1]);
                            assert(s2[j] == s[j - 1]);
                            assert(key_lt((s[i - 1].0, s[i - 1].1), (s[j - 1].0, s[j - 1].1)));
                        }
                    }
                }
                assert forall|i: int| 0 <= i < s2.len() implies #[trigger] m2.contains_key(
                    (s2[i].0, s2[i].1),
                ) && m2[(s2[i].0, s2[i].1)] == s2[i].2 by {
                    if i < p {
                        assert(s2[i] == s[i]);
                        assert(m.contains_key((s[i].0, s[i].1)));
                        assert((s[i].0, s[i].1) != k) by {
                            assert(key_lt((s[i].0, s[i].1), k));
                        }
                    } else if i > p {
                        assert(s2[i] == s[i - 1]);
                        assert(m.contains_key((s[i - 1].0, s[i - 1].1)));
                        assert((s[i - 1].0, s[i - 1].1) != k) by {
                            assert(!m.contains_key(k));
                        }
                    }
                }
                assert forall|j: (i32, i32)| #[trigger] m2.contains_key(j) implies exists|i: int|
                    0 <= i < s2.len() && (#[trigger] s2[i].0, s2[i].1) == j by {
                    if j == k {
                        assert((s2[p as int].0, s2[p as int].1) == j);
                    } else {
                        let i = choose|i: int| 0 <= i < s.len() && (#[trigger] s[i].0, s[i].1) == j;
                        if i < p {
                            assert(s2[i] == s[i]);
                        } else {
                            assert(s2[i + 1] == s[i]);
                        }
                    }
                }
                lemma_map_eq(s2, m2);
            }
        }
    }

    /// The number of (step, index) pairs counted.
    pub fn len(&self) -> (r: usize)
        requires
            self.wf(),
        ensures
            r == self@.dom().len(),
    {
        proof {
            self.lemma_entries();
        }
        self.entries.len()
    }

    /// The counted (step, index) pairs with their counts, ascending.
    pub fn sorted_entries(&self) -> (r: Vec<(i32, i32, i32)>)
        requires
            self.wf(),
        ensures
            r@ == self.entries(),
    {
        let mut r: Vec<(i32, i32, i32)> = Vec::new();
        let mut i: usize = 0;
        while i < self.entries.len()
            invariant
                i <= self.entries@.len(),
                r@ == self.entries@.take(i as int),
            decreases self.entries.len() - i,
        {
            r.push(self.entries[i]);
            i = i + 1;
            assert(r@ =~= self.entries@.take(i as int));
        }
        assert(self.entries@.take(i as int) =~= self.entries@);
        r
    }

    /// An equal copy.
    pub fn copy(&self) -> (r: StepIndexCount)
        ensures
            r.entries() == self.entries(),
            r@ == self@,
            self.wf() ==> r.wf(),
    {
        let mut entries: Vec<(i32, i32, i32)> = Vec::new();
        let mut i: usize = 0;
        while i < self.entries.len()
            invariant
                i <= self.entries@.len(),
                entries@ == self.entries@.take(i as int),
            decreases self.entries.len() - i,
        {
            entries.push(self.entries[i]);
            i = i + 1;
            assert(entries@ =~= self.entries@.take(i as int));
        }
        assert(self.entries@.take(i as int) =~= self.entries@);
        StepIndexCount { entries }
    }

    /// The only counted pair, when exactly one is.
    pub fn only_key(&self) -> (r: Option<(i32, i32)>)
        requires
            self.wf(),
        ensures
            match r {
                Some(k) => self@.dom() == set![k],
                None => self@.dom().len() != 1,
            },
    {
        proof {
            self.lemma_entries();
            lemma_entries_map(self.entries@);
        }
        if self.entries.len() == 1 {
            let e = self.entries[0];
            proof {
                let k = (e.0, e.1);
                assert(self@.dom() =~= set![k]) by {
                    assert forall|j: (i32, i32)| self@.dom().contains(j) <==> j == k by {
                        if self@.dom().contains(j) {
                            let i = choose|i: int|
                                0 <= i < self.entries@.len() && (#[trigger] self.entries@[i].0, self.entries@[i].1)
                                    == j;
                            assert(i == 0);
                        }
                        if j == k {
                            assert(self.entries@[0] == e);
                        }
                    }
                }
            }
            Some((e.0, e.1))
        } else {
            None
        }
    }
}

fn key_lt_exec(a: (i32, i32), b: (i32, i32)) -> (r: bool)
    ensures
        r == key_lt(a, b),
{
    a.0 < b.0 || (a.0 == b.0 && a.1 < b.1)
}

} // verus!
