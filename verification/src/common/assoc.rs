//! Lists of (key, id) pairs read as maps: a later pair for a key replaces
//! an earlier one, as repeated inserts into a map do.
use vstd::prelude::*;

verus! {

/// The id that the last pair with key `k` gives, if any pair has that key.
pub open spec fn last_val<K, V>(s: Seq<(K, V)>, k: K) -> Option<V>
    decreases s.len(),
{
    if s.len() == 0 {
        None
    } else if s.last().0 == k {
        Some(s.last().1)
    } else {
        last_val(s.drop_last(), k)
    }
}

/// The id for key `k`, or 0 where no pair has that key.
pub open spec fn val_or_zero<K>(s: Seq<(K, i32)>, k: K) -> i32 {
    match last_val(s, k) {
        Some(v) => v,
        None => 0,
    }
}

/// The keys of the pairs, each once, in the order they first appear.
pub open spec fn distinct_keys<K, V>(s: Seq<(K, V)>) -> Seq<K>
    decreases s.len(),
{
    if s.len() == 0 {
        Seq::empty()
    } else {
        let d = distinct_keys(s.drop_last());
        if d.contains(s.last().0) {
            d
        } else {
            d.push(s.last().0)
        }
    }
}

/// The id of every key, each key once, in the order the keys first appear.
pub open spec fn distinct_vals<K>(s: Seq<(K, i32)>) -> Seq<i32> {
    distinct_keys(s).map_values(|k: K| val_or_zero(s, k))
}

/// The pairs of a list of (text, id) pairs, texts taken as sequences.
pub open spec fn text_pairs(v: Seq<(String, i32)>) -> Seq<(Seq<char>, i32)> {
    v.map_values(|p: (String, i32)| (p.0@, p.1))
}

/// The distinct keys of a list of pairs are exactly the keys that have a
/// value, each once.
pub proof fn lemma_distinct_keys_contains<K, V>(s: Seq<(K, V)>, k: K)
    ensures
        distinct_keys(s).contains(k) <==> last_val(s, k) is Some,
        distinct_keys(s).no_duplicates(),
    decreases s.len(),
{
    if s.len() > 0 {
        lemma_distinct_keys_contains(s.drop_last(), k);
        lemma_distinct_keys_contains(s.drop_last(), s.last().0);
        let d = distinct_keys(s.drop_last());
        if !d.contains(s.last().0) {
            assert(d.push(s.last().0).no_duplicates()) by {
                assert forall|i: int, j: int|
                    0 <= i < d.push(s.last().0).len() && 0 <= j < d.push(s.last().0).len() && i
                        != j implies d.push(s.last().0)[i] != d.push(s.last().0)[j] by {
                    if i < d.len() && j < d.len() {
                    } else if i == d.len() {
                        assert(d.contains(d[j]));
                    } else {
                        assert(d.contains(d[i]));
                    }
                }
            }
            if last_val(s, k) is Some && k != s.last().0 {
                assert(d.contains(k));
                assert(d.push(s.last().0).contains(k)) by {
                    let i = choose|i: int| 0 <= i < d.len() && d[i] == k;
                    assert(d.push(s.last().0)[i] == k);
                }
            }
            if d.push(s.last().0).contains(k) && k != s.last().0 {
                let i = choose|i: int| 0 <= i < d.push(s.last().0).len() && d.push(s.last().0)[i] == k;
                assert(d[i] == k);
            }
            assert(d.push(s.last().0)[d.len() as int] == s.last().0);
        }
    }
}

/// The id of the last pair whose text is `k`.
pub fn find_text_id(pairs: &Vec<(String, i32)>, k: &String) -> (r: Option<i32>)
    ensures
        r == last_val(text_pairs(pairs@), k@),
{
    let ghost s = text_pairs(pairs@);
    let mut i: usize = pairs.len();
    assert(s.take(i as int) =~= s);
    while i > 0
        invariant
            s == text_pairs(pairs@),
            i <= pairs@.len(),
            last_val(s, k@) == last_val(s.take(i as int), k@),
        decreases i,
    {
        assert(s.take(i as int).drop_last() =~= s.take(i - 1));
        assert(s.take(i as int).last() == s[i - 1]);
        if pairs[i - 1].0 == *k {
            return Some(pairs[i - 1].1);
        }
        i = i - 1;
    }
    assert(s.take(0) =~= Seq::<(Seq<char>, i32)>::empty());
    None
}

/// The id of the last pair whose text is `k`, or 0.
pub fn text_id_or_zero(pairs: &Vec<(String, i32)>, k: &String) -> (r: i32)
    ensures
        r == val_or_zero(text_pairs(pairs@), k@),
{
    match find_text_id(pairs, k) {
        Some(v) => v,
        None => 0,
    }
}

/// The id of every text of the list, each text once, in the order the
/// texts first appear.
pub fn text_ids(pairs: &Vec<(String, i32)>) -> (r: Vec<i32>)
    ensures
        r@ == distinct_vals(text_pairs(pairs@)),
{
    let ghost s = text_pairs(pairs@);
    let mut keys: Vec<String> = Vec::new();
    let mut i: usize = 0;
    assert(s.take(0) =~= Seq::<(Seq<char>, i32)>::empty());
    while i < pairs.len()
        invariant
            s == text_pairs(pairs@),
            i <= pairs@.len(),
            keys@.map_values(|t: String| t@) == distinct_keys(s.take(i as int)),
        decreases pairs.len() - i,
    {
        let ghost d = keys@.map_values(|t: String| t@);
        assert(s.take(i + 1).drop_last() =~= s.take(i as int));
        assert(s.take(i + 1).last() == s[i as int]);
        let mut j: usize = 0;
        let mut found = false;
        while j < keys.len()
            invariant
                d == keys@.map_values(|t: String| t@),
                j <= keys@.len(),
                i < pairs@.len(),
                s == text_pairs(pairs@),
                found ==> d.contains(s[i as int].0),
                !found ==> forall|t: int| 0 <= t < j ==> d[t] != s[i as int].0,
            decreases keys.len() - j,
        {
            if keys[j] == pairs[i].0 {
                assert(d[j as int] == s[i as int].0);
                found = true;
            }
            j = j + 1;
        }
        if !found {
            keys.push(pairs[i].0.clone());
            assert(keys@.map_values(|t: String| t@) =~= d.push(s[i as int].0));
        }
        i = i + 1;
    }
    assert(s.take(pairs@.len() as int) =~= s);
    let mut r: Vec<i32> = Vec::new();
    let mut t: usize = 0;
    while t < keys.len()
        invariant
            s == text_pairs(pairs@),
            keys@.map_values(|t: String| t@) == distinct_keys(s),
            t <= keys@.len(),
            r@ == distinct_keys(s).take(t as int).map_values(|k: Seq<char>| val_or_zero(s, k)),
        decreases keys.len() - t,
    {
        let v = text_id_or_zero(pairs, &keys[t]);
        assert(keys@[t as int]@ == distinct_keys(s)[t as int]);
        r.push(v);
        assert(distinct_keys(s).take(t + 1) =~= distinct_keys(s).take(t as int).push(
            distinct_keys(s)[t as int],
        ));
        t = t + 1;
        assert(r@ =~= distinct_keys(s).take(t as int).map_values(|k: Seq<char>| val_or_zero(s, k)));
    }
    assert(distinct_keys(s).take(keys@.len() as int) =~= distinct_keys(s));
    r
}

/// The id of the last pair whose number is `k`.
pub fn find_int_id(pairs: &Vec<(i32, i32)>, k: i32) -> (r: Option<i32>)
    ensures
        r == last_val(pairs@, k),
{
    let mut i: usize = pairs.len();
    assert(pairs@.take(i as int) =~= pairs@);
    while i > 0
        invariant
            i <= pairs@.len(),
            last_val(pairs@, k) == last_val(pairs@.take(i as int), k),
        decreases i,
    {
        assert(pairs@.take(i as int).drop_last() =~= pairs@.take(i - 1));
        assert(pairs@.take(i as int).last() == pairs@[i - 1]);
        if pairs[i - 1].0 == k {
            return Some(pairs[i - 1].1);
        }
        i = i - 1;
    }
    assert(pairs@.take(0) =~= Seq::<(i32, i32)>::empty());
    None
}

/// The id of the last pair whose number is `k`, or 0.
pub fn int_id_or_zero(pairs: &Vec<(i32, i32)>, k: i32) -> (r: i32)
    ensures
        r == val_or_zero(pairs@, k),
{
    match find_int_id(pairs, k) {
        Some(v) => v,
        None => 0,
    }
}

/// Whether `x` is among `v`.
pub fn contains_i32(v: &Vec<i32>, x: i32) -> (r: bool)
    ensures
        r == v@.contains(x),
{
    let mut i: usize = 0;
    while i < v.len()
        invariant
            i <= v@.len(),
            forall|t: int| 0 <= t < i ==> v@[t] != x,
        decreases v.len() - i,
    {
        if v[i] == x {
            return true;
        }
        i = i + 1;
    }
    false
}

/// The id of every number of the list, each number once, in the order
/// the numbers first appear.
pub fn int_ids(pairs: &Vec<(i32, i32)>) -> (r: Vec<i32>)
    ensures
        r@ == distinct_vals(pairs@),
{
    let ghost s = pairs@;
    let mut keys: Vec<i32> = Vec::new();
    let mut i: usize = 0;
    assert(s.take(0) =~= Seq::<(i32, i32)>::empty());
    while i < pairs.len()
        invariant
            s == pairs@,
            i <= pairs@.len(),
            keys@ == distinct_keys(s.take(i as int)),
        decreases pairs.len() - i,
    {
        assert(s.take(i + 1).drop_last() =~= s.take(i as int));
        assert(s.take(i + 1).last() == s[i as int]);
        if !contains_i32(&keys, pairs[i].0) {
            keys.push(pairs[i].0);
        }
        i = i + 1;
    }
    assert(s.take(pairs@.len() as int) =~= s);
    let mut r: Vec<i32> = Vec::new();
    let mut t: usize = 0;
    while t < keys.len()
        invariant
            s == pairs@,
            keys@ == distinct_keys(s),
            t <= keys@.len(),
            r@ == distinct_keys(s).take(t as int).map_values(|k: i32| val_or_zero(s, k)),
        decreases keys.len() - t,
    {
        let v = int_id_or_zero(pairs, keys[t]);
        r.push(v);
        assert(distinct_keys(s).take(t + 1) =~= distinct_keys(s).take(t as int).push(
            distinct_keys(s)[t as int],
        ));
        t = t + 1;
        assert(r@ =~= distinct_keys(s).take(t as int).map_values(|k: i32| val_or_zero(s, k)));
    }
    assert(distinct_keys(s).take(keys@.len() as int) =~= distinct_keys(s));
    r
}

/// The pair of numbers of the last entry for `k`.
pub fn find_pair_val(pairs: &Vec<(i32, (i32, i32))>, k: i32) -> (r: Option<(i32, i32)>)
    ensures
        r == last_val(pairs@, k),
{
    let mut i: usize = pairs.len();
    assert(pairs@.take(i as int) =~= pairs@);
    while i > 0
        invariant
            i <= pairs@.len(),
            last_val(pairs@, k) == last_val(pairs@.take(i as int), k),
        decreases i,
    {
        assert(pairs@.take(i as int).drop_last() =~= pairs@.take(i - 1));
        assert(pairs@.take(i as int).last() == pairs@[i - 1]);
        if pairs[i - 1].0 == k {
            return Some(pairs[i - 1].1);
        }
        i = i - 1;
    }
    assert(pairs@.take(0) =~= Seq::<(i32, (i32, i32))>::empty());
    None
}

} // verus!
