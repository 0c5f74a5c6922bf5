use vstd::prelude::*;
use vstd::pervasive::VecAdditionalExecFns;
use crate::kv::KvPair;

verus! {

/// The views of a sequence of pairs: each `KvPair` as (key, value).
pub open spec fn pair_views(ps: Seq<KvPair>) -> Seq<(Seq<char>, Seq<char>)> {
    ps.map_values(|p: KvPair| p@)
}

/// Some pair in `s` carries key `k`.
pub open spec fn has_key(s: Seq<(Seq<char>, Seq<char>)>, k: Seq<char>) -> bool {
    exists|i: int| 0 <= i < s.len() && s[i].0 == k
}

/// The first position of key `k` in `s` (meaningful only under `has_key`).
pub open spec fn key_index(s: Seq<(Seq<char>, Seq<char>)>, k: Seq<char>) -> int
    decreases s.len(),
{
    if s.len() == 0 {
        0
    } else if s[0].0 == k {
        0
    } else {
        1 + key_index(s.drop_first(), k)
    }
}

/// Puts `(k, v)` into `s`: overwrites the value at `k`'s first occurrence,
/// or appends the pair when the key is new.
pub open spec fn upsert(
    s: Seq<(Seq<char>, Seq<char>)>,
    k: Seq<char>,
    v: Seq<char>,
) -> Seq<(Seq<char>, Seq<char>)> {
    if has_key(s, k) {
        s.update(key_index(s, k), (k, v))
    } else {
        s.push((k, v))
    }
}

/// The request-body pairs built from the command-line pairs: every key
/// appears once, at the position of its first occurrence in the input,
/// carrying the value of its last occurrence (later duplicates overwrite
/// earlier values).
pub open spec fn dedup_pairs(ps: Seq<(Seq<char>, Seq<char>)>) -> Seq<(Seq<char>, Seq<char>)>
    decreases ps.len(),
{
    if ps.len() == 0 {
        Seq::empty()
    } else {
        upsert(dedup_pairs(ps.drop_last()), ps.last().0, ps.last().1)
    }
}

/// No two pairs in `s` share a key.
pub open spec fn distinct_keys(s: Seq<(Seq<char>, Seq<char>)>) -> bool {
    forall|i: int, j: int| 0 <= i < j < s.len() ==> s[i].0 != s[j].0
}

/// `key_index` names the first occurrence: it is in range, carries `k`,
/// and no earlier pair does.
pub proof fn lemma_key_index(s: Seq<(Seq<char>, Seq<char>)>, k: Seq<char>)
    requires
        has_key(s, k),
    ensures
        0 <= key_index(s, k) < s.len(),
        s[key_index(s, k)].0 == k,
        forall|j: int| 0 <= j < key_index(s, k) ==> s[j].0 != k,
    decreases s.len(),
{
    if s[0].0 == k {
    } else {
        let w = choose|i: int| 0 <= i < s.len() && s[i].0 == k;
        assert(s.drop_first()[w - 1].0 == k);
        assert(has_key(s.drop_first(), k));
        lemma_key_index(s.drop_first(), k);
        assert forall|j: int| 0 <= j < key_index(s, k) implies s[j].0 != k by {
            if j > 0 {
                assert(s.drop_first()[j - 1].0 != k);
            }
        }
    }
}

/// `upsert` keeps keys distinct and adds exactly the key `k`.
pub proof fn lemma_upsert_distinct(s: Seq<(Seq<char>, Seq<char>)>, k: Seq<char>, v: Seq<char>)
    requires
        distinct_keys(s),
    ensures
        distinct_keys(upsert(s, k, v)),
        forall|k2: Seq<char>|
            #[trigger] has_key(upsert(s, k, v), k2) <==> (has_key(s, k2) || k2 == k),
{
    let u = upsert(s, k, v);
    if has_key(s, k) {
        lemma_key_index(s, k);
        assert(forall|m: int| 0 <= m < u.len() ==> u[m].0 == s[m].0);
        assert forall|k2: Seq<char>| #[trigger] has_key(u, k2) <==> (has_key(s, k2) || k2 == k) by {
            if has_key(u, k2) {
                let w = choose|i: int| 0 <= i < u.len() && u[i].0 == k2;
                assert(s[w].0 == k2);
            }
            if has_key(s, k2) {
                let w = choose|i: int| 0 <= i < s.len() && s[i].0 == k2;
                assert(u[w].0 == k2);
            }
            if k2 == k {
                assert(u[key_index(s, k)].0 == k2);
            }
        }
    } else {
        assert forall|i: int, j: int| 0 <= i < j < u.len() implies u[i].0 != u[j].0 by {
            if j == s.len() {
                assert(!(0 <= i < s.len() && s[i].0 == k));
            }
        }
        assert forall|k2: Seq<char>| #[trigger] has_key(u, k2) <==> (has_key(s, k2) || k2 == k) by {
            if has_key(u, k2) {
                let w = choose|i: int| 0 <= i < u.len() && u[i].0 == k2;
                if w < s.len() {
                    assert(s[w].0 == k2);
                }
            }
            if has_key(s, k2) {
                let w = choose|i: int| 0 <= i < s.len() && s[i].0 == k2;
                assert(u[w].0 == k2);
            }
            if k2 == k {
                assert(u[s.len() as int].0 == k2);
            }
        }
    }
}

/// The deduplicated body always has distinct keys.
pub proof fn lemma_dedup_distinct(ps: Seq<(Seq<char>, Seq<char>)>)
    ensures
        distinct_keys(dedup_pairs(ps)),
    decreases ps.len(),
{
    if ps.len() == 0 {
    } else {
        lemma_dedup_distinct(ps.drop_last());
        lemma_upsert_distinct(dedup_pairs(ps.drop_last()), ps.last().0, ps.last().1);
    }
}

/// Law: a sequence of pairs with no duplicate keys goes into the request
/// body unchanged: every pair is kept as given, in its given position.
pub proof fn lemma_dedup_no_duplicates(ps: Seq<(Seq<char>, Seq<char>)>)
    requires
        distinct_keys(ps),
    ensures
        dedup_pairs(ps) == ps,
    decreases ps.len(),
{
    if ps.len() == 0 {
        assert(dedup_pairs(ps) =~= ps);
    } else {
        let front = ps.drop_last();
        let k = ps.last().0;
        lemma_dedup_no_duplicates(front);
        assert(!has_key(front, k)) by {
            if has_key(front, k) {
                let w = choose|i: int| 0 <= i < front.len() && front[i].0 == k;
                assert(ps[w].0 == ps[ps.len() - 1].0);
                assert(false);
            }
        }
        assert(dedup_pairs(ps) =~= ps);
    }
}

/// Law: the request body holds exactly the keys that appear in the
/// input: none is lost and none is invented.
pub proof fn lemma_dedup_keys(ps: Seq<(Seq<char>, Seq<char>)>)
    ensures
        forall|k: Seq<char>| #[trigger] has_key(dedup_pairs(ps), k) <==> has_key(ps, k),
    decreases ps.len(),
{
    if ps.len() == 0 {
        assert forall|k: Seq<char>| #[trigger] has_key(dedup_pairs(ps), k) <==> has_key(
            ps,
            k,
        ) by {
            if has_key(dedup_pairs(ps), k) {
                let w = choose|i: int| 0 <= i < dedup_pairs(ps).len() && dedup_pairs(ps)[i].0 == k;
                assert(false);
            }
            if has_key(ps, k) {
                let w = choose|i: int| 0 <= i < ps.len() && ps[i].0 == k;
                assert(false);
            }
        }
    } else {
        let front = ps.drop_last();
        lemma_dedup_keys(front);
        lemma_dedup_distinct(front);
        lemma_upsert_distinct(dedup_pairs(front), ps.last().0, ps.last().1);
        assert forall|k: Seq<char>| #[trigger] has_key(dedup_pairs(ps), k) <==> has_key(
            ps,
            k,
        ) by {
            assert(has_key(dedup_pairs(ps), k) <==> (has_key(dedup_pairs(front), k) || k
                == ps.last().0));
            if has_key(front, k) {
                let w = choose|i: int| 0 <= i < front.len() && front[i].0 == k;
                assert(ps[w].0 == k);
            }
            if k == ps.last().0 {
                assert(ps[ps.len() - 1].0 == k);
            }
            if has_key(ps, k) && k != ps.last().0 {
                let w = choose|i: int| 0 <= i < ps.len() && ps[i].0 == k;
                assert(w < front.len());
                assert(front[w].0 == k);
            }
        }
    }
}

/// Law: with duplicate keys the request body keeps only the value of the
/// key's last occurrence: the key is present, and every body pair with
/// that key carries that occurrence's value.
pub proof fn lemma_dedup_last_occurrence(ps: Seq<(Seq<char>, Seq<char>)>, i: int)
    requires
        0 <= i < ps.len(),
        forall|j: int| i < j < ps.len() ==> ps[j].0 != ps[i].0,
    ensures
        has_key(dedup_pairs(ps), ps[i].0),
        forall|m: int|
            0 <= m < dedup_pairs(ps).len() && dedup_pairs(ps)[m].0 == ps[i].0
                ==> dedup_pairs(ps)[m].1 == ps[i].1,
    decreases ps.len(),
{
    let d = dedup_pairs(ps);
    let front = ps.drop_last();
    let df = dedup_pairs(front);
    let lk = ps.last().0;
    let lv = ps.last().1;
    lemma_dedup_distinct(front);
    if i == ps.len() - 1 {
        if has_key(df, lk) {
            lemma_key_index(df, lk);
            let ki = key_index(df, lk);
            assert(d[ki].0 == ps[i].0);
            assert forall|m: int|
                0 <= m < d.len() && d[m].0 == ps[i].0 implies d[m].1 == ps[i].1 by {
                if m != ki {
                    assert(df[m].0 == lk);
                    assert(df[ki].0 == lk);
                    assert(false);
                }
            }
        } else {
            assert(d[df.len() as int].0 == ps[i].0);
            assert forall|m: int|
                0 <= m < d.len() && d[m].0 == ps[i].0 implies d[m].1 == ps[i].1 by {
                if m < df.len() {
                    assert(df[m].0 == lk);
                    assert(has_key(df, lk));
                    assert(false);
                }
            }
        }
    } else {
        assert(ps[ps.len() - 1].0 != ps[i].0);
        assert(front[i] == ps[i]);
        assert forall|j: int| i < j < front.len() implies front[j].0 != front[i].0 by {
            assert(front[j] == ps[j]);
        }
        lemma_dedup_last_occurrence(front, i);
        let k = ps[i].0;
        if has_key(df, lk) {
            lemma_key_index(df, lk);
            let ki = key_index(df, lk);
            let w = choose|m: int| 0 <= m < df.len() && df[m].0 == k;
            assert(w != ki);
            assert(d[w].0 == k);
            assert(has_key(d, k));
            assert forall|m: int|
                0 <= m < d.len() && d[m].0 == k implies d[m].1 == ps[i].1 by {
                assert(m != ki);
                assert(df[m].0 == k);
            }
        } else {
            let w = choose|m: int| 0 <= m < df.len() && df[m].0 == k;
            assert(d[w].0 == k);
            assert(has_key(d, k));
            assert forall|m: int|
                0 <= m < d.len() && d[m].0 == k implies d[m].1 == ps[i].1 by {
                if m == df.len() {
                    assert(d[m].0 == lk);
                    assert(false);
                }
                assert(df[m].0 == k);
            }
        }
    }
}

/// Finds the first pair in `r` whose key equals `k`, if any.
fn find_key(r: &Vec<KvPair>, k: &String) -> (res: Option<usize>)
    ensures
        res matches Some(j) ==> 0 <= j < r@.len() && r@[j as int].key@ == k@
            && (forall|t: int| 0 <= t < j ==> r@[t].key@ != k@),
        res is None ==> forall|t: int| 0 <= t < r@.len() ==> r@[t].key@ != k@,
{
    let mut j: usize = 0;
    while j < r.len()
        invariant
            0 <= j <= r@.len(),
            forall|t: int| 0 <= t < j ==> r@[t].key@ != k@,
        decreases r@.len() - j,
    {
        if r[j].key == *k {
            return Some(j);
        }
        j = j + 1;
    }
    None
}

/// Collapses the command-line pairs into the request-body pairs. Each key
/// appears once, at the position of its first occurrence, with the value
/// of its last occurrence: later duplicates overwrite earlier values.
pub fn build_body(pairs: &Vec<KvPair>) -> (r: Vec<KvPair>)
    ensures
        pair_views(r@) == dedup_pairs(pair_views(pairs@)),
        distinct_keys(pair_views(r@)),
{
    let ghost full: Seq<(Seq<char>, Seq<char>)> = pair_views(pairs@);
    let mut r: Vec<KvPair> = Vec::new();
    let mut i: usize = 0;
    proof {
        assert(pair_views(r@) =~= dedup_pairs(full.take(0)));
    }
    while i < pairs.len()
        invariant
            0 <= i <= pairs.len(),
            full == pair_views(pairs@),
            pair_views(r@) == dedup_pairs(full.take(i as int)),
        decreases pairs.len() - i,
    {
        let p = &pairs[i];
        let np = KvPair { key: p.key.clone(), value: p.value.clone() };
        let ghost rv = pair_views(r@);
        let ghost k = p.key@;
        let ghost v = p.value@;
        proof {
            assert(full.take(i + 1).drop_last() =~= full.take(i as int));
            assert(full.take(i + 1).last() == full[i as int]);
            assert(full[i as int] == pairs@[i as int]@);
            lemma_dedup_distinct(full.take(i as int));
        }
        match find_key(&r, &p.key) {
            Some(j) => {
                proof {
                    assert(rv[j as int].0 == k);
                    assert(has_key(rv, k));
                    lemma_key_index(rv, k);
                    assert(key_index(rv, k) == j);
                }
                r.set(j, np);
                proof {
                    assert(pair_views(r@) =~= rv.update(j as int, (k, v)));
                    assert(pair_views(r@) =~= dedup_pairs(full.take(i + 1)));
                }
            },
            None => {
                proof {
                    assert(!has_key(rv, k)) by {
                        if has_key(rv, k) {
                            let w = choose|t: int| 0 <= t < rv.len() && rv[t].0 == k;
                            assert(r@[w].key@ == k);
                            assert(false);
                        }
                    }
                }
                r.push(np);
                proof {
                    assert(pair_views(r@) =~= rv.push((k, v)));
                    assert(pair_views(r@) =~= dedup_pairs(full.take(i + 1)));
                }
            },
        }
        i = i + 1;
    }
    proof {
        assert(full.take(pairs@.len() as int) =~= full);
        lemma_dedup_distinct(full);
    }
    r
}

} // verus!
