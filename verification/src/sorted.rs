//! Sorted sets of texts, in code-point order.
use vstd::prelude::*;
use crate::text::{text_before, text_eq, text_less, lemma_text_before_asymmetric,
    lemma_text_before_total, lemma_text_before_transitive, lemma_text_before_irreflexive};

verus! {

/// The texts held by a vector of strings.
pub open spec fn texts(v: Seq<String>) -> Seq<Seq<char>> {
    v.map_values(|t: String| t@)
}

/// Each text comes strictly before the next.
pub open spec fn strictly_sorted(s: Seq<Seq<char>>) -> bool {
    forall|i: int, j: int| 0 <= i < j < s.len() ==> text_before(#[trigger] s[i], #[trigger] s[j])
}

/// `k` added to a sorted set.
pub open spec fn insert_sorted(s: Seq<Seq<char>>, k: Seq<char>) -> Seq<Seq<char>>
    decreases s.len(),
{
    if s.len() == 0 {
        seq![k]
    } else if s[0] == k {
        s
    } else if text_before(k, s[0]) {
        seq![k] + s
    } else {
        seq![s[0]] + insert_sorted(s.drop_first(), k)
    }
}

/// The distinct texts of a sequence, in code-point order.
pub open spec fn sorted_distinct(keys: Seq<Seq<char>>) -> Seq<Seq<char>>
    decreases keys.len(),
{
    if keys.len() == 0 {
        Seq::empty()
    } else {
        insert_sorted(sorted_distinct(keys.drop_last()), keys.last())
    }
}

/// Inserting into a sorted set keeps it sorted and adds exactly `k`.
pub proof fn lemma_insert_sorted(s: Seq<Seq<char>>, k: Seq<char>)
    requires
        strictly_sorted(s),
    ensures
        strictly_sorted(insert_sorted(s, k)),
        forall|x: Seq<char>| #[trigger] insert_sorted(s, k).contains(x) <==> (s.contains(x) || x == k),
    decreases s.len(),
{
    if s.len() == 0 {
        assert(insert_sorted(s, k) =~= seq![k]);
        assert forall|x: Seq<char>| #[trigger] insert_sorted(s, k).contains(x) <==> (s.contains(x)
            || x == k) by {
            if x == k {
                assert(insert_sorted(s, k)[0] == x);
            }
        }
    } else if s[0] == k {
        assert forall|x: Seq<char>| #[trigger] insert_sorted(s, k).contains(x) <==> (s.contains(x)
            || x == k) by {
            if x == k {
                assert(s[0] == x);
            }
        }
    } else if text_before(k, s[0]) {
        let r = seq![k] + s;
        assert forall|i: int, j: int| 0 <= i < j < r.len() implies text_before(
            #[trigger] r[i],
            #[trigger] r[j],
        ) by {
            if i == 0 {
                if j > 1 {
                    lemma_text_before_transitive(k, s[0], s[j - 1]);
                }
            } else {
                assert(r[i] == s[i - 1] && r[j] == s[j - 1]);
            }
        }
        assert forall|x: Seq<char>| r.contains(x) <==> (s.contains(x) || x == k) by {
            if r.contains(x) {
                let i = choose|i: int| 0 <= i < r.len() && r[i] == x;
                if i > 0 {
                    assert(s[i - 1] == x);
                }
            }
            if s.contains(x) {
                let i = choose|i: int| 0 <= i < s.len() && s[i] == x;
                assert(r[i + 1] == x);
            }
            if x == k {
                assert(r[0] == x);
            }
        }
    } else {
        let t = s.drop_first();
        assert forall|i: int, j: int| 0 <= i < j < t.len() implies text_before(
            #[trigger] t[i],
            #[trigger] t[j],
        ) by {
            assert(t[i] == s[i + 1] && t[j] == s[j + 1]);
        }
        lemma_insert_sorted(t, k);
        lemma_text_before_total(k, s[0]);
        let it = insert_sorted(t, k);
        let r = seq![s[0]] + it;
        assert forall|i: int, j: int| 0 <= i < j < r.len() implies text_before(
            #[trigger] r[i],
            #[trigger] r[j],
        ) by {
            if i == 0 {
                let y = it[j - 1];
                assert(it.contains(y));
                if y == k {
                } else {
                    assert(t.contains(y));
                    let m = choose|m: int| 0 <= m < t.len() && t[m] == y;
                    assert(s[m + 1] == y);
                }
            } else {
                assert(r[i] == it[i - 1] && r[j] == it[j - 1]);
            }
        }
        assert forall|x: Seq<char>| r.contains(x) <==> (s.contains(x) || x == k) by {
            if r.contains(x) {
                let i = choose|i: int| 0 <= i < r.len() && r[i] == x;
                if i > 0 {
                    assert(it.contains(x));
                    if t.contains(x) {
                        let m = choose|m: int| 0 <= m < t.len() && t[m] == x;
                        assert(s[m + 1] == x);
                    }
                } else {
                    assert(s[0] == x);
                }
            }
            if s.contains(x) {
                let i = choose|i: int| 0 <= i < s.len() && s[i] == x;
                if i == 0 {
                    assert(r[0] == x);
                } else {
                    assert(t[i - 1] == x);
                    assert(t.contains(x));
                    assert(it.contains(x));
                    let m = choose|m: int| 0 <= m < it.len() && it[m] == x;
                    assert(r[m + 1] == x);
                }
            }
            if x == k {
                assert(it.contains(k));
                let m = choose|m: int| 0 <= m < it.len() && it[m] == x;
                assert(r[m + 1] == x);
            }
        }
    }
}

/// The distinct texts are strictly sorted and are exactly the texts of the sequence.
pub proof fn lemma_sorted_distinct(keys: Seq<Seq<char>>)
    ensures
        strictly_sorted(sorted_distinct(keys)),
        forall|x: Seq<char>| #[trigger] sorted_distinct(keys).contains(x) <==> keys.contains(x),
    decreases keys.len(),
{
    if keys.len() > 0 {
        lemma_sorted_distinct(keys.drop_last());
        lemma_insert_sorted(sorted_distinct(keys.drop_last()), keys.last());
        assert forall|x: Seq<char>| sorted_distinct(keys).contains(x) <==> keys.contains(x) by {
            if keys.drop_last().contains(x) {
                let i = choose|i: int| 0 <= i < keys.drop_last().len() && keys.drop_last()[i] == x;
                assert(keys[i] == x);
            }
            if keys.contains(x) && x != keys.last() {
                let i = choose|i: int| 0 <= i < keys.len() && keys[i] == x;
                assert(keys.drop_last()[i] == x);
            }
            if x == keys.last() {
                assert(keys[keys.len() - 1] == x);
            }
        }
    }
}

/// Inserts a text into a sorted set of strings.
pub fn insert_text_sorted(set: &mut Vec<String>, k: &str)
    ensures
        texts(final(set)@) == insert_sorted(texts(old(set)@), k@),
{
    let n = set.len();
    let mut i: usize = 0;
    let ghost s0 = texts(set@);
    assert(s0.skip(0) =~= s0);
    assert(s0.take(0) + insert_sorted(s0, k@) =~= insert_sorted(s0, k@));
    while i < n
        invariant
            n == set@.len(),
            s0 == texts(set@),
            s0 == texts(old(set)@),
            i <= n,
            insert_sorted(s0, k@) == s0.take(i as int) + insert_sorted(s0.skip(i as int), k@),
        decreases n - i,
    {
        let ghost rest = s0.skip(i as int);
        assert(rest[0] == set@[i as int]@);
        assert(rest.drop_first() =~= s0.skip(i + 1));
        if text_eq(set[i].as_str(), k) {
            assert(insert_sorted(rest, k@) == rest);
            assert(s0.take(i as int) + rest =~= s0);
            return;
        }
        if text_less(k, set[i].as_str()) {
            let ghost before = set@;
            set.insert(i, String::from_str(k));
            assert(texts(set@) =~= s0.take(i as int) + (seq![k@] + rest));
            return;
        }
        assert(s0.take(i + 1) =~= s0.take(i as int).push(rest[0]));
        assert(s0.take(i as int) + (seq![rest[0]] + insert_sorted(s0.skip(i + 1), k@)) =~= s0.take(
            i + 1,
        ) + insert_sorted(s0.skip(i + 1), k@));
        i += 1;
    }
    assert(s0.skip(n as int) =~= Seq::<Seq<char>>::empty());
    assert(s0.take(n as int) =~= s0);
    let ghost before = set@;
    set.push(String::from_str(k));
    assert(texts(set@) =~= s0 + seq![k@]);
}

} // verus!
