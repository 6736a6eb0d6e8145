//! The structural validator: a well-formed pool set is non-empty and its
//! identifiers, once sorted, are exactly 1, 2, ..., N.

use vstd::multiset::Multiset;
use vstd::prelude::*;

use crate::pools::{pools_view, Pool, PoolError, PoolView};

verus! {

/// The identifiers of a pool collection, element by element.
pub open spec fn pool_ids(s: Seq<PoolView>) -> Seq<u64> {
    s.map_values(|p: PoolView| p.pool_id)
}

/// The pool at each position carries the identifier position + 1; this is
/// exactly "sorted ascending with ids 1, 2, ..., N".
pub open spec fn sequential_from_one(s: Seq<PoolView>) -> bool {
    forall|i: int| 0 <= i < s.len() ==> (#[trigger] s[i]).pool_id == i + 1
}

/// The identifier sequence 1, 2, ..., n.
pub open spec fn target_ids(n: nat) -> Seq<u64> {
    Seq::new(n, |i: int| (i + 1) as u64)
}

/// The identifiers form a permutation of 1, 2, ..., N: no duplicate, no gap,
/// and the smallest is 1.
pub open spec fn ids_complete(s: Seq<PoolView>) -> bool {
    pool_ids(s).to_multiset() == target_ids(s.len()).to_multiset()
}

/// What the validator accepts: at least one pool, identifiers a permutation
/// of 1, 2, ..., N.
pub open spec fn pools_valid(s: Seq<PoolView>) -> bool {
    s.len() > 0 && ids_complete(s)
}

/// Non-decreasing identifiers.
pub open spec fn sorted_by_id(s: Seq<PoolView>) -> bool {
    forall|a: int, b: int| 0 <= a < b < s.len() ==> s[a].pool_id <= s[b].pool_id
}

proof fn lemma_pools_view_insert(s: Seq<Pool>, pos: int, p: Pool)
    requires
        0 <= pos <= s.len(),
    ensures
        pools_view(s.insert(pos, p)) =~= pools_view(s).insert(pos, p@),
{
    s.insert_ensures(pos, p);
    pools_view(s).insert_ensures(pos, p@);
    assert forall|i: int| 0 <= i < s.len() + 1 implies pools_view(s.insert(pos, p))[i]
        == pools_view(s).insert(pos, p@)[i] by {
        if i < pos {
            assert(s.insert(pos, p)[i] == s[i]);
        } else if i == pos {
            assert(s.insert(pos, p)[i] == p);
        } else {
            assert(s.insert(pos, p)[(i - 1) + 1] == s[i - 1]);
            assert(pools_view(s).insert(pos, p@)[(i - 1) + 1] == pools_view(s)[i - 1]);
        }
    }
}

proof fn lemma_pool_ids_insert(s: Seq<PoolView>, pos: int, v: PoolView)
    requires
        0 <= pos <= s.len(),
    ensures
        pool_ids(s.insert(pos, v)) =~= pool_ids(s).insert(pos, v.pool_id),
{
    s.insert_ensures(pos, v);
    pool_ids(s).insert_ensures(pos, v.pool_id);
    assert forall|i: int| 0 <= i < s.len() + 1 implies pool_ids(s.insert(pos, v))[i] == pool_ids(
        s,
    ).insert(pos, v.pool_id)[i] by {
        if i < pos {
            assert(s.insert(pos, v)[i] == s[i]);
        } else if i == pos {
            assert(s.insert(pos, v)[i] == v);
        } else {
            assert(s.insert(pos, v)[(i - 1) + 1] == s[i - 1]);
            assert(pool_ids(s).insert(pos, v.pool_id)[(i - 1) + 1] == pool_ids(s)[i - 1]);
        }
    }
}

proof fn lemma_pools_view_drop_last(s: Seq<Pool>)
    requires
        s.len() > 0,
    ensures
        pools_view(s.drop_last()) =~= pools_view(s).drop_last(),
{
}

/// Sorts a pool collection by identifier, ascending; the result holds the
/// same pools, and the same identifiers, as the input.
fn sort_pools_by_id(pools: Vec<Pool>) -> (r: Vec<Pool>)
    ensures
        r@.len() == pools@.len(),
        pools_view(r@).to_multiset() == pools_view(pools@).to_multiset(),
        pool_ids(pools_view(r@)).to_multiset() == pool_ids(pools_view(pools@)).to_multiset(),
        sorted_by_id(pools_view(r@)),
{
    broadcast use vstd::seq_lib::group_to_multiset_ensures;
    broadcast use vstd::seq_lib::to_multiset_insert;
    broadcast use vstd::multiset::group_multiset_axioms;

    let ghost total = pools@;
    let mut rest = pools;
    let mut out: Vec<Pool> = Vec::new();
    while rest.len() > 0
        invariant
            out@.len() + rest@.len() == total.len(),
            pools_view(out@).to_multiset().add(pools_view(rest@).to_multiset()) == pools_view(
                total,
            ).to_multiset(),
            pool_ids(pools_view(out@)).to_multiset().add(
                pool_ids(pools_view(rest@)).to_multiset(),
            ) == pool_ids(pools_view(total)).to_multiset(),
            sorted_by_id(pools_view(out@)),
        decreases rest@.len(),
    {
        broadcast use vstd::seq_lib::group_to_multiset_ensures;
        broadcast use vstd::seq_lib::to_multiset_insert;
        broadcast use vstd::multiset::group_multiset_axioms;

        let ghost rest0 = rest@;
        let ghost out0 = out@;
        let p = rest.pop().unwrap();
        proof {
            assert(rest@ =~= rest0.drop_last());
            assert(rest0.remove(rest0.len() - 1) =~= rest0.drop_last());
            lemma_pools_view_drop_last(rest0);
            assert(pools_view(rest0).remove(pools_view(rest0).len() - 1) =~= pools_view(
                rest0,
            ).drop_last());
            assert(pools_view(rest0)[rest0.len() - 1] == p@);
            assert(pools_view(rest@).to_multiset() == pools_view(rest0).to_multiset().remove(p@));
            assert(pool_ids(pools_view(rest@)) =~= pool_ids(pools_view(rest0)).drop_last());
            assert(pool_ids(pools_view(rest0)).remove(pool_ids(pools_view(rest0)).len() - 1)
                =~= pool_ids(pools_view(rest0)).drop_last());
            assert(pool_ids(pools_view(rest0))[rest0.len() - 1] == p@.pool_id);
            assert(pool_ids(pools_view(rest@)).to_multiset() == pool_ids(
                pools_view(rest0),
            ).to_multiset().remove(p@.pool_id));
        }
        let mut pos: usize = 0;
        while pos < out.len() && out[pos].pool_id <= p.pool_id
            invariant
                pos <= out@.len(),
                forall|k: int|
                    0 <= k < pos ==> (#[trigger] pools_view(out@)[k]).pool_id <= p@.pool_id,
            decreases out@.len() - pos,
        {
            proof {
                assert(pools_view(out@)[pos as int] == out@[pos as int]@);
            }
            pos = pos + 1;
        }
        proof {
            assert(pos < out@.len() ==> pools_view(out@)[pos as int].pool_id > p@.pool_id);
        }
        let ghost out_before = out@;
        out.insert(pos, p);
        proof {
            lemma_pools_view_insert(out_before, pos as int, p);
            lemma_pool_ids_insert(pools_view(out_before), pos as int, p@);
            let ov = pools_view(out_before);
            let nv = pools_view(out@);
            assert(nv == ov.insert(pos as int, p@));
            ov.insert_ensures(pos as int, p@);
            assert forall|a: int, b: int| 0 <= a < b < nv.len() implies nv[a].pool_id
                <= nv[b].pool_id by {
                if b < pos {
                    assert(nv[a] == ov[a] && nv[b] == ov[b]);
                } else if b == pos {
                    assert(nv[b] == p@);
                    assert(nv[a] == ov[a]);
                } else {
                    assert(nv[b] == ov[b - 1]);
                    if a < pos {
                        assert(nv[a] == ov[a]);
                        if pos < ov.len() {
                            assert(ov[pos as int].pool_id > p@.pool_id);
                        }
                        if a < b - 1 {
                            assert(ov[a].pool_id <= ov[b - 1].pool_id);
                        }
                    } else if a == pos {
                        assert(nv[a] == p@);
                        assert(ov[pos as int].pool_id > p@.pool_id);
                        assert((pos as int) <= b - 1);
                        if (pos as int) < b - 1 {
                            assert(ov[pos as int].pool_id <= ov[b - 1].pool_id);
                        }
                    } else {
                        assert(nv[a] == ov[a - 1]);
                        assert(ov[a - 1].pool_id <= ov[b - 1].pool_id);
                    }
                }
            }
            // multiset bookkeeping
            assert(pools_view(out@).to_multiset() == pools_view(out0).to_multiset().insert(p@));
            assert(pool_ids(pools_view(out@)).to_multiset() == pool_ids(
                pools_view(out0),
            ).to_multiset().insert(p@.pool_id));
            assert(pools_view(rest0).to_multiset().count(p@) > 0) by {
                assert(pools_view(rest0)[rest0.len() - 1] == p@);
                assert(pools_view(rest0).contains(p@));
            }
            assert(pool_ids(pools_view(rest0)).to_multiset().count(p@.pool_id) > 0) by {
                assert(pool_ids(pools_view(rest0))[rest0.len() - 1] == p@.pool_id);
                assert(pool_ids(pools_view(rest0)).contains(p@.pool_id));
            }
            assert(pools_view(out@).to_multiset().add(pools_view(rest@).to_multiset())
                =~= pools_view(total).to_multiset());
            assert(pool_ids(pools_view(out@)).to_multiset().add(
                pool_ids(pools_view(rest@)).to_multiset(),
            ) =~= pool_ids(pools_view(total)).to_multiset());
        }
    }
    proof {
        assert(pools_view(rest@) =~= Seq::<PoolView>::empty());
        assert(pool_ids(pools_view(rest@)) =~= Seq::<u64>::empty());
        Seq::<PoolView>::empty().to_multiset_ensures();
        Seq::<u64>::empty().to_multiset_ensures();
        assert(pools_view(rest@).to_multiset() =~= Multiset::<PoolView>::empty());
        assert(pool_ids(pools_view(rest@)).to_multiset() =~= Multiset::<u64>::empty());
        assert(pools_view(out@).to_multiset() =~= pools_view(total).to_multiset());
        assert(pool_ids(pools_view(out@)).to_multiset() =~= pool_ids(
            pools_view(total),
        ).to_multiset());
    }
    out
}

/// A pool collection whose positions all carry identifier position + 1 has
/// identifiers forming exactly the permutation 1, 2, ..., N.
pub proof fn lemma_sequential_is_complete(s: Seq<PoolView>)
    requires
        s.len() <= usize::MAX,
        sequential_from_one(s),
    ensures
        ids_complete(s),
{
    assert(pool_ids(s) =~= target_ids(s.len()));
}

/// Sorted identifiers that form a permutation of 1, 2, ..., N stand exactly
/// at their own positions.
pub proof fn lemma_sorted_complete_is_sequential(s: Seq<PoolView>)
    requires
        s.len() <= usize::MAX,
        sorted_by_id(s),
        ids_complete(s),
    ensures
        sequential_from_one(s),
{
    let leq = |x: u64, y: u64| x <= y;
    assert(vstd::relations::total_ordering(leq)) by {
        assert(vstd::relations::reflexive(leq));
        assert(vstd::relations::antisymmetric(leq));
        assert(vstd::relations::transitive(leq));
        assert(vstd::relations::strongly_connected(leq));
    }
    assert(vstd::relations::sorted_by(pool_ids(s), leq)) by {
        assert forall|a: int, b: int| 0 <= a < b < pool_ids(s).len() implies #[trigger] leq(
            pool_ids(s)[a],
            pool_ids(s)[b],
        ) by {
            assert(s[a].pool_id <= s[b].pool_id);
        }
    }
    assert(vstd::relations::sorted_by(target_ids(s.len()), leq)) by {
        assert forall|a: int, b: int| 0 <= a < b < target_ids(s.len()).len() implies #[trigger] leq(
            target_ids(s.len())[a],
            target_ids(s.len())[b],
        ) by {
            assert(target_ids(s.len())[a] == (a + 1) as u64);
            assert(target_ids(s.len())[b] == (b + 1) as u64);
        }
    }
    vstd::seq_lib::lemma_sorted_unique(pool_ids(s), target_ids(s.len()), leq);
    assert forall|i: int| 0 <= i < s.len() implies (#[trigger] s[i]).pool_id == i + 1 by {
        assert(pool_ids(s)[i] == s[i].pool_id);
        assert(target_ids(s.len())[i] == (i + 1) as u64);
    }
}

/// Two positions carrying the same identifier rule the collection out:
/// duplicates never form a permutation of 1, 2, ..., N.
pub proof fn lemma_duplicate_id_incomplete(s: Seq<PoolView>, i: int, j: int)
    requires
        s.len() <= usize::MAX,
        0 <= i < j < s.len(),
        s[i].pool_id == s[j].pool_id,
    ensures
        !ids_complete(s),
{
    broadcast use vstd::seq_lib::group_to_multiset_ensures;
    broadcast use vstd::multiset::group_multiset_axioms;

    let ids = pool_ids(s);
    let v = s[i].pool_id;
    let s0 = ids.subrange(0, j);
    let s1 = ids.subrange(j, ids.len() as int);
    assert(ids =~= s0 + s1);
    vstd::seq_lib::lemma_multiset_commutative(s0, s1);
    assert(s0[i] == v);
    assert(s0.contains(v));
    assert(s1[0] == v);
    assert(s1.contains(v));
    assert(ids.to_multiset().count(v) >= 2);
    if ids_complete(s) {
        let t = target_ids(s.len());
        assert(t.no_duplicates()) by {
            assert forall|a: int, b: int|
                0 <= a < t.len() && 0 <= b < t.len() && a != b implies t[a] != t[b] by {
                assert(t[a] == (a + 1) as u64);
                assert(t[b] == (b + 1) as u64);
            }
        }
        t.lemma_multiset_has_no_duplicates();
        assert(t.to_multiset().count(v) >= 2);
        assert(t.to_multiset().contains(v));
        assert(false);
    }
}

/// An identifier in 1..N that no pool carries rules the collection out: a
/// gap never forms a permutation of 1, 2, ..., N.
pub proof fn lemma_missing_id_incomplete(s: Seq<PoolView>, k: u64)
    requires
        s.len() <= usize::MAX,
        1 <= k <= s.len(),
        forall|i: int| 0 <= i < s.len() ==> (#[trigger] s[i]).pool_id != k,
    ensures
        !ids_complete(s),
{
    broadcast use vstd::seq_lib::group_to_multiset_ensures;
    broadcast use vstd::multiset::group_multiset_axioms;

    let ids = pool_ids(s);
    let t = target_ids(s.len());
    assert(t[k - 1] == k);
    assert(t.contains(k));
    assert(t.to_multiset().count(k) > 0);
    assert(!ids.contains(k)) by {
        assert forall|i: int| 0 <= i < ids.len() implies ids[i] != k by {
            assert(ids[i] == s[i].pool_id);
        }
    }
    assert(ids.to_multiset().count(k) == 0);
}

/// An identifier of zero, or one beyond the collection's size, rules the
/// collection out of the permutation 1, 2, ..., N.
pub proof fn lemma_id_out_of_range_incomplete(s: Seq<PoolView>, i: int)
    requires
        s.len() <= usize::MAX,
        0 <= i < s.len(),
        s[i].pool_id == 0 || s[i].pool_id > s.len(),
    ensures
        !ids_complete(s),
{
    broadcast use vstd::seq_lib::group_to_multiset_ensures;
    broadcast use vstd::multiset::group_multiset_axioms;

    let ids = pool_ids(s);
    let v = s[i].pool_id;
    assert(ids[i] == v);
    assert(ids.contains(v));
    assert(ids.to_multiset().count(v) > 0);
    if ids_complete(s) {
        let t = target_ids(s.len());
        assert(t.to_multiset().count(v) > 0);
        assert(t.contains(v));
        let j = choose|j: int| 0 <= j < t.len() && t[j] == v;
        assert(t[j] == (j + 1) as u64);
        assert(false);
    }
}

/// The validated arrangement is unique: two collections holding the same
/// pools, each standing in the order its identifiers name, are equal. So
/// validating the same pool set twice yields the same result both times.
pub proof fn lemma_validated_order_unique(a: Seq<PoolView>, b: Seq<PoolView>)
    requires
        a.to_multiset() == b.to_multiset(),
        sequential_from_one(a),
        sequential_from_one(b),
    ensures
        a == b,
{
    broadcast use vstd::seq_lib::group_to_multiset_ensures;
    broadcast use vstd::multiset::group_multiset_axioms;

    assert(a.len() == a.to_multiset().len());
    assert(b.len() == b.to_multiset().len());
    assert forall|i: int| 0 <= i < a.len() implies a[i] == b[i] by {
        assert(a[i] == a[i]);
        assert(a.contains(a[i]));
        assert(a.to_multiset().count(a[i]) > 0);
        assert(b.to_multiset().count(a[i]) > 0);
        assert(b.contains(a[i]));
        let j = choose|j: int| 0 <= j < b.len() && b[j] == a[i];
        assert(b[j].pool_id == j + 1);
        assert(a[i].pool_id == i + 1);
        assert(j == i);
    }
    assert(a =~= b);
}

/// Checks the pool-set invariants: at least one pool, and identifiers that
/// form a permutation of 1, 2, ..., N. On success returns the pools sorted
/// ascending by identifier; on failure reports exactly why.
pub fn validate_pools(pools: Vec<Pool>) -> (r: Result<Vec<Pool>, PoolError>)
    ensures
        r is Ok <==> pools_valid(pools_view(pools@)),
        match r {
            Ok(sorted) => {
                &&& sorted@.len() == pools@.len()
                &&& pools_view(sorted@).to_multiset() == pools_view(pools@).to_multiset()
                &&& sequential_from_one(pools_view(sorted@))
            },
            Err(e) => {
                &&& (e is EmptyPools <==> pools@.len() == 0)
                &&& (e is InvalidIdSequence <==> pools@.len() > 0)
            },
        },
{
    broadcast use vstd::seq_lib::group_to_multiset_ensures;

    let ghost orig = pools@;
    if pools.len() == 0 {
        return Err(PoolError::EmptyPools);
    }
    let sorted = sort_pools_by_id(pools);
    let n: usize = sorted.len();
    let mut i: usize = 0;
    while i < n
        invariant
            i <= n,
            orig == pools@,
            n == sorted@.len(),
            n == orig.len(),
            n > 0,
            pools_view(sorted@).to_multiset() == pools_view(orig).to_multiset(),
            pool_ids(pools_view(sorted@)).to_multiset() == pool_ids(pools_view(orig)).to_multiset(),
            sorted_by_id(pools_view(sorted@)),
            forall|j: int| 0 <= j < i ==> (#[trigger] pools_view(sorted@)[j]).pool_id == j + 1,
        decreases n - i,
    {
        if sorted[i].pool_id != (i as u64) + 1 {
            proof {
                let sv = pools_view(sorted@);
                let ov = pools_view(orig);
                assert(sv[i as int] == sorted@[i as int]@);
                if ids_complete(ov) {
                    assert(ids_complete(sv)) by {
                        assert(sv.len() == ov.len());
                    }
                    lemma_sorted_complete_is_sequential(sv);
                    assert(sv[i as int].pool_id == i + 1);
                    assert(false);
                }
            }
            return Err(PoolError::InvalidIdSequence);
        }
        proof {
            assert(pools_view(sorted@)[i as int] == sorted@[i as int]@);
        }
        i = i + 1;
    }
    proof {
        let sv = pools_view(sorted@);
        let ov = pools_view(orig);
        assert(sequential_from_one(sv));
        lemma_sequential_is_complete(sv);
        assert(ids_complete(ov)) by {
            assert(sv.len() == ov.len());
        }
    }
    Ok(sorted)
}

/// True exactly when each pool stands at the position its identifier names:
/// what [`validate_pools`] guarantees of the collection it returns.
pub fn is_sequential(pools: &Vec<Pool>) -> (r: bool)
    ensures
        r == sequential_from_one(pools_view(pools@)),
{
    let mut i: usize = 0;
    while i < pools.len()
        invariant
            i <= pools@.len(),
            forall|j: int| 0 <= j < i ==> (#[trigger] pools_view(pools@)[j]).pool_id == j + 1,
        decreases pools@.len() - i,
    {
        if pools[i].pool_id != (i as u64) + 1 {
            proof {
                let sv = pools_view(pools@);
                assert(sv[i as int] == pools@[i as int]@);
                if sequential_from_one(sv) {
                    assert(sv[i as int].pool_id == i + 1);
                    assert(false);
                }
            }
            return false;
        }
        proof {
            assert(pools_view(pools@)[i as int] == pools@[i as int]@);
        }
        i = i + 1;
    }
    true
}

} // verus!
