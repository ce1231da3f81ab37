//! A deterministic set of unit identifiers, kept as a sorted vector without
//! duplicates.  Sorting the identifiers is what makes the engine's
//! unit-to-bit assignment independent of the order in which a circuit or
//! program mentions its units.

use crate::base::error::QduId;
use vstd::prelude::*;

verus! {

/// The identifiers are strictly increasing, so each occurs once.
pub open spec fn sorted_unique(s: Seq<QduId>) -> bool {
    forall|i: int, j: int| 0 <= i < j < s.len() ==> s[i].0 < s[j].0
}

/// Inserts an identifier into a sorted set, keeping it sorted and without
/// duplicates; inserting a present identifier changes nothing.
pub fn insert_id(v: &mut Vec<QduId>, id: QduId)
    requires
        sorted_unique(old(v)@),
    ensures
        sorted_unique(final(v)@),
        forall|x: QduId| #[trigger] final(v)@.contains(x) <==> (old(v)@.contains(x) || x == id),
{
    let ghost orig = v@;
    let mut pos: usize = 0;
    while pos < v.len() && v[pos].0 < id.0
        invariant
            sorted_unique(orig),
            v@ == orig,
            pos <= v@.len(),
            forall|i: int| 0 <= i < pos ==> orig[i].0 < id.0,
        decreases v@.len() - pos,
    {
        pos = pos + 1;
    }
    if pos < v.len() && v[pos].0 == id.0 {
        proof {
            assert(orig[pos as int] == id);
            assert(orig.contains(id));
        }
        return ;
    }
    v.insert(pos, id);
    proof {
        assert forall|x: QduId| #[trigger] v@.contains(x) implies (orig.contains(x) || x == id) by {
            let i = choose|i: int| 0 <= i < v@.len() && v@[i] == x;
            if i < pos {
                assert(orig[i] == x);
            } else if i > pos {
                assert(orig[i - 1] == x);
            }
        }
        assert forall|x: QduId| (orig.contains(x) || x == id) implies #[trigger] v@.contains(x) by {
            if orig.contains(x) {
                let i = choose|i: int| 0 <= i < orig.len() && orig[i] == x;
                if i < pos {
                    assert(v@[i] == x);
                } else {
                    assert(v@[i + 1] == x);
                }
            } else {
                assert(v@[pos as int] == x);
            }
        }
        assert forall|i: int, j: int| 0 <= i < j < v@.len() implies v@[i].0 < v@[j].0 by {
            if j < pos {
            } else if i >= pos + 1 {
                assert(orig[i - 1].0 < orig[j - 1].0);
            } else if j == pos {
                assert(orig[i].0 < id.0);
            } else if i == pos {
                assert(v@[j] == orig[j - 1]);
                if j - 1 > pos {
                    assert(orig[pos as int].0 < orig[j - 1].0);
                }
            } else {
                assert(orig[i].0 < id.0);
                assert(v@[j] == orig[j - 1]);
                if j - 1 > pos {
                    assert(orig[pos as int].0 < orig[j - 1].0);
                }
            }
        }
    }
}

/// The position of an identifier in the set, or `None` when it is absent.
pub fn index_of(v: &Vec<QduId>, id: &QduId) -> (r: Option<usize>)
    ensures
        match r {
            Some(i) => i < v@.len() && v@[i as int] == *id,
            None => !v@.contains(*id),
        },
{
    let mut i: usize = 0;
    while i < v.len()
        invariant
            i <= v@.len(),
            forall|j: int| 0 <= j < i ==> v@[j] != *id,
        decreases v@.len() - i,
    {
        if v[i].0 == id.0 {
            return Some(i);
        }
        i = i + 1;
    }
    proof {
        assert forall|j: int| 0 <= j < v@.len() implies v@[j] != *id by {}
    }
    None
}

} // verus!

verus! {

/// Two sorted duplicate-free identifier sets with the same members are the
/// same sequence.
pub proof fn lemma_sorted_unique_equal(a: Seq<QduId>, b: Seq<QduId>)
    requires
        sorted_unique(a),
        sorted_unique(b),
        forall|x: QduId| a.contains(x) <==> b.contains(x),
    ensures
        a =~= b,
    decreases a.len(),
{
    if a.len() == 0 {
        if b.len() > 0 {
            assert(b.contains(b[0]));
            assert(a.contains(b[0]));
        }
    } else {
        assert(a.contains(a[0]));
        assert(b.contains(a[0]));
        let i = choose|i: int| 0 <= i < b.len() && b[i] == a[0];
        assert(i == 0) by {
            if i > 0 {
                assert(b[0].0 < b[i].0);
                assert(b.contains(b[0]));
                assert(a.contains(b[0]));
                let j = choose|j: int| 0 <= j < a.len() && a[j] == b[0];
                if j > 0 {
                    assert(a[0].0 < a[j].0);
                }
            }
        }
        let at = a.subrange(1, a.len() as int);
        let bt = b.subrange(1, b.len() as int);
        assert forall|x: QduId| at.contains(x) implies bt.contains(x) by {
            let k = choose|k: int| 0 <= k < at.len() && at[k] == x;
            assert(a[k + 1] == x);
            assert(a.contains(x));
            assert(b.contains(x));
            let k2 = choose|k2: int| 0 <= k2 < b.len() && b[k2] == x;
            assert(k2 > 0) by {
                if k2 == 0 {
                    assert(b[0] == a[0]);
                    assert(a[0].0 < a[k + 1].0);
                }
            }
            assert(bt[k2 - 1] == x);
        }
        assert forall|x: QduId| bt.contains(x) implies at.contains(x) by {
            let k = choose|k: int| 0 <= k < bt.len() && bt[k] == x;
            assert(b[k + 1] == x);
            assert(b.contains(x));
            assert(a.contains(x));
            let k2 = choose|k2: int| 0 <= k2 < a.len() && a[k2] == x;
            assert(k2 > 0) by {
                if k2 == 0 {
                    assert(a[0] == b[0]);
                    assert(b[0].0 < b[k + 1].0);
                }
            }
            assert(at[k2 - 1] == x);
        }
        assert(sorted_unique(at)) by {
            assert forall|p: int, q: int| 0 <= p < q < at.len() implies at[p].0 < at[q].0 by {
                assert(a[p + 1].0 < a[q + 1].0);
            }
        }
        assert(sorted_unique(bt)) by {
            assert forall|p: int, q: int| 0 <= p < q < bt.len() implies bt[p].0 < bt[q].0 by {
                assert(b[p + 1].0 < b[q + 1].0);
            }
        }
        lemma_sorted_unique_equal(at, bt);
        assert(a =~= b) by {
            assert(a.len() == at.len() + 1 && b.len() == bt.len() + 1);
            assert(a[0] == b[0]);
            assert forall|k: int| 0 <= k < a.len() implies a[k] == b[k] by {
                if k > 0 {
                    assert(at[k - 1] == bt[k - 1]);
                }
            }
        }
    }
}

} // verus!

verus! {

/// Inserts every identifier of a list into a sorted set.
pub fn insert_all(v: &mut Vec<QduId>, ids: &Vec<QduId>)
    requires
        sorted_unique(old(v)@),
    ensures
        sorted_unique(final(v)@),
        forall|x: QduId| #[trigger] final(v)@.contains(x) <==> (old(v)@.contains(x)
            || ids@.contains(x)),
{
    let ghost pre = v@;
    let mut k: usize = 0;
    while k < ids.len()
        invariant
            k <= ids@.len(),
            sorted_unique(v@),
            forall|x: QduId| #[trigger] v@.contains(x) <==> (pre.contains(x) || ids@.subrange(
                0,
                k as int,
            ).contains(x)),
        decreases ids@.len() - k,
    {
        let id = ids[k];
        insert_id(v, id);
        proof {
            let sub = ids@.subrange(0, k + 1);
            assert(sub.drop_last() =~= ids@.subrange(0, k as int));
            assert(sub.last() == ids@[k as int]);
            assert forall|x: QduId| #[trigger] sub.contains(x) implies (ids@.subrange(
                0,
                k as int,
            ).contains(x) || x == ids@[k as int]) by {
                let i = choose|i: int| 0 <= i < sub.len() && sub[i] == x;
                if i < k {
                    assert(ids@.subrange(0, k as int)[i] == x);
                }
            }
            assert forall|x: QduId|
                (ids@.subrange(0, k as int).contains(x) || x == ids@[k as int])
                implies #[trigger] sub.contains(x) by {
                if ids@.subrange(0, k as int).contains(x) {
                    let i = choose|i: int| 0 <= i < k && ids@.subrange(0, k as int)[i] == x;
                    assert(sub[i] == x);
                } else {
                    assert(sub[k as int] == x);
                }
            }
        }
        k = k + 1;
    }
    proof {
        assert(ids@.subrange(0, ids@.len() as int) =~= ids@);
    }
}

} // verus!

verus! {

/// The distinct identifiers of a list form a set of at least `k` members:
/// some sorted duplicate-free list of at least that length holds exactly
/// the identifiers the list holds.
pub open spec fn distinct_at_least(s: Seq<QduId>, k: nat) -> bool {
    exists|u: Seq<QduId>|
        #![trigger sorted_unique(u)]
        sorted_unique(u) && (forall|x: QduId| u.contains(x) <==> s.contains(x)) && u.len() >= k
}

/// For a sorted duplicate-free list the bound is on its own length.
pub proof fn lemma_distinct_at_least_sorted(s: Seq<QduId>, k: nat)
    requires
        sorted_unique(s),
        distinct_at_least(s, k),
    ensures
        s.len() >= k,
{
    let u = choose|u: Seq<QduId>|
        #![trigger sorted_unique(u)]
        sorted_unique(u) && (forall|x: QduId| u.contains(x) <==> s.contains(x)) && u.len() >= k;
    lemma_sorted_unique_equal(u, s);
}

} // verus!
