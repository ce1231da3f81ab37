//! Results of a simulation run: the stable outcome recorded for each
//! stabilized unit.

use crate::base::error::QduId;
use crate::base::state::StableState;
use vstd::prelude::*;

verus! {

/// The mapping that a sequence of unit bindings denotes; a later binding
/// of the same unit wins.
pub open spec fn qdu_bindings_view<V>(s: Seq<(QduId, V)>) -> Map<QduId, V>
    decreases s.len(),
{
    if s.len() == 0 {
        Map::empty()
    } else {
        qdu_bindings_view(s.drop_last()).insert(s.last().0, s.last().1)
    }
}

/// Units bound only before position `i` keep their value in the whole view.
pub proof fn lemma_qdu_bindings_prefix<V>(s: Seq<(QduId, V)>, k: QduId, i: int)
    requires
        0 <= i <= s.len(),
        forall|j: int| i <= j < s.len() ==> (#[trigger] s[j]).0 != k,
    ensures
        qdu_bindings_view(s).contains_key(k) == qdu_bindings_view(s.subrange(0, i)).contains_key(k),
        qdu_bindings_view(s).contains_key(k) ==> qdu_bindings_view(s)[k] == qdu_bindings_view(
            s.subrange(0, i),
        )[k],
    decreases s.len() - i,
{
    if i < s.len() {
        let t = s.subrange(0, s.len() - 1);
        if i < s.len() - 1 {
            assert(forall|j: int| i <= j < t.len() ==> (#[trigger] t[j]).0 != k);
            lemma_qdu_bindings_prefix(t, k, i);
            assert(t.subrange(0, i) =~= s.subrange(0, i));
        } else {
            assert(t =~= s.subrange(0, i));
        }
        assert(s.drop_last() =~= t);
    } else {
        assert(s.subrange(0, i) =~= s);
    }
}

/// How many bound units a binding sequence holds: the number of positions
/// that no later binding of the same unit supersedes.
pub open spec fn bound_unit_count<V>(s: Seq<(QduId, V)>, k: int) -> nat
    decreases k,
{
    if k <= 0 {
        0
    } else {
        bound_unit_count(s, k - 1) + (if forall|j: int|
            k <= j < s.len() ==> (#[trigger] s[j]).0 != s[k - 1].0 {
            1nat
        } else {
            0nat
        })
    }
}

/// Position `i` holds the latest binding of its unit: no later binding
/// names the same unit.
pub open spec fn counted_at<V>(s: Seq<(QduId, V)>, i: int) -> bool {
    forall|j: int| i < j < s.len() ==> (#[trigger] s[j]).0 != s[i].0
}

/// Whether some binding of the sequence names the unit.
pub open spec fn has_key<V>(s: Seq<(QduId, V)>, k: QduId) -> bool {
    exists|i: int| 0 <= i < s.len() && (#[trigger] s[i]).0 == k
}

/// Whether some latest binding below position `k` names the unit.
pub open spec fn has_last_occ_below<V>(t: Seq<(QduId, V)>, key: QduId, k: int) -> bool {
    exists|i: int| 0 <= i < k && (#[trigger] t[i]).0 == key && counted_at(t, i)
}

/// The view's domain is finite and holds exactly the bound units.
proof fn lemma_view_dom<V>(s: Seq<(QduId, V)>)
    ensures
        qdu_bindings_view(s).dom().finite(),
        forall|k: QduId| #[trigger] qdu_bindings_view(s).dom().contains(k) <==> has_key(s, k),
    decreases s.len(),
{
    if s.len() == 0 {
        assert(qdu_bindings_view(s).dom() =~= Set::<QduId>::empty());
        assert forall|k: QduId| #[trigger] qdu_bindings_view(s).dom().contains(k) <==> has_key(
            s,
            k,
        ) by {}
    } else {
        let t = s.drop_last();
        let x = s.last();
        lemma_view_dom(t);
        vstd::map::axiom_map_insert_domain(qdu_bindings_view(t), x.0, x.1);
        vstd::set::axiom_set_insert_finite(qdu_bindings_view(t).dom(), x.0);
        assert forall|k: QduId| #[trigger] qdu_bindings_view(s).dom().contains(k) implies has_key(
            s,
            k,
        ) by {
            if qdu_bindings_view(t).dom().contains(k) {
                let i = choose|i: int| 0 <= i < t.len() && (#[trigger] t[i]).0 == k;
                assert(s[i] == t[i]);
            } else {
                assert(s[s.len() - 1] == x);
            }
        }
        assert forall|k: QduId| has_key(s, k) implies #[trigger] qdu_bindings_view(
            s,
        ).dom().contains(k) by {
            let i = choose|i: int| 0 <= i < s.len() && (#[trigger] s[i]).0 == k;
            if i < s.len() - 1 {
                assert(t[i] == s[i]);
                assert(has_key(t, k));
            }
        }
    }
}

/// A unit that occurs has a latest binding.
proof fn lemma_last_occ<V>(s: Seq<(QduId, V)>, key: QduId)
    requires
        has_key(s, key),
    ensures
        has_last_occ_below(s, key, s.len() as int),
    decreases s.len(),
{
    if s.len() > 0 {
        let t = s.drop_last();
        if s.last().0 == key {
            assert((#[trigger] s[s.len() - 1]).0 == key && counted_at(s, s.len() - 1));
        } else {
            assert(has_key(t, key)) by {
                let i = choose|i: int| 0 <= i < s.len() && (#[trigger] s[i]).0 == key;
                assert(i < s.len() - 1);
                assert(t[i] == s[i]);
            }
            lemma_last_occ(t, key);
            let i = choose|i: int| 0 <= i < t.len() && (#[trigger] t[i]).0 == key && counted_at(
                t,
                i,
            );
            assert(s[i] == t[i]);
            assert(counted_at(s, i)) by {
                assert forall|j: int| i < j < s.len() implies (#[trigger] s[j]).0 != s[i].0 by {
                    if j < s.len() - 1 {
                        assert(s[j] == t[j]);
                    }
                }
            }
            assert((#[trigger] s[i]).0 == key && counted_at(s, i));
        }
    }
}

/// Appending a binding uncounts exactly the latest earlier binding of the
/// same unit, if one exists.
proof fn lemma_buc_push<V>(t: Seq<(QduId, V)>, x: (QduId, V), k: int)
    requires
        0 <= k <= t.len(),
    ensures
        bound_unit_count(t.push(x), k) + (if has_last_occ_below(t, x.0, k) {
            1nat
        } else {
            0nat
        }) == bound_unit_count(t, k),
    decreases k,
{
    let s = t.push(x);
    if k > 0 {
        lemma_buc_push(t, x, k - 1);
        assert(s[k - 1] == t[k - 1]);
        let counted_s = forall|j: int| k <= j < s.len() ==> (#[trigger] s[j]).0 != s[k - 1].0;
        let counted_t = forall|j: int| k <= j < t.len() ==> (#[trigger] t[j]).0 != t[k - 1].0;
        assert(counted_s <==> (counted_t && x.0 != t[k - 1].0)) by {
            if counted_t && x.0 != t[k - 1].0 {
                assert forall|j: int| k <= j < s.len() implies (#[trigger] s[j]).0 != s[k
                    - 1].0 by {
                    if j < t.len() {
                        assert(s[j] == t[j]);
                    } else {
                        assert(s[j] == x);
                    }
                }
            }
            if counted_s {
                assert forall|j: int| k <= j < t.len() implies (#[trigger] t[j]).0 != t[k
                    - 1].0 by {
                    assert(s[j] == t[j]);
                }
                assert(s[t.len() as int] == x);
                assert(x.0 != t[k - 1].0);
            }
        }
        if counted_t && t[k - 1].0 == x.0 {
            assert(has_last_occ_below(t, x.0, k)) by {
                assert(counted_at(t, k - 1));
                assert((#[trigger] t[k - 1]).0 == x.0 && counted_at(t, k - 1));
            }
            assert(!has_last_occ_below(t, x.0, k - 1)) by {
                if has_last_occ_below(t, x.0, k - 1) {
                    let i = choose|i: int|
                        0 <= i < k - 1 && (#[trigger] t[i]).0 == x.0 && counted_at(t, i);
                    assert(t[k - 1].0 != t[i].0);
                }
            }
        } else {
            assert(has_last_occ_below(t, x.0, k) <==> has_last_occ_below(t, x.0, k - 1)) by {
                if has_last_occ_below(t, x.0, k) {
                    let i = choose|i: int|
                        0 <= i < k && (#[trigger] t[i]).0 == x.0 && counted_at(t, i);
                    if i == k - 1 {
                        assert(counted_at(t, k - 1));
                        assert(counted_t);
                    } else {
                        assert((#[trigger] t[i]).0 == x.0 && counted_at(t, i));
                    }
                }
                if has_last_occ_below(t, x.0, k - 1) {
                    let i = choose|i: int|
                        0 <= i < k - 1 && (#[trigger] t[i]).0 == x.0 && counted_at(t, i);
                    assert((#[trigger] t[i]).0 == x.0 && counted_at(t, i));
                }
            }
        }
    }
}

/// The number of latest bindings is the cardinality of the view's domain.
pub proof fn lemma_bound_unit_count_is_dom_size<V>(s: Seq<(QduId, V)>)
    ensures
        bound_unit_count(s, s.len() as int) == qdu_bindings_view(s).dom().len(),
    decreases s.len(),
{
    if s.len() == 0 {
        assert(qdu_bindings_view(s).dom() =~= Set::<QduId>::empty());
    } else {
        let t = s.drop_last();
        let x = s.last();
        lemma_bound_unit_count_is_dom_size(t);
        lemma_view_dom(t);
        vstd::map::axiom_map_insert_domain(qdu_bindings_view(t), x.0, x.1);
        vstd::set::axiom_set_insert_len(qdu_bindings_view(t).dom(), x.0);
        assert(s =~= t.push(x));
        assert(bound_unit_count(s, s.len() as int) == bound_unit_count(s, s.len() - 1) + 1) by {
            assert(forall|j: int|
                s.len() <= j < s.len() ==> (#[trigger] s[j]).0 != s[s.len() - 1].0);
        }
        lemma_buc_push(t, x, t.len() as int);
        if has_key(t, x.0) {
            lemma_last_occ(t, x.0);
        } else {
            if has_last_occ_below(t, x.0, t.len() as int) {
                let i = choose|i: int|
                    0 <= i < t.len() && (#[trigger] t[i]).0 == x.0 && counted_at(t, i);
                assert(has_key(t, x.0));
            }
        }
    }
}

/// A small association table from units to values, with the latest binding
/// of a unit in force.
#[derive(Debug, Clone, PartialEq)]
pub struct QduMap<V> {
    entries: Vec<(QduId, V)>,
}

impl<V: Copy> QduMap<V> {
    /// The mapping this table denotes.
    pub closed spec fn view_map(&self) -> Map<QduId, V> {
        qdu_bindings_view(self.entries@)
    }

    /// The recorded binding sequence, for specifications.
    pub closed spec fn spec_entries(&self) -> Seq<(QduId, V)> {
        self.entries@
    }

    /// An empty table.
    pub fn new() -> (r: Self)
        ensures
            r.view_map() == Map::<QduId, V>::empty(),
    {
        QduMap { entries: Vec::new() }
    }

    /// Binds a unit to a value, superseding any earlier binding.
    pub fn set(&mut self, k: QduId, v: V)
        ensures
            final(self).view_map() == old(self).view_map().insert(k, v),
    {
        self.entries.push((k, v));
        proof {
            assert(self.entries@.drop_last() =~= old(self).entries@);
        }
    }

    /// The value bound to a unit, if any.
    pub fn get(&self, k: &QduId) -> (r: Option<V>)
        ensures
            r == (if self.view_map().contains_key(*k) {
                Some(self.view_map()[*k])
            } else {
                Option::<V>::None
            }),
    {
        let mut i: usize = self.entries.len();
        while i > 0
            invariant
                i <= self.entries@.len(),
                forall|j: int| i <= j < self.entries@.len() ==> (#[trigger] self.entries@[j]).0
                    != *k,
            decreases i,
        {
            i = i - 1;
            if self.entries[i].0 == *k {
                proof {
                    let pre = self.entries@.subrange(0, i + 1);
                    lemma_qdu_bindings_prefix(self.entries@, *k, i + 1);
                    assert(pre.drop_last() =~= self.entries@.subrange(0, i as int));
                    assert(pre.last() == self.entries@[i as int]);
                }
                return Some(self.entries[i].1);
            }
        }
        proof {
            lemma_qdu_bindings_prefix(self.entries@, *k, 0);
            assert(self.entries@.subrange(0, 0) =~= Seq::<(QduId, V)>::empty());
        }
        None
    }

    /// The number of units bound, counting each unit once however often it
    /// was rebound.
    pub fn len(&self) -> (r: usize)
        ensures
            r == bound_unit_count(self.spec_entries(), self.spec_entries().len() as int),
            r == self.view_map().dom().len(),
    {
        proof {
            lemma_bound_unit_count_is_dom_size(self.entries@);
        }
        let mut count: usize = 0;
        let mut i: usize = 0;
        while i < self.entries.len()
            invariant
                i <= self.entries@.len(),
                count <= i,
                count == bound_unit_count(self.entries@, i as int),
            decreases self.entries@.len() - i,
        {
            let mut later = false;
            let mut j: usize = i + 1;
            while j < self.entries.len()
                invariant
                    i < self.entries@.len(),
                    i < j,
                    j <= self.entries@.len(),
                    later <==> exists|jj: int|
                        i < jj < j && (#[trigger] self.entries@[jj]).0 == self.entries@[i as int].0,
                decreases self.entries@.len() - j,
            {
                if self.entries[j].0 == self.entries[i].0 {
                    later = true;
                }
                j = j + 1;
            }
            proof {
                if !later {
                    assert forall|jj: int|
                        i + 1 <= jj < self.entries@.len() implies (#[trigger] self.entries@[jj]).0
                        != self.entries@[i as int].0 by {}
                } else {
                    let jj = choose|jj: int|
                        i < jj < self.entries@.len() && (#[trigger] self.entries@[jj]).0
                            == self.entries@[i as int].0;
                    assert(!(forall|j2: int|
                        i + 1 <= j2 < self.entries@.len() ==> (#[trigger] self.entries@[j2]).0
                            != self.entries@[i as int].0)) by {
                        assert(i + 1 <= jj < self.entries@.len() && self.entries@[jj].0
                            == self.entries@[i as int].0);
                    }
                }
            }
            if !later {
                count = count + 1;
            }
            i = i + 1;
        }
        count
    }

    /// The recorded bindings, oldest first.
    pub fn entries(&self) -> (r: &Vec<(QduId, V)>)
        ensures
            qdu_bindings_view(r@) == self.view_map(),
    {
        &self.entries
    }

    /// True when no unit is bound.
    pub fn is_empty(&self) -> (r: bool)
        ensures
            r == (self.view_map() =~= Map::<QduId, V>::empty()),
    {
        let e = self.entries.len() == 0;
        proof {
            if self.entries@.len() == 0 {
                assert(self.view_map() =~= Map::<QduId, V>::empty());
            } else {
                assert(self.view_map().contains_key(self.entries@.last().0));
            }
        }
        e
    }
}

/// The stable outcomes recorded for the units that stabilization resolved
/// during one run.
#[derive(Debug, Clone, PartialEq)]
pub struct SimulationResult {
    stable_outcomes: QduMap<StableState>,
}

impl SimulationResult {
    /// The recorded outcomes, for specifications.
    pub closed spec fn outcomes(&self) -> Map<QduId, StableState> {
        self.stable_outcomes.view_map()
    }

    /// An empty result set.
    pub fn new() -> (r: Self)
        ensures
            r.outcomes() == Map::<QduId, StableState>::empty(),
    {
        Self { stable_outcomes: QduMap::new() }
    }

    /// Records the stable outcome of one unit.
    pub fn record_stable_state(&mut self, qdu_id: QduId, state: StableState)
        ensures
            final(self).outcomes() == old(self).outcomes().insert(qdu_id, state),
    {
        self.stable_outcomes.set(qdu_id, state);
    }

    /// The outcome recorded for a unit, if it was stabilized.
    pub fn get_stable_state(&self, qdu_id: &QduId) -> (r: Option<StableState>)
        ensures
            r == (if self.outcomes().contains_key(*qdu_id) {
                Some(self.outcomes()[*qdu_id])
            } else {
                Option::<StableState>::None
            }),
    {
        self.stable_outcomes.get(qdu_id)
    }

    /// Every recorded outcome.
    pub fn all_stable_outcomes(&self) -> (r: &QduMap<StableState>)
        ensures
            r.view_map() == self.outcomes(),
    {
        &self.stable_outcomes
    }
}

} // verus!
