//! Classification of the cores by frequency.
use vstd::prelude::*;

use crate::{Core, CpuInfo, DistributionCore, DistributionModel};

verus! {

/// `c` inserted into `s` after every element whose speed is at most its own,
/// scanning from the back: one step of a stable insertion sort.
pub open spec fn insert_by_speed(s: Seq<Core>, c: Core) -> Seq<Core>
    decreases s.len(),
{
    if s.len() == 0 || s.last().speed_mhz <= c.speed_mhz {
        s.push(c)
    } else {
        insert_by_speed(s.drop_last(), c).push(s.last())
    }
}

/// The cores ordered by speed, ascending; cores of equal speed keep their order.
pub open spec fn sort_by_speed(s: Seq<Core>) -> Seq<Core>
    decreases s.len(),
{
    if s.len() == 0 {
        s
    } else {
        insert_by_speed(sort_by_speed(s.drop_last()), s.last())
    }
}

pub open spec fn all_zero(s: Seq<Core>) -> bool {
    forall|i: int| 0 <= i < s.len() ==> (#[trigger] s[i]).speed_mhz == 0
}

pub open spec fn all_same_speed(s: Seq<Core>) -> bool {
    forall|i: int, j: int|
        0 <= i < s.len() && 0 <= j < s.len() ==> (#[trigger] s[i]).speed_mhz == (#[trigger] s[j]).speed_mhz
}

/// The classification of a list of cores: `Lineal` at 0 MHz when no speed is
/// known, `Lineal` at the shared speed when all agree, else `Hybrid` with the
/// cores ordered by speed.
pub open spec fn distribution_of(s: Seq<Core>) -> DistributionModel {
    if all_zero(s) {
        DistributionModel::Lineal(0)
    } else if all_same_speed(s) {
        DistributionModel::Lineal(s[0].speed_mhz)
    } else {
        DistributionModel::Hybrid(sort_by_speed(s))
    }
}

/// Inserts `c` into `v` as `insert_by_speed` does.
fn insert_core(v: &mut Vec<Core>, c: Core)
    ensures
        final(v)@ == insert_by_speed(old(v)@, c),
{
    let ghost s = v@;
    let mut j = v.len();
    assert(s.subrange(0, j as int) =~= s);
    assert(s + s.subrange(j as int, j as int) =~= s);
    while j > 0 && v[j - 1].speed_mhz > c.speed_mhz
        invariant
            v@ == s,
            j <= s.len(),
            insert_by_speed(s, c) == insert_by_speed(s.subrange(0, j as int), c) + s.subrange(
                j as int,
                s.len() as int,
            ),
        decreases j,
    {
        let ghost p = s.subrange(0, j as int);
        assert(p.drop_last() =~= s.subrange(0, j - 1));
        assert(s.subrange(j - 1, s.len() as int) =~= seq![p.last()] + s.subrange(
            j as int,
            s.len() as int,
        ));
        assert(insert_by_speed(s.subrange(0, j - 1), c).push(p.last()) + s.subrange(
            j as int,
            s.len() as int,
        ) =~= insert_by_speed(s.subrange(0, j - 1), c) + s.subrange(j - 1, s.len() as int));
        j = j - 1;
    }
    v.insert(j, c);
    assert(v@ =~= s.subrange(0, j as int).push(c) + s.subrange(j as int, s.len() as int));
}

/// The cores ordered by speed, ascending, keeping the order of equal speeds.
pub fn sorted_by_speed(cores: &[Core]) -> (r: Vec<Core>)
    ensures
        r@ == sort_by_speed(cores@),
{
    let mut r: Vec<Core> = Vec::new();
    let mut i: usize = 0;
    while i < cores.len()
        invariant
            i <= cores@.len(),
            r@ == sort_by_speed(cores@.subrange(0, i as int)),
        decreases cores@.len() - i,
    {
        assert(cores@.subrange(0, i + 1).drop_last() =~= cores@.subrange(0, i as int));
        insert_core(&mut r, cores[i]);
        i = i + 1;
    }
    assert(cores@.subrange(0, i as int) =~= cores@);
    r
}

impl CpuInfo {
    /// Classifies the cores by frequency.
    pub fn detect_distribution(cores: &[Core]) -> (r: DistributionCore)
        ensures
            r@ == distribution_of(cores@),
    {
        let mut i: usize = 0;
        while i < cores.len()
            invariant
                i <= cores@.len(),
                forall|k: int| 0 <= k < i ==> (#[trigger] cores@[k]).speed_mhz == 0,
            decreases cores@.len() - i,
        {
            if cores[i].speed_mhz != 0 {
                return detect_nonzero(cores);
            }
            i = i + 1;
        }
        DistributionCore::Lineal { mhz: 0 }
    }
}

/// Classifies cores of which at least one has a known speed.
fn detect_nonzero(cores: &[Core]) -> (r: DistributionCore)
    requires
        !all_zero(cores@),
    ensures
        r@ == distribution_of(cores@),
{
    let first = cores[0].speed_mhz;
    let mut i: usize = 1;
    while i < cores.len()
        invariant
            1 <= i <= cores@.len(),
            first == cores@[0].speed_mhz,
            forall|k: int| 0 <= k < i ==> (#[trigger] cores@[k]).speed_mhz == first,
        decreases cores@.len() - i,
    {
        if cores[i].speed_mhz != first {
            assert(cores@[0].speed_mhz != cores@[i as int].speed_mhz);
            return DistributionCore::Hybrid { groups: sorted_by_speed(cores) };
        }
        i = i + 1;
    }
    DistributionCore::Lineal { mhz: first }
}

/// The classification is `Lineal` whenever all cores share one speed (none at
/// all, or all unknown, included), and `Hybrid` exactly when two cores differ in
/// speed.
pub proof fn lemma_hybrid_iff_speeds_differ(s: Seq<Core>)
    ensures
        all_same_speed(s) ==> distribution_of(s) is Lineal,
        distribution_of(s) is Hybrid <==> exists|i: int, j: int|
            0 <= i < s.len() && 0 <= j < s.len() && #[trigger] s[i].speed_mhz
                != #[trigger] s[j].speed_mhz,
{
    if all_zero(s) {
        assert(all_same_speed(s)) by {
            assert forall|i: int, j: int| 0 <= i < s.len() && 0 <= j < s.len() implies (
            #[trigger] s[i]).speed_mhz == (#[trigger] s[j]).speed_mhz by {
                assert(s[i].speed_mhz == 0);
                assert(s[j].speed_mhz == 0);
            }
        }
    }
}

/// The cores are in ascending order of speed.
pub open spec fn speed_sorted(t: Seq<Core>) -> bool {
    forall|i: int, j: int| 0 <= i < j < t.len() ==> (#[trigger] t[i]).speed_mhz <= (#[trigger] t[j]).speed_mhz
}

proof fn lemma_insert_bound(t: Seq<Core>, c: Core, x: u32)
    requires
        forall|m: int| 0 <= m < t.len() ==> (#[trigger] t[m]).speed_mhz <= x,
        c.speed_mhz <= x,
    ensures
        forall|k: int| 0 <= k < insert_by_speed(t, c).len() ==> (#[trigger] insert_by_speed(t, c)[k]).speed_mhz <= x,
    decreases t.len(),
{
    if t.len() > 0 && t.last().speed_mhz > c.speed_mhz {
        lemma_insert_bound(t.drop_last(), c, x);
    }
}

proof fn lemma_insert_sorted(t: Seq<Core>, c: Core)
    requires
        speed_sorted(t),
    ensures
        speed_sorted(insert_by_speed(t, c)),
        insert_by_speed(t, c).to_multiset() == t.to_multiset().insert(c),
        insert_by_speed(t, c).len() == t.len() + 1,
    decreases t.len(),
{
    broadcast use vstd::seq_lib::group_to_multiset_ensures;

    if t.len() == 0 || t.last().speed_mhz <= c.speed_mhz {
    } else {
        let u = t.drop_last();
        lemma_insert_sorted(u, c);
        lemma_insert_bound(u, c, t.last().speed_mhz);
        assert(t =~= u.push(t.last()));
        assert(insert_by_speed(u, c).push(t.last()).to_multiset() =~= u.to_multiset().insert(c).insert(
            t.last(),
        ));
    }
}

/// The spec sort orders by speed and keeps every core.
pub proof fn lemma_sort_by_speed(s: Seq<Core>)
    ensures
        speed_sorted(sort_by_speed(s)),
        sort_by_speed(s).to_multiset() == s.to_multiset(),
        sort_by_speed(s).len() == s.len(),
    decreases s.len(),
{
    broadcast use vstd::seq_lib::group_to_multiset_ensures;

    if s.len() > 0 {
        lemma_sort_by_speed(s.drop_last());
        lemma_insert_sorted(sort_by_speed(s.drop_last()), s.last());
        assert(s =~= s.drop_last().push(s.last()));
    }
}

proof fn lemma_in_permutation(a: Seq<Core>, b: Seq<Core>, i: int) -> (j: int)
    requires
        a.to_multiset() == b.to_multiset(),
        0 <= i < a.len(),
    ensures
        0 <= j < b.len(),
        b[j] == a[i],
{
    broadcast use vstd::seq_lib::group_to_multiset_ensures;

    assert(a.contains(a[i]));
    assert(a.to_multiset().count(a[i]) > 0);
    assert(b.contains(a[i]));
    choose|j: int| 0 <= j < b.len() && b[j] == a[i]
}

proof fn lemma_sorted_same_speeds(x: Seq<Core>, y: Seq<Core>)
    requires
        speed_sorted(x),
        speed_sorted(y),
        x.to_multiset() == y.to_multiset(),
    ensures
        x.len() == y.len(),
        forall|k: int| 0 <= k < x.len() ==> (#[trigger] x[k]).speed_mhz == y[k].speed_mhz,
    decreases x.len(),
{
    broadcast use vstd::seq_lib::group_to_multiset_ensures;
    broadcast use vstd::multiset::group_multiset_axioms;

    assert(x.len() == x.to_multiset().len());
    assert(y.len() == y.to_multiset().len());
    if x.len() > 0 {
        let i = lemma_in_permutation(y, x, 0);
        let j = lemma_in_permutation(x, y, 0);
        assert(x[0].speed_mhz <= x[i].speed_mhz);
        assert(y[0].speed_mhz <= y[j].speed_mhz);
        let x1 = x.update(i, x[0]);
        let x2 = x1.update(0, y[0]);
        assert(x1.to_multiset() == x.to_multiset().insert(x[0]).remove(x[i]));
        assert(x2.to_multiset() == x1.to_multiset().insert(y[0]).remove(x1[0]));
        assert(x2.to_multiset() =~= x.to_multiset());
        assert forall|k: int| 0 <= k < x.len() implies (#[trigger] x2[k]).speed_mhz == x[k].speed_mhz by {}
        assert(x2.drop_first() =~= x2.remove(0));
        assert(y.drop_first() =~= y.remove(0));
        lemma_sorted_same_speeds(x2.drop_first(), y.drop_first());
        assert forall|k: int| 0 <= k < x.len() implies (#[trigger] x[k]).speed_mhz == y[k].speed_mhz by {
            if k > 0 {
                assert(x2.drop_first()[k - 1] == x2[k]);
                assert(y.drop_first()[k - 1] == y[k]);
            }
        }
    }
}

/// Reordering the cores changes neither the kind of layout nor its speed: a
/// `Lineal` result is the same, and `Hybrid` results list the same speeds in
/// the same order, each holding every core given.
pub proof fn lemma_distribution_order_independent(a: Seq<Core>, b: Seq<Core>)
    requires
        a.to_multiset() == b.to_multiset(),
    ensures
        distribution_of(a) is Lineal <==> distribution_of(b) is Lineal,
        distribution_of(a) is Lineal ==> distribution_of(a) == distribution_of(b),
        distribution_of(a) is Hybrid ==> ({
            let x = distribution_of(a)->Hybrid_0;
            let y = distribution_of(b)->Hybrid_0;
            &&& x.to_multiset() == a.to_multiset()
            &&& y.to_multiset() == b.to_multiset()
            &&& x.len() == y.len()
            &&& forall|k: int| 0 <= k < x.len() ==> (#[trigger] x[k]).speed_mhz == y[k].speed_mhz
        }),
{
    broadcast use vstd::seq_lib::group_to_multiset_ensures;

    assert(a.len() == a.to_multiset().len());
    assert(b.len() == b.to_multiset().len());
    assert(all_zero(a) <==> all_zero(b)) by {
        if all_zero(a) {
            assert forall|i: int| 0 <= i < b.len() implies (#[trigger] b[i]).speed_mhz == 0 by {
                let j = lemma_in_permutation(b, a, i);
            }
        }
        if all_zero(b) {
            assert forall|i: int| 0 <= i < a.len() implies (#[trigger] a[i]).speed_mhz == 0 by {
                let j = lemma_in_permutation(a, b, i);
            }
        }
    }
    assert(all_same_speed(a) <==> all_same_speed(b)) by {
        if all_same_speed(a) {
            assert forall|i: int, j: int| 0 <= i < b.len() && 0 <= j < b.len() implies (
            #[trigger] b[i]).speed_mhz == (#[trigger] b[j]).speed_mhz by {
                let p = lemma_in_permutation(b, a, i);
                let q = lemma_in_permutation(b, a, j);
                assert(a[p].speed_mhz == a[q].speed_mhz);
            }
        }
        if all_same_speed(b) {
            assert forall|i: int, j: int| 0 <= i < a.len() && 0 <= j < a.len() implies (
            #[trigger] a[i]).speed_mhz == (#[trigger] a[j]).speed_mhz by {
                let p = lemma_in_permutation(a, b, i);
                let q = lemma_in_permutation(a, b, j);
                assert(b[p].speed_mhz == b[q].speed_mhz);
            }
        }
    }
    if !all_zero(a) && all_same_speed(a) {
        let p = lemma_in_permutation(b, a, 0);
        assert(a[0].speed_mhz == a[p].speed_mhz);
    }
    lemma_sort_by_speed(a);
    lemma_sort_by_speed(b);
    if !all_same_speed(a) {
        lemma_sorted_same_speeds(sort_by_speed(a), sort_by_speed(b));
    }
}

/// When no two different cores share a speed, reordering the cores gives the
/// very same classification, core list included.
pub proof fn lemma_distribution_same_when_speeds_distinct(a: Seq<Core>, b: Seq<Core>)
    requires
        a.to_multiset() == b.to_multiset(),
        forall|i: int, j: int|
            0 <= i < a.len() && 0 <= j < a.len() && (#[trigger] a[i]).speed_mhz == (#[trigger] a[j]).speed_mhz
                ==> a[i] == a[j],
    ensures
        distribution_of(a) == distribution_of(b),
{
    broadcast use vstd::seq_lib::group_to_multiset_ensures;

    lemma_distribution_order_independent(a, b);
    if distribution_of(a) is Hybrid {
        let x = sort_by_speed(a);
        let y = sort_by_speed(b);
        lemma_sort_by_speed(a);
        lemma_sort_by_speed(b);
        assert forall|k: int| 0 <= k < x.len() implies x[k] == y[k] by {
            let p = lemma_in_permutation(x, a, k);
            let q = lemma_in_permutation(y, a, k);
            assert(a[p].speed_mhz == a[q].speed_mhz);
        }
        assert(x =~= y);
    }
}

} // verus!
