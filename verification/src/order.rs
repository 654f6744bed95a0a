//! Sorting and picking.

use crate::reading::Reading;
use vstd::prelude::*;
use vstd::relations::{sorted_by, total_ordering};

verus! {

/// `order` lists every index of `keys` once, smallest key first, and earlier
/// index first among equal keys.
pub open spec fn is_stable_order(keys: Seq<i64>, order: Seq<usize>) -> bool {
    &&& order.len() == keys.len()
    &&& forall|a: int| 0 <= a < order.len() ==> (#[trigger] order[a]) < keys.len()
    &&& forall|a: int, b: int|
        0 <= a < b < order.len() ==> #[trigger] goes_before(keys, order[a], order[b])
}

/// Whether index `x` comes before index `y` in a stable sort by `keys`.
pub open spec fn goes_before(keys: Seq<i64>, x: usize, y: usize) -> bool {
    keys[x as int] < keys[y as int] || (keys[x as int] == keys[y as int] && x < y)
}

/// Where a new key goes: after the last entry that is not larger.
pub open spec fn slot(keys: Seq<i64>, order: Seq<usize>, key: i64) -> int
    decreases order.len(),
{
    if order.len() == 0 {
        0
    } else if keys[order.last() as int] <= key {
        order.len() as int
    } else {
        slot(keys, order.drop_last(), key)
    }
}

/// The indices of `keys` in the order a stable ascending sort puts them.
pub open spec fn stable_of(keys: Seq<i64>) -> Seq<usize>
    decreases keys.len(),
{
    if keys.len() == 0 {
        Seq::empty()
    } else {
        let rest = stable_of(keys.drop_last());
        rest.insert(slot(keys, rest, keys.last()), (keys.len() - 1) as usize)
    }
}

/// The indices of `keys` in the order a stable ascending sort puts them.
pub fn stable_order(keys: &Vec<i64>) -> (order: Vec<usize>)
    ensures
        order@ == stable_of(keys@),
        is_stable_order(keys@, order@),
{
    let mut order: Vec<usize> = Vec::new();
    let n: usize = keys.len();
    let mut i: usize = 0;
    proof {
        assert(keys@.take(0) =~= Seq::<i64>::empty());
    }
    while i < n
        invariant
            n == keys.len(),
            i <= n,
            order@ == stable_of(keys@.take(i as int)),
            order.len() == i,
            forall|a: int| 0 <= a < order.len() ==> (#[trigger] order@[a]) < i,
        decreases n - i,
    {
        let ghost seen = keys@.take(i + 1);
        let mut at: usize = order.len();
        proof {
            assert(order@.take(at as int) =~= order@);
        }
        while at > 0 && keys[order[at - 1]] > keys[i]
            invariant
                n == keys.len(),
                i < n,
                at <= order.len(),
                order.len() == i,
                seen == keys@.take(i + 1),
                forall|a: int| 0 <= a < order.len() ==> (#[trigger] order@[a]) < i,
                slot(seen, order@, keys@[i as int]) == slot(
                    seen,
                    order@.take(at as int),
                    keys@[i as int],
                ),
            decreases at,
        {
            proof {
                assert(order@.take(at as int).drop_last() =~= order@.take(at - 1));
            }
            at = at - 1;
        }
        proof {
            assert(at == slot(seen, order@, keys@[i as int]));
            assert(seen.drop_last() =~= keys@.take(i as int));
        }
        let ghost before = order@;
        order.insert(at, i);
        proof {
            assert forall|a: int| 0 <= a < order.len() implies (#[trigger] order@[a]) < i + 1 by {
                if a < at {
                    assert(order@[a] == before[a]);
                } else if a > at {
                    assert(order@[a] == before[a - 1]);
                }
            }
        }
        i = i + 1;
    }
    proof {
        assert(keys@.take(n as int) =~= keys@);
        stable_of_is_stable(keys@);
    }
    order
}

/// A stable sort lists every index once, smallest key first, and keeps equal
/// keys in the order they came.
pub proof fn stable_of_is_stable(keys: Seq<i64>)
    requires
        keys.len() <= usize::MAX,
    ensures
        is_stable_order(keys, stable_of(keys)),
    decreases keys.len(),
{
    if keys.len() > 0 {
        let shorter = keys.drop_last();
        let rest = stable_of(shorter);
        let key = keys.last();
        let n = (keys.len() - 1) as usize;
        stable_of_is_stable(shorter);
        let at = slot(keys, rest, key);
        slot_parts(keys, rest, key);
        let order = stable_of(keys);
        assert forall|a: int, b: int| 0 <= a < b < order.len() implies #[trigger] goes_before(
            keys,
            order[a],
            order[b],
        ) by {
            let ia = if a < at { a } else { a - 1 };
            let ib = if b < at { b } else { b - 1 };
            if a != at {
                assert(order[a] == rest[ia]);
                assert(rest[ia] < shorter.len());
            }
            if b != at {
                assert(order[b] == rest[ib]);
                assert(rest[ib] < shorter.len());
            }
            if a != at && b != at {
                assert(goes_before(shorter, rest[ia], rest[ib]));
            } else if b == at {
                if a < at - 1 {
                    assert(goes_before(shorter, rest[a], rest[at - 1]));
                    assert(rest[at - 1] < shorter.len());
                }
            }
        }
        assert forall|a: int| 0 <= a < order.len() implies (#[trigger] order[a]) < keys.len() by {
            if a < at {
                assert(order[a] == rest[a]);
            } else if a > at {
                assert(order[a] == rest[a - 1]);
            }
        }
    }
}

proof fn slot_parts(keys: Seq<i64>, order: Seq<usize>, key: i64)
    ensures
        0 <= slot(keys, order, key) <= order.len(),
        slot(keys, order, key) > 0 ==> keys[order[slot(keys, order, key) - 1] as int] <= key,
        forall|a: int|
            slot(keys, order, key) <= a < order.len() ==> keys[(#[trigger] order[a]) as int] > key,
    decreases order.len(),
{
    if order.len() > 0 && keys[order.last() as int] > key {
        slot_parts(keys, order.drop_last(), key);
        assert forall|a: int| slot(keys, order, key) <= a < order.len() implies keys[(
        #[trigger] order[a]) as int] > key by {
            if a < order.len() - 1 {
                assert(order.drop_last()[a] == order[a]);
            }
        }
    }
}

/// The first place of the smallest key.
pub open spec fn first_least_of(keys: Seq<i64>) -> int {
    choose|i: int| is_first_least(keys, i)
}

/// The last place of the largest key.
pub open spec fn last_greatest_of(keys: Seq<i64>) -> int {
    choose|i: int| is_last_greatest(keys, i)
}

/// `i` is the first place of the smallest key.
pub open spec fn is_first_least(keys: Seq<i64>, i: int) -> bool {
    &&& 0 <= i < keys.len()
    &&& forall|k: int| 0 <= k < keys.len() ==> keys[i] <= #[trigger] keys[k]
    &&& forall|k: int| 0 <= k < i ==> keys[i] < #[trigger] keys[k]
}

/// `i` is the last place of the largest key.
pub open spec fn is_last_greatest(keys: Seq<i64>, i: int) -> bool {
    &&& 0 <= i < keys.len()
    &&& forall|k: int| 0 <= k < keys.len() ==> keys[i] >= #[trigger] keys[k]
    &&& forall|k: int| i < k < keys.len() ==> keys[i] > #[trigger] keys[k]
}

/// The first place of the smallest key.
pub fn first_least(keys: &Vec<i64>) -> (r: Option<usize>)
    ensures
        match r {
            None => keys.len() == 0,
            Some(i) => is_first_least(keys@, i as int) && i == first_least_of(keys@),
        },
{
    if keys.len() == 0 {
        return None;
    }
    let mut best: usize = 0;
    let mut i: usize = 1;
    while i < keys.len()
        invariant
            1 <= i <= keys.len(),
            best < i,
            forall|k: int| 0 <= k < i ==> keys@[best as int] <= #[trigger] keys@[k],
            forall|k: int| 0 <= k < best ==> keys@[best as int] < #[trigger] keys@[k],
        decreases keys.len() - i,
    {
        if keys[i] < keys[best] {
            best = i;
        }
        i = i + 1;
    }
    proof {
        assert(is_first_least(keys@, best as int));
        let other = first_least_of(keys@);
        assert(is_first_least(keys@, other));
        assert(keys@[other] <= keys@[best as int] && keys@[best as int] <= keys@[other]);
    }
    Some(best)
}

/// The last place of the largest key.
pub fn last_greatest(keys: &Vec<i64>) -> (r: Option<usize>)
    ensures
        match r {
            None => keys.len() == 0,
            Some(i) => is_last_greatest(keys@, i as int) && i == last_greatest_of(keys@),
        },
{
    if keys.len() == 0 {
        return None;
    }
    let mut best: usize = 0;
    let mut i: usize = 1;
    while i < keys.len()
        invariant
            1 <= i <= keys.len(),
            best < i,
            forall|k: int| 0 <= k < i ==> keys@[best as int] >= #[trigger] keys@[k],
            forall|k: int| best < k < i ==> keys@[best as int] > #[trigger] keys@[k],
        decreases keys.len() - i,
    {
        if keys[i] >= keys[best] {
            best = i;
        }
        i = i + 1;
    }
    proof {
        assert(is_last_greatest(keys@, best as int));
        let other = last_greatest_of(keys@);
        assert(is_last_greatest(keys@, other));
        assert(keys@[other] <= keys@[best as int] && keys@[best as int] <= keys@[other]);
    }
    Some(best)
}

/// Where each of the numbers stands among the numbers.
pub open spec fn ranks_of(v: Seq<Reading>) -> Seq<i64> {
    Seq::new(v.len(), |i: int| v[i].rank() as i64)
}

/// Where each of the readings stands in the total order.
pub open spec fn places_of(v: Seq<Reading>) -> Seq<i64> {
    Seq::new(v.len(), |i: int| v[i].place() as i64)
}

/// Where each of the numbers stands among the numbers.
pub fn ranks(v: &Vec<Reading>) -> (r: Vec<i64>)
    ensures
        r@ == ranks_of(v@),
{
    let mut out: Vec<i64> = Vec::new();
    let mut i: usize = 0;
    while i < v.len()
        invariant
            i <= v.len(),
            out@ == ranks_of(v@.take(i as int)),
        decreases v.len() - i,
    {
        out.push(v[i].standing());
        i = i + 1;
        proof {
            assert(out@ =~= ranks_of(v@.take(i as int)));
        }
    }
    proof {
        assert(v@.take(i as int) =~= v@);
    }
    out
}

/// Where each of the readings stands in the total order.
pub fn places(v: &Vec<Reading>) -> (r: Vec<i64>)
    ensures
        r@ == places_of(v@),
{
    let mut out: Vec<i64> = Vec::new();
    let mut i: usize = 0;
    while i < v.len()
        invariant
            i <= v.len(),
            out@ == places_of(v@.take(i as int)),
        decreases v.len() - i,
    {
        out.push(v[i].key());
        i = i + 1;
        proof {
            assert(out@ =~= places_of(v@.take(i as int)));
        }
    }
    proof {
        assert(v@.take(i as int) =~= v@);
    }
    out
}

/// The finite readings of a list, in order.
pub open spec fn finite_of(v: Seq<Reading>) -> Seq<Reading> {
    v.filter(|r: Reading| r.finite())
}

/// The readings in ascending total order.
pub open spec fn ascending(v: Seq<Reading>) -> Seq<Reading> {
    v.sort_by(|a: Reading, b: Reading| a.place() <= b.place())
}

/// The finite readings of a list, in order.
pub fn keep_finite(v: &Vec<Reading>) -> (r: Vec<Reading>)
    ensures
        r@ == finite_of(v@),
{
    let mut out: Vec<Reading> = Vec::new();
    let mut i: usize = 0;
    proof {
        reveal(Seq::filter);
        assert(v@.take(0) =~= Seq::<Reading>::empty());
        assert(finite_of(v@.take(0)) =~= Seq::<Reading>::empty());
    }
    while i < v.len()
        invariant
            i <= v.len(),
            out@ == finite_of(v@.take(i as int)),
        decreases v.len() - i,
    {
        proof {
            reveal(Seq::filter);
            assert(v@.take(i + 1).drop_last() =~= v@.take(i as int));
        }
        if v[i].is_finite() {
            out.push(v[i]);
        }
        i = i + 1;
    }
    proof {
        assert(v@.take(i as int) =~= v@);
    }
    out
}

/// The readings in ascending total order.
pub fn sort(v: &Vec<Reading>) -> (r: Vec<Reading>)
    ensures
        r@ == ascending(v@),
{
    let ghost leq = |a: Reading, b: Reading| a.place() <= b.place();
    let mut out: Vec<Reading> = Vec::new();
    let mut i: usize = 0;
    proof {
        assert(v@.take(0) =~= out@);
    }
    while i < v.len()
        invariant
            i <= v.len(),
            out.len() == i,
            leq == (|a: Reading, b: Reading| a.place() <= b.place()),
            sorted_by(out@, leq),
            out@.to_multiset() == v@.take(i as int).to_multiset(),
        decreases v.len() - i,
    {
        let x = v[i];
        let mut at: usize = out.len();
        while at > 0 && out[at - 1].key() > x.key()
            invariant
                at <= out.len(),
                leq == (|a: Reading, b: Reading| a.place() <= b.place()),
                sorted_by(out@, leq),
                forall|a: int| at <= a < out.len() ==> (#[trigger] out@[a]).place() > x.place(),
            decreases at,
        {
            at = at - 1;
        }
        let ghost before = out@;
        out.insert(at, x);
        proof {
            assert forall|a: int, b: int| 0 <= a < b < out.len() implies #[trigger] leq(out@[a], out@[b]) by {
                let ia = if a < at { a } else { a - 1 };
                let ib = if b < at { b } else { b - 1 };
                if a != at && b != at {
                    assert(leq(before[ia], before[ib]));
                } else if b == at && a < at - 1 {
                    assert(leq(before[a], before[at - 1]));
                }
            }
            vstd::seq_lib::to_multiset_insert(before, at as int, x);
            vstd::seq_lib::to_multiset_build(v@.take(i as int), x);
            assert(v@.take(i + 1) =~= v@.take(i as int).push(x));
        }
        i = i + 1;
    }
    proof {
        assert(v@.take(i as int) =~= v@);
        ascending_is_sorted(v@);
        vstd::seq_lib::lemma_sorted_unique(out@, ascending(v@), leq);
    }
    out
}

/// The sorted list holds the same readings, each below the next.
pub proof fn ascending_is_sorted(v: Seq<Reading>)
    ensures
        ascending(v).to_multiset() == v.to_multiset(),
        ascending(v).len() == v.len(),
        sorted_by(ascending(v), |a: Reading, b: Reading| a.place() <= b.place()),
        total_ordering(|a: Reading, b: Reading| a.place() <= b.place()),
{
    let leq = |a: Reading, b: Reading| a.place() <= b.place();
    assert(total_ordering(leq)) by {
        assert forall|a: Reading, b: Reading| #[trigger] leq(a, b) && #[trigger] leq(b, a) implies a
            == b by {
            crate::reading::place_is_unique(a, b);
        }
    }
    v.lemma_sort_by_ensures(leq);
    vstd::seq_lib::to_multiset_len(v);
    vstd::seq_lib::to_multiset_len(ascending(v));
}

/// The middle of a list: nothing of an empty one, one reading of an odd
/// number, two of an even number.
#[derive(Clone, Copy, Debug, PartialEq, Eq, Structural)]
pub enum Middle {
    Nothing,
    One(Reading),
    Two(Reading, Reading),
}

/// The middle of the finite readings of a list.
pub open spec fn median_of(v: Seq<Reading>) -> Middle {
    let sorted = ascending(finite_of(v));
    let n = sorted.len() as int;
    if n == 0 {
        Middle::Nothing
    } else if n % 2 == 0 {
        Middle::Two(sorted[n / 2 - 1], sorted[n / 2])
    } else {
        Middle::One(sorted[n / 2])
    }
}

/// The middle of the finite readings of a list.
pub fn median(v: &Vec<Reading>) -> (r: Middle)
    ensures
        r == median_of(v@),
{
    let sorted = sort(&keep_finite(v));
    let n: usize = sorted.len();
    if n == 0 {
        Middle::Nothing
    } else if n % 2 == 0 {
        Middle::Two(sorted[n / 2 - 1], sorted[n / 2])
    } else {
        Middle::One(sorted[n / 2])
    }
}

/// The upper middle of a list, in the total order of its readings.
pub open spec fn upper_median_of(v: Seq<Reading>) -> Option<Reading> {
    if v.len() == 0 {
        None
    } else {
        Some(ascending(v)[v.len() as int / 2])
    }
}

/// The upper middle of a list, in the total order of its readings.
pub fn upper_median(v: &Vec<Reading>) -> (r: Option<Reading>)
    ensures
        r == upper_median_of(v@),
{
    if v.len() == 0 {
        return None;
    }
    proof {
        ascending_is_sorted(v@);
    }
    let sorted = sort(v);
    Some(sorted[sorted.len() / 2])
}

/// The place of the last reading that is below every one before it and below
/// `from`: the first of the least, where any is below `from`.
pub open spec fn least_below(v: Seq<Reading>, from: Reading) -> Option<int>
    decreases v.len(),
{
    if v.len() == 0 {
        None
    } else {
        let before = least_below(v.drop_last(), from);
        let bar = match before {
            None => from,
            Some(i) => v[i],
        };
        if v.last().below(bar) {
            Some(v.len() - 1)
        } else {
            before
        }
    }
}

/// The place of the first of the least readings below `from`.
pub fn find_least(v: &Vec<Reading>, from: Reading) -> (r: Option<usize>)
    ensures
        match r {
            None => least_below(v@, from) is None,
            Some(i) => least_below(v@, from) == Some(i as int),
        },
{
    let mut best: Option<usize> = None;
    let mut bar = from;
    let mut i: usize = 0;
    proof {
        assert(v@.take(0) =~= Seq::<Reading>::empty());
    }
    while i < v.len()
        invariant
            i <= v.len(),
            match best {
                None => least_below(v@.take(i as int), from) is None && bar == from,
                Some(b) => b < i && least_below(v@.take(i as int), from) == Some(b as int) && bar
                    == v@[b as int],
            },
        decreases v.len() - i,
    {
        proof {
            assert(v@.take(i + 1).drop_last() =~= v@.take(i as int));
            assert(v@.take(i + 1).last() == v@[i as int]);
        }
        if v[i].lt(&bar) {
            best = Some(i);
            bar = v[i];
        }
        i = i + 1;
    }
    proof {
        assert(v@.take(i as int) =~= v@);
    }
    best
}

/// The place that `least_below` gives is that of a least reading, and no earlier
/// one is as low; it gives none only where no reading is below `from`.
pub proof fn least_below_is_least(v: Seq<Reading>, from: Reading)
    ensures
        match least_below(v, from) {
            None => forall|k: int| 0 <= k < v.len() ==> !(#[trigger] v[k]).below(from),
            Some(i) => {
                &&& 0 <= i < v.len()
                &&& v[i].below(from)
                &&& forall|k: int| 0 <= k < v.len() ==> !(#[trigger] v[k]).below(v[i])
                &&& forall|k: int|
                    0 <= k < i && !(#[trigger] v[k]).nan() ==> v[i].below(v[k])
            },
        },
    decreases v.len(),
{
    if v.len() > 0 {
        let shorter = v.drop_last();
        least_below_is_least(shorter, from);
        assert forall|k: int| 0 <= k < shorter.len() implies #[trigger] shorter[k] == v[k] by {}
        match least_below(shorter, from) {
            None => {
                assert forall|k: int| 0 <= k < v.len() - 1 implies !(#[trigger] v[k]).below(
                    from,
                ) by {
                    assert(shorter[k] == v[k]);
                }
            },
            Some(i) => {
                assert(shorter[i] == v[i]);
                assert forall|k: int| 0 <= k < v.len() - 1 implies !(#[trigger] v[k]).below(
                    v[i],
                ) by {
                    assert(shorter[k] == v[k]);
                }
                assert forall|k: int| 0 <= k < i && !(#[trigger] v[k]).nan() implies v[i].below(
                    v[k],
                ) by {
                    assert(shorter[k] == v[k]);
                }
            },
        }
    }
}

/// The place of the last reading that is above every one before it and above
/// `from`: the first of the greatest, where any is above `from`.
pub open spec fn greatest_above(v: Seq<Reading>, from: Reading) -> Option<int>
    decreases v.len(),
{
    if v.len() == 0 {
        None
    } else {
        let before = greatest_above(v.drop_last(), from);
        let bar = match before {
            None => from,
            Some(i) => v[i],
        };
        if bar.below(v.last()) {
            Some(v.len() - 1)
        } else {
            before
        }
    }
}

/// The place of the first of the greatest readings above `from`.
pub fn find_greatest(v: &Vec<Reading>, from: Reading) -> (r: Option<usize>)
    ensures
        match r {
            None => greatest_above(v@, from) is None,
            Some(i) => greatest_above(v@, from) == Some(i as int),
        },
{
    let mut best: Option<usize> = None;
    let mut bar = from;
    let mut i: usize = 0;
    proof {
        assert(v@.take(0) =~= Seq::<Reading>::empty());
    }
    while i < v.len()
        invariant
            i <= v.len(),
            match best {
                None => greatest_above(v@.take(i as int), from) is None && bar == from,
                Some(b) => b < i && greatest_above(v@.take(i as int), from) == Some(b as int) && bar
                    == v@[b as int],
            },
        decreases v.len() - i,
    {
        proof {
            assert(v@.take(i + 1).drop_last() =~= v@.take(i as int));
            assert(v@.take(i + 1).last() == v@[i as int]);
        }
        if bar.lt(&v[i]) {
            best = Some(i);
            bar = v[i];
        }
        i = i + 1;
    }
    proof {
        assert(v@.take(i as int) =~= v@);
    }
    best
}

/// The place that `greatest_above` gives is that of a greatest reading, and no
/// earlier one is as high; it gives none only where no reading is above `from`.
pub proof fn greatest_above_is_greatest(v: Seq<Reading>, from: Reading)
    ensures
        match greatest_above(v, from) {
            None => forall|k: int| 0 <= k < v.len() ==> !from.below(#[trigger] v[k]),
            Some(i) => {
                &&& 0 <= i < v.len()
                &&& from.below(v[i])
                &&& forall|k: int| 0 <= k < v.len() ==> !v[i].below(#[trigger] v[k])
                &&& forall|k: int|
                    0 <= k < i && !(#[trigger] v[k]).nan() ==> v[k].below(v[i])
            },
        },
    decreases v.len(),
{
    if v.len() > 0 {
        let shorter = v.drop_last();
        greatest_above_is_greatest(shorter, from);
        assert forall|k: int| 0 <= k < shorter.len() implies #[trigger] shorter[k] == v[k] by {}
        match greatest_above(shorter, from) {
            None => {
                assert forall|k: int| 0 <= k < v.len() - 1 implies !from.below(
                    #[trigger] v[k],
                ) by {
                    assert(shorter[k] == v[k]);
                }
            },
            Some(i) => {
                assert(shorter[i] == v[i]);
                assert forall|k: int| 0 <= k < v.len() - 1 implies !v[i].below(
                    #[trigger] v[k],
                ) by {
                    assert(shorter[k] == v[k]);
                }
                assert forall|k: int| 0 <= k < i && !(#[trigger] v[k]).nan() implies v[k].below(
                    v[i],
                ) by {
                    assert(shorter[k] == v[k]);
                }
            },
        }
    }
}


/// What a list is ordered by from its greatest reading down.
pub open spec fn depths_of(v: Seq<Reading>) -> Seq<i64> {
    Seq::new(v.len(), |i: int| (-1 - v[i].place()) as i64)
}

/// The places of the readings from the greatest down; those alike in order.
pub open spec fn descending_of(v: Seq<Reading>) -> Seq<usize> {
    stable_of(depths_of(v))
}

/// The places of the readings from the greatest down; those alike in order.
pub fn descending(v: &Vec<Reading>) -> (r: Vec<usize>)
    ensures
        r@ == descending_of(v@),
{
    let mut depths: Vec<i64> = Vec::new();
    let mut i: usize = 0;
    while i < v.len()
        invariant
            i <= v.len(),
            depths@ == depths_of(v@.take(i as int)),
        decreases v.len() - i,
    {
        depths.push(-1 - v[i].key());
        i = i + 1;
        proof {
            assert(depths@ =~= depths_of(v@.take(i as int)));
        }
    }
    proof {
        assert(v@.take(i as int) =~= v@);
    }
    stable_order(&depths)
}

/// A stable order holds every place.
pub proof fn every_place_is_found(keys: Seq<i64>, order: Seq<usize>, a: int)
    requires
        is_stable_order(keys, order),
        0 <= a < keys.len() <= usize::MAX,
    ensures
        exists|p: int| 0 <= p < order.len() && order[p] == a as usize,
{
    let n = keys.len();
    assert forall|i: int, j: int| 0 <= i < order.len() && 0 <= j < order.len() && i != j implies order[i]
        != order[j] by {
        if i < j {
            assert(goes_before(keys, order[i], order[j]));
        } else {
            assert(goes_before(keys, order[j], order[i]));
        }
    }
    assert(order.no_duplicates());
    order.unique_seq_to_set();
    let all = vstd::set_lib::set_int_range(0, n as int);
    vstd::set_lib::lemma_int_range(0, n as int);
    let placed = order.map_values(|x: usize| x as int);
    assert(placed.no_duplicates());
    placed.unique_seq_to_set();
    let there = placed.to_set();
    assert(there.subset_of(all)) by {
        assert forall|x: int| there.contains(x) implies all.contains(x) by {
            let p = choose|p: int| 0 <= p < placed.len() && placed[p] == x;
            assert(order[p] < n);
        }
    }
    vstd::set_lib::lemma_subset_equality(there, all);
    assert(there.contains(a));
    let p = choose|p: int| 0 <= p < placed.len() && placed[p] == a;
    assert(order[p] == a as usize);
}

/// Some key is the smallest, and one of its places is the first.
pub proof fn some_key_is_least(keys: Seq<i64>)
    requires
        keys.len() > 0,
    ensures
        is_first_least(keys, first_least_of(keys)),
    decreases keys.len(),
{
    let shorter = keys.drop_last();
    let last = keys.len() - 1;
    if last == 0 {
        assert(is_first_least(keys, 0));
    } else {
        some_key_is_least(shorter);
        let i = first_least_of(shorter);
        let best = if keys[last] < shorter[i] {
            last
        } else {
            i
        };
        assert forall|k: int| 0 <= k < keys.len() implies keys[best] <= #[trigger] keys[k] by {
            if k < last {
                assert(shorter[i] <= shorter[k]);
            }
        }
        assert forall|k: int| 0 <= k < best implies keys[best] < #[trigger] keys[k] by {
            assert(shorter[i] <= shorter[k]);
            if best == i {
                assert(shorter[i] < shorter[k]);
            }
        }
        assert(is_first_least(keys, best));
    }
}

/// Some key is the largest, and one of its places is the last.
pub proof fn some_key_is_greatest(keys: Seq<i64>)
    requires
        keys.len() > 0,
    ensures
        is_last_greatest(keys, last_greatest_of(keys)),
    decreases keys.len(),
{
    let shorter = keys.drop_last();
    let last = keys.len() - 1;
    if last == 0 {
        assert(is_last_greatest(keys, 0));
    } else {
        some_key_is_greatest(shorter);
        let i = last_greatest_of(shorter);
        let best = if keys[last] >= shorter[i] {
            last
        } else {
            i
        };
        assert forall|k: int| 0 <= k < keys.len() implies keys[best] >= #[trigger] keys[k] by {
            if k < last {
                assert(shorter[i] >= shorter[k]);
            }
        }
        assert forall|k: int| best < k < keys.len() implies keys[best] > #[trigger] keys[k] by {
            if k < last {
                assert(shorter[i] > shorter[k]);
            }
        }
        assert(is_last_greatest(keys, best));
    }
}

} // verus!
