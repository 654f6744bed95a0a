//! How much of the gap the recording chain is: what is fitted on what, which
//! arrivals are one, and which tail level is kept.

pub mod console;
pub mod report;

use crate::args::{nth_or, or_default};
use crate::fit::texture::among;
use crate::order::{find_least, least_below, ranks, ranks_of, stable_of, stable_order};
use crate::reading::Reading;
use crate::text::views;
use vstd::prelude::*;

verus! {

/// The velocities that the curve is fitted over.
pub open spec fn fit_velocities() -> Seq<u8> {
    seq![40u8, 70u8, 100u8, 120u8]
}

/// The highest velocity that counts as soft.
pub const SOFT_MAX: u8 = 70;

/// The most arrivals that are reported.
pub const MAX_REFLECTIONS: usize = 6;

/// The most recordings of the mechanism that are read.
pub const MAX_IMPULSIVE: usize = 24;

/// The least decay that is a reading, 0.02 s.
pub const LEAST_DECAY: u64 = 0x3f94_7ae1_47ae_147b;

/// Infinity.
pub const UNBOUNDED: u64 = 0x7ff0_0000_0000_0000;

/// Where the library, the output and the preset are.
pub struct Paths {
    pub data: String,
    pub out: String,
    pub preset: String,
}

/// Where the library, the output and the preset are: the first three arguments.
pub fn paths(args: &Vec<String>) -> (r: Paths)
    ensures
        r.data@ == or_default(views(args@), 0, "data/salamander"@),
        r.out@ == or_default(views(args@), 1, "renders/chain"@),
        r.preset@ == or_default(views(args@), 2, "presets/salamander-c5.toml"@),
{
    Paths {
        data: nth_or(args, 0, "data/salamander"),
        out: nth_or(args, 1, "renders/chain"),
        preset: nth_or(args, 2, "presets/salamander-c5.toml"),
    }
}

/// The velocities that the curve is fitted over.
pub fn velocities() -> (r: Vec<u8>)
    ensures
        r@ == fit_velocities(),
{
    vec![40u8, 70u8, 100u8, 120u8]
}

/// Every other key, from the first or from the second.
pub open spec fn every_other(keys: Seq<u8>, from: int) -> Seq<u8> {
    Seq::new(((keys.len() - from + 1) / 2) as nat, |i: int| keys[2 * i + from])
}

/// The two halves that the keys are split into: those at even places and those
/// at odd ones.
pub fn halves(keys: &Vec<u8>) -> (r: (Vec<u8>, Vec<u8>))
    ensures
        r.0@ == every_other(keys@, 0),
        r.1@ == every_other(keys@, 1),
{
    let mut even: Vec<u8> = Vec::new();
    let mut odd: Vec<u8> = Vec::new();
    let mut i: usize = 0;
    while i < keys.len()
        invariant
            i <= keys.len(),
            even.len() == (i + 1) / 2,
            odd.len() == i as int / 2,
            forall|k: int| 0 <= k < even.len() ==> (#[trigger] even@[k]) == keys@[2 * k],
            forall|k: int| 0 <= k < odd.len() ==> (#[trigger] odd@[k]) == keys@[2 * k + 1],
        decreases keys.len() - i,
    {
        if i % 2 == 0 {
            even.push(keys[i]);
        } else {
            odd.push(keys[i]);
        }
        i = i + 1;
    }
    proof {
        assert(even@ =~= every_other(keys@, 0));
        assert(odd@ =~= every_other(keys@, 1));
    }
    (even, odd)
}

/// Every key is in one of the halves, and the halves hold no key twice.
pub proof fn the_halves_share_no_key(keys: Seq<u8>, key: u8)
    requires
        forall|i: int, j: int| 0 <= i < j < keys.len() ==> keys[i] != keys[j],
    ensures
        every_other(keys, 0).len() + every_other(keys, 1).len() == keys.len(),
        keys.contains(key) <==> (every_other(keys, 0).contains(key) || every_other(
            keys,
            1,
        ).contains(key)),
        !(every_other(keys, 0).contains(key) && every_other(keys, 1).contains(key)),
{
    let a = every_other(keys, 0);
    let b = every_other(keys, 1);
    if keys.contains(key) {
        let i = choose|i: int| 0 <= i < keys.len() && keys[i] == key;
        if i % 2 == 0 {
            assert(a[i / 2] == key);
        } else {
            assert(b[i / 2] == key);
        }
    }
    if a.contains(key) {
        let i = choose|i: int| 0 <= i < a.len() && a[i] == key;
        assert(keys[2 * i] == key);
        if b.contains(key) {
            let j = choose|j: int| 0 <= j < b.len() && b[j] == key;
            assert(keys[2 * j + 1] == key);
        }
    }
    if b.contains(key) {
        let j = choose|j: int| 0 <= j < b.len() && b[j] == key;
        assert(keys[2 * j + 1] == key);
    }
}

/// What a fit is taken over.
#[derive(Clone, Copy, Debug, PartialEq, Eq, Structural)]
pub enum Layer {
    Soft,
    Loud,
}

/// Whether a velocity is in a layer.
pub open spec fn in_layer(velocity: u8, layer: Layer) -> bool {
    match layer {
        Layer::Soft => velocity <= SOFT_MAX,
        Layer::Loud => velocity > SOFT_MAX,
    }
}

/// The places of the pairs that `keep` holds of.
pub open spec fn places_where(pairs: Seq<(u8, u8)>, keep: spec_fn((u8, u8)) -> bool) -> Seq<usize>
    decreases pairs.len(),
{
    if pairs.len() == 0 {
        Seq::empty()
    } else if keep(pairs.last()) {
        places_where(pairs.drop_last(), keep).push((pairs.len() - 1) as usize)
    } else {
        places_where(pairs.drop_last(), keep)
    }
}

/// A pair of a key in a half.
pub open spec fn of_half(half: Seq<u8>) -> spec_fn((u8, u8)) -> bool {
    |p: (u8, u8)| half.contains(p.0)
}

/// A pair of a velocity in a layer.
pub open spec fn of_layer(layer: Layer) -> spec_fn((u8, u8)) -> bool {
    |p: (u8, u8)| in_layer(p.1, layer)
}

/// The places of the pairs whose key is in a half.
pub fn pick_half(pairs: &Vec<(u8, u8)>, half: &Vec<u8>) -> (r: Vec<usize>)
    ensures
        r@ == places_where(pairs@, of_half(half@)),
{
    let mut out: Vec<usize> = Vec::new();
    let mut i: usize = 0;
    proof {
        assert(pairs@.take(0) =~= Seq::<(u8, u8)>::empty());
    }
    while i < pairs.len()
        invariant
            i <= pairs.len(),
            out@ == places_where(pairs@.take(i as int), of_half(half@)),
        decreases pairs.len() - i,
    {
        proof {
            assert(pairs@.take(i + 1).drop_last() =~= pairs@.take(i as int));
            assert(pairs@.take(i + 1).last() == pairs@[i as int]);
        }
        if among(half, pairs[i].0) {
            out.push(i);
        }
        i = i + 1;
    }
    proof {
        assert(pairs@.take(i as int) =~= pairs@);
    }
    out
}

/// The places of the pairs whose velocity is in a layer.
pub fn pick_layer(pairs: &Vec<(u8, u8)>, layer: Layer) -> (r: Vec<usize>)
    ensures
        r@ == places_where(pairs@, of_layer(layer)),
{
    let mut out: Vec<usize> = Vec::new();
    let mut i: usize = 0;
    proof {
        assert(pairs@.take(0) =~= Seq::<(u8, u8)>::empty());
    }
    while i < pairs.len()
        invariant
            i <= pairs.len(),
            out@ == places_where(pairs@.take(i as int), of_layer(layer)),
        decreases pairs.len() - i,
    {
        proof {
            assert(pairs@.take(i + 1).drop_last() =~= pairs@.take(i as int));
            assert(pairs@.take(i + 1).last() == pairs@[i as int]);
        }
        let keep = match layer {
            Layer::Soft => pairs[i].1 <= SOFT_MAX,
            Layer::Loud => pairs[i].1 > SOFT_MAX,
        };
        if keep {
            out.push(i);
        }
        i = i + 1;
    }
    proof {
        assert(pairs@.take(i as int) =~= pairs@);
    }
    out
}

/// The two layers share the pairs out between them.
pub proof fn the_layers_share_the_pairs_out(pairs: Seq<(u8, u8)>)
    ensures
        places_where(pairs, of_layer(Layer::Soft)).len() + places_where(
            pairs,
            of_layer(Layer::Loud),
        ).len() == pairs.len(),
    decreases pairs.len(),
{
    if pairs.len() > 0 {
        the_layers_share_the_pairs_out(pairs.drop_last());
    }
}

/// What a recording of the mechanism is of.
#[derive(Clone, Copy, Debug, PartialEq, Eq, Structural)]
pub enum Mechanism {
    KeyOff,
    PedalDown,
    PedalUp,
    Other,
}

/// The recordings of the mechanism that are read so far: their places, of those
/// that have been looked at.
pub struct Impulsive {
    pub taken: Vec<usize>,
    pub seen: usize,
}

/// The places of the recordings that are read: those of the keys and the pedals
/// that could be loaded, until there are enough.
pub open spec fn impulsive_of(kinds: Seq<Mechanism>, loaded: Seq<bool>) -> Seq<usize>
    decreases kinds.len(),
{
    if kinds.len() == 0 {
        Seq::empty()
    } else {
        let before = impulsive_of(kinds.drop_last(), loaded);
        if before.len() < MAX_IMPULSIVE && kinds.last() != Mechanism::Other && loaded[kinds.len()
            - 1] {
            before.push((kinds.len() - 1) as usize)
        } else {
            before
        }
    }
}

impl Impulsive {
    /// What has been taken is what is read of the recordings looked at.
    pub open spec fn holds(&self, kinds: Seq<Mechanism>, loaded: Seq<bool>) -> bool {
        &&& self.seen <= kinds.len()
        &&& self.taken@ == impulsive_of(kinds.take(self.seen as int), loaded)
        &&& self.taken.len() <= MAX_IMPULSIVE
    }

    /// Nothing looked at.
    pub fn start() -> (r: Impulsive)
        ensures
            r.seen == 0,
            r.taken@ == Seq::<usize>::empty(),
            forall|kinds: Seq<Mechanism>, loaded: Seq<bool>| #[trigger] r.holds(kinds, loaded),
    {
        let r = Impulsive { taken: Vec::new(), seen: 0 };
        proof {
            assert forall|kinds: Seq<Mechanism>, loaded: Seq<bool>| #[trigger]
                r.holds(kinds, loaded) by {
                assert(kinds.take(0) =~= Seq::<Mechanism>::empty());
                assert(r.taken@ =~= Seq::<usize>::empty());
            }
        }
        r
    }

    /// The next recording to load, where one is wanted; those of other kinds are
    /// passed over.
    pub fn next(&mut self, kinds: &Vec<Mechanism>) -> (r: Option<usize>)
        ensures
            final(self).taken@ == old(self).taken@,
            old(self).seen <= kinds.len() ==> old(self).seen <= final(self).seen <= kinds.len(),
            match r {
                Some(i) => i == final(self).seen && i < kinds.len() && kinds@[i as int]
                    != Mechanism::Other && old(self).taken.len() < MAX_IMPULSIVE,
                None => old(self).taken.len() >= MAX_IMPULSIVE || final(self).seen >= kinds.len(),
            },
            forall|loaded: Seq<bool>| #[trigger]
                old(self).holds(kinds@, loaded) ==> final(self).holds(kinds@, loaded),
    {
        if self.taken.len() >= MAX_IMPULSIVE {
            return None;
        }
        let ghost start = *old(self);
        while self.seen < kinds.len() && kinds[self.seen] == Mechanism::Other
            invariant
                self.taken@ == start.taken@,
                start.seen <= self.seen,
                start.seen <= kinds.len() ==> self.seen <= kinds.len(),
                forall|loaded: Seq<bool>| #[trigger]
                    start.holds(kinds@, loaded) ==> self.holds(kinds@, loaded),
            decreases kinds.len() - self.seen,
        {
            proof {
                assert(kinds@.take(self.seen + 1).drop_last() =~= kinds@.take(self.seen as int));
            }
            self.seen = self.seen + 1;
        }
        if self.seen < kinds.len() {
            Some(self.seen)
        } else {
            None
        }
    }

    /// Takes the recording that was asked for, where it could be loaded.
    pub fn take(&mut self, kinds: &Vec<Mechanism>, could: bool)
        requires
            old(self).seen < kinds.len(),
            kinds@[old(self).seen as int] != Mechanism::Other,
            old(self).taken.len() < MAX_IMPULSIVE,
        ensures
            final(self).seen == old(self).seen + 1,
            final(self).taken@ == if could {
                old(self).taken@.push(old(self).seen)
            } else {
                old(self).taken@
            },
            forall|loaded: Seq<bool>| #[trigger]
                old(self).holds(kinds@, loaded) && loaded[old(self).seen as int] == could
                    ==> final(self).holds(kinds@, loaded),
    {
        proof {
            assert(kinds@.take(self.seen + 1).drop_last() =~= kinds@.take(self.seen as int));
        }
        if could {
            self.taken.push(self.seen);
        }
        self.seen = self.seen + 1;
    }
}

/// Once no more recordings are read, those taken are those that are read of the
/// whole library.
pub proof fn enough_is_enough(kinds: Seq<Mechanism>, loaded: Seq<bool>, n: int)
    requires
        0 <= n <= kinds.len(),
        impulsive_of(kinds.take(n), loaded).len() >= MAX_IMPULSIVE,
    ensures
        impulsive_of(kinds, loaded) == impulsive_of(kinds.take(n), loaded),
    decreases kinds.len() - n,
{
    if n < kinds.len() {
        assert(kinds.take(n + 1).drop_last() =~= kinds.take(n));
        enough_is_enough(kinds, loaded, n + 1);
    } else {
        assert(kinds.take(n) =~= kinds);
    }
}

/// Arrivals gathered into clusters: the places of the candidates, in the order
/// of their delays.
pub struct Clusters {
    pub all: Vec<Vec<usize>>,
    pub placed: usize,
}

/// The clusters of the first candidates. `near[i]` is whether candidate `i` is
/// close to the first of the last cluster before it.
pub open spec fn clusters_of(near: Seq<bool>) -> Seq<Seq<usize>>
    decreases near.len(),
{
    if near.len() == 0 {
        Seq::empty()
    } else {
        let before = clusters_of(near.drop_last());
        let i = (near.len() - 1) as usize;
        if before.len() > 0 && near.last() {
            before.update(before.len() - 1, before.last().push(i))
        } else {
            before.push(seq![i])
        }
    }
}

/// The clusters one after another.
pub open spec fn run_of_clusters(clusters: Seq<Seq<usize>>) -> Seq<usize>
    decreases clusters.len(),
{
    if clusters.len() == 0 {
        Seq::empty()
    } else {
        run_of_clusters(clusters.drop_last()) + clusters.last()
    }
}

impl Clusters {
    pub open spec fn view(&self) -> Seq<Seq<usize>> {
        Seq::new(self.all.len() as nat, |i: int| self.all@[i]@)
    }

    /// The clusters are those of the candidates placed, and none is empty.
    pub open spec fn wf(&self) -> bool {
        &&& exists|near: Seq<bool>|
            near.len() == self.placed && self@ == #[trigger] clusters_of(near)
        &&& forall|i: int| 0 <= i < self.all.len() ==> (#[trigger] self.all@[i]).len() > 0
    }

    /// No candidate placed.
    pub fn empty() -> (r: Clusters)
        ensures
            r@ == clusters_of(Seq::empty()),
            r.placed == 0,
            r.wf(),
    {
        let r = Clusters { all: Vec::new(), placed: 0 };
        proof {
            assert(r@ =~= Seq::<Seq<usize>>::empty());
            assert(r@ == clusters_of(Seq::<bool>::empty()));
        }
        r
    }

    /// The candidate that the next one is held against: the first of the last
    /// cluster.
    pub fn head(&self) -> (r: Option<usize>)
        requires
            self.wf(),
        ensures
            r == if self@.len() == 0 {
                None::<usize>
            } else {
                Some(self@.last()[0])
            },
    {
        if self.all.len() == 0 {
            None
        } else {
            Some(self.all[self.all.len() - 1][0])
        }
    }

    /// Places the next candidate.
    pub fn place(&mut self, near: bool)
        requires
            old(self).wf(),
            old(self).placed < usize::MAX,
        ensures
            final(self).wf(),
            final(self).placed == old(self).placed + 1,
            forall|before: Seq<bool>|
                before.len() == old(self).placed && old(self)@ == #[trigger] clusters_of(before)
                    ==> final(self)@ == clusters_of(before.push(near)),
    {
        let ghost old_view = self@;
        let i = self.placed;
        let n: usize = self.all.len();
        if n > 0 && near {
            let mut last = self.all.pop().unwrap();
            last.push(i);
            self.all.push(last);
        } else {
            let mut fresh: Vec<usize> = Vec::new();
            fresh.push(i);
            self.all.push(fresh);
        }
        self.placed = i + 1;
        proof {
            let now = if n > 0 && near {
                old_view.update(old_view.len() - 1, old_view.last().push(i))
            } else {
                old_view.push(seq![i])
            };
            assert(self@.len() == now.len());
            assert forall|k: int| 0 <= k < now.len() implies #[trigger] self@[k] == now[k] by {
                assert(self@[k] =~= now[k]);
            }
            assert(self@ =~= now);
            assert forall|before: Seq<bool>|
                before.len() == old(self).placed && old_view == #[trigger] clusters_of(
                    before,
                ) implies self@ == clusters_of(before.push(near)) by {
                assert(before.push(near).drop_last() =~= before);
            }
            let before = choose|before: Seq<bool>|
                before.len() == old(self).placed && old_view == #[trigger] clusters_of(before);
            assert(self@ == clusters_of(before.push(near)));
        }
    }

    /// The places of the clusters that are reported: the largest first, those of
    /// one size in order, and no more than the most that are.
    pub fn largest(&self) -> (r: Vec<usize>)
        ensures
            r@ == largest_of(self@),
    {
        let mut sizes: Vec<i64> = Vec::new();
        let mut i: usize = 0;
        let n: usize = self.all.len();
        while i < n
            invariant
                i <= n,
                n == self.all.len(),
                sizes.len() == i,
                forall|k: int| 0 <= k < i ==> (#[trigger] sizes@[k]) == smallness(self@[k].len()),
            decreases n - i,
        {
            let len: usize = self.all[i].len();
            if (len as u64) < i64::MAX as u64 {
                sizes.push(-(len as i64));
            } else {
                sizes.push(-i64::MAX);
            }
            i = i + 1;
        }
        proof {
            assert(sizes@ =~= smallnesses(self@));
        }
        let mut order = stable_order(&sizes);
        if order.len() > MAX_REFLECTIONS {
            order.truncate(MAX_REFLECTIONS);
        }
        proof {
            assert(order@ =~= largest_of(self@));
        }
        order
    }
}

/// What a cluster is ordered by: the negative of its size. Sizes that no vector
/// can have are all alike.
pub open spec fn smallness(len: nat) -> i64 {
    if len < i64::MAX {
        (-(len as int)) as i64
    } else {
        (-(i64::MAX as int)) as i64
    }
}

/// What the clusters are ordered by.
pub open spec fn smallnesses(clusters: Seq<Seq<usize>>) -> Seq<i64> {
    Seq::new(clusters.len(), |i: int| smallness(clusters[i].len()))
}

/// The places of the clusters that are reported.
pub open spec fn largest_of(clusters: Seq<Seq<usize>>) -> Seq<usize> {
    let order = stable_of(smallnesses(clusters));
    if order.len() > MAX_REFLECTIONS {
        order.take(MAX_REFLECTIONS as int)
    } else {
        order
    }
}

/// Every candidate is in one cluster, and the clusters keep them in order.
pub proof fn every_arrival_is_in_one_cluster(near: Seq<bool>)
    requires
        near.len() <= usize::MAX,
    ensures
        run_of_clusters(clusters_of(near)) == Seq::new(near.len(), |i: int| i as usize),
        forall|i: int|
            0 <= i < clusters_of(near).len() ==> (#[trigger] clusters_of(near)[i]).len() > 0,
    decreases near.len(),
{
    let whole = Seq::new(near.len(), |i: int| i as usize);
    if near.len() == 0 {
        assert(whole =~= Seq::<usize>::empty());
    } else {
        every_arrival_is_in_one_cluster(near.drop_last());
        let before = clusters_of(near.drop_last());
        let after = clusters_of(near);
        let i = (near.len() - 1) as usize;
        assert(whole =~= Seq::new((near.len() - 1) as nat, |i: int| i as usize).push(i));
        if before.len() > 0 && near.last() {
            assert(after.drop_last() =~= before.drop_last());
            assert(run_of_clusters(after) =~= run_of_clusters(before).push(i));
        } else {
            assert(after.drop_last() =~= before);
            assert(run_of_clusters(after) =~= run_of_clusters(before).push(i));
        }
    }
}

/// Whether the arrivals get louder with delay: there are two at least, and none
/// falls off against the one before it.
pub fn rises(held: &Vec<bool>) -> (r: bool)
    ensures
        r == (held.len() >= 1 && forall|i: int| 0 <= i < held.len() ==> #[trigger] held@[i]),
{
    if held.len() == 0 {
        return false;
    }
    let mut i: usize = 0;
    while i < held.len()
        invariant
            i <= held.len(),
            forall|k: int| 0 <= k < i ==> #[trigger] held@[k],
        decreases held.len() - i,
    {
        if !held[i] {
            return false;
        }
        i = i + 1;
    }
    true
}

/// What is said of the arrivals.
pub open spec fn arrivals_text(rise: bool) -> Seq<char> {
    if rise {
        "  the candidates get LOUDER with delay, so they are the mechanism's own body and not \
arrivals — the stage carries no reflections"@
    } else {
        "  the candidates decay with delay, so they are arrivals — the stage carries no \
reflections"@
    }
}

/// What is said of the arrivals.
pub fn arrivals(rise: bool) -> (r: &'static str)
    ensures
        r@ == arrivals_text(rise),
{
    if rise {
        "  the candidates get LOUDER with delay, so they are the mechanism's own body and not \
arrivals — the stage carries no reflections"
    } else {
        "  the candidates decay with delay, so they are arrivals — the stage carries no \
reflections"
    }
}

/// The places of arrivals in the order of their delays, those alike as they
/// came.
pub fn by_delay(delays: &Vec<Reading>) -> (r: Vec<usize>)
    requires
        delays.len() > 1 ==> forall|i: int| 0 <= i < delays.len() ==> !(#[trigger] delays@[i]).nan(),
    ensures
        r@ == stable_of(ranks_of(delays@)),
{
    stable_order(&ranks(delays))
}

/// Delays do not fall in the order in which arrivals are taken.
pub proof fn delays_rise(delays: Seq<Reading>, i: int, j: int)
    requires
        delays.len() <= usize::MAX,
        forall|k: int| 0 <= k < delays.len() ==> !(#[trigger] delays[k]).nan(),
        0 <= i < j < delays.len(),
    ensures
        stable_of(ranks_of(delays))[i] < delays.len(),
        stable_of(ranks_of(delays))[j] < delays.len(),
        delays[stable_of(ranks_of(delays))[i] as int].at_most(
            delays[stable_of(ranks_of(delays))[j] as int],
        ),
{
    let keys = ranks_of(delays);
    crate::order::stable_of_is_stable(keys);
    let order = stable_of(keys);
    let (a, b) = (order[i], order[j]);
    assert(crate::order::goes_before(keys, a, b));
    assert(a < delays.len() && b < delays.len());
    assert(keys[a as int] == delays[a as int].rank());
    assert(keys[b as int] == delays[b as int].rank());
}

/// A decay is a reading: it is a number, and long enough to be one.
pub open spec fn decays(t: Reading) -> bool {
    t.finite() && (Reading { bits: LEAST_DECAY }).below(t)
}

/// Whether a decay is a reading.
pub fn is_decay(t: Reading) -> (r: bool)
    ensures
        r == decays(t),
{
    t.is_finite() && (Reading { bits: LEAST_DECAY }).lt(&t)
}

/// The place of the tail level that matches best: the first of the least
/// mismatches, where any is a number below infinity.
pub fn best_level(mismatches: &Vec<Reading>) -> (r: Option<usize>)
    ensures
        match r {
            None => least_below(mismatches@, Reading { bits: UNBOUNDED }) is None,
            Some(i) => least_below(mismatches@, Reading { bits: UNBOUNDED }) == Some(i as int),
        },
{
    find_least(mismatches, Reading { bits: UNBOUNDED })
}

/// A band of the tail: where it begins, and its decay as it is printed.
pub struct Tail {
    pub low: Reading,
    pub decay: String,
}

/// What is printed for the first band that begins at `low`.
pub open spec fn decay_at_text(bands: Seq<Tail>, low: Reading) -> Seq<char>
    decreases bands.len(),
{
    if bands.len() == 0 {
        "NaN"@
    } else if bands[0].low == low {
        bands[0].decay@
    } else {
        decay_at_text(bands.skip(1), low)
    }
}

/// What is printed for the first band that begins at `low`, a number other than
/// zero.
pub fn decay_at(bands: &Vec<Tail>, low: Reading) -> (r: String)
    ensures
        r@ == decay_at_text(bands@, low),
{
    let mut i: usize = 0;
    proof {
        assert(bands@.skip(0) =~= bands@);
    }
    while i < bands.len()
        invariant
            i <= bands.len(),
            decay_at_text(bands@, low) == decay_at_text(bands@.skip(i as int), low),
        decreases bands.len() - i,
    {
        if bands[i].low.bits == low.bits {
            return bands[i].decay.clone();
        }
        proof {
            assert(bands@.skip(i as int).skip(1) =~= bands@.skip(i + 1));
        }
        i = i + 1;
    }
    String::from_str("NaN")
}

/// A half picks the pairs of its own keys, in order.
pub proof fn a_half_is_picked_by_key(pairs: Seq<(u8, u8)>, half: Seq<u8>)
    requires
        pairs.len() <= usize::MAX,
    ensures
        forall|a: int, b: int|
            0 <= a < b < places_where(pairs, of_half(half)).len() ==> (#[trigger] places_where(pairs, of_half(half))[a]) < (#[trigger] places_where(pairs, of_half(half))[b]),
        forall|a: int|
            0 <= a < places_where(pairs, of_half(half)).len() ==> {
                let i = #[trigger] places_where(pairs, of_half(half))[a];
                i < pairs.len() && half.contains(pairs[i as int].0)
            },
        forall|i: int|
            0 <= i < pairs.len() && half.contains((#[trigger] pairs[i]).0) ==> places_where(pairs, of_half(half)).contains(i as usize),
    decreases pairs.len(),
{
    if pairs.len() > 0 {
        let shorter = pairs.drop_last();
        a_half_is_picked_by_key(pairs.drop_last(), half);
        let before = places_where(shorter, of_half(half));
        let after = places_where(pairs, of_half(half));
        let n = pairs.len() - 1;
        assert forall|a: int, b: int| 0 <= a < b < after.len() implies (#[trigger] after[a]) < (
        #[trigger] after[b]) by {
            assert(before[a] < n);
            if b < before.len() {
                assert(before[a] < before[b]);
            }
        }
        assert forall|a: int| 0 <= a < after.len() implies {
            let i = #[trigger] after[a];
            i < pairs.len() && half.contains(pairs[i as int].0)
        } by {
            if a < before.len() {
                assert(before[a] == after[a]);
                assert(shorter[before[a] as int] == pairs[before[a] as int]);
            }
        }
        assert forall|i: int| 0 <= i < pairs.len() && half.contains((#[trigger] pairs[i]).0) implies after.contains(i as usize) by {
            if i < n {
                assert(shorter[i] == pairs[i]);
                assert(before.contains(i as usize));
                let a = choose|a: int| 0 <= a < before.len() && before[a] == i as usize;
                assert(after[a] == i as usize);
            } else {
                assert(after[before.len() as int] == n as usize);
            }
        }
    }
}

/// The soft layer picks the pairs up to its velocity, in order.
pub proof fn the_soft_layer_is_picked_by_velocity(pairs: Seq<(u8, u8)>)
    requires
        pairs.len() <= usize::MAX,
    ensures
        forall|a: int, b: int|
            0 <= a < b < places_where(pairs, of_layer(Layer::Soft)).len() ==> (#[trigger] places_where(pairs, of_layer(Layer::Soft))[a]) < (#[trigger] places_where(pairs, of_layer(Layer::Soft))[b]),
        forall|a: int|
            0 <= a < places_where(pairs, of_layer(Layer::Soft)).len() ==> {
                let i = #[trigger] places_where(pairs, of_layer(Layer::Soft))[a];
                i < pairs.len() && pairs[i as int].1 <= SOFT_MAX
            },
        forall|i: int|
            0 <= i < pairs.len() && (#[trigger] pairs[i]).1 <= SOFT_MAX ==> places_where(pairs, of_layer(Layer::Soft)).contains(i as usize),
    decreases pairs.len(),
{
    if pairs.len() > 0 {
        let shorter = pairs.drop_last();
        the_soft_layer_is_picked_by_velocity(pairs.drop_last());
        let before = places_where(shorter, of_layer(Layer::Soft));
        let after = places_where(pairs, of_layer(Layer::Soft));
        let n = pairs.len() - 1;
        assert forall|a: int, b: int| 0 <= a < b < after.len() implies (#[trigger] after[a]) < (
        #[trigger] after[b]) by {
            assert(before[a] < n);
            if b < before.len() {
                assert(before[a] < before[b]);
            }
        }
        assert forall|a: int| 0 <= a < after.len() implies {
            let i = #[trigger] after[a];
            i < pairs.len() && pairs[i as int].1 <= SOFT_MAX
        } by {
            if a < before.len() {
                assert(before[a] == after[a]);
                assert(shorter[before[a] as int] == pairs[before[a] as int]);
            }
        }
        assert forall|i: int| 0 <= i < pairs.len() && (#[trigger] pairs[i]).1 <= SOFT_MAX implies after.contains(i as usize) by {
            if i < n {
                assert(shorter[i] == pairs[i]);
                assert(before.contains(i as usize));
                let a = choose|a: int| 0 <= a < before.len() && before[a] == i as usize;
                assert(after[a] == i as usize);
            } else {
                assert(after[before.len() as int] == n as usize);
            }
        }
    }
}

/// The loud layer picks the pairs above the soft one's velocity, in order.
pub proof fn the_loud_layer_is_picked_by_velocity(pairs: Seq<(u8, u8)>)
    requires
        pairs.len() <= usize::MAX,
    ensures
        forall|a: int, b: int|
            0 <= a < b < places_where(pairs, of_layer(Layer::Loud)).len() ==> (#[trigger] places_where(pairs, of_layer(Layer::Loud))[a]) < (#[trigger] places_where(pairs, of_layer(Layer::Loud))[b]),
        forall|a: int|
            0 <= a < places_where(pairs, of_layer(Layer::Loud)).len() ==> {
                let i = #[trigger] places_where(pairs, of_layer(Layer::Loud))[a];
                i < pairs.len() && pairs[i as int].1 > SOFT_MAX
            },
        forall|i: int|
            0 <= i < pairs.len() && (#[trigger] pairs[i]).1 > SOFT_MAX ==> places_where(pairs, of_layer(Layer::Loud)).contains(i as usize),
    decreases pairs.len(),
{
    if pairs.len() > 0 {
        let shorter = pairs.drop_last();
        the_loud_layer_is_picked_by_velocity(pairs.drop_last());
        let before = places_where(shorter, of_layer(Layer::Loud));
        let after = places_where(pairs, of_layer(Layer::Loud));
        let n = pairs.len() - 1;
        assert forall|a: int, b: int| 0 <= a < b < after.len() implies (#[trigger] after[a]) < (
        #[trigger] after[b]) by {
            assert(before[a] < n);
            if b < before.len() {
                assert(before[a] < before[b]);
            }
        }
        assert forall|a: int| 0 <= a < after.len() implies {
            let i = #[trigger] after[a];
            i < pairs.len() && pairs[i as int].1 > SOFT_MAX
        } by {
            if a < before.len() {
                assert(before[a] == after[a]);
                assert(shorter[before[a] as int] == pairs[before[a] as int]);
            }
        }
        assert forall|i: int| 0 <= i < pairs.len() && (#[trigger] pairs[i]).1 > SOFT_MAX implies after.contains(i as usize) by {
            if i < n {
                assert(shorter[i] == pairs[i]);
                assert(before.contains(i as usize));
                let a = choose|a: int| 0 <= a < before.len() && before[a] == i as usize;
                assert(after[a] == i as usize);
            } else {
                assert(after[before.len() as int] == n as usize);
            }
        }
    }
}

/// The halves take the keys in turn, the first half the first of them.
pub proof fn the_halves_take_turns(keys: Seq<u8>, i: int)
    requires
        0 <= i < keys.len(),
    ensures
        every_other(keys, 0).len() + every_other(keys, 1).len() == keys.len(),
        i % 2 == 0 ==> i / 2 < every_other(keys, 0).len() && every_other(keys, 0)[i / 2] == keys[i],
        i % 2 == 1 ==> i / 2 < every_other(keys, 1).len() && every_other(keys, 1)[i / 2] == keys[i],
{
}

/// A candidate joins the cluster of the one before it where it is near, and
/// begins one of its own where it is not.
pub proof fn a_cluster_holds_what_is_near(near: Seq<bool>)
    requires
        near.len() <= usize::MAX,
    ensures
        forall|c: int, k: int|
            0 <= c < clusters_of(near).len() && 0 <= k < clusters_of(near)[c].len() ==> {
                let e = #[trigger] clusters_of(near)[c][k];
                &&& e < near.len()
                &&& k > 0 ==> near[e as int] && clusters_of(near)[c][k - 1] == e - 1
                &&& k == 0 ==> e == 0 || !near[e as int]
            },
        forall|c: int|
            0 <= c < clusters_of(near).len() ==> (#[trigger] clusters_of(near)[c]).len() > 0,
        near.len() > 0 ==> clusters_of(near).len() > 0 && clusters_of(near).last().last()
            == near.len() - 1,
    decreases near.len(),
{
    if near.len() > 0 {
        let shorter = near.drop_last();
        a_cluster_holds_what_is_near(shorter);
        let before = clusters_of(shorter);
        let after = clusters_of(near);
        let n = near.len() - 1;
        assert forall|c: int, k: int|
            0 <= c < after.len() && 0 <= k < after[c].len() implies {
            let e = #[trigger] after[c][k];
            &&& e < near.len()
            &&& k > 0 ==> near[e as int] && after[c][k - 1] == e - 1
            &&& k == 0 ==> e == 0 || !near[e as int]
        } by {
            if c < before.len() && k < before[c].len() {
                assert(before[c][k] == after[c][k]);
                if k > 0 {
                    assert(before[c][k - 1] == after[c][k - 1]);
                }
                assert(shorter[before[c][k] as int] == near[before[c][k] as int]);
            } else if before.len() > 0 && near.last() {
                assert(c == before.len() - 1);
                assert(before.last().len() > 0);
                assert(before.last().last() == n - 1);
            } else {
                assert(after[c] == seq![n as usize]);
            }
        }
        assert forall|c: int| 0 <= c < after.len() implies (#[trigger] after[c]).len() > 0 by {
            if c < before.len() {
                assert(before[c].len() > 0);
            }
        }
    }
}

/// The clusters that are reported are the largest, the largest first, those of
/// one size in order.
pub proof fn the_largest_clusters_are_reported(clusters: Seq<Seq<usize>>)
    requires
        clusters.len() <= usize::MAX,
        forall|i: int| 0 <= i < clusters.len() ==> (#[trigger] clusters[i]).len() < i64::MAX,
    ensures
        ({
            let r = largest_of(clusters);
            &&& r.len() == (if clusters.len() < MAX_REFLECTIONS {
                clusters.len() as int
            } else {
                MAX_REFLECTIONS as int
            })
            &&& forall|a: int| 0 <= a < r.len() ==> (#[trigger] r[a]) < clusters.len()
            &&& forall|a: int, b: int|
                0 <= a < b < r.len() ==> {
                    let x = #[trigger] r[a];
                    let y = #[trigger] r[b];
                    clusters[x as int].len() > clusters[y as int].len() || (clusters[x as int].len()
                        == clusters[y as int].len() && x < y)
                }
        }),
{
    let keys = smallnesses(clusters);
    crate::order::stable_of_is_stable(keys);
    let order = stable_of(keys);
    let r = largest_of(clusters);
    assert forall|a: int, b: int| 0 <= a < b < r.len() implies {
        let x = #[trigger] r[a];
        let y = #[trigger] r[b];
        clusters[x as int].len() > clusters[y as int].len() || (clusters[x as int].len()
            == clusters[y as int].len() && x < y)
    } by {
        assert(r[a] == order[a] && r[b] == order[b]);
        assert(crate::order::goes_before(keys, order[a], order[b]));
        assert(order[a] < clusters.len() && order[b] < clusters.len());
        assert(clusters[order[a] as int].len() < i64::MAX);
        assert(clusters[order[b] as int].len() < i64::MAX);
    }
}

/// What is taken is an impulsive recording that could be read, in order; and
/// where there was room for more, every such recording was taken.
pub proof fn impulsive_recordings_are_taken(kinds: Seq<Mechanism>, loaded: Seq<bool>)
    requires
        kinds.len() <= usize::MAX,
    ensures
        impulsive_of(kinds, loaded).len() <= MAX_IMPULSIVE,
        forall|a: int, b: int|
            0 <= a < b < impulsive_of(kinds, loaded).len() ==> (#[trigger] impulsive_of(
                kinds,
                loaded,
            )[a]) < (#[trigger] impulsive_of(kinds, loaded)[b]),
        forall|a: int|
            0 <= a < impulsive_of(kinds, loaded).len() ==> {
                let i = #[trigger] impulsive_of(kinds, loaded)[a];
                i < kinds.len() && kinds[i as int] != Mechanism::Other && loaded[i as int]
            },
        impulsive_of(kinds, loaded).len() < MAX_IMPULSIVE ==> forall|i: int|
            0 <= i < kinds.len() && (#[trigger] kinds[i]) != Mechanism::Other && loaded[i]
                ==> impulsive_of(kinds, loaded).contains(i as usize),
    decreases kinds.len(),
{
    if kinds.len() > 0 {
        let shorter = kinds.drop_last();
        impulsive_recordings_are_taken(shorter, loaded);
        let before = impulsive_of(shorter, loaded);
        let after = impulsive_of(kinds, loaded);
        let n = kinds.len() - 1;
        assert forall|a: int, b: int| 0 <= a < b < after.len() implies (#[trigger] after[a]) < (
        #[trigger] after[b]) by {
            assert(before[a] < n);
            if b < before.len() {
                assert(before[a] < before[b]);
            }
        }
        assert forall|a: int| 0 <= a < after.len() implies {
            let i = #[trigger] after[a];
            i < kinds.len() && kinds[i as int] != Mechanism::Other && loaded[i as int]
        } by {
            if a < before.len() {
                assert(before[a] == after[a]);
                assert(shorter[before[a] as int] == kinds[before[a] as int]);
            }
        }
        if after.len() < MAX_IMPULSIVE {
            assert forall|i: int| 0 <= i < kinds.len() && (#[trigger] kinds[i]) != Mechanism::Other
                && loaded[i] implies after.contains(i as usize) by {
                if i < n {
                    assert(shorter[i] == kinds[i]);
                    assert(before.contains(i as usize));
                    let a = choose|a: int| 0 <= a < before.len() && before[a] == i as usize;
                    assert(after[a] == i as usize);
                } else {
                    assert(after[before.len() as int] == n as usize);
                }
            }
        }
    }
}

/// The tail level that is kept matches at least as well as every other.
pub proof fn the_kept_level_matches_best(mismatches: Seq<Reading>, k: int)
    requires
        0 <= k < mismatches.len(),
    ensures
        least_below(mismatches, Reading { bits: UNBOUNDED }) matches Some(i) ==> 0 <= i
            < mismatches.len() && !mismatches[k].below(mismatches[i]),
        least_below(mismatches, Reading { bits: UNBOUNDED }) is None ==> !mismatches[k].below(
            Reading { bits: UNBOUNDED },
        ),
{
    crate::order::least_below_is_least(mismatches, Reading { bits: UNBOUNDED });
}

} // verus!
