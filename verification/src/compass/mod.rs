//! Every key struck alone: which keys it is held against, and which stand out.

pub mod console;
pub mod report;

use crate::args::{nth_or, or_default};
use crate::order::{
    descending, descending_of, find_greatest, greatest_above, median, median_of, stable_of,
    stable_order, Middle,
};
use crate::reading::Reading;
use crate::text::{parse_whole, same, views, whole};
use vstd::prelude::*;

verus! {

/// How many numbers are read of each key.
pub const METRICS: usize = 7;

/// How many keys a key is held against.
pub const NEIGHBOURS: usize = 8;

/// The score at which a key stands out, 4.
pub const FLAG_SCORE: u64 = 0x4010_0000_0000_0000;

/// Zero.
pub const NOTHING: u64 = 0;

/// What the command line asks for.
pub struct Options {
    pub data: String,
    pub out: String,
    pub preset: String,
    /// The keys to print partial by partial.
    pub detail: Vec<u8>,
}

/// The arguments that name a key.
pub open spec fn keys_named(args: Seq<Seq<char>>) -> Seq<u8>
    decreases args.len(),
{
    if args.len() == 0 {
        Seq::empty()
    } else {
        match whole(args.last(), 255) {
            Ok(n) => keys_named(args.drop_last()).push(n as u8),
            Err(_) => keys_named(args.drop_last()),
        }
    }
}

/// What the command line asks for: three paths, then keys; what names no key is
/// passed over.
pub fn options(args: &Vec<String>) -> (r: Options)
    ensures
        r.data@ == or_default(views(args@), 0, "data/salamander"@),
        r.out@ == or_default(views(args@), 1, "renders/compass"@),
        r.preset@ == or_default(views(args@), 2, "presets/salamander-c5.toml"@),
        r.detail@ == keys_named(
            if args.len() < 3 {
                Seq::empty()
            } else {
                views(args@).skip(3)
            },
        ),
{
    let mut detail: Vec<u8> = Vec::new();
    let ghost rest = if args.len() < 3 {
        Seq::<Seq<char>>::empty()
    } else {
        views(args@).skip(3)
    };
    let mut i: usize = 3;
    proof {
        assert(rest.take(0) =~= Seq::<Seq<char>>::empty());
    }
    while i < args.len()
        invariant
            3 <= i,
            args.len() >= 3 ==> i <= args.len() && rest == views(args@).skip(3),
            args.len() < 3 ==> i == 3 && rest == Seq::<Seq<char>>::empty(),
            detail@ == keys_named(rest.take(i - 3)),
        decreases args.len() - i,
    {
        proof {
            assert(rest.take(i - 2).drop_last() =~= rest.take(i - 3));
            assert(rest.take(i - 2).last() == args@[i as int]@);
        }
        if let Ok(n) = parse_whole(args[i].as_str(), 255) {
            detail.push(n as u8);
        }
        i = i + 1;
    }
    proof {
        assert(rest.take(i - 3) =~= rest);
    }
    Options {
        data: nth_or(args, 0, "data/salamander"),
        out: nth_or(args, 1, "renders/compass"),
        preset: nth_or(args, 2, "presets/salamander-c5.toml"),
        detail,
    }
}

/// The name of a number.
pub open spec fn metric_text(m: int) -> Seq<char> {
    if m == 0 {
        "level"@
    } else if m == 1 {
        "centroid"@
    } else if m == 2 {
        "irregular"@
    } else if m == 3 {
        "match"@
    } else if m == 4 {
        "beat"@
    } else if m == 5 {
        "jitter"@
    } else {
        "decay"@
    }
}

/// The name of a number.
pub fn metric_name(m: usize) -> (r: &'static str)
    requires
        m < METRICS,
    ensures
        r@ == metric_text(m as int),
{
    if m == 0 {
        "level"
    } else if m == 1 {
        "centroid"
    } else if m == 2 {
        "irregular"
    } else if m == 3 {
        "match"
    } else if m == 4 {
        "beat"
    } else if m == 5 {
        "jitter"
    } else {
        "decay"
    }
}

/// Which number a name is of; the first, where it is of none.
pub fn metric_index(name: &str) -> (r: usize)
    ensures
        r < METRICS,
        metric_text(r as int) == name@ || (r == 0 && forall|m: int|
            0 <= m < METRICS ==> #[trigger] metric_text(m) != name@),
        forall|m: int| 0 <= m < r ==> #[trigger] metric_text(m) != name@,
{
    let mut m: usize = 0;
    while m < METRICS
        invariant
            m <= METRICS,
            forall|k: int| 0 <= k < m ==> #[trigger] metric_text(k) != name@,
        decreases METRICS - m,
    {
        if same(metric_name(m), name) {
            return m;
        }
        m = m + 1;
    }
    0
}

/// A key, and how many strings it has.
#[derive(Clone, Copy)]
pub struct Strung {
    pub key: u8,
    pub unison: usize,
}

/// How far apart two keys are.
pub open spec fn apart(a: u8, b: u8) -> i64 {
    (if a < b {
        b - a
    } else {
        a - b
    }) as i64
}

/// The places among the first `n` of the other keys strung as the one at `i`.
pub open spec fn kin_of(keys: Seq<Strung>, i: int, n: int) -> Seq<usize>
    decreases n,
{
    if n <= 0 {
        Seq::empty()
    } else if n - 1 != i && keys[n - 1].unison == keys[i].unison {
        kin_of(keys, i, n - 1).push((n - 1) as usize)
    } else {
        kin_of(keys, i, n - 1)
    }
}

/// How far each of some keys is from the one at `i`.
pub open spec fn distances_of(keys: Seq<Strung>, i: int, at: Seq<usize>) -> Seq<i64> {
    Seq::new(at.len(), |j: int| apart(keys[at[j] as int].key, keys[i].key))
}

/// The keys that one is held against: the nearest strung the same way, the
/// nearest first, those equally near in order.
pub open spec fn neighbours_of(keys: Seq<Strung>, i: int) -> Seq<usize> {
    let kin = kin_of(keys, i, keys.len() as int);
    let order = stable_of(distances_of(keys, i, kin));
    Seq::new(
        if order.len() < NEIGHBOURS {
            order.len()
        } else {
            NEIGHBOURS as nat
        },
        |j: int| kin[order[j] as int],
    )
}

proof fn kin_are_keys(keys: Seq<Strung>, i: int, n: int)
    requires
        0 <= i < keys.len(),
        0 <= n <= keys.len(),
        keys.len() <= usize::MAX,
    ensures
        kin_of(keys, i, n).len() <= n,
        forall|j: int|
            0 <= j < kin_of(keys, i, n).len() ==> {
                let k = #[trigger] kin_of(keys, i, n)[j];
                k < n && k != i && keys[k as int].unison == keys[i].unison
            },
    decreases n,
{
    if n > 0 {
        kin_are_keys(keys, i, n - 1);
        let before = kin_of(keys, i, n - 1);
        let after = kin_of(keys, i, n);
        assert forall|j: int| 0 <= j < after.len() implies {
            let k = #[trigger] after[j];
            k < n && k != i && keys[k as int].unison == keys[i].unison
        } by {
            if j < before.len() {
                assert(before[j] == after[j]);
            }
        }
    }
}

/// No key is held against itself, or against one strung another way.
pub proof fn a_key_is_held_against_its_own_kind(keys: Seq<Strung>, i: int, j: int)
    requires
        keys.len() <= usize::MAX,
        0 <= i < keys.len(),
        0 <= j < neighbours_of(keys, i).len(),
    ensures
        neighbours_of(keys, i).len() <= NEIGHBOURS,
        neighbours_of(keys, i)[j] < keys.len(),
        neighbours_of(keys, i)[j] != i,
        keys[neighbours_of(keys, i)[j] as int].unison == keys[i].unison,
{
    let kin = kin_of(keys, i, keys.len() as int);
    kin_are_keys(keys, i, keys.len() as int);
    crate::order::stable_of_is_stable(distances_of(keys, i, kin));
    let order = stable_of(distances_of(keys, i, kin));
    assert(order[j] < kin.len());
    assert(kin[order[j] as int] < keys.len());
}

/// The keys that one is held against.
pub fn same_kind_neighbours(keys: &Vec<Strung>, i: usize) -> (r: Vec<usize>)
    requires
        i < keys.len(),
    ensures
        r@ == neighbours_of(keys@, i as int),
        r.len() <= NEIGHBOURS,
        forall|j: int| 0 <= j < r.len() ==> (#[trigger] r@[j]) < keys.len(),
{
    let mut kin: Vec<usize> = Vec::new();
    let mut far: Vec<i64> = Vec::new();
    let mut n: usize = 0;
    while n < keys.len()
        invariant
            n <= keys.len(),
            i < keys.len(),
            kin@ == kin_of(keys@, i as int, n as int),
            far@ == distances_of(keys@, i as int, kin@),
        decreases keys.len() - n,
    {
        if n != i && keys[n].unison == keys[i].unison {
            kin.push(n);
            let d: u8 = if keys[n].key < keys[i].key {
                keys[i].key - keys[n].key
            } else {
                keys[n].key - keys[i].key
            };
            far.push(d as i64);
            proof {
                assert(far@ =~= distances_of(keys@, i as int, kin@));
            }
        }
        n = n + 1;
    }
    let order = stable_order(&far);
    let most: usize = if order.len() < NEIGHBOURS {
        order.len()
    } else {
        NEIGHBOURS
    };
    proof {
        kin_are_keys(keys@, i as int, keys.len() as int);
        assert(far.len() == far@.len());
        crate::order::stable_of_is_stable(far@);
    }
    let mut out: Vec<usize> = Vec::new();
    let mut j: usize = 0;
    while j < most
        invariant
            j <= most <= order.len(),
            forall|k: int| 0 <= k < order.len() ==> (#[trigger] order@[k]) < kin.len(),
            out@ == Seq::new(j as nat, |k: int| kin@[order@[k] as int]),
        decreases most - j,
    {
        out.push(kin[order[j]]);
        j = j + 1;
        proof {
            assert(out@ =~= Seq::new(j as nat, |k: int| kin@[order@[k] as int]));
        }
    }
    proof {
        assert(out@ =~= neighbours_of(keys@, i as int));
    }
    out
}

/// What a key's number is held against: its own value, and the middle of its
/// neighbours'.
#[derive(Clone, Copy, Debug, PartialEq, Eq, Structural)]
pub struct Residual {
    pub value: Reading,
    pub middle: Middle,
}

/// The readings at some places.
pub open spec fn readings_at(column: Seq<Reading>, at: Seq<usize>) -> Seq<Reading> {
    Seq::new(at.len(), |j: int| column[at[j] as int])
}

/// What a key's number is held against: none where it was not read at the key,
/// or at fewer than half as many neighbours as there should be.
pub open spec fn residual_of(keys: Seq<Strung>, column: Seq<Reading>, i: int) -> Option<Residual> {
    let around = readings_at(column, neighbours_of(keys, i));
    if column[i].finite() && crate::order::finite_of(around).len() >= NEIGHBOURS / 2 {
        Some(Residual { value: column[i], middle: median_of(around) })
    } else {
        None
    }
}

/// The numbers of a key's neighbours.
pub fn around(keys: &Vec<Strung>, column: &Vec<Reading>, i: usize) -> (r: Vec<Reading>)
    requires
        i < keys.len(),
        column.len() == keys.len(),
    ensures
        r@ == readings_at(column@, neighbours_of(keys@, i as int)),
{
    let at = same_kind_neighbours(keys, i);
    let mut out: Vec<Reading> = Vec::new();
    let mut j: usize = 0;
    while j < at.len()
        invariant
            j <= at.len(),
            forall|j: int| 0 <= j < at.len() ==> (#[trigger] at@[j]) < column.len(),
            out@ == readings_at(column@, at@.take(j as int)),
        decreases at.len() - j,
    {
        out.push(column[at[j]]);
        j = j + 1;
        proof {
            assert(out@ =~= readings_at(column@, at@.take(j as int)));
        }
    }
    proof {
        assert(at@.take(j as int) =~= at@);
    }
    out
}

/// What a key's number is held against.
pub fn residual_at(keys: &Vec<Strung>, column: &Vec<Reading>, i: usize) -> (r: Option<Residual>)
    requires
        i < keys.len(),
        column.len() == keys.len(),
    ensures
        r == residual_of(keys@, column@, i as int),
{
    if !column[i].is_finite() {
        return None;
    }
    let held = around(keys, column, i);
    let finite = crate::order::keep_finite(&held);
    if finite.len() >= NEIGHBOURS / 2 {
        Some(Residual { value: column[i], middle: median(&held) })
    } else {
        None
    }
}

/// Whether a residual is divided by the spread of them all; a score is zero where
/// it is not.
pub fn is_scored(present: bool, spread: Reading) -> (r: bool)
    ensures
        r == (present && (Reading { bits: NOTHING }).below(spread)),
{
    present && (Reading { bits: NOTHING }).lt(&spread)
}

/// The scores of one key.
pub struct Scores {
    pub z: Vec<Reading>,
}

/// The sizes of some scores.
pub open spec fn sizes_of(z: Seq<Reading>) -> Seq<Reading> {
    Seq::new(z.len(), |i: int| z[i].unsigned())
}

/// The first of the greatest scores, and its size; the first of all and zero
/// where there is none.
pub open spec fn worst_of(z: Seq<Reading>) -> (int, Reading) {
    match greatest_above(sizes_of(z), Reading { bits: NOTHING }) {
        None => (0, Reading { bits: NOTHING }),
        Some(m) => (m, z[m].unsigned()),
    }
}

fn sizes(z: &Vec<Reading>) -> (r: Vec<Reading>)
    ensures
        r@ == sizes_of(z@),
{
    let mut out: Vec<Reading> = Vec::new();
    let mut i: usize = 0;
    while i < z.len()
        invariant
            i <= z.len(),
            out@ == sizes_of(z@.take(i as int)),
        decreases z.len() - i,
    {
        out.push(z[i].abs());
        i = i + 1;
        proof {
            assert(out@ =~= sizes_of(z@.take(i as int)));
        }
    }
    proof {
        assert(z@.take(i as int) =~= z@);
    }
    out
}

impl Scores {
    /// There is a score for each number.
    pub open spec fn wf(&self) -> bool {
        self.z.len() == METRICS
    }

    /// The first of the greatest scores, and its size.
    pub fn worst(&self) -> (r: (usize, Reading))
        requires
            self.wf(),
        ensures
            (r.0 as int, r.1) == worst_of(self.z@),
            r.0 < METRICS,
    {
        let size = sizes(&self.z);
        proof {
            crate::order::greatest_above_is_greatest(size@, Reading { bits: NOTHING });
        }
        match find_greatest(&size, Reading { bits: NOTHING }) {
            None => (0, Reading { bits: NOTHING }),
            Some(m) => (m, size[m]),
        }
    }

    /// The score of a number by its name; zero where the name is of none.
    pub fn get(&self, name: &str) -> (r: Reading)
        requires
            self.wf(),
        ensures
            forall|m: int|
                0 <= m < METRICS && #[trigger] metric_text(m) == name@ && (forall|k: int|
                    0 <= k < m ==> #[trigger] metric_text(k) != name@) ==> r == self.z@[m],
            (forall|m: int| 0 <= m < METRICS ==> #[trigger] metric_text(m) != name@) ==> r
                == (Reading { bits: NOTHING }),
    {
        let mut m: usize = 0;
        while m < METRICS
            invariant
                m <= METRICS,
                self.wf(),
                forall|k: int| 0 <= k < m ==> #[trigger] metric_text(k) != name@,
            decreases METRICS - m,
        {
            if same(metric_name(m), name) {
                return self.z[m];
            }
            m = m + 1;
        }
        Reading { bits: NOTHING }
    }
}

/// One number of one key that stands out.
#[derive(Clone, Copy, Debug, PartialEq, Eq, Structural)]
pub struct Flag {
    pub key_index: usize,
    pub metric: usize,
    pub z: Reading,
}

/// Whether a score stands out.
pub open spec fn stands_out(z: Reading) -> bool {
    (Reading { bits: FLAG_SCORE }).at_most(z.unsigned())
}

/// The first `n` numbers of a key that stand out.
pub open spec fn flags_of_key(z: Seq<Reading>, key_index: usize, n: int) -> Seq<Flag>
    decreases n,
{
    if n <= 0 {
        Seq::empty()
    } else if stands_out(z[n - 1]) {
        flags_of_key(z, key_index, n - 1).push(
            Flag { key_index, metric: (n - 1) as usize, z: z[n - 1] },
        )
    } else {
        flags_of_key(z, key_index, n - 1)
    }
}

/// The numbers that stand out, key by key.
pub open spec fn flags_in_order(scores: Seq<Scores>) -> Seq<Flag>
    decreases scores.len(),
{
    if scores.len() == 0 {
        Seq::empty()
    } else {
        flags_in_order(scores.drop_last()) + flags_of_key(
            scores.last().z@,
            (scores.len() - 1) as usize,
            METRICS as int,
        )
    }
}

/// How far out each of some flags is.
pub open spec fn reach_of(flags: Seq<Flag>) -> Seq<Reading> {
    Seq::new(flags.len(), |i: int| flags[i].z.unsigned())
}

/// The numbers that stand out, the farthest out first, those alike in order.
pub open spec fn flagged_of(scores: Seq<Scores>) -> Seq<Flag> {
    let flags = flags_in_order(scores);
    let order = descending_of(reach_of(flags));
    Seq::new(order.len(), |i: int| flags[order[i] as int])
}

fn push_flags(out: &mut Vec<Flag>, z: &Vec<Reading>, key_index: usize)
    requires
        z.len() == METRICS,
    ensures
        final(out)@ == old(out)@ + flags_of_key(z@, key_index, METRICS as int),
{
    let mut m: usize = 0;
    proof {
        assert(out@ =~= old(out)@ + flags_of_key(z@, key_index, 0));
    }
    while m < METRICS
        invariant
            m <= METRICS,
            z.len() == METRICS,
            out@ == old(out)@ + flags_of_key(z@, key_index, m as int),
        decreases METRICS - m,
    {
        let bar = Reading { bits: FLAG_SCORE };
        if bar.le(&z[m].abs()) {
            out.push(Flag { key_index, metric: m, z: z[m] });
            proof {
                assert(out@ =~= old(out)@ + flags_of_key(z@, key_index, m + 1));
            }
        }
        m = m + 1;
    }
}

/// The numbers that stand out, the farthest out first.
pub fn flagged(scores: &Vec<Scores>) -> (r: Vec<Flag>)
    requires
        forall|i: int| 0 <= i < scores.len() ==> (#[trigger] scores@[i]).wf(),
    ensures
        r@ == flagged_of(scores@),
        forall|i: int| 0 <= i < r.len() ==> (#[trigger] r@[i]).key_index < scores.len() && r@[i].metric < METRICS,
{
    let mut flags: Vec<Flag> = Vec::new();
    let mut i: usize = 0;
    proof {
        assert(scores@.take(0) =~= Seq::<Scores>::empty());
    }
    while i < scores.len()
        invariant
            i <= scores.len(),
            forall|i: int| 0 <= i < scores.len() ==> (#[trigger] scores@[i]).wf(),
            flags@ == flags_in_order(scores@.take(i as int)),
        decreases scores.len() - i,
    {
        proof {
            assert(scores@.take(i + 1).drop_last() =~= scores@.take(i as int));
            assert(scores@.take(i + 1).last() == scores@[i as int]);
        }
        push_flags(&mut flags, &scores[i].z, i);
        i = i + 1;
    }
    proof {
        assert(scores@.take(i as int) =~= scores@);
        flags_are_those_that_stand_out(scores@);
    }
    let mut reach: Vec<Reading> = Vec::new();
    let mut j: usize = 0;
    while j < flags.len()
        invariant
            j <= flags.len(),
            reach@ == reach_of(flags@.take(j as int)),
        decreases flags.len() - j,
    {
        reach.push(flags[j].z.abs());
        j = j + 1;
        proof {
            assert(reach@ =~= reach_of(flags@.take(j as int)));
        }
    }
    proof {
        assert(flags@.take(j as int) =~= flags@);
        assert(reach.len() == reach@.len());
        crate::order::stable_of_is_stable(crate::order::depths_of(reach@));
    }
    let order = descending(&reach);
    let mut out: Vec<Flag> = Vec::new();
    let mut k: usize = 0;
    while k < order.len()
        invariant
            k <= order.len(),
            forall|i: int| 0 <= i < order.len() ==> (#[trigger] order@[i]) < flags.len(),
            forall|i: int|
                0 <= i < flags.len() ==> (#[trigger] flags@[i]).key_index < scores.len()
                    && flags@[i].metric < METRICS,
            forall|i: int|
                0 <= i < out.len() ==> (#[trigger] out@[i]).key_index < scores.len()
                    && out@[i].metric < METRICS,
            out@ == Seq::new(k as nat, |i: int| flags@[order@[i] as int]),
        decreases order.len() - k,
    {
        out.push(flags[order[k]]);
        k = k + 1;
        proof {
            assert(out@ =~= Seq::new(k as nat, |i: int| flags@[order@[i] as int]));
        }
    }
    proof {
        assert(out@ =~= flagged_of(scores@));
    }
    out
}

proof fn flags_of_one_key(z: Seq<Reading>, key_index: usize, n: int)
    requires
        0 <= n <= METRICS,
        z.len() == METRICS,
    ensures
        forall|i: int|
            0 <= i < flags_of_key(z, key_index, n).len() ==> {
                let f = #[trigger] flags_of_key(z, key_index, n)[i];
                f.key_index == key_index && f.metric < n && f.z == z[f.metric as int]
                    && stands_out(f.z)
            },
        forall|m: int|
            0 <= m < n && stands_out(#[trigger] z[m]) ==> flags_of_key(z, key_index, n).contains(
                Flag { key_index, metric: m as usize, z: z[m] },
            ),
    decreases n,
{
    if n > 0 {
        flags_of_one_key(z, key_index, n - 1);
        let before = flags_of_key(z, key_index, n - 1);
        let after = flags_of_key(z, key_index, n);
        assert forall|i: int| 0 <= i < after.len() implies {
            let f = #[trigger] after[i];
            f.key_index == key_index && f.metric < n && f.z == z[f.metric as int] && stands_out(f.z)
        } by {
            if i < before.len() {
                assert(after[i] == before[i]);
            }
        }
        assert forall|m: int| 0 <= m < n && stands_out(#[trigger] z[m]) implies after.contains(
            Flag { key_index, metric: m as usize, z: z[m] },
        ) by {
            let f = Flag { key_index, metric: m as usize, z: z[m] };
            if m < n - 1 {
                assert(before.contains(f));
                let i = choose|i: int| 0 <= i < before.len() && before[i] == f;
                assert(after[i] == f);
            } else {
                assert(after[before.len() as int] == f);
            }
        }
    }
}

/// A number is flagged exactly where its score stands out.
pub proof fn flags_are_those_that_stand_out(scores: Seq<Scores>)
    requires
        scores.len() <= usize::MAX,
        forall|i: int| 0 <= i < scores.len() ==> (#[trigger] scores[i]).wf(),
    ensures
        forall|i: int|
            0 <= i < flags_in_order(scores).len() ==> {
                let f = #[trigger] flags_in_order(scores)[i];
                f.key_index < scores.len() && f.metric < METRICS && f.z
                    == scores[f.key_index as int].z@[f.metric as int] && stands_out(f.z)
            },
        forall|i: int, m: int|
            0 <= i < scores.len() && 0 <= m < METRICS && stands_out(#[trigger] scores[i].z@[m])
                ==> flags_in_order(scores).contains(
                Flag { key_index: i as usize, metric: m as usize, z: scores[i].z@[m] },
            ),
    decreases scores.len(),
{
    if scores.len() > 0 {
        let shorter = scores.drop_last();
        assert forall|i: int| 0 <= i < shorter.len() implies (#[trigger] shorter[i]).wf() by {
            assert(shorter[i] == scores[i]);
        }
        flags_are_those_that_stand_out(shorter);
        let last = (scores.len() - 1) as usize;
        assert(scores[last as int].wf());
        flags_of_one_key(scores.last().z@, last, METRICS as int);
        let before = flags_in_order(shorter);
        let own = flags_of_key(scores.last().z@, last, METRICS as int);
        let after = flags_in_order(scores);
        assert(after == before + own);
        assert forall|i: int| 0 <= i < after.len() implies {
            let f = #[trigger] after[i];
            f.key_index < scores.len() && f.metric < METRICS && f.z
                == scores[f.key_index as int].z@[f.metric as int] && stands_out(f.z)
        } by {
            if i < before.len() {
                assert(after[i] == before[i]);
                assert(shorter[before[i].key_index as int] == scores[before[i].key_index as int]);
            } else {
                assert(after[i] == own[i - before.len()]);
            }
        }
        assert forall|i: int, m: int|
            0 <= i < scores.len() && 0 <= m < METRICS && stands_out(
                #[trigger] scores[i].z@[m],
            ) implies after.contains(
            Flag { key_index: i as usize, metric: m as usize, z: scores[i].z@[m] },
        ) by {
            let f = Flag { key_index: i as usize, metric: m as usize, z: scores[i].z@[m] };
            if i < scores.len() - 1 {
                assert(shorter[i].z@[m] == scores[i].z@[m]);
                assert(before.contains(f));
                let k = choose|k: int| 0 <= k < before.len() && before[k] == f;
                assert(after[k] == f);
            } else {
                assert(own.contains(f));
                let k = choose|k: int| 0 <= k < own.len() && own[k] == f;
                assert(after[before.len() + k] == f);
            }
        }
    }
}

/// A key of the same kind that is not held against is at least as far away as each
/// that is.
pub proof fn the_nearest_are_held_against(keys: Seq<Strung>, i: int, j: int, k: int)
    requires
        keys.len() <= usize::MAX,
        0 <= i < keys.len(),
        0 <= j < neighbours_of(keys, i).len(),
        0 <= k < keys.len(),
        k != i,
        keys[k].unison == keys[i].unison,
        !neighbours_of(keys, i).contains(k as usize),
    ensures
        neighbours_of(keys, i)[j] < keys.len(),
        apart(keys[neighbours_of(keys, i)[j] as int].key, keys[i].key) <= apart(
            keys[k].key,
            keys[i].key,
        ),
{
    let n = keys.len() as int;
    let kin = kin_of(keys, i, n);
    let far = distances_of(keys, i, kin);
    kin_are_keys(keys, i, n);
    all_kin_are_found(keys, i, n, k);
    crate::order::stable_of_is_stable(far);
    let order = stable_of(far);
    let r = neighbours_of(keys, i);
    let a = choose|a: int| 0 <= a < kin.len() && kin[a] == k as usize;
    crate::order::every_place_is_found(far, order, a);
    let p = choose|p: int| 0 <= p < order.len() && order[p] == a as usize;
    assert(order[j] < kin.len());
    assert(r[j] == kin[order[j] as int]);
    if p < r.len() {
        assert(r[p] == kin[order[p] as int]);
        assert(r.contains(k as usize));
    } else {
        assert(j < p);
        assert(crate::order::goes_before(far, order[j], order[p]));
    }
}

proof fn all_kin_are_found(keys: Seq<Strung>, i: int, n: int, k: int)
    requires
        0 <= i < keys.len(),
        0 <= k < n <= keys.len(),
        keys.len() <= usize::MAX,
        k != i,
        keys[k].unison == keys[i].unison,
    ensures
        kin_of(keys, i, n).contains(k as usize),
    decreases n,
{
    let before = kin_of(keys, i, n - 1);
    let after = kin_of(keys, i, n);
    if k < n - 1 {
        all_kin_are_found(keys, i, n - 1, k);
        let a = choose|a: int| 0 <= a < before.len() && before[a] == k as usize;
        assert(after[a] == k as usize);
    } else {
        assert(after[before.len() as int] == k as usize);
    }
}

/// How far apart two keys are does not depend on which is which, and is counted
/// in keys.
pub proof fn keys_are_counted_apart(a: u8, b: u8)
    ensures
        apart(a, b) == apart(b, a),
        a <= b ==> apart(a, b) == b - a,
{
}

/// The flags come the farthest out first.
pub proof fn flags_fall_in_reach(scores: Seq<Scores>, i: int, j: int)
    requires
        0 <= i < j < flagged_of(scores).len(),
        flags_in_order(scores).len() <= usize::MAX,
    ensures
        flagged_of(scores).len() == flags_in_order(scores).len(),
        flagged_of(scores)[j].z.unsigned().place() <= flagged_of(scores)[i].z.unsigned().place(),
{
    let flags = flags_in_order(scores);
    let reach = reach_of(flags);
    let keys = crate::order::depths_of(reach);
    crate::order::stable_of_is_stable(keys);
    let order = descending_of(reach);
    assert(crate::order::goes_before(keys, order[i], order[j]));
    assert(order[i] < flags.len() && order[j] < flags.len());
    assert(keys[order[i] as int] == -1 - reach[order[i] as int].place());
    assert(keys[order[j] as int] == -1 - reach[order[j] as int].place());
}

/// The worst score of a key is the largest in size, whatever its sign.
pub proof fn the_worst_score_is_largest(z: Seq<Reading>, k: int)
    requires
        0 <= k < z.len(),
        !z[k].nan(),
    ensures
        z[k].unsigned().at_most(worst_of(z).1),
        worst_of(z).1.rank() > 0 ==> 0 <= worst_of(z).0 < z.len() && z[worst_of(z).0].unsigned()
            == worst_of(z).1,
{
    let sizes = sizes_of(z);
    crate::order::greatest_above_is_greatest(sizes, Reading { bits: NOTHING });
    crate::reading::unsigned_keeps_the_kind(z[k]);
    assert(sizes[k] == z[k].unsigned());
    if let Some(i) = greatest_above(sizes, Reading { bits: NOTHING }) {
        assert(sizes[i] == z[i].unsigned());
        crate::reading::unsigned_keeps_the_kind(z[i]);
    }
}

/// A number is held against the median of its neighbours' where it was read
/// itself and at enough of them.
pub proof fn a_number_is_held_against_its_neighbours(keys: Seq<Strung>, column: Seq<Reading>, i: int)
    requires
        0 <= i < keys.len(),
        column.len() == keys.len(),
    ensures
        ({
            let at = neighbours_of(keys, i);
            let around = Seq::new(at.len(), |j: int| column[at[j] as int]);
            let r = residual_of(keys, column, i);
            &&& r is Some <==> column[i].finite() && crate::order::finite_of(around).len()
                >= NEIGHBOURS / 2
            &&& r matches Some(x) ==> x.value == column[i] && x.middle == median_of(around)
        }),
{
    let at = neighbours_of(keys, i);
    assert(readings_at(column, at) =~= Seq::new(at.len(), |j: int| column[at[j] as int]));
}

} // verus!
