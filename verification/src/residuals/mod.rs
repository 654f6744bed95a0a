//! What the estimators leave over: which partials and recordings a reading is
//! taken from, and how they are grouped.

pub mod report;

use crate::args::{nth_or, or_default};
use crate::keys::{distinct, strictly_ascending};
use crate::order::{
    descending, descending_of, find_greatest, greatest_above, median, median_of, stable_of,
    stable_order, Middle,
};
use crate::reading::Reading;
use crate::text::{decimal, print, views};
use vstd::prelude::*;

verus! {

/// The velocity that the control renders are struck at.
pub const CONTROL_VELOCITY: u8 = 90;

/// Zero.
pub const NOTHING: u64 = 0;

/// Minus infinity.
pub const SILENCE: u64 = 0xfff0_0000_0000_0000;

/// -20 dB: the level above which a partial is asked where its pitch went.
pub const GLIDE_LEVEL: u64 = 0xc034_0000_0000_0000;

/// -40 dB: the level above which a partial counts in a stretch of the series.
pub const STRETCH_LEVEL: u64 = 0xc044_0000_0000_0000;

/// The keys that the spectra are read at.
pub open spec fn census_keys() -> Seq<u8> {
    seq![21u8, 33u8, 45u8, 57u8, 60u8, 72u8, 84u8, 96u8]
}

/// The velocity layers that the spectra are read at.
pub open spec fn census_layers() -> Seq<u8> {
    seq![3u8, 8u8, 13u8]
}

/// The keys that the spectra are read at.
pub fn keys_read() -> (r: Vec<u8>)
    ensures
        r@ == census_keys(),
{
    vec![21u8, 33u8, 45u8, 57u8, 60u8, 72u8, 84u8, 96u8]
}

/// The velocity layers that the spectra are read at.
pub fn layers_read() -> (r: Vec<u8>)
    ensures
        r@ == census_layers(),
{
    vec![3u8, 8u8, 13u8]
}

/// Where the library, the preset and the cache are.
pub struct Paths {
    pub data: String,
    pub preset: String,
    pub cache: String,
}

/// Where the library, the preset and the cache are: the first three arguments.
pub fn paths(args: &Vec<String>) -> (r: Paths)
    ensures
        r.data@ == or_default(views(args@), 0, "data/salamander"@),
        r.preset@ == or_default(views(args@), 1, "presets/salamander-c5.toml"@),
        r.cache@ == or_default(views(args@), 2, "data/cache/salamander"@),
{
    Paths {
        data: nth_or(args, 0, "data/salamander"),
        preset: nth_or(args, 1, "presets/salamander-c5.toml"),
        cache: nth_or(args, 2, "data/cache/salamander"),
    }
}

/// What one partial of a recording leaves over.
#[derive(Clone, Copy)]
pub struct Partial {
    pub k: u32,
    /// Under the loudest partial, in dB.
    pub level: Reading,
    /// From the fitted series, in cents.
    pub model: Reading,
    pub glide: Option<Reading>,
    pub envelope: Reading,
    pub trend: Option<Reading>,
}

/// The greatest departure, and the partial that it is at.
#[derive(Clone, Copy, Debug, PartialEq, Eq, Structural)]
pub struct Worst {
    pub cents: Reading,
    pub k: u32,
}

/// What one recording's partials come to.
pub struct Summary {
    pub partials: usize,
    pub worst: Worst,
    pub glide_first: Option<Reading>,
    pub glide: Middle,
    pub envelope: Middle,
    pub trend: Middle,
    /// The partials that the low stretch is fitted to, where there are enough.
    pub low: Option<Vec<usize>>,
    /// The partials that the high stretch is fitted to, where there are enough.
    pub high: Option<Vec<usize>>,
}

/// The sizes of some departures.
pub open spec fn sizes_of(cents: Seq<Reading>) -> Seq<Reading> {
    Seq::new(cents.len(), |i: int| cents[i].unsigned())
}

/// The departures of the partials from the fitted series.
pub open spec fn models_of(partials: Seq<Partial>) -> Seq<Reading> {
    Seq::new(partials.len(), |i: int| partials[i].model)
}

/// The first of the greatest departures; none, at no partial, where none
/// departs.
pub open spec fn worst_of(cents: Seq<Reading>, partials: Seq<Partial>) -> Worst {
    match greatest_above(sizes_of(cents), Reading { bits: NOTHING }) {
        None => Worst { cents: Reading { bits: NOTHING }, k: 0 },
        Some(i) => Worst { cents: cents[i].unsigned(), k: partials[i].k },
    }
}

/// The first of the greatest departures; `cents` holds one for each of the
/// first partials.
pub fn worst(cents: &Vec<Reading>, partials: &Vec<Partial>) -> (r: Worst)
    requires
        cents.len() <= partials.len(),
    ensures
        r == worst_of(cents@, partials@),
{
    let mut sizes: Vec<Reading> = Vec::new();
    let mut i: usize = 0;
    while i < cents.len()
        invariant
            i <= cents.len(),
            sizes@ == sizes_of(cents@.take(i as int)),
        decreases cents.len() - i,
    {
        sizes.push(cents[i].abs());
        i = i + 1;
        proof {
            assert(sizes@ =~= sizes_of(cents@.take(i as int)));
        }
    }
    proof {
        assert(cents@.take(i as int) =~= cents@);
        crate::order::greatest_above_is_greatest(sizes@, Reading { bits: NOTHING });
    }
    match find_greatest(&sizes, Reading { bits: NOTHING }) {
        None => Worst { cents: Reading { bits: NOTHING }, k: 0 },
        Some(i) => Worst { cents: sizes[i], k: partials[i].k },
    }
}

/// A partial loud enough to be asked where its pitch went.
pub open spec fn glides(p: Partial) -> bool {
    (Reading { bits: GLIDE_LEVEL }).below(p.level)
}

/// The pitch slide of the first fundamental that is loud enough.
pub open spec fn glide_first_of(partials: Seq<Partial>) -> Option<Reading>
    decreases partials.len(),
{
    if partials.len() == 0 {
        None
    } else if partials[0].k == 1 && glides(partials[0]) {
        partials[0].glide
    } else {
        glide_first_of(partials.skip(1))
    }
}

/// The pitch slides of the partials that are loud enough and have one.
pub open spec fn glides_of(partials: Seq<Partial>) -> Seq<Reading>
    decreases partials.len(),
{
    if partials.len() == 0 {
        Seq::empty()
    } else {
        let before = glides_of(partials.drop_last());
        match partials.last().glide {
            Some(g) => if glides(partials.last()) {
                before.push(g)
            } else {
                before
            },
            None => before,
        }
    }
}

/// The envelope residuals of the partials.
pub open spec fn envelopes_of(partials: Seq<Partial>) -> Seq<Reading> {
    Seq::new(partials.len(), |i: int| partials[i].envelope)
}

/// The envelope trends of the partials that have one.
pub open spec fn trends_of(partials: Seq<Partial>) -> Seq<Reading>
    decreases partials.len(),
{
    if partials.len() == 0 {
        Seq::empty()
    } else {
        let before = trends_of(partials.drop_last());
        match partials.last().trend {
            Some(t) => before.push(t),
            None => before,
        }
    }
}

/// The places of the partials of a stretch of the series that are loud enough.
pub open spec fn stretch_places(partials: Seq<Partial>, lo: u32, hi: u32) -> Seq<usize>
    decreases partials.len(),
{
    if partials.len() == 0 {
        Seq::empty()
    } else {
        let before = stretch_places(partials.drop_last(), lo, hi);
        let p = partials.last();
        if (Reading { bits: STRETCH_LEVEL }).below(p.level) && lo <= p.k <= hi {
            before.push((partials.len() - 1) as usize)
        } else {
            before
        }
    }
}

/// Fewest partials that a stretch is fitted to.
pub const STRETCH_LEAST: usize = 5;

/// The partials that a stretch of the series is fitted to, where there are
/// enough of them.
pub fn stretch(partials: &Vec<Partial>, lo: u32, hi: u32) -> (r: Option<Vec<usize>>)
    ensures
        match r {
            None => stretch_places(partials@, lo, hi).len() < STRETCH_LEAST,
            Some(v) => v@ == stretch_places(partials@, lo, hi) && v.len() >= STRETCH_LEAST,
        },
{
    let mut out: Vec<usize> = Vec::new();
    let mut i: usize = 0;
    proof {
        assert(partials@.take(0) =~= Seq::<Partial>::empty());
    }
    while i < partials.len()
        invariant
            i <= partials.len(),
            out@ == stretch_places(partials@.take(i as int), lo, hi),
        decreases partials.len() - i,
    {
        proof {
            assert(partials@.take(i + 1).drop_last() =~= partials@.take(i as int));
            assert(partials@.take(i + 1).last() == partials@[i as int]);
        }
        let bar = Reading { bits: STRETCH_LEVEL };
        if bar.lt(&partials[i].level) && lo <= partials[i].k && partials[i].k <= hi {
            out.push(i);
        }
        i = i + 1;
    }
    proof {
        assert(partials@.take(i as int) =~= partials@);
    }
    if out.len() < STRETCH_LEAST {
        None
    } else {
        Some(out)
    }
}

fn glide_first(partials: &Vec<Partial>) -> (r: Option<Reading>)
    ensures
        r == glide_first_of(partials@),
{
    let mut i: usize = 0;
    proof {
        assert(partials@.skip(0) =~= partials@);
    }
    while i < partials.len()
        invariant
            i <= partials.len(),
            glide_first_of(partials@) == glide_first_of(partials@.skip(i as int)),
        decreases partials.len() - i,
    {
        let bar = Reading { bits: GLIDE_LEVEL };
        if partials[i].k == 1 && bar.lt(&partials[i].level) {
            return partials[i].glide;
        }
        proof {
            assert(partials@.skip(i as int).skip(1) =~= partials@.skip(i + 1));
        }
        i = i + 1;
    }
    None
}

/// What one recording's partials come to. The worst departure is taken over the
/// first `trusted` of them, those whose number can be believed.
pub fn summarise(partials: &Vec<Partial>, trusted: usize) -> (r: Summary)
    requires
        trusted <= partials.len(),
    ensures
        r.partials == partials.len(),
        r.worst == worst_of(models_of(partials@).take(trusted as int), partials@),
        r.glide_first == glide_first_of(partials@),
        r.glide == median_of(glides_of(partials@)),
        r.envelope == median_of(envelopes_of(partials@)),
        r.trend == median_of(trends_of(partials@)),
        match r.low {
            None => stretch_places(partials@, 1, 8).len() < STRETCH_LEAST,
            Some(v) => v@ == stretch_places(partials@, 1, 8) && v.len() >= STRETCH_LEAST,
        },
        match r.high {
            None => stretch_places(partials@, 14, 26).len() < STRETCH_LEAST,
            Some(v) => v@ == stretch_places(partials@, 14, 26) && v.len() >= STRETCH_LEAST,
        },
{
    let mut models: Vec<Reading> = Vec::new();
    let mut slides: Vec<Reading> = Vec::new();
    let mut envelopes: Vec<Reading> = Vec::new();
    let mut trends: Vec<Reading> = Vec::new();
    let mut i: usize = 0;
    proof {
        assert(partials@.take(0) =~= Seq::<Partial>::empty());
    }
    while i < partials.len()
        invariant
            i <= partials.len(),
            trusted <= partials.len(),
            models@ == models_of(partials@).take(if i < trusted {
                i as int
            } else {
                trusted as int
            }),
            slides@ == glides_of(partials@.take(i as int)),
            envelopes@ == envelopes_of(partials@.take(i as int)),
            trends@ == trends_of(partials@.take(i as int)),
        decreases partials.len() - i,
    {
        proof {
            assert(partials@.take(i + 1).drop_last() =~= partials@.take(i as int));
            assert(partials@.take(i + 1).last() == partials@[i as int]);
        }
        let p = partials[i];
        if i < trusted {
            models.push(p.model);
        }
        let bar = Reading { bits: GLIDE_LEVEL };
        if let Some(g) = p.glide {
            if bar.lt(&p.level) {
                slides.push(g);
            }
        }
        envelopes.push(p.envelope);
        if let Some(t) = p.trend {
            trends.push(t);
        }
        i = i + 1;
        proof {
            assert(models@ =~= models_of(partials@).take(if i < trusted {
                i as int
            } else {
                trusted as int
            }));
            assert(envelopes@ =~= envelopes_of(partials@.take(i as int)));
        }
    }
    proof {
        assert(partials@.take(i as int) =~= partials@);
    }
    Summary {
        partials: partials.len(),
        worst: worst(&models, partials),
        glide_first: glide_first(partials),
        glide: median(&slides),
        envelope: median(&envelopes),
        trend: median(&trends),
        low: stretch(partials, 1, 8),
        high: stretch(partials, 14, 26),
    }
}

/// What the recordings are ordered by: the key, and the velocity within it.
pub open spec fn strike_numbers(strikes: Seq<(u8, u8)>) -> Seq<i64> {
    Seq::new(strikes.len(), |i: int| (strikes[i].0 * 256 + strikes[i].1) as i64)
}

/// The places of the recordings by key, and by velocity within a key.
pub fn in_order(strikes: &Vec<(u8, u8)>) -> (r: Vec<usize>)
    ensures
        r@ == stable_of(strike_numbers(strikes@)),
{
    let mut numbers: Vec<i64> = Vec::new();
    let mut i: usize = 0;
    while i < strikes.len()
        invariant
            i <= strikes.len(),
            numbers@ == strike_numbers(strikes@.take(i as int)),
        decreases strikes.len() - i,
    {
        numbers.push(strikes[i].0 as i64 * 256 + strikes[i].1 as i64);
        i = i + 1;
        proof {
            assert(numbers@ =~= strike_numbers(strikes@.take(i as int)));
        }
    }
    proof {
        assert(strikes@.take(i as int) =~= strikes@);
    }
    stable_order(&numbers)
}

/// The places at which a key stands in a list.
pub open spec fn places_of_key(keys: Seq<u8>, key: u8) -> Seq<usize>
    decreases keys.len(),
{
    if keys.len() == 0 {
        Seq::empty()
    } else if keys.last() == key {
        places_of_key(keys.drop_last(), key).push((keys.len() - 1) as usize)
    } else {
        places_of_key(keys.drop_last(), key)
    }
}

/// The places at which a key stands in a list.
pub fn where_key(keys: &Vec<u8>, key: u8) -> (r: Vec<usize>)
    ensures
        r@ == places_of_key(keys@, key),
{
    let mut out: Vec<usize> = Vec::new();
    let mut i: usize = 0;
    proof {
        assert(keys@.take(0) =~= Seq::<u8>::empty());
    }
    while i < keys.len()
        invariant
            i <= keys.len(),
            out@ == places_of_key(keys@.take(i as int), key),
        decreases keys.len() - i,
    {
        proof {
            assert(keys@.take(i + 1).drop_last() =~= keys@.take(i as int));
            assert(keys@.take(i + 1).last() == keys@[i as int]);
        }
        if keys[i] == key {
            out.push(i);
        }
        i = i + 1;
    }
    proof {
        assert(keys@.take(i as int) =~= keys@);
    }
    out
}

/// The recordings of one key.
pub struct Group {
    pub key: u8,
    pub places: Vec<usize>,
}

/// The groups are those of the keys of a list: each key once, in ascending
/// order, with all its places.
pub open spec fn groups_keys(groups: Seq<Group>, keys: Seq<u8>) -> bool {
    &&& strictly_ascending(Seq::new(groups.len(), |i: int| groups[i].key))
    &&& forall|i: int|
        0 <= i < groups.len() ==> (#[trigger] groups[i]).places@ == places_of_key(
            keys,
            groups[i].key,
        ) && keys.contains(groups[i].key)
    &&& forall|key: u8| #[trigger]
        keys.contains(key) ==> exists|i: int| 0 <= i < groups.len() && (#[trigger] groups[i]).key
            == key
}

/// The recordings by key.
pub fn grouped(keys: &Vec<u8>) -> (r: Vec<Group>)
    ensures
        groups_keys(r@, keys@),
{
    let each = distinct(keys);
    let mut out: Vec<Group> = Vec::new();
    let mut i: usize = 0;
    while i < each.len()
        invariant
            i <= each.len(),
            out.len() == i,
            forall|k: int|
                0 <= k < i ==> (#[trigger] out@[k]).key == each@[k] && out@[k].places@
                    == places_of_key(keys@, each@[k]),
        decreases each.len() - i,
    {
        out.push(Group { key: each[i], places: where_key(keys, each[i]) });
        i = i + 1;
    }
    proof {
        assert(Seq::new(out@.len(), |i: int| out@[i].key) =~= each@);
        assert forall|i: int| 0 <= i < out.len() implies keys@.contains(
            (#[trigger] out@[i]).key,
        ) by {
            assert(each@.contains(each@[i]));
        }
        assert forall|key: u8| #[trigger] keys@.contains(key) implies exists|i: int|
            0 <= i < out@.len() && (#[trigger] out@[i]).key == key by {
            assert(each@.contains(key));
            let i = choose|i: int| 0 <= i < each@.len() && each@[i] == key;
            assert(out@[i].key == key);
        }
    }
    out
}

/// A place is among those of a key exactly where the key stands there.
pub proof fn a_recording_is_in_its_keys_group(keys: Seq<u8>, key: u8, place: usize)
    requires
        keys.len() <= usize::MAX,
    ensures
        places_of_key(keys, key).contains(place) <==> (place < keys.len() && keys[place as int]
            == key),
    decreases keys.len(),
{
    if keys.len() > 0 {
        let shorter = keys.drop_last();
        a_recording_is_in_its_keys_group(shorter, key, place);
        let before = places_of_key(shorter, key);
        let n = (keys.len() - 1) as usize;
        if keys.last() == key {
            let after = before.push(n);
            assert(places_of_key(keys, key) == after);
            if before.contains(place) {
                let k = choose|k: int| 0 <= k < before.len() && before[k] == place;
                assert(after[k] == place);
            }
            if after.contains(place) && place != n {
                let k = choose|k: int| 0 <= k < after.len() && after[k] == place;
                assert(before[k] == place);
            }
            assert(after[before.len() as int] == n);
        }
    }
}

/// One partial of one recording: its key, where it is, and how far it stands
/// from the smooth spectrum.
#[derive(Clone, Copy)]
pub struct Scatter {
    pub key: u8,
    pub hz: Reading,
    pub db: Reading,
}

/// What one band of frequencies holds.
pub struct Bin {
    pub partials: usize,
    /// The middle of each key's departures, by key.
    pub notes: Vec<Middle>,
}

/// Fewest partials that a band is read from.
pub const BIN_LEAST: usize = 20;

/// A partial inside a band: at its low end or above, and under its high end.
pub open spec fn in_band(s: Scatter, lo: Reading, hi: Reading) -> bool {
    lo.at_most(s.hz) && s.hz.below(hi) && s.db.finite()
}

/// The partials inside a band.
pub open spec fn inside_of(points: Seq<Scatter>, lo: Reading, hi: Reading) -> Seq<Scatter> {
    points.filter(|s: Scatter| in_band(s, lo, hi))
}

/// The departures of one key's partials.
pub open spec fn departures_of(points: Seq<Scatter>, key: u8) -> Seq<Reading>
    decreases points.len(),
{
    if points.len() == 0 {
        Seq::empty()
    } else if points.last().key == key {
        departures_of(points.drop_last(), key).push(points.last().db)
    } else {
        departures_of(points.drop_last(), key)
    }
}

/// The keys of some partials.
pub open spec fn keys_of(points: Seq<Scatter>) -> Seq<u8> {
    Seq::new(points.len(), |i: int| points[i].key)
}

/// What a band holds: one number for each key in it, in ascending order of the
/// keys.
pub open spec fn holds_band(bin: Bin, inside: Seq<Scatter>) -> bool {
    &&& bin.partials == inside.len()
    &&& exists|each: Seq<u8>|
        {
            &&& #[trigger] strictly_ascending(each)
            &&& forall|key: u8| #[trigger]
                each.contains(key) == keys_of(inside).contains(key)
            &&& bin.notes@ == Seq::new(
                each.len(),
                |i: int| median_of(departures_of(inside, each[i])),
            )
        }
}

fn departures(points: &Vec<Scatter>, key: u8) -> (r: Vec<Reading>)
    ensures
        r@ == departures_of(points@, key),
{
    let mut out: Vec<Reading> = Vec::new();
    let mut i: usize = 0;
    proof {
        assert(points@.take(0) =~= Seq::<Scatter>::empty());
    }
    while i < points.len()
        invariant
            i <= points.len(),
            out@ == departures_of(points@.take(i as int), key),
        decreases points.len() - i,
    {
        proof {
            assert(points@.take(i + 1).drop_last() =~= points@.take(i as int));
            assert(points@.take(i + 1).last() == points@[i as int]);
        }
        if points[i].key == key {
            out.push(points[i].db);
        }
        i = i + 1;
    }
    proof {
        assert(points@.take(i as int) =~= points@);
    }
    out
}

fn inside(points: &Vec<Scatter>, lo: Reading, hi: Reading) -> (r: Vec<Scatter>)
    ensures
        r@ == inside_of(points@, lo, hi),
{
    let mut out: Vec<Scatter> = Vec::new();
    let mut i: usize = 0;
    proof {
        reveal(Seq::filter);
        assert(points@.take(0) =~= Seq::<Scatter>::empty());
    }
    while i < points.len()
        invariant
            i <= points.len(),
            out@ == inside_of(points@.take(i as int), lo, hi),
        decreases points.len() - i,
    {
        proof {
            reveal(Seq::filter);
            assert(points@.take(i + 1).drop_last() =~= points@.take(i as int));
        }
        let s = points[i];
        if lo.le(&s.hz) && s.hz.lt(&hi) && s.db.is_finite() {
            out.push(s);
        }
        i = i + 1;
    }
    proof {
        assert(points@.take(i as int) =~= points@);
    }
    out
}

/// What a band holds, where it holds enough to be read.
pub fn bin(points: &Vec<Scatter>, lo: Reading, hi: Reading) -> (r: Option<Bin>)
    ensures
        match r {
            None => inside_of(points@, lo, hi).len() < BIN_LEAST,
            Some(b) => inside_of(points@, lo, hi).len() >= BIN_LEAST && holds_band(
                b,
                inside_of(points@, lo, hi),
            ),
        },
{
    let held = inside(points, lo, hi);
    if held.len() < BIN_LEAST {
        return None;
    }
    let mut keys: Vec<u8> = Vec::new();
    let mut i: usize = 0;
    while i < held.len()
        invariant
            i <= held.len(),
            keys@ == keys_of(held@.take(i as int)),
        decreases held.len() - i,
    {
        keys.push(held[i].key);
        i = i + 1;
        proof {
            assert(keys@ =~= keys_of(held@.take(i as int)));
        }
    }
    proof {
        assert(held@.take(i as int) =~= held@);
    }
    let each = distinct(&keys);
    let mut notes: Vec<Middle> = Vec::new();
    let mut j: usize = 0;
    while j < each.len()
        invariant
            j <= each.len(),
            notes@ == Seq::new(j as nat, |i: int| median_of(departures_of(held@, each@[i]))),
        decreases each.len() - j,
    {
        notes.push(median(&departures(&held, each[j])));
        j = j + 1;
        proof {
            assert(notes@ =~= Seq::new(
                j as nat,
                |i: int| median_of(departures_of(held@, each@[i])),
            ));
        }
    }
    proof {
        assert(notes@ =~= Seq::new(
            each@.len(),
            |i: int| median_of(departures_of(held@, each@[i])),
        ));
    }
    Some(Bin { partials: held.len(), notes })
}

/// What a peak of a spectrum is.
#[derive(Clone, Copy, Debug, PartialEq, Eq, Structural)]
pub enum Class {
    Transverse,
    Combination,
    Neighbour,
    Unexplained,
}

/// A peak of a spectrum.
#[derive(Clone, Copy)]
pub struct Peak {
    pub class: Class,
    pub level: Reading,
}

/// The places of the peaks of a class.
pub open spec fn of_class(peaks: Seq<Peak>, class: Class) -> Seq<usize>
    decreases peaks.len(),
{
    if peaks.len() == 0 {
        Seq::empty()
    } else if peaks.last().class == class {
        of_class(peaks.drop_last(), class).push((peaks.len() - 1) as usize)
    } else {
        of_class(peaks.drop_last(), class)
    }
}

/// The levels at some places.
pub open spec fn levels_at(peaks: Seq<Peak>, at: Seq<usize>) -> Seq<Reading> {
    Seq::new(at.len(), |i: int| peaks[at[i] as int].level)
}

/// The peaks of one class: how many there are, and which is the loudest.
pub struct Share {
    pub count: usize,
    pub loudest: Option<usize>,
}

/// What is counted of one class: the loudest is the first of the greatest levels
/// over minus infinity.
pub open spec fn counts(share: Share, peaks: Seq<Peak>, class: Class) -> bool {
    let at = of_class(peaks, class);
    &&& share.count == at.len()
    &&& match greatest_above(levels_at(peaks, at), Reading { bits: SILENCE }) {
        None => share.loudest is None,
        Some(i) => share.loudest == Some(at[i]),
    }
}

/// What a spectrum is made of.
pub struct Census {
    pub transverse: Share,
    pub combination: Share,
    pub neighbour: Share,
    pub unexplained: Share,
    /// The loudest unexplained peaks, the loudest first.
    pub strongest: Vec<usize>,
}

/// How many unexplained peaks are named.
pub const NAMED: usize = 4;

/// The unexplained peaks that are named: the loudest first, those alike in order.
pub open spec fn strongest_of(peaks: Seq<Peak>) -> Seq<usize> {
    let at = of_class(peaks, Class::Unexplained);
    let order = descending_of(levels_at(peaks, at));
    Seq::new(
        if order.len() < NAMED {
            order.len()
        } else {
            NAMED as nat
        },
        |i: int| at[order[i] as int],
    )
}

proof fn class_places(peaks: Seq<Peak>, class: Class)
    requires
        peaks.len() <= usize::MAX,
    ensures
        forall|i: int|
            0 <= i < of_class(peaks, class).len() ==> (#[trigger] of_class(peaks, class)[i])
                < peaks.len(),
    decreases peaks.len(),
{
    if peaks.len() > 0 {
        let before = of_class(peaks.drop_last(), class);
        class_places(peaks.drop_last(), class);
        assert forall|i: int| 0 <= i < of_class(peaks, class).len() implies (#[trigger] of_class(
            peaks,
            class,
        )[i]) < peaks.len() by {
            if i < before.len() {
                assert(before[i] < peaks.len());
            }
        }
    }
}

fn where_class(peaks: &Vec<Peak>, class: Class) -> (r: Vec<usize>)
    ensures
        r@ == of_class(peaks@, class),
        forall|i: int| 0 <= i < r.len() ==> (#[trigger] r@[i]) < peaks.len(),
{
    let mut out: Vec<usize> = Vec::new();
    let mut i: usize = 0;
    proof {
        assert(peaks@.take(0) =~= Seq::<Peak>::empty());
    }
    while i < peaks.len()
        invariant
            i <= peaks.len(),
            out@ == of_class(peaks@.take(i as int), class),
        decreases peaks.len() - i,
    {
        proof {
            assert(peaks@.take(i + 1).drop_last() =~= peaks@.take(i as int));
            assert(peaks@.take(i + 1).last() == peaks@[i as int]);
        }
        if peaks[i].class == class {
            out.push(i);
        }
        i = i + 1;
    }
    proof {
        assert(peaks@.take(i as int) =~= peaks@);
        class_places(peaks@, class);
    }
    out
}

fn levels(peaks: &Vec<Peak>, at: &Vec<usize>) -> (r: Vec<Reading>)
    requires
        forall|i: int| 0 <= i < at.len() ==> (#[trigger] at@[i]) < peaks.len(),
    ensures
        r@ == levels_at(peaks@, at@),
{
    let mut out: Vec<Reading> = Vec::new();
    let mut i: usize = 0;
    while i < at.len()
        invariant
            i <= at.len(),
            forall|i: int| 0 <= i < at.len() ==> (#[trigger] at@[i]) < peaks.len(),
            out@ == levels_at(peaks@, at@.take(i as int)),
        decreases at.len() - i,
    {
        out.push(peaks[at[i]].level);
        i = i + 1;
        proof {
            assert(out@ =~= levels_at(peaks@, at@.take(i as int)));
        }
    }
    proof {
        assert(at@.take(i as int) =~= at@);
    }
    out
}

fn share(peaks: &Vec<Peak>, class: Class) -> (r: Share)
    ensures
        counts(r, peaks@, class),
{
    let at = where_class(peaks, class);
    let level = levels(peaks, &at);
    let loudest = find_greatest(&level, Reading { bits: SILENCE });
    proof {
        crate::order::greatest_above_is_greatest(level@, Reading { bits: SILENCE });
    }
    Share {
        count: at.len(),
        loudest: match loudest {
            None => None,
            Some(i) => Some(at[i]),
        },
    }
}

/// What a spectrum is made of.
pub fn census(peaks: &Vec<Peak>) -> (r: Census)
    ensures
        counts(r.transverse, peaks@, Class::Transverse),
        counts(r.combination, peaks@, Class::Combination),
        counts(r.neighbour, peaks@, Class::Neighbour),
        counts(r.unexplained, peaks@, Class::Unexplained),
        r.strongest@ == strongest_of(peaks@),
{
    let at = where_class(peaks, Class::Unexplained);
    let order = descending(&levels(peaks, &at));
    let mut strongest: Vec<usize> = Vec::new();
    let n: usize = if order.len() < NAMED {
        order.len()
    } else {
        NAMED
    };
    let mut i: usize = 0;
    proof {
        crate::order::stable_of_is_stable(crate::order::depths_of(levels_at(peaks@, at@)));
    }
    while i < n
        invariant
            i <= n <= order.len(),
            n <= NAMED,
            at@ == of_class(peaks@, Class::Unexplained),
            order@ == descending_of(levels_at(peaks@, at@)),
            forall|k: int| 0 <= k < order.len() ==> (#[trigger] order@[k]) < at.len(),
            strongest@ == Seq::new(i as nat, |k: int| at@[order@[k] as int]),
        decreases n - i,
    {
        strongest.push(at[order[i]]);
        i = i + 1;
        proof {
            assert(strongest@ =~= Seq::new(i as nat, |k: int| at@[order@[k] as int]));
        }
    }
    proof {
        assert(strongest@ =~= strongest_of(peaks@));
    }
    Census {
        transverse: share(peaks, Class::Transverse),
        combination: share(peaks, Class::Combination),
        neighbour: share(peaks, Class::Neighbour),
        unexplained: share(peaks, Class::Unexplained),
        strongest,
    }
}

/// Every peak is of one class.
pub proof fn every_peak_is_counted_once(peaks: Seq<Peak>)
    ensures
        of_class(peaks, Class::Transverse).len() + of_class(peaks, Class::Combination).len()
            + of_class(peaks, Class::Neighbour).len() + of_class(peaks, Class::Unexplained).len()
            == peaks.len(),
    decreases peaks.len(),
{
    if peaks.len() > 0 {
        every_peak_is_counted_once(peaks.drop_last());
    }
}

/// The keys that a peak may be the pitch of: every key but the struck one, from
/// the lowest up.
pub open spec fn others_from(key: u8, from: int) -> Seq<u8>
    decreases 109 - from,
{
    if from > 108 {
        Seq::empty()
    } else if from == key {
        others_from(key, from + 1)
    } else {
        seq![from as u8] + others_from(key, from + 1)
    }
}

/// The keys that a peak may be the pitch of.
pub fn other_keys(key: u8) -> (r: Vec<u8>)
    ensures
        r@ == others_from(key, 21),
{
    let mut out: Vec<u8> = Vec::new();
    let mut k: u8 = 21;
    while k <= 108
        invariant
            21 <= k <= 109,
            out@ + others_from(key, k as int) == others_from(key, 21),
        decreases 109 - k,
    {
        if k != key {
            let ghost before = out@;
            out.push(k);
            proof {
                assert(out@ + others_from(key, k + 1) =~= before + (seq![k] + others_from(
                    key,
                    k + 1,
                )));
            }
        }
        k = k + 1;
    }
    proof {
        assert(out@ + others_from(key, 109) =~= out@);
    }
    out
}

/// The pairs of audible partials whose sum may be probed, as places: the lower
/// of the third or above, the higher of the ninth or below.
pub open spec fn pairs_from(ks: Seq<u32>, a: int, b: int) -> Seq<(usize, usize)>
    decreases ks.len() - a, ks.len() - b,
{
    if a < 0 || b < a || a >= ks.len() {
        Seq::empty()
    } else if b >= ks.len() {
        pairs_from(ks, a + 1, a + 1)
    } else if ks[a] < 3 || ks[b] > 9 {
        pairs_from(ks, a, b + 1)
    } else {
        seq![(a as usize, b as usize)] + pairs_from(ks, a, b + 1)
    }
}

/// The pairs of audible partials whose sum may be probed, as places.
pub fn probe_pairs(ks: &Vec<u32>) -> (r: Vec<(usize, usize)>)
    ensures
        r@ == pairs_from(ks@, 0, 0),
{
    let mut out: Vec<(usize, usize)> = Vec::new();
    let mut a: usize = 0;
    let ghost all = pairs_from(ks@, 0, 0);
    while a < ks.len()
        invariant
            a <= ks.len(),
            out@ + pairs_from(ks@, a as int, a as int) == all,
        decreases ks.len() - a,
    {
        let mut b: usize = a;
        while b < ks.len()
            invariant
                a <= b <= ks.len(),
                a < ks.len(),
                out@ + pairs_from(ks@, a as int, b as int) == all,
            decreases ks.len() - b,
        {
            if !(ks[a] < 3 || ks[b] > 9) {
                let ghost before = out@;
                out.push((a, b));
                proof {
                    assert(out@ + pairs_from(ks@, a as int, b + 1) =~= before + (seq![(a, b)]
                        + pairs_from(ks@, a as int, b + 1)));
                }
            }
            b = b + 1;
        }
        a = a + 1;
    }
    proof {
        assert(out@ + pairs_from(ks@, a as int, a as int) =~= out@);
    }
    out
}

/// The most sums that are probed.
pub const MOST_PROBES: usize = 4;

/// The places of the clearances that are wide enough.
pub open spec fn clear_of(clearances: Seq<Reading>, least: Reading) -> Seq<usize>
    decreases clearances.len(),
{
    if clearances.len() == 0 {
        Seq::empty()
    } else if least.at_most(clearances.last()) {
        clear_of(clearances.drop_last(), least).push((clearances.len() - 1) as usize)
    } else {
        clear_of(clearances.drop_last(), least)
    }
}

/// The readings at some places.
pub open spec fn readings_at(v: Seq<Reading>, at: Seq<usize>) -> Seq<Reading> {
    Seq::new(at.len(), |i: int| v[at[i] as int])
}

/// The sums that are probed: of those that stand clear enough of every partial
/// the clearest, no more than the most that are probed, of those alike the ones
/// that come first; they are listed from the least clear to the clearest.
pub open spec fn probes_of(clearances: Seq<Reading>, least: Reading) -> Seq<usize> {
    let at = clear_of(clearances, least);
    let order = descending_of(readings_at(clearances, at));
    let n = if order.len() < MOST_PROBES {
        order.len()
    } else {
        MOST_PROBES as nat
    };
    Seq::new(n, |i: int| at[order[n - 1 - i] as int])
}

proof fn clear_places(clearances: Seq<Reading>, least: Reading)
    requires
        clearances.len() <= usize::MAX,
    ensures
        forall|i: int|
            0 <= i < clear_of(clearances, least).len() ==> (#[trigger] clear_of(
                clearances,
                least,
            )[i]) < clearances.len() && least.at_most(
                clearances[clear_of(clearances, least)[i] as int],
            ),
        clear_of(clearances, least).len() <= clearances.len(),
    decreases clearances.len(),
{
    if clearances.len() > 0 {
        let shorter = clearances.drop_last();
        let before = clear_of(shorter, least);
        let after = clear_of(clearances, least);
        clear_places(shorter, least);
        assert forall|i: int| 0 <= i < after.len() implies (#[trigger] after[i]) < clearances.len()
            && least.at_most(clearances[after[i] as int]) by {
            if i < before.len() {
                assert(before[i] < shorter.len());
                assert(shorter[before[i] as int] == clearances[before[i] as int]);
            }
        }
    }
}

/// The sums that are probed.
pub fn choose_probes(clearances: &Vec<Reading>, least: Reading) -> (r: Vec<usize>)
    ensures
        r@ == probes_of(clearances@, least),
{
    let mut at: Vec<usize> = Vec::new();
    let mut wide: Vec<Reading> = Vec::new();
    let mut i: usize = 0;
    proof {
        assert(clearances@.take(0) =~= Seq::<Reading>::empty());
    }
    while i < clearances.len()
        invariant
            i <= clearances.len(),
            at@ == clear_of(clearances@.take(i as int), least),
            wide@ == readings_at(clearances@, at@),
        decreases clearances.len() - i,
    {
        proof {
            assert(clearances@.take(i + 1).drop_last() =~= clearances@.take(i as int));
            assert(clearances@.take(i + 1).last() == clearances@[i as int]);
        }
        if least.le(&clearances[i]) {
            at.push(i);
            wide.push(clearances[i]);
            proof {
                assert(wide@ =~= readings_at(clearances@, at@));
            }
        }
        i = i + 1;
    }
    proof {
        assert(clearances@.take(i as int) =~= clearances@);
        assert(wide.len() == wide@.len());
        crate::order::stable_of_is_stable(crate::order::depths_of(wide@));
    }
    let order = descending(&wide);
    let n: usize = if order.len() < MOST_PROBES {
        order.len()
    } else {
        MOST_PROBES
    };
    let mut out: Vec<usize> = Vec::new();
    let mut j: usize = 0;
    while j < n
        invariant
            j <= n <= order.len(),
            forall|k: int| 0 <= k < order.len() ==> (#[trigger] order@[k]) < at.len(),
            out@ == Seq::new(j as nat, |k: int| at@[order@[n - 1 - k] as int]),
        decreases n - j,
    {
        out.push(at[order[n - 1 - j]]);
        j = j + 1;
        proof {
            assert(out@ =~= Seq::new(j as nat, |k: int| at@[order@[n - 1 - k] as int]));
        }
    }
    proof {
        assert(out@ =~= probes_of(clearances@, least));
    }
    out
}

/// Every sum that is probed stands clear enough.
pub proof fn every_probe_stands_clear(clearances: Seq<Reading>, least: Reading, i: int)
    requires
        clearances.len() <= usize::MAX,
        0 <= i < probes_of(clearances, least).len(),
    ensures
        probes_of(clearances, least)[i] < clearances.len(),
        least.at_most(clearances[probes_of(clearances, least)[i] as int]),
        probes_of(clearances, least).len() <= MOST_PROBES,
{
    let at = clear_of(clearances, least);
    clear_places(clearances, least);
    crate::order::stable_of_is_stable(crate::order::depths_of(readings_at(clearances, at)));
    let order = descending_of(readings_at(clearances, at));
    let n = probes_of(clearances, least).len();
    assert(order[n - 1 - i] < at.len());
}

/// The probes are listed from the least clear to the clearest.
pub proof fn probes_rise_in_clearance(clearances: Seq<Reading>, least: Reading, i: int, j: int)
    requires
        clearances.len() <= usize::MAX,
        0 <= i < j < probes_of(clearances, least).len(),
    ensures
        clearances[probes_of(clearances, least)[i] as int].at_most(
            clearances[probes_of(clearances, least)[j] as int],
        ),
{
    let at = clear_of(clearances, least);
    let wide = readings_at(clearances, at);
    let keys = crate::order::depths_of(wide);
    clear_places(clearances, least);
    crate::order::stable_of_is_stable(keys);
    let order = descending_of(wide);
    let n = probes_of(clearances, least).len();
    let (a, b) = (order[n - 1 - i], order[n - 1 - j]);
    assert(crate::order::goes_before(keys, b, a));
    assert(a < at.len() && b < at.len());
    assert(least.at_most(clearances[at[a as int] as int]));
    assert(least.at_most(clearances[at[b as int] as int]));
    assert(keys[b as int] <= keys[a as int]);
}

/// The places of the points of one pair.
pub open spec fn points_of(pairs: Seq<(u32, u32)>, pair: (u32, u32)) -> Seq<usize>
    decreases pairs.len(),
{
    if pairs.len() == 0 {
        Seq::empty()
    } else if pairs.last() == pair {
        points_of(pairs.drop_last(), pair).push((pairs.len() - 1) as usize)
    } else {
        points_of(pairs.drop_last(), pair)
    }
}

/// Fewest layers that a slope is read from.
pub const LAYERS_LEAST: usize = 4;

/// The points of one pair, where there are enough for a slope.
pub fn points(pairs: &Vec<(u32, u32)>, pair: (u32, u32)) -> (r: Option<Vec<usize>>)
    ensures
        match r {
            None => points_of(pairs@, pair).len() < LAYERS_LEAST,
            Some(v) => v@ == points_of(pairs@, pair) && v.len() >= LAYERS_LEAST,
        },
{
    let mut out: Vec<usize> = Vec::new();
    let mut i: usize = 0;
    proof {
        assert(pairs@.take(0) =~= Seq::<(u32, u32)>::empty());
    }
    while i < pairs.len()
        invariant
            i <= pairs.len(),
            out@ == points_of(pairs@.take(i as int), pair),
        decreases pairs.len() - i,
    {
        proof {
            assert(pairs@.take(i + 1).drop_last() =~= pairs@.take(i as int));
            assert(pairs@.take(i + 1).last() == pairs@[i as int]);
        }
        if pairs[i].0 == pair.0 && pairs[i].1 == pair.1 {
            out.push(i);
        }
        i = i + 1;
    }
    proof {
        assert(pairs@.take(i as int) =~= pairs@);
    }
    if out.len() < LAYERS_LEAST {
        None
    } else {
        Some(out)
    }
}

/// What one sum was measured at: its own level, the levels to either side of
/// it, and those of the two partials.
#[derive(Clone, Copy)]
pub struct Probe {
    pub sum: Option<Reading>,
    pub below: Option<Reading>,
    pub above: Option<Reading>,
    pub first: Option<Reading>,
    pub second: Option<Reading>,
}

/// One sum that could be measured.
#[derive(Clone, Copy, Debug, PartialEq, Eq, Structural)]
pub struct Phantom {
    pub level: Reading,
    /// The quieter of the two sides.
    pub floor: Reading,
    pub first: Reading,
    pub second: Reading,
}

/// The lesser of two readings; the other, where one is no number.
pub open spec fn lesser(a: Reading, b: Reading) -> Reading {
    if a.nan() {
        b
    } else if b.below(a) {
        b
    } else {
        a
    }
}

/// What a sum comes to: it is left out unless all five levels were found.
pub open spec fn phantom_of(p: Probe) -> Option<Phantom> {
    match (p.sum, p.below, p.above, p.first, p.second) {
        (Some(level), Some(below), Some(above), Some(first), Some(second)) => Some(
            Phantom { level, floor: lesser(below, above), first, second },
        ),
        _ => None,
    }
}

/// What a sum comes to.
pub fn phantom(p: &Probe) -> (r: Option<Phantom>)
    ensures
        r == phantom_of(*p),
{
    match (p.sum, p.below, p.above, p.first, p.second) {
        (Some(level), Some(below), Some(above), Some(first), Some(second)) => {
            let floor = if below.is_nan() {
                above
            } else if above.lt(&below) {
                above
            } else {
                below
            };
            Some(Phantom { level, floor, first, second })
        },
        _ => None,
    }
}

/// A recording of the mechanism: its name, the key that it is heard against
/// where it has one, and how far down it is played, in dB.
pub struct Recorded {
    pub name: String,
    pub key: Option<u8>,
    pub gain: i32,
}

/// A recording of the mechanism is this one.
pub open spec fn is_recorded(r: Recorded, name: Seq<char>, key: Option<u8>, gain: int) -> bool {
    r.name@ == name && r.key == key && r.gain == gain
}

/// The name of a key-off recording: they are numbered from the lowest key.
pub open spec fn key_off_text(key: u8) -> Seq<char> {
    "rel"@ + decimal((key - 20) as nat)
}

fn key_off(key: u8) -> (r: Recorded)
    requires
        21 <= key,
    ensures
        is_recorded(r, key_off_text(key), Some(key), -37),
{
    let mut name = String::from_str("rel");
    name.append(print((key - 20) as u64).as_str());
    Recorded { name, key: Some(key), gain: -37 }
}

/// The recordings of the mechanism, in the order they are reported in.
pub fn mechanism() -> (r: Vec<Recorded>)
    ensures
        r.len() == 16,
        forall|i: int|
            0 <= i < 8 ==> #[trigger] is_recorded(
                r@[i],
                key_off_text(census_keys()[i]),
                Some(census_keys()[i]),
                -37,
            ),
        is_recorded(r@[8], "pedalD1"@, None, -20),
        is_recorded(r@[9], "pedalD2"@, None, -20),
        is_recorded(r@[10], "pedalU1"@, None, -19),
        is_recorded(r@[11], "pedalU2"@, None, -19),
        is_recorded(r@[12], "harmLC3"@, Some(48), -4),
        is_recorded(r@[13], "harmSC3"@, Some(48), 0),
        is_recorded(r@[14], "harmLC5"@, Some(48), -4),
        is_recorded(r@[15], "harmSC5"@, Some(48), 0),
{
    let keys = keys_read();
    let mut out: Vec<Recorded> = Vec::new();
    let mut i: usize = 0;
    while i < keys.len()
        invariant
            i <= keys.len(),
            keys@ == census_keys(),
            out.len() == i,
            forall|k: int|
                0 <= k < i ==> #[trigger] is_recorded(
                    out@[k],
                    key_off_text(census_keys()[k]),
                    Some(census_keys()[k]),
                    -37,
                ),
        decreases keys.len() - i,
    {
        out.push(key_off(keys[i]));
        i = i + 1;
    }
    out.push(Recorded { name: String::from_str("pedalD1"), key: None, gain: -20 });
    out.push(Recorded { name: String::from_str("pedalD2"), key: None, gain: -20 });
    out.push(Recorded { name: String::from_str("pedalU1"), key: None, gain: -19 });
    out.push(Recorded { name: String::from_str("pedalU2"), key: None, gain: -19 });
    out.push(Recorded { name: String::from_str("harmLC3"), key: Some(48), gain: -4 });
    out.push(Recorded { name: String::from_str("harmSC3"), key: Some(48), gain: 0 });
    out.push(Recorded { name: String::from_str("harmLC5"), key: Some(48), gain: -4 });
    out.push(Recorded { name: String::from_str("harmSC5"), key: Some(48), gain: 0 });
    out
}

/// The key that a recording of the mechanism is heard against.
pub fn heard_against(r: &Recorded) -> (key: u8)
    ensures
        key == match r.key {
            None => 60u8,
            Some(k) => k,
        },
{
    match r.key {
        None => 60,
        Some(k) => k,
    }
}

/// A stretch is read from the partials of its range that stand above the level,
/// in order.
pub proof fn a_stretch_is_read_where_it_is_loud(partials: Seq<Partial>, lo: u32, hi: u32)
    requires
        partials.len() <= usize::MAX,
    ensures
        forall|a: int, b: int|
            0 <= a < b < stretch_places(partials, lo, hi).len() ==> (#[trigger] stretch_places(partials, lo, hi)[a]) < (#[trigger] stretch_places(partials, lo, hi)[b]),
        forall|a: int|
            0 <= a < stretch_places(partials, lo, hi).len() ==> {
                let i = #[trigger] stretch_places(partials, lo, hi)[a];
                i < partials.len() && (Reading { bits: STRETCH_LEVEL }).below(partials[i as int].level) && lo <= partials[i as int].k <= hi
            },
        forall|i: int|
            0 <= i < partials.len() && (Reading { bits: STRETCH_LEVEL }).below((#[trigger] partials[i]).level) && lo <= partials[i].k <= hi ==> stretch_places(partials, lo, hi).contains(i as usize),
    decreases partials.len(),
{
    if partials.len() > 0 {
        let shorter = partials.drop_last();
        a_stretch_is_read_where_it_is_loud(partials.drop_last(), lo, hi);
        let before = stretch_places(shorter, lo, hi);
        let after = stretch_places(partials, lo, hi);
        let n = partials.len() - 1;
        assert forall|a: int, b: int| 0 <= a < b < after.len() implies (#[trigger] after[a]) < (
        #[trigger] after[b]) by {
            assert(before[a] < n);
            if b < before.len() {
                assert(before[a] < before[b]);
            }
        }
        assert forall|a: int| 0 <= a < after.len() implies {
            let i = #[trigger] after[a];
            i < partials.len() && (Reading { bits: STRETCH_LEVEL }).below(partials[i as int].level) && lo <= partials[i as int].k <= hi
        } by {
            if a < before.len() {
                assert(before[a] == after[a]);
                assert(shorter[before[a] as int] == partials[before[a] as int]);
            }
        }
        assert forall|i: int| 0 <= i < partials.len() && (Reading { bits: STRETCH_LEVEL }).below((#[trigger] partials[i]).level) && lo <= partials[i].k <= hi implies after.contains(i as usize) by {
            if i < n {
                assert(shorter[i] == partials[i]);
                assert(before.contains(i as usize));
                let a = choose|a: int| 0 <= a < before.len() && before[a] == i as usize;
                assert(after[a] == i as usize);
            } else {
                assert(after[before.len() as int] == n as usize);
            }
        }
    }
}

/// A class holds the peaks of that class, in order.
pub proof fn a_class_holds_its_own_peaks(peaks: Seq<Peak>, class: Class)
    requires
        peaks.len() <= usize::MAX,
    ensures
        forall|a: int, b: int|
            0 <= a < b < of_class(peaks, class).len() ==> (#[trigger] of_class(peaks, class)[a]) < (#[trigger] of_class(peaks, class)[b]),
        forall|a: int|
            0 <= a < of_class(peaks, class).len() ==> {
                let i = #[trigger] of_class(peaks, class)[a];
                i < peaks.len() && peaks[i as int].class == class
            },
        forall|i: int|
            0 <= i < peaks.len() && (#[trigger] peaks[i]).class == class ==> of_class(peaks, class).contains(i as usize),
    decreases peaks.len(),
{
    if peaks.len() > 0 {
        let shorter = peaks.drop_last();
        a_class_holds_its_own_peaks(peaks.drop_last(), class);
        let before = of_class(shorter, class);
        let after = of_class(peaks, class);
        let n = peaks.len() - 1;
        assert forall|a: int, b: int| 0 <= a < b < after.len() implies (#[trigger] after[a]) < (
        #[trigger] after[b]) by {
            assert(before[a] < n);
            if b < before.len() {
                assert(before[a] < before[b]);
            }
        }
        assert forall|a: int| 0 <= a < after.len() implies {
            let i = #[trigger] after[a];
            i < peaks.len() && peaks[i as int].class == class
        } by {
            if a < before.len() {
                assert(before[a] == after[a]);
                assert(shorter[before[a] as int] == peaks[before[a] as int]);
            }
        }
        assert forall|i: int| 0 <= i < peaks.len() && (#[trigger] peaks[i]).class == class implies after.contains(i as usize) by {
            if i < n {
                assert(shorter[i] == peaks[i]);
                assert(before.contains(i as usize));
                let a = choose|a: int| 0 <= a < before.len() && before[a] == i as usize;
                assert(after[a] == i as usize);
            } else {
                assert(after[before.len() as int] == n as usize);
            }
        }
    }
}

/// The sums that are clear are those at least as far off as it takes, in order.
pub proof fn a_clear_sum_is_found(clearances: Seq<Reading>, least: Reading)
    requires
        clearances.len() <= usize::MAX,
    ensures
        forall|a: int, b: int|
            0 <= a < b < clear_of(clearances, least).len() ==> (#[trigger] clear_of(clearances, least)[a]) < (#[trigger] clear_of(clearances, least)[b]),
        forall|a: int|
            0 <= a < clear_of(clearances, least).len() ==> {
                let i = #[trigger] clear_of(clearances, least)[a];
                i < clearances.len() && least.at_most(clearances[i as int])
            },
        forall|i: int|
            0 <= i < clearances.len() && least.at_most((#[trigger] clearances[i])) ==> clear_of(clearances, least).contains(i as usize),
    decreases clearances.len(),
{
    if clearances.len() > 0 {
        let shorter = clearances.drop_last();
        a_clear_sum_is_found(clearances.drop_last(), least);
        let before = clear_of(shorter, least);
        let after = clear_of(clearances, least);
        let n = clearances.len() - 1;
        assert forall|a: int, b: int| 0 <= a < b < after.len() implies (#[trigger] after[a]) < (
        #[trigger] after[b]) by {
            assert(before[a] < n);
            if b < before.len() {
                assert(before[a] < before[b]);
            }
        }
        assert forall|a: int| 0 <= a < after.len() implies {
            let i = #[trigger] after[a];
            i < clearances.len() && least.at_most(clearances[i as int])
        } by {
            if a < before.len() {
                assert(before[a] == after[a]);
                assert(shorter[before[a] as int] == clearances[before[a] as int]);
            }
        }
        assert forall|i: int| 0 <= i < clearances.len() && least.at_most((#[trigger] clearances[i])) implies after.contains(i as usize) by {
            if i < n {
                assert(shorter[i] == clearances[i]);
                assert(before.contains(i as usize));
                let a = choose|a: int| 0 <= a < before.len() && before[a] == i as usize;
                assert(after[a] == i as usize);
            } else {
                assert(after[before.len() as int] == n as usize);
            }
        }
    }
}

/// The points of a pair are those measured at it, in order.
pub proof fn a_pairs_points_are_its_own(pairs: Seq<(u32, u32)>, pair: (u32, u32))
    requires
        pairs.len() <= usize::MAX,
    ensures
        forall|a: int, b: int|
            0 <= a < b < points_of(pairs, pair).len() ==> (#[trigger] points_of(pairs, pair)[a]) < (#[trigger] points_of(pairs, pair)[b]),
        forall|a: int|
            0 <= a < points_of(pairs, pair).len() ==> {
                let i = #[trigger] points_of(pairs, pair)[a];
                i < pairs.len() && pairs[i as int] == pair
            },
        forall|i: int|
            0 <= i < pairs.len() && (#[trigger] pairs[i]) == pair ==> points_of(pairs, pair).contains(i as usize),
    decreases pairs.len(),
{
    if pairs.len() > 0 {
        let shorter = pairs.drop_last();
        a_pairs_points_are_its_own(pairs.drop_last(), pair);
        let before = points_of(shorter, pair);
        let after = points_of(pairs, pair);
        let n = pairs.len() - 1;
        assert forall|a: int, b: int| 0 <= a < b < after.len() implies (#[trigger] after[a]) < (
        #[trigger] after[b]) by {
            assert(before[a] < n);
            if b < before.len() {
                assert(before[a] < before[b]);
            }
        }
        assert forall|a: int| 0 <= a < after.len() implies {
            let i = #[trigger] after[a];
            i < pairs.len() && pairs[i as int] == pair
        } by {
            if a < before.len() {
                assert(before[a] == after[a]);
                assert(shorter[before[a] as int] == pairs[before[a] as int]);
            }
        }
        assert forall|i: int| 0 <= i < pairs.len() && (#[trigger] pairs[i]) == pair implies after.contains(i as usize) by {
            if i < n {
                assert(shorter[i] == pairs[i]);
                assert(before.contains(i as usize));
                let a = choose|a: int| 0 <= a < before.len() && before[a] == i as usize;
                assert(after[a] == i as usize);
            } else {
                assert(after[before.len() as int] == n as usize);
            }
        }
    }
}

/// The departures of a key are the levels of its points, in order.
pub proof fn departures_are_of_one_key(points: Seq<Scatter>, key: u8)
    ensures
        departures_of(points, key) == points.filter(|x: Scatter| x.key == key).map_values(|x: Scatter| x.db),
    decreases points.len(),
{
    reveal(Seq::filter);
    let keep = |x: Scatter| x.key == key;
    let value = |x: Scatter| x.db;
    if points.len() > 0 {
        let shorter = points.drop_last();
        departures_are_of_one_key(points.drop_last(), key);
        assert(departures_of(shorter, key) =~= shorter.filter(keep).map_values(value));
        assert(departures_of(points, key) =~= points.filter(keep).map_values(value));
    } else {
        assert(departures_of(points, key) =~= points.filter(keep).map_values(value));
    }
}

/// The glides are those of the partials above the level that have one.
pub proof fn glides_are_of_loud_partials(partials: Seq<Partial>)
    ensures
        glides_of(partials) == partials.filter(|x: Partial| x.glide is Some && (Reading { bits: GLIDE_LEVEL }).below(x.level)).map_values(|x: Partial| x.glide->0),
    decreases partials.len(),
{
    reveal(Seq::filter);
    let keep = |x: Partial| x.glide is Some && (Reading { bits: GLIDE_LEVEL }).below(x.level);
    let value = |x: Partial| x.glide->0;
    if partials.len() > 0 {
        let shorter = partials.drop_last();
        glides_are_of_loud_partials(partials.drop_last());
        assert(glides_of(shorter) =~= shorter.filter(keep).map_values(value));
        assert(glides_of(partials) =~= partials.filter(keep).map_values(value));
    } else {
        assert(glides_of(partials) =~= partials.filter(keep).map_values(value));
    }
}

/// The trends are those of the partials that have one.
pub proof fn trends_are_of_every_partial(partials: Seq<Partial>)
    ensures
        trends_of(partials) == partials.filter(|x: Partial| x.trend is Some).map_values(|x: Partial| x.trend->0),
    decreases partials.len(),
{
    reveal(Seq::filter);
    let keep = |x: Partial| x.trend is Some;
    let value = |x: Partial| x.trend->0;
    if partials.len() > 0 {
        let shorter = partials.drop_last();
        trends_are_of_every_partial(partials.drop_last());
        assert(trends_of(shorter) =~= shorter.filter(keep).map_values(value));
        assert(trends_of(partials) =~= partials.filter(keep).map_values(value));
    } else {
        assert(trends_of(partials) =~= partials.filter(keep).map_values(value));
    }
}

/// The departures of partials from their model and from their envelope are read
/// from the fields of those names.
pub proof fn partials_are_read_by_name(partials: Seq<Partial>)
    ensures
        models_of(partials) == partials.map_values(|p: Partial| p.model),
        envelopes_of(partials) == partials.map_values(|p: Partial| p.envelope),
{
    assert(models_of(partials) =~= partials.map_values(|p: Partial| p.model));
    assert(envelopes_of(partials) =~= partials.map_values(|p: Partial| p.envelope));
}

/// The glide of the first partial is that of the first loud one with that
/// number; there is none where no such partial is.
pub proof fn the_first_glide_is_the_fundamentals(partials: Seq<Partial>, i: int)
    requires
        0 <= i < partials.len(),
        partials[i].k == 1,
        (Reading { bits: GLIDE_LEVEL }).below(partials[i].level),
        forall|j: int|
            0 <= j < i ==> (#[trigger] partials[j]).k != 1 || !(Reading { bits: GLIDE_LEVEL }).below(
                partials[j].level,
            ),
    ensures
        glide_first_of(partials) == partials[i].glide,
    decreases partials.len(),
{
    if i > 0 {
        assert(partials[0].k != 1 || !(Reading { bits: GLIDE_LEVEL }).below(partials[0].level));
        let rest = partials.skip(1);
        assert forall|j: int| 0 <= j < i - 1 implies (#[trigger] rest[j]).k != 1 || !(Reading {
            bits: GLIDE_LEVEL,
        }).below(rest[j].level) by {
            assert(rest[j] == partials[j + 1]);
        }
        assert(rest[i - 1] == partials[i]);
        the_first_glide_is_the_fundamentals(rest, i - 1);
    }
}

/// The worst departure is the first of the largest, whatever its sign, and is
/// named by its partial.
pub proof fn the_worst_departure_is_largest(cents: Seq<Reading>, partials: Seq<Partial>, k: int)
    requires
        cents.len() <= partials.len(),
        0 <= k < cents.len(),
        !cents[k].nan(),
    ensures
        ({
            let w = worst_of(cents, partials);
            &&& cents[k].unsigned().at_most(w.cents)
            &&& w.cents.rank() > 0 ==> exists|i: int|
                0 <= i < cents.len() && (#[trigger] cents[i]).unsigned() == w.cents && partials[i].k
                    == w.k
        }),
{
    let sizes = sizes_of(cents);
    crate::order::greatest_above_is_greatest(sizes, Reading { bits: NOTHING });
    crate::reading::unsigned_keeps_the_kind(cents[k]);
    assert(sizes[k] == cents[k].unsigned());
    if let Some(i) = greatest_above(sizes, Reading { bits: NOTHING }) {
        assert(sizes[i] == cents[i].unsigned());
        crate::reading::unsigned_keeps_the_kind(cents[i]);
    }
}

/// The other keys are all of the keyboard but the one, from the lowest up.
pub proof fn the_others_are_all_but_one(key: u8, from: int)
    requires
        21 <= from,
    ensures
        forall|k: u8| #[trigger] others_from(key, from).contains(k) <==> from <= k <= 108 && k != key,
        forall|a: int, b: int|
            0 <= a < b < others_from(key, from).len() ==> (#[trigger] others_from(key, from)[a]) < (
            #[trigger] others_from(key, from)[b]),
    decreases 109 - from,
{
    if from <= 108 {
        the_others_are_all_but_one(key, from + 1);
        let rest = others_from(key, from + 1);
        let all = others_from(key, from);
        if from != key {
            assert(all == seq![from as u8] + rest);
            assert forall|k: u8| #[trigger] all.contains(k) <==> from <= k <= 108 && k != key by {
                if all.contains(k) {
                    let a = choose|a: int| 0 <= a < all.len() && all[a] == k;
                    if a > 0 {
                        assert(rest[a - 1] == k);
                        assert(rest.contains(k));
                    }
                }
                if from <= k <= 108 && k != key {
                    if k == from {
                        assert(all[0] == k);
                    } else {
                        assert(rest.contains(k));
                        let a = choose|a: int| 0 <= a < rest.len() && rest[a] == k;
                        assert(all[a + 1] == k);
                    }
                }
            }
            assert forall|a: int, b: int| 0 <= a < b < all.len() implies (#[trigger] all[a]) < (
            #[trigger] all[b]) by {
                assert(rest[b - 1] == all[b]);
                assert(rest.contains(rest[b - 1]));
                if a > 0 {
                    assert(rest[a - 1] < rest[b - 1]);
                }
            }
        }
    }
}

/// A phantom is read only where all five levels are: its level is that at the
/// sum, its floor the lower of those beside it, and the two partials keep their
/// order.
pub proof fn a_phantom_takes_the_lower_floor(p: Probe)
    ensures
        phantom_of(p) is Some <==> p.sum is Some && p.below is Some && p.above is Some
            && p.first is Some && p.second is Some,
        phantom_of(p) matches Some(f) ==> {
            &&& f.level == p.sum->0
            &&& f.first == p.first->0
            &&& f.second == p.second->0
            &&& f.floor == p.below->0 || f.floor == p.above->0
            &&& !(p.below->0).below(f.floor) && !(p.above->0).below(f.floor)
            &&& f.floor.nan() ==> (p.below->0).nan() && (p.above->0).nan()
        },
{
}

/// Strikes are taken by key, those of one key by velocity, and equal ones as
/// they came.
pub proof fn strikes_are_by_key_and_velocity(strikes: Seq<(u8, u8)>, i: int, j: int)
    requires
        strikes.len() <= usize::MAX,
        0 <= i < j < strikes.len(),
    ensures
        ({
            let order = stable_of(strike_numbers(strikes));
            let (a, b) = (strikes[order[i] as int], strikes[order[j] as int]);
            &&& order[i] < strikes.len() && order[j] < strikes.len()
            &&& a.0 < b.0 || (a.0 == b.0 && (a.1 < b.1 || (a.1 == b.1 && order[i] < order[j])))
        }),
{
    let keys = strike_numbers(strikes);
    crate::order::stable_of_is_stable(keys);
    let order = stable_of(keys);
    assert(crate::order::goes_before(keys, order[i], order[j]));
    assert(order[i] < strikes.len() && order[j] < strikes.len());
}

/// The loudest peak of a class is the first of its loudest.
pub proof fn the_loudest_of_a_class_is_loudest(share: Share, peaks: Seq<Peak>, class: Class, i: int)
    requires
        peaks.len() <= usize::MAX,
        counts(share, peaks, class),
        0 <= i < peaks.len(),
        peaks[i].class == class,
    ensures
        share.count > 0,
        share.loudest matches Some(k) ==> k < peaks.len() && peaks[k as int].class == class
            && !peaks[k as int].level.below(peaks[i].level),
        share.loudest is None ==> !(Reading { bits: SILENCE }).below(peaks[i].level),
{
    let at = of_class(peaks, class);
    a_class_holds_its_own_peaks(peaks, class);
    let levels = levels_at(peaks, at);
    crate::order::greatest_above_is_greatest(levels, Reading { bits: SILENCE });
    assert(at.contains(i as usize));
    let a = choose|a: int| 0 <= a < at.len() && at[a] == i as usize;
    assert(levels[a] == peaks[i].level);
    if let Some(b) = greatest_above(levels, Reading { bits: SILENCE }) {
        assert(levels[b] == peaks[at[b] as int].level);
        assert(at[b] < peaks.len());
    }
}

} // verus!
