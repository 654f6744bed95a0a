//! What the boards say of a pair: which bands miss their bars.

use crate::order::{ranks_of, stable_of, stable_order};
use crate::reading::Reading;
use crate::text::{listed, views};
use vstd::prelude::*;

verus! {

/// A band of the stereo columns: how many items it was read on, and whether it
/// is inside its bar.
#[derive(Clone, Copy, Debug, PartialEq, Eq, Structural)]
pub struct NoteColumn {
    pub items: usize,
    pub pass: bool,
}

/// A band of the per-channel columns.
#[derive(Clone, Copy, Debug, PartialEq, Eq, Structural)]
pub struct ChannelColumn {
    pub lo_hz: Reading,
    pub hi_hz: Reading,
    pub items: usize,
    pub pass: bool,
    pub pair_pass: bool,
}

/// A column of the melody board.
pub struct MelodyColumn {
    pub metric: String,
    pub pass: bool,
}

/// The melody columns that the pair is scored on.
pub open spec fn scored_metrics() -> Seq<Seq<char>> {
    seq!["channel"@, "balance"@, "splitting"@]
}

/// The melody columns that the pair is scored on.
pub fn melody_metrics() -> (r: Vec<String>)
    ensures
        views(r@) == scored_metrics(),
{
    let mut v: Vec<String> = Vec::new();
    v.push(String::from_str("channel"));
    v.push(String::from_str("balance"));
    v.push(String::from_str("splitting"));
    proof {
        assert(views(v@) =~= scored_metrics());
    }
    v
}

/// A band that the soundboard's modes reach: from 125 Hz up and to 500 Hz.
pub open spec fn in_modal_range(c: ChannelColumn) -> bool {
    (Reading { bits: 0x405f_4000_0000_0000 }).at_most(c.lo_hz) && c.hi_hz.at_most(
        Reading { bits: 0x407f_4000_0000_0000 },
    )
}

/// Whether a band lies where the soundboard's modes reach.
pub fn modal_channel_band(c: &ChannelColumn) -> (r: bool)
    ensures
        r == in_modal_range(*c),
{
    let low = Reading { bits: 0x405f_4000_0000_0000 };
    let high = Reading { bits: 0x407f_4000_0000_0000 };
    low.le(&c.lo_hz) && c.hi_hz.le(&high)
}

/// A stereo band that was read and misses its bar.
pub open spec fn red_note(c: NoteColumn) -> bool {
    c.items > 0 && !c.pass
}

/// A per-channel band that was read and misses its bar, or in the modal range
/// its pair's.
pub open spec fn red_channel(c: ChannelColumn) -> bool {
    c.items > 0 && !(c.pass && (c.pair_pass || !in_modal_range(c)))
}

/// A modal per-channel band that was read and misses either bar.
pub open spec fn red_modal_channel(c: ChannelColumn) -> bool {
    c.items > 0 && in_modal_range(c) && !(c.pass && c.pair_pass)
}

/// A scored melody column that misses its bar.
pub open spec fn red_melody(c: MelodyColumn) -> bool {
    scored_metrics().contains(c.metric@) && !c.pass
}

/// Whether a pair passes: no scored melody column, no stereo band and no
/// per-channel band is red.
pub fn feasible(melody: &Vec<MelodyColumn>, notes: &Vec<NoteColumn>, channels: &Vec<ChannelColumn>) -> (r: bool)
    ensures
        r == ((forall|i: int| 0 <= i < melody.len() ==> !red_melody(#[trigger] melody@[i])) && (forall|
            i: int,
        |
            0 <= i < notes.len() ==> !red_note(#[trigger] notes@[i])) && (forall|i: int|
            0 <= i < channels.len() ==> !red_channel(#[trigger] channels@[i]))),
{
    let scored = melody_metrics();
    let mut i: usize = 0;
    while i < melody.len()
        invariant
            i <= melody.len(),
            views(scored@) == scored_metrics(),
            forall|k: int| 0 <= k < i ==> !red_melody(#[trigger] melody@[k]),
        decreases melody.len() - i,
    {
        if listed(&scored, melody[i].metric.as_str()) && !melody[i].pass {
            assert(red_melody(melody@[i as int]));
            return false;
        }
        i = i + 1;
    }
    let mut j: usize = 0;
    while j < notes.len()
        invariant
            j <= notes.len(),
            forall|k: int| 0 <= k < j ==> !red_note(#[trigger] notes@[k]),
        decreases notes.len() - j,
    {
        if notes[j].items > 0 && !notes[j].pass {
            assert(red_note(notes@[j as int]));
            return false;
        }
        j = j + 1;
    }
    let mut m: usize = 0;
    while m < channels.len()
        invariant
            m <= channels.len(),
            forall|k: int| 0 <= k < m ==> !red_channel(#[trigger] channels@[k]),
        decreases channels.len() - m,
    {
        let c = &channels[m];
        if c.items > 0 && !(c.pass && (c.pair_pass || !modal_channel_band(c))) {
            assert(red_channel(channels@[m as int]));
            return false;
        }
        m = m + 1;
    }
    true
}

pub open spec fn red_notes(v: Seq<NoteColumn>) -> nat
    decreases v.len(),
{
    if v.len() == 0 {
        0
    } else {
        red_notes(v.drop_last()) + (if red_note(v.last()) {
            1nat
        } else {
            0nat
        })
    }
}

pub open spec fn red_modal_channels(v: Seq<ChannelColumn>) -> nat
    decreases v.len(),
{
    if v.len() == 0 {
        0
    } else {
        red_modal_channels(v.drop_last()) + (if red_modal_channel(v.last()) {
            1nat
        } else {
            0nat
        })
    }
}

pub open spec fn red_melodies(v: Seq<MelodyColumn>) -> nat
    decreases v.len(),
{
    if v.len() == 0 {
        0
    } else {
        red_melodies(v.drop_last()) + (if red_melody(v.last()) {
            1nat
        } else {
            0nat
        })
    }
}

/// How many scored melody columns are red.
pub fn red_melody_count(melody: &Vec<MelodyColumn>) -> (r: usize)
    ensures
        r == red_melodies(melody@),
{
    let scored = melody_metrics();
    let mut n: usize = 0;
    let mut i: usize = 0;
    proof {
        assert(melody@.take(0) =~= Seq::<MelodyColumn>::empty());
    }
    while i < melody.len()
        invariant
            i <= melody.len(),
            n <= i,
            views(scored@) == scored_metrics(),
            n == red_melodies(melody@.take(i as int)),
        decreases melody.len() - i,
    {
        proof {
            assert(melody@.take(i + 1).drop_last() =~= melody@.take(i as int));
            assert(melody@.take(i + 1).last() == melody@[i as int]);
        }
        if listed(&scored, melody[i].metric.as_str()) && !melody[i].pass {
            n = n + 1;
        }
        i = i + 1;
    }
    proof {
        assert(melody@.take(i as int) =~= melody@);
    }
    n
}

/// How many bands are charged: red stereo bands, red modal per-channel bands
/// and red scored melody columns.
pub fn red_count(melody: &Vec<MelodyColumn>, notes: &Vec<NoteColumn>, channels: &Vec<ChannelColumn>) -> (r: u128)
    ensures
        r == red_notes(notes@) + red_modal_channels(channels@) + red_melodies(melody@),
{
    let mut n: u128 = 0;
    let mut i: usize = 0;
    proof {
        assert(notes@.take(0) =~= Seq::<NoteColumn>::empty());
        assert(channels@.take(0) =~= Seq::<ChannelColumn>::empty());
    }
    while i < notes.len()
        invariant
            i <= notes.len(),
            n <= i,
            n == red_notes(notes@.take(i as int)),
        decreases notes.len() - i,
    {
        proof {
            assert(notes@.take(i + 1).drop_last() =~= notes@.take(i as int));
        }
        if notes[i].items > 0 && !notes[i].pass {
            n = n + 1;
        }
        i = i + 1;
    }
    proof {
        assert(notes@.take(i as int) =~= notes@);
    }
    let mut m: u128 = 0;
    let mut j: usize = 0;
    while j < channels.len()
        invariant
            j <= channels.len(),
            m <= j,
            m == red_modal_channels(channels@.take(j as int)),
        decreases channels.len() - j,
    {
        proof {
            assert(channels@.take(j + 1).drop_last() =~= channels@.take(j as int));
        }
        let c = &channels[j];
        if c.items > 0 && modal_channel_band(c) && !(c.pass && c.pair_pass) {
            m = m + 1;
        }
        j = j + 1;
    }
    proof {
        assert(channels@.take(j as int) =~= channels@);
    }
    n + m + red_melody_count(melody) as u128
}

/// A pair that passes is charged for nothing.
pub proof fn a_feasible_pair_is_not_charged(
    melody: Seq<MelodyColumn>,
    notes: Seq<NoteColumn>,
    channels: Seq<ChannelColumn>,
)
    requires
        forall|i: int| 0 <= i < melody.len() ==> !red_melody(#[trigger] melody[i]),
        forall|i: int| 0 <= i < notes.len() ==> !red_note(#[trigger] notes[i]),
        forall|i: int| 0 <= i < channels.len() ==> !red_channel(#[trigger] channels[i]),
    ensures
        red_notes(notes) + red_modal_channels(channels) + red_melodies(melody) == 0,
    decreases melody.len() + notes.len() + channels.len(),
{
    if melody.len() > 0 {
        assert forall|i: int| 0 <= i < melody.drop_last().len() implies !red_melody(
            #[trigger] melody.drop_last()[i],
        ) by {
            assert(melody.drop_last()[i] == melody[i]);
        }
        assert(!red_melody(melody[melody.len() - 1]));
        a_feasible_pair_is_not_charged(melody.drop_last(), notes, channels);
    } else if notes.len() > 0 {
        assert forall|i: int| 0 <= i < notes.drop_last().len() implies !red_note(
            #[trigger] notes.drop_last()[i],
        ) by {
            assert(notes.drop_last()[i] == notes[i]);
        }
        assert(!red_note(notes[notes.len() - 1]));
        a_feasible_pair_is_not_charged(melody, notes.drop_last(), channels);
    } else if channels.len() > 0 {
        assert forall|i: int| 0 <= i < channels.drop_last().len() implies !red_channel(
            #[trigger] channels.drop_last()[i],
        ) by {
            assert(channels.drop_last()[i] == channels[i]);
        }
        assert(!red_channel(channels[channels.len() - 1]));
        a_feasible_pair_is_not_charged(melody, notes, channels.drop_last());
    }
}

/// A point of a profile: its level and what is read there.
#[derive(Clone, Copy, Debug, PartialEq, Eq, Structural)]
pub struct ProfilePoint {
    pub level: Reading,
    pub value: Reading,
}

/// A point that is loud enough to be read: above -60 dB.
pub open spec fn audible(p: ProfilePoint) -> bool {
    (Reading { bits: 0xc04e_0000_0000_0000 }).below(p.level)
}

/// The finite values of the points that are loud enough, in order.
pub open spec fn read_values(points: Seq<ProfilePoint>) -> Seq<Reading>
    decreases points.len(),
{
    if points.len() == 0 {
        Seq::empty()
    } else if audible(points.last()) && points.last().value.finite() {
        read_values(points.drop_last()).push(points.last().value)
    } else {
        read_values(points.drop_last())
    }
}

/// How many points are loud enough.
pub open spec fn audible_points(points: Seq<ProfilePoint>) -> nat
    decreases points.len(),
{
    if points.len() == 0 {
        0
    } else {
        audible_points(points.drop_last()) + (if audible(points.last()) {
            1nat
        } else {
            0nat
        })
    }
}

/// The lower quartile, the median and the upper quartile of the values that can
/// be read, from the smallest up; each is the value whose place is nearest.
pub open spec fn quartiles_of(points: Seq<ProfilePoint>) -> Option<(Reading, Reading, Reading)> {
    let v = read_values(points);
    let order = stable_of(ranks_of(v));
    let last = v.len() - 1;
    if v.len() == 0 {
        None
    } else {
        Some(
            (
                v[order[(last + 2) / 4] as int],
                v[order[(last + 1) / 2] as int],
                v[order[(3 * last + 2) / 4] as int],
            ),
        )
    }
}

/// The quartiles of the values that can be read, and how many points are loud
/// enough.
pub fn quartiles(points: &Vec<ProfilePoint>) -> (r: (Option<(Reading, Reading, Reading)>, usize))
    requires
        3 * points.len() + 2 <= usize::MAX,
    ensures
        r.0 == quartiles_of(points@),
        r.1 == audible_points(points@),
{
    let floor = Reading { bits: 0xc04e_0000_0000_0000 };
    let mut v: Vec<Reading> = Vec::new();
    let mut n: usize = 0;
    let mut i: usize = 0;
    proof {
        assert(points@.take(0) =~= Seq::<ProfilePoint>::empty());
    }
    while i < points.len()
        invariant
            i <= points.len(),
            n <= i,
            v.len() <= i,
            floor == (Reading { bits: 0xc04e_0000_0000_0000 }),
            v@ == read_values(points@.take(i as int)),
            n == audible_points(points@.take(i as int)),
        decreases points.len() - i,
    {
        proof {
            assert(points@.take(i + 1).drop_last() =~= points@.take(i as int));
            assert(points@.take(i + 1).last() == points@[i as int]);
        }
        if floor.lt(&points[i].level) {
            n = n + 1;
            if points[i].value.is_finite() {
                v.push(points[i].value);
            }
        }
        i = i + 1;
    }
    proof {
        assert(points@.take(i as int) =~= points@);
    }
    if v.len() == 0 {
        return (None, n);
    }
    let order = stable_order(&crate::order::ranks(&v));
    let last: usize = v.len() - 1;
    let q = (v[order[(last + 2) / 4]], v[order[(last + 1) / 2]], v[order[(3 * last + 2) / 4]]);
    (Some(q), n)
}

/// A note column is red where something was read in it and it does not pass.
pub proof fn a_red_note_has_items_and_fails(v: Seq<NoteColumn>)
    ensures
        red_notes(v) == v.filter(|x: NoteColumn| x.items > 0 && !x.pass).len(),
    decreases v.len(),
{
    reveal(Seq::filter);
    if v.len() > 0 {
        a_red_note_has_items_and_fails(v.drop_last());
    }
}

/// A melody column is red where its metric is scored and it does not pass.
pub proof fn a_red_melody_is_scored_and_fails(v: Seq<MelodyColumn>)
    ensures
        red_melodies(v) == v.filter(|x: MelodyColumn| (x.metric@ == "channel"@ || x.metric@ == "balance"@ || x.metric@ == "splitting"@) && !x.pass).len(),
    decreases v.len(),
{
    reveal(Seq::filter);
    if v.len() > 0 {
        a_red_melody_is_scored_and_fails(v.drop_last());
    }
}

/// The points that count are those above the floor.
pub proof fn a_point_is_audible_above_the_floor(points: Seq<ProfilePoint>)
    ensures
        audible_points(points) == points.filter(|x: ProfilePoint| (Reading { bits: 0xc04e_0000_0000_0000 }).below(x.level)).len(),
    decreases points.len(),
{
    reveal(Seq::filter);
    if points.len() > 0 {
        a_point_is_audible_above_the_floor(points.drop_last());
    }
}

/// The values that are read are the finite ones of the points above the floor,
/// in order.
pub proof fn a_value_is_read_where_it_is_audible(points: Seq<ProfilePoint>)
    ensures
        read_values(points) == points.filter(|x: ProfilePoint| (Reading { bits: 0xc04e_0000_0000_0000 }).below(x.level) && x.value.finite()).map_values(|x: ProfilePoint| x.value),
    decreases points.len(),
{
    reveal(Seq::filter);
    let keep = |x: ProfilePoint| (Reading { bits: 0xc04e_0000_0000_0000 }).below(x.level) && x.value.finite();
    let value = |x: ProfilePoint| x.value;
    if points.len() > 0 {
        let shorter = points.drop_last();
        a_value_is_read_where_it_is_audible(points.drop_last());
        assert(read_values(shorter) =~= shorter.filter(keep).map_values(value));
        assert(read_values(points) =~= points.filter(keep).map_values(value));
    } else {
        assert(read_values(points) =~= points.filter(keep).map_values(value));
    }
}

/// A channel column with something in it is red where it fails; and in the range
/// of the modes also where its pair does.
pub proof fn a_channel_is_red_where_it_fails(c: ChannelColumn)
    ensures
        c.items == 0 ==> !red_channel(c) && !red_modal_channel(c),
        c.items > 0 && !c.pass ==> red_channel(c),
        c.items > 0 && c.pass && c.pair_pass ==> !red_channel(c) && !red_modal_channel(c),
        c.items > 0 && !c.pair_pass && in_modal_range(c) ==> red_channel(c) && red_modal_channel(c),
        c.items > 0 && c.pass && !in_modal_range(c) ==> !red_channel(c),
        red_modal_channel(c) ==> red_channel(c) && in_modal_range(c),
        in_modal_range(c) <==> (Reading { bits: 0x405f_4000_0000_0000 }).at_most(c.lo_hz)
            && c.hi_hz.at_most(Reading { bits: 0x407f_4000_0000_0000 }),
{
}

/// The three quartiles are values that were read, and rise.
pub proof fn the_quartiles_rise(points: Seq<ProfilePoint>)
    requires
        points.len() <= usize::MAX,
    ensures
        quartiles_of(points) is Some <==> read_values(points).len() > 0,
        quartiles_of(points) matches Some(q) ==> {
            let v = read_values(points);
            &&& v.contains(q.0) && v.contains(q.1) && v.contains(q.2)
            &&& q.0.rank() <= q.1.rank() <= q.2.rank()
        },
{
    let v = read_values(points);
    fewer_are_read(points);
    if v.len() > 0 {
        let keys = ranks_of(v);
        crate::order::stable_of_is_stable(keys);
        let order = stable_of(keys);
        let last = v.len() - 1;
        let (a, b, c) = ((last + 2) / 4, (last + 1) / 2, (3 * last + 2) / 4);
        assert(0 <= a <= b <= c <= last);
        if a < b {
            assert(crate::order::goes_before(keys, order[a], order[b]));
        }
        if b < c {
            assert(crate::order::goes_before(keys, order[b], order[c]));
        }
        assert(order[a] < v.len() && order[b] < v.len() && order[c] < v.len());
        assert(keys[order[a] as int] == v[order[a] as int].rank());
        assert(keys[order[b] as int] == v[order[b] as int].rank());
        assert(keys[order[c] as int] == v[order[c] as int].rank());
    }
}

proof fn fewer_are_read(points: Seq<ProfilePoint>)
    ensures
        read_values(points).len() <= points.len(),
    decreases points.len(),
{
    if points.len() > 0 {
        fewer_are_read(points.drop_last());
    }
}

} // verus!
