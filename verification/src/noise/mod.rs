//! The mechanism's balance: the command line, which channel is the worse, and
//! what the readings come to.

pub mod report;

use crate::args::{follows, Halt, maybe, nth_or, or_default, positional, standing, Stop};
use crate::order::{ascending, finite_of, keep_finite, sort};
use crate::paths::{alike, same_path};
use crate::reading::Reading;
use crate::text::{parse_whole, same, views, whole};
use vstd::prelude::*;

verus! {

/// The velocities that the balance is read at.
pub open spec fn velocities_of() -> Seq<u8> {
    seq![24u8, 48u8, 72u8, 88u8, 110u8]
}

/// The velocities that the balance is read at.
pub fn velocities() -> (r: Vec<u8>)
    ensures
        r@ == velocities_of(),
{
    vec![24u8, 48u8, 72u8, 88u8, 110u8]
}

/// Fewest readings that a correction is fitted from.
pub const MIN_READINGS: usize = 30;

/// What the command line asks for.
pub struct NoiseOptions {
    pub data: String,
    pub preset: String,
    pub out: Option<String>,
    /// The one key to read, where it is said.
    pub only: Option<u8>,
    pub mechanism: bool,
    pub base: String,
}

/// What the flags ask for.
pub ghost struct NoiseArgs {
    pub out: Option<Seq<char>>,
    pub only: Option<u8>,
    pub mechanism: bool,
    pub base: Seq<char>,
}

/// What is said where a flag stands without its value.
pub open spec fn unvalued(flag: Seq<char>) -> Halt {
    Halt::Panic("a value must follow "@ + flag)
}

/// A flag that takes a value.
pub open spec fn valued(arg: Seq<char>) -> bool {
    arg == "--out"@ || arg == "--key"@ || arg == "--stage"@ || arg == "--base"@
}

/// The flags that take a value.
pub open spec fn value_flags_of() -> Seq<Seq<char>> {
    seq!["--out"@, "--key"@, "--stage"@, "--base"@]
}

fn value_flags() -> (r: Vec<String>)
    ensures
        views(r@) == value_flags_of(),
{
    let mut r: Vec<String> = Vec::new();
    r.push(String::from_str("--out"));
    r.push(String::from_str("--key"));
    r.push(String::from_str("--stage"));
    r.push(String::from_str("--base"));
    proof {
        assert(views(r@) =~= value_flags_of());
    }
    r
}

/// What the arguments from `i` on add to what was read before them.
pub open spec fn read_from(args: Seq<Seq<char>>, i: int, so_far: NoiseArgs) -> Result<NoiseArgs, Halt>
    decreases args.len() - i,
{
    if i < 0 || i >= args.len() {
        Ok(so_far)
    } else if !valued(args[i]) {
        read_from(args, i + 1, so_far)
    } else if i + 1 >= args.len() {
        Err(unvalued(args[i]))
    } else if args[i] == "--out"@ {
        read_from(args, i + 2, NoiseArgs { out: Some(args[i + 1]), ..so_far })
    } else if args[i] == "--key"@ {
        match whole(args[i + 1], 255) {
            Err(e) => Err(Halt::Error(e.says())),
            Ok(n) => read_from(args, i + 2, NoiseArgs { only: Some(n as u8), ..so_far }),
        }
    } else if args[i] == "--stage"@ {
        if args[i + 1] == "mechanism"@ {
            read_from(args, i + 2, NoiseArgs { mechanism: true, ..so_far })
        } else if args[i + 1] == "balance"@ {
            read_from(args, i + 2, NoiseArgs { mechanism: false, ..so_far })
        } else {
            Err(Halt::Error("no such noise stage: "@ + args[i + 1]))
        }
    } else {
        read_from(args, i + 2, NoiseArgs { base: args[i + 1], ..so_far })
    }
}

/// What is asked for where no flag stands.
pub open spec fn nothing() -> NoiseArgs {
    NoiseArgs { out: None, only: None, mechanism: false, base: "presets/default.toml"@ }
}

impl NoiseOptions {
    /// What the flags ask for.
    pub open spec fn flags(&self) -> NoiseArgs {
        NoiseArgs {
            out: maybe(self.out),
            only: self.only,
            mechanism: self.mechanism,
            base: self.base@,
        }
    }
}

/// What the command line asks for: the arguments that are neither flags nor the
/// value of one name the library and the preset.
pub fn options(args: &Vec<String>) -> (r: Result<NoiseOptions, Stop>)
    ensures
        match r {
            Ok(o) => {
                &&& read_from(views(args@), 0, nothing()) == Ok::<NoiseArgs, Halt>(o.flags())
                &&& o.data@ == or_default(
                    standing(views(args@), 0, value_flags_of()),
                    0,
                    "data/salamander"@,
                )
                &&& o.preset@ == or_default(
                    standing(views(args@), 0, value_flags_of()),
                    1,
                    "presets/salamander-c5.toml"@,
                )
            },
            Err(e) => read_from(views(args@), 0, nothing()) == Err::<NoiseArgs, Halt>(e@),
        },
{
    let ghost all = views(args@);
    let plain = positional(args, &value_flags());
    let mut o = NoiseOptions {
        data: nth_or(&plain, 0, "data/salamander"),
        preset: nth_or(&plain, 1, "presets/salamander-c5.toml"),
        out: None,
        only: None,
        mechanism: false,
        base: String::from_str("presets/default.toml"),
    };
    let mut i: usize = 0;
    while i < args.len()
        invariant
            i <= args.len(),
            all == views(args@),
            o.data@ == or_default(standing(all, 0, value_flags_of()), 0, "data/salamander"@),
            o.preset@ == or_default(
                standing(all, 0, value_flags_of()),
                1,
                "presets/salamander-c5.toml"@,
            ),
            read_from(all, 0, nothing()) == read_from(all, i as int, o.flags()),
        decreases args.len() - i,
    {
        let arg = args[i].as_str();
        let out = same(arg, "--out");
        let key = same(arg, "--key");
        let stage = same(arg, "--stage");
        let base = same(arg, "--base");
        if !(out || key || stage || base) {
            i = i + 1;
        } else if i + 1 >= args.len() {
            let mut text = String::from_str("a value must follow ");
            text.append(arg);
            return Err(Stop::Panic(text));
        } else {
            if out {
                o.out = Some(args[i + 1].clone());
            } else if key {
                match parse_whole(args[i + 1].as_str(), 255) {
                    Err(e) => {
                        return Err(Stop::Error(e.message()));
                    },
                    Ok(n) => {
                        o.only = Some(n as u8);
                    },
                }
            } else if stage {
                if same(args[i + 1].as_str(), "mechanism") {
                    o.mechanism = true;
                } else if same(args[i + 1].as_str(), "balance") {
                    o.mechanism = false;
                } else {
                    let mut text = String::from_str("no such noise stage: ");
                    text.append(args[i + 1].as_str());
                    return Err(Stop::Error(text));
                }
            } else {
                o.base = args[i + 1].clone();
            }
            i = i + 2;
        }
    }
    Ok(o)
}

pub const OVER_ITSELF: &'static str = "--out may not be the preset being measured";

/// Whether the preset would be written over while it is measured: the balance is
/// read off the preset's own renders, and the two paths are one.
pub fn writes_over_itself(o: &NoiseOptions) -> (r: bool)
    ensures
        r == (!o.mechanism && match o.out {
            None => false,
            Some(out) => alike(out@, o.preset@),
        }),
{
    if o.mechanism {
        return false;
    }
    match &o.out {
        None => false,
        Some(out) => same_path(out.as_str(), o.preset.as_str()),
    }
}

/// A level at a key.
#[derive(Clone, Copy, Debug, PartialEq, Eq, Structural)]
pub struct Anchor {
    pub key: u8,
    pub db: Reading,
}

/// The event of a strike: its levels, and the rest of it.
pub struct Strike {
    pub level: Vec<Anchor>,
    pub velocity: Reading,
    pub centroid: Reading,
    pub bandwidth: Reading,
    pub decay: Reading,
}

/// The strike silenced: one anchor, at the lowest key, at the level of silence.
pub open spec fn silenced(s: Strike, r: Strike, silence: Reading) -> bool {
    &&& r.level@ == seq![Anchor { key: 21, db: silence }]
    &&& r.velocity == s.velocity
    &&& r.centroid == s.centroid
    &&& r.bandwidth == s.bandwidth
    &&& r.decay == s.decay
}

/// The same strike, silenced.
pub fn without_strike(s: &Strike, silence: Reading) -> (r: Strike)
    ensures
        silenced(*s, r, silence),
{
    let mut level: Vec<Anchor> = Vec::new();
    level.push(Anchor { key: 21, db: silence });
    proof {
        assert(level@ =~= seq![Anchor { key: 21, db: silence }]);
    }
    Strike {
        level,
        velocity: s.velocity,
        centroid: s.centroid,
        bandwidth: s.bandwidth,
        decay: s.decay,
    }
}

/// Silencing a strike that is silenced changes nothing.
pub proof fn silence_is_silence(s: Strike, once: Strike, twice: Strike, silence: Reading)
    requires
        silenced(s, once, silence),
        silenced(once, twice, silence),
    ensures
        twice.level@ == once.level@,
        twice.velocity == once.velocity,
        twice.centroid == once.centroid,
        twice.bandwidth == once.bandwidth,
        twice.decay == once.decay,
{
}

/// Which channel is farther from the recording: the left, where the right is not.
pub open spec fn worse_of(left: Reading, right: Reading) -> int {
    if right.at_most(left) {
        0
    } else {
        1
    }
}

/// Which channel is farther from the recording.
pub fn worse(left: Reading, right: Reading) -> (r: usize)
    ensures
        r == worse_of(left, right),
{
    if right.le(&left) {
        0
    } else {
        1
    }
}

/// The channel that is taken is no nearer than the other.
pub proof fn the_worse_channel_is_no_nearer(left: Reading, right: Reading)
    requires
        !left.nan(),
        !right.nan(),
    ensures
        worse_of(left, right) == 0 ==> right.at_most(left),
        worse_of(left, right) == 1 ==> left.below(right),
{
}

/// The name of a channel.
pub fn channel_name(c: usize) -> (r: &'static str)
    ensures
        r@ == if c == 0 {
            "L"@
        } else if c == 1 {
            "R"@
        } else {
            "mono"@
        },
{
    if c == 0 {
        "L"
    } else if c == 1 {
        "R"
    } else {
        "mono"
    }
}

/// How many notes are worse in the left channel, and how many in the right.
pub fn worse_counts(away: &Vec<(Reading, Reading)>) -> (r: (usize, usize))
    ensures
        r.0 == left_of(away@),
        r.0 + r.1 == away.len(),
{
    let mut left: usize = 0;
    let mut i: usize = 0;
    proof {
        assert(away@.take(0) =~= Seq::<(Reading, Reading)>::empty());
    }
    while i < away.len()
        invariant
            i <= away.len(),
            left <= i,
            left == left_of(away@.take(i as int)),
        decreases away.len() - i,
    {
        proof {
            assert(away@.take(i + 1).drop_last() =~= away@.take(i as int));
            assert(away@.take(i + 1).last() == away@[i as int]);
        }
        if worse(away[i].0, away[i].1) == 0 {
            left = left + 1;
        }
        i = i + 1;
    }
    proof {
        assert(away@.take(i as int) =~= away@);
    }
    (left, away.len() - left)
}

/// How many notes are worse in the left channel.
pub open spec fn left_of(away: Seq<(Reading, Reading)>) -> nat
    decreases away.len(),
{
    if away.len() == 0 {
        0
    } else {
        left_of(away.drop_last()) + (if worse_of(away.last().0, away.last().1) == 0 {
            1nat
        } else {
            0nat
        })
    }
}

/// The upper middle and the greatest of the finite readings of a column.
pub open spec fn column_of(v: Seq<Reading>) -> Option<(Reading, Reading)> {
    let sorted = ascending(finite_of(v));
    if sorted.len() == 0 {
        None
    } else {
        Some((sorted[sorted.len() as int / 2], sorted.last()))
    }
}

/// The upper middle and the greatest of the finite readings of a column.
pub fn column(v: &Vec<Reading>) -> (r: Option<(Reading, Reading)>)
    ensures
        r == column_of(v@),
{
    let sorted = sort(&keep_finite(v));
    let n: usize = sorted.len();
    if n == 0 {
        None
    } else {
        Some((sorted[n / 2], sorted[n - 1]))
    }
}

/// One note's reading: how far the engine is from the recording, and the offset
/// that would put the two together, where there is one.
#[derive(Clone, Copy)]
pub struct Note {
    pub velocity: u8,
    pub away: Reading,
    pub offset: Option<Reading>,
}

/// How far the notes of a velocity are away.
pub open spec fn aways_at(notes: Seq<Note>, velocity: u8) -> Seq<Reading>
    decreases notes.len(),
{
    if notes.len() == 0 {
        Seq::empty()
    } else if notes.last().velocity == velocity {
        aways_at(notes.drop_last(), velocity).push(notes.last().away)
    } else {
        aways_at(notes.drop_last(), velocity)
    }
}

/// The offsets of the notes of a velocity that have one.
pub open spec fn offsets_at(notes: Seq<Note>, velocity: u8) -> Seq<Reading>
    decreases notes.len(),
{
    if notes.len() == 0 {
        Seq::empty()
    } else {
        let before = offsets_at(notes.drop_last(), velocity);
        match notes.last().offset {
            Some(o) => if notes.last().velocity == velocity {
                before.push(o)
            } else {
                before
            },
            None => before,
        }
    }
}

/// What the notes of one velocity come to.
#[derive(Clone, Copy, Debug, PartialEq, Eq, Structural)]
pub struct AtVelocity {
    pub away: Reading,
    pub offset: Option<Reading>,
    pub count: usize,
}

/// The upper middle of readings, where there are any.
pub open spec fn upper(v: Seq<Reading>) -> Option<Reading> {
    if v.len() == 0 {
        None
    } else {
        Some(ascending(v)[v.len() as int / 2])
    }
}

/// What the notes of one velocity come to: none, where none of them was read.
pub fn at_velocity(notes: &Vec<Note>, velocity: u8) -> (r: Option<AtVelocity>)
    ensures
        match upper(finite_of(aways_at(notes@, velocity))) {
            None => r is None,
            Some(away) => r matches Some(v) && v.away == away && v.offset == upper(
                offsets_at(notes@, velocity),
            ) && v.count == offsets_at(notes@, velocity).len(),
        },
{
    let mut aways: Vec<Reading> = Vec::new();
    let mut offsets: Vec<Reading> = Vec::new();
    let mut i: usize = 0;
    proof {
        assert(notes@.take(0) =~= Seq::<Note>::empty());
    }
    while i < notes.len()
        invariant
            i <= notes.len(),
            aways@ == aways_at(notes@.take(i as int), velocity),
            offsets@ == offsets_at(notes@.take(i as int), velocity),
        decreases notes.len() - i,
    {
        proof {
            assert(notes@.take(i + 1).drop_last() =~= notes@.take(i as int));
            assert(notes@.take(i + 1).last() == notes@[i as int]);
        }
        if notes[i].velocity == velocity {
            aways.push(notes[i].away);
            if let Some(o) = notes[i].offset {
                offsets.push(o);
            }
        }
        i = i + 1;
    }
    proof {
        assert(notes@.take(i as int) =~= notes@);
        crate::order::ascending_is_sorted(finite_of(aways@));
        crate::order::ascending_is_sorted(offsets@);
    }
    let read = sort(&keep_finite(&aways));
    if read.len() == 0 {
        return None;
    }
    let held = sort(&offsets);
    Some(
        AtVelocity {
            away: read[read.len() / 2],
            offset: if held.len() == 0 {
                None
            } else {
                Some(held[held.len() / 2])
            },
            count: held.len(),
        },
    )
}

/// How many of the notes have an offset.
pub open spec fn inverted_of(notes: Seq<Note>) -> nat
    decreases notes.len(),
{
    if notes.len() == 0 {
        0
    } else {
        inverted_of(notes.drop_last()) + (if notes.last().offset is Some {
            1nat
        } else {
            0nat
        })
    }
}

/// How many of the notes have an offset.
pub fn inverted(notes: &Vec<Note>) -> (r: usize)
    ensures
        r == inverted_of(notes@),
{
    let mut n: usize = 0;
    let mut i: usize = 0;
    proof {
        assert(notes@.take(0) =~= Seq::<Note>::empty());
    }
    while i < notes.len()
        invariant
            i <= notes.len(),
            n <= i,
            n == inverted_of(notes@.take(i as int)),
        decreases notes.len() - i,
    {
        proof {
            assert(notes@.take(i + 1).drop_last() =~= notes@.take(i as int));
            assert(notes@.take(i + 1).last() == notes@[i as int]);
        }
        if notes[i].offset.is_some() {
            n = n + 1;
        }
        i = i + 1;
    }
    proof {
        assert(notes@.take(i as int) =~= notes@);
    }
    n
}

/// The corrections at a velocity are those of its notes that have one.
pub proof fn offsets_of_a_velocity_are_its_own(notes: Seq<Note>, velocity: u8)
    ensures
        offsets_at(notes, velocity) == notes.filter(|x: Note| x.offset is Some && x.velocity == velocity).map_values(|x: Note| x.offset->0),
    decreases notes.len(),
{
    reveal(Seq::filter);
    let keep = |x: Note| x.offset is Some && x.velocity == velocity;
    let value = |x: Note| x.offset->0;
    if notes.len() > 0 {
        let shorter = notes.drop_last();
        offsets_of_a_velocity_are_its_own(notes.drop_last(), velocity);
        assert(offsets_at(shorter, velocity) =~= shorter.filter(keep).map_values(value));
        assert(offsets_at(notes, velocity) =~= notes.filter(keep).map_values(value));
    } else {
        assert(offsets_at(notes, velocity) =~= notes.filter(keep).map_values(value));
    }
}

/// The distances at a velocity are those of its notes.
pub proof fn the_distances_at_a_velocity_are_its_own(notes: Seq<Note>, velocity: u8)
    ensures
        aways_at(notes, velocity) == notes.filter(|x: Note| x.velocity == velocity).map_values(|x: Note| x.away),
    decreases notes.len(),
{
    reveal(Seq::filter);
    let keep = |x: Note| x.velocity == velocity;
    let value = |x: Note| x.away;
    if notes.len() > 0 {
        let shorter = notes.drop_last();
        the_distances_at_a_velocity_are_its_own(notes.drop_last(), velocity);
        assert(aways_at(shorter, velocity) =~= shorter.filter(keep).map_values(value));
        assert(aways_at(notes, velocity) =~= notes.filter(keep).map_values(value));
    } else {
        assert(aways_at(notes, velocity) =~= notes.filter(keep).map_values(value));
    }
}

/// The notes that are inverted are those with a correction.
pub proof fn a_note_is_inverted_where_it_is_corrected(notes: Seq<Note>)
    ensures
        inverted_of(notes) == notes.filter(|x: Note| x.offset is Some).len(),
    decreases notes.len(),
{
    reveal(Seq::filter);
    if notes.len() > 0 {
        a_note_is_inverted_where_it_is_corrected(notes.drop_last());
    }
}

/// The left channel is the worse where the right one is no farther away.
pub proof fn the_left_is_worse_where_the_right_is_no_farther(away: Seq<(Reading, Reading)>)
    ensures
        left_of(away) == away.filter(|x: (Reading, Reading)| x.1.at_most(x.0)).len(),
    decreases away.len(),
{
    reveal(Seq::filter);
    if away.len() > 0 {
        the_left_is_worse_where_the_right_is_no_farther(away.drop_last());
    }
}

/// A column is read from its finite readings: the greatest of them, and the
/// upper of the middle ones.
pub proof fn a_column_is_its_middle_and_its_greatest(v: Seq<Reading>, k: int)
    requires
        0 <= k < finite_of(v).len(),
    ensures
        column_of(v) matches Some(c) && finite_of(v)[k].place() <= c.1.place() && c.0.place()
            <= c.1.place() && finite_of(v).contains(c.0) && finite_of(v).contains(c.1),
{
    let f = finite_of(v);
    let sorted = ascending(f);
    crate::order::ascending_is_sorted(f);
    let n = sorted.len() as int;
    f.to_multiset_ensures();
    sorted.to_multiset_ensures();
    assert(f.to_multiset().count(f[k]) > 0) by {
        assert(f.contains(f[k]));
    }
    assert(sorted.contains(f[k]));
    let at = choose|at: int| 0 <= at < n && sorted[at] == f[k];
    let leq = |a: Reading, b: Reading| a.place() <= b.place();
    assert(vstd::relations::sorted_by(sorted, leq));
    if at < n - 1 {
        assert(leq(sorted[at], sorted[n - 1]));
    }
    if n / 2 < n - 1 {
        assert(leq(sorted[n / 2], sorted[n - 1]));
    }
    assert(sorted.contains(sorted[n - 1]) && sorted.contains(sorted[n / 2]));
    assert(f.to_multiset().count(sorted[n - 1]) > 0 && f.to_multiset().count(sorted[n / 2]) > 0);
    assert(f.contains(sorted[n - 1]));
    assert(f.contains(sorted[n / 2]));
}

/// What the command line asks for stands behind the flag of that name, and what
/// no flag asks for stays as it was.
pub proof fn every_option_stands_behind_its_flag(args: Seq<Seq<char>>, i: int, so_far: NoiseArgs)
    requires
        0 <= i < args.len(),
    ensures
        read_from(args, i, so_far) matches Ok(o) ==> {
            &&& o.out == so_far.out || (o.out matches Some(x) && follows(args, "--out"@, x))
            &&& so_far.out is Some || args[i] == "--out"@ ==> o.out is Some
            &&& o.base == so_far.base || follows(args, "--base"@, o.base)
            &&& o.only is Some ==> so_far.only is Some || args.contains("--key"@)
            &&& so_far.only is Some || args[i] == "--key"@ ==> o.only is Some
            &&& o.mechanism ==> so_far.mechanism || follows(args, "--stage"@, "mechanism"@)
            &&& !o.mechanism ==> !so_far.mechanism || follows(args, "--stage"@, "balance"@)
        },
    decreases args.len() - i,
{
    if read_from(args, i, so_far) is Ok {
        reveal_strlit("--out");
        reveal_strlit("--key");
        reveal_strlit("--stage");
        reveal_strlit("--base");
        assert("--out"@[2] != "--key"@[2]);
        assert("--out"@.len() != "--stage"@.len());
        assert("--out"@.len() != "--base"@.len());
        assert("--key"@.len() != "--stage"@.len());
        assert("--key"@.len() != "--base"@.len());
        assert("--stage"@.len() != "--base"@.len());
        reveal_strlit("mechanism");
        reveal_strlit("balance");
        assert("mechanism"@.len() != "balance"@.len());
        if !valued(args[i]) {
            if i + 1 < args.len() {
                every_option_stands_behind_its_flag(args, i + 1, so_far);
            }
        } else if args[i] == "--out"@ {
            let next = NoiseArgs { out: Some(args[i + 1]), ..so_far };
            assert(read_from(args, i, so_far) == read_from(args, i + 2, next));
            if i + 2 < args.len() {
                every_option_stands_behind_its_flag(args, i + 2, next);
            }
        } else if args[i] == "--key"@ {
            let next = NoiseArgs { only: Some(whole(args[i + 1], 255)->Ok_0 as u8), ..so_far };
            assert(read_from(args, i, so_far) == read_from(args, i + 2, next));
            if i + 2 < args.len() {
                every_option_stands_behind_its_flag(args, i + 2, next);
            }
        } else if args[i] == "--stage"@ && args[i + 1] == "mechanism"@ {
            let next = NoiseArgs { mechanism: true, ..so_far };
            assert(read_from(args, i, so_far) == read_from(args, i + 2, next));
            if i + 2 < args.len() {
                every_option_stands_behind_its_flag(args, i + 2, next);
            }
        } else if args[i] == "--stage"@ {
            let next = NoiseArgs { mechanism: false, ..so_far };
            assert(read_from(args, i, so_far) == read_from(args, i + 2, next));
            if i + 2 < args.len() {
                every_option_stands_behind_its_flag(args, i + 2, next);
            }
        } else {
            let next = NoiseArgs { base: args[i + 1], ..so_far };
            assert(read_from(args, i, so_far) == read_from(args, i + 2, next));
            if i + 2 < args.len() {
                every_option_stands_behind_its_flag(args, i + 2, next);
            }
        }
    }
}

} // verus!
