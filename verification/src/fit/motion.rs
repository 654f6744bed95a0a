//! The stages that are fitted on how single partials move.

use crate::args::{follows, Halt, it_follows_further_on, one_more_begins, maybe, Stop};
use crate::reading::Reading;
use crate::text::{decimal, listed, parse_whole, print, same, views, whole};
use crate::words::{a_gap_adds_nothing, a_number_is_a_word, a_word_begins, words_of};
use vstd::prelude::*;

verus! {

/// The velocity every fit is anchored at.
pub const REFERENCE_VELOCITY: u8 = 90;

/// The command line of the motion stages.
pub struct MotionOptions {
    pub sfz: String,
    pub preset: String,
    pub out: Option<String>,
    /// The keys to fit; all where it names none.
    pub only: Vec<u8>,
    /// The stages to run; all where it names none.
    pub stages: Vec<String>,
    pub draw_over_measured: bool,
}

/// What a command line asks for.
pub ghost struct MotionArgs {
    pub sfz: Seq<char>,
    pub preset: Seq<char>,
    pub out: Option<Seq<char>>,
    pub only: Seq<u8>,
    pub stages: Seq<Seq<char>>,
    pub draw_over_measured: bool,
}

impl View for MotionOptions {
    type V = MotionArgs;

    open spec fn view(&self) -> MotionArgs {
        MotionArgs {
            sfz: self.sfz@,
            preset: self.preset@,
            out: maybe(self.out),
            only: self.only@,
            stages: views(self.stages@),
            draw_over_measured: self.draw_over_measured,
        }
    }
}

/// What the arguments add to what was read before them.
pub open spec fn read_on(args: Seq<Seq<char>>, so_far: MotionArgs) -> Result<MotionArgs, Halt>
    decreases args.len(),
{
    if args.len() == 0 {
        Ok(so_far)
    } else if args[0] == "--preset"@ {
        if args.len() < 2 {
            Err(Halt::Panic("--preset <file>"@))
        } else {
            read_on(args.skip(2), MotionArgs { preset: args[1], ..so_far })
        }
    } else if args[0] == "--out"@ {
        if args.len() < 2 {
            Err(Halt::Panic("--out <file>"@))
        } else {
            read_on(args.skip(2), MotionArgs { out: Some(args[1]), ..so_far })
        }
    } else if args[0] == "--key"@ {
        if args.len() < 2 {
            Err(Halt::Panic("--key <n>"@))
        } else {
            match whole(args[1], 255) {
                Err(e) => Err(Halt::Error(e.says())),
                Ok(n) => read_on(
                    args.skip(2),
                    MotionArgs { only: so_far.only.push(n as u8), ..so_far },
                ),
            }
        }
    } else if args[0] == "--stage"@ {
        if args.len() < 2 {
            Err(Halt::Panic("--stage <name>"@))
        } else {
            read_on(args.skip(2), MotionArgs { stages: so_far.stages.push(args[1]), ..so_far })
        }
    } else if args[0] == "--draw-over-measured"@ {
        read_on(args.skip(1), MotionArgs { draw_over_measured: true, ..so_far })
    } else {
        Err(Halt::Error("unknown argument "@ + args[0]))
    }
}

/// What is asked for before any flag is read.
pub open spec fn motion_defaults(sfz: Seq<char>) -> MotionArgs {
    MotionArgs {
        sfz,
        preset: "presets/salamander-c5.toml"@,
        out: None,
        only: Seq::empty(),
        stages: Seq::empty(),
        draw_over_measured: false,
    }
}

/// What a whole command line asks for: the library first, then the flags.
pub open spec fn motion_args(args: Seq<Seq<char>>) -> Result<MotionArgs, Halt> {
    if args.len() == 0 {
        Ok(motion_defaults("data/salamander/SalamanderGrandPiano-V3+20200602.sfz"@))
    } else {
        read_on(args.skip(1), motion_defaults(args[0]))
    }
}

/// Reads the command line of the motion stages.
pub fn parse(args: &Vec<String>) -> (r: Result<MotionOptions, Stop>)
    ensures
        match r {
            Ok(o) => motion_args(views(args@)) == Ok::<MotionArgs, Halt>(o@),
            Err(e) => motion_args(views(args@)) == Err::<MotionArgs, Halt>(e@),
        },
{
    let ghost all = views(args@);
    let mut o = MotionOptions {
        sfz: if args.len() == 0 {
            String::from_str("data/salamander/SalamanderGrandPiano-V3+20200602.sfz")
        } else {
            args[0].clone()
        },
        preset: String::from_str("presets/salamander-c5.toml"),
        out: None,
        only: Vec::new(),
        stages: Vec::new(),
        draw_over_measured: false,
    };
    let mut i: usize = if args.len() == 0 {
        0
    } else {
        1
    };
    proof {
        assert(o@.stages =~= Seq::<Seq<char>>::empty());
        assert(all.skip(i as int).len() == all.len() - i);
    }
    while i < args.len()
        invariant
            i <= args.len(),
            all == views(args@),
            motion_args(all) == read_on(all.skip(i as int), o@),
        decreases args.len() - i,
    {
        let ghost here = all.skip(i as int);
        let ghost before = o@;
        let arg = args[i].as_str();
        proof {
            assert(here[0] == arg@);
            assert(here.len() == all.len() - i);
            assert(here.skip(1) =~= all.skip(i + 1));
            if i + 1 < args.len() {
                assert(here[1] == args@[i + 1]@);
                assert(here.skip(2) =~= all.skip(i + 2));
            }
        }
        if same(arg, "--preset") {
            if i + 1 >= args.len() {
                return Err(Stop::Panic(String::from_str("--preset <file>")));
            }
            o.preset = args[i + 1].clone();
            i = i + 2;
        } else if same(arg, "--out") {
            if i + 1 >= args.len() {
                return Err(Stop::Panic(String::from_str("--out <file>")));
            }
            o.out = Some(args[i + 1].clone());
            i = i + 2;
        } else if same(arg, "--key") {
            if i + 1 >= args.len() {
                return Err(Stop::Panic(String::from_str("--key <n>")));
            }
            match parse_whole(args[i + 1].as_str(), 255) {
                Err(e) => {
                    return Err(Stop::Error(e.message()));
                },
                Ok(n) => {
                    o.only.push(n as u8);
                },
            }
            i = i + 2;
        } else if same(arg, "--stage") {
            if i + 1 >= args.len() {
                return Err(Stop::Panic(String::from_str("--stage <name>")));
            }
            o.stages.push(args[i + 1].clone());
            proof {
                assert(o@.stages =~= before.stages.push(args@[i + 1]@));
            }
            i = i + 2;
        } else if same(arg, "--draw-over-measured") {
            o.draw_over_measured = true;
            i = i + 1;
        } else {
            let mut text = String::from_str("unknown argument ");
            text.append(arg);
            return Err(Stop::Error(text));
        }
    }
    proof {
        assert(all.skip(i as int).len() == 0);
    }
    Ok(o)
}

/// Whether a stage runs: all do where none is named.
pub fn wants(stages: &Vec<String>, name: &str) -> (r: bool)
    ensures
        r == (stages.len() == 0 || views(stages@).contains(name@)),
{
    stages.len() == 0 || listed(stages, name)
}

/// One part of a run. Every fit is measured against a render that holds the
/// ones before it.
#[derive(Clone, Copy, Debug, PartialEq, Eq, Structural)]
pub enum Step {
    FalseBeat,
    /// Ends the run where there are too few readings.
    StrikeDirection,
    Detune,
    PartialGains,
    Texture,
    /// Write the preset.
    Write,
    /// Say that nothing was written.
    Nothing,
}

/// The steps with one more, where its stage runs.
pub open spec fn and_if(steps: Seq<Step>, o: MotionArgs, stage: Seq<char>, step: Step) -> Seq<Step> {
    if o.stages.len() == 0 || o.stages.contains(stage) {
        steps.push(step)
    } else {
        steps
    }
}

/// The stages of a run, in order.
pub open spec fn stages_of(o: MotionArgs) -> Seq<Step> {
    let beat = and_if(Seq::empty(), o, "false_beat"@, Step::FalseBeat);
    let strike = and_if(beat, o, "strike_direction"@, Step::StrikeDirection);
    let detune = and_if(strike, o, "detune"@, Step::Detune);
    let gains = and_if(detune, o, "partial_gains"@, Step::PartialGains);
    and_if(gains, o, "texture"@, Step::Texture)
}

/// The steps of a run, in order: its stages, and then the preset is written
/// where a file is named for it.
pub open spec fn steps_of(o: MotionArgs) -> Seq<Step> {
    stages_of(o).push(
        if o.out is Some {
            Step::Write
        } else {
            Step::Nothing
        },
    )
}

fn add_if(steps: &mut Vec<Step>, o: &MotionOptions, stage: &str, step: Step)
    ensures
        final(steps)@ == and_if(old(steps)@, o@, stage@, step),
{
    if wants(&o.stages, stage) {
        steps.push(step);
    }
}

/// The steps of a run, in order.
pub fn steps(o: &MotionOptions) -> (r: Vec<Step>)
    ensures
        r@ == steps_of(o@),
{
    let mut v: Vec<Step> = Vec::new();
    add_if(&mut v, o, "false_beat", Step::FalseBeat);
    add_if(&mut v, o, "strike_direction", Step::StrikeDirection);
    add_if(&mut v, o, "detune", Step::Detune);
    add_if(&mut v, o, "partial_gains", Step::PartialGains);
    add_if(&mut v, o, "texture", Step::Texture);
    let last = if o.out.is_some() {
        Step::Write
    } else {
        Step::Nothing
    };
    v.push(last);
    v
}

/// Where a stage comes in a run.
pub open spec fn turn(s: Step) -> int {
    match s {
        Step::FalseBeat => 1,
        Step::StrikeDirection => 2,
        Step::Detune => 3,
        Step::PartialGains => 4,
        Step::Texture => 5,
        Step::Write => 6,
        Step::Nothing => 6,
    }
}

/// The stages run in their order, each at most once, whatever order they are
/// named in.
pub proof fn the_stages_keep_their_order(o: MotionArgs, i: int, j: int)
    requires
        0 <= i < j < steps_of(o).len(),
    ensures
        turn(steps_of(o)[i]) < turn(steps_of(o)[j]),
{
}

/// The preset is written where a file is named for it and not otherwise, and
/// nothing comes after that.
pub proof fn only_the_last_step_writes(o: MotionArgs, i: int)
    requires
        0 <= i < steps_of(o).len(),
    ensures
        steps_of(o)[i] is Write <==> o.out is Some && i == steps_of(o).len() - 1,
{
}

/// What a fit of the beats of one key came to.
#[derive(Clone, Copy, Debug, PartialEq, Eq, Structural)]
pub enum FalseBeatVerdict {
    Written,
    TooFewPartials,
    ScalesWithPartial,
    NoneInRange,
}

/// The name of a verdict.
pub open spec fn verdict_text(v: FalseBeatVerdict) -> Seq<char> {
    match v {
        FalseBeatVerdict::Written => "written"@,
        FalseBeatVerdict::TooFewPartials => "too few"@,
        FalseBeatVerdict::ScalesWithPartial => "scales with k"@,
        FalseBeatVerdict::NoneInRange => "none in range"@,
    }
}

/// The name of a verdict.
pub fn verdict_name(v: FalseBeatVerdict) -> (r: String)
    ensures
        r@ == verdict_text(v),
{
    match v {
        FalseBeatVerdict::Written => String::from_str("written"),
        FalseBeatVerdict::TooFewPartials => String::from_str("too few"),
        FalseBeatVerdict::ScalesWithPartial => String::from_str("scales with k"),
        FalseBeatVerdict::NoneInRange => String::from_str("none in range"),
    }
}

/// How many of the verdicts are `v`.
pub open spec fn tally(all: Seq<FalseBeatVerdict>, v: FalseBeatVerdict) -> nat
    decreases all.len(),
{
    if all.len() == 0 {
        0
    } else {
        tally(all.drop_last(), v) + (if all.last() == v {
            1nat
        } else {
            0nat
        })
    }
}

/// How many keys were written, refused and without anything in range.
pub open spec fn coverage_text(all: Seq<FalseBeatVerdict>) -> Seq<char> {
    "coverage: "@ + decimal(tally(all, FalseBeatVerdict::Written)) + " of "@ + decimal(all.len())
        + " keys written, "@ + decimal(tally(all, FalseBeatVerdict::ScalesWithPartial))
        + " refused as the unison's own beat, "@ + decimal(
        tally(all, FalseBeatVerdict::NoneInRange) + tally(all, FalseBeatVerdict::TooFewPartials),
    ) + " measured nothing in range"@
}

/// How many keys were written, refused and without anything in range.
pub fn coverage(all: &Vec<FalseBeatVerdict>) -> (text: String)
    ensures
        text@ == coverage_text(all@),
{
    let mut written: u64 = 0;
    let mut scaled: u64 = 0;
    let mut nothing: u64 = 0;
    let mut i: usize = 0;
    proof {
        assert(all@.take(0) =~= Seq::<FalseBeatVerdict>::empty());
    }
    while i < all.len()
        invariant
            i <= all.len(),
            written <= i,
            scaled <= i,
            nothing <= i,
            written == tally(all@.take(i as int), FalseBeatVerdict::Written),
            scaled == tally(all@.take(i as int), FalseBeatVerdict::ScalesWithPartial),
            nothing == tally(all@.take(i as int), FalseBeatVerdict::NoneInRange) + tally(
                all@.take(i as int),
                FalseBeatVerdict::TooFewPartials,
            ),
        decreases all.len() - i,
    {
        proof {
            assert(all@.take(i + 1).drop_last() =~= all@.take(i as int));
            assert(all@.take(i + 1).last() == all@[i as int]);
        }
        match all[i] {
            FalseBeatVerdict::Written => {
                written = written + 1;
            },
            FalseBeatVerdict::ScalesWithPartial => {
                scaled = scaled + 1;
            },
            FalseBeatVerdict::NoneInRange => {
                nothing = nothing + 1;
            },
            FalseBeatVerdict::TooFewPartials => {
                nothing = nothing + 1;
            },
        }
        i = i + 1;
    }
    proof {
        assert(all@.take(i as int) =~= all@);
    }
    let mut out = String::from_str("coverage: ");
    out.append(print(written).as_str());
    out.append(" of ");
    out.append(print(all.len() as u64).as_str());
    out.append(" keys written, ");
    out.append(print(scaled).as_str());
    out.append(" refused as the unison's own beat, ");
    out.append(print(nothing).as_str());
    out.append(" measured nothing in range");
    out
}

/// The verdict on a key once its rows were solved on the render: with no row
/// left there is nothing in range.
pub fn solved_verdict(v: FalseBeatVerdict, seeded: bool, rows_left: usize) -> (r: FalseBeatVerdict)
    ensures
        r == (if seeded && rows_left == 0 {
            FalseBeatVerdict::NoneInRange
        } else {
            v
        }),
{
    if seeded && rows_left == 0 {
        FalseBeatVerdict::NoneInRange
    } else {
        v
    }
}

/// A velocity layer: the velocities that trigger it.
#[derive(Clone, Copy, Debug, PartialEq, Eq, Structural)]
pub struct Layer {
    pub lovel: u8,
    pub hivel: u8,
}

impl Layer {
    /// Whether a strike at this velocity triggers the layer.
    pub open spec fn triggered(self, velocity: u8) -> bool {
        self.lovel <= velocity <= self.hivel
    }
}

/// The first layer that a velocity triggers.
pub open spec fn first_triggered(layers: Seq<Layer>, velocity: u8, i: int) -> bool {
    &&& 0 <= i < layers.len()
    &&& layers[i].triggered(velocity)
    &&& forall|k: int| 0 <= k < i ==> !(#[trigger] layers[k]).triggered(velocity)
}

/// The first layer that a velocity triggers.
pub fn layer_for(layers: &Vec<Layer>, velocity: u8) -> (r: Option<usize>)
    ensures
        match r {
            Some(i) => first_triggered(layers@, velocity, i as int),
            None => forall|k: int|
                0 <= k < layers.len() ==> !(#[trigger] layers@[k]).triggered(velocity),
        },
{
    let mut i: usize = 0;
    while i < layers.len()
        invariant
            i <= layers.len(),
            forall|k: int| 0 <= k < i ==> !(#[trigger] layers@[k]).triggered(velocity),
        decreases layers.len() - i,
    {
        if layers[i].lovel <= velocity && velocity <= layers[i].hivel {
            return Some(i);
        }
        i = i + 1;
    }
    None
}

/// The layer that the reference velocity triggers and its two neighbours: the
/// first and the last of them, where there is one.
pub fn gain_layers(layers: &Vec<Layer>) -> (r: Option<(usize, usize)>)
    ensures
        match r {
            None => forall|k: int|
                0 <= k < layers.len() ==> !(#[trigger] layers@[k]).triggered(REFERENCE_VELOCITY),
            Some(span) => exists|c: int| #[trigger]
                first_triggered(layers@, REFERENCE_VELOCITY, c) && span.0 == (if c == 0 {
                    0
                } else {
                    c - 1
                }) && span.1 == (if c + 1 < layers.len() {
                    c + 1
                } else {
                    layers.len() - 1
                }),
        },
{
    match layer_for(layers, REFERENCE_VELOCITY) {
        None => None,
        Some(c) => {
            assert(first_triggered(layers@, REFERENCE_VELOCITY, c as int));
            assert(c < layers.len());
            let lo: usize = if c == 0 {
                0
            } else {
                c - 1
            };
            let hi: usize = if c + 1 < layers.len() {
                c + 1
            } else {
                layers.len() - 1
            };
            Some((lo, hi))
        },
    }
}

/// A partial and its amplitude.
#[derive(Clone, Copy, Debug, PartialEq, Eq, Structural)]
pub struct Line {
    pub k: u32,
    pub amplitude: Reading,
}

/// The last of the loudest lines among the first `n`.
pub open spec fn loudest_line(spectrum: Seq<Line>, n: int) -> Option<int>
    decreases n,
{
    if n <= 0 {
        None
    } else {
        match loudest_line(spectrum, n - 1) {
            None => Some(n - 1),
            Some(b) => if spectrum[n - 1].amplitude.rank() >= spectrum[b].amplitude.rank() {
                Some(n - 1)
            } else {
                Some(b)
            },
        }
    }
}

/// The partial of the loudest line, or 0 where there is none.
pub open spec fn loudest_partial(spectrum: Seq<Line>) -> u32 {
    match loudest_line(spectrum, spectrum.len() as int) {
        None => 0,
        Some(i) => spectrum[i].k,
    }
}

/// The partial of the loudest line, or 0 where there is none.
pub fn loudest(spectrum: &Vec<Line>) -> (r: u32)
    requires
        spectrum.len() > 1 ==> forall|i: int|
            0 <= i < spectrum.len() ==> !(#[trigger] spectrum@[i]).amplitude.nan(),
    ensures
        r == loudest_partial(spectrum@),
{
    let mut best: Option<usize> = None;
    let mut i: usize = 0;
    while i < spectrum.len()
        invariant
            i <= spectrum.len(),
            match best {
                None => loudest_line(spectrum@, i as int) is None,
                Some(b) => loudest_line(spectrum@, i as int) == Some(b as int) && b
                    < spectrum.len(),
            },
        decreases spectrum.len() - i,
    {
        match best {
            None => {
                best = Some(i);
            },
            Some(b) => {
                if spectrum[i].amplitude.standing() >= spectrum[b].amplitude.standing() {
                    best = Some(i);
                }
            },
        }
        i = i + 1;
    }
    match best {
        None => 0,
        Some(b) => spectrum[b].k,
    }
}

/// The lines whose partial and amplitude are positive.
pub open spec fn audible_lines(all: Seq<Line>) -> Seq<Line>
    decreases all.len(),
{
    if all.len() == 0 {
        Seq::empty()
    } else if all.last().k >= 1 && (Reading { bits: 0 }).below(all.last().amplitude) {
        audible_lines(all.drop_last()).push(all.last())
    } else {
        audible_lines(all.drop_last())
    }
}

/// The lines whose partial and amplitude are positive.
pub fn spectrum_of(all: &Vec<Line>) -> (r: Vec<Line>)
    ensures
        r@ == audible_lines(all@),
{
    let zero = Reading { bits: 0 };
    let mut out: Vec<Line> = Vec::new();
    let mut i: usize = 0;
    proof {
        assert(all@.take(0) =~= Seq::<Line>::empty());
    }
    while i < all.len()
        invariant
            i <= all.len(),
            zero == (Reading { bits: 0 }),
            out@ == audible_lines(all@.take(i as int)),
        decreases all.len() - i,
    {
        proof {
            assert(all@.take(i + 1).drop_last() =~= all@.take(i as int));
            assert(all@.take(i + 1).last() == all@[i as int]);
        }
        if all[i].k >= 1 && zero.lt(&all[i].amplitude) {
            out.push(all[i]);
        }
        i = i + 1;
    }
    proof {
        assert(all@.take(i as int) =~= all@);
    }
    out
}

/// What the column on whether a tuning can be read from the beat says: `error`
/// is that of the best tuning that was tried, and `percent` how it is printed.
pub open spec fn detune_text(identifiable: bool, error: Reading, tolerance: Reading, percent: Seq<char>) -> Seq<
    char,
> {
    if !identifiable {
        "no (the wire)"@
    } else if error.at_most(tolerance) {
        "yes ("@ + percent + " %)"@
    } else {
        "no ("@ + percent + " %)"@
    }
}

/// What the column on whether a tuning can be read from the beat says.
pub fn detune_label(identifiable: bool, error: Reading, tolerance: Reading, percent: &str) -> (text:
    String)
    ensures
        text@ == detune_text(identifiable, error, tolerance, percent@),
{
    if !identifiable {
        return String::from_str("no (the wire)");
    }
    let mut out = if error.le(&tolerance) {
        String::from_str("yes (")
    } else {
        String::from_str("no (")
    };
    out.append(percent);
    out.append(" %)");
    out
}

/// A beat rate is a measurement of the tuning only where it grows with the
/// partial.
pub fn identifiable(v: FalseBeatVerdict) -> (r: bool)
    ensures
        r == (v == FalseBeatVerdict::ScalesWithPartial),
{
    v == FalseBeatVerdict::ScalesWithPartial
}

/// The tuning whose slope comes nearest the recording's, the first of those
/// alike.
pub fn detune_choice(distances: &Vec<Reading>) -> (r: Option<usize>)
    ensures
        match r {
            None => distances.len() == 0,
            Some(i) => crate::order::is_first_least(crate::order::places_of(distances@), i as int),
        },
{
    crate::order::first_least(&crate::order::places(distances))
}

/// The tuning to write: the one whose slope comes nearest the recording's, and
/// only where its relative error is within the tolerance.
pub fn detune_written(distances: &Vec<Reading>, errors: &Vec<Reading>, tolerance: Reading) -> (r: Option<
    usize,
>)
    requires
        errors.len() == distances.len(),
    ensures
        match r {
            Some(i) => crate::order::is_first_least(crate::order::places_of(distances@), i as int)
                && errors@[i as int].at_most(tolerance),
            None => forall|i: int|
                0 <= i < distances.len() && #[trigger] crate::order::is_first_least(
                    crate::order::places_of(distances@),
                    i,
                ) ==> !errors@[i].at_most(tolerance),
        },
{
    match detune_choice(distances) {
        None => None,
        Some(best) => {
            proof {
                let keys = crate::order::places_of(distances@);
                assert forall|i: int|
                    0 <= i < distances.len() && #[trigger] crate::order::is_first_least(
                        keys,
                        i,
                    ) implies i == best by {
                    if i < best {
                        assert(keys[i] > keys[best as int]);
                    } else if i > best {
                        assert(keys[best as int] > keys[i]);
                    }
                }
            }
            if errors[best].le(&tolerance) {
                Some(best)
            } else {
                None
            }
        },
    }
}

/// One partial's reading at one velocity.
#[derive(Clone, Copy, Debug, PartialEq, Eq, Structural)]
pub struct PartialReading {
    pub k: u32,
    pub depth: Reading,
    pub cents: Reading,
}

/// The readings of partial `k` over the velocities, in order.
pub open spec fn readings_of(by_velocity: Seq<Vec<PartialReading>>, k: u32) -> Seq<PartialReading>
    decreases by_velocity.len(),
{
    if by_velocity.len() == 0 {
        Seq::empty()
    } else {
        readings_of(by_velocity.drop_last(), k) + by_velocity.last()@.filter(
            |p: PartialReading| p.k == k,
        )
    }
}

/// The readings of partial `k` over the velocities, in order.
pub fn partial_readings(by_velocity: &Vec<Vec<PartialReading>>, k: u32) -> (r: Vec<PartialReading>)
    ensures
        r@ == readings_of(by_velocity@, k),
{
    let ghost keep = |p: PartialReading| p.k == k;
    let mut out: Vec<PartialReading> = Vec::new();
    let mut i: usize = 0;
    proof {
        assert(by_velocity@.take(0) =~= Seq::<Vec<PartialReading>>::empty());
    }
    while i < by_velocity.len()
        invariant
            i <= by_velocity.len(),
            keep == (|p: PartialReading| p.k == k),
            out@ == readings_of(by_velocity@.take(i as int), k),
        decreases by_velocity.len() - i,
    {
        let cells = &by_velocity[i];
        let ghost before = out@;
        let mut j: usize = 0;
        proof {
            reveal(Seq::filter);
            assert(by_velocity@.take(i + 1).drop_last() =~= by_velocity@.take(i as int));
            assert(cells@.take(0) =~= Seq::<PartialReading>::empty());
            assert(cells@.take(0).filter(keep) =~= Seq::<PartialReading>::empty());
            assert(before + Seq::<PartialReading>::empty() =~= before);
        }
        while j < cells.len()
            invariant
                j <= cells.len(),
                keep == (|p: PartialReading| p.k == k),
                out@ == before + cells@.take(j as int).filter(keep),
            decreases cells.len() - j,
        {
            proof {
                reveal(Seq::filter);
                assert(cells@.take(j + 1).drop_last() =~= cells@.take(j as int));
            }
            if cells[j].k == k {
                out.push(cells[j]);
                proof {
                    assert(out@ =~= before + cells@.take(j + 1).filter(keep));
                }
            }
            j = j + 1;
        }
        proof {
            assert(cells@.take(j as int) =~= cells@);
        }
        i = i + 1;
    }
    proof {
        assert(by_velocity@.take(i as int) =~= by_velocity@);
    }
    out
}

/// The partials from 1 to `top` that were read at each of `velocities`
/// velocities, with their readings.
pub open spec fn complete_cells(by_velocity: Seq<Vec<PartialReading>>, top: int, velocities: int) -> Seq<
    Seq<PartialReading>,
>
    decreases top,
{
    if top <= 0 {
        Seq::empty()
    } else {
        let cell = readings_of(by_velocity, top as u32);
        let before = complete_cells(by_velocity, top - 1, velocities);
        if cell.len() == velocities {
            before.push(cell)
        } else {
            before
        }
    }
}

/// The partials from 1 to `top` that were read at each velocity, with their
/// readings.
pub fn spread_cells(by_velocity: &Vec<Vec<PartialReading>>, top: u32, velocities: usize) -> (r: Vec<Vec<PartialReading>>)
    ensures
        crate::fit::tables::rows_of(r@) == complete_cells(by_velocity@, top as int, velocities as int),
{
    let mut out: Vec<Vec<PartialReading>> = Vec::new();
    let mut k: u32 = 0;
    proof {
        assert(crate::fit::tables::rows_of(out@) =~= Seq::<Seq<PartialReading>>::empty());
    }
    while k < top
        invariant
            k <= top,
            crate::fit::tables::rows_of(out@) == complete_cells(by_velocity@, k as int, velocities as int),
        decreases top - k,
    {
        k = k + 1;
        let cell = partial_readings(by_velocity, k);
        if cell.len() == velocities {
            let ghost before = crate::fit::tables::rows_of(out@);
            let ghost seen = cell@;
            out.push(cell);
            proof {
                assert(crate::fit::tables::rows_of(out@) =~= before.push(seen));
            }
        }
    }
    out
}

/// The lines that are kept are those whose partial and amplitude are positive,
/// in order.
pub proof fn an_audible_line_is_positive(all: Seq<Line>)
    ensures
        audible_lines(all) == all.filter(|x: Line| x.k >= 1 && (Reading { bits: 0 }).below(x.amplitude)),
    decreases all.len(),
{
    reveal(Seq::filter);
    let keep = |x: Line| x.k >= 1 && (Reading { bits: 0 }).below(x.amplitude);
    if all.len() > 0 {
        let shorter = all.drop_last();
        an_audible_line_is_positive(all.drop_last());
        assert(audible_lines(shorter) =~= shorter.filter(keep));
        assert(audible_lines(all) =~= all.filter(keep));
    } else {
        assert(audible_lines(all) =~= all.filter(keep));
    }
}

/// A tally counts the fits that came to its verdict.
pub proof fn a_tally_counts_its_verdict(all: Seq<FalseBeatVerdict>, v: FalseBeatVerdict)
    ensures
        tally(all, v) == all.filter(|x: FalseBeatVerdict| x == v).len(),
    decreases all.len(),
{
    reveal(Seq::filter);
    if all.len() > 0 {
        a_tally_counts_its_verdict(all.drop_last(), v);
    }
}

/// The loudest partial is that of a line that no other is louder than, the last
/// of those alike.
pub proof fn the_loudest_line_is_loudest(spectrum: Seq<Line>, n: int, k: int)
    requires
        0 <= k < n <= spectrum.len(),
    ensures
        loudest_line(spectrum, n) matches Some(i) && 0 <= i < n && spectrum[k].amplitude.rank()
            <= spectrum[i].amplitude.rank() && (i < k ==> spectrum[k].amplitude.rank()
            < spectrum[i].amplitude.rank()),
    decreases n,
{
    reveal_with_fuel(loudest_line, 2);
    if n > 1 {
        if k < n - 1 {
            the_loudest_line_is_loudest(spectrum, n - 1, k);
        } else {
            the_loudest_line_is_loudest(spectrum, n - 1, 0);
        }
    }
}

/// A stage is run where it is named, and all are where none is.
pub proof fn a_stage_runs_where_it_is_named(o: MotionArgs)
    ensures
        steps_of(o).contains(Step::FalseBeat) <==> o.stages.len() == 0 || o.stages.contains(
            "false_beat"@,
        ),
        steps_of(o).contains(Step::StrikeDirection) <==> o.stages.len() == 0 || o.stages.contains(
            "strike_direction"@,
        ),
        steps_of(o).contains(Step::Detune) <==> o.stages.len() == 0 || o.stages.contains("detune"@),
        steps_of(o).contains(Step::PartialGains) <==> o.stages.len() == 0 || o.stages.contains(
            "partial_gains"@,
        ),
        steps_of(o).contains(Step::Texture) <==> o.stages.len() == 0 || o.stages.contains(
            "texture"@,
        ),
{
    let beat = and_if(Seq::empty(), o, "false_beat"@, Step::FalseBeat);
    let strike = and_if(beat, o, "strike_direction"@, Step::StrikeDirection);
    let detune = and_if(strike, o, "detune"@, Step::Detune);
    let gains = and_if(detune, o, "partial_gains"@, Step::PartialGains);
    let all = and_if(gains, o, "texture"@, Step::Texture);
    one_more_step(Seq::empty(), o, "false_beat"@, Step::FalseBeat);
    one_more_step(beat, o, "strike_direction"@, Step::StrikeDirection);
    one_more_step(strike, o, "detune"@, Step::Detune);
    one_more_step(detune, o, "partial_gains"@, Step::PartialGains);
    one_more_step(gains, o, "texture"@, Step::Texture);
    let s = steps_of(o);
    assert forall|x: Step| !(x is Write) && !(x is Nothing) implies (s.contains(x) <==> #[trigger] all.contains(x)) by {
        if s.contains(x) {
            let i = choose|i: int| 0 <= i < s.len() && s[i] == x;
            assert(all[i] == x);
        }
        if all.contains(x) {
            let i = choose|i: int| 0 <= i < all.len() && all[i] == x;
            assert(s[i] == x);
        }
    }
    assert(all == stages_of(o));
    assert(!Seq::<Step>::empty().contains(Step::FalseBeat));
    assert forall|x: Step| #[trigger] all.contains(x) implies gains.contains(x) || x == Step::Texture by {}
    assert(all.contains(Step::FalseBeat) == gains.contains(Step::FalseBeat));
    assert(gains.contains(Step::FalseBeat) == detune.contains(Step::FalseBeat));
    assert(detune.contains(Step::FalseBeat) == strike.contains(Step::FalseBeat));
    assert(strike.contains(Step::FalseBeat) == beat.contains(Step::FalseBeat));
    assert(all.contains(Step::StrikeDirection) == gains.contains(Step::StrikeDirection));
    assert(gains.contains(Step::StrikeDirection) == detune.contains(Step::StrikeDirection));
    assert(detune.contains(Step::StrikeDirection) == strike.contains(Step::StrikeDirection));
    assert(!beat.contains(Step::StrikeDirection));
    assert(all.contains(Step::Detune) == gains.contains(Step::Detune));
    assert(gains.contains(Step::Detune) == detune.contains(Step::Detune));
    assert(!strike.contains(Step::Detune)) by {
        assert(!beat.contains(Step::Detune));
    }
    assert(all.contains(Step::PartialGains) == gains.contains(Step::PartialGains));
    assert(!detune.contains(Step::PartialGains)) by {
        assert(!beat.contains(Step::PartialGains));
        assert(!strike.contains(Step::PartialGains));
    }
    assert(!gains.contains(Step::Texture)) by {
        assert(!beat.contains(Step::Texture));
        assert(!strike.contains(Step::Texture));
        assert(!detune.contains(Step::Texture));
    }
    assert(all.contains(Step::FalseBeat) == s.contains(Step::FalseBeat));
    assert(all.contains(Step::StrikeDirection) == s.contains(Step::StrikeDirection));
    assert(all.contains(Step::Detune) == s.contains(Step::Detune));
    assert(all.contains(Step::PartialGains) == s.contains(Step::PartialGains));
    assert(all.contains(Step::Texture) == s.contains(Step::Texture));
}

proof fn one_more_step(steps: Seq<Step>, o: MotionArgs, stage: Seq<char>, step: Step)
    ensures
        forall|x: Step| #[trigger] and_if(steps, o, stage, step).contains(x) <==> steps.contains(x)
            || (x == step && (o.stages.len() == 0 || o.stages.contains(stage))),
{
    let after = and_if(steps, o, stage, step);
    assert forall|x: Step| #[trigger] after.contains(x) <==> steps.contains(x) || (x == step && (
    o.stages.len() == 0 || o.stages.contains(stage))) by {
        if after.contains(x) {
            let i = choose|i: int| 0 <= i < after.len() && after[i] == x;
            if i < steps.len() {
                assert(steps[i] == x);
            }
        }
        if steps.contains(x) {
            let i = choose|i: int| 0 <= i < steps.len() && steps[i] == x;
            assert(after[i] == x);
        }
        if x == step && (o.stages.len() == 0 || o.stages.contains(stage)) {
            assert(after[steps.len() as int] == x);
        }
    }
}

/// Each verdict has its own name.
pub proof fn verdicts_are_told_apart()
    ensures
        verdict_text(FalseBeatVerdict::Written) == "written"@,
        verdict_text(FalseBeatVerdict::TooFewPartials) == "too few"@,
        verdict_text(FalseBeatVerdict::ScalesWithPartial) == "scales with k"@,
        verdict_text(FalseBeatVerdict::NoneInRange) == "none in range"@,
{
}

/// What the command line asks for stands behind the flag of that name, and what
/// no flag asks for stays as it was. Stages and keys are added one after another.
pub proof fn every_option_stands_behind_its_flag(args: Seq<Seq<char>>, so_far: MotionArgs)
    ensures
        read_on(args, so_far) matches Ok(o) ==> {
            &&& o.sfz == so_far.sfz
            &&& o.preset == so_far.preset || follows(args, "--preset"@, o.preset)
            &&& o.out == so_far.out || (o.out matches Some(x) && follows(args, "--out"@, x))
            &&& so_far.out is Some || (args.len() > 0 && args[0] == "--out"@) ==> o.out is Some
            &&& o.draw_over_measured ==> so_far.draw_over_measured || args.contains(
                "--draw-over-measured"@,
            )
            &&& so_far.draw_over_measured || (args.len() > 0 && args[0] == "--draw-over-measured"@)
                ==> o.draw_over_measured
            &&& so_far.stages.is_prefix_of(o.stages)
            &&& so_far.only.is_prefix_of(o.only)
            &&& forall|k: int|
                so_far.stages.len() <= k < o.stages.len() ==> follows(
                    args,
                    "--stage"@,
                    #[trigger] o.stages[k],
                )
            &&& args.len() > 0 && args[0] == "--stage"@ ==> o.stages.len() > so_far.stages.len()
                && o.stages[so_far.stages.len() as int] == args[1]
            &&& args.len() > 0 && args[0] == "--key"@ ==> o.only.len() > so_far.only.len()
        },
    decreases args.len(),
{
    if args.len() > 0 && read_on(args, so_far) is Ok {
        reveal_strlit("--preset");
        reveal_strlit("--out");
        reveal_strlit("--key");
        reveal_strlit("--stage");
        reveal_strlit("--draw-over-measured");
        assert("--preset"@.len() != "--out"@.len());
        assert("--preset"@.len() != "--key"@.len());
        assert("--preset"@.len() != "--stage"@.len());
        assert("--preset"@.len() != "--draw-over-measured"@.len());
        assert("--out"@[2] != "--key"@[2]);
        assert("--out"@.len() != "--stage"@.len());
        assert("--out"@.len() != "--draw-over-measured"@.len());
        assert("--key"@.len() != "--stage"@.len());
        assert("--key"@.len() != "--draw-over-measured"@.len());
        assert("--stage"@.len() != "--draw-over-measured"@.len());
        if args[0] == "--preset"@ {
            let next = MotionArgs { preset: args[1], ..so_far };
            it_follows_further_on(args, 2);
            every_option_stands_behind_its_flag(args.skip(2), next);
            assert(read_on(args, so_far) == read_on(args.skip(2), next));
        } else if args[0] == "--out"@ {
            let next = MotionArgs { out: Some(args[1]), ..so_far };
            it_follows_further_on(args, 2);
            every_option_stands_behind_its_flag(args.skip(2), next);
            assert(read_on(args, so_far) == read_on(args.skip(2), next));
        } else if args[0] == "--key"@ {
            let next = MotionArgs { only: so_far.only.push(whole(args[1], 255)->Ok_0 as u8), ..so_far };
            it_follows_further_on(args, 2);
            every_option_stands_behind_its_flag(args.skip(2), next);
            assert(read_on(args, so_far) == read_on(args.skip(2), next));
            let o = read_on(args, so_far)->Ok_0;
            one_more_begins(so_far.only, whole(args[1], 255)->Ok_0 as u8, o.only);
        } else if args[0] == "--stage"@ {
            let next = MotionArgs { stages: so_far.stages.push(args[1]), ..so_far };
            it_follows_further_on(args, 2);
            every_option_stands_behind_its_flag(args.skip(2), next);
            assert(read_on(args, so_far) == read_on(args.skip(2), next));
            let o = read_on(args, so_far)->Ok_0;
            one_more_begins(so_far.stages, args[1], o.stages);
            assert(follows(args, "--stage"@, args[1])) by {
                assert(args[0] == "--stage"@);
            }
        } else {
            let next = MotionArgs { draw_over_measured: true, ..so_far };
            it_follows_further_on(args, 1);
            every_option_stands_behind_its_flag(args.skip(1), next);
            assert(read_on(args, so_far) == read_on(args.skip(1), next));
        }
    }
}

/// Each number of `coverage` stands in its place among the words.
#[verifier::rlimit(30)]
pub proof fn the_words_of_coverage_stand_in_order(all: Seq<FalseBeatVerdict>)
    ensures
        words_of(coverage_text(all)).len() == 18,
        words_of(coverage_text(all))[1] == decimal(tally(all, FalseBeatVerdict::Written)),
        words_of(coverage_text(all))[3] == decimal(all.len()),
        words_of(coverage_text(all))[6] == decimal(tally(all, FalseBeatVerdict::ScalesWithPartial)),
        words_of(coverage_text(all))[13] == decimal(tally(all, FalseBeatVerdict::NoneInRange) + tally(all, FalseBeatVerdict::TooFewPartials)),
{
    reveal_strlit("coverage: ");
    reveal_strlit("coverage:");
    reveal_strlit(" ");
    reveal_strlit(" of ");
    reveal_strlit("of");
    reveal_strlit(" keys written, ");
    reveal_strlit("keys");
    reveal_strlit("written,");
    reveal_strlit(" refused as the unison's own beat, ");
    reveal_strlit("refused");
    reveal_strlit("as");
    reveal_strlit("the");
    reveal_strlit("unison's");
    reveal_strlit("own");
    reveal_strlit("beat,");
    reveal_strlit(" measured nothing in range");
    reveal_strlit("measured");
    reveal_strlit("nothing");
    reveal_strlit("in");
    reveal_strlit("range");
    a_number_is_a_word(tally(all, FalseBeatVerdict::Written));
    a_number_is_a_word(all.len());
    a_number_is_a_word(tally(all, FalseBeatVerdict::ScalesWithPartial));
    a_number_is_a_word(tally(all, FalseBeatVerdict::NoneInRange) + tally(all, FalseBeatVerdict::TooFewPartials));
    let p0 = "coverage: "@;
    a_word_begins(Seq::<char>::empty(), "coverage:"@);
    a_gap_adds_nothing(Seq::<char>::empty() + "coverage:"@, " "@);
    assert(p0 =~= Seq::<char>::empty() + "coverage:"@ + " "@);
    a_word_begins(p0, decimal(tally(all, FalseBeatVerdict::Written)));
    let p1 = p0 + decimal(tally(all, FalseBeatVerdict::Written));
    a_gap_adds_nothing(p1, " "@);
    a_word_begins(p1 + " "@, "of"@);
    a_gap_adds_nothing(p1 + " "@ + "of"@, " "@);
    let p2 = p1 + " of "@;
    assert(p2 =~= p1 + " "@ + "of"@ + " "@);
    a_word_begins(p2, decimal(all.len()));
    let p3 = p2 + decimal(all.len());
    a_gap_adds_nothing(p3, " "@);
    a_word_begins(p3 + " "@, "keys"@);
    a_gap_adds_nothing(p3 + " "@ + "keys"@, " "@);
    a_word_begins(p3 + " "@ + "keys"@ + " "@, "written,"@);
    a_gap_adds_nothing(p3 + " "@ + "keys"@ + " "@ + "written,"@, " "@);
    let p4 = p3 + " keys written, "@;
    assert(p4 =~= p3 + " "@ + "keys"@ + " "@ + "written,"@ + " "@);
    a_word_begins(p4, decimal(tally(all, FalseBeatVerdict::ScalesWithPartial)));
    let p5 = p4 + decimal(tally(all, FalseBeatVerdict::ScalesWithPartial));
    a_gap_adds_nothing(p5, " "@);
    a_word_begins(p5 + " "@, "refused"@);
    a_gap_adds_nothing(p5 + " "@ + "refused"@, " "@);
    a_word_begins(p5 + " "@ + "refused"@ + " "@, "as"@);
    a_gap_adds_nothing(p5 + " "@ + "refused"@ + " "@ + "as"@, " "@);
    a_word_begins(p5 + " "@ + "refused"@ + " "@ + "as"@ + " "@, "the"@);
    a_gap_adds_nothing(p5 + " "@ + "refused"@ + " "@ + "as"@ + " "@ + "the"@, " "@);
    a_word_begins(p5 + " "@ + "refused"@ + " "@ + "as"@ + " "@ + "the"@ + " "@, "unison's"@);
    a_gap_adds_nothing(p5 + " "@ + "refused"@ + " "@ + "as"@ + " "@ + "the"@ + " "@ + "unison's"@, " "@);
    a_word_begins(p5 + " "@ + "refused"@ + " "@ + "as"@ + " "@ + "the"@ + " "@ + "unison's"@ + " "@, "own"@);
    a_gap_adds_nothing(p5 + " "@ + "refused"@ + " "@ + "as"@ + " "@ + "the"@ + " "@ + "unison's"@ + " "@ + "own"@, " "@);
    a_word_begins(p5 + " "@ + "refused"@ + " "@ + "as"@ + " "@ + "the"@ + " "@ + "unison's"@ + " "@ + "own"@ + " "@, "beat,"@);
    a_gap_adds_nothing(p5 + " "@ + "refused"@ + " "@ + "as"@ + " "@ + "the"@ + " "@ + "unison's"@ + " "@ + "own"@ + " "@ + "beat,"@, " "@);
    let p6 = p5 + " refused as the unison's own beat, "@;
    assert(p6 =~= p5 + " "@ + "refused"@ + " "@ + "as"@ + " "@ + "the"@ + " "@ + "unison's"@ + " "@ + "own"@ + " "@ + "beat,"@ + " "@);
    a_word_begins(p6, decimal(tally(all, FalseBeatVerdict::NoneInRange) + tally(all, FalseBeatVerdict::TooFewPartials)));
    let p7 = p6 + decimal(tally(all, FalseBeatVerdict::NoneInRange) + tally(all, FalseBeatVerdict::TooFewPartials));
    a_gap_adds_nothing(p7, " "@);
    a_word_begins(p7 + " "@, "measured"@);
    a_gap_adds_nothing(p7 + " "@ + "measured"@, " "@);
    a_word_begins(p7 + " "@ + "measured"@ + " "@, "nothing"@);
    a_gap_adds_nothing(p7 + " "@ + "measured"@ + " "@ + "nothing"@, " "@);
    a_word_begins(p7 + " "@ + "measured"@ + " "@ + "nothing"@ + " "@, "in"@);
    a_gap_adds_nothing(p7 + " "@ + "measured"@ + " "@ + "nothing"@ + " "@ + "in"@, " "@);
    a_word_begins(p7 + " "@ + "measured"@ + " "@ + "nothing"@ + " "@ + "in"@ + " "@, "range"@);
    let p8 = p7 + " measured nothing in range"@;
    assert(p8 =~= p7 + " "@ + "measured"@ + " "@ + "nothing"@ + " "@ + "in"@ + " "@ + "range"@);
    assert(coverage_text(all) == p8);
}

} // verus!
