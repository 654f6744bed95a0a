//! Fitting the virtual microphone pair: what is run, and in what order.

pub mod boards;
pub mod report;
pub mod search;

use crate::args::{follows, Halt, it_follows_further_on, one_more_begins, maybe, or_default, Stop};
use crate::text::{characters, from_characters, join, joined, listed, quote, quoted, same, views};
use crate::words::{bare, fields, fields_of, is_number, number_error, number_fault, trim, writes_number};
use vstd::prelude::*;

verus! {

/// The velocity that is fitted.
pub const FIT_VELOCITY: u8 = 90;

/// The stages, in the order they are named.
pub open spec fn stage_list() -> Seq<Seq<char>> {
    seq![
        "geometry"@,
        "profile"@,
        "coherence"@,
        "image"@,
        "modal"@,
        "band"@,
        "grid"@,
    ]
}

/// The stages, in the order they are named.
pub fn stage_names() -> (r: Vec<String>)
    ensures
        views(r@) == stage_list(),
{
    let mut v: Vec<String> = Vec::new();
    v.push(String::from_str("geometry"));
    v.push(String::from_str("profile"));
    v.push(String::from_str("coherence"));
    v.push(String::from_str("image"));
    v.push(String::from_str("modal"));
    v.push(String::from_str("band"));
    v.push(String::from_str("grid"));
    proof {
        assert(views(v@) =~= stage_list());
    }
    v
}

/// What a command line asks for.
pub struct MicsOptions {
    pub positional: Vec<String>,
    pub out: Option<String>,
    pub stages: Vec<String>,
    pub holdout: bool,
    /// The numbers of a pair that is given instead of fitted: spacing, height,
    /// span, width and coherence, with or without the band's two edges and its
    /// lift. Each writes a number.
    pub set: Option<Vec<String>>,
}

/// What a command line asks for.
pub ghost struct MicsArgs {
    pub positional: Seq<Seq<char>>,
    pub out: Option<Seq<char>>,
    pub stages: Seq<Seq<char>>,
    pub holdout: bool,
    pub set: Option<Seq<Seq<char>>>,
}

impl View for MicsOptions {
    type V = MicsArgs;

    open spec fn view(&self) -> MicsArgs {
        MicsArgs {
            positional: views(self.positional@),
            out: maybe(self.out),
            stages: views(self.stages@),
            holdout: self.holdout,
            set: match self.set {
                None => None,
                Some(v) => Some(views(v@)),
            },
        }
    }
}

/// The fields of a `--set` value, without the white space around them.
pub open spec fn set_fields(text: Seq<char>) -> Seq<Seq<char>> {
    fields_of(text, ',').map_values(|f: Seq<char>| bare(f))
}

/// The first of the fields that writes no number, from `i` on.
pub open spec fn bad_field(fields: Seq<Seq<char>>, i: int) -> Option<Seq<char>>
    decreases fields.len() - i,
{
    if i < 0 || i >= fields.len() {
        None
    } else if writes_number(fields[i]) {
        bad_field(fields, i + 1)
    } else {
        Some(fields[i])
    }
}

/// What a `--set` value is: its fields, if each writes a number and there are
/// five or eight of them.
pub open spec fn set_value(text: Seq<char>) -> Result<Seq<Seq<char>>, Halt> {
    let f = set_fields(text);
    match bad_field(f, 0) {
        Some(bad) => Err(Halt::Error(number_fault(bad))),
        None => if f.len() != 5 && f.len() != 8 {
            Err(Halt::Error(SET_SHAPE@))
        } else {
            Ok(f)
        },
    }
}

pub const SET_SHAPE: &'static str = "--set takes spacing,height,span,width,coherence and \
    optionally modal lo_hz,hi_hz,lift";

pub const SET_VALUE: &'static str = "--set needs five comma-separated numbers";

/// What the arguments add to what was read before them.
pub open spec fn read_on(args: Seq<Seq<char>>, so_far: MicsArgs) -> Result<MicsArgs, Halt>
    decreases args.len(),
{
    if args.len() == 0 {
        Ok(so_far)
    } else if args[0] == "--out"@ {
        if args.len() < 2 {
            Err(Halt::Error("--out needs a path"@))
        } else {
            read_on(args.skip(2), MicsArgs { out: Some(args[1]), ..so_far })
        }
    } else if args[0] == "--stage"@ {
        if args.len() < 2 {
            Err(Halt::Error("--stage needs a name"@))
        } else {
            read_on(args.skip(2), MicsArgs { stages: so_far.stages.push(args[1]), ..so_far })
        }
    } else if args[0] == "--no-holdout"@ {
        read_on(args.skip(1), MicsArgs { holdout: false, ..so_far })
    } else if args[0] == "--set"@ {
        if args.len() < 2 {
            Err(Halt::Error(SET_VALUE@))
        } else {
            match set_value(args[1]) {
                Err(h) => Err(h),
                Ok(f) => read_on(args.skip(2), MicsArgs { set: Some(f), ..so_far }),
            }
        }
    } else {
        read_on(args.skip(1), MicsArgs { positional: so_far.positional.push(args[0]), ..so_far })
    }
}

/// A stage that there is not.
pub open spec fn unknown_stage(stages: Seq<Seq<char>>, i: int) -> Option<Seq<char>>
    decreases stages.len() - i,
{
    if i < 0 || i >= stages.len() {
        None
    } else if stage_list().contains(stages[i]) {
        unknown_stage(stages, i + 1)
    } else {
        Some(stages[i])
    }
}

/// What a whole command line asks for: every stage must be one of the stages.
pub open spec fn mics_args(args: Seq<Seq<char>>) -> Result<MicsArgs, Halt> {
    let start = MicsArgs {
        positional: Seq::empty(),
        out: None,
        stages: Seq::empty(),
        holdout: true,
        set: None,
    };
    match read_on(args, start) {
        Err(h) => Err(h),
        Ok(a) => match unknown_stage(a.stages, 0) {
            None => Ok(a),
            Some(name) => Err(
                Halt::Error(
                    "unknown stage "@ + quoted(name) + "; stages are "@ + joined(
                        stage_list(),
                        ", "@,
                    ),
                ),
            ),
        },
    }
}

fn read_set(text: &str) -> (r: Result<Vec<String>, Stop>)
    ensures
        match r {
            Ok(v) => set_value(text@) == Ok::<Seq<Seq<char>>, Halt>(views(v@)),
            Err(e) => set_value(text@) == Err::<Seq<Seq<char>>, Halt>(e@),
        },
{
    let raw = fields(text, ',');
    let ghost all = set_fields(text@);
    let mut out: Vec<String> = Vec::new();
    let mut i: usize = 0;
    proof {
        assert(views(out@) =~= all.take(0));
    }
    while i < raw.len()
        invariant
            i <= raw.len(),
            views(raw@) == fields_of(text@, ','),
            all == set_fields(text@),
            all.len() == raw.len(),
            views(out@) == all.take(i as int),
            bad_field(all, 0) == bad_field(all, i as int),
        decreases raw.len() - i,
    {
        let field = from_characters(&trim(&characters(raw[i].as_str())));
        proof {
            assert(all[i as int] == bare(views(raw@)[i as int]));
        }
        if !is_number(field.as_str()) {
            return Err(Stop::Error(number_error(field.as_str())));
        }
        let ghost before = views(out@);
        out.push(field);
        i = i + 1;
        proof {
            assert(views(out@) =~= before.push(all[i - 1]));
            assert(views(out@) =~= all.take(i as int));
        }
    }
    proof {
        assert(all.take(i as int) =~= all);
    }
    if out.len() != 5 && out.len() != 8 {
        return Err(Stop::Error(String::from_str(SET_SHAPE)));
    }
    Ok(out)
}

/// Reads a command line.
pub fn parse(args: &Vec<String>) -> (r: Result<MicsOptions, Stop>)
    ensures
        match r {
            Ok(o) => mics_args(views(args@)) == Ok::<MicsArgs, Halt>(o@),
            Err(e) => mics_args(views(args@)) == Err::<MicsArgs, Halt>(e@),
        },
{
    let ghost all = views(args@);
    let mut o = MicsOptions {
        positional: Vec::new(),
        out: None,
        stages: Vec::new(),
        holdout: true,
        set: None,
    };
    let ghost start = o@;
    let mut i: usize = 0;
    proof {
        assert(start.positional =~= Seq::<Seq<char>>::empty());
        assert(start.stages =~= Seq::<Seq<char>>::empty());
        assert(all.skip(0) =~= all);
    }
    while i < args.len()
        invariant
            i <= args.len(),
            all == views(args@),
            read_on(all, start) == read_on(all.skip(i as int), o@),
            start == (MicsArgs {
                positional: Seq::empty(),
                out: None,
                stages: Seq::empty(),
                holdout: true,
                set: None,
            }),
        decreases args.len() - i,
    {
        let ghost here = all.skip(i as int);
        let ghost before = o@;
        let arg = args[i].as_str();
        proof {
            assert(here[0] == arg@);
            assert(here.len() == all.len() - i);
            assert(here.skip(1) =~= all.skip(i + 1));
            if i + 1 < args.len() {
                assert(here[1] == args@[i + 1]@);
                assert(here.skip(2) =~= all.skip(i + 2));
            }
        }
        if same(arg, "--out") {
            if i + 1 >= args.len() {
                return Err(Stop::Error(String::from_str("--out needs a path")));
            }
            o.out = Some(args[i + 1].clone());
            i = i + 2;
        } else if same(arg, "--stage") {
            if i + 1 >= args.len() {
                return Err(Stop::Error(String::from_str("--stage needs a name")));
            }
            o.stages.push(args[i + 1].clone());
            proof {
                assert(o@.stages =~= before.stages.push(args@[i + 1]@));
            }
            i = i + 2;
        } else if same(arg, "--no-holdout") {
            o.holdout = false;
            i = i + 1;
        } else if same(arg, "--set") {
            if i + 1 >= args.len() {
                return Err(Stop::Error(String::from_str(SET_VALUE)));
            }
            match read_set(args[i + 1].as_str()) {
                Err(e) => {
                    return Err(e);
                },
                Ok(v) => {
                    o.set = Some(v);
                },
            }
            i = i + 2;
        } else {
            o.positional.push(args[i].clone());
            proof {
                assert(o@.positional =~= before.positional.push(arg@));
            }
            i = i + 1;
        }
    }
    proof {
        assert(all.skip(i as int).len() == 0);
    }
    let known = stage_names();
    let mut k: usize = 0;
    while k < o.stages.len()
        invariant
            k <= o.stages.len(),
            views(known@) == stage_list(),
            unknown_stage(o@.stages, 0) == unknown_stage(o@.stages, k as int),
            read_on(all, start) == Ok::<MicsArgs, Halt>(o@),
            all == views(args@),
            start == (MicsArgs {
                positional: Seq::empty(),
                out: None,
                stages: Seq::empty(),
                holdout: true,
                set: None,
            }),
        decreases o.stages.len() - k,
    {
        if !listed(&known, o.stages[k].as_str()) {
            let mut text = String::from_str("unknown stage ");
            text.append(quote(o.stages[k].as_str()).as_str());
            text.append("; stages are ");
            text.append(join(&known, ", ").as_str());
            proof {
                assert(o@.stages[k as int] == o.stages@[k as int]@);
            }
            return Err(Stop::Error(text));
        }
        k = k + 1;
    }
    Ok(o)
}

impl MicsOptions {
    /// Where the library is.
    pub fn data(&self) -> (r: String)
        ensures
            r@ == or_default(self@.positional, 0, "data/salamander"@),
    {
        crate::args::nth_or(&self.positional, 0, "data/salamander")
    }

    /// Where the preset is.
    pub fn preset(&self) -> (r: String)
        ensures
            r@ == or_default(self@.positional, 1, "presets/salamander-c5.toml"@),
    {
        crate::args::nth_or(&self.positional, 1, "presets/salamander-c5.toml")
    }

    /// Whether a stage runs: none does where the pair is given, and all do
    /// where none is named.
    pub open spec fn runs(self, name: Seq<char>) -> bool {
        self.set is None && (self.stages.len() == 0 || self@.stages.contains(name))
    }

    /// Whether a stage runs.
    pub fn wants(&self, name: &str) -> (r: bool)
        ensures
            r == self.runs(name@),
    {
        self.set.is_none() && (self.stages.len() == 0 || listed(&self.stages, name))
    }
}

/// One part of a run.
#[derive(Clone, Copy, Debug, PartialEq, Eq, Structural)]
pub enum Step {
    /// Fit the geometry from the measured delays.
    Geometry,
    /// Take the geometry that the preset has; it is an error for it to have
    /// none.
    GivenGeometry,
    Profile,
    Coherence,
    Image,
    /// Score the grid of bands and end there.
    GridOnly,
    /// Fit the band with the geometry and the trims held.
    Modal,
    /// Fit the band and the trims together.
    Band,
    /// Say what holding the geometry at its delays costs.
    Cost,
    Report,
    HoldOut,
}

/// The steps with one more, where it is called for.
pub open spec fn and_if(steps: Seq<Step>, wanted: bool, step: Step) -> Seq<Step> {
    if wanted {
        steps.push(step)
    } else {
        steps
    }
}

/// The steps before the band is fitted.
pub open spec fn first_steps(o: MicsOptions) -> Seq<Step> {
    let geometry = Seq::<Step>::empty().push(
        if o.runs("geometry"@) {
            Step::Geometry
        } else {
            Step::GivenGeometry
        },
    );
    let profile = and_if(geometry, o.runs("profile"@), Step::Profile);
    let coherence = and_if(profile, o.runs("coherence"@), Step::Coherence);
    and_if(coherence, o.runs("image"@), Step::Image)
}

/// The steps of a run, in order.
pub open spec fn steps_of(o: MicsOptions) -> Seq<Step> {
    let start = first_steps(o);
    if o.runs("grid"@) && !(o.runs("band"@) || o.runs("modal"@)) {
        start.push(Step::GridOnly)
    } else {
        let joint = and_if(start, o.runs("band"@), Step::Band);
        let modal = and_if(joint, !o.runs("band"@) && o.runs("modal"@), Step::Modal);
        let cost = and_if(modal, o.runs("coherence"@) && o.runs("image"@), Step::Cost);
        and_if(cost.push(Step::Report), o.holdout, Step::HoldOut)
    }
}

fn add_if(steps: &mut Vec<Step>, wanted: bool, step: Step)
    ensures
        final(steps)@ == and_if(old(steps)@, wanted, step),
{
    if wanted {
        steps.push(step);
    }
}

/// The steps of a run, in order.
pub fn steps(o: &MicsOptions) -> (r: Vec<Step>)
    ensures
        r@ == steps_of(*o),
{
    let mut v: Vec<Step> = Vec::new();
    let first = if o.wants("geometry") {
        Step::Geometry
    } else {
        Step::GivenGeometry
    };
    v.push(first);
    add_if(&mut v, o.wants("profile"), Step::Profile);
    add_if(&mut v, o.wants("coherence"), Step::Coherence);
    add_if(&mut v, o.wants("image"), Step::Image);
    let joint = o.wants("band");
    let modal = o.wants("modal");
    if o.wants("grid") && !(joint || modal) {
        v.push(Step::GridOnly);
        return v;
    }
    add_if(&mut v, joint, Step::Band);
    add_if(&mut v, !joint && modal, Step::Modal);
    add_if(&mut v, o.wants("coherence") && o.wants("image"), Step::Cost);
    v.push(Step::Report);
    add_if(&mut v, o.holdout, Step::HoldOut);
    v
}

/// A pair that is given is not fitted: it is reported, and held out unless that
/// is turned off.
pub proof fn a_given_pair_is_only_reported(o: MicsOptions)
    requires
        o.set is Some,
    ensures
        steps_of(o) == (if o.holdout {
            seq![Step::GivenGeometry, Step::Report, Step::HoldOut]
        } else {
            seq![Step::GivenGeometry, Step::Report]
        }),
{
    assert(steps_of(o) =~= (if o.holdout {
        seq![Step::GivenGeometry, Step::Report, Step::HoldOut]
    } else {
        seq![Step::GivenGeometry, Step::Report]
    }));
}

/// With no stage named every stage runs, and the band is fitted with the trims.
pub proof fn every_stage_runs_by_default(o: MicsOptions)
    requires
        o.set is None,
        o.stages.len() == 0,
        o.holdout,
    ensures
        steps_of(o) == seq![
            Step::Geometry,
            Step::Profile,
            Step::Coherence,
            Step::Image,
            Step::Band,
            Step::Cost,
            Step::Report,
            Step::HoldOut,
        ],
{
    assert(steps_of(o) =~= seq![
        Step::Geometry,
        Step::Profile,
        Step::Coherence,
        Step::Image,
        Step::Band,
        Step::Cost,
        Step::Report,
        Step::HoldOut,
    ]);
}

/// A velocity band of the library.
#[derive(Clone, Copy, Debug, PartialEq, Eq, Structural)]
pub struct VelocityBand {
    pub lo: u8,
    pub hi: u8,
}

/// The middle velocity of a band, at least 1.
pub open spec fn middle_of(b: VelocityBand) -> u8 {
    let m = (b.lo + b.hi) / 2;
    if m < 1 {
        1
    } else {
        m as u8
    }
}

/// The velocities that are held out: the middles of the bands three below and
/// three above the one that was fitted.
pub open spec fn held_out(bands: Seq<VelocityBand>, fit_band: int) -> Seq<u8> {
    let below = if fit_band >= 3 {
        seq![middle_of(bands[fit_band - 3])]
    } else {
        seq![]
    };
    let above = if fit_band + 3 < bands.len() {
        seq![middle_of(bands[fit_band + 3])]
    } else {
        seq![]
    };
    below + above
}

fn middle(b: VelocityBand) -> (r: u8)
    ensures
        r == middle_of(b),
{
    let m: u16 = (b.lo as u16 + b.hi as u16) / 2;
    if m < 1 {
        1
    } else {
        m as u8
    }
}

/// The velocities that are held out; the band of the fitted velocity is taken
/// to be the middle one where no band holds it.
pub fn held_out_velocities(bands: &Vec<VelocityBand>, fit_band: Option<usize>) -> (r: Vec<u8>)
    requires
        fit_band matches Some(i) ==> i < bands.len(),
    ensures
        r@ == held_out(
            bands@,
            match fit_band {
                Some(i) => i as int,
                None => bands.len() as int / 2,
            },
        ),
{
    let at: usize = match fit_band {
        Some(i) => i,
        None => bands.len() / 2,
    };
    let mut out: Vec<u8> = Vec::new();
    if at >= 3 && at - 3 < bands.len() {
        out.push(middle(bands[at - 3]));
    }
    if at < bands.len() && bands.len() - at > 3 {
        out.push(middle(bands[at + 3]));
    }
    proof {
        assert(out@ =~= held_out(bands@, at as int));
    }
    out
}

/// The pair is held out on the velocities three bands below and three above the
/// one it was fitted on, where there are such bands, the softer first, each in
/// the middle of its band.
pub proof fn three_bands_away_are_held_out(bands: Seq<VelocityBand>, fit: int)
    requires
        0 <= fit < bands.len(),
    ensures
        ({
            let r = held_out(bands, fit);
            let low = fit >= 3;
            let high = fit + 3 < bands.len();
            &&& r.len() == (if low {
                1int
            } else {
                0int
            }) + (if high {
                1int
            } else {
                0int
            })
            &&& low ==> r[0] == middle_of(bands[fit - 3])
            &&& high ==> r.last() == middle_of(bands[fit + 3])
        }),
{
}

/// The middle of a band lies in it, as near its one end as its other, but is
/// never silent.
pub proof fn the_middle_is_in_the_band(b: VelocityBand)
    requires
        b.lo <= b.hi,
        b.hi >= 1,
    ensures
        b.lo <= middle_of(b) <= b.hi || middle_of(b) == 1,
        1 <= middle_of(b),
        middle_of(b) > 1 ==> middle_of(b) - b.lo <= b.hi - middle_of(b) <= middle_of(b) - b.lo + 1,
{
}

/// What the command line asks for stands behind the flag of that name, and what
/// no flag asks for stays as it was. Stages are added one after another.
pub proof fn every_option_stands_behind_its_flag(args: Seq<Seq<char>>, so_far: MicsArgs)
    ensures
        read_on(args, so_far) matches Ok(o) ==> {
            &&& o.out == so_far.out || (o.out matches Some(x) && follows(args, "--out"@, x))
            &&& so_far.out is Some || (args.len() > 0 && args[0] == "--out"@) ==> o.out is Some
            &&& !o.holdout ==> !so_far.holdout || args.contains("--no-holdout"@)
            &&& !so_far.holdout || (args.len() > 0 && args[0] == "--no-holdout"@) ==> !o.holdout
            &&& o.set is Some ==> so_far.set is Some || args.contains("--set"@)
            &&& so_far.set is Some || (args.len() > 0 && args[0] == "--set"@) ==> o.set is Some
            &&& so_far.stages.is_prefix_of(o.stages)
            &&& so_far.positional.is_prefix_of(o.positional)
            &&& forall|k: int|
                so_far.stages.len() <= k < o.stages.len() ==> follows(
                    args,
                    "--stage"@,
                    #[trigger] o.stages[k],
                )
            &&& args.len() > 0 && args[0] == "--stage"@ ==> o.stages.len() > so_far.stages.len()
                && o.stages[so_far.stages.len() as int] == args[1]
        },
    decreases args.len(),
{
    if args.len() > 0 && read_on(args, so_far) is Ok {
        reveal_strlit("--out");
        reveal_strlit("--stage");
        reveal_strlit("--no-holdout");
        reveal_strlit("--set");
        assert("--out"@.len() != "--stage"@.len());
        assert("--out"@.len() != "--no-holdout"@.len());
        assert("--out"@[2] != "--set"@[2]);
        assert("--stage"@.len() != "--no-holdout"@.len());
        assert("--stage"@.len() != "--set"@.len());
        assert("--no-holdout"@.len() != "--set"@.len());
        if args[0] == "--out"@ {
            let next = MicsArgs { out: Some(args[1]), ..so_far };
            it_follows_further_on(args, 2);
            every_option_stands_behind_its_flag(args.skip(2), next);
            assert(read_on(args, so_far) == read_on(args.skip(2), next));
        } else if args[0] == "--stage"@ {
            let next = MicsArgs { stages: so_far.stages.push(args[1]), ..so_far };
            it_follows_further_on(args, 2);
            every_option_stands_behind_its_flag(args.skip(2), next);
            assert(read_on(args, so_far) == read_on(args.skip(2), next));
            let o = read_on(args, so_far)->Ok_0;
            one_more_begins(so_far.stages, args[1], o.stages);
            assert(follows(args, "--stage"@, args[1])) by {
                assert(args[0] == "--stage"@);
            }
        } else if args[0] == "--no-holdout"@ {
            let next = MicsArgs { holdout: false, ..so_far };
            it_follows_further_on(args, 1);
            every_option_stands_behind_its_flag(args.skip(1), next);
            assert(read_on(args, so_far) == read_on(args.skip(1), next));
        } else if args[0] == "--set"@ {
            let next = MicsArgs { set: Some(set_value(args[1])->Ok_0), ..so_far };
            it_follows_further_on(args, 2);
            every_option_stands_behind_its_flag(args.skip(2), next);
            assert(read_on(args, so_far) == read_on(args.skip(2), next));
        } else {
            let next = MicsArgs { positional: so_far.positional.push(args[0]), ..so_far };
            it_follows_further_on(args, 1);
            every_option_stands_behind_its_flag(args.skip(1), next);
            assert(read_on(args, so_far) == read_on(args.skip(1), next));
            let o = read_on(args, so_far)->Ok_0;
            one_more_begins(so_far.positional, args[0], o.positional);
        }
    }
}

} // verus!
