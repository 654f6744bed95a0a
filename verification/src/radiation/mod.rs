//! Fitting the radiated response between the partials: the command line, the
//! rounds, and what is held where it was.

pub mod report;

use crate::args::{dashed, follows, follows_number, Halt, is_flag, maybe, Stop};
use crate::reading::Reading;
use crate::text::{decimal, parse_whole, print, same, views, whole};
use crate::words::{a_gap_adds_nothing, a_number_is_a_word, a_word_begins, a_word_goes_on, is_number, number_error, number_fault, words_of, writes_number};
use vstd::prelude::*;

verus! {

/// The velocity that is fitted.
pub const FIT_VELOCITY: u8 = 90;

/// How many rounds are taken unless it is said.
pub const DEFAULT_ROUNDS: usize = 8;

/// The tolerance that the rounds close on unless it is said, 0.25 dB.
pub const DEFAULT_TOLERANCE: u64 = 0x3fd0_0000_0000_0000;

/// How much of each round's deficit is applied unless it is said: all of it.
pub const DEFAULT_DAMPING: u64 = 0x3ff0_0000_0000_0000;

/// What the command line asks for.
pub struct RadiationOptions {
    pub positional: Vec<String>,
    pub out: Option<String>,
    pub hold_partials: bool,
    pub rounds: usize,
    /// A number, where it is said.
    pub tolerance: Option<String>,
    /// A number, where it is said.
    pub damping: Option<String>,
}

/// What the command line asks for.
pub ghost struct RadiationArgs {
    pub positional: Seq<Seq<char>>,
    pub out: Option<Seq<char>>,
    pub hold_partials: bool,
    pub rounds: nat,
    pub tolerance: Option<Seq<char>>,
    pub damping: Option<Seq<char>>,
}

impl View for RadiationOptions {
    type V = RadiationArgs;

    open spec fn view(&self) -> RadiationArgs {
        RadiationArgs {
            positional: views(self.positional@),
            out: maybe(self.out),
            hold_partials: self.hold_partials,
            rounds: self.rounds as nat,
            tolerance: maybe(self.tolerance),
            damping: maybe(self.damping),
        }
    }
}

pub const USAGE: &'static str = "usage: radiation <data-dir> <preset.toml> [--out <file>] \
    [--hold-partials] [--rounds n] [--tolerance dB] [--damping f]";

/// What the arguments from `i` on add to what was read before them.
pub open spec fn read_from(args: Seq<Seq<char>>, i: int, so_far: RadiationArgs) -> Result<
    RadiationArgs,
    Halt,
>
    decreases args.len() - i,
{
    if i < 0 || i >= args.len() {
        Ok(so_far)
    } else if args[i] == "--out"@ {
        if i + 1 >= args.len() {
            Err(Halt::Error("--out needs a path"@))
        } else {
            read_from(args, i + 2, RadiationArgs { out: Some(args[i + 1]), ..so_far })
        }
    } else if args[i] == "--hold-partials"@ {
        read_from(args, i + 1, RadiationArgs { hold_partials: true, ..so_far })
    } else if args[i] == "--rounds"@ {
        if i + 1 >= args.len() {
            Err(Halt::Error("--rounds needs a number"@))
        } else {
            match whole(args[i + 1], usize::MAX as nat) {
                Err(e) => Err(Halt::Error(e.says())),
                Ok(n) => read_from(args, i + 2, RadiationArgs { rounds: n, ..so_far }),
            }
        }
    } else if args[i] == "--tolerance"@ {
        if i + 1 >= args.len() {
            Err(Halt::Error("--tolerance needs a number"@))
        } else if !writes_number(args[i + 1]) {
            Err(Halt::Error(number_fault(args[i + 1])))
        } else {
            read_from(args, i + 2, RadiationArgs { tolerance: Some(args[i + 1]), ..so_far })
        }
    } else if args[i] == "--damping"@ {
        if i + 1 >= args.len() {
            Err(Halt::Error("--damping needs a number"@))
        } else if !writes_number(args[i + 1]) {
            Err(Halt::Error(number_fault(args[i + 1])))
        } else {
            read_from(args, i + 2, RadiationArgs { damping: Some(args[i + 1]), ..so_far })
        }
    } else if dashed(args[i]) {
        Err(Halt::Error("unknown flag "@ + args[i]))
    } else {
        read_from(
            args,
            i + 1,
            RadiationArgs { positional: so_far.positional.push(args[i]), ..so_far },
        )
    }
}

/// Nothing asked for.
pub open spec fn nothing() -> RadiationArgs {
    RadiationArgs {
        positional: Seq::empty(),
        out: None,
        hold_partials: false,
        rounds: DEFAULT_ROUNDS as nat,
        tolerance: None,
        damping: None,
    }
}

/// What the command line comes to: there have to be two arguments beside the
/// flags.
pub open spec fn asked(args: Seq<Seq<char>>) -> Result<RadiationArgs, Halt> {
    match read_from(args, 0, nothing()) {
        Err(h) => Err(h),
        Ok(o) => if o.positional.len() != 2 {
            Err(Halt::Error(USAGE@))
        } else {
            Ok(o)
        },
    }
}

fn needs(what: &str) -> (r: Stop)
    ensures
        r@ == Halt::Error(what@),
{
    Stop::Error(String::from_str(what))
}

fn number(text: &String) -> (r: Result<Option<String>, Stop>)
    ensures
        match r {
            Ok(v) => writes_number(text@) && maybe(v) == Some(text@),
            Err(e) => !writes_number(text@) && e@ == Halt::Error(number_fault(text@)),
        },
{
    if is_number(text.as_str()) {
        Ok(Some(text.clone()))
    } else {
        Err(Stop::Error(number_error(text.as_str())))
    }
}

/// What the command line asks for.
pub fn parse(args: &Vec<String>) -> (r: Result<RadiationOptions, Stop>)
    ensures
        match r {
            Ok(o) => asked(views(args@)) == Ok::<RadiationArgs, Halt>(o@),
            Err(e) => asked(views(args@)) == Err::<RadiationArgs, Halt>(e@),
        },
{
    let ghost all = views(args@);
    let mut o = RadiationOptions {
        positional: Vec::new(),
        out: None,
        hold_partials: false,
        rounds: DEFAULT_ROUNDS,
        tolerance: None,
        damping: None,
    };
    let mut i: usize = 0;
    proof {
        assert(o@.positional =~= Seq::<Seq<char>>::empty());
    }
    while i < args.len()
        invariant
            i <= args.len(),
            all == views(args@),
            read_from(all, 0, nothing()) == read_from(all, i as int, o@),
        decreases args.len() - i,
    {
        let arg = args[i].as_str();
        let last = i + 1 >= args.len();
        if same(arg, "--out") {
            if last {
                return Err(needs("--out needs a path"));
            }
            o.out = Some(args[i + 1].clone());
            i = i + 2;
        } else if same(arg, "--hold-partials") {
            o.hold_partials = true;
            i = i + 1;
        } else if same(arg, "--rounds") {
            if last {
                return Err(needs("--rounds needs a number"));
            }
            match parse_whole(args[i + 1].as_str(), usize::MAX as u64) {
                Err(e) => {
                    return Err(Stop::Error(e.message()));
                },
                Ok(n) => {
                    o.rounds = n as usize;
                },
            }
            i = i + 2;
        } else if same(arg, "--tolerance") {
            if last {
                return Err(needs("--tolerance needs a number"));
            }
            match number(&args[i + 1]) {
                Err(e) => {
                    return Err(e);
                },
                Ok(v) => {
                    o.tolerance = v;
                },
            }
            i = i + 2;
        } else if same(arg, "--damping") {
            if last {
                return Err(needs("--damping needs a number"));
            }
            match number(&args[i + 1]) {
                Err(e) => {
                    return Err(e);
                },
                Ok(v) => {
                    o.damping = v;
                },
            }
            i = i + 2;
        } else if is_flag(arg) {
            let mut text = String::from_str("unknown flag ");
            text.append(arg);
            return Err(Stop::Error(text));
        } else {
            let ghost before = o@.positional;
            o.positional.push(args[i].clone());
            proof {
                assert(o@.positional =~= before.push(args@[i as int]@));
            }
            i = i + 1;
        }
    }
    if o.positional.len() != 2 {
        return Err(needs(USAGE));
    }
    Ok(o)
}

/// What is said of a preset whose bands are not the fit's.
pub open spec fn other_bands_text(declared: usize, bands: usize) -> Seq<char> {
    "the preset declares "@ + decimal(declared as nat)
        + " radiation bands and this fit works on "@ + decimal(bands as nat)
        + "; delete the section or re-fit it on the same grid"@
}

/// Whether the curve that a preset declares is where the fit starts; it starts
/// flat where none is declared, and not at all where the bands are others.
pub fn starts_declared(declared: Option<usize>, bands: usize) -> (r: Result<bool, String>)
    ensures
        match declared {
            None => r == Ok::<bool, String>(false),
            Some(n) => if n == bands {
                r == Ok::<bool, String>(true)
            } else {
                r matches Err(text) && text@ == other_bands_text(n, bands)
            },
        },
{
    match declared {
        None => Ok(false),
        Some(n) => {
            if n == bands {
                return Ok(true);
            }
            let mut out = String::from_str("the preset declares ");
            out.append(print(n as u64).as_str());
            out.append(" radiation bands and this fit works on ");
            out.append(print(bands as u64).as_str());
            out.append("; delete the section or re-fit it on the same grid");
            Err(out)
        },
    }
}

/// Whether every band of a curve is at zero.
pub open spec fn is_flat(curve: Seq<Reading>) -> bool {
    forall|i: int| 0 <= i < curve.len() ==> (#[trigger] curve[i]).rank() == 0
}

/// Whether a round plays the preset as it is: the first, where the curve is
/// flat.
pub fn plays_the_preset(curve: &Vec<Reading>, round: usize) -> (r: bool)
    ensures
        r == (is_flat(curve@) && round == 0),
{
    let mut i: usize = 0;
    while i < curve.len()
        invariant
            i <= curve.len(),
            forall|k: int| 0 <= k < i ==> (#[trigger] curve@[k]).rank() == 0,
        decreases curve.len() - i,
    {
        if curve[i].standing() != 0 {
            return false;
        }
        i = i + 1;
    }
    round == 0
}

/// The rounds of a fit: it is over once the shape is inside the tolerance, or
/// after the last round.
pub struct Rounds {
    pub round: usize,
    pub most: usize,
    pub converged: Option<usize>,
    pub running: bool,
}

/// The first round that was inside the tolerance.
pub open spec fn settled_in(spreads: Seq<Reading>, tolerance: Reading) -> Option<int>
    decreases spreads.len(),
{
    if spreads.len() == 0 {
        None
    } else {
        match settled_in(spreads.drop_last(), tolerance) {
            Some(i) => Some(i),
            None => if spreads.last().at_most(tolerance) {
                Some(spreads.len() - 1)
            } else {
                None
            },
        }
    }
}

impl Rounds {
    /// The state of the rounds after these spreads were measured.
    pub open spec fn after(&self, spreads: Seq<Reading>, tolerance: Reading) -> bool {
        &&& self.round <= self.most
        &&& spreads.len() == (if self.running {
            self.round as int
        } else {
            self.round + 1
        })
        &&& match settled_in(spreads, tolerance) {
            None => self.converged is None && (self.running || self.round == self.most),
            Some(i) => self.converged == Some(i as usize) && i == self.round && !self.running,
        }
    }

    /// The first round of at most `most` after it.
    pub fn begin(most: usize) -> (r: Rounds)
        ensures
            r.most == most,
            r.running,
            forall|tolerance: Reading| #[trigger] r.after(Seq::empty(), tolerance),
    {
        Rounds { round: 0, most, converged: None, running: true }
    }

    /// Takes the spread that a round measured.
    pub fn observe(&mut self, spread: Reading, tolerance: Reading)
        requires
            old(self).running,
            old(self).round <= old(self).most,
        ensures
            final(self).most == old(self).most,
            final(self).running == !(spread.at_most(tolerance) || old(self).round
                == old(self).most),
            final(self).round == if final(self).running {
                old(self).round + 1
            } else {
                old(self).round as int
            },
            spread.at_most(tolerance) ==> final(self).converged == Some(old(self).round),
            !spread.at_most(tolerance) ==> final(self).converged == old(self).converged,
            forall|spreads: Seq<Reading>| #[trigger]
                old(self).after(spreads, tolerance) ==> final(self).after(
                    spreads.push(spread),
                    tolerance,
                ),
    {
        proof {
            assert forall|spreads: Seq<Reading>| #[trigger]
                spreads.push(spread).drop_last() == spreads by {
                assert(spreads.push(spread).drop_last() =~= spreads);
            }
        }
        if spread.le(&tolerance) {
            self.converged = Some(self.round);
            self.running = false;
        } else if self.round == self.most {
            self.running = false;
        } else {
            self.round = self.round + 1;
        }
    }
}

/// A fit takes one round more than the most after the first at the most, and
/// where it converges, it does so in the first round inside the tolerance.
pub proof fn a_fit_ends(rounds: Rounds, spreads: Seq<Reading>, tolerance: Reading)
    requires
        rounds.after(spreads, tolerance),
    ensures
        spreads.len() <= rounds.most + 1,
        !rounds.running ==> (rounds.converged is None ==> spreads.len() == rounds.most + 1),
        match rounds.converged {
            None => forall|i: int|
                0 <= i < spreads.len() ==> !(#[trigger] spreads[i]).at_most(tolerance),
            Some(n) => {
                &&& n == spreads.len() - 1
                &&& spreads[n as int].at_most(tolerance)
                &&& forall|i: int| 0 <= i < n ==> !(#[trigger] spreads[i]).at_most(tolerance)
            },
        },
{
    settled_is_first(spreads, tolerance);
}

proof fn settled_is_first(spreads: Seq<Reading>, tolerance: Reading)
    ensures
        match settled_in(spreads, tolerance) {
            None => forall|i: int|
                0 <= i < spreads.len() ==> !(#[trigger] spreads[i]).at_most(tolerance),
            Some(n) => {
                &&& 0 <= n < spreads.len()
                &&& spreads[n].at_most(tolerance)
                &&& forall|i: int| 0 <= i < n ==> !(#[trigger] spreads[i]).at_most(tolerance)
            },
        },
    decreases spreads.len(),
{
    if spreads.len() > 0 {
        let shorter = spreads.drop_last();
        settled_is_first(shorter, tolerance);
        assert forall|i: int| 0 <= i < shorter.len() implies #[trigger] spreads[i]
            == shorter[i] by {}
        match settled_in(shorter, tolerance) {
            None => {
                assert forall|i: int| 0 <= i < spreads.len() - 1 implies !(#[trigger]
                spreads[i]).at_most(tolerance) by {
                    assert(shorter[i] == spreads[i]);
                }
            },
            Some(n) => {
                assert forall|i: int| 0 <= i < n implies !(#[trigger] spreads[i]).at_most(
                    tolerance,
                ) by {
                    assert(shorter[i] == spreads[i]);
                }
            },
        }
    }
}

/// A gain inside the rails.
pub open spec fn railed_at(wanted: Reading, least: Reading, most: Reading) -> Reading {
    if wanted.below(least) {
        least
    } else if most.below(wanted) {
        most
    } else {
        wanted
    }
}

/// Whether a gain reached a rail, or is no number.
pub open spec fn is_railed(wanted: Reading, least: Reading, most: Reading) -> bool {
    wanted.nan() || wanted.below(least) || most.below(wanted)
}

/// How many of the gains reached a rail.
pub open spec fn railed_of(wanted: Seq<Reading>, least: Reading, most: Reading) -> nat
    decreases wanted.len(),
{
    if wanted.len() == 0 {
        0
    } else {
        railed_of(wanted.drop_last(), least, most) + (if is_railed(wanted.last(), least, most) {
            1nat
        } else {
            0nat
        })
    }
}

/// Holds gains inside the rails, and counts those that reached one.
pub fn hold_partials(wanted: &Vec<Reading>, least: Reading, most: Reading) -> (r: (
    Vec<Reading>,
    usize,
))
    requires
        least.at_most(most),
    ensures
        r.0@ == Seq::new(wanted@.len(), |i: int| railed_at(wanted@[i], least, most)),
        r.1 == railed_of(wanted@, least, most),
{
    let mut held: Vec<Reading> = Vec::new();
    let mut railed: usize = 0;
    let mut i: usize = 0;
    proof {
        assert(wanted@.take(0) =~= Seq::<Reading>::empty());
    }
    while i < wanted.len()
        invariant
            i <= wanted.len(),
            railed <= i,
            held@ == Seq::new(i as nat, |k: int| railed_at(wanted@[k], least, most)),
            railed == railed_of(wanted@.take(i as int), least, most),
        decreases wanted.len() - i,
    {
        proof {
            assert(wanted@.take(i + 1).drop_last() =~= wanted@.take(i as int));
            assert(wanted@.take(i + 1).last() == wanted@[i as int]);
        }
        let w = wanted[i];
        if w.lt(&least) {
            held.push(least);
            railed = railed + 1;
        } else if most.lt(&w) {
            held.push(most);
            railed = railed + 1;
        } else {
            held.push(w);
            if w.is_nan() {
                railed = railed + 1;
            }
        }
        i = i + 1;
        proof {
            assert(held@ =~= Seq::new(i as nat, |k: int| railed_at(wanted@[k], least, most)));
        }
    }
    proof {
        assert(wanted@.take(i as int) =~= wanted@);
    }
    (held, railed)
}

/// A gain that is a number is inside the rails once it is held, and holding it
/// again changes nothing.
pub proof fn a_held_gain_is_inside_the_rails(wanted: Reading, least: Reading, most: Reading)
    requires
        least.at_most(most),
        !wanted.nan(),
    ensures
        least.at_most(railed_at(wanted, least, most)),
        railed_at(wanted, least, most).at_most(most),
        railed_at(railed_at(wanted, least, most), least, most) == railed_at(wanted, least, most),
{
}

/// The gains that are counted as railed are those outside the rails or no
/// number.
pub proof fn a_gain_is_railed_where_it_is_outside(wanted: Seq<Reading>, least: Reading, most: Reading)
    ensures
        railed_of(wanted, least, most) == wanted.filter(|x: Reading| x.nan() || x.below(least) || most.below(x)).len(),
    decreases wanted.len(),
{
    reveal(Seq::filter);
    if wanted.len() > 0 {
        a_gain_is_railed_where_it_is_outside(wanted.drop_last(), least, most);
    }
}

/// The fit settles in the first round whose spread is within the tolerance.
pub proof fn the_fit_settles_at_the_first_small_spread(spreads: Seq<Reading>, tolerance: Reading)
    ensures
        match settled_in(spreads, tolerance) {
            None => forall|i: int| 0 <= i < spreads.len() ==> !(#[trigger] spreads[i]).at_most(tolerance),
            Some(i) => 0 <= i < spreads.len() && spreads[i].at_most(tolerance) && forall|j: int|
                0 <= j < i ==> !(#[trigger] spreads[j]).at_most(tolerance),
        },
    decreases spreads.len(),
{
    if spreads.len() > 0 {
        let shorter = spreads.drop_last();
        the_fit_settles_at_the_first_small_spread(shorter, tolerance);
        match settled_in(shorter, tolerance) {
            None => {
                assert forall|i: int| 0 <= i < spreads.len() - 1 implies !(
                #[trigger] spreads[i]).at_most(tolerance) by {
                    assert(!shorter[i].at_most(tolerance));
                }
            },
            Some(i) => {
                assert(shorter[i] == spreads[i]);
                assert forall|j: int| 0 <= j < i implies !(#[trigger] spreads[j]).at_most(
                    tolerance,
                ) by {
                    assert(!shorter[j].at_most(tolerance));
                }
            },
        }
    }
}

/// A gain inside the rails stays, one outside goes to the rail it is beyond.
pub proof fn a_gain_goes_to_the_rail_it_is_beyond(wanted: Reading, least: Reading, most: Reading)
    requires
        least.at_most(most),
    ensures
        least.at_most(wanted) && wanted.at_most(most) ==> railed_at(wanted, least, most) == wanted,
        wanted.below(least) ==> railed_at(wanted, least, most) == least,
        most.below(wanted) ==> railed_at(wanted, least, most) == most,
        is_railed(wanted, least, most) <==> !(least.at_most(wanted) && wanted.at_most(most)),
{
}

/// What the command line asks for stands behind the flag of that name, and what
/// no flag asks for stays as it was.
pub proof fn every_option_stands_behind_its_flag(args: Seq<Seq<char>>, i: int, so_far: RadiationArgs)
    requires
        0 <= i < args.len(),
    ensures
        read_from(args, i, so_far) matches Ok(o) ==> {
            &&& o.out == so_far.out || (o.out matches Some(x) && follows(args, "--out"@, x))
            &&& so_far.out is Some || args[i] == "--out"@ ==> o.out is Some
            &&& o.tolerance == so_far.tolerance || (o.tolerance matches Some(x) && follows(args, "--tolerance"@, x))
            &&& so_far.tolerance is Some || args[i] == "--tolerance"@ ==> o.tolerance is Some
            &&& o.damping == so_far.damping || (o.damping matches Some(x) && follows(args, "--damping"@, x))
            &&& so_far.damping is Some || args[i] == "--damping"@ ==> o.damping is Some
            &&& o.rounds == so_far.rounds || follows_number(args, "--rounds"@, o.rounds)
            &&& o.hold_partials ==> so_far.hold_partials || args.contains("--hold-partials"@)
            &&& so_far.hold_partials || args[i] == "--hold-partials"@ ==> o.hold_partials
            &&& so_far.positional.is_prefix_of(o.positional)
        },
    decreases args.len() - i,
{
    if read_from(args, i, so_far) is Ok {
        reveal_strlit("--out");
        reveal_strlit("--tolerance");
        reveal_strlit("--damping");
        reveal_strlit("--rounds");
        reveal_strlit("--hold-partials");
        assert("--out"@.len() != "--tolerance"@.len());
        assert("--out"@.len() != "--damping"@.len());
        assert("--out"@.len() != "--rounds"@.len());
        assert("--out"@.len() != "--hold-partials"@.len());
        assert("--tolerance"@.len() != "--damping"@.len());
        assert("--tolerance"@.len() != "--rounds"@.len());
        assert("--tolerance"@.len() != "--hold-partials"@.len());
        assert("--damping"@.len() != "--rounds"@.len());
        assert("--damping"@.len() != "--hold-partials"@.len());
        assert("--rounds"@.len() != "--hold-partials"@.len());
        if args[i] == "--out"@ {
            let next = RadiationArgs { out: Some(args[i + 1]), ..so_far };
            assert(read_from(args, i, so_far) == read_from(args, i + 2, next));
            if i + 2 < args.len() {
                every_option_stands_behind_its_flag(args, i + 2, next);
            }
        } else if args[i] == "--hold-partials"@ {
            let next = RadiationArgs { hold_partials: true, ..so_far };
            assert(read_from(args, i, so_far) == read_from(args, i + 1, next));
            if i + 1 < args.len() {
                every_option_stands_behind_its_flag(args, i + 1, next);
            }
        } else if args[i] == "--rounds"@ {
            let next = RadiationArgs { rounds: whole(args[i + 1], usize::MAX as nat)->Ok_0, ..so_far };
            assert(read_from(args, i, so_far) == read_from(args, i + 2, next));
            if i + 2 < args.len() {
                every_option_stands_behind_its_flag(args, i + 2, next);
            }
        } else if args[i] == "--tolerance"@ {
            let next = RadiationArgs { tolerance: Some(args[i + 1]), ..so_far };
            assert(read_from(args, i, so_far) == read_from(args, i + 2, next));
            if i + 2 < args.len() {
                every_option_stands_behind_its_flag(args, i + 2, next);
            }
        } else if args[i] == "--damping"@ {
            let next = RadiationArgs { damping: Some(args[i + 1]), ..so_far };
            assert(read_from(args, i, so_far) == read_from(args, i + 2, next));
            if i + 2 < args.len() {
                every_option_stands_behind_its_flag(args, i + 2, next);
            }
        } else {
            let next = RadiationArgs { positional: so_far.positional.push(args[i]), ..so_far };
            assert(read_from(args, i, so_far) == read_from(args, i + 1, next));
            if i + 1 < args.len() {
                every_option_stands_behind_its_flag(args, i + 1, next);
            }
        }
    }
}

/// Each number of `other_bands` stands in its place among the words.
#[verifier::rlimit(30)]
pub proof fn the_words_of_other_bands_stand_in_order(declared: usize, bands: usize)
    ensures
        words_of(other_bands_text(declared, bands)).len() == 22,
        words_of(other_bands_text(declared, bands))[3] == decimal(declared as nat),
        words_of(other_bands_text(declared, bands))[11] == decimal(bands as nat) + ";"@,
{
    reveal_strlit("the preset declares ");
    reveal_strlit("the");
    reveal_strlit(" ");
    reveal_strlit("preset");
    reveal_strlit("declares");
    reveal_strlit(" radiation bands and this fit works on ");
    reveal_strlit("radiation");
    reveal_strlit("bands");
    reveal_strlit("and");
    reveal_strlit("this");
    reveal_strlit("fit");
    reveal_strlit("works");
    reveal_strlit("on");
    reveal_strlit("; delete the section or re-fit it on the same grid");
    reveal_strlit(";");
    reveal_strlit("delete");
    reveal_strlit("section");
    reveal_strlit("or");
    reveal_strlit("re-fit");
    reveal_strlit("it");
    reveal_strlit("same");
    reveal_strlit("grid");
    a_number_is_a_word(declared as nat);
    a_number_is_a_word(bands as nat);
    let p0 = "the preset declares "@;
    a_word_begins(Seq::<char>::empty(), "the"@);
    a_gap_adds_nothing(Seq::<char>::empty() + "the"@, " "@);
    a_word_begins(Seq::<char>::empty() + "the"@ + " "@, "preset"@);
    a_gap_adds_nothing(Seq::<char>::empty() + "the"@ + " "@ + "preset"@, " "@);
    a_word_begins(Seq::<char>::empty() + "the"@ + " "@ + "preset"@ + " "@, "declares"@);
    a_gap_adds_nothing(Seq::<char>::empty() + "the"@ + " "@ + "preset"@ + " "@ + "declares"@, " "@);
    assert(p0 =~= Seq::<char>::empty() + "the"@ + " "@ + "preset"@ + " "@ + "declares"@ + " "@);
    a_word_begins(p0, decimal(declared as nat));
    let p1 = p0 + decimal(declared as nat);
    a_gap_adds_nothing(p1, " "@);
    a_word_begins(p1 + " "@, "radiation"@);
    a_gap_adds_nothing(p1 + " "@ + "radiation"@, " "@);
    a_word_begins(p1 + " "@ + "radiation"@ + " "@, "bands"@);
    a_gap_adds_nothing(p1 + " "@ + "radiation"@ + " "@ + "bands"@, " "@);
    a_word_begins(p1 + " "@ + "radiation"@ + " "@ + "bands"@ + " "@, "and"@);
    a_gap_adds_nothing(p1 + " "@ + "radiation"@ + " "@ + "bands"@ + " "@ + "and"@, " "@);
    a_word_begins(p1 + " "@ + "radiation"@ + " "@ + "bands"@ + " "@ + "and"@ + " "@, "this"@);
    a_gap_adds_nothing(p1 + " "@ + "radiation"@ + " "@ + "bands"@ + " "@ + "and"@ + " "@ + "this"@, " "@);
    a_word_begins(p1 + " "@ + "radiation"@ + " "@ + "bands"@ + " "@ + "and"@ + " "@ + "this"@ + " "@, "fit"@);
    a_gap_adds_nothing(p1 + " "@ + "radiation"@ + " "@ + "bands"@ + " "@ + "and"@ + " "@ + "this"@ + " "@ + "fit"@, " "@);
    a_word_begins(p1 + " "@ + "radiation"@ + " "@ + "bands"@ + " "@ + "and"@ + " "@ + "this"@ + " "@ + "fit"@ + " "@, "works"@);
    a_gap_adds_nothing(p1 + " "@ + "radiation"@ + " "@ + "bands"@ + " "@ + "and"@ + " "@ + "this"@ + " "@ + "fit"@ + " "@ + "works"@, " "@);
    a_word_begins(p1 + " "@ + "radiation"@ + " "@ + "bands"@ + " "@ + "and"@ + " "@ + "this"@ + " "@ + "fit"@ + " "@ + "works"@ + " "@, "on"@);
    a_gap_adds_nothing(p1 + " "@ + "radiation"@ + " "@ + "bands"@ + " "@ + "and"@ + " "@ + "this"@ + " "@ + "fit"@ + " "@ + "works"@ + " "@ + "on"@, " "@);
    let p2 = p1 + " radiation bands and this fit works on "@;
    assert(p2 =~= p1 + " "@ + "radiation"@ + " "@ + "bands"@ + " "@ + "and"@ + " "@ + "this"@ + " "@ + "fit"@ + " "@ + "works"@ + " "@ + "on"@ + " "@);
    a_word_begins(p2, decimal(bands as nat));
    let p3 = p2 + decimal(bands as nat);
    a_word_goes_on(p3, ";"@);
    a_gap_adds_nothing(p3 + ";"@, " "@);
    a_word_begins(p3 + ";"@ + " "@, "delete"@);
    a_gap_adds_nothing(p3 + ";"@ + " "@ + "delete"@, " "@);
    a_word_begins(p3 + ";"@ + " "@ + "delete"@ + " "@, "the"@);
    a_gap_adds_nothing(p3 + ";"@ + " "@ + "delete"@ + " "@ + "the"@, " "@);
    a_word_begins(p3 + ";"@ + " "@ + "delete"@ + " "@ + "the"@ + " "@, "section"@);
    a_gap_adds_nothing(p3 + ";"@ + " "@ + "delete"@ + " "@ + "the"@ + " "@ + "section"@, " "@);
    a_word_begins(p3 + ";"@ + " "@ + "delete"@ + " "@ + "the"@ + " "@ + "section"@ + " "@, "or"@);
    a_gap_adds_nothing(p3 + ";"@ + " "@ + "delete"@ + " "@ + "the"@ + " "@ + "section"@ + " "@ + "or"@, " "@);
    a_word_begins(p3 + ";"@ + " "@ + "delete"@ + " "@ + "the"@ + " "@ + "section"@ + " "@ + "or"@ + " "@, "re-fit"@);
    a_gap_adds_nothing(p3 + ";"@ + " "@ + "delete"@ + " "@ + "the"@ + " "@ + "section"@ + " "@ + "or"@ + " "@ + "re-fit"@, " "@);
    a_word_begins(p3 + ";"@ + " "@ + "delete"@ + " "@ + "the"@ + " "@ + "section"@ + " "@ + "or"@ + " "@ + "re-fit"@ + " "@, "it"@);
    a_gap_adds_nothing(p3 + ";"@ + " "@ + "delete"@ + " "@ + "the"@ + " "@ + "section"@ + " "@ + "or"@ + " "@ + "re-fit"@ + " "@ + "it"@, " "@);
    a_word_begins(p3 + ";"@ + " "@ + "delete"@ + " "@ + "the"@ + " "@ + "section"@ + " "@ + "or"@ + " "@ + "re-fit"@ + " "@ + "it"@ + " "@, "on"@);
    a_gap_adds_nothing(p3 + ";"@ + " "@ + "delete"@ + " "@ + "the"@ + " "@ + "section"@ + " "@ + "or"@ + " "@ + "re-fit"@ + " "@ + "it"@ + " "@ + "on"@, " "@);
    a_word_begins(p3 + ";"@ + " "@ + "delete"@ + " "@ + "the"@ + " "@ + "section"@ + " "@ + "or"@ + " "@ + "re-fit"@ + " "@ + "it"@ + " "@ + "on"@ + " "@, "the"@);
    a_gap_adds_nothing(p3 + ";"@ + " "@ + "delete"@ + " "@ + "the"@ + " "@ + "section"@ + " "@ + "or"@ + " "@ + "re-fit"@ + " "@ + "it"@ + " "@ + "on"@ + " "@ + "the"@, " "@);
    a_word_begins(p3 + ";"@ + " "@ + "delete"@ + " "@ + "the"@ + " "@ + "section"@ + " "@ + "or"@ + " "@ + "re-fit"@ + " "@ + "it"@ + " "@ + "on"@ + " "@ + "the"@ + " "@, "same"@);
    a_gap_adds_nothing(p3 + ";"@ + " "@ + "delete"@ + " "@ + "the"@ + " "@ + "section"@ + " "@ + "or"@ + " "@ + "re-fit"@ + " "@ + "it"@ + " "@ + "on"@ + " "@ + "the"@ + " "@ + "same"@, " "@);
    a_word_begins(p3 + ";"@ + " "@ + "delete"@ + " "@ + "the"@ + " "@ + "section"@ + " "@ + "or"@ + " "@ + "re-fit"@ + " "@ + "it"@ + " "@ + "on"@ + " "@ + "the"@ + " "@ + "same"@ + " "@, "grid"@);
    let p4 = p3 + "; delete the section or re-fit it on the same grid"@;
    assert(p4 =~= p3 + ";"@ + " "@ + "delete"@ + " "@ + "the"@ + " "@ + "section"@ + " "@ + "or"@ + " "@ + "re-fit"@ + " "@ + "it"@ + " "@ + "on"@ + " "@ + "the"@ + " "@ + "same"@ + " "@ + "grid"@);
    assert(other_bands_text(declared, bands) == p4);
}

} // verus!
