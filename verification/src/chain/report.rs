//! The report on the recording chain.

use crate::chain::{decays, is_decay};
use crate::keys::{names, names_of};
use crate::reading::Reading;
use crate::text::{decimal, join, joined, print, ticked, ticked_of, views};
use crate::words::{a_field_begins, fields_of, one_field, one_more_field, the_field_goes_on};
use vstd::prelude::*;

verus! {

/// One band of the fitted curve, as it is printed.
pub struct CurveRow {
    pub hz: String,
    pub half_a: String,
    pub half_b: String,
    pub all: String,
    pub pairs: String,
    pub scatter: String,
}

/// One band of the two channels, as it is printed.
pub struct SpatialRow {
    pub low: String,
    pub high: String,
    pub zero: String,
    pub peak: String,
    pub lag: String,
    pub engine: String,
}

/// One band of the tail: its decay, and how it is printed.
pub struct TailRow {
    pub low: String,
    pub high: String,
    pub time: Reading,
    pub decay: String,
}

/// One cluster of arrivals, as it is printed.
pub struct Arrival {
    pub delay: String,
    pub level: String,
    pub side: String,
    /// How many arrivals stand in its line.
    pub count: usize,
}

/// One tail level that was tried, as it is printed.
pub struct SweptLevel {
    pub level: String,
    pub mismatch: String,
    pub chosen: bool,
}

/// One number, four ways: as rendered, through the curve, through the whole chain,
/// and the reference against itself.
pub struct Four {
    pub engine: String,
    pub eq: String,
    pub chain: String,
    pub floor: String,
}

/// What a static curve would leave at best: no curve, one for all, one for each
/// phrase.
pub struct Oracle {
    pub none: String,
    pub one: String,
    pub each: String,
}

/// One phrase, as it is printed.
pub struct PhraseRow {
    pub name: String,
    pub mel: Four,
    pub modulation: Four,
    pub low: Four,
    pub high: Four,
    pub tilt: Four,
}

/// What was measured, as it is printed.
pub struct Findings {
    pub preset: String,
    pub sfz: String,
    pub half_a: Vec<u8>,
    pub half_b: Vec<u8>,
    pub keys: usize,
    pub velocities: usize,
    pub pairs: usize,
    pub read_low: usize,
    pub read_high: usize,
    /// How many coefficients the curve is smoothed to.
    pub order: usize,
    pub spatial_keys: usize,
    /// The velocity that the channels are read at.
    pub velocity: u8,
    /// The window that the oracle is read at.
    pub window: usize,
    /// What was rendered.
    pub written: Vec<String>,
    /// Where it was written.
    pub out: String,
    /// How many recordings of the mechanism were read.
    pub impulsive: usize,
    /// Whether the arrivals do not fall with their delays.
    pub rising: bool,
    pub mel: Four,
    pub modulation: Four,
    pub oracle: Oracle,
    /// The same through the fitted curve.
    pub oracle_eq: Oracle,
    pub excess: String,
    pub eq_share: String,
    pub chain_share: String,
    pub oracle_mel: String,
    pub oracle_share: String,
    pub oracle_gain: String,
    pub split: String,
    pub split_r: String,
    pub level: String,
    pub level_r: String,
    pub train_before: String,
    pub train_after: String,
    pub held_before: String,
    pub held_after: String,
    pub held_gain: String,
    pub read_low_hz: String,
    pub read_high_hz: String,
    pub engine_top: String,
    pub edt: String,
    pub t20: String,
    pub decay_middle: String,
    pub decay_top: String,
    pub rise_db: String,
    pub rise_ms: String,
    pub onset: String,
    pub longest: String,
    pub bare: String,
    pub tail_level: String,
    pub chained: String,
    pub coherent: String,
    pub broadband: String,
    pub engine_broadband: String,
    pub matched: String,
    pub oracle_each_gain: String,
    pub oracle_taken: String,
    pub high_engine: String,
    pub high_eq: String,
    pub tilt_engine: String,
    pub tilt_eq: String,
    pub engine_top_peak: String,
    pub curve: Vec<CurveRow>,
    pub spatial: Vec<SpatialRow>,
    /// Every band, also those whose decay is no reading.
    pub tail: Vec<TailRow>,
    pub arrivals: Vec<Arrival>,
    pub sweep: Vec<SweptLevel>,
    pub phrases: Vec<PhraseRow>,
}

pub const ANSWER_0: &'static str = "# CHAIN.md — how much of the gap is the recording, not the piano\n\nWritten by `cargo \
    run --release -p piano-tuner -- chain`. The engine on `";

pub const ANSWER_1: &'static str = "`. **Nothing here is written into a preset.**\n\n`REALISM.md` compares a \
    near-anechoic render against a **recording**: a microphone pair, a placement, a lid, \
    a room and a master. `PHYSICS.md` §8 and §9 say that is two stages the engine does \
    not have, and `TUNING.md` stage 2 reserves the first of them — \"a static linear \
    filter applied to the engine output before loss, a ~40-band cepstrally-smooth \
    log-magnitude EQ\". This file is that absorber, **fitted once, globally, on single \
    notes, and reported on phrases none of which were in the fit**.\n\n## The answer, \
    first\n\n| | mel dB | share of the ";

pub const ANSWER_2: &'static str = " dB excess |\n|---|--:|--:|\n| engine as it stands | ";

pub const ANSWER_3: &'static str = " % |\n| **the oracle**: the best *any* static magnitude curve could do, fitted on the \
    answer itself | ";

pub const ANSWER_4: &'static str = " % |\n| the reference's own velocity-layer floor | ";

pub const ANSWER_5: &'static str = " | 100 % |\n\nThe oracle line is the one that settles it. It is not a filter anybody \
    could build — its per-band offsets are the medians of the very cells it is scored on, \
    one curve for all six phrases — and it is therefore an **upper bound on every static \
    magnitude chain there is**. It moves the mean log-mel distance by **";

pub const ANSWER_6: &'static str = "**. The remaining gap is not a static spectral transfer, and no EQ, fitted however \
    well, is going to become one.\n\n## Material and split\n\n";

pub const ANSWER_7: &'static str = " matched pairs. Keys split even/odd into halves of ";

pub const ANSWER_8: &'static str = ": the two halves share a microphone and a room and share no strings.\n\n* half A: ";

pub const ANSWER_9: &'static str = "\n\n## (a) The smooth spectral transfer\n\n| test | mean abs difference | correlation \
    | what it means |\n|---|--:|--:|---|\n| half A vs half B | ";

pub const ANSWER_10: &'static str = " | whether a *global* static chain exists at all |\n| soft layers vs loud | ";

pub const ANSWER_11: &'static str = " | whether the chain is level-dependent (a compressor) |\n\nMedian per-band `|engine \
    − reference|` over the cells the fit was allowed to read, with the half-A curve \
    applied: **train (half A) ";

pub const ANSWER_12: &'static str = " dB**. The curve replicates in *shape* (r ";

pub const ANSWER_13: &'static str = " dB per-band error — because that error is scatter between neighbouring bands of one \
    key, not a tilt shared by all of them.\n\n### The curve\n\nPositive is what the \
    **recording** has that the render does not. Read over bands ";

pub const ANSWER_14: &'static str = " Hz); flat outside them, because a truncated DCT overshoots at an edge and the top \
    bands are where a note has least energy.\n\n| Hz | half A | half B | all | pairs read \
    (A) | MAD (A) |\n|--:|--:|--:|--:|--:|--:|\n";

/// What was asked and found, and the head of the curve.
pub open spec fn answer_text(f: Findings) -> Seq<char> {
    ANSWER_0@
        + f.preset@
        + "` against the recordings at `"@
        + f.sfz@
        + ANSWER_1@
        + f.excess@
        + ANSWER_2@
        + f.mel.engine@
        + " | — |\n| through the fitted chain EQ | "@
        + f.mel.eq@
        + " | "@
        + f.eq_share@
        + " % |\n| through EQ and room stage | "@
        + f.mel.chain@
        + " | "@
        + f.chain_share@
        + ANSWER_3@
        + f.oracle_mel@
        + " | "@
        + f.oracle_share@
        + ANSWER_4@
        + f.mel.floor@
        + ANSWER_5@
        + f.oracle_gain@
        + " dB of "@
        + f.oracle.none@
        + ANSWER_6@
        + decimal(f.keys as nat)
        + " sampled keys x "@
        + decimal(f.velocities as nat)
        + " velocities = "@
        + decimal(f.pairs as nat)
        + ANSWER_7@
        + decimal(f.half_a@.len())
        + " and "@
        + decimal(f.half_b@.len())
        + ANSWER_8@
        + joined(names_of(f.half_a@), " "@)
        + "\n* half B: "@
        + joined(names_of(f.half_b@), " "@)
        + ANSWER_9@
        + f.split@
        + " dB | "@
        + f.split_r@
        + ANSWER_10@
        + f.level@
        + " dB | "@
        + f.level_r@
        + ANSWER_11@
        + f.train_before@
        + " -> "@
        + f.train_after@
        + " dB, held out (half B) "@
        + f.held_before@
        + " -> "@
        + f.held_after@
        + ANSWER_12@
        + f.split_r@
        + ") and buys, on keys it never saw, "@
        + f.held_gain@
        + " dB of a "@
        + f.held_before@
        + ANSWER_13@
        + decimal(f.read_low as nat)
        + ".."@
        + decimal(f.read_high as nat)
        + " ("@
        + f.read_low_hz@
        + "-"@
        + f.read_high_hz@
        + ANSWER_14@
}

/// What was asked and found, and the head of the curve.
pub fn answer(f: &Findings) -> (text: String)
    ensures
        text@ == answer_text(*f),
{
    let mut out = String::from_str(ANSWER_0);
    out.append(f.preset.as_str());
    out.append("` against the recordings at `");
    out.append(f.sfz.as_str());
    out.append(ANSWER_1);
    out.append(f.excess.as_str());
    out.append(ANSWER_2);
    out.append(f.mel.engine.as_str());
    out.append(" | — |\n| through the fitted chain EQ | ");
    out.append(f.mel.eq.as_str());
    out.append(" | ");
    out.append(f.eq_share.as_str());
    out.append(" % |\n| through EQ and room stage | ");
    out.append(f.mel.chain.as_str());
    out.append(" | ");
    out.append(f.chain_share.as_str());
    out.append(ANSWER_3);
    out.append(f.oracle_mel.as_str());
    out.append(" | ");
    out.append(f.oracle_share.as_str());
    out.append(ANSWER_4);
    out.append(f.mel.floor.as_str());
    out.append(ANSWER_5);
    out.append(f.oracle_gain.as_str());
    out.append(" dB of ");
    out.append(f.oracle.none.as_str());
    out.append(ANSWER_6);
    out.append(print(f.keys as u64).as_str());
    out.append(" sampled keys x ");
    out.append(print(f.velocities as u64).as_str());
    out.append(" velocities = ");
    out.append(print(f.pairs as u64).as_str());
    out.append(ANSWER_7);
    out.append(print(f.half_a.len() as u64).as_str());
    out.append(" and ");
    out.append(print(f.half_b.len() as u64).as_str());
    out.append(ANSWER_8);
    out.append(join(&names(&f.half_a), " ").as_str());
    out.append("\n* half B: ");
    out.append(join(&names(&f.half_b), " ").as_str());
    out.append(ANSWER_9);
    out.append(f.split.as_str());
    out.append(" dB | ");
    out.append(f.split_r.as_str());
    out.append(ANSWER_10);
    out.append(f.level.as_str());
    out.append(" dB | ");
    out.append(f.level_r.as_str());
    out.append(ANSWER_11);
    out.append(f.train_before.as_str());
    out.append(" -> ");
    out.append(f.train_after.as_str());
    out.append(" dB, held out (half B) ");
    out.append(f.held_before.as_str());
    out.append(" -> ");
    out.append(f.held_after.as_str());
    out.append(ANSWER_12);
    out.append(f.split_r.as_str());
    out.append(") and buys, on keys it never saw, ");
    out.append(f.held_gain.as_str());
    out.append(" dB of a ");
    out.append(f.held_before.as_str());
    out.append(ANSWER_13);
    out.append(print(f.read_low as u64).as_str());
    out.append("..");
    out.append(print(f.read_high as u64).as_str());
    out.append(" (");
    out.append(f.read_low_hz.as_str());
    out.append("-");
    out.append(f.read_high_hz.as_str());
    out.append(ANSWER_14);
    out
}

/// A row of the curve.
pub open spec fn curve_row_text(r: CurveRow) -> Seq<char> {
    "| "@
        + r.hz@
        + " | "@
        + r.half_a@
        + " | "@
        + r.half_b@
        + " | "@
        + r.all@
        + " | "@
        + r.pairs@
        + " | "@
        + r.scatter@
        + " |\n"@
}

/// A row of the curve.
pub fn curve_row(r: &CurveRow) -> (text: String)
    ensures
        text@ == curve_row_text(*r),
{
    let mut out = String::from_str("| ");
    out.append(r.hz.as_str());
    out.append(" | ");
    out.append(r.half_a.as_str());
    out.append(" | ");
    out.append(r.half_b.as_str());
    out.append(" | ");
    out.append(r.all.as_str());
    out.append(" | ");
    out.append(r.pairs.as_str());
    out.append(" | ");
    out.append(r.scatter.as_str());
    out.append(" |\n");
    out
}

/// The rows of the curve.
pub open spec fn curve_rows_text(rows: Seq<CurveRow>) -> Seq<char>
    decreases rows.len(),
{
    if rows.len() == 0 {
        Seq::empty()
    } else {
        curve_rows_text(rows.drop_last()) + curve_row_text(rows.last())
    }
}

/// The rows of the curve.
pub fn curve_rows(rows: &Vec<CurveRow>) -> (text: String)
    ensures
        text@ == curve_rows_text(rows@),
{
    let mut out = String::new();
    let mut i: usize = 0;
    proof {
        assert(rows@.take(0) =~= Seq::<CurveRow>::empty());
    }
    while i < rows.len()
        invariant
            i <= rows.len(),
            out@ == curve_rows_text(rows@.take(i as int)),
        decreases rows.len() - i,
    {
        proof {
            assert(rows@.take(i + 1).drop_last() =~= rows@.take(i as int));
        }
        out.append(curve_row(&rows[i]).as_str());
        i = i + 1;
    }
    proof {
        assert(rows@.take(i as int) =~= rows@);
    }
    out
}

pub const SPATIAL_HEADING_0: &'static str = "\nThe curve is the per-band median over pairs, cepstrally smoothed to ";

pub const SPATIAL_HEADING_1: &'static str = " coefficients so it can carry a microphone and cannot carry a partial series, with \
    its mean removed — level is not the chain's business. `MAD` is the median absolute \
    deviation of that band's own readings: where it is 3-10 dB, most of what the band \
    sees is one key's partials and only the median of thirty keys is a chain.\n\n## (b) \
    The spatial and temporal signature\n\n### Interchannel correlation — the largest \
    thing in the experiment, and the one nothing scores\n\n| band | reference r at lag 0 \
    | reference peak \\|r\\| | at lag | engine r at lag 0 |\n|---|--:|--:|--:|--:|\n";

/// What the curve is, and the head of the channels.
pub open spec fn spatial_heading_text(f: Findings) -> Seq<char> {
    SPATIAL_HEADING_0@
        + decimal(f.order as nat)
        + SPATIAL_HEADING_1@
}

/// What the curve is, and the head of the channels.
pub fn spatial_heading(f: &Findings) -> (text: String)
    ensures
        text@ == spatial_heading_text(*f),
{
    let mut out = String::from_str(SPATIAL_HEADING_0);
    out.append(print(f.order as u64).as_str());
    out.append(SPATIAL_HEADING_1);
    out
}

/// A row of the channels.
pub open spec fn spatial_row_text(r: SpatialRow) -> Seq<char> {
    "| "@
        + r.low@
        + "–"@
        + r.high@
        + " Hz | "@
        + r.zero@
        + " | "@
        + r.peak@
        + " | "@
        + r.lag@
        + " ms | "@
        + r.engine@
        + " |\n"@
}

/// A row of the channels.
pub fn spatial_row(r: &SpatialRow) -> (text: String)
    ensures
        text@ == spatial_row_text(*r),
{
    let mut out = String::from_str("| ");
    out.append(r.low.as_str());
    out.append("–");
    out.append(r.high.as_str());
    out.append(" Hz | ");
    out.append(r.zero.as_str());
    out.append(" | ");
    out.append(r.peak.as_str());
    out.append(" | ");
    out.append(r.lag.as_str());
    out.append(" ms | ");
    out.append(r.engine.as_str());
    out.append(" |\n");
    out
}

/// The rows of the channels.
pub open spec fn spatial_rows_text(rows: Seq<SpatialRow>) -> Seq<char>
    decreases rows.len(),
{
    if rows.len() == 0 {
        Seq::empty()
    } else {
        spatial_rows_text(rows.drop_last()) + spatial_row_text(rows.last())
    }
}

/// The rows of the channels.
pub fn spatial_rows(rows: &Vec<SpatialRow>) -> (text: String)
    ensures
        text@ == spatial_rows_text(rows@),
{
    let mut out = String::new();
    let mut i: usize = 0;
    proof {
        assert(rows@.take(0) =~= Seq::<SpatialRow>::empty());
    }
    while i < rows.len()
        invariant
            i <= rows.len(),
            out@ == spatial_rows_text(rows@.take(i as int)),
        decreases rows.len() - i,
    {
        proof {
            assert(rows@.take(i + 1).drop_last() =~= rows@.take(i as int));
        }
        out.append(spatial_row(&rows[i]).as_str());
        i = i + 1;
    }
    proof {
        assert(rows@.take(i as int) =~= rows@);
    }
    out
}

pub const IMPULSIVE_HEADING_0: &'static str = ". This is the largest and cleanest difference in the whole experiment and it is \
    **register-inverted**: the recording's two channels are nearly one signal below 125 \
    Hz — a mic pair spaced well under a wavelength sees one wavefront — and essentially \
    independent above it. The engine is the other way round. Its board FDN's two taps use \
    orthogonal sign patterns (`soundboard.rs`), so what it decorrelates is the *bass*, \
    where the board field dominates a note, and by 6-12 kHz its channels are a pan-pot's, \
    correlating at ";

pub const IMPULSIVE_HEADING_1: &'static str = ".\n\n**Every metric in `REALISM.md` is computed on the mono sum** and is blind to all \
    of it. That is not an oversight — a stereo distance between an engine that pans by \
    key and a recording made with a particular pair would mostly measure the pair — but \
    it does mean this column of the gap has never been scored, and it is the column a \
    room stage exists to move.\n\n### The impulsive material, and why it does not measure \
    a room\n\nThe library's key-off and pedal recordings are the only impulsive events in \
    it. Onset-trimmed and Schroeder-integrated: broadband **EDT ";

/// What the channels show, and the head of the decays.
pub open spec fn impulsive_heading_text(f: Findings) -> Seq<char> {
    "\nMedians over half A's "@
        + decimal(f.spatial_keys as nat)
        + " keys at velocity "@
        + decimal(f.velocity as nat)
        + IMPULSIVE_HEADING_0@
        + f.engine_top@
        + IMPULSIVE_HEADING_1@
        + f.edt@
        + " s, T20 "@
        + f.t20@
        + " s**.\n\n| band | T20 s |\n|---|--:|\n"@
}

/// What the channels show, and the head of the decays.
pub fn impulsive_heading(f: &Findings) -> (text: String)
    ensures
        text@ == impulsive_heading_text(*f),
{
    let mut out = String::from_str("\nMedians over half A's ");
    out.append(print(f.spatial_keys as u64).as_str());
    out.append(" keys at velocity ");
    out.append(print(f.velocity as u64).as_str());
    out.append(IMPULSIVE_HEADING_0);
    out.append(f.engine_top.as_str());
    out.append(IMPULSIVE_HEADING_1);
    out.append(f.edt.as_str());
    out.append(" s, T20 ");
    out.append(f.t20.as_str());
    out.append(" s**.\n\n| band | T20 s |\n|---|--:|\n");
    out
}

/// A row of the decays.
pub open spec fn tail_row_text(r: TailRow) -> Seq<char> {
    "| "@
        + r.low@
        + "–"@
        + r.high@
        + " Hz | "@
        + r.decay@
        + " |\n"@
}

/// A row of the decays.
pub fn tail_row(r: &TailRow) -> (text: String)
    ensures
        text@ == tail_row_text(*r),
{
    let mut out = String::from_str("| ");
    out.append(r.low.as_str());
    out.append("–");
    out.append(r.high.as_str());
    out.append(" Hz | ");
    out.append(r.decay.as_str());
    out.append(" |\n");
    out
}

/// The rows of the decays that are readings.
pub open spec fn tail_rows_text(rows: Seq<TailRow>) -> Seq<char>
    decreases rows.len(),
{
    if rows.len() == 0 {
        Seq::empty()
    } else if decays(rows.last().time) {
        tail_rows_text(rows.drop_last()) + tail_row_text(rows.last())
    } else {
        tail_rows_text(rows.drop_last())
    }
}

/// The rows of the decays that are readings.
pub fn tail_rows(rows: &Vec<TailRow>) -> (text: String)
    ensures
        text@ == tail_rows_text(rows@),
{
    let mut out = String::new();
    let mut i: usize = 0;
    proof {
        assert(rows@.take(0) =~= Seq::<TailRow>::empty());
    }
    while i < rows.len()
        invariant
            i <= rows.len(),
            out@ == tail_rows_text(rows@.take(i as int)),
        decreases rows.len() - i,
    {
        proof {
            assert(rows@.take(i + 1).drop_last() =~= rows@.take(i as int));
        }
        if is_decay(rows[i].time) {
            out.append(tail_row(&rows[i]).as_str());
        }
        i = i + 1;
    }
    proof {
        assert(rows@.take(i as int) =~= rows@);
    }
    out
}

pub const ARRIVAL_HEADING_0: &'static str = "\n**That is not a room and the table says so itself.** Air absorption makes every \
    real space's decay *shorter* with frequency; this one gets longer, ";

pub const ARRIVAL_HEADING_1: &'static str = " s at 6-12 kHz. What is being integrated is the mechanical event's own body, not the \
    space it happened in. Read as a bound the number is still useful — the room's T60 is \
    *at most* about half a second — and read as a measurement it is refused.\n\nThe \
    reflection finder agrees. Its ";

pub const ARRIVAL_HEADING_2: &'static str = " strongest clustered candidates, over the same recordings:\n\n| delay ms | level dB \
    under direct | side |\n|--:|--:|--:|\n";

/// What the decays show, and the head of the arrivals.
pub open spec fn arrival_heading_text(f: Findings) -> Seq<char> {
    ARRIVAL_HEADING_0@
        + f.decay_middle@
        + " s at 500 Hz-2 kHz against "@
        + f.decay_top@
        + ARRIVAL_HEADING_1@
        + decimal(f.arrivals@.len())
        + ARRIVAL_HEADING_2@
}

/// What the decays show, and the head of the arrivals.
pub fn arrival_heading(f: &Findings) -> (text: String)
    ensures
        text@ == arrival_heading_text(*f),
{
    let mut out = String::from_str(ARRIVAL_HEADING_0);
    out.append(f.decay_middle.as_str());
    out.append(" s at 500 Hz-2 kHz against ");
    out.append(f.decay_top.as_str());
    out.append(ARRIVAL_HEADING_1);
    out.append(print(f.arrivals.len() as u64).as_str());
    out.append(ARRIVAL_HEADING_2);
    out
}

/// A row of the arrivals.
pub open spec fn arrival_row_text(r: Arrival) -> Seq<char> {
    "| "@
        + r.delay@
        + " | "@
        + r.level@
        + " | "@
        + r.side@
        + " |\n"@
}

/// A row of the arrivals.
pub fn arrival_row(r: &Arrival) -> (text: String)
    ensures
        text@ == arrival_row_text(*r),
{
    let mut out = String::from_str("| ");
    out.append(r.delay.as_str());
    out.append(" | ");
    out.append(r.level.as_str());
    out.append(" | ");
    out.append(r.side.as_str());
    out.append(" |\n");
    out
}

/// The rows of the arrivals.
pub open spec fn arrival_rows_text(rows: Seq<Arrival>) -> Seq<char>
    decreases rows.len(),
{
    if rows.len() == 0 {
        Seq::empty()
    } else {
        arrival_rows_text(rows.drop_last()) + arrival_row_text(rows.last())
    }
}

/// The rows of the arrivals.
pub fn arrival_rows(rows: &Vec<Arrival>) -> (text: String)
    ensures
        text@ == arrival_rows_text(rows@),
{
    let mut out = String::new();
    let mut i: usize = 0;
    proof {
        assert(rows@.take(0) =~= Seq::<Arrival>::empty());
    }
    while i < rows.len()
        invariant
            i <= rows.len(),
            out@ == arrival_rows_text(rows@.take(i as int)),
        decreases rows.len() - i,
    {
        proof {
            assert(rows@.take(i + 1).drop_last() =~= rows@.take(i as int));
        }
        out.append(arrival_row(&rows[i]).as_str());
        i = i + 1;
    }
    proof {
        assert(rows@.take(i as int) =~= rows@);
    }
    out
}

pub const SWEEP_HEADING_0: &'static str = "\nA sequence of early reflections gets **quieter** with delay. These get louder, by ";

pub const SWEEP_HEADING_1: &'static str = " ms. They are the damper landing and the tray settling, and a room built out of them \
    would be that mechanism dressed as a wall. **The stage therefore carries no \
    reflections**, and the refusal is a finding rather than an omission.\n\n### What is \
    left, and how it is fitted\n\nA diffuse, decorrelated tail and nothing else. Its \
    decay per band is the bound above. Its onset is a **stated choice** of ";

pub const SWEEP_HEADING_2: &'static str = " ms, not a reading — every sample in the library is trimmed to its own onset, so a \
    pre-delay is not recoverable, and at a ";

pub const SWEEP_HEADING_3: &'static str = " s tail 10 ms is 2 % of its energy and none of its spectrum. Its **level** is fitted \
    to the one thing this material does measure about a late field: the recording's own \
    interchannel decorrelation, on half A's notes.\n\n| tail level dB | interchannel \
    mismatch |\n|--:|--:|\n| bare engine | ";

/// What the arrivals show, and the head of the levels tried.
pub open spec fn sweep_heading_text(f: Findings) -> Seq<char> {
    SWEEP_HEADING_0@
        + f.rise_db@
        + " dB over "@
        + f.rise_ms@
        + SWEEP_HEADING_1@
        + f.onset@
        + SWEEP_HEADING_2@
        + f.longest@
        + SWEEP_HEADING_3@
        + f.bare@
        + " |\n"@
}

/// What the arrivals show, and the head of the levels tried.
pub fn sweep_heading(f: &Findings) -> (text: String)
    ensures
        text@ == sweep_heading_text(*f),
{
    let mut out = String::from_str(SWEEP_HEADING_0);
    out.append(f.rise_db.as_str());
    out.append(" dB over ");
    out.append(f.rise_ms.as_str());
    out.append(SWEEP_HEADING_1);
    out.append(f.onset.as_str());
    out.append(SWEEP_HEADING_2);
    out.append(f.longest.as_str());
    out.append(SWEEP_HEADING_3);
    out.append(f.bare.as_str());
    out.append(" |\n");
    out
}

/// The row of the level that was chosen.
pub open spec fn chosen_row_text(r: SweptLevel) -> Seq<char> {
    "| **"@
        + r.level@
        + "** | **"@
        + r.mismatch@
        + "** |\n"@
}

/// The row of the level that was chosen.
pub fn chosen_row(r: &SweptLevel) -> (text: String)
    ensures
        text@ == chosen_row_text(*r),
{
    let mut out = String::from_str("| **");
    out.append(r.level.as_str());
    out.append("** | **");
    out.append(r.mismatch.as_str());
    out.append("** |\n");
    out
}

/// The row of a level that was not.
pub open spec fn other_row_text(r: SweptLevel) -> Seq<char> {
    "| "@
        + r.level@
        + " | "@
        + r.mismatch@
        + " |\n"@
}

/// The row of a level that was not.
pub fn other_row(r: &SweptLevel) -> (text: String)
    ensures
        text@ == other_row_text(*r),
{
    let mut out = String::from_str("| ");
    out.append(r.level.as_str());
    out.append(" | ");
    out.append(r.mismatch.as_str());
    out.append(" |\n");
    out
}

/// A row of the levels tried.
pub open spec fn sweep_row_text(r: SweptLevel) -> Seq<char> {
    if r.chosen {
        chosen_row_text(r)
    } else {
        other_row_text(r)
    }
}

/// A row of the levels tried.
pub fn sweep_row(r: &SweptLevel) -> (text: String)
    ensures
        text@ == sweep_row_text(*r),
{
    if r.chosen {
        chosen_row(r)
    } else {
        other_row(r)
    }
}

/// The rows of the levels tried.
pub open spec fn sweep_rows_text(rows: Seq<SweptLevel>) -> Seq<char>
    decreases rows.len(),
{
    if rows.len() == 0 {
        Seq::empty()
    } else {
        sweep_rows_text(rows.drop_last()) + sweep_row_text(rows.last())
    }
}

/// The rows of the levels tried.
pub fn sweep_rows(rows: &Vec<SweptLevel>) -> (text: String)
    ensures
        text@ == sweep_rows_text(rows@),
{
    let mut out = String::new();
    let mut i: usize = 0;
    proof {
        assert(rows@.take(0) =~= Seq::<SweptLevel>::empty());
    }
    while i < rows.len()
        invariant
            i <= rows.len(),
            out@ == sweep_rows_text(rows@.take(i as int)),
        decreases rows.len() - i,
    {
        proof {
            assert(rows@.take(i + 1).drop_last() =~= rows@.take(i as int));
        }
        out.append(sweep_row(&rows[i]).as_str());
        i = i + 1;
    }
    proof {
        assert(rows@.take(i as int) =~= rows@);
    }
    out
}

pub const COLLAPSE_HEADING_0: &'static str = " dB**, an interior minimum rather than a rail. Through the whole chain the mismatch \
    reads **";

pub const COLLAPSE_HEADING_1: &'static str = "** — the room stage closes about a third of the one gap it addresses, and cannot \
    close more, because the recording's decorrelation is not a tail: its channels stay ";

pub const COLLAPSE_HEADING_2: &'static str = " % coherent at a lag of a fraction of a millisecond, which is a spaced **pair of \
    microphones** and not a reverberant field. Matching it properly needs `PHYSICS.md` \
    §8's two mic positions, which is a different stage from §9's room. The two channels' \
    tails are drawn from independent streams, which is the whole spatial content of what \
    is built here.\n\n## The collapse\n\nEvery phrase below was held out of the fit \
    entirely. `engine` is the render as it stands, `+EQ` is it through the fitted curve \
    alone, `+chain` is it through curve and room, `floor` is the reference against itself \
    played out of the neighbouring velocity layer. `ode_soprano` is `MELODY.md`'s line \
    and is reported beside the six rather than averaged into them.\n\n| phrase | mel \
    engine | +EQ | +chain | floor | mod engine | +EQ | +chain | floor \
    |\n|---|--:|--:|--:|--:|--:|--:|--:|--:|\n";

/// What the level means, and the head of the collapse.
pub open spec fn collapse_heading_text(f: Findings) -> Seq<char> {
    "\nThe stage is set at **"@
        + f.tail_level@
        + COLLAPSE_HEADING_0@
        + f.bare@
        + " -> "@
        + f.chained@
        + COLLAPSE_HEADING_1@
        + f.coherent@
        + COLLAPSE_HEADING_2@
}

/// What the level means, and the head of the collapse.
pub fn collapse_heading(f: &Findings) -> (text: String)
    ensures
        text@ == collapse_heading_text(*f),
{
    let mut out = String::from_str("\nThe stage is set at **");
    out.append(f.tail_level.as_str());
    out.append(COLLAPSE_HEADING_0);
    out.append(f.bare.as_str());
    out.append(" -> ");
    out.append(f.chained.as_str());
    out.append(COLLAPSE_HEADING_1);
    out.append(f.coherent.as_str());
    out.append(COLLAPSE_HEADING_2);
    out
}

/// A row of the collapse.
pub open spec fn collapse_row_text(r: PhraseRow) -> Seq<char> {
    "| `"@
        + r.name@
        + "` | "@
        + r.mel.engine@
        + " | "@
        + r.mel.eq@
        + " | "@
        + r.mel.chain@
        + " | "@
        + r.mel.floor@
        + " | "@
        + r.modulation.engine@
        + " | "@
        + r.modulation.eq@
        + " | "@
        + r.modulation.chain@
        + " | "@
        + r.modulation.floor@
        + " |\n"@
}

/// A row of the collapse.
pub fn collapse_row(r: &PhraseRow) -> (text: String)
    ensures
        text@ == collapse_row_text(*r),
{
    let mut out = String::from_str("| `");
    out.append(r.name.as_str());
    out.append("` | ");
    out.append(r.mel.engine.as_str());
    out.append(" | ");
    out.append(r.mel.eq.as_str());
    out.append(" | ");
    out.append(r.mel.chain.as_str());
    out.append(" | ");
    out.append(r.mel.floor.as_str());
    out.append(" | ");
    out.append(r.modulation.engine.as_str());
    out.append(" | ");
    out.append(r.modulation.eq.as_str());
    out.append(" | ");
    out.append(r.modulation.chain.as_str());
    out.append(" | ");
    out.append(r.modulation.floor.as_str());
    out.append(" |\n");
    out
}

/// The rows of the collapse.
pub open spec fn collapse_rows_text(rows: Seq<PhraseRow>) -> Seq<char>
    decreases rows.len(),
{
    if rows.len() == 0 {
        Seq::empty()
    } else {
        collapse_rows_text(rows.drop_last()) + collapse_row_text(rows.last())
    }
}

/// The rows of the collapse.
pub fn collapse_rows(rows: &Vec<PhraseRow>) -> (text: String)
    ensures
        text@ == collapse_rows_text(rows@),
{
    let mut out = String::new();
    let mut i: usize = 0;
    proof {
        assert(rows@.take(0) =~= Seq::<PhraseRow>::empty());
    }
    while i < rows.len()
        invariant
            i <= rows.len(),
            out@ == collapse_rows_text(rows@.take(i as int)),
        decreases rows.len() - i,
    {
        proof {
            assert(rows@.take(i + 1).drop_last() =~= rows@.take(i as int));
        }
        out.append(collapse_row(&rows[i]).as_str());
        i = i + 1;
    }
    proof {
        assert(rows@.take(i as int) =~= rows@);
    }
    out
}

pub const ORACLE_SECTION_0: &'static str = " %** — the room stage gives back about a tenth of a dB of what the EQ buys, because a \
    decorrelated tail added to a signal that already carries a board field puts energy \
    where the reference has none, and the mono sum is where this metric reads it. What \
    the room stage buys is not in this table at all: see the interchannel column \
    above.\n\n### The oracle, at window ";

pub const ORACLE_SECTION_1: &'static str = " (the resolution the images are drawn at)\n\n| | as rendered | through the fitted EQ \
    |\n|---|--:|--:|\n| no curve | ";

pub const ORACLE_SECTION_2: &'static str = " |\n| one global static curve, fitted on the answer | ";

pub const ORACLE_SECTION_3: &'static str = " |\n| one static curve **per phrase**, fitted on the answer | ";

pub const ORACLE_SECTION_4: &'static str = " |\n\nA global static magnitude filter has at most **";

pub const ORACLE_SECTION_5: &'static str = " dB** distance to give, and even a filter allowed to change with every phrase has \
    only ";

pub const ORACLE_SECTION_6: &'static str = " dB. The fitted curve, which saw none of this material, has already taken ";

pub const ORACLE_SECTION_7: &'static str = " dB.\n\n### Brilliance, the same three ways\n\n| phrase | 2-6 kHz e / +EQ / +chain \
    (floor) | 6-12 kHz e / +EQ / +chain (floor) | tilt dB/oct e / +EQ / +chain (floor) \
    |\n|---|--:|--:|--:|\n";

/// What the collapse comes to, the oracle, and the head of the brilliance.
pub open spec fn oracle_section_text(f: Findings) -> Seq<char> {
    "| **mean of six** | **"@
        + f.mel.engine@
        + "** | **"@
        + f.mel.eq@
        + "** | **"@
        + f.mel.chain@
        + "** | **"@
        + f.mel.floor@
        + "** | "@
        + f.modulation.engine@
        + " | "@
        + f.modulation.eq@
        + " | "@
        + f.modulation.chain@
        + " | "@
        + f.modulation.floor@
        + " |\n\nThe excess over the floor is **"@
        + f.excess@
        + " dB**; the EQ absorbs **"@
        + f.eq_share@
        + " %** of it and the whole chain **"@
        + f.chain_share@
        + ORACLE_SECTION_0@
        + decimal(f.window as nat)
        + ORACLE_SECTION_1@
        + f.oracle.none@
        + " | "@
        + f.oracle_eq.none@
        + ORACLE_SECTION_2@
        + f.oracle.one@
        + " | "@
        + f.oracle_eq.one@
        + ORACLE_SECTION_3@
        + f.oracle.each@
        + " | "@
        + f.oracle_eq.each@
        + ORACLE_SECTION_4@
        + f.oracle_gain@
        + " dB** of a **"@
        + f.oracle.none@
        + ORACLE_SECTION_5@
        + f.oracle_each_gain@
        + ORACLE_SECTION_6@
        + f.oracle_taken@
        + ORACLE_SECTION_7@
}

/// What the collapse comes to, the oracle, and the head of the brilliance.
pub fn oracle_section(f: &Findings) -> (text: String)
    ensures
        text@ == oracle_section_text(*f),
{
    let mut out = String::from_str("| **mean of six** | **");
    out.append(f.mel.engine.as_str());
    out.append("** | **");
    out.append(f.mel.eq.as_str());
    out.append("** | **");
    out.append(f.mel.chain.as_str());
    out.append("** | **");
    out.append(f.mel.floor.as_str());
    out.append("** | ");
    out.append(f.modulation.engine.as_str());
    out.append(" | ");
    out.append(f.modulation.eq.as_str());
    out.append(" | ");
    out.append(f.modulation.chain.as_str());
    out.append(" | ");
    out.append(f.modulation.floor.as_str());
    out.append(" |\n\nThe excess over the floor is **");
    out.append(f.excess.as_str());
    out.append(" dB**; the EQ absorbs **");
    out.append(f.eq_share.as_str());
    out.append(" %** of it and the whole chain **");
    out.append(f.chain_share.as_str());
    out.append(ORACLE_SECTION_0);
    out.append(print(f.window as u64).as_str());
    out.append(ORACLE_SECTION_1);
    out.append(f.oracle.none.as_str());
    out.append(" | ");
    out.append(f.oracle_eq.none.as_str());
    out.append(ORACLE_SECTION_2);
    out.append(f.oracle.one.as_str());
    out.append(" | ");
    out.append(f.oracle_eq.one.as_str());
    out.append(ORACLE_SECTION_3);
    out.append(f.oracle.each.as_str());
    out.append(" | ");
    out.append(f.oracle_eq.each.as_str());
    out.append(ORACLE_SECTION_4);
    out.append(f.oracle_gain.as_str());
    out.append(" dB** of a **");
    out.append(f.oracle.none.as_str());
    out.append(ORACLE_SECTION_5);
    out.append(f.oracle_each_gain.as_str());
    out.append(ORACLE_SECTION_6);
    out.append(f.oracle_taken.as_str());
    out.append(ORACLE_SECTION_7);
    out
}

/// A row of the brilliance.
pub open spec fn brilliance_row_text(r: PhraseRow) -> Seq<char> {
    "| `"@
        + r.name@
        + "` | "@
        + r.low.engine@
        + " / "@
        + r.low.eq@
        + " / "@
        + r.low.chain@
        + " ("@
        + r.low.floor@
        + ") | "@
        + r.high.engine@
        + " / "@
        + r.high.eq@
        + " / "@
        + r.high.chain@
        + " ("@
        + r.high.floor@
        + ") | "@
        + r.tilt.engine@
        + " / "@
        + r.tilt.eq@
        + " / "@
        + r.tilt.chain@
        + " ("@
        + r.tilt.floor@
        + ") |\n"@
}

/// A row of the brilliance.
pub fn brilliance_row(r: &PhraseRow) -> (text: String)
    ensures
        text@ == brilliance_row_text(*r),
{
    let mut out = String::from_str("| `");
    out.append(r.name.as_str());
    out.append("` | ");
    out.append(r.low.engine.as_str());
    out.append(" / ");
    out.append(r.low.eq.as_str());
    out.append(" / ");
    out.append(r.low.chain.as_str());
    out.append(" (");
    out.append(r.low.floor.as_str());
    out.append(") | ");
    out.append(r.high.engine.as_str());
    out.append(" / ");
    out.append(r.high.eq.as_str());
    out.append(" / ");
    out.append(r.high.chain.as_str());
    out.append(" (");
    out.append(r.high.floor.as_str());
    out.append(") | ");
    out.append(r.tilt.engine.as_str());
    out.append(" / ");
    out.append(r.tilt.eq.as_str());
    out.append(" / ");
    out.append(r.tilt.chain.as_str());
    out.append(" (");
    out.append(r.tilt.floor.as_str());
    out.append(") |\n");
    out
}

/// The rows of the brilliance.
pub open spec fn brilliance_rows_text(rows: Seq<PhraseRow>) -> Seq<char>
    decreases rows.len(),
{
    if rows.len() == 0 {
        Seq::empty()
    } else {
        brilliance_rows_text(rows.drop_last()) + brilliance_row_text(rows.last())
    }
}

/// The rows of the brilliance.
pub fn brilliance_rows(rows: &Vec<PhraseRow>) -> (text: String)
    ensures
        text@ == brilliance_rows_text(rows@),
{
    let mut out = String::new();
    let mut i: usize = 0;
    proof {
        assert(rows@.take(0) =~= Seq::<PhraseRow>::empty());
    }
    while i < rows.len()
        invariant
            i <= rows.len(),
            out@ == brilliance_rows_text(rows@.take(i as int)),
        decreases rows.len() - i,
    {
        proof {
            assert(rows@.take(i + 1).drop_last() =~= rows@.take(i as int));
        }
        out.append(brilliance_row(&rows[i]).as_str());
        i = i + 1;
    }
    proof {
        assert(rows@.take(i as int) =~= rows@);
    }
    out
}

pub const VERDICT_0: &'static str = "\n## Renders\n\n`<name>_{engine,engine_chained,reference}.wav`, each scaled to the \
    benchmark's own target RMS so the three are level-matched: ";

pub const VERDICT_1: &'static str = ".\n\n## The verdict\n\n**The recording chain is not where the gap is.** A static \
    magnitude transfer — the thing `TUNING.md` reserved a stage for — absorbs **";

pub const VERDICT_2: &'static str = " %** of the excess when fitted honestly on separate material, and **at most ";

pub const VERDICT_3: &'static str = " %** when an oracle is allowed to fit it on the answer. Under a dB is the whole \
    prize, on a 3.40 dB excess.\n\nThree independent readings say the same thing and none \
    of them is the headline number.\n\n1. **The band-level scatter does not move.** The \
    half-A curve applied to keys it never saw changes the median per-band error by ";

pub const VERDICT_4: &'static str = ". What a curve can remove is the part of the error every key shares; what is left is \
    each key's own partials being in the wrong place relative to each other, which is a \
    spectrum and not a filter.\n2. **The soft and loud halves disagree more than the two \
    key halves do** (";

pub const VERDICT_5: &'static str = "). A microphone is not level-dependent. Either the chain has a compressor in it — \
    which nothing else here supports — or, far more likely, part of what the curve \
    absorbs is the excitation model's own velocity behaviour.\n3. **The curve fitted on \
    notes makes the phrases' top band worse.** Over the six phrases the mean absolute \
    6-12 kHz ratio goes ";

pub const VERDICT_6: &'static str = " dB/octave. The note-median curve cuts hard above 6 kHz because the *top-octave keys* \
    are where the engine is brightest there (`DECISIONS.md` 292's +15.16 dB), and a \
    phrase that never goes above C6 then gets a cut it did not earn. A chain is one curve \
    for all 88 keys; a correction that has to be register-dependent to be right is not a \
    chain, and this one does.\n\n**What the chain is worth, and it is not nothing:** the \
    interchannel column. The recording's two channels are one signal below 125 Hz and \
    about 60 % coherent above it at a sub-millisecond lag; the engine's are the reverse — \
    decorrelated in the bass by the board FDN's orthogonal taps and a pan-pot's by 6-12 \
    kHz (";

pub const VERDICT_7: &'static str = ", and **nothing in `REALISM.md` scores it**, because every metric there is a mono \
    sum. If the listener's \"it doesn't sound bad, it's just different\" has a \
    presentation component, this is where it lives — and it is a **microphone** question \
    (`PHYSICS.md` §8), not a room one (§9).\n\n### Recommended path\n\n* **Do not** add a \
    `[chain]` EQ section to the preset on this evidence. Under a dB of mel, bought by a \
    curve that has to be register-dependent to be right, is a place for instrument error \
    to hide — which is exactly what `PHYSICS.md` §8 warns of when it says splitting the \
    absorber into mic geometry plus room is strictly better than an anonymous EQ, because \
    geometry has priors and an EQ has none.\n* **Do** treat the interchannel finding as \
    the next presentation milestone, and build §8 rather than §9: two virtual microphone \
    positions with a per-key delay and gain is a mechanism with a prior, in front of a \
    room this material cannot measure at all.\n* **Before either**, give the loss a \
    stereo term. The largest measured difference in this experiment is invisible to every \
    column on the scoreboard, and a stage built to fix something nothing scores is a \
    stage nobody can regress.\n\n### What remains, ranked\n\n1. The per-key, per-partial \
    spectral scatter — ";

pub const VERDICT_8: &'static str = " dB of median band error that no global curve touches. This is `COMPASS.md`'s `match` \
    and the fitted-against-drawn seam, and it is the biggest single thing left.\n2. The \
    modulation column, ";

pub const VERDICT_9: &'static str = " dB floor, which a linear stage cannot move at all by construction: no filter changes \
    how a partial's level *moves*.\n3. The stereo presentation above — large, measured, \
    unscored.\n4. The static spectral transfer — real, replicable in shape (r ";

pub const VERDICT_10: &'static str = "), and worth under a dB.\n\n## What this material cannot identify\n\n1. **Chain \
    colour against instrument error.** A smooth static EQ cannot tell a microphone's \
    response from a systematic excitation-model error: both are smooth in `ln f` and \
    constant across the compass. The split-half agreement above bounds how much of the \
    gap is *shaped like* a static chain; it is not causation, and it is never reported as \
    such.\n2. **Absolute pre-delay.** Every sample is trimmed to its own onset, so mic \
    distance is gone and any reflection delay would be relative only.\n3. **The chain's \
    phase.** Magnitude ratios of two different excitations carry no phase. The EQ is \
    linear-phase **by choice**, stated rather than fitted, and its group delay is \
    compensated exactly.\n4. **Room tail against string, board and mechanism.** A struck \
    note's late energy is string, board, halo and room superposed; a key-off recording's \
    is the mechanism's own body. Neither separates. The T20 table above is a bound, and \
    its rising-with-frequency shape is the proof that it is not a room.\n5. **Mic \
    geometry against the instrument's own extent.** One instrument, one session: spacing, \
    bridge separation and early field are three causes of one number.\n6. **Chain \
    nonlinearity.** Tested by the soft-vs-loud split above; a null result bounds it \
    rather than excluding it.\n7. **What the reference's room does between notes.** The \
    reference is a sampler: each note carries its own recording's room, and Salamander's \
    note-off fade truncates that room tail with the note. A room stage convolved over a \
    whole engine phrase does not truncate. The two are equal while notes ring and differ \
    after every damper.\n";

/// The renders, and what it all comes to.
pub open spec fn verdict_text(f: Findings) -> Seq<char> {
    VERDICT_0@
        + joined(ticked_of(views(f.written@)), ", "@)
        + VERDICT_1@
        + f.eq_share@
        + VERDICT_2@
        + f.oracle_share@
        + VERDICT_3@
        + f.held_gain@
        + " dB of "@
        + f.held_before@
        + VERDICT_4@
        + f.level@
        + " dB against "@
        + f.split@
        + ", r "@
        + f.level_r@
        + " against "@
        + f.split_r@
        + VERDICT_5@
        + f.high_engine@
        + " -> "@
        + f.high_eq@
        + " dB and the 500 Hz-8 kHz tilt "@
        + f.tilt_engine@
        + " -> "@
        + f.tilt_eq@
        + VERDICT_6@
        + f.engine_top_peak@
        + "). The room stage closes that mismatch "@
        + f.bare@
        + " -> "@
        + f.chained@
        + VERDICT_7@
        + f.held_before@
        + VERDICT_8@
        + f.modulation.engine@
        + " dB against a "@
        + f.modulation.floor@
        + VERDICT_9@
        + f.split_r@
        + VERDICT_10@
}

/// The renders, and what it all comes to.
pub fn verdict(f: &Findings) -> (text: String)
    ensures
        text@ == verdict_text(*f),
{
    let mut out = String::from_str(VERDICT_0);
    out.append(join(&ticked(&f.written), ", ").as_str());
    out.append(VERDICT_1);
    out.append(f.eq_share.as_str());
    out.append(VERDICT_2);
    out.append(f.oracle_share.as_str());
    out.append(VERDICT_3);
    out.append(f.held_gain.as_str());
    out.append(" dB of ");
    out.append(f.held_before.as_str());
    out.append(VERDICT_4);
    out.append(f.level.as_str());
    out.append(" dB against ");
    out.append(f.split.as_str());
    out.append(", r ");
    out.append(f.level_r.as_str());
    out.append(" against ");
    out.append(f.split_r.as_str());
    out.append(VERDICT_5);
    out.append(f.high_engine.as_str());
    out.append(" -> ");
    out.append(f.high_eq.as_str());
    out.append(" dB and the 500 Hz-8 kHz tilt ");
    out.append(f.tilt_engine.as_str());
    out.append(" -> ");
    out.append(f.tilt_eq.as_str());
    out.append(VERDICT_6);
    out.append(f.engine_top_peak.as_str());
    out.append("). The room stage closes that mismatch ");
    out.append(f.bare.as_str());
    out.append(" -> ");
    out.append(f.chained.as_str());
    out.append(VERDICT_7);
    out.append(f.held_before.as_str());
    out.append(VERDICT_8);
    out.append(f.modulation.engine.as_str());
    out.append(" dB against a ");
    out.append(f.modulation.floor.as_str());
    out.append(VERDICT_9);
    out.append(f.split_r.as_str());
    out.append(VERDICT_10);
    out
}

/// The whole report.
pub open spec fn chain_report_text(f: Findings) -> Seq<char> {
    answer_text(f)
        + curve_rows_text(f.curve@)
        + spatial_heading_text(f)
        + spatial_rows_text(f.spatial@)
        + impulsive_heading_text(f)
        + tail_rows_text(f.tail@)
        + arrival_heading_text(f)
        + arrival_rows_text(f.arrivals@)
        + sweep_heading_text(f)
        + sweep_rows_text(f.sweep@)
        + collapse_heading_text(f)
        + collapse_rows_text(f.phrases@)
        + oracle_section_text(f)
        + brilliance_rows_text(f.phrases@)
        + verdict_text(f)
}

/// The whole report.
pub fn chain_report(f: &Findings) -> (text: String)
    ensures
        text@ == chain_report_text(*f),
{
    let mut out = answer(f);
    out.append(curve_rows(&f.curve).as_str());
    out.append(spatial_heading(f).as_str());
    out.append(spatial_rows(&f.spatial).as_str());
    out.append(impulsive_heading(f).as_str());
    out.append(tail_rows(&f.tail).as_str());
    out.append(arrival_heading(f).as_str());
    out.append(arrival_rows(&f.arrivals).as_str());
    out.append(sweep_heading(f).as_str());
    out.append(sweep_rows(&f.sweep).as_str());
    out.append(collapse_heading(f).as_str());
    out.append(collapse_rows(&f.phrases).as_str());
    out.append(oracle_section(f).as_str());
    out.append(brilliance_rows(&f.phrases).as_str());
    out.append(verdict(f).as_str());
    out
}

/// The cells of a `curve_row` stand in the order of its columns, one number each.
#[verifier::rlimit(30)]
pub proof fn the_cells_of_a_curve_row_stand_in_order(r: CurveRow)
    requires
        !r.hz@.contains('|'),
        !r.half_a@.contains('|'),
        !r.half_b@.contains('|'),
        !r.all@.contains('|'),
        !r.pairs@.contains('|'),
        !r.scatter@.contains('|'),
    ensures
        fields_of(curve_row_text(r), '|').len() == 8,
        fields_of(curve_row_text(r), '|')[1] == " "@ + r.hz@ + " "@,
        fields_of(curve_row_text(r), '|')[2] == " "@ + r.half_a@ + " "@,
        fields_of(curve_row_text(r), '|')[3] == " "@ + r.half_b@ + " "@,
        fields_of(curve_row_text(r), '|')[4] == " "@ + r.all@ + " "@,
        fields_of(curve_row_text(r), '|')[5] == " "@ + r.pairs@ + " "@,
        fields_of(curve_row_text(r), '|')[6] == " "@ + r.scatter@ + " "@,
{
    reveal_strlit("| ");
    reveal_strlit(" ");
    reveal_strlit(" | ");
    reveal_strlit(" |\n");
    reveal_strlit("\n");
    let p0 = "| "@;
    one_field(Seq::<char>::empty(), '|');
    one_more_field(Seq::<char>::empty(), " "@, '|');
    assert(p0 =~= Seq::<char>::empty() + seq!['|'] + " "@);
    the_field_goes_on(p0, r.hz@, '|');
    let p1 = p0 + r.hz@;
    assert(" | "@ =~= " "@ + seq!['|'] + " "@);
    a_field_begins(p1, " | "@, " "@, " "@, '|');
    let p2 = p1 + " | "@;
    the_field_goes_on(p2, r.half_a@, '|');
    let p3 = p2 + r.half_a@;
    assert(" | "@ =~= " "@ + seq!['|'] + " "@);
    a_field_begins(p3, " | "@, " "@, " "@, '|');
    let p4 = p3 + " | "@;
    the_field_goes_on(p4, r.half_b@, '|');
    let p5 = p4 + r.half_b@;
    assert(" | "@ =~= " "@ + seq!['|'] + " "@);
    a_field_begins(p5, " | "@, " "@, " "@, '|');
    let p6 = p5 + " | "@;
    the_field_goes_on(p6, r.all@, '|');
    let p7 = p6 + r.all@;
    assert(" | "@ =~= " "@ + seq!['|'] + " "@);
    a_field_begins(p7, " | "@, " "@, " "@, '|');
    let p8 = p7 + " | "@;
    the_field_goes_on(p8, r.pairs@, '|');
    let p9 = p8 + r.pairs@;
    assert(" | "@ =~= " "@ + seq!['|'] + " "@);
    a_field_begins(p9, " | "@, " "@, " "@, '|');
    let p10 = p9 + " | "@;
    the_field_goes_on(p10, r.scatter@, '|');
    let p11 = p10 + r.scatter@;
    assert(" |\n"@ =~= " "@ + seq!['|'] + "\n"@);
    a_field_begins(p11, " |\n"@, " "@, "\n"@, '|');
    let p12 = p11 + " |\n"@;
    assert(curve_row_text(r) == p12);
}

/// The cells of a `spatial_row` stand in the order of its columns, one number each.
#[verifier::rlimit(30)]
pub proof fn the_cells_of_a_spatial_row_stand_in_order(r: SpatialRow)
    requires
        !r.low@.contains('|'),
        !r.high@.contains('|'),
        !r.zero@.contains('|'),
        !r.peak@.contains('|'),
        !r.lag@.contains('|'),
        !r.engine@.contains('|'),
    ensures
        fields_of(spatial_row_text(r), '|').len() == 7,
        fields_of(spatial_row_text(r), '|')[1] == " "@ + r.low@ + "–"@ + r.high@ + " Hz "@,
        fields_of(spatial_row_text(r), '|')[2] == " "@ + r.zero@ + " "@,
        fields_of(spatial_row_text(r), '|')[3] == " "@ + r.peak@ + " "@,
        fields_of(spatial_row_text(r), '|')[4] == " "@ + r.lag@ + " ms "@,
        fields_of(spatial_row_text(r), '|')[5] == " "@ + r.engine@ + " "@,
{
    reveal_strlit("| ");
    reveal_strlit(" ");
    reveal_strlit("–");
    reveal_strlit(" Hz | ");
    reveal_strlit(" Hz ");
    reveal_strlit(" | ");
    reveal_strlit(" ms | ");
    reveal_strlit(" ms ");
    reveal_strlit(" |\n");
    reveal_strlit("\n");
    let p0 = "| "@;
    one_field(Seq::<char>::empty(), '|');
    one_more_field(Seq::<char>::empty(), " "@, '|');
    assert(p0 =~= Seq::<char>::empty() + seq!['|'] + " "@);
    the_field_goes_on(p0, r.low@, '|');
    let p1 = p0 + r.low@;
    the_field_goes_on(p1, "–"@, '|');
    let p2 = p1 + "–"@;
    the_field_goes_on(p2, r.high@, '|');
    let p3 = p2 + r.high@;
    assert(" Hz | "@ =~= " Hz "@ + seq!['|'] + " "@);
    a_field_begins(p3, " Hz | "@, " Hz "@, " "@, '|');
    let p4 = p3 + " Hz | "@;
    the_field_goes_on(p4, r.zero@, '|');
    let p5 = p4 + r.zero@;
    assert(" | "@ =~= " "@ + seq!['|'] + " "@);
    a_field_begins(p5, " | "@, " "@, " "@, '|');
    let p6 = p5 + " | "@;
    the_field_goes_on(p6, r.peak@, '|');
    let p7 = p6 + r.peak@;
    assert(" | "@ =~= " "@ + seq!['|'] + " "@);
    a_field_begins(p7, " | "@, " "@, " "@, '|');
    let p8 = p7 + " | "@;
    the_field_goes_on(p8, r.lag@, '|');
    let p9 = p8 + r.lag@;
    assert(" ms | "@ =~= " ms "@ + seq!['|'] + " "@);
    a_field_begins(p9, " ms | "@, " ms "@, " "@, '|');
    let p10 = p9 + " ms | "@;
    the_field_goes_on(p10, r.engine@, '|');
    let p11 = p10 + r.engine@;
    assert(" |\n"@ =~= " "@ + seq!['|'] + "\n"@);
    a_field_begins(p11, " |\n"@, " "@, "\n"@, '|');
    let p12 = p11 + " |\n"@;
    assert(spatial_row_text(r) == p12);
}

/// The cells of a `tail_row` stand in the order of its columns, one number each.
#[verifier::rlimit(30)]
pub proof fn the_cells_of_a_tail_row_stand_in_order(r: TailRow)
    requires
        !r.low@.contains('|'),
        !r.high@.contains('|'),
        !r.decay@.contains('|'),
    ensures
        fields_of(tail_row_text(r), '|').len() == 4,
        fields_of(tail_row_text(r), '|')[1] == " "@ + r.low@ + "–"@ + r.high@ + " Hz "@,
        fields_of(tail_row_text(r), '|')[2] == " "@ + r.decay@ + " "@,
{
    reveal_strlit("| ");
    reveal_strlit(" ");
    reveal_strlit("–");
    reveal_strlit(" Hz | ");
    reveal_strlit(" Hz ");
    reveal_strlit(" |\n");
    reveal_strlit("\n");
    let p0 = "| "@;
    one_field(Seq::<char>::empty(), '|');
    one_more_field(Seq::<char>::empty(), " "@, '|');
    assert(p0 =~= Seq::<char>::empty() + seq!['|'] + " "@);
    the_field_goes_on(p0, r.low@, '|');
    let p1 = p0 + r.low@;
    the_field_goes_on(p1, "–"@, '|');
    let p2 = p1 + "–"@;
    the_field_goes_on(p2, r.high@, '|');
    let p3 = p2 + r.high@;
    assert(" Hz | "@ =~= " Hz "@ + seq!['|'] + " "@);
    a_field_begins(p3, " Hz | "@, " Hz "@, " "@, '|');
    let p4 = p3 + " Hz | "@;
    the_field_goes_on(p4, r.decay@, '|');
    let p5 = p4 + r.decay@;
    assert(" |\n"@ =~= " "@ + seq!['|'] + "\n"@);
    a_field_begins(p5, " |\n"@, " "@, "\n"@, '|');
    let p6 = p5 + " |\n"@;
    assert(tail_row_text(r) == p6);
}

/// The cells of a `arrival_row` stand in the order of its columns, one number each.
#[verifier::rlimit(30)]
pub proof fn the_cells_of_a_arrival_row_stand_in_order(r: Arrival)
    requires
        !r.delay@.contains('|'),
        !r.level@.contains('|'),
        !r.side@.contains('|'),
    ensures
        fields_of(arrival_row_text(r), '|').len() == 5,
        fields_of(arrival_row_text(r), '|')[1] == " "@ + r.delay@ + " "@,
        fields_of(arrival_row_text(r), '|')[2] == " "@ + r.level@ + " "@,
        fields_of(arrival_row_text(r), '|')[3] == " "@ + r.side@ + " "@,
{
    reveal_strlit("| ");
    reveal_strlit(" ");
    reveal_strlit(" | ");
    reveal_strlit(" |\n");
    reveal_strlit("\n");
    let p0 = "| "@;
    one_field(Seq::<char>::empty(), '|');
    one_more_field(Seq::<char>::empty(), " "@, '|');
    assert(p0 =~= Seq::<char>::empty() + seq!['|'] + " "@);
    the_field_goes_on(p0, r.delay@, '|');
    let p1 = p0 + r.delay@;
    assert(" | "@ =~= " "@ + seq!['|'] + " "@);
    a_field_begins(p1, " | "@, " "@, " "@, '|');
    let p2 = p1 + " | "@;
    the_field_goes_on(p2, r.level@, '|');
    let p3 = p2 + r.level@;
    assert(" | "@ =~= " "@ + seq!['|'] + " "@);
    a_field_begins(p3, " | "@, " "@, " "@, '|');
    let p4 = p3 + " | "@;
    the_field_goes_on(p4, r.side@, '|');
    let p5 = p4 + r.side@;
    assert(" |\n"@ =~= " "@ + seq!['|'] + "\n"@);
    a_field_begins(p5, " |\n"@, " "@, "\n"@, '|');
    let p6 = p5 + " |\n"@;
    assert(arrival_row_text(r) == p6);
}

/// The cells of a `chosen_row` stand in the order of its columns, one number each.
#[verifier::rlimit(30)]
pub proof fn the_cells_of_a_chosen_row_stand_in_order(r: SweptLevel)
    requires
        !r.level@.contains('|'),
        !r.mismatch@.contains('|'),
    ensures
        fields_of(chosen_row_text(r), '|').len() == 4,
        fields_of(chosen_row_text(r), '|')[1] == " **"@ + r.level@ + "** "@,
        fields_of(chosen_row_text(r), '|')[2] == " **"@ + r.mismatch@ + "** "@,
{
    reveal_strlit("| **");
    reveal_strlit(" **");
    reveal_strlit("** | **");
    reveal_strlit("** ");
    reveal_strlit("** |\n");
    reveal_strlit("\n");
    let p0 = "| **"@;
    one_field(Seq::<char>::empty(), '|');
    one_more_field(Seq::<char>::empty(), " **"@, '|');
    assert(p0 =~= Seq::<char>::empty() + seq!['|'] + " **"@);
    the_field_goes_on(p0, r.level@, '|');
    let p1 = p0 + r.level@;
    assert("** | **"@ =~= "** "@ + seq!['|'] + " **"@);
    a_field_begins(p1, "** | **"@, "** "@, " **"@, '|');
    let p2 = p1 + "** | **"@;
    the_field_goes_on(p2, r.mismatch@, '|');
    let p3 = p2 + r.mismatch@;
    assert("** |\n"@ =~= "** "@ + seq!['|'] + "\n"@);
    a_field_begins(p3, "** |\n"@, "** "@, "\n"@, '|');
    let p4 = p3 + "** |\n"@;
    assert(chosen_row_text(r) == p4);
}

/// The cells of a `other_row` stand in the order of its columns, one number each.
#[verifier::rlimit(30)]
pub proof fn the_cells_of_a_other_row_stand_in_order(r: SweptLevel)
    requires
        !r.level@.contains('|'),
        !r.mismatch@.contains('|'),
    ensures
        fields_of(other_row_text(r), '|').len() == 4,
        fields_of(other_row_text(r), '|')[1] == " "@ + r.level@ + " "@,
        fields_of(other_row_text(r), '|')[2] == " "@ + r.mismatch@ + " "@,
{
    reveal_strlit("| ");
    reveal_strlit(" ");
    reveal_strlit(" | ");
    reveal_strlit(" |\n");
    reveal_strlit("\n");
    let p0 = "| "@;
    one_field(Seq::<char>::empty(), '|');
    one_more_field(Seq::<char>::empty(), " "@, '|');
    assert(p0 =~= Seq::<char>::empty() + seq!['|'] + " "@);
    the_field_goes_on(p0, r.level@, '|');
    let p1 = p0 + r.level@;
    assert(" | "@ =~= " "@ + seq!['|'] + " "@);
    a_field_begins(p1, " | "@, " "@, " "@, '|');
    let p2 = p1 + " | "@;
    the_field_goes_on(p2, r.mismatch@, '|');
    let p3 = p2 + r.mismatch@;
    assert(" |\n"@ =~= " "@ + seq!['|'] + "\n"@);
    a_field_begins(p3, " |\n"@, " "@, "\n"@, '|');
    let p4 = p3 + " |\n"@;
    assert(other_row_text(r) == p4);
}

/// The cells of a `collapse_row` stand in the order of its columns, one number each.
#[verifier::rlimit(30)]
pub proof fn the_cells_of_a_collapse_row_stand_in_order(r: PhraseRow)
    requires
        !r.name@.contains('|'),
        !r.mel.engine@.contains('|'),
        !r.mel.eq@.contains('|'),
        !r.mel.chain@.contains('|'),
        !r.mel.floor@.contains('|'),
        !r.modulation.engine@.contains('|'),
        !r.modulation.eq@.contains('|'),
        !r.modulation.chain@.contains('|'),
        !r.modulation.floor@.contains('|'),
    ensures
        fields_of(collapse_row_text(r), '|').len() == 11,
        fields_of(collapse_row_text(r), '|')[1] == " `"@ + r.name@ + "` "@,
        fields_of(collapse_row_text(r), '|')[2] == " "@ + r.mel.engine@ + " "@,
        fields_of(collapse_row_text(r), '|')[3] == " "@ + r.mel.eq@ + " "@,
        fields_of(collapse_row_text(r), '|')[4] == " "@ + r.mel.chain@ + " "@,
        fields_of(collapse_row_text(r), '|')[5] == " "@ + r.mel.floor@ + " "@,
        fields_of(collapse_row_text(r), '|')[6] == " "@ + r.modulation.engine@ + " "@,
        fields_of(collapse_row_text(r), '|')[7] == " "@ + r.modulation.eq@ + " "@,
        fields_of(collapse_row_text(r), '|')[8] == " "@ + r.modulation.chain@ + " "@,
        fields_of(collapse_row_text(r), '|')[9] == " "@ + r.modulation.floor@ + " "@,
{
    reveal_strlit("| `");
    reveal_strlit(" `");
    reveal_strlit("` | ");
    reveal_strlit("` ");
    reveal_strlit(" ");
    reveal_strlit(" | ");
    reveal_strlit(" |\n");
    reveal_strlit("\n");
    let p0 = "| `"@;
    one_field(Seq::<char>::empty(), '|');
    one_more_field(Seq::<char>::empty(), " `"@, '|');
    assert(p0 =~= Seq::<char>::empty() + seq!['|'] + " `"@);
    the_field_goes_on(p0, r.name@, '|');
    let p1 = p0 + r.name@;
    assert("` | "@ =~= "` "@ + seq!['|'] + " "@);
    a_field_begins(p1, "` | "@, "` "@, " "@, '|');
    let p2 = p1 + "` | "@;
    the_field_goes_on(p2, r.mel.engine@, '|');
    let p3 = p2 + r.mel.engine@;
    assert(" | "@ =~= " "@ + seq!['|'] + " "@);
    a_field_begins(p3, " | "@, " "@, " "@, '|');
    let p4 = p3 + " | "@;
    the_field_goes_on(p4, r.mel.eq@, '|');
    let p5 = p4 + r.mel.eq@;
    assert(" | "@ =~= " "@ + seq!['|'] + " "@);
    a_field_begins(p5, " | "@, " "@, " "@, '|');
    let p6 = p5 + " | "@;
    the_field_goes_on(p6, r.mel.chain@, '|');
    let p7 = p6 + r.mel.chain@;
    assert(" | "@ =~= " "@ + seq!['|'] + " "@);
    a_field_begins(p7, " | "@, " "@, " "@, '|');
    let p8 = p7 + " | "@;
    the_field_goes_on(p8, r.mel.floor@, '|');
    let p9 = p8 + r.mel.floor@;
    assert(" | "@ =~= " "@ + seq!['|'] + " "@);
    a_field_begins(p9, " | "@, " "@, " "@, '|');
    let p10 = p9 + " | "@;
    the_field_goes_on(p10, r.modulation.engine@, '|');
    let p11 = p10 + r.modulation.engine@;
    assert(" | "@ =~= " "@ + seq!['|'] + " "@);
    a_field_begins(p11, " | "@, " "@, " "@, '|');
    let p12 = p11 + " | "@;
    the_field_goes_on(p12, r.modulation.eq@, '|');
    let p13 = p12 + r.modulation.eq@;
    assert(" | "@ =~= " "@ + seq!['|'] + " "@);
    a_field_begins(p13, " | "@, " "@, " "@, '|');
    let p14 = p13 + " | "@;
    the_field_goes_on(p14, r.modulation.chain@, '|');
    let p15 = p14 + r.modulation.chain@;
    assert(" | "@ =~= " "@ + seq!['|'] + " "@);
    a_field_begins(p15, " | "@, " "@, " "@, '|');
    let p16 = p15 + " | "@;
    the_field_goes_on(p16, r.modulation.floor@, '|');
    let p17 = p16 + r.modulation.floor@;
    assert(" |\n"@ =~= " "@ + seq!['|'] + "\n"@);
    a_field_begins(p17, " |\n"@, " "@, "\n"@, '|');
    let p18 = p17 + " |\n"@;
    assert(collapse_row_text(r) == p18);
}

/// The cells of a `brilliance_row` stand in the order of its columns, one number each.
#[verifier::rlimit(30)]
pub proof fn the_cells_of_a_brilliance_row_stand_in_order(r: PhraseRow)
    requires
        !r.name@.contains('|'),
        !r.low.engine@.contains('|'),
        !r.low.eq@.contains('|'),
        !r.low.chain@.contains('|'),
        !r.low.floor@.contains('|'),
        !r.high.engine@.contains('|'),
        !r.high.eq@.contains('|'),
        !r.high.chain@.contains('|'),
        !r.high.floor@.contains('|'),
        !r.tilt.engine@.contains('|'),
        !r.tilt.eq@.contains('|'),
        !r.tilt.chain@.contains('|'),
        !r.tilt.floor@.contains('|'),
    ensures
        fields_of(brilliance_row_text(r), '|').len() == 6,
        fields_of(brilliance_row_text(r), '|')[1] == " `"@ + r.name@ + "` "@,
        fields_of(brilliance_row_text(r), '|')[2] == " "@ + r.low.engine@ + " / "@ + r.low.eq@ + " / "@ + r.low.chain@ + " ("@ + r.low.floor@ + ") "@,
        fields_of(brilliance_row_text(r), '|')[3] == " "@ + r.high.engine@ + " / "@ + r.high.eq@ + " / "@ + r.high.chain@ + " ("@ + r.high.floor@ + ") "@,
        fields_of(brilliance_row_text(r), '|')[4] == " "@ + r.tilt.engine@ + " / "@ + r.tilt.eq@ + " / "@ + r.tilt.chain@ + " ("@ + r.tilt.floor@ + ") "@,
{
    reveal_strlit("| `");
    reveal_strlit(" `");
    reveal_strlit("` | ");
    reveal_strlit("` ");
    reveal_strlit(" ");
    reveal_strlit(" / ");
    reveal_strlit(" (");
    reveal_strlit(") | ");
    reveal_strlit(") ");
    reveal_strlit(") |\n");
    reveal_strlit("\n");
    let p0 = "| `"@;
    one_field(Seq::<char>::empty(), '|');
    one_more_field(Seq::<char>::empty(), " `"@, '|');
    assert(p0 =~= Seq::<char>::empty() + seq!['|'] + " `"@);
    the_field_goes_on(p0, r.name@, '|');
    let p1 = p0 + r.name@;
    assert("` | "@ =~= "` "@ + seq!['|'] + " "@);
    a_field_begins(p1, "` | "@, "` "@, " "@, '|');
    let p2 = p1 + "` | "@;
    the_field_goes_on(p2, r.low.engine@, '|');
    let p3 = p2 + r.low.engine@;
    the_field_goes_on(p3, " / "@, '|');
    let p4 = p3 + " / "@;
    the_field_goes_on(p4, r.low.eq@, '|');
    let p5 = p4 + r.low.eq@;
    the_field_goes_on(p5, " / "@, '|');
    let p6 = p5 + " / "@;
    the_field_goes_on(p6, r.low.chain@, '|');
    let p7 = p6 + r.low.chain@;
    the_field_goes_on(p7, " ("@, '|');
    let p8 = p7 + " ("@;
    the_field_goes_on(p8, r.low.floor@, '|');
    let p9 = p8 + r.low.floor@;
    assert(") | "@ =~= ") "@ + seq!['|'] + " "@);
    a_field_begins(p9, ") | "@, ") "@, " "@, '|');
    let p10 = p9 + ") | "@;
    the_field_goes_on(p10, r.high.engine@, '|');
    let p11 = p10 + r.high.engine@;
    the_field_goes_on(p11, " / "@, '|');
    let p12 = p11 + " / "@;
    the_field_goes_on(p12, r.high.eq@, '|');
    let p13 = p12 + r.high.eq@;
    the_field_goes_on(p13, " / "@, '|');
    let p14 = p13 + " / "@;
    the_field_goes_on(p14, r.high.chain@, '|');
    let p15 = p14 + r.high.chain@;
    the_field_goes_on(p15, " ("@, '|');
    let p16 = p15 + " ("@;
    the_field_goes_on(p16, r.high.floor@, '|');
    let p17 = p16 + r.high.floor@;
    assert(") | "@ =~= ") "@ + seq!['|'] + " "@);
    a_field_begins(p17, ") | "@, ") "@, " "@, '|');
    let p18 = p17 + ") | "@;
    the_field_goes_on(p18, r.tilt.engine@, '|');
    let p19 = p18 + r.tilt.engine@;
    the_field_goes_on(p19, " / "@, '|');
    let p20 = p19 + " / "@;
    the_field_goes_on(p20, r.tilt.eq@, '|');
    let p21 = p20 + r.tilt.eq@;
    the_field_goes_on(p21, " / "@, '|');
    let p22 = p21 + " / "@;
    the_field_goes_on(p22, r.tilt.chain@, '|');
    let p23 = p22 + r.tilt.chain@;
    the_field_goes_on(p23, " ("@, '|');
    let p24 = p23 + " ("@;
    the_field_goes_on(p24, r.tilt.floor@, '|');
    let p25 = p24 + r.tilt.floor@;
    assert(") |\n"@ =~= ") "@ + seq!['|'] + "\n"@);
    a_field_begins(p25, ") |\n"@, ") "@, "\n"@, '|');
    let p26 = p25 + ") |\n"@;
    assert(brilliance_row_text(r) == p26);
}

/// What the columns of the table under [`ARRIVAL_HEADING_2`] are named, in order.
#[verifier::rlimit(80)]
#[verifier::spinoff_prover]
pub proof fn the_columns_of_arrival_heading_2_are_named()
    ensures
        fields_of(ARRIVAL_HEADING_2@, '|').len() == 9,
        fields_of(ARRIVAL_HEADING_2@, '|')[1] == " delay ms "@,
        fields_of(ARRIVAL_HEADING_2@, '|')[2] == " level dB under direct "@,
        fields_of(ARRIVAL_HEADING_2@, '|')[3] == " side "@,
{
    reveal_strlit(" strongest clustered candidates, over the same recordings:\n\n");
    reveal_strlit(" delay ms ");
    reveal_strlit(" level dB under direct ");
    reveal_strlit(" side ");
    reveal_strlit("\n");
    reveal_strlit("--:");
    reveal_strlit(" strongest clustered candidates, over the same recordings:\n\n| delay ms | level dB under direct | side |\n|--:|--:|--:|\n");
    let h0 = " strongest clustered candidates, over the same recordings:\n\n"@;
    one_field(h0, '|');
    one_more_field(h0, " delay ms "@, '|');
    let h1 = h0 + seq!['|'] + " delay ms "@;
    one_more_field(h1, " level dB under direct "@, '|');
    let h2 = h1 + seq!['|'] + " level dB under direct "@;
    one_more_field(h2, " side "@, '|');
    let h3 = h2 + seq!['|'] + " side "@;
    one_more_field(h3, "\n"@, '|');
    let h4 = h3 + seq!['|'] + "\n"@;
    one_more_field(h4, "--:"@, '|');
    let h5 = h4 + seq!['|'] + "--:"@;
    one_more_field(h5, "--:"@, '|');
    let h6 = h5 + seq!['|'] + "--:"@;
    one_more_field(h6, "--:"@, '|');
    let h7 = h6 + seq!['|'] + "--:"@;
    one_more_field(h7, "\n"@, '|');
    let h8 = h7 + seq!['|'] + "\n"@;
    assert(ARRIVAL_HEADING_2@ =~= h8);
}

/// What the columns of the table under [`ANSWER_14`] are named, in order.
#[verifier::rlimit(80)]
#[verifier::spinoff_prover]
pub proof fn the_columns_of_answer_14_are_named()
    ensures
        fields_of(ANSWER_14@, '|').len() == 15,
        fields_of(ANSWER_14@, '|')[1] == " Hz "@,
        fields_of(ANSWER_14@, '|')[2] == " half A "@,
        fields_of(ANSWER_14@, '|')[3] == " half B "@,
        fields_of(ANSWER_14@, '|')[4] == " all "@,
        fields_of(ANSWER_14@, '|')[5] == " pairs read (A) "@,
        fields_of(ANSWER_14@, '|')[6] == " MAD (A) "@,
{
    reveal_strlit(" Hz); flat outside them, because a truncated DCT overshoots at an edge and the top bands are where a note has least energy.\n\n");
    reveal_strlit(" Hz ");
    reveal_strlit(" half A ");
    reveal_strlit(" half B ");
    reveal_strlit(" all ");
    reveal_strlit(" pairs read (A) ");
    reveal_strlit(" MAD (A) ");
    reveal_strlit("\n");
    reveal_strlit("--:");
    reveal_strlit(" Hz); flat outside them, because a truncated DCT overshoots at an edge and the top bands are where a note has least energy.\n\n| Hz | half A | half B | all | pairs read (A) | MAD (A) |\n|--:|--:|--:|--:|--:|--:|\n");
    let h0 = " Hz); flat outside them, because a truncated DCT overshoots at an edge and the top bands are where a note has least energy.\n\n"@;
    one_field(h0, '|');
    one_more_field(h0, " Hz "@, '|');
    let h1 = h0 + seq!['|'] + " Hz "@;
    one_more_field(h1, " half A "@, '|');
    let h2 = h1 + seq!['|'] + " half A "@;
    one_more_field(h2, " half B "@, '|');
    let h3 = h2 + seq!['|'] + " half B "@;
    one_more_field(h3, " all "@, '|');
    let h4 = h3 + seq!['|'] + " all "@;
    one_more_field(h4, " pairs read (A) "@, '|');
    let h5 = h4 + seq!['|'] + " pairs read (A) "@;
    one_more_field(h5, " MAD (A) "@, '|');
    let h6 = h5 + seq!['|'] + " MAD (A) "@;
    one_more_field(h6, "\n"@, '|');
    let h7 = h6 + seq!['|'] + "\n"@;
    one_more_field(h7, "--:"@, '|');
    let h8 = h7 + seq!['|'] + "--:"@;
    one_more_field(h8, "--:"@, '|');
    let h9 = h8 + seq!['|'] + "--:"@;
    one_more_field(h9, "--:"@, '|');
    let h10 = h9 + seq!['|'] + "--:"@;
    one_more_field(h10, "--:"@, '|');
    let h11 = h10 + seq!['|'] + "--:"@;
    one_more_field(h11, "--:"@, '|');
    let h12 = h11 + seq!['|'] + "--:"@;
    one_more_field(h12, "--:"@, '|');
    let h13 = h12 + seq!['|'] + "--:"@;
    one_more_field(h13, "\n"@, '|');
    let h14 = h13 + seq!['|'] + "\n"@;
    assert(ANSWER_14@ =~= h14);
}

/// What the columns of the table under [`ORACLE_SECTION_7`] are named, in order.
#[verifier::rlimit(80)]
#[verifier::spinoff_prover]
pub proof fn the_columns_of_oracle_section_7_are_named()
    ensures
        fields_of(ORACLE_SECTION_7@, '|').len() == 11,
        fields_of(ORACLE_SECTION_7@, '|')[1] == " phrase "@,
        fields_of(ORACLE_SECTION_7@, '|')[2] == " 2-6 kHz e / +EQ / +chain (floor) "@,
        fields_of(ORACLE_SECTION_7@, '|')[3] == " 6-12 kHz e / +EQ / +chain (floor) "@,
        fields_of(ORACLE_SECTION_7@, '|')[4] == " tilt dB/oct e / +EQ / +chain (floor) "@,
{
    reveal_strlit(" dB.\n\n### Brilliance, the same three ways\n\n");
    reveal_strlit(" phrase ");
    reveal_strlit(" 2-6 kHz e / +EQ / +chain (floor) ");
    reveal_strlit(" 6-12 kHz e / +EQ / +chain (floor) ");
    reveal_strlit(" tilt dB/oct e / +EQ / +chain (floor) ");
    reveal_strlit("\n");
    reveal_strlit("---");
    reveal_strlit("--:");
    reveal_strlit(" dB.\n\n### Brilliance, the same three ways\n\n| phrase | 2-6 kHz e / +EQ / +chain (floor) | 6-12 kHz e / +EQ / +chain (floor) | tilt dB/oct e / +EQ / +chain (floor) |\n|---|--:|--:|--:|\n");
    let h0 = " dB.\n\n### Brilliance, the same three ways\n\n"@;
    one_field(h0, '|');
    one_more_field(h0, " phrase "@, '|');
    let h1 = h0 + seq!['|'] + " phrase "@;
    one_more_field(h1, " 2-6 kHz e / +EQ / +chain (floor) "@, '|');
    let h2 = h1 + seq!['|'] + " 2-6 kHz e / +EQ / +chain (floor) "@;
    one_more_field(h2, " 6-12 kHz e / +EQ / +chain (floor) "@, '|');
    let h3 = h2 + seq!['|'] + " 6-12 kHz e / +EQ / +chain (floor) "@;
    one_more_field(h3, " tilt dB/oct e / +EQ / +chain (floor) "@, '|');
    let h4 = h3 + seq!['|'] + " tilt dB/oct e / +EQ / +chain (floor) "@;
    one_more_field(h4, "\n"@, '|');
    let h5 = h4 + seq!['|'] + "\n"@;
    one_more_field(h5, "---"@, '|');
    let h6 = h5 + seq!['|'] + "---"@;
    one_more_field(h6, "--:"@, '|');
    let h7 = h6 + seq!['|'] + "--:"@;
    one_more_field(h7, "--:"@, '|');
    let h8 = h7 + seq!['|'] + "--:"@;
    one_more_field(h8, "--:"@, '|');
    let h9 = h8 + seq!['|'] + "--:"@;
    one_more_field(h9, "\n"@, '|');
    let h10 = h9 + seq!['|'] + "\n"@;
    assert(ORACLE_SECTION_7@ =~= h10);
}

/// The `curve_rows` are printed one after another, in their order.
pub proof fn the_curve_rows_follow_each_other(a: Seq<CurveRow>, b: Seq<CurveRow>)
    ensures
        curve_rows_text(a + b) == curve_rows_text(a) + curve_rows_text(b),
        a.len() == 1 ==> curve_rows_text(a) == curve_row_text(a[0]),
        curve_rows_text(Seq::<CurveRow>::empty()).len() == 0,
    decreases b.len(),
{
    if a.len() == 1 {
        assert(a.drop_last() =~= Seq::<CurveRow>::empty());
        assert(curve_rows_text(a.drop_last()) =~= Seq::<char>::empty());
        assert(curve_rows_text(a) =~= curve_row_text(a[0]));
    }
    if b.len() == 0 {
        assert(a + b =~= a);
        assert(curve_rows_text(a) + curve_rows_text(b) =~= curve_rows_text(a));
    } else {
        the_curve_rows_follow_each_other(a, b.drop_last());
        assert((a + b).drop_last() =~= a + b.drop_last());
        assert((a + b).last() == b.last());
        assert(curve_rows_text(a) + curve_rows_text(b.drop_last()) + curve_row_text(b.last()) =~= curve_rows_text(a) + (curve_rows_text(
            b.drop_last(),
        ) + curve_row_text(b.last())));
    }
}

/// The `spatial_rows` are printed one after another, in their order.
pub proof fn the_spatial_rows_follow_each_other(a: Seq<SpatialRow>, b: Seq<SpatialRow>)
    ensures
        spatial_rows_text(a + b) == spatial_rows_text(a) + spatial_rows_text(b),
        a.len() == 1 ==> spatial_rows_text(a) == spatial_row_text(a[0]),
        spatial_rows_text(Seq::<SpatialRow>::empty()).len() == 0,
    decreases b.len(),
{
    if a.len() == 1 {
        assert(a.drop_last() =~= Seq::<SpatialRow>::empty());
        assert(spatial_rows_text(a.drop_last()) =~= Seq::<char>::empty());
        assert(spatial_rows_text(a) =~= spatial_row_text(a[0]));
    }
    if b.len() == 0 {
        assert(a + b =~= a);
        assert(spatial_rows_text(a) + spatial_rows_text(b) =~= spatial_rows_text(a));
    } else {
        the_spatial_rows_follow_each_other(a, b.drop_last());
        assert((a + b).drop_last() =~= a + b.drop_last());
        assert((a + b).last() == b.last());
        assert(spatial_rows_text(a) + spatial_rows_text(b.drop_last()) + spatial_row_text(b.last()) =~= spatial_rows_text(a) + (spatial_rows_text(
            b.drop_last(),
        ) + spatial_row_text(b.last())));
    }
}

/// The `arrival_rows` are printed one after another, in their order.
pub proof fn the_arrival_rows_follow_each_other(a: Seq<Arrival>, b: Seq<Arrival>)
    ensures
        arrival_rows_text(a + b) == arrival_rows_text(a) + arrival_rows_text(b),
        a.len() == 1 ==> arrival_rows_text(a) == arrival_row_text(a[0]),
        arrival_rows_text(Seq::<Arrival>::empty()).len() == 0,
    decreases b.len(),
{
    if a.len() == 1 {
        assert(a.drop_last() =~= Seq::<Arrival>::empty());
        assert(arrival_rows_text(a.drop_last()) =~= Seq::<char>::empty());
        assert(arrival_rows_text(a) =~= arrival_row_text(a[0]));
    }
    if b.len() == 0 {
        assert(a + b =~= a);
        assert(arrival_rows_text(a) + arrival_rows_text(b) =~= arrival_rows_text(a));
    } else {
        the_arrival_rows_follow_each_other(a, b.drop_last());
        assert((a + b).drop_last() =~= a + b.drop_last());
        assert((a + b).last() == b.last());
        assert(arrival_rows_text(a) + arrival_rows_text(b.drop_last()) + arrival_row_text(b.last()) =~= arrival_rows_text(a) + (arrival_rows_text(
            b.drop_last(),
        ) + arrival_row_text(b.last())));
    }
}

/// The `sweep_rows` are printed one after another, in their order.
pub proof fn the_sweep_rows_follow_each_other(a: Seq<SweptLevel>, b: Seq<SweptLevel>)
    ensures
        sweep_rows_text(a + b) == sweep_rows_text(a) + sweep_rows_text(b),
        a.len() == 1 ==> sweep_rows_text(a) == sweep_row_text(a[0]),
        sweep_rows_text(Seq::<SweptLevel>::empty()).len() == 0,
    decreases b.len(),
{
    if a.len() == 1 {
        assert(a.drop_last() =~= Seq::<SweptLevel>::empty());
        assert(sweep_rows_text(a.drop_last()) =~= Seq::<char>::empty());
        assert(sweep_rows_text(a) =~= sweep_row_text(a[0]));
    }
    if b.len() == 0 {
        assert(a + b =~= a);
        assert(sweep_rows_text(a) + sweep_rows_text(b) =~= sweep_rows_text(a));
    } else {
        the_sweep_rows_follow_each_other(a, b.drop_last());
        assert((a + b).drop_last() =~= a + b.drop_last());
        assert((a + b).last() == b.last());
        assert(sweep_rows_text(a) + sweep_rows_text(b.drop_last()) + sweep_row_text(b.last()) =~= sweep_rows_text(a) + (sweep_rows_text(
            b.drop_last(),
        ) + sweep_row_text(b.last())));
    }
}

/// The `collapse_rows` are printed one after another, in their order.
pub proof fn the_collapse_rows_follow_each_other(a: Seq<PhraseRow>, b: Seq<PhraseRow>)
    ensures
        collapse_rows_text(a + b) == collapse_rows_text(a) + collapse_rows_text(b),
        a.len() == 1 ==> collapse_rows_text(a) == collapse_row_text(a[0]),
        collapse_rows_text(Seq::<PhraseRow>::empty()).len() == 0,
    decreases b.len(),
{
    if a.len() == 1 {
        assert(a.drop_last() =~= Seq::<PhraseRow>::empty());
        assert(collapse_rows_text(a.drop_last()) =~= Seq::<char>::empty());
        assert(collapse_rows_text(a) =~= collapse_row_text(a[0]));
    }
    if b.len() == 0 {
        assert(a + b =~= a);
        assert(collapse_rows_text(a) + collapse_rows_text(b) =~= collapse_rows_text(a));
    } else {
        the_collapse_rows_follow_each_other(a, b.drop_last());
        assert((a + b).drop_last() =~= a + b.drop_last());
        assert((a + b).last() == b.last());
        assert(collapse_rows_text(a) + collapse_rows_text(b.drop_last()) + collapse_row_text(b.last()) =~= collapse_rows_text(a) + (collapse_rows_text(
            b.drop_last(),
        ) + collapse_row_text(b.last())));
    }
}

/// The `brilliance_rows` are printed one after another, in their order.
pub proof fn the_brilliance_rows_follow_each_other(a: Seq<PhraseRow>, b: Seq<PhraseRow>)
    ensures
        brilliance_rows_text(a + b) == brilliance_rows_text(a) + brilliance_rows_text(b),
        a.len() == 1 ==> brilliance_rows_text(a) == brilliance_row_text(a[0]),
        brilliance_rows_text(Seq::<PhraseRow>::empty()).len() == 0,
    decreases b.len(),
{
    if a.len() == 1 {
        assert(a.drop_last() =~= Seq::<PhraseRow>::empty());
        assert(brilliance_rows_text(a.drop_last()) =~= Seq::<char>::empty());
        assert(brilliance_rows_text(a) =~= brilliance_row_text(a[0]));
    }
    if b.len() == 0 {
        assert(a + b =~= a);
        assert(brilliance_rows_text(a) + brilliance_rows_text(b) =~= brilliance_rows_text(a));
    } else {
        the_brilliance_rows_follow_each_other(a, b.drop_last());
        assert((a + b).drop_last() =~= a + b.drop_last());
        assert((a + b).last() == b.last());
        assert(brilliance_rows_text(a) + brilliance_rows_text(b.drop_last()) + brilliance_row_text(b.last()) =~= brilliance_rows_text(a) + (brilliance_rows_text(
            b.drop_last(),
        ) + brilliance_row_text(b.last())));
    }
}

} // verus!
