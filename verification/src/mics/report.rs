//! What is said while the pair is fitted.

use crate::text::{decimal, print};
use crate::words::{a_field_begins, a_gap_adds_nothing, a_number_is_a_word, a_word_begins, a_word_goes_on, digits_alone, fields_of, is_word, one_field, one_more_field, the_field_goes_on, words_of};
use vstd::prelude::*;

verus! {

/// What is fitted, on what.
pub open spec fn heading_text(keys: usize, alternate: u8, preset: Seq<char>) -> Seq<char> {
    "mics: "@
        + decimal(keys as nat)
        + " recorded keys at v90, floor layer v"@
        + decimal(alternate as nat)
        + ", base "@
        + preset
        + "\n"@
}

/// What is fitted, on what.
pub fn heading(keys: usize, alternate: u8, preset: &str) -> (text: String)
    ensures
        text@ == heading_text(keys, alternate, preset@),
{
    let mut out = String::from_str("mics: ");
    out.append(print(keys as u64).as_str());
    out.append(" recorded keys at v90, floor layer v");
    out.append(print(alternate as u64).as_str());
    out.append(", base ");
    out.append(preset);
    out.append("\n");
    out
}

/// The second surface.
pub open spec fn phrases_line_text(phrases: usize) -> Seq<char> {
    "  and "@
        + decimal(phrases as nat)
        + " phrases of the scoreboard's own set\n"@
}

/// The second surface.
pub fn phrases_line(phrases: usize) -> (text: String)
    ensures
        text@ == phrases_line_text(phrases),
{
    let mut out = String::from_str("  and ");
    out.append(print(phrases as u64).as_str());
    out.append(" phrases of the scoreboard's own set\n");
    out
}

pub const MELODY_LINE_0: &'static str = " columns on the Ode line and the recorded ladder (scored here: ";

/// The third surface.
pub open spec fn melody_line_text(columns: usize) -> Seq<char> {
    "  and the melody board's "@
        + decimal(columns as nat)
        + MELODY_LINE_0@
        + "channel, balance, splitting"@
        + ")\n"@
}

/// The third surface.
pub fn melody_line(columns: usize) -> (text: String)
    ensures
        text@ == melody_line_text(columns),
{
    let mut out = String::from_str("  and the melody board's ");
    out.append(print(columns as u64).as_str());
    out.append(MELODY_LINE_0);
    out.append("channel, balance, splitting");
    out.append(")\n");
    out
}

/// One key's delay, as it is printed.
pub struct DelayRow {
    pub label: String,
    pub pan: String,
    pub measured: String,
    pub fitted: String,
    pub residual: String,
    pub peak: String,
    pub level: String,
    pub level_fitted: String,
}

/// A fitted geometry, as it is printed.
pub struct Geometry {
    pub items: usize,
    pub height: String,
    pub spacing: String,
    pub span: String,
    pub residual: String,
    pub null: String,
    pub conditioning: String,
    pub converged: bool,
    pub replaced: Option<Replaced>,
    pub rows: Vec<DelayRow>,
}

/// The geometry that a fit replaces, as it is printed.
pub struct Replaced {
    pub spacing: String,
    pub height: String,
    pub span: String,
    pub residual: String,
}

/// A row of the delays.
pub open spec fn delay_row_text(r: DelayRow) -> Seq<char> {
    "| "@
        + r.label@
        + " | "@
        + r.pan@
        + " | "@
        + r.measured@
        + " ms | "@
        + r.fitted@
        + " ms | "@
        + r.residual@
        + " ms | "@
        + r.peak@
        + " | "@
        + r.level@
        + " / "@
        + r.level_fitted@
        + " dB |\n"@
}

/// A row of the delays.
pub fn delay_row(r: &DelayRow) -> (text: String)
    ensures
        text@ == delay_row_text(*r),
{
    let mut out = String::from_str("| ");
    out.append(r.label.as_str());
    out.append(" | ");
    out.append(r.pan.as_str());
    out.append(" | ");
    out.append(r.measured.as_str());
    out.append(" ms | ");
    out.append(r.fitted.as_str());
    out.append(" ms | ");
    out.append(r.residual.as_str());
    out.append(" ms | ");
    out.append(r.peak.as_str());
    out.append(" | ");
    out.append(r.level.as_str());
    out.append(" / ");
    out.append(r.level_fitted.as_str());
    out.append(" dB |\n");
    out
}

/// The rows of the delays.
pub open spec fn delay_rows_text(rows: Seq<DelayRow>) -> Seq<char>
    decreases rows.len(),
{
    if rows.len() == 0 {
        Seq::empty()
    } else {
        delay_rows_text(rows.drop_last()) + delay_row_text(rows.last())
    }
}

/// The rows of the delays.
pub fn delay_rows(rows: &Vec<DelayRow>) -> (text: String)
    ensures
        text@ == delay_rows_text(rows@),
{
    let mut out = String::new();
    let mut i: usize = 0;
    proof {
        assert(rows@.take(0) =~= Seq::<DelayRow>::empty());
    }
    while i < rows.len()
        invariant
            i <= rows.len(),
            out@ == delay_rows_text(rows@.take(i as int)),
        decreases rows.len() - i,
    {
        proof {
            assert(rows@.take(i + 1).drop_last() =~= rows@.take(i as int));
        }
        out.append(delay_row(&rows[i]).as_str());
        i = i + 1;
    }
    proof {
        assert(rows@.take(i as int) =~= rows@);
    }
    out
}

/// A truth, as it is printed.
pub open spec fn truth_text(b: bool) -> Seq<char> {
    if b {
        "true"@
    } else {
        "false"@
    }
}

/// A truth, as it is printed.
pub fn truth(b: bool) -> (r: &'static str)
    ensures
        r@ == truth_text(b),
{
    if b {
        "true"
    } else {
        "false"
    }
}

pub const GEOMETRY_LINES_0: &'static str = "x worse determined than the spacing; converged ";

/// What the delays give.
pub open spec fn geometry_lines_text(f: Geometry) -> Seq<char> {
    "\ngeometry from "@
        + decimal(f.items as nat)
        + " measured delays (height held at "@
        + f.height@
        + " m):\n  spacing_m "@
        + f.spacing@
        + "   span_m "@
        + f.span@
        + "\n  residual "@
        + f.residual@
        + " ms against a no-pair null of "@
        + f.null@
        + " ms; aspect is "@
        + f.conditioning@
        + GEOMETRY_LINES_0@
        + truth_text(f.converged)
        + "\n"@
}

/// What the delays give.
pub fn geometry_lines(f: &Geometry) -> (text: String)
    ensures
        text@ == geometry_lines_text(*f),
{
    let mut out = String::from_str("\ngeometry from ");
    out.append(print(f.items as u64).as_str());
    out.append(" measured delays (height held at ");
    out.append(f.height.as_str());
    out.append(" m):\n  spacing_m ");
    out.append(f.spacing.as_str());
    out.append("   span_m ");
    out.append(f.span.as_str());
    out.append("\n  residual ");
    out.append(f.residual.as_str());
    out.append(" ms against a no-pair null of ");
    out.append(f.null.as_str());
    out.append(" ms; aspect is ");
    out.append(f.conditioning.as_str());
    out.append(GEOMETRY_LINES_0);
    out.append(truth(f.converged));
    out.append("\n");
    out
}

/// The geometry that is replaced.
pub open spec fn replaced_line_text(r: Replaced) -> Seq<char> {
    "  the preset it replaces: spacing_m "@
        + r.spacing@
        + ", height_m "@
        + r.height@
        + ", span_m "@
        + r.span@
        + " (residual "@
        + r.residual@
        + " ms)\n"@
}

/// The geometry that is replaced.
pub fn replaced_line(r: &Replaced) -> (text: String)
    ensures
        text@ == replaced_line_text(*r),
{
    let mut out = String::from_str("  the preset it replaces: spacing_m ");
    out.append(r.spacing.as_str());
    out.append(", height_m ");
    out.append(r.height.as_str());
    out.append(", span_m ");
    out.append(r.span.as_str());
    out.append(" (residual ");
    out.append(r.residual.as_str());
    out.append(" ms)\n");
    out
}

/// The geometry that is replaced, where there is one.
pub open spec fn replaced_text(r: Option<Replaced>) -> Seq<char> {
    match r {
        None => Seq::empty(),
        Some(r) => replaced_line_text(r),
    }
}

/// The geometry that is replaced, where there is one.
pub fn replaced(r: &Option<Replaced>) -> (text: String)
    ensures
        text@ == replaced_text(*r),
{
    match r {
        None => String::new(),
        Some(r) => replaced_line(r),
    }
}

/// The head of the delays.
pub const DELAYS: &'static str = "\n| key | pan | measured lag | fitted lag | residual | peak | ILD meas / model \
    |\n|---|---:|---:|---:|---:|---:|---:|\n";

/// A fitted geometry, key by key.
pub open spec fn print_geometry_text(f: Geometry) -> Seq<char> {
    geometry_lines_text(f)
        + replaced_text(f.replaced)
        + DELAYS@
        + delay_rows_text(f.rows@)
}

/// A fitted geometry, key by key.
pub fn print_geometry(f: &Geometry) -> (text: String)
    ensures
        text@ == print_geometry_text(*f),
{
    let mut out = geometry_lines(f);
    out.append(replaced(&f.replaced).as_str());
    out.append(DELAYS);
    out.append(delay_rows(&f.rows).as_str());
    out
}

pub const PROFILE_HEADING_0: &'static str = "\n=== the recording's interchannel profile, sixth-octave, ";

pub const PROFILE_HEADING_1: &'static str = " recorded keys at v90\n| Hz | ref r0 (q1/med/q3) | ref M/S dB | alt r0 | alt M/S | \
    engine r0 | engine M/S | n |\n|---:|---:|---:|---:|---:|---:|---:|---:|\n";

/// The head of the curve.
pub open spec fn profile_heading_text(keys: usize) -> Seq<char> {
    PROFILE_HEADING_0@
        + decimal(keys as nat)
        + PROFILE_HEADING_1@
}

/// The head of the curve.
pub fn profile_heading(keys: usize) -> (text: String)
    ensures
        text@ == profile_heading_text(keys),
{
    let mut out = String::from_str(PROFILE_HEADING_0);
    out.append(print(keys as u64).as_str());
    out.append(PROFILE_HEADING_1);
    out
}

/// One point of the curve, as it is printed.
pub struct ProfileRow {
    pub hz: String,
    pub low: String,
    pub middle: String,
    pub high: String,
    pub mid_side: String,
    pub alternate: String,
    pub alternate_mid_side: String,
    pub engine: String,
    pub engine_mid_side: String,
    pub count: usize,
}

/// A row of the curve.
pub open spec fn profile_row_text(r: ProfileRow) -> Seq<char> {
    "| "@
        + r.hz@
        + " | "@
        + r.low@
        + "/"@
        + r.middle@
        + "/"@
        + r.high@
        + " | "@
        + r.mid_side@
        + " | "@
        + r.alternate@
        + " | "@
        + r.alternate_mid_side@
        + " | "@
        + r.engine@
        + " | "@
        + r.engine_mid_side@
        + " | "@
        + decimal(r.count as nat)
        + " |\n"@
}

/// A row of the curve.
pub fn profile_row(r: &ProfileRow) -> (text: String)
    ensures
        text@ == profile_row_text(*r),
{
    let mut out = String::from_str("| ");
    out.append(r.hz.as_str());
    out.append(" | ");
    out.append(r.low.as_str());
    out.append("/");
    out.append(r.middle.as_str());
    out.append("/");
    out.append(r.high.as_str());
    out.append(" | ");
    out.append(r.mid_side.as_str());
    out.append(" | ");
    out.append(r.alternate.as_str());
    out.append(" | ");
    out.append(r.alternate_mid_side.as_str());
    out.append(" | ");
    out.append(r.engine.as_str());
    out.append(" | ");
    out.append(r.engine_mid_side.as_str());
    out.append(" | ");
    out.append(print(r.count as u64).as_str());
    out.append(" |\n");
    out
}

/// A mode-controlled band, as it is printed.
pub struct BandText {
    pub low: String,
    pub high: String,
    pub lift: String,
}

/// A band.
pub open spec fn band_range_text(b: BandText) -> Seq<char> {
    b.low@
        + "-"@
        + b.high@
        + " Hz x"@
        + b.lift@
}

/// A band.
pub fn band_range(b: &BandText) -> (text: String)
    ensures
        text@ == band_range_text(*b),
{
    let mut out = String::from_str(b.low.as_str());
    out.append("-");
    out.append(b.high.as_str());
    out.append(" Hz x");
    out.append(b.lift.as_str());
    out
}

/// A band, or what is said where there is none.
pub open spec fn band_text(b: Option<BandText>, none: Seq<char>) -> Seq<char> {
    match b {
        None => none,
        Some(b) => band_range_text(b),
    }
}

/// A band, or what is said where there is none.
pub fn band(b: &Option<BandText>, none: &str) -> (text: String)
    ensures
        text@ == band_text(*b, none@),
{
    match b {
        None => String::from_str(none),
        Some(b) => band_range(b),
    }
}

/// A pair, and what it scores, as they are printed.
pub struct VoicingText {
    pub spacing: String,
    pub span: String,
    pub width: String,
    pub coherence: String,
    pub band: Option<BandText>,
    pub score: String,
}

/// Where a step of the compass has come to.
pub open spec fn step_line_text(step: Seq<char>, v: VoicingText, sets: usize) -> Seq<char> {
    "  step "@
        + step
        + ": spacing "@
        + v.spacing@
        + " span "@
        + v.span@
        + " width "@
        + v.width@
        + " coherence "@
        + v.coherence@
        + " modal "@
        + band_text(v.band, "absent"@)
        + " -> "@
        + v.score@
        + " bars out ("@
        + decimal(sets as nat)
        + " sets rendered)\n"@
}

/// Where a step of the compass has come to.
pub fn step_line(step: &str, v: &VoicingText, sets: usize) -> (text: String)
    ensures
        text@ == step_line_text(step@, *v, sets),
{
    let mut out = String::from_str("  step ");
    out.append(step);
    out.append(": spacing ");
    out.append(v.spacing.as_str());
    out.append(" span ");
    out.append(v.span.as_str());
    out.append(" width ");
    out.append(v.width.as_str());
    out.append(" coherence ");
    out.append(v.coherence.as_str());
    out.append(" modal ");
    out.append(band(&v.band, "absent").as_str());
    out.append(" -> ");
    out.append(v.score.as_str());
    out.append(" bars out (");
    out.append(print(sets as u64).as_str());
    out.append(" sets rendered)\n");
    out
}

/// Where the simplex has come to.
pub open spec fn polish_line_text(v: VoicingText, sets: usize) -> Seq<char> {
    "  polish: spacing "@
        + v.spacing@
        + " span "@
        + v.span@
        + " width "@
        + v.width@
        + " coherence "@
        + v.coherence@
        + " modal "@
        + band_text(v.band, "absent"@)
        + " -> "@
        + v.score@
        + " bars out ("@
        + decimal(sets as nat)
        + " more sets rendered)\n"@
}

/// Where the simplex has come to.
pub fn polish_line(v: &VoicingText, sets: usize) -> (text: String)
    ensures
        text@ == polish_line_text(*v, sets),
{
    let mut out = String::from_str("  polish: spacing ");
    out.append(v.spacing.as_str());
    out.append(" span ");
    out.append(v.span.as_str());
    out.append(" width ");
    out.append(v.width.as_str());
    out.append(" coherence ");
    out.append(v.coherence.as_str());
    out.append(" modal ");
    out.append(band(&v.band, "absent").as_str());
    out.append(" -> ");
    out.append(v.score.as_str());
    out.append(" bars out (");
    out.append(print(sets as u64).as_str());
    out.append(" more sets rendered)\n");
    out
}

/// Where a step of the refinement has come to.
pub open spec fn refine_line_text(step: Seq<char>, v: VoicingText) -> Seq<char> {
    "  refine x"@
        + step
        + ": "@
        + band_text(v.band, "absent"@)
        + " -> "@
        + v.score@
        + " bars out\n"@
}

/// Where a step of the refinement has come to.
pub fn refine_line(step: &str, v: &VoicingText) -> (text: String)
    ensures
        text@ == refine_line_text(step@, *v),
{
    let mut out = String::from_str("  refine x");
    out.append(step);
    out.append(": ");
    out.append(band(&v.band, "absent").as_str());
    out.append(" -> ");
    out.append(v.score.as_str());
    out.append(" bars out\n");
    out
}

/// What a round of the search has come to.
pub open spec fn round_line_text(round: usize, score: Seq<char>) -> Seq<char> {
    "  round "@
        + decimal(round as nat)
        + ": "@
        + score
        + " bars out\n"@
}

/// What a round of the search has come to.
pub fn round_line(round: usize, score: &str) -> (text: String)
    ensures
        text@ == round_line_text(round, score@),
{
    let mut out = String::from_str("  round ");
    out.append(print(round as u64).as_str());
    out.append(": ");
    out.append(score);
    out.append(" bars out\n");
    out
}

pub const GRID_START_0: &'static str = "  grid: the profile's own reading scores ";

/// What the profile's own reading scores.
pub open spec fn grid_start_text(score: Seq<char>) -> Seq<char> {
    GRID_START_0@
        + score
        + " bars out\n"@
}

/// What the profile's own reading scores.
pub fn grid_start(score: &str) -> (text: String)
    ensures
        text@ == grid_start_text(score@),
{
    let mut out = String::from_str(GRID_START_0);
    out.append(score);
    out.append(" bars out\n");
    out
}

/// A cell of the grid that is better.
pub open spec fn grid_better_text(b: BandText, score: Seq<char>) -> Seq<char> {
    "  grid: "@
        + b.low@
        + "-"@
        + b.high@
        + " Hz x"@
        + b.lift@
        + " -> "@
        + score
        + " bars out\n"@
}

/// A cell of the grid that is better.
pub fn grid_better(b: &BandText, score: &str) -> (text: String)
    ensures
        text@ == grid_better_text(*b, score@),
{
    let mut out = String::from_str("  grid: ");
    out.append(b.low.as_str());
    out.append("-");
    out.append(b.high.as_str());
    out.append(" Hz x");
    out.append(b.lift.as_str());
    out.append(" -> ");
    out.append(score);
    out.append(" bars out\n");
    out
}

/// How long the grid took.
pub open spec fn grid_timing_text(cells: usize, keys: usize, phrases: usize, elapsed: Seq<char>, each: Seq<char>, rate: Seq<char>) -> Seq<char> {
    "  grid: "@
        + decimal(cells as nat)
        + " candidates x ("@
        + decimal(keys as nat)
        + " keys + "@
        + decimal(phrases as nat)
        + " phrases) in "@
        + elapsed
        + " s ("@
        + each
        + " s per candidate, "@
        + rate
        + " renders/s)\n"@
}

/// How long the grid took.
pub fn grid_timing(cells: usize, keys: usize, phrases: usize, elapsed: &str, each: &str, rate: &str) -> (text: String)
    ensures
        text@ == grid_timing_text(cells, keys, phrases, elapsed@, each@, rate@),
{
    let mut out = String::from_str("  grid: ");
    out.append(print(cells as u64).as_str());
    out.append(" candidates x (");
    out.append(print(keys as u64).as_str());
    out.append(" keys + ");
    out.append(print(phrases as u64).as_str());
    out.append(" phrases) in ");
    out.append(elapsed);
    out.append(" s (");
    out.append(each);
    out.append(" s per candidate, ");
    out.append(rate);
    out.append(" renders/s)\n");
    out
}

/// The best cell of the grid.
pub open spec fn grid_best_text(b: BandText) -> Seq<char> {
    "  grid best: "@
        + b.low@
        + "-"@
        + b.high@
        + " Hz x"@
        + b.lift@
        + "\n"@
}

/// The best cell of the grid.
pub fn grid_best(b: &BandText) -> (text: String)
    ensures
        text@ == grid_best_text(*b),
{
    let mut out = String::from_str("  grid best: ");
    out.append(b.low.as_str());
    out.append("-");
    out.append(b.high.as_str());
    out.append(" Hz x");
    out.append(b.lift.as_str());
    out.append("\n");
    out
}

pub const CONSTRAINED_LINE_0: &'static str = "  (constrained: every red band of the \
    gate charged 10 bars; starting at the best band the relaxed pass saw pass it, ";

/// Where the constrained search starts.
pub open spec fn constrained_line_text(from: BandText, relaxed: BandText) -> Seq<char> {
    CONSTRAINED_LINE_0@
        + from.low@
        + "-"@
        + from.high@
        + " Hz x"@
        + from.lift@
        + ", rather than at its own optimum "@
        + relaxed.low@
        + "-"@
        + relaxed.high@
        + " Hz x"@
        + relaxed.lift@
        + ")\n"@
}

/// Where the constrained search starts.
pub fn constrained_line(from: &BandText, relaxed: &BandText) -> (text: String)
    ensures
        text@ == constrained_line_text(*from, *relaxed),
{
    let mut out = String::from_str(CONSTRAINED_LINE_0);
    out.append(from.low.as_str());
    out.append("-");
    out.append(from.high.as_str());
    out.append(" Hz x");
    out.append(from.lift.as_str());
    out.append(", rather than at its own optimum ");
    out.append(relaxed.low.as_str());
    out.append("-");
    out.append(relaxed.high.as_str());
    out.append(" Hz x");
    out.append(relaxed.lift.as_str());
    out.append(")\n");
    out
}

/// What the trims' stage does.
pub const COHERENCE: &'static str = "\ncoherence: width and diffuse_coherence, geometry held at the measured delays\n";

/// What the image's stage does.
pub const IMAGE: &'static str = "\nimage: all four, on the render score alone\n";

/// What the joint stage does.
pub const BAND_AND_TRIMS: &'static str = "\nband: the board's mode-controlled band and the two trims together, geometry held\n";

/// What the band's stage does.
pub const BAND_ALONE: &'static str = "\nmodal: the board's mode-controlled band, geometry and trims held\n";

/// How the basin is found.
pub const RELAXED: &'static str = "  (relaxed: item 363's objective, to find the basin)\n";

/// What is said where no band passed.
pub const NOTHING_PASSED: &'static str = "  (constrained: no band passed the \
    gate in the relaxed pass)\n";

/// What is decided last.
pub const BAND_OR_NONE: &'static str = "\nband or no band: the corner of the feasible set the three knobs cannot reach\n";

/// What is said where a stage starts from a pair and the preset has none.
pub const NEEDS_PAIR: &'static str = "this stage needs a preset that already has [voicing.mics]";

/// What is said where nothing is written.
pub const NOT_WRITTEN: &'static str = "(no --out: nothing written)\n";

/// What the two starts of the image come to.
pub open spec fn two_starts_text(measured: Seq<char>, shipped: Seq<char>) -> Seq<char> {
    "  from the measured geometry: "@
        + measured
        + " bars out; from the shipped values: "@
        + shipped
        + "\n"@
}

/// What the two starts of the image come to.
pub fn two_starts(measured: &str, shipped: &str) -> (text: String)
    ensures
        text@ == two_starts_text(measured@, shipped@),
{
    let mut out = String::from_str("  from the measured geometry: ");
    out.append(measured);
    out.append(" bars out; from the shipped values: ");
    out.append(shipped);
    out.append("\n");
    out
}

/// A candidate, and what it scores.
pub open spec fn describe_text(v: VoicingText) -> Seq<char> {
    "width "@
        + v.width@
        + " x coherence "@
        + v.coherence@
        + ", "@
        + band_text(v.band, "no [modal] band"@)
        + " -> "@
        + v.score@
        + " bars out"@
}

/// A candidate, and what it scores.
pub fn describe(v: &VoicingText) -> (text: String)
    ensures
        text@ == describe_text(*v),
{
    let mut out = String::from_str("width ");
    out.append(v.width.as_str());
    out.append(" x coherence ");
    out.append(v.coherence.as_str());
    out.append(", ");
    out.append(band(&v.band, "no [modal] band").as_str());
    out.append(" -> ");
    out.append(v.score.as_str());
    out.append(" bars out");
    out
}

/// The candidate with a band.
pub open spec fn with_line_text(v: VoicingText) -> Seq<char> {
    "  with a band:    "@
        + describe_text(v)
        + "\n"@
}

/// The candidate with a band.
pub fn with_line(v: &VoicingText) -> (text: String)
    ensures
        text@ == with_line_text(*v),
{
    let mut out = String::from_str("  with a band:    ");
    out.append(describe(v).as_str());
    out.append("\n");
    out
}

/// The candidate without.
pub open spec fn without_line_text(v: VoicingText) -> Seq<char> {
    "  with none:      "@
        + describe_text(v)
        + "\n"@
}

/// The candidate without.
pub fn without_line(v: &VoicingText) -> (text: String)
    ensures
        text@ == without_line_text(*v),
{
    let mut out = String::from_str("  with none:      ");
    out.append(describe(v).as_str());
    out.append("\n");
    out
}

/// That the band is removed.
pub open spec fn removed_line_text(gain: Seq<char>) -> Seq<char> {
    "  -> the band is removed: "@
        + gain
        + " bars better on the same objective\n"@
}

/// That the band is removed.
pub fn removed_line(gain: &str) -> (text: String)
    ensures
        text@ == removed_line_text(gain@),
{
    let mut out = String::from_str("  -> the band is removed: ");
    out.append(gain);
    out.append(" bars better on the same objective\n");
    out
}

/// That the band is kept.
pub open spec fn kept_line_text(cost: Seq<char>) -> Seq<char> {
    "  -> the band is kept: absence costs "@
        + cost
        + " bars on the same objective\n"@
}

/// That the band is kept.
pub fn kept_line(cost: &str) -> (text: String)
    ensures
        text@ == kept_line_text(cost@),
{
    let mut out = String::from_str("  -> the band is kept: absence costs ");
    out.append(cost);
    out.append(" bars on the same objective\n");
    out
}

pub const COST_LINE_0: &'static str = "\nthe cost of respecting the measured delays: ";

/// What the measured delays cost.
pub open spec fn cost_line_text(held: Seq<char>, free: Seq<char>) -> Seq<char> {
    COST_LINE_0@
        + held
        + " bars out with the geometry held, "@
        + free
        + " with it free\n"@
}

/// What the measured delays cost.
pub fn cost_line(held: &str, free: &str) -> (text: String)
    ensures
        text@ == cost_line_text(held@, free@),
{
    let mut out = String::from_str(COST_LINE_0);
    out.append(held);
    out.append(" bars out with the geometry held, ");
    out.append(free);
    out.append(" with it free\n");
    out
}

pub const FITTED_LINES_0: &'static str = "\n[voicing.mics] fitted\n  spacing_m         ";

pub const FITTED_LINES_1: &'static str = "   (held: readme.txt)\n  span_m            ";

/// The fitted pair.
pub open spec fn fitted_lines_text(spacing: Seq<char>, height: Seq<char>, span: Seq<char>, width: Seq<char>, coherence: Seq<char>) -> Seq<char> {
    FITTED_LINES_0@
        + spacing
        + "\n  height_m          "@
        + height
        + FITTED_LINES_1@
        + span
        + "\n  width             "@
        + width
        + "\n  diffuse_coherence "@
        + coherence
        + "\n"@
}

/// The fitted pair.
pub fn fitted_lines(spacing: &str, height: &str, span: &str, width: &str, coherence: &str) -> (text: String)
    ensures
        text@ == fitted_lines_text(spacing@, height@, span@, width@, coherence@),
{
    let mut out = String::from_str(FITTED_LINES_0);
    out.append(spacing);
    out.append("\n  height_m          ");
    out.append(height);
    out.append(FITTED_LINES_1);
    out.append(span);
    out.append("\n  width             ");
    out.append(width);
    out.append("\n  diffuse_coherence ");
    out.append(coherence);
    out.append("\n");
    out
}

/// What is said where the pair has no band.
pub const NO_BAND: &'static str = "  [modal]           absent — the diffuse coherence alone\n";

/// The fitted band.
pub open spec fn band_line_text(b: BandText) -> Seq<char> {
    "  [modal] lo_hz "@
        + b.low@
        + "  hi_hz "@
        + b.high@
        + "  lift "@
        + b.lift@
        + "\n"@
}

/// The fitted band.
pub fn band_line(b: &BandText) -> (text: String)
    ensures
        text@ == band_line_text(*b),
{
    let mut out = String::from_str("  [modal] lo_hz ");
    out.append(b.low.as_str());
    out.append("  hi_hz ");
    out.append(b.high.as_str());
    out.append("  lift ");
    out.append(b.lift.as_str());
    out.append("\n");
    out
}

/// How the pair stands against the recording's delays.
pub open spec fn against_delays_text(rms: Seq<char>, bars: Seq<char>, floor: Seq<char>, inverted: Seq<char>, null: Seq<char>, replaced: Seq<char>) -> Seq<char> {
    "  against the recording's own delays: "@
        + rms
        + " ms weighted RMS, "@
        + bars
        + " bars out (take-to-take floor "@
        + floor
        + " ms; the delay inversion's own best "@
        + inverted
        + " ms; a pair that is not there "@
        + null
        + " ms; the preset this replaces "@
        + replaced
        + " ms)\n"@
}

/// How the pair stands against the recording's delays.
pub fn against_delays(rms: &str, bars: &str, floor: &str, inverted: &str, null: &str, replaced: &str) -> (text: String)
    ensures
        text@ == against_delays_text(rms@, bars@, floor@, inverted@, null@, replaced@),
{
    let mut out = String::from_str("  against the recording's own delays: ");
    out.append(rms);
    out.append(" ms weighted RMS, ");
    out.append(bars);
    out.append(" bars out (take-to-take floor ");
    out.append(floor);
    out.append(" ms; the delay inversion's own best ");
    out.append(inverted);
    out.append(" ms; a pair that is not there ");
    out.append(null);
    out.append(" ms; the preset this replaces ");
    out.append(replaced);
    out.append(" ms)\n");
    out
}

/// How many columns are red, and how far out they are, as they are printed.
pub struct Tally {
    pub red: usize,
    pub bars: String,
    pub error: String,
    pub table: String,
}

/// The columns before.
pub open spec fn stereo_before_text(keys: usize, t: Tally) -> Seq<char> {
    "\nSTEREO columns, "@
        + decimal(keys as nat)
        + " recorded keys at v90 — before ("@
        + decimal(t.red as nat)
        + " red, "@
        + t.bars@
        + " bars out, summed |err| "@
        + t.error@
        + "):\n"@
        + t.table@
        + "\n"@
}

/// The columns before.
pub fn stereo_before(keys: usize, t: &Tally) -> (text: String)
    ensures
        text@ == stereo_before_text(keys, *t),
{
    let mut out = String::from_str("\nSTEREO columns, ");
    out.append(print(keys as u64).as_str());
    out.append(" recorded keys at v90 — before (");
    out.append(print(t.red as u64).as_str());
    out.append(" red, ");
    out.append(t.bars.as_str());
    out.append(" bars out, summed |err| ");
    out.append(t.error.as_str());
    out.append("):\n");
    out.append(t.table.as_str());
    out.append("\n");
    out
}

/// The columns after.
pub open spec fn stereo_after_text(keys: usize, t: Tally) -> Seq<char> {
    "STEREO columns, "@
        + decimal(keys as nat)
        + " recorded keys at v90 — after ("@
        + decimal(t.red as nat)
        + " red, "@
        + t.bars@
        + " bars out, summed |err| "@
        + t.error@
        + "):\n"@
        + t.table@
        + "\n"@
}

/// The columns after.
pub fn stereo_after(keys: usize, t: &Tally) -> (text: String)
    ensures
        text@ == stereo_after_text(keys, *t),
{
    let mut out = String::from_str("STEREO columns, ");
    out.append(print(keys as u64).as_str());
    out.append(" recorded keys at v90 — after (");
    out.append(print(t.red as u64).as_str());
    out.append(" red, ");
    out.append(t.bars.as_str());
    out.append(" bars out, summed |err| ");
    out.append(t.error.as_str());
    out.append("):\n");
    out.append(t.table.as_str());
    out.append("\n");
    out
}

pub const CHANNEL_LINES_0: &'static str = "PER-CHANNEL columns, the same renders — before (";

/// The channels before and after.
pub open spec fn channel_lines_text(a: Tally, b: Tally) -> Seq<char> {
    CHANNEL_LINES_0@
        + decimal(a.red as nat)
        + " red, "@
        + a.bars@
        + " bars out) and after ("@
        + decimal(b.red as nat)
        + " red, "@
        + b.bars@
        + " bars out):\n"@
        + a.table@
        + "\n"@
        + b.table@
        + "\n"@
}

/// The channels before and after.
pub fn channel_lines(a: &Tally, b: &Tally) -> (text: String)
    ensures
        text@ == channel_lines_text(*a, *b),
{
    let mut out = String::from_str(CHANNEL_LINES_0);
    out.append(print(a.red as u64).as_str());
    out.append(" red, ");
    out.append(a.bars.as_str());
    out.append(" bars out) and after (");
    out.append(print(b.red as u64).as_str());
    out.append(" red, ");
    out.append(b.bars.as_str());
    out.append(" bars out):\n");
    out.append(a.table.as_str());
    out.append("\n");
    out.append(b.table.as_str());
    out.append("\n");
    out
}

pub const MELODY_LINES_0: &'static str = "MELODY columns, the Ode line and the recorded ladder — before (";

/// The melody before and after.
pub open spec fn melody_lines_text(a: Tally, b: Tally) -> Seq<char> {
    MELODY_LINES_0@
        + decimal(a.red as nat)
        + " of "@
        + "3"@
        + " red, "@
        + a.bars@
        + " bars out) and after ("@
        + decimal(b.red as nat)
        + " red, "@
        + b.bars@
        + " bars out).  Scored here: "@
        + "channel, balance, splitting"@
        + ".\n"@
        + a.table@
        + "\n"@
        + b.table@
        + "\n"@
}

/// The melody before and after.
pub fn melody_lines(a: &Tally, b: &Tally) -> (text: String)
    ensures
        text@ == melody_lines_text(*a, *b),
{
    let mut out = String::from_str(MELODY_LINES_0);
    out.append(print(a.red as u64).as_str());
    out.append(" of ");
    out.append("3");
    out.append(" red, ");
    out.append(a.bars.as_str());
    out.append(" bars out) and after (");
    out.append(print(b.red as u64).as_str());
    out.append(" red, ");
    out.append(b.bars.as_str());
    out.append(" bars out).  Scored here: ");
    out.append("channel, balance, splitting");
    out.append(".\n");
    out.append(a.table.as_str());
    out.append("\n");
    out.append(b.table.as_str());
    out.append("\n");
    out
}

pub const PHRASE_LINES_0: &'static str = "STEREO columns, the scoreboard's six phrases — before (";

/// The phrases before and after.
pub open spec fn phrase_lines_text(a: Tally, b: Tally) -> Seq<char> {
    PHRASE_LINES_0@
        + decimal(a.red as nat)
        + " red, "@
        + a.bars@
        + " bars out) and after ("@
        + decimal(b.red as nat)
        + " red, "@
        + b.bars@
        + " bars out):\n"@
        + a.table@
        + "\n"@
        + b.table@
        + "\n"@
}

/// The phrases before and after.
pub fn phrase_lines(a: &Tally, b: &Tally) -> (text: String)
    ensures
        text@ == phrase_lines_text(*a, *b),
{
    let mut out = String::from_str(PHRASE_LINES_0);
    out.append(print(a.red as u64).as_str());
    out.append(" red, ");
    out.append(a.bars.as_str());
    out.append(" bars out) and after (");
    out.append(print(b.red as u64).as_str());
    out.append(" red, ");
    out.append(b.bars.as_str());
    out.append(" bars out):\n");
    out.append(a.table.as_str());
    out.append("\n");
    out.append(b.table.as_str());
    out.append("\n");
    out
}

/// A velocity that was not fitted.
pub open spec fn held_out_lines_text(velocity: u8, b: Tally, a: Tally) -> Seq<char> {
    "HELD OUT — v"@
        + decimal(velocity as nat)
        + ", never fitted ("@
        + decimal(b.red as nat)
        + " red after, "@
        + decimal(a.red as nat)
        + " before; "@
        + b.bars@
        + " bars out after, "@
        + a.bars@
        + " before; summed |err| "@
        + b.error@
        + " after, "@
        + a.error@
        + " before):\n"@
        + b.table@
        + "\n"@
}

/// A velocity that was not fitted.
pub fn held_out_lines(velocity: u8, b: &Tally, a: &Tally) -> (text: String)
    ensures
        text@ == held_out_lines_text(velocity, *b, *a),
{
    let mut out = String::from_str("HELD OUT — v");
    out.append(print(velocity as u64).as_str());
    out.append(", never fitted (");
    out.append(print(b.red as u64).as_str());
    out.append(" red after, ");
    out.append(print(a.red as u64).as_str());
    out.append(" before; ");
    out.append(b.bars.as_str());
    out.append(" bars out after, ");
    out.append(a.bars.as_str());
    out.append(" before; summed |err| ");
    out.append(b.error.as_str());
    out.append(" after, ");
    out.append(a.error.as_str());
    out.append(" before):\n");
    out.append(b.table.as_str());
    out.append("\n");
    out
}

/// The bands, in hertz, that the delays are read in for the census.
pub open spec fn census_bands_of() -> Seq<(u32, u32)> {
    seq![
        (40u32, 160u32),
        (63u32, 250u32),
        (63u32, 500u32),
        (125u32, 500u32),
        (200u32, 1000u32),
        (200u32, 4000u32),
        (1000u32, 6000u32),
    ]
}

/// The bands, in hertz, that the delays are read in for the census.
pub fn census_bands() -> (r: Vec<(u32, u32)>)
    ensures
        r@ == census_bands_of(),
{
    vec![
        (40u32, 160u32),
        (63u32, 250u32),
        (63u32, 500u32),
        (125u32, 500u32),
        (200u32, 1000u32),
        (200u32, 4000u32),
        (1000u32, 6000u32),
    ]
}

/// The bands, one column each.
pub open spec fn band_cells_text(bands: Seq<(u32, u32)>) -> Seq<char>
    decreases bands.len(),
{
    if bands.len() == 0 {
        Seq::empty()
    } else {
        band_cells_text(bands.drop_last()) + (" "@ + decimal(bands.last().0 as nat) + "-"@
            + decimal(bands.last().1 as nat) + " |"@)
    }
}

/// The head of the census over one window.
pub open spec fn census_heading_text(window: Seq<char>) -> Seq<char> {
    "\n=== window "@ + window + " s\n| key | pan |"@ + band_cells_text(census_bands_of()) + "\n"@
}

/// The head of the census over one window.
pub fn census_heading(window: &str) -> (text: String)
    ensures
        text@ == census_heading_text(window@),
{
    let bands = census_bands();
    let mut cells = String::new();
    let mut i: usize = 0;
    proof {
        assert(bands@.take(0) =~= Seq::<(u32, u32)>::empty());
    }
    while i < bands.len()
        invariant
            i <= bands.len(),
            cells@ == band_cells_text(bands@.take(i as int)),
        decreases bands.len() - i,
    {
        proof {
            assert(bands@.take(i + 1).drop_last() =~= bands@.take(i as int));
            assert(bands@.take(i + 1).last() == bands@[i as int]);
        }
        let mut cell = String::from_str(" ");
        cell.append(print(bands[i].0 as u64).as_str());
        cell.append("-");
        cell.append(print(bands[i].1 as u64).as_str());
        cell.append(" |");
        cells.append(cell.as_str());
        i = i + 1;
    }
    proof {
        assert(bands@.take(i as int) =~= bands@);
    }
    let mut out = String::from_str("\n=== window ");
    out.append(window);
    out.append(" s\n| key | pan |");
    out.append(cells.as_str());
    out.append("\n");
    out
}

/// A delay and how sure it is, as they are printed.
pub struct Delay {
    pub lag: String,
    pub confidence: String,
}

/// A delay, or a dash where none was found.
pub open spec fn delay_text(d: Option<Delay>) -> Seq<char> {
    match d {
        Some(d) => " "@ + d.lag@ + "/"@ + d.confidence@ + " |"@,
        None => " — |"@,
    }
}

/// A delay, or a dash where none was found.
pub fn delay_cell(d: &Option<Delay>) -> (text: String)
    ensures
        text@ == delay_text(*d),
{
    match d {
        Some(d) => {
            let mut out = String::from_str(" ");
            out.append(d.lag.as_str());
            out.append("/");
            out.append(d.confidence.as_str());
            out.append(" |");
            out
        },
        None => String::from_str(" — |"),
    }
}

/// The delays of a key, one column each.
pub open spec fn delays_text(delays: Seq<Option<Delay>>) -> Seq<char>
    decreases delays.len(),
{
    if delays.len() == 0 {
        Seq::empty()
    } else {
        delays_text(delays.drop_last()) + delay_text(delays.last())
    }
}

/// One key of the census.
pub open spec fn census_row_text(label: Seq<char>, pan: Seq<char>, delays: Seq<Option<Delay>>) -> Seq<char> {
    "| "@ + label + " | "@ + pan + " |"@ + delays_text(delays) + "\n"@
}

/// One key of the census.
pub fn census_row(label: &str, pan: &str, delays: &Vec<Option<Delay>>) -> (text: String)
    ensures
        text@ == census_row_text(label@, pan@, delays@),
{
    let mut cells = String::new();
    let mut i: usize = 0;
    proof {
        assert(delays@.take(0) =~= Seq::<Option<Delay>>::empty());
    }
    while i < delays.len()
        invariant
            i <= delays.len(),
            cells@ == delays_text(delays@.take(i as int)),
        decreases delays.len() - i,
    {
        proof {
            assert(delays@.take(i + 1).drop_last() =~= delays@.take(i as int));
            assert(delays@.take(i + 1).last() == delays@[i as int]);
        }
        cells.append(delay_cell(&delays[i]).as_str());
        i = i + 1;
    }
    proof {
        assert(delays@.take(i as int) =~= delays@);
    }
    let mut out = String::from_str("| ");
    out.append(label);
    out.append(" | ");
    out.append(pan);
    out.append(" |");
    out.append(cells.as_str());
    out.append("\n");
    out
}

/// The cells of a `delay_row` stand in the order of its columns, one number each.
#[verifier::rlimit(30)]
pub proof fn the_cells_of_a_delay_row_stand_in_order(r: DelayRow)
    requires
        !r.label@.contains('|'),
        !r.pan@.contains('|'),
        !r.measured@.contains('|'),
        !r.fitted@.contains('|'),
        !r.residual@.contains('|'),
        !r.peak@.contains('|'),
        !r.level@.contains('|'),
        !r.level_fitted@.contains('|'),
    ensures
        fields_of(delay_row_text(r), '|').len() == 9,
        fields_of(delay_row_text(r), '|')[1] == " "@ + r.label@ + " "@,
        fields_of(delay_row_text(r), '|')[2] == " "@ + r.pan@ + " "@,
        fields_of(delay_row_text(r), '|')[3] == " "@ + r.measured@ + " ms "@,
        fields_of(delay_row_text(r), '|')[4] == " "@ + r.fitted@ + " ms "@,
        fields_of(delay_row_text(r), '|')[5] == " "@ + r.residual@ + " ms "@,
        fields_of(delay_row_text(r), '|')[6] == " "@ + r.peak@ + " "@,
        fields_of(delay_row_text(r), '|')[7] == " "@ + r.level@ + " / "@ + r.level_fitted@ + " dB "@,
{
    reveal_strlit("| ");
    reveal_strlit(" ");
    reveal_strlit(" | ");
    reveal_strlit(" ms | ");
    reveal_strlit(" ms ");
    reveal_strlit(" / ");
    reveal_strlit(" dB |\n");
    reveal_strlit(" dB ");
    reveal_strlit("\n");
    let p0 = "| "@;
    one_field(Seq::<char>::empty(), '|');
    one_more_field(Seq::<char>::empty(), " "@, '|');
    assert(p0 =~= Seq::<char>::empty() + seq!['|'] + " "@);
    the_field_goes_on(p0, r.label@, '|');
    let p1 = p0 + r.label@;
    assert(" | "@ =~= " "@ + seq!['|'] + " "@);
    a_field_begins(p1, " | "@, " "@, " "@, '|');
    let p2 = p1 + " | "@;
    the_field_goes_on(p2, r.pan@, '|');
    let p3 = p2 + r.pan@;
    assert(" | "@ =~= " "@ + seq!['|'] + " "@);
    a_field_begins(p3, " | "@, " "@, " "@, '|');
    let p4 = p3 + " | "@;
    the_field_goes_on(p4, r.measured@, '|');
    let p5 = p4 + r.measured@;
    assert(" ms | "@ =~= " ms "@ + seq!['|'] + " "@);
    a_field_begins(p5, " ms | "@, " ms "@, " "@, '|');
    let p6 = p5 + " ms | "@;
    the_field_goes_on(p6, r.fitted@, '|');
    let p7 = p6 + r.fitted@;
    assert(" ms | "@ =~= " ms "@ + seq!['|'] + " "@);
    a_field_begins(p7, " ms | "@, " ms "@, " "@, '|');
    let p8 = p7 + " ms | "@;
    the_field_goes_on(p8, r.residual@, '|');
    let p9 = p8 + r.residual@;
    assert(" ms | "@ =~= " ms "@ + seq!['|'] + " "@);
    a_field_begins(p9, " ms | "@, " ms "@, " "@, '|');
    let p10 = p9 + " ms | "@;
    the_field_goes_on(p10, r.peak@, '|');
    let p11 = p10 + r.peak@;
    assert(" | "@ =~= " "@ + seq!['|'] + " "@);
    a_field_begins(p11, " | "@, " "@, " "@, '|');
    let p12 = p11 + " | "@;
    the_field_goes_on(p12, r.level@, '|');
    let p13 = p12 + r.level@;
    the_field_goes_on(p13, " / "@, '|');
    let p14 = p13 + " / "@;
    the_field_goes_on(p14, r.level_fitted@, '|');
    let p15 = p14 + r.level_fitted@;
    assert(" dB |\n"@ =~= " dB "@ + seq!['|'] + "\n"@);
    a_field_begins(p15, " dB |\n"@, " dB "@, "\n"@, '|');
    let p16 = p15 + " dB |\n"@;
    assert(delay_row_text(r) == p16);
}

/// The cells of a `profile_row` stand in the order of its columns, one number each.
#[verifier::rlimit(30)]
pub proof fn the_cells_of_a_profile_row_stand_in_order(r: ProfileRow)
    requires
        !r.hz@.contains('|'),
        !r.low@.contains('|'),
        !r.middle@.contains('|'),
        !r.high@.contains('|'),
        !r.mid_side@.contains('|'),
        !r.alternate@.contains('|'),
        !r.alternate_mid_side@.contains('|'),
        !r.engine@.contains('|'),
        !r.engine_mid_side@.contains('|'),
    ensures
        fields_of(profile_row_text(r), '|').len() == 10,
        fields_of(profile_row_text(r), '|')[1] == " "@ + r.hz@ + " "@,
        fields_of(profile_row_text(r), '|')[2] == " "@ + r.low@ + "/"@ + r.middle@ + "/"@ + r.high@ + " "@,
        fields_of(profile_row_text(r), '|')[3] == " "@ + r.mid_side@ + " "@,
        fields_of(profile_row_text(r), '|')[4] == " "@ + r.alternate@ + " "@,
        fields_of(profile_row_text(r), '|')[5] == " "@ + r.alternate_mid_side@ + " "@,
        fields_of(profile_row_text(r), '|')[6] == " "@ + r.engine@ + " "@,
        fields_of(profile_row_text(r), '|')[7] == " "@ + r.engine_mid_side@ + " "@,
        fields_of(profile_row_text(r), '|')[8] == " "@ + decimal(r.count as nat) + " "@,
{
    reveal_strlit("| ");
    reveal_strlit(" ");
    reveal_strlit(" | ");
    reveal_strlit("/");
    reveal_strlit(" |\n");
    reveal_strlit("\n");
    digits_alone(r.count as nat, '|');
    let p0 = "| "@;
    one_field(Seq::<char>::empty(), '|');
    one_more_field(Seq::<char>::empty(), " "@, '|');
    assert(p0 =~= Seq::<char>::empty() + seq!['|'] + " "@);
    the_field_goes_on(p0, r.hz@, '|');
    let p1 = p0 + r.hz@;
    assert(" | "@ =~= " "@ + seq!['|'] + " "@);
    a_field_begins(p1, " | "@, " "@, " "@, '|');
    let p2 = p1 + " | "@;
    the_field_goes_on(p2, r.low@, '|');
    let p3 = p2 + r.low@;
    the_field_goes_on(p3, "/"@, '|');
    let p4 = p3 + "/"@;
    the_field_goes_on(p4, r.middle@, '|');
    let p5 = p4 + r.middle@;
    the_field_goes_on(p5, "/"@, '|');
    let p6 = p5 + "/"@;
    the_field_goes_on(p6, r.high@, '|');
    let p7 = p6 + r.high@;
    assert(" | "@ =~= " "@ + seq!['|'] + " "@);
    a_field_begins(p7, " | "@, " "@, " "@, '|');
    let p8 = p7 + " | "@;
    the_field_goes_on(p8, r.mid_side@, '|');
    let p9 = p8 + r.mid_side@;
    assert(" | "@ =~= " "@ + seq!['|'] + " "@);
    a_field_begins(p9, " | "@, " "@, " "@, '|');
    let p10 = p9 + " | "@;
    the_field_goes_on(p10, r.alternate@, '|');
    let p11 = p10 + r.alternate@;
    assert(" | "@ =~= " "@ + seq!['|'] + " "@);
    a_field_begins(p11, " | "@, " "@, " "@, '|');
    let p12 = p11 + " | "@;
    the_field_goes_on(p12, r.alternate_mid_side@, '|');
    let p13 = p12 + r.alternate_mid_side@;
    assert(" | "@ =~= " "@ + seq!['|'] + " "@);
    a_field_begins(p13, " | "@, " "@, " "@, '|');
    let p14 = p13 + " | "@;
    the_field_goes_on(p14, r.engine@, '|');
    let p15 = p14 + r.engine@;
    assert(" | "@ =~= " "@ + seq!['|'] + " "@);
    a_field_begins(p15, " | "@, " "@, " "@, '|');
    let p16 = p15 + " | "@;
    the_field_goes_on(p16, r.engine_mid_side@, '|');
    let p17 = p16 + r.engine_mid_side@;
    assert(" | "@ =~= " "@ + seq!['|'] + " "@);
    a_field_begins(p17, " | "@, " "@, " "@, '|');
    let p18 = p17 + " | "@;
    the_field_goes_on(p18, decimal(r.count as nat), '|');
    let p19 = p18 + decimal(r.count as nat);
    assert(" |\n"@ =~= " "@ + seq!['|'] + "\n"@);
    a_field_begins(p19, " |\n"@, " "@, "\n"@, '|');
    let p20 = p19 + " |\n"@;
    assert(profile_row_text(r) == p20);
}

/// The cells of a `census_row` stand in the order of its columns, one number each.
#[verifier::rlimit(30)]
pub proof fn the_cells_of_a_census_row_stand_in_order(label: Seq<char>, pan: Seq<char>, delays: Seq<Option<Delay>>)
    requires
        !label.contains('|'),
        !pan.contains('|'),
        !delays_text(delays).contains('|'),
    ensures
        fields_of(census_row_text(label, pan, delays), '|').len() == 4,
        fields_of(census_row_text(label, pan, delays), '|')[1] == " "@ + label + " "@,
        fields_of(census_row_text(label, pan, delays), '|')[2] == " "@ + pan + " "@,
        fields_of(census_row_text(label, pan, delays), '|')[3] == delays_text(delays) + "\n"@,
{
    reveal_strlit("| ");
    reveal_strlit(" ");
    reveal_strlit(" | ");
    reveal_strlit(" |");
    reveal_strlit("\n");
    let p0 = "| "@;
    one_field(Seq::<char>::empty(), '|');
    one_more_field(Seq::<char>::empty(), " "@, '|');
    assert(p0 =~= Seq::<char>::empty() + seq!['|'] + " "@);
    the_field_goes_on(p0, label, '|');
    let p1 = p0 + label;
    assert(" | "@ =~= " "@ + seq!['|'] + " "@);
    a_field_begins(p1, " | "@, " "@, " "@, '|');
    let p2 = p1 + " | "@;
    the_field_goes_on(p2, pan, '|');
    let p3 = p2 + pan;
    assert(" |"@ =~= " "@ + seq!['|'] + Seq::<char>::empty());
    a_field_begins(p3, " |"@, " "@, Seq::<char>::empty(), '|');
    let p4 = p3 + " |"@;
    the_field_goes_on(p4, delays_text(delays), '|');
    let p5 = p4 + delays_text(delays);
    the_field_goes_on(p5, "\n"@, '|');
    let p6 = p5 + "\n"@;
    assert(census_row_text(label, pan, delays) == p6);
    assert(Seq::<char>::empty() + delays_text(delays) =~= delays_text(delays));
}

/// What the columns of the table under [`DELAYS`] are named, in order.
#[verifier::rlimit(80)]
#[verifier::spinoff_prover]
pub proof fn the_columns_of_delays_are_named()
    ensures
        fields_of(DELAYS@, '|').len() == 17,
        fields_of(DELAYS@, '|')[1] == " key "@,
        fields_of(DELAYS@, '|')[2] == " pan "@,
        fields_of(DELAYS@, '|')[3] == " measured lag "@,
        fields_of(DELAYS@, '|')[4] == " fitted lag "@,
        fields_of(DELAYS@, '|')[5] == " residual "@,
        fields_of(DELAYS@, '|')[6] == " peak "@,
        fields_of(DELAYS@, '|')[7] == " ILD meas / model "@,
{
    reveal_strlit("\n");
    reveal_strlit(" key ");
    reveal_strlit(" pan ");
    reveal_strlit(" measured lag ");
    reveal_strlit(" fitted lag ");
    reveal_strlit(" residual ");
    reveal_strlit(" peak ");
    reveal_strlit(" ILD meas / model ");
    reveal_strlit("---");
    reveal_strlit("---:");
    reveal_strlit("\n| key | pan | measured lag | fitted lag | residual | peak | ILD meas / model |\n|---|---:|---:|---:|---:|---:|---:|\n");
    let h0 = "\n"@;
    one_field(h0, '|');
    one_more_field(h0, " key "@, '|');
    let h1 = h0 + seq!['|'] + " key "@;
    one_more_field(h1, " pan "@, '|');
    let h2 = h1 + seq!['|'] + " pan "@;
    one_more_field(h2, " measured lag "@, '|');
    let h3 = h2 + seq!['|'] + " measured lag "@;
    one_more_field(h3, " fitted lag "@, '|');
    let h4 = h3 + seq!['|'] + " fitted lag "@;
    one_more_field(h4, " residual "@, '|');
    let h5 = h4 + seq!['|'] + " residual "@;
    one_more_field(h5, " peak "@, '|');
    let h6 = h5 + seq!['|'] + " peak "@;
    one_more_field(h6, " ILD meas / model "@, '|');
    let h7 = h6 + seq!['|'] + " ILD meas / model "@;
    one_more_field(h7, "\n"@, '|');
    let h8 = h7 + seq!['|'] + "\n"@;
    one_more_field(h8, "---"@, '|');
    let h9 = h8 + seq!['|'] + "---"@;
    one_more_field(h9, "---:"@, '|');
    let h10 = h9 + seq!['|'] + "---:"@;
    one_more_field(h10, "---:"@, '|');
    let h11 = h10 + seq!['|'] + "---:"@;
    one_more_field(h11, "---:"@, '|');
    let h12 = h11 + seq!['|'] + "---:"@;
    one_more_field(h12, "---:"@, '|');
    let h13 = h12 + seq!['|'] + "---:"@;
    one_more_field(h13, "---:"@, '|');
    let h14 = h13 + seq!['|'] + "---:"@;
    one_more_field(h14, "---:"@, '|');
    let h15 = h14 + seq!['|'] + "---:"@;
    one_more_field(h15, "\n"@, '|');
    let h16 = h15 + seq!['|'] + "\n"@;
    assert(DELAYS@ =~= h16);
}

/// What the columns of the table under [`PROFILE_HEADING_1`] are named, in order.
#[verifier::rlimit(80)]
#[verifier::spinoff_prover]
pub proof fn the_columns_of_profile_heading_1_are_named()
    ensures
        fields_of(PROFILE_HEADING_1@, '|').len() == 19,
        fields_of(PROFILE_HEADING_1@, '|')[1] == " Hz "@,
        fields_of(PROFILE_HEADING_1@, '|')[2] == " ref r0 (q1/med/q3) "@,
        fields_of(PROFILE_HEADING_1@, '|')[3] == " ref M/S dB "@,
        fields_of(PROFILE_HEADING_1@, '|')[4] == " alt r0 "@,
        fields_of(PROFILE_HEADING_1@, '|')[5] == " alt M/S "@,
        fields_of(PROFILE_HEADING_1@, '|')[6] == " engine r0 "@,
        fields_of(PROFILE_HEADING_1@, '|')[7] == " engine M/S "@,
        fields_of(PROFILE_HEADING_1@, '|')[8] == " n "@,
{
    reveal_strlit(" recorded keys at v90\n");
    reveal_strlit(" Hz ");
    reveal_strlit(" ref r0 (q1/med/q3) ");
    reveal_strlit(" ref M/S dB ");
    reveal_strlit(" alt r0 ");
    reveal_strlit(" alt M/S ");
    reveal_strlit(" engine r0 ");
    reveal_strlit(" engine M/S ");
    reveal_strlit(" n ");
    reveal_strlit("\n");
    reveal_strlit("---:");
    reveal_strlit(" recorded keys at v90\n| Hz | ref r0 (q1/med/q3) | ref M/S dB | alt r0 | alt M/S | engine r0 | engine M/S | n |\n|---:|---:|---:|---:|---:|---:|---:|---:|\n");
    let h0 = " recorded keys at v90\n"@;
    one_field(h0, '|');
    one_more_field(h0, " Hz "@, '|');
    let h1 = h0 + seq!['|'] + " Hz "@;
    one_more_field(h1, " ref r0 (q1/med/q3) "@, '|');
    let h2 = h1 + seq!['|'] + " ref r0 (q1/med/q3) "@;
    one_more_field(h2, " ref M/S dB "@, '|');
    let h3 = h2 + seq!['|'] + " ref M/S dB "@;
    one_more_field(h3, " alt r0 "@, '|');
    let h4 = h3 + seq!['|'] + " alt r0 "@;
    one_more_field(h4, " alt M/S "@, '|');
    let h5 = h4 + seq!['|'] + " alt M/S "@;
    one_more_field(h5, " engine r0 "@, '|');
    let h6 = h5 + seq!['|'] + " engine r0 "@;
    one_more_field(h6, " engine M/S "@, '|');
    let h7 = h6 + seq!['|'] + " engine M/S "@;
    one_more_field(h7, " n "@, '|');
    let h8 = h7 + seq!['|'] + " n "@;
    one_more_field(h8, "\n"@, '|');
    let h9 = h8 + seq!['|'] + "\n"@;
    one_more_field(h9, "---:"@, '|');
    let h10 = h9 + seq!['|'] + "---:"@;
    one_more_field(h10, "---:"@, '|');
    let h11 = h10 + seq!['|'] + "---:"@;
    one_more_field(h11, "---:"@, '|');
    let h12 = h11 + seq!['|'] + "---:"@;
    one_more_field(h12, "---:"@, '|');
    let h13 = h12 + seq!['|'] + "---:"@;
    one_more_field(h13, "---:"@, '|');
    let h14 = h13 + seq!['|'] + "---:"@;
    one_more_field(h14, "---:"@, '|');
    let h15 = h14 + seq!['|'] + "---:"@;
    one_more_field(h15, "---:"@, '|');
    let h16 = h15 + seq!['|'] + "---:"@;
    one_more_field(h16, "---:"@, '|');
    let h17 = h16 + seq!['|'] + "---:"@;
    one_more_field(h17, "\n"@, '|');
    let h18 = h17 + seq!['|'] + "\n"@;
    assert(PROFILE_HEADING_1@ =~= h18);
}

/// The `delay_rows` are printed one after another, in their order.
pub proof fn the_delay_rows_follow_each_other(a: Seq<DelayRow>, b: Seq<DelayRow>)
    ensures
        delay_rows_text(a + b) == delay_rows_text(a) + delay_rows_text(b),
        a.len() == 1 ==> delay_rows_text(a) == delay_row_text(a[0]),
        delay_rows_text(Seq::<DelayRow>::empty()).len() == 0,
    decreases b.len(),
{
    if a.len() == 1 {
        assert(a.drop_last() =~= Seq::<DelayRow>::empty());
        assert(delay_rows_text(a.drop_last()) =~= Seq::<char>::empty());
        assert(delay_rows_text(a) =~= delay_row_text(a[0]));
    }
    if b.len() == 0 {
        assert(a + b =~= a);
        assert(delay_rows_text(a) + delay_rows_text(b) =~= delay_rows_text(a));
    } else {
        the_delay_rows_follow_each_other(a, b.drop_last());
        assert((a + b).drop_last() =~= a + b.drop_last());
        assert((a + b).last() == b.last());
        assert(delay_rows_text(a) + delay_rows_text(b.drop_last()) + delay_row_text(b.last()) =~= delay_rows_text(a) + (delay_rows_text(
            b.drop_last(),
        ) + delay_row_text(b.last())));
    }
}

/// The `delays` are printed one after another, in their order.
pub proof fn the_delays_follow_each_other(a: Seq<Option<Delay>>, b: Seq<Option<Delay>>)
    ensures
        delays_text(a + b) == delays_text(a) + delays_text(b),
        a.len() == 1 ==> delays_text(a) == delay_text(a[0]),
        delays_text(Seq::<Option<Delay>>::empty()).len() == 0,
    decreases b.len(),
{
    if a.len() == 1 {
        assert(a.drop_last() =~= Seq::<Option<Delay>>::empty());
        assert(delays_text(a.drop_last()) =~= Seq::<char>::empty());
        assert(delays_text(a) =~= delay_text(a[0]));
    }
    if b.len() == 0 {
        assert(a + b =~= a);
        assert(delays_text(a) + delays_text(b) =~= delays_text(a));
    } else {
        the_delays_follow_each_other(a, b.drop_last());
        assert((a + b).drop_last() =~= a + b.drop_last());
        assert((a + b).last() == b.last());
        assert(delays_text(a) + delays_text(b.drop_last()) + delay_text(b.last()) =~= delays_text(a) + (delays_text(
            b.drop_last(),
        ) + delay_text(b.last())));
    }
}

/// Each number of `heading` stands in its place among the words.
#[verifier::rlimit(30)]
pub proof fn the_words_of_heading_stand_in_order(keys: usize, alternate: u8, preset: Seq<char>)
    requires
        is_word(preset),
    ensures
        words_of(heading_text(keys, alternate, preset)).len() == 11,
        words_of(heading_text(keys, alternate, preset))[1] == decimal(keys as nat),
        words_of(heading_text(keys, alternate, preset))[8] == "v"@ + decimal(alternate as nat) + ","@,
        words_of(heading_text(keys, alternate, preset))[10] == preset,
{
    reveal_strlit("mics: ");
    reveal_strlit("mics:");
    reveal_strlit(" ");
    reveal_strlit(" recorded keys at v90, floor layer v");
    reveal_strlit("recorded");
    reveal_strlit("keys");
    reveal_strlit("at");
    reveal_strlit("v90,");
    reveal_strlit("floor");
    reveal_strlit("layer");
    reveal_strlit("v");
    reveal_strlit(", base ");
    reveal_strlit(",");
    reveal_strlit("base");
    reveal_strlit("\n");
    a_number_is_a_word(keys as nat);
    a_number_is_a_word(alternate as nat);
    let p0 = "mics: "@;
    a_word_begins(Seq::<char>::empty(), "mics:"@);
    a_gap_adds_nothing(Seq::<char>::empty() + "mics:"@, " "@);
    assert(p0 =~= Seq::<char>::empty() + "mics:"@ + " "@);
    a_word_begins(p0, decimal(keys as nat));
    let p1 = p0 + decimal(keys as nat);
    a_gap_adds_nothing(p1, " "@);
    a_word_begins(p1 + " "@, "recorded"@);
    a_gap_adds_nothing(p1 + " "@ + "recorded"@, " "@);
    a_word_begins(p1 + " "@ + "recorded"@ + " "@, "keys"@);
    a_gap_adds_nothing(p1 + " "@ + "recorded"@ + " "@ + "keys"@, " "@);
    a_word_begins(p1 + " "@ + "recorded"@ + " "@ + "keys"@ + " "@, "at"@);
    a_gap_adds_nothing(p1 + " "@ + "recorded"@ + " "@ + "keys"@ + " "@ + "at"@, " "@);
    a_word_begins(p1 + " "@ + "recorded"@ + " "@ + "keys"@ + " "@ + "at"@ + " "@, "v90,"@);
    a_gap_adds_nothing(p1 + " "@ + "recorded"@ + " "@ + "keys"@ + " "@ + "at"@ + " "@ + "v90,"@, " "@);
    a_word_begins(p1 + " "@ + "recorded"@ + " "@ + "keys"@ + " "@ + "at"@ + " "@ + "v90,"@ + " "@, "floor"@);
    a_gap_adds_nothing(p1 + " "@ + "recorded"@ + " "@ + "keys"@ + " "@ + "at"@ + " "@ + "v90,"@ + " "@ + "floor"@, " "@);
    a_word_begins(p1 + " "@ + "recorded"@ + " "@ + "keys"@ + " "@ + "at"@ + " "@ + "v90,"@ + " "@ + "floor"@ + " "@, "layer"@);
    a_gap_adds_nothing(p1 + " "@ + "recorded"@ + " "@ + "keys"@ + " "@ + "at"@ + " "@ + "v90,"@ + " "@ + "floor"@ + " "@ + "layer"@, " "@);
    a_word_begins(p1 + " "@ + "recorded"@ + " "@ + "keys"@ + " "@ + "at"@ + " "@ + "v90,"@ + " "@ + "floor"@ + " "@ + "layer"@ + " "@, "v"@);
    let p2 = p1 + " recorded keys at v90, floor layer v"@;
    assert(p2 =~= p1 + " "@ + "recorded"@ + " "@ + "keys"@ + " "@ + "at"@ + " "@ + "v90,"@ + " "@ + "floor"@ + " "@ + "layer"@ + " "@ + "v"@);
    a_word_goes_on(p2, decimal(alternate as nat));
    let p3 = p2 + decimal(alternate as nat);
    a_word_goes_on(p3, ","@);
    a_gap_adds_nothing(p3 + ","@, " "@);
    a_word_begins(p3 + ","@ + " "@, "base"@);
    a_gap_adds_nothing(p3 + ","@ + " "@ + "base"@, " "@);
    let p4 = p3 + ", base "@;
    assert(p4 =~= p3 + ","@ + " "@ + "base"@ + " "@);
    a_word_begins(p4, preset);
    let p5 = p4 + preset;
    a_gap_adds_nothing(p5, "\n"@);
    let p6 = p5 + "\n"@;
    assert(heading_text(keys, alternate, preset) == p6);
}

/// Each number of `replaced_line` stands in its place among the words.
#[verifier::rlimit(30)]
pub proof fn the_words_of_replaced_line_stand_in_order(r: Replaced)
    requires
        is_word(r.spacing@),
        is_word(r.height@),
        is_word(r.span@),
        is_word(r.residual@),
    ensures
        words_of(replaced_line_text(r)).len() == 13,
        words_of(replaced_line_text(r))[5] == r.spacing@ + ","@,
        words_of(replaced_line_text(r))[7] == r.height@ + ","@,
        words_of(replaced_line_text(r))[9] == r.span@,
        words_of(replaced_line_text(r))[11] == r.residual@,
{
    reveal_strlit("  the preset it replaces: spacing_m ");
    reveal_strlit("  ");
    reveal_strlit("the");
    reveal_strlit(" ");
    reveal_strlit("preset");
    reveal_strlit("it");
    reveal_strlit("replaces:");
    reveal_strlit("spacing_m");
    reveal_strlit(", height_m ");
    reveal_strlit(",");
    reveal_strlit("height_m");
    reveal_strlit(", span_m ");
    reveal_strlit("span_m");
    reveal_strlit(" (residual ");
    reveal_strlit("(residual");
    reveal_strlit(" ms)\n");
    reveal_strlit("ms)");
    reveal_strlit("\n");
    let p0 = "  the preset it replaces: spacing_m "@;
    a_gap_adds_nothing(Seq::<char>::empty(), "  "@);
    a_word_begins(Seq::<char>::empty() + "  "@, "the"@);
    a_gap_adds_nothing(Seq::<char>::empty() + "  "@ + "the"@, " "@);
    a_word_begins(Seq::<char>::empty() + "  "@ + "the"@ + " "@, "preset"@);
    a_gap_adds_nothing(Seq::<char>::empty() + "  "@ + "the"@ + " "@ + "preset"@, " "@);
    a_word_begins(Seq::<char>::empty() + "  "@ + "the"@ + " "@ + "preset"@ + " "@, "it"@);
    a_gap_adds_nothing(Seq::<char>::empty() + "  "@ + "the"@ + " "@ + "preset"@ + " "@ + "it"@, " "@);
    a_word_begins(Seq::<char>::empty() + "  "@ + "the"@ + " "@ + "preset"@ + " "@ + "it"@ + " "@, "replaces:"@);
    a_gap_adds_nothing(Seq::<char>::empty() + "  "@ + "the"@ + " "@ + "preset"@ + " "@ + "it"@ + " "@ + "replaces:"@, " "@);
    a_word_begins(Seq::<char>::empty() + "  "@ + "the"@ + " "@ + "preset"@ + " "@ + "it"@ + " "@ + "replaces:"@ + " "@, "spacing_m"@);
    a_gap_adds_nothing(Seq::<char>::empty() + "  "@ + "the"@ + " "@ + "preset"@ + " "@ + "it"@ + " "@ + "replaces:"@ + " "@ + "spacing_m"@, " "@);
    assert(p0 =~= Seq::<char>::empty() + "  "@ + "the"@ + " "@ + "preset"@ + " "@ + "it"@ + " "@ + "replaces:"@ + " "@ + "spacing_m"@ + " "@);
    a_word_begins(p0, r.spacing@);
    let p1 = p0 + r.spacing@;
    a_word_goes_on(p1, ","@);
    a_gap_adds_nothing(p1 + ","@, " "@);
    a_word_begins(p1 + ","@ + " "@, "height_m"@);
    a_gap_adds_nothing(p1 + ","@ + " "@ + "height_m"@, " "@);
    let p2 = p1 + ", height_m "@;
    assert(p2 =~= p1 + ","@ + " "@ + "height_m"@ + " "@);
    a_word_begins(p2, r.height@);
    let p3 = p2 + r.height@;
    a_word_goes_on(p3, ","@);
    a_gap_adds_nothing(p3 + ","@, " "@);
    a_word_begins(p3 + ","@ + " "@, "span_m"@);
    a_gap_adds_nothing(p3 + ","@ + " "@ + "span_m"@, " "@);
    let p4 = p3 + ", span_m "@;
    assert(p4 =~= p3 + ","@ + " "@ + "span_m"@ + " "@);
    a_word_begins(p4, r.span@);
    let p5 = p4 + r.span@;
    a_gap_adds_nothing(p5, " "@);
    a_word_begins(p5 + " "@, "(residual"@);
    a_gap_adds_nothing(p5 + " "@ + "(residual"@, " "@);
    let p6 = p5 + " (residual "@;
    assert(p6 =~= p5 + " "@ + "(residual"@ + " "@);
    a_word_begins(p6, r.residual@);
    let p7 = p6 + r.residual@;
    a_gap_adds_nothing(p7, " "@);
    a_word_begins(p7 + " "@, "ms)"@);
    a_gap_adds_nothing(p7 + " "@ + "ms)"@, "\n"@);
    let p8 = p7 + " ms)\n"@;
    assert(p8 =~= p7 + " "@ + "ms)"@ + "\n"@);
    assert(replaced_line_text(r) == p8);
}

/// Each number of `band_range` stands in its place among the words.
#[verifier::rlimit(30)]
pub proof fn the_words_of_band_range_stand_in_order(b: BandText)
    requires
        is_word(b.low@),
        is_word(b.high@),
        is_word(b.lift@),
    ensures
        words_of(band_range_text(b)).len() == 3,
        words_of(band_range_text(b))[0] == b.low@ + "-"@ + b.high@,
        words_of(band_range_text(b))[2] == "x"@ + b.lift@,
{
    reveal_strlit("-");
    reveal_strlit(" Hz x");
    reveal_strlit(" ");
    reveal_strlit("Hz");
    reveal_strlit("x");
    a_word_begins(Seq::<char>::empty(), b.low@);
    let p0 = b.low@;
    assert(Seq::<char>::empty() + b.low@ =~= p0);
    a_word_goes_on(p0, "-"@);
    let p1 = p0 + "-"@;
    a_word_goes_on(p1, b.high@);
    let p2 = p1 + b.high@;
    a_gap_adds_nothing(p2, " "@);
    a_word_begins(p2 + " "@, "Hz"@);
    a_gap_adds_nothing(p2 + " "@ + "Hz"@, " "@);
    a_word_begins(p2 + " "@ + "Hz"@ + " "@, "x"@);
    let p3 = p2 + " Hz x"@;
    assert(p3 =~= p2 + " "@ + "Hz"@ + " "@ + "x"@);
    a_word_goes_on(p3, b.lift@);
    let p4 = p3 + b.lift@;
    assert(band_range_text(b) == p4);
}

/// Each number of `step_line` stands in its place among the words.
#[verifier::rlimit(30)]
pub proof fn the_words_of_step_line_stand_in_order(step: Seq<char>, v: VoicingText, sets: usize)
    requires
        is_word(step),
        is_word(v.spacing@),
        is_word(v.span@),
        is_word(v.width@),
        is_word(v.coherence@),
        is_word(band_text(v.band, "absent"@)),
        is_word(v.score@),
    ensures
        words_of(step_line_text(step, v, sets)).len() == 19,
        words_of(step_line_text(step, v, sets))[1] == step + ":"@,
        words_of(step_line_text(step, v, sets))[3] == v.spacing@,
        words_of(step_line_text(step, v, sets))[5] == v.span@,
        words_of(step_line_text(step, v, sets))[7] == v.width@,
        words_of(step_line_text(step, v, sets))[9] == v.coherence@,
        words_of(step_line_text(step, v, sets))[11] == band_text(v.band, "absent"@),
        words_of(step_line_text(step, v, sets))[13] == v.score@,
        words_of(step_line_text(step, v, sets))[16] == "("@ + decimal(sets as nat),
{
    reveal_strlit("  step ");
    reveal_strlit("  ");
    reveal_strlit("step");
    reveal_strlit(" ");
    reveal_strlit(": spacing ");
    reveal_strlit(":");
    reveal_strlit("spacing");
    reveal_strlit(" span ");
    reveal_strlit("span");
    reveal_strlit(" width ");
    reveal_strlit("width");
    reveal_strlit(" coherence ");
    reveal_strlit("coherence");
    reveal_strlit(" modal ");
    reveal_strlit("modal");
    reveal_strlit(" -> ");
    reveal_strlit("->");
    reveal_strlit(" bars out (");
    reveal_strlit("bars");
    reveal_strlit("out");
    reveal_strlit("(");
    reveal_strlit(" sets rendered)\n");
    reveal_strlit("sets");
    reveal_strlit("rendered)");
    reveal_strlit("\n");
    a_number_is_a_word(sets as nat);
    let p0 = "  step "@;
    a_gap_adds_nothing(Seq::<char>::empty(), "  "@);
    a_word_begins(Seq::<char>::empty() + "  "@, "step"@);
    a_gap_adds_nothing(Seq::<char>::empty() + "  "@ + "step"@, " "@);
    assert(p0 =~= Seq::<char>::empty() + "  "@ + "step"@ + " "@);
    a_word_begins(p0, step);
    let p1 = p0 + step;
    a_word_goes_on(p1, ":"@);
    a_gap_adds_nothing(p1 + ":"@, " "@);
    a_word_begins(p1 + ":"@ + " "@, "spacing"@);
    a_gap_adds_nothing(p1 + ":"@ + " "@ + "spacing"@, " "@);
    let p2 = p1 + ": spacing "@;
    assert(p2 =~= p1 + ":"@ + " "@ + "spacing"@ + " "@);
    a_word_begins(p2, v.spacing@);
    let p3 = p2 + v.spacing@;
    a_gap_adds_nothing(p3, " "@);
    a_word_begins(p3 + " "@, "span"@);
    a_gap_adds_nothing(p3 + " "@ + "span"@, " "@);
    let p4 = p3 + " span "@;
    assert(p4 =~= p3 + " "@ + "span"@ + " "@);
    a_word_begins(p4, v.span@);
    let p5 = p4 + v.span@;
    a_gap_adds_nothing(p5, " "@);
    a_word_begins(p5 + " "@, "width"@);
    a_gap_adds_nothing(p5 + " "@ + "width"@, " "@);
    let p6 = p5 + " width "@;
    assert(p6 =~= p5 + " "@ + "width"@ + " "@);
    a_word_begins(p6, v.width@);
    let p7 = p6 + v.width@;
    a_gap_adds_nothing(p7, " "@);
    a_word_begins(p7 + " "@, "coherence"@);
    a_gap_adds_nothing(p7 + " "@ + "coherence"@, " "@);
    let p8 = p7 + " coherence "@;
    assert(p8 =~= p7 + " "@ + "coherence"@ + " "@);
    a_word_begins(p8, v.coherence@);
    let p9 = p8 + v.coherence@;
    a_gap_adds_nothing(p9, " "@);
    a_word_begins(p9 + " "@, "modal"@);
    a_gap_adds_nothing(p9 + " "@ + "modal"@, " "@);
    let p10 = p9 + " modal "@;
    assert(p10 =~= p9 + " "@ + "modal"@ + " "@);
    a_word_begins(p10, band_text(v.band, "absent"@));
    let p11 = p10 + band_text(v.band, "absent"@);
    a_gap_adds_nothing(p11, " "@);
    a_word_begins(p11 + " "@, "->"@);
    a_gap_adds_nothing(p11 + " "@ + "->"@, " "@);
    let p12 = p11 + " -> "@;
    assert(p12 =~= p11 + " "@ + "->"@ + " "@);
    a_word_begins(p12, v.score@);
    let p13 = p12 + v.score@;
    a_gap_adds_nothing(p13, " "@);
    a_word_begins(p13 + " "@, "bars"@);
    a_gap_adds_nothing(p13 + " "@ + "bars"@, " "@);
    a_word_begins(p13 + " "@ + "bars"@ + " "@, "out"@);
    a_gap_adds_nothing(p13 + " "@ + "bars"@ + " "@ + "out"@, " "@);
    a_word_begins(p13 + " "@ + "bars"@ + " "@ + "out"@ + " "@, "("@);
    let p14 = p13 + " bars out ("@;
    assert(p14 =~= p13 + " "@ + "bars"@ + " "@ + "out"@ + " "@ + "("@);
    a_word_goes_on(p14, decimal(sets as nat));
    let p15 = p14 + decimal(sets as nat);
    a_gap_adds_nothing(p15, " "@);
    a_word_begins(p15 + " "@, "sets"@);
    a_gap_adds_nothing(p15 + " "@ + "sets"@, " "@);
    a_word_begins(p15 + " "@ + "sets"@ + " "@, "rendered)"@);
    a_gap_adds_nothing(p15 + " "@ + "sets"@ + " "@ + "rendered)"@, "\n"@);
    let p16 = p15 + " sets rendered)\n"@;
    assert(p16 =~= p15 + " "@ + "sets"@ + " "@ + "rendered)"@ + "\n"@);
    assert(step_line_text(step, v, sets) == p16);
}

/// Each number of `polish_line` stands in its place among the words.
#[verifier::rlimit(30)]
pub proof fn the_words_of_polish_line_stand_in_order(v: VoicingText, sets: usize)
    requires
        is_word(v.spacing@),
        is_word(v.span@),
        is_word(v.width@),
        is_word(v.coherence@),
        is_word(band_text(v.band, "absent"@)),
        is_word(v.score@),
    ensures
        words_of(polish_line_text(v, sets)).len() == 19,
        words_of(polish_line_text(v, sets))[2] == v.spacing@,
        words_of(polish_line_text(v, sets))[4] == v.span@,
        words_of(polish_line_text(v, sets))[6] == v.width@,
        words_of(polish_line_text(v, sets))[8] == v.coherence@,
        words_of(polish_line_text(v, sets))[10] == band_text(v.band, "absent"@),
        words_of(polish_line_text(v, sets))[12] == v.score@,
        words_of(polish_line_text(v, sets))[15] == "("@ + decimal(sets as nat),
{
    reveal_strlit("  polish: spacing ");
    reveal_strlit("  ");
    reveal_strlit("polish:");
    reveal_strlit(" ");
    reveal_strlit("spacing");
    reveal_strlit(" span ");
    reveal_strlit("span");
    reveal_strlit(" width ");
    reveal_strlit("width");
    reveal_strlit(" coherence ");
    reveal_strlit("coherence");
    reveal_strlit(" modal ");
    reveal_strlit("modal");
    reveal_strlit(" -> ");
    reveal_strlit("->");
    reveal_strlit(" bars out (");
    reveal_strlit("bars");
    reveal_strlit("out");
    reveal_strlit("(");
    reveal_strlit(" more sets rendered)\n");
    reveal_strlit("more");
    reveal_strlit("sets");
    reveal_strlit("rendered)");
    reveal_strlit("\n");
    a_number_is_a_word(sets as nat);
    let p0 = "  polish: spacing "@;
    a_gap_adds_nothing(Seq::<char>::empty(), "  "@);
    a_word_begins(Seq::<char>::empty() + "  "@, "polish:"@);
    a_gap_adds_nothing(Seq::<char>::empty() + "  "@ + "polish:"@, " "@);
    a_word_begins(Seq::<char>::empty() + "  "@ + "polish:"@ + " "@, "spacing"@);
    a_gap_adds_nothing(Seq::<char>::empty() + "  "@ + "polish:"@ + " "@ + "spacing"@, " "@);
    assert(p0 =~= Seq::<char>::empty() + "  "@ + "polish:"@ + " "@ + "spacing"@ + " "@);
    a_word_begins(p0, v.spacing@);
    let p1 = p0 + v.spacing@;
    a_gap_adds_nothing(p1, " "@);
    a_word_begins(p1 + " "@, "span"@);
    a_gap_adds_nothing(p1 + " "@ + "span"@, " "@);
    let p2 = p1 + " span "@;
    assert(p2 =~= p1 + " "@ + "span"@ + " "@);
    a_word_begins(p2, v.span@);
    let p3 = p2 + v.span@;
    a_gap_adds_nothing(p3, " "@);
    a_word_begins(p3 + " "@, "width"@);
    a_gap_adds_nothing(p3 + " "@ + "width"@, " "@);
    let p4 = p3 + " width "@;
    assert(p4 =~= p3 + " "@ + "width"@ + " "@);
    a_word_begins(p4, v.width@);
    let p5 = p4 + v.width@;
    a_gap_adds_nothing(p5, " "@);
    a_word_begins(p5 + " "@, "coherence"@);
    a_gap_adds_nothing(p5 + " "@ + "coherence"@, " "@);
    let p6 = p5 + " coherence "@;
    assert(p6 =~= p5 + " "@ + "coherence"@ + " "@);
    a_word_begins(p6, v.coherence@);
    let p7 = p6 + v.coherence@;
    a_gap_adds_nothing(p7, " "@);
    a_word_begins(p7 + " "@, "modal"@);
    a_gap_adds_nothing(p7 + " "@ + "modal"@, " "@);
    let p8 = p7 + " modal "@;
    assert(p8 =~= p7 + " "@ + "modal"@ + " "@);
    a_word_begins(p8, band_text(v.band, "absent"@));
    let p9 = p8 + band_text(v.band, "absent"@);
    a_gap_adds_nothing(p9, " "@);
    a_word_begins(p9 + " "@, "->"@);
    a_gap_adds_nothing(p9 + " "@ + "->"@, " "@);
    let p10 = p9 + " -> "@;
    assert(p10 =~= p9 + " "@ + "->"@ + " "@);
    a_word_begins(p10, v.score@);
    let p11 = p10 + v.score@;
    a_gap_adds_nothing(p11, " "@);
    a_word_begins(p11 + " "@, "bars"@);
    a_gap_adds_nothing(p11 + " "@ + "bars"@, " "@);
    a_word_begins(p11 + " "@ + "bars"@ + " "@, "out"@);
    a_gap_adds_nothing(p11 + " "@ + "bars"@ + " "@ + "out"@, " "@);
    a_word_begins(p11 + " "@ + "bars"@ + " "@ + "out"@ + " "@, "("@);
    let p12 = p11 + " bars out ("@;
    assert(p12 =~= p11 + " "@ + "bars"@ + " "@ + "out"@ + " "@ + "("@);
    a_word_goes_on(p12, decimal(sets as nat));
    let p13 = p12 + decimal(sets as nat);
    a_gap_adds_nothing(p13, " "@);
    a_word_begins(p13 + " "@, "more"@);
    a_gap_adds_nothing(p13 + " "@ + "more"@, " "@);
    a_word_begins(p13 + " "@ + "more"@ + " "@, "sets"@);
    a_gap_adds_nothing(p13 + " "@ + "more"@ + " "@ + "sets"@, " "@);
    a_word_begins(p13 + " "@ + "more"@ + " "@ + "sets"@ + " "@, "rendered)"@);
    a_gap_adds_nothing(p13 + " "@ + "more"@ + " "@ + "sets"@ + " "@ + "rendered)"@, "\n"@);
    let p14 = p13 + " more sets rendered)\n"@;
    assert(p14 =~= p13 + " "@ + "more"@ + " "@ + "sets"@ + " "@ + "rendered)"@ + "\n"@);
    assert(polish_line_text(v, sets) == p14);
}

/// Each number of `refine_line` stands in its place among the words.
#[verifier::rlimit(30)]
pub proof fn the_words_of_refine_line_stand_in_order(step: Seq<char>, v: VoicingText)
    requires
        is_word(step),
        is_word(band_text(v.band, "absent"@)),
        is_word(v.score@),
    ensures
        words_of(refine_line_text(step, v)).len() == 7,
        words_of(refine_line_text(step, v))[1] == "x"@ + step + ":"@,
        words_of(refine_line_text(step, v))[2] == band_text(v.band, "absent"@),
        words_of(refine_line_text(step, v))[4] == v.score@,
{
    reveal_strlit("  refine x");
    reveal_strlit("  ");
    reveal_strlit("refine");
    reveal_strlit(" ");
    reveal_strlit("x");
    reveal_strlit(": ");
    reveal_strlit(":");
    reveal_strlit(" -> ");
    reveal_strlit("->");
    reveal_strlit(" bars out\n");
    reveal_strlit("bars");
    reveal_strlit("out");
    reveal_strlit("\n");
    let p0 = "  refine x"@;
    a_gap_adds_nothing(Seq::<char>::empty(), "  "@);
    a_word_begins(Seq::<char>::empty() + "  "@, "refine"@);
    a_gap_adds_nothing(Seq::<char>::empty() + "  "@ + "refine"@, " "@);
    a_word_begins(Seq::<char>::empty() + "  "@ + "refine"@ + " "@, "x"@);
    assert(p0 =~= Seq::<char>::empty() + "  "@ + "refine"@ + " "@ + "x"@);
    a_word_goes_on(p0, step);
    let p1 = p0 + step;
    a_word_goes_on(p1, ":"@);
    a_gap_adds_nothing(p1 + ":"@, " "@);
    let p2 = p1 + ": "@;
    assert(p2 =~= p1 + ":"@ + " "@);
    a_word_begins(p2, band_text(v.band, "absent"@));
    let p3 = p2 + band_text(v.band, "absent"@);
    a_gap_adds_nothing(p3, " "@);
    a_word_begins(p3 + " "@, "->"@);
    a_gap_adds_nothing(p3 + " "@ + "->"@, " "@);
    let p4 = p3 + " -> "@;
    assert(p4 =~= p3 + " "@ + "->"@ + " "@);
    a_word_begins(p4, v.score@);
    let p5 = p4 + v.score@;
    a_gap_adds_nothing(p5, " "@);
    a_word_begins(p5 + " "@, "bars"@);
    a_gap_adds_nothing(p5 + " "@ + "bars"@, " "@);
    a_word_begins(p5 + " "@ + "bars"@ + " "@, "out"@);
    a_gap_adds_nothing(p5 + " "@ + "bars"@ + " "@ + "out"@, "\n"@);
    let p6 = p5 + " bars out\n"@;
    assert(p6 =~= p5 + " "@ + "bars"@ + " "@ + "out"@ + "\n"@);
    assert(refine_line_text(step, v) == p6);
}

/// Each number of `round_line` stands in its place among the words.
#[verifier::rlimit(30)]
pub proof fn the_words_of_round_line_stand_in_order(round: usize, score: Seq<char>)
    requires
        is_word(score),
    ensures
        words_of(round_line_text(round, score)).len() == 5,
        words_of(round_line_text(round, score))[1] == decimal(round as nat) + ":"@,
        words_of(round_line_text(round, score))[2] == score,
{
    reveal_strlit("  round ");
    reveal_strlit("  ");
    reveal_strlit("round");
    reveal_strlit(" ");
    reveal_strlit(": ");
    reveal_strlit(":");
    reveal_strlit(" bars out\n");
    reveal_strlit("bars");
    reveal_strlit("out");
    reveal_strlit("\n");
    a_number_is_a_word(round as nat);
    let p0 = "  round "@;
    a_gap_adds_nothing(Seq::<char>::empty(), "  "@);
    a_word_begins(Seq::<char>::empty() + "  "@, "round"@);
    a_gap_adds_nothing(Seq::<char>::empty() + "  "@ + "round"@, " "@);
    assert(p0 =~= Seq::<char>::empty() + "  "@ + "round"@ + " "@);
    a_word_begins(p0, decimal(round as nat));
    let p1 = p0 + decimal(round as nat);
    a_word_goes_on(p1, ":"@);
    a_gap_adds_nothing(p1 + ":"@, " "@);
    let p2 = p1 + ": "@;
    assert(p2 =~= p1 + ":"@ + " "@);
    a_word_begins(p2, score);
    let p3 = p2 + score;
    a_gap_adds_nothing(p3, " "@);
    a_word_begins(p3 + " "@, "bars"@);
    a_gap_adds_nothing(p3 + " "@ + "bars"@, " "@);
    a_word_begins(p3 + " "@ + "bars"@ + " "@, "out"@);
    a_gap_adds_nothing(p3 + " "@ + "bars"@ + " "@ + "out"@, "\n"@);
    let p4 = p3 + " bars out\n"@;
    assert(p4 =~= p3 + " "@ + "bars"@ + " "@ + "out"@ + "\n"@);
    assert(round_line_text(round, score) == p4);
}

/// Each number of `grid_better` stands in its place among the words.
#[verifier::rlimit(30)]
pub proof fn the_words_of_grid_better_stand_in_order(b: BandText, score: Seq<char>)
    requires
        is_word(b.low@),
        is_word(b.high@),
        is_word(b.lift@),
        is_word(score),
    ensures
        words_of(grid_better_text(b, score)).len() == 8,
        words_of(grid_better_text(b, score))[1] == b.low@ + "-"@ + b.high@,
        words_of(grid_better_text(b, score))[3] == "x"@ + b.lift@,
        words_of(grid_better_text(b, score))[5] == score,
{
    reveal_strlit("  grid: ");
    reveal_strlit("  ");
    reveal_strlit("grid:");
    reveal_strlit(" ");
    reveal_strlit("-");
    reveal_strlit(" Hz x");
    reveal_strlit("Hz");
    reveal_strlit("x");
    reveal_strlit(" -> ");
    reveal_strlit("->");
    reveal_strlit(" bars out\n");
    reveal_strlit("bars");
    reveal_strlit("out");
    reveal_strlit("\n");
    let p0 = "  grid: "@;
    a_gap_adds_nothing(Seq::<char>::empty(), "  "@);
    a_word_begins(Seq::<char>::empty() + "  "@, "grid:"@);
    a_gap_adds_nothing(Seq::<char>::empty() + "  "@ + "grid:"@, " "@);
    assert(p0 =~= Seq::<char>::empty() + "  "@ + "grid:"@ + " "@);
    a_word_begins(p0, b.low@);
    let p1 = p0 + b.low@;
    a_word_goes_on(p1, "-"@);
    let p2 = p1 + "-"@;
    a_word_goes_on(p2, b.high@);
    let p3 = p2 + b.high@;
    a_gap_adds_nothing(p3, " "@);
    a_word_begins(p3 + " "@, "Hz"@);
    a_gap_adds_nothing(p3 + " "@ + "Hz"@, " "@);
    a_word_begins(p3 + " "@ + "Hz"@ + " "@, "x"@);
    let p4 = p3 + " Hz x"@;
    assert(p4 =~= p3 + " "@ + "Hz"@ + " "@ + "x"@);
    a_word_goes_on(p4, b.lift@);
    let p5 = p4 + b.lift@;
    a_gap_adds_nothing(p5, " "@);
    a_word_begins(p5 + " "@, "->"@);
    a_gap_adds_nothing(p5 + " "@ + "->"@, " "@);
    let p6 = p5 + " -> "@;
    assert(p6 =~= p5 + " "@ + "->"@ + " "@);
    a_word_begins(p6, score);
    let p7 = p6 + score;
    a_gap_adds_nothing(p7, " "@);
    a_word_begins(p7 + " "@, "bars"@);
    a_gap_adds_nothing(p7 + " "@ + "bars"@, " "@);
    a_word_begins(p7 + " "@ + "bars"@ + " "@, "out"@);
    a_gap_adds_nothing(p7 + " "@ + "bars"@ + " "@ + "out"@, "\n"@);
    let p8 = p7 + " bars out\n"@;
    assert(p8 =~= p7 + " "@ + "bars"@ + " "@ + "out"@ + "\n"@);
    assert(grid_better_text(b, score) == p8);
}

/// Each number of `grid_timing` stands in its place among the words.
#[verifier::rlimit(30)]
pub proof fn the_words_of_grid_timing_stand_in_order(cells: usize, keys: usize, phrases: usize, elapsed: Seq<char>, each: Seq<char>, rate: Seq<char>)
    requires
        is_word(elapsed),
        is_word(each),
        is_word(rate),
    ensures
        words_of(grid_timing_text(cells, keys, phrases, elapsed, each, rate)).len() == 18,
        words_of(grid_timing_text(cells, keys, phrases, elapsed, each, rate))[1] == decimal(cells as nat),
        words_of(grid_timing_text(cells, keys, phrases, elapsed, each, rate))[4] == "("@ + decimal(keys as nat),
        words_of(grid_timing_text(cells, keys, phrases, elapsed, each, rate))[7] == decimal(phrases as nat),
        words_of(grid_timing_text(cells, keys, phrases, elapsed, each, rate))[10] == elapsed,
        words_of(grid_timing_text(cells, keys, phrases, elapsed, each, rate))[12] == "("@ + each,
        words_of(grid_timing_text(cells, keys, phrases, elapsed, each, rate))[16] == rate,
{
    reveal_strlit("  grid: ");
    reveal_strlit("  ");
    reveal_strlit("grid:");
    reveal_strlit(" ");
    reveal_strlit(" candidates x (");
    reveal_strlit("candidates");
    reveal_strlit("x");
    reveal_strlit("(");
    reveal_strlit(" keys + ");
    reveal_strlit("keys");
    reveal_strlit("+");
    reveal_strlit(" phrases) in ");
    reveal_strlit("phrases)");
    reveal_strlit("in");
    reveal_strlit(" s (");
    reveal_strlit("s");
    reveal_strlit(" s per candidate, ");
    reveal_strlit("per");
    reveal_strlit("candidate,");
    reveal_strlit(" renders/s)\n");
    reveal_strlit("renders/s)");
    reveal_strlit("\n");
    a_number_is_a_word(cells as nat);
    a_number_is_a_word(keys as nat);
    a_number_is_a_word(phrases as nat);
    let p0 = "  grid: "@;
    a_gap_adds_nothing(Seq::<char>::empty(), "  "@);
    a_word_begins(Seq::<char>::empty() + "  "@, "grid:"@);
    a_gap_adds_nothing(Seq::<char>::empty() + "  "@ + "grid:"@, " "@);
    assert(p0 =~= Seq::<char>::empty() + "  "@ + "grid:"@ + " "@);
    a_word_begins(p0, decimal(cells as nat));
    let p1 = p0 + decimal(cells as nat);
    a_gap_adds_nothing(p1, " "@);
    a_word_begins(p1 + " "@, "candidates"@);
    a_gap_adds_nothing(p1 + " "@ + "candidates"@, " "@);
    a_word_begins(p1 + " "@ + "candidates"@ + " "@, "x"@);
    a_gap_adds_nothing(p1 + " "@ + "candidates"@ + " "@ + "x"@, " "@);
    a_word_begins(p1 + " "@ + "candidates"@ + " "@ + "x"@ + " "@, "("@);
    let p2 = p1 + " candidates x ("@;
    assert(p2 =~= p1 + " "@ + "candidates"@ + " "@ + "x"@ + " "@ + "("@);
    a_word_goes_on(p2, decimal(keys as nat));
    let p3 = p2 + decimal(keys as nat);
    a_gap_adds_nothing(p3, " "@);
    a_word_begins(p3 + " "@, "keys"@);
    a_gap_adds_nothing(p3 + " "@ + "keys"@, " "@);
    a_word_begins(p3 + " "@ + "keys"@ + " "@, "+"@);
    a_gap_adds_nothing(p3 + " "@ + "keys"@ + " "@ + "+"@, " "@);
    let p4 = p3 + " keys + "@;
    assert(p4 =~= p3 + " "@ + "keys"@ + " "@ + "+"@ + " "@);
    a_word_begins(p4, decimal(phrases as nat));
    let p5 = p4 + decimal(phrases as nat);
    a_gap_adds_nothing(p5, " "@);
    a_word_begins(p5 + " "@, "phrases)"@);
    a_gap_adds_nothing(p5 + " "@ + "phrases)"@, " "@);
    a_word_begins(p5 + " "@ + "phrases)"@ + " "@, "in"@);
    a_gap_adds_nothing(p5 + " "@ + "phrases)"@ + " "@ + "in"@, " "@);
    let p6 = p5 + " phrases) in "@;
    assert(p6 =~= p5 + " "@ + "phrases)"@ + " "@ + "in"@ + " "@);
    a_word_begins(p6, elapsed);
    let p7 = p6 + elapsed;
    a_gap_adds_nothing(p7, " "@);
    a_word_begins(p7 + " "@, "s"@);
    a_gap_adds_nothing(p7 + " "@ + "s"@, " "@);
    a_word_begins(p7 + " "@ + "s"@ + " "@, "("@);
    let p8 = p7 + " s ("@;
    assert(p8 =~= p7 + " "@ + "s"@ + " "@ + "("@);
    a_word_goes_on(p8, each);
    let p9 = p8 + each;
    a_gap_adds_nothing(p9, " "@);
    a_word_begins(p9 + " "@, "s"@);
    a_gap_adds_nothing(p9 + " "@ + "s"@, " "@);
    a_word_begins(p9 + " "@ + "s"@ + " "@, "per"@);
    a_gap_adds_nothing(p9 + " "@ + "s"@ + " "@ + "per"@, " "@);
    a_word_begins(p9 + " "@ + "s"@ + " "@ + "per"@ + " "@, "candidate,"@);
    a_gap_adds_nothing(p9 + " "@ + "s"@ + " "@ + "per"@ + " "@ + "candidate,"@, " "@);
    let p10 = p9 + " s per candidate, "@;
    assert(p10 =~= p9 + " "@ + "s"@ + " "@ + "per"@ + " "@ + "candidate,"@ + " "@);
    a_word_begins(p10, rate);
    let p11 = p10 + rate;
    a_gap_adds_nothing(p11, " "@);
    a_word_begins(p11 + " "@, "renders/s)"@);
    a_gap_adds_nothing(p11 + " "@ + "renders/s)"@, "\n"@);
    let p12 = p11 + " renders/s)\n"@;
    assert(p12 =~= p11 + " "@ + "renders/s)"@ + "\n"@);
    assert(grid_timing_text(cells, keys, phrases, elapsed, each, rate) == p12);
}

/// Each number of `grid_best` stands in its place among the words.
#[verifier::rlimit(30)]
pub proof fn the_words_of_grid_best_stand_in_order(b: BandText)
    requires
        is_word(b.low@),
        is_word(b.high@),
        is_word(b.lift@),
    ensures
        words_of(grid_best_text(b)).len() == 5,
        words_of(grid_best_text(b))[2] == b.low@ + "-"@ + b.high@,
        words_of(grid_best_text(b))[4] == "x"@ + b.lift@,
{
    reveal_strlit("  grid best: ");
    reveal_strlit("  ");
    reveal_strlit("grid");
    reveal_strlit(" ");
    reveal_strlit("best:");
    reveal_strlit("-");
    reveal_strlit(" Hz x");
    reveal_strlit("Hz");
    reveal_strlit("x");
    reveal_strlit("\n");
    let p0 = "  grid best: "@;
    a_gap_adds_nothing(Seq::<char>::empty(), "  "@);
    a_word_begins(Seq::<char>::empty() + "  "@, "grid"@);
    a_gap_adds_nothing(Seq::<char>::empty() + "  "@ + "grid"@, " "@);
    a_word_begins(Seq::<char>::empty() + "  "@ + "grid"@ + " "@, "best:"@);
    a_gap_adds_nothing(Seq::<char>::empty() + "  "@ + "grid"@ + " "@ + "best:"@, " "@);
    assert(p0 =~= Seq::<char>::empty() + "  "@ + "grid"@ + " "@ + "best:"@ + " "@);
    a_word_begins(p0, b.low@);
    let p1 = p0 + b.low@;
    a_word_goes_on(p1, "-"@);
    let p2 = p1 + "-"@;
    a_word_goes_on(p2, b.high@);
    let p3 = p2 + b.high@;
    a_gap_adds_nothing(p3, " "@);
    a_word_begins(p3 + " "@, "Hz"@);
    a_gap_adds_nothing(p3 + " "@ + "Hz"@, " "@);
    a_word_begins(p3 + " "@ + "Hz"@ + " "@, "x"@);
    let p4 = p3 + " Hz x"@;
    assert(p4 =~= p3 + " "@ + "Hz"@ + " "@ + "x"@);
    a_word_goes_on(p4, b.lift@);
    let p5 = p4 + b.lift@;
    a_gap_adds_nothing(p5, "\n"@);
    let p6 = p5 + "\n"@;
    assert(grid_best_text(b) == p6);
}

/// Each number of `two_starts` stands in its place among the words.
#[verifier::rlimit(30)]
pub proof fn the_words_of_two_starts_stand_in_order(measured: Seq<char>, shipped: Seq<char>)
    requires
        is_word(measured),
        is_word(shipped),
    ensures
        words_of(two_starts_text(measured, shipped)).len() == 12,
        words_of(two_starts_text(measured, shipped))[4] == measured,
        words_of(two_starts_text(measured, shipped))[11] == shipped,
{
    reveal_strlit("  from the measured geometry: ");
    reveal_strlit("  ");
    reveal_strlit("from");
    reveal_strlit(" ");
    reveal_strlit("the");
    reveal_strlit("measured");
    reveal_strlit("geometry:");
    reveal_strlit(" bars out; from the shipped values: ");
    reveal_strlit("bars");
    reveal_strlit("out;");
    reveal_strlit("shipped");
    reveal_strlit("values:");
    reveal_strlit("\n");
    let p0 = "  from the measured geometry: "@;
    a_gap_adds_nothing(Seq::<char>::empty(), "  "@);
    a_word_begins(Seq::<char>::empty() + "  "@, "from"@);
    a_gap_adds_nothing(Seq::<char>::empty() + "  "@ + "from"@, " "@);
    a_word_begins(Seq::<char>::empty() + "  "@ + "from"@ + " "@, "the"@);
    a_gap_adds_nothing(Seq::<char>::empty() + "  "@ + "from"@ + " "@ + "the"@, " "@);
    a_word_begins(Seq::<char>::empty() + "  "@ + "from"@ + " "@ + "the"@ + " "@, "measured"@);
    a_gap_adds_nothing(Seq::<char>::empty() + "  "@ + "from"@ + " "@ + "the"@ + " "@ + "measured"@, " "@);
    a_word_begins(Seq::<char>::empty() + "  "@ + "from"@ + " "@ + "the"@ + " "@ + "measured"@ + " "@, "geometry:"@);
    a_gap_adds_nothing(Seq::<char>::empty() + "  "@ + "from"@ + " "@ + "the"@ + " "@ + "measured"@ + " "@ + "geometry:"@, " "@);
    assert(p0 =~= Seq::<char>::empty() + "  "@ + "from"@ + " "@ + "the"@ + " "@ + "measured"@ + " "@ + "geometry:"@ + " "@);
    a_word_begins(p0, measured);
    let p1 = p0 + measured;
    a_gap_adds_nothing(p1, " "@);
    a_word_begins(p1 + " "@, "bars"@);
    a_gap_adds_nothing(p1 + " "@ + "bars"@, " "@);
    a_word_begins(p1 + " "@ + "bars"@ + " "@, "out;"@);
    a_gap_adds_nothing(p1 + " "@ + "bars"@ + " "@ + "out;"@, " "@);
    a_word_begins(p1 + " "@ + "bars"@ + " "@ + "out;"@ + " "@, "from"@);
    a_gap_adds_nothing(p1 + " "@ + "bars"@ + " "@ + "out;"@ + " "@ + "from"@, " "@);
    a_word_begins(p1 + " "@ + "bars"@ + " "@ + "out;"@ + " "@ + "from"@ + " "@, "the"@);
    a_gap_adds_nothing(p1 + " "@ + "bars"@ + " "@ + "out;"@ + " "@ + "from"@ + " "@ + "the"@, " "@);
    a_word_begins(p1 + " "@ + "bars"@ + " "@ + "out;"@ + " "@ + "from"@ + " "@ + "the"@ + " "@, "shipped"@);
    a_gap_adds_nothing(p1 + " "@ + "bars"@ + " "@ + "out;"@ + " "@ + "from"@ + " "@ + "the"@ + " "@ + "shipped"@, " "@);
    a_word_begins(p1 + " "@ + "bars"@ + " "@ + "out;"@ + " "@ + "from"@ + " "@ + "the"@ + " "@ + "shipped"@ + " "@, "values:"@);
    a_gap_adds_nothing(p1 + " "@ + "bars"@ + " "@ + "out;"@ + " "@ + "from"@ + " "@ + "the"@ + " "@ + "shipped"@ + " "@ + "values:"@, " "@);
    let p2 = p1 + " bars out; from the shipped values: "@;
    assert(p2 =~= p1 + " "@ + "bars"@ + " "@ + "out;"@ + " "@ + "from"@ + " "@ + "the"@ + " "@ + "shipped"@ + " "@ + "values:"@ + " "@);
    a_word_begins(p2, shipped);
    let p3 = p2 + shipped;
    a_gap_adds_nothing(p3, "\n"@);
    let p4 = p3 + "\n"@;
    assert(two_starts_text(measured, shipped) == p4);
}

/// Each number of `describe` stands in its place among the words.
#[verifier::rlimit(30)]
pub proof fn the_words_of_describe_stand_in_order(v: VoicingText)
    requires
        is_word(v.width@),
        is_word(v.coherence@),
        is_word(band_text(v.band, "no [modal] band"@)),
        is_word(v.score@),
    ensures
        words_of(describe_text(v)).len() == 10,
        words_of(describe_text(v))[1] == v.width@,
        words_of(describe_text(v))[4] == v.coherence@ + ","@,
        words_of(describe_text(v))[5] == band_text(v.band, "no [modal] band"@),
        words_of(describe_text(v))[7] == v.score@,
{
    reveal_strlit("width ");
    reveal_strlit("width");
    reveal_strlit(" ");
    reveal_strlit(" x coherence ");
    reveal_strlit("x");
    reveal_strlit("coherence");
    reveal_strlit(", ");
    reveal_strlit(",");
    reveal_strlit(" -> ");
    reveal_strlit("->");
    reveal_strlit(" bars out");
    reveal_strlit("bars");
    reveal_strlit("out");
    let p0 = "width "@;
    a_word_begins(Seq::<char>::empty(), "width"@);
    a_gap_adds_nothing(Seq::<char>::empty() + "width"@, " "@);
    assert(p0 =~= Seq::<char>::empty() + "width"@ + " "@);
    a_word_begins(p0, v.width@);
    let p1 = p0 + v.width@;
    a_gap_adds_nothing(p1, " "@);
    a_word_begins(p1 + " "@, "x"@);
    a_gap_adds_nothing(p1 + " "@ + "x"@, " "@);
    a_word_begins(p1 + " "@ + "x"@ + " "@, "coherence"@);
    a_gap_adds_nothing(p1 + " "@ + "x"@ + " "@ + "coherence"@, " "@);
    let p2 = p1 + " x coherence "@;
    assert(p2 =~= p1 + " "@ + "x"@ + " "@ + "coherence"@ + " "@);
    a_word_begins(p2, v.coherence@);
    let p3 = p2 + v.coherence@;
    a_word_goes_on(p3, ","@);
    a_gap_adds_nothing(p3 + ","@, " "@);
    let p4 = p3 + ", "@;
    assert(p4 =~= p3 + ","@ + " "@);
    a_word_begins(p4, band_text(v.band, "no [modal] band"@));
    let p5 = p4 + band_text(v.band, "no [modal] band"@);
    a_gap_adds_nothing(p5, " "@);
    a_word_begins(p5 + " "@, "->"@);
    a_gap_adds_nothing(p5 + " "@ + "->"@, " "@);
    let p6 = p5 + " -> "@;
    assert(p6 =~= p5 + " "@ + "->"@ + " "@);
    a_word_begins(p6, v.score@);
    let p7 = p6 + v.score@;
    a_gap_adds_nothing(p7, " "@);
    a_word_begins(p7 + " "@, "bars"@);
    a_gap_adds_nothing(p7 + " "@ + "bars"@, " "@);
    a_word_begins(p7 + " "@ + "bars"@ + " "@, "out"@);
    let p8 = p7 + " bars out"@;
    assert(p8 =~= p7 + " "@ + "bars"@ + " "@ + "out"@);
    assert(describe_text(v) == p8);
}

/// Each number of `cost_line` stands in its place among the words.
#[verifier::rlimit(30)]
pub proof fn the_words_of_cost_line_stand_in_order(held: Seq<char>, free: Seq<char>)
    requires
        is_word(held),
        is_word(free),
    ensures
        words_of(cost_line_text(held, free)).len() == 18,
        words_of(cost_line_text(held, free))[7] == held,
        words_of(cost_line_text(held, free))[14] == free,
{
    reveal_strlit("\nthe cost of respecting the measured delays: ");
    reveal_strlit("\n");
    reveal_strlit("the");
    reveal_strlit(" ");
    reveal_strlit("cost");
    reveal_strlit("of");
    reveal_strlit("respecting");
    reveal_strlit("measured");
    reveal_strlit("delays:");
    reveal_strlit(" bars out with the geometry held, ");
    reveal_strlit("bars");
    reveal_strlit("out");
    reveal_strlit("with");
    reveal_strlit("geometry");
    reveal_strlit("held,");
    reveal_strlit(" with it free\n");
    reveal_strlit("it");
    reveal_strlit("free");
    let p0 = COST_LINE_0@;
    a_gap_adds_nothing(Seq::<char>::empty(), "\n"@);
    a_word_begins(Seq::<char>::empty() + "\n"@, "the"@);
    a_gap_adds_nothing(Seq::<char>::empty() + "\n"@ + "the"@, " "@);
    a_word_begins(Seq::<char>::empty() + "\n"@ + "the"@ + " "@, "cost"@);
    a_gap_adds_nothing(Seq::<char>::empty() + "\n"@ + "the"@ + " "@ + "cost"@, " "@);
    a_word_begins(Seq::<char>::empty() + "\n"@ + "the"@ + " "@ + "cost"@ + " "@, "of"@);
    a_gap_adds_nothing(Seq::<char>::empty() + "\n"@ + "the"@ + " "@ + "cost"@ + " "@ + "of"@, " "@);
    a_word_begins(Seq::<char>::empty() + "\n"@ + "the"@ + " "@ + "cost"@ + " "@ + "of"@ + " "@, "respecting"@);
    a_gap_adds_nothing(Seq::<char>::empty() + "\n"@ + "the"@ + " "@ + "cost"@ + " "@ + "of"@ + " "@ + "respecting"@, " "@);
    a_word_begins(Seq::<char>::empty() + "\n"@ + "the"@ + " "@ + "cost"@ + " "@ + "of"@ + " "@ + "respecting"@ + " "@, "the"@);
    a_gap_adds_nothing(Seq::<char>::empty() + "\n"@ + "the"@ + " "@ + "cost"@ + " "@ + "of"@ + " "@ + "respecting"@ + " "@ + "the"@, " "@);
    a_word_begins(Seq::<char>::empty() + "\n"@ + "the"@ + " "@ + "cost"@ + " "@ + "of"@ + " "@ + "respecting"@ + " "@ + "the"@ + " "@, "measured"@);
    a_gap_adds_nothing(Seq::<char>::empty() + "\n"@ + "the"@ + " "@ + "cost"@ + " "@ + "of"@ + " "@ + "respecting"@ + " "@ + "the"@ + " "@ + "measured"@, " "@);
    a_word_begins(Seq::<char>::empty() + "\n"@ + "the"@ + " "@ + "cost"@ + " "@ + "of"@ + " "@ + "respecting"@ + " "@ + "the"@ + " "@ + "measured"@ + " "@, "delays:"@);
    a_gap_adds_nothing(Seq::<char>::empty() + "\n"@ + "the"@ + " "@ + "cost"@ + " "@ + "of"@ + " "@ + "respecting"@ + " "@ + "the"@ + " "@ + "measured"@ + " "@ + "delays:"@, " "@);
    assert(p0 =~= Seq::<char>::empty() + "\n"@ + "the"@ + " "@ + "cost"@ + " "@ + "of"@ + " "@ + "respecting"@ + " "@ + "the"@ + " "@ + "measured"@ + " "@ + "delays:"@ + " "@);
    a_word_begins(p0, held);
    let p1 = p0 + held;
    a_gap_adds_nothing(p1, " "@);
    a_word_begins(p1 + " "@, "bars"@);
    a_gap_adds_nothing(p1 + " "@ + "bars"@, " "@);
    a_word_begins(p1 + " "@ + "bars"@ + " "@, "out"@);
    a_gap_adds_nothing(p1 + " "@ + "bars"@ + " "@ + "out"@, " "@);
    a_word_begins(p1 + " "@ + "bars"@ + " "@ + "out"@ + " "@, "with"@);
    a_gap_adds_nothing(p1 + " "@ + "bars"@ + " "@ + "out"@ + " "@ + "with"@, " "@);
    a_word_begins(p1 + " "@ + "bars"@ + " "@ + "out"@ + " "@ + "with"@ + " "@, "the"@);
    a_gap_adds_nothing(p1 + " "@ + "bars"@ + " "@ + "out"@ + " "@ + "with"@ + " "@ + "the"@, " "@);
    a_word_begins(p1 + " "@ + "bars"@ + " "@ + "out"@ + " "@ + "with"@ + " "@ + "the"@ + " "@, "geometry"@);
    a_gap_adds_nothing(p1 + " "@ + "bars"@ + " "@ + "out"@ + " "@ + "with"@ + " "@ + "the"@ + " "@ + "geometry"@, " "@);
    a_word_begins(p1 + " "@ + "bars"@ + " "@ + "out"@ + " "@ + "with"@ + " "@ + "the"@ + " "@ + "geometry"@ + " "@, "held,"@);
    a_gap_adds_nothing(p1 + " "@ + "bars"@ + " "@ + "out"@ + " "@ + "with"@ + " "@ + "the"@ + " "@ + "geometry"@ + " "@ + "held,"@, " "@);
    let p2 = p1 + " bars out with the geometry held, "@;
    assert(p2 =~= p1 + " "@ + "bars"@ + " "@ + "out"@ + " "@ + "with"@ + " "@ + "the"@ + " "@ + "geometry"@ + " "@ + "held,"@ + " "@);
    a_word_begins(p2, free);
    let p3 = p2 + free;
    a_gap_adds_nothing(p3, " "@);
    a_word_begins(p3 + " "@, "with"@);
    a_gap_adds_nothing(p3 + " "@ + "with"@, " "@);
    a_word_begins(p3 + " "@ + "with"@ + " "@, "it"@);
    a_gap_adds_nothing(p3 + " "@ + "with"@ + " "@ + "it"@, " "@);
    a_word_begins(p3 + " "@ + "with"@ + " "@ + "it"@ + " "@, "free"@);
    a_gap_adds_nothing(p3 + " "@ + "with"@ + " "@ + "it"@ + " "@ + "free"@, "\n"@);
    let p4 = p3 + " with it free\n"@;
    assert(p4 =~= p3 + " "@ + "with"@ + " "@ + "it"@ + " "@ + "free"@ + "\n"@);
    assert(cost_line_text(held, free) == p4);
}

/// Each number of `band_line` stands in its place among the words.
#[verifier::rlimit(30)]
pub proof fn the_words_of_band_line_stand_in_order(b: BandText)
    requires
        is_word(b.low@),
        is_word(b.high@),
        is_word(b.lift@),
    ensures
        words_of(band_line_text(b)).len() == 7,
        words_of(band_line_text(b))[2] == b.low@,
        words_of(band_line_text(b))[4] == b.high@,
        words_of(band_line_text(b))[6] == b.lift@,
{
    reveal_strlit("  [modal] lo_hz ");
    reveal_strlit("  ");
    reveal_strlit("[modal]");
    reveal_strlit(" ");
    reveal_strlit("lo_hz");
    reveal_strlit("  hi_hz ");
    reveal_strlit("hi_hz");
    reveal_strlit("  lift ");
    reveal_strlit("lift");
    reveal_strlit("\n");
    let p0 = "  [modal] lo_hz "@;
    a_gap_adds_nothing(Seq::<char>::empty(), "  "@);
    a_word_begins(Seq::<char>::empty() + "  "@, "[modal]"@);
    a_gap_adds_nothing(Seq::<char>::empty() + "  "@ + "[modal]"@, " "@);
    a_word_begins(Seq::<char>::empty() + "  "@ + "[modal]"@ + " "@, "lo_hz"@);
    a_gap_adds_nothing(Seq::<char>::empty() + "  "@ + "[modal]"@ + " "@ + "lo_hz"@, " "@);
    assert(p0 =~= Seq::<char>::empty() + "  "@ + "[modal]"@ + " "@ + "lo_hz"@ + " "@);
    a_word_begins(p0, b.low@);
    let p1 = p0 + b.low@;
    a_gap_adds_nothing(p1, "  "@);
    a_word_begins(p1 + "  "@, "hi_hz"@);
    a_gap_adds_nothing(p1 + "  "@ + "hi_hz"@, " "@);
    let p2 = p1 + "  hi_hz "@;
    assert(p2 =~= p1 + "  "@ + "hi_hz"@ + " "@);
    a_word_begins(p2, b.high@);
    let p3 = p2 + b.high@;
    a_gap_adds_nothing(p3, "  "@);
    a_word_begins(p3 + "  "@, "lift"@);
    a_gap_adds_nothing(p3 + "  "@ + "lift"@, " "@);
    let p4 = p3 + "  lift "@;
    assert(p4 =~= p3 + "  "@ + "lift"@ + " "@);
    a_word_begins(p4, b.lift@);
    let p5 = p4 + b.lift@;
    a_gap_adds_nothing(p5, "\n"@);
    let p6 = p5 + "\n"@;
    assert(band_line_text(b) == p6);
}

/// Each number of `channel_lines` stands in its place among the words.
#[verifier::rlimit(30)]
pub proof fn the_words_of_channel_lines_stand_in_order(a: Tally, b: Tally)
    requires
        is_word(a.bars@),
        is_word(b.bars@),
        is_word(a.table@),
        is_word(b.table@),
    ensures
        words_of(channel_lines_text(a, b)).len() == 21,
        words_of(channel_lines_text(a, b))[7] == "("@ + decimal(a.red as nat),
        words_of(channel_lines_text(a, b))[9] == a.bars@,
        words_of(channel_lines_text(a, b))[14] == "("@ + decimal(b.red as nat),
        words_of(channel_lines_text(a, b))[16] == b.bars@,
        words_of(channel_lines_text(a, b))[19] == a.table@,
        words_of(channel_lines_text(a, b))[20] == b.table@,
{
    reveal_strlit("PER-CHANNEL columns, the same renders — before (");
    reveal_strlit("PER-CHANNEL");
    reveal_strlit(" ");
    reveal_strlit("columns,");
    reveal_strlit("the");
    reveal_strlit("same");
    reveal_strlit("renders");
    reveal_strlit("—");
    reveal_strlit("before");
    reveal_strlit("(");
    reveal_strlit(" red, ");
    reveal_strlit("red,");
    reveal_strlit(" bars out) and after (");
    reveal_strlit("bars");
    reveal_strlit("out)");
    reveal_strlit("and");
    reveal_strlit("after");
    reveal_strlit(" bars out):\n");
    reveal_strlit("out):");
    reveal_strlit("\n");
    a_number_is_a_word(a.red as nat);
    a_number_is_a_word(b.red as nat);
    let p0 = CHANNEL_LINES_0@;
    a_word_begins(Seq::<char>::empty(), "PER-CHANNEL"@);
    a_gap_adds_nothing(Seq::<char>::empty() + "PER-CHANNEL"@, " "@);
    a_word_begins(Seq::<char>::empty() + "PER-CHANNEL"@ + " "@, "columns,"@);
    a_gap_adds_nothing(Seq::<char>::empty() + "PER-CHANNEL"@ + " "@ + "columns,"@, " "@);
    a_word_begins(Seq::<char>::empty() + "PER-CHANNEL"@ + " "@ + "columns,"@ + " "@, "the"@);
    a_gap_adds_nothing(Seq::<char>::empty() + "PER-CHANNEL"@ + " "@ + "columns,"@ + " "@ + "the"@, " "@);
    a_word_begins(Seq::<char>::empty() + "PER-CHANNEL"@ + " "@ + "columns,"@ + " "@ + "the"@ + " "@, "same"@);
    a_gap_adds_nothing(Seq::<char>::empty() + "PER-CHANNEL"@ + " "@ + "columns,"@ + " "@ + "the"@ + " "@ + "same"@, " "@);
    a_word_begins(Seq::<char>::empty() + "PER-CHANNEL"@ + " "@ + "columns,"@ + " "@ + "the"@ + " "@ + "same"@ + " "@, "renders"@);
    a_gap_adds_nothing(Seq::<char>::empty() + "PER-CHANNEL"@ + " "@ + "columns,"@ + " "@ + "the"@ + " "@ + "same"@ + " "@ + "renders"@, " "@);
    a_word_begins(Seq::<char>::empty() + "PER-CHANNEL"@ + " "@ + "columns,"@ + " "@ + "the"@ + " "@ + "same"@ + " "@ + "renders"@ + " "@, "—"@);
    a_gap_adds_nothing(Seq::<char>::empty() + "PER-CHANNEL"@ + " "@ + "columns,"@ + " "@ + "the"@ + " "@ + "same"@ + " "@ + "renders"@ + " "@ + "—"@, " "@);
    a_word_begins(Seq::<char>::empty() + "PER-CHANNEL"@ + " "@ + "columns,"@ + " "@ + "the"@ + " "@ + "same"@ + " "@ + "renders"@ + " "@ + "—"@ + " "@, "before"@);
    a_gap_adds_nothing(Seq::<char>::empty() + "PER-CHANNEL"@ + " "@ + "columns,"@ + " "@ + "the"@ + " "@ + "same"@ + " "@ + "renders"@ + " "@ + "—"@ + " "@ + "before"@, " "@);
    a_word_begins(Seq::<char>::empty() + "PER-CHANNEL"@ + " "@ + "columns,"@ + " "@ + "the"@ + " "@ + "same"@ + " "@ + "renders"@ + " "@ + "—"@ + " "@ + "before"@ + " "@, "("@);
    assert(p0 =~= Seq::<char>::empty() + "PER-CHANNEL"@ + " "@ + "columns,"@ + " "@ + "the"@ + " "@ + "same"@ + " "@ + "renders"@ + " "@ + "—"@ + " "@ + "before"@ + " "@ + "("@);
    a_word_goes_on(p0, decimal(a.red as nat));
    let p1 = p0 + decimal(a.red as nat);
    a_gap_adds_nothing(p1, " "@);
    a_word_begins(p1 + " "@, "red,"@);
    a_gap_adds_nothing(p1 + " "@ + "red,"@, " "@);
    let p2 = p1 + " red, "@;
    assert(p2 =~= p1 + " "@ + "red,"@ + " "@);
    a_word_begins(p2, a.bars@);
    let p3 = p2 + a.bars@;
    a_gap_adds_nothing(p3, " "@);
    a_word_begins(p3 + " "@, "bars"@);
    a_gap_adds_nothing(p3 + " "@ + "bars"@, " "@);
    a_word_begins(p3 + " "@ + "bars"@ + " "@, "out)"@);
    a_gap_adds_nothing(p3 + " "@ + "bars"@ + " "@ + "out)"@, " "@);
    a_word_begins(p3 + " "@ + "bars"@ + " "@ + "out)"@ + " "@, "and"@);
    a_gap_adds_nothing(p3 + " "@ + "bars"@ + " "@ + "out)"@ + " "@ + "and"@, " "@);
    a_word_begins(p3 + " "@ + "bars"@ + " "@ + "out)"@ + " "@ + "and"@ + " "@, "after"@);
    a_gap_adds_nothing(p3 + " "@ + "bars"@ + " "@ + "out)"@ + " "@ + "and"@ + " "@ + "after"@, " "@);
    a_word_begins(p3 + " "@ + "bars"@ + " "@ + "out)"@ + " "@ + "and"@ + " "@ + "after"@ + " "@, "("@);
    let p4 = p3 + " bars out) and after ("@;
    assert(p4 =~= p3 + " "@ + "bars"@ + " "@ + "out)"@ + " "@ + "and"@ + " "@ + "after"@ + " "@ + "("@);
    a_word_goes_on(p4, decimal(b.red as nat));
    let p5 = p4 + decimal(b.red as nat);
    a_gap_adds_nothing(p5, " "@);
    a_word_begins(p5 + " "@, "red,"@);
    a_gap_adds_nothing(p5 + " "@ + "red,"@, " "@);
    let p6 = p5 + " red, "@;
    assert(p6 =~= p5 + " "@ + "red,"@ + " "@);
    a_word_begins(p6, b.bars@);
    let p7 = p6 + b.bars@;
    a_gap_adds_nothing(p7, " "@);
    a_word_begins(p7 + " "@, "bars"@);
    a_gap_adds_nothing(p7 + " "@ + "bars"@, " "@);
    a_word_begins(p7 + " "@ + "bars"@ + " "@, "out):"@);
    a_gap_adds_nothing(p7 + " "@ + "bars"@ + " "@ + "out):"@, "\n"@);
    let p8 = p7 + " bars out):\n"@;
    assert(p8 =~= p7 + " "@ + "bars"@ + " "@ + "out):"@ + "\n"@);
    a_word_begins(p8, a.table@);
    let p9 = p8 + a.table@;
    a_gap_adds_nothing(p9, "\n"@);
    let p10 = p9 + "\n"@;
    a_word_begins(p10, b.table@);
    let p11 = p10 + b.table@;
    a_gap_adds_nothing(p11, "\n"@);
    let p12 = p11 + "\n"@;
    assert(channel_lines_text(a, b) == p12);
}

/// Each number of `phrase_lines` stands in its place among the words.
#[verifier::rlimit(30)]
pub proof fn the_words_of_phrase_lines_stand_in_order(a: Tally, b: Tally)
    requires
        is_word(a.bars@),
        is_word(b.bars@),
        is_word(a.table@),
        is_word(b.table@),
    ensures
        words_of(phrase_lines_text(a, b)).len() == 22,
        words_of(phrase_lines_text(a, b))[8] == "("@ + decimal(a.red as nat),
        words_of(phrase_lines_text(a, b))[10] == a.bars@,
        words_of(phrase_lines_text(a, b))[15] == "("@ + decimal(b.red as nat),
        words_of(phrase_lines_text(a, b))[17] == b.bars@,
        words_of(phrase_lines_text(a, b))[20] == a.table@,
        words_of(phrase_lines_text(a, b))[21] == b.table@,
{
    reveal_strlit("STEREO columns, the scoreboard's six phrases — before (");
    reveal_strlit("STEREO");
    reveal_strlit(" ");
    reveal_strlit("columns,");
    reveal_strlit("the");
    reveal_strlit("scoreboard's");
    reveal_strlit("six");
    reveal_strlit("phrases");
    reveal_strlit("—");
    reveal_strlit("before");
    reveal_strlit("(");
    reveal_strlit(" red, ");
    reveal_strlit("red,");
    reveal_strlit(" bars out) and after (");
    reveal_strlit("bars");
    reveal_strlit("out)");
    reveal_strlit("and");
    reveal_strlit("after");
    reveal_strlit(" bars out):\n");
    reveal_strlit("out):");
    reveal_strlit("\n");
    a_number_is_a_word(a.red as nat);
    a_number_is_a_word(b.red as nat);
    let p0 = PHRASE_LINES_0@;
    a_word_begins(Seq::<char>::empty(), "STEREO"@);
    a_gap_adds_nothing(Seq::<char>::empty() + "STEREO"@, " "@);
    a_word_begins(Seq::<char>::empty() + "STEREO"@ + " "@, "columns,"@);
    a_gap_adds_nothing(Seq::<char>::empty() + "STEREO"@ + " "@ + "columns,"@, " "@);
    a_word_begins(Seq::<char>::empty() + "STEREO"@ + " "@ + "columns,"@ + " "@, "the"@);
    a_gap_adds_nothing(Seq::<char>::empty() + "STEREO"@ + " "@ + "columns,"@ + " "@ + "the"@, " "@);
    a_word_begins(Seq::<char>::empty() + "STEREO"@ + " "@ + "columns,"@ + " "@ + "the"@ + " "@, "scoreboard's"@);
    a_gap_adds_nothing(Seq::<char>::empty() + "STEREO"@ + " "@ + "columns,"@ + " "@ + "the"@ + " "@ + "scoreboard's"@, " "@);
    a_word_begins(Seq::<char>::empty() + "STEREO"@ + " "@ + "columns,"@ + " "@ + "the"@ + " "@ + "scoreboard's"@ + " "@, "six"@);
    a_gap_adds_nothing(Seq::<char>::empty() + "STEREO"@ + " "@ + "columns,"@ + " "@ + "the"@ + " "@ + "scoreboard's"@ + " "@ + "six"@, " "@);
    a_word_begins(Seq::<char>::empty() + "STEREO"@ + " "@ + "columns,"@ + " "@ + "the"@ + " "@ + "scoreboard's"@ + " "@ + "six"@ + " "@, "phrases"@);
    a_gap_adds_nothing(Seq::<char>::empty() + "STEREO"@ + " "@ + "columns,"@ + " "@ + "the"@ + " "@ + "scoreboard's"@ + " "@ + "six"@ + " "@ + "phrases"@, " "@);
    a_word_begins(Seq::<char>::empty() + "STEREO"@ + " "@ + "columns,"@ + " "@ + "the"@ + " "@ + "scoreboard's"@ + " "@ + "six"@ + " "@ + "phrases"@ + " "@, "—"@);
    a_gap_adds_nothing(Seq::<char>::empty() + "STEREO"@ + " "@ + "columns,"@ + " "@ + "the"@ + " "@ + "scoreboard's"@ + " "@ + "six"@ + " "@ + "phrases"@ + " "@ + "—"@, " "@);
    a_word_begins(Seq::<char>::empty() + "STEREO"@ + " "@ + "columns,"@ + " "@ + "the"@ + " "@ + "scoreboard's"@ + " "@ + "six"@ + " "@ + "phrases"@ + " "@ + "—"@ + " "@, "before"@);
    a_gap_adds_nothing(Seq::<char>::empty() + "STEREO"@ + " "@ + "columns,"@ + " "@ + "the"@ + " "@ + "scoreboard's"@ + " "@ + "six"@ + " "@ + "phrases"@ + " "@ + "—"@ + " "@ + "before"@, " "@);
    a_word_begins(Seq::<char>::empty() + "STEREO"@ + " "@ + "columns,"@ + " "@ + "the"@ + " "@ + "scoreboard's"@ + " "@ + "six"@ + " "@ + "phrases"@ + " "@ + "—"@ + " "@ + "before"@ + " "@, "("@);
    assert(p0 =~= Seq::<char>::empty() + "STEREO"@ + " "@ + "columns,"@ + " "@ + "the"@ + " "@ + "scoreboard's"@ + " "@ + "six"@ + " "@ + "phrases"@ + " "@ + "—"@ + " "@ + "before"@ + " "@ + "("@);
    a_word_goes_on(p0, decimal(a.red as nat));
    let p1 = p0 + decimal(a.red as nat);
    a_gap_adds_nothing(p1, " "@);
    a_word_begins(p1 + " "@, "red,"@);
    a_gap_adds_nothing(p1 + " "@ + "red,"@, " "@);
    let p2 = p1 + " red, "@;
    assert(p2 =~= p1 + " "@ + "red,"@ + " "@);
    a_word_begins(p2, a.bars@);
    let p3 = p2 + a.bars@;
    a_gap_adds_nothing(p3, " "@);
    a_word_begins(p3 + " "@, "bars"@);
    a_gap_adds_nothing(p3 + " "@ + "bars"@, " "@);
    a_word_begins(p3 + " "@ + "bars"@ + " "@, "out)"@);
    a_gap_adds_nothing(p3 + " "@ + "bars"@ + " "@ + "out)"@, " "@);
    a_word_begins(p3 + " "@ + "bars"@ + " "@ + "out)"@ + " "@, "and"@);
    a_gap_adds_nothing(p3 + " "@ + "bars"@ + " "@ + "out)"@ + " "@ + "and"@, " "@);
    a_word_begins(p3 + " "@ + "bars"@ + " "@ + "out)"@ + " "@ + "and"@ + " "@, "after"@);
    a_gap_adds_nothing(p3 + " "@ + "bars"@ + " "@ + "out)"@ + " "@ + "and"@ + " "@ + "after"@, " "@);
    a_word_begins(p3 + " "@ + "bars"@ + " "@ + "out)"@ + " "@ + "and"@ + " "@ + "after"@ + " "@, "("@);
    let p4 = p3 + " bars out) and after ("@;
    assert(p4 =~= p3 + " "@ + "bars"@ + " "@ + "out)"@ + " "@ + "and"@ + " "@ + "after"@ + " "@ + "("@);
    a_word_goes_on(p4, decimal(b.red as nat));
    let p5 = p4 + decimal(b.red as nat);
    a_gap_adds_nothing(p5, " "@);
    a_word_begins(p5 + " "@, "red,"@);
    a_gap_adds_nothing(p5 + " "@ + "red,"@, " "@);
    let p6 = p5 + " red, "@;
    assert(p6 =~= p5 + " "@ + "red,"@ + " "@);
    a_word_begins(p6, b.bars@);
    let p7 = p6 + b.bars@;
    a_gap_adds_nothing(p7, " "@);
    a_word_begins(p7 + " "@, "bars"@);
    a_gap_adds_nothing(p7 + " "@ + "bars"@, " "@);
    a_word_begins(p7 + " "@ + "bars"@ + " "@, "out):"@);
    a_gap_adds_nothing(p7 + " "@ + "bars"@ + " "@ + "out):"@, "\n"@);
    let p8 = p7 + " bars out):\n"@;
    assert(p8 =~= p7 + " "@ + "bars"@ + " "@ + "out):"@ + "\n"@);
    a_word_begins(p8, a.table@);
    let p9 = p8 + a.table@;
    a_gap_adds_nothing(p9, "\n"@);
    let p10 = p9 + "\n"@;
    a_word_begins(p10, b.table@);
    let p11 = p10 + b.table@;
    a_gap_adds_nothing(p11, "\n"@);
    let p12 = p11 + "\n"@;
    assert(phrase_lines_text(a, b) == p12);
}

} // verus!
