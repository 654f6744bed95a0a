//! What the motion stages say as they go.

use crate::fit::motion::{verdict_name, verdict_text, FalseBeatVerdict};
use crate::text::{decimal, join, joined, left_in, print, push_left, push_right, right_in, views};
use crate::words::{a_gap_adds_nothing, a_left_word_begins, a_left_word_goes_on, a_number_is_a_word, a_right_word_begins, a_word_begins, a_word_goes_on, is_word, words_of};
use vstd::prelude::*;

verus! {

/// What is fitted from what.
pub open spec fn heading_text(keys: usize, sfz: Seq<char>, preset: Seq<char>) -> Seq<char> {
    decimal(keys as nat)
        + " keys from "@
        + sfz
        + ", preset "@
        + preset
        + "\n"@
}

/// What is fitted from what.
pub fn heading(keys: usize, sfz: &str, preset: &str) -> (text: String)
    ensures
        text@ == heading_text(keys, sfz@, preset@),
{
    let mut out = String::from_str(print(keys as u64).as_str());
    out.append(" keys from ");
    out.append(sfz);
    out.append(", preset ");
    out.append(preset);
    out.append("\n");
    out
}

/// The head of the splits.
pub const FALSE_BEATS: &'static str = "\n== notes.false_beat ==\n key  partials   flat/prop  r(k,rate)  verdict          \
    rows (k: hz / dB)\n";

/// A split.
pub open spec fn split_text(k: u16, hz: Seq<char>, db: Seq<char>) -> Seq<char> {
    decimal(k as nat)
        + ": "@
        + hz
        + " / "@
        + db
}

/// A split.
pub fn split(k: u16, hz: &str, db: &str) -> (text: String)
    ensures
        text@ == split_text(k, hz@, db@),
{
    let mut out = String::from_str(print(k as u64).as_str());
    out.append(": ");
    out.append(hz);
    out.append(" / ");
    out.append(db);
    out
}

/// What was fitted of a key's splits, as it is printed.
pub struct BeatRow {
    pub key: u8,
    pub partials: usize,
    pub ratio: String,
    pub correlation: String,
    pub verdict: FalseBeatVerdict,
    pub unwritten: usize,
    pub rows: Vec<String>,
}

/// A row of the splits.
pub open spec fn beat_row_text(r: BeatRow) -> Seq<char> {
    Seq::<char>::empty()
        + right_in(decimal(r.key as nat), 4)
        + "  "@
        + right_in(decimal(r.partials as nat), 8)
        + "  "@
        + right_in(r.ratio@, 9)
        + "  "@
        + right_in(r.correlation@, 9)
        + "  "@
        + left_in(verdict_text(r.verdict), 15)
        + "  "@
        + right_in(decimal(r.unwritten as nat), 2)
        + " unwritten  "@
        + joined(views(r.rows@), "  "@)
        + "\n"@
}

/// A row of the splits.
pub fn beat_row(r: &BeatRow) -> (text: String)
    ensures
        text@ == beat_row_text(*r),
{
    let mut out = String::new();
    push_right(&mut out, print(r.key as u64).as_str(), 4);
    out.append("  ");
    push_right(&mut out, print(r.partials as u64).as_str(), 8);
    out.append("  ");
    push_right(&mut out, r.ratio.as_str(), 9);
    out.append("  ");
    push_right(&mut out, r.correlation.as_str(), 9);
    out.append("  ");
    push_left(&mut out, verdict_name(r.verdict).as_str(), 15);
    out.append("  ");
    push_right(&mut out, print(r.unwritten as u64).as_str(), 2);
    out.append(" unwritten  ");
    out.append(join(&r.rows, "  ").as_str());
    out.append("\n");
    out
}

/// The head of the strike's direction.
pub const STRIKE: &'static str = "\n== [voicing.strike_direction] ==\n";

/// What is said where too little was read.
pub open spec fn too_few_text(cells: usize) -> Seq<char> {
    decimal(cells as nat)
        + " readings: too few for a regression\n"@
}

/// What is said where too little was read.
pub fn too_few(cells: usize) -> (text: String)
    ensures
        text@ == too_few_text(cells),
{
    let mut out = String::from_str(print(cells as u64).as_str());
    out.append(" readings: too few for a regression\n");
    out
}

/// The line through the readings, as it is printed.
pub struct Regression {
    pub cells: usize,
    pub groups: usize,
    pub slope: String,
    pub correlation: String,
    pub residual: String,
    pub cell_slope: String,
    pub cell_range: String,
}

/// The line through the readings.
pub open spec fn regression_line_text(r: Regression) -> Seq<char> {
    decimal(r.cells as nat)
        + " readings over "@
        + decimal(r.groups as nat)
        + " cells: within-cell slope "@
        + r.slope@
        + " dB (r "@
        + r.correlation@
        + ", residual "@
        + r.residual@
        + " dB), median per-cell slope "@
        + r.cell_slope@
        + " dB (IQR "@
        + r.cell_range@
        + ")\n"@
}

/// The line through the readings.
pub fn regression_line(r: &Regression) -> (text: String)
    ensures
        text@ == regression_line_text(*r),
{
    let mut out = String::from_str(print(r.cells as u64).as_str());
    out.append(" readings over ");
    out.append(print(r.groups as u64).as_str());
    out.append(" cells: within-cell slope ");
    out.append(r.slope.as_str());
    out.append(" dB (r ");
    out.append(r.correlation.as_str());
    out.append(", residual ");
    out.append(r.residual.as_str());
    out.append(" dB), median per-cell slope ");
    out.append(r.cell_slope.as_str());
    out.append(" dB (IQR ");
    out.append(r.cell_range.as_str());
    out.append(")\n");
    out
}

pub const TARGET_LINE_0: &'static str = "target: the recording's mean per-cell spread over velocities ";

pub const TARGET_LINE_1: &'static str = " partials — Column B2's own denominator, and the fit is for B2 = 1\n";

/// The spread that is fitted to.
pub open spec fn target_line_text(velocities: Seq<char>, depth: Seq<char>, cents: Seq<char>, keys: usize, partials: u32) -> Seq<char> {
    TARGET_LINE_0@
        + velocities
        + " is "@
        + depth
        + " dB of beat depth and "@
        + cents
        + " cents of frequency, over "@
        + decimal(keys as nat)
        + " keys x "@
        + decimal(partials as nat)
        + TARGET_LINE_1@
}

/// The spread that is fitted to.
pub fn target_line(velocities: &str, depth: &str, cents: &str, keys: usize, partials: u32) -> (text: String)
    ensures
        text@ == target_line_text(velocities@, depth@, cents@, keys, partials),
{
    let mut out = String::from_str(TARGET_LINE_0);
    out.append(velocities);
    out.append(" is ");
    out.append(depth);
    out.append(" dB of beat depth and ");
    out.append(cents);
    out.append(" cents of frequency, over ");
    out.append(print(keys as u64).as_str());
    out.append(" keys x ");
    out.append(print(partials as u64).as_str());
    out.append(TARGET_LINE_1);
    out
}

/// What a swing comes to.
pub open spec fn swing_line_text(swing: Seq<char>, depth: Seq<char>, cents: Seq<char>, coherence: Seq<char>) -> Seq<char> {
    "  swing "@
        + right_in(swing, 5)
        + " dB -> spread "@
        + depth
        + " dB / "@
        + cents
        + " c, B2 "@
        + coherence
        + "\n"@
}

/// What a swing comes to.
pub fn swing_line(swing: &str, depth: &str, cents: &str, coherence: &str) -> (text: String)
    ensures
        text@ == swing_line_text(swing@, depth@, cents@, coherence@),
{
    let mut out = String::from_str("  swing ");
    push_right(&mut out, swing, 5);
    out.append(" dB -> spread ");
    out.append(depth);
    out.append(" dB / ");
    out.append(cents);
    out.append(" c, B2 ");
    out.append(coherence);
    out.append("\n");
    out
}

/// The swing that was found.
pub open spec fn swing_found_text(swing: Seq<char>, soft: Seq<char>, loud: Seq<char>, tilt: Seq<char>) -> Seq<char> {
    "  -> swing "@
        + swing
        + " dB: vh_db_at_pp "@
        + soft
        + ", vh_db_at_ff "@
        + loud
        + ", share_tilt "@
        + tilt
        + "\n"@
}

/// The swing that was found.
pub fn swing_found(swing: &str, soft: &str, loud: &str, tilt: &str) -> (text: String)
    ensures
        text@ == swing_found_text(swing@, soft@, loud@, tilt@),
{
    let mut out = String::from_str("  -> swing ");
    out.append(swing);
    out.append(" dB: vh_db_at_pp ");
    out.append(soft);
    out.append(", vh_db_at_ff ");
    out.append(loud);
    out.append(", share_tilt ");
    out.append(tilt);
    out.append("\n");
    out
}

/// What is said where no swing moves the spread.
pub const NO_SWING: &'static str = "  -> the engine's spread does not move with the swing; nothing written\n";

pub const DETUNE_HEADING_0: &'static str = "\n== notes.detune_cents ==\n key  strings  recorded s  rendered s ";

pub const DETUNE_HEADING_1: &'static str = " c  identifiable  cents            aftersound dB: rec / engine\n";

/// The head of the detunings.
pub open spec fn detune_heading_text(low: Seq<char>, high: Seq<char>) -> Seq<char> {
    DETUNE_HEADING_0@
        + low
        + ".."@
        + high
        + DETUNE_HEADING_1@
}

/// The head of the detunings.
pub fn detune_heading(low: &str, high: &str) -> (text: String)
    ensures
        text@ == detune_heading_text(low@, high@),
{
    let mut out = String::from_str(DETUNE_HEADING_0);
    out.append(low);
    out.append("..");
    out.append(high);
    out.append(DETUNE_HEADING_1);
    out
}

/// What was fitted of a key's detuning, as it is printed.
pub struct DetuneRow {
    pub key: u8,
    pub strings: u8,
    pub target: String,
    pub low: String,
    pub high: String,
    pub verdict: String,
    pub was: String,
    pub cents: String,
    pub recorded: String,
    pub before: String,
    pub after: String,
}

/// A row of the detunings.
pub open spec fn detune_row_text(r: DetuneRow) -> Seq<char> {
    Seq::<char>::empty()
        + right_in(decimal(r.key as nat), 4)
        + "  "@
        + right_in(decimal(r.strings as nat), 7)
        + "  "@
        + right_in(r.target@, 10)
        + "  "@
        + right_in(r.low@, 10)
        + ".."@
        + left_in(r.high@, 9)
        + "  "@
        + left_in(r.verdict@, 12)
        + "  "@
        + right_in(r.was@, 5)
        + " -> "@
        + left_in(r.cents@, 5)
        + "  "@
        + right_in(r.recorded@, 7)
        + ": "@
        + r.before@
        + " -> "@
        + r.after@
        + "\n"@
}

/// A row of the detunings.
pub fn detune_row(r: &DetuneRow) -> (text: String)
    ensures
        text@ == detune_row_text(*r),
{
    let mut out = String::new();
    push_right(&mut out, print(r.key as u64).as_str(), 4);
    out.append("  ");
    push_right(&mut out, print(r.strings as u64).as_str(), 7);
    out.append("  ");
    push_right(&mut out, r.target.as_str(), 10);
    out.append("  ");
    push_right(&mut out, r.low.as_str(), 10);
    out.append("..");
    push_left(&mut out, r.high.as_str(), 9);
    out.append("  ");
    push_left(&mut out, r.verdict.as_str(), 12);
    out.append("  ");
    push_right(&mut out, r.was.as_str(), 5);
    out.append(" -> ");
    push_left(&mut out, r.cents.as_str(), 5);
    out.append("  ");
    push_right(&mut out, r.recorded.as_str(), 7);
    out.append(": ");
    out.append(r.before.as_str());
    out.append(" -> ");
    out.append(r.after.as_str());
    out.append("\n");
    out
}

/// The head of the gains.
pub const GAINS: &'static str = "\n== notes.partial_gains ==\n key  layers  partials   dB at k=1..4                \
    span    rail  railed   step rec/row   level   keep  irreg rec/eng  moved  loudest \
    rec/eng\n";

/// What is said of a key that nothing was fitted for.
pub open spec fn nothing_fitted_text(key: u8, layers: usize) -> Seq<char> {
    Seq::<char>::empty()
        + right_in(decimal(key as nat), 4)
        + "  "@
        + right_in(decimal(layers as nat), 6)
        + "  nothing fitted\n"@
}

/// What is said of a key that nothing was fitted for.
pub fn nothing_fitted(key: u8, layers: usize) -> (text: String)
    ensures
        text@ == nothing_fitted_text(key, layers),
{
    let mut out = String::new();
    push_right(&mut out, print(key as u64).as_str(), 4);
    out.append("  ");
    push_right(&mut out, print(layers as u64).as_str(), 6);
    out.append("  nothing fitted\n");
    out
}

/// What was fitted of a key's gains, as it is printed.
pub struct GainRow {
    pub key: u8,
    pub layers: usize,
    pub partials: usize,
    pub first: String,
    pub second: String,
    pub third: String,
    pub fourth: String,
    pub span: String,
    pub rail: String,
    pub railed: usize,
    pub step: String,
    pub step_written: String,
    pub level: String,
    pub keep: String,
    pub target: String,
    pub rendered: String,
    pub moved: String,
    pub loudest: u32,
    pub loudest_rendered: u32,
}

/// A row of the gains.
pub open spec fn gain_row_text(r: GainRow) -> Seq<char> {
    Seq::<char>::empty()
        + right_in(decimal(r.key as nat), 4)
        + "  "@
        + right_in(decimal(r.layers as nat), 6)
        + "  "@
        + right_in(decimal(r.partials as nat), 8)
        + "   "@
        + right_in(r.first@, 6)
        + " "@
        + right_in(r.second@, 6)
        + " "@
        + right_in(r.third@, 6)
        + " "@
        + right_in(r.fourth@, 6)
        + "   "@
        + right_in(r.span@, 6)
        + "  "@
        + right_in(r.rail@, 6)
        + " "@
        + right_in(decimal(r.railed as nat), 4)
        + "   "@
        + right_in(r.step@, 5)
        + "/"@
        + left_in(r.step_written@, 5)
        + "  "@
        + right_in(r.level@, 6)
        + "   "@
        + right_in(r.keep@, 4)
        + "  "@
        + right_in(r.target@, 5)
        + "/"@
        + left_in(r.rendered@, 5)
        + "  "@
        + right_in(r.moved@, 5)
        + "  "@
        + decimal(r.loudest as nat)
        + " / "@
        + decimal(r.loudest_rendered as nat)
        + "\n"@
}

/// A row of the gains.
pub fn gain_row(r: &GainRow) -> (text: String)
    ensures
        text@ == gain_row_text(*r),
{
    let mut out = String::new();
    push_right(&mut out, print(r.key as u64).as_str(), 4);
    out.append("  ");
    push_right(&mut out, print(r.layers as u64).as_str(), 6);
    out.append("  ");
    push_right(&mut out, print(r.partials as u64).as_str(), 8);
    out.append("   ");
    push_right(&mut out, r.first.as_str(), 6);
    out.append(" ");
    push_right(&mut out, r.second.as_str(), 6);
    out.append(" ");
    push_right(&mut out, r.third.as_str(), 6);
    out.append(" ");
    push_right(&mut out, r.fourth.as_str(), 6);
    out.append("   ");
    push_right(&mut out, r.span.as_str(), 6);
    out.append("  ");
    push_right(&mut out, r.rail.as_str(), 6);
    out.append(" ");
    push_right(&mut out, print(r.railed as u64).as_str(), 4);
    out.append("   ");
    push_right(&mut out, r.step.as_str(), 5);
    out.append("/");
    push_left(&mut out, r.step_written.as_str(), 5);
    out.append("  ");
    push_right(&mut out, r.level.as_str(), 6);
    out.append("   ");
    push_right(&mut out, r.keep.as_str(), 4);
    out.append("  ");
    push_right(&mut out, r.target.as_str(), 5);
    out.append("/");
    push_left(&mut out, r.rendered.as_str(), 5);
    out.append("  ");
    push_right(&mut out, r.moved.as_str(), 5);
    out.append("  ");
    out.append(print(r.loudest as u64).as_str());
    out.append(" / ");
    out.append(print(r.loudest_rendered as u64).as_str());
    out.append("\n");
    out
}

pub const ACCEPTANCE_0: &'static str = "acceptance: the engine's loudest partial matches the recording's at ";

/// At how many keys the loudest partial is the recording's.
pub open spec fn acceptance_text(agreed: usize, checked: usize) -> Seq<char> {
    ACCEPTANCE_0@
        + decimal(agreed as nat)
        + " of "@
        + decimal(checked as nat)
        + " keys\n"@
}

/// At how many keys the loudest partial is the recording's.
pub fn acceptance(agreed: usize, checked: usize) -> (text: String)
    ensures
        text@ == acceptance_text(agreed, checked),
{
    let mut out = String::from_str(ACCEPTANCE_0);
    out.append(print(agreed as u64).as_str());
    out.append(" of ");
    out.append(print(checked as u64).as_str());
    out.append(" keys\n");
    out
}

/// What was written.
pub open spec fn wrote_text(path: Seq<char>) -> Seq<char> {
    "\nwrote "@
        + path
        + "\n"@
}

/// What was written.
pub fn wrote(path: &str) -> (text: String)
    ensures
        text@ == wrote_text(path@),
{
    let mut out = String::from_str("\nwrote ");
    out.append(path);
    out.append("\n");
    out
}

/// What is said where nothing was written.
pub const NOTHING_WRITTEN: &'static str = "\nnothing written (pass --out <file>)\n";

/// The head of the drawn keys.
pub const SYNTHESIZED: &'static str = "\n== notes.partial_gains / notes.false_beat, synthesized ==\n";

/// What is said where the measured keys are drawn over.
pub open spec fn over_measured_text(keys: usize) -> Seq<char> {
    "CONTROL: drawing over the "@
        + decimal(keys as nat)
        + " measured keys\n"@
}

/// What is said where the measured keys are drawn over.
pub fn over_measured(keys: usize) -> (text: String)
    ensures
        text@ == over_measured_text(keys),
{
    let mut out = String::from_str("CONTROL: drawing over the ");
    out.append(print(keys as u64).as_str());
    out.append(" measured keys\n");
    out
}

/// The head of the drawn rows.
pub const DRAWN: &'static str = "\n key  cells  amount drawn/written  rail railed   level   keep  irreg \
    target/rendered  moved   splits (k: hz / dB)\n";

/// A drawn split that is kept.
pub open spec fn kept_split_text(k: u16, hz: Seq<char>, db: Seq<char>, rendered: Seq<char>, ceiling: Seq<char>) -> Seq<char> {
    decimal(k as nat)
        + ": "@
        + hz
        + "/"@
        + db
        + " <= "@
        + rendered
        + " ("@
        + ceiling
        + ")"@
}

/// A drawn split that is kept.
pub fn kept_split(k: u16, hz: &str, db: &str, rendered: &str, ceiling: &str) -> (text: String)
    ensures
        text@ == kept_split_text(k, hz@, db@, rendered@, ceiling@),
{
    let mut out = String::from_str(print(k as u64).as_str());
    out.append(": ");
    out.append(hz);
    out.append("/");
    out.append(db);
    out.append(" <= ");
    out.append(rendered);
    out.append(" (");
    out.append(ceiling);
    out.append(")");
    out
}

/// A drawn split that is refused.
pub open spec fn refused_split_text(k: u16, depth: Seq<char>, ceiling: Seq<char>) -> Seq<char> {
    decimal(k as nat)
        + ": refused ("@
        + depth
        + " > "@
        + ceiling
        + ")"@
}

/// A drawn split that is refused.
pub fn refused_split(k: u16, depth: &str, ceiling: &str) -> (text: String)
    ensures
        text@ == refused_split_text(k, depth@, ceiling@),
{
    let mut out = String::from_str(print(k as u64).as_str());
    out.append(": refused (");
    out.append(depth);
    out.append(" > ");
    out.append(ceiling);
    out.append(")");
    out
}

/// That a row was refused.
pub open spec fn refused_text(reached: bool) -> Seq<char> {
    if reached {
        ""@
    } else {
        "REFUSED  "@
    }
}

/// That a row was refused.
pub fn refused(reached: bool) -> (r: &'static str)
    ensures
        r@ == refused_text(reached),
{
    if reached {
        ""
    } else {
        "REFUSED  "
    }
}

/// What was drawn for a key, as it is printed.
pub struct DrawnRow {
    pub key: u8,
    pub cells: usize,
    pub amount: String,
    pub written: String,
    pub rail: String,
    pub railed: usize,
    pub moved: String,
    pub keep: String,
    pub target: String,
    pub rendered: String,
    pub reached: bool,
    pub splits: Vec<String>,
}

/// A row of the drawn keys.
pub open spec fn drawn_row_text(r: DrawnRow) -> Seq<char> {
    Seq::<char>::empty()
        + right_in(decimal(r.key as nat), 4)
        + "  "@
        + right_in(decimal(r.cells as nat), 5)
        + "  "@
        + right_in(r.amount@, 6)
        + "/"@
        + left_in(r.written@, 6)
        + "  "@
        + right_in(r.rail@, 5)
        + " "@
        + right_in(decimal(r.railed as nat), 5)
        + "  "@
        + right_in(r.moved@, 6)
        + "  "@
        + right_in(r.keep@, 4)
        + "  "@
        + right_in(r.target@, 5)
        + "/"@
        + left_in(r.rendered@, 5)
        + "  "@
        + right_in(r.moved@, 5)
        + "  "@
        + refused_text(r.reached)
        + joined(views(r.splits@), "  "@)
        + "\n"@
}

/// A row of the drawn keys.
pub fn drawn_row(r: &DrawnRow) -> (text: String)
    ensures
        text@ == drawn_row_text(*r),
{
    let mut out = String::new();
    push_right(&mut out, print(r.key as u64).as_str(), 4);
    out.append("  ");
    push_right(&mut out, print(r.cells as u64).as_str(), 5);
    out.append("  ");
    push_right(&mut out, r.amount.as_str(), 6);
    out.append("/");
    push_left(&mut out, r.written.as_str(), 6);
    out.append("  ");
    push_right(&mut out, r.rail.as_str(), 5);
    out.append(" ");
    push_right(&mut out, print(r.railed as u64).as_str(), 5);
    out.append("  ");
    push_right(&mut out, r.moved.as_str(), 6);
    out.append("  ");
    push_right(&mut out, r.keep.as_str(), 4);
    out.append("  ");
    push_right(&mut out, r.target.as_str(), 5);
    out.append("/");
    push_left(&mut out, r.rendered.as_str(), 5);
    out.append("  ");
    push_right(&mut out, r.moved.as_str(), 5);
    out.append("  ");
    out.append(refused(r.reached));
    out.append(join(&r.splits, "  ").as_str());
    out.append("\n");
    out
}

/// Each number of `heading` stands in its place among the words.
#[verifier::rlimit(30)]
pub proof fn the_words_of_heading_stand_in_order(keys: usize, sfz: Seq<char>, preset: Seq<char>)
    requires
        is_word(sfz),
        is_word(preset),
    ensures
        words_of(heading_text(keys, sfz, preset)).len() == 6,
        words_of(heading_text(keys, sfz, preset))[0] == decimal(keys as nat),
        words_of(heading_text(keys, sfz, preset))[3] == sfz + ","@,
        words_of(heading_text(keys, sfz, preset))[5] == preset,
{
    reveal_strlit(" keys from ");
    reveal_strlit(" ");
    reveal_strlit("keys");
    reveal_strlit("from");
    reveal_strlit(", preset ");
    reveal_strlit(",");
    reveal_strlit("preset");
    reveal_strlit("\n");
    a_number_is_a_word(keys as nat);
    a_word_begins(Seq::<char>::empty(), decimal(keys as nat));
    let p0 = decimal(keys as nat);
    assert(Seq::<char>::empty() + decimal(keys as nat) =~= p0);
    a_gap_adds_nothing(p0, " "@);
    a_word_begins(p0 + " "@, "keys"@);
    a_gap_adds_nothing(p0 + " "@ + "keys"@, " "@);
    a_word_begins(p0 + " "@ + "keys"@ + " "@, "from"@);
    a_gap_adds_nothing(p0 + " "@ + "keys"@ + " "@ + "from"@, " "@);
    let p1 = p0 + " keys from "@;
    assert(p1 =~= p0 + " "@ + "keys"@ + " "@ + "from"@ + " "@);
    a_word_begins(p1, sfz);
    let p2 = p1 + sfz;
    a_word_goes_on(p2, ","@);
    a_gap_adds_nothing(p2 + ","@, " "@);
    a_word_begins(p2 + ","@ + " "@, "preset"@);
    a_gap_adds_nothing(p2 + ","@ + " "@ + "preset"@, " "@);
    let p3 = p2 + ", preset "@;
    assert(p3 =~= p2 + ","@ + " "@ + "preset"@ + " "@);
    a_word_begins(p3, preset);
    let p4 = p3 + preset;
    a_gap_adds_nothing(p4, "\n"@);
    let p5 = p4 + "\n"@;
    assert(heading_text(keys, sfz, preset) == p5);
}

/// Each number of `split` stands in its place among the words.
#[verifier::rlimit(30)]
pub proof fn the_words_of_split_stand_in_order(k: u16, hz: Seq<char>, db: Seq<char>)
    requires
        is_word(hz),
        is_word(db),
    ensures
        words_of(split_text(k, hz, db)).len() == 4,
        words_of(split_text(k, hz, db))[0] == decimal(k as nat) + ":"@,
        words_of(split_text(k, hz, db))[1] == hz,
        words_of(split_text(k, hz, db))[3] == db,
{
    reveal_strlit(": ");
    reveal_strlit(":");
    reveal_strlit(" ");
    reveal_strlit(" / ");
    reveal_strlit("/");
    a_number_is_a_word(k as nat);
    a_word_begins(Seq::<char>::empty(), decimal(k as nat));
    let p0 = decimal(k as nat);
    assert(Seq::<char>::empty() + decimal(k as nat) =~= p0);
    a_word_goes_on(p0, ":"@);
    a_gap_adds_nothing(p0 + ":"@, " "@);
    let p1 = p0 + ": "@;
    assert(p1 =~= p0 + ":"@ + " "@);
    a_word_begins(p1, hz);
    let p2 = p1 + hz;
    a_gap_adds_nothing(p2, " "@);
    a_word_begins(p2 + " "@, "/"@);
    a_gap_adds_nothing(p2 + " "@ + "/"@, " "@);
    let p3 = p2 + " / "@;
    assert(p3 =~= p2 + " "@ + "/"@ + " "@);
    a_word_begins(p3, db);
    let p4 = p3 + db;
    assert(split_text(k, hz, db) == p4);
}

/// Each number of `regression_line` stands in its place among the words.
#[verifier::rlimit(30)]
pub proof fn the_words_of_regression_line_stand_in_order(r: Regression)
    requires
        is_word(r.slope@),
        is_word(r.correlation@),
        is_word(r.residual@),
        is_word(r.cell_slope@),
        is_word(r.cell_range@),
    ensures
        words_of(regression_line_text(r)).len() == 21,
        words_of(regression_line_text(r))[0] == decimal(r.cells as nat),
        words_of(regression_line_text(r))[3] == decimal(r.groups as nat),
        words_of(regression_line_text(r))[7] == r.slope@,
        words_of(regression_line_text(r))[10] == r.correlation@ + ","@,
        words_of(regression_line_text(r))[12] == r.residual@,
        words_of(regression_line_text(r))[17] == r.cell_slope@,
        words_of(regression_line_text(r))[20] == r.cell_range@ + ")"@,
{
    reveal_strlit(" readings over ");
    reveal_strlit(" ");
    reveal_strlit("readings");
    reveal_strlit("over");
    reveal_strlit(" cells: within-cell slope ");
    reveal_strlit("cells:");
    reveal_strlit("within-cell");
    reveal_strlit("slope");
    reveal_strlit(" dB (r ");
    reveal_strlit("dB");
    reveal_strlit("(r");
    reveal_strlit(", residual ");
    reveal_strlit(",");
    reveal_strlit("residual");
    reveal_strlit(" dB), median per-cell slope ");
    reveal_strlit("dB),");
    reveal_strlit("median");
    reveal_strlit("per-cell");
    reveal_strlit(" dB (IQR ");
    reveal_strlit("(IQR");
    reveal_strlit(")\n");
    reveal_strlit(")");
    reveal_strlit("\n");
    a_number_is_a_word(r.cells as nat);
    a_number_is_a_word(r.groups as nat);
    a_word_begins(Seq::<char>::empty(), decimal(r.cells as nat));
    let p0 = decimal(r.cells as nat);
    assert(Seq::<char>::empty() + decimal(r.cells as nat) =~= p0);
    a_gap_adds_nothing(p0, " "@);
    a_word_begins(p0 + " "@, "readings"@);
    a_gap_adds_nothing(p0 + " "@ + "readings"@, " "@);
    a_word_begins(p0 + " "@ + "readings"@ + " "@, "over"@);
    a_gap_adds_nothing(p0 + " "@ + "readings"@ + " "@ + "over"@, " "@);
    let p1 = p0 + " readings over "@;
    assert(p1 =~= p0 + " "@ + "readings"@ + " "@ + "over"@ + " "@);
    a_word_begins(p1, decimal(r.groups as nat));
    let p2 = p1 + decimal(r.groups as nat);
    a_gap_adds_nothing(p2, " "@);
    a_word_begins(p2 + " "@, "cells:"@);
    a_gap_adds_nothing(p2 + " "@ + "cells:"@, " "@);
    a_word_begins(p2 + " "@ + "cells:"@ + " "@, "within-cell"@);
    a_gap_adds_nothing(p2 + " "@ + "cells:"@ + " "@ + "within-cell"@, " "@);
    a_word_begins(p2 + " "@ + "cells:"@ + " "@ + "within-cell"@ + " "@, "slope"@);
    a_gap_adds_nothing(p2 + " "@ + "cells:"@ + " "@ + "within-cell"@ + " "@ + "slope"@, " "@);
    let p3 = p2 + " cells: within-cell slope "@;
    assert(p3 =~= p2 + " "@ + "cells:"@ + " "@ + "within-cell"@ + " "@ + "slope"@ + " "@);
    a_word_begins(p3, r.slope@);
    let p4 = p3 + r.slope@;
    a_gap_adds_nothing(p4, " "@);
    a_word_begins(p4 + " "@, "dB"@);
    a_gap_adds_nothing(p4 + " "@ + "dB"@, " "@);
    a_word_begins(p4 + " "@ + "dB"@ + " "@, "(r"@);
    a_gap_adds_nothing(p4 + " "@ + "dB"@ + " "@ + "(r"@, " "@);
    let p5 = p4 + " dB (r "@;
    assert(p5 =~= p4 + " "@ + "dB"@ + " "@ + "(r"@ + " "@);
    a_word_begins(p5, r.correlation@);
    let p6 = p5 + r.correlation@;
    a_word_goes_on(p6, ","@);
    a_gap_adds_nothing(p6 + ","@, " "@);
    a_word_begins(p6 + ","@ + " "@, "residual"@);
    a_gap_adds_nothing(p6 + ","@ + " "@ + "residual"@, " "@);
    let p7 = p6 + ", residual "@;
    assert(p7 =~= p6 + ","@ + " "@ + "residual"@ + " "@);
    a_word_begins(p7, r.residual@);
    let p8 = p7 + r.residual@;
    a_gap_adds_nothing(p8, " "@);
    a_word_begins(p8 + " "@, "dB),"@);
    a_gap_adds_nothing(p8 + " "@ + "dB),"@, " "@);
    a_word_begins(p8 + " "@ + "dB),"@ + " "@, "median"@);
    a_gap_adds_nothing(p8 + " "@ + "dB),"@ + " "@ + "median"@, " "@);
    a_word_begins(p8 + " "@ + "dB),"@ + " "@ + "median"@ + " "@, "per-cell"@);
    a_gap_adds_nothing(p8 + " "@ + "dB),"@ + " "@ + "median"@ + " "@ + "per-cell"@, " "@);
    a_word_begins(p8 + " "@ + "dB),"@ + " "@ + "median"@ + " "@ + "per-cell"@ + " "@, "slope"@);
    a_gap_adds_nothing(p8 + " "@ + "dB),"@ + " "@ + "median"@ + " "@ + "per-cell"@ + " "@ + "slope"@, " "@);
    let p9 = p8 + " dB), median per-cell slope "@;
    assert(p9 =~= p8 + " "@ + "dB),"@ + " "@ + "median"@ + " "@ + "per-cell"@ + " "@ + "slope"@ + " "@);
    a_word_begins(p9, r.cell_slope@);
    let p10 = p9 + r.cell_slope@;
    a_gap_adds_nothing(p10, " "@);
    a_word_begins(p10 + " "@, "dB"@);
    a_gap_adds_nothing(p10 + " "@ + "dB"@, " "@);
    a_word_begins(p10 + " "@ + "dB"@ + " "@, "(IQR"@);
    a_gap_adds_nothing(p10 + " "@ + "dB"@ + " "@ + "(IQR"@, " "@);
    let p11 = p10 + " dB (IQR "@;
    assert(p11 =~= p10 + " "@ + "dB"@ + " "@ + "(IQR"@ + " "@);
    a_word_begins(p11, r.cell_range@);
    let p12 = p11 + r.cell_range@;
    a_word_goes_on(p12, ")"@);
    a_gap_adds_nothing(p12 + ")"@, "\n"@);
    let p13 = p12 + ")\n"@;
    assert(p13 =~= p12 + ")"@ + "\n"@);
    assert(regression_line_text(r) == p13);
}

/// Each number of `target_line` stands in its place among the words.
#[verifier::rlimit(30)]
pub proof fn the_words_of_target_line_stand_in_order(velocities: Seq<char>, depth: Seq<char>, cents: Seq<char>, keys: usize, partials: u32)
    requires
        is_word(velocities),
        is_word(depth),
        is_word(cents),
    ensures
        words_of(target_line_text(velocities, depth, cents, keys, partials)).len() == 39,
        words_of(target_line_text(velocities, depth, cents, keys, partials))[8] == velocities,
        words_of(target_line_text(velocities, depth, cents, keys, partials))[10] == depth,
        words_of(target_line_text(velocities, depth, cents, keys, partials))[16] == cents,
        words_of(target_line_text(velocities, depth, cents, keys, partials))[21] == decimal(keys as nat),
        words_of(target_line_text(velocities, depth, cents, keys, partials))[24] == decimal(partials as nat),
{
    reveal_strlit("target: the recording's mean per-cell spread over velocities ");
    reveal_strlit("target:");
    reveal_strlit(" ");
    reveal_strlit("the");
    reveal_strlit("recording's");
    reveal_strlit("mean");
    reveal_strlit("per-cell");
    reveal_strlit("spread");
    reveal_strlit("over");
    reveal_strlit("velocities");
    reveal_strlit(" is ");
    reveal_strlit("is");
    reveal_strlit(" dB of beat depth and ");
    reveal_strlit("dB");
    reveal_strlit("of");
    reveal_strlit("beat");
    reveal_strlit("depth");
    reveal_strlit("and");
    reveal_strlit(" cents of frequency, over ");
    reveal_strlit("cents");
    reveal_strlit("frequency,");
    reveal_strlit(" keys x ");
    reveal_strlit("keys");
    reveal_strlit("x");
    reveal_strlit(" partials — Column B2's own denominator, and the fit is for B2 = 1\n");
    reveal_strlit("partials");
    reveal_strlit("—");
    reveal_strlit("Column");
    reveal_strlit("B2's");
    reveal_strlit("own");
    reveal_strlit("denominator,");
    reveal_strlit("fit");
    reveal_strlit("for");
    reveal_strlit("B2");
    reveal_strlit("=");
    reveal_strlit("1");
    reveal_strlit("\n");
    a_number_is_a_word(keys as nat);
    a_number_is_a_word(partials as nat);
    let p0 = TARGET_LINE_0@;
    a_word_begins(Seq::<char>::empty(), "target:"@);
    a_gap_adds_nothing(Seq::<char>::empty() + "target:"@, " "@);
    a_word_begins(Seq::<char>::empty() + "target:"@ + " "@, "the"@);
    a_gap_adds_nothing(Seq::<char>::empty() + "target:"@ + " "@ + "the"@, " "@);
    a_word_begins(Seq::<char>::empty() + "target:"@ + " "@ + "the"@ + " "@, "recording's"@);
    a_gap_adds_nothing(Seq::<char>::empty() + "target:"@ + " "@ + "the"@ + " "@ + "recording's"@, " "@);
    a_word_begins(Seq::<char>::empty() + "target:"@ + " "@ + "the"@ + " "@ + "recording's"@ + " "@, "mean"@);
    a_gap_adds_nothing(Seq::<char>::empty() + "target:"@ + " "@ + "the"@ + " "@ + "recording's"@ + " "@ + "mean"@, " "@);
    a_word_begins(Seq::<char>::empty() + "target:"@ + " "@ + "the"@ + " "@ + "recording's"@ + " "@ + "mean"@ + " "@, "per-cell"@);
    a_gap_adds_nothing(Seq::<char>::empty() + "target:"@ + " "@ + "the"@ + " "@ + "recording's"@ + " "@ + "mean"@ + " "@ + "per-cell"@, " "@);
    a_word_begins(Seq::<char>::empty() + "target:"@ + " "@ + "the"@ + " "@ + "recording's"@ + " "@ + "mean"@ + " "@ + "per-cell"@ + " "@, "spread"@);
    a_gap_adds_nothing(Seq::<char>::empty() + "target:"@ + " "@ + "the"@ + " "@ + "recording's"@ + " "@ + "mean"@ + " "@ + "per-cell"@ + " "@ + "spread"@, " "@);
    a_word_begins(Seq::<char>::empty() + "target:"@ + " "@ + "the"@ + " "@ + "recording's"@ + " "@ + "mean"@ + " "@ + "per-cell"@ + " "@ + "spread"@ + " "@, "over"@);
    a_gap_adds_nothing(Seq::<char>::empty() + "target:"@ + " "@ + "the"@ + " "@ + "recording's"@ + " "@ + "mean"@ + " "@ + "per-cell"@ + " "@ + "spread"@ + " "@ + "over"@, " "@);
    a_word_begins(Seq::<char>::empty() + "target:"@ + " "@ + "the"@ + " "@ + "recording's"@ + " "@ + "mean"@ + " "@ + "per-cell"@ + " "@ + "spread"@ + " "@ + "over"@ + " "@, "velocities"@);
    a_gap_adds_nothing(Seq::<char>::empty() + "target:"@ + " "@ + "the"@ + " "@ + "recording's"@ + " "@ + "mean"@ + " "@ + "per-cell"@ + " "@ + "spread"@ + " "@ + "over"@ + " "@ + "velocities"@, " "@);
    assert(p0 =~= Seq::<char>::empty() + "target:"@ + " "@ + "the"@ + " "@ + "recording's"@ + " "@ + "mean"@ + " "@ + "per-cell"@ + " "@ + "spread"@ + " "@ + "over"@ + " "@ + "velocities"@ + " "@);
    a_word_begins(p0, velocities);
    let p1 = p0 + velocities;
    a_gap_adds_nothing(p1, " "@);
    a_word_begins(p1 + " "@, "is"@);
    a_gap_adds_nothing(p1 + " "@ + "is"@, " "@);
    let p2 = p1 + " is "@;
    assert(p2 =~= p1 + " "@ + "is"@ + " "@);
    a_word_begins(p2, depth);
    let p3 = p2 + depth;
    a_gap_adds_nothing(p3, " "@);
    a_word_begins(p3 + " "@, "dB"@);
    a_gap_adds_nothing(p3 + " "@ + "dB"@, " "@);
    a_word_begins(p3 + " "@ + "dB"@ + " "@, "of"@);
    a_gap_adds_nothing(p3 + " "@ + "dB"@ + " "@ + "of"@, " "@);
    a_word_begins(p3 + " "@ + "dB"@ + " "@ + "of"@ + " "@, "beat"@);
    a_gap_adds_nothing(p3 + " "@ + "dB"@ + " "@ + "of"@ + " "@ + "beat"@, " "@);
    a_word_begins(p3 + " "@ + "dB"@ + " "@ + "of"@ + " "@ + "beat"@ + " "@, "depth"@);
    a_gap_adds_nothing(p3 + " "@ + "dB"@ + " "@ + "of"@ + " "@ + "beat"@ + " "@ + "depth"@, " "@);
    a_word_begins(p3 + " "@ + "dB"@ + " "@ + "of"@ + " "@ + "beat"@ + " "@ + "depth"@ + " "@, "and"@);
    a_gap_adds_nothing(p3 + " "@ + "dB"@ + " "@ + "of"@ + " "@ + "beat"@ + " "@ + "depth"@ + " "@ + "and"@, " "@);
    let p4 = p3 + " dB of beat depth and "@;
    assert(p4 =~= p3 + " "@ + "dB"@ + " "@ + "of"@ + " "@ + "beat"@ + " "@ + "depth"@ + " "@ + "and"@ + " "@);
    a_word_begins(p4, cents);
    let p5 = p4 + cents;
    a_gap_adds_nothing(p5, " "@);
    a_word_begins(p5 + " "@, "cents"@);
    a_gap_adds_nothing(p5 + " "@ + "cents"@, " "@);
    a_word_begins(p5 + " "@ + "cents"@ + " "@, "of"@);
    a_gap_adds_nothing(p5 + " "@ + "cents"@ + " "@ + "of"@, " "@);
    a_word_begins(p5 + " "@ + "cents"@ + " "@ + "of"@ + " "@, "frequency,"@);
    a_gap_adds_nothing(p5 + " "@ + "cents"@ + " "@ + "of"@ + " "@ + "frequency,"@, " "@);
    a_word_begins(p5 + " "@ + "cents"@ + " "@ + "of"@ + " "@ + "frequency,"@ + " "@, "over"@);
    a_gap_adds_nothing(p5 + " "@ + "cents"@ + " "@ + "of"@ + " "@ + "frequency,"@ + " "@ + "over"@, " "@);
    let p6 = p5 + " cents of frequency, over "@;
    assert(p6 =~= p5 + " "@ + "cents"@ + " "@ + "of"@ + " "@ + "frequency,"@ + " "@ + "over"@ + " "@);
    a_word_begins(p6, decimal(keys as nat));
    let p7 = p6 + decimal(keys as nat);
    a_gap_adds_nothing(p7, " "@);
    a_word_begins(p7 + " "@, "keys"@);
    a_gap_adds_nothing(p7 + " "@ + "keys"@, " "@);
    a_word_begins(p7 + " "@ + "keys"@ + " "@, "x"@);
    a_gap_adds_nothing(p7 + " "@ + "keys"@ + " "@ + "x"@, " "@);
    let p8 = p7 + " keys x "@;
    assert(p8 =~= p7 + " "@ + "keys"@ + " "@ + "x"@ + " "@);
    a_word_begins(p8, decimal(partials as nat));
    let p9 = p8 + decimal(partials as nat);
    a_gap_adds_nothing(p9, " "@);
    a_word_begins(p9 + " "@, "partials"@);
    a_gap_adds_nothing(p9 + " "@ + "partials"@, " "@);
    a_word_begins(p9 + " "@ + "partials"@ + " "@, "—"@);
    a_gap_adds_nothing(p9 + " "@ + "partials"@ + " "@ + "—"@, " "@);
    a_word_begins(p9 + " "@ + "partials"@ + " "@ + "—"@ + " "@, "Column"@);
    a_gap_adds_nothing(p9 + " "@ + "partials"@ + " "@ + "—"@ + " "@ + "Column"@, " "@);
    a_word_begins(p9 + " "@ + "partials"@ + " "@ + "—"@ + " "@ + "Column"@ + " "@, "B2's"@);
    a_gap_adds_nothing(p9 + " "@ + "partials"@ + " "@ + "—"@ + " "@ + "Column"@ + " "@ + "B2's"@, " "@);
    a_word_begins(p9 + " "@ + "partials"@ + " "@ + "—"@ + " "@ + "Column"@ + " "@ + "B2's"@ + " "@, "own"@);
    a_gap_adds_nothing(p9 + " "@ + "partials"@ + " "@ + "—"@ + " "@ + "Column"@ + " "@ + "B2's"@ + " "@ + "own"@, " "@);
    a_word_begins(p9 + " "@ + "partials"@ + " "@ + "—"@ + " "@ + "Column"@ + " "@ + "B2's"@ + " "@ + "own"@ + " "@, "denominator,"@);
    a_gap_adds_nothing(p9 + " "@ + "partials"@ + " "@ + "—"@ + " "@ + "Column"@ + " "@ + "B2's"@ + " "@ + "own"@ + " "@ + "denominator,"@, " "@);
    a_word_begins(p9 + " "@ + "partials"@ + " "@ + "—"@ + " "@ + "Column"@ + " "@ + "B2's"@ + " "@ + "own"@ + " "@ + "denominator,"@ + " "@, "and"@);
    a_gap_adds_nothing(p9 + " "@ + "partials"@ + " "@ + "—"@ + " "@ + "Column"@ + " "@ + "B2's"@ + " "@ + "own"@ + " "@ + "denominator,"@ + " "@ + "and"@, " "@);
    a_word_begins(p9 + " "@ + "partials"@ + " "@ + "—"@ + " "@ + "Column"@ + " "@ + "B2's"@ + " "@ + "own"@ + " "@ + "denominator,"@ + " "@ + "and"@ + " "@, "the"@);
    a_gap_adds_nothing(p9 + " "@ + "partials"@ + " "@ + "—"@ + " "@ + "Column"@ + " "@ + "B2's"@ + " "@ + "own"@ + " "@ + "denominator,"@ + " "@ + "and"@ + " "@ + "the"@, " "@);
    a_word_begins(p9 + " "@ + "partials"@ + " "@ + "—"@ + " "@ + "Column"@ + " "@ + "B2's"@ + " "@ + "own"@ + " "@ + "denominator,"@ + " "@ + "and"@ + " "@ + "the"@ + " "@, "fit"@);
    a_gap_adds_nothing(p9 + " "@ + "partials"@ + " "@ + "—"@ + " "@ + "Column"@ + " "@ + "B2's"@ + " "@ + "own"@ + " "@ + "denominator,"@ + " "@ + "and"@ + " "@ + "the"@ + " "@ + "fit"@, " "@);
    a_word_begins(p9 + " "@ + "partials"@ + " "@ + "—"@ + " "@ + "Column"@ + " "@ + "B2's"@ + " "@ + "own"@ + " "@ + "denominator,"@ + " "@ + "and"@ + " "@ + "the"@ + " "@ + "fit"@ + " "@, "is"@);
    a_gap_adds_nothing(p9 + " "@ + "partials"@ + " "@ + "—"@ + " "@ + "Column"@ + " "@ + "B2's"@ + " "@ + "own"@ + " "@ + "denominator,"@ + " "@ + "and"@ + " "@ + "the"@ + " "@ + "fit"@ + " "@ + "is"@, " "@);
    a_word_begins(p9 + " "@ + "partials"@ + " "@ + "—"@ + " "@ + "Column"@ + " "@ + "B2's"@ + " "@ + "own"@ + " "@ + "denominator,"@ + " "@ + "and"@ + " "@ + "the"@ + " "@ + "fit"@ + " "@ + "is"@ + " "@, "for"@);
    a_gap_adds_nothing(p9 + " "@ + "partials"@ + " "@ + "—"@ + " "@ + "Column"@ + " "@ + "B2's"@ + " "@ + "own"@ + " "@ + "denominator,"@ + " "@ + "and"@ + " "@ + "the"@ + " "@ + "fit"@ + " "@ + "is"@ + " "@ + "for"@, " "@);
    a_word_begins(p9 + " "@ + "partials"@ + " "@ + "—"@ + " "@ + "Column"@ + " "@ + "B2's"@ + " "@ + "own"@ + " "@ + "denominator,"@ + " "@ + "and"@ + " "@ + "the"@ + " "@ + "fit"@ + " "@ + "is"@ + " "@ + "for"@ + " "@, "B2"@);
    a_gap_adds_nothing(p9 + " "@ + "partials"@ + " "@ + "—"@ + " "@ + "Column"@ + " "@ + "B2's"@ + " "@ + "own"@ + " "@ + "denominator,"@ + " "@ + "and"@ + " "@ + "the"@ + " "@ + "fit"@ + " "@ + "is"@ + " "@ + "for"@ + " "@ + "B2"@, " "@);
    a_word_begins(p9 + " "@ + "partials"@ + " "@ + "—"@ + " "@ + "Column"@ + " "@ + "B2's"@ + " "@ + "own"@ + " "@ + "denominator,"@ + " "@ + "and"@ + " "@ + "the"@ + " "@ + "fit"@ + " "@ + "is"@ + " "@ + "for"@ + " "@ + "B2"@ + " "@, "="@);
    a_gap_adds_nothing(p9 + " "@ + "partials"@ + " "@ + "—"@ + " "@ + "Column"@ + " "@ + "B2's"@ + " "@ + "own"@ + " "@ + "denominator,"@ + " "@ + "and"@ + " "@ + "the"@ + " "@ + "fit"@ + " "@ + "is"@ + " "@ + "for"@ + " "@ + "B2"@ + " "@ + "="@, " "@);
    a_word_begins(p9 + " "@ + "partials"@ + " "@ + "—"@ + " "@ + "Column"@ + " "@ + "B2's"@ + " "@ + "own"@ + " "@ + "denominator,"@ + " "@ + "and"@ + " "@ + "the"@ + " "@ + "fit"@ + " "@ + "is"@ + " "@ + "for"@ + " "@ + "B2"@ + " "@ + "="@ + " "@, "1"@);
    a_gap_adds_nothing(p9 + " "@ + "partials"@ + " "@ + "—"@ + " "@ + "Column"@ + " "@ + "B2's"@ + " "@ + "own"@ + " "@ + "denominator,"@ + " "@ + "and"@ + " "@ + "the"@ + " "@ + "fit"@ + " "@ + "is"@ + " "@ + "for"@ + " "@ + "B2"@ + " "@ + "="@ + " "@ + "1"@, "\n"@);
    let p10 = p9 + TARGET_LINE_1@;
    assert(p10 =~= p9 + " "@ + "partials"@ + " "@ + "—"@ + " "@ + "Column"@ + " "@ + "B2's"@ + " "@ + "own"@ + " "@ + "denominator,"@ + " "@ + "and"@ + " "@ + "the"@ + " "@ + "fit"@ + " "@ + "is"@ + " "@ + "for"@ + " "@ + "B2"@ + " "@ + "="@ + " "@ + "1"@ + "\n"@);
    assert(target_line_text(velocities, depth, cents, keys, partials) == p10);
}

/// Each number of `swing_line` stands in its place among the words.
#[verifier::rlimit(30)]
pub proof fn the_words_of_swing_line_stand_in_order(swing: Seq<char>, depth: Seq<char>, cents: Seq<char>, coherence: Seq<char>)
    requires
        is_word(swing),
        is_word(depth),
        is_word(cents),
        is_word(coherence),
    ensures
        words_of(swing_line_text(swing, depth, cents, coherence)).len() == 12,
        words_of(swing_line_text(swing, depth, cents, coherence))[1] == swing,
        words_of(swing_line_text(swing, depth, cents, coherence))[5] == depth,
        words_of(swing_line_text(swing, depth, cents, coherence))[8] == cents,
        words_of(swing_line_text(swing, depth, cents, coherence))[11] == coherence,
{
    reveal_strlit("  swing ");
    reveal_strlit("  ");
    reveal_strlit("swing");
    reveal_strlit(" ");
    reveal_strlit(" dB -> spread ");
    reveal_strlit("dB");
    reveal_strlit("->");
    reveal_strlit("spread");
    reveal_strlit(" dB / ");
    reveal_strlit("/");
    reveal_strlit(" c, B2 ");
    reveal_strlit("c,");
    reveal_strlit("B2");
    reveal_strlit("\n");
    let p0 = "  swing "@;
    a_gap_adds_nothing(Seq::<char>::empty(), "  "@);
    a_word_begins(Seq::<char>::empty() + "  "@, "swing"@);
    a_gap_adds_nothing(Seq::<char>::empty() + "  "@ + "swing"@, " "@);
    assert(p0 =~= Seq::<char>::empty() + "  "@ + "swing"@ + " "@);
    a_right_word_begins(p0, swing, 5);
    let p1 = p0 + right_in(swing, 5);
    a_gap_adds_nothing(p1, " "@);
    a_word_begins(p1 + " "@, "dB"@);
    a_gap_adds_nothing(p1 + " "@ + "dB"@, " "@);
    a_word_begins(p1 + " "@ + "dB"@ + " "@, "->"@);
    a_gap_adds_nothing(p1 + " "@ + "dB"@ + " "@ + "->"@, " "@);
    a_word_begins(p1 + " "@ + "dB"@ + " "@ + "->"@ + " "@, "spread"@);
    a_gap_adds_nothing(p1 + " "@ + "dB"@ + " "@ + "->"@ + " "@ + "spread"@, " "@);
    let p2 = p1 + " dB -> spread "@;
    assert(p2 =~= p1 + " "@ + "dB"@ + " "@ + "->"@ + " "@ + "spread"@ + " "@);
    a_word_begins(p2, depth);
    let p3 = p2 + depth;
    a_gap_adds_nothing(p3, " "@);
    a_word_begins(p3 + " "@, "dB"@);
    a_gap_adds_nothing(p3 + " "@ + "dB"@, " "@);
    a_word_begins(p3 + " "@ + "dB"@ + " "@, "/"@);
    a_gap_adds_nothing(p3 + " "@ + "dB"@ + " "@ + "/"@, " "@);
    let p4 = p3 + " dB / "@;
    assert(p4 =~= p3 + " "@ + "dB"@ + " "@ + "/"@ + " "@);
    a_word_begins(p4, cents);
    let p5 = p4 + cents;
    a_gap_adds_nothing(p5, " "@);
    a_word_begins(p5 + " "@, "c,"@);
    a_gap_adds_nothing(p5 + " "@ + "c,"@, " "@);
    a_word_begins(p5 + " "@ + "c,"@ + " "@, "B2"@);
    a_gap_adds_nothing(p5 + " "@ + "c,"@ + " "@ + "B2"@, " "@);
    let p6 = p5 + " c, B2 "@;
    assert(p6 =~= p5 + " "@ + "c,"@ + " "@ + "B2"@ + " "@);
    a_word_begins(p6, coherence);
    let p7 = p6 + coherence;
    a_gap_adds_nothing(p7, "\n"@);
    let p8 = p7 + "\n"@;
    assert(swing_line_text(swing, depth, cents, coherence) == p8);
}

/// Each number of `swing_found` stands in its place among the words.
#[verifier::rlimit(30)]
pub proof fn the_words_of_swing_found_stand_in_order(swing: Seq<char>, soft: Seq<char>, loud: Seq<char>, tilt: Seq<char>)
    requires
        is_word(swing),
        is_word(soft),
        is_word(loud),
        is_word(tilt),
    ensures
        words_of(swing_found_text(swing, soft, loud, tilt)).len() == 10,
        words_of(swing_found_text(swing, soft, loud, tilt))[2] == swing,
        words_of(swing_found_text(swing, soft, loud, tilt))[5] == soft + ","@,
        words_of(swing_found_text(swing, soft, loud, tilt))[7] == loud + ","@,
        words_of(swing_found_text(swing, soft, loud, tilt))[9] == tilt,
{
    reveal_strlit("  -> swing ");
    reveal_strlit("  ");
    reveal_strlit("->");
    reveal_strlit(" ");
    reveal_strlit("swing");
    reveal_strlit(" dB: vh_db_at_pp ");
    reveal_strlit("dB:");
    reveal_strlit("vh_db_at_pp");
    reveal_strlit(", vh_db_at_ff ");
    reveal_strlit(",");
    reveal_strlit("vh_db_at_ff");
    reveal_strlit(", share_tilt ");
    reveal_strlit("share_tilt");
    reveal_strlit("\n");
    let p0 = "  -> swing "@;
    a_gap_adds_nothing(Seq::<char>::empty(), "  "@);
    a_word_begins(Seq::<char>::empty() + "  "@, "->"@);
    a_gap_adds_nothing(Seq::<char>::empty() + "  "@ + "->"@, " "@);
    a_word_begins(Seq::<char>::empty() + "  "@ + "->"@ + " "@, "swing"@);
    a_gap_adds_nothing(Seq::<char>::empty() + "  "@ + "->"@ + " "@ + "swing"@, " "@);
    assert(p0 =~= Seq::<char>::empty() + "  "@ + "->"@ + " "@ + "swing"@ + " "@);
    a_word_begins(p0, swing);
    let p1 = p0 + swing;
    a_gap_adds_nothing(p1, " "@);
    a_word_begins(p1 + " "@, "dB:"@);
    a_gap_adds_nothing(p1 + " "@ + "dB:"@, " "@);
    a_word_begins(p1 + " "@ + "dB:"@ + " "@, "vh_db_at_pp"@);
    a_gap_adds_nothing(p1 + " "@ + "dB:"@ + " "@ + "vh_db_at_pp"@, " "@);
    let p2 = p1 + " dB: vh_db_at_pp "@;
    assert(p2 =~= p1 + " "@ + "dB:"@ + " "@ + "vh_db_at_pp"@ + " "@);
    a_word_begins(p2, soft);
    let p3 = p2 + soft;
    a_word_goes_on(p3, ","@);
    a_gap_adds_nothing(p3 + ","@, " "@);
    a_word_begins(p3 + ","@ + " "@, "vh_db_at_ff"@);
    a_gap_adds_nothing(p3 + ","@ + " "@ + "vh_db_at_ff"@, " "@);
    let p4 = p3 + ", vh_db_at_ff "@;
    assert(p4 =~= p3 + ","@ + " "@ + "vh_db_at_ff"@ + " "@);
    a_word_begins(p4, loud);
    let p5 = p4 + loud;
    a_word_goes_on(p5, ","@);
    a_gap_adds_nothing(p5 + ","@, " "@);
    a_word_begins(p5 + ","@ + " "@, "share_tilt"@);
    a_gap_adds_nothing(p5 + ","@ + " "@ + "share_tilt"@, " "@);
    let p6 = p5 + ", share_tilt "@;
    assert(p6 =~= p5 + ","@ + " "@ + "share_tilt"@ + " "@);
    a_word_begins(p6, tilt);
    let p7 = p6 + tilt;
    a_gap_adds_nothing(p7, "\n"@);
    let p8 = p7 + "\n"@;
    assert(swing_found_text(swing, soft, loud, tilt) == p8);
}

/// Each number of `detune_heading` stands in its place among the words.
#[verifier::rlimit(30)]
pub proof fn the_words_of_detune_heading_stand_in_order(low: Seq<char>, high: Seq<char>)
    requires
        is_word(low),
        is_word(high),
    ensures
        words_of(detune_heading_text(low, high)).len() == 18,
        words_of(detune_heading_text(low, high))[9] == low + ".."@ + high,
{
    reveal_strlit("\n== notes.detune_cents ==\n key  strings  recorded s  rendered s ");
    reveal_strlit("\n");
    reveal_strlit("==");
    reveal_strlit(" ");
    reveal_strlit("notes.detune_cents");
    reveal_strlit("\n ");
    reveal_strlit("key");
    reveal_strlit("  ");
    reveal_strlit("strings");
    reveal_strlit("recorded");
    reveal_strlit("s");
    reveal_strlit("rendered");
    reveal_strlit("..");
    reveal_strlit(" c  identifiable  cents            aftersound dB: rec / engine\n");
    reveal_strlit("c");
    reveal_strlit("identifiable");
    reveal_strlit("cents");
    reveal_strlit("            ");
    reveal_strlit("aftersound");
    reveal_strlit("dB:");
    reveal_strlit("rec");
    reveal_strlit("/");
    reveal_strlit("engine");
    let p0 = DETUNE_HEADING_0@;
    a_gap_adds_nothing(Seq::<char>::empty(), "\n"@);
    a_word_begins(Seq::<char>::empty() + "\n"@, "=="@);
    a_gap_adds_nothing(Seq::<char>::empty() + "\n"@ + "=="@, " "@);
    a_word_begins(Seq::<char>::empty() + "\n"@ + "=="@ + " "@, "notes.detune_cents"@);
    a_gap_adds_nothing(Seq::<char>::empty() + "\n"@ + "=="@ + " "@ + "notes.detune_cents"@, " "@);
    a_word_begins(Seq::<char>::empty() + "\n"@ + "=="@ + " "@ + "notes.detune_cents"@ + " "@, "=="@);
    a_gap_adds_nothing(Seq::<char>::empty() + "\n"@ + "=="@ + " "@ + "notes.detune_cents"@ + " "@ + "=="@, "\n "@);
    a_word_begins(Seq::<char>::empty() + "\n"@ + "=="@ + " "@ + "notes.detune_cents"@ + " "@ + "=="@ + "\n "@, "key"@);
    a_gap_adds_nothing(Seq::<char>::empty() + "\n"@ + "=="@ + " "@ + "notes.detune_cents"@ + " "@ + "=="@ + "\n "@ + "key"@, "  "@);
    a_word_begins(Seq::<char>::empty() + "\n"@ + "=="@ + " "@ + "notes.detune_cents"@ + " "@ + "=="@ + "\n "@ + "key"@ + "  "@, "strings"@);
    a_gap_adds_nothing(Seq::<char>::empty() + "\n"@ + "=="@ + " "@ + "notes.detune_cents"@ + " "@ + "=="@ + "\n "@ + "key"@ + "  "@ + "strings"@, "  "@);
    a_word_begins(Seq::<char>::empty() + "\n"@ + "=="@ + " "@ + "notes.detune_cents"@ + " "@ + "=="@ + "\n "@ + "key"@ + "  "@ + "strings"@ + "  "@, "recorded"@);
    a_gap_adds_nothing(Seq::<char>::empty() + "\n"@ + "=="@ + " "@ + "notes.detune_cents"@ + " "@ + "=="@ + "\n "@ + "key"@ + "  "@ + "strings"@ + "  "@ + "recorded"@, " "@);
    a_word_begins(Seq::<char>::empty() + "\n"@ + "=="@ + " "@ + "notes.detune_cents"@ + " "@ + "=="@ + "\n "@ + "key"@ + "  "@ + "strings"@ + "  "@ + "recorded"@ + " "@, "s"@);
    a_gap_adds_nothing(Seq::<char>::empty() + "\n"@ + "=="@ + " "@ + "notes.detune_cents"@ + " "@ + "=="@ + "\n "@ + "key"@ + "  "@ + "strings"@ + "  "@ + "recorded"@ + " "@ + "s"@, "  "@);
    a_word_begins(Seq::<char>::empty() + "\n"@ + "=="@ + " "@ + "notes.detune_cents"@ + " "@ + "=="@ + "\n "@ + "key"@ + "  "@ + "strings"@ + "  "@ + "recorded"@ + " "@ + "s"@ + "  "@, "rendered"@);
    a_gap_adds_nothing(Seq::<char>::empty() + "\n"@ + "=="@ + " "@ + "notes.detune_cents"@ + " "@ + "=="@ + "\n "@ + "key"@ + "  "@ + "strings"@ + "  "@ + "recorded"@ + " "@ + "s"@ + "  "@ + "rendered"@, " "@);
    a_word_begins(Seq::<char>::empty() + "\n"@ + "=="@ + " "@ + "notes.detune_cents"@ + " "@ + "=="@ + "\n "@ + "key"@ + "  "@ + "strings"@ + "  "@ + "recorded"@ + " "@ + "s"@ + "  "@ + "rendered"@ + " "@, "s"@);
    a_gap_adds_nothing(Seq::<char>::empty() + "\n"@ + "=="@ + " "@ + "notes.detune_cents"@ + " "@ + "=="@ + "\n "@ + "key"@ + "  "@ + "strings"@ + "  "@ + "recorded"@ + " "@ + "s"@ + "  "@ + "rendered"@ + " "@ + "s"@, " "@);
    assert(p0 =~= Seq::<char>::empty() + "\n"@ + "=="@ + " "@ + "notes.detune_cents"@ + " "@ + "=="@ + "\n "@ + "key"@ + "  "@ + "strings"@ + "  "@ + "recorded"@ + " "@ + "s"@ + "  "@ + "rendered"@ + " "@ + "s"@ + " "@);
    a_word_begins(p0, low);
    let p1 = p0 + low;
    a_word_goes_on(p1, ".."@);
    let p2 = p1 + ".."@;
    a_word_goes_on(p2, high);
    let p3 = p2 + high;
    a_gap_adds_nothing(p3, " "@);
    a_word_begins(p3 + " "@, "c"@);
    a_gap_adds_nothing(p3 + " "@ + "c"@, "  "@);
    a_word_begins(p3 + " "@ + "c"@ + "  "@, "identifiable"@);
    a_gap_adds_nothing(p3 + " "@ + "c"@ + "  "@ + "identifiable"@, "  "@);
    a_word_begins(p3 + " "@ + "c"@ + "  "@ + "identifiable"@ + "  "@, "cents"@);
    a_gap_adds_nothing(p3 + " "@ + "c"@ + "  "@ + "identifiable"@ + "  "@ + "cents"@, "            "@);
    a_word_begins(p3 + " "@ + "c"@ + "  "@ + "identifiable"@ + "  "@ + "cents"@ + "            "@, "aftersound"@);
    a_gap_adds_nothing(p3 + " "@ + "c"@ + "  "@ + "identifiable"@ + "  "@ + "cents"@ + "            "@ + "aftersound"@, " "@);
    a_word_begins(p3 + " "@ + "c"@ + "  "@ + "identifiable"@ + "  "@ + "cents"@ + "            "@ + "aftersound"@ + " "@, "dB:"@);
    a_gap_adds_nothing(p3 + " "@ + "c"@ + "  "@ + "identifiable"@ + "  "@ + "cents"@ + "            "@ + "aftersound"@ + " "@ + "dB:"@, " "@);
    a_word_begins(p3 + " "@ + "c"@ + "  "@ + "identifiable"@ + "  "@ + "cents"@ + "            "@ + "aftersound"@ + " "@ + "dB:"@ + " "@, "rec"@);
    a_gap_adds_nothing(p3 + " "@ + "c"@ + "  "@ + "identifiable"@ + "  "@ + "cents"@ + "            "@ + "aftersound"@ + " "@ + "dB:"@ + " "@ + "rec"@, " "@);
    a_word_begins(p3 + " "@ + "c"@ + "  "@ + "identifiable"@ + "  "@ + "cents"@ + "            "@ + "aftersound"@ + " "@ + "dB:"@ + " "@ + "rec"@ + " "@, "/"@);
    a_gap_adds_nothing(p3 + " "@ + "c"@ + "  "@ + "identifiable"@ + "  "@ + "cents"@ + "            "@ + "aftersound"@ + " "@ + "dB:"@ + " "@ + "rec"@ + " "@ + "/"@, " "@);
    a_word_begins(p3 + " "@ + "c"@ + "  "@ + "identifiable"@ + "  "@ + "cents"@ + "            "@ + "aftersound"@ + " "@ + "dB:"@ + " "@ + "rec"@ + " "@ + "/"@ + " "@, "engine"@);
    a_gap_adds_nothing(p3 + " "@ + "c"@ + "  "@ + "identifiable"@ + "  "@ + "cents"@ + "            "@ + "aftersound"@ + " "@ + "dB:"@ + " "@ + "rec"@ + " "@ + "/"@ + " "@ + "engine"@, "\n"@);
    let p4 = p3 + DETUNE_HEADING_1@;
    assert(p4 =~= p3 + " "@ + "c"@ + "  "@ + "identifiable"@ + "  "@ + "cents"@ + "            "@ + "aftersound"@ + " "@ + "dB:"@ + " "@ + "rec"@ + " "@ + "/"@ + " "@ + "engine"@ + "\n"@);
    assert(detune_heading_text(low, high) == p4);
}

/// Each number of `nothing_fitted` stands in its place among the words.
#[verifier::rlimit(30)]
pub proof fn the_words_of_nothing_fitted_stand_in_order(key: u8, layers: usize)
    ensures
        words_of(nothing_fitted_text(key, layers)).len() == 4,
        words_of(nothing_fitted_text(key, layers))[0] == decimal(key as nat),
        words_of(nothing_fitted_text(key, layers))[1] == decimal(layers as nat),
{
    reveal_strlit("  ");
    reveal_strlit("  nothing fitted\n");
    reveal_strlit("nothing");
    reveal_strlit(" ");
    reveal_strlit("fitted");
    reveal_strlit("\n");
    a_number_is_a_word(key as nat);
    a_number_is_a_word(layers as nat);
    let p0 = Seq::<char>::empty();
    a_right_word_begins(p0, decimal(key as nat), 4);
    let p1 = p0 + right_in(decimal(key as nat), 4);
    a_gap_adds_nothing(p1, "  "@);
    let p2 = p1 + "  "@;
    a_right_word_begins(p2, decimal(layers as nat), 6);
    let p3 = p2 + right_in(decimal(layers as nat), 6);
    a_gap_adds_nothing(p3, "  "@);
    a_word_begins(p3 + "  "@, "nothing"@);
    a_gap_adds_nothing(p3 + "  "@ + "nothing"@, " "@);
    a_word_begins(p3 + "  "@ + "nothing"@ + " "@, "fitted"@);
    a_gap_adds_nothing(p3 + "  "@ + "nothing"@ + " "@ + "fitted"@, "\n"@);
    let p4 = p3 + "  nothing fitted\n"@;
    assert(p4 =~= p3 + "  "@ + "nothing"@ + " "@ + "fitted"@ + "\n"@);
    assert(nothing_fitted_text(key, layers) == p4);
}

/// Each number of `acceptance` stands in its place among the words.
#[verifier::rlimit(30)]
pub proof fn the_words_of_acceptance_stand_in_order(agreed: usize, checked: usize)
    ensures
        words_of(acceptance_text(agreed, checked)).len() == 13,
        words_of(acceptance_text(agreed, checked))[9] == decimal(agreed as nat),
        words_of(acceptance_text(agreed, checked))[11] == decimal(checked as nat),
{
    reveal_strlit("acceptance: the engine's loudest partial matches the recording's at ");
    reveal_strlit("acceptance:");
    reveal_strlit(" ");
    reveal_strlit("the");
    reveal_strlit("engine's");
    reveal_strlit("loudest");
    reveal_strlit("partial");
    reveal_strlit("matches");
    reveal_strlit("recording's");
    reveal_strlit("at");
    reveal_strlit(" of ");
    reveal_strlit("of");
    reveal_strlit(" keys\n");
    reveal_strlit("keys");
    reveal_strlit("\n");
    a_number_is_a_word(agreed as nat);
    a_number_is_a_word(checked as nat);
    let p0 = ACCEPTANCE_0@;
    a_word_begins(Seq::<char>::empty(), "acceptance:"@);
    a_gap_adds_nothing(Seq::<char>::empty() + "acceptance:"@, " "@);
    a_word_begins(Seq::<char>::empty() + "acceptance:"@ + " "@, "the"@);
    a_gap_adds_nothing(Seq::<char>::empty() + "acceptance:"@ + " "@ + "the"@, " "@);
    a_word_begins(Seq::<char>::empty() + "acceptance:"@ + " "@ + "the"@ + " "@, "engine's"@);
    a_gap_adds_nothing(Seq::<char>::empty() + "acceptance:"@ + " "@ + "the"@ + " "@ + "engine's"@, " "@);
    a_word_begins(Seq::<char>::empty() + "acceptance:"@ + " "@ + "the"@ + " "@ + "engine's"@ + " "@, "loudest"@);
    a_gap_adds_nothing(Seq::<char>::empty() + "acceptance:"@ + " "@ + "the"@ + " "@ + "engine's"@ + " "@ + "loudest"@, " "@);
    a_word_begins(Seq::<char>::empty() + "acceptance:"@ + " "@ + "the"@ + " "@ + "engine's"@ + " "@ + "loudest"@ + " "@, "partial"@);
    a_gap_adds_nothing(Seq::<char>::empty() + "acceptance:"@ + " "@ + "the"@ + " "@ + "engine's"@ + " "@ + "loudest"@ + " "@ + "partial"@, " "@);
    a_word_begins(Seq::<char>::empty() + "acceptance:"@ + " "@ + "the"@ + " "@ + "engine's"@ + " "@ + "loudest"@ + " "@ + "partial"@ + " "@, "matches"@);
    a_gap_adds_nothing(Seq::<char>::empty() + "acceptance:"@ + " "@ + "the"@ + " "@ + "engine's"@ + " "@ + "loudest"@ + " "@ + "partial"@ + " "@ + "matches"@, " "@);
    a_word_begins(Seq::<char>::empty() + "acceptance:"@ + " "@ + "the"@ + " "@ + "engine's"@ + " "@ + "loudest"@ + " "@ + "partial"@ + " "@ + "matches"@ + " "@, "the"@);
    a_gap_adds_nothing(Seq::<char>::empty() + "acceptance:"@ + " "@ + "the"@ + " "@ + "engine's"@ + " "@ + "loudest"@ + " "@ + "partial"@ + " "@ + "matches"@ + " "@ + "the"@, " "@);
    a_word_begins(Seq::<char>::empty() + "acceptance:"@ + " "@ + "the"@ + " "@ + "engine's"@ + " "@ + "loudest"@ + " "@ + "partial"@ + " "@ + "matches"@ + " "@ + "the"@ + " "@, "recording's"@);
    a_gap_adds_nothing(Seq::<char>::empty() + "acceptance:"@ + " "@ + "the"@ + " "@ + "engine's"@ + " "@ + "loudest"@ + " "@ + "partial"@ + " "@ + "matches"@ + " "@ + "the"@ + " "@ + "recording's"@, " "@);
    a_word_begins(Seq::<char>::empty() + "acceptance:"@ + " "@ + "the"@ + " "@ + "engine's"@ + " "@ + "loudest"@ + " "@ + "partial"@ + " "@ + "matches"@ + " "@ + "the"@ + " "@ + "recording's"@ + " "@, "at"@);
    a_gap_adds_nothing(Seq::<char>::empty() + "acceptance:"@ + " "@ + "the"@ + " "@ + "engine's"@ + " "@ + "loudest"@ + " "@ + "partial"@ + " "@ + "matches"@ + " "@ + "the"@ + " "@ + "recording's"@ + " "@ + "at"@, " "@);
    assert(p0 =~= Seq::<char>::empty() + "acceptance:"@ + " "@ + "the"@ + " "@ + "engine's"@ + " "@ + "loudest"@ + " "@ + "partial"@ + " "@ + "matches"@ + " "@ + "the"@ + " "@ + "recording's"@ + " "@ + "at"@ + " "@);
    a_word_begins(p0, decimal(agreed as nat));
    let p1 = p0 + decimal(agreed as nat);
    a_gap_adds_nothing(p1, " "@);
    a_word_begins(p1 + " "@, "of"@);
    a_gap_adds_nothing(p1 + " "@ + "of"@, " "@);
    let p2 = p1 + " of "@;
    assert(p2 =~= p1 + " "@ + "of"@ + " "@);
    a_word_begins(p2, decimal(checked as nat));
    let p3 = p2 + decimal(checked as nat);
    a_gap_adds_nothing(p3, " "@);
    a_word_begins(p3 + " "@, "keys"@);
    a_gap_adds_nothing(p3 + " "@ + "keys"@, "\n"@);
    let p4 = p3 + " keys\n"@;
    assert(p4 =~= p3 + " "@ + "keys"@ + "\n"@);
    assert(acceptance_text(agreed, checked) == p4);
}

/// Each number of `kept_split` stands in its place among the words.
#[verifier::rlimit(30)]
pub proof fn the_words_of_kept_split_stand_in_order(k: u16, hz: Seq<char>, db: Seq<char>, rendered: Seq<char>, ceiling: Seq<char>)
    requires
        is_word(hz),
        is_word(db),
        is_word(rendered),
        is_word(ceiling),
    ensures
        words_of(kept_split_text(k, hz, db, rendered, ceiling)).len() == 5,
        words_of(kept_split_text(k, hz, db, rendered, ceiling))[0] == decimal(k as nat) + ":"@,
        words_of(kept_split_text(k, hz, db, rendered, ceiling))[1] == hz + "/"@ + db,
        words_of(kept_split_text(k, hz, db, rendered, ceiling))[3] == rendered,
        words_of(kept_split_text(k, hz, db, rendered, ceiling))[4] == "("@ + ceiling + ")"@,
{
    reveal_strlit(": ");
    reveal_strlit(":");
    reveal_strlit(" ");
    reveal_strlit("/");
    reveal_strlit(" <= ");
    reveal_strlit("<=");
    reveal_strlit(" (");
    reveal_strlit("(");
    reveal_strlit(")");
    a_number_is_a_word(k as nat);
    a_word_begins(Seq::<char>::empty(), decimal(k as nat));
    let p0 = decimal(k as nat);
    assert(Seq::<char>::empty() + decimal(k as nat) =~= p0);
    a_word_goes_on(p0, ":"@);
    a_gap_adds_nothing(p0 + ":"@, " "@);
    let p1 = p0 + ": "@;
    assert(p1 =~= p0 + ":"@ + " "@);
    a_word_begins(p1, hz);
    let p2 = p1 + hz;
    a_word_goes_on(p2, "/"@);
    let p3 = p2 + "/"@;
    a_word_goes_on(p3, db);
    let p4 = p3 + db;
    a_gap_adds_nothing(p4, " "@);
    a_word_begins(p4 + " "@, "<="@);
    a_gap_adds_nothing(p4 + " "@ + "<="@, " "@);
    let p5 = p4 + " <= "@;
    assert(p5 =~= p4 + " "@ + "<="@ + " "@);
    a_word_begins(p5, rendered);
    let p6 = p5 + rendered;
    a_gap_adds_nothing(p6, " "@);
    a_word_begins(p6 + " "@, "("@);
    let p7 = p6 + " ("@;
    assert(p7 =~= p6 + " "@ + "("@);
    a_word_goes_on(p7, ceiling);
    let p8 = p7 + ceiling;
    a_word_goes_on(p8, ")"@);
    let p9 = p8 + ")"@;
    assert(kept_split_text(k, hz, db, rendered, ceiling) == p9);
}

/// Each number of `refused_split` stands in its place among the words.
#[verifier::rlimit(30)]
pub proof fn the_words_of_refused_split_stand_in_order(k: u16, depth: Seq<char>, ceiling: Seq<char>)
    requires
        is_word(depth),
        is_word(ceiling),
    ensures
        words_of(refused_split_text(k, depth, ceiling)).len() == 5,
        words_of(refused_split_text(k, depth, ceiling))[0] == decimal(k as nat) + ":"@,
        words_of(refused_split_text(k, depth, ceiling))[2] == "("@ + depth,
        words_of(refused_split_text(k, depth, ceiling))[4] == ceiling + ")"@,
{
    reveal_strlit(": refused (");
    reveal_strlit(":");
    reveal_strlit(" ");
    reveal_strlit("refused");
    reveal_strlit("(");
    reveal_strlit(" > ");
    reveal_strlit(">");
    reveal_strlit(")");
    a_number_is_a_word(k as nat);
    a_word_begins(Seq::<char>::empty(), decimal(k as nat));
    let p0 = decimal(k as nat);
    assert(Seq::<char>::empty() + decimal(k as nat) =~= p0);
    a_word_goes_on(p0, ":"@);
    a_gap_adds_nothing(p0 + ":"@, " "@);
    a_word_begins(p0 + ":"@ + " "@, "refused"@);
    a_gap_adds_nothing(p0 + ":"@ + " "@ + "refused"@, " "@);
    a_word_begins(p0 + ":"@ + " "@ + "refused"@ + " "@, "("@);
    let p1 = p0 + ": refused ("@;
    assert(p1 =~= p0 + ":"@ + " "@ + "refused"@ + " "@ + "("@);
    a_word_goes_on(p1, depth);
    let p2 = p1 + depth;
    a_gap_adds_nothing(p2, " "@);
    a_word_begins(p2 + " "@, ">"@);
    a_gap_adds_nothing(p2 + " "@ + ">"@, " "@);
    let p3 = p2 + " > "@;
    assert(p3 =~= p2 + " "@ + ">"@ + " "@);
    a_word_begins(p3, ceiling);
    let p4 = p3 + ceiling;
    a_word_goes_on(p4, ")"@);
    let p5 = p4 + ")"@;
    assert(refused_split_text(k, depth, ceiling) == p5);
}

/// Each number of `detune_row` stands in its place among the words.
#[verifier::rlimit(30)]
pub proof fn the_words_of_detune_row_stand_in_order(r: DetuneRow)
    requires
        is_word(r.target@),
        is_word(r.low@),
        is_word(r.high@),
        is_word(r.verdict@),
        is_word(r.was@),
        is_word(r.cents@),
        is_word(r.recorded@),
        is_word(r.before@),
        is_word(r.after@),
    ensures
        words_of(detune_row_text(r)).len() == 12,
        words_of(detune_row_text(r))[0] == decimal(r.key as nat),
        words_of(detune_row_text(r))[1] == decimal(r.strings as nat),
        words_of(detune_row_text(r))[2] == r.target@,
        words_of(detune_row_text(r))[3] == r.low@ + ".."@ + r.high@,
        words_of(detune_row_text(r))[4] == r.verdict@,
        words_of(detune_row_text(r))[5] == r.was@,
        words_of(detune_row_text(r))[7] == r.cents@,
        words_of(detune_row_text(r))[8] == r.recorded@ + ":"@,
        words_of(detune_row_text(r))[9] == r.before@,
        words_of(detune_row_text(r))[11] == r.after@,
{
    reveal_strlit("  ");
    reveal_strlit("..");
    reveal_strlit(" -> ");
    reveal_strlit(" ");
    reveal_strlit("->");
    reveal_strlit(": ");
    reveal_strlit(":");
    reveal_strlit("\n");
    a_number_is_a_word(r.key as nat);
    a_number_is_a_word(r.strings as nat);
    let p0 = Seq::<char>::empty();
    a_right_word_begins(p0, decimal(r.key as nat), 4);
    let p1 = p0 + right_in(decimal(r.key as nat), 4);
    a_gap_adds_nothing(p1, "  "@);
    let p2 = p1 + "  "@;
    a_right_word_begins(p2, decimal(r.strings as nat), 7);
    let p3 = p2 + right_in(decimal(r.strings as nat), 7);
    a_gap_adds_nothing(p3, "  "@);
    let p4 = p3 + "  "@;
    a_right_word_begins(p4, r.target@, 10);
    let p5 = p4 + right_in(r.target@, 10);
    a_gap_adds_nothing(p5, "  "@);
    let p6 = p5 + "  "@;
    a_right_word_begins(p6, r.low@, 10);
    let p7 = p6 + right_in(r.low@, 10);
    a_word_goes_on(p7, ".."@);
    let p8 = p7 + ".."@;
    a_left_word_goes_on(p8, r.high@, 9);
    let p9 = p8 + left_in(r.high@, 9);
    a_gap_adds_nothing(p9, "  "@);
    let p10 = p9 + "  "@;
    a_left_word_begins(p10, r.verdict@, 12);
    let p11 = p10 + left_in(r.verdict@, 12);
    a_gap_adds_nothing(p11, "  "@);
    let p12 = p11 + "  "@;
    a_right_word_begins(p12, r.was@, 5);
    let p13 = p12 + right_in(r.was@, 5);
    a_gap_adds_nothing(p13, " "@);
    a_word_begins(p13 + " "@, "->"@);
    a_gap_adds_nothing(p13 + " "@ + "->"@, " "@);
    let p14 = p13 + " -> "@;
    assert(p14 =~= p13 + " "@ + "->"@ + " "@);
    a_left_word_begins(p14, r.cents@, 5);
    let p15 = p14 + left_in(r.cents@, 5);
    a_gap_adds_nothing(p15, "  "@);
    let p16 = p15 + "  "@;
    a_right_word_begins(p16, r.recorded@, 7);
    let p17 = p16 + right_in(r.recorded@, 7);
    a_word_goes_on(p17, ":"@);
    a_gap_adds_nothing(p17 + ":"@, " "@);
    let p18 = p17 + ": "@;
    assert(p18 =~= p17 + ":"@ + " "@);
    a_word_begins(p18, r.before@);
    let p19 = p18 + r.before@;
    a_gap_adds_nothing(p19, " "@);
    a_word_begins(p19 + " "@, "->"@);
    a_gap_adds_nothing(p19 + " "@ + "->"@, " "@);
    let p20 = p19 + " -> "@;
    assert(p20 =~= p19 + " "@ + "->"@ + " "@);
    a_word_begins(p20, r.after@);
    let p21 = p20 + r.after@;
    a_gap_adds_nothing(p21, "\n"@);
    let p22 = p21 + "\n"@;
    assert(detune_row_text(r) == p22);
}

/// Each number of `gain_row` stands in its place among the words.
#[verifier::rlimit(30)]
pub proof fn the_words_of_gain_row_stand_in_order(r: GainRow)
    requires
        is_word(r.first@),
        is_word(r.second@),
        is_word(r.third@),
        is_word(r.fourth@),
        is_word(r.span@),
        is_word(r.rail@),
        is_word(r.step@),
        is_word(r.step_written@),
        is_word(r.level@),
        is_word(r.keep@),
        is_word(r.target@),
        is_word(r.rendered@),
        is_word(r.moved@),
    ensures
        words_of(gain_row_text(r)).len() == 18,
        words_of(gain_row_text(r))[0] == decimal(r.key as nat),
        words_of(gain_row_text(r))[1] == decimal(r.layers as nat),
        words_of(gain_row_text(r))[2] == decimal(r.partials as nat),
        words_of(gain_row_text(r))[3] == r.first@,
        words_of(gain_row_text(r))[4] == r.second@,
        words_of(gain_row_text(r))[5] == r.third@,
        words_of(gain_row_text(r))[6] == r.fourth@,
        words_of(gain_row_text(r))[7] == r.span@,
        words_of(gain_row_text(r))[8] == r.rail@,
        words_of(gain_row_text(r))[9] == decimal(r.railed as nat),
        words_of(gain_row_text(r))[10] == r.step@ + "/"@ + r.step_written@,
        words_of(gain_row_text(r))[11] == r.level@,
        words_of(gain_row_text(r))[12] == r.keep@,
        words_of(gain_row_text(r))[13] == r.target@ + "/"@ + r.rendered@,
        words_of(gain_row_text(r))[14] == r.moved@,
        words_of(gain_row_text(r))[15] == decimal(r.loudest as nat),
        words_of(gain_row_text(r))[17] == decimal(r.loudest_rendered as nat),
{
    reveal_strlit("  ");
    reveal_strlit("   ");
    reveal_strlit(" ");
    reveal_strlit("/");
    reveal_strlit(" / ");
    reveal_strlit("\n");
    a_number_is_a_word(r.key as nat);
    a_number_is_a_word(r.layers as nat);
    a_number_is_a_word(r.partials as nat);
    a_number_is_a_word(r.railed as nat);
    a_number_is_a_word(r.loudest as nat);
    a_number_is_a_word(r.loudest_rendered as nat);
    let p0 = Seq::<char>::empty();
    a_right_word_begins(p0, decimal(r.key as nat), 4);
    let p1 = p0 + right_in(decimal(r.key as nat), 4);
    a_gap_adds_nothing(p1, "  "@);
    let p2 = p1 + "  "@;
    a_right_word_begins(p2, decimal(r.layers as nat), 6);
    let p3 = p2 + right_in(decimal(r.layers as nat), 6);
    a_gap_adds_nothing(p3, "  "@);
    let p4 = p3 + "  "@;
    a_right_word_begins(p4, decimal(r.partials as nat), 8);
    let p5 = p4 + right_in(decimal(r.partials as nat), 8);
    a_gap_adds_nothing(p5, "   "@);
    let p6 = p5 + "   "@;
    a_right_word_begins(p6, r.first@, 6);
    let p7 = p6 + right_in(r.first@, 6);
    a_gap_adds_nothing(p7, " "@);
    let p8 = p7 + " "@;
    a_right_word_begins(p8, r.second@, 6);
    let p9 = p8 + right_in(r.second@, 6);
    a_gap_adds_nothing(p9, " "@);
    let p10 = p9 + " "@;
    a_right_word_begins(p10, r.third@, 6);
    let p11 = p10 + right_in(r.third@, 6);
    a_gap_adds_nothing(p11, " "@);
    let p12 = p11 + " "@;
    a_right_word_begins(p12, r.fourth@, 6);
    let p13 = p12 + right_in(r.fourth@, 6);
    a_gap_adds_nothing(p13, "   "@);
    let p14 = p13 + "   "@;
    a_right_word_begins(p14, r.span@, 6);
    let p15 = p14 + right_in(r.span@, 6);
    a_gap_adds_nothing(p15, "  "@);
    let p16 = p15 + "  "@;
    a_right_word_begins(p16, r.rail@, 6);
    let p17 = p16 + right_in(r.rail@, 6);
    a_gap_adds_nothing(p17, " "@);
    let p18 = p17 + " "@;
    a_right_word_begins(p18, decimal(r.railed as nat), 4);
    let p19 = p18 + right_in(decimal(r.railed as nat), 4);
    a_gap_adds_nothing(p19, "   "@);
    let p20 = p19 + "   "@;
    a_right_word_begins(p20, r.step@, 5);
    let p21 = p20 + right_in(r.step@, 5);
    a_word_goes_on(p21, "/"@);
    let p22 = p21 + "/"@;
    a_left_word_goes_on(p22, r.step_written@, 5);
    let p23 = p22 + left_in(r.step_written@, 5);
    a_gap_adds_nothing(p23, "  "@);
    let p24 = p23 + "  "@;
    a_right_word_begins(p24, r.level@, 6);
    let p25 = p24 + right_in(r.level@, 6);
    a_gap_adds_nothing(p25, "   "@);
    let p26 = p25 + "   "@;
    a_right_word_begins(p26, r.keep@, 4);
    let p27 = p26 + right_in(r.keep@, 4);
    a_gap_adds_nothing(p27, "  "@);
    let p28 = p27 + "  "@;
    a_right_word_begins(p28, r.target@, 5);
    let p29 = p28 + right_in(r.target@, 5);
    a_word_goes_on(p29, "/"@);
    let p30 = p29 + "/"@;
    a_left_word_goes_on(p30, r.rendered@, 5);
    let p31 = p30 + left_in(r.rendered@, 5);
    a_gap_adds_nothing(p31, "  "@);
    let p32 = p31 + "  "@;
    a_right_word_begins(p32, r.moved@, 5);
    let p33 = p32 + right_in(r.moved@, 5);
    a_gap_adds_nothing(p33, "  "@);
    let p34 = p33 + "  "@;
    a_word_begins(p34, decimal(r.loudest as nat));
    let p35 = p34 + decimal(r.loudest as nat);
    a_gap_adds_nothing(p35, " "@);
    a_word_begins(p35 + " "@, "/"@);
    a_gap_adds_nothing(p35 + " "@ + "/"@, " "@);
    let p36 = p35 + " / "@;
    assert(p36 =~= p35 + " "@ + "/"@ + " "@);
    a_word_begins(p36, decimal(r.loudest_rendered as nat));
    let p37 = p36 + decimal(r.loudest_rendered as nat);
    a_gap_adds_nothing(p37, "\n"@);
    let p38 = p37 + "\n"@;
    assert(gain_row_text(r) == p38);
}

} // verus!
