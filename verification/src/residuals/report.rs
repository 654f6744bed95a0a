//! The tables of the residuals.

use crate::text::{decimal, left_in, or_dash, or_dash_text, print, push_left, push_right, right_in};
use crate::words::{a_gap_adds_nothing, a_left_word_goes_on, a_number_is_a_word, a_right_word_begins, a_right_word_stands_apart, a_word_begins, a_word_goes_on, is_word, words_of};
use vstd::prelude::*;

verus! {

/// What one recording leaves over the model, as it is printed.
pub struct LayerText {
    pub partials: usize,
    pub inharmonic: String,
    pub glide_first: Option<String>,
    pub glide: Option<String>,
    pub envelope: String,
    pub trend: Option<String>,
    pub excitation: Option<String>,
}

/// The head of the keys.
pub const BY_KEY: &'static str = "\n=== 1. trajectory residuals, median over the layers of each key\n\n key   n  \
    partials   inharm rms  worst (k)   glide k1  glide med   env rms  env trend  excite \
    rms  excite worst   preset rms  worst (k)  trusted   preset rms(t)    B low     B \
    high   ratio\n";

/// The recordings of one key, as they are printed.
pub struct KeyRow {
    pub key: u8,
    pub layers: usize,
    pub layer: LayerText,
    pub worst: String,
    pub worst_k: u64,
    pub excitation_worst: Option<String>,
    pub preset: String,
    pub preset_worst: String,
    pub preset_worst_k: u64,
    pub trusted: u64,
    pub preset_trusted: String,
    pub low: Option<String>,
    pub high: Option<String>,
    pub ratio: Option<String>,
}

/// A row of the keys.
pub open spec fn key_row_text(r: KeyRow) -> Seq<char> {
    Seq::<char>::empty()
        + right_in(decimal(r.key as nat), 4)
        + " "@
        + right_in(decimal(r.layers as nat), 3)
        + "  "@
        + right_in(decimal(r.layer.partials as nat), 8)
        + "  "@
        + right_in(r.layer.inharmonic@, 10)
        + "c "@
        + right_in(r.worst@, 7)
        + "c ("@
        + right_in(decimal(r.worst_k as nat), 2)
        + ") "@
        + right_in(or_dash_text(r.layer.glide_first), 9)
        + " "@
        + right_in(or_dash_text(r.layer.glide), 10)
        + " "@
        + right_in(r.layer.envelope@, 9)
        + " "@
        + right_in(or_dash_text(r.layer.trend), 10)
        + " "@
        + right_in(or_dash_text(r.layer.excitation), 11)
        + " "@
        + right_in(or_dash_text(r.excitation_worst), 13)
        + " "@
        + right_in(r.preset@, 11)
        + "c "@
        + right_in(r.preset_worst@, 7)
        + "c ("@
        + right_in(decimal(r.preset_worst_k as nat), 2)
        + ") "@
        + right_in(decimal(r.trusted as nat), 8)
        + " "@
        + right_in(r.preset_trusted@, 14)
        + "c "@
        + right_in(or_dash_text(r.low), 9)
        + " "@
        + right_in(or_dash_text(r.high), 10)
        + " "@
        + right_in(or_dash_text(r.ratio), 7)
        + "\n"@
}

/// A row of the keys.
pub fn key_row(r: &KeyRow) -> (text: String)
    ensures
        text@ == key_row_text(*r),
{
    let mut out = String::new();
    push_right(&mut out, print(r.key as u64).as_str(), 4);
    out.append(" ");
    push_right(&mut out, print(r.layers as u64).as_str(), 3);
    out.append("  ");
    push_right(&mut out, print(r.layer.partials as u64).as_str(), 8);
    out.append("  ");
    push_right(&mut out, r.layer.inharmonic.as_str(), 10);
    out.append("c ");
    push_right(&mut out, r.worst.as_str(), 7);
    out.append("c (");
    push_right(&mut out, print(r.worst_k).as_str(), 2);
    out.append(") ");
    push_right(&mut out, or_dash(&r.layer.glide_first).as_str(), 9);
    out.append(" ");
    push_right(&mut out, or_dash(&r.layer.glide).as_str(), 10);
    out.append(" ");
    push_right(&mut out, r.layer.envelope.as_str(), 9);
    out.append(" ");
    push_right(&mut out, or_dash(&r.layer.trend).as_str(), 10);
    out.append(" ");
    push_right(&mut out, or_dash(&r.layer.excitation).as_str(), 11);
    out.append(" ");
    push_right(&mut out, or_dash(&r.excitation_worst).as_str(), 13);
    out.append(" ");
    push_right(&mut out, r.preset.as_str(), 11);
    out.append("c ");
    push_right(&mut out, r.preset_worst.as_str(), 7);
    out.append("c (");
    push_right(&mut out, print(r.preset_worst_k).as_str(), 2);
    out.append(") ");
    push_right(&mut out, print(r.trusted).as_str(), 8);
    out.append(" ");
    push_right(&mut out, r.preset_trusted.as_str(), 14);
    out.append("c ");
    push_right(&mut out, or_dash(&r.low).as_str(), 9);
    out.append(" ");
    push_right(&mut out, or_dash(&r.high).as_str(), 10);
    out.append(" ");
    push_right(&mut out, or_dash(&r.ratio).as_str(), 7);
    out.append("\n");
    out
}

/// The head of the layers.
pub const BY_VELOCITY: &'static str = "\n=== 2. the same, layer by layer, for a few keys\n\n key  vel  partials   inharm \
    rms   glide k1  glide med   env rms  env trend  excite rms\n";

/// One layer of one key, as it is printed.
pub struct VelocityRow {
    pub key: u8,
    pub velocity: u8,
    pub layer: LayerText,
}

/// A row of the layers.
pub open spec fn velocity_row_text(r: VelocityRow) -> Seq<char> {
    Seq::<char>::empty()
        + right_in(decimal(r.key as nat), 4)
        + " "@
        + right_in(decimal(r.velocity as nat), 4)
        + " "@
        + right_in(decimal(r.layer.partials as nat), 9)
        + " "@
        + right_in(r.layer.inharmonic@, 11)
        + "c "@
        + right_in(or_dash_text(r.layer.glide_first), 10)
        + " "@
        + right_in(or_dash_text(r.layer.glide), 10)
        + " "@
        + right_in(r.layer.envelope@, 9)
        + " "@
        + right_in(or_dash_text(r.layer.trend), 10)
        + " "@
        + right_in(or_dash_text(r.layer.excitation), 11)
        + "\n"@
}

/// A row of the layers.
pub fn velocity_row(r: &VelocityRow) -> (text: String)
    ensures
        text@ == velocity_row_text(*r),
{
    let mut out = String::new();
    push_right(&mut out, print(r.key as u64).as_str(), 4);
    out.append(" ");
    push_right(&mut out, print(r.velocity as u64).as_str(), 4);
    out.append(" ");
    push_right(&mut out, print(r.layer.partials as u64).as_str(), 9);
    out.append(" ");
    push_right(&mut out, r.layer.inharmonic.as_str(), 11);
    out.append("c ");
    push_right(&mut out, or_dash(&r.layer.glide_first).as_str(), 10);
    out.append(" ");
    push_right(&mut out, or_dash(&r.layer.glide).as_str(), 10);
    out.append(" ");
    push_right(&mut out, r.layer.envelope.as_str(), 9);
    out.append(" ");
    push_right(&mut out, or_dash(&r.layer.trend).as_str(), 10);
    out.append(" ");
    push_right(&mut out, or_dash(&r.layer.excitation).as_str(), 11);
    out.append("\n");
    out
}

/// The head of the partials.
pub const BY_PARTIAL: &'static str = "\n=== 2b. partial by partial, one loud layer of four keys\n\n";

/// One recording, as it is printed.
pub struct RecordingRow {
    pub key: u8,
    pub layer: u8,
    pub velocity: u8,
    pub f0: String,
    pub b: String,
}

/// What one recording was fitted with.
pub open spec fn recording_row_text(r: RecordingRow) -> Seq<char> {
    "key "@
        + decimal(r.key as nat)
        + ", layer "@
        + decimal(r.layer as nat)
        + " (vel "@
        + decimal(r.velocity as nat)
        + "), fitted f0 "@
        + r.f0@
        + " Hz, B "@
        + r.b@
        + "\n"@
}

/// What one recording was fitted with.
pub fn recording_row(r: &RecordingRow) -> (text: String)
    ensures
        text@ == recording_row_text(*r),
{
    let mut out = String::from_str("key ");
    out.append(print(r.key as u64).as_str());
    out.append(", layer ");
    out.append(print(r.layer as u64).as_str());
    out.append(" (vel ");
    out.append(print(r.velocity as u64).as_str());
    out.append("), fitted f0 ");
    out.append(r.f0.as_str());
    out.append(" Hz, B ");
    out.append(r.b.as_str());
    out.append("\n");
    out
}

/// The head of one recording's partials.
pub const PARTIALS: &'static str = "    k   frequency Hz   level dB   model cents   glide cents   env rms   env trend\n";

/// One partial, as it is printed.
pub struct PartialRow {
    pub k: u32,
    pub hz: String,
    pub level: String,
    pub model: String,
    pub glide: Option<String>,
    pub envelope: String,
    pub trend: Option<String>,
}

/// A row of the partials.
pub open spec fn partial_row_text(r: PartialRow) -> Seq<char> {
    Seq::<char>::empty()
        + right_in(decimal(r.k as nat), 5)
        + " "@
        + right_in(r.hz@, 14)
        + " "@
        + right_in(r.level@, 10)
        + " "@
        + right_in(r.model@, 13)
        + " "@
        + right_in(or_dash_text(r.glide), 13)
        + " "@
        + right_in(r.envelope@, 9)
        + " "@
        + right_in(or_dash_text(r.trend), 11)
        + "\n"@
}

/// A row of the partials.
pub fn partial_row(r: &PartialRow) -> (text: String)
    ensures
        text@ == partial_row_text(*r),
{
    let mut out = String::new();
    push_right(&mut out, print(r.k as u64).as_str(), 5);
    out.append(" ");
    push_right(&mut out, r.hz.as_str(), 14);
    out.append(" ");
    push_right(&mut out, r.level.as_str(), 10);
    out.append(" ");
    push_right(&mut out, r.model.as_str(), 13);
    out.append(" ");
    push_right(&mut out, or_dash(&r.glide).as_str(), 13);
    out.append(" ");
    push_right(&mut out, r.envelope.as_str(), 9);
    out.append(" ");
    push_right(&mut out, or_dash(&r.trend).as_str(), 11);
    out.append("\n");
    out
}

/// The head of the bands.
pub const BY_FREQUENCY: &'static str = "\n=== 1b. excitation-spectrum scatter, by frequency and by note\n\n  band Hz    \
    notes  partials   mean dB   spread across notes dB\n";

/// One band of frequencies, as it is printed.
pub struct BandRow {
    pub low: String,
    pub high: String,
    pub notes: usize,
    pub partials: usize,
    pub mean: String,
    pub spread: String,
}

/// A row of the bands.
pub open spec fn band_row_text(r: BandRow) -> Seq<char> {
    Seq::<char>::empty()
        + right_in(r.low@, 6)
        + "-"@
        + left_in(r.high@, 6)
        + " "@
        + right_in(decimal(r.notes as nat), 5)
        + " "@
        + right_in(decimal(r.partials as nat), 9)
        + " "@
        + right_in(r.mean@, 9)
        + " "@
        + right_in(r.spread@, 24)
        + "\n"@
}

/// A row of the bands.
pub fn band_row(r: &BandRow) -> (text: String)
    ensures
        text@ == band_row_text(*r),
{
    let mut out = String::new();
    push_right(&mut out, r.low.as_str(), 6);
    out.append("-");
    push_left(&mut out, r.high.as_str(), 6);
    out.append(" ");
    push_right(&mut out, print(r.notes as u64).as_str(), 5);
    out.append(" ");
    push_right(&mut out, print(r.partials as u64).as_str(), 9);
    out.append(" ");
    push_right(&mut out, r.mean.as_str(), 9);
    out.append(" ");
    push_right(&mut out, r.spread.as_str(), 24);
    out.append("\n");
    out
}

/// The head of the control.
pub const CONTROL: &'static str = "\n=== 3. the engine's own renders through the same estimators (the control)\n\n key  \
    partials   inharm rms  worst (k)   glide k1  glide med   env rms  env trend  excite \
    rms\n";

/// One key of the control, as it is printed.
pub struct ControlRow {
    pub key: u8,
    pub layer: LayerText,
    pub worst: String,
    pub worst_k: u64,
}

/// A row of the control.
pub open spec fn control_row_text(r: ControlRow) -> Seq<char> {
    Seq::<char>::empty()
        + right_in(decimal(r.key as nat), 4)
        + " "@
        + right_in(decimal(r.layer.partials as nat), 9)
        + " "@
        + right_in(r.layer.inharmonic@, 12)
        + "c "@
        + right_in(r.worst@, 7)
        + "c ("@
        + right_in(decimal(r.worst_k as nat), 2)
        + ") "@
        + right_in(or_dash_text(r.layer.glide_first), 10)
        + " "@
        + right_in(or_dash_text(r.layer.glide), 10)
        + " "@
        + right_in(r.layer.envelope@, 9)
        + " "@
        + right_in(or_dash_text(r.layer.trend), 10)
        + " "@
        + right_in(or_dash_text(r.layer.excitation), 11)
        + "\n"@
}

/// A row of the control.
pub fn control_row(r: &ControlRow) -> (text: String)
    ensures
        text@ == control_row_text(*r),
{
    let mut out = String::new();
    push_right(&mut out, print(r.key as u64).as_str(), 4);
    out.append(" ");
    push_right(&mut out, print(r.layer.partials as u64).as_str(), 9);
    out.append(" ");
    push_right(&mut out, r.layer.inharmonic.as_str(), 12);
    out.append("c ");
    push_right(&mut out, r.worst.as_str(), 7);
    out.append("c (");
    push_right(&mut out, print(r.worst_k).as_str(), 2);
    out.append(") ");
    push_right(&mut out, or_dash(&r.layer.glide_first).as_str(), 10);
    out.append(" ");
    push_right(&mut out, or_dash(&r.layer.glide).as_str(), 10);
    out.append(" ");
    push_right(&mut out, r.layer.envelope.as_str(), 9);
    out.append(" ");
    push_right(&mut out, or_dash(&r.layer.trend).as_str(), 10);
    out.append(" ");
    push_right(&mut out, or_dash(&r.layer.excitation).as_str(), 11);
    out.append("\n");
    out
}

/// A key that could not be read.
pub struct KeyOnly {
    pub key: u8,
}

/// The row of a key whose partials could not be followed.
pub open spec fn no_tracking_text(r: KeyOnly) -> Seq<char> {
    Seq::<char>::empty()
        + right_in(decimal(r.key as nat), 4)
        + "  no tracking\n"@
}

/// The row of a key whose partials could not be followed.
pub fn no_tracking(r: &KeyOnly) -> (text: String)
    ensures
        text@ == no_tracking_text(*r),
{
    let mut out = String::new();
    push_right(&mut out, print(r.key as u64).as_str(), 4);
    out.append("  no tracking\n");
    out
}

/// The row of a key whose partials could not be fitted.
pub open spec fn no_analysis_text(r: KeyOnly) -> Seq<char> {
    Seq::<char>::empty()
        + right_in(decimal(r.key as nat), 4)
        + "  no analysis\n"@
}

/// The row of a key whose partials could not be fitted.
pub fn no_analysis(r: &KeyOnly) -> (text: String)
    ensures
        text@ == no_analysis_text(*r),
{
    let mut out = String::new();
    push_right(&mut out, print(r.key as u64).as_str(), 4);
    out.append("  no analysis\n");
    out
}

/// The head of the census.
pub const CENSUS: &'static str = "\n=== 4. spectrum census: what radiates that is not a transverse partial\n\nsource  \
    key  vel  peaks  transv  phantom  loudest  neighbour  loudest  unexpl  loudest  \
    between@0  between@1s   loudest unexplained, Hz\n";

/// One spectrum, as it is printed.
pub struct CensusRow {
    pub source: String,
    pub key: u8,
    pub velocity: u8,
    pub peaks: usize,
    pub transverse: usize,
    pub combination: usize,
    pub combination_loudest: String,
    pub neighbour: usize,
    pub neighbour_loudest: String,
    pub unexplained: usize,
    pub unexplained_loudest: String,
    pub between_strike: String,
    pub between_second: String,
    pub strongest: String,
}

/// A row of the census.
pub open spec fn census_row_text(r: CensusRow) -> Seq<char> {
    Seq::<char>::empty()
        + right_in(r.source@, 10)
        + " "@
        + right_in(decimal(r.key as nat), 4)
        + " "@
        + right_in(decimal(r.velocity as nat), 4)
        + " "@
        + right_in(decimal(r.peaks as nat), 6)
        + " "@
        + right_in(decimal(r.transverse as nat), 7)
        + " "@
        + right_in(decimal(r.combination as nat), 8)
        + " "@
        + right_in(r.combination_loudest@, 8)
        + " "@
        + right_in(decimal(r.neighbour as nat), 10)
        + " "@
        + right_in(r.neighbour_loudest@, 8)
        + " "@
        + right_in(decimal(r.unexplained as nat), 7)
        + " "@
        + right_in(r.unexplained_loudest@, 8)
        + " "@
        + right_in(r.between_strike@, 10)
        + " "@
        + right_in(r.between_second@, 11)
        + "   "@
        + r.strongest@
        + "\n"@
}

/// A row of the census.
pub fn census_row(r: &CensusRow) -> (text: String)
    ensures
        text@ == census_row_text(*r),
{
    let mut out = String::new();
    push_right(&mut out, r.source.as_str(), 10);
    out.append(" ");
    push_right(&mut out, print(r.key as u64).as_str(), 4);
    out.append(" ");
    push_right(&mut out, print(r.velocity as u64).as_str(), 4);
    out.append(" ");
    push_right(&mut out, print(r.peaks as u64).as_str(), 6);
    out.append(" ");
    push_right(&mut out, print(r.transverse as u64).as_str(), 7);
    out.append(" ");
    push_right(&mut out, print(r.combination as u64).as_str(), 8);
    out.append(" ");
    push_right(&mut out, r.combination_loudest.as_str(), 8);
    out.append(" ");
    push_right(&mut out, print(r.neighbour as u64).as_str(), 10);
    out.append(" ");
    push_right(&mut out, r.neighbour_loudest.as_str(), 8);
    out.append(" ");
    push_right(&mut out, print(r.unexplained as u64).as_str(), 7);
    out.append(" ");
    push_right(&mut out, r.unexplained_loudest.as_str(), 8);
    out.append(" ");
    push_right(&mut out, r.between_strike.as_str(), 10);
    out.append(" ");
    push_right(&mut out, r.between_second.as_str(), 11);
    out.append("   ");
    out.append(r.strongest.as_str());
    out.append("\n");
    out
}

/// The head of the sums.
pub const PHANTOMS: &'static str = "\n=== 4b. phantom partials: how their level grows with the note's\n\nsource  key  \
    pair    clear of partials   layers   slope vs product   slope vs note   margin over \
    floor   level re loudest\n";

pub const NO_PROBE_0: &'static str = "  no combination stands clear of the partials\n";

/// The row of a key that has no sum to probe.
pub open spec fn no_probe_text(r: KeyOnly) -> Seq<char> {
    Seq::<char>::empty()
        + right_in(decimal(r.key as nat), 4)
        + NO_PROBE_0@
}

/// The row of a key that has no sum to probe.
pub fn no_probe(r: &KeyOnly) -> (text: String)
    ensures
        text@ == no_probe_text(*r),
{
    let mut out = String::new();
    push_right(&mut out, print(r.key as u64).as_str(), 4);
    out.append(NO_PROBE_0);
    out
}

/// One sum, as it is printed.
pub struct PhantomRow {
    pub source: String,
    pub key: u8,
    pub first: u32,
    pub second: u32,
    pub clearance: String,
    pub layers: usize,
    pub slope_drive: Option<String>,
    pub slope_note: Option<String>,
    pub margin: String,
    pub level: String,
}

/// A row of the sums.
pub open spec fn phantom_row_text(r: PhantomRow) -> Seq<char> {
    Seq::<char>::empty()
        + right_in(r.source@, 10)
        + " "@
        + right_in(decimal(r.key as nat), 4)
        + "  f"@
        + decimal(r.first as nat)
        + "+f"@
        + decimal(r.second as nat)
        + "   "@
        + right_in(r.clearance@, 14)
        + " Hz   "@
        + right_in(decimal(r.layers as nat), 6)
        + "   "@
        + right_in(or_dash_text(r.slope_drive), 16)
        + "   "@
        + right_in(or_dash_text(r.slope_note), 13)
        + "   "@
        + right_in(r.margin@, 17)
        + "   "@
        + right_in(r.level@, 16)
        + "\n"@
}

/// A row of the sums.
pub fn phantom_row(r: &PhantomRow) -> (text: String)
    ensures
        text@ == phantom_row_text(*r),
{
    let mut out = String::new();
    push_right(&mut out, r.source.as_str(), 10);
    out.append(" ");
    push_right(&mut out, print(r.key as u64).as_str(), 4);
    out.append("  f");
    out.append(print(r.first as u64).as_str());
    out.append("+f");
    out.append(print(r.second as u64).as_str());
    out.append("   ");
    push_right(&mut out, r.clearance.as_str(), 14);
    out.append(" Hz   ");
    push_right(&mut out, print(r.layers as u64).as_str(), 6);
    out.append("   ");
    push_right(&mut out, or_dash(&r.slope_drive).as_str(), 16);
    out.append("   ");
    push_right(&mut out, or_dash(&r.slope_note).as_str(), 13);
    out.append("   ");
    push_right(&mut out, r.margin.as_str(), 17);
    out.append("   ");
    push_right(&mut out, r.level.as_str(), 16);
    out.append("\n");
    out
}

/// The head of the balances.
pub const STEREO: &'static str = "\n=== 5. stereo balance per partial (left minus right, dB)\n\nsource  key  vel  \
    partials   median@0.3s  spread@0.3s   median@2s  spread@2s  drift 0.3->2s\n";

/// One note in two channels, as it is printed.
pub struct StereoRow {
    pub source: String,
    pub key: u8,
    pub velocity: u8,
    pub partials: usize,
    pub early_median: Option<String>,
    pub early_spread: Option<String>,
    pub late_median: Option<String>,
    pub late_spread: Option<String>,
    pub drift: Option<String>,
}

/// A row of the balances.
pub open spec fn stereo_row_text(r: StereoRow) -> Seq<char> {
    Seq::<char>::empty()
        + right_in(r.source@, 10)
        + " "@
        + right_in(decimal(r.key as nat), 4)
        + " "@
        + right_in(decimal(r.velocity as nat), 4)
        + " "@
        + right_in(decimal(r.partials as nat), 9)
        + " "@
        + right_in(or_dash_text(r.early_median), 13)
        + " "@
        + right_in(or_dash_text(r.early_spread), 12)
        + " "@
        + right_in(or_dash_text(r.late_median), 11)
        + " "@
        + right_in(or_dash_text(r.late_spread), 10)
        + " "@
        + right_in(or_dash_text(r.drift), 10)
        + "\n"@
}

/// A row of the balances.
pub fn stereo_row(r: &StereoRow) -> (text: String)
    ensures
        text@ == stereo_row_text(*r),
{
    let mut out = String::new();
    push_right(&mut out, r.source.as_str(), 10);
    out.append(" ");
    push_right(&mut out, print(r.key as u64).as_str(), 4);
    out.append(" ");
    push_right(&mut out, print(r.velocity as u64).as_str(), 4);
    out.append(" ");
    push_right(&mut out, print(r.partials as u64).as_str(), 9);
    out.append(" ");
    push_right(&mut out, or_dash(&r.early_median).as_str(), 13);
    out.append(" ");
    push_right(&mut out, or_dash(&r.early_spread).as_str(), 12);
    out.append(" ");
    push_right(&mut out, or_dash(&r.late_median).as_str(), 11);
    out.append(" ");
    push_right(&mut out, or_dash(&r.late_spread).as_str(), 10);
    out.append(" ");
    push_right(&mut out, or_dash(&r.drift).as_str(), 10);
    out.append("\n");
    out
}

/// The head of the mechanism.
pub const MECHANISM: &'static str = "\n=== 6. the mechanism: key-off, pedal and string-resonance \
    recordings\n\nrecording        key   plays at   peak re strike   rms re strike   \
    decay to -40 dB   centroid Hz   length s\n";

/// One recording of the mechanism, as it is printed.
pub struct MechanismRow {
    pub name: String,
    pub key: Option<String>,
    pub gain: String,
    pub peak: Option<String>,
    pub rms: Option<String>,
    pub decay: String,
    pub centroid: String,
    pub length: String,
}

/// A row of the mechanism.
pub open spec fn mechanism_row_text(r: MechanismRow) -> Seq<char> {
    Seq::<char>::empty()
        + right_in(r.name@, 14)
        + " "@
        + right_in(or_dash_text(r.key), 5)
        + " "@
        + right_in(r.gain@, 10)
        + " "@
        + right_in(or_dash_text(r.peak), 15)
        + " "@
        + right_in(or_dash_text(r.rms), 15)
        + " "@
        + right_in(r.decay@, 17)
        + " "@
        + right_in(r.centroid@, 13)
        + " "@
        + right_in(r.length@, 10)
        + "\n"@
}

/// A row of the mechanism.
pub fn mechanism_row(r: &MechanismRow) -> (text: String)
    ensures
        text@ == mechanism_row_text(*r),
{
    let mut out = String::new();
    push_right(&mut out, r.name.as_str(), 14);
    out.append(" ");
    push_right(&mut out, or_dash(&r.key).as_str(), 5);
    out.append(" ");
    push_right(&mut out, r.gain.as_str(), 10);
    out.append(" ");
    push_right(&mut out, or_dash(&r.peak).as_str(), 15);
    out.append(" ");
    push_right(&mut out, or_dash(&r.rms).as_str(), 15);
    out.append(" ");
    push_right(&mut out, r.decay.as_str(), 17);
    out.append(" ");
    push_right(&mut out, r.centroid.as_str(), 13);
    out.append(" ");
    push_right(&mut out, r.length.as_str(), 10);
    out.append("\n");
    out
}

/// The head of the attacks.
pub const ATTACK: &'static str = "\n=== 2c. the fundamental's pitch through the attack, short windows\n\n";

/// One attack, as it is printed.
pub struct AttackRow {
    pub source: String,
    pub key: u8,
    pub velocity: u8,
    pub window: String,
    pub reference: String,
    pub slide: String,
}

/// A row of the attacks.
pub open spec fn attack_row_text(r: AttackRow) -> Seq<char> {
    Seq::<char>::empty()
        + right_in(r.source@, 10)
        + " "@
        + right_in(decimal(r.key as nat), 4)
        + " "@
        + right_in(decimal(r.velocity as nat), 4)
        + " "@
        + right_in(r.window@, 10)
        + " "@
        + right_in(r.reference@, 13)
        + "   "@
        + r.slide@
        + "\n"@
}

/// A row of the attacks.
pub fn attack_row(r: &AttackRow) -> (text: String)
    ensures
        text@ == attack_row_text(*r),
{
    let mut out = String::new();
    push_right(&mut out, r.source.as_str(), 10);
    out.append(" ");
    push_right(&mut out, print(r.key as u64).as_str(), 4);
    out.append(" ");
    push_right(&mut out, print(r.velocity as u64).as_str(), 4);
    out.append(" ");
    push_right(&mut out, r.window.as_str(), 10);
    out.append(" ");
    push_right(&mut out, r.reference.as_str(), 13);
    out.append("   ");
    out.append(r.slide.as_str());
    out.append("\n");
    out
}

/// Each number of `velocity_row` stands in its place among the words.
#[verifier::rlimit(30)]
pub proof fn the_words_of_velocity_row_stand_in_order(r: VelocityRow)
    requires
        is_word(r.layer.inharmonic@),
        is_word(or_dash_text(r.layer.glide_first)),
        is_word(or_dash_text(r.layer.glide)),
        is_word(r.layer.envelope@),
        is_word(or_dash_text(r.layer.trend)),
        is_word(or_dash_text(r.layer.excitation)),
    ensures
        words_of(velocity_row_text(r)).len() == 9,
        words_of(velocity_row_text(r))[0] == decimal(r.key as nat),
        words_of(velocity_row_text(r))[1] == decimal(r.velocity as nat),
        words_of(velocity_row_text(r))[2] == decimal(r.layer.partials as nat),
        words_of(velocity_row_text(r))[3] == r.layer.inharmonic@ + "c"@,
        words_of(velocity_row_text(r))[4] == or_dash_text(r.layer.glide_first),
        words_of(velocity_row_text(r))[5] == or_dash_text(r.layer.glide),
        words_of(velocity_row_text(r))[6] == r.layer.envelope@,
        words_of(velocity_row_text(r))[7] == or_dash_text(r.layer.trend),
        words_of(velocity_row_text(r))[8] == or_dash_text(r.layer.excitation),
{
    reveal_strlit(" ");
    reveal_strlit("c ");
    reveal_strlit("c");
    reveal_strlit("\n");
    a_number_is_a_word(r.key as nat);
    a_number_is_a_word(r.velocity as nat);
    a_number_is_a_word(r.layer.partials as nat);
    let p0 = Seq::<char>::empty();
    a_right_word_begins(p0, decimal(r.key as nat), 4);
    let p1 = p0 + right_in(decimal(r.key as nat), 4);
    a_gap_adds_nothing(p1, " "@);
    let p2 = p1 + " "@;
    a_right_word_begins(p2, decimal(r.velocity as nat), 4);
    let p3 = p2 + right_in(decimal(r.velocity as nat), 4);
    a_gap_adds_nothing(p3, " "@);
    let p4 = p3 + " "@;
    a_right_word_begins(p4, decimal(r.layer.partials as nat), 9);
    let p5 = p4 + right_in(decimal(r.layer.partials as nat), 9);
    a_gap_adds_nothing(p5, " "@);
    let p6 = p5 + " "@;
    a_right_word_begins(p6, r.layer.inharmonic@, 11);
    let p7 = p6 + right_in(r.layer.inharmonic@, 11);
    a_word_goes_on(p7, "c"@);
    a_gap_adds_nothing(p7 + "c"@, " "@);
    let p8 = p7 + "c "@;
    assert(p8 =~= p7 + "c"@ + " "@);
    a_right_word_begins(p8, or_dash_text(r.layer.glide_first), 10);
    let p9 = p8 + right_in(or_dash_text(r.layer.glide_first), 10);
    a_gap_adds_nothing(p9, " "@);
    let p10 = p9 + " "@;
    a_right_word_begins(p10, or_dash_text(r.layer.glide), 10);
    let p11 = p10 + right_in(or_dash_text(r.layer.glide), 10);
    a_gap_adds_nothing(p11, " "@);
    let p12 = p11 + " "@;
    a_right_word_begins(p12, r.layer.envelope@, 9);
    let p13 = p12 + right_in(r.layer.envelope@, 9);
    a_gap_adds_nothing(p13, " "@);
    let p14 = p13 + " "@;
    a_right_word_begins(p14, or_dash_text(r.layer.trend), 10);
    let p15 = p14 + right_in(or_dash_text(r.layer.trend), 10);
    a_gap_adds_nothing(p15, " "@);
    let p16 = p15 + " "@;
    a_right_word_begins(p16, or_dash_text(r.layer.excitation), 11);
    let p17 = p16 + right_in(or_dash_text(r.layer.excitation), 11);
    a_gap_adds_nothing(p17, "\n"@);
    let p18 = p17 + "\n"@;
    assert(velocity_row_text(r) == p18);
}

/// Each number of `recording_row` stands in its place among the words.
#[verifier::rlimit(30)]
pub proof fn the_words_of_recording_row_stand_in_order(r: RecordingRow)
    requires
        is_word(r.f0@),
        is_word(r.b@),
    ensures
        words_of(recording_row_text(r)).len() == 12,
        words_of(recording_row_text(r))[1] == decimal(r.key as nat) + ","@,
        words_of(recording_row_text(r))[3] == decimal(r.layer as nat),
        words_of(recording_row_text(r))[5] == decimal(r.velocity as nat) + "),"@,
        words_of(recording_row_text(r))[8] == r.f0@,
        words_of(recording_row_text(r))[11] == r.b@,
{
    reveal_strlit("key ");
    reveal_strlit("key");
    reveal_strlit(" ");
    reveal_strlit(", layer ");
    reveal_strlit(",");
    reveal_strlit("layer");
    reveal_strlit(" (vel ");
    reveal_strlit("(vel");
    reveal_strlit("), fitted f0 ");
    reveal_strlit("),");
    reveal_strlit("fitted");
    reveal_strlit("f0");
    reveal_strlit(" Hz, B ");
    reveal_strlit("Hz,");
    reveal_strlit("B");
    reveal_strlit("\n");
    a_number_is_a_word(r.key as nat);
    a_number_is_a_word(r.layer as nat);
    a_number_is_a_word(r.velocity as nat);
    let p0 = "key "@;
    a_word_begins(Seq::<char>::empty(), "key"@);
    a_gap_adds_nothing(Seq::<char>::empty() + "key"@, " "@);
    assert(p0 =~= Seq::<char>::empty() + "key"@ + " "@);
    a_word_begins(p0, decimal(r.key as nat));
    let p1 = p0 + decimal(r.key as nat);
    a_word_goes_on(p1, ","@);
    a_gap_adds_nothing(p1 + ","@, " "@);
    a_word_begins(p1 + ","@ + " "@, "layer"@);
    a_gap_adds_nothing(p1 + ","@ + " "@ + "layer"@, " "@);
    let p2 = p1 + ", layer "@;
    assert(p2 =~= p1 + ","@ + " "@ + "layer"@ + " "@);
    a_word_begins(p2, decimal(r.layer as nat));
    let p3 = p2 + decimal(r.layer as nat);
    a_gap_adds_nothing(p3, " "@);
    a_word_begins(p3 + " "@, "(vel"@);
    a_gap_adds_nothing(p3 + " "@ + "(vel"@, " "@);
    let p4 = p3 + " (vel "@;
    assert(p4 =~= p3 + " "@ + "(vel"@ + " "@);
    a_word_begins(p4, decimal(r.velocity as nat));
    let p5 = p4 + decimal(r.velocity as nat);
    a_word_goes_on(p5, "),"@);
    a_gap_adds_nothing(p5 + "),"@, " "@);
    a_word_begins(p5 + "),"@ + " "@, "fitted"@);
    a_gap_adds_nothing(p5 + "),"@ + " "@ + "fitted"@, " "@);
    a_word_begins(p5 + "),"@ + " "@ + "fitted"@ + " "@, "f0"@);
    a_gap_adds_nothing(p5 + "),"@ + " "@ + "fitted"@ + " "@ + "f0"@, " "@);
    let p6 = p5 + "), fitted f0 "@;
    assert(p6 =~= p5 + "),"@ + " "@ + "fitted"@ + " "@ + "f0"@ + " "@);
    a_word_begins(p6, r.f0@);
    let p7 = p6 + r.f0@;
    a_gap_adds_nothing(p7, " "@);
    a_word_begins(p7 + " "@, "Hz,"@);
    a_gap_adds_nothing(p7 + " "@ + "Hz,"@, " "@);
    a_word_begins(p7 + " "@ + "Hz,"@ + " "@, "B"@);
    a_gap_adds_nothing(p7 + " "@ + "Hz,"@ + " "@ + "B"@, " "@);
    let p8 = p7 + " Hz, B "@;
    assert(p8 =~= p7 + " "@ + "Hz,"@ + " "@ + "B"@ + " "@);
    a_word_begins(p8, r.b@);
    let p9 = p8 + r.b@;
    a_gap_adds_nothing(p9, "\n"@);
    let p10 = p9 + "\n"@;
    assert(recording_row_text(r) == p10);
}

/// Each number of `partial_row` stands in its place among the words.
#[verifier::rlimit(30)]
pub proof fn the_words_of_partial_row_stand_in_order(r: PartialRow)
    requires
        is_word(r.hz@),
        is_word(r.level@),
        is_word(r.model@),
        is_word(or_dash_text(r.glide)),
        is_word(r.envelope@),
        is_word(or_dash_text(r.trend)),
    ensures
        words_of(partial_row_text(r)).len() == 7,
        words_of(partial_row_text(r))[0] == decimal(r.k as nat),
        words_of(partial_row_text(r))[1] == r.hz@,
        words_of(partial_row_text(r))[2] == r.level@,
        words_of(partial_row_text(r))[3] == r.model@,
        words_of(partial_row_text(r))[4] == or_dash_text(r.glide),
        words_of(partial_row_text(r))[5] == r.envelope@,
        words_of(partial_row_text(r))[6] == or_dash_text(r.trend),
{
    reveal_strlit(" ");
    reveal_strlit("\n");
    a_number_is_a_word(r.k as nat);
    let p0 = Seq::<char>::empty();
    a_right_word_begins(p0, decimal(r.k as nat), 5);
    let p1 = p0 + right_in(decimal(r.k as nat), 5);
    a_gap_adds_nothing(p1, " "@);
    let p2 = p1 + " "@;
    a_right_word_begins(p2, r.hz@, 14);
    let p3 = p2 + right_in(r.hz@, 14);
    a_gap_adds_nothing(p3, " "@);
    let p4 = p3 + " "@;
    a_right_word_begins(p4, r.level@, 10);
    let p5 = p4 + right_in(r.level@, 10);
    a_gap_adds_nothing(p5, " "@);
    let p6 = p5 + " "@;
    a_right_word_begins(p6, r.model@, 13);
    let p7 = p6 + right_in(r.model@, 13);
    a_gap_adds_nothing(p7, " "@);
    let p8 = p7 + " "@;
    a_right_word_begins(p8, or_dash_text(r.glide), 13);
    let p9 = p8 + right_in(or_dash_text(r.glide), 13);
    a_gap_adds_nothing(p9, " "@);
    let p10 = p9 + " "@;
    a_right_word_begins(p10, r.envelope@, 9);
    let p11 = p10 + right_in(r.envelope@, 9);
    a_gap_adds_nothing(p11, " "@);
    let p12 = p11 + " "@;
    a_right_word_begins(p12, or_dash_text(r.trend), 11);
    let p13 = p12 + right_in(or_dash_text(r.trend), 11);
    a_gap_adds_nothing(p13, "\n"@);
    let p14 = p13 + "\n"@;
    assert(partial_row_text(r) == p14);
}

/// Each number of `census_row` stands in its place among the words.
#[verifier::rlimit(30)]
pub proof fn the_words_of_census_row_stand_in_order(r: CensusRow)
    requires
        is_word(r.source@),
        is_word(r.combination_loudest@),
        is_word(r.neighbour_loudest@),
        is_word(r.unexplained_loudest@),
        is_word(r.between_strike@),
        is_word(r.between_second@),
        is_word(r.strongest@),
    ensures
        words_of(census_row_text(r)).len() == 14,
        words_of(census_row_text(r))[0] == r.source@,
        words_of(census_row_text(r))[1] == decimal(r.key as nat),
        words_of(census_row_text(r))[2] == decimal(r.velocity as nat),
        words_of(census_row_text(r))[3] == decimal(r.peaks as nat),
        words_of(census_row_text(r))[4] == decimal(r.transverse as nat),
        words_of(census_row_text(r))[5] == decimal(r.combination as nat),
        words_of(census_row_text(r))[6] == r.combination_loudest@,
        words_of(census_row_text(r))[7] == decimal(r.neighbour as nat),
        words_of(census_row_text(r))[8] == r.neighbour_loudest@,
        words_of(census_row_text(r))[9] == decimal(r.unexplained as nat),
        words_of(census_row_text(r))[10] == r.unexplained_loudest@,
        words_of(census_row_text(r))[11] == r.between_strike@,
        words_of(census_row_text(r))[12] == r.between_second@,
        words_of(census_row_text(r))[13] == r.strongest@,
{
    reveal_strlit(" ");
    reveal_strlit("   ");
    reveal_strlit("\n");
    a_number_is_a_word(r.key as nat);
    a_number_is_a_word(r.velocity as nat);
    a_number_is_a_word(r.peaks as nat);
    a_number_is_a_word(r.transverse as nat);
    a_number_is_a_word(r.combination as nat);
    a_number_is_a_word(r.neighbour as nat);
    a_number_is_a_word(r.unexplained as nat);
    let p0 = Seq::<char>::empty();
    a_right_word_begins(p0, r.source@, 10);
    let p1 = p0 + right_in(r.source@, 10);
    a_gap_adds_nothing(p1, " "@);
    let p2 = p1 + " "@;
    a_right_word_begins(p2, decimal(r.key as nat), 4);
    let p3 = p2 + right_in(decimal(r.key as nat), 4);
    a_gap_adds_nothing(p3, " "@);
    let p4 = p3 + " "@;
    a_right_word_begins(p4, decimal(r.velocity as nat), 4);
    let p5 = p4 + right_in(decimal(r.velocity as nat), 4);
    a_gap_adds_nothing(p5, " "@);
    let p6 = p5 + " "@;
    a_right_word_begins(p6, decimal(r.peaks as nat), 6);
    let p7 = p6 + right_in(decimal(r.peaks as nat), 6);
    a_gap_adds_nothing(p7, " "@);
    let p8 = p7 + " "@;
    a_right_word_begins(p8, decimal(r.transverse as nat), 7);
    let p9 = p8 + right_in(decimal(r.transverse as nat), 7);
    a_gap_adds_nothing(p9, " "@);
    let p10 = p9 + " "@;
    a_right_word_begins(p10, decimal(r.combination as nat), 8);
    let p11 = p10 + right_in(decimal(r.combination as nat), 8);
    a_gap_adds_nothing(p11, " "@);
    let p12 = p11 + " "@;
    a_right_word_begins(p12, r.combination_loudest@, 8);
    let p13 = p12 + right_in(r.combination_loudest@, 8);
    a_gap_adds_nothing(p13, " "@);
    let p14 = p13 + " "@;
    a_right_word_begins(p14, decimal(r.neighbour as nat), 10);
    let p15 = p14 + right_in(decimal(r.neighbour as nat), 10);
    a_gap_adds_nothing(p15, " "@);
    let p16 = p15 + " "@;
    a_right_word_begins(p16, r.neighbour_loudest@, 8);
    let p17 = p16 + right_in(r.neighbour_loudest@, 8);
    a_gap_adds_nothing(p17, " "@);
    let p18 = p17 + " "@;
    a_right_word_begins(p18, decimal(r.unexplained as nat), 7);
    let p19 = p18 + right_in(decimal(r.unexplained as nat), 7);
    a_gap_adds_nothing(p19, " "@);
    let p20 = p19 + " "@;
    a_right_word_begins(p20, r.unexplained_loudest@, 8);
    let p21 = p20 + right_in(r.unexplained_loudest@, 8);
    a_gap_adds_nothing(p21, " "@);
    let p22 = p21 + " "@;
    a_right_word_begins(p22, r.between_strike@, 10);
    let p23 = p22 + right_in(r.between_strike@, 10);
    a_gap_adds_nothing(p23, " "@);
    let p24 = p23 + " "@;
    a_right_word_begins(p24, r.between_second@, 11);
    let p25 = p24 + right_in(r.between_second@, 11);
    a_gap_adds_nothing(p25, "   "@);
    let p26 = p25 + "   "@;
    a_word_begins(p26, r.strongest@);
    let p27 = p26 + r.strongest@;
    a_gap_adds_nothing(p27, "\n"@);
    let p28 = p27 + "\n"@;
    assert(census_row_text(r) == p28);
}

/// Each number of `phantom_row` stands in its place among the words.
#[verifier::rlimit(30)]
pub proof fn the_words_of_phantom_row_stand_in_order(r: PhantomRow)
    requires
        is_word(r.source@),
        is_word(r.clearance@),
        is_word(or_dash_text(r.slope_drive)),
        is_word(or_dash_text(r.slope_note)),
        is_word(r.margin@),
        is_word(r.level@),
    ensures
        words_of(phantom_row_text(r)).len() == 10,
        words_of(phantom_row_text(r))[0] == r.source@,
        words_of(phantom_row_text(r))[1] == decimal(r.key as nat),
        words_of(phantom_row_text(r))[2] == "f"@ + decimal(r.first as nat) + "+f"@ + decimal(r.second as nat),
        words_of(phantom_row_text(r))[3] == r.clearance@,
        words_of(phantom_row_text(r))[5] == decimal(r.layers as nat),
        words_of(phantom_row_text(r))[6] == or_dash_text(r.slope_drive),
        words_of(phantom_row_text(r))[7] == or_dash_text(r.slope_note),
        words_of(phantom_row_text(r))[8] == r.margin@,
        words_of(phantom_row_text(r))[9] == r.level@,
{
    reveal_strlit(" ");
    reveal_strlit("  f");
    reveal_strlit("  ");
    reveal_strlit("f");
    reveal_strlit("+f");
    reveal_strlit("   ");
    reveal_strlit(" Hz   ");
    reveal_strlit("Hz");
    reveal_strlit("\n");
    a_number_is_a_word(r.key as nat);
    a_number_is_a_word(r.first as nat);
    a_number_is_a_word(r.second as nat);
    a_number_is_a_word(r.layers as nat);
    let p0 = Seq::<char>::empty();
    a_right_word_begins(p0, r.source@, 10);
    let p1 = p0 + right_in(r.source@, 10);
    a_gap_adds_nothing(p1, " "@);
    let p2 = p1 + " "@;
    a_right_word_begins(p2, decimal(r.key as nat), 4);
    let p3 = p2 + right_in(decimal(r.key as nat), 4);
    a_gap_adds_nothing(p3, "  "@);
    a_word_begins(p3 + "  "@, "f"@);
    let p4 = p3 + "  f"@;
    assert(p4 =~= p3 + "  "@ + "f"@);
    a_word_goes_on(p4, decimal(r.first as nat));
    let p5 = p4 + decimal(r.first as nat);
    a_word_goes_on(p5, "+f"@);
    let p6 = p5 + "+f"@;
    a_word_goes_on(p6, decimal(r.second as nat));
    let p7 = p6 + decimal(r.second as nat);
    a_gap_adds_nothing(p7, "   "@);
    let p8 = p7 + "   "@;
    a_right_word_begins(p8, r.clearance@, 14);
    let p9 = p8 + right_in(r.clearance@, 14);
    a_gap_adds_nothing(p9, " "@);
    a_word_begins(p9 + " "@, "Hz"@);
    a_gap_adds_nothing(p9 + " "@ + "Hz"@, "   "@);
    let p10 = p9 + " Hz   "@;
    assert(p10 =~= p9 + " "@ + "Hz"@ + "   "@);
    a_right_word_begins(p10, decimal(r.layers as nat), 6);
    let p11 = p10 + right_in(decimal(r.layers as nat), 6);
    a_gap_adds_nothing(p11, "   "@);
    let p12 = p11 + "   "@;
    a_right_word_begins(p12, or_dash_text(r.slope_drive), 16);
    let p13 = p12 + right_in(or_dash_text(r.slope_drive), 16);
    a_gap_adds_nothing(p13, "   "@);
    let p14 = p13 + "   "@;
    a_right_word_begins(p14, or_dash_text(r.slope_note), 13);
    let p15 = p14 + right_in(or_dash_text(r.slope_note), 13);
    a_gap_adds_nothing(p15, "   "@);
    let p16 = p15 + "   "@;
    a_right_word_begins(p16, r.margin@, 17);
    let p17 = p16 + right_in(r.margin@, 17);
    a_gap_adds_nothing(p17, "   "@);
    let p18 = p17 + "   "@;
    a_right_word_begins(p18, r.level@, 16);
    let p19 = p18 + right_in(r.level@, 16);
    a_gap_adds_nothing(p19, "\n"@);
    let p20 = p19 + "\n"@;
    assert(phantom_row_text(r) == p20);
}

/// Each number of `stereo_row` stands in its place among the words.
#[verifier::rlimit(30)]
pub proof fn the_words_of_stereo_row_stand_in_order(r: StereoRow)
    requires
        is_word(r.source@),
        is_word(or_dash_text(r.early_median)),
        is_word(or_dash_text(r.early_spread)),
        is_word(or_dash_text(r.late_median)),
        is_word(or_dash_text(r.late_spread)),
        is_word(or_dash_text(r.drift)),
    ensures
        words_of(stereo_row_text(r)).len() == 9,
        words_of(stereo_row_text(r))[0] == r.source@,
        words_of(stereo_row_text(r))[1] == decimal(r.key as nat),
        words_of(stereo_row_text(r))[2] == decimal(r.velocity as nat),
        words_of(stereo_row_text(r))[3] == decimal(r.partials as nat),
        words_of(stereo_row_text(r))[4] == or_dash_text(r.early_median),
        words_of(stereo_row_text(r))[5] == or_dash_text(r.early_spread),
        words_of(stereo_row_text(r))[6] == or_dash_text(r.late_median),
        words_of(stereo_row_text(r))[7] == or_dash_text(r.late_spread),
        words_of(stereo_row_text(r))[8] == or_dash_text(r.drift),
{
    reveal_strlit(" ");
    reveal_strlit("\n");
    a_number_is_a_word(r.key as nat);
    a_number_is_a_word(r.velocity as nat);
    a_number_is_a_word(r.partials as nat);
    let p0 = Seq::<char>::empty();
    a_right_word_begins(p0, r.source@, 10);
    let p1 = p0 + right_in(r.source@, 10);
    a_gap_adds_nothing(p1, " "@);
    let p2 = p1 + " "@;
    a_right_word_begins(p2, decimal(r.key as nat), 4);
    let p3 = p2 + right_in(decimal(r.key as nat), 4);
    a_gap_adds_nothing(p3, " "@);
    let p4 = p3 + " "@;
    a_right_word_begins(p4, decimal(r.velocity as nat), 4);
    let p5 = p4 + right_in(decimal(r.velocity as nat), 4);
    a_gap_adds_nothing(p5, " "@);
    let p6 = p5 + " "@;
    a_right_word_begins(p6, decimal(r.partials as nat), 9);
    let p7 = p6 + right_in(decimal(r.partials as nat), 9);
    a_gap_adds_nothing(p7, " "@);
    let p8 = p7 + " "@;
    a_right_word_begins(p8, or_dash_text(r.early_median), 13);
    let p9 = p8 + right_in(or_dash_text(r.early_median), 13);
    a_gap_adds_nothing(p9, " "@);
    let p10 = p9 + " "@;
    a_right_word_begins(p10, or_dash_text(r.early_spread), 12);
    let p11 = p10 + right_in(or_dash_text(r.early_spread), 12);
    a_gap_adds_nothing(p11, " "@);
    let p12 = p11 + " "@;
    a_right_word_begins(p12, or_dash_text(r.late_median), 11);
    let p13 = p12 + right_in(or_dash_text(r.late_median), 11);
    a_gap_adds_nothing(p13, " "@);
    let p14 = p13 + " "@;
    a_right_word_begins(p14, or_dash_text(r.late_spread), 10);
    let p15 = p14 + right_in(or_dash_text(r.late_spread), 10);
    a_gap_adds_nothing(p15, " "@);
    let p16 = p15 + " "@;
    a_right_word_begins(p16, or_dash_text(r.drift), 10);
    let p17 = p16 + right_in(or_dash_text(r.drift), 10);
    a_gap_adds_nothing(p17, "\n"@);
    let p18 = p17 + "\n"@;
    assert(stereo_row_text(r) == p18);
}

/// Each number of `mechanism_row` stands in its place among the words.
#[verifier::rlimit(30)]
pub proof fn the_words_of_mechanism_row_stand_in_order(r: MechanismRow)
    requires
        is_word(r.name@),
        is_word(or_dash_text(r.key)),
        is_word(r.gain@),
        is_word(or_dash_text(r.peak)),
        is_word(or_dash_text(r.rms)),
        is_word(r.decay@),
        is_word(r.centroid@),
        is_word(r.length@),
    ensures
        words_of(mechanism_row_text(r)).len() == 8,
        words_of(mechanism_row_text(r))[0] == r.name@,
        words_of(mechanism_row_text(r))[1] == or_dash_text(r.key),
        words_of(mechanism_row_text(r))[2] == r.gain@,
        words_of(mechanism_row_text(r))[3] == or_dash_text(r.peak),
        words_of(mechanism_row_text(r))[4] == or_dash_text(r.rms),
        words_of(mechanism_row_text(r))[5] == r.decay@,
        words_of(mechanism_row_text(r))[6] == r.centroid@,
        words_of(mechanism_row_text(r))[7] == r.length@,
{
    reveal_strlit(" ");
    reveal_strlit("\n");
    let p0 = Seq::<char>::empty();
    a_right_word_begins(p0, r.name@, 14);
    let p1 = p0 + right_in(r.name@, 14);
    a_gap_adds_nothing(p1, " "@);
    let p2 = p1 + " "@;
    a_right_word_begins(p2, or_dash_text(r.key), 5);
    let p3 = p2 + right_in(or_dash_text(r.key), 5);
    a_gap_adds_nothing(p3, " "@);
    let p4 = p3 + " "@;
    a_right_word_begins(p4, r.gain@, 10);
    let p5 = p4 + right_in(r.gain@, 10);
    a_gap_adds_nothing(p5, " "@);
    let p6 = p5 + " "@;
    a_right_word_begins(p6, or_dash_text(r.peak), 15);
    let p7 = p6 + right_in(or_dash_text(r.peak), 15);
    a_gap_adds_nothing(p7, " "@);
    let p8 = p7 + " "@;
    a_right_word_begins(p8, or_dash_text(r.rms), 15);
    let p9 = p8 + right_in(or_dash_text(r.rms), 15);
    a_gap_adds_nothing(p9, " "@);
    let p10 = p9 + " "@;
    a_right_word_begins(p10, r.decay@, 17);
    let p11 = p10 + right_in(r.decay@, 17);
    a_gap_adds_nothing(p11, " "@);
    let p12 = p11 + " "@;
    a_right_word_begins(p12, r.centroid@, 13);
    let p13 = p12 + right_in(r.centroid@, 13);
    a_gap_adds_nothing(p13, " "@);
    let p14 = p13 + " "@;
    a_right_word_begins(p14, r.length@, 10);
    let p15 = p14 + right_in(r.length@, 10);
    a_gap_adds_nothing(p15, "\n"@);
    let p16 = p15 + "\n"@;
    assert(mechanism_row_text(r) == p16);
}

/// Each number of `attack_row` stands in its place among the words.
#[verifier::rlimit(30)]
pub proof fn the_words_of_attack_row_stand_in_order(r: AttackRow)
    requires
        is_word(r.source@),
        is_word(r.window@),
        is_word(r.reference@),
        is_word(r.slide@),
    ensures
        words_of(attack_row_text(r)).len() == 6,
        words_of(attack_row_text(r))[0] == r.source@,
        words_of(attack_row_text(r))[1] == decimal(r.key as nat),
        words_of(attack_row_text(r))[2] == decimal(r.velocity as nat),
        words_of(attack_row_text(r))[3] == r.window@,
        words_of(attack_row_text(r))[4] == r.reference@,
        words_of(attack_row_text(r))[5] == r.slide@,
{
    reveal_strlit(" ");
    reveal_strlit("   ");
    reveal_strlit("\n");
    a_number_is_a_word(r.key as nat);
    a_number_is_a_word(r.velocity as nat);
    let p0 = Seq::<char>::empty();
    a_right_word_begins(p0, r.source@, 10);
    let p1 = p0 + right_in(r.source@, 10);
    a_gap_adds_nothing(p1, " "@);
    let p2 = p1 + " "@;
    a_right_word_begins(p2, decimal(r.key as nat), 4);
    let p3 = p2 + right_in(decimal(r.key as nat), 4);
    a_gap_adds_nothing(p3, " "@);
    let p4 = p3 + " "@;
    a_right_word_begins(p4, decimal(r.velocity as nat), 4);
    let p5 = p4 + right_in(decimal(r.velocity as nat), 4);
    a_gap_adds_nothing(p5, " "@);
    let p6 = p5 + " "@;
    a_right_word_begins(p6, r.window@, 10);
    let p7 = p6 + right_in(r.window@, 10);
    a_gap_adds_nothing(p7, " "@);
    let p8 = p7 + " "@;
    a_right_word_begins(p8, r.reference@, 13);
    let p9 = p8 + right_in(r.reference@, 13);
    a_gap_adds_nothing(p9, "   "@);
    let p10 = p9 + "   "@;
    a_word_begins(p10, r.slide@);
    let p11 = p10 + r.slide@;
    a_gap_adds_nothing(p11, "\n"@);
    let p12 = p11 + "\n"@;
    assert(attack_row_text(r) == p12);
}

/// Each number of `key_row` stands in its place among the words.
#[verifier::rlimit(30)]
pub proof fn the_words_of_key_row_stand_in_order(r: KeyRow)
    requires
        is_word(r.layer.inharmonic@),
        is_word(r.worst@),
        decimal(r.worst_k as nat).len() < 2,
        is_word(or_dash_text(r.layer.glide_first)),
        is_word(or_dash_text(r.layer.glide)),
        is_word(r.layer.envelope@),
        is_word(or_dash_text(r.layer.trend)),
        is_word(or_dash_text(r.layer.excitation)),
        is_word(or_dash_text(r.excitation_worst)),
        is_word(r.preset@),
        is_word(r.preset_worst@),
        decimal(r.preset_worst_k as nat).len() < 2,
        is_word(r.preset_trusted@),
        is_word(or_dash_text(r.low)),
        is_word(or_dash_text(r.high)),
        is_word(or_dash_text(r.ratio)),
    ensures
        words_of(key_row_text(r)).len() == 22,
        words_of(key_row_text(r))[0] == decimal(r.key as nat),
        words_of(key_row_text(r))[1] == decimal(r.layers as nat),
        words_of(key_row_text(r))[2] == decimal(r.layer.partials as nat),
        words_of(key_row_text(r))[3] == r.layer.inharmonic@ + "c"@,
        words_of(key_row_text(r))[4] == r.worst@ + "c"@,
        words_of(key_row_text(r))[6] == decimal(r.worst_k as nat) + ")"@,
        words_of(key_row_text(r))[7] == or_dash_text(r.layer.glide_first),
        words_of(key_row_text(r))[8] == or_dash_text(r.layer.glide),
        words_of(key_row_text(r))[9] == r.layer.envelope@,
        words_of(key_row_text(r))[10] == or_dash_text(r.layer.trend),
        words_of(key_row_text(r))[11] == or_dash_text(r.layer.excitation),
        words_of(key_row_text(r))[12] == or_dash_text(r.excitation_worst),
        words_of(key_row_text(r))[13] == r.preset@ + "c"@,
        words_of(key_row_text(r))[14] == r.preset_worst@ + "c"@,
        words_of(key_row_text(r))[16] == decimal(r.preset_worst_k as nat) + ")"@,
        words_of(key_row_text(r))[17] == decimal(r.trusted as nat),
        words_of(key_row_text(r))[18] == r.preset_trusted@ + "c"@,
        words_of(key_row_text(r))[19] == or_dash_text(r.low),
        words_of(key_row_text(r))[20] == or_dash_text(r.high),
        words_of(key_row_text(r))[21] == or_dash_text(r.ratio),
{
    reveal_strlit(" ");
    reveal_strlit("  ");
    reveal_strlit("c ");
    reveal_strlit("c");
    reveal_strlit("c (");
    reveal_strlit("(");
    reveal_strlit(") ");
    reveal_strlit(")");
    reveal_strlit("\n");
    a_number_is_a_word(r.key as nat);
    a_number_is_a_word(r.layers as nat);
    a_number_is_a_word(r.layer.partials as nat);
    a_number_is_a_word(r.worst_k as nat);
    a_number_is_a_word(r.preset_worst_k as nat);
    a_number_is_a_word(r.trusted as nat);
    let p0 = Seq::<char>::empty();
    a_right_word_begins(p0, decimal(r.key as nat), 4);
    let p1 = p0 + right_in(decimal(r.key as nat), 4);
    a_gap_adds_nothing(p1, " "@);
    let p2 = p1 + " "@;
    a_right_word_begins(p2, decimal(r.layers as nat), 3);
    let p3 = p2 + right_in(decimal(r.layers as nat), 3);
    a_gap_adds_nothing(p3, "  "@);
    let p4 = p3 + "  "@;
    a_right_word_begins(p4, decimal(r.layer.partials as nat), 8);
    let p5 = p4 + right_in(decimal(r.layer.partials as nat), 8);
    a_gap_adds_nothing(p5, "  "@);
    let p6 = p5 + "  "@;
    a_right_word_begins(p6, r.layer.inharmonic@, 10);
    let p7 = p6 + right_in(r.layer.inharmonic@, 10);
    a_word_goes_on(p7, "c"@);
    a_gap_adds_nothing(p7 + "c"@, " "@);
    let p8 = p7 + "c "@;
    assert(p8 =~= p7 + "c"@ + " "@);
    a_right_word_begins(p8, r.worst@, 7);
    let p9 = p8 + right_in(r.worst@, 7);
    a_word_goes_on(p9, "c"@);
    a_gap_adds_nothing(p9 + "c"@, " "@);
    a_word_begins(p9 + "c"@ + " "@, "("@);
    let p10 = p9 + "c ("@;
    assert(p10 =~= p9 + "c"@ + " "@ + "("@);
    a_right_word_stands_apart(p10, decimal(r.worst_k as nat), 2);
    let p11 = p10 + right_in(decimal(r.worst_k as nat), 2);
    a_word_goes_on(p11, ")"@);
    a_gap_adds_nothing(p11 + ")"@, " "@);
    let p12 = p11 + ") "@;
    assert(p12 =~= p11 + ")"@ + " "@);
    a_right_word_begins(p12, or_dash_text(r.layer.glide_first), 9);
    let p13 = p12 + right_in(or_dash_text(r.layer.glide_first), 9);
    a_gap_adds_nothing(p13, " "@);
    let p14 = p13 + " "@;
    a_right_word_begins(p14, or_dash_text(r.layer.glide), 10);
    let p15 = p14 + right_in(or_dash_text(r.layer.glide), 10);
    a_gap_adds_nothing(p15, " "@);
    let p16 = p15 + " "@;
    a_right_word_begins(p16, r.layer.envelope@, 9);
    let p17 = p16 + right_in(r.layer.envelope@, 9);
    a_gap_adds_nothing(p17, " "@);
    let p18 = p17 + " "@;
    a_right_word_begins(p18, or_dash_text(r.layer.trend), 10);
    let p19 = p18 + right_in(or_dash_text(r.layer.trend), 10);
    a_gap_adds_nothing(p19, " "@);
    let p20 = p19 + " "@;
    a_right_word_begins(p20, or_dash_text(r.layer.excitation), 11);
    let p21 = p20 + right_in(or_dash_text(r.layer.excitation), 11);
    a_gap_adds_nothing(p21, " "@);
    let p22 = p21 + " "@;
    a_right_word_begins(p22, or_dash_text(r.excitation_worst), 13);
    let p23 = p22 + right_in(or_dash_text(r.excitation_worst), 13);
    a_gap_adds_nothing(p23, " "@);
    let p24 = p23 + " "@;
    a_right_word_begins(p24, r.preset@, 11);
    let p25 = p24 + right_in(r.preset@, 11);
    a_word_goes_on(p25, "c"@);
    a_gap_adds_nothing(p25 + "c"@, " "@);
    let p26 = p25 + "c "@;
    assert(p26 =~= p25 + "c"@ + " "@);
    a_right_word_begins(p26, r.preset_worst@, 7);
    let p27 = p26 + right_in(r.preset_worst@, 7);
    a_word_goes_on(p27, "c"@);
    a_gap_adds_nothing(p27 + "c"@, " "@);
    a_word_begins(p27 + "c"@ + " "@, "("@);
    let p28 = p27 + "c ("@;
    assert(p28 =~= p27 + "c"@ + " "@ + "("@);
    a_right_word_stands_apart(p28, decimal(r.preset_worst_k as nat), 2);
    let p29 = p28 + right_in(decimal(r.preset_worst_k as nat), 2);
    a_word_goes_on(p29, ")"@);
    a_gap_adds_nothing(p29 + ")"@, " "@);
    let p30 = p29 + ") "@;
    assert(p30 =~= p29 + ")"@ + " "@);
    a_right_word_begins(p30, decimal(r.trusted as nat), 8);
    let p31 = p30 + right_in(decimal(r.trusted as nat), 8);
    a_gap_adds_nothing(p31, " "@);
    let p32 = p31 + " "@;
    a_right_word_begins(p32, r.preset_trusted@, 14);
    let p33 = p32 + right_in(r.preset_trusted@, 14);
    a_word_goes_on(p33, "c"@);
    a_gap_adds_nothing(p33 + "c"@, " "@);
    let p34 = p33 + "c "@;
    assert(p34 =~= p33 + "c"@ + " "@);
    a_right_word_begins(p34, or_dash_text(r.low), 9);
    let p35 = p34 + right_in(or_dash_text(r.low), 9);
    a_gap_adds_nothing(p35, " "@);
    let p36 = p35 + " "@;
    a_right_word_begins(p36, or_dash_text(r.high), 10);
    let p37 = p36 + right_in(or_dash_text(r.high), 10);
    a_gap_adds_nothing(p37, " "@);
    let p38 = p37 + " "@;
    a_right_word_begins(p38, or_dash_text(r.ratio), 7);
    let p39 = p38 + right_in(or_dash_text(r.ratio), 7);
    a_gap_adds_nothing(p39, "\n"@);
    let p40 = p39 + "\n"@;
    assert(key_row_text(r) == p40);
}

/// Each number of `band_row` stands in its place among the words.
#[verifier::rlimit(30)]
pub proof fn the_words_of_band_row_stand_in_order(r: BandRow)
    requires
        is_word(r.low@),
        is_word(r.high@),
        is_word(r.mean@),
        is_word(r.spread@),
    ensures
        words_of(band_row_text(r)).len() == 5,
        words_of(band_row_text(r))[0] == r.low@ + "-"@ + r.high@,
        words_of(band_row_text(r))[1] == decimal(r.notes as nat),
        words_of(band_row_text(r))[2] == decimal(r.partials as nat),
        words_of(band_row_text(r))[3] == r.mean@,
        words_of(band_row_text(r))[4] == r.spread@,
{
    reveal_strlit("-");
    reveal_strlit(" ");
    reveal_strlit("\n");
    a_number_is_a_word(r.notes as nat);
    a_number_is_a_word(r.partials as nat);
    let p0 = Seq::<char>::empty();
    a_right_word_begins(p0, r.low@, 6);
    let p1 = p0 + right_in(r.low@, 6);
    a_word_goes_on(p1, "-"@);
    let p2 = p1 + "-"@;
    a_left_word_goes_on(p2, r.high@, 6);
    let p3 = p2 + left_in(r.high@, 6);
    a_gap_adds_nothing(p3, " "@);
    let p4 = p3 + " "@;
    a_right_word_begins(p4, decimal(r.notes as nat), 5);
    let p5 = p4 + right_in(decimal(r.notes as nat), 5);
    a_gap_adds_nothing(p5, " "@);
    let p6 = p5 + " "@;
    a_right_word_begins(p6, decimal(r.partials as nat), 9);
    let p7 = p6 + right_in(decimal(r.partials as nat), 9);
    a_gap_adds_nothing(p7, " "@);
    let p8 = p7 + " "@;
    a_right_word_begins(p8, r.mean@, 9);
    let p9 = p8 + right_in(r.mean@, 9);
    a_gap_adds_nothing(p9, " "@);
    let p10 = p9 + " "@;
    a_right_word_begins(p10, r.spread@, 24);
    let p11 = p10 + right_in(r.spread@, 24);
    a_gap_adds_nothing(p11, "\n"@);
    let p12 = p11 + "\n"@;
    assert(band_row_text(r) == p12);
}

/// Each number of `control_row` stands in its place among the words.
#[verifier::rlimit(30)]
pub proof fn the_words_of_control_row_stand_in_order(r: ControlRow)
    requires
        is_word(r.layer.inharmonic@),
        is_word(r.worst@),
        decimal(r.worst_k as nat).len() < 2,
        is_word(or_dash_text(r.layer.glide_first)),
        is_word(or_dash_text(r.layer.glide)),
        is_word(r.layer.envelope@),
        is_word(or_dash_text(r.layer.trend)),
        is_word(or_dash_text(r.layer.excitation)),
    ensures
        words_of(control_row_text(r)).len() == 11,
        words_of(control_row_text(r))[0] == decimal(r.key as nat),
        words_of(control_row_text(r))[1] == decimal(r.layer.partials as nat),
        words_of(control_row_text(r))[2] == r.layer.inharmonic@ + "c"@,
        words_of(control_row_text(r))[3] == r.worst@ + "c"@,
        words_of(control_row_text(r))[5] == decimal(r.worst_k as nat) + ")"@,
        words_of(control_row_text(r))[6] == or_dash_text(r.layer.glide_first),
        words_of(control_row_text(r))[7] == or_dash_text(r.layer.glide),
        words_of(control_row_text(r))[8] == r.layer.envelope@,
        words_of(control_row_text(r))[9] == or_dash_text(r.layer.trend),
        words_of(control_row_text(r))[10] == or_dash_text(r.layer.excitation),
{
    reveal_strlit(" ");
    reveal_strlit("c ");
    reveal_strlit("c");
    reveal_strlit("c (");
    reveal_strlit("(");
    reveal_strlit(") ");
    reveal_strlit(")");
    reveal_strlit("\n");
    a_number_is_a_word(r.key as nat);
    a_number_is_a_word(r.layer.partials as nat);
    a_number_is_a_word(r.worst_k as nat);
    let p0 = Seq::<char>::empty();
    a_right_word_begins(p0, decimal(r.key as nat), 4);
    let p1 = p0 + right_in(decimal(r.key as nat), 4);
    a_gap_adds_nothing(p1, " "@);
    let p2 = p1 + " "@;
    a_right_word_begins(p2, decimal(r.layer.partials as nat), 9);
    let p3 = p2 + right_in(decimal(r.layer.partials as nat), 9);
    a_gap_adds_nothing(p3, " "@);
    let p4 = p3 + " "@;
    a_right_word_begins(p4, r.layer.inharmonic@, 12);
    let p5 = p4 + right_in(r.layer.inharmonic@, 12);
    a_word_goes_on(p5, "c"@);
    a_gap_adds_nothing(p5 + "c"@, " "@);
    let p6 = p5 + "c "@;
    assert(p6 =~= p5 + "c"@ + " "@);
    a_right_word_begins(p6, r.worst@, 7);
    let p7 = p6 + right_in(r.worst@, 7);
    a_word_goes_on(p7, "c"@);
    a_gap_adds_nothing(p7 + "c"@, " "@);
    a_word_begins(p7 + "c"@ + " "@, "("@);
    let p8 = p7 + "c ("@;
    assert(p8 =~= p7 + "c"@ + " "@ + "("@);
    a_right_word_stands_apart(p8, decimal(r.worst_k as nat), 2);
    let p9 = p8 + right_in(decimal(r.worst_k as nat), 2);
    a_word_goes_on(p9, ")"@);
    a_gap_adds_nothing(p9 + ")"@, " "@);
    let p10 = p9 + ") "@;
    assert(p10 =~= p9 + ")"@ + " "@);
    a_right_word_begins(p10, or_dash_text(r.layer.glide_first), 10);
    let p11 = p10 + right_in(or_dash_text(r.layer.glide_first), 10);
    a_gap_adds_nothing(p11, " "@);
    let p12 = p11 + " "@;
    a_right_word_begins(p12, or_dash_text(r.layer.glide), 10);
    let p13 = p12 + right_in(or_dash_text(r.layer.glide), 10);
    a_gap_adds_nothing(p13, " "@);
    let p14 = p13 + " "@;
    a_right_word_begins(p14, r.layer.envelope@, 9);
    let p15 = p14 + right_in(r.layer.envelope@, 9);
    a_gap_adds_nothing(p15, " "@);
    let p16 = p15 + " "@;
    a_right_word_begins(p16, or_dash_text(r.layer.trend), 10);
    let p17 = p16 + right_in(or_dash_text(r.layer.trend), 10);
    a_gap_adds_nothing(p17, " "@);
    let p18 = p17 + " "@;
    a_right_word_begins(p18, or_dash_text(r.layer.excitation), 11);
    let p19 = p18 + right_in(or_dash_text(r.layer.excitation), 11);
    a_gap_adds_nothing(p19, "\n"@);
    let p20 = p19 + "\n"@;
    assert(control_row_text(r) == p20);
}

} // verus!
