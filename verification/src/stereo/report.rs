//! The report on the stereo image.

use crate::reading::Reading;
use crate::words::{a_gap_adds_nothing, a_word_begins, fields_of, is_word, one_field, one_more_field, words_of};
use vstd::prelude::*;

verus! {

/// Two numbers, as they are printed.
pub struct Pair {
    pub first: String,
    pub second: String,
}

/// One point of a take's curve.
pub struct Point {
    pub hz: Reading,
    pub hz_text: String,
    /// Under the loudest, in dB.
    pub level: Reading,
    /// The correlation at no lag, as it is printed.
    pub zero: String,
}

/// One take, as it is printed: its bands, and its curve.
pub struct TakeRow {
    pub name: String,
    pub title: String,
    pub zero: Vec<String>,
    pub broadband: String,
    pub mid_side: Vec<String>,
    pub peaks: Vec<Pair>,
    pub shape: Vec<Pair>,
    pub curve: Vec<Point>,
}

/// The lowest point of the curve that is printed, 63 Hz.
pub const LOWEST: u64 = 0x404f_8000_0000_0000;

/// The highest point of the curve that is printed, 4 kHz.
pub const HIGHEST: u64 = 0x40af_4000_0000_0000;

/// The level under which a point says nothing, -60 dB.
pub const FLOOR: u64 = 0xc04e_0000_0000_0000;

pub const SECTION_HEADING_0: &'static str = "\n\n| take | file | 63-125 | 125-250 | 250-500 | 500-2k | 2k-6k | 6k-12k | broadband \
    |\n|---|---|---:|---:|---:|---:|---:|---:|---:|\n";

/// Which piece it is, and the head of its takes.
pub open spec fn section_heading_text(piece: Seq<char>, description: Seq<char>) -> Seq<char> {
    "## `"@
        + piece
        + "` — "@
        + description
        + SECTION_HEADING_0@
}

/// Which piece it is, and the head of its takes.
pub fn section_heading(piece: &str, description: &str) -> (text: String)
    ensures
        text@ == section_heading_text(piece@, description@),
{
    let mut out = String::from_str("## `");
    out.append(piece);
    out.append("` — ");
    out.append(description);
    out.append(SECTION_HEADING_0);
    out
}

/// A cell.
pub open spec fn cell_text(s: String) -> Seq<char> {
    " "@
        + s@
        + " |"@
}

/// A cell.
pub fn cell(s: &String) -> (text: String)
    ensures
        text@ == cell_text(*s),
{
    let mut out = String::from_str(" ");
    out.append(s.as_str());
    out.append(" |");
    out
}

/// Some cells.
pub open spec fn cells_text(rows: Seq<String>) -> Seq<char>
    decreases rows.len(),
{
    if rows.len() == 0 {
        Seq::empty()
    } else {
        cells_text(rows.drop_last()) + cell_text(rows.last())
    }
}

/// Some cells.
pub fn cells(rows: &Vec<String>) -> (text: String)
    ensures
        text@ == cells_text(rows@),
{
    let mut out = String::new();
    let mut i: usize = 0;
    proof {
        assert(rows@.take(0) =~= Seq::<String>::empty());
    }
    while i < rows.len()
        invariant
            i <= rows.len(),
            out@ == cells_text(rows@.take(i as int)),
        decreases rows.len() - i,
    {
        proof {
            assert(rows@.take(i + 1).drop_last() =~= rows@.take(i as int));
        }
        out.append(cell(&rows[i]).as_str());
        i = i + 1;
    }
    proof {
        assert(rows@.take(i as int) =~= rows@);
    }
    out
}

/// A peak, and the lag it is at.
pub open spec fn peak_cell_text(p: Pair) -> Seq<char> {
    " "@
        + p.first@
        + " @ "@
        + p.second@
        + " |"@
}

/// A peak, and the lag it is at.
pub fn peak_cell(p: &Pair) -> (text: String)
    ensures
        text@ == peak_cell_text(*p),
{
    let mut out = String::from_str(" ");
    out.append(p.first.as_str());
    out.append(" @ ");
    out.append(p.second.as_str());
    out.append(" |");
    out
}

/// Some peaks.
pub open spec fn peak_cells_text(rows: Seq<Pair>) -> Seq<char>
    decreases rows.len(),
{
    if rows.len() == 0 {
        Seq::empty()
    } else {
        peak_cells_text(rows.drop_last()) + peak_cell_text(rows.last())
    }
}

/// Some peaks.
pub fn peak_cells(rows: &Vec<Pair>) -> (text: String)
    ensures
        text@ == peak_cells_text(rows@),
{
    let mut out = String::new();
    let mut i: usize = 0;
    proof {
        assert(rows@.take(0) =~= Seq::<Pair>::empty());
    }
    while i < rows.len()
        invariant
            i <= rows.len(),
            out@ == peak_cells_text(rows@.take(i as int)),
        decreases rows.len() - i,
    {
        proof {
            assert(rows@.take(i + 1).drop_last() =~= rows@.take(i as int));
        }
        out.append(peak_cell(&rows[i]).as_str());
        i = i + 1;
    }
    proof {
        assert(rows@.take(i as int) =~= rows@);
    }
    out
}

/// The left channel, and the right.
pub open spec fn shape_cell_text(p: Pair) -> Seq<char> {
    " "@
        + p.first@
        + " / "@
        + p.second@
        + " |"@
}

/// The left channel, and the right.
pub fn shape_cell(p: &Pair) -> (text: String)
    ensures
        text@ == shape_cell_text(*p),
{
    let mut out = String::from_str(" ");
    out.append(p.first.as_str());
    out.append(" / ");
    out.append(p.second.as_str());
    out.append(" |");
    out
}

/// Some channels.
pub open spec fn shape_cells_text(rows: Seq<Pair>) -> Seq<char>
    decreases rows.len(),
{
    if rows.len() == 0 {
        Seq::empty()
    } else {
        shape_cells_text(rows.drop_last()) + shape_cell_text(rows.last())
    }
}

/// Some channels.
pub fn shape_cells(rows: &Vec<Pair>) -> (text: String)
    ensures
        text@ == shape_cells_text(rows@),
{
    let mut out = String::new();
    let mut i: usize = 0;
    proof {
        assert(rows@.take(0) =~= Seq::<Pair>::empty());
    }
    while i < rows.len()
        invariant
            i <= rows.len(),
            out@ == shape_cells_text(rows@.take(i as int)),
        decreases rows.len() - i,
    {
        proof {
            assert(rows@.take(i + 1).drop_last() =~= rows@.take(i as int));
        }
        out.append(shape_cell(&rows[i]).as_str());
        i = i + 1;
    }
    proof {
        assert(rows@.take(i as int) =~= rows@);
    }
    out
}

/// A take's correlations.
pub open spec fn zero_row_text(t: TakeRow, piece: Seq<char>) -> Seq<char> {
    "| "@
        + t.title@
        + " | `"@
        + piece
        + "_"@
        + t.name@
        + ".wav` |"@
        + cells_text(t.zero@)
        + " "@
        + t.broadband@
        + " |\n"@
}

/// A take's correlations.
pub fn zero_row(t: &TakeRow, piece: &str) -> (text: String)
    ensures
        text@ == zero_row_text(*t, piece@),
{
    let mut out = String::from_str("| ");
    out.append(t.title.as_str());
    out.append(" | `");
    out.append(piece);
    out.append("_");
    out.append(t.name.as_str());
    out.append(".wav` |");
    out.append(cells(&t.zero).as_str());
    out.append(" ");
    out.append(t.broadband.as_str());
    out.append(" |\n");
    out
}

/// The takes' correlations.
pub open spec fn zero_rows_text(rows: Seq<TakeRow>, piece: Seq<char>) -> Seq<char>
    decreases rows.len(),
{
    if rows.len() == 0 {
        Seq::empty()
    } else {
        zero_rows_text(rows.drop_last(), piece) + zero_row_text(rows.last(), piece)
    }
}

/// The takes' correlations.
pub fn zero_rows(rows: &Vec<TakeRow>, piece: &str) -> (text: String)
    ensures
        text@ == zero_rows_text(rows@, piece@),
{
    let mut out = String::new();
    let mut i: usize = 0;
    proof {
        assert(rows@.take(0) =~= Seq::<TakeRow>::empty());
    }
    while i < rows.len()
        invariant
            i <= rows.len(),
            out@ == zero_rows_text(rows@.take(i as int), piece@),
        decreases rows.len() - i,
    {
        proof {
            assert(rows@.take(i + 1).drop_last() =~= rows@.take(i as int));
        }
        out.append(zero_row(&rows[i], piece).as_str());
        i = i + 1;
    }
    proof {
        assert(rows@.take(i as int) =~= rows@);
    }
    out
}

/// A take's ratios of mid to side.
pub open spec fn mid_side_row_text(t: TakeRow) -> Seq<char> {
    "| "@
        + t.title@
        + " |"@
        + cells_text(t.mid_side@)
        + "\n"@
}

/// A take's ratios of mid to side.
pub fn mid_side_row(t: &TakeRow) -> (text: String)
    ensures
        text@ == mid_side_row_text(*t),
{
    let mut out = String::from_str("| ");
    out.append(t.title.as_str());
    out.append(" |");
    out.append(cells(&t.mid_side).as_str());
    out.append("\n");
    out
}

/// The takes' ratios of mid to side.
pub open spec fn mid_side_rows_text(rows: Seq<TakeRow>) -> Seq<char>
    decreases rows.len(),
{
    if rows.len() == 0 {
        Seq::empty()
    } else {
        mid_side_rows_text(rows.drop_last()) + mid_side_row_text(rows.last())
    }
}

/// The takes' ratios of mid to side.
pub fn mid_side_rows(rows: &Vec<TakeRow>) -> (text: String)
    ensures
        text@ == mid_side_rows_text(rows@),
{
    let mut out = String::new();
    let mut i: usize = 0;
    proof {
        assert(rows@.take(0) =~= Seq::<TakeRow>::empty());
    }
    while i < rows.len()
        invariant
            i <= rows.len(),
            out@ == mid_side_rows_text(rows@.take(i as int)),
        decreases rows.len() - i,
    {
        proof {
            assert(rows@.take(i + 1).drop_last() =~= rows@.take(i as int));
        }
        out.append(mid_side_row(&rows[i]).as_str());
        i = i + 1;
    }
    proof {
        assert(rows@.take(i as int) =~= rows@);
    }
    out
}

/// A take's peaks.
pub open spec fn peak_row_text(t: TakeRow) -> Seq<char> {
    "| "@
        + t.title@
        + " |"@
        + peak_cells_text(t.peaks@)
        + "\n"@
}

/// A take's peaks.
pub fn peak_row(t: &TakeRow) -> (text: String)
    ensures
        text@ == peak_row_text(*t),
{
    let mut out = String::from_str("| ");
    out.append(t.title.as_str());
    out.append(" |");
    out.append(peak_cells(&t.peaks).as_str());
    out.append("\n");
    out
}

/// The takes' peaks.
pub open spec fn peak_rows_text(rows: Seq<TakeRow>) -> Seq<char>
    decreases rows.len(),
{
    if rows.len() == 0 {
        Seq::empty()
    } else {
        peak_rows_text(rows.drop_last()) + peak_row_text(rows.last())
    }
}

/// The takes' peaks.
pub fn peak_rows(rows: &Vec<TakeRow>) -> (text: String)
    ensures
        text@ == peak_rows_text(rows@),
{
    let mut out = String::new();
    let mut i: usize = 0;
    proof {
        assert(rows@.take(0) =~= Seq::<TakeRow>::empty());
    }
    while i < rows.len()
        invariant
            i <= rows.len(),
            out@ == peak_rows_text(rows@.take(i as int)),
        decreases rows.len() - i,
    {
        proof {
            assert(rows@.take(i + 1).drop_last() =~= rows@.take(i as int));
        }
        out.append(peak_row(&rows[i]).as_str());
        i = i + 1;
    }
    proof {
        assert(rows@.take(i as int) =~= rows@);
    }
    out
}

/// A take's channels.
pub open spec fn shape_row_text(t: TakeRow) -> Seq<char> {
    "| "@
        + t.title@
        + " |"@
        + shape_cells_text(t.shape@)
        + "\n"@
}

/// A take's channels.
pub fn shape_row(t: &TakeRow) -> (text: String)
    ensures
        text@ == shape_row_text(*t),
{
    let mut out = String::from_str("| ");
    out.append(t.title.as_str());
    out.append(" |");
    out.append(shape_cells(&t.shape).as_str());
    out.append("\n");
    out
}

/// The takes' channels.
pub open spec fn shape_rows_text(rows: Seq<TakeRow>) -> Seq<char>
    decreases rows.len(),
{
    if rows.len() == 0 {
        Seq::empty()
    } else {
        shape_rows_text(rows.drop_last()) + shape_row_text(rows.last())
    }
}

/// The takes' channels.
pub fn shape_rows(rows: &Vec<TakeRow>) -> (text: String)
    ensures
        text@ == shape_rows_text(rows@),
{
    let mut out = String::new();
    let mut i: usize = 0;
    proof {
        assert(rows@.take(0) =~= Seq::<TakeRow>::empty());
    }
    while i < rows.len()
        invariant
            i <= rows.len(),
            out@ == shape_rows_text(rows@.take(i as int)),
        decreases rows.len() - i,
    {
        proof {
            assert(rows@.take(i + 1).drop_last() =~= rows@.take(i as int));
        }
        out.append(shape_row(&rows[i]).as_str());
        i = i + 1;
    }
    proof {
        assert(rows@.take(i as int) =~= rows@);
    }
    out
}

pub const MID_SIDE: &'static str = "\nMid over side, dB — the same rows, the statistic a mono fold-down loses:\n\n| take \
    | 63-125 | 125-250 | 250-500 | 500-2k | 2k-6k | 6k-12k \
    |\n|---|---:|---:|---:|---:|---:|---:|\n";

pub const PEAKS: &'static str = "\nPeak |r| and the lag it sits at, milliseconds (positive: the right channel \
    leads):\n\n| take | 63-125 | 125-250 | 250-500 | 500-2k | 2k-6k | 6k-12k \
    |\n|---|---:|---:|---:|---:|---:|---:|\n";

pub const SHAPES: &'static str = "\nPer-channel spectrum, dB — each channel's share of its own broadband energy minus \
    the same take's mono share, `L / R`. **A pan-pot of one note reads 0.0 / 0.0**; \
    anything else is what the stereo stage did to each loudspeaker, and it is the column \
    three listening complaints turned out to live in (`DECISIONS.md` 392-394):\n\n| take \
    | 63-125 | 125-250 | 250-500 | 500-2k | 2k-6k | 6k-12k \
    |\n|---|---:|---:|---:|---:|---:|---:|\n";

pub const CURVE: &'static str = "\nThe same thing as a curve — sixth-octave `r0`, 63 Hz to 4 kHz, which is where the \
    shape the six bands summarise is actually visible:\n\n| Hz |";

/// A take's name.
pub open spec fn name_cell_text(t: TakeRow) -> Seq<char> {
    " "@
        + t.name@
        + " |"@
}

/// A take's name.
pub fn name_cell(t: &TakeRow) -> (text: String)
    ensures
        text@ == name_cell_text(*t),
{
    let mut out = String::from_str(" ");
    out.append(t.name.as_str());
    out.append(" |");
    out
}

/// The takes' names.
pub open spec fn name_cells_text(rows: Seq<TakeRow>) -> Seq<char>
    decreases rows.len(),
{
    if rows.len() == 0 {
        Seq::empty()
    } else {
        name_cells_text(rows.drop_last()) + name_cell_text(rows.last())
    }
}

/// The takes' names.
pub fn name_cells(rows: &Vec<TakeRow>) -> (text: String)
    ensures
        text@ == name_cells_text(rows@),
{
    let mut out = String::new();
    let mut i: usize = 0;
    proof {
        assert(rows@.take(0) =~= Seq::<TakeRow>::empty());
    }
    while i < rows.len()
        invariant
            i <= rows.len(),
            out@ == name_cells_text(rows@.take(i as int)),
        decreases rows.len() - i,
    {
        proof {
            assert(rows@.take(i + 1).drop_last() =~= rows@.take(i as int));
        }
        out.append(name_cell(&rows[i]).as_str());
        i = i + 1;
    }
    proof {
        assert(rows@.take(i as int) =~= rows@);
    }
    out
}

/// The rule under a take's name.
pub open spec fn rule_cell_text(t: TakeRow) -> Seq<char> {
    "---:|"@
}

/// The rule under a take's name.
pub fn rule_cell(t: &TakeRow) -> (text: String)
    ensures
        text@ == rule_cell_text(*t),
{
    let out = String::from_str("---:|");
    out
}

/// The rules under the takes' names.
pub open spec fn rule_cells_text(rows: Seq<TakeRow>) -> Seq<char>
    decreases rows.len(),
{
    if rows.len() == 0 {
        Seq::empty()
    } else {
        rule_cells_text(rows.drop_last()) + rule_cell_text(rows.last())
    }
}

/// The rules under the takes' names.
pub fn rule_cells(rows: &Vec<TakeRow>) -> (text: String)
    ensures
        text@ == rule_cells_text(rows@),
{
    let mut out = String::new();
    let mut i: usize = 0;
    proof {
        assert(rows@.take(0) =~= Seq::<TakeRow>::empty());
    }
    while i < rows.len()
        invariant
            i <= rows.len(),
            out@ == rule_cells_text(rows@.take(i as int)),
        decreases rows.len() - i,
    {
        proof {
            assert(rows@.take(i + 1).drop_last() =~= rows@.take(i as int));
        }
        out.append(rule_cell(&rows[i]).as_str());
        i = i + 1;
    }
    proof {
        assert(rows@.take(i as int) =~= rows@);
    }
    out
}

/// A take's correlation at one point of the curve; a dash where it has none or
/// is too quiet to say.
pub open spec fn point_cell_text(t: TakeRow, i: int) -> Seq<char> {
    if i < t.curve@.len() && (Reading { bits: FLOOR }).below(t.curve@[i].level) {
        " "@ + t.curve@[i].zero@ + " |"@
    } else {
        " — |"@
    }
}

/// A take's correlation at one point of the curve.
pub fn point_cell(t: &TakeRow, i: usize) -> (text: String)
    ensures
        text@ == point_cell_text(*t, i as int),
{
    let floor = Reading { bits: FLOOR };
    if i < t.curve.len() && floor.lt(&t.curve[i].level) {
        let mut out = String::from_str(" ");
        out.append(t.curve[i].zero.as_str());
        out.append(" |");
        out
    } else {
        String::from_str(" — |")
    }
}

/// The takes' correlations at one point of the curve.
pub open spec fn point_cells_text(takes: Seq<TakeRow>, i: int) -> Seq<char>
    decreases takes.len(),
{
    if takes.len() == 0 {
        Seq::empty()
    } else {
        point_cells_text(takes.drop_last(), i) + point_cell_text(takes.last(), i)
    }
}

/// The takes' correlations at one point of the curve.
pub fn point_cells(takes: &Vec<TakeRow>, i: usize) -> (text: String)
    ensures
        text@ == point_cells_text(takes@, i as int),
{
    let mut out = String::new();
    let mut k: usize = 0;
    proof {
        assert(takes@.take(0) =~= Seq::<TakeRow>::empty());
    }
    while k < takes.len()
        invariant
            k <= takes.len(),
            out@ == point_cells_text(takes@.take(k as int), i as int),
        decreases takes.len() - k,
    {
        proof {
            assert(takes@.take(k + 1).drop_last() =~= takes@.take(k as int));
        }
        out.append(point_cell(&takes[k], i).as_str());
        k = k + 1;
    }
    proof {
        assert(takes@.take(k as int) =~= takes@);
    }
    out
}

/// Whether a point of the curve is printed.
pub open spec fn is_printed(p: Point) -> bool {
    !p.hz.below(Reading { bits: LOWEST }) && !(Reading { bits: HIGHEST }).below(p.hz)
}

/// The rows of the first `n` points of the curve; the first take says where the
/// points are.
pub open spec fn curve_rows_text(takes: Seq<TakeRow>, n: int) -> Seq<char>
    decreases n,
{
    if n <= 0 {
        Seq::empty()
    } else {
        let p = takes[0].curve@[n - 1];
        let before = curve_rows_text(takes, n - 1);
        if is_printed(p) {
            before + ("| "@ + p.hz_text@ + " |"@ + point_cells_text(takes, n - 1) + "\n"@)
        } else {
            before
        }
    }
}

fn curve_row(takes: &Vec<TakeRow>, i: usize) -> (text: String)
    requires
        takes.len() > 0,
        i < takes@[0].curve.len(),
    ensures
        text@ == "| "@ + takes@[0].curve@[i as int].hz_text@ + " |"@ + point_cells_text(
            takes@,
            i as int,
        ) + "\n"@,
{
    let mut out = String::from_str("| ");
    out.append(takes[0].curve[i].hz_text.as_str());
    out.append(" |");
    out.append(point_cells(takes, i).as_str());
    out.append("\n");
    out
}

/// The rows of the curve.
pub fn curve_rows(takes: &Vec<TakeRow>) -> (text: String)
    requires
        takes.len() > 0,
    ensures
        text@ == curve_rows_text(takes@, takes@[0].curve@.len() as int),
{
    let mut out = String::new();
    let n: usize = takes[0].curve.len();
    let mut i: usize = 0;
    while i < n
        invariant
            takes.len() > 0,
            n == takes@[0].curve.len(),
            i <= n,
            out@ == curve_rows_text(takes@, i as int),
        decreases n - i,
    {
        let p = &takes[0].curve[i];
        let low = Reading { bits: LOWEST };
        let high = Reading { bits: HIGHEST };
        if !p.hz.lt(&low) && !high.lt(&p.hz) {
            out.append(curve_row(takes, i).as_str());
        }
        i = i + 1;
    }
    out
}

/// One piece of music, through all of its takes.
pub open spec fn section_text(piece: Seq<char>, description: Seq<char>, takes: Seq<TakeRow>) -> Seq<char> {
    section_heading_text(piece, description)
        + zero_rows_text(takes, piece)
        + MID_SIDE@
        + mid_side_rows_text(takes)
        + PEAKS@
        + peak_rows_text(takes)
        + SHAPES@
        + shape_rows_text(takes)
        + CURVE@
        + name_cells_text(takes)
        + "\n|---:|"@
        + rule_cells_text(takes)
        + "\n"@
        + curve_rows_text(takes, takes[0].curve@.len() as int)
        + "\n"@
}

/// One piece of music, through all of its takes.
pub fn section(piece: &str, description: &str, takes: &Vec<TakeRow>) -> (text: String)
    requires
        takes.len() > 0,
    ensures
        text@ == section_text(piece@, description@, takes@),
{
    let mut out = section_heading(piece, description);
    out.append(zero_rows(takes, piece).as_str());
    out.append(MID_SIDE);
    out.append(mid_side_rows(takes).as_str());
    out.append(PEAKS);
    out.append(peak_rows(takes).as_str());
    out.append(SHAPES);
    out.append(shape_rows(takes).as_str());
    out.append(CURVE);
    out.append(name_cells(takes).as_str());
    out.append("\n|---:|");
    out.append(rule_cells(takes).as_str());
    out.append("\n");
    out.append(curve_rows(takes).as_str());
    out.append("\n");
    out
}

/// What is said where the band was retired.
pub const MILESTONE: &'static str = "\n## What removing the band changed, and what these files are\n\n**The shipped preset \
    carries no `[voicing.mics.modal]`.** So `_engine` and\n`_pair` are the same \
    instrument, sample for sample, and the fourth engine take\n`_m17` is the band that \
    shipped from item 418 to item 449 — `174.3-456.5 Hz`\nat a lift of `0.99` — put back \
    on today's pair and on nothing else. That is\nthe A/B this board now exists for, and \
    it is the one the listener made: play\n`ode_soprano_m17.wav` and \
    `ode_soprano_engine.wav` one after the other.\n\nWhat to listen for is **not** a \
    width difference. The band's two edges bracket\nevery fundamental of this line — \
    261.6 to 392.0 Hz inside 174.3-456.5 — and\n**none** of those notes' second partials, \
    which start at 523 Hz. `L = m(1+B)`\nand `R = m(1−B)`, so wherever `Re B > 0` the \
    band is not a widener but a\n**pan**: on `_m17` each note's *pitch* is pulled towards \
    one loudspeaker while\nthat same note's *colour* stays where the pair put it, and the \
    ear is handed a\nnote arriving from two places at once. Measured on this very render, \
    F4's\nfundamental sits **21.8 dB** away from its own second, third and \
    fourth\npartials in the image, and G4's **16.8**, where the recording's F4 sits 1.4 \
    dB\nfrom its own — `renders/melody/MELODY.md`'s `splitting` column, item 451. \
    A\nlistener hears that as the note coming apart, part of what was reported —\nthe C4 \
    percept itself traced further, to items 452-453's mono-domain level\nand decay \
    defects — and the preset's own `f0` table is right to 0.3 cents.\n\nThe mono \
    fold-down of all four engine takes is identical, so none of this is a\nlevel and none \
    of it is audible in mono.\n\n";

pub const OPENING: &'static str = "# The stereo image, heard\n\n*`piano-tuner stereo` — `PHYSICS.md` §8, `DECISIONS.md` \
    313-317, 346-379,\n392-425 and 446-453.*\n";

pub const ACCOUNT: &'static str = "\nEvery other board in `renders/` scores a **mono sum**, on purpose: a \
    stereo\ndistance would mostly measure somebody else's microphones. This one is \
    the\nexception, and it exists because the largest single difference ever \
    measured\nbetween this engine and the recording was invisible to all of them — \
    the\nrecording's two channels correlate at **+0.95 below 125 Hz and about zero\nabove \
    it**, and the engine's did exactly the reverse (item 314).\n\nTwo pieces of music. \
    The engine takes share **one\ngain**, because they share a mono sum sample for \
    sample: fold any two of\nthem down and the difference is `f32` rounding. Everything \
    you can hear\nbetween them is side energy, which is the subject. The recording is \
    matched\nseparately.\n\nThe tables are `realism::stereo_image`: the lag-zero \
    interchannel\ncorrelation per band, the largest |r| over ±5 ms and where it sits, and \
    the\nmid-over-side energy ratio. The row to read is `125-250` and `250-500`,\nwhere \
    the recording is **negative** — its difference is larger than its sum,\nwhich is a \
    soundboard's modes seen from two capsules that straddle a nodal\nline, and which a \
    mono fold-down throws away.\n\nThe **fourth** table under each piece is \
    `realism::channel_shape`, and it is\nthere because the three above it are not enough: \
    a correlation is normalised\nper channel and a mid-over-side ratio is a sum, so all \
    three are blind to\nwhat one loudspeaker's own spectrum does. A stage can leave the \
    mono sum\nbit-identical, match the recording's coherence band for band, and still \
    put\none speaker 9 dB up and the other 21 dB *down* at a single note's\nfundamental — \
    which is what the mode-controlled band did, and what a listener\nreported three \
    separate ways while every gate stayed green (item 392).\n\n## What item 418's rail \
    changed, complaint by complaint\n\n`[voicing.mics.modal].lift` is railed at **one** \
    since item 418 and the pair is\nrefitted under it, so these takes are not the ones \
    items 392-394 were written\non. The lobe is `L = m(1 + B)`, `R = m(1 − B)` where `B` \
    is the band's\n**complex** response — items 392-418 wrote it as a real `g` and item \
    423 is the\ncorrection, which is worth up to 13 dB and changes two of the three \
    findings.\nWhat the rail makes **unbuildable** is `|B| > 1`: no channel inversion \
    in\neither loudspeaker (on the pre-418 preset the left was inverted over\n232.0-272.3 \
    Hz and the right over 316.0-357.4), no pitch-dependent flip of\nwhich one carries it, \
    and a pair-energy ceiling of `10 log10(1 + |B|²)` =\n**+3.01 dB** against the old \
    lobe's realised **+6.18**. What it does **not**\nremove is per-channel level loss, \
    and it **deepens** it: `1 ± B` is smallest\nwhere `|B|` is nearest *one*, so a lift \
    of 0.99 across a wide band is a worse\nnull than a lift of 2.12 across a narrow one. \
    The old lobe's deepest\none-channel loss was **−20.5 dB at 349.8 Hz**, in the right \
    channel; the\nshipped one reaches **−33.1 dB at 221.4 Hz — in the *left* channel, at \
    A3's\nown fundamental** — with either channel more than 10 dB down over \
    0.286\noctaves against the old lobe's 0.105. There are **no exact nulls and \
    never\nwere**: at `|B| = 1` the loss is `2|sin(arg B / 2)|`, so item 392's \
    \"unity\ncrossings at 213.0 and 359.6 Hz\" null nothing.\n\nRe-measured on these \
    renders' own instrument with\n`forensics/src/bin/stereo_channels.rs`, against item \
    392's numbers for the same\nstatistics (item 425):\n\n* **(a) \"the C4 of the melody \
    line stands out\" — resolved.** The old band's\ngain peaked at 261.7 Hz, half a cent \
    from C4, and pair-over-mono energy read\n**C4 +6.42 dB**, the loudest note of the \
    line by 0.9 dB, with adjacent\nsemitones 6.7 dB apart. The shipped band's own \
    prediction is flat across the\nline at **+2.45 to +2.94 dB**, and measured through \
    the whole chain C4 reads\n**+4.07** with E4 above it at **+4.36**; the recording's \
    own C4 sits +1.72\nabove its line's trend. No note is singled out any more.\n\n* \
    **(b) \"the hammer noise is too loud\" — the inversion is gone, a loss of\nthe same \
    order is not.** The complaint was a denominator: the burst was\nuntouched and the \
    note's own *fundamental* was leaving one channel, so what\nwas left there read as \
    noise. Measured against a pan-pot at each note's\nfundamental, **F#4 goes R −18.33 → \
    −6.54 dB** and **F4 R −9.61 → −10.09**:\nthe worst per-channel loss on the line \
    improves by 8 dB and moves note. The\nlobe's own notch moves the *other* way — \
    deepest right-channel loss −20.5 dB\nat 349.8 Hz before and −20.2 at 373.9 after, the \
    same depth one semitone up —\nbecause in a channel the lobe has nulled what is left \
    is the pair's\n**geometric** side, and that is what sets the depth and the frequency \
    a\nlistener actually gets. **What is structurally gone is the sign**: `L +7.17 /\nR \
    −9.61` at F4 against `L +0.70 / R +9.43` at C4 was one loudspeaker carrying\nthe note \
    inverted against the other, with the flip landing in the middle of\nthe tune, and no \
    preset this schema accepts can do that now. **What is not\ngone is the loss**, whose \
    deepest point under the rail has moved to the left\nchannel at 221.4 Hz (item \
    423).\n\n* **(c) \"the reference chords have more brilliance\" — the right \
    channel's\nshare is retired, the left channel's is where it was.** Brilliance as \
    a\n2-6 kHz over 250-500 Hz tilt, engine minus reference: `dmono` is **−8.15 dB\nand \
    identical on all three engine takes**, which is the control that says the\nmono \
    deficit is pre-existing and the microphone section is innocent of it. On\ntop of \
    that, the lobe's own share — engine minus the pair-only take, per\nchannel — moves \
    **L −4.95 → −4.23 dB** and **R −2.64 → +0.18**. The larger\none, and the one the \
    complaint was about, is 0.7 dB better and still there.\n\nSo one of the three \
    complaints is gone, one has lost its mechanism but not its\nlevel, and one is half \
    gone. The residual is what the two documented reds\nmeasure (`CONTEXT.md`), and item \
    421 is the arithmetic that says a bar may not\nmove to close them.\n\n";

/// The whole report; `bare` where the preset has no mode-controlled band.
pub open spec fn report_text(bare: bool, sections: Seq<char>) -> Seq<char> {
    OPENING@ + (if bare {
        MILESTONE@
    } else {
        Seq::empty()
    }) + ACCOUNT@ + sections
}

/// The whole report; `bare` where the preset has no mode-controlled band.
pub fn report(bare: bool, sections: &str) -> (text: String)
    ensures
        text@ == report_text(bare, sections@),
{
    let mut out = String::from_str(OPENING);
    if bare {
        out.append(MILESTONE);
    } else {
        proof {
            assert(out@ + Seq::<char>::empty() =~= out@);
        }
    }
    out.append(ACCOUNT);
    out.append(sections);
    out
}

/// What the columns of the table under [`SECTION_HEADING_0`] are named, in order.
#[verifier::rlimit(80)]
#[verifier::spinoff_prover]
pub proof fn the_columns_of_section_heading_0_are_named()
    ensures
        fields_of(SECTION_HEADING_0@, '|').len() == 21,
        fields_of(SECTION_HEADING_0@, '|')[1] == " take "@,
        fields_of(SECTION_HEADING_0@, '|')[2] == " file "@,
        fields_of(SECTION_HEADING_0@, '|')[3] == " 63-125 "@,
        fields_of(SECTION_HEADING_0@, '|')[4] == " 125-250 "@,
        fields_of(SECTION_HEADING_0@, '|')[5] == " 250-500 "@,
        fields_of(SECTION_HEADING_0@, '|')[6] == " 500-2k "@,
        fields_of(SECTION_HEADING_0@, '|')[7] == " 2k-6k "@,
        fields_of(SECTION_HEADING_0@, '|')[8] == " 6k-12k "@,
        fields_of(SECTION_HEADING_0@, '|')[9] == " broadband "@,
{
    reveal_strlit("\n\n");
    reveal_strlit(" take ");
    reveal_strlit(" file ");
    reveal_strlit(" 63-125 ");
    reveal_strlit(" 125-250 ");
    reveal_strlit(" 250-500 ");
    reveal_strlit(" 500-2k ");
    reveal_strlit(" 2k-6k ");
    reveal_strlit(" 6k-12k ");
    reveal_strlit(" broadband ");
    reveal_strlit("\n");
    reveal_strlit("---");
    reveal_strlit("---:");
    reveal_strlit("\n\n| take | file | 63-125 | 125-250 | 250-500 | 500-2k | 2k-6k | 6k-12k | broadband |\n|---|---|---:|---:|---:|---:|---:|---:|---:|\n");
    let h0 = "\n\n"@;
    one_field(h0, '|');
    one_more_field(h0, " take "@, '|');
    let h1 = h0 + seq!['|'] + " take "@;
    one_more_field(h1, " file "@, '|');
    let h2 = h1 + seq!['|'] + " file "@;
    one_more_field(h2, " 63-125 "@, '|');
    let h3 = h2 + seq!['|'] + " 63-125 "@;
    one_more_field(h3, " 125-250 "@, '|');
    let h4 = h3 + seq!['|'] + " 125-250 "@;
    one_more_field(h4, " 250-500 "@, '|');
    let h5 = h4 + seq!['|'] + " 250-500 "@;
    one_more_field(h5, " 500-2k "@, '|');
    let h6 = h5 + seq!['|'] + " 500-2k "@;
    one_more_field(h6, " 2k-6k "@, '|');
    let h7 = h6 + seq!['|'] + " 2k-6k "@;
    one_more_field(h7, " 6k-12k "@, '|');
    let h8 = h7 + seq!['|'] + " 6k-12k "@;
    one_more_field(h8, " broadband "@, '|');
    let h9 = h8 + seq!['|'] + " broadband "@;
    one_more_field(h9, "\n"@, '|');
    let h10 = h9 + seq!['|'] + "\n"@;
    one_more_field(h10, "---"@, '|');
    let h11 = h10 + seq!['|'] + "---"@;
    one_more_field(h11, "---"@, '|');
    let h12 = h11 + seq!['|'] + "---"@;
    one_more_field(h12, "---:"@, '|');
    let h13 = h12 + seq!['|'] + "---:"@;
    one_more_field(h13, "---:"@, '|');
    let h14 = h13 + seq!['|'] + "---:"@;
    one_more_field(h14, "---:"@, '|');
    let h15 = h14 + seq!['|'] + "---:"@;
    one_more_field(h15, "---:"@, '|');
    let h16 = h15 + seq!['|'] + "---:"@;
    one_more_field(h16, "---:"@, '|');
    let h17 = h16 + seq!['|'] + "---:"@;
    one_more_field(h17, "---:"@, '|');
    let h18 = h17 + seq!['|'] + "---:"@;
    one_more_field(h18, "---:"@, '|');
    let h19 = h18 + seq!['|'] + "---:"@;
    one_more_field(h19, "\n"@, '|');
    let h20 = h19 + seq!['|'] + "\n"@;
    assert(SECTION_HEADING_0@ =~= h20);
}

/// What the columns of the table under [`MID_SIDE`] are named, in order.
#[verifier::rlimit(80)]
#[verifier::spinoff_prover]
pub proof fn the_columns_of_mid_side_are_named()
    ensures
        fields_of(MID_SIDE@, '|').len() == 17,
        fields_of(MID_SIDE@, '|')[1] == " take "@,
        fields_of(MID_SIDE@, '|')[2] == " 63-125 "@,
        fields_of(MID_SIDE@, '|')[3] == " 125-250 "@,
        fields_of(MID_SIDE@, '|')[4] == " 250-500 "@,
        fields_of(MID_SIDE@, '|')[5] == " 500-2k "@,
        fields_of(MID_SIDE@, '|')[6] == " 2k-6k "@,
        fields_of(MID_SIDE@, '|')[7] == " 6k-12k "@,
{
    reveal_strlit("\nMid over side, dB — the same rows, the statistic a mono fold-down loses:\n\n");
    reveal_strlit(" take ");
    reveal_strlit(" 63-125 ");
    reveal_strlit(" 125-250 ");
    reveal_strlit(" 250-500 ");
    reveal_strlit(" 500-2k ");
    reveal_strlit(" 2k-6k ");
    reveal_strlit(" 6k-12k ");
    reveal_strlit("\n");
    reveal_strlit("---");
    reveal_strlit("---:");
    reveal_strlit("\nMid over side, dB — the same rows, the statistic a mono fold-down loses:\n\n| take | 63-125 | 125-250 | 250-500 | 500-2k | 2k-6k | 6k-12k |\n|---|---:|---:|---:|---:|---:|---:|\n");
    let h0 = "\nMid over side, dB — the same rows, the statistic a mono fold-down loses:\n\n"@;
    one_field(h0, '|');
    one_more_field(h0, " take "@, '|');
    let h1 = h0 + seq!['|'] + " take "@;
    one_more_field(h1, " 63-125 "@, '|');
    let h2 = h1 + seq!['|'] + " 63-125 "@;
    one_more_field(h2, " 125-250 "@, '|');
    let h3 = h2 + seq!['|'] + " 125-250 "@;
    one_more_field(h3, " 250-500 "@, '|');
    let h4 = h3 + seq!['|'] + " 250-500 "@;
    one_more_field(h4, " 500-2k "@, '|');
    let h5 = h4 + seq!['|'] + " 500-2k "@;
    one_more_field(h5, " 2k-6k "@, '|');
    let h6 = h5 + seq!['|'] + " 2k-6k "@;
    one_more_field(h6, " 6k-12k "@, '|');
    let h7 = h6 + seq!['|'] + " 6k-12k "@;
    one_more_field(h7, "\n"@, '|');
    let h8 = h7 + seq!['|'] + "\n"@;
    one_more_field(h8, "---"@, '|');
    let h9 = h8 + seq!['|'] + "---"@;
    one_more_field(h9, "---:"@, '|');
    let h10 = h9 + seq!['|'] + "---:"@;
    one_more_field(h10, "---:"@, '|');
    let h11 = h10 + seq!['|'] + "---:"@;
    one_more_field(h11, "---:"@, '|');
    let h12 = h11 + seq!['|'] + "---:"@;
    one_more_field(h12, "---:"@, '|');
    let h13 = h12 + seq!['|'] + "---:"@;
    one_more_field(h13, "---:"@, '|');
    let h14 = h13 + seq!['|'] + "---:"@;
    one_more_field(h14, "---:"@, '|');
    let h15 = h14 + seq!['|'] + "---:"@;
    one_more_field(h15, "\n"@, '|');
    let h16 = h15 + seq!['|'] + "\n"@;
    assert(MID_SIDE@ =~= h16);
}

/// What the columns of the table under [`PEAKS`] are named, in order.
#[verifier::rlimit(80)]
#[verifier::spinoff_prover]
pub proof fn the_columns_of_peaks_are_named()
    ensures
        fields_of(PEAKS@, '|').len() == 19,
        fields_of(PEAKS@, '|')[3] == " take "@,
        fields_of(PEAKS@, '|')[4] == " 63-125 "@,
        fields_of(PEAKS@, '|')[5] == " 125-250 "@,
        fields_of(PEAKS@, '|')[6] == " 250-500 "@,
        fields_of(PEAKS@, '|')[7] == " 500-2k "@,
        fields_of(PEAKS@, '|')[8] == " 2k-6k "@,
        fields_of(PEAKS@, '|')[9] == " 6k-12k "@,
{
    reveal_strlit("\nPeak ");
    reveal_strlit("r");
    reveal_strlit(" and the lag it sits at, milliseconds (positive: the right channel leads):\n\n");
    reveal_strlit(" take ");
    reveal_strlit(" 63-125 ");
    reveal_strlit(" 125-250 ");
    reveal_strlit(" 250-500 ");
    reveal_strlit(" 500-2k ");
    reveal_strlit(" 2k-6k ");
    reveal_strlit(" 6k-12k ");
    reveal_strlit("\n");
    reveal_strlit("---");
    reveal_strlit("---:");
    reveal_strlit("\nPeak |r| and the lag it sits at, milliseconds (positive: the right channel leads):\n\n| take | 63-125 | 125-250 | 250-500 | 500-2k | 2k-6k | 6k-12k |\n|---|---:|---:|---:|---:|---:|---:|\n");
    let h0 = "\nPeak "@;
    one_field(h0, '|');
    one_more_field(h0, "r"@, '|');
    let h1 = h0 + seq!['|'] + "r"@;
    one_more_field(h1, " and the lag it sits at, milliseconds (positive: the right channel leads):\n\n"@, '|');
    let h2 = h1 + seq!['|'] + " and the lag it sits at, milliseconds (positive: the right channel leads):\n\n"@;
    one_more_field(h2, " take "@, '|');
    let h3 = h2 + seq!['|'] + " take "@;
    one_more_field(h3, " 63-125 "@, '|');
    let h4 = h3 + seq!['|'] + " 63-125 "@;
    one_more_field(h4, " 125-250 "@, '|');
    let h5 = h4 + seq!['|'] + " 125-250 "@;
    one_more_field(h5, " 250-500 "@, '|');
    let h6 = h5 + seq!['|'] + " 250-500 "@;
    one_more_field(h6, " 500-2k "@, '|');
    let h7 = h6 + seq!['|'] + " 500-2k "@;
    one_more_field(h7, " 2k-6k "@, '|');
    let h8 = h7 + seq!['|'] + " 2k-6k "@;
    one_more_field(h8, " 6k-12k "@, '|');
    let h9 = h8 + seq!['|'] + " 6k-12k "@;
    one_more_field(h9, "\n"@, '|');
    let h10 = h9 + seq!['|'] + "\n"@;
    one_more_field(h10, "---"@, '|');
    let h11 = h10 + seq!['|'] + "---"@;
    one_more_field(h11, "---:"@, '|');
    let h12 = h11 + seq!['|'] + "---:"@;
    one_more_field(h12, "---:"@, '|');
    let h13 = h12 + seq!['|'] + "---:"@;
    one_more_field(h13, "---:"@, '|');
    let h14 = h13 + seq!['|'] + "---:"@;
    one_more_field(h14, "---:"@, '|');
    let h15 = h14 + seq!['|'] + "---:"@;
    one_more_field(h15, "---:"@, '|');
    let h16 = h15 + seq!['|'] + "---:"@;
    one_more_field(h16, "---:"@, '|');
    let h17 = h16 + seq!['|'] + "---:"@;
    one_more_field(h17, "\n"@, '|');
    let h18 = h17 + seq!['|'] + "\n"@;
    assert(PEAKS@ =~= h18);
}

/// The `cells` are printed one after another, in their order.
pub proof fn the_cells_follow_each_other(a: Seq<String>, b: Seq<String>)
    ensures
        cells_text(a + b) == cells_text(a) + cells_text(b),
        a.len() == 1 ==> cells_text(a) == cell_text(a[0]),
        cells_text(Seq::<String>::empty()).len() == 0,
    decreases b.len(),
{
    if a.len() == 1 {
        assert(a.drop_last() =~= Seq::<String>::empty());
        assert(cells_text(a.drop_last()) =~= Seq::<char>::empty());
        assert(cells_text(a) =~= cell_text(a[0]));
    }
    if b.len() == 0 {
        assert(a + b =~= a);
        assert(cells_text(a) + cells_text(b) =~= cells_text(a));
    } else {
        the_cells_follow_each_other(a, b.drop_last());
        assert((a + b).drop_last() =~= a + b.drop_last());
        assert((a + b).last() == b.last());
        assert(cells_text(a) + cells_text(b.drop_last()) + cell_text(b.last()) =~= cells_text(a) + (cells_text(
            b.drop_last(),
        ) + cell_text(b.last())));
    }
}

/// The `peak_cells` are printed one after another, in their order.
pub proof fn the_peak_cells_follow_each_other(a: Seq<Pair>, b: Seq<Pair>)
    ensures
        peak_cells_text(a + b) == peak_cells_text(a) + peak_cells_text(b),
        a.len() == 1 ==> peak_cells_text(a) == peak_cell_text(a[0]),
        peak_cells_text(Seq::<Pair>::empty()).len() == 0,
    decreases b.len(),
{
    if a.len() == 1 {
        assert(a.drop_last() =~= Seq::<Pair>::empty());
        assert(peak_cells_text(a.drop_last()) =~= Seq::<char>::empty());
        assert(peak_cells_text(a) =~= peak_cell_text(a[0]));
    }
    if b.len() == 0 {
        assert(a + b =~= a);
        assert(peak_cells_text(a) + peak_cells_text(b) =~= peak_cells_text(a));
    } else {
        the_peak_cells_follow_each_other(a, b.drop_last());
        assert((a + b).drop_last() =~= a + b.drop_last());
        assert((a + b).last() == b.last());
        assert(peak_cells_text(a) + peak_cells_text(b.drop_last()) + peak_cell_text(b.last()) =~= peak_cells_text(a) + (peak_cells_text(
            b.drop_last(),
        ) + peak_cell_text(b.last())));
    }
}

/// The `shape_cells` are printed one after another, in their order.
pub proof fn the_shape_cells_follow_each_other(a: Seq<Pair>, b: Seq<Pair>)
    ensures
        shape_cells_text(a + b) == shape_cells_text(a) + shape_cells_text(b),
        a.len() == 1 ==> shape_cells_text(a) == shape_cell_text(a[0]),
        shape_cells_text(Seq::<Pair>::empty()).len() == 0,
    decreases b.len(),
{
    if a.len() == 1 {
        assert(a.drop_last() =~= Seq::<Pair>::empty());
        assert(shape_cells_text(a.drop_last()) =~= Seq::<char>::empty());
        assert(shape_cells_text(a) =~= shape_cell_text(a[0]));
    }
    if b.len() == 0 {
        assert(a + b =~= a);
        assert(shape_cells_text(a) + shape_cells_text(b) =~= shape_cells_text(a));
    } else {
        the_shape_cells_follow_each_other(a, b.drop_last());
        assert((a + b).drop_last() =~= a + b.drop_last());
        assert((a + b).last() == b.last());
        assert(shape_cells_text(a) + shape_cells_text(b.drop_last()) + shape_cell_text(b.last()) =~= shape_cells_text(a) + (shape_cells_text(
            b.drop_last(),
        ) + shape_cell_text(b.last())));
    }
}

/// The `mid_side_rows` are printed one after another, in their order.
pub proof fn the_mid_side_rows_follow_each_other(a: Seq<TakeRow>, b: Seq<TakeRow>)
    ensures
        mid_side_rows_text(a + b) == mid_side_rows_text(a) + mid_side_rows_text(b),
        a.len() == 1 ==> mid_side_rows_text(a) == mid_side_row_text(a[0]),
        mid_side_rows_text(Seq::<TakeRow>::empty()).len() == 0,
    decreases b.len(),
{
    if a.len() == 1 {
        assert(a.drop_last() =~= Seq::<TakeRow>::empty());
        assert(mid_side_rows_text(a.drop_last()) =~= Seq::<char>::empty());
        assert(mid_side_rows_text(a) =~= mid_side_row_text(a[0]));
    }
    if b.len() == 0 {
        assert(a + b =~= a);
        assert(mid_side_rows_text(a) + mid_side_rows_text(b) =~= mid_side_rows_text(a));
    } else {
        the_mid_side_rows_follow_each_other(a, b.drop_last());
        assert((a + b).drop_last() =~= a + b.drop_last());
        assert((a + b).last() == b.last());
        assert(mid_side_rows_text(a) + mid_side_rows_text(b.drop_last()) + mid_side_row_text(b.last()) =~= mid_side_rows_text(a) + (mid_side_rows_text(
            b.drop_last(),
        ) + mid_side_row_text(b.last())));
    }
}

/// The `peak_rows` are printed one after another, in their order.
pub proof fn the_peak_rows_follow_each_other(a: Seq<TakeRow>, b: Seq<TakeRow>)
    ensures
        peak_rows_text(a + b) == peak_rows_text(a) + peak_rows_text(b),
        a.len() == 1 ==> peak_rows_text(a) == peak_row_text(a[0]),
        peak_rows_text(Seq::<TakeRow>::empty()).len() == 0,
    decreases b.len(),
{
    if a.len() == 1 {
        assert(a.drop_last() =~= Seq::<TakeRow>::empty());
        assert(peak_rows_text(a.drop_last()) =~= Seq::<char>::empty());
        assert(peak_rows_text(a) =~= peak_row_text(a[0]));
    }
    if b.len() == 0 {
        assert(a + b =~= a);
        assert(peak_rows_text(a) + peak_rows_text(b) =~= peak_rows_text(a));
    } else {
        the_peak_rows_follow_each_other(a, b.drop_last());
        assert((a + b).drop_last() =~= a + b.drop_last());
        assert((a + b).last() == b.last());
        assert(peak_rows_text(a) + peak_rows_text(b.drop_last()) + peak_row_text(b.last()) =~= peak_rows_text(a) + (peak_rows_text(
            b.drop_last(),
        ) + peak_row_text(b.last())));
    }
}

/// The `shape_rows` are printed one after another, in their order.
pub proof fn the_shape_rows_follow_each_other(a: Seq<TakeRow>, b: Seq<TakeRow>)
    ensures
        shape_rows_text(a + b) == shape_rows_text(a) + shape_rows_text(b),
        a.len() == 1 ==> shape_rows_text(a) == shape_row_text(a[0]),
        shape_rows_text(Seq::<TakeRow>::empty()).len() == 0,
    decreases b.len(),
{
    if a.len() == 1 {
        assert(a.drop_last() =~= Seq::<TakeRow>::empty());
        assert(shape_rows_text(a.drop_last()) =~= Seq::<char>::empty());
        assert(shape_rows_text(a) =~= shape_row_text(a[0]));
    }
    if b.len() == 0 {
        assert(a + b =~= a);
        assert(shape_rows_text(a) + shape_rows_text(b) =~= shape_rows_text(a));
    } else {
        the_shape_rows_follow_each_other(a, b.drop_last());
        assert((a + b).drop_last() =~= a + b.drop_last());
        assert((a + b).last() == b.last());
        assert(shape_rows_text(a) + shape_rows_text(b.drop_last()) + shape_row_text(b.last()) =~= shape_rows_text(a) + (shape_rows_text(
            b.drop_last(),
        ) + shape_row_text(b.last())));
    }
}

/// The `name_cells` are printed one after another, in their order.
pub proof fn the_name_cells_follow_each_other(a: Seq<TakeRow>, b: Seq<TakeRow>)
    ensures
        name_cells_text(a + b) == name_cells_text(a) + name_cells_text(b),
        a.len() == 1 ==> name_cells_text(a) == name_cell_text(a[0]),
        name_cells_text(Seq::<TakeRow>::empty()).len() == 0,
    decreases b.len(),
{
    if a.len() == 1 {
        assert(a.drop_last() =~= Seq::<TakeRow>::empty());
        assert(name_cells_text(a.drop_last()) =~= Seq::<char>::empty());
        assert(name_cells_text(a) =~= name_cell_text(a[0]));
    }
    if b.len() == 0 {
        assert(a + b =~= a);
        assert(name_cells_text(a) + name_cells_text(b) =~= name_cells_text(a));
    } else {
        the_name_cells_follow_each_other(a, b.drop_last());
        assert((a + b).drop_last() =~= a + b.drop_last());
        assert((a + b).last() == b.last());
        assert(name_cells_text(a) + name_cells_text(b.drop_last()) + name_cell_text(b.last()) =~= name_cells_text(a) + (name_cells_text(
            b.drop_last(),
        ) + name_cell_text(b.last())));
    }
}

/// The `rule_cells` are printed one after another, in their order.
pub proof fn the_rule_cells_follow_each_other(a: Seq<TakeRow>, b: Seq<TakeRow>)
    ensures
        rule_cells_text(a + b) == rule_cells_text(a) + rule_cells_text(b),
        a.len() == 1 ==> rule_cells_text(a) == rule_cell_text(a[0]),
        rule_cells_text(Seq::<TakeRow>::empty()).len() == 0,
    decreases b.len(),
{
    if a.len() == 1 {
        assert(a.drop_last() =~= Seq::<TakeRow>::empty());
        assert(rule_cells_text(a.drop_last()) =~= Seq::<char>::empty());
        assert(rule_cells_text(a) =~= rule_cell_text(a[0]));
    }
    if b.len() == 0 {
        assert(a + b =~= a);
        assert(rule_cells_text(a) + rule_cells_text(b) =~= rule_cells_text(a));
    } else {
        the_rule_cells_follow_each_other(a, b.drop_last());
        assert((a + b).drop_last() =~= a + b.drop_last());
        assert((a + b).last() == b.last());
        assert(rule_cells_text(a) + rule_cells_text(b.drop_last()) + rule_cell_text(b.last()) =~= rule_cells_text(a) + (rule_cells_text(
            b.drop_last(),
        ) + rule_cell_text(b.last())));
    }
}

/// Each number of `peak_cell` stands in its place among the words.
#[verifier::rlimit(30)]
pub proof fn the_words_of_peak_cell_stand_in_order(p: Pair)
    requires
        is_word(p.first@),
        is_word(p.second@),
    ensures
        words_of(peak_cell_text(p)).len() == 4,
        words_of(peak_cell_text(p))[0] == p.first@,
        words_of(peak_cell_text(p))[2] == p.second@,
{
    reveal_strlit(" ");
    reveal_strlit(" @ ");
    reveal_strlit("@");
    reveal_strlit(" |");
    reveal_strlit("|");
    let p0 = " "@;
    a_gap_adds_nothing(Seq::<char>::empty(), " "@);
    assert(p0 =~= Seq::<char>::empty() + " "@);
    a_word_begins(p0, p.first@);
    let p1 = p0 + p.first@;
    a_gap_adds_nothing(p1, " "@);
    a_word_begins(p1 + " "@, "@"@);
    a_gap_adds_nothing(p1 + " "@ + "@"@, " "@);
    let p2 = p1 + " @ "@;
    assert(p2 =~= p1 + " "@ + "@"@ + " "@);
    a_word_begins(p2, p.second@);
    let p3 = p2 + p.second@;
    a_gap_adds_nothing(p3, " "@);
    a_word_begins(p3 + " "@, "|"@);
    let p4 = p3 + " |"@;
    assert(p4 =~= p3 + " "@ + "|"@);
    assert(peak_cell_text(p) == p4);
}

/// Each number of `shape_cell` stands in its place among the words.
#[verifier::rlimit(30)]
pub proof fn the_words_of_shape_cell_stand_in_order(p: Pair)
    requires
        is_word(p.first@),
        is_word(p.second@),
    ensures
        words_of(shape_cell_text(p)).len() == 4,
        words_of(shape_cell_text(p))[0] == p.first@,
        words_of(shape_cell_text(p))[2] == p.second@,
{
    reveal_strlit(" ");
    reveal_strlit(" / ");
    reveal_strlit("/");
    reveal_strlit(" |");
    reveal_strlit("|");
    let p0 = " "@;
    a_gap_adds_nothing(Seq::<char>::empty(), " "@);
    assert(p0 =~= Seq::<char>::empty() + " "@);
    a_word_begins(p0, p.first@);
    let p1 = p0 + p.first@;
    a_gap_adds_nothing(p1, " "@);
    a_word_begins(p1 + " "@, "/"@);
    a_gap_adds_nothing(p1 + " "@ + "/"@, " "@);
    let p2 = p1 + " / "@;
    assert(p2 =~= p1 + " "@ + "/"@ + " "@);
    a_word_begins(p2, p.second@);
    let p3 = p2 + p.second@;
    a_gap_adds_nothing(p3, " "@);
    a_word_begins(p3 + " "@, "|"@);
    let p4 = p3 + " |"@;
    assert(p4 =~= p3 + " "@ + "|"@);
    assert(shape_cell_text(p) == p4);
}

} // verus!
