//! The report on the radiated response.

use crate::text::{decimal, print};
use crate::words::{a_field_begins, a_gap_adds_nothing, a_number_is_a_word, a_word_begins, a_word_goes_on, fields_of, is_word, one_field, one_more_field, the_field_goes_on, words_of};
use vstd::prelude::*;

verus! {

/// One band of a round, as it is printed.
pub struct BandRow {
    pub hz: String,
    pub reference: String,
    pub engine: String,
    pub required: String,
    pub standing: String,
    pub deficit: String,
    pub declared: String,
}

/// One band of the fitted curve, as it is printed.
pub struct CurveRow {
    pub hz: String,
    pub declared: String,
    pub realised: String,
}

/// One point between the bands, as it is printed.
pub struct Ripple {
    pub hz: String,
    pub response: String,
}

/// What is fitted, on what.
pub open spec fn heading_text(keys: usize, bands: usize, low: Seq<char>, high: Seq<char>, preset: Seq<char>) -> Seq<char> {
    "# `piano-tuner radiation`\n\n"@
        + decimal(keys as nat)
        + " recorded keys at v90, "@
        + decimal(bands as nat)
        + " sixth-octave bands over "@
        + low
        + "-"@
        + high
        + " Hz, base "@
        + preset
        + "\n"@
}

/// What is fitted, on what.
pub fn heading(keys: usize, bands: usize, low: &str, high: &str, preset: &str) -> (text: String)
    ensures
        text@ == heading_text(keys, bands, low@, high@, preset@),
{
    let mut out = String::from_str("# `piano-tuner radiation`\n\n");
    out.append(print(keys as u64).as_str());
    out.append(" recorded keys at v90, ");
    out.append(print(bands as u64).as_str());
    out.append(" sixth-octave bands over ");
    out.append(low);
    out.append("-");
    out.append(high);
    out.append(" Hz, base ");
    out.append(preset);
    out.append("\n");
    out
}

pub const ROUND_HEADING_0: &'static str = " — item 408's table on this render\n\n| Hz | REF pair | ENG pair | **required** | \
    **standing** | deficit | declared dB |\n|---:|---:|---:|---:|---:|---:|---:|\n";

/// The head of a round.
pub open spec fn round_heading_text(round: usize) -> Seq<char> {
    "\n### round "@
        + decimal(round as nat)
        + ROUND_HEADING_0@
}

/// The head of a round.
pub fn round_heading(round: usize) -> (text: String)
    ensures
        text@ == round_heading_text(round),
{
    let mut out = String::from_str("\n### round ");
    out.append(print(round as u64).as_str());
    out.append(ROUND_HEADING_0);
    out
}

/// A row of a round.
pub open spec fn band_row_text(r: BandRow) -> Seq<char> {
    "| "@
        + r.hz@
        + " | "@
        + r.reference@
        + " | "@
        + r.engine@
        + " | **"@
        + r.required@
        + "** | **"@
        + r.standing@
        + "** | "@
        + r.deficit@
        + " | "@
        + r.declared@
        + " |\n"@
}

/// A row of a round.
pub fn band_row(r: &BandRow) -> (text: String)
    ensures
        text@ == band_row_text(*r),
{
    let mut out = String::from_str("| ");
    out.append(r.hz.as_str());
    out.append(" | ");
    out.append(r.reference.as_str());
    out.append(" | ");
    out.append(r.engine.as_str());
    out.append(" | **");
    out.append(r.required.as_str());
    out.append("** | **");
    out.append(r.standing.as_str());
    out.append("** | ");
    out.append(r.deficit.as_str());
    out.append(" | ");
    out.append(r.declared.as_str());
    out.append(" |\n");
    out
}

/// The rows of a round.
pub open spec fn band_rows_text(rows: Seq<BandRow>) -> Seq<char>
    decreases rows.len(),
{
    if rows.len() == 0 {
        Seq::empty()
    } else {
        band_rows_text(rows.drop_last()) + band_row_text(rows.last())
    }
}

/// The rows of a round.
pub fn band_rows(rows: &Vec<BandRow>) -> (text: String)
    ensures
        text@ == band_rows_text(rows@),
{
    let mut out = String::new();
    let mut i: usize = 0;
    proof {
        assert(rows@.take(0) =~= Seq::<BandRow>::empty());
    }
    while i < rows.len()
        invariant
            i <= rows.len(),
            out@ == band_rows_text(rows@.take(i as int)),
        decreases rows.len() - i,
    {
        proof {
            assert(rows@.take(i + 1).drop_last() =~= rows@.take(i as int));
        }
        out.append(band_row(&rows[i]).as_str());
        i = i + 1;
    }
    proof {
        assert(rows@.take(i as int) =~= rows@);
    }
    out
}

pub const ROUND_CLOSE_0: &'static str = " dB**, shape residual (peak-to-peak about K) **";

/// What a round comes to.
pub open spec fn round_close_text(worst: Seq<char>, uniform: Seq<char>, spread: Seq<char>) -> Seq<char> {
    "\nworst deficit **"@
        + worst
        + " dB**; uniform component **K = "@
        + uniform
        + ROUND_CLOSE_0@
        + spread
        + " dB**\n"@
}

/// What a round comes to.
pub fn round_close(worst: &str, uniform: &str, spread: &str) -> (text: String)
    ensures
        text@ == round_close_text(worst@, uniform@, spread@),
{
    let mut out = String::from_str("\nworst deficit **");
    out.append(worst);
    out.append(" dB**; uniform component **K = ");
    out.append(uniform);
    out.append(ROUND_CLOSE_0);
    out.append(spread);
    out.append(" dB**\n");
    out
}

/// One round.
pub open spec fn round_report_text(round: usize, rows: Seq<BandRow>, worst: Seq<char>, uniform: Seq<char>, spread: Seq<char>) -> Seq<char> {
    round_heading_text(round)
        + band_rows_text(rows)
        + round_close_text(worst, uniform, spread)
}

/// One round.
pub fn round_report(round: usize, rows: &Vec<BandRow>, worst: &str, uniform: &str, spread: &str) -> (text: String)
    ensures
        text@ == round_report_text(round, rows@, worst@, uniform@, spread@),
{
    let mut out = round_heading(round);
    out.append(band_rows(rows).as_str());
    out.append(round_close(worst, uniform, spread).as_str());
    out
}

pub const HELD_LINE_0: &'static str = " fitted per-partial gains were pushed through the schema's own rail by the \
    compensation and are clamped there.\n";

/// How many gains reached a rail.
pub open spec fn held_line_text(railed: usize, total: usize) -> Seq<char> {
    "\n**`--hold-partials`**: "@
        + decimal(railed as nat)
        + " of "@
        + decimal(total as nat)
        + HELD_LINE_0@
}

/// How many gains reached a rail.
pub fn held_line(railed: usize, total: usize) -> (text: String)
    ensures
        text@ == held_line_text(railed, total),
{
    let mut out = String::from_str("\n**`--hold-partials`**: ");
    out.append(print(railed as u64).as_str());
    out.append(" of ");
    out.append(print(total as u64).as_str());
    out.append(HELD_LINE_0);
    out
}

/// The head of the fitted curve.
pub const CURVE: &'static str = "\n## the fitted curve, and what the cascade realises\n\n| Hz | declared dB | realised \
    dB |\n|---:|---:|---:|\n";

/// A row of the fitted curve.
pub open spec fn curve_row_text(r: CurveRow) -> Seq<char> {
    "| "@
        + r.hz@
        + " | "@
        + r.declared@
        + " | "@
        + r.realised@
        + " |\n"@
}

/// A row of the fitted curve.
pub fn curve_row(r: &CurveRow) -> (text: String)
    ensures
        text@ == curve_row_text(*r),
{
    let mut out = String::from_str("| ");
    out.append(r.hz.as_str());
    out.append(" | ");
    out.append(r.declared.as_str());
    out.append(" | ");
    out.append(r.realised.as_str());
    out.append(" |\n");
    out
}

/// The rows of the fitted curve.
pub open spec fn curve_rows_text(rows: Seq<CurveRow>) -> Seq<char>
    decreases rows.len(),
{
    if rows.len() == 0 {
        Seq::empty()
    } else {
        curve_rows_text(rows.drop_last()) + curve_row_text(rows.last())
    }
}

/// The rows of the fitted curve.
pub fn curve_rows(rows: &Vec<CurveRow>) -> (text: String)
    ensures
        text@ == curve_rows_text(rows@),
{
    let mut out = String::new();
    let mut i: usize = 0;
    proof {
        assert(rows@.take(0) =~= Seq::<CurveRow>::empty());
    }
    while i < rows.len()
        invariant
            i <= rows.len(),
            out@ == curve_rows_text(rows@.take(i as int)),
        decreases rows.len() - i,
    {
        proof {
            assert(rows@.take(i + 1).drop_last() =~= rows@.take(i as int));
        }
        out.append(curve_row(&rows[i]).as_str());
        i = i + 1;
    }
    proof {
        assert(rows@.take(i as int) =~= rows@);
    }
    out
}

pub const RIPPLE_HEADING_0: &'static str = "\nRealised at 1/24 octave over the same span: ";

/// How much the curve ripples.
pub open spec fn ripple_heading_text(ripple: Seq<char>) -> Seq<char> {
    RIPPLE_HEADING_0@
        + ripple
        + " dB peak-to-peak.\n  "@
}

/// How much the curve ripples.
pub fn ripple_heading(ripple: &str) -> (text: String)
    ensures
        text@ == ripple_heading_text(ripple@),
{
    let mut out = String::from_str(RIPPLE_HEADING_0);
    out.append(ripple);
    out.append(" dB peak-to-peak.\n  ");
    out
}

/// A point between the bands.
pub open spec fn ripple_point_text(p: Ripple) -> Seq<char> {
    p.hz@
        + ":"@
        + p.response@
        + "  "@
}

/// A point between the bands.
pub fn ripple_point(p: &Ripple) -> (text: String)
    ensures
        text@ == ripple_point_text(*p),
{
    let mut out = String::from_str(p.hz.as_str());
    out.append(":");
    out.append(p.response.as_str());
    out.append("  ");
    out
}

/// The points between the bands.
pub open spec fn ripple_points_text(rows: Seq<Ripple>) -> Seq<char>
    decreases rows.len(),
{
    if rows.len() == 0 {
        Seq::empty()
    } else {
        ripple_points_text(rows.drop_last()) + ripple_point_text(rows.last())
    }
}

/// The points between the bands.
pub fn ripple_points(rows: &Vec<Ripple>) -> (text: String)
    ensures
        text@ == ripple_points_text(rows@),
{
    let mut out = String::new();
    let mut i: usize = 0;
    proof {
        assert(rows@.take(0) =~= Seq::<Ripple>::empty());
    }
    while i < rows.len()
        invariant
            i <= rows.len(),
            out@ == ripple_points_text(rows@.take(i as int)),
        decreases rows.len() - i,
    {
        proof {
            assert(rows@.take(i + 1).drop_last() =~= rows@.take(i as int));
        }
        out.append(ripple_point(&rows[i]).as_str());
        i = i + 1;
    }
    proof {
        assert(rows@.take(i as int) =~= rows@);
    }
    out
}

/// The fitted curve, and what it comes to between the bands.
pub open spec fn curve_report_text(rows: Seq<CurveRow>, ripple: Seq<char>, points: Seq<Ripple>) -> Seq<char> {
    CURVE@
        + curve_rows_text(rows)
        + ripple_heading_text(ripple)
        + ripple_points_text(points)
        + "\n"@
}

/// The fitted curve, and what it comes to between the bands.
pub fn curve_report(rows: &Vec<CurveRow>, ripple: &str, points: &Vec<Ripple>) -> (text: String)
    ensures
        text@ == curve_report_text(rows@, ripple@, points@),
{
    let mut out = String::from_str(CURVE);
    out.append(curve_rows(rows).as_str());
    out.append(ripple_heading(ripple).as_str());
    out.append(ripple_points(points).as_str());
    out.append("\n");
    out
}

pub const UNIFORM_REPORT_0: &'static str = "\n## the uniform component, and what it is\n\nThe shape converged to a **flat** \
    deficit column: `standing = required − K` with **K = ";

pub const UNIFORM_REPORT_1: &'static str = " dB** across the nineteen bands. `K` is invisible to the fit's own statistic — a \
    share has no uniform component — so it is decided here instead:\n\n* the span's \
    **pair average** against the whole take, engine less recording: **";

pub const UNIFORM_REPORT_2: &'static str = " dB**\n* the span's **mono sum** against the whole take, engine less recording: **";

pub const UNIFORM_REPORT_3: &'static str = " dB**\n\nThe pair average is what the capsules carry and is the closest either side \
    has to what was radiated. A source colouration is what sets it.\n";

/// The part that the fit cannot see.
pub open spec fn uniform_report_text(uniform: Seq<char>, spread: Seq<char>, pair: Seq<char>, mono: Seq<char>) -> Seq<char> {
    UNIFORM_REPORT_0@
        + uniform
        + " dB** and a peak-to-peak spread of **"@
        + spread
        + UNIFORM_REPORT_1@
        + pair
        + UNIFORM_REPORT_2@
        + mono
        + UNIFORM_REPORT_3@
}

/// The part that the fit cannot see.
pub fn uniform_report(uniform: &str, spread: &str, pair: &str, mono: &str) -> (text: String)
    ensures
        text@ == uniform_report_text(uniform@, spread@, pair@, mono@),
{
    let mut out = String::from_str(UNIFORM_REPORT_0);
    out.append(uniform);
    out.append(" dB** and a peak-to-peak spread of **");
    out.append(spread);
    out.append(UNIFORM_REPORT_1);
    out.append(pair);
    out.append(UNIFORM_REPORT_2);
    out.append(mono);
    out.append(UNIFORM_REPORT_3);
    out
}

/// That the fit converged.
pub open spec fn converged_line_text(round: usize, tolerance: Seq<char>) -> Seq<char> {
    "\n**Converged after "@
        + decimal(round as nat)
        + " rounds**: the shape residual is inside "@
        + tolerance
        + " dB.\n"@
}

/// That the fit converged.
pub fn converged_line(round: usize, tolerance: &str) -> (text: String)
    ensures
        text@ == converged_line_text(round, tolerance@),
{
    let mut out = String::from_str("\n**Converged after ");
    out.append(print(round as u64).as_str());
    out.append(" rounds**: the shape residual is inside ");
    out.append(tolerance);
    out.append(" dB.\n");
    out
}

/// That the fit did not converge.
pub open spec fn not_converged_line_text(rounds: usize, spread: Seq<char>) -> Seq<char> {
    "\n**Not converged in "@
        + decimal(rounds as nat)
        + " rounds.** Shape residual "@
        + spread
        + " dB.\n"@
}

/// That the fit did not converge.
pub fn not_converged_line(rounds: usize, spread: &str) -> (text: String)
    ensures
        text@ == not_converged_line_text(rounds, spread@),
{
    let mut out = String::from_str("\n**Not converged in ");
    out.append(print(rounds as u64).as_str());
    out.append(" rounds.** Shape residual ");
    out.append(spread);
    out.append(" dB.\n");
    out
}

/// Whether the fit converged.
pub open spec fn outcome_text(
    converged: Option<usize>,
    rounds: usize,
    tolerance: Seq<char>,
    spread: Seq<char>,
) -> Seq<char> {
    match converged {
        Some(round) => converged_line_text(round, tolerance),
        None => not_converged_line_text(rounds, spread),
    }
}

/// Whether the fit converged.
pub fn outcome(converged: Option<usize>, rounds: usize, tolerance: &str, spread: &str) -> (text:
    String)
    ensures
        text@ == outcome_text(converged, rounds, tolerance@, spread@),
{
    match converged {
        Some(round) => converged_line(round, tolerance),
        None => not_converged_line(rounds, spread),
    }
}

/// What is said where nothing is written.
pub const NOT_WRITTEN: &'static str = "(no --out: nothing was written)";

/// The cells of a `band_row` stand in the order of its columns, one number each.
#[verifier::rlimit(30)]
pub proof fn the_cells_of_a_band_row_stand_in_order(r: BandRow)
    requires
        !r.hz@.contains('|'),
        !r.reference@.contains('|'),
        !r.engine@.contains('|'),
        !r.required@.contains('|'),
        !r.standing@.contains('|'),
        !r.deficit@.contains('|'),
        !r.declared@.contains('|'),
    ensures
        fields_of(band_row_text(r), '|').len() == 9,
        fields_of(band_row_text(r), '|')[1] == " "@ + r.hz@ + " "@,
        fields_of(band_row_text(r), '|')[2] == " "@ + r.reference@ + " "@,
        fields_of(band_row_text(r), '|')[3] == " "@ + r.engine@ + " "@,
        fields_of(band_row_text(r), '|')[4] == " **"@ + r.required@ + "** "@,
        fields_of(band_row_text(r), '|')[5] == " **"@ + r.standing@ + "** "@,
        fields_of(band_row_text(r), '|')[6] == " "@ + r.deficit@ + " "@,
        fields_of(band_row_text(r), '|')[7] == " "@ + r.declared@ + " "@,
{
    reveal_strlit("| ");
    reveal_strlit(" ");
    reveal_strlit(" | ");
    reveal_strlit(" | **");
    reveal_strlit(" **");
    reveal_strlit("** | **");
    reveal_strlit("** ");
    reveal_strlit("** | ");
    reveal_strlit(" |\n");
    reveal_strlit("\n");
    let p0 = "| "@;
    one_field(Seq::<char>::empty(), '|');
    one_more_field(Seq::<char>::empty(), " "@, '|');
    assert(p0 =~= Seq::<char>::empty() + seq!['|'] + " "@);
    the_field_goes_on(p0, r.hz@, '|');
    let p1 = p0 + r.hz@;
    assert(" | "@ =~= " "@ + seq!['|'] + " "@);
    a_field_begins(p1, " | "@, " "@, " "@, '|');
    let p2 = p1 + " | "@;
    the_field_goes_on(p2, r.reference@, '|');
    let p3 = p2 + r.reference@;
    assert(" | "@ =~= " "@ + seq!['|'] + " "@);
    a_field_begins(p3, " | "@, " "@, " "@, '|');
    let p4 = p3 + " | "@;
    the_field_goes_on(p4, r.engine@, '|');
    let p5 = p4 + r.engine@;
    assert(" | **"@ =~= " "@ + seq!['|'] + " **"@);
    a_field_begins(p5, " | **"@, " "@, " **"@, '|');
    let p6 = p5 + " | **"@;
    the_field_goes_on(p6, r.required@, '|');
    let p7 = p6 + r.required@;
    assert("** | **"@ =~= "** "@ + seq!['|'] + " **"@);
    a_field_begins(p7, "** | **"@, "** "@, " **"@, '|');
    let p8 = p7 + "** | **"@;
    the_field_goes_on(p8, r.standing@, '|');
    let p9 = p8 + r.standing@;
    assert("** | "@ =~= "** "@ + seq!['|'] + " "@);
    a_field_begins(p9, "** | "@, "** "@, " "@, '|');
    let p10 = p9 + "** | "@;
    the_field_goes_on(p10, r.deficit@, '|');
    let p11 = p10 + r.deficit@;
    assert(" | "@ =~= " "@ + seq!['|'] + " "@);
    a_field_begins(p11, " | "@, " "@, " "@, '|');
    let p12 = p11 + " | "@;
    the_field_goes_on(p12, r.declared@, '|');
    let p13 = p12 + r.declared@;
    assert(" |\n"@ =~= " "@ + seq!['|'] + "\n"@);
    a_field_begins(p13, " |\n"@, " "@, "\n"@, '|');
    let p14 = p13 + " |\n"@;
    assert(band_row_text(r) == p14);
}

/// The cells of a `curve_row` stand in the order of its columns, one number each.
#[verifier::rlimit(30)]
pub proof fn the_cells_of_a_curve_row_stand_in_order(r: CurveRow)
    requires
        !r.hz@.contains('|'),
        !r.declared@.contains('|'),
        !r.realised@.contains('|'),
    ensures
        fields_of(curve_row_text(r), '|').len() == 5,
        fields_of(curve_row_text(r), '|')[1] == " "@ + r.hz@ + " "@,
        fields_of(curve_row_text(r), '|')[2] == " "@ + r.declared@ + " "@,
        fields_of(curve_row_text(r), '|')[3] == " "@ + r.realised@ + " "@,
{
    reveal_strlit("| ");
    reveal_strlit(" ");
    reveal_strlit(" | ");
    reveal_strlit(" |\n");
    reveal_strlit("\n");
    let p0 = "| "@;
    one_field(Seq::<char>::empty(), '|');
    one_more_field(Seq::<char>::empty(), " "@, '|');
    assert(p0 =~= Seq::<char>::empty() + seq!['|'] + " "@);
    the_field_goes_on(p0, r.hz@, '|');
    let p1 = p0 + r.hz@;
    assert(" | "@ =~= " "@ + seq!['|'] + " "@);
    a_field_begins(p1, " | "@, " "@, " "@, '|');
    let p2 = p1 + " | "@;
    the_field_goes_on(p2, r.declared@, '|');
    let p3 = p2 + r.declared@;
    assert(" | "@ =~= " "@ + seq!['|'] + " "@);
    a_field_begins(p3, " | "@, " "@, " "@, '|');
    let p4 = p3 + " | "@;
    the_field_goes_on(p4, r.realised@, '|');
    let p5 = p4 + r.realised@;
    assert(" |\n"@ =~= " "@ + seq!['|'] + "\n"@);
    a_field_begins(p5, " |\n"@, " "@, "\n"@, '|');
    let p6 = p5 + " |\n"@;
    assert(curve_row_text(r) == p6);
}

/// What the columns of the table under [`ROUND_HEADING_0`] are named, in order.
#[verifier::rlimit(80)]
#[verifier::spinoff_prover]
pub proof fn the_columns_of_round_heading_0_are_named()
    ensures
        fields_of(ROUND_HEADING_0@, '|').len() == 17,
        fields_of(ROUND_HEADING_0@, '|')[1] == " Hz "@,
        fields_of(ROUND_HEADING_0@, '|')[2] == " REF pair "@,
        fields_of(ROUND_HEADING_0@, '|')[3] == " ENG pair "@,
        fields_of(ROUND_HEADING_0@, '|')[4] == " **required** "@,
        fields_of(ROUND_HEADING_0@, '|')[5] == " **standing** "@,
        fields_of(ROUND_HEADING_0@, '|')[6] == " deficit "@,
        fields_of(ROUND_HEADING_0@, '|')[7] == " declared dB "@,
{
    reveal_strlit(" — item 408's table on this render\n\n");
    reveal_strlit(" Hz ");
    reveal_strlit(" REF pair ");
    reveal_strlit(" ENG pair ");
    reveal_strlit(" **required** ");
    reveal_strlit(" **standing** ");
    reveal_strlit(" deficit ");
    reveal_strlit(" declared dB ");
    reveal_strlit("\n");
    reveal_strlit("---:");
    reveal_strlit(" — item 408's table on this render\n\n| Hz | REF pair | ENG pair | **required** | **standing** | deficit | declared dB |\n|---:|---:|---:|---:|---:|---:|---:|\n");
    let h0 = " — item 408's table on this render\n\n"@;
    one_field(h0, '|');
    one_more_field(h0, " Hz "@, '|');
    let h1 = h0 + seq!['|'] + " Hz "@;
    one_more_field(h1, " REF pair "@, '|');
    let h2 = h1 + seq!['|'] + " REF pair "@;
    one_more_field(h2, " ENG pair "@, '|');
    let h3 = h2 + seq!['|'] + " ENG pair "@;
    one_more_field(h3, " **required** "@, '|');
    let h4 = h3 + seq!['|'] + " **required** "@;
    one_more_field(h4, " **standing** "@, '|');
    let h5 = h4 + seq!['|'] + " **standing** "@;
    one_more_field(h5, " deficit "@, '|');
    let h6 = h5 + seq!['|'] + " deficit "@;
    one_more_field(h6, " declared dB "@, '|');
    let h7 = h6 + seq!['|'] + " declared dB "@;
    one_more_field(h7, "\n"@, '|');
    let h8 = h7 + seq!['|'] + "\n"@;
    one_more_field(h8, "---:"@, '|');
    let h9 = h8 + seq!['|'] + "---:"@;
    one_more_field(h9, "---:"@, '|');
    let h10 = h9 + seq!['|'] + "---:"@;
    one_more_field(h10, "---:"@, '|');
    let h11 = h10 + seq!['|'] + "---:"@;
    one_more_field(h11, "---:"@, '|');
    let h12 = h11 + seq!['|'] + "---:"@;
    one_more_field(h12, "---:"@, '|');
    let h13 = h12 + seq!['|'] + "---:"@;
    one_more_field(h13, "---:"@, '|');
    let h14 = h13 + seq!['|'] + "---:"@;
    one_more_field(h14, "---:"@, '|');
    let h15 = h14 + seq!['|'] + "---:"@;
    one_more_field(h15, "\n"@, '|');
    let h16 = h15 + seq!['|'] + "\n"@;
    assert(ROUND_HEADING_0@ =~= h16);
}

/// What the columns of the table under [`CURVE`] are named, in order.
#[verifier::rlimit(80)]
#[verifier::spinoff_prover]
pub proof fn the_columns_of_curve_are_named()
    ensures
        fields_of(CURVE@, '|').len() == 9,
        fields_of(CURVE@, '|')[1] == " Hz "@,
        fields_of(CURVE@, '|')[2] == " declared dB "@,
        fields_of(CURVE@, '|')[3] == " realised dB "@,
{
    reveal_strlit("\n## the fitted curve, and what the cascade realises\n\n");
    reveal_strlit(" Hz ");
    reveal_strlit(" declared dB ");
    reveal_strlit(" realised dB ");
    reveal_strlit("\n");
    reveal_strlit("---:");
    reveal_strlit("\n## the fitted curve, and what the cascade realises\n\n| Hz | declared dB | realised dB |\n|---:|---:|---:|\n");
    let h0 = "\n## the fitted curve, and what the cascade realises\n\n"@;
    one_field(h0, '|');
    one_more_field(h0, " Hz "@, '|');
    let h1 = h0 + seq!['|'] + " Hz "@;
    one_more_field(h1, " declared dB "@, '|');
    let h2 = h1 + seq!['|'] + " declared dB "@;
    one_more_field(h2, " realised dB "@, '|');
    let h3 = h2 + seq!['|'] + " realised dB "@;
    one_more_field(h3, "\n"@, '|');
    let h4 = h3 + seq!['|'] + "\n"@;
    one_more_field(h4, "---:"@, '|');
    let h5 = h4 + seq!['|'] + "---:"@;
    one_more_field(h5, "---:"@, '|');
    let h6 = h5 + seq!['|'] + "---:"@;
    one_more_field(h6, "---:"@, '|');
    let h7 = h6 + seq!['|'] + "---:"@;
    one_more_field(h7, "\n"@, '|');
    let h8 = h7 + seq!['|'] + "\n"@;
    assert(CURVE@ =~= h8);
}

/// The `band_rows` are printed one after another, in their order.
pub proof fn the_band_rows_follow_each_other(a: Seq<BandRow>, b: Seq<BandRow>)
    ensures
        band_rows_text(a + b) == band_rows_text(a) + band_rows_text(b),
        a.len() == 1 ==> band_rows_text(a) == band_row_text(a[0]),
        band_rows_text(Seq::<BandRow>::empty()).len() == 0,
    decreases b.len(),
{
    if a.len() == 1 {
        assert(a.drop_last() =~= Seq::<BandRow>::empty());
        assert(band_rows_text(a.drop_last()) =~= Seq::<char>::empty());
        assert(band_rows_text(a) =~= band_row_text(a[0]));
    }
    if b.len() == 0 {
        assert(a + b =~= a);
        assert(band_rows_text(a) + band_rows_text(b) =~= band_rows_text(a));
    } else {
        the_band_rows_follow_each_other(a, b.drop_last());
        assert((a + b).drop_last() =~= a + b.drop_last());
        assert((a + b).last() == b.last());
        assert(band_rows_text(a) + band_rows_text(b.drop_last()) + band_row_text(b.last()) =~= band_rows_text(a) + (band_rows_text(
            b.drop_last(),
        ) + band_row_text(b.last())));
    }
}

/// The `curve_rows` are printed one after another, in their order.
pub proof fn the_curve_rows_follow_each_other(a: Seq<CurveRow>, b: Seq<CurveRow>)
    ensures
        curve_rows_text(a + b) == curve_rows_text(a) + curve_rows_text(b),
        a.len() == 1 ==> curve_rows_text(a) == curve_row_text(a[0]),
        curve_rows_text(Seq::<CurveRow>::empty()).len() == 0,
    decreases b.len(),
{
    if a.len() == 1 {
        assert(a.drop_last() =~= Seq::<CurveRow>::empty());
        assert(curve_rows_text(a.drop_last()) =~= Seq::<char>::empty());
        assert(curve_rows_text(a) =~= curve_row_text(a[0]));
    }
    if b.len() == 0 {
        assert(a + b =~= a);
        assert(curve_rows_text(a) + curve_rows_text(b) =~= curve_rows_text(a));
    } else {
        the_curve_rows_follow_each_other(a, b.drop_last());
        assert((a + b).drop_last() =~= a + b.drop_last());
        assert((a + b).last() == b.last());
        assert(curve_rows_text(a) + curve_rows_text(b.drop_last()) + curve_row_text(b.last()) =~= curve_rows_text(a) + (curve_rows_text(
            b.drop_last(),
        ) + curve_row_text(b.last())));
    }
}

/// The `ripple_points` are printed one after another, in their order.
pub proof fn the_ripple_points_follow_each_other(a: Seq<Ripple>, b: Seq<Ripple>)
    ensures
        ripple_points_text(a + b) == ripple_points_text(a) + ripple_points_text(b),
        a.len() == 1 ==> ripple_points_text(a) == ripple_point_text(a[0]),
        ripple_points_text(Seq::<Ripple>::empty()).len() == 0,
    decreases b.len(),
{
    if a.len() == 1 {
        assert(a.drop_last() =~= Seq::<Ripple>::empty());
        assert(ripple_points_text(a.drop_last()) =~= Seq::<char>::empty());
        assert(ripple_points_text(a) =~= ripple_point_text(a[0]));
    }
    if b.len() == 0 {
        assert(a + b =~= a);
        assert(ripple_points_text(a) + ripple_points_text(b) =~= ripple_points_text(a));
    } else {
        the_ripple_points_follow_each_other(a, b.drop_last());
        assert((a + b).drop_last() =~= a + b.drop_last());
        assert((a + b).last() == b.last());
        assert(ripple_points_text(a) + ripple_points_text(b.drop_last()) + ripple_point_text(b.last()) =~= ripple_points_text(a) + (ripple_points_text(
            b.drop_last(),
        ) + ripple_point_text(b.last())));
    }
}

/// Each number of `heading` stands in its place among the words.
#[verifier::rlimit(30)]
pub proof fn the_words_of_heading_stand_in_order(keys: usize, bands: usize, low: Seq<char>, high: Seq<char>, preset: Seq<char>)
    requires
        is_word(low),
        is_word(high),
        is_word(preset),
    ensures
        words_of(heading_text(keys, bands, low, high, preset)).len() == 16,
        words_of(heading_text(keys, bands, low, high, preset))[3] == decimal(keys as nat),
        words_of(heading_text(keys, bands, low, high, preset))[8] == decimal(bands as nat),
        words_of(heading_text(keys, bands, low, high, preset))[12] == low + "-"@ + high,
        words_of(heading_text(keys, bands, low, high, preset))[15] == preset,
{
    reveal_strlit("# `piano-tuner radiation`\n\n");
    reveal_strlit("#");
    reveal_strlit(" ");
    reveal_strlit("`piano-tuner");
    reveal_strlit("radiation`");
    reveal_strlit("\n\n");
    reveal_strlit(" recorded keys at v90, ");
    reveal_strlit("recorded");
    reveal_strlit("keys");
    reveal_strlit("at");
    reveal_strlit("v90,");
    reveal_strlit(" sixth-octave bands over ");
    reveal_strlit("sixth-octave");
    reveal_strlit("bands");
    reveal_strlit("over");
    reveal_strlit("-");
    reveal_strlit(" Hz, base ");
    reveal_strlit("Hz,");
    reveal_strlit("base");
    reveal_strlit("\n");
    a_number_is_a_word(keys as nat);
    a_number_is_a_word(bands as nat);
    let p0 = "# `piano-tuner radiation`\n\n"@;
    a_word_begins(Seq::<char>::empty(), "#"@);
    a_gap_adds_nothing(Seq::<char>::empty() + "#"@, " "@);
    a_word_begins(Seq::<char>::empty() + "#"@ + " "@, "`piano-tuner"@);
    a_gap_adds_nothing(Seq::<char>::empty() + "#"@ + " "@ + "`piano-tuner"@, " "@);
    a_word_begins(Seq::<char>::empty() + "#"@ + " "@ + "`piano-tuner"@ + " "@, "radiation`"@);
    a_gap_adds_nothing(Seq::<char>::empty() + "#"@ + " "@ + "`piano-tuner"@ + " "@ + "radiation`"@, "\n\n"@);
    assert(p0 =~= Seq::<char>::empty() + "#"@ + " "@ + "`piano-tuner"@ + " "@ + "radiation`"@ + "\n\n"@);
    a_word_begins(p0, decimal(keys as nat));
    let p1 = p0 + decimal(keys as nat);
    a_gap_adds_nothing(p1, " "@);
    a_word_begins(p1 + " "@, "recorded"@);
    a_gap_adds_nothing(p1 + " "@ + "recorded"@, " "@);
    a_word_begins(p1 + " "@ + "recorded"@ + " "@, "keys"@);
    a_gap_adds_nothing(p1 + " "@ + "recorded"@ + " "@ + "keys"@, " "@);
    a_word_begins(p1 + " "@ + "recorded"@ + " "@ + "keys"@ + " "@, "at"@);
    a_gap_adds_nothing(p1 + " "@ + "recorded"@ + " "@ + "keys"@ + " "@ + "at"@, " "@);
    a_word_begins(p1 + " "@ + "recorded"@ + " "@ + "keys"@ + " "@ + "at"@ + " "@, "v90,"@);
    a_gap_adds_nothing(p1 + " "@ + "recorded"@ + " "@ + "keys"@ + " "@ + "at"@ + " "@ + "v90,"@, " "@);
    let p2 = p1 + " recorded keys at v90, "@;
    assert(p2 =~= p1 + " "@ + "recorded"@ + " "@ + "keys"@ + " "@ + "at"@ + " "@ + "v90,"@ + " "@);
    a_word_begins(p2, decimal(bands as nat));
    let p3 = p2 + decimal(bands as nat);
    a_gap_adds_nothing(p3, " "@);
    a_word_begins(p3 + " "@, "sixth-octave"@);
    a_gap_adds_nothing(p3 + " "@ + "sixth-octave"@, " "@);
    a_word_begins(p3 + " "@ + "sixth-octave"@ + " "@, "bands"@);
    a_gap_adds_nothing(p3 + " "@ + "sixth-octave"@ + " "@ + "bands"@, " "@);
    a_word_begins(p3 + " "@ + "sixth-octave"@ + " "@ + "bands"@ + " "@, "over"@);
    a_gap_adds_nothing(p3 + " "@ + "sixth-octave"@ + " "@ + "bands"@ + " "@ + "over"@, " "@);
    let p4 = p3 + " sixth-octave bands over "@;
    assert(p4 =~= p3 + " "@ + "sixth-octave"@ + " "@ + "bands"@ + " "@ + "over"@ + " "@);
    a_word_begins(p4, low);
    let p5 = p4 + low;
    a_word_goes_on(p5, "-"@);
    let p6 = p5 + "-"@;
    a_word_goes_on(p6, high);
    let p7 = p6 + high;
    a_gap_adds_nothing(p7, " "@);
    a_word_begins(p7 + " "@, "Hz,"@);
    a_gap_adds_nothing(p7 + " "@ + "Hz,"@, " "@);
    a_word_begins(p7 + " "@ + "Hz,"@ + " "@, "base"@);
    a_gap_adds_nothing(p7 + " "@ + "Hz,"@ + " "@ + "base"@, " "@);
    let p8 = p7 + " Hz, base "@;
    assert(p8 =~= p7 + " "@ + "Hz,"@ + " "@ + "base"@ + " "@);
    a_word_begins(p8, preset);
    let p9 = p8 + preset;
    a_gap_adds_nothing(p9, "\n"@);
    let p10 = p9 + "\n"@;
    assert(heading_text(keys, bands, low, high, preset) == p10);
}

/// Each number of `round_close` stands in its place among the words.
#[verifier::rlimit(30)]
pub proof fn the_words_of_round_close_stand_in_order(worst: Seq<char>, uniform: Seq<char>, spread: Seq<char>)
    requires
        is_word(worst),
        is_word(uniform),
        is_word(spread),
    ensures
        words_of(round_close_text(worst, uniform, spread)).len() == 17,
        words_of(round_close_text(worst, uniform, spread))[2] == "**"@ + worst,
        words_of(round_close_text(worst, uniform, spread))[8] == uniform,
        words_of(round_close_text(worst, uniform, spread))[15] == "**"@ + spread,
{
    reveal_strlit("\nworst deficit **");
    reveal_strlit("\n");
    reveal_strlit("worst");
    reveal_strlit(" ");
    reveal_strlit("deficit");
    reveal_strlit("**");
    reveal_strlit(" dB**; uniform component **K = ");
    reveal_strlit("dB**;");
    reveal_strlit("uniform");
    reveal_strlit("component");
    reveal_strlit("**K");
    reveal_strlit("=");
    reveal_strlit(" dB**, shape residual (peak-to-peak about K) **");
    reveal_strlit("dB**,");
    reveal_strlit("shape");
    reveal_strlit("residual");
    reveal_strlit("(peak-to-peak");
    reveal_strlit("about");
    reveal_strlit("K)");
    reveal_strlit(" dB**\n");
    reveal_strlit("dB**");
    let p0 = "\nworst deficit **"@;
    a_gap_adds_nothing(Seq::<char>::empty(), "\n"@);
    a_word_begins(Seq::<char>::empty() + "\n"@, "worst"@);
    a_gap_adds_nothing(Seq::<char>::empty() + "\n"@ + "worst"@, " "@);
    a_word_begins(Seq::<char>::empty() + "\n"@ + "worst"@ + " "@, "deficit"@);
    a_gap_adds_nothing(Seq::<char>::empty() + "\n"@ + "worst"@ + " "@ + "deficit"@, " "@);
    a_word_begins(Seq::<char>::empty() + "\n"@ + "worst"@ + " "@ + "deficit"@ + " "@, "**"@);
    assert(p0 =~= Seq::<char>::empty() + "\n"@ + "worst"@ + " "@ + "deficit"@ + " "@ + "**"@);
    a_word_goes_on(p0, worst);
    let p1 = p0 + worst;
    a_gap_adds_nothing(p1, " "@);
    a_word_begins(p1 + " "@, "dB**;"@);
    a_gap_adds_nothing(p1 + " "@ + "dB**;"@, " "@);
    a_word_begins(p1 + " "@ + "dB**;"@ + " "@, "uniform"@);
    a_gap_adds_nothing(p1 + " "@ + "dB**;"@ + " "@ + "uniform"@, " "@);
    a_word_begins(p1 + " "@ + "dB**;"@ + " "@ + "uniform"@ + " "@, "component"@);
    a_gap_adds_nothing(p1 + " "@ + "dB**;"@ + " "@ + "uniform"@ + " "@ + "component"@, " "@);
    a_word_begins(p1 + " "@ + "dB**;"@ + " "@ + "uniform"@ + " "@ + "component"@ + " "@, "**K"@);
    a_gap_adds_nothing(p1 + " "@ + "dB**;"@ + " "@ + "uniform"@ + " "@ + "component"@ + " "@ + "**K"@, " "@);
    a_word_begins(p1 + " "@ + "dB**;"@ + " "@ + "uniform"@ + " "@ + "component"@ + " "@ + "**K"@ + " "@, "="@);
    a_gap_adds_nothing(p1 + " "@ + "dB**;"@ + " "@ + "uniform"@ + " "@ + "component"@ + " "@ + "**K"@ + " "@ + "="@, " "@);
    let p2 = p1 + " dB**; uniform component **K = "@;
    assert(p2 =~= p1 + " "@ + "dB**;"@ + " "@ + "uniform"@ + " "@ + "component"@ + " "@ + "**K"@ + " "@ + "="@ + " "@);
    a_word_begins(p2, uniform);
    let p3 = p2 + uniform;
    a_gap_adds_nothing(p3, " "@);
    a_word_begins(p3 + " "@, "dB**,"@);
    a_gap_adds_nothing(p3 + " "@ + "dB**,"@, " "@);
    a_word_begins(p3 + " "@ + "dB**,"@ + " "@, "shape"@);
    a_gap_adds_nothing(p3 + " "@ + "dB**,"@ + " "@ + "shape"@, " "@);
    a_word_begins(p3 + " "@ + "dB**,"@ + " "@ + "shape"@ + " "@, "residual"@);
    a_gap_adds_nothing(p3 + " "@ + "dB**,"@ + " "@ + "shape"@ + " "@ + "residual"@, " "@);
    a_word_begins(p3 + " "@ + "dB**,"@ + " "@ + "shape"@ + " "@ + "residual"@ + " "@, "(peak-to-peak"@);
    a_gap_adds_nothing(p3 + " "@ + "dB**,"@ + " "@ + "shape"@ + " "@ + "residual"@ + " "@ + "(peak-to-peak"@, " "@);
    a_word_begins(p3 + " "@ + "dB**,"@ + " "@ + "shape"@ + " "@ + "residual"@ + " "@ + "(peak-to-peak"@ + " "@, "about"@);
    a_gap_adds_nothing(p3 + " "@ + "dB**,"@ + " "@ + "shape"@ + " "@ + "residual"@ + " "@ + "(peak-to-peak"@ + " "@ + "about"@, " "@);
    a_word_begins(p3 + " "@ + "dB**,"@ + " "@ + "shape"@ + " "@ + "residual"@ + " "@ + "(peak-to-peak"@ + " "@ + "about"@ + " "@, "K)"@);
    a_gap_adds_nothing(p3 + " "@ + "dB**,"@ + " "@ + "shape"@ + " "@ + "residual"@ + " "@ + "(peak-to-peak"@ + " "@ + "about"@ + " "@ + "K)"@, " "@);
    a_word_begins(p3 + " "@ + "dB**,"@ + " "@ + "shape"@ + " "@ + "residual"@ + " "@ + "(peak-to-peak"@ + " "@ + "about"@ + " "@ + "K)"@ + " "@, "**"@);
    let p4 = p3 + ROUND_CLOSE_0@;
    assert(p4 =~= p3 + " "@ + "dB**,"@ + " "@ + "shape"@ + " "@ + "residual"@ + " "@ + "(peak-to-peak"@ + " "@ + "about"@ + " "@ + "K)"@ + " "@ + "**"@);
    a_word_goes_on(p4, spread);
    let p5 = p4 + spread;
    a_gap_adds_nothing(p5, " "@);
    a_word_begins(p5 + " "@, "dB**"@);
    a_gap_adds_nothing(p5 + " "@ + "dB**"@, "\n"@);
    let p6 = p5 + " dB**\n"@;
    assert(p6 =~= p5 + " "@ + "dB**"@ + "\n"@);
    assert(round_close_text(worst, uniform, spread) == p6);
}

/// Each number of `ripple_point` stands in its place among the words.
#[verifier::rlimit(30)]
pub proof fn the_words_of_ripple_point_stand_in_order(p: Ripple)
    requires
        is_word(p.hz@),
        is_word(p.response@),
    ensures
        words_of(ripple_point_text(p)).len() == 1,
        words_of(ripple_point_text(p))[0] == p.hz@ + ":"@ + p.response@,
{
    reveal_strlit(":");
    reveal_strlit("  ");
    a_word_begins(Seq::<char>::empty(), p.hz@);
    let p0 = p.hz@;
    assert(Seq::<char>::empty() + p.hz@ =~= p0);
    a_word_goes_on(p0, ":"@);
    let p1 = p0 + ":"@;
    a_word_goes_on(p1, p.response@);
    let p2 = p1 + p.response@;
    a_gap_adds_nothing(p2, "  "@);
    let p3 = p2 + "  "@;
    assert(ripple_point_text(p) == p3);
}

/// Each number of `converged_line` stands in its place among the words.
#[verifier::rlimit(30)]
pub proof fn the_words_of_converged_line_stand_in_order(round: usize, tolerance: Seq<char>)
    requires
        is_word(tolerance),
    ensures
        words_of(converged_line_text(round, tolerance)).len() == 11,
        words_of(converged_line_text(round, tolerance))[2] == decimal(round as nat),
        words_of(converged_line_text(round, tolerance))[9] == tolerance,
{
    reveal_strlit("\n**Converged after ");
    reveal_strlit("\n");
    reveal_strlit("**Converged");
    reveal_strlit(" ");
    reveal_strlit("after");
    reveal_strlit(" rounds**: the shape residual is inside ");
    reveal_strlit("rounds**:");
    reveal_strlit("the");
    reveal_strlit("shape");
    reveal_strlit("residual");
    reveal_strlit("is");
    reveal_strlit("inside");
    reveal_strlit(" dB.\n");
    reveal_strlit("dB.");
    a_number_is_a_word(round as nat);
    let p0 = "\n**Converged after "@;
    a_gap_adds_nothing(Seq::<char>::empty(), "\n"@);
    a_word_begins(Seq::<char>::empty() + "\n"@, "**Converged"@);
    a_gap_adds_nothing(Seq::<char>::empty() + "\n"@ + "**Converged"@, " "@);
    a_word_begins(Seq::<char>::empty() + "\n"@ + "**Converged"@ + " "@, "after"@);
    a_gap_adds_nothing(Seq::<char>::empty() + "\n"@ + "**Converged"@ + " "@ + "after"@, " "@);
    assert(p0 =~= Seq::<char>::empty() + "\n"@ + "**Converged"@ + " "@ + "after"@ + " "@);
    a_word_begins(p0, decimal(round as nat));
    let p1 = p0 + decimal(round as nat);
    a_gap_adds_nothing(p1, " "@);
    a_word_begins(p1 + " "@, "rounds**:"@);
    a_gap_adds_nothing(p1 + " "@ + "rounds**:"@, " "@);
    a_word_begins(p1 + " "@ + "rounds**:"@ + " "@, "the"@);
    a_gap_adds_nothing(p1 + " "@ + "rounds**:"@ + " "@ + "the"@, " "@);
    a_word_begins(p1 + " "@ + "rounds**:"@ + " "@ + "the"@ + " "@, "shape"@);
    a_gap_adds_nothing(p1 + " "@ + "rounds**:"@ + " "@ + "the"@ + " "@ + "shape"@, " "@);
    a_word_begins(p1 + " "@ + "rounds**:"@ + " "@ + "the"@ + " "@ + "shape"@ + " "@, "residual"@);
    a_gap_adds_nothing(p1 + " "@ + "rounds**:"@ + " "@ + "the"@ + " "@ + "shape"@ + " "@ + "residual"@, " "@);
    a_word_begins(p1 + " "@ + "rounds**:"@ + " "@ + "the"@ + " "@ + "shape"@ + " "@ + "residual"@ + " "@, "is"@);
    a_gap_adds_nothing(p1 + " "@ + "rounds**:"@ + " "@ + "the"@ + " "@ + "shape"@ + " "@ + "residual"@ + " "@ + "is"@, " "@);
    a_word_begins(p1 + " "@ + "rounds**:"@ + " "@ + "the"@ + " "@ + "shape"@ + " "@ + "residual"@ + " "@ + "is"@ + " "@, "inside"@);
    a_gap_adds_nothing(p1 + " "@ + "rounds**:"@ + " "@ + "the"@ + " "@ + "shape"@ + " "@ + "residual"@ + " "@ + "is"@ + " "@ + "inside"@, " "@);
    let p2 = p1 + " rounds**: the shape residual is inside "@;
    assert(p2 =~= p1 + " "@ + "rounds**:"@ + " "@ + "the"@ + " "@ + "shape"@ + " "@ + "residual"@ + " "@ + "is"@ + " "@ + "inside"@ + " "@);
    a_word_begins(p2, tolerance);
    let p3 = p2 + tolerance;
    a_gap_adds_nothing(p3, " "@);
    a_word_begins(p3 + " "@, "dB."@);
    a_gap_adds_nothing(p3 + " "@ + "dB."@, "\n"@);
    let p4 = p3 + " dB.\n"@;
    assert(p4 =~= p3 + " "@ + "dB."@ + "\n"@);
    assert(converged_line_text(round, tolerance) == p4);
}

/// Each number of `not_converged_line` stands in its place among the words.
#[verifier::rlimit(30)]
pub proof fn the_words_of_not_converged_line_stand_in_order(rounds: usize, spread: Seq<char>)
    requires
        is_word(spread),
    ensures
        words_of(not_converged_line_text(rounds, spread)).len() == 9,
        words_of(not_converged_line_text(rounds, spread))[3] == decimal(rounds as nat),
        words_of(not_converged_line_text(rounds, spread))[7] == spread,
{
    reveal_strlit("\n**Not converged in ");
    reveal_strlit("\n");
    reveal_strlit("**Not");
    reveal_strlit(" ");
    reveal_strlit("converged");
    reveal_strlit("in");
    reveal_strlit(" rounds.** Shape residual ");
    reveal_strlit("rounds.**");
    reveal_strlit("Shape");
    reveal_strlit("residual");
    reveal_strlit(" dB.\n");
    reveal_strlit("dB.");
    a_number_is_a_word(rounds as nat);
    let p0 = "\n**Not converged in "@;
    a_gap_adds_nothing(Seq::<char>::empty(), "\n"@);
    a_word_begins(Seq::<char>::empty() + "\n"@, "**Not"@);
    a_gap_adds_nothing(Seq::<char>::empty() + "\n"@ + "**Not"@, " "@);
    a_word_begins(Seq::<char>::empty() + "\n"@ + "**Not"@ + " "@, "converged"@);
    a_gap_adds_nothing(Seq::<char>::empty() + "\n"@ + "**Not"@ + " "@ + "converged"@, " "@);
    a_word_begins(Seq::<char>::empty() + "\n"@ + "**Not"@ + " "@ + "converged"@ + " "@, "in"@);
    a_gap_adds_nothing(Seq::<char>::empty() + "\n"@ + "**Not"@ + " "@ + "converged"@ + " "@ + "in"@, " "@);
    assert(p0 =~= Seq::<char>::empty() + "\n"@ + "**Not"@ + " "@ + "converged"@ + " "@ + "in"@ + " "@);
    a_word_begins(p0, decimal(rounds as nat));
    let p1 = p0 + decimal(rounds as nat);
    a_gap_adds_nothing(p1, " "@);
    a_word_begins(p1 + " "@, "rounds.**"@);
    a_gap_adds_nothing(p1 + " "@ + "rounds.**"@, " "@);
    a_word_begins(p1 + " "@ + "rounds.**"@ + " "@, "Shape"@);
    a_gap_adds_nothing(p1 + " "@ + "rounds.**"@ + " "@ + "Shape"@, " "@);
    a_word_begins(p1 + " "@ + "rounds.**"@ + " "@ + "Shape"@ + " "@, "residual"@);
    a_gap_adds_nothing(p1 + " "@ + "rounds.**"@ + " "@ + "Shape"@ + " "@ + "residual"@, " "@);
    let p2 = p1 + " rounds.** Shape residual "@;
    assert(p2 =~= p1 + " "@ + "rounds.**"@ + " "@ + "Shape"@ + " "@ + "residual"@ + " "@);
    a_word_begins(p2, spread);
    let p3 = p2 + spread;
    a_gap_adds_nothing(p3, " "@);
    a_word_begins(p3 + " "@, "dB."@);
    a_gap_adds_nothing(p3 + " "@ + "dB."@, "\n"@);
    let p4 = p3 + " dB.\n"@;
    assert(p4 =~= p3 + " "@ + "dB."@ + "\n"@);
    assert(not_converged_line_text(rounds, spread) == p4);
}

} // verus!
