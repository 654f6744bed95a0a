//! What the motion stages say of what they did.

use crate::fit::tables::NUM_KEYS;
use crate::text::{decimal, print};
use vstd::prelude::*;

verus! {

/// How many numbers the description of a texture model shows.
pub const MODEL_FIELDS: usize = 59;

/// The distributions that a texture is drawn from; `f` holds the numbers as
/// they are printed, in the order they are shown.
pub open spec fn texture_model_text(f: Seq<String>) -> Seq<char> {
    "fitted from "@
        + f[0]@
        + " keys ("@
        + f[1]@
        + " split rows)\n  cells      exp("@
        + f[2]@
        + " key "@
        + f[3]@
        + "), scatter x"@
        + f[4]@
        + ", r "@
        + f[5]@
        + " -> "@
        + f[6]@
        + " at A0, "@
        + f[7]@
        + " at C4, "@
        + f[8]@
        + " at F#7\n  amount     exp("@
        + f[9]@
        + " key "@
        + f[10]@
        + ") dB, scatter x"@
        + f[11]@
        + ", r "@
        + f[12]@
        + " -> "@
        + f[13]@
        + " at A0, "@
        + f[14]@
        + " at C4, "@
        + f[15]@
        + " at F#7\n  lag-1 rho  "@
        + f[16]@
        + " over "@
        + f[17]@
        + " rows\n  ceiling    exp("@
        + f[18]@
        + " "@
        + f[19]@
        + " key "@
        + f[20]@
        + " key^2), scatter x"@
        + f[21]@
        + ", R2 "@
        + f[22]@
        + " -> "@
        + f[23]@
        + " at A0, "@
        + f[24]@
        + " at C4, "@
        + f[25]@
        + " at F#7\n  splits     P(any) "@
        + f[26]@
        + " at or under key "@
        + f[27]@
        + ", none above; count exp("@
        + f[28]@
        + " key "@
        + f[29]@
        + "), scatter x"@
        + f[30]@
        + ", r "@
        + f[31]@
        + "\n  rate       lognormal ln-mean "@
        + f[32]@
        + " ln-sd "@
        + f[33]@
        + " ("@
        + f[34]@
        + " Hz median, "@
        + f[35]@
        + ".."@
        + f[36]@
        + " band), r(k, rate) "@
        + f[37]@
        + " within a key, r(key, rate) "@
        + f[38]@
        + "\n  depth      "@
        + f[39]@
        + " "@
        + f[40]@
        + " key "@
        + f[41]@
        + " k dB, scatter "@
        + f[42]@
        + " dB, R2 "@
        + f[43]@
        + "\n  beat       exp("@
        + f[44]@
        + " "@
        + f[45]@
        + " key "@
        + f[46]@
        + " k) dB over "@
        + f[47]@
        + " cells at "@
        + f[48]@
        + " keys, scatter x"@
        + f[49]@
        + " (x"@
        + f[50]@
        + " between keys, x"@
        + f[51]@
        + " within one), R2 "@
        + f[52]@
        + " (key alone "@
        + f[53]@
        + ", k alone "@
        + f[54]@
        + ") -> "@
        + f[55]@
        + " at A0 k1, "@
        + f[56]@
        + " at C4 k1, "@
        + f[57]@
        + " at C4 k8\n  partials   "@
        + f[58]@
}

/// The distributions that a texture is drawn from; `f` holds the numbers as
/// they are printed, in the order they are shown.
pub fn texture_model(f: &Vec<String>) -> (text: String)
    requires
        f.len() == MODEL_FIELDS,
    ensures
        text@ == texture_model_text(f@),
{
    let mut out = String::from_str("fitted from ");
    out.append(f[0].as_str());
    out.append(" keys (");
    out.append(f[1].as_str());
    out.append(" split rows)\n  cells      exp(");
    out.append(f[2].as_str());
    out.append(" key ");
    out.append(f[3].as_str());
    out.append("), scatter x");
    out.append(f[4].as_str());
    out.append(", r ");
    out.append(f[5].as_str());
    out.append(" -> ");
    out.append(f[6].as_str());
    out.append(" at A0, ");
    out.append(f[7].as_str());
    out.append(" at C4, ");
    out.append(f[8].as_str());
    out.append(" at F#7\n  amount     exp(");
    out.append(f[9].as_str());
    out.append(" key ");
    out.append(f[10].as_str());
    out.append(") dB, scatter x");
    out.append(f[11].as_str());
    out.append(", r ");
    out.append(f[12].as_str());
    out.append(" -> ");
    out.append(f[13].as_str());
    out.append(" at A0, ");
    out.append(f[14].as_str());
    out.append(" at C4, ");
    out.append(f[15].as_str());
    out.append(" at F#7\n  lag-1 rho  ");
    out.append(f[16].as_str());
    out.append(" over ");
    out.append(f[17].as_str());
    out.append(" rows\n  ceiling    exp(");
    out.append(f[18].as_str());
    out.append(" ");
    out.append(f[19].as_str());
    out.append(" key ");
    out.append(f[20].as_str());
    out.append(" key^2), scatter x");
    out.append(f[21].as_str());
    out.append(", R2 ");
    out.append(f[22].as_str());
    out.append(" -> ");
    out.append(f[23].as_str());
    out.append(" at A0, ");
    out.append(f[24].as_str());
    out.append(" at C4, ");
    out.append(f[25].as_str());
    out.append(" at F#7\n  splits     P(any) ");
    out.append(f[26].as_str());
    out.append(" at or under key ");
    out.append(f[27].as_str());
    out.append(", none above; count exp(");
    out.append(f[28].as_str());
    out.append(" key ");
    out.append(f[29].as_str());
    out.append("), scatter x");
    out.append(f[30].as_str());
    out.append(", r ");
    out.append(f[31].as_str());
    out.append("\n  rate       lognormal ln-mean ");
    out.append(f[32].as_str());
    out.append(" ln-sd ");
    out.append(f[33].as_str());
    out.append(" (");
    out.append(f[34].as_str());
    out.append(" Hz median, ");
    out.append(f[35].as_str());
    out.append("..");
    out.append(f[36].as_str());
    out.append(" band), r(k, rate) ");
    out.append(f[37].as_str());
    out.append(" within a key, r(key, rate) ");
    out.append(f[38].as_str());
    out.append("\n  depth      ");
    out.append(f[39].as_str());
    out.append(" ");
    out.append(f[40].as_str());
    out.append(" key ");
    out.append(f[41].as_str());
    out.append(" k dB, scatter ");
    out.append(f[42].as_str());
    out.append(" dB, R2 ");
    out.append(f[43].as_str());
    out.append("\n  beat       exp(");
    out.append(f[44].as_str());
    out.append(" ");
    out.append(f[45].as_str());
    out.append(" key ");
    out.append(f[46].as_str());
    out.append(" k) dB over ");
    out.append(f[47].as_str());
    out.append(" cells at ");
    out.append(f[48].as_str());
    out.append(" keys, scatter x");
    out.append(f[49].as_str());
    out.append(" (x");
    out.append(f[50].as_str());
    out.append(" between keys, x");
    out.append(f[51].as_str());
    out.append(" within one), R2 ");
    out.append(f[52].as_str());
    out.append(" (key alone ");
    out.append(f[53].as_str());
    out.append(", k alone ");
    out.append(f[54].as_str());
    out.append(") -> ");
    out.append(f[55].as_str());
    out.append(" at A0 k1, ");
    out.append(f[56].as_str());
    out.append(" at C4 k1, ");
    out.append(f[57].as_str());
    out.append(" at C4 k8\n  partials   ");
    out.append(f[58].as_str());
    out
}

/// What the draw for one key came to.
#[derive(Clone, Copy, Debug, PartialEq, Eq, Structural)]
pub struct KeyCounts {
    /// Gains that were written.
    pub cells: u32,
    /// Splits that were drawn.
    pub drew: u32,
    /// Splits that were written.
    pub kept: u32,
    /// Splits whose level the ceiling moved.
    pub trimmed: u32,
    /// Splits that were refused.
    pub refused: u32,
    /// Splits whose partial the render did not resolve.
    pub unobserved: u32,
}

/// What the draws came to together.
pub ghost struct Sums {
    pub cells: nat,
    pub drew: nat,
    pub kept: nat,
    pub keys_with_splits: nat,
    pub trimmed: nat,
    pub refused: nat,
    pub unobserved: nat,
}

/// What the draws came to together.
pub open spec fn sums(rows: Seq<KeyCounts>) -> Sums
    decreases rows.len(),
{
    if rows.len() == 0 {
        Sums {
            cells: 0,
            drew: 0,
            kept: 0,
            keys_with_splits: 0,
            trimmed: 0,
            refused: 0,
            unobserved: 0,
        }
    } else {
        let s = sums(rows.drop_last());
        let r = rows.last();
        Sums {
            cells: s.cells + r.cells as nat,
            drew: s.drew + r.drew as nat,
            kept: s.kept + r.kept as nat,
            keys_with_splits: s.keys_with_splits + (if r.kept > 0 {
                1nat
            } else {
                0nat
            }),
            trimmed: s.trimmed + r.trimmed as nat,
            refused: s.refused + r.refused as nat,
            unobserved: s.unobserved + r.unobserved as nat,
        }
    }
}

/// What was drawn.
pub open spec fn drawn_line_text(keys: u64, cells: u64, kept: u64, with_splits: u64, refused: u64, measured: u64) -> Seq<char> {
    "drawn: "@
        + decimal(keys as nat)
        + " keys, "@
        + decimal(cells as nat)
        + " gain cells, "@
        + decimal(kept as nat)
        + " split rows over "@
        + decimal(with_splits as nat)
        + " keys; "@
        + decimal(refused as nat)
        + " rows refused by their own ceiling; "@
        + decimal(measured as nat)
        + " keys keep their measured rows\n"@
}

/// What was drawn.
pub fn drawn_line(keys: u64, cells: u64, kept: u64, with_splits: u64, refused: u64, measured: u64) -> (text: String)
    ensures
        text@ == drawn_line_text(keys, cells, kept, with_splits, refused, measured),
{
    let mut out = String::from_str("drawn: ");
    out.append(print(keys).as_str());
    out.append(" keys, ");
    out.append(print(cells).as_str());
    out.append(" gain cells, ");
    out.append(print(kept).as_str());
    out.append(" split rows over ");
    out.append(print(with_splits).as_str());
    out.append(" keys; ");
    out.append(print(refused).as_str());
    out.append(" rows refused by their own ceiling; ");
    out.append(print(measured).as_str());
    out.append(" keys keep their measured rows\n");
    out
}

pub const CLOSED_LINE_0: &'static str = " refused (the partial already beats over its ceiling with nothing written), ";

pub const CLOSED_LINE_1: &'static str = " kept unclosed (the render did not resolve the partial)\n";

/// What became of the splits.
pub open spec fn closed_line_text(drew: u64, trimmed: u64, average: Seq<char>, refused: u64, unobserved: u64) -> Seq<char> {
    "splits closed on the render: "@
        + decimal(drew as nat)
        + " drawn, "@
        + decimal(trimmed as nat)
        + " trimmed by "@
        + average
        + " dB on average, "@
        + decimal(refused as nat)
        + CLOSED_LINE_0@
        + decimal(unobserved as nat)
        + CLOSED_LINE_1@
}

/// What became of the splits.
pub fn closed_line(drew: u64, trimmed: u64, average: &str, refused: u64, unobserved: u64) -> (text: String)
    ensures
        text@ == closed_line_text(drew, trimmed, average@, refused, unobserved),
{
    let mut out = String::from_str("splits closed on the render: ");
    out.append(print(drew).as_str());
    out.append(" drawn, ");
    out.append(print(trimmed).as_str());
    out.append(" trimmed by ");
    out.append(average);
    out.append(" dB on average, ");
    out.append(print(refused).as_str());
    out.append(CLOSED_LINE_0);
    out.append(print(unobserved).as_str());
    out.append(CLOSED_LINE_1);
    out
}

/// The two lines that end a draw: `refused_rows` rows were refused, `measured`
/// keys keep theirs, and `average` is the mean trim as it is printed.
pub open spec fn draw_summary_text(rows: Seq<KeyCounts>, refused_rows: u64, measured: u64, average: Seq<char>) -> Seq<char> {
    let s = sums(rows);
    drawn_line_text(
        rows.len() as u64,
        s.cells as u64,
        s.kept as u64,
        s.keys_with_splits as u64,
        refused_rows,
        measured,
    ) + closed_line_text(
        s.drew as u64,
        s.trimmed as u64,
        average,
        s.refused as u64,
        s.unobserved as u64,
    )
}

/// The two lines that end a draw.
pub fn draw_summary(rows: &Vec<KeyCounts>, refused_rows: u64, measured: u64, average: &str) -> (text: String)
    requires
        rows.len() <= NUM_KEYS,
    ensures
        text@ == draw_summary_text(rows@, refused_rows, measured, average@),
{
    let mut cells: u64 = 0;
    let mut drew: u64 = 0;
    let mut kept: u64 = 0;
    let mut with: u64 = 0;
    let mut trimmed: u64 = 0;
    let mut refused: u64 = 0;
    let mut unobserved: u64 = 0;
    let mut i: usize = 0;
    proof {
        assert(rows@.take(0) =~= Seq::<KeyCounts>::empty());
    }
    while i < rows.len()
        invariant
            i <= rows.len() <= NUM_KEYS,
            sums(rows@.take(i as int)) == (Sums {
                cells: cells as nat,
                drew: drew as nat,
                kept: kept as nat,
                keys_with_splits: with as nat,
                trimmed: trimmed as nat,
                refused: refused as nat,
                unobserved: unobserved as nat,
            }),
            cells <= i * 0xffff_ffff,
            drew <= i * 0xffff_ffff,
            kept <= i * 0xffff_ffff,
            with <= i,
            trimmed <= i * 0xffff_ffff,
            refused <= i * 0xffff_ffff,
            unobserved <= i * 0xffff_ffff,
        decreases rows.len() - i,
    {
        let r = rows[i];
        proof {
            assert(rows@.take(i + 1).drop_last() =~= rows@.take(i as int));
            assert(rows@.take(i + 1).last() == r);
        }
        cells = cells + r.cells as u64;
        drew = drew + r.drew as u64;
        kept = kept + r.kept as u64;
        if r.kept > 0 {
            with = with + 1;
        }
        trimmed = trimmed + r.trimmed as u64;
        refused = refused + r.refused as u64;
        unobserved = unobserved + r.unobserved as u64;
        i = i + 1;
    }
    proof {
        assert(rows@.take(i as int) =~= rows@);
    }
    let mut out = drawn_line(rows.len() as u64, cells, kept, with, refused_rows, measured);
    out.append(closed_line(drew, trimmed, average, refused, unobserved).as_str());
    out
}

pub const CONTROL_LINE_0: &'static str = "  control    with no split written at all, the engine's own unison already beats over \
    the recording's own depth at ";

pub const CONTROL_LINE_1: &'static str = " dB — the cells a fitted key's loop drops, and the same cells a drawn key's ceiling \
    refuses\n";

/// How often a key beats over its recording with nothing written.
pub open spec fn control_line_text(over: u64, cells: u64, percent: Seq<char>, median: Seq<char>) -> Seq<char> {
    CONTROL_LINE_0@
        + decimal(over as nat)
        + " of "@
        + decimal(cells as nat)
        + " sampled cells ("@
        + percent
        + " %), median "@
        + median
        + CONTROL_LINE_1@
}

/// How often a key beats over its recording with nothing written.
pub fn control_line(over: u64, cells: u64, percent: &str, median: &str) -> (text: String)
    ensures
        text@ == control_line_text(over, cells, percent@, median@),
{
    let mut out = String::from_str(CONTROL_LINE_0);
    out.append(print(over).as_str());
    out.append(" of ");
    out.append(print(cells).as_str());
    out.append(" sampled cells (");
    out.append(percent);
    out.append(" %), median ");
    out.append(median);
    out.append(CONTROL_LINE_1);
    out
}

} // verus!
