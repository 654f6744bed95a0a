//! What a run on the recording chain says of what it found.

use crate::chain::report::{Arrival, CurveRow, Findings, PhraseRow, SpatialRow, SweptLevel, TailRow};
use crate::chain::{arrivals, arrivals_text};
use crate::text::{decimal, left_in, print, push_left, push_right, right_in};
use crate::words::{a_gap_adds_nothing, a_left_word_begins, a_number_is_a_word, a_right_word_begins, a_word_begins, a_word_goes_on, is_word, words_of};
use vstd::prelude::*;

verus! {

/// A number without its plus.
pub open spec fn plain_text(s: Seq<char>) -> Seq<char> {
    if s.len() > 0 && s[0] == '+' {
        s.skip(1)
    } else {
        s
    }
}

/// A number without its plus.
pub fn plain(s: &str) -> (r: String)
    ensures
        r@ == plain_text(s@),
{
    let n: usize = s.unicode_len();
    if n > 0 && s.get_char(0) == '+' {
        String::from_str(s.substring_char(1, n))
    } else {
        String::from_str(s)
    }
}

/// Two ends of a band.
pub open spec fn span_text(low: Seq<char>, high: Seq<char>) -> Seq<char> {
    low + "-"@ + high
}

/// Two ends of a band.
pub fn span(low: &str, high: &str) -> (r: String)
    ensures
        r@ == span_text(low@, high@),
{
    let mut out = String::from_str(low);
    out.append("-");
    out.append(high);
    out
}

/// How the keys are shared out.
pub open spec fn split_line_text(keys: usize, first: usize, second: usize, velocities: usize) -> Seq<char> {
    decimal(keys as nat)
        + " sampled keys, split "@
        + decimal(first as nat)
        + " / "@
        + decimal(second as nat)
        + "; "@
        + decimal(velocities as nat)
        + " velocities each\n\n"@
}

/// How the keys are shared out.
pub fn split_line(keys: usize, first: usize, second: usize, velocities: usize) -> (text: String)
    ensures
        text@ == split_line_text(keys, first, second, velocities),
{
    let mut out = String::from_str(print(keys as u64).as_str());
    out.append(" sampled keys, split ");
    out.append(print(first as u64).as_str());
    out.append(" / ");
    out.append(print(second as u64).as_str());
    out.append("; ");
    out.append(print(velocities as u64).as_str());
    out.append(" velocities each\n\n");
    out
}

/// How many pairs were rendered, and how long it took.
pub open spec fn pairs_line_text(pairs: usize, seconds: Seq<char>) -> Seq<char> {
    decimal(pairs as nat)
        + " matched note pairs in "@
        + seconds
        + " s\n"@
}

/// How many pairs were rendered, and how long it took.
pub fn pairs_line(pairs: usize, seconds: &str) -> (text: String)
    ensures
        text@ == pairs_line_text(pairs, seconds@),
{
    let mut out = String::from_str(print(pairs as u64).as_str());
    out.append(" matched note pairs in ");
    out.append(seconds);
    out.append(" s\n");
    out
}

pub const TRANSFER_HEADING_0: &'static str = "\n== (a) the smooth spectral transfer ==\n  split-half agreement (even keys vs odd \
    keys): mean |Δ| ";

pub const TRANSFER_HEADING_1: &'static str = "\n  soft vs loud layers:                          mean |Δ| ";

pub const TRANSFER_HEADING_2: &'static str = "\n\n        Hz        A        B      all    n(A)   MAD(A)\n";

/// How far the curves agree, and the head of the curve.
pub open spec fn transfer_heading_text(f: Findings) -> Seq<char> {
    TRANSFER_HEADING_0@
        + f.split@
        + " dB, r "@
        + f.split_r@
        + TRANSFER_HEADING_1@
        + f.level@
        + " dB, r "@
        + f.level_r@
        + TRANSFER_HEADING_2@
}

/// How far the curves agree, and the head of the curve.
pub fn transfer_heading(f: &Findings) -> (text: String)
    ensures
        text@ == transfer_heading_text(*f),
{
    let mut out = String::from_str(TRANSFER_HEADING_0);
    out.append(f.split.as_str());
    out.append(" dB, r ");
    out.append(f.split_r.as_str());
    out.append(TRANSFER_HEADING_1);
    out.append(f.level.as_str());
    out.append(" dB, r ");
    out.append(f.level_r.as_str());
    out.append(TRANSFER_HEADING_2);
    out
}

/// A band of the curve.
pub open spec fn band_row_text(r: CurveRow) -> Seq<char> {
    "  "@
        + right_in(r.hz@, 8)
        + "  "@
        + right_in(plain_text(r.half_a@), 7)
        + "  "@
        + right_in(plain_text(r.half_b@), 7)
        + "  "@
        + right_in(plain_text(r.all@), 7)
        + "  "@
        + right_in(r.pairs@, 6)
        + "  "@
        + right_in(r.scatter@, 7)
        + "\n"@
}

/// A band of the curve.
pub fn band_row(r: &CurveRow) -> (text: String)
    ensures
        text@ == band_row_text(*r),
{
    let mut out = String::from_str("  ");
    push_right(&mut out, r.hz.as_str(), 8);
    out.append("  ");
    push_right(&mut out, plain(r.half_a.as_str()).as_str(), 7);
    out.append("  ");
    push_right(&mut out, plain(r.half_b.as_str()).as_str(), 7);
    out.append("  ");
    push_right(&mut out, plain(r.all.as_str()).as_str(), 7);
    out.append("  ");
    push_right(&mut out, r.pairs.as_str(), 6);
    out.append("  ");
    push_right(&mut out, r.scatter.as_str(), 7);
    out.append("\n");
    out
}

/// The bands of the curve.
pub open spec fn band_rows_text(rows: Seq<CurveRow>) -> Seq<char>
    decreases rows.len(),
{
    if rows.len() == 0 {
        Seq::empty()
    } else {
        band_rows_text(rows.drop_last()) + band_row_text(rows.last())
    }
}

/// The bands of the curve.
pub fn band_rows(rows: &Vec<CurveRow>) -> (text: String)
    ensures
        text@ == band_rows_text(rows@),
{
    let mut out = String::new();
    let mut i: usize = 0;
    proof {
        assert(rows@.take(0) =~= Seq::<CurveRow>::empty());
    }
    while i < rows.len()
        invariant
            i <= rows.len(),
            out@ == band_rows_text(rows@.take(i as int)),
        decreases rows.len() - i,
    {
        proof {
            assert(rows@.take(i + 1).drop_last() =~= rows@.take(i as int));
        }
        out.append(band_row(&rows[i]).as_str());
        i = i + 1;
    }
    proof {
        assert(rows@.take(i as int) =~= rows@);
    }
    out
}

pub const TRANSFER_END_0: &'static str = "\n  median per-band |engine − reference| over readable cells, curve fitted on half \
    A:\n    train (half A) ";

/// What the curve takes off, and where it was read.
pub open spec fn transfer_end_text(f: Findings) -> Seq<char> {
    TRANSFER_END_0@
        + f.train_before@
        + " -> "@
        + f.train_after@
        + " dB     held out (half B) "@
        + f.held_before@
        + " -> "@
        + f.held_after@
        + " dB\n  the curve was read over bands "@
        + decimal(f.read_low as nat)
        + ".."@
        + decimal(f.read_high as nat)
        + " ("@
        + f.read_low_hz@
        + "-"@
        + f.read_high_hz@
        + " Hz) and is flat outside them\n"@
}

/// What the curve takes off, and where it was read.
pub fn transfer_end(f: &Findings) -> (text: String)
    ensures
        text@ == transfer_end_text(*f),
{
    let mut out = String::from_str(TRANSFER_END_0);
    out.append(f.train_before.as_str());
    out.append(" -> ");
    out.append(f.train_after.as_str());
    out.append(" dB     held out (half B) ");
    out.append(f.held_before.as_str());
    out.append(" -> ");
    out.append(f.held_after.as_str());
    out.append(" dB\n  the curve was read over bands ");
    out.append(print(f.read_low as u64).as_str());
    out.append("..");
    out.append(print(f.read_high as u64).as_str());
    out.append(" (");
    out.append(f.read_low_hz.as_str());
    out.append("-");
    out.append(f.read_high_hz.as_str());
    out.append(" Hz) and is flat outside them\n");
    out
}

/// The head of the channels.
pub const SIGNATURE: &'static str = "\n== (b) the spatial and temporal signature ==\n  interchannel correlation, recording \
    against engine:\n    band  reference r@0 / peak         at lag ms        engine r@0\n";

/// A band of the channels.
pub open spec fn channel_row_text(r: SpatialRow) -> Seq<char> {
    "  "@
        + right_in(span_text(r.low@, r.high@), 6)
        + "  "@
        + right_in(r.zero@, 9)
        + " / "@
        + right_in(r.peak@, 6)
        + "  "@
        + right_in(plain_text(r.lag@), 16)
        + "  "@
        + right_in(r.engine@, 16)
        + "\n"@
}

/// A band of the channels.
pub fn channel_row(r: &SpatialRow) -> (text: String)
    ensures
        text@ == channel_row_text(*r),
{
    let mut out = String::from_str("  ");
    push_right(&mut out, span(r.low.as_str(), r.high.as_str()).as_str(), 6);
    out.append("  ");
    push_right(&mut out, r.zero.as_str(), 9);
    out.append(" / ");
    push_right(&mut out, r.peak.as_str(), 6);
    out.append("  ");
    push_right(&mut out, plain(r.lag.as_str()).as_str(), 16);
    out.append("  ");
    push_right(&mut out, r.engine.as_str(), 16);
    out.append("\n");
    out
}

/// The bands of the channels.
pub open spec fn channel_rows_text(rows: Seq<SpatialRow>) -> Seq<char>
    decreases rows.len(),
{
    if rows.len() == 0 {
        Seq::empty()
    } else {
        channel_rows_text(rows.drop_last()) + channel_row_text(rows.last())
    }
}

/// The bands of the channels.
pub fn channel_rows(rows: &Vec<SpatialRow>) -> (text: String)
    ensures
        text@ == channel_rows_text(rows@),
{
    let mut out = String::new();
    let mut i: usize = 0;
    proof {
        assert(rows@.take(0) =~= Seq::<SpatialRow>::empty());
    }
    while i < rows.len()
        invariant
            i <= rows.len(),
            out@ == channel_rows_text(rows@.take(i as int)),
        decreases rows.len() - i,
    {
        proof {
            assert(rows@.take(i + 1).drop_last() =~= rows@.take(i as int));
        }
        out.append(channel_row(&rows[i]).as_str());
        i = i + 1;
    }
    proof {
        assert(rows@.take(i as int) =~= rows@);
    }
    out
}

pub const DECAY_HEADING_0: &'static str = " impulsive mechanism recordings read\n  broadband EDT ";

/// The whole band, and the head of the decays.
pub open spec fn decay_heading_text(f: Findings) -> Seq<char> {
    "  broadband r@0: reference "@
        + f.broadband@
        + ", engine "@
        + f.engine_broadband@
        + "\n\n  "@
        + decimal(f.impulsive as nat)
        + DECAY_HEADING_0@
        + f.edt@
        + " s, T20 "@
        + f.t20@
        + " s\n          band     T20 s\n"@
}

/// The whole band, and the head of the decays.
pub fn decay_heading(f: &Findings) -> (text: String)
    ensures
        text@ == decay_heading_text(*f),
{
    let mut out = String::from_str("  broadband r@0: reference ");
    out.append(f.broadband.as_str());
    out.append(", engine ");
    out.append(f.engine_broadband.as_str());
    out.append("\n\n  ");
    out.append(print(f.impulsive as u64).as_str());
    out.append(DECAY_HEADING_0);
    out.append(f.edt.as_str());
    out.append(" s, T20 ");
    out.append(f.t20.as_str());
    out.append(" s\n          band     T20 s\n");
    out
}

/// A band of the decays.
pub open spec fn decay_row_text(r: TailRow) -> Seq<char> {
    "  "@
        + right_in(span_text(r.low@, r.high@), 12)
        + "  "@
        + right_in(r.decay@, 8)
        + "\n"@
}

/// A band of the decays.
pub fn decay_row(r: &TailRow) -> (text: String)
    ensures
        text@ == decay_row_text(*r),
{
    let mut out = String::from_str("  ");
    push_right(&mut out, span(r.low.as_str(), r.high.as_str()).as_str(), 12);
    out.append("  ");
    push_right(&mut out, r.decay.as_str(), 8);
    out.append("\n");
    out
}

/// The bands of the decays.
pub open spec fn decay_rows_text(rows: Seq<TailRow>) -> Seq<char>
    decreases rows.len(),
{
    if rows.len() == 0 {
        Seq::empty()
    } else {
        decay_rows_text(rows.drop_last()) + decay_row_text(rows.last())
    }
}

/// The bands of the decays.
pub fn decay_rows(rows: &Vec<TailRow>) -> (text: String)
    ensures
        text@ == decay_rows_text(rows@),
{
    let mut out = String::new();
    let mut i: usize = 0;
    proof {
        assert(rows@.take(0) =~= Seq::<TailRow>::empty());
    }
    while i < rows.len()
        invariant
            i <= rows.len(),
            out@ == decay_rows_text(rows@.take(i as int)),
        decreases rows.len() - i,
    {
        proof {
            assert(rows@.take(i + 1).drop_last() =~= rows@.take(i as int));
        }
        out.append(decay_row(&rows[i]).as_str());
        i = i + 1;
    }
    proof {
        assert(rows@.take(i as int) =~= rows@);
    }
    out
}

/// The head of the arrivals.
pub const CANDIDATES: &'static str = "\n  reflection candidates (clustered over the mechanism recordings):\n   delay ms   \
    level dB     side       n\n";

/// A cluster of the arrivals.
pub open spec fn candidate_row_text(r: Arrival) -> Seq<char> {
    "  "@
        + right_in(r.delay@, 9)
        + "  "@
        + right_in(r.level@, 9)
        + "  "@
        + right_in(plain_text(r.side@), 7)
        + "  "@
        + right_in(decimal(r.count as nat), 6)
        + "\n"@
}

/// A cluster of the arrivals.
pub fn candidate_row(r: &Arrival) -> (text: String)
    ensures
        text@ == candidate_row_text(*r),
{
    let mut out = String::from_str("  ");
    push_right(&mut out, r.delay.as_str(), 9);
    out.append("  ");
    push_right(&mut out, r.level.as_str(), 9);
    out.append("  ");
    push_right(&mut out, plain(r.side.as_str()).as_str(), 7);
    out.append("  ");
    push_right(&mut out, print(r.count as u64).as_str(), 6);
    out.append("\n");
    out
}

/// The clusters of the arrivals.
pub open spec fn candidate_rows_text(rows: Seq<Arrival>) -> Seq<char>
    decreases rows.len(),
{
    if rows.len() == 0 {
        Seq::empty()
    } else {
        candidate_rows_text(rows.drop_last()) + candidate_row_text(rows.last())
    }
}

/// The clusters of the arrivals.
pub fn candidate_rows(rows: &Vec<Arrival>) -> (text: String)
    ensures
        text@ == candidate_rows_text(rows@),
{
    let mut out = String::new();
    let mut i: usize = 0;
    proof {
        assert(rows@.take(0) =~= Seq::<Arrival>::empty());
    }
    while i < rows.len()
        invariant
            i <= rows.len(),
            out@ == candidate_rows_text(rows@.take(i as int)),
        decreases rows.len() - i,
    {
        proof {
            assert(rows@.take(i + 1).drop_last() =~= rows@.take(i as int));
        }
        out.append(candidate_row(&rows[i]).as_str());
        i = i + 1;
    }
    proof {
        assert(rows@.take(i as int) =~= rows@);
    }
    out
}

pub const SWEEP_START_0: &'static str = "\n\n  fitting the tail level to the recording's own decorrelation (bare engine \
    mismatch ";

/// What the arrivals are, and the head of the levels tried.
pub open spec fn sweep_start_text(f: Findings) -> Seq<char> {
    arrivals_text(f.rising)
        + SWEEP_START_0@
        + f.bare@
        + "):\n"@
}

/// What the arrivals are, and the head of the levels tried.
pub fn sweep_start(f: &Findings) -> (text: String)
    ensures
        text@ == sweep_start_text(*f),
{
    let mut out = String::from_str(arrivals(f.rising));
    out.append(SWEEP_START_0);
    out.append(f.bare.as_str());
    out.append("):\n");
    out
}

/// A level that was tried.
pub open spec fn level_row_text(r: SweptLevel) -> Seq<char> {
    "    tail "@
        + r.level@
        + " dB -> interchannel mismatch "@
        + r.mismatch@
        + "\n"@
}

/// A level that was tried.
pub fn level_row(r: &SweptLevel) -> (text: String)
    ensures
        text@ == level_row_text(*r),
{
    let mut out = String::from_str("    tail ");
    out.append(r.level.as_str());
    out.append(" dB -> interchannel mismatch ");
    out.append(r.mismatch.as_str());
    out.append("\n");
    out
}

/// The levels that were tried.
pub open spec fn level_rows_text(rows: Seq<SweptLevel>) -> Seq<char>
    decreases rows.len(),
{
    if rows.len() == 0 {
        Seq::empty()
    } else {
        level_rows_text(rows.drop_last()) + level_row_text(rows.last())
    }
}

/// The levels that were tried.
pub fn level_rows(rows: &Vec<SweptLevel>) -> (text: String)
    ensures
        text@ == level_rows_text(rows@),
{
    let mut out = String::new();
    let mut i: usize = 0;
    proof {
        assert(rows@.take(0) =~= Seq::<SweptLevel>::empty());
    }
    while i < rows.len()
        invariant
            i <= rows.len(),
            out@ == level_rows_text(rows@.take(i as int)),
        decreases rows.len() - i,
    {
        proof {
            assert(rows@.take(i + 1).drop_last() =~= rows@.take(i as int));
        }
        out.append(level_row(&rows[i]).as_str());
        i = i + 1;
    }
    proof {
        assert(rows@.take(i as int) =~= rows@);
    }
    out
}

pub const COLLAPSE_START_0: &'static str = "  the recording's decorrelation is matched at a tail level of ";

pub const COLLAPSE_START_1: &'static str = ")\n\n== the collapse, on held-out phrases ==\n";

/// The level that matches best, and the head of the collapse.
pub open spec fn collapse_start_text(f: Findings) -> Seq<char> {
    COLLAPSE_START_0@
        + f.tail_level@
        + " dB (mismatch "@
        + f.matched@
        + COLLAPSE_START_1@
}

/// The level that matches best, and the head of the collapse.
pub fn collapse_start(f: &Findings) -> (text: String)
    ensures
        text@ == collapse_start_text(*f),
{
    let mut out = String::from_str(COLLAPSE_START_0);
    out.append(f.tail_level.as_str());
    out.append(" dB (mismatch ");
    out.append(f.matched.as_str());
    out.append(COLLAPSE_START_1);
    out
}

/// A phrase of the collapse.
pub open spec fn phrase_line_text(r: PhraseRow) -> Seq<char> {
    "  "@
        + left_in(r.name@, 18)
        + " mel "@
        + r.mel.engine@
        + " -> "@
        + r.mel.eq@
        + " -> "@
        + r.mel.chain@
        + "  (floor "@
        + r.mel.floor@
        + ")   mod "@
        + r.modulation.engine@
        + " -> "@
        + r.modulation.eq@
        + " -> "@
        + r.modulation.chain@
        + " (floor "@
        + r.modulation.floor@
        + ")\n"@
}

/// A phrase of the collapse.
pub fn phrase_line(r: &PhraseRow) -> (text: String)
    ensures
        text@ == phrase_line_text(*r),
{
    let mut out = String::from_str("  ");
    push_left(&mut out, r.name.as_str(), 18);
    out.append(" mel ");
    out.append(r.mel.engine.as_str());
    out.append(" -> ");
    out.append(r.mel.eq.as_str());
    out.append(" -> ");
    out.append(r.mel.chain.as_str());
    out.append("  (floor ");
    out.append(r.mel.floor.as_str());
    out.append(")   mod ");
    out.append(r.modulation.engine.as_str());
    out.append(" -> ");
    out.append(r.modulation.eq.as_str());
    out.append(" -> ");
    out.append(r.modulation.chain.as_str());
    out.append(" (floor ");
    out.append(r.modulation.floor.as_str());
    out.append(")\n");
    out
}

/// The phrases of the collapse.
pub open spec fn phrase_lines_text(rows: Seq<PhraseRow>) -> Seq<char>
    decreases rows.len(),
{
    if rows.len() == 0 {
        Seq::empty()
    } else {
        phrase_lines_text(rows.drop_last()) + phrase_line_text(rows.last())
    }
}

/// The phrases of the collapse.
pub fn phrase_lines(rows: &Vec<PhraseRow>) -> (text: String)
    ensures
        text@ == phrase_lines_text(rows@),
{
    let mut out = String::new();
    let mut i: usize = 0;
    proof {
        assert(rows@.take(0) =~= Seq::<PhraseRow>::empty());
    }
    while i < rows.len()
        invariant
            i <= rows.len(),
            out@ == phrase_lines_text(rows@.take(i as int)),
        decreases rows.len() - i,
    {
        proof {
            assert(rows@.take(i + 1).drop_last() =~= rows@.take(i as int));
        }
        out.append(phrase_line(&rows[i]).as_str());
        i = i + 1;
    }
    proof {
        assert(rows@.take(i as int) =~= rows@);
    }
    out
}

pub const COLLAPSE_END_0: &'static str = " (the resolution the images are drawn at):\n    as rendered ";

pub const COLLAPSE_END_1: &'static str = " dB  ->  one global static curve fitted on the answer ";

pub const COLLAPSE_END_2: &'static str = "\n    so a static magnitude chain has at most ";

pub const COLLAPSE_END_3: &'static str = " dB gap to give, and the fitted curve has already taken ";

pub const COLLAPSE_END_4: &'static str = "\n  interchannel mismatch against the recording: bare ";

/// What the collapse comes to, the oracle, and what was written.
pub open spec fn collapse_end_text(f: Findings) -> Seq<char> {
    "\n  mean over the six: mel "@
        + f.mel.engine@
        + " -> "@
        + f.mel.eq@
        + " (EQ) -> "@
        + f.mel.chain@
        + " (chain), floor "@
        + f.mel.floor@
        + "\n  the excess over the floor is "@
        + f.excess@
        + " dB; the EQ absorbs "@
        + f.eq_share@
        + " % of it and the whole chain "@
        + f.chain_share@
        + " %\n\n  the oracle, at window "@
        + decimal(f.window as nat)
        + COLLAPSE_END_0@
        + f.oracle.none@
        + COLLAPSE_END_1@
        + f.oracle.one@
        + "  ->  one curve per phrase "@
        + f.oracle.each@
        + "\n    through the fitted EQ "@
        + f.oracle_eq.none@
        + " dB  ->  "@
        + f.oracle_eq.one@
        + "  ->  "@
        + f.oracle_eq.each@
        + COLLAPSE_END_2@
        + f.oracle_gain@
        + " dB of the "@
        + f.oracle.none@
        + COLLAPSE_END_3@
        + f.oracle_taken@
        + " of it\n\n  wrote "@
        + decimal(f.written@.len())
        + " triples into "@
        + f.out@
        + COLLAPSE_END_4@
        + f.bare@
        + " -> chained "@
        + f.chained@
        + "\n"@
}

/// What the collapse comes to, the oracle, and what was written.
pub fn collapse_end(f: &Findings) -> (text: String)
    ensures
        text@ == collapse_end_text(*f),
{
    let mut out = String::from_str("\n  mean over the six: mel ");
    out.append(f.mel.engine.as_str());
    out.append(" -> ");
    out.append(f.mel.eq.as_str());
    out.append(" (EQ) -> ");
    out.append(f.mel.chain.as_str());
    out.append(" (chain), floor ");
    out.append(f.mel.floor.as_str());
    out.append("\n  the excess over the floor is ");
    out.append(f.excess.as_str());
    out.append(" dB; the EQ absorbs ");
    out.append(f.eq_share.as_str());
    out.append(" % of it and the whole chain ");
    out.append(f.chain_share.as_str());
    out.append(" %\n\n  the oracle, at window ");
    out.append(print(f.window as u64).as_str());
    out.append(COLLAPSE_END_0);
    out.append(f.oracle.none.as_str());
    out.append(COLLAPSE_END_1);
    out.append(f.oracle.one.as_str());
    out.append("  ->  one curve per phrase ");
    out.append(f.oracle.each.as_str());
    out.append("\n    through the fitted EQ ");
    out.append(f.oracle_eq.none.as_str());
    out.append(" dB  ->  ");
    out.append(f.oracle_eq.one.as_str());
    out.append("  ->  ");
    out.append(f.oracle_eq.each.as_str());
    out.append(COLLAPSE_END_2);
    out.append(f.oracle_gain.as_str());
    out.append(" dB of the ");
    out.append(f.oracle.none.as_str());
    out.append(COLLAPSE_END_3);
    out.append(f.oracle_taken.as_str());
    out.append(" of it\n\n  wrote ");
    out.append(print(f.written.len() as u64).as_str());
    out.append(" triples into ");
    out.append(f.out.as_str());
    out.append(COLLAPSE_END_4);
    out.append(f.bare.as_str());
    out.append(" -> chained ");
    out.append(f.chained.as_str());
    out.append("\n");
    out
}

/// What is said of what was found.
pub open spec fn console_text(f: Findings) -> Seq<char> {
    transfer_heading_text(f)
        + band_rows_text(f.curve@)
        + transfer_end_text(f)
        + SIGNATURE@
        + channel_rows_text(f.spatial@)
        + decay_heading_text(f)
        + decay_rows_text(f.tail@)
        + CANDIDATES@
        + candidate_rows_text(f.arrivals@)
        + sweep_start_text(f)
        + level_rows_text(f.sweep@)
        + collapse_start_text(f)
        + phrase_lines_text(f.phrases@)
        + collapse_end_text(f)
}

/// What is said of what was found.
pub fn console(f: &Findings) -> (text: String)
    ensures
        text@ == console_text(*f),
{
    let mut out = transfer_heading(f);
    out.append(band_rows(&f.curve).as_str());
    out.append(transfer_end(f).as_str());
    out.append(SIGNATURE);
    out.append(channel_rows(&f.spatial).as_str());
    out.append(decay_heading(f).as_str());
    out.append(decay_rows(&f.tail).as_str());
    out.append(CANDIDATES);
    out.append(candidate_rows(&f.arrivals).as_str());
    out.append(sweep_start(f).as_str());
    out.append(level_rows(&f.sweep).as_str());
    out.append(collapse_start(f).as_str());
    out.append(phrase_lines(&f.phrases).as_str());
    out.append(collapse_end(f).as_str());
    out
}

/// The `band_rows` are printed one after another, in their order.
pub proof fn the_band_rows_follow_each_other(a: Seq<CurveRow>, b: Seq<CurveRow>)
    ensures
        band_rows_text(a + b) == band_rows_text(a) + band_rows_text(b),
        a.len() == 1 ==> band_rows_text(a) == band_row_text(a[0]),
        band_rows_text(Seq::<CurveRow>::empty()).len() == 0,
    decreases b.len(),
{
    if a.len() == 1 {
        assert(a.drop_last() =~= Seq::<CurveRow>::empty());
        assert(band_rows_text(a.drop_last()) =~= Seq::<char>::empty());
        assert(band_rows_text(a) =~= band_row_text(a[0]));
    }
    if b.len() == 0 {
        assert(a + b =~= a);
        assert(band_rows_text(a) + band_rows_text(b) =~= band_rows_text(a));
    } else {
        the_band_rows_follow_each_other(a, b.drop_last());
        assert((a + b).drop_last() =~= a + b.drop_last());
        assert((a + b).last() == b.last());
        assert(band_rows_text(a) + band_rows_text(b.drop_last()) + band_row_text(b.last()) =~= band_rows_text(a) + (band_rows_text(
            b.drop_last(),
        ) + band_row_text(b.last())));
    }
}

/// The `channel_rows` are printed one after another, in their order.
pub proof fn the_channel_rows_follow_each_other(a: Seq<SpatialRow>, b: Seq<SpatialRow>)
    ensures
        channel_rows_text(a + b) == channel_rows_text(a) + channel_rows_text(b),
        a.len() == 1 ==> channel_rows_text(a) == channel_row_text(a[0]),
        channel_rows_text(Seq::<SpatialRow>::empty()).len() == 0,
    decreases b.len(),
{
    if a.len() == 1 {
        assert(a.drop_last() =~= Seq::<SpatialRow>::empty());
        assert(channel_rows_text(a.drop_last()) =~= Seq::<char>::empty());
        assert(channel_rows_text(a) =~= channel_row_text(a[0]));
    }
    if b.len() == 0 {
        assert(a + b =~= a);
        assert(channel_rows_text(a) + channel_rows_text(b) =~= channel_rows_text(a));
    } else {
        the_channel_rows_follow_each_other(a, b.drop_last());
        assert((a + b).drop_last() =~= a + b.drop_last());
        assert((a + b).last() == b.last());
        assert(channel_rows_text(a) + channel_rows_text(b.drop_last()) + channel_row_text(b.last()) =~= channel_rows_text(a) + (channel_rows_text(
            b.drop_last(),
        ) + channel_row_text(b.last())));
    }
}

/// The `decay_rows` are printed one after another, in their order.
pub proof fn the_decay_rows_follow_each_other(a: Seq<TailRow>, b: Seq<TailRow>)
    ensures
        decay_rows_text(a + b) == decay_rows_text(a) + decay_rows_text(b),
        a.len() == 1 ==> decay_rows_text(a) == decay_row_text(a[0]),
        decay_rows_text(Seq::<TailRow>::empty()).len() == 0,
    decreases b.len(),
{
    if a.len() == 1 {
        assert(a.drop_last() =~= Seq::<TailRow>::empty());
        assert(decay_rows_text(a.drop_last()) =~= Seq::<char>::empty());
        assert(decay_rows_text(a) =~= decay_row_text(a[0]));
    }
    if b.len() == 0 {
        assert(a + b =~= a);
        assert(decay_rows_text(a) + decay_rows_text(b) =~= decay_rows_text(a));
    } else {
        the_decay_rows_follow_each_other(a, b.drop_last());
        assert((a + b).drop_last() =~= a + b.drop_last());
        assert((a + b).last() == b.last());
        assert(decay_rows_text(a) + decay_rows_text(b.drop_last()) + decay_row_text(b.last()) =~= decay_rows_text(a) + (decay_rows_text(
            b.drop_last(),
        ) + decay_row_text(b.last())));
    }
}

/// The `candidate_rows` are printed one after another, in their order.
pub proof fn the_candidate_rows_follow_each_other(a: Seq<Arrival>, b: Seq<Arrival>)
    ensures
        candidate_rows_text(a + b) == candidate_rows_text(a) + candidate_rows_text(b),
        a.len() == 1 ==> candidate_rows_text(a) == candidate_row_text(a[0]),
        candidate_rows_text(Seq::<Arrival>::empty()).len() == 0,
    decreases b.len(),
{
    if a.len() == 1 {
        assert(a.drop_last() =~= Seq::<Arrival>::empty());
        assert(candidate_rows_text(a.drop_last()) =~= Seq::<char>::empty());
        assert(candidate_rows_text(a) =~= candidate_row_text(a[0]));
    }
    if b.len() == 0 {
        assert(a + b =~= a);
        assert(candidate_rows_text(a) + candidate_rows_text(b) =~= candidate_rows_text(a));
    } else {
        the_candidate_rows_follow_each_other(a, b.drop_last());
        assert((a + b).drop_last() =~= a + b.drop_last());
        assert((a + b).last() == b.last());
        assert(candidate_rows_text(a) + candidate_rows_text(b.drop_last()) + candidate_row_text(b.last()) =~= candidate_rows_text(a) + (candidate_rows_text(
            b.drop_last(),
        ) + candidate_row_text(b.last())));
    }
}

/// The `level_rows` are printed one after another, in their order.
pub proof fn the_level_rows_follow_each_other(a: Seq<SweptLevel>, b: Seq<SweptLevel>)
    ensures
        level_rows_text(a + b) == level_rows_text(a) + level_rows_text(b),
        a.len() == 1 ==> level_rows_text(a) == level_row_text(a[0]),
        level_rows_text(Seq::<SweptLevel>::empty()).len() == 0,
    decreases b.len(),
{
    if a.len() == 1 {
        assert(a.drop_last() =~= Seq::<SweptLevel>::empty());
        assert(level_rows_text(a.drop_last()) =~= Seq::<char>::empty());
        assert(level_rows_text(a) =~= level_row_text(a[0]));
    }
    if b.len() == 0 {
        assert(a + b =~= a);
        assert(level_rows_text(a) + level_rows_text(b) =~= level_rows_text(a));
    } else {
        the_level_rows_follow_each_other(a, b.drop_last());
        assert((a + b).drop_last() =~= a + b.drop_last());
        assert((a + b).last() == b.last());
        assert(level_rows_text(a) + level_rows_text(b.drop_last()) + level_row_text(b.last()) =~= level_rows_text(a) + (level_rows_text(
            b.drop_last(),
        ) + level_row_text(b.last())));
    }
}

/// The `phrase_lines` are printed one after another, in their order.
pub proof fn the_phrase_lines_follow_each_other(a: Seq<PhraseRow>, b: Seq<PhraseRow>)
    ensures
        phrase_lines_text(a + b) == phrase_lines_text(a) + phrase_lines_text(b),
        a.len() == 1 ==> phrase_lines_text(a) == phrase_line_text(a[0]),
        phrase_lines_text(Seq::<PhraseRow>::empty()).len() == 0,
    decreases b.len(),
{
    if a.len() == 1 {
        assert(a.drop_last() =~= Seq::<PhraseRow>::empty());
        assert(phrase_lines_text(a.drop_last()) =~= Seq::<char>::empty());
        assert(phrase_lines_text(a) =~= phrase_line_text(a[0]));
    }
    if b.len() == 0 {
        assert(a + b =~= a);
        assert(phrase_lines_text(a) + phrase_lines_text(b) =~= phrase_lines_text(a));
    } else {
        the_phrase_lines_follow_each_other(a, b.drop_last());
        assert((a + b).drop_last() =~= a + b.drop_last());
        assert((a + b).last() == b.last());
        assert(phrase_lines_text(a) + phrase_lines_text(b.drop_last()) + phrase_line_text(b.last()) =~= phrase_lines_text(a) + (phrase_lines_text(
            b.drop_last(),
        ) + phrase_line_text(b.last())));
    }
}

/// Each number of `span` stands in its place among the words.
#[verifier::rlimit(30)]
pub proof fn the_words_of_span_stand_in_order(low: Seq<char>, high: Seq<char>)
    requires
        is_word(low),
        is_word(high),
    ensures
        words_of(span_text(low, high)).len() == 1,
        words_of(span_text(low, high))[0] == low + "-"@ + high,
{
    reveal_strlit("-");
    a_word_begins(Seq::<char>::empty(), low);
    let p0 = low;
    assert(Seq::<char>::empty() + low =~= p0);
    a_word_goes_on(p0, "-"@);
    let p1 = p0 + "-"@;
    a_word_goes_on(p1, high);
    let p2 = p1 + high;
    assert(span_text(low, high) == p2);
}

/// Each number of `split_line` stands in its place among the words.
#[verifier::rlimit(30)]
pub proof fn the_words_of_split_line_stand_in_order(keys: usize, first: usize, second: usize, velocities: usize)
    ensures
        words_of(split_line_text(keys, first, second, velocities)).len() == 10,
        words_of(split_line_text(keys, first, second, velocities))[0] == decimal(keys as nat),
        words_of(split_line_text(keys, first, second, velocities))[4] == decimal(first as nat),
        words_of(split_line_text(keys, first, second, velocities))[6] == decimal(second as nat) + ";"@,
        words_of(split_line_text(keys, first, second, velocities))[7] == decimal(velocities as nat),
{
    reveal_strlit(" sampled keys, split ");
    reveal_strlit(" ");
    reveal_strlit("sampled");
    reveal_strlit("keys,");
    reveal_strlit("split");
    reveal_strlit(" / ");
    reveal_strlit("/");
    reveal_strlit("; ");
    reveal_strlit(";");
    reveal_strlit(" velocities each\n\n");
    reveal_strlit("velocities");
    reveal_strlit("each");
    reveal_strlit("\n\n");
    a_number_is_a_word(keys as nat);
    a_number_is_a_word(first as nat);
    a_number_is_a_word(second as nat);
    a_number_is_a_word(velocities as nat);
    a_word_begins(Seq::<char>::empty(), decimal(keys as nat));
    let p0 = decimal(keys as nat);
    assert(Seq::<char>::empty() + decimal(keys as nat) =~= p0);
    a_gap_adds_nothing(p0, " "@);
    a_word_begins(p0 + " "@, "sampled"@);
    a_gap_adds_nothing(p0 + " "@ + "sampled"@, " "@);
    a_word_begins(p0 + " "@ + "sampled"@ + " "@, "keys,"@);
    a_gap_adds_nothing(p0 + " "@ + "sampled"@ + " "@ + "keys,"@, " "@);
    a_word_begins(p0 + " "@ + "sampled"@ + " "@ + "keys,"@ + " "@, "split"@);
    a_gap_adds_nothing(p0 + " "@ + "sampled"@ + " "@ + "keys,"@ + " "@ + "split"@, " "@);
    let p1 = p0 + " sampled keys, split "@;
    assert(p1 =~= p0 + " "@ + "sampled"@ + " "@ + "keys,"@ + " "@ + "split"@ + " "@);
    a_word_begins(p1, decimal(first as nat));
    let p2 = p1 + decimal(first as nat);
    a_gap_adds_nothing(p2, " "@);
    a_word_begins(p2 + " "@, "/"@);
    a_gap_adds_nothing(p2 + " "@ + "/"@, " "@);
    let p3 = p2 + " / "@;
    assert(p3 =~= p2 + " "@ + "/"@ + " "@);
    a_word_begins(p3, decimal(second as nat));
    let p4 = p3 + decimal(second as nat);
    a_word_goes_on(p4, ";"@);
    a_gap_adds_nothing(p4 + ";"@, " "@);
    let p5 = p4 + "; "@;
    assert(p5 =~= p4 + ";"@ + " "@);
    a_word_begins(p5, decimal(velocities as nat));
    let p6 = p5 + decimal(velocities as nat);
    a_gap_adds_nothing(p6, " "@);
    a_word_begins(p6 + " "@, "velocities"@);
    a_gap_adds_nothing(p6 + " "@ + "velocities"@, " "@);
    a_word_begins(p6 + " "@ + "velocities"@ + " "@, "each"@);
    a_gap_adds_nothing(p6 + " "@ + "velocities"@ + " "@ + "each"@, "\n\n"@);
    let p7 = p6 + " velocities each\n\n"@;
    assert(p7 =~= p6 + " "@ + "velocities"@ + " "@ + "each"@ + "\n\n"@);
    assert(split_line_text(keys, first, second, velocities) == p7);
}

/// Each number of `pairs_line` stands in its place among the words.
#[verifier::rlimit(30)]
pub proof fn the_words_of_pairs_line_stand_in_order(pairs: usize, seconds: Seq<char>)
    requires
        is_word(seconds),
    ensures
        words_of(pairs_line_text(pairs, seconds)).len() == 7,
        words_of(pairs_line_text(pairs, seconds))[0] == decimal(pairs as nat),
        words_of(pairs_line_text(pairs, seconds))[5] == seconds,
{
    reveal_strlit(" matched note pairs in ");
    reveal_strlit(" ");
    reveal_strlit("matched");
    reveal_strlit("note");
    reveal_strlit("pairs");
    reveal_strlit("in");
    reveal_strlit(" s\n");
    reveal_strlit("s");
    reveal_strlit("\n");
    a_number_is_a_word(pairs as nat);
    a_word_begins(Seq::<char>::empty(), decimal(pairs as nat));
    let p0 = decimal(pairs as nat);
    assert(Seq::<char>::empty() + decimal(pairs as nat) =~= p0);
    a_gap_adds_nothing(p0, " "@);
    a_word_begins(p0 + " "@, "matched"@);
    a_gap_adds_nothing(p0 + " "@ + "matched"@, " "@);
    a_word_begins(p0 + " "@ + "matched"@ + " "@, "note"@);
    a_gap_adds_nothing(p0 + " "@ + "matched"@ + " "@ + "note"@, " "@);
    a_word_begins(p0 + " "@ + "matched"@ + " "@ + "note"@ + " "@, "pairs"@);
    a_gap_adds_nothing(p0 + " "@ + "matched"@ + " "@ + "note"@ + " "@ + "pairs"@, " "@);
    a_word_begins(p0 + " "@ + "matched"@ + " "@ + "note"@ + " "@ + "pairs"@ + " "@, "in"@);
    a_gap_adds_nothing(p0 + " "@ + "matched"@ + " "@ + "note"@ + " "@ + "pairs"@ + " "@ + "in"@, " "@);
    let p1 = p0 + " matched note pairs in "@;
    assert(p1 =~= p0 + " "@ + "matched"@ + " "@ + "note"@ + " "@ + "pairs"@ + " "@ + "in"@ + " "@);
    a_word_begins(p1, seconds);
    let p2 = p1 + seconds;
    a_gap_adds_nothing(p2, " "@);
    a_word_begins(p2 + " "@, "s"@);
    a_gap_adds_nothing(p2 + " "@ + "s"@, "\n"@);
    let p3 = p2 + " s\n"@;
    assert(p3 =~= p2 + " "@ + "s"@ + "\n"@);
    assert(pairs_line_text(pairs, seconds) == p3);
}

/// Each number of `band_row` stands in its place among the words.
#[verifier::rlimit(30)]
pub proof fn the_words_of_band_row_stand_in_order(r: CurveRow)
    requires
        is_word(r.hz@),
        is_word(plain_text(r.half_a@)),
        is_word(plain_text(r.half_b@)),
        is_word(plain_text(r.all@)),
        is_word(r.pairs@),
        is_word(r.scatter@),
    ensures
        words_of(band_row_text(r)).len() == 6,
        words_of(band_row_text(r))[0] == r.hz@,
        words_of(band_row_text(r))[1] == plain_text(r.half_a@),
        words_of(band_row_text(r))[2] == plain_text(r.half_b@),
        words_of(band_row_text(r))[3] == plain_text(r.all@),
        words_of(band_row_text(r))[4] == r.pairs@,
        words_of(band_row_text(r))[5] == r.scatter@,
{
    reveal_strlit("  ");
    reveal_strlit("\n");
    let p0 = "  "@;
    a_gap_adds_nothing(Seq::<char>::empty(), "  "@);
    assert(p0 =~= Seq::<char>::empty() + "  "@);
    a_right_word_begins(p0, r.hz@, 8);
    let p1 = p0 + right_in(r.hz@, 8);
    a_gap_adds_nothing(p1, "  "@);
    let p2 = p1 + "  "@;
    a_right_word_begins(p2, plain_text(r.half_a@), 7);
    let p3 = p2 + right_in(plain_text(r.half_a@), 7);
    a_gap_adds_nothing(p3, "  "@);
    let p4 = p3 + "  "@;
    a_right_word_begins(p4, plain_text(r.half_b@), 7);
    let p5 = p4 + right_in(plain_text(r.half_b@), 7);
    a_gap_adds_nothing(p5, "  "@);
    let p6 = p5 + "  "@;
    a_right_word_begins(p6, plain_text(r.all@), 7);
    let p7 = p6 + right_in(plain_text(r.all@), 7);
    a_gap_adds_nothing(p7, "  "@);
    let p8 = p7 + "  "@;
    a_right_word_begins(p8, r.pairs@, 6);
    let p9 = p8 + right_in(r.pairs@, 6);
    a_gap_adds_nothing(p9, "  "@);
    let p10 = p9 + "  "@;
    a_right_word_begins(p10, r.scatter@, 7);
    let p11 = p10 + right_in(r.scatter@, 7);
    a_gap_adds_nothing(p11, "\n"@);
    let p12 = p11 + "\n"@;
    assert(band_row_text(r) == p12);
}

/// Each number of `channel_row` stands in its place among the words.
#[verifier::rlimit(30)]
pub proof fn the_words_of_channel_row_stand_in_order(r: SpatialRow)
    requires
        is_word(span_text(r.low@, r.high@)),
        is_word(r.zero@),
        is_word(r.peak@),
        is_word(plain_text(r.lag@)),
        is_word(r.engine@),
    ensures
        words_of(channel_row_text(r)).len() == 6,
        words_of(channel_row_text(r))[0] == span_text(r.low@, r.high@),
        words_of(channel_row_text(r))[1] == r.zero@,
        words_of(channel_row_text(r))[3] == r.peak@,
        words_of(channel_row_text(r))[4] == plain_text(r.lag@),
        words_of(channel_row_text(r))[5] == r.engine@,
{
    reveal_strlit("  ");
    reveal_strlit(" / ");
    reveal_strlit(" ");
    reveal_strlit("/");
    reveal_strlit("\n");
    let p0 = "  "@;
    a_gap_adds_nothing(Seq::<char>::empty(), "  "@);
    assert(p0 =~= Seq::<char>::empty() + "  "@);
    a_right_word_begins(p0, span_text(r.low@, r.high@), 6);
    let p1 = p0 + right_in(span_text(r.low@, r.high@), 6);
    a_gap_adds_nothing(p1, "  "@);
    let p2 = p1 + "  "@;
    a_right_word_begins(p2, r.zero@, 9);
    let p3 = p2 + right_in(r.zero@, 9);
    a_gap_adds_nothing(p3, " "@);
    a_word_begins(p3 + " "@, "/"@);
    a_gap_adds_nothing(p3 + " "@ + "/"@, " "@);
    let p4 = p3 + " / "@;
    assert(p4 =~= p3 + " "@ + "/"@ + " "@);
    a_right_word_begins(p4, r.peak@, 6);
    let p5 = p4 + right_in(r.peak@, 6);
    a_gap_adds_nothing(p5, "  "@);
    let p6 = p5 + "  "@;
    a_right_word_begins(p6, plain_text(r.lag@), 16);
    let p7 = p6 + right_in(plain_text(r.lag@), 16);
    a_gap_adds_nothing(p7, "  "@);
    let p8 = p7 + "  "@;
    a_right_word_begins(p8, r.engine@, 16);
    let p9 = p8 + right_in(r.engine@, 16);
    a_gap_adds_nothing(p9, "\n"@);
    let p10 = p9 + "\n"@;
    assert(channel_row_text(r) == p10);
}

/// Each number of `decay_heading` stands in its place among the words.
#[verifier::rlimit(30)]
pub proof fn the_words_of_decay_heading_stand_in_order(f: Findings)
    requires
        is_word(f.broadband@),
        is_word(f.engine_broadband@),
        is_word(f.edt@),
        is_word(f.t20@),
    ensures
        words_of(decay_heading_text(f)).len() == 21,
        words_of(decay_heading_text(f))[3] == f.broadband@ + ","@,
        words_of(decay_heading_text(f))[5] == f.engine_broadband@,
        words_of(decay_heading_text(f))[6] == decimal(f.impulsive as nat),
        words_of(decay_heading_text(f))[13] == f.edt@,
        words_of(decay_heading_text(f))[16] == f.t20@,
{
    reveal_strlit("  broadband r@0: reference ");
    reveal_strlit("  ");
    reveal_strlit("broadband");
    reveal_strlit(" ");
    reveal_strlit("r@0:");
    reveal_strlit("reference");
    reveal_strlit(", engine ");
    reveal_strlit(",");
    reveal_strlit("engine");
    reveal_strlit("\n\n  ");
    reveal_strlit(" impulsive mechanism recordings read\n  broadband EDT ");
    reveal_strlit("impulsive");
    reveal_strlit("mechanism");
    reveal_strlit("recordings");
    reveal_strlit("read");
    reveal_strlit("\n  ");
    reveal_strlit("EDT");
    reveal_strlit(" s, T20 ");
    reveal_strlit("s,");
    reveal_strlit("T20");
    reveal_strlit(" s\n          band     T20 s\n");
    reveal_strlit("s");
    reveal_strlit("\n          ");
    reveal_strlit("band");
    reveal_strlit("     ");
    reveal_strlit("\n");
    a_number_is_a_word(f.impulsive as nat);
    let p0 = "  broadband r@0: reference "@;
    a_gap_adds_nothing(Seq::<char>::empty(), "  "@);
    a_word_begins(Seq::<char>::empty() + "  "@, "broadband"@);
    a_gap_adds_nothing(Seq::<char>::empty() + "  "@ + "broadband"@, " "@);
    a_word_begins(Seq::<char>::empty() + "  "@ + "broadband"@ + " "@, "r@0:"@);
    a_gap_adds_nothing(Seq::<char>::empty() + "  "@ + "broadband"@ + " "@ + "r@0:"@, " "@);
    a_word_begins(Seq::<char>::empty() + "  "@ + "broadband"@ + " "@ + "r@0:"@ + " "@, "reference"@);
    a_gap_adds_nothing(Seq::<char>::empty() + "  "@ + "broadband"@ + " "@ + "r@0:"@ + " "@ + "reference"@, " "@);
    assert(p0 =~= Seq::<char>::empty() + "  "@ + "broadband"@ + " "@ + "r@0:"@ + " "@ + "reference"@ + " "@);
    a_word_begins(p0, f.broadband@);
    let p1 = p0 + f.broadband@;
    a_word_goes_on(p1, ","@);
    a_gap_adds_nothing(p1 + ","@, " "@);
    a_word_begins(p1 + ","@ + " "@, "engine"@);
    a_gap_adds_nothing(p1 + ","@ + " "@ + "engine"@, " "@);
    let p2 = p1 + ", engine "@;
    assert(p2 =~= p1 + ","@ + " "@ + "engine"@ + " "@);
    a_word_begins(p2, f.engine_broadband@);
    let p3 = p2 + f.engine_broadband@;
    a_gap_adds_nothing(p3, "\n\n  "@);
    let p4 = p3 + "\n\n  "@;
    a_word_begins(p4, decimal(f.impulsive as nat));
    let p5 = p4 + decimal(f.impulsive as nat);
    a_gap_adds_nothing(p5, " "@);
    a_word_begins(p5 + " "@, "impulsive"@);
    a_gap_adds_nothing(p5 + " "@ + "impulsive"@, " "@);
    a_word_begins(p5 + " "@ + "impulsive"@ + " "@, "mechanism"@);
    a_gap_adds_nothing(p5 + " "@ + "impulsive"@ + " "@ + "mechanism"@, " "@);
    a_word_begins(p5 + " "@ + "impulsive"@ + " "@ + "mechanism"@ + " "@, "recordings"@);
    a_gap_adds_nothing(p5 + " "@ + "impulsive"@ + " "@ + "mechanism"@ + " "@ + "recordings"@, " "@);
    a_word_begins(p5 + " "@ + "impulsive"@ + " "@ + "mechanism"@ + " "@ + "recordings"@ + " "@, "read"@);
    a_gap_adds_nothing(p5 + " "@ + "impulsive"@ + " "@ + "mechanism"@ + " "@ + "recordings"@ + " "@ + "read"@, "\n  "@);
    a_word_begins(p5 + " "@ + "impulsive"@ + " "@ + "mechanism"@ + " "@ + "recordings"@ + " "@ + "read"@ + "\n  "@, "broadband"@);
    a_gap_adds_nothing(p5 + " "@ + "impulsive"@ + " "@ + "mechanism"@ + " "@ + "recordings"@ + " "@ + "read"@ + "\n  "@ + "broadband"@, " "@);
    a_word_begins(p5 + " "@ + "impulsive"@ + " "@ + "mechanism"@ + " "@ + "recordings"@ + " "@ + "read"@ + "\n  "@ + "broadband"@ + " "@, "EDT"@);
    a_gap_adds_nothing(p5 + " "@ + "impulsive"@ + " "@ + "mechanism"@ + " "@ + "recordings"@ + " "@ + "read"@ + "\n  "@ + "broadband"@ + " "@ + "EDT"@, " "@);
    let p6 = p5 + DECAY_HEADING_0@;
    assert(p6 =~= p5 + " "@ + "impulsive"@ + " "@ + "mechanism"@ + " "@ + "recordings"@ + " "@ + "read"@ + "\n  "@ + "broadband"@ + " "@ + "EDT"@ + " "@);
    a_word_begins(p6, f.edt@);
    let p7 = p6 + f.edt@;
    a_gap_adds_nothing(p7, " "@);
    a_word_begins(p7 + " "@, "s,"@);
    a_gap_adds_nothing(p7 + " "@ + "s,"@, " "@);
    a_word_begins(p7 + " "@ + "s,"@ + " "@, "T20"@);
    a_gap_adds_nothing(p7 + " "@ + "s,"@ + " "@ + "T20"@, " "@);
    let p8 = p7 + " s, T20 "@;
    assert(p8 =~= p7 + " "@ + "s,"@ + " "@ + "T20"@ + " "@);
    a_word_begins(p8, f.t20@);
    let p9 = p8 + f.t20@;
    a_gap_adds_nothing(p9, " "@);
    a_word_begins(p9 + " "@, "s"@);
    a_gap_adds_nothing(p9 + " "@ + "s"@, "\n          "@);
    a_word_begins(p9 + " "@ + "s"@ + "\n          "@, "band"@);
    a_gap_adds_nothing(p9 + " "@ + "s"@ + "\n          "@ + "band"@, "     "@);
    a_word_begins(p9 + " "@ + "s"@ + "\n          "@ + "band"@ + "     "@, "T20"@);
    a_gap_adds_nothing(p9 + " "@ + "s"@ + "\n          "@ + "band"@ + "     "@ + "T20"@, " "@);
    a_word_begins(p9 + " "@ + "s"@ + "\n          "@ + "band"@ + "     "@ + "T20"@ + " "@, "s"@);
    a_gap_adds_nothing(p9 + " "@ + "s"@ + "\n          "@ + "band"@ + "     "@ + "T20"@ + " "@ + "s"@, "\n"@);
    let p10 = p9 + " s\n          band     T20 s\n"@;
    assert(p10 =~= p9 + " "@ + "s"@ + "\n          "@ + "band"@ + "     "@ + "T20"@ + " "@ + "s"@ + "\n"@);
    assert(decay_heading_text(f) == p10);
}

/// Each number of `decay_row` stands in its place among the words.
#[verifier::rlimit(30)]
pub proof fn the_words_of_decay_row_stand_in_order(r: TailRow)
    requires
        is_word(span_text(r.low@, r.high@)),
        is_word(r.decay@),
    ensures
        words_of(decay_row_text(r)).len() == 2,
        words_of(decay_row_text(r))[0] == span_text(r.low@, r.high@),
        words_of(decay_row_text(r))[1] == r.decay@,
{
    reveal_strlit("  ");
    reveal_strlit("\n");
    let p0 = "  "@;
    a_gap_adds_nothing(Seq::<char>::empty(), "  "@);
    assert(p0 =~= Seq::<char>::empty() + "  "@);
    a_right_word_begins(p0, span_text(r.low@, r.high@), 12);
    let p1 = p0 + right_in(span_text(r.low@, r.high@), 12);
    a_gap_adds_nothing(p1, "  "@);
    let p2 = p1 + "  "@;
    a_right_word_begins(p2, r.decay@, 8);
    let p3 = p2 + right_in(r.decay@, 8);
    a_gap_adds_nothing(p3, "\n"@);
    let p4 = p3 + "\n"@;
    assert(decay_row_text(r) == p4);
}

/// Each number of `candidate_row` stands in its place among the words.
#[verifier::rlimit(30)]
pub proof fn the_words_of_candidate_row_stand_in_order(r: Arrival)
    requires
        is_word(r.delay@),
        is_word(r.level@),
        is_word(plain_text(r.side@)),
    ensures
        words_of(candidate_row_text(r)).len() == 4,
        words_of(candidate_row_text(r))[0] == r.delay@,
        words_of(candidate_row_text(r))[1] == r.level@,
        words_of(candidate_row_text(r))[2] == plain_text(r.side@),
        words_of(candidate_row_text(r))[3] == decimal(r.count as nat),
{
    reveal_strlit("  ");
    reveal_strlit("\n");
    a_number_is_a_word(r.count as nat);
    let p0 = "  "@;
    a_gap_adds_nothing(Seq::<char>::empty(), "  "@);
    assert(p0 =~= Seq::<char>::empty() + "  "@);
    a_right_word_begins(p0, r.delay@, 9);
    let p1 = p0 + right_in(r.delay@, 9);
    a_gap_adds_nothing(p1, "  "@);
    let p2 = p1 + "  "@;
    a_right_word_begins(p2, r.level@, 9);
    let p3 = p2 + right_in(r.level@, 9);
    a_gap_adds_nothing(p3, "  "@);
    let p4 = p3 + "  "@;
    a_right_word_begins(p4, plain_text(r.side@), 7);
    let p5 = p4 + right_in(plain_text(r.side@), 7);
    a_gap_adds_nothing(p5, "  "@);
    let p6 = p5 + "  "@;
    a_right_word_begins(p6, decimal(r.count as nat), 6);
    let p7 = p6 + right_in(decimal(r.count as nat), 6);
    a_gap_adds_nothing(p7, "\n"@);
    let p8 = p7 + "\n"@;
    assert(candidate_row_text(r) == p8);
}

/// Each number of `sweep_start` stands in its place among the words.
#[verifier::rlimit(30)]
pub proof fn the_words_of_sweep_start_stand_in_order(f: Findings)
    requires
        is_word(arrivals_text(f.rising)),
        is_word(f.bare@),
    ensures
        words_of(sweep_start_text(f)).len() == 14,
        words_of(sweep_start_text(f))[0] == arrivals_text(f.rising),
        words_of(sweep_start_text(f))[13] == f.bare@ + "):"@,
{
    reveal_strlit("\n\n  fitting the tail level to the recording's own decorrelation (bare engine mismatch ");
    reveal_strlit("\n\n  ");
    reveal_strlit("fitting");
    reveal_strlit(" ");
    reveal_strlit("the");
    reveal_strlit("tail");
    reveal_strlit("level");
    reveal_strlit("to");
    reveal_strlit("recording's");
    reveal_strlit("own");
    reveal_strlit("decorrelation");
    reveal_strlit("(bare");
    reveal_strlit("engine");
    reveal_strlit("mismatch");
    reveal_strlit("):\n");
    reveal_strlit("):");
    reveal_strlit("\n");
    a_word_begins(Seq::<char>::empty(), arrivals_text(f.rising));
    let p0 = arrivals_text(f.rising);
    assert(Seq::<char>::empty() + arrivals_text(f.rising) =~= p0);
    a_gap_adds_nothing(p0, "\n\n  "@);
    a_word_begins(p0 + "\n\n  "@, "fitting"@);
    a_gap_adds_nothing(p0 + "\n\n  "@ + "fitting"@, " "@);
    a_word_begins(p0 + "\n\n  "@ + "fitting"@ + " "@, "the"@);
    a_gap_adds_nothing(p0 + "\n\n  "@ + "fitting"@ + " "@ + "the"@, " "@);
    a_word_begins(p0 + "\n\n  "@ + "fitting"@ + " "@ + "the"@ + " "@, "tail"@);
    a_gap_adds_nothing(p0 + "\n\n  "@ + "fitting"@ + " "@ + "the"@ + " "@ + "tail"@, " "@);
    a_word_begins(p0 + "\n\n  "@ + "fitting"@ + " "@ + "the"@ + " "@ + "tail"@ + " "@, "level"@);
    a_gap_adds_nothing(p0 + "\n\n  "@ + "fitting"@ + " "@ + "the"@ + " "@ + "tail"@ + " "@ + "level"@, " "@);
    a_word_begins(p0 + "\n\n  "@ + "fitting"@ + " "@ + "the"@ + " "@ + "tail"@ + " "@ + "level"@ + " "@, "to"@);
    a_gap_adds_nothing(p0 + "\n\n  "@ + "fitting"@ + " "@ + "the"@ + " "@ + "tail"@ + " "@ + "level"@ + " "@ + "to"@, " "@);
    a_word_begins(p0 + "\n\n  "@ + "fitting"@ + " "@ + "the"@ + " "@ + "tail"@ + " "@ + "level"@ + " "@ + "to"@ + " "@, "the"@);
    a_gap_adds_nothing(p0 + "\n\n  "@ + "fitting"@ + " "@ + "the"@ + " "@ + "tail"@ + " "@ + "level"@ + " "@ + "to"@ + " "@ + "the"@, " "@);
    a_word_begins(p0 + "\n\n  "@ + "fitting"@ + " "@ + "the"@ + " "@ + "tail"@ + " "@ + "level"@ + " "@ + "to"@ + " "@ + "the"@ + " "@, "recording's"@);
    a_gap_adds_nothing(p0 + "\n\n  "@ + "fitting"@ + " "@ + "the"@ + " "@ + "tail"@ + " "@ + "level"@ + " "@ + "to"@ + " "@ + "the"@ + " "@ + "recording's"@, " "@);
    a_word_begins(p0 + "\n\n  "@ + "fitting"@ + " "@ + "the"@ + " "@ + "tail"@ + " "@ + "level"@ + " "@ + "to"@ + " "@ + "the"@ + " "@ + "recording's"@ + " "@, "own"@);
    a_gap_adds_nothing(p0 + "\n\n  "@ + "fitting"@ + " "@ + "the"@ + " "@ + "tail"@ + " "@ + "level"@ + " "@ + "to"@ + " "@ + "the"@ + " "@ + "recording's"@ + " "@ + "own"@, " "@);
    a_word_begins(p0 + "\n\n  "@ + "fitting"@ + " "@ + "the"@ + " "@ + "tail"@ + " "@ + "level"@ + " "@ + "to"@ + " "@ + "the"@ + " "@ + "recording's"@ + " "@ + "own"@ + " "@, "decorrelation"@);
    a_gap_adds_nothing(p0 + "\n\n  "@ + "fitting"@ + " "@ + "the"@ + " "@ + "tail"@ + " "@ + "level"@ + " "@ + "to"@ + " "@ + "the"@ + " "@ + "recording's"@ + " "@ + "own"@ + " "@ + "decorrelation"@, " "@);
    a_word_begins(p0 + "\n\n  "@ + "fitting"@ + " "@ + "the"@ + " "@ + "tail"@ + " "@ + "level"@ + " "@ + "to"@ + " "@ + "the"@ + " "@ + "recording's"@ + " "@ + "own"@ + " "@ + "decorrelation"@ + " "@, "(bare"@);
    a_gap_adds_nothing(p0 + "\n\n  "@ + "fitting"@ + " "@ + "the"@ + " "@ + "tail"@ + " "@ + "level"@ + " "@ + "to"@ + " "@ + "the"@ + " "@ + "recording's"@ + " "@ + "own"@ + " "@ + "decorrelation"@ + " "@ + "(bare"@, " "@);
    a_word_begins(p0 + "\n\n  "@ + "fitting"@ + " "@ + "the"@ + " "@ + "tail"@ + " "@ + "level"@ + " "@ + "to"@ + " "@ + "the"@ + " "@ + "recording's"@ + " "@ + "own"@ + " "@ + "decorrelation"@ + " "@ + "(bare"@ + " "@, "engine"@);
    a_gap_adds_nothing(p0 + "\n\n  "@ + "fitting"@ + " "@ + "the"@ + " "@ + "tail"@ + " "@ + "level"@ + " "@ + "to"@ + " "@ + "the"@ + " "@ + "recording's"@ + " "@ + "own"@ + " "@ + "decorrelation"@ + " "@ + "(bare"@ + " "@ + "engine"@, " "@);
    a_word_begins(p0 + "\n\n  "@ + "fitting"@ + " "@ + "the"@ + " "@ + "tail"@ + " "@ + "level"@ + " "@ + "to"@ + " "@ + "the"@ + " "@ + "recording's"@ + " "@ + "own"@ + " "@ + "decorrelation"@ + " "@ + "(bare"@ + " "@ + "engine"@ + " "@, "mismatch"@);
    a_gap_adds_nothing(p0 + "\n\n  "@ + "fitting"@ + " "@ + "the"@ + " "@ + "tail"@ + " "@ + "level"@ + " "@ + "to"@ + " "@ + "the"@ + " "@ + "recording's"@ + " "@ + "own"@ + " "@ + "decorrelation"@ + " "@ + "(bare"@ + " "@ + "engine"@ + " "@ + "mismatch"@, " "@);
    let p1 = p0 + SWEEP_START_0@;
    assert(p1 =~= p0 + "\n\n  "@ + "fitting"@ + " "@ + "the"@ + " "@ + "tail"@ + " "@ + "level"@ + " "@ + "to"@ + " "@ + "the"@ + " "@ + "recording's"@ + " "@ + "own"@ + " "@ + "decorrelation"@ + " "@ + "(bare"@ + " "@ + "engine"@ + " "@ + "mismatch"@ + " "@);
    a_word_begins(p1, f.bare@);
    let p2 = p1 + f.bare@;
    a_word_goes_on(p2, "):"@);
    a_gap_adds_nothing(p2 + "):"@, "\n"@);
    let p3 = p2 + "):\n"@;
    assert(p3 =~= p2 + "):"@ + "\n"@);
    assert(sweep_start_text(f) == p3);
}

/// Each number of `level_row` stands in its place among the words.
#[verifier::rlimit(30)]
pub proof fn the_words_of_level_row_stand_in_order(r: SweptLevel)
    requires
        is_word(r.level@),
        is_word(r.mismatch@),
    ensures
        words_of(level_row_text(r)).len() == 7,
        words_of(level_row_text(r))[1] == r.level@,
        words_of(level_row_text(r))[6] == r.mismatch@,
{
    reveal_strlit("    tail ");
    reveal_strlit("    ");
    reveal_strlit("tail");
    reveal_strlit(" ");
    reveal_strlit(" dB -> interchannel mismatch ");
    reveal_strlit("dB");
    reveal_strlit("->");
    reveal_strlit("interchannel");
    reveal_strlit("mismatch");
    reveal_strlit("\n");
    let p0 = "    tail "@;
    a_gap_adds_nothing(Seq::<char>::empty(), "    "@);
    a_word_begins(Seq::<char>::empty() + "    "@, "tail"@);
    a_gap_adds_nothing(Seq::<char>::empty() + "    "@ + "tail"@, " "@);
    assert(p0 =~= Seq::<char>::empty() + "    "@ + "tail"@ + " "@);
    a_word_begins(p0, r.level@);
    let p1 = p0 + r.level@;
    a_gap_adds_nothing(p1, " "@);
    a_word_begins(p1 + " "@, "dB"@);
    a_gap_adds_nothing(p1 + " "@ + "dB"@, " "@);
    a_word_begins(p1 + " "@ + "dB"@ + " "@, "->"@);
    a_gap_adds_nothing(p1 + " "@ + "dB"@ + " "@ + "->"@, " "@);
    a_word_begins(p1 + " "@ + "dB"@ + " "@ + "->"@ + " "@, "interchannel"@);
    a_gap_adds_nothing(p1 + " "@ + "dB"@ + " "@ + "->"@ + " "@ + "interchannel"@, " "@);
    a_word_begins(p1 + " "@ + "dB"@ + " "@ + "->"@ + " "@ + "interchannel"@ + " "@, "mismatch"@);
    a_gap_adds_nothing(p1 + " "@ + "dB"@ + " "@ + "->"@ + " "@ + "interchannel"@ + " "@ + "mismatch"@, " "@);
    let p2 = p1 + " dB -> interchannel mismatch "@;
    assert(p2 =~= p1 + " "@ + "dB"@ + " "@ + "->"@ + " "@ + "interchannel"@ + " "@ + "mismatch"@ + " "@);
    a_word_begins(p2, r.mismatch@);
    let p3 = p2 + r.mismatch@;
    a_gap_adds_nothing(p3, "\n"@);
    let p4 = p3 + "\n"@;
    assert(level_row_text(r) == p4);
}

/// Each number of `collapse_start` stands in its place among the words.
#[verifier::rlimit(30)]
pub proof fn the_words_of_collapse_start_stand_in_order(f: Findings)
    requires
        is_word(f.tail_level@),
        is_word(f.matched@),
    ensures
        words_of(collapse_start_text(f)).len() == 21,
        words_of(collapse_start_text(f))[10] == f.tail_level@,
        words_of(collapse_start_text(f))[13] == f.matched@ + ")"@,
{
    reveal_strlit("  the recording's decorrelation is matched at a tail level of ");
    reveal_strlit("  ");
    reveal_strlit("the");
    reveal_strlit(" ");
    reveal_strlit("recording's");
    reveal_strlit("decorrelation");
    reveal_strlit("is");
    reveal_strlit("matched");
    reveal_strlit("at");
    reveal_strlit("a");
    reveal_strlit("tail");
    reveal_strlit("level");
    reveal_strlit("of");
    reveal_strlit(" dB (mismatch ");
    reveal_strlit("dB");
    reveal_strlit("(mismatch");
    reveal_strlit(")\n\n== the collapse, on held-out phrases ==\n");
    reveal_strlit(")");
    reveal_strlit("\n\n");
    reveal_strlit("==");
    reveal_strlit("collapse,");
    reveal_strlit("on");
    reveal_strlit("held-out");
    reveal_strlit("phrases");
    reveal_strlit("\n");
    let p0 = COLLAPSE_START_0@;
    a_gap_adds_nothing(Seq::<char>::empty(), "  "@);
    a_word_begins(Seq::<char>::empty() + "  "@, "the"@);
    a_gap_adds_nothing(Seq::<char>::empty() + "  "@ + "the"@, " "@);
    a_word_begins(Seq::<char>::empty() + "  "@ + "the"@ + " "@, "recording's"@);
    a_gap_adds_nothing(Seq::<char>::empty() + "  "@ + "the"@ + " "@ + "recording's"@, " "@);
    a_word_begins(Seq::<char>::empty() + "  "@ + "the"@ + " "@ + "recording's"@ + " "@, "decorrelation"@);
    a_gap_adds_nothing(Seq::<char>::empty() + "  "@ + "the"@ + " "@ + "recording's"@ + " "@ + "decorrelation"@, " "@);
    a_word_begins(Seq::<char>::empty() + "  "@ + "the"@ + " "@ + "recording's"@ + " "@ + "decorrelation"@ + " "@, "is"@);
    a_gap_adds_nothing(Seq::<char>::empty() + "  "@ + "the"@ + " "@ + "recording's"@ + " "@ + "decorrelation"@ + " "@ + "is"@, " "@);
    a_word_begins(Seq::<char>::empty() + "  "@ + "the"@ + " "@ + "recording's"@ + " "@ + "decorrelation"@ + " "@ + "is"@ + " "@, "matched"@);
    a_gap_adds_nothing(Seq::<char>::empty() + "  "@ + "the"@ + " "@ + "recording's"@ + " "@ + "decorrelation"@ + " "@ + "is"@ + " "@ + "matched"@, " "@);
    a_word_begins(Seq::<char>::empty() + "  "@ + "the"@ + " "@ + "recording's"@ + " "@ + "decorrelation"@ + " "@ + "is"@ + " "@ + "matched"@ + " "@, "at"@);
    a_gap_adds_nothing(Seq::<char>::empty() + "  "@ + "the"@ + " "@ + "recording's"@ + " "@ + "decorrelation"@ + " "@ + "is"@ + " "@ + "matched"@ + " "@ + "at"@, " "@);
    a_word_begins(Seq::<char>::empty() + "  "@ + "the"@ + " "@ + "recording's"@ + " "@ + "decorrelation"@ + " "@ + "is"@ + " "@ + "matched"@ + " "@ + "at"@ + " "@, "a"@);
    a_gap_adds_nothing(Seq::<char>::empty() + "  "@ + "the"@ + " "@ + "recording's"@ + " "@ + "decorrelation"@ + " "@ + "is"@ + " "@ + "matched"@ + " "@ + "at"@ + " "@ + "a"@, " "@);
    a_word_begins(Seq::<char>::empty() + "  "@ + "the"@ + " "@ + "recording's"@ + " "@ + "decorrelation"@ + " "@ + "is"@ + " "@ + "matched"@ + " "@ + "at"@ + " "@ + "a"@ + " "@, "tail"@);
    a_gap_adds_nothing(Seq::<char>::empty() + "  "@ + "the"@ + " "@ + "recording's"@ + " "@ + "decorrelation"@ + " "@ + "is"@ + " "@ + "matched"@ + " "@ + "at"@ + " "@ + "a"@ + " "@ + "tail"@, " "@);
    a_word_begins(Seq::<char>::empty() + "  "@ + "the"@ + " "@ + "recording's"@ + " "@ + "decorrelation"@ + " "@ + "is"@ + " "@ + "matched"@ + " "@ + "at"@ + " "@ + "a"@ + " "@ + "tail"@ + " "@, "level"@);
    a_gap_adds_nothing(Seq::<char>::empty() + "  "@ + "the"@ + " "@ + "recording's"@ + " "@ + "decorrelation"@ + " "@ + "is"@ + " "@ + "matched"@ + " "@ + "at"@ + " "@ + "a"@ + " "@ + "tail"@ + " "@ + "level"@, " "@);
    a_word_begins(Seq::<char>::empty() + "  "@ + "the"@ + " "@ + "recording's"@ + " "@ + "decorrelation"@ + " "@ + "is"@ + " "@ + "matched"@ + " "@ + "at"@ + " "@ + "a"@ + " "@ + "tail"@ + " "@ + "level"@ + " "@, "of"@);
    a_gap_adds_nothing(Seq::<char>::empty() + "  "@ + "the"@ + " "@ + "recording's"@ + " "@ + "decorrelation"@ + " "@ + "is"@ + " "@ + "matched"@ + " "@ + "at"@ + " "@ + "a"@ + " "@ + "tail"@ + " "@ + "level"@ + " "@ + "of"@, " "@);
    assert(p0 =~= Seq::<char>::empty() + "  "@ + "the"@ + " "@ + "recording's"@ + " "@ + "decorrelation"@ + " "@ + "is"@ + " "@ + "matched"@ + " "@ + "at"@ + " "@ + "a"@ + " "@ + "tail"@ + " "@ + "level"@ + " "@ + "of"@ + " "@);
    a_word_begins(p0, f.tail_level@);
    let p1 = p0 + f.tail_level@;
    a_gap_adds_nothing(p1, " "@);
    a_word_begins(p1 + " "@, "dB"@);
    a_gap_adds_nothing(p1 + " "@ + "dB"@, " "@);
    a_word_begins(p1 + " "@ + "dB"@ + " "@, "(mismatch"@);
    a_gap_adds_nothing(p1 + " "@ + "dB"@ + " "@ + "(mismatch"@, " "@);
    let p2 = p1 + " dB (mismatch "@;
    assert(p2 =~= p1 + " "@ + "dB"@ + " "@ + "(mismatch"@ + " "@);
    a_word_begins(p2, f.matched@);
    let p3 = p2 + f.matched@;
    a_word_goes_on(p3, ")"@);
    a_gap_adds_nothing(p3 + ")"@, "\n\n"@);
    a_word_begins(p3 + ")"@ + "\n\n"@, "=="@);
    a_gap_adds_nothing(p3 + ")"@ + "\n\n"@ + "=="@, " "@);
    a_word_begins(p3 + ")"@ + "\n\n"@ + "=="@ + " "@, "the"@);
    a_gap_adds_nothing(p3 + ")"@ + "\n\n"@ + "=="@ + " "@ + "the"@, " "@);
    a_word_begins(p3 + ")"@ + "\n\n"@ + "=="@ + " "@ + "the"@ + " "@, "collapse,"@);
    a_gap_adds_nothing(p3 + ")"@ + "\n\n"@ + "=="@ + " "@ + "the"@ + " "@ + "collapse,"@, " "@);
    a_word_begins(p3 + ")"@ + "\n\n"@ + "=="@ + " "@ + "the"@ + " "@ + "collapse,"@ + " "@, "on"@);
    a_gap_adds_nothing(p3 + ")"@ + "\n\n"@ + "=="@ + " "@ + "the"@ + " "@ + "collapse,"@ + " "@ + "on"@, " "@);
    a_word_begins(p3 + ")"@ + "\n\n"@ + "=="@ + " "@ + "the"@ + " "@ + "collapse,"@ + " "@ + "on"@ + " "@, "held-out"@);
    a_gap_adds_nothing(p3 + ")"@ + "\n\n"@ + "=="@ + " "@ + "the"@ + " "@ + "collapse,"@ + " "@ + "on"@ + " "@ + "held-out"@, " "@);
    a_word_begins(p3 + ")"@ + "\n\n"@ + "=="@ + " "@ + "the"@ + " "@ + "collapse,"@ + " "@ + "on"@ + " "@ + "held-out"@ + " "@, "phrases"@);
    a_gap_adds_nothing(p3 + ")"@ + "\n\n"@ + "=="@ + " "@ + "the"@ + " "@ + "collapse,"@ + " "@ + "on"@ + " "@ + "held-out"@ + " "@ + "phrases"@, " "@);
    a_word_begins(p3 + ")"@ + "\n\n"@ + "=="@ + " "@ + "the"@ + " "@ + "collapse,"@ + " "@ + "on"@ + " "@ + "held-out"@ + " "@ + "phrases"@ + " "@, "=="@);
    a_gap_adds_nothing(p3 + ")"@ + "\n\n"@ + "=="@ + " "@ + "the"@ + " "@ + "collapse,"@ + " "@ + "on"@ + " "@ + "held-out"@ + " "@ + "phrases"@ + " "@ + "=="@, "\n"@);
    let p4 = p3 + COLLAPSE_START_1@;
    assert(p4 =~= p3 + ")"@ + "\n\n"@ + "=="@ + " "@ + "the"@ + " "@ + "collapse,"@ + " "@ + "on"@ + " "@ + "held-out"@ + " "@ + "phrases"@ + " "@ + "=="@ + "\n"@);
    assert(collapse_start_text(f) == p4);
}

/// Each number of `phrase_line` stands in its place among the words.
#[verifier::rlimit(30)]
pub proof fn the_words_of_phrase_line_stand_in_order(r: PhraseRow)
    requires
        is_word(r.name@),
        is_word(r.mel.engine@),
        is_word(r.mel.eq@),
        is_word(r.mel.chain@),
        is_word(r.mel.floor@),
        is_word(r.modulation.engine@),
        is_word(r.modulation.eq@),
        is_word(r.modulation.chain@),
        is_word(r.modulation.floor@),
    ensures
        words_of(phrase_line_text(r)).len() == 17,
        words_of(phrase_line_text(r))[0] == r.name@,
        words_of(phrase_line_text(r))[2] == r.mel.engine@,
        words_of(phrase_line_text(r))[4] == r.mel.eq@,
        words_of(phrase_line_text(r))[6] == r.mel.chain@,
        words_of(phrase_line_text(r))[8] == r.mel.floor@ + ")"@,
        words_of(phrase_line_text(r))[10] == r.modulation.engine@,
        words_of(phrase_line_text(r))[12] == r.modulation.eq@,
        words_of(phrase_line_text(r))[14] == r.modulation.chain@,
        words_of(phrase_line_text(r))[16] == r.modulation.floor@ + ")"@,
{
    reveal_strlit("  ");
    reveal_strlit(" mel ");
    reveal_strlit(" ");
    reveal_strlit("mel");
    reveal_strlit(" -> ");
    reveal_strlit("->");
    reveal_strlit("  (floor ");
    reveal_strlit("(floor");
    reveal_strlit(")   mod ");
    reveal_strlit(")");
    reveal_strlit("   ");
    reveal_strlit("mod");
    reveal_strlit(" (floor ");
    reveal_strlit(")\n");
    reveal_strlit("\n");
    let p0 = "  "@;
    a_gap_adds_nothing(Seq::<char>::empty(), "  "@);
    assert(p0 =~= Seq::<char>::empty() + "  "@);
    a_left_word_begins(p0, r.name@, 18);
    let p1 = p0 + left_in(r.name@, 18);
    a_gap_adds_nothing(p1, " "@);
    a_word_begins(p1 + " "@, "mel"@);
    a_gap_adds_nothing(p1 + " "@ + "mel"@, " "@);
    let p2 = p1 + " mel "@;
    assert(p2 =~= p1 + " "@ + "mel"@ + " "@);
    a_word_begins(p2, r.mel.engine@);
    let p3 = p2 + r.mel.engine@;
    a_gap_adds_nothing(p3, " "@);
    a_word_begins(p3 + " "@, "->"@);
    a_gap_adds_nothing(p3 + " "@ + "->"@, " "@);
    let p4 = p3 + " -> "@;
    assert(p4 =~= p3 + " "@ + "->"@ + " "@);
    a_word_begins(p4, r.mel.eq@);
    let p5 = p4 + r.mel.eq@;
    a_gap_adds_nothing(p5, " "@);
    a_word_begins(p5 + " "@, "->"@);
    a_gap_adds_nothing(p5 + " "@ + "->"@, " "@);
    let p6 = p5 + " -> "@;
    assert(p6 =~= p5 + " "@ + "->"@ + " "@);
    a_word_begins(p6, r.mel.chain@);
    let p7 = p6 + r.mel.chain@;
    a_gap_adds_nothing(p7, "  "@);
    a_word_begins(p7 + "  "@, "(floor"@);
    a_gap_adds_nothing(p7 + "  "@ + "(floor"@, " "@);
    let p8 = p7 + "  (floor "@;
    assert(p8 =~= p7 + "  "@ + "(floor"@ + " "@);
    a_word_begins(p8, r.mel.floor@);
    let p9 = p8 + r.mel.floor@;
    a_word_goes_on(p9, ")"@);
    a_gap_adds_nothing(p9 + ")"@, "   "@);
    a_word_begins(p9 + ")"@ + "   "@, "mod"@);
    a_gap_adds_nothing(p9 + ")"@ + "   "@ + "mod"@, " "@);
    let p10 = p9 + ")   mod "@;
    assert(p10 =~= p9 + ")"@ + "   "@ + "mod"@ + " "@);
    a_word_begins(p10, r.modulation.engine@);
    let p11 = p10 + r.modulation.engine@;
    a_gap_adds_nothing(p11, " "@);
    a_word_begins(p11 + " "@, "->"@);
    a_gap_adds_nothing(p11 + " "@ + "->"@, " "@);
    let p12 = p11 + " -> "@;
    assert(p12 =~= p11 + " "@ + "->"@ + " "@);
    a_word_begins(p12, r.modulation.eq@);
    let p13 = p12 + r.modulation.eq@;
    a_gap_adds_nothing(p13, " "@);
    a_word_begins(p13 + " "@, "->"@);
    a_gap_adds_nothing(p13 + " "@ + "->"@, " "@);
    let p14 = p13 + " -> "@;
    assert(p14 =~= p13 + " "@ + "->"@ + " "@);
    a_word_begins(p14, r.modulation.chain@);
    let p15 = p14 + r.modulation.chain@;
    a_gap_adds_nothing(p15, " "@);
    a_word_begins(p15 + " "@, "(floor"@);
    a_gap_adds_nothing(p15 + " "@ + "(floor"@, " "@);
    let p16 = p15 + " (floor "@;
    assert(p16 =~= p15 + " "@ + "(floor"@ + " "@);
    a_word_begins(p16, r.modulation.floor@);
    let p17 = p16 + r.modulation.floor@;
    a_word_goes_on(p17, ")"@);
    a_gap_adds_nothing(p17 + ")"@, "\n"@);
    let p18 = p17 + ")\n"@;
    assert(p18 =~= p17 + ")"@ + "\n"@);
    assert(phrase_line_text(r) == p18);
}

} // verus!
