//! The melody board, in words and tables.

use crate::order::{stable_of, stable_order};
use crate::reading::Reading;
use crate::text::{join, joined, same, views};
use crate::words::{a_field_begins, a_gap_adds_nothing, a_word_begins, a_word_goes_on, fields_of, is_word, one_field, one_more_field, the_field_goes_on, words_of};
use vstd::prelude::*;

verus! {

/// A number with its sign, and as it is printed.
pub struct Signed {
    pub value: Reading,
    pub text: String,
}

/// One note of the line in one column, as it is printed.
pub struct NoteScore {
    pub name: String,
    /// Whether the reference note is a recording of this key.
    pub recorded: bool,
    pub scored: bool,
    pub engine: String,
    pub reference: String,
    pub layer: String,
    pub residual: String,
    pub engine_signed: Signed,
    pub reference_signed: Signed,
    pub error: Signed,
}

/// One recorded key of the register in one column, as it is printed.
pub struct PopulationRow {
    pub name: String,
    pub engine: String,
    pub reference: String,
    pub residual: String,
    pub layer: String,
    pub take: String,
    pub error: String,
    pub seam: String,
}

/// One column of the board: what is read, in which window, what it is held to
/// and whether it passes.
pub struct Column {
    pub metric: String,
    pub window: String,
    /// Whether it is read in the head window.
    pub head: bool,
    /// Whether it passes all that it is held to.
    pub pass: bool,
    pub gated_on_spread: bool,
    pub gated_on_balance: bool,
    pub gated_on_seam: bool,
    pub standout: String,
    pub standout_at: String,
    pub bar: String,
    pub register: String,
    pub worst: String,
    pub take: String,
    pub spread_pass: bool,
    pub seam: String,
    pub seam_at: String,
    pub seam_floor: String,
    pub seam_bar: String,
    pub seam_register: String,
    pub seam_pass: bool,
    pub balance: String,
    pub balance_bar: String,
    pub balance_take: String,
    pub balance_pass: bool,
    pub clone_line: String,
    pub clone_layer: String,
    pub notes: Vec<NoteScore>,
    pub population: Vec<PopulationRow>,
}

/// A number of the engine's and one of the recording's, as they are printed.
pub struct Pair {
    pub engine: String,
    pub reference: String,
}

/// One note as it was played: the engine's readings and the recording's, as they
/// are printed.
pub struct TimedNote {
    pub at: String,
    pub name: String,
    pub recorded: bool,
    pub roughness: Pair,
    pub wobble: Pair,
    pub hf: Pair,
    pub strike: Pair,
    pub balance: Pair,
    pub splitting: Pair,
}

/// A pitch, and what its reference note is.
pub struct Provenance {
    pub name: String,
    pub source: String,
}

/// What the report is written from, beside its columns.
pub struct Board {
    pub preset: String,
    /// What was done to the preset.
    pub what: String,
    pub sfz: String,
    pub head_from: String,
    pub head_to: String,
    pub tail_from: String,
    pub tail_to: String,
    pub pitches: Vec<Provenance>,
    /// The names of the keys that the bars are measured on.
    pub ladder: Vec<String>,
    pub allowance: String,
    pub head: Option<Vec<TimedNote>>,
    pub tail: Option<Vec<TimedNote>>,
}

pub const INTRODUCTION_0: &'static str = "# The melody, note by note\n\nThe Ode to Joy melody line of `realism::excerpt` played \
    **alone** — no harmony — through the engine on `";

pub const INTRODUCTION_1: &'static str = ") and through the recordings of the Yamaha C5 at `";

pub const INTRODUCTION_2: &'static str = "`. Thirty notes over five pitches; the two half-beat passing notes are too short to \
    measure and the other 28 are.\n\nThis is the listener's own statistic. `COMPASS.md` \
    strikes 88 keys alone and scores each against its neighbours; `REALISM.md` averages \
    six phrases into one number per column. Neither of them is a tune with one note wrong \
    in it, and a tune with one note wrong in it is what opened `DECISIONS.md` 284.\n\n## \
    What is measured, per note\n\n| metric | definition | what writes it \
    |\n|---|---|---|\n| `roughness` | mean absolute step between adjacent partial levels, \
    dB | `notes.partial_gains` |\n| `wobble` | median over partials of the RMS of that \
    partial's dB envelope about its own straight-line decay | `notes.false_beat` |\n| \
    `hf` | 2-6 kHz share of the note's power, dB | brilliance, at absolute frequency \
    (`DECISIONS.md` 292) |\n| `strike` | attack tonality of the first 30 ms from the \
    note's own strike, dB — large is a line spectrum, zero is a continuum | \
    `[noise.strike]`, against the tonal attack (`DECISIONS.md` 341) |\n| `channel` | `10 \
    log10((E_L + E_R) / 2 E_M)` over the note's window, dB | `[voicing.mics]`, against \
    the note's own mono fold-down (`DECISIONS.md` 394) |\n| `balance` | `10 log10(E_L / \
    E_R)` at the note's own `f0`, heterodyned, dB — positive is a left lean | \
    `[voicing.mics]`, against the recording's own lean at the same note (`DECISIONS.md` \
    446) |\n| `splitting` | that same image position at `f0` **minus** its \
    energy-weighted mean over the note's own partials 2-4, dB — positive means the pitch \
    is left of the note's own colour | `[voicing.mics]`, against the recording's own \
    split at the same note (`DECISIONS.md` 451) |\n| `loudness` | A-weighted energy of \
    the note's own window on the **mono fold-down**, dB | `notes.partial_gains`' per-key \
    level, against the recording of the same key (`DECISIONS.md` 456-457) |\n\nThe first \
    three are measured in **two windows** of the same note, found again inside the phrase \
    by the largest rise in a 1 ms envelope — the sampler plays every recording from its \
    own start, so the offset between a note-on and its hammer is a property of one sample \
    file and differs from note to note.\n\n| window | seconds from the strike | what \
    lives there | line |\n|---|---|---|---|\n| `head` | ";

pub const INTRODUCTION_3: &'static str = " | `partial_gains`, the hammer's colour | the tune at tempo, unpedalled |\n| `tail` | ";

pub const INTRODUCTION_4: &'static str = " | `partial_sigma_scale`, the decay | the tune's own pitches, slowly and legato \
    |\n\n`strike` has one window and it is neither of those: the head starts at 0.03 s \
    *because* that is past the hammer's noise, so the one span the three texture metrics \
    deliberately exclude is the only span this one is about. It is also the only column \
    of the four that is a **balance** rather than an evenness — see *The balance*, \
    below.\n\nThe tail columns are `DECISIONS.md` 330. A window that closes at 0.40 s \
    cannot see a decay row at all, and the regression that came back at C4 is a decay \
    row. They cannot be read at the melody's own tempo, and that is arithmetic rather \
    than preference: with the dampers working the melody's 0.45 s notes are over before \
    0.5 s, and with the pedal held instead they are not over but they are not alone — \
    three later strikes land inside the window, two of which on this tune are the note's \
    own third and fifth harmonics. Measured, on the pedalled line the five pitches' tail \
    `hf` spans 2.7 dB where the same five pitches with the tail to themselves span 8.3. \
    So the tail is read off the line's own pitches, at the line's own velocity, in the \
    order the tune introduces them, one strike every 2.5 s and each held 2.2 s: every \
    note is let go before the next is struck and the window is entirely inside the held \
    note.\n\n## Which reference notes are scored\n\n`DECISIONS.md` 328, and it is \
    permanent. The library records one key every minor third. Of this line's five pitches \
    **exactly one is a recording**:\n\n| pitch | the reference note is |\n|---|---|\n";

/// What the board is.
pub open spec fn introduction_text(b: Board) -> Seq<char> {
    INTRODUCTION_0@
        + b.preset@
        + "` ("@
        + b.what@
        + INTRODUCTION_1@
        + b.sfz@
        + INTRODUCTION_2@
        + b.head_from@
        + "-"@
        + b.head_to@
        + INTRODUCTION_3@
        + b.tail_from@
        + "-"@
        + b.tail_to@
        + INTRODUCTION_4@
}

/// What the board is.
pub fn introduction(b: &Board) -> (text: String)
    ensures
        text@ == introduction_text(*b),
{
    let mut out = String::from_str(INTRODUCTION_0);
    out.append(b.preset.as_str());
    out.append("` (");
    out.append(b.what.as_str());
    out.append(INTRODUCTION_1);
    out.append(b.sfz.as_str());
    out.append(INTRODUCTION_2);
    out.append(b.head_from.as_str());
    out.append("-");
    out.append(b.head_to.as_str());
    out.append(INTRODUCTION_3);
    out.append(b.tail_from.as_str());
    out.append("-");
    out.append(b.tail_to.as_str());
    out.append(INTRODUCTION_4);
    out
}

/// A row of the pitches.
pub open spec fn provenance_row_text(p: Provenance) -> Seq<char> {
    "| "@
        + p.name@
        + " | "@
        + p.source@
        + " |\n"@
}

/// A row of the pitches.
pub fn provenance_row(p: &Provenance) -> (text: String)
    ensures
        text@ == provenance_row_text(*p),
{
    let mut out = String::from_str("| ");
    out.append(p.name.as_str());
    out.append(" | ");
    out.append(p.source.as_str());
    out.append(" |\n");
    out
}

/// The rows of the pitches.
pub open spec fn provenance_rows_text(rows: Seq<Provenance>) -> Seq<char>
    decreases rows.len(),
{
    if rows.len() == 0 {
        Seq::empty()
    } else {
        provenance_rows_text(rows.drop_last()) + provenance_row_text(rows.last())
    }
}

/// The rows of the pitches.
pub fn provenance_rows(rows: &Vec<Provenance>) -> (text: String)
    ensures
        text@ == provenance_rows_text(rows@),
{
    let mut out = String::new();
    let mut i: usize = 0;
    proof {
        assert(rows@.take(0) =~= Seq::<Provenance>::empty());
    }
    while i < rows.len()
        invariant
            i <= rows.len(),
            out@ == provenance_rows_text(rows@.take(i as int)),
        decreases rows.len() - i,
    {
        proof {
            assert(rows@.take(i + 1).drop_last() =~= rows@.take(i as int));
        }
        out.append(provenance_row(&rows[i]).as_str());
        i = i + 1;
    }
    proof {
        assert(rows@.take(i as int) =~= rows@);
    }
    out
}

pub const VERDICT_HEADING_0: &'static str = "\nA transposed note stays in every render and is exactly what a player of this \
    library hears. It carries **no per-note score**: its inharmonicity, its unison beat, \
    its decay and its brightness are the neighbour's, resampled, and scoring the engine \
    against it measures a resampler. It is marked *transposed — unscored* wherever a \
    per-note number would otherwise be.\n\nThat also takes the **bar** off this line: \
    four of its five reference notes are two recordings cloned, so their scatter about \
    their own trend is far smaller than a piano's and a bar set on it would be a bar set \
    on a resampler. Every bar below is measured instead on the **recorded keys of the \
    melody's register**, played as the same music through the same window — ";

pub const VERDICT_HEADING_1: &'static str = " — and is never smaller than the **per-take scatter**, the distance between one \
    recorded key and its own neighbouring velocity layer, which is the same noise floor \
    `REALISM.md` uses, per note instead of per phrase.\n\n## The verdict\n\n`stands out` \
    is the largest departure of any note from the engine line's own Theil-Sen register \
    trend — the engine renders all five pitches from its own tables, so all five are its \
    own work. `bar` is the larger of `register` and `take`, times ";

pub const VERDICT_HEADING_2: &'static str = ". `register` is how far the recorded keys' own notes go from their own trend, read at \
    **the same order statistic the \
    gate is** — the median of the largest of five draws, not the largest of nine, because \
    the largest of nine is systematically bigger and a bar set on it would forgive the \
    engine an amount that grows with how many keys the library happened to sample. \
    `worst` is that population's single worst key, printed for the reader and not used. \
    `take` is the per-take scatter. `seam` is `engine - recording` over the recorded keys \
    and its departure from their median error, **reported and not gated**: item 297's \
    objection is half answered — both sides are now the same note — and half not, because \
    the engine's absolute distance from the piano moves by several dB across a register \
    for reasons no per-note floor covers. `floor` beside it is the same statistic with \
    the neighbouring velocity layer standing in for the engine.\n\n| metric | window | \
    stands out | at | bar | register | worst | take | verdict | seam | at | floor \
    |\n|---|---|--:|---|--:|--:|--:|--:|---|--:|---|--:|\n";

/// What the bars are, and the head of the verdicts.
pub open spec fn verdict_heading_text(ladder: Seq<char>, b: Board) -> Seq<char> {
    VERDICT_HEADING_0@
        + ladder
        + VERDICT_HEADING_1@
        + b.allowance@
        + VERDICT_HEADING_2@
}

/// What the bars are, and the head of the verdicts.
pub fn verdict_heading(ladder: &str, b: &Board) -> (text: String)
    ensures
        text@ == verdict_heading_text(ladder@, *b),
{
    let mut out = String::from_str(VERDICT_HEADING_0);
    out.append(ladder);
    out.append(VERDICT_HEADING_1);
    out.append(b.allowance.as_str());
    out.append(VERDICT_HEADING_2);
    out
}

/// How a verdict is written.
pub open spec fn pass_text(pass: bool) -> Seq<char> {
    if pass {
        "pass"@
    } else {
        "**FAIL**"@
    }
}

/// How a verdict is written.
pub fn pass_word(pass: bool) -> (r: &'static str)
    ensures
        r@ == pass_text(pass),
{
    if pass {
        "pass"
    } else {
        "**FAIL**"
    }
}

/// What a reference note is.
pub open spec fn source_text(recorded: bool) -> Seq<char> {
    if recorded {
        "recorded"@
    } else {
        "transposed"@
    }
}

/// What a reference note is.
pub fn source_word(recorded: bool) -> (r: &'static str)
    ensures
        r@ == source_text(recorded),
{
    if recorded {
        "recorded"
    } else {
        "transposed"
    }
}

/// A row of the verdicts.
pub open spec fn spread_row_line_text(c: Column) -> Seq<char> {
    "| `"@
        + c.metric@
        + "` | `"@
        + c.window@
        + "` | **"@
        + c.standout@
        + "** | "@
        + c.standout_at@
        + " | "@
        + c.bar@
        + " | "@
        + c.register@
        + " | "@
        + c.worst@
        + " | "@
        + c.take@
        + " | "@
        + pass_text(c.spread_pass)
        + " | "@
        + c.seam@
        + " | "@
        + c.seam_at@
        + " | "@
        + c.seam_floor@
        + " |\n"@
}

/// A row of the verdicts.
pub fn spread_row_line(c: &Column) -> (text: String)
    ensures
        text@ == spread_row_line_text(*c),
{
    let mut out = String::from_str("| `");
    out.append(c.metric.as_str());
    out.append("` | `");
    out.append(c.window.as_str());
    out.append("` | **");
    out.append(c.standout.as_str());
    out.append("** | ");
    out.append(c.standout_at.as_str());
    out.append(" | ");
    out.append(c.bar.as_str());
    out.append(" | ");
    out.append(c.register.as_str());
    out.append(" | ");
    out.append(c.worst.as_str());
    out.append(" | ");
    out.append(c.take.as_str());
    out.append(" | ");
    out.append(pass_word(c.spread_pass));
    out.append(" | ");
    out.append(c.seam.as_str());
    out.append(" | ");
    out.append(c.seam_at.as_str());
    out.append(" | ");
    out.append(c.seam_floor.as_str());
    out.append(" |\n");
    out
}

/// A row of the verdicts, where the column is held to it.
pub open spec fn spread_row_text(c: Column) -> Seq<char> {
    if c.gated_on_spread {
        spread_row_line_text(c)
    } else {
        Seq::empty()
    }
}

/// A row of the verdicts, where the column is held to it.
pub fn spread_row(c: &Column) -> (text: String)
    ensures
        text@ == spread_row_text(*c),
{
    if c.gated_on_spread {
        spread_row_line(c)
    } else {
        String::new()
    }
}

/// The rows of the verdicts
pub open spec fn spread_rows_text(rows: Seq<Column>) -> Seq<char>
    decreases rows.len(),
{
    if rows.len() == 0 {
        Seq::empty()
    } else {
        spread_rows_text(rows.drop_last()) + spread_row_text(rows.last())
    }
}

/// The rows of the verdicts
pub fn spread_rows(rows: &Vec<Column>) -> (text: String)
    ensures
        text@ == spread_rows_text(rows@),
{
    let mut out = String::new();
    let mut i: usize = 0;
    proof {
        assert(rows@.take(0) =~= Seq::<Column>::empty());
    }
    while i < rows.len()
        invariant
            i <= rows.len(),
            out@ == spread_rows_text(rows@.take(i as int)),
        decreases rows.len() - i,
    {
        proof {
            assert(rows@.take(i + 1).drop_last() =~= rows@.take(i as int));
        }
        out.append(spread_row(&rows[i]).as_str());
        i = i + 1;
    }
    proof {
        assert(rows@.take(i as int) =~= rows@);
    }
    out
}

pub const BALANCE_HEADING_0: &'static str = "\n## The balances\n\n`DECISIONS.md` 341, 394, 446, 451. `strike`, `channel`, \
    `balance` and `splitting` ask a different question from the three above them, so they \
    are gated on a different number. The three ask *does one note of the line stand out \
    from the rest*, which the engine answers on its own and which needs no recording of \
    the note. These four ask *is the mechanism as loud against the note as the piano's \
    is*, *do the two loudspeakers play this note as the piano's two channels do*, *does \
    this note's own fundamental come out of the loudspeaker the piano's comes out of* and \
    *does the note arrive from one place in the image at all* — all comparisons with a \
    recording, and therefore only meaningful where the reference note is a real \
    measurement of the piano, as the median of `engine - recording`.\n\nThree of the four \
    take that median over the **recorded ladder** and score the one note of the line that \
    is a recording, which is item 328's rule: a transposed reference note's \
    inharmonicity, decay and brightness are a neighbour's run through a resampler, and \
    scoring against them measures the resampler. **`splitting` takes it over the line's \
    own five pitches**, and the exception is arithmetic rather than a concession \
    (`DECISIONS.md` 451): resampling multiplies every frequency of a take by one factor \
    and touches neither channel's amplitude, so a transposed note's `E_L/E_R` at its own \
    k-th partial *is* the take's, exactly — and a split is a difference of two such \
    ratios. It has to be scored there, because the defect it was written for is a \
    **band**: over the recorded ladder D#3 has its fundamental below the band and its \
    second partial inside it, and C5 and D#5 are clear of the band altogether, so a \
    median over the ladder mixes three regimes and reports the smallest. The melodic \
    register is one regime.\n\n`channel` is `10 log10((E_L + E_R) / 2 E_M)`: what the two \
    loudspeakers put in the room against what this note's own mono fold-down says they \
    do. **It is the only column on this board, or on any board in this repository, that \
    is not a function of that fold-down** — which is why a stereo stage could make C4 \
    four decibels louder in the room than its neighbours with every gate green \
    (`DECISIONS.md` 392).\n\n`balance` is `10 log10(E_L / E_R)` at the note's **own \
    fundamental**, heterodyned — *which* loudspeaker the pitch comes out of. It is \
    `channel`'s missing half and the reason it is missing is arithmetic: `E_L + E_R` is \
    symmetric under swapping the two channels, so an instrument that puts every \
    fundamental of a tune seven decibels into the left loudspeaker, against a recording \
    that leans one and a half decibels right, moves `channel` by nothing (`DECISIONS.md` \
    446).\n\n`splitting` is that same reading at `f0` **minus** the energy-weighted mean \
    of it over the note's own partials 2-4 — how far the pitch sits from the note's own \
    colour in the image. It is `balance`'s missing half for a reason of the same shape \
    one more time: `balance` reads **one** frequency per note, and a stage that is a \
    *band* does not move a note, it moves the part of a note that lies inside its edges. \
    The band item 422 shipped spans 174.3-456.5 Hz, which contains every fundamental of \
    this line (261.6 to 392.0 Hz) and **none** of those notes' second partials (523 Hz \
    and up), so every note of the tune had its pitch panned one way and its colour left \
    where it was. A listener is handed a note arriving from two places at once, with zero \
    cents of tuning error anywhere (`DECISIONS.md` 451; the *that C sounds off* percept \
    itself is item 453's mono-domain pair — this column is the image half of the \
    session's findings). The weights are the pair energy each reading was taken from, so \
    a partial that is not sounding — a ratio of two noise floors — weighs \
    nothing.\n\n`balance` and `splitting` are the **two columns of this board that carry \
    both verdicts**: the balance half convicts a whole line pulled the same way, which a \
    median can see and the line's own trend cannot, and the spread half convicts \
    note-to-note jumps, which the line answers on its own and a median cannot see because \
    they cancel in it. Their spread verdicts are in the evenness table above and their \
    balance verdicts are here.\n\nThe bar is the larger of two things, times ";

pub const BALANCE_HEADING_1: &'static str = ": the median distance between **two takes of one recorded key** (the same key out of \
    the neighbouring velocity layer), which is the same velocity-layer floor `REALISM.md` \
    quotes beside every cell; and `1.4826·MAD / sqrt(n)` over the ladder, which is how \
    well nine keys pin a median that moves across them. The second term is there because \
    the first is not a floor for every statistic: `strike` reads 1.64 dB between two \
    layers of one key and `channel` reads **0.03**, because the two layers are the same \
    two microphones on the same key, and a bar of 0.04 dB would be a bar on the \
    recording's dither. The evenness numbers are printed beside both and are not \
    gated.\n\n| metric | window | balance | bar | one key's two takes | verdict | \
    evenness | at | of |\n|---|---|--:|--:|--:|---|--:|---|--:|\n";

/// What a balance is, and the head of the balances.
pub open spec fn balance_heading_text(b: Board) -> Seq<char> {
    BALANCE_HEADING_0@
        + b.allowance@
        + BALANCE_HEADING_1@
}

/// What a balance is, and the head of the balances.
pub fn balance_heading(b: &Board) -> (text: String)
    ensures
        text@ == balance_heading_text(*b),
{
    let mut out = String::from_str(BALANCE_HEADING_0);
    out.append(b.allowance.as_str());
    out.append(BALANCE_HEADING_1);
    out
}

/// A row of the balances.
pub open spec fn balance_row_line_text(c: Column) -> Seq<char> {
    "| `"@
        + c.metric@
        + "` | `"@
        + c.window@
        + "` | **"@
        + c.balance@
        + "** | "@
        + c.balance_bar@
        + " | "@
        + c.balance_take@
        + " | "@
        + pass_text(c.balance_pass)
        + " | "@
        + c.standout@
        + " | "@
        + c.standout_at@
        + " | "@
        + c.bar@
        + " |\n"@
}

/// A row of the balances.
pub fn balance_row_line(c: &Column) -> (text: String)
    ensures
        text@ == balance_row_line_text(*c),
{
    let mut out = String::from_str("| `");
    out.append(c.metric.as_str());
    out.append("` | `");
    out.append(c.window.as_str());
    out.append("` | **");
    out.append(c.balance.as_str());
    out.append("** | ");
    out.append(c.balance_bar.as_str());
    out.append(" | ");
    out.append(c.balance_take.as_str());
    out.append(" | ");
    out.append(pass_word(c.balance_pass));
    out.append(" | ");
    out.append(c.standout.as_str());
    out.append(" | ");
    out.append(c.standout_at.as_str());
    out.append(" | ");
    out.append(c.bar.as_str());
    out.append(" |\n");
    out
}

/// A row of the balances, where the column is held to it.
pub open spec fn balance_row_text(c: Column) -> Seq<char> {
    if c.gated_on_balance {
        balance_row_line_text(c)
    } else {
        Seq::empty()
    }
}

/// A row of the balances, where the column is held to it.
pub fn balance_row(c: &Column) -> (text: String)
    ensures
        text@ == balance_row_text(*c),
{
    if c.gated_on_balance {
        balance_row_line(c)
    } else {
        String::new()
    }
}

/// The rows of the balances
pub open spec fn balance_rows_text(rows: Seq<Column>) -> Seq<char>
    decreases rows.len(),
{
    if rows.len() == 0 {
        Seq::empty()
    } else {
        balance_rows_text(rows.drop_last()) + balance_row_text(rows.last())
    }
}

/// The rows of the balances
pub fn balance_rows(rows: &Vec<Column>) -> (text: String)
    ensures
        text@ == balance_rows_text(rows@),
{
    let mut out = String::new();
    let mut i: usize = 0;
    proof {
        assert(rows@.take(0) =~= Seq::<Column>::empty());
    }
    while i < rows.len()
        invariant
            i <= rows.len(),
            out@ == balance_rows_text(rows@.take(i as int)),
        decreases rows.len() - i,
    {
        proof {
            assert(rows@.take(i + 1).drop_last() =~= rows@.take(i as int));
        }
        out.append(balance_row(&rows[i]).as_str());
        i = i + 1;
    }
    proof {
        assert(rows@.take(i as int) =~= rows@);
    }
    out
}

pub const SEAM_HEADING_0: &'static str = "\n## The seam\n\n`DECISIONS.md` 456. Every column above carries a `seam` — how far \
    the engine's distance from one recorded key departs from the register's **median** \
    distance — and until this milestone not one of them was gated on it. `loudness` is \
    the column where that is not a detail but the whole defect, and it is the one column \
    of this board whose verdict is a seam.\n\nIt is the A-weighted energy of the note's \
    own head on the **mono fold-down** — the only column here that is a function of how \
    *loud* the note is at all. `roughness`, `wobble` and `hf` are shapes, `strike`, \
    `channel` and `splitting` are ratios and `balance` is a position; a note eight \
    decibels under the piano's own at the same key moves none of them, which is exactly \
    what `DECISIONS.md` 453 found on C4 and what item 272 decided not to write anywhere. \
    A-weighted because that is what makes a level comparable across keys — 261.6 and \
    392.0 Hz are 2.3 dB apart on that curve before anything about the piano is considered \
    — and mono because items 417 and 451 forbid solving a level in the pair.\n\nIts \
    **median** is printed and never gated: for this column that median is the engine's \
    master gain against the library's mastering, about 15 dB, and it is nobody's error. \
    What is gated is the departure from it, against the same statistic with the \
    neighbouring velocity layer standing in for the engine — two takes of one piano, or \
    how far a recorded key's own level stands from the recorded register's trend, \
    whichever is larger — times ";

pub const SEAM_HEADING_1: &'static str = ".\n\n| metric | window | seam | at | bar | two layers of one key | the register's own \
    | median (ungated) | verdict |\n|---|---|--:|---|--:|--:|--:|--:|---|\n";

/// What a seam is, and the head of the seams.
pub open spec fn seam_heading_text(b: Board) -> Seq<char> {
    SEAM_HEADING_0@
        + b.allowance@
        + SEAM_HEADING_1@
}

/// What a seam is, and the head of the seams.
pub fn seam_heading(b: &Board) -> (text: String)
    ensures
        text@ == seam_heading_text(*b),
{
    let mut out = String::from_str(SEAM_HEADING_0);
    out.append(b.allowance.as_str());
    out.append(SEAM_HEADING_1);
    out
}

/// A row of the seams.
pub open spec fn seam_row_line_text(c: Column) -> Seq<char> {
    "| `"@
        + c.metric@
        + "` | `"@
        + c.window@
        + "` | **"@
        + c.seam@
        + "** | "@
        + c.seam_at@
        + " | "@
        + c.seam_bar@
        + " | "@
        + c.seam_floor@
        + " | "@
        + c.seam_register@
        + " | "@
        + c.balance@
        + " | "@
        + pass_text(c.seam_pass)
        + " |\n"@
}

/// A row of the seams.
pub fn seam_row_line(c: &Column) -> (text: String)
    ensures
        text@ == seam_row_line_text(*c),
{
    let mut out = String::from_str("| `");
    out.append(c.metric.as_str());
    out.append("` | `");
    out.append(c.window.as_str());
    out.append("` | **");
    out.append(c.seam.as_str());
    out.append("** | ");
    out.append(c.seam_at.as_str());
    out.append(" | ");
    out.append(c.seam_bar.as_str());
    out.append(" | ");
    out.append(c.seam_floor.as_str());
    out.append(" | ");
    out.append(c.seam_register.as_str());
    out.append(" | ");
    out.append(c.balance.as_str());
    out.append(" | ");
    out.append(pass_word(c.seam_pass));
    out.append(" |\n");
    out
}

/// A row of the seams, where the column is held to it.
pub open spec fn seam_row_text(c: Column) -> Seq<char> {
    if c.gated_on_seam {
        seam_row_line_text(c)
    } else {
        Seq::empty()
    }
}

/// A row of the seams, where the column is held to it.
pub fn seam_row(c: &Column) -> (text: String)
    ensures
        text@ == seam_row_text(*c),
{
    if c.gated_on_seam {
        seam_row_line(c)
    } else {
        String::new()
    }
}

/// The rows of the seams
pub open spec fn seam_rows_text(rows: Seq<Column>) -> Seq<char>
    decreases rows.len(),
{
    if rows.len() == 0 {
        Seq::empty()
    } else {
        seam_rows_text(rows.drop_last()) + seam_row_text(rows.last())
    }
}

/// The rows of the seams
pub fn seam_rows(rows: &Vec<Column>) -> (text: String)
    ensures
        text@ == seam_rows_text(rows@),
{
    let mut out = String::new();
    let mut i: usize = 0;
    proof {
        assert(rows@.take(0) =~= Seq::<Column>::empty());
    }
    while i < rows.len()
        invariant
            i <= rows.len(),
            out@ == seam_rows_text(rows@.take(i as int)),
        decreases rows.len() - i,
    {
        proof {
            assert(rows@.take(i + 1).drop_last() =~= rows@.take(i as int));
        }
        out.append(seam_row(&rows[i]).as_str());
        i = i + 1;
    }
    proof {
        assert(rows@.take(i as int) =~= rows@);
    }
    out
}

/// A row of the retired bars.
pub open spec fn clone_row_line_text(c: Column) -> Seq<char> {
    "| `"@
        + c.metric@
        + "` | `"@
        + c.window@
        + "` | "@
        + c.bar@
        + " | "@
        + c.clone_line@
        + " | "@
        + c.clone_layer@
        + " |\n"@
}

/// A row of the retired bars.
pub fn clone_row_line(c: &Column) -> (text: String)
    ensures
        text@ == clone_row_line_text(*c),
{
    let mut out = String::from_str("| `");
    out.append(c.metric.as_str());
    out.append("` | `");
    out.append(c.window.as_str());
    out.append("` | ");
    out.append(c.bar.as_str());
    out.append(" | ");
    out.append(c.clone_line.as_str());
    out.append(" | ");
    out.append(c.clone_layer.as_str());
    out.append(" |\n");
    out
}

/// A row of the retired bars, where the column is held to it.
pub open spec fn clone_row_text(c: Column) -> Seq<char> {
    if c.gated_on_spread {
        clone_row_line_text(c)
    } else {
        Seq::empty()
    }
}

/// A row of the retired bars, where the column is held to it.
pub fn clone_row(c: &Column) -> (text: String)
    ensures
        text@ == clone_row_text(*c),
{
    if c.gated_on_spread {
        clone_row_line(c)
    } else {
        String::new()
    }
}

/// The rows of the retired bars
pub open spec fn clone_rows_text(rows: Seq<Column>) -> Seq<char>
    decreases rows.len(),
{
    if rows.len() == 0 {
        Seq::empty()
    } else {
        clone_rows_text(rows.drop_last()) + clone_row_text(rows.last())
    }
}

/// The rows of the retired bars
pub fn clone_rows(rows: &Vec<Column>) -> (text: String)
    ensures
        text@ == clone_rows_text(rows@),
{
    let mut out = String::new();
    let mut i: usize = 0;
    proof {
        assert(rows@.take(0) =~= Seq::<Column>::empty());
    }
    while i < rows.len()
        invariant
            i <= rows.len(),
            out@ == clone_rows_text(rows@.take(i as int)),
        decreases rows.len() - i,
    {
        proof {
            assert(rows@.take(i + 1).drop_last() =~= rows@.take(i as int));
        }
        out.append(clone_row(&rows[i]).as_str());
        i = i + 1;
    }
    proof {
        assert(rows@.take(i as int) =~= rows@);
    }
    out
}

pub const CLONE_HEADING: &'static str = "\n`clone bar` is what the bar **would** have been under the retired rule — the same \
    statistic on the line's own reference notes and on their neighbouring velocity layer \
    — kept so the size of the change is visible rather than asserted:\n\n| metric | \
    window | bar (recorded register) | clone line | clone layer |\n|---|---|--:|--:|--:|\n";

pub const PITCH_HEADING: &'static str = "\n## The five pitches\n\n`e` is the engine, `r` the recording, `l` the recording's \
    neighbouring velocity layer. `resid` is the departure from that line's own trend. \
    `error` is present only where the reference note is a recording of that key.\n\n";

pub const POPULATION_HEADING: &'static str = "\nThe recorded keys of the register, which is where this column's bar comes \
    from:\n\n| key | e | r | r resid | l | take | error | seam \
    |\n|---|--:|--:|--:|--:|--:|--:|--:|\n";

pub const CLOSING: &'static str = "```sh\ncargo run --release -p piano-tuner -- melody \\\ndata/salamander \
    renders/melody presets/salamander-c5.toml\n```\n\nThe gate itself is `cargo test -p \
    piano-tuner --test melody`.\n";

pub const IMAGE_HEADING: &'static str = "\n## The image, note by note\n\nTwo readings of one pair of channels, over the head \
    window, positive is a left lean. `balance` says **which loudspeaker** the pitch comes \
    out of; `splitting` says whether the pitch and the note's own colour come out of the \
    same one. Neither is a number the mono fold-down every other board in this repository \
    is computed on can carry (`DECISIONS.md` 446, 451).";

pub const BALANCE_IMAGE: &'static str = "**`balance`** — `10 log10(E_L / E_R)` at each pitch's own fundamental. Scored at the \
    one note of this line the library recorded; the median row is the line's, and the \
    column's verdict is taken over the recorded ladder.";

pub const SPLITTING_IMAGE: &'static str = "**`splitting`** — the same reading at the fundamental minus its energy-weighted mean \
    over that note's own partials 2-4. Every note of the line is scored, because a \
    resampler carries an image ratio through unchanged (`melody::METRIC_ON_LINE`), and \
    the median row **is** the column's verdict.";

/// The head of a note's column.
pub open spec fn name_cell_text(n: NoteScore) -> Seq<char> {
    " "@
        + n.name@
        + " |"@
}

/// The head of a note's column.
pub fn name_cell(n: &NoteScore) -> (text: String)
    ensures
        text@ == name_cell_text(*n),
{
    let mut out = String::from_str(" ");
    out.append(n.name.as_str());
    out.append(" |");
    out
}

/// The heads of the notes' columns.
pub open spec fn name_cells_text(rows: Seq<NoteScore>) -> Seq<char>
    decreases rows.len(),
{
    if rows.len() == 0 {
        Seq::empty()
    } else {
        name_cells_text(rows.drop_last()) + name_cell_text(rows.last())
    }
}

/// The heads of the notes' columns.
pub fn name_cells(rows: &Vec<NoteScore>) -> (text: String)
    ensures
        text@ == name_cells_text(rows@),
{
    let mut out = String::new();
    let mut i: usize = 0;
    proof {
        assert(rows@.take(0) =~= Seq::<NoteScore>::empty());
    }
    while i < rows.len()
        invariant
            i <= rows.len(),
            out@ == name_cells_text(rows@.take(i as int)),
        decreases rows.len() - i,
    {
        proof {
            assert(rows@.take(i + 1).drop_last() =~= rows@.take(i as int));
        }
        out.append(name_cell(&rows[i]).as_str());
        i = i + 1;
    }
    proof {
        assert(rows@.take(i as int) =~= rows@);
    }
    out
}

/// The rule under a note's column.
pub open spec fn rule_cell_text(n: NoteScore) -> Seq<char> {
    "--:|"@
}

/// The rule under a note's column.
pub fn rule_cell(n: &NoteScore) -> (text: String)
    ensures
        text@ == rule_cell_text(*n),
{
    let out = String::from_str("--:|");
    out
}

/// The rules under the notes' columns.
pub open spec fn rule_cells_text(rows: Seq<NoteScore>) -> Seq<char>
    decreases rows.len(),
{
    if rows.len() == 0 {
        Seq::empty()
    } else {
        rule_cells_text(rows.drop_last()) + rule_cell_text(rows.last())
    }
}

/// The rules under the notes' columns.
pub fn rule_cells(rows: &Vec<NoteScore>) -> (text: String)
    ensures
        text@ == rule_cells_text(rows@),
{
    let mut out = String::new();
    let mut i: usize = 0;
    proof {
        assert(rows@.take(0) =~= Seq::<NoteScore>::empty());
    }
    while i < rows.len()
        invariant
            i <= rows.len(),
            out@ == rule_cells_text(rows@.take(i as int)),
        decreases rows.len() - i,
    {
        proof {
            assert(rows@.take(i + 1).drop_last() =~= rows@.take(i as int));
        }
        out.append(rule_cell(&rows[i]).as_str());
        i = i + 1;
    }
    proof {
        assert(rows@.take(i as int) =~= rows@);
    }
    out
}

/// What an image table is held to.
pub open spec fn image_close_text(c: Column) -> Seq<char> {
    "\nbalance **"@
        + c.balance@
        + "** against a bar of "@
        + c.balance_bar@
        + " — "@
        + pass_text(c.balance_pass)
        + "; the line's own spread "@
        + c.standout@
        + " at "@
        + c.standout_at@
        + " against "@
        + c.bar@
        + " — "@
        + pass_text(c.spread_pass)
        + ".\n"@
}

/// What an image table is held to.
pub fn image_close(c: &Column) -> (text: String)
    ensures
        text@ == image_close_text(*c),
{
    let mut out = String::from_str("\nbalance **");
    out.append(c.balance.as_str());
    out.append("** against a bar of ");
    out.append(c.balance_bar.as_str());
    out.append(" — ");
    out.append(pass_word(c.balance_pass));
    out.append("; the line's own spread ");
    out.append(c.standout.as_str());
    out.append(" at ");
    out.append(c.standout_at.as_str());
    out.append(" against ");
    out.append(c.bar.as_str());
    out.append(" — ");
    out.append(pass_word(c.spread_pass));
    out.append(".\n");
    out
}

/// Which side of a note a row of an image table shows.
#[derive(Clone, Copy, Debug, PartialEq, Eq, Structural)]
pub enum Side {
    Engine,
    Recording,
    Error,
}

/// What a note shows on that side.
pub open spec fn shown_by(n: NoteScore, side: Side) -> Signed {
    match side {
        Side::Engine => n.engine_signed,
        Side::Recording => n.reference_signed,
        Side::Error => n.error,
    }
}

/// The name of a side.
pub open spec fn side_name(side: Side) -> Seq<char> {
    match side {
        Side::Engine => "engine"@,
        Side::Recording => "recordings"@,
        Side::Error => "error"@,
    }
}

/// A cell of an image table: a number that is not finite is not scored.
pub open spec fn image_cell_text(n: NoteScore, side: Side) -> Seq<char> {
    if shown_by(n, side).value.finite() {
        " "@ + shown_by(n, side).text@ + " |"@
    } else {
        " *unscored* |"@
    }
}

/// The cells of a row.
pub open spec fn image_cells_text(notes: Seq<NoteScore>, side: Side) -> Seq<char>
    decreases notes.len(),
{
    if notes.len() == 0 {
        Seq::empty()
    } else {
        image_cells_text(notes.drop_last(), side) + image_cell_text(notes.last(), side)
    }
}

/// The notes whose number on a side is finite, in order.
pub open spec fn finite_notes(notes: Seq<NoteScore>, side: Side) -> Seq<int>
    decreases notes.len(),
{
    if notes.len() == 0 {
        Seq::empty()
    } else if shown_by(notes.last(), side).value.finite() {
        finite_notes(notes.drop_last(), side).push(notes.len() - 1)
    } else {
        finite_notes(notes.drop_last(), side)
    }
}

/// Where those numbers stand in the total order.
pub open spec fn finite_places(notes: Seq<NoteScore>, side: Side) -> Seq<i64> {
    let at = finite_notes(notes, side);
    Seq::new(at.len(), |i: int| shown_by(notes[at[i]], side).value.place() as i64)
}

/// The upper median of the finite numbers of a row, as it is printed.
pub open spec fn median_text(notes: Seq<NoteScore>, side: Side) -> Seq<char> {
    let at = finite_notes(notes, side);
    let order = stable_of(finite_places(notes, side));
    if at.len() == 0 {
        "NaN"@
    } else {
        shown_by(notes[at[order[at.len() as int / 2] as int]], side).text@
    }
}

/// A row of an image table.
pub open spec fn image_row_text(notes: Seq<NoteScore>, side: Side) -> Seq<char> {
    "| "@ + side_name(side) + " |"@ + image_cells_text(notes, side) + " **"@ + median_text(
        notes,
        side,
    ) + "** |\n"@
}

fn side_of(n: &NoteScore, side: Side) -> (r: &Signed)
    ensures
        *r == shown_by(*n, side),
{
    match side {
        Side::Engine => &n.engine_signed,
        Side::Recording => &n.reference_signed,
        Side::Error => &n.error,
    }
}

fn median_words(notes: &Vec<NoteScore>, side: Side) -> (text: String)
    ensures
        text@ == median_text(notes@, side),
{
    let mut at: Vec<usize> = Vec::new();
    let mut keys: Vec<i64> = Vec::new();
    let mut i: usize = 0;
    proof {
        assert(notes@.take(0) =~= Seq::<NoteScore>::empty());
    }
    while i < notes.len()
        invariant
            i <= notes.len(),
            at.len() == keys.len(),
            at.len() == finite_notes(notes@.take(i as int), side).len(),
            forall|k: int|
                0 <= k < at.len() ==> (#[trigger] at@[k]) < i && at@[k] == finite_notes(
                    notes@.take(i as int),
                    side,
                )[k],
            forall|k: int|
                0 <= k < at.len() ==> (#[trigger] keys@[k]) == shown_by(
                    notes@[at@[k] as int],
                    side,
                ).value.place(),
        decreases notes.len() - i,
    {
        proof {
            assert(notes@.take(i + 1).drop_last() =~= notes@.take(i as int));
            assert(notes@.take(i + 1).last() == notes@[i as int]);
        }
        let s = side_of(&notes[i], side);
        if s.value.is_finite() {
            at.push(i);
            keys.push(s.value.key());
        }
        i = i + 1;
    }
    proof {
        assert(notes@.take(i as int) =~= notes@);
        assert(keys@ =~= finite_places(notes@, side));
    }
    if at.len() == 0 {
        return String::from_str("NaN");
    }
    let order = stable_order(&keys);
    let pick: usize = order[at.len() / 2];
    side_of(&notes[at[pick]], side).text.clone()
}

fn image_row(notes: &Vec<NoteScore>, side: Side) -> (text: String)
    ensures
        text@ == image_row_text(notes@, side),
{
    let mut cells = String::new();
    let mut i: usize = 0;
    proof {
        assert(notes@.take(0) =~= Seq::<NoteScore>::empty());
    }
    while i < notes.len()
        invariant
            i <= notes.len(),
            cells@ == image_cells_text(notes@.take(i as int), side),
        decreases notes.len() - i,
    {
        proof {
            assert(notes@.take(i + 1).drop_last() =~= notes@.take(i as int));
            assert(notes@.take(i + 1).last() == notes@[i as int]);
        }
        let s = side_of(&notes[i], side);
        let cell = if s.value.is_finite() {
            let mut c = String::from_str(" ");
            c.append(s.text.as_str());
            c.append(" |");
            c
        } else {
            String::from_str(" *unscored* |")
        };
        cells.append(cell.as_str());
        i = i + 1;
    }
    proof {
        assert(notes@.take(i as int) =~= notes@);
    }
    let mut out = String::from_str("| ");
    match side {
        Side::Engine => {
            out.append("engine");
        },
        Side::Recording => {
            out.append("recordings");
        },
        Side::Error => {
            out.append("error");
        },
    }
    out.append(" |");
    out.append(cells.as_str());
    out.append(" **");
    out.append(median_words(notes, side).as_str());
    out.append("** |\n");
    out
}

/// The first column of a metric in the head window, from `i` on.
pub open spec fn head_column(columns: Seq<Column>, metric: Seq<char>, i: int) -> Option<int>
    decreases columns.len() - i,
{
    if i < 0 || i >= columns.len() {
        None
    } else if columns[i].metric@ == metric && columns[i].head {
        Some(i)
    } else {
        head_column(columns, metric, i + 1)
    }
}

/// The image table of one column.
pub open spec fn image_body_text(c: Column, what: Seq<char>) -> Seq<char> {
    "\n\n"@ + what + "\n\n|  |"@ + name_cells_text(c.notes@) + " median |\n|---|"@
        + rule_cells_text(c.notes@) + "--:|\n"@ + image_row_text(c.notes@, Side::Engine)
        + image_row_text(c.notes@, Side::Recording) + image_row_text(c.notes@, Side::Error)
        + image_close_text(c)
}

/// The image table of a metric; nothing where it has no column in the head
/// window.
pub open spec fn image_table_text(columns: Seq<Column>, metric: Seq<char>, what: Seq<char>) -> Seq<char> {
    match head_column(columns, metric, 0) {
        None => Seq::empty(),
        Some(i) => image_body_text(columns[i], what),
    }
}

/// The image table of a metric.
pub fn image_table(columns: &Vec<Column>, metric: &str, what: &str) -> (text: String)
    ensures
        text@ == image_table_text(columns@, metric@, what@),
{
    let mut i: usize = 0;
    while i < columns.len()
        invariant
            i <= columns.len(),
            head_column(columns@, metric@, 0) == head_column(columns@, metric@, i as int),
        decreases columns.len() - i,
    {
        let c = &columns[i];
        if same(c.metric.as_str(), metric) && c.head {
            let mut out = String::from_str("\n\n");
            out.append(what);
            out.append("\n\n|  |");
            out.append(name_cells(&c.notes).as_str());
            out.append(" median |\n|---|");
            out.append(rule_cells(&c.notes).as_str());
            out.append("--:|\n");
            out.append(image_row(&c.notes, Side::Engine).as_str());
            out.append(image_row(&c.notes, Side::Recording).as_str());
            out.append(image_row(&c.notes, Side::Error).as_str());
            out.append(image_close(c).as_str());
            return out;
        }
        i = i + 1;
    }
    String::new()
}

pub const PITCH_HEADING_0: &'static str = "` window\n\n| key | source | e | r | l | e resid | error \
    |\n|---|---|--:|--:|--:|--:|--:|\n";

/// The head of a column's notes.
pub open spec fn pitch_heading_text(c: Column) -> Seq<char> {
    "### `"@
        + c.metric@
        + "`, `"@
        + c.window@
        + PITCH_HEADING_0@
}

/// The head of a column's notes.
pub fn pitch_heading(c: &Column) -> (text: String)
    ensures
        text@ == pitch_heading_text(*c),
{
    let mut out = String::from_str("### `");
    out.append(c.metric.as_str());
    out.append("`, `");
    out.append(c.window.as_str());
    out.append(PITCH_HEADING_0);
    out
}

/// What is said of a note's error: that it has none where it is not scored.
pub open spec fn error_text(n: NoteScore) -> Seq<char> {
    if n.scored {
        n.error.text@
    } else {
        "*transposed — unscored*"@
    }
}

/// What is said of a note's error.
pub fn error_words(n: &NoteScore) -> (text: String)
    ensures
        text@ == error_text(*n),
{
    if n.scored {
        n.error.text.clone()
    } else {
        String::from_str("*transposed — unscored*")
    }
}

/// A row of a column's notes.
pub open spec fn pitch_row_text(n: NoteScore) -> Seq<char> {
    "| "@
        + n.name@
        + " | "@
        + source_text(n.recorded)
        + " | "@
        + n.engine@
        + " | "@
        + n.reference@
        + " | "@
        + n.layer@
        + " | "@
        + n.residual@
        + " | "@
        + error_text(n)
        + " |\n"@
}

/// A row of a column's notes.
pub fn pitch_row(n: &NoteScore) -> (text: String)
    ensures
        text@ == pitch_row_text(*n),
{
    let mut out = String::from_str("| ");
    out.append(n.name.as_str());
    out.append(" | ");
    out.append(source_word(n.recorded));
    out.append(" | ");
    out.append(n.engine.as_str());
    out.append(" | ");
    out.append(n.reference.as_str());
    out.append(" | ");
    out.append(n.layer.as_str());
    out.append(" | ");
    out.append(n.residual.as_str());
    out.append(" | ");
    out.append(error_words(n).as_str());
    out.append(" |\n");
    out
}

/// The rows of a column's notes.
pub open spec fn pitch_rows_text(rows: Seq<NoteScore>) -> Seq<char>
    decreases rows.len(),
{
    if rows.len() == 0 {
        Seq::empty()
    } else {
        pitch_rows_text(rows.drop_last()) + pitch_row_text(rows.last())
    }
}

/// The rows of a column's notes.
pub fn pitch_rows(rows: &Vec<NoteScore>) -> (text: String)
    ensures
        text@ == pitch_rows_text(rows@),
{
    let mut out = String::new();
    let mut i: usize = 0;
    proof {
        assert(rows@.take(0) =~= Seq::<NoteScore>::empty());
    }
    while i < rows.len()
        invariant
            i <= rows.len(),
            out@ == pitch_rows_text(rows@.take(i as int)),
        decreases rows.len() - i,
    {
        proof {
            assert(rows@.take(i + 1).drop_last() =~= rows@.take(i as int));
        }
        out.append(pitch_row(&rows[i]).as_str());
        i = i + 1;
    }
    proof {
        assert(rows@.take(i as int) =~= rows@);
    }
    out
}

/// A row of a column's register.
pub open spec fn population_row_text(p: PopulationRow) -> Seq<char> {
    "| "@
        + p.name@
        + " | "@
        + p.engine@
        + " | "@
        + p.reference@
        + " | "@
        + p.residual@
        + " | "@
        + p.layer@
        + " | "@
        + p.take@
        + " | "@
        + p.error@
        + " | "@
        + p.seam@
        + " |\n"@
}

/// A row of a column's register.
pub fn population_row(p: &PopulationRow) -> (text: String)
    ensures
        text@ == population_row_text(*p),
{
    let mut out = String::from_str("| ");
    out.append(p.name.as_str());
    out.append(" | ");
    out.append(p.engine.as_str());
    out.append(" | ");
    out.append(p.reference.as_str());
    out.append(" | ");
    out.append(p.residual.as_str());
    out.append(" | ");
    out.append(p.layer.as_str());
    out.append(" | ");
    out.append(p.take.as_str());
    out.append(" | ");
    out.append(p.error.as_str());
    out.append(" | ");
    out.append(p.seam.as_str());
    out.append(" |\n");
    out
}

/// The rows of a column's register.
pub open spec fn population_rows_text(rows: Seq<PopulationRow>) -> Seq<char>
    decreases rows.len(),
{
    if rows.len() == 0 {
        Seq::empty()
    } else {
        population_rows_text(rows.drop_last()) + population_row_text(rows.last())
    }
}

/// The rows of a column's register.
pub fn population_rows(rows: &Vec<PopulationRow>) -> (text: String)
    ensures
        text@ == population_rows_text(rows@),
{
    let mut out = String::new();
    let mut i: usize = 0;
    proof {
        assert(rows@.take(0) =~= Seq::<PopulationRow>::empty());
    }
    while i < rows.len()
        invariant
            i <= rows.len(),
            out@ == population_rows_text(rows@.take(i as int)),
        decreases rows.len() - i,
    {
        proof {
            assert(rows@.take(i + 1).drop_last() =~= rows@.take(i as int));
        }
        out.append(population_row(&rows[i]).as_str());
        i = i + 1;
    }
    proof {
        assert(rows@.take(i as int) =~= rows@);
    }
    out
}

/// A column, note by note and key by key.
pub open spec fn pitch_section_text(c: Column) -> Seq<char> {
    pitch_heading_text(c)
        + pitch_rows_text(c.notes@)
        + POPULATION_HEADING@
        + population_rows_text(c.population@)
        + "\n"@
}

/// A column, note by note and key by key.
pub fn pitch_section(c: &Column) -> (text: String)
    ensures
        text@ == pitch_section_text(*c),
{
    let mut out = String::from_str(pitch_heading(c).as_str());
    out.append(pitch_rows(&c.notes).as_str());
    out.append(POPULATION_HEADING);
    out.append(population_rows(&c.population).as_str());
    out.append("\n");
    out
}

/// The columns, note by note and key by key.
pub open spec fn pitch_sections_text(rows: Seq<Column>) -> Seq<char>
    decreases rows.len(),
{
    if rows.len() == 0 {
        Seq::empty()
    } else {
        pitch_sections_text(rows.drop_last()) + pitch_section_text(rows.last())
    }
}

/// The columns, note by note and key by key.
pub fn pitch_sections(rows: &Vec<Column>) -> (text: String)
    ensures
        text@ == pitch_sections_text(rows@),
{
    let mut out = String::new();
    let mut i: usize = 0;
    proof {
        assert(rows@.take(0) =~= Seq::<Column>::empty());
    }
    while i < rows.len()
        invariant
            i <= rows.len(),
            out@ == pitch_sections_text(rows@.take(i as int)),
        decreases rows.len() - i,
    {
        proof {
            assert(rows@.take(i + 1).drop_last() =~= rows@.take(i as int));
        }
        out.append(pitch_section(&rows[i]).as_str());
        i = i + 1;
    }
    proof {
        assert(rows@.take(i as int) =~= rows@);
    }
    out
}

pub const TIMED_HEADING_0: &'static str = "` window, in time order\n\n| at | key | source | roughness e/r | wobble e/r | hf e/r \
    | strike e/r | balance e/r | splitting e/r |\n|--:|---|---|--:|--:|--:|--:|--:|--:|\n";

/// The head of a window's notes.
pub open spec fn timed_heading_text(title: Seq<char>) -> Seq<char> {
    "## Every note of the `"@
        + title
        + TIMED_HEADING_0@
}

/// The head of a window's notes.
pub fn timed_heading(title: &str) -> (text: String)
    ensures
        text@ == timed_heading_text(title@),
{
    let mut out = String::from_str("## Every note of the `");
    out.append(title);
    out.append(TIMED_HEADING_0);
    out
}

/// A row of a window's notes.
pub open spec fn timed_row_text(n: TimedNote) -> Seq<char> {
    "| "@
        + n.at@
        + " | "@
        + n.name@
        + " | "@
        + source_text(n.recorded)
        + " | "@
        + n.roughness.engine@
        + "/"@
        + n.roughness.reference@
        + " | "@
        + n.wobble.engine@
        + "/"@
        + n.wobble.reference@
        + " | "@
        + n.hf.engine@
        + "/"@
        + n.hf.reference@
        + " | "@
        + n.strike.engine@
        + "/"@
        + n.strike.reference@
        + " | "@
        + n.balance.engine@
        + "/"@
        + n.balance.reference@
        + " | "@
        + n.splitting.engine@
        + "/"@
        + n.splitting.reference@
        + " |\n"@
}

/// A row of a window's notes.
pub fn timed_row(n: &TimedNote) -> (text: String)
    ensures
        text@ == timed_row_text(*n),
{
    let mut out = String::from_str("| ");
    out.append(n.at.as_str());
    out.append(" | ");
    out.append(n.name.as_str());
    out.append(" | ");
    out.append(source_word(n.recorded));
    out.append(" | ");
    out.append(n.roughness.engine.as_str());
    out.append("/");
    out.append(n.roughness.reference.as_str());
    out.append(" | ");
    out.append(n.wobble.engine.as_str());
    out.append("/");
    out.append(n.wobble.reference.as_str());
    out.append(" | ");
    out.append(n.hf.engine.as_str());
    out.append("/");
    out.append(n.hf.reference.as_str());
    out.append(" | ");
    out.append(n.strike.engine.as_str());
    out.append("/");
    out.append(n.strike.reference.as_str());
    out.append(" | ");
    out.append(n.balance.engine.as_str());
    out.append("/");
    out.append(n.balance.reference.as_str());
    out.append(" | ");
    out.append(n.splitting.engine.as_str());
    out.append("/");
    out.append(n.splitting.reference.as_str());
    out.append(" |\n");
    out
}

/// The rows of a window's notes.
pub open spec fn timed_rows_text(rows: Seq<TimedNote>) -> Seq<char>
    decreases rows.len(),
{
    if rows.len() == 0 {
        Seq::empty()
    } else {
        timed_rows_text(rows.drop_last()) + timed_row_text(rows.last())
    }
}

/// The rows of a window's notes.
pub fn timed_rows(rows: &Vec<TimedNote>) -> (text: String)
    ensures
        text@ == timed_rows_text(rows@),
{
    let mut out = String::new();
    let mut i: usize = 0;
    proof {
        assert(rows@.take(0) =~= Seq::<TimedNote>::empty());
    }
    while i < rows.len()
        invariant
            i <= rows.len(),
            out@ == timed_rows_text(rows@.take(i as int)),
        decreases rows.len() - i,
    {
        proof {
            assert(rows@.take(i + 1).drop_last() =~= rows@.take(i as int));
        }
        out.append(timed_row(&rows[i]).as_str());
        i = i + 1;
    }
    proof {
        assert(rows@.take(i as int) =~= rows@);
    }
    out
}

/// A window's notes, where it was read.
pub open spec fn window_text(title: Seq<char>, notes: Option<Vec<TimedNote>>) -> Seq<char> {
    match notes {
        None => Seq::empty(),
        Some(v) => timed_heading_text(title) + timed_rows_text(v@) + "\n"@,
    }
}

/// A window's notes, where it was read.
pub fn window_notes(title: &str, notes: &Option<Vec<TimedNote>>) -> (text: String)
    ensures
        text@ == window_text(title@, *notes),
{
    match notes {
        None => String::new(),
        Some(v) => {
            let mut out = timed_heading(title);
            out.append(timed_rows(v).as_str());
            out.append("\n");
            out
        },
    }
}

/// The names of some keys, or that there are none.
pub open spec fn named_text(names: Seq<Seq<char>>) -> Seq<char> {
    if names.len() == 0 {
        "none"@
    } else {
        joined(names, " "@)
    }
}

/// The names of some keys, or that there are none.
pub fn named(names: &Vec<String>) -> (text: String)
    ensures
        text@ == named_text(views(names@)),
{
    if names.len() == 0 {
        String::from_str("none")
    } else {
        join(names, " ")
    }
}

/// The melody board.
pub open spec fn melody_report_text(columns: Seq<Column>, b: Board) -> Seq<char> {
    introduction_text(b) + provenance_rows_text(b.pitches@) + verdict_heading_text(
        named_text(views(b.ladder@)),
        b,
    ) + spread_rows_text(columns) + balance_heading_text(b) + balance_rows_text(columns)
        + seam_heading_text(b) + seam_rows_text(columns) + CLONE_HEADING@ + clone_rows_text(
        columns,
    ) + IMAGE_HEADING@ + image_table_text(columns, "balance"@, BALANCE_IMAGE@) + image_table_text(
        columns,
        "splitting"@,
        SPLITTING_IMAGE@,
    ) + "\n"@ + PITCH_HEADING@ + pitch_sections_text(columns) + window_text("head"@, b.head)
        + window_text("tail"@, b.tail) + CLOSING@
}

/// The melody board.
pub fn melody_report(columns: &Vec<Column>, b: &Board) -> (text: String)
    ensures
        text@ == melody_report_text(columns@, *b),
{
    let mut out = introduction(b);
    out.append(provenance_rows(&b.pitches).as_str());
    out.append(verdict_heading(named(&b.ladder).as_str(), b).as_str());
    out.append(spread_rows(columns).as_str());
    out.append(balance_heading(b).as_str());
    out.append(balance_rows(columns).as_str());
    out.append(seam_heading(b).as_str());
    out.append(seam_rows(columns).as_str());
    out.append(CLONE_HEADING);
    out.append(clone_rows(columns).as_str());
    out.append(IMAGE_HEADING);
    out.append(image_table(columns, "balance", BALANCE_IMAGE).as_str());
    out.append(image_table(columns, "splitting", SPLITTING_IMAGE).as_str());
    out.append("\n");
    out.append(PITCH_HEADING);
    out.append(pitch_sections(columns).as_str());
    out.append(window_notes("head", &b.head).as_str());
    out.append(window_notes("tail", &b.tail).as_str());
    out.append(CLOSING);
    out
}

/// The cells of a `provenance_row` stand in the order of its columns, one number each.
#[verifier::rlimit(30)]
pub proof fn the_cells_of_a_provenance_row_stand_in_order(p: Provenance)
    requires
        !p.name@.contains('|'),
        !p.source@.contains('|'),
    ensures
        fields_of(provenance_row_text(p), '|').len() == 4,
        fields_of(provenance_row_text(p), '|')[1] == " "@ + p.name@ + " "@,
        fields_of(provenance_row_text(p), '|')[2] == " "@ + p.source@ + " "@,
{
    reveal_strlit("| ");
    reveal_strlit(" ");
    reveal_strlit(" | ");
    reveal_strlit(" |\n");
    reveal_strlit("\n");
    let p0 = "| "@;
    one_field(Seq::<char>::empty(), '|');
    one_more_field(Seq::<char>::empty(), " "@, '|');
    assert(p0 =~= Seq::<char>::empty() + seq!['|'] + " "@);
    the_field_goes_on(p0, p.name@, '|');
    let p1 = p0 + p.name@;
    assert(" | "@ =~= " "@ + seq!['|'] + " "@);
    a_field_begins(p1, " | "@, " "@, " "@, '|');
    let p2 = p1 + " | "@;
    the_field_goes_on(p2, p.source@, '|');
    let p3 = p2 + p.source@;
    assert(" |\n"@ =~= " "@ + seq!['|'] + "\n"@);
    a_field_begins(p3, " |\n"@, " "@, "\n"@, '|');
    let p4 = p3 + " |\n"@;
    assert(provenance_row_text(p) == p4);
}

/// The cells of a `spread_row_line` stand in the order of its columns, one number each.
#[verifier::rlimit(30)]
pub proof fn the_cells_of_a_spread_row_line_stand_in_order(c: Column)
    requires
        !c.metric@.contains('|'),
        !c.window@.contains('|'),
        !c.standout@.contains('|'),
        !c.standout_at@.contains('|'),
        !c.bar@.contains('|'),
        !c.register@.contains('|'),
        !c.worst@.contains('|'),
        !c.take@.contains('|'),
        !pass_text(c.spread_pass).contains('|'),
        !c.seam@.contains('|'),
        !c.seam_at@.contains('|'),
        !c.seam_floor@.contains('|'),
    ensures
        fields_of(spread_row_line_text(c), '|').len() == 14,
        fields_of(spread_row_line_text(c), '|')[1] == " `"@ + c.metric@ + "` "@,
        fields_of(spread_row_line_text(c), '|')[2] == " `"@ + c.window@ + "` "@,
        fields_of(spread_row_line_text(c), '|')[3] == " **"@ + c.standout@ + "** "@,
        fields_of(spread_row_line_text(c), '|')[4] == " "@ + c.standout_at@ + " "@,
        fields_of(spread_row_line_text(c), '|')[5] == " "@ + c.bar@ + " "@,
        fields_of(spread_row_line_text(c), '|')[6] == " "@ + c.register@ + " "@,
        fields_of(spread_row_line_text(c), '|')[7] == " "@ + c.worst@ + " "@,
        fields_of(spread_row_line_text(c), '|')[8] == " "@ + c.take@ + " "@,
        fields_of(spread_row_line_text(c), '|')[9] == " "@ + pass_text(c.spread_pass) + " "@,
        fields_of(spread_row_line_text(c), '|')[10] == " "@ + c.seam@ + " "@,
        fields_of(spread_row_line_text(c), '|')[11] == " "@ + c.seam_at@ + " "@,
        fields_of(spread_row_line_text(c), '|')[12] == " "@ + c.seam_floor@ + " "@,
{
    reveal_strlit("| `");
    reveal_strlit(" `");
    reveal_strlit("` | `");
    reveal_strlit("` ");
    reveal_strlit("` | **");
    reveal_strlit(" **");
    reveal_strlit("** | ");
    reveal_strlit("** ");
    reveal_strlit(" ");
    reveal_strlit(" | ");
    reveal_strlit(" |\n");
    reveal_strlit("\n");
    let p0 = "| `"@;
    one_field(Seq::<char>::empty(), '|');
    one_more_field(Seq::<char>::empty(), " `"@, '|');
    assert(p0 =~= Seq::<char>::empty() + seq!['|'] + " `"@);
    the_field_goes_on(p0, c.metric@, '|');
    let p1 = p0 + c.metric@;
    assert("` | `"@ =~= "` "@ + seq!['|'] + " `"@);
    a_field_begins(p1, "` | `"@, "` "@, " `"@, '|');
    let p2 = p1 + "` | `"@;
    the_field_goes_on(p2, c.window@, '|');
    let p3 = p2 + c.window@;
    assert("` | **"@ =~= "` "@ + seq!['|'] + " **"@);
    a_field_begins(p3, "` | **"@, "` "@, " **"@, '|');
    let p4 = p3 + "` | **"@;
    the_field_goes_on(p4, c.standout@, '|');
    let p5 = p4 + c.standout@;
    assert("** | "@ =~= "** "@ + seq!['|'] + " "@);
    a_field_begins(p5, "** | "@, "** "@, " "@, '|');
    let p6 = p5 + "** | "@;
    the_field_goes_on(p6, c.standout_at@, '|');
    let p7 = p6 + c.standout_at@;
    assert(" | "@ =~= " "@ + seq!['|'] + " "@);
    a_field_begins(p7, " | "@, " "@, " "@, '|');
    let p8 = p7 + " | "@;
    the_field_goes_on(p8, c.bar@, '|');
    let p9 = p8 + c.bar@;
    assert(" | "@ =~= " "@ + seq!['|'] + " "@);
    a_field_begins(p9, " | "@, " "@, " "@, '|');
    let p10 = p9 + " | "@;
    the_field_goes_on(p10, c.register@, '|');
    let p11 = p10 + c.register@;
    assert(" | "@ =~= " "@ + seq!['|'] + " "@);
    a_field_begins(p11, " | "@, " "@, " "@, '|');
    let p12 = p11 + " | "@;
    the_field_goes_on(p12, c.worst@, '|');
    let p13 = p12 + c.worst@;
    assert(" | "@ =~= " "@ + seq!['|'] + " "@);
    a_field_begins(p13, " | "@, " "@, " "@, '|');
    let p14 = p13 + " | "@;
    the_field_goes_on(p14, c.take@, '|');
    let p15 = p14 + c.take@;
    assert(" | "@ =~= " "@ + seq!['|'] + " "@);
    a_field_begins(p15, " | "@, " "@, " "@, '|');
    let p16 = p15 + " | "@;
    the_field_goes_on(p16, pass_text(c.spread_pass), '|');
    let p17 = p16 + pass_text(c.spread_pass);
    assert(" | "@ =~= " "@ + seq!['|'] + " "@);
    a_field_begins(p17, " | "@, " "@, " "@, '|');
    let p18 = p17 + " | "@;
    the_field_goes_on(p18, c.seam@, '|');
    let p19 = p18 + c.seam@;
    assert(" | "@ =~= " "@ + seq!['|'] + " "@);
    a_field_begins(p19, " | "@, " "@, " "@, '|');
    let p20 = p19 + " | "@;
    the_field_goes_on(p20, c.seam_at@, '|');
    let p21 = p20 + c.seam_at@;
    assert(" | "@ =~= " "@ + seq!['|'] + " "@);
    a_field_begins(p21, " | "@, " "@, " "@, '|');
    let p22 = p21 + " | "@;
    the_field_goes_on(p22, c.seam_floor@, '|');
    let p23 = p22 + c.seam_floor@;
    assert(" |\n"@ =~= " "@ + seq!['|'] + "\n"@);
    a_field_begins(p23, " |\n"@, " "@, "\n"@, '|');
    let p24 = p23 + " |\n"@;
    assert(spread_row_line_text(c) == p24);
}

/// The cells of a `balance_row_line` stand in the order of its columns, one number each.
#[verifier::rlimit(30)]
pub proof fn the_cells_of_a_balance_row_line_stand_in_order(c: Column)
    requires
        !c.metric@.contains('|'),
        !c.window@.contains('|'),
        !c.balance@.contains('|'),
        !c.balance_bar@.contains('|'),
        !c.balance_take@.contains('|'),
        !pass_text(c.balance_pass).contains('|'),
        !c.standout@.contains('|'),
        !c.standout_at@.contains('|'),
        !c.bar@.contains('|'),
    ensures
        fields_of(balance_row_line_text(c), '|').len() == 11,
        fields_of(balance_row_line_text(c), '|')[1] == " `"@ + c.metric@ + "` "@,
        fields_of(balance_row_line_text(c), '|')[2] == " `"@ + c.window@ + "` "@,
        fields_of(balance_row_line_text(c), '|')[3] == " **"@ + c.balance@ + "** "@,
        fields_of(balance_row_line_text(c), '|')[4] == " "@ + c.balance_bar@ + " "@,
        fields_of(balance_row_line_text(c), '|')[5] == " "@ + c.balance_take@ + " "@,
        fields_of(balance_row_line_text(c), '|')[6] == " "@ + pass_text(c.balance_pass) + " "@,
        fields_of(balance_row_line_text(c), '|')[7] == " "@ + c.standout@ + " "@,
        fields_of(balance_row_line_text(c), '|')[8] == " "@ + c.standout_at@ + " "@,
        fields_of(balance_row_line_text(c), '|')[9] == " "@ + c.bar@ + " "@,
{
    reveal_strlit("| `");
    reveal_strlit(" `");
    reveal_strlit("` | `");
    reveal_strlit("` ");
    reveal_strlit("` | **");
    reveal_strlit(" **");
    reveal_strlit("** | ");
    reveal_strlit("** ");
    reveal_strlit(" ");
    reveal_strlit(" | ");
    reveal_strlit(" |\n");
    reveal_strlit("\n");
    let p0 = "| `"@;
    one_field(Seq::<char>::empty(), '|');
    one_more_field(Seq::<char>::empty(), " `"@, '|');
    assert(p0 =~= Seq::<char>::empty() + seq!['|'] + " `"@);
    the_field_goes_on(p0, c.metric@, '|');
    let p1 = p0 + c.metric@;
    assert("` | `"@ =~= "` "@ + seq!['|'] + " `"@);
    a_field_begins(p1, "` | `"@, "` "@, " `"@, '|');
    let p2 = p1 + "` | `"@;
    the_field_goes_on(p2, c.window@, '|');
    let p3 = p2 + c.window@;
    assert("` | **"@ =~= "` "@ + seq!['|'] + " **"@);
    a_field_begins(p3, "` | **"@, "` "@, " **"@, '|');
    let p4 = p3 + "` | **"@;
    the_field_goes_on(p4, c.balance@, '|');
    let p5 = p4 + c.balance@;
    assert("** | "@ =~= "** "@ + seq!['|'] + " "@);
    a_field_begins(p5, "** | "@, "** "@, " "@, '|');
    let p6 = p5 + "** | "@;
    the_field_goes_on(p6, c.balance_bar@, '|');
    let p7 = p6 + c.balance_bar@;
    assert(" | "@ =~= " "@ + seq!['|'] + " "@);
    a_field_begins(p7, " | "@, " "@, " "@, '|');
    let p8 = p7 + " | "@;
    the_field_goes_on(p8, c.balance_take@, '|');
    let p9 = p8 + c.balance_take@;
    assert(" | "@ =~= " "@ + seq!['|'] + " "@);
    a_field_begins(p9, " | "@, " "@, " "@, '|');
    let p10 = p9 + " | "@;
    the_field_goes_on(p10, pass_text(c.balance_pass), '|');
    let p11 = p10 + pass_text(c.balance_pass);
    assert(" | "@ =~= " "@ + seq!['|'] + " "@);
    a_field_begins(p11, " | "@, " "@, " "@, '|');
    let p12 = p11 + " | "@;
    the_field_goes_on(p12, c.standout@, '|');
    let p13 = p12 + c.standout@;
    assert(" | "@ =~= " "@ + seq!['|'] + " "@);
    a_field_begins(p13, " | "@, " "@, " "@, '|');
    let p14 = p13 + " | "@;
    the_field_goes_on(p14, c.standout_at@, '|');
    let p15 = p14 + c.standout_at@;
    assert(" | "@ =~= " "@ + seq!['|'] + " "@);
    a_field_begins(p15, " | "@, " "@, " "@, '|');
    let p16 = p15 + " | "@;
    the_field_goes_on(p16, c.bar@, '|');
    let p17 = p16 + c.bar@;
    assert(" |\n"@ =~= " "@ + seq!['|'] + "\n"@);
    a_field_begins(p17, " |\n"@, " "@, "\n"@, '|');
    let p18 = p17 + " |\n"@;
    assert(balance_row_line_text(c) == p18);
}

/// The cells of a `seam_row_line` stand in the order of its columns, one number each.
#[verifier::rlimit(30)]
pub proof fn the_cells_of_a_seam_row_line_stand_in_order(c: Column)
    requires
        !c.metric@.contains('|'),
        !c.window@.contains('|'),
        !c.seam@.contains('|'),
        !c.seam_at@.contains('|'),
        !c.seam_bar@.contains('|'),
        !c.seam_floor@.contains('|'),
        !c.seam_register@.contains('|'),
        !c.balance@.contains('|'),
        !pass_text(c.seam_pass).contains('|'),
    ensures
        fields_of(seam_row_line_text(c), '|').len() == 11,
        fields_of(seam_row_line_text(c), '|')[1] == " `"@ + c.metric@ + "` "@,
        fields_of(seam_row_line_text(c), '|')[2] == " `"@ + c.window@ + "` "@,
        fields_of(seam_row_line_text(c), '|')[3] == " **"@ + c.seam@ + "** "@,
        fields_of(seam_row_line_text(c), '|')[4] == " "@ + c.seam_at@ + " "@,
        fields_of(seam_row_line_text(c), '|')[5] == " "@ + c.seam_bar@ + " "@,
        fields_of(seam_row_line_text(c), '|')[6] == " "@ + c.seam_floor@ + " "@,
        fields_of(seam_row_line_text(c), '|')[7] == " "@ + c.seam_register@ + " "@,
        fields_of(seam_row_line_text(c), '|')[8] == " "@ + c.balance@ + " "@,
        fields_of(seam_row_line_text(c), '|')[9] == " "@ + pass_text(c.seam_pass) + " "@,
{
    reveal_strlit("| `");
    reveal_strlit(" `");
    reveal_strlit("` | `");
    reveal_strlit("` ");
    reveal_strlit("` | **");
    reveal_strlit(" **");
    reveal_strlit("** | ");
    reveal_strlit("** ");
    reveal_strlit(" ");
    reveal_strlit(" | ");
    reveal_strlit(" |\n");
    reveal_strlit("\n");
    let p0 = "| `"@;
    one_field(Seq::<char>::empty(), '|');
    one_more_field(Seq::<char>::empty(), " `"@, '|');
    assert(p0 =~= Seq::<char>::empty() + seq!['|'] + " `"@);
    the_field_goes_on(p0, c.metric@, '|');
    let p1 = p0 + c.metric@;
    assert("` | `"@ =~= "` "@ + seq!['|'] + " `"@);
    a_field_begins(p1, "` | `"@, "` "@, " `"@, '|');
    let p2 = p1 + "` | `"@;
    the_field_goes_on(p2, c.window@, '|');
    let p3 = p2 + c.window@;
    assert("` | **"@ =~= "` "@ + seq!['|'] + " **"@);
    a_field_begins(p3, "` | **"@, "` "@, " **"@, '|');
    let p4 = p3 + "` | **"@;
    the_field_goes_on(p4, c.seam@, '|');
    let p5 = p4 + c.seam@;
    assert("** | "@ =~= "** "@ + seq!['|'] + " "@);
    a_field_begins(p5, "** | "@, "** "@, " "@, '|');
    let p6 = p5 + "** | "@;
    the_field_goes_on(p6, c.seam_at@, '|');
    let p7 = p6 + c.seam_at@;
    assert(" | "@ =~= " "@ + seq!['|'] + " "@);
    a_field_begins(p7, " | "@, " "@, " "@, '|');
    let p8 = p7 + " | "@;
    the_field_goes_on(p8, c.seam_bar@, '|');
    let p9 = p8 + c.seam_bar@;
    assert(" | "@ =~= " "@ + seq!['|'] + " "@);
    a_field_begins(p9, " | "@, " "@, " "@, '|');
    let p10 = p9 + " | "@;
    the_field_goes_on(p10, c.seam_floor@, '|');
    let p11 = p10 + c.seam_floor@;
    assert(" | "@ =~= " "@ + seq!['|'] + " "@);
    a_field_begins(p11, " | "@, " "@, " "@, '|');
    let p12 = p11 + " | "@;
    the_field_goes_on(p12, c.seam_register@, '|');
    let p13 = p12 + c.seam_register@;
    assert(" | "@ =~= " "@ + seq!['|'] + " "@);
    a_field_begins(p13, " | "@, " "@, " "@, '|');
    let p14 = p13 + " | "@;
    the_field_goes_on(p14, c.balance@, '|');
    let p15 = p14 + c.balance@;
    assert(" | "@ =~= " "@ + seq!['|'] + " "@);
    a_field_begins(p15, " | "@, " "@, " "@, '|');
    let p16 = p15 + " | "@;
    the_field_goes_on(p16, pass_text(c.seam_pass), '|');
    let p17 = p16 + pass_text(c.seam_pass);
    assert(" |\n"@ =~= " "@ + seq!['|'] + "\n"@);
    a_field_begins(p17, " |\n"@, " "@, "\n"@, '|');
    let p18 = p17 + " |\n"@;
    assert(seam_row_line_text(c) == p18);
}

/// The cells of a `clone_row_line` stand in the order of its columns, one number each.
#[verifier::rlimit(30)]
pub proof fn the_cells_of_a_clone_row_line_stand_in_order(c: Column)
    requires
        !c.metric@.contains('|'),
        !c.window@.contains('|'),
        !c.bar@.contains('|'),
        !c.clone_line@.contains('|'),
        !c.clone_layer@.contains('|'),
    ensures
        fields_of(clone_row_line_text(c), '|').len() == 7,
        fields_of(clone_row_line_text(c), '|')[1] == " `"@ + c.metric@ + "` "@,
        fields_of(clone_row_line_text(c), '|')[2] == " `"@ + c.window@ + "` "@,
        fields_of(clone_row_line_text(c), '|')[3] == " "@ + c.bar@ + " "@,
        fields_of(clone_row_line_text(c), '|')[4] == " "@ + c.clone_line@ + " "@,
        fields_of(clone_row_line_text(c), '|')[5] == " "@ + c.clone_layer@ + " "@,
{
    reveal_strlit("| `");
    reveal_strlit(" `");
    reveal_strlit("` | `");
    reveal_strlit("` ");
    reveal_strlit("` | ");
    reveal_strlit(" ");
    reveal_strlit(" | ");
    reveal_strlit(" |\n");
    reveal_strlit("\n");
    let p0 = "| `"@;
    one_field(Seq::<char>::empty(), '|');
    one_more_field(Seq::<char>::empty(), " `"@, '|');
    assert(p0 =~= Seq::<char>::empty() + seq!['|'] + " `"@);
    the_field_goes_on(p0, c.metric@, '|');
    let p1 = p0 + c.metric@;
    assert("` | `"@ =~= "` "@ + seq!['|'] + " `"@);
    a_field_begins(p1, "` | `"@, "` "@, " `"@, '|');
    let p2 = p1 + "` | `"@;
    the_field_goes_on(p2, c.window@, '|');
    let p3 = p2 + c.window@;
    assert("` | "@ =~= "` "@ + seq!['|'] + " "@);
    a_field_begins(p3, "` | "@, "` "@, " "@, '|');
    let p4 = p3 + "` | "@;
    the_field_goes_on(p4, c.bar@, '|');
    let p5 = p4 + c.bar@;
    assert(" | "@ =~= " "@ + seq!['|'] + " "@);
    a_field_begins(p5, " | "@, " "@, " "@, '|');
    let p6 = p5 + " | "@;
    the_field_goes_on(p6, c.clone_line@, '|');
    let p7 = p6 + c.clone_line@;
    assert(" | "@ =~= " "@ + seq!['|'] + " "@);
    a_field_begins(p7, " | "@, " "@, " "@, '|');
    let p8 = p7 + " | "@;
    the_field_goes_on(p8, c.clone_layer@, '|');
    let p9 = p8 + c.clone_layer@;
    assert(" |\n"@ =~= " "@ + seq!['|'] + "\n"@);
    a_field_begins(p9, " |\n"@, " "@, "\n"@, '|');
    let p10 = p9 + " |\n"@;
    assert(clone_row_line_text(c) == p10);
}

/// The cells of a `pitch_row` stand in the order of its columns, one number each.
#[verifier::rlimit(30)]
pub proof fn the_cells_of_a_pitch_row_stand_in_order(n: NoteScore)
    requires
        !n.name@.contains('|'),
        !source_text(n.recorded).contains('|'),
        !n.engine@.contains('|'),
        !n.reference@.contains('|'),
        !n.layer@.contains('|'),
        !n.residual@.contains('|'),
        !error_text(n).contains('|'),
    ensures
        fields_of(pitch_row_text(n), '|').len() == 9,
        fields_of(pitch_row_text(n), '|')[1] == " "@ + n.name@ + " "@,
        fields_of(pitch_row_text(n), '|')[2] == " "@ + source_text(n.recorded) + " "@,
        fields_of(pitch_row_text(n), '|')[3] == " "@ + n.engine@ + " "@,
        fields_of(pitch_row_text(n), '|')[4] == " "@ + n.reference@ + " "@,
        fields_of(pitch_row_text(n), '|')[5] == " "@ + n.layer@ + " "@,
        fields_of(pitch_row_text(n), '|')[6] == " "@ + n.residual@ + " "@,
        fields_of(pitch_row_text(n), '|')[7] == " "@ + error_text(n) + " "@,
{
    reveal_strlit("| ");
    reveal_strlit(" ");
    reveal_strlit(" | ");
    reveal_strlit(" |\n");
    reveal_strlit("\n");
    let p0 = "| "@;
    one_field(Seq::<char>::empty(), '|');
    one_more_field(Seq::<char>::empty(), " "@, '|');
    assert(p0 =~= Seq::<char>::empty() + seq!['|'] + " "@);
    the_field_goes_on(p0, n.name@, '|');
    let p1 = p0 + n.name@;
    assert(" | "@ =~= " "@ + seq!['|'] + " "@);
    a_field_begins(p1, " | "@, " "@, " "@, '|');
    let p2 = p1 + " | "@;
    the_field_goes_on(p2, source_text(n.recorded), '|');
    let p3 = p2 + source_text(n.recorded);
    assert(" | "@ =~= " "@ + seq!['|'] + " "@);
    a_field_begins(p3, " | "@, " "@, " "@, '|');
    let p4 = p3 + " | "@;
    the_field_goes_on(p4, n.engine@, '|');
    let p5 = p4 + n.engine@;
    assert(" | "@ =~= " "@ + seq!['|'] + " "@);
    a_field_begins(p5, " | "@, " "@, " "@, '|');
    let p6 = p5 + " | "@;
    the_field_goes_on(p6, n.reference@, '|');
    let p7 = p6 + n.reference@;
    assert(" | "@ =~= " "@ + seq!['|'] + " "@);
    a_field_begins(p7, " | "@, " "@, " "@, '|');
    let p8 = p7 + " | "@;
    the_field_goes_on(p8, n.layer@, '|');
    let p9 = p8 + n.layer@;
    assert(" | "@ =~= " "@ + seq!['|'] + " "@);
    a_field_begins(p9, " | "@, " "@, " "@, '|');
    let p10 = p9 + " | "@;
    the_field_goes_on(p10, n.residual@, '|');
    let p11 = p10 + n.residual@;
    assert(" | "@ =~= " "@ + seq!['|'] + " "@);
    a_field_begins(p11, " | "@, " "@, " "@, '|');
    let p12 = p11 + " | "@;
    the_field_goes_on(p12, error_text(n), '|');
    let p13 = p12 + error_text(n);
    assert(" |\n"@ =~= " "@ + seq!['|'] + "\n"@);
    a_field_begins(p13, " |\n"@, " "@, "\n"@, '|');
    let p14 = p13 + " |\n"@;
    assert(pitch_row_text(n) == p14);
}

/// The cells of a `population_row` stand in the order of its columns, one number each.
#[verifier::rlimit(30)]
pub proof fn the_cells_of_a_population_row_stand_in_order(p: PopulationRow)
    requires
        !p.name@.contains('|'),
        !p.engine@.contains('|'),
        !p.reference@.contains('|'),
        !p.residual@.contains('|'),
        !p.layer@.contains('|'),
        !p.take@.contains('|'),
        !p.error@.contains('|'),
        !p.seam@.contains('|'),
    ensures
        fields_of(population_row_text(p), '|').len() == 10,
        fields_of(population_row_text(p), '|')[1] == " "@ + p.name@ + " "@,
        fields_of(population_row_text(p), '|')[2] == " "@ + p.engine@ + " "@,
        fields_of(population_row_text(p), '|')[3] == " "@ + p.reference@ + " "@,
        fields_of(population_row_text(p), '|')[4] == " "@ + p.residual@ + " "@,
        fields_of(population_row_text(p), '|')[5] == " "@ + p.layer@ + " "@,
        fields_of(population_row_text(p), '|')[6] == " "@ + p.take@ + " "@,
        fields_of(population_row_text(p), '|')[7] == " "@ + p.error@ + " "@,
        fields_of(population_row_text(p), '|')[8] == " "@ + p.seam@ + " "@,
{
    reveal_strlit("| ");
    reveal_strlit(" ");
    reveal_strlit(" | ");
    reveal_strlit(" |\n");
    reveal_strlit("\n");
    let p0 = "| "@;
    one_field(Seq::<char>::empty(), '|');
    one_more_field(Seq::<char>::empty(), " "@, '|');
    assert(p0 =~= Seq::<char>::empty() + seq!['|'] + " "@);
    the_field_goes_on(p0, p.name@, '|');
    let p1 = p0 + p.name@;
    assert(" | "@ =~= " "@ + seq!['|'] + " "@);
    a_field_begins(p1, " | "@, " "@, " "@, '|');
    let p2 = p1 + " | "@;
    the_field_goes_on(p2, p.engine@, '|');
    let p3 = p2 + p.engine@;
    assert(" | "@ =~= " "@ + seq!['|'] + " "@);
    a_field_begins(p3, " | "@, " "@, " "@, '|');
    let p4 = p3 + " | "@;
    the_field_goes_on(p4, p.reference@, '|');
    let p5 = p4 + p.reference@;
    assert(" | "@ =~= " "@ + seq!['|'] + " "@);
    a_field_begins(p5, " | "@, " "@, " "@, '|');
    let p6 = p5 + " | "@;
    the_field_goes_on(p6, p.residual@, '|');
    let p7 = p6 + p.residual@;
    assert(" | "@ =~= " "@ + seq!['|'] + " "@);
    a_field_begins(p7, " | "@, " "@, " "@, '|');
    let p8 = p7 + " | "@;
    the_field_goes_on(p8, p.layer@, '|');
    let p9 = p8 + p.layer@;
    assert(" | "@ =~= " "@ + seq!['|'] + " "@);
    a_field_begins(p9, " | "@, " "@, " "@, '|');
    let p10 = p9 + " | "@;
    the_field_goes_on(p10, p.take@, '|');
    let p11 = p10 + p.take@;
    assert(" | "@ =~= " "@ + seq!['|'] + " "@);
    a_field_begins(p11, " | "@, " "@, " "@, '|');
    let p12 = p11 + " | "@;
    the_field_goes_on(p12, p.error@, '|');
    let p13 = p12 + p.error@;
    assert(" | "@ =~= " "@ + seq!['|'] + " "@);
    a_field_begins(p13, " | "@, " "@, " "@, '|');
    let p14 = p13 + " | "@;
    the_field_goes_on(p14, p.seam@, '|');
    let p15 = p14 + p.seam@;
    assert(" |\n"@ =~= " "@ + seq!['|'] + "\n"@);
    a_field_begins(p15, " |\n"@, " "@, "\n"@, '|');
    let p16 = p15 + " |\n"@;
    assert(population_row_text(p) == p16);
}

/// The cells of a `timed_row` stand in the order of its columns, one number each.
#[verifier::rlimit(30)]
pub proof fn the_cells_of_a_timed_row_stand_in_order(n: TimedNote)
    requires
        !n.at@.contains('|'),
        !n.name@.contains('|'),
        !source_text(n.recorded).contains('|'),
        !n.roughness.engine@.contains('|'),
        !n.roughness.reference@.contains('|'),
        !n.wobble.engine@.contains('|'),
        !n.wobble.reference@.contains('|'),
        !n.hf.engine@.contains('|'),
        !n.hf.reference@.contains('|'),
        !n.strike.engine@.contains('|'),
        !n.strike.reference@.contains('|'),
        !n.balance.engine@.contains('|'),
        !n.balance.reference@.contains('|'),
        !n.splitting.engine@.contains('|'),
        !n.splitting.reference@.contains('|'),
    ensures
        fields_of(timed_row_text(n), '|').len() == 11,
        fields_of(timed_row_text(n), '|')[1] == " "@ + n.at@ + " "@,
        fields_of(timed_row_text(n), '|')[2] == " "@ + n.name@ + " "@,
        fields_of(timed_row_text(n), '|')[3] == " "@ + source_text(n.recorded) + " "@,
        fields_of(timed_row_text(n), '|')[4] == " "@ + n.roughness.engine@ + "/"@ + n.roughness.reference@ + " "@,
        fields_of(timed_row_text(n), '|')[5] == " "@ + n.wobble.engine@ + "/"@ + n.wobble.reference@ + " "@,
        fields_of(timed_row_text(n), '|')[6] == " "@ + n.hf.engine@ + "/"@ + n.hf.reference@ + " "@,
        fields_of(timed_row_text(n), '|')[7] == " "@ + n.strike.engine@ + "/"@ + n.strike.reference@ + " "@,
        fields_of(timed_row_text(n), '|')[8] == " "@ + n.balance.engine@ + "/"@ + n.balance.reference@ + " "@,
        fields_of(timed_row_text(n), '|')[9] == " "@ + n.splitting.engine@ + "/"@ + n.splitting.reference@ + " "@,
{
    reveal_strlit("| ");
    reveal_strlit(" ");
    reveal_strlit(" | ");
    reveal_strlit("/");
    reveal_strlit(" |\n");
    reveal_strlit("\n");
    let p0 = "| "@;
    one_field(Seq::<char>::empty(), '|');
    one_more_field(Seq::<char>::empty(), " "@, '|');
    assert(p0 =~= Seq::<char>::empty() + seq!['|'] + " "@);
    the_field_goes_on(p0, n.at@, '|');
    let p1 = p0 + n.at@;
    assert(" | "@ =~= " "@ + seq!['|'] + " "@);
    a_field_begins(p1, " | "@, " "@, " "@, '|');
    let p2 = p1 + " | "@;
    the_field_goes_on(p2, n.name@, '|');
    let p3 = p2 + n.name@;
    assert(" | "@ =~= " "@ + seq!['|'] + " "@);
    a_field_begins(p3, " | "@, " "@, " "@, '|');
    let p4 = p3 + " | "@;
    the_field_goes_on(p4, source_text(n.recorded), '|');
    let p5 = p4 + source_text(n.recorded);
    assert(" | "@ =~= " "@ + seq!['|'] + " "@);
    a_field_begins(p5, " | "@, " "@, " "@, '|');
    let p6 = p5 + " | "@;
    the_field_goes_on(p6, n.roughness.engine@, '|');
    let p7 = p6 + n.roughness.engine@;
    the_field_goes_on(p7, "/"@, '|');
    let p8 = p7 + "/"@;
    the_field_goes_on(p8, n.roughness.reference@, '|');
    let p9 = p8 + n.roughness.reference@;
    assert(" | "@ =~= " "@ + seq!['|'] + " "@);
    a_field_begins(p9, " | "@, " "@, " "@, '|');
    let p10 = p9 + " | "@;
    the_field_goes_on(p10, n.wobble.engine@, '|');
    let p11 = p10 + n.wobble.engine@;
    the_field_goes_on(p11, "/"@, '|');
    let p12 = p11 + "/"@;
    the_field_goes_on(p12, n.wobble.reference@, '|');
    let p13 = p12 + n.wobble.reference@;
    assert(" | "@ =~= " "@ + seq!['|'] + " "@);
    a_field_begins(p13, " | "@, " "@, " "@, '|');
    let p14 = p13 + " | "@;
    the_field_goes_on(p14, n.hf.engine@, '|');
    let p15 = p14 + n.hf.engine@;
    the_field_goes_on(p15, "/"@, '|');
    let p16 = p15 + "/"@;
    the_field_goes_on(p16, n.hf.reference@, '|');
    let p17 = p16 + n.hf.reference@;
    assert(" | "@ =~= " "@ + seq!['|'] + " "@);
    a_field_begins(p17, " | "@, " "@, " "@, '|');
    let p18 = p17 + " | "@;
    the_field_goes_on(p18, n.strike.engine@, '|');
    let p19 = p18 + n.strike.engine@;
    the_field_goes_on(p19, "/"@, '|');
    let p20 = p19 + "/"@;
    the_field_goes_on(p20, n.strike.reference@, '|');
    let p21 = p20 + n.strike.reference@;
    assert(" | "@ =~= " "@ + seq!['|'] + " "@);
    a_field_begins(p21, " | "@, " "@, " "@, '|');
    let p22 = p21 + " | "@;
    the_field_goes_on(p22, n.balance.engine@, '|');
    let p23 = p22 + n.balance.engine@;
    the_field_goes_on(p23, "/"@, '|');
    let p24 = p23 + "/"@;
    the_field_goes_on(p24, n.balance.reference@, '|');
    let p25 = p24 + n.balance.reference@;
    assert(" | "@ =~= " "@ + seq!['|'] + " "@);
    a_field_begins(p25, " | "@, " "@, " "@, '|');
    let p26 = p25 + " | "@;
    the_field_goes_on(p26, n.splitting.engine@, '|');
    let p27 = p26 + n.splitting.engine@;
    the_field_goes_on(p27, "/"@, '|');
    let p28 = p27 + "/"@;
    the_field_goes_on(p28, n.splitting.reference@, '|');
    let p29 = p28 + n.splitting.reference@;
    assert(" |\n"@ =~= " "@ + seq!['|'] + "\n"@);
    a_field_begins(p29, " |\n"@, " "@, "\n"@, '|');
    let p30 = p29 + " |\n"@;
    assert(timed_row_text(n) == p30);
}

/// What the columns of the table under [`SEAM_HEADING_1`] are named, in order.
#[verifier::rlimit(80)]
#[verifier::spinoff_prover]
pub proof fn the_columns_of_seam_heading_1_are_named()
    ensures
        fields_of(SEAM_HEADING_1@, '|').len() == 21,
        fields_of(SEAM_HEADING_1@, '|')[1] == " metric "@,
        fields_of(SEAM_HEADING_1@, '|')[2] == " window "@,
        fields_of(SEAM_HEADING_1@, '|')[3] == " seam "@,
        fields_of(SEAM_HEADING_1@, '|')[4] == " at "@,
        fields_of(SEAM_HEADING_1@, '|')[5] == " bar "@,
        fields_of(SEAM_HEADING_1@, '|')[6] == " two layers of one key "@,
        fields_of(SEAM_HEADING_1@, '|')[7] == " the register's own "@,
        fields_of(SEAM_HEADING_1@, '|')[8] == " median (ungated) "@,
        fields_of(SEAM_HEADING_1@, '|')[9] == " verdict "@,
{
    reveal_strlit(".\n\n");
    reveal_strlit(" metric ");
    reveal_strlit(" window ");
    reveal_strlit(" seam ");
    reveal_strlit(" at ");
    reveal_strlit(" bar ");
    reveal_strlit(" two layers of one key ");
    reveal_strlit(" the register's own ");
    reveal_strlit(" median (ungated) ");
    reveal_strlit(" verdict ");
    reveal_strlit("\n");
    reveal_strlit("---");
    reveal_strlit("--:");
    reveal_strlit(".\n\n| metric | window | seam | at | bar | two layers of one key | the register's own | median (ungated) | verdict |\n|---|---|--:|---|--:|--:|--:|--:|---|\n");
    let h0 = ".\n\n"@;
    one_field(h0, '|');
    one_more_field(h0, " metric "@, '|');
    let h1 = h0 + seq!['|'] + " metric "@;
    one_more_field(h1, " window "@, '|');
    let h2 = h1 + seq!['|'] + " window "@;
    one_more_field(h2, " seam "@, '|');
    let h3 = h2 + seq!['|'] + " seam "@;
    one_more_field(h3, " at "@, '|');
    let h4 = h3 + seq!['|'] + " at "@;
    one_more_field(h4, " bar "@, '|');
    let h5 = h4 + seq!['|'] + " bar "@;
    one_more_field(h5, " two layers of one key "@, '|');
    let h6 = h5 + seq!['|'] + " two layers of one key "@;
    one_more_field(h6, " the register's own "@, '|');
    let h7 = h6 + seq!['|'] + " the register's own "@;
    one_more_field(h7, " median (ungated) "@, '|');
    let h8 = h7 + seq!['|'] + " median (ungated) "@;
    one_more_field(h8, " verdict "@, '|');
    let h9 = h8 + seq!['|'] + " verdict "@;
    one_more_field(h9, "\n"@, '|');
    let h10 = h9 + seq!['|'] + "\n"@;
    one_more_field(h10, "---"@, '|');
    let h11 = h10 + seq!['|'] + "---"@;
    one_more_field(h11, "---"@, '|');
    let h12 = h11 + seq!['|'] + "---"@;
    one_more_field(h12, "--:"@, '|');
    let h13 = h12 + seq!['|'] + "--:"@;
    one_more_field(h13, "---"@, '|');
    let h14 = h13 + seq!['|'] + "---"@;
    one_more_field(h14, "--:"@, '|');
    let h15 = h14 + seq!['|'] + "--:"@;
    one_more_field(h15, "--:"@, '|');
    let h16 = h15 + seq!['|'] + "--:"@;
    one_more_field(h16, "--:"@, '|');
    let h17 = h16 + seq!['|'] + "--:"@;
    one_more_field(h17, "--:"@, '|');
    let h18 = h17 + seq!['|'] + "--:"@;
    one_more_field(h18, "---"@, '|');
    let h19 = h18 + seq!['|'] + "---"@;
    one_more_field(h19, "\n"@, '|');
    let h20 = h19 + seq!['|'] + "\n"@;
    assert(SEAM_HEADING_1@ =~= h20);
}

/// What the columns of the table under [`POPULATION_HEADING`] are named, in order.
#[verifier::rlimit(80)]
#[verifier::spinoff_prover]
pub proof fn the_columns_of_population_heading_are_named()
    ensures
        fields_of(POPULATION_HEADING@, '|').len() == 19,
        fields_of(POPULATION_HEADING@, '|')[1] == " key "@,
        fields_of(POPULATION_HEADING@, '|')[2] == " e "@,
        fields_of(POPULATION_HEADING@, '|')[3] == " r "@,
        fields_of(POPULATION_HEADING@, '|')[4] == " r resid "@,
        fields_of(POPULATION_HEADING@, '|')[5] == " l "@,
        fields_of(POPULATION_HEADING@, '|')[6] == " take "@,
        fields_of(POPULATION_HEADING@, '|')[7] == " error "@,
        fields_of(POPULATION_HEADING@, '|')[8] == " seam "@,
{
    reveal_strlit("\nThe recorded keys of the register, which is where this column's bar comes from:\n\n");
    reveal_strlit(" key ");
    reveal_strlit(" e ");
    reveal_strlit(" r ");
    reveal_strlit(" r resid ");
    reveal_strlit(" l ");
    reveal_strlit(" take ");
    reveal_strlit(" error ");
    reveal_strlit(" seam ");
    reveal_strlit("\n");
    reveal_strlit("---");
    reveal_strlit("--:");
    reveal_strlit("\nThe recorded keys of the register, which is where this column's bar comes from:\n\n| key | e | r | r resid | l | take | error | seam |\n|---|--:|--:|--:|--:|--:|--:|--:|\n");
    let h0 = "\nThe recorded keys of the register, which is where this column's bar comes from:\n\n"@;
    one_field(h0, '|');
    one_more_field(h0, " key "@, '|');
    let h1 = h0 + seq!['|'] + " key "@;
    one_more_field(h1, " e "@, '|');
    let h2 = h1 + seq!['|'] + " e "@;
    one_more_field(h2, " r "@, '|');
    let h3 = h2 + seq!['|'] + " r "@;
    one_more_field(h3, " r resid "@, '|');
    let h4 = h3 + seq!['|'] + " r resid "@;
    one_more_field(h4, " l "@, '|');
    let h5 = h4 + seq!['|'] + " l "@;
    one_more_field(h5, " take "@, '|');
    let h6 = h5 + seq!['|'] + " take "@;
    one_more_field(h6, " error "@, '|');
    let h7 = h6 + seq!['|'] + " error "@;
    one_more_field(h7, " seam "@, '|');
    let h8 = h7 + seq!['|'] + " seam "@;
    one_more_field(h8, "\n"@, '|');
    let h9 = h8 + seq!['|'] + "\n"@;
    one_more_field(h9, "---"@, '|');
    let h10 = h9 + seq!['|'] + "---"@;
    one_more_field(h10, "--:"@, '|');
    let h11 = h10 + seq!['|'] + "--:"@;
    one_more_field(h11, "--:"@, '|');
    let h12 = h11 + seq!['|'] + "--:"@;
    one_more_field(h12, "--:"@, '|');
    let h13 = h12 + seq!['|'] + "--:"@;
    one_more_field(h13, "--:"@, '|');
    let h14 = h13 + seq!['|'] + "--:"@;
    one_more_field(h14, "--:"@, '|');
    let h15 = h14 + seq!['|'] + "--:"@;
    one_more_field(h15, "--:"@, '|');
    let h16 = h15 + seq!['|'] + "--:"@;
    one_more_field(h16, "--:"@, '|');
    let h17 = h16 + seq!['|'] + "--:"@;
    one_more_field(h17, "\n"@, '|');
    let h18 = h17 + seq!['|'] + "\n"@;
    assert(POPULATION_HEADING@ =~= h18);
}

/// What the columns of the table under [`PITCH_HEADING_0`] are named, in order.
#[verifier::rlimit(80)]
#[verifier::spinoff_prover]
pub proof fn the_columns_of_pitch_heading_0_are_named()
    ensures
        fields_of(PITCH_HEADING_0@, '|').len() == 17,
        fields_of(PITCH_HEADING_0@, '|')[1] == " key "@,
        fields_of(PITCH_HEADING_0@, '|')[2] == " source "@,
        fields_of(PITCH_HEADING_0@, '|')[3] == " e "@,
        fields_of(PITCH_HEADING_0@, '|')[4] == " r "@,
        fields_of(PITCH_HEADING_0@, '|')[5] == " l "@,
        fields_of(PITCH_HEADING_0@, '|')[6] == " e resid "@,
        fields_of(PITCH_HEADING_0@, '|')[7] == " error "@,
{
    reveal_strlit("` window\n\n");
    reveal_strlit(" key ");
    reveal_strlit(" source ");
    reveal_strlit(" e ");
    reveal_strlit(" r ");
    reveal_strlit(" l ");
    reveal_strlit(" e resid ");
    reveal_strlit(" error ");
    reveal_strlit("\n");
    reveal_strlit("---");
    reveal_strlit("--:");
    reveal_strlit("` window\n\n| key | source | e | r | l | e resid | error |\n|---|---|--:|--:|--:|--:|--:|\n");
    let h0 = "` window\n\n"@;
    one_field(h0, '|');
    one_more_field(h0, " key "@, '|');
    let h1 = h0 + seq!['|'] + " key "@;
    one_more_field(h1, " source "@, '|');
    let h2 = h1 + seq!['|'] + " source "@;
    one_more_field(h2, " e "@, '|');
    let h3 = h2 + seq!['|'] + " e "@;
    one_more_field(h3, " r "@, '|');
    let h4 = h3 + seq!['|'] + " r "@;
    one_more_field(h4, " l "@, '|');
    let h5 = h4 + seq!['|'] + " l "@;
    one_more_field(h5, " e resid "@, '|');
    let h6 = h5 + seq!['|'] + " e resid "@;
    one_more_field(h6, " error "@, '|');
    let h7 = h6 + seq!['|'] + " error "@;
    one_more_field(h7, "\n"@, '|');
    let h8 = h7 + seq!['|'] + "\n"@;
    one_more_field(h8, "---"@, '|');
    let h9 = h8 + seq!['|'] + "---"@;
    one_more_field(h9, "---"@, '|');
    let h10 = h9 + seq!['|'] + "---"@;
    one_more_field(h10, "--:"@, '|');
    let h11 = h10 + seq!['|'] + "--:"@;
    one_more_field(h11, "--:"@, '|');
    let h12 = h11 + seq!['|'] + "--:"@;
    one_more_field(h12, "--:"@, '|');
    let h13 = h12 + seq!['|'] + "--:"@;
    one_more_field(h13, "--:"@, '|');
    let h14 = h13 + seq!['|'] + "--:"@;
    one_more_field(h14, "--:"@, '|');
    let h15 = h14 + seq!['|'] + "--:"@;
    one_more_field(h15, "\n"@, '|');
    let h16 = h15 + seq!['|'] + "\n"@;
    assert(PITCH_HEADING_0@ =~= h16);
}

/// What the columns of the table under [`TIMED_HEADING_0`] are named, in order.
#[verifier::rlimit(80)]
#[verifier::spinoff_prover]
pub proof fn the_columns_of_timed_heading_0_are_named()
    ensures
        fields_of(TIMED_HEADING_0@, '|').len() == 21,
        fields_of(TIMED_HEADING_0@, '|')[1] == " at "@,
        fields_of(TIMED_HEADING_0@, '|')[2] == " key "@,
        fields_of(TIMED_HEADING_0@, '|')[3] == " source "@,
        fields_of(TIMED_HEADING_0@, '|')[4] == " roughness e/r "@,
        fields_of(TIMED_HEADING_0@, '|')[5] == " wobble e/r "@,
        fields_of(TIMED_HEADING_0@, '|')[6] == " hf e/r "@,
        fields_of(TIMED_HEADING_0@, '|')[7] == " strike e/r "@,
        fields_of(TIMED_HEADING_0@, '|')[8] == " balance e/r "@,
        fields_of(TIMED_HEADING_0@, '|')[9] == " splitting e/r "@,
{
    reveal_strlit("` window, in time order\n\n");
    reveal_strlit(" at ");
    reveal_strlit(" key ");
    reveal_strlit(" source ");
    reveal_strlit(" roughness e/r ");
    reveal_strlit(" wobble e/r ");
    reveal_strlit(" hf e/r ");
    reveal_strlit(" strike e/r ");
    reveal_strlit(" balance e/r ");
    reveal_strlit(" splitting e/r ");
    reveal_strlit("\n");
    reveal_strlit("--:");
    reveal_strlit("---");
    reveal_strlit("` window, in time order\n\n| at | key | source | roughness e/r | wobble e/r | hf e/r | strike e/r | balance e/r | splitting e/r |\n|--:|---|---|--:|--:|--:|--:|--:|--:|\n");
    let h0 = "` window, in time order\n\n"@;
    one_field(h0, '|');
    one_more_field(h0, " at "@, '|');
    let h1 = h0 + seq!['|'] + " at "@;
    one_more_field(h1, " key "@, '|');
    let h2 = h1 + seq!['|'] + " key "@;
    one_more_field(h2, " source "@, '|');
    let h3 = h2 + seq!['|'] + " source "@;
    one_more_field(h3, " roughness e/r "@, '|');
    let h4 = h3 + seq!['|'] + " roughness e/r "@;
    one_more_field(h4, " wobble e/r "@, '|');
    let h5 = h4 + seq!['|'] + " wobble e/r "@;
    one_more_field(h5, " hf e/r "@, '|');
    let h6 = h5 + seq!['|'] + " hf e/r "@;
    one_more_field(h6, " strike e/r "@, '|');
    let h7 = h6 + seq!['|'] + " strike e/r "@;
    one_more_field(h7, " balance e/r "@, '|');
    let h8 = h7 + seq!['|'] + " balance e/r "@;
    one_more_field(h8, " splitting e/r "@, '|');
    let h9 = h8 + seq!['|'] + " splitting e/r "@;
    one_more_field(h9, "\n"@, '|');
    let h10 = h9 + seq!['|'] + "\n"@;
    one_more_field(h10, "--:"@, '|');
    let h11 = h10 + seq!['|'] + "--:"@;
    one_more_field(h11, "---"@, '|');
    let h12 = h11 + seq!['|'] + "---"@;
    one_more_field(h12, "---"@, '|');
    let h13 = h12 + seq!['|'] + "---"@;
    one_more_field(h13, "--:"@, '|');
    let h14 = h13 + seq!['|'] + "--:"@;
    one_more_field(h14, "--:"@, '|');
    let h15 = h14 + seq!['|'] + "--:"@;
    one_more_field(h15, "--:"@, '|');
    let h16 = h15 + seq!['|'] + "--:"@;
    one_more_field(h16, "--:"@, '|');
    let h17 = h16 + seq!['|'] + "--:"@;
    one_more_field(h17, "--:"@, '|');
    let h18 = h17 + seq!['|'] + "--:"@;
    one_more_field(h18, "--:"@, '|');
    let h19 = h18 + seq!['|'] + "--:"@;
    one_more_field(h19, "\n"@, '|');
    let h20 = h19 + seq!['|'] + "\n"@;
    assert(TIMED_HEADING_0@ =~= h20);
}

/// The `provenance_rows` are printed one after another, in their order.
pub proof fn the_provenance_rows_follow_each_other(a: Seq<Provenance>, b: Seq<Provenance>)
    ensures
        provenance_rows_text(a + b) == provenance_rows_text(a) + provenance_rows_text(b),
        a.len() == 1 ==> provenance_rows_text(a) == provenance_row_text(a[0]),
        provenance_rows_text(Seq::<Provenance>::empty()).len() == 0,
    decreases b.len(),
{
    if a.len() == 1 {
        assert(a.drop_last() =~= Seq::<Provenance>::empty());
        assert(provenance_rows_text(a.drop_last()) =~= Seq::<char>::empty());
        assert(provenance_rows_text(a) =~= provenance_row_text(a[0]));
    }
    if b.len() == 0 {
        assert(a + b =~= a);
        assert(provenance_rows_text(a) + provenance_rows_text(b) =~= provenance_rows_text(a));
    } else {
        the_provenance_rows_follow_each_other(a, b.drop_last());
        assert((a + b).drop_last() =~= a + b.drop_last());
        assert((a + b).last() == b.last());
        assert(provenance_rows_text(a) + provenance_rows_text(b.drop_last()) + provenance_row_text(b.last()) =~= provenance_rows_text(a) + (provenance_rows_text(
            b.drop_last(),
        ) + provenance_row_text(b.last())));
    }
}

/// The `spread_rows` are printed one after another, in their order.
pub proof fn the_spread_rows_follow_each_other(a: Seq<Column>, b: Seq<Column>)
    ensures
        spread_rows_text(a + b) == spread_rows_text(a) + spread_rows_text(b),
        a.len() == 1 ==> spread_rows_text(a) == spread_row_text(a[0]),
        spread_rows_text(Seq::<Column>::empty()).len() == 0,
    decreases b.len(),
{
    if a.len() == 1 {
        assert(a.drop_last() =~= Seq::<Column>::empty());
        assert(spread_rows_text(a.drop_last()) =~= Seq::<char>::empty());
        assert(spread_rows_text(a) =~= spread_row_text(a[0]));
    }
    if b.len() == 0 {
        assert(a + b =~= a);
        assert(spread_rows_text(a) + spread_rows_text(b) =~= spread_rows_text(a));
    } else {
        the_spread_rows_follow_each_other(a, b.drop_last());
        assert((a + b).drop_last() =~= a + b.drop_last());
        assert((a + b).last() == b.last());
        assert(spread_rows_text(a) + spread_rows_text(b.drop_last()) + spread_row_text(b.last()) =~= spread_rows_text(a) + (spread_rows_text(
            b.drop_last(),
        ) + spread_row_text(b.last())));
    }
}

/// The `balance_rows` are printed one after another, in their order.
pub proof fn the_balance_rows_follow_each_other(a: Seq<Column>, b: Seq<Column>)
    ensures
        balance_rows_text(a + b) == balance_rows_text(a) + balance_rows_text(b),
        a.len() == 1 ==> balance_rows_text(a) == balance_row_text(a[0]),
        balance_rows_text(Seq::<Column>::empty()).len() == 0,
    decreases b.len(),
{
    if a.len() == 1 {
        assert(a.drop_last() =~= Seq::<Column>::empty());
        assert(balance_rows_text(a.drop_last()) =~= Seq::<char>::empty());
        assert(balance_rows_text(a) =~= balance_row_text(a[0]));
    }
    if b.len() == 0 {
        assert(a + b =~= a);
        assert(balance_rows_text(a) + balance_rows_text(b) =~= balance_rows_text(a));
    } else {
        the_balance_rows_follow_each_other(a, b.drop_last());
        assert((a + b).drop_last() =~= a + b.drop_last());
        assert((a + b).last() == b.last());
        assert(balance_rows_text(a) + balance_rows_text(b.drop_last()) + balance_row_text(b.last()) =~= balance_rows_text(a) + (balance_rows_text(
            b.drop_last(),
        ) + balance_row_text(b.last())));
    }
}

/// The `seam_rows` are printed one after another, in their order.
pub proof fn the_seam_rows_follow_each_other(a: Seq<Column>, b: Seq<Column>)
    ensures
        seam_rows_text(a + b) == seam_rows_text(a) + seam_rows_text(b),
        a.len() == 1 ==> seam_rows_text(a) == seam_row_text(a[0]),
        seam_rows_text(Seq::<Column>::empty()).len() == 0,
    decreases b.len(),
{
    if a.len() == 1 {
        assert(a.drop_last() =~= Seq::<Column>::empty());
        assert(seam_rows_text(a.drop_last()) =~= Seq::<char>::empty());
        assert(seam_rows_text(a) =~= seam_row_text(a[0]));
    }
    if b.len() == 0 {
        assert(a + b =~= a);
        assert(seam_rows_text(a) + seam_rows_text(b) =~= seam_rows_text(a));
    } else {
        the_seam_rows_follow_each_other(a, b.drop_last());
        assert((a + b).drop_last() =~= a + b.drop_last());
        assert((a + b).last() == b.last());
        assert(seam_rows_text(a) + seam_rows_text(b.drop_last()) + seam_row_text(b.last()) =~= seam_rows_text(a) + (seam_rows_text(
            b.drop_last(),
        ) + seam_row_text(b.last())));
    }
}

/// The `clone_rows` are printed one after another, in their order.
pub proof fn the_clone_rows_follow_each_other(a: Seq<Column>, b: Seq<Column>)
    ensures
        clone_rows_text(a + b) == clone_rows_text(a) + clone_rows_text(b),
        a.len() == 1 ==> clone_rows_text(a) == clone_row_text(a[0]),
        clone_rows_text(Seq::<Column>::empty()).len() == 0,
    decreases b.len(),
{
    if a.len() == 1 {
        assert(a.drop_last() =~= Seq::<Column>::empty());
        assert(clone_rows_text(a.drop_last()) =~= Seq::<char>::empty());
        assert(clone_rows_text(a) =~= clone_row_text(a[0]));
    }
    if b.len() == 0 {
        assert(a + b =~= a);
        assert(clone_rows_text(a) + clone_rows_text(b) =~= clone_rows_text(a));
    } else {
        the_clone_rows_follow_each_other(a, b.drop_last());
        assert((a + b).drop_last() =~= a + b.drop_last());
        assert((a + b).last() == b.last());
        assert(clone_rows_text(a) + clone_rows_text(b.drop_last()) + clone_row_text(b.last()) =~= clone_rows_text(a) + (clone_rows_text(
            b.drop_last(),
        ) + clone_row_text(b.last())));
    }
}

/// The `name_cells` are printed one after another, in their order.
pub proof fn the_name_cells_follow_each_other(a: Seq<NoteScore>, b: Seq<NoteScore>)
    ensures
        name_cells_text(a + b) == name_cells_text(a) + name_cells_text(b),
        a.len() == 1 ==> name_cells_text(a) == name_cell_text(a[0]),
        name_cells_text(Seq::<NoteScore>::empty()).len() == 0,
    decreases b.len(),
{
    if a.len() == 1 {
        assert(a.drop_last() =~= Seq::<NoteScore>::empty());
        assert(name_cells_text(a.drop_last()) =~= Seq::<char>::empty());
        assert(name_cells_text(a) =~= name_cell_text(a[0]));
    }
    if b.len() == 0 {
        assert(a + b =~= a);
        assert(name_cells_text(a) + name_cells_text(b) =~= name_cells_text(a));
    } else {
        the_name_cells_follow_each_other(a, b.drop_last());
        assert((a + b).drop_last() =~= a + b.drop_last());
        assert((a + b).last() == b.last());
        assert(name_cells_text(a) + name_cells_text(b.drop_last()) + name_cell_text(b.last()) =~= name_cells_text(a) + (name_cells_text(
            b.drop_last(),
        ) + name_cell_text(b.last())));
    }
}

/// The `rule_cells` are printed one after another, in their order.
pub proof fn the_rule_cells_follow_each_other(a: Seq<NoteScore>, b: Seq<NoteScore>)
    ensures
        rule_cells_text(a + b) == rule_cells_text(a) + rule_cells_text(b),
        a.len() == 1 ==> rule_cells_text(a) == rule_cell_text(a[0]),
        rule_cells_text(Seq::<NoteScore>::empty()).len() == 0,
    decreases b.len(),
{
    if a.len() == 1 {
        assert(a.drop_last() =~= Seq::<NoteScore>::empty());
        assert(rule_cells_text(a.drop_last()) =~= Seq::<char>::empty());
        assert(rule_cells_text(a) =~= rule_cell_text(a[0]));
    }
    if b.len() == 0 {
        assert(a + b =~= a);
        assert(rule_cells_text(a) + rule_cells_text(b) =~= rule_cells_text(a));
    } else {
        the_rule_cells_follow_each_other(a, b.drop_last());
        assert((a + b).drop_last() =~= a + b.drop_last());
        assert((a + b).last() == b.last());
        assert(rule_cells_text(a) + rule_cells_text(b.drop_last()) + rule_cell_text(b.last()) =~= rule_cells_text(a) + (rule_cells_text(
            b.drop_last(),
        ) + rule_cell_text(b.last())));
    }
}

/// The `pitch_rows` are printed one after another, in their order.
pub proof fn the_pitch_rows_follow_each_other(a: Seq<NoteScore>, b: Seq<NoteScore>)
    ensures
        pitch_rows_text(a + b) == pitch_rows_text(a) + pitch_rows_text(b),
        a.len() == 1 ==> pitch_rows_text(a) == pitch_row_text(a[0]),
        pitch_rows_text(Seq::<NoteScore>::empty()).len() == 0,
    decreases b.len(),
{
    if a.len() == 1 {
        assert(a.drop_last() =~= Seq::<NoteScore>::empty());
        assert(pitch_rows_text(a.drop_last()) =~= Seq::<char>::empty());
        assert(pitch_rows_text(a) =~= pitch_row_text(a[0]));
    }
    if b.len() == 0 {
        assert(a + b =~= a);
        assert(pitch_rows_text(a) + pitch_rows_text(b) =~= pitch_rows_text(a));
    } else {
        the_pitch_rows_follow_each_other(a, b.drop_last());
        assert((a + b).drop_last() =~= a + b.drop_last());
        assert((a + b).last() == b.last());
        assert(pitch_rows_text(a) + pitch_rows_text(b.drop_last()) + pitch_row_text(b.last()) =~= pitch_rows_text(a) + (pitch_rows_text(
            b.drop_last(),
        ) + pitch_row_text(b.last())));
    }
}

/// The `population_rows` are printed one after another, in their order.
pub proof fn the_population_rows_follow_each_other(a: Seq<PopulationRow>, b: Seq<PopulationRow>)
    ensures
        population_rows_text(a + b) == population_rows_text(a) + population_rows_text(b),
        a.len() == 1 ==> population_rows_text(a) == population_row_text(a[0]),
        population_rows_text(Seq::<PopulationRow>::empty()).len() == 0,
    decreases b.len(),
{
    if a.len() == 1 {
        assert(a.drop_last() =~= Seq::<PopulationRow>::empty());
        assert(population_rows_text(a.drop_last()) =~= Seq::<char>::empty());
        assert(population_rows_text(a) =~= population_row_text(a[0]));
    }
    if b.len() == 0 {
        assert(a + b =~= a);
        assert(population_rows_text(a) + population_rows_text(b) =~= population_rows_text(a));
    } else {
        the_population_rows_follow_each_other(a, b.drop_last());
        assert((a + b).drop_last() =~= a + b.drop_last());
        assert((a + b).last() == b.last());
        assert(population_rows_text(a) + population_rows_text(b.drop_last()) + population_row_text(b.last()) =~= population_rows_text(a) + (population_rows_text(
            b.drop_last(),
        ) + population_row_text(b.last())));
    }
}

/// The `pitch_sections` are printed one after another, in their order.
pub proof fn the_pitch_sections_follow_each_other(a: Seq<Column>, b: Seq<Column>)
    ensures
        pitch_sections_text(a + b) == pitch_sections_text(a) + pitch_sections_text(b),
        a.len() == 1 ==> pitch_sections_text(a) == pitch_section_text(a[0]),
        pitch_sections_text(Seq::<Column>::empty()).len() == 0,
    decreases b.len(),
{
    if a.len() == 1 {
        assert(a.drop_last() =~= Seq::<Column>::empty());
        assert(pitch_sections_text(a.drop_last()) =~= Seq::<char>::empty());
        assert(pitch_sections_text(a) =~= pitch_section_text(a[0]));
    }
    if b.len() == 0 {
        assert(a + b =~= a);
        assert(pitch_sections_text(a) + pitch_sections_text(b) =~= pitch_sections_text(a));
    } else {
        the_pitch_sections_follow_each_other(a, b.drop_last());
        assert((a + b).drop_last() =~= a + b.drop_last());
        assert((a + b).last() == b.last());
        assert(pitch_sections_text(a) + pitch_sections_text(b.drop_last()) + pitch_section_text(b.last()) =~= pitch_sections_text(a) + (pitch_sections_text(
            b.drop_last(),
        ) + pitch_section_text(b.last())));
    }
}

/// The `timed_rows` are printed one after another, in their order.
pub proof fn the_timed_rows_follow_each_other(a: Seq<TimedNote>, b: Seq<TimedNote>)
    ensures
        timed_rows_text(a + b) == timed_rows_text(a) + timed_rows_text(b),
        a.len() == 1 ==> timed_rows_text(a) == timed_row_text(a[0]),
        timed_rows_text(Seq::<TimedNote>::empty()).len() == 0,
    decreases b.len(),
{
    if a.len() == 1 {
        assert(a.drop_last() =~= Seq::<TimedNote>::empty());
        assert(timed_rows_text(a.drop_last()) =~= Seq::<char>::empty());
        assert(timed_rows_text(a) =~= timed_row_text(a[0]));
    }
    if b.len() == 0 {
        assert(a + b =~= a);
        assert(timed_rows_text(a) + timed_rows_text(b) =~= timed_rows_text(a));
    } else {
        the_timed_rows_follow_each_other(a, b.drop_last());
        assert((a + b).drop_last() =~= a + b.drop_last());
        assert((a + b).last() == b.last());
        assert(timed_rows_text(a) + timed_rows_text(b.drop_last()) + timed_row_text(b.last()) =~= timed_rows_text(a) + (timed_rows_text(
            b.drop_last(),
        ) + timed_row_text(b.last())));
    }
}

/// Each number of `image_close` stands in its place among the words.
#[verifier::rlimit(30)]
pub proof fn the_words_of_image_close_stand_in_order(c: Column)
    requires
        is_word(c.balance@),
        is_word(c.balance_bar@),
        is_word(pass_text(c.balance_pass)),
        is_word(c.standout@),
        is_word(c.standout_at@),
        is_word(c.bar@),
        is_word(pass_text(c.spread_pass)),
    ensures
        words_of(image_close_text(c)).len() == 20,
        words_of(image_close_text(c))[1] == "**"@ + c.balance@ + "**"@,
        words_of(image_close_text(c))[6] == c.balance_bar@,
        words_of(image_close_text(c))[8] == pass_text(c.balance_pass) + ";"@,
        words_of(image_close_text(c))[13] == c.standout@,
        words_of(image_close_text(c))[15] == c.standout_at@,
        words_of(image_close_text(c))[17] == c.bar@,
        words_of(image_close_text(c))[19] == pass_text(c.spread_pass) + "."@,
{
    reveal_strlit("\nbalance **");
    reveal_strlit("\n");
    reveal_strlit("balance");
    reveal_strlit(" ");
    reveal_strlit("**");
    reveal_strlit("** against a bar of ");
    reveal_strlit("against");
    reveal_strlit("a");
    reveal_strlit("bar");
    reveal_strlit("of");
    reveal_strlit(" — ");
    reveal_strlit("—");
    reveal_strlit("; the line's own spread ");
    reveal_strlit(";");
    reveal_strlit("the");
    reveal_strlit("line's");
    reveal_strlit("own");
    reveal_strlit("spread");
    reveal_strlit(" at ");
    reveal_strlit("at");
    reveal_strlit(" against ");
    reveal_strlit(".\n");
    reveal_strlit(".");
    let p0 = "\nbalance **"@;
    a_gap_adds_nothing(Seq::<char>::empty(), "\n"@);
    a_word_begins(Seq::<char>::empty() + "\n"@, "balance"@);
    a_gap_adds_nothing(Seq::<char>::empty() + "\n"@ + "balance"@, " "@);
    a_word_begins(Seq::<char>::empty() + "\n"@ + "balance"@ + " "@, "**"@);
    assert(p0 =~= Seq::<char>::empty() + "\n"@ + "balance"@ + " "@ + "**"@);
    a_word_goes_on(p0, c.balance@);
    let p1 = p0 + c.balance@;
    a_word_goes_on(p1, "**"@);
    a_gap_adds_nothing(p1 + "**"@, " "@);
    a_word_begins(p1 + "**"@ + " "@, "against"@);
    a_gap_adds_nothing(p1 + "**"@ + " "@ + "against"@, " "@);
    a_word_begins(p1 + "**"@ + " "@ + "against"@ + " "@, "a"@);
    a_gap_adds_nothing(p1 + "**"@ + " "@ + "against"@ + " "@ + "a"@, " "@);
    a_word_begins(p1 + "**"@ + " "@ + "against"@ + " "@ + "a"@ + " "@, "bar"@);
    a_gap_adds_nothing(p1 + "**"@ + " "@ + "against"@ + " "@ + "a"@ + " "@ + "bar"@, " "@);
    a_word_begins(p1 + "**"@ + " "@ + "against"@ + " "@ + "a"@ + " "@ + "bar"@ + " "@, "of"@);
    a_gap_adds_nothing(p1 + "**"@ + " "@ + "against"@ + " "@ + "a"@ + " "@ + "bar"@ + " "@ + "of"@, " "@);
    let p2 = p1 + "** against a bar of "@;
    assert(p2 =~= p1 + "**"@ + " "@ + "against"@ + " "@ + "a"@ + " "@ + "bar"@ + " "@ + "of"@ + " "@);
    a_word_begins(p2, c.balance_bar@);
    let p3 = p2 + c.balance_bar@;
    a_gap_adds_nothing(p3, " "@);
    a_word_begins(p3 + " "@, "—"@);
    a_gap_adds_nothing(p3 + " "@ + "—"@, " "@);
    let p4 = p3 + " — "@;
    assert(p4 =~= p3 + " "@ + "—"@ + " "@);
    a_word_begins(p4, pass_text(c.balance_pass));
    let p5 = p4 + pass_text(c.balance_pass);
    a_word_goes_on(p5, ";"@);
    a_gap_adds_nothing(p5 + ";"@, " "@);
    a_word_begins(p5 + ";"@ + " "@, "the"@);
    a_gap_adds_nothing(p5 + ";"@ + " "@ + "the"@, " "@);
    a_word_begins(p5 + ";"@ + " "@ + "the"@ + " "@, "line's"@);
    a_gap_adds_nothing(p5 + ";"@ + " "@ + "the"@ + " "@ + "line's"@, " "@);
    a_word_begins(p5 + ";"@ + " "@ + "the"@ + " "@ + "line's"@ + " "@, "own"@);
    a_gap_adds_nothing(p5 + ";"@ + " "@ + "the"@ + " "@ + "line's"@ + " "@ + "own"@, " "@);
    a_word_begins(p5 + ";"@ + " "@ + "the"@ + " "@ + "line's"@ + " "@ + "own"@ + " "@, "spread"@);
    a_gap_adds_nothing(p5 + ";"@ + " "@ + "the"@ + " "@ + "line's"@ + " "@ + "own"@ + " "@ + "spread"@, " "@);
    let p6 = p5 + "; the line's own spread "@;
    assert(p6 =~= p5 + ";"@ + " "@ + "the"@ + " "@ + "line's"@ + " "@ + "own"@ + " "@ + "spread"@ + " "@);
    a_word_begins(p6, c.standout@);
    let p7 = p6 + c.standout@;
    a_gap_adds_nothing(p7, " "@);
    a_word_begins(p7 + " "@, "at"@);
    a_gap_adds_nothing(p7 + " "@ + "at"@, " "@);
    let p8 = p7 + " at "@;
    assert(p8 =~= p7 + " "@ + "at"@ + " "@);
    a_word_begins(p8, c.standout_at@);
    let p9 = p8 + c.standout_at@;
    a_gap_adds_nothing(p9, " "@);
    a_word_begins(p9 + " "@, "against"@);
    a_gap_adds_nothing(p9 + " "@ + "against"@, " "@);
    let p10 = p9 + " against "@;
    assert(p10 =~= p9 + " "@ + "against"@ + " "@);
    a_word_begins(p10, c.bar@);
    let p11 = p10 + c.bar@;
    a_gap_adds_nothing(p11, " "@);
    a_word_begins(p11 + " "@, "—"@);
    a_gap_adds_nothing(p11 + " "@ + "—"@, " "@);
    let p12 = p11 + " — "@;
    assert(p12 =~= p11 + " "@ + "—"@ + " "@);
    a_word_begins(p12, pass_text(c.spread_pass));
    let p13 = p12 + pass_text(c.spread_pass);
    a_word_goes_on(p13, "."@);
    a_gap_adds_nothing(p13 + "."@, "\n"@);
    let p14 = p13 + ".\n"@;
    assert(p14 =~= p13 + "."@ + "\n"@);
    assert(image_close_text(c) == p14);
}

} // verus!
