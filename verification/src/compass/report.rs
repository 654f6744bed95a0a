//! The report on the compass.

use crate::compass::{metric_name, metric_text, METRICS};
use crate::keys::{different, how_many, name_of, note_name};
use crate::text::{decimal, or_dash, or_dash_text, print, push_right, right_in};
use crate::words::{a_field_begins, a_gap_adds_nothing, a_number_is_a_word, a_word_begins, a_word_goes_on, digits_alone, fields_of, is_word, one_field, one_more_field, the_field_goes_on, words_of};
use vstd::prelude::*;

verus! {

/// One number of one key that stands out, as it is printed.
pub struct FlagRow {
    pub key: u8,
    pub unison: usize,
    pub sampled: bool,
    pub metric: usize,
    pub z: String,
    pub engine: String,
    pub neighbours: String,
    pub recording: String,
}

/// A number of the engine's and one of the recording's, where they were read.
pub struct Pair {
    pub engine: Option<String>,
    pub reference: Option<String>,
}

/// One key, as it is printed: the engine's numbers and the recording's, where
/// they were read.
pub struct KeyRow {
    pub key: u8,
    pub f0: String,
    pub unison: usize,
    pub level: Pair,
    pub centroid: Pair,
    pub irregular: Pair,
    pub beat: Pair,
    pub jitter: Pair,
    pub decay: Pair,
    pub matched: String,
    pub worst: usize,
    pub worst_z: String,
}

/// One partial of one key, as it is printed.
pub struct PartialRow {
    pub k: u64,
    pub hz: String,
    pub engine: String,
    pub reference: String,
    pub difference: String,
    pub in_engine: bool,
    pub in_reference: bool,
    pub beat: Pair,
    pub rate: Pair,
    pub tail: Pair,
}

pub const OPENING_0: &'static str = "# The compass, key by key\n\nEvery key of an 88-note piano struck alone at velocity \
    90, held for 3.6 s, through the engine on `";

pub const OPENING_1: &'static str = "` and through the recordings of the Yamaha C5 at `";

pub const OPENING_2: &'static str = "`. Seven numbers each, and a robust outlier score against the nearest keys strung the \
    same way.\n\n";

/// What is struck, on what.
pub open spec fn opening_text(preset: Seq<char>, sfz: Seq<char>) -> Seq<char> {
    OPENING_0@
        + preset
        + OPENING_1@
        + sfz
        + OPENING_2@
}

/// What is struck, on what.
pub fn opening(preset: &str, sfz: &str) -> (text: String)
    ensures
        text@ == opening_text(preset@, sfz@),
{
    let mut out = String::from_str(OPENING_0);
    out.append(preset);
    out.append(OPENING_1);
    out.append(sfz);
    out.append(OPENING_2);
    out
}

/// What is measured, and how a key is held against its neighbours.
pub const MEASURED: &'static str = "The scoreboard in `renders/realism/REALISM.md` averages over the compass, which is \
    the wrong statistic for one sour key: a single bad note is 1/88th of a phrase and \
    moves a mean by hundredths of a decibel, while a listener finds it in one pass. This \
    report is that listener's statistic.\n\n## What is measured\n\n| metric | definition \
    | what it catches |\n|---|---|---|\n| `level` | RMS of 0.10-1.10 s, dBFS | a key that \
    is loud or weak |\n| `centroid` | power-weighted mean partial index, semitones over \
    `f0` | a key of the wrong colour, register-free |\n| `irregular` | mean absolute step \
    between adjacent partial levels, dB | a **jagged** harmonic series |\n| `match` | \
    mean absolute per-partial distance from the recording of the same note, dB, common \
    offset removed | a key of the wrong colour, measured against the piano itself |\n| \
    `beat` | median `Motion::beat_depth_db` over the measurable partials | a key that \
    wobbles |\n| `jitter` | median `Motion::band_cents` | a key whose pitch moves |\n| \
    `decay` | median `Motion::tail_db_s` | a key that dies at the wrong rate |\n\n`z` is \
    the residual against the median of the 8 nearest keys **strung the same way**, over \
    `1.4826 * MAD` taken across every residual the metric has. Same-`N` neighbours \
    because the 1->2 and 2->3 string boundaries are step changes in `beat` and `jitter` \
    that belong to the instrument: a scan that ignored them would spend its flags \
    convicting four keys of being a boundary. A key is an **outlier** at `|z| >= 4.0`, on \
    any one of the seven.\n\n`beat`, `jitter` and `decay` are not measured at all where a \
    key's partials sit closer together than 3 widths of the band-pass that has to \
    separate them (31.8 Hz, `motion::SMOOTH_SIGMA_S`) - A0 to F#2 here. Under that \
    separation the fundamental's track is a mixture of the fundamental and 18 dB of \
    whatever the second partial is doing, on the recording exactly as much as on the \
    engine, and two contaminated readings do not cancel. Those keys keep `level`, \
    `centroid`, `irregular` and `match`, and `irregular` is the one that found the note \
    this tool was written for.\n\n`irregular` is in no other report. Every mechanism in \
    the engine that shapes a spectrum is smooth in `ln k` - the hammer, the bridge \
    admittance, the strike comb, the microphone - with exactly one exception, the \
    `notes.partial_gains` row, which is a free number per partial. A jagged harmonic \
    series is therefore a *table* defect by construction, and the metric points at the \
    table that carries it. Since `DECISIONS.md` 284 that table covers most of the compass \
    in two ways: 28 keys carry rows measured against their own recordings, and 49 carry \
    rows **drawn** from those keys' distributions. The `sampled` column says which a key \
    is, because the two are meant to be indistinguishable here and that is the claim this \
    report exists to check.\n\n";

/// The head of the keys that stand out.
pub const OUTLIERS: &'static str = "## Outliers, ranked\n\nOne row per `(key, metric)` pair at or over `|z| = 4.0`, worst \
    first: a key can be wrong in two ways at once, and which ways it is wrong is the \
    attribution. `recording z` is the same metric's score on the *recording* of the same \
    key - a genuine oddity of the piano shows up in both columns and is not a defect of \
    the model.\n\n| key | note | N | sampled | metric | engine z | engine | neighbours | \
    recording z |\n|---|---|---|---|---|---|---|---|---|\n";

/// What is said where no key stands out.
pub const NONE_OUT: &'static str = "| - | - | - | - | - | - | - | - | - |\n\n**No key of the compass is an outlier.**\n";

/// The head of the keys.
pub const EVERY_KEY: &'static str = "## Every key\n\n`e` is the engine, `r` the recording. The `z` column is the worst of \
    the six.\n\n| key | note | f0 | N | level e/r | centroid e/r | irregular e/r | match \
    | beat e/r | jitter e/r | decay e/r | worst z \
    |\n|---|---|---|---|---|---|---|---|---|---|---|---|\n";

/// Whether a key was recorded.
pub open spec fn sampled_text(sampled: bool) -> Seq<char> {
    if sampled {
        "yes"@
    } else {
        "-"@
    }
}

/// Whether a key was recorded.
pub fn sampled_word(sampled: bool) -> (r: &'static str)
    ensures
        r@ == sampled_text(sampled),
{
    if sampled {
        "yes"
    } else {
        "-"
    }
}

/// Two numbers, side by side; a dash for one that was not read.
pub open spec fn pair_text(p: Pair) -> Seq<char> {
    or_dash_text(p.engine) + "/"@ + or_dash_text(p.reference)
}

/// Two numbers, side by side.
pub fn pair(p: &Pair) -> (text: String)
    ensures
        text@ == pair_text(*p),
{
    let mut out = or_dash(&p.engine);
    out.append("/");
    out.append(or_dash(&p.reference).as_str());
    out
}

/// The name of a number; that of the last for all past it.
pub fn metric_words(m: usize) -> (r: &'static str)
    ensures
        r@ == metric_text(m as int),
{
    if m < METRICS {
        metric_name(m)
    } else {
        "decay"
    }
}

/// A row of the keys that stand out.
pub open spec fn flag_row_text(r: FlagRow) -> Seq<char> {
    "| "@
        + decimal(r.key as nat)
        + " | "@
        + name_of(r.key)
        + " | "@
        + decimal(r.unison as nat)
        + " | "@
        + sampled_text(r.sampled)
        + " | `"@
        + metric_text(r.metric as int)
        + "` | **"@
        + r.z@
        + "** | "@
        + r.engine@
        + " | "@
        + r.neighbours@
        + " | "@
        + r.recording@
        + " |\n"@
}

/// A row of the keys that stand out.
pub fn flag_row(r: &FlagRow) -> (text: String)
    ensures
        text@ == flag_row_text(*r),
{
    let mut out = String::from_str("| ");
    out.append(print(r.key as u64).as_str());
    out.append(" | ");
    out.append(note_name(r.key).as_str());
    out.append(" | ");
    out.append(print(r.unison as u64).as_str());
    out.append(" | ");
    out.append(sampled_word(r.sampled));
    out.append(" | `");
    out.append(metric_words(r.metric));
    out.append("` | **");
    out.append(r.z.as_str());
    out.append("** | ");
    out.append(r.engine.as_str());
    out.append(" | ");
    out.append(r.neighbours.as_str());
    out.append(" | ");
    out.append(r.recording.as_str());
    out.append(" |\n");
    out
}

/// The rows of the keys that stand out.
pub open spec fn flag_rows_text(rows: Seq<FlagRow>) -> Seq<char>
    decreases rows.len(),
{
    if rows.len() == 0 {
        Seq::empty()
    } else {
        flag_rows_text(rows.drop_last()) + flag_row_text(rows.last())
    }
}

/// The rows of the keys that stand out.
pub fn flag_rows(rows: &Vec<FlagRow>) -> (text: String)
    ensures
        text@ == flag_rows_text(rows@),
{
    let mut out = String::new();
    let mut i: usize = 0;
    proof {
        assert(rows@.take(0) =~= Seq::<FlagRow>::empty());
    }
    while i < rows.len()
        invariant
            i <= rows.len(),
            out@ == flag_rows_text(rows@.take(i as int)),
        decreases rows.len() - i,
    {
        proof {
            assert(rows@.take(i + 1).drop_last() =~= rows@.take(i as int));
        }
        out.append(flag_row(&rows[i]).as_str());
        i = i + 1;
    }
    proof {
        assert(rows@.take(i as int) =~= rows@);
    }
    out
}

/// A row of the keys.
pub open spec fn key_row_text(r: KeyRow) -> Seq<char> {
    "| "@
        + decimal(r.key as nat)
        + " | "@
        + name_of(r.key)
        + " | "@
        + r.f0@
        + " | "@
        + decimal(r.unison as nat)
        + " | "@
        + pair_text(r.level)
        + " | "@
        + pair_text(r.centroid)
        + " | "@
        + pair_text(r.irregular)
        + " | "@
        + r.matched@
        + " | "@
        + pair_text(r.beat)
        + " | "@
        + pair_text(r.jitter)
        + " | "@
        + pair_text(r.decay)
        + " | "@
        + metric_text(r.worst as int)
        + " "@
        + r.worst_z@
        + " |\n"@
}

/// A row of the keys.
pub fn key_row(r: &KeyRow) -> (text: String)
    ensures
        text@ == key_row_text(*r),
{
    let mut out = String::from_str("| ");
    out.append(print(r.key as u64).as_str());
    out.append(" | ");
    out.append(note_name(r.key).as_str());
    out.append(" | ");
    out.append(r.f0.as_str());
    out.append(" | ");
    out.append(print(r.unison as u64).as_str());
    out.append(" | ");
    out.append(pair(&r.level).as_str());
    out.append(" | ");
    out.append(pair(&r.centroid).as_str());
    out.append(" | ");
    out.append(pair(&r.irregular).as_str());
    out.append(" | ");
    out.append(r.matched.as_str());
    out.append(" | ");
    out.append(pair(&r.beat).as_str());
    out.append(" | ");
    out.append(pair(&r.jitter).as_str());
    out.append(" | ");
    out.append(pair(&r.decay).as_str());
    out.append(" | ");
    out.append(metric_words(r.worst));
    out.append(" ");
    out.append(r.worst_z.as_str());
    out.append(" |\n");
    out
}

/// The rows of the keys.
pub open spec fn key_rows_text(rows: Seq<KeyRow>) -> Seq<char>
    decreases rows.len(),
{
    if rows.len() == 0 {
        Seq::empty()
    } else {
        key_rows_text(rows.drop_last()) + key_row_text(rows.last())
    }
}

/// The rows of the keys.
pub fn key_rows(rows: &Vec<KeyRow>) -> (text: String)
    ensures
        text@ == key_rows_text(rows@),
{
    let mut out = String::new();
    let mut i: usize = 0;
    proof {
        assert(rows@.take(0) =~= Seq::<KeyRow>::empty());
    }
    while i < rows.len()
        invariant
            i <= rows.len(),
            out@ == key_rows_text(rows@.take(i as int)),
        decreases rows.len() - i,
    {
        proof {
            assert(rows@.take(i + 1).drop_last() =~= rows@.take(i as int));
        }
        out.append(key_row(&rows[i]).as_str());
        i = i + 1;
    }
    proof {
        assert(rows@.take(i as int) =~= rows@);
    }
    out
}

/// How many numbers stand out, of how many keys.
pub open spec fn count_line_text(flags: usize, keys: usize, of: usize) -> Seq<char> {
    "\n"@
        + decimal(flags as nat)
        + " flags over "@
        + decimal(keys as nat)
        + " of "@
        + decimal(of as nat)
        + " keys.\n\n"@
}

/// How many numbers stand out, of how many keys.
pub fn count_line(flags: usize, keys: usize, of: usize) -> (text: String)
    ensures
        text@ == count_line_text(flags, keys, of),
{
    let mut out = String::from_str("\n");
    out.append(print(flags as u64).as_str());
    out.append(" flags over ");
    out.append(print(keys as u64).as_str());
    out.append(" of ");
    out.append(print(of as u64).as_str());
    out.append(" keys.\n\n");
    out
}

pub const CLOSING_0: &'static str = "\n```sh\ncargo run --release -p piano-tuner -- compass \\\n    data/salamander \
    renders/compass ";

/// How to make the report again.
pub open spec fn closing_text(preset: Seq<char>) -> Seq<char> {
    CLOSING_0@
        + preset
        + "\n```\n"@
}

/// How to make the report again.
pub fn closing(preset: &str) -> (text: String)
    ensures
        text@ == closing_text(preset@),
{
    let mut out = String::from_str(CLOSING_0);
    out.append(preset);
    out.append("\n```\n");
    out
}

/// What is said where no key stands out.
pub open spec fn none_out_text(flags: Seq<FlagRow>) -> Seq<char> {
    if flags.len() == 0 {
        NONE_OUT@
    } else {
        Seq::empty()
    }
}

/// What is said where no key stands out.
pub fn none_out(flags: &Vec<FlagRow>) -> (text: String)
    ensures
        text@ == none_out_text(flags@),
{
    if flags.len() == 0 {
        String::from_str(NONE_OUT)
    } else {
        String::new()
    }
}

/// The keys of the rows, in order.
pub open spec fn keys_of(rows: Seq<FlagRow>) -> Seq<u8> {
    Seq::new(rows.len(), |i: int| rows[i].key)
}

/// How many keys the rows are of.
fn keys_in(rows: &Vec<FlagRow>) -> (r: usize)
    ensures
        r == different(keys_of(rows@)),
{
    let mut keys: Vec<u8> = Vec::new();
    let mut i: usize = 0;
    while i < rows.len()
        invariant
            i <= rows.len(),
            keys@ == keys_of(rows@).take(i as int),
        decreases rows.len() - i,
    {
        keys.push(rows[i].key);
        i = i + 1;
        proof {
            assert(keys@ =~= keys_of(rows@).take(i as int));
        }
    }
    proof {
        assert(keys@ =~= keys_of(rows@));
    }
    how_many(&keys)
}

/// The whole report.
pub open spec fn write_report_text(flags: Seq<FlagRow>, keys: Seq<KeyRow>, preset: Seq<char>, sfz: Seq<char>) -> Seq<char> {
    opening_text(preset, sfz)
        + MEASURED@
        + OUTLIERS@
        + flag_rows_text(flags)
        + none_out_text(flags)
        + count_line_text(
            flags.len() as usize,
            different(keys_of(flags)) as usize,
            keys.len() as usize,
        )
        + EVERY_KEY@
        + key_rows_text(keys)
        + closing_text(preset)
}

/// The whole report.
pub fn write_report(flags: &Vec<FlagRow>, keys: &Vec<KeyRow>, preset: &str, sfz: &str) -> (text: String)
    ensures
        text@ == write_report_text(flags@, keys@, preset@, sfz@),
{
    let mut out = opening(preset, sfz);
    out.append(MEASURED);
    out.append(OUTLIERS);
    out.append(flag_rows(flags).as_str());
    out.append(none_out(flags).as_str());
    out.append(count_line(flags.len(), keys_in(flags), keys.len()).as_str());
    out.append(EVERY_KEY);
    out.append(key_rows(keys).as_str());
    out.append(closing(preset).as_str());
    out
}

/// The head of the partials of a key.
pub const DETAIL: &'static str = "     k       hz   eng dB  ref dB    diff seen |  eBeat  rBeat |  eRate  rRate |   \
    eTail   rTail\n";

/// Which key it is.
pub open spec fn detail_heading_text(key: u8) -> Seq<char> {
    "\n  key "@
        + decimal(key as nat)
        + " ("@
        + name_of(key)
        + "):\n"@
}

/// Which key it is.
pub fn detail_heading(key: u8) -> (text: String)
    ensures
        text@ == detail_heading_text(key),
{
    let mut out = String::from_str("\n  key ");
    out.append(print(key as u64).as_str());
    out.append(" (");
    out.append(note_name(key).as_str());
    out.append("):\n");
    out
}

/// In which of the two a partial was seen.
pub open spec fn seen_text(engine: bool, reference: bool) -> Seq<char> {
    if engine && reference {
        "both"@
    } else if engine {
        "eng"@
    } else if reference {
        "ref"@
    } else {
        "-"@
    }
}

/// In which of the two a partial was seen.
pub fn seen(engine: bool, reference: bool) -> (r: &'static str)
    ensures
        r@ == seen_text(engine, reference),
{
    if engine && reference {
        "both"
    } else if engine {
        "eng"
    } else if reference {
        "ref"
    } else {
        "-"
    }
}

/// A movement, or dashes where it was not read.
pub open spec fn movement_text(v: Option<String>) -> Seq<char> {
    match v {
        None => "  --  "@,
        Some(s) => s@,
    }
}

/// A movement, or dashes where it was not read.
pub fn movement(v: &Option<String>) -> (r: String)
    ensures
        r@ == movement_text(*v),
{
    match v {
        None => String::from_str("  --  "),
        Some(s) => s.clone(),
    }
}

/// A row of the partials.
pub open spec fn partial_row_text(r: PartialRow) -> Seq<char> {
    "    "@
        + right_in(decimal(r.k as nat), 2)
        + " "@
        + right_in(r.hz@, 8)
        + "  "@
        + right_in(r.engine@, 7)
        + " "@
        + right_in(r.reference@, 7)
        + " "@
        + right_in(r.difference@, 7)
        + " "@
        + right_in(seen_text(r.in_engine, r.in_reference), 4)
        + " | "@
        + movement_text(r.beat.engine)
        + " "@
        + movement_text(r.beat.reference)
        + " | "@
        + movement_text(r.rate.engine)
        + " "@
        + movement_text(r.rate.reference)
        + " | "@
        + right_in(movement_text(r.tail.engine), 7)
        + " "@
        + right_in(movement_text(r.tail.reference), 7)
        + "\n"@
}

/// A row of the partials.
pub fn partial_row(r: &PartialRow) -> (text: String)
    ensures
        text@ == partial_row_text(*r),
{
    let mut out = String::from_str("    ");
    push_right(&mut out, print(r.k).as_str(), 2);
    out.append(" ");
    push_right(&mut out, r.hz.as_str(), 8);
    out.append("  ");
    push_right(&mut out, r.engine.as_str(), 7);
    out.append(" ");
    push_right(&mut out, r.reference.as_str(), 7);
    out.append(" ");
    push_right(&mut out, r.difference.as_str(), 7);
    out.append(" ");
    push_right(&mut out, seen(r.in_engine, r.in_reference), 4);
    out.append(" | ");
    out.append(movement(&r.beat.engine).as_str());
    out.append(" ");
    out.append(movement(&r.beat.reference).as_str());
    out.append(" | ");
    out.append(movement(&r.rate.engine).as_str());
    out.append(" ");
    out.append(movement(&r.rate.reference).as_str());
    out.append(" | ");
    push_right(&mut out, movement(&r.tail.engine).as_str(), 7);
    out.append(" ");
    push_right(&mut out, movement(&r.tail.reference).as_str(), 7);
    out.append("\n");
    out
}

/// The rows of the partials.
pub open spec fn partial_rows_text(rows: Seq<PartialRow>) -> Seq<char>
    decreases rows.len(),
{
    if rows.len() == 0 {
        Seq::empty()
    } else {
        partial_rows_text(rows.drop_last()) + partial_row_text(rows.last())
    }
}

/// The rows of the partials.
pub fn partial_rows(rows: &Vec<PartialRow>) -> (text: String)
    ensures
        text@ == partial_rows_text(rows@),
{
    let mut out = String::new();
    let mut i: usize = 0;
    proof {
        assert(rows@.take(0) =~= Seq::<PartialRow>::empty());
    }
    while i < rows.len()
        invariant
            i <= rows.len(),
            out@ == partial_rows_text(rows@.take(i as int)),
        decreases rows.len() - i,
    {
        proof {
            assert(rows@.take(i + 1).drop_last() =~= rows@.take(i as int));
        }
        out.append(partial_row(&rows[i]).as_str());
        i = i + 1;
    }
    proof {
        assert(rows@.take(i as int) =~= rows@);
    }
    out
}

/// The partials of a key.
pub open spec fn detail_report_text(key: u8, rows: Seq<PartialRow>) -> Seq<char> {
    detail_heading_text(key)
        + DETAIL@
        + partial_rows_text(rows)
}

/// The partials of a key.
pub fn detail_report(key: u8, rows: &Vec<PartialRow>) -> (text: String)
    ensures
        text@ == detail_report_text(key, rows@),
{
    let mut out = detail_heading(key);
    out.append(DETAIL);
    out.append(partial_rows(rows).as_str());
    out
}

/// The file that a key's note is written to.
pub open spec fn take_name_text(key: u8, side: Seq<char>) -> Seq<char> {
    "key"@
        + decimal(key as nat)
        + "_"@
        + name_of(key)
        + "_"@
        + side
        + ".wav"@
}

/// The file that a key's note is written to.
pub fn take_name(key: u8, side: &str) -> (text: String)
    ensures
        text@ == take_name_text(key, side@),
{
    let mut out = String::from_str("key");
    out.append(print(key as u64).as_str());
    out.append("_");
    out.append(note_name(key).as_str());
    out.append("_");
    out.append(side);
    out.append(".wav");
    out
}

/// The cells of a `flag_row` stand in the order of its columns, one number each.
#[verifier::rlimit(30)]
pub proof fn the_cells_of_a_flag_row_stand_in_order(r: FlagRow)
    requires
        !name_of(r.key).contains('|'),
        !sampled_text(r.sampled).contains('|'),
        !metric_text(r.metric as int).contains('|'),
        !r.z@.contains('|'),
        !r.engine@.contains('|'),
        !r.neighbours@.contains('|'),
        !r.recording@.contains('|'),
    ensures
        fields_of(flag_row_text(r), '|').len() == 11,
        fields_of(flag_row_text(r), '|')[1] == " "@ + decimal(r.key as nat) + " "@,
        fields_of(flag_row_text(r), '|')[2] == " "@ + name_of(r.key) + " "@,
        fields_of(flag_row_text(r), '|')[3] == " "@ + decimal(r.unison as nat) + " "@,
        fields_of(flag_row_text(r), '|')[4] == " "@ + sampled_text(r.sampled) + " "@,
        fields_of(flag_row_text(r), '|')[5] == " `"@ + metric_text(r.metric as int) + "` "@,
        fields_of(flag_row_text(r), '|')[6] == " **"@ + r.z@ + "** "@,
        fields_of(flag_row_text(r), '|')[7] == " "@ + r.engine@ + " "@,
        fields_of(flag_row_text(r), '|')[8] == " "@ + r.neighbours@ + " "@,
        fields_of(flag_row_text(r), '|')[9] == " "@ + r.recording@ + " "@,
{
    reveal_strlit("| ");
    reveal_strlit(" ");
    reveal_strlit(" | ");
    reveal_strlit(" | `");
    reveal_strlit(" `");
    reveal_strlit("` | **");
    reveal_strlit("` ");
    reveal_strlit(" **");
    reveal_strlit("** | ");
    reveal_strlit("** ");
    reveal_strlit(" |\n");
    reveal_strlit("\n");
    digits_alone(r.key as nat, '|');
    digits_alone(r.unison as nat, '|');
    let p0 = "| "@;
    one_field(Seq::<char>::empty(), '|');
    one_more_field(Seq::<char>::empty(), " "@, '|');
    assert(p0 =~= Seq::<char>::empty() + seq!['|'] + " "@);
    the_field_goes_on(p0, decimal(r.key as nat), '|');
    let p1 = p0 + decimal(r.key as nat);
    assert(" | "@ =~= " "@ + seq!['|'] + " "@);
    a_field_begins(p1, " | "@, " "@, " "@, '|');
    let p2 = p1 + " | "@;
    the_field_goes_on(p2, name_of(r.key), '|');
    let p3 = p2 + name_of(r.key);
    assert(" | "@ =~= " "@ + seq!['|'] + " "@);
    a_field_begins(p3, " | "@, " "@, " "@, '|');
    let p4 = p3 + " | "@;
    the_field_goes_on(p4, decimal(r.unison as nat), '|');
    let p5 = p4 + decimal(r.unison as nat);
    assert(" | "@ =~= " "@ + seq!['|'] + " "@);
    a_field_begins(p5, " | "@, " "@, " "@, '|');
    let p6 = p5 + " | "@;
    the_field_goes_on(p6, sampled_text(r.sampled), '|');
    let p7 = p6 + sampled_text(r.sampled);
    assert(" | `"@ =~= " "@ + seq!['|'] + " `"@);
    a_field_begins(p7, " | `"@, " "@, " `"@, '|');
    let p8 = p7 + " | `"@;
    the_field_goes_on(p8, metric_text(r.metric as int), '|');
    let p9 = p8 + metric_text(r.metric as int);
    assert("` | **"@ =~= "` "@ + seq!['|'] + " **"@);
    a_field_begins(p9, "` | **"@, "` "@, " **"@, '|');
    let p10 = p9 + "` | **"@;
    the_field_goes_on(p10, r.z@, '|');
    let p11 = p10 + r.z@;
    assert("** | "@ =~= "** "@ + seq!['|'] + " "@);
    a_field_begins(p11, "** | "@, "** "@, " "@, '|');
    let p12 = p11 + "** | "@;
    the_field_goes_on(p12, r.engine@, '|');
    let p13 = p12 + r.engine@;
    assert(" | "@ =~= " "@ + seq!['|'] + " "@);
    a_field_begins(p13, " | "@, " "@, " "@, '|');
    let p14 = p13 + " | "@;
    the_field_goes_on(p14, r.neighbours@, '|');
    let p15 = p14 + r.neighbours@;
    assert(" | "@ =~= " "@ + seq!['|'] + " "@);
    a_field_begins(p15, " | "@, " "@, " "@, '|');
    let p16 = p15 + " | "@;
    the_field_goes_on(p16, r.recording@, '|');
    let p17 = p16 + r.recording@;
    assert(" |\n"@ =~= " "@ + seq!['|'] + "\n"@);
    a_field_begins(p17, " |\n"@, " "@, "\n"@, '|');
    let p18 = p17 + " |\n"@;
    assert(flag_row_text(r) == p18);
}

/// The cells of a `key_row` stand in the order of its columns, one number each.
#[verifier::rlimit(30)]
pub proof fn the_cells_of_a_key_row_stand_in_order(r: KeyRow)
    requires
        !name_of(r.key).contains('|'),
        !r.f0@.contains('|'),
        !pair_text(r.level).contains('|'),
        !pair_text(r.centroid).contains('|'),
        !pair_text(r.irregular).contains('|'),
        !r.matched@.contains('|'),
        !pair_text(r.beat).contains('|'),
        !pair_text(r.jitter).contains('|'),
        !pair_text(r.decay).contains('|'),
        !metric_text(r.worst as int).contains('|'),
        !r.worst_z@.contains('|'),
    ensures
        fields_of(key_row_text(r), '|').len() == 14,
        fields_of(key_row_text(r), '|')[1] == " "@ + decimal(r.key as nat) + " "@,
        fields_of(key_row_text(r), '|')[2] == " "@ + name_of(r.key) + " "@,
        fields_of(key_row_text(r), '|')[3] == " "@ + r.f0@ + " "@,
        fields_of(key_row_text(r), '|')[4] == " "@ + decimal(r.unison as nat) + " "@,
        fields_of(key_row_text(r), '|')[5] == " "@ + pair_text(r.level) + " "@,
        fields_of(key_row_text(r), '|')[6] == " "@ + pair_text(r.centroid) + " "@,
        fields_of(key_row_text(r), '|')[7] == " "@ + pair_text(r.irregular) + " "@,
        fields_of(key_row_text(r), '|')[8] == " "@ + r.matched@ + " "@,
        fields_of(key_row_text(r), '|')[9] == " "@ + pair_text(r.beat) + " "@,
        fields_of(key_row_text(r), '|')[10] == " "@ + pair_text(r.jitter) + " "@,
        fields_of(key_row_text(r), '|')[11] == " "@ + pair_text(r.decay) + " "@,
        fields_of(key_row_text(r), '|')[12] == " "@ + metric_text(r.worst as int) + " "@ + r.worst_z@ + " "@,
{
    reveal_strlit("| ");
    reveal_strlit(" ");
    reveal_strlit(" | ");
    reveal_strlit(" |\n");
    reveal_strlit("\n");
    digits_alone(r.key as nat, '|');
    digits_alone(r.unison as nat, '|');
    let p0 = "| "@;
    one_field(Seq::<char>::empty(), '|');
    one_more_field(Seq::<char>::empty(), " "@, '|');
    assert(p0 =~= Seq::<char>::empty() + seq!['|'] + " "@);
    the_field_goes_on(p0, decimal(r.key as nat), '|');
    let p1 = p0 + decimal(r.key as nat);
    assert(" | "@ =~= " "@ + seq!['|'] + " "@);
    a_field_begins(p1, " | "@, " "@, " "@, '|');
    let p2 = p1 + " | "@;
    the_field_goes_on(p2, name_of(r.key), '|');
    let p3 = p2 + name_of(r.key);
    assert(" | "@ =~= " "@ + seq!['|'] + " "@);
    a_field_begins(p3, " | "@, " "@, " "@, '|');
    let p4 = p3 + " | "@;
    the_field_goes_on(p4, r.f0@, '|');
    let p5 = p4 + r.f0@;
    assert(" | "@ =~= " "@ + seq!['|'] + " "@);
    a_field_begins(p5, " | "@, " "@, " "@, '|');
    let p6 = p5 + " | "@;
    the_field_goes_on(p6, decimal(r.unison as nat), '|');
    let p7 = p6 + decimal(r.unison as nat);
    assert(" | "@ =~= " "@ + seq!['|'] + " "@);
    a_field_begins(p7, " | "@, " "@, " "@, '|');
    let p8 = p7 + " | "@;
    the_field_goes_on(p8, pair_text(r.level), '|');
    let p9 = p8 + pair_text(r.level);
    assert(" | "@ =~= " "@ + seq!['|'] + " "@);
    a_field_begins(p9, " | "@, " "@, " "@, '|');
    let p10 = p9 + " | "@;
    the_field_goes_on(p10, pair_text(r.centroid), '|');
    let p11 = p10 + pair_text(r.centroid);
    assert(" | "@ =~= " "@ + seq!['|'] + " "@);
    a_field_begins(p11, " | "@, " "@, " "@, '|');
    let p12 = p11 + " | "@;
    the_field_goes_on(p12, pair_text(r.irregular), '|');
    let p13 = p12 + pair_text(r.irregular);
    assert(" | "@ =~= " "@ + seq!['|'] + " "@);
    a_field_begins(p13, " | "@, " "@, " "@, '|');
    let p14 = p13 + " | "@;
    the_field_goes_on(p14, r.matched@, '|');
    let p15 = p14 + r.matched@;
    assert(" | "@ =~= " "@ + seq!['|'] + " "@);
    a_field_begins(p15, " | "@, " "@, " "@, '|');
    let p16 = p15 + " | "@;
    the_field_goes_on(p16, pair_text(r.beat), '|');
    let p17 = p16 + pair_text(r.beat);
    assert(" | "@ =~= " "@ + seq!['|'] + " "@);
    a_field_begins(p17, " | "@, " "@, " "@, '|');
    let p18 = p17 + " | "@;
    the_field_goes_on(p18, pair_text(r.jitter), '|');
    let p19 = p18 + pair_text(r.jitter);
    assert(" | "@ =~= " "@ + seq!['|'] + " "@);
    a_field_begins(p19, " | "@, " "@, " "@, '|');
    let p20 = p19 + " | "@;
    the_field_goes_on(p20, pair_text(r.decay), '|');
    let p21 = p20 + pair_text(r.decay);
    assert(" | "@ =~= " "@ + seq!['|'] + " "@);
    a_field_begins(p21, " | "@, " "@, " "@, '|');
    let p22 = p21 + " | "@;
    the_field_goes_on(p22, metric_text(r.worst as int), '|');
    let p23 = p22 + metric_text(r.worst as int);
    the_field_goes_on(p23, " "@, '|');
    let p24 = p23 + " "@;
    the_field_goes_on(p24, r.worst_z@, '|');
    let p25 = p24 + r.worst_z@;
    assert(" |\n"@ =~= " "@ + seq!['|'] + "\n"@);
    a_field_begins(p25, " |\n"@, " "@, "\n"@, '|');
    let p26 = p25 + " |\n"@;
    assert(key_row_text(r) == p26);
}

/// The cells of a `partial_row` stand in the order of its columns, one number each.
#[verifier::rlimit(30)]
pub proof fn the_cells_of_a_partial_row_stand_in_order(r: PartialRow)
    requires
        !right_in(decimal(r.k as nat), 2).contains('|'),
        !right_in(r.hz@, 8).contains('|'),
        !right_in(r.engine@, 7).contains('|'),
        !right_in(r.reference@, 7).contains('|'),
        !right_in(r.difference@, 7).contains('|'),
        !right_in(seen_text(r.in_engine, r.in_reference), 4).contains('|'),
        !movement_text(r.beat.engine).contains('|'),
        !movement_text(r.beat.reference).contains('|'),
        !movement_text(r.rate.engine).contains('|'),
        !movement_text(r.rate.reference).contains('|'),
        !right_in(movement_text(r.tail.engine), 7).contains('|'),
        !right_in(movement_text(r.tail.reference), 7).contains('|'),
    ensures
        fields_of(partial_row_text(r), '|').len() == 4,
        fields_of(partial_row_text(r), '|')[0] == "    "@ + right_in(decimal(r.k as nat), 2) + " "@ + right_in(r.hz@, 8) + "  "@ + right_in(r.engine@, 7) + " "@ + right_in(r.reference@, 7) + " "@ + right_in(r.difference@, 7) + " "@ + right_in(seen_text(r.in_engine, r.in_reference), 4) + " "@,
        fields_of(partial_row_text(r), '|')[1] == " "@ + movement_text(r.beat.engine) + " "@ + movement_text(r.beat.reference) + " "@,
        fields_of(partial_row_text(r), '|')[2] == " "@ + movement_text(r.rate.engine) + " "@ + movement_text(r.rate.reference) + " "@,
        fields_of(partial_row_text(r), '|')[3] == " "@ + right_in(movement_text(r.tail.engine), 7) + " "@ + right_in(movement_text(r.tail.reference), 7) + "\n"@,
{
    reveal_strlit("    ");
    reveal_strlit(" ");
    reveal_strlit("  ");
    reveal_strlit(" | ");
    reveal_strlit("\n");
    let p0 = "    "@;
    one_field(p0, '|');
    the_field_goes_on(p0, right_in(decimal(r.k as nat), 2), '|');
    let p1 = p0 + right_in(decimal(r.k as nat), 2);
    the_field_goes_on(p1, " "@, '|');
    let p2 = p1 + " "@;
    the_field_goes_on(p2, right_in(r.hz@, 8), '|');
    let p3 = p2 + right_in(r.hz@, 8);
    the_field_goes_on(p3, "  "@, '|');
    let p4 = p3 + "  "@;
    the_field_goes_on(p4, right_in(r.engine@, 7), '|');
    let p5 = p4 + right_in(r.engine@, 7);
    the_field_goes_on(p5, " "@, '|');
    let p6 = p5 + " "@;
    the_field_goes_on(p6, right_in(r.reference@, 7), '|');
    let p7 = p6 + right_in(r.reference@, 7);
    the_field_goes_on(p7, " "@, '|');
    let p8 = p7 + " "@;
    the_field_goes_on(p8, right_in(r.difference@, 7), '|');
    let p9 = p8 + right_in(r.difference@, 7);
    the_field_goes_on(p9, " "@, '|');
    let p10 = p9 + " "@;
    the_field_goes_on(p10, right_in(seen_text(r.in_engine, r.in_reference), 4), '|');
    let p11 = p10 + right_in(seen_text(r.in_engine, r.in_reference), 4);
    assert(" | "@ =~= " "@ + seq!['|'] + " "@);
    a_field_begins(p11, " | "@, " "@, " "@, '|');
    let p12 = p11 + " | "@;
    the_field_goes_on(p12, movement_text(r.beat.engine), '|');
    let p13 = p12 + movement_text(r.beat.engine);
    the_field_goes_on(p13, " "@, '|');
    let p14 = p13 + " "@;
    the_field_goes_on(p14, movement_text(r.beat.reference), '|');
    let p15 = p14 + movement_text(r.beat.reference);
    assert(" | "@ =~= " "@ + seq!['|'] + " "@);
    a_field_begins(p15, " | "@, " "@, " "@, '|');
    let p16 = p15 + " | "@;
    the_field_goes_on(p16, movement_text(r.rate.engine), '|');
    let p17 = p16 + movement_text(r.rate.engine);
    the_field_goes_on(p17, " "@, '|');
    let p18 = p17 + " "@;
    the_field_goes_on(p18, movement_text(r.rate.reference), '|');
    let p19 = p18 + movement_text(r.rate.reference);
    assert(" | "@ =~= " "@ + seq!['|'] + " "@);
    a_field_begins(p19, " | "@, " "@, " "@, '|');
    let p20 = p19 + " | "@;
    the_field_goes_on(p20, right_in(movement_text(r.tail.engine), 7), '|');
    let p21 = p20 + right_in(movement_text(r.tail.engine), 7);
    the_field_goes_on(p21, " "@, '|');
    let p22 = p21 + " "@;
    the_field_goes_on(p22, right_in(movement_text(r.tail.reference), 7), '|');
    let p23 = p22 + right_in(movement_text(r.tail.reference), 7);
    the_field_goes_on(p23, "\n"@, '|');
    let p24 = p23 + "\n"@;
    assert(partial_row_text(r) == p24);
}

/// What the columns of the table under [`EVERY_KEY`] are named, in order.
#[verifier::rlimit(80)]
#[verifier::spinoff_prover]
pub proof fn the_columns_of_every_key_are_named()
    ensures
        fields_of(EVERY_KEY@, '|').len() == 27,
        fields_of(EVERY_KEY@, '|')[1] == " key "@,
        fields_of(EVERY_KEY@, '|')[2] == " note "@,
        fields_of(EVERY_KEY@, '|')[3] == " f0 "@,
        fields_of(EVERY_KEY@, '|')[4] == " N "@,
        fields_of(EVERY_KEY@, '|')[5] == " level e/r "@,
        fields_of(EVERY_KEY@, '|')[6] == " centroid e/r "@,
        fields_of(EVERY_KEY@, '|')[7] == " irregular e/r "@,
        fields_of(EVERY_KEY@, '|')[8] == " match "@,
        fields_of(EVERY_KEY@, '|')[9] == " beat e/r "@,
        fields_of(EVERY_KEY@, '|')[10] == " jitter e/r "@,
        fields_of(EVERY_KEY@, '|')[11] == " decay e/r "@,
        fields_of(EVERY_KEY@, '|')[12] == " worst z "@,
{
    reveal_strlit("## Every key\n\n`e` is the engine, `r` the recording. The `z` column is the worst of the six.\n\n");
    reveal_strlit(" key ");
    reveal_strlit(" note ");
    reveal_strlit(" f0 ");
    reveal_strlit(" N ");
    reveal_strlit(" level e/r ");
    reveal_strlit(" centroid e/r ");
    reveal_strlit(" irregular e/r ");
    reveal_strlit(" match ");
    reveal_strlit(" beat e/r ");
    reveal_strlit(" jitter e/r ");
    reveal_strlit(" decay e/r ");
    reveal_strlit(" worst z ");
    reveal_strlit("\n");
    reveal_strlit("---");
    reveal_strlit("## Every key\n\n`e` is the engine, `r` the recording. The `z` column is the worst of the six.\n\n| key | note | f0 | N | level e/r | centroid e/r | irregular e/r | match | beat e/r | jitter e/r | decay e/r | worst z |\n|---|---|---|---|---|---|---|---|---|---|---|---|\n");
    let h0 = "## Every key\n\n`e` is the engine, `r` the recording. The `z` column is the worst of the six.\n\n"@;
    one_field(h0, '|');
    one_more_field(h0, " key "@, '|');
    let h1 = h0 + seq!['|'] + " key "@;
    one_more_field(h1, " note "@, '|');
    let h2 = h1 + seq!['|'] + " note "@;
    one_more_field(h2, " f0 "@, '|');
    let h3 = h2 + seq!['|'] + " f0 "@;
    one_more_field(h3, " N "@, '|');
    let h4 = h3 + seq!['|'] + " N "@;
    one_more_field(h4, " level e/r "@, '|');
    let h5 = h4 + seq!['|'] + " level e/r "@;
    one_more_field(h5, " centroid e/r "@, '|');
    let h6 = h5 + seq!['|'] + " centroid e/r "@;
    one_more_field(h6, " irregular e/r "@, '|');
    let h7 = h6 + seq!['|'] + " irregular e/r "@;
    one_more_field(h7, " match "@, '|');
    let h8 = h7 + seq!['|'] + " match "@;
    one_more_field(h8, " beat e/r "@, '|');
    let h9 = h8 + seq!['|'] + " beat e/r "@;
    one_more_field(h9, " jitter e/r "@, '|');
    let h10 = h9 + seq!['|'] + " jitter e/r "@;
    one_more_field(h10, " decay e/r "@, '|');
    let h11 = h10 + seq!['|'] + " decay e/r "@;
    one_more_field(h11, " worst z "@, '|');
    let h12 = h11 + seq!['|'] + " worst z "@;
    one_more_field(h12, "\n"@, '|');
    let h13 = h12 + seq!['|'] + "\n"@;
    one_more_field(h13, "---"@, '|');
    let h14 = h13 + seq!['|'] + "---"@;
    one_more_field(h14, "---"@, '|');
    let h15 = h14 + seq!['|'] + "---"@;
    one_more_field(h15, "---"@, '|');
    let h16 = h15 + seq!['|'] + "---"@;
    one_more_field(h16, "---"@, '|');
    let h17 = h16 + seq!['|'] + "---"@;
    one_more_field(h17, "---"@, '|');
    let h18 = h17 + seq!['|'] + "---"@;
    one_more_field(h18, "---"@, '|');
    let h19 = h18 + seq!['|'] + "---"@;
    one_more_field(h19, "---"@, '|');
    let h20 = h19 + seq!['|'] + "---"@;
    one_more_field(h20, "---"@, '|');
    let h21 = h20 + seq!['|'] + "---"@;
    one_more_field(h21, "---"@, '|');
    let h22 = h21 + seq!['|'] + "---"@;
    one_more_field(h22, "---"@, '|');
    let h23 = h22 + seq!['|'] + "---"@;
    one_more_field(h23, "---"@, '|');
    let h24 = h23 + seq!['|'] + "---"@;
    one_more_field(h24, "---"@, '|');
    let h25 = h24 + seq!['|'] + "---"@;
    one_more_field(h25, "\n"@, '|');
    let h26 = h25 + seq!['|'] + "\n"@;
    assert(EVERY_KEY@ =~= h26);
}

/// The `flag_rows` are printed one after another, in their order.
pub proof fn the_flag_rows_follow_each_other(a: Seq<FlagRow>, b: Seq<FlagRow>)
    ensures
        flag_rows_text(a + b) == flag_rows_text(a) + flag_rows_text(b),
        a.len() == 1 ==> flag_rows_text(a) == flag_row_text(a[0]),
        flag_rows_text(Seq::<FlagRow>::empty()).len() == 0,
    decreases b.len(),
{
    if a.len() == 1 {
        assert(a.drop_last() =~= Seq::<FlagRow>::empty());
        assert(flag_rows_text(a.drop_last()) =~= Seq::<char>::empty());
        assert(flag_rows_text(a) =~= flag_row_text(a[0]));
    }
    if b.len() == 0 {
        assert(a + b =~= a);
        assert(flag_rows_text(a) + flag_rows_text(b) =~= flag_rows_text(a));
    } else {
        the_flag_rows_follow_each_other(a, b.drop_last());
        assert((a + b).drop_last() =~= a + b.drop_last());
        assert((a + b).last() == b.last());
        assert(flag_rows_text(a) + flag_rows_text(b.drop_last()) + flag_row_text(b.last()) =~= flag_rows_text(a) + (flag_rows_text(
            b.drop_last(),
        ) + flag_row_text(b.last())));
    }
}

/// The `key_rows` are printed one after another, in their order.
pub proof fn the_key_rows_follow_each_other(a: Seq<KeyRow>, b: Seq<KeyRow>)
    ensures
        key_rows_text(a + b) == key_rows_text(a) + key_rows_text(b),
        a.len() == 1 ==> key_rows_text(a) == key_row_text(a[0]),
        key_rows_text(Seq::<KeyRow>::empty()).len() == 0,
    decreases b.len(),
{
    if a.len() == 1 {
        assert(a.drop_last() =~= Seq::<KeyRow>::empty());
        assert(key_rows_text(a.drop_last()) =~= Seq::<char>::empty());
        assert(key_rows_text(a) =~= key_row_text(a[0]));
    }
    if b.len() == 0 {
        assert(a + b =~= a);
        assert(key_rows_text(a) + key_rows_text(b) =~= key_rows_text(a));
    } else {
        the_key_rows_follow_each_other(a, b.drop_last());
        assert((a + b).drop_last() =~= a + b.drop_last());
        assert((a + b).last() == b.last());
        assert(key_rows_text(a) + key_rows_text(b.drop_last()) + key_row_text(b.last()) =~= key_rows_text(a) + (key_rows_text(
            b.drop_last(),
        ) + key_row_text(b.last())));
    }
}

/// The `partial_rows` are printed one after another, in their order.
pub proof fn the_partial_rows_follow_each_other(a: Seq<PartialRow>, b: Seq<PartialRow>)
    ensures
        partial_rows_text(a + b) == partial_rows_text(a) + partial_rows_text(b),
        a.len() == 1 ==> partial_rows_text(a) == partial_row_text(a[0]),
        partial_rows_text(Seq::<PartialRow>::empty()).len() == 0,
    decreases b.len(),
{
    if a.len() == 1 {
        assert(a.drop_last() =~= Seq::<PartialRow>::empty());
        assert(partial_rows_text(a.drop_last()) =~= Seq::<char>::empty());
        assert(partial_rows_text(a) =~= partial_row_text(a[0]));
    }
    if b.len() == 0 {
        assert(a + b =~= a);
        assert(partial_rows_text(a) + partial_rows_text(b) =~= partial_rows_text(a));
    } else {
        the_partial_rows_follow_each_other(a, b.drop_last());
        assert((a + b).drop_last() =~= a + b.drop_last());
        assert((a + b).last() == b.last());
        assert(partial_rows_text(a) + partial_rows_text(b.drop_last()) + partial_row_text(b.last()) =~= partial_rows_text(a) + (partial_rows_text(
            b.drop_last(),
        ) + partial_row_text(b.last())));
    }
}

/// Each number of `pair` stands in its place among the words.
#[verifier::rlimit(30)]
pub proof fn the_words_of_pair_stand_in_order(p: Pair)
    requires
        is_word(or_dash_text(p.engine)),
        is_word(or_dash_text(p.reference)),
    ensures
        words_of(pair_text(p)).len() == 1,
        words_of(pair_text(p))[0] == or_dash_text(p.engine) + "/"@ + or_dash_text(p.reference),
{
    reveal_strlit("/");
    a_word_begins(Seq::<char>::empty(), or_dash_text(p.engine));
    let p0 = or_dash_text(p.engine);
    assert(Seq::<char>::empty() + or_dash_text(p.engine) =~= p0);
    a_word_goes_on(p0, "/"@);
    let p1 = p0 + "/"@;
    a_word_goes_on(p1, or_dash_text(p.reference));
    let p2 = p1 + or_dash_text(p.reference);
    assert(pair_text(p) == p2);
}

/// Each number of `count_line` stands in its place among the words.
#[verifier::rlimit(30)]
pub proof fn the_words_of_count_line_stand_in_order(flags: usize, keys: usize, of: usize)
    ensures
        words_of(count_line_text(flags, keys, of)).len() == 7,
        words_of(count_line_text(flags, keys, of))[0] == decimal(flags as nat),
        words_of(count_line_text(flags, keys, of))[3] == decimal(keys as nat),
        words_of(count_line_text(flags, keys, of))[5] == decimal(of as nat),
{
    reveal_strlit("\n");
    reveal_strlit(" flags over ");
    reveal_strlit(" ");
    reveal_strlit("flags");
    reveal_strlit("over");
    reveal_strlit(" of ");
    reveal_strlit("of");
    reveal_strlit(" keys.\n\n");
    reveal_strlit("keys.");
    reveal_strlit("\n\n");
    a_number_is_a_word(flags as nat);
    a_number_is_a_word(keys as nat);
    a_number_is_a_word(of as nat);
    let p0 = "\n"@;
    a_gap_adds_nothing(Seq::<char>::empty(), "\n"@);
    assert(p0 =~= Seq::<char>::empty() + "\n"@);
    a_word_begins(p0, decimal(flags as nat));
    let p1 = p0 + decimal(flags as nat);
    a_gap_adds_nothing(p1, " "@);
    a_word_begins(p1 + " "@, "flags"@);
    a_gap_adds_nothing(p1 + " "@ + "flags"@, " "@);
    a_word_begins(p1 + " "@ + "flags"@ + " "@, "over"@);
    a_gap_adds_nothing(p1 + " "@ + "flags"@ + " "@ + "over"@, " "@);
    let p2 = p1 + " flags over "@;
    assert(p2 =~= p1 + " "@ + "flags"@ + " "@ + "over"@ + " "@);
    a_word_begins(p2, decimal(keys as nat));
    let p3 = p2 + decimal(keys as nat);
    a_gap_adds_nothing(p3, " "@);
    a_word_begins(p3 + " "@, "of"@);
    a_gap_adds_nothing(p3 + " "@ + "of"@, " "@);
    let p4 = p3 + " of "@;
    assert(p4 =~= p3 + " "@ + "of"@ + " "@);
    a_word_begins(p4, decimal(of as nat));
    let p5 = p4 + decimal(of as nat);
    a_gap_adds_nothing(p5, " "@);
    a_word_begins(p5 + " "@, "keys."@);
    a_gap_adds_nothing(p5 + " "@ + "keys."@, "\n\n"@);
    let p6 = p5 + " keys.\n\n"@;
    assert(p6 =~= p5 + " "@ + "keys."@ + "\n\n"@);
    assert(count_line_text(flags, keys, of) == p6);
}

/// Each number of `detail_heading` stands in its place among the words.
#[verifier::rlimit(30)]
pub proof fn the_words_of_detail_heading_stand_in_order(key: u8)
    requires
        is_word(name_of(key)),
    ensures
        words_of(detail_heading_text(key)).len() == 3,
        words_of(detail_heading_text(key))[1] == decimal(key as nat),
        words_of(detail_heading_text(key))[2] == "("@ + name_of(key) + "):"@,
{
    reveal_strlit("\n  key ");
    reveal_strlit("\n  ");
    reveal_strlit("key");
    reveal_strlit(" ");
    reveal_strlit(" (");
    reveal_strlit("(");
    reveal_strlit("):\n");
    reveal_strlit("):");
    reveal_strlit("\n");
    a_number_is_a_word(key as nat);
    let p0 = "\n  key "@;
    a_gap_adds_nothing(Seq::<char>::empty(), "\n  "@);
    a_word_begins(Seq::<char>::empty() + "\n  "@, "key"@);
    a_gap_adds_nothing(Seq::<char>::empty() + "\n  "@ + "key"@, " "@);
    assert(p0 =~= Seq::<char>::empty() + "\n  "@ + "key"@ + " "@);
    a_word_begins(p0, decimal(key as nat));
    let p1 = p0 + decimal(key as nat);
    a_gap_adds_nothing(p1, " "@);
    a_word_begins(p1 + " "@, "("@);
    let p2 = p1 + " ("@;
    assert(p2 =~= p1 + " "@ + "("@);
    a_word_goes_on(p2, name_of(key));
    let p3 = p2 + name_of(key);
    a_word_goes_on(p3, "):"@);
    a_gap_adds_nothing(p3 + "):"@, "\n"@);
    let p4 = p3 + "):\n"@;
    assert(p4 =~= p3 + "):"@ + "\n"@);
    assert(detail_heading_text(key) == p4);
}

/// Each number of `take_name` stands in its place among the words.
#[verifier::rlimit(30)]
pub proof fn the_words_of_take_name_stand_in_order(key: u8, side: Seq<char>)
    requires
        is_word(name_of(key)),
        is_word(side),
    ensures
        words_of(take_name_text(key, side)).len() == 1,
        words_of(take_name_text(key, side))[0] == "key"@ + decimal(key as nat) + "_"@ + name_of(key) + "_"@ + side + ".wav"@,
{
    reveal_strlit("key");
    reveal_strlit("_");
    reveal_strlit(".wav");
    a_number_is_a_word(key as nat);
    let p0 = "key"@;
    a_word_begins(Seq::<char>::empty(), "key"@);
    assert(p0 =~= Seq::<char>::empty() + "key"@);
    a_word_goes_on(p0, decimal(key as nat));
    let p1 = p0 + decimal(key as nat);
    a_word_goes_on(p1, "_"@);
    let p2 = p1 + "_"@;
    a_word_goes_on(p2, name_of(key));
    let p3 = p2 + name_of(key);
    a_word_goes_on(p3, "_"@);
    let p4 = p3 + "_"@;
    a_word_goes_on(p4, side);
    let p5 = p4 + side;
    a_word_goes_on(p5, ".wav"@);
    let p6 = p5 + ".wav"@;
    assert(take_name_text(key, side) == p6);
}

} // verus!
