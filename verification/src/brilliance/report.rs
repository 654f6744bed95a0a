//! The tables of the brilliance.

use crate::keys::{name_of, note_name};
use crate::text::{decimal, left_in, print, push_left, push_right, right_in};
use crate::words::{a_field_begins, a_gap_adds_nothing, a_left_word_begins, a_left_word_goes_on, a_number_is_a_word, a_right_word_begins, a_word_begins, a_word_goes_on, digits_alone, fields_of, is_word, one_field, one_more_field, the_field_goes_on, words_of};
use vstd::prelude::*;

verus! {

/// What is said where the recordings are not on disk.
pub open spec fn missing_text(sfz: Seq<char>) -> Seq<char> {
    "the reference piano is not here: "@
        + sfz
}

/// What is said where the recordings are not on disk.
pub fn missing(sfz: &str) -> (text: String)
    ensures
        text@ == missing_text(sfz@),
{
    let mut out = String::from_str("the reference piano is not here: ");
    out.append(sfz);
    out
}

/// What is held against what.
pub open spec fn heading_text(preset: Seq<char>, sfz: Seq<char>) -> Seq<char> {
    "brilliance audit: engine on "@
        + preset
        + ", reference "@
        + sfz
        + "\n"@
}

/// What is held against what.
pub fn heading(preset: &str, sfz: &str) -> (text: String)
    ensures
        text@ == heading_text(preset@, sfz@),
{
    let mut out = String::from_str("brilliance audit: engine on ");
    out.append(preset);
    out.append(", reference ");
    out.append(sfz);
    out.append("\n");
    out
}

/// The bands, and when they are read.
pub open spec fn bands_line_text(low_from: Seq<char>, low_to: Seq<char>, high_from: Seq<char>, high_to: Seq<char>, first: Seq<char>, second: Seq<char>, full_from: Seq<char>, full_to: Seq<char>) -> Seq<char> {
    "  bands "@
        + low_from
        + "-"@
        + low_to
        + " Hz and "@
        + high_from
        + "-"@
        + high_to
        + " Hz, at "@
        + first
        + " s and "@
        + second
        + " s, level-matched over "@
        + full_from
        + "-"@
        + full_to
        + " Hz\n"@
}

/// The bands, and when they are read.
pub fn bands_line(low_from: &str, low_to: &str, high_from: &str, high_to: &str, first: &str, second: &str, full_from: &str, full_to: &str) -> (text: String)
    ensures
        text@ == bands_line_text(low_from@, low_to@, high_from@, high_to@, first@, second@, full_from@, full_to@),
{
    let mut out = String::from_str("  bands ");
    out.append(low_from);
    out.append("-");
    out.append(low_to);
    out.append(" Hz and ");
    out.append(high_from);
    out.append("-");
    out.append(high_to);
    out.append(" Hz, at ");
    out.append(first);
    out.append(" s and ");
    out.append(second);
    out.append(" s, level-matched over ");
    out.append(full_from);
    out.append("-");
    out.append(full_to);
    out.append(" Hz\n");
    out
}

/// What the floor is.
pub open spec fn floor_line_text(velocity: u8) -> Seq<char> {
    "  noise floor: the same key at velocity "@
        + decimal(velocity as nat)
        + " (the layer next door)\n"@
}

/// What the floor is.
pub fn floor_line(velocity: u8) -> (text: String)
    ensures
        text@ == floor_line_text(velocity),
{
    let mut out = String::from_str("  noise floor: the same key at velocity ");
    out.append(print(velocity as u64).as_str());
    out.append(" (the layer next door)\n");
    out
}

/// The shelf.
pub open spec fn shelf_line_text(gain: Seq<char>, hz: Seq<char>) -> Seq<char> {
    "  master shelf: "@
        + gain
        + " dB above "@
        + hz
        + " Hz\n\n"@
}

/// The shelf.
pub fn shelf_line(gain: &str, hz: &str) -> (text: String)
    ensures
        text@ == shelf_line_text(gain@, hz@),
{
    let mut out = String::from_str("  master shelf: ");
    out.append(gain);
    out.append(" dB above ");
    out.append(hz);
    out.append(" Hz\n\n");
    out
}

/// What a pass of the continuation came to.
pub open spec fn pass_line_text(pass: usize, tenor_low: Seq<char>, tenor_high: Seq<char>, top_low: Seq<char>, top_high: Seq<char>) -> Seq<char> {
    "  trim pass "@
        + decimal(pass as nat)
        + ": tenor 2-6k "@
        + tenor_low
        + " 6-12k "@
        + tenor_high
        + "   top 2-6k "@
        + top_low
        + " 6-12k "@
        + top_high
        + "\n"@
}

/// What a pass of the continuation came to.
pub fn pass_line(pass: usize, tenor_low: &str, tenor_high: &str, top_low: &str, top_high: &str) -> (text: String)
    ensures
        text@ == pass_line_text(pass, tenor_low@, tenor_high@, top_low@, top_high@),
{
    let mut out = String::from_str("  trim pass ");
    out.append(print(pass as u64).as_str());
    out.append(": tenor 2-6k ");
    out.append(tenor_low);
    out.append(" 6-12k ");
    out.append(tenor_high);
    out.append("   top 2-6k ");
    out.append(top_low);
    out.append(" 6-12k ");
    out.append(top_high);
    out.append("\n");
    out
}

/// The two bands at the two instants, as they are printed.
pub struct Quad {
    pub low_first: String,
    pub high_first: String,
    pub low_second: String,
    pub high_second: String,
}

/// One key, as it is printed.
pub struct KeyRow {
    pub key: u8,
    pub engine: Quad,
    pub floor: Quad,
    pub gap_full: String,
    pub gap_low: String,
    pub gap_high: String,
    pub gap_floor_low: String,
    pub gap_floor_high: String,
}

/// The head of the keys.
pub const KEYS: &'static str = "| key | note | 2-6k @0.1 | 6-12k @0.1 | 2-6k @1.0 | 6-12k @1.0 | floor @0.1 | floor \
    @1.0 | d full | d 2-6k | d 6-12k | d floor \
    |\n|---|---|---|---|---|---|---|---|---|---|---|---|\n";

/// A row of the keys.
pub open spec fn key_row_text(r: KeyRow) -> Seq<char> {
    "| "@
        + decimal(r.key as nat)
        + " | "@
        + name_of(r.key)
        + " | "@
        + r.engine.low_first@
        + " | "@
        + r.engine.high_first@
        + " | "@
        + r.engine.low_second@
        + " | "@
        + r.engine.high_second@
        + " | "@
        + r.floor.low_first@
        + "/"@
        + r.floor.high_first@
        + " | "@
        + r.floor.low_second@
        + "/"@
        + r.floor.high_second@
        + " | "@
        + r.gap_full@
        + " | "@
        + r.gap_low@
        + " | "@
        + r.gap_high@
        + " | "@
        + r.gap_floor_low@
        + "/"@
        + r.gap_floor_high@
        + " |\n"@
}

/// A row of the keys.
pub fn key_row(r: &KeyRow) -> (text: String)
    ensures
        text@ == key_row_text(*r),
{
    let mut out = String::from_str("| ");
    out.append(print(r.key as u64).as_str());
    out.append(" | ");
    out.append(note_name(r.key).as_str());
    out.append(" | ");
    out.append(r.engine.low_first.as_str());
    out.append(" | ");
    out.append(r.engine.high_first.as_str());
    out.append(" | ");
    out.append(r.engine.low_second.as_str());
    out.append(" | ");
    out.append(r.engine.high_second.as_str());
    out.append(" | ");
    out.append(r.floor.low_first.as_str());
    out.append("/");
    out.append(r.floor.high_first.as_str());
    out.append(" | ");
    out.append(r.floor.low_second.as_str());
    out.append("/");
    out.append(r.floor.high_second.as_str());
    out.append(" | ");
    out.append(r.gap_full.as_str());
    out.append(" | ");
    out.append(r.gap_low.as_str());
    out.append(" | ");
    out.append(r.gap_high.as_str());
    out.append(" | ");
    out.append(r.gap_floor_low.as_str());
    out.append("/");
    out.append(r.gap_floor_high.as_str());
    out.append(" |\n");
    out
}

/// The rows of the keys.
pub open spec fn key_rows_text(rows: Seq<KeyRow>) -> Seq<char>
    decreases rows.len(),
{
    if rows.len() == 0 {
        Seq::empty()
    } else {
        key_rows_text(rows.drop_last()) + key_row_text(rows.last())
    }
}

/// The rows of the keys.
pub fn key_rows(rows: &Vec<KeyRow>) -> (text: String)
    ensures
        text@ == key_rows_text(rows@),
{
    let mut out = String::new();
    let mut i: usize = 0;
    proof {
        assert(rows@.take(0) =~= Seq::<KeyRow>::empty());
    }
    while i < rows.len()
        invariant
            i <= rows.len(),
            out@ == key_rows_text(rows@.take(i as int)),
        decreases rows.len() - i,
    {
        proof {
            assert(rows@.take(i + 1).drop_last() =~= rows@.take(i as int));
        }
        out.append(key_row(&rows[i]).as_str());
        i = i + 1;
    }
    proof {
        assert(rows@.take(i as int) =~= rows@);
    }
    out
}

/// One row of the registers, as it is printed.
pub struct Four {
    pub name: String,
    pub cells: Quad,
}

/// The head of the registers.
pub const REGISTERS: &'static str = "\nregister        2-6k @0.1  6-12k @0.1  2-6k @1.0  6-12k @1.0\n";

/// A row of the registers.
pub open spec fn four_row_text(r: Four) -> Seq<char> {
    Seq::<char>::empty()
        + left_in(r.name@, 14)
        + " "@
        + right_in(r.cells.low_first@, 10)
        + " "@
        + right_in(r.cells.high_first@, 11)
        + " "@
        + right_in(r.cells.low_second@, 10)
        + " "@
        + right_in(r.cells.high_second@, 11)
        + "\n"@
}

/// A row of the registers.
pub fn four_row(r: &Four) -> (text: String)
    ensures
        text@ == four_row_text(*r),
{
    let mut out = String::new();
    push_left(&mut out, r.name.as_str(), 14);
    out.append(" ");
    push_right(&mut out, r.cells.low_first.as_str(), 10);
    out.append(" ");
    push_right(&mut out, r.cells.high_first.as_str(), 11);
    out.append(" ");
    push_right(&mut out, r.cells.low_second.as_str(), 10);
    out.append(" ");
    push_right(&mut out, r.cells.high_second.as_str(), 11);
    out.append("\n");
    out
}

/// The rows of the registers.
pub open spec fn four_rows_text(rows: Seq<Four>) -> Seq<char>
    decreases rows.len(),
{
    if rows.len() == 0 {
        Seq::empty()
    } else {
        four_rows_text(rows.drop_last()) + four_row_text(rows.last())
    }
}

/// The rows of the registers.
pub fn four_rows(rows: &Vec<Four>) -> (text: String)
    ensures
        text@ == four_rows_text(rows@),
{
    let mut out = String::new();
    let mut i: usize = 0;
    proof {
        assert(rows@.take(0) =~= Seq::<Four>::empty());
    }
    while i < rows.len()
        invariant
            i <= rows.len(),
            out@ == four_rows_text(rows@.take(i as int)),
        decreases rows.len() - i,
    {
        proof {
            assert(rows@.take(i + 1).drop_last() =~= rows@.take(i as int));
        }
        out.append(four_row(&rows[i]).as_str());
        i = i + 1;
    }
    proof {
        assert(rows@.take(i as int) =~= rows@);
    }
    out
}

/// The head of the bands' decays.
pub const DECAYS: &'static str = "\nband decay 0.1 -> 1 s, engine - reference (dB); negative = the engine's band dies \
    faster                                                    \nregister             \
    full       2-6k      6-12k   floor 2-6k/6-12k\n  a cell marked `≥` has its reference \
    side inside the recording's own floor and is a lower bound; `≤` is the engine's side, \
    `?` is both (`DECISIONS.md` 319)\n";

/// The decays of one register, as they are printed.
pub struct DecayRow {
    pub name: String,
    pub full: String,
    pub low: String,
    pub high: String,
    pub floor_low: String,
    pub floor_high: String,
}

/// A row of the decays.
pub open spec fn decay_row_text(r: DecayRow) -> Seq<char> {
    Seq::<char>::empty()
        + left_in(r.name@, 14)
        + " "@
        + r.full@
        + " "@
        + r.low@
        + " "@
        + r.high@
        + " "@
        + right_in(r.floor_low@, 9)
        + "/"@
        + left_in(r.floor_high@, 8)
        + "\n"@
}

/// A row of the decays.
pub fn decay_row(r: &DecayRow) -> (text: String)
    ensures
        text@ == decay_row_text(*r),
{
    let mut out = String::new();
    push_left(&mut out, r.name.as_str(), 14);
    out.append(" ");
    out.append(r.full.as_str());
    out.append(" ");
    out.append(r.low.as_str());
    out.append(" ");
    out.append(r.high.as_str());
    out.append(" ");
    push_right(&mut out, r.floor_low.as_str(), 9);
    out.append("/");
    push_left(&mut out, r.floor_high.as_str(), 8);
    out.append("\n");
    out
}

/// The row of all of the decays.
pub open spec fn decay_total_text(r: DecayRow) -> Seq<char> {
    Seq::<char>::empty()
        + left_in(r.name@, 14)
        + " "@
        + right_in(r.full@, 10)
        + " "@
        + right_in(r.low@, 10)
        + " "@
        + right_in(r.high@, 10)
        + " "@
        + right_in(r.floor_low@, 9)
        + "/"@
        + left_in(r.floor_high@, 8)
        + "\n"@
}

/// The row of all of the decays.
pub fn decay_total(r: &DecayRow) -> (text: String)
    ensures
        text@ == decay_total_text(*r),
{
    let mut out = String::new();
    push_left(&mut out, r.name.as_str(), 14);
    out.append(" ");
    push_right(&mut out, r.full.as_str(), 10);
    out.append(" ");
    push_right(&mut out, r.low.as_str(), 10);
    out.append(" ");
    push_right(&mut out, r.high.as_str(), 10);
    out.append(" ");
    push_right(&mut out, r.floor_low.as_str(), 9);
    out.append("/");
    push_left(&mut out, r.floor_high.as_str(), 8);
    out.append("\n");
    out
}

/// One fundamental's tail, as it is printed.
pub struct TailRow {
    pub key: u8,
    pub engine: Option<String>,
    pub reference: Option<String>,
    pub ratio: Option<String>,
    pub reference_floor: String,
    pub engine_floor: String,
}

/// The head of the tails.
pub const TAILS: &'static str = "\nthe fundamental's tail: fitted T60 of the band around f0, seconds\n key  note   eng \
    T60   ref T60   eng/ref  ref floor  eng floor\n";

/// A decay, or a dash where it could not be fitted.
pub open spec fn shown_text(v: Option<String>) -> Seq<char> {
    match v {
        None => "     -"@,
        Some(s) => s@,
    }
}

/// A decay, or a dash where it could not be fitted.
pub fn shown(v: &Option<String>) -> (r: String)
    ensures
        r@ == shown_text(*v),
{
    match v {
        None => String::from_str("     -"),
        Some(s) => s.clone(),
    }
}

/// A row of the tails.
pub open spec fn tail_row_text(r: TailRow) -> Seq<char> {
    Seq::<char>::empty()
        + right_in(decimal(r.key as nat), 4)
        + " "@
        + right_in(name_of(r.key), 5)
        + " "@
        + right_in(shown_text(r.engine), 9)
        + " "@
        + right_in(shown_text(r.reference), 9)
        + " "@
        + right_in(shown_text(r.ratio), 9)
        + " "@
        + right_in(r.reference_floor@, 10)
        + " "@
        + right_in(r.engine_floor@, 10)
        + "\n"@
}

/// A row of the tails.
pub fn tail_row(r: &TailRow) -> (text: String)
    ensures
        text@ == tail_row_text(*r),
{
    let mut out = String::new();
    push_right(&mut out, print(r.key as u64).as_str(), 4);
    out.append(" ");
    push_right(&mut out, note_name(r.key).as_str(), 5);
    out.append(" ");
    push_right(&mut out, shown(&r.engine).as_str(), 9);
    out.append(" ");
    push_right(&mut out, shown(&r.reference).as_str(), 9);
    out.append(" ");
    push_right(&mut out, shown(&r.ratio).as_str(), 9);
    out.append(" ");
    push_right(&mut out, r.reference_floor.as_str(), 10);
    out.append(" ");
    push_right(&mut out, r.engine_floor.as_str(), 10);
    out.append("\n");
    out
}

/// The tails of one register, as they are printed.
pub struct RegisterTail {
    pub name: String,
    pub engine: String,
    pub reference: String,
    pub engine_count: usize,
    pub reference_count: usize,
    pub floor: String,
}

/// A row of the registers' tails.
pub open spec fn register_tail_text(r: RegisterTail) -> Seq<char> {
    Seq::<char>::empty()
        + left_in(r.name@, 14)
        + " eng T60 "@
        + right_in(r.engine@, 6)
        + "  ref T60 "@
        + right_in(r.reference@, 6)
        + "   n "@
        + right_in(decimal(r.engine_count as nat), 2)
        + "/"@
        + left_in(decimal(r.reference_count as nat), 2)
        + "   ref floor "@
        + right_in(r.floor@, 5)
        + " dB\n"@
}

/// A row of the registers' tails.
pub fn register_tail(r: &RegisterTail) -> (text: String)
    ensures
        text@ == register_tail_text(*r),
{
    let mut out = String::new();
    push_left(&mut out, r.name.as_str(), 14);
    out.append(" eng T60 ");
    push_right(&mut out, r.engine.as_str(), 6);
    out.append("  ref T60 ");
    push_right(&mut out, r.reference.as_str(), 6);
    out.append("   n ");
    push_right(&mut out, print(r.engine_count as u64).as_str(), 2);
    out.append("/");
    push_left(&mut out, print(r.reference_count as u64).as_str(), 2);
    out.append("   ref floor ");
    push_right(&mut out, r.floor.as_str(), 5);
    out.append(" dB\n");
    out
}

/// The head of the partials.
pub const PARTIALS: &'static str = "\nper-partial T60, seconds: the engine's band around partial k against the \
    recording's\n key  note             k=1             k=2             k=4             \
    k=8            k=16   (eng / ref)\n";

/// How long one partial rings, as it is printed.
pub struct PartialDecay {
    pub engine: Option<String>,
    pub reference: Option<String>,
}

/// How long one partial rings, on either side.
pub open spec fn ringing_text(p: PartialDecay) -> Seq<char> {
    shown_text(p.engine) + " /"@ + shown_text(p.reference)
}

/// How long one partial rings, on either side.
pub fn ringing(p: &PartialDecay) -> (text: String)
    ensures
        text@ == ringing_text(*p),
{
    let mut out = shown(&p.engine);
    out.append(" /");
    out.append(shown(&p.reference).as_str());
    out
}

/// A cell of the partials.
pub open spec fn ringing_cell_text(p: PartialDecay) -> Seq<char> {
    Seq::<char>::empty()
        + right_in(ringing_text(p), 16)
}

/// A cell of the partials.
pub fn ringing_cell(p: &PartialDecay) -> (text: String)
    ensures
        text@ == ringing_cell_text(*p),
{
    let mut out = String::new();
    push_right(&mut out, ringing(p).as_str(), 16);
    out
}

/// The cells of a key's partials.
pub open spec fn ringing_cells_text(rows: Seq<PartialDecay>) -> Seq<char>
    decreases rows.len(),
{
    if rows.len() == 0 {
        Seq::empty()
    } else {
        ringing_cells_text(rows.drop_last()) + ringing_cell_text(rows.last())
    }
}

/// The cells of a key's partials.
pub fn ringing_cells(rows: &Vec<PartialDecay>) -> (text: String)
    ensures
        text@ == ringing_cells_text(rows@),
{
    let mut out = String::new();
    let mut i: usize = 0;
    proof {
        assert(rows@.take(0) =~= Seq::<PartialDecay>::empty());
    }
    while i < rows.len()
        invariant
            i <= rows.len(),
            out@ == ringing_cells_text(rows@.take(i as int)),
        decreases rows.len() - i,
    {
        proof {
            assert(rows@.take(i + 1).drop_last() =~= rows@.take(i as int));
        }
        out.append(ringing_cell(&rows[i]).as_str());
        i = i + 1;
    }
    proof {
        assert(rows@.take(i as int) =~= rows@);
    }
    out
}

/// One key's partials, as they are printed.
pub struct ProbedKey {
    pub key: u8,
    pub partials: Vec<PartialDecay>,
}

/// A row of the partials.
pub open spec fn probed_row_text(r: ProbedKey) -> Seq<char> {
    Seq::<char>::empty()
        + right_in(decimal(r.key as nat), 4)
        + " "@
        + right_in(name_of(r.key), 5)
        + ringing_cells_text(r.partials@)
        + "\n"@
}

/// A row of the partials.
pub fn probed_row(r: &ProbedKey) -> (text: String)
    ensures
        text@ == probed_row_text(*r),
{
    let mut out = String::new();
    push_right(&mut out, print(r.key as u64).as_str(), 4);
    out.append(" ");
    push_right(&mut out, note_name(r.key).as_str(), 5);
    out.append(ringing_cells(&r.partials).as_str());
    out.append("\n");
    out
}

/// A number of a table.
pub open spec fn number_cell_text(s: String) -> Seq<char> {
    Seq::<char>::empty()
        + right_in(s@, 8)
}

/// A number of a table.
pub fn number_cell(s: &String) -> (text: String)
    ensures
        text@ == number_cell_text(*s),
{
    let mut out = String::new();
    push_right(&mut out, s.as_str(), 8);
    out
}

/// The numbers of a row.
pub open spec fn number_cells_text(rows: Seq<String>) -> Seq<char>
    decreases rows.len(),
{
    if rows.len() == 0 {
        Seq::empty()
    } else {
        number_cells_text(rows.drop_last()) + number_cell_text(rows.last())
    }
}

/// The numbers of a row.
pub fn number_cells(rows: &Vec<String>) -> (text: String)
    ensures
        text@ == number_cells_text(rows@),
{
    let mut out = String::new();
    let mut i: usize = 0;
    proof {
        assert(rows@.take(0) =~= Seq::<String>::empty());
    }
    while i < rows.len()
        invariant
            i <= rows.len(),
            out@ == number_cells_text(rows@.take(i as int)),
        decreases rows.len() - i,
    {
        proof {
            assert(rows@.take(i + 1).drop_last() =~= rows@.take(i as int));
        }
        out.append(number_cell(&rows[i]).as_str());
        i = i + 1;
    }
    proof {
        assert(rows@.take(i as int) =~= rows@);
    }
    out
}

/// One row of a table of bands, as it is printed.
pub struct BandsRow {
    pub name: String,
    pub cells: Vec<String>,
}

/// A row of the compass summed.
pub open spec fn summed_row_text(r: BandsRow) -> Seq<char> {
    Seq::<char>::empty()
        + left_in(r.name@, 20)
        + number_cells_text(r.cells@)
        + "\n"@
}

/// A row of the compass summed.
pub fn summed_row(r: &BandsRow) -> (text: String)
    ensures
        text@ == summed_row_text(*r),
{
    let mut out = String::new();
    push_left(&mut out, r.name.as_str(), 20);
    out.append(number_cells(&r.cells).as_str());
    out.append("\n");
    out
}

/// A row of the phrases' octaves.
pub open spec fn octave_row_text(r: BandsRow) -> Seq<char> {
    Seq::<char>::empty()
        + left_in(r.name@, 18)
        + number_cells_text(r.cells@)
        + "\n"@
}

/// A row of the phrases' octaves.
pub fn octave_row(r: &BandsRow) -> (text: String)
    ensures
        text@ == octave_row_text(*r),
{
    let mut out = String::new();
    push_left(&mut out, r.name.as_str(), 18);
    out.append(number_cells(&r.cells).as_str());
    out.append("\n");
    out
}

/// The rows of the phrases' octaves.
pub open spec fn octave_rows_text(rows: Seq<BandsRow>) -> Seq<char>
    decreases rows.len(),
{
    if rows.len() == 0 {
        Seq::empty()
    } else {
        octave_rows_text(rows.drop_last()) + octave_row_text(rows.last())
    }
}

/// The rows of the phrases' octaves.
pub fn octave_rows(rows: &Vec<BandsRow>) -> (text: String)
    ensures
        text@ == octave_rows_text(rows@),
{
    let mut out = String::new();
    let mut i: usize = 0;
    proof {
        assert(rows@.take(0) =~= Seq::<BandsRow>::empty());
    }
    while i < rows.len()
        invariant
            i <= rows.len(),
            out@ == octave_rows_text(rows@.take(i as int)),
        decreases rows.len() - i,
    {
        proof {
            assert(rows@.take(i + 1).drop_last() =~= rows@.take(i as int));
        }
        out.append(octave_row(&rows[i]).as_str());
        i = i + 1;
    }
    proof {
        assert(rows@.take(i as int) =~= rows@);
    }
    out
}

/// The head of the compass summed.
pub const SUMMED: &'static str = "\ncompass summed, engine - reference, level-matched per key (dB):\nband \
    Hz                  125     250     500    1000    2000    4000    8000   16000    \
    2-6k   6-12k\n";

/// The head of the phrases' octaves.
pub const OCTAVES: &'static str = "\noctave bands, engine - reference, level-matched (dB):\nband Hz                \
    125     250     500    1000    2000    4000    8000   16000\n";

/// The head of the phrases.
pub const PHRASES: &'static str = "\nphrases (engine - reference, level-matched; floor is the layer next \
    door)\nphrase                  2-6k      6-12k  tilt dB/oct    f 2-6k    f \
    6-12k       f tilt\n";

/// One phrase, as it is printed.
pub struct PhraseRow {
    pub name: String,
    pub low: String,
    pub high: String,
    pub tilt: String,
    pub floor_low: String,
    pub floor_high: String,
    pub floor_tilt: String,
}

/// A row of the phrases.
pub open spec fn phrase_row_text(r: PhraseRow) -> Seq<char> {
    Seq::<char>::empty()
        + left_in(r.name@, 18)
        + " "@
        + right_in(r.low@, 9)
        + " "@
        + right_in(r.high@, 10)
        + " "@
        + right_in(r.tilt@, 12)
        + " "@
        + right_in(r.floor_low@, 9)
        + " "@
        + right_in(r.floor_high@, 10)
        + " "@
        + right_in(r.floor_tilt@, 12)
        + "\n"@
}

/// A row of the phrases.
pub fn phrase_row(r: &PhraseRow) -> (text: String)
    ensures
        text@ == phrase_row_text(*r),
{
    let mut out = String::new();
    push_left(&mut out, r.name.as_str(), 18);
    out.append(" ");
    push_right(&mut out, r.low.as_str(), 9);
    out.append(" ");
    push_right(&mut out, r.high.as_str(), 10);
    out.append(" ");
    push_right(&mut out, r.tilt.as_str(), 12);
    out.append(" ");
    push_right(&mut out, r.floor_low.as_str(), 9);
    out.append(" ");
    push_right(&mut out, r.floor_high.as_str(), 10);
    out.append(" ");
    push_right(&mut out, r.floor_tilt.as_str(), 12);
    out.append("\n");
    out
}

/// The rows of the phrases.
pub open spec fn phrase_rows_text(rows: Seq<PhraseRow>) -> Seq<char>
    decreases rows.len(),
{
    if rows.len() == 0 {
        Seq::empty()
    } else {
        phrase_rows_text(rows.drop_last()) + phrase_row_text(rows.last())
    }
}

/// The rows of the phrases.
pub fn phrase_rows(rows: &Vec<PhraseRow>) -> (text: String)
    ensures
        text@ == phrase_rows_text(rows@),
{
    let mut out = String::new();
    let mut i: usize = 0;
    proof {
        assert(rows@.take(0) =~= Seq::<PhraseRow>::empty());
    }
    while i < rows.len()
        invariant
            i <= rows.len(),
            out@ == phrase_rows_text(rows@.take(i as int)),
        decreases rows.len() - i,
    {
        proof {
            assert(rows@.take(i + 1).drop_last() =~= rows@.take(i as int));
        }
        out.append(phrase_row(&rows[i]).as_str());
        i = i + 1;
    }
    proof {
        assert(rows@.take(i as int) =~= rows@);
    }
    out
}

/// The cells of a `key_row` stand in the order of its columns, one number each.
#[verifier::rlimit(30)]
pub proof fn the_cells_of_a_key_row_stand_in_order(r: KeyRow)
    requires
        !name_of(r.key).contains('|'),
        !r.engine.low_first@.contains('|'),
        !r.engine.high_first@.contains('|'),
        !r.engine.low_second@.contains('|'),
        !r.engine.high_second@.contains('|'),
        !r.floor.low_first@.contains('|'),
        !r.floor.high_first@.contains('|'),
        !r.floor.low_second@.contains('|'),
        !r.floor.high_second@.contains('|'),
        !r.gap_full@.contains('|'),
        !r.gap_low@.contains('|'),
        !r.gap_high@.contains('|'),
        !r.gap_floor_low@.contains('|'),
        !r.gap_floor_high@.contains('|'),
    ensures
        fields_of(key_row_text(r), '|').len() == 14,
        fields_of(key_row_text(r), '|')[1] == " "@ + decimal(r.key as nat) + " "@,
        fields_of(key_row_text(r), '|')[2] == " "@ + name_of(r.key) + " "@,
        fields_of(key_row_text(r), '|')[3] == " "@ + r.engine.low_first@ + " "@,
        fields_of(key_row_text(r), '|')[4] == " "@ + r.engine.high_first@ + " "@,
        fields_of(key_row_text(r), '|')[5] == " "@ + r.engine.low_second@ + " "@,
        fields_of(key_row_text(r), '|')[6] == " "@ + r.engine.high_second@ + " "@,
        fields_of(key_row_text(r), '|')[7] == " "@ + r.floor.low_first@ + "/"@ + r.floor.high_first@ + " "@,
        fields_of(key_row_text(r), '|')[8] == " "@ + r.floor.low_second@ + "/"@ + r.floor.high_second@ + " "@,
        fields_of(key_row_text(r), '|')[9] == " "@ + r.gap_full@ + " "@,
        fields_of(key_row_text(r), '|')[10] == " "@ + r.gap_low@ + " "@,
        fields_of(key_row_text(r), '|')[11] == " "@ + r.gap_high@ + " "@,
        fields_of(key_row_text(r), '|')[12] == " "@ + r.gap_floor_low@ + "/"@ + r.gap_floor_high@ + " "@,
{
    reveal_strlit("| ");
    reveal_strlit(" ");
    reveal_strlit(" | ");
    reveal_strlit("/");
    reveal_strlit(" |\n");
    reveal_strlit("\n");
    digits_alone(r.key as nat, '|');
    let p0 = "| "@;
    one_field(Seq::<char>::empty(), '|');
    one_more_field(Seq::<char>::empty(), " "@, '|');
    assert(p0 =~= Seq::<char>::empty() + seq!['|'] + " "@);
    the_field_goes_on(p0, decimal(r.key as nat), '|');
    let p1 = p0 + decimal(r.key as nat);
    assert(" | "@ =~= " "@ + seq!['|'] + " "@);
    a_field_begins(p1, " | "@, " "@, " "@, '|');
    let p2 = p1 + " | "@;
    the_field_goes_on(p2, name_of(r.key), '|');
    let p3 = p2 + name_of(r.key);
    assert(" | "@ =~= " "@ + seq!['|'] + " "@);
    a_field_begins(p3, " | "@, " "@, " "@, '|');
    let p4 = p3 + " | "@;
    the_field_goes_on(p4, r.engine.low_first@, '|');
    let p5 = p4 + r.engine.low_first@;
    assert(" | "@ =~= " "@ + seq!['|'] + " "@);
    a_field_begins(p5, " | "@, " "@, " "@, '|');
    let p6 = p5 + " | "@;
    the_field_goes_on(p6, r.engine.high_first@, '|');
    let p7 = p6 + r.engine.high_first@;
    assert(" | "@ =~= " "@ + seq!['|'] + " "@);
    a_field_begins(p7, " | "@, " "@, " "@, '|');
    let p8 = p7 + " | "@;
    the_field_goes_on(p8, r.engine.low_second@, '|');
    let p9 = p8 + r.engine.low_second@;
    assert(" | "@ =~= " "@ + seq!['|'] + " "@);
    a_field_begins(p9, " | "@, " "@, " "@, '|');
    let p10 = p9 + " | "@;
    the_field_goes_on(p10, r.engine.high_second@, '|');
    let p11 = p10 + r.engine.high_second@;
    assert(" | "@ =~= " "@ + seq!['|'] + " "@);
    a_field_begins(p11, " | "@, " "@, " "@, '|');
    let p12 = p11 + " | "@;
    the_field_goes_on(p12, r.floor.low_first@, '|');
    let p13 = p12 + r.floor.low_first@;
    the_field_goes_on(p13, "/"@, '|');
    let p14 = p13 + "/"@;
    the_field_goes_on(p14, r.floor.high_first@, '|');
    let p15 = p14 + r.floor.high_first@;
    assert(" | "@ =~= " "@ + seq!['|'] + " "@);
    a_field_begins(p15, " | "@, " "@, " "@, '|');
    let p16 = p15 + " | "@;
    the_field_goes_on(p16, r.floor.low_second@, '|');
    let p17 = p16 + r.floor.low_second@;
    the_field_goes_on(p17, "/"@, '|');
    let p18 = p17 + "/"@;
    the_field_goes_on(p18, r.floor.high_second@, '|');
    let p19 = p18 + r.floor.high_second@;
    assert(" | "@ =~= " "@ + seq!['|'] + " "@);
    a_field_begins(p19, " | "@, " "@, " "@, '|');
    let p20 = p19 + " | "@;
    the_field_goes_on(p20, r.gap_full@, '|');
    let p21 = p20 + r.gap_full@;
    assert(" | "@ =~= " "@ + seq!['|'] + " "@);
    a_field_begins(p21, " | "@, " "@, " "@, '|');
    let p22 = p21 + " | "@;
    the_field_goes_on(p22, r.gap_low@, '|');
    let p23 = p22 + r.gap_low@;
    assert(" | "@ =~= " "@ + seq!['|'] + " "@);
    a_field_begins(p23, " | "@, " "@, " "@, '|');
    let p24 = p23 + " | "@;
    the_field_goes_on(p24, r.gap_high@, '|');
    let p25 = p24 + r.gap_high@;
    assert(" | "@ =~= " "@ + seq!['|'] + " "@);
    a_field_begins(p25, " | "@, " "@, " "@, '|');
    let p26 = p25 + " | "@;
    the_field_goes_on(p26, r.gap_floor_low@, '|');
    let p27 = p26 + r.gap_floor_low@;
    the_field_goes_on(p27, "/"@, '|');
    let p28 = p27 + "/"@;
    the_field_goes_on(p28, r.gap_floor_high@, '|');
    let p29 = p28 + r.gap_floor_high@;
    assert(" |\n"@ =~= " "@ + seq!['|'] + "\n"@);
    a_field_begins(p29, " |\n"@, " "@, "\n"@, '|');
    let p30 = p29 + " |\n"@;
    assert(key_row_text(r) == p30);
}

/// What the columns of the table under [`KEYS`] are named, in order.
#[verifier::rlimit(80)]
#[verifier::spinoff_prover]
pub proof fn the_columns_of_keys_are_named()
    ensures
        fields_of(KEYS@, '|').len() == 27,
        fields_of(KEYS@, '|')[1] == " key "@,
        fields_of(KEYS@, '|')[2] == " note "@,
        fields_of(KEYS@, '|')[3] == " 2-6k @0.1 "@,
        fields_of(KEYS@, '|')[4] == " 6-12k @0.1 "@,
        fields_of(KEYS@, '|')[5] == " 2-6k @1.0 "@,
        fields_of(KEYS@, '|')[6] == " 6-12k @1.0 "@,
        fields_of(KEYS@, '|')[7] == " floor @0.1 "@,
        fields_of(KEYS@, '|')[8] == " floor @1.0 "@,
        fields_of(KEYS@, '|')[9] == " d full "@,
        fields_of(KEYS@, '|')[10] == " d 2-6k "@,
        fields_of(KEYS@, '|')[11] == " d 6-12k "@,
        fields_of(KEYS@, '|')[12] == " d floor "@,
{
    reveal_strlit(" key ");
    reveal_strlit(" note ");
    reveal_strlit(" 2-6k @0.1 ");
    reveal_strlit(" 6-12k @0.1 ");
    reveal_strlit(" 2-6k @1.0 ");
    reveal_strlit(" 6-12k @1.0 ");
    reveal_strlit(" floor @0.1 ");
    reveal_strlit(" floor @1.0 ");
    reveal_strlit(" d full ");
    reveal_strlit(" d 2-6k ");
    reveal_strlit(" d 6-12k ");
    reveal_strlit(" d floor ");
    reveal_strlit("\n");
    reveal_strlit("---");
    reveal_strlit("| key | note | 2-6k @0.1 | 6-12k @0.1 | 2-6k @1.0 | 6-12k @1.0 | floor @0.1 | floor @1.0 | d full | d 2-6k | d 6-12k | d floor |\n|---|---|---|---|---|---|---|---|---|---|---|---|\n");
    let h0 = Seq::<char>::empty();
    one_field(h0, '|');
    one_more_field(h0, " key "@, '|');
    let h1 = h0 + seq!['|'] + " key "@;
    one_more_field(h1, " note "@, '|');
    let h2 = h1 + seq!['|'] + " note "@;
    one_more_field(h2, " 2-6k @0.1 "@, '|');
    let h3 = h2 + seq!['|'] + " 2-6k @0.1 "@;
    one_more_field(h3, " 6-12k @0.1 "@, '|');
    let h4 = h3 + seq!['|'] + " 6-12k @0.1 "@;
    one_more_field(h4, " 2-6k @1.0 "@, '|');
    let h5 = h4 + seq!['|'] + " 2-6k @1.0 "@;
    one_more_field(h5, " 6-12k @1.0 "@, '|');
    let h6 = h5 + seq!['|'] + " 6-12k @1.0 "@;
    one_more_field(h6, " floor @0.1 "@, '|');
    let h7 = h6 + seq!['|'] + " floor @0.1 "@;
    one_more_field(h7, " floor @1.0 "@, '|');
    let h8 = h7 + seq!['|'] + " floor @1.0 "@;
    one_more_field(h8, " d full "@, '|');
    let h9 = h8 + seq!['|'] + " d full "@;
    one_more_field(h9, " d 2-6k "@, '|');
    let h10 = h9 + seq!['|'] + " d 2-6k "@;
    one_more_field(h10, " d 6-12k "@, '|');
    let h11 = h10 + seq!['|'] + " d 6-12k "@;
    one_more_field(h11, " d floor "@, '|');
    let h12 = h11 + seq!['|'] + " d floor "@;
    one_more_field(h12, "\n"@, '|');
    let h13 = h12 + seq!['|'] + "\n"@;
    one_more_field(h13, "---"@, '|');
    let h14 = h13 + seq!['|'] + "---"@;
    one_more_field(h14, "---"@, '|');
    let h15 = h14 + seq!['|'] + "---"@;
    one_more_field(h15, "---"@, '|');
    let h16 = h15 + seq!['|'] + "---"@;
    one_more_field(h16, "---"@, '|');
    let h17 = h16 + seq!['|'] + "---"@;
    one_more_field(h17, "---"@, '|');
    let h18 = h17 + seq!['|'] + "---"@;
    one_more_field(h18, "---"@, '|');
    let h19 = h18 + seq!['|'] + "---"@;
    one_more_field(h19, "---"@, '|');
    let h20 = h19 + seq!['|'] + "---"@;
    one_more_field(h20, "---"@, '|');
    let h21 = h20 + seq!['|'] + "---"@;
    one_more_field(h21, "---"@, '|');
    let h22 = h21 + seq!['|'] + "---"@;
    one_more_field(h22, "---"@, '|');
    let h23 = h22 + seq!['|'] + "---"@;
    one_more_field(h23, "---"@, '|');
    let h24 = h23 + seq!['|'] + "---"@;
    one_more_field(h24, "---"@, '|');
    let h25 = h24 + seq!['|'] + "---"@;
    one_more_field(h25, "\n"@, '|');
    let h26 = h25 + seq!['|'] + "\n"@;
    assert(KEYS@ =~= h26);
}

/// The `key_rows` are printed one after another, in their order.
pub proof fn the_key_rows_follow_each_other(a: Seq<KeyRow>, b: Seq<KeyRow>)
    ensures
        key_rows_text(a + b) == key_rows_text(a) + key_rows_text(b),
        a.len() == 1 ==> key_rows_text(a) == key_row_text(a[0]),
        key_rows_text(Seq::<KeyRow>::empty()).len() == 0,
    decreases b.len(),
{
    if a.len() == 1 {
        assert(a.drop_last() =~= Seq::<KeyRow>::empty());
        assert(key_rows_text(a.drop_last()) =~= Seq::<char>::empty());
        assert(key_rows_text(a) =~= key_row_text(a[0]));
    }
    if b.len() == 0 {
        assert(a + b =~= a);
        assert(key_rows_text(a) + key_rows_text(b) =~= key_rows_text(a));
    } else {
        the_key_rows_follow_each_other(a, b.drop_last());
        assert((a + b).drop_last() =~= a + b.drop_last());
        assert((a + b).last() == b.last());
        assert(key_rows_text(a) + key_rows_text(b.drop_last()) + key_row_text(b.last()) =~= key_rows_text(a) + (key_rows_text(
            b.drop_last(),
        ) + key_row_text(b.last())));
    }
}

/// The `four_rows` are printed one after another, in their order.
pub proof fn the_four_rows_follow_each_other(a: Seq<Four>, b: Seq<Four>)
    ensures
        four_rows_text(a + b) == four_rows_text(a) + four_rows_text(b),
        a.len() == 1 ==> four_rows_text(a) == four_row_text(a[0]),
        four_rows_text(Seq::<Four>::empty()).len() == 0,
    decreases b.len(),
{
    if a.len() == 1 {
        assert(a.drop_last() =~= Seq::<Four>::empty());
        assert(four_rows_text(a.drop_last()) =~= Seq::<char>::empty());
        assert(four_rows_text(a) =~= four_row_text(a[0]));
    }
    if b.len() == 0 {
        assert(a + b =~= a);
        assert(four_rows_text(a) + four_rows_text(b) =~= four_rows_text(a));
    } else {
        the_four_rows_follow_each_other(a, b.drop_last());
        assert((a + b).drop_last() =~= a + b.drop_last());
        assert((a + b).last() == b.last());
        assert(four_rows_text(a) + four_rows_text(b.drop_last()) + four_row_text(b.last()) =~= four_rows_text(a) + (four_rows_text(
            b.drop_last(),
        ) + four_row_text(b.last())));
    }
}

/// The `ringing_cells` are printed one after another, in their order.
pub proof fn the_ringing_cells_follow_each_other(a: Seq<PartialDecay>, b: Seq<PartialDecay>)
    ensures
        ringing_cells_text(a + b) == ringing_cells_text(a) + ringing_cells_text(b),
        a.len() == 1 ==> ringing_cells_text(a) == ringing_cell_text(a[0]),
        ringing_cells_text(Seq::<PartialDecay>::empty()).len() == 0,
    decreases b.len(),
{
    if a.len() == 1 {
        assert(a.drop_last() =~= Seq::<PartialDecay>::empty());
        assert(ringing_cells_text(a.drop_last()) =~= Seq::<char>::empty());
        assert(ringing_cells_text(a) =~= ringing_cell_text(a[0]));
    }
    if b.len() == 0 {
        assert(a + b =~= a);
        assert(ringing_cells_text(a) + ringing_cells_text(b) =~= ringing_cells_text(a));
    } else {
        the_ringing_cells_follow_each_other(a, b.drop_last());
        assert((a + b).drop_last() =~= a + b.drop_last());
        assert((a + b).last() == b.last());
        assert(ringing_cells_text(a) + ringing_cells_text(b.drop_last()) + ringing_cell_text(b.last()) =~= ringing_cells_text(a) + (ringing_cells_text(
            b.drop_last(),
        ) + ringing_cell_text(b.last())));
    }
}

/// The `number_cells` are printed one after another, in their order.
pub proof fn the_number_cells_follow_each_other(a: Seq<String>, b: Seq<String>)
    ensures
        number_cells_text(a + b) == number_cells_text(a) + number_cells_text(b),
        a.len() == 1 ==> number_cells_text(a) == number_cell_text(a[0]),
        number_cells_text(Seq::<String>::empty()).len() == 0,
    decreases b.len(),
{
    if a.len() == 1 {
        assert(a.drop_last() =~= Seq::<String>::empty());
        assert(number_cells_text(a.drop_last()) =~= Seq::<char>::empty());
        assert(number_cells_text(a) =~= number_cell_text(a[0]));
    }
    if b.len() == 0 {
        assert(a + b =~= a);
        assert(number_cells_text(a) + number_cells_text(b) =~= number_cells_text(a));
    } else {
        the_number_cells_follow_each_other(a, b.drop_last());
        assert((a + b).drop_last() =~= a + b.drop_last());
        assert((a + b).last() == b.last());
        assert(number_cells_text(a) + number_cells_text(b.drop_last()) + number_cell_text(b.last()) =~= number_cells_text(a) + (number_cells_text(
            b.drop_last(),
        ) + number_cell_text(b.last())));
    }
}

/// The `octave_rows` are printed one after another, in their order.
pub proof fn the_octave_rows_follow_each_other(a: Seq<BandsRow>, b: Seq<BandsRow>)
    ensures
        octave_rows_text(a + b) == octave_rows_text(a) + octave_rows_text(b),
        a.len() == 1 ==> octave_rows_text(a) == octave_row_text(a[0]),
        octave_rows_text(Seq::<BandsRow>::empty()).len() == 0,
    decreases b.len(),
{
    if a.len() == 1 {
        assert(a.drop_last() =~= Seq::<BandsRow>::empty());
        assert(octave_rows_text(a.drop_last()) =~= Seq::<char>::empty());
        assert(octave_rows_text(a) =~= octave_row_text(a[0]));
    }
    if b.len() == 0 {
        assert(a + b =~= a);
        assert(octave_rows_text(a) + octave_rows_text(b) =~= octave_rows_text(a));
    } else {
        the_octave_rows_follow_each_other(a, b.drop_last());
        assert((a + b).drop_last() =~= a + b.drop_last());
        assert((a + b).last() == b.last());
        assert(octave_rows_text(a) + octave_rows_text(b.drop_last()) + octave_row_text(b.last()) =~= octave_rows_text(a) + (octave_rows_text(
            b.drop_last(),
        ) + octave_row_text(b.last())));
    }
}

/// The `phrase_rows` are printed one after another, in their order.
pub proof fn the_phrase_rows_follow_each_other(a: Seq<PhraseRow>, b: Seq<PhraseRow>)
    ensures
        phrase_rows_text(a + b) == phrase_rows_text(a) + phrase_rows_text(b),
        a.len() == 1 ==> phrase_rows_text(a) == phrase_row_text(a[0]),
        phrase_rows_text(Seq::<PhraseRow>::empty()).len() == 0,
    decreases b.len(),
{
    if a.len() == 1 {
        assert(a.drop_last() =~= Seq::<PhraseRow>::empty());
        assert(phrase_rows_text(a.drop_last()) =~= Seq::<char>::empty());
        assert(phrase_rows_text(a) =~= phrase_row_text(a[0]));
    }
    if b.len() == 0 {
        assert(a + b =~= a);
        assert(phrase_rows_text(a) + phrase_rows_text(b) =~= phrase_rows_text(a));
    } else {
        the_phrase_rows_follow_each_other(a, b.drop_last());
        assert((a + b).drop_last() =~= a + b.drop_last());
        assert((a + b).last() == b.last());
        assert(phrase_rows_text(a) + phrase_rows_text(b.drop_last()) + phrase_row_text(b.last()) =~= phrase_rows_text(a) + (phrase_rows_text(
            b.drop_last(),
        ) + phrase_row_text(b.last())));
    }
}

/// Each number of `heading` stands in its place among the words.
#[verifier::rlimit(30)]
pub proof fn the_words_of_heading_stand_in_order(preset: Seq<char>, sfz: Seq<char>)
    requires
        is_word(preset),
        is_word(sfz),
    ensures
        words_of(heading_text(preset, sfz)).len() == 7,
        words_of(heading_text(preset, sfz))[4] == preset + ","@,
        words_of(heading_text(preset, sfz))[6] == sfz,
{
    reveal_strlit("brilliance audit: engine on ");
    reveal_strlit("brilliance");
    reveal_strlit(" ");
    reveal_strlit("audit:");
    reveal_strlit("engine");
    reveal_strlit("on");
    reveal_strlit(", reference ");
    reveal_strlit(",");
    reveal_strlit("reference");
    reveal_strlit("\n");
    let p0 = "brilliance audit: engine on "@;
    a_word_begins(Seq::<char>::empty(), "brilliance"@);
    a_gap_adds_nothing(Seq::<char>::empty() + "brilliance"@, " "@);
    a_word_begins(Seq::<char>::empty() + "brilliance"@ + " "@, "audit:"@);
    a_gap_adds_nothing(Seq::<char>::empty() + "brilliance"@ + " "@ + "audit:"@, " "@);
    a_word_begins(Seq::<char>::empty() + "brilliance"@ + " "@ + "audit:"@ + " "@, "engine"@);
    a_gap_adds_nothing(Seq::<char>::empty() + "brilliance"@ + " "@ + "audit:"@ + " "@ + "engine"@, " "@);
    a_word_begins(Seq::<char>::empty() + "brilliance"@ + " "@ + "audit:"@ + " "@ + "engine"@ + " "@, "on"@);
    a_gap_adds_nothing(Seq::<char>::empty() + "brilliance"@ + " "@ + "audit:"@ + " "@ + "engine"@ + " "@ + "on"@, " "@);
    assert(p0 =~= Seq::<char>::empty() + "brilliance"@ + " "@ + "audit:"@ + " "@ + "engine"@ + " "@ + "on"@ + " "@);
    a_word_begins(p0, preset);
    let p1 = p0 + preset;
    a_word_goes_on(p1, ","@);
    a_gap_adds_nothing(p1 + ","@, " "@);
    a_word_begins(p1 + ","@ + " "@, "reference"@);
    a_gap_adds_nothing(p1 + ","@ + " "@ + "reference"@, " "@);
    let p2 = p1 + ", reference "@;
    assert(p2 =~= p1 + ","@ + " "@ + "reference"@ + " "@);
    a_word_begins(p2, sfz);
    let p3 = p2 + sfz;
    a_gap_adds_nothing(p3, "\n"@);
    let p4 = p3 + "\n"@;
    assert(heading_text(preset, sfz) == p4);
}

/// Each number of `bands_line` stands in its place among the words.
#[verifier::rlimit(30)]
pub proof fn the_words_of_bands_line_stand_in_order(low_from: Seq<char>, low_to: Seq<char>, high_from: Seq<char>, high_to: Seq<char>, first: Seq<char>, second: Seq<char>, full_from: Seq<char>, full_to: Seq<char>)
    requires
        is_word(low_from),
        is_word(low_to),
        is_word(high_from),
        is_word(high_to),
        is_word(first),
        is_word(second),
        is_word(full_from),
        is_word(full_to),
    ensures
        words_of(bands_line_text(low_from, low_to, high_from, high_to, first, second, full_from, full_to)).len() == 16,
        words_of(bands_line_text(low_from, low_to, high_from, high_to, first, second, full_from, full_to))[1] == low_from + "-"@ + low_to,
        words_of(bands_line_text(low_from, low_to, high_from, high_to, first, second, full_from, full_to))[4] == high_from + "-"@ + high_to,
        words_of(bands_line_text(low_from, low_to, high_from, high_to, first, second, full_from, full_to))[7] == first,
        words_of(bands_line_text(low_from, low_to, high_from, high_to, first, second, full_from, full_to))[10] == second,
        words_of(bands_line_text(low_from, low_to, high_from, high_to, first, second, full_from, full_to))[14] == full_from + "-"@ + full_to,
{
    reveal_strlit("  bands ");
    reveal_strlit("  ");
    reveal_strlit("bands");
    reveal_strlit(" ");
    reveal_strlit("-");
    reveal_strlit(" Hz and ");
    reveal_strlit("Hz");
    reveal_strlit("and");
    reveal_strlit(" Hz, at ");
    reveal_strlit("Hz,");
    reveal_strlit("at");
    reveal_strlit(" s and ");
    reveal_strlit("s");
    reveal_strlit(" s, level-matched over ");
    reveal_strlit("s,");
    reveal_strlit("level-matched");
    reveal_strlit("over");
    reveal_strlit(" Hz\n");
    reveal_strlit("\n");
    let p0 = "  bands "@;
    a_gap_adds_nothing(Seq::<char>::empty(), "  "@);
    a_word_begins(Seq::<char>::empty() + "  "@, "bands"@);
    a_gap_adds_nothing(Seq::<char>::empty() + "  "@ + "bands"@, " "@);
    assert(p0 =~= Seq::<char>::empty() + "  "@ + "bands"@ + " "@);
    a_word_begins(p0, low_from);
    let p1 = p0 + low_from;
    a_word_goes_on(p1, "-"@);
    let p2 = p1 + "-"@;
    a_word_goes_on(p2, low_to);
    let p3 = p2 + low_to;
    a_gap_adds_nothing(p3, " "@);
    a_word_begins(p3 + " "@, "Hz"@);
    a_gap_adds_nothing(p3 + " "@ + "Hz"@, " "@);
    a_word_begins(p3 + " "@ + "Hz"@ + " "@, "and"@);
    a_gap_adds_nothing(p3 + " "@ + "Hz"@ + " "@ + "and"@, " "@);
    let p4 = p3 + " Hz and "@;
    assert(p4 =~= p3 + " "@ + "Hz"@ + " "@ + "and"@ + " "@);
    a_word_begins(p4, high_from);
    let p5 = p4 + high_from;
    a_word_goes_on(p5, "-"@);
    let p6 = p5 + "-"@;
    a_word_goes_on(p6, high_to);
    let p7 = p6 + high_to;
    a_gap_adds_nothing(p7, " "@);
    a_word_begins(p7 + " "@, "Hz,"@);
    a_gap_adds_nothing(p7 + " "@ + "Hz,"@, " "@);
    a_word_begins(p7 + " "@ + "Hz,"@ + " "@, "at"@);
    a_gap_adds_nothing(p7 + " "@ + "Hz,"@ + " "@ + "at"@, " "@);
    let p8 = p7 + " Hz, at "@;
    assert(p8 =~= p7 + " "@ + "Hz,"@ + " "@ + "at"@ + " "@);
    a_word_begins(p8, first);
    let p9 = p8 + first;
    a_gap_adds_nothing(p9, " "@);
    a_word_begins(p9 + " "@, "s"@);
    a_gap_adds_nothing(p9 + " "@ + "s"@, " "@);
    a_word_begins(p9 + " "@ + "s"@ + " "@, "and"@);
    a_gap_adds_nothing(p9 + " "@ + "s"@ + " "@ + "and"@, " "@);
    let p10 = p9 + " s and "@;
    assert(p10 =~= p9 + " "@ + "s"@ + " "@ + "and"@ + " "@);
    a_word_begins(p10, second);
    let p11 = p10 + second;
    a_gap_adds_nothing(p11, " "@);
    a_word_begins(p11 + " "@, "s,"@);
    a_gap_adds_nothing(p11 + " "@ + "s,"@, " "@);
    a_word_begins(p11 + " "@ + "s,"@ + " "@, "level-matched"@);
    a_gap_adds_nothing(p11 + " "@ + "s,"@ + " "@ + "level-matched"@, " "@);
    a_word_begins(p11 + " "@ + "s,"@ + " "@ + "level-matched"@ + " "@, "over"@);
    a_gap_adds_nothing(p11 + " "@ + "s,"@ + " "@ + "level-matched"@ + " "@ + "over"@, " "@);
    let p12 = p11 + " s, level-matched over "@;
    assert(p12 =~= p11 + " "@ + "s,"@ + " "@ + "level-matched"@ + " "@ + "over"@ + " "@);
    a_word_begins(p12, full_from);
    let p13 = p12 + full_from;
    a_word_goes_on(p13, "-"@);
    let p14 = p13 + "-"@;
    a_word_goes_on(p14, full_to);
    let p15 = p14 + full_to;
    a_gap_adds_nothing(p15, " "@);
    a_word_begins(p15 + " "@, "Hz"@);
    a_gap_adds_nothing(p15 + " "@ + "Hz"@, "\n"@);
    let p16 = p15 + " Hz\n"@;
    assert(p16 =~= p15 + " "@ + "Hz"@ + "\n"@);
    assert(bands_line_text(low_from, low_to, high_from, high_to, first, second, full_from, full_to) == p16);
}

/// Each number of `shelf_line` stands in its place among the words.
#[verifier::rlimit(30)]
pub proof fn the_words_of_shelf_line_stand_in_order(gain: Seq<char>, hz: Seq<char>)
    requires
        is_word(gain),
        is_word(hz),
    ensures
        words_of(shelf_line_text(gain, hz)).len() == 7,
        words_of(shelf_line_text(gain, hz))[2] == gain,
        words_of(shelf_line_text(gain, hz))[5] == hz,
{
    reveal_strlit("  master shelf: ");
    reveal_strlit("  ");
    reveal_strlit("master");
    reveal_strlit(" ");
    reveal_strlit("shelf:");
    reveal_strlit(" dB above ");
    reveal_strlit("dB");
    reveal_strlit("above");
    reveal_strlit(" Hz\n\n");
    reveal_strlit("Hz");
    reveal_strlit("\n\n");
    let p0 = "  master shelf: "@;
    a_gap_adds_nothing(Seq::<char>::empty(), "  "@);
    a_word_begins(Seq::<char>::empty() + "  "@, "master"@);
    a_gap_adds_nothing(Seq::<char>::empty() + "  "@ + "master"@, " "@);
    a_word_begins(Seq::<char>::empty() + "  "@ + "master"@ + " "@, "shelf:"@);
    a_gap_adds_nothing(Seq::<char>::empty() + "  "@ + "master"@ + " "@ + "shelf:"@, " "@);
    assert(p0 =~= Seq::<char>::empty() + "  "@ + "master"@ + " "@ + "shelf:"@ + " "@);
    a_word_begins(p0, gain);
    let p1 = p0 + gain;
    a_gap_adds_nothing(p1, " "@);
    a_word_begins(p1 + " "@, "dB"@);
    a_gap_adds_nothing(p1 + " "@ + "dB"@, " "@);
    a_word_begins(p1 + " "@ + "dB"@ + " "@, "above"@);
    a_gap_adds_nothing(p1 + " "@ + "dB"@ + " "@ + "above"@, " "@);
    let p2 = p1 + " dB above "@;
    assert(p2 =~= p1 + " "@ + "dB"@ + " "@ + "above"@ + " "@);
    a_word_begins(p2, hz);
    let p3 = p2 + hz;
    a_gap_adds_nothing(p3, " "@);
    a_word_begins(p3 + " "@, "Hz"@);
    a_gap_adds_nothing(p3 + " "@ + "Hz"@, "\n\n"@);
    let p4 = p3 + " Hz\n\n"@;
    assert(p4 =~= p3 + " "@ + "Hz"@ + "\n\n"@);
    assert(shelf_line_text(gain, hz) == p4);
}

/// Each number of `pass_line` stands in its place among the words.
#[verifier::rlimit(30)]
pub proof fn the_words_of_pass_line_stand_in_order(pass: usize, tenor_low: Seq<char>, tenor_high: Seq<char>, top_low: Seq<char>, top_high: Seq<char>)
    requires
        is_word(tenor_low),
        is_word(tenor_high),
        is_word(top_low),
        is_word(top_high),
    ensures
        words_of(pass_line_text(pass, tenor_low, tenor_high, top_low, top_high)).len() == 13,
        words_of(pass_line_text(pass, tenor_low, tenor_high, top_low, top_high))[2] == decimal(pass as nat) + ":"@,
        words_of(pass_line_text(pass, tenor_low, tenor_high, top_low, top_high))[5] == tenor_low,
        words_of(pass_line_text(pass, tenor_low, tenor_high, top_low, top_high))[7] == tenor_high,
        words_of(pass_line_text(pass, tenor_low, tenor_high, top_low, top_high))[10] == top_low,
        words_of(pass_line_text(pass, tenor_low, tenor_high, top_low, top_high))[12] == top_high,
{
    reveal_strlit("  trim pass ");
    reveal_strlit("  ");
    reveal_strlit("trim");
    reveal_strlit(" ");
    reveal_strlit("pass");
    reveal_strlit(": tenor 2-6k ");
    reveal_strlit(":");
    reveal_strlit("tenor");
    reveal_strlit("2-6k");
    reveal_strlit(" 6-12k ");
    reveal_strlit("6-12k");
    reveal_strlit("   top 2-6k ");
    reveal_strlit("   ");
    reveal_strlit("top");
    reveal_strlit("\n");
    a_number_is_a_word(pass as nat);
    let p0 = "  trim pass "@;
    a_gap_adds_nothing(Seq::<char>::empty(), "  "@);
    a_word_begins(Seq::<char>::empty() + "  "@, "trim"@);
    a_gap_adds_nothing(Seq::<char>::empty() + "  "@ + "trim"@, " "@);
    a_word_begins(Seq::<char>::empty() + "  "@ + "trim"@ + " "@, "pass"@);
    a_gap_adds_nothing(Seq::<char>::empty() + "  "@ + "trim"@ + " "@ + "pass"@, " "@);
    assert(p0 =~= Seq::<char>::empty() + "  "@ + "trim"@ + " "@ + "pass"@ + " "@);
    a_word_begins(p0, decimal(pass as nat));
    let p1 = p0 + decimal(pass as nat);
    a_word_goes_on(p1, ":"@);
    a_gap_adds_nothing(p1 + ":"@, " "@);
    a_word_begins(p1 + ":"@ + " "@, "tenor"@);
    a_gap_adds_nothing(p1 + ":"@ + " "@ + "tenor"@, " "@);
    a_word_begins(p1 + ":"@ + " "@ + "tenor"@ + " "@, "2-6k"@);
    a_gap_adds_nothing(p1 + ":"@ + " "@ + "tenor"@ + " "@ + "2-6k"@, " "@);
    let p2 = p1 + ": tenor 2-6k "@;
    assert(p2 =~= p1 + ":"@ + " "@ + "tenor"@ + " "@ + "2-6k"@ + " "@);
    a_word_begins(p2, tenor_low);
    let p3 = p2 + tenor_low;
    a_gap_adds_nothing(p3, " "@);
    a_word_begins(p3 + " "@, "6-12k"@);
    a_gap_adds_nothing(p3 + " "@ + "6-12k"@, " "@);
    let p4 = p3 + " 6-12k "@;
    assert(p4 =~= p3 + " "@ + "6-12k"@ + " "@);
    a_word_begins(p4, tenor_high);
    let p5 = p4 + tenor_high;
    a_gap_adds_nothing(p5, "   "@);
    a_word_begins(p5 + "   "@, "top"@);
    a_gap_adds_nothing(p5 + "   "@ + "top"@, " "@);
    a_word_begins(p5 + "   "@ + "top"@ + " "@, "2-6k"@);
    a_gap_adds_nothing(p5 + "   "@ + "top"@ + " "@ + "2-6k"@, " "@);
    let p6 = p5 + "   top 2-6k "@;
    assert(p6 =~= p5 + "   "@ + "top"@ + " "@ + "2-6k"@ + " "@);
    a_word_begins(p6, top_low);
    let p7 = p6 + top_low;
    a_gap_adds_nothing(p7, " "@);
    a_word_begins(p7 + " "@, "6-12k"@);
    a_gap_adds_nothing(p7 + " "@ + "6-12k"@, " "@);
    let p8 = p7 + " 6-12k "@;
    assert(p8 =~= p7 + " "@ + "6-12k"@ + " "@);
    a_word_begins(p8, top_high);
    let p9 = p8 + top_high;
    a_gap_adds_nothing(p9, "\n"@);
    let p10 = p9 + "\n"@;
    assert(pass_line_text(pass, tenor_low, tenor_high, top_low, top_high) == p10);
}

/// Each number of `four_row` stands in its place among the words.
#[verifier::rlimit(30)]
pub proof fn the_words_of_four_row_stand_in_order(r: Four)
    requires
        is_word(r.name@),
        is_word(r.cells.low_first@),
        is_word(r.cells.high_first@),
        is_word(r.cells.low_second@),
        is_word(r.cells.high_second@),
    ensures
        words_of(four_row_text(r)).len() == 5,
        words_of(four_row_text(r))[0] == r.name@,
        words_of(four_row_text(r))[1] == r.cells.low_first@,
        words_of(four_row_text(r))[2] == r.cells.high_first@,
        words_of(four_row_text(r))[3] == r.cells.low_second@,
        words_of(four_row_text(r))[4] == r.cells.high_second@,
{
    reveal_strlit(" ");
    reveal_strlit("\n");
    let p0 = Seq::<char>::empty();
    a_left_word_begins(p0, r.name@, 14);
    let p1 = p0 + left_in(r.name@, 14);
    a_gap_adds_nothing(p1, " "@);
    let p2 = p1 + " "@;
    a_right_word_begins(p2, r.cells.low_first@, 10);
    let p3 = p2 + right_in(r.cells.low_first@, 10);
    a_gap_adds_nothing(p3, " "@);
    let p4 = p3 + " "@;
    a_right_word_begins(p4, r.cells.high_first@, 11);
    let p5 = p4 + right_in(r.cells.high_first@, 11);
    a_gap_adds_nothing(p5, " "@);
    let p6 = p5 + " "@;
    a_right_word_begins(p6, r.cells.low_second@, 10);
    let p7 = p6 + right_in(r.cells.low_second@, 10);
    a_gap_adds_nothing(p7, " "@);
    let p8 = p7 + " "@;
    a_right_word_begins(p8, r.cells.high_second@, 11);
    let p9 = p8 + right_in(r.cells.high_second@, 11);
    a_gap_adds_nothing(p9, "\n"@);
    let p10 = p9 + "\n"@;
    assert(four_row_text(r) == p10);
}

/// Each number of `decay_row` stands in its place among the words.
#[verifier::rlimit(30)]
pub proof fn the_words_of_decay_row_stand_in_order(r: DecayRow)
    requires
        is_word(r.name@),
        is_word(r.full@),
        is_word(r.low@),
        is_word(r.high@),
        is_word(r.floor_low@),
        is_word(r.floor_high@),
    ensures
        words_of(decay_row_text(r)).len() == 5,
        words_of(decay_row_text(r))[0] == r.name@,
        words_of(decay_row_text(r))[1] == r.full@,
        words_of(decay_row_text(r))[2] == r.low@,
        words_of(decay_row_text(r))[3] == r.high@,
        words_of(decay_row_text(r))[4] == r.floor_low@ + "/"@ + r.floor_high@,
{
    reveal_strlit(" ");
    reveal_strlit("/");
    reveal_strlit("\n");
    let p0 = Seq::<char>::empty();
    a_left_word_begins(p0, r.name@, 14);
    let p1 = p0 + left_in(r.name@, 14);
    a_gap_adds_nothing(p1, " "@);
    let p2 = p1 + " "@;
    a_word_begins(p2, r.full@);
    let p3 = p2 + r.full@;
    a_gap_adds_nothing(p3, " "@);
    let p4 = p3 + " "@;
    a_word_begins(p4, r.low@);
    let p5 = p4 + r.low@;
    a_gap_adds_nothing(p5, " "@);
    let p6 = p5 + " "@;
    a_word_begins(p6, r.high@);
    let p7 = p6 + r.high@;
    a_gap_adds_nothing(p7, " "@);
    let p8 = p7 + " "@;
    a_right_word_begins(p8, r.floor_low@, 9);
    let p9 = p8 + right_in(r.floor_low@, 9);
    a_word_goes_on(p9, "/"@);
    let p10 = p9 + "/"@;
    a_left_word_goes_on(p10, r.floor_high@, 8);
    let p11 = p10 + left_in(r.floor_high@, 8);
    a_gap_adds_nothing(p11, "\n"@);
    let p12 = p11 + "\n"@;
    assert(decay_row_text(r) == p12);
}

/// Each number of `decay_total` stands in its place among the words.
#[verifier::rlimit(30)]
pub proof fn the_words_of_decay_total_stand_in_order(r: DecayRow)
    requires
        is_word(r.name@),
        is_word(r.full@),
        is_word(r.low@),
        is_word(r.high@),
        is_word(r.floor_low@),
        is_word(r.floor_high@),
    ensures
        words_of(decay_total_text(r)).len() == 5,
        words_of(decay_total_text(r))[0] == r.name@,
        words_of(decay_total_text(r))[1] == r.full@,
        words_of(decay_total_text(r))[2] == r.low@,
        words_of(decay_total_text(r))[3] == r.high@,
        words_of(decay_total_text(r))[4] == r.floor_low@ + "/"@ + r.floor_high@,
{
    reveal_strlit(" ");
    reveal_strlit("/");
    reveal_strlit("\n");
    let p0 = Seq::<char>::empty();
    a_left_word_begins(p0, r.name@, 14);
    let p1 = p0 + left_in(r.name@, 14);
    a_gap_adds_nothing(p1, " "@);
    let p2 = p1 + " "@;
    a_right_word_begins(p2, r.full@, 10);
    let p3 = p2 + right_in(r.full@, 10);
    a_gap_adds_nothing(p3, " "@);
    let p4 = p3 + " "@;
    a_right_word_begins(p4, r.low@, 10);
    let p5 = p4 + right_in(r.low@, 10);
    a_gap_adds_nothing(p5, " "@);
    let p6 = p5 + " "@;
    a_right_word_begins(p6, r.high@, 10);
    let p7 = p6 + right_in(r.high@, 10);
    a_gap_adds_nothing(p7, " "@);
    let p8 = p7 + " "@;
    a_right_word_begins(p8, r.floor_low@, 9);
    let p9 = p8 + right_in(r.floor_low@, 9);
    a_word_goes_on(p9, "/"@);
    let p10 = p9 + "/"@;
    a_left_word_goes_on(p10, r.floor_high@, 8);
    let p11 = p10 + left_in(r.floor_high@, 8);
    a_gap_adds_nothing(p11, "\n"@);
    let p12 = p11 + "\n"@;
    assert(decay_total_text(r) == p12);
}

/// Each number of `tail_row` stands in its place among the words.
#[verifier::rlimit(30)]
pub proof fn the_words_of_tail_row_stand_in_order(r: TailRow)
    requires
        is_word(name_of(r.key)),
        is_word(shown_text(r.engine)),
        is_word(shown_text(r.reference)),
        is_word(shown_text(r.ratio)),
        is_word(r.reference_floor@),
        is_word(r.engine_floor@),
    ensures
        words_of(tail_row_text(r)).len() == 7,
        words_of(tail_row_text(r))[0] == decimal(r.key as nat),
        words_of(tail_row_text(r))[1] == name_of(r.key),
        words_of(tail_row_text(r))[2] == shown_text(r.engine),
        words_of(tail_row_text(r))[3] == shown_text(r.reference),
        words_of(tail_row_text(r))[4] == shown_text(r.ratio),
        words_of(tail_row_text(r))[5] == r.reference_floor@,
        words_of(tail_row_text(r))[6] == r.engine_floor@,
{
    reveal_strlit(" ");
    reveal_strlit("\n");
    a_number_is_a_word(r.key as nat);
    let p0 = Seq::<char>::empty();
    a_right_word_begins(p0, decimal(r.key as nat), 4);
    let p1 = p0 + right_in(decimal(r.key as nat), 4);
    a_gap_adds_nothing(p1, " "@);
    let p2 = p1 + " "@;
    a_right_word_begins(p2, name_of(r.key), 5);
    let p3 = p2 + right_in(name_of(r.key), 5);
    a_gap_adds_nothing(p3, " "@);
    let p4 = p3 + " "@;
    a_right_word_begins(p4, shown_text(r.engine), 9);
    let p5 = p4 + right_in(shown_text(r.engine), 9);
    a_gap_adds_nothing(p5, " "@);
    let p6 = p5 + " "@;
    a_right_word_begins(p6, shown_text(r.reference), 9);
    let p7 = p6 + right_in(shown_text(r.reference), 9);
    a_gap_adds_nothing(p7, " "@);
    let p8 = p7 + " "@;
    a_right_word_begins(p8, shown_text(r.ratio), 9);
    let p9 = p8 + right_in(shown_text(r.ratio), 9);
    a_gap_adds_nothing(p9, " "@);
    let p10 = p9 + " "@;
    a_right_word_begins(p10, r.reference_floor@, 10);
    let p11 = p10 + right_in(r.reference_floor@, 10);
    a_gap_adds_nothing(p11, " "@);
    let p12 = p11 + " "@;
    a_right_word_begins(p12, r.engine_floor@, 10);
    let p13 = p12 + right_in(r.engine_floor@, 10);
    a_gap_adds_nothing(p13, "\n"@);
    let p14 = p13 + "\n"@;
    assert(tail_row_text(r) == p14);
}

/// Each number of `register_tail` stands in its place among the words.
#[verifier::rlimit(30)]
pub proof fn the_words_of_register_tail_stand_in_order(r: RegisterTail)
    requires
        is_word(r.name@),
        is_word(r.engine@),
        is_word(r.reference@),
        is_word(r.floor@),
    ensures
        words_of(register_tail_text(r)).len() == 13,
        words_of(register_tail_text(r))[0] == r.name@,
        words_of(register_tail_text(r))[3] == r.engine@,
        words_of(register_tail_text(r))[6] == r.reference@,
        words_of(register_tail_text(r))[8] == decimal(r.engine_count as nat) + "/"@ + decimal(r.reference_count as nat),
        words_of(register_tail_text(r))[11] == r.floor@,
{
    reveal_strlit(" eng T60 ");
    reveal_strlit(" ");
    reveal_strlit("eng");
    reveal_strlit("T60");
    reveal_strlit("  ref T60 ");
    reveal_strlit("  ");
    reveal_strlit("ref");
    reveal_strlit("   n ");
    reveal_strlit("   ");
    reveal_strlit("n");
    reveal_strlit("/");
    reveal_strlit("   ref floor ");
    reveal_strlit("floor");
    reveal_strlit(" dB\n");
    reveal_strlit("dB");
    reveal_strlit("\n");
    a_number_is_a_word(r.engine_count as nat);
    a_number_is_a_word(r.reference_count as nat);
    let p0 = Seq::<char>::empty();
    a_left_word_begins(p0, r.name@, 14);
    let p1 = p0 + left_in(r.name@, 14);
    a_gap_adds_nothing(p1, " "@);
    a_word_begins(p1 + " "@, "eng"@);
    a_gap_adds_nothing(p1 + " "@ + "eng"@, " "@);
    a_word_begins(p1 + " "@ + "eng"@ + " "@, "T60"@);
    a_gap_adds_nothing(p1 + " "@ + "eng"@ + " "@ + "T60"@, " "@);
    let p2 = p1 + " eng T60 "@;
    assert(p2 =~= p1 + " "@ + "eng"@ + " "@ + "T60"@ + " "@);
    a_right_word_begins(p2, r.engine@, 6);
    let p3 = p2 + right_in(r.engine@, 6);
    a_gap_adds_nothing(p3, "  "@);
    a_word_begins(p3 + "  "@, "ref"@);
    a_gap_adds_nothing(p3 + "  "@ + "ref"@, " "@);
    a_word_begins(p3 + "  "@ + "ref"@ + " "@, "T60"@);
    a_gap_adds_nothing(p3 + "  "@ + "ref"@ + " "@ + "T60"@, " "@);
    let p4 = p3 + "  ref T60 "@;
    assert(p4 =~= p3 + "  "@ + "ref"@ + " "@ + "T60"@ + " "@);
    a_right_word_begins(p4, r.reference@, 6);
    let p5 = p4 + right_in(r.reference@, 6);
    a_gap_adds_nothing(p5, "   "@);
    a_word_begins(p5 + "   "@, "n"@);
    a_gap_adds_nothing(p5 + "   "@ + "n"@, " "@);
    let p6 = p5 + "   n "@;
    assert(p6 =~= p5 + "   "@ + "n"@ + " "@);
    a_right_word_begins(p6, decimal(r.engine_count as nat), 2);
    let p7 = p6 + right_in(decimal(r.engine_count as nat), 2);
    a_word_goes_on(p7, "/"@);
    let p8 = p7 + "/"@;
    a_left_word_goes_on(p8, decimal(r.reference_count as nat), 2);
    let p9 = p8 + left_in(decimal(r.reference_count as nat), 2);
    a_gap_adds_nothing(p9, "   "@);
    a_word_begins(p9 + "   "@, "ref"@);
    a_gap_adds_nothing(p9 + "   "@ + "ref"@, " "@);
    a_word_begins(p9 + "   "@ + "ref"@ + " "@, "floor"@);
    a_gap_adds_nothing(p9 + "   "@ + "ref"@ + " "@ + "floor"@, " "@);
    let p10 = p9 + "   ref floor "@;
    assert(p10 =~= p9 + "   "@ + "ref"@ + " "@ + "floor"@ + " "@);
    a_right_word_begins(p10, r.floor@, 5);
    let p11 = p10 + right_in(r.floor@, 5);
    a_gap_adds_nothing(p11, " "@);
    a_word_begins(p11 + " "@, "dB"@);
    a_gap_adds_nothing(p11 + " "@ + "dB"@, "\n"@);
    let p12 = p11 + " dB\n"@;
    assert(p12 =~= p11 + " "@ + "dB"@ + "\n"@);
    assert(register_tail_text(r) == p12);
}

/// Each number of `ringing` stands in its place among the words.
#[verifier::rlimit(30)]
pub proof fn the_words_of_ringing_stand_in_order(p: PartialDecay)
    requires
        is_word(shown_text(p.engine)),
        is_word(shown_text(p.reference)),
    ensures
        words_of(ringing_text(p)).len() == 2,
        words_of(ringing_text(p))[0] == shown_text(p.engine),
        words_of(ringing_text(p))[1] == "/"@ + shown_text(p.reference),
{
    reveal_strlit(" /");
    reveal_strlit(" ");
    reveal_strlit("/");
    a_word_begins(Seq::<char>::empty(), shown_text(p.engine));
    let p0 = shown_text(p.engine);
    assert(Seq::<char>::empty() + shown_text(p.engine) =~= p0);
    a_gap_adds_nothing(p0, " "@);
    a_word_begins(p0 + " "@, "/"@);
    let p1 = p0 + " /"@;
    assert(p1 =~= p0 + " "@ + "/"@);
    a_word_goes_on(p1, shown_text(p.reference));
    let p2 = p1 + shown_text(p.reference);
    assert(ringing_text(p) == p2);
}

/// Each number of `probed_row` stands in its place among the words.
#[verifier::rlimit(30)]
pub proof fn the_words_of_probed_row_stand_in_order(r: ProbedKey)
    requires
        is_word(name_of(r.key)),
        is_word(ringing_cells_text(r.partials@)),
    ensures
        words_of(probed_row_text(r)).len() == 2,
        words_of(probed_row_text(r))[0] == decimal(r.key as nat),
        words_of(probed_row_text(r))[1] == name_of(r.key) + ringing_cells_text(r.partials@),
{
    reveal_strlit(" ");
    reveal_strlit("\n");
    a_number_is_a_word(r.key as nat);
    let p0 = Seq::<char>::empty();
    a_right_word_begins(p0, decimal(r.key as nat), 4);
    let p1 = p0 + right_in(decimal(r.key as nat), 4);
    a_gap_adds_nothing(p1, " "@);
    let p2 = p1 + " "@;
    a_right_word_begins(p2, name_of(r.key), 5);
    let p3 = p2 + right_in(name_of(r.key), 5);
    a_word_goes_on(p3, ringing_cells_text(r.partials@));
    let p4 = p3 + ringing_cells_text(r.partials@);
    a_gap_adds_nothing(p4, "\n"@);
    let p5 = p4 + "\n"@;
    assert(probed_row_text(r) == p5);
}

/// Each number of `phrase_row` stands in its place among the words.
#[verifier::rlimit(30)]
pub proof fn the_words_of_phrase_row_stand_in_order(r: PhraseRow)
    requires
        is_word(r.name@),
        is_word(r.low@),
        is_word(r.high@),
        is_word(r.tilt@),
        is_word(r.floor_low@),
        is_word(r.floor_high@),
        is_word(r.floor_tilt@),
    ensures
        words_of(phrase_row_text(r)).len() == 7,
        words_of(phrase_row_text(r))[0] == r.name@,
        words_of(phrase_row_text(r))[1] == r.low@,
        words_of(phrase_row_text(r))[2] == r.high@,
        words_of(phrase_row_text(r))[3] == r.tilt@,
        words_of(phrase_row_text(r))[4] == r.floor_low@,
        words_of(phrase_row_text(r))[5] == r.floor_high@,
        words_of(phrase_row_text(r))[6] == r.floor_tilt@,
{
    reveal_strlit(" ");
    reveal_strlit("\n");
    let p0 = Seq::<char>::empty();
    a_left_word_begins(p0, r.name@, 18);
    let p1 = p0 + left_in(r.name@, 18);
    a_gap_adds_nothing(p1, " "@);
    let p2 = p1 + " "@;
    a_right_word_begins(p2, r.low@, 9);
    let p3 = p2 + right_in(r.low@, 9);
    a_gap_adds_nothing(p3, " "@);
    let p4 = p3 + " "@;
    a_right_word_begins(p4, r.high@, 10);
    let p5 = p4 + right_in(r.high@, 10);
    a_gap_adds_nothing(p5, " "@);
    let p6 = p5 + " "@;
    a_right_word_begins(p6, r.tilt@, 12);
    let p7 = p6 + right_in(r.tilt@, 12);
    a_gap_adds_nothing(p7, " "@);
    let p8 = p7 + " "@;
    a_right_word_begins(p8, r.floor_low@, 9);
    let p9 = p8 + right_in(r.floor_low@, 9);
    a_gap_adds_nothing(p9, " "@);
    let p10 = p9 + " "@;
    a_right_word_begins(p10, r.floor_high@, 10);
    let p11 = p10 + right_in(r.floor_high@, 10);
    a_gap_adds_nothing(p11, " "@);
    let p12 = p11 + " "@;
    a_right_word_begins(p12, r.floor_tilt@, 12);
    let p13 = p12 + right_in(r.floor_tilt@, 12);
    a_gap_adds_nothing(p13, "\n"@);
    let p14 = p13 + "\n"@;
    assert(phrase_row_text(r) == p14);
}

} // verus!
