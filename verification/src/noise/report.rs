//! The report on the mechanism's balance.

use crate::noise::channel_name;
use crate::text::{decimal, print, push_right, right_in};
use crate::words::{a_gap_adds_nothing, a_number_is_a_word, a_right_word_begins, a_word_begins, a_word_goes_on, is_word, words_of};
use vstd::prelude::*;

verus! {

/// What the mechanism is read from.
pub open spec fn mechanism_heading_text(sfz: Seq<char>, base: Seq<char>, preset: Seq<char>) -> Seq<char> {
    "the mechanism, from "@
        + sfz
        + " against strikes of the same key; base "@
        + base
        + ", preset "@
        + preset
        + "\n"@
}

/// What the mechanism is read from.
pub fn mechanism_heading(sfz: &str, base: &str, preset: &str) -> (text: String)
    ensures
        text@ == mechanism_heading_text(sfz@, base@, preset@),
{
    let mut out = String::from_str("the mechanism, from ");
    out.append(sfz);
    out.append(" against strikes of the same key; base ");
    out.append(base);
    out.append(", preset ");
    out.append(preset);
    out.append("\n");
    out
}

/// What is said of a library without recordings of the mechanism.
pub const NO_RECORDINGS: &'static str = "\nno mechanism recordings in this library — nothing to write\n";

/// What is said where the preset already holds the fit.
pub const NOTHING_MOVED: &'static str = "\nnothing moved: this preset already carries what the \
    gate allows\n";

/// What is said where nothing is written.
pub const NOT_WRITTEN: &'static str = "\n(no --out: nothing written)\n";

/// One event of the mechanism.
pub open spec fn event_heading_text(name: Seq<char>, centroid: Seq<char>, decay: Seq<char>, velocity: Seq<char>) -> Seq<char> {
    "\n[noise."@
        + name
        + "] "@
        + centroid
        + " Hz, "@
        + decay
        + " s, "@
        + velocity
        + " dB of velocity\n"@
}

/// One event of the mechanism.
pub fn event_heading(name: &str, centroid: &str, decay: &str, velocity: &str) -> (text: String)
    ensures
        text@ == event_heading_text(name@, centroid@, decay@, velocity@),
{
    let mut out = String::from_str("\n[noise.");
    out.append(name);
    out.append("] ");
    out.append(centroid);
    out.append(" Hz, ");
    out.append(decay);
    out.append(" s, ");
    out.append(velocity);
    out.append(" dB of velocity\n");
    out
}

/// One anchor of an event.
pub open spec fn anchor_line_text(key: u8, db: Seq<char>) -> Seq<char> {
    "  key "@
        + right_in(decimal(key as nat), 3)
        + "  "@
        + db
        + " dB\n"@
}

/// One anchor of an event.
pub fn anchor_line(key: u8, db: &str) -> (text: String)
    ensures
        text@ == anchor_line_text(key, db@),
{
    let mut out = String::from_str("  key ");
    push_right(&mut out, print(key as u64).as_str(), 3);
    out.append("  ");
    out.append(db);
    out.append(" dB\n");
    out
}

/// What the balance is read from.
pub open spec fn balance_heading_text(keys: usize, velocities: usize, preset: Seq<char>) -> Seq<char> {
    "the mechanism's balance: "@
        + decimal(keys as nat)
        + " recorded keys x "@
        + decimal(velocities as nat)
        + " velocities, engine on "@
        + preset
        + "\n"@
}

/// What the balance is read from.
pub fn balance_heading(keys: usize, velocities: usize, preset: &str) -> (text: String)
    ensures
        text@ == balance_heading_text(keys, velocities, preset@),
{
    let mut out = String::from_str("the mechanism's balance: ");
    out.append(print(keys as u64).as_str());
    out.append(" recorded keys x ");
    out.append(print(velocities as u64).as_str());
    out.append(" velocities, engine on ");
    out.append(preset);
    out.append("\n");
    out
}

/// The strike as it stands, as it is printed.
pub struct Standing {
    pub least: String,
    pub most: String,
    pub anchors: usize,
    pub velocity: String,
    pub centroid: String,
    pub bandwidth: String,
    pub decay: String,
}

/// The strike as it stands.
pub open spec fn standing_line_text(s: Standing) -> Seq<char> {
    "  [noise.strike] as it stands: level "@
        + s.least@
        + " .. "@
        + s.most@
        + " dB over "@
        + decimal(s.anchors as nat)
        + " anchors, velocity_db "@
        + s.velocity@
        + ", centroid "@
        + s.centroid@
        + " Hz, band "@
        + s.bandwidth@
        + " Hz, decay "@
        + s.decay@
        + " s\n"@
}

/// The strike as it stands.
pub fn standing_line(s: &Standing) -> (text: String)
    ensures
        text@ == standing_line_text(*s),
{
    let mut out = String::from_str("  [noise.strike] as it stands: level ");
    out.append(s.least.as_str());
    out.append(" .. ");
    out.append(s.most.as_str());
    out.append(" dB over ");
    out.append(print(s.anchors as u64).as_str());
    out.append(" anchors, velocity_db ");
    out.append(s.velocity.as_str());
    out.append(", centroid ");
    out.append(s.centroid.as_str());
    out.append(" Hz, band ");
    out.append(s.bandwidth.as_str());
    out.append(" Hz, decay ");
    out.append(s.decay.as_str());
    out.append(" s\n");
    out
}

/// The head of the notes.
pub const NOTES: &'static str = "\nattack tonality of the first 30 ms, dB — a line spectrum is large, a continuum is \
    zero\n\n key  vel worse reference    engine tone only   eng-ref in that ch     \
    offset\n";

/// One note, as it is printed.
pub struct NoteRow {
    pub key: u8,
    pub velocity: u8,
    /// The channel that is farther from the recording.
    pub worse: usize,
    pub reference: String,
    pub engine: String,
    pub tone: String,
    pub away: String,
    pub away_worse: String,
    pub offset: Option<String>,
    /// Whether the note has no offset because it is at the floor.
    pub floor: bool,
}

/// The offset of a note, or why it has none.
pub open spec fn offset_text(r: NoteRow) -> Seq<char> {
    match r.offset {
        Some(db) => db@,
        None => if r.floor {
            "floor"@
        } else {
            "ceiling"@
        },
    }
}

/// The offset of a note, or why it has none.
pub fn offset_words(r: &NoteRow) -> (text: String)
    ensures
        text@ == offset_text(*r),
{
    match &r.offset {
        Some(db) => db.clone(),
        None => if r.floor {
            String::from_str("floor")
        } else {
            String::from_str("ceiling")
        },
    }
}

/// The name of the channel that is farther from the recording.
pub open spec fn channel_text(c: usize) -> Seq<char> {
    if c == 0 {
        "L"@
    } else if c == 1 {
        "R"@
    } else {
        "mono"@
    }
}

/// A row of the notes.
pub open spec fn note_row_text(r: NoteRow) -> Seq<char> {
    Seq::<char>::empty()
        + right_in(decimal(r.key as nat), 4)
        + " "@
        + right_in(decimal(r.velocity as nat), 4)
        + " "@
        + right_in(channel_text(r.worse), 4)
        + " "@
        + right_in(r.reference@, 9)
        + " "@
        + right_in(r.engine@, 9)
        + " "@
        + right_in(r.tone@, 9)
        + " "@
        + right_in(r.away@, 9)
        + " "@
        + right_in(r.away_worse@, 9)
        + " "@
        + right_in(offset_text(r), 10)
        + "\n"@
}

/// A row of the notes.
pub fn note_row(r: &NoteRow) -> (text: String)
    ensures
        text@ == note_row_text(*r),
{
    let mut out = String::new();
    push_right(&mut out, print(r.key as u64).as_str(), 4);
    out.append(" ");
    push_right(&mut out, print(r.velocity as u64).as_str(), 4);
    out.append(" ");
    push_right(&mut out, channel_name(r.worse), 4);
    out.append(" ");
    push_right(&mut out, r.reference.as_str(), 9);
    out.append(" ");
    push_right(&mut out, r.engine.as_str(), 9);
    out.append(" ");
    push_right(&mut out, r.tone.as_str(), 9);
    out.append(" ");
    push_right(&mut out, r.away.as_str(), 9);
    out.append(" ");
    push_right(&mut out, r.away_worse.as_str(), 9);
    out.append(" ");
    push_right(&mut out, offset_words(r).as_str(), 10);
    out.append("\n");
    out
}

/// The rows of the notes.
pub open spec fn note_rows_text(rows: Seq<NoteRow>) -> Seq<char>
    decreases rows.len(),
{
    if rows.len() == 0 {
        Seq::empty()
    } else {
        note_rows_text(rows.drop_last()) + note_row_text(rows.last())
    }
}

/// The rows of the notes.
pub fn note_rows(rows: &Vec<NoteRow>) -> (text: String)
    ensures
        text@ == note_rows_text(rows@),
{
    let mut out = String::new();
    let mut i: usize = 0;
    proof {
        assert(rows@.take(0) =~= Seq::<NoteRow>::empty());
    }
    while i < rows.len()
        invariant
            i <= rows.len(),
            out@ == note_rows_text(rows@.take(i as int)),
        decreases rows.len() - i,
    {
        proof {
            assert(rows@.take(i + 1).drop_last() =~= rows@.take(i as int));
        }
        out.append(note_row(&rows[i]).as_str());
        i = i + 1;
    }
    proof {
        assert(rows@.take(i as int) =~= rows@);
    }
    out
}

pub const MONO_LINE_0: &'static str = "\nengine minus reference on the mono sum: median ";

/// What the notes come to on the mono sum.
pub open spec fn mono_line_text(median: Seq<char>, mean: Seq<char>, notes: usize) -> Seq<char> {
    MONO_LINE_0@
        + median
        + " dB, mean |·| "@
        + mean
        + " dB over "@
        + decimal(notes as nat)
        + " notes\n"@
}

/// What the notes come to on the mono sum.
pub fn mono_line(median: &str, mean: &str, notes: usize) -> (text: String)
    ensures
        text@ == mono_line_text(median@, mean@, notes),
{
    let mut out = String::from_str(MONO_LINE_0);
    out.append(median);
    out.append(" dB, mean |·| ");
    out.append(mean);
    out.append(" dB over ");
    out.append(print(notes as u64).as_str());
    out.append(" notes\n");
    out
}

pub const WORSE_LINE_0: &'static str = "  the worse loudspeaker of each note: |engine-ref| median ";

/// What the worse channels come to.
pub open spec fn worse_line_text(median: Seq<char>, most: Seq<char>, left: usize, right: usize) -> Seq<char> {
    WORSE_LINE_0@
        + median
        + " dB, worst "@
        + most
        + " ("@
        + decimal(left as nat)
        + " notes worse in L, "@
        + decimal(right as nat)
        + " in R)\n"@
}

/// What the worse channels come to.
pub fn worse_line(median: &str, most: &str, left: usize, right: usize) -> (text: String)
    ensures
        text@ == worse_line_text(median@, most@, left, right),
{
    let mut out = String::from_str(WORSE_LINE_0);
    out.append(median);
    out.append(" dB, worst ");
    out.append(most);
    out.append(" (");
    out.append(print(left as u64).as_str());
    out.append(" notes worse in L, ");
    out.append(print(right as u64).as_str());
    out.append(" in R)\n");
    out
}

pub const SPLIT_LINE_0: &'static str = "  and how far the two loudspeakers are from *each other*: engine median ";

pub const SPLIT_LINE_1: &'static str = " — this is the number the mono sum cannot carry, and the engine's must sit inside the \
    recording's\n";

/// How far the channels are apart.
pub open spec fn split_line_text(median: Seq<char>, most: Seq<char>, own_median: Seq<char>, own_most: Seq<char>) -> Seq<char> {
    SPLIT_LINE_0@
        + median
        + " dB, worst "@
        + most
        + "; the recording's own "@
        + own_median
        + " and "@
        + own_most
        + SPLIT_LINE_1@
}

/// How far the channels are apart.
pub fn split_line(median: &str, most: &str, own_median: &str, own_most: &str) -> (text: String)
    ensures
        text@ == split_line_text(median@, most@, own_median@, own_most@),
{
    let mut out = String::from_str(SPLIT_LINE_0);
    out.append(median);
    out.append(" dB, worst ");
    out.append(most);
    out.append("; the recording's own ");
    out.append(own_median);
    out.append(" and ");
    out.append(own_most);
    out.append(SPLIT_LINE_1);
    out
}

pub const SILENCED_LINE_0: &'static str = "the same with the event silenced: median ";

pub const SILENCED_LINE_1: &'static str = " dB — the sign says which side of the piano the tonal attack is on\n";

/// What the notes come to without the strike.
pub open spec fn silenced_line_text(median: Seq<char>, mean: Seq<char>) -> Seq<char> {
    SILENCED_LINE_0@
        + median
        + " dB, mean |·| "@
        + mean
        + SILENCED_LINE_1@
}

/// What the notes come to without the strike.
pub fn silenced_line(median: &str, mean: &str) -> (text: String)
    ensures
        text@ == silenced_line_text(median@, mean@),
{
    let mut out = String::from_str(SILENCED_LINE_0);
    out.append(median);
    out.append(" dB, mean |·| ");
    out.append(mean);
    out.append(SILENCED_LINE_1);
    out
}

/// The offset of a velocity, or a dash where it has none.
pub open spec fn at_velocity_text(offset: Option<String>) -> Seq<char> {
    match offset {
        None => "     —"@,
        Some(s) => s@,
    }
}

/// The offset of a velocity, or a dash where it has none.
pub fn at_velocity_words(offset: &Option<String>) -> (text: String)
    ensures
        text@ == at_velocity_text(*offset),
{
    match offset {
        None => String::from_str("     —"),
        Some(s) => s.clone(),
    }
}

/// One velocity, as it is printed.
pub struct VelocityRow {
    pub velocity: u8,
    pub away: String,
    pub offset: Option<String>,
    pub count: usize,
}

/// A row of the velocities.
pub open spec fn velocity_row_text(r: VelocityRow) -> Seq<char> {
    "  vel "@
        + right_in(decimal(r.velocity as nat), 3)
        + ": engine-ref "@
        + r.away@
        + " dB   offset "@
        + at_velocity_text(r.offset)
        + " (n "@
        + decimal(r.count as nat)
        + ")\n"@
}

/// A row of the velocities.
pub fn velocity_row(r: &VelocityRow) -> (text: String)
    ensures
        text@ == velocity_row_text(*r),
{
    let mut out = String::from_str("  vel ");
    push_right(&mut out, print(r.velocity as u64).as_str(), 3);
    out.append(": engine-ref ");
    out.append(r.away.as_str());
    out.append(" dB   offset ");
    out.append(at_velocity_words(&r.offset).as_str());
    out.append(" (n ");
    out.append(print(r.count as u64).as_str());
    out.append(")\n");
    out
}

pub const TOO_FEW_LINE_0: &'static str = "\nnot enough readings inverted to fit a correction (";

/// What is said where too few readings have an offset.
pub open spec fn too_few_line_text(inverted: usize, notes: usize) -> Seq<char> {
    TOO_FEW_LINE_0@
        + decimal(inverted as nat)
        + " of "@
        + decimal(notes as nat)
        + ")\n"@
}

/// What is said where too few readings have an offset.
pub fn too_few_line(inverted: usize, notes: usize) -> (text: String)
    ensures
        text@ == too_few_line_text(inverted, notes),
{
    let mut out = String::from_str(TOO_FEW_LINE_0);
    out.append(print(inverted as u64).as_str());
    out.append(" of ");
    out.append(print(notes as u64).as_str());
    out.append(")\n");
    out
}

/// The correction, as it is printed.
pub struct Correction {
    pub closed: usize,
    pub floor: usize,
    pub ceiling: usize,
    pub level: String,
    pub before: String,
    pub after: String,
    pub change: String,
    pub scatter: String,
}

pub const CORRECTION_REPORT_0: &'static str = " ceiling):\n  level at the nominal drive  ";

/// The correction.
pub open spec fn correction_report_text(c: Correction) -> Seq<char> {
    "\nthe correction, Theil-Sen through "@
        + decimal(c.closed as nat)
        + " inverted readings ("@
        + decimal(c.floor as nat)
        + " floor, "@
        + decimal(c.ceiling as nat)
        + CORRECTION_REPORT_0@
        + c.level@
        + " dB\n  velocity_db                 "@
        + c.before@
        + " -> "@
        + c.after@
        + "  ("@
        + c.change@
        + ")\n  scatter about the line      "@
        + c.scatter@
        + " dB\n"@
}

/// The correction.
pub fn correction_report(c: &Correction) -> (text: String)
    ensures
        text@ == correction_report_text(*c),
{
    let mut out = String::from_str("\nthe correction, Theil-Sen through ");
    out.append(print(c.closed as u64).as_str());
    out.append(" inverted readings (");
    out.append(print(c.floor as u64).as_str());
    out.append(" floor, ");
    out.append(print(c.ceiling as u64).as_str());
    out.append(CORRECTION_REPORT_0);
    out.append(c.level.as_str());
    out.append(" dB\n  velocity_db                 ");
    out.append(c.before.as_str());
    out.append(" -> ");
    out.append(c.after.as_str());
    out.append("  (");
    out.append(c.change.as_str());
    out.append(")\n  scatter about the line      ");
    out.append(c.scatter.as_str());
    out.append(" dB\n");
    out
}

/// How the level follows the velocity.
pub open spec fn velocity_line_text(db: Seq<char>) -> Seq<char> {
    "  velocity_db "@
        + db
        + "\n"@
}

/// How the level follows the velocity.
pub fn velocity_line(db: &str) -> (text: String)
    ensures
        text@ == velocity_line_text(db@),
{
    let mut out = String::from_str("  velocity_db ");
    out.append(db);
    out.append("\n");
    out
}

/// The `note_rows` are printed one after another, in their order.
pub proof fn the_note_rows_follow_each_other(a: Seq<NoteRow>, b: Seq<NoteRow>)
    ensures
        note_rows_text(a + b) == note_rows_text(a) + note_rows_text(b),
        a.len() == 1 ==> note_rows_text(a) == note_row_text(a[0]),
        note_rows_text(Seq::<NoteRow>::empty()).len() == 0,
    decreases b.len(),
{
    if a.len() == 1 {
        assert(a.drop_last() =~= Seq::<NoteRow>::empty());
        assert(note_rows_text(a.drop_last()) =~= Seq::<char>::empty());
        assert(note_rows_text(a) =~= note_row_text(a[0]));
    }
    if b.len() == 0 {
        assert(a + b =~= a);
        assert(note_rows_text(a) + note_rows_text(b) =~= note_rows_text(a));
    } else {
        the_note_rows_follow_each_other(a, b.drop_last());
        assert((a + b).drop_last() =~= a + b.drop_last());
        assert((a + b).last() == b.last());
        assert(note_rows_text(a) + note_rows_text(b.drop_last()) + note_row_text(b.last()) =~= note_rows_text(a) + (note_rows_text(
            b.drop_last(),
        ) + note_row_text(b.last())));
    }
}

/// Each number of `mechanism_heading` stands in its place among the words.
#[verifier::rlimit(30)]
pub proof fn the_words_of_mechanism_heading_stand_in_order(sfz: Seq<char>, base: Seq<char>, preset: Seq<char>)
    requires
        is_word(sfz),
        is_word(base),
        is_word(preset),
    ensures
        words_of(mechanism_heading_text(sfz, base, preset)).len() == 14,
        words_of(mechanism_heading_text(sfz, base, preset))[3] == sfz,
        words_of(mechanism_heading_text(sfz, base, preset))[11] == base + ","@,
        words_of(mechanism_heading_text(sfz, base, preset))[13] == preset,
{
    reveal_strlit("the mechanism, from ");
    reveal_strlit("the");
    reveal_strlit(" ");
    reveal_strlit("mechanism,");
    reveal_strlit("from");
    reveal_strlit(" against strikes of the same key; base ");
    reveal_strlit("against");
    reveal_strlit("strikes");
    reveal_strlit("of");
    reveal_strlit("same");
    reveal_strlit("key;");
    reveal_strlit("base");
    reveal_strlit(", preset ");
    reveal_strlit(",");
    reveal_strlit("preset");
    reveal_strlit("\n");
    let p0 = "the mechanism, from "@;
    a_word_begins(Seq::<char>::empty(), "the"@);
    a_gap_adds_nothing(Seq::<char>::empty() + "the"@, " "@);
    a_word_begins(Seq::<char>::empty() + "the"@ + " "@, "mechanism,"@);
    a_gap_adds_nothing(Seq::<char>::empty() + "the"@ + " "@ + "mechanism,"@, " "@);
    a_word_begins(Seq::<char>::empty() + "the"@ + " "@ + "mechanism,"@ + " "@, "from"@);
    a_gap_adds_nothing(Seq::<char>::empty() + "the"@ + " "@ + "mechanism,"@ + " "@ + "from"@, " "@);
    assert(p0 =~= Seq::<char>::empty() + "the"@ + " "@ + "mechanism,"@ + " "@ + "from"@ + " "@);
    a_word_begins(p0, sfz);
    let p1 = p0 + sfz;
    a_gap_adds_nothing(p1, " "@);
    a_word_begins(p1 + " "@, "against"@);
    a_gap_adds_nothing(p1 + " "@ + "against"@, " "@);
    a_word_begins(p1 + " "@ + "against"@ + " "@, "strikes"@);
    a_gap_adds_nothing(p1 + " "@ + "against"@ + " "@ + "strikes"@, " "@);
    a_word_begins(p1 + " "@ + "against"@ + " "@ + "strikes"@ + " "@, "of"@);
    a_gap_adds_nothing(p1 + " "@ + "against"@ + " "@ + "strikes"@ + " "@ + "of"@, " "@);
    a_word_begins(p1 + " "@ + "against"@ + " "@ + "strikes"@ + " "@ + "of"@ + " "@, "the"@);
    a_gap_adds_nothing(p1 + " "@ + "against"@ + " "@ + "strikes"@ + " "@ + "of"@ + " "@ + "the"@, " "@);
    a_word_begins(p1 + " "@ + "against"@ + " "@ + "strikes"@ + " "@ + "of"@ + " "@ + "the"@ + " "@, "same"@);
    a_gap_adds_nothing(p1 + " "@ + "against"@ + " "@ + "strikes"@ + " "@ + "of"@ + " "@ + "the"@ + " "@ + "same"@, " "@);
    a_word_begins(p1 + " "@ + "against"@ + " "@ + "strikes"@ + " "@ + "of"@ + " "@ + "the"@ + " "@ + "same"@ + " "@, "key;"@);
    a_gap_adds_nothing(p1 + " "@ + "against"@ + " "@ + "strikes"@ + " "@ + "of"@ + " "@ + "the"@ + " "@ + "same"@ + " "@ + "key;"@, " "@);
    a_word_begins(p1 + " "@ + "against"@ + " "@ + "strikes"@ + " "@ + "of"@ + " "@ + "the"@ + " "@ + "same"@ + " "@ + "key;"@ + " "@, "base"@);
    a_gap_adds_nothing(p1 + " "@ + "against"@ + " "@ + "strikes"@ + " "@ + "of"@ + " "@ + "the"@ + " "@ + "same"@ + " "@ + "key;"@ + " "@ + "base"@, " "@);
    let p2 = p1 + " against strikes of the same key; base "@;
    assert(p2 =~= p1 + " "@ + "against"@ + " "@ + "strikes"@ + " "@ + "of"@ + " "@ + "the"@ + " "@ + "same"@ + " "@ + "key;"@ + " "@ + "base"@ + " "@);
    a_word_begins(p2, base);
    let p3 = p2 + base;
    a_word_goes_on(p3, ","@);
    a_gap_adds_nothing(p3 + ","@, " "@);
    a_word_begins(p3 + ","@ + " "@, "preset"@);
    a_gap_adds_nothing(p3 + ","@ + " "@ + "preset"@, " "@);
    let p4 = p3 + ", preset "@;
    assert(p4 =~= p3 + ","@ + " "@ + "preset"@ + " "@);
    a_word_begins(p4, preset);
    let p5 = p4 + preset;
    a_gap_adds_nothing(p5, "\n"@);
    let p6 = p5 + "\n"@;
    assert(mechanism_heading_text(sfz, base, preset) == p6);
}

/// Each number of `event_heading` stands in its place among the words.
#[verifier::rlimit(30)]
pub proof fn the_words_of_event_heading_stand_in_order(name: Seq<char>, centroid: Seq<char>, decay: Seq<char>, velocity: Seq<char>)
    requires
        is_word(name),
        is_word(centroid),
        is_word(decay),
        is_word(velocity),
    ensures
        words_of(event_heading_text(name, centroid, decay, velocity)).len() == 9,
        words_of(event_heading_text(name, centroid, decay, velocity))[0] == "[noise."@ + name + "]"@,
        words_of(event_heading_text(name, centroid, decay, velocity))[1] == centroid,
        words_of(event_heading_text(name, centroid, decay, velocity))[3] == decay,
        words_of(event_heading_text(name, centroid, decay, velocity))[5] == velocity,
{
    reveal_strlit("\n[noise.");
    reveal_strlit("\n");
    reveal_strlit("[noise.");
    reveal_strlit("] ");
    reveal_strlit("]");
    reveal_strlit(" ");
    reveal_strlit(" Hz, ");
    reveal_strlit("Hz,");
    reveal_strlit(" s, ");
    reveal_strlit("s,");
    reveal_strlit(" dB of velocity\n");
    reveal_strlit("dB");
    reveal_strlit("of");
    reveal_strlit("velocity");
    let p0 = "\n[noise."@;
    a_gap_adds_nothing(Seq::<char>::empty(), "\n"@);
    a_word_begins(Seq::<char>::empty() + "\n"@, "[noise."@);
    assert(p0 =~= Seq::<char>::empty() + "\n"@ + "[noise."@);
    a_word_goes_on(p0, name);
    let p1 = p0 + name;
    a_word_goes_on(p1, "]"@);
    a_gap_adds_nothing(p1 + "]"@, " "@);
    let p2 = p1 + "] "@;
    assert(p2 =~= p1 + "]"@ + " "@);
    a_word_begins(p2, centroid);
    let p3 = p2 + centroid;
    a_gap_adds_nothing(p3, " "@);
    a_word_begins(p3 + " "@, "Hz,"@);
    a_gap_adds_nothing(p3 + " "@ + "Hz,"@, " "@);
    let p4 = p3 + " Hz, "@;
    assert(p4 =~= p3 + " "@ + "Hz,"@ + " "@);
    a_word_begins(p4, decay);
    let p5 = p4 + decay;
    a_gap_adds_nothing(p5, " "@);
    a_word_begins(p5 + " "@, "s,"@);
    a_gap_adds_nothing(p5 + " "@ + "s,"@, " "@);
    let p6 = p5 + " s, "@;
    assert(p6 =~= p5 + " "@ + "s,"@ + " "@);
    a_word_begins(p6, velocity);
    let p7 = p6 + velocity;
    a_gap_adds_nothing(p7, " "@);
    a_word_begins(p7 + " "@, "dB"@);
    a_gap_adds_nothing(p7 + " "@ + "dB"@, " "@);
    a_word_begins(p7 + " "@ + "dB"@ + " "@, "of"@);
    a_gap_adds_nothing(p7 + " "@ + "dB"@ + " "@ + "of"@, " "@);
    a_word_begins(p7 + " "@ + "dB"@ + " "@ + "of"@ + " "@, "velocity"@);
    a_gap_adds_nothing(p7 + " "@ + "dB"@ + " "@ + "of"@ + " "@ + "velocity"@, "\n"@);
    let p8 = p7 + " dB of velocity\n"@;
    assert(p8 =~= p7 + " "@ + "dB"@ + " "@ + "of"@ + " "@ + "velocity"@ + "\n"@);
    assert(event_heading_text(name, centroid, decay, velocity) == p8);
}

/// Each number of `anchor_line` stands in its place among the words.
#[verifier::rlimit(30)]
pub proof fn the_words_of_anchor_line_stand_in_order(key: u8, db: Seq<char>)
    requires
        is_word(db),
    ensures
        words_of(anchor_line_text(key, db)).len() == 4,
        words_of(anchor_line_text(key, db))[1] == decimal(key as nat),
        words_of(anchor_line_text(key, db))[2] == db,
{
    reveal_strlit("  key ");
    reveal_strlit("  ");
    reveal_strlit("key");
    reveal_strlit(" ");
    reveal_strlit(" dB\n");
    reveal_strlit("dB");
    reveal_strlit("\n");
    a_number_is_a_word(key as nat);
    let p0 = "  key "@;
    a_gap_adds_nothing(Seq::<char>::empty(), "  "@);
    a_word_begins(Seq::<char>::empty() + "  "@, "key"@);
    a_gap_adds_nothing(Seq::<char>::empty() + "  "@ + "key"@, " "@);
    assert(p0 =~= Seq::<char>::empty() + "  "@ + "key"@ + " "@);
    a_right_word_begins(p0, decimal(key as nat), 3);
    let p1 = p0 + right_in(decimal(key as nat), 3);
    a_gap_adds_nothing(p1, "  "@);
    let p2 = p1 + "  "@;
    a_word_begins(p2, db);
    let p3 = p2 + db;
    a_gap_adds_nothing(p3, " "@);
    a_word_begins(p3 + " "@, "dB"@);
    a_gap_adds_nothing(p3 + " "@ + "dB"@, "\n"@);
    let p4 = p3 + " dB\n"@;
    assert(p4 =~= p3 + " "@ + "dB"@ + "\n"@);
    assert(anchor_line_text(key, db) == p4);
}

/// Each number of `balance_heading` stands in its place among the words.
#[verifier::rlimit(30)]
pub proof fn the_words_of_balance_heading_stand_in_order(keys: usize, velocities: usize, preset: Seq<char>)
    requires
        is_word(preset),
    ensures
        words_of(balance_heading_text(keys, velocities, preset)).len() == 12,
        words_of(balance_heading_text(keys, velocities, preset))[3] == decimal(keys as nat),
        words_of(balance_heading_text(keys, velocities, preset))[7] == decimal(velocities as nat),
        words_of(balance_heading_text(keys, velocities, preset))[11] == preset,
{
    reveal_strlit("the mechanism's balance: ");
    reveal_strlit("the");
    reveal_strlit(" ");
    reveal_strlit("mechanism's");
    reveal_strlit("balance:");
    reveal_strlit(" recorded keys x ");
    reveal_strlit("recorded");
    reveal_strlit("keys");
    reveal_strlit("x");
    reveal_strlit(" velocities, engine on ");
    reveal_strlit("velocities,");
    reveal_strlit("engine");
    reveal_strlit("on");
    reveal_strlit("\n");
    a_number_is_a_word(keys as nat);
    a_number_is_a_word(velocities as nat);
    let p0 = "the mechanism's balance: "@;
    a_word_begins(Seq::<char>::empty(), "the"@);
    a_gap_adds_nothing(Seq::<char>::empty() + "the"@, " "@);
    a_word_begins(Seq::<char>::empty() + "the"@ + " "@, "mechanism's"@);
    a_gap_adds_nothing(Seq::<char>::empty() + "the"@ + " "@ + "mechanism's"@, " "@);
    a_word_begins(Seq::<char>::empty() + "the"@ + " "@ + "mechanism's"@ + " "@, "balance:"@);
    a_gap_adds_nothing(Seq::<char>::empty() + "the"@ + " "@ + "mechanism's"@ + " "@ + "balance:"@, " "@);
    assert(p0 =~= Seq::<char>::empty() + "the"@ + " "@ + "mechanism's"@ + " "@ + "balance:"@ + " "@);
    a_word_begins(p0, decimal(keys as nat));
    let p1 = p0 + decimal(keys as nat);
    a_gap_adds_nothing(p1, " "@);
    a_word_begins(p1 + " "@, "recorded"@);
    a_gap_adds_nothing(p1 + " "@ + "recorded"@, " "@);
    a_word_begins(p1 + " "@ + "recorded"@ + " "@, "keys"@);
    a_gap_adds_nothing(p1 + " "@ + "recorded"@ + " "@ + "keys"@, " "@);
    a_word_begins(p1 + " "@ + "recorded"@ + " "@ + "keys"@ + " "@, "x"@);
    a_gap_adds_nothing(p1 + " "@ + "recorded"@ + " "@ + "keys"@ + " "@ + "x"@, " "@);
    let p2 = p1 + " recorded keys x "@;
    assert(p2 =~= p1 + " "@ + "recorded"@ + " "@ + "keys"@ + " "@ + "x"@ + " "@);
    a_word_begins(p2, decimal(velocities as nat));
    let p3 = p2 + decimal(velocities as nat);
    a_gap_adds_nothing(p3, " "@);
    a_word_begins(p3 + " "@, "velocities,"@);
    a_gap_adds_nothing(p3 + " "@ + "velocities,"@, " "@);
    a_word_begins(p3 + " "@ + "velocities,"@ + " "@, "engine"@);
    a_gap_adds_nothing(p3 + " "@ + "velocities,"@ + " "@ + "engine"@, " "@);
    a_word_begins(p3 + " "@ + "velocities,"@ + " "@ + "engine"@ + " "@, "on"@);
    a_gap_adds_nothing(p3 + " "@ + "velocities,"@ + " "@ + "engine"@ + " "@ + "on"@, " "@);
    let p4 = p3 + " velocities, engine on "@;
    assert(p4 =~= p3 + " "@ + "velocities,"@ + " "@ + "engine"@ + " "@ + "on"@ + " "@);
    a_word_begins(p4, preset);
    let p5 = p4 + preset;
    a_gap_adds_nothing(p5, "\n"@);
    let p6 = p5 + "\n"@;
    assert(balance_heading_text(keys, velocities, preset) == p6);
}

/// Each number of `standing_line` stands in its place among the words.
#[verifier::rlimit(30)]
pub proof fn the_words_of_standing_line_stand_in_order(s: Standing)
    requires
        is_word(s.least@),
        is_word(s.most@),
        is_word(s.velocity@),
        is_word(s.centroid@),
        is_word(s.bandwidth@),
        is_word(s.decay@),
    ensures
        words_of(standing_line_text(s)).len() == 23,
        words_of(standing_line_text(s))[5] == s.least@,
        words_of(standing_line_text(s))[7] == s.most@,
        words_of(standing_line_text(s))[10] == decimal(s.anchors as nat),
        words_of(standing_line_text(s))[13] == s.velocity@ + ","@,
        words_of(standing_line_text(s))[15] == s.centroid@,
        words_of(standing_line_text(s))[18] == s.bandwidth@,
        words_of(standing_line_text(s))[21] == s.decay@,
{
    reveal_strlit("  [noise.strike] as it stands: level ");
    reveal_strlit("  ");
    reveal_strlit("[noise.strike]");
    reveal_strlit(" ");
    reveal_strlit("as");
    reveal_strlit("it");
    reveal_strlit("stands:");
    reveal_strlit("level");
    reveal_strlit(" .. ");
    reveal_strlit("..");
    reveal_strlit(" dB over ");
    reveal_strlit("dB");
    reveal_strlit("over");
    reveal_strlit(" anchors, velocity_db ");
    reveal_strlit("anchors,");
    reveal_strlit("velocity_db");
    reveal_strlit(", centroid ");
    reveal_strlit(",");
    reveal_strlit("centroid");
    reveal_strlit(" Hz, band ");
    reveal_strlit("Hz,");
    reveal_strlit("band");
    reveal_strlit(" Hz, decay ");
    reveal_strlit("decay");
    reveal_strlit(" s\n");
    reveal_strlit("s");
    reveal_strlit("\n");
    a_number_is_a_word(s.anchors as nat);
    let p0 = "  [noise.strike] as it stands: level "@;
    a_gap_adds_nothing(Seq::<char>::empty(), "  "@);
    a_word_begins(Seq::<char>::empty() + "  "@, "[noise.strike]"@);
    a_gap_adds_nothing(Seq::<char>::empty() + "  "@ + "[noise.strike]"@, " "@);
    a_word_begins(Seq::<char>::empty() + "  "@ + "[noise.strike]"@ + " "@, "as"@);
    a_gap_adds_nothing(Seq::<char>::empty() + "  "@ + "[noise.strike]"@ + " "@ + "as"@, " "@);
    a_word_begins(Seq::<char>::empty() + "  "@ + "[noise.strike]"@ + " "@ + "as"@ + " "@, "it"@);
    a_gap_adds_nothing(Seq::<char>::empty() + "  "@ + "[noise.strike]"@ + " "@ + "as"@ + " "@ + "it"@, " "@);
    a_word_begins(Seq::<char>::empty() + "  "@ + "[noise.strike]"@ + " "@ + "as"@ + " "@ + "it"@ + " "@, "stands:"@);
    a_gap_adds_nothing(Seq::<char>::empty() + "  "@ + "[noise.strike]"@ + " "@ + "as"@ + " "@ + "it"@ + " "@ + "stands:"@, " "@);
    a_word_begins(Seq::<char>::empty() + "  "@ + "[noise.strike]"@ + " "@ + "as"@ + " "@ + "it"@ + " "@ + "stands:"@ + " "@, "level"@);
    a_gap_adds_nothing(Seq::<char>::empty() + "  "@ + "[noise.strike]"@ + " "@ + "as"@ + " "@ + "it"@ + " "@ + "stands:"@ + " "@ + "level"@, " "@);
    assert(p0 =~= Seq::<char>::empty() + "  "@ + "[noise.strike]"@ + " "@ + "as"@ + " "@ + "it"@ + " "@ + "stands:"@ + " "@ + "level"@ + " "@);
    a_word_begins(p0, s.least@);
    let p1 = p0 + s.least@;
    a_gap_adds_nothing(p1, " "@);
    a_word_begins(p1 + " "@, ".."@);
    a_gap_adds_nothing(p1 + " "@ + ".."@, " "@);
    let p2 = p1 + " .. "@;
    assert(p2 =~= p1 + " "@ + ".."@ + " "@);
    a_word_begins(p2, s.most@);
    let p3 = p2 + s.most@;
    a_gap_adds_nothing(p3, " "@);
    a_word_begins(p3 + " "@, "dB"@);
    a_gap_adds_nothing(p3 + " "@ + "dB"@, " "@);
    a_word_begins(p3 + " "@ + "dB"@ + " "@, "over"@);
    a_gap_adds_nothing(p3 + " "@ + "dB"@ + " "@ + "over"@, " "@);
    let p4 = p3 + " dB over "@;
    assert(p4 =~= p3 + " "@ + "dB"@ + " "@ + "over"@ + " "@);
    a_word_begins(p4, decimal(s.anchors as nat));
    let p5 = p4 + decimal(s.anchors as nat);
    a_gap_adds_nothing(p5, " "@);
    a_word_begins(p5 + " "@, "anchors,"@);
    a_gap_adds_nothing(p5 + " "@ + "anchors,"@, " "@);
    a_word_begins(p5 + " "@ + "anchors,"@ + " "@, "velocity_db"@);
    a_gap_adds_nothing(p5 + " "@ + "anchors,"@ + " "@ + "velocity_db"@, " "@);
    let p6 = p5 + " anchors, velocity_db "@;
    assert(p6 =~= p5 + " "@ + "anchors,"@ + " "@ + "velocity_db"@ + " "@);
    a_word_begins(p6, s.velocity@);
    let p7 = p6 + s.velocity@;
    a_word_goes_on(p7, ","@);
    a_gap_adds_nothing(p7 + ","@, " "@);
    a_word_begins(p7 + ","@ + " "@, "centroid"@);
    a_gap_adds_nothing(p7 + ","@ + " "@ + "centroid"@, " "@);
    let p8 = p7 + ", centroid "@;
    assert(p8 =~= p7 + ","@ + " "@ + "centroid"@ + " "@);
    a_word_begins(p8, s.centroid@);
    let p9 = p8 + s.centroid@;
    a_gap_adds_nothing(p9, " "@);
    a_word_begins(p9 + " "@, "Hz,"@);
    a_gap_adds_nothing(p9 + " "@ + "Hz,"@, " "@);
    a_word_begins(p9 + " "@ + "Hz,"@ + " "@, "band"@);
    a_gap_adds_nothing(p9 + " "@ + "Hz,"@ + " "@ + "band"@, " "@);
    let p10 = p9 + " Hz, band "@;
    assert(p10 =~= p9 + " "@ + "Hz,"@ + " "@ + "band"@ + " "@);
    a_word_begins(p10, s.bandwidth@);
    let p11 = p10 + s.bandwidth@;
    a_gap_adds_nothing(p11, " "@);
    a_word_begins(p11 + " "@, "Hz,"@);
    a_gap_adds_nothing(p11 + " "@ + "Hz,"@, " "@);
    a_word_begins(p11 + " "@ + "Hz,"@ + " "@, "decay"@);
    a_gap_adds_nothing(p11 + " "@ + "Hz,"@ + " "@ + "decay"@, " "@);
    let p12 = p11 + " Hz, decay "@;
    assert(p12 =~= p11 + " "@ + "Hz,"@ + " "@ + "decay"@ + " "@);
    a_word_begins(p12, s.decay@);
    let p13 = p12 + s.decay@;
    a_gap_adds_nothing(p13, " "@);
    a_word_begins(p13 + " "@, "s"@);
    a_gap_adds_nothing(p13 + " "@ + "s"@, "\n"@);
    let p14 = p13 + " s\n"@;
    assert(p14 =~= p13 + " "@ + "s"@ + "\n"@);
    assert(standing_line_text(s) == p14);
}

/// Each number of `note_row` stands in its place among the words.
#[verifier::rlimit(30)]
pub proof fn the_words_of_note_row_stand_in_order(r: NoteRow)
    requires
        is_word(channel_text(r.worse)),
        is_word(r.reference@),
        is_word(r.engine@),
        is_word(r.tone@),
        is_word(r.away@),
        is_word(r.away_worse@),
        is_word(offset_text(r)),
    ensures
        words_of(note_row_text(r)).len() == 9,
        words_of(note_row_text(r))[0] == decimal(r.key as nat),
        words_of(note_row_text(r))[1] == decimal(r.velocity as nat),
        words_of(note_row_text(r))[2] == channel_text(r.worse),
        words_of(note_row_text(r))[3] == r.reference@,
        words_of(note_row_text(r))[4] == r.engine@,
        words_of(note_row_text(r))[5] == r.tone@,
        words_of(note_row_text(r))[6] == r.away@,
        words_of(note_row_text(r))[7] == r.away_worse@,
        words_of(note_row_text(r))[8] == offset_text(r),
{
    reveal_strlit(" ");
    reveal_strlit("\n");
    a_number_is_a_word(r.key as nat);
    a_number_is_a_word(r.velocity as nat);
    let p0 = Seq::<char>::empty();
    a_right_word_begins(p0, decimal(r.key as nat), 4);
    let p1 = p0 + right_in(decimal(r.key as nat), 4);
    a_gap_adds_nothing(p1, " "@);
    let p2 = p1 + " "@;
    a_right_word_begins(p2, decimal(r.velocity as nat), 4);
    let p3 = p2 + right_in(decimal(r.velocity as nat), 4);
    a_gap_adds_nothing(p3, " "@);
    let p4 = p3 + " "@;
    a_right_word_begins(p4, channel_text(r.worse), 4);
    let p5 = p4 + right_in(channel_text(r.worse), 4);
    a_gap_adds_nothing(p5, " "@);
    let p6 = p5 + " "@;
    a_right_word_begins(p6, r.reference@, 9);
    let p7 = p6 + right_in(r.reference@, 9);
    a_gap_adds_nothing(p7, " "@);
    let p8 = p7 + " "@;
    a_right_word_begins(p8, r.engine@, 9);
    let p9 = p8 + right_in(r.engine@, 9);
    a_gap_adds_nothing(p9, " "@);
    let p10 = p9 + " "@;
    a_right_word_begins(p10, r.tone@, 9);
    let p11 = p10 + right_in(r.tone@, 9);
    a_gap_adds_nothing(p11, " "@);
    let p12 = p11 + " "@;
    a_right_word_begins(p12, r.away@, 9);
    let p13 = p12 + right_in(r.away@, 9);
    a_gap_adds_nothing(p13, " "@);
    let p14 = p13 + " "@;
    a_right_word_begins(p14, r.away_worse@, 9);
    let p15 = p14 + right_in(r.away_worse@, 9);
    a_gap_adds_nothing(p15, " "@);
    let p16 = p15 + " "@;
    a_right_word_begins(p16, offset_text(r), 10);
    let p17 = p16 + right_in(offset_text(r), 10);
    a_gap_adds_nothing(p17, "\n"@);
    let p18 = p17 + "\n"@;
    assert(note_row_text(r) == p18);
}

/// Each number of `velocity_row` stands in its place among the words.
#[verifier::rlimit(30)]
pub proof fn the_words_of_velocity_row_stand_in_order(r: VelocityRow)
    requires
        is_word(r.away@),
        is_word(at_velocity_text(r.offset)),
    ensures
        words_of(velocity_row_text(r)).len() == 9,
        words_of(velocity_row_text(r))[1] == decimal(r.velocity as nat) + ":"@,
        words_of(velocity_row_text(r))[3] == r.away@,
        words_of(velocity_row_text(r))[6] == at_velocity_text(r.offset),
        words_of(velocity_row_text(r))[8] == decimal(r.count as nat) + ")"@,
{
    reveal_strlit("  vel ");
    reveal_strlit("  ");
    reveal_strlit("vel");
    reveal_strlit(" ");
    reveal_strlit(": engine-ref ");
    reveal_strlit(":");
    reveal_strlit("engine-ref");
    reveal_strlit(" dB   offset ");
    reveal_strlit("dB");
    reveal_strlit("   ");
    reveal_strlit("offset");
    reveal_strlit(" (n ");
    reveal_strlit("(n");
    reveal_strlit(")\n");
    reveal_strlit(")");
    reveal_strlit("\n");
    a_number_is_a_word(r.velocity as nat);
    a_number_is_a_word(r.count as nat);
    let p0 = "  vel "@;
    a_gap_adds_nothing(Seq::<char>::empty(), "  "@);
    a_word_begins(Seq::<char>::empty() + "  "@, "vel"@);
    a_gap_adds_nothing(Seq::<char>::empty() + "  "@ + "vel"@, " "@);
    assert(p0 =~= Seq::<char>::empty() + "  "@ + "vel"@ + " "@);
    a_right_word_begins(p0, decimal(r.velocity as nat), 3);
    let p1 = p0 + right_in(decimal(r.velocity as nat), 3);
    a_word_goes_on(p1, ":"@);
    a_gap_adds_nothing(p1 + ":"@, " "@);
    a_word_begins(p1 + ":"@ + " "@, "engine-ref"@);
    a_gap_adds_nothing(p1 + ":"@ + " "@ + "engine-ref"@, " "@);
    let p2 = p1 + ": engine-ref "@;
    assert(p2 =~= p1 + ":"@ + " "@ + "engine-ref"@ + " "@);
    a_word_begins(p2, r.away@);
    let p3 = p2 + r.away@;
    a_gap_adds_nothing(p3, " "@);
    a_word_begins(p3 + " "@, "dB"@);
    a_gap_adds_nothing(p3 + " "@ + "dB"@, "   "@);
    a_word_begins(p3 + " "@ + "dB"@ + "   "@, "offset"@);
    a_gap_adds_nothing(p3 + " "@ + "dB"@ + "   "@ + "offset"@, " "@);
    let p4 = p3 + " dB   offset "@;
    assert(p4 =~= p3 + " "@ + "dB"@ + "   "@ + "offset"@ + " "@);
    a_word_begins(p4, at_velocity_text(r.offset));
    let p5 = p4 + at_velocity_text(r.offset);
    a_gap_adds_nothing(p5, " "@);
    a_word_begins(p5 + " "@, "(n"@);
    a_gap_adds_nothing(p5 + " "@ + "(n"@, " "@);
    let p6 = p5 + " (n "@;
    assert(p6 =~= p5 + " "@ + "(n"@ + " "@);
    a_word_begins(p6, decimal(r.count as nat));
    let p7 = p6 + decimal(r.count as nat);
    a_word_goes_on(p7, ")"@);
    a_gap_adds_nothing(p7 + ")"@, "\n"@);
    let p8 = p7 + ")\n"@;
    assert(p8 =~= p7 + ")"@ + "\n"@);
    assert(velocity_row_text(r) == p8);
}

/// Each number of `too_few_line` stands in its place among the words.
#[verifier::rlimit(30)]
pub proof fn the_words_of_too_few_line_stand_in_order(inverted: usize, notes: usize)
    ensures
        words_of(too_few_line_text(inverted, notes)).len() == 11,
        words_of(too_few_line_text(inverted, notes))[8] == "("@ + decimal(inverted as nat),
        words_of(too_few_line_text(inverted, notes))[10] == decimal(notes as nat) + ")"@,
{
    reveal_strlit("\nnot enough readings inverted to fit a correction (");
    reveal_strlit("\n");
    reveal_strlit("not");
    reveal_strlit(" ");
    reveal_strlit("enough");
    reveal_strlit("readings");
    reveal_strlit("inverted");
    reveal_strlit("to");
    reveal_strlit("fit");
    reveal_strlit("a");
    reveal_strlit("correction");
    reveal_strlit("(");
    reveal_strlit(" of ");
    reveal_strlit("of");
    reveal_strlit(")\n");
    reveal_strlit(")");
    a_number_is_a_word(inverted as nat);
    a_number_is_a_word(notes as nat);
    let p0 = TOO_FEW_LINE_0@;
    a_gap_adds_nothing(Seq::<char>::empty(), "\n"@);
    a_word_begins(Seq::<char>::empty() + "\n"@, "not"@);
    a_gap_adds_nothing(Seq::<char>::empty() + "\n"@ + "not"@, " "@);
    a_word_begins(Seq::<char>::empty() + "\n"@ + "not"@ + " "@, "enough"@);
    a_gap_adds_nothing(Seq::<char>::empty() + "\n"@ + "not"@ + " "@ + "enough"@, " "@);
    a_word_begins(Seq::<char>::empty() + "\n"@ + "not"@ + " "@ + "enough"@ + " "@, "readings"@);
    a_gap_adds_nothing(Seq::<char>::empty() + "\n"@ + "not"@ + " "@ + "enough"@ + " "@ + "readings"@, " "@);
    a_word_begins(Seq::<char>::empty() + "\n"@ + "not"@ + " "@ + "enough"@ + " "@ + "readings"@ + " "@, "inverted"@);
    a_gap_adds_nothing(Seq::<char>::empty() + "\n"@ + "not"@ + " "@ + "enough"@ + " "@ + "readings"@ + " "@ + "inverted"@, " "@);
    a_word_begins(Seq::<char>::empty() + "\n"@ + "not"@ + " "@ + "enough"@ + " "@ + "readings"@ + " "@ + "inverted"@ + " "@, "to"@);
    a_gap_adds_nothing(Seq::<char>::empty() + "\n"@ + "not"@ + " "@ + "enough"@ + " "@ + "readings"@ + " "@ + "inverted"@ + " "@ + "to"@, " "@);
    a_word_begins(Seq::<char>::empty() + "\n"@ + "not"@ + " "@ + "enough"@ + " "@ + "readings"@ + " "@ + "inverted"@ + " "@ + "to"@ + " "@, "fit"@);
    a_gap_adds_nothing(Seq::<char>::empty() + "\n"@ + "not"@ + " "@ + "enough"@ + " "@ + "readings"@ + " "@ + "inverted"@ + " "@ + "to"@ + " "@ + "fit"@, " "@);
    a_word_begins(Seq::<char>::empty() + "\n"@ + "not"@ + " "@ + "enough"@ + " "@ + "readings"@ + " "@ + "inverted"@ + " "@ + "to"@ + " "@ + "fit"@ + " "@, "a"@);
    a_gap_adds_nothing(Seq::<char>::empty() + "\n"@ + "not"@ + " "@ + "enough"@ + " "@ + "readings"@ + " "@ + "inverted"@ + " "@ + "to"@ + " "@ + "fit"@ + " "@ + "a"@, " "@);
    a_word_begins(Seq::<char>::empty() + "\n"@ + "not"@ + " "@ + "enough"@ + " "@ + "readings"@ + " "@ + "inverted"@ + " "@ + "to"@ + " "@ + "fit"@ + " "@ + "a"@ + " "@, "correction"@);
    a_gap_adds_nothing(Seq::<char>::empty() + "\n"@ + "not"@ + " "@ + "enough"@ + " "@ + "readings"@ + " "@ + "inverted"@ + " "@ + "to"@ + " "@ + "fit"@ + " "@ + "a"@ + " "@ + "correction"@, " "@);
    a_word_begins(Seq::<char>::empty() + "\n"@ + "not"@ + " "@ + "enough"@ + " "@ + "readings"@ + " "@ + "inverted"@ + " "@ + "to"@ + " "@ + "fit"@ + " "@ + "a"@ + " "@ + "correction"@ + " "@, "("@);
    assert(p0 =~= Seq::<char>::empty() + "\n"@ + "not"@ + " "@ + "enough"@ + " "@ + "readings"@ + " "@ + "inverted"@ + " "@ + "to"@ + " "@ + "fit"@ + " "@ + "a"@ + " "@ + "correction"@ + " "@ + "("@);
    a_word_goes_on(p0, decimal(inverted as nat));
    let p1 = p0 + decimal(inverted as nat);
    a_gap_adds_nothing(p1, " "@);
    a_word_begins(p1 + " "@, "of"@);
    a_gap_adds_nothing(p1 + " "@ + "of"@, " "@);
    let p2 = p1 + " of "@;
    assert(p2 =~= p1 + " "@ + "of"@ + " "@);
    a_word_begins(p2, decimal(notes as nat));
    let p3 = p2 + decimal(notes as nat);
    a_word_goes_on(p3, ")"@);
    a_gap_adds_nothing(p3 + ")"@, "\n"@);
    let p4 = p3 + ")\n"@;
    assert(p4 =~= p3 + ")"@ + "\n"@);
    assert(too_few_line_text(inverted, notes) == p4);
}

} // verus!
