//! What a run on the melody says as it goes.

use crate::melody::report::{named, named_text, Column, TimedNote};
use crate::text::{decimal, join, joined, left_in, print, push_left, push_right, quote, quoted, right_in, views};
use crate::words::{a_gap_adds_nothing, a_left_word_begins, a_left_word_goes_on, a_number_is_a_word, a_right_word_begins, a_word_begins, a_word_goes_on, is_word, words_of};
use vstd::prelude::*;

verus! {

/// What is held against what.
pub open spec fn heading_text(pitches: usize, preset: Seq<char>, what: Seq<char>, sfz: Seq<char>) -> Seq<char> {
    "melody line: "@
        + decimal(pitches as nat)
        + " pitches, engine on "@
        + preset
        + " ("@
        + what
        + "), reference "@
        + sfz
        + "\n"@
}

/// What is held against what.
pub fn heading(pitches: usize, preset: &str, what: &str, sfz: &str) -> (text: String)
    ensures
        text@ == heading_text(pitches, preset@, what@, sfz@),
{
    let mut out = String::from_str("melody line: ");
    out.append(print(pitches as u64).as_str());
    out.append(" pitches, engine on ");
    out.append(preset);
    out.append(" (");
    out.append(what);
    out.append("), reference ");
    out.append(sfz);
    out.append("\n");
    out
}

/// Which keys of the line are scored.
pub open spec fn scored_line_text(own: Seq<String>, others: Seq<String>) -> Seq<char> {
    "  scored reference keys on the line: "@
        + named_text(views(own))
        + "   |   transposed and unscored: "@
        + named_text(views(others))
        + "\n"@
}

/// Which keys of the line are scored.
pub fn scored_line(own: &Vec<String>, others: &Vec<String>) -> (text: String)
    ensures
        text@ == scored_line_text(own@, others@),
{
    let mut out = String::from_str("  scored reference keys on the line: ");
    out.append(named(own).as_str());
    out.append("   |   transposed and unscored: ");
    out.append(named(others).as_str());
    out.append("\n");
    out
}

pub const LADDER_LINE_0: &'static str = "  bars measured off the recorded ladder: ";

/// Which keys the bars are measured on.
pub open spec fn ladder_line_text(ladder: Seq<String>) -> Seq<char> {
    LADDER_LINE_0@
        + named_text(views(ladder))
        + "\n\n"@
}

/// Which keys the bars are measured on.
pub fn ladder_line(ladder: &Vec<String>) -> (text: String)
    ensures
        text@ == ladder_line_text(ladder@),
{
    let mut out = String::from_str(LADDER_LINE_0);
    out.append(named(ladder).as_str());
    out.append("\n\n");
    out
}

/// The head of the notes.
pub const HEAD_NOTES: &'static str = "every note of the head window, in time order:\n      at  key   roughness   \
    wobble       hf   strike\n";

/// A note as it was played.
pub open spec fn note_line_text(n: TimedNote) -> Seq<char> {
    "  "@
        + right_in(n.at@, 6)
        + "  "@
        + left_in(n.name@, 4)
        + "  "@
        + right_in(n.roughness.engine@, 5)
        + "/"@
        + left_in(n.roughness.reference@, 5)
        + "  "@
        + right_in(n.wobble.engine@, 3)
        + "/"@
        + left_in(n.wobble.reference@, 3)
        + "  "@
        + right_in(n.hf.engine@, 6)
        + "/"@
        + left_in(n.hf.reference@, 6)
        + "  "@
        + right_in(n.strike.engine@, 5)
        + "/"@
        + left_in(n.strike.reference@, 5)
        + "\n"@
}

/// A note as it was played.
pub fn note_line(n: &TimedNote) -> (text: String)
    ensures
        text@ == note_line_text(*n),
{
    let mut out = String::from_str("  ");
    push_right(&mut out, n.at.as_str(), 6);
    out.append("  ");
    push_left(&mut out, n.name.as_str(), 4);
    out.append("  ");
    push_right(&mut out, n.roughness.engine.as_str(), 5);
    out.append("/");
    push_left(&mut out, n.roughness.reference.as_str(), 5);
    out.append("  ");
    push_right(&mut out, n.wobble.engine.as_str(), 3);
    out.append("/");
    push_left(&mut out, n.wobble.reference.as_str(), 3);
    out.append("  ");
    push_right(&mut out, n.hf.engine.as_str(), 6);
    out.append("/");
    push_left(&mut out, n.hf.reference.as_str(), 6);
    out.append("  ");
    push_right(&mut out, n.strike.engine.as_str(), 5);
    out.append("/");
    push_left(&mut out, n.strike.reference.as_str(), 5);
    out.append("\n");
    out
}

/// The notes as they were played.
pub open spec fn note_lines_text(rows: Seq<TimedNote>) -> Seq<char>
    decreases rows.len(),
{
    if rows.len() == 0 {
        Seq::empty()
    } else {
        note_lines_text(rows.drop_last()) + note_line_text(rows.last())
    }
}

/// The notes as they were played.
pub fn note_lines(rows: &Vec<TimedNote>) -> (text: String)
    ensures
        text@ == note_lines_text(rows@),
{
    let mut out = String::new();
    let mut i: usize = 0;
    proof {
        assert(rows@.take(0) =~= Seq::<TimedNote>::empty());
    }
    while i < rows.len()
        invariant
            i <= rows.len(),
            out@ == note_lines_text(rows@.take(i as int)),
        decreases rows.len() - i,
    {
        proof {
            assert(rows@.take(i + 1).drop_last() =~= rows@.take(i as int));
        }
        out.append(note_line(&rows[i]).as_str());
        i = i + 1;
    }
    proof {
        assert(rows@.take(i as int) =~= rows@);
    }
    out
}

/// A column that fails, and where.
pub open spec fn failing_text(c: Column) -> Seq<char> {
    c.metric@
        + " ("@
        + c.window@
        + ") at "@
        + c.standout_at@
}

/// A column that fails, and where.
pub fn failing(c: &Column) -> (text: String)
    ensures
        text@ == failing_text(*c),
{
    let mut out = String::from_str(c.metric.as_str());
    out.append(" (");
    out.append(c.window.as_str());
    out.append(") at ");
    out.append(c.standout_at.as_str());
    out
}

/// What the columns that fail say, in order.
pub open spec fn failed_of(columns: Seq<Column>) -> Seq<Seq<char>>
    decreases columns.len(),
{
    if columns.len() == 0 {
        Seq::empty()
    } else {
        let before = failed_of(columns.drop_last());
        if columns.last().pass {
            before
        } else {
            before.push(quoted(failing_text(columns.last())))
        }
    }
}

/// What the columns that fail say, in order, each in quotes.
pub fn failed(columns: &Vec<Column>) -> (r: Vec<String>)
    ensures
        views(r@) == failed_of(columns@),
{
    let mut out: Vec<String> = Vec::new();
    let mut i: usize = 0;
    proof {
        assert(columns@.take(0) =~= Seq::<Column>::empty());
        assert(views(out@) =~= Seq::<Seq<char>>::empty());
    }
    while i < columns.len()
        invariant
            i <= columns.len(),
            views(out@) == failed_of(columns@.take(i as int)),
        decreases columns.len() - i,
    {
        proof {
            assert(columns@.take(i + 1).drop_last() =~= columns@.take(i as int));
        }
        if !columns[i].pass {
            let ghost before = out@;
            out.push(quote(failing(&columns[i]).as_str()));
            proof {
                assert(views(out@) =~= views(before).push(out@.last()@));
            }
        }
        i = i + 1;
    }
    proof {
        assert(columns@.take(i as int) =~= columns@);
    }
    out
}

/// Whether the columns pass, and which do not.
pub open spec fn verdict_line_text(columns: Seq<Column>) -> Seq<char> {
    let failed = failed_of(columns);
    if failed.len() == 0 {
        EVEN@
    } else {
        "\nuneven in ["@ + joined(failed, ", "@) + "]\n"@
    }
}

/// What is said where every column passes.
pub const EVEN: &'static str = "\nevery column inside the recorded register's own scatter\n";

/// Whether the columns pass, and which do not.
pub fn verdict_line(columns: &Vec<Column>) -> (text: String)
    ensures
        text@ == verdict_line_text(columns@),
{
    let failed = failed(columns);
    if failed.len() == 0 {
        String::from_str(EVEN)
    } else {
        let mut out = String::from_str("\nuneven in [");
        out.append(join(&failed, ", ").as_str());
        out.append("]\n");
        out
    }
}

/// The `note_lines` are printed one after another, in their order.
pub proof fn the_note_lines_follow_each_other(a: Seq<TimedNote>, b: Seq<TimedNote>)
    ensures
        note_lines_text(a + b) == note_lines_text(a) + note_lines_text(b),
        a.len() == 1 ==> note_lines_text(a) == note_line_text(a[0]),
        note_lines_text(Seq::<TimedNote>::empty()).len() == 0,
    decreases b.len(),
{
    if a.len() == 1 {
        assert(a.drop_last() =~= Seq::<TimedNote>::empty());
        assert(note_lines_text(a.drop_last()) =~= Seq::<char>::empty());
        assert(note_lines_text(a) =~= note_line_text(a[0]));
    }
    if b.len() == 0 {
        assert(a + b =~= a);
        assert(note_lines_text(a) + note_lines_text(b) =~= note_lines_text(a));
    } else {
        the_note_lines_follow_each_other(a, b.drop_last());
        assert((a + b).drop_last() =~= a + b.drop_last());
        assert((a + b).last() == b.last());
        assert(note_lines_text(a) + note_lines_text(b.drop_last()) + note_line_text(b.last()) =~= note_lines_text(a) + (note_lines_text(
            b.drop_last(),
        ) + note_line_text(b.last())));
    }
}

/// Each number of `heading` stands in its place among the words.
#[verifier::rlimit(30)]
pub proof fn the_words_of_heading_stand_in_order(pitches: usize, preset: Seq<char>, what: Seq<char>, sfz: Seq<char>)
    requires
        is_word(preset),
        is_word(what),
        is_word(sfz),
    ensures
        words_of(heading_text(pitches, preset, what, sfz)).len() == 10,
        words_of(heading_text(pitches, preset, what, sfz))[2] == decimal(pitches as nat),
        words_of(heading_text(pitches, preset, what, sfz))[6] == preset,
        words_of(heading_text(pitches, preset, what, sfz))[7] == "("@ + what + "),"@,
        words_of(heading_text(pitches, preset, what, sfz))[9] == sfz,
{
    reveal_strlit("melody line: ");
    reveal_strlit("melody");
    reveal_strlit(" ");
    reveal_strlit("line:");
    reveal_strlit(" pitches, engine on ");
    reveal_strlit("pitches,");
    reveal_strlit("engine");
    reveal_strlit("on");
    reveal_strlit(" (");
    reveal_strlit("(");
    reveal_strlit("), reference ");
    reveal_strlit("),");
    reveal_strlit("reference");
    reveal_strlit("\n");
    a_number_is_a_word(pitches as nat);
    let p0 = "melody line: "@;
    a_word_begins(Seq::<char>::empty(), "melody"@);
    a_gap_adds_nothing(Seq::<char>::empty() + "melody"@, " "@);
    a_word_begins(Seq::<char>::empty() + "melody"@ + " "@, "line:"@);
    a_gap_adds_nothing(Seq::<char>::empty() + "melody"@ + " "@ + "line:"@, " "@);
    assert(p0 =~= Seq::<char>::empty() + "melody"@ + " "@ + "line:"@ + " "@);
    a_word_begins(p0, decimal(pitches as nat));
    let p1 = p0 + decimal(pitches as nat);
    a_gap_adds_nothing(p1, " "@);
    a_word_begins(p1 + " "@, "pitches,"@);
    a_gap_adds_nothing(p1 + " "@ + "pitches,"@, " "@);
    a_word_begins(p1 + " "@ + "pitches,"@ + " "@, "engine"@);
    a_gap_adds_nothing(p1 + " "@ + "pitches,"@ + " "@ + "engine"@, " "@);
    a_word_begins(p1 + " "@ + "pitches,"@ + " "@ + "engine"@ + " "@, "on"@);
    a_gap_adds_nothing(p1 + " "@ + "pitches,"@ + " "@ + "engine"@ + " "@ + "on"@, " "@);
    let p2 = p1 + " pitches, engine on "@;
    assert(p2 =~= p1 + " "@ + "pitches,"@ + " "@ + "engine"@ + " "@ + "on"@ + " "@);
    a_word_begins(p2, preset);
    let p3 = p2 + preset;
    a_gap_adds_nothing(p3, " "@);
    a_word_begins(p3 + " "@, "("@);
    let p4 = p3 + " ("@;
    assert(p4 =~= p3 + " "@ + "("@);
    a_word_goes_on(p4, what);
    let p5 = p4 + what;
    a_word_goes_on(p5, "),"@);
    a_gap_adds_nothing(p5 + "),"@, " "@);
    a_word_begins(p5 + "),"@ + " "@, "reference"@);
    a_gap_adds_nothing(p5 + "),"@ + " "@ + "reference"@, " "@);
    let p6 = p5 + "), reference "@;
    assert(p6 =~= p5 + "),"@ + " "@ + "reference"@ + " "@);
    a_word_begins(p6, sfz);
    let p7 = p6 + sfz;
    a_gap_adds_nothing(p7, "\n"@);
    let p8 = p7 + "\n"@;
    assert(heading_text(pitches, preset, what, sfz) == p8);
}

/// Each number of `scored_line` stands in its place among the words.
#[verifier::rlimit(30)]
pub proof fn the_words_of_scored_line_stand_in_order(own: Seq<String>, others: Seq<String>)
    requires
        is_word(named_text(views(own))),
        is_word(named_text(views(others))),
    ensures
        words_of(scored_line_text(own, others)).len() == 12,
        words_of(scored_line_text(own, others))[6] == named_text(views(own)),
        words_of(scored_line_text(own, others))[11] == named_text(views(others)),
{
    reveal_strlit("  scored reference keys on the line: ");
    reveal_strlit("  ");
    reveal_strlit("scored");
    reveal_strlit(" ");
    reveal_strlit("reference");
    reveal_strlit("keys");
    reveal_strlit("on");
    reveal_strlit("the");
    reveal_strlit("line:");
    reveal_strlit("   |   transposed and unscored: ");
    reveal_strlit("   ");
    reveal_strlit("|");
    reveal_strlit("transposed");
    reveal_strlit("and");
    reveal_strlit("unscored:");
    reveal_strlit("\n");
    let p0 = "  scored reference keys on the line: "@;
    a_gap_adds_nothing(Seq::<char>::empty(), "  "@);
    a_word_begins(Seq::<char>::empty() + "  "@, "scored"@);
    a_gap_adds_nothing(Seq::<char>::empty() + "  "@ + "scored"@, " "@);
    a_word_begins(Seq::<char>::empty() + "  "@ + "scored"@ + " "@, "reference"@);
    a_gap_adds_nothing(Seq::<char>::empty() + "  "@ + "scored"@ + " "@ + "reference"@, " "@);
    a_word_begins(Seq::<char>::empty() + "  "@ + "scored"@ + " "@ + "reference"@ + " "@, "keys"@);
    a_gap_adds_nothing(Seq::<char>::empty() + "  "@ + "scored"@ + " "@ + "reference"@ + " "@ + "keys"@, " "@);
    a_word_begins(Seq::<char>::empty() + "  "@ + "scored"@ + " "@ + "reference"@ + " "@ + "keys"@ + " "@, "on"@);
    a_gap_adds_nothing(Seq::<char>::empty() + "  "@ + "scored"@ + " "@ + "reference"@ + " "@ + "keys"@ + " "@ + "on"@, " "@);
    a_word_begins(Seq::<char>::empty() + "  "@ + "scored"@ + " "@ + "reference"@ + " "@ + "keys"@ + " "@ + "on"@ + " "@, "the"@);
    a_gap_adds_nothing(Seq::<char>::empty() + "  "@ + "scored"@ + " "@ + "reference"@ + " "@ + "keys"@ + " "@ + "on"@ + " "@ + "the"@, " "@);
    a_word_begins(Seq::<char>::empty() + "  "@ + "scored"@ + " "@ + "reference"@ + " "@ + "keys"@ + " "@ + "on"@ + " "@ + "the"@ + " "@, "line:"@);
    a_gap_adds_nothing(Seq::<char>::empty() + "  "@ + "scored"@ + " "@ + "reference"@ + " "@ + "keys"@ + " "@ + "on"@ + " "@ + "the"@ + " "@ + "line:"@, " "@);
    assert(p0 =~= Seq::<char>::empty() + "  "@ + "scored"@ + " "@ + "reference"@ + " "@ + "keys"@ + " "@ + "on"@ + " "@ + "the"@ + " "@ + "line:"@ + " "@);
    a_word_begins(p0, named_text(views(own)));
    let p1 = p0 + named_text(views(own));
    a_gap_adds_nothing(p1, "   "@);
    a_word_begins(p1 + "   "@, "|"@);
    a_gap_adds_nothing(p1 + "   "@ + "|"@, "   "@);
    a_word_begins(p1 + "   "@ + "|"@ + "   "@, "transposed"@);
    a_gap_adds_nothing(p1 + "   "@ + "|"@ + "   "@ + "transposed"@, " "@);
    a_word_begins(p1 + "   "@ + "|"@ + "   "@ + "transposed"@ + " "@, "and"@);
    a_gap_adds_nothing(p1 + "   "@ + "|"@ + "   "@ + "transposed"@ + " "@ + "and"@, " "@);
    a_word_begins(p1 + "   "@ + "|"@ + "   "@ + "transposed"@ + " "@ + "and"@ + " "@, "unscored:"@);
    a_gap_adds_nothing(p1 + "   "@ + "|"@ + "   "@ + "transposed"@ + " "@ + "and"@ + " "@ + "unscored:"@, " "@);
    let p2 = p1 + "   |   transposed and unscored: "@;
    assert(p2 =~= p1 + "   "@ + "|"@ + "   "@ + "transposed"@ + " "@ + "and"@ + " "@ + "unscored:"@ + " "@);
    a_word_begins(p2, named_text(views(others)));
    let p3 = p2 + named_text(views(others));
    a_gap_adds_nothing(p3, "\n"@);
    let p4 = p3 + "\n"@;
    assert(scored_line_text(own, others) == p4);
}

/// Each number of `note_line` stands in its place among the words.
#[verifier::rlimit(30)]
pub proof fn the_words_of_note_line_stand_in_order(n: TimedNote)
    requires
        is_word(n.at@),
        is_word(n.name@),
        is_word(n.roughness.engine@),
        is_word(n.roughness.reference@),
        is_word(n.wobble.engine@),
        is_word(n.wobble.reference@),
        is_word(n.hf.engine@),
        is_word(n.hf.reference@),
        is_word(n.strike.engine@),
        is_word(n.strike.reference@),
    ensures
        words_of(note_line_text(n)).len() == 6,
        words_of(note_line_text(n))[0] == n.at@,
        words_of(note_line_text(n))[1] == n.name@,
        words_of(note_line_text(n))[2] == n.roughness.engine@ + "/"@ + n.roughness.reference@,
        words_of(note_line_text(n))[3] == n.wobble.engine@ + "/"@ + n.wobble.reference@,
        words_of(note_line_text(n))[4] == n.hf.engine@ + "/"@ + n.hf.reference@,
        words_of(note_line_text(n))[5] == n.strike.engine@ + "/"@ + n.strike.reference@,
{
    reveal_strlit("  ");
    reveal_strlit("/");
    reveal_strlit("\n");
    let p0 = "  "@;
    a_gap_adds_nothing(Seq::<char>::empty(), "  "@);
    assert(p0 =~= Seq::<char>::empty() + "  "@);
    a_right_word_begins(p0, n.at@, 6);
    let p1 = p0 + right_in(n.at@, 6);
    a_gap_adds_nothing(p1, "  "@);
    let p2 = p1 + "  "@;
    a_left_word_begins(p2, n.name@, 4);
    let p3 = p2 + left_in(n.name@, 4);
    a_gap_adds_nothing(p3, "  "@);
    let p4 = p3 + "  "@;
    a_right_word_begins(p4, n.roughness.engine@, 5);
    let p5 = p4 + right_in(n.roughness.engine@, 5);
    a_word_goes_on(p5, "/"@);
    let p6 = p5 + "/"@;
    a_left_word_goes_on(p6, n.roughness.reference@, 5);
    let p7 = p6 + left_in(n.roughness.reference@, 5);
    a_gap_adds_nothing(p7, "  "@);
    let p8 = p7 + "  "@;
    a_right_word_begins(p8, n.wobble.engine@, 3);
    let p9 = p8 + right_in(n.wobble.engine@, 3);
    a_word_goes_on(p9, "/"@);
    let p10 = p9 + "/"@;
    a_left_word_goes_on(p10, n.wobble.reference@, 3);
    let p11 = p10 + left_in(n.wobble.reference@, 3);
    a_gap_adds_nothing(p11, "  "@);
    let p12 = p11 + "  "@;
    a_right_word_begins(p12, n.hf.engine@, 6);
    let p13 = p12 + right_in(n.hf.engine@, 6);
    a_word_goes_on(p13, "/"@);
    let p14 = p13 + "/"@;
    a_left_word_goes_on(p14, n.hf.reference@, 6);
    let p15 = p14 + left_in(n.hf.reference@, 6);
    a_gap_adds_nothing(p15, "  "@);
    let p16 = p15 + "  "@;
    a_right_word_begins(p16, n.strike.engine@, 5);
    let p17 = p16 + right_in(n.strike.engine@, 5);
    a_word_goes_on(p17, "/"@);
    let p18 = p17 + "/"@;
    a_left_word_goes_on(p18, n.strike.reference@, 5);
    let p19 = p18 + left_in(n.strike.reference@, 5);
    a_gap_adds_nothing(p19, "\n"@);
    let p20 = p19 + "\n"@;
    assert(note_line_text(n) == p20);
}

/// Each number of `failing` stands in its place among the words.
#[verifier::rlimit(30)]
pub proof fn the_words_of_failing_stand_in_order(c: Column)
    requires
        is_word(c.metric@),
        is_word(c.window@),
        is_word(c.standout_at@),
    ensures
        words_of(failing_text(c)).len() == 4,
        words_of(failing_text(c))[0] == c.metric@,
        words_of(failing_text(c))[1] == "("@ + c.window@ + ")"@,
        words_of(failing_text(c))[3] == c.standout_at@,
{
    reveal_strlit(" (");
    reveal_strlit(" ");
    reveal_strlit("(");
    reveal_strlit(") at ");
    reveal_strlit(")");
    reveal_strlit("at");
    a_word_begins(Seq::<char>::empty(), c.metric@);
    let p0 = c.metric@;
    assert(Seq::<char>::empty() + c.metric@ =~= p0);
    a_gap_adds_nothing(p0, " "@);
    a_word_begins(p0 + " "@, "("@);
    let p1 = p0 + " ("@;
    assert(p1 =~= p0 + " "@ + "("@);
    a_word_goes_on(p1, c.window@);
    let p2 = p1 + c.window@;
    a_word_goes_on(p2, ")"@);
    a_gap_adds_nothing(p2 + ")"@, " "@);
    a_word_begins(p2 + ")"@ + " "@, "at"@);
    a_gap_adds_nothing(p2 + ")"@ + " "@ + "at"@, " "@);
    let p3 = p2 + ") at "@;
    assert(p3 =~= p2 + ")"@ + " "@ + "at"@ + " "@);
    a_word_begins(p3, c.standout_at@);
    let p4 = p3 + c.standout_at@;
    assert(failing_text(c) == p4);
}

} // verus!
