//! What a run on the levels says as it goes.

use crate::text::{decimal, print};
use crate::words::{a_gap_adds_nothing, a_number_is_a_word, a_word_begins, a_word_goes_on, is_word, words_of};
use vstd::prelude::*;

verus! {

/// What is said where the recordings are not on disk.
pub open spec fn missing_text(sfz: Seq<char>) -> Seq<char> {
    "the reference piano is not here: "@
        + sfz
}

/// What is said where the recordings are not on disk.
pub fn missing(sfz: &str) -> (text: String)
    ensures
        text@ == missing_text(sfz@),
{
    let mut out = String::from_str("the reference piano is not here: ");
    out.append(sfz);
    out
}

/// What is held against what.
pub open spec fn heading_text(preset: Seq<char>, sfz: Seq<char>, keys: usize, velocity: u8, head: Seq<char>) -> Seq<char> {
    "per-key level: engine on "@
        + preset
        + ", reference "@
        + sfz
        + "\n"@
        + decimal(keys as nat)
        + " keys at velocity "@
        + decimal(velocity as nat)
        + ", A-weighted over the first "@
        + head
        + " s of the mono sum\n"@
}

/// What is held against what.
pub fn heading(preset: &str, sfz: &str, keys: usize, velocity: u8, head: &str) -> (text: String)
    ensures
        text@ == heading_text(preset@, sfz@, keys, velocity, head@),
{
    let mut out = String::from_str("per-key level: engine on ");
    out.append(preset);
    out.append(", reference ");
    out.append(sfz);
    out.append("\n");
    out.append(print(keys as u64).as_str());
    out.append(" keys at velocity ");
    out.append(print(velocity as u64).as_str());
    out.append(", A-weighted over the first ");
    out.append(head);
    out.append(" s of the mono sum\n");
    out
}

/// The curve that the levels are brought to, as it is printed.
pub struct Curve {
    pub offset: String,
    pub intercept: String,
    pub slope: String,
    pub correlation: String,
    pub points: usize,
    pub take: String,
    pub residual: String,
    pub belief: String,
    /// What is written at the keys that are named.
    pub at: Vec<String>,
    pub cap: String,
}

pub const CURVE_LINES_0: &'static str = " dB (the engine's gain against the library's, nobody's error)\n  line exp(";

/// The curve that the levels are brought to.
pub open spec fn curve_lines_text(c: Curve) -> Seq<char> {
    "\nthe curve: common offset "@
        + c.offset@
        + CURVE_LINES_0@
        + c.intercept@
        + c.slope@
        + "·key) (r "@
        + c.correlation@
        + ", n "@
        + decimal(c.points as nat)
        + "), take-to-take sigma "@
        + c.take@
        + " dB, residual sigma "@
        + c.residual@
        + " dB, median belief "@
        + c.belief@
        + "\n  written: "@
        + c.at@[0]@
        + " at A0, "@
        + c.at@[1]@
        + " at D#3, "@
        + c.at@[2]@
        + " at C4, "@
        + c.at@[3]@
        + " at A4, "@
        + c.at@[4]@
        + " at C5, "@
        + c.at@[5]@
        + " at C8 — capped at ±"@
        + c.cap@
        + "\n"@
}

/// The curve that the levels are brought to.
pub fn curve_lines(c: &Curve) -> (text: String)
    requires
        c.at.len() == NAMED_LEVELS,
    ensures
        text@ == curve_lines_text(*c),
{
    let mut out = String::from_str("\nthe curve: common offset ");
    out.append(c.offset.as_str());
    out.append(CURVE_LINES_0);
    out.append(c.intercept.as_str());
    out.append(c.slope.as_str());
    out.append("·key) (r ");
    out.append(c.correlation.as_str());
    out.append(", n ");
    out.append(print(c.points as u64).as_str());
    out.append("), take-to-take sigma ");
    out.append(c.take.as_str());
    out.append(" dB, residual sigma ");
    out.append(c.residual.as_str());
    out.append(" dB, median belief ");
    out.append(c.belief.as_str());
    out.append("\n  written: ");
    out.append(c.at[0].as_str());
    out.append(" at A0, ");
    out.append(c.at[1].as_str());
    out.append(" at D#3, ");
    out.append(c.at[2].as_str());
    out.append(" at C4, ");
    out.append(c.at[3].as_str());
    out.append(" at A4, ");
    out.append(c.at[4].as_str());
    out.append(" at C5, ");
    out.append(c.at[5].as_str());
    out.append(" at C8 — capped at ±");
    out.append(c.cap.as_str());
    out.append("\n");
    out
}

/// How far a pass leaves a key from its target.
pub open spec fn pass_line_text(pass: usize, worst: Seq<char>) -> Seq<char> {
    "  pass "@
        + decimal(pass as nat)
        + ": worst recorded key still "@
        + worst
        + " dB from its target\n"@
}

/// How far a pass leaves a key from its target.
pub fn pass_line(pass: usize, worst: &str) -> (text: String)
    ensures
        text@ == pass_line_text(pass, worst@),
{
    let mut out = String::from_str("  pass ");
    out.append(print(pass as u64).as_str());
    out.append(": worst recorded key still ");
    out.append(worst);
    out.append(" dB from its target\n");
    out
}

/// What was written.
pub open spec fn wrote_text(path: Seq<char>) -> Seq<char> {
    "wrote "@
        + path
        + "\n"@
}

/// What was written.
pub fn wrote(path: &str) -> (text: String)
    ensures
        text@ == wrote_text(path@),
{
    let mut out = String::from_str("wrote ");
    out.append(path);
    out.append("\n");
    out
}

pub const DEPARTURE_LINE_0: &'static str = "\nworst recorded key's departure from the register's median level: ";

/// How far the levels stand from their middle.
pub open spec fn departure_line_text(before: Seq<char>, after: Seq<char>) -> Seq<char> {
    DEPARTURE_LINE_0@
        + before
        + " dB before, "@
        + after
        + " dB after\n"@
}

/// How far the levels stand from their middle.
pub fn departure_line(before: &str, after: &str) -> (text: String)
    ensures
        text@ == departure_line_text(before@, after@),
{
    let mut out = String::from_str(DEPARTURE_LINE_0);
    out.append(before);
    out.append(" dB before, ");
    out.append(after);
    out.append(" dB after\n");
    out
}

/// How many keys are named with what is written at them.
pub const NAMED_LEVELS: usize = 6;

/// Each number of `heading` stands in its place among the words.
#[verifier::rlimit(30)]
pub proof fn the_words_of_heading_stand_in_order(preset: Seq<char>, sfz: Seq<char>, keys: usize, velocity: u8, head: Seq<char>)
    requires
        is_word(preset),
        is_word(sfz),
        is_word(head),
    ensures
        words_of(heading_text(preset, sfz, keys, velocity, head)).len() == 22,
        words_of(heading_text(preset, sfz, keys, velocity, head))[4] == preset + ","@,
        words_of(heading_text(preset, sfz, keys, velocity, head))[6] == sfz,
        words_of(heading_text(preset, sfz, keys, velocity, head))[7] == decimal(keys as nat),
        words_of(heading_text(preset, sfz, keys, velocity, head))[11] == decimal(velocity as nat) + ","@,
        words_of(heading_text(preset, sfz, keys, velocity, head))[16] == head,
{
    reveal_strlit("per-key level: engine on ");
    reveal_strlit("per-key");
    reveal_strlit(" ");
    reveal_strlit("level:");
    reveal_strlit("engine");
    reveal_strlit("on");
    reveal_strlit(", reference ");
    reveal_strlit(",");
    reveal_strlit("reference");
    reveal_strlit("\n");
    reveal_strlit(" keys at velocity ");
    reveal_strlit("keys");
    reveal_strlit("at");
    reveal_strlit("velocity");
    reveal_strlit(", A-weighted over the first ");
    reveal_strlit("A-weighted");
    reveal_strlit("over");
    reveal_strlit("the");
    reveal_strlit("first");
    reveal_strlit(" s of the mono sum\n");
    reveal_strlit("s");
    reveal_strlit("of");
    reveal_strlit("mono");
    reveal_strlit("sum");
    a_number_is_a_word(keys as nat);
    a_number_is_a_word(velocity as nat);
    let p0 = "per-key level: engine on "@;
    a_word_begins(Seq::<char>::empty(), "per-key"@);
    a_gap_adds_nothing(Seq::<char>::empty() + "per-key"@, " "@);
    a_word_begins(Seq::<char>::empty() + "per-key"@ + " "@, "level:"@);
    a_gap_adds_nothing(Seq::<char>::empty() + "per-key"@ + " "@ + "level:"@, " "@);
    a_word_begins(Seq::<char>::empty() + "per-key"@ + " "@ + "level:"@ + " "@, "engine"@);
    a_gap_adds_nothing(Seq::<char>::empty() + "per-key"@ + " "@ + "level:"@ + " "@ + "engine"@, " "@);
    a_word_begins(Seq::<char>::empty() + "per-key"@ + " "@ + "level:"@ + " "@ + "engine"@ + " "@, "on"@);
    a_gap_adds_nothing(Seq::<char>::empty() + "per-key"@ + " "@ + "level:"@ + " "@ + "engine"@ + " "@ + "on"@, " "@);
    assert(p0 =~= Seq::<char>::empty() + "per-key"@ + " "@ + "level:"@ + " "@ + "engine"@ + " "@ + "on"@ + " "@);
    a_word_begins(p0, preset);
    let p1 = p0 + preset;
    a_word_goes_on(p1, ","@);
    a_gap_adds_nothing(p1 + ","@, " "@);
    a_word_begins(p1 + ","@ + " "@, "reference"@);
    a_gap_adds_nothing(p1 + ","@ + " "@ + "reference"@, " "@);
    let p2 = p1 + ", reference "@;
    assert(p2 =~= p1 + ","@ + " "@ + "reference"@ + " "@);
    a_word_begins(p2, sfz);
    let p3 = p2 + sfz;
    a_gap_adds_nothing(p3, "\n"@);
    let p4 = p3 + "\n"@;
    a_word_begins(p4, decimal(keys as nat));
    let p5 = p4 + decimal(keys as nat);
    a_gap_adds_nothing(p5, " "@);
    a_word_begins(p5 + " "@, "keys"@);
    a_gap_adds_nothing(p5 + " "@ + "keys"@, " "@);
    a_word_begins(p5 + " "@ + "keys"@ + " "@, "at"@);
    a_gap_adds_nothing(p5 + " "@ + "keys"@ + " "@ + "at"@, " "@);
    a_word_begins(p5 + " "@ + "keys"@ + " "@ + "at"@ + " "@, "velocity"@);
    a_gap_adds_nothing(p5 + " "@ + "keys"@ + " "@ + "at"@ + " "@ + "velocity"@, " "@);
    let p6 = p5 + " keys at velocity "@;
    assert(p6 =~= p5 + " "@ + "keys"@ + " "@ + "at"@ + " "@ + "velocity"@ + " "@);
    a_word_begins(p6, decimal(velocity as nat));
    let p7 = p6 + decimal(velocity as nat);
    a_word_goes_on(p7, ","@);
    a_gap_adds_nothing(p7 + ","@, " "@);
    a_word_begins(p7 + ","@ + " "@, "A-weighted"@);
    a_gap_adds_nothing(p7 + ","@ + " "@ + "A-weighted"@, " "@);
    a_word_begins(p7 + ","@ + " "@ + "A-weighted"@ + " "@, "over"@);
    a_gap_adds_nothing(p7 + ","@ + " "@ + "A-weighted"@ + " "@ + "over"@, " "@);
    a_word_begins(p7 + ","@ + " "@ + "A-weighted"@ + " "@ + "over"@ + " "@, "the"@);
    a_gap_adds_nothing(p7 + ","@ + " "@ + "A-weighted"@ + " "@ + "over"@ + " "@ + "the"@, " "@);
    a_word_begins(p7 + ","@ + " "@ + "A-weighted"@ + " "@ + "over"@ + " "@ + "the"@ + " "@, "first"@);
    a_gap_adds_nothing(p7 + ","@ + " "@ + "A-weighted"@ + " "@ + "over"@ + " "@ + "the"@ + " "@ + "first"@, " "@);
    let p8 = p7 + ", A-weighted over the first "@;
    assert(p8 =~= p7 + ","@ + " "@ + "A-weighted"@ + " "@ + "over"@ + " "@ + "the"@ + " "@ + "first"@ + " "@);
    a_word_begins(p8, head);
    let p9 = p8 + head;
    a_gap_adds_nothing(p9, " "@);
    a_word_begins(p9 + " "@, "s"@);
    a_gap_adds_nothing(p9 + " "@ + "s"@, " "@);
    a_word_begins(p9 + " "@ + "s"@ + " "@, "of"@);
    a_gap_adds_nothing(p9 + " "@ + "s"@ + " "@ + "of"@, " "@);
    a_word_begins(p9 + " "@ + "s"@ + " "@ + "of"@ + " "@, "the"@);
    a_gap_adds_nothing(p9 + " "@ + "s"@ + " "@ + "of"@ + " "@ + "the"@, " "@);
    a_word_begins(p9 + " "@ + "s"@ + " "@ + "of"@ + " "@ + "the"@ + " "@, "mono"@);
    a_gap_adds_nothing(p9 + " "@ + "s"@ + " "@ + "of"@ + " "@ + "the"@ + " "@ + "mono"@, " "@);
    a_word_begins(p9 + " "@ + "s"@ + " "@ + "of"@ + " "@ + "the"@ + " "@ + "mono"@ + " "@, "sum"@);
    a_gap_adds_nothing(p9 + " "@ + "s"@ + " "@ + "of"@ + " "@ + "the"@ + " "@ + "mono"@ + " "@ + "sum"@, "\n"@);
    let p10 = p9 + " s of the mono sum\n"@;
    assert(p10 =~= p9 + " "@ + "s"@ + " "@ + "of"@ + " "@ + "the"@ + " "@ + "mono"@ + " "@ + "sum"@ + "\n"@);
    assert(heading_text(preset, sfz, keys, velocity, head) == p10);
}

/// Each number of `pass_line` stands in its place among the words.
#[verifier::rlimit(30)]
pub proof fn the_words_of_pass_line_stand_in_order(pass: usize, worst: Seq<char>)
    requires
        is_word(worst),
    ensures
        words_of(pass_line_text(pass, worst)).len() == 11,
        words_of(pass_line_text(pass, worst))[1] == decimal(pass as nat) + ":"@,
        words_of(pass_line_text(pass, worst))[6] == worst,
{
    reveal_strlit("  pass ");
    reveal_strlit("  ");
    reveal_strlit("pass");
    reveal_strlit(" ");
    reveal_strlit(": worst recorded key still ");
    reveal_strlit(":");
    reveal_strlit("worst");
    reveal_strlit("recorded");
    reveal_strlit("key");
    reveal_strlit("still");
    reveal_strlit(" dB from its target\n");
    reveal_strlit("dB");
    reveal_strlit("from");
    reveal_strlit("its");
    reveal_strlit("target");
    reveal_strlit("\n");
    a_number_is_a_word(pass as nat);
    let p0 = "  pass "@;
    a_gap_adds_nothing(Seq::<char>::empty(), "  "@);
    a_word_begins(Seq::<char>::empty() + "  "@, "pass"@);
    a_gap_adds_nothing(Seq::<char>::empty() + "  "@ + "pass"@, " "@);
    assert(p0 =~= Seq::<char>::empty() + "  "@ + "pass"@ + " "@);
    a_word_begins(p0, decimal(pass as nat));
    let p1 = p0 + decimal(pass as nat);
    a_word_goes_on(p1, ":"@);
    a_gap_adds_nothing(p1 + ":"@, " "@);
    a_word_begins(p1 + ":"@ + " "@, "worst"@);
    a_gap_adds_nothing(p1 + ":"@ + " "@ + "worst"@, " "@);
    a_word_begins(p1 + ":"@ + " "@ + "worst"@ + " "@, "recorded"@);
    a_gap_adds_nothing(p1 + ":"@ + " "@ + "worst"@ + " "@ + "recorded"@, " "@);
    a_word_begins(p1 + ":"@ + " "@ + "worst"@ + " "@ + "recorded"@ + " "@, "key"@);
    a_gap_adds_nothing(p1 + ":"@ + " "@ + "worst"@ + " "@ + "recorded"@ + " "@ + "key"@, " "@);
    a_word_begins(p1 + ":"@ + " "@ + "worst"@ + " "@ + "recorded"@ + " "@ + "key"@ + " "@, "still"@);
    a_gap_adds_nothing(p1 + ":"@ + " "@ + "worst"@ + " "@ + "recorded"@ + " "@ + "key"@ + " "@ + "still"@, " "@);
    let p2 = p1 + ": worst recorded key still "@;
    assert(p2 =~= p1 + ":"@ + " "@ + "worst"@ + " "@ + "recorded"@ + " "@ + "key"@ + " "@ + "still"@ + " "@);
    a_word_begins(p2, worst);
    let p3 = p2 + worst;
    a_gap_adds_nothing(p3, " "@);
    a_word_begins(p3 + " "@, "dB"@);
    a_gap_adds_nothing(p3 + " "@ + "dB"@, " "@);
    a_word_begins(p3 + " "@ + "dB"@ + " "@, "from"@);
    a_gap_adds_nothing(p3 + " "@ + "dB"@ + " "@ + "from"@, " "@);
    a_word_begins(p3 + " "@ + "dB"@ + " "@ + "from"@ + " "@, "its"@);
    a_gap_adds_nothing(p3 + " "@ + "dB"@ + " "@ + "from"@ + " "@ + "its"@, " "@);
    a_word_begins(p3 + " "@ + "dB"@ + " "@ + "from"@ + " "@ + "its"@ + " "@, "target"@);
    a_gap_adds_nothing(p3 + " "@ + "dB"@ + " "@ + "from"@ + " "@ + "its"@ + " "@ + "target"@, "\n"@);
    let p4 = p3 + " dB from its target\n"@;
    assert(p4 =~= p3 + " "@ + "dB"@ + " "@ + "from"@ + " "@ + "its"@ + " "@ + "target"@ + "\n"@);
    assert(pass_line_text(pass, worst) == p4);
}

/// Each number of `departure_line` stands in its place among the words.
#[verifier::rlimit(30)]
pub proof fn the_words_of_departure_line_stand_in_order(before: Seq<char>, after: Seq<char>)
    requires
        is_word(before),
        is_word(after),
    ensures
        words_of(departure_line_text(before, after)).len() == 15,
        words_of(departure_line_text(before, after))[9] == before,
        words_of(departure_line_text(before, after))[12] == after,
{
    reveal_strlit("\nworst recorded key's departure from the register's median level: ");
    reveal_strlit("\n");
    reveal_strlit("worst");
    reveal_strlit(" ");
    reveal_strlit("recorded");
    reveal_strlit("key's");
    reveal_strlit("departure");
    reveal_strlit("from");
    reveal_strlit("the");
    reveal_strlit("register's");
    reveal_strlit("median");
    reveal_strlit("level:");
    reveal_strlit(" dB before, ");
    reveal_strlit("dB");
    reveal_strlit("before,");
    reveal_strlit(" dB after\n");
    reveal_strlit("after");
    let p0 = DEPARTURE_LINE_0@;
    a_gap_adds_nothing(Seq::<char>::empty(), "\n"@);
    a_word_begins(Seq::<char>::empty() + "\n"@, "worst"@);
    a_gap_adds_nothing(Seq::<char>::empty() + "\n"@ + "worst"@, " "@);
    a_word_begins(Seq::<char>::empty() + "\n"@ + "worst"@ + " "@, "recorded"@);
    a_gap_adds_nothing(Seq::<char>::empty() + "\n"@ + "worst"@ + " "@ + "recorded"@, " "@);
    a_word_begins(Seq::<char>::empty() + "\n"@ + "worst"@ + " "@ + "recorded"@ + " "@, "key's"@);
    a_gap_adds_nothing(Seq::<char>::empty() + "\n"@ + "worst"@ + " "@ + "recorded"@ + " "@ + "key's"@, " "@);
    a_word_begins(Seq::<char>::empty() + "\n"@ + "worst"@ + " "@ + "recorded"@ + " "@ + "key's"@ + " "@, "departure"@);
    a_gap_adds_nothing(Seq::<char>::empty() + "\n"@ + "worst"@ + " "@ + "recorded"@ + " "@ + "key's"@ + " "@ + "departure"@, " "@);
    a_word_begins(Seq::<char>::empty() + "\n"@ + "worst"@ + " "@ + "recorded"@ + " "@ + "key's"@ + " "@ + "departure"@ + " "@, "from"@);
    a_gap_adds_nothing(Seq::<char>::empty() + "\n"@ + "worst"@ + " "@ + "recorded"@ + " "@ + "key's"@ + " "@ + "departure"@ + " "@ + "from"@, " "@);
    a_word_begins(Seq::<char>::empty() + "\n"@ + "worst"@ + " "@ + "recorded"@ + " "@ + "key's"@ + " "@ + "departure"@ + " "@ + "from"@ + " "@, "the"@);
    a_gap_adds_nothing(Seq::<char>::empty() + "\n"@ + "worst"@ + " "@ + "recorded"@ + " "@ + "key's"@ + " "@ + "departure"@ + " "@ + "from"@ + " "@ + "the"@, " "@);
    a_word_begins(Seq::<char>::empty() + "\n"@ + "worst"@ + " "@ + "recorded"@ + " "@ + "key's"@ + " "@ + "departure"@ + " "@ + "from"@ + " "@ + "the"@ + " "@, "register's"@);
    a_gap_adds_nothing(Seq::<char>::empty() + "\n"@ + "worst"@ + " "@ + "recorded"@ + " "@ + "key's"@ + " "@ + "departure"@ + " "@ + "from"@ + " "@ + "the"@ + " "@ + "register's"@, " "@);
    a_word_begins(Seq::<char>::empty() + "\n"@ + "worst"@ + " "@ + "recorded"@ + " "@ + "key's"@ + " "@ + "departure"@ + " "@ + "from"@ + " "@ + "the"@ + " "@ + "register's"@ + " "@, "median"@);
    a_gap_adds_nothing(Seq::<char>::empty() + "\n"@ + "worst"@ + " "@ + "recorded"@ + " "@ + "key's"@ + " "@ + "departure"@ + " "@ + "from"@ + " "@ + "the"@ + " "@ + "register's"@ + " "@ + "median"@, " "@);
    a_word_begins(Seq::<char>::empty() + "\n"@ + "worst"@ + " "@ + "recorded"@ + " "@ + "key's"@ + " "@ + "departure"@ + " "@ + "from"@ + " "@ + "the"@ + " "@ + "register's"@ + " "@ + "median"@ + " "@, "level:"@);
    a_gap_adds_nothing(Seq::<char>::empty() + "\n"@ + "worst"@ + " "@ + "recorded"@ + " "@ + "key's"@ + " "@ + "departure"@ + " "@ + "from"@ + " "@ + "the"@ + " "@ + "register's"@ + " "@ + "median"@ + " "@ + "level:"@, " "@);
    assert(p0 =~= Seq::<char>::empty() + "\n"@ + "worst"@ + " "@ + "recorded"@ + " "@ + "key's"@ + " "@ + "departure"@ + " "@ + "from"@ + " "@ + "the"@ + " "@ + "register's"@ + " "@ + "median"@ + " "@ + "level:"@ + " "@);
    a_word_begins(p0, before);
    let p1 = p0 + before;
    a_gap_adds_nothing(p1, " "@);
    a_word_begins(p1 + " "@, "dB"@);
    a_gap_adds_nothing(p1 + " "@ + "dB"@, " "@);
    a_word_begins(p1 + " "@ + "dB"@ + " "@, "before,"@);
    a_gap_adds_nothing(p1 + " "@ + "dB"@ + " "@ + "before,"@, " "@);
    let p2 = p1 + " dB before, "@;
    assert(p2 =~= p1 + " "@ + "dB"@ + " "@ + "before,"@ + " "@);
    a_word_begins(p2, after);
    let p3 = p2 + after;
    a_gap_adds_nothing(p3, " "@);
    a_word_begins(p3 + " "@, "dB"@);
    a_gap_adds_nothing(p3 + " "@ + "dB"@, " "@);
    a_word_begins(p3 + " "@ + "dB"@ + " "@, "after"@);
    a_gap_adds_nothing(p3 + " "@ + "dB"@ + " "@ + "after"@, "\n"@);
    let p4 = p3 + " dB after\n"@;
    assert(p4 =~= p3 + " "@ + "dB"@ + " "@ + "after"@ + "\n"@);
    assert(departure_line_text(before, after) == p4);
}

} // verus!
