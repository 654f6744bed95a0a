//! The benchmark: its command line, what is measured, and what is printed as it
//! runs.

pub mod page;
pub mod scoreboard;

use crate::args::{nth_or, or_default};
use crate::text::{decimal, left_in, print, push_left, push_right, right_in, views};
use crate::words::{a_gap_adds_nothing, a_left_word_begins, a_number_is_a_word, a_right_word_begins, a_word_begins, a_word_goes_on, is_word, words_of};
use vstd::prelude::*;

verus! {

/// Where the library, the output and the preset are.
pub struct Paths {
    pub data: String,
    pub out: String,
    pub preset: String,
}

/// Where the library, the output and the preset are: the first three arguments.
pub fn paths(args: &Vec<String>) -> (r: Paths)
    ensures
        r.data@ == or_default(views(args@), 0, "data/salamander"@),
        r.out@ == or_default(views(args@), 1, "renders/realism"@),
        r.preset@ == or_default(views(args@), 2, "presets/salamander-c5.toml"@),
{
    Paths {
        data: nth_or(args, 0, "data/salamander"),
        out: nth_or(args, 1, "renders/realism"),
        preset: nth_or(args, 2, "presets/salamander-c5.toml"),
    }
}

/// One phrase, as it is printed when it is done.
pub struct Progress {
    pub name: String,
    pub mel: String,
    pub mel_floor: String,
    pub mel_transposition: String,
    pub modulation: String,
    pub modulation_floor: String,
    pub transposed: usize,
    pub struck: usize,
    pub seconds: String,
}

/// What is printed when a phrase is done.
pub open spec fn progress_text(p: Progress) -> Seq<char> {
    Seq::<char>::empty() + left_in(p.name@, 18) + "  mel "@ + right_in(p.mel@, 5)
        + " dB (floor "@ + right_in(p.mel_floor@, 4) + ", transposition "@ + right_in(
        p.mel_transposition@,
        4,
    ) + ")   mod "@ + right_in(p.modulation@, 5) + " dB (floor "@ + right_in(
        p.modulation_floor@,
        4,
    ) + ")   "@ + decimal(p.transposed as nat) + "/"@ + decimal(p.struck as nat)
        + " notes transposed   "@ + p.seconds@ + " s\n"@
}

/// What is printed when a phrase is done.
pub fn progress(p: &Progress) -> (text: String)
    ensures
        text@ == progress_text(*p),
{
    let mut out = String::new();
    push_left(&mut out, p.name.as_str(), 18);
    out.append("  mel ");
    push_right(&mut out, p.mel.as_str(), 5);
    out.append(" dB (floor ");
    push_right(&mut out, p.mel_floor.as_str(), 4);
    out.append(", transposition ");
    push_right(&mut out, p.mel_transposition.as_str(), 4);
    out.append(")   mod ");
    push_right(&mut out, p.modulation.as_str(), 5);
    out.append(" dB (floor ");
    push_right(&mut out, p.modulation_floor.as_str(), 4);
    out.append(")   ");
    out.append(print(p.transposed as u64).as_str());
    out.append("/");
    out.append(print(p.struck as u64).as_str());
    out.append(" notes transposed   ");
    out.append(p.seconds.as_str());
    out.append(" s\n");
    out
}

/// One stereo column, as it is printed.
pub struct StereoColumn {
    pub name: String,
    pub engine: String,
    pub reference: String,
    pub error: String,
    pub bar: String,
    pub pass: bool,
    pub items: usize,
}

/// The head of the stereo columns.
pub const STEREO_HEAD: &'static str = "\nSTEREO columns (not a mono sum) — interchannel r at lag 0, per band:\n      band     engine    reference    |err|      bar             n\n";

/// A row of the stereo columns.
pub open spec fn stereo_row_text(c: StereoColumn) -> Seq<char> {
    "  "@ + right_in(c.name@, 8) + "  "@ + right_in(c.engine@, 9) + "  "@ + right_in(
        c.reference@,
        11,
    ) + "  "@ + right_in(c.error@, 7) + "  "@ + right_in(c.bar@, 7) + "  "@ + right_in(
        if c.pass {
            "pass"@
        } else {
            "RED"@
        },
        6,
    ) + "  "@ + right_in(decimal(c.items as nat), 4) + "\n"@
}

/// A row of the stereo columns.
pub fn stereo_row(c: &StereoColumn) -> (text: String)
    ensures
        text@ == stereo_row_text(*c),
{
    let mut out = String::from_str("  ");
    push_right(&mut out, c.name.as_str(), 8);
    out.append("  ");
    push_right(&mut out, c.engine.as_str(), 9);
    out.append("  ");
    push_right(&mut out, c.reference.as_str(), 11);
    out.append("  ");
    push_right(&mut out, c.error.as_str(), 7);
    out.append("  ");
    push_right(&mut out, c.bar.as_str(), 7);
    out.append("  ");
    let verdict = if c.pass {
        "pass"
    } else {
        "RED"
    };
    push_right(&mut out, verdict, 6);
    out.append("  ");
    push_right(&mut out, print(c.items as u64).as_str(), 4);
    out.append("\n");
    out
}

/// Each number of `progress` stands in its place among the words.
#[verifier::rlimit(30)]
pub proof fn the_words_of_progress_stand_in_order(p: Progress)
    requires
        is_word(p.name@),
        is_word(p.mel@),
        is_word(p.mel_floor@),
        is_word(p.mel_transposition@),
        is_word(p.modulation@),
        is_word(p.modulation_floor@),
        is_word(p.seconds@),
    ensures
        words_of(progress_text(p)).len() == 18,
        words_of(progress_text(p))[0] == p.name@,
        words_of(progress_text(p))[2] == p.mel@,
        words_of(progress_text(p))[5] == p.mel_floor@ + ","@,
        words_of(progress_text(p))[7] == p.mel_transposition@ + ")"@,
        words_of(progress_text(p))[9] == p.modulation@,
        words_of(progress_text(p))[12] == p.modulation_floor@ + ")"@,
        words_of(progress_text(p))[13] == decimal(p.transposed as nat) + "/"@ + decimal(p.struck as nat),
        words_of(progress_text(p))[16] == p.seconds@,
{
    reveal_strlit("  mel ");
    reveal_strlit("  ");
    reveal_strlit("mel");
    reveal_strlit(" ");
    reveal_strlit(" dB (floor ");
    reveal_strlit("dB");
    reveal_strlit("(floor");
    reveal_strlit(", transposition ");
    reveal_strlit(",");
    reveal_strlit("transposition");
    reveal_strlit(")   mod ");
    reveal_strlit(")");
    reveal_strlit("   ");
    reveal_strlit("mod");
    reveal_strlit(")   ");
    reveal_strlit("/");
    reveal_strlit(" notes transposed   ");
    reveal_strlit("notes");
    reveal_strlit("transposed");
    reveal_strlit(" s\n");
    reveal_strlit("s");
    reveal_strlit("\n");
    a_number_is_a_word(p.transposed as nat);
    a_number_is_a_word(p.struck as nat);
    let p0 = Seq::<char>::empty();
    a_left_word_begins(p0, p.name@, 18);
    let p1 = p0 + left_in(p.name@, 18);
    a_gap_adds_nothing(p1, "  "@);
    a_word_begins(p1 + "  "@, "mel"@);
    a_gap_adds_nothing(p1 + "  "@ + "mel"@, " "@);
    let p2 = p1 + "  mel "@;
    assert(p2 =~= p1 + "  "@ + "mel"@ + " "@);
    a_right_word_begins(p2, p.mel@, 5);
    let p3 = p2 + right_in(p.mel@, 5);
    a_gap_adds_nothing(p3, " "@);
    a_word_begins(p3 + " "@, "dB"@);
    a_gap_adds_nothing(p3 + " "@ + "dB"@, " "@);
    a_word_begins(p3 + " "@ + "dB"@ + " "@, "(floor"@);
    a_gap_adds_nothing(p3 + " "@ + "dB"@ + " "@ + "(floor"@, " "@);
    let p4 = p3 + " dB (floor "@;
    assert(p4 =~= p3 + " "@ + "dB"@ + " "@ + "(floor"@ + " "@);
    a_right_word_begins(p4, p.mel_floor@, 4);
    let p5 = p4 + right_in(p.mel_floor@, 4);
    a_word_goes_on(p5, ","@);
    a_gap_adds_nothing(p5 + ","@, " "@);
    a_word_begins(p5 + ","@ + " "@, "transposition"@);
    a_gap_adds_nothing(p5 + ","@ + " "@ + "transposition"@, " "@);
    let p6 = p5 + ", transposition "@;
    assert(p6 =~= p5 + ","@ + " "@ + "transposition"@ + " "@);
    a_right_word_begins(p6, p.mel_transposition@, 4);
    let p7 = p6 + right_in(p.mel_transposition@, 4);
    a_word_goes_on(p7, ")"@);
    a_gap_adds_nothing(p7 + ")"@, "   "@);
    a_word_begins(p7 + ")"@ + "   "@, "mod"@);
    a_gap_adds_nothing(p7 + ")"@ + "   "@ + "mod"@, " "@);
    let p8 = p7 + ")   mod "@;
    assert(p8 =~= p7 + ")"@ + "   "@ + "mod"@ + " "@);
    a_right_word_begins(p8, p.modulation@, 5);
    let p9 = p8 + right_in(p.modulation@, 5);
    a_gap_adds_nothing(p9, " "@);
    a_word_begins(p9 + " "@, "dB"@);
    a_gap_adds_nothing(p9 + " "@ + "dB"@, " "@);
    a_word_begins(p9 + " "@ + "dB"@ + " "@, "(floor"@);
    a_gap_adds_nothing(p9 + " "@ + "dB"@ + " "@ + "(floor"@, " "@);
    let p10 = p9 + " dB (floor "@;
    assert(p10 =~= p9 + " "@ + "dB"@ + " "@ + "(floor"@ + " "@);
    a_right_word_begins(p10, p.modulation_floor@, 4);
    let p11 = p10 + right_in(p.modulation_floor@, 4);
    a_word_goes_on(p11, ")"@);
    a_gap_adds_nothing(p11 + ")"@, "   "@);
    let p12 = p11 + ")   "@;
    assert(p12 =~= p11 + ")"@ + "   "@);
    a_word_begins(p12, decimal(p.transposed as nat));
    let p13 = p12 + decimal(p.transposed as nat);
    a_word_goes_on(p13, "/"@);
    let p14 = p13 + "/"@;
    a_word_goes_on(p14, decimal(p.struck as nat));
    let p15 = p14 + decimal(p.struck as nat);
    a_gap_adds_nothing(p15, " "@);
    a_word_begins(p15 + " "@, "notes"@);
    a_gap_adds_nothing(p15 + " "@ + "notes"@, " "@);
    a_word_begins(p15 + " "@ + "notes"@ + " "@, "transposed"@);
    a_gap_adds_nothing(p15 + " "@ + "notes"@ + " "@ + "transposed"@, "   "@);
    let p16 = p15 + " notes transposed   "@;
    assert(p16 =~= p15 + " "@ + "notes"@ + " "@ + "transposed"@ + "   "@);
    a_word_begins(p16, p.seconds@);
    let p17 = p16 + p.seconds@;
    a_gap_adds_nothing(p17, " "@);
    a_word_begins(p17 + " "@, "s"@);
    a_gap_adds_nothing(p17 + " "@ + "s"@, "\n"@);
    let p18 = p17 + " s\n"@;
    assert(p18 =~= p17 + " "@ + "s"@ + "\n"@);
    assert(progress_text(p) == p18);
}

/// Each number of `stereo_row` stands in its place among the words.
#[verifier::rlimit(30)]
pub proof fn the_words_of_stereo_row_stand_in_order(c: StereoColumn)
    requires
        is_word(c.name@),
        is_word(c.engine@),
        is_word(c.reference@),
        is_word(c.error@),
        is_word(c.bar@),
        is_word(if c.pass { "pass"@ } else { "RED"@ }),
    ensures
        words_of(stereo_row_text(c)).len() == 7,
        words_of(stereo_row_text(c))[0] == c.name@,
        words_of(stereo_row_text(c))[1] == c.engine@,
        words_of(stereo_row_text(c))[2] == c.reference@,
        words_of(stereo_row_text(c))[3] == c.error@,
        words_of(stereo_row_text(c))[4] == c.bar@,
        words_of(stereo_row_text(c))[5] == if c.pass { "pass"@ } else { "RED"@ },
        words_of(stereo_row_text(c))[6] == decimal(c.items as nat),
{
    reveal_strlit("  ");
    reveal_strlit("\n");
    a_number_is_a_word(c.items as nat);
    let p0 = "  "@;
    a_gap_adds_nothing(Seq::<char>::empty(), "  "@);
    assert(p0 =~= Seq::<char>::empty() + "  "@);
    a_right_word_begins(p0, c.name@, 8);
    let p1 = p0 + right_in(c.name@, 8);
    a_gap_adds_nothing(p1, "  "@);
    let p2 = p1 + "  "@;
    a_right_word_begins(p2, c.engine@, 9);
    let p3 = p2 + right_in(c.engine@, 9);
    a_gap_adds_nothing(p3, "  "@);
    let p4 = p3 + "  "@;
    a_right_word_begins(p4, c.reference@, 11);
    let p5 = p4 + right_in(c.reference@, 11);
    a_gap_adds_nothing(p5, "  "@);
    let p6 = p5 + "  "@;
    a_right_word_begins(p6, c.error@, 7);
    let p7 = p6 + right_in(c.error@, 7);
    a_gap_adds_nothing(p7, "  "@);
    let p8 = p7 + "  "@;
    a_right_word_begins(p8, c.bar@, 7);
    let p9 = p8 + right_in(c.bar@, 7);
    a_gap_adds_nothing(p9, "  "@);
    let p10 = p9 + "  "@;
    a_right_word_begins(p10, if c.pass { "pass"@ } else { "RED"@ }, 6);
    let p11 = p10 + right_in(if c.pass { "pass"@ } else { "RED"@ }, 6);
    a_gap_adds_nothing(p11, "  "@);
    let p12 = p11 + "  "@;
    a_right_word_begins(p12, decimal(c.items as nat), 4);
    let p13 = p12 + right_in(decimal(c.items as nat), 4);
    a_gap_adds_nothing(p13, "\n"@);
    let p14 = p13 + "\n"@;
    assert(stereo_row_text(c) == p14);
}

} // verus!
