//! A key's own loudness against its recording: the command line, and which keys
//! a pass corrects.

pub mod report;

use crate::args::{flag_value, maybe, nth_or, or_default, value_after};
use crate::keys::{name_of, note_name};
use crate::order::{ranks, ranks_of, stable_of, stable_order};
use crate::reading::Reading;
use crate::text::{decimal, parse_whole, print, push_right, right_in, views, whole};
use crate::words::{a_gap_adds_nothing, a_number_is_a_word, a_right_word_begins, a_word_begins, is_word, words_of};
use vstd::prelude::*;

verus! {

/// The least step that is taken, 0.01 dB.
pub const LEAST_STEP: u64 = 0x3f84_7ae1_47ae_147b;

/// What the command line asks for.
pub struct LevelOptions {
    pub data: String,
    pub preset: String,
    pub out: Option<String>,
    pub passes: usize,
}

/// The arguments behind the two paths.
pub open spec fn rest_of(args: Seq<Seq<char>>) -> Seq<Seq<char>> {
    if args.len() < 2 {
        Seq::empty()
    } else {
        args.skip(2)
    }
}

/// The arguments behind the two paths.
pub fn rest(args: &Vec<String>) -> (r: Vec<String>)
    ensures
        views(r@) == rest_of(views(args@)),
{
    let mut out: Vec<String> = Vec::new();
    let mut i: usize = 2;
    proof {
        assert(views(out@) =~= Seq::<Seq<char>>::empty());
        if args.len() >= 2 {
            assert(views(out@) =~= views(args@).subrange(2, 2));
        }
    }
    while i < args.len()
        invariant
            2 <= i,
            args.len() >= 2 ==> i <= args.len() && views(out@) == views(args@).subrange(
                2,
                i as int,
            ),
            args.len() < 2 ==> out.len() == 0,
        decreases args.len() - i,
    {
        let ghost before = views(out@);
        out.push(args[i].clone());
        i = i + 1;
        proof {
            assert(views(out@) =~= before.push(args@[i - 1]@));
            assert(views(out@) =~= views(args@).subrange(2, i as int));
        }
    }
    proof {
        assert(views(out@) =~= rest_of(views(args@)));
    }
    out
}

/// How many passes a text asks for: none, where it is no number.
pub open spec fn passes_of(text: Option<Seq<char>>) -> nat {
    match text {
        None => 0,
        Some(t) => match whole(t, usize::MAX as nat) {
            Ok(n) => n,
            Err(_) => 0,
        },
    }
}

/// What the command line asks for: two paths, then flags.
pub fn options(args: &Vec<String>) -> (r: LevelOptions)
    ensures
        r.data@ == or_default(views(args@), 0, "data/salamander"@),
        r.preset@ == or_default(views(args@), 1, "presets/salamander-c5.toml"@),
        maybe(r.out) == value_after(rest_of(views(args@)), "--out"@),
        r.passes == passes_of(value_after(rest_of(views(args@)), "--passes"@)),
{
    let flags = rest(args);
    let passes: usize = match flag_value(&flags, "--passes") {
        None => 0,
        Some(text) => match parse_whole(text.as_str(), usize::MAX as u64) {
            Ok(n) => n as usize,
            Err(_) => 0,
        },
    };
    LevelOptions {
        data: nth_or(args, 0, "data/salamander"),
        preset: nth_or(args, 1, "presets/salamander-c5.toml"),
        out: flag_value(&flags, "--out"),
        passes,
    }
}

/// What a pass does with one key.
#[derive(Clone, Copy, Debug, PartialEq, Eq, Structural)]
pub enum Step {
    /// The step is no number, or too small.
    Leave,
    /// The step counts, but the key has no row to carry it.
    Count,
    /// The step is taken in the key's row.
    Take,
}

/// What a pass does with one key.
pub open spec fn step_of(step: Reading, cells: usize) -> Step {
    if !step.finite() || step.unsigned().below(Reading { bits: LEAST_STEP }) {
        Step::Leave
    } else if cells == 0 {
        Step::Count
    } else {
        Step::Take
    }
}

/// What a pass does with one key, whose row has so many cells.
pub fn step(by: Reading, cells: usize) -> (r: Step)
    ensures
        r == step_of(by, cells),
{
    let least = Reading { bits: LEAST_STEP };
    if !by.is_finite() || by.abs().lt(&least) {
        Step::Leave
    } else if cells == 0 {
        Step::Count
    } else {
        Step::Take
    }
}

/// The upper middle of some numbers; none, where there are none.
pub fn centre(v: &Vec<Reading>) -> (r: Option<Reading>)
    requires
        v.len() > 1 ==> forall|i: int| 0 <= i < v.len() ==> !(#[trigger] v@[i]).nan(),
    ensures
        r == if v.len() == 0 {
            None::<Reading>
        } else {
            Some(v@[stable_of(ranks_of(v@))[v.len() as int / 2] as int])
        },
{
    if v.len() == 0 {
        return None;
    }
    let order = stable_order(&ranks(v));
    proof {
        crate::order::stable_of_is_stable(ranks_of(v@));
    }
    Some(v[order[v.len() / 2]])
}

/// One recorded key, as it is printed.
pub struct KeyRow {
    pub key: u8,
    pub engine: String,
    pub recording: String,
    pub take: String,
    pub error: String,
    pub seam: String,
    pub target: String,
    pub moved: String,
}

/// The head of the keys.
pub const HEAD: &'static str = "\n key  note    engine recording      take      err     seam   target    moved\n";

/// A row of the keys.
pub open spec fn key_row_text(r: KeyRow) -> Seq<char> {
    Seq::<char>::empty() + right_in(decimal(r.key as nat), 4) + " "@ + right_in(name_of(r.key), 5)
        + " "@ + right_in(r.engine@, 9) + " "@ + right_in(r.recording@, 9) + " "@ + right_in(
        r.take@,
        9,
    ) + " "@ + right_in(r.error@, 8) + " "@ + right_in(r.seam@, 8) + " "@ + right_in(r.target@, 8)
        + " "@ + right_in(r.moved@, 8) + "\n"@
}

/// A row of the keys.
pub fn key_row(r: &KeyRow) -> (text: String)
    ensures
        text@ == key_row_text(*r),
{
    let mut out = String::new();
    push_right(&mut out, print(r.key as u64).as_str(), 4);
    out.append(" ");
    push_right(&mut out, note_name(r.key).as_str(), 5);
    out.append(" ");
    push_right(&mut out, r.engine.as_str(), 9);
    out.append(" ");
    push_right(&mut out, r.recording.as_str(), 9);
    out.append(" ");
    push_right(&mut out, r.take.as_str(), 9);
    out.append(" ");
    push_right(&mut out, r.error.as_str(), 8);
    out.append(" ");
    push_right(&mut out, r.seam.as_str(), 8);
    out.append(" ");
    push_right(&mut out, r.target.as_str(), 8);
    out.append(" ");
    push_right(&mut out, r.moved.as_str(), 8);
    out.append("\n");
    out
}

/// A step is taken where it is a number, large enough and has a row to go to; it
/// counts without a row; and else the key is left.
pub proof fn a_step_is_taken_where_it_can_be(by: Reading, cells: usize)
    ensures
        !by.finite() ==> step_of(by, cells) is Leave,
        by.finite() && by.unsigned().below(Reading { bits: LEAST_STEP }) ==> step_of(by, cells) is Leave,
        by.finite() && (Reading { bits: LEAST_STEP }).at_most(by.unsigned()) ==> (step_of(
            by,
            cells,
        ) is Take <==> cells > 0) && (step_of(by, cells) is Count <==> cells == 0),
{
    crate::reading::unsigned_keeps_the_kind(by);
}

/// Each number of `key_row` stands in its place among the words.
#[verifier::rlimit(30)]
pub proof fn the_words_of_key_row_stand_in_order(r: KeyRow)
    requires
        is_word(name_of(r.key)),
        is_word(r.engine@),
        is_word(r.recording@),
        is_word(right_in( r.take@, 9, )),
        is_word(r.error@),
        is_word(r.seam@),
        is_word(r.target@),
        is_word(r.moved@),
    ensures
        words_of(key_row_text(r)).len() == 9,
        words_of(key_row_text(r))[0] == decimal(r.key as nat),
        words_of(key_row_text(r))[1] == name_of(r.key),
        words_of(key_row_text(r))[2] == r.engine@,
        words_of(key_row_text(r))[3] == r.recording@,
        words_of(key_row_text(r))[4] == right_in( r.take@, 9, ),
        words_of(key_row_text(r))[5] == r.error@,
        words_of(key_row_text(r))[6] == r.seam@,
        words_of(key_row_text(r))[7] == r.target@,
        words_of(key_row_text(r))[8] == r.moved@,
{
    reveal_strlit(" ");
    reveal_strlit("\n");
    a_number_is_a_word(r.key as nat);
    let p0 = Seq::<char>::empty();
    a_right_word_begins(p0, decimal(r.key as nat), 4);
    let p1 = p0 + right_in(decimal(r.key as nat), 4);
    a_gap_adds_nothing(p1, " "@);
    let p2 = p1 + " "@;
    a_right_word_begins(p2, name_of(r.key), 5);
    let p3 = p2 + right_in(name_of(r.key), 5);
    a_gap_adds_nothing(p3, " "@);
    let p4 = p3 + " "@;
    a_right_word_begins(p4, r.engine@, 9);
    let p5 = p4 + right_in(r.engine@, 9);
    a_gap_adds_nothing(p5, " "@);
    let p6 = p5 + " "@;
    a_right_word_begins(p6, r.recording@, 9);
    let p7 = p6 + right_in(r.recording@, 9);
    a_gap_adds_nothing(p7, " "@);
    let p8 = p7 + " "@;
    a_word_begins(p8, right_in( r.take@, 9, ));
    let p9 = p8 + right_in( r.take@, 9, );
    a_gap_adds_nothing(p9, " "@);
    let p10 = p9 + " "@;
    a_right_word_begins(p10, r.error@, 8);
    let p11 = p10 + right_in(r.error@, 8);
    a_gap_adds_nothing(p11, " "@);
    let p12 = p11 + " "@;
    a_right_word_begins(p12, r.seam@, 8);
    let p13 = p12 + right_in(r.seam@, 8);
    a_gap_adds_nothing(p13, " "@);
    let p14 = p13 + " "@;
    a_right_word_begins(p14, r.target@, 8);
    let p15 = p14 + right_in(r.target@, 8);
    a_gap_adds_nothing(p15, " "@);
    let p16 = p15 + " "@;
    a_right_word_begins(p16, r.moved@, 8);
    let p17 = p16 + right_in(r.moved@, 8);
    a_gap_adds_nothing(p17, "\n"@);
    let p18 = p17 + "\n"@;
    assert(key_row_text(r) == p18);
}

} // verus!
