//! The stereo image, heard: which takes are rendered, and how they are levelled.

pub mod report;

use crate::args::{nth_or, or_default};
use crate::reading::Reading;
use crate::text::views;
use crate::words::{a_word_begins, a_word_goes_on, is_word, words_of};
use vstd::prelude::*;

verus! {

/// The ceiling that the takes are held under, 0.7 in single precision.
pub const PEAK_CEILING: u64 = 0x3fe6_6666_6000_0000;

/// Zero.
pub const NOTHING: u64 = 0;

/// What is said of a preset without a microphone pair.
pub const NO_PAIR: &'static str = "this board needs a preset with [voicing.mics]";

/// Where the library, the output and the preset are.
pub struct Paths {
    pub data: String,
    pub out: String,
    pub preset: String,
}

/// Where the library, the output and the preset are: the first three arguments.
pub fn paths(args: &Vec<String>) -> (r: Paths)
    ensures
        r.data@ == or_default(views(args@), 0, "data/salamander"@),
        r.out@ == or_default(views(args@), 1, "renders/stereo"@),
        r.preset@ == or_default(views(args@), 2, "presets/salamander-c5.toml"@),
{
    Paths {
        data: nth_or(args, 0, "data/salamander"),
        out: nth_or(args, 1, "renders/stereo"),
        preset: nth_or(args, 2, "presets/salamander-c5.toml"),
    }
}

/// One take of a piece of music.
pub struct Take {
    pub name: String,
    pub title: String,
}

/// A take is this one.
pub open spec fn is_take(t: Take, name: Seq<char>, title: Seq<char>) -> bool {
    t.name@ == name && t.title@ == title
}

pub const PANPOT: &'static str = "the pan-pot, `[voicing.mics]` absent";

pub const PAIR: &'static str = "the capsule pair alone, `[voicing.mics.modal]` absent";

pub const SHIPPED_BARE: &'static str = "the shipped preset: the pair, and no mode-controlled band";

pub const SHIPPED: &'static str = "the shipped preset: the pair and the mode-controlled band";

pub const RETIRED: &'static str = "the band item 418 fitted and item 449 shipped, put back on \
    today's pair — the instrument this milestone replaced";

pub const RECORDING: &'static str = "the Salamander recording of the same music";

/// The engine's takes, in the order they are reported in; `bare` where the
/// preset has no mode-controlled band, and the one that was retired is played
/// beside it. The recording comes last.
pub fn takes(bare: bool) -> (r: Vec<Take>)
    ensures
        r.len() == if bare {
            5int
        } else {
            4int
        },
        is_take(r@[0], "panpot"@, PANPOT@),
        is_take(r@[1], "pair"@, PAIR@),
        is_take(
            r@[2],
            "engine"@,
            if bare {
                SHIPPED_BARE@
            } else {
                SHIPPED@
            },
        ),
        bare ==> is_take(r@[3], "m17"@, RETIRED@),
        is_take(r@[r.len() - 1], "reference"@, RECORDING@),
{
    let mut v: Vec<Take> = Vec::new();
    v.push(Take { name: String::from_str("panpot"), title: String::from_str(PANPOT) });
    v.push(Take { name: String::from_str("pair"), title: String::from_str(PAIR) });
    if bare {
        v.push(Take { name: String::from_str("engine"), title: String::from_str(SHIPPED_BARE) });
        v.push(Take { name: String::from_str("m17"), title: String::from_str(RETIRED) });
    } else {
        v.push(Take { name: String::from_str("engine"), title: String::from_str(SHIPPED) });
    }
    v.push(Take { name: String::from_str("reference"), title: String::from_str(RECORDING) });
    v
}

/// What is said of a piece that rendered silence.
pub open spec fn silence_text(piece: Seq<char>) -> Seq<char> {
    piece + " rendered silence"@
}

/// What is said of a piece that rendered silence.
pub fn silence(piece: &str) -> (r: String)
    ensures
        r@ == silence_text(piece@),
{
    let mut out = String::from_str(piece);
    out.append(" rendered silence");
    out
}

/// Whether either side rendered silence.
pub fn is_silent(engine: Reading, reference: Reading) -> (r: bool)
    ensures
        r == (engine.at_most(Reading { bits: NOTHING }) || reference.at_most(
            Reading { bits: NOTHING },
        )),
{
    let zero = Reading { bits: NOTHING };
    engine.le(&zero) || reference.le(&zero)
}

/// The gains of the takes: one for all of the engine's, and the recording's own.
pub fn gains(takes: usize, engine: Reading, reference: Reading) -> (r: Vec<Reading>)
    requires
        takes > 0,
    ensures
        r.len() == takes,
        forall|i: int| 0 <= i < takes - 1 ==> #[trigger] r@[i] == engine,
        r@[takes - 1] == reference,
{
    let mut v: Vec<Reading> = Vec::new();
    let mut i: usize = 0;
    while i < takes - 1
        invariant
            takes > 0,
            i <= takes - 1,
            v.len() == i,
            forall|k: int| 0 <= k < i ==> #[trigger] v@[k] == engine,
        decreases takes - 1 - i,
    {
        v.push(engine);
        i = i + 1;
    }
    v.push(reference);
    v
}

/// Whether the takes have to be held under the ceiling: one is louder.
pub fn is_over(loudest: Reading) -> (r: bool)
    ensures
        r == (Reading { bits: PEAK_CEILING }).below(loudest),
{
    (Reading { bits: PEAK_CEILING }).lt(&loudest)
}

/// The file that a take is written to.
pub open spec fn file_text(piece: Seq<char>, take: Seq<char>) -> Seq<char> {
    piece + "_"@ + take + ".wav"@
}

/// The file that a take is written to.
pub fn file(piece: &str, take: &str) -> (r: String)
    ensures
        r@ == file_text(piece@, take@),
{
    let mut out = String::from_str(piece);
    out.append("_");
    out.append(take);
    out.append(".wav");
    out
}

/// Each number of `file` stands in its place among the words.
#[verifier::rlimit(30)]
pub proof fn the_words_of_file_stand_in_order(piece: Seq<char>, take: Seq<char>)
    requires
        is_word(piece),
        is_word(take),
    ensures
        words_of(file_text(piece, take)).len() == 1,
        words_of(file_text(piece, take))[0] == piece + "_"@ + take + ".wav"@,
{
    reveal_strlit("_");
    reveal_strlit(".wav");
    a_word_begins(Seq::<char>::empty(), piece);
    let p0 = piece;
    assert(Seq::<char>::empty() + piece =~= p0);
    a_word_goes_on(p0, "_"@);
    let p1 = p0 + "_"@;
    a_word_goes_on(p1, take);
    let p2 = p1 + take;
    a_word_goes_on(p2, ".wav"@);
    let p3 = p2 + ".wav"@;
    assert(file_text(piece, take) == p3);
}

} // verus!
