//! What a scan of the compass says as it goes.

use crate::compass::metric_text;
use crate::compass::report::metric_words;
use crate::keys::{different, how_many, name_of, note_name};
use crate::text::{decimal, left_in, print, push_left, push_right, right_in};
use crate::words::{a_gap_adds_nothing, a_left_word_begins, a_number_is_a_word, a_right_word_begins, a_word_begins, a_word_goes_on, is_word, words_of};
use vstd::prelude::*;

verus! {

/// What is scanned.
pub open spec fn heading_text(keys: usize, preset: Seq<char>) -> Seq<char> {
    "compass scan: vel 90, "@
        + decimal(keys as nat)
        + " keys, engine on "@
        + preset
        + "\n"@
}

/// What is scanned.
pub fn heading(keys: usize, preset: &str) -> (text: String)
    ensures
        text@ == heading_text(keys, preset@),
{
    let mut out = String::from_str("compass scan: vel 90, ");
    out.append(print(keys as u64).as_str());
    out.append(" keys, engine on ");
    out.append(preset);
    out.append("\n");
    out
}

/// Where the renders of the recordings are kept.
pub open spec fn cache_line_text(cache: Seq<char>) -> Seq<char> {
    "  reference cache: "@
        + cache
        + "\n"@
}

/// Where the renders of the recordings are kept.
pub fn cache_line(cache: &str) -> (text: String)
    ensures
        text@ == cache_line_text(cache@),
{
    let mut out = String::from_str("  reference cache: ");
    out.append(cache);
    out.append("\n");
    out
}

/// The head of the keys that stand out.
pub const OUTLIERS: &'static str = "\noutliers (|z| >= 4.0):\n";

/// A key that stands out, as it is printed.
pub struct FlagLine {
    pub key: u8,
    pub unison: usize,
    pub metric: usize,
    pub z: String,
    pub recording: String,
}

/// A key that stands out.
pub open spec fn flag_line_text(r: FlagLine) -> Seq<char> {
    "  "@
        + right_in(decimal(r.key as nat), 4)
        + " "@
        + left_in(name_of(r.key), 4)
        + " n="@
        + decimal(r.unison as nat)
        + "  "@
        + left_in(metric_text(r.metric as int), 10)
        + " z "@
        + right_in(r.z@, 6)
        + "   (recording z "@
        + right_in(r.recording@, 5)
        + ")\n"@
}

/// A key that stands out.
pub fn flag_line(r: &FlagLine) -> (text: String)
    ensures
        text@ == flag_line_text(*r),
{
    let mut out = String::from_str("  ");
    push_right(&mut out, print(r.key as u64).as_str(), 4);
    out.append(" ");
    push_left(&mut out, note_name(r.key).as_str(), 4);
    out.append(" n=");
    out.append(print(r.unison as u64).as_str());
    out.append("  ");
    push_left(&mut out, metric_words(r.metric), 10);
    out.append(" z ");
    push_right(&mut out, r.z.as_str(), 6);
    out.append("   (recording z ");
    push_right(&mut out, r.recording.as_str(), 5);
    out.append(")\n");
    out
}

/// The keys that stand out.
pub open spec fn flag_lines_text(rows: Seq<FlagLine>) -> Seq<char>
    decreases rows.len(),
{
    if rows.len() == 0 {
        Seq::empty()
    } else {
        flag_lines_text(rows.drop_last()) + flag_line_text(rows.last())
    }
}

/// The keys that stand out.
pub fn flag_lines(rows: &Vec<FlagLine>) -> (text: String)
    ensures
        text@ == flag_lines_text(rows@),
{
    let mut out = String::new();
    let mut i: usize = 0;
    proof {
        assert(rows@.take(0) =~= Seq::<FlagLine>::empty());
    }
    while i < rows.len()
        invariant
            i <= rows.len(),
            out@ == flag_lines_text(rows@.take(i as int)),
        decreases rows.len() - i,
    {
        proof {
            assert(rows@.take(i + 1).drop_last() =~= rows@.take(i as int));
        }
        out.append(flag_line(&rows[i]).as_str());
        i = i + 1;
    }
    proof {
        assert(rows@.take(i as int) =~= rows@);
    }
    out
}

/// How many numbers of how many keys stand out.
pub open spec fn count_line_text(flags: usize, keys: usize) -> Seq<char> {
    "  "@
        + decimal(flags as nat)
        + " flags over "@
        + decimal(keys as nat)
        + " keys\n"@
}

/// How many numbers of how many keys stand out.
pub fn count_line(flags: usize, keys: usize) -> (text: String)
    ensures
        text@ == count_line_text(flags, keys),
{
    let mut out = String::from_str("  ");
    out.append(print(flags as u64).as_str());
    out.append(" flags over ");
    out.append(print(keys as u64).as_str());
    out.append(" keys\n");
    out
}

/// The keys of the rows, in order.
pub open spec fn keys_of(rows: Seq<FlagLine>) -> Seq<u8> {
    Seq::new(rows.len(), |i: int| rows[i].key)
}

/// How many keys the rows are of.
fn keys_in(rows: &Vec<FlagLine>) -> (r: usize)
    ensures
        r == different(keys_of(rows@)),
{
    let mut keys: Vec<u8> = Vec::new();
    let mut i: usize = 0;
    while i < rows.len()
        invariant
            i <= rows.len(),
            keys@ == keys_of(rows@).take(i as int),
        decreases rows.len() - i,
    {
        keys.push(rows[i].key);
        i = i + 1;
        proof {
            assert(keys@ =~= keys_of(rows@).take(i as int));
        }
    }
    proof {
        assert(keys@ =~= keys_of(rows@));
    }
    how_many(&keys)
}

/// The keys that stand out, and how many.
pub open spec fn outliers_text(rows: Seq<FlagLine>) -> Seq<char> {
    OUTLIERS@ + (if rows.len() == 0 {
        "  none\n"@
    } else {
        flag_lines_text(rows)
    }) + count_line_text(rows.len() as usize, different(keys_of(rows)) as usize)
}

/// The keys that stand out, and how many.
pub fn outliers(rows: &Vec<FlagLine>) -> (text: String)
    ensures
        text@ == outliers_text(rows@),
{
    let mut out = String::from_str(OUTLIERS);
    if rows.len() == 0 {
        out.append("  none\n");
    } else {
        out.append(flag_lines(rows).as_str());
    }
    out.append(count_line(rows.len(), keys_in(rows)).as_str());
    out
}

/// The `flag_lines` are printed one after another, in their order.
pub proof fn the_flag_lines_follow_each_other(a: Seq<FlagLine>, b: Seq<FlagLine>)
    ensures
        flag_lines_text(a + b) == flag_lines_text(a) + flag_lines_text(b),
        a.len() == 1 ==> flag_lines_text(a) == flag_line_text(a[0]),
        flag_lines_text(Seq::<FlagLine>::empty()).len() == 0,
    decreases b.len(),
{
    if a.len() == 1 {
        assert(a.drop_last() =~= Seq::<FlagLine>::empty());
        assert(flag_lines_text(a.drop_last()) =~= Seq::<char>::empty());
        assert(flag_lines_text(a) =~= flag_line_text(a[0]));
    }
    if b.len() == 0 {
        assert(a + b =~= a);
        assert(flag_lines_text(a) + flag_lines_text(b) =~= flag_lines_text(a));
    } else {
        the_flag_lines_follow_each_other(a, b.drop_last());
        assert((a + b).drop_last() =~= a + b.drop_last());
        assert((a + b).last() == b.last());
        assert(flag_lines_text(a) + flag_lines_text(b.drop_last()) + flag_line_text(b.last()) =~= flag_lines_text(a) + (flag_lines_text(
            b.drop_last(),
        ) + flag_line_text(b.last())));
    }
}

/// Each number of `heading` stands in its place among the words.
#[verifier::rlimit(30)]
pub proof fn the_words_of_heading_stand_in_order(keys: usize, preset: Seq<char>)
    requires
        is_word(preset),
    ensures
        words_of(heading_text(keys, preset)).len() == 9,
        words_of(heading_text(keys, preset))[4] == decimal(keys as nat),
        words_of(heading_text(keys, preset))[8] == preset,
{
    reveal_strlit("compass scan: vel 90, ");
    reveal_strlit("compass");
    reveal_strlit(" ");
    reveal_strlit("scan:");
    reveal_strlit("vel");
    reveal_strlit("90,");
    reveal_strlit(" keys, engine on ");
    reveal_strlit("keys,");
    reveal_strlit("engine");
    reveal_strlit("on");
    reveal_strlit("\n");
    a_number_is_a_word(keys as nat);
    let p0 = "compass scan: vel 90, "@;
    a_word_begins(Seq::<char>::empty(), "compass"@);
    a_gap_adds_nothing(Seq::<char>::empty() + "compass"@, " "@);
    a_word_begins(Seq::<char>::empty() + "compass"@ + " "@, "scan:"@);
    a_gap_adds_nothing(Seq::<char>::empty() + "compass"@ + " "@ + "scan:"@, " "@);
    a_word_begins(Seq::<char>::empty() + "compass"@ + " "@ + "scan:"@ + " "@, "vel"@);
    a_gap_adds_nothing(Seq::<char>::empty() + "compass"@ + " "@ + "scan:"@ + " "@ + "vel"@, " "@);
    a_word_begins(Seq::<char>::empty() + "compass"@ + " "@ + "scan:"@ + " "@ + "vel"@ + " "@, "90,"@);
    a_gap_adds_nothing(Seq::<char>::empty() + "compass"@ + " "@ + "scan:"@ + " "@ + "vel"@ + " "@ + "90,"@, " "@);
    assert(p0 =~= Seq::<char>::empty() + "compass"@ + " "@ + "scan:"@ + " "@ + "vel"@ + " "@ + "90,"@ + " "@);
    a_word_begins(p0, decimal(keys as nat));
    let p1 = p0 + decimal(keys as nat);
    a_gap_adds_nothing(p1, " "@);
    a_word_begins(p1 + " "@, "keys,"@);
    a_gap_adds_nothing(p1 + " "@ + "keys,"@, " "@);
    a_word_begins(p1 + " "@ + "keys,"@ + " "@, "engine"@);
    a_gap_adds_nothing(p1 + " "@ + "keys,"@ + " "@ + "engine"@, " "@);
    a_word_begins(p1 + " "@ + "keys,"@ + " "@ + "engine"@ + " "@, "on"@);
    a_gap_adds_nothing(p1 + " "@ + "keys,"@ + " "@ + "engine"@ + " "@ + "on"@, " "@);
    let p2 = p1 + " keys, engine on "@;
    assert(p2 =~= p1 + " "@ + "keys,"@ + " "@ + "engine"@ + " "@ + "on"@ + " "@);
    a_word_begins(p2, preset);
    let p3 = p2 + preset;
    a_gap_adds_nothing(p3, "\n"@);
    let p4 = p3 + "\n"@;
    assert(heading_text(keys, preset) == p4);
}

/// Each number of `flag_line` stands in its place among the words.
#[verifier::rlimit(30)]
pub proof fn the_words_of_flag_line_stand_in_order(r: FlagLine)
    requires
        is_word(name_of(r.key)),
        is_word(metric_text(r.metric as int)),
        is_word(r.z@),
        is_word(r.recording@),
    ensures
        words_of(flag_line_text(r)).len() == 9,
        words_of(flag_line_text(r))[0] == decimal(r.key as nat),
        words_of(flag_line_text(r))[1] == name_of(r.key),
        words_of(flag_line_text(r))[2] == "n="@ + decimal(r.unison as nat),
        words_of(flag_line_text(r))[3] == metric_text(r.metric as int),
        words_of(flag_line_text(r))[5] == r.z@,
        words_of(flag_line_text(r))[8] == r.recording@ + ")"@,
{
    reveal_strlit("  ");
    reveal_strlit(" ");
    reveal_strlit(" n=");
    reveal_strlit("n=");
    reveal_strlit(" z ");
    reveal_strlit("z");
    reveal_strlit("   (recording z ");
    reveal_strlit("   ");
    reveal_strlit("(recording");
    reveal_strlit(")\n");
    reveal_strlit(")");
    reveal_strlit("\n");
    a_number_is_a_word(r.key as nat);
    a_number_is_a_word(r.unison as nat);
    let p0 = "  "@;
    a_gap_adds_nothing(Seq::<char>::empty(), "  "@);
    assert(p0 =~= Seq::<char>::empty() + "  "@);
    a_right_word_begins(p0, decimal(r.key as nat), 4);
    let p1 = p0 + right_in(decimal(r.key as nat), 4);
    a_gap_adds_nothing(p1, " "@);
    let p2 = p1 + " "@;
    a_left_word_begins(p2, name_of(r.key), 4);
    let p3 = p2 + left_in(name_of(r.key), 4);
    a_gap_adds_nothing(p3, " "@);
    a_word_begins(p3 + " "@, "n="@);
    let p4 = p3 + " n="@;
    assert(p4 =~= p3 + " "@ + "n="@);
    a_word_goes_on(p4, decimal(r.unison as nat));
    let p5 = p4 + decimal(r.unison as nat);
    a_gap_adds_nothing(p5, "  "@);
    let p6 = p5 + "  "@;
    a_left_word_begins(p6, metric_text(r.metric as int), 10);
    let p7 = p6 + left_in(metric_text(r.metric as int), 10);
    a_gap_adds_nothing(p7, " "@);
    a_word_begins(p7 + " "@, "z"@);
    a_gap_adds_nothing(p7 + " "@ + "z"@, " "@);
    let p8 = p7 + " z "@;
    assert(p8 =~= p7 + " "@ + "z"@ + " "@);
    a_right_word_begins(p8, r.z@, 6);
    let p9 = p8 + right_in(r.z@, 6);
    a_gap_adds_nothing(p9, "   "@);
    a_word_begins(p9 + "   "@, "(recording"@);
    a_gap_adds_nothing(p9 + "   "@ + "(recording"@, " "@);
    a_word_begins(p9 + "   "@ + "(recording"@ + " "@, "z"@);
    a_gap_adds_nothing(p9 + "   "@ + "(recording"@ + " "@ + "z"@, " "@);
    let p10 = p9 + "   (recording z "@;
    assert(p10 =~= p9 + "   "@ + "(recording"@ + " "@ + "z"@ + " "@);
    a_right_word_begins(p10, r.recording@, 5);
    let p11 = p10 + right_in(r.recording@, 5);
    a_word_goes_on(p11, ")"@);
    a_gap_adds_nothing(p11 + ")"@, "\n"@);
    let p12 = p11 + ")\n"@;
    assert(p12 =~= p11 + ")"@ + "\n"@);
    assert(flag_line_text(r) == p12);
}

/// Each number of `count_line` stands in its place among the words.
#[verifier::rlimit(30)]
pub proof fn the_words_of_count_line_stand_in_order(flags: usize, keys: usize)
    ensures
        words_of(count_line_text(flags, keys)).len() == 5,
        words_of(count_line_text(flags, keys))[0] == decimal(flags as nat),
        words_of(count_line_text(flags, keys))[3] == decimal(keys as nat),
{
    reveal_strlit("  ");
    reveal_strlit(" flags over ");
    reveal_strlit(" ");
    reveal_strlit("flags");
    reveal_strlit("over");
    reveal_strlit(" keys\n");
    reveal_strlit("keys");
    reveal_strlit("\n");
    a_number_is_a_word(flags as nat);
    a_number_is_a_word(keys as nat);
    let p0 = "  "@;
    a_gap_adds_nothing(Seq::<char>::empty(), "  "@);
    assert(p0 =~= Seq::<char>::empty() + "  "@);
    a_word_begins(p0, decimal(flags as nat));
    let p1 = p0 + decimal(flags as nat);
    a_gap_adds_nothing(p1, " "@);
    a_word_begins(p1 + " "@, "flags"@);
    a_gap_adds_nothing(p1 + " "@ + "flags"@, " "@);
    a_word_begins(p1 + " "@ + "flags"@ + " "@, "over"@);
    a_gap_adds_nothing(p1 + " "@ + "flags"@ + " "@ + "over"@, " "@);
    let p2 = p1 + " flags over "@;
    assert(p2 =~= p1 + " "@ + "flags"@ + " "@ + "over"@ + " "@);
    a_word_begins(p2, decimal(keys as nat));
    let p3 = p2 + decimal(keys as nat);
    a_gap_adds_nothing(p3, " "@);
    a_word_begins(p3 + " "@, "keys"@);
    a_gap_adds_nothing(p3 + " "@ + "keys"@, "\n"@);
    let p4 = p3 + " keys\n"@;
    assert(p4 =~= p3 + " "@ + "keys"@ + "\n"@);
    assert(count_line_text(flags, keys) == p4);
}

} // verus!
