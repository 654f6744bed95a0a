//! What the listening material is.

use crate::text::{decimal, join, joined, print, views};
use crate::words::{a_field_begins, a_gap_adds_nothing, a_word_begins, a_word_goes_on, fields_of, is_word, one_field, one_more_field, the_field_goes_on, words_of};
use vstd::prelude::*;

verus! {

/// The library that the material is held against.
pub struct Source {
    pub instrument: String,
    pub id: String,
    pub credit: String,
    pub licence: String,
    pub url: String,
    pub keys: usize,
    pub layers: usize,
    pub rate: u32,
    pub native: bool,
}

/// One piece of music, as it is printed.
pub struct Piece {
    pub name: String,
    pub description: String,
    pub engine_gain: String,
    pub engine_length: String,
    pub reference_gain: String,
    pub reference_length: String,
    /// How many keys it strikes.
    pub keys: usize,
    /// Those of them that were recorded.
    pub recorded: Vec<u8>,
}

/// Which preset it is.
pub open spec fn title_text(preset: Seq<char>) -> Seq<char> {
    "# Listening material — `"@
        + preset
        + "`\n\n"@
}

/// Which preset it is.
pub fn title(preset: &str) -> (text: String)
    ensures
        text@ == title_text(preset@),
{
    let mut out = String::from_str("# Listening material — `");
    out.append(preset);
    out.append("`\n\n");
    out
}

/// Whether a library is delivered as it was published.
pub open spec fn rate_text(s: Source) -> Seq<char> {
    if s.native {
        " (native)"@
    } else {
        " (resampled once, offline, at fetch)"@
    }
}

/// Whether a library is delivered as it was published.
pub fn rate_words(s: &Source) -> (r: &'static str)
    ensures
        r@ == rate_text(*s),
{
    if s.native {
        " (native)"
    } else {
        " (resampled once, offline, at fetch)"
    }
}

/// What the library is.
pub open spec fn source_lines_text(s: Source) -> Seq<char> {
    "**"@
        + s.instrument@
        + "**\n\n- library: `"@
        + s.id@
        + "`\n- credit: "@
        + s.credit@
        + "\n- licence: "@
        + s.licence@
        + "\n- source: <"@
        + s.url@
        + ">\n- shape: "@
        + decimal(s.keys as nat)
        + " recorded keys x "@
        + decimal(s.layers as nat)
        + " velocity layers, delivered at "@
        + decimal(s.rate as nat)
        + " Hz"@
        + rate_text(s)
        + "\n\n"@
}

/// What the library is.
pub fn source_lines(s: &Source) -> (text: String)
    ensures
        text@ == source_lines_text(*s),
{
    let mut out = String::from_str("**");
    out.append(s.instrument.as_str());
    out.append("**\n\n- library: `");
    out.append(s.id.as_str());
    out.append("`\n- credit: ");
    out.append(s.credit.as_str());
    out.append("\n- licence: ");
    out.append(s.licence.as_str());
    out.append("\n- source: <");
    out.append(s.url.as_str());
    out.append(">\n- shape: ");
    out.append(print(s.keys as u64).as_str());
    out.append(" recorded keys x ");
    out.append(print(s.layers as u64).as_str());
    out.append(" velocity layers, delivered at ");
    out.append(print(s.rate as u64).as_str());
    out.append(" Hz");
    out.append(rate_words(s));
    out.append("\n\n");
    out
}

/// How the takes are levelled.
pub const LEVELS: &'static str = "The engine take and the reference take are normalised **separately**, each to an RMS \
    of 0.05 over its own whole phrase. Nothing here is scored — the boards are — and \
    nothing here is a level comparison; see `tools/listen.rs`.\n\n";

/// The head of a piece's takes.
pub const TAKES: &'static str = "| take | file | gain applied | length |\n|---|---|---|---|\n";

/// Which piece it is.
pub open spec fn piece_heading_text(p: Piece) -> Seq<char> {
    "## `"@
        + p.name@
        + "` — "@
        + p.description@
        + "\n\n"@
}

/// Which piece it is.
pub fn piece_heading(p: &Piece) -> (text: String)
    ensures
        text@ == piece_heading_text(*p),
{
    let mut out = String::from_str("## `");
    out.append(p.name.as_str());
    out.append("` — ");
    out.append(p.description.as_str());
    out.append("\n\n");
    out
}

/// The engine's take.
pub open spec fn engine_row_text(p: Piece) -> Seq<char> {
    "| engine | `"@
        + p.name@
        + "_engine.wav` | "@
        + p.engine_gain@
        + " dB | "@
        + p.engine_length@
        + " s |\n"@
}

/// The engine's take.
pub fn engine_row(p: &Piece) -> (text: String)
    ensures
        text@ == engine_row_text(*p),
{
    let mut out = String::from_str("| engine | `");
    out.append(p.name.as_str());
    out.append("_engine.wav` | ");
    out.append(p.engine_gain.as_str());
    out.append(" dB | ");
    out.append(p.engine_length.as_str());
    out.append(" s |\n");
    out
}

/// The recording's take.
pub open spec fn reference_row_text(p: Piece) -> Seq<char> {
    "| reference | `"@
        + p.name@
        + "_reference.wav` | "@
        + p.reference_gain@
        + " dB | "@
        + p.reference_length@
        + " s |\n\n"@
}

/// The recording's take.
pub fn reference_row(p: &Piece) -> (text: String)
    ensures
        text@ == reference_row_text(*p),
{
    let mut out = String::from_str("| reference | `");
    out.append(p.name.as_str());
    out.append("_reference.wav` | ");
    out.append(p.reference_gain.as_str());
    out.append(" dB | ");
    out.append(p.reference_length.as_str());
    out.append(" s |\n\n");
    out
}

/// The numbers of keys.
pub open spec fn numbers_of(keys: Seq<u8>) -> Seq<Seq<char>> {
    Seq::new(keys.len(), |i: int| decimal(keys[i] as nat))
}

/// The keys that were recorded, or that none was.
pub open spec fn recorded_text(keys: Seq<u8>) -> Seq<char> {
    if keys.len() == 0 {
        "none"@
    } else {
        joined(numbers_of(keys), ", "@)
    }
}

/// The keys that were recorded, or that none was.
pub fn recorded_words(keys: &Vec<u8>) -> (text: String)
    ensures
        text@ == recorded_text(keys@),
{
    if keys.len() == 0 {
        return String::from_str("none");
    }
    let mut numbers: Vec<String> = Vec::new();
    let mut i: usize = 0;
    while i < keys.len()
        invariant
            i <= keys.len(),
            numbers.len() == i,
            forall|k: int| 0 <= k < i ==> (#[trigger] numbers@[k])@ == decimal(keys@[k] as nat),
        decreases keys.len() - i,
    {
        numbers.push(print(keys[i] as u64));
        i = i + 1;
    }
    proof {
        assert(views(numbers@) =~= numbers_of(keys@));
    }
    join(&numbers, ", ")
}

pub const RECORDED_LINE_0: &'static str = " distinct keys are the library's **own takes** (";

pub const RECORDED_LINE_1: &'static str = "); the rest are its resampler playing a neighbour, which is listening material and is \
    never scored.\n\n";

/// How much of a piece was recorded.
pub open spec fn recorded_line_text(p: Piece) -> Seq<char> {
    decimal(p.recorded@.len())
        + " of this phrase's "@
        + decimal(p.keys as nat)
        + RECORDED_LINE_0@
        + recorded_text(p.recorded@)
        + RECORDED_LINE_1@
}

/// How much of a piece was recorded.
pub fn recorded_line(p: &Piece) -> (text: String)
    ensures
        text@ == recorded_line_text(*p),
{
    let mut out = String::from_str(print(p.recorded.len() as u64).as_str());
    out.append(" of this phrase's ");
    out.append(print(p.keys as u64).as_str());
    out.append(RECORDED_LINE_0);
    out.append(recorded_words(&p.recorded).as_str());
    out.append(RECORDED_LINE_1);
    out
}

/// One piece of music.
pub open spec fn piece_text(p: Piece) -> Seq<char> {
    piece_heading_text(p)
        + TAKES@
        + engine_row_text(p)
        + reference_row_text(p)
        + recorded_line_text(p)
}

/// One piece of music.
pub fn piece(p: &Piece) -> (text: String)
    ensures
        text@ == piece_text(*p),
{
    let mut out = piece_heading(p);
    out.append(TAKES);
    out.append(engine_row(p).as_str());
    out.append(reference_row(p).as_str());
    out.append(recorded_line(p).as_str());
    out
}

/// The pieces of music.
pub open spec fn pieces_text(rows: Seq<Piece>) -> Seq<char>
    decreases rows.len(),
{
    if rows.len() == 0 {
        Seq::empty()
    } else {
        pieces_text(rows.drop_last()) + piece_text(rows.last())
    }
}

/// The pieces of music.
pub fn pieces(rows: &Vec<Piece>) -> (text: String)
    ensures
        text@ == pieces_text(rows@),
{
    let mut out = String::new();
    let mut i: usize = 0;
    proof {
        assert(rows@.take(0) =~= Seq::<Piece>::empty());
    }
    while i < rows.len()
        invariant
            i <= rows.len(),
            out@ == pieces_text(rows@.take(i as int)),
        decreases rows.len() - i,
    {
        proof {
            assert(rows@.take(i + 1).drop_last() =~= rows@.take(i as int));
        }
        out.append(piece(&rows[i]).as_str());
        i = i + 1;
    }
    proof {
        assert(rows@.take(i as int) =~= rows@);
    }
    out
}

/// What the library is, where it is described.
pub open spec fn source_text(s: Option<Source>) -> Seq<char> {
    match s {
        None => Seq::empty(),
        Some(s) => source_lines_text(s),
    }
}

/// What the library is, where it is described.
pub fn source(s: &Option<Source>) -> (text: String)
    ensures
        text@ == source_text(*s),
{
    match s {
        None => String::new(),
        Some(s) => source_lines(s),
    }
}

/// The whole account of the material.
pub open spec fn readme_text(preset: Seq<char>, library: Option<Source>, all: Seq<Piece>) -> Seq<char> {
    title_text(preset)
        + source_text(library)
        + LEVELS@
        + pieces_text(all)
}

/// The whole account of the material.
pub fn readme(preset: &str, library: &Option<Source>, all: &Vec<Piece>) -> (text: String)
    ensures
        text@ == readme_text(preset@, *library, all@),
{
    let mut out = title(preset);
    out.append(source(library).as_str());
    out.append(LEVELS);
    out.append(pieces(all).as_str());
    out
}

/// The cells of a `engine_row` stand in the order of its columns, one number each.
#[verifier::rlimit(30)]
pub proof fn the_cells_of_a_engine_row_stand_in_order(p: Piece)
    requires
        !p.name@.contains('|'),
        !p.engine_gain@.contains('|'),
        !p.engine_length@.contains('|'),
    ensures
        fields_of(engine_row_text(p), '|').len() == 6,
        fields_of(engine_row_text(p), '|')[2] == " `"@ + p.name@ + "_engine.wav` "@,
        fields_of(engine_row_text(p), '|')[3] == " "@ + p.engine_gain@ + " dB "@,
        fields_of(engine_row_text(p), '|')[4] == " "@ + p.engine_length@ + " s "@,
{
    reveal_strlit("| engine | `");
    reveal_strlit(" engine ");
    reveal_strlit(" `");
    reveal_strlit("_engine.wav` | ");
    reveal_strlit("_engine.wav` ");
    reveal_strlit(" ");
    reveal_strlit(" dB | ");
    reveal_strlit(" dB ");
    reveal_strlit(" s |\n");
    reveal_strlit(" s ");
    reveal_strlit("\n");
    let p0 = "| engine | `"@;
    one_field(Seq::<char>::empty(), '|');
    one_more_field(Seq::<char>::empty(), " engine "@, '|');
    one_more_field(Seq::<char>::empty() + seq!['|'] + " engine "@, " `"@, '|');
    assert(p0 =~= Seq::<char>::empty() + seq!['|'] + " engine "@ + seq!['|'] + " `"@);
    the_field_goes_on(p0, p.name@, '|');
    let p1 = p0 + p.name@;
    assert("_engine.wav` | "@ =~= "_engine.wav` "@ + seq!['|'] + " "@);
    a_field_begins(p1, "_engine.wav` | "@, "_engine.wav` "@, " "@, '|');
    let p2 = p1 + "_engine.wav` | "@;
    the_field_goes_on(p2, p.engine_gain@, '|');
    let p3 = p2 + p.engine_gain@;
    assert(" dB | "@ =~= " dB "@ + seq!['|'] + " "@);
    a_field_begins(p3, " dB | "@, " dB "@, " "@, '|');
    let p4 = p3 + " dB | "@;
    the_field_goes_on(p4, p.engine_length@, '|');
    let p5 = p4 + p.engine_length@;
    assert(" s |\n"@ =~= " s "@ + seq!['|'] + "\n"@);
    a_field_begins(p5, " s |\n"@, " s "@, "\n"@, '|');
    let p6 = p5 + " s |\n"@;
    assert(engine_row_text(p) == p6);
}

/// The cells of a `reference_row` stand in the order of its columns, one number each.
#[verifier::rlimit(30)]
pub proof fn the_cells_of_a_reference_row_stand_in_order(p: Piece)
    requires
        !p.name@.contains('|'),
        !p.reference_gain@.contains('|'),
        !p.reference_length@.contains('|'),
    ensures
        fields_of(reference_row_text(p), '|').len() == 6,
        fields_of(reference_row_text(p), '|')[2] == " `"@ + p.name@ + "_reference.wav` "@,
        fields_of(reference_row_text(p), '|')[3] == " "@ + p.reference_gain@ + " dB "@,
        fields_of(reference_row_text(p), '|')[4] == " "@ + p.reference_length@ + " s "@,
{
    reveal_strlit("| reference | `");
    reveal_strlit(" reference ");
    reveal_strlit(" `");
    reveal_strlit("_reference.wav` | ");
    reveal_strlit("_reference.wav` ");
    reveal_strlit(" ");
    reveal_strlit(" dB | ");
    reveal_strlit(" dB ");
    reveal_strlit(" s |\n\n");
    reveal_strlit(" s ");
    reveal_strlit("\n\n");
    let p0 = "| reference | `"@;
    one_field(Seq::<char>::empty(), '|');
    one_more_field(Seq::<char>::empty(), " reference "@, '|');
    one_more_field(Seq::<char>::empty() + seq!['|'] + " reference "@, " `"@, '|');
    assert(p0 =~= Seq::<char>::empty() + seq!['|'] + " reference "@ + seq!['|'] + " `"@);
    the_field_goes_on(p0, p.name@, '|');
    let p1 = p0 + p.name@;
    assert("_reference.wav` | "@ =~= "_reference.wav` "@ + seq!['|'] + " "@);
    a_field_begins(p1, "_reference.wav` | "@, "_reference.wav` "@, " "@, '|');
    let p2 = p1 + "_reference.wav` | "@;
    the_field_goes_on(p2, p.reference_gain@, '|');
    let p3 = p2 + p.reference_gain@;
    assert(" dB | "@ =~= " dB "@ + seq!['|'] + " "@);
    a_field_begins(p3, " dB | "@, " dB "@, " "@, '|');
    let p4 = p3 + " dB | "@;
    the_field_goes_on(p4, p.reference_length@, '|');
    let p5 = p4 + p.reference_length@;
    assert(" s |\n\n"@ =~= " s "@ + seq!['|'] + "\n\n"@);
    a_field_begins(p5, " s |\n\n"@, " s "@, "\n\n"@, '|');
    let p6 = p5 + " s |\n\n"@;
    assert(reference_row_text(p) == p6);
}

/// What the columns of the table under [`TAKES`] are named, in order.
#[verifier::rlimit(80)]
#[verifier::spinoff_prover]
pub proof fn the_columns_of_takes_are_named()
    ensures
        fields_of(TAKES@, '|').len() == 11,
        fields_of(TAKES@, '|')[1] == " take "@,
        fields_of(TAKES@, '|')[2] == " file "@,
        fields_of(TAKES@, '|')[3] == " gain applied "@,
        fields_of(TAKES@, '|')[4] == " length "@,
{
    reveal_strlit(" take ");
    reveal_strlit(" file ");
    reveal_strlit(" gain applied ");
    reveal_strlit(" length ");
    reveal_strlit("\n");
    reveal_strlit("---");
    reveal_strlit("| take | file | gain applied | length |\n|---|---|---|---|\n");
    let h0 = Seq::<char>::empty();
    one_field(h0, '|');
    one_more_field(h0, " take "@, '|');
    let h1 = h0 + seq!['|'] + " take "@;
    one_more_field(h1, " file "@, '|');
    let h2 = h1 + seq!['|'] + " file "@;
    one_more_field(h2, " gain applied "@, '|');
    let h3 = h2 + seq!['|'] + " gain applied "@;
    one_more_field(h3, " length "@, '|');
    let h4 = h3 + seq!['|'] + " length "@;
    one_more_field(h4, "\n"@, '|');
    let h5 = h4 + seq!['|'] + "\n"@;
    one_more_field(h5, "---"@, '|');
    let h6 = h5 + seq!['|'] + "---"@;
    one_more_field(h6, "---"@, '|');
    let h7 = h6 + seq!['|'] + "---"@;
    one_more_field(h7, "---"@, '|');
    let h8 = h7 + seq!['|'] + "---"@;
    one_more_field(h8, "---"@, '|');
    let h9 = h8 + seq!['|'] + "---"@;
    one_more_field(h9, "\n"@, '|');
    let h10 = h9 + seq!['|'] + "\n"@;
    assert(TAKES@ =~= h10);
}

/// The `pieces` are printed one after another, in their order.
pub proof fn the_pieces_follow_each_other(a: Seq<Piece>, b: Seq<Piece>)
    ensures
        pieces_text(a + b) == pieces_text(a) + pieces_text(b),
        a.len() == 1 ==> pieces_text(a) == piece_text(a[0]),
        pieces_text(Seq::<Piece>::empty()).len() == 0,
    decreases b.len(),
{
    if a.len() == 1 {
        assert(a.drop_last() =~= Seq::<Piece>::empty());
        assert(pieces_text(a.drop_last()) =~= Seq::<char>::empty());
        assert(pieces_text(a) =~= piece_text(a[0]));
    }
    if b.len() == 0 {
        assert(a + b =~= a);
        assert(pieces_text(a) + pieces_text(b) =~= pieces_text(a));
    } else {
        the_pieces_follow_each_other(a, b.drop_last());
        assert((a + b).drop_last() =~= a + b.drop_last());
        assert((a + b).last() == b.last());
        assert(pieces_text(a) + pieces_text(b.drop_last()) + piece_text(b.last()) =~= pieces_text(a) + (pieces_text(
            b.drop_last(),
        ) + piece_text(b.last())));
    }
}

/// Each number of `piece_heading` stands in its place among the words.
#[verifier::rlimit(30)]
pub proof fn the_words_of_piece_heading_stand_in_order(p: Piece)
    requires
        is_word(p.name@),
        is_word(p.description@),
    ensures
        words_of(piece_heading_text(p)).len() == 4,
        words_of(piece_heading_text(p))[1] == "`"@ + p.name@ + "`"@,
        words_of(piece_heading_text(p))[3] == p.description@,
{
    reveal_strlit("## `");
    reveal_strlit("##");
    reveal_strlit(" ");
    reveal_strlit("`");
    reveal_strlit("` — ");
    reveal_strlit("—");
    reveal_strlit("\n\n");
    let p0 = "## `"@;
    a_word_begins(Seq::<char>::empty(), "##"@);
    a_gap_adds_nothing(Seq::<char>::empty() + "##"@, " "@);
    a_word_begins(Seq::<char>::empty() + "##"@ + " "@, "`"@);
    assert(p0 =~= Seq::<char>::empty() + "##"@ + " "@ + "`"@);
    a_word_goes_on(p0, p.name@);
    let p1 = p0 + p.name@;
    a_word_goes_on(p1, "`"@);
    a_gap_adds_nothing(p1 + "`"@, " "@);
    a_word_begins(p1 + "`"@ + " "@, "—"@);
    a_gap_adds_nothing(p1 + "`"@ + " "@ + "—"@, " "@);
    let p2 = p1 + "` — "@;
    assert(p2 =~= p1 + "`"@ + " "@ + "—"@ + " "@);
    a_word_begins(p2, p.description@);
    let p3 = p2 + p.description@;
    a_gap_adds_nothing(p3, "\n\n"@);
    let p4 = p3 + "\n\n"@;
    assert(piece_heading_text(p) == p4);
}

} // verus!
