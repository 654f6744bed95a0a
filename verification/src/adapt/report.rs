//! What is said of a library.

use crate::adapt::{first_sentence, first_sentence_of};
use crate::text::{decimal, print, push_right, quote, quoted, right_in, views};
use crate::words::{a_gap_adds_nothing, a_number_is_a_word, a_right_word_begins, a_word_begins, a_word_goes_on, is_word, words_of};
use vstd::prelude::*;

verus! {

/// What is known of a library.
pub struct Library {
    pub id: String,
    pub instrument: String,
    pub credit: String,
    pub licence: String,
    pub source: String,
    /// The instrument definition that it ships, where it ships one.
    pub shipped: Option<String>,
    pub keys: usize,
    pub layers: usize,
    pub native: bool,
    pub published_rate: u32,
    pub delivered_rate: u32,
    pub extension: String,
}

/// What is said where there is no library of a name.
pub open spec fn no_library_text(id: Seq<char>) -> Seq<char> {
    "no library called "@
        + quoted(id)
        + "; `adapt --list` names them"@
}

/// What is said where there is no library of a name.
pub fn no_library(id: &str) -> (text: String)
    ensures
        text@ == no_library_text(id@),
{
    let mut out = String::from_str("no library called ");
    out.append(quote(id).as_str());
    out.append("; `adapt --list` names them");
    out
}

pub const NO_DIRECTORY_0: &'static str = ": not a directory — run the library's own data/fetch_*.sh first";

/// What is said where a library is not on disk.
pub open spec fn no_directory_text(root: Seq<char>) -> Seq<char> {
    root
        + NO_DIRECTORY_0@
}

/// What is said where a library is not on disk.
pub fn no_directory(root: &str) -> (text: String)
    ensures
        text@ == no_directory_text(root@),
{
    let mut out = String::from_str(root);
    out.append(NO_DIRECTORY_0);
    out
}

/// Which library it is.
pub open spec fn heading_text(l: Library, root: Seq<char>) -> Seq<char> {
    l.id@
        + ": "@
        + l.instrument@
        + "\n  credit  "@
        + l.credit@
        + "\n  licence "@
        + l.licence@
        + "\n  source  "@
        + l.source@
        + "\n  root    "@
        + root
        + "\n"@
}

/// Which library it is.
pub fn heading(l: &Library, root: &str) -> (text: String)
    ensures
        text@ == heading_text(*l, root@),
{
    let mut out = String::from_str(l.id.as_str());
    out.append(": ");
    out.append(l.instrument.as_str());
    out.append("\n  credit  ");
    out.append(l.credit.as_str());
    out.append("\n  licence ");
    out.append(l.licence.as_str());
    out.append("\n  source  ");
    out.append(l.source.as_str());
    out.append("\n  root    ");
    out.append(root);
    out.append("\n");
    out
}

pub const SHIPS_ITS_OWN_0: &'static str = "\nthis library ships its own instrument definition (";

pub const SHIPS_ITS_OWN_1: &'static str = ") and is played from it.\nNothing is generated: every bar in this repository was \
    measured through that file,\nand a generated stand-in would silently re-bar them.\n";

/// What is said of a library that ships its own definition.
pub open spec fn ships_its_own_text(name: Seq<char>) -> Seq<char> {
    SHIPS_ITS_OWN_0@
        + name
        + SHIPS_ITS_OWN_1@
}

/// What is said of a library that ships its own definition.
pub fn ships_its_own(name: &str) -> (text: String)
    ensures
        text@ == ships_its_own_text(name@),
{
    let mut out = String::from_str(SHIPS_ITS_OWN_0);
    out.append(name);
    out.append(SHIPS_ITS_OWN_1);
    out
}

/// What is said where there is nothing to resample.
pub open spec fn already_native_text(rate: u32) -> Seq<char> {
    "\n"@
        + decimal(rate as nat)
        + " Hz already; nothing to resample.\n"@
}

/// What is said where there is nothing to resample.
pub fn already_native(rate: u32) -> (text: String)
    ensures
        text@ == already_native_text(rate),
{
    let mut out = String::from_str("\n");
    out.append(print(rate as u64).as_str());
    out.append(" Hz already; nothing to resample.\n");
    out
}

pub const RESAMPLING_0: &'static str = " Hz (audio::resample, band-limited sinc, float WAV out)\n";

/// What is resampled.
pub open spec fn resampling_text(from: u32, to: u32) -> Seq<char> {
    "\nresampling "@
        + decimal(from as nat)
        + " Hz -> "@
        + decimal(to as nat)
        + RESAMPLING_0@
}

/// What is resampled.
pub fn resampling(from: u32, to: u32) -> (text: String)
    ensures
        text@ == resampling_text(from, to),
{
    let mut out = String::from_str("\nresampling ");
    out.append(print(from as u64).as_str());
    out.append(" Hz -> ");
    out.append(print(to as u64).as_str());
    out.append(RESAMPLING_0);
    out
}

/// A file that was converted.
pub open spec fn converted_text(done: usize, path: Seq<char>) -> Seq<char> {
    "  "@
        + right_in(decimal(done as nat), 4)
        + "  "@
        + path
        + "\n"@
}

/// A file that was converted.
pub fn converted(done: usize, path: &str) -> (text: String)
    ensures
        text@ == converted_text(done, path@),
{
    let mut out = String::from_str("  ");
    push_right(&mut out, print(done as u64).as_str(), 4);
    out.append("  ");
    out.append(path);
    out.append("\n");
    out
}

/// How many files were converted.
pub open spec fn resampled_text(converted: usize, skipped: usize) -> Seq<char> {
    "  "@
        + decimal(converted as nat)
        + " converted, "@
        + decimal(skipped as nat)
        + " already in place\n"@
}

/// How many files were converted.
pub fn resampled(converted: usize, skipped: usize) -> (text: String)
    ensures
        text@ == resampled_text(converted, skipped),
{
    let mut out = String::from_str("  ");
    out.append(print(converted as u64).as_str());
    out.append(" converted, ");
    out.append(print(skipped as u64).as_str());
    out.append(" already in place\n");
    out
}

/// What of a library is on disk.
pub struct Scan {
    pub present: usize,
    pub expected: usize,
    pub keys: usize,
    pub layers: usize,
    pub missing: Vec<String>,
    pub mechanism_present: usize,
    pub mechanism: usize,
}

/// What was found.
pub open spec fn scanned_text(s: Scan) -> Seq<char> {
    "\nscanned: "@
        + decimal(s.present as nat)
        + " of "@
        + decimal(s.expected as nat)
        + " expected note recordings present, over "@
        + decimal(s.keys as nat)
        + " keys x "@
        + decimal(s.layers as nat)
        + " layers\n"@
}

/// What was found.
pub fn scanned(s: &Scan) -> (text: String)
    ensures
        text@ == scanned_text(*s),
{
    let mut out = String::from_str("\nscanned: ");
    out.append(print(s.present as u64).as_str());
    out.append(" of ");
    out.append(print(s.expected as u64).as_str());
    out.append(" expected note recordings present, over ");
    out.append(print(s.keys as u64).as_str());
    out.append(" keys x ");
    out.append(print(s.layers as u64).as_str());
    out.append(" layers\n");
    out
}

/// How much is missing.
pub open spec fn missing_heading_text(s: Scan) -> Seq<char> {
    "  "@
        + decimal(s.missing@.len())
        + " missing, first five:\n"@
}

/// How much is missing.
pub fn missing_heading(s: &Scan) -> (text: String)
    ensures
        text@ == missing_heading_text(*s),
{
    let mut out = String::from_str("  ");
    out.append(print(s.missing.len() as u64).as_str());
    out.append(" missing, first five:\n");
    out
}

/// A file that is missing.
pub open spec fn missing_line_text(name: String) -> Seq<char> {
    "    "@
        + name@
        + "\n"@
}

/// A file that is missing.
pub fn missing_line(name: &String) -> (text: String)
    ensures
        text@ == missing_line_text(*name),
{
    let mut out = String::from_str("    ");
    out.append(name.as_str());
    out.append("\n");
    out
}

/// The files that are missing.
pub open spec fn missing_lines_text(rows: Seq<String>) -> Seq<char>
    decreases rows.len(),
{
    if rows.len() == 0 {
        Seq::empty()
    } else {
        missing_lines_text(rows.drop_last()) + missing_line_text(rows.last())
    }
}

/// The files that are missing.
pub fn missing_lines(rows: &Vec<String>) -> (text: String)
    ensures
        text@ == missing_lines_text(rows@),
{
    let mut out = String::new();
    let mut i: usize = 0;
    proof {
        assert(rows@.take(0) =~= Seq::<String>::empty());
    }
    while i < rows.len()
        invariant
            i <= rows.len(),
            out@ == missing_lines_text(rows@.take(i as int)),
        decreases rows.len() - i,
    {
        proof {
            assert(rows@.take(i + 1).drop_last() =~= rows@.take(i as int));
        }
        out.append(missing_line(&rows[i]).as_str());
        i = i + 1;
    }
    proof {
        assert(rows@.take(i as int) =~= rows@);
    }
    out
}

/// What is said where the files may still have to be built.
pub open spec fn pass_resample_text(extension: Seq<char>) -> Seq<char> {
    "  (the description expects "@
        + extension
        + " files; pass --resample to build them)\n"@
}

/// What is said where the files may still have to be built.
pub fn pass_resample(extension: &str) -> (text: String)
    ensures
        text@ == pass_resample_text(extension@),
{
    let mut out = String::from_str("  (the description expects ");
    out.append(extension);
    out.append(" files; pass --resample to build them)\n");
    out
}

/// What was found of the mechanism.
pub open spec fn mechanism_line_text(s: Scan) -> Seq<char> {
    "  mechanism: "@
        + decimal(s.mechanism_present as nat)
        + " of "@
        + decimal(s.mechanism as nat)
        + " present\n"@
}

/// What was found of the mechanism.
pub fn mechanism_line(s: &Scan) -> (text: String)
    ensures
        text@ == mechanism_line_text(*s),
{
    let mut out = String::from_str("  mechanism: ");
    out.append(print(s.mechanism_present as u64).as_str());
    out.append(" of ");
    out.append(print(s.mechanism as u64).as_str());
    out.append(" present\n");
    out
}

/// The most files that are named as missing.
pub const NAMED: usize = 5;

/// The first of the files that are missing.
pub open spec fn first_missing(s: Scan) -> Seq<String> {
    if s.missing@.len() < NAMED {
        s.missing@
    } else {
        s.missing@.take(NAMED as int)
    }
}

/// What is missing: the first files, and that they may still have to be built.
pub open spec fn missing_text(s: Scan, unbuilt: bool, extension: Seq<char>) -> Seq<char> {
    if s.present < s.expected {
        missing_heading_text(s) + missing_lines_text(first_missing(s)) + (if unbuilt {
            pass_resample_text(extension)
        } else {
            Seq::empty()
        })
    } else {
        Seq::empty()
    }
}

/// What is missing; `unbuilt` where the files are built here and were not asked
/// for.
pub fn missing(s: &Scan, unbuilt: bool, extension: &str) -> (text: String)
    ensures
        text@ == missing_text(*s, unbuilt, extension@),
{
    if s.present >= s.expected {
        return String::new();
    }
    let mut named: Vec<String> = Vec::new();
    let mut i: usize = 0;
    while i < s.missing.len() && i < NAMED
        invariant
            i <= s.missing.len(),
            i <= NAMED,
            named.len() == i,
            forall|k: int| 0 <= k < i ==> (#[trigger] named@[k])@ == s.missing@[k]@,
        decreases s.missing.len() - i,
    {
        named.push(s.missing[i].clone());
        i = i + 1;
    }
    let mut out = missing_heading(s);
    out.append(missing_lines(&named).as_str());
    proof {
        same_lines(named@, first_missing(*s));
    }
    if unbuilt {
        out.append(pass_resample(extension).as_str());
    } else {
        proof {
            assert(out@ + Seq::<char>::empty() =~= out@);
        }
    }
    out
}

proof fn same_lines(a: Seq<String>, b: Seq<String>)
    requires
        a.len() == b.len(),
        forall|k: int| 0 <= k < a.len() ==> (#[trigger] a[k])@ == b[k]@,
    ensures
        missing_lines_text(a) == missing_lines_text(b),
    decreases a.len(),
{
    if a.len() > 0 {
        let short_a = a.drop_last();
        let short_b = b.drop_last();
        assert forall|k: int| 0 <= k < short_a.len() implies (#[trigger] short_a[k])@
            == short_b[k]@ by {
            assert(short_a[k] == a[k]);
        }
        same_lines(short_a, short_b);
        assert(a[a.len() - 1]@ == b[a.len() - 1]@);
    }
}

/// What was written.
pub open spec fn wrote_text(to: Seq<char>, regions: usize, bytes: usize) -> Seq<char> {
    "\nwrote "@
        + to
        + " ("@
        + decimal(regions as nat)
        + " regions, "@
        + decimal(bytes as nat)
        + " bytes)\n"@
}

/// What was written.
pub fn wrote(to: &str, regions: usize, bytes: usize) -> (text: String)
    ensures
        text@ == wrote_text(to@, regions, bytes),
{
    let mut out = String::from_str("\nwrote ");
    out.append(to);
    out.append(" (");
    out.append(print(regions as u64).as_str());
    out.append(" regions, ");
    out.append(print(bytes as u64).as_str());
    out.append(" bytes)\n");
    out
}

pub const ALIAS_LINE_0: &'static str = "\n  SCAFFOLDING. tools/tail.rs, tools/mics.rs and tools/melody.rs still join \
    Salamander's filename to their data directory.\n  Delete this the moment those three \
    call adapter::instrument_path (DECISIONS.md 521).\n";

/// What is said of the alias.
pub open spec fn alias_line_text(alias: Seq<char>, name: Seq<char>) -> Seq<char> {
    "\nlegacy alias: "@
        + alias
        + " -> "@
        + name
        + ALIAS_LINE_0@
}

/// What is said of the alias.
pub fn alias_line(alias: &str, name: &str) -> (text: String)
    ensures
        text@ == alias_line_text(alias@, name@),
{
    let mut out = String::from_str("\nlegacy alias: ");
    out.append(alias);
    out.append(" -> ");
    out.append(name);
    out.append(ALIAS_LINE_0);
    out
}

/// The head of the caveats.
pub const CAVEATS: &'static str = "\ncaveats carried into the generated file — read them before trusting a stage:\n";

/// A caveat, by its first sentence.
pub open spec fn caveat_line_text(number: u64, caveat: Seq<char>) -> Seq<char> {
    "  "@
        + decimal(number as nat)
        + ". "@
        + first_sentence_of(caveat)
        + "\n"@
}

/// A caveat, by its first sentence.
pub fn caveat_line(number: u64, caveat: &str) -> (text: String)
    ensures
        text@ == caveat_line_text(number, caveat@),
{
    let mut out = String::from_str("  ");
    out.append(print(number).as_str());
    out.append(". ");
    out.append(first_sentence(caveat).as_str());
    out.append("\n");
    out
}

/// The caveats from the first to the `n`-th, numbered.
pub open spec fn caveat_lines_text(caveats: Seq<Seq<char>>) -> Seq<char>
    decreases caveats.len(),
{
    if caveats.len() == 0 {
        Seq::empty()
    } else {
        caveat_lines_text(caveats.drop_last()) + caveat_line_text(
            caveats.len() as u64,
            caveats.last(),
        )
    }
}

/// The caveats: none, where there are none.
pub open spec fn caveats_text(caveats: Seq<Seq<char>>) -> Seq<char> {
    if caveats.len() == 0 {
        Seq::empty()
    } else {
        CAVEATS@ + caveat_lines_text(caveats)
    }
}

/// The caveats.
pub fn caveats(list: &Vec<String>) -> (text: String)
    ensures
        text@ == caveats_text(views(list@)),
{
    if list.len() == 0 {
        return String::new();
    }
    let ghost all = views(list@);
    let mut lines = String::new();
    let mut i: usize = 0;
    proof {
        assert(all.take(0) =~= Seq::<Seq<char>>::empty());
    }
    while i < list.len()
        invariant
            i <= list.len(),
            all == views(list@),
            lines@ == caveat_lines_text(all.take(i as int)),
        decreases list.len() - i,
    {
        proof {
            assert(all.take(i + 1).drop_last() =~= all.take(i as int));
            assert(all.take(i + 1).last() == list@[i as int]@);
        }
        lines.append(caveat_line(i as u64 + 1, list[i].as_str()).as_str());
        i = i + 1;
    }
    proof {
        assert(all.take(i as int) =~= all);
    }
    let mut out = String::from_str(CAVEATS);
    out.append(lines.as_str());
    out
}

/// Where a library's map comes from.
pub open spec fn map_text(l: Library) -> Seq<char> {
    match l.shipped {
        Some(name) => "ships "@ + name@,
        None => "generated here"@,
    }
}

/// Where a library's map comes from.
pub fn map_words(l: &Library) -> (text: String)
    ensures
        text@ == map_text(*l),
{
    match &l.shipped {
        Some(name) => {
            let mut out = String::from_str("ships ");
            out.append(name.as_str());
            out
        },
        None => String::from_str("generated here"),
    }
}

/// Whether a library is delivered as it was published.
pub open spec fn rate_text(l: Library) -> Seq<char> {
    if l.native {
        " native"@
    } else {
        " (resampled at fetch)"@
    }
}

/// Whether a library is delivered as it was published.
pub fn rate_words(l: &Library) -> (r: &'static str)
    ensures
        r@ == rate_text(*l),
{
    if l.native {
        " native"
    } else {
        " (resampled at fetch)"
    }
}

/// A library of the catalogue.
pub open spec fn catalogue_entry_text(l: Library) -> Seq<char> {
    "  "@
        + l.id@
        + "\n    "@
        + l.instrument@
        + "\n    "@
        + l.licence@
        + "\n    "@
        + decimal(l.keys as nat)
        + " keys x "@
        + decimal(l.layers as nat)
        + " layers, "@
        + decimal(l.delivered_rate as nat)
        + " Hz"@
        + rate_text(l)
        + ", map: "@
        + map_text(l)
        + "\n"@
}

/// A library of the catalogue.
pub fn catalogue_entry(l: &Library) -> (text: String)
    ensures
        text@ == catalogue_entry_text(*l),
{
    let mut out = String::from_str("  ");
    out.append(l.id.as_str());
    out.append("\n    ");
    out.append(l.instrument.as_str());
    out.append("\n    ");
    out.append(l.licence.as_str());
    out.append("\n    ");
    out.append(print(l.keys as u64).as_str());
    out.append(" keys x ");
    out.append(print(l.layers as u64).as_str());
    out.append(" layers, ");
    out.append(print(l.delivered_rate as u64).as_str());
    out.append(" Hz");
    out.append(rate_words(l));
    out.append(", map: ");
    out.append(map_words(l).as_str());
    out.append("\n");
    out
}

/// The libraries of the catalogue.
pub open spec fn catalogue_entries_text(rows: Seq<Library>) -> Seq<char>
    decreases rows.len(),
{
    if rows.len() == 0 {
        Seq::empty()
    } else {
        catalogue_entries_text(rows.drop_last()) + catalogue_entry_text(rows.last())
    }
}

/// The libraries of the catalogue.
pub fn catalogue_entries(rows: &Vec<Library>) -> (text: String)
    ensures
        text@ == catalogue_entries_text(rows@),
{
    let mut out = String::new();
    let mut i: usize = 0;
    proof {
        assert(rows@.take(0) =~= Seq::<Library>::empty());
    }
    while i < rows.len()
        invariant
            i <= rows.len(),
            out@ == catalogue_entries_text(rows@.take(i as int)),
        decreases rows.len() - i,
    {
        proof {
            assert(rows@.take(i + 1).drop_last() =~= rows@.take(i as int));
        }
        out.append(catalogue_entry(&rows[i]).as_str());
        i = i + 1;
    }
    proof {
        assert(rows@.take(i as int) =~= rows@);
    }
    out
}

pub const CATALOGUE_HEAD: &'static str = "libraries this repository has a description for:\n\n";

pub const CATALOGUE_USAGE: &'static str = "\nusage: piano-tuner adapt <id> --root <dir> [--out <file.sfz>] [--resample] \
    [--legacy-alias]\n";

/// The catalogue.
pub open spec fn catalogue_text(all: Seq<Library>) -> Seq<char> {
    CATALOGUE_HEAD@
        + catalogue_entries_text(all)
        + CATALOGUE_USAGE@
}

/// The catalogue.
pub fn catalogue(all: &Vec<Library>) -> (text: String)
    ensures
        text@ == catalogue_text(all@),
{
    let mut out = String::from_str(CATALOGUE_HEAD);
    out.append(catalogue_entries(all).as_str());
    out.append(CATALOGUE_USAGE);
    out
}

/// The `missing_lines` are printed one after another, in their order.
pub proof fn the_missing_lines_follow_each_other(a: Seq<String>, b: Seq<String>)
    ensures
        missing_lines_text(a + b) == missing_lines_text(a) + missing_lines_text(b),
        a.len() == 1 ==> missing_lines_text(a) == missing_line_text(a[0]),
        missing_lines_text(Seq::<String>::empty()).len() == 0,
    decreases b.len(),
{
    if a.len() == 1 {
        assert(a.drop_last() =~= Seq::<String>::empty());
        assert(missing_lines_text(a.drop_last()) =~= Seq::<char>::empty());
        assert(missing_lines_text(a) =~= missing_line_text(a[0]));
    }
    if b.len() == 0 {
        assert(a + b =~= a);
        assert(missing_lines_text(a) + missing_lines_text(b) =~= missing_lines_text(a));
    } else {
        the_missing_lines_follow_each_other(a, b.drop_last());
        assert((a + b).drop_last() =~= a + b.drop_last());
        assert((a + b).last() == b.last());
        assert(missing_lines_text(a) + missing_lines_text(b.drop_last()) + missing_line_text(b.last()) =~= missing_lines_text(a) + (missing_lines_text(
            b.drop_last(),
        ) + missing_line_text(b.last())));
    }
}

/// The `catalogue_entries` are printed one after another, in their order.
pub proof fn the_catalogue_entries_follow_each_other(a: Seq<Library>, b: Seq<Library>)
    ensures
        catalogue_entries_text(a + b) == catalogue_entries_text(a) + catalogue_entries_text(b),
        a.len() == 1 ==> catalogue_entries_text(a) == catalogue_entry_text(a[0]),
        catalogue_entries_text(Seq::<Library>::empty()).len() == 0,
    decreases b.len(),
{
    if a.len() == 1 {
        assert(a.drop_last() =~= Seq::<Library>::empty());
        assert(catalogue_entries_text(a.drop_last()) =~= Seq::<char>::empty());
        assert(catalogue_entries_text(a) =~= catalogue_entry_text(a[0]));
    }
    if b.len() == 0 {
        assert(a + b =~= a);
        assert(catalogue_entries_text(a) + catalogue_entries_text(b) =~= catalogue_entries_text(a));
    } else {
        the_catalogue_entries_follow_each_other(a, b.drop_last());
        assert((a + b).drop_last() =~= a + b.drop_last());
        assert((a + b).last() == b.last());
        assert(catalogue_entries_text(a) + catalogue_entries_text(b.drop_last()) + catalogue_entry_text(b.last()) =~= catalogue_entries_text(a) + (catalogue_entries_text(
            b.drop_last(),
        ) + catalogue_entry_text(b.last())));
    }
}

/// Each number of `heading` stands in its place among the words.
#[verifier::rlimit(30)]
pub proof fn the_words_of_heading_stand_in_order(l: Library, root: Seq<char>)
    requires
        is_word(l.id@),
        is_word(l.instrument@),
        is_word(l.credit@),
        is_word(l.licence@),
        is_word(l.source@),
        is_word(root),
    ensures
        words_of(heading_text(l, root)).len() == 10,
        words_of(heading_text(l, root))[0] == l.id@ + ":"@,
        words_of(heading_text(l, root))[1] == l.instrument@,
        words_of(heading_text(l, root))[3] == l.credit@,
        words_of(heading_text(l, root))[5] == l.licence@,
        words_of(heading_text(l, root))[7] == l.source@,
        words_of(heading_text(l, root))[9] == root,
{
    reveal_strlit(": ");
    reveal_strlit(":");
    reveal_strlit(" ");
    reveal_strlit("\n  credit  ");
    reveal_strlit("\n  ");
    reveal_strlit("credit");
    reveal_strlit("  ");
    reveal_strlit("\n  licence ");
    reveal_strlit("licence");
    reveal_strlit("\n  source  ");
    reveal_strlit("source");
    reveal_strlit("\n  root    ");
    reveal_strlit("root");
    reveal_strlit("    ");
    reveal_strlit("\n");
    a_word_begins(Seq::<char>::empty(), l.id@);
    let p0 = l.id@;
    assert(Seq::<char>::empty() + l.id@ =~= p0);
    a_word_goes_on(p0, ":"@);
    a_gap_adds_nothing(p0 + ":"@, " "@);
    let p1 = p0 + ": "@;
    assert(p1 =~= p0 + ":"@ + " "@);
    a_word_begins(p1, l.instrument@);
    let p2 = p1 + l.instrument@;
    a_gap_adds_nothing(p2, "\n  "@);
    a_word_begins(p2 + "\n  "@, "credit"@);
    a_gap_adds_nothing(p2 + "\n  "@ + "credit"@, "  "@);
    let p3 = p2 + "\n  credit  "@;
    assert(p3 =~= p2 + "\n  "@ + "credit"@ + "  "@);
    a_word_begins(p3, l.credit@);
    let p4 = p3 + l.credit@;
    a_gap_adds_nothing(p4, "\n  "@);
    a_word_begins(p4 + "\n  "@, "licence"@);
    a_gap_adds_nothing(p4 + "\n  "@ + "licence"@, " "@);
    let p5 = p4 + "\n  licence "@;
    assert(p5 =~= p4 + "\n  "@ + "licence"@ + " "@);
    a_word_begins(p5, l.licence@);
    let p6 = p5 + l.licence@;
    a_gap_adds_nothing(p6, "\n  "@);
    a_word_begins(p6 + "\n  "@, "source"@);
    a_gap_adds_nothing(p6 + "\n  "@ + "source"@, "  "@);
    let p7 = p6 + "\n  source  "@;
    assert(p7 =~= p6 + "\n  "@ + "source"@ + "  "@);
    a_word_begins(p7, l.source@);
    let p8 = p7 + l.source@;
    a_gap_adds_nothing(p8, "\n  "@);
    a_word_begins(p8 + "\n  "@, "root"@);
    a_gap_adds_nothing(p8 + "\n  "@ + "root"@, "    "@);
    let p9 = p8 + "\n  root    "@;
    assert(p9 =~= p8 + "\n  "@ + "root"@ + "    "@);
    a_word_begins(p9, root);
    let p10 = p9 + root;
    a_gap_adds_nothing(p10, "\n"@);
    let p11 = p10 + "\n"@;
    assert(heading_text(l, root) == p11);
}

/// Each number of `resampling` stands in its place among the words.
#[verifier::rlimit(30)]
pub proof fn the_words_of_resampling_stand_in_order(from: u32, to: u32)
    ensures
        words_of(resampling_text(from, to)).len() == 12,
        words_of(resampling_text(from, to))[1] == decimal(from as nat),
        words_of(resampling_text(from, to))[4] == decimal(to as nat),
{
    reveal_strlit("\nresampling ");
    reveal_strlit("\n");
    reveal_strlit("resampling");
    reveal_strlit(" ");
    reveal_strlit(" Hz -> ");
    reveal_strlit("Hz");
    reveal_strlit("->");
    reveal_strlit(" Hz (audio::resample, band-limited sinc, float WAV out)\n");
    reveal_strlit("(audio::resample,");
    reveal_strlit("band-limited");
    reveal_strlit("sinc,");
    reveal_strlit("float");
    reveal_strlit("WAV");
    reveal_strlit("out)");
    a_number_is_a_word(from as nat);
    a_number_is_a_word(to as nat);
    let p0 = "\nresampling "@;
    a_gap_adds_nothing(Seq::<char>::empty(), "\n"@);
    a_word_begins(Seq::<char>::empty() + "\n"@, "resampling"@);
    a_gap_adds_nothing(Seq::<char>::empty() + "\n"@ + "resampling"@, " "@);
    assert(p0 =~= Seq::<char>::empty() + "\n"@ + "resampling"@ + " "@);
    a_word_begins(p0, decimal(from as nat));
    let p1 = p0 + decimal(from as nat);
    a_gap_adds_nothing(p1, " "@);
    a_word_begins(p1 + " "@, "Hz"@);
    a_gap_adds_nothing(p1 + " "@ + "Hz"@, " "@);
    a_word_begins(p1 + " "@ + "Hz"@ + " "@, "->"@);
    a_gap_adds_nothing(p1 + " "@ + "Hz"@ + " "@ + "->"@, " "@);
    let p2 = p1 + " Hz -> "@;
    assert(p2 =~= p1 + " "@ + "Hz"@ + " "@ + "->"@ + " "@);
    a_word_begins(p2, decimal(to as nat));
    let p3 = p2 + decimal(to as nat);
    a_gap_adds_nothing(p3, " "@);
    a_word_begins(p3 + " "@, "Hz"@);
    a_gap_adds_nothing(p3 + " "@ + "Hz"@, " "@);
    a_word_begins(p3 + " "@ + "Hz"@ + " "@, "(audio::resample,"@);
    a_gap_adds_nothing(p3 + " "@ + "Hz"@ + " "@ + "(audio::resample,"@, " "@);
    a_word_begins(p3 + " "@ + "Hz"@ + " "@ + "(audio::resample,"@ + " "@, "band-limited"@);
    a_gap_adds_nothing(p3 + " "@ + "Hz"@ + " "@ + "(audio::resample,"@ + " "@ + "band-limited"@, " "@);
    a_word_begins(p3 + " "@ + "Hz"@ + " "@ + "(audio::resample,"@ + " "@ + "band-limited"@ + " "@, "sinc,"@);
    a_gap_adds_nothing(p3 + " "@ + "Hz"@ + " "@ + "(audio::resample,"@ + " "@ + "band-limited"@ + " "@ + "sinc,"@, " "@);
    a_word_begins(p3 + " "@ + "Hz"@ + " "@ + "(audio::resample,"@ + " "@ + "band-limited"@ + " "@ + "sinc,"@ + " "@, "float"@);
    a_gap_adds_nothing(p3 + " "@ + "Hz"@ + " "@ + "(audio::resample,"@ + " "@ + "band-limited"@ + " "@ + "sinc,"@ + " "@ + "float"@, " "@);
    a_word_begins(p3 + " "@ + "Hz"@ + " "@ + "(audio::resample,"@ + " "@ + "band-limited"@ + " "@ + "sinc,"@ + " "@ + "float"@ + " "@, "WAV"@);
    a_gap_adds_nothing(p3 + " "@ + "Hz"@ + " "@ + "(audio::resample,"@ + " "@ + "band-limited"@ + " "@ + "sinc,"@ + " "@ + "float"@ + " "@ + "WAV"@, " "@);
    a_word_begins(p3 + " "@ + "Hz"@ + " "@ + "(audio::resample,"@ + " "@ + "band-limited"@ + " "@ + "sinc,"@ + " "@ + "float"@ + " "@ + "WAV"@ + " "@, "out)"@);
    a_gap_adds_nothing(p3 + " "@ + "Hz"@ + " "@ + "(audio::resample,"@ + " "@ + "band-limited"@ + " "@ + "sinc,"@ + " "@ + "float"@ + " "@ + "WAV"@ + " "@ + "out)"@, "\n"@);
    let p4 = p3 + RESAMPLING_0@;
    assert(p4 =~= p3 + " "@ + "Hz"@ + " "@ + "(audio::resample,"@ + " "@ + "band-limited"@ + " "@ + "sinc,"@ + " "@ + "float"@ + " "@ + "WAV"@ + " "@ + "out)"@ + "\n"@);
    assert(resampling_text(from, to) == p4);
}

/// Each number of `converted` stands in its place among the words.
#[verifier::rlimit(30)]
pub proof fn the_words_of_converted_stand_in_order(done: usize, path: Seq<char>)
    requires
        is_word(path),
    ensures
        words_of(converted_text(done, path)).len() == 2,
        words_of(converted_text(done, path))[0] == decimal(done as nat),
        words_of(converted_text(done, path))[1] == path,
{
    reveal_strlit("  ");
    reveal_strlit("\n");
    a_number_is_a_word(done as nat);
    let p0 = "  "@;
    a_gap_adds_nothing(Seq::<char>::empty(), "  "@);
    assert(p0 =~= Seq::<char>::empty() + "  "@);
    a_right_word_begins(p0, decimal(done as nat), 4);
    let p1 = p0 + right_in(decimal(done as nat), 4);
    a_gap_adds_nothing(p1, "  "@);
    let p2 = p1 + "  "@;
    a_word_begins(p2, path);
    let p3 = p2 + path;
    a_gap_adds_nothing(p3, "\n"@);
    let p4 = p3 + "\n"@;
    assert(converted_text(done, path) == p4);
}

/// Each number of `resampled` stands in its place among the words.
#[verifier::rlimit(30)]
pub proof fn the_words_of_resampled_stand_in_order(converted: usize, skipped: usize)
    ensures
        words_of(resampled_text(converted, skipped)).len() == 6,
        words_of(resampled_text(converted, skipped))[0] == decimal(converted as nat),
        words_of(resampled_text(converted, skipped))[2] == decimal(skipped as nat),
{
    reveal_strlit("  ");
    reveal_strlit(" converted, ");
    reveal_strlit(" ");
    reveal_strlit("converted,");
    reveal_strlit(" already in place\n");
    reveal_strlit("already");
    reveal_strlit("in");
    reveal_strlit("place");
    reveal_strlit("\n");
    a_number_is_a_word(converted as nat);
    a_number_is_a_word(skipped as nat);
    let p0 = "  "@;
    a_gap_adds_nothing(Seq::<char>::empty(), "  "@);
    assert(p0 =~= Seq::<char>::empty() + "  "@);
    a_word_begins(p0, decimal(converted as nat));
    let p1 = p0 + decimal(converted as nat);
    a_gap_adds_nothing(p1, " "@);
    a_word_begins(p1 + " "@, "converted,"@);
    a_gap_adds_nothing(p1 + " "@ + "converted,"@, " "@);
    let p2 = p1 + " converted, "@;
    assert(p2 =~= p1 + " "@ + "converted,"@ + " "@);
    a_word_begins(p2, decimal(skipped as nat));
    let p3 = p2 + decimal(skipped as nat);
    a_gap_adds_nothing(p3, " "@);
    a_word_begins(p3 + " "@, "already"@);
    a_gap_adds_nothing(p3 + " "@ + "already"@, " "@);
    a_word_begins(p3 + " "@ + "already"@ + " "@, "in"@);
    a_gap_adds_nothing(p3 + " "@ + "already"@ + " "@ + "in"@, " "@);
    a_word_begins(p3 + " "@ + "already"@ + " "@ + "in"@ + " "@, "place"@);
    a_gap_adds_nothing(p3 + " "@ + "already"@ + " "@ + "in"@ + " "@ + "place"@, "\n"@);
    let p4 = p3 + " already in place\n"@;
    assert(p4 =~= p3 + " "@ + "already"@ + " "@ + "in"@ + " "@ + "place"@ + "\n"@);
    assert(resampled_text(converted, skipped) == p4);
}

/// Each number of `scanned` stands in its place among the words.
#[verifier::rlimit(30)]
pub proof fn the_words_of_scanned_stand_in_order(s: Scan)
    ensures
        words_of(scanned_text(s)).len() == 14,
        words_of(scanned_text(s))[1] == decimal(s.present as nat),
        words_of(scanned_text(s))[3] == decimal(s.expected as nat),
        words_of(scanned_text(s))[9] == decimal(s.keys as nat),
        words_of(scanned_text(s))[12] == decimal(s.layers as nat),
{
    reveal_strlit("\nscanned: ");
    reveal_strlit("\n");
    reveal_strlit("scanned:");
    reveal_strlit(" ");
    reveal_strlit(" of ");
    reveal_strlit("of");
    reveal_strlit(" expected note recordings present, over ");
    reveal_strlit("expected");
    reveal_strlit("note");
    reveal_strlit("recordings");
    reveal_strlit("present,");
    reveal_strlit("over");
    reveal_strlit(" keys x ");
    reveal_strlit("keys");
    reveal_strlit("x");
    reveal_strlit(" layers\n");
    reveal_strlit("layers");
    a_number_is_a_word(s.present as nat);
    a_number_is_a_word(s.expected as nat);
    a_number_is_a_word(s.keys as nat);
    a_number_is_a_word(s.layers as nat);
    let p0 = "\nscanned: "@;
    a_gap_adds_nothing(Seq::<char>::empty(), "\n"@);
    a_word_begins(Seq::<char>::empty() + "\n"@, "scanned:"@);
    a_gap_adds_nothing(Seq::<char>::empty() + "\n"@ + "scanned:"@, " "@);
    assert(p0 =~= Seq::<char>::empty() + "\n"@ + "scanned:"@ + " "@);
    a_word_begins(p0, decimal(s.present as nat));
    let p1 = p0 + decimal(s.present as nat);
    a_gap_adds_nothing(p1, " "@);
    a_word_begins(p1 + " "@, "of"@);
    a_gap_adds_nothing(p1 + " "@ + "of"@, " "@);
    let p2 = p1 + " of "@;
    assert(p2 =~= p1 + " "@ + "of"@ + " "@);
    a_word_begins(p2, decimal(s.expected as nat));
    let p3 = p2 + decimal(s.expected as nat);
    a_gap_adds_nothing(p3, " "@);
    a_word_begins(p3 + " "@, "expected"@);
    a_gap_adds_nothing(p3 + " "@ + "expected"@, " "@);
    a_word_begins(p3 + " "@ + "expected"@ + " "@, "note"@);
    a_gap_adds_nothing(p3 + " "@ + "expected"@ + " "@ + "note"@, " "@);
    a_word_begins(p3 + " "@ + "expected"@ + " "@ + "note"@ + " "@, "recordings"@);
    a_gap_adds_nothing(p3 + " "@ + "expected"@ + " "@ + "note"@ + " "@ + "recordings"@, " "@);
    a_word_begins(p3 + " "@ + "expected"@ + " "@ + "note"@ + " "@ + "recordings"@ + " "@, "present,"@);
    a_gap_adds_nothing(p3 + " "@ + "expected"@ + " "@ + "note"@ + " "@ + "recordings"@ + " "@ + "present,"@, " "@);
    a_word_begins(p3 + " "@ + "expected"@ + " "@ + "note"@ + " "@ + "recordings"@ + " "@ + "present,"@ + " "@, "over"@);
    a_gap_adds_nothing(p3 + " "@ + "expected"@ + " "@ + "note"@ + " "@ + "recordings"@ + " "@ + "present,"@ + " "@ + "over"@, " "@);
    let p4 = p3 + " expected note recordings present, over "@;
    assert(p4 =~= p3 + " "@ + "expected"@ + " "@ + "note"@ + " "@ + "recordings"@ + " "@ + "present,"@ + " "@ + "over"@ + " "@);
    a_word_begins(p4, decimal(s.keys as nat));
    let p5 = p4 + decimal(s.keys as nat);
    a_gap_adds_nothing(p5, " "@);
    a_word_begins(p5 + " "@, "keys"@);
    a_gap_adds_nothing(p5 + " "@ + "keys"@, " "@);
    a_word_begins(p5 + " "@ + "keys"@ + " "@, "x"@);
    a_gap_adds_nothing(p5 + " "@ + "keys"@ + " "@ + "x"@, " "@);
    let p6 = p5 + " keys x "@;
    assert(p6 =~= p5 + " "@ + "keys"@ + " "@ + "x"@ + " "@);
    a_word_begins(p6, decimal(s.layers as nat));
    let p7 = p6 + decimal(s.layers as nat);
    a_gap_adds_nothing(p7, " "@);
    a_word_begins(p7 + " "@, "layers"@);
    a_gap_adds_nothing(p7 + " "@ + "layers"@, "\n"@);
    let p8 = p7 + " layers\n"@;
    assert(p8 =~= p7 + " "@ + "layers"@ + "\n"@);
    assert(scanned_text(s) == p8);
}

/// Each number of `mechanism_line` stands in its place among the words.
#[verifier::rlimit(30)]
pub proof fn the_words_of_mechanism_line_stand_in_order(s: Scan)
    ensures
        words_of(mechanism_line_text(s)).len() == 5,
        words_of(mechanism_line_text(s))[1] == decimal(s.mechanism_present as nat),
        words_of(mechanism_line_text(s))[3] == decimal(s.mechanism as nat),
{
    reveal_strlit("  mechanism: ");
    reveal_strlit("  ");
    reveal_strlit("mechanism:");
    reveal_strlit(" ");
    reveal_strlit(" of ");
    reveal_strlit("of");
    reveal_strlit(" present\n");
    reveal_strlit("present");
    reveal_strlit("\n");
    a_number_is_a_word(s.mechanism_present as nat);
    a_number_is_a_word(s.mechanism as nat);
    let p0 = "  mechanism: "@;
    a_gap_adds_nothing(Seq::<char>::empty(), "  "@);
    a_word_begins(Seq::<char>::empty() + "  "@, "mechanism:"@);
    a_gap_adds_nothing(Seq::<char>::empty() + "  "@ + "mechanism:"@, " "@);
    assert(p0 =~= Seq::<char>::empty() + "  "@ + "mechanism:"@ + " "@);
    a_word_begins(p0, decimal(s.mechanism_present as nat));
    let p1 = p0 + decimal(s.mechanism_present as nat);
    a_gap_adds_nothing(p1, " "@);
    a_word_begins(p1 + " "@, "of"@);
    a_gap_adds_nothing(p1 + " "@ + "of"@, " "@);
    let p2 = p1 + " of "@;
    assert(p2 =~= p1 + " "@ + "of"@ + " "@);
    a_word_begins(p2, decimal(s.mechanism as nat));
    let p3 = p2 + decimal(s.mechanism as nat);
    a_gap_adds_nothing(p3, " "@);
    a_word_begins(p3 + " "@, "present"@);
    a_gap_adds_nothing(p3 + " "@ + "present"@, "\n"@);
    let p4 = p3 + " present\n"@;
    assert(p4 =~= p3 + " "@ + "present"@ + "\n"@);
    assert(mechanism_line_text(s) == p4);
}

/// Each number of `wrote` stands in its place among the words.
#[verifier::rlimit(30)]
pub proof fn the_words_of_wrote_stand_in_order(to: Seq<char>, regions: usize, bytes: usize)
    requires
        is_word(to),
    ensures
        words_of(wrote_text(to, regions, bytes)).len() == 6,
        words_of(wrote_text(to, regions, bytes))[1] == to,
        words_of(wrote_text(to, regions, bytes))[2] == "("@ + decimal(regions as nat),
        words_of(wrote_text(to, regions, bytes))[4] == decimal(bytes as nat),
{
    reveal_strlit("\nwrote ");
    reveal_strlit("\n");
    reveal_strlit("wrote");
    reveal_strlit(" ");
    reveal_strlit(" (");
    reveal_strlit("(");
    reveal_strlit(" regions, ");
    reveal_strlit("regions,");
    reveal_strlit(" bytes)\n");
    reveal_strlit("bytes)");
    a_number_is_a_word(regions as nat);
    a_number_is_a_word(bytes as nat);
    let p0 = "\nwrote "@;
    a_gap_adds_nothing(Seq::<char>::empty(), "\n"@);
    a_word_begins(Seq::<char>::empty() + "\n"@, "wrote"@);
    a_gap_adds_nothing(Seq::<char>::empty() + "\n"@ + "wrote"@, " "@);
    assert(p0 =~= Seq::<char>::empty() + "\n"@ + "wrote"@ + " "@);
    a_word_begins(p0, to);
    let p1 = p0 + to;
    a_gap_adds_nothing(p1, " "@);
    a_word_begins(p1 + " "@, "("@);
    let p2 = p1 + " ("@;
    assert(p2 =~= p1 + " "@ + "("@);
    a_word_goes_on(p2, decimal(regions as nat));
    let p3 = p2 + decimal(regions as nat);
    a_gap_adds_nothing(p3, " "@);
    a_word_begins(p3 + " "@, "regions,"@);
    a_gap_adds_nothing(p3 + " "@ + "regions,"@, " "@);
    let p4 = p3 + " regions, "@;
    assert(p4 =~= p3 + " "@ + "regions,"@ + " "@);
    a_word_begins(p4, decimal(bytes as nat));
    let p5 = p4 + decimal(bytes as nat);
    a_gap_adds_nothing(p5, " "@);
    a_word_begins(p5 + " "@, "bytes)"@);
    a_gap_adds_nothing(p5 + " "@ + "bytes)"@, "\n"@);
    let p6 = p5 + " bytes)\n"@;
    assert(p6 =~= p5 + " "@ + "bytes)"@ + "\n"@);
    assert(wrote_text(to, regions, bytes) == p6);
}

/// Each number of `caveat_line` stands in its place among the words.
#[verifier::rlimit(30)]
pub proof fn the_words_of_caveat_line_stand_in_order(number: u64, caveat: Seq<char>)
    requires
        is_word(first_sentence_of(caveat)),
    ensures
        words_of(caveat_line_text(number, caveat)).len() == 2,
        words_of(caveat_line_text(number, caveat))[0] == decimal(number as nat) + "."@,
        words_of(caveat_line_text(number, caveat))[1] == first_sentence_of(caveat),
{
    reveal_strlit("  ");
    reveal_strlit(". ");
    reveal_strlit(".");
    reveal_strlit(" ");
    reveal_strlit("\n");
    a_number_is_a_word(number as nat);
    let p0 = "  "@;
    a_gap_adds_nothing(Seq::<char>::empty(), "  "@);
    assert(p0 =~= Seq::<char>::empty() + "  "@);
    a_word_begins(p0, decimal(number as nat));
    let p1 = p0 + decimal(number as nat);
    a_word_goes_on(p1, "."@);
    a_gap_adds_nothing(p1 + "."@, " "@);
    let p2 = p1 + ". "@;
    assert(p2 =~= p1 + "."@ + " "@);
    a_word_begins(p2, first_sentence_of(caveat));
    let p3 = p2 + first_sentence_of(caveat);
    a_gap_adds_nothing(p3, "\n"@);
    let p4 = p3 + "\n"@;
    assert(caveat_line_text(number, caveat) == p4);
}

/// Each number of `catalogue_entry` stands in its place among the words.
#[verifier::rlimit(30)]
pub proof fn the_words_of_catalogue_entry_stand_in_order(l: Library)
    requires
        is_word(l.id@),
        is_word(l.instrument@),
        is_word(l.licence@),
        is_word(rate_text(l)),
        is_word(map_text(l)),
    ensures
        words_of(catalogue_entry_text(l)).len() == 12,
        words_of(catalogue_entry_text(l))[0] == l.id@,
        words_of(catalogue_entry_text(l))[1] == l.instrument@,
        words_of(catalogue_entry_text(l))[2] == l.licence@,
        words_of(catalogue_entry_text(l))[3] == decimal(l.keys as nat),
        words_of(catalogue_entry_text(l))[6] == decimal(l.layers as nat),
        words_of(catalogue_entry_text(l))[8] == decimal(l.delivered_rate as nat),
        words_of(catalogue_entry_text(l))[9] == "Hz"@ + rate_text(l) + ","@,
        words_of(catalogue_entry_text(l))[11] == map_text(l),
{
    reveal_strlit("  ");
    reveal_strlit("\n    ");
    reveal_strlit(" keys x ");
    reveal_strlit(" ");
    reveal_strlit("keys");
    reveal_strlit("x");
    reveal_strlit(" layers, ");
    reveal_strlit("layers,");
    reveal_strlit(" Hz");
    reveal_strlit("Hz");
    reveal_strlit(", map: ");
    reveal_strlit(",");
    reveal_strlit("map:");
    reveal_strlit("\n");
    a_number_is_a_word(l.keys as nat);
    a_number_is_a_word(l.layers as nat);
    a_number_is_a_word(l.delivered_rate as nat);
    let p0 = "  "@;
    a_gap_adds_nothing(Seq::<char>::empty(), "  "@);
    assert(p0 =~= Seq::<char>::empty() + "  "@);
    a_word_begins(p0, l.id@);
    let p1 = p0 + l.id@;
    a_gap_adds_nothing(p1, "\n    "@);
    let p2 = p1 + "\n    "@;
    a_word_begins(p2, l.instrument@);
    let p3 = p2 + l.instrument@;
    a_gap_adds_nothing(p3, "\n    "@);
    let p4 = p3 + "\n    "@;
    a_word_begins(p4, l.licence@);
    let p5 = p4 + l.licence@;
    a_gap_adds_nothing(p5, "\n    "@);
    let p6 = p5 + "\n    "@;
    a_word_begins(p6, decimal(l.keys as nat));
    let p7 = p6 + decimal(l.keys as nat);
    a_gap_adds_nothing(p7, " "@);
    a_word_begins(p7 + " "@, "keys"@);
    a_gap_adds_nothing(p7 + " "@ + "keys"@, " "@);
    a_word_begins(p7 + " "@ + "keys"@ + " "@, "x"@);
    a_gap_adds_nothing(p7 + " "@ + "keys"@ + " "@ + "x"@, " "@);
    let p8 = p7 + " keys x "@;
    assert(p8 =~= p7 + " "@ + "keys"@ + " "@ + "x"@ + " "@);
    a_word_begins(p8, decimal(l.layers as nat));
    let p9 = p8 + decimal(l.layers as nat);
    a_gap_adds_nothing(p9, " "@);
    a_word_begins(p9 + " "@, "layers,"@);
    a_gap_adds_nothing(p9 + " "@ + "layers,"@, " "@);
    let p10 = p9 + " layers, "@;
    assert(p10 =~= p9 + " "@ + "layers,"@ + " "@);
    a_word_begins(p10, decimal(l.delivered_rate as nat));
    let p11 = p10 + decimal(l.delivered_rate as nat);
    a_gap_adds_nothing(p11, " "@);
    a_word_begins(p11 + " "@, "Hz"@);
    let p12 = p11 + " Hz"@;
    assert(p12 =~= p11 + " "@ + "Hz"@);
    a_word_goes_on(p12, rate_text(l));
    let p13 = p12 + rate_text(l);
    a_word_goes_on(p13, ","@);
    a_gap_adds_nothing(p13 + ","@, " "@);
    a_word_begins(p13 + ","@ + " "@, "map:"@);
    a_gap_adds_nothing(p13 + ","@ + " "@ + "map:"@, " "@);
    let p14 = p13 + ", map: "@;
    assert(p14 =~= p13 + ","@ + " "@ + "map:"@ + " "@);
    a_word_begins(p14, map_text(l));
    let p15 = p14 + map_text(l);
    a_gap_adds_nothing(p15, "\n"@);
    let p16 = p15 + "\n"@;
    assert(catalogue_entry_text(l) == p16);
}

} // verus!
