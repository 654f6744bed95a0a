//! The melody line, note by note: the command line, and what its flags do to
//! the preset before it is played.

pub mod console;
pub mod report;

use crate::args::{nth_or, or_default, positional, standing, Halt, Stop};
use crate::fit::tables::{rows_of, FalseBeat, ONE};
use crate::reading::Reading;
use crate::text::{decimal, parse_whole, print, same, views, whole};
use vstd::prelude::*;

verus! {

/// Where the library, the output and the preset are.
pub struct Paths {
    pub data: String,
    pub out: String,
    pub preset: String,
}

/// The flags that take a value.
pub open spec fn value_flags_of() -> Seq<Seq<char>> {
    seq!["--clear-key"@, "--clear-low"@, "--clear-decay"@]
}

fn value_flags() -> (r: Vec<String>)
    ensures
        views(r@) == value_flags_of(),
{
    let mut r: Vec<String> = Vec::new();
    r.push(String::from_str("--clear-key"));
    r.push(String::from_str("--clear-low"));
    r.push(String::from_str("--clear-decay"));
    proof {
        assert(views(r@) =~= value_flags_of());
    }
    r
}

/// Where the library, the output and the preset are: the arguments that are
/// neither flags nor the value of one, in that order.
pub fn paths(args: &Vec<String>) -> (r: Paths)
    ensures
        r.data@ == or_default(standing(views(args@), 0, value_flags_of()), 0, "data/salamander"@),
        r.out@ == or_default(standing(views(args@), 0, value_flags_of()), 1, "renders/melody"@),
        r.preset@ == or_default(
            standing(views(args@), 0, value_flags_of()),
            2,
            "presets/salamander-c5.toml"@,
        ),
{
    let plain = positional(args, &value_flags());
    Paths {
        data: nth_or(&plain, 0, "data/salamander"),
        out: nth_or(&plain, 1, "renders/melody"),
        preset: nth_or(&plain, 2, "presets/salamander-c5.toml"),
    }
}

/// What a flag does to the preset.
#[derive(Clone, Copy, Debug, PartialEq, Eq, Structural)]
pub enum Edit {
    /// The drawn gains and splits go, and the list that names them.
    Before,
    NoDrawnSplits,
    NoDrawnGains,
    NoSplits,
    NoDrawnDecay,
    ClearKey(u8),
    /// The drawn decay rows' cells of low partials go back to one.
    NoDrawnLow,
    ClearLow(u8),
    /// The strike noise goes back to an earlier fit.
    BeforeNoise,
    /// The strike noise is silenced.
    NoStrike,
    ClearDecay(u8),
}

/// A flag that names a key.
pub open spec fn keyed(arg: Seq<char>) -> bool {
    arg == "--clear-key"@ || arg == "--clear-low"@ || arg == "--clear-decay"@
}

/// What an argument asks for; `next` is the argument after it.
pub open spec fn edit_of(arg: Seq<char>, next: Option<Seq<char>>) -> Result<Option<Edit>, Halt> {
    if arg == "--before"@ {
        Ok(Some(Edit::Before))
    } else if arg == "--no-drawn-splits"@ {
        Ok(Some(Edit::NoDrawnSplits))
    } else if arg == "--no-drawn-gains"@ {
        Ok(Some(Edit::NoDrawnGains))
    } else if arg == "--no-splits"@ {
        Ok(Some(Edit::NoSplits))
    } else if arg == "--no-drawn-decay"@ {
        Ok(Some(Edit::NoDrawnDecay))
    } else if arg == "--no-drawn-low"@ {
        Ok(Some(Edit::NoDrawnLow))
    } else if arg == "--before-noise"@ {
        Ok(Some(Edit::BeforeNoise))
    } else if arg == "--no-strike"@ {
        Ok(Some(Edit::NoStrike))
    } else if keyed(arg) {
        match next {
            None => Err(Halt::Panic("a key must follow "@ + arg)),
            Some(text) => match whole(text, 255) {
                Err(e) => Err(Halt::Error(e.says())),
                Ok(n) => Ok(
                    Some(
                        if arg == "--clear-key"@ {
                            Edit::ClearKey(n as u8)
                        } else if arg == "--clear-low"@ {
                            Edit::ClearLow(n as u8)
                        } else {
                            Edit::ClearDecay(n as u8)
                        },
                    ),
                ),
            },
        }
    } else {
        Ok(None)
    }
}

/// What the arguments from `i` on ask for, after `so_far`.
pub open spec fn edits_from(args: Seq<Seq<char>>, i: int, so_far: Seq<Edit>) -> Result<Seq<Edit>, Halt>
    decreases args.len() - i,
{
    if i < 0 || i >= args.len() {
        Ok(so_far)
    } else {
        match edit_of(
            args[i],
            if i + 1 < args.len() {
                Some(args[i + 1])
            } else {
                None
            },
        ) {
            Err(h) => Err(h),
            Ok(None) => edits_from(args, i + 1, so_far),
            Ok(Some(e)) => edits_from(args, i + 1, so_far.push(e)),
        }
    }
}

fn read_edit(arg: &str, next: Option<&String>) -> (r: Result<Option<Edit>, Stop>)
    ensures
        match r {
            Ok(e) => edit_of(
                arg@,
                match next {
                    None => None,
                    Some(s) => Some(s@),
                },
            ) == Ok::<Option<Edit>, Halt>(e),
            Err(s) => edit_of(
                arg@,
                match next {
                    None => None,
                    Some(s) => Some(s@),
                },
            ) == Err::<Option<Edit>, Halt>(s@),
        },
{
    if same(arg, "--before") {
        return Ok(Some(Edit::Before));
    }
    if same(arg, "--no-drawn-splits") {
        return Ok(Some(Edit::NoDrawnSplits));
    }
    if same(arg, "--no-drawn-gains") {
        return Ok(Some(Edit::NoDrawnGains));
    }
    if same(arg, "--no-splits") {
        return Ok(Some(Edit::NoSplits));
    }
    if same(arg, "--no-drawn-decay") {
        return Ok(Some(Edit::NoDrawnDecay));
    }
    if same(arg, "--no-drawn-low") {
        return Ok(Some(Edit::NoDrawnLow));
    }
    if same(arg, "--before-noise") {
        return Ok(Some(Edit::BeforeNoise));
    }
    if same(arg, "--no-strike") {
        return Ok(Some(Edit::NoStrike));
    }
    let key = same(arg, "--clear-key");
    let low = same(arg, "--clear-low");
    let decay = same(arg, "--clear-decay");
    if !(key || low || decay) {
        return Ok(None);
    }
    match next {
        None => {
            let mut text = String::from_str("a key must follow ");
            text.append(arg);
            Err(Stop::Panic(text))
        },
        Some(s) => match parse_whole(s.as_str(), 255) {
            Err(e) => Err(Stop::Error(e.message())),
            Ok(n) => Ok(
                Some(
                    if key {
                        Edit::ClearKey(n as u8)
                    } else if low {
                        Edit::ClearLow(n as u8)
                    } else {
                        Edit::ClearDecay(n as u8)
                    },
                ),
            ),
        },
    }
}

/// What the flags do to the preset, in order.
pub fn edits(args: &Vec<String>) -> (r: Result<Vec<Edit>, Stop>)
    ensures
        match r {
            Ok(v) => edits_from(views(args@), 0, Seq::empty()) == Ok::<Seq<Edit>, Halt>(v@),
            Err(e) => edits_from(views(args@), 0, Seq::empty()) == Err::<Seq<Edit>, Halt>(e@),
        },
{
    let ghost all = views(args@);
    let mut out: Vec<Edit> = Vec::new();
    let mut i: usize = 0;
    while i < args.len()
        invariant
            i <= args.len(),
            all == views(args@),
            edits_from(all, 0, Seq::empty()) == edits_from(all, i as int, out@),
        decreases args.len() - i,
    {
        let next = if i + 1 < args.len() {
            Some(&args[i + 1])
        } else {
            None
        };
        match read_edit(args[i].as_str(), next) {
            Err(e) => {
                return Err(e);
            },
            Ok(None) => {},
            Ok(Some(e)) => {
                out.push(e);
            },
        }
        i = i + 1;
    }
    Ok(out)
}

/// What an edit is called.
pub open spec fn edit_text(e: Edit) -> Seq<char> {
    match e {
        Edit::Before => "before (item 284 undone)"@,
        Edit::NoDrawnSplits => "drawn splits removed"@,
        Edit::NoDrawnGains => "drawn gain rows removed"@,
        Edit::NoSplits => "every false_beat row removed"@,
        Edit::NoDrawnDecay => "drawn partial_sigma_scale rows removed"@,
        Edit::ClearKey(key) => "key "@ + decimal(key as nat) + " cleared"@,
        Edit::NoDrawnLow => "the drawn rows' cells under 2 kHz returned to 1.0"@,
        Edit::ClearLow(key) => "key "@ + decimal(key as nat)
            + "'s cells under 2 kHz returned to 1.0"@,
        Edit::BeforeNoise => "[noise.strike] as DECISIONS 340 found it"@,
        Edit::NoStrike => "[noise.strike] silenced"@,
        Edit::ClearDecay(key) => "key "@ + decimal(key as nat)
            + "'s partial_sigma_scale row cleared"@,
    }
}

/// What the preset is called after the edits: what the last of them is called.
pub open spec fn what_text(edits: Seq<Edit>) -> Seq<char> {
    if edits.len() == 0 {
        "as shipped"@
    } else {
        edit_text(edits.last())
    }
}

fn keyed_words(key: u8, rest: &str) -> (r: String)
    ensures
        r@ == "key "@ + decimal(key as nat) + rest@,
{
    let mut out = String::from_str("key ");
    out.append(print(key as u64).as_str());
    out.append(rest);
    out
}

/// What the preset is called after the edits.
pub fn what(edits: &Vec<Edit>) -> (r: String)
    ensures
        r@ == what_text(edits@),
{
    if edits.len() == 0 {
        return String::from_str("as shipped");
    }
    match edits[edits.len() - 1] {
        Edit::Before => String::from_str("before (item 284 undone)"),
        Edit::NoDrawnSplits => String::from_str("drawn splits removed"),
        Edit::NoDrawnGains => String::from_str("drawn gain rows removed"),
        Edit::NoSplits => String::from_str("every false_beat row removed"),
        Edit::NoDrawnDecay => String::from_str("drawn partial_sigma_scale rows removed"),
        Edit::ClearKey(key) => keyed_words(key, " cleared"),
        Edit::NoDrawnLow => String::from_str("the drawn rows' cells under 2 kHz returned to 1.0"),
        Edit::ClearLow(key) => keyed_words(key, "'s cells under 2 kHz returned to 1.0"),
        Edit::BeforeNoise => String::from_str("[noise.strike] as DECISIONS 340 found it"),
        Edit::NoStrike => String::from_str("[noise.strike] silenced"),
        Edit::ClearDecay(key) => keyed_words(key, "'s partial_sigma_scale row cleared"),
    }
}

/// The row that a key is looked up in: one below the keyboard shares the lowest
/// key's.
pub open spec fn row_at(key: u8) -> int {
    if key < 21 {
        0
    } else {
        key - 21
    }
}

/// A table with one row emptied, where it reaches that far.
pub open spec fn emptied<T>(table: Seq<Seq<T>>, i: int) -> Seq<Seq<T>> {
    if i < table.len() {
        table.update(i, Seq::empty())
    } else {
        table
    }
}

/// A table with the rows of these keys emptied.
pub open spec fn emptied_all<T>(table: Seq<Seq<T>>, keys: Seq<u8>) -> Seq<Seq<T>>
    decreases keys.len(),
{
    if keys.len() == 0 {
        table
    } else {
        emptied(emptied_all(table, keys.drop_last()), row_at(keys.last()))
    }
}

/// Empties one key's row, where the table reaches that far.
pub fn empty_row<T>(table: &mut Vec<Vec<T>>, key: u8)
    ensures
        rows_of(final(table)@) == emptied(rows_of(old(table)@), row_at(key)),
        gone(old(table)@, final(table)@, seq![key]),
{
    proof {
        one_key_is_a_list(rows_of(table@), key);
    }
    let i: usize = if key < 21 {
        0
    } else {
        (key - 21) as usize
    };
    if i < table.len() {
        let ghost before = rows_of(table@);
        table.set(i, Vec::new());
        proof {
            assert(rows_of(table@) =~= before.update(i as int, Seq::empty()));
        }
    }
    proof {
        rows_are_gone(old(table)@, table@, seq![key]);
    }
}

/// Empties the rows of these keys.
pub fn empty_rows<T>(table: &mut Vec<Vec<T>>, keys: &Vec<u8>)
    ensures
        rows_of(final(table)@) == emptied_all(rows_of(old(table)@), keys@),
        gone(old(table)@, final(table)@, keys@),
{
    let mut i: usize = 0;
    proof {
        assert(keys@.take(0) =~= Seq::<u8>::empty());
    }
    while i < keys.len()
        invariant
            i <= keys.len(),
            rows_of(table@) == emptied_all(rows_of(old(table)@), keys@.take(i as int)),
        decreases keys.len() - i,
    {
        proof {
            assert(keys@.take(i + 1).drop_last() =~= keys@.take(i as int));
        }
        empty_row(table, keys[i]);
        i = i + 1;
    }
    proof {
        assert(keys@.take(i as int) =~= keys@);
        rows_are_gone(old(table)@, table@, keys@);
    }
}

/// A table with the low cells of one row returned to one, and without the ones
/// at that row's end, where the table reaches that far.
pub open spec fn lowered(table: Seq<Seq<Reading>>, i: int, low: Seq<bool>) -> Seq<Seq<Reading>> {
    if i < table.len() {
        table.update(i, crate::fit::texture::trimmed(returned(table[i], low)))
    } else {
        table
    }
}

/// A table with the low cells of these keys' rows returned to one; `low` marks
/// them, key by key.
pub open spec fn lowered_all(table: Seq<Seq<Reading>>, keys: Seq<u8>, low: Seq<Seq<bool>>) -> Seq<
    Seq<Reading>,
>
    decreases keys.len(),
{
    if keys.len() == 0 {
        table
    } else {
        lowered(
            lowered_all(table, keys.drop_last(), low.drop_last()),
            row_at(keys.last()),
            low.last(),
        )
    }
}

/// Returns the low cells of these keys' rows to one.
pub fn lower_rows(table: &mut Vec<Vec<Reading>>, keys: &Vec<u8>, low: &Vec<Vec<bool>>)
    requires
        keys.len() == low.len(),
    ensures
        rows_of(final(table)@) == lowered_all(rows_of(old(table)@), keys@, rows_of(low@)),
        low_gone(old(table)@, final(table)@, keys@, low@),
{
    let ghost marks = rows_of(low@);
    let mut i: usize = 0;
    proof {
        assert(keys@.take(0) =~= Seq::<u8>::empty());
    }
    while i < keys.len()
        invariant
            i <= keys.len(),
            keys.len() == low.len(),
            marks == rows_of(low@),
            rows_of(table@) == lowered_all(
                rows_of(old(table)@),
                keys@.take(i as int),
                marks.take(i as int),
            ),
        decreases keys.len() - i,
    {
        let ghost before = rows_of(table@);
        proof {
            assert(keys@.take(i + 1).drop_last() =~= keys@.take(i as int));
            assert(marks.take(i + 1).drop_last() =~= marks.take(i as int));
            assert(marks.take(i + 1).last() == low@[i as int]@);
        }
        let key: u8 = keys[i];
        let at: usize = if key < 21 {
            0
        } else {
            (key - 21) as usize
        };
        if at < table.len() {
            let row = clear_low(&table[at], &low[i]);
            table.set(at, row);
            proof {
                assert(rows_of(table@) =~= before.update(
                    at as int,
                    crate::fit::texture::trimmed(returned(before[at as int], low@[i as int]@)),
                ));
            }
        }
        i = i + 1;
    }
    proof {
        assert(keys@.take(i as int) =~= keys@);
        assert(marks.take(i as int) =~= marks);
        let (before, after) = (rows_of(old(table)@), rows_of(table@));
        returning_is_by_cell(before, keys@, marks);
        assert forall|i: int, k: int| 0 <= i < table.len() && 0 <= k implies #[trigger] cell_of(
            table@[i]@,
            k,
        ) == (if marked(keys@, marks, i, k) {
            Reading { bits: ONE }
        } else {
            cell_of(old(table)@[i]@, k)
        }) by {
            assert(after[i] == table@[i]@ && before[i] == old(table)@[i]@);
            assert(cell_of(after[i], k) == cell_of(table@[i]@, k));
        }
        assert forall|i: int| 0 <= i < table.len() implies (if hit(keys@, i) {
            (#[trigger] table@[i])@.len() > 0 ==> table@[i]@.last().bits != ONE
        } else {
            table@[i]@ == old(table)@[i]@
        }) by {
            assert(after[i] == table@[i]@ && before[i] == old(table)@[i]@);
        }
    }
}

/// The keys whose low cells an edit returns to one.
pub open spec fn low_keys_of(e: Edit, drawn_decay: Seq<u8>) -> Seq<u8> {
    match e {
        Edit::NoDrawnLow => drawn_decay,
        Edit::ClearLow(key) => seq![key],
        _ => Seq::empty(),
    }
}

/// The keys whose low cells an edit returns to one.
pub fn low_keys(e: Edit, drawn_decay: &Vec<u8>) -> (r: Vec<u8>)
    ensures
        r@ == low_keys_of(e, drawn_decay@),
{
    match e {
        Edit::NoDrawnLow => drawn_decay.clone(),
        Edit::ClearLow(key) => vec![key],
        _ => Vec::new(),
    }
}

/// The rows of other keys stay as they are.
pub proof fn other_rows_keep_their_low_cells(
    table: Seq<Seq<Reading>>,
    keys: Seq<u8>,
    low: Seq<Seq<bool>>,
    i: int,
)
    requires
        0 <= i < table.len(),
        forall|k: int| 0 <= k < keys.len() ==> row_at(#[trigger] keys[k]) != i,
    ensures
        lowered_all(table, keys, low).len() == table.len(),
        lowered_all(table, keys, low)[i] == table[i],
    decreases keys.len(),
{
    if keys.len() > 0 {
        let shorter = keys.drop_last();
        assert forall|k: int| 0 <= k < shorter.len() implies row_at(#[trigger] shorter[k]) != i by {
            assert(shorter[k] == keys[k]);
        }
        other_rows_keep_their_low_cells(table, shorter, low.drop_last(), i);
        assert(row_at(keys[keys.len() - 1]) != i);
    }
}

/// The low cells of a key's row are returned to one, where no other of the keys
/// has that row.
pub proof fn a_named_row_has_its_low_cells_returned(
    table: Seq<Seq<Reading>>,
    keys: Seq<u8>,
    low: Seq<Seq<bool>>,
    n: int,
)
    requires
        keys.len() == low.len(),
        0 <= n < keys.len(),
        row_at(keys[n]) < table.len(),
        forall|k: int| 0 <= k < keys.len() && k != n ==> row_at(#[trigger] keys[k]) != row_at(keys[n]),
    ensures
        lowered_all(table, keys, low)[row_at(keys[n])] == crate::fit::texture::trimmed(
            returned(table[row_at(keys[n])], low[n]),
        ),
    decreases keys.len(),
{
    let shorter = keys.drop_last();
    let marks = low.drop_last();
    let i = row_at(keys[n]);
    let last = keys.len() - 1;
    assert forall|k: int| 0 <= k < shorter.len() && k != n implies row_at(#[trigger] shorter[k])
        != i by {
        assert(shorter[k] == keys[k]);
    }
    if n == last {
        other_rows_keep_their_low_cells(table, shorter, marks, i);
    } else {
        assert(shorter[n] == keys[n]);
        a_named_row_has_its_low_cells_returned(table, shorter, marks, n);
        assert(row_at(keys[last]) != i);
        lowered_tables_keep_their_length(table, shorter, marks);
    }
}

proof fn lowered_tables_keep_their_length(
    table: Seq<Seq<Reading>>,
    keys: Seq<u8>,
    low: Seq<Seq<bool>>,
)
    ensures
        lowered_all(table, keys, low).len() == table.len(),
    decreases keys.len(),
{
    if keys.len() > 0 {
        lowered_tables_keep_their_length(table, keys.drop_last(), low.drop_last());
    }
}

/// The tables that the flags edit.
pub struct Played {
    pub partial_gains: Vec<Vec<Reading>>,
    pub false_beat: Vec<Vec<FalseBeat>>,
    pub partial_sigma_scale: Vec<Vec<Reading>>,
    pub synthesized_texture: Vec<u8>,
    pub synthesized_decay: Vec<u8>,
}

/// What those tables hold.
pub ghost struct PlayedTables {
    pub partial_gains: Seq<Seq<Reading>>,
    pub false_beat: Seq<Seq<FalseBeat>>,
    pub partial_sigma_scale: Seq<Seq<Reading>>,
    pub synthesized_texture: Seq<u8>,
    pub synthesized_decay: Seq<u8>,
}

impl View for Played {
    type V = PlayedTables;

    open spec fn view(&self) -> PlayedTables {
        PlayedTables {
            partial_gains: rows_of(self.partial_gains@),
            false_beat: rows_of(self.false_beat@),
            partial_sigma_scale: rows_of(self.partial_sigma_scale@),
            synthesized_texture: self.synthesized_texture@,
            synthesized_decay: self.synthesized_decay@,
        }
    }
}

/// The keys without one of them.
pub open spec fn without(keys: Seq<u8>, key: u8) -> Seq<u8> {
    keys.filter(|k: u8| k != key)
}

impl PlayedTables {
    /// The tables after an edit; `drawn` and `drawn_decay` are the keys that
    /// were drawn before any edit, and `low` the cells that lie in the low band,
    /// for each key whose low cells are returned. The edits of the strike noise
    /// touch none of these tables.
    pub open spec fn edited(
        self,
        e: Edit,
        drawn: Seq<u8>,
        drawn_decay: Seq<u8>,
        low: Seq<Seq<bool>>,
    ) -> PlayedTables {
        match e {
            Edit::Before => PlayedTables {
                partial_gains: emptied_all(self.partial_gains, drawn),
                false_beat: emptied_all(self.false_beat, drawn),
                synthesized_texture: Seq::empty(),
                ..self
            },
            Edit::NoDrawnSplits => PlayedTables {
                false_beat: emptied_all(self.false_beat, drawn),
                ..self
            },
            Edit::NoDrawnGains => PlayedTables {
                partial_gains: emptied_all(self.partial_gains, drawn),
                ..self
            },
            Edit::NoSplits => PlayedTables {
                false_beat: Seq::new(self.false_beat.len(), |i: int| Seq::empty()),
                ..self
            },
            Edit::NoDrawnDecay => PlayedTables {
                partial_sigma_scale: emptied_all(self.partial_sigma_scale, drawn_decay),
                synthesized_decay: Seq::empty(),
                ..self
            },
            Edit::ClearKey(key) => PlayedTables {
                partial_gains: emptied(self.partial_gains, row_at(key)),
                false_beat: emptied(self.false_beat, row_at(key)),
                ..self
            },
            Edit::ClearDecay(key) => PlayedTables {
                partial_sigma_scale: emptied(self.partial_sigma_scale, row_at(key)),
                synthesized_decay: without(self.synthesized_decay, key),
                ..self
            },
            Edit::NoDrawnLow => PlayedTables {
                partial_sigma_scale: lowered_all(self.partial_sigma_scale, drawn_decay, low),
                ..self
            },
            Edit::ClearLow(key) => PlayedTables {
                partial_sigma_scale: lowered_all(self.partial_sigma_scale, seq![key], low),
                ..self
            },
            Edit::BeforeNoise => self,
            Edit::NoStrike => self,
        }
    }
}

impl Played {
    /// Makes an edit.
    pub fn edit(&mut self, e: Edit, drawn: &Vec<u8>, drawn_decay: &Vec<u8>, low: &Vec<Vec<bool>>)
        requires
            low.len() == low_keys_of(e, drawn_decay@).len(),
        ensures
            final(self)@ == old(self)@.edited(e, drawn@, drawn_decay@, rows_of(low@)),
            e is Before ==> {
                &&& gone(old(self).partial_gains@, final(self).partial_gains@, drawn@)
                &&& gone(old(self).false_beat@, final(self).false_beat@, drawn@)
                &&& final(self).synthesized_texture.len() == 0
            },
            e is NoDrawnSplits ==> gone(old(self).false_beat@, final(self).false_beat@, drawn@),
            e is NoDrawnGains ==> gone(old(self).partial_gains@, final(self).partial_gains@, drawn@),
            e is NoSplits ==> final(self).false_beat.len() == old(self).false_beat.len() && forall|
                i: int,
            |
                0 <= i < final(self).false_beat.len() ==> (#[trigger] final(self).false_beat@[i]).len()
                    == 0,
            e is NoDrawnDecay ==> {
                &&& gone(
                    old(self).partial_sigma_scale@,
                    final(self).partial_sigma_scale@,
                    drawn_decay@,
                )
                &&& final(self).synthesized_decay.len() == 0
            },
            e matches Edit::ClearKey(key) ==> {
                &&& gone(old(self).partial_gains@, final(self).partial_gains@, seq![key])
                &&& gone(old(self).false_beat@, final(self).false_beat@, seq![key])
            },
            e matches Edit::ClearDecay(key) ==> {
                &&& gone(
                    old(self).partial_sigma_scale@,
                    final(self).partial_sigma_scale@,
                    seq![key],
                )
                &&& !final(self).synthesized_decay@.contains(key)
                &&& forall|k: u8|
                    k != key ==> #[trigger] final(self).synthesized_decay@.contains(k) == old(self).synthesized_decay@.contains(k)
            },
            e is NoDrawnLow ==> low_gone(
                old(self).partial_sigma_scale@,
                final(self).partial_sigma_scale@,
                drawn_decay@,
                low@,
            ),
            e matches Edit::ClearLow(key) ==> low_gone(
                old(self).partial_sigma_scale@,
                final(self).partial_sigma_scale@,
                seq![key],
                low@,
            ),
            !(e is Before || e is NoDrawnGains || e is ClearKey) ==> final(self).partial_gains
                == old(self).partial_gains,
            !(e is Before || e is NoDrawnSplits || e is NoSplits || e is ClearKey) ==> final(self).false_beat == old(self).false_beat,
            !(e is NoDrawnDecay || e is ClearDecay || e is NoDrawnLow || e is ClearLow) ==> final(self).partial_sigma_scale == old(self).partial_sigma_scale,
            !(e is Before) ==> final(self).synthesized_texture == old(self).synthesized_texture,
            !(e is NoDrawnDecay || e is ClearDecay) ==> final(self).synthesized_decay == old(self).synthesized_decay,
    {
        match e {
            Edit::Before => {
                empty_rows(&mut self.partial_gains, drawn);
                empty_rows(&mut self.false_beat, drawn);
                self.synthesized_texture = Vec::new();
            },
            Edit::NoDrawnSplits => {
                empty_rows(&mut self.false_beat, drawn);
            },
            Edit::NoDrawnGains => {
                empty_rows(&mut self.partial_gains, drawn);
            },
            Edit::NoSplits => {
                let n: usize = self.false_beat.len();
                let mut blank: Vec<Vec<FalseBeat>> = Vec::new();
                let mut i: usize = 0;
                while i < n
                    invariant
                        i <= n,
                        blank.len() == i,
                        forall|k: int| 0 <= k < i ==> (#[trigger] blank@[k])@ == Seq::<FalseBeat>::empty(),
                    decreases n - i,
                {
                    blank.push(Vec::new());
                    i = i + 1;
                }
                self.false_beat = blank;
                proof {
                    assert(self@.false_beat =~= Seq::new(
                        old(self)@.false_beat.len(),
                        |i: int| Seq::<FalseBeat>::empty(),
                    ));
                }
            },
            Edit::NoDrawnDecay => {
                empty_rows(&mut self.partial_sigma_scale, drawn_decay);
                self.synthesized_decay = Vec::new();
            },
            Edit::ClearKey(key) => {
                empty_row(&mut self.partial_gains, key);
                empty_row(&mut self.false_beat, key);
            },
            Edit::ClearDecay(key) => {
                empty_row(&mut self.partial_sigma_scale, key);
                let kept = keep_others(&self.synthesized_decay, key);
                self.synthesized_decay = kept;
            },
            Edit::NoDrawnLow => {
                lower_rows(&mut self.partial_sigma_scale, drawn_decay, low);
            },
            Edit::ClearLow(_) => {
                let keys = low_keys(e, drawn_decay);
                lower_rows(&mut self.partial_sigma_scale, &keys, low);
            },
            Edit::BeforeNoise => {},
            Edit::NoStrike => {},
        }
    }
}

/// One of the keys has this row of a table; keys below the keyboard have the
/// first.
pub open spec fn hit(keys: Seq<u8>, i: int) -> bool {
    exists|n: int| 0 <= n < keys.len() && hits(#[trigger] keys[n], i)
}

pub open spec fn hits(key: u8, i: int) -> bool {
    i == (if key < 21 {
        0
    } else {
        key - 21
    })
}

/// The rows of these keys are empty now, and every other row is as it was.
pub open spec fn gone<T>(before: Seq<Vec<T>>, after: Seq<Vec<T>>, keys: Seq<u8>) -> bool {
    &&& after.len() == before.len()
    &&& forall|i: int|
        0 <= i < after.len() ==> (if hit(keys, i) {
            (#[trigger] after[i])@.len() == 0
        } else {
            after[i]@ == before[i]@
        })
}

/// Some key has this row and marks this cell of it as low.
pub open spec fn marked(keys: Seq<u8>, low: Seq<Seq<bool>>, i: int, k: int) -> bool {
    exists|n: int|
        0 <= n < keys.len() && hits(#[trigger] keys[n], i) && 0 <= k < low[n].len() && low[n][k]
}

/// A cell of a row of factors; past its end a row holds ones.
pub open spec fn cell_of(row: Seq<Reading>, k: int) -> Reading {
    if k < row.len() {
        row[k]
    } else {
        Reading { bits: ONE }
    }
}

/// The cells that these keys mark as low are one now, and every other cell is
/// as it was. A row of none of them is untouched.
pub open spec fn low_gone(
    before: Seq<Vec<Reading>>,
    after: Seq<Vec<Reading>>,
    keys: Seq<u8>,
    low: Seq<Vec<bool>>,
) -> bool {
    &&& after.len() == before.len()
    &&& forall|i: int, k: int|
        0 <= i < after.len() && 0 <= k ==> #[trigger] cell_of(after[i]@, k) == (if marked(
            keys,
            rows_of(low),
            i,
            k,
        ) {
            Reading { bits: ONE }
        } else {
            cell_of(before[i]@, k)
        })
    &&& forall|i: int|
        0 <= i < after.len() ==> (if hit(keys, i) {
            (#[trigger] after[i])@.len() > 0 ==> after[i]@.last().bits != ONE
        } else {
            after[i]@ == before[i]@
        })
}

/// Emptying the rows of some keys empties those and leaves the others.
pub proof fn emptying_is_by_row<T>(table: Seq<Seq<T>>, keys: Seq<u8>)
    ensures
        emptied_all(table, keys).len() == table.len(),
        forall|i: int|
            0 <= i < table.len() ==> #[trigger] emptied_all(table, keys)[i] == (if hit(keys, i) {
                Seq::<T>::empty()
            } else {
                table[i]
            }),
    decreases keys.len(),
{
    if keys.len() > 0 {
        let shorter = keys.drop_last();
        let last = keys.len() - 1;
        emptying_is_by_row(table, shorter);
        assert forall|i: int| 0 <= i < table.len() implies #[trigger] emptied_all(table, keys)[i]
            == (if hit(keys, i) {
            Seq::<T>::empty()
        } else {
            table[i]
        }) by {
            if hit(shorter, i) {
                let n = choose|n: int| 0 <= n < shorter.len() && hits(#[trigger] shorter[n], i);
                assert(hits(keys[n], i));
            }
            if hit(keys, i) && !hits(keys[last], i) {
                let n = choose|n: int| 0 <= n < keys.len() && hits(#[trigger] keys[n], i);
                assert(hits(shorter[n], i));
            }
        }
    }
}

proof fn rows_are_gone<T>(before: Seq<Vec<T>>, after: Seq<Vec<T>>, keys: Seq<u8>)
    requires
        rows_of(after) == emptied_all(rows_of(before), keys),
    ensures
        gone(before, after, keys),
{
    emptying_is_by_row(rows_of(before), keys);
    assert(rows_of(after).len() == after.len());
    assert forall|i: int| 0 <= i < after.len() implies (if hit(keys, i) {
        (#[trigger] after[i])@.len() == 0
    } else {
        after[i]@ == before[i]@
    }) by {
        assert(rows_of(after)[i] == after[i]@);
        assert(rows_of(before)[i] == before[i]@);
    }
}

proof fn one_key_is_a_list<T>(table: Seq<Seq<T>>, key: u8)
    ensures
        emptied_all(table, seq![key]) == emptied(table, row_at(key)),
{
    assert(seq![key].drop_last() =~= Seq::<u8>::empty());
    assert(emptied_all(table, seq![key].drop_last()) == table);
}

/// Returning the low cells of some keys' rows makes those cells one and leaves
/// the others.
pub proof fn returning_is_by_cell(table: Seq<Seq<Reading>>, keys: Seq<u8>, low: Seq<Seq<bool>>)
    ensures
        keys.len() == low.len() ==> {
            let after = lowered_all(table, keys, low);
            &&& after.len() == table.len()
            &&& forall|i: int, k: int|
                0 <= i < after.len() && 0 <= k ==> #[trigger] cell_of(after[i], k) == (if marked(
                    keys,
                    low,
                    i,
                    k,
                ) {
                    Reading { bits: ONE }
                } else {
                    cell_of(table[i], k)
                })
            &&& forall|i: int|
                0 <= i < after.len() ==> (if hit(keys, i) {
                    (#[trigger] after[i]).len() > 0 ==> after[i].last().bits != ONE
                } else {
                    after[i] == table[i]
                })
        },
    decreases keys.len(),
{
    if keys.len() > 0 && keys.len() == low.len() {
        let shorter = keys.drop_last();
        let marks = low.drop_last();
        let last = keys.len() - 1;
        returning_is_by_cell(table, shorter, marks);
        let before = lowered_all(table, shorter, marks);
        let after = lowered_all(table, keys, low);
        let at = row_at(keys.last());
        if at < before.len() {
            crate::fit::texture::trimming_drops_ones(returned(before[at], low.last()));
        }
        assert forall|i: int, k: int| 0 <= i < after.len() && 0 <= k implies #[trigger] cell_of(
            after[i],
            k,
        ) == (if marked(keys, low, i, k) {
            Reading { bits: ONE }
        } else {
            cell_of(table[i], k)
        }) by {
            assert(keys[last] == keys.last() && low[last] == low.last());
            assert(cell_of(before[i], k) == (if marked(shorter, marks, i, k) {
                Reading { bits: ONE }
            } else {
                cell_of(table[i], k)
            }));
            if marked(shorter, marks, i, k) {
                let n = choose|n: int|
                    0 <= n < shorter.len() && hits(#[trigger] shorter[n], i) && 0 <= k
                        < marks[n].len() && marks[n][k];
                assert(hits(keys[n], i) && low[n] == marks[n]);
            }
            if marked(keys, low, i, k) {
                let n = choose|n: int|
                    0 <= n < keys.len() && hits(#[trigger] keys[n], i) && 0 <= k < low[n].len()
                        && low[n][k];
                if n < last {
                    assert(hits(shorter[n], i) && low[n] == marks[n]);
                }
            }
            if hits(keys[last], i) {
                let whole = returned(before[i], low.last());
                assert(after[i] == crate::fit::texture::trimmed(whole));
                assert(cell_of(after[i], k) == cell_of(whole, k)) by {
                    if after[i].len() <= k < whole.len() {
                        assert(whole[k].bits == ONE);
                    }
                }
                assert(cell_of(whole, k) == (if k < low.last().len() && low.last()[k] {
                    Reading { bits: ONE }
                } else {
                    cell_of(before[i], k)
                }));
            } else {
                assert(after[i] == before[i]);
            }
        }
        assert forall|i: int| 0 <= i < after.len() implies (if hit(keys, i) {
            (#[trigger] after[i]).len() > 0 ==> after[i].last().bits != ONE
        } else {
            after[i] == table[i]
        }) by {
            if hit(shorter, i) {
                let n = choose|n: int| 0 <= n < shorter.len() && hits(#[trigger] shorter[n], i);
                assert(hits(keys[n], i));
            }
            if hit(keys, i) && !hits(keys[last], i) {
                let n = choose|n: int| 0 <= n < keys.len() && hits(#[trigger] keys[n], i);
                assert(hits(shorter[n], i));
            }
            assert(before[i] == before[i]);
        }
    }
}

fn keep_others(keys: &Vec<u8>, key: u8) -> (r: Vec<u8>)
    ensures
        r@ == without(keys@, key),
        !r@.contains(key),
        forall|k: u8| k != key ==> #[trigger] r@.contains(k) == keys@.contains(k),
{
    let mut out: Vec<u8> = Vec::new();
    let mut i: usize = 0;
    proof {
        reveal(Seq::filter);
        assert(keys@.take(0) =~= Seq::<u8>::empty());
    }
    while i < keys.len()
        invariant
            i <= keys.len(),
            out@ == without(keys@.take(i as int), key),
            !out@.contains(key),
            forall|n: int| 0 <= n < out.len() ==> #[trigger] keys@.contains(out@[n]),
            forall|n: int| 0 <= n < i && keys@[n] != key ==> out@.contains(#[trigger] keys@[n]),
        decreases keys.len() - i,
    {
        proof {
            reveal(Seq::filter);
            assert(keys@.take(i + 1).drop_last() =~= keys@.take(i as int));
        }
        let ghost before = out@;
        if keys[i] != key {
            out.push(keys[i]);
            proof {
                assert(out@[before.len() as int] == keys@[i as int]);
                assert forall|n: int| 0 <= n < i && keys@[n] != key implies out@.contains(
                    #[trigger] keys@[n],
                ) by {
                    let at = choose|at: int| 0 <= at < before.len() && before[at] == keys@[n];
                    assert(out@[at] == keys@[n]);
                }
                assert(!out@.contains(key));
            }
        }
        i = i + 1;
    }
    proof {
        assert forall|k: u8| k != key implies #[trigger] out@.contains(k) == keys@.contains(k) by {
            if keys@.contains(k) {
                let n = choose|n: int| 0 <= n < keys.len() && keys@[n] == k;
                assert(out@.contains(keys@[n]));
            }
            if out@.contains(k) {
                let n = choose|n: int| 0 <= n < out.len() && out@[n] == k;
                assert(keys@.contains(out@[n]));
            }
        }
        assert(keys@.take(i as int) =~= keys@);
    }
    out
}

/// A row with the cells that `low` marks returned to one.
pub open spec fn returned(row: Seq<Reading>, low: Seq<bool>) -> Seq<Reading> {
    Seq::new(
        row.len(),
        |i: int|
            if i < low.len() && low[i] {
                Reading { bits: ONE }
            } else {
                row[i]
            },
    )
}

/// A decay row with the cells that `low` marks returned to one, without the
/// ones at its end.
pub fn clear_low(row: &Vec<Reading>, low: &Vec<bool>) -> (r: Vec<Reading>)
    ensures
        r@ == crate::fit::texture::trimmed(returned(row@, low@)),
{
    let ghost whole_row = returned(row@, low@);
    let mut out: Vec<Reading> = Vec::new();
    let mut i: usize = 0;
    while i < row.len()
        invariant
            i <= row.len(),
            whole_row == returned(row@, low@),
            out@ == whole_row.take(i as int),
        decreases row.len() - i,
    {
        if i < low.len() && low[i] {
            out.push(Reading { bits: ONE });
        } else {
            out.push(row[i]);
        }
        i = i + 1;
        proof {
            assert(out@ =~= whole_row.take(i as int));
        }
    }
    proof {
        assert(whole_row.take(i as int) =~= whole_row);
    }
    while out.len() > 0 && out[out.len() - 1].bits == ONE
        invariant
            crate::fit::texture::trimmed(out@) == crate::fit::texture::trimmed(whole_row),
        decreases out.len(),
    {
        let ghost before = out@;
        let _ = out.pop();
        proof {
            assert(out@ =~= before.drop_last());
        }
    }
    out
}

/// Undoing the draw leaves a key that was not drawn as it is.
pub proof fn undrawn_keys_are_not_edited(t: PlayedTables, drawn: Seq<u8>, decay: Seq<u8>, low: Seq<Seq<bool>>, key: u8)
    requires
        21 <= key,
        key - 21 < t.partial_gains.len(),
        key - 21 < t.false_beat.len(),
        !drawn.contains(key),
        forall|i: int| 0 <= i < drawn.len() ==> 21 <= #[trigger] drawn[i],
    ensures
        t.edited(Edit::Before, drawn, decay, low).partial_gains[key - 21] == t.partial_gains[key - 21],
        t.edited(Edit::Before, drawn, decay, low).false_beat[key - 21] == t.false_beat[key - 21],
{
    others_stay(t.partial_gains, drawn, key);
    others_stay(t.false_beat, drawn, key);
}

proof fn others_stay<T>(table: Seq<Seq<T>>, keys: Seq<u8>, key: u8)
    requires
        21 <= key,
        key - 21 < table.len(),
        !keys.contains(key),
        forall|i: int| 0 <= i < keys.len() ==> 21 <= #[trigger] keys[i],
    ensures
        emptied_all(table, keys).len() == table.len(),
        emptied_all(table, keys)[key - 21] == table[key - 21],
    decreases keys.len(),
{
    if keys.len() > 0 {
        let shorter = keys.drop_last();
        assert forall|i: int| 0 <= i < shorter.len() implies 21 <= #[trigger] shorter[i] by {
            assert(shorter[i] == keys[i]);
        }
        assert forall|i: int| 0 <= i < shorter.len() implies shorter[i] != key by {
            assert(shorter[i] == keys[i]);
        }
        others_stay(table, shorter, key);
        assert(keys[keys.len() - 1] != key);
        assert(21 <= keys[keys.len() - 1]);
    }
}

} // verus!
