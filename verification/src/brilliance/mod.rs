//! How bright the engine is against the piano: the command line, the registers,
//! and how a key's row is continued.

pub mod report;

use crate::args::{dashed, flag_value, is_flag, maybe, nth_or, or_default, value_after};
use crate::fit::tables::ONE;
use crate::fit::texture::trimmed;
use crate::level::{rest, rest_of};
use crate::reading::Reading;
use crate::text::views;
use crate::words::{is_number, writes_number};
use vstd::prelude::*;

verus! {

/// What the command line asks for.
pub struct BrillianceOptions {
    pub data: String,
    pub preset: String,
    /// The shelf's gain, where a number is given for it.
    pub shelf_gain: Option<String>,
    /// The shelf's frequency, where a number is given for it.
    pub shelf_hz: Option<String>,
    /// How many passes of the continuation are run, where a number is given.
    pub trim: Option<String>,
}

/// The arguments before the first flag.
pub open spec fn before_flags(args: Seq<Seq<char>>) -> Seq<Seq<char>>
    decreases args.len(),
{
    if args.len() == 0 || dashed(args[0]) {
        Seq::empty()
    } else {
        seq![args[0]] + before_flags(args.skip(1))
    }
}

/// Those of some texts that write a number.
pub open spec fn numbers_of(texts: Seq<Seq<char>>) -> Seq<Seq<char>>
    decreases texts.len(),
{
    if texts.len() == 0 {
        Seq::empty()
    } else if writes_number(texts.last()) {
        numbers_of(texts.drop_last()).push(texts.last())
    } else {
        numbers_of(texts.drop_last())
    }
}

/// The `n`-th of some texts, where there are so many.
pub open spec fn nth_of(texts: Seq<Seq<char>>, n: int) -> Option<Seq<char>> {
    if n < texts.len() {
        Some(texts[n])
    } else {
        None
    }
}

/// A text that writes a number.
pub open spec fn if_number(text: Option<Seq<char>>) -> Option<Seq<char>> {
    match text {
        None => None,
        Some(t) => if writes_number(t) {
            Some(t)
        } else {
            None
        },
    }
}

fn leading(args: &Vec<String>) -> (r: Vec<String>)
    ensures
        views(r@) == before_flags(views(args@)),
{
    let ghost all = views(args@);
    let mut out: Vec<String> = Vec::new();
    let mut i: usize = 0;
    proof {
        assert(all.skip(0) =~= all);
        assert(views(out@) + before_flags(all) =~= before_flags(all));
    }
    while i < args.len() && !is_flag(args[i].as_str())
        invariant
            i <= args.len(),
            all == views(args@),
            views(out@) + before_flags(all.skip(i as int)) == before_flags(all),
        decreases args.len() - i,
    {
        let ghost before = views(out@);
        out.push(args[i].clone());
        proof {
            let here = args@[i as int]@;
            assert(views(out@) =~= before.push(here));
            assert(all.skip(i as int)[0] == here);
            assert(all.skip(i as int).skip(1) =~= all.skip(i + 1));
            assert(views(out@) + before_flags(all.skip(i + 1)) =~= before + (seq![here]
                + before_flags(all.skip(i + 1))));
        }
        i = i + 1;
    }
    proof {
        assert(before_flags(all.skip(i as int)) =~= Seq::<Seq<char>>::empty());
        assert(views(out@) =~= before_flags(all));
    }
    out
}

fn numbers(texts: &Vec<String>) -> (r: Vec<String>)
    ensures
        views(r@) == numbers_of(views(texts@)),
{
    let ghost all = views(texts@);
    let mut out: Vec<String> = Vec::new();
    let mut i: usize = 0;
    proof {
        assert(all.take(0) =~= Seq::<Seq<char>>::empty());
        assert(views(out@) =~= Seq::<Seq<char>>::empty());
    }
    while i < texts.len()
        invariant
            i <= texts.len(),
            all == views(texts@),
            views(out@) == numbers_of(all.take(i as int)),
        decreases texts.len() - i,
    {
        proof {
            assert(all.take(i + 1).drop_last() =~= all.take(i as int));
            assert(all.take(i + 1).last() == texts@[i as int]@);
        }
        if is_number(texts[i].as_str()) {
            let ghost before = views(out@);
            out.push(texts[i].clone());
            proof {
                assert(views(out@) =~= before.push(texts@[i as int]@));
            }
        }
        i = i + 1;
    }
    proof {
        assert(all.take(i as int) =~= all);
    }
    out
}

fn nth(texts: &Vec<String>, n: usize) -> (r: Option<String>)
    ensures
        maybe(r) == nth_of(views(texts@), n as int),
{
    if n < texts.len() {
        Some(texts[n].clone())
    } else {
        None
    }
}

/// What the command line asks for: two paths, then up to two numbers before the
/// first flag.
pub fn options(args: &Vec<String>) -> (r: BrillianceOptions)
    ensures
        r.data@ == or_default(views(args@), 0, "data/salamander"@),
        r.preset@ == or_default(views(args@), 1, "presets/salamander-c5.toml"@),
        maybe(r.shelf_gain) == nth_of(numbers_of(before_flags(rest_of(views(args@)))), 0),
        maybe(r.shelf_hz) == nth_of(numbers_of(before_flags(rest_of(views(args@)))), 1),
        maybe(r.trim) == if_number(value_after(rest_of(views(args@)), "--trim"@)),
{
    let more = rest(args);
    let given = numbers(&leading(&more));
    let trim = match flag_value(&more, "--trim") {
        None => None,
        Some(text) => if is_number(text.as_str()) {
            Some(text)
        } else {
            None
        },
    };
    BrillianceOptions {
        data: nth_or(args, 0, "data/salamander"),
        preset: nth_or(args, 1, "presets/salamander-c5.toml"),
        shelf_gain: nth(&given, 0),
        shelf_hz: nth(&given, 1),
        trim,
    }
}

/// A stretch of the keyboard.
pub struct Register {
    pub name: String,
    pub low: u8,
    pub high: u8,
}

/// A stretch of the keyboard is this one.
pub open spec fn is_register(r: Register, name: Seq<char>, low: u8, high: u8) -> bool {
    r.name@ == name && r.low == low && r.high == high
}

/// The stretch of the keyboard that a key is in.
pub open spec fn register_of(key: u8) -> int {
    if key < 48 {
        0
    } else if key < 72 {
        1
    } else if key < 84 {
        2
    } else {
        3
    }
}

/// The stretches of the keyboard, from the lowest up.
pub fn registers() -> (r: Vec<Register>)
    ensures
        r.len() == 4,
        is_register(r@[0], "A0-B2 bass"@, 21, 47),
        is_register(r@[1], "C3-B4 tenor"@, 48, 71),
        is_register(r@[2], "C5-B5 treble"@, 72, 83),
        is_register(r@[3], "C6-C8 top"@, 84, 108),
        forall|key: u8, i: int|
            21 <= key <= 108 && 0 <= i < 4 ==> ((#[trigger] r@[i]).low <= key <= r@[i].high <==> i
                == #[trigger] register_of(key)),
{
    let mut v: Vec<Register> = Vec::new();
    v.push(Register { name: String::from_str("A0-B2 bass"), low: 21, high: 47 });
    v.push(Register { name: String::from_str("C3-B4 tenor"), low: 48, high: 71 });
    v.push(Register { name: String::from_str("C5-B5 treble"), low: 72, high: 83 });
    v.push(Register { name: String::from_str("C6-C8 top"), low: 84, high: 108 });
    v
}

/// The places of the keys between `low` and `high`.
pub open spec fn places_in(keys: Seq<u8>, low: u8, high: u8) -> Seq<usize>
    decreases keys.len(),
{
    if keys.len() == 0 {
        Seq::empty()
    } else if low <= keys.last() <= high {
        places_in(keys.drop_last(), low, high).push((keys.len() - 1) as usize)
    } else {
        places_in(keys.drop_last(), low, high)
    }
}

/// The places of the keys between `low` and `high`.
pub fn select(keys: &Vec<u8>, low: u8, high: u8) -> (r: Vec<usize>)
    ensures
        r@ == places_in(keys@, low, high),
{
    let mut out: Vec<usize> = Vec::new();
    let mut i: usize = 0;
    proof {
        assert(keys@.take(0) =~= Seq::<u8>::empty());
    }
    while i < keys.len()
        invariant
            i <= keys.len(),
            out@ == places_in(keys@.take(i as int), low, high),
        decreases keys.len() - i,
    {
        proof {
            assert(keys@.take(i + 1).drop_last() =~= keys@.take(i as int));
            assert(keys@.take(i + 1).last() == keys@[i as int]);
        }
        if low <= keys[i] && keys[i] <= high {
            out.push(i);
        }
        i = i + 1;
    }
    proof {
        assert(keys@.take(i as int) =~= keys@);
    }
    out
}

/// Every key of the keyboard is in one register.
pub proof fn the_registers_share_the_keys_out(keys: Seq<u8>)
    requires
        forall|i: int| 0 <= i < keys.len() ==> 21 <= #[trigger] keys[i] <= 108,
    ensures
        places_in(keys, 21, 47).len() + places_in(keys, 48, 71).len() + places_in(
            keys,
            72,
            83,
        ).len() + places_in(keys, 84, 108).len() == keys.len(),
    decreases keys.len(),
{
    if keys.len() > 0 {
        let shorter = keys.drop_last();
        assert forall|i: int| 0 <= i < shorter.len() implies 21 <= #[trigger] shorter[i]
            <= 108 by {
            assert(shorter[i] == keys[i]);
        }
        the_registers_share_the_keys_out(shorter);
        assert(21 <= keys[keys.len() - 1] <= 108);
    }
}

/// The keys that are probed partial by partial.
pub fn is_probed(key: u8) -> (r: bool)
    ensures
        r == (key == 33 || key == 45 || key == 57 || key == 60 || key == 72 || key == 84),
{
    key == 33 || key == 45 || key == 57 || key == 60 || key == 72 || key == 84
}

/// The partials that are probed.
pub fn probed_partials() -> (r: Vec<usize>)
    ensures
        r@ == seq![1usize, 2usize, 4usize, 8usize, 16usize],
{
    vec![1usize, 2usize, 4usize, 8usize, 16usize]
}

/// How many partials of a key are continued: those that a row may hold, past the
/// reach that the recording gave it.
pub open spec fn continued_of(partials: usize, most: usize, reach: usize) -> nat {
    let n = if partials < most {
        partials
    } else {
        most
    };
    if n <= reach {
        0
    } else {
        (n - reach) as nat
    }
}

/// How many partials of a key are continued.
pub fn continued(partials: usize, most: usize, reach: usize) -> (r: usize)
    ensures
        r == continued_of(partials, most, reach),
{
    let n: usize = if partials < most {
        partials
    } else {
        most
    };
    if n <= reach {
        0
    } else {
        n - reach
    }
}

/// A row as long as its reach: cut there, or with ones up to it.
pub open spec fn reaching(row: Seq<Reading>, reach: nat) -> Seq<Reading> {
    Seq::new(
        reach,
        |i: int|
            if i < row.len() {
                row[i]
            } else {
                Reading { bits: ONE }
            },
    )
}

/// A key's row, continued by some cells; the ones at its end are dropped.
pub fn continue_row(row: &Vec<Reading>, reach: usize, cells: &Vec<Reading>) -> (r: Vec<Reading>)
    ensures
        r@ == trimmed(reaching(row@, reach as nat) + cells@),
{
    let ghost base = reaching(row@, reach as nat);
    let mut out: Vec<Reading> = Vec::new();
    let mut i: usize = 0;
    while i < reach
        invariant
            i <= reach,
            base == reaching(row@, reach as nat),
            out@ == base.take(i as int),
        decreases reach - i,
    {
        if i < row.len() {
            out.push(row[i]);
        } else {
            out.push(Reading { bits: ONE });
        }
        i = i + 1;
        proof {
            assert(out@ =~= base.take(i as int));
        }
    }
    proof {
        assert(base.take(i as int) =~= base);
        assert(base + cells@.take(0) =~= base);
    }
    let mut k: usize = 0;
    while k < cells.len()
        invariant
            k <= cells.len(),
            out@ == base + cells@.take(k as int),
        decreases cells.len() - k,
    {
        out.push(cells[k]);
        k = k + 1;
        proof {
            assert(out@ =~= base + cells@.take(k as int));
        }
    }
    let ghost full = base + cells@;
    proof {
        assert(cells@.take(k as int) =~= cells@);
    }
    while out.len() > 0 && out[out.len() - 1].bits == ONE
        invariant
            trimmed(out@) == trimmed(full),
        decreases out.len(),
    {
        let ghost before = out@;
        let _ = out.pop();
        proof {
            assert(out@ =~= before.drop_last());
        }
    }
    out
}

proof fn a_prefix_is_left(row: Seq<Reading>)
    ensures
        trimmed(row).len() <= row.len(),
        forall|i: int| 0 <= i < trimmed(row).len() ==> #[trigger] trimmed(row)[i] == row[i],
    decreases row.len(),
{
    if row.len() > 0 {
        a_prefix_is_left(row.drop_last());
        let t = trimmed(row.drop_last());
        assert forall|i: int| 0 <= i < trimmed(row).len() implies #[trigger] trimmed(row)[i]
            == row[i] by {
            if trimmed(row) == t {
                assert(t[i] == row.drop_last()[i]);
            }
        }
    }
}

/// A continuation leaves the cells that the recording gave as they were.
pub proof fn a_continuation_keeps_the_recorded_cells(
    row: Seq<Reading>,
    cells: Seq<Reading>,
    i: int,
)
    requires
        0 <= i < row.len(),
        i < trimmed(reaching(row, row.len()) + cells).len(),
    ensures
        trimmed(reaching(row, row.len()) + cells)[i] == row[i],
{
    a_prefix_is_left(reaching(row, row.len()) + cells);
}

/// A register holds the keys between its ends, in order.
pub proof fn a_register_holds_its_own_keys(keys: Seq<u8>, low: u8, high: u8)
    requires
        keys.len() <= usize::MAX,
    ensures
        forall|a: int, b: int|
            0 <= a < b < places_in(keys, low, high).len() ==> (#[trigger] places_in(keys, low, high)[a]) < (#[trigger] places_in(keys, low, high)[b]),
        forall|a: int|
            0 <= a < places_in(keys, low, high).len() ==> {
                let i = #[trigger] places_in(keys, low, high)[a];
                i < keys.len() && low <= keys[i as int] <= high
            },
        forall|i: int|
            0 <= i < keys.len() && low <= (#[trigger] keys[i]) <= high ==> places_in(keys, low, high).contains(i as usize),
    decreases keys.len(),
{
    if keys.len() > 0 {
        let shorter = keys.drop_last();
        a_register_holds_its_own_keys(keys.drop_last(), low, high);
        let before = places_in(shorter, low, high);
        let after = places_in(keys, low, high);
        let n = keys.len() - 1;
        assert forall|a: int, b: int| 0 <= a < b < after.len() implies (#[trigger] after[a]) < (
        #[trigger] after[b]) by {
            assert(before[a] < n);
            if b < before.len() {
                assert(before[a] < before[b]);
            }
        }
        assert forall|a: int| 0 <= a < after.len() implies {
            let i = #[trigger] after[a];
            i < keys.len() && low <= keys[i as int] <= high
        } by {
            if a < before.len() {
                assert(before[a] == after[a]);
                assert(shorter[before[a] as int] == keys[before[a] as int]);
            }
        }
        assert forall|i: int| 0 <= i < keys.len() && low <= (#[trigger] keys[i]) <= high implies after.contains(i as usize) by {
            if i < n {
                assert(shorter[i] == keys[i]);
                assert(before.contains(i as usize));
                let a = choose|a: int| 0 <= a < before.len() && before[a] == i as usize;
                assert(after[a] == i as usize);
            } else {
                assert(after[before.len() as int] == n as usize);
            }
        }
    }
}

/// Of some texts only those that write a number are taken, in order.
pub proof fn only_numbers_are_taken(texts: Seq<Seq<char>>)
    ensures
        numbers_of(texts) == texts.filter(|x: Seq<char>| writes_number(x)),
    decreases texts.len(),
{
    reveal(Seq::filter);
    let keep = |x: Seq<char>| writes_number(x);
    if texts.len() > 0 {
        let shorter = texts.drop_last();
        only_numbers_are_taken(texts.drop_last());
        assert(numbers_of(shorter) =~= shorter.filter(keep));
        assert(numbers_of(texts) =~= texts.filter(keep));
    } else {
        assert(numbers_of(texts) =~= texts.filter(keep));
    }
}

/// A continued row goes on as it was up to where it reaches, with ones where it
/// was shorter; the new cells follow; and only ones are left off the end.
pub proof fn a_continued_row_goes_on(row: Seq<Reading>, reach: nat, cells: Seq<Reading>, i: int)
    requires
        0 <= i < reach + cells.len(),
    ensures
        ({
            let r = trimmed(reaching(row, reach) + cells);
            let y = if i < r.len() {
                r[i]
            } else {
                Reading { bits: ONE }
            };
            &&& r.len() <= reach + cells.len()
            &&& i < reach && i < row.len() ==> y == row[i]
            &&& row.len() <= i < reach ==> y == (Reading { bits: ONE })
            &&& reach <= i ==> y == cells[i - reach]
            &&& r.len() > 0 ==> r.last().bits != ONE
        }),
{
    let whole = reaching(row, reach) + cells;
    crate::fit::texture::trimming_drops_ones(whole);
    assert(whole.len() == reach + cells.len());
    assert(whole[i] == (if i < reach {
        reaching(row, reach)[i]
    } else {
        cells[i - reach]
    }));
    if i >= trimmed(whole).len() {
        assert(whole[i].bits == ONE);
    } else {
        assert(trimmed(whole)[i] == whole[i]);
    }
}

/// A row is continued up to the fewer of the partials there are and the most
/// that are written, from where it reaches.
pub proof fn a_row_is_continued_to_its_end(partials: usize, most: usize, reach: usize)
    ensures
        ({
            let n = continued_of(partials, most, reach);
            &&& n > 0 ==> reach + n <= partials && reach + n <= most
            &&& n > 0 ==> reach + n == partials || reach + n == most
            &&& n == 0 <==> partials <= reach || most <= reach
        }),
{
}

/// The arguments before the flags are the first ones, up to a flag.
pub proof fn what_stands_before_the_flags(args: Seq<Seq<char>>)
    ensures
        before_flags(args).len() <= args.len(),
        before_flags(args) == args.take(before_flags(args).len() as int),
        forall|i: int| 0 <= i < before_flags(args).len() ==> !dashed(#[trigger] args[i]),
        before_flags(args).len() < args.len() ==> dashed(args[before_flags(args).len() as int]),
    decreases args.len(),
{
    if args.len() > 0 && !dashed(args[0]) {
        let rest = args.skip(1);
        what_stands_before_the_flags(rest);
        let n = before_flags(rest).len() as int;
        assert(before_flags(args) == seq![args[0]] + before_flags(rest));
        assert(before_flags(args) =~= args.take(n + 1));
        assert forall|i: int| 0 <= i < n + 1 implies !dashed(#[trigger] args[i]) by {
            if i > 0 {
                assert(rest[i - 1] == args[i]);
            }
        }
        if n + 1 < args.len() {
            assert(rest[n] == args[n + 1]);
        }
    } else {
        assert(before_flags(args) =~= args.take(0));
    }
}

} // verus!
