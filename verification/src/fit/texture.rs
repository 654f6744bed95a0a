//! Rows that are drawn for the keys nobody recorded, and which keys those are.

use crate::fit::tables::{
    before_draw, cleared, grown, index_of, key_index, FalseBeat, Notes, Tables, HIGHEST_KEY,
    LOWEST_KEY, NUM_KEYS, ONE,
};
use crate::reading::Reading;
use vstd::prelude::*;

verus! {

/// The keys of the keyboard, from the lowest up.
pub open spec fn keyboard() -> Seq<u8> {
    Seq::new(NUM_KEYS as nat, |i: int| (LOWEST_KEY + i) as u8)
}

/// The keys that have a measured row of gains.
pub open spec fn measured_of(gains: Seq<Seq<Reading>>) -> Seq<u8> {
    keyboard().filter(|key: u8| gains[key - LOWEST_KEY].len() > 0)
}

/// The keys whose rows are drawn: those that were not measured, or with `over`
/// those that were; only the keys in `only`, where it names any.
pub open spec fn drawn_of(measured: Seq<u8>, over: bool, only: Seq<u8>) -> Seq<u8> {
    keyboard().filter(
        |key: u8| measured.contains(key) == over && (only.len() == 0 || only.contains(key)),
    )
}

/// Whether a key is in a list.
pub fn among(keys: &Vec<u8>, key: u8) -> (r: bool)
    ensures
        r == keys@.contains(key),
{
    let mut i: usize = 0;
    while i < keys.len()
        invariant
            i <= keys.len(),
            forall|k: int| 0 <= k < i ==> keys@[k] != key,
        decreases keys.len() - i,
    {
        if keys[i] == key {
            return true;
        }
        i = i + 1;
    }
    false
}

/// The keys that have a measured row of gains.
pub fn measured_keys(notes: &Notes) -> (r: Vec<u8>)
    requires
        notes.partial_gains.len() == NUM_KEYS,
    ensures
        r@ == measured_of(notes@.partial_gains),
{
    let ghost keep = |key: u8| notes@.partial_gains[key - LOWEST_KEY].len() > 0;
    let mut out: Vec<u8> = Vec::new();
    let mut i: usize = 0;
    proof {
        reveal(Seq::filter);
        assert(keyboard().take(0) =~= Seq::<u8>::empty());
        assert(keyboard().take(0).filter(keep) =~= Seq::<u8>::empty());
    }
    while i < NUM_KEYS
        invariant
            i <= NUM_KEYS,
            notes.partial_gains.len() == NUM_KEYS,
            keep == (|key: u8| notes@.partial_gains[key - LOWEST_KEY].len() > 0),
            out@ == keyboard().take(i as int).filter(keep),
        decreases NUM_KEYS - i,
    {
        let key: u8 = LOWEST_KEY + i as u8;
        proof {
            reveal(Seq::filter);
            assert(keyboard().take(i + 1).drop_last() =~= keyboard().take(i as int));
            assert(keyboard().take(i + 1).last() == key);
        }
        if notes.partial_gains[i].len() > 0 {
            out.push(key);
        }
        i = i + 1;
    }
    proof {
        assert(keyboard().take(i as int) =~= keyboard());
    }
    out
}

/// The keys whose rows are drawn.
pub fn drawn_keys(measured: &Vec<u8>, over: bool, only: &Vec<u8>) -> (r: Vec<u8>)
    ensures
        r@ == drawn_of(measured@, over, only@),
{
    let ghost keep = |key: u8|
        measured@.contains(key) == over && (only@.len() == 0 || only@.contains(key));
    let mut out: Vec<u8> = Vec::new();
    let mut i: usize = 0;
    proof {
        reveal(Seq::filter);
        assert(keyboard().take(0) =~= Seq::<u8>::empty());
        assert(keyboard().take(0).filter(keep) =~= Seq::<u8>::empty());
    }
    while i < NUM_KEYS
        invariant
            i <= NUM_KEYS,
            keep == (|key: u8|
                measured@.contains(key) == over && (only@.len() == 0 || only@.contains(key))),
            out@ == keyboard().take(i as int).filter(keep),
        decreases NUM_KEYS - i,
    {
        let key: u8 = LOWEST_KEY + i as u8;
        proof {
            reveal(Seq::filter);
            assert(keyboard().take(i + 1).drop_last() =~= keyboard().take(i as int));
            assert(keyboard().take(i + 1).last() == key);
        }
        if among(measured, key) == over && (only.len() == 0 || among(only, key)) {
            out.push(key);
        }
        i = i + 1;
    }
    proof {
        assert(keyboard().take(i as int) =~= keyboard());
    }
    out
}

/// A key with what was drawn for it, and whether its row came under the ceiling
/// on the render.
pub struct DrawnKey {
    pub key: u8,
    pub reached: bool,
    pub row: Vec<Reading>,
    pub splits: Vec<FalseBeat>,
}

/// `x` held between `low` and `high`; what is not a number stays so.
pub open spec fn held(x: Reading, low: Reading, high: Reading) -> Reading {
    let a = if x.below(low) {
        low
    } else {
        x
    };
    if high.below(a) {
        high
    } else {
        a
    }
}

/// `row` without the ones at its end.
pub open spec fn trimmed(row: Seq<Reading>) -> Seq<Reading>
    decreases row.len(),
{
    if row.len() > 0 && row.last().bits == ONE {
        trimmed(row.drop_last())
    } else {
        row
    }
}

/// The row that is written for a drawn key: nothing where the ceiling refused
/// it, else its gains held in range, without the ones at the end.
pub open spec fn row_of(d: DrawnKey, low: Reading, high: Reading) -> Seq<Reading> {
    if d.reached {
        trimmed(d.row@.map_values(|x: Reading| held(x, low, high)))
    } else {
        Seq::empty()
    }
}

/// The tables after one drawn key was written. The key is listed as drawn only
/// if something was written for it.
pub open spec fn with_drawn(t: Tables, d: DrawnKey, low: Reading, high: Reading) -> Tables {
    match index_of(d.key) {
        None => t,
        Some(i) => Tables {
            partial_gains: t.partial_gains.update(i, row_of(d, low, high)),
            false_beat: t.false_beat.update(i, d.splits@),
            synthesized_texture: if row_of(d, low, high).len() > 0 || d.splits.len() > 0 {
                t.synthesized_texture.push(d.key)
            } else {
                t.synthesized_texture
            },
            ..t
        },
    }
}

/// The tables after every drawn key was written in turn.
pub open spec fn with_all_drawn(t: Tables, drawn: Seq<DrawnKey>, low: Reading, high: Reading) -> Tables
    decreases drawn.len(),
{
    if drawn.len() == 0 {
        t
    } else {
        with_drawn(with_all_drawn(t, drawn.drop_last(), low, high), drawn.last(), low, high)
    }
}

/// How many drawn rows of the keyboard the ceiling refused.
pub open spec fn refusals(drawn: Seq<DrawnKey>) -> nat
    decreases drawn.len(),
{
    if drawn.len() == 0 {
        0
    } else {
        refusals(drawn.drop_last()) + (if index_of(drawn.last().key) is Some
            && !drawn.last().reached {
            1nat
        } else {
            0nat
        })
    }
}

fn hold(x: Reading, low: Reading, high: Reading) -> (r: Reading)
    ensures
        r == held(x, low, high),
{
    let a = if x.lt(&low) {
        low
    } else {
        x
    };
    if high.lt(&a) {
        high
    } else {
        a
    }
}

/// The row of gains that is written: each held in range, without the ones at
/// the end.
pub fn written_row(row: &Vec<Reading>, low: Reading, high: Reading) -> (r: Vec<Reading>)
    ensures
        r@ == trimmed(row@.map_values(|x: Reading| held(x, low, high))),
{
    let ghost whole = row@.map_values(|x: Reading| held(x, low, high));
    let mut out: Vec<Reading> = Vec::new();
    let mut i: usize = 0;
    while i < row.len()
        invariant
            i <= row.len(),
            whole == row@.map_values(|x: Reading| held(x, low, high)),
            out@ == whole.take(i as int),
        decreases row.len() - i,
    {
        out.push(hold(row[i], low, high));
        i = i + 1;
        proof {
            assert(out@ =~= whole.take(i as int));
        }
    }
    proof {
        assert(whole.take(i as int) =~= whole);
    }
    while out.len() > 0 && out[out.len() - 1].bits == ONE
        invariant
            trimmed(out@) == trimmed(whole),
        decreases out.len(),
    {
        let ghost before = out@;
        let _ = out.pop();
        proof {
            assert(out@ =~= before.drop_last());
        }
    }
    out
}

/// Writes the drawn rows into full tables, and says how many were refused.
pub fn write_drawn(notes: &mut Notes, drawn: &Vec<DrawnKey>, low: Reading, high: Reading) -> (refused: usize)
    requires
        old(notes).partial_gains.len() == NUM_KEYS,
        old(notes).false_beat.len() == NUM_KEYS,
    ensures
        final(notes)@ == with_all_drawn(old(notes)@, drawn@, low, high),
        refused == refusals(drawn@),
        refused == drawn@.filter(|d: DrawnKey| 21 <= d.key <= 108 && !d.reached).len(),
        final(notes).partial_gains.len() == 88,
        final(notes).false_beat.len() == 88,
        final(notes).partial_sigma_scale@ == old(notes).partial_sigma_scale@,
        forall|n: int|
            0 <= n < drawn.len() && 21 <= (#[trigger] drawn@[n]).key <= 108 && !later(drawn@, n)
                ==> {
                let d = drawn@[n];
                let row = final(notes).partial_gains@[d.key - 21]@;
                &&& !d.reached ==> row.len() == 0
                &&& d.reached ==> row.len() <= d.row.len()
                &&& row.len() > 0 ==> d.reached && row.last().bits != ONE
                &&& final(notes).false_beat@[d.key - 21]@ == d.splits@
                &&& row.len() > 0 || d.splits.len() > 0
                    ==> final(notes).synthesized_texture@.contains(d.key)
            },
        forall|n: int, k: int|
            0 <= n < drawn.len() && 21 <= (#[trigger] drawn@[n]).key <= 108 && !later(drawn@, n)
                && drawn@[n].reached && 0 <= k < drawn@[n].row.len() ==> {
                let x = #[trigger] drawn@[n].row@[k];
                let row = final(notes).partial_gains@[drawn@[n].key - 21]@;
                let y = if k < row.len() {
                    row[k]
                } else {
                    Reading { bits: ONE }
                };
                &&& x.nan() || (low.at_most(x) && x.at_most(high)) ==> y == x
                &&& x.below(low) && low.at_most(high) ==> y == low
                &&& high.below(x) && low.at_most(high) ==> y == high
            },
        forall|i: int|
            0 <= i < 88 && !named(drawn@, (21 + i) as u8) ==> (#[trigger] final(notes).partial_gains@[i])@ == old(notes).partial_gains@[i]@,
        forall|i: int|
            0 <= i < 88 && !named(drawn@, (21 + i) as u8) ==> (#[trigger] final(notes).false_beat@[i])@ == old(notes).false_beat@[i]@,
        old(notes).synthesized_texture@.is_prefix_of(final(notes).synthesized_texture@),
        forall|key: u8| #[trigger]
            final(notes).synthesized_texture@.contains(key) && !old(notes).synthesized_texture@.contains(key) ==> listable(drawn@, key),
{
    let mut refused: usize = 0;
    let mut i: usize = 0;
    proof {
        assert(drawn@.take(0) =~= Seq::<DrawnKey>::empty());
    }
    while i < drawn.len()
        invariant
            i <= drawn.len(),
            refused <= i,
            refused == refusals(drawn@.take(i as int)),
            notes.partial_gains.len() == NUM_KEYS,
            notes.false_beat.len() == NUM_KEYS,
            notes@ == with_all_drawn(old(notes)@, drawn@.take(i as int), low, high),
            notes.partial_sigma_scale == old(notes).partial_sigma_scale,
        decreases drawn.len() - i,
    {
        let d = &drawn[i];
        let ghost before = notes@;
        proof {
            assert(drawn@.take(i + 1).drop_last() =~= drawn@.take(i as int));
            assert(drawn@.take(i + 1).last() == drawn@[i as int]);
        }
        if let Some(at) = key_index(d.key) {
            let row: Vec<Reading> = if d.reached {
                written_row(&d.row, low, high)
            } else {
                refused = refused + 1;
                Vec::new()
            };
            assert(row@ =~= row_of(*d, low, high));
            let some = row.len() > 0 || d.splits.len() > 0;
            let splits = copy_rows(&d.splits);
            notes.partial_gains.set(at, row);
            notes.false_beat.set(at, splits);
            if some {
                notes.synthesized_texture.push(d.key);
            }
            proof {
                assert(notes@.partial_gains =~= before.partial_gains.update(
                    at as int,
                    row_of(*d, low, high),
                ));
                assert(notes@.false_beat =~= before.false_beat.update(at as int, d.splits@));
            }
        }
        i = i + 1;
    }
    proof {
        assert(drawn@.take(i as int) =~= drawn@);
        refusals_are_counted(drawn@);
        let t = old(notes)@;
        assert forall|n: int|
            0 <= n < drawn.len() && 21 <= (#[trigger] drawn@[n]).key <= 108 && !later(
                drawn@,
                n,
            ) implies {
            let d = drawn@[n];
            let row = notes.partial_gains@[d.key - 21]@;
            &&& !d.reached ==> row.len() == 0
            &&& d.reached ==> row.len() <= d.row.len()
            &&& row.len() > 0 ==> d.reached && row.last().bits != ONE
            &&& notes.false_beat@[d.key - 21]@ == d.splits@
            &&& row.len() > 0 || d.splits.len() > 0 ==> notes.synthesized_texture@.contains(d.key)
        } by {
            the_last_draw_of_a_key_is_written(t, drawn@, low, high, n);
            assert(notes@.partial_gains[drawn@[n].key - 21] == notes.partial_gains@[drawn@[n].key
                - 21]@);
            assert(notes@.false_beat[drawn@[n].key - 21] == notes.false_beat@[drawn@[n].key - 21]@);
        }
        assert forall|n: int, k: int|
            0 <= n < drawn.len() && 21 <= (#[trigger] drawn@[n]).key <= 108 && !later(drawn@, n)
                && drawn@[n].reached && 0 <= k < drawn@[n].row.len() implies {
            let x = #[trigger] drawn@[n].row@[k];
            let row = notes.partial_gains@[drawn@[n].key - 21]@;
            let y = if k < row.len() {
                row[k]
            } else {
                Reading { bits: ONE }
            };
            &&& x.nan() || (low.at_most(x) && x.at_most(high)) ==> y == x
            &&& x.below(low) && low.at_most(high) ==> y == low
            &&& high.below(x) && low.at_most(high) ==> y == high
        } by {
            the_last_draw_of_a_key_is_written(t, drawn@, low, high, n);
            assert(notes@.partial_gains[drawn@[n].key - 21] == notes.partial_gains@[drawn@[n].key
                - 21]@);
        }
        assert forall|i: int| 0 <= i < 88 && !named(drawn@, (21 + i) as u8) implies (
        #[trigger] notes.partial_gains@[i])@ == old(notes).partial_gains@[i]@ by {
            a_key_that_is_not_drawn_keeps_its_rows(t, drawn@, low, high, (21 + i) as u8);
            assert(notes@.partial_gains[i] == notes.partial_gains@[i]@);
            assert(t.partial_gains[i] == old(notes).partial_gains@[i]@);
        }
        assert forall|i: int| 0 <= i < 88 && !named(drawn@, (21 + i) as u8) implies (
        #[trigger] notes.false_beat@[i])@ == old(notes).false_beat@[i]@ by {
            a_key_that_is_not_drawn_keeps_its_rows(t, drawn@, low, high, (21 + i) as u8);
            assert(notes@.false_beat[i] == notes.false_beat@[i]@);
            assert(t.false_beat[i] == old(notes).false_beat@[i]@);
        }
        a_draw_only_adds_to_the_list(t, drawn@, low, high);
    }
    refused
}

/// Whether a later draw is for the same key as draw `n`.
pub open spec fn later(drawn: Seq<DrawnKey>, n: int) -> bool {
    exists|m: int| n < m < drawn.len() && (#[trigger] drawn[m]).key == drawn[n].key
}

/// Whether some draw is for this key.
pub open spec fn named(drawn: Seq<DrawnKey>, key: u8) -> bool {
    exists|m: int| 0 <= m < drawn.len() && (#[trigger] drawn[m]).key == key
}

/// Whether some draw has something to write for this key, which is on the
/// keyboard: splits, or a row that came under the ceiling.
pub open spec fn listable(drawn: Seq<DrawnKey>, key: u8) -> bool {
    21 <= key <= 108 && exists|m: int|
        0 <= m < drawn.len() && (#[trigger] drawn[m]).key == key && (drawn[m].splits.len() > 0 || (
        drawn[m].reached && drawn[m].row.len() > 0))
}

proof fn refusals_are_counted(drawn: Seq<DrawnKey>)
    ensures
        refusals(drawn) == drawn.filter(|d: DrawnKey| 21 <= d.key <= 108 && !d.reached).len(),
    decreases drawn.len(),
{
    reveal(Seq::filter);
    if drawn.len() > 0 {
        refusals_are_counted(drawn.drop_last());
    }
}

/// Only ones are left off the end of a row, and all of them are.
pub proof fn trimming_drops_ones(row: Seq<Reading>)
    ensures
        trimmed(row).len() <= row.len(),
        forall|k: int| 0 <= k < trimmed(row).len() ==> #[trigger] trimmed(row)[k] == row[k],
        forall|k: int| trimmed(row).len() <= k < row.len() ==> (#[trigger] row[k]).bits == ONE,
        trimmed(row).len() > 0 ==> trimmed(row).last().bits != ONE,
    decreases row.len(),
{
    if row.len() > 0 && row.last().bits == ONE {
        trimming_drops_ones(row.drop_last());
        assert forall|k: int| trimmed(row).len() <= k < row.len() implies (#[trigger] row[k]).bits
            == ONE by {
            if k < row.len() - 1 {
                assert(row.drop_last()[k].bits == ONE);
            }
        }
    }
}

/// The last draw of a key decides what is written for it. A draw that the
/// ceiling refused leaves the key without a row. Else a gain inside the bounds
/// is written as it is and one outside at the bound, and only ones are left off
/// the end. The splits are written as they were drawn, and the key is listed
/// where anything was written.
pub proof fn the_last_draw_of_a_key_is_written(
    t: Tables,
    drawn: Seq<DrawnKey>,
    low: Reading,
    high: Reading,
    n: int,
)
    requires
        t.partial_gains.len() == 88,
        t.false_beat.len() == 88,
        0 <= n < drawn.len(),
        21 <= drawn[n].key <= 108,
        !later(drawn, n),
    ensures
        ({
            let d = drawn[n];
            let after = with_all_drawn(t, drawn, low, high);
            let row = after.partial_gains[d.key - 21];
            &&& after.partial_gains.len() == 88
            &&& after.false_beat.len() == 88
            &&& !d.reached ==> row.len() == 0
            &&& d.reached ==> row.len() <= d.row.len()
            &&& d.reached ==> forall|k: int|
                0 <= k < d.row.len() ==> {
                    let x = #[trigger] d.row@[k];
                    let y = if k < row.len() {
                        row[k]
                    } else {
                        Reading { bits: ONE }
                    };
                    &&& x.nan() || (low.at_most(x) && x.at_most(high)) ==> y == x
                    &&& x.below(low) && low.at_most(high) ==> y == low
                    &&& high.below(x) && low.at_most(high) ==> y == high
                }
            &&& row.len() > 0 ==> row.last().bits != ONE
            &&& after.false_beat[d.key - 21] == d.splits@
            &&& row.len() > 0 || d.splits.len() > 0 ==> after.synthesized_texture.contains(d.key)
        }),
    decreases drawn.len(),
{
    let d = drawn[n];
    let last = drawn.len() - 1;
    let shorter = drawn.drop_last();
    let before = with_all_drawn(t, shorter, low, high);
    let after = with_all_drawn(t, drawn, low, high);
    tables_keep_their_size(t, shorter, low, high);
    assert(drawn[last] == drawn.last());
    if n == last {
        let whole = d.row@.map_values(|x: Reading| held(x, low, high));
        trimming_drops_ones(whole);
        assert forall|k: int| 0 <= k < d.row.len() implies whole[k] == held(
            #[trigger] d.row@[k],
            low,
            high,
        ) by {}
        let m = before.synthesized_texture.len() as int;
        if after.partial_gains[d.key - 21].len() > 0 || d.splits.len() > 0 {
            assert(after.synthesized_texture[m] == d.key);
        }
    } else {
        assert(drawn[last].key != d.key);
        assert(shorter[n] == d);
        assert(!later(shorter, n)) by {
            if later(shorter, n) {
                let m = choose|m: int|
                    n < m < shorter.len() && (#[trigger] shorter[m]).key == shorter[n].key;
                assert(drawn[m].key == d.key);
            }
        }
        the_last_draw_of_a_key_is_written(t, shorter, low, high, n);
        if before.synthesized_texture.contains(d.key) {
            let at = choose|at: int|
                0 <= at < before.synthesized_texture.len() && before.synthesized_texture[at]
                    == d.key;
            assert(after.synthesized_texture[at] == d.key);
        }
    }
}

proof fn tables_keep_their_size(t: Tables, drawn: Seq<DrawnKey>, low: Reading, high: Reading)
    requires
        t.partial_gains.len() == 88,
        t.false_beat.len() == 88,
    ensures
        with_all_drawn(t, drawn, low, high).partial_gains.len() == t.partial_gains.len(),
        with_all_drawn(t, drawn, low, high).false_beat.len() == t.false_beat.len(),
    decreases drawn.len(),
{
    if drawn.len() > 0 {
        tables_keep_their_size(t, drawn.drop_last(), low, high);
    }
}

/// A key that is not drawn keeps its rows.
pub proof fn a_key_that_is_not_drawn_keeps_its_rows(
    t: Tables,
    drawn: Seq<DrawnKey>,
    low: Reading,
    high: Reading,
    key: u8,
)
    requires
        t.partial_gains.len() == 88,
        t.false_beat.len() == 88,
        21 <= key <= 108,
        !named(drawn, key),
    ensures
        with_all_drawn(t, drawn, low, high).partial_gains[key - 21] == t.partial_gains[key - 21],
        with_all_drawn(t, drawn, low, high).false_beat[key - 21] == t.false_beat[key - 21],
    decreases drawn.len(),
{
    if drawn.len() > 0 {
        let shorter = drawn.drop_last();
        assert(!named(shorter, key)) by {
            if named(shorter, key) {
                let m = choose|m: int| 0 <= m < shorter.len() && (#[trigger] shorter[m]).key == key;
                assert(drawn[m].key == key);
            }
        }
        a_key_that_is_not_drawn_keeps_its_rows(t, shorter, low, high, key);
        tables_keep_their_size(t, shorter, low, high);
        assert(drawn[drawn.len() - 1].key != key);
    }
}

/// A draw only adds to the list of drawn keys, and only keys that it has
/// something to write for.
pub proof fn a_draw_only_adds_to_the_list(
    t: Tables,
    drawn: Seq<DrawnKey>,
    low: Reading,
    high: Reading,
)
    ensures
        t.synthesized_texture.is_prefix_of(with_all_drawn(t, drawn, low, high).synthesized_texture),
        forall|key: u8| #[trigger]
            with_all_drawn(t, drawn, low, high).synthesized_texture.contains(key)
                && !t.synthesized_texture.contains(key) ==> listable(drawn, key),
        with_all_drawn(t, drawn, low, high).partial_sigma_scale == t.partial_sigma_scale,
    decreases drawn.len(),
{
    if drawn.len() > 0 {
        let shorter = drawn.drop_last();
        let last = drawn.len() - 1;
        let d = drawn.last();
        let before = with_all_drawn(t, shorter, low, high).synthesized_texture;
        let after = with_all_drawn(t, drawn, low, high).synthesized_texture;
        a_draw_only_adds_to_the_list(t, shorter, low, high);
        trimming_drops_ones(d.row@.map_values(|x: Reading| held(x, low, high)));
        assert(drawn[last] == d);
        assert forall|key: u8| #[trigger] after.contains(key) && !t.synthesized_texture.contains(
            key,
        ) implies listable(drawn, key) by {
            let at = choose|at: int| 0 <= at < after.len() && after[at] == key;
            if at < before.len() {
                assert(before[at] == key);
                assert(before.contains(key));
                let m = choose|m: int|
                    0 <= m < shorter.len() && (#[trigger] shorter[m]).key == key && (
                    shorter[m].splits.len() > 0 || (shorter[m].reached && shorter[m].row.len() > 0));
                assert(drawn[m] == shorter[m]);
            } else {
                assert(drawn[last].key == key);
            }
        }
    }
}

fn copy_rows(rows: &Vec<FalseBeat>) -> (r: Vec<FalseBeat>)
    ensures
        r@ == rows@,
{
    let mut out: Vec<FalseBeat> = Vec::new();
    let mut i: usize = 0;
    while i < rows.len()
        invariant
            i <= rows.len(),
            out@ == rows@.take(i as int),
        decreases rows.len() - i,
    {
        out.push(rows[i]);
        i = i + 1;
        proof {
            assert(out@ =~= rows@.take(i as int));
        }
    }
    proof {
        assert(rows@.take(i as int) =~= rows@);
    }
    out
}

/// The tables with the gains and splits of these keys emptied.
pub open spec fn erased(t: Tables, keys: Seq<u8>) -> Tables
    decreases keys.len(),
{
    if keys.len() == 0 {
        t
    } else {
        let before = erased(t, keys.drop_last());
        match index_of(keys.last()) {
            None => before,
            Some(i) => Tables {
                partial_gains: before.partial_gains.update(i, Seq::empty()),
                false_beat: before.false_beat.update(i, Seq::empty()),
                ..before
            },
        }
    }
}

/// Empties the gains and splits of these keys.
pub fn erase(notes: &mut Notes, keys: &Vec<u8>)
    requires
        old(notes).partial_gains.len() == NUM_KEYS,
        old(notes).false_beat.len() == NUM_KEYS,
    ensures
        final(notes)@ == erased(old(notes)@, keys@),
{
    let mut i: usize = 0;
    proof {
        assert(keys@.take(0) =~= Seq::<u8>::empty());
    }
    while i < keys.len()
        invariant
            i <= keys.len(),
            notes.partial_gains.len() == NUM_KEYS,
            notes.false_beat.len() == NUM_KEYS,
            notes@ == erased(old(notes)@, keys@.take(i as int)),
        decreases keys.len() - i,
    {
        let ghost before = notes@;
        proof {
            assert(keys@.take(i + 1).drop_last() =~= keys@.take(i as int));
        }
        if let Some(at) = key_index(keys[i]) {
            notes.partial_gains.set(at, Vec::new());
            notes.false_beat.set(at, Vec::new());
            proof {
                assert(notes@.partial_gains =~= before.partial_gains.update(at as int, Seq::empty()));
                assert(notes@.false_beat =~= before.false_beat.update(at as int, Seq::empty()));
            }
        }
        i = i + 1;
    }
    proof {
        assert(keys@.take(i as int) =~= keys@);
    }
}

/// Nothing was drawn twice, and what was drawn was for keys without rows.
pub open spec fn drawn_over_nothing(t: Tables, drawn: Seq<DrawnKey>) -> bool {
    &&& t.partial_gains.len() == NUM_KEYS
    &&& t.false_beat.len() == NUM_KEYS
    &&& t.synthesized_texture.len() == 0
    &&& forall|i: int, j: int|
        0 <= i < j < drawn.len() ==> (#[trigger] drawn[i]).key != (#[trigger] drawn[j]).key
    &&& forall|i: int|
        0 <= i < drawn.len() ==> (index_of((#[trigger] drawn[i]).key) matches Some(k)
            ==> t.partial_gains[k].len() == 0 && t.false_beat[k].len() == 0)
}

/// Clearing what was drawn gives back the tables from before the draw: a second
/// run of the stage starts where the first one did.
pub proof fn clearing_undoes_a_draw(t: Tables, drawn: Seq<DrawnKey>, low: Reading, high: Reading)
    requires
        drawn_over_nothing(t, drawn),
    ensures
        before_draw(with_all_drawn(t, drawn, low, high)) == t,
{
    let after = with_all_drawn(t, drawn, low, high);
    let names = after.synthesized_texture;
    let start = Tables { synthesized_texture: Seq::empty(), ..after };
    after_a_draw(t, drawn, low, high);
    after_clearing(start, names);
    let bare = cleared(start, names);
    assert(before_draw(after) == (Tables {
        partial_gains: grown(bare.partial_gains),
        false_beat: grown(bare.false_beat),
        ..bare
    }));
    assert forall|k: int| 0 <= k < NUM_KEYS implies bare.partial_gains[k] == t.partial_gains[k]
        && bare.false_beat[k] == t.false_beat[k] by {
        let key = (LOWEST_KEY + k) as u8;
        if exists|i: int| 0 <= i < drawn.len() && index_of((#[trigger] drawn[i]).key) == Some(k) {
            let i = choose|i: int|
                0 <= i < drawn.len() && index_of((#[trigger] drawn[i]).key) == Some(k);
            assert(drawn[i].key == key);
            assert(t.partial_gains[k].len() == 0 && t.false_beat[k].len() == 0);
            assert(t.partial_gains[k] =~= Seq::<Reading>::empty());
            assert(t.false_beat[k] =~= Seq::<FalseBeat>::empty());
            assert(after.partial_gains[k] == row_of(drawn[i], low, high));
            assert(after.false_beat[k] == drawn[i].splits@);
            if !names.contains(key) {
                assert(row_of(drawn[i], low, high) =~= Seq::<Reading>::empty());
                assert(drawn[i].splits@ =~= Seq::<FalseBeat>::empty());
            }
        } else {
            if names.contains(key) {
                let i = choose|i: int| 0 <= i < drawn.len() && (#[trigger] drawn[i]).key == key;
                assert(index_of(drawn[i].key) == Some(k));
            }
            assert(after.partial_gains[k] == t.partial_gains[k]);
            assert(after.false_beat[k] == t.false_beat[k]);
        }
    }
    assert(bare.partial_gains =~= t.partial_gains);
    assert(bare.false_beat =~= t.false_beat);
    assert(bare.synthesized_texture =~= t.synthesized_texture);
}

proof fn after_a_draw(t: Tables, drawn: Seq<DrawnKey>, low: Reading, high: Reading)
    requires
        t.partial_gains.len() == NUM_KEYS,
        t.false_beat.len() == NUM_KEYS,
        t.synthesized_texture.len() == 0,
        forall|i: int, j: int|
            0 <= i < j < drawn.len() ==> (#[trigger] drawn[i]).key != (#[trigger] drawn[j]).key,
    ensures
        ({
            let after = with_all_drawn(t, drawn, low, high);
            &&& after.partial_gains.len() == NUM_KEYS
            &&& after.false_beat.len() == NUM_KEYS
            &&& after.partial_sigma_scale == t.partial_sigma_scale
            &&& forall|k: int, i: int|
                0 <= k < NUM_KEYS && 0 <= i < drawn.len() && index_of((#[trigger] drawn[i]).key)
                    == Some(k) ==> (#[trigger] after.partial_gains[k]) == row_of(drawn[i], low, high)
            &&& forall|k: int, i: int|
                0 <= k < NUM_KEYS && 0 <= i < drawn.len() && index_of((#[trigger] drawn[i]).key)
                    == Some(k) ==> (#[trigger] after.false_beat[k]) == drawn[i].splits@
            &&& forall|k: int|
                0 <= k < NUM_KEYS && !(exists|i: int|
                    0 <= i < drawn.len() && index_of((#[trigger] drawn[i]).key) == Some(k))
                    ==> (#[trigger] after.partial_gains[k]) == t.partial_gains[k]
            &&& forall|k: int|
                0 <= k < NUM_KEYS && !(exists|i: int|
                    0 <= i < drawn.len() && index_of((#[trigger] drawn[i]).key) == Some(k))
                    ==> (#[trigger] after.false_beat[k]) == t.false_beat[k]
            &&& forall|key: u8| #[trigger]
                after.synthesized_texture.contains(key) ==> exists|i: int|
                    0 <= i < drawn.len() && (#[trigger] drawn[i]).key == key
            &&& forall|i: int|
                0 <= i < drawn.len() && index_of((#[trigger] drawn[i]).key) is Some && (row_of(
                    drawn[i],
                    low,
                    high,
                ).len() > 0 || drawn[i].splits.len() > 0) ==> after.synthesized_texture.contains(
                    drawn[i].key,
                )
        }),
    decreases drawn.len(),
{
    let after = with_all_drawn(t, drawn, low, high);
    if drawn.len() > 0 {
        let shorter = drawn.drop_last();
        let last = drawn.last();
        let n = drawn.len() - 1;
        assert forall|i: int, j: int| 0 <= i < j < shorter.len() implies (#[trigger] shorter[i]).key
            != (#[trigger] shorter[j]).key by {
            assert(shorter[i] == drawn[i] && shorter[j] == drawn[j]);
        }
        after_a_draw(t, shorter, low, high);
        let before = with_all_drawn(t, shorter, low, high);
        assert(drawn[n] == last);
        assert forall|k: int, i: int|
            0 <= k < NUM_KEYS && 0 <= i < drawn.len() && index_of((#[trigger] drawn[i]).key) == Some(
                k,
            ) implies (#[trigger] after.partial_gains[k]) == row_of(drawn[i], low, high) by {
            if i < n {
                assert(shorter[i] == drawn[i]);
                assert(drawn[i].key != drawn[n].key);
                assert(before.partial_gains[k] == row_of(shorter[i], low, high));
            }
        }
        assert forall|k: int, i: int|
            0 <= k < NUM_KEYS && 0 <= i < drawn.len() && index_of((#[trigger] drawn[i]).key) == Some(
                k,
            ) implies (#[trigger] after.false_beat[k]) == drawn[i].splits@ by {
            if i < n {
                assert(shorter[i] == drawn[i]);
                assert(drawn[i].key != drawn[n].key);
                assert(before.false_beat[k] == shorter[i].splits@);
            }
        }
        assert forall|k: int|
            0 <= k < NUM_KEYS && !(exists|i: int|
                0 <= i < drawn.len() && index_of((#[trigger] drawn[i]).key) == Some(k)) implies (
        #[trigger] after.partial_gains[k]) == t.partial_gains[k] && after.false_beat[k]
            == t.false_beat[k] by {
            assert(index_of(drawn[n].key) != Some(k));
            assert forall|i: int| 0 <= i < shorter.len() implies index_of((#[trigger] shorter[i]).key)
                != Some(k) by {
                assert(shorter[i] == drawn[i]);
            }
            assert(before.partial_gains[k] == t.partial_gains[k]);
            assert(before.false_beat[k] == t.false_beat[k]);
        }
        assert forall|key: u8| #[trigger]
            after.synthesized_texture.contains(key) implies exists|i: int|
            0 <= i < drawn.len() && (#[trigger] drawn[i]).key == key by {
            if key == last.key {
                assert(drawn[n].key == key);
            } else {
                let at = choose|at: int|
                    0 <= at < after.synthesized_texture.len() && after.synthesized_texture[at] == key;
                assert(before.synthesized_texture[at] == key);
                assert(before.synthesized_texture.contains(key));
                let i = choose|i: int| 0 <= i < shorter.len() && (#[trigger] shorter[i]).key == key;
                assert(drawn[i].key == key);
            }
        }
        assert forall|i: int|
            0 <= i < drawn.len() && index_of((#[trigger] drawn[i]).key) is Some && (row_of(
                drawn[i],
                low,
                high,
            ).len() > 0 || drawn[i].splits.len() > 0) implies after.synthesized_texture.contains(
            drawn[i].key,
        ) by {
            if i < n {
                assert(shorter[i] == drawn[i]);
                assert(before.synthesized_texture.contains(drawn[i].key));
                let at = choose|at: int|
                    0 <= at < before.synthesized_texture.len() && before.synthesized_texture[at]
                        == drawn[i].key;
                assert(after.synthesized_texture[at] == drawn[i].key);
            } else {
                let m = before.synthesized_texture.len() as int;
                assert(after.synthesized_texture[m] == drawn[i].key);
            }
        }
    }
}

proof fn after_clearing(t: Tables, keys: Seq<u8>)
    requires
        t.partial_gains.len() == NUM_KEYS,
        t.false_beat.len() == NUM_KEYS,
    ensures
        ({
            let after = cleared(t, keys);
            &&& after.partial_gains.len() == NUM_KEYS
            &&& after.false_beat.len() == NUM_KEYS
            &&& after.partial_sigma_scale == t.partial_sigma_scale
            &&& after.synthesized_texture == t.synthesized_texture
            &&& forall|k: int|
                0 <= k < NUM_KEYS ==> (#[trigger] after.partial_gains[k]) == (if keys.contains(
                    (LOWEST_KEY + k) as u8,
                ) {
                    Seq::empty()
                } else {
                    t.partial_gains[k]
                })
            &&& forall|k: int|
                0 <= k < NUM_KEYS ==> (#[trigger] after.false_beat[k]) == (if keys.contains(
                    (LOWEST_KEY + k) as u8,
                ) {
                    Seq::empty()
                } else {
                    t.false_beat[k]
                })
        }),
    decreases keys.len(),
{
    if keys.len() > 0 {
        let shorter = keys.drop_last();
        after_clearing(t, shorter);
        let before = cleared(t, shorter);
        let after = cleared(t, keys);
        assert forall|key: u8| #[trigger]
            keys.contains(key) == (shorter.contains(key) || keys.last() == key) by {
            if keys.contains(key) && keys.last() != key {
                let at = choose|at: int| 0 <= at < keys.len() && keys[at] == key;
                assert(shorter[at] == key);
            }
            if shorter.contains(key) {
                let at = choose|at: int| 0 <= at < shorter.len() && shorter[at] == key;
                assert(keys[at] == key);
            }
            if keys.last() == key {
                assert(keys[keys.len() - 1] == key);
            }
        }
        assert forall|k: int| 0 <= k < NUM_KEYS implies (#[trigger] after.partial_gains[k]) == (
        if keys.contains((LOWEST_KEY + k) as u8) {
            Seq::empty()
        } else {
            t.partial_gains[k]
        }) && after.false_beat[k] == (if keys.contains((LOWEST_KEY + k) as u8) {
            Seq::empty()
        } else {
            t.false_beat[k]
        }) by {
            assert(before.partial_gains[k] == (if shorter.contains((LOWEST_KEY + k) as u8) {
                Seq::empty()
            } else {
                t.partial_gains[k]
            }));
            assert(before.false_beat[k] == (if shorter.contains((LOWEST_KEY + k) as u8) {
                Seq::empty()
            } else {
                t.false_beat[k]
            }));
        }
    }
}

/// A key is either measured or drawn, and never both, unless the draw is made
/// over the measured keys.
pub proof fn a_key_is_measured_or_drawn(gains: Seq<Seq<Reading>>, key: u8)
    requires
        LOWEST_KEY <= key <= HIGHEST_KEY,
    ensures
        drawn_of(measured_of(gains), false, Seq::empty()).contains(key) == !measured_of(
            gains,
        ).contains(key),
        drawn_of(measured_of(gains), true, Seq::empty()).contains(key) == measured_of(
            gains,
        ).contains(key),
{
    let measured = measured_of(gains);
    on_the_keyboard(key);
    assert forall|over: bool| #[trigger]
        drawn_of(measured, over, Seq::empty()).contains(key) == (measured.contains(key) == over) by {
        let keep = |k: u8|
            measured.contains(k) == over && (Seq::<u8>::empty().len() == 0 || Seq::<
                u8,
            >::empty().contains(k));
        broadcast use vstd::seq_lib::group_filter_ensures;

        let i = choose|i: int| 0 <= i < keyboard().len() && keyboard()[i] == key;
        if keep(key) {
            assert(keyboard().filter(keep).contains(keyboard()[i]));
        }
        if keyboard().filter(keep).contains(key) {
            let at = choose|at: int|
                0 <= at < keyboard().filter(keep).len() && keyboard().filter(keep)[at] == key;
            assert(keep(keyboard().filter(keep)[at]));
        }
    }
}

proof fn on_the_keyboard(key: u8)
    requires
        LOWEST_KEY <= key <= HIGHEST_KEY,
    ensures
        keyboard().contains(key),
{
    assert(keyboard()[key - LOWEST_KEY] == key);
}

/// A key is measured where it has a row of gains, and drawn where it is not, or
/// over what was measured where that is asked; and only where it is asked for.
pub proof fn a_key_is_drawn_where_it_was_not_measured(
    gains: Seq<Seq<Reading>>,
    measured: Seq<u8>,
    over: bool,
    only: Seq<u8>,
    key: u8,
)
    requires
        gains.len() == 88,
    ensures
        measured_of(gains).contains(key) <==> 21 <= key <= 108 && gains[key - 21].len() > 0,
        drawn_of(measured, over, only).contains(key) <==> 21 <= key <= 108 && measured.contains(
            key,
        ) == over && (only.len() == 0 || only.contains(key)),
{
    let m = |k: u8| gains[k - LOWEST_KEY].len() > 0;
    let d = |k: u8| measured.contains(k) == over && (only.len() == 0 || only.contains(k));
    broadcast use vstd::seq_lib::group_filter_ensures;

    assert(keyboard().contains(key) <==> 21 <= key <= 108) by {
        if 21 <= key <= 108 {
            assert(keyboard()[key - 21] == key);
        }
    }
    assert(measured_of(gains) == keyboard().filter(m));
    assert(drawn_of(measured, over, only) == keyboard().filter(d));
    filter_holds(keyboard(), m, key);
    filter_holds(keyboard(), d, key);
}

proof fn filter_holds(s: Seq<u8>, keep: spec_fn(u8) -> bool, key: u8)
    ensures
        s.filter(keep).contains(key) <==> s.contains(key) && keep(key),
    decreases s.len(),
{
    reveal(Seq::filter);
    if s.len() > 0 {
        let shorter = s.drop_last();
        filter_holds(shorter, keep, key);
        let before = shorter.filter(keep);
        let after = s.filter(keep);
        if before.contains(key) {
            let i = choose|i: int| 0 <= i < before.len() && before[i] == key;
            assert(after[i] == key);
        }
        if after.contains(key) {
            let i = choose|i: int| 0 <= i < after.len() && after[i] == key;
            if i < before.len() {
                assert(before[i] == key);
            }
        }
        if s.contains(key) {
            let i = choose|i: int| 0 <= i < s.len() && s[i] == key;
            if i < shorter.len() {
                assert(shorter[i] == key);
            } else if keep(key) {
                assert(after[before.len() as int] == key);
            }
        }
        if shorter.contains(key) {
            let i = choose|i: int| 0 <= i < shorter.len() && shorter[i] == key;
            assert(s[i] == key);
        }
    }
}

/// Erasing empties the gains and splits of the keys that are named, and nothing
/// else.
pub proof fn erasing_goes_by_key(t: Tables, keys: Seq<u8>, key: u8)
    requires
        t.partial_gains.len() == 88,
        t.false_beat.len() == 88,
        21 <= key <= 108,
    ensures
        ({
            let after = erased(t, keys);
            &&& after.partial_gains.len() == 88
            &&& after.false_beat.len() == 88
            &&& after.synthesized_texture == t.synthesized_texture
            &&& after.partial_sigma_scale == t.partial_sigma_scale
            &&& keys.contains(key) ==> after.partial_gains[key - 21].len() == 0
                && after.false_beat[key - 21].len() == 0
            &&& !keys.contains(key) ==> after.partial_gains[key - 21] == t.partial_gains[key - 21]
                && after.false_beat[key - 21] == t.false_beat[key - 21]
        }),
    decreases keys.len(),
{
    if keys.len() > 0 {
        let shorter = keys.drop_last();
        erasing_goes_by_key(t, shorter, key);
        let last = keys.len() - 1;
        if keys.contains(key) && keys[last] != key {
            let i = choose|i: int| 0 <= i < keys.len() && keys[i] == key;
            assert(shorter[i] == key);
        }
        if shorter.contains(key) {
            let i = choose|i: int| 0 <= i < shorter.len() && shorter[i] == key;
            assert(keys[i] == key);
        }
        if keys[last] == key {
            assert(keys.contains(key));
        }
    }
}

} // verus!
