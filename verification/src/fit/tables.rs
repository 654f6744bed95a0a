//! The tables of a preset that have one row for each key.

use crate::reading::Reading;
use vstd::prelude::*;

verus! {

/// The lowest and highest key of the keyboard, and how many there are.
pub const LOWEST_KEY: u8 = 21;

pub const HIGHEST_KEY: u8 = 108;

pub const NUM_KEYS: usize = 88;

/// The pattern of 1.
pub const ONE: u64 = 0x3ff0_0000_0000_0000;

/// A second component of one partial: how far away it is, in hertz, and how
/// far below it, in decibels.
#[derive(Clone, Copy, Debug, PartialEq, Eq, Structural)]
pub struct FalseBeat {
    pub k: u16,
    pub hz: Reading,
    pub db: Reading,
}

/// The per-key tables. One that was never written may be empty.
pub struct Notes {
    pub partial_gains: Vec<Vec<Reading>>,
    pub false_beat: Vec<Vec<FalseBeat>>,
    pub partial_sigma_scale: Vec<Vec<Reading>>,
    /// The keys whose rows were drawn rather than measured.
    pub synthesized_texture: Vec<u8>,
}

/// The row of a key, where it is on the keyboard.
pub open spec fn index_of(key: u8) -> Option<int> {
    if LOWEST_KEY <= key <= HIGHEST_KEY {
        Some(key - LOWEST_KEY)
    } else {
        None
    }
}

/// The row of a key, where it is on the keyboard.
pub fn key_index(key: u8) -> (r: Option<usize>)
    ensures
        match r {
            None => index_of(key) is None,
            Some(i) => index_of(key) == Some(i as int) && i < NUM_KEYS,
        },
{
    if key < LOWEST_KEY || key > HIGHEST_KEY {
        None
    } else {
        Some((key - LOWEST_KEY) as usize)
    }
}

/// A table of empty rows, one for each key.
pub open spec fn blank<T>() -> Seq<Seq<T>> {
    Seq::new(NUM_KEYS as nat, |i: int| Seq::empty())
}

/// The rows of a table.
pub open spec fn rows_of<T>(table: Seq<Vec<T>>) -> Seq<Seq<T>> {
    Seq::new(table.len(), |i: int| table[i]@)
}

/// The table itself where it has a row for each key, else a blank one.
pub open spec fn grown<T>(table: Seq<Seq<T>>) -> Seq<Seq<T>> {
    if table.len() == NUM_KEYS {
        table
    } else {
        blank()
    }
}

/// What the per-key tables hold.
pub ghost struct Tables {
    pub partial_gains: Seq<Seq<Reading>>,
    pub false_beat: Seq<Seq<FalseBeat>>,
    pub partial_sigma_scale: Seq<Seq<Reading>>,
    pub synthesized_texture: Seq<u8>,
}

impl View for Notes {
    type V = Tables;

    open spec fn view(&self) -> Tables {
        Tables {
            partial_gains: rows_of(self.partial_gains@),
            false_beat: rows_of(self.false_beat@),
            partial_sigma_scale: rows_of(self.partial_sigma_scale@),
            synthesized_texture: self.synthesized_texture@,
        }
    }
}

impl Tables {
    /// Each table that is not of full length made blank.
    pub open spec fn grow(self) -> Tables {
        Tables {
            partial_gains: grown(self.partial_gains),
            false_beat: grown(self.false_beat),
            partial_sigma_scale: grown(self.partial_sigma_scale),
            synthesized_texture: self.synthesized_texture,
        }
    }

    /// One key's splits replaced, in a table of full length; a key that is not
    /// on the keyboard changes nothing.
    pub open spec fn with_splits(self, key: u8, rows: Seq<FalseBeat>) -> Tables {
        match index_of(key) {
            None => self,
            Some(i) => Tables { false_beat: grown(self.false_beat).update(i, rows), ..self },
        }
    }

    /// One key's gains emptied, where the table reaches that far.
    pub open spec fn without_gains(self, key: u8) -> Tables {
        match index_of(key) {
            None => self,
            Some(i) => if i < self.partial_gains.len() {
                Tables { partial_gains: self.partial_gains.update(i, Seq::empty()), ..self }
            } else {
                self
            },
        }
    }
}

fn blank_table<T>() -> (r: Vec<Vec<T>>)
    ensures
        rows_of(r@) == blank::<T>(),
        r.len() == NUM_KEYS,
{
    let mut out: Vec<Vec<T>> = Vec::new();
    let mut i: usize = 0;
    while i < NUM_KEYS
        invariant
            i <= NUM_KEYS,
            out.len() == i,
            forall|k: int| 0 <= k < i ==> (#[trigger] out@[k])@ == Seq::<T>::empty(),
        decreases NUM_KEYS - i,
    {
        out.push(Vec::new());
        i = i + 1;
    }
    proof {
        assert(rows_of(out@) =~= blank::<T>());
    }
    out
}

fn grow_table<T>(table: &mut Vec<Vec<T>>)
    ensures
        rows_of(final(table)@) == grown(rows_of(old(table)@)),
        final(table).len() == NUM_KEYS,
{
    if table.len() != NUM_KEYS {
        *table = blank_table();
    }
}

/// Gives each per-key table a row for every key, so that a stage may index it
/// by key. A table of full length is left as it is.
pub fn grow_per_key_tables(notes: &mut Notes)
    ensures
        final(notes)@ == old(notes)@.grow(),
{
    grow_table(&mut notes.partial_gains);
    grow_table(&mut notes.false_beat);
    grow_table(&mut notes.partial_sigma_scale);
}

/// Replaces one key's splits, in a table that is first given a row for every
/// key.
pub fn set_false_beat(notes: &mut Notes, key: u8, rows: &Vec<FalseBeat>)
    ensures
        final(notes)@ == old(notes)@.with_splits(key, rows@),
{
    if let Some(i) = key_index(key) {
        grow_table(&mut notes.false_beat);
        let ghost before = notes@.false_beat;
        notes.false_beat.set(i, copy_splits(rows));
        proof {
            assert(notes@.false_beat =~= before.update(i as int, rows@));
        }
    }
}

fn copy_splits(rows: &Vec<FalseBeat>) -> (r: Vec<FalseBeat>)
    ensures
        r@ == rows@,
{
    let mut out: Vec<FalseBeat> = Vec::new();
    let mut i: usize = 0;
    while i < rows.len()
        invariant
            i <= rows.len(),
            out@ == rows@.take(i as int),
        decreases rows.len() - i,
    {
        out.push(rows[i]);
        i = i + 1;
        proof {
            assert(out@ =~= rows@.take(i as int));
        }
    }
    proof {
        assert(rows@.take(i as int) =~= rows@);
    }
    out
}

/// The rows that were fitted for one key.
pub struct Fitted {
    pub key: u8,
    pub rows: Vec<FalseBeat>,
}

/// The tables after each fitted key's rows were written in turn.
pub open spec fn with_all_splits(t: Seq<Seq<FalseBeat>>, fits: Seq<Fitted>) -> Seq<Seq<FalseBeat>>
    decreases fits.len(),
{
    if fits.len() == 0 {
        t
    } else {
        let before = with_all_splits(t, fits.drop_last());
        match index_of(fits.last().key) {
            None => before,
            Some(i) => before.update(i, fits.last().rows@),
        }
    }
}

/// Every row of a table is empty.
pub open spec fn all_empty<T>(t: Seq<Seq<T>>) -> bool {
    forall|i: int| 0 <= i < t.len() ==> (#[trigger] t[i]).len() == 0
}

/// The table of splits after a fit: unchanged where nothing was fitted; else
/// each fitted key's rows are written and every other key's row stays, and a
/// table without a single split is dropped.
pub open spec fn merged(t: Seq<Seq<FalseBeat>>, fits: Seq<Fitted>) -> Seq<Seq<FalseBeat>> {
    if fits.len() == 0 {
        t
    } else {
        let written = with_all_splits(grown(t), fits);
        if all_empty(written) {
            Seq::empty()
        } else {
            written
        }
    }
}

/// Writes the fitted rows into the table of splits, leaving every key that was
/// not fitted as it was.
pub fn write_false_beats(notes: &mut Notes, fits: &Vec<Fitted>)
    ensures
        final(notes)@ == (Tables { false_beat: merged(old(notes)@.false_beat, fits@), ..old(notes)@ }),
{
    if fits.len() == 0 {
        return;
    }
    grow_table(&mut notes.false_beat);
    let ghost start = grown(old(notes)@.false_beat);
    let mut i: usize = 0;
    proof {
        assert(fits@.take(0) =~= Seq::<Fitted>::empty());
    }
    while i < fits.len()
        invariant
            i <= fits.len(),
            notes.false_beat.len() == NUM_KEYS,
            notes@ == (Tables { false_beat: with_all_splits(start, fits@.take(i as int)), ..old(notes)@ }),
        decreases fits.len() - i,
    {
        proof {
            assert(fits@.take(i + 1).drop_last() =~= fits@.take(i as int));
        }
        if let Some(at) = key_index(fits[i].key) {
            let ghost before = notes@.false_beat;
            notes.false_beat.set(at, copy_splits(&fits[i].rows));
            proof {
                assert(notes@.false_beat =~= before.update(at as int, fits@[i as int].rows@));
            }
        }
        i = i + 1;
    }
    proof {
        assert(fits@.take(i as int) =~= fits@);
    }
    let ghost written = notes@;
    let mut any = false;
    let mut k: usize = 0;
    while k < notes.false_beat.len()
        invariant
            k <= notes.false_beat.len(),
            notes@ == written,
            any == exists|m: int| 0 <= m < k && (#[trigger] notes@.false_beat[m]).len() > 0,
        decreases notes.false_beat.len() - k,
    {
        if notes.false_beat[k].len() > 0 {
            any = true;
            proof {
                assert(notes@.false_beat[k as int].len() > 0);
            }
        }
        k = k + 1;
    }
    proof {
        if !any {
            assert forall|i: int| 0 <= i < written.false_beat.len() implies (
            #[trigger] written.false_beat[i]).len() == 0 by {
                assert(notes@.false_beat[i].len() == 0);
            }
        }
        assert(all_empty(written.false_beat) == !any);
    }
    if !any {
        notes.false_beat = Vec::new();
        proof {
            assert(notes@.false_beat =~= Seq::<Seq<FalseBeat>>::empty());
        }
    }
}

/// The tables without the first `n` of the keys that were drawn.
pub open spec fn cleared(t: Tables, keys: Seq<u8>) -> Tables
    decreases keys.len(),
{
    if keys.len() == 0 {
        t
    } else {
        cleared(t, keys.drop_last()).without_gains(keys.last()).with_splits(
            keys.last(),
            Seq::empty(),
        )
    }
}

/// The tables before a draw: the rows of every key that was drawn are gone,
/// with the list that names them, and both texture tables have a row for each
/// key.
pub open spec fn before_draw(t: Tables) -> Tables {
    let bare = cleared(Tables { synthesized_texture: Seq::empty(), ..t }, t.synthesized_texture);
    Tables {
        partial_gains: grown(bare.partial_gains),
        false_beat: grown(bare.false_beat),
        ..bare
    }
}

/// Empties the rows of every key that was drawn, so that what is fitted next is
/// fitted from measured rows alone.
pub fn clear_synthesized(notes: &mut Notes)
    ensures
        final(notes)@ == before_draw(old(notes)@),
{
    let mut keys: Vec<u8> = Vec::new();
    std::mem::swap(&mut keys, &mut notes.synthesized_texture);
    let ghost start = Tables { synthesized_texture: Seq::empty(), ..old(notes)@ };
    let mut i: usize = 0;
    proof {
        assert(keys@.take(0) =~= Seq::<u8>::empty());
    }
    while i < keys.len()
        invariant
            i <= keys.len(),
            notes@ == cleared(start, keys@.take(i as int)),
        decreases keys.len() - i,
    {
        let key = keys[i];
        let ghost before = notes@;
        if let Some(at) = key_index(key) {
            if at < notes.partial_gains.len() {
                notes.partial_gains.set(at, Vec::new());
                proof {
                    assert(notes@.partial_gains =~= before.partial_gains.update(
                        at as int,
                        Seq::empty(),
                    ));
                }
            }
        }
        assert(notes@ == before.without_gains(key));
        set_false_beat(notes, key, &Vec::new());
        proof {
            assert(keys@.take(i + 1).drop_last() =~= keys@.take(i as int));
        }
        i = i + 1;
    }
    proof {
        assert(keys@.take(i as int) =~= keys@);
    }
    grow_table(&mut notes.partial_gains);
    grow_table(&mut notes.false_beat);
}

/// Growing twice is growing once.
pub proof fn growing_is_idempotent(t: Tables)
    ensures
        t.grow().grow() == t.grow(),
{
}

/// A table of full length is not changed by growing.
pub proof fn growing_keeps_full_tables(t: Tables)
    ensures
        t.partial_gains.len() == NUM_KEYS ==> t.grow().partial_gains == t.partial_gains,
        t.false_beat.len() == NUM_KEYS ==> t.grow().false_beat == t.false_beat,
        t.partial_sigma_scale.len() == NUM_KEYS ==> t.grow().partial_sigma_scale
            == t.partial_sigma_scale,
        t.grow().synthesized_texture == t.synthesized_texture,
{
}

/// Once the tables are grown, every key of the keyboard has a row in each.
pub proof fn every_key_has_a_row(t: Tables, key: u8)
    requires
        LOWEST_KEY <= key <= HIGHEST_KEY,
    ensures
        index_of(key) matches Some(i) && 0 <= i < t.grow().partial_gains.len() && i
            < t.grow().false_beat.len() && i < t.grow().partial_sigma_scale.len(),
{
}

/// A fit leaves the splits of every key that it did not fit as they were.
pub proof fn unfitted_keys_keep_their_splits(t: Seq<Seq<FalseBeat>>, fits: Seq<Fitted>, key: u8)
    requires
        LOWEST_KEY <= key <= HIGHEST_KEY,
        t.len() == NUM_KEYS,
        forall|i: int| 0 <= i < fits.len() ==> (#[trigger] fits[i]).key != key,
    ensures
        with_all_splits(t, fits).len() == NUM_KEYS,
        with_all_splits(t, fits)[key - LOWEST_KEY] == t[key - LOWEST_KEY],
        merged(t, fits).len() > 0 ==> merged(t, fits)[key - LOWEST_KEY] == t[key - LOWEST_KEY],
        merged(t, fits).len() == 0 ==> t[key - LOWEST_KEY].len() == 0,
    decreases fits.len(),
{
    if fits.len() > 0 {
        assert forall|i: int| 0 <= i < fits.drop_last().len() implies (
        #[trigger] fits.drop_last()[i]).key != key by {
            assert(fits.drop_last()[i] == fits[i]);
        }
        unfitted_keys_keep_their_splits(t, fits.drop_last(), key);
        assert(fits.last().key != key);
        if all_empty(with_all_splits(grown(t), fits)) {
            assert(with_all_splits(t, fits)[key - LOWEST_KEY].len() == 0);
        }
    }
}

/// Writing the same fit twice is writing it once.
pub proof fn writing_a_fit_twice_is_writing_it_once(t: Seq<Seq<FalseBeat>>, fits: Seq<Fitted>)
    requires
        t.len() == NUM_KEYS,
        forall|i: int, j: int|
            0 <= i < j < fits.len() ==> (#[trigger] fits[i]).key != (#[trigger] fits[j]).key,
    ensures
        with_all_splits(with_all_splits(t, fits), fits) == with_all_splits(t, fits),
{
    splits_after(t, fits);
    splits_after(with_all_splits(t, fits), fits);
    let once = with_all_splits(t, fits);
    let twice = with_all_splits(once, fits);
    assert forall|k: int| 0 <= k < NUM_KEYS implies once[k] == twice[k] by {
        if exists|i: int| 0 <= i < fits.len() && index_of((#[trigger] fits[i]).key) == Some(k) {
            let i = choose|i: int|
                0 <= i < fits.len() && index_of((#[trigger] fits[i]).key) == Some(k);
            assert(once[k] == fits[i].rows@);
            assert(twice[k] == fits[i].rows@);
        } else {
            assert(once[k] == t[k]);
            assert(twice[k] == once[k]);
        }
    }
    assert(once =~= twice);
}

proof fn splits_after(t: Seq<Seq<FalseBeat>>, fits: Seq<Fitted>)
    requires
        t.len() == NUM_KEYS,
        forall|i: int, j: int|
            0 <= i < j < fits.len() ==> (#[trigger] fits[i]).key != (#[trigger] fits[j]).key,
    ensures
        with_all_splits(t, fits).len() == NUM_KEYS,
        forall|k: int, i: int|
            0 <= k < NUM_KEYS && 0 <= i < fits.len() && index_of((#[trigger] fits[i]).key) == Some(k)
                ==> (#[trigger] with_all_splits(t, fits)[k]) == fits[i].rows@,
        forall|k: int|
            0 <= k < NUM_KEYS && !(exists|i: int|
                0 <= i < fits.len() && index_of((#[trigger] fits[i]).key) == Some(k)) ==> (
            #[trigger] with_all_splits(t, fits)[k]) == t[k],
    decreases fits.len(),
{
    if fits.len() > 0 {
        let shorter = fits.drop_last();
        assert forall|i: int, j: int| 0 <= i < j < shorter.len() implies (#[trigger] shorter[i]).key
            != (#[trigger] shorter[j]).key by {
            assert(shorter[i] == fits[i] && shorter[j] == fits[j]);
        }
        splits_after(t, shorter);
        assert forall|k: int, i: int|
            0 <= k < NUM_KEYS && 0 <= i < fits.len() && index_of((#[trigger] fits[i]).key) == Some(
                k,
            ) implies (#[trigger] with_all_splits(t, fits)[k]) == fits[i].rows@ by {
            if i < fits.len() - 1 {
                assert(shorter[i] == fits[i]);
                assert(fits[i].key != fits[fits.len() - 1].key);
                assert(with_all_splits(t, shorter)[k] == shorter[i].rows@);
            }
        }
        assert forall|k: int|
            0 <= k < NUM_KEYS && !(exists|i: int|
                0 <= i < fits.len() && index_of((#[trigger] fits[i]).key) == Some(k)) implies (
        #[trigger] with_all_splits(t, fits)[k]) == t[k] by {
            assert(index_of(fits[fits.len() - 1].key) != Some(k));
            assert forall|i: int| 0 <= i < shorter.len() implies index_of((#[trigger] shorter[i]).key)
                != Some(k) by {
                assert(shorter[i] == fits[i]);
            }
            assert(with_all_splits(t, shorter)[k] == t[k]);
        }
    }
}

/// A key's splits are written into its own row, of a table with a row for every
/// key; nothing else changes. A key off the keyboard changes nothing.
pub proof fn splits_are_written_into_their_row(t: Tables, key: u8, rows: Seq<FalseBeat>, other: u8)
    requires
        21 <= other <= 108,
        other != key,
    ensures
        ({
            let after = t.with_splits(key, rows);
            &&& after.partial_gains == t.partial_gains
            &&& after.partial_sigma_scale == t.partial_sigma_scale
            &&& after.synthesized_texture == t.synthesized_texture
            &&& !(21 <= key <= 108) ==> after.false_beat == t.false_beat
            &&& 21 <= key <= 108 ==> after.false_beat.len() == 88 && after.false_beat[key - 21] == rows
            &&& 21 <= key <= 108 && t.false_beat.len() == 88 ==> after.false_beat[other - 21]
                == t.false_beat[other - 21]
            &&& 21 <= key <= 108 && t.false_beat.len() != 88 ==> after.false_beat[other - 21].len()
                == 0
        }),
{
}

/// The last fit of a key on the keyboard is what stands in its row, unless every
/// row came out empty and the table was dropped.
pub proof fn the_last_fit_of_a_key_is_written(t: Seq<Seq<FalseBeat>>, fits: Seq<Fitted>, n: int)
    requires
        0 <= n < fits.len(),
        21 <= fits[n].key <= 108,
        forall|m: int| n < m < fits.len() ==> (#[trigger] fits[m]).key != fits[n].key,
    ensures
        merged(t, fits).len() == 88 || merged(t, fits).len() == 0,
        merged(t, fits).len() == 88 ==> merged(t, fits)[fits[n].key - 21] == fits[n].rows@,
        merged(t, fits).len() == 0 ==> fits[n].rows.len() == 0,
{
    the_last_fit_stands(grown(t), fits, n);
    let written = with_all_splits(grown(t), fits);
    assert(written[fits[n].key - 21] == fits[n].rows@);
}

proof fn the_last_fit_stands(t: Seq<Seq<FalseBeat>>, fits: Seq<Fitted>, n: int)
    requires
        t.len() == 88,
        0 <= n < fits.len(),
        21 <= fits[n].key <= 108,
        forall|m: int| n < m < fits.len() ==> (#[trigger] fits[m]).key != fits[n].key,
    ensures
        with_all_splits(t, fits).len() == 88,
        with_all_splits(t, fits)[fits[n].key - 21] == fits[n].rows@,
    decreases fits.len(),
{
    let shorter = fits.drop_last();
    splits_keep_the_size(t, shorter);
    if n < fits.len() - 1 {
        assert(fits[fits.len() - 1].key != fits[n].key);
        assert(shorter[n] == fits[n]);
        assert forall|m: int| n < m < shorter.len() implies (#[trigger] shorter[m]).key
            != shorter[n].key by {
            assert(fits[m].key != fits[n].key);
        }
        the_last_fit_stands(t, shorter, n);
    }
}

proof fn splits_keep_the_size(t: Seq<Seq<FalseBeat>>, fits: Seq<Fitted>)
    requires
        t.len() == 88,
    ensures
        with_all_splits(t, fits).len() == 88,
    decreases fits.len(),
{
    if fits.len() > 0 {
        splits_keep_the_size(t, fits.drop_last());
    }
}

/// Clearing what was drawn empties the rows of the keys that are listed as drawn,
/// leaves every other row and the other tables, and empties the list.
pub proof fn clearing_empties_what_was_drawn(t: Tables, key: u8)
    requires
        t.partial_gains.len() == 88,
        t.false_beat.len() == 88,
        21 <= key <= 108,
    ensures
        ({
            let after = before_draw(t);
            &&& after.partial_gains.len() == 88
            &&& after.false_beat.len() == 88
            &&& after.synthesized_texture.len() == 0
            &&& after.partial_sigma_scale == t.partial_sigma_scale
            &&& t.synthesized_texture.contains(key) ==> after.partial_gains[key - 21].len() == 0
                && after.false_beat[key - 21].len() == 0
            &&& !t.synthesized_texture.contains(key) ==> after.partial_gains[key - 21]
                == t.partial_gains[key - 21] && after.false_beat[key - 21] == t.false_beat[key - 21]
        }),
{
    clearing_goes_by_key(
        Tables { synthesized_texture: Seq::empty(), ..t },
        t.synthesized_texture,
        key,
    );
}

proof fn clearing_goes_by_key(t: Tables, keys: Seq<u8>, key: u8)
    requires
        t.partial_gains.len() == 88,
        t.false_beat.len() == 88,
        21 <= key <= 108,
    ensures
        ({
            let after = cleared(t, keys);
            &&& after.partial_gains.len() == 88
            &&& after.false_beat.len() == 88
            &&& after.synthesized_texture == t.synthesized_texture
            &&& after.partial_sigma_scale == t.partial_sigma_scale
            &&& keys.contains(key) ==> after.partial_gains[key - 21].len() == 0
                && after.false_beat[key - 21].len() == 0
            &&& !keys.contains(key) ==> after.partial_gains[key - 21] == t.partial_gains[key - 21]
                && after.false_beat[key - 21] == t.false_beat[key - 21]
        }),
    decreases keys.len(),
{
    if keys.len() > 0 {
        let shorter = keys.drop_last();
        clearing_goes_by_key(t, shorter, key);
        let last = keys.len() - 1;
        if keys.contains(key) && keys[last] != key {
            let i = choose|i: int| 0 <= i < keys.len() && keys[i] == key;
            assert(shorter[i] == key);
        }
        if shorter.contains(key) {
            let i = choose|i: int| 0 <= i < shorter.len() && shorter[i] == key;
            assert(keys[i] == key);
        }
        if keys[last] == key {
            assert(keys.contains(key));
        }
    }
}

/// Growing gives each table eighty-eight rows: a table that has them is kept, any
/// other becomes a blank one.
pub proof fn growing_keeps_or_blanks(t: Tables, i: int)
    requires
        0 <= i < 88,
    ensures
        t.grow().partial_gains.len() == 88,
        t.grow().false_beat.len() == 88,
        t.grow().partial_sigma_scale.len() == 88,
        t.grow().partial_gains[i] == (if t.partial_gains.len() == 88 {
            t.partial_gains[i]
        } else {
            Seq::empty()
        }),
        t.grow().false_beat[i] == (if t.false_beat.len() == 88 {
            t.false_beat[i]
        } else {
            Seq::empty()
        }),
        t.grow().partial_sigma_scale[i] == (if t.partial_sigma_scale.len() == 88 {
            t.partial_sigma_scale[i]
        } else {
            Seq::empty()
        }),
{
}

} // verus!
