use tuner_tools::fit::tables::{
    clear_synthesized, grow_per_key_tables, key_index, set_false_beat, write_false_beats,
    FalseBeat, Fitted, Notes, HIGHEST_KEY, LOWEST_KEY, NUM_KEYS,
};
use tuner_tools::fit::texture::{
    drawn_keys, erase, measured_keys, write_drawn, written_row, DrawnKey,
};
use tuner_tools::reading::Reading;

fn r(x: f64) -> Reading {
    Reading { bits: x.to_bits() }
}

fn fresh() -> Notes {
    Notes {
        partial_gains: Vec::new(),
        false_beat: Vec::new(),
        partial_sigma_scale: Vec::new(),
        synthesized_texture: Vec::new(),
    }
}

fn beat(k: u16, hz: f64, db: f64) -> FalseBeat {
    FalseBeat { k, hz: r(hz), db: r(db) }
}

#[test]
fn a_fresh_preset_grows_its_per_key_tables_before_a_stage_indexes_them() {
    let mut notes = fresh();
    assert!(
        notes.partial_gains.is_empty(),
        "presets/default.toml has grown a partial_gains table; this test's \
         precondition is gone and the bug it pins can no longer be reached \
         from the default"
    );
    grow_per_key_tables(&mut notes);
    assert_eq!(notes.partial_gains.len(), NUM_KEYS);
    assert_eq!(notes.false_beat.len(), NUM_KEYS);
    assert_eq!(
        notes.partial_sigma_scale.len(),
        NUM_KEYS,
        "tail indexes this one by key and has no guard of its own"
    );
    for key in LOWEST_KEY..=HIGHEST_KEY {
        let index = key_index(key).expect("on the keyboard");
        assert!(notes.partial_gains[index].is_empty());
        assert!(notes.false_beat[index].is_empty());
    }
}

#[test]
fn growing_a_table_that_is_already_full_length_changes_nothing() {
    let mut notes = fresh();
    notes.partial_gains = vec![Vec::new(); NUM_KEYS];
    notes.partial_gains[0] = vec![r(1.0), r(2.0), r(3.0)];
    notes.false_beat = vec![Vec::new(); NUM_KEYS];
    let before = notes.partial_gains.clone();
    grow_per_key_tables(&mut notes);
    assert_eq!(notes.partial_gains, before);
}

#[test]
fn growing_twice_is_growing_once() {
    let mut notes = fresh();
    notes.false_beat = vec![vec![beat(3, 0.5, -12.0)]];
    grow_per_key_tables(&mut notes);
    assert!(notes.false_beat[0].is_empty());
    notes.false_beat[0] = vec![beat(3, 0.5, -12.0)];
    let once = notes.false_beat.clone();
    grow_per_key_tables(&mut notes);
    assert_eq!(notes.false_beat, once);
}

#[test]
fn keys_off_the_keyboard_have_no_row() {
    assert_eq!(key_index(20), None);
    assert_eq!(key_index(21), Some(0));
    assert_eq!(key_index(108), Some(87));
    assert_eq!(key_index(109), None);
}

#[test]
fn writing_splits_leaves_the_other_keys_alone() {
    let mut notes = fresh();
    grow_per_key_tables(&mut notes);
    set_false_beat(&mut notes, 60, &vec![beat(2, 0.8, -10.0)]);
    let fits = vec![Fitted { key: 61, rows: vec![beat(1, 0.4, -20.0), beat(4, 0.2, -24.0)] }];
    write_false_beats(&mut notes, &fits);
    assert_eq!(notes.false_beat[39], vec![beat(2, 0.8, -10.0)]);
    assert_eq!(notes.false_beat[40].len(), 2);
    let once = notes.false_beat.clone();
    write_false_beats(&mut notes, &fits);
    assert_eq!(notes.false_beat, once);
}

#[test]
fn a_draw_is_undone_by_clearing_it() {
    let mut notes = fresh();
    grow_per_key_tables(&mut notes);
    notes.partial_gains[0] = vec![r(0.5)];
    let before_gains = notes.partial_gains.clone();
    let drawn = vec![
        DrawnKey { key: 22, reached: true, row: vec![r(2.0), r(0.5), r(1.0)], splits: vec![beat(1, 0.3, -9.0)] },
        DrawnKey { key: 23, reached: false, row: vec![r(2.0)], splits: Vec::new() },
    ];
    let refused = write_drawn(&mut notes, &drawn, r(0.1), r(10.0));
    assert_eq!(refused, 1);
    assert_eq!(notes.partial_gains[1], vec![r(2.0), r(0.5)]);
    assert!(notes.synthesized_texture.contains(&22));
    clear_synthesized(&mut notes);
    assert_eq!(notes.partial_gains, before_gains);
    assert!(notes.false_beat.iter().all(|row| row.is_empty()));
}

#[test]
fn erasing_empties_only_the_named_rows() {
    let mut notes = fresh();
    grow_per_key_tables(&mut notes);
    notes.partial_gains[3] = vec![r(0.5)];
    notes.partial_gains[4] = vec![r(0.25)];
    erase(&mut notes, &vec![24]);
    assert!(notes.partial_gains[3].is_empty());
    assert_eq!(notes.partial_gains[4], vec![r(0.25)]);
}

#[test]
fn a_written_row_is_held_and_trimmed() {
    let row = written_row(&vec![r(0.01), r(20.0), r(2.0), r(1.0)], r(0.1), r(10.0));
    assert_eq!(row, vec![r(0.1), r(10.0), r(2.0)]);
}

#[test]
fn a_key_is_drawn_unless_it_is_measured() {
    let mut notes = fresh();
    grow_per_key_tables(&mut notes);
    notes.partial_gains[0] = vec![r(0.5)];
    let measured = measured_keys(&notes);
    assert_eq!(measured, vec![21]);
    let drawn = drawn_keys(&measured, false, &Vec::new());
    assert_eq!(drawn.len(), NUM_KEYS - 1);
    assert!(!drawn.contains(&21));
    assert_eq!(drawn_keys(&measured, true, &vec![21]), vec![21]);
}
