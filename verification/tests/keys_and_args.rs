use tuner_tools::args::{
    INSTRUMENT, flag_value, has_flag, is_flag, join_path, missing_piano, nth_or, positional,
};
use tuner_tools::keys::{PhraseEvent, distinct, names, note_name, pairs, phrase_strikes, strikes};

fn args(list: &[&str]) -> Vec<String> {
    list.iter().map(|s| s.to_string()).collect()
}

#[test]
fn keys_are_named_from_middle_c() {
    assert_eq!(note_name(60), "C4");
    assert_eq!(note_name(61), "C#4");
    assert_eq!(note_name(21), "A0");
    assert_eq!(note_name(108), "C8");
    assert_eq!(note_name(70), "A#4");
    assert_eq!(note_name(11), "B-1");
    assert_eq!(note_name(12), "C0");
    assert_eq!(names(&vec![60, 63]), args(&["C4", "D#4"]));
    assert_eq!(names(&Vec::new()), Vec::<String>::new());
    for key in 0..=255u8 {
        let classes = ["C", "C#", "D", "D#", "E", "F", "F#", "G", "G#", "A", "A#", "B"];
        assert_eq!(note_name(key), format!("{}{}", classes[usize::from(key) % 12], i32::from(key) / 12 - 1));
    }
}

#[test]
fn every_key_meets_every_velocity() {
    assert_eq!(pairs(&vec![60, 61], &vec![40, 90]), vec![(60, 40), (60, 90), (61, 40), (61, 90)]);
    assert_eq!(pairs(&Vec::new(), &vec![40]), Vec::new());
    assert_eq!(pairs(&vec![60], &Vec::new()), Vec::new());
}

#[test]
fn distinct_keys_ascend() {
    assert_eq!(distinct(&vec![60, 21, 60, 255, 0, 21]), vec![0, 21, 60, 255]);
    assert_eq!(distinct(&Vec::new()), Vec::<u8>::new());
}

#[test]
fn a_note_at_no_velocity_strikes_nothing() {
    let events = vec![
        PhraseEvent::NoteOn(60, 90),
        PhraseEvent::Other,
        PhraseEvent::NoteOn(61, 0),
        PhraseEvent::NoteOn(62, 1),
        PhraseEvent::NoteOn(60, 50),
    ];
    assert_eq!(strikes(&events), vec![60, 62, 60]);
    assert_eq!(phrase_strikes(&events, &vec![60]), (3, 1));
    assert_eq!(phrase_strikes(&events, &Vec::new()), (3, 3));
    assert_eq!(phrase_strikes(&Vec::new(), &vec![60]), (0, 0));
}

#[test]
fn arguments_are_read_by_place_and_by_flag() {
    let a = args(&["d", "--out", "o", "p"]);
    assert_eq!(nth_or(&a, 0, "x"), "d");
    assert_eq!(nth_or(&a, 4, "x"), "x");
    assert_eq!(nth_or(&Vec::new(), 0, ""), "");
    assert_eq!(positional(&a, &Vec::new()), args(&["d", "o", "p"]));
    let b = args(&["d", "--n", "7", "--w", "p", "--n"]);
    assert_eq!(positional(&b, &args(&["--n"])), args(&["d", "p"]));
    assert_eq!(positional(&b, &Vec::new()), args(&["d", "7", "p"]));
    assert!(is_flag("--out") && is_flag("--") && !is_flag("-o") && !is_flag("") && !is_flag("o--"));
    assert!(has_flag(&a, "--out") && !has_flag(&a, "--ou"));
    assert_eq!(flag_value(&a, "--out"), Some("o".to_string()));
    assert_eq!(flag_value(&a, "p"), None);
    assert_eq!(flag_value(&a, "q"), None);
    assert_eq!(flag_value(&args(&["-a", "1", "-a", "2"]), "-a"), Some("1".to_string()));
}

#[test]
fn a_name_lies_below_its_directory() {
    assert_eq!(join_path("data", "x.sfz"), "data/x.sfz");
    assert_eq!(join_path("data/", "x.sfz"), "data/x.sfz");
    assert_eq!(join_path("", "x.sfz"), "x.sfz");
    assert_eq!(join_path("data", "/x.sfz"), "/x.sfz");
    assert_eq!(INSTRUMENT, "SalamanderGrandPiano-V3+20200602.sfz");
    assert_eq!(
        missing_piano("a/b"),
        "the reference piano is not here: a/b\nrun data/fetch_salamander.sh first (707 MiB)."
    );
}
