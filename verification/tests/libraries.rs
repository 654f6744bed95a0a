use tuner_tools::adapt::report::{
    alias_line, already_native, catalogue, caveats, converted, heading, mechanism_line, missing,
    no_directory, no_library, resampled, resampling, scanned, ships_its_own, wrote, Library, Scan,
};
use tuner_tools::adapt::{
    first_sentence, is_named, parse, plan, short, source_extension, Plan, Resampling,
};
use tuner_tools::args::{join_path, Stop};
use tuner_tools::keys::PhraseEvent;
use tuner_tools::listen::report::{readme, Piece, Source};
use tuner_tools::listen::{paths, phrase_keys, takes};

fn args(list: &[&str]) -> Vec<String> {
    list.iter().map(|s| s.to_string()).collect()
}

fn library(native: bool, shipped: Option<&str>) -> Library {
    Library {
        id: "lib".to_string(),
        instrument: "A grand".to_string(),
        credit: "someone".to_string(),
        licence: "CC0".to_string(),
        source: "https://example.org".to_string(),
        shipped: shipped.map(|s| s.to_string()),
        keys: 30,
        layers: 16,
        native,
        published_rate: 96000,
        delivered_rate: 48000,
        extension: "wav".to_string(),
    }
}

fn error(list: &[&str]) -> String {
    match parse(&args(list)) {
        Err(Stop::Error(e)) => e,
        _ => panic!("no error"),
    }
}

#[test]
fn the_adapt_command_line_is_read() {
    let o = match parse(&args(&["lib", "--root", "r", "--resample", "--out", "o.sfz"])) {
        Ok(o) => o,
        Err(_) => panic!("a command line that is in order"),
    };
    assert_eq!(o.library(), Some("lib".to_string()));
    assert!(o.resample && !o.legacy_alias && !o.list);
    assert_eq!(o.root("lib"), "r");
    assert_eq!(o.out("r", "lib"), "o.sfz");
    let bare = match parse(&args(&["lib"])) {
        Ok(o) => o,
        Err(_) => panic!("a name alone"),
    };
    assert_eq!(bare.root("lib"), "data/lib");
    assert_eq!(bare.out("data/lib", "lib"), "data/lib/lib.sfz");
    let listed = match parse(&args(&["lib", "--list"])) {
        Ok(o) => o,
        Err(_) => panic!("a name and the list"),
    };
    assert_eq!(listed.library(), None);
    assert_eq!(error(&["--root"]), "--root needs a directory");
    assert_eq!(error(&["a", "--out"]), "--out needs a path");
    assert_eq!(error(&["--what"]), "unknown flag --what");
}

#[test]
fn a_first_sentence_is_long_enough_to_be_one() {
    assert_eq!(first_sentence("Short. And more."), "Short. And more.");
    assert_eq!(
        first_sentence("This sentence runs past forty bytes before it ends. The next is left out."),
        "This sentence runs past forty bytes before it ends."
    );
    assert_eq!(first_sentence("  spaced \n out  "), "spaced out");
    assert_eq!(first_sentence(""), "");
}

#[test]
fn paths_are_shortened_below_their_root() {
    assert_eq!(short("data/lib/a/b.wav", "data/lib"), "a/b.wav");
    assert_eq!(short("elsewhere/b.wav", "data/lib"), "elsewhere/b.wav");
    assert_eq!(source_extension(true, "wav"), "wav");
    assert_eq!(source_extension(false, "wav"), "flac");
    assert!(is_named(25) && is_named(50) && !is_named(26));
}

#[test]
fn a_library_is_announced() {
    let l = library(false, None);
    assert_eq!(
        heading(&l, "data/lib"),
        "lib: A grand\n  credit  someone\n  licence CC0\n  source  https://example.org\n  root    data/lib\n"
    );
    assert_eq!(
        no_library("a\"b"),
        format!("no library called {:?}; `adapt --list` names them", "a\"b")
    );
    assert_eq!(
        no_directory("data/x"),
        "data/x: not a directory — run the library's own data/fetch_*.sh first"
    );
    assert!(ships_its_own("x.sfz").starts_with("\nthis library ships its own instrument definition (x.sfz)"));
    assert_eq!(already_native(48000), "\n48000 Hz already; nothing to resample.\n");
    assert_eq!(
        resampling(96000, 48000),
        "\nresampling 96000 Hz -> 48000 Hz (audio::resample, band-limited sinc, float WAV out)\n"
    );
    assert_eq!(converted(25, "a.flac"), format!("  {:4}  {}\n", 25, "a.flac"));
    assert_eq!(resampled(3, 4), "  3 converted, 4 already in place\n");
}

#[test]
fn a_scan_names_five_that_are_missing() {
    let s = Scan {
        present: 3,
        expected: 10,
        keys: 2,
        layers: 5,
        missing: (0..7).map(|i| format!("f{i}")).collect(),
        mechanism_present: 1,
        mechanism: 4,
    };
    assert_eq!(
        scanned(&s),
        "\nscanned: 3 of 10 expected note recordings present, over 2 keys x 5 layers\n"
    );
    assert_eq!(
        missing(&s, true, "wav"),
        "  7 missing, first five:\n    f0\n    f1\n    f2\n    f3\n    f4\n  (the description expects wav files; pass --resample to build them)\n"
    );
    assert_eq!(mechanism_line(&s), "  mechanism: 1 of 4 present\n");
    let whole = Scan { present: 10, ..s };
    assert_eq!(missing(&whole, true, "wav"), "");
    assert_eq!(wrote("o.sfz", 4, 99), "\nwrote o.sfz (4 regions, 99 bytes)\n");
    assert!(alias_line("a", "b").starts_with("\nlegacy alias: a -> b\n  SCAFFOLDING. tools/tail.rs"));
}

#[test]
fn caveats_are_numbered_from_one() {
    assert_eq!(caveats(&Vec::new()), "");
    assert_eq!(
        caveats(&args(&["One. More.", "Two."])),
        "\ncaveats carried into the generated file — read them before trusting a stage:\n  1. One. More.\n  2. Two.\n"
    );
}

#[test]
fn the_catalogue_lists_every_library() {
    let text = catalogue(&vec![library(true, Some("g.sfz")), library(false, None)]);
    assert!(text.starts_with("libraries this repository has a description for:\n\n  lib\n    A grand\n    CC0\n"));
    assert!(text.contains("    30 keys x 16 layers, 48000 Hz native, map: ships g.sfz\n"));
    assert!(text.contains("    30 keys x 16 layers, 48000 Hz (resampled at fetch), map: generated here\n"));
    assert!(text.ends_with(
        "\nusage: piano-tuner adapt <id> --root <dir> [--out <file.sfz>] [--resample] [--legacy-alias]\n"
    ));
}

#[test]
fn listening_material_goes_beside_its_preset() {
    let p = paths(&args(&["d", "presets/mine.v2.toml"]));
    assert_eq!((p.data.as_str(), p.out.as_str()), ("d", "renders/mine.v2"));
    let all = paths(&args(&[]));
    assert_eq!(all.data, "data/salamander");
    assert_eq!(all.preset, "presets/salamander-c5.toml");
    assert_eq!(all.out, "renders/salamander-c5");
    assert_eq!(paths(&args(&["d", "p", "o"])).out, "o");
    assert_eq!(paths(&args(&["d", ""])).out, "renders/preset");
}

#[test]
fn keys_of_a_phrase_are_counted_once() {
    let events = vec![
        PhraseEvent::NoteOn(64, 80),
        PhraseEvent::NoteOn(60, 80),
        PhraseEvent::NoteOn(64, 0),
        PhraseEvent::Other,
        PhraseEvent::NoteOn(64, 10),
        PhraseEvent::NoteOn(72, 0),
    ];
    let keys = phrase_keys(&events);
    assert_eq!(keys, vec![60, 64]);
    assert_eq!(takes(&keys, &vec![21, 64]), vec![64]);
}

#[test]
fn the_readme_of_a_piece_says_what_was_recorded() {
    let piece = |recorded: Vec<u8>| Piece {
        name: "melody".to_string(),
        description: "a line".to_string(),
        engine_gain: "+1.00".to_string(),
        engine_length: "12.0".to_string(),
        reference_gain: "-2.50".to_string(),
        reference_length: "12.1".to_string(),
        keys: 3,
        recorded,
    };
    let source = Source {
        instrument: "A grand".to_string(),
        id: "lib".to_string(),
        credit: "someone".to_string(),
        licence: "CC0".to_string(),
        url: "https://example.org".to_string(),
        keys: 30,
        layers: 16,
        rate: 48000,
        native: false,
    };
    let text = readme("p.toml", &Some(source), &vec![piece(vec![60, 64]), piece(Vec::new())]);
    assert!(text.starts_with("# Listening material — `p.toml`\n\n**A grand**\n\n- library: `lib`\n"));
    assert!(text.contains(
        "- shape: 30 recorded keys x 16 velocity layers, delivered at 48000 Hz (resampled once, offline, at fetch)\n\n"
    ));
    assert!(text.contains("| engine | `melody_engine.wav` | +1.00 dB | 12.0 s |\n"));
    assert!(text.contains("| reference | `melody_reference.wav` | -2.50 dB | 12.1 s |\n\n"));
    assert!(text.contains(
        "2 of this phrase's 3 distinct keys are the library's **own takes** (60, 64); the rest are its resampler"
    ));
    assert!(text.contains("0 of this phrase's 3 distinct keys are the library's **own takes** (none); the rest"));
    assert!(readme("p.toml", &None, &Vec::new()).starts_with("# Listening material — `p.toml`\n\nThe engine take"));
}

#[test]
fn a_library_that_ships_its_map_is_left_alone() {
    let everything = match parse(&args(&["x", "--resample", "--legacy-alias"])) {
        Ok(o) => o,
        Err(_) => panic!("these are its flags"),
    };
    let nothing = match parse(&args(&["x"])) {
        Ok(o) => o,
        Err(_) => panic!("a name is enough"),
    };
    for native in [false, true] {
        let p = plan(true, native, &everything);
        assert_eq!(p, Plan { resampling: Resampling::NotAsked, map: false, alias: false });
    }
    let p = plan(false, false, &everything);
    assert_eq!(p, Plan { resampling: Resampling::Needed, map: true, alias: true });
    assert_eq!(plan(false, true, &everything).resampling, Resampling::NotNeeded);
    let p = plan(false, false, &nothing);
    assert_eq!(p, Plan { resampling: Resampling::NotAsked, map: true, alias: false });
}

#[test]
fn a_first_sentence_stays_as_it_is() {
    for text in [
        "One.  Two words and then some more until it is long enough. And more.",
        "  no full stop at   all ",
        "",
    ] {
        let once = first_sentence(text);
        assert_eq!(first_sentence(&once), once);
    }
}

#[test]
fn a_name_below_a_directory_is_found_again() {
    for dir in ["", "a", "a/", "/", "/a//b/.", "."] {
        for name in ["x.wav", "s/x.wav"] {
            assert_eq!(short(&join_path(dir, name), dir), name);
        }
    }
    assert_eq!(short(&join_path("a", "x//"), "a"), "x");
    assert_eq!(short(&join_path("a", "./x"), "a"), "x");
}
