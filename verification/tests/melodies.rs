use tuner_tools::args::Stop;
use tuner_tools::fit::tables::FalseBeat;
use tuner_tools::melody::console::{EVEN, HEAD_NOTES, heading, ladder_line, note_lines, scored_line, verdict_line};
use tuner_tools::melody::report::{
    Board, Column, NoteScore, Pair, PopulationRow, Provenance, Signed, TimedNote, melody_report, named,
};
use tuner_tools::melody::{Edit, Played, clear_low, edits, low_keys, paths, what};
use tuner_tools::reading::Reading;

fn r(x: f64) -> Reading {
    Reading { bits: x.to_bits() }
}

fn s(x: &str) -> String {
    x.to_string()
}

fn args(list: &[&str]) -> Vec<String> {
    list.iter().map(|s| s.to_string()).collect()
}

fn read(list: &[&str]) -> Result<Vec<Edit>, String> {
    edits(&args(list)).map_err(|e| match e {
        Stop::Error(e) => format!("error: {e}"),
        Stop::Panic(e) => format!("panic: {e}"),
    })
}

#[test]
fn melody_paths_pass_over_the_flags() {
    let p = paths(&args(&["--before", "d", "--no-strike", "o"]));
    assert_eq!((p.data, p.out, p.preset), (s("d"), s("o"), s("presets/salamander-c5.toml")));
    let p = paths(&Vec::new());
    assert_eq!((p.data, p.out), (s("data/salamander"), s("renders/melody")));
    let p = paths(&args(&["--clear-decay", "60"]));
    assert_eq!((p.data, p.out), (s("data/salamander"), s("renders/melody")));
    let p = paths(&args(&["d", "--clear-low", "60", "o", "--clear-key", "61", "p"]));
    assert_eq!((p.data, p.out, p.preset), (s("d"), s("o"), s("p")));
}

#[test]
fn edits_are_played_in_order() {
    let a = [
        "--before", "x", "--no-drawn-splits", "--no-drawn-gains", "--no-splits", "--no-drawn-decay", "--clear-key",
        "60", "--no-drawn-low", "--clear-low", "+61", "--before-noise", "--no-strike", "--clear-decay", "255",
    ];
    assert_eq!(
        read(&a),
        Ok(vec![
            Edit::Before,
            Edit::NoDrawnSplits,
            Edit::NoDrawnGains,
            Edit::NoSplits,
            Edit::NoDrawnDecay,
            Edit::ClearKey(60),
            Edit::NoDrawnLow,
            Edit::ClearLow(61),
            Edit::BeforeNoise,
            Edit::NoStrike,
            Edit::ClearDecay(255),
        ])
    );
    assert_eq!(read(&["--clear-key"]), Err(s("panic: a key must follow --clear-key")));
    assert_eq!(read(&["--clear-low", "x"]), Err(s("error: invalid digit found in string")));
    assert_eq!(read(&["--clear-decay", "256"]), Err(s("error: number too large to fit in target type")));
    assert_eq!(read(&["--clear-key", ""]), Err(s("error: cannot parse integer from empty string")));
}

#[test]
fn the_last_edit_names_the_preset() {
    assert_eq!(what(&Vec::new()), "as shipped");
    assert_eq!(what(&vec![Edit::NoStrike, Edit::Before]), "before (item 284 undone)");
    assert_eq!(what(&vec![Edit::ClearKey(60)]), "key 60 cleared");
    assert_eq!(what(&vec![Edit::ClearLow(7)]), "key 7's cells under 2 kHz returned to 1.0");
    assert_eq!(what(&vec![Edit::ClearDecay(108)]), "key 108's partial_sigma_scale row cleared");
    assert_eq!(what(&vec![Edit::NoDrawnLow]), "the drawn rows' cells under 2 kHz returned to 1.0");
}

fn played() -> Played {
    let beat = FalseBeat { k: 2, hz: r(1.0), db: r(-20.0) };
    Played {
        partial_gains: vec![vec![r(0.5)], vec![r(2.0)], vec![r(3.0)]],
        false_beat: vec![vec![beat], vec![beat], Vec::new()],
        partial_sigma_scale: vec![vec![r(1.5)], vec![r(1.25)], vec![r(0.75)]],
        synthesized_texture: vec![22],
        synthesized_decay: vec![21, 23],
    }
}

#[test]
fn undrawn_keys_are_not_edited() {
    let drawn = vec![22u8];
    let decay = vec![21u8, 23];
    let mut p = played();
    p.edit(Edit::Before, &drawn, &decay, &Vec::new());
    assert_eq!(p.partial_gains, vec![vec![r(0.5)], Vec::new(), vec![r(3.0)]]);
    assert_eq!(p.false_beat[0].len() + p.false_beat[1].len(), 1);
    assert!(p.synthesized_texture.is_empty() && p.synthesized_decay == decay);
    let mut p = played();
    p.edit(Edit::NoDrawnDecay, &drawn, &decay, &Vec::new());
    assert_eq!(p.partial_sigma_scale, vec![Vec::new(), vec![r(1.25)], Vec::new()]);
    assert!(p.synthesized_decay.is_empty());
    assert_eq!(p.partial_gains, played().partial_gains);
    let mut p = played();
    p.edit(Edit::NoSplits, &drawn, &decay, &Vec::new());
    assert!(p.false_beat.iter().all(|row| row.is_empty()) && p.false_beat.len() == 3);
    let mut p = played();
    p.edit(Edit::ClearKey(5), &drawn, &decay, &Vec::new());
    assert!(p.partial_gains[0].is_empty() && p.false_beat[0].is_empty());
    let mut p = played();
    p.edit(Edit::ClearDecay(23), &drawn, &decay, &Vec::new());
    assert!(p.partial_sigma_scale[2].is_empty());
    assert_eq!(p.synthesized_decay, vec![21]);
    let mut p = played();
    p.edit(Edit::ClearKey(90), &drawn, &decay, &Vec::new());
    assert_eq!(p.partial_gains, played().partial_gains);
}

#[test]
fn low_cells_return_in_the_rows_that_are_named() {
    let drawn = vec![22u8];
    let decay = vec![21u8, 23, 108];
    let table = || Played {
        partial_sigma_scale: vec![vec![r(1.5), r(2.0)], vec![r(1.25)], vec![r(0.75), r(0.5)]],
        ..played()
    };
    assert_eq!(low_keys(Edit::NoDrawnLow, &decay), decay);
    assert_eq!(low_keys(Edit::ClearLow(22), &decay), vec![22]);
    assert_eq!(low_keys(Edit::Before, &decay), Vec::<u8>::new());
    let mut p = table();
    p.edit(Edit::NoDrawnLow, &drawn, &decay, &vec![vec![true, false], vec![true, true], vec![true]]);
    assert_eq!(p.partial_sigma_scale, vec![vec![r(1.0), r(2.0)], vec![r(1.25)], Vec::new()]);
    assert_eq!(p.partial_gains, played().partial_gains);
    assert_eq!(p.synthesized_decay, played().synthesized_decay);
    let mut p = table();
    p.edit(Edit::ClearLow(23), &drawn, &decay, &vec![vec![false, true]]);
    assert_eq!(p.partial_sigma_scale, vec![vec![r(1.5), r(2.0)], vec![r(1.25)], vec![r(0.75)]]);
    let mut p = table();
    p.edit(Edit::ClearLow(108), &drawn, &decay, &vec![vec![true]]);
    assert_eq!(p.partial_sigma_scale, table().partial_sigma_scale);
}

#[test]
fn low_cells_return_to_one() {
    assert_eq!(clear_low(&vec![r(0.5), r(2.0), r(3.0)], &vec![true, false, true]), vec![r(1.0), r(2.0)]);
    assert_eq!(clear_low(&vec![r(0.5)], &vec![true]), Vec::<Reading>::new());
    assert_eq!(clear_low(&vec![r(0.5), r(2.0)], &Vec::new()), vec![r(0.5), r(2.0)]);
}

fn signed(x: f64) -> Signed {
    Signed { value: r(x), text: format!("{x:+.2}") }
}

fn column(metric: &str, pass: bool) -> Column {
    Column {
        metric: s(metric),
        window: s("head"),
        head: true,
        pass,
        gated_on_spread: true,
        gated_on_balance: true,
        gated_on_seam: true,
        standout: s("2.00"),
        standout_at: s("E4"),
        bar: s("1.50"),
        register: s("1.00"),
        worst: s("1.25"),
        take: s("0.50"),
        spread_pass: pass,
        seam: s("0.40"),
        seam_at: s("F4"),
        seam_floor: s("0.30"),
        seam_bar: s("0.60"),
        seam_register: s("0.40"),
        seam_pass: true,
        balance: s("+0.10"),
        balance_bar: s("0.20"),
        balance_take: s("0.15"),
        balance_pass: true,
        clone_line: s("3.00"),
        clone_layer: s("4.00"),
        notes: vec![NoteScore {
            name: s("E4"),
            recorded: false,
            scored: true,
            engine: s("1.00"),
            reference: s("2.00"),
            layer: s("3.00"),
            residual: s("+0.50"),
            engine_signed: signed(1.0),
            reference_signed: signed(2.0),
            error: signed(-1.0),
        }],
        population: vec![PopulationRow {
            name: s("C4"),
            engine: s("1.00"),
            reference: s("1.10"),
            residual: s("+0.01"),
            layer: s("1.20"),
            take: s("0.10"),
            error: s("-0.10"),
            seam: s("+0.02"),
        }],
    }
}

fn both(a: &str, b: &str) -> Pair {
    Pair { engine: s(a), reference: s(b) }
}

fn note() -> TimedNote {
    TimedNote {
        at: s("1.50"),
        name: s("E4"),
        recorded: true,
        roughness: both("2.00", "3.00"),
        wobble: both("0.10", "0.20"),
        hf: both("-30.0", "-31.5"),
        strike: both("-5.0", "-6.0"),
        balance: both("+1.0", "-1.0"),
        splitting: both("+0.5", "-0.5"),
    }
}

#[test]
fn the_melody_console_says_what_is_uneven() {
    assert_eq!(
        heading(5, "p.toml", "as shipped", "s.sfz"),
        "melody line: 5 pitches, engine on p.toml (as shipped), reference s.sfz\n"
    );
    assert_eq!(
        scored_line(&args(&["D#4", "F#4"]), &Vec::new()),
        "  scored reference keys on the line: D#4 F#4   |   transposed and unscored: none\n"
    );
    assert_eq!(ladder_line(&args(&["C4"])), "  bars measured off the recorded ladder: C4\n\n");
    assert_eq!(
        HEAD_NOTES,
        format!(
            "every note of the head window, in time order:\n  {:>6}  {:<4}  {:>9}  {:>7}  {:>7}  {:>7}\n",
            "at", "key", "roughness", "wobble", "hf", "strike"
        )
    );
    assert_eq!(
        note_lines(&vec![note()]),
        format!(
            "  {:6.2}  {:<4}  {:5.2}/{:<5.2}  {:3.2}/{:<3.2}  {:6.1}/{:<6.1}  {:5.1}/{:<5.1}\n",
            1.5, "E4", 2.0, 3.0, 0.1, 0.2, -30.0, -31.5, -5.0, -6.0
        )
    );
    assert_eq!(verdict_line(&vec![column("a", true)]), EVEN);
    let failed = vec![s("rough\"ness (head) at E4"), s("hf (head) at E4")];
    assert_eq!(
        verdict_line(&vec![column("rough\"ness", false), column("x", true), column("hf", false)]),
        format!("\nuneven in {failed:?}\n")
    );
}

#[test]
fn the_melody_report_holds_every_column() {
    let board = |head: Option<Vec<TimedNote>>| Board {
        preset: s("p.toml"),
        what: s("as shipped"),
        sfz: s("s.sfz"),
        head_from: s("0.05"),
        head_to: s("0.25"),
        tail_from: s("0.30"),
        tail_to: s("0.60"),
        pitches: vec![Provenance { name: s("E4"), source: s("transposed") }],
        ladder: args(&["C4", "D#4"]),
        allowance: s("1.20"),
        head,
        tail: None,
    };
    let text = melody_report(&vec![column("roughness", true), column("balance", false)], &board(Some(vec![note()])));
    assert!(text.starts_with("# The melody, note by note\n\n"));
    assert!(text.contains("C4 D#4"));
    assert!(text.contains("## Every note of the `head` window, in time order\n\n"));
    assert!(text.contains(
        "| 1.50 | E4 | recorded | 2.00/3.00 | 0.10/0.20 | -30.0/-31.5 | -5.0/-6.0 | +1.0/-1.0 | +0.5/-0.5 |\n"
    ));
    assert!(!text.contains("## Every note of the `tail` window"));
    assert!(!melody_report(&Vec::new(), &board(None)).contains("## Every note of the `head` window"));
    assert_eq!(named(&Vec::new()), "none");
}
