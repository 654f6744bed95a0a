use tuner_tools::bench::page::{difference_stops, level_stops};
use tuner_tools::bench::scoreboard::{
    Board, Gated, Means, Motion, PhraseRow, Score, Settings, StereoBand, cell, comparable, mean_row, red_bands, release_cell, score_row,
    scoreboard, totals, verdict,
};
use tuner_tools::bench::{Progress, STEREO_HEAD, StereoColumn, paths, progress, stereo_row};
use tuner_tools::canvas::Colour;
use tuner_tools::reading::Reading;

fn r(x: f64) -> Reading {
    Reading { bits: x.to_bits() }
}

fn s(x: &str) -> String {
    x.to_string()
}

fn score(value: &str, floor: &str) -> Score {
    Score { value: s(value), floor: s(floor) }
}

#[test]
fn bench_paths_have_defaults() {
    let p = paths(&Vec::new());
    assert_eq!((p.data, p.out, p.preset), (s("data/salamander"), s("renders/realism"), s("presets/salamander-c5.toml")));
}

#[test]
fn a_phrase_says_how_it_came_out() {
    let p = Progress {
        name: s("scale"),
        mel: s("6.10"),
        mel_floor: s("2.00"),
        mel_transposition: s("3.00"),
        modulation: s("3.25"),
        modulation_floor: s("1.50"),
        transposed: 4,
        struck: 10,
        seconds: s("1.5"),
    };
    assert_eq!(
        progress(&p),
        format!(
            "{:<18}  mel {:5.2} dB (floor {:4.2}, transposition {:4.2})   mod {:5.2} dB (floor {:4.2})   {}/{} notes transposed   {:.1} s\n",
            "scale", 6.1, 2.0, 3.0, 3.25, 1.5, 4, 10, 1.5
        )
    );
    let c = |pass: bool| StereoColumn {
        name: s("bass"),
        engine: s("+0.900"),
        reference: s("+0.500"),
        error: s("0.400"),
        bar: s("0.100"),
        pass,
        items: 6,
    };
    let line = |word: &str| {
        format!("  {:>8}  {:>9}  {:>11}  {:>7}  {:>7}  {:>6}  {:>4}\n", "bass", "+0.900", "+0.500", "0.400", "0.100", word, 6)
    };
    assert_eq!(stereo_row(&c(true)), line("pass"));
    assert_eq!(stereo_row(&c(false)), line("RED"));
    assert!(STEREO_HEAD.starts_with("\nSTEREO columns (not a mono sum)"));
}

#[test]
fn a_release_without_windows_is_a_dash() {
    assert_eq!(cell(&score("6.10", "2.00")), "6.10 (2.00)");
    assert_eq!(release_cell(&score("6.10", "2.00"), 0), "— (0)");
    assert_eq!(release_cell(&score("6.10", "2.00"), 3), "6.10 (2.00) ×3");
}

#[test]
fn the_maps_run_from_end_to_end() {
    let (levels, sides) = (level_stops(), difference_stops());
    assert_eq!((levels.len(), sides.len()), (9, 5));
    assert_eq!(levels[0], Colour { red: 68, green: 1, blue: 84 });
    assert_eq!(levels[8], Colour { red: 253, green: 231, blue: 37 });
    assert_eq!(sides[2], Colour { red: 60, green: 62, blue: 70 });
}

fn row(name: &str, excess: f64, struck: u32, transposed: u32) -> PhraseRow {
    PhraseRow {
        name: s(name),
        description: s("a phrase"),
        duration: s("8"),
        notes: u64::from(struck),
        struck,
        transposed,
        mel: score("6.10", "2.00"),
        modulation: score("3.00", "1.00"),
        attack: score("2.00", "0.50"),
        bass: score("0.900", "0.990"),
        mid: score("0.910", "0.991"),
        treble: score("0.920", "0.992"),
        release: score("4.00", "1.00"),
        windows: 2,
        band: s("1.2 kHz"),
        band_signed: s("+3.00"),
        band_level: s("5.00"),
        band_lean: r(3.0),
        instant: s("1.25"),
        instant_level: s("9.00"),
        attack_signed: s("+1.00"),
        rise_engine: s("10.0"),
        rise_reference: s("12.0"),
        release_signed: s("-1.00"),
        modulation_band: s("300 Hz"),
        modulation_level: s("7.00"),
        rate: s("4.0"),
        rate_level: s("8.00"),
        lag: s("+2.0"),
        resolutions: vec![s("6.00"), s("6.10"), s("6.20")],
        transposition_mel: s("3.00"),
        transposition_modulation: s("1.50"),
        excess: r(excess),
        excess_signed: format!("{excess:+.2}"),
        modulation_excess: r(2.0),
        register: s("bass"),
        correlation: r(0.9),
        correlation_value: s("0.900"),
        correlation_floor: s("0.990"),
        release_level: r(4.0),
        lag_size: r(0.002),
    }
}

fn means() -> Means {
    Means {
        mel: score("6.10", "2.00"),
        modulation: score("3.00", "1.00"),
        attack: score("2.00", "0.50"),
        bass: score("0.900", "0.990"),
        mid: score("0.910", "0.991"),
        treble: score("0.920", "0.992"),
        release: score("4.00", "1.00"),
        lag: s("+2.0"),
        rise_engine: s("10.0"),
        rise_reference: s("12.0"),
        attack_signed: s("+1.00"),
        attack_lean: r(1.0),
        transposition_mel: s("3.00"),
        transposition_modulation: s("1.50"),
        transposed_percent: s("40"),
        transposition_percent: s("49"),
        transposition_ratio: s("1.5"),
    }
}

fn gated(gate: f64, value: f64, gate_shown: &str, shown: &str) -> Gated {
    Gated { gate: r(gate), value: r(value), gate_shown: s(gate_shown), shown: s(shown) }
}

fn board(stereo: Vec<StereoBand>) -> Board {
    Board {
        preset: s("p.toml"),
        sfz: s("s.sfz"),
        settings: Settings {
            version: 4,
            windows: vec![512, 2048, 8192],
            mel_bands: 80,
            mel_low: s("40"),
            mel_high: s("16"),
            mel_floor: s("-80"),
            envelope_frame: s("5.3"),
            max_lag: s("2"),
            band_floor: s("-60"),
            allowance: s("1.5"),
        },
        means: means(),
        stereo,
        stereo_table: s("| a table |\n"),
        motion: Motion {
            cells_planned: 16,
            keys: vec![s("A2"), s("C4")],
            partials: 4,
            velocities: vec![40, 90, 120],
            mismatch: gated(1.5, 1.2, "1.5", "1.20"),
            placement: gated(0.5, 0.4, "0.5", "0.40"),
            depth: gated(3.0, 2.0, "3", "2.00"),
            coherence: gated(0.6, 0.7, "0.60", "0.700"),
            cells: 15,
            velocity: 90,
            velocity_cells: 12,
            cents_engine: s("0.100"),
            cents_recorded: s("0.200"),
            cents_ratio: s("0.500"),
            spread_engine: s("1.00"),
            spread_recorded: s("2.00"),
            spread_ratio: s("0.500"),
        },
    }
}

fn band(name: &str, passes: bool, excess: f64) -> StereoBand {
    StereoBand {
        name: s(name),
        passes,
        excess: r(excess),
        error: s("0.400"),
        bar: s("0.100"),
        ratio: s("4"),
        engine: s("+0.900"),
        reference: s("+0.500"),
        phrase: Some(s("scale")),
    }
}

#[test]
fn the_scoreboard_ranks_the_phrases() {
    let rows = vec![row("quiet", 1.07, 10, 2), row("loud", 4.11, 20, 10), row("bright", 2.53, 5, 0)];
    assert_eq!(totals(&rows), (35, 35, 12));
    let text = scoreboard(&rows, &board(vec![band("bass", true, 0.5), band("treble", false, 4.0)]));
    assert!(text.starts_with("# REALISM.md"));
    assert!(text.contains(&score_row(&rows[0])));
    assert!(text.contains(&mean_row(35, &means())));
    assert!(text.contains("| a table |\n"));
    let ranked: Vec<usize> = ["+4.11", "+2.53", "+1.07"].iter().map(|x| text.find(*x).expect("ranked")).collect();
    assert!(ranked[0] < ranked[1] && ranked[1] < ranked[2]);
    assert!(text.contains("`p.toml`") && text.contains("s.sfz"));
    assert_ne!(verdict(true), verdict(false));
}

#[test]
fn the_worst_red_band_is_named() {
    let text = red_bands(&vec![band("bass", true, 9.0), band("mid", false, 2.0), band("treble", false, 4.0)]);
    assert!(text.contains("treble") && !text.contains("bass"));
    assert_ne!(text, red_bands(&vec![band("bass", true, 9.0)]));
}

#[test]
fn a_gate_that_is_met_exactly_passes() {
    let rows = vec![row("only", 1.0, 3, 0)];
    let verdicts = |mismatch: f64, placement: f64, depth: f64, coherence: f64| {
        let mut b = board(Vec::new());
        b.motion.mismatch = gated(1.5, mismatch, "g", "v");
        b.motion.placement = gated(0.5, placement, "g", "v");
        b.motion.depth = gated(3.0, depth, "g", "v");
        b.motion.coherence = gated(0.6, coherence, "g", "v");
        let text = scoreboard(&rows, &b);
        text.lines()
            .filter(|l| l.contains(" g | v | ") || l.contains(" g dB | v | "))
            .map(|l| l.contains("**pass**"))
            .collect::<Vec<bool>>()
    };
    assert_eq!(verdicts(1.5, 0.5, 3.0, 0.6), vec![true, true, true, true]);
    assert_eq!(verdicts(1.51, 0.49, 3.01, 0.59), vec![false, false, false, false]);
    assert_eq!(verdicts(1.0, 0.4, 9.0, 0.7), vec![true, false, false, true]);
    let nan = f64::NAN;
    assert_eq!(verdicts(nan, nan, nan, nan), vec![false, false, false, false]);
}

#[test]
fn a_release_that_is_not_ranked_needs_no_number() {
    let mut few = row("few", 1.0, 3, 0);
    few.release_level = r(f64::NAN);
    let mut many = row("many", 2.0, 3, 0);
    many.windows = 3;
    let text = scoreboard(&vec![few, many], &board(Vec::new()));
    assert!(text.contains("many"));
}

#[test]
fn a_band_that_is_level_with_the_piano_is_not_above_it() {
    let side = |lean: f64| {
        let mut only = row("only", 1.0, 3, 0);
        only.band_lean = r(lean);
        scoreboard(&vec![only], &board(Vec::new())).contains("louder than")
    };
    assert!(side(0.5));
    assert!(!side(0.0));
    assert!(!side(-0.5));
}

#[test]
fn one_phrase_is_compared_with_nothing() {
    let lost = || {
        let mut q = row("lost", f64::NAN, 3, 0);
        q.correlation = r(f64::NAN);
        q.lag_size = r(f64::NAN);
        q.release_level = r(f64::NAN);
        q.windows = 3;
        q
    };
    assert!(comparable(&vec![lost()]));
    assert!(scoreboard(&vec![lost()], &board(Vec::new())).contains("lost"));
    assert!(!comparable(&vec![lost(), row("good", 1.0, 3, 0)]));
    let released = |windows: u64, level: f64| {
        let mut q = row("one", 1.0, 3, 0);
        q.windows = windows;
        q.release_level = r(level);
        q
    };
    assert!(comparable(&vec![released(3, f64::NAN), released(2, f64::NAN)]));
    assert!(!comparable(&vec![released(3, f64::NAN), released(2, 1.0), released(4, 1.0)]));
    assert!(!comparable(&vec![released(3, 1.0), released(4, f64::NAN)]));
    assert!(comparable(&vec![released(3, 1.0), released(4, 2.0)]));
}
