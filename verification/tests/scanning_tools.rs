use tuner_tools::compass::console::{FlagLine, cache_line, outliers};
use tuner_tools::compass::report::{
    Pair, PartialRow, detail_report, take_name, write_report,
};
use tuner_tools::brilliance::report::{
    BandsRow, DECAYS, DecayRow, Four, PARTIALS, PartialDecay, PhraseRow, ProbedKey, Quad, REGISTERS, RegisterTail, TailRow, bands_line, decay_row, decay_total, floor_line, four_rows, heading, missing, octave_rows, pass_line, phrase_rows, probed_row, register_tail, shelf_line, summed_row, tail_row,
};
use tuner_tools::brilliance;
use tuner_tools::compass;
use tuner_tools::order::Middle;
use tuner_tools::reading::Reading;

fn r(x: f64) -> Reading {
    Reading { bits: x.to_bits() }
}

fn all(v: &[f64]) -> Vec<Reading> {
    v.iter().map(|&x| r(x)).collect()
}

fn args(list: &[&str]) -> Vec<String> {
    list.iter().map(|s| s.to_string()).collect()
}

fn s(x: &str) -> String {
    x.to_string()
}

fn strung(key: u8, unison: usize) -> compass::Strung {
    compass::Strung { key, unison }
}

fn scores(at: usize, z: f64) -> compass::Scores {
    let mut v = vec![r(0.5); compass::METRICS];
    v[at] = r(z);
    compass::Scores { z: v }
}

#[test]
fn compass_details_are_the_keys_that_were_named() {
    let o = compass::options(&args(&["d", "o", "p", "60", "x", "300", "61"]));
    assert_eq!((o.data, o.out, o.preset, o.detail), (s("d"), s("o"), s("p"), vec![60, 61]));
    let o = compass::options(&args(&[]));
    assert_eq!((o.out, o.detail), (s("renders/compass"), vec![]));
}

#[test]
fn metrics_are_found_by_name() {
    let names: Vec<&str> = (0..compass::METRICS).map(|m| compass::metric_name(m)).collect();
    assert_eq!(names, vec!["level", "centroid", "irregular", "match", "beat", "jitter", "decay"]);
    assert_eq!(compass::metric_index("jitter"), 5);
    assert_eq!(compass::metric_index("no such metric"), 0);
}

#[test]
fn a_key_is_held_against_its_own_kind() {
    let mut keys: Vec<compass::Strung> = (30..42).map(|k| strung(k, 2)).collect();
    keys[4] = strung(34, 1);
    let near = compass::same_kind_neighbours(&keys, 5);
    assert_eq!(near, vec![6, 3, 7, 2, 8, 1, 9, 0]);
    let ties = vec![strung(60, 3), strung(62, 3), strung(61, 3)];
    assert_eq!(compass::same_kind_neighbours(&ties, 2), vec![0, 1]);
}

#[test]
fn a_residual_needs_four_neighbours() {
    let keys: Vec<compass::Strung> = (60..65).map(|k| strung(k, 3)).collect();
    let column = all(&[1.0, 2.0, 9.0, 4.0, 6.0]);
    let d = match compass::residual_at(&keys, &column, 2) {
        Some(d) => d,
        None => panic!("four neighbours"),
    };
    assert_eq!(d.value, r(9.0));
    assert_eq!(d.middle, Middle::Two(r(2.0), r(4.0)));
    assert!(compass::residual_at(&keys, &all(&[1.0, 2.0, 9.0, f64::NAN, 6.0]), 2).is_none());
    assert!(compass::residual_at(&keys, &all(&[1.0, 2.0, f64::NAN, 4.0, 6.0]), 2).is_none());
    assert!(compass::is_scored(true, r(0.1)));
    assert!(!compass::is_scored(true, r(0.0)) && !compass::is_scored(false, r(1.0)));
    assert!(!compass::is_scored(true, r(f64::NAN)));
}

#[test]
fn flags_come_worst_first() {
    let all = vec![scores(1, 4.0), scores(2, -7.0), scores(0, 3.99), scores(3, f64::NAN)];
    let flags = compass::flagged(&all);
    assert_eq!(flags.len(), 2);
    assert_eq!((flags[0].key_index, flags[0].metric, flags[0].z), (1, 2, r(-7.0)));
    assert_eq!((flags[1].key_index, flags[1].metric, flags[1].z), (0, 1, r(4.0)));
    assert_eq!(all[1].worst(), (2, r(7.0)));
    assert_eq!(all[1].get("irregular"), r(-7.0));
    assert_eq!(all[1].get("none"), r(0.0));
    assert_eq!(compass::Scores { z: vec![r(0.0); 7] }.worst(), (0, r(0.0)));
}

fn flag_row() -> compass::report::FlagRow {
    compass::report::FlagRow {
        key: 60,
        unison: 3,
        sampled: true,
        metric: 4,
        z: s("+5.0"),
        engine: s("3.00"),
        neighbours: s("1.00"),
        recording: s("-0.5"),
    }
}

fn both(engine: Option<&str>, reference: Option<&str>) -> Pair {
    Pair { engine: engine.map(s), reference: reference.map(s) }
}

fn key_row(beat: Option<&str>) -> compass::report::KeyRow {
    compass::report::KeyRow {
        key: 61,
        f0: s("277.2"),
        unison: 3,
        level: both(Some("-30.0"), Some("-31.0")),
        centroid: both(Some("7.0"), Some("8.0")),
        irregular: both(Some("4.0"), Some("5.0")),
        beat: both(beat, Some("2.0")),
        jitter: both(Some("0.50"), None),
        decay: both(Some("-6.0"), Some("-7.0")),
        matched: s("3.0"),
        worst: 2,
        worst_z: s("1.5"),
    }
}

#[test]
fn the_compass_report_says_when_nothing_stands_out() {
    let text = write_report(&vec![flag_row()], &vec![key_row(None)], "p.toml", "s.sfz");
    assert!(text.starts_with("# The compass, key by key\n\nEvery key of an 88-note piano struck alone at velocity 90, held for 3.6 s, through the engine on `p.toml` and through the recordings of the Yamaha C5 at `s.sfz`. Seven numbers each"));
    assert!(text.contains("| 60 | C4 | 3 | yes | `beat` | **+5.0** | 3.00 | 1.00 | -0.5 |\n"));
    assert!(!text.contains("**No key of the compass is an outlier.**"));
    assert!(text.contains("\n1 flags over 1 of 1 keys.\n\n"));
    assert!(text.contains(
        "| 61 | C#4 | 277.2 | 3 | -30.0/-31.0 | 7.0/8.0 | 4.0/5.0 | 3.0 | -/2.0 | 0.50/- | -6.0/-7.0 | irregular 1.5 |\n"
    ));
    assert!(text.ends_with("\n```sh\ncargo run --release -p piano-tuner -- compass \\\n    data/salamander renders/compass p.toml\n```\n"));
    assert!(text.contains("`z` is the residual against the median of the 8 nearest keys **strung the same way**"));
    assert!(text.contains("A key is an **outlier** at `|z| >= 4.0`, on any one of the seven.\n\n"));
    let twice = write_report(&vec![flag_row(), flag_row()], &vec![key_row(None)], "p", "s");
    assert!(twice.contains("\n2 flags over 1 of 1 keys.\n\n"));
    let none = write_report(&Vec::new(), &Vec::new(), "p", "s");
    assert!(none.contains("| - | - | - | - | - | - | - | - | - |\n\n**No key of the compass is an outlier.**\n\n0 flags over 0 of 0 keys.\n\n"));
}

#[test]
fn compass_details_are_printed_in_columns() {
    let row = PartialRow {
        k: 1,
        hz: s("261.6"),
        engine: s("-20.0"),
        reference: s("-21.0"),
        difference: s("+1.0"),
        in_engine: true,
        in_reference: false,
        beat: both(Some("  1.00"), None),
        rate: both(Some("  0.50"), None),
        tail: both(Some(" -6.00"), None),
    };
    let text = detail_report(60, &vec![row]);
    let head = format!(
        "    {:>2} {:>8}  {:>7} {:>7} {:>7} {:>4} | {:>6} {:>6} | {:>6} {:>6} | {:>7} {:>7}\n",
        "k", "hz", "eng dB", "ref dB", "diff", "seen", "eBeat", "rBeat", "eRate", "rRate", "eTail", "rTail"
    );
    let line = format!(
        "    {:>2} {:>8.1}  {:>7.1} {:>7.1} {:>+7.1} {:>4} | {} {} | {} {} | {:>7} {:>7}\n",
        1, 261.6, -20.0, -21.0, 1.0, "eng", "  1.00", "  --  ", "  0.50", "  --  ", " -6.00", "  --  "
    );
    assert_eq!(text, format!("\n  key 60 (C4):\n{head}{line}"));
    assert_eq!(take_name(60, "engine"), "key60_C4_engine.wav");
}

#[test]
fn brilliance_reads_its_numbers_before_the_flags() {
    let o = brilliance::options(&args(&["d", "p", "1.5", "x", "6000", "--trim", "2"]));
    assert_eq!((o.shelf_gain, o.shelf_hz, o.trim), (Some(s("1.5")), Some(s("6000")), Some(s("2"))));
    let o = brilliance::options(&args(&["d", "p", "--trim", "two", "3"]));
    assert_eq!((o.shelf_gain, o.shelf_hz, o.trim), (None, None, None));
}

#[test]
fn the_registers_share_the_keys_out() {
    let keys: Vec<u8> = (21..=108).collect();
    let groups = brilliance::registers();
    let sizes: Vec<usize> = groups.iter().map(|g| brilliance::select(&keys, g.low, g.high).len()).collect();
    assert_eq!(sizes, vec![27, 24, 12, 25]);
    assert_eq!(sizes.iter().sum::<usize>(), keys.len());
    let names: Vec<String> = groups.iter().map(|g| g.name.clone()).collect();
    assert_eq!(names, args(&["A0-B2 bass", "C3-B4 tenor", "C5-B5 treble", "C6-C8 top"]));
    assert_eq!(brilliance::select(&vec![20, 30, 40], 25, 40), vec![1, 2]);
}

#[test]
fn a_continuation_keeps_the_recorded_cells() {
    assert_eq!(brilliance::continued(40, 32, 20), 12);
    assert_eq!(brilliance::continued(20, 32, 20), 0);
    assert_eq!(brilliance::continued(10, 32, 20), 0);
    let row = all(&[0.5, 2.0]);
    assert_eq!(brilliance::continue_row(&row, 2, &all(&[1.5, 1.0])), all(&[0.5, 2.0, 1.5]));
    assert_eq!(brilliance::continue_row(&row, 2, &all(&[1.0, 1.0])), all(&[0.5, 2.0]));
    assert_eq!(brilliance::continue_row(&Vec::new(), 2, &all(&[3.0])), all(&[1.0, 1.0, 3.0]));
    assert_eq!(brilliance::continue_row(&all(&[1.0]), 1, &Vec::new()), Vec::new());
    let probed: Vec<u8> = (0..128).filter(|&k| brilliance::is_probed(k)).collect();
    assert_eq!(probed, vec![33, 45, 57, 60, 72, 84]);
    assert_eq!(brilliance::probed_partials(), vec![1, 2, 4, 8, 16]);
}

#[test]
fn brilliance_tables_are_printed_in_columns() {
    assert_eq!(missing("s.sfz"), "the reference piano is not here: s.sfz");
    assert_eq!(heading("p", "s"), "brilliance audit: engine on p, reference s\n");
    assert_eq!(
        bands_line("2000", "6000", "6000", "12000", "0.1", "1", "50", "16000"),
        "  bands 2000-6000 Hz and 6000-12000 Hz, at 0.1 s and 1 s, level-matched over 50-16000 Hz\n"
    );
    assert_eq!(floor_line(80), "  noise floor: the same key at velocity 80 (the layer next door)\n");
    assert_eq!(shelf_line("+1.00", "6000"), "  master shelf: +1.00 dB above 6000 Hz\n\n");
    assert_eq!(
        pass_line(2, "+0.10", "+0.20", "+0.30", "+0.40"),
        "  trim pass 2: tenor 2-6k +0.10 6-12k +0.20   top 2-6k +0.30 6-12k +0.40\n"
    );
    let four = Four {
        name: s("ALL mean"),
        cells: Quad { low_first: s("+1.00"), high_first: s("+2.00"), low_second: s("+3.00"), high_second: s("+4.00") },
    };
    assert_eq!(
        four_rows(&vec![four]),
        format!("{:<14} {:>+10.2} {:>+11.2} {:>+10.2} {:>+11.2}\n", "ALL mean", 1.0, 2.0, 3.0, 4.0)
    );
    assert_eq!(
        REGISTERS,
        format!("\n{:<14} {:>10} {:>11} {:>10} {:>11}\n", "register", "2-6k @0.1", "6-12k @0.1", "2-6k @1.0", "6-12k @1.0")
    );
    assert!(DECAYS.starts_with(&format!(
        "\n{:<14} {:>10} {:>10} {:>10} {:>18}\n{:<14} {:>10} {:>10} {:>10} {:>18}\n",
        "band decay 0.1 -> 1 s, engine - reference (dB); negative = the engine's band dies faster", "", "", "", "",
        "register", "full", "2-6k", "6-12k", "floor 2-6k/6-12k"
    )));
    let decay = |full: &str| DecayRow {
        name: s("bass"),
        full: s(full),
        low: s("    +2.00 "),
        high: s("    +3.00?"),
        floor_low: s("0.10"),
        floor_high: s("0.20"),
    };
    assert_eq!(
        decay_row(&decay("    +1.00≥")),
        format!("{:<14} {} {} {} {:>9.2}/{:<8.2}\n", "bass", "    +1.00≥", "    +2.00 ", "    +3.00?", 0.1, 0.2)
    );
    let total = DecayRow { full: s("+1.00"), low: s("+2.00"), high: s("+3.00"), ..decay("") };
    assert_eq!(
        decay_total(&total),
        format!("{:<14} {:>+10.2} {:>+10.2} {:>+10.2} {:>9.2}/{:<8.2}\n", "bass", 1.0, 2.0, 3.0, 0.1, 0.2)
    );
    assert_eq!(
        tail_row(&TailRow {
            key: 84,
            engine: Some(s("  1.00")),
            reference: None,
            ratio: None,
            reference_floor: s("-50.0"),
            engine_floor: s("-90.0"),
        }),
        format!("{:>4} {:>5} {:>9} {:>9} {:>9} {:>10.1} {:>10.1}\n", 84, "C6", "  1.00", "     -", "     -", -50.0, -90.0)
    );
    assert_eq!(
        register_tail(&RegisterTail {
            name: s("top"),
            engine: s("1.00"),
            reference: s("2.00"),
            engine_count: 3,
            reference_count: 4,
            floor: s("-50.0"),
        }),
        format!("{:<14} eng T60 {:>6.2}  ref T60 {:>6.2}   n {:>2}/{:<2}   ref floor {:>5.1} dB\n", "top", 1.0, 2.0, 3, 4, -50.0)
    );
    let cells = vec![
        PartialDecay { engine: Some(s("  1.00")), reference: None },
        PartialDecay { engine: None, reference: Some(s("  2.00")) },
        PartialDecay { engine: None, reference: None },
    ];
    assert_eq!(
        probed_row(&ProbedKey { key: 60, partials: cells }),
        format!("{:>4} {:>5}{:>16}{:>16}{:>16}\n", 60, "C4", "  1.00 /     -", "     - /  2.00", "     - /     -")
    );
    assert!(PARTIALS.ends_with(&format!(
        "{:>4} {:>5}{:>16}{:>16}{:>16}{:>16}{:>16}   (eng / ref)\n",
        "key", "note", "k=1", "k=2", "k=4", "k=8", "k=16"
    )));
    assert_eq!(
        summed_row(&BandsRow { name: s("ALL @0.1 s"), cells: args(&["+1.00", "-2.00"]) }),
        format!("{:<20}{:>+8.2}{:>+8.2}\n", "ALL @0.1 s", 1.0, -2.0)
    );
    assert_eq!(
        octave_rows(&vec![BandsRow { name: s("mean"), cells: args(&["+1.00"]) }]),
        format!("{:<18}{:>+8.2}\n", "mean", 1.0)
    );
    assert_eq!(
        phrase_rows(&vec![PhraseRow {
            name: s("mean"),
            low: s("+1.00"),
            high: s("+2.00"),
            tilt: s("+3.00"),
            floor_low: s("+4.00"),
            floor_high: s("+5.00"),
            floor_tilt: s("+6.00"),
        }]),
        format!(
            "{:<18} {:>+9.2} {:>+10.2} {:>+12.2} {:>+9.2} {:>+10.2} {:>+12.2}\n",
            "mean", 1.0, 2.0, 3.0, 4.0, 5.0, 6.0
        )
    );
}

#[test]
fn a_scan_says_what_stands_out() {
    assert_eq!(compass::console::heading(88, "p.toml"), "compass scan: vel 90, 88 keys, engine on p.toml\n");
    assert_eq!(cache_line("data/cache"), "  reference cache: data/cache\n");
    assert_eq!(outliers(&Vec::new()), "\noutliers (|z| >= 4.0):\n  none\n  0 flags over 0 keys\n");
    let line = FlagLine { key: 61, unison: 3, metric: 4, z: s("5.2"), recording: s("-0.5") };
    assert_eq!(
        outliers(&vec![line]),
        format!(
            "\noutliers (|z| >= 4.0):\n  {:>4} {:<4} n={}  {:<10} z {:6.1}   (recording z {:5.1})\n  1 flags over 1 keys\n",
            61, "C#4", 3, "beat", 5.2, -0.5
        )
    );
}
