use tuner_tools::chain::console::{
    band_rows, candidate_rows, channel_rows, console, decay_rows, pairs_line, phrase_lines, plain, span, split_line,
};
use tuner_tools::chain::report::{
    Arrival, CurveRow, Findings, Four, Oracle, PhraseRow, SpatialRow, SweptLevel, TailRow, arrival_rows,
    brilliance_rows, chain_report, collapse_rows, curve_rows, spatial_rows, sweep_rows, tail_rows,
};
use tuner_tools::chain::{
    Clusters, Impulsive, Layer, MAX_IMPULSIVE, MAX_REFLECTIONS, Mechanism, Tail, arrivals, best_level, by_delay, decay_at, halves,
    is_decay, paths, pick_half, pick_layer, rises, velocities,
};
use tuner_tools::keys::pairs;
use tuner_tools::reading::Reading;

fn r(x: f64) -> Reading {
    Reading { bits: x.to_bits() }
}

fn s(x: &str) -> String {
    x.to_string()
}

fn args(list: &[&str]) -> Vec<String> {
    list.iter().map(|s| s.to_string()).collect()
}

#[test]
fn chain_paths_have_defaults() {
    let p = paths(&Vec::new());
    assert_eq!((p.data, p.out, p.preset), (s("data/salamander"), s("renders/chain"), s("presets/salamander-c5.toml")));
    let p = paths(&args(&["d", "o", "p", "q"]));
    assert_eq!((p.data, p.out, p.preset), (s("d"), s("o"), s("p")));
}

#[test]
fn the_halves_share_no_key() {
    let keys = vec![21, 24, 27, 30, 33];
    let (a, b) = halves(&keys);
    assert_eq!((a.clone(), b.clone()), (vec![21, 27, 33], vec![24, 30]));
    assert!(a.iter().all(|k| !b.contains(k)));
    assert_eq!(halves(&Vec::new()), (Vec::new(), Vec::new()));
    let all = pairs(&keys, &velocities());
    let (of_a, of_b) = (pick_half(&all, &a), pick_half(&all, &b));
    assert_eq!(of_a.len() + of_b.len(), all.len());
    assert!(of_a.iter().all(|&i| a.contains(&all[i].0)));
    assert!(of_b.iter().all(|&i| b.contains(&all[i].0)));
}

#[test]
fn the_layers_share_the_pairs_out() {
    assert_eq!(velocities(), vec![40, 70, 100, 120]);
    let all = pairs(&vec![60, 61], &velocities());
    assert_eq!(pick_layer(&all, Layer::Soft), vec![0, 1, 4, 5]);
    assert_eq!(pick_layer(&all, Layer::Loud), vec![2, 3, 6, 7]);
}

#[test]
fn enough_of_the_mechanism_is_enough() {
    let mut kinds = vec![Mechanism::Other, Mechanism::KeyOff, Mechanism::PedalDown];
    kinds.extend(vec![Mechanism::PedalUp; 40]);
    let mut taking = Impulsive::start();
    let mut read = Vec::new();
    while let Some(i) = taking.next(&kinds) {
        let could = i != 2;
        taking.take(&kinds, could);
        if could {
            read.push(i);
        }
    }
    assert_eq!(read.len(), MAX_IMPULSIVE);
    assert_eq!(taking.taken, read);
    assert_eq!(read[..3], [1, 3, 4]);
    let mut none = Impulsive::start();
    assert_eq!(none.next(&vec![Mechanism::Other]), None);
}

#[test]
fn every_arrival_is_in_one_cluster() {
    let mut c = Clusters::empty();
    assert_eq!(c.head(), None);
    let near = [true, true, false, false, true, true, false, true];
    for n in near {
        c.place(n);
    }
    assert_eq!(c.all, vec![vec![0, 1], vec![2], vec![3, 4, 5], vec![6, 7]]);
    assert_eq!(c.head(), Some(6));
    assert_eq!(c.largest(), vec![2, 0, 3, 1]);
    let flat: Vec<usize> = c.all.iter().flatten().copied().collect();
    assert_eq!(flat, (0..near.len()).collect::<Vec<_>>());
    let mut many = Clusters::empty();
    for _ in 0..9 {
        many.place(false);
    }
    assert_eq!(many.largest(), (0..MAX_REFLECTIONS).collect::<Vec<_>>());
}

#[test]
fn arrivals_that_do_not_fall_are_the_mechanism() {
    assert!(!rises(&Vec::new()));
    assert!(rises(&vec![true, true]));
    assert!(!rises(&vec![true, false]));
    assert_eq!(
        arrivals(true),
        "  the candidates get LOUDER with delay, so they are the mechanism's own body and not arrivals — the stage carries no reflections"
    );
    assert_eq!(arrivals(false), "  the candidates decay with delay, so they are arrivals — the stage carries no reflections");
}

#[test]
fn a_decay_is_a_number_over_its_least() {
    assert!(is_decay(r(0.03)) && !is_decay(r(0.02)) && !is_decay(r(f64::NAN)) && !is_decay(r(f64::INFINITY)));
}

#[test]
fn the_first_of_the_least_mismatches_is_kept() {
    assert_eq!(best_level(&vec![r(3.0), r(1.0), r(1.0), r(2.0)]), Some(1));
    assert_eq!(best_level(&vec![r(f64::NAN), r(f64::INFINITY)]), None);
    assert_eq!(best_level(&Vec::new()), None);
}

#[test]
fn a_band_without_a_decay_has_none() {
    let bands = vec![
        Tail { low: r(500.0), decay: s("0.450") },
        Tail { low: r(6000.0), decay: s("0.120") },
        Tail { low: r(500.0), decay: s("9.000") },
    ];
    assert_eq!(decay_at(&bands, r(500.0)), "0.450");
    assert_eq!(decay_at(&bands, r(6000.0)), "0.120");
    assert_eq!(decay_at(&bands, r(700.0)), "NaN");
}

fn four(list: [&str; 4]) -> Four {
    Four { engine: s(list[0]), eq: s(list[1]), chain: s(list[2]), floor: s(list[3]) }
}

fn findings() -> Findings {
    Findings {
        preset: s("p.toml"),
        sfz: s("s.sfz"),
        half_a: vec![21, 27],
        half_b: vec![24],
        keys: 3,
        velocities: 4,
        pairs: 12,
        read_low: 2,
        read_high: 30,
        order: 8,
        spatial_keys: 2,
        velocity: 90,
        window: 2048,
        written: args(&["ode", "excerpt"]),
        out: s("renders/chain"),
        impulsive: 7,
        rising: true,
        mel: four(["6.10", "5.20", "5.30", "2.00"]),
        modulation: four(["3.10", "3.20", "3.30", "1.00"]),
        oracle: Oracle { none: s("6.00"), one: s("5.00"), each: s("4.00") },
        oracle_eq: Oracle { none: s("5.50"), one: s("4.90"), each: s("3.90") },
        excess: s("4.10"),
        eq_share: s("22"),
        chain_share: s("20"),
        oracle_mel: s("5.10"),
        oracle_share: s("24"),
        oracle_gain: s("1.00"),
        split: s("0.80"),
        split_r: s("+0.910"),
        level: s("1.20"),
        level_r: s("+0.700"),
        train_before: s("5.00"),
        train_after: s("4.00"),
        held_before: s("5.10"),
        held_after: s("4.60"),
        held_gain: s("+0.50"),
        read_low_hz: s("60"),
        read_high_hz: s("9000"),
        engine_top: s("0.900"),
        edt: s("0.300"),
        t20: s("0.400"),
        decay_middle: s("0.450"),
        decay_top: s("0.120"),
        rise_db: s("16"),
        rise_ms: s("47"),
        onset: s("10"),
        longest: s("0.45"),
        bare: s("0.500"),
        tail_level: s("-12"),
        chained: s("0.300"),
        coherent: s("40"),
        broadband: s("0.400"),
        engine_broadband: s("0.900"),
        matched: s("0.290"),
        oracle_each_gain: s("2.00"),
        oracle_taken: s("0.50"),
        high_engine: s("7.00"),
        high_eq: s("8.00"),
        tilt_engine: s("1.00"),
        tilt_eq: s("1.50"),
        engine_top_peak: s("0.950"),
        curve: vec![CurveRow { hz: s("125"), half_a: s("+1.00"), half_b: s("-2.00"), all: s("+0.00"), pairs: s("40"), scatter: s("3.00") }],
        spatial: vec![SpatialRow { low: s("125"), high: s("250"), zero: s("0.500"), peak: s("0.600"), lag: s("+0.10"), engine: s("0.900") }],
        tail: vec![
            TailRow { low: s("125"), high: s("250"), time: r(0.45), decay: s("0.450") },
            TailRow { low: s("250"), high: s("500"), time: r(f64::NAN), decay: s("NaN") },
            TailRow { low: s("500"), high: s("1000"), time: r(0.02), decay: s("0.020") },
        ],
        arrivals: vec![Arrival { delay: s("4.10"), level: s("-20.00"), side: s("+0.25"), count: 5 }],
        sweep: vec![
            SweptLevel { level: s("-30"), mismatch: s("0.480"), chosen: false },
            SweptLevel { level: s("-12"), mismatch: s("0.290"), chosen: true },
        ],
        phrases: vec![PhraseRow {
            name: s("scale"),
            mel: four(["6.00", "5.00", "5.50", "2.00"]),
            modulation: four(["3.00", "3.25", "3.50", "1.00"]),
            low: four(["+1.00", "-1.00", "+0.50", "0.25"]),
            high: four(["+2.00", "-2.00", "+1.50", "0.75"]),
            tilt: four(["-0.10", "+0.20", "-0.30", "0.05"]),
        }],
    }
}

#[test]
fn the_console_tables_stand_in_columns() {
    let f = findings();
    assert_eq!(split_line(30, 15, 15, 4), "30 sampled keys, split 15 / 15; 4 velocities each\n\n");
    assert_eq!(pairs_line(120, "4.5"), "120 matched note pairs in 4.5 s\n");
    assert_eq!((plain("+1.00"), plain("-1.00"), plain("NaN"), plain("")), (s("1.00"), s("-1.00"), s("NaN"), s("")));
    assert_eq!(span("125", "250"), "125-250");
    assert_eq!(
        band_rows(&f.curve),
        format!("  {:8.0}  {:7.2}  {:7.2}  {:7.2}  {:6}  {:7.2}\n", 125.0, 1.0, -2.0, 0.0, 40, 3.0)
    );
    assert_eq!(
        channel_rows(&f.spatial),
        format!("  {:>6}  {:9.3} / {:6.3}  {:16.2}  {:16.3}\n", "125-250", 0.5, 0.6, 0.1, 0.9)
    );
    let line = |band: &str, t: f64| format!("  {band:>12}  {t:8.3}\n");
    let every = line("125-250", 0.45) + &line("250-500", f64::NAN) + &line("500-1000", 0.02);
    assert_eq!(decay_rows(&f.tail), every);
    assert!(console(&f).contains(&every));
    assert_eq!(candidate_rows(&f.arrivals), format!("  {:9.2}  {:9.2}  {:7.2}  {:6}\n", 4.1, -20.0, 0.25, 5));
    assert_eq!(
        phrase_lines(&f.phrases),
        format!(
            "  {:<18} mel {:.2} -> {:.2} -> {:.2}  (floor {:.2})   mod {:.2} -> {:.2} -> {:.2} (floor {:.2})\n",
            "scale", 6.0, 5.0, 5.5, 2.0, 3.0, 3.25, 3.5, 1.0
        )
    );
}

#[test]
fn the_console_says_the_findings_in_order() {
    let text = console(&findings());
    assert!(text.starts_with(
        "\n== (a) the smooth spectral transfer ==\n  split-half agreement (even keys vs odd keys): mean |Δ| 0.80 dB, r +0.910\n  soft vs loud layers:                          mean |Δ| 1.20 dB, r +0.700\n"
    ));
    assert!(text.contains(&format!(
        "\n\n  {:>8}  {:>7}  {:>7}  {:>7}  {:>6}  {:>7}\n",
        "Hz", "A", "B", "all", "n(A)", "MAD(A)"
    )));
    assert!(text.contains("    train (half A) 5.00 -> 4.00 dB     held out (half B) 5.10 -> 4.60 dB\n"));
    assert!(text.contains("  the curve was read over bands 2..30 (60-9000 Hz) and is flat outside them\n"));
    assert!(text.contains(&format!(
        "  {:>6}  {:>18}  {:>16}  {:>16}\n",
        "band", "reference r@0 / peak", "at lag ms", "engine r@0"
    )));
    assert!(text.contains("  broadband r@0: reference 0.400, engine 0.900\n\n  7 impulsive mechanism recordings read\n  broadband EDT 0.300 s, T20 0.400 s\n"));
    assert!(text.contains(&format!("  {:>9}  {:>9}  {:>7}  {:>6}\n", "delay ms", "level dB", "side", "n")));
    assert!(text.contains("the mechanism's own body and not arrivals — the stage carries no reflections\n\n  fitting the tail level to the recording's own decorrelation (bare engine mismatch 0.500):\n    tail -30 dB -> interchannel mismatch 0.480\n    tail -12 dB -> interchannel mismatch 0.290\n"));
    assert!(text.contains("  the recording's decorrelation is matched at a tail level of -12 dB (mismatch 0.290)\n"));
    assert!(text.ends_with(
        "\n  mean over the six: mel 6.10 -> 5.20 (EQ) -> 5.30 (chain), floor 2.00\n  the excess over the floor is 4.10 dB; the EQ absorbs 22 % of it and the whole chain 20 %\n\n  the oracle, at window 2048 (the resolution the images are drawn at):\n    as rendered 6.00 dB  ->  one global static curve fitted on the answer 5.00  ->  one curve per phrase 4.00\n    through the fitted EQ 5.50 dB  ->  4.90  ->  3.90\n    so a static magnitude chain has at most 1.00 dB of the 6.00 dB gap to give, and the fitted curve has already taken 0.50 of it\n\n  wrote 2 triples into renders/chain\n  interchannel mismatch against the recording: bare 0.500 -> chained 0.300\n"
    ));
}

#[test]
fn the_chain_report_holds_every_table() {
    let f = findings();
    let text = chain_report(&f);
    assert!(text.starts_with("# CHAIN.md"));
    for table in [
        curve_rows(&f.curve),
        spatial_rows(&f.spatial),
        tail_rows(&f.tail),
        arrival_rows(&f.arrivals),
        sweep_rows(&f.sweep),
        collapse_rows(&f.phrases),
        brilliance_rows(&f.phrases),
    ] {
        assert!(text.contains(&table));
    }
    assert_eq!(tail_rows(&f.tail), "| 125–250 Hz | 0.450 |\n");
    assert_eq!(curve_rows(&f.curve), "| 125 | +1.00 | -2.00 | +0.00 | 40 | 3.00 |\n");
    assert!(text.contains("`ode`, `excerpt`"));
    assert!(text.contains("A0 D#1"));
    assert!(sweep_rows(&f.sweep).lines().count() == 2 && sweep_rows(&f.sweep).contains("**"));
}

#[test]
fn arrivals_are_taken_by_their_delay() {
    assert_eq!(by_delay(&vec![r(3.0), r(1.0), r(2.0), r(1.0)]), vec![1, 3, 2, 0]);
    assert_eq!(by_delay(&vec![r(f64::NAN)]), vec![0]);
    assert_eq!(by_delay(&Vec::new()), Vec::<usize>::new());
}
