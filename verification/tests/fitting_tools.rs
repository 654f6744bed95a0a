use tuner_tools::stereo::report::{
    Pair, Point, TakeRow, report, section,
};
use tuner_tools::radiation::report::{
    BandRow, CurveRow, Ripple, curve_report, heading, held_line, outcome, round_report, uniform_report,
};
use tuner_tools::noise::report::{
    Correction, NOTES, NoteRow, Standing, VelocityRow, anchor_line, correction_report, mono_line, note_rows, standing_line, too_few_line, velocity_row, worse_line,
};
use tuner_tools::args::Stop;
use tuner_tools::level;
use tuner_tools::noise;
use tuner_tools::radiation;
use tuner_tools::reading::Reading;
use tuner_tools::stereo;

fn r(x: f64) -> Reading {
    Reading { bits: x.to_bits() }
}

fn all(v: &[f64]) -> Vec<Reading> {
    v.iter().map(|&x| r(x)).collect()
}

fn args(list: &[&str]) -> Vec<String> {
    list.iter().map(|s| s.to_string()).collect()
}

fn s(x: &str) -> String {
    x.to_string()
}

#[test]
fn level_reads_its_flags_behind_the_paths() {
    let o = level::options(&args(&["d", "p", "--passes", "3", "--out", "o"]));
    assert_eq!((o.data, o.preset, o.out, o.passes), (s("d"), s("p"), Some(s("o")), 3));
    let o = level::options(&args(&["--passes", "3"]));
    assert_eq!((o.data, o.preset, o.passes), (s("--passes"), s("3"), 0));
    assert_eq!(level::options(&args(&["d", "p", "--passes", "x"])).passes, 0);
    assert_eq!(level::options(&args(&["d", "p", "--out"])).out, None);
    assert_eq!(level::rest(&args(&["a"])), args(&[]));
}

#[test]
fn a_small_step_is_left() {
    assert_eq!(level::step(r(0.009), 4), level::Step::Leave);
    assert_eq!(level::step(r(-0.009), 4), level::Step::Leave);
    assert_eq!(level::step(r(f64::NAN), 4), level::Step::Leave);
    assert_eq!(level::step(r(f64::INFINITY), 4), level::Step::Leave);
    assert_eq!(level::step(r(-0.01), 4), level::Step::Take);
    assert_eq!(level::step(r(0.5), 0), level::Step::Count);
}

#[test]
fn the_centre_is_the_upper_middle() {
    assert_eq!(level::centre(&Vec::new()), None);
    assert_eq!(level::centre(&all(&[4.0, -1.0])), Some(r(4.0)));
    assert_eq!(level::centre(&all(&[3.0, -1.0, 2.0])), Some(r(2.0)));
}

#[test]
fn a_level_row_is_printed_in_columns() {
    let row = level::KeyRow {
        key: 60,
        engine: format!("{:.2}", -31.25),
        recording: format!("{:.2}", -30.0),
        take: format!("{:.2}", 0.5),
        error: format!("{:.2}", -1.25),
        seam: format!("{:+.2}", 0.25),
        target: format!("{:+.2}", 0.1),
        moved: format!("{:+.2}", 0.05),
    };
    assert_eq!(
        level::key_row(&row),
        format!(
            "{:>4} {:>5} {:>9.2} {:>9.2} {:>9.2} {:>8.2} {:>+8.2} {:>+8.2} {:>+8.2}\n",
            60, "C4", -31.25, -30.0, 0.5, -1.25, 0.25, 0.1, 0.05
        )
    );
    assert_eq!(
        level::HEAD,
        format!(
            "\n{:>4} {:>5} {:>9} {:>9} {:>9} {:>8} {:>8} {:>8} {:>8}\n",
            "key", "note", "engine", "recording", "take", "err", "seam", "target", "moved"
        )
    );
}

#[test]
fn stereo_takes_end_with_the_recording() {
    let names = |bare| stereo::takes(bare).into_iter().map(|t| t.name).collect::<Vec<_>>();
    assert_eq!(names(true), args(&["panpot", "pair", "engine", "m17", "reference"]));
    assert_eq!(names(false), args(&["panpot", "pair", "engine", "reference"]));
    let p = stereo::paths(&args(&["d"]));
    assert_eq!((p.out, p.preset), (s("renders/stereo"), s("presets/salamander-c5.toml")));
    assert_eq!(stereo::file("ode", "pair"), "ode_pair.wav");
    assert_eq!(stereo::silence("ode"), "ode rendered silence");
}

#[test]
fn stereo_takes_share_the_engine_gain() {
    assert_eq!(stereo::gains(4, r(2.0), r(3.0)), all(&[2.0, 2.0, 2.0, 3.0]));
    assert!(stereo::is_silent(r(0.0), r(1.0)));
    assert!(stereo::is_silent(r(1.0), r(-0.0)));
    assert!(!stereo::is_silent(r(1.0), r(f64::NAN)));
    assert!(stereo::is_over(r(0.71)) && !stereo::is_over(r(f64::from(0.7f32))));
}

#[test]
fn a_stereo_section_leaves_out_what_lies_outside() {
    let point = |hz: f64, level: f64| Point {
        hz: r(hz),
        hz_text: format!("{hz:.0}"),
        level: r(level),
        zero: s("+0.500"),
    };
    let take = TakeRow {
        name: s("pair"),
        title: s("the pair"),
        zero: vec![s("+0.900"), s("-0.100")],
        broadband: s("+0.400"),
        mid_side: vec![s("+3.0")],
        peaks: vec![Pair { first: s("0.95"), second: s("+0.10") }],
        shape: vec![Pair { first: s("+0.00"), second: s("-0.01") }],
        curve: vec![point(62.9, 0.0), point(63.0, -60.0), point(4000.0, -59.9), point(4001.0, 0.0)],
    };
    let text = section("ode", "a line", &vec![take]);
    assert!(text.starts_with("## `ode` — a line\n\n| take | file | 63-125 |"));
    assert!(text.contains("| the pair | `ode_pair.wav` | +0.900 | -0.100 | +0.400 |\n"));
    assert!(text.contains("| the pair | +3.0 |\n"));
    assert!(text.contains("| the pair | 0.95 @ +0.10 |\n"));
    assert!(text.contains("| the pair | +0.00 / -0.01 |\n"));
    assert!(text.ends_with("| Hz | pair |\n|---:|---:|\n| 63 | — |\n| 4000 | +0.500 |\n\n"));
    assert!(report(true, "S").contains("## What removing the band changed"));
    assert!(!report(false, "S").contains("## What removing the band changed"));
    assert!(report(false, "S").starts_with("# The stereo image, heard\n\n*`piano-tuner stereo`"));
    assert!(report(false, "S").ends_with("a bar may not\nmove to close them.\n\nS"));
}

fn radiation_error(list: &[&str]) -> String {
    match radiation::parse(&args(list)) {
        Err(Stop::Error(e)) => e,
        _ => panic!("no error"),
    }
}

#[test]
fn the_radiation_command_line_is_read() {
    let o = match radiation::parse(&args(&["d", "p", "--rounds", "3", "--damping", "0.5"])) {
        Ok(o) => o,
        Err(_) => panic!("a command line that is in order"),
    };
    assert_eq!((o.positional, o.rounds, o.damping), (args(&["d", "p"]), 3, Some(s("0.5"))));
    assert_eq!(o.tolerance, None);
    assert_eq!(radiation_error(&["d", "p", "--out"]), "--out needs a path");
    assert_eq!(radiation_error(&["d", "p", "--rounds"]), "--rounds needs a number");
    assert_eq!(radiation_error(&["d", "p", "--rounds", "x"]), "invalid digit found in string");
    assert_eq!(radiation_error(&["d", "p", "--rounds", ""]), "cannot parse integer from empty string");
    assert_eq!(radiation_error(&["--tolerance"]), "--tolerance needs a number");
    assert_eq!(radiation_error(&["--tolerance", "x"]), "invalid float literal");
    assert_eq!(radiation_error(&["--damping", ""]), "cannot parse float from empty string");
    assert_eq!(radiation_error(&["--what"]), "unknown flag --what");
    assert!(radiation_error(&["d"]).starts_with("usage: radiation <data-dir> <preset.toml> [--out <file>] [--hold-partials]"));
}

#[test]
fn a_fit_of_rounds_ends() {
    let mut f = radiation::Rounds::begin(2);
    f.observe(r(3.0), r(0.25));
    f.observe(r(0.25), r(0.25));
    assert!(!f.running);
    assert_eq!(f.converged, Some(1));
    let mut g = radiation::Rounds::begin(1);
    g.observe(r(f64::NAN), r(0.25));
    assert!(g.running);
    g.observe(r(1.0), r(0.25));
    assert!(!g.running);
    assert_eq!((g.round, g.converged), (1, None));
}

#[test]
fn a_declared_curve_must_lie_on_the_grid() {
    assert_eq!(radiation::starts_declared(Some(19), 19), Ok(true));
    assert_eq!(radiation::starts_declared(None, 19), Ok(false));
    assert_eq!(
        radiation::starts_declared(Some(18), 19),
        Err(s("the preset declares 18 radiation bands and this fit works on 19; delete the section or re-fit it on the same grid"))
    );
    assert!(radiation::plays_the_preset(&all(&[0.0, -0.0]), 0));
    assert!(!radiation::plays_the_preset(&all(&[0.0, 0.1]), 0));
    assert!(!radiation::plays_the_preset(&all(&[0.0]), 1));
}

#[test]
fn held_gains_stay_inside_the_rails() {
    let (held, railed) = radiation::hold_partials(&all(&[0.01, 1.0, 9.0, 4.0]), r(0.05), r(4.0));
    assert_eq!(held, all(&[0.05, 1.0, 4.0, 4.0]));
    assert_eq!(railed, 2);
}

#[test]
fn a_radiation_round_is_reported() {
    assert_eq!(
        heading(30, 19, "125", "1000", "p.toml"),
        "# `piano-tuner radiation`\n\n30 recorded keys at v90, 19 sixth-octave bands over 125-1000 Hz, base p.toml\n"
    );
    let band = BandRow {
        hz: s("125"),
        reference: s("+1.00"),
        engine: s("+2.00"),
        required: s("+3.00"),
        standing: s("+4.00"),
        deficit: s("+5.00"),
        declared: s("+6.00"),
    };
    assert_eq!(
        round_report(2, &vec![band], "5.00", "+0.10", "0.200"),
        "\n### round 2 — item 408's table on this render\n\n\
         | Hz | REF pair | ENG pair | **required** | **standing** | deficit | declared dB |\n\
         |---:|---:|---:|---:|---:|---:|---:|\n\
         | 125 | +1.00 | +2.00 | **+3.00** | **+4.00** | +5.00 | +6.00 |\n\
         \nworst deficit **5.00 dB**; uniform component **K = +0.10 dB**, \
         shape residual (peak-to-peak about K) **0.200 dB**\n"
    );
    assert!(held_line(2, 9).starts_with("\n**`--hold-partials`**: 2 of 9 fitted per-partial gains"));
    let text = curve_report(
        &vec![CurveRow { hz: s("125"), declared: s("+1.00"), realised: s("+0.90") }],
        "2.00",
        &vec![Ripple { hz: s("124"), response: s("+0.9") }],
    );
    assert!(text.ends_with(
        "| 125 | +1.00 | +0.90 |\n\nRealised at 1/24 octave over the same span: 2.00 dB peak-to-peak.\n  124:+0.9  \n"
    ));
    assert!(uniform_report("+0.10", "0.200", "+0.30", "+0.40").contains("**K = +0.10 dB** and a peak-to-peak spread of **0.200 dB**"));
    assert_eq!(
        outcome(Some(3), 8, "0.25", "0.100"),
        "\n**Converged after 3 rounds**: the shape residual is inside 0.25 dB.\n"
    );
    assert_eq!(outcome(None, 8, "0.25", "0.300"), "\n**Not converged in 8 rounds.** Shape residual 0.300 dB.\n");
}

#[test]
fn the_noise_command_line_is_read() {
    let o = match noise::options(&args(&["d", "p", "--key", "60", "--stage", "mechanism", "--base", "b"])) {
        Ok(o) => o,
        Err(_) => panic!("a command line that is in order"),
    };
    assert_eq!((o.only, o.mechanism, o.base.as_str()), (Some(60), true, "b"));
    assert_eq!((o.data.as_str(), o.preset.as_str()), ("d", "p"));
    let o = match noise::options(&args(&["--key", "60", "--out", "f", "d"])) {
        Ok(o) => o,
        Err(_) => panic!("a command line that is in order"),
    };
    assert_eq!((o.data.as_str(), o.preset.as_str()), ("d", "presets/salamander-c5.toml"));
    assert_eq!((o.only, o.out.as_deref()), (Some(60), Some("f")));
    assert!(matches!(noise::options(&args(&["--stage", "x"])), Err(Stop::Error(e)) if e == "no such noise stage: x"));
    assert!(matches!(noise::options(&args(&["--key", "300"])), Err(Stop::Error(e)) if e == "number too large to fit in target type"));
    assert!(matches!(noise::options(&args(&["--out"])), Err(Stop::Panic(_))));
}

#[test]
fn a_measured_preset_is_not_written_over() {
    let over = |list: &[&str]| match noise::options(&args(list)) {
        Ok(o) => noise::writes_over_itself(&o),
        Err(_) => panic!("a command line that is in order"),
    };
    assert!(over(&["d", "a/p.toml", "--out", "a//p.toml"]));
    assert!(!over(&["d", "a/p.toml", "--out", "a/q.toml"]));
    assert!(!over(&["d", "a/p.toml", "--out", "a/p.toml", "--stage", "mechanism"]));
    assert!(!over(&["d", "a/p.toml"]));
}

#[test]
fn silencing_the_strike_leaves_the_rest() {
    let strike = noise::Strike {
        level: vec![noise::Anchor { key: 30, db: r(-3.0) }, noise::Anchor { key: 90, db: r(-9.0) }],
        velocity: r(12.0),
        centroid: r(900.0),
        bandwidth: r(400.0),
        decay: r(0.03),
    };
    let quiet = noise::without_strike(&strike, r(-120.0));
    assert_eq!(quiet.level.len(), 1);
    assert_eq!((quiet.level[0].key, quiet.level[0].db), (21, r(-120.0)));
    assert_eq!((quiet.velocity, quiet.centroid), (r(12.0), r(900.0)));
    assert_eq!((quiet.bandwidth, quiet.decay), (r(400.0), r(0.03)));
    let again = noise::without_strike(&quiet, r(-120.0));
    assert_eq!(again.level[0].db, quiet.level[0].db);
}

#[test]
fn the_worse_loudspeaker_is_the_left_on_a_tie() {
    assert_eq!(noise::worse(r(1.0), r(1.0)), 0);
    assert_eq!(noise::worse(r(1.0), r(2.0)), 1);
    assert_eq!(noise::worse(r(f64::NAN), r(2.0)), 1);
    assert_eq!(
        noise::worse_counts(&vec![(r(1.0), r(0.5)), (r(0.0), r(0.5)), (r(2.0), r(2.0))]),
        (2, 1)
    );
    assert_eq!((noise::channel_name(0), noise::channel_name(1), noise::channel_name(2)), ("L", "R", "mono"));
}

#[test]
fn a_column_has_a_middle_and_an_end() {
    assert_eq!(noise::column(&all(&[f64::NAN, f64::INFINITY])), None);
    assert_eq!(noise::column(&all(&[3.0, f64::NAN, -1.0, 9.0, 5.0])), Some((r(5.0), r(9.0))));
    let note = |velocity: u8, away: f64, offset: Option<f64>| noise::Note { velocity, away: r(away), offset: offset.map(r) };
    let notes = vec![
        note(24, 1.0, None),
        note(48, 2.0, Some(7.0)),
        note(24, f64::NAN, Some(5.0)),
        note(24, 3.0, Some(4.0)),
        note(88, f64::NAN, None),
    ];
    let at = match noise::at_velocity(&notes, 24) {
        Some(at) => at,
        None => panic!("a velocity that was played"),
    };
    assert_eq!((at.away, at.offset, at.count), (r(3.0), Some(r(5.0)), 2));
    assert!(noise::at_velocity(&notes, 88).is_none());
    assert_eq!(noise::inverted(&notes), 3);
    assert_eq!(noise::velocities(), vec![24, 48, 72, 88, 110]);
}

#[test]
fn noise_rows_are_printed_in_columns() {
    let row = |offset: Option<&str>, floor: bool| NoteRow {
        key: 60,
        velocity: 72,
        worse: 1,
        reference: s("1.00"),
        engine: s("2.00"),
        tone: s("3.00"),
        away: s("+1.00"),
        away_worse: s("-1.00"),
        offset: offset.map(s),
        floor,
    };
    let line = |offset: &str| {
        format!(
            "{:>4} {:>4} {:>4} {:>9} {:>9} {:>9} {:>9} {:>9} {:>10}\n",
            60, 72, "R", "1.00", "2.00", "3.00", "+1.00", "-1.00", offset
        )
    };
    assert_eq!(note_rows(&vec![row(None, true)]), line("floor"));
    assert_eq!(note_rows(&vec![row(None, false)]), line("ceiling"));
    assert_eq!(note_rows(&vec![row(Some("+4.00"), false)]), line("+4.00"));
    assert!(NOTES.ends_with(&format!(
        "{:>4} {:>4} {:>4} {:>9} {:>9} {:>9} {:>9} {:>9} {:>10}\n",
        "key", "vel", "worse", "reference", "engine", "tone only", "eng-ref", "in that ch", "offset"
    )));
    assert_eq!(anchor_line(21, "+1.000"), format!("  key {:>3}  {} dB\n", 21, "+1.000"));
    assert_eq!(
        standing_line(&Standing {
            least: s("-9.00"),
            most: s("+1.00"),
            anchors: 3,
            velocity: s("12.00"),
            centroid: s("900"),
            bandwidth: s("400"),
            decay: s("0.030"),
        }),
        "  [noise.strike] as it stands: level -9.00 .. +1.00 dB over 3 anchors, velocity_db 12.00, centroid 900 Hz, band 400 Hz, decay 0.030 s\n"
    );
    assert_eq!(
        mono_line("+1.00", "2.00", 9),
        "\nengine minus reference on the mono sum: median +1.00 dB, mean |·| 2.00 dB over 9 notes\n"
    );
    assert_eq!(
        worse_line("1.00", "2.00", 3, 4),
        "  the worse loudspeaker of each note: |engine-ref| median 1.00 dB, worst 2.00 (3 notes worse in L, 4 in R)\n"
    );
    assert_eq!(
        velocity_row(&VelocityRow { velocity: 24, away: s(" +1.00"), offset: None, count: 0 }),
        format!("  vel {:>3}: engine-ref {} dB   offset {} (n {})\n", 24, " +1.00", "     —", 0)
    );
    assert_eq!(too_few_line(3, 9), "\nnot enough readings inverted to fit a correction (3 of 9)\n");
    assert_eq!(
        correction_report(&Correction {
            closed: 30,
            floor: 2,
            ceiling: 3,
            level: s("+1.00"),
            before: s("12.00"),
            after: s("13.00"),
            change: s("+1.00"),
            scatter: s("0.50"),
        }),
        "\nthe correction, Theil-Sen through 30 inverted readings (2 floor, 3 ceiling):\n  level at the nominal drive  +1.00 dB\n  velocity_db                 12.00 -> 13.00  (+1.00)\n  scatter about the line      0.50 dB\n"
    );
}
