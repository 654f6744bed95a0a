use tuner_tools::fit::console::{
    BeatRow, DRAWN, DetuneRow, DrawnRow, FALSE_BEATS, GAINS, GainRow, NOTHING_WRITTEN, Regression, acceptance, beat_row,
    detune_heading, detune_row, drawn_row, gain_row, heading, kept_split, nothing_fitted, over_measured, refused_split,
    regression_line, split, swing_found, swing_line, target_line, too_few, wrote,
};
use tuner_tools::fit::motion::{FalseBeatVerdict, verdict_name};
use tuner_tools::level::report::{Curve, curve_lines, departure_line, missing, pass_line};
use tuner_tools::level;

fn s(x: &str) -> String {
    x.to_string()
}

#[test]
fn a_keys_splits_are_listed() {
    assert_eq!(heading(30, "s.sfz", "p.toml"), "30 keys from s.sfz, preset p.toml\n");
    assert_eq!(split(3, "1.25", "-20.5"), format!("{}: {:.2} / {:.1}", 3, 1.25, -20.5));
    let verdict = FalseBeatVerdict::ScalesWithPartial;
    let row = BeatRow {
        key: 60,
        partials: 7,
        ratio: s("0.50"),
        correlation: s("-0.25"),
        verdict,
        unwritten: 2,
        rows: vec![split(3, "1.25", "-20.5"), split(5, "0.75", "-18.0")],
    };
    assert_eq!(
        beat_row(&row),
        format!(
            "{:>4}  {:>8}  {:>9.2}  {:>9.2}  {:<15}  {:>2} unwritten  {}\n",
            60,
            7,
            0.5,
            -0.25,
            verdict_name(verdict),
            2,
            "3: 1.25 / -20.5  5: 0.75 / -18.0"
        )
    );
    assert!(FALSE_BEATS.starts_with("\n== notes.false_beat ==\n key  partials"));
}

#[test]
fn the_strikes_direction_is_said() {
    assert_eq!(too_few(3), "3 readings: too few for a regression\n");
    let line = Regression {
        cells: 200,
        groups: 20,
        slope: s("-4.00"),
        correlation: s("-0.500"),
        residual: s("3.00"),
        cell_slope: s("-3.50"),
        cell_range: s("6.00"),
    };
    assert_eq!(
        regression_line(&line),
        "200 readings over 20 cells: within-cell slope -4.00 dB (r -0.500, residual 3.00 dB), median per-cell slope -3.50 dB (IQR 6.00)\n"
    );
    assert_eq!(
        target_line("[40, 90, 120]", "2.00", "0.300", 4, 4),
        "target: the recording's mean per-cell spread over velocities [40, 90, 120] is 2.00 dB of beat depth and 0.300 cents of frequency, over 4 keys x 4 partials — Column B2's own denominator, and the fit is for B2 = 1\n"
    );
    assert_eq!(
        swing_line("-4.0", "1.500", "0.250", "0.900"),
        format!("  swing {:>5.1} dB -> spread {:.3} dB / {:.3} c, B2 {:.3}\n", -4.0, 1.5, 0.25, 0.9)
    );
    assert_eq!(
        swing_found("-6.00", "-1.00", "+2.00", "0.50"),
        "  -> swing -6.00 dB: vh_db_at_pp -1.00, vh_db_at_ff +2.00, share_tilt 0.50\n"
    );
}

#[test]
fn detunings_and_gains_stand_in_columns() {
    assert_eq!(
        detune_heading("0.05", "6.00"),
        "\n== notes.detune_cents ==\n key  strings  recorded s  rendered s 0.05..6.00 c  identifiable  cents            aftersound dB: rec / engine\n"
    );
    let row = DetuneRow {
        key: 60,
        strings: 3,
        target: s("0.50"),
        low: s("0.10"),
        high: s("2.00"),
        verdict: s("yes (+4 %)"),
        was: s("1.000"),
        cents: s("1.250"),
        recorded: s("-20.0"),
        before: s("-25.0"),
        after: s("-22.0"),
    };
    assert_eq!(
        detune_row(&row),
        format!(
            "{:>4}  {:>7}  {:>10.2}  {:>10.2}..{:<9.2}  {:<12}  {:>5.3} -> {:<5.3}  {:>7.1}: {:.1} -> {:.1}\n",
            60, 3, 0.5, 0.1, 2.0, "yes (+4 %)", 1.0, 1.25, -20.0, -25.0, -22.0
        )
    );
    assert!(GAINS.ends_with("loudest rec/eng\n"));
    assert_eq!(nothing_fitted(60, 5), format!("{:>4}  {:>6}  nothing fitted\n", 60, 5));
    let row = GainRow {
        key: 60,
        layers: 5,
        partials: 32,
        first: s("1.00"),
        second: s("-2.00"),
        third: s("3.00"),
        fourth: s("NaN"),
        span: s("12.00"),
        rail: s("9.00"),
        railed: 1,
        step: s("2.50"),
        step_written: s("2.25"),
        level: s("+0.50"),
        keep: s("0.75"),
        target: s("4.00"),
        rendered: s("3.75"),
        moved: s("-0.10"),
        loudest: 2,
        loudest_rendered: 3,
    };
    assert_eq!(
        gain_row(&row),
        format!(
            "{:>4}  {:>6}  {:>8}   {:>6.2} {:>6.2} {:>6.2} {:>6.2}   {:>6.2}  {:>6.2} {:>4}   {:>5.2}/{:<5.2}  {:>+6.2}   {:>4.2}  {:>5.2}/{:<5.2}  {:>+5.2}  {} / {}\n",
            60, 5, 32, 1.0, -2.0, 3.0, f64::NAN, 12.0, 9.0, 1, 2.5, 2.25, 0.5, 0.75, 4.0, 3.75, -0.1, 2, 3
        )
    );
    assert_eq!(acceptance(20, 30), "acceptance: the engine's loudest partial matches the recording's at 20 of 30 keys\n");
    assert_eq!(wrote("p.toml"), "\nwrote p.toml\n");
    assert_eq!(NOTHING_WRITTEN, "\nnothing written (pass --out <file>)\n");
}

#[test]
fn a_drawn_key_says_what_was_refused() {
    assert_eq!(over_measured(30), "CONTROL: drawing over the 30 measured keys\n");
    assert_eq!(kept_split(3, "1.25", "-20.5", "4.0", "6.0"), "3: 1.25/-20.5 <= 4.0 (6.0)");
    assert_eq!(refused_split(4, "9.0", "6.0"), "4: refused (9.0 > 6.0)");
    assert!(DRAWN.ends_with("moved   splits (k: hz / dB)\n"));
    let row = |reached: bool| DrawnRow {
        key: 61,
        cells: 32,
        amount: s("2.00"),
        written: s("1.75"),
        rail: s("9.00"),
        railed: 0,
        moved: s("-0.10"),
        keep: s("1.00"),
        target: s("4.00"),
        rendered: s("3.75"),
        reached,
        splits: vec![kept_split(3, "1.25", "-20.5", "4.0", "6.0"), refused_split(4, "9.0", "6.0")],
    };
    let line = |word: &str| {
        format!(
            "{:>4}  {:>5}  {:>6.2}/{:<6.2}  {:>5.2} {:>5}  {:>+6.2}  {:>4.2}  {:>5.2}/{:<5.2}  {:>+5.2}  {}{}\n",
            61,
            32,
            2.0,
            1.75,
            9.0,
            0,
            -0.1,
            1.0,
            4.0,
            3.75,
            -0.1,
            word,
            "3: 1.25/-20.5 <= 4.0 (6.0)  4: refused (9.0 > 6.0)"
        )
    };
    assert_eq!(drawn_row(&row(true)), line(""));
    assert_eq!(drawn_row(&row(false)), line("REFUSED  "));
}

#[test]
fn the_levels_say_their_curve() {
    assert_eq!(missing("a/b"), "the reference piano is not here: a/b");
    assert_eq!(
        level::report::heading("p", "s", 88, 72, "0.45"),
        "per-key level: engine on p, reference s\n88 keys at velocity 72, A-weighted over the first 0.45 s of the mono sum\n"
    );
    let curve = Curve {
        offset: s("+1.00"),
        intercept: s("+0.1000"),
        slope: s("-0.00100"),
        correlation: s("+0.500"),
        points: 30,
        take: s("0.50"),
        residual: s("1.00"),
        belief: s("0.80"),
        at: ["+0.10", "+0.20", "+0.30", "+0.40", "+0.50", "+0.60"].iter().map(|x| s(x)).collect(),
        cap: s("3.00"),
    };
    assert_eq!(
        curve_lines(&curve),
        "\nthe curve: common offset +1.00 dB (the engine's gain against the library's, nobody's error)\n  line exp(+0.1000-0.00100·key) (r +0.500, n 30), take-to-take sigma 0.50 dB, residual sigma 1.00 dB, median belief 0.80\n  written: +0.10 at A0, +0.20 at D#3, +0.30 at C4, +0.40 at A4, +0.50 at C5, +0.60 at C8 — capped at ±3.00\n"
    );
    assert_eq!(pass_line(2, "0.75"), "  pass 2: worst recorded key still 0.75 dB from its target\n");
    assert_eq!(level::report::wrote("p.toml"), "wrote p.toml\n");
    assert_eq!(
        departure_line("2.00", "0.50"),
        "\nworst recorded key's departure from the register's median level: 2.00 dB before, 0.50 dB after\n"
    );
}
