use tuner_tools::args::Stop;
use tuner_tools::mics::boards::{
    feasible, modal_channel_band, quartiles, red_count, red_melody_count, ChannelColumn,
    MelodyColumn, NoteColumn, ProfilePoint,
};
use tuner_tools::mics::report::{
    census_bands, census_heading, census_row, describe, fitted_lines, print_geometry, BandText, Delay,
    DelayRow, Geometry, VoicingText,
};
use tuner_tools::mics::search::{
    choose_band_or_none, grid_path, image_knobs, improves, modal_grid, neighbours, refine,
    searches_on, Band, Compass, Feasible, Knob, Voicing, COMPASS_HALVINGS,
};
use tuner_tools::mics::{held_out_velocities, parse, steps, Step, VelocityBand};
use tuner_tools::reading::Reading;

fn r(x: f64) -> Reading {
    Reading { bits: x.to_bits() }
}

fn args(list: &[&str]) -> Vec<String> {
    list.iter().map(|s| s.to_string()).collect()
}

fn voicing(width: f64, modal: Option<Band>) -> Voicing {
    Voicing {
        spacing: r(0.4),
        height: r(0.12),
        span: r(1.0),
        width: r(width),
        coherence: r(2.0),
        modal,
    }
}

#[test]
fn a_given_pair_is_only_reported() {
    let o = match parse(&args(&["d", "p.toml", "--set", "0.4, 0.12,1.0,0.5,2"])) {
        Ok(o) => o,
        Err(_) => panic!("five numbers"),
    };
    assert_eq!(o.data(), "d");
    assert_eq!(o.preset(), "p.toml");
    assert!(!o.wants("band"));
    let list = steps(&o);
    assert!(list.contains(&Step::Report));
    assert!(!list.contains(&Step::Band));
}

#[test]
fn a_set_of_the_wrong_shape_is_refused() {
    for (text, what) in [("1,2,3", "--set takes"), ("1,2,x,4,5", "invalid float literal"), ("1,,3,4,5", "cannot parse float from empty string")] {
        match parse(&args(&["--set", text])) {
            Err(Stop::Error(e)) => assert!(e.starts_with(what), "{e}"),
            _ => panic!("{text} is no pair"),
        }
    }
    match parse(&args(&["--stage", "no\nsuch"])) {
        Err(Stop::Error(e)) => assert!(e.contains("\"no\\nsuch\"")),
        _ => panic!("no such stage"),
    }
}

#[test]
fn every_stage_runs_by_default() {
    let o = match parse(&args(&[])) {
        Ok(o) => o,
        Err(_) => panic!("nothing asked"),
    };
    let list = steps(&o);
    for s in [Step::Geometry, Step::Profile, Step::Coherence, Step::Image, Step::Band, Step::Report, Step::HoldOut] {
        assert!(list.contains(&s));
    }
}

#[test]
fn held_out_layers_are_three_away() {
    let bands: Vec<VelocityBand> = (0..8).map(|i| VelocityBand { lo: i * 16, hi: i * 16 + 15 }).collect();
    assert_eq!(held_out_velocities(&bands, Some(4)), vec![23, 119]);
    assert_eq!(held_out_velocities(&bands, Some(1)), vec![71]);
    assert_eq!(held_out_velocities(&bands, Some(0)), vec![55]);
}

#[test]
fn knobs_stay_inside_their_bounds() {
    let mut v = voicing(0.5, Some(Band { lo: r(200.0), hi: r(300.0), lift: r(0.5) }));
    let held = Knob::Width.hold(r(9.0));
    assert_eq!(held, r(1.99));
    Knob::Width.put(&mut v, held, r(f64::INFINITY));
    Knob::ModalLo.put(&mut v, r(350.0), r(283.0));
    assert_eq!(v.modal.map(|b| b.lo), Some(r(283.0)));
    assert_eq!(Knob::Width.get(&v), v.width);
    assert!(Knob::ModalLift.get(&voicing(0.5, None)).is_nan());
    let (lo, hi) = Knob::Span.bounds();
    assert!(lo.lt(&hi));
    assert_eq!(image_knobs().len(), 4);
}

#[test]
fn the_grid_holds_the_start_and_every_cell() {
    let start = voicing(0.5, Some(Band { lo: r(172.0), hi: r(270.0), lift: r(0.99) }));
    let cells = modal_grid(start);
    assert_eq!(cells.len(), 65);
    assert!(cells[0] == start);
    assert!(cells.iter().skip(1).all(|c| c.modal.is_some()));
    let mut scores: Vec<Reading> = (0..65).map(|i| r(f64::from(100 - i % 7))).collect();
    scores[40] = r(1.0);
    let path = grid_path(&scores);
    assert_eq!(path.last(), Some(&40));
}

#[test]
fn the_best_feasible_pair_is_held() {
    let mut f = Feasible::none();
    assert!(f.take().is_none());
    f.offer(voicing(0.5, None), r(3.0));
    f.offer(voicing(0.6, None), r(4.0));
    f.offer(voicing(0.4, None), r(3.0));
    assert!(f.take() == Some(voicing(0.4, None)));
}

#[test]
fn a_step_is_taken_only_where_it_is_better() {
    assert_eq!(neighbours().len(), 26);
    assert_eq!(refine(&vec![r(5.0), r(3.0), r(4.0)], r(4.5)), Some(1));
    assert_eq!(refine(&vec![r(5.0)], r(4.5)), None);
    let mut c = Compass::begin();
    assert!(c.running());
    assert_eq!(c.tell(&vec![r(2.0), r(1.0)], r(1.5)), Some(1));
    for _ in 0..COMPASS_HALVINGS {
        assert_eq!(c.tell(&vec![r(2.0)], r(1.5)), None);
    }
    assert!(!c.running());
    assert!(searches_on(1, r(0.5), r(0.02)) && !searches_on(1, r(0.01), r(0.02)));
    assert!(improves(r(1.0), r(1.1)) && !improves(r(1.1), r(1.1)));
    let (with, bare) = (voicing(0.5, Some(Band { lo: r(1.0), hi: r(2.0), lift: r(0.5) })), voicing(0.5, None));
    assert!(choose_band_or_none(with, r(2.0), bare, r(1.0)) == bare);
    assert!(choose_band_or_none(with, r(1.0), bare, r(1.0)) == with);
}

#[test]
fn a_feasible_pair_has_no_red_column() {
    let channel = |lo: f64, hi: f64, pass: bool, pair_pass: bool| ChannelColumn {
        lo_hz: r(lo),
        hi_hz: r(hi),
        items: 3,
        pass,
        pair_pass,
    };
    let melody = vec![
        MelodyColumn { metric: "strike".to_string(), pass: false },
        MelodyColumn { metric: "channel".to_string(), pass: true },
    ];
    let notes = vec![NoteColumn { items: 3, pass: true }, NoteColumn { items: 0, pass: false }];
    let good = vec![channel(125.0, 250.0, true, true), channel(2000.0, 6000.0, true, false)];
    assert!(feasible(&melody, &notes, &good));
    assert_eq!(red_count(&melody, &notes, &good), 0);
    let bad = vec![channel(125.0, 250.0, true, false)];
    assert!(!feasible(&melody, &notes, &bad));
    assert_eq!(red_count(&melody, &notes, &bad), 1);
    assert!(modal_channel_band(&bad[0]));
    let red = vec![MelodyColumn { metric: "balance".to_string(), pass: false }];
    assert_eq!(red_melody_count(&red), 1);
}

#[test]
fn quartiles_are_taken_of_what_is_loud_enough() {
    let p = |level: f64, value: f64| ProfilePoint { level: r(level), value: r(value) };
    let points = vec![p(-10.0, 1.0), p(-70.0, 99.0), p(-10.0, 3.0), p(-10.0, 2.0), p(-10.0, f64::NAN)];
    let (q, n) = quartiles(&points);
    assert_eq!(q, Some((r(2.0), r(2.0), r(3.0))));
    assert_eq!(n, 4);
}

#[test]
fn what_is_said_of_a_pair() {
    let v = VoicingText {
        spacing: "0.400".to_string(),
        span: "1.000".to_string(),
        width: "0.5000".to_string(),
        coherence: "2.0000".to_string(),
        band: Some(BandText { low: "174.3".to_string(), high: "456.5".to_string(), lift: "0.9900".to_string() }),
        score: "20.370".to_string(),
    };
    assert_eq!(
        describe(&v),
        "width 0.5000 x coherence 2.0000, 174.3-456.5 Hz x0.9900 -> 20.370 bars out"
    );
    assert!(fitted_lines("1", "2", "3", "4", "5").contains("  span_m            3\n"));
    let g = Geometry {
        items: 30,
        height: "0.120".to_string(),
        spacing: "0.4000".to_string(),
        span: "1.0000".to_string(),
        residual: "0.100".to_string(),
        null: "0.500".to_string(),
        conditioning: "3.0".to_string(),
        converged: true,
        replaced: None,
        rows: vec![DelayRow {
            label: "A0".to_string(),
            pan: "-0.600".to_string(),
            measured: "+0.100".to_string(),
            fitted: "+0.090".to_string(),
            residual: "+0.010".to_string(),
            peak: "0.95".to_string(),
            level: "+1.0".to_string(),
            level_fitted: "+0.8".to_string(),
        }],
    };
    let text = print_geometry(&g);
    assert!(text.contains("geometry from 30 measured delays (height held at 0.120 m):"));
    assert!(text.ends_with("| A0 | -0.600 | +0.100 ms | +0.090 ms | +0.010 ms | 0.95 | +1.0 / +0.8 dB |\n"));
}

#[test]
fn the_census_lists_a_delay_for_each_band() {
    assert_eq!(
        census_heading("0.05"),
        "\n=== window 0.05 s\n| key | pan | 40-160 | 63-250 | 63-500 | 125-500 | 200-1000 | 200-4000 | 1000-6000 |\n"
    );
    assert_eq!(census_bands().len(), 7);
    let found = Delay { lag: "+0.12".to_string(), confidence: "0.98".to_string() };
    assert_eq!(
        census_row("A2", "-0.250", &vec![Some(found), None]),
        "| A2 | -0.250 | +0.12/0.98 | — |\n"
    );
}
