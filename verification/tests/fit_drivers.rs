use tuner_tools::args::Stop;
use tuner_tools::fit::motion::{
    coverage, detune_choice, detune_label, detune_written, gain_layers, layer_for, loudest, parse,
    partial_readings, solved_verdict, spectrum_of, steps, verdict_name, wants, FalseBeatVerdict,
    Layer, Line, MotionOptions, PartialReading, Step,
};
use tuner_tools::fit::report::{draw_summary, texture_model, KeyCounts, MODEL_FIELDS};
use tuner_tools::fit::rows::{Next, RowSearch};
use tuner_tools::fit::splits::{Ask, ClosedSplits, Closing, Drawn};
use tuner_tools::fit::tables::FalseBeat;
use tuner_tools::fit::{run, Driver, FitError};
use tuner_tools::reading::Reading;

fn r(x: f64) -> Reading {
    Reading { bits: x.to_bits() }
}

fn args(list: &[&str]) -> Vec<String> {
    list.iter().map(|s| s.to_string()).collect()
}

#[test]
fn the_partials_stage_gets_the_other_arguments() {
    match run(args(&["data", "--stage", "partials", "p.toml"])) {
        Ok(Driver::Partials(rest)) => assert_eq!(rest, args(&["data", "p.toml"])),
        _ => panic!("the partials driver owns this"),
    }
}

#[test]
fn the_motion_stages_are_named_again_behind_the_rest() {
    match run(args(&["--stage", "detune", "a", "--stage", "texture"])) {
        Ok(Driver::Motion(rest)) => {
            assert_eq!(rest, args(&["a", "--stage", "detune", "--stage", "texture"]))
        }
        _ => panic!("the motion driver owns this"),
    }
    match run(args(&[])) {
        Ok(Driver::Motion(rest)) => assert!(rest.is_empty()),
        _ => panic!("nothing named goes to the motion driver"),
    }
}

#[test]
fn a_stage_without_a_name_is_refused() {
    match run(args(&["a", "--stage"])) {
        Err(e) => {
            assert!(matches!(e, FitError::MissingStageName));
            assert!(!e.message().is_empty());
        }
        Ok(_) => panic!("refused"),
    }
}

#[test]
fn a_stage_that_nothing_owns_is_named() {
    match run(args(&["--stage", "par\"tials"])) {
        Err(e) => assert!(e.message().contains("\"par\\\"tials\"")),
        Ok(_) => panic!("refused"),
    }
}

#[test]
fn partials_stands_alone() {
    match run(args(&["--stage", "partials", "--stage", "detune"])) {
        Err(e) => assert!(matches!(e, FitError::PartialsNotAlone)),
        Ok(_) => panic!("refused"),
    }
}

#[test]
fn the_motion_command_line_is_read() {
    let o = match parse(&args(&["a.sfz", "--preset", "p.toml", "--key", "60", "--stage", "detune", "--out", "o.toml"])) {
        Ok(o) => o,
        Err(_) => panic!("a good command line"),
    };
    assert_eq!(o.sfz, "a.sfz");
    assert_eq!(o.preset, "p.toml");
    assert_eq!(o.only, vec![60]);
    assert_eq!(o.out, Some("o.toml".to_string()));
    assert!(wants(&o.stages, "detune"));
    assert!(!wants(&o.stages, "texture"));
    assert!(wants(&Vec::new(), "texture"));
    assert!(matches!(parse(&args(&["a", "--key", "x"])), Err(Stop::Error(_))));
    assert!(matches!(parse(&args(&["a", "--key"])), Err(Stop::Panic(_))));
    match parse(&args(&["a", "b"])) {
        Err(Stop::Error(e)) => assert_eq!(e, "unknown argument b"),
        _ => panic!("an argument that nothing takes"),
    }
}

#[test]
fn layers_are_found_by_velocity() {
    let layers = vec![
        Layer { lovel: 1, hivel: 40 },
        Layer { lovel: 41, hivel: 89 },
        Layer { lovel: 90, hivel: 127 },
    ];
    assert_eq!(layer_for(&layers, 41), Some(1));
    assert_eq!(layer_for(&layers, 0), None);
    assert_eq!(gain_layers(&layers), Some((1, 2)));
    assert_eq!(gain_layers(&Vec::new()), None);
}

#[test]
fn the_loudest_line_is_the_last_of_the_loudest() {
    let lines = vec![
        Line { k: 1, amplitude: r(0.5) },
        Line { k: 2, amplitude: r(0.75) },
        Line { k: 3, amplitude: r(0.75) },
    ];
    assert_eq!(loudest(&lines), 3);
    assert_eq!(loudest(&Vec::new()), 0);
    assert!(spectrum_of(&lines).len() <= lines.len());
}

#[test]
fn the_nearest_detune_is_chosen() {
    assert_eq!(detune_choice(&vec![r(3.0), r(1.0), r(2.0)]), Some(1));
    assert_eq!(detune_choice(&Vec::new()), None);
    let away = vec![r(3.0), r(1.0), r(1.0)];
    let errors = vec![r(0.1), r(0.25), r(0.0)];
    assert_eq!(detune_written(&away, &errors, r(0.25)), Some(1));
    assert_eq!(detune_written(&away, &errors, r(0.24)), None);
    assert_eq!(detune_written(&Vec::new(), &Vec::new(), r(0.25)), None);
    let lost = vec![r(0.1), r(f64::NAN), r(0.0)];
    assert_eq!(detune_written(&away, &lost, r(0.25)), None);
    assert_eq!(detune_label(false, r(0.0), r(0.25), "+0"), "no (the wire)");
    assert_eq!(detune_label(true, r(0.25), r(0.25), "+25"), "yes (+25 %)");
    assert_eq!(detune_label(true, r(0.26), r(0.25), "+26"), "no (+26 %)");
}

#[test]
fn verdicts_are_counted() {
    let all = vec![FalseBeatVerdict::Written, FalseBeatVerdict::NoneInRange, FalseBeatVerdict::Written];
    let text = coverage(&all);
    assert!(text.contains(&verdict_name(FalseBeatVerdict::Written)));
    assert_eq!(
        solved_verdict(FalseBeatVerdict::Written, true, 2),
        FalseBeatVerdict::Written
    );
}

#[test]
fn readings_of_one_partial_are_collected() {
    let a = PartialReading { k: 2, depth: r(1.0), cents: r(0.5) };
    let b = PartialReading { k: 3, depth: r(2.0), cents: r(0.25) };
    let got = partial_readings(&vec![vec![a, b], vec![b]], 3);
    assert_eq!(got, vec![b, b]);
}

#[test]
fn a_row_that_passes_is_kept_whole() {
    let s = RowSearch::begin(r(1.0), r(2.0));
    assert!(matches!(s.next(), Next::Level | Next::Last));
    assert_eq!(s.keep, 128);
}

#[test]
fn a_row_that_never_passes_is_flattened_to_its_tilt() {
    let mut s = RowSearch::begin(r(9.0), r(2.0));
    assert_eq!(s.keep, 0);
    let mut asked = Vec::new();
    while let Next::Keep(keep) = s.next() {
        asked.push(keep);
        s.tell_roughness(r(9.0), r(2.0));
    }
    assert_eq!(asked, vec![64, 32, 16, 8, 4, 2, 1]);
    assert!(!s.whole);
    assert_eq!(s.keep, 0);
}

#[test]
fn a_row_that_is_too_rough_is_halved() {
    let mut s = RowSearch::begin(r(3.0), r(2.0));
    match s.next() {
        Next::Keep(keep) => assert_eq!(keep, 64),
        _ => panic!("the search begins in the middle"),
    }
    s.tell_roughness(r(1.0), r(2.0));
    match s.next() {
        Next::Keep(keep) => assert_eq!(keep, 96),
        _ => panic!("the search goes on upwards"),
    }
}

#[test]
fn every_drawn_split_is_accounted_for() {
    let split = |k: u16| Drawn {
        row: FalseBeat { k, hz: r(0.5), db: r(-6.0) },
        ceiling: r(4.0),
        limit: r(3.5),
    };
    let drawn = vec![split(1), split(2), split(3)];
    let mut closing = Closing::begin(&drawn, &vec![Some(r(9.0)), None, Some(r(1.0))], r(-40.0));
    while closing.running() {
        let asked: Vec<Reading> = closing
            .searches
            .iter()
            .map(|s| match s.ask(closing.round) {
                Ask::Level(v) => v,
                Ask::Midpoint(a, b) => r(0.5 * (f64::from_bits(a.bits) + f64::from_bits(b.bits))),
            })
            .collect();
        let depths: Vec<Option<Reading>> = asked.iter().map(|_| Some(r(3.0))).collect();
        closing.observe(&asked, &depths);
    }
    let closed = closing.finish();
    assert_eq!(closed.refused.len(), 1);
    assert_eq!(closed.refused[0].k, 1);
    assert_eq!(closed.unobserved, 1);
    assert_eq!(closed.trimmed, 0);
    assert_eq!(closed.rows.len() + closed.refused.len(), 3);
}

fn closed_on(drawn: &Vec<Drawn>, depth: &dyn Fn(f64) -> Option<Reading>) -> ClosedSplits {
    let bare: Vec<Option<Reading>> = drawn.iter().map(|_| Some(r(1.0))).collect();
    let mut closing = Closing::begin(drawn, &bare, r(-40.0));
    while closing.running() {
        let mut asked = Vec::new();
        for s in &closing.searches {
            let level = match s.ask(closing.round) {
                Ask::Level(v) => v,
                Ask::Midpoint(a, b) => {
                    r(0.5 * (f64::from_bits(a.bits) + f64::from_bits(b.bits)))
                }
            };
            assert!(s.allows(closing.round, level));
            assert!(!s.allows(closing.round, r(1.0)));
            asked.push(level);
        }
        let depths = asked.iter().map(|a| depth(f64::from_bits(a.bits))).collect();
        closing.observe(&asked, &depths);
    }
    closing.finish()
}

fn one_split() -> Vec<Drawn> {
    let row = FalseBeat { k: 4, hz: r(0.5), db: r(-6.0) };
    vec![Drawn { row, ceiling: r(4.0), limit: r(3.5) }]
}

#[test]
fn a_split_that_no_round_reads_stands_as_drawn() {
    let closed = closed_on(&one_split(), &|_| None);
    assert_eq!(closed.refused.len(), 0);
    assert_eq!(closed.rows.len(), 1);
    assert_eq!(closed.rows[0].row, one_split()[0].row);
    assert_eq!(closed.rows[0].rendered, None);
    assert_eq!((closed.trimmed, closed.unobserved), (0, 1));
}

#[test]
fn a_split_that_is_too_loud_at_every_level_is_refused() {
    let closed = closed_on(&one_split(), &|_| Some(r(7.0)));
    assert_eq!(closed.rows.len(), 0);
    assert_eq!(closed.refused.len(), 1);
    assert_eq!(closed.refused[0].k, 4);
    assert_eq!(closed.refused[0].depth, r(7.0));
    assert_eq!((closed.trimmed, closed.unobserved), (0, 0));
}

#[test]
fn a_split_that_is_too_loud_is_made_quieter() {
    let closed = closed_on(&one_split(), &|db| Some(r(if db <= -20.0 { 3.0 } else { 5.0 })));
    assert_eq!(closed.rows.len(), 1);
    let kept = closed.rows[0];
    assert_eq!((kept.row.k, kept.row.hz), (4, r(0.5)));
    assert_eq!(kept.row.db, r(-20.34375));
    assert_eq!(kept.drawn_db, r(-6.0));
    assert_eq!(kept.rendered, Some(r(3.0)));
    assert_eq!((closed.trimmed, closed.unobserved), (1, 0));
}

#[test]
fn the_draw_is_summed_up() {
    let rows = vec![
        KeyCounts { cells: 10, drew: 2, kept: 1, trimmed: 1, refused: 1, unobserved: 0 },
        KeyCounts { cells: 5, drew: 1, kept: 1, trimmed: 0, refused: 0, unobserved: 1 },
    ];
    let text = draw_summary(&rows, 1, 28, "1.50");
    assert!(text.contains("15"));
    assert!(text.contains("28"));
    assert!(text.contains("1.50"));
}

#[test]
fn the_texture_model_prints_each_of_its_numbers() {
    let fields: Vec<String> = (0..MODEL_FIELDS).map(|i| format!("<{i}>")).collect();
    let text = texture_model(&fields);
    for f in &fields {
        assert!(text.contains(f.as_str()));
    }
}

fn motion(list: &[&str]) -> MotionOptions {
    match parse(&list.iter().map(|x| x.to_string()).collect()) {
        Ok(o) => o,
        Err(_) => panic!("these are its flags"),
    }
}

#[test]
fn the_stages_run_in_their_order_and_write_last() {
    assert_eq!(
        steps(&motion(&[])),
        vec![
            Step::FalseBeat,
            Step::StrikeDirection,
            Step::Detune,
            Step::PartialGains,
            Step::Texture,
            Step::Nothing,
        ]
    );
    let some = motion(&["a.sfz", "--stage", "texture", "--stage", "detune", "--out", "x.toml"]);
    assert_eq!(steps(&some), vec![Step::Detune, Step::Texture, Step::Write]);
    let none = motion(&["a.sfz", "--stage", "other"]);
    assert_eq!(steps(&none), vec![Step::Nothing]);
}
