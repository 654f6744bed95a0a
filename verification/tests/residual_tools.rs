use tuner_tools::order::Middle;
use tuner_tools::reading::Reading;
use tuner_tools::residuals::report::{
    AttackRow, BandRow, CensusRow, ControlRow, KeyOnly, KeyRow, LayerText, MechanismRow, PartialRow, PhantomRow,
    RecordingRow, StereoRow, VelocityRow, attack_row, band_row, census_row, control_row, key_row, mechanism_row,
    no_analysis, no_probe, no_tracking, partial_row, phantom_row, recording_row, stereo_row, velocity_row,
};
use tuner_tools::residuals::{
    Class, Partial, Peak, Phantom, Probe, Scatter, Worst, bin, census, choose_probes, grouped, heard_against, in_order,
    keys_read, layers_read, mechanism, other_keys, paths, phantom, points, probe_pairs, stretch, summarise, where_key,
    worst,
};

fn r(x: f64) -> Reading {
    Reading { bits: x.to_bits() }
}

fn s(x: &str) -> String {
    x.to_string()
}

fn all(v: &[f64]) -> Vec<Reading> {
    v.iter().map(|&x| r(x)).collect()
}

fn partial(k: u32, level: f64, model: f64, glide: Option<f64>) -> Partial {
    Partial { k, level: r(level), model: r(model), glide: glide.map(r), envelope: r(f64::from(k)), trend: None }
}

#[test]
fn residual_paths_have_defaults() {
    let p = paths(&Vec::new());
    assert_eq!(
        (p.data, p.preset, p.cache),
        (s("data/salamander"), s("presets/salamander-c5.toml"), s("data/cache/salamander"))
    );
    assert_eq!(keys_read(), vec![21, 33, 45, 57, 60, 72, 84, 96]);
    assert_eq!(layers_read(), vec![3, 8, 13]);
}

#[test]
fn the_worst_departure_is_the_first_of_the_greatest() {
    let partials = vec![partial(1, 0.0, 0.0, None), partial(2, 0.0, 0.0, None), partial(3, 0.0, 0.0, None)];
    assert_eq!(worst(&all(&[1.0, -4.0, 4.0]), &partials), Worst { cents: r(4.0), k: 2 });
    assert_eq!(worst(&all(&[f64::NAN, 2.0]), &partials), Worst { cents: r(2.0), k: 2 });
    assert_eq!(worst(&Vec::new(), &partials), Worst { cents: r(0.0), k: 0 });
    assert_eq!(worst(&all(&[0.0]), &partials), Worst { cents: r(0.0), k: 0 });
}

#[test]
fn a_recording_is_summed_up() {
    let mut partials = vec![
        partial(1, -25.0, 9.0, Some(5.0)),
        partial(1, -10.0, -3.0, Some(2.0)),
        partial(2, -5.0, 2.0, Some(4.0)),
        partial(3, -50.0, 1.0, Some(8.0)),
    ];
    partials[1].trend = Some(r(0.5));
    let q = summarise(&partials, 2);
    assert_eq!(q.partials, 4);
    assert_eq!(q.worst, Worst { cents: r(9.0), k: 1 });
    assert_eq!(q.glide_first, Some(r(2.0)));
    assert_eq!(q.glide, Middle::Two(r(2.0), r(4.0)));
    assert_eq!(q.envelope, Middle::Two(r(1.0), r(2.0)));
    assert_eq!(q.trend, Middle::One(r(0.5)));
    assert_eq!((q.low, q.high), (None, None));
    let none = summarise(&Vec::new(), 0);
    assert_eq!((none.partials, none.glide_first, none.glide), (0, None, Middle::Nothing));
}

#[test]
fn a_stretch_needs_enough_loud_partials() {
    let series: Vec<Partial> = (1..=8).map(|k| partial(k, if k == 3 { -60.0 } else { -20.0 }, 0.0, None)).collect();
    assert_eq!(stretch(&series, 1, 6), Some(vec![0, 1, 3, 4, 5]));
    assert_eq!(stretch(&series, 1, 5), None);
    assert_eq!(stretch(&series, 9, 20), None);
}

#[test]
fn a_recording_is_in_its_keys_group() {
    assert_eq!(in_order(&vec![(60, 90), (21, 5), (60, 10), (21, 5)]), vec![1, 3, 2, 0]);
    let keys = vec![60, 21, 60, 33];
    assert_eq!(where_key(&keys, 60), vec![0, 2]);
    assert_eq!(where_key(&keys, 61), Vec::<usize>::new());
    let groups: Vec<(u8, Vec<usize>)> = grouped(&keys).into_iter().map(|g| (g.key, g.places)).collect();
    assert_eq!(groups, vec![(21, vec![1]), (33, vec![3]), (60, vec![0, 2])]);
}

#[test]
fn a_band_is_read_from_enough_partials() {
    let point = |key: u8, hz: f64, db: f64| Scatter { key, hz: r(hz), db: r(db) };
    let mut all: Vec<Scatter> = (0..20).map(|i| point(if i < 19 { 60 } else { 33 }, 100.0, f64::from(i))).collect();
    all.push(point(60, 200.0, 1.0));
    all.push(point(60, 150.0, f64::NAN));
    let b = bin(&all, r(100.0), r(200.0)).expect("enough");
    assert_eq!(b.partials, 20);
    assert_eq!(b.notes, vec![Middle::One(r(19.0)), Middle::One(r(9.0))]);
    assert!(bin(&all[1..].to_vec(), r(100.0), r(200.0)).is_none());
}

#[test]
fn every_peak_is_counted_once() {
    let peak = |class: Class, level: f64| Peak { class, level: r(level) };
    let peaks = vec![
        peak(Class::Unexplained, -40.0),
        peak(Class::Transverse, 0.0),
        peak(Class::Combination, -30.0),
        peak(Class::Unexplained, -20.0),
        peak(Class::Neighbour, f64::NEG_INFINITY),
        peak(Class::Unexplained, -20.0),
        peak(Class::Unexplained, -60.0),
        peak(Class::Unexplained, -10.0),
    ];
    let c = census(&peaks);
    assert_eq!((c.transverse.count, c.transverse.loudest), (1, Some(1)));
    assert_eq!((c.combination.count, c.combination.loudest), (1, Some(2)));
    assert_eq!((c.neighbour.count, c.neighbour.loudest), (1, None));
    assert_eq!((c.unexplained.count, c.unexplained.loudest), (5, Some(7)));
    assert_eq!(c.strongest, vec![7, 3, 5, 0]);
    let total = c.transverse.count + c.combination.count + c.neighbour.count + c.unexplained.count;
    assert_eq!(total, peaks.len());
}

#[test]
fn a_struck_key_is_not_its_own_neighbour() {
    let others = other_keys(60);
    assert_eq!(others.len(), 87);
    assert!(!others.contains(&60) && others[0] == 21 && others[86] == 108);
    assert_eq!(other_keys(5).len(), 88);
}

#[test]
fn every_probe_stands_clear() {
    assert_eq!(probe_pairs(&vec![2, 3, 9, 10]), vec![(1, 1), (1, 2), (2, 2)]);
    assert_eq!(probe_pairs(&vec![1, 2]), Vec::new());
    let clear = all(&[5.0, 1.0, 9.0, 5.0, 7.0, f64::NAN, 6.0]);
    assert_eq!(choose_probes(&clear, r(5.0)), vec![0, 6, 4, 2]);
    assert_eq!(choose_probes(&clear, r(8.0)), vec![2]);
    assert_eq!(choose_probes(&clear, r(10.0)), Vec::<usize>::new());
}

#[test]
fn a_slope_needs_enough_layers() {
    let pairs = vec![(3, 4), (5, 5), (3, 4), (3, 4), (3, 4)];
    assert_eq!(points(&pairs, (3, 4)), Some(vec![0, 2, 3, 4]));
    assert_eq!(points(&pairs[1..].to_vec(), (3, 4)), None);
    assert_eq!(points(&pairs, (5, 5)), None);
}

#[test]
fn a_phantom_is_read_where_all_five_levels_are() {
    let probe = |below: f64, above: f64| Probe {
        sum: Some(r(-50.0)),
        below: Some(r(below)),
        above: Some(r(above)),
        first: Some(r(-10.0)),
        second: Some(r(-20.0)),
    };
    let of = |floor: f64| Some(Phantom { level: r(-50.0), floor: r(floor), first: r(-10.0), second: r(-20.0) });
    assert_eq!(phantom(&probe(-70.0, -80.0)), of(-80.0));
    assert_eq!(phantom(&probe(-80.0, -70.0)), of(-80.0));
    assert_eq!(phantom(&probe(f64::NAN, -70.0)), of(-70.0));
    assert_eq!(phantom(&Probe { above: None, ..probe(-70.0, 0.0) }), None);
}

#[test]
fn the_mechanism_is_heard_against_a_key() {
    let list = mechanism();
    let names: Vec<&str> = list.iter().map(|m| m.name.as_str()).collect();
    assert_eq!(
        names,
        vec![
            "rel1", "rel13", "rel25", "rel37", "rel40", "rel52", "rel64", "rel76", "pedalD1", "pedalD2", "pedalU1",
            "pedalU2", "harmLC3", "harmSC3", "harmLC5", "harmSC5"
        ]
    );
    assert_eq!((list[0].key, list[0].gain, heard_against(&list[0])), (Some(21), -37, 21));
    assert_eq!((list[8].key, list[8].gain, heard_against(&list[8])), (None, -20, 60));
    assert_eq!((list[12].gain, list[13].gain, heard_against(&list[15])), (-4, 0, 48));
}

fn layer(glide: Option<&str>) -> LayerText {
    LayerText {
        partials: 12,
        inharmonic: s("1.25"),
        glide_first: Some(s("  +2.50")),
        glide: glide.map(s),
        envelope: s("0.75"),
        trend: Some(s("  -1.00")),
        excitation: None,
    }
}

#[test]
fn residual_rows_stand_in_columns() {
    let row = KeyRow {
        key: 60,
        layers: 16,
        layer: layer(None),
        worst: s("4.5"),
        worst_k: 7,
        excitation_worst: Some(s("  +9.00")),
        preset: s("2.00"),
        preset_worst: s("6.5"),
        preset_worst_k: 11,
        trusted: 9,
        preset_trusted: s("1.50"),
        low: Some(s("3.10e-4")),
        high: None,
        ratio: None,
    };
    assert_eq!(
        key_row(&row),
        format!(
            "{:>4} {:>3}  {:>8}  {:>10.2}c {:>7.1}c ({:>2}) {:>9} {:>10} {:>9.2} {:>10} {:>11} {:>13} {:>11.2}c {:>7.1}c ({:>2}) {:>8} {:>14.2}c {:>9} {:>10} {:>7}\n",
            60, 16, 12, 1.25, 4.5, 7, "  +2.50", "-", 0.75, "  -1.00", "-", "  +9.00", 2.0, 6.5, 11, 9, 1.5, "3.10e-4", "-", "-"
        )
    );
    assert_eq!(
        velocity_row(&VelocityRow { key: 60, velocity: 90, layer: layer(Some("  +1.00")) }),
        format!(
            "{:>4} {:>4} {:>9} {:>11.2}c {:>10} {:>10} {:>9.2} {:>10} {:>11}\n",
            60, 90, 12, 1.25, "  +2.50", "  +1.00", 0.75, "  -1.00", "-"
        )
    );
    assert_eq!(
        control_row(&ControlRow { key: 60, layer: layer(None), worst: s("4.5"), worst_k: 7 }),
        format!(
            "{:>4} {:>9} {:>12.2}c {:>7.1}c ({:>2}) {:>10} {:>10} {:>9.2} {:>10} {:>11}\n",
            60, 12, 1.25, 4.5, 7, "  +2.50", "-", 0.75, "  -1.00", "-"
        )
    );
    assert_eq!(
        recording_row(&RecordingRow { key: 60, layer: 11, velocity: 90, f0: s("261.600"), b: s("3.100e-4") }),
        "key 60, layer 11 (vel 90), fitted f0 261.600 Hz, B 3.100e-4\n"
    );
    let p = PartialRow { k: 3, hz: s("784.800"), level: s("-12.5"), model: s("0.25"), glide: None, envelope: s("0.50"), trend: Some(s("+0.10")) };
    assert_eq!(
        partial_row(&p),
        format!("{:5} {:14.3} {:10.1} {:13.2} {:>13} {:9.2} {:>11}\n", 3, 784.8, -12.5, 0.25, "-", 0.5, "+0.10")
    );
    let b = BandRow { low: s("60"), high: s("74"), notes: 3, partials: 24, mean: s("-0.50"), spread: s("2.00") };
    assert_eq!(band_row(&b), format!("{:>6.0}-{:<6.0} {:>5} {:>9} {:>9.2} {:>24.2}\n", 60.0, 74.0, 3, 24, -0.5, 2.0));
    assert_eq!(no_tracking(&KeyOnly { key: 21 }), "  21  no tracking\n");
    assert_eq!(no_analysis(&KeyOnly { key: 21 }), "  21  no analysis\n");
    assert_eq!(no_probe(&KeyOnly { key: 21 }), "  21  no combination stands clear of the partials\n");
}

#[test]
fn spectrum_rows_stand_in_columns() {
    let c = CensusRow {
        source: s("salamander"),
        key: 60,
        velocity: 90,
        peaks: 50,
        transverse: 20,
        combination: 3,
        combination_loudest: s("-40.0"),
        neighbour: 2,
        neighbour_loudest: s("-inf"),
        unexplained: 25,
        unexplained_loudest: s("-30.5"),
        between_strike: s("-10.0"),
        between_second: s("-20.0"),
        strongest: s("100 200"),
    };
    assert_eq!(
        census_row(&c),
        format!(
            "{:>10} {:>4} {:>4} {:>6} {:>7} {:>8} {:>8.1} {:>10} {:>8.1} {:>7} {:>8.1} {:>10.1} {:>11.1}   {}\n",
            "salamander", 60, 90, 50, 20, 3, -40.0, 2, f64::NEG_INFINITY, 25, -30.5, -10.0, -20.0, "100 200"
        )
    );
    let p = PhantomRow {
        source: s("engine"),
        key: 33,
        first: 4,
        second: 5,
        clearance: s("12.5"),
        layers: 16,
        slope_drive: Some(s("+1.00")),
        slope_note: None,
        margin: s("6.0"),
        level: s("-50.0"),
    };
    assert_eq!(
        phantom_row(&p),
        format!(
            "{:>10} {:>4}  f{}+f{}   {:>14.1} Hz   {:>6}   {:>16}   {:>13}   {:>17.1}   {:>16.1}\n",
            "engine", 33, 4, 5, 12.5, 16, "+1.00", "-", 6.0, -50.0
        )
    );
    let st = StereoRow {
        source: s("engine"),
        key: 33,
        velocity: 90,
        partials: 9,
        early_median: Some(s("+1.00")),
        early_spread: Some(s("+2.00")),
        late_median: None,
        late_spread: None,
        drift: Some(s("0.50")),
    };
    assert_eq!(
        stereo_row(&st),
        format!(
            "{:>10} {:>4} {:>4} {:>9} {:>13} {:>12} {:>11} {:>10} {:>10}\n",
            "engine", 33, 90, 9, "+1.00", "+2.00", "-", "-", "0.50"
        )
    );
    let m = MechanismRow {
        name: s("pedalD1"),
        key: None,
        gain: s("-20"),
        peak: Some(s("-30.0 dB")),
        rms: None,
        decay: s("never"),
        centroid: s("800"),
        length: s("1.50"),
    };
    assert_eq!(
        mechanism_row(&m),
        format!(
            "{:>14} {:>5} {:>10.0} {:>15} {:>15} {:>17} {:>13.0} {:>10.2}\n",
            "pedalD1", "-", -20.0, "-30.0 dB", "-", "never", 800.0, 1.5
        )
    );
    let a = AttackRow { source: s("engine"), key: 36, velocity: 90, window: s("42.7"), reference: s("65.400"), slide: s("+1.00  -") };
    assert_eq!(
        attack_row(&a),
        format!("{:>10} {:>4} {:>4} {:>10.1} {:>13.3}   {}\n", "engine", 36, 90, 42.7, 65.4, "+1.00  -")
    );
}
