use tuner_tools::bench::page::{
    column_frames, draw_page, heading, hz_label, ink, marked_hz, nearest_band, page_png, paper,
    write_png, Bar, Page, PictureError, Second, Tick, PAGE_W, PLOT_W,
};
use tuner_tools::canvas::{glyph, upper, Canvas, Colour};
use tuner_tools::reading::Reading;

const WHITE: Colour = Colour { red: 255, green: 255, blue: 255 };
const RED: Colour = Colour { red: 255, green: 0, blue: 0 };

fn decoded(bytes: &[u8]) -> (u32, u32, Vec<u8>) {
    let decoder = png::Decoder::new(bytes);
    let mut reader = decoder.read_info().expect("a picture");
    let mut pixels = vec![0; reader.output_buffer_size()];
    let info = reader.next_frame(&mut pixels).expect("a frame");
    assert!(matches!(info.color_type, png::ColorType::Rgb));
    assert!(matches!(info.bit_depth, png::BitDepth::Eight));
    pixels.truncate(info.buffer_size());
    (info.width, info.height, pixels)
}

#[test]
fn a_canvas_is_read_back_from_its_picture() {
    let mut c = Canvas::new(5, 3, WHITE);
    c.rect(1, 1, 2, 5, RED);
    c.set(4, 0, RED);
    c.set(40, 0, RED);
    let bytes = match write_png(&c) {
        Ok(b) => b,
        Err(_) => panic!("a small picture"),
    };
    let (w, h, pixels) = decoded(&bytes);
    assert_eq!((w, h), (5, 3));
    assert_eq!(pixels, c.bytes());
    assert!(c.get(1, 2) == RED && c.get(3, 1) == WHITE && c.get(4, 0) == RED);
}

#[test]
fn an_empty_canvas_is_refused_by_the_encoder() {
    let c = Canvas::new(0, 3, WHITE);
    match write_png(&c) {
        Err(PictureError::Refused(text)) => assert!(!text.is_empty()),
        _ => panic!("a picture without width"),
    }
}

#[test]
fn letters_are_drawn_in_their_cells() {
    let mut c = Canvas::new(20, 10, WHITE);
    c.text(1, 1, "a1", 1, RED);
    let mut inked = 0;
    for y in 0..10 {
        for x in 0..20 {
            if c.get(x, y) == RED {
                assert!((1..13).contains(&x) && (1..8).contains(&y));
                inked += 1;
            }
        }
    }
    assert!(inked > 10);
    assert_eq!(upper('a'), 'A');
    assert!(glyph('A') == glyph('A'));
}

#[test]
fn text_on_the_right_ends_at_its_mark() {
    let mut c = Canvas::new(40, 10, WHITE);
    c.text_right(39, 1, "88", 1, RED);
    let last = (0..40).rev().find(|&x| (0..10).any(|y| c.get(x, y) == RED)).expect("some ink");
    assert!(last <= 39 && last >= 34);
}

fn bar() -> Bar {
    Bar {
        rows: Vec::new(),
        top: "0 dB".to_string(),
        middle: "-40".to_string(),
        bottom: "-80".to_string(),
    }
}

fn page(bands: usize) -> Page {
    let cells = bands * PLOT_W;
    let mut level = bar();
    let mut difference = bar();
    level.rows = vec![RED; bands * 3];
    difference.rows = vec![RED; bands * 3];
    Page {
        bands,
        heading: heading("chords", bands as u64, "30", "16000"),
        range: "SCALE 80 DB".to_string(),
        engine: vec![RED; cells],
        reference: vec![RED; cells],
        difference: vec![RED; cells],
        ticks: vec![Tick { band: 1, label: hz_label(1000) }],
        seconds: vec![Second { offset: 10, label: "1".to_string() }],
        level_bar: level,
        difference_bar: difference,
    }
}

#[test]
fn a_page_is_as_wide_as_its_panels_and_margins() {
    let p = page(8);
    let c = draw_page(&p);
    assert_eq!(c.wide(), PAGE_W);
    assert!(c.get(0, 0) == paper());
    assert!(c.get(80, 75) == RED);
    let bytes = match page_png(&p) {
        Ok(b) => b,
        Err(_) => panic!("a page"),
    };
    let (w, h, pixels) = decoded(&bytes);
    assert_eq!((w as usize, h as usize), (c.wide(), c.high()));
    assert_eq!(pixels, c.bytes());
    assert!(ink() != paper());
}

#[test]
fn every_column_holds_a_frame_and_the_columns_adjoin() {
    for frames in [1usize, 7, 1080, 5000] {
        for x in 0..PLOT_W {
            let (from, to) = column_frames(x, frames);
            assert!(from < to);
            if x + 1 < PLOT_W && frames >= PLOT_W {
                assert_eq!(to, column_frames(x + 1, frames).0);
            }
        }
    }
}

#[test]
fn frequencies_are_labelled_in_thousands() {
    assert_eq!(hz_label(500), "500");
    assert_eq!(hz_label(4000), "4K");
    assert_eq!(hz_label(1500), "2K");
    assert_eq!(hz_label(2500), "2K");
    for hz in (0..9_000u32).chain([12_345_500, u32::MAX - 1_000]) {
        let x = f64::from(hz);
        let said = if x >= 1000.0 { format!("{:.0}K", x / 1000.0) } else { format!("{x:.0}") };
        assert_eq!(hz_label(hz), said);
    }
    assert!(marked_hz().contains(&1000));
    let d: Vec<Reading> = [3.0f64, 0.5, 0.5].iter().map(|x| Reading { bits: x.to_bits() }).collect();
    assert_eq!(nearest_band(&d), 1);
}
