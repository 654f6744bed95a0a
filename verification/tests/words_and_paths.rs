use std::path::Path;
use tuner_tools::adapt::{first_sentence, is_named, source_extension};
use tuner_tools::paths::{file_name, file_stem, same_path, short};
use tuner_tools::text::{
    characters, from_characters, join, listed, or_dash, parse_whole, print, print_signed,
    push_left, push_right, same, starts_with, ticked, NumberError,
};
use tuner_tools::words::{fields, is_number, number_error, trim, trim_end, words};

fn texts() -> Vec<&'static str> {
    vec![
        "", ".", "..", "/", "//", "a", "a/", "a//b", "a/./b", "./a", "./", "a/b/c", "/a/b", "/a/b/",
        "//a", "a/..", "a/../b", "/.", "a.b.c", ".hidden", "x/.hidden", "x/a.", "..a", "a b/c d.toml",
        "data/salamander", "data/salamander/samples/A0v1.flac", "data", "/data", "data/x/", "x/./",
    ]
}

#[test]
fn paths_are_alike_as_the_standard_library_says() {
    for a in texts() {
        for b in texts() {
            assert_eq!(same_path(a, b), Path::new(a) == Path::new(b), "{a:?} {b:?}");
        }
    }
}

#[test]
fn what_is_left_below_a_root_is_what_the_standard_library_leaves() {
    for path in texts() {
        for root in texts() {
            let expected = Path::new(path)
                .strip_prefix(root)
                .unwrap_or(Path::new(path))
                .display()
                .to_string();
            assert_eq!(short(path, root), expected, "{path:?} below {root:?}");
        }
    }
}

#[test]
fn names_and_stems_are_the_standard_library_s() {
    for path in texts() {
        let p = Path::new(path);
        let name = p.file_name().map(|s| s.to_string_lossy().to_string());
        let stem = p.file_stem().map(|s| s.to_string_lossy().to_string());
        assert_eq!(file_name(path), name, "{path:?}");
        assert_eq!(file_stem(path), stem, "{path:?}");
    }
}

#[test]
fn the_number_grammar_is_that_of_the_standard_library() {
    let samples = [
        "", "1", "-1", "+1", "1.", ".5", ".", "1e5", "1E-5", "1e", "e5", "inf", "-INF", "Infinity",
        "nan", "NaN", "+nan", "infin", "0x10", "1_000", " 1", "1 ", "1.2.3", "--1", "+-1", "1e+5",
        "1e5.0", "٣", "1f", "",
    ];
    for s in samples {
        assert_eq!(is_number(s), s.parse::<f64>().is_ok(), "{s:?}");
        assert_eq!(is_number(s), s.parse::<f32>().is_ok(), "{s:?}");
        if let Err(e) = s.parse::<f64>() {
            assert_eq!(number_error(s), e.to_string(), "{s:?}");
        }
    }
}

#[test]
fn whole_numbers_are_parsed_as_the_standard_library_parses_them() {
    let samples = ["", "0", "+0", "255", "256", "-1", "+", "-", "007", "1a", "99999999999999999999999", "+255", " 1"];
    for s in samples {
        match (parse_whole(s, 255), s.parse::<u8>()) {
            (Ok(a), Ok(b)) => assert_eq!(a, u64::from(b)),
            (Err(a), Err(b)) => assert_eq!(a.message(), b.to_string(), "{s:?}"),
            _ => panic!("{s:?} is taken by one and not by the other"),
        }
    }
    assert!(matches!(parse_whole("256", 255), Err(NumberError::TooLarge)));
    assert!(matches!(parse_whole("", 255), Err(NumberError::Empty)));
    assert!(matches!(parse_whole("x", 255), Err(NumberError::InvalidDigit)));
    assert!(matches!(parse_whole("18446744073709551615", u64::MAX), Ok(u64::MAX)));
}

#[test]
fn numbers_are_printed_in_decimal() {
    for n in [0u64, 9, 10, 101, u64::MAX] {
        assert_eq!(print(n), n.to_string());
    }
    for n in [0i32, -1, 7, -128, i32::MAX, i32::MIN + 1] {
        assert_eq!(print_signed(n), n.to_string());
    }
}

#[test]
fn texts_are_aligned() {
    let mut out = String::new();
    push_right(&mut out, "ab", 4);
    push_left(&mut out, "é", 3);
    push_right(&mut out, "toolong", 3);
    assert_eq!(out, format!("{:>4}{:<3}{:>3}", "ab", "é", "toolong"));
}

#[test]
fn texts_are_taken_apart_and_put_together() {
    assert_eq!(from_characters(&characters("naïve")), "naïve");
    assert!(same("a", "a") && !same("a", "ab"));
    assert!(starts_with("--out", "--") && !starts_with("-", "--"));
    assert_eq!(join(&vec!["a".to_string(), "b".to_string()], ", "), "a, b");
    assert_eq!(ticked(&vec!["x".to_string()]), vec!["`x`".to_string()]);
    assert!(listed(&vec!["x".to_string()], "x"));
    assert_eq!(or_dash(&None), "-");
    assert_eq!(fields("a,,b", ','), vec!["a".to_string(), String::new(), "b".to_string()]);
    let got: Vec<String> = words(&characters("  a \t bc\u{2003}d")).iter().map(from_characters).collect();
    assert_eq!(got, vec!["a".to_string(), "bc".to_string(), "d".to_string()]);
    assert_eq!(from_characters(&trim(&characters(" \u{a0}x y\n"))), "x y");
    assert_eq!(from_characters(&trim_end(&characters(" x \n"))), " x");
}

#[test]
fn the_first_sentence_is_the_first_long_one() {
    let short_one = "Short. But this second sentence carries on past forty bytes. And a third.";
    assert_eq!(
        first_sentence(short_one),
        "Short. But this second sentence carries on past forty bytes."
    );
    assert_eq!(first_sentence("  no   full stop  here "), "no full stop here");
    assert_eq!(first_sentence(""), "");
    assert_eq!(first_sentence("e.g. nothing"), "e.g. nothing");
}

#[test]
fn a_resampled_library_arrives_as_it_was_published() {
    assert_eq!(source_extension(true, "wav"), "wav");
    assert_eq!(source_extension(false, "wav"), "flac");
    assert!(is_named(50) && !is_named(51));
}
