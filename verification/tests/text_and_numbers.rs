use liver::decimal::{append_i32, append_u64, parse_i32, parse_u16};
use liver::ieee::{Double, Single};
use liver::lanes::LONGEST_STEP;
use liver::text::{chars_of, contains, find, is_whitespace, same_text, starts_with, trim};
use liver::windows::{
    INVISIBLE_ALPHA, MIN_HEIGHT_RATIO, MIN_MONITOR_COVERAGE, MIN_WIDTH_RATIO, MIN_WINDOW_COVERAGE,
};

fn single(v: f32) -> Single {
    Single { bits: v.to_bits() }
}

fn double(v: f64) -> Double {
    Double { bits: v.to_bits() }
}

#[test]
fn white_space_is_that_of_the_standard_library() {
    for n in 0..=0x10ffffu32 {
        if let Some(c) = char::from_u32(n) {
            assert_eq!(is_whitespace(c), c.is_whitespace(), "U+{:04X}", n);
        }
    }
}

#[test]
fn trim_takes_white_space_from_both_ends() {
    for s in ["", " ", "a", " a ", "\u{3000}你好\u{a0}\t\n", "a b", "\u{200b}x\u{200b}"] {
        assert_eq!(trim(s), s.trim());
        assert_eq!(trim(trim(s)), trim(s));
    }
}

#[test]
fn find_gives_the_first_place_in_characters() {
    let v = chars_of("你好 INF x INF y");
    assert_eq!(find(&v, " INF "), Some(2));
    assert_eq!(find(&v, "ERR"), None);
    assert_eq!(find(&v, ""), Some(0));
    assert_eq!(find(&chars_of(""), ""), Some(0));
    assert_eq!(find(&chars_of("aab"), "ab"), Some(1));
    assert_eq!(find(&chars_of("ab"), "abc"), None);
}

#[test]
fn contains_starts_with_and_same_text() {
    assert!(contains("one two", "e t"));
    assert!(!contains("one two", "et"));
    assert!(contains("x", ""));
    assert!(starts_with("ERR x", "ERR "));
    assert!(!starts_with(" ERR x", "ERR "));
    assert!(!starts_with("ER", "ERR "));
    assert!(same_text("--port", "--port"));
    assert!(!same_text("--port", "--Port"));
}

#[test]
fn numbers_are_read_like_the_standard_library_reads_them() {
    let samples = [
        "", "+", "-", "0", "-0", "+0", "7", "007", "65535", "65536", "+65535", "-1", "2147483647",
        "2147483648", "-2147483648", "-2147483649", "99999999999999999999", "1_0", " 1", "1 ",
        "+-1", "١", "1a", "--1",
    ];
    for s in samples {
        assert_eq!(parse_u16(s), s.parse::<u16>().ok(), "{:?}", s);
        assert_eq!(parse_i32(s), s.parse::<i32>().ok(), "{:?}", s);
    }
}

#[test]
fn numbers_are_written_and_read_back() {
    for n in [0, 1, 9, 10, 99, 100, -1, -10, i32::MAX, i32::MIN] {
        let mut s = String::from("=");
        append_i32(&mut s, n);
        assert_eq!(s, format!("={}", n));
        assert_eq!(parse_i32(&s[1..]), Some(n));
    }
    let mut s = String::new();
    append_u64(&mut s, u64::MAX);
    assert_eq!(s, "18446744073709551615");
}

#[test]
fn singles_compare_like_floats() {
    let samples = [
        0.0, -0.0, 1.0, -1.0, 0.5, 39.99, 40.0, 240.0, 1e-40, -1e-40, f32::MAX, f32::MIN,
        f32::INFINITY, f32::NEG_INFINITY, f32::NAN, f32::MIN_POSITIVE,
    ];
    for a in samples {
        for b in samples {
            assert_eq!(single(a).lt(single(b)), a < b, "{} < {}", a, b);
            assert_eq!(single(a).le(single(b)), a <= b, "{} <= {}", a, b);
            if !b.is_nan() {
                let r = f32::from_bits(single(a).at_least(single(b)).bits);
                assert_eq!(r, a.max(b));
            }
        }
        assert_eq!(single(a).is_nan(), a.is_nan());
        assert_eq!(single(a).negated().bits, (-a).to_bits());
    }
}

#[test]
fn doubles_compare_like_floats() {
    let samples = [
        0.0, -0.0, 1.0, -1.0, 159.9, 160.0, 1e-310, f64::MAX, f64::MIN, f64::INFINITY,
        f64::NEG_INFINITY, f64::NAN,
    ];
    for a in samples {
        for b in samples {
            assert_eq!(double(a).lt(double(b)), a < b);
            assert_eq!(double(a).le(double(b)), a <= b);
        }
        assert_eq!(double(a).is_nan(), a.is_nan());
    }
}

#[test]
fn clamping_is_that_of_floats() {
    for v in [0.0f32, -5.0, 39.0, 40.0, 90.5, 240.0, 241.0, f32::INFINITY, f32::NEG_INFINITY] {
        let r = single(v).clamp_to(Single::whole(40), Single::whole(240));
        assert_eq!(f32::from_bits(r.bits), v.clamp(40.0, 240.0));
    }
    assert!(single(f32::NAN).clamp_to(Single::whole(40), Single::whole(240)).is_nan());
}

#[test]
fn whole_numbers_have_their_patterns() {
    for n in 0..=u16::MAX {
        assert_eq!(Single::whole(n).bits, (n as f32).to_bits());
        assert_eq!(Double::whole(n).bits, (n as f64).to_bits());
    }
}

#[test]
fn thresholds_have_their_patterns() {
    assert_eq!(INVISIBLE_ALPHA, 0.01f32.to_bits());
    assert_eq!(MIN_MONITOR_COVERAGE, 0.88f32.to_bits());
    assert_eq!(MIN_WINDOW_COVERAGE, 0.75f32.to_bits());
    assert_eq!(MIN_WIDTH_RATIO, 0.88f32.to_bits());
    assert_eq!(MIN_HEIGHT_RATIO, 0.84f32.to_bits());
    assert_eq!(LONGEST_STEP, 0.1f32.to_bits());
}
