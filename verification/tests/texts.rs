//! Characters, numbers and the order of texts.
use akrs::number::{compare_floats, div_ints, float_negate, mul_ints, sub_ints, truncate_float};
use akrs::order::{order_texts, sort_strings};
use akrs::slices::{bytes_of, is_white, read_number, trim_of};
use akrs::text::{contains_str, find_chars, format_i64, format_usize, from_chars, to_chars};

#[test]
fn white_space_is_that_of_unicode() {
    for code in 0..=0x10ffffu32 {
        if let Some(c) = char::from_u32(code) {
            assert_eq!(is_white(c), c.is_whitespace(), "{:?}", c);
            assert_eq!(bytes_of(c) as usize, c.len_utf8());
        }
    }
}

#[test]
fn trimming() {
    for s in ["", "  ", " a b ", "\u{3000}字\u{a0}", "x"] {
        let cs = to_chars(s);
        assert_eq!(from_chars(trim_of(&cs)), s.trim());
    }
}

#[test]
fn texts_are_ordered_as_strings() {
    let words = ["", "a", "aa", "b", "Z", "字", "字a", "\u{10000}", "\u{ffff}"];
    for a in words {
        for b in words {
            let o = order_texts(a, b);
            assert_eq!(o < 0, a < b, "{:?} {:?}", a, b);
            assert_eq!(o == 0, a == b);
        }
    }
    let mut v: Vec<String> = words.iter().rev().map(|w| w.to_string()).collect();
    let sorted = sort_strings(&v);
    v.sort();
    assert_eq!(sorted, v);
}

#[test]
fn searching() {
    assert!(contains_str("abcabd", "abd"));
    assert!(contains_str("abc", ""));
    assert!(!contains_str("abc", "abcd"));
    let s = to_chars("abcabd");
    let p = to_chars("ab");
    assert_eq!(find_chars(&s, &p, 1), Some(3));
    assert_eq!(find_chars(&s, &p, 4), None);
}

#[test]
fn numbers_as_text() {
    for n in [0, 9, 10, 12345, usize::MAX] {
        assert_eq!(format_usize(n), n.to_string());
    }
    for n in [0, -1, 10, i64::MIN, i64::MAX] {
        assert_eq!(format_i64(n), n.to_string());
    }
    assert_eq!(read_number(&to_chars("+42")), Some(42));
    assert_eq!(read_number(&to_chars("++1")), None);
}

const SAMPLES: [i64; 14] = [
    0,
    1,
    -1,
    7,
    -13,
    1 << 53,
    (1 << 53) + 1,
    -(1 << 53) - 3,
    (1 << 60) + 12345,
    i64::MAX,
    i64::MAX - 511,
    i64::MIN,
    i64::MIN + 1,
    999_999_999_999_999_999,
];

#[test]
fn integers_go_through_doubles() {
    for x in SAMPLES {
        for y in SAMPLES {
            assert_eq!(sub_ints(x, y), (x as f64 - y as f64) as i64, "{} - {}", x, y);
            assert_eq!(mul_ints(x, y), (x as f64 * y as f64) as i64, "{} * {}", x, y);
            if y != 0 && !(x == i64::MIN && y == -1) {
                assert_eq!(div_ints(x, y), x / y, "{} / {}", x, y);
            }
        }
    }
}

#[test]
fn doubles_by_their_bits() {
    let values = [0.0, -0.0, 1.5, -2.25, 1e300, -1e300, f64::INFINITY, f64::MIN_POSITIVE, 9.3e18];
    for a in values {
        for b in values {
            let o = compare_floats(a.to_bits(), b.to_bits());
            assert_eq!(o < 0, a < b);
            assert_eq!(o == 0, a == b);
        }
        assert_eq!(f64::from_bits(float_negate(a.to_bits())), -a);
        assert_eq!(truncate_float(a.to_bits()), a as i64);
    }
    assert_eq!(truncate_float(f64::NAN.to_bits()), 0);
}
