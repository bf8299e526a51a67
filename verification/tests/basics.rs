//! Text, paths, bytes, numbers.

use felx::bytes::{push_le, read_le};
use felx::model::time::Rational;
use felx::paths::{
    extension_of, file_name_of, is_absolute_path, is_same_path, join_path, parent_of,
    set_file_name, strip_prefix_of,
};
use felx::scalar::Scalar;
use felx::text::{
    ascii_lowercase_text, cat, decimal_text, parse_unsigned, str_contains, str_eq, str_less,
};

fn s(x: f32) -> Scalar {
    Scalar::from_bits(x.to_bits())
}

#[test]
fn texts_compare_and_join() {
    assert!(str_eq("é", "é") && !str_eq("a", "b"));
    assert_eq!(cat("ab", "çd"), "abçd");
    assert!(str_less("a", "b") && str_less("a", "ab") && !str_less("b", "a"));
    assert!(str_contains("hello", "ell") && !str_contains("hello", "elo"));
    assert!(str_contains("x", ""));
    assert_eq!(ascii_lowercase_text("MP4É"), "mp4É");
}

#[test]
fn numbers_are_written_and_read() {
    assert_eq!(decimal_text(0), "0");
    assert_eq!(decimal_text(u64::MAX), u64::MAX.to_string());
    assert_eq!(parse_unsigned("18446744073709551615", u64::MAX), Some(u64::MAX));
    assert_eq!(parse_unsigned("18446744073709551616", u64::MAX), None);
    assert_eq!(parse_unsigned("+7", 9), Some(7));
    assert_eq!(parse_unsigned("10", 9), None);
    assert_eq!(parse_unsigned("", 9), None);
    assert_eq!(parse_unsigned("+", 9), None);
    assert_eq!(parse_unsigned("-1", 9), None);
    assert_eq!(parse_unsigned("007", 9), Some(7));
}

#[test]
fn paths_are_taken_apart() {
    assert_eq!(file_name_of("/a/b/c.txt/").as_deref(), Some("c.txt"));
    assert_eq!(file_name_of("/a/.."), None);
    assert_eq!(file_name_of("/"), None);
    assert_eq!(parent_of("/a/b").as_deref(), Some("/a"));
    assert_eq!(parent_of("a").as_deref(), Some(""));
    assert_eq!(parent_of("/"), None);
    assert_eq!(extension_of("a/.bashrc"), None);
    assert_eq!(extension_of("a/x.tar.gz").as_deref(), Some("gz"));
    assert!(is_absolute_path("/a") && !is_absolute_path("a"));
    assert_eq!(join_path("a", "b"), "a/b");
    assert_eq!(join_path("a/", "b"), "a/b");
    assert_eq!(join_path("a", "/b"), "/b");
    assert_eq!(set_file_name("/a/b.txt", "c"), "/a/c");
    assert!(is_same_path("a//b/.", "a/b") && !is_same_path("/a", "a"));
    assert_eq!(strip_prefix_of("/a/b/c", "/a").as_deref(), Some("b/c"));
    assert_eq!(strip_prefix_of("/ab/c", "/a"), None);
}

#[test]
fn bytes_are_little_endian() {
    let mut out = Vec::new();
    push_le(&mut out, 0x1234, 4);
    assert_eq!(out, vec![0x34, 0x12, 0, 0]);
    assert_eq!(read_le(&out, 0, 2), 0x1234);
}

#[test]
fn scalars_order_like_numbers() {
    assert_eq!(s(1.5).neg(), s(-1.5));
    assert!(s(-1.0).is_less(s(0.5)) && !s(0.0).is_less(s(-0.0)));
    assert!(!s(f32::NAN).is_less(s(1.0)));
    assert_eq!(s(f32::NAN).min_with(s(2.0)), s(2.0));
    assert_eq!(s(3.0).max_with(s(f32::NAN)), s(3.0));
    assert_eq!(s(7.0).clamp_to(s(0.0), s(1.0)), s(1.0));
    assert!(s(f32::INFINITY).is_finite() == false && s(1.0).is_about_one());
    assert_eq!(Rational::new(1, 2).den, 2);
}
