use sciimg::util::append_file_name;
use sciimg::util::filename_char_at_pos;
use sciimg::util::replace_image_extension;
use sciimg::util::replace_str;
use sciimg::util::str_eq_nocase;
use sciimg::util::string_is_valid_f32;
use sciimg::util::string_is_valid_f64;
use sciimg::util::string_is_valid_i32;
use sciimg::util::string_is_valid_u16;
use sciimg::util::stringvec;
use sciimg::util::stringvec_b;

#[test]
fn test_string_is_valid_i32() {
    assert!(string_is_valid_i32("0"));
    assert!(string_is_valid_i32("42"));
    assert!(string_is_valid_i32("-42"));
    assert!(string_is_valid_i32("+42"));
    assert!(string_is_valid_i32("2147483647"));
    assert!(string_is_valid_i32("-2147483648"));
    assert!(string_is_valid_i32("0002147483647"));
    assert!(!string_is_valid_i32("2147483648"));
    assert!(!string_is_valid_i32("-2147483649"));
    assert!(!string_is_valid_i32("99999999999999999999"));
    assert!(!string_is_valid_i32(""));
    assert!(!string_is_valid_i32("+"));
    assert!(!string_is_valid_i32("-"));
    assert!(!string_is_valid_i32("12a"));
    assert!(!string_is_valid_i32("1.5"));
    assert!(!string_is_valid_i32(" 12"));
    // The parse results must agree with the standard library.
    for s in [
        "0",
        "42",
        "-42",
        "+42",
        "2147483647",
        "2147483648",
        "-2147483648",
        "-2147483649",
        "",
        "+",
        "12a",
        "1.5",
    ] {
        assert_eq!(string_is_valid_i32(s), s.parse::<i32>().is_ok(), "{}", s);
    }
}

#[test]
fn test_string_is_valid_u16() {
    assert!(string_is_valid_u16("0"));
    assert!(string_is_valid_u16("+9"));
    assert!(string_is_valid_u16("65535"));
    assert!(!string_is_valid_u16("65536"));
    assert!(!string_is_valid_u16("-1"));
    assert!(!string_is_valid_u16("-0"));
    assert!(!string_is_valid_u16(""));
    assert!(!string_is_valid_u16("+"));
    assert!(!string_is_valid_u16("12 "));
    for s in ["0", "+9", "65535", "65536", "-1", "-0", "", "+", "12 "] {
        assert_eq!(string_is_valid_u16(s), s.parse::<u16>().is_ok(), "{}", s);
    }
}

#[test]
fn test_string_is_valid_f64() {
    assert!(string_is_valid_f64("0"));
    assert!(string_is_valid_f64("-12.5"));
    assert!(string_is_valid_f64("+.5"));
    assert!(string_is_valid_f64("5."));
    assert!(string_is_valid_f64("1.e2"));
    assert!(string_is_valid_f64("1e9"));
    assert!(string_is_valid_f64("1E-9"));
    assert!(string_is_valid_f64("2.5e+10"));
    assert!(string_is_valid_f64("inf"));
    assert!(string_is_valid_f64("-Infinity"));
    assert!(string_is_valid_f64("NaN"));
    assert!(string_is_valid_f64("1e999"));
    assert!(!string_is_valid_f64(""));
    assert!(!string_is_valid_f64("."));
    assert!(!string_is_valid_f64("-"));
    assert!(!string_is_valid_f64("e5"));
    assert!(!string_is_valid_f64("1e"));
    assert!(!string_is_valid_f64("1e+"));
    assert!(!string_is_valid_f64("1.2.3"));
    assert!(!string_is_valid_f64("1,5"));
    assert!(!string_is_valid_f64("infx"));
    assert!(!string_is_valid_f64(" 1"));
    for s in [
        "0", "-12.5", "+.5", "5.", "1.e2", "1e9", "1E-9", "2.5e+10", "inf", "-Infinity", "NaN",
        "1e999", "", ".", "-", "e5", "1e", "1e+", "1.2.3", "1,5", "infx", " 1", "0x10", "1_000",
    ] {
        assert_eq!(string_is_valid_f64(s), s.parse::<f64>().is_ok(), "{}", s);
        assert_eq!(string_is_valid_f32(s), s.parse::<f32>().is_ok(), "{}", s);
    }
}

#[test]
fn test_replace_str() {
    assert_eq!(replace_str("a.png.png", ".png", "-x"), "a-x-x");
    assert_eq!(replace_str("hello", "l", "L"), "heLLo");
    assert_eq!(replace_str("aaa", "aa", "b"), "ba");
    assert_eq!(replace_str("none here", "xyz", "q"), "none here");
    // Same behavior as the standard library's replace.
    assert_eq!(replace_str("aaa", "aa", "b"), "aaa".replace("aa", "b"));
}

#[test]
fn test_replace_image_extension() {
    assert_eq!(replace_image_extension("frame.png", ".tif"), "frame.tif");
    assert_eq!(replace_image_extension("frame.PNG", ".tif"), "frame.tif");
    assert_eq!(replace_image_extension("frame.jpg", "-a.png"), "frame-a.png");
    assert_eq!(replace_image_extension("frame.TIF", ".png"), "frame.png");
    assert_eq!(replace_image_extension("frame.dat", ".png"), "frame.dat");
}

#[test]
fn test_append_file_name() {
    assert_eq!(append_file_name("frame.png", "mask"), "frame-mask.png");
    assert_eq!(append_file_name("a/b/frame.jpg", "v2"), "a/b/frame-v2.png");
}

#[test]
fn test_stringvec() {
    let v = stringvec("a", "b");
    assert_eq!(v.len(), 2);
    assert_eq!(v[0], "a");
    assert_eq!(v[1], "b");

    let w = stringvec_b("a", String::from("bee"));
    assert_eq!(w.len(), 2);
    assert_eq!(w[0], "a");
    assert_eq!(w[1], "bee");
}

#[test]
fn test_filename_char_at_pos() {
    assert_eq!(filename_char_at_pos("/data/frame.png", 0), 'f');
    assert_eq!(filename_char_at_pos("/data/frame.png", 5), '.');
    assert_eq!(filename_char_at_pos("frame.png", 8), 'g');
}

#[test]
fn test_str_eq_nocase() {
    assert!(str_eq_nocase("PnG", "png"));
    assert!(str_eq_nocase("png", "png"));
    assert!(!str_eq_nocase("pn", "png"));
    assert!(!str_eq_nocase("pnx", "png"));
}
