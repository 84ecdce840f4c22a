use spoterm::text::decimal_text;
use spoterm::text::push_blanks;
use spoterm::text::push_clock;
use spoterm::text::push_decimal;
use spoterm::text::push_two_digits;
use spoterm::text::trim_text;
use spoterm::ui::LikedSongs;

#[test]
fn trim_text_pads_short_text() {
    assert_eq!(trim_text(&"abc".to_string(), 5), "abc  ");
}

#[test]
fn trim_text_cuts_long_text() {
    assert_eq!(trim_text(&"abcdefgh".to_string(), 5), "abcde");
}

#[test]
fn trim_text_of_empty_text_is_blank() {
    assert_eq!(trim_text(&String::new(), 3), "   ");
}

#[test]
fn trim_text_to_zero_columns_keeps_nothing_visible() {
    assert_eq!(trim_text(&"abc".to_string(), 0), "");
}

#[test]
fn trim_text_counts_wide_characters_twice() {
    assert_eq!(trim_text(&"漢字".to_string(), 4), "漢字");
    assert_eq!(trim_text(&"漢字".to_string(), 3), "漢 ");
    assert_eq!(trim_text(&"漢字".to_string(), 5), "漢字 ");
}

#[test]
fn trim_text_skips_what_does_not_fit_and_goes_on() {
    assert_eq!(trim_text(&"ab漢c".to_string(), 3), "abc");
}

#[test]
fn trim_text_keeps_control_characters() {
    assert_eq!(trim_text(&"a\nb".to_string(), 2), "a\nb");
    assert_eq!(trim_text(&"ab\n".to_string(), 2), "ab\n");
}

#[test]
fn liked_songs_trim_text_is_the_same_function() {
    assert_eq!(LikedSongs::trim_text(&"Hello".to_string(), 8), "Hello   ");
    assert_eq!(LikedSongs::trim_text(&"Hello, world".to_string(), 8), "Hello, w");
}

#[test]
fn decimal_text_of_numbers() {
    assert_eq!(decimal_text(0), "0");
    assert_eq!(decimal_text(7), "7");
    assert_eq!(decimal_text(10), "10");
    assert_eq!(decimal_text(1234567890), "1234567890");
    assert_eq!(decimal_text(u32::MAX), "4294967295");
}

#[test]
fn push_decimal_appends() {
    let mut s = "x=".to_string();
    push_decimal(&mut s, 42);
    assert_eq!(s, "x=42");
}

#[test]
fn push_two_digits_pads_with_zero() {
    let mut s = String::new();
    push_two_digits(&mut s, 0);
    push_two_digits(&mut s, 9);
    push_two_digits(&mut s, 10);
    push_two_digits(&mut s, 123);
    assert_eq!(s, "000910123");
}

#[test]
fn push_clock_writes_minutes_and_seconds() {
    let mut s = String::new();
    push_clock(&mut s, 0);
    assert_eq!(s, "00:00");
    let mut s = String::new();
    push_clock(&mut s, 61_000);
    assert_eq!(s, "01:01");
    let mut s = String::new();
    push_clock(&mut s, 59_999);
    assert_eq!(s, "00:59");
    let mut s = String::new();
    push_clock(&mut s, 3_600_000);
    assert_eq!(s, "60:00");
    let mut s = String::new();
    push_clock(&mut s, u32::MAX);
    assert_eq!(s, "71582:47");
}

#[test]
fn push_blanks_appends_blanks() {
    let mut s = "a".to_string();
    push_blanks(&mut s, 3);
    assert_eq!(s, "a   ");
    push_blanks(&mut s, 0);
    assert_eq!(s, "a   ");
}
