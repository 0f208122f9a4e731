use dabovanie_videi_v2::modules::tts::{sanitize_text, split_text};
use dabovanie_videi_v2::text::{decimal_string, is_blank_str, trim_str};

#[test]
fn sanitizes_control_characters_and_whitespace() {
    assert_eq!(sanitize_text("  A\n\tB\r\n"), "A B");
}

#[test]
fn splits_text_without_breaking_utf8_characters() {
    let chunks = split_text("Prvá veta. Druhá veta. 中文文本。", 12);
    assert!(chunks.len() >= 2);
    assert!(chunks.iter().all(|chunk| chunk.chars().count() <= 12));
}

#[test]
fn sanitizing_twice_is_sanitizing_once() {
    let once = sanitize_text("\u{7}a \u{3000} b\u{85}\u{85}c  ");
    assert_eq!(once, "a b c");
    assert_eq!(sanitize_text(&once), once);
    assert_eq!(sanitize_text(" \t\r\n"), "");
}

#[test]
fn each_run_of_separators_becomes_one_space() {
    let input = "\tjeden\u{1}\u{2}dva \n\r tri\u{3000}";
    let out = sanitize_text(input);
    assert_eq!(out, "jeden dva tri");
    let kept: String = input.chars().filter(|c| !c.is_control() && !c.is_whitespace()).collect();
    let without_spaces: String = out.chars().filter(|c| *c != ' ').collect();
    assert_eq!(without_spaces, kept);
}

#[test]
fn splits_at_the_last_boundary_in_the_second_half() {
    let chunks = split_text("ab, cd. efgh ijkl", 8);
    assert_eq!(chunks, vec!["ab, cd.".to_owned(), "efgh ij".to_owned(), "kl".to_owned()]);
    for chunk in &chunks {
        assert!(!chunk.is_empty());
        assert_eq!(chunk.trim(), chunk);
    }
}

#[test]
fn split_of_nothing_is_empty() {
    assert!(split_text("anything", 0).is_empty());
    assert!(split_text("   \n", 5).is_empty());
    assert_eq!(split_text("short", 100), vec!["short".to_owned()]);
}

#[test]
fn blank_trim_and_decimal() {
    assert!(is_blank_str(" \u{2003}\t"));
    assert!(!is_blank_str(" x "));
    assert_eq!(trim_str("\u{a0} text \n"), "text");
    assert_eq!(decimal_string(0), "0");
    assert_eq!(decimal_string(240), "240");
    assert_eq!(decimal_string(18446744073709551616), "18446744073709551616");
}

#[test]
fn chunks_keep_every_character_of_the_text() {
    let input = "Prvá veta je dlhá. Druhá\tveta, tretia!  Štvrtá.";
    let chunks = split_text(input, 10);
    let joined: String = chunks.concat().chars().filter(|c| !c.is_control() && !c.is_whitespace()).collect();
    let kept: String = input.chars().filter(|c| !c.is_control() && !c.is_whitespace()).collect();
    assert_eq!(joined, kept);
}
