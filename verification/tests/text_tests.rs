use sticky::text::{chars_of, push_decimal, push_hex_byte, push_two_digit, replace_all, string_of, strip_leading_all, trim, white_space};

fn s(cs: Vec<char>) -> String {
    cs.into_iter().collect()
}

#[test]
fn replace_all_replaces_every_occurrence() {
    let out = replace_all(&chars_of("a--b--c"), &chars_of("--"), &chars_of("+"));
    assert_eq!(s(out), "a+b+c");
}

#[test]
fn replace_all_does_not_overlap() {
    let out = replace_all(&chars_of("aaa"), &chars_of("aa"), &chars_of("x"));
    assert_eq!(s(out), "xa");
}

#[test]
fn strip_leading_all_removes_repeated_prefix() {
    let out = strip_leading_all(&chars_of("abababc"), &chars_of("ab"));
    assert_eq!(s(out), "c");
    let none = strip_leading_all(&chars_of("xab"), &chars_of("ab"));
    assert_eq!(s(none), "xab");
}

#[test]
fn trim_strips_unicode_white_space() {
    let out = trim(&chars_of("\u{3000} \t hi there \n\u{a0}"));
    assert_eq!(s(out), "hi there");
    assert_eq!(s(trim(&chars_of("   "))), "");
    assert!(white_space('\u{2028}'));
    assert!(!white_space('x'));
}

#[test]
fn decimal_rendering() {
    let mut out = String::new();
    push_decimal(&mut out, 0);
    out.push(' ');
    push_decimal(&mut out, -1205);
    out.push(' ');
    push_decimal(&mut out, i64::MIN);
    assert_eq!(out, format!("0 -1205 {}", i64::MIN));
}

#[test]
fn padded_and_hex_rendering() {
    let mut out = String::new();
    push_two_digit(&mut out, 7);
    push_two_digit(&mut out, 42);
    push_hex_byte(&mut out, 10);
    push_hex_byte(&mut out, 255);
    assert_eq!(out, "0742" .to_string() + "0AFF");
}

#[test]
fn string_of_keeps_characters() {
    assert_eq!(string_of(&vec!['é', '📎', 'x']), "é📎x");
}
