use esm_references::magic_identifier::mangle;
use esm_references::text::{chars_to_string, str_chars, str_equal, u32_to_decimal, u32_to_hex};

#[test]
fn mangle_keeps_ascii_letters_and_digits() {
    assert_eq!(mangle("abc123XYZ"), "__TURBOPACK__abc123XYZ__");
}

#[test]
fn mangle_escapes_spaces_and_punctuation_as_hex() {
    assert_eq!(mangle("external fs"), "__TURBOPACK__external$20$fs__");
    assert_eq!(mangle("a/b.js"), "__TURBOPACK__a$2f$b$2e$js__");
    assert_eq!(mangle("a_b"), "__TURBOPACK__a$5f$b__");
}

#[test]
fn mangle_escapes_characters_beyond_ascii() {
    assert_eq!(mangle("\u{e9}"), "__TURBOPACK__$e9$__");
    assert_eq!(mangle("\u{1F600}"), "__TURBOPACK__$1f600$__");
}

#[test]
fn mangle_is_deterministic_and_separates_labels() {
    assert_eq!(mangle("imported module a"), mangle("imported module a"));
    assert_ne!(mangle("a b"), mangle("ab"));
    assert_ne!(mangle("external fs"), mangle("imported module fs"));
}

#[test]
fn decimal_rendering_is_exact() {
    assert_eq!(chars_to_string(u32_to_decimal(0)), "0");
    assert_eq!(chars_to_string(u32_to_decimal(7)), "7");
    assert_eq!(chars_to_string(u32_to_decimal(1234567890)), "1234567890");
}

#[test]
fn hex_rendering_is_exact() {
    assert_eq!(chars_to_string(u32_to_hex(0)), "0");
    assert_eq!(chars_to_string(u32_to_hex(255)), "ff");
    assert_eq!(chars_to_string(u32_to_hex(0x10FFFF)), "10ffff");
}

#[test]
fn string_helpers_roundtrip() {
    assert!(str_equal("parallel", "parallel"));
    assert!(!str_equal("parallel", "none"));
    assert!(!str_equal("a", "ab"));
    assert_eq!(chars_to_string(str_chars("h\u{e9}llo")), "h\u{e9}llo");
}
