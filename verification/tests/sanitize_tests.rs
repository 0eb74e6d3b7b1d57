use prompt_registry::digest::{hash_instruction_content, to_hex_digit, to_hex_lower};
use prompt_registry::sanitize::{is_tag, sanitize_unicode_tags};
use prompt_registry::text::join_strings;

#[test]
fn sanitize_removes_tag_characters() {
    let text = "Hello\u{E0041}\u{E0042}\u{E0043} world";
    assert_eq!(sanitize_unicode_tags(text), "Hello world");
}

#[test]
fn sanitize_removes_tags_at_both_ends_and_in_runs() {
    let text = "\u{E0000}a\u{E007F}\u{E0020}b\u{E0001}";
    assert_eq!(sanitize_unicode_tags(text), "ab");
}

#[test]
fn sanitize_is_a_no_op_on_ascii_cjk_and_emoji() {
    let text = "plain ASCII, \u{4e16}\u{754c} and \u{1F30D}\u{1F600}";
    assert_eq!(sanitize_unicode_tags(text), text);
}

#[test]
fn sanitize_is_idempotent() {
    let text = "a\u{E0041}b\u{4e16}\u{E0042}\u{1F30D}c";
    let once = sanitize_unicode_tags(text);
    let twice = sanitize_unicode_tags(&once);
    assert_eq!(once, "ab\u{4e16}\u{1F30D}c");
    assert_eq!(twice, once);
}

#[test]
fn sanitize_keeps_the_neighbours_of_the_tag_block() {
    let text = "\u{DFFFF}\u{E0080}\u{E0100}";
    assert_eq!(sanitize_unicode_tags(text), text);
}

#[test]
fn sanitize_of_empty_and_of_only_tags_is_empty() {
    assert_eq!(sanitize_unicode_tags(""), "");
    assert_eq!(sanitize_unicode_tags("\u{E0041}\u{E0042}"), "");
}

#[test]
fn sanitize_leaves_surrounding_bytes_identical() {
    let before = "caf\u{e9} \u{4e16}";
    let after = "\u{754c} \u{1F30D}!";
    let text = format!("{}\u{E0049}\u{E0067}{}", before, after);
    let clean = sanitize_unicode_tags(&text);
    assert_eq!(clean.as_bytes(), format!("{}{}", before, after).as_bytes());
}

#[test]
fn is_tag_tells_the_block_from_its_neighbours() {
    assert!(is_tag('\u{E0000}'));
    assert!(is_tag('\u{E0041}'));
    assert!(is_tag('\u{E007F}'));
    assert!(!is_tag('\u{DFFFF}'));
    assert!(!is_tag('\u{E0080}'));
    assert!(!is_tag('a'));
}

#[test]
fn hash_of_empty_content() {
    assert_eq!(
        hash_instruction_content(""),
        "e3b0c44298fc1c149afbf4c8996fb92427ae41e4649b934ca495991b7852b855"
    );
}

#[test]
fn hash_of_abc() {
    assert_eq!(
        hash_instruction_content("abc"),
        "ba7816bf8f01cfea414140de5dae2223b00361a396177a9cb410ff61f20015ad"
    );
}

#[test]
fn hash_differs_from_content_and_between_contents() {
    let a = hash_instruction_content("first");
    let b = hash_instruction_content("second");
    assert_eq!(a.len(), 64);
    assert_ne!(a, "first");
    assert_ne!(a, b);
}

#[test]
fn hex_digits_are_lower_case() {
    assert_eq!(to_hex_digit(0), '0');
    assert_eq!(to_hex_digit(9), '9');
    assert_eq!(to_hex_digit(10), 'a');
    assert_eq!(to_hex_digit(15), 'f');
}

#[test]
fn hex_writes_two_digits_per_byte_high_half_first() {
    assert_eq!(to_hex_lower(&[]), "");
    assert_eq!(to_hex_lower(&[0x00, 0x0f, 0xa0, 0xff, 0x1b]), "000fa0ff1b");
}

#[test]
fn join_puts_the_separator_between_neighbours_only() {
    let none: Vec<String> = Vec::new();
    assert_eq!(join_strings(&none, "\n\n"), "");
    assert_eq!(join_strings(&vec!["one".to_string()], "\n\n"), "one");
    assert_eq!(
        join_strings(&vec!["a".to_string(), "".to_string(), "c".to_string()], ", "),
        "a, , c"
    );
}
