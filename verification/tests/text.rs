use llama_specs::models::ollama::{capitalize_words, named_tag_lookup};
use llama_specs::text::{chars_eq, chars_of, is_whitespace, split_chars, string_from_chars, trim_str};

#[test]
fn trim_removes_unicode_white_space() {
    assert_eq!(trim_str("  llama3 \n"), "llama3");
    assert_eq!(trim_str("\u{3000}a b\u{a0}"), "a b");
    assert_eq!(trim_str("   "), "");
    assert_eq!(trim_str(""), "");
    assert_eq!(trim_str("x"), "x");
}

#[test]
fn split_keeps_empty_pieces() {
    let pieces = |s: &str, sep: char| -> Vec<String> {
        split_chars(&chars_of(s), sep).iter().map(string_from_chars).collect()
    };
    assert_eq!(pieces("a-b-c", '-'), vec!["a", "b", "c"]);
    assert_eq!(pieces("", '-'), vec![""]);
    assert_eq!(pieces("a--", '-'), vec!["a", "", ""]);
    assert_eq!(pieces("llama3:8b", ':'), vec!["llama3", "8b"]);
}

#[test]
fn case_mappings() {
    // Tags are lowercased before the lookup; words are capitalised.
    assert_eq!(named_tag_lookup("Mini-INSTRUCT"), 3_800_000_000);
    assert_eq!(capitalize_words("d"), "D");
    assert_eq!(capitalize_words("ßx"), "SSx");
}

#[test]
fn char_sequences_compare_by_content() {
    assert!(chars_eq(&chars_of("mini"), &chars_of("mini")));
    assert!(!chars_eq(&chars_of("mini"), &chars_of("minis")));
    assert!(!chars_eq(&chars_of("mini"), &chars_of("mino")));
    assert_eq!(chars_of("añb"), vec!['a', 'ñ', 'b']);
}

#[test]
fn is_whitespace_agrees_with_std_on_every_char() {
    for c in (0u32..=0x10FFFF).filter_map(char::from_u32) {
        assert_eq!(is_whitespace(c), c.is_whitespace(), "{:?}", c);
    }
}

#[test]
fn is_whitespace_examples() {
    assert!(is_whitespace(' '));
    assert!(is_whitespace('\u{3000}'));
    assert!(is_whitespace('\u{85}'));
    assert!(!is_whitespace('\u{200B}'));
    assert!(!is_whitespace('a'));
}
