use chatbot_backend::text::{
    decimal_text, is_blank, lower, same_text, split_text, starts_with_text, white_space,
    words_of,
};

#[test]
fn white_space_matches_std_for_every_char() {
    for u in 0u32..=0x10FFFF {
        if let Some(c) = char::from_u32(u) {
            assert_eq!(white_space(c), c.is_whitespace(), "char {:#x}", u);
        }
    }
}

#[test]
fn blank_texts_are_those_that_trim_to_nothing() {
    for s in ["", " ", "\t\n\r ", "\u{3000}\u{a0}", " a ", "x", "\u{200b}"] {
        assert_eq!(is_blank(s), s.trim().is_empty(), "{:?}", s);
    }
}

#[test]
fn decimal_text_writes_numbers_like_format() {
    for n in [0usize, 7, 10, 99, 200, 404, 65535, 1234567890] {
        assert_eq!(decimal_text(n), format!("{}", n));
    }
}

#[test]
fn starts_with_text_agrees_with_str() {
    for (s, p) in [("/ai/v1", "/ai/"), ("/ai", "/ai/"), ("", ""), ("/health", "/ai/")] {
        assert_eq!(starts_with_text(s, p), s.starts_with(p));
    }
}

#[test]
fn same_text_compares_contents() {
    assert!(same_text("grok", "grok"));
    assert!(!same_text("grok", "Grok"));
    assert!(!same_text("grok", "grok2"));
}

#[test]
fn split_text_agrees_with_str_split() {
    for s in ["", "/", "/ai/v1/grok", "a//b", "no-slash", "/trailing/"] {
        let expected: Vec<String> = s.split('/').map(|p| p.to_string()).collect();
        assert_eq!(split_text(s, '/'), expected);
        assert_eq!(split_text(s, '/').join("/"), s);
    }
}

#[test]
fn words_of_agrees_with_split_whitespace() {
    for s in ["", "  ", "one", " two  words ", "tab\tand\nnewline", "nbsp\u{a0}split", "x\u{3000}y z"] {
        let expected: Vec<Vec<char>> = s.split_whitespace().map(|w| w.chars().collect()).collect();
        assert_eq!(words_of(s), expected, "{:?}", s);
    }
}

#[test]
fn lower_agrees_with_str_to_lowercase() {
    assert_eq!(lower("Grok-V1 JSON @[`{"), "grok-v1 json @[`{");
    assert_eq!(lower("STRING"), "string");
    for s in ["", "AZaz09", "Google-AI-Studio", "ÄÖÜ Straße", "ΣΑΣ", "İ"] {
        assert_eq!(lower(s), s.to_lowercase(), "{:?}", s);
    }
}
