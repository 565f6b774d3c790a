use term_indexer::common_words::CommonWords;
use term_indexer::normalize::{normalize, select};

#[test]
fn ascii_token_has_its_exact_term_only() {
    let terms = normalize("Noir");
    assert_eq!(terms.exact, "noir");
    assert_eq!(terms.folded, None);
}

#[test]
fn accented_token_has_an_exact_and_a_folded_term() {
    let terms = normalize("Café");
    assert_eq!(terms.exact, "café");
    assert_eq!(terms.folded, Some("cafe".to_string()));
}

#[test]
fn folded_term_is_lowercased_after_transliteration() {
    let terms = normalize("Æneid");
    assert_eq!(terms.exact, "æneid");
    assert_eq!(terms.folded, Some("aeneid".to_string()));
}

#[test]
fn two_terms_are_distinct() {
    for word in ["Étude", "北亰", "ﬁn", "naïve"] {
        let terms = normalize(word);
        let folded = terms.folded.expect("a folded term");
        assert_ne!(folded, terms.exact);
    }
}

#[test]
fn one_term_when_the_two_forms_coincide() {
    for word in ["hello", "WORLD", "x86", "", "a-b"] {
        let terms = normalize(word);
        assert_eq!(terms.exact, word.to_lowercase());
        assert_eq!(terms.folded, None);
    }
}

#[test]
fn empty_token_normalizes_to_the_empty_term() {
    let terms = normalize("");
    assert_eq!(terms.exact, "");
    assert_eq!(terms.folded, None);
}

#[test]
fn select_keeps_the_candidate_only_where_it_differs() {
    let same = select("abc".to_string(), "abc".to_string());
    assert_eq!(same.exact, "abc");
    assert_eq!(same.folded, None);
    let differ = select("àbc".to_string(), "abc".to_string());
    assert_eq!(differ.exact, "àbc");
    assert_eq!(differ.folded, Some("abc".to_string()));
}

#[test]
fn common_words_lookup_is_exact() {
    let words = CommonWords::from_words(vec!["the".to_string(), "Coffee".to_string()]);
    assert!(words.contains("the"));
    assert!(words.contains("Coffee"));
    assert!(!words.contains("coffee"));
    assert!(!words.contains("The"));
    assert!(!words.contains("th"));
    assert!(!words.contains(""));
}

#[test]
fn common_words_may_be_empty_or_repeat_a_word() {
    let none = CommonWords::from_words(Vec::new());
    assert!(!none.contains("a"));
    let twice = CommonWords::from_words(vec!["a".to_string(), "a".to_string()]);
    assert!(twice.contains("a"));
}

#[test]
fn kelvin_sign_has_an_empty_folded_term() {
    let terms = normalize("\u{212A}");
    assert_eq!(terms.exact, "k");
    assert_eq!(terms.folded, Some(String::new()));
}
