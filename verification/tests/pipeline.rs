use term_indexer::entries::FieldValueEntry;
use term_indexer::error::IndexError;
use term_indexer::field_buffer::FieldBuffer;
use term_indexer::json_lines::{flush, CommandJsonLines, IndexedCorpus, JsonLinesIndexer};
use term_indexer::record::{Line, Product, Token, TokenizedProduct};
use term_indexer::posting::{DocIndex, Posting, PostingAccumulator};
use term_indexer::run::RunContext;

fn words(text: &str) -> Vec<Token> {
    text.split_whitespace()
        .enumerate()
        .map(|(index, word)| Token { index, word: word.to_string() })
        .collect()
}

fn product(group_id: u64, title: &str, ft: &str) -> Line {
    Line::Parsed(TokenizedProduct {
        product: Product { title: title.to_string(), group_id, ft: ft.to_string() },
        title_words: words(title),
        description_words: words(ft),
    })
}

fn read_line(text: &str) -> Line {
    let value: serde_json::Value = match serde_json::from_str(text) {
        Ok(value) => value,
        Err(_) => return Line::Malformed,
    };
    let title = value.get("title").and_then(|v| v.as_str());
    let group_id = value.get("group_id").and_then(|v| v.as_u64());
    let ft = value.get("ft").and_then(|v| v.as_str());
    match (title, group_id, ft) {
        (Some(title), Some(group_id), Some(ft)) => product(group_id, title, ft),
        _ => Line::Malformed,
    }
}

fn indexer(stop_words: &[&str]) -> JsonLinesIndexer {
    JsonLinesIndexer::from_command(CommandJsonLines {
        stop_words: stop_words.iter().map(|w| w.to_string()).collect(),
        products: "products.jsonl".to_string(),
    })
}

fn run(stop_words: &[&str], lines: &Vec<Line>) -> Result<IndexedCorpus, IndexError> {
    indexer(stop_words).index_as(RunContext::new("run".to_string()), lines)
}

fn posting(term: &str, document: u64, attribute: u8, attribute_index: u32) -> Posting {
    Posting { term: term.to_string(), doc_index: DocIndex { document, attribute, attribute_index } }
}

fn entry(key: &str, value: &str) -> FieldValueEntry {
    FieldValueEntry { key: key.as_bytes().to_vec(), value: value.as_bytes().to_vec() }
}

fn postings(corpus: &IndexedCorpus) -> Vec<Posting> {
    (0..corpus.postings.len()).map(|i| corpus.postings.get(i).expect("a posting").clone()).collect()
}

fn table(corpus: &IndexedCorpus) -> Vec<FieldValueEntry> {
    (0..corpus.table.len()).map(|i| corpus.table.get(i).expect("an entry").clone()).collect()
}

#[test]
fn from_command_keeps_the_stop_words_and_the_path() {
    let indexer = indexer(&["the", "a"]);
    assert_eq!(indexer.products(), "products.jsonl");
    assert!(indexer.common_words().contains("the"));
    assert!(indexer.common_words().contains("a"));
    assert!(!indexer.common_words().contains("an"));
}

#[test]
fn cafe_noir_is_indexed_under_exact_and_folded_terms() {
    let lines = vec![read_line(r#"{"title":"Café Noir","group_id":1,"ft":"black coffee"}"#)];
    let corpus = run(&["coffee"], &lines).expect("a sealed corpus");
    assert_eq!(
        postings(&corpus),
        vec![
            posting("cafe", 1, 0, 0),
            posting("café", 1, 0, 0),
            posting("noir", 1, 0, 1),
            posting("black", 1, 1, 0),
        ]
    );
    let at_title_start = vec![DocIndex { document: 1, attribute: 0, attribute_index: 0 }];
    assert_eq!(corpus.postings.occurrences("café"), at_title_start);
    assert_eq!(corpus.postings.occurrences("cafe"), at_title_start);
    assert_eq!(
        corpus.postings.occurrences("noir"),
        vec![DocIndex { document: 1, attribute: 0, attribute_index: 1 }]
    );
    assert_eq!(
        corpus.postings.occurrences("black"),
        vec![DocIndex { document: 1, attribute: 1, attribute_index: 0 }]
    );
    assert_eq!(corpus.postings.occurrences("coffee"), Vec::new());
    assert_eq!(
        table(&corpus),
        vec![entry("1-description", "black coffee"), entry("1-title", "Café Noir")]
    );
}

#[test]
fn empty_input_seals_empty_artifacts() {
    let corpus = run(&["coffee"], &Vec::new()).expect("a sealed corpus");
    assert_eq!(corpus.postings.len(), 0);
    assert_eq!(corpus.table.len(), 0);
    assert_eq!(corpus.run.name(), "run");
}

#[test]
fn record_without_group_id_stops_the_run() {
    let lines = vec![read_line(r#"{"title":"Café Noir","ft":"black coffee"}"#)];
    assert_eq!(lines, vec![Line::Malformed]);
    assert_eq!(run(&[], &lines).err(), Some(IndexError::Parse { line: 0 }));
}

#[test]
fn first_malformed_line_is_reported() {
    let lines = vec![
        read_line(r#"{"title":"a","group_id":1,"ft":"b"}"#),
        read_line(r#"{"title":"c","group_id":2,"ft":"d"}"#),
        read_line(r#"{"title":"e","group_id":"three","ft":"f"}"#),
        read_line(r#"{"title":"g","group_id":4,"ft":"h"}"#),
        read_line("not json"),
    ];
    assert_eq!(run(&[], &lines).err(), Some(IndexError::Parse { line: 2 }));
    assert_eq!(indexer(&[]).index(&lines).err(), Some(IndexError::Parse { line: 2 }));
}

#[test]
fn malformed_last_line_stops_the_run_too() {
    let lines = vec![product(1, "a", "b"), Line::Malformed];
    assert_eq!(run(&[], &lines).err(), Some(IndexError::Parse { line: 1 }));
}

#[test]
fn stop_words_contribute_nothing_and_other_words_something() {
    let stop = ["the", "of"];
    let lines = vec![product(5, "the Art of War", "of the the"), product(6, "Été", "the")];
    let corpus = run(&stop, &lines).expect("a sealed corpus");
    let all = postings(&corpus);
    for word in stop {
        assert_eq!(corpus.postings.occurrences(word), Vec::new());
    }
    assert_eq!(
        all,
        vec![
            posting("art", 5, 0, 1),
            posting("war", 5, 0, 3),
            posting("ete", 6, 0, 0),
            posting("été", 6, 0, 0),
        ]
    );
}

#[test]
fn stop_word_lookup_happens_before_normalization() {
    let lines = vec![product(1, "Coffee coffee COFFEE", "")];
    let corpus = run(&["coffee"], &lines).expect("a sealed corpus");
    assert_eq!(postings(&corpus), vec![posting("coffee", 1, 0, 0), posting("coffee", 1, 0, 2)]);
}

#[test]
fn table_is_sorted_whatever_the_order_of_arrival() {
    let forward = vec![product(2, "two", "zwei"), product(10, "ten", "zehn"), product(1, "one", "eins")];
    let mut backward = forward.clone();
    backward.reverse();
    let first = run(&[], &forward).expect("a sealed corpus");
    let second = run(&[], &backward).expect("a sealed corpus");
    let expected = vec![
        entry("1-description", "eins"),
        entry("1-title", "one"),
        entry("10-description", "zehn"),
        entry("10-title", "ten"),
        entry("2-description", "zwei"),
        entry("2-title", "two"),
    ];
    assert_eq!(table(&first), expected);
    assert_eq!(table(&second), expected);
    for pair in expected.windows(2) {
        assert!(pair[0].key < pair[1].key);
    }
}

#[test]
fn later_product_replaces_the_fields_of_an_earlier_one() {
    let lines = vec![product(7, "old title", "old text"), product(7, "new title", "new text")];
    let corpus = run(&[], &lines).expect("a sealed corpus");
    assert_eq!(table(&corpus), vec![entry("7-description", "new text"), entry("7-title", "new title")]);
    assert_eq!(corpus.postings.len(), 8);
}

#[test]
fn rerun_seals_the_same_artifacts() {
    let lines = vec![
        read_line(r#"{"title":"Café Noir","group_id":1,"ft":"black coffee"}"#),
        read_line(r#"{"title":"Thé Vert","group_id":2,"ft":"green tea"}"#),
    ];
    let first = run(&["coffee"], &lines).expect("a sealed corpus");
    let second = run(&["coffee"], &lines).expect("a sealed corpus");
    assert_eq!(postings(&first), postings(&second));
    assert_eq!(table(&first), table(&second));
    assert_eq!(first.run, second.run);
    assert_eq!(first.run.sst_file(), "run.sst");
}

#[test]
fn random_run_seals_the_same_corpus_under_its_own_name() {
    let lines = vec![product(3, "Crème brûlée", "dessert")];
    let named = run(&[], &lines).expect("a sealed corpus");
    let random = indexer(&[]).index(&lines).expect("a sealed corpus");
    assert_eq!(postings(&random), postings(&named));
    assert_eq!(table(&random), table(&named));
    assert_eq!(random.run.map_file(), format!("{}.map", random.run.name()));
    let words: Vec<&str> = random.run.name().split('-').collect();
    assert_eq!(words.len(), 2);
    for word in words {
        assert!(!word.is_empty());
        assert!(word.chars().all(|c| ('a'..='z').contains(&c)));
    }
}

#[test]
fn values_are_stored_as_written() {
    let lines = vec![product(4, "  Déjà   Vu  ", "")];
    let corpus = run(&[], &lines).expect("a sealed corpus");
    assert_eq!(table(&corpus), vec![entry("4-description", ""), entry("4-title", "  Déjà   Vu  ")]);
    assert_eq!(
        postings(&corpus),
        vec![posting("deja", 4, 0, 0), posting("déjà", 4, 0, 0), posting("vu", 4, 0, 1)]
    );
}

#[test]
fn surviving_words_keep_their_positions() {
    let indexer = indexer(&["b"]);
    let kept = indexer.surviving_words(&words("a b c b d"));
    assert_eq!(
        kept,
        vec![
            Token { index: 0, word: "a".to_string() },
            Token { index: 2, word: "c".to_string() },
            Token { index: 4, word: "d".to_string() },
        ]
    );
}

#[test]
fn coinciding_forms_give_one_term_for_every_character() {
    for code in 0u32..0x1_0000 {
        if let Some(c) = char::from_u32(code) {
            let word = c.to_string();
            let lower = word.to_lowercase();
            let terms = term_indexer::normalize::normalize(&word);
            assert_eq!(terms.exact, lower);
            let candidate = unidecode::unidecode(&word).to_lowercase();
            if candidate == lower {
                assert_eq!(terms.folded, None);
            } else {
                assert_eq!(terms.folded, Some(candidate));
            }
        }
    }
}

#[test]
fn flush_writes_the_buffer_in_key_order() {
    let mut fields = FieldBuffer::new();
    fields.insert(b"2-title".to_vec(), b"two".to_vec());
    fields.insert(b"10-title".to_vec(), b"ten".to_vec());
    fields.insert(b"2-title".to_vec(), b"deux".to_vec());
    let table = flush(&fields);
    assert_eq!(table.len(), 2);
    assert_eq!(table.get(0), Some(&entry("10-title", "ten")));
    assert_eq!(table.get(1), Some(&entry("2-title", "deux")));
    assert_eq!(flush(&FieldBuffer::new()).len(), 0);
}

#[test]
fn index_product_adds_to_what_is_there() {
    let indexer = indexer(&["of"]);
    let mut builder = PostingAccumulator::new();
    let mut fields = FieldBuffer::new();
    builder.insert("seed".to_string(), DocIndex { document: 0, attribute: 0, attribute_index: 0 });
    fields.insert(b"0-title".to_vec(), b"seed".to_vec());
    let record = match product(12, "Cup of Thé", "hot") {
        Line::Parsed(record) => record,
        Line::Malformed => unreachable!(),
    };
    indexer.index_product(&mut builder, &mut fields, &record);
    let index = builder.finish();
    let all: Vec<Posting> = (0..index.len()).map(|i| index.get(i).expect("a posting").clone()).collect();
    assert_eq!(
        all,
        vec![
            posting("seed", 0, 0, 0),
            posting("cup", 12, 0, 0),
            posting("the", 12, 0, 2),
            posting("thé", 12, 0, 2),
            posting("hot", 12, 1, 0),
        ]
    );
    assert_eq!(
        fields.listing(),
        &vec![entry("0-title", "seed"), entry("12-description", "hot"), entry("12-title", "Cup of Thé")]
    );
}
