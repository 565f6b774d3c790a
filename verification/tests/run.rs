use term_indexer::run::RunContext;

#[test]
fn artifacts_are_named_from_the_run() {
    let run = RunContext::new("focused-turing".to_string());
    assert_eq!(run.name(), "focused-turing");
    assert_eq!(run.map_file(), "focused-turing.map");
    assert_eq!(run.idx_file(), "focused-turing.idx");
    assert_eq!(run.sst_file(), "focused-turing.sst");
}

#[test]
fn empty_run_name_gives_bare_extensions() {
    let run = RunContext::new(String::new());
    assert_eq!(run.name(), "");
    assert_eq!(run.map_file(), ".map");
    assert_eq!(run.idx_file(), ".idx");
    assert_eq!(run.sst_file(), ".sst");
}

#[test]
fn random_run_names_its_three_artifacts_alike() {
    let run = RunContext::random();
    let name = run.name().to_string();
    assert_eq!(run.map_file(), format!("{}.map", name));
    assert_eq!(run.idx_file(), format!("{}.idx", name));
    assert_eq!(run.sst_file(), format!("{}.sst", name));
}

#[test]
fn random_run_name_is_a_word_a_hyphen_and_a_word() {
    for _ in 0..200 {
        let run = RunContext::random();
        let name = run.name();
        let parts: Vec<&str> = name.split('-').collect();
        assert_eq!(parts.len(), 2);
        for part in parts {
            assert!(!part.is_empty());
            assert!(part.chars().all(|c| ('a'..='z').contains(&c)));
        }
    }
}
