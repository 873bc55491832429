use spagreppi::{keep_marked, search, search_case_insensitive, search_with_config, Config, NO_MATCH, USAGE};

#[test]
fn one_result() {
    let query = "overrated";
    let content = "\
        Super mario is the
most overrated game
In the history of 2d Overrated games";

    assert_eq!(Ok(vec!["most overrated game"]), search(query, content));
}

#[test]
fn one_result_case_insensitive() {
    let query = "overrated";
    let content = "\
        super mario is the
mOst oveRrated gAme
in the history of 2d games";

    assert_eq!(Ok(vec!["mOst oveRrated gAme"]), search_case_insensitive(query, content));
}

#[test]
fn sensitive_keeps_every_matching_line_in_order() {
    let content = "alpha beta\ngamma\nbeta\nBETA";
    assert_eq!(Ok(vec!["alpha beta", "beta"]), search("beta", content));
}

#[test]
fn insensitive_keeps_every_folded_match_in_order() {
    let content = "alpha Beta\ngamma\nbeta\nBETA";
    assert_eq!(Ok(vec!["alpha Beta", "beta", "BETA"]), search_case_insensitive("bEtA", content));
}

#[test]
fn insensitive_folds_the_query_too() {
    let content = "Super mario is the\nmost overrated game\nIn the history of 2d Overrated games";
    assert_eq!(
        Ok(vec!["most overrated game", "In the history of 2d Overrated games"]),
        search_case_insensitive("OVERRATED", content)
    );
}

#[test]
fn upper_and_lower_query_give_the_same_lines() {
    let content = "One Fish\ntwo fish\nred FISH\nblue whale";
    assert_eq!(search_case_insensitive("FISH", content), search_case_insensitive("fish", content));
}

#[test]
fn no_match_is_an_error_sensitive() {
    let content = "Super mario is the\nmost overrated game";
    assert_eq!(Err(NO_MATCH), search("zelda", content));
}

#[test]
fn no_match_is_an_error_insensitive() {
    let content = "Super mario is the\nmost overrated game";
    assert_eq!(Err(NO_MATCH), search_case_insensitive("ZELDA", content));
    assert_eq!(NO_MATCH, "No result found for query.");
}

#[test]
fn sensitive_does_not_fold() {
    assert_eq!(Err(NO_MATCH), search("Overrated", "most overrated game"));
}

#[test]
fn empty_content_has_no_match() {
    assert_eq!(Err(NO_MATCH), search("", ""));
    assert_eq!(Err(NO_MATCH), search_case_insensitive("a", ""));
}

#[test]
fn empty_query_matches_every_line() {
    assert_eq!(Ok(vec!["a", "", "b"]), search("", "a\n\nb\n"));
}

#[test]
fn crlf_line_endings_are_removed() {
    assert_eq!(Ok(vec!["one x", "two x"]), search("x", "one x\r\ntwo x\r\nthree"));
}

#[test]
fn keep_marked_selects_in_order() {
    let lines = vec!["a", "b", "c"];
    assert_eq!(Ok(vec!["a", "c"]), keep_marked(&lines, &vec![true, false, true]));
    assert_eq!(Err(NO_MATCH), keep_marked(&lines, &vec![false, false, false]));
}

fn args(v: &[&str]) -> Vec<String> {
    v.iter().map(|s| s.to_string()).collect()
}

#[test]
fn config_reads_query_and_filename() {
    let c = Config::new(&args(&["prog", "needle", "poem.txt"]), false).unwrap();
    assert_eq!(c.query, "needle");
    assert_eq!(c.filename, "poem.txt");
    assert!(c.case_sensitive);
}

#[test]
fn config_variable_present_means_case_insensitive() {
    let c = Config::new(&args(&["prog", "needle", "poem.txt", "extra"]), true).unwrap();
    assert!(!c.case_sensitive);
}

#[test]
fn config_missing_filename_is_an_error() {
    assert!(matches!(Config::new(&args(&["prog", "needle"]), false), Err(USAGE)));
    assert!(Config::new(&args(&["prog"]), true).is_err());
    assert_eq!(USAGE, "You must enter in this order: query and filename");
}

#[test]
fn config_picks_the_matcher() {
    let content = "Mario\nmario";
    let sensitive = Config::new(&args(&["prog", "mario", "f"]), false).unwrap();
    let insensitive = Config::new(&args(&["prog", "mario", "f"]), true).unwrap();
    assert_eq!(Ok(vec!["mario"]), search_with_config(&sensitive, content));
    assert_eq!(Ok(vec!["Mario", "mario"]), search_with_config(&insensitive, content));
}
