use projectpad::search::{
    escape_like, join_words, search_parse, search_spec_for, split_search, split_words,
    starts_with_project_filter, SearchSpec, PROJECT_FILTER_PREFIX,
};

#[test]
fn search_parse_no_project() {
    assert_eq!(
        SearchSpec {
            search_pattern: "%test no project%".to_string(),
            project_pattern: None
        },
        search_parse("test no project")
    );
}

#[test]
fn search_parse_with_project() {
    assert_eq!(
        SearchSpec {
            search_pattern: "%item1 test item3%".to_string(),
            project_pattern: Some("project".to_string())
        },
        search_parse("item1 test prj:prOject item3")
    );
}

#[test]
fn search_parse_escapes_percent_signs() {
    assert_eq!(search_parse("50% off").search_pattern, "%50\\% off%");
    assert_eq!(search_parse("%").search_pattern, "%\\%%");
}

#[test]
fn search_parse_of_empty_text() {
    assert_eq!(
        search_parse(""),
        SearchSpec { search_pattern: "%%".to_string(), project_pattern: None }
    );
}

#[test]
fn search_parse_project_filter_at_the_start() {
    assert_eq!(
        search_parse("prj:Vault db"),
        SearchSpec { search_pattern: "%db%".to_string(), project_pattern: Some("vault".to_string()) }
    );
}

#[test]
fn search_parse_takes_the_first_project_filter() {
    assert_eq!(
        search_parse("a prj:One b prj:Two"),
        SearchSpec { search_pattern: "%a b%".to_string(), project_pattern: Some("one".to_string()) }
    );
}

#[test]
fn search_parse_project_filter_alone() {
    assert_eq!(
        search_parse("prj:"),
        SearchSpec { search_pattern: "%%".to_string(), project_pattern: Some(String::new()) }
    );
}

#[test]
fn search_parse_prefix_inside_a_word_is_no_filter() {
    assert_eq!(
        search_parse("xprj:abc"),
        SearchSpec { search_pattern: "%xprj:abc%".to_string(), project_pattern: None }
    );
}

#[test]
fn search_parse_keeps_spaces_without_filter() {
    assert_eq!(search_parse("a  b ").search_pattern, "%a  b %");
}

#[test]
fn search_parse_lowercases_beyond_ascii() {
    assert_eq!(search_parse("prj:ÉCOLE").project_pattern, Some("école".to_string()));
}

#[test]
fn split_words_keeps_empty_words() {
    assert_eq!(split_words("a  b "), vec!["a", "", "b", ""]);
    assert_eq!(split_words(""), vec![""]);
    assert_eq!(split_words("héllo wörld"), vec!["héllo", "wörld"]);
}

#[test]
fn join_words_puts_one_space_between() {
    assert_eq!(join_words(&vec!["a".to_string(), "".to_string(), "b".to_string()]), "a  b");
    assert_eq!(join_words(&vec![]), "");
    assert_eq!(join_words(&vec!["solo".to_string()]), "solo");
}

#[test]
fn project_filter_prefix_is_recognised() {
    assert_eq!(PROJECT_FILTER_PREFIX, "prj:");
    assert!(starts_with_project_filter("prj:x"));
    assert!(starts_with_project_filter("prj:"));
    assert!(!starts_with_project_filter("prj"));
    assert!(!starts_with_project_filter("Prj:x"));
}

#[test]
fn escape_like_touches_only_percent_signs() {
    assert_eq!(escape_like("a%b_c\\"), "a\\%b_c\\");
    assert_eq!(escape_like(""), "");
}

#[test]
fn split_search_returns_the_filter_as_typed() {
    assert_eq!(
        split_search("x prj:MiXed y"),
        ("x y".to_string(), Some("MiXed".to_string()))
    );
    assert_eq!(split_search("plain text"), ("plain text".to_string(), None));
}

#[test]
fn search_spec_for_wraps_the_text() {
    assert_eq!(
        search_spec_for("a%", Some("p".to_string())),
        SearchSpec { search_pattern: "%a\\%%".to_string(), project_pattern: Some("p".to_string()) }
    );
}
