use toggl_youtrack::parser::{
    extend_entries, extend_entry, issue_and_text, parse_description, REGEX_STRING,
};
use toggl_youtrack::toggl::TimeEntry;

fn entry(id: u64, description: Option<&str>, duration: i64) -> TimeEntry {
    TimeEntry {
        at: "2024-03-01T10:00:00+00:00".to_string(),
        description: description.map(|d| d.to_string()),
        duration,
        id,
        start: 1_709_287_200_000,
        stop: None,
    }
}

#[test]
fn test_regex() {
    let (issue_id, text) = parse_description("DIT-2 My Description").unwrap();

    assert_eq!(issue_id, "DIT-2");
    assert_eq!(text, "My Description");
}

#[test]
fn pattern_is_anchored_at_the_start() {
    assert_eq!(REGEX_STRING, r"^(\w+-\d+) (.*)");
}

#[test]
fn description_without_issue_is_dropped() {
    assert!(parse_description("no issue here").is_none());
}

#[test]
fn empty_description_is_dropped() {
    assert!(parse_description("").is_none());
}

#[test]
fn issue_without_following_space_is_dropped() {
    assert!(parse_description("PROJ-1").is_none());
    assert!(parse_description("PROJ-1design").is_none());
}

#[test]
fn issue_without_digits_is_dropped() {
    assert!(parse_description("PROJ- design").is_none());
    assert!(parse_description("PROJ-x design").is_none());
}

#[test]
fn issue_without_token_is_dropped() {
    assert!(parse_description("-12 design").is_none());
}

#[test]
fn issue_must_stand_at_the_start() {
    assert!(parse_description("x PROJ-1 design").is_none());
    assert!(parse_description(" PROJ-1 design").is_none());
    assert!(parse_description("A-B-1 design").is_none());
}

#[test]
fn remainder_may_be_empty() {
    let (issue_id, text) = parse_description("PROJ-12 ").unwrap();
    assert_eq!(issue_id, "PROJ-12");
    assert_eq!(text, "");
}

#[test]
fn remainder_is_kept_verbatim() {
    let (issue_id, text) = parse_description("ab_9-007   two  spaces - and-dashes ").unwrap();
    assert_eq!(issue_id, "ab_9-007");
    assert_eq!(text, "  two  spaces - and-dashes ");
}

#[test]
fn remainder_ends_with_the_line() {
    let (issue_id, text) = parse_description("PROJ-1 first line\nsecond line").unwrap();
    assert_eq!(issue_id, "PROJ-1");
    assert_eq!(text, "first line");
}

#[test]
fn token_takes_word_characters_of_any_script() {
    let (issue_id, text) = parse_description("ÄÖ-5 über").unwrap();
    assert_eq!(issue_id, "ÄÖ-5");
    assert_eq!(text, "über");
}

#[test]
fn groups_short_of_both_captures_give_nothing() {
    assert!(issue_and_text(None).is_none());
    assert!(issue_and_text(Some(vec![])).is_none());
    assert!(issue_and_text(Some(vec![Some("A-1 x".to_string()), Some("A-1".to_string())]))
        .is_none());
    assert!(issue_and_text(Some(vec![
        Some("A-1 x".to_string()),
        None,
        Some("x".to_string())
    ]))
    .is_none());
    assert!(issue_and_text(Some(vec![
        Some("A-1 x".to_string()),
        Some("A-1".to_string()),
        None
    ]))
    .is_none());
}

#[test]
fn groups_with_empty_identifier_give_nothing() {
    assert!(issue_and_text(Some(vec![
        Some(" x".to_string()),
        Some(String::new()),
        Some("x".to_string())
    ]))
    .is_none());
}

#[test]
fn groups_with_both_captures_give_them() {
    let (issue_id, text) = issue_and_text(Some(vec![
        Some("A-1 x".to_string()),
        Some("A-1".to_string()),
        Some("x".to_string()),
    ]))
    .unwrap();
    assert_eq!(issue_id, "A-1");
    assert_eq!(text, "x");
}

#[test]
fn extend_entry_keeps_the_entry_whole() {
    let extended = extend_entry(entry(7, Some("PROJ-3 cleanup"), 125)).unwrap();
    assert_eq!(extended.issue_id, "PROJ-3");
    assert_eq!(extended.description, "cleanup");
    assert_eq!(extended.toggl_time_entry.id, 7);
    assert_eq!(extended.toggl_time_entry.duration, 125);
    assert_eq!(extended.toggl_time_entry.start, 1_709_287_200_000);
    assert_eq!(extended.toggl_time_entry.description.as_deref(), Some("PROJ-3 cleanup"));
    assert_eq!(extended.toggl_time_entry.at, "2024-03-01T10:00:00+00:00");
    assert!(extended.toggl_time_entry.stop.is_none());
}

#[test]
fn missing_description_counts_as_empty() {
    assert!(extend_entry(entry(1, None, 60)).is_none());
}

#[test]
fn extend_entries_keeps_order_and_drops_the_rest() {
    let extended = extend_entries(vec![
        entry(1, Some("PROJ-1 design"), 125),
        entry(2, Some("no issue here"), 90),
        entry(3, Some("PROJ-1 design"), 30),
        entry(4, None, 10),
        entry(5, Some("OTHER-9 call"), 600),
    ]);
    assert_eq!(extended.len(), 3);
    assert_eq!(extended[0].toggl_time_entry.id, 1);
    assert_eq!(extended[1].toggl_time_entry.id, 3);
    assert_eq!(extended[2].toggl_time_entry.id, 5);
    assert_eq!(extended[0].issue_id, "PROJ-1");
    assert_eq!(extended[1].issue_id, "PROJ-1");
    assert_eq!(extended[2].issue_id, "OTHER-9");
    assert_eq!(extended[2].description, "call");
}

#[test]
fn extend_entries_of_nothing_is_nothing() {
    assert!(extend_entries(Vec::new()).is_empty());
}
