use toggl_youtrack::fetch::{
    fetched_items, find_fetched, successful_fetches, FetchOutcome, FetchedIssue,
    DEFAULT_FETCH_CONCURRENCY,
};
use toggl_youtrack::grouping::{group_entries, IssueGroup};
use toggl_youtrack::parser::ExtendedTimeEntry;
use toggl_youtrack::reconcile::{
    already_logged, existent_groups, missing_entries, missing_of_group, missing_time_entries,
    work_item_represents,
};
use toggl_youtrack::toggl::TimeEntry;
use toggl_youtrack::youtrack::{Duration, IssueWorkItem, User};

fn extended(id: u64, issue_id: &str, description: &str) -> ExtendedTimeEntry {
    ExtendedTimeEntry {
        toggl_time_entry: TimeEntry {
            at: String::new(),
            description: Some(format!("{} {}", issue_id, description)),
            duration: 600,
            id,
            start: 1_709_287_200_000,
            stop: None,
        },
        issue_id: issue_id.to_string(),
        description: description.to_string(),
    }
}

fn user() -> User {
    User { login: "jane".to_string(), id: "1-1".to_string() }
}

fn item(text: &str) -> IssueWorkItem {
    IssueWorkItem {
        id: "140-1".to_string(),
        author: user(),
        creator: user(),
        text: text.to_string(),
        created: 1_709_290_000_000,
        duration: Duration { minutes: 10 },
        date: 1_709_287_200_000,
        issue: None,
    }
}

fn fetched(issue_id: &str, texts: &[&str]) -> FetchedIssue {
    let mut work_items = Vec::new();
    for text in texts {
        work_items.push(item(text));
    }
    FetchedIssue { issue_id: issue_id.to_string(), work_items }
}

fn ids_of(group: &IssueGroup) -> Vec<u64> {
    let mut ids = Vec::new();
    for entry in &group.entries {
        ids.push(entry.toggl_time_entry.id);
    }
    ids
}

#[test]
fn default_fan_out_is_bounded() {
    assert_eq!(DEFAULT_FETCH_CONCURRENCY, 10);
}

#[test]
fn work_item_stands_for_entry_whose_id_it_holds() {
    let entry = extended(42, "PROJ-1", "design");
    assert!(work_item_represents(&entry, &item("42 - design")));
    assert!(work_item_represents(&entry, &item("see 42")));
    assert!(work_item_represents(&entry, &item("x42y")));
    assert!(work_item_represents(&entry, &item("1425")));
}

#[test]
fn work_item_does_not_stand_for_another_entry() {
    let entry = extended(42, "PROJ-1", "design");
    assert!(!work_item_represents(&entry, &item("43 - design")));
    assert!(!work_item_represents(&entry, &item("4 2 - design")));
    assert!(!work_item_represents(&entry, &item("")));
    assert!(!work_item_represents(&entry, &item("design")));
}

#[test]
fn any_one_work_item_is_enough() {
    let entry = extended(7, "PROJ-1", "design");
    assert!(already_logged(&entry, &vec![item("5 - a"), item("7 - b"), item("7 - c")]));
    assert!(already_logged(&entry, &vec![item("7 - b")]));
    assert!(!already_logged(&entry, &vec![item("5 - a"), item("6 - b")]));
    assert!(!already_logged(&entry, &Vec::new()));
}

#[test]
fn missing_entries_are_those_no_item_stands_for() {
    let entries = vec![
        extended(1, "PROJ-1", "a"),
        extended(2, "PROJ-1", "b"),
        extended(3, "PROJ-1", "c"),
    ];
    let missing = missing_entries(&entries, &vec![item("2 - b")]);
    assert_eq!(missing.len(), 2);
    assert_eq!(missing[0].toggl_time_entry.id, 1);
    assert_eq!(missing[1].toggl_time_entry.id, 3);
    assert_eq!(missing[1].description, "c");
}

#[test]
fn with_no_work_items_everything_is_missing() {
    let entries = vec![extended(1, "PROJ-1", "a"), extended(2, "PROJ-1", "b")];
    let missing = missing_entries(&entries, &Vec::new());
    assert_eq!(missing.len(), 2);
    assert_eq!(missing[0].toggl_time_entry.id, 1);
    assert_eq!(missing[1].toggl_time_entry.id, 2);
}

#[test]
fn successful_fetches_drop_the_failures() {
    let kept = successful_fetches(vec![
        FetchOutcome { issue_id: "A-1".to_string(), work_items: None },
        FetchOutcome { issue_id: "B-2".to_string(), work_items: Some(vec![item("1 - x")]) },
        FetchOutcome { issue_id: "C-3".to_string(), work_items: Some(Vec::new()) },
        FetchOutcome { issue_id: "D-4".to_string(), work_items: None },
    ]);
    assert_eq!(kept.len(), 2);
    assert_eq!(kept[0].issue_id, "B-2");
    assert_eq!(kept[0].work_items.len(), 1);
    assert_eq!(kept[0].work_items[0].text, "1 - x");
    assert_eq!(kept[0].work_items[0].id, "140-1");
    assert_eq!(kept[0].work_items[0].duration.minutes, 10);
    assert_eq!(kept[1].issue_id, "C-3");
    assert!(kept[1].work_items.is_empty());
    assert!(successful_fetches(Vec::new()).is_empty());
}

#[test]
fn fetched_items_are_found_by_issue() {
    let all = vec![fetched("B-2", &["1 - x"]), fetched("C-3", &[]), fetched("B-2", &["9 - y"])];
    assert_eq!(find_fetched(&all, &"B-2".to_string()), Some(0));
    assert_eq!(find_fetched(&all, &"C-3".to_string()), Some(1));
    assert_eq!(find_fetched(&all, &"A-1".to_string()), None);
    assert_eq!(fetched_items(&all, &"B-2".to_string()).unwrap()[0].text, "1 - x");
    assert!(fetched_items(&all, &"C-3".to_string()).unwrap().is_empty());
    assert!(fetched_items(&all, &"A-1".to_string()).is_none());
}

#[test]
fn groups_of_unfetched_issues_are_dropped() {
    let groups = group_entries(vec![
        extended(1, "A-1", "a"),
        extended(2, "B-2", "b"),
        extended(3, "C-3", "c"),
    ]);
    let existent = existent_groups(&groups, &vec![fetched("C-3", &[]), fetched("A-1", &["1"])]);
    assert_eq!(existent.len(), 2);
    assert_eq!(existent[0].issue_id, "A-1");
    assert_eq!(existent[1].issue_id, "C-3");
    assert_eq!(ids_of(&existent[0]), vec![1]);
    assert_eq!(ids_of(&existent[1]), vec![3]);
}

#[test]
fn group_is_cut_down_to_its_missing_entries() {
    let groups = group_entries(vec![extended(1, "A-1", "a"), extended(2, "A-1", "b")]);
    let cut = missing_of_group(&groups[0], &vec![fetched("A-1", &["2 - b"])]);
    assert_eq!(cut.issue_id, "A-1");
    assert_eq!(ids_of(&cut), vec![1]);
    let whole = missing_of_group(&groups[0], &Vec::new());
    assert_eq!(ids_of(&whole), vec![1, 2]);
}

#[test]
fn issue_fetched_without_work_items_misses_everything() {
    let groups = group_entries(vec![extended(1, "A-1", "a"), extended(2, "A-1", "b")]);
    let missing = missing_time_entries(&groups, &vec![fetched("A-1", &[])]);
    assert_eq!(missing.len(), 1);
    assert_eq!(missing[0].issue_id, "A-1");
    assert_eq!(ids_of(&missing[0]), vec![1, 2]);
}

#[test]
fn issue_with_nothing_missing_does_not_appear() {
    let groups = group_entries(vec![
        extended(1, "A-1", "a"),
        extended(2, "A-1", "b"),
        extended(3, "B-2", "c"),
    ]);
    let missing = missing_time_entries(
        &groups,
        &vec![fetched("A-1", &["1 - a", "2 - b"]), fetched("B-2", &["1 - a"])],
    );
    assert_eq!(missing.len(), 1);
    assert_eq!(missing[0].issue_id, "B-2");
    assert_eq!(ids_of(&missing[0]), vec![3]);
}

#[test]
fn work_items_count_for_their_own_issue_only() {
    let groups = group_entries(vec![extended(1, "A-1", "a"), extended(1, "B-2", "a")]);
    let missing =
        missing_time_entries(&groups, &vec![fetched("A-1", &["1 - a"]), fetched("B-2", &[])]);
    assert_eq!(missing.len(), 1);
    assert_eq!(missing[0].issue_id, "B-2");
}

#[test]
fn nothing_fetched_means_nothing_missing() {
    let groups = group_entries(vec![extended(1, "A-1", "a")]);
    assert!(missing_time_entries(&groups, &Vec::new()).is_empty());
    assert!(missing_time_entries(&Vec::new(), &vec![fetched("A-1", &[])]).is_empty());
}

#[test]
fn failed_fetch_touches_its_own_issue_only() {
    let groups = group_entries(vec![
        extended(1, "A-1", "a"),
        extended(2, "B-2", "b"),
        extended(3, "A-1", "c"),
        extended(4, "B-2", "d"),
    ]);
    let kept = successful_fetches(vec![
        FetchOutcome { issue_id: "A-1".to_string(), work_items: None },
        FetchOutcome { issue_id: "B-2".to_string(), work_items: Some(vec![item("2 - b")]) },
    ]);
    let missing = missing_time_entries(&groups, &kept);
    assert_eq!(missing.len(), 1);
    assert_eq!(missing[0].issue_id, "B-2");
    assert_eq!(ids_of(&missing[0]), vec![4]);

    // What is missing of B-2 is the same with the fetch of A-1 succeeding.
    let both = successful_fetches(vec![
        FetchOutcome { issue_id: "A-1".to_string(), work_items: Some(Vec::new()) },
        FetchOutcome { issue_id: "B-2".to_string(), work_items: Some(vec![item("2 - b")]) },
    ]);
    let with_both = missing_time_entries(&groups, &both);
    assert_eq!(with_both.len(), 2);
    assert_eq!(with_both[1].issue_id, "B-2");
    assert_eq!(ids_of(&with_both[1]), vec![4]);
}
