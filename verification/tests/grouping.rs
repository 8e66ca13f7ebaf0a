use toggl_youtrack::grouping::{find_group, group_entries, issue_ids, IssueGroup};
use toggl_youtrack::parser::ExtendedTimeEntry;
use toggl_youtrack::toggl::TimeEntry;

fn extended(id: u64, issue_id: &str, description: &str) -> ExtendedTimeEntry {
    ExtendedTimeEntry {
        toggl_time_entry: TimeEntry {
            at: String::new(),
            description: Some(format!("{} {}", issue_id, description)),
            duration: 600,
            id,
            start: 1_709_287_200_000,
            stop: None,
        },
        issue_id: issue_id.to_string(),
        description: description.to_string(),
    }
}

fn ids_of(group: &IssueGroup) -> Vec<u64> {
    let mut ids = Vec::new();
    for entry in &group.entries {
        ids.push(entry.toggl_time_entry.id);
    }
    ids
}

#[test]
fn nothing_groups_to_nothing() {
    assert!(group_entries(Vec::new()).is_empty());
}

#[test]
fn one_entry_makes_one_group() {
    let groups = group_entries(vec![extended(1, "PROJ-1", "design")]);
    assert_eq!(groups.len(), 1);
    assert_eq!(groups[0].issue_id, "PROJ-1");
    assert_eq!(ids_of(&groups[0]), vec![1]);
}

#[test]
fn entries_of_one_issue_share_a_group_in_arrival_order() {
    let groups = group_entries(vec![
        extended(5, "PROJ-1", "a"),
        extended(3, "PROJ-1", "b"),
        extended(9, "PROJ-1", "c"),
    ]);
    assert_eq!(groups.len(), 1);
    assert_eq!(ids_of(&groups[0]), vec![5, 3, 9]);
}

#[test]
fn groups_stand_in_order_of_first_occurrence() {
    let groups = group_entries(vec![
        extended(1, "B-2", "a"),
        extended(2, "A-1", "b"),
        extended(3, "B-2", "c"),
        extended(4, "C-3", "d"),
        extended(5, "A-1", "e"),
    ]);
    assert_eq!(groups.len(), 3);
    assert_eq!(groups[0].issue_id, "B-2");
    assert_eq!(groups[1].issue_id, "A-1");
    assert_eq!(groups[2].issue_id, "C-3");
    assert_eq!(ids_of(&groups[0]), vec![1, 3]);
    assert_eq!(ids_of(&groups[1]), vec![2, 5]);
    assert_eq!(ids_of(&groups[2]), vec![4]);
}

#[test]
fn grouping_is_a_partition() {
    let input = vec![
        extended(1, "B-2", "a"),
        extended(2, "A-1", "b"),
        extended(3, "B-2", "c"),
        extended(4, "C-3", "d"),
        extended(5, "A-1", "e"),
        extended(3, "B-2", "c"),
    ];
    let groups = group_entries(input);

    // Every entry stands under its own issue, and no group is empty.
    let mut seen: Vec<u64> = Vec::new();
    for group in &groups {
        assert!(!group.entries.is_empty());
        for entry in &group.entries {
            assert_eq!(entry.issue_id, group.issue_id);
            seen.push(entry.toggl_time_entry.id);
        }
    }
    // No issue has two groups.
    for j in 0..groups.len() {
        for k in (j + 1)..groups.len() {
            assert_ne!(groups[j].issue_id, groups[k].issue_id);
        }
    }
    // The groups hold what came in, each entry as often as it came.
    seen.sort();
    assert_eq!(seen, vec![1, 2, 3, 3, 4, 5]);
}

#[test]
fn issue_identifiers_are_told_apart_exactly() {
    let groups = group_entries(vec![
        extended(1, "PROJ-1", "a"),
        extended(2, "PROJ-10", "b"),
        extended(3, "proj-1", "c"),
    ]);
    assert_eq!(groups.len(), 3);
}

#[test]
fn find_group_gives_the_place_of_an_issue() {
    let groups = group_entries(vec![
        extended(1, "B-2", "a"),
        extended(2, "A-1", "b"),
        extended(3, "B-2", "c"),
    ]);
    assert_eq!(find_group(&groups, &"B-2".to_string()), Some(0));
    assert_eq!(find_group(&groups, &"A-1".to_string()), Some(1));
    assert_eq!(find_group(&groups, &"C-3".to_string()), None);
    assert_eq!(find_group(&Vec::new(), &"B-2".to_string()), None);
}

#[test]
fn issue_ids_lists_each_issue_once() {
    let groups = group_entries(vec![
        extended(1, "B-2", "a"),
        extended(2, "A-1", "b"),
        extended(3, "B-2", "c"),
    ]);
    assert_eq!(issue_ids(&groups), vec!["B-2".to_string(), "A-1".to_string()]);
    assert!(issue_ids(&Vec::new()).is_empty());
}
