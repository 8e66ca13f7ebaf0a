use toggl_youtrack::toggl::{
    authorization_header, basic_authorization, clone_optional, time_entries_url, TimeEntry,
    TIME_ENTRIES_URL,
};
use toggl_youtrack::youtrack::{
    current_user_url, work_items_url, Duration, IssueId, IssueWorkItem, User, WorkItemType,
    BASE_URL, WORK_ITEMS_FIELDS,
};

#[test]
fn authorization_header_encodes_token_and_password_word() {
    assert_eq!(authorization_header("abc").unwrap(), "Basic YWJjOmFwaV90b2tlbg==");
    assert_eq!(authorization_header("t0ken").unwrap(), "Basic dDBrZW46YXBpX3Rva2Vu");
}

#[test]
fn authorization_header_of_empty_token() {
    assert_eq!(authorization_header("").unwrap(), "Basic OmFwaV90b2tlbg==");
}

#[test]
fn authorization_header_encodes_the_bytes_of_the_text() {
    assert_eq!(authorization_header("ü").unwrap(), "Basic w7w6YXBpX3Rva2Vu");
}

#[test]
fn basic_authorization_puts_the_scheme_first() {
    assert_eq!(basic_authorization("QQ=="), "Basic QQ==");
    assert_eq!(basic_authorization(""), "Basic ");
}

#[test]
fn time_entries_url_ends_with_the_instant() {
    assert_eq!(
        time_entries_url(1_701_511_200),
        "https://api.track.toggl.com/api/v9/me/time_entries?since=1701511200"
    );
    assert_eq!(
        time_entries_url(0),
        "https://api.track.toggl.com/api/v9/me/time_entries?since=0"
    );
    assert_eq!(
        time_entries_url(-85_400),
        "https://api.track.toggl.com/api/v9/me/time_entries?since=-85400"
    );
    assert_eq!(time_entries_url(5), format!("{}5", TIME_ENTRIES_URL));
}

#[test]
fn current_user_url_asks_for_id_and_login() {
    assert_eq!(
        current_user_url(),
        "https://systemscape.youtrack.cloud/api/users/me?fields=id,login"
    );
}

#[test]
fn work_items_url_names_the_issue_and_the_fields() {
    assert_eq!(
        work_items_url("SO-106"),
        "https://systemscape.youtrack.cloud/api/issues/SO-106/timeTracking/workItems?fields=author(id,login),creator(id,login),date,created(minutes),duration(minutes),id,name,text,issue(idReadable)"
    );
    assert_eq!(
        work_items_url("ABC-123"),
        format!(
            "{}/api/issues/ABC-123/timeTracking/workItems?fields={}",
            BASE_URL, WORK_ITEMS_FIELDS
        )
    );
}

#[test]
fn clone_optional_copies_the_text() {
    assert_eq!(clone_optional(&Some("abc".to_string())), Some("abc".to_string()));
    assert_eq!(clone_optional(&None), None);
}

#[test]
fn records_are_copied_field_by_field() {
    let entry = TimeEntry {
        at: "2024-03-01T10:00:00+00:00".to_string(),
        description: Some("PROJ-1 design".to_string()),
        duration: 125,
        id: 9,
        start: 1_709_287_200_000,
        stop: Some("2024-03-01T10:02:05+00:00".to_string()),
    };
    let copy = entry.clone();
    assert_eq!(copy.at, entry.at);
    assert_eq!(copy.description, entry.description);
    assert_eq!(copy.duration, 125);
    assert_eq!(copy.id, 9);
    assert_eq!(copy.start, 1_709_287_200_000);
    assert_eq!(copy.stop, entry.stop);

    let user = User { login: "jane".to_string(), id: "1-1".to_string() };
    let item = IssueWorkItem {
        id: "140-7".to_string(),
        author: user.clone(),
        creator: User { login: "joe".to_string(), id: "1-2".to_string() },
        text: "9 - design".to_string(),
        created: 1_709_290_000_000,
        duration: Duration { minutes: 2 },
        date: 1_709_287_200_000,
        issue: Some(IssueId { id_readable: "PROJ-1".to_string() }),
    };
    let copy = item.clone();
    assert_eq!(copy.id, "140-7");
    assert_eq!(copy.author.login, "jane");
    assert_eq!(copy.author.id, "1-1");
    assert_eq!(copy.creator.login, "joe");
    assert_eq!(copy.creator.id, "1-2");
    assert_eq!(copy.text, "9 - design");
    assert_eq!(copy.created, 1_709_290_000_000);
    assert_eq!(copy.duration.minutes, 2);
    assert_eq!(copy.date, 1_709_287_200_000);
    assert_eq!(copy.issue.unwrap().id_readable, "PROJ-1");

    let kind = WorkItemType { id: "7-0".to_string(), name: "Development".to_string() };
    let copy = kind.clone();
    assert_eq!(copy.id, "7-0");
    assert_eq!(copy.name, "Development");
}
