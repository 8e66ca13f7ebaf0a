//! The issue service's records and the addresses of its endpoints.
//!
//! Instants are held as milliseconds since the Unix epoch, the form in which
//! the service sends and takes them.

use vstd::prelude::*;

verus! {

/// Address of the issue service.
pub const BASE_URL: &'static str = "https://systemscape.youtrack.cloud";

/// The fields asked of the service for each work item.
pub const WORK_ITEMS_FIELDS: &'static str =
    "author(id,login),creator(id,login),date,created(minutes),duration(minutes),id,name,text,issue(idReadable)";

/// A length of time as the issue service counts it: whole minutes.
#[derive(Debug, Clone, Copy)]
pub struct Duration {
    pub minutes: u32,
}

/// The readable identifier of an issue, such as `PROJ-1`.
#[derive(Debug)]
pub struct IssueId {
    pub id_readable: String,
}

/// A kind of work that an item can be filed under.
#[derive(Debug)]
pub struct WorkItemType {
    pub id: String,
    pub name: String,
}

/// An account of the issue service.
#[derive(Debug)]
pub struct User {
    pub login: String,
    pub id: String,
}

/// One record of time spent on an issue.
#[derive(Debug)]
pub struct IssueWorkItem {
    /// Given by the service; empty on an item that is yet to be created.
    pub id: String,
    pub author: User,
    pub creator: User,
    pub text: String,
    /// When the item was made, in milliseconds since the epoch.
    pub created: i64,
    pub duration: Duration,
    /// When the work was done, in milliseconds since the epoch.
    pub date: i64,
    /// Set by the service only.
    pub issue: Option<IssueId>,
}

/// What a `WorkItemType` holds, as plain text.
pub struct WorkItemTypeView {
    pub id: Seq<char>,
    pub name: Seq<char>,
}

/// What a `User` holds, as plain text.
pub struct UserView {
    pub login: Seq<char>,
    pub id: Seq<char>,
}

/// What an `IssueWorkItem` holds, as plain values.
pub struct IssueWorkItemView {
    pub id: Seq<char>,
    pub author: UserView,
    pub creator: UserView,
    pub text: Seq<char>,
    pub created: i64,
    pub duration: Duration,
    pub date: i64,
    pub issue: Option<Seq<char>>,
}

impl View for IssueId {
    type V = Seq<char>;

    open spec fn view(&self) -> Seq<char> {
        self.id_readable@
    }
}

impl View for WorkItemType {
    type V = WorkItemTypeView;

    open spec fn view(&self) -> WorkItemTypeView {
        WorkItemTypeView { id: self.id@, name: self.name@ }
    }
}

impl View for User {
    type V = UserView;

    open spec fn view(&self) -> UserView {
        UserView { login: self.login@, id: self.id@ }
    }
}

impl View for IssueWorkItem {
    type V = IssueWorkItemView;

    open spec fn view(&self) -> IssueWorkItemView {
        IssueWorkItemView {
            id: self.id@,
            author: self.author@,
            creator: self.creator@,
            text: self.text@,
            created: self.created,
            duration: self.duration,
            date: self.date,
            issue: match self.issue {
                Some(issue) => Some(issue@),
                None => None,
            },
        }
    }
}

/// The views of a run of work items, in order.
pub open spec fn work_items_view(items: Seq<IssueWorkItem>) -> Seq<IssueWorkItemView> {
    Seq::new(items.len(), |i: int| items[i]@)
}

impl Clone for IssueId {
    fn clone(&self) -> (copy: Self)
        ensures
            copy == *self,
    {
        IssueId { id_readable: self.id_readable.clone() }
    }
}

impl Clone for WorkItemType {
    fn clone(&self) -> (copy: Self)
        ensures
            copy == *self,
    {
        WorkItemType { id: self.id.clone(), name: self.name.clone() }
    }
}

impl Clone for User {
    fn clone(&self) -> (copy: Self)
        ensures
            copy == *self,
    {
        User { login: self.login.clone(), id: self.id.clone() }
    }
}

impl Clone for IssueWorkItem {
    fn clone(&self) -> (copy: Self)
        ensures
            copy == *self,
    {
        let issue = match &self.issue {
            Some(issue) => Some(issue.clone()),
            None => None,
        };
        IssueWorkItem {
            id: self.id.clone(),
            author: self.author.clone(),
            creator: self.creator.clone(),
            text: self.text.clone(),
            created: self.created,
            duration: self.duration,
            date: self.date,
            issue,
        }
    }
}

/// The address of the current user's record, as text.
pub open spec fn spec_current_user_url() -> Seq<char> {
    BASE_URL@ + "/api/users/me?fields=id,login"@
}

/// The address of an issue's work items, as text.
pub open spec fn spec_work_items_url(issue_id: Seq<char>) -> Seq<char> {
    BASE_URL@ + "/api/issues/"@ + issue_id + "/timeTracking/workItems?fields="@
        + WORK_ITEMS_FIELDS@
}

/// The address from which the current user's record is read.
pub fn current_user_url() -> (url: String)
    ensures
        url@ == spec_current_user_url(),
{
    String::from_str(BASE_URL).concat("/api/users/me?fields=id,login")
}

/// The address under which the work items of `issue_id` are read and created.
pub fn work_items_url(issue_id: &str) -> (url: String)
    ensures
        url@ == spec_work_items_url(issue_id@),
{
    String::from_str(BASE_URL).concat("/api/issues/").concat(issue_id).concat(
        "/timeTracking/workItems?fields=",
    ).concat(WORK_ITEMS_FIELDS)
}

} // verus!
