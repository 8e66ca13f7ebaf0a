//! Turns missing entries into the work items to create.
//!
//! The issue service counts whole minutes. An entry's seconds are rounded
//! down to minutes, never up; an entry of less than a minute has no duration
//! the service could hold and is passed over.

use vstd::prelude::*;
use crate::clock::{div_floor, utc_now_millis};
use crate::grouping::{groups_view, IssueGroup, IssueGroupView};
use crate::parser::{extended_view, ExtendedTimeEntry, ExtendedTimeEntryView};
use crate::reconcile::marker;
use crate::text::u64_to_string;
use crate::youtrack::{Duration, IssueWorkItem, IssueWorkItemView, User, UserView};

verus! {

/// Seconds in a minute.
pub const SECONDS_PER_MINUTE: i64 = 60;

/// What stands between the entry's identifier and its text in a work item.
pub const TEXT_SEPARATOR: &'static str = " - ";

/// The whole minutes in a number of seconds, rounded towards minus infinity.
pub open spec fn spec_duration_minutes(seconds: i64) -> int {
    seconds / 60
}

/// The whole minutes in a number of seconds. The result is never rounded up:
/// it is the largest number of minutes that the seconds cover.
pub fn duration_minutes(seconds: i64) -> (minutes: i64)
    ensures
        minutes == spec_duration_minutes(seconds),
        minutes * 60 <= seconds < minutes * 60 + 60,
{
    div_floor(seconds, SECONDS_PER_MINUTE)
}

/// The entry has a duration that a work item can hold: at least one minute,
/// and no more minutes than the service's 32-bit count takes.
pub open spec fn is_creatable(entry: ExtendedTimeEntryView) -> bool {
    1 <= spec_duration_minutes(entry.toggl_time_entry.duration) <= u32::MAX
}

/// The text of the work item made from an entry: the entry's identifier, the
/// separator, and the description without its issue identifier.
pub open spec fn spec_work_item_text(entry: ExtendedTimeEntryView) -> Seq<char> {
    marker(entry.toggl_time_entry.id) + TEXT_SEPARATOR@ + entry.description
}

/// The work item made from an entry by `user` at the instant `now`, where the
/// entry has a duration that a work item can hold.
pub open spec fn spec_work_item(
    entry: ExtendedTimeEntryView,
    user: UserView,
    now: i64,
) -> Option<IssueWorkItemView> {
    if is_creatable(entry) {
        Some(
            IssueWorkItemView {
                id: Seq::empty(),
                author: user,
                creator: user,
                text: spec_work_item_text(entry),
                created: now,
                duration: Duration {
                    minutes: spec_duration_minutes(entry.toggl_time_entry.duration) as u32,
                },
                date: entry.toggl_time_entry.start,
                issue: None,
            },
        )
    } else {
        None
    }
}

/// Builds the work item for an entry: authored and created by `user`, made at
/// `now`, dated at the entry's start, lasting the entry's whole minutes.
/// `None` for an entry of less than a minute, which is passed over, and for
/// one of more minutes than the service's count takes.
pub fn work_item_for(entry: &ExtendedTimeEntry, user: &User, now: i64) -> (item: Option<
    IssueWorkItem,
>)
    ensures
        match item {
            Some(built) => spec_work_item(entry@, user@, now) == Some(built@),
            None => spec_work_item(entry@, user@, now) is None,
        },
{
    let minutes = duration_minutes(entry.toggl_time_entry.duration);
    if minutes < 1 || minutes > u32::MAX as i64 {
        return None;
    }
    let text = u64_to_string(entry.toggl_time_entry.id).concat(TEXT_SEPARATOR).concat(
        entry.description.as_str(),
    );
    Some(
        IssueWorkItem {
            id: String::new(),
            author: user.clone(),
            creator: user.clone(),
            text,
            created: now,
            duration: Duration { minutes: minutes as u32 },
            date: entry.toggl_time_entry.start,
            issue: None,
        },
    )
}

/// A work item that is to be created, and the issue it goes to.
#[derive(Debug)]
pub struct PendingCreation {
    pub issue_id: String,
    pub work_item: IssueWorkItem,
}

/// What a `PendingCreation` holds, as plain values.
pub struct PendingCreationView {
    pub issue_id: Seq<char>,
    pub work_item: IssueWorkItemView,
}

impl View for PendingCreation {
    type V = PendingCreationView;

    open spec fn view(&self) -> PendingCreationView {
        PendingCreationView { issue_id: self.issue_id@, work_item: self.work_item@ }
    }
}

impl Clone for PendingCreation {
    fn clone(&self) -> (copy: Self)
        ensures
            copy == *self,
    {
        PendingCreation { issue_id: self.issue_id.clone(), work_item: self.work_item.clone() }
    }
}

/// The views of a run of pending creations, in order.
pub open spec fn pending_view(pending: Seq<PendingCreation>) -> Seq<PendingCreationView> {
    Seq::new(pending.len(), |i: int| pending[i]@)
}

/// The creation planned for an entry: its work item, filed under the issue
/// that the entry names; nothing for an entry that is passed over.
pub open spec fn spec_plan(entry: ExtendedTimeEntryView, user: UserView, now: i64) -> Option<
    PendingCreationView,
> {
    match spec_work_item(entry, user, now) {
        Some(item) => Some(PendingCreationView { issue_id: entry.issue_id, work_item: item }),
        None => None,
    }
}

/// The step from an entry to its planned creation, as a function.
pub open spec fn planning(user: UserView, now: i64) -> spec_fn(ExtendedTimeEntryView) -> Option<
    PendingCreationView,
> {
    |entry: ExtendedTimeEntryView| spec_plan(entry, user, now)
}

/// The creations planned for a run of entries, in their order.
pub open spec fn spec_plan_creations(
    entries: Seq<ExtendedTimeEntryView>,
    user: UserView,
    now: i64,
) -> Seq<PendingCreationView> {
    entries.filter_map(planning(user, now))
}

/// The step from a group to its entries, as a function.
pub open spec fn entries_in() -> spec_fn(IssueGroupView) -> Seq<ExtendedTimeEntryView> {
    |group: IssueGroupView| group.entries
}

/// The entries of all groups in one run: group after group, each group's
/// entries in their order.
pub open spec fn spec_all_entries(groups: Seq<IssueGroupView>) -> Seq<ExtendedTimeEntryView> {
    groups.map_values(entries_in()).flatten()
}

/// The creations planned for the missing entries, in the order of the groups
/// and of the entries in each.
pub open spec fn spec_pending_creations(
    missing: Seq<IssueGroupView>,
    user: UserView,
    now: i64,
) -> Seq<PendingCreationView> {
    spec_plan_creations(spec_all_entries(missing), user, now)
}

/// The entries of all groups in one run.
pub fn all_entries(groups: &Vec<IssueGroup>) -> (entries: Vec<ExtendedTimeEntry>)
    ensures
        extended_view(entries@) == spec_all_entries(groups_view(groups@)),
{
    let ghost lists = groups_view(groups@).map_values(entries_in());
    let mut entries: Vec<ExtendedTimeEntry> = Vec::new();
    let mut k: usize = 0;
    assert(lists.take(0) =~= Seq::<Seq<ExtendedTimeEntryView>>::empty());
    while k < groups.len()
        invariant
            k <= groups.len(),
            lists == groups_view(groups@).map_values(entries_in()),
            extended_view(entries@) == lists.take(k as int).flatten(),
        decreases groups.len() - k,
    {
        let ghost before = extended_view(entries@);
        let ghost list = lists[k as int];
        proof {
            assert(lists.take(k + 1) =~= lists.take(k as int).push(list));
            lists.take(k as int).lemma_flatten_push(list);
            assert(list == extended_view(groups[k as int].entries@));
        }
        let group = &groups[k];
        let mut i: usize = 0;
        while i < group.entries.len()
            invariant
                i <= group.entries.len(),
                list == extended_view(group.entries@),
                extended_view(entries@) == before + list.take(i as int),
            decreases group.entries.len() - i,
        {
            let ghost held = extended_view(entries@);
            entries.push(group.entries[i].clone());
            assert(list[i as int] == group.entries[i as int]@);
            assert(extended_view(entries@) =~= held.push(list[i as int]));
            assert(list.take(i + 1) =~= list.take(i as int).push(list[i as int]));
            assert(extended_view(entries@) =~= before + list.take(i + 1));
            i += 1;
        }
        assert(list.take(group.entries.len() as int) =~= list);
        k += 1;
    }
    assert(lists.take(groups.len() as int) =~= lists);
    entries
}

/// Plans the creation for each entry that has a duration a work item can
/// hold, in the order of the entries, and passes over the others.
pub fn plan_creations(entries: &Vec<ExtendedTimeEntry>, user: &User, now: i64) -> (pending: Vec<
    PendingCreation,
>)
    ensures
        pending_view(pending@) == spec_plan_creations(extended_view(entries@), user@, now),
{
    let ghost all = extended_view(entries@);
    let mut pending: Vec<PendingCreation> = Vec::new();
    let mut i: usize = 0;
    assert(all.take(0) =~= Seq::<ExtendedTimeEntryView>::empty());
    while i < entries.len()
        invariant
            i <= entries.len(),
            all == extended_view(entries@),
            pending_view(pending@) == spec_plan_creations(all.take(i as int), user@, now),
        decreases entries.len() - i,
    {
        let ghost before = pending_view(pending@);
        proof {
            all.lemma_filter_map_take_succ(planning(user@, now), i as int);
        }
        match work_item_for(&entries[i], user, now) {
            Some(work_item) => {
                let planned = PendingCreation { issue_id: entries[i].issue_id.clone(), work_item };
                pending.push(planned);
                assert(pending_view(pending@) =~= before + seq![planned@]);
            },
            None => {
                assert(before + Seq::<PendingCreationView>::empty() =~= before);
            },
        }
        i += 1;
    }
    assert(all.take(entries.len() as int) =~= all);
    pending
}

/// The full list of what is about to be created, for display and approval
/// before anything is sent: one work item for each missing entry that has a
/// duration a work item can hold, made by `user` at the instant `now`.
pub fn pending_creations(missing: &Vec<IssueGroup>, user: &User, now: i64) -> (pending: Vec<
    PendingCreation,
>)
    ensures
        pending_view(pending@) == spec_pending_creations(groups_view(missing@), user@, now),
{
    let entries = all_entries(missing);
    plan_creations(&entries, user, now)
}

/// The list of what is about to be created, made at the current instant: for
/// some reading `now` of the clock, what `pending_creations` gives for it.
pub fn pending_creations_now(missing: &Vec<IssueGroup>, user: &User) -> (pending: Vec<
    PendingCreation,
>)
    ensures
        exists|now: i64|
            pending_view(pending@) == #[trigger] spec_pending_creations(
                groups_view(missing@),
                user@,
                now,
            ),
{
    let now = utc_now_millis();
    pending_creations(missing, user, now)
}

/// Seconds are rounded down to whole minutes and never up: the minutes are
/// the most that the seconds cover. So an entry of up to 59 seconds has no
/// minute and is passed over, as is every entry of less; and an entry of 60 to
/// 119 seconds gets a work item of one minute.
pub proof fn lemma_minutes_round_down(entry: ExtendedTimeEntryView, user: UserView, now: i64)
    ensures
        spec_duration_minutes(entry.toggl_time_entry.duration) * 60
            <= entry.toggl_time_entry.duration,
        entry.toggl_time_entry.duration < spec_duration_minutes(entry.toggl_time_entry.duration)
            * 60 + 60,
        0 <= entry.toggl_time_entry.duration <= 59 ==> spec_duration_minutes(
            entry.toggl_time_entry.duration,
        ) == 0,
        entry.toggl_time_entry.duration <= 59 ==> spec_work_item(entry, user, now) is None,
        60 <= entry.toggl_time_entry.duration <= 119 ==> spec_duration_minutes(
            entry.toggl_time_entry.duration,
        ) == 1,
        60 <= entry.toggl_time_entry.duration <= 119 ==> spec_work_item(entry, user, now) is Some
            && spec_work_item(entry, user, now)->0.duration.minutes == 1,
{
}

} // verus!
