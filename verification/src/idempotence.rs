//! Running twice creates nothing twice.
//!
//! A work item made from an entry holds the entry's identifier at the front
//! of its text. Once the items of a run stand among the work items of their
//! issues, the next run finds each of them and plans no creation again.

use vstd::prelude::*;
use crate::creator::{
    entries_in, is_creatable, planning, spec_all_entries, spec_pending_creations, spec_plan,
    spec_work_item, spec_work_item_text, PendingCreationView,
};
use crate::fetch::{fetched_ids, spec_fetched_index, spec_fetched_items, FetchedIssueView};
use crate::grouping::{well_grouped, IssueGroupView};
use crate::parser::ExtendedTimeEntryView;
use crate::reconcile::{
    comes_from, is_logged, lemma_missing_group_kept, lemma_missing_group_origin, marker,
    not_logged_in, represents, spec_missing_of_group, spec_missing_time_entries,
};
use crate::sequences::{lemma_filter_map_has, lemma_filter_map_none, lemma_flatten_from, lemma_flatten_has};
use crate::text::lemma_occurs_in_concat;
use crate::youtrack::{IssueWorkItemView, UserView};

verus! {

/// The test that a creation goes to `issue_id`.
pub open spec fn goes_to(issue_id: Seq<char>) -> spec_fn(PendingCreationView) -> bool {
    |creation: PendingCreationView| creation.issue_id == issue_id
}

/// The step from a creation to its work item, as a function.
pub open spec fn item_of() -> spec_fn(PendingCreationView) -> IssueWorkItemView {
    |creation: PendingCreationView| creation.work_item
}

/// The work items created for `issue_id`, in the order of their creation.
pub open spec fn created_for(created: Seq<PendingCreationView>, issue_id: Seq<char>) -> Seq<
    IssueWorkItemView,
> {
    created.filter(goes_to(issue_id)).map_values(item_of())
}

/// A fetched record after the creations: the work items it held, followed
/// by those created for its issue.
pub open spec fn spec_add_created(
    record: FetchedIssueView,
    created: Seq<PendingCreationView>,
) -> FetchedIssueView {
    FetchedIssueView {
        issue_id: record.issue_id,
        work_items: record.work_items + created_for(created, record.issue_id),
    }
}

/// The step from a fetched record to the record after the creations, as a
/// function.
pub open spec fn adding(created: Seq<PendingCreationView>) -> spec_fn(
    FetchedIssueView,
) -> FetchedIssueView {
    |record: FetchedIssueView| spec_add_created(record, created)
}

/// What a later fetch finds once the creations went through: every record
/// with the work items created for its issue added to it.
pub open spec fn spec_with_created(
    fetched: Seq<FetchedIssueView>,
    created: Seq<PendingCreationView>,
) -> Seq<FetchedIssueView> {
    fetched.map_values(adding(created))
}

/// Every entry in every group has a duration that a work item can hold.
pub open spec fn all_creatable(groups: Seq<IssueGroupView>) -> bool {
    forall|k: int, i: int|
        0 <= k < groups.len() && 0 <= i < groups[k].entries.len() ==> is_creatable(
            #[trigger] groups[k].entries[i],
        )
}

/// The work item made from an entry stands for that entry.
pub proof fn lemma_own_item_represents(entry: ExtendedTimeEntryView, user: UserView, now: i64)
    requires
        is_creatable(entry),
    ensures
        represents(entry, spec_work_item(entry, user, now)->0),
{
    let mark = marker(entry.toggl_time_entry.id);
    let text = spec_work_item_text(entry);
    let tail = text.subrange(mark.len() as int, text.len() as int);
    lemma_occurs_in_concat(Seq::empty(), mark, tail);
    assert(Seq::<char>::empty() + mark + tail =~= text);
}

/// What stands for an entry among some work items still does among more.
pub proof fn lemma_logged_among_more(
    entry: ExtendedTimeEntryView,
    before: Seq<IssueWorkItemView>,
    added: Seq<IssueWorkItemView>,
)
    ensures
        is_logged(entry, before) ==> is_logged(entry, before + added),
        is_logged(entry, added) ==> is_logged(entry, before + added),
{
    let all = before + added;
    if is_logged(entry, before) {
        let i = choose|i: int| 0 <= i < before.len() && represents(entry, #[trigger] before[i]);
        assert(represents(entry, all[i]));
    }
    if is_logged(entry, added) {
        let i = choose|i: int| 0 <= i < added.len() && represents(entry, #[trigger] added[i]);
        assert(represents(entry, all[before.len() + i]));
    }
}

/// After the creations an issue is fetched if it was fetched before, and its
/// work items are those it had, followed by those created for it.
pub proof fn lemma_fetched_items_with_created(
    fetched: Seq<FetchedIssueView>,
    created: Seq<PendingCreationView>,
    issue_id: Seq<char>,
)
    ensures
        spec_fetched_items(spec_with_created(fetched, created), issue_id) == match spec_fetched_items(
            fetched,
            issue_id,
        ) {
            Some(items) => Some(items + created_for(created, issue_id)),
            None => None,
        },
{
    let later = spec_with_created(fetched, created);
    assert(fetched_ids(later) =~= fetched_ids(fetched));
    fetched_ids(fetched).index_of_first_ensures(issue_id);
    assert(spec_fetched_index(later, issue_id) == spec_fetched_index(fetched, issue_id));
}

/// In the run after the creations, no entry that is still missing has a
/// duration that a work item can hold.
pub proof fn lemma_rerun_leaves_only_uncreatable(
    groups: Seq<IssueGroupView>,
    fetched: Seq<FetchedIssueView>,
    user: UserView,
    now: i64,
    j: int,
    i: int,
)
    requires
        well_grouped(groups),
        0 <= j < spec_missing_time_entries(
            groups,
            spec_with_created(
                fetched,
                spec_pending_creations(spec_missing_time_entries(groups, fetched), user, now),
            ),
        ).len(),
        0 <= i < spec_missing_time_entries(
            groups,
            spec_with_created(
                fetched,
                spec_pending_creations(spec_missing_time_entries(groups, fetched), user, now),
            ),
        )[j].entries.len(),
    ensures
        !is_creatable(
            spec_missing_time_entries(
                groups,
                spec_with_created(
                    fetched,
                    spec_pending_creations(spec_missing_time_entries(groups, fetched), user, now),
                ),
            )[j].entries[i],
        ),
{
    let missing = spec_missing_time_entries(groups, fetched);
    let created = spec_pending_creations(missing, user, now);
    let later = spec_with_created(fetched, created);
    let still = spec_missing_time_entries(groups, later);
    let found = still[j];
    let entry = found.entries[i];

    // Where the group of the entry comes from, and what its issue holds.
    assert(still.contains(found));
    lemma_missing_group_origin(groups, later, found);
    let k = choose|k: int| comes_from(groups, later, found, k);
    let group = groups[k];
    lemma_fetched_items_with_created(fetched, created, group.issue_id);
    let had = spec_fetched_items(fetched, group.issue_id)->0;
    let added = created_for(created, group.issue_id);
    let has = had + added;
    assert(spec_fetched_items(later, group.issue_id) == Some(has));
    assert(found.entries == group.entries.filter(not_logged_in(has)));

    // The entry stands in that group and is not logged, now or before.
    group.entries.lemma_filter_pred(not_logged_in(has), i);
    assert(!is_logged(entry, has));
    assert(found.entries.contains(entry));
    group.entries.lemma_filter_contains_rev(not_logged_in(has), entry);
    let at = choose|at: int| 0 <= at < group.entries.len() && group.entries[at] == entry;
    assert(entry.issue_id == group.issue_id);
    lemma_logged_among_more(entry, had, added);
    assert(!is_logged(entry, had));

    // So the first run held it among its missing entries.
    let first = spec_missing_of_group(group, fetched);
    group.entries.lemma_filter_contains(not_logged_in(had), at);
    assert(first.entries.contains(entry));
    let in_first = choose|n: int| 0 <= n < first.entries.len() && first.entries[n] == entry;
    lemma_missing_group_kept(groups, fetched, k);
    let place = choose|place: int| 0 <= place < missing.len() && missing[place] == first;
    let lists = missing.map_values(entries_in());
    assert(lists[place] == first.entries);
    lemma_flatten_has(lists, place, in_first);
    let all = spec_all_entries(missing);
    assert(all.contains(entry));
    let n = choose|n: int| 0 <= n < all.len() && all[n] == entry;

    if is_creatable(entry) {
        // Then the first run made its work item, which the later fetch holds.
        let creation = spec_plan(entry, user, now)->0;
        lemma_filter_map_has(all, planning(user, now), n);
        assert(created.contains(creation));
        let c = choose|c: int| 0 <= c < created.len() && created[c] == creation;
        created.lemma_filter_contains(goes_to(group.issue_id), c);
        let sent = created.filter(goes_to(group.issue_id));
        let s = choose|s: int| 0 <= s < sent.len() && sent[s] == creation;
        assert(added[s] == creation.work_item);
        assert(has[had.len() + s] == creation.work_item);
        lemma_own_item_represents(entry, user, now);
        assert(represents(entry, has[had.len() + s]));
        assert(is_logged(entry, has));
    }
}

/// Running again creates nothing again. Take the missing entries of a run,
/// the work items planned for them, and what a later fetch finds once those
/// items stand among the work items of their issues. The run on that plans no
/// creation at all, whoever runs it and whenever.
pub proof fn lemma_second_run_creates_nothing(
    groups: Seq<IssueGroupView>,
    fetched: Seq<FetchedIssueView>,
    user: UserView,
    now: i64,
    later_user: UserView,
    later_now: i64,
)
    requires
        well_grouped(groups),
    ensures
        spec_pending_creations(
            spec_missing_time_entries(
                groups,
                spec_with_created(
                    fetched,
                    spec_pending_creations(spec_missing_time_entries(groups, fetched), user, now),
                ),
            ),
            later_user,
            later_now,
        ) == Seq::<PendingCreationView>::empty(),
{
    let created = spec_pending_creations(spec_missing_time_entries(groups, fetched), user, now);
    let still = spec_missing_time_entries(groups, spec_with_created(fetched, created));
    let lists = still.map_values(entries_in());
    let all = spec_all_entries(still);
    assert forall|n: int| 0 <= n < all.len() implies planning(later_user, later_now)(
        #[trigger] all[n],
    ) is None by {
        assert(lists.flatten().contains(all[n]));
        lemma_flatten_from(lists, all[n]);
        let (j, i) = choose|j: int, i: int|
            0 <= j < lists.len() && 0 <= i < lists[j].len() && #[trigger] lists[j][i] == all[n];
        lemma_rerun_leaves_only_uncreatable(groups, fetched, user, now, j, i);
    }
    lemma_filter_map_none(all, planning(later_user, later_now));
}

/// Where every entry has a duration that a work item can hold, the run after
/// the creations misses nothing: its missing entries are empty.
pub proof fn lemma_second_run_misses_nothing(
    groups: Seq<IssueGroupView>,
    fetched: Seq<FetchedIssueView>,
    user: UserView,
    now: i64,
)
    requires
        well_grouped(groups),
        all_creatable(groups),
    ensures
        spec_missing_time_entries(
            groups,
            spec_with_created(
                fetched,
                spec_pending_creations(spec_missing_time_entries(groups, fetched), user, now),
            ),
        ) == Seq::<IssueGroupView>::empty(),
{
    let created = spec_pending_creations(spec_missing_time_entries(groups, fetched), user, now);
    let later = spec_with_created(fetched, created);
    let still = spec_missing_time_entries(groups, later);
    if still.len() > 0 {
        let found = still[0];
        assert(still.contains(found));
        lemma_missing_group_origin(groups, later, found);
        let k = choose|k: int| comes_from(groups, later, found, k);
        let entry = found.entries[0];
        lemma_rerun_leaves_only_uncreatable(groups, fetched, user, now, 0, 0);
        assert(found.entries.contains(entry));
        let has = spec_fetched_items(later, groups[k].issue_id)->0;
        groups[k].entries.lemma_filter_contains_rev(not_logged_in(has), entry);
        let at = choose|at: int| 0 <= at < groups[k].entries.len() && groups[k].entries[at] == entry;
        assert(is_creatable(groups[k].entries[at]));
    }
    assert(still =~= Seq::<IssueGroupView>::empty());
}

} // verus!
