//! Finds the entries that the issue service does not hold yet.
//!
//! A work item made from an entry carries the entry's identifier in its text.
//! An entry counts as logged when some work item of its issue holds the
//! entry's identifier anywhere in its text; nothing else links the two.

use vstd::prelude::*;
use crate::fetch::{fetched_items, fetched_view, spec_fetched_items, FetchedIssue, FetchedIssueView};
use crate::grouping::{groups_view, well_grouped, IssueGroup, IssueGroupView};
use crate::parser::{extended_view, ExtendedTimeEntry, ExtendedTimeEntryView};
use crate::text::{decimal, is_substring, str_contains, u64_to_string};
use crate::youtrack::{work_items_view, IssueWorkItem, IssueWorkItemView};

verus! {

/// The mark that an entry leaves in the text of its work item: the entry's
/// identifier in decimal.
pub open spec fn marker(entry_id: u64) -> Seq<char> {
    decimal(entry_id as nat)
}

/// The work item stands for the entry: its text holds the entry's marker.
pub open spec fn represents(entry: ExtendedTimeEntryView, item: IssueWorkItemView) -> bool {
    is_substring(marker(entry.toggl_time_entry.id), item.text)
}

/// Some work item among `items` stands for the entry.
pub open spec fn is_logged(entry: ExtendedTimeEntryView, items: Seq<IssueWorkItemView>) -> bool {
    exists|i: int| 0 <= i < items.len() && represents(entry, #[trigger] items[i])
}

/// The test that no work item among `items` stands for an entry.
pub open spec fn not_logged_in(items: Seq<IssueWorkItemView>) -> spec_fn(
    ExtendedTimeEntryView,
) -> bool {
    |entry: ExtendedTimeEntryView| !is_logged(entry, items)
}

/// The entries that no work item among `items` stands for, in their order.
pub open spec fn spec_missing_entries(
    entries: Seq<ExtendedTimeEntryView>,
    items: Seq<IssueWorkItemView>,
) -> Seq<ExtendedTimeEntryView> {
    entries.filter(not_logged_in(items))
}

/// The test that the fetch for a group's issue succeeded.
pub open spec fn is_fetched(fetched: Seq<FetchedIssueView>) -> spec_fn(IssueGroupView) -> bool {
    |group: IssueGroupView| spec_fetched_items(fetched, group.issue_id) is Some
}

/// The groups whose issue was fetched, in their order.
pub open spec fn spec_existent_groups(
    groups: Seq<IssueGroupView>,
    fetched: Seq<FetchedIssueView>,
) -> Seq<IssueGroupView> {
    groups.filter(is_fetched(fetched))
}

/// A group cut down to the entries that are not logged yet. A group whose
/// issue has no fetched record keeps all its entries.
pub open spec fn spec_missing_of_group(
    group: IssueGroupView,
    fetched: Seq<FetchedIssueView>,
) -> IssueGroupView {
    IssueGroupView {
        issue_id: group.issue_id,
        entries: match spec_fetched_items(fetched, group.issue_id) {
            Some(items) => spec_missing_entries(group.entries, items),
            None => group.entries,
        },
    }
}

/// The step from a group to its missing entries, as a function.
pub open spec fn missing_of(fetched: Seq<FetchedIssueView>) -> spec_fn(
    IssueGroupView,
) -> IssueGroupView {
    |group: IssueGroupView| spec_missing_of_group(group, fetched)
}

/// The test that a group holds an entry.
pub open spec fn has_entries() -> spec_fn(IssueGroupView) -> bool {
    |group: IssueGroupView| group.entries.len() > 0
}

/// The missing entries, by issue. First the groups whose issue was not
/// fetched are dropped; then each remaining group is cut down to the entries
/// that no work item of its issue stands for; then the groups left empty are
/// dropped.
pub open spec fn spec_missing_time_entries(
    groups: Seq<IssueGroupView>,
    fetched: Seq<FetchedIssueView>,
) -> Seq<IssueGroupView> {
    spec_existent_groups(groups, fetched).map_values(missing_of(fetched)).filter(has_entries())
}

/// Whether the work item stands for the entry: whether its text holds the
/// entry's identifier.
pub fn work_item_represents(entry: &ExtendedTimeEntry, item: &IssueWorkItem) -> (found: bool)
    ensures
        found == represents(entry@, item@),
{
    let mark = u64_to_string(entry.toggl_time_entry.id);
    str_contains(item.text.as_str(), mark.as_str())
}

/// Whether some work item among `items` stands for the entry.
pub fn already_logged(entry: &ExtendedTimeEntry, items: &Vec<IssueWorkItem>) -> (logged: bool)
    ensures
        logged == is_logged(entry@, work_items_view(items@)),
{
    let ghost views = work_items_view(items@);
    let mark = u64_to_string(entry.toggl_time_entry.id);
    let mut i: usize = 0;
    while i < items.len()
        invariant
            i <= items.len(),
            views == work_items_view(items@),
            mark@ == marker(entry.toggl_time_entry.id),
            forall|j: int| 0 <= j < i ==> !represents(entry@, #[trigger] views[j]),
        decreases items.len() - i,
    {
        assert(views[i as int] == items[i as int]@);
        if str_contains(items[i].text.as_str(), mark.as_str()) {
            assert(represents(entry@, views[i as int]));
            return true;
        }
        i += 1;
    }
    false
}

/// The entries that no work item among `items` stands for, in their order.
/// With no work items at all, every entry is missing.
pub fn missing_entries(entries: &Vec<ExtendedTimeEntry>, items: &Vec<IssueWorkItem>) -> (missing:
    Vec<ExtendedTimeEntry>)
    ensures
        extended_view(missing@) == spec_missing_entries(
            extended_view(entries@),
            work_items_view(items@),
        ),
{
    let ghost all = extended_view(entries@);
    let ghost pred = not_logged_in(work_items_view(items@));
    let mut missing: Vec<ExtendedTimeEntry> = Vec::new();
    let mut i: usize = 0;
    assert(all.take(0) =~= Seq::<ExtendedTimeEntryView>::empty());
    assert(all.take(0).filter(pred) =~= Seq::<ExtendedTimeEntryView>::empty()) by {
        all.take(0).lemma_filter_len(pred);
    }
    while i < entries.len()
        invariant
            i <= entries.len(),
            all == extended_view(entries@),
            pred == not_logged_in(work_items_view(items@)),
            extended_view(missing@) == all.take(i as int).filter(pred),
        decreases entries.len() - i,
    {
        let ghost before = extended_view(missing@);
        proof {
            assert(all.take(i + 1) =~= all.take(i as int).push(all[i as int]));
            all.take(i as int).lemma_filter_push(all[i as int], pred);
        }
        if !already_logged(&entries[i], items) {
            missing.push(entries[i].clone());
            assert(extended_view(missing@) =~= before.push(all[i as int]));
        }
        i += 1;
    }
    assert(all.take(entries.len() as int) =~= all);
    missing
}

/// A copy of a run of extended entries.
pub fn clone_entries(entries: &Vec<ExtendedTimeEntry>) -> (copy: Vec<ExtendedTimeEntry>)
    ensures
        copy@ == entries@,
{
    let mut copy: Vec<ExtendedTimeEntry> = Vec::new();
    let mut i: usize = 0;
    while i < entries.len()
        invariant
            i <= entries.len(),
            copy@ == entries@.take(i as int),
        decreases entries.len() - i,
    {
        copy.push(entries[i].clone());
        assert(copy@ =~= entries@.take(i + 1));
        i += 1;
    }
    assert(entries@.take(entries.len() as int) =~= entries@);
    copy
}

/// Drops the groups whose issue could not be fetched: whether such an issue
/// exists is not known, so nothing of it is kept.
pub fn existent_groups(groups: &Vec<IssueGroup>, fetched: &Vec<FetchedIssue>) -> (existent: Vec<
    IssueGroup,
>)
    ensures
        groups_view(existent@) == spec_existent_groups(groups_view(groups@), fetched_view(fetched@)),
{
    let ghost all = groups_view(groups@);
    let ghost pred = is_fetched(fetched_view(fetched@));
    let mut existent: Vec<IssueGroup> = Vec::new();
    let mut k: usize = 0;
    assert(all.take(0).filter(pred) =~= Seq::<IssueGroupView>::empty()) by {
        all.take(0).lemma_filter_len(pred);
    }
    while k < groups.len()
        invariant
            k <= groups.len(),
            all == groups_view(groups@),
            pred == is_fetched(fetched_view(fetched@)),
            groups_view(existent@) == all.take(k as int).filter(pred),
        decreases groups.len() - k,
    {
        let ghost before = groups_view(existent@);
        proof {
            assert(all.take(k + 1) =~= all.take(k as int).push(all[k as int]));
            all.take(k as int).lemma_filter_push(all[k as int], pred);
        }
        if fetched_items(fetched, &groups[k].issue_id).is_some() {
            let kept = IssueGroup {
                issue_id: groups[k].issue_id.clone(),
                entries: clone_entries(&groups[k].entries),
            };
            existent.push(kept);
            assert(groups_view(existent@) =~= before.push(all[k as int]));
        }
        k += 1;
    }
    assert(all.take(groups.len() as int) =~= all);
    existent
}

/// Cuts a group down to the entries that are not logged yet.
pub fn missing_of_group(group: &IssueGroup, fetched: &Vec<FetchedIssue>) -> (missing: IssueGroup)
    ensures
        missing@ == spec_missing_of_group(group@, fetched_view(fetched@)),
{
    let entries = match fetched_items(fetched, &group.issue_id) {
        Some(items) => missing_entries(&group.entries, items),
        None => clone_entries(&group.entries),
    };
    IssueGroup { issue_id: group.issue_id.clone(), entries }
}

/// The entries that have to be logged, by issue, given the grouped entries
/// and what the fetches brought. An issue whose fetch failed contributes
/// nothing; an issue fetched with no work items contributes all its entries;
/// an issue with nothing missing does not appear.
pub fn missing_time_entries(groups: &Vec<IssueGroup>, fetched: &Vec<FetchedIssue>) -> (missing:
    Vec<IssueGroup>)
    ensures
        groups_view(missing@) == spec_missing_time_entries(
            groups_view(groups@),
            fetched_view(fetched@),
        ),
{
    let existent = existent_groups(groups, fetched);
    let ghost cut = groups_view(existent@).map_values(missing_of(fetched_view(fetched@)));
    let ghost pred = has_entries();
    let mut missing: Vec<IssueGroup> = Vec::new();
    let mut k: usize = 0;
    assert(cut.take(0).filter(pred) =~= Seq::<IssueGroupView>::empty()) by {
        cut.take(0).lemma_filter_len(pred);
    }
    while k < existent.len()
        invariant
            k <= existent.len(),
            cut == groups_view(existent@).map_values(missing_of(fetched_view(fetched@))),
            pred == has_entries(),
            groups_view(missing@) == cut.take(k as int).filter(pred),
        decreases existent.len() - k,
    {
        let ghost before = groups_view(missing@);
        proof {
            assert(cut.take(k + 1) =~= cut.take(k as int).push(cut[k as int]));
            cut.take(k as int).lemma_filter_push(cut[k as int], pred);
        }
        let group = missing_of_group(&existent[k], fetched);
        assert(group@ == cut[k as int]);
        if group.entries.len() > 0 {
            missing.push(group);
            assert(groups_view(missing@) =~= before.push(cut[k as int]));
        }
        k += 1;
    }
    assert(cut.take(existent.len() as int) =~= cut);
    missing
}

/// The group at place `k` is where the missing group `found` comes from: its
/// issue was fetched, and `found` holds what it still misses, which is
/// something.
pub open spec fn comes_from(
    groups: Seq<IssueGroupView>,
    fetched: Seq<FetchedIssueView>,
    found: IssueGroupView,
    k: int,
) -> bool {
    &&& 0 <= k < groups.len()
    &&& spec_fetched_items(fetched, groups[k].issue_id) is Some
    &&& found == spec_missing_of_group(groups[k], fetched)
    &&& found.entries.len() > 0
}

/// Every group of missing entries comes from a group whose issue was fetched,
/// and holds exactly what that group still misses.
pub proof fn lemma_missing_group_origin(
    groups: Seq<IssueGroupView>,
    fetched: Seq<FetchedIssueView>,
    found: IssueGroupView,
)
    requires
        spec_missing_time_entries(groups, fetched).contains(found),
    ensures
        exists|k: int| comes_from(groups, fetched, found, k),
{
    let existent = spec_existent_groups(groups, fetched);
    let cut = existent.map_values(missing_of(fetched));
    let missing = cut.filter(has_entries());
    let at = choose|at: int| 0 <= at < missing.len() && missing[at] == found;
    cut.lemma_filter_pred(has_entries(), at);
    cut.lemma_filter_contains_rev(has_entries(), found);
    let j = choose|j: int| 0 <= j < cut.len() && cut[j] == found;
    groups.lemma_filter_pred(is_fetched(fetched), j);
    assert(existent.contains(existent[j]));
    groups.lemma_filter_contains_rev(is_fetched(fetched), existent[j]);
    let k = choose|k: int| 0 <= k < groups.len() && groups[k] == existent[j];
    assert(comes_from(groups, fetched, found, k));
}

/// A group whose issue was fetched and which still misses something is among
/// the groups of missing entries, with exactly what it misses.
pub proof fn lemma_missing_group_kept(
    groups: Seq<IssueGroupView>,
    fetched: Seq<FetchedIssueView>,
    k: int,
)
    requires
        0 <= k < groups.len(),
        spec_fetched_items(fetched, groups[k].issue_id) is Some,
        spec_missing_of_group(groups[k], fetched).entries.len() > 0,
    ensures
        spec_missing_time_entries(groups, fetched).contains(
            spec_missing_of_group(groups[k], fetched),
        ),
{
    let existent = spec_existent_groups(groups, fetched);
    let cut = existent.map_values(missing_of(fetched));
    groups.lemma_filter_contains(is_fetched(fetched), k);
    let j = choose|j: int| 0 <= j < existent.len() && existent[j] == groups[k];
    assert(cut[j] == spec_missing_of_group(groups[k], fetched));
    cut.lemma_filter_contains(has_entries(), j);
}

/// A failed fetch touches its own issue only. An issue whose fetch failed
/// has no group among the missing entries, so nothing is created for it. An
/// issue that was fetched is reconciled as if no fetch had failed: where
/// its group misses something, the missing entries hold a group for it, and
/// whatever group they hold for it holds exactly the entries of the issue
/// that none of its work items stands for.
pub proof fn lemma_fetch_failure_is_isolated(
    groups: Seq<IssueGroupView>,
    fetched: Seq<FetchedIssueView>,
    failed: Seq<char>,
    k: int,
)
    requires
        well_grouped(groups),
        spec_fetched_items(fetched, failed) is None,
        0 <= k < groups.len(),
        spec_fetched_items(fetched, groups[k].issue_id) is Some,
    ensures
        forall|j: int|
            0 <= j < spec_missing_time_entries(groups, fetched).len() ==> (
            #[trigger] spec_missing_time_entries(groups, fetched)[j]).issue_id != failed,
        forall|j: int|
            0 <= j < spec_missing_time_entries(groups, fetched).len() && (
            #[trigger] spec_missing_time_entries(groups, fetched)[j]).issue_id
                == groups[k].issue_id ==> spec_missing_time_entries(groups, fetched)[j].entries
                == spec_missing_entries(
                groups[k].entries,
                spec_fetched_items(fetched, groups[k].issue_id)->0,
            ),
        spec_missing_entries(
            groups[k].entries,
            spec_fetched_items(fetched, groups[k].issue_id)->0,
        ).len() > 0 ==> spec_missing_time_entries(groups, fetched).contains(
            IssueGroupView {
                issue_id: groups[k].issue_id,
                entries: spec_missing_entries(
                    groups[k].entries,
                    spec_fetched_items(fetched, groups[k].issue_id)->0,
                ),
            },
        ),
{
    let missing = spec_missing_time_entries(groups, fetched);
    assert forall|j: int| 0 <= j < missing.len() implies (#[trigger] missing[j]).issue_id
        != failed by {
        assert(missing.contains(missing[j]));
        lemma_missing_group_origin(groups, fetched, missing[j]);
    }
    assert forall|j: int|
        0 <= j < missing.len() && (#[trigger] missing[j]).issue_id
            == groups[k].issue_id implies missing[j].entries == spec_missing_entries(
        groups[k].entries,
        spec_fetched_items(fetched, groups[k].issue_id)->0,
    ) by {
        assert(missing.contains(missing[j]));
        lemma_missing_group_origin(groups, fetched, missing[j]);
        let from = choose|from: int| comes_from(groups, fetched, missing[j], from);
        if from < k {
            assert(groups[from].issue_id != groups[k].issue_id);
        } else if k < from {
            assert(groups[k].issue_id != groups[from].issue_id);
        }
    }
    if spec_missing_of_group(groups[k], fetched).entries.len() > 0 {
        lemma_missing_group_kept(groups, fetched, k);
    }
}

} // verus!
