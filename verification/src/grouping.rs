//! Partitions the extended entries by the issue they name.
//!
//! The groups stand in the order in which their issues first occur, and each
//! group holds its entries in the order in which they came.

use vstd::prelude::*;
use vstd::multiset::Multiset;
use crate::parser::{extended_view, ExtendedTimeEntry, ExtendedTimeEntryView};

verus! {

/// The entries that name one issue.
#[derive(Debug)]
pub struct IssueGroup {
    pub issue_id: String,
    pub entries: Vec<ExtendedTimeEntry>,
}

/// What an `IssueGroup` holds, as plain values.
pub struct IssueGroupView {
    pub issue_id: Seq<char>,
    pub entries: Seq<ExtendedTimeEntryView>,
}

impl View for IssueGroup {
    type V = IssueGroupView;

    open spec fn view(&self) -> IssueGroupView {
        IssueGroupView { issue_id: self.issue_id@, entries: extended_view(self.entries@) }
    }
}

/// The views of a run of groups, in order.
pub open spec fn groups_view(groups: Seq<IssueGroup>) -> Seq<IssueGroupView> {
    Seq::new(groups.len(), |k: int| groups[k]@)
}

/// The test that an entry names `issue_id`.
pub open spec fn names_issue(issue_id: Seq<char>) -> spec_fn(ExtendedTimeEntryView) -> bool {
    |e: ExtendedTimeEntryView| e.issue_id == issue_id
}

/// The entries that name `issue_id`, in the order in which they stand.
pub open spec fn entries_of(entries: Seq<ExtendedTimeEntryView>, issue_id: Seq<char>) -> Seq<
    ExtendedTimeEntryView,
> {
    entries.filter(names_issue(issue_id))
}

/// The issues that the entries name, each once, in the order of their first
/// occurrence.
pub open spec fn issue_ids_of(entries: Seq<ExtendedTimeEntryView>) -> Seq<Seq<char>>
    decreases entries.len(),
{
    if entries.len() == 0 {
        Seq::empty()
    } else {
        let before = issue_ids_of(entries.drop_last());
        if before.contains(entries.last().issue_id) {
            before
        } else {
            before.push(entries.last().issue_id)
        }
    }
}

/// The groups of a run of entries: one for each issue named, in the order of
/// first occurrence, holding the entries that name it in their order.
pub open spec fn spec_group(entries: Seq<ExtendedTimeEntryView>) -> Seq<IssueGroupView> {
    let ids = issue_ids_of(entries);
    Seq::new(
        ids.len(),
        |k: int| IssueGroupView { issue_id: ids[k], entries: entries_of(entries, ids[k]) },
    )
}

/// What holds of every grouping: each entry stands under its own issue, no
/// issue has two groups, and no group is empty.
pub open spec fn well_grouped(groups: Seq<IssueGroupView>) -> bool {
    &&& forall|k: int, i: int|
        0 <= k < groups.len() && 0 <= i < groups[k].entries.len() ==> (
        #[trigger] groups[k].entries[i]).issue_id == groups[k].issue_id
    &&& forall|j: int, k: int|
        0 <= j < k < groups.len() ==> (#[trigger] groups[j]).issue_id != (
        #[trigger] groups[k]).issue_id
    &&& forall|k: int| 0 <= k < groups.len() ==> (#[trigger] groups[k]).entries.len() > 0
}

/// All entries of all groups, as a multiset.
pub open spec fn grouped_entries(groups: Seq<IssueGroupView>) -> Multiset<ExtendedTimeEntryView>
    decreases groups.len(),
{
    if groups.len() == 0 {
        Multiset::empty()
    } else {
        grouped_entries(groups.drop_last()).add(groups.last().entries.to_multiset())
    }
}

/// Some entry names `issue_id`.
pub open spec fn is_named(entries: Seq<ExtendedTimeEntryView>, issue_id: Seq<char>) -> bool {
    exists|i: int| 0 <= i < entries.len() && (#[trigger] entries[i]).issue_id == issue_id
}

/// The issues named are listed once each: every entry's issue is listed, and
/// every issue listed is named by some entry.
pub proof fn lemma_issue_ids(entries: Seq<ExtendedTimeEntryView>)
    ensures
        issue_ids_of(entries).no_duplicates(),
        forall|i: int|
            0 <= i < entries.len() ==> issue_ids_of(entries).contains(
                (#[trigger] entries[i]).issue_id,
            ),
        forall|k: int|
            0 <= k < issue_ids_of(entries).len() ==> is_named(
                entries,
                #[trigger] issue_ids_of(entries)[k],
            ),
    decreases entries.len(),
{
    if entries.len() > 0 {
        let rest = entries.drop_last();
        let last = entries.last();
        lemma_issue_ids(rest);
        let before = issue_ids_of(rest);
        let ids = issue_ids_of(entries);
        assert forall|i: int| 0 <= i < entries.len() implies ids.contains(
            (#[trigger] entries[i]).issue_id,
        ) by {
            if i < rest.len() {
                assert(entries[i] == rest[i]);
                let at = choose|at: int| 0 <= at < before.len() && before[at] == rest[i].issue_id;
                assert(ids[at] == rest[i].issue_id);
            } else if before.contains(last.issue_id) {
            } else {
                assert(ids[before.len() as int] == last.issue_id);
            }
        }
        assert forall|k: int| 0 <= k < ids.len() implies is_named(entries, #[trigger] ids[k]) by {
            if k < before.len() {
                assert(is_named(rest, before[k]));
                let i = choose|i: int|
                    0 <= i < rest.len() && (#[trigger] rest[i]).issue_id == before[k];
                assert(entries[i].issue_id == ids[k]);
            } else {
                assert(entries[entries.len() - 1].issue_id == ids[k]);
            }
        }
    }
}

/// No entry names an issue that is not listed.
proof fn lemma_unlisted_issue_has_no_entries(
    entries: Seq<ExtendedTimeEntryView>,
    issue_id: Seq<char>,
)
    requires
        !issue_ids_of(entries).contains(issue_id),
    ensures
        entries_of(entries, issue_id) == Seq::<ExtendedTimeEntryView>::empty(),
{
    lemma_issue_ids(entries);
    let pred = names_issue(issue_id);
    assert forall|i: int| 0 <= i < entries.len() implies !pred(#[trigger] entries[i]) by {
        assert(issue_ids_of(entries).contains(entries[i].issue_id));
    }
    entries.lemma_all_neg_filter_empty(pred);
    assert(entries.filter(pred) =~= Seq::<ExtendedTimeEntryView>::empty());
}

/// An entry whose issue has a group joins that group and changes no other.
pub proof fn lemma_group_push_known(
    entries: Seq<ExtendedTimeEntryView>,
    entry: ExtendedTimeEntryView,
    j: int,
)
    requires
        0 <= j < issue_ids_of(entries).len(),
        issue_ids_of(entries)[j] == entry.issue_id,
    ensures
        spec_group(entries.push(entry)) == spec_group(entries).update(
            j,
            IssueGroupView {
                issue_id: entry.issue_id,
                entries: spec_group(entries)[j].entries.push(entry),
            },
        ),
{
    let ids = issue_ids_of(entries);
    let longer = entries.push(entry);
    lemma_issue_ids(entries);
    assert(longer.drop_last() =~= entries);
    assert(ids.contains(entry.issue_id));
    assert(issue_ids_of(longer) == ids);
    let expected = spec_group(entries).update(
        j,
        IssueGroupView {
            issue_id: entry.issue_id,
            entries: spec_group(entries)[j].entries.push(entry),
        },
    );
    assert forall|k: int| 0 <= k < ids.len() implies spec_group(longer)[k] == expected[k] by {
        entries.lemma_filter_push(entry, names_issue(ids[k]));
        if k != j {
            assert(ids[k] != ids[j]);
        }
    }
    assert(spec_group(longer) =~= expected);
}

/// An entry whose issue has no group yet opens one at the end.
pub proof fn lemma_group_push_new(
    entries: Seq<ExtendedTimeEntryView>,
    entry: ExtendedTimeEntryView,
)
    requires
        !issue_ids_of(entries).contains(entry.issue_id),
    ensures
        spec_group(entries.push(entry)) == spec_group(entries).push(
            IssueGroupView { issue_id: entry.issue_id, entries: seq![entry] },
        ),
{
    let ids = issue_ids_of(entries);
    let longer = entries.push(entry);
    assert(longer.drop_last() =~= entries);
    assert(issue_ids_of(longer) == ids.push(entry.issue_id));
    let expected = spec_group(entries).push(
        IssueGroupView { issue_id: entry.issue_id, entries: seq![entry] },
    );
    assert forall|k: int| 0 <= k < ids.len() + 1 implies spec_group(longer)[k] == expected[k] by {
        if k < ids.len() {
            entries.lemma_filter_push(entry, names_issue(ids[k]));
            assert(ids.contains(ids[k]));
        } else {
            entries.lemma_filter_push(entry, names_issue(entry.issue_id));
            lemma_unlisted_issue_has_no_entries(entries, entry.issue_id);
            assert(Seq::<ExtendedTimeEntryView>::empty().push(entry) =~= seq![entry]);
        }
    }
    assert(spec_group(longer) =~= expected);
}

/// One more entry in one group is one more entry among all.
proof fn lemma_grouped_entries_update(
    groups: Seq<IssueGroupView>,
    j: int,
    entry: ExtendedTimeEntryView,
)
    requires
        0 <= j < groups.len(),
    ensures
        grouped_entries(
            groups.update(
                j,
                IssueGroupView {
                    issue_id: groups[j].issue_id,
                    entries: groups[j].entries.push(entry),
                },
            ),
        ) == grouped_entries(groups).insert(entry),
    decreases groups.len(),
{
    broadcast use vstd::seq_lib::to_multiset_build;

    let changed = IssueGroupView {
        issue_id: groups[j].issue_id,
        entries: groups[j].entries.push(entry),
    };
    let updated = groups.update(j, changed);
    if j == groups.len() - 1 {
        assert(updated.drop_last() =~= groups.drop_last());
        assert(grouped_entries(updated) =~= grouped_entries(groups).insert(entry));
    } else {
        lemma_grouped_entries_update(groups.drop_last(), j, entry);
        assert(updated.drop_last() =~= groups.drop_last().update(j, changed));
        assert(updated.last() == groups.last());
        assert(grouped_entries(updated) =~= grouped_entries(groups).insert(entry));
    }
}

/// Grouping is a stable partition. Each group holds exactly the entries that
/// name its issue, in the order in which they came; no issue has two groups
/// and no group is empty; and the entries of all groups together are the
/// entries that were grouped, each as often as it came.
pub proof fn lemma_grouping_is_partition(entries: Seq<ExtendedTimeEntryView>)
    ensures
        well_grouped(spec_group(entries)),
        forall|k: int|
            0 <= k < spec_group(entries).len() ==> (#[trigger] spec_group(entries)[k]).entries
                == entries_of(entries, spec_group(entries)[k].issue_id),
        grouped_entries(spec_group(entries)) == entries.to_multiset(),
    decreases entries.len(),
{
    broadcast use vstd::seq_lib::to_multiset_build;

    let groups = spec_group(entries);
    let ids = issue_ids_of(entries);
    lemma_issue_ids(entries);
    assert forall|k: int, i: int|
        0 <= k < groups.len() && 0 <= i < groups[k].entries.len() implies (
    #[trigger] groups[k].entries[i]).issue_id == groups[k].issue_id by {
        entries.lemma_filter_pred(names_issue(ids[k]), i);
    }
    assert forall|k: int| 0 <= k < groups.len() implies (#[trigger] groups[k]).entries.len()
        > 0 by {
        assert(is_named(entries, ids[k]));
        let i = choose|i: int| 0 <= i < entries.len() && (#[trigger] entries[i]).issue_id == ids[k];
        entries.lemma_filter_contains(names_issue(ids[k]), i);
    }
    if entries.len() == 0 {
        assert(entries.to_multiset() =~= Multiset::<ExtendedTimeEntryView>::empty()) by {
            entries.to_multiset_ensures();
        }
    } else {
        let rest = entries.drop_last();
        let last = entries.last();
        lemma_grouping_is_partition(rest);
        lemma_issue_ids(rest);
        assert(rest.push(last) =~= entries);
        if issue_ids_of(rest).contains(last.issue_id) {
            let j = choose|j: int|
                0 <= j < issue_ids_of(rest).len() && issue_ids_of(rest)[j] == last.issue_id;
            lemma_group_push_known(rest, last, j);
            lemma_grouped_entries_update(spec_group(rest), j, last);
        } else {
            lemma_group_push_new(rest, last);
            let opened = IssueGroupView { issue_id: last.issue_id, entries: seq![last] };
            assert(spec_group(rest).push(opened).drop_last() =~= spec_group(rest));
            assert(seq![last] =~= Seq::<ExtendedTimeEntryView>::empty().push(last));
            assert(seq![last].to_multiset() =~= Multiset::<ExtendedTimeEntryView>::empty().insert(
                last,
            )) by {
                Seq::<ExtendedTimeEntryView>::empty().to_multiset_ensures();
            }
            assert(grouped_entries(groups) =~= grouped_entries(spec_group(rest)).insert(last));
        }
    }
}

/// The index of the group of `issue_id`, if it has one.
pub fn find_group(groups: &Vec<IssueGroup>, issue_id: &String) -> (found: Option<usize>)
    ensures
        match found {
            Some(j) => {
                &&& j < groups.len()
                &&& groups[j as int].issue_id@ == issue_id@
                &&& forall|k: int| 0 <= k < j ==> (#[trigger] groups[k]).issue_id@ != issue_id@
            },
            None => forall|k: int|
                0 <= k < groups.len() ==> (#[trigger] groups[k]).issue_id@ != issue_id@,
        },
{
    let mut j: usize = 0;
    while j < groups.len()
        invariant
            j <= groups.len(),
            forall|k: int| 0 <= k < j ==> (#[trigger] groups[k]).issue_id@ != issue_id@,
        decreases groups.len() - j,
    {
        if groups[j].issue_id == *issue_id {
            return Some(j);
        }
        j += 1;
    }
    None
}

/// Groups the entries by the issue they name. Entries of one issue land in
/// one group, in the order in which they came; the groups stand in the order
/// in which their issues first occur. No entry is lost, repeated or placed
/// under another issue.
pub fn group_entries(entries: Vec<ExtendedTimeEntry>) -> (groups: Vec<IssueGroup>)
    ensures
        groups_view(groups@) == spec_group(extended_view(entries@)),
        well_grouped(groups_view(groups@)),
        grouped_entries(groups_view(groups@)) == extended_view(entries@).to_multiset(),
{
    let ghost all = extended_view(entries@);
    let mut groups: Vec<IssueGroup> = Vec::new();
    let mut i: usize = 0;
    assert(all.take(0) =~= Seq::<ExtendedTimeEntryView>::empty());
    assert(groups_view(groups@) =~= spec_group(all.take(0)));
    while i < entries.len()
        invariant
            i <= entries.len(),
            all == extended_view(entries@),
            groups_view(groups@) == spec_group(all.take(i as int)),
        decreases entries.len() - i,
    {
        let entry = entries[i].clone();
        let ghost seen = all.take(i as int);
        let ghost before = groups_view(groups@);
        assert(all.take(i + 1) =~= seen.push(entry@));
        assert(before.len() == groups.len() && before.len() == issue_ids_of(seen).len());
        assert(forall|k: int|
            0 <= k < groups.len() ==> (#[trigger] groups[k]).issue_id@ == issue_ids_of(seen)[k]) by {
            assert forall|k: int| 0 <= k < groups.len() implies (#[trigger] groups[k]).issue_id@
                == issue_ids_of(seen)[k] by {
                assert(before[k].issue_id == spec_group(seen)[k].issue_id);
            }
        }
        match find_group(&groups, &entry.issue_id) {
            Some(j) => {
                proof {
                    lemma_group_push_known(seen, entry@, j as int);
                }
                let mut group = groups.remove(j);
                let ghost held = extended_view(group.entries@);
                group.entries.push(entry);
                assert(extended_view(group.entries@) =~= held.push(entry@));
                groups.insert(j, group);
                assert(groups_view(groups@) =~= before.update(
                    j as int,
                    IssueGroupView {
                        issue_id: entry.issue_id@,
                        entries: before[j as int].entries.push(entry@),
                    },
                ));
            },
            None => {
                proof {
                    assert(!issue_ids_of(seen).contains(entry.issue_id@)) by {
                        if issue_ids_of(seen).contains(entry.issue_id@) {
                            let k = choose|k: int|
                                0 <= k < issue_ids_of(seen).len() && issue_ids_of(seen)[k]
                                    == entry.issue_id@;
                            assert(groups[k].issue_id@ == entry.issue_id@);
                        }
                    }
                    lemma_group_push_new(seen, entry@);
                }
                let issue_id = entry.issue_id.clone();
                let mut opened: Vec<ExtendedTimeEntry> = Vec::new();
                opened.push(entry);
                assert(extended_view(opened@) =~= seq![entry@]);
                groups.push(IssueGroup { issue_id, entries: opened });
                assert(groups_view(groups@) =~= before.push(
                    IssueGroupView { issue_id: entry.issue_id@, entries: seq![entry@] },
                ));
            },
        }
        i += 1;
    }
    assert(all.take(entries.len() as int) =~= all);
    proof {
        lemma_grouping_is_partition(all);
    }
    groups
}

/// The texts of a run of strings, in order.
pub open spec fn texts(strings: Seq<String>) -> Seq<Seq<char>> {
    Seq::new(strings.len(), |i: int| strings[i]@)
}

/// The issue of each group, in order.
pub open spec fn spec_issue_ids(groups: Seq<IssueGroupView>) -> Seq<Seq<char>> {
    Seq::new(groups.len(), |k: int| groups[k].issue_id)
}

/// The issues that have a group, in the order of the groups: the issues whose
/// work items have to be fetched, each once.
pub fn issue_ids(groups: &Vec<IssueGroup>) -> (ids: Vec<String>)
    ensures
        texts(ids@) == spec_issue_ids(groups_view(groups@)),
{
    let mut ids: Vec<String> = Vec::new();
    let mut k: usize = 0;
    while k < groups.len()
        invariant
            k <= groups.len(),
            ids.len() == k,
            forall|j: int| 0 <= j < k ==> (#[trigger] ids[j])@ == groups[j].issue_id@,
        decreases groups.len() - k,
    {
        ids.push(groups[k].issue_id.clone());
        k += 1;
    }
    assert(texts(ids@) =~= spec_issue_ids(groups_view(groups@)));
    ids
}

} // verus!
