//! What came of fetching the work items of each issue.
//!
//! The fetches themselves are made elsewhere, one for each issue and in any
//! order. An issue whose fetch failed is left out of what is kept: whether it
//! does not exist or could just not be reached, nothing is created for it.

use vstd::prelude::*;
use crate::youtrack::{work_items_view, IssueWorkItem, IssueWorkItemView};

verus! {

/// How many fetches are in flight at once, unless the caller chooses another
/// bound.
pub const DEFAULT_FETCH_CONCURRENCY: usize = 10;

/// How the fetch for one issue ended.
#[derive(Debug)]
pub struct FetchOutcome {
    pub issue_id: String,
    /// The issue's work items, or `None` where the fetch failed.
    pub work_items: Option<Vec<IssueWorkItem>>,
}

/// The work items that an issue has already.
#[derive(Debug)]
pub struct FetchedIssue {
    pub issue_id: String,
    pub work_items: Vec<IssueWorkItem>,
}

/// What a `FetchOutcome` holds, as plain values.
pub struct FetchOutcomeView {
    pub issue_id: Seq<char>,
    pub work_items: Option<Seq<IssueWorkItemView>>,
}

/// What a `FetchedIssue` holds, as plain values.
pub struct FetchedIssueView {
    pub issue_id: Seq<char>,
    pub work_items: Seq<IssueWorkItemView>,
}

impl View for FetchOutcome {
    type V = FetchOutcomeView;

    open spec fn view(&self) -> FetchOutcomeView {
        FetchOutcomeView {
            issue_id: self.issue_id@,
            work_items: match self.work_items {
                Some(items) => Some(work_items_view(items@)),
                None => None,
            },
        }
    }
}

impl View for FetchedIssue {
    type V = FetchedIssueView;

    open spec fn view(&self) -> FetchedIssueView {
        FetchedIssueView { issue_id: self.issue_id@, work_items: work_items_view(self.work_items@) }
    }
}

/// The views of a run of outcomes, in order.
pub open spec fn outcomes_view(outcomes: Seq<FetchOutcome>) -> Seq<FetchOutcomeView> {
    Seq::new(outcomes.len(), |i: int| outcomes[i]@)
}

/// The views of a run of fetched issues, in order.
pub open spec fn fetched_view(fetched: Seq<FetchedIssue>) -> Seq<FetchedIssueView> {
    Seq::new(fetched.len(), |i: int| fetched[i]@)
}

/// What is kept of an outcome: the issue with its work items where the fetch
/// succeeded, nothing where it failed.
pub open spec fn spec_keep(outcome: FetchOutcomeView) -> Option<FetchedIssueView> {
    match outcome.work_items {
        Some(items) => Some(FetchedIssueView { issue_id: outcome.issue_id, work_items: items }),
        None => None,
    }
}

/// The step from an outcome to what is kept of it, as a function.
pub open spec fn keeping() -> spec_fn(FetchOutcomeView) -> Option<FetchedIssueView> {
    |outcome: FetchOutcomeView| spec_keep(outcome)
}

/// The issues whose fetch succeeded, with their work items, in the order of
/// the outcomes.
pub open spec fn spec_successful_fetches(outcomes: Seq<FetchOutcomeView>) -> Seq<
    FetchedIssueView,
> {
    outcomes.filter_map(keeping())
}

/// The issue of each fetched record, in order.
pub open spec fn fetched_ids(fetched: Seq<FetchedIssueView>) -> Seq<Seq<char>> {
    fetched.map_values(|f: FetchedIssueView| f.issue_id)
}

/// The place of the first record for `issue_id`, if there is one.
pub open spec fn spec_fetched_index(fetched: Seq<FetchedIssueView>, issue_id: Seq<char>) -> Option<
    int,
> {
    fetched_ids(fetched).index_of_first(issue_id)
}

/// The work items fetched for `issue_id`: those of its first record, or
/// `None` where no fetch for it succeeded.
pub open spec fn spec_fetched_items(fetched: Seq<FetchedIssueView>, issue_id: Seq<char>) -> Option<
    Seq<IssueWorkItemView>,
> {
    match spec_fetched_index(fetched, issue_id) {
        Some(k) => Some(fetched[k].work_items),
        None => None,
    }
}

/// A copy of a run of work items.
pub fn clone_work_items(items: &Vec<IssueWorkItem>) -> (copy: Vec<IssueWorkItem>)
    ensures
        copy@ == items@,
{
    let mut copy: Vec<IssueWorkItem> = Vec::new();
    let mut i: usize = 0;
    while i < items.len()
        invariant
            i <= items.len(),
            copy@ == items@.take(i as int),
        decreases items.len() - i,
    {
        copy.push(items[i].clone());
        assert(copy@ =~= items@.take(i + 1));
        i += 1;
    }
    assert(items@.take(items.len() as int) =~= items@);
    copy
}

/// Keeps what the successful fetches brought, in the order of the outcomes,
/// and drops every issue whose fetch failed.
pub fn successful_fetches(outcomes: Vec<FetchOutcome>) -> (fetched: Vec<FetchedIssue>)
    ensures
        fetched_view(fetched@) == spec_successful_fetches(outcomes_view(outcomes@)),
{
    let ghost all = outcomes_view(outcomes@);
    let mut fetched: Vec<FetchedIssue> = Vec::new();
    let mut i: usize = 0;
    assert(all.take(0) =~= Seq::<FetchOutcomeView>::empty());
    while i < outcomes.len()
        invariant
            i <= outcomes.len(),
            all == outcomes_view(outcomes@),
            fetched_view(fetched@) == spec_successful_fetches(all.take(i as int)),
        decreases outcomes.len() - i,
    {
        let ghost before = fetched_view(fetched@);
        proof {
            all.lemma_filter_map_take_succ(keeping(), i as int);
        }
        match &outcomes[i].work_items {
            Some(items) => {
                let kept = FetchedIssue {
                    issue_id: outcomes[i].issue_id.clone(),
                    work_items: clone_work_items(items),
                };
                assert(spec_keep(all[i as int]) == Some(kept@));
                fetched.push(kept);
                assert(fetched_view(fetched@) =~= before + seq![kept@]);
            },
            None => {
                assert(before + Seq::<FetchedIssueView>::empty() =~= before);
            },
        }
        i += 1;
    }
    assert(all.take(outcomes.len() as int) =~= all);
    fetched
}

/// The place of the first record for `issue_id` among what was fetched.
pub fn find_fetched(fetched: &Vec<FetchedIssue>, issue_id: &String) -> (found: Option<usize>)
    ensures
        match found {
            Some(k) => spec_fetched_index(fetched_view(fetched@), issue_id@) == Some(k as int),
            None => spec_fetched_index(fetched_view(fetched@), issue_id@) is None,
        },
        found matches Some(k) ==> k < fetched.len(),
{
    let ghost ids = fetched_ids(fetched_view(fetched@));
    let mut k: usize = 0;
    while k < fetched.len()
        invariant
            k <= fetched.len(),
            ids == fetched_ids(fetched_view(fetched@)),
            forall|j: int| 0 <= j < k ==> #[trigger] ids[j] != issue_id@,
        decreases fetched.len() - k,
    {
        assert(ids[k as int] == fetched[k as int].issue_id@);
        if fetched[k].issue_id == *issue_id {
            proof {
                assert(ids.contains(issue_id@));
                ids.index_of_first_ensures(issue_id@);
                let first = ids.index_of_first(issue_id@)->0;
                assert(ids[first] == issue_id@);
                assert(first == k);
            }
            return Some(k);
        }
        k += 1;
    }
    proof {
        ids.index_of_first_ensures(issue_id@);
    }
    None
}

/// The work items fetched for `issue_id`, or `None` where no fetch for it
/// succeeded.
pub fn fetched_items<'a>(fetched: &'a Vec<FetchedIssue>, issue_id: &String) -> (items: Option<
    &'a Vec<IssueWorkItem>,
>)
    ensures
        match items {
            Some(found) => spec_fetched_items(fetched_view(fetched@), issue_id@) == Some(
                work_items_view(found@),
            ),
            None => spec_fetched_items(fetched_view(fetched@), issue_id@) is None,
        },
{
    match find_fetched(fetched, issue_id) {
        Some(k) => Some(&fetched[k].work_items),
        None => None,
    }
}

} // verus!
