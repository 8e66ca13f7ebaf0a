//! Reads the issue identifier off the front of an entry's description.
//!
//! A description names an issue only where it begins with the identifier. The
//! pattern is matched by the regex crate. What the engine finds is named
//! here, not restated; everything done with what it found is verified.

use vstd::prelude::*;
use crate::toggl::{clone_optional, optional_text, time_entries_view, TimeEntry, TimeEntryView};

verus! {

/// From the very start of the text: an issue identifier (word characters, a
/// hyphen, digits), a space, and the rest of the line.
pub const REGEX_STRING: &'static str = r"^(\w+-\d+) (.*)";

/// A time entry whose description names an issue.
#[derive(Debug)]
pub struct ExtendedTimeEntry {
    pub toggl_time_entry: TimeEntry,
    /// The issue the time was spent on; never empty.
    pub issue_id: String,
    /// The description without the issue identifier.
    pub description: String,
}

/// What an `ExtendedTimeEntry` holds, as plain values.
pub struct ExtendedTimeEntryView {
    pub toggl_time_entry: TimeEntryView,
    pub issue_id: Seq<char>,
    pub description: Seq<char>,
}

impl View for ExtendedTimeEntry {
    type V = ExtendedTimeEntryView;

    open spec fn view(&self) -> ExtendedTimeEntryView {
        ExtendedTimeEntryView {
            toggl_time_entry: self.toggl_time_entry@,
            issue_id: self.issue_id@,
            description: self.description@,
        }
    }
}

impl Clone for ExtendedTimeEntry {
    fn clone(&self) -> (copy: Self)
        ensures
            copy == *self,
    {
        ExtendedTimeEntry {
            toggl_time_entry: self.toggl_time_entry.clone(),
            issue_id: self.issue_id.clone(),
            description: self.description.clone(),
        }
    }
}

/// The views of a run of extended entries, in order.
pub open spec fn extended_view(entries: Seq<ExtendedTimeEntry>) -> Seq<ExtendedTimeEntryView> {
    Seq::new(entries.len(), |i: int| entries[i]@)
}

/// The error with which the regex crate rejects a pattern.
#[verifier::external_type_specification]
#[verifier::external_body]
pub struct ExRegexError(regex::Error);

/// Whether the regex crate accepts `pattern`.
pub uninterp spec fn regex_compiles(pattern: Seq<char>) -> bool;

/// What the regex crate captures in the first match of `pattern` in
/// `haystack`: `None` where nothing matches, else one entry for each group
/// of the pattern, the whole match first, holding the text the group matched
/// or `None` where the group took no part.
pub uninterp spec fn regex_captures(pattern: Seq<char>, haystack: Seq<char>) -> Option<
    Seq<Option<Seq<char>>>,
>;

/// The text of each captured group.
pub open spec fn groups_text(groups: Option<Vec<Option<String>>>) -> Option<
    Seq<Option<Seq<char>>>,
> {
    match groups {
        Some(g) => Some(Seq::new(g@.len(), |i: int| optional_text(g@[i]))),
        None => None,
    }
}

/// Calls `Regex::new` of the regex crate on the pattern and `Regex::captures`
/// on the haystack, and copies the text of each group out of the `Captures`
/// in the order of `Captures::iter`. Trusted: the pattern is rejected or not
/// by what it is alone, and what is captured depends on the pattern and the
/// haystack alone; both results are named, neither is spelled out.
#[verifier::external_body]
pub(crate) fn regex_first_captures(pattern: &str, haystack: &str) -> (found: Result<
    Option<Vec<Option<String>>>,
    regex::Error,
>)
    ensures
        found is Ok <==> regex_compiles(pattern@),
        found matches Ok(groups) ==> groups_text(groups) == regex_captures(pattern@, haystack@),
{
    let re = regex::Regex::new(pattern)?;
    Ok(re.captures(haystack).map(|c| c.iter().map(|m| m.map(|m| m.as_str().to_string())).collect()))
}

/// The texts of an optional pair of strings.
pub open spec fn pair_text(pair: Option<(String, String)>) -> Option<(Seq<char>, Seq<char>)> {
    match pair {
        Some((a, b)) => Some((a@, b@)),
        None => None,
    }
}

/// The issue identifier and the remaining text in a set of captured groups:
/// the first and second group after the whole match, where both took part and
/// the identifier is not empty.
pub open spec fn spec_issue_and_text(groups: Option<Seq<Option<Seq<char>>>>) -> Option<
    (Seq<char>, Seq<char>),
> {
    match groups {
        Some(g) => {
            if g.len() > 2 && g[1] is Some && g[2] is Some && g[1]->0.len() > 0 {
                Some((g[1]->0, g[2]->0))
            } else {
                None
            }
        },
        None => None,
    }
}

/// Picks the issue identifier and the remaining text out of captured groups.
/// Anything short of both groups yields `None`: there is no partial match.
pub fn issue_and_text(groups: Option<Vec<Option<String>>>) -> (parsed: Option<(String, String)>)
    ensures
        pair_text(parsed) == spec_issue_and_text(groups_text(groups)),
{
    match groups {
        Some(g) => {
            if g.len() <= 2 {
                return None;
            }
            let issue_id = clone_optional(&g[1]);
            let remainder = clone_optional(&g[2]);
            match (issue_id, remainder) {
                (Some(id), Some(rest)) => {
                    if id.as_str().is_empty() {
                        None
                    } else {
                        Some((id, rest))
                    }
                },
                _ => None,
            }
        },
        None => None,
    }
}

/// What a description parses to: the issue identifier and the remaining text
/// that the pattern captures in it.
pub open spec fn spec_parse(description: Seq<char>) -> Option<(Seq<char>, Seq<char>)> {
    if regex_compiles(REGEX_STRING@) {
        spec_issue_and_text(regex_captures(REGEX_STRING@, description))
    } else {
        None
    }
}

/// Extracts the issue identifier and the remaining text from a description.
/// A description that the pattern does not match yields `None`; that is no
/// error, the entry just belongs to no issue.
pub fn parse_description(description: &str) -> (parsed: Option<(String, String)>)
    ensures
        pair_text(parsed) == spec_parse(description@),
        parsed matches Some((issue_id, _)) ==> issue_id@.len() > 0,
{
    match regex_first_captures(REGEX_STRING, description) {
        Ok(groups) => issue_and_text(groups),
        Err(_) => None,
    }
}

/// The text that is parsed for an entry: its description, or nothing where it
/// has none.
pub open spec fn spec_description(entry: TimeEntryView) -> Seq<char> {
    match entry.description {
        Some(d) => d,
        None => Seq::empty(),
    }
}

/// The extended entry of a time entry, where its description names an issue.
pub open spec fn spec_extend(entry: TimeEntryView) -> Option<ExtendedTimeEntryView> {
    match spec_parse(spec_description(entry)) {
        Some((issue_id, description)) => Some(
            ExtendedTimeEntryView { toggl_time_entry: entry, issue_id, description },
        ),
        None => None,
    }
}

/// The step from a time entry to its extended entry, as a function.
pub open spec fn extending() -> spec_fn(TimeEntryView) -> Option<ExtendedTimeEntryView> {
    |entry: TimeEntryView| spec_extend(entry)
}

/// The extended entries of a run of time entries: those that name an issue,
/// in their order.
pub open spec fn spec_extend_all(entries: Seq<TimeEntryView>) -> Seq<ExtendedTimeEntryView> {
    entries.filter_map(extending())
}

/// Every extended entry carries an issue identifier that is not empty.
pub open spec fn all_identified(entries: Seq<ExtendedTimeEntryView>) -> bool {
    forall|i: int| 0 <= i < entries.len() ==> (#[trigger] entries[i]).issue_id.len() > 0
}

/// Attaches to an entry the issue that its description names, if it names one.
pub fn extend_entry(entry: TimeEntry) -> (extended: Option<ExtendedTimeEntry>)
    ensures
        match extended {
            Some(e) => spec_extend(entry@) == Some(e@) && e.issue_id@.len() > 0,
            None => spec_extend(entry@) is None,
        },
{
    let parsed = match &entry.description {
        Some(d) => parse_description(d.as_str()),
        None => parse_description(""),
    };
    proof {
        reveal_strlit("");
        assert(""@ =~= Seq::<char>::empty());
    }
    match parsed {
        Some((issue_id, description)) => Some(
            ExtendedTimeEntry { toggl_time_entry: entry, issue_id, description },
        ),
        None => None,
    }
}

/// Keeps the entries whose description names an issue, each with its issue
/// identifier and remaining text, in the order in which they came. The others
/// are left out without complaint.
pub fn extend_entries(entries: Vec<TimeEntry>) -> (extended: Vec<ExtendedTimeEntry>)
    ensures
        extended_view(extended@) == spec_extend_all(time_entries_view(entries@)),
        all_identified(extended_view(extended@)),
{
    let ghost all = time_entries_view(entries@);
    let mut extended: Vec<ExtendedTimeEntry> = Vec::new();
    let mut i: usize = 0;
    assert(all.take(0) =~= Seq::<TimeEntryView>::empty());
    while i < entries.len()
        invariant
            i <= entries.len(),
            all == time_entries_view(entries@),
            extended_view(extended@) == spec_extend_all(all.take(i as int)),
            all_identified(extended_view(extended@)),
        decreases entries.len() - i,
    {
        let ghost before = extended_view(extended@);
        let entry = entries[i].clone();
        proof {
            all.lemma_filter_map_take_succ(extending(), i as int);
        }
        match extend_entry(entry) {
            Some(e) => {
                extended.push(e);
                assert(extended_view(extended@) =~= before + seq![e@]);
            },
            None => {
                assert(before + Seq::<ExtendedTimeEntryView>::empty() =~= before);
            },
        }
        i += 1;
    }
    assert(all.take(entries.len() as int) =~= all);
    extended
}

} // verus!
