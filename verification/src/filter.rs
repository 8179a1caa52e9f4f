//! The search over a listing: rows whose name holds the query, whatever the
//! case of either.

use vstd::prelude::*;
use vstd::view::DeepView;

use crate::text::{chars_of, contains_chars, is_substring, lowercase_of, occurs_at};
use crate::types::{FileEntry, FileEntryView};

verus! {

/// The lowercase form of `name` holds the lowercase form of `query`.
pub open spec fn name_matches(name: Seq<char>, query: Seq<char>) -> bool {
    is_substring(lowercase_of(query), lowercase_of(name))
}

/// The rows whose name matches `query`, in their order.
pub open spec fn filter_entries(entries: Seq<FileEntryView>, query: Seq<char>) -> Seq<
    FileEntryView,
> {
    entries.filter(|entry: FileEntryView| name_matches(entry.name, query))
}

/// Filtering keeps rows of the listing and never adds one.
pub proof fn lemma_filter_is_part(entries: Seq<FileEntryView>, query: Seq<char>)
    ensures
        filter_entries(entries, query).len() <= entries.len(),
        forall|k: int|
            0 <= k < filter_entries(entries, query).len() ==> {
                &&& entries.contains(#[trigger] filter_entries(entries, query)[k])
                &&& name_matches(filter_entries(entries, query)[k].name, query)
            },
    decreases entries.len(),
{
    reveal(Seq::filter);
    if entries.len() > 0 {
        let front = entries.drop_last();
        lemma_filter_is_part(front, query);
        let part = filter_entries(front, query);
        let kept = filter_entries(entries, query);
        assert forall|k: int| 0 <= k < kept.len() implies {
            &&& entries.contains(#[trigger] kept[k])
            &&& name_matches(kept[k].name, query)
        } by {
            if k < part.len() {
                assert(kept[k] == part[k]);
                assert(front.contains(part[k]));
                let j = choose|j: int| 0 <= j < front.len() && front[j] == part[k];
                assert(entries[j] == kept[k]);
            } else {
                assert(kept[k] == entries[entries.len() - 1]);
            }
        }
    }
}

/// The case of the query does not count: two queries with the same lowercase
/// form keep the same rows.
pub proof fn lemma_filter_by_folded_query(
    entries: Seq<FileEntryView>,
    first: Seq<char>,
    second: Seq<char>,
)
    ensures
        lowercase_of(first) == lowercase_of(second) ==> filter_entries(entries, first)
            == filter_entries(entries, second),
    decreases entries.len(),
{
    reveal(Seq::filter);
    if entries.len() > 0 {
        lemma_filter_by_folded_query(entries.drop_last(), first, second);
    }
}

/// The case of a name does not count: two names with the same lowercase form
/// are matched by the same queries, so a row is kept or left out whatever the
/// case of its name.
pub proof fn lemma_match_by_folded_name(first: Seq<char>, second: Seq<char>, query: Seq<char>)
    ensures
        lowercase_of(first) == lowercase_of(second) ==> name_matches(first, query)
            == name_matches(second, query),
{
}

/// The rows of `entries` whose name holds `query`, the case of letters set
/// aside; the rows keep their order. The empty query keeps every row.
pub fn filter(entries: &Vec<FileEntry>, query: &str) -> (kept: Vec<FileEntry>)
    ensures
        kept.deep_view() == filter_entries(entries.deep_view(), query@),
        query@.len() == 0 ==> kept.deep_view() == entries.deep_view(),
{
    let folded_query = query.to_lowercase();
    let needle = chars_of(folded_query.as_str());
    let ghost all = entries.deep_view();
    let mut kept: Vec<FileEntry> = Vec::new();
    let mut i: usize = 0;
    proof {
        reveal(Seq::filter);
        assert(all.take(0) =~= Seq::empty());
        assert(kept.deep_view() =~= Seq::empty());
    }
    while i < entries.len()
        invariant
            i <= entries.len(),
            all == entries.deep_view(),
            needle@ == lowercase_of(query@),
            query@.len() == 0 ==> needle@.len() == 0,
            kept.deep_view() == filter_entries(all.take(i as int), query@),
            query@.len() == 0 ==> kept.deep_view() == all.take(i as int),
        decreases entries.len() - i,
    {
        let folded_name = entries[i].name.as_str().to_lowercase();
        let haystack = chars_of(folded_name.as_str());
        let ghost before = kept.deep_view();
        proof {
            reveal(Seq::filter);
            let upto = all.take(i + 1);
            assert(upto.drop_last() =~= all.take(i as int));
            assert(upto.last() == entries@[i as int]@);
            if needle@.len() == 0 {
                assert(haystack@.subrange(0, 0) =~= needle@);
                assert(occurs_at(needle@, haystack@, 0));
            }
        }
        if contains_chars(&haystack, &needle) {
            kept.push(entries[i].clone());
            assert(kept.deep_view() =~= before.push(entries@[i as int]@));
        }
        proof {
            if query@.len() == 0 {
                assert(all.take(i + 1) =~= all.take(i as int).push(entries@[i as int]@));
            }
        }
        i += 1;
    }
    proof {
        assert(all.take(entries.len() as int) =~= all);
    }
    kept
}

} // verus!
