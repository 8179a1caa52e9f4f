//! The search path as an ordered list of directory names.

use vstd::prelude::*;
use vstd::view::DeepView;

verus! {

/// The pieces of `text` between its `:` separators, in order. Nothing is
/// trimmed or dropped: a text without a separator is one piece, and two
/// separators in a row enclose an empty piece.
pub open spec fn split_segments(text: Seq<char>) -> Seq<Seq<char>>
    decreases text.len(),
{
    if text.len() == 0 {
        seq![Seq::empty()]
    } else {
        let before = split_segments(text.drop_last());
        if text.last() == ':' {
            before.push(Seq::empty())
        } else {
            before.drop_last().push(before.last().push(text.last()))
        }
    }
}

/// The segments written one after another with a `:` between neighbours.
pub open spec fn join_segments(segments: Seq<Seq<char>>) -> Seq<char>
    decreases segments.len(),
{
    if segments.len() == 0 {
        Seq::empty()
    } else if segments.len() == 1 {
        segments[0]
    } else {
        join_segments(segments.drop_last()) + seq![':'] + segments.last()
    }
}

/// How many separators `text` holds.
pub open spec fn separator_count(text: Seq<char>) -> nat
    decreases text.len(),
{
    if text.len() == 0 {
        0
    } else if text.last() == ':' {
        separator_count(text.drop_last()) + 1
    } else {
        separator_count(text.drop_last())
    }
}

/// The entries of a search path: none where the variable is absent, its
/// segments otherwise.
pub open spec fn path_entries_of(search_path: Option<Seq<char>>) -> Seq<Seq<char>> {
    match search_path {
        Some(text) => split_segments(text),
        None => Seq::empty(),
    }
}

/// No separator occurs in `segment`.
pub open spec fn separator_free(segment: Seq<char>) -> bool {
    forall|i: int| 0 <= i < segment.len() ==> segment[i] != ':'
}

/// A text has one segment more than it has separators.
pub proof fn lemma_split_len(text: Seq<char>)
    ensures
        split_segments(text).len() == separator_count(text) + 1,
    decreases text.len(),
{
    if text.len() > 0 {
        lemma_split_len(text.drop_last());
    }
}

/// No segment of a text holds a separator.
pub proof fn lemma_split_separator_free(text: Seq<char>)
    ensures
        forall|k: int|
            0 <= k < split_segments(text).len() ==> separator_free(
                #[trigger] split_segments(text)[k],
            ),
    decreases text.len(),
{
    if text.len() > 0 {
        lemma_split_len(text.drop_last());
        lemma_split_separator_free(text.drop_last());
    }
}

/// Joining the segments of a text gives the text back.
pub proof fn lemma_join_split(text: Seq<char>)
    ensures
        join_segments(split_segments(text)) == text,
    decreases text.len(),
{
    if text.len() == 0 {
        assert(join_segments(split_segments(text)) =~= text);
    } else {
        let shorter = text.drop_last();
        let before = split_segments(shorter);
        lemma_split_len(shorter);
        lemma_join_split(shorter);
        if text.last() == ':' {
            let now = before.push(Seq::empty());
            assert(now.drop_last() =~= before);
            assert(join_segments(now) =~= text);
        } else {
            let now = before.drop_last().push(before.last().push(text.last()));
            assert(now.drop_last() =~= before.drop_last());
            if before.len() == 1 {
                assert(join_segments(now) =~= text);
            } else {
                assert(join_segments(now) =~= join_segments(before).push(text.last()));
                assert(join_segments(now) =~= text);
            }
        }
    }
}

proof fn lemma_split_append(text: Seq<char>, segment: Seq<char>)
    requires
        separator_free(segment),
    ensures
        split_segments(text + segment) == split_segments(text).drop_last().push(
            split_segments(text).last() + segment,
        ),
    decreases segment.len(),
{
    lemma_split_len(text);
    let before = split_segments(text);
    if segment.len() == 0 {
        assert(text + segment =~= text);
        assert(before.last() + segment =~= before.last());
        assert(before.drop_last().push(before.last()) =~= before);
    } else {
        let shorter = segment.drop_last();
        lemma_split_append(text, shorter);
        assert((text + segment).drop_last() =~= text + shorter);
        assert((text + segment).last() == segment.last());
        let mid = before.drop_last().push(before.last() + shorter);
        assert(mid.drop_last() =~= before.drop_last());
        assert((before.last() + shorter).push(segment.last()) =~= before.last() + segment);
    }
}

/// A text written as `k >= 1` separator-free segments with `:` between them
/// splits into exactly those `k` segments, in their order.
pub proof fn lemma_split_join(segments: Seq<Seq<char>>)
    requires
        segments.len() >= 1,
        forall|k: int| 0 <= k < segments.len() ==> separator_free(#[trigger] segments[k]),
    ensures
        split_segments(join_segments(segments)) == segments,
    decreases segments.len(),
{
    let empty = Seq::<char>::empty();
    if segments.len() == 1 {
        lemma_split_append(empty, segments[0]);
        assert(empty + segments[0] =~= segments[0]);
        assert(split_segments(empty) =~= seq![empty]);
        assert(split_segments(segments[0]) =~= segments);
    } else {
        let front = segments.drop_last();
        lemma_split_join(front);
        let joined = join_segments(front);
        let opened = joined + seq![':'];
        assert(opened.drop_last() =~= joined);
        assert(split_segments(opened) == front.push(empty));
        lemma_split_append(opened, segments.last());
        assert(front.push(empty).drop_last() =~= front);
        assert(empty + segments.last() =~= segments.last());
        assert(front.push(segments.last()) =~= segments);
    }
}

/// Splits the search path into its entries. An absent variable has no
/// entries; a present one is cut at every `:`, so that the empty text yields
/// one empty entry.
pub fn list_path_entries(search_path: Option<&str>) -> (entries: Vec<String>)
    ensures
        entries.deep_view() == path_entries_of(
            match search_path {
                Some(text) => Some(text@),
                None => None,
            },
        ),
{
    let mut entries: Vec<String> = Vec::new();
    match search_path {
        None => {
            assert(entries.deep_view() =~= Seq::empty());
        },
        Some(text) => {
            let mut current = String::new();
            proof {
                assert(text@.take(0) =~= Seq::empty());
                assert(entries.deep_view().push(current@) =~= seq![Seq::<char>::empty()]);
            }
            for c in it: text.chars()
                invariant
                    it.seq() == text@,
                    entries.deep_view().push(current@) == split_segments(
                        text@.take(it.index() as int),
                    ),
            {
                let ghost done = entries.deep_view();
                let ghost open = current@;
                proof {
                    let upto = text@.take(it.index() + 1);
                    assert(upto.drop_last() =~= text@.take(it.index() as int));
                    assert(upto.last() == c);
                    assert(done.push(open).drop_last() =~= done);
                }
                if c == ':' {
                    entries.push(current);
                    current = String::new();
                    assert(entries.deep_view() =~= done.push(open));
                } else {
                    current.push(c);
                }
            }
            proof {
                assert(text@.take(text@.len() as int) =~= text@);
            }
            let ghost done = entries.deep_view();
            let ghost open = current@;
            entries.push(current);
            assert(entries.deep_view() =~= done.push(open));
        },
    }
    entries
}

} // verus!
