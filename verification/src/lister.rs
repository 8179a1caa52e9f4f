//! From what reading a directory gave to the rows of its listing.
//!
//! The caller reads the directory and reports, for each child, the name as far
//! as it could be decoded and what asking for its link target gave. The listing
//! drops children without a name, describes the others and orders them by name.

use vstd::prelude::*;
use vstd::view::DeepView;

use crate::text::{
    lemma_bytes_le_total, lemma_bytes_le_transitive, lemma_name_order_total, name_le, name_precedes,
};
use crate::types::{EntryInfo, EntryInfoView, FileEntry, FileEntryView};

verus! {

/// The name of the one row that stands for a directory that could not be read.
pub const UNREADABLE_LABEL: &'static str = "⚠️  Unable to read directory";

/// Shown as the target of a link whose target is not valid text.
pub const INVALID_TARGET: &'static str = "<invalid UTF-8>";

/// Shown as the target of a link whose target could not be read.
pub const BROKEN_TARGET: &'static str = "<broken link>";

/// Stands before the reason in the row of an unreadable directory.
pub const ERROR_PREFIX: &'static str = "Error: ";

/// What asking for a child's link target gave.
#[derive(Debug)]
pub enum LinkRead {
    /// The child is no symbolic link.
    NotALink,
    /// The child is a link to this target.
    Target(String),
    /// The child is a link whose target is not valid text.
    UndecodableTarget,
    /// The child is a link whose target could not be read.
    Unreadable,
}

/// A `LinkRead` with its text as a character sequence.
pub ghost enum LinkReadView {
    NotALink,
    Target(Seq<char>),
    UndecodableTarget,
    Unreadable,
}

impl View for LinkRead {
    type V = LinkReadView;

    open spec fn view(&self) -> LinkReadView {
        match *self {
            LinkRead::NotALink => LinkReadView::NotALink,
            LinkRead::Target(target) => LinkReadView::Target(target@),
            LinkRead::UndecodableTarget => LinkReadView::UndecodableTarget,
            LinkRead::Unreadable => LinkReadView::Unreadable,
        }
    }
}

/// One child as the directory read reported it. The name is absent where it
/// is not valid text.
#[derive(Debug)]
pub struct ChildRead {
    pub name: Option<String>,
    pub link: LinkRead,
}

/// A `ChildRead` with its texts as character sequences.
pub ghost struct ChildReadView {
    pub name: Option<Seq<char>>,
    pub link: LinkReadView,
}

impl View for ChildRead {
    type V = ChildReadView;

    open spec fn view(&self) -> ChildReadView {
        ChildReadView {
            name: match self.name {
                Some(name) => Some(name@),
                None => None,
            },
            link: self.link@,
        }
    }
}

impl DeepView for ChildRead {
    type V = ChildReadView;

    open spec fn deep_view(&self) -> ChildReadView {
        self@
    }
}

/// The outcome of a directory read as mathematical values: the children in
/// the order they were reported, or the reason for the failure.
pub open spec fn read_view(read: Result<Vec<ChildRead>, String>) -> Result<
    Seq<ChildReadView>,
    Seq<char>,
> {
    match read {
        Ok(children) => Ok(children.deep_view()),
        Err(reason) => Err(reason@),
    }
}

/// What a row says about its link: nothing for an ordinary child, the target
/// for a link, and a fixed placeholder where the target is not to be had.
pub open spec fn link_info(link: LinkReadView) -> EntryInfoView {
    match link {
        LinkReadView::NotALink => EntryInfoView::NoInfo,
        LinkReadView::Target(target) => EntryInfoView::SymlinkTarget(target),
        LinkReadView::UndecodableTarget => EntryInfoView::SymlinkTarget(INVALID_TARGET@),
        LinkReadView::Unreadable => EntryInfoView::SymlinkTarget(BROKEN_TARGET@),
    }
}

/// The row for a child with a readable name.
pub open spec fn entry_of(name: Seq<char>, link: LinkReadView) -> FileEntryView {
    FileEntryView { name, is_symlink: !(link is NotALink), info: link_info(link) }
}

/// The rows of the children that have a name, in the order of the read.
pub open spec fn kept_entries(children: Seq<ChildReadView>) -> Seq<FileEntryView>
    decreases children.len(),
{
    if children.len() == 0 {
        Seq::empty()
    } else {
        let before = kept_entries(children.drop_last());
        match children.last().name {
            Some(name) => before.push(entry_of(name, children.last().link)),
            None => before,
        }
    }
}

/// `entry` put into `sorted` behind the last row that does not sort after it.
pub open spec fn insert_by_name(sorted: Seq<FileEntryView>, entry: FileEntryView) -> Seq<
    FileEntryView,
>
    decreases sorted.len(),
{
    if sorted.len() == 0 || name_le(sorted.last().name, entry.name) {
        sorted.push(entry)
    } else {
        insert_by_name(sorted.drop_last(), entry).push(sorted.last())
    }
}

/// The rows in ascending order of their names; rows of one name keep their
/// order.
pub open spec fn sort_by_name(entries: Seq<FileEntryView>) -> Seq<FileEntryView>
    decreases entries.len(),
{
    if entries.len() == 0 {
        entries
    } else {
        insert_by_name(sort_by_name(entries.drop_last()), entries.last())
    }
}

/// Every row sorts at or before the rows behind it.
pub open spec fn is_sorted_by_name(entries: Seq<FileEntryView>) -> bool {
    forall|i: int, j: int|
        0 <= i <= j < entries.len() ==> name_le(
            (#[trigger] entries[i]).name,
            (#[trigger] entries[j]).name,
        )
}

/// The one row shown for a directory that could not be read.
pub open spec fn error_entry(reason: Seq<char>) -> FileEntryView {
    FileEntryView {
        name: UNREADABLE_LABEL@,
        is_symlink: false,
        info: EntryInfoView::Error(ERROR_PREFIX@ + reason),
    }
}

/// The listing for the outcome of a directory read.
pub open spec fn listing_of(read: Result<Seq<ChildReadView>, Seq<char>>) -> Seq<FileEntryView> {
    match read {
        Ok(children) => sort_by_name(kept_entries(children)),
        Err(reason) => seq![error_entry(reason)],
    }
}

/// The rows of `entries` whose name is `name`.
pub open spec fn rows_named(entries: Seq<FileEntryView>, name: Seq<char>) -> Seq<FileEntryView> {
    entries.filter(|entry: FileEntryView| entry.name == name)
}

/// Putting a row into a listing adds that row and nothing else.
pub proof fn lemma_insert_permutes(sorted: Seq<FileEntryView>, entry: FileEntryView)
    ensures
        insert_by_name(sorted, entry).len() == sorted.len() + 1,
        insert_by_name(sorted, entry).to_multiset() == sorted.to_multiset().insert(entry),
    decreases sorted.len(),
{
    broadcast use vstd::seq_lib::to_multiset_build;

    if !(sorted.len() == 0 || name_le(sorted.last().name, entry.name)) {
        let front = sorted.drop_last();
        lemma_insert_permutes(front, entry);
        assert(front.push(sorted.last()) =~= sorted);
        assert(insert_by_name(sorted, entry).to_multiset() =~= sorted.to_multiset().insert(entry));
    }
}

/// Where `entry` comes to stand: behind a front that it does not precede and
/// before a back of rows that all sort after it.
proof fn lemma_insert_splits(sorted: Seq<FileEntryView>, entry: FileEntryView) -> (at: int)
    ensures
        0 <= at <= sorted.len(),
        insert_by_name(sorted, entry) == sorted.insert(at, entry),
        at == 0 || name_le(sorted[at - 1].name, entry.name),
        forall|k: int| at <= k < sorted.len() ==> !name_le((#[trigger] sorted[k]).name, entry.name),
    decreases sorted.len(),
{
    if sorted.len() == 0 || name_le(sorted.last().name, entry.name) {
        assert(sorted.insert(sorted.len() as int, entry) =~= sorted.push(entry));
        sorted.len() as int
    } else {
        let front = sorted.drop_last();
        let at = lemma_insert_splits(front, entry);
        assert(front.insert(at, entry).push(sorted.last()) =~= sorted.insert(at, entry));
        assert forall|k: int| at <= k < sorted.len() implies !name_le(
            (#[trigger] sorted[k]).name,
            entry.name,
        ) by {
            if k < front.len() {
                assert(front[k] == sorted[k]);
            }
        }
        at
    }
}

/// A listing in order stays in order when a row is put into it.
pub proof fn lemma_insert_keeps_sorted(sorted: Seq<FileEntryView>, entry: FileEntryView)
    requires
        is_sorted_by_name(sorted),
    ensures
        is_sorted_by_name(insert_by_name(sorted, entry)),
{
    let at = lemma_insert_splits(sorted, entry);
    let out = sorted.insert(at, entry);
    assert forall|i: int, j: int| 0 <= i <= j < out.len() implies name_le(
        (#[trigger] out[i]).name,
        (#[trigger] out[j]).name,
    ) by {
        let bytes = |e: FileEntryView| vstd::utf8::encode_utf8(e.name);
        if i == j {
            lemma_bytes_le_total(bytes(out[i]), bytes(out[i]));
        } else if j < at {
            assert(out[i] == sorted[i] && out[j] == sorted[j]);
        } else if j == at {
            assert(out[i] == sorted[i]);
            assert(name_le(sorted[i].name, sorted[at - 1].name));
            lemma_bytes_le_transitive(bytes(sorted[i]), bytes(sorted[at - 1]), bytes(entry));
        } else if i < at {
            assert(out[i] == sorted[i] && out[j] == sorted[j - 1]);
        } else if i == at {
            assert(out[j] == sorted[j - 1]);
            lemma_bytes_le_total(bytes(sorted[j - 1]), bytes(entry));
        } else {
            assert(out[i] == sorted[i - 1] && out[j] == sorted[j - 1]);
        }
    }
}

/// The sorted listing is in ascending order of names.
pub proof fn lemma_sort_is_sorted(entries: Seq<FileEntryView>)
    ensures
        is_sorted_by_name(sort_by_name(entries)),
    decreases entries.len(),
{
    if entries.len() > 0 {
        lemma_sort_is_sorted(entries.drop_last());
        lemma_insert_keeps_sorted(sort_by_name(entries.drop_last()), entries.last());
    }
}

/// Sorting neither adds nor loses a row.
pub proof fn lemma_sort_permutes(entries: Seq<FileEntryView>)
    ensures
        sort_by_name(entries).len() == entries.len(),
        sort_by_name(entries).to_multiset() == entries.to_multiset(),
    decreases entries.len(),
{
    broadcast use vstd::seq_lib::to_multiset_build;

    if entries.len() > 0 {
        let front = entries.drop_last();
        lemma_sort_permutes(front);
        lemma_insert_permutes(sort_by_name(front), entries.last());
        assert(front.push(entries.last()) =~= entries);
    }
}

/// Putting a row into a listing leaves the rows of every name in their
/// order, the new row behind the others of its name.
pub proof fn lemma_insert_is_stable(
    sorted: Seq<FileEntryView>,
    entry: FileEntryView,
    name: Seq<char>,
)
    ensures
        rows_named(insert_by_name(sorted, entry), name) == if entry.name == name {
            rows_named(sorted, name).push(entry)
        } else {
            rows_named(sorted, name)
        },
    decreases sorted.len(),
{
    reveal(Seq::filter);
    if sorted.len() == 0 || name_le(sorted.last().name, entry.name) {
        assert(sorted.push(entry).drop_last() =~= sorted);
    } else {
        let front = sorted.drop_last();
        let placed = insert_by_name(front, entry);
        lemma_insert_is_stable(front, entry, name);
        assert(placed.push(sorted.last()).drop_last() =~= placed);
        if entry.name == name && sorted.last().name == name {
            lemma_name_order_total(name, name, name);
        }
    }
}

/// Sorting is stable: the rows of any one name stand in the sorted listing
/// in the order they had before.
pub proof fn lemma_sort_is_stable(entries: Seq<FileEntryView>, name: Seq<char>)
    ensures
        rows_named(sort_by_name(entries), name) == rows_named(entries, name),
    decreases entries.len(),
{
    reveal(Seq::filter);
    if entries.len() > 0 {
        lemma_sort_is_stable(entries.drop_last(), name);
        lemma_insert_is_stable(sort_by_name(entries.drop_last()), entries.last(), name);
    }
}

/// Every row of a listing obeys the rule that only a link has a target.
pub proof fn lemma_listing_wf(read: Result<Seq<ChildReadView>, Seq<char>>)
    ensures
        forall|k: int| 0 <= k < listing_of(read).len() ==> (#[trigger] listing_of(read)[k]).wf(),
{
    match read {
        Ok(children) => {
            lemma_kept_wf(children);
            let kept = kept_entries(children);
            let sorted = sort_by_name(kept);
            lemma_sort_permutes(kept);
            assert forall|k: int| 0 <= k < sorted.len() implies (#[trigger] sorted[k]).wf() by {
                broadcast use vstd::seq_lib::to_multiset_contains;

                assert(sorted.contains(sorted[k]));
                assert(kept.to_multiset().count(sorted[k]) > 0);
                assert(kept.contains(sorted[k]));
            }
        },
        Err(reason) => {},
    }
}

proof fn lemma_kept_wf(children: Seq<ChildReadView>)
    ensures
        forall|k: int|
            0 <= k < kept_entries(children).len() ==> (#[trigger] kept_entries(children)[k]).wf(),
    decreases children.len(),
{
    if children.len() > 0 {
        lemma_kept_wf(children.drop_last());
        let before = kept_entries(children.drop_last());
        let kept = kept_entries(children);
        assert forall|k: int| 0 <= k < kept.len() implies (#[trigger] kept[k]).wf() by {
            if k < before.len() {
                assert(kept[k] == before[k]);
            }
        }
    }
}

/// The row for a child with a readable name: a link carries its target, or a
/// placeholder where the target is not valid text or could not be read.
pub fn entry_of_child(name: String, link: LinkRead) -> (entry: FileEntry)
    ensures
        entry@ == entry_of(name@, link@),
        entry@.wf(),
{
    match link {
        LinkRead::NotALink => FileEntry { name, is_symlink: false, info: EntryInfo::NoInfo },
        LinkRead::Target(target) => FileEntry {
            name,
            is_symlink: true,
            info: EntryInfo::SymlinkTarget(target),
        },
        LinkRead::UndecodableTarget => FileEntry {
            name,
            is_symlink: true,
            info: EntryInfo::SymlinkTarget(String::from_str(INVALID_TARGET)),
        },
        LinkRead::Unreadable => FileEntry {
            name,
            is_symlink: true,
            info: EntryInfo::SymlinkTarget(String::from_str(BROKEN_TARGET)),
        },
    }
}

/// The one row for a directory that could not be read, with the reason
/// behind a fixed prefix.
pub fn unreadable_entry(reason: &str) -> (entry: FileEntry)
    ensures
        entry@ == error_entry(reason@),
{
    let mut message = String::from_str(ERROR_PREFIX);
    message.append(reason);
    FileEntry {
        name: String::from_str(UNREADABLE_LABEL),
        is_symlink: false,
        info: EntryInfo::Error(message),
    }
}

fn insertion_point(listing: &Vec<FileEntry>, name: &str) -> (at: usize)
    ensures
        at <= listing@.len(),
        at == 0 || name_le(listing@[at - 1].name@, name@),
        forall|k: int| at <= k < listing@.len() ==> !name_le((#[trigger] listing@[k]).name@, name@),
{
    let mut at = listing.len();
    while at > 0
        invariant
            at <= listing@.len(),
            forall|k: int|
                at <= k < listing@.len() ==> !name_le((#[trigger] listing@[k]).name@, name@),
        decreases at,
    {
        if name_precedes(listing[at - 1].name.as_str(), name) {
            return at;
        }
        at -= 1;
    }
    at
}

proof fn lemma_insert_at(sorted: Seq<FileEntryView>, entry: FileEntryView, at: int)
    requires
        0 <= at <= sorted.len(),
        at == 0 || name_le(sorted[at - 1].name, entry.name),
        forall|k: int| at <= k < sorted.len() ==> !name_le((#[trigger] sorted[k]).name, entry.name),
    ensures
        insert_by_name(sorted, entry) == sorted.insert(at, entry),
    decreases sorted.len(),
{
    if at == sorted.len() {
        assert(sorted.insert(at, entry) =~= sorted.push(entry));
    } else {
        let front = sorted.drop_last();
        assert(!name_le(sorted[sorted.len() - 1].name, entry.name));
        assert forall|k: int| at <= k < front.len() implies !name_le(
            (#[trigger] front[k]).name,
            entry.name,
        ) by {
            assert(front[k] == sorted[k]);
        }
        lemma_insert_at(front, entry, at);
        assert(front.insert(at, entry).push(sorted.last()) =~= sorted.insert(at, entry));
    }
}

/// Puts `entry` into a listing behind the last row that does not sort after
/// it.
pub fn insert_sorted(listing: &mut Vec<FileEntry>, entry: FileEntry)
    ensures
        final(listing).deep_view() == insert_by_name(old(listing).deep_view(), entry@),
{
    let at = insertion_point(listing, entry.name.as_str());
    let ghost before = listing.deep_view();
    let ghost row = entry@;
    proof {
        assert forall|k: int| at <= k < before.len() implies !name_le(
            (#[trigger] before[k]).name,
            row.name,
        ) by {
            assert(before[k] == listing@[k]@);
        }
        if at > 0 {
            assert(before[at - 1] == listing@[at - 1]@);
        }
        lemma_insert_at(before, row, at as int);
    }
    listing.insert(at, entry);
    assert(listing.deep_view() =~= before.insert(at as int, row));
}

/// The listing for the outcome of a directory read. Children without a
/// readable name are left out and the others stand in ascending order of
/// their names. A failed read gives exactly one row, which is no link and
/// carries the reason.
pub fn list_directory(read: Result<Vec<ChildRead>, String>) -> (listing: Vec<FileEntry>)
    ensures
        listing.deep_view() == listing_of(read_view(read)),
        read is Err ==> listing@.len() == 1,
{
    let mut listing: Vec<FileEntry> = Vec::new();
    match read {
        Ok(children) => {
            let ghost all = children.deep_view();
            proof {
                assert(all.take(0) =~= Seq::empty());
                assert(listing.deep_view() =~= Seq::empty());
            }
            for child in it: children
                invariant
                    it.seq().len() == all.len(),
                    forall|k: int| 0 <= k < all.len() ==> (#[trigger] it.seq()[k])@ == all[k],
                    listing.deep_view() == sort_by_name(kept_entries(all.take(it.index() as int))),
            {
                proof {
                    let upto = all.take(it.index() + 1);
                    assert(upto.drop_last() =~= all.take(it.index() as int));
                    assert(upto.last() == child@);
                    let kept = kept_entries(all.take(it.index() as int));
                    if child@.name is Some {
                        let row = entry_of(child@.name->0, child@.link);
                        assert(kept.push(row).drop_last() =~= kept);
                    }
                }
                match child.name {
                    Some(name) => {
                        let entry = entry_of_child(name, child.link);
                        insert_sorted(&mut listing, entry);
                    },
                    None => {},
                }
            }
            proof {
                assert(all.take(all.len() as int) =~= all);
            }
        },
        Err(reason) => {
            let entry = unreadable_entry(reason.as_str());
            listing.push(entry);
            assert(listing.deep_view() =~= seq![error_entry(reason@)]);
        },
    }
    listing
}

} // verus!
