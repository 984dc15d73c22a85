//! One page of a delimited listing, as the service answers it, and the
//! entries that the engine makes of it.

use vstd::prelude::*;
use crate::item::{
    directory_item_view, item_views, object_item_view, StorageItem, StorageItemView,
};
use crate::text::{
    chars_of, file_type, file_type_of, optional_text, owned_or_empty, text_or_empty, DELIMITER,
};

verus! {

/// An object of a page: its key and its size, each as far as the service gave it.
#[derive(Debug)]
pub struct ObjectEntry {
    pub key: Option<String>,
    pub size: Option<i64>,
}

/// What an [`ObjectEntry`] holds, as plain values.
pub struct ObjectEntryView {
    pub key: Option<Seq<char>>,
    pub size: Option<i64>,
}

impl View for ObjectEntry {
    type V = ObjectEntryView;

    open spec fn view(&self) -> ObjectEntryView {
        ObjectEntryView { key: optional_text(self.key), size: self.size }
    }
}

/// One page of a listing with a delimiter: the objects directly under the
/// prefix, and the common prefixes that stand for the directories under it.
#[derive(Debug)]
pub struct ListPage {
    pub contents: Vec<ObjectEntry>,
    pub common_prefixes: Vec<Option<String>>,
}

/// What a [`ListPage`] holds, as plain values.
pub struct ListPageView {
    pub contents: Seq<ObjectEntryView>,
    pub common_prefixes: Seq<Option<Seq<char>>>,
}

impl View for ListPage {
    type V = ListPageView;

    open spec fn view(&self) -> ListPageView {
        ListPageView {
            contents: Seq::new(self.contents@.len(), |i: int| self.contents@[i]@),
            common_prefixes: Seq::new(
                self.common_prefixes@.len(),
                |i: int| optional_text(self.common_prefixes@[i]),
            ),
        }
    }
}

impl ListPageView {
    /// The keys of the page's objects, in order; a missing key counts as empty.
    pub open spec fn keys(self) -> Seq<Seq<char>> {
        Seq::new(self.contents.len(), |i: int| text_or_empty(self.contents[i].key))
    }

    /// The page's common prefixes, in order; a missing one counts as empty.
    pub open spec fn prefixes(self) -> Seq<Seq<char>> {
        Seq::new(self.common_prefixes.len(), |i: int| text_or_empty(self.common_prefixes[i]))
    }

    /// Whether every common prefix of the page ends with the delimiter, as
    /// those of a listing with that delimiter do.
    pub open spec fn prefixes_delimited(self) -> bool {
        forall|i: int|
            0 <= i < self.common_prefixes.len() ==> crate::text::ends_with_delimiter(
                #[trigger] self.prefixes()[i],
            )
    }
}

/// The prefix that is the delimiter alone. A listing shows no directory for it.
pub open spec fn root_marker() -> Seq<char> {
    seq![DELIMITER]
}

/// Whether `item` is the entry of the object `entry`: it is shown under its
/// key, with the name, the size and the type that the key and the entry give.
pub open spec fn is_object_item(
    item: StorageItemView,
    bucket: Seq<char>,
    region: Seq<char>,
    entry: ObjectEntryView,
) -> bool {
    let key = text_or_empty(entry.key);
    item == object_item_view(bucket, region, key, entry.size, file_type_of(key))
}

/// Whether `items` are the entries of the objects `entries`, one each and in
/// the same order.
pub open spec fn are_object_items(
    items: Seq<StorageItemView>,
    bucket: Seq<char>,
    region: Seq<char>,
    entries: Seq<ObjectEntryView>,
) -> bool {
    &&& items.len() == entries.len()
    &&& forall|i: int|
        0 <= i < items.len() ==> is_object_item(#[trigger] items[i], bucket, region, entries[i])
}

/// The prefixes that a listing shows a directory for: all but the root
/// marker, in order.
pub open spec fn shown_prefixes(prefixes: Seq<Seq<char>>) -> Seq<Seq<char>>
    decreases prefixes.len(),
{
    if prefixes.len() == 0 {
        Seq::empty()
    } else if prefixes.last() == root_marker() {
        shown_prefixes(prefixes.drop_last())
    } else {
        shown_prefixes(prefixes.drop_last()).push(prefixes.last())
    }
}

/// The directory entries for `prefixes`, one for each that is shown, in order.
pub open spec fn directory_item_views(
    bucket: Seq<char>,
    region: Seq<char>,
    prefixes: Seq<Seq<char>>,
) -> Seq<StorageItemView> {
    Seq::new(
        shown_prefixes(prefixes).len(),
        |i: int| directory_item_view(bucket, region, shown_prefixes(prefixes)[i]),
    )
}

/// Whether `text` is the delimiter alone.
pub fn is_root_marker(text: &str) -> (yes: bool)
    ensures
        yes == (text@ == root_marker()),
{
    let chars = chars_of(text);
    let yes = chars.len() == 1 && chars[0] == DELIMITER;
    proof {
        if yes {
            assert(text@ =~= root_marker());
        }
    }
    yes
}

/// The entries of the objects of `page`, in the page's order.
pub fn object_items(bucket: &str, region: &str, page: &ListPage) -> (items: Vec<StorageItem>)
    ensures
        are_object_items(item_views(items@), bucket@, region@, page@.contents),
{
    let mut items: Vec<StorageItem> = Vec::new();
    let mut index: usize = 0;
    while index < page.contents.len()
        invariant
            index <= page.contents.len(),
            are_object_items(
                item_views(items@),
                bucket@,
                region@,
                page@.contents.take(index as int),
            ),
        decreases page.contents.len() - index,
    {
        let entry = &page.contents[index];
        let key = owned_or_empty(&entry.key);
        let shown_type = file_type(key.as_str());
        let item = StorageItem::object(bucket, region, key.as_str(), entry.size, shown_type);
        let ghost before = item_views(items@);
        items.push(item);
        proof {
            let after = item_views(items@);
            assert(page@.contents.take(index + 1)[index as int] == entry@);
            assert forall|i: int| 0 <= i < after.len() implies is_object_item(
                #[trigger] after[i],
                bucket@,
                region@,
                page@.contents.take(index + 1)[i],
            ) by {
                if i < index {
                    assert(after[i] == before[i]);
                    assert(page@.contents.take(index + 1)[i] == page@.contents.take(index as int)[i]);
                }
            }
        }
        index = index + 1;
    }
    assert(page@.contents.take(index as int) =~= page@.contents);
    items
}

/// The directory entries for the common prefixes of `page`, in the page's
/// order, without one for the root marker.
pub fn directory_items(bucket: &str, region: &str, page: &ListPage) -> (items: Vec<StorageItem>)
    ensures
        item_views(items@) == directory_item_views(bucket@, region@, page@.prefixes()),
{
    let mut items: Vec<StorageItem> = Vec::new();
    let mut index: usize = 0;
    assert(item_views(items@) =~= directory_item_views(
        bucket@,
        region@,
        page@.prefixes().take(0),
    ));
    while index < page.common_prefixes.len()
        invariant
            index <= page.common_prefixes.len(),
            item_views(items@) == directory_item_views(
                bucket@,
                region@,
                page@.prefixes().take(index as int),
            ),
        decreases page.common_prefixes.len() - index,
    {
        let prefix = owned_or_empty(&page.common_prefixes[index]);
        proof {
            let longer = page@.prefixes().take(index + 1);
            assert(longer.drop_last() =~= page@.prefixes().take(index as int));
            assert(longer.last() == prefix@);
        }
        if !is_root_marker(prefix.as_str()) {
            let item = StorageItem::directory(bucket, region, prefix.as_str());
            let ghost before = item_views(items@);
            items.push(item);
            proof {
                let shorter = page@.prefixes().take(index as int);
                let longer = page@.prefixes().take(index + 1);
                assert(shown_prefixes(longer) == shown_prefixes(shorter).push(prefix@));
                assert(item_views(items@) =~= before.push(
                    directory_item_view(bucket@, region@, prefix@),
                ));
                assert(item_views(items@) =~= directory_item_views(bucket@, region@, longer));
            }
        }
        index = index + 1;
    }
    assert(page@.prefixes().take(index as int) =~= page@.prefixes());
    items
}

} // verus!
