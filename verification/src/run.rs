//! What holds of the entries of every listing, whatever the service answers.

use vstd::prelude::*;
use crate::buckets::listed_buckets;
use crate::item::{
    directory_item_view, lemma_bucket_item_well_formed, lemma_directory_item_well_formed,
    lemma_object_item_well_formed, StorageItemView,
};
use crate::listing::{appends_page, ListingEventView, ListingMode, ListingView};
use crate::page::{directory_item_views, shown_prefixes, ListPageView};
use crate::text::{ends_with_delimiter, last_non_empty, segments, DELIMITER};

verus! {

/// Whether `listings` are the states of one listing from call to call, and
/// `events` what it was handed between them.
pub open spec fn is_run(listings: Seq<ListingView>, events: Seq<ListingEventView>) -> bool {
    &&& listings.len() == events.len() + 1
    &&& forall|i: int|
        #![trigger listings[i]]
        0 <= i < events.len() ==> listings[i].after(events[i], listings[i + 1])
}

/// Whether every page among `events` has common prefixes that end with the
/// delimiter, as a service that groups keys by the delimiter returns them.
pub open spec fn prefixes_delimited(events: Seq<ListingEventView>) -> bool {
    forall|i: int|
        0 <= i < events.len() && (#[trigger] events[i]) is Page
            ==> events[i]->page.prefixes_delimited()
}

/// Whether every entry is well formed and every directory is named after its
/// path: the path ends with the delimiter, and the name is the last segment of
/// the path that is not empty, with the delimiter behind it. A path made of
/// delimiters alone has no such segment, and its directory has no name.
pub open spec fn entries_sound(items: Seq<StorageItemView>) -> bool {
    forall|i: int|
        0 <= i < items.len() ==> {
            &&& (#[trigger] items[i]).well_formed()
            &&& items[i].file_info.is_directory ==> {
                &&& ends_with_delimiter(items[i].file_info.path)
                &&& items[i].file_info.file_name == match last_non_empty(
                    segments(items[i].file_info.path),
                ) {
                    Some(segment) => segment.push(DELIMITER),
                    None => Seq::<char>::empty(),
                }
            }
        }
}

/// Every prefix that a listing shows is one of the prefixes it was given.
pub proof fn lemma_shown_prefixes_are_given(prefixes: Seq<Seq<char>>, at: int)
    requires
        0 <= at < shown_prefixes(prefixes).len(),
    ensures
        prefixes.contains(shown_prefixes(prefixes)[at]),
    decreases prefixes.len(),
{
    let shorter = prefixes.drop_last();
    if at < shown_prefixes(shorter).len() {
        lemma_shown_prefixes_are_given(shorter, at);
        let i = choose|i: int| 0 <= i < shorter.len() && shorter[i] == shown_prefixes(shorter)[at];
        assert(prefixes[i] == shown_prefixes(prefixes)[at]);
    } else {
        assert(prefixes[prefixes.len() - 1] == shown_prefixes(prefixes)[at]);
    }
}

/// One call keeps the entries of a listing sound, where the page that
/// answers it has common prefixes that end with the delimiter.
pub proof fn lemma_step_keeps_entries_sound(
    listing: ListingView,
    event: ListingEventView,
    next: ListingView,
)
    requires
        listing.after(event, next),
        entries_sound(listing.items),
        event is Page ==> event->page.prefixes_delimited(),
    ensures
        entries_sound(next.items),
{
    if listing.phase is Walking && listing.stack.len() > 0 {
        match listing.mode {
            ListingMode::Root => {
                if let ListingEventView::Buckets { names } = event {
                    let added = listed_buckets(names);
                    assert forall|i: int| 0 <= i < next.items.len() implies {
                        &&& (#[trigger] next.items[i]).well_formed()
                        &&& !next.items[i].file_info.is_directory || listing.items.contains(
                            next.items[i],
                        )
                    } by {
                        if i < listing.items.len() {
                            assert(next.items[i] == listing.items[i]);
                        } else {
                            assert(next.items[i] == added[i - listing.items.len()]);
                            lemma_bucket_item_well_formed(next.items[i].file_info.path);
                        }
                    }
                }
            },
            _ => {
                if let ListingEventView::Page { page } = event {
                    lemma_page_keeps_entries_sound(
                        listing.items,
                        next.items,
                        listing.mode,
                        listing.bucket,
                        listing.region,
                        page,
                    );
                }
            },
        }
    }
}

/// The entries of a page with delimited common prefixes are sound.
proof fn lemma_page_keeps_entries_sound(
    before: Seq<StorageItemView>,
    after: Seq<StorageItemView>,
    mode: ListingMode,
    bucket: Seq<char>,
    region: Seq<char>,
    page: ListPageView,
)
    requires
        appends_page(before, after, mode, bucket, region, page),
        entries_sound(before),
        page.prefixes_delimited(),
    ensures
        entries_sound(after),
{
    let first = before.len() as int;
    let count = page.contents.len() as int;
    assert forall|i: int| 0 <= i < after.len() implies {
        &&& (#[trigger] after[i]).well_formed()
        &&& after[i].file_info.is_directory ==> {
            &&& ends_with_delimiter(after[i].file_info.path)
            &&& after[i].file_info.file_name == match last_non_empty(
                segments(after[i].file_info.path),
            ) {
                Some(segment) => segment.push(DELIMITER),
                None => Seq::<char>::empty(),
            }
        }
    } by {
        if i < first {
            assert(after.take(first)[i] == after[i]);
            assert(before[i].well_formed());
        } else if i < first + count {
            let item = after.subrange(first, first + count)[i - first];
            assert(item == after[i]);
            lemma_object_item_well_formed(
                bucket,
                region,
                item.file_info.path,
                page.contents[i - first].size,
                item.file_info.file_type,
            );
        } else {
            let at = i - first - count;
            let rest = after.skip(first + count);
            assert(rest.len() == after.len() - first - count);
            assert(rest[at] == after[i]);
            match mode {
                ListingMode::Shallow => {
                    let shown = shown_prefixes(page.prefixes());
                    assert(rest == directory_item_views(bucket, region, page.prefixes()));
                    assert(at < shown.len());
                    assert(after[i] == directory_item_views(bucket, region, page.prefixes())[at]);
                    assert(after[i] == directory_item_view(bucket, region, shown[at]));
                    lemma_shown_prefixes_are_given(page.prefixes(), at);
                    let given = choose|given: int|
                        0 <= given < page.prefixes().len() && page.prefixes()[given] == shown[at];
                    assert(ends_with_delimiter(page.prefixes()[given]));
                    lemma_directory_item_well_formed(bucket, region, shown[at]);
                },
                _ => {},
            }
        }
    }
}

/// The entries of every state of a run that begins with sound entries are
/// sound.
pub proof fn lemma_run_keeps_entries_sound(
    listings: Seq<ListingView>,
    events: Seq<ListingEventView>,
    at: int,
)
    requires
        is_run(listings, events),
        prefixes_delimited(events),
        entries_sound(listings[0].items),
        0 <= at < listings.len(),
    ensures
        entries_sound(listings[at].items),
    decreases at,
{
    if at > 0 {
        lemma_run_keeps_entries_sound(listings, events, at - 1);
        let before = listings[at - 1];
        assert(before.after(events[at - 1], listings[at]));
        assert(events[at - 1] is Page ==> events[at - 1]->page.prefixes_delimited());
        lemma_step_keeps_entries_sound(before, events[at - 1], listings[at]);
    }
}

/// In every listing, whatever was asked for and however many calls it took,
/// each entry is well formed, and each directory, as a listing of one level of
/// a bucket returns them, has a path that ends with the delimiter and is named
/// by the last non-empty segment of its path followed by the delimiter,
/// provided that the service's common prefixes end with the delimiter.
pub proof fn lemma_listing_names_directories(
    listings: Seq<ListingView>,
    events: Seq<ListingEventView>,
)
    requires
        is_run(listings, events),
        prefixes_delimited(events),
        listings[0].items.len() == 0,
    ensures
        entries_sound(listings.last().items),
{
    lemma_run_keeps_entries_sound(listings, events, listings.len() - 1);
}

} // verus!
