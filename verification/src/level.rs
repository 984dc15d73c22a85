//! A listing of one level run against a bucket: what it returns when every
//! answer is what the service holds for the prefix.

use vstd::prelude::*;
use crate::item::StorageItemView;
use crate::key_space::{all_keys, all_prefixes, is_common_prefix, is_direct, lists};
use crate::listing::{
    appends_page, ListingCommandView, ListingEventView, ListingMode, ListingPhaseView,
    ListingView, WorkView,
};
use crate::page::{directory_item_views, root_marker, shown_prefixes, ListPageView};
use crate::text::text_or_empty;
use crate::walk::{answer, faithful, is_walk, plain_entries, OpenStream};

verus! {

/// The entries of one page of a listing of one level: its objects, then a
/// directory for each of its common prefixes but the root marker.
pub open spec fn page_entries(bucket: Seq<char>, region: Seq<char>, page: ListPageView) -> Seq<
    StorageItemView,
> {
    plain_entries(bucket, region, page) + directory_item_views(bucket, region, page.prefixes())
}

/// The entries of `pages`, page after page.
pub open spec fn level_entries(
    bucket: Seq<char>,
    region: Seq<char>,
    pages: Seq<ListPageView>,
) -> Seq<StorageItemView>
    decreases pages.len(),
{
    if pages.len() == 0 {
        Seq::empty()
    } else {
        level_entries(bucket, region, pages.drop_last()) + page_entries(
            bucket,
            region,
            pages.last(),
        )
    }
}

/// Whether an object with the key `key` is among `items`.
pub open spec fn has_object(items: Seq<StorageItemView>, key: Seq<char>) -> bool {
    exists|i: int|
        0 <= i < items.len() && !(#[trigger] items[i]).file_info.is_directory
            && items[i].file_info.path == key
}

/// Whether a directory with the path `path` is among `items`.
pub open spec fn has_directory(items: Seq<StorageItemView>, path: Seq<char>) -> bool {
    exists|i: int|
        0 <= i < items.len() && (#[trigger] items[i]).file_info.is_directory
            && items[i].file_info.path == path
}

/// Whether a listing of one level stands where the pages of its prefix lead
/// it: before the first page, between two pages, or behind the last.
pub open spec fn at_level(
    service: spec_fn(Option<Seq<char>>) -> Seq<ListPageView>,
    prefix: Option<Seq<char>>,
    listing: ListingView,
    streams: Seq<OpenStream>,
) -> bool {
    let pages = service(prefix);
    &&& listing.mode is Shallow
    &&& match listing.phase {
        ListingPhaseView::Walking => {
            ||| {
                &&& listing.stack == seq![WorkView::Descend { prefix }]
                &&& streams.len() == 0
                &&& listing.items.len() == 0
            }
            ||| {
                &&& listing.stack == seq![WorkView::Stream]
                &&& streams.len() == 1
                &&& streams[0].prefix == prefix
                &&& streams[0].read <= pages.len()
                &&& listing.items == level_entries(
                    listing.bucket,
                    listing.region,
                    pages.take(streams[0].read as int),
                )
            }
        },
        ListingPhaseView::Finished => {
            &&& listing.stack.len() == 0
            &&& listing.items == level_entries(listing.bucket, listing.region, pages)
        },
        _ => false,
    }
}

/// After a page a listing of one level holds what it held, followed by the
/// entries of the page.
proof fn lemma_page_appended(
    before: Seq<StorageItemView>,
    after: Seq<StorageItemView>,
    bucket: Seq<char>,
    region: Seq<char>,
    page: ListPageView,
)
    requires
        appends_page(before, after, ListingMode::Shallow, bucket, region, page),
    ensures
        after == before + page_entries(bucket, region, page),
{
    let first = before.len() as int;
    let count = page.contents.len() as int;
    let objects = after.subrange(first, first + count);
    let rest = after.skip(first + count);
    assert(objects =~= plain_entries(bucket, region, page)) by {
        assert forall|i: int| 0 <= i < count implies objects[i] == plain_entries(
            bucket,
            region,
            page,
        )[i] by {
            assert(crate::page::is_object_item(objects[i], bucket, region, page.contents[i]));
        }
    }
    assert(after =~= after.take(first) + objects + rest);
}

/// One call of a listing of one level keeps it where the pages lead it.
proof fn lemma_level_step(
    service: spec_fn(Option<Seq<char>>) -> Seq<ListPageView>,
    prefix: Option<Seq<char>>,
    listing: ListingView,
    streams: Seq<OpenStream>,
    next: ListingView,
)
    requires
        at_level(service, prefix, listing, streams),
        answer(service, listing, streams) is Some,
        listing.after(answer(service, listing, streams)->0.event, next),
    ensures
        at_level(service, prefix, next, answer(service, listing, streams)->0.streams),
        next.bucket == listing.bucket,
        next.region == listing.region,
{
    let given = answer(service, listing, streams)->0;
    let pages = service(prefix);
    assert(listing.phase is Walking && listing.stack.len() > 0);
    let reading = match listing.command() {
        ListingCommandView::Open { bucket, prefix, region } => streams.push(
            OpenStream { prefix, read: 0 },
        ),
        _ => streams,
    };
    let top = reading.last();
    assert(top.prefix == prefix);
    assert(top.read <= pages.len());
    assert(reading.drop_last() =~= Seq::<OpenStream>::empty());
    assert(listing.items == level_entries(
        listing.bucket,
        listing.region,
        pages.take(top.read as int),
    )) by {
        if top.read == 0 {
            assert(pages.take(0).len() == 0);
        }
    }
    if top.read < pages.len() {
        let page = pages[top.read as int];
        assert(given.event == ListingEventView::Page { page });
        lemma_page_appended(listing.items, next.items, listing.bucket, listing.region, page);
        let longer = pages.take(top.read as int + 1);
        assert(longer.drop_last() =~= pages.take(top.read as int));
        assert(longer.last() == page);
        assert(next.stack =~= seq![WorkView::Stream]);
        assert(given.streams =~= seq![OpenStream { prefix, read: top.read + 1 }]);
    } else {
        assert(given.event == ListingEventView::Exhausted);
        assert(pages.take(top.read as int) =~= pages);
        assert(next.stack =~= Seq::<WorkView>::empty());
    }
}

/// Every state of a walk of one level is where the pages lead it, and the
/// bucket and region stay as they are.
proof fn lemma_level_walk(
    service: spec_fn(Option<Seq<char>>) -> Seq<ListPageView>,
    prefix: Option<Seq<char>>,
    listings: Seq<ListingView>,
    streams: Seq<Seq<OpenStream>>,
    at: int,
)
    requires
        is_walk(service, listings, streams),
        at_level(service, prefix, listings[0], streams[0]),
        0 <= at < listings.len(),
    ensures
        at_level(service, prefix, listings[at], streams[at]),
        listings[at].bucket == listings[0].bucket,
        listings[at].region == listings[0].region,
    decreases at,
{
    if at > 0 {
        lemma_level_walk(service, prefix, listings, streams, at - 1);
        let before = listings[at - 1];
        assert(answer(service, before, streams[at - 1]) is Some);
        lemma_level_step(service, prefix, before, streams[at - 1], listings[at]);
    }
}

/// A listing of one level that is answered by the service until it asks for
/// nothing more returns the entries of the pages of its prefix, page after
/// page: of each page the objects in their order, then the directories in
/// theirs. The walk begins where the region of the bucket has been resolved.
pub proof fn lemma_shallow_listing_returns_the_pages(
    service: spec_fn(Option<Seq<char>>) -> Seq<ListPageView>,
    bucket: Seq<char>,
    prefix: Option<Seq<char>>,
    default_region: Seq<char>,
    region: Seq<char>,
    listings: Seq<ListingView>,
    streams: Seq<Seq<OpenStream>>,
)
    requires
        is_walk(service, listings, streams),
        listings[0] == (ListingView {
            region,
            phase: ListingPhaseView::Walking,
            ..ListingView::start(ListingMode::Shallow, bucket, prefix, default_region)
        }),
        streams[0].len() == 0,
        listings.last().over(),
    ensures
        listings.last().outcome() == Ok::<Seq<StorageItemView>, crate::error::EngineErrorView>(
            level_entries(bucket, region, service(prefix)),
        ),
{
    let last = listings.len() - 1;
    lemma_level_walk(service, prefix, listings, streams, last);
}

/// Among two runs of entries, one after the other, stands what stands in one
/// of them.
proof fn lemma_has_in_concat(
    first: Seq<StorageItemView>,
    second: Seq<StorageItemView>,
    text: Seq<char>,
)
    ensures
        has_object(first + second, text) <==> has_object(first, text) || has_object(second, text),
        has_directory(first + second, text) <==> has_directory(first, text) || has_directory(
            second,
            text,
        ),
{
    let whole = first + second;
    if has_object(first, text) {
        let i = choose|i: int|
            0 <= i < first.len() && !(#[trigger] first[i]).file_info.is_directory
                && first[i].file_info.path == text;
        assert(whole[i] == first[i]);
    }
    if has_object(second, text) {
        let i = choose|i: int|
            0 <= i < second.len() && !(#[trigger] second[i]).file_info.is_directory
                && second[i].file_info.path == text;
        assert(whole[first.len() + i] == second[i]);
    }
    if has_object(whole, text) {
        let i = choose|i: int|
            0 <= i < whole.len() && !(#[trigger] whole[i]).file_info.is_directory
                && whole[i].file_info.path == text;
        if i < first.len() {
            assert(first[i] == whole[i]);
        } else {
            assert(second[i - first.len()] == whole[i]);
        }
    }
    if has_directory(first, text) {
        let i = choose|i: int|
            0 <= i < first.len() && (#[trigger] first[i]).file_info.is_directory
                && first[i].file_info.path == text;
        assert(whole[i] == first[i]);
    }
    if has_directory(second, text) {
        let i = choose|i: int|
            0 <= i < second.len() && (#[trigger] second[i]).file_info.is_directory
                && second[i].file_info.path == text;
        assert(whole[first.len() + i] == second[i]);
    }
    if has_directory(whole, text) {
        let i = choose|i: int|
            0 <= i < whole.len() && (#[trigger] whole[i]).file_info.is_directory
                && whole[i].file_info.path == text;
        if i < first.len() {
            assert(first[i] == whole[i]);
        } else {
            assert(second[i - first.len()] == whole[i]);
        }
    }
}

/// The prefixes that a listing shows are the prefixes it was given, but for
/// the root marker.
proof fn lemma_shown_prefixes_contain(prefixes: Seq<Seq<char>>, text: Seq<char>)
    ensures
        shown_prefixes(prefixes).contains(text) <==> prefixes.contains(text) && text
            != root_marker(),
    decreases prefixes.len(),
{
    if prefixes.len() > 0 {
        let shorter = prefixes.drop_last();
        let shown = shown_prefixes(prefixes);
        lemma_shown_prefixes_contain(shorter, text);
        if shorter.contains(text) {
            let i = choose|i: int| 0 <= i < shorter.len() && shorter[i] == text;
            assert(prefixes[i] == text);
        }
        if prefixes.contains(text) {
            let i = choose|i: int| 0 <= i < prefixes.len() && prefixes[i] == text;
            if i < shorter.len() {
                assert(shorter[i] == text);
            }
        }
        if prefixes.last() == root_marker() {
        } else {
            let before = shown_prefixes(shorter);
            assert(shown == before.push(prefixes.last()));
            if before.contains(text) {
                let i = choose|i: int| 0 <= i < before.len() && before[i] == text;
                assert(shown[i] == text);
            }
            if shown.contains(text) {
                let i = choose|i: int| 0 <= i < shown.len() && shown[i] == text;
                if i < before.len() {
                    assert(before[i] == text);
                }
            }
            if prefixes.last() == text {
                assert(shown[shown.len() - 1] == text);
                assert(prefixes[prefixes.len() - 1] == text);
            }
        }
    }
}

/// Among the entries of a page stand its objects and the directories of the
/// common prefixes that it shows.
proof fn lemma_page_entries_hold(
    bucket: Seq<char>,
    region: Seq<char>,
    page: ListPageView,
    text: Seq<char>,
)
    ensures
        has_object(page_entries(bucket, region, page), text) <==> page.keys().contains(text),
        has_directory(page_entries(bucket, region, page), text) <==> page.prefixes().contains(text)
            && text != root_marker(),
{
    let objects = plain_entries(bucket, region, page);
    let folders = directory_item_views(bucket, region, page.prefixes());
    let shown = shown_prefixes(page.prefixes());
    lemma_has_in_concat(objects, folders, text);
    lemma_shown_prefixes_contain(page.prefixes(), text);
    assert(!has_object(folders, text));
    assert(!has_directory(objects, text));
    if page.keys().contains(text) {
        let i = choose|i: int| 0 <= i < page.keys().len() && page.keys()[i] == text;
        assert(objects[i].file_info.path == text);
    }
    if has_object(objects, text) {
        let i = choose|i: int|
            0 <= i < objects.len() && !(#[trigger] objects[i]).file_info.is_directory
                && objects[i].file_info.path == text;
        assert(page.keys()[i] == text);
    }
    if shown.contains(text) {
        let i = choose|i: int| 0 <= i < shown.len() && shown[i] == text;
        assert(folders[i].file_info.path == text);
    }
    if has_directory(folders, text) {
        let i = choose|i: int|
            0 <= i < folders.len() && (#[trigger] folders[i]).file_info.is_directory
                && folders[i].file_info.path == text;
        assert(shown[i] == text);
    }
}

/// Among the keys of all pages stand the keys of each, and among the common
/// prefixes of all pages the common prefixes of each.
proof fn lemma_all_of_pages(pages: Seq<ListPageView>, text: Seq<char>)
    ensures
        all_keys(pages).contains(text) <==> exists|j: int|
            0 <= j < pages.len() && (#[trigger] pages[j]).keys().contains(text),
        all_prefixes(pages).contains(text) <==> exists|j: int|
            0 <= j < pages.len() && (#[trigger] pages[j]).prefixes().contains(text),
    decreases pages.len(),
{
    if pages.len() > 0 {
        let rest = pages.drop_first();
        lemma_all_of_pages(rest, text);
        lemma_contains_in_concat(pages.first().keys(), all_keys(rest), text);
        lemma_contains_in_concat(pages.first().prefixes(), all_prefixes(rest), text);
        if exists|j: int| 0 <= j < rest.len() && (#[trigger] rest[j]).keys().contains(text) {
            let j = choose|j: int| 0 <= j < rest.len() && (#[trigger] rest[j]).keys().contains(text);
            assert(pages[j + 1] == rest[j]);
        }
        if exists|j: int| 0 <= j < rest.len() && (#[trigger] rest[j]).prefixes().contains(text) {
            let j = choose|j: int|
                0 <= j < rest.len() && (#[trigger] rest[j]).prefixes().contains(text);
            assert(pages[j + 1] == rest[j]);
        }
        if exists|j: int| 0 <= j < pages.len() && (#[trigger] pages[j]).keys().contains(text) {
            let j = choose|j: int|
                0 <= j < pages.len() && (#[trigger] pages[j]).keys().contains(text);
            if j > 0 {
                assert(rest[j - 1] == pages[j]);
            }
        }
        if exists|j: int| 0 <= j < pages.len() && (#[trigger] pages[j]).prefixes().contains(text) {
            let j = choose|j: int|
                0 <= j < pages.len() && (#[trigger] pages[j]).prefixes().contains(text);
            if j > 0 {
                assert(rest[j - 1] == pages[j]);
            }
        }
        if pages.first().keys().contains(text) {
            assert(pages[0].keys().contains(text));
        }
        if pages.first().prefixes().contains(text) {
            assert(pages[0].prefixes().contains(text));
        }
    }
}

/// Among two runs of texts, one after the other, stands what stands in one of
/// them.
proof fn lemma_contains_in_concat(
    first: Seq<Seq<char>>,
    second: Seq<Seq<char>>,
    text: Seq<char>,
)
    ensures
        (first + second).contains(text) <==> first.contains(text) || second.contains(text),
{
    let whole = first + second;
    if first.contains(text) {
        let i = choose|i: int| 0 <= i < first.len() && first[i] == text;
        assert(whole[i] == text);
    }
    if second.contains(text) {
        let i = choose|i: int| 0 <= i < second.len() && second[i] == text;
        assert(whole[first.len() + i] == text);
    }
    if whole.contains(text) {
        let i = choose|i: int| 0 <= i < whole.len() && whole[i] == text;
        if i < first.len() {
            assert(first[i] == text);
        } else {
            assert(second[i - first.len()] == text);
        }
    }
}

/// Among the entries of pages stand the objects of each page, and the
/// directories of the common prefixes that each shows.
proof fn lemma_level_entries_hold(
    bucket: Seq<char>,
    region: Seq<char>,
    pages: Seq<ListPageView>,
    text: Seq<char>,
)
    ensures
        has_object(level_entries(bucket, region, pages), text) <==> exists|j: int|
            0 <= j < pages.len() && (#[trigger] pages[j]).keys().contains(text),
        has_directory(level_entries(bucket, region, pages), text) <==> text != root_marker()
            && exists|j: int|
            0 <= j < pages.len() && (#[trigger] pages[j]).prefixes().contains(text),
    decreases pages.len(),
{
    if pages.len() > 0 {
        let shorter = pages.drop_last();
        let last = pages.last();
        lemma_level_entries_hold(bucket, region, shorter, text);
        lemma_page_entries_hold(bucket, region, last, text);
        lemma_has_in_concat(
            level_entries(bucket, region, shorter),
            page_entries(bucket, region, last),
            text,
        );
        if exists|j: int| 0 <= j < shorter.len() && (#[trigger] shorter[j]).keys().contains(text) {
            let j = choose|j: int|
                0 <= j < shorter.len() && (#[trigger] shorter[j]).keys().contains(text);
            assert(pages[j] == shorter[j]);
        }
        if exists|j: int|
            0 <= j < shorter.len() && (#[trigger] shorter[j]).prefixes().contains(text) {
            let j = choose|j: int|
                0 <= j < shorter.len() && (#[trigger] shorter[j]).prefixes().contains(text);
            assert(pages[j] == shorter[j]);
        }
        if exists|j: int| 0 <= j < pages.len() && (#[trigger] pages[j]).keys().contains(text) {
            let j = choose|j: int|
                0 <= j < pages.len() && (#[trigger] pages[j]).keys().contains(text);
            if j < shorter.len() {
                assert(shorter[j] == pages[j]);
            }
        }
        if exists|j: int| 0 <= j < pages.len() && (#[trigger] pages[j]).prefixes().contains(text) {
            let j = choose|j: int|
                0 <= j < pages.len() && (#[trigger] pages[j]).prefixes().contains(text);
            if j < shorter.len() {
                assert(shorter[j] == pages[j]);
            }
        }
        if last.keys().contains(text) {
            assert(pages[pages.len() - 1].keys().contains(text));
        }
        if last.prefixes().contains(text) {
            assert(pages[pages.len() - 1].prefixes().contains(text));
        }
    }
}

/// A listing of one level of a bucket, answered by a faithful service until
/// it asks for nothing more, shows the level: an object for each key that
/// lies directly under the prefix and for no other text, and a directory for
/// each common prefix of the keys that lie deeper, but for the root marker,
/// and for no other text.
pub proof fn lemma_shallow_listing_shows_the_level(
    keys: Set<Seq<char>>,
    service: spec_fn(Option<Seq<char>>) -> Seq<ListPageView>,
    bucket: Seq<char>,
    prefix: Option<Seq<char>>,
    default_region: Seq<char>,
    region: Seq<char>,
    listings: Seq<ListingView>,
    streams: Seq<Seq<OpenStream>>,
    text: Seq<char>,
)
    requires
        faithful(service, keys),
        is_walk(service, listings, streams),
        listings[0] == (ListingView {
            region,
            phase: ListingPhaseView::Walking,
            ..ListingView::start(ListingMode::Shallow, bucket, prefix, default_region)
        }),
        streams[0].len() == 0,
        listings.last().over(),
    ensures
        listings.last().outcome() is Ok,
        has_object(listings.last().outcome()->Ok_0, text) <==> keys.contains(text) && is_direct(
            text_or_empty(prefix),
            text,
        ),
        has_directory(listings.last().outcome()->Ok_0, text) <==> is_common_prefix(
            keys,
            text_or_empty(prefix),
            text,
        ) && text != root_marker(),
{
    let pages = service(prefix);
    lemma_shallow_listing_returns_the_pages(
        service,
        bucket,
        prefix,
        default_region,
        region,
        listings,
        streams,
    );
    assert(lists(pages, keys, text_or_empty(prefix)));
    lemma_level_entries_hold(bucket, region, pages, text);
    lemma_all_of_pages(pages, text);
    assert(all_keys(pages).contains(text) <==> keys.contains(text) && is_direct(
        text_or_empty(prefix),
        text,
    ));
    assert(all_prefixes(pages).contains(text) <==> is_common_prefix(
        keys,
        text_or_empty(prefix),
        text,
    ));
}

} // verus!
