//! A deep listing run against a bucket. The bucket is the set of its keys;
//! the service answers each listing with pages that hold what the bucket
//! holds; the listing is handed each answer in turn. What it returns then
//! holds every key under the prefix once, and nothing else.

use vstd::prelude::*;
use crate::item::StorageItemView;
use crate::key_space::{
    held_by, holds, lemma_listing_yields_each_key_once, lemma_occurrences_concat, lists,
    occurrences, yield_of,
};
use crate::listing::{
    descents, ListingCommandView, ListingEventView, ListingMode, ListingPhaseView, ListingView,
    WorkView,
};
use crate::page::ListPageView;
use crate::text::text_or_empty;

verus! {

/// A listing that the caller has opened and not read to its end: the prefix
/// it was opened for, and how many of its pages have been read.
pub struct OpenStream {
    pub prefix: Option<Seq<char>>,
    pub read: nat,
}

/// Whether the service answers every listing with what the bucket holds.
pub open spec fn faithful(
    service: spec_fn(Option<Seq<char>>) -> Seq<ListPageView>,
    keys: Set<Seq<char>>,
) -> bool {
    forall|prefix: Option<Seq<char>>| lists(#[trigger] service(prefix), keys, text_or_empty(prefix))
}

/// What a listing is handed after a call, and the streams that the caller
/// then holds open.
pub struct Answer {
    pub event: ListingEventView,
    pub streams: Seq<OpenStream>,
}

/// What reading the stream that was opened last gives: its next page, or the
/// news that it has none left, which closes it.
pub open spec fn read_top(
    service: spec_fn(Option<Seq<char>>) -> Seq<ListPageView>,
    streams: Seq<OpenStream>,
) -> Answer {
    let top = streams.last();
    let pages = service(top.prefix);
    if top.read < pages.len() {
        Answer {
            event: ListingEventView::Page { page: pages[top.read as int] },
            streams: streams.drop_last().push(
                OpenStream { prefix: top.prefix, read: top.read + 1 },
            ),
        }
    } else {
        Answer { event: ListingEventView::Exhausted, streams: streams.drop_last() }
    }
}

/// What the caller hands to a listing that reads pages, and the streams that
/// it then holds open; nothing where the listing asks for no page.
pub open spec fn answer(
    service: spec_fn(Option<Seq<char>>) -> Seq<ListPageView>,
    listing: ListingView,
    streams: Seq<OpenStream>,
) -> Option<Answer> {
    match listing.command() {
        ListingCommandView::Open { bucket, prefix, region } => Some(
            read_top(service, streams.push(OpenStream { prefix, read: 0 })),
        ),
        ListingCommandView::Next => if streams.len() > 0 {
            Some(read_top(service, streams))
        } else {
            None
        },
        _ => None,
    }
}

/// Whether `listings` are the states of one listing from call to call, and
/// `streams` the streams that its caller holds open at each of them, when
/// every call is answered by `service`.
pub open spec fn is_walk(
    service: spec_fn(Option<Seq<char>>) -> Seq<ListPageView>,
    listings: Seq<ListingView>,
    streams: Seq<Seq<OpenStream>>,
) -> bool {
    &&& listings.len() >= 1
    &&& listings.len() == streams.len()
    &&& forall|i: int|
        #![trigger listings[i]]
        0 <= i < listings.len() - 1 ==> {
            let given = answer(service, listings[i], streams[i]);
            &&& given is Some
            &&& listings[i].after(given->0.event, listings[i + 1])
            &&& streams[i + 1] == given->0.streams
        }
}

/// The paths of a run of entries, in order.
pub open spec fn item_paths(items: Seq<StorageItemView>) -> Seq<Seq<char>> {
    Seq::new(items.len(), |i: int| items[i].file_info.path)
}

/// The pages of a stream that have not been read.
pub open spec fn unread(
    service: spec_fn(Option<Seq<char>>) -> Seq<ListPageView>,
    stream: OpenStream,
) -> Seq<ListPageView> {
    let pages = service(stream.prefix);
    if stream.read <= pages.len() {
        pages.skip(stream.read as int)
    } else {
        Seq::empty()
    }
}

/// Whether the caller holds one open stream for each stream on the stack.
pub open spec fn matched(stack: Seq<WorkView>, streams: Seq<OpenStream>) -> bool
    decreases stack.len(),
{
    if stack.len() == 0 {
        streams.len() == 0
    } else {
        match stack.last() {
            WorkView::Descend { prefix } => matched(stack.drop_last(), streams),
            WorkView::Stream => streams.len() > 0 && matched(
                stack.drop_last(),
                streams.drop_last(),
            ),
        }
    }
}

/// How often `key` is still to come out of the work on the stack.
pub open spec fn pending(
    keys: Set<Seq<char>>,
    service: spec_fn(Option<Seq<char>>) -> Seq<ListPageView>,
    stack: Seq<WorkView>,
    streams: Seq<OpenStream>,
    key: Seq<char>,
) -> nat
    decreases stack.len(),
{
    if stack.len() == 0 {
        0
    } else {
        match stack.last() {
            WorkView::Descend { prefix } => holds(keys, text_or_empty(prefix), key) + pending(
                keys,
                service,
                stack.drop_last(),
                streams,
                key,
            ),
            WorkView::Stream => if streams.len() == 0 {
                0
            } else {
                yield_of(keys, unread(service, streams.last()), key) + pending(
                    keys,
                    service,
                    stack.drop_last(),
                    streams.drop_last(),
                    key,
                )
            },
        }
    }
}

/// Whether a deep listing in progress accounts for every key under `root`
/// once: the key is among the entries, or is still to come out of the stack.
pub open spec fn accounts_for(
    keys: Set<Seq<char>>,
    service: spec_fn(Option<Seq<char>>) -> Seq<ListPageView>,
    root: Seq<char>,
    listing: ListingView,
    streams: Seq<OpenStream>,
) -> bool {
    &&& listing.mode is Deep
    &&& listing.phase is Walking || (listing.phase is Finished && listing.stack.len() == 0)
    &&& matched(listing.stack, streams)
    &&& forall|key: Seq<char>|
        occurrences(item_paths(listing.items), key) + pending(
            keys,
            service,
            listing.stack,
            streams,
            key,
        ) == #[trigger] holds(keys, root, key)
}

/// Descents on top of a stack add what lies under their prefixes to what is
/// still to come, and open no stream.
proof fn lemma_descents_pending(
    keys: Set<Seq<char>>,
    service: spec_fn(Option<Seq<char>>) -> Seq<ListPageView>,
    stack: Seq<WorkView>,
    streams: Seq<OpenStream>,
    prefixes: Seq<Seq<char>>,
    key: Seq<char>,
)
    ensures
        pending(keys, service, stack + descents(prefixes), streams, key) == held_by(
            keys,
            prefixes,
            key,
        ) + pending(keys, service, stack, streams, key),
        matched(stack + descents(prefixes), streams) == matched(stack, streams),
    decreases prefixes.len(),
{
    if prefixes.len() == 0 {
        assert(stack + descents(prefixes) =~= stack);
    } else {
        let whole = stack + descents(prefixes);
        assert(whole.last() == WorkView::Descend { prefix: Some(prefixes.first()) });
        assert(whole.drop_last() =~= stack + descents(prefixes.drop_first()));
        lemma_descents_pending(keys, service, stack, streams, prefixes.drop_first(), key);
    }
}

/// The paths of a deep listing after a page are its paths before, followed by
/// the keys of the page.
proof fn lemma_paths_after_page(
    before: Seq<StorageItemView>,
    after: Seq<StorageItemView>,
    bucket: Seq<char>,
    region: Seq<char>,
    page: ListPageView,
)
    requires
        crate::listing::appends_page(before, after, ListingMode::Deep, bucket, region, page),
    ensures
        item_paths(after) == item_paths(before) + page.keys(),
{
    let first = before.len() as int;
    let count = page.contents.len() as int;
    assert(after.skip(first + count).len() == 0);
    assert forall|i: int| 0 <= i < after.len() implies item_paths(after)[i] == (item_paths(before)
        + page.keys())[i] by {
        if i < first {
            assert(after.take(first)[i] == after[i]);
        } else {
            assert(after.subrange(first, first + count)[i - first] == after[i]);
        }
    }
    assert(item_paths(after) =~= item_paths(before) + page.keys());
}

/// One call of a deep listing, answered by a faithful service, keeps every
/// key under the root accounted for once.
pub proof fn lemma_walk_step(
    keys: Set<Seq<char>>,
    service: spec_fn(Option<Seq<char>>) -> Seq<ListPageView>,
    root: Seq<char>,
    listing: ListingView,
    streams: Seq<OpenStream>,
    next: ListingView,
)
    requires
        faithful(service, keys),
        accounts_for(keys, service, root, listing, streams),
        answer(service, listing, streams) is Some,
        listing.after(answer(service, listing, streams)->0.event, next),
    ensures
        accounts_for(keys, service, root, next, answer(service, listing, streams)->0.streams),
{
    let given = answer(service, listing, streams)->0;
    let event = given.event;
    let next_streams = given.streams;
    let stack = listing.stack;
    let below = stack.drop_last();
    assert(listing.phase is Walking && stack.len() > 0);
    // The streams as the caller reads them, and the stream that is read.
    let reading = match listing.command() {
        ListingCommandView::Open { bucket, prefix, region } => streams.push(
            OpenStream { prefix, read: 0 },
        ),
        _ => streams,
    };
    let kept = reading.drop_last();
    let top = reading.last();
    let pages = service(top.prefix);
    let left = unread(service, top);
    assert(lists(pages, keys, text_or_empty(top.prefix)));
    // What the work on top of the stack stood for before the call.
    assert(matched(below, kept)) by {
        match stack.last() {
            WorkView::Descend { prefix } => {
                assert(kept =~= streams);
            },
            WorkView::Stream => {},
        }
    }
    assert forall|key: Seq<char>|
        pending(keys, service, stack, streams, key) == yield_of(keys, left, key)
            + #[trigger] pending(keys, service, below, kept, key) by {
        match stack.last() {
            WorkView::Descend { prefix } => {
                assert(kept =~= streams);
                assert(left =~= pages);
                lemma_listing_yields_each_key_once(pages, keys, text_or_empty(prefix), key);
            },
            WorkView::Stream => {},
        }
    }
    if top.read < pages.len() {
        let page = pages[top.read as int];
        assert(event == ListingEventView::Page { page });
        assert(left.first() == page);
        assert(left.drop_first() =~= pages.skip(top.read as int + 1));
        let opened = listing.opened();
        assert(opened.last() == WorkView::Stream);
        assert(opened.drop_last() =~= below);
        assert(next_streams.last() == OpenStream { prefix: top.prefix, read: top.read + 1 });
        assert(next_streams.drop_last() =~= kept);
        assert(next.stack == opened + descents(page.prefixes()));
        lemma_paths_after_page(listing.items, next.items, listing.bucket, listing.region, page);
        assert forall|key: Seq<char>|
            occurrences(item_paths(next.items), key) + pending(
                keys,
                service,
                next.stack,
                next_streams,
                key,
            ) == #[trigger] holds(keys, root, key) by {
            lemma_descents_pending(keys, service, opened, next_streams, page.prefixes(), key);
            lemma_occurrences_concat(item_paths(listing.items), page.keys(), key);
            assert(unread(service, next_streams.last()) == pages.skip(top.read as int + 1));
            assert(pending(keys, service, opened, next_streams, key) == yield_of(
                keys,
                pages.skip(top.read as int + 1),
                key,
            ) + pending(keys, service, below, kept, key));
            assert(holds(keys, root, key) == occurrences(item_paths(listing.items), key) + pending(
                keys,
                service,
                stack,
                streams,
                key,
            ));
        }
        assert(matched(next.stack, next_streams)) by {
            let any = Seq::<char>::empty();
            lemma_descents_pending(keys, service, opened, next_streams, page.prefixes(), any);
            assert(matched(opened, next_streams));
        }
    } else {
        assert(event == ListingEventView::Exhausted);
        assert(left.len() == 0);
        assert(next_streams == kept);
        assert(next.stack == below);
        assert forall|key: Seq<char>|
            occurrences(item_paths(next.items), key) + pending(
                keys,
                service,
                next.stack,
                next_streams,
                key,
            ) == #[trigger] holds(keys, root, key) by {
            assert(holds(keys, root, key) == occurrences(item_paths(listing.items), key) + pending(
                keys,
                service,
                stack,
                streams,
                key,
            ));
        }
    }
}

/// A deep listing that has read no page accounts for every key under its
/// prefix: all of them are still to come.
pub proof fn lemma_walk_begins(
    keys: Set<Seq<char>>,
    service: spec_fn(Option<Seq<char>>) -> Seq<ListPageView>,
    root: Option<Seq<char>>,
    first: ListingView,
    streams: Seq<OpenStream>,
)
    requires
        first.mode is Deep,
        first.phase is Walking,
        first.stack == seq![WorkView::Descend { prefix: root }],
        first.items.len() == 0,
        streams.len() == 0,
    ensures
        accounts_for(keys, service, text_or_empty(root), first, streams),
{
    assert(first.stack.drop_last() =~= Seq::<WorkView>::empty());
    assert(item_paths(first.items) =~= Seq::<Seq<char>>::empty());
    assert(matched(first.stack.drop_last(), streams));
    assert(matched(first.stack, streams));
    assert forall|any: Seq<char>|
        occurrences(item_paths(first.items), any) + pending(
            keys,
            service,
            first.stack,
            streams,
            any,
        ) == #[trigger] holds(keys, text_or_empty(root), any) by {
        assert(pending(keys, service, first.stack.drop_last(), streams, any) == 0);
    }
}

/// Every state of a walk that begins with all keys accounted for keeps them
/// accounted for.
pub proof fn lemma_walk_accounts(
    keys: Set<Seq<char>>,
    service: spec_fn(Option<Seq<char>>) -> Seq<ListPageView>,
    root: Seq<char>,
    listings: Seq<ListingView>,
    streams: Seq<Seq<OpenStream>>,
    at: int,
)
    requires
        faithful(service, keys),
        is_walk(service, listings, streams),
        accounts_for(keys, service, root, listings[0], streams[0]),
        0 <= at < listings.len(),
    ensures
        accounts_for(keys, service, root, listings[at], streams[at]),
    decreases at,
{
    if at > 0 {
        lemma_walk_accounts(keys, service, root, listings, streams, at - 1);
        let before = listings[at - 1];
        assert(answer(service, before, streams[at - 1]) is Some);
        lemma_walk_step(keys, service, root, before, streams[at - 1], listings[at]);
    }
}

/// A deep listing of `root` that is answered by a faithful service until it
/// asks for nothing more returns entries, and among their paths every key of
/// the bucket that begins with `root` stands once, and no other text stands
/// at all: nothing is left out and nothing comes twice. The walk begins where
/// the region of the bucket has been resolved.
pub proof fn lemma_deep_listing_returns_each_key_once(
    keys: Set<Seq<char>>,
    service: spec_fn(Option<Seq<char>>) -> Seq<ListPageView>,
    bucket: Seq<char>,
    root: Option<Seq<char>>,
    default_region: Seq<char>,
    region: Seq<char>,
    listings: Seq<ListingView>,
    streams: Seq<Seq<OpenStream>>,
    key: Seq<char>,
)
    requires
        faithful(service, keys),
        is_walk(service, listings, streams),
        listings[0] == (ListingView {
            region,
            phase: ListingPhaseView::Walking,
            ..ListingView::start(ListingMode::Deep, bucket, root, default_region)
        }),
        streams[0].len() == 0,
        listings.last().over(),
    ensures
        listings.last().outcome() is Ok,
        occurrences(item_paths(listings.last().outcome()->Ok_0), key) == holds(
            keys,
            text_or_empty(root),
            key,
        ),
{
    let first = listings[0];
    lemma_walk_begins(keys, service, root, first, streams[0]);
    let last = listings.len() - 1;
    lemma_walk_accounts(keys, service, text_or_empty(root), listings, streams, last);
    let end = listings[last];
    assert(end.stack.len() == 0);
    assert(occurrences(item_paths(end.items), key) + pending(
        keys,
        service,
        end.stack,
        streams[last],
        key,
    ) == holds(keys, text_or_empty(root), key));
}

/// How many calls it takes to read the pages of a stream that are left, and
/// to list each of their common prefixes to full depth. A common prefix
/// counts where it is longer than the prefix of the stream and no longer than
/// `bound`.
pub open spec fn calls_for_stream(
    service: spec_fn(Option<Seq<char>>) -> Seq<ListPageView>,
    bound: nat,
    prefix: Option<Seq<char>>,
    read: nat,
) -> nat
    decreases bound - text_or_empty(prefix).len(), 1 + service(prefix).len() - read, 0nat,
{
    let pages = service(prefix);
    if read >= pages.len() {
        1
    } else {
        1 + calls_for_children(
            service,
            bound,
            text_or_empty(prefix),
            pages[read as int].prefixes(),
        ) + calls_for_stream(service, bound, prefix, read + 1)
    }
}

/// How many calls it takes to list each of `children` to full depth.
pub open spec fn calls_for_children(
    service: spec_fn(Option<Seq<char>>) -> Seq<ListPageView>,
    bound: nat,
    parent: Seq<char>,
    children: Seq<Seq<char>>,
) -> nat
    decreases bound - parent.len(), 0nat, children.len(),
{
    if children.len() == 0 {
        0
    } else {
        let child = children.first();
        let first = if parent.len() < child.len() <= bound {
            calls_for_stream(service, bound, Some(child), 0)
        } else {
            0
        };
        first + calls_for_children(service, bound, parent, children.drop_first())
    }
}

/// How many calls it takes to work a stack off.
pub open spec fn calls_left(
    service: spec_fn(Option<Seq<char>>) -> Seq<ListPageView>,
    bound: nat,
    stack: Seq<WorkView>,
    streams: Seq<OpenStream>,
) -> nat
    decreases stack.len(),
{
    if stack.len() == 0 {
        0
    } else {
        match stack.last() {
            WorkView::Descend { prefix } => calls_for_stream(service, bound, prefix, 0)
                + calls_left(service, bound, stack.drop_last(), streams),
            WorkView::Stream => if streams.len() == 0 {
                0
            } else {
                calls_for_stream(service, bound, streams.last().prefix, streams.last().read)
                    + calls_left(service, bound, stack.drop_last(), streams.drop_last())
            },
        }
    }
}

/// Whether no key of the bucket is longer than `bound`.
pub open spec fn bounded(keys: Set<Seq<char>>, bound: nat) -> bool {
    forall|key: Seq<char>| #[trigger] keys.contains(key) ==> key.len() <= bound
}

/// Every common prefix of a page is among the common prefixes of all pages.
proof fn lemma_page_prefix_is_listed(pages: Seq<ListPageView>, at: int, child: int)
    requires
        0 <= at < pages.len(),
        0 <= child < pages[at].prefixes().len(),
    ensures
        crate::key_space::all_prefixes(pages).contains(pages[at].prefixes()[child]),
    decreases pages.len(),
{
    let all = crate::key_space::all_prefixes(pages);
    let first = pages.first().prefixes();
    let rest = crate::key_space::all_prefixes(pages.drop_first());
    if at == 0 {
        assert(all[child] == first[child]);
    } else {
        lemma_page_prefix_is_listed(pages.drop_first(), at - 1, child);
        let found = choose|found: int|
            0 <= found < rest.len() && rest[found] == pages[at].prefixes()[child];
        assert(all[first.len() + found] == rest[found]);
    }
}

/// A common prefix is longer than the prefix it was listed under, and no
/// longer than the longest key.
proof fn lemma_common_prefix_is_longer(
    keys: Set<Seq<char>>,
    bound: nat,
    prefix: Seq<char>,
    candidate: Seq<char>,
)
    requires
        bounded(keys, bound),
        crate::key_space::is_common_prefix(keys, prefix, candidate),
    ensures
        prefix.len() < candidate.len() <= bound,
{
    let key = choose|key: Seq<char>|
        keys.contains(key) && crate::key_space::is_nested(prefix, key) && candidate
            == #[trigger] crate::key_space::child_prefix(prefix, key);
    crate::key_space::lemma_first_delimiter(key.skip(prefix.len() as int));
}

/// Descents into children that all count take as many calls as the children.
proof fn lemma_calls_for_descents(
    service: spec_fn(Option<Seq<char>>) -> Seq<ListPageView>,
    bound: nat,
    parent: Seq<char>,
    stack: Seq<WorkView>,
    streams: Seq<OpenStream>,
    children: Seq<Seq<char>>,
)
    requires
        forall|i: int|
            0 <= i < children.len() ==> parent.len() < (#[trigger] children[i]).len() <= bound,
    ensures
        calls_left(service, bound, stack + descents(children), streams) == calls_for_children(
            service,
            bound,
            parent,
            children,
        ) + calls_left(service, bound, stack, streams),
    decreases children.len(),
{
    if children.len() == 0 {
        assert(stack + descents(children) =~= stack);
    } else {
        let whole = stack + descents(children);
        assert(whole.last() == WorkView::Descend { prefix: Some(children.first()) });
        assert(whole.drop_last() =~= stack + descents(children.drop_first()));
        assert(parent.len() < children[0].len() <= bound);
        assert forall|i: int| 0 <= i < children.drop_first().len() implies parent.len() < (
        #[trigger] children.drop_first()[i]).len() <= bound by {
            assert(children.drop_first()[i] == children[i + 1]);
        }
        lemma_calls_for_descents(service, bound, parent, stack, streams, children.drop_first());
    }
}

/// One call of a deep listing, answered by a faithful service, leaves one
/// call less to make.
pub proof fn lemma_walk_step_costs(
    keys: Set<Seq<char>>,
    service: spec_fn(Option<Seq<char>>) -> Seq<ListPageView>,
    bound: nat,
    root: Seq<char>,
    listing: ListingView,
    streams: Seq<OpenStream>,
    next: ListingView,
)
    requires
        faithful(service, keys),
        bounded(keys, bound),
        accounts_for(keys, service, root, listing, streams),
        answer(service, listing, streams) is Some,
        listing.after(answer(service, listing, streams)->0.event, next),
    ensures
        calls_left(service, bound, next.stack, answer(service, listing, streams)->0.streams) + 1
            == calls_left(service, bound, listing.stack, streams),
{
    let given = answer(service, listing, streams)->0;
    let next_streams = given.streams;
    let stack = listing.stack;
    let below = stack.drop_last();
    assert(listing.phase is Walking && stack.len() > 0);
    let reading = match listing.command() {
        ListingCommandView::Open { bucket, prefix, region } => streams.push(
            OpenStream { prefix, read: 0 },
        ),
        _ => streams,
    };
    let kept = reading.drop_last();
    let top = reading.last();
    let pages = service(top.prefix);
    assert(calls_left(service, bound, stack, streams) == calls_for_stream(
        service,
        bound,
        top.prefix,
        top.read,
    ) + calls_left(service, bound, below, kept)) by {
        match stack.last() {
            WorkView::Descend { prefix } => {
                assert(kept =~= streams);
            },
            WorkView::Stream => {},
        }
    }
    if top.read < pages.len() {
        let page = pages[top.read as int];
        let opened = listing.opened();
        assert(opened.last() == WorkView::Stream);
        assert(opened.drop_last() =~= below);
        assert(next_streams.last() == OpenStream { prefix: top.prefix, read: top.read + 1 });
        assert(next_streams.drop_last() =~= kept);
        assert(next.stack == opened + descents(page.prefixes()));
        assert(lists(pages, keys, text_or_empty(top.prefix)));
        assert forall|i: int| 0 <= i < page.prefixes().len() implies text_or_empty(
            top.prefix,
        ).len() < (#[trigger] page.prefixes()[i]).len() <= bound by {
            lemma_page_prefix_is_listed(pages, top.read as int, i);
            lemma_common_prefix_is_longer(
                keys,
                bound,
                text_or_empty(top.prefix),
                page.prefixes()[i],
            );
        }
        lemma_calls_for_descents(
            service,
            bound,
            text_or_empty(top.prefix),
            opened,
            next_streams,
            page.prefixes(),
        );
        assert(calls_left(service, bound, opened, next_streams) == calls_for_stream(
            service,
            bound,
            top.prefix,
            top.read + 1,
        ) + calls_left(service, bound, below, kept));
    } else {
        assert(next_streams == kept);
        assert(next.stack == below);
    }
}

/// After `at` calls of a walk, `at` calls fewer are left to make.
pub proof fn lemma_walk_costs(
    keys: Set<Seq<char>>,
    service: spec_fn(Option<Seq<char>>) -> Seq<ListPageView>,
    bound: nat,
    root: Seq<char>,
    listings: Seq<ListingView>,
    streams: Seq<Seq<OpenStream>>,
    at: int,
)
    requires
        faithful(service, keys),
        bounded(keys, bound),
        is_walk(service, listings, streams),
        accounts_for(keys, service, root, listings[0], streams[0]),
        0 <= at < listings.len(),
    ensures
        calls_left(service, bound, listings[at].stack, streams[at]) + at == calls_left(
            service,
            bound,
            listings[0].stack,
            streams[0],
        ),
    decreases at,
{
    if at > 0 {
        lemma_walk_costs(keys, service, bound, root, listings, streams, at - 1);
        lemma_walk_accounts(keys, service, root, listings, streams, at - 1);
        let before = listings[at - 1];
        assert(answer(service, before, streams[at - 1]) is Some);
        lemma_walk_step_costs(keys, service, bound, root, before, streams[at - 1], listings[at]);
    }
}

/// The objects of a page as entries.
pub open spec fn plain_entries(
    bucket: Seq<char>,
    region: Seq<char>,
    page: ListPageView,
) -> Seq<StorageItemView> {
    Seq::new(
        page.contents.len(),
        |i: int|
            crate::item::object_item_view(
                bucket,
                region,
                text_or_empty(page.contents[i].key),
                page.contents[i].size,
                crate::text::file_type_of(text_or_empty(page.contents[i].key)),
            ),
    )
}

/// A deep listing that is not over, and that accounts for the keys of the
/// bucket, asks for a page, and there is a state for it to go on to after the
/// answer.
pub proof fn lemma_walk_goes_on(
    keys: Set<Seq<char>>,
    service: spec_fn(Option<Seq<char>>) -> Seq<ListPageView>,
    root: Seq<char>,
    listing: ListingView,
    streams: Seq<OpenStream>,
)
    requires
        accounts_for(keys, service, root, listing, streams),
        !listing.over(),
    ensures
        answer(service, listing, streams) is Some,
        exists|next: ListingView| listing.after(answer(service, listing, streams)->0.event, next),
{
    assert(listing.phase is Walking && listing.stack.len() > 0);
    let given = answer(service, listing, streams)->0;
    match given.event {
        ListingEventView::Page { page } => {
            let added = plain_entries(listing.bucket, listing.region, page);
            let items = listing.items + added;
            let next = ListingView {
                stack: listing.opened() + descents(page.prefixes()),
                items,
                ..listing
            };
            let first = listing.items.len() as int;
            let count = page.contents.len() as int;
            assert(items.take(first) =~= listing.items);
            assert(items.subrange(first, first + count) =~= added);
            assert(items.skip(first + count) =~= Seq::<StorageItemView>::empty());
            assert(listing.after(given.event, next));
        },
        _ => {
            let next = ListingView {
                stack: listing.stack.drop_last(),
                phase: if listing.stack.len() == 1 {
                    ListingPhaseView::Finished
                } else {
                    ListingPhaseView::Walking
                },
                ..listing
            };
            assert(listing.after(given.event, next));
        },
    }
}

/// A deep listing of a bucket whose keys are no longer than `bound`, answered
/// by a faithful service, comes to its end: no walk is longer than the calls
/// that the listing of its prefix takes, and a walk whose last state is not
/// over can be carried on.
pub proof fn lemma_deep_listing_ends(
    keys: Set<Seq<char>>,
    service: spec_fn(Option<Seq<char>>) -> Seq<ListPageView>,
    bound: nat,
    bucket: Seq<char>,
    root: Option<Seq<char>>,
    default_region: Seq<char>,
    region: Seq<char>,
    listings: Seq<ListingView>,
    streams: Seq<Seq<OpenStream>>,
)
    requires
        faithful(service, keys),
        bounded(keys, bound),
        is_walk(service, listings, streams),
        listings[0] == (ListingView {
            region,
            phase: ListingPhaseView::Walking,
            ..ListingView::start(ListingMode::Deep, bucket, root, default_region)
        }),
        streams[0].len() == 0,
    ensures
        listings.len() <= 1 + calls_for_stream(service, bound, root, 0),
        !listings.last().over() ==> answer(service, listings.last(), streams.last()) is Some
            && exists|next: ListingView|
            listings.last().after(
                answer(service, listings.last(), streams.last())->0.event,
                next,
            ),
{
    let first = listings[0];
    let last = listings.len() - 1;
    lemma_walk_begins(keys, service, root, first, streams[0]);
    lemma_walk_costs(keys, service, bound, text_or_empty(root), listings, streams, last);
    lemma_walk_accounts(keys, service, text_or_empty(root), listings, streams, last);
    assert(first.stack.drop_last() =~= Seq::<WorkView>::empty());
    assert(calls_left(service, bound, first.stack.drop_last(), streams[0]) == 0);
    assert(calls_left(service, bound, first.stack, streams[0]) == calls_for_stream(
        service,
        bound,
        root,
        0,
    ));
    if !listings.last().over() {
        lemma_walk_goes_on(keys, service, text_or_empty(root), listings[last], streams[last]);
    }
}

} // verus!
