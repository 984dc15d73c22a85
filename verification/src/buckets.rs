//! The buckets of an account as a listing shows them, whole or one page at a
//! time.

use vstd::prelude::*;
use crate::error::{EngineError, EngineErrorView};
use crate::fetcher::S3DataFetcher;
use crate::item::{bucket_item_view, item_views, StorageItem, StorageItemView};
use crate::text::optional_text;

verus! {

/// The texts of a run of optional names.
pub open spec fn optional_names(names: Seq<Option<String>>) -> Seq<Option<Seq<char>>> {
    Seq::new(names.len(), |i: int| optional_text(names[i]))
}

/// The names that are present, in order.
pub open spec fn named_buckets(names: Seq<Option<Seq<char>>>) -> Seq<Seq<char>>
    decreases names.len(),
{
    if names.len() == 0 {
        Seq::empty()
    } else {
        match names.last() {
            Some(name) => named_buckets(names.drop_last()).push(name),
            None => named_buckets(names.drop_last()),
        }
    }
}

/// The bucket entries for `names`, in order.
pub open spec fn bucket_item_views(names: Seq<Seq<char>>) -> Seq<StorageItemView> {
    Seq::new(names.len(), |i: int| bucket_item_view(names[i]))
}

/// The entries for what the service answered to the query for all buckets: one
/// for each bucket that has a name, and none where the query gave no list.
pub open spec fn listed_buckets(answer: Option<Seq<Option<Seq<char>>>>) -> Seq<StorageItemView> {
    bucket_item_views(
        match answer {
            Some(names) => named_buckets(names),
            None => Seq::empty(),
        },
    )
}

/// Page number `page` of `all`, cut into pages of `page_size` entries; pages
/// count from zero. Without a page or a page size it is all of `all`. A page
/// past the end is empty.
pub open spec fn page_of<T>(all: Seq<T>, page: Option<usize>, page_size: Option<usize>) -> Seq<T> {
    if page is Some && page_size is Some {
        let start = page->0 * page_size->0;
        let end = if start + page_size->0 < all.len() {
            start + page_size->0
        } else {
            all.len() as int
        };
        if start < all.len() {
            all.subrange(start, end)
        } else {
            Seq::empty()
        }
    } else {
        all
    }
}

/// The bucket entries for the names that are present in `names`, in order.
pub fn bucket_items(names: &Vec<Option<String>>) -> (items: Vec<StorageItem>)
    ensures
        item_views(items@) == bucket_item_views(named_buckets(optional_names(names@))),
{
    let mut items: Vec<StorageItem> = Vec::new();
    let mut index: usize = 0;
    assert(item_views(items@) =~= bucket_item_views(
        named_buckets(optional_names(names@).take(0)),
    ));
    while index < names.len()
        invariant
            index <= names.len(),
            item_views(items@) == bucket_item_views(
                named_buckets(optional_names(names@).take(index as int)),
            ),
        decreases names.len() - index,
    {
        proof {
            let longer = optional_names(names@).take(index + 1);
            assert(longer.drop_last() =~= optional_names(names@).take(index as int));
            assert(longer.last() == optional_text(names@[index as int]));
        }
        match &names[index] {
            Some(name) => {
                let ghost before = item_views(items@);
                items.push(StorageItem::bucket(name.as_str()));
                assert(item_views(items@) =~= before.push(bucket_item_view(name@)));
                assert(item_views(items@) =~= bucket_item_views(
                    named_buckets(optional_names(names@).take(index + 1)),
                ));
            },
            None => {},
        }
        index = index + 1;
    }
    assert(optional_names(names@).take(index as int) =~= optional_names(names@));
    items
}

/// One page of `all`, as [`page_of`] states it.
pub fn paginate(all: Vec<StorageItem>, page: Option<usize>, page_size: Option<usize>) -> (shown:
    Vec<StorageItem>)
    ensures
        item_views(shown@) == page_of(item_views(all@), page, page_size),
{
    let (page, page_size) = match (page, page_size) {
        (Some(page), Some(page_size)) => (page, page_size),
        _ => {
            return all;
        },
    };
    let total = all.len();
    let mut shown: Vec<StorageItem> = Vec::new();
    let start = match page.checked_mul(page_size) {
        Some(start) => start,
        None => {
            assert(item_views(shown@) =~= Seq::<StorageItemView>::empty());
            return shown;
        },
    };
    if start >= total {
        assert(item_views(shown@) =~= Seq::<StorageItemView>::empty());
        return shown;
    }
    let end = if page_size < total - start {
        start + page_size
    } else {
        total
    };
    let mut index: usize = start;
    while index < end
        invariant
            start <= index <= end <= all.len(),
            item_views(shown@) == item_views(all@).subrange(start as int, index as int),
        decreases end - index,
    {
        let ghost before = item_views(shown@);
        shown.push(all[index].clone());
        assert(item_views(shown@) =~= before.push(all@[index as int]@));
        assert(item_views(shown@) =~= item_views(all@).subrange(start as int, index + 1));
        index = index + 1;
    }
    shown
}

/// The texts of the names that an answer holds, where it holds a list.
pub open spec fn answered_names(names: Option<Vec<Option<String>>>) -> Option<
    Seq<Option<Seq<char>>>,
> {
    match names {
        Some(names) => Some(optional_names(names@)),
        None => None,
    }
}

impl S3DataFetcher {
    /// The buckets of the account, from what the service answered to the
    /// query for all of them, with how many there are. An answer holds the
    /// name of each bucket as far as the service gave one; an answer without
    /// a list shows no bucket. With a page and a page size the entries are
    /// those of that page alone. A query that the service rejected gives the
    /// failure with the message that came with it.
    pub fn list_buckets(
        &self,
        answer: Result<Option<Vec<Option<String>>>, String>,
        page: Option<usize>,
        page_size: Option<usize>,
    ) -> (listed: Result<(Vec<StorageItem>, usize), EngineError>)
        ensures
            match answer {
                Ok(names) => match listed {
                    Ok(shown) => {
                        &&& item_views(shown.0@) == page_of(
                            listed_buckets(answered_names(names)),
                            page,
                            page_size,
                        )
                        &&& shown.1 == listed_buckets(answered_names(names)).len()
                    },
                    Err(_) => false,
                },
                Err(message) => listed is Err && listed->Err_0@ == (EngineErrorView::Protocol {
                    message: message@,
                }),
            },
    {
        let names = match answer {
            Ok(names) => names,
            Err(message) => {
                return Err(EngineError::Protocol { message });
            },
        };
        let all = match &names {
            Some(names) => bucket_items(names),
            None => {
                let none: Vec<StorageItem> = Vec::new();
                assert(item_views(none@) =~= listed_buckets(None));
                none
            },
        };
        let total_count = all.len();
        Ok((paginate(all, page, page_size), total_count))
    }

    /// All buckets of the account, or the failure of a query that the service
    /// rejected.
    pub fn list_all_buckets(&self, answer: Result<Option<Vec<Option<String>>>, String>) -> (listed:
        Result<Vec<StorageItem>, EngineError>)
        ensures
            match answer {
                Ok(names) => listed is Ok && item_views(listed->Ok_0@) == listed_buckets(
                    answered_names(names),
                ),
                Err(message) => listed is Err && listed->Err_0@ == (EngineErrorView::Protocol {
                    message: message@,
                }),
            },
    {
        match self.list_buckets(answer, None, None) {
            Ok(shown) => Ok(shown.0),
            Err(error) => Err(error),
        }
    }
}

} // verus!
