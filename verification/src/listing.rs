//! Listing as a state machine. The machine says which call to make next; the
//! caller makes it and hands back what the service answered. A listing walks
//! the buckets of the account, one level of a bucket, or a bucket to its full
//! depth.

use vstd::prelude::*;
use crate::buckets::{bucket_items, listed_buckets, optional_names};
use crate::error::{EngineError, EngineErrorView};
use crate::fetcher::{resolved_region, S3DataFetcher};
use crate::item::{item_views, StorageItem, StorageItemView};
use crate::page::{
    are_object_items, directory_item_views, directory_items, object_items, ListPage, ListPageView,
};
use crate::text::{copy_optional, optional_text, owned_or_empty};

verus! {

/// How far a listing goes.
#[derive(Clone, Copy, Debug)]
pub enum ListingMode {
    /// The buckets of the account.
    Root,
    /// One level of a bucket: the objects directly under the prefix, and a
    /// directory for each common prefix.
    Shallow,
    /// Every object under the prefix, at any depth.
    Deep,
}

/// What a listing still has to do, as it lies on the listing's stack.
#[derive(Debug)]
pub enum Work {
    /// List what is under `prefix`.
    Descend { prefix: Option<String> },
    /// Read the pages that are left of a listing that has been opened.
    Stream,
}

/// What a [`Work`] holds, as plain values.
pub enum WorkView {
    Descend { prefix: Option<Seq<char>> },
    Stream,
}

impl View for Work {
    type V = WorkView;

    open spec fn view(&self) -> WorkView {
        match self {
            Work::Descend { prefix } => WorkView::Descend { prefix: optional_text(*prefix) },
            Work::Stream => WorkView::Stream,
        }
    }
}

/// Where a listing stands.
#[derive(Debug)]
pub enum ListingPhase {
    /// The region of the bucket is not known yet.
    Locating,
    /// The listing reads pages.
    Walking,
    /// All pages have been read.
    Finished,
    /// The listing was given up.
    Failed { error: EngineError },
}

/// What a [`ListingPhase`] holds, as plain values.
pub enum ListingPhaseView {
    Locating,
    Walking,
    Finished,
    Failed { error: EngineErrorView },
}

impl View for ListingPhase {
    type V = ListingPhaseView;

    open spec fn view(&self) -> ListingPhaseView {
        match self {
            ListingPhase::Locating => ListingPhaseView::Locating,
            ListingPhase::Walking => ListingPhaseView::Walking,
            ListingPhase::Finished => ListingPhaseView::Finished,
            ListingPhase::Failed { error } => ListingPhaseView::Failed { error: error@ },
        }
    }
}

/// The call that a listing asks its caller to make.
#[derive(Debug)]
pub enum ListingCommand {
    /// Fetch the names of all buckets.
    ListBuckets,
    /// Ask the service for the location of `bucket`.
    ResolveRegion { bucket: String },
    /// Open a listing of `bucket` under `prefix` with the delimiter, through a
    /// client bound to `region`, and read its first page.
    Open { bucket: String, prefix: Option<String>, region: String },
    /// Read the next page of the listing that was opened last and is not
    /// exhausted.
    Next,
    /// Nothing: the listing is over.
    Finish,
}

/// What a [`ListingCommand`] holds, as plain values.
pub enum ListingCommandView {
    ListBuckets,
    ResolveRegion { bucket: Seq<char> },
    Open { bucket: Seq<char>, prefix: Option<Seq<char>>, region: Seq<char> },
    Next,
    Finish,
}

impl View for ListingCommand {
    type V = ListingCommandView;

    open spec fn view(&self) -> ListingCommandView {
        match self {
            ListingCommand::ListBuckets => ListingCommandView::ListBuckets,
            ListingCommand::ResolveRegion { bucket } => ListingCommandView::ResolveRegion {
                bucket: bucket@,
            },
            ListingCommand::Open { bucket, prefix, region } => ListingCommandView::Open {
                bucket: bucket@,
                prefix: optional_text(*prefix),
                region: region@,
            },
            ListingCommand::Next => ListingCommandView::Next,
            ListingCommand::Finish => ListingCommandView::Finish,
        }
    }
}

/// What the service answered to the call that a listing asked for.
#[derive(Debug)]
pub enum ListingEvent {
    /// The names of the buckets; none where the answer held no list.
    Buckets { names: Option<Vec<Option<String>>> },
    /// The query for the buckets was rejected.
    BucketsFailed { message: String },
    /// The location constraint of the bucket, where the service reports one.
    Located { constraint: Option<String> },
    /// The query for the bucket's location failed.
    LocationFailed { message: String },
    /// A page of the listing.
    Page { page: ListPage },
    /// A page could not be read.
    PageFailed { message: String },
    /// The listing has no more pages.
    Exhausted,
}

/// What a [`ListingEvent`] holds, as plain values.
pub enum ListingEventView {
    Buckets { names: Option<Seq<Option<Seq<char>>>> },
    BucketsFailed { message: Seq<char> },
    Located { constraint: Option<Seq<char>> },
    LocationFailed { message: Seq<char> },
    Page { page: ListPageView },
    PageFailed { message: Seq<char> },
    Exhausted,
}

impl View for ListingEvent {
    type V = ListingEventView;

    open spec fn view(&self) -> ListingEventView {
        match self {
            ListingEvent::Buckets { names } => ListingEventView::Buckets {
                names: match names {
                    Some(names) => Some(optional_names(names@)),
                    None => None,
                },
            },
            ListingEvent::BucketsFailed { message } => ListingEventView::BucketsFailed {
                message: message@,
            },
            ListingEvent::Located { constraint } => ListingEventView::Located {
                constraint: optional_text(*constraint),
            },
            ListingEvent::LocationFailed { message } => ListingEventView::LocationFailed {
                message: message@,
            },
            ListingEvent::Page { page } => ListingEventView::Page { page: page@ },
            ListingEvent::PageFailed { message } => ListingEventView::PageFailed {
                message: message@,
            },
            ListingEvent::Exhausted => ListingEventView::Exhausted,
        }
    }
}

/// A listing in progress.
#[derive(Debug)]
pub struct Listing {
    mode: ListingMode,
    bucket: String,
    default_region: String,
    region: String,
    phase: ListingPhase,
    stack: Vec<Work>,
    items: Vec<StorageItem>,
}

/// What a [`Listing`] holds, as plain values. The top of the stack is its
/// last element.
pub struct ListingView {
    pub mode: ListingMode,
    pub bucket: Seq<char>,
    pub default_region: Seq<char>,
    pub region: Seq<char>,
    pub phase: ListingPhaseView,
    pub stack: Seq<WorkView>,
    pub items: Seq<StorageItemView>,
}

/// The views of a stack of work, in order.
pub open spec fn work_views(stack: Seq<Work>) -> Seq<WorkView> {
    Seq::new(stack.len(), |i: int| stack[i]@)
}

/// The work of descending into each of `prefixes`, stacked so that the first
/// prefix is on top.
pub open spec fn descents(prefixes: Seq<Seq<char>>) -> Seq<WorkView> {
    Seq::new(
        prefixes.len(),
        |i: int| WorkView::Descend { prefix: Some(prefixes[prefixes.len() - 1 - i]) },
    )
}

/// Whether `after` is `before` followed by the entries of `page`: its
/// objects in order, and in a shallow listing its directories after them.
pub open spec fn appends_page(
    before: Seq<StorageItemView>,
    after: Seq<StorageItemView>,
    mode: ListingMode,
    bucket: Seq<char>,
    region: Seq<char>,
    page: ListPageView,
) -> bool {
    let first = before.len() as int;
    let count = page.contents.len() as int;
    &&& after.len() >= first + count
    &&& after.take(first) == before
    &&& are_object_items(after.subrange(first, first + count), bucket, region, page.contents)
    &&& after.skip(first + count) == match mode {
        ListingMode::Shallow => directory_item_views(bucket, region, page.prefixes()),
        _ => Seq::<StorageItemView>::empty(),
    }
}

impl View for Listing {
    type V = ListingView;

    closed spec fn view(&self) -> ListingView {
        ListingView {
            mode: self.mode,
            bucket: self.bucket@,
            default_region: self.default_region@,
            region: self.region@,
            phase: self.phase@,
            stack: work_views(self.stack@),
            items: item_views(self.items@),
        }
    }
}

impl ListingView {
    /// The listing of the account's buckets before anything was asked.
    pub open spec fn root() -> ListingView {
        ListingView {
            mode: ListingMode::Root,
            bucket: Seq::empty(),
            default_region: Seq::empty(),
            region: Seq::empty(),
            phase: ListingPhaseView::Walking,
            stack: seq![WorkView::Stream],
            items: Seq::empty(),
        }
    }

    /// The listing of `bucket` under `prefix` before anything was asked.
    pub open spec fn start(
        mode: ListingMode,
        bucket: Seq<char>,
        prefix: Option<Seq<char>>,
        default_region: Seq<char>,
    ) -> ListingView {
        ListingView {
            mode,
            bucket,
            default_region,
            region: Seq::empty(),
            phase: ListingPhaseView::Locating,
            stack: seq![WorkView::Descend { prefix }],
            items: Seq::empty(),
        }
    }

    /// The call that the listing waits for.
    pub open spec fn command(self) -> ListingCommandView {
        match self.phase {
            ListingPhaseView::Locating => ListingCommandView::ResolveRegion { bucket: self.bucket },
            ListingPhaseView::Walking => if self.stack.len() == 0 {
                ListingCommandView::Finish
            } else {
                match self.mode {
                    ListingMode::Root => ListingCommandView::ListBuckets,
                    _ => match self.stack.last() {
                        WorkView::Descend { prefix } => ListingCommandView::Open {
                            bucket: self.bucket,
                            prefix,
                            region: self.region,
                        },
                        WorkView::Stream => ListingCommandView::Next,
                    },
                }
            },
            _ => ListingCommandView::Finish,
        }
    }

    /// Whether the listing asks for nothing more.
    pub open spec fn over(self) -> bool {
        self.command() is Finish
    }

    /// The stack once the work on top of it has been opened as a listing.
    pub open spec fn opened(self) -> Seq<WorkView> {
        self.stack.drop_last().push(WorkView::Stream)
    }

    /// Whether `next` is the listing after `event` was handed to it.
    ///
    /// A listing that is over, and one that gets an answer to a call that it
    /// did not ask for, stays as it is. The answer on the location fixes the
    /// region. A page adds its entries and, in a deep listing, stacks a
    /// descent into each of its common prefixes, the first on top. The end
    /// of the pages takes the work off the stack, and the listing is finished
    /// when the stack is empty. A call that the service rejects fails the
    /// listing, whatever it has gathered: the query for the buckets, the
    /// query for the location, and every page that cannot be read.
    pub open spec fn after(self, event: ListingEventView, next: ListingView) -> bool {
        match self.phase {
            ListingPhaseView::Locating => match event {
                ListingEventView::Located { constraint } => next == ListingView {
                    region: resolved_region(constraint, self.default_region),
                    phase: ListingPhaseView::Walking,
                    ..self
                },
                ListingEventView::LocationFailed { message } => next == ListingView {
                    phase: ListingPhaseView::Failed {
                        error: EngineErrorView::Protocol { message },
                    },
                    ..self
                },
                _ => next == self,
            },
            ListingPhaseView::Walking => if self.stack.len() == 0 {
                next == self
            } else {
                match self.mode {
                    ListingMode::Root => match event {
                        ListingEventView::Buckets { names } => next == ListingView {
                            phase: ListingPhaseView::Finished,
                            stack: Seq::empty(),
                            items: self.items + listed_buckets(names),
                            ..self
                        },
                        ListingEventView::BucketsFailed { message } => next == ListingView {
                            phase: ListingPhaseView::Failed {
                                error: EngineErrorView::Protocol { message },
                            },
                            ..self
                        },
                        _ => next == self,
                    },
                    _ => match event {
                        ListingEventView::Page { page } => {
                            &&& appends_page(
                                self.items,
                                next.items,
                                self.mode,
                                self.bucket,
                                self.region,
                                page,
                            )
                            &&& next == ListingView {
                                stack: match self.mode {
                                    ListingMode::Deep => self.opened() + descents(page.prefixes()),
                                    _ => self.opened(),
                                },
                                items: next.items,
                                ..self
                            }
                        },
                        ListingEventView::PageFailed { message } => next == ListingView {
                            phase: ListingPhaseView::Failed {
                                error: EngineErrorView::Protocol { message },
                            },
                            ..self
                        },
                        ListingEventView::Exhausted => next == ListingView {
                            stack: self.stack.drop_last(),
                            phase: if self.stack.len() == 1 {
                                ListingPhaseView::Finished
                            } else {
                                ListingPhaseView::Walking
                            },
                            ..self
                        },
                        _ => next == self,
                    },
                }
            },
            _ => next == self,
        }
    }

    /// What the listing returns once it is over: the failure of one that was
    /// given up, else the entries in the order in which they came.
    pub open spec fn outcome(self) -> Result<Seq<StorageItemView>, EngineErrorView> {
        match self.phase {
            ListingPhaseView::Failed { error } => Err(error),
            _ => Ok(self.items),
        }
    }
}

/// The views of two runs of items, one after the other.
pub proof fn lemma_item_views_concat(first: Seq<StorageItem>, second: Seq<StorageItem>)
    ensures
        item_views(first + second) == item_views(first) + item_views(second),
{
    assert(item_views(first + second) =~= item_views(first) + item_views(second));
}

/// Stacks a descent into each common prefix of `page`, the first on top.
fn push_descents(stack: &mut Vec<Work>, page: &ListPage)
    ensures
        work_views(final(stack)@) == work_views(old(stack)@) + descents(page@.prefixes()),
{
    let count = page.common_prefixes.len();
    let mut left: usize = count;
    assert(work_views(stack@) =~= work_views(old(stack)@) + descents(page@.prefixes()).take(0));
    while left > 0
        invariant
            left <= count,
            count == page.common_prefixes.len(),
            work_views(stack@) == work_views(old(stack)@) + descents(page@.prefixes()).take(
                count - left,
            ),
        decreases left,
    {
        left = left - 1;
        let prefix = owned_or_empty(&page.common_prefixes[left]);
        let ghost before = work_views(stack@);
        stack.push(Work::Descend { prefix: Some(prefix) });
        assert(work_views(stack@) =~= before.push(WorkView::Descend { prefix: Some(prefix@) }));
        assert(work_views(stack@) =~= work_views(old(stack)@) + descents(page@.prefixes()).take(
            count - left,
        ));
    }
    assert(descents(page@.prefixes()).take(count as int) =~= descents(page@.prefixes()));
}

/// Puts a stream in the place of the work on top of the stack.
fn open_top(stack: &mut Vec<Work>)
    requires
        old(stack).len() > 0,
    ensures
        work_views(final(stack)@) == work_views(old(stack)@).drop_last().push(WorkView::Stream),
{
    stack.pop();
    stack.push(Work::Stream);
    assert(work_views(stack@) =~= work_views(old(stack)@).drop_last().push(WorkView::Stream));
}

impl Listing {
    fn begin(mode: ListingMode, bucket: &str, prefix: Option<String>, default_region: &str) -> (listing:
        Listing)
        ensures
            listing@ == ListingView::start(mode, bucket@, optional_text(prefix), default_region@),
    {
        let mut stack: Vec<Work> = Vec::new();
        stack.push(Work::Descend { prefix });
        let listing = Listing {
            mode,
            bucket: bucket.to_owned(),
            default_region: default_region.to_owned(),
            region: String::new(),
            phase: ListingPhase::Locating,
            stack,
            items: Vec::new(),
        };
        assert(listing@.stack =~= seq![WorkView::Descend { prefix: optional_text(prefix) }]);
        assert(listing@.items =~= Seq::empty());
        listing
    }

    /// A listing of the account's buckets.
    pub fn of_buckets() -> (listing: Listing)
        ensures
            listing@ == ListingView::root(),
    {
        let mut stack: Vec<Work> = Vec::new();
        stack.push(Work::Stream);
        let listing = Listing {
            mode: ListingMode::Root,
            bucket: String::new(),
            default_region: String::new(),
            region: String::new(),
            phase: ListingPhase::Walking,
            stack,
            items: Vec::new(),
        };
        assert(listing@.stack =~= seq![WorkView::Stream]);
        assert(listing@.items =~= Seq::empty());
        listing
    }

    /// The call that the listing waits for.
    pub fn command(&self) -> (command: ListingCommand)
        ensures
            command@ == self@.command(),
    {
        match &self.phase {
            ListingPhase::Locating => ListingCommand::ResolveRegion { bucket: self.bucket.clone() },
            ListingPhase::Walking => {
                let depth = self.stack.len();
                if depth == 0 {
                    ListingCommand::Finish
                } else {
                    match self.mode {
                        ListingMode::Root => ListingCommand::ListBuckets,
                        _ => match &self.stack[depth - 1] {
                            Work::Descend { prefix } => ListingCommand::Open {
                                bucket: self.bucket.clone(),
                                prefix: copy_optional(prefix),
                                region: self.region.clone(),
                            },
                            Work::Stream => ListingCommand::Next,
                        },
                    }
                }
            },
            _ => ListingCommand::Finish,
        }
    }

    /// Whether the listing asks for nothing more.
    pub fn is_over(&self) -> (over: bool)
        ensures
            over == self@.over(),
    {
        match &self.phase {
            ListingPhase::Locating => false,
            ListingPhase::Walking => self.stack.len() == 0,
            _ => true,
        }
    }

    /// Takes in what the service answered to the call that
    /// [`Listing::command`] asked for.
    pub fn handle(&mut self, event: ListingEvent)
        ensures
            old(self)@.after(event@, final(self)@),
    {
        let walking = match &self.phase {
            ListingPhase::Locating => false,
            ListingPhase::Walking => true,
            _ => {
                return ;
            },
        };
        if !walking {
            match event {
                ListingEvent::Located { constraint } => {
                    self.region = match constraint {
                        Some(region) => region,
                        None => self.default_region.clone(),
                    };
                    self.phase = ListingPhase::Walking;
                },
                ListingEvent::LocationFailed { message } => {
                    self.phase = ListingPhase::Failed { error: EngineError::Protocol { message } };
                },
                _ => {},
            }
            return ;
        }
        if self.stack.len() == 0 {
            return ;
        }
        match self.mode {
            ListingMode::Root => {
                match event {
                    ListingEvent::Buckets { names } => {
                        let mut buckets = match &names {
                            Some(names) => bucket_items(names),
                            None => Vec::new(),
                        };
                        proof {
                            lemma_item_views_concat(self.items@, buckets@);
                            assert(item_views(buckets@) =~= listed_buckets(
                                match names {
                                    Some(names) => Some(optional_names(names@)),
                                    None => None,
                                },
                            ));
                        }
                        self.items.append(&mut buckets);
                        self.stack = Vec::new();
                        self.phase = ListingPhase::Finished;
                        assert(self@.stack =~= Seq::empty());
                    },
                    ListingEvent::BucketsFailed { message } => {
                        self.phase = ListingPhase::Failed { error: EngineError::Protocol { message } };
                    },
                    _ => {},
                }
            },
            ListingMode::Shallow => {
                match event {
                    ListingEvent::Page { page } => {
                        open_top(&mut self.stack);
                        let mut objects = object_items(
                            self.bucket.as_str(),
                            self.region.as_str(),
                            &page,
                        );
                        let mut directories = directory_items(
                            self.bucket.as_str(),
                            self.region.as_str(),
                            &page,
                        );
                        proof {
                            lemma_item_views_concat(self.items@, objects@);
                            lemma_item_views_concat(self.items@ + objects@, directories@);
                        }
                        let ghost before = item_views(self.items@);
                        let ghost added = item_views(objects@);
                        let ghost shown = item_views(directories@);
                        self.items.append(&mut objects);
                        self.items.append(&mut directories);
                        proof {
                            let after = item_views(self.items@);
                            assert(after == before + added + shown);
                            assert(after.take(before.len() as int) =~= before);
                            assert(after.subrange(
                                before.len() as int,
                                (before.len() + page@.contents.len()) as int,
                            ) =~= added);
                            assert(after.skip((before.len() + page@.contents.len()) as int) =~= shown);
                        }
                    },
                    ListingEvent::PageFailed { message } => {
                        self.phase = ListingPhase::Failed { error: EngineError::Protocol { message } };
                    },
                    ListingEvent::Exhausted => {
                        self.stack.pop();
                        if self.stack.len() == 0 {
                            self.phase = ListingPhase::Finished;
                        }
                        assert(self@.stack =~= old(self)@.stack.drop_last());
                    },
                    _ => {},
                }
            },
            ListingMode::Deep => {
                match event {
                    ListingEvent::Page { page } => {
                        open_top(&mut self.stack);
                        push_descents(&mut self.stack, &page);
                        let mut objects = object_items(
                            self.bucket.as_str(),
                            self.region.as_str(),
                            &page,
                        );
                        proof {
                            lemma_item_views_concat(self.items@, objects@);
                        }
                        let ghost before = item_views(self.items@);
                        let ghost added = item_views(objects@);
                        self.items.append(&mut objects);
                        proof {
                            let after = item_views(self.items@);
                            assert(after == before + added);
                            assert(after.take(before.len() as int) =~= before);
                            assert(after.subrange(
                                before.len() as int,
                                (before.len() + page@.contents.len()) as int,
                            ) =~= added);
                            assert(after.skip((before.len() + page@.contents.len()) as int)
                                =~= Seq::<StorageItemView>::empty());
                        }
                    },
                    ListingEvent::PageFailed { message } => {
                        self.phase = ListingPhase::Failed { error: EngineError::Protocol { message } };
                    },
                    ListingEvent::Exhausted => {
                        self.stack.pop();
                        if self.stack.len() == 0 {
                            self.phase = ListingPhase::Finished;
                        }
                        assert(self@.stack =~= old(self)@.stack.drop_last());
                    },
                    _ => {},
                }
            },
        }
    }

    /// What the listing returns: nothing while it still asks for a call, then
    /// its entries, or the failure that ended it.
    pub fn result(self) -> (outcome: Option<Result<Vec<StorageItem>, EngineError>>)
        ensures
            outcome is Some == self@.over(),
            outcome is Some ==> match outcome->0 {
                Ok(items) => self@.outcome() == Ok::<Seq<StorageItemView>, EngineErrorView>(
                    item_views(items@),
                ),
                Err(error) => self@.outcome() == Err::<Seq<StorageItemView>, EngineErrorView>(
                    error@,
                ),
            },
    {
        if !self.is_over() {
            return None;
        }
        match self.phase {
            ListingPhase::Failed { error } => Some(Err(error)),
            _ => Some(Ok(self.items)),
        }
    }
}

impl S3DataFetcher {
    /// The listing that shows where the caller stands: the buckets of the
    /// account where no bucket is named, else one level of the bucket under
    /// the prefix.
    pub fn list_current_location(&self, bucket: Option<String>, prefix: Option<String>) -> (listing:
        Listing)
        ensures
            listing@ == match bucket {
                Some(bucket) => ListingView::start(
                    ListingMode::Shallow,
                    bucket@,
                    optional_text(prefix),
                    self.default_region@,
                ),
                None => ListingView::root(),
            },
    {
        match bucket {
            Some(bucket) => self.list_objects(bucket.as_str(), prefix),
            None => Listing::of_buckets(),
        }
    }

    /// The listing of one level of `bucket`: the objects directly under
    /// `prefix`, and a directory for each common prefix.
    pub fn list_objects(&self, bucket: &str, prefix: Option<String>) -> (listing: Listing)
        ensures
            listing@ == ListingView::start(
                ListingMode::Shallow,
                bucket@,
                optional_text(prefix),
                self.default_region@,
            ),
    {
        Listing::begin(ListingMode::Shallow, bucket, prefix, self.default_region.as_str())
    }

    /// The listing of every object of `bucket` under `prefix`, at any depth.
    pub fn list_all_objects(&self, bucket: &str, prefix: Option<String>) -> (listing: Listing)
        ensures
            listing@ == ListingView::start(
                ListingMode::Deep,
                bucket@,
                optional_text(prefix),
                self.default_region@,
            ),
    {
        Listing::begin(ListingMode::Deep, bucket, prefix, self.default_region.as_str())
    }
}

} // verus!
