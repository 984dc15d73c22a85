use dios3::account::Account;
use dios3::error::EngineError;
use dios3::fetcher::S3DataFetcher;
use dios3::item::StorageItem;
use dios3::lifecycle::{DeleteCommand, DeleteEvent};
use dios3::listing::{Listing, ListingCommand, ListingEvent};
use dios3::page::{directory_items, is_root_marker, object_items, ListPage, ObjectEntry};

/// A bucket of a service that lives in memory.
struct Bucket {
    name: String,
    region: Option<String>,
    keys: Vec<String>,
}

/// A service that lives in memory: it groups keys by the delimiter and
/// answers in pages of `page_size` entries.
struct Service {
    buckets: Vec<Bucket>,
    page_size: usize,
    broken_prefix: Option<String>,
    calls: usize,
}

impl Service {
    fn new(page_size: usize) -> Service {
        Service { buckets: Vec::new(), page_size, broken_prefix: None, calls: 0 }
    }

    fn pages(&self, bucket: &str, prefix: &str) -> Vec<ListPage> {
        let keys = match self.buckets.iter().find(|b| b.name == bucket) {
            Some(bucket) => bucket.keys.clone(),
            None => Vec::new(),
        };
        let mut sorted = keys;
        sorted.sort();
        let mut entries: Vec<(bool, String)> = Vec::new();
        for key in sorted {
            if !key.starts_with(prefix) {
                continue;
            }
            let rest = &key[prefix.len()..];
            match rest.find('/') {
                Some(at) => {
                    let common = format!("{}{}", prefix, &rest[..at + 1]);
                    if !entries.iter().any(|(is_prefix, text)| *is_prefix && *text == common) {
                        entries.push((true, common));
                    }
                }
                None => entries.push((false, key.clone())),
            }
        }
        let mut pages = Vec::new();
        for chunk in entries.chunks(self.page_size) {
            let mut page = ListPage { contents: Vec::new(), common_prefixes: Vec::new() };
            for (is_prefix, text) in chunk {
                if *is_prefix {
                    page.common_prefixes.push(Some(text.clone()));
                } else {
                    page.contents.push(ObjectEntry { key: Some(text.clone()), size: Some(text.len() as i64) });
                }
            }
            pages.push(page);
        }
        pages
    }
}

/// Makes the calls that a listing asks for until it asks for no more.
fn run(mut listing: Listing, service: &mut Service) -> Result<Vec<StorageItem>, EngineError> {
    let mut streams: Vec<std::vec::IntoIter<ListPage>> = Vec::new();
    let mut failing: Vec<bool> = Vec::new();
    loop {
        let command = listing.command();
        let read_top = match command {
            ListingCommand::Finish => break,
            ListingCommand::ListBuckets => {
                service.calls += 1;
                let names = service.buckets.iter().map(|b| Some(b.name.clone())).collect();
                listing.handle(ListingEvent::Buckets { names: Some(names) });
                false
            }
            ListingCommand::ResolveRegion { bucket } => {
                service.calls += 1;
                match service.buckets.iter().find(|b| b.name == bucket) {
                    Some(found) => listing.handle(ListingEvent::Located { constraint: found.region.clone() }),
                    None => listing.handle(ListingEvent::LocationFailed { message: "NoSuchBucket".to_string() }),
                }
                false
            }
            ListingCommand::Open { bucket, prefix, region: _ } => {
                let prefix = prefix.unwrap_or_default();
                failing.push(service.broken_prefix.as_deref() == Some(prefix.as_str()));
                streams.push(service.pages(&bucket, &prefix).into_iter());
                true
            }
            ListingCommand::Next => true,
        };
        if read_top {
            service.calls += 1;
            if *failing.last().unwrap() {
                *failing.last_mut().unwrap() = false;
                streams.last_mut().unwrap().by_ref().for_each(drop);
                listing.handle(ListingEvent::PageFailed { message: "page lost".to_string() });
                continue;
            }
            match streams.last_mut().unwrap().next() {
                Some(page) => listing.handle(ListingEvent::Page { page }),
                None => {
                    streams.pop();
                    failing.pop();
                    listing.handle(ListingEvent::Exhausted);
                }
            }
        }
    }
    assert!(listing.is_over());
    listing.result().unwrap()
}

fn fetcher() -> S3DataFetcher {
    S3DataFetcher::from_db_account(Some(Account {
        id: 1,
        name: "main".to_string(),
        description: "".to_string(),
        access_key: "AK".to_string(),
        secret_key: "SK".to_string(),
        is_default: true,
        default_region: "eu-central-1".to_string(),
    }))
    .unwrap()
}

fn photos(page_size: usize) -> Service {
    let mut service = Service::new(page_size);
    service.buckets.push(Bucket {
        name: "media".to_string(),
        region: Some("eu-west-1".to_string()),
        keys: vec![
            "readme.md",
            "photos/2023/a.jpg",
            "photos/2023/b.jpg",
            "photos/2024/c.jpg",
            "photos/index.html",
            "photos/raw/deep/er/d.raw",
            "video/clip.mp4",
            "zeta",
        ]
        .into_iter()
        .map(String::from)
        .collect(),
    });
    service
}

fn paths(items: &[StorageItem]) -> Vec<String> {
    items.iter().map(|item| item.file_info.path.clone()).collect()
}

#[test]
fn shallow_listing_of_the_top_level() {
    let mut service = photos(1000);
    let items = run(fetcher().list_objects("media", None), &mut service).unwrap();
    assert_eq!(paths(&items), vec!["readme.md", "zeta", "photos/", "video/"]);
    assert_eq!(items[0].file_info.file_name, "readme.md");
    assert_eq!(items[0].file_info.file_type, "md");
    assert_eq!(items[0].file_info.size, "9");
    assert!(!items[0].file_info.is_directory);
    assert_eq!(items[2].file_info.file_name, "photos/");
    assert_eq!(items[2].file_info.file_type, "Dir");
    assert!(items[2].file_info.is_directory);
    for item in &items {
        assert_eq!(item.bucket_info.bucket, Some("media".to_string()));
        assert_eq!(item.bucket_info.region, Some("eu-west-1".to_string()));
        assert!(!item.bucket_info.is_bucket);
    }
}

#[test]
fn shallow_listing_under_a_prefix() {
    let mut service = photos(1000);
    let items = run(fetcher().list_objects("media", Some("photos/".to_string())), &mut service).unwrap();
    assert_eq!(paths(&items), vec!["photos/index.html", "photos/2023/", "photos/2024/", "photos/raw/"]);
    assert_eq!(items[1].file_info.file_name, "2023/");
}

#[test]
fn shallow_listing_keeps_the_order_of_the_pages() {
    let mut service = photos(1);
    let items = run(fetcher().list_objects("media", None), &mut service).unwrap();
    assert_eq!(paths(&items), vec!["photos/", "readme.md", "video/", "zeta"]);
}

#[test]
fn shallow_listing_names_every_directory_after_its_path() {
    let mut service = photos(2);
    for prefix in [None, Some("photos/".to_string()), Some("photos/raw/".to_string())] {
        let items = run(fetcher().list_objects("media", prefix), &mut service).unwrap();
        for item in items.iter().filter(|item| item.file_info.is_directory) {
            assert!(item.file_info.path.ends_with('/'));
            let segment = item.file_info.path.split('/').filter(|part| !part.is_empty()).last().unwrap();
            assert_eq!(item.file_info.file_name, format!("{}/", segment));
            assert_eq!(item.file_info.size, "");
        }
    }
}

#[test]
fn shallow_listing_fails_where_a_page_cannot_be_read() {
    let mut service = photos(1000);
    service.broken_prefix = Some("".to_string());
    match run(fetcher().list_objects("media", None), &mut service) {
        Err(EngineError::Protocol { message }) => assert_eq!(message, "page lost"),
        _ => panic!("the listing should have failed"),
    }
}

#[test]
fn shallow_listing_fails_where_a_later_page_cannot_be_read() {
    let mut listing = fetcher().list_objects("media", None);
    listing.handle(ListingEvent::Located { constraint: None });
    listing.handle(ListingEvent::Page {
        page: ListPage {
            contents: vec![ObjectEntry { key: Some("a.txt".to_string()), size: Some(1) }],
            common_prefixes: vec![],
        },
    });
    assert!(matches!(listing.command(), ListingCommand::Next));
    listing.handle(ListingEvent::PageFailed { message: "SlowDown".to_string() });
    assert!(matches!(listing.command(), ListingCommand::Finish));
    listing.handle(ListingEvent::Exhausted);
    match listing.result().unwrap() {
        Err(EngineError::Protocol { message }) => assert_eq!(message, "SlowDown"),
        Ok(_) => panic!("a cut listing must not be returned"),
        Err(_) => panic!("the service rejected the page"),
    }
}

#[test]
fn shallow_listing_uses_the_default_region_without_a_constraint() {
    let mut service = photos(1000);
    service.buckets[0].region = None;
    let items = run(fetcher().list_objects("media", None), &mut service).unwrap();
    assert_eq!(items[0].bucket_info.region, Some("eu-central-1".to_string()));
}

#[test]
fn listing_fails_where_the_region_cannot_be_resolved() {
    let mut service = photos(1000);
    let outcome = run(fetcher().list_objects("missing", None), &mut service);
    match outcome {
        Err(EngineError::Protocol { message }) => assert_eq!(message, "NoSuchBucket"),
        _ => panic!("the listing should have failed"),
    }
}

#[test]
fn listing_asks_for_the_region_first() {
    let listing = fetcher().list_objects("media", None);
    match listing.command() {
        ListingCommand::ResolveRegion { bucket } => assert_eq!(bucket, "media"),
        _ => panic!("the region comes first"),
    }
    assert!(!listing.is_over());
    assert!(listing.result().is_none());
}

#[test]
fn listing_opens_with_prefix_and_region() {
    let mut listing = fetcher().list_all_objects("media", Some("photos/".to_string()));
    listing.handle(ListingEvent::Located { constraint: Some("us-east-2".to_string()) });
    match listing.command() {
        ListingCommand::Open { bucket, prefix, region } => {
            assert_eq!(bucket, "media");
            assert_eq!(prefix, Some("photos/".to_string()));
            assert_eq!(region, "us-east-2");
        }
        _ => panic!("the listing should open"),
    }
}

#[test]
fn listing_ignores_an_answer_that_it_did_not_ask_for() {
    let mut listing = fetcher().list_objects("media", None);
    listing.handle(ListingEvent::Exhausted);
    listing.handle(ListingEvent::Page { page: ListPage { contents: vec![], common_prefixes: vec![] } });
    match listing.command() {
        ListingCommand::ResolveRegion { bucket } => assert_eq!(bucket, "media"),
        _ => panic!("the listing should still ask for the region"),
    }
}

#[test]
fn deep_listing_returns_every_key_once() {
    for page_size in [1, 2, 3, 1000] {
        let mut service = photos(page_size);
        let items = run(fetcher().list_all_objects("media", None), &mut service).unwrap();
        let mut found = paths(&items);
        found.sort();
        let mut expected = service.buckets[0].keys.clone();
        expected.sort();
        assert_eq!(found, expected);
        assert!(items.iter().all(|item| !item.file_info.is_directory));
    }
}

#[test]
fn deep_listing_under_a_prefix_returns_the_keys_under_it() {
    let mut service = photos(2);
    let items = run(fetcher().list_all_objects("media", Some("photos/".to_string())), &mut service).unwrap();
    let mut found = paths(&items);
    found.sort();
    assert_eq!(
        found,
        vec![
            "photos/2023/a.jpg",
            "photos/2023/b.jpg",
            "photos/2024/c.jpg",
            "photos/index.html",
            "photos/raw/deep/er/d.raw",
        ]
    );
}

#[test]
fn deep_listing_goes_into_each_directory_before_the_next_page() {
    let mut service = photos(1000);
    let items = run(fetcher().list_all_objects("media", None), &mut service).unwrap();
    assert_eq!(
        paths(&items),
        vec![
            "readme.md",
            "zeta",
            "photos/index.html",
            "photos/2023/a.jpg",
            "photos/2023/b.jpg",
            "photos/2024/c.jpg",
            "photos/raw/deep/er/d.raw",
            "video/clip.mp4",
        ]
    );
}

#[test]
fn deep_listing_is_the_union_of_the_shallow_listings() {
    let mut service = photos(3);
    let mut expected: Vec<String> = Vec::new();
    let mut todo: Vec<Option<String>> = vec![None];
    while let Some(prefix) = todo.pop() {
        let items = run(fetcher().list_objects("media", prefix), &mut service).unwrap();
        for item in items {
            if item.file_info.is_directory {
                todo.push(Some(item.file_info.path));
            } else {
                expected.push(item.file_info.path);
            }
        }
    }
    expected.sort();
    let mut found = paths(&run(fetcher().list_all_objects("media", None), &mut service).unwrap());
    found.sort();
    assert_eq!(found, expected);
}

#[test]
fn deep_listing_of_an_empty_bucket_is_empty() {
    let mut service = Service::new(10);
    service.buckets.push(Bucket { name: "empty".to_string(), region: None, keys: vec![] });
    let items = run(fetcher().list_all_objects("empty", None), &mut service).unwrap();
    assert!(items.is_empty());
}

#[test]
fn deep_listing_fails_whole_where_a_page_cannot_be_read() {
    let mut service = photos(1000);
    service.broken_prefix = Some("photos/raw/".to_string());
    let outcome = run(fetcher().list_all_objects("media", None), &mut service);
    match outcome {
        Err(EngineError::Protocol { message }) => assert_eq!(message, "page lost"),
        _ => panic!("the listing should have failed"),
    }
}

#[test]
fn root_listing_returns_one_entry_for_each_bucket() {
    let mut service = photos(1000);
    service.buckets.push(Bucket { name: "backup".to_string(), region: None, keys: vec![] });
    let items = run(fetcher().list_current_location(None, None), &mut service).unwrap();
    assert_eq!(paths(&items), vec!["media", "backup"]);
    assert!(items.iter().all(|item| item.bucket_info.is_bucket));
    assert_eq!(service.calls, 1);
}

#[test]
fn root_listing_is_chosen_without_a_bucket() {
    let listing = fetcher().list_current_location(None, Some("photos/".to_string()));
    assert!(matches!(listing.command(), ListingCommand::ListBuckets));
    let listing = Listing::of_buckets();
    assert!(matches!(listing.command(), ListingCommand::ListBuckets));
}

#[test]
fn root_listing_of_an_answer_without_a_list_is_empty() {
    let mut listing = fetcher().list_current_location(None, None);
    listing.handle(ListingEvent::Buckets { names: None });
    assert!(listing.is_over());
    assert!(listing.result().unwrap().unwrap().is_empty());
}

#[test]
fn root_listing_fails_where_the_query_is_rejected() {
    let mut listing = fetcher().list_current_location(None, None);
    listing.handle(ListingEvent::BucketsFailed { message: "AccessDenied".to_string() });
    assert!(listing.is_over());
    assert!(matches!(listing.command(), ListingCommand::Finish));
    match listing.result().unwrap() {
        Err(EngineError::Protocol { message }) => assert_eq!(message, "AccessDenied"),
        _ => panic!("the query was rejected"),
    }
}

#[test]
fn current_location_with_a_bucket_is_listed_one_level_deep() {
    let mut service = photos(1000);
    let listing = fetcher().list_current_location(Some("media".to_string()), Some("video/".to_string()));
    let items = run(listing, &mut service).unwrap();
    assert_eq!(paths(&items), vec!["video/clip.mp4"]);
}

#[test]
fn created_bucket_shows_in_the_root_listing_until_it_is_deleted() {
    let mut service = Service::new(1000);
    let fetcher = fetcher();

    let call = fetcher.create_bucket("demo".to_string(), "eu-west-1".to_string());
    assert_eq!(call.bucket, "demo");
    assert_eq!(call.location_constraint, "eu-west-1");
    service.buckets.push(Bucket {
        name: call.bucket.clone(),
        region: Some(call.location_constraint.clone()),
        keys: vec![],
    });
    assert!(call.result(Ok(())).is_ok());

    let items = run(fetcher.list_current_location(None, None), &mut service).unwrap();
    assert!(items.iter().any(|item| item.bucket_info.is_bucket && item.file_info.path == "demo"));

    let mut deletion = fetcher.delete_data(true, None, "demo".to_string(), false);
    loop {
        match deletion.command() {
            DeleteCommand::ResolveRegion { bucket } => {
                let region = service.buckets.iter().find(|b| b.name == bucket).unwrap().region.clone();
                deletion.handle(DeleteEvent::Located { constraint: region });
            }
            DeleteCommand::DeleteBucket { bucket, region } => {
                assert_eq!(region, "eu-west-1");
                service.buckets.retain(|b| b.name != bucket);
                deletion.handle(DeleteEvent::Deleted);
            }
            DeleteCommand::DeleteObject { .. } => panic!("a bucket was to be deleted"),
            DeleteCommand::Finish => break,
        }
    }
    assert!(deletion.result().unwrap().is_ok());

    let items = run(fetcher.list_current_location(None, None), &mut service).unwrap();
    assert!(!items.iter().any(|item| item.file_info.path == "demo"));
}

#[test]
fn objects_of_a_page_become_entries_in_order() {
    let page = ListPage {
        contents: vec![
            ObjectEntry { key: Some("docs/a.txt".to_string()), size: Some(12) },
            ObjectEntry { key: None, size: None },
            ObjectEntry { key: Some("docs/b".to_string()), size: Some(0) },
        ],
        common_prefixes: vec![Some("docs/sub/".to_string())],
    };
    let items = object_items("demo", "eu-west-1", &page);
    assert_eq!(items.len(), 3);
    assert_eq!(items[0].file_info.path, "docs/a.txt");
    assert_eq!(items[0].file_info.file_name, "a.txt");
    assert_eq!(items[0].file_info.file_type, "txt");
    assert_eq!(items[0].file_info.size, "12");
    assert_eq!(items[1].file_info.path, "");
    assert_eq!(items[1].file_info.file_name, "");
    assert_eq!(items[1].file_info.size, "");
    assert_eq!(items[2].file_info.file_type, "");
    assert_eq!(items[2].file_info.size, "0");
}

#[test]
fn directories_of_a_page_leave_the_root_marker_out() {
    let page = ListPage {
        contents: vec![],
        common_prefixes: vec![
            Some("/".to_string()),
            Some("docs/".to_string()),
            None,
            Some("//".to_string()),
        ],
    };
    let items = directory_items("demo", "eu-west-1", &page);
    assert_eq!(paths(&items), vec!["docs/", "", "//"]);
    assert_eq!(items[0].file_info.file_name, "docs/");
    assert_eq!(items[1].file_info.file_name, "");
    assert_eq!(items[2].file_info.file_name, "");
    assert!(items.iter().all(|item| item.file_info.is_directory));
}

#[test]
fn root_marker_is_the_delimiter_alone() {
    assert!(is_root_marker("/"));
    assert!(!is_root_marker(""));
    assert!(!is_root_marker("//"));
    assert!(!is_root_marker("a/"));
}

#[test]
fn shallow_listing_shows_the_direct_keys_and_the_common_prefixes() {
    for page_size in [1, 2, 1000] {
        let mut service = photos(page_size);
        for prefix in ["", "photos/", "photos/2023/", "pho", "video/", "none/"] {
            let keys = service.buckets[0].keys.clone();
            let mut direct: Vec<String> = Vec::new();
            let mut common: Vec<String> = Vec::new();
            for key in keys.iter().filter(|key| key.starts_with(prefix)) {
                let rest = &key[prefix.len()..];
                match rest.find('/') {
                    None => direct.push(key.clone()),
                    Some(at) => {
                        let folder = format!("{}{}", prefix, &rest[..at + 1]);
                        if !common.contains(&folder) {
                            common.push(folder);
                        }
                    }
                }
            }
            direct.sort();
            common.sort();
            let prefix = if prefix.is_empty() { None } else { Some(prefix.to_string()) };
            let items = run(fetcher().list_objects("media", prefix), &mut service).unwrap();
            let mut objects: Vec<String> = items
                .iter()
                .filter(|item| !item.file_info.is_directory)
                .map(|item| item.file_info.path.clone())
                .collect();
            let mut folders: Vec<String> = items
                .iter()
                .filter(|item| item.file_info.is_directory)
                .map(|item| item.file_info.path.clone())
                .collect();
            objects.sort();
            folders.sort();
            assert_eq!(objects, direct);
            assert_eq!(folders, common);
        }
    }
}
