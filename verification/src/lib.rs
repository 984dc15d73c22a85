//! Client-side engine for browsing and changing what a remote object store
//! holds: buckets, keys, and the directories that a delimiter makes of keys.
//!
//! The engine makes no call itself. Each operation says which call comes
//! next, and is handed what the service answered: a listing, a download and a
//! deletion are state machines; an upload and the creation of a bucket are a
//! call and a result. Whoever runs them resolves the client from
//! [`fetcher::S3DataFetcher`], makes the call, and hands the answer back.

pub mod account;
pub mod account_repo;
pub mod bucket_form;
pub mod bucket_table;
pub mod buckets;
pub mod decimal;
pub mod error;
pub mod fetcher;
pub mod item;
pub mod key_space;
pub mod level;
pub mod lifecycle;
pub mod listing;
pub mod page;
pub mod pager;
pub mod run;
pub mod session;
pub mod text;
pub mod transfer;
pub mod walk;
