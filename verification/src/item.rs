//! The entries that a listing returns.

use vstd::prelude::*;
use crate::decimal::{decimal, decimal_text};
use crate::fetcher::S3DataFetcher;
use crate::text::{
    copy_optional, ends_with_delimiter, filename_of, last_directory_of, optional_text,
    text_or_empty,
};

verus! {

/// Where an entry lives: its bucket and the bucket's region, or the mark that
/// the entry is itself a bucket.
#[derive(Debug)]
pub struct BucketInfo {
    pub bucket: Option<String>,
    pub region: Option<String>,
    pub is_bucket: bool,
}

/// What an entry is called and how it is shown.
#[derive(Debug)]
pub struct FileInfo {
    pub file_name: String,
    /// The size in decimal, empty where it is unknown.
    pub size: String,
    /// The extension of an object, `Dir` for a directory, `Bucket` for a bucket.
    pub file_type: String,
    /// The full key, or the bucket's name.
    pub path: String,
    pub is_directory: bool,
}

/// One entry of a listing: a bucket, an emulated directory, or an object.
#[derive(Debug)]
pub struct StorageItem {
    pub bucket_info: BucketInfo,
    pub file_info: FileInfo,
}

/// What a [`BucketInfo`] holds, as plain values.
pub struct BucketInfoView {
    pub bucket: Option<Seq<char>>,
    pub region: Option<Seq<char>>,
    pub is_bucket: bool,
}

/// What a [`FileInfo`] holds, as plain values.
pub struct FileInfoView {
    pub file_name: Seq<char>,
    pub size: Seq<char>,
    pub file_type: Seq<char>,
    pub path: Seq<char>,
    pub is_directory: bool,
}

/// What a [`StorageItem`] holds, as plain values.
pub struct StorageItemView {
    pub bucket_info: BucketInfoView,
    pub file_info: FileInfoView,
}

impl View for BucketInfo {
    type V = BucketInfoView;

    open spec fn view(&self) -> BucketInfoView {
        BucketInfoView {
            bucket: optional_text(self.bucket),
            region: optional_text(self.region),
            is_bucket: self.is_bucket,
        }
    }
}

impl View for FileInfo {
    type V = FileInfoView;

    open spec fn view(&self) -> FileInfoView {
        FileInfoView {
            file_name: self.file_name@,
            size: self.size@,
            file_type: self.file_type@,
            path: self.path@,
            is_directory: self.is_directory,
        }
    }
}

impl View for StorageItem {
    type V = StorageItemView;

    open spec fn view(&self) -> StorageItemView {
        StorageItemView { bucket_info: self.bucket_info@, file_info: self.file_info@ }
    }
}

/// The views of a sequence of items, in order.
pub open spec fn item_views(items: Seq<StorageItem>) -> Seq<StorageItemView> {
    Seq::new(items.len(), |i: int| items[i]@)
}

/// The size shown for an object: the number in decimal, or nothing where the
/// service gave none.
pub open spec fn size_text(size: Option<i64>) -> Seq<char> {
    match size {
        Some(size) => decimal_text(size as int),
        None => Seq::<char>::empty(),
    }
}

/// The entry for the bucket called `name`.
pub open spec fn bucket_item_view(name: Seq<char>) -> StorageItemView {
    StorageItemView {
        bucket_info: BucketInfoView { bucket: None, region: None, is_bucket: true },
        file_info: FileInfoView {
            file_name: name,
            size: Seq::<char>::empty(),
            file_type: "Bucket"@,
            path: name,
            is_directory: false,
        },
    }
}

/// The entry for the object at `key`, shown with `file_type`.
pub open spec fn object_item_view(
    bucket: Seq<char>,
    region: Seq<char>,
    key: Seq<char>,
    size: Option<i64>,
    file_type: Seq<char>,
) -> StorageItemView {
    StorageItemView {
        bucket_info: BucketInfoView { bucket: Some(bucket), region: Some(region), is_bucket: false },
        file_info: FileInfoView {
            file_name: text_or_empty(filename_of(key)),
            size: size_text(size),
            file_type,
            path: key,
            is_directory: false,
        },
    }
}

/// The entry for the emulated directory at `prefix`.
pub open spec fn directory_item_view(
    bucket: Seq<char>,
    region: Seq<char>,
    prefix: Seq<char>,
) -> StorageItemView {
    StorageItemView {
        bucket_info: BucketInfoView { bucket: Some(bucket), region: Some(region), is_bucket: false },
        file_info: FileInfoView {
            file_name: text_or_empty(last_directory_of(prefix)),
            size: Seq::<char>::empty(),
            file_type: "Dir"@,
            path: prefix,
            is_directory: true,
        },
    }
}

impl StorageItemView {
    /// What holds of every entry that the engine makes. A bucket names no
    /// bucket or region beside itself, and its path is its name. A
    /// directory's path ends with the delimiter and it has no size. Anything
    /// else is an object, whose size is a number in decimal or unknown.
    pub open spec fn well_formed(self) -> bool {
        if self.bucket_info.is_bucket {
            &&& self.bucket_info.bucket is None
            &&& self.bucket_info.region is None
            &&& self.file_info.path == self.file_info.file_name
            &&& !self.file_info.is_directory
        } else if self.file_info.is_directory {
            &&& ends_with_delimiter(self.file_info.path)
            &&& self.file_info.size.len() == 0
        } else {
            self.file_info.size.len() == 0 || exists|size: int|
                self.file_info.size == #[trigger] decimal_text(size)
        }
    }
}

/// Every bucket entry is well formed.
pub proof fn lemma_bucket_item_well_formed(name: Seq<char>)
    ensures
        bucket_item_view(name).well_formed(),
{
}

/// Every object entry is well formed.
pub proof fn lemma_object_item_well_formed(
    bucket: Seq<char>,
    region: Seq<char>,
    key: Seq<char>,
    size: Option<i64>,
    file_type: Seq<char>,
)
    ensures
        object_item_view(bucket, region, key, size, file_type).well_formed(),
{
    if size is Some {
        assert(size_text(size) == decimal_text(size->0 as int));
    }
}

/// The entry of a directory whose prefix ends with the delimiter is well formed.
pub proof fn lemma_directory_item_well_formed(
    bucket: Seq<char>,
    region: Seq<char>,
    prefix: Seq<char>,
)
    requires
        ends_with_delimiter(prefix),
    ensures
        directory_item_view(bucket, region, prefix).well_formed(),
{
}

impl Clone for BucketInfo {
    fn clone(&self) -> (copy: Self)
        ensures
            copy == *self,
    {
        BucketInfo {
            bucket: copy_optional(&self.bucket),
            region: copy_optional(&self.region),
            is_bucket: self.is_bucket,
        }
    }
}

impl Clone for FileInfo {
    fn clone(&self) -> (copy: Self)
        ensures
            copy == *self,
    {
        FileInfo {
            file_name: self.file_name.clone(),
            size: self.size.clone(),
            file_type: self.file_type.clone(),
            path: self.path.clone(),
            is_directory: self.is_directory,
        }
    }
}

impl Clone for StorageItem {
    fn clone(&self) -> (copy: Self)
        ensures
            copy == *self,
    {
        StorageItem { bucket_info: self.bucket_info.clone(), file_info: self.file_info.clone() }
    }
}

impl StorageItem {
    /// The entry made of where it lives and what it is called.
    pub fn init(bucket_info: BucketInfo, file_info: FileInfo) -> (item: StorageItem)
        ensures
            item.bucket_info == bucket_info,
            item.file_info == file_info,
    {
        StorageItem { bucket_info, file_info }
    }

    /// The entry for the bucket called `name`.
    pub fn bucket(name: &str) -> (item: StorageItem)
        ensures
            item@ == bucket_item_view(name@),
    {
        let file_info = FileInfo {
            file_name: name.to_owned(),
            size: String::new(),
            file_type: "Bucket".to_owned(),
            path: name.to_owned(),
            is_directory: false,
        };
        let bucket_info = BucketInfo { bucket: None, region: None, is_bucket: true };
        StorageItem::init(bucket_info, file_info)
    }

    /// The entry for the object at `key` in `bucket`, shown with `file_type`.
    pub fn object(bucket: &str, region: &str, key: &str, size: Option<i64>, file_type: String) -> (item:
        StorageItem)
        ensures
            item@ == object_item_view(bucket@, region@, key@, size, file_type@),
    {
        let size = match size {
            Some(size) => decimal(size),
            None => String::new(),
        };
        let file_name = match S3DataFetcher::get_filename(key) {
            Some(name) => name,
            None => String::new(),
        };
        let file_info = FileInfo {
            file_name,
            size,
            file_type,
            path: key.to_owned(),
            is_directory: false,
        };
        let bucket_info = BucketInfo {
            bucket: Some(bucket.to_owned()),
            region: Some(region.to_owned()),
            is_bucket: false,
        };
        StorageItem::init(bucket_info, file_info)
    }

    /// The entry for the emulated directory at `prefix` in `bucket`.
    pub fn directory(bucket: &str, region: &str, prefix: &str) -> (item: StorageItem)
        ensures
            item@ == directory_item_view(bucket@, region@, prefix@),
    {
        let file_name = match S3DataFetcher::get_last_directory(prefix) {
            Some(name) => name,
            None => String::new(),
        };
        let file_info = FileInfo {
            file_name,
            size: String::new(),
            file_type: "Dir".to_owned(),
            path: prefix.to_owned(),
            is_directory: true,
        };
        let bucket_info = BucketInfo {
            bucket: Some(bucket.to_owned()),
            region: Some(region.to_owned()),
            is_bucket: false,
        };
        StorageItem::init(bucket_info, file_info)
    }
}

} // verus!
