use dios3::decimal::{decimal, unsigned_decimal};
use dios3::fetcher::S3DataFetcher;
use dios3::item::StorageItem;
use dios3::text::{chars_of, copy_optional, file_type, owned_or_empty, segment_start, trimmed_length};

#[test]
fn filename_is_the_last_segment() {
    assert_eq!(S3DataFetcher::get_filename("a/b/c.txt"), Some("c.txt".to_string()));
    assert_eq!(S3DataFetcher::get_filename("file"), Some("file".to_string()));
    assert_eq!(S3DataFetcher::get_filename("//a"), Some("a".to_string()));
}

#[test]
fn filename_of_a_directory_is_none() {
    assert_eq!(S3DataFetcher::get_filename("a/b/"), None);
    assert_eq!(S3DataFetcher::get_filename("/"), None);
    assert_eq!(S3DataFetcher::get_filename(""), None);
}

#[test]
fn filename_keeps_characters_of_several_bytes() {
    assert_eq!(S3DataFetcher::get_filename("d\u{e9}p\u{f4}t/\u{e9}t\u{e9}.txt"), Some("\u{e9}t\u{e9}.txt".to_string()));
}

#[test]
fn last_directory_restores_the_delimiter() {
    assert_eq!(S3DataFetcher::get_last_directory("a/b/"), Some("b/".to_string()));
    assert_eq!(S3DataFetcher::get_last_directory("a/b"), Some("b/".to_string()));
    assert_eq!(S3DataFetcher::get_last_directory("photos/"), Some("photos/".to_string()));
}

#[test]
fn last_directory_passes_over_empty_segments() {
    assert_eq!(S3DataFetcher::get_last_directory("a//"), Some("a/".to_string()));
    assert_eq!(S3DataFetcher::get_last_directory("a/b///"), Some("b/".to_string()));
}

#[test]
fn last_directory_of_delimiters_alone_is_none() {
    assert_eq!(S3DataFetcher::get_last_directory("/"), None);
    assert_eq!(S3DataFetcher::get_last_directory("//"), None);
    assert_eq!(S3DataFetcher::get_last_directory(""), None);
}

#[test]
fn characters_come_in_order() {
    assert_eq!(chars_of("a/\u{e9}"), vec!['a', '/', '\u{e9}']);
    assert_eq!(chars_of(""), Vec::<char>::new());
}

#[test]
fn trimmed_length_sets_trailing_delimiters_aside() {
    assert_eq!(trimmed_length(&chars_of("ab//")), 2);
    assert_eq!(trimmed_length(&chars_of("ab")), 2);
    assert_eq!(trimmed_length(&chars_of("///")), 0);
}

#[test]
fn segment_starts_behind_the_last_delimiter() {
    let chars = chars_of("ab/cd/");
    assert_eq!(segment_start(&chars, 5), 3);
    assert_eq!(segment_start(&chars, 2), 0);
    assert_eq!(segment_start(&chars, 6), 6);
}

#[test]
fn file_type_is_the_extension() {
    assert_eq!(file_type("a/b/report.txt"), "txt");
    assert_eq!(file_type("archive.tar.gz"), "gz");
}

#[test]
fn file_type_is_empty_without_an_extension() {
    assert_eq!(file_type("a/b/report"), "");
    assert_eq!(file_type("a/.hidden"), "");
    assert_eq!(file_type(""), "");
}

#[test]
fn file_type_is_read_off_the_last_segment_that_names_something() {
    assert_eq!(file_type("docs/report.pdf"), "pdf");
    assert_eq!(file_type("v1.2/readme"), "");
    assert_eq!(file_type("a.b/"), "b");
    assert_eq!(file_type("a.b//./"), "b");
    assert_eq!(file_type("a.b/.."), "");
    assert_eq!(file_type("a.b/../"), "");
    assert_eq!(file_type("."), "");
    assert_eq!(file_type(".."), "");
    assert_eq!(file_type("/"), "");
    assert_eq!(file_type("./"), "");
}

#[test]
fn file_type_follows_the_last_dot_of_the_name() {
    assert_eq!(file_type("trailing."), "");
    assert_eq!(file_type("..."), "");
    assert_eq!(file_type("..rc"), "rc");
    assert_eq!(file_type(".profile"), "");
    assert_eq!(file_type(".profile.bak"), "bak");
    assert_eq!(file_type("a.tar.gz"), "gz");
    assert_eq!(file_type("d\u{e9}p\u{f4}t/\u{e9}t\u{e9}.t\u{e9}xt"), "t\u{e9}xt");
    assert_eq!(file_type("a.b\\c"), "b\\c");
    assert_eq!(file_type("c:report.txt"), "txt");
}

#[test]
fn file_type_agrees_with_the_file_system() {
    let alphabet = ['a', '.', '/', '\\', ':'];
    let mut keys: Vec<String> = vec![String::new()];
    let mut from = 0;
    for _ in 0..7 {
        let until = keys.len();
        for index in from..until {
            for letter in alphabet {
                let mut longer = keys[index].clone();
                longer.push(letter);
                keys.push(longer);
            }
        }
        from = until;
    }
    assert_eq!(keys.len(), 97656);
    for key in keys {
        let expected = std::path::Path::new(&key)
            .extension()
            .and_then(|e| e.to_str())
            .unwrap_or("")
            .to_string();
        assert_eq!(file_type(&key), expected, "for the key {:?}", key);
    }
}

#[test]
fn optional_texts_are_copied_and_defaulted() {
    assert_eq!(copy_optional(&Some("x".to_string())), Some("x".to_string()));
    assert_eq!(copy_optional(&None), None);
    assert_eq!(owned_or_empty(&Some("x".to_string())), "x");
    assert_eq!(owned_or_empty(&None), "");
}

#[test]
fn decimal_of_small_and_large_numbers() {
    assert_eq!(decimal(0), "0");
    assert_eq!(decimal(7), "7");
    assert_eq!(decimal(1234), "1234");
    assert_eq!(decimal(-5), "-5");
    assert_eq!(decimal(i64::MAX), "9223372036854775807");
    assert_eq!(decimal(i64::MIN), "-9223372036854775808");
}

#[test]
fn unsigned_decimal_has_no_leading_zeros() {
    assert_eq!(unsigned_decimal(10), "10");
    assert_eq!(unsigned_decimal(1000), "1000");
    assert_eq!(unsigned_decimal(u64::MAX), "18446744073709551615");
}

#[test]
fn decimal_agrees_with_the_standard_formatting() {
    for value in [0i64, 1, 9, 10, 99, 100, 101, 65536, -1, -10, -99999] {
        assert_eq!(decimal(value), value.to_string());
    }
}

#[test]
fn bucket_entry_has_its_name_as_path() {
    let item = StorageItem::bucket("demo");
    assert!(item.bucket_info.is_bucket);
    assert_eq!(item.bucket_info.bucket, None);
    assert_eq!(item.bucket_info.region, None);
    assert_eq!(item.file_info.file_name, "demo");
    assert_eq!(item.file_info.path, "demo");
    assert_eq!(item.file_info.file_type, "Bucket");
    assert_eq!(item.file_info.size, "");
    assert!(!item.file_info.is_directory);
}

#[test]
fn object_entry_shows_name_size_and_type() {
    let item = StorageItem::object("demo", "eu-west-1", "a/b/c.txt", Some(1234), "txt".to_string());
    assert!(!item.bucket_info.is_bucket);
    assert_eq!(item.bucket_info.bucket, Some("demo".to_string()));
    assert_eq!(item.bucket_info.region, Some("eu-west-1".to_string()));
    assert_eq!(item.file_info.file_name, "c.txt");
    assert_eq!(item.file_info.path, "a/b/c.txt");
    assert_eq!(item.file_info.size, "1234");
    assert_eq!(item.file_info.file_type, "txt");
    assert!(!item.file_info.is_directory);
}

#[test]
fn object_entry_without_size_has_empty_size() {
    let item = StorageItem::object("demo", "eu-west-1", "a/", None, String::new());
    assert_eq!(item.file_info.size, "");
    assert_eq!(item.file_info.file_name, "");
    assert_eq!(item.file_info.path, "a/");
}

#[test]
fn directory_entry_is_named_after_its_last_segment() {
    let item = StorageItem::directory("demo", "eu-west-1", "photos/2024/");
    assert!(item.file_info.is_directory);
    assert_eq!(item.file_info.file_name, "2024/");
    assert_eq!(item.file_info.path, "photos/2024/");
    assert_eq!(item.file_info.file_type, "Dir");
    assert_eq!(item.file_info.size, "");
    assert_eq!(item.bucket_info.bucket, Some("demo".to_string()));
    assert_eq!(item.bucket_info.region, Some("eu-west-1".to_string()));
}

#[test]
fn entries_are_copied_whole() {
    let item = StorageItem::directory("demo", "eu-west-1", "photos/");
    let copy = item.clone();
    assert_eq!(copy.file_info.path, item.file_info.path);
    assert_eq!(copy.file_info.file_name, item.file_info.file_name);
    assert_eq!(copy.bucket_info.bucket, item.bucket_info.bucket);
    assert_eq!(copy.file_info.is_directory, item.file_info.is_directory);
}
