use dios3::account::Account;
use dios3::error::EngineError;
use dios3::fetcher::S3DataFetcher;
use dios3::lifecycle::{object_refusal, refusal_error, DeleteCommand, DeleteEvent, DeleteTarget};
use dios3::transfer::{
    upload_result, DownloadCommand, DownloadEvent, DownloadRequest, Percentage, UploadAnswer,
    UploadRequest,
};

fn fetcher() -> S3DataFetcher {
    S3DataFetcher::from_db_account(Some(Account {
        id: 1,
        name: "main".to_string(),
        description: "".to_string(),
        access_key: "AK".to_string(),
        secret_key: "SK".to_string(),
        is_default: true,
        default_region: "eu-central-1".to_string(),
    }))
    .unwrap()
}

fn request() -> DownloadRequest {
    DownloadRequest {
        bucket: "media".to_string(),
        key: "photos/a.jpg".to_string(),
        display_name: "a.jpg".to_string(),
        destination_dir: "/tmp/downloads".to_string(),
    }
}

fn percent(total: i64, byte_count: usize) -> Percentage {
    S3DataFetcher::calculate_download_percentage(total, byte_count)
}

fn quotient(percent: Percentage) -> f64 {
    percent.numerator as f64 / percent.denominator as f64
}

#[test]
fn percentage_of_a_total_of_zero_is_zero() {
    for byte_count in [0usize, 1, 50, 4096, usize::MAX] {
        let share = percent(0, byte_count);
        assert_eq!(share, Percentage { numerator: 0, denominator: 1 });
        assert_eq!(quotient(share), 0.0);
        assert!(!quotient(share).is_nan());
    }
}

#[test]
fn percentage_of_fifty_in_two_hundred_is_twenty_five() {
    let share = percent(200, 50);
    assert_eq!(share, Percentage { numerator: 5000, denominator: 200 });
    assert_eq!(share.numerator, 25 * share.denominator);
    assert_eq!(quotient(share), 25.0);
}

#[test]
fn percentage_of_three_in_eight_is_thirty_seven_and_a_half() {
    let share = percent(8, 3);
    assert_eq!(share, Percentage { numerator: 300, denominator: 8 });
    assert_eq!(2 * share.numerator, 75 * share.denominator);
    assert_eq!(quotient(share), 37.5);
}

#[test]
fn percentage_is_a_hundred_times_the_bytes_over_the_total() {
    assert_eq!(percent(3, 1), Percentage { numerator: 100, denominator: 3 });
    assert_eq!(percent(3, 3), Percentage { numerator: 300, denominator: 3 });
    assert_eq!(quotient(percent(3, 3)), 100.0);
    assert_eq!(percent(200, 0), Percentage { numerator: 0, denominator: 200 });
    assert_eq!(quotient(percent(200, 0)), 0.0);
}

#[test]
fn percentage_of_a_negative_total_has_a_positive_denominator() {
    assert_eq!(percent(-200, 50), Percentage { numerator: -5000, denominator: 200 });
    assert_eq!(quotient(percent(-200, 50)), -25.0);
    assert_eq!(percent(i64::MIN, 0), Percentage { numerator: 0, denominator: 1i128 << 63 });
    assert_eq!(
        percent(i64::MIN, usize::MAX),
        Percentage { numerator: -100 * (usize::MAX as i128), denominator: 1i128 << 63 }
    );
}

#[test]
fn percentage_goes_past_a_hundred_with_more_bytes_than_the_total() {
    assert_eq!(quotient(percent(100, 250)), 250.0);
    assert_eq!(
        percent(1, usize::MAX),
        Percentage { numerator: 100 * (usize::MAX as i128), denominator: 1 }
    );
}

#[test]
fn percentage_never_falls_as_bytes_arrive() {
    let mut last = percent(200, 0);
    let mut byte_count = 0usize;
    for chunk in [1usize, 10, 0, 7, 100, 82] {
        byte_count += chunk;
        let share = percent(200, byte_count);
        assert!(last.numerator * share.denominator <= share.numerator * last.denominator);
        assert!(quotient(last) <= quotient(share));
        last = share;
    }
    assert_eq!(quotient(last), 100.0);
}

#[test]
fn download_asks_for_size_file_object_and_chunks_in_turn() {
    let mut download = fetcher().download_item(request());
    match download.command() {
        DownloadCommand::HeadObject { bucket, key } => {
            assert_eq!(bucket, "media");
            assert_eq!(key, "photos/a.jpg");
        }
        _ => panic!("the size comes first"),
    }
    assert!(download.handle(DownloadEvent::Size { content_length: Some(200) }).is_none());
    match download.command() {
        DownloadCommand::PrepareFile { directory, name } => {
            assert_eq!(directory, "/tmp/downloads");
            assert_eq!(name, "photos/a.jpg");
        }
        _ => panic!("the file comes second"),
    }
    assert!(download.handle(DownloadEvent::FileReady).is_none());
    match download.command() {
        DownloadCommand::GetObject { bucket, key } => {
            assert_eq!(bucket, "media");
            assert_eq!(key, "photos/a.jpg");
        }
        _ => panic!("the object comes third"),
    }
    assert!(download.handle(DownloadEvent::Opened).is_none());
    assert!(matches!(download.command(), DownloadCommand::NextChunk));

    assert!(download.can_count(50));
    let report = download.handle(DownloadEvent::ChunkWritten { length: 50 }).unwrap();
    assert_eq!(report.name, "photos/a.jpg");
    assert_eq!(report.bucket, "media");
    assert_eq!(report.byte_count, 50);
    assert_eq!(report.total, 200);
    assert_eq!(report.percent, Percentage { numerator: 5000, denominator: 200 });
    assert_eq!(quotient(report.percent), 25.0);

    let report = download.handle(DownloadEvent::ChunkWritten { length: 150 }).unwrap();
    assert_eq!(report.byte_count, 200);
    assert_eq!(quotient(report.percent), 100.0);
    assert!(matches!(download.command(), DownloadCommand::NextChunk));

    assert!(download.handle(DownloadEvent::End).is_none());
    assert!(matches!(download.command(), DownloadCommand::Finish));
    assert_eq!(download.result().unwrap().unwrap(), true);
}

#[test]
fn download_reports_zero_percent_without_a_size() {
    let mut download = fetcher().download_item(request());
    download.handle(DownloadEvent::Size { content_length: None });
    download.handle(DownloadEvent::FileReady);
    download.handle(DownloadEvent::Opened);
    let report = download.handle(DownloadEvent::ChunkWritten { length: 4096 }).unwrap();
    assert_eq!(report.total, 0);
    assert_eq!(report.percent, Percentage { numerator: 0, denominator: 1 });
    assert_eq!(quotient(report.percent), 0.0);
    assert_eq!(report.byte_count, 4096);
}

#[test]
fn download_is_not_over_while_it_streams() {
    let mut download = fetcher().download_item(request());
    download.handle(DownloadEvent::Size { content_length: Some(10) });
    download.handle(DownloadEvent::FileReady);
    download.handle(DownloadEvent::Opened);
    assert!(download.result().is_none());
}

#[test]
fn download_fails_where_the_size_cannot_be_had() {
    let mut download = fetcher().download_item(request());
    download.handle(DownloadEvent::ServiceFailed { message: "NotFound".to_string() });
    assert!(matches!(download.command(), DownloadCommand::Finish));
    match download.result().unwrap() {
        Err(EngineError::Protocol { message }) => assert_eq!(message, "NotFound"),
        _ => panic!("the download failed"),
    }
}

#[test]
fn download_fails_where_the_file_cannot_be_made() {
    let mut download = fetcher().download_item(request());
    download.handle(DownloadEvent::Size { content_length: Some(10) });
    download.handle(DownloadEvent::FileFailed { message: "read-only file system".to_string() });
    match download.result().unwrap() {
        Err(EngineError::Io { message }) => assert_eq!(message, "read-only file system"),
        _ => panic!("the download failed"),
    }
}

#[test]
fn download_fails_where_a_chunk_cannot_be_written() {
    let mut download = fetcher().download_item(request());
    download.handle(DownloadEvent::Size { content_length: Some(10) });
    download.handle(DownloadEvent::FileReady);
    download.handle(DownloadEvent::Opened);
    download.handle(DownloadEvent::ChunkWritten { length: 4 });
    download.handle(DownloadEvent::FileFailed { message: "disk full".to_string() });
    match download.result().unwrap() {
        Err(EngineError::Io { message }) => assert_eq!(message, "disk full"),
        _ => panic!("the download failed"),
    }
}

#[test]
fn download_fails_where_the_stream_breaks() {
    let mut download = fetcher().download_item(request());
    download.handle(DownloadEvent::Size { content_length: Some(10) });
    download.handle(DownloadEvent::FileReady);
    download.handle(DownloadEvent::ServiceFailed { message: "reset".to_string() });
    match download.result().unwrap() {
        Err(EngineError::Protocol { message }) => assert_eq!(message, "reset"),
        _ => panic!("the download failed"),
    }
}

#[test]
fn download_ignores_what_it_did_not_ask_for() {
    let mut download = fetcher().download_item(request());
    assert!(download.handle(DownloadEvent::ChunkWritten { length: 10 }).is_none());
    download.handle(DownloadEvent::End);
    download.handle(DownloadEvent::Opened);
    download.handle(DownloadEvent::FileReady);
    download.handle(DownloadEvent::FileFailed { message: "x".to_string() });
    assert!(matches!(download.command(), DownloadCommand::HeadObject { .. }));
    download.handle(DownloadEvent::Size { content_length: Some(10) });
    download.handle(DownloadEvent::ServiceFailed { message: "x".to_string() });
    assert!(matches!(download.command(), DownloadCommand::PrepareFile { .. }));
}

#[test]
fn download_counts_up_to_the_limit_of_the_machine() {
    let mut download = fetcher().download_item(request());
    download.handle(DownloadEvent::Size { content_length: Some(10) });
    download.handle(DownloadEvent::FileReady);
    download.handle(DownloadEvent::Opened);
    download.handle(DownloadEvent::ChunkWritten { length: 10 });
    assert!(download.can_count(usize::MAX - 10));
    assert!(!download.can_count(usize::MAX - 9));
}

#[test]
fn upload_stores_under_the_destination_path() {
    let call = fetcher().upload_item(UploadRequest {
        local_path: "/home/me/report.pdf".to_string(),
        destination_bucket: "media".to_string(),
        destination_path: "docs/report.pdf".to_string(),
        display_name: "report.pdf".to_string(),
    });
    assert_eq!(call.bucket, "media");
    assert_eq!(call.key, "docs/report.pdf");
    assert_eq!(call.source, "/home/me/report.pdf");
}

#[test]
fn upload_to_the_root_stores_under_the_name() {
    let call = fetcher().upload_item(UploadRequest {
        local_path: "/home/me/report.pdf".to_string(),
        destination_bucket: "media".to_string(),
        destination_path: "/".to_string(),
        display_name: "report.pdf".to_string(),
    });
    assert_eq!(call.key, "report.pdf");
}

#[test]
fn upload_returns_true_or_the_failure() {
    assert_eq!(upload_result(UploadAnswer::Stored).unwrap(), true);
    match upload_result(UploadAnswer::Refused { message: "AccessDenied".to_string() }) {
        Err(EngineError::Protocol { message }) => assert_eq!(message, "AccessDenied"),
        _ => panic!("the upload was refused"),
    }
    match upload_result(UploadAnswer::Unreadable { message: "no such file".to_string() }) {
        Err(EngineError::Io { message }) => assert_eq!(message, "no such file"),
        _ => panic!("the file could not be read"),
    }
}

#[test]
fn bucket_creation_returns_the_message_of_the_service() {
    let call = fetcher().create_bucket("demo".to_string(), "eu-west-1".to_string());
    assert!(call.result(Ok(())).is_ok());
    match call.result(Err(Some("BucketAlreadyExists".to_string()))) {
        Err(EngineError::Protocol { message }) => assert_eq!(message, "BucketAlreadyExists"),
        _ => panic!("the creation was refused"),
    }
    match call.result(Err(None)) {
        Err(EngineError::Protocol { message }) => assert_eq!(message, "Cannot create bucket"),
        _ => panic!("the creation was refused"),
    }
}

#[test]
fn deleting_an_object_without_a_bucket_fails_before_any_call() {
    let deletion = fetcher().delete_data(false, None, "a.txt".to_string(), false);
    assert!(matches!(deletion.command(), DeleteCommand::Finish));
    match deletion.result().unwrap() {
        Err(error) => {
            assert!(matches!(error, EngineError::NoBucketSpecified));
            assert_eq!(error.message(), "No bucket specified!");
        }
        Ok(()) => panic!("nothing can have been deleted"),
    }
}

#[test]
fn deleting_an_object_resolves_the_region_first() {
    let mut deletion = fetcher().delete_data(false, Some("media".to_string()), "a.txt".to_string(), false);
    match deletion.command() {
        DeleteCommand::ResolveRegion { bucket } => assert_eq!(bucket, "media"),
        _ => panic!("the region comes first"),
    }
    deletion.handle(DeleteEvent::Located { constraint: None });
    match deletion.command() {
        DeleteCommand::DeleteObject { bucket, key, region } => {
            assert_eq!(bucket, "media");
            assert_eq!(key, "a.txt");
            assert_eq!(region, "eu-central-1");
        }
        _ => panic!("the object comes second"),
    }
    assert!(deletion.result().is_none());
}

#[test]
fn deleting_an_object_succeeds() {
    let mut deletion = fetcher().delete_single_item("media", "a.txt");
    deletion.handle(DeleteEvent::Located { constraint: Some("us-east-2".to_string()) });
    match deletion.command() {
        DeleteCommand::DeleteObject { region, .. } => assert_eq!(region, "us-east-2"),
        _ => panic!("the object is to be deleted"),
    }
    deletion.handle(DeleteEvent::Deleted);
    assert!(matches!(deletion.command(), DeleteCommand::Finish));
    assert!(deletion.result().unwrap().is_ok());
}

#[test]
fn refused_object_deletion_quotes_the_message() {
    let mut deletion = fetcher().delete_single_item("media", "a.txt");
    deletion.handle(DeleteEvent::Located { constraint: None });
    deletion.handle(DeleteEvent::Refused { reason: Some("Access \"Denied\"".to_string()) });
    match deletion.result().unwrap() {
        Err(EngineError::Protocol { message }) => {
            assert_eq!(message, "Cannot delete object, \"Access \\\"Denied\\\"\"")
        }
        _ => panic!("the deletion was refused"),
    }
}

#[test]
fn refused_object_deletion_without_message_quotes_nothing() {
    let mut deletion = fetcher().delete_single_item("media", "a.txt");
    deletion.handle(DeleteEvent::Located { constraint: None });
    deletion.handle(DeleteEvent::Refused { reason: None });
    match deletion.result().unwrap() {
        Err(EngineError::Protocol { message }) => assert_eq!(message, "Cannot delete object, \"\""),
        _ => panic!("the deletion was refused"),
    }
}

#[test]
fn refused_bucket_deletion_gives_the_message_or_a_description() {
    let mut deletion = fetcher().delete_data(true, None, "media".to_string(), false);
    deletion.handle(DeleteEvent::Located { constraint: None });
    match deletion.command() {
        DeleteCommand::DeleteBucket { bucket, region } => {
            assert_eq!(bucket, "media");
            assert_eq!(region, "eu-central-1");
        }
        _ => panic!("the bucket is to be deleted"),
    }
    deletion.handle(DeleteEvent::Refused { reason: Some("BucketNotEmpty".to_string()) });
    match deletion.result().unwrap() {
        Err(EngineError::Protocol { message }) => assert_eq!(message, "BucketNotEmpty"),
        _ => panic!("the deletion was refused"),
    }
    let mut deletion = fetcher().delete_data(true, Some("ignored".to_string()), "media".to_string(), true);
    deletion.handle(DeleteEvent::Located { constraint: None });
    deletion.handle(DeleteEvent::Refused { reason: None });
    match deletion.result().unwrap() {
        Err(EngineError::Protocol { message }) => assert_eq!(message, "Error deleting bucket"),
        _ => panic!("the deletion was refused"),
    }
}

#[test]
fn deletion_fails_where_the_region_cannot_be_resolved() {
    let mut deletion = fetcher().delete_data(true, None, "media".to_string(), false);
    deletion.handle(DeleteEvent::LocationFailed { message: "NoSuchBucket".to_string() });
    assert!(matches!(deletion.command(), DeleteCommand::Finish));
    match deletion.result().unwrap() {
        Err(EngineError::Protocol { message }) => assert_eq!(message, "NoSuchBucket"),
        _ => panic!("the deletion failed"),
    }
}

#[test]
fn deletion_ignores_what_it_did_not_ask_for() {
    let mut deletion = fetcher().delete_data(true, None, "media".to_string(), false);
    deletion.handle(DeleteEvent::Deleted);
    deletion.handle(DeleteEvent::Refused { reason: None });
    assert!(matches!(deletion.command(), DeleteCommand::ResolveRegion { .. }));
    deletion.handle(DeleteEvent::Located { constraint: None });
    deletion.handle(DeleteEvent::Located { constraint: Some("other".to_string()) });
    deletion.handle(DeleteEvent::LocationFailed { message: "late".to_string() });
    match deletion.command() {
        DeleteCommand::DeleteBucket { region, .. } => assert_eq!(region, "eu-central-1"),
        _ => panic!("the bucket is to be deleted"),
    }
    deletion.handle(DeleteEvent::Deleted);
    deletion.handle(DeleteEvent::Refused { reason: None });
    assert!(deletion.result().unwrap().is_ok());
}

#[test]
fn refusal_texts_are_built_from_the_target() {
    let object = DeleteTarget::Object { bucket: "media".to_string(), key: "a.txt".to_string() };
    assert_eq!(refusal_error(&object, Some("x".to_string())).message(), "Cannot delete object, \"x\"");
    let bucket = DeleteTarget::Bucket { name: "media".to_string() };
    assert_eq!(refusal_error(&bucket, Some("x".to_string())).message(), "x");
    assert_eq!(object_refusal("\"tab\\t\"").message(), "Cannot delete object, \"tab\\t\"");
    assert_eq!(
        refusal_error(&object, Some("tab\t".to_string())).message(),
        "Cannot delete object, \"tab\\t\""
    );
}

#[test]
fn download_reports_a_share_that_never_falls() {
    let mut download = fetcher().download_item(request());
    download.handle(DownloadEvent::Size { content_length: Some(8) });
    download.handle(DownloadEvent::FileReady);
    download.handle(DownloadEvent::Opened);
    let mut last = Percentage { numerator: 0, denominator: 1 };
    let mut shares = Vec::new();
    for length in [3usize, 0, 1, 4] {
        let report = download.handle(DownloadEvent::ChunkWritten { length }).unwrap();
        assert!(last.numerator * report.percent.denominator <= report.percent.numerator * last.denominator);
        last = report.percent;
        shares.push(quotient(report.percent));
    }
    assert_eq!(shares, vec![37.5, 37.5, 50.0, 100.0]);
}
