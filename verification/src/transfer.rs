//! Transfers of single files: what an upload asks of the service, and a
//! download as a state machine that says which call to make next and reports
//! its progress chunk by chunk.

use vstd::prelude::*;
use crate::error::{EngineError, EngineErrorView};
use crate::fetcher::S3DataFetcher;

verus! {

/// A file to upload.
#[derive(Debug)]
pub struct UploadRequest {
    pub local_path: String,
    pub destination_bucket: String,
    /// The key to store the file under, or the root marker `/` for a file
    /// that is stored under its own name.
    pub destination_path: String,
    pub display_name: String,
}

/// The call that stores a file: the bucket, the key, and the file whose bytes
/// are streamed as the body.
#[derive(Debug)]
pub struct PutObject {
    pub bucket: String,
    pub key: String,
    pub source: String,
}

/// What the caller met when it made the call of an upload.
#[derive(Debug)]
pub enum UploadAnswer {
    /// The service stored the object.
    Stored,
    /// The service refused the call.
    Refused { message: String },
    /// The local file could not be read.
    Unreadable { message: String },
}

/// The key that a file is stored under: its destination path, or its name
/// where the destination is the root marker.
pub open spec fn upload_key(destination_path: Seq<char>, display_name: Seq<char>) -> Seq<char> {
    if destination_path == seq!['/'] {
        display_name
    } else {
        destination_path
    }
}

impl S3DataFetcher {
    /// The call that uploads `item`. It is made once; whatever answers it is
    /// final.
    pub fn upload_item(&self, item: UploadRequest) -> (call: PutObject)
        ensures
            call.bucket@ == item.destination_bucket@,
            call.key@ == upload_key(item.destination_path@, item.display_name@),
            call.source@ == item.local_path@,
    {
        let key = if crate::page::is_root_marker(item.destination_path.as_str()) {
            item.display_name
        } else {
            item.destination_path
        };
        PutObject { bucket: item.destination_bucket, key, source: item.local_path }
    }
}

/// What an upload returns for what answered its call: `true` where the
/// object was stored, else the failure with the text that came with it.
pub fn upload_result(answer: UploadAnswer) -> (result: Result<bool, EngineError>)
    ensures
        match answer {
            UploadAnswer::Stored => result == Ok::<bool, EngineError>(true),
            UploadAnswer::Refused { message } => result is Err && result->Err_0@ == (
            EngineErrorView::Protocol { message: message@ }),
            UploadAnswer::Unreadable { message } => result is Err && result->Err_0@ == (
            EngineErrorView::Io { message: message@ }),
        },
{
    match answer {
        UploadAnswer::Stored => Ok(true),
        UploadAnswer::Refused { message } => Err(EngineError::Protocol { message }),
        UploadAnswer::Unreadable { message } => Err(EngineError::Io { message }),
    }
}

/// A number as the quotient of two whole numbers. The denominator of every
/// fraction that the engine makes is greater than zero.
pub struct Fraction {
    pub numerator: int,
    pub denominator: int,
}

impl Fraction {
    /// Whether the fraction is the quotient of `numerator` by `denominator`.
    pub open spec fn equals(self, numerator: int, denominator: int) -> bool {
        self.numerator * denominator == numerator * self.denominator
    }

    /// Whether the fraction is no greater than `other`, both with a
    /// denominator greater than zero.
    pub open spec fn at_most(self, other: Fraction) -> bool {
        self.numerator * other.denominator <= other.numerator * self.denominator
    }
}

/// A share in percent, as the quotient of two whole numbers.
#[derive(Clone, Copy, Debug, PartialEq, Eq)]
pub struct Percentage {
    pub numerator: i128,
    pub denominator: i128,
}

impl View for Percentage {
    type V = Fraction;

    open spec fn view(&self) -> Fraction {
        Fraction { numerator: self.numerator as int, denominator: self.denominator as int }
    }
}

/// The share of `total` that `byte_count` bytes are, in percent: a hundred
/// times the bytes, over the total. Of a total of zero every count is zero
/// percent, written as zero over one. Under a negative total both numbers
/// change their sign, so that the denominator is greater than zero.
pub open spec fn percentage(total: int, byte_count: int) -> Fraction {
    if total == 0 {
        Fraction { numerator: 0, denominator: 1 }
    } else if total > 0 {
        Fraction { numerator: 100 * byte_count, denominator: total }
    } else {
        Fraction { numerator: -(100 * byte_count), denominator: -total }
    }
}

/// Of a total of zero every count of bytes is zero percent.
pub proof fn lemma_percentage_of_no_total(byte_count: int)
    ensures
        percentage(0, byte_count).equals(0, 1),
        percentage(0, byte_count).denominator > 0,
{
}

/// Of any other total the share is the bytes by the total, times a hundred,
/// and its denominator is greater than zero.
pub proof fn lemma_percentage_is_the_quotient(total: int, byte_count: int)
    requires
        total != 0,
    ensures
        percentage(total, byte_count).equals(100 * byte_count, total),
        percentage(total, byte_count).denominator > 0,
{
    assert((-(100 * byte_count)) * total == (100 * byte_count) * (-total)) by (nonlinear_arith);
}

/// Fifty bytes of two hundred are twenty-five percent, and three of eight are
/// thirty-seven and a half.
pub proof fn lemma_percentage_of_a_part()
    ensures
        percentage(200, 50).equals(25, 1),
        percentage(8, 3).equals(75, 2),
{
}

/// Of a total that is not negative, more bytes are never a smaller share.
pub proof fn lemma_percentage_never_falls(total: int, fewer: int, more: int)
    requires
        total >= 0,
        0 <= fewer <= more,
    ensures
        percentage(total, fewer).at_most(percentage(total, more)),
{
    if total > 0 {
        assert((100 * fewer) * total <= (100 * more) * total) by (nonlinear_arith)
            requires
                total > 0,
                fewer <= more,
        ;
    }
}

impl S3DataFetcher {
    /// The share of `total` that `byte_count` bytes are, as [`percentage`] states
    /// it.
    pub fn calculate_download_percentage(total: i64, byte_count: usize) -> (percent: Percentage)
        ensures
            percent@ == percentage(total as int, byte_count as int),
    {
        let hundredfold: i128 = 100 * (byte_count as i128);
        if total == 0 {
            Percentage { numerator: 0, denominator: 1 }
        } else if total > 0 {
            Percentage { numerator: hundredfold, denominator: total as i128 }
        } else {
            Percentage { numerator: -hundredfold, denominator: -(total as i128) }
        }
    }
}

/// An object to download.
#[derive(Debug)]
pub struct DownloadRequest {
    pub bucket: String,
    pub key: String,
    pub display_name: String,
    pub destination_dir: String,
}

/// How far a download has come: the object, the bytes written so far, the
/// size that the service gave for it, and the share in percent.
#[derive(Debug)]
pub struct ProgressEvent {
    pub name: String,
    pub bucket: String,
    pub byte_count: usize,
    pub total: i64,
    pub percent: Percentage,
}

/// What a [`ProgressEvent`] holds, as plain values.
pub struct ProgressEventView {
    pub name: Seq<char>,
    pub bucket: Seq<char>,
    pub byte_count: usize,
    pub total: i64,
    pub percent: Fraction,
}

impl View for ProgressEvent {
    type V = ProgressEventView;

    open spec fn view(&self) -> ProgressEventView {
        ProgressEventView {
            name: self.name@,
            bucket: self.bucket@,
            byte_count: self.byte_count,
            total: self.total,
            percent: self.percent@,
        }
    }
}

/// Where a download stands.
#[derive(Debug)]
pub enum DownloadPhase {
    /// The size of the object is not known yet.
    Sizing,
    /// The destination file is not open yet.
    Preparing,
    /// The object has not been asked for yet.
    Requesting,
    /// Chunks are read and written.
    Streaming,
    /// All chunks have been written.
    Completed,
    /// The download was given up. What was written stays where it is.
    Failed { error: EngineError },
}

/// What a [`DownloadPhase`] holds, as plain values.
pub enum DownloadPhaseView {
    Sizing,
    Preparing,
    Requesting,
    Streaming,
    Completed,
    Failed { error: EngineErrorView },
}

impl View for DownloadPhase {
    type V = DownloadPhaseView;

    open spec fn view(&self) -> DownloadPhaseView {
        match self {
            DownloadPhase::Sizing => DownloadPhaseView::Sizing,
            DownloadPhase::Preparing => DownloadPhaseView::Preparing,
            DownloadPhase::Requesting => DownloadPhaseView::Requesting,
            DownloadPhase::Streaming => DownloadPhaseView::Streaming,
            DownloadPhase::Completed => DownloadPhaseView::Completed,
            DownloadPhase::Failed { error } => DownloadPhaseView::Failed { error: error@ },
        }
    }
}

/// The step that a download asks its caller to take.
#[derive(Debug)]
pub enum DownloadCommand {
    /// Ask the service for the size of the object.
    HeadObject { bucket: String, key: String },
    /// Create the directories that are missing on the way to the file `name`
    /// under `directory`, and create the file.
    PrepareFile { directory: String, name: String },
    /// Ask the service for the object's bytes.
    GetObject { bucket: String, key: String },
    /// Read the next chunk and write it to the file.
    NextChunk,
    /// Nothing: the download is over.
    Finish,
}

/// What a [`DownloadCommand`] holds, as plain values.
pub enum DownloadCommandView {
    HeadObject { bucket: Seq<char>, key: Seq<char> },
    PrepareFile { directory: Seq<char>, name: Seq<char> },
    GetObject { bucket: Seq<char>, key: Seq<char> },
    NextChunk,
    Finish,
}

impl View for DownloadCommand {
    type V = DownloadCommandView;

    open spec fn view(&self) -> DownloadCommandView {
        match self {
            DownloadCommand::HeadObject { bucket, key } => DownloadCommandView::HeadObject {
                bucket: bucket@,
                key: key@,
            },
            DownloadCommand::PrepareFile { directory, name } => DownloadCommandView::PrepareFile {
                directory: directory@,
                name: name@,
            },
            DownloadCommand::GetObject { bucket, key } => DownloadCommandView::GetObject {
                bucket: bucket@,
                key: key@,
            },
            DownloadCommand::NextChunk => DownloadCommandView::NextChunk,
            DownloadCommand::Finish => DownloadCommandView::Finish,
        }
    }
}

/// What the caller met when it took the step that a download asked for.
#[derive(Debug)]
pub enum DownloadEvent {
    /// The size of the object, where the service gave one.
    Size { content_length: Option<i64> },
    /// The destination file is open.
    FileReady,
    /// The service has begun to send the object.
    Opened,
    /// A chunk of `length` bytes was read and written.
    ChunkWritten { length: usize },
    /// The service has sent all of the object.
    End,
    /// A call to the service failed, or the stream of chunks broke.
    ServiceFailed { message: String },
    /// The local file system failed.
    FileFailed { message: String },
}

/// What a [`DownloadEvent`] holds, as plain values.
pub enum DownloadEventView {
    Size { content_length: Option<i64> },
    FileReady,
    Opened,
    ChunkWritten { length: usize },
    End,
    ServiceFailed { message: Seq<char> },
    FileFailed { message: Seq<char> },
}

impl View for DownloadEvent {
    type V = DownloadEventView;

    open spec fn view(&self) -> DownloadEventView {
        match self {
            DownloadEvent::Size { content_length } => DownloadEventView::Size {
                content_length: *content_length,
            },
            DownloadEvent::FileReady => DownloadEventView::FileReady,
            DownloadEvent::Opened => DownloadEventView::Opened,
            DownloadEvent::ChunkWritten { length } => DownloadEventView::ChunkWritten {
                length: *length,
            },
            DownloadEvent::End => DownloadEventView::End,
            DownloadEvent::ServiceFailed { message } => DownloadEventView::ServiceFailed {
                message: message@,
            },
            DownloadEvent::FileFailed { message } => DownloadEventView::FileFailed {
                message: message@,
            },
        }
    }
}

/// A download in progress.
#[derive(Debug)]
pub struct Download {
    bucket: String,
    key: String,
    destination_dir: String,
    phase: DownloadPhase,
    total: i64,
    byte_count: usize,
}

/// What a [`Download`] holds, as plain values.
pub struct DownloadView {
    pub bucket: Seq<char>,
    pub key: Seq<char>,
    pub destination_dir: Seq<char>,
    pub phase: DownloadPhaseView,
    pub total: i64,
    pub byte_count: usize,
}

impl View for Download {
    type V = DownloadView;

    closed spec fn view(&self) -> DownloadView {
        DownloadView {
            bucket: self.bucket@,
            key: self.key@,
            destination_dir: self.destination_dir@,
            phase: self.phase@,
            total: self.total,
            byte_count: self.byte_count,
        }
    }
}

impl DownloadView {
    /// The download of `key` from `bucket` into `destination_dir` before
    /// anything was asked.
    pub open spec fn start(bucket: Seq<char>, key: Seq<char>, destination_dir: Seq<char>) -> DownloadView {
        DownloadView {
            bucket,
            key,
            destination_dir,
            phase: DownloadPhaseView::Sizing,
            total: 0,
            byte_count: 0,
        }
    }

    /// The step that the download waits for: the size first, then the file,
    /// then the object, then chunk after chunk.
    pub open spec fn command(self) -> DownloadCommandView {
        match self.phase {
            DownloadPhaseView::Sizing => DownloadCommandView::HeadObject {
                bucket: self.bucket,
                key: self.key,
            },
            DownloadPhaseView::Preparing => DownloadCommandView::PrepareFile {
                directory: self.destination_dir,
                name: self.key,
            },
            DownloadPhaseView::Requesting => DownloadCommandView::GetObject {
                bucket: self.bucket,
                key: self.key,
            },
            DownloadPhaseView::Streaming => DownloadCommandView::NextChunk,
            _ => DownloadCommandView::Finish,
        }
    }

    /// Whether the download asks for nothing more.
    pub open spec fn over(self) -> bool {
        self.phase is Completed || self.phase is Failed
    }

    /// Whether the download can take `event` in: a chunk must not carry the
    /// count of bytes past what the machine can count.
    pub open spec fn takes(self, event: DownloadEventView) -> bool {
        self.phase is Streaming && event is ChunkWritten ==> self.byte_count + event->length
            <= usize::MAX
    }

    /// The download failed with `error`.
    pub open spec fn failed(self, error: EngineErrorView) -> DownloadView {
        DownloadView { phase: DownloadPhaseView::Failed { error }, ..self }
    }

    /// The download after `event` was handed to it. A failure of the service
    /// ends it while it waits for the service, and a failure of the file
    /// system while it waits for the file. An answer to a step that it did
    /// not ask for leaves it as it is.
    pub open spec fn after(self, event: DownloadEventView) -> DownloadView {
        match self.phase {
            DownloadPhaseView::Sizing => match event {
                DownloadEventView::Size { content_length } => DownloadView {
                    phase: DownloadPhaseView::Preparing,
                    total: match content_length {
                        Some(length) => length,
                        None => 0,
                    },
                    ..self
                },
                DownloadEventView::ServiceFailed { message } => self.failed(
                    EngineErrorView::Protocol { message },
                ),
                _ => self,
            },
            DownloadPhaseView::Preparing => match event {
                DownloadEventView::FileReady => DownloadView {
                    phase: DownloadPhaseView::Requesting,
                    ..self
                },
                DownloadEventView::FileFailed { message } => self.failed(
                    EngineErrorView::Io { message },
                ),
                _ => self,
            },
            DownloadPhaseView::Requesting => match event {
                DownloadEventView::Opened => DownloadView {
                    phase: DownloadPhaseView::Streaming,
                    ..self
                },
                DownloadEventView::ServiceFailed { message } => self.failed(
                    EngineErrorView::Protocol { message },
                ),
                _ => self,
            },
            DownloadPhaseView::Streaming => match event {
                DownloadEventView::ChunkWritten { length } => DownloadView {
                    byte_count: (self.byte_count + length) as usize,
                    ..self
                },
                DownloadEventView::End => DownloadView {
                    phase: DownloadPhaseView::Completed,
                    ..self
                },
                DownloadEventView::ServiceFailed { message } => self.failed(
                    EngineErrorView::Protocol { message },
                ),
                DownloadEventView::FileFailed { message } => self.failed(
                    EngineErrorView::Io { message },
                ),
                _ => self,
            },
            _ => self,
        }
    }

    /// The progress that the download reports.
    pub open spec fn progress(self) -> ProgressEventView {
        ProgressEventView {
            name: self.key,
            bucket: self.bucket,
            byte_count: self.byte_count,
            total: self.total,
            percent: self.percent(),
        }
    }

    /// The share of the object that has been written, in percent.
    pub open spec fn percent(self) -> Fraction {
        percentage(self.total as int, self.byte_count as int)
    }
}

/// Whatever a download is handed, its share does not fall, where the service
/// gives no negative size.
pub proof fn lemma_download_progress_never_falls(download: DownloadView, event: DownloadEventView)
    requires
        download.takes(event),
        download.total >= 0,
        event is Size && event->content_length is Some ==> event->content_length->0 >= 0,
        download.phase is Sizing ==> download.byte_count == 0,
    ensures
        download.after(event).total >= 0,
        download.after(event).byte_count >= download.byte_count,
        download.percent().at_most(download.after(event).percent()),
        download.after(event).phase is Sizing ==> download.after(event).byte_count == 0,
{
    let next = download.after(event);
    if next.total == download.total {
        lemma_percentage_never_falls(
            download.total as int,
            download.byte_count as int,
            next.byte_count as int,
        );
    }
}

/// Whether `states` are the states of one download from step to step, and
/// `events` what it was handed between them.
pub open spec fn is_download(states: Seq<DownloadView>, events: Seq<DownloadEventView>) -> bool {
    &&& states.len() == events.len() + 1
    &&& forall|i: int|
        #![trigger states[i]]
        0 <= i < events.len() ==> states[i].takes(events[i]) && states[i + 1] == states[i].after(
            events[i],
        )
}

/// Whether the download reports its progress after step `at`: it does after
/// every chunk that it asked for.
pub open spec fn reports(states: Seq<DownloadView>, events: Seq<DownloadEventView>, at: int) -> bool {
    0 <= at < events.len() && states[at].phase is Streaming && events[at] is ChunkWritten
}

/// Whether the service gives no negative size.
pub open spec fn sizes_not_negative(events: Seq<DownloadEventView>) -> bool {
    forall|i: int|
        0 <= i < events.len() && (#[trigger] events[i]) is Size && events[i]->content_length is Some
            ==> events[i]->content_length->0 >= 0
}

/// Before the size is known a download has counted no byte, and the size
/// that it holds is never negative where the service gives none that is.
proof fn lemma_download_size(states: Seq<DownloadView>, events: Seq<DownloadEventView>, at: int)
    requires
        is_download(states, events),
        sizes_not_negative(events),
        states[0].phase is Sizing,
        states[0].total == 0,
        states[0].byte_count == 0,
        0 <= at < states.len(),
    ensures
        states[at].total >= 0,
        states[at].phase is Sizing ==> states[at].byte_count == 0,
    decreases at,
{
    if at > 0 {
        lemma_download_size(states, events, at - 1);
        let before = states[at - 1];
        assert(states[at] == before.after(events[at - 1]));
        assert(events[at - 1] is Size && events[at - 1]->content_length is Some ==> events[at
            - 1]->content_length->0 >= 0);
    }
}

/// Once the size is known it stays as it is, and the count of bytes does not
/// fall.
proof fn lemma_download_counts_up(
    states: Seq<DownloadView>,
    events: Seq<DownloadEventView>,
    earlier: int,
    later: int,
)
    requires
        is_download(states, events),
        0 <= earlier <= later < states.len(),
        !(states[earlier].phase is Sizing),
    ensures
        !(states[later].phase is Sizing),
        states[later].total == states[earlier].total,
        states[later].byte_count >= states[earlier].byte_count,
    decreases later - earlier,
{
    if earlier < later {
        lemma_download_counts_up(states, events, earlier, later - 1);
        let before = states[later - 1];
        assert(before.takes(events[later - 1]));
        assert(states[later] == before.after(events[later - 1]));
    }
}

/// Of two reports of one download, the later has no smaller share, where the
/// service gives no negative size. Under a negative size the share is
/// negative and falls with every chunk: such a download is left out.
pub proof fn lemma_download_reports_never_fall(
    bucket: Seq<char>,
    key: Seq<char>,
    destination_dir: Seq<char>,
    states: Seq<DownloadView>,
    events: Seq<DownloadEventView>,
    earlier: int,
    later: int,
)
    requires
        is_download(states, events),
        states[0] == DownloadView::start(bucket, key, destination_dir),
        sizes_not_negative(events),
        earlier <= later,
        reports(states, events, earlier),
        reports(states, events, later),
    ensures
        states[earlier + 1].progress().percent.at_most(states[later + 1].progress().percent),
{
    let first = states[earlier + 1];
    let second = states[later + 1];
    assert(first == states[earlier].after(events[earlier]));
    lemma_download_counts_up(states, events, earlier + 1, later + 1);
    lemma_download_size(states, events, earlier + 1);
    lemma_percentage_never_falls(
        first.total as int,
        first.byte_count as int,
        second.byte_count as int,
    );
}

impl S3DataFetcher {
    /// The download of `item`.
    pub fn download_item(&self, item: DownloadRequest) -> (download: Download)
        ensures
            download@ == DownloadView::start(item.bucket@, item.key@, item.destination_dir@),
    {
        Download {
            bucket: item.bucket,
            key: item.key,
            destination_dir: item.destination_dir,
            phase: DownloadPhase::Sizing,
            total: 0,
            byte_count: 0,
        }
    }
}

impl Download {
    /// The step that the download waits for.
    pub fn command(&self) -> (command: DownloadCommand)
        ensures
            command@ == self@.command(),
    {
        match &self.phase {
            DownloadPhase::Sizing => DownloadCommand::HeadObject {
                bucket: self.bucket.clone(),
                key: self.key.clone(),
            },
            DownloadPhase::Preparing => DownloadCommand::PrepareFile {
                directory: self.destination_dir.clone(),
                name: self.key.clone(),
            },
            DownloadPhase::Requesting => DownloadCommand::GetObject {
                bucket: self.bucket.clone(),
                key: self.key.clone(),
            },
            DownloadPhase::Streaming => DownloadCommand::NextChunk,
            _ => DownloadCommand::Finish,
        }
    }

    /// Whether a chunk of `length` bytes can be counted.
    pub fn can_count(&self, length: usize) -> (fits: bool)
        ensures
            fits == (self@.byte_count + length <= usize::MAX),
    {
        length <= usize::MAX - self.byte_count
    }

    /// Takes in what the caller met when it took the step that
    /// [`Download::command`] asked for. After a chunk it gives the progress
    /// to report; the report may be lost without harm.
    pub fn handle(&mut self, event: DownloadEvent) -> (report: Option<ProgressEvent>)
        requires
            old(self)@.takes(event@),
        ensures
            final(self)@ == old(self)@.after(event@),
            report is Some == (old(self)@.phase is Streaming && event is ChunkWritten),
            report is Some ==> report->0@ == final(self)@.progress(),
    {
        let phase = match &self.phase {
            DownloadPhase::Sizing => 0u8,
            DownloadPhase::Preparing => 1u8,
            DownloadPhase::Requesting => 2u8,
            DownloadPhase::Streaming => 3u8,
            _ => 4u8,
        };
        match event {
            DownloadEvent::Size { content_length } => {
                if phase == 0 {
                    self.total = match content_length {
                        Some(length) => length,
                        None => 0,
                    };
                    self.phase = DownloadPhase::Preparing;
                }
                None
            },
            DownloadEvent::FileReady => {
                if phase == 1 {
                    self.phase = DownloadPhase::Requesting;
                }
                None
            },
            DownloadEvent::Opened => {
                if phase == 2 {
                    self.phase = DownloadPhase::Streaming;
                }
                None
            },
            DownloadEvent::ChunkWritten { length } => {
                if phase == 3 {
                    self.byte_count = self.byte_count + length;
                    let percent = S3DataFetcher::calculate_download_percentage(
                        self.total,
                        self.byte_count,
                    );
                    Some(
                        ProgressEvent {
                            name: self.key.clone(),
                            bucket: self.bucket.clone(),
                            byte_count: self.byte_count,
                            total: self.total,
                            percent,
                        },
                    )
                } else {
                    None
                }
            },
            DownloadEvent::End => {
                if phase == 3 {
                    self.phase = DownloadPhase::Completed;
                }
                None
            },
            DownloadEvent::ServiceFailed { message } => {
                if phase == 0 || phase == 2 || phase == 3 {
                    self.phase = DownloadPhase::Failed { error: EngineError::Protocol { message } };
                }
                None
            },
            DownloadEvent::FileFailed { message } => {
                if phase == 1 || phase == 3 {
                    self.phase = DownloadPhase::Failed { error: EngineError::Io { message } };
                }
                None
            },
        }
    }

    /// What the download returns: nothing while it still asks for a step,
    /// then `true`, or the failure that ended it.
    pub fn result(self) -> (outcome: Option<Result<bool, EngineError>>)
        ensures
            outcome is Some == self@.over(),
            self@.phase is Completed ==> outcome == Some(Ok::<bool, EngineError>(true)),
            self@.phase is Failed ==> outcome->0 is Err && outcome->0->Err_0@
                == self@.phase->error,
    {
        match self.phase {
            DownloadPhase::Completed => Some(Ok(true)),
            DownloadPhase::Failed { error } => Some(Err(error)),
            _ => None,
        }
    }
}

} // verus!
