//! Creating and deleting buckets, and deleting single objects. Deleting
//! resolves the region of the bucket first, so that the call goes through a
//! client bound to it.

use vstd::prelude::*;
use vstd::string::StringExecFns;
use crate::error::{EngineError, EngineErrorView};
use crate::fetcher::{resolved_region, S3DataFetcher};
use crate::text::optional_text;

verus! {

/// The call that creates a bucket in a region.
#[derive(Debug)]
pub struct CreateBucket {
    pub bucket: String,
    pub location_constraint: String,
}

/// What a bucket creation returns for what answered its call. A call that
/// was refused gives the service's message, or a description of the call
/// where the service gave none.
pub open spec fn creation_outcome(answer: Result<(), Option<Seq<char>>>) -> Result<
    (),
    EngineErrorView,
> {
    match answer {
        Ok(_) => Ok(()),
        Err(Some(message)) => Err(EngineErrorView::Protocol { message }),
        Err(None) => Err(EngineErrorView::Protocol { message: "Cannot create bucket"@ }),
    }
}

impl S3DataFetcher {
    /// The call that creates the bucket `name` in `region`.
    pub fn create_bucket(&self, name: String, region: String) -> (call: CreateBucket)
        ensures
            call.bucket@ == name@,
            call.location_constraint@ == region@,
    {
        CreateBucket { bucket: name, location_constraint: region }
    }
}

impl CreateBucket {
    /// What the creation returns for what answered its call, as
    /// [`creation_outcome`] states it. `answer` holds the message of the
    /// service where it refused the call and gave one.
    pub fn result(&self, answer: Result<(), Option<String>>) -> (outcome: Result<(), EngineError>)
        ensures
            match answer {
                Ok(_) => outcome is Ok,
                Err(message) => outcome is Err && Err::<(), EngineErrorView>(outcome->Err_0@)
                    == creation_outcome(Err(optional_text(message))),
            },
    {
        match answer {
            Ok(_) => Ok(()),
            Err(Some(message)) => Err(EngineError::Protocol { message }),
            Err(None) => Err(EngineError::Protocol { message: "Cannot create bucket".to_owned() }),
        }
    }
}

/// What is to be deleted.
#[derive(Debug)]
pub enum DeleteTarget {
    Bucket { name: String },
    Object { bucket: String, key: String },
}

/// What a [`DeleteTarget`] holds, as plain values.
pub enum DeleteTargetView {
    Bucket { name: Seq<char> },
    Object { bucket: Seq<char>, key: Seq<char> },
}

impl View for DeleteTarget {
    type V = DeleteTargetView;

    open spec fn view(&self) -> DeleteTargetView {
        match self {
            DeleteTarget::Bucket { name } => DeleteTargetView::Bucket { name: name@ },
            DeleteTarget::Object { bucket, key } => DeleteTargetView::Object {
                bucket: bucket@,
                key: key@,
            },
        }
    }
}

impl DeleteTargetView {
    /// The bucket whose region the deletion needs.
    pub open spec fn bucket(self) -> Seq<char> {
        match self {
            DeleteTargetView::Bucket { name } => name,
            DeleteTargetView::Object { bucket, key } => bucket,
        }
    }
}

/// Where a deletion stands.
#[derive(Debug)]
pub enum DeletePhase {
    /// The region of the bucket is not known yet.
    Locating,
    /// The call that deletes has not been answered yet.
    Deleting,
    /// The target is deleted.
    Done,
    /// The deletion was given up.
    Failed { error: EngineError },
}

/// What a [`DeletePhase`] holds, as plain values.
pub enum DeletePhaseView {
    Locating,
    Deleting,
    Done,
    Failed { error: EngineErrorView },
}

impl View for DeletePhase {
    type V = DeletePhaseView;

    open spec fn view(&self) -> DeletePhaseView {
        match self {
            DeletePhase::Locating => DeletePhaseView::Locating,
            DeletePhase::Deleting => DeletePhaseView::Deleting,
            DeletePhase::Done => DeletePhaseView::Done,
            DeletePhase::Failed { error } => DeletePhaseView::Failed { error: error@ },
        }
    }
}

/// The call that a deletion asks its caller to make.
#[derive(Debug)]
pub enum DeleteCommand {
    /// Ask the service for the location of `bucket`.
    ResolveRegion { bucket: String },
    /// Delete `bucket` through a client bound to `region`.
    DeleteBucket { bucket: String, region: String },
    /// Delete the object `key` of `bucket` through a client bound to `region`.
    DeleteObject { bucket: String, key: String, region: String },
    /// Nothing: the deletion is over.
    Finish,
}

/// What a [`DeleteCommand`] holds, as plain values.
pub enum DeleteCommandView {
    ResolveRegion { bucket: Seq<char> },
    DeleteBucket { bucket: Seq<char>, region: Seq<char> },
    DeleteObject { bucket: Seq<char>, key: Seq<char>, region: Seq<char> },
    Finish,
}

impl View for DeleteCommand {
    type V = DeleteCommandView;

    open spec fn view(&self) -> DeleteCommandView {
        match self {
            DeleteCommand::ResolveRegion { bucket } => DeleteCommandView::ResolveRegion {
                bucket: bucket@,
            },
            DeleteCommand::DeleteBucket { bucket, region } => DeleteCommandView::DeleteBucket {
                bucket: bucket@,
                region: region@,
            },
            DeleteCommand::DeleteObject { bucket, key, region } => DeleteCommandView::DeleteObject {
                bucket: bucket@,
                key: key@,
                region: region@,
            },
            DeleteCommand::Finish => DeleteCommandView::Finish,
        }
    }
}

/// What the service answered to the call that a deletion asked for.
#[derive(Debug)]
pub enum DeleteEvent {
    /// The location constraint of the bucket, where the service reports one.
    Located { constraint: Option<String> },
    /// The query for the bucket's location failed.
    LocationFailed { message: String },
    /// The service deleted the target.
    Deleted,
    /// The service refused to delete the target, with a message or without.
    Refused { reason: Option<String> },
}

/// What a [`DeleteEvent`] holds, as plain values.
pub enum DeleteEventView {
    Located { constraint: Option<Seq<char>> },
    LocationFailed { message: Seq<char> },
    Deleted,
    Refused { reason: Option<Seq<char>> },
}

impl View for DeleteEvent {
    type V = DeleteEventView;

    open spec fn view(&self) -> DeleteEventView {
        match self {
            DeleteEvent::Located { constraint } => DeleteEventView::Located {
                constraint: optional_text(*constraint),
            },
            DeleteEvent::LocationFailed { message } => DeleteEventView::LocationFailed {
                message: message@,
            },
            DeleteEvent::Deleted => DeleteEventView::Deleted,
            DeleteEvent::Refused { reason } => DeleteEventView::Refused {
                reason: optional_text(*reason),
            },
        }
    }
}

/// A text as `std`'s `Debug` formatting of strings writes it: in double
/// quotes, with the characters escaped that the formatting escapes.
pub uninterp spec fn debug_quoted(text: Seq<char>) -> Seq<char>;

/// `format!` with `{:?}` on a string. Not proved: that the result is the
/// string as `std` formats it for debugging, which depends on the string
/// alone.
#[verifier::external_body]
fn quoted(text: &str) -> (shown: String)
    ensures
        shown@ == debug_quoted(text@),
{
    format!("{:?}", text)
}

/// What a refused deletion reports. For a bucket it is the service's message,
/// or a description of the call where the service gave none. For an object
/// it is a description of the call followed by the service's message in
/// quotes, which is empty where the service gave none.
pub open spec fn refusal(target: DeleteTargetView, message: Option<Seq<char>>) -> EngineErrorView {
    match target {
        DeleteTargetView::Bucket { name } => EngineErrorView::Protocol {
            message: match message {
                Some(message) => message,
                None => "Error deleting bucket"@,
            },
        },
        DeleteTargetView::Object { bucket, key } => EngineErrorView::Protocol {
            message: "Cannot delete object, "@ + debug_quoted(
                match message {
                    Some(message) => message,
                    None => Seq::<char>::empty(),
                },
            ),
        },
    }
}

/// A deletion in progress.
#[derive(Debug)]
pub struct Deletion {
    target: DeleteTarget,
    default_region: String,
    region: String,
    phase: DeletePhase,
}

/// What a [`Deletion`] holds, as plain values.
pub struct DeletionView {
    pub target: DeleteTargetView,
    pub default_region: Seq<char>,
    pub region: Seq<char>,
    pub phase: DeletePhaseView,
}

impl View for Deletion {
    type V = DeletionView;

    closed spec fn view(&self) -> DeletionView {
        DeletionView {
            target: self.target@,
            default_region: self.default_region@,
            region: self.region@,
            phase: self.phase@,
        }
    }
}

impl DeletionView {
    /// The deletion of what the arguments name, before anything was asked. An
    /// object without a bucket cannot be deleted: that deletion has failed
    /// before it asks for any call.
    pub open spec fn start(
        is_bucket: bool,
        bucket: Option<Seq<char>>,
        name: Seq<char>,
        default_region: Seq<char>,
    ) -> DeletionView {
        if is_bucket {
            DeletionView {
                target: DeleteTargetView::Bucket { name },
                default_region,
                region: Seq::empty(),
                phase: DeletePhaseView::Locating,
            }
        } else {
            match bucket {
                Some(bucket) => DeletionView {
                    target: DeleteTargetView::Object { bucket, key: name },
                    default_region,
                    region: Seq::empty(),
                    phase: DeletePhaseView::Locating,
                },
                None => DeletionView {
                    target: DeleteTargetView::Object { bucket: Seq::empty(), key: name },
                    default_region,
                    region: Seq::empty(),
                    phase: DeletePhaseView::Failed { error: EngineErrorView::NoBucketSpecified },
                },
            }
        }
    }

    /// The call that the deletion waits for.
    pub open spec fn command(self) -> DeleteCommandView {
        match self.phase {
            DeletePhaseView::Locating => DeleteCommandView::ResolveRegion {
                bucket: self.target.bucket(),
            },
            DeletePhaseView::Deleting => match self.target {
                DeleteTargetView::Bucket { name } => DeleteCommandView::DeleteBucket {
                    bucket: name,
                    region: self.region,
                },
                DeleteTargetView::Object { bucket, key } => DeleteCommandView::DeleteObject {
                    bucket,
                    key,
                    region: self.region,
                },
            },
            _ => DeleteCommandView::Finish,
        }
    }

    /// Whether the deletion asks for nothing more.
    pub open spec fn over(self) -> bool {
        self.phase is Done || self.phase is Failed
    }

    /// The deletion after `event` was handed to it. An answer to a call that
    /// it did not ask for leaves it as it is.
    pub open spec fn after(self, event: DeleteEventView) -> DeletionView {
        match self.phase {
            DeletePhaseView::Locating => match event {
                DeleteEventView::Located { constraint } => DeletionView {
                    region: resolved_region(constraint, self.default_region),
                    phase: DeletePhaseView::Deleting,
                    ..self
                },
                DeleteEventView::LocationFailed { message } => DeletionView {
                    phase: DeletePhaseView::Failed {
                        error: EngineErrorView::Protocol { message },
                    },
                    ..self
                },
                _ => self,
            },
            DeletePhaseView::Deleting => match event {
                DeleteEventView::Deleted => DeletionView { phase: DeletePhaseView::Done, ..self },
                DeleteEventView::Refused { reason } => DeletionView {
                    phase: DeletePhaseView::Failed { error: refusal(self.target, reason) },
                    ..self
                },
                _ => self,
            },
            _ => self,
        }
    }

    /// What the deletion returns once it is over.
    pub open spec fn outcome(self) -> Result<(), EngineErrorView> {
        match self.phase {
            DeletePhaseView::Failed { error } => Err(error),
            _ => Ok(()),
        }
    }
}

/// The error of a deletion that the service refused, as [`refusal`] states it.
pub fn refusal_error(target: &DeleteTarget, message: Option<String>) -> (error: EngineError)
    ensures
        error@ == refusal(target@, optional_text(message)),
{
    match target {
        DeleteTarget::Bucket { name } => EngineError::Protocol {
            message: match message {
                Some(message) => message,
                None => "Error deleting bucket".to_owned(),
            },
        },
        DeleteTarget::Object { bucket, key } => {
            let shown = match message {
                Some(message) => quoted(message.as_str()),
                None => quoted(""),
            };
            proof {
                reveal_strlit("");
                assert(""@ =~= Seq::<char>::empty());
            }
            object_refusal(shown.as_str())
        },
    }
}

/// The error of an object's deletion that the service refused, from the
/// service's message as it is shown in quotes.
pub fn object_refusal(shown: &str) -> (error: EngineError)
    ensures
        error@ == (EngineErrorView::Protocol { message: "Cannot delete object, "@ + shown@ }),
{
    let mut text = "Cannot delete object, ".to_owned();
    text.append(shown);
    EngineError::Protocol { message: text }
}

impl S3DataFetcher {
    /// The deletion of a bucket, where `is_bucket` says so and `name` is the
    /// bucket, or of the object `name` in `bucket`. A directory is deleted as
    /// the single key that names it: its objects have to be deleted one by
    /// one.
    pub fn delete_data(
        &self,
        is_bucket: bool,
        bucket: Option<String>,
        name: String,
        _is_directory: bool,
    ) -> (deletion: Deletion)
        ensures
            deletion@ == DeletionView::start(
                is_bucket,
                optional_text(bucket),
                name@,
                self.default_region@,
            ),
            !is_bucket && bucket is None ==> deletion@.command() is Finish && deletion@.outcome()
                == Err::<(), EngineErrorView>(EngineErrorView::NoBucketSpecified),
    {
        if is_bucket {
            Deletion {
                target: DeleteTarget::Bucket { name },
                default_region: self.default_region.clone(),
                region: String::new(),
                phase: DeletePhase::Locating,
            }
        } else {
            match bucket {
                Some(bucket) => self.delete_single_item(bucket.as_str(), name.as_str()),
                None => Deletion {
                    target: DeleteTarget::Object { bucket: String::new(), key: name },
                    default_region: self.default_region.clone(),
                    region: String::new(),
                    phase: DeletePhase::Failed { error: EngineError::NoBucketSpecified },
                },
            }
        }
    }

    /// The deletion of the object `name` in `bucket`.
    pub fn delete_single_item(&self, bucket: &str, name: &str) -> (deletion: Deletion)
        ensures
            deletion@ == DeletionView::start(false, Some(bucket@), name@, self.default_region@),
    {
        Deletion {
            target: DeleteTarget::Object { bucket: bucket.to_owned(), key: name.to_owned() },
            default_region: self.default_region.clone(),
            region: String::new(),
            phase: DeletePhase::Locating,
        }
    }
}

impl Deletion {
    /// The call that the deletion waits for.
    pub fn command(&self) -> (command: DeleteCommand)
        ensures
            command@ == self@.command(),
    {
        match &self.phase {
            DeletePhase::Locating => match &self.target {
                DeleteTarget::Bucket { name } => DeleteCommand::ResolveRegion {
                    bucket: name.clone(),
                },
                DeleteTarget::Object { bucket, key } => DeleteCommand::ResolveRegion {
                    bucket: bucket.clone(),
                },
            },
            DeletePhase::Deleting => match &self.target {
                DeleteTarget::Bucket { name } => DeleteCommand::DeleteBucket {
                    bucket: name.clone(),
                    region: self.region.clone(),
                },
                DeleteTarget::Object { bucket, key } => DeleteCommand::DeleteObject {
                    bucket: bucket.clone(),
                    key: key.clone(),
                    region: self.region.clone(),
                },
            },
            _ => DeleteCommand::Finish,
        }
    }

    /// Takes in what the service answered to the call that
    /// [`Deletion::command`] asked for.
    pub fn handle(&mut self, event: DeleteEvent)
        ensures
            final(self)@ == old(self)@.after(event@),
    {
        let locating = match &self.phase {
            DeletePhase::Locating => true,
            DeletePhase::Deleting => false,
            _ => {
                return ;
            },
        };
        match event {
            DeleteEvent::Located { constraint } => {
                if locating {
                    self.region = match constraint {
                        Some(region) => region,
                        None => self.default_region.clone(),
                    };
                    self.phase = DeletePhase::Deleting;
                }
            },
            DeleteEvent::LocationFailed { message } => {
                if locating {
                    self.phase = DeletePhase::Failed { error: EngineError::Protocol { message } };
                }
            },
            DeleteEvent::Deleted => {
                if !locating {
                    self.phase = DeletePhase::Done;
                }
            },
            DeleteEvent::Refused { reason } => {
                if !locating {
                    let error = refusal_error(&self.target, reason);
                    self.phase = DeletePhase::Failed { error };
                }
            },
        }
    }

    /// What the deletion returns: nothing while it still asks for a call, then
    /// success, or the failure that ended it.
    pub fn result(self) -> (outcome: Option<Result<(), EngineError>>)
        ensures
            outcome is Some == self@.over(),
            outcome is Some ==> match outcome->0 {
                Ok(_) => self@.outcome() is Ok,
                Err(error) => self@.outcome() == Err::<(), EngineErrorView>(error@),
            },
    {
        match self.phase {
            DeletePhase::Done => Some(Ok(())),
            DeletePhase::Failed { error } => Some(Err(error)),
            _ => None,
        }
    }
}

} // verus!
