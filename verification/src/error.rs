//! Tagged errors that the operations of this library return.
use vstd::prelude::*;

verus! {

/// Why a stream, a download or the local plugin ended without success.
#[derive(Debug, Clone, Copy, PartialEq, Eq, Structural)]
pub enum FailureReason {
    Cancelled,
    Network,
    ChecksumMismatch,
    DiskFull,
    Backend,
}

/// Coarse class of an error, as reported to a caller.
#[derive(Debug, Clone, Copy, PartialEq, Eq, Structural)]
pub enum ErrorCode {
    Internal,
    Unavailable,
    InvalidParams,
    UnsupportedFileFormat,
    PayloadTooLarge,
    ConversationBusy,
    OperationInProgress,
    RecordNotFound,
    Serde,
}

/// Every way in which an operation of this library can fail.
#[derive(Debug, Clone, Copy, PartialEq, Eq, Structural)]
pub enum AiError {
    /// The owner of the chat state has been torn down: nothing is available
    /// to serve the request, and trying again does not help.
    ManagerDropped,
    /// An attachment has no file extension.
    MissingFileExtension,
    /// An attachment's extension is none of the accepted ones.
    UnsupportedFileExtension,
    /// The size of an attachment could not be read.
    FileMetadataUnavailable,
    /// An attachment is larger than the ceiling.
    FileTooLarge,
    /// A conversation or model identifier is empty.
    EmptyIdentifier,
    /// A message is empty or longer than the accepted length.
    InvalidMessage,
    /// No further identifier can be handed out.
    IdentifiersExhausted,
    /// The conversation already has a live stream.
    ConversationBusy,
    /// A download or a selection is already under way.
    OperationInProgress,
    /// No conversation has the given identifier.
    ConversationNotFound,
    /// No message of the conversation has the given identifier.
    MessageNotFound,
    /// No known model has the given identifier.
    ModelNotFound,
    /// No model waits for its files.
    NothingToDownload,
    /// No directory for model files is configured.
    StorageDirectoryMissing,
    /// No link to the offline application is configured.
    DownloadLinkMissing,
    /// The state at hand breaks a rule that every operation keeps.
    InvariantViolated,
    /// A value could not be written as JSON.
    Serialization,
    /// The local model backend failed.
    Backend(FailureReason),
}

impl AiError {
    /// The class under which an error is reported.
    pub open spec fn spec_code(self) -> ErrorCode {
        match self {
            AiError::ManagerDropped => ErrorCode::Unavailable,
            AiError::MissingFileExtension => ErrorCode::UnsupportedFileFormat,
            AiError::UnsupportedFileExtension => ErrorCode::UnsupportedFileFormat,
            AiError::FileMetadataUnavailable => ErrorCode::UnsupportedFileFormat,
            AiError::FileTooLarge => ErrorCode::PayloadTooLarge,
            AiError::EmptyIdentifier => ErrorCode::InvalidParams,
            AiError::InvalidMessage => ErrorCode::InvalidParams,
            AiError::IdentifiersExhausted => ErrorCode::Internal,
            AiError::ConversationBusy => ErrorCode::ConversationBusy,
            AiError::OperationInProgress => ErrorCode::OperationInProgress,
            AiError::ConversationNotFound => ErrorCode::RecordNotFound,
            AiError::MessageNotFound => ErrorCode::RecordNotFound,
            AiError::ModelNotFound => ErrorCode::RecordNotFound,
            AiError::NothingToDownload => ErrorCode::InvalidParams,
            AiError::StorageDirectoryMissing => ErrorCode::Unavailable,
            AiError::DownloadLinkMissing => ErrorCode::Unavailable,
            AiError::InvariantViolated => ErrorCode::Internal,
            AiError::Serialization => ErrorCode::Serde,
            AiError::Backend(_) => ErrorCode::Internal,
        }
    }

    /// The class under which an error is reported.
    #[verifier::when_used_as_spec(spec_code)]
    pub fn code(self) -> (c: ErrorCode)
        ensures
            c == self.spec_code(),
    {
        match self {
            AiError::ManagerDropped => ErrorCode::Unavailable,
            AiError::MissingFileExtension => ErrorCode::UnsupportedFileFormat,
            AiError::UnsupportedFileExtension => ErrorCode::UnsupportedFileFormat,
            AiError::FileMetadataUnavailable => ErrorCode::UnsupportedFileFormat,
            AiError::FileTooLarge => ErrorCode::PayloadTooLarge,
            AiError::EmptyIdentifier => ErrorCode::InvalidParams,
            AiError::InvalidMessage => ErrorCode::InvalidParams,
            AiError::IdentifiersExhausted => ErrorCode::Internal,
            AiError::ConversationBusy => ErrorCode::ConversationBusy,
            AiError::OperationInProgress => ErrorCode::OperationInProgress,
            AiError::ConversationNotFound => ErrorCode::RecordNotFound,
            AiError::MessageNotFound => ErrorCode::RecordNotFound,
            AiError::ModelNotFound => ErrorCode::RecordNotFound,
            AiError::NothingToDownload => ErrorCode::InvalidParams,
            AiError::StorageDirectoryMissing => ErrorCode::Unavailable,
            AiError::DownloadLinkMissing => ErrorCode::Unavailable,
            AiError::InvariantViolated => ErrorCode::Internal,
            AiError::Serialization => ErrorCode::Serde,
            AiError::Backend(_) => ErrorCode::Internal,
        }
    }

    /// The text shown with an error.
    pub fn message(self) -> (s: &'static str)
        ensures
            s@ == self.spec_message(),
    {
        match self {
            AiError::ManagerDropped => "The chat manager is already dropped",
            AiError::MissingFileExtension => "Can't find file extension",
            AiError::UnsupportedFileExtension => "Only support pdf,md and txt",
            AiError::FileMetadataUnavailable => "Failed to get file metadata",
            AiError::FileTooLarge => "File size is too large. Max file size is 10MB",
            AiError::EmptyIdentifier => "The identifier is empty",
            AiError::InvalidMessage => "The message is empty or too long",
            AiError::IdentifiersExhausted => "No further identifier can be handed out",
            AiError::ConversationBusy => "The conversation already has an active stream",
            AiError::OperationInProgress => "Another operation is in progress",
            AiError::ConversationNotFound => "The conversation does not exist",
            AiError::MessageNotFound => "The message does not exist",
            AiError::ModelNotFound => "The model does not exist",
            AiError::NothingToDownload => "No model waits for its files",
            AiError::StorageDirectoryMissing => "The model storage directory is missing",
            AiError::DownloadLinkMissing => "The download link is missing",
            AiError::InvariantViolated => "The state is corrupted",
            AiError::Serialization => "Failed to serialize the value",
            AiError::Backend(_) => "The local model backend failed",
        }
    }

    /// The text shown with an error.
    pub open spec fn spec_message(self) -> Seq<char> {
        match self {
            AiError::ManagerDropped => "The chat manager is already dropped"@,
            AiError::MissingFileExtension => "Can't find file extension"@,
            AiError::UnsupportedFileExtension => "Only support pdf,md and txt"@,
            AiError::FileMetadataUnavailable => "Failed to get file metadata"@,
            AiError::FileTooLarge => "File size is too large. Max file size is 10MB"@,
            AiError::EmptyIdentifier => "The identifier is empty"@,
            AiError::InvalidMessage => "The message is empty or too long"@,
            AiError::IdentifiersExhausted => "No further identifier can be handed out"@,
            AiError::ConversationBusy => "The conversation already has an active stream"@,
            AiError::OperationInProgress => "Another operation is in progress"@,
            AiError::ConversationNotFound => "The conversation does not exist"@,
            AiError::MessageNotFound => "The message does not exist"@,
            AiError::ModelNotFound => "The model does not exist"@,
            AiError::NothingToDownload => "No model waits for its files"@,
            AiError::StorageDirectoryMissing => "The model storage directory is missing"@,
            AiError::DownloadLinkMissing => "The download link is missing"@,
            AiError::InvariantViolated => "The state is corrupted"@,
            AiError::Serialization => "Failed to serialize the value"@,
            AiError::Backend(_) => "The local model backend failed"@,
        }
    }
}

/// Hands out the owner of the chat state where it is still alive. A dead
/// owner is reported as unavailable, apart from every internal error.
pub fn upgrade_ai_manager<T>(manager: Option<T>) -> (r: Result<T, AiError>)
    ensures
        r == match manager {
            Some(m) => Ok::<T, AiError>(m),
            None => Err::<T, AiError>(AiError::ManagerDropped),
        },
        manager is None ==> (r matches Err(e) && e.spec_code() == ErrorCode::Unavailable),
{
    match manager {
        Some(m) => Ok(m),
        None => Err(AiError::ManagerDropped),
    }
}

} // verus!
