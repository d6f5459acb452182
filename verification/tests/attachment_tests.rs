use flowy_ai::attachment::{
    check_extension, check_size, is_allowed_extension, validate_attachment, MAX_FILE_SIZE,
};
use flowy_ai::error::{upgrade_ai_manager, AiError, ErrorCode};
use flowy_ai::text::same_text;

#[test]
fn ceiling_is_ten_mebibytes() {
    assert_eq!(MAX_FILE_SIZE, 10_485_760);
}

#[test]
fn txt_at_the_ceiling_is_accepted() {
    assert_eq!(validate_attachment(Some("txt"), Some(10 * 1024 * 1024)), Ok(()));
}

#[test]
fn txt_one_byte_over_is_too_large() {
    let r = validate_attachment(Some("txt"), Some(10 * 1024 * 1024 + 1));
    assert_eq!(r, Err(AiError::FileTooLarge));
    assert_eq!(AiError::FileTooLarge.code(), ErrorCode::PayloadTooLarge);
}

#[test]
fn docx_is_rejected_whatever_its_size() {
    for size in [Some(0u64), Some(1), Some(10 * 1024 * 1024 + 1), Some(u64::MAX), None] {
        let r = validate_attachment(Some("docx"), size);
        assert_eq!(r, Err(AiError::UnsupportedFileExtension));
    }
    assert_eq!(AiError::UnsupportedFileExtension.code(), ErrorCode::UnsupportedFileFormat);
}

#[test]
fn every_accepted_extension_passes() {
    for ext in ["pdf", "md", "txt"] {
        assert!(is_allowed_extension(ext));
        assert_eq!(validate_attachment(Some(ext), Some(0)), Ok(()));
    }
}

#[test]
fn extensions_are_compared_as_given() {
    for ext in ["TXT", "Pdf", "MD", "", "tx", "txtx", " txt", "markdown"] {
        assert!(!is_allowed_extension(ext));
        assert_eq!(check_extension(Some(ext)), Err(AiError::UnsupportedFileExtension));
    }
}

#[test]
fn missing_extension_is_rejected() {
    assert_eq!(check_extension(None), Err(AiError::MissingFileExtension));
    assert_eq!(validate_attachment(None, Some(1)), Err(AiError::MissingFileExtension));
    assert_eq!(AiError::MissingFileExtension.message(), "Can't find file extension");
}

#[test]
fn unreadable_metadata_is_rejected() {
    assert_eq!(check_size(None), Err(AiError::FileMetadataUnavailable));
    assert_eq!(validate_attachment(Some("md"), None), Err(AiError::FileMetadataUnavailable));
    assert_eq!(AiError::FileMetadataUnavailable.code(), ErrorCode::UnsupportedFileFormat);
}

#[test]
fn size_is_judged_alone() {
    assert_eq!(check_size(Some(0)), Ok(()));
    assert_eq!(check_size(Some(MAX_FILE_SIZE)), Ok(()));
    assert_eq!(check_size(Some(MAX_FILE_SIZE + 1)), Err(AiError::FileTooLarge));
}

#[test]
fn text_comparison() {
    assert!(same_text("abc", "abc"));
    assert!(!same_text("abc", "abd"));
    assert!(!same_text("abc", "ab"));
    assert!(same_text("", ""));
}

#[test]
fn dropped_manager_is_unavailable() {
    let gone: Option<u8> = None;
    assert_eq!(upgrade_ai_manager(gone), Err(AiError::ManagerDropped));
    assert_eq!(upgrade_ai_manager(Some(7u8)), Ok(7u8));
    assert_eq!(AiError::ManagerDropped.code(), ErrorCode::Unavailable);
    assert_ne!(AiError::ManagerDropped.code(), ErrorCode::Internal);
    assert_eq!(AiError::InvariantViolated.code(), ErrorCode::Internal);
    assert_eq!(AiError::ManagerDropped.message(), "The chat manager is already dropped");
}

#[test]
fn error_codes_and_messages() {
    assert_eq!(AiError::ConversationBusy.code(), ErrorCode::ConversationBusy);
    assert_eq!(AiError::OperationInProgress.code(), ErrorCode::OperationInProgress);
    assert_eq!(AiError::StorageDirectoryMissing.code(), ErrorCode::Unavailable);
    assert_eq!(AiError::Serialization.code(), ErrorCode::Serde);
    assert_eq!(AiError::MessageNotFound.code(), ErrorCode::RecordNotFound);
    assert_eq!(AiError::InvalidMessage.code(), ErrorCode::InvalidParams);
    assert_eq!(AiError::UnsupportedFileExtension.message(), "Only support pdf,md and txt");
    assert_eq!(
        AiError::FileTooLarge.message(),
        "File size is too large. Max file size is 10MB"
    );
    assert_eq!(AiError::FileMetadataUnavailable.message(), "Failed to get file metadata");
}
