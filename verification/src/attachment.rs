//! Which files may be attached to a conversation.
use vstd::prelude::*;
use crate::error::AiError;
use crate::text::same_text;

verus! {

/// Largest accepted attachment, in bytes; a file of exactly this size passes.
pub const MAX_FILE_SIZE: u64 = 10 * 1024 * 1024;

/// The accepted extensions, compared as given (no case folding).
pub open spec fn allowed_extension(ext: Seq<char>) -> bool {
    ext == "pdf"@ || ext == "md"@ || ext == "txt"@
}

/// The verdict on an extension alone.
pub open spec fn extension_verdict(ext: Option<Seq<char>>) -> Result<(), AiError> {
    match ext {
        None => Err(AiError::MissingFileExtension),
        Some(e) => if allowed_extension(e) {
            Ok(())
        } else {
            Err(AiError::UnsupportedFileExtension)
        },
    }
}

/// The verdict on a size alone; `None` stands for metadata that could not be read.
pub open spec fn size_verdict(size: Option<u64>) -> Result<(), AiError> {
    match size {
        None => Err(AiError::FileMetadataUnavailable),
        Some(n) => if n > MAX_FILE_SIZE {
            Err(AiError::FileTooLarge)
        } else {
            Ok(())
        },
    }
}

/// The verdict on a file: the extension is judged first, the size second.
pub open spec fn attachment_verdict(ext: Option<Seq<char>>, size: Option<u64>) -> Result<
    (),
    AiError,
> {
    match extension_verdict(ext) {
        Err(e) => Err(e),
        Ok(_) => size_verdict(size),
    }
}

/// The characters of an extension, where there is one.
pub open spec fn view_of(ext: Option<&str>) -> Option<Seq<char>> {
    match ext {
        None => None,
        Some(e) => Some(e@),
    }
}

/// Whether an extension is one of `pdf`, `md`, `txt`, spelled exactly so.
pub fn is_allowed_extension(ext: &str) -> (ok: bool)
    ensures
        ok == allowed_extension(ext@),
{
    same_text(ext, "pdf") || same_text(ext, "md") || same_text(ext, "txt")
}

/// Judges the extension of a file; `None` stands for a file without one.
pub fn check_extension(ext: Option<&str>) -> (r: Result<(), AiError>)
    ensures
        r == extension_verdict(view_of(ext)),
{
    match ext {
        None => Err(AiError::MissingFileExtension),
        Some(e) => if is_allowed_extension(e) {
            Ok(())
        } else {
            Err(AiError::UnsupportedFileExtension)
        },
    }
}

/// Judges the size of a file; `None` stands for metadata that could not be read.
pub fn check_size(size: Option<u64>) -> (r: Result<(), AiError>)
    ensures
        r == size_verdict(size),
{
    match size {
        None => Err(AiError::FileMetadataUnavailable),
        Some(n) => if n > MAX_FILE_SIZE {
            Err(AiError::FileTooLarge)
        } else {
            Ok(())
        },
    }
}

/// Judges an attachment before any chat context is made for it.
pub fn validate_attachment(ext: Option<&str>, size: Option<u64>) -> (r: Result<(), AiError>)
    ensures
        r == attachment_verdict(view_of(ext), size),
{
    match check_extension(ext) {
        Err(e) => Err(e),
        Ok(_) => check_size(size),
    }
}

} // verus!
