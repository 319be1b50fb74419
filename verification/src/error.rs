//! The failures that an operation reports to its caller.

use vstd::prelude::*;
use vstd::string::StringExecFns;

verus! {

/// A failure that leaves the session as it was; the caller shows
/// [`WorkflowError::message`] and lets the user try again.
#[derive(Debug, PartialEq, Eq)]
pub enum WorkflowError {
    /// The catalog holds no device with this codename.
    UnknownDevice(String),
    /// The buffer is no logo container of the selected device; the text says why.
    MalformedContainer(String),
    /// The container holds no logo with this identifier.
    UnknownLogoId(String),
    /// The file name has no extension, or one that names no supported format.
    UnsupportedImageFormat(Option<String>),
    /// The image bytes could not be decoded; the text says why.
    ImageDecode(String),
    /// The image could not be brought into the device's pixel layout.
    PixelConversion(String),
    /// The container could not be written out.
    Serialization,
}

/// What a [`WorkflowError`] holds, as plain values.
pub enum ErrorView {
    UnknownDevice(Seq<char>),
    MalformedContainer(Seq<char>),
    UnknownLogoId(Seq<char>),
    UnsupportedImageFormat(Option<Seq<char>>),
    ImageDecode(Seq<char>),
    PixelConversion(Seq<char>),
    Serialization,
}

impl View for WorkflowError {
    type V = ErrorView;

    open spec fn view(&self) -> ErrorView {
        match *self {
            WorkflowError::UnknownDevice(s) => ErrorView::UnknownDevice(s@),
            WorkflowError::MalformedContainer(s) => ErrorView::MalformedContainer(s@),
            WorkflowError::UnknownLogoId(s) => ErrorView::UnknownLogoId(s@),
            WorkflowError::UnsupportedImageFormat(ext) => ErrorView::UnsupportedImageFormat(
                match ext {
                    Some(s) => Some(s@),
                    None => None,
                },
            ),
            WorkflowError::ImageDecode(s) => ErrorView::ImageDecode(s@),
            WorkflowError::PixelConversion(s) => ErrorView::PixelConversion(s@),
            WorkflowError::Serialization => ErrorView::Serialization,
        }
    }
}

/// The text shown for an error.
pub open spec fn message_text(e: ErrorView) -> Seq<char> {
    match e {
        ErrorView::UnknownDevice(codename) => "Unknown device "@ + codename,
        ErrorView::MalformedContainer(reason) => reason,
        ErrorView::UnknownLogoId(id) => "Unknown logo "@ + id,
        ErrorView::UnsupportedImageFormat(None) => "No extension found in file."@,
        ErrorView::UnsupportedImageFormat(Some(ext)) => "Unsupported image format image/"@ + ext,
        ErrorView::ImageDecode(reason) => "Failed to load image: "@ + reason,
        ErrorView::PixelConversion(reason) => reason,
        ErrorView::Serialization => "Error writing to file"@,
    }
}

impl WorkflowError {
    /// The human-readable text of this error.
    pub fn message(&self) -> (text: String)
        ensures
            text@ == message_text(self@),
    {
        match self {
            WorkflowError::UnknownDevice(codename) => String::from_str("Unknown device ").concat(
                codename.as_str(),
            ),
            WorkflowError::MalformedContainer(reason) => reason.clone(),
            WorkflowError::UnknownLogoId(id) => String::from_str("Unknown logo ").concat(
                id.as_str(),
            ),
            WorkflowError::UnsupportedImageFormat(None) => String::from_str(
                "No extension found in file.",
            ),
            WorkflowError::UnsupportedImageFormat(Some(ext)) => String::from_str(
                "Unsupported image format image/",
            ).concat(ext.as_str()),
            WorkflowError::ImageDecode(reason) => String::from_str("Failed to load image: ").concat(
                reason.as_str(),
            ),
            WorkflowError::PixelConversion(reason) => reason.clone(),
            WorkflowError::Serialization => String::from_str("Error writing to file"),
        }
    }
}

} // verus!
