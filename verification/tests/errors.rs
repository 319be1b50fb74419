use logo_session::error::WorkflowError;

#[test]
fn message_of_each_error() {
    assert_eq!(WorkflowError::UnknownDevice("falcon".to_string()).message(), "Unknown device falcon");
    assert_eq!(
        WorkflowError::MalformedContainer("Bad magic number".to_string()).message(),
        "Bad magic number"
    );
    assert_eq!(WorkflowError::UnknownLogoId("logo_x".to_string()).message(), "Unknown logo logo_x");
    assert_eq!(WorkflowError::UnsupportedImageFormat(None).message(), "No extension found in file.");
    assert_eq!(
        WorkflowError::UnsupportedImageFormat(Some("txt".to_string())).message(),
        "Unsupported image format image/txt"
    );
    assert_eq!(
        WorkflowError::ImageDecode("Format error".to_string()).message(),
        "Failed to load image: Format error"
    );
    assert_eq!(WorkflowError::PixelConversion("Image too big".to_string()).message(), "Image too big");
    assert_eq!(WorkflowError::Serialization.message(), "Error writing to file");
}

#[test]
fn message_with_an_empty_detail() {
    assert_eq!(WorkflowError::UnknownDevice(String::new()).message(), "Unknown device ");
    assert_eq!(WorkflowError::MalformedContainer(String::new()).message(), "");
}
