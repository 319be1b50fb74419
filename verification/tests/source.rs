use logo_session::error::WorkflowError;
use logo_session::source::decode;
use logo_session::source::extension_of;
use logo_session::source::source_format;
use logo_session::source::SourceFormat;

fn encoded(width: u32, height: u32, format: image::ImageFormat) -> Vec<u8> {
    let mut picture = image::RgbImage::new(width, height);
    picture.put_pixel(0, 0, image::Rgb([255, 0, 0]));
    let picture = image::DynamicImage::ImageRgb8(picture);
    let picture = if format == image::ImageFormat::Ico {
        image::DynamicImage::ImageRgba8(picture.to_rgba8())
    } else {
        picture
    };
    let mut out = std::io::Cursor::new(Vec::new());
    picture.write_to(&mut out, format).unwrap();
    out.into_inner()
}

#[test]
fn extension_of_is_what_follows_the_last_dot() {
    assert_eq!(extension_of("new.png"), Some("png".to_string()));
    assert_eq!(extension_of("archive.tar.gz"), Some("gz".to_string()));
    assert_eq!(extension_of("photo.JPG"), Some("JPG".to_string()));
    assert_eq!(extension_of("trailing."), Some(String::new()));
    assert_eq!(extension_of("a..png"), Some("png".to_string()));
    assert_eq!(extension_of("логотип.bmp"), Some("bmp".to_string()));
}

#[test]
fn extension_of_a_name_without_one_is_none() {
    assert_eq!(extension_of(""), None);
    assert_eq!(extension_of("logo"), None);
    assert_eq!(extension_of(".png"), None);
    assert_eq!(extension_of(".hidden"), None);
    assert_eq!(extension_of(".."), None);
    assert_eq!(extension_of("dir/.."), None);
}

#[test]
fn extension_of_looks_at_the_file_name_only() {
    assert_eq!(extension_of("dir.d/logo"), None);
    assert_eq!(extension_of("dir.d/logo.ico"), Some("ico".to_string()));
    assert_eq!(extension_of("dir/.png"), None);
    assert_eq!(extension_of("dir/"), None);
    assert_eq!(extension_of("a/b/c.d.e"), Some("e".to_string()));
}

#[test]
fn source_format_knows_the_five_extensions() {
    assert_eq!(source_format("a.ico"), Ok(SourceFormat::Ico));
    assert_eq!(source_format("a.jpg"), Ok(SourceFormat::Jpeg));
    assert_eq!(source_format("a.jpeg"), Ok(SourceFormat::Jpeg));
    assert_eq!(source_format("a.png"), Ok(SourceFormat::Png));
    assert_eq!(source_format("a.bmp"), Ok(SourceFormat::Bmp));
}

#[test]
fn source_format_of_another_extension_is_unsupported() {
    assert_eq!(
        source_format("file.txt"),
        Err(WorkflowError::UnsupportedImageFormat(Some("txt".to_string())))
    );
    assert_eq!(
        source_format("file.gif"),
        Err(WorkflowError::UnsupportedImageFormat(Some("gif".to_string())))
    );
    assert_eq!(
        source_format("file.PNG"),
        Err(WorkflowError::UnsupportedImageFormat(Some("PNG".to_string())))
    );
    assert_eq!(
        source_format("file.pngx"),
        Err(WorkflowError::UnsupportedImageFormat(Some("pngx".to_string())))
    );
    assert_eq!(source_format("file."), Err(WorkflowError::UnsupportedImageFormat(Some(String::new()))));
}

#[test]
fn source_format_without_an_extension_is_unsupported() {
    assert_eq!(source_format("png"), Err(WorkflowError::UnsupportedImageFormat(None)));
    assert_eq!(source_format(".png"), Err(WorkflowError::UnsupportedImageFormat(None)));
    assert_eq!(source_format(""), Err(WorkflowError::UnsupportedImageFormat(None)));
}

#[test]
fn decode_reads_the_dimensions_of_a_png() {
    let picture = decode(&encoded(240, 320, image::ImageFormat::Png), SourceFormat::Png).unwrap();
    assert_eq!((picture.width, picture.height), (240, 320));
    assert_eq!(picture.pixels.width(), 240);
    assert_eq!(picture.pixels.height(), 320);
    assert_eq!(picture.pixels.to_rgb8().get_pixel(0, 0), &image::Rgb([255, 0, 0]));
    assert_eq!(picture.pixels.to_rgb8().get_pixel(1, 1), &image::Rgb([0, 0, 0]));
}

#[test]
fn decode_reads_each_supported_format() {
    let cases = [
        (image::ImageFormat::Png, SourceFormat::Png),
        (image::ImageFormat::Jpeg, SourceFormat::Jpeg),
        (image::ImageFormat::Bmp, SourceFormat::Bmp),
        (image::ImageFormat::Ico, SourceFormat::Ico),
    ];
    for (written, read) in cases {
        let picture = decode(&encoded(16, 8, written), read).unwrap();
        assert_eq!((picture.width, picture.height), (16, 8));
    }
}

#[test]
fn decode_of_bytes_that_are_no_image_fails() {
    let failed = decode(b"this is no image", SourceFormat::Png).unwrap_err();
    assert!(matches!(failed, WorkflowError::ImageDecode(_)));
    assert!(failed.message().starts_with("Failed to load image: "));
    assert!(matches!(decode(&[], SourceFormat::Jpeg), Err(WorkflowError::ImageDecode(_))));
}

#[test]
fn decode_in_another_format_than_the_bytes_fails() {
    let png = encoded(4, 4, image::ImageFormat::Png);
    assert!(matches!(decode(&png, SourceFormat::Bmp), Err(WorkflowError::ImageDecode(_))));
    assert!(matches!(decode(&png, SourceFormat::Jpeg), Err(WorkflowError::ImageDecode(_))));
}

#[test]
fn decode_of_a_truncated_image_fails() {
    let png = encoded(32, 32, image::ImageFormat::Png);
    assert!(matches!(decode(&png[..png.len() / 2], SourceFormat::Png), Err(WorkflowError::ImageDecode(_))));
}

#[test]
fn extension_of_agrees_with_the_extension_of_a_path() {
    let names = [
        "new.png",
        "logo",
        ".png",
        "a.b.c",
        "a.",
        "a..b",
        "..",
        "...",
        "dir/file.bmp",
        "dir.x/file",
        "dir/.hidden",
        "dir/.hidden.ico",
        "/abs/path/to/logo.jpeg",
        "with space.jpg",
        "ünï.cödé",
        "",
    ];
    for name in names {
        let expected = std::path::Path::new(name).extension().map(|e| e.to_str().unwrap().to_string());
        assert_eq!(extension_of(name), expected, "{:?}", name);
    }
}
