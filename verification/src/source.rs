//! Images offered as replacements: their format, told by the file name, and
//! their decoding.

use vstd::prelude::*;
use vstd::std_specs::iter::IteratorSpec;
use vstd::string::StrSliceExecFns;
use vstd::string::StringExecFns;

use crate::error::ErrorView;
use crate::error::WorkflowError;
use crate::text::str_eq;

verus! {

/// The encodings in which a replacement image is accepted.
#[derive(Clone, Copy, Debug, PartialEq, Eq, Structural)]
pub enum SourceFormat {
    Ico,
    Jpeg,
    Png,
    Bmp,
}

/// Where `c` last occurs in `s`.
pub open spec fn last_index_of(s: Seq<char>, c: char) -> Option<int>
    decreases s.len(),
{
    if s.len() == 0 {
        None
    } else if s.last() == c {
        Some(s.len() - 1)
    } else {
        last_index_of(s.drop_last(), c)
    }
}

/// What follows the last `/` of a path: the whole path where it has none.
pub open spec fn file_name(path: Seq<char>) -> Seq<char> {
    match last_index_of(path, '/') {
        Some(i) => path.skip(i + 1),
        None => path,
    }
}

/// What follows the last `.` of the file name. A name without a `.`, or
/// whose only `.` is its first character, has no extension, and neither has
/// the name `..`.
pub open spec fn extension(path: Seq<char>) -> Option<Seq<char>> {
    let name = file_name(path);
    match last_index_of(name, '.') {
        Some(i) => if i > 0 && name != seq!['.', '.'] {
            Some(name.skip(i + 1))
        } else {
            None
        },
        None => None,
    }
}

/// The format that an extension names. Letter case counts.
pub open spec fn format_of_extension(ext: Seq<char>) -> Option<SourceFormat> {
    if ext == "ico"@ {
        Some(SourceFormat::Ico)
    } else if ext == "jpg"@ || ext == "jpeg"@ {
        Some(SourceFormat::Jpeg)
    } else if ext == "png"@ {
        Some(SourceFormat::Png)
    } else if ext == "bmp"@ {
        Some(SourceFormat::Bmp)
    } else {
        None
    }
}

/// What [`source_format`] answers for a file name.
pub open spec fn format_of_file_name(name: Seq<char>) -> Result<SourceFormat, ErrorView> {
    match extension(name) {
        None => Err(ErrorView::UnsupportedImageFormat(None)),
        Some(ext) => match format_of_extension(ext) {
            Some(format) => Ok(format),
            None => Err(ErrorView::UnsupportedImageFormat(Some(ext))),
        },
    }
}

/// [`last_index_of`] answers with a place where `c` stands and after which
/// it does not occur again, and with nothing only where `c` does not occur.
pub proof fn lemma_last_index_of(s: Seq<char>, c: char)
    ensures
        match last_index_of(s, c) {
            Some(i) => 0 <= i < s.len() && s[i] == c && forall|k: int|
                i < k < s.len() ==> s[k] != c,
            None => forall|k: int| 0 <= k < s.len() ==> s[k] != c,
        },
    decreases s.len(),
{
    if s.len() > 0 && s.last() != c {
        let front = s.drop_last();
        lemma_last_index_of(front, c);
        assert forall|k: int| 0 <= k < s.len() - 1 implies s[k] == front[k] by {}
    }
}

fn chars_of(s: &str) -> (chars: Vec<char>)
    ensures
        chars@ == s@,
{
    let mut chars: Vec<char> = Vec::new();
    for c in it: s.chars()
        invariant
            it.seq() == s@,
            chars@ == it.seq().take(it.index() as int),
    {
        chars.push(c);
        assert(it.seq().take(it.index() + 1) =~= it.seq().take(it.index() as int).push(c));
    }
    assert(s@.take(s@.len() as int) =~= s@);
    chars
}

fn last_index_from(chars: &Vec<char>, from: usize, c: char) -> (found: Option<usize>)
    requires
        from <= chars.len(),
    ensures
        match last_index_of(chars@.skip(from as int), c) {
            Some(k) => 0 <= k && from + k < chars.len() && found == Some((from + k) as usize),
            None => found is None,
        },
{
    let mut i: usize = chars.len();
    assert(chars@.subrange(from as int, i as int) =~= chars@.skip(from as int));
    while i > from
        invariant
            from <= i <= chars.len(),
            last_index_of(chars@.skip(from as int), c) == last_index_of(
                chars@.subrange(from as int, i as int),
                c,
            ),
        decreases i,
    {
        if chars[i - 1] == c {
            return Some(i - 1);
        }
        assert(chars@.subrange(from as int, i as int).drop_last() =~= chars@.subrange(
            from as int,
            i - 1,
        ));
        i -= 1;
    }
    None
}

/// The extension of a file name, as [`extension`] defines it.
pub fn extension_of(path: &str) -> (ext: Option<String>)
    ensures
        match extension(path@) {
            Some(e) => ext matches Some(s) && s@ == e,
            None => ext is None,
        },
{
    let chars = chars_of(path);
    let n = chars.len();
    let start = match last_index_from(&chars, 0, '/') {
        Some(slash) => slash + 1,
        None => 0,
    };
    assert(chars@.skip(0) =~= chars@);
    assert(file_name(path@) == path@.skip(start as int));
    let parent = n - start == 2 && chars[start] == '.' && chars[start + 1] == '.';
    proof {
        let name = path@.skip(start as int);
        if parent {
            assert(name =~= seq!['.', '.']);
        } else if name == seq!['.', '.'] {
            assert(name[0] == '.' && name[1] == '.');
        }
    }
    match last_index_from(&chars, start, '.') {
        Some(dot) => {
            if dot > start && !parent {
                let tail = path.substring_char(dot + 1, n);
                assert(path@.subrange(dot + 1, n as int) =~= path@.skip(start as int).skip(
                    dot - start + 1,
                ));
                Some(String::from_str(tail))
            } else {
                None
            }
        },
        None => None,
    }
}

/// The format of a replacement image, told by the extension of its file name.
pub fn source_format(file_name: &str) -> (format: Result<SourceFormat, WorkflowError>)
    ensures
        match format_of_file_name(file_name@) {
            Ok(f) => format == Ok::<SourceFormat, WorkflowError>(f),
            Err(e) => format matches Err(err) && err@ == e,
        },
{
    match extension_of(file_name) {
        None => Err(WorkflowError::UnsupportedImageFormat(None)),
        Some(ext) => {
            let e = ext.as_str();
            if str_eq(e, "ico") {
                Ok(SourceFormat::Ico)
            } else if str_eq(e, "jpg") || str_eq(e, "jpeg") {
                Ok(SourceFormat::Jpeg)
            } else if str_eq(e, "png") {
                Ok(SourceFormat::Png)
            } else if str_eq(e, "bmp") {
                Ok(SourceFormat::Bmp)
            } else {
                Err(WorkflowError::UnsupportedImageFormat(Some(ext)))
            }
        },
    }
}

/// `image::DynamicImage`, a decoded image. Nothing is known of its inside.
#[verifier::external_type_specification]
#[verifier::external_body]
pub struct ExDynamicImage(image::DynamicImage);

/// `image::ImageError`, the reason why bytes did not decode. Nothing is
/// known of its inside.
#[verifier::external_type_specification]
#[verifier::external_body]
pub struct ExImageError(image::ImageError);

/// A decoded replacement image, with its dimensions in pixels. The pixels
/// stay in the decoder's own type, for the codec to convert.
#[derive(Debug)]
pub struct SourceImage {
    pub width: u32,
    pub height: u32,
    pub pixels: image::DynamicImage,
}

/// The width and height of the image that the bytes `data` hold in the
/// given format, or nothing where they do not decode as that format.
pub uninterp spec fn decoded_dimensions(data: Seq<u8>, format: SourceFormat) -> Option<(u32, u32)>;

/// Decodes with `image::load`, over a cursor on the bytes, and reads the
/// result's `width` and `height`. Trusted: whether the bytes decode, and to
/// which dimensions, depends on the bytes and the format alone.
#[verifier::external_body]
fn load(data: &[u8], format: SourceFormat) -> (loaded: Result<SourceImage, image::ImageError>)
    ensures
        decoded_dimensions(data@, format) == match loaded {
            Ok(picture) => Some((picture.width, picture.height)),
            Err(_) => None,
        },
{
    let tag = match format {
        SourceFormat::Ico => image::ImageFormat::Ico,
        SourceFormat::Jpeg => image::ImageFormat::Jpeg,
        SourceFormat::Png => image::ImageFormat::Png,
        SourceFormat::Bmp => image::ImageFormat::Bmp,
    };
    let pixels = image::load(std::io::Cursor::new(data), tag)?;
    Ok(SourceImage { width: pixels.width(), height: pixels.height(), pixels })
}

/// Decodes a replacement image from its bytes.
pub fn decode(data: &[u8], format: SourceFormat) -> (decoded: Result<SourceImage, WorkflowError>)
    ensures
        match decoded_dimensions(data@, format) {
            Some(size) => decoded matches Ok(picture) && (picture.width, picture.height) == size,
            None => decoded matches Err(e) && e@ is ImageDecode,
        },
{
    match load(data, format) {
        Ok(picture) => Ok(picture),
        Err(cause) => Err(WorkflowError::ImageDecode(cause.to_string())),
    }
}

} // verus!
