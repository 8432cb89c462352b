//! Clipboard snapshots and the rules for reading and writing them. The
//! operating system's clipboard itself stays outside: what was read comes in
//! as plain values, and what is to be written goes out as a [`ClipboardWrite`].

use std::io::Cursor;
use base64::Engine;
use vstd::prelude::*;
use vstd::string::*;
use crate::file_manager::{artifact_path, staged_name};
use crate::hashing::{content_hash, content_hash_of};
use crate::paths::{join_path, opt_text};
use crate::ClaudeUtilsError;

pub mod processor;
pub mod watcher;

verus! {

/// The logical content of the clipboard.
#[derive(Debug)]
#[allow(inconsistent_fields)]
pub enum ClipboardContent {
    Text { data: String, truncated: Option<bool> },
    /// `data` is the base64 text of the encoded image when it is small
    /// enough to inline; `file` is a path to it otherwise.
    ImagePng { data: Option<String>, file: Option<String>, width: usize, height: usize, size: usize },
    ImageJpeg { data: Option<String>, file: Option<String>, width: usize, height: usize, size: usize },
}

/// A [`ClipboardContent`] as plain mathematical values.
#[allow(inconsistent_fields)]
pub enum ClipboardContentView {
    Text { data: Seq<char>, truncated: Option<bool> },
    ImagePng {
        data: Option<Seq<char>>,
        file: Option<Seq<char>>,
        width: usize,
        height: usize,
        size: usize,
    },
    ImageJpeg {
        data: Option<Seq<char>>,
        file: Option<Seq<char>>,
        width: usize,
        height: usize,
        size: usize,
    },
}

impl View for ClipboardContent {
    type V = ClipboardContentView;

    open spec fn view(&self) -> ClipboardContentView {
        match *self {
            ClipboardContent::Text { data, truncated } => ClipboardContentView::Text {
                data: data@,
                truncated,
            },
            ClipboardContent::ImagePng {
                data,
                file,
                width,
                height,
                size,
            } => ClipboardContentView::ImagePng {
                data: opt_text(data),
                file: opt_text(file),
                width,
                height,
                size,
            },
            ClipboardContent::ImageJpeg {
                data,
                file,
                width,
                height,
                size,
            } => ClipboardContentView::ImageJpeg {
                data: opt_text(data),
                file: opt_text(file),
                width,
                height,
                size,
            },
        }
    }
}

fn clone_opt_text(text: &Option<String>) -> (copy: Option<String>)
    ensures
        copy == *text,
{
    match text {
        Some(t) => Some(t.clone()),
        None => None,
    }
}

impl Clone for ClipboardContent {
    fn clone(&self) -> (copy: Self)
        ensures
            copy == *self,
    {
        match self {
            ClipboardContent::Text { data, truncated } => ClipboardContent::Text {
                data: data.clone(),
                truncated: *truncated,
            },
            ClipboardContent::ImagePng {
                data,
                file,
                width,
                height,
                size,
            } => ClipboardContent::ImagePng {
                data: clone_opt_text(data),
                file: clone_opt_text(file),
                width: *width,
                height: *height,
                size: *size,
            },
            ClipboardContent::ImageJpeg {
                data,
                file,
                width,
                height,
                size,
            } => ClipboardContent::ImageJpeg {
                data: clone_opt_text(data),
                file: clone_opt_text(file),
                width: *width,
                height: *height,
                size: *size,
            },
        }
    }
}

/// When a snapshot was taken, in milliseconds since the Unix epoch, and
/// where it came from if that is known.
#[derive(Debug, Clone)]
pub struct ClipboardMetadata {
    pub timestamp: u64,
    pub source: Option<String>,
}

/// One snapshot of the clipboard.
#[derive(Debug)]
pub struct ClipboardData {
    pub content: ClipboardContent,
    pub metadata: ClipboardMetadata,
}

impl Clone for ClipboardData {
    fn clone(&self) -> (copy: Self)
        ensures
            copy == *self,
    {
        ClipboardData {
            content: self.content.clone(),
            metadata: ClipboardMetadata {
                timestamp: self.metadata.timestamp,
                source: clone_opt_text(&self.metadata.source),
            },
        }
    }
}

/// Raw RGBA pixels as the clipboard hands them over, four bytes per pixel.
#[derive(Debug)]
pub struct RawImage {
    pub width: usize,
    pub height: usize,
    pub bytes: Vec<u8>,
}

/// What is to be put on the clipboard.
#[derive(Debug)]
pub enum ClipboardWrite {
    /// Replace the clipboard with this text.
    Text(String),
    /// Replace the clipboard with these pixels.
    Image(RawImage),
    /// Present this text and this image file side by side: readers of text
    /// get the text, readers of images the image.
    TextAndImage { text: String, image: Vec<u8> },
}

/// A [`ClipboardWrite`] as plain mathematical values.
pub enum ClipboardWriteView {
    Text(Seq<char>),
    Image { width: usize, height: usize, bytes: Seq<u8> },
    TextAndImage { text: Seq<char>, image: Seq<u8> },
}

impl View for ClipboardWrite {
    type V = ClipboardWriteView;

    open spec fn view(&self) -> ClipboardWriteView {
        match *self {
            ClipboardWrite::Text(text) => ClipboardWriteView::Text(text@),
            ClipboardWrite::Image(image) => ClipboardWriteView::Image {
                width: image.width,
                height: image.height,
                bytes: image.bytes@,
            },
            ClipboardWrite::TextAndImage { text, image } => ClipboardWriteView::TextAndImage {
                text: text@,
                image: image@,
            },
        }
    }
}

/// The PNG file that the `image` crate encodes from RGBA pixels of the given
/// dimensions, or `None` where it reports an error.
pub uninterp spec fn png_encoding(width: u32, height: u32, pixels: Seq<u8>) -> Option<Seq<u8>>;

/// The text that the `base64` crate's standard engine encodes bytes to.
pub uninterp spec fn base64_text(bytes: Seq<u8>) -> Seq<char>;

/// The bytes that the `base64` crate's standard engine decodes a text to, or
/// `None` where it rejects the text.
pub uninterp spec fn base64_bytes(text: Seq<char>) -> Option<Seq<u8>>;

/// `image::ImageError`, carried from the encoder to its message as it is.
#[verifier::external_type_specification]
#[verifier::external_body]
pub struct ExImageError(image::ImageError);

/// `base64::DecodeError`, carried from the decoder to its message as it is.
#[verifier::external_type_specification]
#[verifier::external_body]
pub struct ExDecodeError(base64::DecodeError);

/// Calls `image::RgbaImage::from_raw` and then `ImageBuffer::write_to` with
/// `ImageFormat::Png` into memory. The contract names the encoder's output,
/// and claims one fact of it: a buffer shorter than four bytes per pixel is
/// refused (`from_raw` returns `None`, reported as a dimension limit error).
#[verifier::external_body]
fn encode_rgba_png(width: u32, height: u32, pixels: Vec<u8>) -> (png: Result<
    Vec<u8>,
    image::ImageError,
>)
    ensures
        match png {
            Ok(bytes) => png_encoding(width, height, pixels@) == Some(bytes@),
            Err(_) => png_encoding(width, height, pixels@).is_none(),
        },
        pixels@.len() < 4 * width * height ==> png.is_err(),
{
    match image::RgbaImage::from_raw(width, height, pixels) {
        Some(img) => {
            let mut out: Vec<u8> = Vec::new();
            match img.write_to(&mut Cursor::new(&mut out), image::ImageFormat::Png) {
                Ok(_) => Ok(out),
                Err(e) => Err(e),
            }
        },
        None => Err(
            image::ImageError::Limits(
                image::error::LimitError::from_kind(image::error::LimitErrorKind::DimensionError),
            ),
        ),
    }
}

/// Calls `ImageError`'s `Display` through `to_string`. Nothing is claimed of
/// the text.
#[verifier::external_body]
fn image_error_text(error: &image::ImageError) -> (text: String) {
    error.to_string()
}

/// Calls `Engine::encode` on `base64::engine::general_purpose::STANDARD`.
/// The contract names the output. Inputs so long that the encoded length
/// would overflow are left out, since the call panics on them.
#[verifier::external_body]
fn base64_encode(bytes: &[u8]) -> (text: String)
    requires
        bytes@.len() <= 0x4000_0000,
    ensures
        text@ == base64_text(bytes@),
{
    base64::engine::general_purpose::STANDARD.encode(bytes)
}

/// Calls `Engine::decode` on `base64::engine::general_purpose::STANDARD`.
/// The contract names the output, with `None` for a rejected text.
#[verifier::external_body]
fn base64_decode(text: &str) -> (bytes: Result<Vec<u8>, base64::DecodeError>)
    ensures
        match bytes {
            Ok(b) => base64_bytes(text@) == Some(b@),
            Err(_) => base64_bytes(text@).is_none(),
        },
{
    base64::engine::general_purpose::STANDARD.decode(text)
}

/// Calls `DecodeError`'s `Display` through `to_string`. Nothing is claimed
/// of the text.
#[verifier::external_body]
fn decode_error_text(error: &base64::DecodeError) -> (text: String) {
    error.to_string()
}

/// The snapshot content for a text read from the clipboard: the text in
/// full, never truncated here.
pub open spec fn text_content(text: Seq<char>) -> ClipboardContentView {
    ClipboardContentView::Text { data: text, truncated: None }
}

/// Where a PNG file that is too large to inline is referred to: the path
/// it is staged under in the given directory, which its content decides.
pub open spec fn image_reference(staging_dir: Seq<char>, png: Seq<u8>) -> Seq<char> {
    join_path(staging_dir, staged_name(content_hash_of(png), "png"@))
}

/// The snapshot content for an image whose PNG encoding is `png`: inlined
/// as base64 text while it fits the inline budget, referred to by its
/// staged path otherwise. It always holds one of the two.
pub open spec fn image_content(
    width: usize,
    height: usize,
    png: Seq<u8>,
    staging_dir: Seq<char>,
) -> ClipboardContentView {
    ClipboardContentView::ImagePng {
        data: if png.len() <= crate::MAX_INLINE_SIZE {
            Some(base64_text(png))
        } else {
            None
        },
        file: if png.len() <= crate::MAX_INLINE_SIZE {
            None
        } else {
            Some(image_reference(staging_dir, png))
        },
        width,
        height,
        size: png.len() as usize,
    }
}

/// The PNG encoding of a raw image, with its dimensions cut to 32 bits.
pub open spec fn raw_png(image: RawImage) -> Option<Seq<u8>> {
    png_encoding(image.width as u32, image.height as u32, image.bytes@)
}

/// What a write of `content` puts on the clipboard, if it can be written:
/// text as it is, an inlined image as its decoded bytes with the stated
/// dimensions. A file reference, or data that does not decode, cannot.
pub open spec fn write_for(content: ClipboardContentView) -> Option<ClipboardWriteView> {
    match content {
        ClipboardContentView::Text { data, .. } => Some(ClipboardWriteView::Text(data)),
        ClipboardContentView::ImagePng { data: Some(d), width, height, .. } => decoded_write(
            d,
            width,
            height,
        ),
        ClipboardContentView::ImageJpeg { data: Some(d), width, height, .. } => decoded_write(
            d,
            width,
            height,
        ),
        _ => None,
    }
}

/// The write for an image inlined as base64 text, if the text decodes.
pub open spec fn decoded_write(encoded: Seq<char>, width: usize, height: usize) -> Option<
    ClipboardWriteView,
> {
    match base64_bytes(encoded) {
        Some(bytes) => Some(ClipboardWriteView::Image { width, height, bytes }),
        None => None,
    }
}

/// Whether the content is an image whose inlined data does not decode.
pub open spec fn is_undecodable(content: ClipboardContentView) -> bool {
    match content {
        ClipboardContentView::ImagePng { data: Some(d), .. } => base64_bytes(d).is_none(),
        ClipboardContentView::ImageJpeg { data: Some(d), .. } => base64_bytes(d).is_none(),
        _ => false,
    }
}

/// Whether the content refers to a file or holds nothing to write.
pub open spec fn is_file_reference(content: ClipboardContentView) -> bool {
    match content {
        ClipboardContentView::ImagePng { data: None, .. } => true,
        ClipboardContentView::ImageJpeg { data: None, .. } => true,
        _ => false,
    }
}

/// The rules of the clipboard accessor. It knows the staging directory, to
/// refer to images that are too large to inline.
#[derive(Debug)]
pub struct ClipboardManager {
    staging_dir: String,
}

impl ClipboardManager {
    /// The directory that references to large images lead into.
    pub closed spec fn reference_dir(&self) -> Seq<char> {
        self.staging_dir@
    }

    /// The rules without a staging directory: large images are referred to
    /// by their staged file name alone.
    pub fn new() -> (manager: Self)
        ensures
            manager.reference_dir() == Seq::<char>::empty(),
    {
        ClipboardManager { staging_dir: String::new() }
    }

    /// The rules for a daemon that stages in `staging_dir`.
    pub fn with_staging_dir(staging_dir: &str) -> (manager: Self)
        ensures
            manager.reference_dir() == staging_dir@,
    {
        ClipboardManager { staging_dir: String::from_str(staging_dir) }
    }

    /// Turns what was read from the clipboard at time `now` into a snapshot.
    /// An image wins over text; with neither there is no content.
    pub fn get_content(&self, image: Option<RawImage>, text: Option<String>, now: u64) -> (snapshot:
        Result<ClipboardData, ClaudeUtilsError>)
        ensures
            match image {
                Some(img) => match raw_png(img) {
                    Some(png) => snapshot.is_ok() && snapshot.unwrap().content@ == image_content(
                        img.width,
                        img.height,
                        png,
                        self.reference_dir(),
                    ),
                    None => snapshot.is_err() && snapshot.unwrap_err() is ImageProcessing,
                },
                None => match text {
                    Some(t) => snapshot.is_ok() && snapshot.unwrap().content@ == text_content(t@),
                    None => snapshot.is_err() && snapshot.unwrap_err() is Clipboard
                        && snapshot.unwrap_err().message() == "No content in clipboard"@,
                },
            },
            snapshot.is_ok() ==> snapshot.unwrap().metadata.timestamp == now
                && snapshot.unwrap().metadata.source.is_none(),
    {
        match image {
            Some(img) => self.process_image(img, now),
            None => match text {
                Some(t) => Ok(self.process_text(t, now)),
                None => Err(ClaudeUtilsError::Clipboard(String::from_str("No content in clipboard"))),
            },
        }
    }

    /// Decides what a write of `content` puts on the clipboard.
    pub fn set_content(&self, content: &ClipboardContent) -> (write: Result<
        ClipboardWrite,
        ClaudeUtilsError,
    >)
        ensures
            match write_for(content@) {
                Some(w) => write.is_ok() && write.unwrap()@ == w,
                None => write.is_err() && write.unwrap_err() is Clipboard,
            },
            is_file_reference(content@) ==> write.is_err() && write.unwrap_err().message()
                == "Cannot set clipboard from file reference"@,
            is_undecodable(content@) ==> write.is_err() && "Base64 decode error: "@.is_prefix_of(
                write.unwrap_err().message(),
            ),
    {
        match content {
            ClipboardContent::Text { data, .. } => Ok(ClipboardWrite::Text(data.clone())),
            ClipboardContent::ImagePng { data: Some(encoded), width, height, .. } => {
                self.image_write(encoded.as_str(), *width, *height)
            },
            ClipboardContent::ImageJpeg { data: Some(encoded), width, height, .. } => {
                self.image_write(encoded.as_str(), *width, *height)
            },
            _ => Err(
                ClaudeUtilsError::Clipboard(
                    String::from_str("Cannot set clipboard from file reference"),
                ),
            ),
        }
    }

    fn image_write(&self, encoded: &str, width: usize, height: usize) -> (write: Result<
        ClipboardWrite,
        ClaudeUtilsError,
    >)
        ensures
            match decoded_write(encoded@, width, height) {
                Some(w) => write.is_ok() && write.unwrap()@ == w,
                None => write.is_err() && write.unwrap_err() is Clipboard
                    && "Base64 decode error: "@.is_prefix_of(write.unwrap_err().message()),
            },
    {
        match base64_decode(encoded) {
            Ok(bytes) => Ok(ClipboardWrite::Image(RawImage { width, height, bytes })),
            Err(e) => {
                let mut message = String::from_str("Base64 decode error: ");
                let ghost heading = message@;
                message.append(decode_error_text(&e).as_str());
                assert(message@.subrange(0, heading.len() as int) =~= heading);
                Err(ClaudeUtilsError::Clipboard(message))
            },
        }
    }

    /// The snapshot for a text read at time `now`.
    pub fn process_text(&self, text: String, now: u64) -> (snapshot: ClipboardData)
        ensures
            snapshot.content@ == text_content(text@),
            snapshot.metadata.timestamp == now,
            snapshot.metadata.source.is_none(),
    {
        ClipboardData {
            content: ClipboardContent::Text { data: text, truncated: None },
            metadata: ClipboardMetadata { timestamp: now, source: None },
        }
    }

    /// The snapshot for an image read at time `now`: its PNG encoding,
    /// inlined as base64 text while it fits the inline budget, and referred
    /// to by its staged path otherwise.
    pub fn process_image(&self, image: RawImage, now: u64) -> (snapshot: Result<
        ClipboardData,
        ClaudeUtilsError,
    >)
        ensures
            match raw_png(image) {
                Some(png) => snapshot.is_ok() && snapshot.unwrap().content@ == image_content(
                    image.width,
                    image.height,
                    png,
                    self.reference_dir(),
                ) && snapshot.unwrap().metadata.timestamp == now
                    && snapshot.unwrap().metadata.source.is_none(),
                None => snapshot.is_err() && snapshot.unwrap_err() is ImageProcessing,
            },
    {
        let width = image.width;
        let height = image.height;
        match self.get_raw_image(image) {
            Ok(png) => Ok(self.image_snapshot(width, height, png.as_slice(), now)),
            Err(e) => Err(e),
        }
    }

    /// The snapshot for an image of the given dimensions whose PNG file is
    /// `png`, read at time `now`: the file is inlined as base64 text while
    /// it is no larger than the inline budget; a larger one is referred to
    /// by the path it is staged under.
    pub fn image_snapshot(&self, width: usize, height: usize, png: &[u8], now: u64) -> (snapshot:
        ClipboardData)
        ensures
            snapshot.content@ == image_content(width, height, png@, self.reference_dir()),
            snapshot.metadata.timestamp == now,
            snapshot.metadata.source.is_none(),
    {
        let size = png.len();
        let (data, file) = if size <= crate::MAX_INLINE_SIZE {
            (Some(base64_encode(png)), None)
        } else {
            proof {
                reveal_strlit("png");
            }
            let hash = content_hash(png);
            (None, Some(artifact_path(self.staging_dir.as_str(), hash.as_str(), "png")))
        };
        ClipboardData {
            content: ClipboardContent::ImagePng { data, file, width, height, size },
            metadata: ClipboardMetadata { timestamp: now, source: None },
        }
    }

    /// The PNG file for raw pixels read from the clipboard.
    pub fn get_raw_image(&self, image: RawImage) -> (png: Result<Vec<u8>, ClaudeUtilsError>)
        ensures
            match raw_png(image) {
                Some(bytes) => png.is_ok() && png.unwrap()@ == bytes,
                None => png.is_err() && png.unwrap_err() is ImageProcessing,
            },
            image.bytes@.len() < 4 * (image.width as u32) * (image.height as u32) ==> png.is_err(),
    {
        let width = #[verifier::truncate] (image.width as u32);
        let height = #[verifier::truncate] (image.height as u32);
        match encode_rgba_png(width, height, image.bytes) {
            Ok(bytes) => Ok(bytes),
            Err(e) => Err(ClaudeUtilsError::ImageProcessing(image_error_text(&e))),
        }
    }
}

} // verus!
