//! What the protocol server takes from the core: the token a request
//! presents, and the snapshot content it reports or is asked to set.

use vstd::prelude::*;
use vstd::string::*;
use crate::clipboard::processor::opt_str;
use crate::clipboard::{ClipboardContent, ClipboardContentView};
use crate::paths::{same_text, starts_with};
use crate::ClaudeUtilsError;

verus! {

/// The query of a request to the event stream.
#[derive(Debug)]
pub struct AuthQuery {
    pub token: Option<String>,
}

impl AuthQuery {
    /// The token the query presents, if any.
    pub fn presented(&self) -> (token: Option<&str>)
        ensures
            opt_str(token) == crate::paths::opt_text(self.token),
    {
        match &self.token {
            Some(t) => Some(t.as_str()),
            None => None,
        }
    }
}

/// The token in an `Authorization` header: what follows `Bearer `.
pub open spec fn bearer_of(header: Seq<char>) -> Option<Seq<char>> {
    if "Bearer "@.is_prefix_of(header) {
        Some(header.skip("Bearer "@.len() as int))
    } else {
        None
    }
}

/// Reads the token out of an `Authorization` header.
pub fn bearer_token(header: &str) -> (token: Option<&str>)
    ensures
        opt_str(token) == bearer_of(header@),
{
    if starts_with(header, "Bearer ") {
        proof {
            reveal_strlit("Bearer ");
        }
        let n = header.unicode_len();
        let rest = header.substring_char(7, n);
        assert(rest@ =~= header@.skip(7));
        Some(rest)
    } else {
        None
    }
}

/// An image snapshot without inlined data is reported by the path of its
/// staged file.
pub open spec fn needs_staging_of(content: ClipboardContentView) -> bool {
    match content {
        ClipboardContentView::ImagePng { data: None, .. } => true,
        ClipboardContentView::ImageJpeg { data: None, .. } => true,
        _ => false,
    }
}

/// The snapshot as it is reported once its image is staged at `path`.
pub open spec fn staged_content_of(content: ClipboardContentView, path: Seq<char>) -> ClipboardContentView {
    match content {
        ClipboardContentView::ImagePng {
            data: None,
            width,
            height,
            size,
            ..
        } => ClipboardContentView::ImagePng { data: None, file: Some(path), width, height, size },
        ClipboardContentView::ImageJpeg {
            data: None,
            width,
            height,
            size,
            ..
        } => ClipboardContentView::ImageJpeg { data: None, file: Some(path), width, height, size },
        _ => content,
    }
}

/// Whether a snapshot has to be staged before it is reported.
pub fn needs_staging(content: &ClipboardContent) -> (needed: bool)
    ensures
        needed == needs_staging_of(content@),
{
    match content {
        ClipboardContent::ImagePng { data: None, .. } => true,
        ClipboardContent::ImageJpeg { data: None, .. } => true,
        _ => false,
    }
}

/// Puts the path of the staged file into an image snapshot without inlined
/// data; any other snapshot is reported as it is.
pub fn with_staged_file(content: &ClipboardContent, path: &str) -> (reported: ClipboardContent)
    ensures
        reported@ == staged_content_of(content@, path@),
{
    match content {
        ClipboardContent::ImagePng {
            data: None,
            width,
            height,
            size,
            ..
        } => ClipboardContent::ImagePng {
            data: None,
            file: Some(String::from_str(path)),
            width: *width,
            height: *height,
            size: *size,
        },
        ClipboardContent::ImageJpeg {
            data: None,
            width,
            height,
            size,
            ..
        } => ClipboardContent::ImageJpeg {
            data: None,
            file: Some(String::from_str(path)),
            width: *width,
            height: *height,
            size: *size,
        },
        _ => content.clone(),
    }
}

/// The content a request to set the clipboard asks for, by its media type:
/// plain text as it is, a PNG as inlined data whose dimensions are not yet
/// known. No other type is supported.
pub open spec fn requested_content_of(media_type: Seq<char>, data: Seq<char>) -> Option<
    ClipboardContentView,
> {
    if media_type == "text/plain"@ {
        Some(ClipboardContentView::Text { data, truncated: None })
    } else if media_type == "image/png"@ {
        Some(
            ClipboardContentView::ImagePng { data: Some(data), file: None, width: 0, height: 0, size: 0 },
        )
    } else {
        None
    }
}

/// Builds the content for a request to set the clipboard.
pub fn requested_content(media_type: &str, data: String) -> (content: Result<
    ClipboardContent,
    ClaudeUtilsError,
>)
    ensures
        match requested_content_of(media_type@, data@) {
            Some(c) => content.is_ok() && content.unwrap()@ == c,
            None => content.is_err() && content.unwrap_err() is McpProtocol
                && content.unwrap_err().message() == "Unsupported type: "@ + media_type@,
        },
{
    if same_text(media_type, "text/plain") {
        Ok(ClipboardContent::Text { data, truncated: None })
    } else if same_text(media_type, "image/png") {
        Ok(ClipboardContent::ImagePng { data: Some(data), file: None, width: 0, height: 0, size: 0 })
    } else {
        let mut message = String::from_str("Unsupported type: ");
        message.append(media_type);
        Err(ClaudeUtilsError::McpProtocol(message))
    }
}

} // verus!
