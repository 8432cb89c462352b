//! Change detection: fingerprints of snapshots, and the watcher's step from
//! one poll to the next.

use vstd::prelude::*;
use vstd::bytes::*;
use vstd::string::*;
use vstd::utf8::encode_utf8;
use crate::clipboard::{text_content, ClipboardContent, ClipboardContentView, ClipboardData};
use crate::clipboard::{ClipboardWrite, ClipboardWriteView};
use crate::hashing::{content_hash, content_hash_of};
use crate::ClaudeUtilsError;

verus! {

/// Events wait in a queue of this many places; the watcher waits for room
/// when it is full.
pub const EVENT_QUEUE_CAPACITY: usize = 100;

/// Milliseconds between two polls unless configured otherwise.
pub const DEFAULT_POLL_INTERVAL_MS: u64 = 500;

/// What the watcher remembers of the last content it reported. The
/// timestamp is in milliseconds since the Unix epoch.
#[derive(Debug, Clone, PartialEq)]
pub struct WatchedContent {
    pub content_hash: String,
    pub timestamp: u64,
    pub content_type: ContentType,
}

/// The kind of a snapshot: text with its size in bytes, or an image with its
/// format, width and height.
#[derive(Debug, Clone, PartialEq)]
pub enum ContentType {
    Text(usize),
    Image(String, usize, usize),
}

/// A [`ContentType`] as plain mathematical values.
pub enum ContentTypeView {
    Text(usize),
    Image(Seq<char>, usize, usize),
}

impl View for ContentType {
    type V = ContentTypeView;

    open spec fn view(&self) -> ContentTypeView {
        match *self {
            ContentType::Text(size) => ContentTypeView::Text(size),
            ContentType::Image(format, width, height) => ContentTypeView::Image(
                format@,
                width,
                height,
            ),
        }
    }
}

/// New clipboard content on its way through the processor.
#[derive(Debug, Clone)]
pub struct ClipboardEvent {
    pub content: ClipboardData,
    pub staged_path: Option<String>,
    pub symlink_path: Option<String>,
}

/// The bytes `text:`.
pub open spec fn text_tag() -> Seq<u8> {
    seq![0x74u8, 0x65u8, 0x78u8, 0x74u8, 0x3au8]
}

/// The bytes `image:`.
pub open spec fn image_tag() -> Seq<u8> {
    seq![0x69u8, 0x6du8, 0x61u8, 0x67u8, 0x65u8, 0x3au8]
}

/// The payload of an image: its inlined data if present, else the path it
/// refers to, else nothing.
pub open spec fn image_payload(data: Option<Seq<char>>, file: Option<Seq<char>>) -> Seq<u8> {
    match data {
        Some(d) => encode_utf8(d),
        None => match file {
            Some(f) => encode_utf8(f),
            None => Seq::empty(),
        },
    }
}

/// The bytes that are hashed for an image: the tag, then width, height and
/// size as 64-bit little-endian integers, then the payload.
pub open spec fn image_input(
    data: Option<Seq<char>>,
    file: Option<Seq<char>>,
    width: usize,
    height: usize,
    size: usize,
) -> Seq<u8> {
    image_tag() + spec_u64_to_le_bytes(width as u64) + spec_u64_to_le_bytes(height as u64)
        + spec_u64_to_le_bytes(size as u64) + image_payload(data, file)
}

/// The bytes that are hashed for a snapshot: a tag for the variant, then
/// what identifies the content. Whether a text was truncated plays no part,
/// nor does the codec of an image.
pub open spec fn fingerprint_input(content: ClipboardContentView) -> Seq<u8> {
    match content {
        ClipboardContentView::Text { data, .. } => text_tag() + encode_utf8(data),
        ClipboardContentView::ImagePng { data, file, width, height, size } => image_input(
            data,
            file,
            width,
            height,
            size,
        ),
        ClipboardContentView::ImageJpeg { data, file, width, height, size } => image_input(
            data,
            file,
            width,
            height,
            size,
        ),
    }
}

/// The fingerprint of a snapshot.
pub open spec fn fingerprint(content: ClipboardContentView) -> Seq<char> {
    content_hash_of(fingerprint_input(content))
}

/// The kind of a snapshot.
pub open spec fn content_type_of(content: ClipboardContentView) -> ContentTypeView {
    match content {
        ClipboardContentView::Text { data, .. } => ContentTypeView::Text(crate::paths::byte_len(data)),
        ClipboardContentView::ImagePng { width, height, .. } => ContentTypeView::Image(
            "png"@,
            width,
            height,
        ),
        ClipboardContentView::ImageJpeg { width, height, .. } => ContentTypeView::Image(
            "jpeg"@,
            width,
            height,
        ),
    }
}

/// Whether a poll that sees `seen` after `last` reports a change: the first
/// content always does, later content only with a new fingerprint.
pub open spec fn is_change(last: Option<Seq<char>>, seen: Seq<char>) -> bool {
    last != Some(seen)
}

/// The fingerprints reported for a series of polls that start from `last`,
/// in order.
pub open spec fn reported(last: Option<Seq<char>>, seen: Seq<Seq<char>>) -> Seq<Seq<char>>
    decreases seen.len(),
{
    if seen.len() == 0 {
        Seq::empty()
    } else {
        let rest = reported(Some(seen[0]), seen.skip(1));
        if is_change(last, seen[0]) {
            seq![seen[0]] + rest
        } else {
            rest
        }
    }
}

/// Identical content gives identical fingerprints, whatever the truncation
/// mark of a text says.
pub proof fn lemma_same_content_same_fingerprint(a: ClipboardContentView, b: ClipboardContentView)
    requires
        a == b || (a is Text && b is Text && a->Text_data == b->Text_data),
    ensures
        fingerprint(a) == fingerprint(b),
{
}

/// Two texts that differ are hashed from different bytes: a collision of
/// their fingerprints would be a collision of SHA-256 itself.
pub proof fn lemma_different_texts_different_input(a: Seq<char>, b: Seq<char>)
    requires
        a != b,
    ensures
        fingerprint_input(text_content(a)) != fingerprint_input(text_content(b)),
{
    broadcast use vstd::utf8::encode_utf8_decode_utf8;

    let x = text_tag() + encode_utf8(a);
    let y = text_tag() + encode_utf8(b);
    if x == y {
        assert(x.skip(5) =~= encode_utf8(a));
        assert(y.skip(5) =~= encode_utf8(b));
        assert(vstd::utf8::decode_utf8(encode_utf8(a)) == a);
        assert(vstd::utf8::decode_utf8(encode_utf8(b)) == b);
    }
}

/// Two images that differ in width, height or size are hashed from
/// different bytes.
pub proof fn lemma_different_dimensions_different_input(
    data: Option<Seq<char>>,
    file: Option<Seq<char>>,
    a: (usize, usize, usize),
    b: (usize, usize, usize),
)
    requires
        a != b,
    ensures
        image_input(data, file, a.0, a.1, a.2) != image_input(data, file, b.0, b.1, b.2),
{
    lemma_auto_spec_u64_to_from_le_bytes();
    let x = image_input(data, file, a.0, a.1, a.2);
    let y = image_input(data, file, b.0, b.1, b.2);
    if x == y {
        assert(x.subrange(6, 14) =~= spec_u64_to_le_bytes(a.0 as u64));
        assert(y.subrange(6, 14) =~= spec_u64_to_le_bytes(b.0 as u64));
        assert(x.subrange(14, 22) =~= spec_u64_to_le_bytes(a.1 as u64));
        assert(y.subrange(14, 22) =~= spec_u64_to_le_bytes(b.1 as u64));
        assert(x.subrange(22, 30) =~= spec_u64_to_le_bytes(a.2 as u64));
        assert(y.subrange(22, 30) =~= spec_u64_to_le_bytes(b.2 as u64));
        assert(spec_u64_from_le_bytes(spec_u64_to_le_bytes(a.0 as u64)) == a.0 as u64);
        assert(spec_u64_from_le_bytes(spec_u64_to_le_bytes(b.0 as u64)) == b.0 as u64);
        assert(spec_u64_from_le_bytes(spec_u64_to_le_bytes(a.1 as u64)) == a.1 as u64);
        assert(spec_u64_from_le_bytes(spec_u64_to_le_bytes(b.1 as u64)) == b.1 as u64);
        assert(spec_u64_from_le_bytes(spec_u64_to_le_bytes(a.2 as u64)) == a.2 as u64);
        assert(spec_u64_from_le_bytes(spec_u64_to_le_bytes(b.2 as u64)) == b.2 as u64);
    }
}

/// Two images of the same dimensions whose inlined data differ are hashed
/// from different bytes.
pub proof fn lemma_different_data_different_input(
    a: Seq<char>,
    b: Seq<char>,
    file: Option<Seq<char>>,
    width: usize,
    height: usize,
    size: usize,
)
    requires
        a != b,
    ensures
        image_input(Some(a), file, width, height, size) != image_input(
            Some(b),
            file,
            width,
            height,
            size,
        ),
{
    broadcast use vstd::utf8::encode_utf8_decode_utf8;

    lemma_auto_spec_u64_to_from_le_bytes();
    let x = image_input(Some(a), file, width, height, size);
    let y = image_input(Some(b), file, width, height, size);
    if x == y {
        assert(x.skip(30) =~= encode_utf8(a));
        assert(y.skip(30) =~= encode_utf8(b));
        assert(vstd::utf8::decode_utf8(encode_utf8(a)) == a);
        assert(vstd::utf8::decode_utf8(encode_utf8(b)) == b);
    }
}

/// Polls that see `a, a, b, b, a` with two different fingerprints report
/// exactly `a, b, a`.
pub proof fn lemma_repeats_are_reported_once(a: Seq<char>, b: Seq<char>)
    requires
        a != b,
    ensures
        reported(None, seq![a, a, b, b, a]) == seq![a, b, a],
{
    let s5 = seq![a, a, b, b, a];
    let s4 = seq![a, b, b, a];
    let s3 = seq![b, b, a];
    let s2 = seq![b, a];
    let s1 = seq![a];
    let s0 = Seq::<Seq<char>>::empty();
    assert(s5.skip(1) =~= s4);
    assert(s4.skip(1) =~= s3);
    assert(s3.skip(1) =~= s2);
    assert(s2.skip(1) =~= s1);
    assert(s1.skip(1) =~= s0);
    assert(reported(Some(a), s0) =~= s0);
    assert(reported(Some(b), s1) =~= seq![a]);
    assert(reported(Some(b), s2) =~= seq![a]);
    assert(reported(Some(a), s3) =~= seq![b, a]);
    assert(reported(Some(a), s4) =~= seq![b, a]);
    assert(reported(None, s5) =~= seq![a, b, a]);
}

/// No fingerprint is reported twice in a row, and the first one reported
/// differs from the last one seen before.
pub proof fn lemma_reported_never_repeats(last: Option<Seq<char>>, seen: Seq<Seq<char>>)
    ensures
        reported(last, seen).len() > 0 ==> last != Some(reported(last, seen)[0]),
        forall|i: int|
            0 <= i < reported(last, seen).len() - 1 ==> (#[trigger] reported(last, seen)[i])
                != reported(last, seen)[i + 1],
    decreases seen.len(),
{
    if seen.len() > 0 {
        lemma_reported_never_repeats(Some(seen[0]), seen.skip(1));
        lemma_reported_never_repeats_first(Some(seen[0]), seen.skip(1));
    }
}

proof fn lemma_reported_never_repeats_first(last: Option<Seq<char>>, seen: Seq<Seq<char>>)
    ensures
        reported(last, seen).len() > 0 ==> last != Some(reported(last, seen)[0]),
    decreases seen.len(),
{
    if seen.len() > 0 {
        lemma_reported_never_repeats_first(Some(seen[0]), seen.skip(1));
    }
}

/// The change detector. It owns what was last reported; nothing else
/// changes it.
#[derive(Debug)]
pub struct ClipboardWatcher {
    last_content: Option<WatchedContent>,
    poll_interval: u64,
}

impl ClipboardWatcher {
    /// The fingerprint last reported, if any.
    pub closed spec fn last_fingerprint(&self) -> Option<Seq<char>> {
        match self.last_content {
            Some(w) => Some(w.content_hash@),
            None => None,
        }
    }

    /// When the last report was made, if any was.
    pub closed spec fn last_seen_at(&self) -> Option<u64> {
        match self.last_content {
            Some(w) => Some(w.timestamp),
            None => None,
        }
    }

    /// The kind of the content last reported, if any.
    pub closed spec fn last_type(&self) -> Option<ContentTypeView> {
        match self.last_content {
            Some(w) => Some(w.content_type@),
            None => None,
        }
    }

    /// Milliseconds between two polls.
    pub closed spec fn interval(&self) -> u64 {
        self.poll_interval
    }

    /// A watcher that has reported nothing yet.
    pub fn new(poll_interval: u64) -> (watcher: Self)
        ensures
            watcher.last_fingerprint().is_none(),
            watcher.last_seen_at().is_none(),
            watcher.last_type().is_none(),
            watcher.interval() == poll_interval,
    {
        ClipboardWatcher { last_content: None, poll_interval }
    }

    /// Milliseconds between two polls.
    pub fn poll_interval(&self) -> (interval: u64)
        ensures
            interval == self.interval(),
    {
        self.poll_interval
    }

    /// The fingerprint last reported, if any.
    pub fn last_hash(&self) -> (hash: Option<String>)
        ensures
            crate::paths::opt_text(hash) == self.last_fingerprint(),
    {
        match &self.last_content {
            Some(w) => Some(w.content_hash.clone()),
            None => None,
        }
    }

    /// One poll at time `now`. `current` is what reading the clipboard gave;
    /// a failed read changes nothing and reports nothing. Content with the
    /// fingerprint last reported changes nothing either. Anything else is
    /// remembered and reported as an event.
    pub fn check_clipboard(&mut self, current: Result<ClipboardData, ClaudeUtilsError>, now: u64) -> (event:
        Option<ClipboardEvent>)
        ensures
            final(self).interval() == old(self).interval(),
            match current {
                Ok(data) => if is_change(old(self).last_fingerprint(), fingerprint(data.content@)) {
                    &&& final(self).last_fingerprint() == Some(fingerprint(data.content@))
                    &&& final(self).last_seen_at() == Some(now)
                    &&& final(self).last_type() == Some(content_type_of(data.content@))
                    &&& event.is_some()
                    &&& event.unwrap().content == data
                    &&& event.unwrap().staged_path.is_none()
                    &&& event.unwrap().symlink_path.is_none()
                } else {
                    event.is_none() && *final(self) == *old(self)
                },
                Err(_) => event.is_none() && *final(self) == *old(self),
            },
    {
        let data = match current {
            Ok(data) => data,
            Err(_) => {
                return None;
            },
        };
        let content_hash = self.calculate_content_hash(&data.content);
        let changed = match &self.last_content {
            Some(previous) => !crate::paths::same_text(
                previous.content_hash.as_str(),
                content_hash.as_str(),
            ),
            None => true,
        };
        if !changed {
            return None;
        }
        let content_type = self.get_content_type(&data.content);
        self.last_content = Some(WatchedContent { content_hash, timestamp: now, content_type });
        Some(ClipboardEvent { content: data, staged_path: None, symlink_path: None })
    }

    /// The fingerprint of a snapshot's content.
    pub fn calculate_content_hash(&self, content: &ClipboardContent) -> (hash: String)
        ensures
            hash@ == fingerprint(content@),
    {
        let input = fingerprint_bytes(content);
        content_hash(input.as_slice())
    }

    /// The kind of a snapshot's content.
    pub fn get_content_type(&self, content: &ClipboardContent) -> (kind: ContentType)
        ensures
            kind@ == content_type_of(content@),
    {
        match content {
            ClipboardContent::Text { data, .. } => ContentType::Text(data.as_str().len()),
            ClipboardContent::ImagePng { width, height, .. } => ContentType::Image(
                String::from_str("png"),
                *width,
                *height,
            ),
            ClipboardContent::ImageJpeg { width, height, .. } => ContentType::Image(
                String::from_str("jpeg"),
                *width,
                *height,
            ),
        }
    }
}

/// The bytes a snapshot's fingerprint is the hash of.
pub fn fingerprint_bytes(content: &ClipboardContent) -> (input: Vec<u8>)
    ensures
        input@ == fingerprint_input(content@),
{
    let mut input: Vec<u8> = Vec::new();
    match content {
        ClipboardContent::Text { data, .. } => {
            input.push(0x74u8);
            input.push(0x65u8);
            input.push(0x78u8);
            input.push(0x74u8);
            input.push(0x3au8);
            let mut payload = data.as_str().as_bytes_vec();
            input.append(&mut payload);
            assert(input@ =~= fingerprint_input(content@));
        },
        ClipboardContent::ImagePng { data, file, width, height, size } => {
            image_bytes(&mut input, data, file, *width, *height, *size);
        },
        ClipboardContent::ImageJpeg { data, file, width, height, size } => {
            image_bytes(&mut input, data, file, *width, *height, *size);
        },
    }
    input
}

fn image_bytes(
    input: &mut Vec<u8>,
    data: &Option<String>,
    file: &Option<String>,
    width: usize,
    height: usize,
    size: usize,
)
    requires
        old(input)@.len() == 0,
    ensures
        final(input)@ == image_input(
            crate::paths::opt_text(*data),
            crate::paths::opt_text(*file),
            width,
            height,
            size,
        ),
{
    input.push(0x69u8);
    input.push(0x6du8);
    input.push(0x61u8);
    input.push(0x67u8);
    input.push(0x65u8);
    input.push(0x3au8);
    assert(input@ =~= image_tag());
    let mut w = u64_to_le_bytes(width as u64);
    let mut h = u64_to_le_bytes(height as u64);
    let mut s = u64_to_le_bytes(size as u64);
    input.append(&mut w);
    input.append(&mut h);
    input.append(&mut s);
    match data {
        Some(d) => {
            let mut payload = d.as_str().as_bytes_vec();
            input.append(&mut payload);
        },
        None => match file {
            Some(f) => {
                let mut payload = f.as_str().as_bytes_vec();
                input.append(&mut payload);
            },
            None => {
                assert(input@ + Seq::<u8>::empty() =~= input@);
            },
        },
    }
}

/// Presents a path as text and an image at once, for a platform that can
/// show both.
pub struct DualClipboard {}

impl DualClipboard {
    /// What is written to the clipboard to present `path` together with the
    /// image it leads to: the path as text and the image file as it is.
    pub fn set_dual_content(path: &str, image_data: &[u8]) -> (write: ClipboardWrite)
        ensures
            write@ == (ClipboardWriteView::TextAndImage { text: path@, image: image_data@ }),
    {
        ClipboardWrite::TextAndImage {
            text: String::from_str(path),
            image: vstd::slice::slice_to_vec(image_data),
        }
    }
}

} // verus!
