//! Content-addressed staging: artifact naming, the in-memory index, and
//! age-based eviction. The filesystem is the source of truth; the index only
//! speeds lookups up and is never trusted without a liveness probe.

use std::io::Cursor;
use vstd::prelude::*;
use vstd::string::*;
use crate::hashing::{content_hash, content_hash_of};
use crate::paths::{join, join_path, opt_text, same_text, texts};

verus! {

/// A payload held in the staging directory. Times are milliseconds since the
/// Unix epoch.
#[derive(Debug)]
pub struct StagedFile {
    pub path: String,
    pub size: usize,
    pub format: String,
    pub created_at: u64,
    pub thumbnail_path: Option<String>,
}

/// What a [`StagedFile`] holds, as plain mathematical values.
pub struct StagedFileView {
    pub path: Seq<char>,
    pub size: usize,
    pub format: Seq<char>,
    pub created_at: u64,
    pub thumbnail_path: Option<Seq<char>>,
}

impl View for StagedFile {
    type V = StagedFileView;

    open spec fn view(&self) -> StagedFileView {
        StagedFileView {
            path: self.path@,
            size: self.size,
            format: self.format@,
            created_at: self.created_at,
            thumbnail_path: opt_text(self.thumbnail_path),
        }
    }
}

impl Clone for StagedFile {
    fn clone(&self) -> (copy: Self)
        ensures
            copy == *self,
    {
        let thumbnail_path = match &self.thumbnail_path {
            Some(p) => Some(p.clone()),
            None => None,
        };
        StagedFile {
            path: self.path.clone(),
            size: self.size,
            format: self.format.clone(),
            created_at: self.created_at,
            thumbnail_path,
        }
    }
}

/// Where artifacts are staged and how long they live. Durations are in
/// milliseconds.
#[derive(Debug)]
pub struct FileManagerConfig {
    pub staging_dir: String,
    pub cleanup_interval: u64,
    pub max_file_age: u64,
}

impl Clone for FileManagerConfig {
    fn clone(&self) -> (copy: Self)
        ensures
            copy == *self,
    {
        FileManagerConfig {
            staging_dir: self.staging_dir.clone(),
            cleanup_interval: self.cleanup_interval,
            max_file_age: self.max_file_age,
        }
    }
}

/// The default interval and maximum age: fifteen minutes, in milliseconds.
pub open spec fn default_interval_ms() -> u64 {
    900000
}

impl FileManagerConfig {
    /// The default configuration for a machine whose temporary directory is
    /// `temp_dir`: a `claude_utils` directory below it, a cleanup every
    /// fifteen minutes, and a maximum age of fifteen minutes.
    pub fn with_temp_dir(temp_dir: &str) -> (config: Self)
        ensures
            config.staging_dir@ == join_path(temp_dir@, crate::STAGING_DIR_NAME@),
            config.cleanup_interval == default_interval_ms(),
            config.max_file_age == default_interval_ms(),
    {
        let interval: u64 = crate::CLEANUP_INTERVAL_MINS * 60 * 1000;
        FileManagerConfig {
            staging_dir: join(temp_dir, crate::STAGING_DIR_NAME),
            cleanup_interval: interval,
            max_file_age: interval,
        }
    }
}

/// The file name of an artifact: `clip-`, the first eight digits of the
/// content hash, a dot, and the extension.
pub open spec fn staged_name(hash: Seq<char>, extension: Seq<char>) -> Seq<char> {
    seq!['c', 'l', 'i', 'p', '-'] + hash.take(8) + seq!['.'] + extension
}

/// The file name of an artifact's thumbnail: the first eight digits of the
/// content hash followed by `.thumb.png`.
pub open spec fn thumbnail_name(hash: Seq<char>) -> Seq<char> {
    hash.take(8) + seq!['.', 't', 'h', 'u', 'm', 'b', '.', 'p', 'n', 'g']
}

/// The kinds a thumbnail is attempted for.
pub open spec fn is_raster_kind(format: Seq<char>) -> bool {
    format == "png"@ || format == "jpg"@ || format == "jpeg"@ || format == "gif"@ || format
        == "webp"@ || format == "bmp"@
}

/// The extension of staged text.
pub open spec fn text_kind() -> Seq<char> {
    seq!['t', 'x', 't']
}

/// An entry is fresh while it was created in the past and is no older than
/// `max_age`: the threshold an on-disk file is held to.
pub open spec fn is_fresh(created_at: u64, now: u64, max_age: u64) -> bool {
    created_at <= now && now - created_at <= max_age
}

/// The entries of an index that are still fresh.
pub open spec fn fresh_part(
    index: Map<Seq<char>, StagedFileView>,
    now: u64,
    max_age: u64,
) -> Map<Seq<char>, StagedFileView> {
    Map::new(
        |k: Seq<char>| index.contains_key(k) && is_fresh(index[k].created_at, now, max_age),
        |k: Seq<char>| index[k],
    )
}

/// A file found in the staging directory, with the time since it was last
/// modified, in milliseconds.
#[derive(Debug)]
pub struct FileAge {
    pub path: String,
    pub age: u64,
}

/// The paths of the listed files that are older than `max_age`, in listing
/// order.
pub open spec fn expired_paths(listing: Seq<FileAge>, max_age: u64) -> Seq<Seq<char>>
    decreases listing.len(),
{
    if listing.len() == 0 {
        Seq::empty()
    } else {
        let rest = expired_paths(listing.drop_last(), max_age);
        if listing.last().age > max_age {
            rest.push(listing.last().path@)
        } else {
            rest
        }
    }
}

/// What the index files an artifact under: its content hash and its kind,
/// written with a dot between them. The same payload staged as another kind
/// is another artifact.
pub open spec fn index_key(hash: Seq<char>, format: Seq<char>) -> Seq<char> {
    hash + seq!['.'] + format
}

/// Hashes of one length and kinds give the same key only if they are the
/// same hash and the same kind.
pub proof fn lemma_index_key_distinguishes(
    hash_a: Seq<char>,
    format_a: Seq<char>,
    hash_b: Seq<char>,
    format_b: Seq<char>,
)
    requires
        hash_a.len() == hash_b.len(),
        index_key(hash_a, format_a) == index_key(hash_b, format_b),
    ensures
        hash_a == hash_b,
        format_a == format_b,
{
    let ka = index_key(hash_a, format_a);
    let kb = index_key(hash_b, format_b);
    let n = hash_a.len() as int;
    assert(ka.take(n) =~= hash_a);
    assert(kb.take(n) =~= hash_b);
    assert(ka.skip(n + 1) =~= format_a);
    assert(kb.skip(n + 1) =~= format_b);
}

/// What staging a payload will produce: its content hash, the artifact's
/// path, and where a thumbnail goes if the kind calls for one.
#[derive(Debug)]
pub struct StageRequest {
    pub hash: String,
    pub path: String,
    pub size: usize,
    pub format: String,
    pub thumbnail_path: Option<String>,
}

/// The request for a payload with a given content hash and size under a
/// staging directory.
pub open spec fn is_request_named(
    request: StageRequest,
    staging_dir: Seq<char>,
    hash: Seq<char>,
    size: usize,
    format: Seq<char>,
    with_thumbnail: bool,
) -> bool {
    &&& request.hash@ == hash
    &&& request.path@ == join_path(staging_dir, staged_name(hash, format))
    &&& request.size == size
    &&& request.format@ == format
    &&& opt_text(request.thumbnail_path) == if with_thumbnail {
        Some(join_path(staging_dir, thumbnail_name(hash)))
    } else {
        None
    }
}

/// The request that a payload of a kind gives under a staging directory.
pub open spec fn is_request_for(
    request: StageRequest,
    staging_dir: Seq<char>,
    data: Seq<u8>,
    format: Seq<char>,
    with_thumbnail: bool,
) -> bool {
    &&& request.size == data.len()
    &&& is_request_named(
        request,
        staging_dir,
        content_hash_of(data),
        request.size,
        format,
        with_thumbnail,
    )
}

/// Whether a request is served from the index or needs a disk write.
#[derive(Debug)]
pub enum StageAction {
    /// The artifact is indexed and its file is still there.
    Reuse(StagedFile),
    /// The payload has to be written to the request's path.
    Write,
}

/// The key a request is looked up and recorded under.
pub open spec fn request_key(request: StageRequest) -> Seq<char> {
    index_key(request.hash@, request.format@)
}

/// The indexed artifact a request with the given key is served with, if
/// any: an index hit counts only while the backing file exists.
pub open spec fn reusable(
    index: Map<Seq<char>, StagedFileView>,
    key: Seq<char>,
    file_exists: bool,
) -> Option<StagedFileView> {
    if file_exists && index.contains_key(key) {
        Some(index[key])
    } else {
        None
    }
}

/// The artifact recorded when a request's payload has been written.
pub open spec fn committed(request: StageRequest, now: u64, thumbnail_saved: bool) -> StagedFileView {
    StagedFileView {
        path: request.path@,
        size: request.size,
        format: request.format@,
        created_at: now,
        thumbnail_path: if thumbnail_saved {
            opt_text(request.thumbnail_path)
        } else {
            None
        },
    }
}

struct CacheEntry {
    key: String,
    file: StagedFile,
}

spec fn distinct_keys(entries: Seq<CacheEntry>) -> bool {
    forall|i: int, j: int|
        #![trigger entries[i], entries[j]]
        0 <= i < j < entries.len() ==> entries[i].key@ != entries[j].key@
}

spec fn index_of(entries: Seq<CacheEntry>) -> Map<Seq<char>, StagedFileView> {
    Map::new(
        |k: Seq<char>| exists|i: int| 0 <= i < entries.len() && (#[trigger] entries[i]).key@ == k,
        |k: Seq<char>|
            entries[choose|i: int| 0 <= i < entries.len() && (#[trigger] entries[i]).key@ == k].file@,
    )
}

proof fn lemma_index_at(entries: Seq<CacheEntry>, i: int)
    requires
        distinct_keys(entries),
        0 <= i < entries.len(),
    ensures
        index_of(entries).contains_key(entries[i].key@),
        index_of(entries)[entries[i].key@] == entries[i].file@,
{
    let k = entries[i].key@;
    let c = choose|c: int| 0 <= c < entries.len() && (#[trigger] entries[c]).key@ == k;
    assert(entries[c].key@ == k);
    if c < i {
        assert(entries[c].key@ != entries[i].key@);
    } else if i < c {
        assert(entries[i].key@ != entries[c].key@);
    }
}

spec fn retained(entries: Seq<CacheEntry>, now: u64, max_age: u64) -> Seq<CacheEntry>
    decreases entries.len(),
{
    if entries.len() == 0 {
        Seq::empty()
    } else {
        let rest = retained(entries.drop_last(), now, max_age);
        if is_fresh(entries.last().file.created_at, now, max_age) {
            rest.push(entries.last())
        } else {
            rest
        }
    }
}

proof fn lemma_retained(entries: Seq<CacheEntry>, now: u64, max_age: u64)
    requires
        distinct_keys(entries),
    ensures
        distinct_keys(retained(entries, now, max_age)),
        forall|j: int|
            0 <= j < retained(entries, now, max_age).len() ==> exists|i: int|
                0 <= i < entries.len() && (#[trigger] entries[i]) == (#[trigger] retained(
                    entries,
                    now,
                    max_age,
                )[j]) && is_fresh(entries[i].file.created_at, now, max_age),
        forall|i: int|
            0 <= i < entries.len() && is_fresh((#[trigger] entries[i]).file.created_at, now, max_age)
                ==> exists|j: int|
                0 <= j < retained(entries, now, max_age).len() && (#[trigger] retained(
                    entries,
                    now,
                    max_age,
                )[j]) == entries[i],
    decreases entries.len(),
{
    if entries.len() > 0 {
        let head = entries.drop_last();
        let last = entries.last();
        assert(distinct_keys(head)) by {
            assert forall|i: int, j: int| 0 <= i < j < head.len() implies (#[trigger] head[i]).key@
                != (#[trigger] head[j]).key@ by {
                assert(entries[i].key@ != entries[j].key@);
            }
        }
        lemma_retained(head, now, max_age);
        let rest = retained(head, now, max_age);
        let out = retained(entries, now, max_age);
        assert forall|j: int| 0 <= j < out.len() implies exists|i: int|
            0 <= i < entries.len() && (#[trigger] entries[i]) == (#[trigger] out[j]) && is_fresh(
                entries[i].file.created_at,
                now,
                max_age,
            ) by {
            if j < rest.len() {
                assert(out[j] == rest[j]);
                let i = choose|i: int|
                    0 <= i < head.len() && (#[trigger] head[i]) == rest[j] && is_fresh(
                        head[i].file.created_at,
                        now,
                        max_age,
                    );
                assert(entries[i] == out[j]);
            } else {
                assert(entries[entries.len() - 1] == out[j]);
            }
        }
        assert forall|i: int|
            0 <= i < entries.len() && is_fresh(
                (#[trigger] entries[i]).file.created_at,
                now,
                max_age,
            ) implies exists|j: int| 0 <= j < out.len() && (#[trigger] out[j]) == entries[i] by {
            if i < head.len() {
                assert(head[i] == entries[i]);
                let j = choose|j: int| 0 <= j < rest.len() && (#[trigger] rest[j]) == head[i];
                assert(out[j] == entries[i]);
            } else {
                assert(out[out.len() - 1] == entries[i]);
            }
        }
        assert forall|a: int, b: int| 0 <= a < b < out.len() implies (#[trigger] out[a]).key@
            != (#[trigger] out[b]).key@ by {
            if b < rest.len() {
                assert(out[a] == rest[a] && out[b] == rest[b]);
            } else {
                assert(out[b] == last);
                assert(out[a] == rest[a]);
                let i = choose|i: int|
                    0 <= i < head.len() && (#[trigger] head[i]) == rest[a] && is_fresh(
                        head[i].file.created_at,
                        now,
                        max_age,
                    );
                assert(entries[i].key@ != entries[entries.len() - 1].key@);
            }
        }
    }
}

proof fn lemma_retained_index(entries: Seq<CacheEntry>, now: u64, max_age: u64)
    requires
        distinct_keys(entries),
    ensures
        index_of(retained(entries, now, max_age)) == fresh_part(index_of(entries), now, max_age),
{
    let out = retained(entries, now, max_age);
    lemma_retained(entries, now, max_age);
    let a = index_of(out);
    let b = fresh_part(index_of(entries), now, max_age);
    assert forall|k: Seq<char>| a.contains_key(k) implies b.contains_key(k) && a[k] == b[k] by {
        let j = choose|j: int| 0 <= j < out.len() && (#[trigger] out[j]).key@ == k;
        let i = choose|i: int|
            0 <= i < entries.len() && (#[trigger] entries[i]) == out[j] && is_fresh(
                entries[i].file.created_at,
                now,
                max_age,
            );
        lemma_index_at(entries, i);
        lemma_index_at(out, j);
    }
    assert forall|k: Seq<char>| b.contains_key(k) implies a.contains_key(k) by {
        let i = choose|i: int| 0 <= i < entries.len() && (#[trigger] entries[i]).key@ == k;
        lemma_index_at(entries, i);
        let j = choose|j: int| 0 <= j < out.len() && (#[trigger] out[j]) == entries[i];
        lemma_index_at(out, j);
    }
    assert(a =~= b);
}

/// Replacing the entry of a key, or adding an entry for a key that has
/// none, keeps keys distinct and changes the index at that key alone.
proof fn lemma_entry_recorded(before: Seq<CacheEntry>, after: Seq<CacheEntry>, at: int, entry: CacheEntry)
    requires
        distinct_keys(before),
        0 <= at <= before.len(),
        at < before.len() ==> before[at].key@ == entry.key@ && after == before.update(at, entry),
        at == before.len() ==> after == before.push(entry) && forall|j: int|
            0 <= j < before.len() ==> (#[trigger] before[j]).key@ != entry.key@,
    ensures
        distinct_keys(after),
        index_of(after) == index_of(before).insert(entry.key@, entry.file@),
{
    let key = entry.key@;
    assert(after.len() > at && after[at] == entry);
    assert forall|a: int, b: int| 0 <= a < b < after.len() implies (#[trigger] after[a]).key@ != (
    #[trigger] after[b]).key@ by {
        if a != at && b != at {
            assert(after[a] == before[a] && after[b] == before[b]);
        } else if a == at {
            assert(after[b] == before[b]);
            assert(before[at].key@ != before[b].key@);
        } else {
            assert(after[a] == before[a]);
            if at < before.len() {
                assert(before[a].key@ != before[at].key@);
            }
        }
    }
    let m1 = index_of(after);
    let m2 = index_of(before).insert(key, entry.file@);
    assert forall|k: Seq<char>| m1.contains_key(k) implies m2.contains_key(k) && m1[k] == m2[k] by {
        let c = choose|c: int| 0 <= c < after.len() && (#[trigger] after[c]).key@ == k;
        lemma_index_at(after, c);
        if c != at {
            assert(after[c] == before[c]);
            lemma_index_at(before, c);
        }
    }
    assert forall|k: Seq<char>| m2.contains_key(k) implies m1.contains_key(k) by {
        if k == key {
            lemma_index_at(after, at);
        } else {
            let c = choose|c: int| 0 <= c < before.len() && (#[trigger] before[c]).key@ == k;
            assert(after[c] == before[c]);
            lemma_index_at(after, c);
        }
    }
    assert(m1 =~= m2);
}

/// A reduced copy of an image, as a PNG file.
#[derive(Debug)]
pub struct Thumbnail {
    pub width: u32,
    pub height: u32,
    pub png: Vec<u8>,
}

/// The dimensions of the thumbnail that the `image` crate renders from a
/// payload within the given bounds, or `None` where the payload does not
/// decode or the thumbnail does not encode.
pub uninterp spec fn thumbnail_size(data: Seq<u8>, max_width: u32, max_height: u32) -> Option<
    (u32, u32),
>;

/// Calls `image::load_from_memory`, `DynamicImage::resize` to fit the given
/// bounds with the Lanczos3 filter, and `DynamicImage::write_to` as PNG into
/// memory; the dimensions come from `width` and `height` of the resized
/// image. `None` stands for a payload that does not decode or a thumbnail
/// that does not encode. The contract names the dimensions, which depend on
/// the payload and the bounds alone, and claims what `resize` documents: the
/// result fits within the bounds. Bounds of zero are left out, since the
/// result is never narrower or lower than one pixel. Nothing is claimed of
/// the bytes.
#[verifier::external_body]
fn render_thumbnail(data: &[u8], max_width: u32, max_height: u32) -> (thumbnail: Option<Thumbnail>)
    requires
        max_width >= 1,
        max_height >= 1,
    ensures
        match thumbnail {
            Some(t) => thumbnail_size(data@, max_width, max_height) == Some((t.width, t.height)),
            None => thumbnail_size(data@, max_width, max_height).is_none(),
        },
        thumbnail.is_some() ==> thumbnail.unwrap().width <= max_width && thumbnail.unwrap().height
            <= max_height,
{
    let img = image::load_from_memory(data).ok()?;
    let thumb = img.resize(max_width, max_height, image::imageops::FilterType::Lanczos3);
    let mut png: Vec<u8> = Vec::new();
    thumb.write_to(&mut Cursor::new(&mut png), image::ImageFormat::Png).ok()?;
    Some(Thumbnail { width: thumb.width(), height: thumb.height(), png })
}

/// The widest and highest a thumbnail gets, in pixels.
pub const THUMBNAIL_BOUND: u32 = 256;

/// The dimensions of the thumbnail of a payload, if it has one.
pub open spec fn thumbnail_size_of(data: Seq<u8>) -> Option<(u32, u32)> {
    thumbnail_size(data, THUMBNAIL_BOUND, THUMBNAIL_BOUND)
}

/// The staging store: configuration plus the index from content hash and
/// kind to artifact.
pub struct FileManager {
    config: FileManagerConfig,
    cache: Vec<CacheEntry>,
}

impl FileManager {
    /// The store's configuration.
    pub closed spec fn config(&self) -> FileManagerConfig {
        self.config
    }

    /// The index: each key, made of content hash and kind, with the
    /// artifact recorded for it.
    pub closed spec fn index(&self) -> Map<Seq<char>, StagedFileView> {
        index_of(self.cache@)
    }

    /// No key is indexed twice. Every store this module hands out
    /// is well formed, and every operation keeps it so.
    pub closed spec fn wf(&self) -> bool {
        distinct_keys(self.cache@)
    }

    /// A store with an empty index.
    pub fn new(config: FileManagerConfig) -> (manager: Self)
        ensures
            manager.wf(),
            manager.config() == config,
            manager.index() == Map::<Seq<char>, StagedFileView>::empty(),
    {
        let manager = FileManager { config, cache: Vec::new() };
        assert(manager.index() =~= Map::<Seq<char>, StagedFileView>::empty());
        manager
    }

    /// The directory artifacts are staged in.
    pub fn get_staging_dir(&self) -> (dir: &str)
        ensures
            dir@ == self.config().staging_dir@,
    {
        self.config.staging_dir.as_str()
    }

    /// Milliseconds between two eviction cycles.
    pub fn cleanup_interval(&self) -> (interval: u64)
        ensures
            interval == self.config().cleanup_interval,
    {
        self.config.cleanup_interval
    }

    /// The content hash that artifacts are named by and, with their kind,
    /// indexed by.
    pub fn calculate_hash(&self, data: &[u8]) -> (hash: String)
        ensures
            hash@ == content_hash_of(data@),
    {
        content_hash(data)
    }

    /// Looks a key up in the index.
    pub fn get_from_cache(&self, key: &str) -> (found: Option<StagedFile>)
        requires
            self.wf(),
        ensures
            opt_file(found) == (if self.index().contains_key(key@) {
                Some(self.index()[key@])
            } else {
                None
            }),
    {
        let mut i: usize = 0;
        while i < self.cache.len()
            invariant
                i <= self.cache.len(),
                distinct_keys(self.cache@),
                forall|j: int| 0 <= j < i ==> (#[trigger] self.cache@[j]).key@ != key@,
            decreases self.cache.len() - i,
        {
            if same_text(self.cache[i].key.as_str(), key) {
                proof {
                    lemma_index_at(self.cache@, i as int);
                }
                return Some(self.cache[i].file.clone());
            }
            i += 1;
        }
        None
    }

    /// Records an artifact under a key, replacing what was there.
    pub fn update_cache(&mut self, key: String, file: StagedFile)
        requires
            old(self).wf(),
        ensures
            final(self).wf(),
            final(self).config() == old(self).config(),
            final(self).index() == old(self).index().insert(key@, file@),
    {
        let ghost before = self.cache@;
        let ghost wanted = key@;
        let mut i: usize = 0;
        let mut found = false;
        while i < self.cache.len() && !found
            invariant
                i <= self.cache.len(),
                self.cache@ == before,
                key@ == wanted,
                found ==> i < before.len() && before[i as int].key@ == wanted,
                forall|j: int| 0 <= j < i ==> (#[trigger] before[j]).key@ != wanted,
            decreases self.cache.len() - i + (if found { 0int } else { 1int }),
        {
            if self.cache[i].key == key {
                found = true;
            } else {
                i += 1;
            }
        }
        let entry = CacheEntry { key, file };
        proof {
            let at = i as int;
            let after = if found {
                before.update(at, entry)
            } else {
                before.push(entry)
            };
            lemma_entry_recorded(before, after, at, entry);
        }
        if found {
            self.cache.set(i, entry);
        } else {
            self.cache.push(entry);
        }
    }

    /// Names the artifact for an image payload of the given format.
    pub fn stage_image(&self, data: &[u8], format: &str) -> (request: StageRequest)
        ensures
            is_request_for(
                request,
                self.config().staging_dir@,
                data@,
                format@,
                is_raster_kind(format@),
            ),
    {
        let raster = same_text(format, "png") || same_text(format, "jpg") || same_text(
            format,
            "jpeg",
        ) || same_text(format, "gif") || same_text(format, "webp") || same_text(format, "bmp");
        self.request(data, format, raster)
    }

    /// Names the artifact for a text payload.
    pub fn stage_text(&self, text: &str) -> (request: StageRequest)
        ensures
            is_request_for(
                request,
                self.config().staging_dir@,
                text.spec_bytes(),
                text_kind(),
                false,
            ),
    {
        proof {
            reveal_strlit("txt");
            assert("txt"@ =~= text_kind());
        }
        self.request(text.as_bytes(), "txt", false)
    }

    fn request(&self, data: &[u8], format: &str, with_thumbnail: bool) -> (request: StageRequest)
        ensures
            is_request_for(request, self.config().staging_dir@, data@, format@, with_thumbnail),
    {
        let hash = content_hash(data);
        self.name_artifact(hash, data.len(), format, with_thumbnail)
    }

    /// Names the artifact for a payload whose content hash and size are
    /// known: `clip-`, the first eight digits of the hash and the extension,
    /// in the staging directory, with the thumbnail beside it if one is
    /// wanted.
    pub fn name_artifact(&self, hash: String, size: usize, format: &str, with_thumbnail: bool) -> (request:
        StageRequest)
        requires
            hash@.len() >= 8,
        ensures
            is_request_named(
                request,
                self.config().staging_dir@,
                hash@,
                size,
                format@,
                with_thumbnail,
            ),
    {
        let prefix = hash.as_str().substring_char(0, 8);
        proof {
            reveal_strlit(".thumb.png");
        }
        let path = artifact_path(self.config.staging_dir.as_str(), hash.as_str(), format);
        let thumbnail_path = if with_thumbnail {
            let mut thumb = String::from_str(prefix);
            thumb.append(".thumb.png");
            assert(thumb@ =~= thumbnail_name(hash@));
            Some(join(self.config.staging_dir.as_str(), thumb.as_str()))
        } else {
            None
        };
        StageRequest { hash, path, size, format: String::from_str(format), thumbnail_path }
    }

    /// Decides whether a request is served from the index. `file_exists`
    /// says whether the request's path was found on disk just now: an index
    /// hit whose file is gone is a miss.
    pub fn resolve(&self, request: &StageRequest, file_exists: bool) -> (action: StageAction)
        requires
            self.wf(),
        ensures
            match action {
                StageAction::Reuse(file) => reusable(self.index(), request_key(*request), file_exists)
                    == Some(file@),
                StageAction::Write => reusable(
                    self.index(),
                    request_key(*request),
                    file_exists,
                ).is_none(),
            },
    {
        let key = cache_key(request.hash.as_str(), request.format.as_str());
        match self.get_from_cache(key.as_str()) {
            Some(file) => {
                if file_exists {
                    StageAction::Reuse(file)
                } else {
                    StageAction::Write
                }
            },
            None => StageAction::Write,
        }
    }

    /// Renders the thumbnail for a request whose kind calls for one: a copy
    /// of the image that fits 256 by 256. A request of another kind gets
    /// none, nor does a payload that does not decode.
    pub fn generate_thumbnail(&self, request: &StageRequest, data: &[u8]) -> (thumbnail: Option<
        Thumbnail,
    >)
        ensures
            request.thumbnail_path.is_none() ==> thumbnail.is_none(),
            request.thumbnail_path.is_some() ==> match thumbnail {
                Some(t) => thumbnail_size_of(data@) == Some((t.width, t.height)),
                None => thumbnail_size_of(data@).is_none(),
            },
            thumbnail.is_some() ==> thumbnail.unwrap().width <= THUMBNAIL_BOUND
                && thumbnail.unwrap().height <= THUMBNAIL_BOUND,
    {
        match &request.thumbnail_path {
            Some(_) => render_thumbnail(data, THUMBNAIL_BOUND, THUMBNAIL_BOUND),
            None => None,
        }
    }

    /// Records the artifact of a request whose payload has been written at
    /// time `now`. The thumbnail is recorded only if it was saved.
    pub fn commit(&mut self, request: StageRequest, now: u64, thumbnail_saved: bool) -> (file:
        StagedFile)
        requires
            old(self).wf(),
        ensures
            final(self).wf(),
            final(self).config() == old(self).config(),
            file@ == committed(request, now, thumbnail_saved),
            final(self).index() == old(self).index().insert(request_key(request), file@),
    {
        let key = cache_key(request.hash.as_str(), request.format.as_str());
        let thumbnail_path = if thumbnail_saved {
            request.thumbnail_path
        } else {
            None
        };
        let file = StagedFile {
            path: request.path,
            size: request.size,
            format: request.format,
            created_at: now,
            thumbnail_path,
        };
        self.update_cache(key, file.clone());
        file
    }

    /// The listed files that are older than the maximum age and are to be
    /// deleted, in listing order.
    pub fn expired_files(&self, listing: &Vec<FileAge>) -> (paths: Vec<String>)
        ensures
            texts(paths@) == expired_paths(listing@, self.config().max_file_age),
    {
        let mut paths: Vec<String> = Vec::new();
        let mut i: usize = 0;
        assert(listing@.take(0) =~= Seq::<FileAge>::empty());
        assert(texts(paths@) =~= Seq::<Seq<char>>::empty());
        while i < listing.len()
            invariant
                i <= listing.len(),
                texts(paths@) == expired_paths(listing@.take(i as int), self.config.max_file_age),
            decreases listing.len() - i,
        {
            let ghost before = paths@;
            assert(listing@.take(i as int + 1).drop_last() =~= listing@.take(i as int));
            if listing[i].age > self.config.max_file_age {
                paths.push(listing[i].path.clone());
                assert(texts(paths@) =~= texts(before).push(listing@[i as int].path@));
            }
            i += 1;
        }
        assert(listing@.take(i as int) =~= listing@);
        paths
    }

    /// Drops every index entry that is no longer fresh at time `now`.
    pub fn prune_cache(&mut self, now: u64)
        requires
            old(self).wf(),
        ensures
            final(self).wf(),
            final(self).config() == old(self).config(),
            final(self).index() == fresh_part(
                old(self).index(),
                now,
                old(self).config().max_file_age,
            ),
    {
        let max_age = self.config.max_file_age;
        let mut kept: Vec<CacheEntry> = Vec::new();
        let mut i: usize = 0;
        assert(self.cache@.take(0) =~= Seq::<CacheEntry>::empty());
        while i < self.cache.len()
            invariant
                i <= self.cache.len(),
                kept@ == retained(self.cache@.take(i as int), now, max_age),
            decreases self.cache.len() - i,
        {
            assert(self.cache@.take(i as int + 1).drop_last() =~= self.cache@.take(i as int));
            let created = self.cache[i].file.created_at;
            if created <= now && now - created <= max_age {
                let entry = CacheEntry {
                    key: self.cache[i].key.clone(),
                    file: self.cache[i].file.clone(),
                };
                kept.push(entry);
            }
            i += 1;
        }
        proof {
            assert(self.cache@.take(i as int) =~= self.cache@);
            lemma_retained(self.cache@, now, max_age);
            lemma_retained_index(self.cache@, now, max_age);
        }
        self.cache = kept;
    }

    /// One eviction cycle at time `now` over a listing of the staging
    /// directory: prunes the index and returns the files to delete.
    pub fn run_cleanup(&mut self, listing: &Vec<FileAge>, now: u64) -> (paths: Vec<String>)
        requires
            old(self).wf(),
        ensures
            final(self).wf(),
            final(self).config() == old(self).config(),
            texts(paths@) == expired_paths(listing@, old(self).config().max_file_age),
            final(self).index() == fresh_part(
                old(self).index(),
                now,
                old(self).config().max_file_age,
            ),
    {
        let paths = self.expired_files(listing);
        self.prune_cache(now);
        paths
    }
}

/// Staging the same payload of the same kind twice names the same path,
/// and once the first request is committed the second is served from the
/// index while the file exists: it calls for no second write. That stays so
/// when the same payload is staged as another kind in between. Once the
/// file is gone the index hit counts for nothing.
pub proof fn lemma_restaging_reuses(
    index: Map<Seq<char>, StagedFileView>,
    first: StageRequest,
    between: StageRequest,
    second: StageRequest,
    staging_dir: Seq<char>,
    data: Seq<u8>,
    format: Seq<char>,
    other_format: Seq<char>,
    now: u64,
    later: u64,
)
    requires
        is_request_for(first, staging_dir, data, format, is_raster_kind(format)),
        is_request_for(between, staging_dir, data, other_format, is_raster_kind(other_format)),
        is_request_for(second, staging_dir, data, format, is_raster_kind(format)),
        other_format != format,
    ensures
        second.path@ == first.path@,
        request_key(second) == request_key(first),
        request_key(between) != request_key(first),
        ({
            let recorded = committed(first, now, false);
            let after_first = index.insert(request_key(first), recorded);
            let after_both = after_first.insert(request_key(between), committed(between, later, false));
            &&& recorded.path == second.path@
            &&& recorded.format == format
            &&& reusable(after_first, request_key(second), true) == Some(recorded)
            &&& reusable(after_both, request_key(second), true) == Some(recorded)
            &&& reusable(after_both, request_key(between), true) == Some(
                committed(between, later, false),
            )
            &&& reusable(after_both, request_key(second), false).is_none()
        }),
{
    if request_key(between) == request_key(first) {
        lemma_index_key_distinguishes(between.hash@, other_format, first.hash@, format);
    }
}

/// One cleanup at time `now` drops an indexed artifact exactly if it is
/// older than the maximum age (or claims to be from the future), and leaves
/// every other entry as it was. The threshold is the one files are held
/// to: an entry created in the past goes exactly if its age is above it.
pub proof fn lemma_cleanup_by_age(
    index: Map<Seq<char>, StagedFileView>,
    key: Seq<char>,
    now: u64,
    max_age: u64,
)
    requires
        index.contains_key(key),
    ensures
        is_fresh(index[key].created_at, now, max_age) ==> fresh_part(
            index,
            now,
            max_age,
        ).contains_key(key) && fresh_part(index, now, max_age)[key] == index[key],
        !is_fresh(index[key].created_at, now, max_age) ==> !fresh_part(
            index,
            now,
            max_age,
        ).contains_key(key),
        index[key].created_at <= now ==> (fresh_part(index, now, max_age).contains_key(key) <==> !(
        now - index[key].created_at > max_age)),
{
}

/// A listed file is deleted by a cleanup exactly if it is older than the
/// maximum age: every such file's path is among the expired paths, and
/// every expired path belongs to such a file.
pub proof fn lemma_expired_by_age(listing: Seq<FileAge>, max_age: u64)
    ensures
        forall|i: int|
            0 <= i < listing.len() && (#[trigger] listing[i]).age > max_age ==> expired_paths(
                listing,
                max_age,
            ).contains(listing[i].path@),
        forall|p: Seq<char>|
            expired_paths(listing, max_age).contains(p) ==> exists|i: int|
                0 <= i < listing.len() && (#[trigger] listing[i]).age > max_age && listing[i].path@
                    == p,
    decreases listing.len(),
{
    if listing.len() > 0 {
        let head = listing.drop_last();
        let last = listing.last();
        lemma_expired_by_age(head, max_age);
        let rest = expired_paths(head, max_age);
        let out = expired_paths(listing, max_age);
        assert forall|i: int| 0 <= i < listing.len() && (#[trigger] listing[i]).age
            > max_age implies out.contains(listing[i].path@) by {
            if i < head.len() {
                assert(head[i] == listing[i]);
                assert(rest.contains(head[i].path@));
                let j = choose|j: int| 0 <= j < rest.len() && rest[j] == head[i].path@;
                assert(out[j] == rest[j]);
            } else {
                assert(out[out.len() - 1] == last.path@);
            }
        }
        assert forall|p: Seq<char>| out.contains(p) implies exists|i: int|
            0 <= i < listing.len() && (#[trigger] listing[i]).age > max_age && listing[i].path@
                == p by {
            let j = choose|j: int| 0 <= j < out.len() && out[j] == p;
            if j < rest.len() {
                assert(rest[j] == p);
                assert(rest.contains(p));
                let i = choose|i: int|
                    0 <= i < head.len() && (#[trigger] head[i]).age > max_age && head[i].path@ == p;
                assert(listing[i] == head[i]);
            } else {
                assert(listing[listing.len() - 1].path@ == p);
            }
        }
    }
}

/// The key an artifact of a content hash and a kind is indexed under.
pub fn cache_key(hash: &str, format: &str) -> (key: String)
    ensures
        key@ == index_key(hash@, format@),
{
    proof {
        reveal_strlit(".");
    }
    let mut key = String::from_str(hash);
    key.append(".");
    key.append(format);
    assert(key@ =~= index_key(hash@, format@));
    key
}

/// The path of the artifact of a content hash and a kind in a staging
/// directory.
pub fn artifact_path(staging_dir: &str, hash: &str, format: &str) -> (path: String)
    requires
        hash@.len() >= 8,
    ensures
        path@ == join_path(staging_dir@, staged_name(hash@, format@)),
{
    let prefix = hash.substring_char(0, 8);
    proof {
        reveal_strlit("clip-");
        reveal_strlit(".");
    }
    let mut name = String::from_str("clip-");
    name.append(prefix);
    name.append(".");
    name.append(format);
    assert(name@ =~= staged_name(hash@, format@));
    join(staging_dir, name.as_str())
}

/// The view of an optional artifact.
pub open spec fn opt_file(file: Option<StagedFile>) -> Option<StagedFileView> {
    match file {
        Some(f) => Some(f@),
        None => None,
    }
}

} // verus!
