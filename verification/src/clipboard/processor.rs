//! The processing policy: which content is staged, under which names it is
//! exposed, which aliases a rotation removes, and in what order the steps of
//! one event run.

use vstd::prelude::*;
use vstd::seq_lib::*;
use vstd::string::*;
use crate::clipboard::watcher::{ClipboardEvent, DualClipboard};
use crate::clipboard::{ClipboardContent, ClipboardContentView, ClipboardManager, ClipboardWrite};
use crate::clipboard::ClipboardWriteView;
use crate::file_manager::{FileManager, StagedFile};
use crate::paths::{byte_len, ends_with, join, join_path, opt_text, starts_with, texts};
use crate::ClaudeUtilsError;

verus! {

/// Where aliases go, how they are named, how many are kept, and which
/// optional steps run.
#[derive(Debug, Clone)]
pub struct ProcessorConfig {
    pub symlink_dir: String,
    pub symlink_prefix: String,
    pub keep_symlinks: usize,
    pub enable_dual_format: bool,
    pub enable_notifications: bool,
}

/// The base directory when no home directory is known.
pub open spec fn home_or_here(home: Option<Seq<char>>) -> Seq<char> {
    match home {
        Some(h) => h,
        None => seq!['.'],
    }
}

impl ProcessorConfig {
    /// The default configuration for a user whose home directory is `home`:
    /// aliases named `claude_paste` on the desktop, five kept, every
    /// optional step on.
    pub fn with_home(home: Option<&str>) -> (config: Self)
        ensures
            config.symlink_dir@ == join_path(home_or_here(opt_str(home)), "Desktop"@),
            config.symlink_prefix@ == "claude_paste"@,
            config.keep_symlinks == 5,
            config.enable_dual_format,
            config.enable_notifications,
    {
        proof {
            reveal_strlit(".");
        }
        let base = match home {
            Some(h) => h,
            None => ".",
        };
        assert(base@ =~= home_or_here(opt_str(home)));
        ProcessorConfig {
            symlink_dir: join(base, "Desktop"),
            symlink_prefix: String::from_str("claude_paste"),
            keep_symlinks: 5,
            enable_dual_format: true,
            enable_notifications: true,
        }
    }
}

/// The view of an optional text slice.
pub open spec fn opt_str(text: Option<&str>) -> Option<Seq<char>> {
    match text {
        Some(t) => Some(t@),
        None => None,
    }
}

/// How the clipboard presents a staged image, chosen once at startup.
#[derive(Debug, Clone, Copy, PartialEq, Eq)]
pub enum ClipboardStrategy {
    /// The platform shows a text path and the image side by side.
    DualFormatCapable,
    /// The platform cannot: the clipboard gets the alias path as text.
    TextOnlyFallback,
}

/// What is done with new clipboard content.
#[derive(Debug, Clone, Copy, PartialEq, Eq)]
pub enum Dispatch {
    /// A raster image: always staged.
    Image,
    /// Text above the inline threshold: staged.
    LargeText,
    /// Text within the inline threshold: left alone.
    Passthrough,
}

/// The policy for one snapshot. Only text of more than
/// [`crate::MAX_INLINE_SIZE`] bytes is staged; an image always is.
pub open spec fn dispatch_of(content: ClipboardContentView) -> Dispatch {
    match content {
        ClipboardContentView::Text { data, .. } => if byte_len(data) > crate::MAX_INLINE_SIZE {
            Dispatch::LargeText
        } else {
            Dispatch::Passthrough
        },
        _ => Dispatch::Image,
    }
}

/// The extension an image is staged and aliased under.
pub open spec fn image_extension(content: ClipboardContentView) -> Seq<char> {
    match content {
        ClipboardContentView::ImageJpeg { .. } => "jpeg"@,
        _ => "png"@,
    }
}

/// The name of a numbered alias: prefix, hyphen, timestamp, dot, extension.
pub open spec fn alias_name(prefix: Seq<char>, stamp: Seq<char>, extension: Seq<char>) -> Seq<char> {
    prefix + seq!['-'] + stamp + seq!['.'] + extension
}

/// The name of the fixed alias of a kind: prefix, dot, extension.
pub open spec fn latest_name(prefix: Seq<char>, extension: Seq<char>) -> Seq<char> {
    prefix + seq!['.'] + extension
}

/// The two aliases made for one staged artifact.
#[derive(Debug)]
pub struct AliasPlan {
    /// The numbered alias.
    pub alias_path: String,
    /// The fixed alias of the kind, removed and made anew.
    pub latest_path: String,
    /// What both lead to.
    pub target: String,
}

/// One step of processing an event. The steps of an event run in order; a
/// step that fails ends the event, except where its text says otherwise.
#[derive(Debug)]
pub enum ProcessorAction {
    /// Create the numbered alias.
    CreateAlias { path: String, target: String },
    /// Remove the fixed alias if there is one, failing or not, and create it
    /// anew.
    ReplaceLatest { path: String, target: String },
    /// Both aliases exist: record the numbered alias in the event.
    RecordAlias { path: String },
    /// Present the path and the image together; if that fails, write the
    /// path as text.
    SetDualClipboard { path: String },
    /// Replace the clipboard with this text.
    SetTextClipboard { text: String },
    /// Rotate the numbered aliases of this extension.
    Rotate { extension: String },
    /// Tell the user; failures are ignored.
    Notify { title: String, body: String },
}

/// A [`ProcessorAction`] as plain mathematical values.
pub enum ProcessorActionView {
    CreateAlias { path: Seq<char>, target: Seq<char> },
    ReplaceLatest { path: Seq<char>, target: Seq<char> },
    RecordAlias { path: Seq<char> },
    SetDualClipboard { path: Seq<char> },
    SetTextClipboard { text: Seq<char> },
    Rotate { extension: Seq<char> },
    Notify { title: Seq<char>, body: Seq<char> },
}

impl View for ProcessorAction {
    type V = ProcessorActionView;

    open spec fn view(&self) -> ProcessorActionView {
        match *self {
            ProcessorAction::CreateAlias { path, target } => ProcessorActionView::CreateAlias {
                path: path@,
                target: target@,
            },
            ProcessorAction::ReplaceLatest { path, target } => ProcessorActionView::ReplaceLatest {
                path: path@,
                target: target@,
            },
            ProcessorAction::RecordAlias { path } => ProcessorActionView::RecordAlias {
                path: path@,
            },
            ProcessorAction::SetDualClipboard { path } => ProcessorActionView::SetDualClipboard {
                path: path@,
            },
            ProcessorAction::SetTextClipboard { text } => ProcessorActionView::SetTextClipboard {
                text: text@,
            },
            ProcessorAction::Rotate { extension } => ProcessorActionView::Rotate {
                extension: extension@,
            },
            ProcessorAction::Notify { title, body } => ProcessorActionView::Notify {
                title: title@,
                body: body@,
            },
        }
    }
}

/// The views of a list of actions, in order.
pub open spec fn action_views(actions: Seq<ProcessorAction>) -> Seq<ProcessorActionView> {
    actions.map_values(|a: ProcessorAction| a@)
}

/// The path of the numbered alias made at `stamp`.
pub open spec fn alias_path_for(config: ProcessorConfig, extension: Seq<char>, stamp: Seq<char>) -> Seq<char> {
    join_path(config.symlink_dir@, alias_name(config.symlink_prefix@, stamp, extension))
}

/// The path of the fixed alias of a kind.
pub open spec fn latest_path_for(config: ProcessorConfig, extension: Seq<char>) -> Seq<char> {
    join_path(config.symlink_dir@, latest_name(config.symlink_prefix@, extension))
}

/// The steps that expose `target` under its aliases: the numbered alias,
/// the fixed one, and only then the note of the alias in the event.
pub open spec fn alias_steps(
    config: ProcessorConfig,
    target: Seq<char>,
    extension: Seq<char>,
    stamp: Seq<char>,
) -> Seq<ProcessorActionView> {
    seq![
        ProcessorActionView::CreateAlias { path: alias_path_for(config, extension, stamp), target },
        ProcessorActionView::ReplaceLatest { path: latest_path_for(config, extension), target },
        ProcessorActionView::RecordAlias { path: alias_path_for(config, extension, stamp) },
    ]
}

/// How the clipboard is rewritten for a staged image.
pub open spec fn image_clipboard_steps(
    config: ProcessorConfig,
    strategy: ClipboardStrategy,
    alias: Seq<char>,
) -> Seq<ProcessorActionView> {
    if !config.enable_dual_format {
        Seq::empty()
    } else if strategy == ClipboardStrategy::DualFormatCapable {
        seq![ProcessorActionView::SetDualClipboard { path: alias }]
    } else {
        seq![ProcessorActionView::SetTextClipboard { text: alias }]
    }
}

/// The notification for a staged image, if notifications are on.
pub open spec fn image_notice_steps(config: ProcessorConfig, alias: Seq<char>) -> Seq<ProcessorActionView> {
    if config.enable_notifications {
        seq![ProcessorActionView::Notify { title: "Image ready to paste"@, body: alias }]
    } else {
        Seq::empty()
    }
}

/// The steps for an image staged at `target`: aliases, clipboard,
/// rotation, notification.
pub open spec fn image_steps(
    config: ProcessorConfig,
    strategy: ClipboardStrategy,
    target: Seq<char>,
    extension: Seq<char>,
    stamp: Seq<char>,
) -> Seq<ProcessorActionView> {
    alias_steps(config, target, extension, stamp) + image_clipboard_steps(
        config,
        strategy,
        alias_path_for(config, extension, stamp),
    ) + seq![ProcessorActionView::Rotate { extension }] + image_notice_steps(
        config,
        alias_path_for(config, extension, stamp),
    )
}

/// The steps for a large text staged at `target`: aliases, the clipboard
/// rewritten to the alias path, rotation.
pub open spec fn text_steps(config: ProcessorConfig, target: Seq<char>, stamp: Seq<char>) -> Seq<
    ProcessorActionView,
> {
    alias_steps(config, target, "txt"@, stamp) + seq![
        ProcessorActionView::SetTextClipboard { text: alias_path_for(config, "txt"@, stamp) },
        ProcessorActionView::Rotate { extension: "txt"@ },
    ]
}

/// Text is staged exactly if it is longer than the inline threshold: at
/// the threshold it passes through, one byte above it is staged. Once it
/// is staged, the clipboard is rewritten to the path of its numbered alias,
/// and the fixed alias leads to the staged file.
pub proof fn lemma_text_is_staged_above_threshold(
    data: Seq<char>,
    truncated: Option<bool>,
    config: ProcessorConfig,
    target: Seq<char>,
    stamp: Seq<char>,
)
    ensures
        byte_len(data) <= crate::MAX_INLINE_SIZE ==> dispatch_of(
            ClipboardContentView::Text { data, truncated },
        ) == Dispatch::Passthrough,
        byte_len(data) > crate::MAX_INLINE_SIZE ==> dispatch_of(
            ClipboardContentView::Text { data, truncated },
        ) == Dispatch::LargeText,
        text_steps(config, target, stamp).contains(
            ProcessorActionView::SetTextClipboard { text: alias_path_for(config, "txt"@, stamp) },
        ),
        text_steps(config, target, stamp).contains(
            ProcessorActionView::ReplaceLatest { path: latest_path_for(config, "txt"@), target },
        ),
{
    let steps = text_steps(config, target, stamp);
    assert(steps[3] == ProcessorActionView::SetTextClipboard {
        text: alias_path_for(config, "txt"@, stamp),
    });
    assert(steps[1] == ProcessorActionView::ReplaceLatest {
        path: latest_path_for(config, "txt"@),
        target,
    });
}

/// The alias is noted in the event only after both aliases are made, and
/// before anything is done with the clipboard: the first two steps of an
/// event make the aliases, the third records the numbered one.
pub proof fn lemma_alias_is_recorded_once_made(
    config: ProcessorConfig,
    strategy: ClipboardStrategy,
    target: Seq<char>,
    extension: Seq<char>,
    stamp: Seq<char>,
)
    ensures
        ({
            let image = image_steps(config, strategy, target, extension, stamp);
            let text = text_steps(config, target, stamp);
            &&& image.len() >= 4
            &&& image[0] is CreateAlias
            &&& image[1] is ReplaceLatest
            &&& image[2] == ProcessorActionView::RecordAlias {
                path: alias_path_for(config, extension, stamp),
            }
            &&& forall|i: int| 3 <= i < image.len() ==> !((#[trigger] image[i]) is RecordAlias)
            &&& text.len() == 5
            &&& text[0] is CreateAlias
            &&& text[1] is ReplaceLatest
            &&& text[2] == ProcessorActionView::RecordAlias {
                path: alias_path_for(config, "txt"@, stamp),
            }
            &&& !(text[3] is RecordAlias) && !(text[4] is RecordAlias)
        }),
{
}

/// An image is always staged, whatever its size, and the fixed alias of
/// its kind then leads to the staged file.
pub proof fn lemma_image_is_always_staged(
    content: ClipboardContentView,
    config: ProcessorConfig,
    strategy: ClipboardStrategy,
    target: Seq<char>,
    stamp: Seq<char>,
)
    requires
        !(content is Text),
    ensures
        dispatch_of(content) == Dispatch::Image,
        image_steps(config, strategy, target, image_extension(content), stamp).contains(
            ProcessorActionView::ReplaceLatest {
                path: latest_path_for(config, image_extension(content)),
                target,
            },
        ),
        config.enable_dual_format && strategy == ClipboardStrategy::TextOnlyFallback
            ==> image_steps(config, strategy, target, image_extension(content), stamp).contains(
            ProcessorActionView::SetTextClipboard {
                text: alias_path_for(config, image_extension(content), stamp),
            },
        ),
{
    let ext = image_extension(content);
    let steps = image_steps(config, strategy, target, ext, stamp);
    assert(steps[1] == ProcessorActionView::ReplaceLatest {
        path: latest_path_for(config, ext),
        target,
    });
    if config.enable_dual_format && strategy == ClipboardStrategy::TextOnlyFallback {
        assert(steps[3] == ProcessorActionView::SetTextClipboard {
            text: alias_path_for(config, ext, stamp),
        });
    }
}

/// An entry of the alias directory: its file name, whether it is a
/// symbolic link, and when it was last modified (milliseconds since the
/// Unix epoch).
#[derive(Debug)]
pub struct AliasEntry {
    pub name: String,
    pub is_symlink: bool,
    pub modified: u64,
}

impl Clone for AliasEntry {
    fn clone(&self) -> (copy: Self)
        ensures
            copy == *self,
    {
        AliasEntry { name: self.name.clone(), is_symlink: self.is_symlink, modified: self.modified }
    }
}

/// Whether a file name is that of a numbered alias of a kind: it begins
/// with the prefix and a hyphen and ends with a dot and the extension.
pub open spec fn is_numbered_alias(name: Seq<char>, prefix: Seq<char>, extension: Seq<char>) -> bool {
    (prefix + seq!['-']).is_prefix_of(name) && (seq!['.'] + extension).is_suffix_of(name)
}

/// The entries that rotation looks at: genuine links named as numbered
/// aliases of the kind, in listing order.
pub open spec fn candidates(listing: Seq<AliasEntry>, prefix: Seq<char>, extension: Seq<char>) -> Seq<
    AliasEntry,
>
    decreases listing.len(),
{
    if listing.len() == 0 {
        Seq::empty()
    } else {
        let rest = candidates(listing.drop_last(), prefix, extension);
        if listing.last().is_symlink && is_numbered_alias(listing.last().name@, prefix, extension) {
            rest.push(listing.last())
        } else {
            rest
        }
    }
}

/// Puts an entry into a list ordered newest first, behind every entry that
/// is as new or newer.
pub open spec fn insert_newest_first(ranked: Seq<AliasEntry>, entry: AliasEntry) -> Seq<AliasEntry>
    decreases ranked.len(),
{
    if ranked.len() == 0 {
        seq![entry]
    } else if ranked.last().modified >= entry.modified {
        ranked.push(entry)
    } else {
        insert_newest_first(ranked.drop_last(), entry).push(ranked.last())
    }
}

/// The entries ordered by modification time, newest first; entries modified
/// at the same time keep their listing order.
pub open spec fn newest_first(entries: Seq<AliasEntry>) -> Seq<AliasEntry>
    decreases entries.len(),
{
    if entries.len() == 0 {
        Seq::empty()
    } else {
        insert_newest_first(newest_first(entries.drop_last()), entries.last())
    }
}

/// How many of `len` entries a rotation that keeps `keep` leaves in place.
pub open spec fn kept_count(len: nat, keep: usize) -> nat {
    if keep <= len {
        keep as nat
    } else {
        len
    }
}

/// The paths of entries below a directory, in order.
pub open spec fn entry_paths(entries: Seq<AliasEntry>, dir: Seq<char>) -> Seq<Seq<char>> {
    entries.map_values(|e: AliasEntry| join_path(dir, e.name@))
}

/// The aliases a rotation removes: all candidates but the `keep` newest,
/// newest first.
pub open spec fn stale_aliases(
    listing: Seq<AliasEntry>,
    dir: Seq<char>,
    prefix: Seq<char>,
    extension: Seq<char>,
    keep: usize,
) -> Seq<Seq<char>> {
    let ranked = newest_first(candidates(listing, prefix, extension));
    entry_paths(ranked.skip(kept_count(ranked.len(), keep) as int), dir)
}

proof fn lemma_insert_at(ranked: Seq<AliasEntry>, entry: AliasEntry, p: int)
    requires
        0 <= p <= ranked.len(),
        forall|j: int| p <= j < ranked.len() ==> (#[trigger] ranked[j]).modified < entry.modified,
        p > 0 ==> ranked[p - 1].modified >= entry.modified,
    ensures
        insert_newest_first(ranked, entry) == ranked.insert(p, entry),
    decreases ranked.len(),
{
    if ranked.len() == 0 {
        assert(ranked.insert(p, entry) =~= seq![entry]);
    } else if p == ranked.len() {
        assert(ranked.insert(p, entry) =~= ranked.push(entry));
    } else {
        assert(ranked[ranked.len() - 1].modified < entry.modified);
        let head = ranked.drop_last();
        assert forall|j: int| p <= j < head.len() implies (#[trigger] head[j]).modified
            < entry.modified by {
            assert(head[j] == ranked[j]);
        }
        lemma_insert_at(head, entry, p);
        assert(head.insert(p, entry).push(ranked.last()) =~= ranked.insert(p, entry));
    }
}

/// Where an entry goes: some position behind every entry as new or newer
/// and before every older one.
proof fn lemma_insert_position(ranked: Seq<AliasEntry>, entry: AliasEntry) -> (p: int)
    ensures
        0 <= p <= ranked.len(),
        insert_newest_first(ranked, entry) == ranked.insert(p, entry),
        forall|j: int| p <= j < ranked.len() ==> (#[trigger] ranked[j]).modified < entry.modified,
        p > 0 ==> ranked[p - 1].modified >= entry.modified,
    decreases ranked.len(),
{
    if ranked.len() == 0 {
        assert(ranked.insert(0, entry) =~= seq![entry]);
        0
    } else if ranked.last().modified >= entry.modified {
        assert(ranked.insert(ranked.len() as int, entry) =~= ranked.push(entry));
        ranked.len() as int
    } else {
        let head = ranked.drop_last();
        let p = lemma_insert_position(head, entry);
        assert(head.insert(p, entry).push(ranked.last()) =~= ranked.insert(p, entry));
        assert forall|j: int| p <= j < ranked.len() implies (#[trigger] ranked[j]).modified
            < entry.modified by {
            if j < head.len() {
                assert(head[j] == ranked[j]);
            }
        }
        if p > 0 {
            assert(head[p - 1] == ranked[p - 1]);
        }
        p
    }
}

/// Whether a list is ordered newest first.
pub open spec fn is_newest_first(entries: Seq<AliasEntry>) -> bool {
    forall|i: int, j: int|
        0 <= i < j < entries.len() ==> (#[trigger] entries[i]).modified >= (
        #[trigger] entries[j]).modified
}

/// Ordering newest first rearranges the entries and leaves none out: the
/// result has the same entries as often, and is ordered.
pub proof fn lemma_newest_first_is_ordered_rearrangement(entries: Seq<AliasEntry>)
    ensures
        newest_first(entries).len() == entries.len(),
        newest_first(entries).to_multiset() == entries.to_multiset(),
        is_newest_first(newest_first(entries)),
    decreases entries.len(),
{
    broadcast use {to_multiset_build, to_multiset_insert};

    if entries.len() == 0 {
        assert(newest_first(entries) =~= entries);
    } else {
        let head = entries.drop_last();
        let last = entries.last();
        lemma_newest_first_is_ordered_rearrangement(head);
        let ranked = newest_first(head);
        let p = lemma_insert_position(ranked, last);
        let out = ranked.insert(p, last);
        assert(out == newest_first(entries));
        assert(entries =~= head.push(last));
        assert(head.push(last).to_multiset() =~= head.to_multiset().insert(last));
        assert(out.to_multiset() =~= ranked.to_multiset().insert(last));
        assert forall|i: int, j: int| 0 <= i < j < out.len() implies (#[trigger] out[i]).modified >= (
        #[trigger] out[j]).modified by {
            if j < p {
                assert(out[i] == ranked[i] && out[j] == ranked[j]);
            } else if j == p {
                assert(out[i] == ranked[i]);
                if i < p - 1 {
                    assert(ranked[i].modified >= ranked[p - 1].modified);
                }
            } else if i < p {
                assert(out[i] == ranked[i] && out[j] == ranked[j - 1]);
            } else if i == p {
                assert(out[j] == ranked[j - 1]);
            } else {
                assert(out[i] == ranked[i - 1] && out[j] == ranked[j - 1]);
            }
        }
    }
}

/// After a rotation that keeps `keep`, the aliases left are the `keep`
/// newest, or all of them if there were no more: each one left is at least
/// as new as each one removed, and left and removed together are exactly the
/// aliases there were.
pub proof fn lemma_rotation_keeps_newest(aliases: Seq<AliasEntry>, keep: usize)
    ensures
        ({
            let ranked = newest_first(aliases);
            let k = kept_count(aliases.len(), keep) as int;
            &&& ranked.take(k).len() == k
            &&& k <= keep
            &&& aliases.len() > keep ==> k == keep
            &&& ranked.take(k) + ranked.skip(k) == ranked
            &&& ranked.to_multiset() == aliases.to_multiset()
            &&& forall|i: int, j: int|
                0 <= i < k && 0 <= j < ranked.skip(k).len() ==> (#[trigger] ranked.take(
                    k,
                )[i]).modified >= (#[trigger] ranked.skip(k)[j]).modified
        }),
{
    lemma_newest_first_is_ordered_rearrangement(aliases);
    let ranked = newest_first(aliases);
    let k = kept_count(aliases.len(), keep) as int;
    assert(ranked.take(k) + ranked.skip(k) =~= ranked);
    assert forall|i: int, j: int| 0 <= i < k && 0 <= j < ranked.skip(k).len() implies (
    #[trigger] ranked.take(k)[i]).modified >= (#[trigger] ranked.skip(k)[j]).modified by {
        assert(ranked.take(k)[i] == ranked[i]);
        assert(ranked.skip(k)[j] == ranked[k + j]);
    }
}

fn insert_entry(ranked: &mut Vec<AliasEntry>, entry: AliasEntry)
    ensures
        final(ranked)@ == insert_newest_first(old(ranked)@, entry),
{
    let mut p: usize = ranked.len();
    while p > 0 && ranked[p - 1].modified < entry.modified
        invariant
            p <= ranked.len(),
            ranked@ == old(ranked)@,
            forall|j: int| p <= j < ranked.len() ==> (#[trigger] ranked@[j]).modified < entry.modified,
        decreases p,
    {
        p -= 1;
    }
    proof {
        lemma_insert_at(ranked@, entry, p as int);
    }
    ranked.insert(p, entry);
}

/// Whether a character is a decimal digit.
pub open spec fn is_digit(c: char) -> bool {
    '0' <= c && c <= '9'
}

/// The shape of a timestamp to the second: the year, then month and day in
/// two digits each, a hyphen, and hour, minute and second in two digits
/// each. The year has four digits, or a plus sign and more digits from the
/// year 10000 on.
pub open spec fn is_stamp(text: Seq<char>) -> bool {
    &&& text.len() >= 15
    &&& text[text.len() - 7] == '-'
    &&& forall|i: int|
        text.len() - 11 <= i < text.len() && i != text.len() - 7 ==> is_digit(#[trigger] text[i])
    &&& forall|i: int|
        0 <= i < text.len() - 11 ==> is_digit(#[trigger] text[i]) || (i == 0 && text.len() > 15
            && text[i] == '+')
}

/// Calls `chrono::Local::now` and formats the local time as
/// `%Y%m%d-%H%M%S` with `DateTime::format`. Which time it is depends on the
/// clock and the time zone; the contract claims only the shape that the
/// format gives every time from 1969 on: the year in four digits (with a
/// plus sign and more digits from 10000 on) and the other five numbers in
/// two digits each, zero-padded. (`chrono` does not return on a machine
/// whose clock is set before 1970.)
#[verifier::external_body]
fn local_timestamp() -> (stamp: String)
    ensures
        is_stamp(stamp@),
{
    chrono::Local::now().format("%Y%m%d-%H%M%S").to_string()
}

/// The single consumer of the watcher's events.
pub struct ClipboardProcessor {
    config: ProcessorConfig,
    strategy: ClipboardStrategy,
    file_manager: FileManager,
    clipboard_manager: ClipboardManager,
}

impl ClipboardProcessor {
    /// The processor's configuration.
    pub closed spec fn config(&self) -> ProcessorConfig {
        self.config
    }

    /// How the clipboard presents a staged image.
    pub closed spec fn strategy(&self) -> ClipboardStrategy {
        self.strategy
    }

    /// The staging store the processor drives.
    pub closed spec fn store(&self) -> FileManager {
        self.file_manager
    }

    /// A processor for a platform without dual-format support.
    pub fn new(config: ProcessorConfig, file_manager: FileManager, clipboard_manager: ClipboardManager) -> (processor:
        Self)
        ensures
            processor.config() == config,
            processor.store() == file_manager,
            processor.strategy() == ClipboardStrategy::TextOnlyFallback,
    {
        ClipboardProcessor {
            config,
            strategy: ClipboardStrategy::TextOnlyFallback,
            file_manager,
            clipboard_manager,
        }
    }

    /// The same processor with the platform's capability set.
    pub fn with_strategy(self, strategy: ClipboardStrategy) -> (processor: Self)
        ensures
            processor.config() == self.config(),
            processor.store() == self.store(),
            processor.strategy() == strategy,
    {
        ClipboardProcessor {
            config: self.config,
            strategy,
            file_manager: self.file_manager,
            clipboard_manager: self.clipboard_manager,
        }
    }

    /// The directory aliases are made in.
    pub fn alias_dir(&self) -> (dir: &str)
        ensures
            dir@ == self.config().symlink_dir@,
    {
        self.config.symlink_dir.as_str()
    }

    /// The staging store, to name and resolve requests.
    pub fn file_manager(&self) -> (store: &FileManager)
        ensures
            *store == self.store(),
    {
        &self.file_manager
    }

    /// Records a written artifact in the staging store.
    pub fn commit_stage(
        &mut self,
        request: crate::file_manager::StageRequest,
        now: u64,
        thumbnail_saved: bool,
    ) -> (file: StagedFile)
        requires
            old(self).store().wf(),
        ensures
            final(self).config() == old(self).config(),
            final(self).strategy() == old(self).strategy(),
            final(self).store().wf(),
            final(self).store().config() == old(self).store().config(),
            file@ == crate::file_manager::committed(request, now, thumbnail_saved),
            final(self).store().index() == old(self).store().index().insert(
                crate::file_manager::request_key(request),
                file@,
            ),
    {
        self.file_manager.commit(request, now, thumbnail_saved)
    }

    /// One eviction cycle of the staging store.
    pub fn run_cleanup(&mut self, listing: &Vec<crate::file_manager::FileAge>, now: u64) -> (paths:
        Vec<String>)
        requires
            old(self).store().wf(),
        ensures
            final(self).config() == old(self).config(),
            final(self).strategy() == old(self).strategy(),
            final(self).store().wf(),
            final(self).store().config() == old(self).store().config(),
            texts(paths@) == crate::file_manager::expired_paths(
                listing@,
                old(self).store().config().max_file_age,
            ),
            final(self).store().index() == crate::file_manager::fresh_part(
                old(self).store().index(),
                now,
                old(self).store().config().max_file_age,
            ),
    {
        self.file_manager.run_cleanup(listing, now)
    }

    /// Decides what is done with new content.
    pub fn process_event(&self, content: &ClipboardContent) -> (dispatch: Dispatch)
        ensures
            dispatch == dispatch_of(content@),
    {
        match content {
            ClipboardContent::Text { data, .. } => {
                if data.as_str().len() > crate::MAX_INLINE_SIZE {
                    Dispatch::LargeText
                } else {
                    Dispatch::Passthrough
                }
            },
            _ => Dispatch::Image,
        }
    }

    /// The extension an image event is staged and aliased under.
    pub fn image_format(&self, content: &ClipboardContent) -> (extension: &'static str)
        ensures
            extension@ == image_extension(content@),
    {
        match content {
            ClipboardContent::ImageJpeg { .. } => "jpeg",
            _ => "png",
        }
    }

    /// The steps that follow staging an image event's payload as `staged`,
    /// with aliases stamped `stamp`. The event learns the staged path at
    /// once, and the alias path only through the step that follows the
    /// making of the aliases.
    pub fn process_image_event(&self, event: &mut ClipboardEvent, staged: &StagedFile, stamp: &str) -> (actions:
        Vec<ProcessorAction>)
        requires
            dispatch_of(old(event).content.content@) == Dispatch::Image,
        ensures
            action_views(actions@) == image_steps(
                self.config(),
                self.strategy(),
                staged.path@,
                image_extension(old(event).content.content@),
                stamp@,
            ),
            final(event).content == old(event).content,
            opt_text(final(event).staged_path) == Some(staged.path@),
            final(event).symlink_path == old(event).symlink_path,
    {
        let extension = self.image_format(&event.content.content);
        let plan = self.create_symlink(staged.path.as_str(), extension, stamp);
        event.staged_path = Some(staged.path.clone());
        let alias = plan.alias_path.clone();
        let mut actions: Vec<ProcessorAction> = Vec::new();
        actions.push(ProcessorAction::CreateAlias { path: plan.alias_path, target: plan.target });
        actions.push(
            ProcessorAction::ReplaceLatest { path: plan.latest_path, target: staged.path.clone() },
        );
        actions.push(ProcessorAction::RecordAlias { path: alias.clone() });
        if self.config.enable_dual_format {
            match self.strategy {
                ClipboardStrategy::DualFormatCapable => {
                    actions.push(ProcessorAction::SetDualClipboard { path: alias.clone() });
                },
                ClipboardStrategy::TextOnlyFallback => {
                    actions.push(ProcessorAction::SetTextClipboard { text: alias.clone() });
                },
            }
        }
        actions.push(ProcessorAction::Rotate { extension: String::from_str(extension) });
        if self.config.enable_notifications {
            actions.push(
                ProcessorAction::Notify {
                    title: String::from_str("Image ready to paste"),
                    body: alias,
                },
            );
        }
        assert(action_views(actions@) =~= image_steps(
            self.config(),
            self.strategy(),
            staged.path@,
            image_extension(old(event).content.content@),
            stamp@,
        ));
        actions
    }

    /// The steps that follow staging a large text event's payload as
    /// `staged`, with aliases stamped `stamp`. The event learns the staged
    /// path at once, and the alias path only through the step that follows
    /// the making of the aliases.
    pub fn process_large_text_event(&self, event: &mut ClipboardEvent, staged: &StagedFile, stamp: &str) -> (actions:
        Vec<ProcessorAction>)
        ensures
            action_views(actions@) == text_steps(self.config(), staged.path@, stamp@),
            final(event).content == old(event).content,
            opt_text(final(event).staged_path) == Some(staged.path@),
            final(event).symlink_path == old(event).symlink_path,
    {
        let plan = self.create_symlink(staged.path.as_str(), "txt", stamp);
        event.staged_path = Some(staged.path.clone());
        let alias = plan.alias_path.clone();
        let mut actions: Vec<ProcessorAction> = Vec::new();
        actions.push(ProcessorAction::CreateAlias { path: plan.alias_path, target: plan.target });
        actions.push(
            ProcessorAction::ReplaceLatest { path: plan.latest_path, target: staged.path.clone() },
        );
        actions.push(ProcessorAction::RecordAlias { path: alias.clone() });
        actions.push(ProcessorAction::SetTextClipboard { text: alias });
        actions.push(ProcessorAction::Rotate { extension: String::from_str("txt") });
        assert(action_views(actions@) =~= text_steps(self.config(), staged.path@, stamp@));
        actions
    }

    /// Records in an event the alias that was made for it. Nothing else
    /// of the event changes.
    pub fn record_alias(&self, event: &mut ClipboardEvent, path: &str)
        ensures
            opt_text(final(event).symlink_path) == Some(path@),
            final(event).content == old(event).content,
            final(event).staged_path == old(event).staged_path,
    {
        event.symlink_path = Some(String::from_str(path));
    }

    /// A timestamp for alias names: the local time to the second, as year,
    /// month, day, a hyphen, hour, minute and second.
    pub fn alias_stamp(&self) -> (stamp: String)
        ensures
            is_stamp(stamp@),
    {
        local_timestamp()
    }

    /// Names the two aliases for a staged artifact: the numbered one,
    /// stamped `stamp`, and the fixed one of the kind.
    pub fn create_symlink(&self, target: &str, extension: &str, stamp: &str) -> (plan: AliasPlan)
        ensures
            plan.alias_path@ == alias_path_for(self.config(), extension@, stamp@),
            plan.latest_path@ == latest_path_for(self.config(), extension@),
            plan.target@ == target@,
    {
        proof {
            reveal_strlit("-");
            reveal_strlit(".");
        }
        let mut name = self.config.symlink_prefix.clone();
        name.append("-");
        name.append(stamp);
        name.append(".");
        name.append(extension);
        assert(name@ =~= alias_name(self.config.symlink_prefix@, stamp@, extension@));
        let mut latest = self.config.symlink_prefix.clone();
        latest.append(".");
        latest.append(extension);
        assert(latest@ =~= latest_name(self.config.symlink_prefix@, extension@));
        AliasPlan {
            alias_path: join(self.config.symlink_dir.as_str(), name.as_str()),
            latest_path: join(self.config.symlink_dir.as_str(), latest.as_str()),
            target: String::from_str(target),
        }
    }

    /// Picks the aliases of a kind that a rotation removes from a listing
    /// of the alias directory: every numbered alias but the newest
    /// `keep_symlinks`.
    pub fn cleanup_old_symlinks(&self, listing: &Vec<AliasEntry>, extension: &str) -> (stale: Vec<
        String,
    >)
        ensures
            texts(stale@) == stale_aliases(
                listing@,
                self.config().symlink_dir@,
                self.config().symlink_prefix@,
                extension@,
                self.config().keep_symlinks,
            ),
    {
        proof {
            reveal_strlit("-");
            reveal_strlit(".");
        }
        let mut wanted_start = self.config.symlink_prefix.clone();
        wanted_start.append("-");
        let mut wanted_end = String::from_str(".");
        wanted_end.append(extension);
        assert(wanted_start@ =~= self.config.symlink_prefix@ + seq!['-']);
        assert(wanted_end@ =~= seq!['.'] + extension@);
        let ghost prefix = self.config.symlink_prefix@;
        let mut ranked: Vec<AliasEntry> = Vec::new();
        let mut i: usize = 0;
        assert(listing@.take(0) =~= Seq::<AliasEntry>::empty());
        while i < listing.len()
            invariant
                i <= listing.len(),
                wanted_start@ == prefix + seq!['-'],
                wanted_end@ == seq!['.'] + extension@,
                ranked@ == newest_first(candidates(listing@.take(i as int), prefix, extension@)),
            decreases listing.len() - i,
        {
            assert(listing@.take(i as int + 1).drop_last() =~= listing@.take(i as int));
            let entry = &listing[i];
            if entry.is_symlink && starts_with(entry.name.as_str(), wanted_start.as_str())
                && ends_with(entry.name.as_str(), wanted_end.as_str()) {
                let ghost found = candidates(listing@.take(i as int), prefix, extension@);
                assert(found.push(*entry).drop_last() =~= found);
                insert_entry(&mut ranked, entry.clone());
            }
            i += 1;
        }
        assert(listing@.take(i as int) =~= listing@);
        let keep = self.config.keep_symlinks;
        let start: usize = if keep <= ranked.len() {
            keep
        } else {
            ranked.len()
        };
        let mut stale: Vec<String> = Vec::new();
        let mut k: usize = start;
        let ghost dir = self.config.symlink_dir@;
        assert(texts(stale@) =~= entry_paths(ranked@.subrange(start as int, k as int), dir));
        while k < ranked.len()
            invariant
                start <= k <= ranked.len(),
                dir == self.config.symlink_dir@,
                texts(stale@) == entry_paths(ranked@.subrange(start as int, k as int), dir),
            decreases ranked.len() - k,
        {
            let path = join(self.config.symlink_dir.as_str(), ranked[k].name.as_str());
            let ghost before = stale@;
            stale.push(path);
            assert(texts(stale@) =~= texts(before).push(join_path(dir, ranked@[k as int].name@)));
            assert(ranked@.subrange(start as int, k as int + 1) =~= ranked@.subrange(
                start as int,
                k as int,
            ).push(ranked@[k as int]));
            assert(texts(stale@) =~= entry_paths(ranked@.subrange(start as int, k as int + 1), dir));
            k += 1;
        }
        assert(ranked@.subrange(start as int, k as int) =~= ranked@.skip(start as int));
        stale
    }

    /// What replacing the clipboard with `text` writes.
    pub fn set_text_clipboard(&self, text: &str) -> (write: Result<ClipboardWrite, ClaudeUtilsError>)
        ensures
            write.is_ok(),
            write.unwrap()@ == ClipboardWriteView::Text(text@),
    {
        self.clipboard_manager.set_content(
            &ClipboardContent::Text { data: String::from_str(text), truncated: None },
        )
    }

    /// What presenting `path` together with its image writes: the path as
    /// text and the image file, side by side.
    pub fn set_dual_clipboard(&self, path: &str, image_data: &[u8]) -> (write: Result<
        ClipboardWrite,
        ClaudeUtilsError,
    >)
        ensures
            write.is_ok(),
            write.unwrap()@ == (ClipboardWriteView::TextAndImage { text: path@, image: image_data@ }),
    {
        Ok(DualClipboard::set_dual_content(path, image_data))
    }
}

} // verus!
