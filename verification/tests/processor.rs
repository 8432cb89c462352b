use claude_utils::clipboard::processor::{AliasEntry, ClipboardProcessor, ClipboardStrategy, Dispatch, ProcessorAction, ProcessorConfig};
use claude_utils::clipboard::watcher::{ClipboardEvent, ClipboardWatcher};
use claude_utils::clipboard::{ClipboardContent, ClipboardManager, ClipboardWrite, RawImage};
use claude_utils::file_manager::{FileManager, FileManagerConfig, StageAction, StagedFile};

fn config(keep: usize) -> ProcessorConfig {
    ProcessorConfig {
        symlink_dir: "/home/u/Desktop".to_string(),
        symlink_prefix: "paste".to_string(),
        keep_symlinks: keep,
        enable_dual_format: true,
        enable_notifications: false,
    }
}

fn processor(config: ProcessorConfig) -> ClipboardProcessor {
    let store = FileManager::new(FileManagerConfig::with_temp_dir("/tmp"));
    ClipboardProcessor::new(config, store, ClipboardManager::new())
}

fn event_for(content: ClipboardContent) -> ClipboardEvent {
    let clipboard = ClipboardManager::new();
    let mut data = clipboard.process_text(String::new(), 0);
    data.content = content;
    ClipboardWatcher::new(500).check_clipboard(Ok(data), 0).expect("event")
}

fn staged(path: &str) -> StagedFile {
    StagedFile { path: path.to_string(), size: 1, format: "png".to_string(), created_at: 0, thumbnail_path: None }
}

fn describe(action: &ProcessorAction) -> String {
    match action {
        ProcessorAction::CreateAlias { path, target } => format!("alias {} -> {}", path, target),
        ProcessorAction::ReplaceLatest { path, target } => format!("latest {} -> {}", path, target),
        ProcessorAction::RecordAlias { path } => format!("record {}", path),
        ProcessorAction::SetDualClipboard { path } => format!("dual {}", path),
        ProcessorAction::SetTextClipboard { text } => format!("text {}", text),
        ProcessorAction::Rotate { extension } => format!("rotate {}", extension),
        ProcessorAction::Notify { title, body } => format!("notify {}: {}", title, body),
    }
}

fn entry(name: &str, modified: u64) -> AliasEntry {
    AliasEntry { name: name.to_string(), is_symlink: true, modified }
}

#[test]
fn default_config() {
    let config = ProcessorConfig::with_home(Some("/home/u"));
    assert_eq!(config.symlink_dir, "/home/u/Desktop");
    assert_eq!(config.symlink_prefix, "claude_paste");
    assert_eq!(config.keep_symlinks, 5);
    assert!(config.enable_dual_format);
    assert!(config.enable_notifications);
    assert_eq!(ProcessorConfig::with_home(None).symlink_dir, "./Desktop");
}

#[test]
fn text_at_the_threshold_passes_through() {
    let processor = processor(config(5));
    let at = ClipboardContent::Text { data: "x".repeat(65536), truncated: None };
    assert_eq!(processor.process_event(&at), Dispatch::Passthrough);
    let empty = ClipboardContent::Text { data: String::new(), truncated: None };
    assert_eq!(processor.process_event(&empty), Dispatch::Passthrough);
}

#[test]
fn text_above_the_threshold_is_staged_and_the_clipboard_rewritten() {
    let mut processor = processor(config(5));
    let text = "x".repeat(65537);
    let content = ClipboardContent::Text { data: text.clone(), truncated: None };
    assert_eq!(processor.process_event(&content), Dispatch::LargeText);

    let request = processor.file_manager().stage_text(&text);
    assert!(matches!(processor.file_manager().resolve(&request, false), StageAction::Write));
    let file = processor.commit_stage(request, 5, false);
    assert_eq!(file.size, 65537);
    assert_eq!(file.format, "txt");

    let mut event = event_for(content);
    let actions = processor.process_large_text_event(&mut event, &file, "20240102-030405");
    let steps: Vec<String> = actions.iter().map(describe).collect();
    assert_eq!(
        steps,
        vec![
            format!("alias /home/u/Desktop/paste-20240102-030405.txt -> {}", file.path),
            format!("latest /home/u/Desktop/paste.txt -> {}", file.path),
            "record /home/u/Desktop/paste-20240102-030405.txt".to_string(),
            "text /home/u/Desktop/paste-20240102-030405.txt".to_string(),
            "rotate txt".to_string(),
        ]
    );
    assert_eq!(event.staged_path, Some(file.path.clone()));
    assert_eq!(event.symlink_path, None);
    processor.record_alias(&mut event, "/home/u/Desktop/paste-20240102-030405.txt");
    assert_eq!(event.staged_path, Some(file.path.clone()));
    assert_eq!(event.symlink_path, Some("/home/u/Desktop/paste-20240102-030405.txt".to_string()));
}

#[test]
fn multibyte_text_is_measured_in_bytes() {
    let processor = processor(config(5));
    let content = ClipboardContent::Text { data: "\u{e9}".repeat(32769), truncated: None };
    assert_eq!(processor.process_event(&content), Dispatch::LargeText);
    let content = ClipboardContent::Text { data: "\u{e9}".repeat(32768), truncated: None };
    assert_eq!(processor.process_event(&content), Dispatch::Passthrough);
}

#[test]
fn raster_image_is_staged_aliased_and_the_path_put_on_the_clipboard() {
    let mut settings = config(5);
    settings.enable_notifications = true;
    let mut processor = processor(settings);
    let clipboard = ClipboardManager::new();
    let raw = RawImage { width: 100, height: 50, bytes: vec![7u8; 100 * 50 * 4] };
    let snapshot = clipboard.get_content(Some(raw), None, 1).expect("snapshot");
    assert_eq!(processor.process_event(&snapshot.content), Dispatch::Image);
    assert_eq!(processor.image_format(&snapshot.content), "png");

    let raw = RawImage { width: 100, height: 50, bytes: vec![7u8; 100 * 50 * 4] };
    let png = clipboard.get_raw_image(raw).expect("png");
    let request = processor.file_manager().stage_image(&png, "png");
    assert!(matches!(processor.file_manager().resolve(&request, true), StageAction::Write));
    let thumbnail = processor.file_manager().generate_thumbnail(&request, &png).is_some();
    assert!(thumbnail);
    let file = processor.commit_stage(request, 9, thumbnail);
    assert!(file.path.starts_with("/tmp/claude_utils/clip-"));
    assert!(file.path.ends_with(".png"));
    assert!(file.thumbnail_path.is_some());

    let mut event = ClipboardWatcher::new(500).check_clipboard(Ok(snapshot), 1).expect("event");
    let actions = processor.process_image_event(&mut event, &file, "20240102-030405");
    let steps: Vec<String> = actions.iter().map(describe).collect();
    assert_eq!(
        steps,
        vec![
            format!("alias /home/u/Desktop/paste-20240102-030405.png -> {}", file.path),
            format!("latest /home/u/Desktop/paste.png -> {}", file.path),
            "record /home/u/Desktop/paste-20240102-030405.png".to_string(),
            "text /home/u/Desktop/paste-20240102-030405.png".to_string(),
            "rotate png".to_string(),
            "notify Image ready to paste: /home/u/Desktop/paste-20240102-030405.png".to_string(),
        ]
    );
    assert_eq!(event.staged_path, Some(file.path.clone()));
    assert_eq!(event.symlink_path, None);
    for action in &actions {
        if let ProcessorAction::RecordAlias { path } = action {
            processor.record_alias(&mut event, path);
        }
    }
    assert_eq!(event.symlink_path, Some("/home/u/Desktop/paste-20240102-030405.png".to_string()));

    match processor.set_text_clipboard("/home/u/Desktop/paste-20240102-030405.png").expect("write") {
        ClipboardWrite::Text(text) => assert_eq!(text, "/home/u/Desktop/paste-20240102-030405.png"),
        _ => panic!("Expected a text write"),
    }
}

#[test]
fn image_steps_follow_the_switches() {
    let jpeg = ClipboardContent::ImageJpeg { data: None, file: None, width: 1, height: 1, size: 1 };

    let dual = processor(config(5)).with_strategy(ClipboardStrategy::DualFormatCapable);
    let mut event = event_for(jpeg.clone());
    let steps: Vec<String> = dual.process_image_event(&mut event, &staged("/s/a"), "T").iter().map(describe).collect();
    assert_eq!(
        steps,
        vec![
            "alias /home/u/Desktop/paste-T.jpeg -> /s/a".to_string(),
            "latest /home/u/Desktop/paste.jpeg -> /s/a".to_string(),
            "record /home/u/Desktop/paste-T.jpeg".to_string(),
            "dual /home/u/Desktop/paste-T.jpeg".to_string(),
            "rotate jpeg".to_string(),
        ]
    );

    let mut settings = config(5);
    settings.enable_dual_format = false;
    let plain = processor(settings);
    let mut event = event_for(jpeg);
    let steps: Vec<String> = plain.process_image_event(&mut event, &staged("/s/a"), "T").iter().map(describe).collect();
    assert_eq!(
        steps,
        vec![
            "alias /home/u/Desktop/paste-T.jpeg -> /s/a".to_string(),
            "latest /home/u/Desktop/paste.jpeg -> /s/a".to_string(),
            "record /home/u/Desktop/paste-T.jpeg".to_string(),
            "rotate jpeg".to_string(),
        ]
    );

    match dual.set_dual_clipboard("/p", &[0, 7]).expect("write") {
        ClipboardWrite::TextAndImage { text, image } => {
            assert_eq!(text, "/p");
            assert_eq!(image, vec![0u8, 7]);
        }
        _ => panic!("Expected text and image"),
    }
}

#[test]
fn alias_names() {
    let processor = processor(config(5));
    let plan = processor.create_symlink("/s/clip-1.png", "png", "20240102-030405");
    assert_eq!(plan.alias_path, "/home/u/Desktop/paste-20240102-030405.png");
    assert_eq!(plan.latest_path, "/home/u/Desktop/paste.png");
    assert_eq!(plan.target, "/s/clip-1.png");
    assert_eq!(processor.alias_dir(), "/home/u/Desktop");
}

#[test]
fn stamp_has_date_and_time() {
    let stamp = processor(config(5)).alias_stamp();
    assert_eq!(stamp.len(), 15);
    assert_eq!(stamp.as_bytes()[8], b'-');
    assert!(stamp.bytes().enumerate().all(|(i, b)| i == 8 || b.is_ascii_digit()));
    let year: u32 = stamp[..4].parse().expect("year");
    let month: u32 = stamp[4..6].parse().expect("month");
    let day: u32 = stamp[6..8].parse().expect("day");
    let hour: u32 = stamp[9..11].parse().expect("hour");
    let minute: u32 = stamp[11..13].parse().expect("minute");
    let second: u32 = stamp[13..15].parse().expect("second");
    assert!(year >= 2024);
    assert!((1..=12).contains(&month));
    assert!((1..=31).contains(&day));
    assert!(hour < 24 && minute < 60 && second <= 60);
}

#[test]
fn rotation_keeps_the_newest() {
    let processor = processor(config(2));
    let listing = vec![
        entry("paste-1.png", 10),
        entry("paste-2.png", 40),
        entry("paste-3.png", 20),
        entry("paste-4.png", 30),
        entry("paste.png", 50),
        entry("paste-5.txt", 1),
        entry("other-6.png", 1),
        AliasEntry { name: "paste-7.png".to_string(), is_symlink: false, modified: 1 },
    ];
    assert_eq!(
        processor.cleanup_old_symlinks(&listing, "png"),
        vec!["/home/u/Desktop/paste-3.png".to_string(), "/home/u/Desktop/paste-1.png".to_string()]
    );
    assert!(processor.cleanup_old_symlinks(&listing, "txt").is_empty());
}

#[test]
fn rotation_with_equal_times_keeps_listing_order() {
    let processor = processor(config(1));
    let listing = vec![entry("paste-a.png", 5), entry("paste-b.png", 5), entry("paste-c.png", 5)];
    assert_eq!(
        processor.cleanup_old_symlinks(&listing, "png"),
        vec!["/home/u/Desktop/paste-b.png".to_string(), "/home/u/Desktop/paste-c.png".to_string()]
    );
}

#[test]
fn rotation_with_few_aliases_removes_nothing() {
    let processor = processor(config(5));
    let listing = vec![entry("paste-a.png", 5), entry("paste-b.png", 6)];
    assert!(processor.cleanup_old_symlinks(&listing, "png").is_empty());
    assert!(processor.cleanup_old_symlinks(&Vec::new(), "png").is_empty());
    let none = processor_keep_zero();
    assert_eq!(none.cleanup_old_symlinks(&listing, "png").len(), 2);
}

fn processor_keep_zero() -> ClipboardProcessor {
    processor(config(0))
}

#[test]
fn cycles_beyond_the_limit_leave_the_newest() {
    let keep = 5;
    let cycles = 8;
    let mut processor = processor(config(keep));
    let mut directory: Vec<AliasEntry> = Vec::new();
    let mut latest_target = String::new();
    let mut last_staged = String::new();
    for cycle in 0..cycles {
        let payload = format!("payload {}", cycle);
        let request = processor.file_manager().stage_image(payload.as_bytes(), "png");
        let file = processor.commit_stage(request, cycle, false);
        let stamp = format!("20240101-00000{}", cycle);
        let mut event = event_for(ClipboardContent::ImagePng { data: None, file: None, width: 1, height: 1, size: 1 });
        for action in processor.process_image_event(&mut event, &file, &stamp) {
            match action {
                ProcessorAction::CreateAlias { path, .. } => {
                    let name = path.rsplit('/').next().expect("name").to_string();
                    directory.push(AliasEntry { name, is_symlink: true, modified: 1000 + cycle });
                }
                ProcessorAction::ReplaceLatest { target, .. } => latest_target = target,
                ProcessorAction::Rotate { extension } => {
                    let stale = processor.cleanup_old_symlinks(&directory, &extension);
                    directory.retain(|e| !stale.contains(&format!("/home/u/Desktop/{}", e.name)));
                }
                _ => {}
            }
        }
        last_staged = file.path;
        assert!(directory.len() <= keep);
    }
    let names: Vec<String> = directory.iter().map(|e| e.name.clone()).collect();
    assert_eq!(
        names,
        vec![
            "paste-20240101-000003.png".to_string(),
            "paste-20240101-000004.png".to_string(),
            "paste-20240101-000005.png".to_string(),
            "paste-20240101-000006.png".to_string(),
            "paste-20240101-000007.png".to_string(),
        ]
    );
    assert_eq!(latest_target, last_staged);
}

#[test]
fn processor_cleanup_prunes_its_store() {
    let mut processor = processor(config(5));
    let request = processor.file_manager().stage_text("old");
    let hash = claude_utils::file_manager::cache_key(&request.hash, "txt");
    let file = processor.commit_stage(request, 0, false);
    let listing = vec![claude_utils::file_manager::FileAge { path: file.path.clone(), age: 900_001 }];
    assert_eq!(processor.run_cleanup(&listing, 900_001), vec![file.path]);
    assert!(processor.file_manager().get_from_cache(&hash).is_none());
}
