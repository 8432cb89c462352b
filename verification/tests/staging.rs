use std::collections::HashSet;

use claude_utils::file_manager::{artifact_path, cache_key, FileAge, FileManager, FileManagerConfig, StageAction, StagedFile, THUMBNAIL_BOUND};

fn manager() -> FileManager {
    FileManager::new(FileManagerConfig::with_temp_dir("/tmp"))
}

fn stage(manager: &mut FileManager, disk: &mut HashSet<String>, writes: &mut usize, data: &[u8], format: &str, now: u64) -> StagedFile {
    let request = manager.stage_image(data, format);
    let exists = disk.contains(&request.path);
    match manager.resolve(&request, exists) {
        StageAction::Reuse(file) => file,
        StageAction::Write => {
            disk.insert(request.path.clone());
            *writes += 1;
            let thumbnail = manager.generate_thumbnail(&request, data).is_some();
            manager.commit(request, now, thumbnail)
        }
    }
}

#[test]
fn test_file_staging() {
    let mut file_manager = manager();
    let mut disk = HashSet::new();
    let mut writes = 0;

    let test_data = b"Test image data";
    let staged = stage(&mut file_manager, &mut disk, &mut writes, test_data, "png", 1000);

    assert!(disk.contains(&staged.path));
    assert_eq!(staged.size, test_data.len());
    assert_eq!(staged.format, "png");

    let staged2 = stage(&mut file_manager, &mut disk, &mut writes, test_data, "png", 2000);

    assert_eq!(staged.path, staged2.path);
    assert_eq!(writes, 1);
    assert_eq!(staged2.created_at, 1000);
}

#[test]
fn default_config_is_fifteen_minutes() {
    let config = FileManagerConfig::with_temp_dir("/tmp");
    assert_eq!(config.staging_dir, "/tmp/claude_utils");
    assert_eq!(config.cleanup_interval, 900_000);
    assert_eq!(config.max_file_age, 900_000);
    let manager = FileManager::new(config);
    assert_eq!(manager.get_staging_dir(), "/tmp/claude_utils");
    assert_eq!(manager.cleanup_interval(), 900_000);
}

#[test]
fn hello_is_staged_as_text() {
    let mut manager = manager();
    let request = manager.stage_text("hello");
    assert_eq!(request.hash, "2cf24dba5fb0a30e26e83b2ac5b9e29e1b161e5c1fa7425e73043362938b9824");
    assert_eq!(request.path, "/tmp/claude_utils/clip-2cf24dba.txt");
    assert_eq!(request.size, 5);
    assert_eq!(request.format, "txt");
    assert_eq!(request.thumbnail_path, None);
    assert!(matches!(manager.resolve(&request, false), StageAction::Write));
    assert!(matches!(manager.resolve(&request, true), StageAction::Write));
    let staged = manager.commit(request, 42, false);
    assert_eq!(staged.path, "/tmp/claude_utils/clip-2cf24dba.txt");
    assert_eq!(staged.size, 5);
    assert_eq!(staged.created_at, 42);
    assert_eq!(staged.thumbnail_path, None);

    let again = manager.stage_text("hello");
    match manager.resolve(&again, true) {
        StageAction::Reuse(file) => {
            assert_eq!(file.path, staged.path);
            assert_eq!(file.size, 5);
            assert_eq!(file.created_at, 42);
        }
        StageAction::Write => panic!("a second write was asked for"),
    }
}

#[test]
fn index_hit_without_file_is_a_miss() {
    let mut manager = manager();
    let request = manager.stage_text("hello");
    manager.commit(request, 1, false);
    let again = manager.stage_text("hello");
    assert!(matches!(manager.resolve(&again, false), StageAction::Write));
    let staged = manager.commit(again, 7, false);
    assert_eq!(staged.created_at, 7);
    let third = manager.stage_text("hello");
    match manager.resolve(&third, true) {
        StageAction::Reuse(file) => assert_eq!(file.created_at, 7),
        StageAction::Write => panic!("the refreshed entry was not found"),
    }
}

#[test]
fn images_get_a_thumbnail_path() {
    let manager = manager();
    for format in ["png", "jpg", "jpeg", "gif", "webp", "bmp"] {
        let request = manager.stage_image(b"hello", format);
        assert_eq!(request.path, format!("/tmp/claude_utils/clip-2cf24dba.{}", format));
        assert_eq!(request.thumbnail_path, Some("/tmp/claude_utils/2cf24dba.thumb.png".to_string()));
    }
    let request = manager.stage_image(b"hello", "tiff");
    assert_eq!(request.path, "/tmp/claude_utils/clip-2cf24dba.tiff");
    assert_eq!(request.thumbnail_path, None);
}

#[test]
fn same_payload_other_kind_is_another_path() {
    let manager = manager();
    let png = manager.stage_image(b"hello", "png");
    let gif = manager.stage_image(b"hello", "gif");
    assert_ne!(png.path, gif.path);
    assert_eq!(png.hash, gif.hash);
}

#[test]
fn thumbnail_is_recorded_only_when_saved() {
    let mut manager = manager();
    let request = manager.stage_image(b"hello", "png");
    let staged = manager.commit(request, 1, true);
    assert_eq!(staged.thumbnail_path, Some("/tmp/claude_utils/2cf24dba.thumb.png".to_string()));
    let request = manager.stage_image(b"other", "png");
    let staged = manager.commit(request, 1, false);
    assert_eq!(staged.thumbnail_path, None);
}

#[test]
fn garbage_gives_no_thumbnail() {
    let manager = manager();
    let request = manager.stage_image(b"not an image", "png");
    assert!(manager.generate_thumbnail(&request, b"not an image").is_none());
    let request = manager.stage_text("hello");
    assert!(manager.generate_thumbnail(&request, b"hello").is_none());
}

#[test]
fn cache_lookup_and_update() {
    let mut manager = manager();
    assert!(manager.get_from_cache("abc").is_none());
    let file = StagedFile { path: "/x/a".to_string(), size: 3, format: "png".to_string(), created_at: 5, thumbnail_path: None };
    manager.update_cache("abc".to_string(), file);
    let found = manager.get_from_cache("abc").expect("entry");
    assert_eq!(found.path, "/x/a");
    let file = StagedFile { path: "/x/b".to_string(), size: 4, format: "png".to_string(), created_at: 6, thumbnail_path: Some("/x/t".to_string()) };
    manager.update_cache("abc".to_string(), file);
    let found = manager.get_from_cache("abc").expect("entry");
    assert_eq!(found.path, "/x/b");
    assert_eq!(found.size, 4);
    assert_eq!(found.thumbnail_path, Some("/x/t".to_string()));
    assert!(manager.get_from_cache("abd").is_none());
    assert_eq!(manager.calculate_hash(b"hello"), "2cf24dba5fb0a30e26e83b2ac5b9e29e1b161e5c1fa7425e73043362938b9824");
}

#[test]
fn cleanup_removes_old_and_keeps_young() {
    let mut manager = manager();
    let max_age = 900_000u64;
    let old = manager.stage_text("old");
    let old_hash = cache_key(&old.hash, "txt");
    let old_file = manager.commit(old, 1_000, false);
    let young = manager.stage_text("young");
    let young_hash = cache_key(&young.hash, "txt");
    let young_file = manager.commit(young, 1_000 + max_age, false);
    let now = 1_000 + max_age + 1;

    let listing = vec![
        FileAge { path: old_file.path.clone(), age: max_age + 1 },
        FileAge { path: young_file.path.clone(), age: 1 },
    ];
    let removed = manager.run_cleanup(&listing, now);
    assert_eq!(removed, vec![old_file.path.clone()]);
    assert!(manager.get_from_cache(&old_hash).is_none());
    assert_eq!(manager.get_from_cache(&young_hash).expect("young entry").path, young_file.path);
}

#[test]
fn cleanup_at_exactly_max_age() {
    let mut manager = manager();
    let max_age = 900_000u64;
    let entry = manager.stage_text("edge");
    let hash = cache_key(&entry.hash, "txt");
    let file = manager.commit(entry, 10, false);
    let listing = vec![FileAge { path: file.path.clone(), age: max_age }];
    assert!(manager.expired_files(&listing).is_empty());
    manager.prune_cache(10 + max_age);
    assert!(manager.get_from_cache(&hash).is_some());
    let listing = vec![FileAge { path: file.path.clone(), age: max_age + 1 }];
    assert_eq!(manager.expired_files(&listing), vec![file.path.clone()]);
    manager.prune_cache(10 + max_age + 1);
    assert!(manager.get_from_cache(&hash).is_none());
}

#[test]
fn entry_from_the_future_is_pruned() {
    let mut manager = manager();
    let entry = manager.stage_text("future");
    let hash = cache_key(&entry.hash, "txt");
    manager.commit(entry, 100, false);
    manager.prune_cache(99);
    assert!(manager.get_from_cache(&hash).is_none());
}

#[test]
fn expired_files_keep_listing_order() {
    let manager = manager();
    let listing = vec![
        FileAge { path: "/s/c".to_string(), age: 900_001 },
        FileAge { path: "/s/a".to_string(), age: 5 },
        FileAge { path: "/s/b".to_string(), age: u64::MAX },
    ];
    assert_eq!(manager.expired_files(&listing), vec!["/s/c".to_string(), "/s/b".to_string()]);
    assert!(manager.expired_files(&Vec::new()).is_empty());
}

#[test]
fn artifact_names_come_from_the_hash() {
    let manager = manager();
    let request = manager.name_artifact("0123456789abcdef".to_string(), 12, "png", true);
    assert_eq!(request.hash, "0123456789abcdef");
    assert_eq!(request.path, "/tmp/claude_utils/clip-01234567.png");
    assert_eq!(request.size, 12);
    assert_eq!(request.format, "png");
    assert_eq!(request.thumbnail_path, Some("/tmp/claude_utils/01234567.thumb.png".to_string()));
    let request = manager.name_artifact("01234567".to_string(), 0, "txt", false);
    assert_eq!(request.path, "/tmp/claude_utils/clip-01234567.txt");
    assert_eq!(request.thumbnail_path, None);
}

#[test]
fn another_kind_in_between_does_not_disturb_reuse() {
    let mut file_manager = manager();
    let mut disk = HashSet::new();
    let mut writes = 0;

    let a = stage(&mut file_manager, &mut disk, &mut writes, b"abc", "png", 1);
    let b = stage(&mut file_manager, &mut disk, &mut writes, b"abc", "jpeg", 2);
    let c = stage(&mut file_manager, &mut disk, &mut writes, b"abc", "png", 3);

    assert_eq!(a.path, "/tmp/claude_utils/clip-ba7816bf.png");
    assert_eq!(b.path, "/tmp/claude_utils/clip-ba7816bf.jpeg");
    assert_eq!(c.path, a.path);
    assert_eq!(c.format, "png");
    assert_eq!(c.created_at, 1);
    assert_eq!(writes, 2);

    let d = stage(&mut file_manager, &mut disk, &mut writes, b"abc", "jpeg", 4);
    assert_eq!(d.path, b.path);
    assert_eq!(d.format, "jpeg");
    assert_eq!(writes, 2);
}

#[test]
fn keys_and_paths_from_hash_and_kind() {
    assert_eq!(cache_key("0123456789abcdef", "png"), "0123456789abcdef.png");
    assert_eq!(cache_key("", ""), ".");
    assert_eq!(artifact_path("/s", "0123456789abcdef", "png"), "/s/clip-01234567.png");
    assert_eq!(artifact_path("", "0123456789abcdef", "txt"), "clip-01234567.txt");
    assert_eq!(THUMBNAIL_BOUND, 256);
}

#[test]
fn thumbnail_of_a_small_image_fits_the_bound() {
    let manager = manager();
    let clipboard = claude_utils::clipboard::ClipboardManager::new();
    let raw = claude_utils::clipboard::RawImage { width: 10, height: 300, bytes: vec![9u8; 10 * 300 * 4] };
    let png = clipboard.get_raw_image(raw).expect("png");
    let request = manager.stage_image(&png, "png");
    let thumb = manager.generate_thumbnail(&request, &png).expect("thumbnail");
    assert_eq!((thumb.width, thumb.height), (9, 256));
    let text = manager.stage_image(&png, "txt");
    assert!(manager.generate_thumbnail(&text, &png).is_none());
}
