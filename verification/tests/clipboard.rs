use claude_utils::clipboard::{ClipboardContent, ClipboardManager, ClipboardWrite, RawImage};
use claude_utils::ClaudeUtilsError;

fn raw(width: usize, height: usize) -> RawImage {
    RawImage { width, height, bytes: vec![200u8; width * height * 4] }
}

#[test]
fn test_clipboard_text_roundtrip() {
    let clipboard = ClipboardManager::new();

    let test_text = "Hello, clipboard!";
    let content = ClipboardContent::Text { data: test_text.to_string(), truncated: None };

    let written = match clipboard.set_content(&content).expect("Failed to set clipboard") {
        ClipboardWrite::Text(text) => text,
        _ => panic!("Expected a text write"),
    };

    let retrieved = clipboard.get_content(None, Some(written), 100).expect("Failed to get clipboard");

    match retrieved.content {
        ClipboardContent::Text { data, .. } => {
            assert_eq!(data, test_text);
        }
        _ => panic!("Expected text content"),
    }
}

#[test]
fn empty_clipboard_has_no_content() {
    let clipboard = ClipboardManager::new();
    match clipboard.get_content(None, None, 1) {
        Err(ClaudeUtilsError::Clipboard(message)) => assert_eq!(message, "No content in clipboard"),
        other => panic!("unexpected: {:?}", other),
    }
}

#[test]
fn oversized_text_is_returned_in_full() {
    let clipboard = ClipboardManager::new();
    let text = "x".repeat(65536 + 10);
    let snapshot = clipboard.process_text(text.clone(), 9);
    assert_eq!(snapshot.metadata.timestamp, 9);
    assert_eq!(snapshot.metadata.source, None);
    match snapshot.content {
        ClipboardContent::Text { data, truncated } => {
            assert_eq!(data, text);
            assert_eq!(truncated, None);
        }
        _ => panic!("Expected text content"),
    }
}

#[test]
fn image_wins_over_text() {
    let clipboard = ClipboardManager::new();
    let snapshot = clipboard.get_content(Some(raw(2, 2)), Some("text".to_string()), 5).expect("snapshot");
    assert!(matches!(snapshot.content, ClipboardContent::ImagePng { .. }));
}

#[test]
fn small_image_is_inlined_as_base64_png() {
    let clipboard = ClipboardManager::new();
    let png = clipboard.get_raw_image(raw(100, 50)).expect("png");
    assert_eq!(&png[..8], &[0x89, b'P', b'N', b'G', 0x0d, 0x0a, 0x1a, 0x0a]);
    let decoded = image::load_from_memory(&png).expect("decodes");
    assert_eq!(decoded.width(), 100);
    assert_eq!(decoded.height(), 50);

    let snapshot = clipboard.process_image(raw(100, 50), 77).expect("snapshot");
    assert_eq!(snapshot.metadata.timestamp, 77);
    match snapshot.content {
        ClipboardContent::ImagePng { data, file, width, height, size } => {
            assert_eq!(width, 100);
            assert_eq!(height, 50);
            assert_eq!(size, png.len());
            assert_eq!(file, None);
            let text = data.expect("inlined");
            assert!(text.starts_with("iVBORw0KGgo"));
            assert_eq!(text.len(), (png.len() + 2) / 3 * 4);
            let content = ClipboardContent::ImagePng { data: Some(text), file: None, width: 1, height: 1, size: 0 };
            match clipboard.set_content(&content).expect("write") {
                ClipboardWrite::Image(image) => assert_eq!(image.bytes, png),
                _ => panic!("Expected an image write"),
            }
        }
        _ => panic!("Expected a PNG"),
    }
}

#[test]
fn large_image_is_not_inlined() {
    let clipboard = ClipboardManager::new();
    let mut bytes = Vec::with_capacity(256 * 256 * 4);
    let mut state: u32 = 12345;
    for _ in 0..256 * 256 * 4 {
        state = state.wrapping_mul(1664525).wrapping_add(1013904223);
        bytes.push((state >> 24) as u8);
    }
    let snapshot = clipboard.process_image(RawImage { width: 256, height: 256, bytes }, 1).expect("snapshot");
    match snapshot.content {
        ClipboardContent::ImagePng { data, file, size, .. } => {
            assert!(size > 65536);
            assert_eq!(data, None);
            let file = file.expect("a reference");
            assert!(file.starts_with("clip-"));
            assert!(file.ends_with(".png"));
            assert_eq!(file.len(), "clip-01234567.png".len());
        }
        _ => panic!("Expected a PNG"),
    }
}

#[test]
fn short_pixel_buffer_is_an_image_error() {
    let clipboard = ClipboardManager::new();
    let image = RawImage { width: 10, height: 10, bytes: vec![0u8; 399] };
    assert!(matches!(clipboard.get_raw_image(image), Err(ClaudeUtilsError::ImageProcessing(_))));
    let image = RawImage { width: 10, height: 10, bytes: vec![0u8; 399] };
    assert!(matches!(clipboard.process_image(image, 0), Err(ClaudeUtilsError::ImageProcessing(_))));
    let image = RawImage { width: 10, height: 10, bytes: vec![0u8; 399] };
    assert!(matches!(clipboard.get_content(Some(image), Some("t".to_string()), 0), Err(ClaudeUtilsError::ImageProcessing(_))));
}

#[test]
fn text_write_is_the_text() {
    let clipboard = ClipboardManager::new();
    let content = ClipboardContent::Text { data: "abc".to_string(), truncated: Some(true) };
    match clipboard.set_content(&content).expect("write") {
        ClipboardWrite::Text(text) => assert_eq!(text, "abc"),
        _ => panic!("Expected a text write"),
    }
}

#[test]
fn image_write_decodes_base64() {
    let clipboard = ClipboardManager::new();
    let content = ClipboardContent::ImagePng { data: Some("aGVsbG8=".to_string()), file: None, width: 3, height: 4, size: 0 };
    match clipboard.set_content(&content).expect("write") {
        ClipboardWrite::Image(image) => {
            assert_eq!(image.bytes, b"hello");
            assert_eq!(image.width, 3);
            assert_eq!(image.height, 4);
        }
        _ => panic!("Expected an image write"),
    }
    let content = ClipboardContent::ImageJpeg { data: Some("AAEC".to_string()), file: Some("/x".to_string()), width: 1, height: 1, size: 0 };
    match clipboard.set_content(&content).expect("write") {
        ClipboardWrite::Image(image) => assert_eq!(image.bytes, vec![0u8, 1, 2]),
        _ => panic!("Expected an image write"),
    }
}

#[test]
fn bad_base64_is_a_clipboard_error() {
    let clipboard = ClipboardManager::new();
    let content = ClipboardContent::ImagePng { data: Some("not base64!".to_string()), file: None, width: 1, height: 1, size: 0 };
    match clipboard.set_content(&content) {
        Err(ClaudeUtilsError::Clipboard(message)) => assert!(message.starts_with("Base64 decode error: ")),
        other => panic!("unexpected: {:?}", other),
    }
}

#[test]
fn file_reference_cannot_be_written() {
    let clipboard = ClipboardManager::new();
    let content = ClipboardContent::ImagePng { data: None, file: Some("/tmp/x.png".to_string()), width: 1, height: 1, size: 0 };
    match clipboard.set_content(&content) {
        Err(ClaudeUtilsError::Clipboard(message)) => assert_eq!(message, "Cannot set clipboard from file reference"),
        other => panic!("unexpected: {:?}", other),
    }
    let content = ClipboardContent::ImageJpeg { data: None, file: None, width: 1, height: 1, size: 0 };
    assert!(matches!(clipboard.set_content(&content), Err(ClaudeUtilsError::Clipboard(_))));
}

#[test]
fn thumbnail_fits_256() {
    let clipboard = ClipboardManager::new();
    let png = clipboard.get_raw_image(raw(600, 300)).expect("png");
    let manager = claude_utils::file_manager::FileManager::new(claude_utils::file_manager::FileManagerConfig::with_temp_dir("/tmp"));
    let request = manager.stage_image(&png, "png");
    let thumb = manager.generate_thumbnail(&request, &png).expect("thumbnail");
    assert_ne!(thumb.png, png);
    assert_eq!(thumb.width, 256);
    assert_eq!(thumb.height, 128);
    let decoded = image::load_from_memory(&thumb.png).expect("decodes");
    assert_eq!(decoded.width(), 256);
    assert_eq!(decoded.height(), 128);
}

#[test]
fn image_snapshot_inlines_up_to_the_budget() {
    let clipboard = ClipboardManager::new();
    let snapshot = clipboard.image_snapshot(3, 4, b"hello", 11);
    assert_eq!(snapshot.metadata.timestamp, 11);
    match snapshot.content {
        ClipboardContent::ImagePng { data, file, width, height, size } => {
            assert_eq!(data, Some("aGVsbG8=".to_string()));
            assert_eq!(file, None);
            assert_eq!((width, height, size), (3, 4, 5));
        }
        _ => panic!("Expected a PNG"),
    }
    let at = vec![0u8; 65536];
    match clipboard.image_snapshot(1, 1, &at, 0).content {
        ClipboardContent::ImagePng { data, size, .. } => {
            assert_eq!(size, 65536);
            assert_eq!(data.expect("inlined").len(), 87384);
        }
        _ => panic!("Expected a PNG"),
    }
    let above = vec![0u8; 65537];
    let hash = claude_utils::hashing::content_hash(&above);
    match clipboard.image_snapshot(1, 1, &above, 0).content {
        ClipboardContent::ImagePng { data, file, size, .. } => {
            assert_eq!(size, 65537);
            assert_eq!(data, None);
            assert_eq!(file, Some(format!("clip-{}.png", &hash[..8])));
        }
        _ => panic!("Expected a PNG"),
    }
    let staging = ClipboardManager::with_staging_dir("/tmp/stage");
    match staging.image_snapshot(1, 1, &above, 0).content {
        ClipboardContent::ImagePng { data, file, .. } => {
            assert_eq!(data, None);
            assert_eq!(file, Some(format!("/tmp/stage/clip-{}.png", &hash[..8])));
            let store = claude_utils::file_manager::FileManager::new(claude_utils::file_manager::FileManagerConfig {
                staging_dir: "/tmp/stage".to_string(),
                cleanup_interval: 1,
                max_file_age: 1,
            });
            assert_eq!(file, Some(store.stage_image(&above, "png").path));
        }
        _ => panic!("Expected a PNG"),
    }
    match staging.image_snapshot(1, 1, b"hello", 0).content {
        ClipboardContent::ImagePng { data, file, .. } => {
            assert!(data.is_some());
            assert_eq!(file, None);
        }
        _ => panic!("Expected a PNG"),
    }
}

#[test]
fn different_large_images_have_different_fingerprints() {
    let clipboard = ClipboardManager::new();
    let watcher = claude_utils::clipboard::watcher::ClipboardWatcher::new(500);
    let one = vec![1u8; 70000];
    let mut two = one.clone();
    two[69999] = 2;
    let a = clipboard.image_snapshot(10, 10, &one, 0);
    let b = clipboard.image_snapshot(10, 10, &two, 0);
    assert_ne!(watcher.calculate_content_hash(&a.content), watcher.calculate_content_hash(&b.content));
}
