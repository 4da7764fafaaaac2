use base64::Engine;
use image_folder_viewer::cache::ThumbnailCache;
use image_folder_viewer::digest::disk_cache_filename;
use image_folder_viewer::service::{
    check_source, is_disk_cache_valid, AfterDiskRead, DiskDecision, GenerateOutcome, SourceCheck,
    ThumbError,
};

fn png_bytes() -> Vec<u8> {
    let img = image::DynamicImage::ImageRgba8(image::RgbaImage::new(200, 100));
    let mut buffer = std::io::Cursor::new(Vec::new());
    img.write_to(&mut buffer, image::ImageFormat::Png).unwrap();
    buffer.into_inner()
}

#[test]
fn missing_source_is_not_found() {
    match check_source("/nonexistent.png".to_string(), 64, false, true) {
        SourceCheck::Missing(ThumbError::NotFound { path }) => {
            assert_eq!(path, "/nonexistent.png");
        }
        _ => panic!("expected a NotFound error"),
    }
}

#[test]
fn not_found_message_names_the_path() {
    match check_source("/nonexistent.png".to_string(), 64, false, false) {
        SourceCheck::Missing(e) => {
            assert_eq!(e.message(), "image file not found: /nonexistent.png");
        }
        _ => panic!("expected a NotFound error"),
    }
}

#[test]
fn lock_error_message() {
    assert_eq!(ThumbError::LockError.message(), "thumbnail cache lock poisoned");
}

#[test]
fn disk_validity_requires_both_mtimes() {
    assert!(is_disk_cache_valid(Some(10), Some(10)));
    assert!(is_disk_cache_valid(Some(11), Some(10)));
    assert!(!is_disk_cache_valid(Some(9), Some(10)));
    assert!(!is_disk_cache_valid(None, Some(10)));
    assert!(!is_disk_cache_valid(Some(10), None));
    assert!(!is_disk_cache_valid(None, None));
}

#[test]
fn probe_carries_the_derived_filename() {
    match check_source("/pics/cat.png".to_string(), 128, true, true) {
        SourceCheck::Probe(p) => {
            assert_eq!(
                p.filename().clone(),
                disk_cache_filename(&"/pics/cat.png".to_string(), 128)
            );
        }
        _ => panic!("expected a disk probe"),
    }
}

#[test]
fn valid_disk_entry_is_served_and_cached() {
    let mut cache = ThumbnailCache::new(10);
    let probe = match check_source("/pics/cat.png".to_string(), 64, true, true) {
        SourceCheck::Probe(p) => p,
        _ => panic!("expected a disk probe"),
    };
    let read = match probe.evaluate(Some(20), Some(10)) {
        DiskDecision::Read(d) => d,
        DiskDecision::Generate(_) => panic!("a fresh cache entry should be read"),
    };
    let bytes: Vec<u8> = vec![1, 2, 3, 4];
    let expected = format!(
        "data:image/jpeg;base64,{}",
        base64::engine::general_purpose::STANDARD.encode(&bytes)
    );
    match read.accept(Some(bytes)) {
        AfterDiskRead::Ready(ready) => {
            let (payload, write) = ready.store(&mut cache);
            assert_eq!(payload, expected);
            // A disk hit writes nothing back: the disk already holds it.
            assert!(write.is_none());
        }
        AfterDiskRead::Generate(_) => panic!("a successful read should be served"),
    }
    // The served payload was also stored in the memory cache.
    let key = ("/pics/cat.png".to_string(), 64u32);
    assert_eq!(cache.get(&key), Some(expected));
}

#[test]
fn stale_disk_entry_regenerates() {
    // The source was modified after the cache file was written.
    let probe = match check_source("/pics/cat.png".to_string(), 64, true, true) {
        SourceCheck::Probe(p) => p,
        _ => panic!("expected a disk probe"),
    };
    match probe.evaluate(Some(10), Some(20)) {
        DiskDecision::Generate(_) => {}
        DiskDecision::Read(_) => panic!("a stale cache entry must not be served"),
    }
}

#[test]
fn failed_disk_read_degrades_to_regeneration() {
    let probe = match check_source("/pics/cat.png".to_string(), 64, true, true) {
        SourceCheck::Probe(p) => p,
        _ => panic!("expected a disk probe"),
    };
    let read = match probe.evaluate(Some(20), Some(10)) {
        DiskDecision::Read(d) => d,
        DiskDecision::Generate(_) => panic!("a fresh cache entry should be read"),
    };
    match read.accept(None) {
        AfterDiskRead::Generate(_) => {}
        AfterDiskRead::Ready(_) => panic!("a failed read cannot be served"),
    }
}

#[test]
fn generation_resizes_encodes_and_caches() {
    let mut cache = ThumbnailCache::new(10);
    let probe = match check_source("/pics/cat.png".to_string(), 64, true, true) {
        SourceCheck::Probe(p) => p,
        _ => panic!("expected a disk probe"),
    };
    let step = match probe.evaluate(None, Some(10)) {
        DiskDecision::Generate(g) => g,
        DiskDecision::Read(_) => panic!("a missing cache entry cannot be read"),
    };
    let (payload, write) = match step.run(Some(png_bytes())) {
        GenerateOutcome::Ready(ready) => ready.store(&mut cache),
        GenerateOutcome::Failed(e) => panic!("generation failed: {}", e.message()),
    };
    let write = write.expect("a disk cache is available, so a write is due");
    assert_eq!(write.filename, disk_cache_filename(&"/pics/cat.png".to_string(), 64));
    let expected = format!(
        "data:image/jpeg;base64,{}",
        base64::engine::general_purpose::STANDARD.encode(&write.bytes)
    );
    assert_eq!(payload, expected);
    // The bytes handed to the disk are a real JPEG within the bounding box,
    // aspect ratio preserved (200x100 falls to 64x32).
    let thumb = image::load_from_memory(&write.bytes).unwrap();
    assert_eq!(image::guess_format(&write.bytes).unwrap(), image::ImageFormat::Jpeg);
    assert_eq!((64, 32), (image::GenericImageView::dimensions(&thumb)));
    // The payload is served from memory on the next request: no second
    // decode is needed.
    let key = ("/pics/cat.png".to_string(), 64u32);
    assert_eq!(cache.get(&key), Some(payload));
}

#[test]
fn generation_without_disk_cache_still_succeeds() {
    let mut cache = ThumbnailCache::new(10);
    let step = match check_source("/pics/cat.png".to_string(), 64, true, false) {
        SourceCheck::Generate(g) => g,
        _ => panic!("without a disk cache the flow regenerates directly"),
    };
    match step.run(Some(png_bytes())) {
        GenerateOutcome::Ready(ready) => {
            let (payload, write) = ready.store(&mut cache);
            assert!(write.is_none());
            assert!(payload.starts_with("data:image/jpeg;base64,"));
            assert_eq!(cache.get(&("/pics/cat.png".to_string(), 64u32)), Some(payload));
        }
        GenerateOutcome::Failed(e) => panic!("generation failed: {}", e.message()),
    }
}

#[test]
fn undecodable_bytes_fail_the_request() {
    let step = match check_source("/pics/cat.png".to_string(), 64, true, false) {
        SourceCheck::Generate(g) => g,
        _ => panic!("expected regeneration"),
    };
    match step.run(Some(vec![0, 1, 2, 3])) {
        GenerateOutcome::Failed(ThumbError::DecodeFailed { .. }) => {}
        _ => panic!("garbage bytes must fail decoding"),
    }
}

#[test]
fn unreadable_source_fails_as_decode_error() {
    let step = match check_source("/pics/cat.png".to_string(), 64, true, false) {
        SourceCheck::Generate(g) => g,
        _ => panic!("expected regeneration"),
    };
    match step.run(None) {
        GenerateOutcome::Failed(ThumbError::DecodeFailed { .. }) => {}
        _ => panic!("an unreadable source must fail the request"),
    }
}
