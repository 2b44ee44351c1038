use std::sync::Arc;

use mergefox::git::{DeltaStatus, FileDiff, FileKind, Oid};
use mergefox::ui::diff_images::{
    cache_matches, convert_extended_to_png, image_footer, load_git_snapshot_bytes,
    selected_image_cache, snapshot_specs, synthetic_oid_for_ptr,
};
use mergefox::ui::file_preview::{
    admit_size, decode_image_crate, decode_psd_embedded, decode_psd_for_diff_pane,
    find_psd_thumbnail, finish_decode, finish_thumbnailer, is_previewable_ext, needs_downscale,
    plan_job, thumbnailer_size, DecodedImage, FormatKind, JobPlan, PathReadError, PreviewError,
    PreviewMode, PreviewState,
};
use mergefox::ui::icon::app_icon;
use mergefox::ui::preview_cache::{PreviewCache, PreviewIdentity, PreviewKey};

fn png(width: u32, height: u32) -> Vec<u8> {
    let mut bytes = Vec::new();
    let src = image::RgbaImage::from_pixel(width, height, image::Rgba([200, 30, 30, 255]));
    image::DynamicImage::ImageRgba8(src)
        .write_to(&mut std::io::Cursor::new(&mut bytes), image::ImageFormat::Png)
        .expect("encode test png");
    bytes
}

fn jpeg(width: u32, height: u32) -> Vec<u8> {
    let mut bytes = Vec::new();
    let src = image::RgbImage::from_pixel(width, height, image::Rgb([10, 20, 30]));
    image::DynamicImage::ImageRgb8(src)
        .write_to(&mut std::io::Cursor::new(&mut bytes), image::ImageFormat::Jpeg)
        .expect("encode test jpeg");
    bytes
}

/// A Photoshop file with one resource.
fn psd(id: u16, body: &[u8]) -> Vec<u8> {
    let mut resource = Vec::new();
    resource.extend_from_slice(b"8BIM");
    resource.extend_from_slice(&id.to_be_bytes());
    resource.extend_from_slice(&[0, 0]);
    resource.extend_from_slice(&(body.len() as u32).to_be_bytes());
    resource.extend_from_slice(body);
    if body.len() % 2 == 1 {
        resource.push(0);
    }
    let mut out = Vec::new();
    out.extend_from_slice(b"8BPS");
    out.extend_from_slice(&[0; 22]);
    out.extend_from_slice(&0u32.to_be_bytes());
    out.extend_from_slice(&(resource.len() as u32).to_be_bytes());
    out.extend_from_slice(&resource);
    out
}

fn thumbnail_resource() -> Vec<u8> {
    let mut body = vec![0; 28];
    body.extend_from_slice(&jpeg(8, 6));
    body
}

#[test]
fn format_kind_classifies_common_extensions() {
    assert_eq!(FormatKind::from_ext("png"), FormatKind::Image);
    assert_eq!(FormatKind::from_ext("PNG"), FormatKind::Unknown);
    assert_eq!(FormatKind::from_ext("psd"), FormatKind::Psd);
    assert!(matches!(FormatKind::from_ext("fbx"), FormatKind::OpaqueAsset(_)));
    assert_eq!(FormatKind::from_ext("rs"), FormatKind::Unknown);
}

#[test]
fn decode_tiny_png_produces_rgba() {
    let mut bytes = Vec::new();
    let src = image::RgbaImage::from_pixel(4, 3, image::Rgba([200, 30, 30, 255]));
    image::DynamicImage::ImageRgba8(src)
        .write_to(&mut std::io::Cursor::new(&mut bytes), image::ImageFormat::Png)
        .expect("encode test png");
    let img = decode_image_crate(&bytes, PreviewMode::Thumb).expect("decode");
    assert_eq!(img.width, 4);
    assert_eq!(img.height, 3);
    assert_eq!(img.rgba.len(), 4 * 3 * 4);
}

#[test]
fn is_previewable_covers_images_and_psd_only() {
    for ext in ["png", "jpg", "jpeg", "gif", "webp", "bmp", "ico", "tiff", "exr", "qoi"] {
        assert!(is_previewable_ext(ext), "{ext} should be previewable");
    }
    assert!(is_previewable_ext("psd"));
    assert!(is_previewable_ext("PNG"));
    for ext in ["fbx", "blend", "mp4", "mov", "wav"] {
        assert!(!is_previewable_ext(ext), "{ext} should NOT be previewable in-process");
    }
    assert!(!is_previewable_ext("rs"));
    assert!(!is_previewable_ext(""));
}

#[test]
fn psd_embedded_parser_rejects_non_psd() {
    let err = decode_psd_embedded(b"not a psd", PreviewMode::Thumb).unwrap_err();
    assert!(err.message().contains("not a PSD"));
}

#[test]
fn decoding_keeps_the_pixels() {
    let img = decode_image_crate(&png(2, 1), PreviewMode::Full).unwrap();
    assert_eq!(img.rgba, vec![200, 30, 30, 255, 200, 30, 30, 255]);
    assert!(matches!(
        decode_image_crate(b"garbage", PreviewMode::Full),
        Err(PreviewError::Decode(_))
    ));
}

#[test]
fn large_thumbnails_are_scaled_down() {
    let bytes = png(600, 300);
    let thumb = decode_image_crate(&bytes, PreviewMode::Thumb).unwrap();
    let full = decode_image_crate(&bytes, PreviewMode::Full).unwrap();
    assert_eq!((full.width, full.height), (600, 300));
    assert_eq!((thumb.width, thumb.height), (64, 32));
    assert_eq!(thumb.rgba.len() as u32, thumb.width * thumb.height * 4);
    assert!(needs_downscale(PreviewMode::Thumb, 600, 300));
    assert!(!needs_downscale(PreviewMode::Full, 600, 300));
}

#[test]
fn thumbnails_fit_their_square() {
    let size = |w: u32, h: u32| {
        let img = decode_image_crate(&png(w, h), PreviewMode::Thumb).unwrap();
        (img.width, img.height)
    };
    assert_eq!(size(64, 64), (64, 64));
    assert_eq!(size(65, 65), (64, 64));
    assert_eq!(size(100, 30), (64, 19));
    assert_eq!(size(30, 110), (17, 64));
    assert_eq!(size(1, 200), (1, 64));
}

#[test]
fn psd_thumbnails_are_found() {
    let body = thumbnail_resource();
    let file = psd(1036, &body);
    let (start, end) = find_psd_thumbnail(&file).unwrap();
    assert_eq!(&file[start..end], &body[28..]);
    let img = decode_psd_for_diff_pane(&file).unwrap();
    assert_eq!((img.width, img.height), (8, 6));
}

#[test]
fn psd_errors() {
    assert!(matches!(find_psd_thumbnail(&psd(1000, &[1, 2])), Err(PreviewError::NoEmbeddedPreview)));
    assert!(matches!(find_psd_thumbnail(b"8BPS"), Err(e) if e != PreviewError::NoEmbeddedPreview));
    let mut short = psd(1036, &thumbnail_resource());
    short.truncate(40);
    assert!(find_psd_thumbnail(&short).is_err());
    assert!(PreviewError::NotPsd.message().contains("not a PSD"));
}

#[test]
fn jobs_go_to_the_right_decoder() {
    assert!(matches!(plan_job("fbx"), JobPlan::Thumbnailer { .. }));
    assert!(matches!(plan_job("png"), JobPlan::Decode { kind: FormatKind::Image }));
    assert!(thumbnailer_size(PreviewMode::Full) >= thumbnailer_size(PreviewMode::Thumb));
    assert!(matches!(
        finish_thumbnailer("FBX model", None, PreviewMode::Thumb),
        PreviewState::Unsupported { label: "FBX model" }
    ));
    assert!(matches!(
        finish_thumbnailer("FBX model", Some(png(3, 3)), PreviewMode::Thumb),
        PreviewState::Ready(img) if img.width == 3
    ));
}

#[test]
fn large_files_are_not_read() {
    assert!(admit_size(10).is_ok());
    let huge = 1u64 << 40;
    assert!(matches!(admit_size(huge), Err(PathReadError::TooLarge(n)) if n == huge));
    assert!(matches!(
        finish_decode(FormatKind::Image, Err(PathReadError::TooLarge(7)), PreviewMode::Thumb),
        PreviewState::TooLarge { bytes: 7 }
    ));
    assert!(matches!(
        finish_decode(FormatKind::Image, Ok(png(1, 1)), PreviewMode::Thumb),
        PreviewState::Ready(_)
    ));
    assert!(matches!(
        finish_decode(FormatKind::Image, Ok(vec![1, 2, 3]), PreviewMode::Thumb),
        PreviewState::Failed { .. }
    ));
}

fn key(mode: PreviewMode) -> PreviewKey {
    PreviewKey { identity: PreviewIdentity::Blob(Oid { bytes: [7; 20] }), mode }
}

#[test]
fn previews_are_requested_once() {
    let mut cache = PreviewCache::new();
    let (state, send) = cache.request(key(PreviewMode::Thumb));
    assert!(send);
    assert!(matches!(state, PreviewState::Pending));
    let (_, again) = cache.request(key(PreviewMode::Thumb));
    assert!(!again);
    let (_, other) = cache.request(key(PreviewMode::Full));
    assert!(other);
    assert!(!cache.pump(vec![]));
    assert!(cache.pump(vec![(key(PreviewMode::Thumb), PreviewState::TooLarge { bytes: 1 })]));
    assert!(matches!(
        cache.peek(&key(PreviewMode::Thumb)),
        Some(PreviewState::TooLarge { bytes: 1 })
    ));
}

#[test]
fn previews_of_files_go_by_components() {
    let at = |path: &str, mtime_ns: u128| PreviewKey {
        identity: PreviewIdentity::Path { path: path.into(), mtime_ns },
        mode: PreviewMode::Thumb,
    };
    let mut cache = PreviewCache::new();
    assert!(cache.request(at("a/b.png", 1)).1);
    assert!(!cache.request(at("a//b.png", 1)).1);
    assert!(cache.request(at("a/b.png", 2)).1);
    assert!(at("a/./b.png", 1).same_as(&at("a/b.png", 1)));
    assert!(!at("./a/b.png", 1).same_as(&at("a/b.png", 1)));
}

fn image_file(ext: &str) -> FileDiff {
    FileDiff {
        old_path: None,
        new_path: Some(format!("a.{ext}")),
        status: DeltaStatus::Added,
        kind: FileKind::Image { ext: ext.to_string() },
        old_size: 0,
        new_size: 1,
        old_oid: None,
        new_oid: Some(Oid { bytes: [1; 20] }),
    }
}

#[test]
fn images_are_cached_by_their_blobs() {
    let file = image_file("png");
    let cache = selected_image_cache(&file, None, Some(png(1, 1)));
    assert!(cache_matches(&cache, &file));
    let mut other = image_file("png");
    other.new_oid = None;
    assert!(!cache_matches(&cache, &other));
    assert_eq!(cache.unwrap().new_bytes, Some(png(1, 1)));
}

#[test]
fn extended_formats_become_png() {
    let mut qoi = Vec::new();
    image::DynamicImage::ImageRgba8(image::RgbaImage::from_pixel(
        2,
        2,
        image::Rgba([1, 2, 3, 255]),
    ))
    .write_to(&mut std::io::Cursor::new(&mut qoi), image::ImageFormat::Qoi)
    .expect("encode");
    let out = convert_extended_to_png(&qoi, "qoi").unwrap();
    assert!(out.starts_with(&[0x89, b'P', b'N', b'G']));
    assert!(convert_extended_to_png(b"junk", "qoi").is_none());
    assert!(convert_extended_to_png(&qoi, "psd").is_none());
}

#[test]
fn snapshots_prefer_the_index() {
    let (index, head) = snapshot_specs("a/b.png");
    assert_eq!(index, ":a/b.png");
    assert_eq!(head, "HEAD:a/b.png");
    assert_eq!(load_git_snapshot_bytes(Some(vec![1]), Some(vec![2]), 10), Some(vec![1]));
    assert_eq!(load_git_snapshot_bytes(None, Some(vec![2]), 10), Some(vec![2]));
    assert_ne!(synthetic_oid_for_ptr(1), synthetic_oid_for_ptr(2));
}

#[test]
fn footers_name_size_and_format() {
    let img = DecodedImage { width: 4, height: 3, rgba: vec![0; 48] };
    let text = image_footer(&PreviewState::Ready(Arc::new(img)), 2048, "png");
    assert!(text.contains('4') && text.contains('3'));
}

#[test]
fn the_icon_falls_back_to_a_blank_pixel() {
    let icon = app_icon(&png(2, 2));
    assert_eq!((icon.width, icon.height), (2, 2));
    assert_eq!(&icon.rgba[..4], &[200, 30, 30, 255]);
    let blank = app_icon(b"no png");
    assert_eq!((blank.width, blank.height), (1, 1));
    assert_eq!(blank.rgba, vec![0, 0, 0, 0]);
}
