use composite::stats::texture_pixel_stats;
use composite::webview_texture::{
    check_texture_size, require_capture_support, CaptureState, Error, FrameInfo, TextureSettings,
};

#[test]
fn stats_of_an_image_without_pixels() {
    assert_eq!(texture_pixel_stats(&[], 0, 0, 0), (0, 0, 255, 0));
    assert_eq!(texture_pixel_stats(&[], 16, 4, 0), (0, 0, 255, 0));
    assert_eq!(texture_pixel_stats(&[1, 2, 3, 4], 0, 0, 3), (0, 0, 255, 0));
}

#[test]
fn stats_skip_row_padding() {
    // 2x2 image, rows 12 bytes apart: 8 bytes of pixels and 4 of padding.
    let data = [
        0, 0, 0, 0, /**/ 9, 0, 0, 128, /**/ 255, 255, 255, 255, // row 0 + padding
        0, 0, 7, 0, /**/ 0, 0, 0, 64, // row 1
    ];
    assert_eq!(texture_pixel_stats(&data, 12, 2, 2), (2, 2, 0, 128));
}

#[test]
fn stats_of_a_fully_transparent_image() {
    let data = [0u8; 32];
    let (color, alpha, min_alpha, max_alpha) = texture_pixel_stats(&data, 16, 4, 2);
    assert_eq!((color, alpha, min_alpha, max_alpha), (0, 0, 0, 0));
}

#[test]
fn stats_of_a_fully_opaque_image() {
    let mut data = [0u8; 24];
    for pixel in 0..6 {
        data[pixel * 4 + 3] = 10 + pixel as u8;
    }
    let (color, alpha, min_alpha, max_alpha) = texture_pixel_stats(&data, 12, 3, 2);
    assert_eq!(color, 0);
    assert_eq!(alpha, 6);
    assert_eq!(min_alpha, 10);
    assert_eq!(max_alpha, 15);
}

#[test]
fn stats_read_only_the_last_row_prefix() {
    // The last row needs only width * 4 bytes, not a whole pitch.
    let data = [1, 0, 0, 255, 0, 0, 0, 0, 0, 0, 0, 0, 0, 0, 0, 0, 0, 1, 0, 1];
    assert_eq!(texture_pixel_stats(&data, 16, 1, 2), (2, 2, 1, 255));
}

#[test]
fn texture_size_must_be_non_zero() {
    assert_eq!(check_texture_size(0, 10), Err(Error::InvalidSize));
    assert_eq!(check_texture_size(10, 0), Err(Error::InvalidSize));
    assert_eq!(check_texture_size(0, 0), Err(Error::InvalidSize));
    assert_eq!(check_texture_size(1, 1), Ok(()));
}

#[test]
fn capture_support_is_required() {
    assert_eq!(require_capture_support(false), Err(Error::CaptureUnsupported));
    assert_eq!(require_capture_support(true), Ok(()));
}

#[test]
fn builder_settings() {
    let settings = TextureSettings::new(640, 480);
    assert!(!settings.capture_cursor);
    let with_cursor = settings.with_cursor_capture(true);
    assert_eq!(with_cursor, TextureSettings { width: 640, height: 480, capture_cursor: true });
    assert_eq!(with_cursor.with_cursor_capture(false), settings);
    assert_eq!(settings.check_size(), Ok(()));
    assert_eq!(TextureSettings::new(0, 480).check_size(), Err(Error::InvalidSize));
}

#[test]
fn capture_counts_only_fitting_frames() {
    let mut capture = CaptureState::new(800, 600);
    assert_eq!(capture.info(), FrameInfo { width: 800, height: 600, generation: 0 });
    let mut copied = false;
    for (w, h) in [(800, 600), (640, 480), (800, 600), (600, 800), (800, 600)] {
        copied |= capture.record_frame(w, h);
    }
    assert!(copied);
    assert_eq!(
        capture.completed(copied),
        Some(FrameInfo { width: 800, height: 600, generation: 3 })
    );
}

#[test]
fn capture_without_fitting_frame_reports_nothing() {
    let mut capture = CaptureState::new(800, 600);
    let mut copied = false;
    for (w, h) in [(801, 600), (800, 601)] {
        copied |= capture.record_frame(w, h);
    }
    assert!(!copied);
    assert_eq!(capture.completed(copied), None);
    assert_eq!(capture.info().generation, 0);
}

#[test]
fn capture_resize_keeps_the_generation() {
    let mut capture = CaptureState::new(100, 100);
    assert!(capture.record_frame(100, 100));
    capture.resize(200, 50);
    assert_eq!(capture.info(), FrameInfo { width: 200, height: 50, generation: 1 });
    assert!(!capture.accepts(100, 100));
    assert!(capture.accepts(200, 50));
}

#[test]
fn capture_compares_sizes_as_windows_reports_them() {
    // A width beyond i32::MAX is compared after the same conversion.
    let capture = CaptureState::new(u32::MAX, 1);
    assert!(capture.accepts(-1, 1));
}
