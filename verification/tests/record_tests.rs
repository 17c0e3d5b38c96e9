use photobooth::record::{build_record, capture_dimensions, timestamp_label, CaptureError, MyImage};

#[test]
fn preview_capture_downsamples_by_five() {
    assert_eq!(capture_dimensions(640, 480, false), (128, 96));
    assert_eq!(capture_dimensions(640, 480, true), (640, 480));
}

#[test]
fn degenerate_sources_never_yield_zero_dimensions() {
    assert_eq!(capture_dimensions(0, 0, false), (1, 1));
    assert_eq!(capture_dimensions(0, 0, true), (1, 1));
    assert_eq!(capture_dimensions(3, 4, false), (1, 1));
    assert_eq!(capture_dimensions(9, 10, false), (1, 2));
}

#[test]
fn build_record_accepts_matching_buffer() {
    let bytes = vec![0u8; 2 * 3 * 4];
    let r = build_record(2, 3, bytes.clone(), String::from("shot")).unwrap();
    assert_eq!(r.width, 2);
    assert_eq!(r.height, 3);
    assert_eq!(r.bytes, bytes);
    assert_eq!(r.name, "shot");
    assert!(r.save);
    assert!(!r.del);
    assert!(r.is_valid());
}

#[test]
fn build_record_rejects_corrupt_buffer() {
    let r = build_record(2, 3, vec![0u8; 7], String::from("shot"));
    assert_eq!(r.unwrap_err(), CaptureError::ReadFailed);
}

#[test]
fn default_record_is_empty_and_valid() {
    let r = MyImage::default();
    assert_eq!(r.width, 0);
    assert_eq!(r.height, 0);
    assert!(r.bytes.is_empty());
    assert!(r.name.is_empty());
    assert!(r.save);
    assert!(!r.del);
    assert!(r.is_valid());
}

#[test]
fn timestamp_label_is_zero_padded() {
    assert_eq!(timestamp_label(2024, 1, 5, 9, 30, 7), "2024-01-05 09-30-07");
    assert_eq!(timestamp_label(999, 12, 31, 23, 59, 59), "0999-12-31 23-59-59");
    assert_eq!(timestamp_label(0, 0, 0, 0, 0, 0), "0000-00-00 00-00-00");
}
