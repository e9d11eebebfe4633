use layered_snapshot::page_bitmap::PageBitmap;

#[test]
fn test_page_bitmap() {
    let mut bitmap = PageBitmap::new(1024);
    assert_eq!(bitmap.dirty_count(), 0);

    bitmap.set(0);
    bitmap.set(42);
    bitmap.set(1023);

    assert!(bitmap.is_set(0));
    assert!(bitmap.is_set(42));
    assert!(bitmap.is_set(1023));
    assert!(!bitmap.is_set(1));
    assert_eq!(bitmap.dirty_count(), 3);

    bitmap.clear(42);
    assert!(!bitmap.is_set(42));
    assert_eq!(bitmap.dirty_count(), 2);
}

#[test]
fn test_page_bitmap_serialization() {
    let mut bitmap = PageBitmap::new(256);
    bitmap.set(0);
    bitmap.set(100);
    bitmap.set(255);

    let bytes = bitmap.to_bytes();
    let restored = PageBitmap::from_bytes(&bytes, 256);

    assert!(restored.is_set(0));
    assert!(restored.is_set(100));
    assert!(restored.is_set(255));
    assert!(!restored.is_set(1));
}

#[test]
fn pages_past_the_end_are_clean_and_stay_clean() {
    let mut bitmap = PageBitmap::new(10);
    bitmap.set(10);
    bitmap.set(u64::MAX);
    assert!(!bitmap.is_set(10));
    assert!(!bitmap.is_set(u64::MAX));
    assert_eq!(bitmap.dirty_count(), 0);
    bitmap.set(9);
    bitmap.clear(10);
    bitmap.clear(u64::MAX);
    assert_eq!(bitmap.dirty_count(), 1);
    assert_eq!(bitmap.total_pages(), 10);
}

#[test]
fn setting_twice_counts_once() {
    let mut bitmap = PageBitmap::new(70);
    bitmap.set(64);
    bitmap.set(64);
    assert_eq!(bitmap.dirty_count(), 1);
    bitmap.clear(64);
    bitmap.clear(64);
    assert_eq!(bitmap.dirty_count(), 0);
}

#[test]
fn clear_undoes_set() {
    let mut bitmap = PageBitmap::new(130);
    bitmap.set(3);
    let before = bitmap.to_bytes();
    bitmap.set(127);
    assert_ne!(bitmap.to_bytes(), before);
    bitmap.clear(127);
    assert_eq!(bitmap.to_bytes(), before);
}

#[test]
fn dirty_pages_come_in_order() {
    let mut bitmap = PageBitmap::new(200);
    for page in [199, 0, 63, 64, 128, 65] {
        bitmap.set(page);
    }
    assert_eq!(bitmap.iter_dirty(), vec![0, 63, 64, 65, 128, 199]);
    assert_eq!(bitmap.dirty_count(), 6);
}

#[test]
fn bytes_are_little_endian_words() {
    let mut bitmap = PageBitmap::new(65);
    bitmap.set(0);
    bitmap.set(9);
    bitmap.set(64);
    assert_eq!(
        bitmap.to_bytes(),
        vec![1, 2, 0, 0, 0, 0, 0, 0, 1, 0, 0, 0, 0, 0, 0, 0]
    );
}

#[test]
fn an_empty_bitmap_has_no_bytes() {
    let bitmap = PageBitmap::new(0);
    assert_eq!(bitmap.total_pages(), 0);
    assert_eq!(bitmap.to_bytes(), Vec::<u8>::new());
    assert!(bitmap.iter_dirty().is_empty());
}

#[test]
fn short_and_long_bytes_are_read_in_whole_words() {
    let short = PageBitmap::from_bytes(&[0b101, 0, 0, 0, 0, 0, 0, 0, 0xFF, 0xFF], 128);
    assert_eq!(short.iter_dirty(), vec![0, 2]);
    assert_eq!(short.to_bytes().len(), 16);

    let long = PageBitmap::from_bytes(&[0xFF; 32], 64);
    assert_eq!(long.dirty_count(), 64);
    assert_eq!(long.to_bytes(), vec![0xFF; 8]);
}

#[test]
fn padding_bits_do_not_count_as_pages() {
    let bitmap = PageBitmap::from_bytes(&[0xFF; 8], 3);
    assert_eq!(bitmap.dirty_count(), 3);
    assert_eq!(bitmap.iter_dirty(), vec![0, 1, 2]);
    assert!(!bitmap.is_set(3));
    assert_eq!(bitmap.to_bytes(), vec![0xFF; 8]);
}

#[test]
fn every_page_survives_serialization() {
    let mut bitmap = PageBitmap::new(129);
    let mut page = 0;
    while page < 129 {
        bitmap.set(page);
        page += 7;
    }
    let restored = PageBitmap::from_bytes(&bitmap.to_bytes(), 129);
    assert_eq!(restored.iter_dirty(), bitmap.iter_dirty());
    assert_eq!(restored.dirty_count(), 19);
}
