//! Byte-for-byte marshaling of syscall records.

use task_core::marshal::{scatter_record, time_val_bytes, word_to_le_bytes};
use task_core::syscall::TimeVal;

#[test]
fn word_image_is_little_endian() {
    assert_eq!(word_to_le_bytes(0), vec![0u8; 8]);
    assert_eq!(
        word_to_le_bytes(0x0102_0304),
        vec![0x04, 0x03, 0x02, 0x01, 0, 0, 0, 0]
    );
    assert_eq!(word_to_le_bytes(usize::MAX), vec![0xFF; 8]);
}

#[test]
fn time_record_layout_is_seconds_then_microseconds() {
    let ts = TimeVal { sec: 3, usec: 250_000 };
    let bytes = time_val_bytes(&ts);
    assert_eq!(bytes.len(), 16);
    assert_eq!(&bytes[0..8], &[3, 0, 0, 0, 0, 0, 0, 0]);
    // 250_000 = 0x03D090
    assert_eq!(&bytes[8..16], &[0x90, 0xD0, 0x03, 0, 0, 0, 0, 0]);
}

#[test]
fn record_straddling_a_page_boundary_splits_cleanly() {
    let ts = TimeVal { sec: 1, usec: 2 };
    let bytes = time_val_bytes(&ts);
    // the record starts five bytes before a page boundary
    let frags = vec![5usize, 11];
    let pieces = scatter_record(&bytes, &frags);
    assert_eq!(pieces.len(), 2);
    assert_eq!(pieces[0], bytes[0..5].to_vec());
    assert_eq!(pieces[1], bytes[5..16].to_vec());
    let rejoined: Vec<u8> = pieces.concat();
    assert_eq!(rejoined, bytes);
}

#[test]
fn scatter_handles_empty_fragments() {
    let record = vec![1u8, 2, 3];
    let frags = vec![0usize, 3, 0];
    let pieces = scatter_record(&record, &frags);
    assert_eq!(pieces.len(), 3);
    assert!(pieces[0].is_empty());
    assert_eq!(pieces[1], record);
    assert!(pieces[2].is_empty());
}
