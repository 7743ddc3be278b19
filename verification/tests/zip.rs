use zed_bsl::zip::decompressed_contents;
use zed_bsl::zip::format::{find_eocd, u16_at, u32_at};
use zed_bsl::zip::{end_record_fits_in, ArchiveEntry, ZipArchive};

fn single_stored_entry(name: &str, data: &[u8]) -> Vec<u8> {
    let mut out = Vec::new();
    out.extend_from_slice(&0x0403_4b50u32.to_le_bytes());
    out.extend_from_slice(&[0u8; 22]);
    out.extend_from_slice(&(name.len() as u16).to_le_bytes());
    out.extend_from_slice(&0u16.to_le_bytes());
    out.extend_from_slice(name.as_bytes());
    out.extend_from_slice(data);
    let directory_offset = out.len() as u32;
    out.extend_from_slice(&0x0201_4b50u32.to_le_bytes());
    let mut header = [0u8; 42];
    header[16..20].copy_from_slice(&(data.len() as u32).to_le_bytes());
    header[24..26].copy_from_slice(&(name.len() as u16).to_le_bytes());
    out.extend_from_slice(&header);
    out.extend_from_slice(name.as_bytes());
    let directory_size = out.len() as u32 - directory_offset;
    out.extend_from_slice(&0x0605_4b50u32.to_le_bytes());
    out.extend_from_slice(&[0, 0, 0, 0, 1, 0, 1, 0]);
    out.extend_from_slice(&directory_size.to_le_bytes());
    out.extend_from_slice(&directory_offset.to_le_bytes());
    out.extend_from_slice(&[0, 0]);
    out
}

#[test]
fn reads_little_endian_fields() {
    let bytes = [0x34, 0x12, 0x78, 0x56, 0xFF];
    assert_eq!(u16_at(&bytes, 0), 0x1234);
    assert_eq!(u32_at(&bytes, 0), 0x5678_1234);
    assert_eq!(u32_at(&bytes, 1), 0xFF56_7812);
}

#[test]
fn finds_last_end_record() {
    let mut tail = vec![0u8; 3];
    tail.extend_from_slice(&0x0605_4b50u32.to_le_bytes());
    tail.extend_from_slice(&[0, 0, 0, 0, 0, 0, 7, 0, 9, 0, 0, 0, 11, 0, 0, 0]);
    let end = find_eocd(&tail).unwrap();
    assert_eq!(end.entry_count, 7);
    assert_eq!(end.directory_size, 9);
    assert_eq!(end.directory_offset, 11);
    assert!(find_eocd(&[0, 1, 2, 3, 4, 5]).is_none());
}

#[test]
fn signature_in_last_four_bytes_is_ignored() {
    let tail = 0x0605_4b50u32.to_le_bytes();
    assert!(find_eocd(&tail).is_none());
}

#[test]
fn truncated_end_record_is_detected() {
    let mut data = vec![0u8; 8];
    data.extend_from_slice(&0x0605_4b50u32.to_le_bytes());
    data.extend_from_slice(&[0, 0, 0, 0, 0]);
    assert!(!end_record_fits_in(&data));
    assert!(end_record_fits_in(&[1, 2, 3]));
}

#[test]
fn locates_and_reads_a_stored_entry() {
    let data = single_stored_entry("a.txt", b"hello");
    let archive = ZipArchive::new("x.zip".to_string(), data);
    assert!(archive.end_record_fits());
    let entry = archive.entry("a.txt").unwrap().unwrap();
    assert_eq!(entry.method, 0);
    assert_eq!(entry.compressed_size, 5);
    assert_eq!(entry.local_header_offset, 0);
    assert_eq!(archive.entry_contents(&entry).unwrap(), b"hello".to_vec());
    assert_eq!(archive.entry("b.txt").unwrap(), None);
    assert_eq!(archive.entry("a.tx").unwrap(), None);
}

#[test]
fn corrupt_directory_and_headers_are_errors() {
    let mut data = single_stored_entry("a.txt", b"hello");
    let directory_offset = 30 + 5 + 5;
    data[directory_offset] = 0;
    let archive = ZipArchive::new("x.zip".to_string(), data);
    assert_eq!(
        archive.entry("a.txt"),
        Err("invalid jar at x.zip: corrupt central directory".to_string())
    );
    let archive = ZipArchive::new("x.zip".to_string(), single_stored_entry("a.txt", b"hello"));
    let wrong = ArchiveEntry { method: 0, compressed_size: 5, local_header_offset: 1 };
    assert_eq!(
        archive.entry_contents(&wrong),
        Err("invalid jar at x.zip: corrupt local file header".to_string())
    );
    let past_end = ArchiveEntry { method: 0, compressed_size: 5, local_header_offset: 4000 };
    assert_eq!(
        archive.entry_contents(&past_end),
        Err("I/O error: failed to fill whole buffer".to_string())
    );
    let empty = ArchiveEntry { method: 0, compressed_size: 0, local_header_offset: 0 };
    assert_eq!(archive.entry_contents(&empty), Ok(Vec::new()));
}

#[test]
fn inflate_errors_are_prefixed() {
    assert_eq!(decompressed_contents(Ok(vec![1, 2])), Ok(vec![1, 2]));
    assert_eq!(
        decompressed_contents(Err("Invalid input data".to_string())),
        Err("failed to decompress zip entry: Invalid input data".to_string())
    );
}
