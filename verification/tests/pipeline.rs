use std::io::Write;

use bootseq::rootfs::{
    decode_chunks, extract_rootfs, fetch_rootfs, ExtractError, FetchError, FsAction, RootfsBuffer,
};
use bootseq::tui::TuiState;

/// A stored (uncompressed) archive with the entries `"dir/"` and
/// `"dir/file.txt"` holding `"hi"`.
fn sample_archive() -> Vec<u8> {
    let opts = zip::write::SimpleFileOptions::default()
        .compression_method(zip::CompressionMethod::Stored);
    let mut w = zip::ZipWriter::new(std::io::Cursor::new(Vec::new()));
    w.add_directory("dir/", opts).unwrap();
    w.start_file("dir/file.txt", opts).unwrap();
    w.write_all(b"hi").unwrap();
    w.finish().unwrap().into_inner()
}

/// An archive with two file entries whose first local header is corrupted,
/// so that reading entry 0 fails while entry 1 stays readable.
fn corrupt_first_entry_archive() -> Vec<u8> {
    let opts = zip::write::SimpleFileOptions::default()
        .compression_method(zip::CompressionMethod::Stored);
    let mut w = zip::ZipWriter::new(std::io::Cursor::new(Vec::new()));
    w.start_file("broken.txt", opts).unwrap();
    w.write_all(b"unreadable").unwrap();
    w.start_file("good.txt", opts).unwrap();
    w.write_all(b"ok").unwrap();
    let mut bytes = w.finish().unwrap().into_inner();
    // The first entry's local header sits at offset 0; break its magic.
    assert_eq!(&bytes[0..4], b"PK\x03\x04");
    bytes[0] = b'Q';
    bytes
}

#[test]
fn fetch_success_fills_buffer() {
    let mut buffer = RootfsBuffer::new();
    let mut tui = TuiState::new();
    let payload = vec![1u8, 2, 3];
    let r = fetch_rootfs(true, &payload, 0, 0, &mut buffer, &mut tui);
    assert!(r.is_ok());
    assert_eq!(buffer.bytes(), &payload);
    assert_eq!(tui.log_text(), "");
}

#[test]
fn fetch_overwrites_prior_contents() {
    let mut buffer = RootfsBuffer::new();
    let mut tui = TuiState::new();
    fetch_rootfs(true, &[9u8; 8], 0, 0, &mut buffer, &mut tui).unwrap();
    fetch_rootfs(true, &[1u8, 2], 0, 0, &mut buffer, &mut tui).unwrap();
    assert_eq!(buffer.bytes(), &vec![1u8, 2]);
}

#[test]
fn fetch_failure_logs_and_leaves_buffer() {
    let mut buffer = RootfsBuffer::new();
    let mut tui = TuiState::new();
    let r = fetch_rootfs(false, &[1u8], 0, 0, &mut buffer, &mut tui);
    assert_eq!(r, Err(FetchError::Transport));
    assert_eq!(buffer.bytes(), &Vec::<u8>::new());
    assert_eq!(
        tui.log_text(),
        "\n1970-01-01T00:00:00Z: Request exited with failure status"
    );
}

#[test]
fn extract_materializes_directory_then_file() {
    let mut buffer = RootfsBuffer::new();
    buffer.set_rootfs(&sample_archive());
    let mut tui = TuiState::new();
    let actions = extract_rootfs(Some(&buffer), 0, 0, &mut tui).unwrap();
    assert_eq!(
        actions,
        vec![
            FsAction::Dir { path: "C:/dir/".to_string() },
            FsAction::File { path: "C:/dir/file.txt".to_string(), content: b"hi".to_vec() },
        ]
    );
    let log = tui.log_text();
    let dir_at = log.find("Extracted \"C:/dir/\"").unwrap();
    let file_at = log.find("Extracted \"C:/dir/file.txt\"").unwrap();
    assert!(dir_at < file_at);
}

#[test]
fn extract_of_garbage_fails_as_container_error() {
    let mut buffer = RootfsBuffer::new();
    buffer.set_rootfs(b"this is no archive");
    let mut tui = TuiState::new();
    let r = extract_rootfs(Some(&buffer), 0, 0, &mut tui);
    assert_eq!(r, Err(ExtractError::Container));
    assert_eq!(tui.log_text(), "");
}

#[test]
fn extract_without_buffer_lock_fails_busy() {
    let mut tui = TuiState::new();
    let r = extract_rootfs(None, 0, 0, &mut tui);
    assert_eq!(r, Err(ExtractError::BufferBusy));
    assert!(tui.log_text().contains("Could not acquire rootfs lock"));
}

#[test]
fn corrupt_entry_is_skipped_not_fatal() {
    let mut buffer = RootfsBuffer::new();
    buffer.set_rootfs(&corrupt_first_entry_archive());
    let mut tui = TuiState::new();
    let actions = extract_rootfs(Some(&buffer), 0, 0, &mut tui).unwrap();
    // The corrupt entry is skipped; the valid file is still created; the
    // step still reports success.
    assert_eq!(
        actions,
        vec![FsAction::File { path: "C:/good.txt".to_string(), content: b"ok".to_vec() }]
    );
    let log = tui.log_text();
    assert!(log.contains("Failed to read part"));
    assert!(log.contains("Extracted \"C:/good.txt\""));
}

#[test]
fn empty_archive_extracts_nothing() {
    let w = zip::ZipWriter::new(std::io::Cursor::new(Vec::new()));
    let bytes = w.finish().unwrap().into_inner();
    let mut buffer = RootfsBuffer::new();
    buffer.set_rootfs(&bytes);
    let mut tui = TuiState::new();
    let actions = extract_rootfs(Some(&buffer), 0, 0, &mut tui).unwrap();
    assert_eq!(actions, Vec::<FsAction>::new());
    assert_eq!(tui.log_text(), "");
}

#[test]
fn decode_drops_undecodable_chunks() {
    let chunks = vec![Some(104u8), None, Some(105u8), None];
    assert_eq!(decode_chunks(&chunks), vec![104u8, 105]);
    assert_eq!(decode_chunks(&Vec::new()), Vec::<u8>::new());
}

#[test]
fn set_rootfs_replaces_wholesale() {
    let mut buffer = RootfsBuffer::new();
    buffer.set_rootfs(&[1, 2, 3, 4]);
    buffer.set_rootfs(&[5]);
    assert_eq!(buffer.bytes(), &vec![5u8]);
}
