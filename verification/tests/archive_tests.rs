use std::io::Read;

use gh_dir::archive::ArchiveSink;
use gh_dir::batch::{archive_from_outcomes, BatchArchiveError};
use gh_dir::retry::{DownloadOutcome, FetchErrorKind};

#[test]
fn test_archive_batch_aborts_on_single_failure() {
    // Five entries; exactly one always fails; no archive is produced and the
    // verdict is overall failure, naming the failed entry.
    let mut outcomes: Vec<(String, DownloadOutcome)> = Vec::new();
    for i in 0..5u8 {
        let path = format!("pkg/file{}.bin", i);
        if i == 3 {
            outcomes.push((
                path,
                DownloadOutcome::Failed {
                    error: FetchErrorKind::RemoteStatus { status: 500 },
                    attempts: 3,
                },
            ));
        } else {
            outcomes.push((path, DownloadOutcome::Delivered { content: vec![i; 4], attempts: 1 }));
        }
    }
    match archive_from_outcomes(&outcomes) {
        Err(BatchArchiveError::EntryFailed { path }) => assert_eq!(path, "pkg/file3.bin"),
        other => panic!("expected the batch to abort, got {:?}", other),
    }
}

#[test]
fn test_archive_batch_roundtrip() {
    let outcomes = vec![
        (
            "docs/readme.txt".to_string(),
            DownloadOutcome::Delivered { content: b"hello archive".to_vec(), attempts: 1 },
        ),
        (
            "docs/data.bin".to_string(),
            DownloadOutcome::Delivered { content: vec![0, 159, 146, 150], attempts: 2 },
        ),
    ];
    let bytes = archive_from_outcomes(&outcomes).unwrap();
    assert!(bytes.len() >= 22);
    assert_eq!(&bytes[0..2], b"PK");

    let mut archive = zip::ZipArchive::new(std::io::Cursor::new(bytes)).unwrap();
    assert_eq!(archive.len(), 2);
    let mut first = Vec::new();
    archive.by_name("docs/readme.txt").unwrap().read_to_end(&mut first).unwrap();
    assert_eq!(first, b"hello archive");
    let mut second = Vec::new();
    archive.by_name("docs/data.bin").unwrap().read_to_end(&mut second).unwrap();
    assert_eq!(second, vec![0, 159, 146, 150]);
}

#[test]
fn test_archive_entries_are_stored_uncompressed() {
    let outcomes = vec![(
        "a.txt".to_string(),
        DownloadOutcome::Delivered { content: b"abcabcabcabc".to_vec(), attempts: 1 },
    )];
    let bytes = archive_from_outcomes(&outcomes).unwrap();
    let mut archive = zip::ZipArchive::new(std::io::Cursor::new(bytes)).unwrap();
    let entry = archive.by_index(0).unwrap();
    assert_eq!(entry.compression(), zip::CompressionMethod::Stored);
    assert_eq!(entry.size(), 12);
}

#[test]
fn test_archive_sink_buffers_in_order() {
    let mut sink = ArchiveSink::new();
    assert_eq!(sink.len(), 0);
    sink.accept("one".to_string(), vec![1]);
    sink.accept("two".to_string(), vec![2, 2]);
    assert_eq!(sink.len(), 2);
    let bytes = sink.finalize().unwrap();
    let mut archive = zip::ZipArchive::new(std::io::Cursor::new(bytes)).unwrap();
    assert_eq!(archive.name_for_index(0), Some("one"));
    assert_eq!(archive.name_for_index(1), Some("two"));
}

#[test]
fn test_empty_archive_still_finalizes() {
    let sink = ArchiveSink::new();
    let bytes = sink.finalize().unwrap();
    assert!(bytes.len() >= 22);
}
