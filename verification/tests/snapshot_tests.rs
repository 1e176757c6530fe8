//! Snapshot pipeline behavior: index resolution, transfer accounting, the
//! content-length gate, archive extraction through the real lz4 and tar
//! crates, and the whole download-state recipe.

use std::io::Write;

use nodekeeper::error::LifecycleError;
use nodekeeper::fsmodel::FsTree;
use nodekeeper::snapshot::download_state;
use nodekeeper::snapshot::extract_snapshot;
use nodekeeper::snapshot::resolve_snapshot_url;
use nodekeeper::snapshot::run_download;
use nodekeeper::snapshot::unpack_archive;
use nodekeeper::snapshot::ArchiveEntry;
use nodekeeper::snapshot::SnapshotTransfer;

/// Builds a tar archive from (path, contents) pairs and compresses it with
/// one lz4 frame, as the snapshot endpoint serves it.
fn make_snapshot(files: &[(&str, &[u8])]) -> Vec<u8> {
    let mut builder = tar::Builder::new(Vec::new());
    for (path, data) in files {
        let mut header = tar::Header::new_gnu();
        header.set_size(data.len() as u64);
        header.set_cksum();
        builder.append_data(&mut header, path, *data).unwrap();
    }
    let tar_bytes = builder.into_inner().unwrap();
    let mut encoder = lz4::EncoderBuilder::new().build(Vec::new()).unwrap();
    encoder.write_all(&tar_bytes).unwrap();
    let (compressed, result) = encoder.finish();
    result.unwrap();
    compressed
}

#[test]
fn missing_content_length_is_a_protocol_error() {
    assert_eq!(SnapshotTransfer::begin(None), Err(LifecycleError::Protocol));
    let chunks = vec![b"abc".to_vec()];
    assert_eq!(run_download(None, &chunks), Err(LifecycleError::Protocol));
}

#[test]
fn transfer_counts_received_bytes() {
    let mut transfer = SnapshotTransfer::begin(Some(10)).unwrap();
    assert_eq!(transfer.total, 10);
    assert_eq!(transfer.received, 0);
    transfer.record_chunk(4);
    transfer.record_chunk(3);
    assert_eq!(transfer.received, 7);
    assert_eq!(transfer.total, 10);
}

#[test]
fn run_download_concatenates_chunks_in_order() {
    let chunks = vec![b"ab".to_vec(), b"".to_vec(), b"cde".to_vec()];
    let result = run_download(Some(5), &chunks).unwrap();
    assert_eq!(result.data.as_slice(), b"abcde");
    assert_eq!(result.transfer.received, 5);
    assert_eq!(result.transfer.total, 5);
}

#[test]
fn resolve_snapshot_url_trims_the_body() {
    let url = resolve_snapshot_url(b"  https://x/snap.tar.lz4\n").unwrap();
    assert_eq!(url.as_slice(), b"https://x/snap.tar.lz4");
    let plain = resolve_snapshot_url(b"https://y").unwrap();
    assert_eq!(plain.as_slice(), b"https://y");
}

#[test]
fn empty_index_body_is_a_protocol_error() {
    assert_eq!(resolve_snapshot_url(b""), Err(LifecycleError::Protocol));
    assert_eq!(resolve_snapshot_url(b" \t\r\n "), Err(LifecycleError::Protocol));
}

#[test]
fn unpack_archive_recovers_the_original_bytes() {
    let payload: &[u8] = b"the quick brown fox jumps over the lazy dog";
    let compressed = make_snapshot(&[("data/state.db", payload)]);
    // the wrapper pair must really decompress and parse, not echo its input
    assert_ne!(compressed.as_slice(), payload);
    let entries = unpack_archive(&compressed).unwrap();
    assert_eq!(entries.len(), 1);
    assert_eq!(entries[0].path.as_slice(), b"data/state.db");
    assert_eq!(entries[0].data.as_slice(), payload);
}

#[test]
fn garbage_archive_is_a_format_error() {
    assert_eq!(unpack_archive(b"not an lz4 frame at all"), Err(LifecycleError::Format));
}

#[test]
fn extract_snapshot_overlays_the_data_directory() {
    let compressed = make_snapshot(&[
        ("config/genesis.json", b"from-archive".as_slice()),
        ("data/state.db", b"\x01\x02\x03".as_slice()),
    ]);
    let mut t = FsTree::new();
    t.write(b"/node/config/genesis.json", b"from-init");
    t.write(b"/node/config/app.toml", b"kept");
    extract_snapshot(&mut t, b"/node", &compressed).unwrap();
    assert_eq!(t.read(b"/node/config/genesis.json").unwrap().as_slice(), b"from-archive");
    assert_eq!(t.read(b"/node/data/state.db").unwrap().as_slice(), b"\x01\x02\x03");
    assert_eq!(t.read(b"/node/config/app.toml").unwrap().as_slice(), b"kept");
}

#[test]
fn extract_failure_leaves_the_model_untouched() {
    let mut t = FsTree::new();
    t.write(b"/node/config/app.toml", b"kept");
    assert_eq!(extract_snapshot(&mut t, b"/node", b"garbage"), Err(LifecycleError::Format));
    assert_eq!(t.read(b"/node/config/app.toml").unwrap().as_slice(), b"kept");
}

fn init_layout() -> Vec<ArchiveEntry> {
    vec![
        ArchiveEntry { path: b"config/genesis.json".to_vec(), data: b"init-placeholder".to_vec() },
        ArchiveEntry { path: b"config/app.toml".to_vec(), data: b"defaults".to_vec() },
    ]
}

#[test]
fn download_state_end_to_end() {
    let compressed = make_snapshot(&[
        ("config/genesis.json", b"from-archive".as_slice()),
        ("data/state.db", b"\xde\xad\xbe\xef".as_slice()),
    ]);
    let mid = compressed.len() / 2;
    let chunks = vec![compressed[..mid].to_vec(), compressed[mid..].to_vec()];

    let mut t = FsTree::new();
    t.write(b"/node/data/stale.db", b"stale");

    let report = download_state(
        &mut t,
        b"/node",
        &init_layout(),
        b"{\"genesis_time\":\"mock\"}",
        b"http://x/snap.tar.lz4\n",
        Some(compressed.len() as u64),
        &chunks,
    )
    .unwrap();

    assert_eq!(report.url.as_slice(), b"http://x/snap.tar.lz4");
    assert_eq!(report.transfer.total, compressed.len() as u64);
    assert_eq!(report.transfer.received, compressed.len() as u64);
    // the data directory was wiped before initialization
    assert!(t.read(b"/node/data/stale.db").is_none());
    // the archive's contents landed under home with their exact bytes
    assert_eq!(t.read(b"/node/data/state.db").unwrap().as_slice(), b"\xde\xad\xbe\xef");
    // the fetched genesis is written after extraction and wins over the
    // archive's copy
    assert_eq!(
        t.read(b"/node/config/genesis.json").unwrap().as_slice(),
        b"{\"genesis_time\":\"mock\"}"
    );
    // untouched initialization files survive the overlay
    assert_eq!(t.read(b"/node/config/app.toml").unwrap().as_slice(), b"defaults");
}

#[test]
fn download_state_without_content_length_fails_before_consuming() {
    let compressed = make_snapshot(&[("data/state.db", b"x".as_slice())]);
    let chunks = vec![compressed.clone()];
    let mut t = FsTree::new();
    let r = download_state(
        &mut t,
        b"/node",
        &init_layout(),
        b"genesis",
        b"http://x/snap.tar.lz4",
        None,
        &chunks,
    );
    assert_eq!(r.unwrap_err(), LifecycleError::Protocol);
    // wipe and initialization happened; nothing was extracted
    assert_eq!(t.read(b"/node/config/genesis.json").unwrap().as_slice(), b"init-placeholder");
    assert!(t.read(b"/node/data/state.db").is_none());
}

#[test]
fn download_state_with_empty_index_is_a_protocol_error() {
    let mut t = FsTree::new();
    let chunks: Vec<Vec<u8>> = Vec::new();
    let r = download_state(&mut t, b"/node", &init_layout(), b"g", b"  \n", Some(0), &chunks);
    assert_eq!(r.unwrap_err(), LifecycleError::Protocol);
}

#[test]
fn download_state_with_bad_archive_is_a_format_error() {
    let mut t = FsTree::new();
    let chunks = vec![b"never a valid lz4 frame".to_vec()];
    let r = download_state(
        &mut t,
        b"/node",
        &init_layout(),
        b"g",
        b"http://x/snap.tar.lz4",
        Some(23),
        &chunks,
    );
    assert_eq!(r.unwrap_err(), LifecycleError::Format);
    assert_eq!(t.read(b"/node/config/app.toml").unwrap().as_slice(), b"defaults");
}
