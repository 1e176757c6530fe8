//! The magic-start recipe end to end: state acquisition, sync-to-tip, and
//! the in-place testnet with binary handoff.

use std::io::Write;

use nodekeeper::error::LifecycleError;
use nodekeeper::fsmodel::FsTree;
use nodekeeper::modes::magic_start;
use nodekeeper::modes::StateSource;
use nodekeeper::snapshot::ArchiveEntry;
use nodekeeper::supervisor::StopKind;

fn lines(raw: &[&str]) -> Vec<Vec<u8>> {
    raw.iter().map(|s| s.as_bytes().to_vec()).collect()
}

fn snapshot_of(files: &[(&str, &[u8])]) -> Vec<u8> {
    let mut builder = tar::Builder::new(Vec::new());
    for (path, data) in files {
        let mut header = tar::Header::new_gnu();
        header.set_size(data.len() as u64);
        header.set_cksum();
        builder.append_data(&mut header, path, *data).unwrap();
    }
    let tar_bytes = builder.into_inner().unwrap();
    let mut encoder = lz4::EncoderBuilder::new().build(Vec::new()).unwrap();
    encoder.write_all(&tar_bytes).unwrap();
    let (compressed, result) = encoder.finish();
    result.unwrap();
    compressed
}

#[test]
fn magic_start_from_backup_runs_all_stages() {
    let mut t = FsTree::new();
    t.write(b"/bak/data/state.db", b"snapshotted");
    let source = StateSource::Restore { backup_dir: b"/bak".to_vec() };
    let outcome = magic_start(
        &mut t,
        b"/node",
        &source,
        &lines(&["syncing", "caught up indexed block events"]),
        true,
        true,
        true,
        true,
        &lines(&["rehearsing", "CONSENSUS FAILURE!!! at upgrade height"]),
        &lines(&["upgraded", "serving indexed block events"]),
    )
    .unwrap();
    // the backup contents were restored under home
    assert_eq!(t.read(b"/node/data/state.db").unwrap().as_slice(), b"snapshotted");
    assert!(outcome.download.is_none());
    // sync stopped on its first ready marker
    assert_eq!(outcome.sync.killed_at, Some(1));
    assert_eq!(outcome.sync.stop, StopKind::Killed);
    // the testnet run was killed at the consensus failure; the callback was
    // deferred to the post-handoff run
    assert_eq!(outcome.testnet.first.killed_at, Some(1));
    assert_eq!(outcome.testnet.first.callback_at, None);
    assert_eq!(outcome.testnet.second.unwrap().callback_at, Some(1));
}

#[test]
fn magic_start_from_missing_backup_fails_before_touching_home() {
    let mut t = FsTree::new();
    t.write(b"/node/data/state.db", b"precious");
    let source = StateSource::Restore { backup_dir: b"/bak".to_vec() };
    let empty = lines(&[]);
    let r = magic_start(&mut t, b"/node", &source, &empty, false, false, false, true, &empty, &empty);
    assert_eq!(r.unwrap_err(), LifecycleError::NotFound);
    assert_eq!(t.read(b"/node/data/state.db").unwrap().as_slice(), b"precious");
}

#[test]
fn magic_start_with_download_acquires_then_runs() {
    let compressed = snapshot_of(&[("data/state.db", b"fresh".as_slice())]);
    let source = StateSource::Download {
        init_files: vec![ArchiveEntry {
            path: b"config/genesis.json".to_vec(),
            data: b"placeholder".to_vec(),
        }],
        genesis: b"real-genesis".to_vec(),
        index_body: b" http://x/snap.tar.lz4 ".to_vec(),
        content_length: Some(compressed.len() as u64),
        chunks: vec![compressed.clone()],
    };
    let mut t = FsTree::new();
    let outcome = magic_start(
        &mut t,
        b"/node",
        &source,
        &lines(&["indexed block events"]),
        false,
        false,
        false,
        true,
        &lines(&["CONSENSUS FAILURE!!!"]),
        &lines(&[]),
    )
    .unwrap();
    let report = outcome.download.unwrap();
    assert_eq!(report.url.as_slice(), b"http://x/snap.tar.lz4");
    assert_eq!(report.transfer.received, compressed.len() as u64);
    assert_eq!(t.read(b"/node/data/state.db").unwrap().as_slice(), b"fresh");
    assert_eq!(t.read(b"/node/config/genesis.json").unwrap().as_slice(), b"real-genesis");
    assert_eq!(outcome.sync.killed_at, Some(0));
    assert_eq!(outcome.testnet.first.killed_at, Some(0));
    assert!(outcome.testnet.second.is_none());
}

#[test]
fn magic_start_aborts_on_failing_callback() {
    let mut t = FsTree::new();
    t.write(b"/bak/f", b"x");
    let source = StateSource::Restore { backup_dir: b"/bak".to_vec() };
    let r = magic_start(
        &mut t,
        b"/node",
        &source,
        &lines(&["indexed block events"]),
        false,
        true,
        false,
        false,
        &lines(&["indexed block events"]),
        &lines(&[]),
    );
    assert_eq!(r.unwrap_err(), LifecycleError::Callback);
    // state acquisition had already happened when the testnet aborted
    assert_eq!(t.read(b"/node/f").unwrap().as_slice(), b"x");
}
