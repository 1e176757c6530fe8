//! The mode orchestrator's principal recipe: acquire state (snapshot
//! download or restore from backup), sync the chain to the first block after
//! the snapshot, then start the in-place testnet with optional binary
//! handoff. Pure composition of the other components — its contract is the
//! conjunction of theirs, in stage order.

use vstd::prelude::*;

use crate::error::LifecycleError;
use crate::fsmodel::{dir_occupied, dirs_separate, graft, scrub_dir, slash, FsTree};
use crate::snapshot::{
    apply_entries, concat_chunks, download_state, entry_views, genesis_rel_path, lz4_decoded,
    lz4_ok, tar_entries, tar_ok, ArchiveEntry, DownloadReport,
};
use crate::supervisor::{
    line_views, run_lines, run_testnet_with_handoff, spec_handoff, spec_run, spec_sync_config,
    sync_config, HandoffOutcome, RunOutcome,
};
use crate::text::{byte_views, trimmed};

verus! {

/// Where the data directory's state comes from: a fresh snapshot download,
/// or a restore from an existing backup.
pub enum StateSource {
    /// Wipe the data directory, initialize it, and download a snapshot.
    Download {
        /// The files the node binary's own initialization step creates.
        init_files: Vec<ArchiveEntry>,
        /// The fetched genesis document.
        genesis: Vec<u8>,
        /// The snapshot index response body.
        index_body: Vec<u8>,
        /// The content length the snapshot response declared.
        content_length: Option<u64>,
        /// The snapshot response's chunks, in arrival order.
        chunks: Vec<Vec<u8>>,
    },
    /// Restore the data directory from this backup directory.
    Restore {
        /// The backup directory to copy from.
        backup_dir: Vec<u8>,
    },
}

/// How a whole magic-start invocation went.
#[derive(Debug, PartialEq, Eq)]
pub struct MagicStartOutcome {
    /// The snapshot download's accounting, when state was downloaded.
    pub download: Option<DownloadReport>,
    /// The sync-to-tip run, forced to stop on the first ready marker.
    pub sync: RunOutcome,
    /// The in-place-testnet run with optional binary handoff.
    pub testnet: HandoffOutcome,
}

/// The magic-start recipe: state acquisition, then sync-to-tip with the
/// stop-on-sync marker forced on, then the in-place testnet with optional
/// upgrade handler and binary handoff. The first failing stage aborts the
/// whole invocation with its error.
pub fn magic_start(
    fs: &mut FsTree,
    home: &[u8],
    source: &StateSource,
    sync_lines: &Vec<Vec<u8>>,
    upgrade_handler_set: bool,
    has_on_ready: bool,
    has_replacement: bool,
    callback_ok: bool,
    testnet_lines: &Vec<Vec<u8>>,
    handoff_lines: &Vec<Vec<u8>>,
) -> (r: Result<MagicStartOutcome, LifecycleError>)
    requires
        old(fs).wf(),
        match source {
            StateSource::Download { .. } => true,
            StateSource::Restore { backup_dir } => dirs_separate(backup_dir@, home@),
        },
    ensures
        final(fs).wf(),
        ({
            let sync_r = spec_run(spec_sync_config(true), line_views(sync_lines@), callback_ok);
            let hand_r = spec_handoff(
                upgrade_handler_set,
                has_on_ready,
                has_replacement,
                callback_ok,
                line_views(testnet_lines@),
                line_views(handoff_lines@),
            );
            match source {
                StateSource::Restore { backup_dir } => {
                    &&& (!dir_occupied(old(fs)@, backup_dir@) ==> r == Err::<
                        MagicStartOutcome,
                        LifecycleError,
                    >(LifecycleError::NotFound) && final(fs)@ == old(fs)@)
                    &&& (dir_occupied(old(fs)@, backup_dir@) ==> {
                        &&& final(fs)@ == graft(old(fs)@, backup_dir@, home@)
                        &&& match hand_r {
                            Err(e) => r == Err::<MagicStartOutcome, LifecycleError>(e),
                            Ok(h) => {
                                &&& r is Ok
                                &&& r.unwrap().testnet == h
                                &&& r.unwrap().sync == sync_r.unwrap()
                                &&& r.unwrap().download is None
                            },
                        }
                    })
                },
                StateSource::Download {
                    init_files,
                    genesis,
                    index_body,
                    content_length,
                    chunks,
                } => {
                    let base = apply_entries(
                        scrub_dir(old(fs)@, home@),
                        home@,
                        entry_views(init_files@),
                    );
                    let archive = concat_chunks(byte_views(chunks@));
                    let filled = apply_entries(
                        base,
                        home@,
                        tar_entries(lz4_decoded(archive)),
                    ).insert(home@.push(slash()) + genesis_rel_path(), genesis@);
                    &&& (r is Ok <==> trimmed(index_body@).len() > 0 && content_length is Some
                        && lz4_ok(archive) && tar_ok(lz4_decoded(archive)) && hand_r is Ok)
                    &&& (trimmed(index_body@).len() == 0 ==> r == Err::<
                        MagicStartOutcome,
                        LifecycleError,
                    >(LifecycleError::Protocol) && final(fs)@ == base)
                    &&& (trimmed(index_body@).len() > 0 && content_length is None ==> r == Err::<
                        MagicStartOutcome,
                        LifecycleError,
                    >(LifecycleError::Protocol) && final(fs)@ == base)
                    &&& (r == Err::<MagicStartOutcome, LifecycleError>(LifecycleError::Format)
                        ==> final(fs)@ == base)
                    &&& (r == Err::<MagicStartOutcome, LifecycleError>(LifecycleError::Callback)
                        ==> final(fs)@ == filled && hand_r == Err::<HandoffOutcome, LifecycleError>(
                        LifecycleError::Callback,
                    ))
                    &&& (r is Ok ==> {
                        let o = r.unwrap();
                        &&& final(fs)@ == filled
                        &&& hand_r == Ok::<HandoffOutcome, LifecycleError>(o.testnet)
                        &&& o.sync == sync_r.unwrap()
                        &&& o.download matches Some(rep)
                        &&& o.download matches Some(rep) ==> rep.url@ == trimmed(index_body@)
                            && content_length == Some(rep.transfer.total)
                            && rep.transfer.received == archive.len()
                    })
                },
            }
        }),
{
    let report: Option<DownloadReport> = match source {
        StateSource::Download { init_files, genesis, index_body, content_length, chunks } => {
            match download_state(
                fs,
                home,
                init_files,
                genesis.as_slice(),
                index_body.as_slice(),
                *content_length,
                chunks,
            ) {
                Ok(rep) => Some(rep),
                Err(e) => {
                    return Err(e);
                },
            }
        },
        StateSource::Restore { backup_dir } => {
            match fs.restore(backup_dir.as_slice(), home) {
                Ok(()) => None,
                Err(e) => {
                    return Err(e);
                },
            }
        },
    };
    let sync = match run_lines(sync_config(true), sync_lines, callback_ok) {
        Ok(o) => o,
        Err(e) => {
            return Err(e);
        },
    };
    let testnet = match run_testnet_with_handoff(
        upgrade_handler_set,
        has_on_ready,
        has_replacement,
        callback_ok,
        testnet_lines,
        handoff_lines,
    ) {
        Ok(h) => h,
        Err(e) => {
            return Err(e);
        },
    };
    Ok(MagicStartOutcome { download: report, sync, testnet })
}

} // verus!
