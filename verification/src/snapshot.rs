//! The snapshot acquisition pipeline.
//!
//! Resolves the snapshot index response to an artifact location, tracks an
//! in-flight download chunk by chunk against a declared content length,
//! decompresses and unpacks the archive, and overlays the result onto the
//! data directory model. The network reads themselves live outside the
//! library; every decision made on what they return is verified here.

use vstd::prelude::*;
use vstd::slice::slice_to_vec;
use vstd::string::StringSliceAdditionalSpecFns;

use crate::error::LifecycleError;
use crate::fsmodel::{scrub_dir, slash, FsTree};
use crate::text::{byte_views, trim_bytes, trimmed};

verus! {

/// An in-flight snapshot download: the declared total and the bytes
/// received so far. The received counter only ever grows; the transfer is
/// complete when the stream ends, not when the counter reaches the total.
#[derive(Clone, Copy, Debug, PartialEq, Eq, Structural)]
pub struct SnapshotTransfer {
    /// The content length the response declared.
    pub total: u64,
    /// Bytes received so far.
    pub received: u64,
}

impl SnapshotTransfer {
    /// Begins a transfer. A response that declares no content length is a
    /// protocol error: progress reporting cannot proceed without a known
    /// total, and no byte of it is ever consumed.
    pub fn begin(content_length: Option<u64>) -> (r: Result<SnapshotTransfer, LifecycleError>)
        ensures
            match content_length {
                Some(t) => r == Ok::<SnapshotTransfer, LifecycleError>(
                    SnapshotTransfer { total: t, received: 0 },
                ),
                None => r == Err::<SnapshotTransfer, LifecycleError>(LifecycleError::Protocol),
            },
    {
        match content_length {
            Some(t) => Ok(SnapshotTransfer { total: t, received: 0 }),
            None => Err(LifecycleError::Protocol),
        }
    }

    /// Advances the received-bytes counter by one chunk.
    pub fn record_chunk(&mut self, len: u64)
        requires
            old(self).received + len <= u64::MAX,
        ensures
            final(self).total == old(self).total,
            final(self).received == old(self).received + len,
    {
        self.received = self.received + len;
    }
}

/// Resolves the snapshot index response body: the trimmed body is the
/// artifact location; an empty body is a protocol error.
pub fn resolve_snapshot_url(body: &[u8]) -> (r: Result<Vec<u8>, LifecycleError>)
    ensures
        trimmed(body@).len() == 0 ==> r == Err::<Vec<u8>, LifecycleError>(LifecycleError::Protocol),
        trimmed(body@).len() > 0 ==> r is Ok && r.unwrap()@ == trimmed(body@),
{
    let t = trim_bytes(body);
    if t.len() == 0 {
        Err(LifecycleError::Protocol)
    } else {
        Ok(t)
    }
}

/// The chunks of a transfer, in arrival order, as one byte stream.
pub open spec fn concat_chunks(cs: Seq<Seq<u8>>) -> Seq<u8>
    decreases cs.len(),
{
    if cs.len() == 0 {
        Seq::empty()
    } else {
        concat_chunks(cs.drop_last()) + cs.last()
    }
}

/// A completed download: the received byte stream and the final transfer
/// state.
#[derive(Debug, PartialEq, Eq)]
pub struct DownloadResult {
    /// Every received chunk, concatenated in arrival order.
    pub data: Vec<u8>,
    /// The transfer's final accounting.
    pub transfer: SnapshotTransfer,
}

/// Consumes a whole download: validates the declared content length, then
/// takes the chunks in arrival order, appending each to the stored stream
/// and advancing the received counter. With no declared length the transfer
/// fails as a protocol error before any chunk is consumed.
pub fn run_download(content_length: Option<u64>, chunks: &Vec<Vec<u8>>) -> (r: Result<
    DownloadResult,
    LifecycleError,
>)
    ensures
        content_length is None ==> r == Err::<DownloadResult, LifecycleError>(
            LifecycleError::Protocol,
        ),
        content_length matches Some(t) ==> r is Ok && {
            let d = r.unwrap();
            &&& d.data@ == concat_chunks(byte_views(chunks@))
            &&& d.transfer.total == t
            &&& d.transfer.received == d.data@.len()
        },
{
    let ghost cs = byte_views(chunks@);
    let mut transfer = match SnapshotTransfer::begin(content_length) {
        Ok(t) => t,
        Err(e) => {
            return Err(e);
        },
    };
    let mut data: Vec<u8> = Vec::new();
    let n = chunks.len();
    let mut i: usize = 0;
    while i < n
        invariant
            n == chunks@.len(),
            cs == byte_views(chunks@),
            0 <= i <= n,
            data@ == concat_chunks(cs.take(i as int)),
            transfer.received == data@.len(),
            content_length == Some(transfer.total),
        decreases n - i,
    {
        proof {
            assert(cs.take(i + 1).drop_last() =~= cs.take(i as int));
            assert(cs.take(i + 1).last() == cs[i as int]);
        }
        let mut c = slice_to_vec(chunks[i].as_slice());
        let clen = c.len();
        data.append(&mut c);
        // the stored stream is a real vector, so the received count — equal
        // to its length — fits the counter
        let stored = data.len();
        assert(transfer.received + clen == stored);
        transfer.record_chunk(clen as u64);
        i += 1;
    }
    proof {
        assert(cs.take(n as int) =~= cs);
    }
    Ok(DownloadResult { data, transfer })
}

/// What lz4 decompression of a single-frame stream yields; a function of the
/// compressed bytes alone.
pub uninterp spec fn lz4_decoded(b: Seq<u8>) -> Seq<u8>;

/// Whether lz4 decompression of a single-frame stream succeeds; like the
/// decoded bytes themselves, a function of the compressed bytes alone.
pub uninterp spec fn lz4_ok(b: Seq<u8>) -> bool;

/// What parsing a tar stream yields: the entries in archive order, each a
/// path and its contents; a function of the archive bytes alone.
pub uninterp spec fn tar_entries(b: Seq<u8>) -> Seq<(Seq<u8>, Seq<u8>)>;

/// Whether parsing a tar stream succeeds; a function of the archive bytes
/// alone.
pub uninterp spec fn tar_ok(b: Seq<u8>) -> bool;

/// One entry of the snapshot archive: a path relative to the data directory
/// root, and the entry's bytes.
#[derive(Debug, PartialEq, Eq)]
pub struct ArchiveEntry {
    /// Slash-separated path relative to the extraction root.
    pub path: Vec<u8>,
    /// The entry's contents.
    pub data: Vec<u8>,
}

/// The views of a list of archive entries.
pub open spec fn entry_views(s: Seq<ArchiveEntry>) -> Seq<(Seq<u8>, Seq<u8>)> {
    s.map_values(|e: ArchiveEntry| (e.path@, e.data@))
}

/// Relies on lz4::Decoder::new and its std::io::Read impl: streaming
/// decompression of one lz4 frame. Decoding an in-memory slice is
/// deterministic, so both the decoded bytes and whether decoding succeeds
/// are functions of the compressed bytes alone.
#[verifier::external_body]
fn lz4_decompress(bytes: &[u8]) -> (r: Result<Vec<u8>, LifecycleError>)
    ensures
        r is Ok <==> lz4_ok(bytes@),
        r is Ok ==> r.unwrap()@ == lz4_decoded(bytes@),
        r is Err ==> r.unwrap_err() == LifecycleError::Format,
{
    let mut decoder = lz4::Decoder::new(bytes).map_err(|_| LifecycleError::Format)?;
    let mut out: Vec<u8> = Vec::new();
    std::io::Read::read_to_end(&mut decoder, &mut out).map_err(|_| LifecycleError::Format)?;
    Ok(out)
}

/// Relies on tar::Archive: parses a tar stream into its entries, in archive
/// order. Parsing an in-memory slice is deterministic, so both the entry
/// list and whether parsing succeeds are functions of the archive bytes
/// alone.
#[verifier::external_body]
fn tar_parse(bytes: &[u8]) -> (r: Result<Vec<ArchiveEntry>, LifecycleError>)
    ensures
        r is Ok <==> tar_ok(bytes@),
        r is Ok ==> entry_views(r.unwrap()@) == tar_entries(bytes@),
        r is Err ==> r.unwrap_err() == LifecycleError::Format,
{
    let mut archive = tar::Archive::new(bytes);
    let mut out: Vec<ArchiveEntry> = Vec::new();
    for entry in archive.entries().map_err(|_| LifecycleError::Format)? {
        let mut entry = entry.map_err(|_| LifecycleError::Format)?;
        let path = entry.path_bytes().to_vec();
        let mut data: Vec<u8> = Vec::new();
        std::io::Read::read_to_end(&mut entry, &mut data).map_err(|_| LifecycleError::Format)?;
        out.push(ArchiveEntry { path, data });
    }
    Ok(out)
}

/// Decompresses and parses a snapshot archive into its entries. Succeeds
/// exactly when both the decompression and the parse do; any failure is a
/// format error.
pub fn unpack_archive(archive: &[u8]) -> (r: Result<Vec<ArchiveEntry>, LifecycleError>)
    ensures
        r is Ok <==> lz4_ok(archive@) && tar_ok(lz4_decoded(archive@)),
        r is Ok ==> entry_views(r.unwrap()@) == tar_entries(lz4_decoded(archive@)),
        r is Err ==> r.unwrap_err() == LifecycleError::Format,
{
    let decoded = match lz4_decompress(archive) {
        Ok(d) => d,
        Err(e) => {
            return Err(e);
        },
    };
    tar_parse(decoded.as_slice())
}

/// The data directory map after extracting the given entries under `home`:
/// each entry `rest` lands at `home/rest`, in order, a later entry
/// overwriting an earlier one at the same path.
pub open spec fn apply_entries(
    m: Map<Seq<u8>, Seq<u8>>,
    home: Seq<u8>,
    entries: Seq<(Seq<u8>, Seq<u8>)>,
) -> Map<Seq<u8>, Seq<u8>>
    decreases entries.len(),
{
    if entries.len() == 0 {
        m
    } else {
        apply_entries(m, home, entries.drop_last()).insert(
            home.push(slash()) + entries.last().0,
            entries.last().1,
        )
    }
}

/// Joins the extraction root with an entry path.
fn join_under(home: &[u8], rel: &[u8]) -> (r: Vec<u8>)
    ensures
        r@ == home@.push(slash()) + rel@,
{
    let mut r = slice_to_vec(home);
    r.push(47);
    proof {
        assert(r@ =~= home@.push(slash()) + Seq::<u8>::empty());
        assert(rel@.subrange(0, 0) =~= Seq::<u8>::empty());
    }
    let n = rel.len();
    let mut i: usize = 0;
    while i < n
        invariant
            0 <= i <= n,
            n == rel@.len(),
            r@ == home@.push(slash()) + rel@.subrange(0, i as int),
        decreases n - i,
    {
        r.push(rel[i]);
        proof {
            assert(home@.push(slash()) + rel@.subrange(0, i + 1) =~= (home@.push(slash())
                + rel@.subrange(0, i as int)).push(rel@[i as int]));
        }
        i += 1;
    }
    proof {
        assert(rel@.subrange(0, n as int) =~= rel@);
    }
    r
}

/// Writes each archive entry into the data directory model, in archive
/// order: entry `rest` lands at `home/rest`, overwriting whatever is there.
pub fn apply_archive_entries(fs: &mut FsTree, home: &[u8], entries: &Vec<ArchiveEntry>)
    requires
        old(fs).wf(),
    ensures
        final(fs).wf(),
        final(fs)@ == apply_entries(old(fs)@, home@, entry_views(entries@)),
{
    let ghost ev = entry_views(entries@);
    let n = entries.len();
    let mut i: usize = 0;
    while i < n
        invariant
            n == entries@.len(),
            ev == entry_views(entries@),
            0 <= i <= n,
            fs.wf(),
            fs@ == apply_entries(old(fs)@, home@, ev.take(i as int)),
        decreases n - i,
    {
        proof {
            assert(ev.take(i + 1).drop_last() =~= ev.take(i as int));
            assert(ev.take(i + 1).last() == ev[i as int]);
            assert(ev[i as int] == (entries@[i as int].path@, entries@[i as int].data@));
        }
        let key = join_under(home, entries[i].path.as_slice());
        fs.write(key.as_slice(), entries[i].data.as_slice());
        i += 1;
    }
    proof {
        assert(ev.take(n as int) =~= ev);
    }
}

/// Decompresses and unpacks a snapshot archive straight into the data
/// directory model under `home`. Decompression or extraction failures are
/// format errors; unlike a streaming extraction, the archive is parsed as a
/// whole before anything is written, so a failure leaves the model
/// untouched.
pub fn extract_snapshot(fs: &mut FsTree, home: &[u8], archive: &[u8]) -> (r: Result<
    (),
    LifecycleError,
>)
    requires
        old(fs).wf(),
    ensures
        final(fs).wf(),
        r is Ok <==> lz4_ok(archive@) && tar_ok(lz4_decoded(archive@)),
        r is Ok ==> final(fs)@ == apply_entries(
            old(fs)@,
            home@,
            tar_entries(lz4_decoded(archive@)),
        ),
        r is Err ==> r.unwrap_err() == LifecycleError::Format && final(fs)@ == old(fs)@,
{
    let entries = match unpack_archive(archive) {
        Ok(e) => e,
        Err(e) => {
            return Err(e);
        },
    };
    apply_archive_entries(fs, home, &entries);
    Ok(())
}

/// The relative path the fetched genesis document is written at.
pub open spec fn genesis_rel_path() -> Seq<u8> {
    "config/genesis.json".spec_bytes()
}

/// The exact bytes of [`genesis_rel_path`].
pub fn genesis_rel_path_bytes() -> (r: &'static [u8])
    ensures
        r@ == genesis_rel_path(),
{
    "config/genesis.json".as_bytes()
}

/// A completed download-state run: where the snapshot came from and how the
/// transfer went.
#[derive(Debug, PartialEq, Eq)]
pub struct DownloadReport {
    /// The resolved snapshot artifact location.
    pub url: Vec<u8>,
    /// The transfer's final accounting.
    pub transfer: SnapshotTransfer,
}

/// The download-state recipe over its acquired inputs: wipes the data
/// directory model, overlays the files the node binary's own initialization
/// step created, resolves the snapshot location from the index body,
/// consumes the download, extracts the archive, and writes the fetched
/// genesis document last at `home/config/genesis.json` — explicitly after
/// extraction, so the fetched genesis wins over any copy inside the archive.
/// Every failure leaves the model in the wiped-and-initialized state.
pub fn download_state(
    fs: &mut FsTree,
    home: &[u8],
    init_files: &Vec<ArchiveEntry>,
    genesis: &[u8],
    index_body: &[u8],
    content_length: Option<u64>,
    chunks: &Vec<Vec<u8>>,
) -> (r: Result<DownloadReport, LifecycleError>)
    requires
        old(fs).wf(),
    ensures
        final(fs).wf(),
        ({
            let base = apply_entries(
                scrub_dir(old(fs)@, home@),
                home@,
                entry_views(init_files@),
            );
            let archive = concat_chunks(byte_views(chunks@));
            &&& (r is Ok <==> trimmed(index_body@).len() > 0 && content_length is Some && lz4_ok(
                archive,
            ) && tar_ok(lz4_decoded(archive)))
            &&& (r is Err ==> final(fs)@ == base)
            &&& (trimmed(index_body@).len() == 0 ==> r == Err::<DownloadReport, LifecycleError>(
                LifecycleError::Protocol,
            ))
            &&& (trimmed(index_body@).len() > 0 && content_length is None ==> r == Err::<
                DownloadReport,
                LifecycleError,
            >(LifecycleError::Protocol))
            &&& (trimmed(index_body@).len() > 0 && content_length is Some && r is Err
                ==> r.unwrap_err() == LifecycleError::Format)
            &&& (r is Ok ==> {
                let rep = r.unwrap();
                &&& final(fs)@ == apply_entries(
                    base,
                    home@,
                    tar_entries(lz4_decoded(archive)),
                ).insert(home@.push(slash()) + genesis_rel_path(), genesis@)
                &&& rep.url@ == trimmed(index_body@)
                &&& content_length == Some(rep.transfer.total)
                &&& rep.transfer.received == archive.len()
            })
        }),
{
    fs.remove_dir_all(home);
    apply_archive_entries(fs, home, init_files);
    let url = match resolve_snapshot_url(index_body) {
        Ok(u) => u,
        Err(e) => {
            return Err(e);
        },
    };
    let downloaded = match run_download(content_length, chunks) {
        Ok(d) => d,
        Err(e) => {
            return Err(e);
        },
    };
    match extract_snapshot(fs, home, downloaded.data.as_slice()) {
        Ok(()) => {},
        Err(e) => {
            return Err(e);
        },
    }
    let genesis_key = join_under(home, genesis_rel_path_bytes());
    fs.write(genesis_key.as_slice(), genesis);
    Ok(DownloadReport { url, transfer: downloaded.transfer })
}

} // verus!
