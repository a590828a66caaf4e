//! The archive fetch-and-extract pipeline: the in-memory rootfs buffer that
//! the fetch step fills, and the extract step that parses the buffer as a
//! zip-style archive container and plans the virtual-filesystem actions.
//!
//! The container is parsed by the `zip` crate behind trusted wrappers; the
//! enumeration of entries, the per-entry decisions, the tolerance of corrupt
//! entries and the log lines are this module's own, verified logic.  A
//! per-entry failure is logged and skipped; only a container-level parse
//! failure (or a failed single acquisition attempt on the buffer's lock)
//! fails the extract step.

use vstd::prelude::*;

use crate::tui::{rfc3339_of, Tui, TuiState, MAX_TIMESTAMP_SECS};

verus! {

/// Declares `zip::ZipArchive` so that archive values can pass through
/// signatures; the value is opaque, spoken of only through
/// [`archive_source`].
#[verifier::external_type_specification]
#[verifier::external_body]
#[verifier::reject_recursive_types(R)]
pub struct ExZipArchive<R>(zip::ZipArchive<R>);

/// Declares `std::io::Cursor`, the in-memory reader the archive is parsed
/// from.
#[verifier::external_type_specification]
#[verifier::external_body]
#[verifier::reject_recursive_types(T)]
pub struct ExCursor<T>(std::io::Cursor<T>);

/// Whether a byte buffer parses as a zip-style archive container.
pub uninterp spec fn zip_ok(bytes: Seq<u8>) -> bool;

/// The number of entries the archive's central directory lists.
pub uninterp spec fn zip_count(bytes: Seq<u8>) -> nat;

/// The entry at sequential index `i` of the archive held in `bytes`:
/// `None` when the entry cannot be read (a corrupt entry), otherwise its
/// name, whether it is a regular file, and its stream of decoded content
/// chunks (`None` marks an undecodable chunk).
pub uninterp spec fn zip_entry(bytes: Seq<u8>, i: int) -> Option<
    (Seq<char>, bool, Seq<Option<u8>>),
>;

/// The byte buffer an open archive value was parsed from.
pub uninterp spec fn archive_source(a: zip::ZipArchive<std::io::Cursor<Vec<u8>>>) -> Seq<u8>;

/// A directory entry's name, as the archive container marks directories: a
/// name ending in a path separator.
pub open spec fn dir_name(name: Seq<char>) -> bool {
    name.len() > 0 && (name.last() == '/' || name.last() == '\\')
}

/// Relies on `zip::ZipArchive::new`: parsing the central directory of the
/// given bytes either yields an archive over exactly those bytes or fails,
/// depending on the bytes alone.
#[verifier::external_body]
fn open_archive(bytes: &Vec<u8>) -> (r: Option<zip::ZipArchive<std::io::Cursor<Vec<u8>>>>)
    ensures
        r is Some <==> zip_ok(bytes@),
        r is Some ==> archive_source(r->0) == bytes@,
{
    zip::ZipArchive::new(std::io::Cursor::new(bytes.clone())).ok()
}

/// Relies on `zip::ZipArchive::len`: the number of entries contained in the
/// archive.
#[verifier::external_body]
fn entry_count(a: &zip::ZipArchive<std::io::Cursor<Vec<u8>>>) -> (r: usize)
    ensures
        r as nat == zip_count(archive_source(*a)),
{
    a.len()
}

/// One archive entry, read out as plain values.
pub struct ArchiveEntry {
    /// Path relative to the archive root.
    pub name: String,
    /// Whether the name marks a directory (it ends in a path separator).
    pub is_dir: bool,
    /// Whether the entry is a regular file (not a directory or symlink).
    pub is_file: bool,
    /// The decoded content stream; `None` marks an undecodable chunk.
    pub chunks: Vec<Option<u8>>,
}

/// Relies on `zip::ZipArchive::by_index` and the accessors of the entry it
/// hands out: reading entry `i` fails or yields its name, its kind
/// (`is_dir` is true exactly when the name ends in `/` or `\`, and a regular
/// file is never a directory) and its content stream, all depending on the
/// archive's bytes and `i` alone; reading leaves the archive's bytes as they
/// were.  The stream is read through `Read::bytes`, one `Ok` byte per
/// decodable chunk, capped at one chunk past the entry's declared size so
/// that a stream stuck on errors cannot be read forever.
#[verifier::external_body]
fn read_entry(a: &mut zip::ZipArchive<std::io::Cursor<Vec<u8>>>, i: usize) -> (r: Option<
    ArchiveEntry,
>)
    requires
        (i as nat) < zip_count(archive_source(*old(a))),
    ensures
        archive_source(*final(a)) == archive_source(*old(a)),
        r is Some <==> zip_entry(archive_source(*old(a)), i as int) is Some,
        r is Some ==> {
            let e = zip_entry(archive_source(*old(a)), i as int)->0;
            &&& r->0.name@ == e.0
            &&& r->0.is_file == e.1
            &&& r->0.chunks@ == e.2
            &&& r->0.is_dir == dir_name(e.0)
            &&& e.1 ==> !dir_name(e.0)
        },
{
    match a.by_index(i) {
        Ok(mut f) => {
            let name = f.name().to_string();
            let is_dir = f.is_dir();
            let is_file = f.is_file();
            let cap = (f.size() as usize).saturating_add(1);
            let chunks = std::io::Read::bytes(f).map(|b| b.ok()).take(cap).collect();
            Some(ArchiveEntry { name, is_dir, is_file, chunks })
        },
        Err(_) => None,
    }
}

/// The content bytes kept from a stream of chunks: every decodable chunk in
/// order, the undecodable ones silently dropped.
pub open spec fn decoded(chunks: Seq<Option<u8>>) -> Seq<u8>
    decreases chunks.len(),
{
    if chunks.len() == 0 {
        Seq::empty()
    } else {
        decoded(chunks.drop_last()) + match chunks.last() {
            Some(b) => seq![b],
            None => Seq::empty(),
        }
    }
}

/// Keep the decodable chunks of an entry's content stream, in order.
pub fn decode_chunks(chunks: &Vec<Option<u8>>) -> (r: Vec<u8>)
    ensures
        r@ == decoded(chunks@),
{
    let mut r: Vec<u8> = Vec::new();
    let mut i: usize = 0;
    while i < chunks.len()
        invariant
            i <= chunks@.len(),
            r@ == decoded(chunks@.take(i as int)),
        decreases chunks@.len() - i,
    {
        proof {
            assert(chunks@.take(i as int + 1).drop_last() =~= chunks@.take(i as int));
        }
        match chunks[i] {
            Some(b) => r.push(b),
            None => {},
        }
        i = i + 1;
    }
    proof {
        assert(chunks@.take(chunks@.len() as int) =~= chunks@);
    }
    r
}

/// The virtual path an entry is materialized at: the entry's name prefixed
/// with the mount root.
pub open spec fn entry_path(name: Seq<char>) -> Seq<char> {
    "C:/"@ + name
}

fn entry_path_exec(name: &String) -> (r: String)
    ensures
        r@ == entry_path(name@),
{
    let mut r = String::from_str("C:/");
    r.append(name.as_str());
    r
}

/// One planned virtual-filesystem action, as spoken of in contracts.
pub enum FsOp {
    Dir { path: Seq<char> },
    File { path: Seq<char>, content: Seq<u8> },
}

/// One virtual-filesystem action the extract step plans: create a directory,
/// or create a file and write its whole content at offset zero.
#[derive(Debug, Clone, PartialEq, Eq)]
pub enum FsAction {
    Dir { path: String },
    File { path: String, content: Vec<u8> },
}

impl View for FsAction {
    type V = FsOp;

    open spec fn view(&self) -> FsOp {
        match self {
            FsAction::Dir { path } => FsOp::Dir { path: path@ },
            FsAction::File { path, content } => FsOp::File { path: path@, content: content@ },
        }
    }
}

impl DeepView for FsAction {
    type V = FsOp;

    open spec fn deep_view(&self) -> FsOp {
        self.view()
    }
}

/// The singleton in-memory rootfs buffer: fully overwritten by each fetch,
/// read out by extract.
pub struct RootfsBuffer {
    data: Vec<u8>,
}

impl View for RootfsBuffer {
    type V = Seq<u8>;

    closed spec fn view(&self) -> Seq<u8> {
        self.data@
    }
}

impl RootfsBuffer {
    /// An empty buffer.
    pub fn new() -> (r: Self)
        ensures
            r@ == Seq::<u8>::empty(),
    {
        RootfsBuffer { data: Vec::new() }
    }

    /// Replace the buffer's contents wholesale with the given bytes.
    pub fn set_rootfs(&mut self, value: &[u8])
        ensures
            final(self)@ == value@,
    {
        self.data.clear();
        let mut i: usize = 0;
        while i < value.len()
            invariant
                i <= value@.len(),
                self.data@ == value@.take(i as int),
            decreases value@.len() - i,
        {
            proof {
                assert(value@.take(i as int + 1) =~= value@.take(i as int).push(value@[i as int]));
            }
            self.data.push(value[i]);
            i = i + 1;
        }
        proof {
            assert(value@.take(value@.len() as int) =~= value@);
        }
    }

    /// The buffered bytes.
    pub fn bytes(&self) -> (r: &Vec<u8>)
        ensures
            r@ == self@,
    {
        &self.data
    }
}

/// Why the fetch step failed.
#[derive(Debug, Clone, Copy, PartialEq, Eq, Structural)]
pub enum FetchError {
    /// The transport reported a failure status.
    Transport,
}

/// Why the extract step failed.
#[derive(Debug, Clone, Copy, PartialEq, Eq, Structural)]
pub enum ExtractError {
    /// The single non-blocking acquisition attempt on the rootfs buffer's
    /// lock failed.
    BufferBusy,
    /// The buffer cannot be parsed as an archive container at all.
    Container,
}

/// Ingest the outcome of the fetch step's single network round-trip: on a
/// success status, copy the full response payload into the rootfs buffer,
/// replacing any prior contents; on a failure status, log the condition and
/// report failure without touching the buffer.
pub fn fetch_rootfs(
    status_ok: bool,
    payload: &[u8],
    now_secs: u64,
    now_nanos: u32,
    buffer: &mut RootfsBuffer,
    tui: &mut TuiState,
) -> (r: Result<(), FetchError>)
    requires
        now_secs < MAX_TIMESTAMP_SECS,
        now_nanos < 1_000_000_000,
    ensures
        r is Ok <==> status_ok,
        status_ok ==> final(buffer)@ == payload@ && *final(tui) == *old(tui),
        !status_ok ==> {
            &&& r == Err::<(), FetchError>(FetchError::Transport)
            &&& *final(buffer) == *old(buffer)
            &&& final(tui).spec_log() == old(tui).spec_log() + "\n"@ + rfc3339_of(
                now_secs as int,
                now_nanos as int,
            ) + ": "@ + "Request exited with failure status"@
        },
        final(tui).spec_running() == old(tui).spec_running(),
{
    if !status_ok {
        tui.log_message(now_secs, now_nanos, "Request exited with failure status");
        return Err(FetchError::Transport);
    }
    buffer.set_rootfs(payload);
    Ok(())
}

/// The actions extraction plans for the single entry at index `i`: a corrupt
/// entry plans nothing, a file entry plans one file creation with its decoded
/// content, a directory entry one directory creation, anything else nothing.
pub open spec fn entry_ops(bytes: Seq<u8>, i: int) -> Seq<FsOp> {
    match zip_entry(bytes, i) {
        None => Seq::empty(),
        Some(e) => if e.1 {
            seq![FsOp::File { path: entry_path(e.0), content: decoded(e.2) }]
        } else if dir_name(e.0) {
            seq![FsOp::Dir { path: entry_path(e.0) }]
        } else {
            Seq::empty()
        },
    }
}

/// The actions extraction plans for the first `n` entries, in entry order.
pub open spec fn extract_plan(bytes: Seq<u8>, n: int) -> Seq<FsOp>
    decreases n,
{
    if n <= 0 {
        Seq::empty()
    } else {
        extract_plan(bytes, n - 1) + entry_ops(bytes, n - 1)
    }
}

/// The log text extraction appends for the single entry at index `i`.
pub open spec fn entry_log(bytes: Seq<u8>, i: int, secs: int, nanos: int) -> Seq<char> {
    let stamp = "\n"@ + rfc3339_of(secs, nanos) + ": "@;
    match zip_entry(bytes, i) {
        None => stamp + "\x1b[31mFailed to read part\x1b[97m"@,
        Some(e) => if e.1 || dir_name(e.0) {
            stamp + "Extracted \""@ + entry_path(e.0) + "\""@
        } else {
            Seq::empty()
        },
    }
}

/// The log text extraction appends for the first `n` entries.
pub open spec fn extract_log(bytes: Seq<u8>, n: int, secs: int, nanos: int) -> Seq<char>
    decreases n,
{
    if n <= 0 {
        Seq::empty()
    } else {
        extract_log(bytes, n - 1, secs, nanos) + entry_log(bytes, n - 1, secs, nanos)
    }
}

/// Extract the rootfs: parse the buffer as an archive container and plan,
/// for each entry in container order, the virtual-filesystem action that
/// materializes it, logging each materialized entry and each skipped corrupt
/// entry.  `buffer` is `None` when the single non-blocking acquisition
/// attempt on the buffer's lock failed, which is reported as a hard failure;
/// a container-level parse failure is the only other failing condition, and
/// entry-level failures never fail the step.
pub fn extract_rootfs(
    buffer: Option<&RootfsBuffer>,
    now_secs: u64,
    now_nanos: u32,
    tui: &mut TuiState,
) -> (r: Result<Vec<FsAction>, ExtractError>)
    requires
        now_secs < MAX_TIMESTAMP_SECS,
        now_nanos < 1_000_000_000,
    ensures
        buffer is None ==> {
            &&& r == Err::<Vec<FsAction>, ExtractError>(ExtractError::BufferBusy)
            &&& final(tui).spec_log() == old(tui).spec_log() + "\n"@ + rfc3339_of(
                now_secs as int,
                now_nanos as int,
            ) + ": "@ + "Could not acquire rootfs lock"@
        },
        buffer is Some ==> {
            let bytes = buffer->0@;
            &&& (r is Ok <==> zip_ok(bytes))
            &&& !zip_ok(bytes) ==> r == Err::<Vec<FsAction>, ExtractError>(ExtractError::Container)
                && *final(tui) == *old(tui)
            &&& zip_ok(bytes) ==> r->Ok_0.deep_view() == extract_plan(
                bytes,
                zip_count(bytes) as int,
            ) && final(tui).spec_log() == old(tui).spec_log() + extract_log(
                bytes,
                zip_count(bytes) as int,
                now_secs as int,
                now_nanos as int,
            )
        },
        final(tui).spec_running() == old(tui).spec_running(),
{
    let buf = match buffer {
        None => {
            tui.log_message(now_secs, now_nanos, "Could not acquire rootfs lock");
            return Err(ExtractError::BufferBusy);
        },
        Some(b) => b,
    };
    let ghost bytes = buf@;
    let mut archive = match open_archive(buf.bytes()) {
        None => {
            return Err(ExtractError::Container);
        },
        Some(a) => a,
    };
    let n = entry_count(&archive);
    let mut actions: Vec<FsAction> = Vec::new();
    let mut i: usize = 0;
    while i < n
        invariant
            zip_ok(bytes),
            archive_source(archive) == bytes,
            n as nat == zip_count(bytes),
            i <= n,
            now_secs < MAX_TIMESTAMP_SECS,
            now_nanos < 1_000_000_000,
            actions.deep_view() == extract_plan(bytes, i as int),
            tui.spec_log() == old(tui).spec_log() + extract_log(
                bytes,
                i as int,
                now_secs as int,
                now_nanos as int,
            ),
            tui.spec_running() == old(tui).spec_running(),
        decreases n - i,
    {
        let ghost actions0 = actions.deep_view();
        match read_entry(&mut archive, i) {
            None => {
                tui.log_message(now_secs, now_nanos, "\x1b[31mFailed to read part\x1b[97m");
            },
            Some(entry) => {
                if entry.is_file {
                    let content = decode_chunks(&entry.chunks);
                    let path = entry_path_exec(&entry.name);
                    let mut msg = String::from_str("Extracted \"");
                    msg.append(path.as_str());
                    msg.append("\"");
                    actions.push(FsAction::File { path, content });
                    tui.log_message(now_secs, now_nanos, msg.as_str());
                } else if entry.is_dir {
                    let path = entry_path_exec(&entry.name);
                    let mut msg = String::from_str("Extracted \"");
                    msg.append(path.as_str());
                    msg.append("\"");
                    actions.push(FsAction::Dir { path });
                    tui.log_message(now_secs, now_nanos, msg.as_str());
                }
            },
        }
        proof {
            assert(extract_plan(bytes, i as int + 1) == extract_plan(bytes, i as int) + entry_ops(
                bytes,
                i as int,
            ));
            assert(actions.deep_view() =~= actions0 + entry_ops(bytes, i as int));
            assert(extract_log(bytes, i as int + 1, now_secs as int, now_nanos as int)
                == extract_log(bytes, i as int, now_secs as int, now_nanos as int) + entry_log(
                bytes,
                i as int,
                now_secs as int,
                now_nanos as int,
            ));
        }
        i = i + 1;
    }
    Ok(actions)
}

/// The fetch step against the shared renderer log: as [`fetch_rootfs`], with
/// the log append serialized through the renderer's guard.
pub fn fetch_rootfs_shared(
    status_ok: bool,
    payload: &[u8],
    now_secs: u64,
    now_nanos: u32,
    buffer: &mut RootfsBuffer,
    tui: &Tui,
) -> (r: Result<(), FetchError>)
    requires
        now_secs < MAX_TIMESTAMP_SECS,
        now_nanos < 1_000_000_000,
    ensures
        r is Ok <==> status_ok,
        status_ok ==> final(buffer)@ == payload@,
        !status_ok ==> r == Err::<(), FetchError>(FetchError::Transport) && *final(buffer) == *old(
            buffer,
        ),
{
    let (mut st, handle) = tui.write_state();
    let r = fetch_rootfs(status_ok, payload, now_secs, now_nanos, buffer, &mut st);
    handle.release_write(st);
    r
}

/// The extract step against the shared renderer log: as [`extract_rootfs`],
/// with the log appends serialized through the renderer's guard.
pub fn extract_rootfs_shared(
    buffer: Option<&RootfsBuffer>,
    now_secs: u64,
    now_nanos: u32,
    tui: &Tui,
) -> (r: Result<Vec<FsAction>, ExtractError>)
    requires
        now_secs < MAX_TIMESTAMP_SECS,
        now_nanos < 1_000_000_000,
    ensures
        buffer is None ==> r == Err::<Vec<FsAction>, ExtractError>(ExtractError::BufferBusy),
        buffer is Some ==> {
            let bytes = buffer->0@;
            &&& (r is Ok <==> zip_ok(bytes))
            &&& !zip_ok(bytes) ==> r == Err::<Vec<FsAction>, ExtractError>(ExtractError::Container)
            &&& zip_ok(bytes) ==> r->Ok_0.deep_view() == extract_plan(
                bytes,
                zip_count(bytes) as int,
            )
        },
{
    let (mut st, handle) = tui.write_state();
    let r = extract_rootfs(buffer, now_secs, now_nanos, &mut st);
    handle.release_write(st);
    r
}

} // verus!
