//! File transfers.
//!
//! Two halves of the same problem:
//!
//! - [`plan_file`] and [`FileSender`] chop a local file into
//!   [`FileChunkFrame`] pieces of [`FILE_CHUNK_BYTES`] bytes each
//!   (base64-encoded), every chunk carrying the file's SHA-256 and total size,
//!   so that a receiver that joins late can still verify the assembly.
//! - [`FileReceiver`] accumulates inbound chunks into a partial file in the
//!   directory that files are saved in and, on the final chunk, verifies the
//!   SHA-256 and has the assembled file moved into place.
//!
//! Neither half touches the disk: the sender is handed what was read, and the
//! receiver says step by step what is to be done with which path and is told
//! when it is done.
use crate::client::names::{
    law_safe_name_stays_in_directory, mime_for, mime_for_name, safe_name, sanitize_filename,
    sanitized,
};
use crate::codec::{base64_bytes, base64_decode, base64_encode, base64_fits, base64_len, base64_text};
use crate::ident::{law_uuid_text_injective, lemma_uuid_text_chars, random_uuid, uuid_text, Uuid};
use crate::path::{entry_name, entry_of, law_entries_differ, LocalPath};
use crate::protocol::{chunk_problem, FileChunkFrame, FILE_CHUNK_BYTES};
use crate::text::same_text;
use std::collections::HashMap;
use vstd::prelude::*;
use vstd::string::*;

verus! {

broadcast use vstd::std_specs::hash::group_hash_axioms;

/// How many chunks a file of `size` bytes is sent in.
pub open spec fn chunk_count(size: nat) -> nat {
    (size + FILE_CHUNK_BYTES as nat - 1) as nat / FILE_CHUNK_BYTES as nat
}

/// Where chunk `index` begins in its file.
pub open spec fn chunk_offset(index: int) -> int {
    index * FILE_CHUNK_BYTES
}

/// The bytes of `content` that chunk `index` carries: [`FILE_CHUNK_BYTES`] of
/// them, fewer in the last chunk.
pub open spec fn chunk_bytes(content: Seq<u8>, index: int) -> Seq<u8> {
    content.subrange(
        chunk_offset(index),
        if chunk_offset(index + 1) < content.len() {
            chunk_offset(index + 1)
        } else {
            content.len() as int
        },
    )
}

fn offset_of(index: u32) -> (r: u64)
    ensures
        r == chunk_offset(index as int),
{
    let size: u64 = FILE_CHUNK_BYTES as u64;
    assert(index * size <= u32::MAX * 4_194_304) by (nonlinear_arith)
        requires
            size == 4_194_304,
            index <= u32::MAX,
    ;
    (index as u64) * size
}

/// Why a file is not sent.
#[derive(Debug, Clone, Copy, PartialEq, Eq, Structural)]
pub enum SendError {
    /// The path ends in no name, or in one that is not UTF-8.
    NoFileName,
    /// The file has no bytes.
    EmptyFile,
    /// The file has more chunks than a `u32` can count.
    TooManyChunks,
}

/// What is known of a file before its bytes are read.
#[derive(Debug, Clone, PartialEq, Eq)]
pub struct FilePlan {
    pub name: String,
    pub content_type: String,
    pub total_chunks: u32,
    pub file_size: u64,
}

/// Plans sending a file of `file_size` bytes whose path ends in `name`.
pub fn plan_file(name: Option<&str>, file_size: u64) -> (r: Result<FilePlan, SendError>)
    ensures
        name is None ==> r == Err::<FilePlan, SendError>(SendError::NoFileName),
        name is Some && file_size == 0 ==> r == Err::<FilePlan, SendError>(SendError::EmptyFile),
        name is Some && chunk_count(file_size as nat) > u32::MAX ==> r == Err::<
            FilePlan,
            SendError,
        >(SendError::TooManyChunks),
        name is Some && 0 < file_size && chunk_count(file_size as nat) <= u32::MAX ==> {
            &&& r matches Ok(plan)
            &&& plan.name@ == name->0@
            &&& plan.content_type@ == mime_for_name(name->0@)
            &&& plan.total_chunks == chunk_count(file_size as nat)
            &&& plan.file_size == file_size
        },
{
    let name = match name {
        Some(name) => name,
        None => {
            return Err(SendError::NoFileName);
        },
    };
    if file_size == 0 {
        return Err(SendError::EmptyFile);
    }
    let size: u64 = FILE_CHUNK_BYTES as u64;
    let count: u64 = (file_size - 1) / size + 1;
    assert(FILE_CHUNK_BYTES == 4_194_304);
    assert(count == chunk_count(file_size as nat));
    if count > u32::MAX as u64 {
        return Err(SendError::TooManyChunks);
    }
    Ok(
        FilePlan {
            name: name.to_string(),
            content_type: mime_for(name),
            total_chunks: count as u32,
            file_size,
        },
    )
}

/// A file that is being sent, chunk after chunk.
#[derive(Debug, Clone, PartialEq, Eq)]
pub struct OutgoingFile {
    pub file_id: Uuid,
    pub plan: FilePlan,
    pub file_sha256: String,
    /// The index of the next chunk.
    pub next_index: u32,
}

/// Whether `frame` is the next chunk of `file`, with the bytes `block`.
pub open spec fn next_frame(file: OutgoingFile, block: Seq<u8>, frame: FileChunkFrame) -> bool {
    &&& frame.file_id == file.file_id
    &&& frame.name@ == file.plan.name@
    &&& frame.content_type@ == file.plan.content_type@
    &&& frame.chunk_index == file.next_index
    &&& frame.total_chunks == file.plan.total_chunks
    &&& frame.file_sha256@ == file.file_sha256@
    &&& frame.file_size == file.plan.file_size
    &&& frame.payload_b64@ == base64_text(block)
    &&& frame.from is None
}

impl OutgoingFile {
    /// Begins sending a planned file with the digest `file_sha256`, as the
    /// transfer `file_id`.
    pub fn with_id(plan: FilePlan, file_sha256: String, file_id: Uuid) -> (r: Self)
        ensures
            r == (OutgoingFile { file_id, plan, file_sha256, next_index: 0 }),
    {
        OutgoingFile { file_id, plan, file_sha256, next_index: 0 }
    }

    /// Begins sending a planned file with the digest `file_sha256`, under a
    /// fresh id.
    pub fn begin(plan: FilePlan, file_sha256: String) -> (r: Self)
        ensures
            random_uuid(r.file_id.bits),
            r == (OutgoingFile { file_id: r.file_id, plan, file_sha256, next_index: 0 }),
    {
        OutgoingFile::with_id(plan, file_sha256, Uuid::new_v4())
    }

    /// The next chunk, which carries `block`.
    fn next_chunk(&mut self, block: &[u8]) -> (r: FileChunkFrame)
        requires
            old(self).next_index < u32::MAX,
            block@.len() <= FILE_CHUNK_BYTES,
        ensures
            next_frame(*old(self), block@, r),
            *final(self) == following(*old(self)),
    {
        assert(base64_fits(block@.len())) by {
            assert(base64_len(block@.len()) <= 5_592_408);
        }
        let index = self.next_index;
        self.next_index = index + 1;
        FileChunkFrame {
            file_id: self.file_id,
            name: self.plan.name.clone(),
            content_type: self.plan.content_type.clone(),
            chunk_index: index,
            total_chunks: self.plan.total_chunks,
            file_sha256: self.file_sha256.clone(),
            file_size: self.plan.file_size,
            payload_b64: base64_encode(block),
            from: None,
        }
    }
}

/// The file once its next chunk was sent.
pub open spec fn following(file: OutgoingFile) -> OutgoingFile {
    OutgoingFile { next_index: (file.next_index + 1) as u32, ..file }
}

/// Sends a file from the bytes that reading it gives, however many each single
/// read delivers: they are gathered into blocks of [`FILE_CHUNK_BYTES`], and
/// only the last chunk carries fewer.
pub struct FileSender {
    file: OutgoingFile,
    block: Vec<u8>,
    ended: bool,
}

/// A file being sent, by its values.
#[verifier::ext_equal]
pub struct SenderState {
    pub file: OutgoingFile,
    /// What was read since the last chunk.
    pub block: Seq<u8>,
    /// Whether the end of the file was reached.
    pub ended: bool,
}

impl View for FileSender {
    type V = SenderState;

    closed spec fn view(&self) -> SenderState {
        SenderState { file: self.file, block: self.block@, ended: self.ended }
    }
}

/// What the sender does next.
#[derive(Debug, Clone, PartialEq, Eq)]
pub enum SendStep {
    /// Read on.
    Read,
    /// Send a chunk, and read on.
    Send(FileChunkFrame),
    /// Every chunk was sent.
    Done,
}

/// What the sender does next, by the block of the chunk that it sends.
#[verifier::ext_equal]
pub enum SendValues {
    Read,
    Send(Seq<u8>),
    Done,
}

/// Whether a read of `len` bytes leaves the block no longer than a chunk.
pub open spec fn has_room(state: SenderState, len: nat) -> bool {
    state.block.len() + len <= FILE_CHUNK_BYTES
}

/// The sender and its step after a read that gave `bytes`; a read that gave none
/// is the end of the file.
pub open spec fn sender_step(state: SenderState, bytes: Seq<u8>) -> (SenderState, SendValues) {
    let block = state.block + bytes;
    if state.ended {
        (state, SendValues::Done)
    } else if bytes.len() > 0 && block.len() < FILE_CHUNK_BYTES {
        (SenderState { block, ..state }, SendValues::Read)
    } else if block.len() == 0 {
        (SenderState { ended: true, ..state }, SendValues::Done)
    } else {
        (
            SenderState {
                file: following(state.file),
                block: Seq::empty(),
                ended: bytes.len() == 0,
            },
            SendValues::Send(block),
        )
    }
}

impl FileSender {
    /// Begins sending `file`.
    pub fn new(file: OutgoingFile) -> (r: Self)
        ensures
            r@ == (SenderState { file, block: Seq::empty(), ended: false }),
            r.wf(),
    {
        FileSender { file, block: Vec::new(), ended: false }
    }

    /// A full block does not wait.
    pub open spec fn wf(self) -> bool {
        self@.block.len() < FILE_CHUNK_BYTES
    }

    /// How many bytes to read at most.
    pub fn room(&self) -> (r: usize)
        requires
            self.wf(),
        ensures
            r == FILE_CHUNK_BYTES - self@.block.len(),
            0 < r,
    {
        FILE_CHUNK_BYTES - self.block.len()
    }

    /// The index of the next chunk.
    pub fn next_index(&self) -> (r: u32)
        ensures
            r == self@.file.next_index,
    {
        self.file.next_index
    }

    /// Whether a read of `len` bytes makes a chunk due.
    pub fn chunk_due(&self, len: usize) -> (r: bool)
        requires
            has_room(self@, len as nat),
        ensures
            forall|bytes: Seq<u8>|
                bytes.len() == len ==> r == ((#[trigger] sender_step(self@, bytes)).1 is Send),
    {
        let filled: usize = self.block.len() + len;
        !self.ended && filled > 0 && (len == 0 || filled >= FILE_CHUNK_BYTES)
    }

    /// Takes what a read gave; nothing at the end of the file.
    pub fn on_read(&mut self, bytes: &[u8]) -> (r: SendStep)
        requires
            old(self).wf(),
            has_room(old(self)@, bytes@.len()),
            sender_step(old(self)@, bytes@).1 is Send ==> old(self)@.file.next_index < u32::MAX,
        ensures
            final(self).wf(),
            final(self)@ == sender_step(old(self)@, bytes@).0,
            match sender_step(old(self)@, bytes@).1 {
                SendValues::Read => r is Read,
                SendValues::Send(block) => r matches SendStep::Send(frame) && next_frame(
                    old(self)@.file,
                    block,
                    frame,
                ),
                SendValues::Done => r is Done,
            },
    {
        if self.ended {
            return SendStep::Done;
        }
        self.block.extend_from_slice(bytes);
        assert(self.block@ =~= old(self)@.block + bytes@);
        if bytes.len() > 0 && self.block.len() < FILE_CHUNK_BYTES {
            return SendStep::Read;
        }
        self.ended = bytes.len() == 0;
        if self.block.len() == 0 {
            return SendStep::Done;
        }
        let mut block: Vec<u8> = Vec::new();
        std::mem::swap(&mut block, &mut self.block);
        SendStep::Send(self.file.next_chunk(&block))
    }
}

/// A chunk that was decoded.
#[derive(Debug, Clone, PartialEq, Eq)]
pub struct DecodedChunk {
    pub file_id: Uuid,
    /// The name to save the file under.
    pub name: String,
    pub chunk_index: u32,
    pub total_chunks: u32,
    pub file_sha256: String,
    pub file_size: u64,
    pub bytes: Vec<u8>,
}

/// A decoded chunk, by its values.
#[verifier::ext_equal]
pub struct ChunkValues {
    pub file_id: u128,
    pub name: Seq<char>,
    pub chunk_index: u32,
    pub total_chunks: u32,
    pub file_sha256: Seq<char>,
    pub file_size: u64,
    pub bytes: Seq<u8>,
}

impl View for DecodedChunk {
    type V = ChunkValues;

    open spec fn view(&self) -> ChunkValues {
        ChunkValues {
            file_id: self.file_id.bits,
            name: self.name@,
            chunk_index: self.chunk_index,
            total_chunks: self.total_chunks,
            file_sha256: self.file_sha256@,
            file_size: self.file_size,
            bytes: self.bytes@,
        }
    }
}

/// What `frame` decodes to, where its payload decodes to `bytes`.
pub open spec fn decoded(frame: FileChunkFrame, bytes: Seq<u8>) -> ChunkValues {
    ChunkValues {
        file_id: frame.file_id.bits,
        name: sanitized(frame.name@),
        chunk_index: frame.chunk_index,
        total_chunks: frame.total_chunks,
        file_sha256: frame.file_sha256@,
        file_size: frame.file_size,
        bytes,
    }
}

/// Whether a chunk has a place in its file and a name to save it under.
pub open spec fn chunk_in_range(chunk: ChunkValues) -> bool {
    &&& chunk.chunk_index < chunk.total_chunks
    &&& safe_name(chunk.name)
}

/// What is to be done next for an inbound chunk.
#[derive(Debug, Clone, PartialEq, Eq)]
pub enum ReceiveStep {
    /// Create the partial file at `path`, empty, and give it the size
    /// `chunk.file_size`; report it with [`FileReceiver::partial_created`].
    Create { path: LocalPath, chunk: DecodedChunk },
    /// Write `chunk.bytes` at `offset` into the partial file at `path`; report
    /// it with [`FileReceiver::chunk_written`].
    Write { path: LocalPath, offset: u64, chunk: DecodedChunk },
    /// Nothing: more chunks are pending, or this one was there already.
    Pending,
    /// Flush the partial file at `path` and compute its digest; report that
    /// with [`FileReceiver::digest_computed`].
    Verify { path: LocalPath },
    /// Move the file at `path` to a free path for `name` in the directory that
    /// files are saved in; report it with [`FileReceiver::file_placed`].
    Place { path: LocalPath, name: String },
    /// Remove the partial file at `path`: the file failed verification.
    Discard { path: LocalPath },
}

/// What is to be done next, by its values.
#[verifier::ext_equal]
pub enum StepValues {
    Create { path: Seq<Seq<u8>>, chunk: ChunkValues },
    Write { path: Seq<Seq<u8>>, offset: int, chunk: ChunkValues },
    Pending,
    Verify { path: Seq<Seq<u8>> },
    Place { path: Seq<Seq<u8>>, name: Seq<char> },
    Discard { path: Seq<Seq<u8>> },
}

impl View for ReceiveStep {
    type V = StepValues;

    open spec fn view(&self) -> StepValues {
        match *self {
            ReceiveStep::Create { path, chunk } => StepValues::Create {
                path: path@,
                chunk: chunk@,
            },
            ReceiveStep::Write { path, offset, chunk } => StepValues::Write {
                path: path@,
                offset: offset as int,
                chunk: chunk@,
            },
            ReceiveStep::Pending => StepValues::Pending,
            ReceiveStep::Verify { path } => StepValues::Verify { path: path@ },
            ReceiveStep::Place { path, name } => StepValues::Place { path: path@, name: name@ },
            ReceiveStep::Discard { path } => StepValues::Discard { path: path@ },
        }
    }
}

/// Why an inbound chunk is rejected.
#[derive(Debug, PartialEq, Eq)]
pub enum ReceiveError {
    /// The frame is not valid; the reason is that of
    /// [`FileChunkFrame::validate`].
    Invalid(&'static str),
    /// The payload is not base64.
    Payload(base64::DecodeError),
    /// The sender changed the number of chunks, the digest or the size in the
    /// middle of a transfer.
    Inconsistent,
}

/// Why an inbound chunk is rejected, without the decoder's detail.
pub enum Rejection {
    Invalid(Seq<char>),
    Payload,
    Inconsistent,
}

impl View for ReceiveError {
    type V = Rejection;

    open spec fn view(&self) -> Rejection {
        match *self {
            ReceiveError::Invalid(reason) => Rejection::Invalid(reason@),
            ReceiveError::Payload(_) => Rejection::Payload,
            ReceiveError::Inconsistent => Rejection::Inconsistent,
        }
    }
}

/// A transfer in progress.
struct Transfer {
    name: String,
    received: Vec<bool>,
    expected_sha256: String,
    expected_size: u64,
}

/// A transfer in progress, by its values. `received` has one entry for each
/// chunk of the file.
#[verifier::ext_equal]
pub struct TransferState {
    pub name: Seq<char>,
    pub received: Seq<bool>,
    pub file_sha256: Seq<char>,
    pub file_size: u64,
}

impl View for Transfer {
    type V = TransferState;

    closed spec fn view(&self) -> TransferState {
        TransferState {
            name: self.name@,
            received: self.received@,
            file_sha256: self.expected_sha256@,
            file_size: self.expected_size,
        }
    }
}

/// Receiver state: one transfer for each `file_id` in progress.
pub struct FileReceiver {
    save_dir: LocalPath,
    transfers: HashMap<u128, Transfer>,
}

/// Receiver state, by its values.
#[verifier::ext_equal]
pub struct ReceiverState {
    pub save_dir: Seq<Seq<u8>>,
    pub transfers: Map<u128, TransferState>,
}

impl View for FileReceiver {
    type V = ReceiverState;

    closed spec fn view(&self) -> ReceiverState {
        ReceiverState {
            save_dir: self.save_dir@,
            transfers: self.transfers@.map_values(|t: Transfer| t@),
        }
    }
}

/// The state that a transfer begins in: no chunk is there.
pub open spec fn begun(chunk: ChunkValues) -> TransferState {
    TransferState {
        name: chunk.name,
        received: Seq::new(chunk.total_chunks as nat, |i: int| false),
        file_sha256: chunk.file_sha256,
        file_size: chunk.file_size,
    }
}

/// Whether every chunk is there.
pub open spec fn all_received(received: Seq<bool>) -> bool {
    forall|i: int| 0 <= i < received.len() ==> received[i]
}

/// Whether a chunk agrees with what the transfer's first chunk announced.
pub open spec fn consistent(transfer: TransferState, chunk: ChunkValues) -> bool {
    &&& chunk.total_chunks == transfer.received.len()
    &&& chunk.file_sha256 == transfer.file_sha256
    &&& chunk.file_size == transfer.file_size
}

/// The transfer once chunk `index` is there.
pub open spec fn with_chunk(transfer: TransferState, index: int) -> TransferState {
    TransferState { received: transfer.received.update(index, true), ..transfer }
}

/// The name of the partial file of the transfer `file_id`.
pub open spec fn partial_name(file_id: u128) -> Seq<char> {
    uuid_text(file_id) + ".partial"@
}

/// The path of the partial file of the transfer `file_id`.
pub open spec fn partial_path(save_dir: Seq<Seq<u8>>, file_id: u128) -> Seq<Seq<u8>> {
    entry_of(save_dir, partial_name(file_id))
}

/// The step that writes a chunk into its partial file.
pub open spec fn write_step(save_dir: Seq<Seq<u8>>, chunk: ChunkValues) -> StepValues {
    StepValues::Write {
        path: partial_path(save_dir, chunk.file_id),
        offset: chunk_offset(chunk.chunk_index as int),
        chunk,
    }
}

/// What an inbound frame leads to: a rejection or a step.
pub open spec fn inbound(state: ReceiverState, frame: FileChunkFrame) -> Result<
    StepValues,
    Rejection,
> {
    match chunk_problem(frame) {
        Some(reason) => Err(Rejection::Invalid(reason)),
        None => match base64_bytes(frame.payload_b64@) {
            None => Err(Rejection::Payload),
            Some(bytes) => {
                let chunk = decoded(frame, bytes);
                if !state.transfers.contains_key(chunk.file_id) {
                    Ok(
                        StepValues::Create {
                            path: partial_path(state.save_dir, chunk.file_id),
                            chunk,
                        },
                    )
                } else {
                    let transfer = state.transfers[chunk.file_id];
                    if !consistent(transfer, chunk) {
                        Err(Rejection::Inconsistent)
                    } else if transfer.received[chunk.chunk_index as int] {
                        Ok(StepValues::Pending)
                    } else {
                        Ok(write_step(state.save_dir, chunk))
                    }
                }
            },
        },
    }
}

/// The step once chunk `index` of the transfer `file_id` is written.
pub open spec fn step_after_write(state: ReceiverState, file_id: u128, index: int) -> StepValues {
    if all_received(with_chunk(state.transfers[file_id], index).received) {
        StepValues::Verify { path: partial_path(state.save_dir, file_id) }
    } else {
        StepValues::Pending
    }
}

/// The step once the digest of the transfer `file_id` is known.
pub open spec fn step_after_digest(
    state: ReceiverState,
    file_id: u128,
    actual: Seq<char>,
) -> StepValues {
    let path = partial_path(state.save_dir, file_id);
    if actual == state.transfers[file_id].file_sha256 {
        StepValues::Place { path, name: state.transfers[file_id].name }
    } else {
        StepValues::Discard { path }
    }
}

/// The state once a transfer is over.
pub open spec fn without_transfer(state: ReceiverState, file_id: u128) -> ReceiverState {
    ReceiverState { transfers: state.transfers.remove(file_id), ..state }
}

proof fn lemma_partial_name(file_id: u128)
    ensures
        entry_name(partial_name(file_id)),
{
    reveal_strlit(".partial");
    lemma_uuid_text_chars(file_id);
    let name = partial_name(file_id);
    assert forall|i: int| 0 <= i < name.len() implies name[i] != '/' && name[i] != '\\' by {
        if i < 36 {
            assert(name[i] == uuid_text(file_id)[i]);
        } else {
            assert(name[i] == ".partial"@[i - 36]);
        }
    }
    assert(name.len() == 44);
}

/// Different transfers have different partial files.
pub proof fn law_partial_files_differ(save_dir: Seq<Seq<u8>>, a: u128, b: u128)
    requires
        a != b,
    ensures
        partial_path(save_dir, a) != partial_path(save_dir, b),
{
    lemma_uuid_text_chars(a);
    lemma_uuid_text_chars(b);
    if partial_name(a) == partial_name(b) {
        assert(uuid_text(a) == partial_name(a).take(36));
        assert(uuid_text(b) == partial_name(b).take(36));
        law_uuid_text_injective(a, b);
    }
    law_entries_differ(save_dir, partial_name(a), partial_name(b));
}

/// The user's home directory could not be located.
#[derive(Debug, Clone, Copy, PartialEq, Eq, Structural)]
pub struct NoHomeDirectory;

/// Where files are saved by default: `clipboardwire` in the user's download
/// directory, or in `Downloads` in the home directory where none is known.
pub open spec fn default_dir(
    download_dir: Option<Seq<Seq<u8>>>,
    home_dir: Option<Seq<Seq<u8>>>,
) -> Option<Seq<Seq<u8>>> {
    match (download_dir, home_dir) {
        (Some(downloads), _) => Some(entry_of(downloads, "clipboardwire"@)),
        (None, Some(home)) => Some(entry_of(entry_of(home, "Downloads"@), "clipboardwire"@)),
        (None, None) => None,
    }
}

/// The components of a path that may be missing.
pub open spec fn maybe_path(path: Option<LocalPath>) -> Option<Seq<Seq<u8>>> {
    match path {
        Some(path) => Some(path@),
        None => None,
    }
}

/// Where files are saved by default, given the platform's download directory
/// and the user's home directory as far as they are known.
pub fn default_save_dir(download_dir: Option<LocalPath>, home_dir: Option<LocalPath>) -> (r: Result<
    LocalPath,
    NoHomeDirectory,
>)
    ensures
        (match r {
            Ok(path) => Some(path@),
            Err(_) => None,
        }) == default_dir(maybe_path(download_dir), maybe_path(home_dir)),
{
    proof {
        reveal_strlit("Downloads");
        reveal_strlit("clipboardwire");
    }
    let downloads = match download_dir {
        Some(path) => path,
        None => match home_dir {
            Some(home) => home.join("Downloads"),
            None => {
                return Err(NoHomeDirectory);
            },
        },
    };
    Ok(downloads.join("clipboardwire"))
}

impl FileReceiver {
    /// Every transfer in progress has a safe name and at least one chunk.
    pub closed spec fn wf(self) -> bool {
        forall|id: u128| #[trigger]
            self.transfers@.contains_key(id) ==> {
                &&& safe_name(self.transfers@[id].name@)
                &&& 0 < self.transfers@[id].received@.len() <= u32::MAX
            }
    }

    /// Receiver saving to the default directory.
    pub fn new(download_dir: Option<LocalPath>, home_dir: Option<LocalPath>) -> (r: Result<
        Self,
        NoHomeDirectory,
    >)
        ensures
            r is Ok <==> download_dir is Some || home_dir is Some,
            r matches Ok(receiver) ==> {
                &&& receiver.wf()
                &&& Some(receiver@.save_dir) == default_dir(
                    maybe_path(download_dir),
                    maybe_path(home_dir),
                )
                &&& receiver@.transfers == Map::<u128, TransferState>::empty()
            },
    {
        match default_save_dir(download_dir, home_dir) {
            Ok(save_dir) => Ok(FileReceiver::with_save_dir(save_dir)),
            Err(e) => Err(e),
        }
    }

    /// Receiver saving to `save_dir`.
    pub fn with_save_dir(save_dir: LocalPath) -> (r: Self)
        ensures
            r.wf(),
            r@ == (ReceiverState { save_dir: save_dir@, transfers: Map::empty() }),
    {
        let r = FileReceiver { save_dir, transfers: HashMap::new() };
        assert(r@.transfers =~= Map::<u128, TransferState>::empty());
        r
    }

    /// The directory that files are saved in.
    pub fn save_dir(&self) -> (r: &LocalPath)
        ensures
            r@ == self@.save_dir,
    {
        &self.save_dir
    }

    fn partial(&self, file_id: Uuid) -> (r: LocalPath)
        ensures
            r@ == partial_path(self@.save_dir, file_id.bits),
    {
        proof {
            lemma_partial_name(file_id.bits);
        }
        let mut name = file_id.to_text();
        name.append(".partial");
        self.save_dir.join(&name)
    }

    /// Takes one inbound chunk and says what is to be done for it. The state
    /// changes only as the steps are reported done.
    pub fn receive_chunk(&self, frame: FileChunkFrame) -> (r: Result<ReceiveStep, ReceiveError>)
        requires
            self.wf(),
        ensures
            (match r {
                Ok(step) => Ok(step@),
                Err(e) => Err(e@),
            }) == inbound(self@, frame),
            r matches Ok(ReceiveStep::Create { chunk, .. }) ==> chunk_in_range(chunk@),
            r matches Ok(ReceiveStep::Write { chunk, .. }) ==> chunk_in_range(chunk@),
    {
        if let Err(reason) = frame.validate() {
            return Err(ReceiveError::Invalid(reason));
        }
        let bytes = match base64_decode(&frame.payload_b64) {
            Ok(bytes) => bytes,
            Err(e) => {
                return Err(ReceiveError::Payload(e));
            },
        };
        let chunk = DecodedChunk {
            file_id: frame.file_id,
            name: sanitize_filename(&frame.name),
            chunk_index: frame.chunk_index,
            total_chunks: frame.total_chunks,
            file_sha256: frame.file_sha256,
            file_size: frame.file_size,
            bytes,
        };
        let path = self.partial(chunk.file_id);
        match self.transfers.get(&chunk.file_id.bits) {
            // The first chunk of this file to arrive: its partial file is
            // created lazily.
            None => Ok(ReceiveStep::Create { path, chunk }),
            Some(transfer) => {
                if chunk.total_chunks as usize != transfer.received.len() || !same_text(
                    &chunk.file_sha256,
                    &transfer.expected_sha256,
                ) || chunk.file_size != transfer.expected_size {
                    return Err(ReceiveError::Inconsistent);
                }
                if transfer.received[chunk.chunk_index as usize] {
                    return Ok(ReceiveStep::Pending);
                }
                let offset = offset_of(chunk.chunk_index);
                Ok(ReceiveStep::Write { path, offset, chunk })
            },
        }
    }

    /// The partial file for `chunk` was created: its transfer begins, and the
    /// chunk is to be written.
    pub fn partial_created(&mut self, chunk: DecodedChunk) -> (r: ReceiveStep)
        requires
            old(self).wf(),
            chunk_in_range(chunk@),
        ensures
            final(self).wf(),
            final(self)@ == (ReceiverState {
                transfers: old(self)@.transfers.insert(chunk@.file_id, begun(chunk@)),
                ..old(self)@
            }),
            r@ == write_step(old(self)@.save_dir, chunk@),
    {
        let path = self.partial(chunk.file_id);
        let transfer = Transfer {
            name: chunk.name.clone(),
            received: vec![false; chunk.total_chunks as usize],
            expected_sha256: chunk.file_sha256.clone(),
            expected_size: chunk.file_size,
        };
        assert(transfer@ =~= begun(chunk@));
        self.transfers.insert(chunk.file_id.bits, transfer);
        assert(self@.transfers =~= old(self)@.transfers.insert(chunk@.file_id, begun(chunk@)));
        let offset = offset_of(chunk.chunk_index);
        ReceiveStep::Write { path, offset, chunk }
    }

    /// Chunk `chunk_index` of the transfer `file_id` was written.
    pub fn chunk_written(&mut self, file_id: Uuid, chunk_index: u32) -> (r: ReceiveStep)
        requires
            old(self).wf(),
            old(self)@.transfers.contains_key(file_id.bits),
            chunk_index < old(self)@.transfers[file_id.bits].received.len(),
        ensures
            final(self).wf(),
            final(self)@ == (ReceiverState {
                transfers: old(self)@.transfers.insert(
                    file_id.bits,
                    with_chunk(old(self)@.transfers[file_id.bits], chunk_index as int),
                ),
                ..old(self)@
            }),
            r@ == step_after_write(old(self)@, file_id.bits, chunk_index as int),
    {
        let path = self.partial(file_id);
        let ghost before = old(self)@.transfers[file_id.bits];
        match self.transfers.remove(&file_id.bits) {
            None => ReceiveStep::Pending,
            Some(taken) => {
                let mut transfer = taken;
                transfer.received.set(chunk_index as usize, true);
                assert(transfer@ =~= with_chunk(before, chunk_index as int));
                let complete = every(&transfer.received);
                self.transfers.insert(file_id.bits, transfer);
                assert(self@.transfers =~= old(self)@.transfers.insert(
                    file_id.bits,
                    with_chunk(before, chunk_index as int),
                ));
                if complete {
                    ReceiveStep::Verify { path }
                } else {
                    ReceiveStep::Pending
                }
            },
        }
    }

    /// The assembled file of the transfer `file_id` has the digest `actual`.
    /// Where that is not the digest that its chunks announced, the transfer is
    /// over and the partial file is to be removed.
    pub fn digest_computed(&mut self, file_id: Uuid, actual: &str) -> (r: ReceiveStep)
        requires
            old(self).wf(),
            old(self)@.transfers.contains_key(file_id.bits),
        ensures
            final(self).wf(),
            r@ == step_after_digest(old(self)@, file_id.bits, actual@),
            r is Place ==> final(self)@ == old(self)@,
            r is Discard ==> final(self)@ == without_transfer(old(self)@, file_id.bits),
            r matches ReceiveStep::Place { name, .. } ==> safe_name(name@) && entry_name(name@),
    {
        let path = self.partial(file_id);
        let name: Option<String> = match self.transfers.get(&file_id.bits) {
            None => None,
            Some(transfer) => {
                if same_text(actual, &transfer.expected_sha256) {
                    Some(transfer.name.clone())
                } else {
                    None
                }
            },
        };
        match name {
            Some(name) => {
                proof {
                    law_safe_name_stays_in_directory(name@);
                }
                ReceiveStep::Place { path, name }
            },
            None => {
                self.transfers.remove(&file_id.bits);
                assert(self@.transfers =~= old(self)@.transfers.remove(file_id.bits));
                ReceiveStep::Discard { path }
            },
        }
    }

    /// The file of the transfer `file_id` was moved into place: the transfer
    /// is over.
    pub fn file_placed(&mut self, file_id: Uuid)
        requires
            old(self).wf(),
        ensures
            final(self).wf(),
            final(self)@ == without_transfer(old(self)@, file_id.bits),
    {
        self.transfers.remove(&file_id.bits);
        assert(self@.transfers =~= old(self)@.transfers.remove(file_id.bits));
    }
}

/// Whether every entry is `true`.
fn every(received: &Vec<bool>) -> (r: bool)
    ensures
        r == all_received(received@),
{
    let n = received.len();
    for i in 0..n
        invariant
            n == received@.len(),
            forall|j: int| 0 <= j < i ==> received@[j],
    {
        if !received[i] {
            return false;
        }
    }
    true
}

/// A file has just as many chunks of four MiB as its bytes need.
pub proof fn law_chunks_are_as_many_as_needed(size: nat)
    ensures
        size <= chunk_count(size) * 4_194_304,
        size > 0 ==> (chunk_count(size) - 1) * 4_194_304 < size,
        size == 0 ==> chunk_count(size) == 0,
        chunk_offset(chunk_count(size) as int) == chunk_count(size) * 4_194_304,
{
}

/// A chunk tells all of its file: every chunk carries the file's id, name, type,
/// digest, size and number of chunks, its own index, and its bytes as base64;
/// who sends it is left to the hub.
pub proof fn law_chunk_tells_of_its_file(
    file: OutgoingFile,
    block: Seq<u8>,
    frame: FileChunkFrame,
)
    requires
        next_frame(file, block, frame),
    ensures
        frame.file_id == file.file_id,
        frame.name@ == file.plan.name@,
        frame.content_type@ == file.plan.content_type@,
        frame.chunk_index == file.next_index,
        frame.total_chunks == file.plan.total_chunks,
        frame.file_sha256@ == file.file_sha256@,
        frame.file_size == file.plan.file_size,
        frame.payload_b64@ == base64_text(block),
        frame.from is None,
{
}

/// Sending a chunk counts it, and changes nothing else of the file.
pub proof fn law_sending_counts_chunks(file: OutgoingFile)
    ensures
        file.next_index < u32::MAX ==> following(file).next_index == file.next_index + 1,
        following(file).file_id == file.file_id,
        following(file).plan == file.plan,
        following(file).file_sha256 == file.file_sha256,
{
}

/// The sender waits for more exactly while the block is not full and the file
/// goes on; what it sends is all that was read since the last chunk; and an end
/// with nothing left to send is the end of the transfer.
pub proof fn law_sender_sends_what_was_read(state: SenderState, bytes: Seq<u8>)
    requires
        state.block.len() < 4_194_304,
        state.block.len() + bytes.len() <= 4_194_304,
    ensures
        has_room(state, bytes.len()),
        ({
            let (after, step) = sender_step(state, bytes);
            let filled = state.block.len() + bytes.len();
            &&& step is Read <==> !state.ended && bytes.len() > 0 && filled < 4_194_304
            &&& step is Send <==> !state.ended && (filled == 4_194_304 || bytes.len() == 0
                && filled > 0)
            &&& step is Send ==> step == SendValues::Send(state.block + bytes)
                && after.block.len() == 0 && after.file == following(state.file)
            &&& !(step is Send) ==> after.file == state.file
            &&& step is Read ==> after.block == state.block + bytes
            &&& after.ended <==> state.ended || bytes.len() == 0
        }),
{
}

/// The sender has room for what a chunk still lacks.
pub proof fn law_room_is_what_the_chunk_lacks(state: SenderState, len: nat)
    ensures
        has_room(state, len) <==> state.block.len() + len <= 4_194_304,
{
}

/// A decoded chunk is the frame's, with its payload decoded and its name made
/// safe; what the hub wrote into `from` plays no part.
pub proof fn law_decoded_chunk_is_the_frames(
    frame: FileChunkFrame,
    from: Option<Uuid>,
    bytes: Seq<u8>,
)
    ensures
        decoded(frame, bytes).file_id == frame.file_id.bits,
        decoded(frame, bytes).name == sanitized(frame.name@),
        decoded(frame, bytes).chunk_index == frame.chunk_index,
        decoded(frame, bytes).total_chunks == frame.total_chunks,
        decoded(frame, bytes).file_sha256 == frame.file_sha256@,
        decoded(frame, bytes).file_size == frame.file_size,
        decoded(frame, bytes).bytes == bytes,
        decoded(FileChunkFrame { from, ..frame }, bytes) == decoded(frame, bytes),
{
}

/// A frame is rejected exactly where it is not valid, its payload is not base64,
/// or it disagrees with the transfer it belongs to on the number of chunks, the
/// digest or the size; and for that reason.
pub proof fn law_chunk_is_rejected_only_for_a_fault(state: ReceiverState, frame: FileChunkFrame)
    ensures
        ({
            let id = frame.file_id.bits;
            let valid = chunk_problem(frame) is None;
            let bytes = base64_bytes(frame.payload_b64@);
            let transfer = state.transfers[id];
            let disagrees = state.transfers.contains_key(id) && (transfer.received.len()
                != frame.total_chunks || transfer.file_sha256 != frame.file_sha256@
                || transfer.file_size != frame.file_size);
            let r = inbound(state, frame);
            &&& !valid <==> r is Err && r->Err_0 is Invalid
            &&& !valid ==> r->Err_0 == Rejection::Invalid(chunk_problem(frame)->0)
            &&& valid && bytes is None <==> r is Err && r->Err_0 is Payload
            &&& valid && bytes is Some && disagrees <==> r is Err && r->Err_0 is Inconsistent
            &&& valid && bytes is Some && !disagrees <==> r is Ok
        }),
{
}

/// A frame that is not rejected begins a transfer where there is none, is
/// ignored where its chunk is there, and else is written at its place in the
/// partial file of its own transfer.
pub proof fn law_chunk_is_written_at_its_place(
    state: ReceiverState,
    frame: FileChunkFrame,
    bytes: Seq<u8>,
)
    requires
        inbound(state, frame) is Ok,
        base64_bytes(frame.payload_b64@) == Some(bytes),
    ensures
        ({
            let id = frame.file_id.bits;
            let known = state.transfers.contains_key(id);
            let there = known && state.transfers[id].received[frame.chunk_index as int];
            let step = inbound(state, frame)->Ok_0;
            &&& !known <==> step is Create
            &&& there <==> step is Pending
            &&& known && !there <==> step is Write
            &&& step is Create ==> step->Create_path == partial_path(state.save_dir, id)
                && step->Create_chunk == decoded(frame, bytes)
            &&& step is Write ==> step->Write_path == partial_path(state.save_dir, id)
                && step->Write_offset == frame.chunk_index * 4_194_304 && step->Write_chunk
                == decoded(frame, bytes)
        }),
{
}

/// What the hub writes into `from` on relay makes no difference to the receiver.
pub proof fn law_relayed_chunk_is_received_alike(
    state: ReceiverState,
    frame: FileChunkFrame,
    from: Option<Uuid>,
)
    ensures
        inbound(state, FileChunkFrame { from, ..frame }) == inbound(state, frame),
{
    crate::protocol::law_relay_keeps_chunk_validity(frame, from);
}

/// A transfer begins with the name, digest and size of its first chunk, and with
/// no chunk there.
pub proof fn law_transfer_begins_empty(chunk: ChunkValues)
    ensures
        begun(chunk).name == chunk.name,
        begun(chunk).file_sha256 == chunk.file_sha256,
        begun(chunk).file_size == chunk.file_size,
        begun(chunk).received.len() == chunk.total_chunks,
        forall|i: int| 0 <= i < chunk.total_chunks ==> !#[trigger] begun(chunk).received[i],
{
}

/// Writing a chunk marks that chunk as there and no other, and changes nothing
/// else of its transfer.
pub proof fn law_writing_marks_one_chunk(transfer: TransferState, index: int)
    requires
        0 <= index < transfer.received.len(),
    ensures
        ({
            let after = with_chunk(transfer, index);
            &&& after.received.len() == transfer.received.len()
            &&& after.received[index]
            &&& forall|i: int|
                0 <= i < transfer.received.len() && i != index ==> #[trigger] after.received[i]
                    == transfer.received[i]
            &&& after.name == transfer.name
            &&& after.file_sha256 == transfer.file_sha256
            &&& after.file_size == transfer.file_size
        }),
{
}

/// A file is verified exactly when its last missing chunk is written.
pub proof fn law_last_chunk_leads_to_verification(
    state: ReceiverState,
    file_id: u128,
    index: int,
)
    requires
        0 <= index < state.transfers[file_id].received.len(),
    ensures
        ({
            let received = state.transfers[file_id].received;
            let last = forall|i: int| 0 <= i < received.len() && i != index ==> received[i];
            let step = step_after_write(state, file_id, index);
            &&& last ==> step == (StepValues::Verify {
                path: partial_path(state.save_dir, file_id),
            })
            &&& !last ==> step == StepValues::Pending
        }),
{
    let received = state.transfers[file_id].received;
    let after = with_chunk(state.transfers[file_id], index).received;
    assert(after =~= received.update(index, true));
    if exists|i: int| 0 <= i < received.len() && i != index && !received[i] {
        let i = choose|i: int| 0 <= i < received.len() && i != index && !received[i];
        assert(!after[i]);
    } else {
        assert forall|i: int| 0 <= i < after.len() implies after[i] by {
            if i != index {
                assert(received[i]);
            }
        }
    }
}

/// A file is placed, under its transfer's name, exactly where it has the digest
/// that was announced; else it is discarded.
pub proof fn law_only_the_announced_digest_is_placed(
    state: ReceiverState,
    file_id: u128,
    actual: Seq<char>,
)
    ensures
        actual == state.transfers[file_id].file_sha256 ==> step_after_digest(
            state,
            file_id,
            actual,
        ) == (StepValues::Place {
            path: partial_path(state.save_dir, file_id),
            name: state.transfers[file_id].name,
        }),
        actual != state.transfers[file_id].file_sha256 ==> step_after_digest(
            state,
            file_id,
            actual,
        ) == (StepValues::Discard { path: partial_path(state.save_dir, file_id) }),
{
}

/// A transfer that is over is gone, and no other.
pub proof fn law_finished_transfer_is_gone(state: ReceiverState, file_id: u128, other: u128)
    requires
        other != file_id,
    ensures
        ({
            let after = without_transfer(state, file_id);
            &&& !after.transfers.contains_key(file_id)
            &&& after.transfers.contains_key(other) == state.transfers.contains_key(other)
            &&& after.transfers[other] == state.transfers[other]
            &&& after.save_dir == state.save_dir
        }),
{
}

/// A partial file stands in the directory that files are saved in, under the
/// transfer's id and `.partial`.
pub proof fn law_partial_file_is_named_by_its_id(save_dir: Seq<Seq<u8>>, file_id: u128)
    ensures
        partial_path(save_dir, file_id) == entry_of(
            save_dir,
            uuid_text(file_id) + seq!['.', 'p', 'a', 'r', 't', 'i', 'a', 'l'],
        ),
{
    reveal_strlit(".partial");
    assert(".partial"@ =~= seq!['.', 'p', 'a', 'r', 't', 'i', 'a', 'l']);
}

/// Files are saved in `clipboardwire` below the download directory, and below
/// `Downloads` in the home directory only where no download directory is known.
pub proof fn law_default_directory(downloads: Seq<Seq<u8>>, home: Option<Seq<Seq<u8>>>)
    ensures
        default_dir(Some(downloads), home) == Some(entry_of(downloads, "clipboardwire"@)),
        default_dir(None, home) is Some <==> home is Some,
        home is Some ==> default_dir(None, home) == default_dir(
            Some(entry_of(home->0, "Downloads"@)),
            None,
        ),
{
}

/// A path that is known is its components.
pub proof fn law_known_path_is_its_components(path: LocalPath)
    ensures
        maybe_path(Some(path)) == Some(path@),
        maybe_path(None) is None,
{
}

/// The values of a decoded chunk are its own.
pub proof fn law_decoded_chunk_is_its_values(chunk: DecodedChunk)
    ensures
        chunk@.file_id == chunk.file_id.bits,
        chunk@.name == chunk.name@,
        chunk@.chunk_index == chunk.chunk_index,
        chunk@.total_chunks == chunk.total_chunks,
        chunk@.file_sha256 == chunk.file_sha256@,
        chunk@.file_size == chunk.file_size,
        chunk@.bytes == chunk.bytes@,
{
}

/// The values of a step are the step's own.
pub proof fn law_receive_step_is_its_values(step: ReceiveStep)
    ensures
        match step {
            ReceiveStep::Create { path, chunk } => step@ == (StepValues::Create {
                path: path@,
                chunk: chunk@,
            }),
            ReceiveStep::Write { path, offset, chunk } => step@ == (StepValues::Write {
                path: path@,
                offset: offset as int,
                chunk: chunk@,
            }),
            ReceiveStep::Pending => step@ == StepValues::Pending,
            ReceiveStep::Verify { path } => step@ == (StepValues::Verify { path: path@ }),
            ReceiveStep::Place { path, name } => step@ == (StepValues::Place {
                path: path@,
                name: name@,
            }),
            ReceiveStep::Discard { path } => step@ == (StepValues::Discard { path: path@ }),
        },
{
}

/// An error tells which of the faults it is, and an invalid frame's the reason.
pub proof fn law_receive_error_is_its_fault(error: ReceiveError)
    ensures
        match error {
            ReceiveError::Invalid(reason) => error@ == Rejection::Invalid(reason@),
            ReceiveError::Payload(_) => error@ == Rejection::Payload,
            ReceiveError::Inconsistent => error@ == Rejection::Inconsistent,
        },
{
}

/// A chunk is written behind all the chunks before it, into the partial file of
/// its transfer.
pub proof fn law_chunk_is_written_behind_those_before(save_dir: Seq<Seq<u8>>, chunk: ChunkValues)
    ensures
        write_step(save_dir, chunk) == (StepValues::Write {
            path: partial_path(save_dir, chunk.file_id),
            offset: chunk.chunk_index * 4_194_304,
            chunk,
        }),
{
}

} // verus!
