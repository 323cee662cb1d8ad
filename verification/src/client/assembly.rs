//! What a file transfer comes to: the laws that tie the two halves of
//! [`file`](crate::client::file) together.
//!
//! A [`Delivery`] is a receiver together with the contents of its partial
//! files. [`deliver`] takes one frame through all of the receiver's steps, each
//! of them carried out on those contents.
use crate::client::file::{
    all_received, begun, chunk_bytes, chunk_count, chunk_offset, consistent, decoded, has_room,
    inbound, next_frame, sender_step, step_after_digest, step_after_write, with_chunk,
    without_transfer, ChunkValues, OutgoingFile, ReceiverState, Rejection, SendValues, SenderState,
    StepValues,
};
use crate::client::names::sanitized;
use crate::codec::{base64_bytes, base64_len, base64_text, law_base64_reads_back};
use crate::digest::{fingerprint, sha256};
use crate::protocol::{chunk_problem, FileChunkFrame, FILE_CHUNK_BYTES, MAX_FRAME_BYTES};
use vstd::prelude::*;

verus! {

/// A new file of `size` bytes.
pub open spec fn blank(size: nat) -> Seq<u8> {
    Seq::new(size, |i: int| 0u8)
}

/// `file` once `bytes` are written at `offset`. What a write behind its end
/// leaves between is zero.
pub open spec fn write_at(file: Seq<u8>, offset: int, bytes: Seq<u8>) -> Seq<u8> {
    Seq::new(
        if file.len() < offset + bytes.len() {
            (offset + bytes.len()) as nat
        } else {
            file.len()
        },
        |i: int|
            if offset <= i < offset + bytes.len() {
                bytes[i - offset]
            } else if i < file.len() {
                file[i]
            } else {
                0u8
            },
    )
}

/// A receiver and the contents of its partial files.
#[verifier::ext_equal]
pub struct Delivery {
    pub receiver: ReceiverState,
    pub partials: Map<u128, Seq<u8>>,
}

/// What a frame comes to.
#[verifier::ext_equal]
pub enum Outcome {
    /// The frame is rejected.
    Rejected(Rejection),
    /// More chunks are pending.
    Pending,
    /// The file is saved.
    Saved { name: Seq<char>, content: Seq<u8> },
    /// The file failed verification.
    Failed,
}

/// The delivery once the transfer of `chunk` has begun.
pub open spec fn with_partial(d: Delivery, chunk: ChunkValues) -> Delivery {
    Delivery {
        receiver: ReceiverState {
            transfers: d.receiver.transfers.insert(chunk.file_id, begun(chunk)),
            ..d.receiver
        },
        partials: d.partials.insert(chunk.file_id, blank(chunk.file_size as nat)),
    }
}

/// The delivery once `chunk` is written.
pub open spec fn with_written(d: Delivery, chunk: ChunkValues) -> Delivery {
    Delivery {
        receiver: ReceiverState {
            transfers: d.receiver.transfers.insert(
                chunk.file_id,
                with_chunk(d.receiver.transfers[chunk.file_id], chunk.chunk_index as int),
            ),
            ..d.receiver
        },
        partials: d.partials.insert(
            chunk.file_id,
            write_at(
                d.partials[chunk.file_id],
                chunk_offset(chunk.chunk_index as int),
                chunk.bytes,
            ),
        ),
    }
}

/// The delivery once the transfer `file_id` is over: its partial file was
/// moved or removed.
pub open spec fn without_partial(d: Delivery, file_id: u128) -> Delivery {
    Delivery {
        receiver: without_transfer(d.receiver, file_id),
        partials: d.partials.remove(file_id),
    }
}

/// Carries out the step that writes `chunk`, and those that follow from it.
pub open spec fn write_chunk(d: Delivery, chunk: ChunkValues) -> (Delivery, Outcome) {
    let id = chunk.file_id;
    let after = with_written(d, chunk);
    match step_after_write(d.receiver, id, chunk.chunk_index as int) {
        StepValues::Verify { .. } => {
            let content = after.partials[id];
            match step_after_digest(after.receiver, id, fingerprint(sha256(content))) {
                StepValues::Place { name, .. } => (
                    without_partial(after, id),
                    Outcome::Saved { name, content },
                ),
                _ => (without_partial(after, id), Outcome::Failed),
            }
        },
        _ => (after, Outcome::Pending),
    }
}

/// Takes one frame through all of its steps.
pub open spec fn deliver(d: Delivery, frame: FileChunkFrame) -> (Delivery, Outcome) {
    match inbound(d.receiver, frame) {
        Err(e) => (d, Outcome::Rejected(e)),
        Ok(StepValues::Create { chunk, .. }) => write_chunk(with_partial(d, chunk), chunk),
        Ok(StepValues::Write { chunk, .. }) => write_chunk(d, chunk),
        Ok(_) => (d, Outcome::Pending),
    }
}

/// Takes frames one after the other.
pub open spec fn deliver_all(d: Delivery, frames: Seq<FileChunkFrame>) -> Delivery
    decreases frames.len(),
{
    if frames.len() == 0 {
        d
    } else {
        deliver(deliver_all(d, frames.drop_last()), frames.last()).0
    }
}

/// Whether `frame` is a valid chunk of the file `content`, sent under `name` as
/// the transfer `file_id`.
pub open spec fn chunk_of(
    frame: FileChunkFrame,
    file_id: u128,
    name: Seq<char>,
    content: Seq<u8>,
) -> bool {
    &&& chunk_problem(frame) is None
    &&& frame.file_id.bits == file_id
    &&& frame.name@ == name
    &&& frame.total_chunks == chunk_count(content.len())
    &&& frame.file_sha256@ == fingerprint(sha256(content))
    &&& frame.file_size == content.len()
    &&& base64_bytes(frame.payload_b64@) == Some(chunk_bytes(content, frame.chunk_index as int))
}

/// Whether chunk `index` is among `frames`.
pub open spec fn among(frames: Seq<FileChunkFrame>, index: int) -> bool {
    exists|k: int| 0 <= k < frames.len() && (#[trigger] frames[k]).chunk_index == index
}

/// Whether every chunk of a file of `size` bytes is among `frames`.
pub open spec fn complete(frames: Seq<FileChunkFrame>, size: nat) -> bool {
    forall|i: int| 0 <= i < chunk_count(size) ==> among(frames, i)
}

/// A file that is planned, read in blocks of [`FILE_CHUNK_BYTES`] bytes and
/// sent with the digest of its bytes is sent in valid chunks of it.
pub proof fn law_sender_sends_chunks_of_its_file(
    file: OutgoingFile,
    content: Seq<u8>,
    frame: FileChunkFrame,
)
    requires
        file.plan.name@.len() > 0,
        !file.plan.name@.contains('\0'),
        file.plan.total_chunks == chunk_count(content.len()),
        file.plan.file_size == content.len(),
        file.file_sha256@ == fingerprint(sha256(content)),
        file.file_sha256@.len() == 95,
        file.next_index < file.plan.total_chunks,
        next_frame(file, chunk_bytes(content, file.next_index as int), frame),
    ensures
        chunk_of(frame, file.file_id.bits, file.plan.name@, content),
{
    let bytes = chunk_bytes(content, file.next_index as int);
    lemma_chunk_bytes(content, file.next_index as int);
    law_base64_reads_back(bytes);
    assert(base64_text(bytes).len() == base64_len(bytes.len()));
}

/// The chunks of a file are its bytes: none is empty, none is longer than
/// [`FILE_CHUNK_BYTES`], and every byte lies in exactly the chunk that its
/// position says.
pub proof fn law_chunks_cover_file(content: Seq<u8>, position: int)
    requires
        0 <= position < content.len(),
    ensures
        ({
            let index = position / FILE_CHUNK_BYTES as int;
            let bytes = chunk_bytes(content, index);
            &&& 0 <= index < chunk_count(content.len())
            &&& 0 < bytes.len() <= FILE_CHUNK_BYTES
            &&& 0 <= position - chunk_offset(index) < bytes.len()
            &&& bytes[position - chunk_offset(index)] == content[position]
        }),
{
    lemma_offset(position / FILE_CHUNK_BYTES as int);
    lemma_chunk_bytes(content, position / FILE_CHUNK_BYTES as int);
}

/// A chunk's payload leaves ample room in a frame for everything else that the
/// frame carries.
pub proof fn law_chunk_payload_fits_frame(block: Seq<u8>)
    requires
        block.len() <= FILE_CHUNK_BYTES,
    ensures
        base64_len(block.len()) * 9 < MAX_FRAME_BYTES,
{
}

proof fn lemma_offset(index: int)
    ensures
        chunk_offset(index) == index * 4_194_304,
        FILE_CHUNK_BYTES == 4_194_304,
{
    assert(index * FILE_CHUNK_BYTES == index * 4_194_304) by (nonlinear_arith)
        requires
            FILE_CHUNK_BYTES == 4_194_304,
    ;
}

proof fn lemma_chunk_bytes(content: Seq<u8>, index: int)
    requires
        0 <= index < chunk_count(content.len()),
    ensures
        0 < chunk_bytes(content, index).len() <= FILE_CHUNK_BYTES,
        chunk_offset(index) + chunk_bytes(content, index).len() == (if chunk_offset(index + 1)
            < content.len() {
            chunk_offset(index + 1)
        } else {
            content.len() as int
        }),
        forall|i: int|
            0 <= i < chunk_bytes(content, index).len() ==> #[trigger] chunk_bytes(content, index)[i]
                == content[chunk_offset(index) + i],
{
    lemma_offset(index);
    lemma_offset(index + 1);
}

/// How far the transfer of `content` is once `frames` were taken.
spec fn progress(
    d: Delivery,
    file_id: u128,
    name: Seq<char>,
    content: Seq<u8>,
    frames: Seq<FileChunkFrame>,
) -> bool {
    let transfer = d.receiver.transfers[file_id];
    let partial = d.partials[file_id];
    &&& d.receiver.transfers.contains_key(file_id)
    &&& d.partials.contains_key(file_id)
    &&& transfer.name == sanitized(name)
    &&& transfer.file_sha256 == fingerprint(sha256(content))
    &&& transfer.file_size == content.len()
    &&& transfer.received.len() == chunk_count(content.len())
    &&& forall|i: int|
        0 <= i < chunk_count(content.len()) ==> (#[trigger] transfer.received[i] <==> among(
            frames,
            i,
        ))
    &&& partial.len() == content.len()
    &&& forall|p: int|
        0 <= p < content.len() && among(frames, p / FILE_CHUNK_BYTES as int)
            ==> #[trigger] partial[p] == content[p]
}

proof fn lemma_among_push(frames: Seq<FileChunkFrame>, frame: FileChunkFrame, index: int)
    ensures
        among(frames.push(frame), index) <==> among(frames, index) || frame.chunk_index == index,
{
    let more = frames.push(frame);
    if among(frames, index) {
        let k = choose|k: int| 0 <= k < frames.len() && (#[trigger] frames[k]).chunk_index == index;
        assert(more[k].chunk_index == index);
    }
    if frame.chunk_index == index {
        assert(more[frames.len() as int].chunk_index == index);
    }
    if among(more, index) {
        let k = choose|k: int| 0 <= k < more.len() && (#[trigger] more[k]).chunk_index == index;
        if k < frames.len() {
            assert(frames[k].chunk_index == index);
        }
    }
}

/// A transfer in progress takes a chunk that was not there.
proof fn lemma_write(
    d: Delivery,
    file_id: u128,
    name: Seq<char>,
    content: Seq<u8>,
    frames: Seq<FileChunkFrame>,
    frame: FileChunkFrame,
)
    requires
        chunk_of(frame, file_id, name, content),
        progress(d, file_id, name, content, frames),
    ensures
        progress(
            with_written(d, decoded(frame, chunk_bytes(content, frame.chunk_index as int))),
            file_id,
            name,
            content,
            frames.push(frame),
        ),
{
    let index = frame.chunk_index as int;
    lemma_offset(index);
    lemma_offset(index + 1);
    let chunk = decoded(frame, chunk_bytes(content, index));
    let after = with_written(d, chunk);
    let more = frames.push(frame);
    lemma_chunk_bytes(content, index);
    let before = d.partials[file_id];
    let partial = after.partials[file_id];
    assert(partial == write_at(before, chunk_offset(index), chunk.bytes));
    assert(partial.len() == content.len());
    assert forall|i: int| 0 <= i < chunk_count(content.len()) implies (
    #[trigger] after.receiver.transfers[file_id].received[i] <==> among(more, i)) by {
        lemma_among_push(frames, frame, i);
        assert(d.receiver.transfers[file_id].received[i] <==> among(frames, i));
    }
    assert forall|p: int|
        0 <= p < content.len() && among(more, p / FILE_CHUNK_BYTES as int) implies #[trigger] partial[p]
        == content[p] by {
        lemma_among_push(frames, frame, p / FILE_CHUNK_BYTES as int);
        if chunk_offset(index) <= p < chunk_offset(index + 1) {
            assert(partial[p] == chunk.bytes[p - chunk_offset(index)]);
        } else {
            assert(p / FILE_CHUNK_BYTES as int != index);
            assert(partial[p] == before[p]);
        }
    }
}

proof fn lemma_progress_complete(
    d: Delivery,
    file_id: u128,
    name: Seq<char>,
    content: Seq<u8>,
    frames: Seq<FileChunkFrame>,
)
    requires
        progress(d, file_id, name, content, frames),
    ensures
        all_received(d.receiver.transfers[file_id].received) <==> complete(frames, content.len()),
        complete(frames, content.len()) ==> d.partials[file_id] == content,
{
    let received = d.receiver.transfers[file_id].received;
    if all_received(received) {
        assert forall|i: int| 0 <= i < chunk_count(content.len()) implies among(frames, i) by {
            assert(received[i]);
        }
    }
    if complete(frames, content.len()) {
        assert(all_received(received));
        assert forall|p: int| 0 <= p < content.len() implies d.partials[file_id][p] == content[p] by {
            law_chunks_cover_file(content, p);
        }
        assert(d.partials[file_id] == content);
    }
}

proof fn lemma_deliver_next(
    d: Delivery,
    file_id: u128,
    name: Seq<char>,
    content: Seq<u8>,
    frames: Seq<FileChunkFrame>,
    frame: FileChunkFrame,
)
    requires
        chunk_of(frame, file_id, name, content),
        frames.len() == 0 ==> !d.receiver.transfers.contains_key(file_id),
        frames.len() > 0 ==> progress(d, file_id, name, content, frames),
        !complete(frames, content.len()),
    ensures
        ({
            let more = frames.push(frame);
            let (after, outcome) = deliver(d, frame);
            if complete(more, content.len()) {
                &&& outcome == Outcome::Saved { name: sanitized(name), content }
                &&& after.receiver.transfers == d.receiver.transfers.remove(file_id)
            } else {
                &&& outcome == Outcome::Pending
                &&& progress(after, file_id, name, content, more)
            }
        }),
{
    let index = frame.chunk_index as int;
    let chunk = decoded(frame, chunk_bytes(content, index));
    let more = frames.push(frame);
    let start = if frames.len() == 0 {
        with_partial(d, chunk)
    } else {
        d
    };
    if frames.len() == 0 {
        assert(progress(start, file_id, name, content, frames));
    }
    if start.receiver.transfers[file_id].received[index] {
        assert(among(frames, index));
        assert forall|i: int| among(more, i) == among(frames, i) by {
            lemma_among_push(frames, frame, i);
        }
        assert(deliver(d, frame) == (d, Outcome::Pending));
        lemma_progress_complete(d, file_id, name, content, frames);
        if complete(more, content.len()) {
            assert forall|i: int| 0 <= i < chunk_count(content.len()) implies among(frames, i) by {
                assert(among(more, i));
            }
        }
    } else {
        lemma_write(start, file_id, name, content, frames, frame);
        let written = with_written(start, chunk);
        lemma_progress_complete(written, file_id, name, content, more);
        assert(deliver(d, frame) == write_chunk(start, chunk));
        assert(written.receiver.transfers.remove(file_id) =~= d.receiver.transfers.remove(file_id));
    }
}

proof fn lemma_deliver_all(
    d: Delivery,
    file_id: u128,
    name: Seq<char>,
    content: Seq<u8>,
    frames: Seq<FileChunkFrame>,
)
    requires
        frames.len() > 0,
        forall|k: int|
            0 <= k < frames.len() ==> chunk_of(#[trigger] frames[k], file_id, name, content),
        !d.receiver.transfers.contains_key(file_id),
        !complete(frames, content.len()),
    ensures
        progress(deliver_all(d, frames), file_id, name, content, frames),
    decreases frames.len(),
{
    let front = frames.drop_last();
    assert(front.push(frames.last()) == frames);
    assert(!complete(front, content.len())) by {
        if complete(front, content.len()) {
            assert forall|i: int| 0 <= i < chunk_count(content.len()) implies among(frames, i) by {
                assert(among(front, i));
                lemma_among_push(front, frames.last(), i);
            }
        }
    }
    if front.len() > 0 {
        assert forall|k: int| 0 <= k < front.len() implies chunk_of(
            #[trigger] front[k],
            file_id,
            name,
            content,
        ) by {
            assert(front[k] == frames[k]);
        }
        lemma_deliver_all(d, file_id, name, content, front);
    }
    lemma_deliver_next(deliver_all(d, front), file_id, name, content, front, frames.last());
}

/// Chunks of a file may arrive in any order, and more than once: the frame that
/// completes them saves the file as it was sent, under a safe form of its name,
/// and every frame before that is taken without a file being saved.
pub proof fn law_file_arrives_as_sent(
    d: Delivery,
    file_id: u128,
    name: Seq<char>,
    content: Seq<u8>,
    frames: Seq<FileChunkFrame>,
    frame: FileChunkFrame,
)
    requires
        !d.receiver.transfers.contains_key(file_id),
        forall|k: int|
            0 <= k < frames.len() ==> chunk_of(#[trigger] frames[k], file_id, name, content),
        chunk_of(frame, file_id, name, content),
        !complete(frames, content.len()),
    ensures
        deliver(deliver_all(d, frames), frame).1 == (if complete(
            frames.push(frame),
            content.len(),
        ) {
            Outcome::Saved { name: sanitized(name), content }
        } else {
            Outcome::Pending
        }),
{
    if frames.len() > 0 {
        lemma_deliver_all(d, file_id, name, content, frames);
    }
    lemma_deliver_next(deliver_all(d, frames), file_id, name, content, frames, frame);
}

/// Whether `frames` are the chunks of `content` that `file` gives, from the first
/// to the last.
pub open spec fn sent_in_full(
    file: OutgoingFile,
    content: Seq<u8>,
    frames: Seq<FileChunkFrame>,
) -> bool {
    &&& frames.len() == chunk_count(content.len())
    &&& forall|i: int|
        0 <= i < frames.len() ==> next_frame(
            OutgoingFile { next_index: i as u32, ..file },
            chunk_bytes(content, i),
            #[trigger] frames[i],
        )
}

/// The sender before anything was read.
pub open spec fn sender_start(file: OutgoingFile) -> SenderState {
    SenderState { file, block: Seq::empty(), ended: false }
}

/// The sender after reads one after the other, and the chunks that it sent: the
/// file as it stood before each, and the bytes that the chunk carries.
pub open spec fn after_reads(file: OutgoingFile, reads: Seq<Seq<u8>>) -> (
    SenderState,
    Seq<(OutgoingFile, Seq<u8>)>,
)
    decreases reads.len(),
{
    if reads.len() == 0 {
        (sender_start(file), Seq::empty())
    } else {
        let (state, sent) = after_reads(file, reads.drop_last());
        let (next, step) = sender_step(state, reads.last());
        match step {
            SendValues::Send(block) => (next, sent.push((state.file, block))),
            _ => (next, sent),
        }
    }
}

/// What reads one after the other gave.
pub open spec fn joined(reads: Seq<Seq<u8>>) -> Seq<u8>
    decreases reads.len(),
{
    if reads.len() == 0 {
        Seq::empty()
    } else {
        joined(reads.drop_last()) + reads.last()
    }
}

/// Whether each read gave something, and no more than the sender had room for.
pub open spec fn reads_fit(file: OutgoingFile, reads: Seq<Seq<u8>>) -> bool
    decreases reads.len(),
{
    reads.len() > 0 ==> {
        &&& reads_fit(file, reads.drop_last())
        &&& reads.last().len() > 0
        &&& has_room(after_reads(file, reads.drop_last()).0, reads.last().len())
    }
}

proof fn lemma_reads(file: OutgoingFile, reads: Seq<Seq<u8>>)
    requires
        file.next_index == 0,
        reads_fit(file, reads),
        chunk_count(joined(reads).len()) <= u32::MAX,
    ensures
        ({
            let (state, sent) = after_reads(file, reads);
            let content = joined(reads);
            &&& !state.ended
            &&& state.file == OutgoingFile { next_index: sent.len() as u32, ..file }
            &&& sent.len() == content.len() as int / 4_194_304
            &&& state.block == content.skip(sent.len() as int * 4_194_304)
            &&& forall|i: int|
                0 <= i < sent.len() ==> #[trigger] sent[i] == (
                    OutgoingFile { next_index: i as u32, ..file },
                    content.subrange(i * 4_194_304, (i + 1) * 4_194_304),
                )
        }),
    decreases reads.len(),
{
    if reads.len() > 0 {
        let front = reads.drop_last();
        let bytes = reads.last();
        let before = joined(front);
        let content = joined(reads);
        lemma_reads(file, front);
        let (state, sent) = after_reads(file, front);
        let (next, now_sent) = after_reads(file, reads);
        let n = sent.len() as int;
        assert(content == before + bytes);
        assert(state.block + bytes =~= content.skip(n * 4_194_304));
        assert forall|i: int| 0 <= i < n implies before.subrange(
            i * 4_194_304,
            (i + 1) * 4_194_304,
        ) == #[trigger] content.subrange(i * 4_194_304, (i + 1) * 4_194_304) by {
            assert(before.subrange(i * 4_194_304, (i + 1) * 4_194_304) =~= content.subrange(
                i * 4_194_304,
                (i + 1) * 4_194_304,
            ));
        }
        let block = state.block + bytes;
        if block.len() < FILE_CHUNK_BYTES {
            assert(now_sent == sent);
            assert(next.block == content.skip(n * 4_194_304));
        } else {
            assert(now_sent == sent.push((state.file, block)));
            assert(content.len() == (n + 1) * 4_194_304);
            assert(block =~= content.subrange(n * 4_194_304, (n + 1) * 4_194_304));
            assert(next.block =~= content.skip((n + 1) * 4_194_304));
        }
    } else {
        assert(joined(reads).skip(0) =~= Seq::<u8>::empty());
    }
}

/// However many bytes each single read delivers, once the end of the file is
/// read the sender has sent the chunks of what was read, from the first to the
/// last, and sends nothing more. Every chunk but the last carries exactly
/// [`FILE_CHUNK_BYTES`] bytes, and the last at least one.
pub proof fn law_sender_fills_chunks(file: OutgoingFile, reads: Seq<Seq<u8>>, more: Seq<u8>)
    requires
        file.next_index == 0,
        reads_fit(file, reads),
        chunk_count(joined(reads).len()) <= u32::MAX,
    ensures
        ({
            let (state, sent) = after_reads(file, reads.push(Seq::empty()));
            let content = joined(reads);
            &&& sent.len() == chunk_count(content.len())
            &&& forall|i: int|
                0 <= i < sent.len() ==> {
                    &&& #[trigger] sent[i] == (
                        OutgoingFile { next_index: i as u32, ..file },
                        chunk_bytes(content, i),
                    )
                    &&& i < sent.len() - 1 ==> sent[i].1.len() == FILE_CHUNK_BYTES
                    &&& 0 < sent[i].1.len() <= FILE_CHUNK_BYTES
                }
            &&& sender_step(state, more) == (state, SendValues::Done)
        }),
{
    let all = reads.push(Seq::empty());
    assert(all.drop_last() =~= reads);
    lemma_reads(file, reads);
    let content = joined(reads);
    let (state, full) = after_reads(file, reads);
    let (last, sent) = after_reads(file, all);
    let n = full.len() as int;
    assert(state.block + Seq::<u8>::empty() =~= state.block);
    if state.block.len() > 0 {
        assert(sent == full.push((state.file, state.block)));
    } else {
        assert(sent == full);
    }
    assert forall|i: int| 0 <= i < sent.len() implies {
        &&& #[trigger] sent[i] == (
            OutgoingFile { next_index: i as u32, ..file },
            chunk_bytes(content, i),
        )
        &&& i < sent.len() - 1 ==> sent[i].1.len() == FILE_CHUNK_BYTES
        &&& 0 < sent[i].1.len() <= FILE_CHUNK_BYTES
    } by {
        lemma_offset(i);
        lemma_offset(i + 1);
        if i < n {
            assert(sent[i] == full[i]);
            assert(chunk_bytes(content, i) =~= content.subrange(
                i * 4_194_304,
                (i + 1) * 4_194_304,
            ));
        } else {
            assert(chunk_bytes(content, i) =~= state.block);
        }
    }
}

/// Indices do not run out: where a file has no more chunks than a `u32` can
/// count, there is one for every chunk of it that falls due.
pub proof fn law_every_due_chunk_has_an_index(
    file: OutgoingFile,
    reads: Seq<Seq<u8>>,
    bytes: Seq<u8>,
)
    requires
        file.next_index == 0,
        reads_fit(file, reads),
        has_room(after_reads(file, reads).0, bytes.len()),
        chunk_count((joined(reads) + bytes).len()) <= u32::MAX,
    ensures
        sender_step(after_reads(file, reads).0, bytes).1 is Send ==> after_reads(
            file,
            reads,
        ).0.file.next_index < u32::MAX,
{
    lemma_reads(file, reads);
}

/// The frames that the sender makes of what it reads are the file sent in full.
pub proof fn law_reader_sends_file_in_full(
    file: OutgoingFile,
    reads: Seq<Seq<u8>>,
    frames: Seq<FileChunkFrame>,
)
    requires
        file.next_index == 0,
        reads_fit(file, reads),
        chunk_count(joined(reads).len()) <= u32::MAX,
        ({
            let sent = after_reads(file, reads.push(Seq::empty())).1;
            &&& frames.len() == sent.len()
            &&& forall|i: int|
                0 <= i < frames.len() ==> next_frame(sent[i].0, sent[i].1, #[trigger] frames[i])
        }),
    ensures
        sent_in_full(file, joined(reads), frames),
{
    law_sender_fills_chunks(file, reads, Seq::empty());
    let sent = after_reads(file, reads.push(Seq::empty())).1;
    assert forall|i: int| 0 <= i < frames.len() implies next_frame(
        OutgoingFile { next_index: i as u32, ..file },
        chunk_bytes(joined(reads), i),
        #[trigger] frames[i],
    ) by {
        assert(next_frame(sent[i].0, sent[i].1, frames[i]));
    }
}

/// A file that is sent in full to a receiver that has not heard of it is saved
/// there byte for byte, with the last chunk and not before.
pub proof fn law_sent_file_is_saved(
    d: Delivery,
    file: OutgoingFile,
    content: Seq<u8>,
    frames: Seq<FileChunkFrame>,
)
    requires
        !d.receiver.transfers.contains_key(file.file_id.bits),
        content.len() > 0,
        file.plan.name@.len() > 0,
        !file.plan.name@.contains('\0'),
        file.plan.total_chunks == chunk_count(content.len()),
        file.plan.file_size == content.len(),
        file.file_sha256@ == fingerprint(sha256(content)),
        file.file_sha256@.len() == 95,
        sent_in_full(file, content, frames),
    ensures
        forall|n: int|
            0 <= n < frames.len() ==> (#[trigger] deliver(
                deliver_all(d, frames.take(n)),
                frames[n],
            )).1 == (if n == frames.len() - 1 {
                Outcome::Saved { name: sanitized(file.plan.name@), content }
            } else {
                Outcome::Pending
            }),
{
    let id = file.file_id.bits;
    let name = file.plan.name@;
    assert forall|i: int| 0 <= i < frames.len() implies chunk_of(
        #[trigger] frames[i],
        id,
        name,
        content,
    ) && frames[i].chunk_index == i by {
        law_sender_sends_chunks_of_its_file(
            OutgoingFile { next_index: i as u32, ..file },
            content,
            frames[i],
        );
    }
    assert forall|n: int| 0 <= n < frames.len() implies (#[trigger] deliver(
        deliver_all(d, frames.take(n)),
        frames[n],
    )).1 == (if n == frames.len() - 1 {
        Outcome::Saved { name: sanitized(name), content }
    } else {
        Outcome::Pending
    }) by {
        let front = frames.take(n);
        let more = front.push(frames[n]);
        assert(!among(front, n)) by {
            assert(forall|k: int| 0 <= k < n ==> front[k] == frames[k]);
        }
        if n == frames.len() - 1 {
            assert forall|i: int| 0 <= i < chunk_count(content.len()) implies among(more, i) by {
                assert(more[i].chunk_index == i);
            }
        } else {
            assert(!among(more, n + 1)) by {
                assert(forall|k: int| 0 <= k < n ==> more[k] == frames[k]);
            }
        }
        law_file_arrives_as_sent(d, id, name, content, front, frames[n]);
    }
}

/// A file is saved only where its bytes have the digest that its chunks
/// announced.
pub proof fn law_saved_file_has_announced_digest(d: Delivery, frame: FileChunkFrame)
    ensures
        deliver(d, frame).1 matches Outcome::Saved { content, .. } ==> fingerprint(sha256(content))
            == frame.file_sha256@,
{
}

/// Once a file is saved or has failed verification, neither its transfer nor
/// its partial file is left.
pub proof fn law_finished_transfer_leaves_nothing(d: Delivery, frame: FileChunkFrame)
    requires
        deliver(d, frame).1 is Saved || deliver(d, frame).1 is Failed,
    ensures
        !deliver(d, frame).0.receiver.transfers.contains_key(frame.file_id.bits),
        !deliver(d, frame).0.partials.contains_key(frame.file_id.bits),
{
}

/// A rejected frame changes nothing.
pub proof fn law_rejected_frame_changes_nothing(d: Delivery, frame: FileChunkFrame)
    requires
        deliver(d, frame).1 is Rejected,
    ensures
        deliver(d, frame).0 == d,
{
}

/// A chunk that is taken while others are pending is ignored when it comes
/// again.
pub proof fn law_duplicate_chunk_is_ignored(d: Delivery, frame: FileChunkFrame)
    requires
        deliver(d, frame).1 is Pending,
    ensures
        deliver(deliver(d, frame).0, frame) == (deliver(d, frame).0, Outcome::Pending),
{
    let after = deliver(d, frame).0;
    let bytes = base64_bytes(frame.payload_b64@)->0;
    let chunk = decoded(frame, bytes);
    if !d.receiver.transfers.contains_key(chunk.file_id) {
        let start = with_partial(d, chunk);
        assert(after == with_written(start, chunk));
        assert(after.receiver.transfers[chunk.file_id].received[chunk.chunk_index as int]);
    } else if !d.receiver.transfers[chunk.file_id].received[chunk.chunk_index as int] {
        assert(after == with_written(d, chunk));
        assert(after.receiver.transfers[chunk.file_id].received[chunk.chunk_index as int]);
    }
}

/// A frame leaves every other transfer as it was, so that the chunks of several
/// files can arrive interleaved.
pub proof fn law_transfers_do_not_interfere(d: Delivery, frame: FileChunkFrame, other: u128)
    requires
        other != frame.file_id.bits,
    ensures
        ({
            let after = deliver(d, frame).0;
            &&& after.receiver.transfers.contains_key(other)
                == d.receiver.transfers.contains_key(other)
            &&& after.receiver.transfers[other] == d.receiver.transfers[other]
            &&& after.partials.contains_key(other) == d.partials.contains_key(other)
            &&& after.partials[other] == d.partials[other]
        }),
{
}

/// The frames of the transfer `file_id`, in order.
pub open spec fn of_file(frames: Seq<FileChunkFrame>, file_id: u128) -> Seq<FileChunkFrame>
    decreases frames.len(),
{
    if frames.len() == 0 {
        frames
    } else if frames.last().file_id.bits == file_id {
        of_file(frames.drop_last(), file_id).push(frames.last())
    } else {
        of_file(frames.drop_last(), file_id)
    }
}

/// Whether two deliveries agree on the transfer `file_id`.
spec fn agree(a: Delivery, b: Delivery, file_id: u128) -> bool {
    &&& a.receiver.transfers.contains_key(file_id) == b.receiver.transfers.contains_key(file_id)
    &&& a.receiver.transfers.contains_key(file_id) ==> {
        &&& a.receiver.transfers[file_id] == b.receiver.transfers[file_id]
        &&& a.partials.contains_key(file_id)
        &&& b.partials.contains_key(file_id)
        &&& a.partials[file_id] == b.partials[file_id]
    }
}

proof fn lemma_deliver_agrees(a: Delivery, b: Delivery, frame: FileChunkFrame)
    requires
        agree(a, b, frame.file_id.bits),
    ensures
        agree(deliver(a, frame).0, deliver(b, frame).0, frame.file_id.bits),
        deliver(a, frame).1 == deliver(b, frame).1,
{
}

proof fn lemma_mixed(d: Delivery, file_id: u128, frames: Seq<FileChunkFrame>)
    requires
        !d.receiver.transfers.contains_key(file_id),
    ensures
        agree(deliver_all(d, frames), deliver_all(d, of_file(frames, file_id)), file_id),
    decreases frames.len(),
{
    if frames.len() > 0 {
        let front = frames.drop_last();
        let mine = of_file(front, file_id);
        lemma_mixed(d, file_id, front);
        if frames.last().file_id.bits == file_id {
            lemma_deliver_agrees(deliver_all(d, front), deliver_all(d, mine), frames.last());
            assert(of_file(frames, file_id).drop_last() =~= mine);
        } else {
            law_transfers_do_not_interfere(deliver_all(d, front), frames.last(), file_id);
        }
    }
}

/// The frames of several files may arrive mixed: whatever other transfers do
/// meanwhile, a file is saved as it was sent with the frame that completes its
/// own chunks, and not before.
pub proof fn law_mixed_files_arrive_as_sent(
    d: Delivery,
    file_id: u128,
    name: Seq<char>,
    content: Seq<u8>,
    frames: Seq<FileChunkFrame>,
    frame: FileChunkFrame,
)
    requires
        !d.receiver.transfers.contains_key(file_id),
        forall|k: int|
            0 <= k < of_file(frames, file_id).len() ==> chunk_of(
                #[trigger] of_file(frames, file_id)[k],
                file_id,
                name,
                content,
            ),
        chunk_of(frame, file_id, name, content),
        !complete(of_file(frames, file_id), content.len()),
    ensures
        deliver(deliver_all(d, frames), frame).1 == (if complete(
            of_file(frames, file_id).push(frame),
            content.len(),
        ) {
            Outcome::Saved { name: sanitized(name), content }
        } else {
            Outcome::Pending
        }),
{
    let mine = of_file(frames, file_id);
    lemma_mixed(d, file_id, frames);
    lemma_deliver_agrees(deliver_all(d, frames), deliver_all(d, mine), frame);
    law_file_arrives_as_sent(d, file_id, name, content, mine, frame);
}

/// A chunk that disagrees with its transfer on the number of chunks, the digest
/// or the size is rejected.
pub proof fn law_inconsistent_chunk_is_rejected(d: Delivery, frame: FileChunkFrame, bytes: Seq<u8>)
    requires
        chunk_problem(frame) is None,
        base64_bytes(frame.payload_b64@) == Some(bytes),
        d.receiver.transfers.contains_key(frame.file_id.bits),
        !consistent(d.receiver.transfers[frame.file_id.bits], decoded(frame, bytes)),
    ensures
        deliver(d, frame) == (d, Outcome::Rejected(Rejection::Inconsistent)),
{
}

/// The chunks of a file, from the first to before `n`, put together.
pub open spec fn chunks_joined(content: Seq<u8>, n: int) -> Seq<u8>
    decreases n,
{
    if n <= 0 {
        Seq::empty()
    } else {
        chunks_joined(content, n - 1) + chunk_bytes(content, n - 1)
    }
}

/// A file is its chunks put together in order.
pub proof fn law_chunks_join_to_the_file(content: Seq<u8>)
    ensures
        chunks_joined(content, chunk_count(content.len()) as int) == content,
{
    let n = chunk_count(content.len()) as int;
    if content.len() > 0 {
        lemma_chunks_joined(content, n);
        lemma_offset(n);
    }
    assert(chunks_joined(content, n) =~= content);
}

proof fn lemma_chunks_joined(content: Seq<u8>, n: int)
    requires
        0 <= n <= chunk_count(content.len()),
    ensures
        chunks_joined(content, n) == content.take(
            if chunk_offset(n) < content.len() {
                chunk_offset(n)
            } else {
                content.len() as int
            },
        ),
    decreases n,
{
    lemma_offset(n);
    if n > 0 {
        lemma_chunks_joined(content, n - 1);
        lemma_chunk_bytes(content, n - 1);
        lemma_offset(n - 1);
        assert(chunks_joined(content, n) =~= content.take(
            if chunk_offset(n) < content.len() {
                chunk_offset(n)
            } else {
                content.len() as int
            },
        ));
    } else {
        assert(content.take(0) =~= Seq::<u8>::empty());
    }
}

/// What the hub writes into `from` on relay makes no difference to a transfer.
pub proof fn law_relayed_chunk_is_delivered_alike(
    d: Delivery,
    frame: FileChunkFrame,
    from: Option<crate::ident::Uuid>,
)
    ensures
        deliver(d, FileChunkFrame { from, ..frame }) == deliver(d, frame),
{
    crate::client::file::law_relayed_chunk_is_received_alike(d.receiver, frame, from);
}

} // verus!
