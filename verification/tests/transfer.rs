use std::collections::HashMap;

use base64::engine::general_purpose::STANDARD;
use base64::Engine;
use clipboardwire::client::file::{
    default_save_dir, plan_file, FileReceiver, FileSender, NoHomeDirectory, OutgoingFile,
    ReceiveError, ReceiveStep, SendError, SendStep,
};
use clipboardwire::client::names::unique_path;
use clipboardwire::digest::{fingerprint_hex, sha256_fingerprint, Sha256Stream};
use clipboardwire::ident::Uuid;
use clipboardwire::path::LocalPath;
use clipboardwire::protocol::{FileChunkFrame, FILE_CHUNK_BYTES};

fn path(components: &[&str]) -> LocalPath {
    LocalPath {
        components: components.iter().map(|c| c.as_bytes().to_vec()).collect(),
    }
}

fn file_name(p: &LocalPath) -> String {
    String::from_utf8(p.components.last().unwrap().clone()).unwrap()
}

fn make_chunks(name: &str, content: &[u8]) -> Vec<FileChunkFrame> {
    let file_id = Uuid::nil();
    let total = content.len().div_ceil(FILE_CHUNK_BYTES.max(1)).max(1) as u32;
    let sha = sha256_fingerprint(content);
    let mut chunks = Vec::new();
    for (i, slice) in content.chunks(FILE_CHUNK_BYTES).enumerate() {
        chunks.push(FileChunkFrame {
            file_id,
            name: name.to_string(),
            content_type: "application/octet-stream".to_string(),
            chunk_index: i as u32,
            total_chunks: total,
            file_sha256: sha.clone(),
            file_size: content.len() as u64,
            payload_b64: STANDARD.encode(slice),
            from: None,
        });
    }
    chunks
}

#[derive(Debug)]
enum Failure {
    Rejected(ReceiveError),
    Sha256Mismatch,
}

/// A receiver with a disk in memory.
struct Rig {
    receiver: FileReceiver,
    disk: HashMap<Vec<Vec<u8>>, Vec<u8>>,
    writes: usize,
}

impl Rig {
    fn new(dir: LocalPath) -> Rig {
        Rig {
            receiver: FileReceiver::with_save_dir(dir),
            disk: HashMap::new(),
            writes: 0,
        }
    }

    fn receive(&mut self, frame: FileChunkFrame) -> Result<Option<LocalPath>, Failure> {
        let id = frame.file_id;
        let mut step = self.receiver.receive_chunk(frame).map_err(Failure::Rejected)?;
        loop {
            step = match step {
                ReceiveStep::Create { path, chunk } => {
                    self.disk
                        .insert(path.components, vec![0; chunk.file_size as usize]);
                    self.receiver.partial_created(chunk)
                }
                ReceiveStep::Write { path, offset, chunk } => {
                    self.writes += 1;
                    let file = self.disk.get_mut(&path.components).unwrap();
                    let offset = offset as usize;
                    let end = offset + chunk.bytes.len();
                    if file.len() < end {
                        file.resize(end, 0);
                    }
                    file[offset..end].copy_from_slice(&chunk.bytes);
                    self.receiver.chunk_written(chunk.file_id, chunk.chunk_index)
                }
                ReceiveStep::Pending => return Ok(None),
                ReceiveStep::Verify { path } => {
                    let actual = sha256_fingerprint(&self.disk[&path.components]);
                    self.receiver.digest_computed(id, &actual)
                }
                ReceiveStep::Place { path, name } => {
                    let disk = &self.disk;
                    let to = unique_path(self.receiver.save_dir(), &name, |p| {
                        disk.contains_key(&p.components)
                    });
                    let content = self.disk.remove(&path.components).unwrap();
                    self.disk.insert(to.components.clone(), content);
                    self.receiver.file_placed(id);
                    return Ok(Some(to));
                }
                ReceiveStep::Discard { path } => {
                    self.disk.remove(&path.components);
                    return Err(Failure::Sha256Mismatch);
                }
            };
        }
    }

    fn receive_all(&mut self, chunks: Vec<FileChunkFrame>) -> Option<LocalPath> {
        let mut last = None;
        for c in chunks {
            if let Some(p) = self.receive(c).unwrap() {
                last = Some(p);
            }
        }
        last
    }
}

#[test]
fn single_chunk_transfer_writes_file_with_original_name() {
    let mut rx = Rig::new(path(&["tmp", "single"]));
    let body = b"hello clipboardwire";
    let chunks = make_chunks("hello.txt", body);
    let final_path = rx.receive_all(chunks).expect("transfer should have completed");
    assert_eq!(file_name(&final_path), "hello.txt");
    assert_eq!(rx.disk[&final_path.components], body);
    assert_eq!(rx.disk.len(), 1);
}

#[test]
fn multi_chunk_transfer_assembles_correctly() {
    let mut rx = Rig::new(path(&["tmp", "multi"]));
    // 9 MiB of pseudo-random bytes: 3 chunks at 4 MiB each.
    let mut body = vec![0u8; 9 * 1024 * 1024];
    for (i, b) in body.iter_mut().enumerate() {
        *b = (i & 0xff) as u8;
    }
    let chunks = make_chunks("blob.bin", &body);
    assert!(chunks.len() >= 3, "this test needs >=3 chunks");
    let final_path = rx.receive_all(chunks).expect("transfer should have completed");
    assert!(rx.disk[&final_path.components] == body);
}

#[test]
fn out_of_order_chunks_assemble_correctly() {
    let mut rx = Rig::new(path(&["tmp", "ooo"]));
    let mut body = vec![0u8; 6 * 1024 * 1024];
    for (i, b) in body.iter_mut().enumerate() {
        *b = ((i * 7) & 0xff) as u8;
    }
    let mut chunks = make_chunks("ooo.bin", &body);
    chunks.reverse();
    let final_path = rx.receive_all(chunks).expect("transfer should have completed");
    assert!(rx.disk[&final_path.components] == body);
}

#[test]
fn sha256_mismatch_fails_and_cleans_up_partial() {
    let mut rx = Rig::new(path(&["tmp", "badsha"]));
    let body = b"original";
    let mut chunks = make_chunks("victim.txt", body);
    // Tamper with the first chunk's payload (keep length).
    chunks[0].payload_b64 = STANDARD.encode(b"tampered");

    let mut err = None;
    for c in chunks {
        if let Err(e) = rx.receive(c) {
            err = Some(e);
            break;
        }
    }
    assert!(
        matches!(err, Some(Failure::Sha256Mismatch)),
        "tampered chunk should fail SHA verification"
    );
    // No final file, no .partial leftover.
    assert!(
        rx.disk.is_empty(),
        "save_dir should be empty after a failed transfer"
    );
    // The transfer is forgotten: the file can be sent again.
    assert!(rx.receive_all(make_chunks("victim.txt", body)).is_some());
}

#[test]
fn duplicate_chunk_is_ignored_not_errored() {
    let mut rx = Rig::new(path(&["tmp", "dup"]));
    let body = b"once and again";
    let chunks = make_chunks("dup.txt", body);
    // Send first chunk twice: it should not error.
    rx.receive(chunks[0].clone()).unwrap();
    rx.receive(chunks[0].clone()).unwrap();
    for c in chunks.into_iter().skip(1) {
        rx.receive(c).unwrap();
    }
}

#[test]
fn a_duplicate_within_a_transfer_is_not_written_again() {
    let mut rx = Rig::new(path(&["tmp"]));
    let body = vec![7u8; FILE_CHUNK_BYTES + 1];
    let chunks = make_chunks("big", &body);
    assert_eq!(chunks.len(), 2);
    assert!(rx.receive(chunks[0].clone()).unwrap().is_none());
    let mut altered = chunks[0].clone();
    altered.payload_b64 = STANDARD.encode(b"other");
    assert!(rx.receive(altered).unwrap().is_none());
    assert_eq!(rx.writes, 1);
    let p = rx.receive(chunks[1].clone()).unwrap().unwrap();
    assert!(rx.disk[&p.components] == body);
}

#[test]
fn interleaved_transfers_do_not_mix() {
    let mut rx = Rig::new(path(&["tmp"]));
    let one = vec![1u8; FILE_CHUNK_BYTES + 10];
    let two = vec![2u8; FILE_CHUNK_BYTES + 20];
    let first = make_chunks("same.bin", &one);
    let mut second = make_chunks("same.bin", &two);
    for c in second.iter_mut() {
        c.file_id = Uuid { bits: 9 };
    }
    assert!(rx.receive(first[1].clone()).unwrap().is_none());
    assert!(rx.receive(second[0].clone()).unwrap().is_none());
    assert_eq!(rx.disk.len(), 2);
    assert!(rx.disk.contains_key(
        &path(&["tmp", "00000000-0000-0000-0000-000000000009.partial"]).components
    ));
    let a = rx.receive(first[0].clone()).unwrap().unwrap();
    let b = rx.receive(second[1].clone()).unwrap().unwrap();
    assert_eq!(file_name(&a), "same.bin");
    assert_eq!(file_name(&b), "same (1).bin");
    assert!(rx.disk[&a.components] == one);
    assert!(rx.disk[&b.components] == two);
}

#[test]
fn rejected_chunks_name_their_reason() {
    let mut rx = Rig::new(path(&["tmp"]));
    let mut bad = make_chunks("x", b"abc").remove(0);
    bad.total_chunks = 0;
    assert!(matches!(
        rx.receive(bad),
        Err(Failure::Rejected(ReceiveError::Invalid(
            "file_chunk total_chunks must be >= 1"
        )))
    ));
    let mut bad = make_chunks("x", b"abc").remove(0);
    bad.payload_b64 = "!!!".to_string();
    assert!(matches!(
        rx.receive(bad),
        Err(Failure::Rejected(ReceiveError::Payload(_)))
    ));
    assert!(rx.disk.is_empty());

    let body = vec![0u8; FILE_CHUNK_BYTES * 2];
    let chunks = make_chunks("x", &body);
    rx.receive(chunks[0].clone()).unwrap();
    for change in 0..3 {
        let mut bad = chunks[1].clone();
        match change {
            0 => bad.total_chunks = 3,
            1 => bad.file_sha256 = "00".to_string(),
            _ => bad.file_size += 1,
        }
        assert!(matches!(
            rx.receive(bad),
            Err(Failure::Rejected(ReceiveError::Inconsistent))
        ));
    }
    assert!(rx.receive(chunks[1].clone()).unwrap().is_some());
}

#[test]
fn names_from_the_wire_cannot_leave_the_directory() {
    let mut rx = Rig::new(path(&["tmp", "in"]));
    let p = rx
        .receive_all(make_chunks("../../etc/passwd", b"x"))
        .unwrap();
    assert_eq!(p, path(&["tmp", "in", ".._.._etc_passwd"]));
}

/// Sends `body` from reads of at most `most` bytes.
fn send(out: OutgoingFile, body: &[u8], most: usize) -> Vec<FileChunkFrame> {
    let mut sender = FileSender::new(out);
    let mut frames = Vec::new();
    let mut at = 0;
    loop {
        let n = most.min(sender.room()).min(body.len() - at);
        let due = sender.chunk_due(n);
        let step = sender.on_read(&body[at..at + n]);
        assert_eq!(due, matches!(step, SendStep::Send(_)));
        match step {
            SendStep::Read => {}
            SendStep::Send(frame) => frames.push(frame),
            SendStep::Done => break,
        }
        at += n;
    }
    assert_eq!(at, body.len());
    assert_eq!(sender.next_index() as usize, frames.len());
    // Nothing is sent once the file has ended, even if it grows.
    assert_eq!(sender.on_read(b"more"), SendStep::Done);
    frames
}

#[test]
fn chunks_are_full_however_short_the_reads() {
    for size in [
        1,
        FILE_CHUNK_BYTES - 1,
        FILE_CHUNK_BYTES,
        FILE_CHUNK_BYTES + 1,
        FILE_CHUNK_BYTES * 2,
    ] {
        let body: Vec<u8> = (0..size).map(|i| (i % 253) as u8).collect();
        let plan = plan_file(Some("f"), size as u64).unwrap();
        let sha = sha256_fingerprint(&body);
        let id = Uuid { bits: 5 };
        let whole = send(
            OutgoingFile::with_id(plan.clone(), sha.clone(), id),
            &body,
            FILE_CHUNK_BYTES,
        );
        assert_eq!(whole.len(), plan.total_chunks as usize);
        for (i, frame) in whole.iter().enumerate() {
            let len = STANDARD.decode(&frame.payload_b64).unwrap().len();
            if i < whole.len() - 1 {
                assert_eq!(len, FILE_CHUNK_BYTES);
            } else {
                assert!(1 <= len && len <= FILE_CHUNK_BYTES);
            }
        }
        for most in [999_983, 65_536] {
            let split = send(
                OutgoingFile::with_id(plan.clone(), sha.clone(), id),
                &body,
                most,
            );
            assert!(split == whole);
        }
    }
}

#[test]
fn an_empty_read_at_the_start_ends_the_file() {
    let plan = plan_file(Some("f"), 3).unwrap();
    let mut sender = FileSender::new(OutgoingFile::begin(plan, "00".to_string()));
    assert_eq!(sender.room(), FILE_CHUNK_BYTES);
    assert_eq!(sender.on_read(b""), SendStep::Done);
    assert_eq!(sender.next_index(), 0);
}

#[test]
fn the_last_index_is_enough_for_the_largest_file() {
    let chunk = FILE_CHUNK_BYTES as u64;
    let plan = plan_file(Some("f"), chunk * u32::MAX as u64).unwrap();
    let mut out = OutgoingFile::begin(plan, "00".to_string());
    // All but the last chunk were sent.
    out.next_index = u32::MAX - 1;
    let mut sender = FileSender::new(out);
    let block = vec![1u8; FILE_CHUNK_BYTES];
    assert!(sender.chunk_due(block.len()));
    match sender.on_read(&block) {
        SendStep::Send(frame) => {
            assert_eq!(frame.chunk_index, u32::MAX - 1);
            assert_eq!(frame.validate(), Ok(()));
        }
        other => panic!("expected a chunk, got {other:?}"),
    }
    assert_eq!(sender.next_index(), u32::MAX);
    // The read that finds the end sends nothing.
    assert!(!sender.chunk_due(0));
    assert_eq!(sender.on_read(b""), SendStep::Done);
}

#[test]
fn payloads_are_canonical_base64() {
    let mut rx = Rig::new(path(&["tmp"]));
    for text in ["QQ", "QQ=", "QR==", "QQ==\n", "QQ==QQ==", "Q-==", "é", "===="] {
        let mut bad = make_chunks("x", b"A").remove(0);
        assert_eq!(bad.payload_b64, "QQ==");
        bad.payload_b64 = text.to_string();
        assert!(
            matches!(
                rx.receive(bad),
                Err(Failure::Rejected(ReceiveError::Payload(_)))
            ),
            "{}",
            text
        );
    }
    // Every byte value, in groups of each length.
    for len in [254usize, 255, 256] {
        let body: Vec<u8> = (0..len).map(|i| i as u8).collect();
        let plan = plan_file(Some("b"), len as u64).unwrap();
        let out = OutgoingFile::begin(plan, sha256_fingerprint(&body));
        let frames = send(out, &body, 7);
        assert_eq!(frames[0].payload_b64, STANDARD.encode(&body));
        let p = rx.receive_all(frames).unwrap();
        assert_eq!(rx.disk[&p.components], body);
    }
}

#[test]
fn what_is_sent_is_received() {
    let mut body = vec![0u8; FILE_CHUNK_BYTES * 2 + 5];
    for (i, b) in body.iter_mut().enumerate() {
        *b = (i % 251) as u8;
    }
    let plan = plan_file(Some("trip.JPG"), body.len() as u64).unwrap();
    assert_eq!(plan.name, "trip.JPG");
    assert_eq!(plan.content_type, "image/jpeg");
    assert_eq!(plan.total_chunks, 3);
    assert_eq!(plan.file_size, body.len() as u64);

    let mut digest = Sha256Stream::new();
    for block in body.chunks(64 * 1024) {
        digest.update(block);
    }
    let out = OutgoingFile::begin(plan, digest.finish());
    let id = out.file_id;
    let mut frames = send(out, &body, FILE_CHUNK_BYTES);
    assert_eq!(frames.len(), 3);
    for (i, f) in frames.iter().enumerate() {
        assert_eq!(f.validate(), Ok(()));
        assert_eq!(f.chunk_index, i as u32);
        assert_eq!(f.file_id, id);
        assert_eq!(f.from, None);
        assert_eq!(f.content_type, "image/jpeg");
    }
    assert_eq!(frames[0].payload_b64.len(), 5_592_408);
    frames.rotate_left(1);
    let mut rx = Rig::new(path(&["d"]));
    let p = rx.receive_all(frames).unwrap();
    assert_eq!(file_name(&p), "trip.JPG");
    assert!(rx.disk[&p.components] == body);
}

#[test]
fn plans_refuse_what_cannot_be_sent() {
    assert_eq!(plan_file(None, 0), Err(SendError::NoFileName));
    assert_eq!(plan_file(None, 5), Err(SendError::NoFileName));
    assert_eq!(plan_file(Some("a"), 0), Err(SendError::EmptyFile));
    let chunk = FILE_CHUNK_BYTES as u64;
    let most = chunk * u32::MAX as u64;
    assert_eq!(plan_file(Some("a"), most).unwrap().total_chunks, u32::MAX);
    assert_eq!(plan_file(Some("a"), most + 1), Err(SendError::TooManyChunks));
    assert_eq!(plan_file(Some("a"), u64::MAX), Err(SendError::TooManyChunks));
    assert_eq!(plan_file(Some("a"), 1).unwrap().total_chunks, 1);
    assert_eq!(plan_file(Some("a"), chunk).unwrap().total_chunks, 1);
    assert_eq!(plan_file(Some("a"), chunk + 1).unwrap().total_chunks, 2);
}

#[test]
fn files_are_saved_below_the_download_directory() {
    let downloads = path(&["home", "me", "Desktop", "dl"]);
    let home = path(&["home", "me"]);
    assert_eq!(
        default_save_dir(Some(downloads), Some(home.clone())),
        Ok(path(&["home", "me", "Desktop", "dl", "clipboardwire"]))
    );
    assert_eq!(
        default_save_dir(None, Some(home.clone())),
        Ok(path(&["home", "me", "Downloads", "clipboardwire"]))
    );
    assert_eq!(default_save_dir(None, None), Err(NoHomeDirectory));
    let receiver = FileReceiver::new(None, Some(home)).unwrap();
    assert_eq!(
        *receiver.save_dir(),
        path(&["home", "me", "Downloads", "clipboardwire"])
    );
    assert!(FileReceiver::new(None, None).is_err());
}

#[test]
fn fingerprints_of_digests() {
    assert_eq!(fingerprint_hex(&[]), "");
    assert_eq!(fingerprint_hex(&[0x0a]), "0A");
    assert_eq!(fingerprint_hex(&[0, 255, 0x9f]), "00:FF:9F");
    assert_eq!(
        sha256_fingerprint(b""),
        "E3:B0:C4:42:98:FC:1C:14:9A:FB:F4:C8:99:6F:B9:24:27:AE:41:E4:64:9B:93:4C:A4:95:99:1B:78:52:B8:55"
    );
    let mut parts = Sha256Stream::new();
    parts.update(b"hel");
    parts.update(b"");
    parts.update(b"lo");
    assert_eq!(parts.finish(), sha256_fingerprint(b"hello"));
}
