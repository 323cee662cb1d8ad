use clipboardwire::client::clipboard::{ClipChange, ImageBytes};
use clipboardwire::client::frame::{frame_to_change, text_frame, FrameRejection};
use clipboardwire::client::png::EncodeError;
use clipboardwire::client::supervisor::{
    Supervisor, SupervisorAction, SupervisorEvent, RECEIVE_BATCH_WINDOW_MS,
};
use clipboardwire::ident::Uuid;
use clipboardwire::path::LocalPath;
use clipboardwire::protocol::FileChunkFrame;

fn path(name: &str) -> LocalPath {
    LocalPath {
        components: vec![name.as_bytes().to_vec()],
    }
}

fn chunk() -> FileChunkFrame {
    FileChunkFrame {
        file_id: Uuid::nil(),
        name: "a.bin".into(),
        content_type: "application/octet-stream".into(),
        chunk_index: 0,
        total_chunks: 1,
        file_sha256: "00".into(),
        file_size: 1,
        payload_b64: "AA==".into(),
        from: None,
    }
}

#[test]
fn received_files_are_applied_as_one_batch() {
    let mut s = Supervisor::new(true, true);
    assert_eq!(s.deadline(), None);
    for (i, name) in ["one", "two", "three"].iter().enumerate() {
        let now = 1_000 + i as u128;
        let action = s.on_event(SupervisorEvent::Saved {
            path: path(name),
            now,
        });
        assert!(matches!(action, SupervisorAction::Wait));
        assert_eq!(s.deadline(), Some(now + 500_000_000));
    }
    // Other events in between do not touch the batch.
    assert!(matches!(
        s.on_event(SupervisorEvent::Remote(text_frame(
            "x".into(),
            Uuid::nil(),
            0
        ))),
        SupervisorAction::Apply(ClipChange::Text(_))
    ));
    match s.on_event(SupervisorEvent::Deadline) {
        SupervisorAction::ApplyBatch(batch) => {
            assert_eq!(batch, vec![path("one"), path("two"), path("three")])
        }
        other => panic!("expected a batch, got {other:?}"),
    }
    assert_eq!(s.deadline(), None);
    assert!(matches!(
        s.on_event(SupervisorEvent::Deadline),
        SupervisorAction::Wait
    ));
    assert_eq!(RECEIVE_BATCH_WINDOW_MS, 500);
}

#[test]
fn local_changes_become_frames_or_transfers() {
    let mut s = Supervisor::new(false, false);
    match s.on_event(SupervisorEvent::Local(ClipChange::Text("hi".into()))) {
        SupervisorAction::Send(frame) => {
            assert_eq!(frame.content.as_deref(), Some("hi"));
            assert_eq!(frame.validate(), Ok(()));
        }
        other => panic!("expected a frame, got {other:?}"),
    }
    let image = ImageBytes {
        width: 1,
        height: 1,
        rgba: vec![1, 2, 3, 4],
    };
    match s.on_event(SupervisorEvent::Local(ClipChange::Image(image.clone()))) {
        SupervisorAction::Send(frame) => {
            assert_eq!(frame_to_change(&frame).unwrap(), ClipChange::Image(image))
        }
        other => panic!("expected a frame, got {other:?}"),
    }
    let bad = ImageBytes {
        width: 2,
        height: 1,
        rgba: vec![1, 2, 3, 4],
    };
    assert!(matches!(
        s.on_event(SupervisorEvent::Local(ClipChange::Image(bad))),
        SupervisorAction::DropLocal(EncodeError::InvalidBuffer)
    ));
    match s.on_event(SupervisorEvent::Local(ClipChange::Files(vec![
        path("a"),
        path("b"),
    ]))) {
        SupervisorAction::SendFiles(paths) => assert_eq!(paths, vec![path("a"), path("b")]),
        other => panic!("expected files, got {other:?}"),
    }
}

#[test]
fn inbound_clips_are_applied_or_ignored() {
    let mut s = Supervisor::new(true, true);
    match s.on_event(SupervisorEvent::Remote(text_frame(
        "in".into(),
        Uuid::nil(),
        0,
    ))) {
        SupervisorAction::Apply(change) => assert_eq!(change, ClipChange::Text("in".into())),
        other => panic!("expected a change, got {other:?}"),
    }
    let mut unknown = text_frame("in".into(), Uuid::nil(), 0);
    unknown.content_type = "video/mp4".into();
    assert!(matches!(
        s.on_event(SupervisorEvent::Remote(unknown)),
        SupervisorAction::Ignore(FrameRejection::UnsupportedType)
    ));
}

#[test]
fn chunks_go_to_the_receiver_if_there_is_one() {
    let mut with = Supervisor::new(true, true);
    match with.on_event(SupervisorEvent::Chunk(chunk())) {
        SupervisorAction::Receive(got) => assert_eq!(got, chunk()),
        other => panic!("expected a chunk, got {other:?}"),
    }
    let mut without = Supervisor::new(false, true);
    assert!(matches!(
        without.on_event(SupervisorEvent::Chunk(chunk())),
        SupervisorAction::Wait
    ));
}

#[test]
fn a_closed_file_channel_goes_quiet() {
    let mut s = Supervisor::new(true, true);
    assert!(s.chunks_open());
    assert!(matches!(
        s.on_event(SupervisorEvent::ChunksClosed),
        SupervisorAction::Wait
    ));
    assert!(!s.chunks_open());
    assert!(!Supervisor::new(true, false).chunks_open());
}

#[test]
fn only_a_lost_clipboard_or_transport_ends_the_supervisor() {
    let mut s = Supervisor::new(true, true);
    assert!(matches!(
        s.on_event(SupervisorEvent::BatchFailed),
        SupervisorAction::Wait
    ));
    for event in [
        SupervisorEvent::LocalClosed,
        SupervisorEvent::RemoteClosed,
        SupervisorEvent::ApplyFailed,
    ] {
        assert!(matches!(s.on_event(event), SupervisorAction::Exit));
    }
}
