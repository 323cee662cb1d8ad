use clipboardwire::client::clipboard::{
    ClipChange, ClipboardLoop, ImageBytes, LoopAction, LoopEvent, PollStep, RawImage, Reading,
    TextReading, Tracker,
};
use clipboardwire::path::LocalPath;

fn path(name: &str) -> LocalPath {
    LocalPath {
        components: vec![b"home".to_vec(), name.as_bytes().to_vec()],
    }
}

fn image(n: u8) -> ImageBytes {
    ImageBytes {
        width: 1,
        height: 1,
        rgba: vec![n, n, n, 255],
    }
}

fn raw(n: u8) -> RawImage {
    RawImage {
        width: 1,
        height: 1,
        rgba: vec![n, n, n, 255],
    }
}

/// What is on the clipboard.
#[derive(Clone, Default)]
struct Board {
    files: Option<Vec<LocalPath>>,
    image: Option<RawImage>,
    text: Option<String>,
}

fn poll(tracker: &mut Tracker, board: &Board) -> Option<ClipChange> {
    let mut step = tracker.poll_clipboard(Reading::Files(board.files.clone()));
    loop {
        step = match step {
            PollStep::Emit(change) => return Some(change),
            PollStep::ReadImage => tracker.poll_clipboard(Reading::Image(board.image.clone())),
            PollStep::ReadText => tracker.poll_clipboard(Reading::Text(match &board.text {
                Some(t) => TextReading::Text(t.clone()),
                None => TextReading::Unavailable,
            })),
            PollStep::Quiet => return None,
        };
    }
}

#[test]
fn a_new_value_is_emitted_once() {
    let mut tracker = Tracker::new();
    let mut board = Board::default();
    assert_eq!(poll(&mut tracker, &board), None);
    board.text = Some("a".into());
    assert_eq!(poll(&mut tracker, &board), Some(ClipChange::Text("a".into())));
    assert_eq!(poll(&mut tracker, &board), None);
    board.text = Some("b".into());
    assert_eq!(poll(&mut tracker, &board), Some(ClipChange::Text("b".into())));
    assert_eq!(poll(&mut tracker, &board), None);
}

#[test]
fn an_applied_change_is_not_echoed() {
    let mut tracker = Tracker::new();
    let board = Board {
        files: Some(vec![path("f")]),
        image: Some(raw(3)),
        text: Some("t".into()),
    };
    tracker.apply_change(ClipChange::Text("t".into()), true);
    tracker.apply_change(ClipChange::Image(image(3)), true);
    tracker.apply_change(ClipChange::Files(vec![path("f")]), true);
    assert_eq!(poll(&mut tracker, &board), None);
}

#[test]
fn a_failed_write_does_not_count_as_seen() {
    let mut tracker = Tracker::new();
    tracker.apply_change(ClipChange::Text("t".into()), false);
    tracker.apply_change(ClipChange::Image(image(1)), false);
    tracker.apply_change(ClipChange::Files(vec![path("f")]), false);
    let board = Board {
        text: Some("t".into()),
        ..Board::default()
    };
    assert_eq!(poll(&mut tracker, &board), Some(ClipChange::Text("t".into())));
}

#[test]
fn files_go_before_the_image_and_the_image_before_text() {
    let mut tracker = Tracker::new();
    let board = Board {
        files: Some(vec![path("a"), path("b")]),
        image: Some(raw(1)),
        text: Some("t".into()),
    };
    assert_eq!(
        poll(&mut tracker, &board),
        Some(ClipChange::Files(vec![path("a"), path("b")]))
    );
    assert_eq!(poll(&mut tracker, &board), Some(ClipChange::Image(image(1))));
    assert_eq!(poll(&mut tracker, &board), Some(ClipChange::Text("t".into())));
    assert_eq!(poll(&mut tracker, &board), None);
}

#[test]
fn the_order_of_files_counts_and_an_empty_list_does_not() {
    let mut tracker = Tracker::new();
    let mut board = Board {
        files: Some(vec![path("a"), path("b")]),
        ..Board::default()
    };
    assert!(poll(&mut tracker, &board).is_some());
    board.files = Some(vec![]);
    assert_eq!(poll(&mut tracker, &board), None);
    board.files = None;
    assert_eq!(poll(&mut tracker, &board), None);
    board.files = Some(vec![path("a"), path("b")]);
    assert_eq!(poll(&mut tracker, &board), None);
    board.files = Some(vec![path("b"), path("a")]);
    assert!(poll(&mut tracker, &board).is_some());
}

#[test]
fn cleared_text_is_new_again_but_a_missing_image_is_not() {
    let mut tracker = Tracker::new();
    let full = Board {
        image: Some(raw(1)),
        text: Some("t".into()),
        ..Board::default()
    };
    assert!(poll(&mut tracker, &full).is_some());
    assert!(poll(&mut tracker, &full).is_some());
    assert_eq!(poll(&mut tracker, &Board::default()), None);
    assert_eq!(poll(&mut tracker, &full), Some(ClipChange::Text("t".into())));
    assert_eq!(poll(&mut tracker, &full), None);
}

#[test]
fn a_text_read_that_failed_changes_nothing() {
    let mut tracker = Tracker::new();
    tracker.apply_change(ClipChange::Text("t".into()), true);
    assert_eq!(
        tracker.poll_clipboard(Reading::Text(TextReading::Failed)),
        PollStep::Quiet
    );
    assert_eq!(
        tracker.poll_clipboard(Reading::Text(TextReading::Text("t".into()))),
        PollStep::Quiet
    );
}

#[test]
fn images_differ_by_sides_and_bytes() {
    let mut tracker = Tracker::new();
    tracker.apply_change(ClipChange::Image(image(1)), true);
    let mut other = raw(1);
    other.width = 2;
    assert!(matches!(
        tracker.poll_clipboard(Reading::Image(Some(other))),
        PollStep::Emit(ClipChange::Image(_))
    ));
    assert!(matches!(
        tracker.poll_clipboard(Reading::Image(Some(raw(2)))),
        PollStep::Emit(ClipChange::Image(_))
    ));
    let wide = RawImage {
        width: (1usize << 32) + 5,
        height: 7,
        rgba: vec![],
    };
    assert_eq!(
        tracker.poll_clipboard(Reading::Image(Some(wide))),
        PollStep::Emit(ClipChange::Image(ImageBytes {
            width: 5,
            height: 7,
            rgba: vec![],
        }))
    );
}

#[test]
fn the_loop_waits_polls_and_emits() {
    let mut looping = ClipboardLoop::new(300, 1_000);
    assert_eq!(looping.wait(1_000), 300_000_000);
    assert_eq!(looping.wait(200_001_000), 100_000_000);
    assert_eq!(looping.wait(400_000_000), 0);

    assert_eq!(
        looping.on_event(LoopEvent::TimedOut { now: 400_000_000 }),
        LoopAction::ReadFiles
    );
    assert_eq!(looping.wait(400_000_000), 300_000_000);
    assert_eq!(
        looping.on_event(LoopEvent::Read(Reading::Files(None))),
        LoopAction::ReadImage
    );
    assert_eq!(
        looping.on_event(LoopEvent::Read(Reading::Image(None))),
        LoopAction::ReadText
    );
    assert_eq!(
        looping.on_event(LoopEvent::Read(Reading::Text(TextReading::Text("x".into())))),
        LoopAction::Emit(ClipChange::Text("x".into()))
    );
    assert_eq!(looping.on_event(LoopEvent::Sent), LoopAction::Wait);
    assert_eq!(looping.on_event(LoopEvent::SendFull), LoopAction::Wait);
    assert_eq!(
        looping.on_event(LoopEvent::Read(Reading::Text(TextReading::Text("x".into())))),
        LoopAction::Wait
    );
    assert_eq!(looping.on_event(LoopEvent::SendClosed), LoopAction::Exit);
    assert_eq!(looping.on_event(LoopEvent::Disconnected), LoopAction::Exit);
}

#[test]
fn the_loop_applies_requests_without_putting_off_the_poll() {
    let mut looping = ClipboardLoop::new(10, 0);
    let change = ClipChange::Text("in".into());
    assert_eq!(
        looping.on_event(LoopEvent::Request(change.clone())),
        LoopAction::Apply(change.clone())
    );
    assert_eq!(
        looping.on_event(LoopEvent::Applied {
            change,
            written: true,
        }),
        LoopAction::Wait
    );
    assert_eq!(looping.wait(0), 10_000_000);
    assert_eq!(
        looping.on_event(LoopEvent::Read(Reading::Text(TextReading::Text(
            "in".into()
        )))),
        LoopAction::Wait
    );
}
