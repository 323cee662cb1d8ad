//! Clipboard watching.
//!
//! One loop does two things on each tick: it **applies** any pending request to
//! write the local clipboard, and it **polls** the local clipboard and emits
//! any new value. [`ClipboardLoop`] takes the decisions of that loop: it is
//! told what happened and answers what is to be done next.
//!
//! Each kind of content has its own tracker of what was last seen, so that a
//! copy of text does not clobber what is known of the image, or vice versa.
//!
//! Echo suppression: when an inbound clip is applied, the tracker takes the
//! value that was just written. The next poll does not see it as new, and so
//! does not bounce it back.
use crate::path::{copy_bytes, copy_paths, path_list, same_bytes, same_paths, LocalPath};
use crate::text::same_text;
use vstd::prelude::*;

verus! {

/// Owned RGBA image, in row-major order (4 bytes per pixel, R-G-B-A).
#[derive(Debug, Clone, PartialEq, Eq)]
pub struct ImageBytes {
    pub width: u32,
    pub height: u32,
    pub rgba: Vec<u8>,
}

/// An image, by its values.
#[verifier::ext_equal]
pub struct ImageValues {
    pub width: u32,
    pub height: u32,
    pub rgba: Seq<u8>,
}

impl View for ImageBytes {
    type V = ImageValues;

    open spec fn view(&self) -> ImageValues {
        ImageValues { width: self.width, height: self.height, rgba: self.rgba@ }
    }
}

impl ImageBytes {
    /// A copy of this image.
    pub fn copy(&self) -> (r: ImageBytes)
        ensures
            r@ == self@,
    {
        ImageBytes { width: self.width, height: self.height, rgba: copy_bytes(&self.rgba) }
    }

    /// Whether this image and `other` are the same.
    pub fn same(&self, other: &ImageBytes) -> (r: bool)
        ensures
            r == (self@ == other@),
    {
        self.width == other.width && self.height == other.height && same_bytes(
            &self.rgba,
            &other.rgba,
        )
    }
}

/// A change to the local clipboard, emitted by the loop and accepted by it for
/// writing.
#[derive(Debug, Clone, PartialEq, Eq)]
pub enum ClipChange {
    Text(String),
    Image(ImageBytes),
    /// A list of local file paths that the user copied in a file manager. On
    /// the sender, each path becomes a sequence of `file_chunk` frames; on the
    /// receiver, the clipboard is set to the paths of the saved files, so that
    /// pasting in a file manager pastes them.
    Files(Vec<LocalPath>),
}

/// A change to the clipboard, by its values.
#[verifier::ext_equal]
pub enum ChangeValues {
    Text(Seq<char>),
    Image(ImageValues),
    Files(Seq<Seq<Seq<u8>>>),
}

impl View for ClipChange {
    type V = ChangeValues;

    open spec fn view(&self) -> ChangeValues {
        match *self {
            ClipChange::Text(text) => ChangeValues::Text(text@),
            ClipChange::Image(image) => ChangeValues::Image(image@),
            ClipChange::Files(paths) => ChangeValues::Files(path_list(paths@)),
        }
    }
}

/// What was last seen of each kind of content.
pub struct Tracker {
    last_text: Option<String>,
    last_image: Option<ImageBytes>,
    last_files: Option<Vec<LocalPath>>,
}

/// What was last seen of each kind of content, by its values.
#[verifier::ext_equal]
pub struct Seen {
    pub text: Option<Seq<char>>,
    pub image: Option<ImageValues>,
    pub files: Option<Seq<Seq<Seq<u8>>>>,
}

impl View for Tracker {
    type V = Seen;

    closed spec fn view(&self) -> Seen {
        Seen {
            text: match self.last_text {
                Some(text) => Some(text@),
                None => None,
            },
            image: match self.last_image {
                Some(image) => Some(image@),
                None => None,
            },
            files: match self.last_files {
                Some(paths) => Some(path_list(paths@)),
                None => None,
            },
        }
    }
}

/// The tracker before anything was seen.
pub open spec fn nothing_seen() -> Seen {
    Seen { text: None, image: None, files: None }
}

/// The tracker once `change` was seen: the other kinds stay as they were.
pub open spec fn noted(seen: Seen, change: ChangeValues) -> Seen {
    match change {
        ChangeValues::Text(text) => Seen { text: Some(text), ..seen },
        ChangeValues::Image(image) => Seen { image: Some(image), ..seen },
        ChangeValues::Files(paths) => Seen { files: Some(paths), ..seen },
    }
}

/// An image as the clipboard hands it out.
#[derive(Debug, Clone, PartialEq, Eq)]
pub struct RawImage {
    pub width: usize,
    pub height: usize,
    pub rgba: Vec<u8>,
}

/// The image that the clipboard handed out, with its sides cut to 32 bits.
pub open spec fn narrowed(image: RawImage) -> ImageValues {
    ImageValues { width: image.width as u32, height: image.height as u32, rgba: image.rgba@ }
}

/// What reading text from the clipboard gave.
#[derive(Debug, Clone, PartialEq, Eq)]
pub enum TextReading {
    Text(String),
    /// The clipboard is empty or holds no text.
    Unavailable,
    /// The clipboard could not be read this time.
    Failed,
}

/// What one read of the clipboard gave.
#[derive(Debug, Clone, PartialEq, Eq)]
pub enum Reading {
    /// File paths; `None` where there are none or they could not be read.
    Files(Option<Vec<LocalPath>>),
    /// An image; `None` where there is none or it could not be read.
    Image(Option<RawImage>),
    Text(TextReading),
}

/// What one read of the clipboard gave, by its values.
pub enum ReadingValues {
    Files(Option<Seq<Seq<Seq<u8>>>>),
    Image(Option<ImageValues>),
    Text(Option<Seq<char>>),
    TextFailed,
}

impl View for Reading {
    type V = ReadingValues;

    open spec fn view(&self) -> ReadingValues {
        match *self {
            Reading::Files(Some(paths)) => ReadingValues::Files(Some(path_list(paths@))),
            Reading::Files(None) => ReadingValues::Files(None),
            Reading::Image(Some(image)) => ReadingValues::Image(Some(narrowed(image))),
            Reading::Image(None) => ReadingValues::Image(None),
            Reading::Text(TextReading::Text(text)) => ReadingValues::Text(Some(text@)),
            Reading::Text(TextReading::Unavailable) => ReadingValues::Text(None),
            Reading::Text(TextReading::Failed) => ReadingValues::TextFailed,
        }
    }
}

/// What a poll does next.
#[derive(Debug, Clone, PartialEq, Eq)]
pub enum PollStep {
    /// Emit a change: the poll is over.
    Emit(ClipChange),
    ReadImage,
    ReadText,
    /// Nothing is new: the poll is over.
    Quiet,
}

/// What a poll does next, by its values.
#[verifier::ext_equal]
pub enum PollValues {
    Emit(ChangeValues),
    ReadImage,
    ReadText,
    Quiet,
}

impl View for PollStep {
    type V = PollValues;

    open spec fn view(&self) -> PollValues {
        match *self {
            PollStep::Emit(change) => PollValues::Emit(change@),
            PollStep::ReadImage => PollValues::ReadImage,
            PollStep::ReadText => PollValues::ReadText,
            PollStep::Quiet => PollValues::Quiet,
        }
    }
}

/// The tracker and the step after a read. A value that was last seen is not
/// new. An empty list of files is no files. Where no image is there, the last
/// one stays known; where no text is there, the last one is forgotten; a read
/// that failed changes nothing.
pub open spec fn poll_step(seen: Seen, reading: ReadingValues) -> (Seen, PollValues) {
    match reading {
        ReadingValues::Files(Some(paths)) => if paths.len() > 0 && seen.files != Some(paths) {
            let change = ChangeValues::Files(paths);
            (noted(seen, change), PollValues::Emit(change))
        } else {
            (seen, PollValues::ReadImage)
        },
        ReadingValues::Files(None) => (seen, PollValues::ReadImage),
        ReadingValues::Image(Some(image)) => if seen.image != Some(image) {
            let change = ChangeValues::Image(image);
            (noted(seen, change), PollValues::Emit(change))
        } else {
            (seen, PollValues::ReadText)
        },
        ReadingValues::Image(None) => (seen, PollValues::ReadText),
        ReadingValues::Text(Some(text)) => if seen.text != Some(text) {
            let change = ChangeValues::Text(text);
            (noted(seen, change), PollValues::Emit(change))
        } else {
            (seen, PollValues::Quiet)
        },
        ReadingValues::Text(None) => (Seen { text: None, ..seen }, PollValues::Quiet),
        ReadingValues::TextFailed => (seen, PollValues::Quiet),
    }
}

impl Tracker {
    /// A tracker that has seen nothing.
    pub fn new() -> (r: Self)
        ensures
            r@ == nothing_seen(),
    {
        Tracker { last_text: None, last_image: None, last_files: None }
    }

    /// Takes note of an attempt to write `change` to the clipboard. Only a
    /// write that succeeded counts as seen.
    pub fn apply_change(&mut self, change: ClipChange, written: bool)
        ensures
            final(self)@ == (if written {
                noted(old(self)@, change@)
            } else {
                old(self)@
            }),
    {
        if written {
            match change {
                ClipChange::Text(text) => {
                    self.last_text = Some(text);
                },
                ClipChange::Image(image) => {
                    self.last_image = Some(image);
                },
                ClipChange::Files(paths) => {
                    self.last_files = Some(paths);
                },
            }
        }
    }

    /// Takes what one read of the clipboard gave. A poll reads files first:
    /// they are the most explicit intent to share, and go before a stray text
    /// selection that may also be on the clipboard. Then it reads the image,
    /// then the text, until something is new.
    pub fn poll_clipboard(&mut self, reading: Reading) -> (r: PollStep)
        ensures
            (final(self)@, r@) == poll_step(old(self)@, reading@),
    {
        match reading {
            Reading::Files(Some(paths)) => {
                let known = match &self.last_files {
                    Some(last) => same_paths(last, &paths),
                    None => false,
                };
                if paths.len() > 0 && !known {
                    self.last_files = Some(copy_paths(&paths));
                    return PollStep::Emit(ClipChange::Files(paths));
                }
                PollStep::ReadImage
            },
            Reading::Files(None) => PollStep::ReadImage,
            Reading::Image(Some(image)) => {
                let owned = ImageBytes {
                    width: #[verifier::truncate]
                    (image.width as u32),
                    height: #[verifier::truncate]
                    (image.height as u32),
                    rgba: image.rgba,
                };
                let known = match &self.last_image {
                    Some(last) => last.same(&owned),
                    None => false,
                };
                if !known {
                    self.last_image = Some(owned.copy());
                    return PollStep::Emit(ClipChange::Image(owned));
                }
                PollStep::ReadText
            },
            Reading::Image(None) => PollStep::ReadText,
            Reading::Text(TextReading::Text(text)) => {
                let known = match &self.last_text {
                    Some(last) => same_text(last, &text),
                    None => false,
                };
                if !known {
                    self.last_text = Some(text.clone());
                    return PollStep::Emit(ClipChange::Text(text));
                }
                PollStep::Quiet
            },
            Reading::Text(TextReading::Unavailable) => {
                self.last_text = None;
                PollStep::Quiet
            },
            Reading::Text(TextReading::Failed) => PollStep::Quiet,
        }
    }
}

/// What happened since the loop's last action.
#[derive(Debug, Clone, PartialEq, Eq)]
pub enum LoopEvent {
    /// A request to write the clipboard ended the wait.
    Request(ClipChange),
    /// The wait ran out, at the time `now` in nanoseconds.
    TimedOut { now: u128 },
    /// Nobody can send requests any more.
    Disconnected,
    /// The write that was asked for was tried.
    Applied { change: ClipChange, written: bool },
    /// The read that was asked for was made.
    Read(Reading),
    /// The change was handed on.
    Sent,
    /// The change was dropped: there was no room for it.
    SendFull,
    /// Nobody takes changes any more.
    SendClosed,
}

/// What happened, by its values.
pub enum EventValues {
    Request(ChangeValues),
    TimedOut { now: u128 },
    Disconnected,
    Applied { change: ChangeValues, written: bool },
    Read(ReadingValues),
    Sent,
    SendFull,
    SendClosed,
}

impl View for LoopEvent {
    type V = EventValues;

    open spec fn view(&self) -> EventValues {
        match *self {
            LoopEvent::Request(change) => EventValues::Request(change@),
            LoopEvent::TimedOut { now } => EventValues::TimedOut { now },
            LoopEvent::Disconnected => EventValues::Disconnected,
            LoopEvent::Applied { change, written } => EventValues::Applied {
                change: change@,
                written,
            },
            LoopEvent::Read(reading) => EventValues::Read(reading@),
            LoopEvent::Sent => EventValues::Sent,
            LoopEvent::SendFull => EventValues::SendFull,
            LoopEvent::SendClosed => EventValues::SendClosed,
        }
    }
}

/// What the loop does next.
#[derive(Debug, Clone, PartialEq, Eq)]
pub enum LoopAction {
    /// Wait for a request, for as long as [`ClipboardLoop::wait`] says.
    Wait,
    /// Write a value to the clipboard.
    Apply(ClipChange),
    ReadFiles,
    ReadImage,
    ReadText,
    /// Hand on a change without waiting for room.
    Emit(ClipChange),
    Exit,
}

/// What the loop does next, by its values.
#[verifier::ext_equal]
pub enum ActionValues {
    Wait,
    Apply(ChangeValues),
    ReadFiles,
    ReadImage,
    ReadText,
    Emit(ChangeValues),
    Exit,
}

impl View for LoopAction {
    type V = ActionValues;

    open spec fn view(&self) -> ActionValues {
        match *self {
            LoopAction::Wait => ActionValues::Wait,
            LoopAction::Apply(change) => ActionValues::Apply(change@),
            LoopAction::ReadFiles => ActionValues::ReadFiles,
            LoopAction::ReadImage => ActionValues::ReadImage,
            LoopAction::ReadText => ActionValues::ReadText,
            LoopAction::Emit(change) => ActionValues::Emit(change@),
            LoopAction::Exit => ActionValues::Exit,
        }
    }
}

/// The clipboard loop between two actions. Times are in nanoseconds.
pub struct ClipboardLoop {
    tracker: Tracker,
    period: u128,
    next_poll: u128,
}

/// The clipboard loop, by its values.
#[verifier::ext_equal]
pub struct LoopState {
    pub seen: Seen,
    pub period: u128,
    pub next_poll: u128,
}

impl View for ClipboardLoop {
    type V = LoopState;

    closed spec fn view(&self) -> LoopState {
        LoopState { seen: self.tracker@, period: self.period, next_poll: self.next_poll }
    }
}

/// The nanoseconds in `ms` milliseconds.
pub open spec fn nanos(ms: u64) -> int {
    ms * 1_000_000
}

/// The action that a step of a poll asks for.
pub open spec fn action_of(step: PollValues) -> ActionValues {
    match step {
        PollValues::Emit(change) => ActionValues::Emit(change),
        PollValues::ReadImage => ActionValues::ReadImage,
        PollValues::ReadText => ActionValues::ReadText,
        PollValues::Quiet => ActionValues::Wait,
    }
}

/// The loop and its action after an event. A request is applied at once and
/// does not put off the next poll; a change that finds no room is dropped.
pub open spec fn loop_step(state: LoopState, event: EventValues) -> (LoopState, ActionValues) {
    match event {
        EventValues::Request(change) => (state, ActionValues::Apply(change)),
        EventValues::TimedOut { now } => (
            LoopState { next_poll: (now + state.period) as u128, ..state },
            ActionValues::ReadFiles,
        ),
        EventValues::Disconnected => (state, ActionValues::Exit),
        EventValues::Applied { change, written } => (
            LoopState {
                seen: if written {
                    noted(state.seen, change)
                } else {
                    state.seen
                },
                ..state
            },
            ActionValues::Wait,
        ),
        EventValues::Read(reading) => {
            let (seen, step) = poll_step(state.seen, reading);
            (LoopState { seen, ..state }, action_of(step))
        },
        EventValues::Sent => (state, ActionValues::Wait),
        EventValues::SendFull => (state, ActionValues::Wait),
        EventValues::SendClosed => (state, ActionValues::Exit),
    }
}

impl ClipboardLoop {
    /// A loop that polls every `poll_ms` milliseconds, the first time one
    /// period after `now`.
    pub fn new(poll_ms: u64, now: u128) -> (r: Self)
        requires
            now + nanos(poll_ms) <= u128::MAX,
        ensures
            r@ == (LoopState {
                seen: nothing_seen(),
                period: nanos(poll_ms) as u128,
                next_poll: (now + nanos(poll_ms)) as u128,
            }),
    {
        let period: u128 = poll_ms as u128 * 1_000_000;
        ClipboardLoop { tracker: Tracker::new(), period, next_poll: now + period }
    }

    /// How long to wait for a request before the next poll is due.
    pub fn wait(&self, now: u128) -> (r: u128)
        ensures
            r == (if now < self@.next_poll {
                self@.next_poll - now
            } else {
                0
            }),
    {
        if now < self.next_poll {
            self.next_poll - now
        } else {
            0
        }
    }

    /// Takes what happened and says what to do next.
    pub fn on_event(&mut self, event: LoopEvent) -> (r: LoopAction)
        requires
            event matches LoopEvent::TimedOut { now } ==> now + old(self)@.period <= u128::MAX,
        ensures
            (final(self)@, r@) == loop_step(old(self)@, event@),
    {
        match event {
            LoopEvent::Request(change) => LoopAction::Apply(change),
            LoopEvent::TimedOut { now } => {
                self.next_poll = now + self.period;
                LoopAction::ReadFiles
            },
            LoopEvent::Disconnected => LoopAction::Exit,
            LoopEvent::Applied { change, written } => {
                self.tracker.apply_change(change, written);
                LoopAction::Wait
            },
            LoopEvent::Read(reading) => {
                match self.tracker.poll_clipboard(reading) {
                    PollStep::Emit(change) => LoopAction::Emit(change),
                    PollStep::ReadImage => LoopAction::ReadImage,
                    PollStep::ReadText => LoopAction::ReadText,
                    PollStep::Quiet => LoopAction::Wait,
                }
            },
            LoopEvent::Sent => LoopAction::Wait,
            LoopEvent::SendFull => LoopAction::Wait,
            LoopEvent::SendClosed => LoopAction::Exit,
        }
    }
}

/// What is on the clipboard, as the reads of one poll find it.
pub struct Board {
    pub files: Option<Seq<Seq<Seq<u8>>>>,
    pub image: Option<ImageValues>,
    pub text: Option<Seq<char>>,
}

/// The text part of a poll.
pub open spec fn poll_text(seen: Seen, board: Board) -> (Seen, Option<ChangeValues>) {
    let (after, step) = poll_step(seen, ReadingValues::Text(board.text));
    match step {
        PollValues::Emit(change) => (after, Some(change)),
        _ => (after, None),
    }
}

/// The image and text parts of a poll.
pub open spec fn poll_image(seen: Seen, board: Board) -> (Seen, Option<ChangeValues>) {
    let (after, step) = poll_step(seen, ReadingValues::Image(board.image));
    match step {
        PollValues::Emit(change) => (after, Some(change)),
        _ => poll_text(after, board),
    }
}

/// A whole poll of a clipboard that can be read: the tracker after it, and the
/// change that it emits.
pub open spec fn poll(seen: Seen, board: Board) -> (Seen, Option<ChangeValues>) {
    let (after, step) = poll_step(seen, ReadingValues::Files(board.files));
    match step {
        PollValues::Emit(change) => (after, Some(change)),
        _ => poll_image(after, board),
    }
}

/// What is on the clipboard once `change` is written: its own kind of content
/// is `change`, and the others are what `before` holds, or gone.
pub open spec fn shows(board: Board, before: Seen, change: ChangeValues) -> bool {
    let after = noted(before, change);
    &&& board.files is None || board.files == after.files
    &&& board.image is None || board.image == after.image
    &&& board.text is None || board.text == after.text
}

/// Echo suppression: what was applied to the clipboard is not emitted again by
/// a poll that finds it there.
pub proof fn law_applied_change_is_not_echoed(seen: Seen, change: ChangeValues, board: Board)
    requires
        shows(board, seen, change),
    ensures
        poll(noted(seen, change), board).1 is None,
{
}

/// A poll emits a value only where it was not the last of its kind to be seen,
/// and then remembers it: the same value is not emitted by the next poll.
pub proof fn law_change_is_emitted_once(seen: Seen, board: Board)
    ensures
        poll(seen, board).1 matches Some(change) ==> {
            &&& noted(seen, change) != seen
            &&& poll(seen, board).0 == noted(seen, change)
            &&& poll(poll(seen, board).0, board).1 != Some(change)
        },
{
    if let Some(change) = poll(seen, board).1 {
        match change {
            ChangeValues::Text(text) => assert(noted(seen, change).text != seen.text),
            ChangeValues::Image(image) => assert(noted(seen, change).image != seen.image),
            ChangeValues::Files(paths) => assert(noted(seen, change).files != seen.files),
        }
    }
}

/// A clipboard that does not change falls quiet after three polls, one for each
/// kind of content.
pub proof fn law_unchanged_clipboard_falls_quiet(seen: Seen, board: Board)
    ensures
        ({
            let third = poll(poll(poll(seen, board).0, board).0, board).0;
            poll(third, board).1 is None
        }),
{
}

/// Where several kinds of content are new, files go first, then the image, then
/// the text.
pub proof fn law_files_before_image_before_text(seen: Seen, board: Board)
    ensures
        board.files matches Some(paths) && paths.len() > 0 && seen.files != Some(paths) ==> poll(
            seen,
            board,
        ).1 == Some(ChangeValues::Files(board.files->0)),
        (board.files is None || board.files == seen.files || board.files->0.len() == 0)
            && board.image is Some && seen.image != board.image ==> poll(seen, board).1 == Some(
            ChangeValues::Image(board.image->0),
        ),
{
}

/// Seeing one kind of content leaves what is known of the others alone.
pub proof fn law_kinds_are_tracked_apart(seen: Seen, change: ChangeValues)
    ensures
        change is Text ==> noted(seen, change).image == seen.image && noted(seen, change).files
            == seen.files,
        change is Image ==> noted(seen, change).text == seen.text && noted(seen, change).files
            == seen.files,
        change is Files ==> noted(seen, change).text == seen.text && noted(seen, change).image
            == seen.image,
{
}

/// A text that was cleared from the clipboard is new when it is copied again,
/// while an image that was gone for a while is not.
pub proof fn law_cleared_text_is_new_again(seen: Seen, text: Seq<char>, image: ImageValues)
    ensures
        ({
            let gone = Board { files: None, image: None, text: None };
            let cleared = poll(seen, gone).0;
            &&& poll(cleared, Board { text: Some(text), ..gone }).1 == Some(
                ChangeValues::Text(text),
            )
            &&& seen.image == Some(image) ==> poll(
                cleared,
                Board { image: Some(image), ..gone },
            ).1 is None
        }),
{
}

/// Only a poll that falls due sets the time of the next one: neither requests
/// nor changes put it off.
pub proof fn law_only_polls_move_the_schedule(state: LoopState, event: EventValues)
    ensures
        loop_step(state, event).0.period == state.period,
        !(event is TimedOut) ==> loop_step(state, event).0.next_poll == state.next_poll,
        event matches EventValues::TimedOut { now } ==> (now + state.period <= u128::MAX
            ==> loop_step(state, event).0.next_poll == now + state.period),
{
}

/// The loop ends exactly where nobody can send requests or take changes any
/// more.
pub proof fn law_loop_ends_only_unheard(state: LoopState, event: EventValues)
    ensures
        loop_step(state, event).1 is Exit <==> event is Disconnected || event is SendClosed,
{
}

/// A text is emitted exactly where it differs from the last one seen, in
/// whatever way it differs; then it is the last one seen. No other kind of
/// content is touched.
pub proof fn law_text_is_emitted_where_it_differs(seen: Seen, text: Seq<char>)
    ensures
        ({
            let (after, step) = poll_step(seen, ReadingValues::Text(Some(text)));
            &&& seen.text != Some(text) ==> step == PollValues::Emit(ChangeValues::Text(text))
            &&& seen.text == Some(text) ==> step == PollValues::Quiet
            &&& after.text == Some(text)
            &&& after.image == seen.image
            &&& after.files == seen.files
        }),
{
}

/// An image is emitted exactly where it differs from the last one seen, by a
/// side or by a byte; then it is the last one seen. Where it is known, the text
/// is read next.
pub proof fn law_image_is_emitted_where_it_differs(seen: Seen, image: ImageValues)
    ensures
        ({
            let (after, step) = poll_step(seen, ReadingValues::Image(Some(image)));
            &&& seen.image != Some(image) ==> step == PollValues::Emit(ChangeValues::Image(image))
            &&& seen.image == Some(image) ==> step == PollValues::ReadText
            &&& after.image == Some(image)
            &&& after.text == seen.text
            &&& after.files == seen.files
        }),
{
}

/// A list of files is emitted exactly where it is not empty and differs from the
/// last one seen; then it is the last one seen. Where there is nothing new, the
/// image is read next.
pub proof fn law_files_are_emitted_where_they_differ(seen: Seen, paths: Seq<Seq<Seq<u8>>>)
    ensures
        ({
            let (after, step) = poll_step(seen, ReadingValues::Files(Some(paths)));
            let new = paths.len() > 0 && seen.files != Some(paths);
            &&& new ==> step == PollValues::Emit(ChangeValues::Files(paths)) && after.files == Some(
                paths,
            )
            &&& !new ==> step == PollValues::ReadImage && after.files == seen.files
            &&& after.text == seen.text
            &&& after.image == seen.image
        }),
{
}

/// What is not there is not emitted: without files the image is read, without an
/// image the text, and without text the poll is over. Only a text that is gone
/// is forgotten; a read that failed changes nothing.
pub proof fn law_missing_content_is_not_emitted(seen: Seen)
    ensures
        poll_step(seen, ReadingValues::Files(None)) == (seen, PollValues::ReadImage),
        poll_step(seen, ReadingValues::Image(None)) == (seen, PollValues::ReadText),
        poll_step(seen, ReadingValues::TextFailed) == (seen, PollValues::Quiet),
        ({
            let (after, step) = poll_step(seen, ReadingValues::Text(None));
            &&& step == PollValues::Quiet
            &&& after.text is None
            &&& after.image == seen.image
            &&& after.files == seen.files
        }),
{
}

/// A whole poll emits the files where they are new, else the image where that is
/// new, else the text where that is new, else nothing.
pub proof fn law_poll_emits_the_first_new_content(seen: Seen, board: Board)
    ensures
        ({
            let files_new = board.files is Some && board.files->0.len() > 0 && seen.files
                != board.files;
            let image_new = board.image is Some && seen.image != board.image;
            let text_new = board.text is Some && seen.text != board.text;
            let emitted = poll(seen, board).1;
            &&& files_new ==> emitted == Some(ChangeValues::Files(board.files->0))
            &&& !files_new && image_new ==> emitted == Some(ChangeValues::Image(board.image->0))
            &&& !files_new && !image_new && text_new ==> emitted == Some(
                ChangeValues::Text(board.text->0),
            )
            &&& !files_new && !image_new && !text_new ==> emitted is None
        }),
{
}

/// What was applied is the last of its kind to be seen, and nothing else
/// changes.
pub proof fn law_noting_sets_one_kind(
    seen: Seen,
    text: Seq<char>,
    image: ImageValues,
    paths: Seq<Seq<Seq<u8>>>,
)
    ensures
        noted(seen, ChangeValues::Text(text)) == (Seen { text: Some(text), ..seen }),
        noted(seen, ChangeValues::Image(image)) == (Seen { image: Some(image), ..seen }),
        noted(seen, ChangeValues::Files(paths)) == (Seen { files: Some(paths), ..seen }),
        nothing_seen().text is None,
        nothing_seen().image is None,
        nothing_seen().files is None,
{
}

/// The loop applies every request and reports back to the trackers only what was
/// written.
pub proof fn law_loop_applies_requests(state: LoopState, change: ChangeValues)
    ensures
        loop_step(state, EventValues::Request(change)) == (state, ActionValues::Apply(change)),
        loop_step(state, EventValues::Applied { change, written: false }) == (
            state,
            ActionValues::Wait,
        ),
        loop_step(state, EventValues::Applied { change, written: true }) == (
            LoopState { seen: noted(state.seen, change), ..state },
            ActionValues::Wait,
        ),
{
}

/// A poll that falls due begins with the files, and what it emits is handed on:
/// where there is no room, the change is dropped and the loop goes on.
pub proof fn law_loop_hands_on_what_polls_emit(
    state: LoopState,
    now: u128,
    reading: ReadingValues,
)
    ensures
        loop_step(state, EventValues::TimedOut { now }).1 == ActionValues::ReadFiles,
        loop_step(state, EventValues::TimedOut { now }).0.seen == state.seen,
        loop_step(state, EventValues::Read(reading)).0.seen == poll_step(state.seen, reading).0,
        match poll_step(state.seen, reading).1 {
            PollValues::Emit(change) => loop_step(state, EventValues::Read(reading)).1
                == ActionValues::Emit(change),
            PollValues::ReadImage => loop_step(state, EventValues::Read(reading)).1
                == ActionValues::ReadImage,
            PollValues::ReadText => loop_step(state, EventValues::Read(reading)).1
                == ActionValues::ReadText,
            PollValues::Quiet => loop_step(state, EventValues::Read(reading)).1
                == ActionValues::Wait,
        },
        loop_step(state, EventValues::Sent) == (state, ActionValues::Wait),
        loop_step(state, EventValues::SendFull) == (state, ActionValues::Wait),
{
}

/// A millisecond is a million nanoseconds.
pub proof fn law_nanoseconds(ms: u64)
    ensures
        nanos(ms) == ms * 1_000_000,
{
}

/// The values of an image are its sides and its bytes, so that two images with
/// the same values are the same image. An image from the clipboard whose sides
/// fit keeps them.
pub proof fn law_image_is_its_sides_and_bytes(image: ImageBytes, raw: RawImage)
    ensures
        image@.width == image.width,
        image@.height == image.height,
        image@.rgba == image.rgba@,
        raw.width <= u32::MAX ==> narrowed(raw).width == raw.width,
        raw.height <= u32::MAX ==> narrowed(raw).height == raw.height,
        narrowed(raw).width == raw.width as u32,
        narrowed(raw).height == raw.height as u32,
        narrowed(raw).rgba == raw.rgba@,
{
}

/// The values of a change are its own, whichever kind it is.
pub proof fn law_change_is_its_content(text: String, image: ImageBytes, paths: Vec<LocalPath>)
    ensures
        ClipChange::Text(text)@ == ChangeValues::Text(text@),
        ClipChange::Image(image)@ == ChangeValues::Image(image@),
        ClipChange::Files(paths)@ == ChangeValues::Files(path_list(paths@)),
{
}

/// The values of a reading are what was read.
pub proof fn law_reading_is_what_was_read(paths: Vec<LocalPath>, image: RawImage, text: String)
    ensures
        Reading::Files(Some(paths))@ == ReadingValues::Files(Some(path_list(paths@))),
        Reading::Files(None)@ == ReadingValues::Files(None),
        Reading::Image(Some(image))@ == ReadingValues::Image(Some(narrowed(image))),
        Reading::Image(None)@ == ReadingValues::Image(None),
        Reading::Text(TextReading::Text(text))@ == ReadingValues::Text(Some(text@)),
        Reading::Text(TextReading::Unavailable)@ == ReadingValues::Text(None),
        Reading::Text(TextReading::Failed)@ == ReadingValues::TextFailed,
{
}

/// The values of a step of a poll are the step's own.
pub proof fn law_poll_step_is_its_values(step: PollStep)
    ensures
        match step {
            PollStep::Emit(change) => step@ == PollValues::Emit(change@),
            PollStep::ReadImage => step@ == PollValues::ReadImage,
            PollStep::ReadText => step@ == PollValues::ReadText,
            PollStep::Quiet => step@ == PollValues::Quiet,
        },
{
}

/// The values of an action of the loop are the action's own.
pub proof fn law_loop_action_is_its_values(action: LoopAction)
    ensures
        match action {
            LoopAction::Wait => action@ == ActionValues::Wait,
            LoopAction::Apply(change) => action@ == ActionValues::Apply(change@),
            LoopAction::ReadFiles => action@ == ActionValues::ReadFiles,
            LoopAction::ReadImage => action@ == ActionValues::ReadImage,
            LoopAction::ReadText => action@ == ActionValues::ReadText,
            LoopAction::Emit(change) => action@ == ActionValues::Emit(change@),
            LoopAction::Exit => action@ == ActionValues::Exit,
        },
{
}

/// The values of an event are the event's own.
pub proof fn law_loop_event_is_its_values(event: LoopEvent)
    ensures
        match event {
            LoopEvent::Request(change) => event@ == EventValues::Request(change@),
            LoopEvent::TimedOut { now } => event@ == (EventValues::TimedOut { now }),
            LoopEvent::Disconnected => event@ == EventValues::Disconnected,
            LoopEvent::Applied { change, written } => event@ == (EventValues::Applied {
                change: change@,
                written,
            }),
            LoopEvent::Read(reading) => event@ == EventValues::Read(reading@),
            LoopEvent::Sent => event@ == EventValues::Sent,
            LoopEvent::SendFull => event@ == EventValues::SendFull,
            LoopEvent::SendClosed => event@ == EventValues::SendClosed,
        },
{
}

} // verus!
