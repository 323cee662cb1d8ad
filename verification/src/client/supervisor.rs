//! The supervisor: bridges clipboard changes and transport frames.
//!
//! [`Supervisor`] takes the decisions of the bridge: it is told what happened
//! and answers what is to be done next.
//!
//! Received files are batched. Where a sender copies several files at once,
//! their chunks arrive interleaved and each file completes at a moment of its
//! own. Without grouping, the clipboard would only ever hold the last finished
//! file. So completed paths are collected, a deadline is set
//! [`RECEIVE_BATCH_WINDOW_MS`] after each completion, and the whole list is
//! applied when the deadline passes without another arrival.
use crate::client::clipboard::{ChangeValues, ClipChange};
use crate::client::frame::{
    change_of, change_to_frame_if_fits, encodable, encoded, frame_to_change, survives_the_wire,
    FrameRejection, Refusal,
};
use crate::client::png::EncodeError;
use crate::ident::random_uuid;
use crate::path::{path_list, LocalPath};
use crate::protocol::{clip_problem, ClipFrame, FileChunkFrame};
use vstd::prelude::*;

verus! {

/// How long to wait for additional file completions before applying the batch
/// to the local clipboard: invisible to someone who copied a single file, while
/// several files copied at once end up in one clipboard set even on slow
/// networks.
pub const RECEIVE_BATCH_WINDOW_MS: u64 = 500;

/// The batch window in nanoseconds.
pub open spec fn batch_window() -> int {
    RECEIVE_BATCH_WINDOW_MS * 1_000_000
}

/// What happened since the supervisor's last action. Times are in nanoseconds.
#[derive(Debug)]
pub enum SupervisorEvent {
    /// The local clipboard changed.
    Local(ClipChange),
    /// The clipboard reports no more changes.
    LocalClosed,
    /// A clip arrived.
    Remote(ClipFrame),
    /// No more clips will arrive.
    RemoteClosed,
    /// A file chunk arrived.
    Chunk(FileChunkFrame),
    /// No more file chunks will arrive.
    ChunksClosed,
    /// The chunk completed a file, which was saved at `path`.
    Saved { path: LocalPath, now: u128 },
    /// The deadline for the batch passed.
    Deadline,
    /// The clipboard no longer takes the change of an inbound clip.
    ApplyFailed,
    /// The clipboard no longer takes a batch of files.
    BatchFailed,
}

/// What the supervisor does next.
#[derive(Debug)]
pub enum SupervisorAction {
    /// Wait for the next event.
    Wait,
    /// Hand a frame to the transport, and drop it where there is no room.
    Send(ClipFrame),
    /// Send each of these files in chunks; one that fails does not keep the
    /// others back.
    SendFiles(Vec<LocalPath>),
    /// Drop a local change that could not be encoded.
    DropLocal(EncodeError),
    /// Drop a local image whose frame would not fit in memory.
    DropOversized,
    /// Write an inbound change to the local clipboard.
    Apply(ClipChange),
    /// Ignore an inbound clip.
    Ignore(FrameRejection),
    /// Hand a chunk to the file receiver.
    Receive(FileChunkFrame),
    /// Write a batch of received files to the local clipboard.
    ApplyBatch(Vec<LocalPath>),
    /// The supervisor is done.
    Exit,
}

/// The supervisor between two events.
pub struct Supervisor {
    receives_files: bool,
    chunks_open: bool,
    pending_files: Vec<LocalPath>,
    deadline: Option<u128>,
}

/// The supervisor, by its values.
#[verifier::ext_equal]
pub struct SupervisorState {
    /// Whether there is a file receiver.
    pub receives_files: bool,
    /// Whether file chunks can still arrive.
    pub chunks_open: bool,
    /// The files that completed since the last batch, in that order.
    pub pending_files: Seq<Seq<Seq<u8>>>,
    /// When the batch is due.
    pub deadline: Option<u128>,
}

impl View for Supervisor {
    type V = SupervisorState;

    closed spec fn view(&self) -> SupervisorState {
        SupervisorState {
            receives_files: self.receives_files,
            chunks_open: self.chunks_open,
            pending_files: path_list(self.pending_files@),
            deadline: self.deadline,
        }
    }
}

/// A deadline is set exactly while files are pending.
pub open spec fn batching(state: SupervisorState) -> bool {
    state.deadline is Some <==> state.pending_files.len() > 0
}

/// The supervisor after an event.
pub open spec fn state_after(state: SupervisorState, event: SupervisorEvent) -> SupervisorState {
    match event {
        SupervisorEvent::ChunksClosed => SupervisorState { chunks_open: false, ..state },
        SupervisorEvent::Saved { path, now } => SupervisorState {
            pending_files: state.pending_files.push(path@),
            deadline: Some((now + batch_window()) as u128),
            ..state
        },
        SupervisorEvent::Deadline => SupervisorState {
            pending_files: Seq::empty(),
            deadline: None,
            ..state
        },
        _ => state,
    }
}

/// Whether `action` answers a local change: a list of files is sent in chunks,
/// any other change becomes a frame where it can be encoded.
pub open spec fn answers_local(change: ChangeValues, action: SupervisorAction) -> bool {
    match change {
        ChangeValues::Files(paths) => action matches SupervisorAction::SendFiles(list) && path_list(
            list@,
        ) == paths,
        _ => if !encodable(change) {
            action is DropOversized
        } else {
            match action {
                SupervisorAction::Send(frame) => {
                    &&& encoded(change, Ok(frame))
                    &&& random_uuid(frame.id.bits)
                    &&& clip_problem(frame) is None
                    &&& survives_the_wire(change) ==> change_of(frame) == Ok::<
                        ChangeValues,
                        Refusal,
                    >(change)
                },
                SupervisorAction::DropLocal(e) => {
                    &&& encoded(change, Err(e))
                    &&& !survives_the_wire(change)
                },
                _ => false,
            }
        },
    }
}

/// Whether `action` answers `event`.
pub open spec fn answers(
    state: SupervisorState,
    event: SupervisorEvent,
    action: SupervisorAction,
) -> bool {
    match event {
        SupervisorEvent::Local(change) => answers_local(change@, action),
        SupervisorEvent::LocalClosed => action is Exit,
        SupervisorEvent::Remote(frame) => match change_of(frame) {
            Ok(change) => action matches SupervisorAction::Apply(applied) && applied@ == change,
            Err(refusal) => action matches SupervisorAction::Ignore(e) && e@ == refusal,
        },
        SupervisorEvent::RemoteClosed => action is Exit,
        SupervisorEvent::Chunk(chunk) => if state.receives_files {
            action == SupervisorAction::Receive(chunk)
        } else {
            action is Wait
        },
        SupervisorEvent::ChunksClosed => action is Wait,
        SupervisorEvent::Saved { .. } => action is Wait,
        SupervisorEvent::Deadline => if state.pending_files.len() > 0 {
            action matches SupervisorAction::ApplyBatch(batch) && path_list(batch@)
                == state.pending_files
        } else {
            action is Wait
        },
        SupervisorEvent::ApplyFailed => action is Exit,
        SupervisorEvent::BatchFailed => action is Wait,
    }
}

impl Supervisor {
    /// A supervisor with or without a file receiver, and with or without a
    /// channel on which file chunks arrive.
    pub fn new(receives_files: bool, chunks_open: bool) -> (r: Self)
        ensures
            r@ == (SupervisorState {
                receives_files,
                chunks_open,
                pending_files: Seq::empty(),
                deadline: None,
            }),
            batching(r@),
    {
        let r = Supervisor {
            receives_files,
            chunks_open,
            pending_files: Vec::new(),
            deadline: None,
        };
        assert(r@.pending_files =~= Seq::<Seq<Seq<u8>>>::empty());
        r
    }

    /// Whether file chunks can still arrive: once their channel is closed, it
    /// goes quiet while everything else goes on.
    pub fn chunks_open(&self) -> (r: bool)
        ensures
            r == self@.chunks_open,
    {
        self.chunks_open
    }

    /// When the batch of received files is due, if any are pending.
    pub fn deadline(&self) -> (r: Option<u128>)
        ensures
            r == self@.deadline,
    {
        self.deadline
    }

    /// Takes what happened and says what to do next.
    pub fn on_event(&mut self, event: SupervisorEvent) -> (r: SupervisorAction)
        requires
            batching(old(self)@),
            event matches SupervisorEvent::Saved { now, .. } ==> now + batch_window() <= u128::MAX,
        ensures
            batching(final(self)@),
            final(self)@ == state_after(old(self)@, event),
            answers(old(self)@, event, r),
    {
        match event {
            SupervisorEvent::Local(change) => match change {
                ClipChange::Files(paths) => SupervisorAction::SendFiles(paths),
                change => match change_to_frame_if_fits(change) {
                    Some(Ok(frame)) => SupervisorAction::Send(frame),
                    Some(Err(e)) => SupervisorAction::DropLocal(e),
                    None => SupervisorAction::DropOversized,
                },
            },
            SupervisorEvent::LocalClosed => SupervisorAction::Exit,
            SupervisorEvent::Remote(frame) => match frame_to_change(&frame) {
                Ok(change) => SupervisorAction::Apply(change),
                Err(e) => SupervisorAction::Ignore(e),
            },
            SupervisorEvent::RemoteClosed => SupervisorAction::Exit,
            SupervisorEvent::Chunk(chunk) => {
                if self.receives_files {
                    SupervisorAction::Receive(chunk)
                } else {
                    SupervisorAction::Wait
                }
            },
            SupervisorEvent::ChunksClosed => {
                self.chunks_open = false;
                SupervisorAction::Wait
            },
            SupervisorEvent::Saved { path, now } => {
                self.pending_files.push(path);
                self.deadline = Some(now + RECEIVE_BATCH_WINDOW_MS as u128 * 1_000_000);
                assert(self@.pending_files =~= old(self)@.pending_files.push(path@));
                SupervisorAction::Wait
            },
            SupervisorEvent::Deadline => {
                self.deadline = None;
                let mut batch: Vec<LocalPath> = Vec::new();
                std::mem::swap(&mut batch, &mut self.pending_files);
                assert(self@.pending_files =~= Seq::<Seq<Seq<u8>>>::empty());
                if batch.len() > 0 {
                    SupervisorAction::ApplyBatch(batch)
                } else {
                    SupervisorAction::Wait
                }
            },
            SupervisorEvent::ApplyFailed => SupervisorAction::Exit,
            SupervisorEvent::BatchFailed => SupervisorAction::Wait,
        }
    }
}

/// The supervisor after events one after the other.
pub open spec fn state_after_all(
    state: SupervisorState,
    events: Seq<SupervisorEvent>,
) -> SupervisorState
    decreases events.len(),
{
    if events.len() == 0 {
        state
    } else {
        state_after(state_after_all(state, events.drop_last()), events.last())
    }
}

/// The files that `events` report as saved, in that order.
pub open spec fn saved_files(events: Seq<SupervisorEvent>) -> Seq<Seq<Seq<u8>>>
    decreases events.len(),
{
    if events.len() == 0 {
        Seq::empty()
    } else {
        let before = saved_files(events.drop_last());
        match events.last() {
            SupervisorEvent::Saved { path, .. } => before.push(path@),
            _ => before,
        }
    }
}

/// Received files are applied together: whatever else happens meanwhile, the
/// batch that is applied when the deadline passes holds every file that
/// completed since the batch before, in the order of completion, and nothing
/// else.
pub proof fn law_batch_holds_every_saved_file(
    state: SupervisorState,
    events: Seq<SupervisorEvent>,
    action: SupervisorAction,
)
    requires
        state.pending_files.len() == 0,
        forall|k: int| 0 <= k < events.len() ==> !((#[trigger] events[k]) is Deadline),
        answers(state_after_all(state, events), SupervisorEvent::Deadline, action),
    ensures
        state_after_all(state, events).pending_files == saved_files(events),
        saved_files(events).len() > 0 ==> {
            &&& action matches SupervisorAction::ApplyBatch(batch)
            &&& path_list(batch@) == saved_files(events)
        },
        saved_files(events).len() == 0 ==> action is Wait,
        state_after(
            state_after_all(state, events),
            SupervisorEvent::Deadline,
        ).pending_files.len() == 0,
{
    lemma_pending(state, events);
}

proof fn lemma_pending(state: SupervisorState, events: Seq<SupervisorEvent>)
    requires
        state.pending_files.len() == 0,
        forall|k: int| 0 <= k < events.len() ==> !((#[trigger] events[k]) is Deadline),
    ensures
        state_after_all(state, events).pending_files == saved_files(events),
    decreases events.len(),
{
    if events.len() > 0 {
        let front = events.drop_last();
        assert forall|k: int| 0 <= k < front.len() implies !((#[trigger] front[k]) is Deadline) by {
            assert(front[k] == events[k]);
        }
        lemma_pending(state, front);
    }
}

/// The batch is due one window after the last completion: every completion
/// puts it off, and no other event but the deadline itself moves it.
pub proof fn law_deadline_follows_last_completion(state: SupervisorState, event: SupervisorEvent)
    ensures
        event matches SupervisorEvent::Saved { now, .. } ==> (now + batch_window() <= u128::MAX
            ==> state_after(state, event).deadline == Some((now + batch_window()) as u128)),
        !(event is Saved) && !(event is Deadline) ==> state_after(state, event).deadline
            == state.deadline && state_after(state, event).pending_files == state.pending_files,
{
}

/// The supervisor ends only where the clipboard or the transport is gone: a
/// clip that cannot be encoded or decoded, a file that cannot be received and a
/// closed file channel do not end it.
pub proof fn law_only_lost_peers_end_supervisor(
    state: SupervisorState,
    event: SupervisorEvent,
    action: SupervisorAction,
)
    requires
        answers(state, event, action),
    ensures
        action is Exit <==> event is LocalClosed || event is RemoteClosed || event is ApplyFailed,
{
}

/// Every inbound frame that stands for a change, of whatever kind, is answered
/// by writing exactly that change to the clipboard; every other is ignored, for
/// its own reason.
pub proof fn law_inbound_change_is_applied(
    state: SupervisorState,
    frame: ClipFrame,
    action: SupervisorAction,
)
    requires
        answers(state, SupervisorEvent::Remote(frame), action),
    ensures
        change_of(frame) is Ok ==> action is Apply && action->Apply_0@ == change_of(frame)->Ok_0,
        change_of(frame) is Err ==> action is Ignore && action->Ignore_0@ == change_of(
            frame,
        )->Err_0,
{
}

/// A local change that survives the wire becomes a frame wherever it fits in
/// memory, and that frame, as the hub relays it, has the other side write the
/// same change to its clipboard.
pub proof fn law_change_reaches_the_other_side(
    here: SupervisorState,
    there: SupervisorState,
    change: ClipChange,
    sent: SupervisorAction,
    from: Option<crate::ident::Uuid>,
    answer: SupervisorAction,
)
    requires
        survives_the_wire(change@),
        encodable(change@),
        answers(here, SupervisorEvent::Local(change), sent),
        sent is Send ==> answers(
            there,
            SupervisorEvent::Remote(ClipFrame { from, ..sent->Send_0 }),
            answer,
        ),
    ensures
        sent is Send,
        clip_problem(sent->Send_0) is None,
        random_uuid(sent->Send_0.id.bits),
        answer is Apply,
        answer->Apply_0@ == change@,
{
    crate::client::frame::law_relay_keeps_change(sent->Send_0, from);
}

/// A local change is sent where it can be encoded, dropped with the encoder's
/// error where it cannot, and dropped as too large where its frame would not fit
/// in memory; a list of files goes out whole and in order.
pub proof fn law_local_change_is_sent_or_accounted_for(
    state: SupervisorState,
    change: ClipChange,
    action: SupervisorAction,
)
    requires
        answers(state, SupervisorEvent::Local(change), action),
    ensures
        change@ is Files ==> action is SendFiles && path_list(action->SendFiles_0@)
            == change@->Files_0,
        !(change@ is Files) && !encodable(change@) ==> action is DropOversized,
        !(change@ is Files) && encodable(change@) ==> action is Send || action is DropLocal,
        action is Send ==> encoded(change@, Ok(action->Send_0)) && clip_problem(action->Send_0)
            is None && random_uuid(action->Send_0.id.bits),
        action is DropLocal ==> encoded(change@, Err(action->DropLocal_0)),
        change@ is Text ==> action is Send,
{
    if change@ is Text {
        crate::client::frame::law_text_becomes_its_frame(
            change@->Text_0,
            Seq::empty(),
            if action is DropLocal {
                Err(action->DropLocal_0)
            } else {
                Ok(action->Send_0)
            },
        );
    }
}

/// A chunk goes to the file receiver, unchanged, wherever there is one, and is
/// dropped where there is none.
pub proof fn law_chunk_goes_to_the_receiver(
    state: SupervisorState,
    chunk: FileChunkFrame,
    action: SupervisorAction,
)
    requires
        answers(state, SupervisorEvent::Chunk(chunk), action),
    ensures
        state.receives_files ==> action is Receive && action->Receive_0 == chunk,
        !state.receives_files ==> action is Wait,
{
}

/// The deadline applies exactly the files that are pending, and only then; a
/// file that completes, a channel that closes and a batch that fails ask for
/// nothing.
pub proof fn law_deadline_applies_the_pending_files(
    state: SupervisorState,
    event: SupervisorEvent,
    action: SupervisorAction,
)
    requires
        answers(state, event, action),
    ensures
        action is ApplyBatch <==> event is Deadline && state.pending_files.len() > 0,
        action is ApplyBatch ==> path_list(action->ApplyBatch_0@) == state.pending_files,
        event is Saved || event is ChunksClosed || event is BatchFailed ==> action is Wait,
{
}

/// A file that completes joins the pending ones, behind them; the deadline clears
/// them; a closed channel stays closed; and nothing else changes the supervisor.
pub proof fn law_events_change_only_their_part(state: SupervisorState, event: SupervisorEvent)
    ensures
        ({
            let after = state_after(state, event);
            &&& after.receives_files == state.receives_files
            &&& after.chunks_open == (state.chunks_open && !(event is ChunksClosed))
            &&& event is Saved ==> after.pending_files == state.pending_files.push(
                event->Saved_path@,
            )
            &&& event is Deadline ==> after.pending_files.len() == 0 && after.deadline is None
            &&& !(event is Saved) && !(event is Deadline) ==> after.pending_files
                == state.pending_files && after.deadline == state.deadline
        }),
        batch_window() == 500_000_000,
{
}

} // verus!
