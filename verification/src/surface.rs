//! Shared device surface state for resident-agent controls.
//!
//! Turn events describe the agent's work while audio callbacks describe the
//! platform-owned recording and playback lifecycle. Both inputs update one
//! operation-scoped, revisioned snapshot. Every committed change of the
//! snapshot bumps its revision and is queued as a `StateChanged` event that
//! the host broadcasts to every surface.

use vstd::prelude::*;
use crate::session::TurnEvent;
use crate::text::{string_of, str_eq, append_str};

verus! {

#[derive(Debug, Clone, Copy, PartialEq, Eq, Structural)]
pub enum StateScope {
    User,
    Session,
    Device,
    Ephemeral,
}

#[derive(Debug, Clone, Copy, PartialEq, Eq, Structural)]
pub enum SurfaceState {
    Idle,
    Listening,
    Transcribing,
    Thinking,
    WaitingForUser,
    WaitingForApproval,
    Speaking,
    Error,
}

/// A revisioned snapshot of the surface state.
#[derive(Debug, Clone, PartialEq, Eq)]
pub struct SurfaceSnapshot {
    pub scope: StateScope,
    pub state: SurfaceState,
    pub revision: u64,
    /// Identifies the current device-local turn or audio operation.
    pub operation_id: Option<u64>,
    pub error: Option<String>,
}

#[derive(Debug, Clone, Copy, PartialEq, Eq, Structural)]
pub enum AudioCallback {
    Listening,
    Transcribing,
    Speaking,
    PlaybackFinished,
}

#[derive(Debug, Clone, Copy, PartialEq, Eq, Structural)]
pub enum SurfaceCommand {
    ConfirmRecording,
    OpenPanel,
    StopTts,
    OpenApproval,
    ShowRecovery,
}

/// Answer to a surface command.
#[derive(Debug, Clone)]
pub struct SurfaceCommandResponse {
    pub command: SurfaceCommand,
    pub accepted: bool,
    pub reason: Option<String>,
    pub snapshot: SurfaceSnapshot,
}

/// An event broadcast to every surface.
#[derive(Debug, Clone)]
pub enum SurfaceEvent {
    Snapshot(SurfaceSnapshot),
    StateChanged(SurfaceSnapshot),
}

/// Mathematical value of a snapshot.
#[verifier::ext_equal]
pub struct SnapshotView {
    pub scope: StateScope,
    pub state: SurfaceState,
    pub revision: u64,
    pub operation_id: Option<u64>,
    pub error: Option<Seq<char>>,
}

pub open spec fn opt_text(o: Option<String>) -> Option<Seq<char>> {
    match o {
        Some(s) => Some(s@),
        None => None,
    }
}

impl Default for SurfaceSnapshot {
    fn default() -> (s: Self)
        ensures
            s.view_of() == initial_snapshot(),
    {
        SurfaceSnapshot::initial()
    }
}

impl SurfaceSnapshot {
    pub open spec fn view_of(self) -> SnapshotView {
        SnapshotView {
            scope: self.scope,
            state: self.state,
            revision: self.revision,
            operation_id: self.operation_id,
            error: opt_text(self.error),
        }
    }

    /// The initial snapshot: device scope, idle, revision 0, no operation.
    pub fn initial() -> (s: Self)
        ensures
            s.view_of() == initial_snapshot(),
    {
        SurfaceSnapshot {
            scope: StateScope::Device,
            state: SurfaceState::Idle,
            revision: 0,
            operation_id: None,
            error: None,
        }
    }

    /// An independent copy.
    pub fn duplicate(&self) -> (s: Self)
        ensures
            s.view_of() == self.view_of(),
    {
        let error = match &self.error {
            Some(e) => Some(e.clone()),
            None => None,
        };
        SurfaceSnapshot {
            scope: self.scope,
            state: self.state,
            revision: self.revision,
            operation_id: self.operation_id,
            error,
        }
    }
}

pub open spec fn initial_snapshot() -> SnapshotView {
    SnapshotView {
        scope: StateScope::Device,
        state: SurfaceState::Idle,
        revision: 0,
        operation_id: None,
        error: None,
    }
}

fn snapshot_eq(a: &SurfaceSnapshot, b: &SurfaceSnapshot) -> (r: bool)
    ensures
        r == (a.view_of() == b.view_of()),
{
    let err_eq = match (&a.error, &b.error) {
        (None, None) => true,
        (Some(x), Some(y)) => *x == *y,
        _ => false,
    };
    let r = a.scope == b.scope && a.state == b.state && a.revision == b.revision
        && a.operation_id == b.operation_id && err_eq;
    proof {
        if r {
            assert(a.view_of() =~= b.view_of());
        }
    }
    r
}

/// Mathematical value of the whole machine.
#[verifier::ext_equal]
pub struct MachineView {
    pub snap: SnapshotView,
    pub owner: Option<Seq<char>>,
    pub active: bool,
    pub turn_done: bool,
    pub next_operation_id: u64,
    /// Committed snapshots not yet handed to the broadcaster, oldest first.
    pub outbox: Seq<SnapshotView>,
}

pub open spec fn sat_inc(x: u64) -> u64 {
    if x == u64::MAX { x } else { (x + 1) as u64 }
}

/// Commit the changes made since `before`: a changed snapshot gets the next
/// revision and is queued for broadcast; an unchanged one is left alone.
pub open spec fn commit(before: SnapshotView, m: MachineView) -> MachineView {
    if m.snap == before {
        m
    } else {
        let s = SnapshotView { revision: sat_inc(before.revision), ..m.snap };
        MachineView { snap: s, outbox: m.outbox.push(s), ..m }
    }
}

/// A state update applied to the operation that owns the surface.
pub enum Update {
    /// Finish the operation: idle, inactive, no owner.
    Finish,
    /// Wait for the user to approve changes.
    WaitingForApproval,
    /// The agent is thinking, unless audio is speaking.
    ThinkingUnlessSpeaking,
    /// The agent waits for a user answer.
    WaitingForUser,
    /// The turn failed with a message.
    Failed(String),
    /// The turn finished, with or without a pending approval.
    Done { approval: bool },
    /// Audio entered a recording/transcribing/speaking phase.
    Audio(SurfaceState),
    /// Audio playback finished.
    PlaybackFinished,
}

pub open spec fn set_state(m: MachineView, st: SurfaceState) -> MachineView {
    MachineView { snap: SnapshotView { state: st, error: None, ..m.snap }, ..m }
}

pub open spec fn release(m: MachineView) -> MachineView {
    MachineView { active: false, owner: None, ..m }
}

/// The machine after `u`, before committing.
pub open spec fn apply_update(m: MachineView, u: Update) -> MachineView {
    match u {
        Update::Finish => MachineView { turn_done: false, ..release(set_state(m, SurfaceState::Idle)) },
        Update::WaitingForApproval => set_state(m, SurfaceState::WaitingForApproval),
        Update::ThinkingUnlessSpeaking =>
            if m.snap.state != SurfaceState::Speaking { set_state(m, SurfaceState::Thinking) } else { m },
        Update::WaitingForUser => set_state(m, SurfaceState::WaitingForUser),
        Update::Failed(e) =>
            MachineView { snap: SnapshotView { state: SurfaceState::Error, error: Some(e@), ..m.snap }, ..m },
        Update::Done { approval } => {
            let d = MachineView { turn_done: true, ..m };
            if approval {
                set_state(d, SurfaceState::WaitingForApproval)
            } else if d.snap.state != SurfaceState::Speaking {
                release(set_state(d, SurfaceState::Idle))
            } else {
                d
            }
        },
        Update::Audio(st) => set_state(m, st),
        Update::PlaybackFinished =>
            if m.snap.state == SurfaceState::Speaking {
                let i = set_state(m, SurfaceState::Idle);
                if m.turn_done { release(i) } else { i }
            } else {
                m
            },
    }
}

/// Whether `op` is the active operation.
pub open spec fn owns(m: MachineView, op: u64) -> bool {
    m.active && m.snap.operation_id == Some(op)
}

/// Apply `u` for operation `op`; a stale or inactive operation changes
/// nothing.
pub open spec fn update_for(m: MachineView, op: u64, u: Update) -> MachineView {
    if !owns(m, op) { m } else { commit(m.snap, apply_update(m, u)) }
}

/// The update a turn event causes.
pub open spec fn turn_update(e: TurnEvent) -> Update {
    match e {
        TurnEvent::Thinking(_) => Update::ThinkingUnlessSpeaking,
        TurnEvent::Text(_) => Update::ThinkingUnlessSpeaking,
        TurnEvent::ToolCall { name, .. } =>
            if name@ == "correct_asr"@ { Update::WaitingForUser } else { Update::ThinkingUnlessSpeaking },
        TurnEvent::ToolResult { .. } => Update::ThinkingUnlessSpeaking,
        TurnEvent::Error(e) => Update::Failed(e),
        TurnEvent::Done(r) => Update::Done { approval: r.approval_request is Some },
    }
}

/// The update an audio callback causes.
pub open spec fn audio_update(c: AudioCallback) -> Update {
    match c {
        AudioCallback::Listening => Update::Audio(SurfaceState::Listening),
        AudioCallback::Transcribing => Update::Audio(SurfaceState::Transcribing),
        AudioCallback::Speaking => Update::Audio(SurfaceState::Speaking),
        AudioCallback::PlaybackFinished => Update::PlaybackFinished,
    }
}

/// Start a fresh operation in state `st` with the given owner.
pub open spec fn begin(m: MachineView, owner: Option<Seq<char>>, st: SurfaceState) -> MachineView {
    let id = sat_inc(m.next_operation_id);
    let n = MachineView {
        next_operation_id: id,
        owner: owner,
        active: true,
        turn_done: false,
        snap: SnapshotView { operation_id: Some(id), state: st, error: None, ..m.snap },
        ..m
    };
    commit(m.snap, n)
}

/// The operation to use for an event without an explicit operation: the
/// active one, or a fresh one (not committed).
pub open spec fn ensure(m: MachineView) -> MachineView {
    if m.active && m.snap.operation_id is Some {
        m
    } else {
        let id = sat_inc(m.next_operation_id);
        MachineView {
            next_operation_id: id,
            active: true,
            turn_done: false,
            owner: None,
            snap: SnapshotView { operation_id: Some(id), ..m.snap },
            ..m
        }
    }
}

/// The state in which a command is accepted.
pub open spec fn expected_state(c: SurfaceCommand) -> SurfaceState {
    match c {
        SurfaceCommand::ConfirmRecording => SurfaceState::Listening,
        SurfaceCommand::OpenPanel => SurfaceState::Thinking,
        SurfaceCommand::StopTts => SurfaceState::Speaking,
        SurfaceCommand::OpenApproval => SurfaceState::WaitingForApproval,
        SurfaceCommand::ShowRecovery => SurfaceState::Error,
    }
}

/// Whether a command addressed to `op` (or to no particular operation) is
/// accepted.
pub open spec fn command_accepted(m: MachineView, op: Option<u64>, c: SurfaceCommand) -> bool {
    &&& m.active
    &&& (op matches Some(o) ==> m.snap.operation_id == Some(o))
    &&& m.snap.state == expected_state(c)
}

/// The machine after an accepted command.
pub open spec fn command_effect(m: MachineView, c: SurfaceCommand) -> MachineView {
    let n = match c {
        SurfaceCommand::ConfirmRecording => set_state(m, SurfaceState::Transcribing),
        SurfaceCommand::StopTts => {
            let i = set_state(m, SurfaceState::Idle);
            if m.turn_done { release(i) } else { i }
        },
        _ => m,
    };
    commit(m.snap, n)
}

/// Debug name of a surface state.
pub open spec fn state_name(s: SurfaceState) -> Seq<char> {
    match s {
        SurfaceState::Idle => "Idle"@,
        SurfaceState::Listening => "Listening"@,
        SurfaceState::Transcribing => "Transcribing"@,
        SurfaceState::Thinking => "Thinking"@,
        SurfaceState::WaitingForUser => "WaitingForUser"@,
        SurfaceState::WaitingForApproval => "WaitingForApproval"@,
        SurfaceState::Speaking => "Speaking"@,
        SurfaceState::Error => "Error"@,
    }
}

fn state_name_str(s: SurfaceState) -> (r: &'static str)
    ensures
        r@ == state_name(s),
{
    match s {
        SurfaceState::Idle => "Idle",
        SurfaceState::Listening => "Listening",
        SurfaceState::Transcribing => "Transcribing",
        SurfaceState::Thinking => "Thinking",
        SurfaceState::WaitingForUser => "WaitingForUser",
        SurfaceState::WaitingForApproval => "WaitingForApproval",
        SurfaceState::Speaking => "Speaking",
        SurfaceState::Error => "Error",
    }
}

/// The operation-scoped surface state machine.
#[derive(Debug)]
pub struct SurfaceStateMachine {
    snapshot: SurfaceSnapshot,
    owner: Option<String>,
    active: bool,
    turn_done: bool,
    next_operation_id: u64,
    outbox: Vec<SurfaceSnapshot>,
}

pub open spec fn snapshots_view(v: Seq<SurfaceSnapshot>) -> Seq<SnapshotView> {
    v.map_values(|s: SurfaceSnapshot| s.view_of())
}

impl View for SurfaceStateMachine {
    type V = MachineView;

    closed spec fn view(&self) -> MachineView {
        MachineView {
            snap: self.snapshot.view_of(),
            owner: opt_text(self.owner),
            active: self.active,
            turn_done: self.turn_done,
            next_operation_id: self.next_operation_id,
            outbox: snapshots_view(self.outbox@),
        }
    }
}

/// The machine with its event queue emptied.
pub open spec fn drained(m: MachineView) -> MachineView {
    MachineView { outbox: Seq::empty(), ..m }
}

/// The machine a fresh surface starts in.
pub open spec fn initial_machine() -> MachineView {
    MachineView {
        snap: initial_snapshot(),
        owner: None,
        active: false,
        turn_done: false,
        next_operation_id: 0,
        outbox: Seq::empty(),
    }
}

impl SurfaceStateMachine {
    pub fn new() -> (m: Self)
        ensures
            m@ == initial_machine(),
    {
        let m = SurfaceStateMachine {
            snapshot: SurfaceSnapshot::initial(),
            owner: None,
            active: false,
            turn_done: false,
            next_operation_id: 0,
            outbox: Vec::new(),
        };
        assert(m@ =~= initial_machine());
        m
    }

    /// The current snapshot.
    pub fn snapshot(&self) -> (s: SurfaceSnapshot)
        ensures
            s.view_of() == self@.snap,
    {
        self.snapshot.duplicate()
    }

    /// Hand the queued `StateChanged` snapshots to the broadcaster, oldest
    /// first.
    pub fn take_events(&mut self) -> (events: Vec<SurfaceSnapshot>)
        ensures
            snapshots_view(events@) == old(self)@.outbox,
            final(self)@ == drained(old(self)@),
    {
        let mut events: Vec<SurfaceSnapshot> = Vec::new();
        std::mem::swap(&mut events, &mut self.outbox);
        assert(snapshots_view(self.outbox@) =~= Seq::<SnapshotView>::empty());
        assert(self@ =~= drained(old(self)@));
        events
    }

    /// Commit: bump the revision and queue the snapshot when it changed.
    fn commit_from(&mut self, before: &SurfaceSnapshot) -> (s: SurfaceSnapshot)
        ensures
            final(self)@ == commit(before.view_of(), old(self)@),
            s.view_of() == final(self)@.snap,
    {
        if !snapshot_eq(&self.snapshot, before) {
            self.snapshot.revision = before.revision.saturating_add(1);
            let queued = self.snapshot.duplicate();
            self.outbox.push(queued);
            proof {
                assert(snapshots_view(self.outbox@) =~= snapshots_view(old(self).outbox@).push(self.snapshot.view_of()));
                assert(self.snapshot.view_of() =~= SnapshotView { revision: sat_inc(before.view_of().revision), ..old(self)@.snap });
                assert(self@ =~= commit(before.view_of(), old(self)@));
            }
        }
        self.snapshot.duplicate()
    }

    fn set_state_exec(&mut self, st: SurfaceState)
        ensures
            final(self)@ == set_state(old(self)@, st),
    {
        self.snapshot.state = st;
        self.snapshot.error = None;
        assert(self@ =~= set_state(old(self)@, st));
    }

    fn release_exec(&mut self)
        ensures
            final(self)@ == release(old(self)@),
    {
        self.active = false;
        self.owner = None;
        assert(self@ =~= release(old(self)@));
    }

    fn apply_update_exec(&mut self, u: Update)
        ensures
            final(self)@ == apply_update(old(self)@, u),
    {
        match u {
            Update::Finish => {
                self.set_state_exec(SurfaceState::Idle);
                self.release_exec();
                self.turn_done = false;
                assert(self@ =~= apply_update(old(self)@, Update::Finish));
            },
            Update::WaitingForApproval => self.set_state_exec(SurfaceState::WaitingForApproval),
            Update::ThinkingUnlessSpeaking => {
                if self.snapshot.state != SurfaceState::Speaking {
                    self.set_state_exec(SurfaceState::Thinking);
                }
            },
            Update::WaitingForUser => self.set_state_exec(SurfaceState::WaitingForUser),
            Update::Failed(e) => {
                let ghost ev = e@;
                self.snapshot.state = SurfaceState::Error;
                self.snapshot.error = Some(e);
                assert(self@ =~= MachineView {
                    snap: SnapshotView { state: SurfaceState::Error, error: Some(ev), ..old(self)@.snap },
                    ..old(self)@
                });
            },
            Update::Done { approval } => {
                self.turn_done = true;
                if approval {
                    self.set_state_exec(SurfaceState::WaitingForApproval);
                } else if self.snapshot.state != SurfaceState::Speaking {
                    self.set_state_exec(SurfaceState::Idle);
                    self.release_exec();
                }
            },
            Update::Audio(st) => self.set_state_exec(st),
            Update::PlaybackFinished => {
                if self.snapshot.state == SurfaceState::Speaking {
                    self.set_state_exec(SurfaceState::Idle);
                    if self.turn_done {
                        self.release_exec();
                    }
                }
            },
        }
    }

    fn update_for_operation(&mut self, operation_id: u64, u: Update) -> (s: SurfaceSnapshot)
        ensures
            final(self)@ == update_for(old(self)@, operation_id, u),
            s.view_of() == final(self)@.snap,
    {
        if !self.active || self.snapshot.operation_id != Some(operation_id) {
            return self.snapshot.duplicate();
        }
        let before = self.snapshot.duplicate();
        self.apply_update_exec(u);
        self.commit_from(&before)
    }

    fn begin_with(&mut self, owner: Option<String>, st: SurfaceState) -> (id: u64)
        ensures
            final(self)@ == begin(old(self)@, opt_text(owner), st),
            id == sat_inc(old(self)@.next_operation_id),
    {
        self.next_operation_id = self.next_operation_id.saturating_add(1);
        let operation_id = self.next_operation_id;
        let before = self.snapshot.duplicate();
        self.owner = owner;
        self.active = true;
        self.turn_done = false;
        self.snapshot.operation_id = Some(operation_id);
        self.snapshot.state = st;
        self.snapshot.error = None;
        let _ = self.commit_from(&before);
        operation_id
    }

    /// Start a new device-local operation and return its id. Starting a newer
    /// operation makes callbacks for the previous one stale.
    pub fn begin_operation(&mut self, owner: Option<String>) -> (id: u64)
        ensures
            final(self)@ == begin(old(self)@, opt_text(owner), SurfaceState::Idle),
            id == sat_inc(old(self)@.next_operation_id),
    {
        self.begin_with(owner, SurfaceState::Idle)
    }

    /// Start a new audio operation, listening.
    pub fn begin_audio_operation(&mut self) -> (id: u64)
        ensures
            final(self)@ == begin(old(self)@, None, SurfaceState::Listening),
            id == sat_inc(old(self)@.next_operation_id),
    {
        self.begin_with(None, SurfaceState::Listening)
    }

    /// Finish an operation only when it is still the active operation.
    pub fn finish_operation(&mut self, operation_id: u64) -> (s: SurfaceSnapshot)
        ensures
            final(self)@ == update_for(old(self)@, operation_id, Update::Finish),
            s.view_of() == final(self)@.snap,
    {
        self.update_for_operation(operation_id, Update::Finish)
    }

    fn owned_operation(&self, owner: &str, approval_only: bool) -> (r: Option<u64>)
        ensures
            r == owned_operation_spec(self@, owner@, approval_only),
    {
        let owned = match &self.owner {
            Some(o) => str_eq(o.as_str(), owner),
            None => false,
        };
        if self.active && owned
            && (!approval_only || self.snapshot.state == SurfaceState::WaitingForApproval) {
            self.snapshot.operation_id
        } else {
            None
        }
    }

    /// Finish the operation owned by a session, if that session still owns it.
    pub fn finish_if_owner(&mut self, owner: &str) -> (s: SurfaceSnapshot)
        ensures
            final(self)@ == finish_owned(old(self)@, owner@, false),
            s.view_of() == final(self)@.snap,
    {
        match self.owned_operation(owner, false) {
            Some(op) => self.finish_operation(op),
            None => self.snapshot(),
        }
    }

    /// Finish an approval only when the session still owns the approval state.
    pub fn finish_approval_if_owner(&mut self, owner: &str) -> (s: SurfaceSnapshot)
        ensures
            final(self)@ == finish_owned(old(self)@, owner@, true),
            s.view_of() == final(self)@.snap,
    {
        match self.owned_operation(owner, true) {
            Some(op) => self.finish_operation(op),
            None => self.snapshot(),
        }
    }

    /// Drop any operation and return to idle.
    pub fn reset(&mut self) -> (s: SurfaceSnapshot)
        ensures
            final(self)@ == reset_spec(old(self)@),
            s.view_of() == final(self)@.snap,
    {
        let before = self.snapshot.duplicate();
        self.snapshot.state = SurfaceState::Idle;
        self.snapshot.operation_id = None;
        self.snapshot.error = None;
        self.active = false;
        self.turn_done = false;
        self.owner = None;
        assert(self@ =~= reset_pre(old(self)@));
        self.commit_from(&before)
    }

    pub fn set_waiting_for_approval(&mut self, operation_id: u64) -> (s: SurfaceSnapshot)
        ensures
            final(self)@ == update_for(old(self)@, operation_id, Update::WaitingForApproval),
            s.view_of() == final(self)@.snap,
    {
        self.update_for_operation(operation_id, Update::WaitingForApproval)
    }

    fn turn_update_exec(event: &TurnEvent) -> (u: Update)
        ensures
            u == turn_update(*event),
    {
        match event {
            TurnEvent::Thinking(_) | TurnEvent::Text(_) => Update::ThinkingUnlessSpeaking,
            TurnEvent::ToolCall { name, .. } => {
                if str_eq(name.as_str(), "correct_asr") {
                    Update::WaitingForUser
                } else {
                    Update::ThinkingUnlessSpeaking
                }
            },
            TurnEvent::ToolResult { .. } => Update::ThinkingUnlessSpeaking,
            TurnEvent::Error(e) => Update::Failed(e.clone()),
            TurnEvent::Done(r) => Update::Done { approval: r.approval_request.is_some() },
        }
    }

    fn ensure_operation(&mut self) -> (id: u64)
        ensures
            final(self)@ == ensure(old(self)@),
            final(self)@.snap.operation_id == Some(id),
            final(self)@.active,
    {
        if self.active {
            if let Some(operation_id) = self.snapshot.operation_id {
                return operation_id;
            }
        }
        self.next_operation_id = self.next_operation_id.saturating_add(1);
        let operation_id = self.next_operation_id;
        self.active = true;
        self.turn_done = false;
        self.owner = None;
        self.snapshot.operation_id = Some(operation_id);
        assert(self@ =~= ensure(old(self)@));
        operation_id
    }

    /// Apply a turn event to the active operation (starting one if needed).
    pub fn apply_turn_event(&mut self, event: &TurnEvent) -> (s: SurfaceSnapshot)
        ensures
            final(self)@ == commit(ensure(old(self)@).snap, apply_update(ensure(old(self)@), turn_update(*event))),
            s.view_of() == final(self)@.snap,
    {
        let operation_id = self.ensure_operation();
        self.apply_turn_event_for(operation_id, event)
    }

    /// Apply a turn event for a specific operation; stale operations are
    /// ignored.
    pub fn apply_turn_event_for(&mut self, operation_id: u64, event: &TurnEvent) -> (s: SurfaceSnapshot)
        ensures
            final(self)@ == update_for(old(self)@, operation_id, turn_update(*event)),
            s.view_of() == final(self)@.snap,
    {
        let u = Self::turn_update_exec(event);
        self.update_for_operation(operation_id, u)
    }

    /// Apply an audio callback; `Listening` starts a new audio operation.
    pub fn apply_audio_callback(&mut self, callback: AudioCallback) -> (s: SurfaceSnapshot)
        ensures
            final(self)@ == (if callback == AudioCallback::Listening {
                let b = begin(old(self)@, None, SurfaceState::Listening);
                update_for(b, b.next_operation_id, audio_update(callback))
            } else {
                let e = ensure(old(self)@);
                update_for(e, e.snap.operation_id->0, audio_update(callback))
            }),
            s.view_of() == final(self)@.snap,
    {
        let operation_id = if callback == AudioCallback::Listening {
            self.begin_audio_operation()
        } else {
            self.ensure_operation()
        };
        self.apply_audio_callback_for(operation_id, callback)
    }

    /// Apply an audio callback for a specific operation; stale operations
    /// are ignored.
    pub fn apply_audio_callback_for(&mut self, operation_id: u64, callback: AudioCallback) -> (s: SurfaceSnapshot)
        ensures
            final(self)@ == update_for(old(self)@, operation_id, audio_update(callback)),
            s.view_of() == final(self)@.snap,
    {
        let u = match callback {
            AudioCallback::Listening => Update::Audio(SurfaceState::Listening),
            AudioCallback::Transcribing => Update::Audio(SurfaceState::Transcribing),
            AudioCallback::Speaking => Update::Audio(SurfaceState::Speaking),
            AudioCallback::PlaybackFinished => Update::PlaybackFinished,
        };
        self.update_for_operation(operation_id, u)
    }

    /// Apply a command to whatever operation is active.
    pub fn command(&mut self, command: SurfaceCommand) -> (r: SurfaceCommandResponse)
        ensures
            command_post(old(self)@, None, command, final(self)@, r),
    {
        self.command_for(None, command)
    }

    /// Apply a command addressed to `operation_id` (or to any operation).
    pub fn command_for(&mut self, operation_id: Option<u64>, command: SurfaceCommand) -> (r: SurfaceCommandResponse)
        ensures
            command_post(old(self)@, operation_id, command, final(self)@, r),
    {
        let expected = match command {
            SurfaceCommand::ConfirmRecording => SurfaceState::Listening,
            SurfaceCommand::OpenPanel => SurfaceState::Thinking,
            SurfaceCommand::StopTts => SurfaceState::Speaking,
            SurfaceCommand::OpenApproval => SurfaceState::WaitingForApproval,
            SurfaceCommand::ShowRecovery => SurfaceState::Error,
        };
        let op_mismatch = match operation_id {
            Some(o) => self.snapshot.operation_id != Some(o),
            None => false,
        };
        if !self.active || op_mismatch || self.snapshot.state != expected {
            let mut reason = string_of("command requires ");
            append_str(&mut reason, state_name_str(expected));
            append_str(&mut reason, " state");
            return SurfaceCommandResponse {
                command,
                accepted: false,
                reason: Some(reason),
                snapshot: self.snapshot.duplicate(),
            };
        }
        let before = self.snapshot.duplicate();
        match command {
            SurfaceCommand::ConfirmRecording => {
                self.set_state_exec(SurfaceState::Transcribing);
            },
            SurfaceCommand::StopTts => {
                let done = self.turn_done;
                self.set_state_exec(SurfaceState::Idle);
                if done {
                    self.release_exec();
                }
            },
            SurfaceCommand::OpenPanel | SurfaceCommand::OpenApproval | SurfaceCommand::ShowRecovery => {},
        }
        let snapshot = self.commit_from(&before);
        SurfaceCommandResponse { command, accepted: true, reason: None, snapshot }
    }
}

/// The operation a session owns, when it is active (and, for approvals,
/// waiting for approval).
pub open spec fn owned_operation_spec(m: MachineView, owner: Seq<char>, approval_only: bool) -> Option<u64> {
    if m.active && m.owner == Some(owner)
        && (!approval_only || m.snap.state == SurfaceState::WaitingForApproval) {
        m.snap.operation_id
    } else {
        None
    }
}

pub open spec fn finish_owned(m: MachineView, owner: Seq<char>, approval_only: bool) -> MachineView {
    match owned_operation_spec(m, owner, approval_only) {
        Some(op) => update_for(m, op, Update::Finish),
        None => m,
    }
}

pub open spec fn reset_pre(m: MachineView) -> MachineView {
    MachineView {
        snap: SnapshotView { state: SurfaceState::Idle, operation_id: None, error: None, ..m.snap },
        active: false,
        turn_done: false,
        owner: None,
        ..m
    }
}

pub open spec fn reset_spec(m: MachineView) -> MachineView {
    commit(m.snap, reset_pre(m))
}

/// What a command does: an accepted command applies its effect; a rejected
/// one changes nothing and names the state it requires.
pub open spec fn command_post(
    m: MachineView,
    op: Option<u64>,
    c: SurfaceCommand,
    m2: MachineView,
    r: SurfaceCommandResponse,
) -> bool {
    &&& r.command == c
    &&& r.accepted == command_accepted(m, op, c)
    &&& if r.accepted {
        &&& m2 == command_effect(m, c)
        &&& r.reason is None
    } else {
        &&& m2 == m
        &&& r.reason matches Some(t) && t@ == "command requires "@ + state_name(expected_state(c)) + " state"@
    }
    &&& r.snapshot.view_of() == m2.snap
}


/// One transition of the surface machine, as the public methods perform
/// them.
pub enum SurfaceStep {
    /// `begin_operation` / `begin_audio_operation`.
    Begin { owner: Option<Seq<char>>, state: SurfaceState },
    /// Any update addressed to an operation.
    UpdateFor { op: u64, update: Update },
    /// Picking (or opening) the operation for an unaddressed event.
    Ensure,
    /// `reset`.
    Reset,
    /// `command` / `command_for`.
    Command { op: Option<u64>, command: SurfaceCommand },
    /// `finish_if_owner` / `finish_approval_if_owner`.
    FinishOwned { owner: Seq<char>, approval_only: bool },
    /// `take_events`.
    Drain,
}

pub open spec fn step(m: MachineView, s: SurfaceStep) -> MachineView {
    match s {
        SurfaceStep::Begin { owner, state } => begin(m, owner, state),
        SurfaceStep::UpdateFor { op, update } => update_for(m, op, update),
        SurfaceStep::Ensure => ensure(m),
        SurfaceStep::Reset => reset_spec(m),
        SurfaceStep::Command { op, command } =>
            if command_accepted(m, op, command) { command_effect(m, command) } else { m },
        SurfaceStep::FinishOwned { owner, approval_only } => finish_owned(m, owner, approval_only),
        SurfaceStep::Drain => drained(m),
    }
}

/// Queued events carry strictly increasing revisions, none above the
/// current one, and the current operation id was handed out already.
pub open spec fn machine_wf(m: MachineView) -> bool {
    &&& forall|i: int, j: int| 0 <= i < j < m.outbox.len() ==> #[trigger] m.outbox[i].revision < #[trigger] m.outbox[j].revision
    &&& forall|i: int| 0 <= i < m.outbox.len() ==> #[trigger] m.outbox[i].revision <= m.snap.revision
    &&& (m.snap.operation_id matches Some(x) ==> x <= m.next_operation_id)
}

proof fn lemma_commit_wf(before: SnapshotView, m: MachineView)
    requires
        machine_wf(MachineView { snap: before, ..m }),
        before.revision < u64::MAX,
        m.snap.revision == before.revision,
        m.snap.operation_id matches Some(x) ==> x <= m.next_operation_id,
    ensures
        machine_wf(commit(before, m)),
        commit(before, m).snap.revision >= before.revision,
        commit(before, m).outbox.len() <= m.outbox.len() + 1,
{
    let c = commit(before, m);
    if m.snap != before {
        assert forall|i: int, j: int| 0 <= i < j < c.outbox.len() implies #[trigger] c.outbox[i].revision < #[trigger] c.outbox[j].revision by {
            if j == m.outbox.len() {
                assert(c.outbox[i] == m.outbox[i]);
            } else {
                assert(c.outbox[i] == m.outbox[i]);
                assert(c.outbox[j] == m.outbox[j]);
            }
        }
        assert forall|i: int| 0 <= i < c.outbox.len() implies #[trigger] c.outbox[i].revision <= c.snap.revision by {
            if i < m.outbox.len() {
                assert(c.outbox[i] == m.outbox[i]);
            }
        }
    }
}

/// Every transition keeps the broadcast order sound: queued revisions stay
/// strictly increasing, the revision never goes backwards, and one
/// transition queues at most one event. (At the largest revision the
/// counter saturates, so the law is stated below it.)
pub proof fn lemma_step_keeps_revisions_ordered(m: MachineView, s: SurfaceStep)
    requires
        machine_wf(m),
        m.snap.revision < u64::MAX,
    ensures
        machine_wf(step(m, s)),
        step(m, s).snap.revision >= m.snap.revision,
        step(m, s).outbox.len() <= m.outbox.len() + 1,
{
    assert(MachineView { snap: m.snap, ..m } == m);
    match s {
        SurfaceStep::Begin { owner, state } => {
            let id = sat_inc(m.next_operation_id);
            let n = MachineView {
                next_operation_id: id,
                owner: owner,
                active: true,
                turn_done: false,
                snap: SnapshotView { operation_id: Some(id), state: state, error: None, ..m.snap },
                ..m
            };
            lemma_commit_wf(m.snap, n);
        },
        SurfaceStep::UpdateFor { op, update } => {
            if owns(m, op) {
                lemma_commit_wf(m.snap, apply_update(m, update));
            }
        },
        SurfaceStep::Ensure => {},
        SurfaceStep::Reset => {
            lemma_commit_wf(m.snap, reset_pre(m));
        },
        SurfaceStep::Command { op, command } => {
            if command_accepted(m, op, command) {
                let n = match command {
                    SurfaceCommand::ConfirmRecording => set_state(m, SurfaceState::Transcribing),
                    SurfaceCommand::StopTts => {
                        let i = set_state(m, SurfaceState::Idle);
                        if m.turn_done { release(i) } else { i }
                    },
                    _ => m,
                };
                lemma_commit_wf(m.snap, n);
            }
        },
        SurfaceStep::FinishOwned { owner, approval_only } => {
            if let Some(op) = owned_operation_spec(m, owner, approval_only) {
                if owns(m, op) {
                    lemma_commit_wf(m.snap, apply_update(m, Update::Finish));
                }
            }
        },
        SurfaceStep::Drain => {},
    }
}

/// An update addressed to a stale or finished operation changes nothing.
pub proof fn lemma_stale_update_is_ignored(m: MachineView, op: u64, u: Update)
    requires
        !owns(m, op),
    ensures
        update_for(m, op, u) == m,
{
}

/// A command addressed to a stale operation is rejected, and any accepted
/// command found the surface active and in the command's contract state.
pub proof fn lemma_command_contract(m: MachineView, op: Option<u64>, c: SurfaceCommand)
    ensures
        (op matches Some(o) && m.snap.operation_id != Some(o)) ==> !command_accepted(m, op, c),
        command_accepted(m, op, c) ==> m.active && m.snap.state == expected_state(c),
        !command_accepted(m, op, c) ==> step(m, SurfaceStep::Command { op, command: c }) == m,
{
}

/// Beginning an operation makes every earlier operation stale: updates
/// addressed to an id handed out before are ignored afterwards.
pub proof fn lemma_begin_makes_earlier_operations_stale(
    m: MachineView,
    owner: Option<Seq<char>>,
    st: SurfaceState,
    op: u64,
    u: Update,
)
    requires
        m.next_operation_id < u64::MAX,
        op <= m.next_operation_id,
    ensures
        update_for(begin(m, owner, st), op, u) == begin(m, owner, st),
{
}

/// A turn finishing and audio playback finishing lead to the same surface,
/// whichever is reported first.
pub proof fn lemma_done_and_playback_finish_commute(m: MachineView, op: u64)
    requires
        owns(m, op),
        m.snap.state == SurfaceState::Speaking,
    ensures
        update_for(update_for(m, op, Update::Done { approval: false }), op, Update::PlaybackFinished)
            == update_for(update_for(m, op, Update::PlaybackFinished), op, Update::Done { approval: false }),
{
    let a = update_for(update_for(m, op, Update::Done { approval: false }), op, Update::PlaybackFinished);
    let b = update_for(update_for(m, op, Update::PlaybackFinished), op, Update::Done { approval: false });
    assert(a =~= b);
}

/// One transition commits at most once: the queue and the revision are
/// left alone, or the revision goes up by exactly one and the new snapshot
/// is queued after the earlier ones.
pub open spec fn commits_at_most_once(m: MachineView, n: MachineView) -> bool {
    ||| n.outbox == m.outbox && n.snap.revision == m.snap.revision
    ||| n.snap.revision == m.snap.revision + 1 && n.outbox == m.outbox.push(n.snap)
}

proof fn lemma_commit_once(m: MachineView, n: MachineView)
    requires
        n.outbox == m.outbox,
        m.snap.revision < u64::MAX,
    ensures
        commits_at_most_once(m, commit(m.snap, n)),
        commit(m.snap, n).snap == m.snap ==> commit(m.snap, n).outbox == m.outbox,
{
}

/// Broadcast revisions run without gaps: every transition but draining the
/// queue either queues nothing and keeps the revision, or raises the
/// revision by one and queues exactly the new snapshot; a transition that
/// leaves the snapshot as it was queues nothing. From the initial revision
/// 0 the broadcasts thus carry 1, 2, 3, ... (below the largest revision,
/// where the counter saturates).
pub proof fn lemma_revisions_have_no_gaps(m: MachineView, s: SurfaceStep)
    requires
        m.snap.revision < u64::MAX,
        !(s is Drain),
    ensures
        commits_at_most_once(m, step(m, s)),
        step(m, s).snap == m.snap ==> step(m, s).outbox == m.outbox,
{
    match s {
        SurfaceStep::Begin { owner, state } => {
            let id = sat_inc(m.next_operation_id);
            let n = MachineView {
                next_operation_id: id,
                owner: owner,
                active: true,
                turn_done: false,
                snap: SnapshotView { operation_id: Some(id), state: state, error: None, ..m.snap },
                ..m
            };
            lemma_commit_once(m, n);
        },
        SurfaceStep::UpdateFor { op, update } => {
            if owns(m, op) {
                lemma_commit_once(m, apply_update(m, update));
            }
        },
        SurfaceStep::Ensure => {},
        SurfaceStep::Reset => {
            lemma_commit_once(m, reset_pre(m));
        },
        SurfaceStep::Command { op, command } => {
            if command_accepted(m, op, command) {
                let n = match command {
                    SurfaceCommand::ConfirmRecording => set_state(m, SurfaceState::Transcribing),
                    SurfaceCommand::StopTts => {
                        let i = set_state(m, SurfaceState::Idle);
                        if m.turn_done { release(i) } else { i }
                    },
                    _ => m,
                };
                lemma_commit_once(m, n);
            }
        },
        SurfaceStep::FinishOwned { owner, approval_only } => {
            if let Some(op) = owned_operation_spec(m, owner, approval_only) {
                if owns(m, op) {
                    lemma_commit_once(m, apply_update(m, Update::Finish));
                }
            }
        },
        SurfaceStep::Drain => {},
    }
}

} // verus!
