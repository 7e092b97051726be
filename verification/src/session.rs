//! The session state machine: one step per fetched frame, from the current
//! state and what was observed to the next state and the actions to perform.
//!
//! The machine owns the recording segmenter's bookkeeping (the file index, the
//! running sample count and the silence counter). It performs no I/O itself:
//! the caller carries out the returned actions in order and reports what it
//! observes next.

use vstd::prelude::*;
use crate::audio_processing::State;
use crate::text::{decimal, push_decimal, same_text};
use crate::transcription::{MessageModel, TranscriptionMessage};

verus! {

/// The transcript that ends a conversation.
pub const EXIT_PHRASE: &'static str = "再见";

/// How long to wait before fetching again after the engine failed.
pub const FETCH_RETRY_MS: u64 = 10;

/// Voice-activity classification of one frame.
#[derive(Debug, Clone, Copy, PartialEq, Eq, Structural)]
pub enum VadState {
    Speech,
    Silence,
}

/// What the command matcher made of one frame.
#[derive(Debug, Clone, Copy, PartialEq, Eq, Structural)]
pub enum CommandDetection {
    /// Still listening.
    NoMatch,
    /// A command of the grammar was recognised.
    Detected,
    /// No command came within the matcher's time limit.
    Timeout,
}

/// A copy of what one fetch from the acoustic front end produced.
#[derive(Debug, Clone, PartialEq, Eq)]
pub struct FetchResult {
    /// False where the engine reported failure.
    pub ok: bool,
    pub wake_detected: bool,
    pub vad: VadState,
    /// The frame's samples.
    pub samples: Vec<i16>,
    /// Samples the engine held back before it classified the frame as speech.
    pub cache: Option<Vec<i16>>,
}

pub struct FetchModel {
    pub ok: bool,
    pub wake_detected: bool,
    pub vad: VadState,
    pub samples: Seq<i16>,
    pub cache: Option<Seq<i16>>,
}

impl View for FetchResult {
    type V = FetchModel;

    open spec fn view(&self) -> FetchModel {
        FetchModel {
            ok: self.ok,
            wake_detected: self.wake_detected,
            vad: self.vad,
            samples: self.samples@,
            cache: match self.cache {
                Some(c) => Some(c@),
                None => None,
            },
        }
    }
}

/// Everything the fetch loop saw in one iteration.
#[derive(Debug, Clone, PartialEq, Eq)]
pub struct Observation {
    /// The fetched frame; `None` where the engine returned nothing.
    pub fetch: Option<FetchResult>,
    /// The command matcher's verdict on the frame. Read only while a command
    /// is being confirmed.
    pub command: CommandDetection,
    /// A transcript that was waiting on the response channel. Read only while
    /// recording: in the other states the channel is left alone.
    pub response: Option<String>,
}

pub struct ObservationModel {
    pub fetch: Option<FetchModel>,
    pub command: CommandDetection,
    pub response: Option<Seq<char>>,
}

impl View for Observation {
    type V = ObservationModel;

    open spec fn view(&self) -> ObservationModel {
        ObservationModel {
            fetch: match self.fetch {
                Some(f) => Some(f@),
                None => None,
            },
            command: self.command,
            response: match self.response {
                Some(r) => Some(r@),
                None => None,
            },
        }
    }
}

/// Bookkeeping of the recording that is currently open.
#[derive(Debug, Clone, Copy, PartialEq, Eq, Structural)]
pub struct RecordingSession {
    /// The index its file is named after.
    pub index: u64,
    /// Samples appended so far.
    pub sample_count: u64,
    /// Consecutive silent frames since the last speech.
    pub silence_frames: u64,
}

pub struct SessionModel {
    pub index: nat,
    pub sample_count: nat,
    pub silence_frames: nat,
}

impl View for RecordingSession {
    type V = SessionModel;

    open spec fn view(&self) -> SessionModel {
        SessionModel {
            index: self.index as nat,
            sample_count: self.sample_count as nat,
            silence_frames: self.silence_frames as nat,
        }
    }
}

/// What the caller is to do, in the order given.
#[derive(Debug, Clone, PartialEq, Eq)]
pub enum Action {
    /// Stop wake-word spotting.
    DisableWakenet,
    /// Resume wake-word spotting.
    EnableWakenet,
    /// Reset the command matcher.
    CleanCommands,
    /// Create the recording file of a new session.
    OpenSession { index: u64, path: String },
    /// Write these samples to the open recording, in order.
    AppendSamples { samples: Vec<i16> },
    /// Finalize the open recording.
    FinalizeSession,
    /// Force the storage volume to commit, by way of the sentinel file.
    FlushStorage { sentinel: String },
    /// Put a message on the control channel.
    Send { message: TranscriptionMessage },
    /// Sleep before the next fetch.
    Backoff { millis: u64 },
}

pub enum ActionModel {
    DisableWakenet,
    EnableWakenet,
    CleanCommands,
    OpenSession { index: nat, path: Seq<char> },
    AppendSamples { samples: Seq<i16> },
    FinalizeSession,
    FlushStorage { sentinel: Seq<char> },
    Send { message: MessageModel },
    Backoff { millis: nat },
}

impl View for Action {
    type V = ActionModel;

    open spec fn view(&self) -> ActionModel {
        match self {
            Action::DisableWakenet => ActionModel::DisableWakenet,
            Action::EnableWakenet => ActionModel::EnableWakenet,
            Action::CleanCommands => ActionModel::CleanCommands,
            Action::OpenSession { index, path } => ActionModel::OpenSession {
                index: *index as nat,
                path: path@,
            },
            Action::AppendSamples { samples } => ActionModel::AppendSamples { samples: samples@ },
            Action::FinalizeSession => ActionModel::FinalizeSession,
            Action::FlushStorage { sentinel } => ActionModel::FlushStorage { sentinel: sentinel@ },
            Action::Send { message } => ActionModel::Send { message: message@ },
            Action::Backoff { millis } => ActionModel::Backoff { millis: *millis as nat },
        }
    }
}

/// The models of a list of actions, in the same order.
pub open spec fn models(actions: Seq<Action>) -> Seq<ActionModel> {
    Seq::new(actions.len(), |i: int| actions[i]@)
}

/// The state machine with the segmenter's bookkeeping. Its state changes by
/// its transitions and in no other way.
#[derive(Debug, Clone, PartialEq, Eq)]
pub struct SessionStateMachine {
    state: State,
    /// The index the next recording will get.
    next_index: u64,
    /// The open recording, while there is one.
    session: Option<RecordingSession>,
    /// Consecutive silent frames that end a recording.
    threshold: u64,
    /// Directory of the storage volume that holds the recordings.
    root: String,
}

pub struct MachineModel {
    pub state: State,
    pub next_index: nat,
    pub session: Option<SessionModel>,
    pub threshold: nat,
    pub root: Seq<char>,
}

impl View for SessionStateMachine {
    type V = MachineModel;

    closed spec fn view(&self) -> MachineModel {
        MachineModel {
            state: self.state,
            next_index: self.next_index as nat,
            session: match self.session {
                Some(s) => Some(s@),
                None => None,
            },
            threshold: self.threshold as nat,
            root: self.root@,
        }
    }
}

/// Rounds `sample_rate / frame_size` to the nearest whole number of frames;
/// a half is rounded down.
pub open spec fn frames_per_second(sample_rate: nat, frame_size: nat) -> nat {
    ((2 * sample_rate + frame_size - 1) / (2 * frame_size as int)) as nat
}

/// The number of consecutive silent frames that amounts to `silence_seconds`.
pub open spec fn silence_threshold_spec(sample_rate: nat, frame_size: nat, silence_seconds: nat) -> nat {
    frames_per_second(sample_rate, frame_size) * silence_seconds
}

/// Name of the recording with the given index, without directory or extension.
pub open spec fn session_name(index: nat) -> Seq<char> {
    "audio"@ + decimal(index)
}

/// Path of the recording with the given index below `root`.
pub open spec fn session_path(root: Seq<char>, index: nat) -> Seq<char> {
    root + "/"@ + session_name(index) + ".wav"@
}

/// Path of the sentinel file that a durable flush creates, syncs and deletes.
pub open spec fn sentinel_path(root: Seq<char>) -> Seq<char> {
    root + "/flush.tmp"@
}

/// The samples a speech frame contributes: the held-back samples first, then
/// the frame's own.
pub open spec fn frame_samples(f: FetchModel) -> Seq<i16> {
    match f.cache {
        Some(c) => c + f.samples,
        None => f.samples,
    }
}

/// The bookkeeping is consistent: a session is open exactly while recording,
/// it bears an index already given out, and its silence counter is short of
/// the threshold.
pub open spec fn model_wf(m: MachineModel) -> bool {
    &&& m.state == State::Recording <==> m.session is Some
    &&& m.session matches Some(s) ==> s.index < m.next_index && (s.silence_frames < m.threshold
        || s.silence_frames == 0)
}

/// Waiting for the wake word: only the wake flag matters.
pub open spec fn wake_step(m: MachineModel, f: FetchModel) -> (MachineModel, Seq<ActionModel>) {
    if f.wake_detected {
        (
            MachineModel { state: State::CommandConfirming, ..m },
            seq![ActionModel::DisableWakenet, ActionModel::CleanCommands],
        )
    } else {
        (m, seq![])
    }
}

/// Confirming a command: a match opens the next session, a timeout gives up.
pub open spec fn confirm_step(m: MachineModel, command: CommandDetection) -> (
    MachineModel,
    Seq<ActionModel>,
) {
    match command {
        CommandDetection::Detected => (
            MachineModel {
                state: State::Recording,
                next_index: m.next_index + 1,
                session: Some(
                    SessionModel { index: m.next_index, sample_count: 0, silence_frames: 0 },
                ),
                ..m
            },
            seq![
                ActionModel::OpenSession {
                    index: m.next_index,
                    path: session_path(m.root, m.next_index),
                },
            ],
        ),
        CommandDetection::Timeout => (
            MachineModel { state: State::WakeWordDetecting, ..m },
            seq![ActionModel::EnableWakenet],
        ),
        CommandDetection::NoMatch => (m, seq![]),
    }
}

/// What closing a session after enough silence asks for: the recording is
/// dispatched only if it holds samples.
pub open spec fn closing_actions(root: Seq<char>, s: SessionModel) -> Seq<ActionModel> {
    let dispatch = if s.sample_count > 0 {
        seq![
            ActionModel::Send {
                message: MessageModel::TranscribeFile { path: session_path(root, s.index) },
            },
        ]
    } else {
        seq![]
    };
    seq![ActionModel::FinalizeSession, ActionModel::FlushStorage { sentinel: sentinel_path(root) }]
        + dispatch + seq![ActionModel::EnableWakenet]
}

/// Recording: the exit phrase ends the session at once; otherwise silence is
/// counted and speech is written.
pub open spec fn record_step(m: MachineModel, f: FetchModel, response: Option<Seq<char>>) -> (
    MachineModel,
    Seq<ActionModel>,
) {
    match m.session {
        None => (m, seq![]),
        Some(s) => {
            if response == Some(EXIT_PHRASE@) {
                (
                    MachineModel { state: State::WakeWordDetecting, session: None, ..m },
                    seq![ActionModel::FinalizeSession, ActionModel::EnableWakenet],
                )
            } else if f.vad == VadState::Silence {
                if s.silence_frames + 1 >= m.threshold {
                    (
                        MachineModel { state: State::WakeWordDetecting, session: None, ..m },
                        closing_actions(m.root, s),
                    )
                } else {
                    (
                        MachineModel {
                            session: Some(
                                SessionModel { silence_frames: s.silence_frames + 1, ..s },
                            ),
                            ..m
                        },
                        seq![],
                    )
                }
            } else {
                (
                    MachineModel {
                        session: Some(
                            SessionModel {
                                sample_count: s.sample_count + frame_samples(f).len(),
                                silence_frames: 0,
                                ..s
                            },
                        ),
                        ..m
                    },
                    seq![ActionModel::AppendSamples { samples: frame_samples(f) }],
                )
            }
        },
    }
}

/// One step of the machine. A failed fetch changes nothing and asks for a
/// short pause; a good frame is handled according to the current state.
pub open spec fn step_spec(m: MachineModel, obs: ObservationModel) -> (
    MachineModel,
    Seq<ActionModel>,
) {
    match obs.fetch {
        Some(f) if f.ok => match m.state {
            State::WakeWordDetecting => wake_step(m, f),
            State::CommandConfirming => confirm_step(m, obs.command),
            State::Recording => record_step(m, f, obs.response),
        },
        _ => (m, seq![ActionModel::Backoff { millis: FETCH_RETRY_MS as nat }]),
    }
}

/// The counters after the step still fit the machine's integers.
pub open spec fn within_limits(m: MachineModel, obs: ObservationModel) -> bool {
    let next = step_spec(m, obs).0;
    &&& next.next_index <= u64::MAX
    &&& next.session matches Some(s) ==> s.sample_count <= u64::MAX
}

/// What giving up the open session after a storage failure leaves behind.
pub open spec fn abandon_spec(m: MachineModel) -> (MachineModel, Seq<ActionModel>) {
    if m.session is Some {
        (
            MachineModel { state: State::WakeWordDetecting, session: None, ..m },
            seq![ActionModel::EnableWakenet],
        )
    } else {
        (m, seq![])
    }
}

/// The number of consecutive silent frames that amounts to `silence_seconds`
/// of silence: the frames per second, rounded to the nearest whole number (a
/// half downwards), times the seconds. There is no such number for frames of
/// no samples.
pub fn silence_threshold(sample_rate: u32, frame_size: u32, silence_seconds: u32) -> (r: Option<
    u64,
>)
    ensures
        frame_size == 0 ==> r is None,
        frame_size > 0 ==> r == Some(
            silence_threshold_spec(sample_rate as nat, frame_size as nat, silence_seconds as nat) as u64,
        ),
        frame_size > 0 ==> silence_threshold_spec(
            sample_rate as nat,
            frame_size as nat,
            silence_seconds as nat,
        ) <= u64::MAX,
{
    if frame_size == 0 {
        return None;
    }
    let doubled: u64 = 2 * (sample_rate as u64) + frame_size as u64 - 1;
    let divisor: u64 = 2 * (frame_size as u64);
    let frames: u64 = doubled / divisor;
    assert(frames <= 0x1_0000_0000u64) by (nonlinear_arith)
        requires
            frames == doubled / divisor,
            divisor >= 2,
            doubled <= 0x3_0000_0000u64,
            doubled < 0x1_0000_0001 * divisor,
    ;
    assert(frames * silence_seconds <= 0x1_0000_0000 * 0xffff_ffff) by (nonlinear_arith)
        requires
            frames <= 0x1_0000_0000u64,
            silence_seconds <= 0xffff_ffffu32,
    ;
    Some(frames * (silence_seconds as u64))
}

/// Path of the recording with the given index below `root`.
pub fn recording_path(root: &str, index: u64) -> (path: String)
    ensures
        path@ == session_path(root@, index as nat),
{
    let mut path = String::from_str(root);
    path.append("/");
    path.append("audio");
    push_decimal(&mut path, index);
    path.append(".wav");
    assert(path@ =~= session_path(root@, index as nat));
    path
}

/// Name of the recording with the given index, without directory or
/// extension.
pub fn recording_name(index: u64) -> (name: String)
    ensures
        name@ == session_name(index as nat),
{
    let mut name = String::from_str("audio");
    push_decimal(&mut name, index);
    name
}

/// Path of the sentinel file of a durable flush below `root`.
pub fn flush_sentinel(root: &str) -> (path: String)
    ensures
        path@ == sentinel_path(root@),
{
    let mut path = String::from_str(root);
    path.append("/flush.tmp");
    path
}

impl SessionStateMachine {
    /// The bookkeeping is consistent; see [`model_wf`].
    pub open spec fn wf(&self) -> bool {
        model_wf(self@)
    }

    /// A machine that waits for the wake word, has given out no index yet and
    /// keeps its recordings below `root`.
    pub fn new(root: String, threshold: u64) -> (m: SessionStateMachine)
        ensures
            m.wf(),
            m@ == (MachineModel {
                state: State::WakeWordDetecting,
                next_index: 0,
                session: None,
                threshold: threshold as nat,
                root: root@,
            }),
    {
        SessionStateMachine::starting_at(root, threshold, 0)
    }

    /// A machine that waits for the wake word and numbers its recordings
    /// from `first_index` on.
    pub fn starting_at(root: String, threshold: u64, first_index: u64) -> (m: SessionStateMachine)
        ensures
            m.wf(),
            m@ == (MachineModel {
                state: State::WakeWordDetecting,
                next_index: first_index as nat,
                session: None,
                threshold: threshold as nat,
                root: root@,
            }),
    {
        SessionStateMachine {
            state: State::WakeWordDetecting,
            next_index: first_index,
            session: None,
            threshold,
            root,
        }
    }

    /// The state the machine is in.
    pub fn state(&self) -> (state: State)
        ensures
            state == self@.state,
    {
        self.state
    }

    /// The index the next recording will get.
    pub fn next_index(&self) -> (index: u64)
        ensures
            index == self@.next_index,
    {
        self.next_index
    }

    /// The bookkeeping of the open recording, while there is one.
    pub fn session(&self) -> (session: Option<RecordingSession>)
        ensures
            match session {
                Some(s) => self@.session == Some(s@),
                None => self@.session is None,
            },
    {
        self.session
    }

    /// The number of consecutive silent frames that ends a recording.
    pub fn threshold(&self) -> (threshold: u64)
        ensures
            threshold == self@.threshold,
    {
        self.threshold
    }

    /// The directory that holds the recordings.
    pub fn root(&self) -> (root: &str)
        ensures
            root@ == self@.root,
    {
        self.root.as_str()
    }

    /// What to do when a call into the engine other than the fetch failed:
    /// pause briefly. The machine stays as it is.
    pub fn engine_failed(&self) -> (actions: Vec<Action>)
        ensures
            models(actions@) == seq![ActionModel::Backoff { millis: FETCH_RETRY_MS as nat }],
    {
        let mut actions: Vec<Action> = Vec::new();
        actions.push(Action::Backoff { millis: FETCH_RETRY_MS });
        assert(models(actions@) =~= seq![ActionModel::Backoff { millis: FETCH_RETRY_MS as nat }]);
        actions
    }

    /// Whether the counters can take the step for `obs`; see [`within_limits`].
    pub fn accepts(&self, obs: &Observation) -> (r: bool)
        requires
            self.wf(),
        ensures
            r == within_limits(self@, obs@),
    {
        match &obs.fetch {
            Some(f) => {
                if !f.ok {
                    return true;
                }
                match self.state {
                    State::WakeWordDetecting => true,
                    State::CommandConfirming => match obs.command {
                        CommandDetection::Detected => self.next_index < u64::MAX,
                        _ => true,
                    },
                    State::Recording => match &self.session {
                        None => true,
                        Some(s) => {
                            if is_exit_phrase(&obs.response) {
                                true
                            } else {
                                match f.vad {
                                    VadState::Silence => true,
                                    VadState::Speech => {
                                        let cached: usize = match &f.cache {
                                            Some(c) => c.len(),
                                            None => 0,
                                        };
                                        let total: u128 = s.sample_count as u128 + cached as u128
                                            + f.samples.len() as u128;
                                        total <= u64::MAX as u128
                                    },
                                }
                            }
                        },
                    },
                }
            },
            None => true,
        }
    }

    /// Takes one step: updates the state and the bookkeeping for what was
    /// observed and returns the actions to perform, in order.
    pub fn step(&mut self, obs: Observation) -> (actions: Vec<Action>)
        requires
            old(self).wf(),
            within_limits(old(self)@, obs@),
        ensures
            final(self).wf(),
            (final(self)@, models(actions@)) == step_spec(old(self)@, obs@),
    {
        let Observation { fetch, command, response } = obs;
        let mut actions: Vec<Action> = Vec::new();
        let frame = match fetch {
            Some(f) => f,
            None => {
                actions.push(Action::Backoff { millis: FETCH_RETRY_MS });
                assert(models(actions@) =~= seq![
                    ActionModel::Backoff { millis: FETCH_RETRY_MS as nat },
                ]);
                return actions;
            },
        };
        if !frame.ok {
            actions.push(Action::Backoff { millis: FETCH_RETRY_MS });
            assert(models(actions@) =~= seq![
                ActionModel::Backoff { millis: FETCH_RETRY_MS as nat },
            ]);
            return actions;
        }
        match self.state {
            State::WakeWordDetecting => {
                if frame.wake_detected {
                    self.state = State::CommandConfirming;
                    actions.push(Action::DisableWakenet);
                    actions.push(Action::CleanCommands);
                }
                assert(models(actions@) =~= wake_step(old(self)@, frame@).1);
            },
            State::CommandConfirming => {
                match command {
                    CommandDetection::Detected => {
                        let index = self.next_index;
                        let path = recording_path(self.root.as_str(), index);
                        self.session = Some(
                            RecordingSession { index, sample_count: 0, silence_frames: 0 },
                        );
                        self.next_index = index + 1;
                        self.state = State::Recording;
                        actions.push(Action::OpenSession { index, path });
                    },
                    CommandDetection::Timeout => {
                        self.state = State::WakeWordDetecting;
                        actions.push(Action::EnableWakenet);
                    },
                    CommandDetection::NoMatch => {},
                }
                assert(models(actions@) =~= confirm_step(old(self)@, command).1);
            },
            State::Recording => {
                let session = match self.session {
                    Some(s) => s,
                    None => {
                        return actions;
                    },
                };
                if is_exit_phrase(&response) {
                    self.session = None;
                    self.state = State::WakeWordDetecting;
                    actions.push(Action::FinalizeSession);
                    actions.push(Action::EnableWakenet);
                } else {
                    match frame.vad {
                        VadState::Silence => {
                            let silent = session.silence_frames + 1;
                            if silent >= self.threshold {
                                self.session = None;
                                self.state = State::WakeWordDetecting;
                                actions.push(Action::FinalizeSession);
                                actions.push(
                                    Action::FlushStorage {
                                        sentinel: flush_sentinel(self.root.as_str()),
                                    },
                                );
                                if session.sample_count > 0 {
                                    let path = recording_path(self.root.as_str(), session.index);
                                    actions.push(
                                        Action::Send {
                                            message: TranscriptionMessage::TranscribeFile { path },
                                        },
                                    );
                                }
                                actions.push(Action::EnableWakenet);
                            } else {
                                self.session = Some(
                                    RecordingSession { silence_frames: silent, ..session },
                                );
                            }
                        },
                        VadState::Speech => {
                            let FetchResult { samples, cache, .. } = frame;
                            let mut samples = samples;
                            let written = match cache {
                                Some(held) => {
                                    let mut all = held;
                                    all.append(&mut samples);
                                    all
                                },
                                None => samples,
                            };
                            assert(written@ =~= frame_samples(frame@));
                            self.session = Some(
                                RecordingSession {
                                    sample_count: session.sample_count + written.len() as u64,
                                    silence_frames: 0,
                                    ..session
                                },
                            );
                            actions.push(Action::AppendSamples { samples: written });
                        },
                    }
                }
                assert(models(actions@) =~= record_step(old(self)@, frame@, obs@.response).1);
            },
        }
        actions
    }

    /// Takes one step if the counters can take it, and says so: the actions
    /// to perform where they can, nothing where they cannot. In that case the
    /// machine stays as it is.
    pub fn try_step(&mut self, obs: Observation) -> (r: Option<Vec<Action>>)
        requires
            old(self).wf(),
        ensures
            final(self).wf(),
            match r {
                Some(actions) => within_limits(old(self)@, obs@) && (
                    final(self)@,
                    models(actions@),
                ) == step_spec(old(self)@, obs@),
                None => !within_limits(old(self)@, obs@) && final(self)@ == old(self)@,
            },
    {
        if self.accepts(&obs) {
            Some(self.step(obs))
        } else {
            None
        }
    }

    /// Gives up the open session after storage failed: nothing of it is
    /// finalized or dispatched, and the machine goes back to waiting for the
    /// wake word. Without an open session nothing changes.
    pub fn storage_failed(&mut self) -> (actions: Vec<Action>)
        requires
            old(self).wf(),
        ensures
            final(self).wf(),
            (final(self)@, models(actions@)) == abandon_spec(old(self)@),
    {
        let mut actions: Vec<Action> = Vec::new();
        if self.session.is_some() {
            self.session = None;
            self.state = State::WakeWordDetecting;
            actions.push(Action::EnableWakenet);
        }
        assert(models(actions@) =~= abandon_spec(old(self)@).1);
        actions
    }
}

/// What the fetch loop is to observe besides the fetched frame.
#[derive(Debug, Clone, Copy, PartialEq, Eq, Structural)]
pub struct Watch {
    /// Ask the command matcher for its verdict on the frame.
    pub command: bool,
    /// Poll the response channel.
    pub response: bool,
}

/// What is to be observed in a state, once a frame was fetched: the command
/// matcher while a command is being confirmed and in no other state, the
/// response channel while recording and in no other state. A step reads
/// nothing else, so a response that is polled in another state is lost.
pub open spec fn watch_spec(state: State) -> Watch {
    Watch { command: state == State::CommandConfirming, response: state == State::Recording }
}

/// What is to be observed in `state`, once a frame was fetched.
pub fn watch_for(state: State) -> (watch: Watch)
    ensures
        watch == watch_spec(state),
{
    match state {
        State::WakeWordDetecting => Watch { command: false, response: false },
        State::CommandConfirming => Watch { command: true, response: false },
        State::Recording => Watch { command: false, response: true },
    }
}

/// Whether an action is a call into the engine or a pause: an action that has
/// nothing to do with the recording.
pub open spec fn is_engine_action(a: ActionModel) -> bool {
    a is DisableWakenet || a is EnableWakenet || a is CleanCommands || a is Backoff
}

/// What is still to be done of the actions of a step once storage has failed:
/// the calls into the engine and the pauses, in their order. Nothing more is
/// written, flushed or dispatched.
pub open spec fn still_due_spec(pending: Seq<ActionModel>) -> Seq<ActionModel> {
    pending.filter(|a: ActionModel| is_engine_action(a))
}

/// What is still to be done of `pending`, the actions of a step that were not
/// yet performed when storage failed.
pub fn still_due(pending: &Vec<Action>) -> (due: Vec<Action>)
    ensures
        models(due@) == still_due_spec(models(pending@)),
{
    let mut due: Vec<Action> = Vec::new();
    let mut i: usize = 0;
    let ghost all = models(pending@);
    let ghost keep = |a: ActionModel| is_engine_action(a);
    proof {
        reveal(Seq::filter);
        assert(all.take(0) =~= Seq::<ActionModel>::empty());
        assert(models(due@) =~= all.take(0).filter(keep));
    }
    while i < pending.len()
        invariant
            i <= pending.len(),
            all == models(pending@),
            keep == (|a: ActionModel| is_engine_action(a)),
            models(due@) == all.take(i as int).filter(keep),
        decreases pending.len() - i,
    {
        let ghost before = due@;
        proof {
            reveal(Seq::filter);
            let next = all.take(i + 1);
            assert(next.drop_last() =~= all.take(i as int));
            assert(next.last() == pending@[i as int]@);
        }
        match &pending[i] {
            Action::DisableWakenet => {
                due.push(Action::DisableWakenet);
                assert(models(due@) =~= models(before).push(ActionModel::DisableWakenet));
            },
            Action::EnableWakenet => {
                due.push(Action::EnableWakenet);
                assert(models(due@) =~= models(before).push(ActionModel::EnableWakenet));
            },
            Action::CleanCommands => {
                due.push(Action::CleanCommands);
                assert(models(due@) =~= models(before).push(ActionModel::CleanCommands));
            },
            Action::Backoff { millis } => {
                due.push(Action::Backoff { millis: *millis });
                assert(models(due@) =~= models(before).push(
                    ActionModel::Backoff { millis: *millis as nat },
                ));
            },
            _ => {},
        }
        i += 1;
    }
    proof {
        assert(all.take(pending.len() as int) =~= all);
    }
    due
}

/// Whether a polled response is the exit phrase.
pub fn is_exit_phrase(response: &Option<String>) -> (r: bool)
    ensures
        r == (response matches Some(t) && t@ == EXIT_PHRASE@),
{
    match response {
        Some(t) => same_text(t.as_str(), EXIT_PHRASE),
        None => false,
    }
}

/// The format of a recording.
#[derive(Debug, Clone, Copy, PartialEq, Eq, Structural)]
pub struct RecordingFormat {
    pub channels: u16,
    /// Samples per second.
    pub sample_rate: u32,
    pub bits_per_sample: u16,
}

/// The format in which every recording is written: mono, 16 bits a sample,
/// 16 kHz.
pub fn recording_format() -> (format: RecordingFormat)
    ensures
        format == (RecordingFormat { channels: 1, sample_rate: 16000, bits_per_sample: 16 }),
{
    RecordingFormat { channels: 1, sample_rate: 16000, bits_per_sample: 16 }
}

/// Why a durable flush failed.
#[derive(Debug, Clone, Copy, PartialEq, Eq, Structural)]
pub enum FlushError {
    /// The sentinel file could not be created.
    CreateFailed,
    /// The sentinel file could not be synced.
    SyncFailed,
}

/// How far a durable flush has come, and how its last step went.
#[derive(Debug, Clone, Copy, PartialEq, Eq, Structural)]
pub enum FlushProgress {
    /// Nothing was done yet.
    Started,
    /// Creating the sentinel file was tried.
    Created { ok: bool },
    /// Syncing the sentinel file was tried.
    Synced { ok: bool },
    /// Deleting the sentinel file was tried.
    Removed { ok: bool },
}

/// What a durable flush does next.
#[derive(Debug, Clone, Copy, PartialEq, Eq, Structural)]
pub enum FlushStep {
    /// Create the sentinel file.
    Create,
    /// Force a sync of the sentinel file.
    Sync,
    /// Close the sentinel file and delete it.
    Remove,
    /// Stop: the volume has committed.
    Succeeded,
    /// Stop: the flush failed. Nothing more is tried.
    Failed { error: FlushError },
}

/// The sequence of a durable flush: create the sentinel, sync it, delete it.
/// A sentinel that could not be created or synced ends the flush with a
/// failure at once; deleting is due exactly when the sentinel was created and
/// synced, and a sentinel that could not be deleted does not count against
/// the flush.
pub open spec fn flush_spec(progress: FlushProgress) -> FlushStep {
    match progress {
        FlushProgress::Started => FlushStep::Create,
        FlushProgress::Created { ok } => if ok {
            FlushStep::Sync
        } else {
            FlushStep::Failed { error: FlushError::CreateFailed }
        },
        FlushProgress::Synced { ok } => if ok {
            FlushStep::Remove
        } else {
            FlushStep::Failed { error: FlushError::SyncFailed }
        },
        FlushProgress::Removed { ok } => FlushStep::Succeeded,
    }
}

/// What a durable flush does next, from how far it has come.
pub fn flush_next(progress: FlushProgress) -> (step: FlushStep)
    ensures
        step == flush_spec(progress),
{
    match progress {
        FlushProgress::Started => FlushStep::Create,
        FlushProgress::Created { ok } => if ok {
            FlushStep::Sync
        } else {
            FlushStep::Failed { error: FlushError::CreateFailed }
        },
        FlushProgress::Synced { ok } => if ok {
            FlushStep::Remove
        } else {
            FlushStep::Failed { error: FlushError::SyncFailed }
        },
        FlushProgress::Removed { ok } => FlushStep::Succeeded,
    }
}

} // verus!
