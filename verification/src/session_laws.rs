//! What holds of the session state machine for every state and every
//! observation, and for every sequence of events.

use vstd::prelude::*;
use crate::audio_processing::State;
use crate::session::{
    abandon_spec, frames_per_second, model_wf, session_name, session_path, step_spec, ActionModel,
    CommandDetection, MachineModel, ObservationModel, VadState, EXIT_PHRASE,
};
use crate::text::{decimal, lemma_decimal_injective};
use crate::transcription::MessageModel;

verus! {

/// The events that move the machine from one state to another.
pub enum Trigger {
    WakeDetected,
    CommandMatched,
    DetectionTimeout,
    SilenceElapsed,
    ExitPhrase,
}

/// The transition table: the state that `t` leads to from `from`, where the
/// table has a row for the two.
pub open spec fn table(from: State, t: Trigger) -> Option<State> {
    match (from, t) {
        (State::WakeWordDetecting, Trigger::WakeDetected) => Some(State::CommandConfirming),
        (State::CommandConfirming, Trigger::CommandMatched) => Some(State::Recording),
        (State::CommandConfirming, Trigger::DetectionTimeout) => Some(State::WakeWordDetecting),
        (State::Recording, Trigger::SilenceElapsed) => Some(State::WakeWordDetecting),
        (State::Recording, Trigger::ExitPhrase) => Some(State::WakeWordDetecting),
        _ => None,
    }
}

/// The event that an observation amounts to in the machine's present state,
/// if it amounts to any.
pub open spec fn trigger(m: MachineModel, obs: ObservationModel) -> Option<Trigger> {
    match obs.fetch {
        Some(f) if f.ok => match m.state {
            State::WakeWordDetecting => if f.wake_detected {
                Some(Trigger::WakeDetected)
            } else {
                None
            },
            State::CommandConfirming => match obs.command {
                CommandDetection::Detected => Some(Trigger::CommandMatched),
                CommandDetection::Timeout => Some(Trigger::DetectionTimeout),
                CommandDetection::NoMatch => None,
            },
            State::Recording => match m.session {
                Some(s) => if obs.response == Some(EXIT_PHRASE@) {
                    Some(Trigger::ExitPhrase)
                } else if f.vad == VadState::Silence && s.silence_frames + 1 >= m.threshold {
                    Some(Trigger::SilenceElapsed)
                } else {
                    None
                },
                None => None,
            },
        },
        _ => None,
    }
}

/// Every step follows the transition table: where the observation amounts to
/// an event, the table has a row for it and the machine goes where the row
/// says; where it amounts to none, the state stays. No step leads from waiting
/// for the wake word straight into recording, and a step keeps the bookkeeping
/// consistent.
pub proof fn law_steps_follow_table(m: MachineModel, obs: ObservationModel)
    requires
        model_wf(m),
    ensures
        model_wf(step_spec(m, obs).0),
        match trigger(m, obs) {
            Some(t) => table(m.state, t) == Some(step_spec(m, obs).0.state),
            None => step_spec(m, obs).0.state == m.state,
        },
        !(m.state == State::WakeWordDetecting && step_spec(m, obs).0.state == State::Recording),
        !(m.state == State::Recording && step_spec(m, obs).0.state == State::CommandConfirming),
{
}

/// The side effects of each row of the table. Entering command confirmation
/// stops wake-word spotting and resets the matcher; a matched command opens
/// the session with the next index; every way back to waiting for the wake
/// word ends with wake-word spotting switched on again.
pub proof fn law_row_effects(m: MachineModel, obs: ObservationModel)
    requires
        model_wf(m),
    ensures
        ({
            let (next, actions) = step_spec(m, obs);
            match trigger(m, obs) {
                Some(Trigger::WakeDetected) => actions == seq![
                    ActionModel::DisableWakenet,
                    ActionModel::CleanCommands,
                ],
                Some(Trigger::CommandMatched) => {
                    &&& actions.len() == 1
                    &&& actions[0] is OpenSession
                    &&& actions[0]->OpenSession_index == m.next_index
                    &&& next.next_index == m.next_index + 1
                    &&& next.session matches Some(s) && s.index == m.next_index && s.sample_count
                        == 0 && s.silence_frames == 0
                },
                Some(Trigger::DetectionTimeout) => actions == seq![ActionModel::EnableWakenet],
                Some(Trigger::SilenceElapsed) => {
                    &&& next.session is None
                    &&& actions[0] == ActionModel::FinalizeSession
                    &&& actions[1] is FlushStorage
                    &&& actions.last() == ActionModel::EnableWakenet
                },
                Some(Trigger::ExitPhrase) => {
                    &&& next.session is None
                    &&& actions == seq![ActionModel::FinalizeSession, ActionModel::EnableWakenet]
                },
                None => next.state == m.state,
            }
        }),
{
}

/// A recording is dispatched for transcription in one case only: enough
/// silence ends a session that holds at least one sample. The message then
/// names that session's file.
pub proof fn law_dispatch_needs_samples(m: MachineModel, obs: ObservationModel, i: int)
    requires
        model_wf(m),
        0 <= i < step_spec(m, obs).1.len(),
        step_spec(m, obs).1[i] is Send,
    ensures
        trigger(m, obs) == Some(Trigger::SilenceElapsed),
        m.session matches Some(s) && s.sample_count > 0 && step_spec(m, obs).1[i]
            == (ActionModel::Send {
            message: MessageModel::TranscribeFile {
                path: crate::session::session_path(m.root, s.index),
            },
        }),
{
}

/// A frame classified as speech resets the silence counter to zero, whatever
/// it was, and the samples it carries are counted.
pub proof fn law_speech_resets_silence(m: MachineModel, obs: ObservationModel)
    requires
        model_wf(m),
        m.state == State::Recording,
        obs.fetch matches Some(f) && f.ok && f.vad == VadState::Speech,
        obs.response != Some(EXIT_PHRASE@),
    ensures
        step_spec(m, obs).0.state == State::Recording,
        step_spec(m, obs).0.session matches Some(s) && s.silence_frames == 0 && s.index
            == m.session->0.index && s.sample_count == m.session->0.sample_count
            + crate::session::frame_samples(obs.fetch->0).len(),
{
}

/// The exit phrase, received while recording, ends the session: the machine
/// goes back to waiting for the wake word, wake-word spotting is switched on
/// once, and nothing is dispatched. In that state the response channel is not
/// read, so the same phrase cannot act a second time.
pub proof fn law_exit_phrase_acts_once(m: MachineModel, obs: ObservationModel)
    requires
        model_wf(m),
        obs.fetch matches Some(f) && f.ok,
        obs.response == Some(EXIT_PHRASE@),
    ensures
        m.state == State::Recording ==> step_spec(m, obs) == (
            MachineModel { state: State::WakeWordDetecting, session: None, ..m },
            seq![ActionModel::FinalizeSession, ActionModel::EnableWakenet],
        ),
        m.state != State::Recording ==> step_spec(m, obs) == step_spec(
            m,
            ObservationModel { response: None, ..obs },
        ),
{
}

/// What can happen to the machine between two steps.
pub enum EventModel {
    /// The fetch loop made an observation.
    Observed(ObservationModel),
    /// Storage failed while an action was carried out.
    StorageFailed,
}

/// The machine's reaction to one event.
pub open spec fn react(m: MachineModel, e: EventModel) -> (MachineModel, Seq<ActionModel>) {
    match e {
        EventModel::Observed(obs) => step_spec(m, obs),
        EventModel::StorageFailed => abandon_spec(m),
    }
}

/// The machine after a sequence of events, with all the actions it asked for
/// on the way, in order.
pub open spec fn run(m: MachineModel, events: Seq<EventModel>) -> (MachineModel, Seq<ActionModel>)
    decreases events.len(),
{
    if events.len() == 0 {
        (m, seq![])
    } else {
        let (next, first) = react(m, events[0]);
        let (last, rest) = run(next, events.drop_first());
        (last, first + rest)
    }
}

/// One event opens at most one session, under the index that was next, and
/// the next index never goes down.
proof fn lemma_react_opens(m: MachineModel, e: EventModel)
    requires
        model_wf(m),
    ensures
        model_wf(react(m, e).0),
        react(m, e).0.next_index >= m.next_index,
        react(m, e).0.root == m.root,
        forall|i: int|
            0 <= i < react(m, e).1.len() && (#[trigger] react(m, e).1[i]) is OpenSession ==> {
                &&& react(m, e).1[i]->OpenSession_index == m.next_index
                &&& react(m, e).0.next_index == m.next_index + 1
                &&& react(m, e).1.len() == 1
            },
{
}

/// Whatever the events, the indices under which sessions are opened are
/// strictly increasing, so none is used twice; each is at least the index
/// that was next at the start and below the one that is next at the end.
pub proof fn law_indices_increase(m: MachineModel, events: Seq<EventModel>)
    requires
        model_wf(m),
    ensures
        model_wf(run(m, events).0),
        run(m, events).0.next_index >= m.next_index,
        forall|i: int|
            0 <= i < run(m, events).1.len() && (#[trigger] run(m, events).1[i]) is OpenSession
                ==> m.next_index <= run(m, events).1[i]->OpenSession_index < run(
                m,
                events,
            ).0.next_index,
        forall|i: int, j: int|
            0 <= i < j < run(m, events).1.len() && (#[trigger] run(m, events).1[i]) is OpenSession
                && (#[trigger] run(m, events).1[j]) is OpenSession ==> run(
                m,
                events,
            ).1[i]->OpenSession_index < run(m, events).1[j]->OpenSession_index,
    decreases events.len(),
{
    if events.len() > 0 {
        let (next, first) = react(m, events[0]);
        let (last, rest) = run(next, events.drop_first());
        lemma_react_opens(m, events[0]);
        law_indices_increase(next, events.drop_first());
        let all = run(m, events).1;
        assert(all == first + rest);
        assert forall|i: int| 0 <= i < all.len() && (#[trigger] all[i]) is OpenSession implies m.next_index
            <= all[i]->OpenSession_index < last.next_index by {
            if i < first.len() {
                assert(all[i] == first[i]);
            } else {
                assert(all[i] == rest[i - first.len()]);
            }
        }
        assert forall|i: int, j: int|
            0 <= i < j < all.len() && (#[trigger] all[i]) is OpenSession && (#[trigger] all[j]) is OpenSession implies all[i]->OpenSession_index
            < all[j]->OpenSession_index by {
            if j < first.len() {
                assert(all[i] == first[i]);
                assert(all[j] == first[j]);
            } else if i < first.len() {
                assert(all[i] == first[i]);
                assert(all[j] == rest[j - first.len()]);
            } else {
                assert(all[i] == rest[i - first.len()]);
                assert(all[j] == rest[j - first.len()]);
            }
        }
    }
}

/// A session to which no sample was appended is never dispatched: in a run
/// that starts without samples in the open session and in which no action
/// appends a sample, no message is sent.
pub proof fn law_empty_sessions_stay_home(m: MachineModel, events: Seq<EventModel>)
    requires
        model_wf(m),
        m.session matches Some(s) ==> s.sample_count == 0,
        forall|i: int|
            0 <= i < run(m, events).1.len() && (#[trigger] run(m, events).1[i]) is AppendSamples
                ==> run(m, events).1[i]->AppendSamples_samples.len() == 0,
    ensures
        forall|i: int| 0 <= i < run(m, events).1.len() ==> !((#[trigger] run(m, events).1[i]) is Send),
        run(m, events).0.session matches Some(s) ==> s.sample_count == 0,
    decreases events.len(),
{
    if events.len() > 0 {
        let (next, first) = react(m, events[0]);
        let (last, rest) = run(next, events.drop_first());
        let all = run(m, events).1;
        assert(all == first + rest);
        lemma_react_opens(m, events[0]);
        assert forall|i: int| 0 <= i < first.len() && (#[trigger] first[i]) is AppendSamples implies first[i]->AppendSamples_samples.len()
            == 0 by {
            assert(all[i] == first[i]);
        }
        assert(next.session matches Some(s) ==> s.sample_count == 0) by {
            if first.len() > 0 && first[0] is AppendSamples {
            }
        }
        assert forall|i: int| 0 <= i < rest.len() && (#[trigger] rest[i]) is AppendSamples implies rest[i]->AppendSamples_samples.len()
            == 0 by {
            assert(all[i + first.len()] == rest[i]);
        }
        law_empty_sessions_stay_home(next, events.drop_first());
        assert forall|i: int| 0 <= i < all.len() implies !((#[trigger] all[i]) is Send) by {
            if i < first.len() {
                assert(all[i] == first[i]);
            } else {
                assert(all[i] == rest[i - first.len()]);
            }
        }
    }
}

/// Recordings with different indices have different names and lie at
/// different paths: no file is written twice.
pub proof fn law_paths_differ(root: Seq<char>, i: nat, j: nat)
    requires
        i != j,
    ensures
        session_name(i) != session_name(j),
        session_path(root, i) != session_path(root, j),
{
    let head = root + "/"@ + "audio"@;
    let tail = ".wav"@;
    assert(session_path(root, i) =~= head + decimal(i) + tail);
    assert(session_path(root, j) =~= head + decimal(j) + tail);
    if session_path(root, i) == session_path(root, j) {
        let p = session_path(root, i);
        assert(decimal(i) =~= p.subrange(head.len() as int, p.len() - tail.len()));
        assert(decimal(j) =~= p.subrange(head.len() as int, p.len() - tail.len()));
        lemma_decimal_injective(i, j);
    }
    if session_name(i) == session_name(j) {
        let n = session_name(i);
        assert(decimal(i) =~= n.subrange("audio"@.len() as int, n.len() as int));
        assert(decimal(j) =~= n.subrange("audio"@.len() as int, n.len() as int));
        lemma_decimal_injective(i, j);
    }
}

/// Whether the machine may be in `to` one event after it was in `from`:
/// it may stay, or take a row of the transition table.
pub open spec fn may_follow(from: State, to: State) -> bool {
    from == to || exists|t: Trigger| table(from, t) == Some(to)
}

/// The states a machine passes through on a sequence of events: where it
/// starts, and where it is after each event.
pub open spec fn states(m: MachineModel, events: Seq<EventModel>) -> Seq<State>
    decreases events.len(),
{
    if events.len() == 0 {
        seq![m.state]
    } else {
        seq![m.state] + states(react(m, events[0]).0, events.drop_first())
    }
}

/// One event takes the machine along a row of the table, or nowhere. A
/// storage failure takes it where enough silence would.
proof fn lemma_react_follows_table(m: MachineModel, e: EventModel)
    requires
        model_wf(m),
    ensures
        model_wf(react(m, e).0),
        may_follow(m.state, react(m, e).0.state),
{
    let next = react(m, e).0;
    match e {
        EventModel::Observed(obs) => {
            law_steps_follow_table(m, obs);
            if let Some(t) = trigger(m, obs) {
                assert(table(m.state, t) == Some(next.state));
            }
        },
        EventModel::StorageFailed => {
            if m.session is Some {
                assert(table(m.state, Trigger::SilenceElapsed) == Some(next.state));
            }
        },
    }
}

/// Whatever the events, the machine moves from state to state by the rows of
/// the transition table and in no other way: each state it passes through
/// follows the one before by a row, or is the same state. It starts in the
/// state it is in, and passes through one state for each event.
pub proof fn law_runs_follow_table(m: MachineModel, events: Seq<EventModel>)
    requires
        model_wf(m),
    ensures
        states(m, events).len() == events.len() + 1,
        states(m, events)[0] == m.state,
        states(m, events).last() == run(m, events).0.state,
        forall|k: int|
            0 <= k < events.len() ==> may_follow(
                #[trigger] states(m, events)[k],
                states(m, events)[k + 1],
            ),
    decreases events.len(),
{
    if events.len() > 0 {
        let next = react(m, events[0]).0;
        let rest = states(next, events.drop_first());
        lemma_react_follows_table(m, events[0]);
        law_runs_follow_table(next, events.drop_first());
        let all = states(m, events);
        assert(all == seq![m.state] + rest);
        assert forall|k: int| 0 <= k < events.len() implies may_follow(
            #[trigger] all[k],
            all[k + 1],
        ) by {
            if k == 0 {
                assert(all[1] == rest[0]);
            } else {
                assert(all[k] == rest[k - 1]);
                assert(all[k + 1] == rest[k]);
            }
        }
    }
}

/// The frames per second are the whole number nearest to the quotient of
/// sample rate and frame size: twice their distance from it is no more than
/// one, and where two whole numbers are equally near, the smaller is taken.
pub proof fn law_frames_are_nearest(sample_rate: nat, frame_size: nat)
    requires
        frame_size > 0,
    ensures
        2 * sample_rate - frame_size <= 2 * frame_size * frames_per_second(sample_rate, frame_size)
            < 2 * sample_rate + frame_size,
{
    let n: int = 2 * sample_rate + frame_size - 1;
    let d: int = 2 * (frame_size as int);
    let q: int = n / d;
    assert(d * q <= n < d * q + d) by (nonlinear_arith)
        requires
            d > 0,
            n >= 0,
            q == n / d,
    ;
    assert(q >= 0) by (nonlinear_arith)
        requires
            d > 0,
            n >= 0,
            q == n / d,
    ;
    assert(2 * frame_size * q == d * q) by (nonlinear_arith)
        requires
            d == 2 * frame_size,
    ;
}

/// A step reads of an observation what the state asks to be observed and
/// nothing else: the command matcher's verdict has no influence unless a
/// command is being confirmed, and a polled response has none unless the
/// machine is recording.
pub proof fn law_unwatched_is_ignored(m: MachineModel, obs: ObservationModel)
    ensures
        !crate::session::watch_spec(m.state).command ==> step_spec(m, obs) == step_spec(
            m,
            ObservationModel { command: CommandDetection::NoMatch, ..obs },
        ),
        !crate::session::watch_spec(m.state).response ==> step_spec(m, obs) == step_spec(
            m,
            ObservationModel { response: None, ..obs },
        ),
{
}

} // verus!
