//! Detection states of the session state machine and the wording of its
//! transition log.

use vstd::prelude::*;

verus! {

/// What the session state machine is currently doing with the audio stream.
#[derive(Debug, Clone, Copy, PartialEq, Eq, Structural)]
pub enum State {
    /// Waiting for the wake word to be detected.
    WakeWordDetecting,
    /// Wake word heard; waiting for a spoken command to confirm it.
    CommandConfirming,
    /// Recording audio into the open session.
    Recording,
}

/// Severity at which a transition is reported.
#[derive(Debug, Clone, Copy, PartialEq, Eq, Structural)]
pub enum LogLevel {
    Debug,
    Info,
}

/// One line for the log: what to say and how loudly.
#[derive(Debug, Clone, PartialEq, Eq)]
pub struct TransitionLog {
    pub level: LogLevel,
    pub message: String,
}

/// The variant's name, as it appears in log lines.
pub open spec fn state_name(s: State) -> Seq<char> {
    match s {
        State::WakeWordDetecting => "WakeWordDetecting"@,
        State::CommandConfirming => "CommandConfirming"@,
        State::Recording => "Recording"@,
    }
}

/// Human-readable description of a state.
pub open spec fn state_description(s: State) -> Seq<char> {
    match s {
        State::WakeWordDetecting => "Waiting for wake word"@,
        State::CommandConfirming => "Confirming command"@,
        State::Recording => "Recording audio"@,
    }
}

/// The log line for a step from `from` to `to`.
pub open spec fn transition_message(from: State, to: State, reason: Seq<char>) -> Seq<char> {
    if from == to {
        "State remains at "@ + state_name(to) + " ("@ + state_description(to) + "): "@ + reason
    } else {
        "State transition: "@ + state_name(from) + " -> "@ + state_name(to) + " ("@
            + state_description(from) + " → "@ + state_description(to) + "): "@ + reason
    }
}

impl State {
    /// The variant's name.
    pub fn name(&self) -> (r: &'static str)
        ensures
            r@ == state_name(*self),
    {
        match self {
            State::WakeWordDetecting => "WakeWordDetecting",
            State::CommandConfirming => "CommandConfirming",
            State::Recording => "Recording",
        }
    }

    /// Returns a human-readable description of the state.
    pub fn description(&self) -> (r: &'static str)
        ensures
            r@ == state_description(*self),
    {
        match self {
            State::WakeWordDetecting => "Waiting for wake word",
            State::CommandConfirming => "Confirming command",
            State::Recording => "Recording audio",
        }
    }

    /// Words a state transition for the log. A step that stays in place is
    /// reported at debug level, a change of state at info level.
    pub fn log_transition(from: State, to: State, reason: &str) -> (r: TransitionLog)
        ensures
            r.level == (if from == to { LogLevel::Debug } else { LogLevel::Info }),
            r.message@ == transition_message(from, to, reason@),
    {
        if from == to {
            let mut m = String::from_str("State remains at ");
            m.append(to.name());
            m.append(" (");
            m.append(to.description());
            m.append("): ");
            m.append(reason);
            TransitionLog { level: LogLevel::Debug, message: m }
        } else {
            let mut m = String::from_str("State transition: ");
            m.append(from.name());
            m.append(" -> ");
            m.append(to.name());
            m.append(" (");
            m.append(from.description());
            m.append(" → ");
            m.append(to.description());
            m.append("): ");
            m.append(reason);
            TransitionLog { level: LogLevel::Info, message: m }
        }
    }
}

} // verus!
