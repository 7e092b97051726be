use ai_chatbox::audio_processing::State;
use ai_chatbox::session::{
    flush_next, flush_sentinel, is_exit_phrase, recording_format, recording_name, recording_path,
    silence_threshold, still_due, watch_for, Action, CommandDetection, FetchResult, FlushError,
    FlushProgress, FlushStep, Observation, RecordingFormat, RecordingSession, SessionStateMachine,
    VadState, Watch, EXIT_PHRASE, FETCH_RETRY_MS,
};
use ai_chatbox::dispatch::DispatchBus;
use ai_chatbox::transcription::{ConversationWorker, TranscriptionMessage, WorkerAction};

fn frame(wake: bool, vad: VadState, samples: Vec<i16>) -> Observation {
    Observation {
        fetch: Some(FetchResult { ok: true, wake_detected: wake, vad, samples, cache: None }),
        command: CommandDetection::NoMatch,
        response: None,
    }
}

fn command(detection: CommandDetection) -> Observation {
    Observation { command: detection, ..frame(false, VadState::Silence, vec![0; 4]) }
}

fn step(machine: &mut SessionStateMachine, obs: Observation) -> Vec<Action> {
    assert!(machine.accepts(&obs));
    machine.step(obs)
}

fn recording(threshold: u64) -> SessionStateMachine {
    let mut machine = SessionStateMachine::new("/vfat".to_string(), threshold);
    step(&mut machine, frame(true, VadState::Silence, vec![]));
    step(&mut machine, command(CommandDetection::Detected));
    assert_eq!(machine.state(), State::Recording);
    machine
}

#[test]
fn new_machine_waits_for_the_wake_word() {
    let machine = SessionStateMachine::new("/vfat".to_string(), 126);
    assert_eq!(machine.state(), State::WakeWordDetecting);
    assert_eq!(machine.next_index(), 0);
    assert_eq!(machine.session(), None);
    assert_eq!(machine.threshold(), 126);
    assert_eq!(machine.root(), "/vfat");
}

#[test]
fn scenario_wake_then_command_opens_audio0() {
    let mut machine = SessionStateMachine::new("/vfat".to_string(), 126);
    let actions = step(&mut machine, frame(true, VadState::Speech, vec![1, 2, 3]));
    assert_eq!(machine.state(), State::CommandConfirming);
    assert_eq!(actions, vec![Action::DisableWakenet, Action::CleanCommands]);

    let actions = step(&mut machine, command(CommandDetection::Detected));
    assert_eq!(machine.state(), State::Recording);
    assert_eq!(
        actions,
        vec![Action::OpenSession { index: 0, path: "/vfat/audio0.wav".to_string() }]
    );
    assert_eq!(recording_name(0), "audio0");
    assert_eq!(
        machine.session(),
        Some(RecordingSession { index: 0, sample_count: 0, silence_frames: 0 })
    );
    assert_eq!(machine.next_index(), 1);
}

#[test]
fn scenario_silence_ends_the_session_and_dispatches_it() {
    let threshold = silence_threshold(16000, 256, 2).unwrap();
    let mut machine = SessionStateMachine::new("/vfat".to_string(), threshold);
    step(&mut machine, frame(true, VadState::Silence, vec![]));
    step(&mut machine, command(CommandDetection::Detected));
    let actions = step(&mut machine, frame(false, VadState::Speech, vec![7; 256]));
    assert_eq!(actions, vec![Action::AppendSamples { samples: vec![7; 256] }]);
    for _ in 1..threshold {
        let actions = step(&mut machine, frame(false, VadState::Silence, vec![0; 256]));
        assert_eq!(actions, vec![]);
        assert_eq!(machine.state(), State::Recording);
    }
    let actions = step(&mut machine, frame(false, VadState::Silence, vec![0; 256]));
    assert_eq!(
        actions,
        vec![
            Action::FinalizeSession,
            Action::FlushStorage { sentinel: "/vfat/flush.tmp".to_string() },
            Action::Send {
                message: TranscriptionMessage::TranscribeFile {
                    path: "/vfat/audio0.wav".to_string()
                }
            },
            Action::EnableWakenet,
        ]
    );
    assert_eq!(machine.state(), State::WakeWordDetecting);
    assert_eq!(machine.session(), None);
}

#[test]
fn empty_session_is_closed_but_not_dispatched() {
    let mut machine = recording(3);
    step(&mut machine, frame(false, VadState::Silence, vec![0; 8]));
    step(&mut machine, frame(false, VadState::Silence, vec![0; 8]));
    let actions = step(&mut machine, frame(false, VadState::Silence, vec![0; 8]));
    assert_eq!(
        actions,
        vec![
            Action::FinalizeSession,
            Action::FlushStorage { sentinel: "/vfat/flush.tmp".to_string() },
            Action::EnableWakenet,
        ]
    );
    assert!(!actions.iter().any(|a| matches!(a, Action::Send { .. })));
    assert_eq!(machine.state(), State::WakeWordDetecting);
}

#[test]
fn speech_frame_without_samples_does_not_make_a_session_dispatchable() {
    let mut machine = recording(1);
    let actions = step(&mut machine, frame(false, VadState::Speech, vec![]));
    assert_eq!(actions, vec![Action::AppendSamples { samples: vec![] }]);
    let actions = step(&mut machine, frame(false, VadState::Silence, vec![]));
    assert!(!actions.iter().any(|a| matches!(a, Action::Send { .. })));
}

#[test]
fn speech_resets_the_silence_counter() {
    let mut machine = recording(10);
    for expected in 1..=7u64 {
        step(&mut machine, frame(false, VadState::Silence, vec![0; 4]));
        assert_eq!(machine.session().unwrap().silence_frames, expected);
    }
    step(&mut machine, frame(false, VadState::Speech, vec![5; 4]));
    assert_eq!(machine.session().unwrap().silence_frames, 0);
    assert_eq!(machine.session().unwrap().sample_count, 4);
    assert_eq!(machine.state(), State::Recording);
}

#[test]
fn cached_samples_are_written_before_the_frame() {
    let mut machine = recording(10);
    let obs = Observation {
        fetch: Some(FetchResult {
            ok: true,
            wake_detected: false,
            vad: VadState::Speech,
            samples: vec![4, 5],
            cache: Some(vec![1, 2, 3]),
        }),
        command: CommandDetection::NoMatch,
        response: None,
    };
    let actions = step(&mut machine, obs);
    assert_eq!(actions, vec![Action::AppendSamples { samples: vec![1, 2, 3, 4, 5] }]);
    assert_eq!(machine.session().unwrap().sample_count, 5);
}

#[test]
fn exit_phrase_ends_recording_once() {
    let mut machine = recording(10);
    step(&mut machine, frame(false, VadState::Speech, vec![9; 16]));
    let obs = Observation {
        response: Some(EXIT_PHRASE.to_string()),
        ..frame(false, VadState::Speech, vec![9; 16])
    };
    let actions = step(&mut machine, obs.clone());
    assert_eq!(actions, vec![Action::FinalizeSession, Action::EnableWakenet]);
    assert_eq!(machine.state(), State::WakeWordDetecting);
    assert_eq!(machine.session(), None);

    // The same phrase again: the response is not read while waiting.
    let actions = step(&mut machine, obs);
    assert_eq!(actions, vec![]);
    assert_eq!(machine.state(), State::WakeWordDetecting);
}

#[test]
fn other_responses_do_not_end_recording() {
    let mut machine = recording(10);
    let obs = Observation {
        response: Some("你好".to_string()),
        ..frame(false, VadState::Speech, vec![1, 2])
    };
    let actions = step(&mut machine, obs);
    assert_eq!(actions, vec![Action::AppendSamples { samples: vec![1, 2] }]);
    assert_eq!(machine.state(), State::Recording);
}

#[test]
fn exit_phrase_is_recognised_exactly() {
    assert_eq!(EXIT_PHRASE, "再见");
    assert!(is_exit_phrase(&Some("再见".to_string())));
    assert!(!is_exit_phrase(&Some("再见。".to_string())));
    assert!(!is_exit_phrase(&Some(String::new())));
    assert!(!is_exit_phrase(&None));
}

#[test]
fn detection_timeout_returns_to_wake_word() {
    let mut machine = SessionStateMachine::new("/vfat".to_string(), 126);
    step(&mut machine, frame(true, VadState::Silence, vec![]));
    let actions = step(&mut machine, command(CommandDetection::NoMatch));
    assert_eq!(actions, vec![]);
    assert_eq!(machine.state(), State::CommandConfirming);
    let actions = step(&mut machine, command(CommandDetection::Timeout));
    assert_eq!(actions, vec![Action::EnableWakenet]);
    assert_eq!(machine.state(), State::WakeWordDetecting);
    assert_eq!(machine.next_index(), 0);
}

#[test]
fn wake_word_is_ignored_unless_waiting_for_it() {
    let mut machine = recording(10);
    let actions = step(&mut machine, frame(true, VadState::Silence, vec![]));
    assert_eq!(actions, vec![]);
    assert_eq!(machine.state(), State::Recording);
}

#[test]
fn command_is_ignored_while_waiting_for_the_wake_word() {
    let mut machine = SessionStateMachine::new("/vfat".to_string(), 126);
    let actions = step(&mut machine, command(CommandDetection::Detected));
    assert_eq!(actions, vec![]);
    assert_eq!(machine.state(), State::WakeWordDetecting);
}

#[test]
fn failed_fetch_backs_off_in_every_state() {
    let failures = [
        Observation { fetch: None, command: CommandDetection::Detected, response: None },
        Observation {
            fetch: Some(FetchResult {
                ok: false,
                wake_detected: true,
                vad: VadState::Silence,
                samples: vec![1],
                cache: None,
            }),
            command: CommandDetection::Detected,
            response: Some(EXIT_PHRASE.to_string()),
        },
    ];
    assert_eq!(FETCH_RETRY_MS, 10);
    for failure in failures {
        let mut waiting = SessionStateMachine::new("/vfat".to_string(), 5);
        let mut confirming = waiting.clone();
        step(&mut confirming, frame(true, VadState::Silence, vec![]));
        let mut busy = recording(5);
        for machine in [&mut waiting, &mut confirming, &mut busy] {
            let before = machine.clone();
            let actions = step(machine, failure.clone());
            assert_eq!(actions, vec![Action::Backoff { millis: 10 }]);
            assert_eq!(*machine, before);
        }
    }
}

#[test]
fn storage_failure_abandons_the_session() {
    let mut machine = recording(10);
    step(&mut machine, frame(false, VadState::Speech, vec![1; 64]));
    let actions = machine.storage_failed();
    assert_eq!(actions, vec![Action::EnableWakenet]);
    assert_eq!(machine.state(), State::WakeWordDetecting);
    assert_eq!(machine.session(), None);
    assert_eq!(machine.next_index(), 1);

    let actions = machine.storage_failed();
    assert_eq!(actions, vec![]);
    assert_eq!(machine.state(), State::WakeWordDetecting);
}

#[test]
fn indices_increase_from_session_to_session() {
    let mut machine = SessionStateMachine::new("/sd".to_string(), 1);
    let mut opened = Vec::new();
    for round in 0..25u64 {
        step(&mut machine, frame(true, VadState::Silence, vec![]));
        for action in step(&mut machine, command(CommandDetection::Detected)) {
            if let Action::OpenSession { index, path } = action {
                assert_eq!(path, format!("/sd/audio{}.wav", index));
                opened.push(index);
            }
        }
        if round % 3 == 0 {
            machine.storage_failed();
        } else {
            step(&mut machine, frame(false, VadState::Silence, vec![]));
        }
        assert_eq!(machine.state(), State::WakeWordDetecting);
    }
    assert_eq!(opened, (0..25u64).collect::<Vec<u64>>());
    assert!(opened.windows(2).all(|w| w[0] < w[1]));
}

#[test]
fn machine_refuses_a_session_beyond_the_last_index() {
    let mut machine = SessionStateMachine::starting_at("/vfat".to_string(), 5, u64::MAX);
    step(&mut machine, frame(true, VadState::Silence, vec![]));
    assert_eq!(machine.state(), State::CommandConfirming);
    assert!(!machine.accepts(&command(CommandDetection::Detected)));
    assert!(machine.accepts(&command(CommandDetection::Timeout)));
    assert!(machine.accepts(&command(CommandDetection::NoMatch)));

    let mut machine = SessionStateMachine::starting_at("/vfat".to_string(), 5, u64::MAX - 1);
    step(&mut machine, frame(true, VadState::Silence, vec![]));
    assert!(machine.accepts(&command(CommandDetection::Detected)));
    let actions = machine.step(command(CommandDetection::Detected));
    assert_eq!(
        actions,
        vec![Action::OpenSession {
            index: 18446744073709551614,
            path: "/vfat/audio18446744073709551614.wav".to_string()
        }]
    );
    assert_eq!(machine.next_index(), u64::MAX);
}

#[test]
fn machine_numbers_recordings_from_where_it_is_told() {
    let mut machine = SessionStateMachine::starting_at("/sd".to_string(), 2, 41);
    assert_eq!(machine.state(), State::WakeWordDetecting);
    assert_eq!(machine.next_index(), 41);
    step(&mut machine, frame(true, VadState::Silence, vec![]));
    let actions = step(&mut machine, command(CommandDetection::Detected));
    assert_eq!(actions, vec![Action::OpenSession { index: 41, path: "/sd/audio41.wav".to_string() }]);
}

#[test]
fn engine_failure_asks_for_a_pause() {
    let machine = recording(3);
    let before = machine.clone();
    assert_eq!(machine.engine_failed(), vec![Action::Backoff { millis: 10 }]);
    assert_eq!(machine, before);
}

#[test]
fn recordings_are_mono_16_bit_16_khz() {
    let format = recording_format();
    assert_eq!(
        format,
        RecordingFormat { channels: 1, sample_rate: 16000, bits_per_sample: 16 }
    );
}

#[test]
fn threshold_of_zero_closes_on_the_first_silent_frame() {
    let mut machine = recording(0);
    step(&mut machine, frame(false, VadState::Speech, vec![3; 4]));
    assert_eq!(machine.state(), State::Recording);
    let actions = step(&mut machine, frame(false, VadState::Silence, vec![]));
    assert_eq!(actions.len(), 4);
    assert_eq!(machine.state(), State::WakeWordDetecting);
}

#[test]
fn silence_threshold_rounds_frames_per_second() {
    // 16000 / 256 = 62.5 frames per second: a half is rounded down, to 62.
    assert_eq!(silence_threshold(16000, 256, 1), Some(62));
    assert_eq!(silence_threshold(16000, 256, 2), Some(124));
    // 16000 / 512 = 31.25, rounded to 31.
    assert_eq!(silence_threshold(16000, 512, 2), Some(62));
    // 16000 / 240 = 66.67, rounded to 67.
    assert_eq!(silence_threshold(16000, 240, 1), Some(67));
    // 16000 / 320 = 50 exactly.
    assert_eq!(silence_threshold(16000, 320, 3), Some(150));
    // 10 / 4 = 2.5, rounded to 2; 9 / 4 = 2.25, rounded to 2; 11 / 4 = 2.75, rounded to 3.
    assert_eq!(silence_threshold(10, 4, 1), Some(2));
    assert_eq!(silence_threshold(9, 4, 1), Some(2));
    assert_eq!(silence_threshold(11, 4, 1), Some(3));
    // 1 / 2 = 0.5, rounded to 0; 3 / 2 = 1.5, rounded to 1.
    assert_eq!(silence_threshold(1, 2, 1), Some(0));
    assert_eq!(silence_threshold(3, 2, 1), Some(1));
    assert_eq!(silence_threshold(16000, 256, 0), Some(0));
    assert_eq!(silence_threshold(0, 256, 2), Some(0));
    assert_eq!(silence_threshold(16000, 0, 2), None);
    assert_eq!(
        silence_threshold(u32::MAX, 1, u32::MAX),
        Some(u32::MAX as u64 * u32::MAX as u64)
    );
    for rate in [1u32, 7, 100, 8000, 16000, 44100] {
        for size in [1u32, 2, 3, 160, 256, 480, 1024] {
            let frames = silence_threshold(rate, size, 1).unwrap();
            // No whole number is nearer to the quotient: twice the distance is within one.
            let twice_distance = (2 * frames as i64 * size as i64 - 2 * rate as i64).abs();
            assert!(twice_distance <= size as i64, "{} / {}", rate, size);
            assert_eq!(silence_threshold(rate, size, 5), Some(5 * frames));
        }
    }
}

#[test]
fn recording_paths_are_named_after_the_index() {
    assert_eq!(recording_path("/vfat", 0), "/vfat/audio0.wav");
    assert_eq!(recording_path("/vfat", 7), "/vfat/audio7.wav");
    assert_eq!(recording_path("/vfat", 10), "/vfat/audio10.wav");
    assert_eq!(recording_path("", 1234567890), "/audio1234567890.wav");
    assert_eq!(recording_name(42), "audio42");
    assert_eq!(recording_name(u64::MAX), "audio18446744073709551615");
    assert_ne!(recording_path("/vfat", 1), recording_path("/vfat", 10));
    assert_eq!(flush_sentinel("/vfat"), "/vfat/flush.tmp");
}

#[test]
fn flush_creates_syncs_and_deletes_in_that_order() {
    assert_eq!(flush_next(FlushProgress::Started), FlushStep::Create);
    assert_eq!(flush_next(FlushProgress::Created { ok: true }), FlushStep::Sync);
    assert_eq!(flush_next(FlushProgress::Synced { ok: true }), FlushStep::Remove);
    assert_eq!(flush_next(FlushProgress::Removed { ok: true }), FlushStep::Succeeded);
    // A sentinel that stays does not count against the flush.
    assert_eq!(flush_next(FlushProgress::Removed { ok: false }), FlushStep::Succeeded);
}

#[test]
fn failed_flush_stops_at_once_and_deletes_nothing() {
    assert_eq!(
        flush_next(FlushProgress::Created { ok: false }),
        FlushStep::Failed { error: FlushError::CreateFailed }
    );
    assert_eq!(
        flush_next(FlushProgress::Synced { ok: false }),
        FlushStep::Failed { error: FlushError::SyncFailed }
    );
    // Deleting is asked for after a sync that succeeded and at no other point.
    let all = [
        FlushProgress::Started,
        FlushProgress::Created { ok: true },
        FlushProgress::Created { ok: false },
        FlushProgress::Synced { ok: true },
        FlushProgress::Synced { ok: false },
        FlushProgress::Removed { ok: true },
        FlushProgress::Removed { ok: false },
    ];
    for progress in all {
        assert_eq!(
            flush_next(progress) == FlushStep::Remove,
            progress == FlushProgress::Synced { ok: true }
        );
    }
}

#[test]
fn each_state_says_what_is_to_be_observed() {
    assert_eq!(watch_for(State::WakeWordDetecting), Watch { command: false, response: false });
    assert_eq!(watch_for(State::CommandConfirming), Watch { command: true, response: false });
    assert_eq!(watch_for(State::Recording), Watch { command: false, response: true });
}

#[test]
fn step_is_refused_where_the_counters_are_used_up() {
    let mut machine = SessionStateMachine::starting_at("/vfat".to_string(), 5, u64::MAX);
    assert_eq!(
        machine.try_step(frame(true, VadState::Silence, vec![])),
        Some(vec![Action::DisableWakenet, Action::CleanCommands])
    );
    let before = machine.clone();
    assert_eq!(machine.try_step(command(CommandDetection::Detected)), None);
    assert_eq!(machine, before);
    assert_eq!(
        machine.try_step(command(CommandDetection::Timeout)),
        Some(vec![Action::EnableWakenet])
    );
    assert_eq!(machine.state(), State::WakeWordDetecting);
}

#[test]
fn pipeline_runs_a_conversation_to_its_goodbye() {
    let mut bus = DispatchBus::new();
    let mut machine = SessionStateMachine::new("/vfat".to_string(), 2);
    let mut worker = ConversationWorker::new("token");
    let mut spoken = Vec::new();

    // Wake word, command, one frame of speech, then silence.
    let mut frames = vec![
        frame(true, VadState::Silence, vec![]),
        command(CommandDetection::Detected),
        frame(false, VadState::Speech, vec![3; 256]),
        frame(false, VadState::Silence, vec![]),
        frame(false, VadState::Silence, vec![]),
        // A second session is under way when the transcript of the first comes back.
        frame(true, VadState::Silence, vec![]),
        command(CommandDetection::Detected),
        frame(false, VadState::Speech, vec![4; 256]),
        frame(false, VadState::Speech, vec![5; 256]),
    ];
    frames.reverse();
    while let Some(mut obs) = frames.pop() {
        if machine.state() == State::Recording {
            obs.response = bus.poll_response();
        }
        for action in step(&mut machine, obs) {
            if let Action::Send { message } = action {
                bus.send(message);
            }
        }
        // The worker takes what waits and the transcription service hears the exit phrase.
        while let Some(message) = bus.receive() {
            for action in worker.on_message(message) {
                if let WorkerAction::Transcribe { path } = action {
                    assert_eq!(path, "/vfat/audio0.wav");
                    for action in worker.on_transcript(Ok("再见".to_string())) {
                        match action {
                            WorkerAction::Respond { text } => bus.respond(text),
                            WorkerAction::Speak { text } => spoken.push(text),
                            other => panic!("unexpected {:?}", other),
                        }
                    }
                }
            }
        }
    }
    assert_eq!(spoken, vec!["再见"]);
    assert_eq!(machine.state(), State::WakeWordDetecting);
    assert_eq!(machine.session(), None);
    assert_eq!(machine.next_index(), 2);
    assert_eq!(bus, DispatchBus::new());
    assert_eq!(worker.conversation().message_history.len(), 1);
}

#[test]
fn after_a_storage_failure_only_the_engine_is_still_served() {
    let mut machine = recording(1);
    step(&mut machine, frame(false, VadState::Speech, vec![1; 8]));
    let closing = step(&mut machine, frame(false, VadState::Silence, vec![]));
    assert_eq!(closing.len(), 4);
    // Finalizing failed: flush and dispatch are dropped, wake-word spotting is switched on.
    assert_eq!(still_due(&closing[1..].to_vec()), vec![Action::EnableWakenet]);
    assert_eq!(machine.storage_failed(), vec![]);
    assert_eq!(machine.state(), State::WakeWordDetecting);

    assert_eq!(still_due(&vec![]), vec![]);
    assert_eq!(
        still_due(&vec![
            Action::DisableWakenet,
            Action::OpenSession { index: 3, path: "p".to_string() },
            Action::Backoff { millis: 10 },
            Action::AppendSamples { samples: vec![1] },
            Action::CleanCommands,
            Action::FinalizeSession,
            Action::FlushStorage { sentinel: "s".to_string() },
            Action::Send { message: TranscriptionMessage::Shutdown },
            Action::EnableWakenet,
        ]),
        vec![
            Action::DisableWakenet,
            Action::Backoff { millis: 10 },
            Action::CleanCommands,
            Action::EnableWakenet,
        ]
    );
}
